use subgrep::{detect, sniff, SubtitleFormat};

const SRT: &str = "1\n00:00:01,000 --> 00:00:02,000\nHello\n";
const SSA: &str = "[Script Info]\nTitle: sample\n";
const IDX: &str = "# VobSub index file, v7 (do not modify this line!)\n";
const MDVD: &str = "{0}{25}Hello!";
const VOBSUB: [u8; 6] = [0x00, 0x00, 0x01, 0xba, 0x44, 0x00];

#[test]
fn known_extensions_decide() {
    assert_eq!(detect(Some("srt"), b""), Some(SubtitleFormat::SubRip));
    assert_eq!(detect(Some("ssa"), b""), Some(SubtitleFormat::SubStationAlpha));
    assert_eq!(detect(Some("ass"), b""), Some(SubtitleFormat::SubStationAlpha));
    assert_eq!(detect(Some("idx"), b""), Some(SubtitleFormat::VobSubIdx));
}

#[test]
fn known_extension_wins_over_content() {
    assert_eq!(detect(Some("srt"), SSA.as_bytes()), Some(SubtitleFormat::SubRip));
    assert_eq!(detect(Some("idx"), MDVD.as_bytes()), Some(SubtitleFormat::VobSubIdx));
}

#[test]
fn extension_case_is_ignored() {
    assert_eq!(detect(Some("SRT"), b""), Some(SubtitleFormat::SubRip));
    assert_eq!(detect(Some("Ass"), b""), Some(SubtitleFormat::SubStationAlpha));
    assert_eq!(detect(Some("iDx"), b""), Some(SubtitleFormat::VobSubIdx));
    assert_eq!(detect(Some("SUB"), &VOBSUB), Some(SubtitleFormat::VobSubSub));
    assert_eq!(detect(Some("Sub"), MDVD.as_bytes()), Some(SubtitleFormat::MicroDVD));
}

#[test]
fn sub_extension_is_settled_by_the_magic_number() {
    assert_eq!(detect(Some("sub"), &VOBSUB), Some(SubtitleFormat::VobSubSub));
    assert_eq!(detect(Some("sub"), &VOBSUB[..4]), Some(SubtitleFormat::VobSubSub));
    assert_eq!(detect(Some("sub"), &VOBSUB[..3]), Some(SubtitleFormat::MicroDVD));
    assert_eq!(detect(Some("sub"), b""), Some(SubtitleFormat::MicroDVD));
    assert_eq!(detect(Some("sub"), SRT.as_bytes()), Some(SubtitleFormat::MicroDVD));
}

#[test]
fn unknown_extension_defers_to_the_content() {
    assert_eq!(detect(Some("txt"), SRT.as_bytes()), Some(SubtitleFormat::SubRip));
    assert_eq!(detect(Some("txt"), SSA.as_bytes()), Some(SubtitleFormat::SubStationAlpha));
    assert_eq!(detect(Some("txt"), IDX.as_bytes()), Some(SubtitleFormat::VobSubIdx));
    assert_eq!(detect(Some("txt"), MDVD.as_bytes()), Some(SubtitleFormat::MicroDVD));
    assert_eq!(detect(Some("bin"), &VOBSUB), Some(SubtitleFormat::VobSubSub));
    assert_eq!(detect(Some(""), SRT.as_bytes()), Some(SubtitleFormat::SubRip));
}

#[test]
fn missing_extension_defers_to_the_content() {
    assert_eq!(detect(None, SRT.as_bytes()), Some(SubtitleFormat::SubRip));
    assert_eq!(detect(None, SSA.as_bytes()), Some(SubtitleFormat::SubStationAlpha));
    assert_eq!(detect(None, IDX.as_bytes()), Some(SubtitleFormat::VobSubIdx));
    assert_eq!(detect(None, MDVD.as_bytes()), Some(SubtitleFormat::MicroDVD));
    assert_eq!(detect(None, &VOBSUB), Some(SubtitleFormat::VobSubSub));
}

#[test]
fn nothing_known_gives_none() {
    assert_eq!(detect(None, b""), None);
    assert_eq!(detect(Some(""), b""), None);
    assert_eq!(detect(Some("txt"), b"plain words"), None);
    assert_eq!(detect(Some("srt2"), b"plain words"), None);
    assert_eq!(detect(None, &[0x00, 0x00, 0x01]), None);
}

#[test]
fn sniff_skips_a_byte_order_mark() {
    let mut marked = vec![0xEF, 0xBB, 0xBF];
    marked.extend_from_slice(SRT.as_bytes());
    assert_eq!(sniff(&marked), Some(SubtitleFormat::SubRip));

    let mut marked = vec![0xEF, 0xBB, 0xBF];
    marked.extend_from_slice(SSA.as_bytes());
    assert_eq!(sniff(&marked), Some(SubtitleFormat::SubStationAlpha));

    assert_eq!(sniff(&[0xEF, 0xBB, 0xBF]), None);
    assert_eq!(sniff(&[0xEF, 0xBB]), None);
}

#[test]
fn sniff_subrip_wants_a_number_line_and_a_digit() {
    assert_eq!(sniff(b"1\n0"), Some(SubtitleFormat::SubRip));
    assert_eq!(sniff(b"12\r\n00:00"), Some(SubtitleFormat::SubRip));
    assert_eq!(sniff(b"1"), None);
    assert_eq!(sniff(b"1\n"), None);
    assert_eq!(sniff(b"1\nx"), None);
    assert_eq!(sniff(b"1\r0"), None);
    assert_eq!(sniff(b"\n1\n0"), None);
    assert_eq!(sniff(b"a\n0"), None);
}

#[test]
fn sniff_microdvd_wants_two_frame_numbers() {
    assert_eq!(sniff(b"{0}{25}"), Some(SubtitleFormat::MicroDVD));
    assert_eq!(sniff(b"{10}{250}text"), Some(SubtitleFormat::MicroDVD));
    assert_eq!(sniff(b"{0}{25"), None);
    assert_eq!(sniff(b"{0}{}"), None);
    assert_eq!(sniff(b"{}{25}"), None);
    assert_eq!(sniff(b"{0}"), None);
    assert_eq!(sniff(b"{0} {25}"), None);
    assert_eq!(sniff(b"{a}{25}"), None);
    assert_eq!(sniff(b"{"), None);
}

#[test]
fn sniff_headers_must_stand_at_the_start() {
    assert_eq!(sniff(b"[Script Info]"), Some(SubtitleFormat::SubStationAlpha));
    assert_eq!(sniff(b"[Script Info"), None);
    assert_eq!(sniff(b" [Script Info]"), None);
    assert_eq!(sniff(b"# VobSub index file"), Some(SubtitleFormat::VobSubIdx));
    assert_eq!(sniff(b"# VobSub index fil"), None);
    assert_eq!(sniff(&[0x00, 0x00, 0x01, 0xba]), Some(SubtitleFormat::VobSubSub));
    assert_eq!(sniff(&[0x00, 0x00, 0x01, 0xbb]), None);
}
