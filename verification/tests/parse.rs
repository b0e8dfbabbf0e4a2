use subgrep::{parse, parse_or_report, ExtractError, SubtitleEntry, SubtitleFormat};

fn lines(entries: &[SubtitleEntry]) -> Vec<Option<&str>> {
    entries.iter().map(|entry| entry.line.as_deref()).collect()
}

fn srt_file(texts: &[&str]) -> String {
    let mut file = String::new();
    for (i, text) in texts.iter().enumerate() {
        file.push_str(&format!(
            "{}\n00:00:{:02},000 --> 00:00:{:02},500\n{}\n\n",
            i + 1,
            i,
            i,
            text
        ));
    }
    file
}

fn ssa_file(texts: &[&str]) -> String {
    let mut file = String::from(
        "[Script Info]\nTitle: sample\n\n[Events]\n\
         Format: Layer, Start, End, Style, Name, MarginL, MarginR, MarginV, Effect, Text\n",
    );
    for (i, text) in texts.iter().enumerate() {
        file.push_str(&format!(
            "Dialogue: 0,0:00:{:02}.00,0:00:{:02}.50,Default,,0,0,0,,{}\n",
            i, i, text
        ));
    }
    file
}

fn microdvd_file(texts: &[&str]) -> String {
    let mut file = String::new();
    for (i, text) in texts.iter().enumerate() {
        file.push_str(&format!("{{{}}}{{{}}}{}\n", i * 30, i * 30 + 15, text));
    }
    file
}

fn idx_file(count: usize) -> String {
    let mut file = String::from("# VobSub index file, v7 (do not modify this line!)\n");
    for i in 0..count {
        file.push_str(&format!("timestamp: 00:00:{:02}:000, filepos: 00000{:04}\n", i, i));
    }
    file
}

#[test]
fn subrip_round_trip() {
    let texts = ["one", "two words", "three\nlines\nhere", "ünïcödé"];
    let entries = parse(SubtitleFormat::SubRip, &srt_file(&texts)).unwrap();
    assert_eq!(
        lines(&entries),
        vec![Some("one"), Some("two words"), Some("three\nlines\nhere"), Some("ünïcödé")]
    );
    assert_eq!((entries[0].start_ms, entries[0].end_ms), (0, 500));
    assert_eq!((entries[3].start_ms, entries[3].end_ms), (3000, 3500));
}

#[test]
fn subrip_lines_are_trimmed_and_joined_by_line_feeds() {
    let content = "1\r\n00:00:01,000 --> 00:00:02,000\r\n  first  \r\n\tsecond\r\n\r\n";
    let entries = parse(SubtitleFormat::SubRip, content).unwrap();
    assert_eq!(lines(&entries), vec![Some("first\nsecond")]);
}

#[test]
fn subrip_cue_without_text_is_kept() {
    let content = "1\n00:00:01,000 --> 00:00:02,000\n\n2\n00:00:03,000 --> 00:00:04,000\nsaid\n";
    let entries = parse(SubtitleFormat::SubRip, content).unwrap();
    assert_eq!(lines(&entries), vec![Some(""), Some("said")]);
}

#[test]
fn substation_round_trip() {
    let texts = ["one", "two, with a comma", "{\\i1}styled{\\i0}"];
    let entries = parse(SubtitleFormat::SubStationAlpha, &ssa_file(&texts)).unwrap();
    assert_eq!(
        lines(&entries),
        vec![Some("one"), Some("two, with a comma"), Some("{\\i1}styled{\\i0}")]
    );
    assert_eq!((entries[1].start_ms, entries[1].end_ms), (1000, 1500));
}

#[test]
fn microdvd_round_trip() {
    let texts = ["one", "two words", "three"];
    let entries = parse(SubtitleFormat::MicroDVD, &microdvd_file(&texts)).unwrap();
    assert_eq!(lines(&entries), vec![Some("one"), Some("two words"), Some("three")]);
    assert_eq!((entries[0].start_ms, entries[0].end_ms), (0, 500));
    assert_eq!((entries[2].start_ms, entries[2].end_ms), (2000, 2500));
}

#[test]
fn microdvd_bar_separates_cues() {
    let entries = parse(SubtitleFormat::MicroDVD, "{0}{30}{y:i}above|below").unwrap();
    assert_eq!(lines(&entries), vec![Some("above"), Some("below")]);
    assert_eq!((entries[1].start_ms, entries[1].end_ms), (0, 1000));
}

#[test]
fn vobsub_index_cues_have_no_text() {
    let entries = parse(SubtitleFormat::VobSubIdx, &idx_file(3)).unwrap();
    assert_eq!(lines(&entries), vec![None, None, None]);
    assert_eq!((entries[0].start_ms, entries[0].end_ms), (0, 1000));
    assert_eq!((entries[2].start_ms, entries[2].end_ms), (2000, 62000));
}

#[test]
fn empty_content_has_no_cues() {
    assert_eq!(parse(SubtitleFormat::SubRip, "").unwrap().len(), 0);
    assert_eq!(parse(SubtitleFormat::MicroDVD, "").unwrap().len(), 0);
    assert_eq!(parse(SubtitleFormat::VobSubIdx, "").unwrap().len(), 0);
}

#[test]
fn substation_without_events_is_malformed() {
    assert_eq!(parse(SubtitleFormat::SubStationAlpha, "").err(), Some(ExtractError::MalformedContent));
    assert_eq!(
        parse(SubtitleFormat::SubStationAlpha, "[Script Info]\nTitle: x\n").err(),
        Some(ExtractError::MalformedContent)
    );
}

#[test]
fn image_format_cannot_be_read_as_text() {
    assert_eq!(parse(SubtitleFormat::VobSubSub, "").err(), Some(ExtractError::MalformedContent));
    let report = parse_or_report(SubtitleFormat::VobSubSub, "anything").err().unwrap();
    assert_eq!(report.kind(), "parse");
    assert_eq!(
        report.message(),
        "operation does not work on binary subtitle formats (only text formats)"
    );
}

#[test]
fn unterminated_cue_is_malformed() {
    let cut_timing = "1\n00:00:01,000 --> 00:00:02\nHello\n";
    assert_eq!(parse(SubtitleFormat::SubRip, cut_timing).err(), Some(ExtractError::MalformedContent));

    let no_timing = "1\nHello\n\n";
    assert_eq!(parse(SubtitleFormat::SubRip, no_timing).err(), Some(ExtractError::MalformedContent));

    let open_brace = "{0}{25";
    assert_eq!(parse(SubtitleFormat::MicroDVD, open_brace).err(), Some(ExtractError::MalformedContent));
}

#[test]
fn one_bad_cue_fails_the_file() {
    let content = "1\n00:00:01,000 --> 00:00:02,000\ngood\n\nbad\n00:00:03,000 --> 00:00:04,000\ntext\n";
    assert_eq!(parse(SubtitleFormat::SubRip, content).err(), Some(ExtractError::MalformedContent));

    let content = "{0}{25}good\nbad line\n";
    assert_eq!(parse(SubtitleFormat::MicroDVD, content).err(), Some(ExtractError::MalformedContent));
}

#[test]
fn parse_failure_is_reported_with_the_parser_message() {
    let report = parse_or_report(SubtitleFormat::SubRip, "1\nHello\n\n").err().unwrap();
    assert_eq!(report.kind(), "parse");
    assert_eq!(report.message(), "parsing the subtitle data failed");
}

#[test]
fn numbers_of_twelve_digits_are_read() {
    let content = "1\n00:00:01,000 --> 00:00:02,000\n123456789012\n";
    let entries = parse(SubtitleFormat::SubRip, content).unwrap();
    assert_eq!(lines(&entries), vec![Some("123456789012")]);

    let content = "1\n999999999999:00:01,000 --> 999999999999:00:02,000\nlate\n";
    let entries = parse(SubtitleFormat::SubRip, content).unwrap();
    assert_eq!(entries[0].start_ms, 999_999_999_999 * 3_600_000 + 1000);
}

#[test]
fn digits_in_the_text_of_a_cue_are_not_limited() {
    let content = "1\n00:00:01,000 --> 00:00:02,000\n1234567890123\n99999999999999999999999\n";
    let entries = parse(SubtitleFormat::SubRip, content).unwrap();
    assert_eq!(lines(&entries), vec![Some("1234567890123\n99999999999999999999999")]);

    let content = "{0}{30}12345678901234567890|{99999999999999999999}";
    let entries = parse(SubtitleFormat::MicroDVD, content).unwrap();
    assert_eq!(lines(&entries), vec![Some("12345678901234567890"), Some("")]);

    let content = "[Events]\nFormat: Start, End, Text\n\
                   Dialogue: 0:00:01.00,0:00:02.00,call 12345678901234567890\n";
    let entries = parse(SubtitleFormat::SubStationAlpha, content).unwrap();
    assert_eq!(lines(&entries), vec![Some("call 12345678901234567890")]);

    let content = "# id: 12345678901234567890\ntimestamp: 00:00:01:000, filepos: 12345678901234567890\n";
    let entries = parse(SubtitleFormat::VobSubIdx, content).unwrap();
    assert_eq!(entries.len(), 1);
    assert_eq!(entries[0].start_ms, 1000);
}

#[test]
fn a_time_with_many_zeros_before_it_is_read() {
    let content = "1\n0000000000000000000000:00:01,000 --> 00:00:0000000000000000000002,000\nHello\n";
    let entries = parse(SubtitleFormat::SubRip, content).unwrap();
    assert_eq!(lines(&entries), vec![Some("Hello")]);
    assert_eq!((entries[0].start_ms, entries[0].end_ms), (1000, 2000));

    let entries = parse(SubtitleFormat::MicroDVD, "{00000000000000000000030}{0000000000000000060}x").unwrap();
    assert_eq!((entries[0].start_ms, entries[0].end_ms), (1000, 2000));
}

#[test]
fn a_cue_number_of_many_digits_is_read() {
    let content = "1234567890123\n00:00:01,000 --> 00:00:02,000\nHello\n";
    let entries = parse(SubtitleFormat::SubRip, content).unwrap();
    assert_eq!(lines(&entries), vec![Some("Hello")]);

    let content = "9223372036854775807\n00:00:01,000 --> 00:00:02,000\nHello\n";
    let entries = parse(SubtitleFormat::SubRip, content).unwrap();
    assert_eq!(lines(&entries), vec![Some("Hello")]);
}

#[test]
fn a_time_of_too_many_digits_is_malformed() {
    let content = "1\n00:00:01,000 --> 99999999999999999999:00:02,000\nHello\n";
    assert_eq!(parse(SubtitleFormat::SubRip, content).err(), Some(ExtractError::MalformedContent));
    let report = parse_or_report(SubtitleFormat::SubRip, content).err().unwrap();
    assert_eq!(report.kind(), "parse");
    assert_eq!(report.message(), "content is beyond what the parser can read");

    let content = "{0}{99999999999999999999}Hello";
    assert_eq!(parse(SubtitleFormat::MicroDVD, content).err(), Some(ExtractError::MalformedContent));

    let content = "[Events]\nFormat: Start, End, Text\n\
                   Dialogue: 0:00:01.00,99999999999999999999:00:02.00,hi\n";
    assert_eq!(
        parse(SubtitleFormat::SubStationAlpha, content).err(),
        Some(ExtractError::MalformedContent)
    );

    let content = "timestamp: 00:00:99999999999999999999:000, filepos: 000000000\n";
    assert_eq!(parse(SubtitleFormat::VobSubIdx, content).err(), Some(ExtractError::MalformedContent));
}

#[test]
fn an_indented_header_of_the_events_is_malformed() {
    let content = "[Events]\n  Format: Start, End, Text\nDialogue: 0:00:01.00,0:00:02.00,hi\n";
    assert_eq!(
        parse(SubtitleFormat::SubStationAlpha, content).err(),
        Some(ExtractError::MalformedContent)
    );
    let report = parse_or_report(SubtitleFormat::SubStationAlpha, content).err().unwrap();
    assert_eq!(report.message(), "content is beyond what the parser can read");
}

#[test]
fn an_indented_format_line_elsewhere_is_read() {
    let content = "[V4 Styles]\n  Format: Name, Fontname\n  Style: a, b\n\n[Events]\n\
                   Format: Start, End, Text\n  Format: again\n\
                   Dialogue: 0:00:01.00,0:00:02.00,File Format: text\n";
    let entries = parse(SubtitleFormat::SubStationAlpha, content).unwrap();
    assert_eq!(lines(&entries), vec![Some("File Format: text")]);
}
