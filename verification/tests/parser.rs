use regex::Regex;
use subgrep::{AppError, Match, Parser};

const TWO_CUES: &str = "\
1
00:02:17,440 --> 00:02:20,375
Senator, we're making
our final approach into Coruscant.

2
00:02:20,476 --> 00:02:22,501
Very good, Lieutenant.
";

#[test]
fn no_content() {
    let regex = Regex::new(r"test").unwrap();
    let mut parser = Parser::new(&regex);

    assert_eq!(None, parser.next());
}

#[test]
fn invalid_format() {
    let regex = Regex::new(r"").unwrap();
    let content = String::new();
    let mut parser = Parser::new(&regex);

    let result = parser.set_content(Some(""), content);

    assert_eq!(
        result.err(),
        Some(AppError::new(
            "format".to_string(),
            "invalid file format".to_string()
        ))
    );
}

#[test]
fn next() {
    let regex = Regex::new(r"final").unwrap();
    let content = "\
1
00:02:17,440 --> 00:02:20,375
Senator, we're making
our final approach into Coruscant.
"
    .to_string();

    let mut parser = Parser::new(&regex);
    parser.set_content(Some("srt"), content).unwrap();

    let expected = Match {
        line: "\
Senator, we're making
our final approach into Coruscant."
            .to_string(),
        start: 26,
        end: 31,
    };

    assert_eq!(Some(expected), parser.next());
}

#[test]
fn next_walks_the_cues_in_file_order() {
    let regex = Regex::new(r"o").unwrap();
    let mut parser = Parser::new(&regex);
    parser.set_content(Some("srt"), TWO_CUES.to_string()).unwrap();

    let first = parser.next().unwrap();
    assert_eq!(first.line, "Senator, we're making\nour final approach into Coruscant.");
    assert_eq!((first.start, first.end), (5, 6));

    let second = parser.next().unwrap();
    assert_eq!(second.line, "Very good, Lieutenant.");
    assert_eq!((second.start, second.end), (6, 7));

    assert_eq!(None, parser.next());
    assert_eq!(None, parser.next());
}

#[test]
fn next_skips_cues_without_a_match() {
    let regex = Regex::new(r"Lieutenant").unwrap();
    let mut parser = Parser::new(&regex);
    parser.set_content(Some("srt"), TWO_CUES.to_string()).unwrap();

    let found = parser.next().unwrap();
    assert_eq!(found.line, "Very good, Lieutenant.");
    assert_eq!((found.start, found.end), (11, 21));
    assert_eq!(None, parser.next());
}

#[test]
fn next_agrees_with_match_entries() {
    let regex = Regex::new(r"[A-Z]").unwrap();
    let entries = subgrep::parse(subgrep::SubtitleFormat::SubRip, TWO_CUES).unwrap();
    let all = subgrep::match_entries(&regex, &entries);

    let mut parser = Parser::new(&regex);
    parser.set_content(Some("srt"), TWO_CUES.to_string()).unwrap();
    let mut walked = Vec::new();
    while let Some(record) = parser.next() {
        walked.push(record);
    }

    assert_eq!(all.len(), 2);
    assert_eq!(walked, all);
}

#[test]
fn set_content_replaces_the_cues() {
    let regex = Regex::new(r"good").unwrap();
    let mut parser = Parser::new(&regex);
    parser.set_content(Some("srt"), TWO_CUES.to_string()).unwrap();
    parser
        .set_content(Some("sub"), "{0}{30}no match here\n{30}{60}a good one".to_string())
        .unwrap();

    let found = parser.next().unwrap();
    assert_eq!(found.line, "a good one");
    assert_eq!((found.start, found.end), (2, 6));
    assert_eq!(None, parser.next());
}

#[test]
fn set_content_keeps_the_cues_on_failure() {
    let regex = Regex::new(r"good").unwrap();
    let mut parser = Parser::new(&regex);
    parser.set_content(Some("srt"), TWO_CUES.to_string()).unwrap();

    let unknown = parser.set_content(Some("txt"), "plain words".to_string());
    assert_eq!(unknown.err().unwrap().kind(), "format");

    let broken = parser.set_content(Some("srt"), "1\nnot a timing line\ntext\n".to_string());
    let report = broken.err().unwrap();
    assert_eq!(report.kind(), "parse");
    assert_eq!(report.message(), "parsing the subtitle data failed");

    let found = parser.next().unwrap();
    assert_eq!(found.line, "Very good, Lieutenant.");
    assert_eq!((found.start, found.end), (5, 9));
}
