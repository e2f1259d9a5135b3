use pexer::strings::{
    checked_notable_strings, extract_strings, notable_strings, rules_compile, ExtractedString, StringEncoding,
};

fn values(found: &[ExtractedString]) -> Vec<(String, u64)> {
    found.iter().map(|s| (s.value.clone(), s.offset)).collect()
}

#[test]
fn extracts_maximal_printable_runs_in_order() {
    let buf = b"ab\x00hello world\x01xyz\x00abcd";
    let found = extract_strings(buf);
    assert_eq!(values(&found), vec![("hello world".to_string(), 3), ("abcd".to_string(), 19)]);
    assert!(found.iter().all(|s| matches!(s.encoding, StringEncoding::Ascii)));
}

#[test]
fn short_runs_are_not_reported() {
    assert!(extract_strings(b"abc\x00de\xfffg").is_empty());
    assert!(extract_strings(b"").is_empty());
}

#[test]
fn run_of_exactly_four_bytes_is_reported() {
    let found = extract_strings(b"\x00\x00wxyz\x00");
    assert_eq!(values(&found), vec![("wxyz".to_string(), 2)]);
}

#[test]
fn whitespace_counts_as_printable() {
    let found = extract_strings(b"\x80a\tb\r\nc d\x0b");
    assert_eq!(values(&found), vec![("a\tb\r\nc d".to_string(), 1)]);
}

#[test]
fn trailing_run_reaches_end_of_buffer() {
    let found = extract_strings(b"\x00\x00\x00TRAILING");
    assert_eq!(values(&found), vec![("TRAILING".to_string(), 3)]);
}

#[test]
fn non_ascii_bytes_split_runs() {
    let found = extract_strings("héllo wörld!".as_bytes());
    assert_eq!(values(&found), vec![("llo w".to_string(), 3), ("rld!".to_string(), 10)]);
}

#[test]
fn every_reported_string_is_maximal_and_matches_buffer() {
    let buf: Vec<u8> = (0u16..600).map(|i| ((i * 37 + 11) % 140) as u8).collect();
    let found = extract_strings(&buf);
    let printable = |b: u8| (0x21..=0x7e).contains(&b) || matches!(b, 0x20 | 0x09 | 0x0a | 0x0c | 0x0d);
    for s in &found {
        let start = s.offset as usize;
        let end = start + s.value.len();
        assert!(s.value.len() >= 4);
        assert_eq!(&buf[start..end], s.value.as_bytes());
        assert!(start == 0 || !printable(buf[start - 1]));
        assert!(end == buf.len() || !printable(buf[end]));
    }
    for w in found.windows(2) {
        assert!(w[0].offset as usize + w[0].value.len() < w[1].offset as usize);
    }
}

#[test]
fn notable_strings_reports_matching_rules() {
    let strings = extract_strings(b"http://example.com\x00cmd.exe /c del\x00nothing here");
    let patterns = vec![
        ("url".to_string(), "https?://".to_string()),
        ("never".to_string(), "zzz+".to_string()),
        ("shell".to_string(), r"(?i)CMD\.EXE".to_string()),
    ];
    let found = notable_strings(&strings, &patterns);
    assert_eq!(found.len(), 2);
    assert_eq!(found[0].0, "url");
    assert_eq!(found[0].1.len(), 1);
    assert_eq!(found[0].1[0].value, "http://example.com");
    assert_eq!(found[1].0, "shell");
    assert_eq!(found[1].1[0].value, "cmd.exe /c del");
}

#[test]
fn rule_matches_are_exactly_the_matching_strings() {
    let strings = extract_strings(b"alpha1\x00beta22\x00gamma333\x00delta");
    let patterns = vec![("digits".to_string(), "[0-9]{2,}".to_string())];
    let found = notable_strings(&strings, &patterns);
    let got: Vec<&str> = found[0].1.iter().map(|s| s.value.as_str()).collect();
    assert_eq!(got, vec!["beta22", "gamma333"]);
}

#[test]
fn invalid_rule_is_refused() {
    let strings = extract_strings(b"something");
    let patterns = vec![("ok".to_string(), "some".to_string()), ("bad".to_string(), "(unclosed".to_string())];
    assert!(!rules_compile(&patterns));
    assert!(checked_notable_strings(&strings, &patterns).is_none());
    let good = vec![("ok".to_string(), "some".to_string())];
    let found = checked_notable_strings(&strings, &good).unwrap();
    assert_eq!(found.len(), 1);
}

#[test]
fn strings_split_at_a_nul_byte() {
    let a: &[u8] = b"first string\x01ok\x02abcd";
    let b: &[u8] = b"efgh second\x7fthird one";
    let joined = [a, &[0u8][..], b].concat();
    let whole = values(&extract_strings(&joined));
    let mut expected = values(&extract_strings(a));
    for (v, o) in values(&extract_strings(b)) {
        expected.push((v, o + a.len() as u64 + 1));
    }
    assert_eq!(whole, expected);
    assert_eq!(
        whole,
        vec![
            ("first string".to_string(), 0),
            ("abcd".to_string(), 16),
            ("efgh second".to_string(), 21),
            ("third one".to_string(), 33),
        ]
    );
}

#[test]
fn distinct_rule_names_are_reported_once() {
    let strings = extract_strings(b"alpha beta\x00gamma delta");
    let patterns = vec![
        ("greek".to_string(), "alpha".to_string()),
        ("other".to_string(), "delta".to_string()),
        ("none".to_string(), "zzz".to_string()),
    ];
    let found = notable_strings(&strings, &patterns);
    let names: Vec<&str> = found.iter().map(|(n, _)| *n).collect();
    assert_eq!(names, vec!["greek", "other"]);
}
