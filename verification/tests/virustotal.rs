use pexer::third_party::{checked_vt_attributes, vt_attributes};

const REPLY: &str = r#"{"data":{"attributes":{
  "type_description":"Win32 EXE","meaningful_name":"tool.exe","first_submission_date":0,
  "creation_date":86399,"tags":["peexe"],"type_tags":[],"times_submitted":3,
  "total_votes":{"harmless":1,"malicious":0},"last_analysis_stats":{"malicious":2},
  "names":["tool.exe","t.exe"]}}}"#;

#[test]
fn report_rows_from_reply() {
    let rows = checked_vt_attributes(REPLY).expect("usable reply");
    let expected: Vec<(String, String)> = vec![
        ("Type Description", "\"Win32 EXE\""),
        ("Meaningful Name", "\"tool.exe\""),
        ("First Submission", "1970-01-01 00:00:00"),
        ("Creation", "86399"),
        ("Tags", "[\"peexe\"]"),
        ("Type Tags", "[]"),
        ("Submitted", "3"),
        ("Votes", "{\"harmless\":1,\"malicious\":0}"),
        ("Last Analysis Stats", "{\"malicious\":2}"),
        ("Names", "[\"tool.exe\",\"t.exe\"]"),
    ]
    .into_iter()
    .map(|(a, b)| (a.to_string(), b.to_string()))
    .collect();
    assert_eq!(rows, expected);
    assert_eq!(vt_attributes(REPLY), expected);
}

#[test]
fn unusable_replies_are_refused() {
    assert!(checked_vt_attributes("not json").is_none());
    assert!(checked_vt_attributes("{\"data\":{}}").is_none());
    let no_names = REPLY.replace("\"names\"", "\"other\"");
    assert!(checked_vt_attributes(&no_names).is_none());
    let text_date = REPLY.replace("\"first_submission_date\":0", "\"first_submission_date\":\"soon\"");
    assert!(checked_vt_attributes(&text_date).is_none());
}
