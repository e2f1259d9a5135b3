//! The VirusTotal file report: the fields of the `data.attributes` object of the JSON
//! reply that the report shows.
use vstd::prelude::*;
use vstd::string::StringExecFns;

verus! {

/// A JSON value, as far as the report reads it: its compact JSON text, its value as an
/// `i64` when it is an integer that fits, and its members when it is an object.
#[derive(Debug)]
pub struct JsonNode {
    pub text: String,
    pub integer: Option<i64>,
    pub fields: Vec<(String, JsonNode)>,
}

#[verifier::external_type_specification]
#[verifier::external_body]
pub struct ExJsonValue(serde_json::Value);

/// What `serde_json::from_str::<serde_json::Value>` reads from `text`; `None` on its error.
pub uninterp spec fn json_document(text: Seq<char>) -> Option<JsonNode>;

/// What `DateTime::<Utc>::from_timestamp(secs, 0)` formatted with
/// `%Y-%m-%d %H:%M:%S` gives; `None` when the timestamp is out of chrono's range.
pub uninterp spec fn utc_timestamp_text(secs: i64) -> Option<Seq<char>>;

/// Copies a JSON value into the library's type: its text (`to_string`), `as_i64`, and its
/// members when it is an object.
#[verifier::external_body]
fn json_node_of(v: &serde_json::Value) -> JsonNode {
    JsonNode {
        text: v.to_string(),
        integer: v.as_i64(),
        fields: match v.as_object() {
            Some(m) => m.iter().map(|(k, x)| (k.clone(), json_node_of(x))).collect(),
            None => Vec::new(),
        },
    }
}

/// `serde_json::from_str::<serde_json::Value>` (serde_json): the JSON value of `text`, or
/// `None` on its error. Claimed: a function of the text, named `json_document`.
#[verifier::external_body]
fn parse_json(text: &str) -> (r: Option<JsonNode>)
    ensures
        r == json_document(text@),
{
    serde_json::from_str::<serde_json::Value>(text).ok().map(|v| json_node_of(&v))
}

/// `DateTime::<Utc>::from_timestamp(secs, 0)` (chrono), written with the pattern
/// `%Y-%m-%d %H:%M:%S`; `None` when the timestamp is out of range. Claimed: a function of
/// `secs`, named `utc_timestamp_text`.
#[verifier::external_body]
fn format_utc_timestamp(secs: i64) -> (r: Option<String>)
    ensures
        r matches Some(s) ==> utc_timestamp_text(secs) == Some(s@),
        r is None ==> utc_timestamp_text(secs) is None,
{
    chrono::DateTime::from_timestamp(secs, 0).map(|d| d.format("%Y-%m-%d %H:%M:%S").to_string())
}

/// The value of the first member named `key`.
pub open spec fn json_get(fields: Seq<(String, JsonNode)>, key: Seq<char>) -> Option<JsonNode>
    decreases fields.len(),
{
    if fields.len() == 0 {
        None
    } else if fields[0].0@ == key {
        Some(fields[0].1)
    } else {
        json_get(fields.drop_first(), key)
    }
}

/// The `data.attributes` object of a reply.
pub open spec fn attributes_of(doc: JsonNode) -> Option<JsonNode> {
    match json_get(doc.fields@, "data"@) {
        Some(d) => json_get(d.fields@, "attributes"@),
        None => None,
    }
}

/// The JSON text of the attribute `key`.
pub open spec fn attribute_text(attrs: JsonNode, key: Seq<char>) -> Seq<char> {
    json_get(attrs.fields@, key).unwrap().text@
}

/// The first-submission date of the attributes, as a UTC date and time.
pub open spec fn first_submission_text(attrs: JsonNode) -> Seq<char> {
    utc_timestamp_text(json_get(attrs.fields@, "first_submission_date"@).unwrap().integer.unwrap()).unwrap()
}

/// The report rows: (label, value) for each shown attribute, in order.
pub open spec fn vt_rows(attrs: JsonNode) -> Seq<(Seq<char>, Seq<char>)> {
    seq![
        ("Type Description"@, attribute_text(attrs, "type_description"@)),
        ("Meaningful Name"@, attribute_text(attrs, "meaningful_name"@)),
        ("First Submission"@, first_submission_text(attrs)),
        ("Creation"@, attribute_text(attrs, "creation_date"@)),
        ("Tags"@, attribute_text(attrs, "tags"@)),
        ("Type Tags"@, attribute_text(attrs, "type_tags"@)),
        ("Submitted"@, attribute_text(attrs, "times_submitted"@)),
        ("Votes"@, attribute_text(attrs, "total_votes"@)),
        ("Last Analysis Stats"@, attribute_text(attrs, "last_analysis_stats"@)),
        ("Names"@, attribute_text(attrs, "names"@)),
    ]
}

/// The attributes have every member that the report shows, with a first-submission date
/// that is an integer within chrono's range.
pub open spec fn attributes_complete(attrs: JsonNode) -> bool {
    &&& json_get(attrs.fields@, "type_description"@) is Some
    &&& json_get(attrs.fields@, "meaningful_name"@) is Some
    &&& json_get(attrs.fields@, "first_submission_date"@) matches Some(d) && d.integer matches Some(secs)
        && utc_timestamp_text(secs) is Some
    &&& json_get(attrs.fields@, "creation_date"@) is Some
    &&& json_get(attrs.fields@, "tags"@) is Some
    &&& json_get(attrs.fields@, "type_tags"@) is Some
    &&& json_get(attrs.fields@, "times_submitted"@) is Some
    &&& json_get(attrs.fields@, "total_votes"@) is Some
    &&& json_get(attrs.fields@, "last_analysis_stats"@) is Some
    &&& json_get(attrs.fields@, "names"@) is Some
}

/// The reply is JSON with a `data.attributes` object that has every shown member.
pub open spec fn reply_usable(response: Seq<char>) -> bool {
    json_document(response) matches Some(doc) && attributes_of(doc) matches Some(attrs) && attributes_complete(
        attrs,
    )
}

/// The rows of a usable reply.
pub open spec fn reply_rows(response: Seq<char>) -> Seq<(Seq<char>, Seq<char>)> {
    vt_rows(attributes_of(json_document(response).unwrap()).unwrap())
}

/// The index of the first member named `key`.
fn find_field(fields: &Vec<(String, JsonNode)>, key: &str) -> (r: Option<usize>)
    ensures
        match r {
            Some(i) => i < fields@.len() && json_get(fields@, key@) == Some(fields@[i as int].1),
            None => json_get(fields@, key@) is None,
        },
{
    let k = String::from_str(key);
    let mut i: usize = 0;
    assert(fields@.skip(0) =~= fields@);
    while i < fields.len()
        invariant
            0 <= i <= fields@.len(),
            k@ == key@,
            json_get(fields@, key@) == json_get(fields@.skip(i as int), key@),
        decreases fields@.len() - i,
    {
        assert(fields@.skip(i as int)[0] == fields@[i as int]);
        if fields[i].0 == k {
            return Some(i);
        }
        assert(fields@.skip(i as int).drop_first() =~= fields@.skip(i + 1));
        i = i + 1;
    }
    None
}

/// The JSON text of the attribute `key`, when the attributes have it.
fn text_of(attrs: &JsonNode, key: &str) -> (r: Option<String>)
    ensures
        match r {
            Some(t) => json_get(attrs.fields@, key@) matches Some(n) && t@ == n.text@,
            None => json_get(attrs.fields@, key@) is None,
        },
{
    match find_field(&attrs.fields, key) {
        Some(i) => Some(attrs.fields[i].1.text.clone()),
        None => None,
    }
}

/// The first-submission date of the attributes, when it is an integer timestamp in
/// chrono's range.
fn first_submission(attrs: &JsonNode) -> (r: Option<String>)
    ensures
        match r {
            Some(t) => json_get(attrs.fields@, "first_submission_date"@) matches Some(d) && d.integer matches Some(
                secs,
            ) && utc_timestamp_text(secs) == Some(t@),
            None => !(json_get(attrs.fields@, "first_submission_date"@) matches Some(d) && d.integer matches Some(
                secs,
            ) && utc_timestamp_text(secs) is Some),
        },
{
    match find_field(&attrs.fields, "first_submission_date") {
        Some(i) => match attrs.fields[i].1.integer {
            Some(secs) => format_utc_timestamp(secs),
            None => None,
        },
        None => None,
    }
}

/// The shown rows of a VirusTotal file report, or `None` when the reply is not JSON or
/// lacks a shown attribute.
fn rows_of_reply(response: &str) -> (r: Option<Vec<(String, String)>>)
    ensures
        match r {
            Some(rows) => reply_usable(response@) && rows@.map_values(|e: (String, String)| (e.0@, e.1@))
                == reply_rows(response@),
            None => !reply_usable(response@),
        },
{
    let doc = match parse_json(response) {
        Some(d) => d,
        None => {
            return None;
        },
    };
    let data = match find_field(&doc.fields, "data") {
        Some(i) => &doc.fields[i].1,
        None => {
            return None;
        },
    };
    let attrs = match find_field(&data.fields, "attributes") {
        Some(i) => &data.fields[i].1,
        None => {
            return None;
        },
    };
    let type_description = text_of(attrs, "type_description");
    let meaningful_name = text_of(attrs, "meaningful_name");
    let first = first_submission(attrs);
    let creation = text_of(attrs, "creation_date");
    let tags = text_of(attrs, "tags");
    let type_tags = text_of(attrs, "type_tags");
    let submitted = text_of(attrs, "times_submitted");
    let votes = text_of(attrs, "total_votes");
    let stats = text_of(attrs, "last_analysis_stats");
    let names = text_of(attrs, "names");
    match (type_description, meaningful_name, first, creation, tags, type_tags, submitted, votes, stats, names) {
        (Some(a), Some(b), Some(c), Some(d), Some(e), Some(f), Some(g), Some(h), Some(i), Some(j)) => {
            let mut rows: Vec<(String, String)> = Vec::new();
            rows.push((String::from_str("Type Description"), a));
            rows.push((String::from_str("Meaningful Name"), b));
            rows.push((String::from_str("First Submission"), c));
            rows.push((String::from_str("Creation"), d));
            rows.push((String::from_str("Tags"), e));
            rows.push((String::from_str("Type Tags"), f));
            rows.push((String::from_str("Submitted"), g));
            rows.push((String::from_str("Votes"), h));
            rows.push((String::from_str("Last Analysis Stats"), i));
            rows.push((String::from_str("Names"), j));
            assert(rows@.map_values(|e: (String, String)| (e.0@, e.1@)) =~= reply_rows(response@));
            Some(rows)
        },
        _ => None,
    }
}

/// The shown rows of a usable VirusTotal file report.
pub fn vt_attributes(response: &str) -> (r: Vec<(String, String)>)
    requires
        reply_usable(response@),
    ensures
        r@.map_values(|e: (String, String)| (e.0@, e.1@)) == reply_rows(response@),
{
    rows_of_reply(response).unwrap()
}

/// The shown rows of a VirusTotal file report, or `None` when the reply is not JSON or
/// lacks a shown attribute.
pub fn checked_vt_attributes(response: &str) -> (r: Option<Vec<(String, String)>>)
    ensures
        match r {
            Some(rows) => reply_usable(response@) && rows@.map_values(|e: (String, String)| (e.0@, e.1@))
                == reply_rows(response@),
            None => !reply_usable(response@),
        },
{
    match rows_of_reply(response) {
        Some(_) => Some(vt_attributes(response)),
        None => None,
    }
}

} // verus!
