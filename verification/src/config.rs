//! The configuration file: named string rules, the VirusTotal key and the YARA rule
//! locations, read from TOML.
use vstd::prelude::*;
use vstd::string::StringExecFns;
use crate::yara::YaraConfig;

verus! {

/// The configuration.
#[derive(Debug)]
pub struct Config {
    /// Named regular-expression rules for extracted strings, as (name, pattern).
    pub rules: Option<Vec<(String, String)>>,
    pub vt: Option<String>,
    pub yara: Option<YaraConfig>,
}

/// Why the configuration could not be read.
#[derive(Debug)]
pub enum ConfigError {
    /// The text is not valid TOML; the parser's message.
    Parse(String),
}

/// A TOML value, as far as the configuration reads it.
#[derive(Debug)]
pub enum TomlValue {
    String(String),
    Table(Vec<(String, TomlValue)>),
    Array(Vec<TomlValue>),
    Other,
}

#[verifier::external_type_specification]
#[verifier::external_body]
pub struct ExTomlValue(toml::Value);

/// What `text.parse::<toml::Table>()` gives: the top-level entries in the table's order,
/// or the parser's error message.
pub uninterp spec fn toml_document(text: Seq<char>) -> Result<Vec<(String, TomlValue)>, String>;

/// Copies a TOML value into the library's type, variant by variant.
#[verifier::external_body]
fn toml_value_of(v: &toml::Value) -> TomlValue {
    match v {
        toml::Value::String(s) => TomlValue::String(s.clone()),
        toml::Value::Table(t) => TomlValue::Table(t.iter().map(|(k, v)| (k.clone(), toml_value_of(v))).collect()),
        toml::Value::Array(a) => TomlValue::Array(a.iter().map(toml_value_of).collect()),
        _ => TomlValue::Other,
    }
}

/// `str::parse::<toml::Table>` (toml): the entries of the top-level table, or the error's
/// message. Claimed: a function of the text, named `toml_document`.
#[verifier::external_body]
fn parse_toml_table(text: &str) -> (r: Result<Vec<(String, TomlValue)>, String>)
    ensures
        r == toml_document(text@),
{
    match text.parse::<toml::Table>() {
        Ok(t) => Ok(t.iter().map(|(k, v)| (k.clone(), toml_value_of(v))).collect()),
        Err(e) => Err(e.to_string()),
    }
}

/// The value of the first entry named `key`.
pub open spec fn toml_get(entries: Seq<(String, TomlValue)>, key: Seq<char>) -> Option<TomlValue>
    decreases entries.len(),
{
    if entries.len() == 0 {
        None
    } else if entries[0].0@ == key {
        Some(entries[0].1)
    } else {
        toml_get(entries.drop_first(), key)
    }
}

/// The text of a string value; empty for any other value.
pub open spec fn str_or_empty(v: TomlValue) -> Seq<char> {
    match v {
        TomlValue::String(s) => s@,
        _ => Seq::empty(),
    }
}

/// The string values of an array, in order; other values are skipped.
pub open spec fn array_strings(items: Seq<TomlValue>) -> Seq<Seq<char>>
    decreases items.len(),
{
    if items.len() == 0 {
        seq![]
    } else {
        let prev = array_strings(items.drop_last());
        match items.last() {
            TomlValue::String(s) => prev.push(s@),
            _ => prev,
        }
    }
}

/// Each entry as (name, text of its string value, or empty).
pub open spec fn rule_views(t: Seq<(String, TomlValue)>) -> Seq<(Seq<char>, Seq<char>)> {
    t.map_values(|e: (String, TomlValue)| (e.0@, str_or_empty(e.1)))
}

/// Each pair of strings by its views.
pub open spec fn pair_views(v: Seq<(String, String)>) -> Seq<(Seq<char>, Seq<char>)> {
    v.map_values(|e: (String, String)| (e.0@, e.1@))
}

/// The named rules of a document: the entries of its `Rules` table, with the text of
/// each string value and an empty pattern for any other value.
pub open spec fn rules_of(doc: Seq<(String, TomlValue)>) -> Option<Seq<(Seq<char>, Seq<char>)>> {
    match toml_get(doc, "Rules"@) {
        Some(TomlValue::Table(t)) => Some(rule_views(t@)),
        _ => None,
    }
}

/// The VirusTotal key of a document: its `vt` string.
pub open spec fn vt_of(doc: Seq<(String, TomlValue)>) -> Option<Seq<char>> {
    match toml_get(doc, "vt"@) {
        Some(TomlValue::String(s)) => Some(s@),
        _ => None,
    }
}

/// The YARA rule locations of a `YARA` table: the strings of its `rules` array.
pub open spec fn yara_rules_of(table: Seq<(String, TomlValue)>) -> Option<Seq<Seq<char>>> {
    match toml_get(table, "rules"@) {
        Some(TomlValue::Array(a)) => Some(array_strings(a@)),
        _ => None,
    }
}

/// The YARA section of a document: `None` without a `YARA` table, and otherwise the
/// rule locations that the table gives, if it gives any.
pub open spec fn yara_of(doc: Seq<(String, TomlValue)>) -> Option<Option<Seq<Seq<char>>>> {
    match toml_get(doc, "YARA"@) {
        Some(TomlValue::Table(t)) => Some(yara_rules_of(t@)),
        _ => None,
    }
}

/// The views of optional strings.
pub open spec fn opt_view(s: Option<String>) -> Option<Seq<char>> {
    match s {
        Some(x) => Some(x@),
        None => None,
    }
}

/// `config` says what the TOML entries `doc` say.
pub open spec fn config_of(config: Config, doc: Seq<(String, TomlValue)>) -> bool {
    &&& match config.rules {
        Some(r) => rules_of(doc) == Some(pair_views(r@)),
        None => rules_of(doc) is None,
    }
    &&& opt_view(config.vt) == vt_of(doc)
    &&& match config.yara {
        Some(y) => yara_of(doc) == Some(
            match y.rules {
                Some(r) => Some(r@.map_values(|s: String| s@)),
                None => None,
            },
        ),
        None => yara_of(doc) is None,
    }
}

/// The index of the first entry named `key`.
fn find_entry(entries: &Vec<(String, TomlValue)>, key: &str) -> (r: Option<usize>)
    ensures
        match r {
            Some(i) => i < entries@.len() && toml_get(entries@, key@) == Some(entries@[i as int].1),
            None => toml_get(entries@, key@) is None,
        },
{
    let k = String::from_str(key);
    let mut i: usize = 0;
    assert(entries@.skip(0) =~= entries@);
    while i < entries.len()
        invariant
            0 <= i <= entries@.len(),
            k@ == key@,
            toml_get(entries@, key@) == toml_get(entries@.skip(i as int), key@),
        decreases entries@.len() - i,
    {
        assert(entries@.skip(i as int)[0] == entries@[i as int]);
        if entries[i].0 == k {
            return Some(i);
        }
        assert(entries@.skip(i as int).drop_first() =~= entries@.skip(i + 1));
        i = i + 1;
    }
    None
}

/// The named rules of a `Rules` table.
fn rules_from_table(t: &Vec<(String, TomlValue)>) -> (r: Vec<(String, String)>)
    ensures
        pair_views(r@) == rule_views(t@),
{
    let mut out: Vec<(String, String)> = Vec::new();
    let mut i: usize = 0;
    while i < t.len()
        invariant
            0 <= i <= t@.len(),
            pair_views(out@) == rule_views(t@.subrange(0, i as int)),
        decreases t@.len() - i,
    {
        let value = match &t[i].1 {
            TomlValue::String(s) => s.clone(),
            _ => String::new(),
        };
        assert(value@ == str_or_empty(t@[i as int].1));
        let ghost before = out@;
        assert(pair_views(before).len() == before.len());
        assert(before.len() == i);
        let key = t[i].0.clone();
        out.push((key, value));
        assert(out@[i as int] == (key, value));
        assert forall|j: int| 0 <= j <= i implies #[trigger] pair_views(out@)[j]
            == rule_views(t@.subrange(0, i + 1))[j] by {
            if j < i {
                assert(out@[j] == before[j]);
                assert(pair_views(before)[j] == rule_views(t@.subrange(0, i as int))[j]);
                assert(t@.subrange(0, i as int)[j] == t@.subrange(0, i + 1)[j]);
            } else {
                assert(t@.subrange(0, i + 1)[j] == t@[i as int]);
            }
        }
        assert(pair_views(out@) =~= rule_views(t@.subrange(0, i + 1)));
        i = i + 1;
    }
    assert(t@.subrange(0, t@.len() as int) =~= t@);
    out
}

/// The string values of an array, in order.
fn strings_from_array(items: &Vec<TomlValue>) -> (r: Vec<String>)
    ensures
        r@.map_values(|s: String| s@) == array_strings(items@),
{
    let mut out: Vec<String> = Vec::new();
    let mut i: usize = 0;
    while i < items.len()
        invariant
            0 <= i <= items@.len(),
            out@.map_values(|s: String| s@) == array_strings(items@.subrange(0, i as int)),
        decreases items@.len() - i,
    {
        let ghost before = out@;
        assert(items@.subrange(0, i + 1).drop_last() =~= items@.subrange(0, i as int));
        assert(items@.subrange(0, i + 1).last() == items@[i as int]);
        match &items[i] {
            TomlValue::String(s) => {
                out.push(s.clone());
                assert(out@.map_values(|s: String| s@) =~= before.map_values(|s: String| s@).push(s@));
            },
            _ => {},
        }
        i = i + 1;
    }
    assert(items@.subrange(0, items@.len() as int) =~= items@);
    out
}

/// Reads the configuration from the top-level TOML entries `doc`: the `Rules` table (a
/// non-string value gives an empty pattern), the `vt` string, and the string items of
/// the `rules` array of the `YARA` table.
pub fn config_from_entries(doc: &Vec<(String, TomlValue)>) -> (r: Config)
    ensures
        config_of(r, doc@),
{
    let rules = match find_entry(doc, "Rules") {
        Some(i) => match &doc[i].1 {
            TomlValue::Table(t) => Some(rules_from_table(t)),
            _ => None,
        },
        None => None,
    };
    let vt = match find_entry(doc, "vt") {
        Some(i) => match &doc[i].1 {
            TomlValue::String(s) => Some(s.clone()),
            _ => None,
        },
        None => None,
    };
    let yara = match find_entry(doc, "YARA") {
        Some(i) => match &doc[i].1 {
            TomlValue::Table(t) => {
                let rules = match find_entry(t, "rules") {
                    Some(j) => match &t[j].1 {
                        TomlValue::Array(a) => Some(strings_from_array(a)),
                        _ => None,
                    },
                    None => None,
                };
                Some(YaraConfig { rules })
            },
            _ => None,
        },
        None => None,
    };
    Config { rules, vt, yara }
}

impl Config {
    /// Reads the configuration from TOML text; fails with the parser's message when the
    /// text is not valid TOML.
    pub fn from_toml(toml_str: &str) -> (r: Result<Self, ConfigError>)
        ensures
            match toml_document(toml_str@) {
                Ok(doc) => r matches Ok(c) && config_of(c, doc@),
                Err(m) => r matches Err(ConfigError::Parse(e)) && e@ == m@,
            },
    {
        match parse_toml_table(toml_str) {
            Ok(doc) => Ok(config_from_entries(&doc)),
            Err(m) => Err(ConfigError::Parse(m)),
        }
    }
}

} // verus!
