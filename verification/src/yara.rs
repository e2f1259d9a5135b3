//! YARA rules: where they come from, their compilation from rule sources, and scanning.
use vstd::prelude::*;
use vstd::string::StringExecFns;
use crate::yara_engine::{
    add_yara_source, build_rules, new_rule_compiler, scan_identifiers_valid, scan_with_rules, yara_scan, RuleCompiler,
    YaraRules,
};

verus! {

/// Where the YARA rules are: files, or directories searched for `.yar` and `.yara`
/// files.
#[derive(Debug, Default)]
pub struct YaraConfig {
    pub rules: Option<Vec<String>>,
}

/// A file extension that marks a YARA rule file.
pub open spec fn is_rule_extension(ext: Seq<char>) -> bool {
    ext == "yar"@ || ext == "yara"@
}

/// Whether a file with extension `ext` is read as a YARA rule file (`yar` or `yara`).
pub fn is_rule_file_extension(ext: &str) -> (r: bool)
    ensures
        r == is_rule_extension(ext@),
{
    let e = String::from_str(ext);
    e == String::from_str("yar") || e == String::from_str("yara")
}

/// The message for a rule source that does not compile.
pub open spec fn load_error_text(path: Seq<char>, reason: Seq<char>) -> Seq<char> {
    "Failed to read "@ + path + ": "@ + reason
}

/// Gives the rules read from the file at `path` to `compiler`, and succeeds exactly when
/// the compiler accepts them. On a compilation error the message names the file and
/// gives the compiler's own message.
fn load_rule_source(compiler: &mut RuleCompiler, path: &str, source: &str) -> (r: Result<(), String>)
    ensures
        final(compiler).given() == old(compiler).given().push((source@, final(compiler).given().last().1)),
        match r {
            Ok(()) => final(compiler).given().last().1 is None,
            Err(m) => final(compiler).given().last().1 matches Some(reason) && m@ == load_error_text(
                path@,
                reason,
            ),
        },
{
    match add_yara_source(compiler, source) {
        Ok(()) => Ok(()),
        Err(reason) => {
            let mut m = String::from_str("Failed to read ");
            m.append(path);
            m.append(": ");
            m.append(reason.as_str());
            assert(m@ == load_error_text(path@, reason@));
            Err(m)
        },
    }
}

/// One step of gathering the rule sources, in the order the configuration lists them.
pub enum RuleSource {
    /// The text of a rule file that was read.
    File { path: String, text: String },
    /// A path that could not be used; the message says why.
    Failure(String),
}

/// The text of a rule file step (empty for a failed step).
pub open spec fn source_text(s: RuleSource) -> Seq<char> {
    match s {
        RuleSource::File { text, .. } => text@,
        RuleSource::Failure(_) => Seq::empty(),
    }
}

/// The compiler's record after the texts of the first `n` steps were all accepted.
pub open spec fn accepted_record(sources: Seq<RuleSource>, n: int) -> Seq<(Seq<char>, Option<Seq<char>>)> {
    sources.take(n).map_values(|s: RuleSource| (source_text(s), None::<Seq<char>>))
}

/// Why the rule sources could not be compiled: the message, and the compiler as it was
/// when it stopped.
pub struct RuleLoadError {
    pub message: String,
    compiler: RuleCompiler,
}

impl RuleLoadError {
    /// The text of the message.
    pub closed spec fn text(&self) -> Seq<char> {
        self.message@
    }

    /// The sources given to the compiler, each with the compiler's answer.
    pub closed spec fn given(&self) -> Seq<(Seq<char>, Option<Seq<char>>)> {
        self.compiler.given()
    }
}

/// Step `i` ends the compilation with `e`: the steps before it are rule files whose texts
/// the compiler accepted, and either step `i` is a failed step whose message `e` carries,
/// or it is a rule file whose text the compiler was given and rejected, and `e` gives the
/// file's path and the compiler's message.
pub open spec fn ends_compilation(sources: Seq<RuleSource>, i: int, e: RuleLoadError) -> bool {
    &&& 0 <= i < sources.len()
    &&& forall|j: int| 0 <= j < i ==> (#[trigger] sources[j]) is File
    &&& match sources[i] {
        RuleSource::Failure(m) => e.text() == m@ && e.given() == accepted_record(sources, i),
        RuleSource::File { path, text } => exists|reason: Seq<char>|
            {
                &&& e.given() == accepted_record(sources, i).push((text@, Some(reason)))
                &&& e.text() == load_error_text(path@, reason)
            },
    }
}


/// Compiles the rule sources in order into one rule set. The first step that fails, or
/// whose text does not compile, ends the compilation with its message. The rule set is
/// built from exactly the texts of the steps, each given to the compiler and accepted;
/// with no step it holds no rule.
pub fn compile_rule_sources(sources: &Vec<RuleSource>) -> (r: Result<YaraRules, RuleLoadError>)
    ensures
        r matches Ok(rs) ==> {
            &&& forall|i: int| 0 <= i < sources@.len() ==> (#[trigger] sources@[i]) is File
            &&& rs.given() == accepted_record(sources@, sources@.len() as int)
            &&& sources@.len() == 0 ==> rs.identifiers().len() == 0
        },
        r matches Err(e) ==> exists|i: int| #[trigger] ends_compilation(sources@, i, e),
{
    let mut compiler = new_rule_compiler();
    let mut i: usize = 0;
    assert(accepted_record(sources@, 0) =~= Seq::<(Seq<char>, Option<Seq<char>>)>::empty());
    while i < sources.len()
        invariant
            0 <= i <= sources@.len(),
            forall|j: int| 0 <= j < i ==> (#[trigger] sources@[j]) is File,
            compiler.given() == accepted_record(sources@, i as int),
        decreases sources@.len() - i,
    {
        let ghost before = compiler.given();
        match &sources[i] {
            RuleSource::File { path, text } => {
                match load_rule_source(&mut compiler, path.as_str(), text.as_str()) {
                    Ok(()) => {
                        assert(accepted_record(sources@, i + 1) =~= before.push((text@, None::<Seq<char>>)));
                    },
                    Err(m) => {
                        let e = RuleLoadError { message: m, compiler };
                        let res: Result<YaraRules, RuleLoadError> = Err(e);
                        assert(res matches Err(x) && ends_compilation(sources@, i as int, x));
                        return res;
                    },
                }
            },
            RuleSource::Failure(m) => {
                let e = RuleLoadError { message: m.clone(), compiler };
                let res: Result<YaraRules, RuleLoadError> = Err(e);
                assert(res matches Err(x) && ends_compilation(sources@, i as int, x));
                return res;
            },
        }
        i = i + 1;
    }
    assert(sources@.take(sources@.len() as int) =~= sources@);
    Ok(build_rules(compiler))
}

/// Scans `data` with `rules`: the identifiers of the rules that match, in the scanner's
/// order, each that of a rule of the set and none twice, or the scanner's message when
/// the scan fails. A set compiled from no rule source scans to no match.
pub fn scan(rules: &YaraRules, data: &[u8]) -> (r: Result<Vec<String>, String>)
    ensures
        r matches Ok(ids) ==> yara_scan(*rules, data@) == Some(ids@.map_values(|s: String| s@)),
        r is Err ==> yara_scan(*rules, data@) is None,
        r matches Ok(ids) ==> scan_identifiers_valid(rules.identifiers(), ids@.map_values(|s: String| s@)),
        rules.given().len() == 0 ==> r is Ok,
        r matches Ok(ids) ==> (rules.given().len() == 0 ==> ids@.len() == 0),
{
    scan_with_rules(rules, data)
}

} // verus!
