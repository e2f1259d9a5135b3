//! The YARA compiler and rule sets, behind their records: what the compiler was given
//! and what it accepted. Only the calls into yara-x in this module write those records.
use vstd::prelude::*;

verus! {

#[verifier::external_type_specification]
#[verifier::external_body]
pub struct ExYaraCompiler<'a>(yara_x::Compiler<'a>);

#[verifier::external_type_specification]
#[verifier::external_body]
pub struct ExYaraRules(yara_x::Rules);

/// What the compiler answered for one source: `None` when it accepted it, else the
/// compiler's message.
pub open spec fn compile_answer(r: Result<(), String>) -> Option<Seq<char>> {
    match r {
        Ok(()) => None,
        Err(m) => Some(m@),
    }
}

/// A YARA compiler, with a record of the rule sources it was given, in order, and what
/// it answered for each.
pub struct RuleCompiler {
    compiler: yara_x::Compiler<'static>,
    given: Ghost<Seq<(Seq<char>, Option<Seq<char>>)>>,
}

impl RuleCompiler {
    /// The sources given to the compiler so far, each with the compiler's answer.
    pub closed spec fn given(&self) -> Seq<(Seq<char>, Option<Seq<char>>)> {
        self.given@
    }
}

/// `yara_x::Compiler::new` (yara-x): a compiler with no rules yet, and no source given.
#[verifier::external_body]
pub(crate) fn new_rule_compiler() -> (c: RuleCompiler)
    ensures
        c.given() == Seq::<(Seq<char>, Option<Seq<char>>)>::empty(),
{
    RuleCompiler { compiler: yara_x::Compiler::new(), given: Ghost(Seq::empty()) }
}

/// `yara_x::Compiler::add_source` (yara-x): compiles the rules in `source` into the
/// compiler; on a compilation error, its message. Claimed: `source` is recorded as given
/// to the compiler, with the answer this call returns. Nothing is stated of which
/// sources compile: the compiler follows `include` statements to files on disk (includes
/// are on by default), so the outcome is not a function of the texts alone.
#[verifier::external_body]
pub(crate) fn add_yara_source(c: &mut RuleCompiler, source: &str) -> (r: Result<(), String>)
    ensures
        final(c).given() == old(c).given().push((source@, compile_answer(r))),
{
    let r = match c.compiler.add_source(source) {
        Ok(_) => Ok(()),
        Err(e) => Err(e.to_string()),
    };
    c.given = Ghost(c.given@.push((source@, compile_answer(r))));
    r
}

/// A compiled YARA rule set, with the identifiers of its rules and the record of the
/// sources that were given to the compiler that built it.
pub struct YaraRules {
    rules: yara_x::Rules,
    identifiers: Vec<String>,
    given: Ghost<Seq<(Seq<char>, Option<Seq<char>>)>>,
}

impl YaraRules {
    /// The identifiers of the rules of the set, in the set's order.
    pub closed spec fn identifiers(&self) -> Seq<Seq<char>> {
        self.identifiers@.map_values(|s: String| s@)
    }

    /// The sources given to the compiler that built the set, each with its answer.
    pub closed spec fn given(&self) -> Seq<(Seq<char>, Option<Seq<char>>)> {
        self.given@
    }
}

/// `yara_x::Compiler::build` (yara-x): the compiled rule set, with the identifiers of its
/// rules read through `Rules::iter`. Claimed: the set keeps the compiler's record of
/// sources, and a compiler that was given no source builds a set with no rule.
#[verifier::external_body]
pub(crate) fn build_rules(c: RuleCompiler) -> (r: YaraRules)
    ensures
        r.given() == c.given(),
        c.given().len() == 0 ==> r.identifiers().len() == 0,
{
    let rules = c.compiler.build();
    let identifiers = rules.iter().map(|rule| rule.identifier().to_string()).collect();
    YaraRules { rules, identifiers, given: Ghost(c.given@) }
}

/// What yara-x's scanner reports for the rule set `rules` on `data`: the identifiers of
/// the matching rules in its order, or `None` when the scan fails.
pub uninterp spec fn yara_scan(rules: YaraRules, data: Seq<u8>) -> Option<Seq<Seq<char>>>;

/// `yara_x::Scanner::scan` (yara-x), with a scanner made for `rules` and no timeout: the
/// identifiers of the rules that match `data`, in the order of `matching_rules`; on a
/// scan error, its message. Claimed:
/// - the outcome is a function of the rule set and the data, named `yara_scan` (included
///   files were read when the set was compiled, no timeout is set, and no module that
///   reads the clock is built in);
/// - each identifier is that of a rule of the set, and none comes twice (the scanner
///   reports each matching rule once, and all rules share the default namespace, where
///   the compiler refuses a repeated identifier);
/// - a set built from no source, which has no rule and imports no module, scans without
///   error and matches nothing (the only scan errors come from modules and timeouts).
#[verifier::external_body]
pub(crate) fn scan_with_rules(rules: &YaraRules, data: &[u8]) -> (r: Result<Vec<String>, String>)
    ensures
        r matches Ok(ids) ==> yara_scan(*rules, data@) == Some(ids@.map_values(|s: String| s@)),
        r is Err ==> yara_scan(*rules, data@) is None,
        r matches Ok(ids) ==> scan_identifiers_valid(rules.identifiers(), ids@.map_values(|s: String| s@)),
        rules.given().len() == 0 ==> r is Ok,
        r matches Ok(ids) ==> (rules.given().len() == 0 ==> ids@.len() == 0),
{
    let mut scanner = yara_x::Scanner::new(&rules.rules);
    match scanner.scan(data) {
        Ok(results) => Ok(results.matching_rules().map(|r| r.identifier().to_string()).collect()),
        Err(e) => Err(e.to_string()),
    }
}

/// Each reported identifier is that of a rule of the set, and none comes twice.
pub open spec fn scan_identifiers_valid(rule_ids: Seq<Seq<char>>, found: Seq<Seq<char>>) -> bool {
    &&& forall|k: int| 0 <= k < found.len() ==> rule_ids.contains(#[trigger] found[k])
    &&& forall|k1: int, k2: int| 0 <= k1 < k2 < found.len() ==> #[trigger] found[k1] != #[trigger] found[k2]
}

} // verus!
