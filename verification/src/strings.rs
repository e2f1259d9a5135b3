//! Extraction of printable ASCII strings from a byte buffer, and matching of
//! the extracted strings against named regular-expression rules.
use vstd::prelude::*;
use vstd::utf8::*;
use crate::text::{ascii_text, all_ascii_bytes, lemma_ascii_bytes_decode, string_from_utf8};

verus! {

/// How an extracted string was encoded in the buffer.
#[derive(Debug, Clone, Copy, PartialEq, Eq)]
pub enum StringEncoding {
    Ascii,
    Utf16Le,
}

/// A string found in a buffer, with the offset of its first byte.
#[derive(Debug)]
pub struct ExtractedString {
    pub value: String,
    pub offset: u64,
    pub encoding: StringEncoding,
}

/// The shortest run of printable bytes that is reported as a string.
pub const MIN_STRING_LEN: usize = 4;

/// A byte that is ASCII graphic (`!` to `~`) or ASCII whitespace
/// (space, tab, line feed, form feed, carriage return).
pub open spec fn is_printable(b: u8) -> bool {
    ||| 0x21 <= b <= 0x7e
    ||| b == 0x20
    ||| b == 0x09
    ||| b == 0x0a
    ||| b == 0x0c
    ||| b == 0x0d
}

/// Number of printable bytes that immediately precede position `i`.
pub open spec fn run_before(buf: Seq<u8>, i: int) -> nat
    decreases i,
{
    if i <= 0 || i > buf.len() {
        0
    } else if is_printable(buf[i - 1]) {
        run_before(buf, i - 1) + 1
    } else {
        0
    }
}

/// The run of length `len` that ends at `end`, as `(offset, length)`, when it is long
/// enough to be reported.
pub open spec fn reported(end: int, len: nat) -> Seq<(int, int)> {
    if len >= MIN_STRING_LEN {
        seq![(end - len, len as int)]
    } else {
        seq![]
    }
}

/// Maximal printable runs (as `(offset, length)`, in buffer order) of at least
/// `MIN_STRING_LEN` bytes that are closed by a non-printable byte before position `i`.
pub open spec fn closed_runs(buf: Seq<u8>, i: int) -> Seq<(int, int)>
    decreases i,
{
    if i <= 0 || i > buf.len() {
        seq![]
    } else if is_printable(buf[i - 1]) {
        closed_runs(buf, i - 1)
    } else {
        closed_runs(buf, i - 1) + reported(i - 1, run_before(buf, i - 1))
    }
}

/// All maximal printable runs of at least `MIN_STRING_LEN` bytes, in buffer order,
/// including one that reaches the end of the buffer.
pub open spec fn string_runs(buf: Seq<u8>) -> Seq<(int, int)> {
    closed_runs(buf, buf.len() as int) + reported(buf.len() as int, run_before(buf, buf.len() as int))
}

/// `out` holds one ASCII string per run, with its offset and its text.
pub open spec fn strings_of_runs(buf: Seq<u8>, runs: Seq<(int, int)>, out: Seq<ExtractedString>) -> bool {
    &&& out.len() == runs.len()
    &&& forall|k: int|
        0 <= k < runs.len() ==> {
            &&& (#[trigger] out[k]).offset == runs[k].0
            &&& out[k].value@ == ascii_text(buf.subrange(runs[k].0, runs[k].0 + runs[k].1))
            &&& out[k].encoding == StringEncoding::Ascii
        }
}

proof fn lemma_run_before_bounds(buf: Seq<u8>, i: int)
    requires
        0 <= i <= buf.len(),
    ensures
        run_before(buf, i) <= i,
        forall|j: int| i - run_before(buf, i) <= j < i ==> is_printable(#[trigger] buf[j]),
        run_before(buf, i) < i ==> !is_printable(buf[i - run_before(buf, i) - 1]),
    decreases i,
{
    if i > 0 && is_printable(buf[i - 1]) {
        lemma_run_before_bounds(buf, i - 1);
    }
}

/// `(offset, len)` is a run of printable bytes that cannot be extended on either side.
pub open spec fn is_maximal_run(buf: Seq<u8>, offset: int, len: int) -> bool {
    &&& 0 <= offset
    &&& 0 < len
    &&& offset + len <= buf.len()
    &&& forall|j: int| offset <= j < offset + len ==> is_printable(#[trigger] buf[j])
    &&& offset == 0 || !is_printable(buf[offset - 1])
    &&& offset + len == buf.len() || !is_printable(buf[offset + len])
}

proof fn lemma_run_before_exact(buf: Seq<u8>, offset: int, len: int)
    requires
        0 <= offset,
        0 <= len,
        offset + len <= buf.len(),
        forall|j: int| offset <= j < offset + len ==> is_printable(#[trigger] buf[j]),
        offset == 0 || !is_printable(buf[offset - 1]),
    ensures
        run_before(buf, offset + len) == len,
    decreases len,
{
    if len > 0 {
        assert(is_printable(buf[offset + len - 1]));
        lemma_run_before_exact(buf, offset, len - 1);
    }
}

/// Runs in `runs` are maximal, reported-long, ordered, and end strictly before `bound`.
pub open spec fn runs_well_formed(buf: Seq<u8>, runs: Seq<(int, int)>, bound: int) -> bool {
    &&& forall|k: int|
        0 <= k < runs.len() ==> {
            &&& is_maximal_run(buf, (#[trigger] runs[k]).0, runs[k].1)
            &&& runs[k].1 >= MIN_STRING_LEN
            &&& runs[k].0 + runs[k].1 <= bound
        }
    &&& forall|k: int|
        0 <= k < runs.len() - 1 ==> #[trigger] runs[k].0 + runs[k].1 < runs[k + 1].0
}

/// Every maximal run of at least `MIN_STRING_LEN` bytes that ends before `bound` is in `runs`.
pub open spec fn runs_complete(buf: Seq<u8>, runs: Seq<(int, int)>, bound: int) -> bool {
    forall|offset: int, len: int|
        #[trigger] is_maximal_run(buf, offset, len) && len >= MIN_STRING_LEN && offset + len <= bound
            ==> runs.contains((offset, len))
}

proof fn lemma_closed_runs(buf: Seq<u8>, i: int)
    requires
        0 <= i <= buf.len(),
    ensures
        runs_well_formed(buf, closed_runs(buf, i), i - 1),
        runs_complete(buf, closed_runs(buf, i), i - 1),
    decreases i,
{
    if i > 0 {
        lemma_closed_runs(buf, i - 1);
        let prev = closed_runs(buf, i - 1);
        let cur = closed_runs(buf, i);
        if is_printable(buf[i - 1]) {
            assert forall|offset: int, len: int|
                #[trigger] is_maximal_run(buf, offset, len) && len >= MIN_STRING_LEN && offset + len
                    <= i - 1 implies cur.contains((offset, len)) by {
                if offset + len == i - 1 {
                    assert(is_printable(buf[offset + len]));
                }
            }
        } else {
            let rb = run_before(buf, i - 1);
            lemma_run_before_bounds(buf, i - 1);
            let new = reported(i - 1, rb);
            assert(cur == prev + new);
            if rb >= MIN_STRING_LEN {
                assert(is_maximal_run(buf, i - 1 - rb, rb as int));
                if prev.len() > 0 {
                    let last = prev[prev.len() - 1];
                    assert(is_maximal_run(buf, last.0, last.1));
                    assert(!is_printable(buf[last.0 + last.1]));
                }
            }
            assert forall|offset: int, len: int|
                #[trigger] is_maximal_run(buf, offset, len) && len >= MIN_STRING_LEN && offset + len
                    <= i - 1 implies cur.contains((offset, len)) by {
                if offset + len <= i - 2 {
                    assert(prev.contains((offset, len)));
                    let k = choose|k: int| 0 <= k < prev.len() && prev[k] == (offset, len);
                    assert(cur[k] == (offset, len));
                } else {
                    lemma_run_before_exact(buf, offset, len);
                    assert(cur[prev.len() as int] == (offset, len));
                }
            }
        }
    }
}

/// What `extract_strings` reports is exactly the set of maximal runs of at least
/// four printable bytes: each reported run is printable throughout, cannot be extended
/// on either side and is long enough; the runs come in buffer order without overlap;
/// and every such run of the buffer is reported.
pub proof fn law_string_runs_are_the_maximal_runs(buf: Seq<u8>)
    ensures
        runs_well_formed(buf, string_runs(buf), buf.len() as int),
        runs_complete(buf, string_runs(buf), buf.len() as int),
{
    let n = buf.len() as int;
    lemma_closed_runs(buf, n);
    lemma_run_before_bounds(buf, n);
    let prev = closed_runs(buf, n);
    let rb = run_before(buf, n);
    let all = string_runs(buf);
    assert(all == prev + reported(n, rb));
    if rb >= MIN_STRING_LEN {
        assert(is_maximal_run(buf, n - rb, rb as int));
        if prev.len() > 0 {
            let last = prev[prev.len() - 1];
            assert(is_maximal_run(buf, last.0, last.1));
            assert(!is_printable(buf[last.0 + last.1]));
        }
    }
    assert forall|offset: int, len: int|
        #[trigger] is_maximal_run(buf, offset, len) && len >= MIN_STRING_LEN && offset + len
            <= n implies all.contains((offset, len)) by {
        if offset + len <= n - 1 {
            let k = choose|k: int| 0 <= k < prev.len() && prev[k] == (offset, len);
            assert(all[k] == (offset, len));
        } else {
            lemma_run_before_exact(buf, offset, len);
            assert(all[prev.len() as int] == (offset, len));
        }
    }
}

/// The runs moved `k` bytes further into the buffer.
pub open spec fn shift_runs(runs: Seq<(int, int)>, k: int) -> Seq<(int, int)> {
    runs.map_values(|r: (int, int)| (r.0 + k, r.1))
}

/// Runs and run lengths up to position `i` depend only on the bytes before `i`.
proof fn lemma_runs_of_prefix(x: Seq<u8>, y: Seq<u8>, i: int)
    requires
        0 <= i <= x.len(),
        i <= y.len(),
        forall|j: int| 0 <= j < i ==> x[j] == y[j],
    ensures
        run_before(x, i) == run_before(y, i),
        closed_runs(x, i) == closed_runs(y, i),
    decreases i,
{
    if i > 0 {
        lemma_runs_of_prefix(x, y, i - 1);
    }
}

proof fn lemma_shift_concat(r1: Seq<(int, int)>, r2: Seq<(int, int)>, k: int)
    ensures
        shift_runs(r1 + r2, k) == shift_runs(r1, k) + shift_runs(r2, k),
{
    assert(shift_runs(r1 + r2, k) =~= shift_runs(r1, k) + shift_runs(r2, k));
}

proof fn lemma_shift_reported(end: int, len: nat, k: int)
    ensures
        shift_runs(reported(end, len), k) == reported(end + k, len),
{
    assert(shift_runs(reported(end, len), k) =~= reported(end + k, len));
}

/// After a NUL byte at position `n`, the runs of `c` past it are those of the rest of `c`,
/// moved `n + 1` bytes on.
proof fn lemma_runs_after_nul(a: Seq<u8>, b: Seq<u8>, j: int)
    requires
        0 <= j <= b.len(),
    ensures
        run_before(a + seq![0u8] + b, a.len() + 1 + j) == run_before(b, j),
        closed_runs(a + seq![0u8] + b, a.len() + 1 + j) == string_runs(a) + shift_runs(
            closed_runs(b, j),
            a.len() + 1 as int,
        ),
    decreases j,
{
    let c = a + seq![0u8] + b;
    let n = a.len() as int;
    if j == 0 {
        lemma_runs_of_prefix(c, a, n);
        assert(c[n] == 0u8);
        assert(!is_printable(c[n]));
        assert(shift_runs(closed_runs(b, 0), n + 1) =~= Seq::<(int, int)>::empty());
        assert(string_runs(a) + Seq::<(int, int)>::empty() =~= string_runs(a));
    } else {
        lemma_runs_after_nul(a, b, j - 1);
        assert(c[n + j] == b[j - 1]);
        if !is_printable(b[j - 1]) {
            lemma_shift_concat(closed_runs(b, j - 1), reported(j - 1, run_before(b, j - 1)), n + 1);
            lemma_shift_reported(j - 1, run_before(b, j - 1), n + 1);
            assert(closed_runs(c, n + 1 + j) =~= string_runs(a) + shift_runs(closed_runs(b, j), n + 1));
        }
    }
}

/// Strings never run across a NUL byte: the runs of `a`, a NUL byte and `b` are the runs
/// of `a` followed by those of `b`, moved past `a` and the NUL byte.
pub proof fn law_strings_split_at_a_nul(a: Seq<u8>, b: Seq<u8>)
    ensures
        string_runs(a + seq![0u8] + b) == string_runs(a) + shift_runs(string_runs(b), a.len() + 1 as int),
{
    let c = a + seq![0u8] + b;
    let n = a.len() as int;
    lemma_runs_after_nul(a, b, b.len() as int);
    assert(c.len() == n + 1 + b.len());
    lemma_shift_concat(closed_runs(b, b.len() as int), reported(b.len() as int, run_before(b, b.len() as int)), n + 1);
    lemma_shift_reported(b.len() as int, run_before(b, b.len() as int), n + 1);
    assert(string_runs(c) =~= string_runs(a) + shift_runs(string_runs(b), n + 1));
}

/// Extracting strings from `a`, a NUL byte and `b` gives the strings of `a`, then those
/// of `b` with their offsets moved past `a` and the NUL byte; texts and encodings are kept.
pub proof fn law_extracted_strings_split_at_a_nul(
    a: Seq<u8>,
    b: Seq<u8>,
    sa: Seq<ExtractedString>,
    sb: Seq<ExtractedString>,
    sc: Seq<ExtractedString>,
)
    requires
        strings_of_runs(a, string_runs(a), sa),
        strings_of_runs(b, string_runs(b), sb),
        strings_of_runs(a + seq![0u8] + b, string_runs(a + seq![0u8] + b), sc),
    ensures
        sc.len() == sa.len() + sb.len(),
        forall|k: int|
            0 <= k < sa.len() ==> (#[trigger] sc[k]).offset == sa[k].offset && sc[k].value@ == sa[k].value@
                && sc[k].encoding == sa[k].encoding,
        forall|k: int|
            0 <= k < sb.len() ==> (#[trigger] sc[sa.len() + k]).offset == sb[k].offset + a.len() + 1
                && sc[sa.len() + k].value@ == sb[k].value@ && sc[sa.len() + k].encoding == sb[k].encoding,
{
    let c = a + seq![0u8] + b;
    let n = a.len() as int;
    law_strings_split_at_a_nul(a, b);
    law_string_runs_are_the_maximal_runs(a);
    law_string_runs_are_the_maximal_runs(b);
    let ra = string_runs(a);
    let rb = string_runs(b);
    let rc = string_runs(c);
    assert forall|k: int| 0 <= k < sa.len() implies (#[trigger] sc[k]).offset == sa[k].offset
        && sc[k].value@ == sa[k].value@ && sc[k].encoding == sa[k].encoding by {
        assert(rc[k] == ra[k]);
        assert(is_maximal_run(a, ra[k].0, ra[k].1));
        assert(c.subrange(ra[k].0, ra[k].0 + ra[k].1) =~= a.subrange(ra[k].0, ra[k].0 + ra[k].1));
    }
    assert forall|k: int| 0 <= k < sb.len() implies (#[trigger] sc[sa.len() + k]).offset == sb[k].offset
        + a.len() + 1 && sc[sa.len() + k].value@ == sb[k].value@ && sc[sa.len() + k].encoding
        == sb[k].encoding by {
        assert(rc[ra.len() + k] == (rb[k].0 + n + 1, rb[k].1));
        assert(is_maximal_run(b, rb[k].0, rb[k].1));
        assert(c.subrange(rb[k].0 + n + 1, rb[k].0 + n + 1 + rb[k].1) =~= b.subrange(rb[k].0, rb[k].0 + rb[k].1));
    }
}

proof fn lemma_no_closed_runs(buf: Seq<u8>, i: int)
    requires
        0 <= i <= buf.len(),
        forall|j: int| 0 <= j < i ==> is_printable(#[trigger] buf[j]),
    ensures
        closed_runs(buf, i) == Seq::<(int, int)>::empty(),
    decreases i,
{
    if i > 0 {
        lemma_no_closed_runs(buf, i - 1);
    }
}

/// A buffer of at least four ASCII graphic characters (`!` to `~`, backslash included)
/// and ASCII whitespace (space, tab, line feed, form feed, carriage return) is one
/// string: the whole buffer, at offset 0.
pub proof fn law_graphic_and_whitespace_bytes_form_one_string(buf: Seq<u8>)
    requires
        buf.len() >= 4,
        forall|j: int|
            0 <= j < buf.len() ==> {
                ||| 0x21 <= #[trigger] buf[j] <= 0x7e
                ||| buf[j] == 0x20
                ||| buf[j] == 0x09
                ||| buf[j] == 0x0a
                ||| buf[j] == 0x0c
                ||| buf[j] == 0x0d
            },
    ensures
        string_runs(buf) == seq![(0int, buf.len() as int)],
{
    let n = buf.len() as int;
    assert forall|j: int| 0 <= j < n implies is_printable(#[trigger] buf[j]) by {}
    lemma_no_closed_runs(buf, n);
    lemma_run_before_exact(buf, 0, n);
    assert(string_runs(buf) =~= seq![(0int, n)]);
}

/// Every reported string is at least four bytes long, and every byte of it is an ASCII
/// graphic character or ASCII whitespace.
pub proof fn law_strings_hold_only_graphic_or_whitespace(buf: Seq<u8>)
    ensures
        forall|k: int| 0 <= k < string_runs(buf).len() ==> (#[trigger] string_runs(buf)[k]).1 >= 4,
        forall|k: int, j: int|
            #![trigger string_runs(buf)[k], buf[j]]
            0 <= k < string_runs(buf).len() && string_runs(buf)[k].0 <= j < string_runs(buf)[k].0
                + string_runs(buf)[k].1 ==> {
                ||| 0x21 <= buf[j] <= 0x7e
                ||| buf[j] == 0x20
                ||| buf[j] == 0x09
                ||| buf[j] == 0x0a
                ||| buf[j] == 0x0c
                ||| buf[j] == 0x0d
            },
{
    law_string_runs_are_the_maximal_runs(buf);
    let runs = string_runs(buf);
    assert forall|k: int, j: int|
        #![trigger runs[k], buf[j]]
        0 <= k < runs.len() && runs[k].0 <= j < runs[k].0 + runs[k].1 implies {
        ||| 0x21 <= buf[j] <= 0x7e
        ||| buf[j] == 0x20
        ||| buf[j] == 0x09
        ||| buf[j] == 0x0a
        ||| buf[j] == 0x0c
        ||| buf[j] == 0x0d
    } by {
        assert(is_maximal_run(buf, runs[k].0, runs[k].1));
        assert(is_printable(buf[j]));
    }
}

/// Extracts every maximal run of at least four printable ASCII bytes (graphic
/// characters and whitespace), in buffer order, with the offset of its first byte.
pub fn extract_strings(buffer: &[u8]) -> (strings: Vec<ExtractedString>)
    ensures
        strings_of_runs(buffer@, string_runs(buffer@), strings@),
{
    let mut strings: Vec<ExtractedString> = Vec::new();
    let mut current_string: Vec<u8> = Vec::new();
    let mut start_offset: usize = 0;
    let mut i: usize = 0;
    while i < buffer.len()
        invariant
            0 <= i <= buffer.len(),
            current_string@ == buffer@.subrange(i - run_before(buffer@, i as int), i as int),
            current_string@.len() > 0 ==> start_offset == i - current_string@.len(),
            strings_of_runs(buffer@, closed_runs(buffer@, i as int), strings@),
        decreases buffer.len() - i,
    {
        proof {
            lemma_run_before_bounds(buffer@, i as int);
        }
        let byte = buffer[i];
        if byte_is_printable(byte) {
            if current_string.len() == 0 {
                start_offset = i;
            }
            current_string.push(byte);
            assert(current_string@ =~= buffer@.subrange(
                i + 1 - run_before(buffer@, i + 1),
                i + 1,
            ));
        } else {
            if current_string.len() >= MIN_STRING_LEN {
                let ghost run = current_string@;
                proof {
                    lemma_printable_ascii(run);
                    lemma_ascii_bytes_decode(run);
                }
                match string_from_utf8(current_string.clone()) {
                    Some(s) => {
                        strings.push(
                            ExtractedString { value: s, offset: start_offset as u64, encoding: StringEncoding::Ascii },
                        );
                    },
                    None => {},
                }
            }
            current_string.clear();
            assert(current_string@ =~= buffer@.subrange(
                i + 1 - run_before(buffer@, i + 1),
                i + 1,
            ));
        }
        i = i + 1;
        proof {
            let ghost prev = closed_runs(buffer@, i - 1);
            assert(strings_of_runs(buffer@, closed_runs(buffer@, i as int), strings@));
        }
    }
    proof {
        lemma_run_before_bounds(buffer@, i as int);
    }
    if current_string.len() >= MIN_STRING_LEN {
        proof {
            lemma_printable_ascii(current_string@);
            lemma_ascii_bytes_decode(current_string@);
        }
        match string_from_utf8(current_string) {
            Some(s) => {
                strings.push(
                    ExtractedString { value: s, offset: start_offset as u64, encoding: StringEncoding::Ascii },
                );
            },
            None => {},
        }
    }
    strings
}

/// Printable bytes are ASCII.
proof fn lemma_printable_ascii(run: Seq<u8>)
    requires
        forall|j: int| 0 <= j < run.len() ==> is_printable(#[trigger] run[j]),
    ensures
        all_ascii_bytes(run),
{
    assert forall|j: int| 0 <= j < run.len() implies #[trigger] run[j] < 0x80 by {
        assert(is_printable(run[j]));
    }
}

#[verifier::external_type_specification]
#[verifier::external_body]
pub struct ExRegex(regex::Regex);

/// Whether `regex::Regex::new` accepts `pattern`.
pub uninterp spec fn regex_compiles(pattern: Seq<char>) -> bool;

/// What `regex::Regex::is_match` answers for the regex built from `pattern` on `haystack`.
pub uninterp spec fn regex_is_match(pattern: Seq<char>, haystack: Seq<char>) -> bool;

/// A compiled rule, with the pattern it was compiled from.
pub struct CompiledRule {
    regex: regex::Regex,
    pattern: Ghost<Seq<char>>,
}

impl CompiledRule {
    /// The pattern the rule was compiled from.
    pub closed spec fn pattern(&self) -> Seq<char> {
        self.pattern@
    }
}

/// `regex::Regex::new` (regex): compiles `pattern`; `None` on its error. Claimed: whether
/// it succeeds is a function of the pattern, named `regex_compiles`.
#[verifier::external_body]
fn compile_rule(pattern: &str) -> (r: Option<CompiledRule>)
    ensures
        r is Some <==> regex_compiles(pattern@),
        r matches Some(c) ==> c.pattern() == pattern@,
{
    match regex::Regex::new(pattern) {
        Ok(regex) => Some(CompiledRule { regex, pattern: Ghost(pattern@) }),
        Err(_) => None,
    }
}

/// `regex::Regex::is_match` (regex): whether the rule matches somewhere in `haystack`.
/// Claimed: a function of the pattern and the haystack, named `regex_is_match`.
#[verifier::external_body]
fn rule_matches(rule: &CompiledRule, haystack: &str) -> (r: bool)
    ensures
        r == regex_is_match(rule.pattern(), haystack@),
{
    rule.regex.is_match(haystack)
}

/// The strings whose value the rule `pattern` matches, in order.
pub open spec fn matching_strings(strings: Seq<ExtractedString>, pattern: Seq<char>) -> Seq<ExtractedString>
    decreases strings.len(),
{
    if strings.len() == 0 {
        seq![]
    } else {
        let prev = matching_strings(strings.drop_last(), pattern);
        if regex_is_match(pattern, strings.last().value@) {
            prev.push(strings.last())
        } else {
            prev
        }
    }
}

/// For each named rule, in order, its name and the strings it matches, when it matches
/// at least one.
pub open spec fn notable(strings: Seq<ExtractedString>, patterns: Seq<(String, String)>) -> Seq<
    (Seq<char>, Seq<ExtractedString>),
>
    decreases patterns.len(),
{
    if patterns.len() == 0 {
        seq![]
    } else {
        let prev = notable(strings, patterns.drop_last());
        let found = matching_strings(strings, patterns.last().1@);
        if found.len() > 0 {
            prev.push((patterns.last().0@, found))
        } else {
            prev
        }
    }
}

/// The rule results as (rule name, matched strings).
pub open spec fn rule_results(out: Seq<(&str, Vec<&ExtractedString>)>) -> Seq<(Seq<char>, Seq<ExtractedString>)> {
    out.map_values(|e: (&str, Vec<&ExtractedString>)| (e.0@, e.1@.map_values(|r: &ExtractedString| *r)))
}

/// A rule's reported matches are exactly the extracted strings that the rule matches:
/// every reported string is one of the extracted strings and is matched by the rule, and
/// every extracted string the rule matches is reported.
pub proof fn law_rule_matches_are_exact(strings: Seq<ExtractedString>, pattern: Seq<char>)
    ensures
        forall|s: ExtractedString|
            #[trigger] matching_strings(strings, pattern).contains(s) <==> (strings.contains(s)
                && regex_is_match(pattern, s.value@)),
    decreases strings.len(),
{
    if strings.len() > 0 {
        let prev = strings.drop_last();
        law_rule_matches_are_exact(prev, pattern);
        assert forall|s: ExtractedString|
            #[trigger] matching_strings(strings, pattern).contains(s) <==> (strings.contains(s)
                && regex_is_match(pattern, s.value@)) by {
            let m = matching_strings(strings, pattern);
            if strings.contains(s) && regex_is_match(pattern, s.value@) {
                let i = choose|i: int| 0 <= i < strings.len() && strings[i] == s;
                if i < strings.len() - 1 {
                    assert(prev[i] == s);
                    assert(prev.contains(s));
                    assert(matching_strings(prev, pattern).contains(s));
                    let j = choose|j: int| 0 <= j < matching_strings(prev, pattern).len() && matching_strings(prev, pattern)[j] == s;
                    assert(m[j] == s);
                } else {
                    assert(m.last() == s);
                }
            }
            if m.contains(s) {
                let j = choose|j: int| 0 <= j < m.len() && m[j] == s;
                if j < matching_strings(prev, pattern).len() {
                    assert(matching_strings(prev, pattern)[j] == s);
                    assert(matching_strings(prev, pattern).contains(s));
                    assert(prev.contains(s));
                    let i = choose|i: int| 0 <= i < prev.len() && prev[i] == s;
                    assert(strings[i] == s);
                } else {
                    assert(strings[strings.len() - 1] == s);
                }
            }
        }
    }
}

/// Every reported rule is one of the given rules, reported under its name with the
/// strings it matches, and at least one of them.
pub proof fn law_notable_rules_come_from_patterns(strings: Seq<ExtractedString>, patterns: Seq<(String, String)>)
    ensures
        forall|k: int|
            0 <= k < notable(strings, patterns).len() ==> exists|p: int|
                0 <= p < patterns.len() && (#[trigger] notable(strings, patterns)[k]).0 == patterns[p].0@
                    && notable(strings, patterns)[k].1 == matching_strings(strings, patterns[p].1@)
                    && notable(strings, patterns)[k].1.len() > 0,
    decreases patterns.len(),
{
    if patterns.len() > 0 {
        let prev = patterns.drop_last();
        law_notable_rules_come_from_patterns(strings, prev);
        let out = notable(strings, patterns);
        assert forall|k: int| 0 <= k < out.len() implies exists|p: int|
            0 <= p < patterns.len() && (#[trigger] out[k]).0 == patterns[p].0@ && out[k].1
                == matching_strings(strings, patterns[p].1@) && out[k].1.len() > 0 by {
            if k < notable(strings, prev).len() {
                let p = choose|p: int|
                    0 <= p < prev.len() && (#[trigger] notable(strings, prev)[k]).0 == prev[p].0@
                        && notable(strings, prev)[k].1 == matching_strings(strings, prev[p].1@)
                        && notable(strings, prev)[k].1.len() > 0;
                assert(patterns[p] == prev[p]);
            } else {
                assert(patterns[patterns.len() - 1] == patterns.last());
            }
        }
    }
}

/// No name occurs twice.
pub open spec fn names_distinct(names: Seq<Seq<char>>) -> bool {
    forall|i: int, j: int| 0 <= i < j < names.len() ==> #[trigger] names[i] != #[trigger] names[j]
}

/// The names of the rules.
pub open spec fn pattern_names(patterns: Seq<(String, String)>) -> Seq<Seq<char>> {
    patterns.map_values(|p: (String, String)| p.0@)
}

/// The names of the reported rules.
pub open spec fn reported_names(found: Seq<(Seq<char>, Seq<ExtractedString>)>) -> Seq<Seq<char>> {
    found.map_values(|e: (Seq<char>, Seq<ExtractedString>)| e.0)
}

/// Rules with distinct names are reported under distinct names.
pub proof fn law_notable_names_distinct(strings: Seq<ExtractedString>, patterns: Seq<(String, String)>)
    requires
        names_distinct(pattern_names(patterns)),
    ensures
        names_distinct(reported_names(notable(strings, patterns))),
    decreases patterns.len(),
{
    if patterns.len() > 0 {
        let prev = patterns.drop_last();
        assert(names_distinct(pattern_names(prev))) by {
            assert forall|i: int, j: int| 0 <= i < j < pattern_names(prev).len() implies #[trigger] pattern_names(
                prev,
            )[i] != #[trigger] pattern_names(prev)[j] by {
                assert(pattern_names(prev)[i] == pattern_names(patterns)[i]);
                assert(pattern_names(prev)[j] == pattern_names(patterns)[j]);
            }
        }
        law_notable_names_distinct(strings, prev);
        law_notable_rules_come_from_patterns(strings, prev);
        let before = notable(strings, prev);
        let found = matching_strings(strings, patterns.last().1@);
        if found.len() > 0 {
            let out = before.push((patterns.last().0@, found));
            assert forall|i: int, j: int| 0 <= i < j < reported_names(out).len() implies #[trigger] reported_names(
                out,
            )[i] != #[trigger] reported_names(out)[j] by {
                assert(reported_names(out)[i] == before[i].0);
                if j < before.len() {
                    assert(reported_names(out)[j] == before[j].0);
                    assert(reported_names(before)[i] == before[i].0);
                    assert(reported_names(before)[j] == before[j].0);
                } else {
                    let p = choose|p: int|
                        0 <= p < prev.len() && (#[trigger] notable(strings, prev)[i]).0 == prev[p].0@
                            && notable(strings, prev)[i].1 == matching_strings(strings, prev[p].1@)
                            && notable(strings, prev)[i].1.len() > 0;
                    assert(pattern_names(patterns)[p] == prev[p].0@);
                    assert(pattern_names(patterns)[patterns.len() - 1] == patterns.last().0@);
                }
            }
        } else {
            assert(reported_names(notable(strings, patterns)) == reported_names(before));
        }
    }
}

/// Some extracted string matches `pattern`.
pub open spec fn some_string_matches(strings: Seq<ExtractedString>, pattern: Seq<char>) -> bool {
    exists|s: ExtractedString| strings.contains(s) && #[trigger] regex_is_match(pattern, s.value@)
}

/// Every rule that matches at least one extracted string is reported, under its name and
/// with exactly the strings it matches.
pub proof fn law_every_matching_rule_is_reported(strings: Seq<ExtractedString>, patterns: Seq<(String, String)>)
    ensures
        forall|p: int|
            0 <= p < patterns.len() && some_string_matches(strings, #[trigger] patterns[p].1@) ==> exists|k: int|
                0 <= k < notable(strings, patterns).len() && notable(strings, patterns)[k] == (
                patterns[p].0@,
                matching_strings(strings, patterns[p].1@),
            ),
    decreases patterns.len(),
{
    if patterns.len() > 0 {
        let prev = patterns.drop_last();
        law_every_matching_rule_is_reported(strings, prev);
        let before = notable(strings, prev);
        let out = notable(strings, patterns);
        assert forall|p: int|
            0 <= p < patterns.len() && some_string_matches(strings, #[trigger] patterns[p].1@) implies exists|k: int|
                0 <= k < out.len() && out[k] == (patterns[p].0@, matching_strings(strings, patterns[p].1@)) by {
            if p < patterns.len() - 1 {
                assert(patterns[p] == prev[p]);
                assert(some_string_matches(strings, prev[p].1@));
                let k = choose|k: int|
                    0 <= k < before.len() && before[k] == (prev[p].0@, matching_strings(strings, prev[p].1@));
                assert(out[k] == before[k]);
            } else {
                let pat = patterns[p].1@;
                law_rule_matches_are_exact(strings, pat);
                let s = choose|s: ExtractedString| strings.contains(s) && #[trigger] regex_is_match(pat, s.value@);
                assert(matching_strings(strings, pat).contains(s));
                assert(matching_strings(strings, pat).len() > 0);
                assert(patterns.last() == patterns[p]);
                assert(out[before.len() as int] == (patterns[p].0@, matching_strings(strings, pat)));
            }
        }
    }
}

/// Every rule pattern compiles.
pub open spec fn all_rules_compile(patterns: Seq<(String, String)>) -> bool {
    forall|i: int| 0 <= i < patterns.len() ==> regex_compiles(#[trigger] patterns[i].1@)
}

/// The strings matched by `rule`, in order.
fn strings_matching<'a>(strings: &'a Vec<ExtractedString>, rule: &CompiledRule) -> (r: Vec<&'a ExtractedString>)
    ensures
        r@.map_values(|x: &ExtractedString| *x) == matching_strings(strings@, rule.pattern()),
{
    let mut found: Vec<&'a ExtractedString> = Vec::new();
    let mut i: usize = 0;
    while i < strings.len()
        invariant
            0 <= i <= strings@.len(),
            found@.map_values(|x: &ExtractedString| *x) == matching_strings(strings@.subrange(0, i as int), rule.pattern()),
        decreases strings@.len() - i,
    {
        let s = &strings[i];
        let ghost before = found@;
        assert(strings@.subrange(0, i + 1).drop_last() =~= strings@.subrange(0, i as int));
        assert(strings@.subrange(0, i + 1).last() == strings@[i as int]);
        if rule_matches(rule, s.value.as_str()) {
            found.push(s);
            assert(found@.map_values(|x: &ExtractedString| *x) =~= before.map_values(|x: &ExtractedString| *x).push(
                strings@[i as int],
            ));
        }
        i = i + 1;
    }
    assert(strings@.subrange(0, strings@.len() as int) =~= strings@);
    found
}

/// Matches the extracted strings against each named rule, in order, and reports the
/// rules that match at least one string, each with the strings it matches. Every rule
/// must compile.
pub fn notable_strings<'a>(strings: &'a Vec<ExtractedString>, patterns: &'a Vec<(String, String)>) -> (r: Vec<
    (&'a str, Vec<&'a ExtractedString>),
>)
    requires
        all_rules_compile(patterns@),
    ensures
        rule_results(r@) == notable(strings@, patterns@),
        names_distinct(pattern_names(patterns@)) ==> names_distinct(reported_names(rule_results(r@))),
{
    proof {
        if names_distinct(pattern_names(patterns@)) {
            law_notable_names_distinct(strings@, patterns@);
        }
    }
    let mut results: Vec<(&'a str, Vec<&'a ExtractedString>)> = Vec::new();
    let mut i: usize = 0;
    while i < patterns.len()
        invariant
            0 <= i <= patterns@.len(),
            all_rules_compile(patterns@),
            rule_results(results@) == notable(strings@, patterns@.subrange(0, i as int)),
        decreases patterns@.len() - i,
    {
        let entry = &patterns[i];
        assert(patterns@.subrange(0, i + 1).drop_last() =~= patterns@.subrange(0, i as int));
        assert(patterns@.subrange(0, i + 1).last() == patterns@[i as int]);
        assert(regex_compiles(patterns@[i as int].1@));
        match compile_rule(entry.1.as_str()) {
            Some(rule) => {
                let found = strings_matching(strings, &rule);
                if found.len() > 0 {
                    let ghost before = results@;
                    results.push((entry.0.as_str(), found));
                    assert(rule_results(results@) =~= rule_results(before).push(
                        (patterns@[i as int].0@, matching_strings(strings@, patterns@[i as int].1@)),
                    ));
                }
            },
            None => {},
        }
        i = i + 1;
    }
    assert(patterns@.subrange(0, patterns@.len() as int) =~= patterns@);
    results
}

/// Whether every rule pattern compiles.
pub fn rules_compile(patterns: &Vec<(String, String)>) -> (r: bool)
    ensures
        r == all_rules_compile(patterns@),
{
    let mut i: usize = 0;
    while i < patterns.len()
        invariant
            0 <= i <= patterns@.len(),
            forall|j: int| 0 <= j < i ==> regex_compiles(#[trigger] patterns@[j].1@),
        decreases patterns@.len() - i,
    {
        match compile_rule(patterns[i].1.as_str()) {
            Some(_) => {},
            None => {
                return false;
            },
        }
        i = i + 1;
    }
    true
}

/// `notable_strings` when every rule compiles; `None` when some rule does not.
pub fn checked_notable_strings<'a>(strings: &'a Vec<ExtractedString>, patterns: &'a Vec<(String, String)>) -> (r: Option<
    Vec<(&'a str, Vec<&'a ExtractedString>)>,
>)
    ensures
        match r {
            Some(found) => all_rules_compile(patterns@) && rule_results(found@) == notable(strings@, patterns@),
            None => !all_rules_compile(patterns@),
        },
{
    if rules_compile(patterns) {
        Some(notable_strings(strings, patterns))
    } else {
        None
    }
}

/// Whether `b` is ASCII graphic or ASCII whitespace.
pub fn byte_is_printable(b: u8) -> (r: bool)
    ensures
        r == is_printable(b),
{
    (0x21 <= b && b <= 0x7e) || b == 0x20 || b == 0x09 || b == 0x0a || b == 0x0c || b == 0x0d
}

} // verus!
