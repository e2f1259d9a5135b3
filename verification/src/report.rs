//! The text of the report: truncation of long values, imports grouped by DLL and the
//! names of exported symbols.
use vstd::prelude::*;
use vstd::utf8::{char_u32_cast, decode_utf8, encode_utf8, encode_utf8_decode_utf8, is_char_boundary};
use vstd::string::{StrSliceExecFns, StringExecFns};
use crate::pe_parser::{ExportedSymbol, ImportedSymbol};
use crate::text::{hex_digit, hex_digit_str, trim_nul};

verus! {

/// `s` cut after its first `limit` bytes (UTF-8) and followed by `...` when it is longer
/// than that; `s` itself otherwise.
pub open spec fn truncated(s: Seq<char>, limit: nat) -> Seq<char> {
    let bytes = encode_utf8(s);
    if bytes.len() > limit {
        decode_utf8(bytes.subrange(0, limit as int)) + "..."@
    } else {
        s
    }
}

/// Cuts `s` after `limit` bytes and appends `...` when it is longer than that. When it
/// is cut, `limit` must fall on a character boundary.
pub fn truncate_str(s: &str, limit: usize) -> (r: String)
    requires
        encode_utf8(s@).len() > limit ==> is_char_boundary(encode_utf8(s@), limit as int),
    ensures
        r@ == truncated(s@, limit as nat),
{
    let byte_len = s.as_bytes().len();
    if byte_len > limit {
        let (head, _tail) = s.split_at(limit);
        proof {
            encode_utf8_decode_utf8(head@);
        }
        let mut out = String::from_str(head);
        out.append("...");
        out
    } else {
        String::from_str(s)
    }
}

/// Unicode `White_Space`, which `str::trim` removes.
pub open spec fn is_unicode_whitespace(c: char) -> bool {
    ||| '\u{9}' <= c <= '\u{d}'
    ||| c == ' '
    ||| c == '\u{85}'
    ||| c == '\u{a0}'
    ||| c == '\u{1680}'
    ||| '\u{2000}' <= c <= '\u{200a}'
    ||| c == '\u{2028}'
    ||| c == '\u{2029}'
    ||| c == '\u{202f}'
    ||| c == '\u{205f}'
    ||| c == '\u{3000}'
}

/// A control character (general category `Cc`), as `char::is_control` tells.
pub open spec fn is_control_char(c: char) -> bool {
    c <= '\u{1f}' || ('\u{7f}' <= c <= '\u{9f}')
}

/// `s` without leading white space.
pub open spec fn trim_start_ws(s: Seq<char>) -> Seq<char>
    decreases s.len(),
{
    if s.len() > 0 && is_unicode_whitespace(s[0]) {
        trim_start_ws(s.drop_first())
    } else {
        s
    }
}

/// `s` without trailing white space.
pub open spec fn trim_end_ws(s: Seq<char>) -> Seq<char>
    decreases s.len(),
{
    if s.len() > 0 && is_unicode_whitespace(s.last()) {
        trim_end_ws(s.drop_last())
    } else {
        s
    }
}

/// `s` without its control characters.
pub open spec fn drop_controls(s: Seq<char>) -> Seq<char>
    decreases s.len(),
{
    if s.len() == 0 {
        s
    } else if is_control_char(s.last()) {
        drop_controls(s.drop_last())
    } else {
        drop_controls(s.drop_last()).push(s.last())
    }
}

/// The name of an exported symbol as the report shows it: without leading and trailing
/// NULs, then without leading and trailing white space, then without control characters.
pub open spec fn clean_name(name: Seq<char>) -> Seq<char> {
    drop_controls(trim_end_ws(trim_start_ws(trim_nul(name))))
}

fn is_whitespace_char(c: char) -> (r: bool)
    ensures
        r == is_unicode_whitespace(c),
{
    ('\u{9}' <= c && c <= '\u{d}') || c == ' ' || c == '\u{85}' || c == '\u{a0}' || c == '\u{1680}' || (
    '\u{2000}' <= c && c <= '\u{200a}') || c == '\u{2028}' || c == '\u{2029}' || c == '\u{202f}' || c
        == '\u{205f}' || c == '\u{3000}'
}

fn is_control(c: char) -> (r: bool)
    ensures
        r == is_control_char(c),
{
    c <= '\u{1f}' || ('\u{7f}' <= c && c <= '\u{9f}')
}

/// Removes leading and trailing white space (as `str::trim`), then every control
/// character, from `s`.
fn trim_and_drop_controls(s: &str) -> (r: String)
    ensures
        r@ == drop_controls(trim_end_ws(trim_start_ws(s@))),
{
    let n = s.unicode_len();
    let mut start: usize = 0;
    assert(s@.subrange(0, n as int) =~= s@);
    while start < n && is_whitespace_char(s.get_char(start))
        invariant
            0 <= start <= n,
            n == s@.len(),
            trim_start_ws(s@) == trim_start_ws(s@.subrange(start as int, n as int)),
        decreases n - start,
    {
        assert(s@.subrange(start as int, n as int).drop_first() =~= s@.subrange(start + 1, n as int));
        start = start + 1;
    }
    let ghost front = s@.subrange(start as int, n as int);
    let mut end: usize = n;
    while end > start && is_whitespace_char(s.get_char(end - 1))
        invariant
            start <= end <= n,
            n == s@.len(),
            front == s@.subrange(start as int, n as int),
            trim_end_ws(front) == trim_end_ws(s@.subrange(start as int, end as int)),
        decreases end,
    {
        assert(s@.subrange(start as int, end as int).drop_last() =~= s@.subrange(start as int, end - 1));
        end = end - 1;
    }
    let ghost kept = s@.subrange(start as int, end as int);
    let mut out = String::new();
    let mut k: usize = start;
    while k < end
        invariant
            start <= k <= end <= n,
            n == s@.len(),
            kept == s@.subrange(start as int, end as int),
            out@ == drop_controls(s@.subrange(start as int, k as int)),
        decreases end - k,
    {
        let c = s.get_char(k);
        assert(s@.subrange(start as int, k + 1).drop_last() =~= s@.subrange(start as int, k as int));
        if !is_control(c) {
            let piece = s.substring_char(k, k + 1);
            assert(piece@ =~= seq![c]);
            out.append(piece);
        }
        k = k + 1;
    }
    out
}

/// The name of an exported symbol as the report shows it.
pub fn clean_export_name(name: &str) -> (r: String)
    ensures
        r@ == clean_name(name@),
{
    let without_nul = crate::text::trim_nul_chars(name);
    trim_and_drop_controls(without_nul.as_str())
}

/// An export the report lists: one with a name and a nonzero offset.
pub open spec fn listed_export(e: ExportedSymbol) -> bool {
    &&& e.name is Some
    &&& e.offset matches Some(o) && o > 0
}

/// The (shown name, offset) of each listed export, in order.
pub open spec fn export_rows_of(exports: Seq<ExportedSymbol>) -> Seq<(Seq<char>, usize)>
    decreases exports.len(),
{
    if exports.len() == 0 {
        seq![]
    } else {
        let prev = export_rows_of(exports.drop_last());
        let e = exports.last();
        if listed_export(e) {
            prev.push((clean_name(e.name.unwrap()@), e.offset.unwrap()))
        } else {
            prev
        }
    }
}

/// Exports that all have a name and a nonzero offset are each listed, in order, with
/// their shown name and their offset; an export without a name, without an offset, or at
/// offset 0 is not listed.
pub proof fn law_named_exports_with_offsets_are_listed(exports: Seq<ExportedSymbol>)
    ensures
        (forall|i: int|
            0 <= i < exports.len() ==> (#[trigger] exports[i]).name is Some && exports[i].offset is Some
                && exports[i].offset.unwrap() > 0) ==> {
            &&& export_rows_of(exports).len() == exports.len()
            &&& forall|i: int|
                0 <= i < exports.len() ==> #[trigger] export_rows_of(exports)[i] == (
                    clean_name(exports[i].name.unwrap()@),
                    exports[i].offset.unwrap(),
                )
        },
        forall|e: ExportedSymbol|
            e.name is None || e.offset is None || e.offset == Some(0usize) ==> #[trigger] export_rows_of(seq![e]).len()
                == 0,
    decreases exports.len(),
{
    if exports.len() > 0 {
        law_named_exports_with_offsets_are_listed(exports.drop_last());
        if forall|i: int|
            0 <= i < exports.len() ==> (#[trigger] exports[i]).name is Some && exports[i].offset is Some
                && exports[i].offset.unwrap() > 0 {
            let prev = exports.drop_last();
            assert forall|i: int|
                0 <= i < prev.len() implies (#[trigger] prev[i]).name is Some && prev[i].offset is Some
                    && prev[i].offset.unwrap() > 0 by {
                assert(prev[i] == exports[i]);
            }
            assert(exports[exports.len() - 1] == exports.last());
            assert forall|i: int|
                0 <= i < exports.len() implies #[trigger] export_rows_of(exports)[i] == (
                    clean_name(exports[i].name.unwrap()@),
                    exports[i].offset.unwrap(),
                ) by {
                if i < prev.len() {
                    assert(prev[i] == exports[i]);
                    assert(export_rows_of(prev)[i] == (clean_name(prev[i].name.unwrap()@), prev[i].offset.unwrap()));
                }
            }
        }
    }
    assert forall|e: ExportedSymbol|
        e.name is None || e.offset is None || e.offset == Some(0usize) implies #[trigger] export_rows_of(seq![e]).len()
            == 0 by {
        assert(seq![e].drop_last() =~= Seq::<ExportedSymbol>::empty());
        assert(seq![e].last() == e);
        assert(export_rows_of(Seq::<ExportedSymbol>::empty()) =~= Seq::<(Seq<char>, usize)>::empty());
        assert(!listed_export(e));
    }
}

/// The exports the report lists, each as its shown name and its offset, in order.
pub fn export_rows(exports: &Vec<ExportedSymbol>) -> (rows: Vec<(String, usize)>)
    ensures
        rows@.map_values(|r: (String, usize)| (r.0@, r.1)) == export_rows_of(exports@),
{
    let mut rows: Vec<(String, usize)> = Vec::new();
    let mut i: usize = 0;
    while i < exports.len()
        invariant
            0 <= i <= exports@.len(),
            rows@.map_values(|r: (String, usize)| (r.0@, r.1)) == export_rows_of(exports@.subrange(0, i as int)),
        decreases exports@.len() - i,
    {
        let e = &exports[i];
        let ghost before = rows@;
        assert(exports@.subrange(0, i + 1).drop_last() =~= exports@.subrange(0, i as int));
        assert(exports@.subrange(0, i + 1).last() == exports@[i as int]);
        match (&e.name, e.offset) {
            (Some(name), Some(offset)) => {
                if offset > 0 {
                    rows.push((clean_export_name(name.as_str()), offset));
                    assert(rows@.map_values(|r: (String, usize)| (r.0@, r.1)) =~= before.map_values(
                        |r: (String, usize)| (r.0@, r.1),
                    ).push((clean_name(name@), offset)));
                }
            },
            _ => {},
        }
        i = i + 1;
    }
    assert(exports@.subrange(0, exports@.len() as int) =~= exports@);
    rows
}

/// `a` sorts before `b`: character by character (Unicode scalar values), a proper
/// prefix first. For UTF-8 strings this is the order of `String`'s `Ord`.
pub open spec fn text_lt(a: Seq<char>, b: Seq<char>) -> bool
    decreases a.len(),
{
    if a.len() == 0 {
        b.len() > 0
    } else if b.len() == 0 {
        false
    } else if a[0] != b[0] {
        (a[0] as u32) < (b[0] as u32)
    } else {
        text_lt(a.drop_first(), b.drop_first())
    }
}

/// The order of DLL names is total and strict: two names are equal or one sorts first,
/// never both ways, and no name sorts before itself.
pub proof fn law_text_order_total(a: Seq<char>, b: Seq<char>)
    ensures
        a == b || text_lt(a, b) || text_lt(b, a),
        !(text_lt(a, b) && text_lt(b, a)),
        !text_lt(a, a),
    decreases a.len(),
{
    if a.len() > 0 && b.len() > 0 && a[0] == b[0] {
        law_text_order_total(a.drop_first(), b.drop_first());
        if a.drop_first() == b.drop_first() {
            assert(a =~= seq![a[0]] + a.drop_first());
            assert(b =~= seq![b[0]] + b.drop_first());
        }
    }
    if a.len() > 0 {
        law_text_order_total(a.drop_first(), a.drop_first());
    }
    if a.len() > 0 && b.len() > 0 && a[0] != b[0] {
        char_u32_cast(a[0], a[0] as u32);
        char_u32_cast(b[0], b[0] as u32);
    }
    if a.len() == 0 && b.len() == 0 {
        assert(a =~= b);
    }
}

/// The order of DLL names is transitive.
pub proof fn law_text_order_transitive(a: Seq<char>, b: Seq<char>, c: Seq<char>)
    requires
        text_lt(a, b),
        text_lt(b, c),
    ensures
        text_lt(a, c),
    decreases a.len(),
{
    if a.len() > 0 && b.len() > 0 && c.len() > 0 && a[0] == b[0] && b[0] == c[0] {
        law_text_order_transitive(a.drop_first(), b.drop_first(), c.drop_first());
    }
}

/// Whether `a` sorts before `b` (as `String`'s order does).
pub fn text_less(a: &str, b: &str) -> (r: bool)
    ensures
        r == text_lt(a@, b@),
{
    let la = a.unicode_len();
    let lb = b.unicode_len();
    let mut i: usize = 0;
    assert(a@.skip(0) =~= a@);
    assert(b@.skip(0) =~= b@);
    while i < la && i < lb && a.get_char(i) == b.get_char(i)
        invariant
            0 <= i <= la,
            i <= lb,
            la == a@.len(),
            lb == b@.len(),
            text_lt(a@, b@) == text_lt(a@.skip(i as int), b@.skip(i as int)),
        decreases la - i,
    {
        assert(a@.skip(i as int).drop_first() =~= a@.skip(i + 1));
        assert(b@.skip(i as int).drop_first() =~= b@.skip(i + 1));
        i = i + 1;
    }
    if i == la {
        i < lb
    } else if i == lb {
        false
    } else {
        (a.get_char(i) as u32) < (b.get_char(i) as u32)
    }
}

/// The names of the imports from `dll`, in order.
pub open spec fn dll_import_names(imports: Seq<ImportedSymbol>, dll: Seq<char>) -> Seq<Seq<char>>
    decreases imports.len(),
{
    if imports.len() == 0 {
        seq![]
    } else {
        let prev = dll_import_names(imports.drop_last(), dll);
        if imports.last().dll@ == dll {
            prev.push(imports.last().name@)
        } else {
            prev
        }
    }
}

/// The groups as (DLL, import names).
pub open spec fn group_views(groups: Seq<(String, Vec<String>)>) -> Seq<(Seq<char>, Seq<Seq<char>>)> {
    groups.map_values(|g: (String, Vec<String>)| (g.0@, g.1@.map_values(|s: String| s@)))
}

/// `groups` holds one group per DLL that `imports` import from, sorted by DLL, each with
/// the names imported from that DLL in import order.
pub open spec fn grouped_by_dll(imports: Seq<ImportedSymbol>, groups: Seq<(Seq<char>, Seq<Seq<char>>)>) -> bool {
    &&& forall|i: int, j: int| 0 <= i < j < groups.len() ==> text_lt(#[trigger] groups[i].0, #[trigger] groups[j].0)
    &&& forall|i: int|
        0 <= i < groups.len() ==> (#[trigger] groups[i]).1 == dll_import_names(imports, groups[i].0)
            && groups[i].1.len() > 0
    &&& forall|k: int|
        0 <= k < imports.len() ==> exists|i: int| 0 <= i < groups.len() && #[trigger] groups[i].0 == (
        #[trigger] imports[k]).dll@
}

proof fn lemma_dll_names_push(imports: Seq<ImportedSymbol>, n: int, dll: Seq<char>)
    requires
        0 <= n < imports.len(),
    ensures
        dll_import_names(imports.take(n + 1), dll) == if imports[n].dll@ == dll {
            dll_import_names(imports.take(n), dll).push(imports[n].name@)
        } else {
            dll_import_names(imports.take(n), dll)
        },
{
    assert(imports.take(n + 1).drop_last() =~= imports.take(n));
}

proof fn lemma_dll_names_absent(imports: Seq<ImportedSymbol>, dll: Seq<char>)
    requires
        forall|k: int| 0 <= k < imports.len() ==> (#[trigger] imports[k]).dll@ != dll,
    ensures
        dll_import_names(imports, dll).len() == 0,
    decreases imports.len(),
{
    if imports.len() > 0 {
        let prev = imports.drop_last();
        assert forall|k: int| 0 <= k < prev.len() implies (#[trigger] prev[k]).dll@ != dll by {
            assert(prev[k] == imports[k]);
        }
        lemma_dll_names_absent(prev, dll);
        assert(imports.last() == imports[imports.len() - 1]);
    }
}

/// The index of the group of `dll`, or the number of groups when there is none.
fn find_group(groups: &Vec<(String, Vec<String>)>, dll: &String) -> (r: usize)
    ensures
        r <= groups@.len(),
        r < groups@.len() ==> groups@[r as int].0@ == dll@,
        r == groups@.len() ==> forall|q: int| 0 <= q < groups@.len() ==> (#[trigger] groups@[q]).0@ != dll@,
{
    let mut i: usize = 0;
    while i < groups.len()
        invariant
            0 <= i <= groups@.len(),
            forall|q: int| 0 <= q < i ==> (#[trigger] groups@[q]).0@ != dll@,
        decreases groups@.len() - i,
    {
        if groups[i].0 == *dll {
            return i;
        }
        i = i + 1;
    }
    i
}

proof fn lemma_dll_names_contains(imports: Seq<ImportedSymbol>, k: int)
    requires
        0 <= k < imports.len(),
    ensures
        dll_import_names(imports, imports[k].dll@).contains(imports[k].name@),
    decreases imports.len(),
{
    let d = imports[k].dll@;
    if k < imports.len() - 1 {
        let prev = imports.drop_last();
        assert(prev[k] == imports[k]);
        lemma_dll_names_contains(prev, k);
        let names = dll_import_names(prev, d);
        let j = choose|j: int| 0 <= j < names.len() && names[j] == imports[k].name@;
        assert(dll_import_names(imports, d)[j] == imports[k].name@);
    } else {
        assert(imports.last() == imports[k]);
        assert(dll_import_names(imports, d).last() == imports[k].name@);
    }
}

/// No import is lost: in any grouping, each import's name is listed in the group of its
/// DLL.
pub proof fn law_each_import_in_its_group(imports: Seq<ImportedSymbol>, groups: Seq<(Seq<char>, Seq<Seq<char>>)>, k: int)
    requires
        grouped_by_dll(imports, groups),
        0 <= k < imports.len(),
    ensures
        exists|i: int| 0 <= i < groups.len() && groups[i].0 == imports[k].dll@ && groups[i].1.contains(imports[k].name@),
{
    let i = choose|i: int| 0 <= i < groups.len() && #[trigger] groups[i].0 == (#[trigger] imports[k]).dll@;
    lemma_dll_names_contains(imports, k);
    assert(groups[i].1 == dll_import_names(imports, groups[i].0));
}

/// Groups the imports by DLL: one group per DLL, sorted by DLL name, each holding the
/// names imported from that DLL in import order.
pub fn group_imports_by_dll(imports: &Vec<ImportedSymbol>) -> (groups: Vec<(String, Vec<String>)>)
    ensures
        grouped_by_dll(imports@, group_views(groups@)),
{
    let mut groups: Vec<(String, Vec<String>)> = Vec::new();
    let mut n: usize = 0;
    while n < imports.len()
        invariant
            0 <= n <= imports@.len(),
            grouped_by_dll(imports@.take(n as int), group_views(groups@)),
        decreases imports@.len() - n,
    {
        let imp = &imports[n];
        let ghost old_groups = group_views(groups@);
        let ghost pre = imports@.take(n as int);
        let ghost post = imports@.take(n + 1);
        proof {
            assert forall|k: int| 0 <= k < pre.len() implies #[trigger] post[k] == pre[k] by {}
            assert(post[n as int] == imports@[n as int]);
        }
        let ghost gs = groups@;
        let found = find_group(&groups, &imp.dll);
        if found < groups.len() {
            let (key, mut names) = groups.remove(found);
            names.push(imp.name.clone());
            groups.insert(found, (key, names));
            proof {
                let g = group_views(groups@);
                assert forall|q: int| 0 <= q < g.len() implies (#[trigger] g[q]).1 == dll_import_names(post, g[q].0)
                    && g[q].1.len() > 0 by {
                    lemma_dll_names_push(imports@, n as int, g[q].0);
                    assert(old_groups[found as int].0 == imp.dll@);
                    if q == found {
                        assert(g[q].1 =~= old_groups[q].1.push(imp.name@));
                    } else {
                        assert(g[q] == old_groups[q]);
                        if old_groups[q].0 == imp.dll@ {
                            law_text_order_total(old_groups[q].0, old_groups[q].0);
                            if q < found {
                                assert(text_lt(old_groups[q].0, old_groups[found as int].0));
                            } else {
                                assert(text_lt(old_groups[found as int].0, old_groups[q].0));
                            }
                        }
                    }
                }
                assert forall|i: int, j: int| 0 <= i < j < g.len() implies text_lt(#[trigger] g[i].0, #[trigger] g[j].0) by {
                    assert(g[i].0 == old_groups[i].0);
                    assert(g[j].0 == old_groups[j].0);
                }
                assert forall|k: int| 0 <= k < post.len() implies exists|i: int|
                    0 <= i < g.len() && #[trigger] g[i].0 == (#[trigger] post[k]).dll@ by {
                    if k < n {
                        let i = choose|i: int| 0 <= i < old_groups.len() && #[trigger] old_groups[i].0 == (
                        #[trigger] pre[k]).dll@;
                        assert(g[i].0 == old_groups[i].0);
                    } else {
                        assert(g[found as int].0 == old_groups[found as int].0);
                    }
                }
            }
        } else {
            // Find where the new DLL sorts.
            assert(forall|q: int| 0 <= q < gs.len() ==> (#[trigger] old_groups[q]).0 == gs[q].0@);
            let mut p: usize = 0;
            while p < groups.len() && !text_less(imp.dll.as_str(), groups[p].0.as_str())
                invariant
                    0 <= p <= groups@.len(),
                    forall|q: int| 0 <= q < p ==> !text_lt(imp.dll@, (#[trigger] groups@[q]).0@),
                decreases groups@.len() - p,
            {
                p = p + 1;
            }
            let mut names: Vec<String> = Vec::new();
            names.push(imp.name.clone());
            groups.insert(p, (imp.dll.clone(), names));
            proof {
                let g = group_views(groups@);
                let d = imp.dll@;
                assert(g[p as int].0 == d);
                assert forall|q: int| 0 <= q < p implies text_lt(#[trigger] old_groups[q].0, d) by {
                    assert(old_groups[q].0 == gs[q].0@);
                    assert(!text_lt(d, gs[q].0@));
                    assert(gs[q].0@ != d);
                    law_text_order_total(d, old_groups[q].0);
                }
                assert(forall|k: int| 0 <= k < pre.len() ==> (#[trigger] pre[k]).dll@ != d) by {
                    assert forall|k: int| 0 <= k < pre.len() implies (#[trigger] pre[k]).dll@ != d by {
                        if pre[k].dll@ == d {
                            let i = choose|i: int| 0 <= i < old_groups.len() && #[trigger] old_groups[i].0 == (
                            #[trigger] pre[k]).dll@;
                            assert(old_groups[i].0 == gs[i].0@);
                        }
                    }
                }
                lemma_dll_names_absent(pre, d);
                assert forall|q: int| 0 <= q < g.len() implies (#[trigger] g[q]).1 == dll_import_names(post, g[q].0)
                    && g[q].1.len() > 0 by {
                    lemma_dll_names_push(imports@, n as int, g[q].0);
                    if q < p {
                        assert(g[q] == old_groups[q]);
                        assert(old_groups[q].0 != d) by { law_text_order_total(old_groups[q].0, d); }
                    } else if q == p {
                        assert(g[q].1 =~= seq![imp.name@]);
                        assert(dll_import_names(pre, d) =~= Seq::<Seq<char>>::empty());
                    } else {
                        assert(g[q] == old_groups[q - 1]);
                        if p < old_groups.len() {
                            law_text_order_total(d, old_groups[p as int].0);
                        }
                        if old_groups[q - 1].0 == d {
                            assert(false);
                        }
                    }
                }
                assert forall|i: int, j: int| 0 <= i < j < g.len() implies text_lt(#[trigger] g[i].0, #[trigger] g[j].0) by {
                    if j < p {
                        assert(g[i] == old_groups[i] && g[j] == old_groups[j]);
                    } else if j == p {
                        assert(g[i] == old_groups[i]);
                    } else if i == p {
                        assert(g[j] == old_groups[j - 1]);
                        assert(text_lt(d, old_groups[p as int].0));
                        if j - 1 > p {
                            law_text_order_transitive(d, old_groups[p as int].0, old_groups[j - 1].0);
                        }
                    } else if i < p {
                        assert(g[i] == old_groups[i] && g[j] == old_groups[j - 1]);
                    } else {
                        assert(g[i] == old_groups[i - 1] && g[j] == old_groups[j - 1]);
                    }
                }
                assert forall|k: int| 0 <= k < post.len() implies exists|i: int|
                    0 <= i < g.len() && #[trigger] g[i].0 == (#[trigger] post[k]).dll@ by {
                    if k < n {
                        let i = choose|i: int| 0 <= i < old_groups.len() && #[trigger] old_groups[i].0 == (
                        #[trigger] pre[k]).dll@;
                        if i < p {
                            assert(g[i] == old_groups[i]);
                        } else {
                            assert(g[i + 1] == old_groups[i]);
                        }
                    } else {
                        assert(g[p as int].0 == d);
                    }
                }
            }
        }
        n = n + 1;
    }
    assert(imports@.take(imports@.len() as int) =~= imports@);
    groups
}

/// What SHA-256 gives for `data`.
pub uninterp spec fn sha256(data: Seq<u8>) -> Seq<u8>;

/// `sha2::Sha256::digest` (sha2): the 32-byte SHA-256 digest of `data`. Claimed: a
/// function of the data, named `sha256`, 32 bytes long.
#[verifier::external_body]
fn sha256_digest(data: &[u8]) -> (r: Vec<u8>)
    ensures
        r@ == sha256(data@),
        r@.len() == 32,
{
    <sha2::Sha256 as sha2::Digest>::digest(data).to_vec()
}

/// Two lowercase hexadecimal digits for each byte, as `{:02x}` writes them.
pub open spec fn hex_bytes(bytes: Seq<u8>) -> Seq<char>
    decreases bytes.len(),
{
    if bytes.len() == 0 {
        seq![]
    } else {
        let b = bytes.last();
        hex_bytes(bytes.drop_last()) + seq![hex_digit(b as nat / 16), hex_digit(b as nat % 16)]
    }
}

/// The SHA-256 digest of `buffer`, in lowercase hexadecimal.
pub fn sha256_hex(buffer: &[u8]) -> (r: String)
    ensures
        r@ == hex_bytes(sha256(buffer@)),
        r@.len() == 64,
{
    let digest = sha256_digest(buffer);
    let mut out = String::new();
    let mut i: usize = 0;
    while i < digest.len()
        invariant
            0 <= i <= digest@.len(),
            digest@.len() == 32,
            out@ == hex_bytes(digest@.subrange(0, i as int)),
            out@.len() == 2 * i,
        decreases digest@.len() - i,
    {
        let b = digest[i];
        assert(digest@.subrange(0, i + 1).drop_last() =~= digest@.subrange(0, i as int));
        assert(digest@.subrange(0, i + 1).last() == b);
        out.append(hex_digit_str(b / 16));
        out.append(hex_digit_str(b % 16));
        assert(out@ =~= hex_bytes(digest@.subrange(0, i + 1)));
        i = i + 1;
    }
    assert(digest@.subrange(0, 32) =~= digest@);
    out
}

} // verus!
