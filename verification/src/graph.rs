//! The import graph between PE files: a node per PE file, and an edge from a file to
//! each other file of the set whose DLL it imports from.
use vstd::prelude::*;
use vstd::utf8::encode_utf8;
use petgraph::graph::DiGraph;
use crate::pe_parser::{ImportedSymbol, PE_Data};
use crate::text::{ends_with, ends_with_chars, lowercase, to_lowercase};

verus! {

#[verifier::external_type_specification]
#[verifier::external_body]
#[verifier::reject_recursive_types(N)]
#[verifier::reject_recursive_types(E)]
#[verifier::reject_recursive_types(Ty)]
#[verifier::reject_recursive_types(Ix)]
pub struct ExPetGraph<N, E, Ty, Ix>(petgraph::graph::Graph<N, E, Ty, Ix>);

#[verifier::external_type_specification]
#[verifier::external_body]
pub struct ExPetDirected(petgraph::Directed);

/// The node weights of a graph, by node index.
pub uninterp spec fn graph_nodes(g: DiGraph<String, String>) -> Seq<Seq<char>>;

/// The edges of a graph as (source, target, weight), by edge index.
pub uninterp spec fn graph_edges(g: DiGraph<String, String>) -> Seq<(int, int, Seq<char>)>;

/// `DiGraph::new` (petgraph): an empty graph.
#[verifier::external_body]
fn graph_new() -> (g: DiGraph<String, String>)
    ensures
        graph_nodes(g) == Seq::<Seq<char>>::empty(),
        graph_edges(g) == Seq::<(int, int, Seq<char>)>::empty(),
{
    DiGraph::new()
}

/// `Graph::add_node` (petgraph): appends a node and returns its index, which is the
/// number of nodes before the call. It panics when the index would reach the largest
/// `u32`, which `requires` leaves out.
#[verifier::external_body]
fn graph_add_node(g: &mut DiGraph<String, String>, weight: String) -> (idx: usize)
    requires
        graph_nodes(*old(g)).len() < u32::MAX,
    ensures
        graph_nodes(*final(g)) == graph_nodes(*old(g)).push(weight@),
        graph_edges(*final(g)) == graph_edges(*old(g)),
        idx == graph_nodes(*old(g)).len(),
{
    g.add_node(weight).index()
}

/// The edges after `Graph::update_edge(a, b, weight)`: some edge from `a` to `b` takes
/// the new weight when there is one; otherwise a new edge is appended.
pub open spec fn edges_updated(
    old_edges: Seq<(int, int, Seq<char>)>,
    new_edges: Seq<(int, int, Seq<char>)>,
    a: int,
    b: int,
    weight: Seq<char>,
) -> bool {
    if exists|i: int| 0 <= i < old_edges.len() && (#[trigger] old_edges[i]).0 == a && old_edges[i].1 == b {
        exists|i: int|
            0 <= i < old_edges.len() && (#[trigger] old_edges[i]).0 == a && old_edges[i].1 == b
                && new_edges == old_edges.update(i, (a, b, weight))
    } else {
        new_edges == old_edges.push((a, b, weight))
    }
}

/// `Graph::update_edge` (petgraph): adds an edge from `a` to `b`, or gives an existing
/// one the new weight. It panics when a node is missing or a new edge index would reach
/// the largest `u32`, which `requires` leaves out.
#[verifier::external_body]
fn graph_update_edge(g: &mut DiGraph<String, String>, a: usize, b: usize, weight: String)
    requires
        a < graph_nodes(*old(g)).len(),
        b < graph_nodes(*old(g)).len(),
        graph_edges(*old(g)).len() < u32::MAX,
    ensures
        graph_nodes(*final(g)) == graph_nodes(*old(g)),
        edges_updated(graph_edges(*old(g)), graph_edges(*final(g)), a as int, b as int, weight@),
{
    g.update_edge(petgraph::graph::NodeIndex::new(a), petgraph::graph::NodeIndex::new(b), weight);
}

/// A lowercase file name that ends with `.dll` or `.exe`.
pub open spec fn has_pe_extension(lower: Seq<char>) -> bool {
    ends_with(lower, seq!['.', 'd', 'l', 'l']) || ends_with(lower, seq!['.', 'e', 'x', 'e'])
}

/// A file name that, lowercased, ends with `.dll` or `.exe`.
pub open spec fn is_pe_name(name: Seq<char>) -> bool {
    has_pe_extension(lowercase(name))
}

/// Whether an already lowercased file name ends with `.dll` or `.exe`.
pub fn pe_extension(lower: &str) -> (r: bool)
    ensures
        r == has_pe_extension(lower@),
{
    let dll = ['.', 'd', 'l', 'l'];
    let exe = ['.', 'e', 'x', 'e'];
    assert(dll@ =~= seq!['.', 'd', 'l', 'l']);
    assert(exe@ =~= seq!['.', 'e', 'x', 'e']);
    ends_with_chars(lower, dll) || ends_with_chars(lower, exe)
}

/// Whether `name`, lowercased, ends with `.dll` or `.exe`.
pub fn is_pe_filename(name: &str) -> (r: bool)
    ensures
        r == is_pe_name(name@),
{
    let lower = to_lowercase(name);
    pe_extension(lower.as_str())
}

/// The names of the nodes of the import graph of `files`: one per file whose name marks
/// it as a PE file, in order.
pub open spec fn pe_nodes(files: Seq<PE_Data>) -> Seq<Seq<char>>
    decreases files.len(),
{
    if files.len() == 0 {
        seq![]
    } else {
        let prev = pe_nodes(files.drop_last());
        if is_pe_name(files.last().name@) {
            prev.push(files.last().name@)
        } else {
            prev
        }
    }
}

/// The lowercased node names, by which imports are matched to nodes.
pub open spec fn node_keys(files: Seq<PE_Data>) -> Seq<Seq<char>> {
    pe_nodes(files).map_values(|n: Seq<char>| lowercase(n))
}

/// The index of the last occurrence of `key` in `s`, or -1.
pub open spec fn last_index_of(s: Seq<Seq<char>>, key: Seq<char>) -> int
    decreases s.len(),
{
    if s.len() == 0 {
        -1
    } else if s.last() == key {
        s.len() - 1
    } else {
        last_index_of(s.drop_last(), key)
    }
}

/// An edge from `a` to `b` already exists.
pub open spec fn has_edge(edges: Seq<(int, int, Seq<char>)>, a: int, b: int) -> bool {
    exists|i: int| 0 <= i < edges.len() && (#[trigger] edges[i]).0 == a && edges[i].1 == b
}

/// No two edges join the same ordered pair of nodes.
pub open spec fn edges_unique(edges: Seq<(int, int, Seq<char>)>) -> bool {
    forall|i: int, j: int|
        0 <= i < edges.len() && 0 <= j < edges.len() && i != j ==> !((#[trigger] edges[i]).0 == (
        #[trigger] edges[j]).0 && edges[i].1 == edges[j].1)
}

/// The position of an edge from `a` to `b`, where there is one.
pub open spec fn edge_index(edges: Seq<(int, int, Seq<char>)>, a: int, b: int) -> int {
    choose|i: int| 0 <= i < edges.len() && (#[trigger] edges[i]).0 == a && edges[i].1 == b
}

/// The edges after adding an edge from `a` to `b` with `weight`, or giving the existing
/// one that weight.
pub open spec fn with_edge(edges: Seq<(int, int, Seq<char>)>, a: int, b: int, weight: Seq<char>) -> Seq<
    (int, int, Seq<char>),
> {
    if has_edge(edges, a, b) {
        edges.update(edge_index(edges, a, b), (a, b, weight))
    } else {
        edges.push((a, b, weight))
    }
}

/// An import is drawn as an edge when its name is at least three bytes long in UTF-8.
pub open spec fn drawn_import(imp: ImportedSymbol) -> bool {
    encode_utf8(imp.name@).len() >= 3
}

/// The edges after drawing the imports `imports` of the file at node `from`, in order,
/// onto `edges`: each drawn import whose DLL names a node gives an edge to that node,
/// weighted with the import's name.
pub open spec fn import_edges(
    edges: Seq<(int, int, Seq<char>)>,
    keys: Seq<Seq<char>>,
    imports: Seq<ImportedSymbol>,
    from: int,
) -> Seq<(int, int, Seq<char>)>
    decreases imports.len(),
{
    if imports.len() == 0 {
        edges
    } else {
        let prev = import_edges(edges, keys, imports.drop_last(), from);
        let imp = imports.last();
        let to = last_index_of(keys, lowercase(imp.dll@));
        if !drawn_import(imp) || to < 0 {
            prev
        } else {
            with_edge(prev, from, to, imp.name@)
        }
    }
}

/// The edges drawn for the first `k` files: only files with imports and with a PE file
/// name draw edges, from their own node.
pub open spec fn file_edges(files: Seq<PE_Data>, keys: Seq<Seq<char>>, k: int) -> Seq<(int, int, Seq<char>)>
    decreases k,
{
    if k <= 0 {
        seq![]
    } else {
        let prev = file_edges(files, keys, k - 1);
        let f = files[k - 1];
        if f.imports@.len() > 0 && is_pe_name(f.name@) {
            import_edges(prev, keys, f.imports@, last_index_of(keys, lowercase(f.name@)))
        } else {
            prev
        }
    }
}

/// The edges of the import graph of `files`.
pub open spec fn import_graph_edges(files: Seq<PE_Data>) -> Seq<(int, int, Seq<char>)> {
    file_edges(files, node_keys(files), files.len() as int)
}

/// The number of imports of the first `k` files.
pub open spec fn imports_count(files: Seq<PE_Data>, k: int) -> nat
    decreases k,
{
    if k <= 0 {
        0
    } else {
        imports_count(files, k - 1) + files[k - 1].imports@.len()
    }
}

proof fn lemma_pe_nodes_len(files: Seq<PE_Data>)
    ensures
        pe_nodes(files).len() <= files.len(),
    decreases files.len(),
{
    if files.len() > 0 {
        lemma_pe_nodes_len(files.drop_last());
    }
}

proof fn lemma_last_index_of(s: Seq<Seq<char>>, key: Seq<char>)
    ensures
        -1 <= last_index_of(s, key) < s.len(),
        last_index_of(s, key) >= 0 ==> s[last_index_of(s, key)] == key,
        s.contains(key) ==> last_index_of(s, key) >= 0,
    decreases s.len(),
{
    if s.len() > 0 && s.last() != key {
        lemma_last_index_of(s.drop_last(), key);
        if s.contains(key) {
            let i = choose|i: int| 0 <= i < s.len() && s[i] == key;
            assert(s.drop_last()[i] == key);
        }
    }
}

/// A PE-named file has a node, so its lowercased name is a node key.
proof fn lemma_pe_file_has_key(files: Seq<PE_Data>, k: int)
    requires
        0 <= k < files.len(),
        is_pe_name(files[k].name@),
    ensures
        pe_nodes(files).contains(files[k].name@),
    decreases files.len(),
{
    if k < files.len() - 1 {
        lemma_pe_file_has_key(files.drop_last(), k);
        let prev = pe_nodes(files.drop_last());
        let i = choose|i: int| 0 <= i < prev.len() && prev[i] == files[k].name@;
        assert(pe_nodes(files)[i] == files[k].name@);
    } else {
        assert(pe_nodes(files).last() == files[k].name@);
    }
}

/// Adding or updating an edge keeps the pairs unique, keeps the edges within the
/// nodes, and is what `Graph::update_edge` does.
proof fn lemma_with_edge(
    old_edges: Seq<(int, int, Seq<char>)>,
    new_edges: Seq<(int, int, Seq<char>)>,
    a: int,
    b: int,
    w: Seq<char>,
)
    requires
        edges_unique(old_edges),
        edges_updated(old_edges, new_edges, a, b, w),
    ensures
        new_edges == with_edge(old_edges, a, b, w),
        edges_unique(new_edges),
        new_edges.len() <= old_edges.len() + 1,
{
    if has_edge(old_edges, a, b) {
        let i = choose|i: int| 0 <= i < old_edges.len() && (#[trigger] old_edges[i]).0 == a && old_edges[i].1 == b;
        let j = choose|j: int|
            0 <= j < old_edges.len() && (#[trigger] old_edges[j]).0 == a && old_edges[j].1 == b
                && new_edges == old_edges.update(j, (a, b, w));
        assert(i == j);
    }
}

/// The keys of the nodes, looked up from the last.
fn lookup_key(keys: &Vec<String>, key: &String) -> (r: Option<usize>)
    ensures
        match r {
            Some(i) => i == last_index_of(keys@.map_values(|s: String| s@), key@),
            None => last_index_of(keys@.map_values(|s: String| s@), key@) == -1,
        },
{
    let ghost ks = keys@.map_values(|s: String| s@);
    let mut i: usize = keys.len();
    assert(ks.subrange(0, keys@.len() as int) =~= ks);
    while i > 0
        invariant
            0 <= i <= keys@.len(),
            ks == keys@.map_values(|s: String| s@),
            last_index_of(ks, key@) == last_index_of(ks.subrange(0, i as int), key@),
        decreases i,
    {
        assert(ks.subrange(0, i as int).drop_last() =~= ks.subrange(0, i - 1));
        if keys[i - 1] == *key {
            return Some(i - 1);
        }
        i = i - 1;
    }
    None
}

/// Builds the import graph of `pe_files`: a node, weighted with the file's name, for each
/// file whose lowercased name ends with `.dll` or `.exe`; then, for each such file with
/// imports, an edge to the node whose lowercased name is the lowercased DLL of each
/// import whose name is at least three bytes long, weighted with the import's name (a
/// later import between the same nodes replaces the weight). When two files share a
/// lowercased name, imports resolve to the later one.
pub fn build_import_graph(pe_files: &[PE_Data]) -> (graph: DiGraph<String, String>)
    requires
        pe_files@.len() < u32::MAX,
        imports_count(pe_files@, pe_files@.len() as int) < u32::MAX,
    ensures
        graph_nodes(graph) == pe_nodes(pe_files@),
        graph_edges(graph) == import_graph_edges(pe_files@),
{
    let ghost files = pe_files@;
    let mut graph = graph_new();
    let mut keys: Vec<String> = Vec::new();
    let mut i: usize = 0;
    while i < pe_files.len()
        invariant
            0 <= i <= files.len(),
            files == pe_files@,
            files.len() < u32::MAX,
            graph_nodes(graph) == pe_nodes(files.subrange(0, i as int)),
            graph_edges(graph) == Seq::<(int, int, Seq<char>)>::empty(),
            keys@.map_values(|s: String| s@) == node_keys(files.subrange(0, i as int)),
        decreases files.len() - i,
    {
        let pe = &pe_files[i];
        proof {
            assert(files.subrange(0, i + 1).drop_last() =~= files.subrange(0, i as int));
            lemma_pe_nodes_len(files.subrange(0, i as int));
        }
        let ghost old_keys = keys@;
        assert(files.subrange(0, i + 1).last() == files[i as int]);
        if is_pe_filename(pe.name.as_str()) {
            let _idx = graph_add_node(&mut graph, pe.name.clone());
            let lower = to_lowercase(pe.name.as_str());
            keys.push(lower);
            assert(keys@.map_values(|s: String| s@) =~= old_keys.map_values(|s: String| s@).push(
                lowercase(files[i as int].name@),
            ));
            assert(pe_nodes(files.subrange(0, i + 1)) == pe_nodes(files.subrange(0, i as int)).push(
                files[i as int].name@,
            ));
            assert(node_keys(files.subrange(0, i + 1)) =~= node_keys(files.subrange(0, i as int)).push(
                lowercase(files[i as int].name@),
            ));
        }
        assert(keys@.map_values(|s: String| s@) =~= node_keys(files.subrange(0, i + 1)));
        i = i + 1;
    }
    assert(files.subrange(0, files.len() as int) =~= files);
    let ghost ks = node_keys(files);
    i = 0;
    while i < pe_files.len()
        invariant
            0 <= i <= files.len(),
            files == pe_files@,
            ks == node_keys(files),
            keys@.map_values(|s: String| s@) == ks,
            graph_nodes(graph) == pe_nodes(files),
            graph_edges(graph) == file_edges(files, ks, i as int),
            edges_unique(graph_edges(graph)),
            graph_edges(graph).len() <= imports_count(files, i as int),
            imports_count(files, files.len() as int) < u32::MAX,
            forall|e: int|
                0 <= e < graph_edges(graph).len() ==> 0 <= (#[trigger] graph_edges(graph)[e]).0 < ks.len()
                    && 0 <= graph_edges(graph)[e].1 < ks.len(),
        decreases files.len() - i,
    {
        let pe = &pe_files[i];
        proof {
            lemma_imports_count_mono(files, i + 1, files.len() as int);
        }
        if pe.imports.len() == 0 {
        } else if !is_pe_filename(pe.name.as_str()) {
        } else {
            let lower = to_lowercase(pe.name.as_str());
            proof {
                lemma_pe_file_has_key(files, i as int);
                assert(ks.contains(lowercase(files[i as int].name@))) by {
                    let j = choose|j: int| 0 <= j < pe_nodes(files).len() && pe_nodes(files)[j] == files[i as int].name@;
                    assert(ks[j] == lowercase(files[i as int].name@));
                }
                lemma_last_index_of(ks, lowercase(files[i as int].name@));
            }
            match lookup_key(&keys, &lower) {
                None => {},
                Some(from) => {
                    let ghost before = graph_edges(graph);
                    let mut j: usize = 0;
                    while j < pe.imports.len()
                        invariant
                            0 <= j <= pe.imports@.len(),
                            files == pe_files@,
                            i < files.len(),
                            pe == files[i as int],
                            ks == node_keys(files),
                            keys@.map_values(|s: String| s@) == ks,
                            from < ks.len(),
                            from == last_index_of(ks, lowercase(pe.name@)),
                            graph_nodes(graph) == pe_nodes(files),
                            graph_edges(graph) == import_edges(before, ks, pe.imports@.subrange(0, j as int), from as int),
                            edges_unique(graph_edges(graph)),
                            graph_edges(graph).len() <= imports_count(files, i as int) + j,
                            imports_count(files, i + 1) < u32::MAX,
                            imports_count(files, i + 1) == imports_count(files, i as int) + pe.imports@.len(),
                            forall|e: int|
                                0 <= e < graph_edges(graph).len() ==> 0 <= (#[trigger] graph_edges(graph)[e]).0 < ks.len()
                                    && 0 <= graph_edges(graph)[e].1 < ks.len(),
                        decreases pe.imports@.len() - j,
                    {
                        let imp = &pe.imports[j];
                        proof {
                            assert(pe.imports@.subrange(0, j + 1).last() == pe.imports@[j as int]);
                            assert(pe.imports@.subrange(0, j + 1).drop_last() =~= pe.imports@.subrange(0, j as int));
                        }
                        if imp.name.as_str().as_bytes().len() >= 3 {
                            let dep = to_lowercase(imp.dll.as_str());
                            proof {
                                lemma_last_index_of(ks, dep@);
                            }
                            match lookup_key(&keys, &dep) {
                                None => {},
                                Some(to) => {
                                    let ghost old_edges = graph_edges(graph);
                                    proof {
                                        lemma_pe_nodes_len(files);
                                    }
                                    graph_update_edge(&mut graph, from, to, imp.name.clone());
                                    proof {
                                        lemma_with_edge(old_edges, graph_edges(graph), from as int, to as int, imp.name@);
                                        assert forall|e: int|
                                            0 <= e < graph_edges(graph).len() implies 0 <= (
                                            #[trigger] graph_edges(graph)[e]).0 < ks.len() && 0
                                            <= graph_edges(graph)[e].1 < ks.len() by {
                                            if has_edge(old_edges, from as int, to as int) {
                                                let k = choose|k: int|
                                                    0 <= k < old_edges.len() && (#[trigger] old_edges[k]).0
                                                        == from && old_edges[k].1 == to;
                                                if e != k {
                                                    assert(graph_edges(graph)[e] == old_edges[e]);
                                                }
                                            } else if e < old_edges.len() {
                                                assert(graph_edges(graph)[e] == old_edges[e]);
                                            }
                                        }
                                    }
                                },
                            }
                        }
                        j = j + 1;
                    }
                    assert(pe.imports@.subrange(0, pe.imports@.len() as int) =~= pe.imports@);
                },
            }
        }
        i = i + 1;
    }
    graph
}

/// Edges join existing nodes and no ordered pair twice.
pub open spec fn edges_well_formed(edges: Seq<(int, int, Seq<char>)>, node_count: int) -> bool {
    &&& edges_unique(edges)
    &&& forall|e: int|
        0 <= e < edges.len() ==> 0 <= (#[trigger] edges[e]).0 < node_count && 0 <= edges[e].1 < node_count
}

proof fn lemma_with_edge_well_formed(edges: Seq<(int, int, Seq<char>)>, a: int, b: int, w: Seq<char>, n: int)
    requires
        edges_well_formed(edges, n),
        0 <= a < n,
        0 <= b < n,
    ensures
        edges_well_formed(with_edge(edges, a, b, w), n),
{
    let r = with_edge(edges, a, b, w);
    if has_edge(edges, a, b) {
        let i = edge_index(edges, a, b);
        assert forall|e: int| 0 <= e < r.len() implies 0 <= (#[trigger] r[e]).0 < n && 0 <= r[e].1 < n by {
            if e != i {
                assert(r[e] == edges[e]);
            }
        }
    } else {
        assert forall|e: int| 0 <= e < r.len() implies 0 <= (#[trigger] r[e]).0 < n && 0 <= r[e].1 < n by {
            if e < edges.len() {
                assert(r[e] == edges[e]);
            }
        }
    }
}

proof fn lemma_import_edges_well_formed(
    edges: Seq<(int, int, Seq<char>)>,
    keys: Seq<Seq<char>>,
    imports: Seq<ImportedSymbol>,
    from: int,
)
    requires
        edges_well_formed(edges, keys.len() as int),
        0 <= from < keys.len(),
    ensures
        edges_well_formed(import_edges(edges, keys, imports, from), keys.len() as int),
    decreases imports.len(),
{
    if imports.len() > 0 {
        lemma_import_edges_well_formed(edges, keys, imports.drop_last(), from);
        let prev = import_edges(edges, keys, imports.drop_last(), from);
        let to = last_index_of(keys, lowercase(imports.last().dll@));
        lemma_last_index_of(keys, lowercase(imports.last().dll@));
        if drawn_import(imports.last()) && to >= 0 {
            lemma_with_edge_well_formed(prev, from, to, imports.last().name@, keys.len() as int);
        }
    }
}

proof fn lemma_file_edges_well_formed(files: Seq<PE_Data>, k: int)
    requires
        0 <= k <= files.len(),
    ensures
        edges_well_formed(file_edges(files, node_keys(files), k), pe_nodes(files).len() as int),
    decreases k,
{
    let keys = node_keys(files);
    if k > 0 {
        lemma_file_edges_well_formed(files, k - 1);
        let f = files[k - 1];
        if f.imports@.len() > 0 && is_pe_name(f.name@) {
            lemma_pe_file_has_key(files, k - 1);
            let j = choose|j: int| 0 <= j < pe_nodes(files).len() && pe_nodes(files)[j] == f.name@;
            assert(keys[j] == lowercase(f.name@));
            lemma_last_index_of(keys, lowercase(f.name@));
            lemma_import_edges_well_formed(
                file_edges(files, keys, k - 1),
                keys,
                f.imports@,
                last_index_of(keys, lowercase(f.name@)),
            );
        }
    }
}

/// The import graph is well formed: every edge joins two nodes of the graph, and no
/// ordered pair of nodes is joined twice (a repeated import updates the edge's weight).
pub proof fn law_import_graph_well_formed(files: Seq<PE_Data>)
    ensures
        edges_well_formed(import_graph_edges(files), pe_nodes(files).len() as int),
{
    lemma_file_edges_well_formed(files, files.len() as int);
}

/// Import `j` of file `k` draws an edge from node `a` to node `b`: the file has imports
/// and a PE file name and sits at node `a`, and the import is long enough and its DLL
/// names node `b`.
pub open spec fn draws_edge(files: Seq<PE_Data>, k: int, j: int, a: int, b: int) -> bool {
    let keys = node_keys(files);
    &&& 0 <= k < files.len()
    &&& files[k].imports@.len() > 0
    &&& is_pe_name(files[k].name@)
    &&& 0 <= j < files[k].imports@.len()
    &&& drawn_import(files[k].imports@[j])
    &&& a == last_index_of(keys, lowercase(files[k].name@))
    &&& b == last_index_of(keys, lowercase(files[k].imports@[j].dll@))
    &&& b >= 0
}

/// Every edge carries the name of an import that draws it.
pub open spec fn weights_from_imports(files: Seq<PE_Data>, edges: Seq<(int, int, Seq<char>)>) -> bool {
    forall|e: int|
        0 <= e < edges.len() ==> exists|k: int, j: int|
            #![trigger files[k].imports@[j]]
            draws_edge(files, k, j, (#[trigger] edges[e]).0, edges[e].1) && files[k].imports@[j].name@ == edges[e].2
}

proof fn lemma_with_edge_has(edges: Seq<(int, int, Seq<char>)>, a: int, b: int, w: Seq<char>)
    ensures
        forall|x: int, y: int|
            has_edge(with_edge(edges, a, b, w), x, y) <==> (has_edge(edges, x, y) || (x == a && y == b)),
        forall|e: int|
            0 <= e < with_edge(edges, a, b, w).len() ==> (#[trigger] with_edge(edges, a, b, w)[e] == (a, b, w)
                || (0 <= e < edges.len() && with_edge(edges, a, b, w)[e] == edges[e])),
{
    let r = with_edge(edges, a, b, w);
    if has_edge(edges, a, b) {
        let i = edge_index(edges, a, b);
        assert(r == edges.update(i, (a, b, w)));
        assert(r.len() == edges.len());
        assert forall|x: int, y: int| has_edge(r, x, y) <==> (has_edge(edges, x, y) || (x == a && y == b)) by {
            if has_edge(edges, x, y) {
                let q = choose|q: int| 0 <= q < edges.len() && (#[trigger] edges[q]).0 == x && edges[q].1 == y;
                if q == i {
                    assert(r[i].0 == x && r[i].1 == y);
                } else {
                    assert(r[q] == edges[q]);
                }
            }
            if x == a && y == b {
                assert(r[i].0 == x && r[i].1 == y);
            }
            if has_edge(r, x, y) {
                let q = choose|q: int| 0 <= q < r.len() && (#[trigger] r[q]).0 == x && r[q].1 == y;
                if q != i {
                    assert(r[q] == edges[q]);
                }
            }
        }
    } else {
        assert(r == edges.push((a, b, w)));
        assert forall|x: int, y: int| has_edge(r, x, y) <==> (has_edge(edges, x, y) || (x == a && y == b)) by {
            if has_edge(edges, x, y) {
                let q = choose|q: int| 0 <= q < edges.len() && (#[trigger] edges[q]).0 == x && edges[q].1 == y;
                assert(r[q] == edges[q]);
            }
            if x == a && y == b {
                assert(r[edges.len() as int].0 == x && r[edges.len() as int].1 == y);
            }
            if has_edge(r, x, y) {
                let q = choose|q: int| 0 <= q < r.len() && (#[trigger] r[q]).0 == x && r[q].1 == y;
                if q < edges.len() {
                    assert(r[q] == edges[q]);
                }
            }
        }
    }
}

/// The edges drawn for the first `k` files join exactly the pairs that some import of
/// those files draws, and carry the name of such an import.
proof fn lemma_file_edges_exact(files: Seq<PE_Data>, k: int)
    requires
        0 <= k <= files.len(),
    ensures
        forall|a: int, b: int|
            has_edge(file_edges(files, node_keys(files), k), a, b) <==> exists|k2: int, j: int|
                #![trigger files[k2].imports@[j]]
                k2 < k && draws_edge(files, k2, j, a, b),
        weights_from_imports(files, file_edges(files, node_keys(files), k)),
    decreases k,
{
    let keys = node_keys(files);
    if k > 0 {
        lemma_file_edges_exact(files, k - 1);
        let f = files[k - 1];
        if f.imports@.len() > 0 && is_pe_name(f.name@) {
            let from = last_index_of(keys, lowercase(f.name@));
            lemma_import_edges_exact(files, k - 1, f.imports@.len() as int);
        } else {
            let cur = file_edges(files, keys, k);
            assert forall|a: int, b: int|
                has_edge(cur, a, b) <==> exists|k2: int, j: int|
                    #![trigger files[k2].imports@[j]]
                    k2 < k && draws_edge(files, k2, j, a, b) by {
                if exists|k2: int, j: int| #![trigger files[k2].imports@[j]] k2 < k && draws_edge(files, k2, j, a, b) {
                    let (k2, j) = choose|k2: int, j: int|
                        #![trigger files[k2].imports@[j]]
                        k2 < k && draws_edge(files, k2, j, a, b);
                    assert(k2 != k - 1);
                    assert(files[k2].imports@[j] == files[k2].imports@[j]);
                }
            }
        }
    }
}

/// Drawing the first `n` imports of file `k` onto the edges of the files before it.
proof fn lemma_import_edges_exact(files: Seq<PE_Data>, k: int, n: int)
    requires
        0 <= k < files.len(),
        files[k].imports@.len() > 0,
        is_pe_name(files[k].name@),
        0 <= n <= files[k].imports@.len(),
        forall|a: int, b: int|
            has_edge(file_edges(files, node_keys(files), k), a, b) <==> exists|k2: int, j: int|
                #![trigger files[k2].imports@[j]]
                k2 < k && draws_edge(files, k2, j, a, b),
        weights_from_imports(files, file_edges(files, node_keys(files), k)),
    ensures
        ({
            let keys = node_keys(files);
            let edges = import_edges(
                file_edges(files, keys, k),
                keys,
                files[k].imports@.subrange(0, n),
                last_index_of(keys, lowercase(files[k].name@)),
            );
            &&& forall|a: int, b: int|
                has_edge(edges, a, b) <==> exists|k2: int, j: int|
                    #![trigger files[k2].imports@[j]]
                    (k2 < k || (k2 == k && j < n)) && draws_edge(files, k2, j, a, b)
            &&& weights_from_imports(files, edges)
        }),
        n == files[k].imports@.len() ==> files[k].imports@.subrange(0, n) == files[k].imports@,
    decreases n,
{
    let keys = node_keys(files);
    let imports = files[k].imports@;
    let from = last_index_of(keys, lowercase(files[k].name@));
    let base = file_edges(files, keys, k);
    if n == 0 {
        assert(imports.subrange(0, 0).len() == 0);
        let edges = import_edges(base, keys, imports.subrange(0, 0), from);
        assert(edges == base);
        assert forall|a: int, b: int|
            has_edge(edges, a, b) <==> exists|k2: int, j: int|
                #![trigger files[k2].imports@[j]]
                (k2 < k || (k2 == k && j < n)) && draws_edge(files, k2, j, a, b) by {
            if exists|k2: int, j: int|
                #![trigger files[k2].imports@[j]]
                (k2 < k || (k2 == k && j < n)) && draws_edge(files, k2, j, a, b) {
                let (k2, j) = choose|k2: int, j: int|
                    #![trigger files[k2].imports@[j]]
                    (k2 < k || (k2 == k && j < n)) && draws_edge(files, k2, j, a, b);
                assert(k2 < k && draws_edge(files, k2, j, a, b));
                assert(files[k2].imports@[j] == files[k2].imports@[j]);
            }
        }
    } else {
        lemma_import_edges_exact(files, k, n - 1);
        let sub = imports.subrange(0, n);
        assert(sub.drop_last() =~= imports.subrange(0, n - 1));
        assert(sub.last() == imports[n - 1]);
        let prev = import_edges(base, keys, imports.subrange(0, n - 1), from);
        let edges = import_edges(base, keys, sub, from);
        let imp = imports[n - 1];
        let to = last_index_of(keys, lowercase(imp.dll@));
        if drawn_import(imp) && to >= 0 {
            assert(edges == with_edge(prev, from, to, imp.name@));
            lemma_with_edge_has(prev, from, to, imp.name@);
            assert(draws_edge(files, k, n - 1, from, to));
            assert forall|a: int, b: int|
                has_edge(edges, a, b) <==> exists|k2: int, j: int|
                    #![trigger files[k2].imports@[j]]
                    (k2 < k || (k2 == k && j < n)) && draws_edge(files, k2, j, a, b) by {
                if has_edge(edges, a, b) && !(a == from && b == to) {
                    assert(has_edge(prev, a, b));
                }
                if exists|k2: int, j: int|
                    #![trigger files[k2].imports@[j]]
                    (k2 < k || (k2 == k && j < n)) && draws_edge(files, k2, j, a, b) {
                    let (k2, j) = choose|k2: int, j: int|
                        #![trigger files[k2].imports@[j]]
                        (k2 < k || (k2 == k && j < n)) && draws_edge(files, k2, j, a, b);
                    if k2 == k && j == n - 1 {
                    } else {
                        assert(files[k2].imports@[j] == files[k2].imports@[j]);
                        assert(has_edge(prev, a, b));
                    }
                }
            }
            assert forall|e: int| 0 <= e < edges.len() implies exists|k2: int, j: int|
                #![trigger files[k2].imports@[j]]
                draws_edge(files, k2, j, (#[trigger] edges[e]).0, edges[e].1) && files[k2].imports@[j].name@
                    == edges[e].2 by {
                if edges[e] == (from, to, imp.name@) {
                    assert(files[k].imports@[n - 1] == imp);
                } else {
                    assert(edges[e] == prev[e]);
                }
            }
        } else {
            assert(edges == prev);
            assert forall|a: int, b: int|
                has_edge(edges, a, b) <==> exists|k2: int, j: int|
                    #![trigger files[k2].imports@[j]]
                    (k2 < k || (k2 == k && j < n)) && draws_edge(files, k2, j, a, b) by {
                if exists|k2: int, j: int|
                    #![trigger files[k2].imports@[j]]
                    (k2 < k || (k2 == k && j < n)) && draws_edge(files, k2, j, a, b) {
                    let (k2, j) = choose|k2: int, j: int|
                        #![trigger files[k2].imports@[j]]
                        (k2 < k || (k2 == k && j < n)) && draws_edge(files, k2, j, a, b);
                    assert(files[k2].imports@[j] == files[k2].imports@[j]);
                    if k2 == k && j == n - 1 {
                        assert(files[k].imports@[n - 1] == imp);
                    }
                }
            }
        }
    }
    if n == imports.len() {
        assert(imports.subrange(0, n) =~= imports);
    }
}

/// The import graph joins node `a` to node `b` exactly when some import of the PE file at
/// `a` (at least three bytes long) comes from the DLL at `b`, and every edge carries the
/// name of such an import.
pub proof fn law_import_graph_edges_exact(files: Seq<PE_Data>)
    ensures
        forall|a: int, b: int|
            has_edge(import_graph_edges(files), a, b) <==> exists|k: int, j: int|
                #![trigger files[k].imports@[j]]
                draws_edge(files, k, j, a, b),
        weights_from_imports(files, import_graph_edges(files)),
{
    lemma_file_edges_exact(files, files.len() as int);
    assert forall|a: int, b: int|
        has_edge(import_graph_edges(files), a, b) <==> exists|k: int, j: int|
            #![trigger files[k].imports@[j]]
            draws_edge(files, k, j, a, b) by {
        if exists|k: int, j: int| #![trigger files[k].imports@[j]] draws_edge(files, k, j, a, b) {
            let (k, j) = choose|k: int, j: int| #![trigger files[k].imports@[j]] draws_edge(files, k, j, a, b);
            assert(k < files.len() && draws_edge(files, k, j, a, b));
            assert(files[k].imports@[j] == files[k].imports@[j]);
        }
    }
}

/// An import of a PE file whose name is at least three bytes long in UTF-8 and whose
/// lowercased DLL is the lowercased name of a node draws an edge from the importing
/// file's node to that node.
pub proof fn law_long_imports_draw_edges(files: Seq<PE_Data>, k: int, j: int)
    requires
        0 <= k < files.len(),
        is_pe_name(files[k].name@),
        0 <= j < files[k].imports@.len(),
        encode_utf8(files[k].imports@[j].name@).len() >= 3,
        node_keys(files).contains(lowercase(files[k].imports@[j].dll@)),
    ensures
        has_edge(
            import_graph_edges(files),
            last_index_of(node_keys(files), lowercase(files[k].name@)),
            last_index_of(node_keys(files), lowercase(files[k].imports@[j].dll@)),
        ),
{
    let keys = node_keys(files);
    let a = last_index_of(keys, lowercase(files[k].name@));
    let b = last_index_of(keys, lowercase(files[k].imports@[j].dll@));
    lemma_last_index_of(keys, lowercase(files[k].imports@[j].dll@));
    law_import_graph_edges_exact(files);
    assert(draws_edge(files, k, j, a, b));
    assert(files[k].imports@[j] == files[k].imports@[j]);
}

/// `edge` is drawn by import `j` of file `k`: a PE file's import, at least three bytes
/// long in UTF-8, whose name the edge carries, from that file's node to the node whose
/// lowercased name is the import's lowercased DLL.
pub open spec fn drawn_by(files: Seq<PE_Data>, edge: (int, int, Seq<char>), k: int, j: int) -> bool {
    &&& 0 <= k < files.len()
    &&& 0 <= j < files[k].imports@.len()
    &&& is_pe_name(files[k].name@)
    &&& encode_utf8(files[k].imports@[j].name@).len() >= 3
    &&& files[k].imports@[j].name@ == edge.2
    &&& edge.0 == last_index_of(node_keys(files), lowercase(files[k].name@))
    &&& edge.1 == last_index_of(node_keys(files), lowercase(files[k].imports@[j].dll@))
}

/// Some import draws `edge`.
pub open spec fn drawn_by_some_import(files: Seq<PE_Data>, edge: (int, int, Seq<char>)) -> bool {
    exists|k: int, j: int| drawn_by(files, edge, k, j)
}

/// Every edge of the import graph is drawn by an import of a PE file, at least three
/// bytes long in UTF-8, whose name the edge carries: the edge leaves that file's node
/// and enters the node whose lowercased name is the import's lowercased DLL.
pub proof fn law_edges_come_from_long_imports(files: Seq<PE_Data>)
    ensures
        forall|e: int|
            0 <= e < import_graph_edges(files).len() ==> drawn_by_some_import(
                files,
                #[trigger] import_graph_edges(files)[e],
            ),
{
    law_import_graph_edges_exact(files);
    let edges = import_graph_edges(files);
    assert forall|e: int| 0 <= e < edges.len() implies drawn_by_some_import(files, #[trigger] edges[e]) by {
        let (k, j) = choose|k: int, j: int|
            #![trigger files[k].imports@[j]]
            draws_edge(files, k, j, edges[e].0, edges[e].1) && files[k].imports@[j].name@ == edges[e].2;
        assert(drawn_by(files, edges[e], k, j));
    }
}

/// The nodes of the import graph are the names of the files whose lowercased names end
/// with `.dll` or `.exe`: each such file's name is a node, and each node is such a name.
pub proof fn law_nodes_are_the_pe_files(files: Seq<PE_Data>)
    ensures
        forall|k: int|
            0 <= k < files.len() && (ends_with(lowercase(files[k].name@), seq!['.', 'd', 'l', 'l']) || ends_with(
                lowercase(files[k].name@),
                seq!['.', 'e', 'x', 'e'],
            )) ==> pe_nodes(files).contains(#[trigger] files[k].name@),
        forall|i: int|
            0 <= i < pe_nodes(files).len() ==> {
                let n = #[trigger] pe_nodes(files)[i];
                ends_with(lowercase(n), seq!['.', 'd', 'l', 'l']) || ends_with(lowercase(n), seq!['.', 'e', 'x', 'e'])
            },
    decreases files.len(),
{
    assert forall|k: int|
        0 <= k < files.len() && (ends_with(lowercase(files[k].name@), seq!['.', 'd', 'l', 'l']) || ends_with(
            lowercase(files[k].name@),
            seq!['.', 'e', 'x', 'e'],
        )) implies pe_nodes(files).contains(#[trigger] files[k].name@) by {
        lemma_pe_file_has_key(files, k);
    }
    if files.len() > 0 {
        law_nodes_are_the_pe_files(files.drop_last());
        let prev = pe_nodes(files.drop_last());
        assert forall|i: int| 0 <= i < pe_nodes(files).len() implies {
            let n = #[trigger] pe_nodes(files)[i];
            ends_with(lowercase(n), seq!['.', 'd', 'l', 'l']) || ends_with(lowercase(n), seq!['.', 'e', 'x', 'e'])
        } by {
            if i < prev.len() {
                assert(pe_nodes(files)[i] == prev[i]);
            }
        }
    }
}

proof fn lemma_imports_count_mono(files: Seq<PE_Data>, a: int, b: int)
    requires
        0 <= a <= b,
    ensures
        imports_count(files, a) <= imports_count(files, b),
    decreases b - a,
{
    if a < b {
        lemma_imports_count_mono(files, a, b - 1);
    }
}

} // verus!
