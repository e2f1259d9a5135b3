use petgraph::visit::EdgeRef;
use pexer::graph::{build_import_graph, is_pe_filename, pe_extension};
use pexer::pe_parser::{ImportedSymbol, PeHeader, PE_Data};

fn import(dll: &str, name: &str) -> ImportedSymbol {
    ImportedSymbol { name: name.to_string(), dll: dll.to_string(), ordinal: 0, offset: 0, rva: 0, size: 0 }
}

fn file(name: &str, imports: Vec<ImportedSymbol>) -> PE_Data {
    PE_Data {
        name: name.to_string(),
        header: PeHeader { optional_header: None },
        bitness: true,
        entry: 0,
        image_base: 0,
        libraries: Vec::new(),
        certificates: false,
        imports,
        exports: Vec::new(),
        sections: Vec::new(),
    }
}

#[test]
fn pe_file_names_by_extension() {
    assert!(is_pe_filename("KERNEL32.DLL"));
    assert!(is_pe_filename("tool.Exe"));
    assert!(!is_pe_filename("notes.txt"));
    assert!(!is_pe_filename("dll"));
    assert!(!is_pe_filename(".dl"));
    assert!(pe_extension(".dll"));
    assert!(!pe_extension(".DLL"));
}

fn edges(g: &petgraph::graph::DiGraph<String, String>) -> Vec<(usize, usize, String)> {
    g.edge_references().map(|e| (e.source().index(), e.target().index(), e.weight().clone())).collect()
}

#[test]
fn import_graph_links_files_by_dll() {
    let files = vec![
        file("app.exe", vec![import("LIB.dll", "DoThing"), import("kernel32.dll", "ExitProcess"), import("lib.DLL", "xy")]),
        file("readme.txt", vec![import("lib.dll", "Ignored")]),
        file("Lib.DLL", vec![import("app.exe", "Callback")]),
    ];
    let g = build_import_graph(&files);
    let nodes: Vec<String> = g.node_indices().map(|i| g[i].clone()).collect();
    assert_eq!(nodes, vec!["app.exe".to_string(), "Lib.DLL".to_string()]);
    let mut got = edges(&g);
    got.sort();
    assert_eq!(got, vec![(0, 1, "DoThing".to_string()), (1, 0, "Callback".to_string())]);
}

#[test]
fn repeated_import_updates_the_edge() {
    let files = vec![
        file("a.exe", vec![import("b.dll", "First"), import("B.DLL", "Second")]),
        file("b.dll", vec![]),
    ];
    let g = build_import_graph(&files);
    assert_eq!(g.node_count(), 2);
    assert_eq!(edges(&g), vec![(0, 1, "Second".to_string())]);
}

#[test]
fn empty_input_gives_empty_graph() {
    let g = build_import_graph(&[]);
    assert_eq!(g.node_count(), 0);
    assert_eq!(g.edge_count(), 0);
}

#[test]
fn duplicate_names_resolve_to_the_later_node() {
    let files = vec![
        file("x.dll", vec![]),
        file("X.DLL", vec![]),
        file("user.exe", vec![import("x.dll", "Entry")]),
    ];
    let g = build_import_graph(&files);
    assert_eq!(g.node_count(), 3);
    assert_eq!(edges(&g), vec![(2, 1, "Entry".to_string())]);
}
