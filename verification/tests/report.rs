use pexer::pe_parser::{ExportedSymbol, ImportedSymbol};
use pexer::report::{clean_export_name, export_rows, group_imports_by_dll, sha256_hex, text_less, truncate_str};

#[test]
fn truncate_cuts_long_text() {
    assert_eq!(truncate_str("hello world", 5), "hello...");
    assert_eq!(truncate_str("short", 80), "short");
    assert_eq!(truncate_str("exact", 5), "exact");
    assert_eq!(truncate_str("", 0), "");
    assert_eq!(truncate_str("héllo", 3), "hé...");
}

fn import(dll: &str, name: &str) -> ImportedSymbol {
    ImportedSymbol { name: name.to_string(), dll: dll.to_string(), ordinal: 0, offset: 0, rva: 0, size: 0 }
}

#[test]
fn imports_grouped_by_sorted_dll() {
    let imports = vec![
        import("USER32.dll", "MessageBoxA"),
        import("KERNEL32.dll", "ExitProcess"),
        import("USER32.dll", "CreateWindowExA"),
        import("ADVAPI32.dll", "RegOpenKeyA"),
        import("KERNEL32.dll", "Sleep"),
    ];
    let groups = group_imports_by_dll(&imports);
    assert_eq!(
        groups,
        vec![
            ("ADVAPI32.dll".to_string(), vec!["RegOpenKeyA".to_string()]),
            ("KERNEL32.dll".to_string(), vec!["ExitProcess".to_string(), "Sleep".to_string()]),
            ("USER32.dll".to_string(), vec!["MessageBoxA".to_string(), "CreateWindowExA".to_string()]),
        ]
    );
    assert!(group_imports_by_dll(&Vec::new()).is_empty());
}

#[test]
fn text_order_is_string_order() {
    let words = ["", "a", "ab", "b", "B", "é", "z", "ä"];
    for x in words {
        for y in words {
            assert_eq!(text_less(x, y), x < y, "{} {}", x, y);
        }
    }
}

#[test]
fn export_names_are_cleaned() {
    assert_eq!(clean_export_name("\0\0  Func\u{1}Name \t\0"), "FuncName");
    assert_eq!(clean_export_name("plain"), "plain");
    assert_eq!(clean_export_name("\u{3000}wide\u{a0}"), "wide");
}

#[test]
fn only_named_exports_with_offsets_are_listed() {
    let exports = vec![
        ExportedSymbol { name: Some("First".to_string()), offset: Some(0x10), rva: 0, size: 0 },
        ExportedSymbol { name: Some("Zero".to_string()), offset: Some(0), rva: 0, size: 0 },
        ExportedSymbol { name: None, offset: Some(0x20), rva: 0, size: 0 },
        ExportedSymbol { name: Some("NoOffset".to_string()), offset: None, rva: 0, size: 0 },
        ExportedSymbol { name: Some(" Last\0".to_string()), offset: Some(0x30), rva: 0, size: 0 },
    ];
    assert_eq!(export_rows(&exports), vec![("First".to_string(), 0x10), ("Last".to_string(), 0x30)]);
}

#[test]
fn sha256_of_known_input() {
    assert_eq!(sha256_hex(b"abc"), "ba7816bf8f01cfea414140de5dae2223b00361a396177a9cb410ff61f20015ad");
    assert_eq!(sha256_hex(b""), "e3b0c44298fc1c149afbf4c8996fb92427ae41e4649b934ca495991b7852b855");
}

#[test]
fn lower_hex_matches_std_formatting() {
    for n in [0u64, 1, 9, 10, 15, 16, 255, 0x400, 0xdead_beef, u64::MAX] {
        assert_eq!(pexer::text::format_lower_hex(n), format!("{:#x}", n));
    }
}
