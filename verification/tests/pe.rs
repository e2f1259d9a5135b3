use pexer::deep_scan::{deep_scan, section_name};
use pexer::pe_parser::{check_signature, lenient_parse, parse_pe, pe_from_parse, GoblinParse, ParseError, Section};

fn put16(b: &mut Vec<u8>, at: usize, v: u16) {
    b[at..at + 2].copy_from_slice(&v.to_le_bytes());
}

fn put32(b: &mut Vec<u8>, at: usize, v: u32) {
    b[at..at + 4].copy_from_slice(&v.to_le_bytes());
}

/// A small PE32 image: headers in the first 0x200 bytes, then the raw data of each
/// section, given as (name, virtual size, raw size), then `extra` overlay bytes.
fn build_pe(sections: &[(&[u8], u32, u32)], extra: usize) -> Vec<u8> {
    let raw_total: u32 = sections.iter().map(|s| s.2).sum();
    let mut b = vec![0u8; 0x200 + raw_total as usize + extra];
    b[0] = b'M';
    b[1] = b'Z';
    put32(&mut b, 0x3c, 0x40);
    b[0x40..0x44].copy_from_slice(b"PE\0\0");
    put16(&mut b, 0x44, 0x14c);
    put16(&mut b, 0x46, sections.len() as u16);
    put16(&mut b, 0x54, 0xe0);
    put16(&mut b, 0x56, 0x0102);
    let opt = 0x58;
    put16(&mut b, opt, 0x10b);
    put32(&mut b, opt + 16, 0x1000);
    put32(&mut b, opt + 20, 0x1000);
    put32(&mut b, opt + 28, 0x400000);
    put32(&mut b, opt + 32, 0x1000);
    put32(&mut b, opt + 36, 0x200);
    put16(&mut b, opt + 40, 4);
    put16(&mut b, opt + 48, 4);
    put32(&mut b, opt + 56, 0x1000 * (sections.len() as u32 + 1));
    put32(&mut b, opt + 60, 0x200);
    put16(&mut b, opt + 68, 3);
    put32(&mut b, opt + 72, 0x100000);
    put32(&mut b, opt + 76, 0x1000);
    put32(&mut b, opt + 80, 0x100000);
    put32(&mut b, opt + 84, 0x1000);
    put32(&mut b, opt + 92, 16);
    let mut table = opt + 0xe0;
    let mut raw = 0x200u32;
    for (i, (name, vsize, rsize)) in sections.iter().enumerate() {
        b[table..table + name.len()].copy_from_slice(name);
        put32(&mut b, table + 8, *vsize);
        put32(&mut b, table + 12, 0x1000 * (i as u32 + 1));
        put32(&mut b, table + 16, *rsize);
        put32(&mut b, table + 20, raw);
        put32(&mut b, table + 36, 0x6000_0020);
        raw += rsize;
        table += 40;
    }
    b
}

#[test]
fn parse_pe_reads_sections_and_header() {
    let bytes = build_pe(&[(b".text", 0x10, 0x200)], 0);
    let pe = parse_pe(&bytes, "sample.exe").expect("a PE image");
    assert_eq!(pe.name, "sample.exe");
    assert!(!pe.bitness);
    assert_eq!(pe.entry, 0x1000);
    assert_eq!(pe.image_base, 0x400000);
    assert_eq!(pe.sections.len(), 1);
    assert_eq!(pe.sections[0].pointer_to_raw_data, 0x200);
    assert_eq!(pe.sections[0].size_of_raw_data, 0x200);
    assert_eq!(section_name(&pe.sections[0]), ".text");
    assert_eq!(pe.header.optional_header.unwrap().windows_fields.file_alignment, 0x200);
    assert!(pe.imports.is_empty());
    assert!(!pe.certificates);
}

#[test]
fn parse_pe_refuses_other_data() {
    match parse_pe(b"just some text, not an executable", "x") {
        Err(ParseError::Malformed(m)) => assert_eq!(m, "Not a valid PE file"),
        Ok(_) => panic!("parsed garbage"),
    }
}

#[test]
fn lenient_parse_refuses_garbage() {
    match lenient_parse(b"MZ", "x") {
        Err(ParseError::Malformed(m)) => assert_eq!(m, "Lenient parsing failed"),
        Ok(_) => panic!("parsed garbage"),
    }
}

#[test]
fn lenient_parse_reads_a_valid_image() {
    let bytes = build_pe(&[(b".text", 0x10, 0x200)], 0);
    let pe = lenient_parse(&bytes, "lenient.dll").expect("a PE image");
    assert_eq!(pe.sections.len(), 1);
    assert_eq!(pe.name, "lenient.dll");
}

#[test]
fn unsigned_image_has_no_verified_signature() {
    let bytes = build_pe(&[(b".text", 0x10, 0x200)], 0);
    assert_eq!(check_signature(&bytes), None);
    assert_eq!(check_signature(b"not a pe"), None);
}

#[test]
fn deep_scan_reports_overlay_and_anomalies() {
    let bytes = build_pe(&[(b".text", 0x100, 0x200), (b".weird", 0x100, 0x800)], 0x30);
    let pe = parse_pe(&bytes, "packed.exe").expect("a PE image");
    let result = deep_scan(&bytes, &pe).unwrap();
    assert!(result.results_found);
    assert!(result.overlay.has_overlay);
    assert_eq!(result.overlay.overlay_offset, Some(0xc00));
    assert_eq!(result.overlay.overlay_size, Some(0x30));
    assert_eq!(result.overlay.section_name.as_deref(), Some(".weird"));
    assert!(!result.packer.is_packed);
    let got: Vec<(String, String)> =
        result.anomalies.anomalies.iter().map(|a| (a.name.clone(), a.description.clone())).collect();
    assert_eq!(
        got,
        vec![
            ("No Imports".to_string(), "This PE file has no imports.".to_string()),
            (
                "Section Size Anomaly".to_string(),
                "Section .weird (Offset: 0x400) has raw size 0x800 greater than virtual size 0x100.".to_string()
            ),
            (
                "Non-standard Section Name".to_string(),
                "Section .weird has a non-standard name. This may indicate packing or obfuscation.".to_string()
            ),
        ]
    );
    assert!(result.anomalies.has_anomalies);
}

#[test]
fn deep_scan_reports_data_missing_past_end() {
    let mut bytes = build_pe(&[(b".data", 0x100, 0x200)], 0);
    let pe = parse_pe(&bytes, "cut.exe").expect("a PE image");
    bytes.truncate(0x300);
    let result = deep_scan(&bytes, &pe).unwrap();
    assert!(!result.overlay.has_overlay);
    assert_eq!(result.overlay.overlay_offset, Some(0x400));
    assert_eq!(result.overlay.overlay_size, Some(0x100));
    assert_eq!(result.overlay.section_name.as_deref(), Some(".data"));
}

#[test]
fn deep_scan_without_overlay() {
    let bytes = build_pe(&[(b".rsrc", 0x200, 0x200)], 0);
    let pe = parse_pe(&bytes, "plain.exe").expect("a PE image");
    let result = deep_scan(&bytes, &pe).unwrap();
    assert!(!result.overlay.has_overlay);
    assert_eq!(result.overlay.overlay_offset, None);
    assert_eq!(result.overlay.overlay_size, None);
    assert_eq!(result.overlay.section_name, None);
    assert_eq!(result.anomalies.anomalies.len(), 1);
    assert!(result.results_found);
}

fn section(name: [u8; 8]) -> Section {
    Section {
        name,
        real_name: None,
        virtual_size: 0,
        virtual_address: 0,
        size_of_raw_data: 0,
        pointer_to_raw_data: 0,
        pointer_to_relocations: 0,
        pointer_to_linenumbers: 0,
        number_of_relocations: 0,
        number_of_linenumbers: 0,
        characteristics: 0,
    }
}

#[test]
fn section_names_drop_nuls_and_replace_invalid_bytes() {
    assert_eq!(section_name(&section(*b".text\0\0\0")), ".text");
    assert_eq!(section_name(&section(*b"\0\0UPX0\0\0")), "UPX0");
    assert_eq!(section_name(&section(*b"ab\xffcd\0\0\0")), "ab\u{fffd}cd");
    assert_eq!(section_name(&section([0; 8])), "");
}

#[test]
fn anomalies_do_not_depend_on_the_buffer() {
    let bytes = build_pe(&[(b".text", 0x100, 0x200), (b".weird", 0x100, 0x800)], 0x30);
    let pe = parse_pe(&bytes, "packed.exe").expect("a PE image");
    let first = deep_scan(&bytes, &pe).unwrap();
    let second = deep_scan(b"unrelated", &pe).unwrap();
    let names = |r: &pexer::deep_scan::deep_scan_result| -> Vec<(String, String)> {
        r.anomalies.anomalies.iter().map(|a| (a.name.clone(), a.description.clone())).collect()
    };
    assert_eq!(names(&first), names(&second));
    assert_eq!(first.anomalies.has_anomalies, second.anomalies.has_anomalies);
    assert_eq!(second.overlay.overlay_offset, Some(0xc00));
    assert_eq!(second.overlay.overlay_size, Some(0xc00 - 9));
    assert!(!second.overlay.has_overlay);
}

#[test]
fn parser_outcomes_give_their_errors() {
    match pe_from_parse(GoblinParse::Panics, b"MZ", "x") {
        Err(ParseError::Malformed(m)) => assert_eq!(m, "PE parsing panicked"),
        Ok(_) => panic!("parsed"),
    }
    match pe_from_parse(GoblinParse::Refused, b"MZ", "x") {
        Err(ParseError::Malformed(m)) => assert_eq!(m, "Not a valid PE file"),
        Ok(_) => panic!("parsed"),
    }
}
