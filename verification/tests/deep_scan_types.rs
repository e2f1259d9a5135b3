use pexer::deep_scan::{anomaly_info, deep_scan_result, overlay_info, packer_info};

#[test]
fn new_results_are_empty() {
    let o = overlay_info::new();
    assert!(!o.has_overlay && o.overlay_offset.is_none() && o.overlay_size.is_none() && o.section_name.is_none());
    let p = packer_info::new();
    assert!(!p.is_packed && p.detected_packers.is_empty());
    let a = anomaly_info::new();
    assert!(!a.has_anomalies && a.anomalies.is_empty());
    let r = deep_scan_result::new();
    assert!(!r.results_found && !r.overlay.has_overlay && !r.anomalies.has_anomalies && !r.packer.is_packed);
}

#[test]
fn padded_ascii_section_name_is_known() {
    let s = pexer::pe_parser::Section {
        name: *b".text\0\0\0",
        real_name: None,
        virtual_size: 0,
        virtual_address: 0,
        size_of_raw_data: 0,
        pointer_to_raw_data: 0,
        pointer_to_relocations: 0,
        pointer_to_linenumbers: 0,
        number_of_relocations: 0,
        number_of_linenumbers: 0,
        characteristics: 0,
    };
    let name = pexer::deep_scan::section_name(&s);
    assert_eq!(name, ".text");
    assert!(pexer::deep_scan::known_section_name(&name));
}
