//! Deep-scan heuristics: overlay detection and section-table anomalies.
use vstd::prelude::*;
use vstd::string::StringExecFns;
use crate::pe_parser::{PE_Data, Section};
use vstd::utf8::{decode_utf8, valid_utf8};
use crate::text::{
    all_ascii_bytes, ascii_text, format_lower_hex, lemma_ascii_bytes_decode, lower_hex, string_from_utf8_lossy, trim_nul,
    trim_nul_chars, utf8_lossy,
};

verus! {

/// Data appended after the last section (the overlay).
#[derive(Debug, Clone, PartialEq, Eq, Hash)]
pub struct overlay_info {
    pub has_overlay: bool,
    pub overlay_offset: Option<u64>,
    pub overlay_size: Option<u64>,
    pub section_name: Option<String>,
}

/// One anomaly found in the file.
#[derive(Debug, Clone, PartialEq, Eq, Hash)]
pub struct anomaly_kind {
    pub description: String,
    pub name: String,
}

/// The anomalies found in the file.
#[derive(Debug)]
pub struct anomaly_info {
    pub has_anomalies: bool,
    pub anomalies: Vec<anomaly_kind>,
}

/// A packer that was recognised.
pub struct packer_kind {
    pub name: String,
    pub description: String,
}

/// The packers that were recognised.
pub struct packer_info {
    pub is_packed: bool,
    pub detected_packers: Vec<packer_kind>,
}

/// Everything a deep scan found.
pub struct deep_scan_result {
    pub overlay: overlay_info,
    pub packer: packer_info,
    pub anomalies: anomaly_info,
    pub results_found: bool,
}

impl overlay_info {
    /// No overlay, nothing known.
    pub open spec fn is_empty(&self) -> bool {
        &&& !self.has_overlay
        &&& self.overlay_offset is None
        &&& self.overlay_size is None
        &&& self.section_name is None
    }

    pub fn new() -> (r: Self)
        ensures
            r.is_empty(),
    {
        Self { has_overlay: false, overlay_offset: None, overlay_size: None, section_name: None }
    }
}

impl packer_info {
    pub fn new() -> (r: Self)
        ensures
            !r.is_packed,
            r.detected_packers@.len() == 0,
    {
        Self { is_packed: false, detected_packers: Vec::new() }
    }
}

impl anomaly_info {
    pub fn new() -> (r: Self)
        ensures
            !r.has_anomalies,
            r.anomalies@.len() == 0,
    {
        Self { has_anomalies: false, anomalies: Vec::new() }
    }
}

impl deep_scan_result {
    pub fn new() -> (r: Self)
        ensures
            r.overlay.is_empty(),
            !r.packer.is_packed,
            r.packer.detected_packers@.len() == 0,
            !r.anomalies.has_anomalies,
            r.anomalies.anomalies@.len() == 0,
            !r.results_found,
    {
        Self {
            overlay: overlay_info::new(),
            packer: packer_info::new(),
            anomalies: anomaly_info::new(),
            results_found: false,
        }
    }
}

/// What a deep scan of `pe`, read from a buffer of `buffer_len` bytes, reports: the
/// overlay report, the anomalies of `pe`, no packer, and a result found exactly when
/// there is an overlay or an anomaly.
pub open spec fn deep_scan_report(pe: PE_Data, buffer_len: nat, res: deep_scan_result) -> bool {
    &&& overlay_report(pe, buffer_len, res.overlay)
    &&& anomaly_views(res.anomalies.anomalies@) == expected_anomalies(pe)
    &&& res.anomalies.has_anomalies == (expected_anomalies(pe).len() > 0)
    &&& !res.packer.is_packed
    &&& res.packer.detected_packers@.len() == 0
    &&& res.results_found == (res.overlay.has_overlay || res.anomalies.has_anomalies)
}

/// The anomalies depend on the file's description alone: deep scans of the same
/// description, over buffers of any two lengths (and any contents), report the same
/// anomalies.
pub proof fn law_anomalies_ignore_the_buffer(
    pe: PE_Data,
    len1: nat,
    len2: nat,
    r1: deep_scan_result,
    r2: deep_scan_result,
)
    requires
        deep_scan_report(pe, len1, r1),
        deep_scan_report(pe, len2, r2),
    ensures
        anomaly_views(r1.anomalies.anomalies@) == anomaly_views(r2.anomalies.anomalies@),
        r1.anomalies.has_anomalies == r2.anomalies.has_anomalies,
{
}

/// Runs the overlay analysis and the anomaly detection on `pe`, read from `buffer`.
/// Packer detection reports nothing; a result is found when there is an overlay or an
/// anomaly.
pub fn deep_scan(buffer: &[u8], pe: &PE_Data) -> (r: Result<deep_scan_result, String>)
    requires
        anomaly_check_defined(*pe),
    ensures
        r matches Ok(res) && deep_scan_report(*pe, buffer@.len(), res),
{
    let overlay = overlay_analysis(buffer, pe)?;
    let anomalies = anomaly_detection(buffer, pe)?;
    let packer = packer_info { is_packed: false, detected_packers: Vec::new() };
    let results_found = overlay.has_overlay || anomalies.has_anomalies || packer.is_packed;
    Ok(deep_scan_result { overlay, anomalies, packer, results_found })
}

/// The printable name of a section: its eight name bytes decoded (invalid UTF-8
/// replaced) with leading and trailing NULs removed.
pub open spec fn section_label(name: Seq<u8>) -> Seq<char> {
    trim_nul(
        if valid_utf8(name) {
            decode_utf8(name)
        } else {
            utf8_lossy(name)
        },
    )
}

/// A section name of ASCII bytes reads as those characters, without its leading and
/// trailing NULs.
pub proof fn law_ascii_section_names_read_plainly(name: Seq<u8>)
    requires
        all_ascii_bytes(name),
    ensures
        section_label(name) == trim_nul(ascii_text(name)),
{
    lemma_ascii_bytes_decode(name);
}

/// The printable name of a section.
pub fn section_name(section: &Section) -> (r: String)
    ensures
        r@ == section_label(section.name@),
{
    let decoded = string_from_utf8_lossy(&section.name);
    trim_nul_chars(decoded.as_str())
}

/// Where the overlay would start: the end of the raw data of the last section, or
/// the end of the buffer when there is no section.
pub open spec fn overlay_start(pe: PE_Data, buffer_len: nat) -> int {
    if pe.sections@.len() == 0 {
        buffer_len as int
    } else {
        let last = pe.sections@.last();
        last.pointer_to_raw_data + last.size_of_raw_data
    }
}

/// The overlay report for `pe` read from a buffer of `buffer_len` bytes.
pub open spec fn overlay_report(pe: PE_Data, buffer_len: nat, r: overlay_info) -> bool {
    let start = overlay_start(pe, buffer_len);
    if start < buffer_len {
        &&& r.has_overlay
        &&& r.overlay_offset == Some(start as u64)
        &&& r.overlay_size == Some((buffer_len - start) as u64)
        &&& r.section_name matches Some(n) && n@ == section_label(pe.sections@.last().name@)
    } else if start > buffer_len {
        &&& !r.has_overlay
        &&& r.overlay_offset == Some(start as u64)
        &&& r.overlay_size == Some((start - buffer_len) as u64)
        &&& r.section_name matches Some(n) && n@ == section_label(pe.sections@.last().name@)
    } else {
        r.is_empty()
    }
}

/// The overlay report accounts for the whole file: the offset, the size and the section
/// name are reported together or not at all; an overlay is never empty and runs from its
/// offset to the end of the file; when the sections claim more than the file holds, the
/// offset less the missing size is the file's length; and without an offset there is no
/// overlay.
pub proof fn law_overlay_accounts_for_file(pe: PE_Data, buffer_len: nat, r: overlay_info)
    requires
        overlay_report(pe, buffer_len, r),
        buffer_len <= u64::MAX,
    ensures
        r.overlay_offset is Some <==> r.overlay_size is Some,
        r.overlay_offset is Some <==> r.section_name is Some,
        r.has_overlay ==> r.overlay_offset.unwrap() + r.overlay_size.unwrap() == buffer_len,
        r.has_overlay ==> r.overlay_size.unwrap() > 0,
        r.overlay_offset is None ==> !r.has_overlay,
        !r.has_overlay && r.overlay_offset is Some ==> r.overlay_offset.unwrap() - r.overlay_size.unwrap()
            == buffer_len,
        r.overlay_offset is None ==> overlay_start(pe, buffer_len) == buffer_len,
{
    let start = overlay_start(pe, buffer_len);
    assert(0 <= start <= u64::MAX);
}

fn overlay_analysis(buffer: &[u8], pe: &PE_Data) -> (r: Result<overlay_info, String>)
    ensures
        r matches Ok(info) && overlay_report(*pe, buffer@.len(), info),
{
    let mut l_section_va: u64 = buffer.len() as u64;
    let mut l_section_size: u64 = 0;
    let mut overlay_result = overlay_info {
        has_overlay: false,
        overlay_offset: None,
        overlay_size: None,
        section_name: None,
    };
    let mut i: usize = 0;
    while i < pe.sections.len()
        invariant
            0 <= i <= pe.sections@.len(),
            i == 0 ==> l_section_va == buffer@.len() && l_section_size == 0,
            i > 0 ==> l_section_va == pe.sections@[i - 1].pointer_to_raw_data
                && l_section_size == pe.sections@[i - 1].size_of_raw_data,
        decreases pe.sections@.len() - i,
    {
        let section = &pe.sections[i];
        l_section_va = section.pointer_to_raw_data as u64;
        l_section_size = section.size_of_raw_data as u64;
        i = i + 1;
    }
    assert(l_section_va + l_section_size <= u64::MAX);
    let overlay_offset = l_section_va + l_section_size;
    let len = buffer.len() as u64;
    if overlay_offset < len {
        let last = &pe.sections[pe.sections.len() - 1];
        overlay_result.has_overlay = true;
        overlay_result.overlay_offset = Some(overlay_offset);
        overlay_result.overlay_size = Some(len - overlay_offset);
        overlay_result.section_name = Some(section_name(last));
    } else if overlay_offset > len {
        let last = &pe.sections[pe.sections.len() - 1];
        let excess_data = overlay_offset - len;
        overlay_result.has_overlay = false;
        overlay_result.overlay_offset = Some(overlay_offset);
        overlay_result.overlay_size = Some(excess_data);
        overlay_result.section_name = Some(section_name(last));
    } else {
        overlay_result.has_overlay = false;
    }
    Ok(overlay_result)
}


/// The special section names that the PE format documents.
pub open spec fn is_known_section_name(s: Seq<char>) -> bool {
    ||| s == ".bss"@
    ||| s == ".cormeta"@
    ||| s == ".data"@
    ||| s == ".debug$F"@
    ||| s == ".debug$P"@
    ||| s == ".debug$S"@
    ||| s == ".debug$T"@
    ||| s == ".drective"@
    ||| s == ".edata"@
    ||| s == ".idata"@
    ||| s == ".idlsym"@
    ||| s == ".pdata"@
    ||| s == ".rdata"@
    ||| s == ".reloc"@
    ||| s == ".rsrc"@
    ||| s == ".sbss"@
    ||| s == ".sdata"@
    ||| s == ".srdata"@
    ||| s == ".sxdata"@
    ||| s == ".text"@
    ||| s == ".tls"@
    ||| s == ".tls$"@
    ||| s == ".vsdata"@
    ||| s == ".xdata"@
}

/// Each special section name that the PE format documents is known (a section whose
/// label is known draws no "Non-standard Section Name" anomaly): `.bss`, `.cormeta`, `.data`,
/// `.debug$F`, `.debug$P`, `.debug$S`, `.debug$T`, `.drective`, `.edata`, `.idata`,
/// `.idlsym`, `.pdata`, `.rdata`, `.reloc`, `.rsrc`, `.sbss`, `.sdata`, `.srdata`,
/// `.sxdata`, `.text`, `.tls`, `.tls$`, `.vsdata`, `.xdata`.
pub proof fn law_documented_section_names_are_known()
    ensures
        is_known_section_name(".bss"@),
        is_known_section_name(".cormeta"@),
        is_known_section_name(".data"@),
        is_known_section_name(".debug$F"@),
        is_known_section_name(".debug$P"@),
        is_known_section_name(".debug$S"@),
        is_known_section_name(".debug$T"@),
        is_known_section_name(".drective"@),
        is_known_section_name(".edata"@),
        is_known_section_name(".idata"@),
        is_known_section_name(".idlsym"@),
        is_known_section_name(".pdata"@),
        is_known_section_name(".rdata"@),
        is_known_section_name(".reloc"@),
        is_known_section_name(".rsrc"@),
        is_known_section_name(".sbss"@),
        is_known_section_name(".sdata"@),
        is_known_section_name(".srdata"@),
        is_known_section_name(".sxdata"@),
        is_known_section_name(".text"@),
        is_known_section_name(".tls"@),
        is_known_section_name(".tls$"@),
        is_known_section_name(".vsdata"@),
        is_known_section_name(".xdata"@),
{
}

/// A section whose label is a known name draws no "Non-standard Section Name" anomaly:
/// whatever it draws is a size anomaly.
pub proof fn law_known_sections_are_not_flagged(pe: PE_Data, file_alignment: nat, section: Section)
    requires
        is_known_section_name(section_label(section.name@)),
    ensures
        section_anomalies(pe, file_alignment, section).len() <= 1,
        forall|i: int|
            0 <= i < section_anomalies(pe, file_alignment, section).len() ==> (#[trigger] section_anomalies(
                pe,
                file_alignment,
                section,
            )[i]).0 == "Section Size Anomaly"@,
{
}

proof fn lemma_div_shift(b: nat, f: nat, m: nat)
    requires
        f > 0,
    ensures
        (b + m * f) / f == b / f + m,
{
    vstd::arithmetic::div_mod::lemma_hoist_over_denominator(b as int, m as int, f);
}

/// The size anomaly counts whole units of file alignment: a section whose raw size is at
/// least its virtual size plus two units is reported with a size anomaly, and one whose
/// raw size is at most its virtual size plus one unit is not.
pub proof fn law_size_anomaly_threshold(pe: PE_Data, file_alignment: nat, section: Section)
    requires
        file_alignment > 0,
    ensures
        section.size_of_raw_data >= section.virtual_size + 2 * file_alignment ==> section_anomalies(
            pe,
            file_alignment,
            section,
        ).len() >= 1 && section_anomalies(pe, file_alignment, section)[0].0 == "Section Size Anomaly"@,
        section.size_of_raw_data <= section.virtual_size + file_alignment ==> !raw_size_exceeds(section, file_alignment),
{
    let f = file_alignment;
    let a = section.size_of_raw_data as nat;
    let b = section.virtual_size as nat;
    if a >= b + 2 * f {
        lemma_div_shift(b, f, 2);
        vstd::arithmetic::div_mod::lemma_div_is_ordered((b + 2 * f) as int, a as int, f as int);
        assert(raw_size_exceeds(section, f));
    }
    if a <= b + f {
        lemma_div_shift(b, f, 1);
        vstd::arithmetic::div_mod::lemma_div_is_ordered(a as int, (b + f) as int, f as int);
    }
}

/// Whether `a` and `b` hold the same characters.
fn same_text(a: &String, b: &str) -> (r: bool)
    ensures
        r == (a@ == b@),
{
    *a == String::from_str(b)
}

/// Whether `name` is one of the special section names that the PE format documents.
pub fn known_section_name(name: &String) -> (r: bool)
    ensures
        r == is_known_section_name(name@),
{
    same_text(name, ".bss") ||
        same_text(name, ".cormeta") ||
        same_text(name, ".data") ||
        same_text(name, ".debug$F") ||
        same_text(name, ".debug$P") ||
        same_text(name, ".debug$S") ||
        same_text(name, ".debug$T") ||
        same_text(name, ".drective") ||
        same_text(name, ".edata") ||
        same_text(name, ".idata") ||
        same_text(name, ".idlsym") ||
        same_text(name, ".pdata") ||
        same_text(name, ".rdata") ||
        same_text(name, ".reloc") ||
        same_text(name, ".rsrc") ||
        same_text(name, ".sbss") ||
        same_text(name, ".sdata") ||
        same_text(name, ".srdata") ||
        same_text(name, ".sxdata") ||
        same_text(name, ".text") ||
        same_text(name, ".tls") ||
        same_text(name, ".tls$") ||
        same_text(name, ".vsdata") ||
        same_text(name, ".xdata")
}

/// An anomaly as (name, description) text.
pub open spec fn anomaly_views(v: Seq<anomaly_kind>) -> Seq<(Seq<char>, Seq<char>)> {
    v.map_values(|a: anomaly_kind| (a.name@, a.description@))
}

/// The description of a section whose raw size exceeds its virtual size.
pub open spec fn size_anomaly_text(label: Seq<char>, offset: u64, size: u64, vsize: u64) -> Seq<char> {
    "Section "@ + label + " (Offset: "@ + lower_hex(offset as nat) + ") has raw size "@ + lower_hex(
        size as nat,
    ) + " greater than virtual size "@ + lower_hex(vsize as nat) + "."@
}

/// The description of a section with a name that the PE format does not document.
pub open spec fn unknown_name_text(label: Seq<char>) -> Seq<char> {
    "Section "@ + label + " has a non-standard name. This may indicate packing or obfuscation."@
}

/// The raw size of a section exceeds its virtual size by more than one unit of file
/// alignment, counted in whole units.
pub open spec fn raw_size_exceeds(section: Section, file_alignment: nat) -> bool {
    (section.size_of_raw_data as nat) / file_alignment - (section.virtual_size as nat) / file_alignment > 1
}

/// The anomalies reported for one section. The size anomaly names the last section
/// of the table, whichever section it is about.
pub open spec fn section_anomalies(pe: PE_Data, file_alignment: nat, section: Section) -> Seq<
    (Seq<char>, Seq<char>),
> {
    let size = if raw_size_exceeds(section, file_alignment) {
        seq![
            (
                "Section Size Anomaly"@,
                size_anomaly_text(
                    section_label(pe.sections@.last().name@),
                    section.pointer_to_raw_data as u64,
                    section.size_of_raw_data as u64,
                    section.virtual_size as u64,
                ),
            ),
        ]
    } else {
        seq![]
    };
    let label = section_label(section.name@);
    let unknown = if !is_known_section_name(label) {
        seq![("Non-standard Section Name"@, unknown_name_text(label))]
    } else {
        seq![]
    };
    size + unknown
}

/// The anomalies of the first `k` sections, in table order.
pub open spec fn sections_anomalies(pe: PE_Data, file_alignment: nat, k: int) -> Seq<(Seq<char>, Seq<char>)>
    decreases k,
{
    if k <= 0 {
        seq![]
    } else {
        sections_anomalies(pe, file_alignment, k - 1) + section_anomalies(
            pe,
            file_alignment,
            pe.sections@[k - 1],
        )
    }
}

/// The file alignment declared in the optional header.
pub open spec fn file_alignment_of(pe: PE_Data) -> nat {
    pe.header.optional_header.unwrap().windows_fields.file_alignment as nat
}

/// All anomalies of `pe`: a missing import table first, then those of each section.
pub open spec fn expected_anomalies(pe: PE_Data) -> Seq<(Seq<char>, Seq<char>)> {
    let imports = if pe.imports@.len() == 0 {
        seq![("No Imports"@, "This PE file has no imports."@)]
    } else {
        seq![]
    };
    imports + sections_anomalies(pe, file_alignment_of(pe), pe.sections@.len() as int)
}

/// The file can be checked for anomalies: it has an optional header, and a nonzero
/// file alignment when it has sections.
pub open spec fn anomaly_check_defined(pe: PE_Data) -> bool {
    &&& pe.header.optional_header is Some
    &&& pe.sections@.len() > 0 ==> file_alignment_of(pe) > 0
}

/// Whether `pe` can be checked for anomalies: it has an optional header, and a nonzero
/// file alignment when it has sections.
pub fn can_check_anomalies(pe: &PE_Data) -> (r: bool)
    ensures
        r == anomaly_check_defined(*pe),
{
    match &pe.header.optional_header {
        Some(h) => pe.sections.len() == 0 || h.windows_fields.file_alignment > 0,
        None => false,
    }
}

fn anomaly_detection(buffer: &[u8], pe: &PE_Data) -> (r: Result<anomaly_info, String>)
    requires
        anomaly_check_defined(*pe),
    ensures
        r matches Ok(info) && anomaly_views(info.anomalies@) == expected_anomalies(*pe) && info.has_anomalies
            == (expected_anomalies(*pe).len() > 0),
{
    let file_alignment: u64 = match &pe.header.optional_header {
        Some(h) => h.windows_fields.file_alignment as u64,
        None => 0,
    };
    let mut anomaly_result = anomaly_info { has_anomalies: false, anomalies: Vec::new() };
    if pe.imports.len() == 0 {
        let details = anomaly_kind {
            name: String::from_str("No Imports"),
            description: String::from_str("This PE file has no imports."),
        };
        anomaly_result.anomalies.push(details);
        anomaly_result.has_anomalies = true;
    }
    assert(anomaly_views(anomaly_result.anomalies@) =~= expected_anomalies(*pe).subrange(
        0,
        anomaly_result.anomalies@.len() as int,
    ));
    let ghost head = anomaly_views(anomaly_result.anomalies@);
    let mut i: usize = 0;
    while i < pe.sections.len()
        invariant
            0 <= i <= pe.sections@.len(),
            anomaly_check_defined(*pe),
            file_alignment == file_alignment_of(*pe),
            head == (if pe.imports@.len() == 0 {
                seq![("No Imports"@, "This PE file has no imports."@)]
            } else {
                seq![]
            }),
            anomaly_views(anomaly_result.anomalies@) == head + sections_anomalies(
                *pe,
                file_alignment as nat,
                i as int,
            ),
            anomaly_result.has_anomalies == (anomaly_result.anomalies@.len() > 0),
        decreases pe.sections@.len() - i,
    {
        let section = &pe.sections[i];
        let l_section_va = section.pointer_to_raw_data as u64;
        let l_section_size = section.size_of_raw_data as u64;
        let l_section_vsize = section.virtual_size as u64;
        let physical_size_FA = l_section_size / file_alignment;
        let virt_size_FA = l_section_vsize / file_alignment;
        let FA_units = physical_size_FA.saturating_sub(virt_size_FA);
        let ghost before = anomaly_views(anomaly_result.anomalies@);
        if FA_units > 1 {
            let last_name = section_name(&pe.sections[pe.sections.len() - 1]);
            let mut description = String::from_str("Section ");
            description.append(last_name.as_str());
            description.append(" (Offset: ");
            description.append(format_lower_hex(l_section_va).as_str());
            description.append(") has raw size ");
            description.append(format_lower_hex(l_section_size).as_str());
            description.append(" greater than virtual size ");
            description.append(format_lower_hex(l_section_vsize).as_str());
            description.append(".");
            let details = anomaly_kind { name: String::from_str("Section Size Anomaly"), description };
            anomaly_result.anomalies.push(details);
            anomaly_result.has_anomalies = true;
        }
        let ghost mid = anomaly_views(anomaly_result.anomalies@);
        let name = section_name(section);
        if !known_section_name(&name) {
            let mut description = String::from_str("Section ");
            description.append(name.as_str());
            description.append(" has a non-standard name. This may indicate packing or obfuscation.");
            let details = anomaly_kind { name: String::from_str("Non-standard Section Name"), description };
            anomaly_result.anomalies.push(details);
            anomaly_result.has_anomalies = true;
        }
        proof {
            let sec = pe.sections@[i as int];
            assert(pe.sections@.last() == pe.sections@[pe.sections@.len() - 1]);
            assert(anomaly_views(anomaly_result.anomalies@) =~= before + section_anomalies(
                *pe,
                file_alignment as nat,
                sec,
            ));
            assert(sections_anomalies(*pe, file_alignment as nat, i + 1) == sections_anomalies(
                *pe,
                file_alignment as nat,
                i as int,
            ) + section_anomalies(*pe, file_alignment as nat, sec));
        }
        i = i + 1;
    }
    Ok(anomaly_result)
}

} // verus!
