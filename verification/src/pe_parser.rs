//! The model of a parsed PE file that the analyses read, and the parsers that
//! build it from the bytes of a file.
use vstd::prelude::*;
use vstd::string::StringExecFns;
use cross_authenticode::AuthenticodeInfo;

verus! {

/// One entry of the section table.
#[derive(Debug, Clone)]
pub struct Section {
    pub name: [u8; 8],
    pub real_name: Option<String>,
    pub virtual_size: u32,
    pub virtual_address: u32,
    pub size_of_raw_data: u32,
    pub pointer_to_raw_data: u32,
    pub pointer_to_relocations: u32,
    pub pointer_to_linenumbers: u32,
    pub number_of_relocations: u16,
    pub number_of_linenumbers: u16,
    pub characteristics: u32,
}

/// A symbol imported from a DLL.
#[derive(Debug, Clone)]
pub struct ImportedSymbol {
    pub name: String,
    pub dll: String,
    pub ordinal: u16,
    pub offset: usize,
    pub rva: usize,
    pub size: usize,
}

/// A symbol exported by the file.
#[derive(Debug, Clone)]
pub struct ExportedSymbol {
    pub name: Option<String>,
    pub offset: Option<usize>,
    pub rva: usize,
    pub size: usize,
}

/// The Windows-specific fields of the optional header.
#[derive(Debug, Clone, Copy)]
pub struct WindowsFields {
    pub section_alignment: u32,
    pub file_alignment: u32,
}

/// The optional header (absent in object files).
#[derive(Debug, Clone, Copy)]
pub struct OptionalHeader {
    pub windows_fields: WindowsFields,
}

/// The PE headers.
#[derive(Debug, Clone, Copy)]
pub struct PeHeader {
    pub optional_header: Option<OptionalHeader>,
}

/// What the analyses know of a PE file.
#[derive(Debug, Clone)]
pub struct PE_Data {
    pub name: String,
    pub header: PeHeader,
    pub bitness: bool,
    pub entry: u32,
    pub image_base: u64,
    pub libraries: Vec<String>,
    pub certificates: bool,
    pub imports: Vec<ImportedSymbol>,
    pub exports: Vec<ExportedSymbol>,
    pub sections: Vec<Section>,
}

/// Why a file could not be read as a PE image.
#[derive(Debug)]
pub enum ParseError {
    Malformed(String),
}

/// What goblin reads of a PE image, as plain values.
#[derive(Debug, Clone)]
pub struct PeImage {
    pub name: Option<String>,
    pub header: PeHeader,
    pub is_64: bool,
    pub entry: u32,
    pub image_base: u64,
    pub libraries: Vec<String>,
    pub certificate_count: usize,
    pub imports: Vec<ImportedSymbol>,
    pub exports: Vec<ExportedSymbol>,
    pub sections: Vec<Section>,
}

#[verifier::external_type_specification]
#[verifier::external_body]
pub struct ExGoblinPe<'a>(goblin::pe::PE<'a>);

#[verifier::external_type_specification]
#[verifier::external_body]
pub struct ExGoblinHeader<'a>(goblin::pe::header::Header<'a>);

#[verifier::external_type_specification]
#[verifier::external_body]
pub struct ExGoblinSection(goblin::pe::section_table::SectionTable);

#[verifier::external_type_specification]
#[verifier::external_body]
pub struct ExGoblinImport<'a>(goblin::pe::import::Import<'a>);

#[verifier::external_type_specification]
#[verifier::external_body]
pub struct ExGoblinExport<'a>(goblin::pe::export::Export<'a>);

#[verifier::external_type_specification]
#[verifier::external_body]
pub struct ExAuthenticodeInfo<'a>(AuthenticodeInfo<'a>);

/// What a goblin parser makes of a buffer.
pub enum GoblinParse {
    /// A PE image, read into plain values.
    Image(PeImage),
    /// The parser returns an error, or finds another kind of object.
    Refused,
    /// The parser panics on these bytes (goblin's own source notes files it panics on).
    Panics,
}

/// What `goblin::Object::parse` makes of `bytes`, as far as PE images go.
pub uninterp spec fn goblin_object_pe(bytes: Seq<u8>) -> GoblinParse;

/// What `goblin::pe::PE::parse_with_opts` makes of `bytes` with RVA resolution off and
/// the permissive mode on (every other option at its default).
pub uninterp spec fn goblin_pe_lenient(bytes: Seq<u8>) -> GoblinParse;

/// What `cross_authenticode::AuthenticodeInfo::try_from` makes of a buffer.
pub enum SignatureRead {
    /// The signature was read.
    Readable,
    /// It returned an error.
    Unreadable,
    /// It panics on these bytes (it slices the buffer at an offset read from the file).
    Panics,
}

/// What `cross_authenticode::AuthenticodeInfo::try_from` makes of `bytes`.
pub uninterp spec fn authenticode_read(bytes: Seq<u8>) -> SignatureRead;

/// Whether `cross_authenticode::AuthenticodeInfo::try_from` reads a signature from `bytes`.
pub open spec fn authenticode_readable(bytes: Seq<u8>) -> bool {
    authenticode_read(bytes) is Readable
}

/// What `cross_authenticode::AuthenticodeInfo::verify` answers for the signature read
/// from `bytes`: `Some(matches)` when it could compute the digest, `None` on its error.
pub uninterp spec fn authenticode_verdict(bytes: Seq<u8>) -> Option<bool>;

/// Copies one goblin section-table entry into the library's type, field by field.
#[verifier::external_body]
fn section_of(s: &goblin::pe::section_table::SectionTable) -> Section {
    Section {
        name: s.name,
        real_name: s.real_name.clone(),
        virtual_size: s.virtual_size,
        virtual_address: s.virtual_address,
        size_of_raw_data: s.size_of_raw_data,
        pointer_to_raw_data: s.pointer_to_raw_data,
        pointer_to_relocations: s.pointer_to_relocations,
        pointer_to_linenumbers: s.pointer_to_linenumbers,
        number_of_relocations: s.number_of_relocations,
        number_of_linenumbers: s.number_of_linenumbers,
        characteristics: s.characteristics,
    }
}

/// Copies one goblin import into the library's type, field by field.
#[verifier::external_body]
fn import_of(i: &goblin::pe::import::Import) -> ImportedSymbol {
    ImportedSymbol {
        name: i.name.to_string(),
        dll: i.dll.to_string(),
        ordinal: i.ordinal,
        offset: i.offset,
        rva: i.rva,
        size: i.size,
    }
}

/// Copies one goblin export into the library's type, field by field.
#[verifier::external_body]
fn export_of(e: &goblin::pe::export::Export) -> ExportedSymbol {
    ExportedSymbol { name: e.name.map(|n| n.to_string()), offset: e.offset, rva: e.rva, size: e.size }
}

/// Copies the alignment fields of goblin's optional header into the library's type.
#[verifier::external_body]
fn header_of(h: &goblin::pe::header::Header) -> PeHeader {
    PeHeader {
        optional_header: h.optional_header.map(
            |o|
                OptionalHeader {
                    windows_fields: WindowsFields {
                        section_alignment: o.windows_fields.section_alignment,
                        file_alignment: o.windows_fields.file_alignment,
                    },
                },
        ),
    }
}

/// Copies what the analyses read of a goblin PE into the library's type.
#[verifier::external_body]
fn image_of(pe: &goblin::pe::PE) -> PeImage {
    PeImage {
        name: pe.name.map(|n| n.to_string()),
        header: header_of(&pe.header),
        is_64: pe.is_64,
        entry: pe.entry,
        image_base: pe.image_base,
        libraries: pe.libraries.iter().map(|l| l.to_string()).collect(),
        certificate_count: pe.certificates.len(),
        imports: pe.imports.iter().map(import_of).collect(),
        exports: pe.exports.iter().map(export_of).collect(),
        sections: pe.sections.iter().map(section_of).collect(),
    }
}

/// `goblin::Object::parse`: the PE image read from `bytes`, or `None` when the parse
/// fails or the object is not a PE image. It panics on some files, which `requires`
/// leaves out. Claimed: the outcome is a function of the bytes alone, named
/// `goblin_object_pe`.
#[verifier::external_body]
fn goblin_parse_object(bytes: &[u8]) -> (r: Option<PeImage>)
    requires
        !(goblin_object_pe(bytes@) is Panics),
    ensures
        match goblin_object_pe(bytes@) {
            GoblinParse::Image(image) => r == Some(image),
            _ => r is None,
        },
{
    match goblin::Object::parse(bytes) {
        Ok(goblin::Object::PE(pe)) => Some(image_of(&pe)),
        _ => None,
    }
}

/// `goblin::pe::PE::parse_with_opts` with RVA resolution off and the permissive mode on:
/// the PE image read from `bytes`, or `None` when the parse fails. It panics on some
/// files, which `requires` leaves out. Claimed: the outcome is a function of the bytes
/// alone, named `goblin_pe_lenient`.
#[verifier::external_body]
fn goblin_parse_pe_lenient(bytes: &[u8]) -> (r: Option<PeImage>)
    requires
        !(goblin_pe_lenient(bytes@) is Panics),
    ensures
        match goblin_pe_lenient(bytes@) {
            GoblinParse::Image(image) => r == Some(image),
            _ => r is None,
        },
{
    let mut opts = goblin::pe::options::ParseOptions::default();
    opts.resolve_rva = false;
    opts.parse_mode = goblin::pe::options::ParseMode::Permissive;
    goblin::pe::PE::parse_with_opts(bytes, &opts).ok().map(|pe| image_of(&pe))
}

/// The Authenticode signature read from a buffer, with the buffer it was read from.
pub struct SignatureInfo<'a> {
    info: AuthenticodeInfo<'a>,
    bytes: Ghost<Seq<u8>>,
}

impl<'a> SignatureInfo<'a> {
    /// The buffer the signature was read from.
    pub closed spec fn source(&self) -> Seq<u8> {
        self.bytes@
    }
}

/// `AuthenticodeInfo::try_from(&[u8])` (cross_authenticode): reads the Authenticode
/// signature of a PE image; `None` on its error. It panics on some crafted files, which
/// `requires` leaves out. Claimed: the outcome is a function of the bytes, named
/// `authenticode_read`.
#[verifier::external_body]
fn read_authenticode(bytes: &[u8]) -> (r: Option<SignatureInfo<'_>>)
    requires
        !(authenticode_read(bytes@) is Panics),
    ensures
        r is Some <==> authenticode_read(bytes@) is Readable,
        r matches Some(info) ==> info.source() == bytes@,
{
    match AuthenticodeInfo::try_from(bytes) {
        Ok(info) => Some(SignatureInfo { info, bytes: Ghost(bytes@) }),
        Err(_) => None,
    }
}

/// `AuthenticodeInfo::verify` (cross_authenticode): whether the digest of the image
/// matches the signed digest; `None` on its error. Claimed: the answer is a function of
/// the bytes the signature was read from, named `authenticode_verdict`.
#[verifier::external_body]
fn verify_authenticode(sig: &SignatureInfo) -> (r: Option<bool>)
    ensures
        r == authenticode_verdict(sig.source()),
{
    sig.info.verify().ok()
}

/// Whether the Authenticode signature of `bytes` can be read and its digest matches.
pub open spec fn signature_verified(bytes: Seq<u8>) -> bool {
    authenticode_readable(bytes) && authenticode_verdict(bytes) == Some(true)
}

/// Reads and checks the Authenticode signature of `buffer`: `Some(matches)` when it was
/// read and its digest could be computed, `None` otherwise.
pub fn check_signature(buffer: &[u8]) -> (r: Option<bool>)
    requires
        !(authenticode_read(buffer@) is Panics),
    ensures
        r == (if authenticode_readable(buffer@) {
            authenticode_verdict(buffer@)
        } else {
            None
        }),
{
    match read_authenticode(buffer) {
        Some(info) => verify_authenticode(&info),
        None => None,
    }
}

/// `data` is what `image` says, named `file_name` when the image has no name of its
/// own, and with a verified signature exactly when the image has certificates and
/// `signature` is `Some(true)`.
pub open spec fn pe_data_of(data: PE_Data, image: PeImage, file_name: Seq<char>, signature: Option<bool>) -> bool {
    &&& data.name@ == (match image.name {
        Some(n) => n@,
        None => file_name,
    })
    &&& data.header == image.header
    &&& data.bitness == image.is_64
    &&& data.entry == image.entry
    &&& data.image_base == image.image_base
    &&& data.libraries == image.libraries
    &&& data.certificates == (image.certificate_count > 0 && signature == Some(true))
    &&& data.imports == image.imports
    &&& data.exports == image.exports
    &&& data.sections == image.sections
}

/// Builds the analysed view of a PE image: the image's own name, or `file_name` when it
/// has none, and the outcome of the signature check (`signature`), which counts only
/// when the image has certificates.
pub fn pe_data_from_image(image: PeImage, file_name: &str, signature: Option<bool>) -> (r: PE_Data)
    ensures
        pe_data_of(r, image, file_name@, signature),
{
    let ghost image0 = image;
    let name = match image.name {
        Some(n) => n,
        None => String::from_str(file_name),
    };
    let verified = match signature {
        Some(b) => b,
        None => false,
    };
    PE_Data {
        name,
        header: image.header,
        bitness: image.is_64,
        entry: image.entry,
        image_base: image.image_base,
        libraries: image.libraries,
        certificates: image.certificate_count > 0 && verified,
        imports: image.imports,
        exports: image.exports,
        sections: image.sections,
    }
}

/// The signature outcome that the parsers record for `image` read from `bytes`: the
/// signature is checked only when the image has certificates.
pub open spec fn signature_outcome(image: PeImage, bytes: Seq<u8>) -> Option<bool> {
    if image.certificate_count > 0 && authenticode_readable(bytes) {
        authenticode_verdict(bytes)
    } else {
        None
    }
}

/// A file is reported as having a verified certificate only when it has certificates,
/// its Authenticode signature can be read, and the digest it signs matches the file.
pub proof fn law_verified_certificate_needs_matching_signature(
    data: PE_Data,
    image: PeImage,
    file_name: Seq<char>,
    bytes: Seq<u8>,
)
    requires
        pe_data_of(data, image, file_name, signature_outcome(image, bytes)),
    ensures
        data.certificates <==> (image.certificate_count > 0 && signature_verified(bytes)),
{
}

/// The signature of `bytes` can be checked without a panic wherever the parsers check
/// it: when the image has certificates.
pub open spec fn signature_checkable(image: PeImage, bytes: Seq<u8>) -> bool {
    image.certificate_count > 0 ==> !(authenticode_read(bytes) is Panics)
}

/// The analysed view of `image` read from `bytes`.
fn assemble(image: PeImage, buffer: &[u8], file_name: &str) -> (r: PE_Data)
    requires
        signature_checkable(image, buffer@),
    ensures
        pe_data_of(r, image, file_name@, signature_outcome(image, buffer@)),
{
    let signature = if image.certificate_count > 0 {
        check_signature(buffer)
    } else {
        None
    };
    pe_data_from_image(image, file_name, signature)
}

/// The error for a buffer that does not hold a PE image.
pub open spec fn malformed(r: Result<PE_Data, ParseError>, message: Seq<char>) -> bool {
    r matches Err(ParseError::Malformed(m)) && m@ == message
}

/// What the strict parser reports for the outcome `parse` of goblin's object parser on
/// `bytes`.
pub open spec fn strict_report(parse: GoblinParse, bytes: Seq<u8>, file_name: Seq<char>, r: Result<
    PE_Data,
    ParseError,
>) -> bool {
    match parse {
        GoblinParse::Image(image) => r matches Ok(data) && pe_data_of(
            data,
            image,
            file_name,
            signature_outcome(image, bytes),
        ),
        GoblinParse::Refused => malformed(r, "Not a valid PE file"@),
        GoblinParse::Panics => malformed(r, "PE parsing panicked"@),
    }
}

/// The strict parser's answer for the outcome `parse` of goblin's object parser on
/// `buffer`: the analysed image, "Not a valid PE file" when goblin refused the bytes or
/// found another kind of object, and "PE parsing panicked" when goblin panicked.
pub fn pe_from_parse(parse: GoblinParse, buffer: &[u8], file_name: &str) -> (r: Result<PE_Data, ParseError>)
    requires
        parse matches GoblinParse::Image(image) ==> signature_checkable(image, buffer@),
    ensures
        strict_report(parse, buffer@, file_name@, r),
{
    match parse {
        GoblinParse::Image(image) => Ok(assemble(image, buffer, file_name)),
        GoblinParse::Refused => Err(ParseError::Malformed(String::from_str("Not a valid PE file"))),
        GoblinParse::Panics => Err(ParseError::Malformed(String::from_str("PE parsing panicked"))),
    }
}

/// The bytes can be parsed strictly without a panic: goblin does not panic on them, and
/// neither does the signature reader where the image has certificates.
pub open spec fn strict_parse_defined(bytes: Seq<u8>) -> bool {
    &&& !(goblin_object_pe(bytes) is Panics)
    &&& goblin_object_pe(bytes) matches GoblinParse::Image(image) ==> signature_checkable(image, bytes)
}

/// Parses `buffer` as a PE image. Fails with "Not a valid PE file" when goblin cannot
/// parse it or finds another kind of object.
pub fn parse_pe(buffer: &[u8], file_name: &str) -> (r: Result<PE_Data, ParseError>)
    requires
        strict_parse_defined(buffer@),
    ensures
        strict_report(goblin_object_pe(buffer@), buffer@, file_name@, r),
{
    let parse = match goblin_parse_object(buffer) {
        Some(image) => GoblinParse::Image(image),
        None => GoblinParse::Refused,
    };
    pe_from_parse(parse, buffer, file_name)
}

/// The bytes can be parsed leniently without a panic.
pub open spec fn lenient_parse_defined(bytes: Seq<u8>) -> bool {
    &&& !(goblin_pe_lenient(bytes) is Panics)
    &&& goblin_pe_lenient(bytes) matches GoblinParse::Image(image) ==> signature_checkable(image, bytes)
}

/// Parses `buffer` as a PE image without resolving RVAs and in goblin's permissive mode,
/// which may read damaged files. Fails with "Lenient parsing failed".
pub fn lenient_parse(buffer: &[u8], file_name: &str) -> (r: Result<PE_Data, ParseError>)
    requires
        lenient_parse_defined(buffer@),
    ensures
        match goblin_pe_lenient(buffer@) {
            GoblinParse::Image(image) => r matches Ok(data) && pe_data_of(
                data,
                image,
                file_name@,
                signature_outcome(image, buffer@),
            ),
            _ => malformed(r, "Lenient parsing failed"@),
        },
{
    match goblin_parse_pe_lenient(buffer) {
        Some(image) => Ok(assemble(image, buffer, file_name)),
        None => Err(ParseError::Malformed(String::from_str("Lenient parsing failed"))),
    }
}

/// The strict parser keeps what goblin read: when goblin reads `bytes` as a PE image,
/// the result is that image's name (or `file_name` when it has none), header, bitness,
/// entry point, image base, libraries, imports, exports and sections, with a verified
/// certificate exactly when it has certificates whose signature checks out; otherwise it
/// is the error "Not a valid PE file" (or "PE parsing panicked").
pub proof fn law_strict_parse_keeps_what_goblin_read(
    bytes: Seq<u8>,
    file_name: Seq<char>,
    r: Result<PE_Data, ParseError>,
)
    requires
        strict_report(goblin_object_pe(bytes), bytes, file_name, r),
    ensures
        match goblin_object_pe(bytes) {
            GoblinParse::Image(image) => r matches Ok(data) && {
                &&& data.name@ == (match image.name {
                    Some(n) => n@,
                    None => file_name,
                })
                &&& data.header == image.header
                &&& data.bitness == image.is_64
                &&& data.entry == image.entry
                &&& data.image_base == image.image_base
                &&& data.libraries == image.libraries
                &&& data.imports == image.imports
                &&& data.exports == image.exports
                &&& data.sections == image.sections
                &&& data.certificates == (image.certificate_count > 0 && signature_verified(bytes))
            },
            GoblinParse::Refused => r matches Err(ParseError::Malformed(m)) && m@ == "Not a valid PE file"@,
            GoblinParse::Panics => r matches Err(ParseError::Malformed(m)) && m@ == "PE parsing panicked"@,
        },
{
}

/// The lenient parser keeps what goblin's permissive parse read, in the same way; when
/// that parse fails, the result is the error "Lenient parsing failed".
pub proof fn law_lenient_parse_keeps_what_goblin_read(
    bytes: Seq<u8>,
    file_name: Seq<char>,
    r: Result<PE_Data, ParseError>,
)
    requires
        match goblin_pe_lenient(bytes) {
            GoblinParse::Image(image) => r matches Ok(data) && pe_data_of(
                data,
                image,
                file_name,
                signature_outcome(image, bytes),
            ),
            _ => malformed(r, "Lenient parsing failed"@),
        },
    ensures
        match goblin_pe_lenient(bytes) {
            GoblinParse::Image(image) => r matches Ok(data) && {
                &&& data.name@ == (match image.name {
                    Some(n) => n@,
                    None => file_name,
                })
                &&& data.header == image.header
                &&& data.bitness == image.is_64
                &&& data.entry == image.entry
                &&& data.image_base == image.image_base
                &&& data.libraries == image.libraries
                &&& data.imports == image.imports
                &&& data.exports == image.exports
                &&& data.sections == image.sections
                &&& data.certificates == (image.certificate_count > 0 && signature_verified(bytes))
            },
            _ => r matches Err(ParseError::Malformed(m)) && m@ == "Lenient parsing failed"@,
        },
{
}

} // verus!
