use vstd::prelude::*;

use vstd::bytes::{
    spec_u128_to_le_bytes, spec_u16_to_le_bytes, spec_u32_to_le_bytes, spec_u64_to_le_bytes,
    u128_to_le_bytes, u16_to_le_bytes, u32_to_le_bytes, u64_to_le_bytes,
};
use vstd::utf8::encode_utf8;

verus! {

/// Size of the ELF64 header on disk.
pub const ELF_HEADER_LEN: usize = 64;

/// Size of one ELF64 section-header record on disk.
pub const SECTION_HEADER_LEN: usize = 64;

/// Size of one ELF64 symbol-table entry on disk.
pub const SYM_ENTRY_LEN: usize = 24;

// ---------------------------------------------------------------------------
// Byte-level helpers
// ---------------------------------------------------------------------------

/// The big-endian bytes of a 128-bit number.
pub open spec fn spec_u128_to_be_bytes(x: u128) -> Seq<u8> {
    spec_u128_to_le_bytes(x).reverse()
}

fn u128_to_be_bytes(x: u128) -> (r: Vec<u8>)
    ensures
        r@ == spec_u128_to_be_bytes(x),
        r@.len() == 16,
{
    let le = u128_to_le_bytes(x);
    let mut r: Vec<u8> = Vec::new();
    let mut i: usize = 0;
    while i < 16
        invariant
            le@ == spec_u128_to_le_bytes(x),
            le@.len() == 16,
            i <= 16,
            r@.len() == i,
            forall|k: int| 0 <= k < i ==> r@[k] == le@[15 - k],
        decreases 16 - i,
    {
        r.push(le[15 - i]);
        i += 1;
    }
    proof {
        assert(r@ =~= spec_u128_to_le_bytes(x).reverse());
    }
    r
}

fn extend_bytes(v: &mut Vec<u8>, s: &[u8])
    ensures
        final(v)@ == old(v)@ + s@,
{
    let mut i: usize = 0;
    proof {
        assert(old(v)@ + s@.subrange(0, 0) =~= old(v)@);
    }
    while i < s.len()
        invariant
            i <= s@.len(),
            v@ == old(v)@ + s@.subrange(0, i as int),
        decreases s@.len() - i,
    {
        let b = s[i];
        v.push(b);
        proof {
            assert(v@ =~= old(v)@ + s@.subrange(0, i + 1));
        }
        i += 1;
    }
    proof {
        assert(old(v)@ + s@.subrange(0, s@.len() as int) =~= old(v)@ + s@);
    }
}

// ---------------------------------------------------------------------------
// ELF header
// ---------------------------------------------------------------------------

/// The fixed 64-byte ELF64 header. All multi-byte fields are emitted
/// little-endian except `ident`, whose canonical 16 bytes are emitted as
/// written (big-endian).
#[derive(Clone, Copy, Debug, PartialEq, Eq)]
pub struct Header {
    pub ident: u128,
    pub typ: u16,
    pub machine: u16,
    pub version: u32,
    pub entry: u64,
    pub program_header_offset: u64,
    pub section_header_offset: u64,
    pub flags: u32,
    pub header_size: u16,
    pub program_header_size: u16,
    pub program_header_num: u16,
    pub section_header_size: u16,
    pub section_header_num: u16,
    pub str_index: u16,
}

/// The 64 bytes of an ELF header on disk.
pub open spec fn spec_header_bytes(h: Header) -> Seq<u8> {
    spec_u128_to_be_bytes(h.ident) + spec_u16_to_le_bytes(h.typ) + spec_u16_to_le_bytes(h.machine)
        + spec_u32_to_le_bytes(h.version) + spec_u64_to_le_bytes(h.entry) + spec_u64_to_le_bytes(
        h.program_header_offset,
    ) + spec_u64_to_le_bytes(h.section_header_offset) + spec_u32_to_le_bytes(h.flags)
        + spec_u16_to_le_bytes(h.header_size) + spec_u16_to_le_bytes(h.program_header_size)
        + spec_u16_to_le_bytes(h.program_header_num) + spec_u16_to_le_bytes(h.section_header_size)
        + spec_u16_to_le_bytes(h.section_header_num) + spec_u16_to_le_bytes(h.str_index)
}

/// The byte length of a serialized header is exactly `ELF_HEADER_LEN`.
pub proof fn lemma_header_bytes_len(h: Header)
    ensures
        spec_header_bytes(h).len() == ELF_HEADER_LEN,
{
    vstd::bytes::lemma_auto_spec_u16_to_from_le_bytes();
    vstd::bytes::lemma_auto_spec_u32_to_from_le_bytes();
    vstd::bytes::lemma_auto_spec_u64_to_from_le_bytes();
    vstd::bytes::lemma_auto_spec_u128_to_from_le_bytes();
}

impl Header {
    /// Serializes the header to its on-disk 64-byte form.
    pub fn to_bytes(&self) -> (r: Vec<u8>)
        ensures
            r@ == spec_header_bytes(*self),
            r@.len() == ELF_HEADER_LEN,
    {
        let mut buf: Vec<u8> = Vec::new();
        let mut piece = u128_to_be_bytes(self.ident);
        buf.append(&mut piece);
        let mut piece = u16_to_le_bytes(self.typ);
        buf.append(&mut piece);
        let mut piece = u16_to_le_bytes(self.machine);
        buf.append(&mut piece);
        let mut piece = u32_to_le_bytes(self.version);
        buf.append(&mut piece);
        let mut piece = u64_to_le_bytes(self.entry);
        buf.append(&mut piece);
        let mut piece = u64_to_le_bytes(self.program_header_offset);
        buf.append(&mut piece);
        let mut piece = u64_to_le_bytes(self.section_header_offset);
        buf.append(&mut piece);
        let mut piece = u32_to_le_bytes(self.flags);
        buf.append(&mut piece);
        let mut piece = u16_to_le_bytes(self.header_size);
        buf.append(&mut piece);
        let mut piece = u16_to_le_bytes(self.program_header_size);
        buf.append(&mut piece);
        let mut piece = u16_to_le_bytes(self.program_header_num);
        buf.append(&mut piece);
        let mut piece = u16_to_le_bytes(self.section_header_size);
        buf.append(&mut piece);
        let mut piece = u16_to_le_bytes(self.section_header_num);
        buf.append(&mut piece);
        let mut piece = u16_to_le_bytes(self.str_index);
        buf.append(&mut piece);
        proof {
            assert(buf@ =~= spec_header_bytes(*self));
            lemma_header_bytes_len(*self);
        }
        buf
    }
}

// ---------------------------------------------------------------------------
// Sections
// ---------------------------------------------------------------------------

/// One ELF64 section-header record; all fields little-endian on disk.
#[derive(Clone, Copy, Debug, PartialEq, Eq)]
pub struct SectionHeader {
    pub name: u32,
    pub typ: u32,
    pub flags: u64,
    pub address: u64,
    pub offset: u64,
    pub size: u64,
    pub link: u32,
    pub info: u32,
    pub address_align: u64,
    pub entry_size: u64,
}

/// The 64 bytes of a section header on disk.
pub open spec fn spec_section_header_bytes(h: SectionHeader) -> Seq<u8> {
    spec_u32_to_le_bytes(h.name) + spec_u32_to_le_bytes(h.typ) + spec_u64_to_le_bytes(h.flags)
        + spec_u64_to_le_bytes(h.address) + spec_u64_to_le_bytes(h.offset) + spec_u64_to_le_bytes(
        h.size,
    ) + spec_u32_to_le_bytes(h.link) + spec_u32_to_le_bytes(h.info) + spec_u64_to_le_bytes(
        h.address_align,
    ) + spec_u64_to_le_bytes(h.entry_size)
}

/// The byte length of a serialized section header is exactly
/// `SECTION_HEADER_LEN`.
pub proof fn lemma_section_header_bytes_len(h: SectionHeader)
    ensures
        spec_section_header_bytes(h).len() == SECTION_HEADER_LEN,
{
    vstd::bytes::lemma_auto_spec_u32_to_from_le_bytes();
    vstd::bytes::lemma_auto_spec_u64_to_from_le_bytes();
}

impl SectionHeader {
    /// Serializes the section header to its on-disk 64-byte form.
    pub fn to_bytes(&self) -> (r: Vec<u8>)
        ensures
            r@ == spec_section_header_bytes(*self),
            r@.len() == SECTION_HEADER_LEN,
    {
        let mut buf: Vec<u8> = Vec::new();
        let mut piece = u32_to_le_bytes(self.name);
        buf.append(&mut piece);
        let mut piece = u32_to_le_bytes(self.typ);
        buf.append(&mut piece);
        let mut piece = u64_to_le_bytes(self.flags);
        buf.append(&mut piece);
        let mut piece = u64_to_le_bytes(self.address);
        buf.append(&mut piece);
        let mut piece = u64_to_le_bytes(self.offset);
        buf.append(&mut piece);
        let mut piece = u64_to_le_bytes(self.size);
        buf.append(&mut piece);
        let mut piece = u32_to_le_bytes(self.link);
        buf.append(&mut piece);
        let mut piece = u32_to_le_bytes(self.info);
        buf.append(&mut piece);
        let mut piece = u64_to_le_bytes(self.address_align);
        buf.append(&mut piece);
        let mut piece = u64_to_le_bytes(self.entry_size);
        buf.append(&mut piece);
        proof {
            assert(buf@ =~= spec_section_header_bytes(*self));
            lemma_section_header_bytes_len(*self);
        }
        buf
    }
}

/// A section: its header record and its raw payload.
#[derive(Debug)]
pub struct Section {
    pub header: SectionHeader,
    pub data: Vec<u8>,
}

/// The mathematical value of a section.
pub struct SectionView {
    pub header: SectionHeader,
    pub data: Seq<u8>,
}

impl View for Section {
    type V = SectionView;

    open spec fn view(&self) -> SectionView {
        SectionView { header: self.header, data: self.data@ }
    }
}

// ---------------------------------------------------------------------------
// String table
// ---------------------------------------------------------------------------

/// An append-only buffer of NUL-terminated strings; entries are referenced by
/// the byte offset at which they were inserted.
pub struct Strtab {
    pub buf: Vec<u8>,
}

impl Strtab {
    pub fn new() -> (r: Strtab)
        ensures
            r.buf@ == Seq::<u8>::empty(),
    {
        Strtab { buf: Vec::new() }
    }

    /// Appends the UTF-8 bytes of `data` and a NUL terminator; returns the
    /// offset of the start of the new entry.
    pub fn append(&mut self, data: String) -> (r: usize)
        ensures
            r == old(self).buf@.len(),
            final(self).buf@ == old(self).buf@ + encode_utf8(data@) + seq![0u8],
    {
        let index = self.buf.len();
        extend_bytes(&mut self.buf, data.as_str().as_bytes());
        self.buf.push(0);
        proof {
            assert(self.buf@ =~= old(self).buf@ + encode_utf8(data@) + seq![0u8]);
        }
        index
    }
}

// ---------------------------------------------------------------------------
// Symbol table entries
// ---------------------------------------------------------------------------

/// One ELF64 symbol-table entry.
#[derive(Clone, Copy, Debug, PartialEq, Eq)]
pub struct SymEntry {
    pub name: u32,
    pub info: u8,
    pub other: u8,
    pub index: u16,
    pub value: u64,
    pub size: u64,
}

/// The 24 bytes of a symbol-table entry on disk.
pub open spec fn spec_sym_entry_bytes(e: SymEntry) -> Seq<u8> {
    spec_u32_to_le_bytes(e.name) + seq![e.info, e.other] + spec_u16_to_le_bytes(e.index)
        + spec_u64_to_le_bytes(e.value) + spec_u64_to_le_bytes(e.size)
}

/// The byte length of a serialized symbol-table entry is exactly
/// `SYM_ENTRY_LEN`.
pub proof fn lemma_sym_entry_bytes_len(e: SymEntry)
    ensures
        spec_sym_entry_bytes(e).len() == SYM_ENTRY_LEN,
{
    vstd::bytes::lemma_auto_spec_u16_to_from_le_bytes();
    vstd::bytes::lemma_auto_spec_u32_to_from_le_bytes();
    vstd::bytes::lemma_auto_spec_u64_to_from_le_bytes();
}

impl SymEntry {
    /// Serializes the entry to its on-disk 24-byte form.
    pub fn to_bytes(&self) -> (r: Vec<u8>)
        ensures
            r@ == spec_sym_entry_bytes(*self),
            r@.len() == SYM_ENTRY_LEN,
    {
        let mut buf: Vec<u8> = Vec::new();
        let mut piece = u32_to_le_bytes(self.name);
        buf.append(&mut piece);
        buf.push(self.info);
        buf.push(self.other);
        let mut piece = u16_to_le_bytes(self.index);
        buf.append(&mut piece);
        let mut piece = u64_to_le_bytes(self.value);
        buf.append(&mut piece);
        let mut piece = u64_to_le_bytes(self.size);
        buf.append(&mut piece);
        proof {
            assert(buf@ =~= spec_sym_entry_bytes(*self));
            lemma_sym_entry_bytes_len(*self);
        }
        buf
    }
}

// ---------------------------------------------------------------------------
// The object writer
// ---------------------------------------------------------------------------

/// The assembled object: a header and the fixed five-section list
/// (null, `.text`, `.shstrtab`, `.symtab`, `.strtab`, in that order).
pub struct Elf {
    pub header: Header,
    pub sections: Vec<Section>,
}

/// The mathematical value of an assembled object.
pub struct ElfView {
    pub header: Header,
    pub sections: Seq<SectionView>,
}

impl View for Elf {
    type V = ElfView;

    open spec fn view(&self) -> ElfView {
        ElfView { header: self.header, sections: self.sections@.map_values(|s: Section| s@) }
    }
}

/// The default header before finalization: ELF64, little-endian,
/// relocatable, x86-64, with the section-header table right after the header.
pub open spec fn spec_default_header() -> Header {
    Header {
        ident: 0x7f454c46_02010100_00000000_00000000u128,
        typ: 0x01,
        machine: 0x3e,
        version: 0x01,
        entry: 0,
        program_header_offset: 0,
        section_header_offset: ELF_HEADER_LEN as u64,
        flags: 0x00,
        header_size: ELF_HEADER_LEN as u16,
        program_header_size: 0,
        program_header_num: 0,
        section_header_size: SECTION_HEADER_LEN as u16,
        section_header_num: 0,
        str_index: 0,
    }
}

/// The section-name string table: the five section names in section order,
/// starting with the empty name of the null section.
pub open spec fn spec_shstrtab_data() -> Seq<u8> {
    seq![0u8] + encode_utf8(".text"@) + seq![0u8] + encode_utf8(".shstrtab"@) + seq![0u8]
        + encode_utf8(".symtab"@) + seq![0u8] + encode_utf8(".strtab"@) + seq![0u8]
}

/// The symbol-name string table: the two fixed symbol names.
pub open spec fn spec_strtab_data() -> Seq<u8> {
    encode_utf8(".text"@) + seq![0u8] + encode_utf8("_start"@) + seq![0u8]
}

/// The symbol table payload: a section symbol for `.text` and a global
/// `_start`, both bound to the text section.
pub open spec fn spec_symtab_data() -> Seq<u8> {
    spec_sym_entry_bytes(
        SymEntry { name: 0, info: 0x03, other: 0, index: 0x01, value: 0, size: 0 },
    ) + spec_sym_entry_bytes(
        SymEntry { name: 6, info: 0x10, other: 0, index: 0x01, value: 0, size: 0 },
    )
}

/// The freshly constructed object for a machine-code buffer: the fixed five
/// sections with their name offsets into the section-name table, the program
/// bytes as the `.text` payload, and the symbol table linked to the `.strtab`
/// position in the fixed layout.
pub open spec fn spec_initial_elf(program: Seq<u8>) -> ElfView {
    ElfView {
        header: spec_default_header(),
        sections: seq![
            SectionView {
                header: (SectionHeader {
                    name: 0,
                    typ: 0,
                    flags: 0,
                    address: 0,
                    offset: 0,
                    size: 0,
                    link: 0,
                    info: 0,
                    address_align: 0,
                    entry_size: 0,
                }),
                data: Seq::empty(),
            },
            SectionView {
                header: (SectionHeader {
                    name: 1,
                    typ: 0x01,
                    flags: 0x06,
                    address: 0,
                    offset: 0,
                    size: 0,
                    link: 0,
                    info: 0,
                    address_align: 0x01,
                    entry_size: 0,
                }),
                data: program,
            },
            SectionView {
                header: (SectionHeader {
                    name: 7,
                    typ: 0x03,
                    flags: 0,
                    address: 0,
                    offset: 0,
                    size: 0,
                    link: 0,
                    info: 0,
                    address_align: 0x01,
                    entry_size: 0,
                }),
                data: spec_shstrtab_data(),
            },
            SectionView {
                header: (SectionHeader {
                    name: 17,
                    typ: 0x02,
                    flags: 0,
                    address: 0,
                    offset: 0,
                    size: 0,
                    link: 0x04,
                    info: 0x01,
                    address_align: 0x08,
                    entry_size: SYM_ENTRY_LEN as u64,
                }),
                data: spec_symtab_data(),
            },
            SectionView {
                header: (SectionHeader {
                    name: 25,
                    typ: 0x03,
                    flags: 0,
                    address: 0,
                    offset: 0,
                    size: 0,
                    link: 0,
                    info: 0,
                    address_align: 0x01,
                    entry_size: 0,
                }),
                data: spec_strtab_data(),
            },
        ],
    }
}

/// The summed payload length of the non-null sections before position `k`.
pub open spec fn spec_prefix_payload(ss: Seq<SectionView>, k: int) -> int
    decreases k,
{
    if k <= 0 {
        0
    } else {
        spec_prefix_payload(ss, k - 1) + (if ss[k - 1].header.typ != 0 {
            ss[k - 1].data.len() as int
        } else {
            0
        })
    }
}

/// The file offset at which payloads begin: right after the header and the
/// section-header table.
pub open spec fn spec_layout_base(n: int) -> int {
    ELF_HEADER_LEN + SECTION_HEADER_LEN * n
}

/// The whole file size once offsets are laid out.
pub open spec fn spec_total_size(e: ElfView) -> int {
    spec_layout_base(e.sections.len() as int) + spec_prefix_payload(
        e.sections,
        e.sections.len() as int,
    )
}

/// The layout pass: every non-null section receives its payload length as its
/// size and a file offset contiguous with the sections before it; the null
/// section stays all zero.
pub open spec fn spec_update_offsets(e: ElfView) -> ElfView {
    ElfView {
        header: e.header,
        sections: Seq::new(
            e.sections.len(),
            |k: int|
                if e.sections[k].header.typ == 0 {
                    e.sections[k]
                } else {
                    SectionView {
                        header: (SectionHeader {
                            size: e.sections[k].data.len() as u64,
                            offset: (spec_layout_base(e.sections.len() as int)
                                + spec_prefix_payload(e.sections, k)) as u64,
                            ..e.sections[k].header
                        }),
                        data: e.sections[k].data,
                    }
                },
        ),
    }
}

/// Finalization: the header learns the section count and the position of the
/// section-name table, then offsets are laid out.
pub open spec fn spec_generate(e: ElfView) -> ElfView {
    spec_update_offsets(
        ElfView {
            header: (Header {
                section_header_num: e.sections.len() as u16,
                str_index: 0x02,
                ..e.header
            }),
            sections: e.sections,
        },
    )
}

/// The serialized object: the header, then every section header in order,
/// then every payload in order, with no padding between regions.
pub open spec fn spec_section_headers_bytes(ss: Seq<SectionView>, k: int) -> Seq<u8>
    decreases k,
{
    if k <= 0 {
        Seq::empty()
    } else {
        spec_section_headers_bytes(ss, k - 1) + spec_section_header_bytes(ss[k - 1].header)
    }
}

/// The concatenated payloads of the first `k` sections.
pub open spec fn spec_sections_data(ss: Seq<SectionView>, k: int) -> Seq<u8>
    decreases k,
{
    if k <= 0 {
        Seq::empty()
    } else {
        spec_sections_data(ss, k - 1) + ss[k - 1].data
    }
}

/// The full serialized object.
pub open spec fn spec_elf_bytes(e: ElfView) -> Seq<u8> {
    spec_header_bytes(e.header) + spec_section_headers_bytes(e.sections, e.sections.len() as int)
        + spec_sections_data(e.sections, e.sections.len() as int)
}

/// Payload prefix sums never decrease as more sections are counted.
proof fn lemma_prefix_payload_mono(ss: Seq<SectionView>, a: int, b: int)
    requires
        a <= b,
    ensures
        spec_prefix_payload(ss, a) <= spec_prefix_payload(ss, b),
    decreases b - a,
{
    if a < b {
        lemma_prefix_payload_mono(ss, a, b - 1);
    }
}

/// The UTF-8 byte lengths of the fixed section and symbol names.
proof fn lemma_name_lengths()
    ensures
        encode_utf8(""@).len() == 0,
        encode_utf8(".text"@).len() == 5,
        encode_utf8(".shstrtab"@).len() == 9,
        encode_utf8(".symtab"@).len() == 7,
        encode_utf8(".strtab"@).len() == 7,
        encode_utf8("_start"@).len() == 6,
{
    reveal_strlit("");
    reveal_strlit(".text");
    reveal_strlit(".shstrtab");
    reveal_strlit(".symtab");
    reveal_strlit(".strtab");
    reveal_strlit("_start");
    assert(vstd::utf8::is_ascii_chars(""@));
    assert(vstd::utf8::is_ascii_chars(".text"@));
    assert(vstd::utf8::is_ascii_chars(".shstrtab"@));
    assert(vstd::utf8::is_ascii_chars(".symtab"@));
    assert(vstd::utf8::is_ascii_chars(".strtab"@));
    assert(vstd::utf8::is_ascii_chars("_start"@));
    vstd::utf8::is_ascii_chars_encode_utf8(""@);
    vstd::utf8::is_ascii_chars_encode_utf8(".text"@);
    vstd::utf8::is_ascii_chars_encode_utf8(".shstrtab"@);
    vstd::utf8::is_ascii_chars_encode_utf8(".symtab"@);
    vstd::utf8::is_ascii_chars_encode_utf8(".strtab"@);
    vstd::utf8::is_ascii_chars_encode_utf8("_start"@);
}

/// Layout of the finalized object for any machine-code buffer: serialization
/// is a function of the buffer alone; the total output length is the header,
/// the five section headers, and the five payloads, nothing more; the null
/// section's stored offset and size stay zero; and `.text`, the first
/// non-null section, sits exactly after the header and section-header table.
pub proof fn lemma_object_layout(program: Seq<u8>)
    requires
        spec_total_size(spec_initial_elf(program)) <= usize::MAX,
    ensures
        ({
            let e = spec_generate(spec_initial_elf(program));
            &&& e.sections.len() == 5
            &&& spec_elf_bytes(e).len() == ELF_HEADER_LEN + 5 * SECTION_HEADER_LEN
                + e.sections[0].data.len() + e.sections[1].data.len() + e.sections[2].data.len()
                + e.sections[3].data.len() + e.sections[4].data.len()
            &&& e.sections[0].header.offset == 0
            &&& e.sections[0].header.size == 0
            &&& e.sections[1].header.offset == ELF_HEADER_LEN + 5 * SECTION_HEADER_LEN
            &&& e.sections[1].header.size == program.len()
            &&& e.sections[1].data == program
        }),
{
    let e0 = spec_initial_elf(program);
    let e = spec_generate(e0);
    let ss = e0.sections;
    assert(spec_prefix_payload(ss, 0) == 0);
    assert(ss[0].header.typ == 0);
    assert(spec_prefix_payload(ss, 1) == 0);
    assert(e.sections.len() == 5);
    assert(e.sections[1].header.offset == ELF_HEADER_LEN + 5 * SECTION_HEADER_LEN);
    lemma_header_bytes_len(e.header);
    lemma_section_header_bytes_len(e.sections[0].header);
    lemma_section_header_bytes_len(e.sections[1].header);
    lemma_section_header_bytes_len(e.sections[2].header);
    lemma_section_header_bytes_len(e.sections[3].header);
    lemma_section_header_bytes_len(e.sections[4].header);
    assert(spec_section_headers_bytes(e.sections, 5).len() == 5 * SECTION_HEADER_LEN) by {
        assert(spec_section_headers_bytes(e.sections, 0).len() == 0);
        assert(spec_section_headers_bytes(e.sections, 1).len() == 64);
        assert(spec_section_headers_bytes(e.sections, 2).len() == 128);
        assert(spec_section_headers_bytes(e.sections, 3).len() == 192);
        assert(spec_section_headers_bytes(e.sections, 4).len() == 256);
    }
    assert(spec_sections_data(e.sections, 5).len() == e.sections[0].data.len()
        + e.sections[1].data.len() + e.sections[2].data.len() + e.sections[3].data.len()
        + e.sections[4].data.len()) by {
        assert(spec_sections_data(e.sections, 0).len() == 0);
        assert(spec_sections_data(e.sections, 1) == spec_sections_data(e.sections, 0)
            + e.sections[0].data);
        assert(spec_sections_data(e.sections, 2) == spec_sections_data(e.sections, 1)
            + e.sections[1].data);
        assert(spec_sections_data(e.sections, 3) == spec_sections_data(e.sections, 2)
            + e.sections[2].data);
        assert(spec_sections_data(e.sections, 4) == spec_sections_data(e.sections, 3)
            + e.sections[3].data);
        assert(spec_sections_data(e.sections, 5) == spec_sections_data(e.sections, 4)
            + e.sections[4].data);
    }
}

fn create_elf64_header() -> (h: Header)
    ensures
        h == spec_default_header(),
{
    Header {
        ident: 0x7f454c46_02010100_00000000_00000000u128,
        typ: 0x01,
        machine: 0x3e,
        version: 0x01,
        entry: 0,
        program_header_offset: 0,
        section_header_offset: ELF_HEADER_LEN as u64,
        flags: 0x00,
        header_size: ELF_HEADER_LEN as u16,
        program_header_size: 0,
        program_header_num: 0,
        section_header_size: SECTION_HEADER_LEN as u16,
        section_header_num: 0,
        str_index: 0,
    }
}

fn create_null_section() -> (s: Section)
    ensures
        s.header == (SectionHeader {
            name: 0,
            typ: 0,
            flags: 0,
            address: 0,
            offset: 0,
            size: 0,
            link: 0,
            info: 0,
            address_align: 0,
            entry_size: 0,
        }),
        s.data@ == Seq::<u8>::empty(),
{
    Section {
        header: SectionHeader {
            name: 0,
            typ: 0,
            flags: 0,
            address: 0,
            offset: 0,
            size: 0,
            link: 0,
            info: 0,
            address_align: 0,
            entry_size: 0,
        },
        data: Vec::new(),
    }
}

fn create_text_section() -> (s: Section)
    ensures
        s.header == (SectionHeader {
            name: 0x01,
            typ: 0x01,
            flags: 0x06,
            address: 0,
            offset: 0,
            size: 0,
            link: 0,
            info: 0,
            address_align: 0x01,
            entry_size: 0,
        }),
        s.data@ == Seq::<u8>::empty(),
{
    Section {
        header: SectionHeader {
            name: 0x01,  // first name after the null section's empty name
            typ: 0x01,  // PROGBITS
            flags: 0x06,  // ALLOC + EXEC
            address: 0,
            offset: 0,
            size: 0,
            link: 0,
            info: 0,
            address_align: 0x01,
            entry_size: 0,
        },
        data: Vec::new(),
    }
}

fn create_strtab_section() -> (s: Section)
    ensures
        s.header == (SectionHeader {
            name: 0x07,
            typ: 0x03,
            flags: 0,
            address: 0,
            offset: 0,
            size: 0,
            link: 0,
            info: 0,
            address_align: 0x01,
            entry_size: 0,
        }),
        s.data@ == Seq::<u8>::empty(),
{
    Section {
        header: SectionHeader {
            name: 0x07,
            typ: 0x03,  // STRTAB
            flags: 0,
            address: 0,
            offset: 0,
            size: 0,
            link: 0,
            info: 0,
            address_align: 0x01,
            entry_size: 0,
        },
        data: Vec::new(),
    }
}

fn create_symtable_section() -> (s: Section)
    ensures
        s.header == (SectionHeader {
            name: 17,
            typ: 0x02,
            flags: 0,
            address: 0,
            offset: 0,
            size: 0,
            link: 0,
            info: 0,
            address_align: 0x08,
            entry_size: SYM_ENTRY_LEN as u64,
        }),
        s.data@ == Seq::<u8>::empty(),
{
    Section {
        header: SectionHeader {
            name: 17,
            typ: 0x02,  // SYMTAB
            flags: 0,
            address: 0,
            offset: 0,
            size: 0,
            link: 0,
            info: 0,
            address_align: 0x08,
            entry_size: SYM_ENTRY_LEN as u64,
        },
        data: Vec::new(),
    }
}

impl Elf {
    /// Builds the five-section object around a machine-code buffer: section
    /// names go to the section-name table, the program bytes become `.text`'s
    /// payload, and the symbol table holds the two fixed symbols.
    pub fn new(program: Vec<u8>) -> (r: Elf)
        ensures
            r@ == spec_initial_elf(program@),
    {
        let mut null_section = create_null_section();
        let mut text_section = create_text_section();
        let mut shstrtab_section = create_strtab_section();
        let mut symtab_section = create_symtable_section();
        let mut strtab_section = create_strtab_section();

        proof {
            lemma_name_lengths();
        }
        let mut shstrtab = Strtab::new();
        let n0 = shstrtab.append("".to_owned());
        let n1 = shstrtab.append(".text".to_owned());
        let n2 = shstrtab.append(".shstrtab".to_owned());
        let n3 = shstrtab.append(".symtab".to_owned());
        let n4 = shstrtab.append(".strtab".to_owned());
        null_section.header.name = n0 as u32;
        text_section.header.name = n1 as u32;
        shstrtab_section.header.name = n2 as u32;
        symtab_section.header.name = n3 as u32;
        strtab_section.header.name = n4 as u32;

        text_section.data = program;
        proof {
            assert(shstrtab.buf@ =~= spec_shstrtab_data());
        }
        shstrtab_section.data = shstrtab.buf;

        // The two fixed symbols: the text section itself and a global _start.
        let mut strtab = Strtab::new();

        let mut text_symbol = SymEntry { name: 0, info: 0, other: 0, index: 0, value: 0, size: 0 };
        text_symbol.name = strtab.append(".text".to_owned()) as u32;
        text_symbol.info = 0x03;  // SECTION
        text_symbol.index = 0x01;

        let mut start_symbol = SymEntry { name: 0, info: 0, other: 0, index: 0, value: 0, size: 0 };
        start_symbol.name = strtab.append("_start".to_owned()) as u32;
        start_symbol.info = 0x10;  // GLOBAL
        start_symbol.index = 0x01;

        symtab_section.header.info = 0x01;  // one global symbol
        symtab_section.header.link = 0x04;  // the strtab's position in the fixed layout

        let mut symdata = text_symbol.to_bytes();
        let mut start_bytes = start_symbol.to_bytes();
        symdata.append(&mut start_bytes);
        proof {
            assert(symdata@ =~= spec_symtab_data());
            assert(strtab.buf@ =~= spec_strtab_data());
        }
        symtab_section.data = symdata;
        strtab_section.data = strtab.buf;

        let mut sections: Vec<Section> = Vec::new();
        sections.push(null_section);
        sections.push(text_section);
        sections.push(shstrtab_section);
        sections.push(symtab_section);
        sections.push(strtab_section);

        let r = Elf { header: create_elf64_header(), sections };
        proof {
            assert(r@.sections =~= spec_initial_elf(program@).sections);
            assert(r@ == spec_initial_elf(program@));
        }
        r
    }

    /// Finalizes the object: fixes the section count and the section-name
    /// table index in the header, then lays out file offsets.
    pub fn generate(&mut self)
        requires
            spec_total_size(old(self)@) <= usize::MAX,
            old(self).sections@.len() <= u16::MAX,
        ensures
            final(self)@ == spec_generate(old(self)@),
    {
        let n = self.sections.len();
        self.header.section_header_num = n as u16;
        self.header.str_index = 0x02;
        self.update_offsets();
    }

    /// The layout pass: assigns each non-null section its payload length as
    /// size and a contiguous file offset, starting right after the header and
    /// section-header table.
    pub fn update_offsets(&mut self)
        requires
            spec_total_size(old(self)@) <= usize::MAX,
        ensures
            final(self)@ == spec_update_offsets(old(self)@),
    {
        let n = self.sections.len();
        proof {
            lemma_prefix_payload_mono(old(self)@.sections, 0, n as int);
        }
        let mut offset: usize = ELF_HEADER_LEN + SECTION_HEADER_LEN * n;
        let mut i: usize = 0;
        while i < n
            invariant
                n == self.sections@.len(),
                n == old(self)@.sections.len(),
                self.header == old(self).header,
                i <= n,
                spec_total_size(old(self)@) <= usize::MAX,
                offset == spec_layout_base(n as int) + spec_prefix_payload(
                    old(self)@.sections,
                    i as int,
                ),
                forall|k: int| i <= k < n ==> self.sections@[k] == old(self).sections@[k],
                forall|k: int|
                    0 <= k < i ==> #[trigger] self.sections@[k]@ == spec_update_offsets(
                        old(self)@,
                    ).sections[k],
            decreases n - i,
        {
            let typ = self.sections[i].header.typ;
            if typ != 0 {
                let data_len = self.sections[i].data.len();
                proof {
                    lemma_prefix_payload_mono(old(self)@.sections, i + 1, n as int);
                }
                self.sections[i].header.size = data_len as u64;
                self.sections[i].header.offset = offset as u64;
                offset = offset + data_len;
            }
            i += 1;
        }
        proof {
            assert(self@.sections =~= spec_update_offsets(old(self)@).sections);
            assert(self@ == spec_update_offsets(old(self)@));
        }
    }

    /// Serializes the object: header, all section headers, then all payloads,
    /// in declared order with no padding.
    pub fn to_bytes(&self) -> (r: Vec<u8>)
        ensures
            r@ == spec_elf_bytes(self@),
    {
        let mut buf = self.header.to_bytes();
        let n = self.sections.len();
        proof {
            assert(buf@ =~= spec_header_bytes(self.header) + spec_section_headers_bytes(
                self@.sections,
                0,
            ));
        }
        let mut i: usize = 0;
        while i < n
            invariant
                n == self.sections@.len(),
                i <= n,
                buf@ == spec_header_bytes(self.header) + spec_section_headers_bytes(
                    self@.sections,
                    i as int,
                ),
            decreases n - i,
        {
            let mut piece = self.sections[i].header.to_bytes();
            buf.append(&mut piece);
            i += 1;
        }
        let ghost mid = buf@;
        proof {
            assert(mid + spec_sections_data(self@.sections, 0) =~= mid);
        }
        let mut j: usize = 0;
        while j < n
            invariant
                n == self.sections@.len(),
                j <= n,
                mid == spec_header_bytes(self.header) + spec_section_headers_bytes(
                    self@.sections,
                    n as int,
                ),
                buf@ == mid + spec_sections_data(self@.sections, j as int),
            decreases n - j,
        {
            extend_bytes(&mut buf, self.sections[j].data.as_slice());
            j += 1;
        }
        buf
    }
}

} // verus!
