//! Reads the symbols of a 64-bit ELF file that the profiler symbolizes
//! addresses with: functions, data objects and untyped symbols that have a
//! name, a size and a section of their own.

use object::read::elf::{FileHeader, Sym};
use vstd::prelude::*;
use vstd::utf8::{decode_utf8, valid_utf8};

use crate::binary_object::{BinaryObjectError, Symbol, SymbolView};

verus! {

/// The fields of an ELF symbol table entry that the symbol reader looks at.
#[derive(Debug, Clone, Copy, PartialEq, Eq, Structural)]
pub struct ElfSymbolRecord {
    pub st_name: u32,
    pub st_info: u8,
    pub st_type: u8,
    pub st_shndx: u16,
    pub st_value: u64,
    pub st_size: u64,
}

/// What the `object` crate reads as the `SHT_SYMTAB` symbol table of the
/// 64-bit ELF file `data` through `FileHeader64::parse`, `endian`, `sections`
/// and `SectionTable::symbols` (the first of them that fails gives the error):
/// its entries, the null entry at index 0 included. The crate is
/// built with its `unaligned` feature, so what it reads depends on the bytes
/// alone, not on where they lie in memory.
pub uninterp spec fn elf64_symbol_table(data: Seq<u8>) -> Result<
    Seq<ElfSymbolRecord>,
    object::read::Error,
>;

/// What looking up section `index` in the section table of the 64-bit ELF
/// file `data` gives (`object::read::elf::SectionTable::section`).
pub uninterp spec fn elf64_section_lookup(data: Seq<u8>, index: u16) -> Result<
    (),
    object::read::Error,
>;

/// What the name of symbol `index` of the symbol table of the 64-bit ELF
/// file `data` is, read from its string table (`object::read::elf::Sym::name`).
pub uninterp spec fn elf64_symbol_name(data: Seq<u8>, index: int) -> Result<
    Seq<u8>,
    object::read::Error,
>;

/// The number of section headers of the 64-bit ELF file `data`, as the
/// `object` crate reads its section table (`SectionTable::len`).
pub uninterp spec fn elf64_section_count(data: Seq<u8>) -> nat;

/// What `String::from_utf8_lossy` makes of `bytes`.
pub uninterp spec fn utf8_lossy(bytes: Seq<u8>) -> Seq<char>;

/// Reads the symbol table of `data` with the `object` crate and returns how
/// many entries it has. Trusted: the count and the error are those of
/// `elf64_symbol_table(data)`.
#[verifier::external_body]
fn elf64_symbol_count(data: &[u8]) -> (r: Result<usize, object::read::Error>)
    ensures
        match r {
            Ok(n) => elf64_symbol_table(data@) is Ok && elf64_symbol_table(data@)->Ok_0.len()
                == n,
            Err(e) => elf64_symbol_table(data@) == Err::<Seq<ElfSymbolRecord>, object::read::Error>(
                e,
            ),
        },
{
    let elf = object::elf::FileHeader64::<object::Endianness>::parse(data)?;
    let endian = elf.endian()?;
    let sections = elf.sections(endian, data)?;
    Ok(sections.symbols(endian, data, object::elf::SHT_SYMTAB)?.len())
}

/// Reads entry `index` of the symbol table of `data` with the `object` crate.
/// Trusted: the entry is entry `index` of `elf64_symbol_table(data)`.
#[verifier::external_body]
fn elf64_symbol_record(data: &[u8], index: usize) -> (r: Result<ElfSymbolRecord, object::read::Error>)
    requires
        elf64_symbol_table(data@) is Ok,
        index < elf64_symbol_table(data@)->Ok_0.len(),
    ensures
        r is Ok,
        r->Ok_0 == elf64_symbol_table(data@)->Ok_0[index as int],
{
    let elf = object::elf::FileHeader64::<object::Endianness>::parse(data)?;
    let endian = elf.endian()?;
    let sections = elf.sections(endian, data)?;
    let symbols = sections.symbols(endian, data, object::elf::SHT_SYMTAB)?;
    let sym = &symbols.symbols()[index];
    Ok(ElfSymbolRecord {
        st_name: sym.st_name(endian),
        st_info: sym.st_info(),
        st_type: sym.st_type(),
        st_shndx: sym.st_shndx(endian),
        st_value: sym.st_value(endian),
        st_size: sym.st_size(endian),
    })
}

/// Looks up section `index` of `data` with the `object` crate. Trusted: the
/// outcome is `elf64_section_lookup(data, index)`, and, as the source of
/// `SectionTable::section` shows, it is a success exactly for an index that
/// is not the null section 0 and is below the number of section headers.
#[verifier::external_body]
fn elf64_section_check(data: &[u8], index: u16) -> (r: Result<(), object::read::Error>)
    requires
        elf64_symbol_table(data@) is Ok,
    ensures
        r == elf64_section_lookup(data@, index),
        r is Ok <==> (index != 0 && (index as nat) < elf64_section_count(data@)),
{
    let elf = object::elf::FileHeader64::<object::Endianness>::parse(data)?;
    let endian = elf.endian()?;
    let sections = elf.sections(endian, data)?;
    sections.section(object::SectionIndex(index.into())).map(|_| ())
}

/// Reads the name of symbol `index` of `data` with the `object` crate.
/// Trusted: the outcome is `elf64_symbol_name(data, index)`.
#[verifier::external_body]
fn elf64_symbol_name_bytes(data: &[u8], index: usize) -> (r: Result<Vec<u8>, object::read::Error>)
    requires
        elf64_symbol_table(data@) is Ok,
        index < elf64_symbol_table(data@)->Ok_0.len(),
    ensures
        match r {
            Ok(name) => elf64_symbol_name(data@, index as int) == Ok::<Seq<u8>, object::read::Error>(
                name@,
            ),
            Err(e) => elf64_symbol_name(data@, index as int) == Err::<Seq<u8>, object::read::Error>(
                e,
            ),
        },
{
    let elf = object::elf::FileHeader64::<object::Endianness>::parse(data)?;
    let endian = elf.endian()?;
    let sections = elf.sections(endian, data)?;
    let symbols = sections.symbols(endian, data, object::elf::SHT_SYMTAB)?;
    Ok(symbols.symbols()[index].name(endian, symbols.strings())?.to_vec())
}

/// Converts `bytes` to a string with `String::from_utf8_lossy`. Trusted: the
/// result is `utf8_lossy(bytes)`, and, as the documentation of
/// `from_utf8_lossy` says, the decoded text itself where `bytes` is valid
/// UTF-8.
#[verifier::external_body]
pub(crate) fn utf8_lossy_string(bytes: &[u8]) -> (r: String)
    ensures
        r@ == utf8_lossy(bytes@),
        valid_utf8(bytes@) ==> r@ == decode_utf8(bytes@),
{
    String::from_utf8_lossy(bytes).into_owned()
}

/// ELF symbol types and special section indices.
pub open spec fn stt_notype() -> u8 { 0 }
pub open spec fn stt_object() -> u8 { 1 }
pub open spec fn stt_func() -> u8 { 2 }
pub open spec fn stt_section() -> u8 { 3 }
pub open spec fn stt_gnu_ifunc() -> u8 { 10 }
pub open spec fn shn_undef() -> u16 { 0 }
pub open spec fn shn_abs() -> u16 { 0xfff1 }
pub open spec fn shn_common() -> u16 { 0xfff2 }
pub open spec fn shn_xindex() -> u16 { 0xffff }

/// Whether a symbol table entry is one that the profiler keeps: an untyped
/// symbol, a function (plain or indirect) or a data object, with a name and a
/// size, whose info byte is not that of a section symbol, and that lies in a
/// section of its own (not undefined, absolute, common or an extended index).
pub open spec fn symbol_kept(rec: ElfSymbolRecord) -> bool {
    &&& (rec.st_type == stt_notype() || rec.st_type == stt_func() || rec.st_type
        == stt_gnu_ifunc() || rec.st_type == stt_object())
    &&& rec.st_name != 0
    &&& rec.st_size != 0
    &&& rec.st_info != stt_section()
    &&& rec.st_shndx != shn_undef()
    &&& rec.st_shndx != shn_abs()
    &&& rec.st_shndx != shn_common()
    &&& rec.st_shndx != shn_xindex()
}

/// The symbols read from the first `n` entries of the symbol table of `data`:
/// each kept entry (see [`symbol_kept`]) whose section exists gives a symbol
/// from its value to its value plus its size (wrapping), named by the lossy
/// UTF-8 reading of its name; a missing section or an unreadable name is an
/// error.
pub open spec fn spec_symbols_prefix(data: Seq<u8>, n: nat) -> Result<
    Seq<SymbolView>,
    BinaryObjectError,
>
    decreases n,
{
    if n == 0 {
        Ok(Seq::empty())
    } else {
        match spec_symbols_prefix(data, (n - 1) as nat) {
            Err(e) => Err(e),
            Ok(acc) => {
                let rec = elf64_symbol_table(data)->Ok_0[n - 1];
                if !symbol_kept(rec) {
                    Ok(acc)
                } else {
                    match elf64_section_lookup(data, rec.st_shndx) {
                        Err(e) => Err(BinaryObjectError::ObjectError(e)),
                        Ok(_) => match elf64_symbol_name(data, n - 1) {
                            Err(e) => Err(BinaryObjectError::ObjectError(e)),
                            Ok(name) => Ok(
                                acc.push(
                                    SymbolView {
                                        start: rec.st_value,
                                        end: rec.st_value.wrapping_add(rec.st_size),
                                        symbol: utf8_lossy(name),
                                    },
                                ),
                            ),
                        },
                    }
                }
            },
        }
    }
}

/// The symbols of the 64-bit ELF file `data`.
pub open spec fn spec_elf_symbols(data: Seq<u8>) -> Result<Seq<SymbolView>, BinaryObjectError> {
    match elf64_symbol_table(data) {
        Err(e) => Err(BinaryObjectError::ObjectError(e)),
        Ok(table) => spec_symbols_prefix(data, table.len()),
    }
}

/// The views of a vector of symbols.
pub open spec fn symbol_views(symbols: Seq<Symbol>) -> Seq<SymbolView> {
    symbols.map_values(|s: Symbol| s@)
}

/// Reads the symbols of the 64-bit ELF file whose bytes are `data` (see
/// [`spec_symbols_prefix`]), in the order of the symbol table.
pub fn elf_symbols(data: &[u8]) -> (r: Result<Vec<Symbol>, BinaryObjectError>)
    ensures
        match spec_elf_symbols(data@) {
            Ok(symbols) => r is Ok && symbol_views(r->Ok_0@) == symbols,
            Err(e) => r is Err && r->Err_0 == e,
        },
{
    let count = match elf64_symbol_count(data) {
        Ok(n) => n,
        Err(e) => return Err(BinaryObjectError::ObjectError(e)),
    };
    let mut symbol_vec: Vec<Symbol> = Vec::new();
    let mut i: usize = 0;
    proof {
        assert(symbol_views(symbol_vec@) =~= Seq::<SymbolView>::empty());
    }
    while i < count
        invariant
            elf64_symbol_table(data@) is Ok,
            count == elf64_symbol_table(data@)->Ok_0.len(),
            i <= count,
            spec_symbols_prefix(data@, i as nat) == Ok::<Seq<SymbolView>, BinaryObjectError>(
                symbol_views(symbol_vec@),
            ),
        decreases count - i,
    {
        let rec = match elf64_symbol_record(data, i) {
            Ok(rec) => rec,
            Err(e) => return Err(BinaryObjectError::ObjectError(e)),
        };
        let wanted_type = rec.st_type == 0 || rec.st_type == 2 || rec.st_type == 10
            || rec.st_type == 1;
        let special_section = rec.st_shndx == 0 || rec.st_shndx == 0xfff1 || rec.st_shndx
            == 0xfff2 || rec.st_shndx == 0xffff;
        if !wanted_type || rec.st_name == 0 || rec.st_size == 0 || rec.st_info == 3
            || special_section {
            i = i + 1;
            continue;
        }
        match elf64_section_check(data, rec.st_shndx) {
            Ok(()) => {},
            Err(e) => {
                proof {
                    lemma_symbols_prefix_err(data@, (i + 1) as nat, count as nat);
                }
                return Err(BinaryObjectError::ObjectError(e));
            },
        }
        let name = match elf64_symbol_name_bytes(data, i) {
            Ok(name) => name,
            Err(e) => {
                proof {
                    lemma_symbols_prefix_err(data@, (i + 1) as nat, count as nat);
                }
                return Err(BinaryObjectError::ObjectError(e));
            },
        };
        let start = rec.st_value;
        let end = start.wrapping_add(rec.st_size);
        let symbol = Symbol::new(start, end, utf8_lossy_string(name.as_slice()));
        let ghost prev = symbol_vec@;
        let ghost view = symbol@;
        symbol_vec.push(symbol);
        proof {
            assert(symbol_views(symbol_vec@) =~= symbol_views(prev).push(view));
        }
        i = i + 1;
    }
    Ok(symbol_vec)
}

proof fn lemma_symbols_prefix_err(data: Seq<u8>, from: nat, to: nat)
    requires
        from <= to,
        spec_symbols_prefix(data, from) is Err,
    ensures
        spec_symbols_prefix(data, to) == spec_symbols_prefix(data, from),
    decreases to - from,
{
    if from < to {
        lemma_symbols_prefix_err(data, from, (to - 1) as nat);
    }
}

proof fn lemma_symbols_prefix_facts(data: Seq<u8>, n: nat)
    requires
        elf64_symbol_table(data) is Ok,
        n <= elf64_symbol_table(data)->Ok_0.len(),
        spec_symbols_prefix(data, n) is Ok,
    ensures
        spec_symbols_prefix(data, n)->Ok_0.len() <= n,
        forall|i: int|
            0 <= i < spec_symbols_prefix(data, n)->Ok_0.len() ==> (#[trigger] spec_symbols_prefix(
                data,
                n,
            )->Ok_0[i]).start != spec_symbols_prefix(data, n)->Ok_0[i].end,
    decreases n,
{
    if n > 0 {
        lemma_symbols_prefix_facts(data, (n - 1) as nat);
        let rec = elf64_symbol_table(data)->Ok_0[n - 1];
        if symbol_kept(rec) {
            let v = rec.st_value;
            let sz = rec.st_size;
            assert(v.wrapping_add(sz) != v);
        }
    }
}

/// Every symbol read covers at least one address (its end differs from its
/// start), and there are no more symbols than symbol table entries.
pub proof fn law_symbols_cover_addresses(data: Seq<u8>)
    requires
        spec_elf_symbols(data) is Ok,
    ensures
        spec_elf_symbols(data)->Ok_0.len() <= elf64_symbol_table(data)->Ok_0.len(),
        forall|i: int|
            0 <= i < spec_elf_symbols(data)->Ok_0.len() ==> (#[trigger] spec_elf_symbols(
                data,
            )->Ok_0[i]).start != spec_elf_symbols(data)->Ok_0[i].end,
{
    lemma_symbols_prefix_facts(data, elf64_symbol_table(data)->Ok_0.len());
}


/// Whether a symbol table entry is one that the profiler symbolizes with,
/// written out field by field: of type NOTYPE, OBJECT, FUNC or GNU_IFUNC, with
/// a name and a size, an info byte other than that of a section symbol, and a
/// section index other than UNDEF, ABS, COMMON and XINDEX. Nothing here looks
/// at the binding (the high four bits of the info byte).
pub open spec fn wanted_entry(rec: ElfSymbolRecord) -> bool {
    &&& (rec.st_type == 0 || rec.st_type == 1 || rec.st_type == 2 || rec.st_type == 10)
    &&& rec.st_name != 0
    &&& rec.st_size != 0
    &&& rec.st_info != 3
    &&& rec.st_shndx != 0
    &&& rec.st_shndx != 0xfff1
    &&& rec.st_shndx != 0xfff2
    &&& rec.st_shndx != 0xffff
}

proof fn lemma_prefix_ok_below(data: Seq<u8>, m: nat, n: nat)
    requires
        m <= n,
        spec_symbols_prefix(data, n) is Ok,
    ensures
        spec_symbols_prefix(data, m) is Ok,
    decreases n - m,
{
    if m < n {
        lemma_prefix_ok_below(data, m, (n - 1) as nat);
    }
}

proof fn lemma_wanted_entry_in_prefix(data: Seq<u8>, k: int, n: nat)
    requires
        elf64_symbol_table(data) is Ok,
        0 <= k < n,
        n <= elf64_symbol_table(data)->Ok_0.len(),
        spec_symbols_prefix(data, n) is Ok,
        wanted_entry(elf64_symbol_table(data)->Ok_0[k]),
    ensures
        elf64_symbol_name(data, k) is Ok,
        exists|j: int|
            0 <= j < spec_symbols_prefix(data, n)->Ok_0.len() && #[trigger] spec_symbols_prefix(
                data,
                n,
            )->Ok_0[j] == (SymbolView {
                start: elf64_symbol_table(data)->Ok_0[k].st_value,
                end: elf64_symbol_table(data)->Ok_0[k].st_value.wrapping_add(
                    elf64_symbol_table(data)->Ok_0[k].st_size,
                ),
                symbol: utf8_lossy(elf64_symbol_name(data, k)->Ok_0),
            }),
    decreases n,
{
    let rec = elf64_symbol_table(data)->Ok_0[k];
    let view = SymbolView {
        start: rec.st_value,
        end: rec.st_value.wrapping_add(rec.st_size),
        symbol: utf8_lossy(elf64_symbol_name(data, k)->Ok_0),
    };
    lemma_prefix_ok_below(data, (n - 1) as nat, n);
    let acc = spec_symbols_prefix(data, (n - 1) as nat)->Ok_0;
    if k == n - 1 {
        assert(symbol_kept(rec));
        assert(spec_symbols_prefix(data, n)->Ok_0 == acc.push(view));
        assert(spec_symbols_prefix(data, n)->Ok_0[acc.len() as int] == view);
    } else {
        lemma_wanted_entry_in_prefix(data, k, (n - 1) as nat);
        let j = choose|j: int|
            0 <= j < acc.len() && #[trigger] spec_symbols_prefix(data, (n - 1) as nat)->Ok_0[j]
                == view;
        let out = spec_symbols_prefix(data, n)->Ok_0;
        assert(out.len() >= acc.len() && out[j] == acc[j]);
        assert(out[j] == view);
    }
}

/// Every symbol table entry of type NOTYPE, OBJECT, FUNC or GNU_IFUNC, with a
/// name and a size, an info byte other than STT_SECTION and a regular section
/// gives a symbol from its value to its value plus its size, named by its
/// name, whatever its binding (local, global or weak).
pub proof fn law_wanted_entries_give_symbols(data: Seq<u8>, k: int)
    requires
        spec_elf_symbols(data) is Ok,
        0 <= k < elf64_symbol_table(data)->Ok_0.len(),
        wanted_entry(elf64_symbol_table(data)->Ok_0[k]),
    ensures
        elf64_symbol_name(data, k) is Ok,
        exists|j: int|
            0 <= j < spec_elf_symbols(data)->Ok_0.len() && #[trigger] spec_elf_symbols(
                data,
            )->Ok_0[j] == (SymbolView {
                start: elf64_symbol_table(data)->Ok_0[k].st_value,
                end: elf64_symbol_table(data)->Ok_0[k].st_value.wrapping_add(
                    elf64_symbol_table(data)->Ok_0[k].st_size,
                ),
                symbol: utf8_lossy(elf64_symbol_name(data, k)->Ok_0),
            }),
{
    lemma_wanted_entry_in_prefix(data, k, elf64_symbol_table(data)->Ok_0.len());
}

} // verus!
