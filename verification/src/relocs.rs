//! Relocation handling: assembling the raw `.rel` companion sections that
//! follow the image body, and the filtered mode that keeps only the offsets
//! of absolute-32 relocations whose targets are text symbols.
use vstd::prelude::*;
use crate::bytes::{append_bytes, bytes_eq, le4, le_val_at, push_u32_le, read_u32_le};
use crate::types::{rel_prefix, rel_prefix_vec, Section};

verus! {

/// The data of the first section named exactly `name`, searching from index
/// `j` on; empty when there is none.
pub open spec fn find_section_data_from(sections: Seq<Section>, name: Seq<u8>, j: int) -> Seq<u8>
    decreases sections.len() - j,
{
    if j < 0 || j >= sections.len() {
        Seq::empty()
    } else if sections[j].name@ == name {
        sections[j].data@
    } else {
        find_section_data_from(sections, name, j + 1)
    }
}

/// The relocation data that accompanies the section named `name`: the
/// contents of the section named ".rel" + `name`, empty when there is none.
pub open spec fn rel_data_for(sections: Seq<Section>, name: Seq<u8>) -> Seq<u8> {
    find_section_data_from(sections, rel_prefix() + name, 0)
}

/// The concatenated relocation data of the first `i` candidate names, in
/// order.
pub open spec fn rel_concat(sections: Seq<Section>, candidates: Seq<Seq<u8>>, i: int) -> Seq<u8>
    decreases i,
{
    if i <= 0 {
        Seq::empty()
    } else {
        rel_concat(sections, candidates, i - 1) + rel_data_for(sections, candidates[i - 1])
    }
}

/// The alignment advisories of the relocation pass: one entry, holding the
/// cursor, for every candidate with relocation data placed while the cursor
/// is not 4-byte aligned.
pub open spec fn rel_advisories(
    sections: Seq<Section>,
    candidates: Seq<Seq<u8>>,
    cursor: u64,
    i: int,
) -> Seq<u64>
    decreases i,
{
    if i <= 0 {
        Seq::empty()
    } else {
        let prev = rel_advisories(sections, candidates, cursor, i - 1);
        if rel_data_for(sections, candidates[i - 1]).len() > 0 && cursor % 4 != 0 {
            prev.push(cursor)
        } else {
            prev
        }
    }
}

/// Copies the data of the first section named exactly `name`.
fn find_section_data(sections: &Vec<Section>, name: &Vec<u8>) -> (r: Vec<u8>)
    ensures
        r@ == find_section_data_from(sections@, name@, 0),
{
    let mut j: usize = 0;
    while j < sections.len()
        invariant
            j <= sections@.len(),
            find_section_data_from(sections@, name@, 0)
                == find_section_data_from(sections@, name@, j as int),
        decreases sections@.len() - j,
    {
        if bytes_eq(&sections[j].name, name) {
            let mut out: Vec<u8> = Vec::new();
            append_bytes(&mut out, &sections[j].data);
            return out;
        }
        j += 1;
    }
    Vec::new()
}

/// Walks the candidate names in order; for each, appends the data of its
/// ".rel"-prefixed companion section (nothing when the companion is absent).
/// Returns the concatenated data, and one advisory per nonempty companion
/// placed while `cursor` — where the block will sit in the image — is not
/// 4-byte aligned.
pub fn assemble_relocations(sections: &Vec<Section>, candidates: &Vec<Vec<u8>>, cursor: u64) -> (r:
    (Vec<u8>, Vec<u64>))
    ensures
        r.0@ == rel_concat(
            sections@,
            candidates@.map_values(|v: Vec<u8>| v@),
            candidates@.len() as int,
        ),
        r.1@ == rel_advisories(
            sections@,
            candidates@.map_values(|v: Vec<u8>| v@),
            cursor,
            candidates@.len() as int,
        ),
{
    let ghost cand_names = candidates@.map_values(|v: Vec<u8>| v@);
    let mut out: Vec<u8> = Vec::new();
    let mut advisories: Vec<u64> = Vec::new();
    let mut i: usize = 0;
    while i < candidates.len()
        invariant
            i <= candidates@.len(),
            cand_names == candidates@.map_values(|v: Vec<u8>| v@),
            out@ == rel_concat(sections@, cand_names, i as int),
            advisories@ == rel_advisories(sections@, cand_names, cursor, i as int),
        decreases candidates@.len() - i,
    {
        let mut rel_name = rel_prefix_vec();
        append_bytes(&mut rel_name, &candidates[i]);
        proof {
            assert(rel_name@ == rel_prefix() + cand_names[i as int]);
        }
        let data = find_section_data(sections, &rel_name);
        if data.len() > 0 && cursor % 4 != 0 {
            advisories.push(cursor);
        }
        append_bytes(&mut out, &data);
        i += 1;
    }
    (out, advisories)
}

/// What a relocation record's info field selects: an absolute 32-bit
/// relocation, or anything else.
#[derive(Clone, Copy, Debug, PartialEq, Eq, Structural)]
pub enum RelocationType {
    /// An absolute 32-bit relocation.
    Abs32,
    /// Any other relocation kind.
    Other,
}

/// The relocation type an info word selects: its low byte picks `Abs32`
/// when it is 2.
pub open spec fn relocation_type_spec(info: u32) -> RelocationType {
    if info & 0xFF == 2 {
        RelocationType::Abs32
    } else {
        RelocationType::Other
    }
}

/// Decodes the relocation type from a record's info word.
pub fn get_relocation_type(info: u32) -> (r: RelocationType)
    ensures
        r == relocation_type_spec(info),
{
    if info & 0xFF == 2 {
        RelocationType::Abs32
    } else {
        RelocationType::Other
    }
}

/// An address points into the text region when its top bit is set.
pub open spec fn text_symbol_spec(address: u32) -> bool {
    address & 0x8000_0000 != 0
}

/// Reports whether an address points into the text region.
pub fn is_text_symbol(address: u32) -> (r: bool)
    ensures
        r == text_symbol_spec(address),
        r == (address >= 0x8000_0000),
{
    proof {
        assert((address & 0x8000_0000u32 != 0) == (address >= 0x8000_0000u32)) by (bit_vector);
    }
    address & 0x8000_0000 != 0
}

/// The 32-bit word at word index `k` of `data`, little-endian.
pub open spec fn word_at(data: Seq<u8>, k: int) -> int {
    le_val_at(data, 4 * k)
}

/// The number of (address, info) record pairs in a relocation section.
pub open spec fn reloc_pair_count(rel_section: Section) -> int {
    (rel_section.data@.len() as int / 4) / 2
}

/// Every relocation record of `rel_section` points into `section`: its
/// address is at or above the section's load address, and the word it
/// selects lies within the section's data.
pub open spec fn relocs_in_range(section: Section, rel_section: Section) -> bool {
    forall|i: int| 0 <= i < reloc_pair_count(rel_section) ==> {
        let a = #[trigger] word_at(rel_section.data@, 2 * i);
        a >= section.addr && (a - section.addr) / 4 < section.data@.len() as int / 4
    }
}

/// The filtered relocation output for the first `i` record pairs: the
/// section-relative offset of every record that is an absolute-32
/// relocation of a word holding a text-symbol address, each as four
/// little-endian bytes, in record order.
pub open spec fn filtered_relocs(section: Section, rel_section: Section, i: int) -> Seq<u8>
    decreases i,
{
    if i <= 0 {
        Seq::empty()
    } else {
        let prev = filtered_relocs(section, rel_section, i - 1);
        let a = word_at(rel_section.data@, 2 * (i - 1));
        let info = word_at(rel_section.data@, 2 * (i - 1) + 1);
        let off = a - section.addr;
        let value = word_at(section.data@, off / 4);
        if value >= 0x8000_0000 && info % 256 == 2 {
            prev + le4(off)
        } else {
            prev
        }
    }
}

/// The filtered relocation mode: scans the (address, info) record pairs of
/// `rel_section`, and collects the section-relative offset of every
/// absolute-32 record whose addressed word holds a text-symbol address,
/// little-endian. Both sections must be 4-byte aligned — the raw
/// reinterpretation this stands for is rejected otherwise — and every record
/// must point into `section`.
pub fn produce_relocs(section: &Section, rel_section: &Section) -> (r: Vec<u8>)
    requires
        section.addralign % 4 == 0,
        rel_section.addralign % 4 == 0,
        relocs_in_range(*section, *rel_section),
    ensures
        r@ == filtered_relocs(*section, *rel_section, reloc_pair_count(*rel_section)),
{
    let rel_len = rel_section.data.len();
    let rel_words = rel_len / 4;
    let pairs = rel_words / 2;
    proof {
        vstd::arithmetic::div_mod::lemma_fundamental_div_mod(rel_len as int, 4);
        vstd::arithmetic::div_mod::lemma_fundamental_div_mod(rel_len as int / 4, 2);
    }
    let data_len = section.data.len();
    let mut out: Vec<u8> = Vec::new();
    let mut i: usize = 0;
    while i < pairs
        invariant
            i <= pairs,
            pairs == reloc_pair_count(*rel_section),
            8 * pairs <= rel_len,
            rel_len == rel_section.data@.len(),
            data_len == section.data@.len(),
            relocs_in_range(*section, *rel_section),
            out@ == filtered_relocs(*section, *rel_section, i as int),
        decreases pairs - i,
    {
        proof {
            assert(word_at(rel_section.data@, 2 * (i as int)) >= section.addr
                && (word_at(rel_section.data@, 2 * (i as int)) - section.addr) / 4
                    < section.data@.len() as int / 4);
        }
        let a = read_u32_le(&rel_section.data, 8 * i);
        let info = read_u32_le(&rel_section.data, 8 * i + 4);
        let off = (a as u64 - section.addr) as u32;
        let word_index = (off / 4) as usize;
        proof {
            vstd::arithmetic::div_mod::lemma_fundamental_div_mod(data_len as int, 4);
            vstd::arithmetic::div_mod::lemma_fundamental_div_mod(off as int, 4);
        }
        let value = read_u32_le(&section.data, 4 * word_index);
        let keep = {
            let is_abs = match get_relocation_type(info) {
                RelocationType::Abs32 => true,
                RelocationType::Other => false,
            };
            is_text_symbol(value) && is_abs
        };
        proof {
            assert((info & 0xFF) == (info as u32) % 256) by (bit_vector);
        }
        if keep {
            push_u32_le(&mut out, off);
        }
        i += 1;
    }
    out
}

/// The startup record's bytes with its `got_start` (offset 4) and
/// `got_size` (offset 8) fields replaced.
pub open spec fn crt0_with_got(data: Seq<u8>, rel_start: u32, rel_size: u32) -> Seq<u8> {
    data.subrange(0, 4) + le4(rel_start as int) + le4(rel_size as int)
        + data.subrange(12, data.len() as int)
}

/// Returns a copy of the crt section's contents whose startup record has
/// `got_start` and `got_size` set to the relocation block's placement. The
/// section must hold the full 40-byte record.
pub fn replace_crt0(crt0: &Section, rel_start: u32, rel_size: u32) -> (r: Vec<u8>)
    requires
        crt0.data@.len() >= 40,
    ensures
        r@ == crt0_with_got(crt0.data@, rel_start, rel_size),
{
    let len = crt0.data.len();
    let mut out: Vec<u8> = Vec::new();
    let mut i: usize = 0;
    while i < 4
        invariant
            i <= 4,
            crt0.data@.len() >= 40,
            len == crt0.data@.len(),
            out@ == crt0.data@.subrange(0, i as int),
        decreases 4 - i,
    {
        out.push(crt0.data[i]);
        i += 1;
        proof {
            assert(crt0.data@.subrange(0, i - 1).push(crt0.data@[i - 1])
                =~= crt0.data@.subrange(0, i as int));
        }
    }
    push_u32_le(&mut out, rel_start);
    push_u32_le(&mut out, rel_size);
    let ghost mid = crt0.data@.subrange(0, 4) + le4(rel_start as int) + le4(rel_size as int);
    let mut j: usize = 12;
    while j < len
        invariant
            12 <= j <= len,
            len == crt0.data@.len(),
            out@ == mid + crt0.data@.subrange(12, j as int),
        decreases len - j,
    {
        out.push(crt0.data[j]);
        j += 1;
        proof {
            assert(mid + crt0.data@.subrange(12, j - 1) + seq![crt0.data@[j - 1]]
                =~= mid + crt0.data@.subrange(12, j as int));
        }
    }
    proof {
        assert(out@ =~= crt0_with_got(crt0.data@, rel_start, rel_size));
    }
    out
}

} // verus!
