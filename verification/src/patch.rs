//! The startup-record patch: scanning the symbol table for the embedded
//! vtable region and rewriting the `bss_start` and `bss_size` fields of the
//! 40-byte record at the head of the crt section.
use vstd::prelude::*;
use crate::bytes::{le4, le_val_at, push_u32_le, read_u32_le};
use crate::types::{seq_contains, unnamed_marker, unnamed_marker_vec, contains_marker, Symbol, TbfError};

verus! {

/// The startup record is ten 4-byte fields: 40 bytes.
pub const CRT_RECORD_LEN: usize = 40;

/// Byte offset of the `data_start` field inside the startup record.
pub const CRT_DATA_START_OFFSET: usize = 16;

/// Byte offset of the `bss_start` field inside the startup record.
pub const CRT_BSS_START_OFFSET: usize = 24;

/// A symbol counts towards the vtable region when its name holds the
/// "unnamed" marker.
pub open spec fn unnamed_sym(s: Symbol) -> bool {
    seq_contains(s.name@, unnamed_marker())
}

/// Total size of the vtable symbols among the first `i` symbols.
pub open spec fn vtable_size_upto(symbols: Seq<Symbol>, i: int) -> int
    decreases i,
{
    if i <= 0 {
        0
    } else {
        vtable_size_upto(symbols, i - 1)
            + if unnamed_sym(symbols[i - 1]) { symbols[i - 1].size as int } else { 0 }
    }
}

/// The value of the first vtable symbol at or after index `i`; zero when
/// there is none.
pub open spec fn vtable_offset_from(symbols: Seq<Symbol>, i: int) -> int
    decreases symbols.len() - i,
{
    if i < 0 || i >= symbols.len() {
        0
    } else if unnamed_sym(symbols[i]) {
        symbols[i].value as int
    } else {
        vtable_offset_from(symbols, i + 1)
    }
}

/// Prefix sums of vtable symbol sizes grow monotonically.
pub proof fn lemma_vtable_size_monotone(symbols: Seq<Symbol>, i: int, j: int)
    requires
        i <= j,
    ensures
        vtable_size_upto(symbols, i) <= vtable_size_upto(symbols, j),
    decreases j - i,
{
    if i < j {
        lemma_vtable_size_monotone(symbols, i, j - 1);
    }
}

/// Scans the symbol table for vtable ("unnamed") symbols. Returns the value
/// of the first match — zero when there is none — and the total size of all
/// matches.
pub fn scan_vtable_symbols(symbols: &Vec<Symbol>) -> (r: (u64, u64))
    requires
        vtable_size_upto(symbols@, symbols@.len() as int) <= u64::MAX,
    ensures
        r.0 as int == vtable_offset_from(symbols@, 0),
        r.1 as int == vtable_size_upto(symbols@, symbols@.len() as int),
{
    let marker = unnamed_marker_vec();
    let mut offset: u64 = 0;
    let mut size: u64 = 0;
    let mut first = true;
    let mut i: usize = 0;
    while i < symbols.len()
        invariant
            marker@ == unnamed_marker(),
            i <= symbols@.len(),
            vtable_size_upto(symbols@, symbols@.len() as int) <= u64::MAX,
            size as int == vtable_size_upto(symbols@, i as int),
            first ==> vtable_offset_from(symbols@, 0) == vtable_offset_from(symbols@, i as int),
            !first ==> offset as int == vtable_offset_from(symbols@, 0),
            first ==> offset == 0,
        decreases symbols@.len() - i,
    {
        let s = &symbols[i];
        if contains_marker(&s.name, &marker) {
            proof {
                lemma_vtable_size_monotone(symbols@, i + 1, symbols@.len() as int);
            }
            size = size + s.size;
            if first {
                offset = s.value;
                first = false;
            }
        }
        i += 1;
    }
    proof {
        if first {
            assert(vtable_offset_from(symbols@, symbols@.len() as int) == 0);
        }
    }
    (offset, size)
}

/// The startup record `data`, its `bss_start` field replaced by the vtable
/// offset minus the record's own `data_start` field (wrapping, truncated to
/// 32 bits) and its `bss_size` field replaced by the vtable size (truncated
/// to 32 bits). All other bytes pass through unchanged.
pub open spec fn patched_crt(data: Seq<u8>, vtable_offset: int, vtable_size: int) -> Seq<u8> {
    let bss_start = (vtable_offset - le_val_at(data, 16)) % 0x1_0000_0000;
    let bss_size = vtable_size % 0x1_0000_0000;
    data.subrange(0, 24) + le4(bss_start) + le4(bss_size) + data.subrange(32, 40)
}

/// Builds the patched copy of a startup record of exact length.
pub(crate) fn patch_crt_record(data: &Vec<u8>, vtable_offset: u64, vtable_size: u64) -> (r: Vec<u8>)
    requires
        data@.len() == CRT_RECORD_LEN,
    ensures
        r@ == patched_crt(data@, vtable_offset as int, vtable_size as int),
        r@.len() == CRT_RECORD_LEN,
{
    let ds = read_u32_le(data, CRT_DATA_START_OFFSET);
    let dsl = ds as u64;
    let diff: u64 = if vtable_offset >= dsl {
        vtable_offset - dsl
    } else {
        (u64::MAX - dsl) + 1 + vtable_offset
    };
    proof {
        if vtable_offset < dsl {
            vstd::arithmetic::div_mod::lemma_mod_multiples_vanish(
                0x1_0000_0000,
                vtable_offset as int - dsl as int,
                0x1_0000_0000,
            );
            assert(0x1_0000_0000int * 0x1_0000_0000 + (vtable_offset as int - dsl as int)
                == diff as int);
        }
    }
    let bss_start = (diff % 0x1_0000_0000) as u32;
    let bss_size = (vtable_size % 0x1_0000_0000) as u32;
    let mut out: Vec<u8> = Vec::new();
    let mut i: usize = 0;
    while i < CRT_BSS_START_OFFSET
        invariant
            i <= 24,
            data@.len() == 40,
            out@ == data@.subrange(0, i as int),
        decreases 24 - i,
    {
        out.push(data[i]);
        i += 1;
        proof {
            assert(data@.subrange(0, i - 1).push(data@[i - 1]) =~= data@.subrange(0, i as int));
        }
    }
    push_u32_le(&mut out, bss_start);
    push_u32_le(&mut out, bss_size);
    let ghost mid = data@.subrange(0, 24) + le4(bss_start as int) + le4(bss_size as int);
    let mut j: usize = 32;
    while j < CRT_RECORD_LEN
        invariant
            32 <= j <= 40,
            data@.len() == 40,
            out@ == mid + data@.subrange(32, j as int),
        decreases 40 - j,
    {
        out.push(data[j]);
        j += 1;
        proof {
            assert(mid + data@.subrange(32, j - 1) + seq![data@[j - 1]]
                =~= mid + data@.subrange(32, j as int));
        }
    }
    proof {
        assert(bss_start as int == (vtable_offset as int - le_val_at(data@, 16)) % 0x1_0000_0000);
        assert(out@ =~= patched_crt(data@, vtable_offset as int, vtable_size as int));
    }
    out
}

/// Patches the startup record held in the crt section's bytes. The record
/// must fill the section exactly: any other length is rejected, since the
/// raw reinterpretation it stands for would read or write out of bounds.
pub fn patch_crt_header(data: &Vec<u8>, vtable_offset: u64, vtable_size: u64) -> (r: Result<
    Vec<u8>,
    TbfError,
>)
    ensures
        match r {
            Ok(p) => data@.len() == CRT_RECORD_LEN
                && p@ == patched_crt(data@, vtable_offset as int, vtable_size as int),
            Err(e) => data@.len() != CRT_RECORD_LEN && e == TbfError::CrtRecordSizeMismatch,
        },
{
    if data.len() != CRT_RECORD_LEN {
        return Err(TbfError::CrtRecordSizeMismatch);
    }
    Ok(patch_crt_record(data, vtable_offset, vtable_size))
}

} // verus!
