//! The image builder: walks the sections in placement order, concatenates
//! the contents of every included section — substituting the patched
//! startup record for the crt section — and records the entry-function
//! offset, the writeable-flash-region table and the alignment advisories.
use vstd::prelude::*;
use crate::classify::{inc_size_upto, lemma_inc_size_monotone, lemma_inc_size_nonneg};
use crate::header::FlashRegion;
use crate::patch::{patch_crt_record, patched_crt, CRT_RECORD_LEN};
use crate::sort::order_ok;
use crate::types::{
    contains_marker, crt_marker_vec, crt_sec, included, sections_wf, wfr_marker_vec, wfr_sec,
    Section, TbfError, SHF_ALLOC, SHF_EXECINSTR, SHF_WRITE, SHT_PROGBITS,
};

verus! {

/// The bytes a section contributes to the image: its raw contents, except
/// that the crt section contributes its patched startup record.
pub open spec fn sec_bytes(s: Section, vtable_offset: u64, vtable_size: u64) -> Seq<u8> {
    if crt_sec(s) {
        patched_crt(s.data@, vtable_offset as int, vtable_size as int)
    } else {
        s.data@
    }
}

/// The image body after the first `i` sections of `order`: the contents of
/// every included section so far, in placement order.
pub open spec fn body_upto(
    sections: Seq<Section>,
    order: Seq<usize>,
    vtable_offset: u64,
    vtable_size: u64,
    i: int,
) -> Seq<u8>
    decreases i,
{
    if i <= 0 {
        Seq::empty()
    } else {
        let prev = body_upto(sections, order, vtable_offset, vtable_size, i - 1);
        let s = sections[order[i - 1] as int];
        if included(s) {
            prev + sec_bytes(s, vtable_offset, vtable_size)
        } else {
            prev
        }
    }
}

/// The entry address lies inside the section's virtual-address range.
pub open spec fn entry_in(s: Section, entry: u64) -> bool {
    s.addr <= entry && entry - s.addr < s.size
}

/// The entry-function offset after scanning the first `i` sections: for the
/// last scanned section containing the entry address, the entry address
/// minus the section's virtual address plus the section's position relative
/// to the end of the protected region, truncated to 32 bits; zero when no
/// section contains it.
pub open spec fn init_fn_upto(sections: Seq<Section>, order: Seq<usize>, entry: u64, i: int) -> int
    decreases i,
{
    if i <= 0 {
        0
    } else {
        let s = sections[order[i - 1] as int];
        if entry_in(s, entry) {
            (entry - s.addr + inc_size_upto(sections, order, i - 1)) % 0x1_0000_0000
        } else {
            init_fn_upto(sections, order, entry, i - 1)
        }
    }
}

/// The writeable-flash-region table after the first `i` sections: one entry
/// per included region section, holding its image offset (the protected
/// region plus everything placed before it) and its size.
pub open spec fn regions_upto(
    sections: Seq<Section>,
    order: Seq<usize>,
    protected: int,
    i: int,
) -> Seq<FlashRegion>
    decreases i,
{
    if i <= 0 {
        Seq::empty()
    } else {
        let prev = regions_upto(sections, order, protected, i - 1);
        let s = sections[order[i - 1] as int];
        if included(s) && wfr_sec(s) {
            prev.push(
                FlashRegion {
                    offset: (protected + inc_size_upto(sections, order, i - 1)) as u32,
                    size: s.size as u32,
                },
            )
        } else {
            prev
        }
    }
}

/// The alignment advisories after the first `i` sections: the cursor value
/// for every included section placed while the cursor was not 4-byte
/// aligned.
pub open spec fn misaligned_upto(
    sections: Seq<Section>,
    order: Seq<usize>,
    protected: int,
    i: int,
) -> Seq<u64>
    decreases i,
{
    if i <= 0 {
        Seq::empty()
    } else {
        let prev = misaligned_upto(sections, order, protected, i - 1);
        let s = sections[order[i - 1] as int];
        let cursor = protected + inc_size_upto(sections, order, i - 1);
        if included(s) && cursor % 4 != 0 {
            prev.push(cursor as u64)
        } else {
            prev
        }
    }
}

/// Among the first `i` sections of `order` there is an included crt section
/// whose contents are not exactly the 40-byte startup record.
pub open spec fn bad_crt_upto(sections: Seq<Section>, order: Seq<usize>, i: int) -> bool {
    exists|j: int| 0 <= j < i && {
        let s = sections[#[trigger] order[j] as int];
        included(s) && crt_sec(s) && s.data@.len() != CRT_RECORD_LEN
    }
}

/// Everything the image builder produces.
pub struct ImageBody {
    /// The image body: all included sections' bytes, in placement order.
    pub body: Vec<u8>,
    /// The entry-function offset, relative to the end of the protected
    /// region.
    pub init_fn_offset: u32,
    /// The writeable-flash-region table entries, in placement order.
    pub regions: Vec<FlashRegion>,
    /// The cursor positions at which sections were placed unaligned.
    pub advisories: Vec<u64>,
}

/// With coherent sections and no malformed crt record, the body length is
/// the sum of the included sections' sizes.
pub proof fn lemma_body_len(
    sections: Seq<Section>,
    order: Seq<usize>,
    vtable_offset: u64,
    vtable_size: u64,
    i: int,
)
    requires
        sections_wf(sections),
        order_ok(sections, order),
        0 <= i <= order.len(),
        !bad_crt_upto(sections, order, i),
    ensures
        body_upto(sections, order, vtable_offset, vtable_size, i).len()
            == inc_size_upto(sections, order, i),
    decreases i,
{
    if i > 0 {
        assert(!bad_crt_upto(sections, order, i - 1)) by {
            if bad_crt_upto(sections, order, i - 1) {
                let j = choose|j: int| 0 <= j < i - 1 && {
                    let s = sections[#[trigger] order[j] as int];
                    included(s) && crt_sec(s) && s.data@.len() != CRT_RECORD_LEN
                };
                assert(0 <= j < i);
            }
        }
        lemma_body_len(sections, order, vtable_offset, vtable_size, i - 1);
        let s = sections[order[i - 1] as int];
        if included(s) && crt_sec(s) {
            assert(s.data@.len() == CRT_RECORD_LEN);
        }
    }
}

/// A longer body keeps its prefix byte for byte.
proof fn lemma_body_prefix(
    sections: Seq<Section>,
    order: Seq<usize>,
    vtable_offset: u64,
    vtable_size: u64,
    a: int,
    b: int,
    lo: int,
    hi: int,
)
    requires
        sections_wf(sections),
        order_ok(sections, order),
        0 <= a <= b <= order.len(),
        !bad_crt_upto(sections, order, b),
        0 <= lo <= hi,
        hi <= body_upto(sections, order, vtable_offset, vtable_size, a).len(),
    ensures
        body_upto(sections, order, vtable_offset, vtable_size, b).subrange(lo, hi)
            == body_upto(sections, order, vtable_offset, vtable_size, a).subrange(lo, hi),
    decreases b - a,
{
    if a < b {
        assert(!bad_crt_upto(sections, order, b - 1)) by {
            if bad_crt_upto(sections, order, b - 1) {
                let j = choose|j: int| 0 <= j < b - 1 && {
                    let s = sections[#[trigger] order[j] as int];
                    included(s) && crt_sec(s) && s.data@.len() != CRT_RECORD_LEN
                };
                assert(0 <= j < b);
            }
        }
        lemma_body_prefix(sections, order, vtable_offset, vtable_size, a, b - 1, lo, hi);
        lemma_body_len(sections, order, vtable_offset, vtable_size, b - 1);
        lemma_body_len(sections, order, vtable_offset, vtable_size, a);
        lemma_inc_size_monotone(sections, order, a, b - 1);
        assert(body_upto(sections, order, vtable_offset, vtable_size, b).subrange(lo, hi)
            =~= body_upto(sections, order, vtable_offset, vtable_size, b - 1).subrange(lo, hi));
    }
}

/// Where an included section lands in the image body: the bytes from the
/// sum of the included sizes before it, for its size, are exactly its
/// contribution. Together with the placement order's sortedness this puts
/// the sections in the body in ascending file-offset order.
pub proof fn lemma_section_placement(
    sections: Seq<Section>,
    order: Seq<usize>,
    vtable_offset: u64,
    vtable_size: u64,
    k: int,
)
    requires
        sections_wf(sections),
        order_ok(sections, order),
        0 <= k < order.len(),
        !bad_crt_upto(sections, order, order.len() as int),
        included(sections[order[k] as int]),
    ensures
        body_upto(sections, order, vtable_offset, vtable_size, order.len() as int).subrange(
            inc_size_upto(sections, order, k),
            inc_size_upto(sections, order, k) + sections[order[k] as int].size,
        ) == sec_bytes(sections[order[k] as int], vtable_offset, vtable_size),
{
    let n = order.len() as int;
    let s = sections[order[k] as int];
    assert(!bad_crt_upto(sections, order, k + 1)) by {
        if bad_crt_upto(sections, order, k + 1) {
            let j = choose|j: int| 0 <= j < k + 1 && {
                let t = sections[#[trigger] order[j] as int];
                included(t) && crt_sec(t) && t.data@.len() != CRT_RECORD_LEN
            };
            assert(0 <= j < n);
        }
    }
    lemma_body_len(sections, order, vtable_offset, vtable_size, k);
    lemma_body_len(sections, order, vtable_offset, vtable_size, k + 1);
    lemma_inc_size_nonneg(sections, order, k);
    if crt_sec(s) {
        assert(s.data@.len() == CRT_RECORD_LEN) by {
            assert(!bad_crt_upto(sections, order, n));
            assert(0 <= k < n);
        }
    }
    assert(body_upto(sections, order, vtable_offset, vtable_size, k + 1).subrange(
        inc_size_upto(sections, order, k),
        inc_size_upto(sections, order, k) + s.size,
    ) =~= sec_bytes(s, vtable_offset, vtable_size));
    lemma_body_prefix(
        sections,
        order,
        vtable_offset,
        vtable_size,
        k + 1,
        n,
        inc_size_upto(sections, order, k),
        inc_size_upto(sections, order, k) + s.size as int,
    );
}

/// Builds the image body. Walks the sections in placement order; for each
/// included section (program bits, nonzero size, writeable or executable or
/// allocated) appends its contents — the crt section's startup record
/// patched with the vtable placement — records writeable flash regions and
/// misaligned placements, and keeps the entry-function offset of the last
/// section containing the entry address. Fails exactly when an included crt
/// section does not hold the 40-byte startup record.
pub fn build_image(
    sections: &Vec<Section>,
    order: &Vec<usize>,
    entry: u64,
    protected: usize,
    vtable_offset: u64,
    vtable_size: u64,
) -> (r: Result<ImageBody, TbfError>)
    requires
        order_ok(sections@, order@),
        sections_wf(sections@),
        protected + inc_size_upto(sections@, order@, order@.len() as int) <= 0x8000_0000,
    ensures
        match r {
            Ok(ib) => {
                let n = order@.len() as int;
                &&& !bad_crt_upto(sections@, order@, n)
                &&& ib.body@ == body_upto(sections@, order@, vtable_offset, vtable_size, n)
                &&& ib.init_fn_offset as int == init_fn_upto(sections@, order@, entry, n)
                &&& ib.regions@ == regions_upto(sections@, order@, protected as int, n)
                &&& ib.advisories@ == misaligned_upto(sections@, order@, protected as int, n)
            },
            Err(e) => {
                &&& e == TbfError::CrtRecordSizeMismatch
                &&& bad_crt_upto(sections@, order@, order@.len() as int)
            },
        },
{
    let crt = crt_marker_vec();
    let wfr = wfr_marker_vec();
    let n = order.len();
    let mut body: Vec<u8> = Vec::new();
    let mut init_fn_offset: u32 = 0;
    let mut regions: Vec<FlashRegion> = Vec::new();
    let mut advisories: Vec<u64> = Vec::new();
    let mut cursor: u64 = protected as u64;
    let mut i: usize = 0;
    while i < n
        invariant
            order_ok(sections@, order@),
            sections_wf(sections@),
            protected + inc_size_upto(sections@, order@, order@.len() as int) <= 0x8000_0000,
            crt@ == crate::types::crt_marker(),
            wfr@ == crate::types::wfr_marker(),
            n == order@.len(),
            i <= n,
            cursor as int == protected + inc_size_upto(sections@, order@, i as int),
            !bad_crt_upto(sections@, order@, i as int),
            body@ == body_upto(sections@, order@, vtable_offset, vtable_size, i as int),
            init_fn_offset as int == init_fn_upto(sections@, order@, entry, i as int),
            regions@ == regions_upto(sections@, order@, protected as int, i as int),
            advisories@ == misaligned_upto(sections@, order@, protected as int, i as int),
        decreases n - i,
    {
        let si = order[i];
        let s = &sections[si];
        proof {
            lemma_inc_size_monotone(sections@, order@, i + 1, order@.len() as int);
            lemma_inc_size_nonneg(sections@, order@, i as int);
        }
        if entry >= s.addr && entry - s.addr < s.size {
            let diff = entry - s.addr;
            let pos = cursor - protected as u64;
            proof {
                vstd::arithmetic::div_mod::lemma_add_mod_noop(
                    diff as int,
                    pos as int,
                    0x1_0000_0000,
                );
            }
            init_fn_offset = (((diff % 0x1_0000_0000) + (pos % 0x1_0000_0000))
                % 0x1_0000_0000) as u32;
        }
        if (s.flags & (SHF_WRITE | SHF_EXECINSTR | SHF_ALLOC)) != 0 && s.shtype == SHT_PROGBITS
            && s.size > 0 {
            if cursor % 4 != 0 {
                advisories.push(cursor);
            }
            if contains_marker(&s.name, &crt) {
                if s.data.len() != CRT_RECORD_LEN {
                    proof {
                        assert(bad_crt_upto(sections@, order@, order@.len() as int)) by {
                            assert(0 <= i < order@.len() && {
                                let t = sections@[order@[i as int] as int];
                                included(t) && crt_sec(t) && t.data@.len() != CRT_RECORD_LEN
                            });
                        }
                    }
                    return Err(TbfError::CrtRecordSizeMismatch);
                }
                let patched = patch_crt_record(&s.data, vtable_offset, vtable_size);
                crate::bytes::append_bytes(&mut body, &patched);
            } else {
                crate::bytes::append_bytes(&mut body, &s.data);
            }
            if contains_marker(&s.name, &wfr) && s.size > 0 {
                regions.push(
                    FlashRegion { offset: cursor as u32, size: (s.size % 0x1_0000_0000) as u32 },
                );
            }
            cursor = cursor + s.size;
        }
        proof {
            assert(!bad_crt_upto(sections@, order@, i + 1)) by {
                if bad_crt_upto(sections@, order@, i + 1) {
                    let j = choose|j: int| 0 <= j < i + 1 && {
                        let t = sections@[#[trigger] order@[j] as int];
                        included(t) && crt_sec(t) && t.data@.len() != CRT_RECORD_LEN
                    };
                    assert(j == i);
                }
            }
        }
        i += 1;
    }
    Ok(ImageBody { body, init_fn_offset, regions, advisories })
}

/// Sections appear in the image body in ascending file-offset order: of two
/// included sections, the one placed earlier has the file offset that sorts
/// first (ties broken by declaration order), its bytes end where or before
/// the other's begin, and each occupies exactly its own contribution.
pub proof fn lemma_sections_in_offset_order(
    sections: Seq<Section>,
    order: Seq<usize>,
    vtable_offset: u64,
    vtable_size: u64,
    k1: int,
    k2: int,
)
    requires
        sections_wf(sections),
        order_ok(sections, order),
        !bad_crt_upto(sections, order, order.len() as int),
        0 <= k1 < k2 < order.len(),
        included(sections[order[k1] as int]),
        included(sections[order[k2] as int]),
    ensures
        sections[order[k1] as int].offset <= sections[order[k2] as int].offset,
        inc_size_upto(sections, order, k1) + sections[order[k1] as int].size
            <= inc_size_upto(sections, order, k2),
        body_upto(sections, order, vtable_offset, vtable_size, order.len() as int).subrange(
            inc_size_upto(sections, order, k1),
            inc_size_upto(sections, order, k1) + sections[order[k1] as int].size,
        ) == sec_bytes(sections[order[k1] as int], vtable_offset, vtable_size),
        body_upto(sections, order, vtable_offset, vtable_size, order.len() as int).subrange(
            inc_size_upto(sections, order, k2),
            inc_size_upto(sections, order, k2) + sections[order[k2] as int].size,
        ) == sec_bytes(sections[order[k2] as int], vtable_offset, vtable_size),
{
    lemma_section_placement(sections, order, vtable_offset, vtable_size, k1);
    lemma_section_placement(sections, order, vtable_offset, vtable_size, k2);
    assert(crate::sort::order_lt(sections, order[k1] as int, order[k2] as int));
    assert(inc_size_upto(sections, order, k1 + 1)
        == inc_size_upto(sections, order, k1) + sections[order[k1] as int].size);
    lemma_inc_size_monotone(sections, order, k1 + 1, k2);
}

/// The entry-offset law: when the section at position `k` of the placement
/// order is the last one scanned whose address range holds the entry
/// address, the recorded entry offset is the entry address minus that
/// section's virtual address, plus the sum of the included sizes placed
/// before it — its position relative to the end of the protected region —
/// truncated to 32 bits.
pub proof fn lemma_init_fn_offset(
    sections: Seq<Section>,
    order: Seq<usize>,
    entry: u64,
    k: int,
    i: int,
)
    requires
        0 <= k < i <= order.len(),
        entry_in(sections[order[k] as int], entry),
        forall|j: int| k < j < i ==> !entry_in(sections[#[trigger] order[j] as int], entry),
    ensures
        init_fn_upto(sections, order, entry, i)
            == (entry - sections[order[k] as int].addr + inc_size_upto(sections, order, k))
                % 0x1_0000_0000,
    decreases i,
{
    if i - 1 > k {
        lemma_init_fn_offset(sections, order, entry, k, i - 1);
    }
}

} // verus!
