//! Section classification: the minimum RAM estimate, the count of writeable
//! flash regions, and the relocation-candidate section names, all gathered
//! over the placement order.
use vstd::prelude::*;
use crate::bytes::append_bytes;
use crate::sort::{fold_idx, fold_range, order_ok};
use crate::types::{
    included, rel_candidate, wfr_sec, contains_marker, wfr_marker_vec,
    Section, Segment, PT_LOAD, PF_R, PF_W, SHF_ALLOC, SHF_WRITE,
};

verus! {

/// Per-index contribution of a section to the count of writeable flash
/// regions.
pub open spec fn wfr_count_f(sections: Seq<Section>) -> spec_fn(int) -> int {
    |j: int| if wfr_sec(sections[j]) { 1int } else { 0int }
}

/// Per-index contribution of a section to the total size of sections that go
/// into the image.
pub open spec fn inc_size_f(sections: Seq<Section>) -> spec_fn(int) -> int {
    |j: int| if included(sections[j]) { sections[j].size as int } else { 0int }
}

/// How many of the first `i` sections of `order` are writeable flash
/// regions.
pub open spec fn wfr_count_upto(sections: Seq<Section>, order: Seq<usize>, i: int) -> int {
    fold_idx(order, wfr_count_f(sections), i)
}

/// Total declared size of the sections among the first `i` of `order` that
/// go into the image.
pub open spec fn inc_size_upto(sections: Seq<Section>, order: Seq<usize>, i: int) -> int {
    fold_idx(order, inc_size_f(sections), i)
}

/// The names of the relocation-candidate sections among the first `i` of
/// `order`, in that order.
pub open spec fn candidates_upto(sections: Seq<Section>, order: Seq<usize>, i: int) -> Seq<Seq<u8>>
    decreases i,
{
    if i <= 0 {
        Seq::empty()
    } else {
        let prev = candidates_upto(sections, order, i - 1);
        if rel_candidate(sections[order[i - 1] as int]) {
            prev.push(sections[order[i - 1] as int].name@)
        } else {
            prev
        }
    }
}

/// A prefix count of writeable flash regions never exceeds the prefix
/// length.
pub proof fn lemma_wfr_count_bound(sections: Seq<Section>, order: Seq<usize>, i: int)
    ensures
        0 <= wfr_count_upto(sections, order, i) <= (if i <= 0 { 0 } else { i }),
    decreases i,
{
    if i > 0 {
        lemma_wfr_count_bound(sections, order, i - 1);
    }
}

/// Prefix sums of included-section sizes grow monotonically.
pub proof fn lemma_inc_size_monotone(sections: Seq<Section>, order: Seq<usize>, i: int, j: int)
    requires
        i <= j,
    ensures
        inc_size_upto(sections, order, i) <= inc_size_upto(sections, order, j),
    decreases j - i,
{
    if i < j {
        lemma_inc_size_monotone(sections, order, i, j - 1);
    }
}

/// Prefix sums of included-section sizes are never negative.
pub proof fn lemma_inc_size_nonneg(sections: Seq<Section>, order: Seq<usize>, i: int)
    ensures
        0 <= inc_size_upto(sections, order, i),
    decreases i,
{
    if i > 0 {
        lemma_inc_size_nonneg(sections, order, i - 1);
    }
}

/// Scans the sections in placement order, counting writeable flash regions
/// and collecting the names of relocation candidates (sections whose flags
/// are exactly write + alloc).
pub fn classify_sections(sections: &Vec<Section>, order: &Vec<usize>) -> (r: (usize, Vec<Vec<u8>>))
    requires
        order_ok(sections@, order@),
    ensures
        r.0 as int == wfr_count_upto(sections@, order@, order@.len() as int),
        r.1@.map_values(|v: Vec<u8>| v@)
            == candidates_upto(sections@, order@, order@.len() as int),
{
    let wfr = wfr_marker_vec();
    let mut count: usize = 0;
    let mut cands: Vec<Vec<u8>> = Vec::new();
    let mut i: usize = 0;
    proof {
        assert(cands@.map_values(|v: Vec<u8>| v@) =~= candidates_upto(sections@, order@, 0));
    }
    while i < order.len()
        invariant
            order_ok(sections@, order@),
            wfr@ == crate::types::wfr_marker(),
            i <= order@.len(),
            count <= i,
            count as int == wfr_count_upto(sections@, order@, i as int),
            cands@.map_values(|v: Vec<u8>| v@) == candidates_upto(sections@, order@, i as int),
        decreases order@.len() - i,
    {
        let si = order[i];
        let s = &sections[si];
        let ghost prev = cands@.map_values(|v: Vec<u8>| v@);
        if contains_marker(&s.name, &wfr) && s.size > 0 {
            count += 1;
        }
        if s.flags == SHF_WRITE + SHF_ALLOC {
            let mut nm: Vec<u8> = Vec::new();
            append_bytes(&mut nm, &s.name);
            cands.push(nm);
            proof {
                assert(cands@.map_values(|v: Vec<u8>| v@)
                    =~= prev.push(sections@[order@[i as int] as int].name@));
            }
        }
        i += 1;
    }
    (count, cands)
}

/// The memory size of the first loadable segment whose flags are exactly
/// read + write, scanning from index `i`; zero when there is none.
pub open spec fn first_rw_load_memsz(segments: Seq<Segment>, i: int) -> int
    decreases segments.len() - i,
{
    if i < 0 || i >= segments.len() {
        0
    } else if segments[i].progtype == PT_LOAD && segments[i].flags == PF_W + PF_R {
        segments[i].memsz as int
    } else {
        first_rw_load_memsz(segments, i + 1)
    }
}

/// `x` rounded up to the next multiple of `a`.
pub open spec fn align_up(x: int, a: int) -> int {
    x + ((a - (x % a)) % a)
}

/// The minimum RAM the application needs: the memory size of the first
/// read + write loadable segment (truncated to 32 bits), plus the requested
/// stack rounded up to 8 bytes and the two heaps each rounded up to 4 bytes.
pub open spec fn minimum_ram_spec(
    segments: Seq<Segment>,
    stack_len: u32,
    app_heap_len: u32,
    kernel_heap_len: u32,
) -> int {
    first_rw_load_memsz(segments, 0) % 0x1_0000_0000
        + align_up(stack_len as int, 8)
        + align_up(app_heap_len as int, 4)
        + align_up(kernel_heap_len as int, 4)
}

/// The memory size of the first read + write loadable segment, truncated to
/// 32 bits; zero when no segment qualifies.
pub fn minimum_ram_base(segments: &Vec<Segment>) -> (r: u32)
    ensures
        r as int == first_rw_load_memsz(segments@, 0) % 0x1_0000_0000,
{
    let mut i: usize = 0;
    while i < segments.len()
        invariant
            i <= segments@.len(),
            first_rw_load_memsz(segments@, 0) == first_rw_load_memsz(segments@, i as int),
        decreases segments@.len() - i,
    {
        let s = &segments[i];
        if s.progtype == PT_LOAD && s.flags == PF_W + PF_R {
            return (s.memsz % 0x1_0000_0000) as u32;
        }
        i += 1;
    }
    0
}

/// Computes the minimum RAM requirement from the segments and the requested
/// stack and heap lengths.
pub fn compute_minimum_ram_size(
    segments: &Vec<Segment>,
    stack_len: u32,
    app_heap_len: u32,
    kernel_heap_len: u32,
) -> (r: u32)
    requires
        minimum_ram_spec(segments@, stack_len, app_heap_len, kernel_heap_len) <= 0xffff_ffff,
    ensures
        r as int == minimum_ram_spec(segments@, stack_len, app_heap_len, kernel_heap_len),
{
    let base = minimum_ram_base(segments);
    let stack_aligned = stack_len as u64 + ((8 - (stack_len as u64 % 8)) % 8);
    let app_aligned = app_heap_len as u64 + ((4 - (app_heap_len as u64 % 4)) % 4);
    let kernel_aligned = kernel_heap_len as u64 + ((4 - (kernel_heap_len as u64 % 4)) % 4);
    (base as u64 + stack_aligned + app_aligned + kernel_aligned) as u32
}

} // verus!
