//! Conversion of parsed ELF program data into Tock Binary Format (TBF)
//! flash images: section classification and ordering, startup-record
//! patching, relocation assembly, power-of-two size normalization, and
//! TBF header serialization.
use vstd::prelude::*;

pub mod bytes;
pub mod classify;
pub mod header;
pub mod image;
pub mod patch;
pub mod relocs;
pub mod size;
pub mod sort;
pub mod types;

use crate::bytes::{le4, zero_bytes};
use crate::classify::{
    candidates_upto, compute_minimum_ram_size, classify_sections, inc_size_f,
    lemma_inc_size_nonneg, minimum_ram_spec, wfr_count_f, wfr_count_upto,
};
use crate::header::{header_len_spec, header_wf, lemma_serialize_len, serialize_spec, TbfHeader};
use crate::image::{
    bad_crt_upto, body_upto, build_image, init_fn_upto, lemma_body_len, misaligned_upto,
    regions_upto,
};
use crate::patch::{scan_vtable_symbols, vtable_offset_from, vtable_size_upto};
use crate::relocs::{assemble_relocations, rel_advisories, rel_concat, rel_data_for};
use crate::size::{compute_padding, padded_total_size};
use crate::sort::{fold_idx, fold_range, order_ok, sort_sections_by_offset};
use crate::types::{rel_candidate, sections_wf, ElfInput, Section, TbfError};

verus! {

/// Per-index contribution of a section to the total relocation-data length:
/// the length of the ".rel" companion of every relocation candidate.
pub open spec fn rel_len_f(sections: Seq<Section>) -> spec_fn(int) -> int {
    |j: int| if rel_candidate(sections[j]) {
        rel_data_for(sections, sections[j].name@).len() as int
    } else {
        0
    }
}

/// Total declared size of the sections that go into the image, summed in
/// declaration order.
pub open spec fn total_included_size(sections: Seq<Section>) -> int {
    fold_range(inc_size_f(sections), sections.len() as int)
}

/// The number of writeable flash regions, counted in declaration order.
pub open spec fn total_wfr_count(sections: Seq<Section>) -> int {
    fold_range(wfr_count_f(sections), sections.len() as int)
}

/// The total relocation-data length, summed in declaration order.
pub open spec fn total_rel_len(sections: Seq<Section>) -> int {
    fold_range(rel_len_f(sections), sections.len() as int)
}

/// The unpadded image size: header, body, the 4-byte relocation length
/// prefix, and the relocation data.
pub open spec fn unpadded_total(sections: Seq<Section>, name_len: int) -> int {
    header_len_spec(total_wfr_count(sections), name_len) + total_included_size(sections) + 4
        + total_rel_len(sections)
}

/// Two candidate lists that agree on a prefix assemble the same relocation
/// data over it.
proof fn lemma_rel_concat_agree(sections: Seq<Section>, c1: Seq<Seq<u8>>, c2: Seq<Seq<u8>>, k: int)
    requires
        0 <= k <= c1.len(),
        k <= c2.len(),
        forall|j: int| 0 <= j < k ==> c1[j] == c2[j],
    ensures
        rel_concat(sections, c1, k) == rel_concat(sections, c2, k),
    decreases k,
{
    if k > 0 {
        lemma_rel_concat_agree(sections, c1, c2, k - 1);
    }
}

/// The assembled relocation data over the candidates of a scan prefix is as
/// long as the per-section relocation lengths summed over that prefix.
pub proof fn lemma_rel_concat_len(sections: Seq<Section>, order: Seq<usize>, i: int)
    requires
        0 <= i,
    ensures
        candidates_upto(sections, order, i).len() <= i,
        rel_concat(
            sections,
            candidates_upto(sections, order, i),
            candidates_upto(sections, order, i).len() as int,
        ).len() == fold_idx(order, rel_len_f(sections), i),
    decreases i,
{
    if i > 0 {
        lemma_rel_concat_len(sections, order, i - 1);
        let prev = candidates_upto(sections, order, i - 1);
        let s = sections[order[i - 1] as int];
        if rel_candidate(s) {
            let cur = prev.push(s.name@);
            lemma_rel_concat_agree(sections, cur, prev, prev.len() as int);
            assert(cur[prev.len() as int] == s.name@);
        }
    }
}

/// No more region-table entries are recorded than regions were counted.
pub proof fn lemma_regions_len_bound(
    sections: Seq<Section>,
    order: Seq<usize>,
    protected: int,
    i: int,
)
    ensures
        0 <= regions_upto(sections, order, protected, i).len()
            <= wfr_count_upto(sections, order, i),
    decreases i,
{
    if i > 0 {
        lemma_regions_len_bound(sections, order, protected, i - 1);
    }
}


/// Records a list of region placements on the header, in order.
fn set_flash_regions(h: &mut TbfHeader, regions: &Vec<crate::header::FlashRegion>)
    requires
        old(h).regions@.len() + regions@.len() <= old(h).region_count as int,
    ensures
        (*final(h) == TbfHeader { regions: final(h).regions, ..*old(h) }),
        final(h).regions@ == old(h).regions@ + regions@,
{
    let mut ri: usize = 0;
    while ri < regions.len()
        invariant
            ri <= regions@.len(),
            old(h).regions@.len() + regions@.len() <= old(h).region_count as int,
            (*h == TbfHeader { regions: h.regions, ..*old(h) }),
            h.regions@ == old(h).regions@ + regions@.subrange(0, ri as int),
        decreases regions@.len() - ri,
    {
        let reg = regions[ri];
        h.set_writeable_flash_region_values(reg.offset, reg.size);
        ri += 1;
        proof {
            assert(old(h).regions@ + regions@.subrange(0, ri - 1) + seq![regions@[ri - 1]]
                =~= old(h).regions@ + regions@.subrange(0, ri as int));
        }
    }
    proof {
        assert(regions@.subrange(0, regions@.len() as int) =~= regions@);
    }
}

/// Concatenates the final image: header bytes, body, the relocation data
/// behind its little-endian length, and the zero padding.
fn concat_output_bytes(header_bytes: Vec<u8>, body: &Vec<u8>, rel: &Vec<u8>, pad: usize) -> (r:
    Vec<u8>)
    requires
        rel@.len() < 0x1_0000_0000,
    ensures
        r@ == header_bytes@ + body@ + le4(rel@.len() as int) + rel@ + zero_bytes(pad as nat),
{
    let mut out = header_bytes;
    crate::bytes::append_bytes(&mut out, body);
    crate::bytes::push_u32_le(&mut out, rel.len() as u32);
    crate::bytes::append_bytes(&mut out, rel);
    crate::bytes::append_zero_bytes(&mut out, pad);
    out
}

/// Everything one conversion produces.
pub struct TbfOutput {
    /// The complete image: header, body, relocation length and data, padding.
    pub bytes: Vec<u8>,
    /// The finalized header whose serialization starts `bytes`.
    pub header: TbfHeader,
    /// The total image size, padding included.
    pub total_size: u32,
    /// The entry-function offset, relative to the end of the protected
    /// region.
    pub init_fn_offset: u32,
    /// How many zero bytes of padding follow the relocation data.
    pub pad: u64,
    /// Cursor positions at which sections were placed unaligned.
    pub section_advisories: Vec<u64>,
    /// Cursor positions at which nonempty relocation data was placed
    /// unaligned.
    pub relocation_advisories: Vec<u64>,
}

/// What a successful conversion returns, relative to the placement order
/// `order` and the vtable scan results `vo` (offset) and `vs` (size): the
/// header fields, the advisories, and the image bytes — serialized header,
/// then the body, then the relocation data prefixed with its little-endian
/// length, then zero padding up to the normalized total size.
#[verifier::opaque]
pub open spec fn output_matches(
    sections: Seq<Section>,
    segments: Seq<crate::types::Segment>,
    symbols: Seq<crate::types::Symbol>,
    entry: u64,
    package_name: Seq<u8>,
    stack_len: u32,
    app_heap_len: u32,
    kernel_heap_len: u32,
    order: Seq<usize>,
    vo: u64,
    vs: u64,
    out: TbfOutput,
) -> bool {
    let n = sections.len() as int;
    let count = wfr_count_upto(sections, order, n);
    let hlen = header_len_spec(count, package_name.len() as int);
    let body = body_upto(sections, order, vo, vs, n);
    let cands = candidates_upto(sections, order, n);
    let rel = rel_concat(sections, cands, cands.len() as int);
    let pre = hlen + body.len() + 4 + rel.len();
    let total = padded_total_size(pre);
    &&& out.header.minimum_ram_size as int == minimum_ram_spec(
        segments,
        stack_len,
        app_heap_len,
        kernel_heap_len,
    )
    &&& out.header.region_count as int == count
    &&& out.header.package_name@ == package_name
    &&& out.header.regions@ == regions_upto(sections, order, hlen, n)
    &&& out.header.init_fn_offset as int == init_fn_upto(sections, order, entry, n)
    &&& out.header.total_size as int == total
    &&& header_wf(out.header)
    &&& out.total_size == out.header.total_size
    &&& out.init_fn_offset == out.header.init_fn_offset
    &&& out.pad as int == total - pre
    &&& out.section_advisories@ == misaligned_upto(sections, order, hlen, n)
    &&& out.relocation_advisories@ == rel_advisories(
        sections,
        cands,
        (hlen + body.len()) as u64,
        cands.len() as int,
    )
    &&& out.bytes@ == serialize_spec(out.header) + body + le4(rel.len() as int) + rel
        + zero_bytes((total - pre) as nat)
    &&& out.bytes@.len() == total
}

/// The size-normalization law, stated of a produced image: the image length
/// is the normalized total. When the unpadded size is already an exact power
/// of two the image is exactly that long; in every other case — in
/// particular whenever the unpadded size is at least 512 — the image length
/// is a power of two no smaller than 512.
pub proof fn lemma_output_size_power_of_two(
    sections: Seq<Section>,
    segments: Seq<crate::types::Segment>,
    symbols: Seq<crate::types::Symbol>,
    entry: u64,
    package_name: Seq<u8>,
    stack_len: u32,
    app_heap_len: u32,
    kernel_heap_len: u32,
    order: Seq<usize>,
    vo: u64,
    vs: u64,
    out: TbfOutput,
)
    requires
        output_matches(
            sections,
            segments,
            symbols,
            entry,
            package_name,
            stack_len,
            app_heap_len,
            kernel_heap_len,
            order,
            vo,
            vs,
            out,
        ),
    ensures
        ({
            let n = sections.len() as int;
            let count = wfr_count_upto(sections, order, n);
            let pre = header_len_spec(count, package_name.len() as int)
                + body_upto(sections, order, vo, vs, n).len() + 4
                + rel_concat(
                    sections,
                    candidates_upto(sections, order, n),
                    candidates_upto(sections, order, n).len() as int,
                ).len();
            &&& out.bytes@.len() == crate::size::padded_total_size(pre)
            &&& (crate::size::is_power_of_two(pre) ==> out.bytes@.len() == pre)
            &&& (!(crate::size::is_power_of_two(pre) && pre < 512)
                ==> crate::size::is_power_of_two(out.bytes@.len() as int)
                    && out.bytes@.len() >= 512)
        }),
{
    reveal(output_matches);
    let n = sections.len() as int;
    crate::classify::lemma_wfr_count_bound(sections, order, n);
    let count = wfr_count_upto(sections, order, n);
    let pre = header_len_spec(count, package_name.len() as int)
        + body_upto(sections, order, vo, vs, n).len() + 4
        + rel_concat(
        sections,
        candidates_upto(sections, order, n),
        candidates_upto(sections, order, n).len() as int,
    ).len();
    assert(pre >= 24);
    crate::size::lemma_padded_total_size(pre);
}

/// Converts one ELF input into a complete TBF image.
///
/// The sections are placed in ascending file-offset order; the minimum RAM,
/// entry offset and writeable-flash-region table are computed as the header
/// fields; the crt section's startup record is patched with the vtable
/// placement; the ".rel" companions of the relocation candidates follow the
/// body behind their little-endian length; and the image is padded to the
/// normalized power-of-two size. Fails exactly when an included crt section
/// does not hold the 40-byte startup record.
pub fn elf_to_tbf(
    input: &ElfInput,
    package_name: &Vec<u8>,
    stack_len: u32,
    app_heap_len: u32,
    kernel_heap_len: u32,
) -> (r: Result<TbfOutput, TbfError>)
    requires
        sections_wf(input.sections@),
        minimum_ram_spec(input.segments@, stack_len, app_heap_len, kernel_heap_len) <= 0xffff_ffff,
        vtable_size_upto(input.symbols@, input.symbols@.len() as int) <= u64::MAX,
        unpadded_total(input.sections@, package_name@.len() as int) <= 0x8000_0000,
    ensures
        match r {
            Ok(out) => exists|order: Seq<usize>, vo: u64, vs: u64| {
                &&& order_ok(input.sections@, order)
                &&& vo as int == vtable_offset_from(input.symbols@, 0)
                &&& vs as int == vtable_size_upto(input.symbols@, input.symbols@.len() as int)
                &&& !bad_crt_upto(input.sections@, order, input.sections@.len() as int)
                &&& #[trigger] output_matches(
                    input.sections@,
                    input.segments@,
                    input.symbols@,
                    input.entry,
                    package_name@,
                    stack_len,
                    app_heap_len,
                    kernel_heap_len,
                    order,
                    vo,
                    vs,
                    out,
                )
            },
            Err(e) => {
                &&& e == TbfError::CrtRecordSizeMismatch
                &&& exists|order: Seq<usize>| #[trigger] order_ok(input.sections@, order)
                    && bad_crt_upto(input.sections@, order, input.sections@.len() as int)
            },
        },
{
    let (r, Ghost(w)) = elf_to_tbf_inner(
        input,
        package_name,
        stack_len,
        app_heap_len,
        kernel_heap_len,
    );
    proof {
        let (order, vo, vs) = w;
        if r is Ok {
            assert(output_matches(
                input.sections@,
                input.segments@,
                input.symbols@,
                input.entry,
                package_name@,
                stack_len,
                app_heap_len,
                kernel_heap_len,
                order,
                vo,
                vs,
                r->Ok_0,
            ));
        } else {
            assert(order_ok(input.sections@, order));
        }
    }
    r
}

/// The conversion itself; hands back, as ghost data, the placement order and
/// the vtable scan results that its result is stated over.
#[verifier::rlimit(100)]
fn elf_to_tbf_inner(
    input: &ElfInput,
    package_name: &Vec<u8>,
    stack_len: u32,
    app_heap_len: u32,
    kernel_heap_len: u32,
) -> (pair: (Result<TbfOutput, TbfError>, Ghost<(Seq<usize>, u64, u64)>))
    requires
        sections_wf(input.sections@),
        minimum_ram_spec(input.segments@, stack_len, app_heap_len, kernel_heap_len) <= 0xffff_ffff,
        vtable_size_upto(input.symbols@, input.symbols@.len() as int) <= u64::MAX,
        unpadded_total(input.sections@, package_name@.len() as int) <= 0x8000_0000,
    ensures
        ({
            let (order, vo, vs) = pair.1@;
            match pair.0 {
                Ok(out) => {
                    &&& order_ok(input.sections@, order)
                    &&& vo as int == vtable_offset_from(input.symbols@, 0)
                    &&& vs as int == vtable_size_upto(input.symbols@, input.symbols@.len() as int)
                    &&& !bad_crt_upto(input.sections@, order, input.sections@.len() as int)
                    &&& output_matches(
                        input.sections@,
                        input.segments@,
                        input.symbols@,
                        input.entry,
                        package_name@,
                        stack_len,
                        app_heap_len,
                        kernel_heap_len,
                        order,
                        vo,
                        vs,
                        out,
                    )
                },
                Err(e) => {
                    &&& e == TbfError::CrtRecordSizeMismatch
                    &&& order_ok(input.sections@, order)
                    &&& bad_crt_upto(input.sections@, order, input.sections@.len() as int)
                },
            }
        }),
{
    let sections = &input.sections;
    let ghost secs = input.sections@;
    let order = sort_sections_by_offset(sections);
    let n = order.len();
    proof {
        assert(fold_idx(order@, inc_size_f(secs), order@.len() as int)
            == fold_range(inc_size_f(secs), secs.len() as int));
        assert(fold_idx(order@, wfr_count_f(secs), order@.len() as int)
            == fold_range(wfr_count_f(secs), secs.len() as int));
        assert(fold_idx(order@, rel_len_f(secs), order@.len() as int)
            == fold_range(rel_len_f(secs), secs.len() as int));
        lemma_rel_concat_len(secs, order@, n as int);
        lemma_inc_size_nonneg(secs, order@, n as int);
        crate::classify::lemma_wfr_count_bound(secs, order@, n as int);
    }
    let (wfr_count, rel_candidates) = classify_sections(sections, &order);
    let min_ram = compute_minimum_ram_size(
        &input.segments,
        stack_len,
        app_heap_len,
        kernel_heap_len,
    );
    let (vo, vs) = scan_vtable_symbols(&input.symbols);
    let mut tbfheader = TbfHeader::new();
    let mut name_copy: Vec<u8> = Vec::new();
    crate::bytes::append_bytes(&mut name_copy, package_name);
    let header_length = tbfheader.create(min_ram, wfr_count as u32, name_copy);
    let ghost protected = header_length as int;
    let image = match build_image(sections, &order, input.entry, header_length, vo, vs) {
        Ok(ib) => ib,
        Err(e) => {
            return (Err(e), Ghost((order@, vo, vs)));
        },
    };
    proof {
        lemma_body_len(secs, order@, vo, vs, n as int);
        lemma_regions_len_bound(secs, order@, protected, n as int);
    }
    tbfheader.set_init_fn_offset(image.init_fn_offset);
    set_flash_regions(&mut tbfheader, &image.regions);
    proof {
        assert(tbfheader.regions@ =~= image.regions@);
    }
    let body_len = image.body.len();
    let cursor_after_body = header_length as u64 + body_len as u64;
    let (rel, relocation_advisories) = assemble_relocations(
        sections,
        &rel_candidates,
        cursor_after_body,
    );
    let pre_total = header_length + body_len + 4 + rel.len();
    let (total, pad) = compute_padding(pre_total as u64);
    tbfheader.set_total_size(total as u32);
    let header_bytes = tbfheader.generate();
    proof {
        lemma_serialize_len(tbfheader);
    }
    let out_bytes = concat_output_bytes(header_bytes, &image.body, &rel, pad as usize);
    let init_fn_offset = image.init_fn_offset;
    let result = TbfOutput {
        bytes: out_bytes,
        header: tbfheader,
        total_size: total as u32,
        init_fn_offset,
        pad,
        section_advisories: image.advisories,
        relocation_advisories,
    };
    proof {
        reveal(output_matches);
        assert(output_matches(
            input.sections@,
            input.segments@,
            input.symbols@,
            input.entry,
            package_name@,
            stack_len,
            app_heap_len,
            kernel_heap_len,
            order@,
            vo,
            vs,
            result,
        ));
        assert(order_ok(input.sections@, order@));
        assert(vo as int == vtable_offset_from(input.symbols@, 0));
        assert(vs as int == vtable_size_upto(input.symbols@, input.symbols@.len() as int));
        assert(!bad_crt_upto(input.sections@, order@, input.sections@.len() as int));
    }
    (Ok(result), Ghost((order@, vo, vs)))
}

} // verus!
