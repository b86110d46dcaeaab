//! The TBF header: a builder filled in two phases (layout, then
//! finalization), a length-stable serializer, and a parser that inverts it.
//!
//! Layout, all fields little-endian 32-bit: total size, entry offset,
//! minimum RAM, region count, package-name length, then one (offset, size)
//! pair per declared writeable flash region, then the package-name bytes.
//! The serialized length depends only on the region count and the name
//! length, both fixed at creation, so the two phases agree on it.
use vstd::prelude::*;
use crate::bytes::{append_bytes, le4, le_val_at, push_u32_le, read_u32_le};

verus! {

/// One writeable-flash-region table entry.
#[derive(Clone, Copy, Debug, PartialEq, Eq, Structural)]
pub struct FlashRegion {
    /// Offset of the region within the image.
    pub offset: u32,
    /// Size of the region in bytes.
    pub size: u32,
}

/// The TBF header under construction.
pub struct TbfHeader {
    /// Minimum RAM the application needs.
    pub minimum_ram_size: u32,
    /// Offset of the entry function, relative to the end of the protected
    /// region.
    pub init_fn_offset: u32,
    /// Total size of the image, padding included.
    pub total_size: u32,
    /// Number of writeable flash regions declared at creation.
    pub region_count: u32,
    /// The region entries set so far; at most `region_count` of them.
    pub regions: Vec<FlashRegion>,
    /// The package name bytes.
    pub package_name: Vec<u8>,
}

/// The header can be serialized: no more regions were set than declared,
/// and the name length fits its 32-bit field.
pub open spec fn header_wf(h: TbfHeader) -> bool {
    h.regions@.len() <= h.region_count as int && h.package_name@.len() < 0x1_0000_0000
}

/// The serialized length of a header with `region_count` regions and a
/// `name_len`-byte package name.
pub open spec fn header_len_spec(region_count: int, name_len: int) -> int {
    20 + 8 * region_count + name_len
}

/// Region-table entry `j`: the regions set so far, zero-filled beyond them.
pub open spec fn region_entry(regions: Seq<FlashRegion>, j: int) -> FlashRegion {
    if 0 <= j < regions.len() {
        regions[j]
    } else {
        FlashRegion { offset: 0, size: 0 }
    }
}

/// The full region table as a list: `count` entries.
pub open spec fn region_list(regions: Seq<FlashRegion>, count: int) -> Seq<FlashRegion> {
    Seq::new((if count <= 0 { 0 } else { count }) as nat, |j: int| region_entry(regions, j))
}

/// The serialized region table: `count` pairs of little-endian words.
pub open spec fn region_bytes(regions: Seq<FlashRegion>, count: int) -> Seq<u8>
    decreases count,
{
    if count <= 0 {
        Seq::empty()
    } else {
        region_bytes(regions, count - 1)
            + le4(region_entry(regions, count - 1).offset as int)
            + le4(region_entry(regions, count - 1).size as int)
    }
}

/// The serialized header bytes.
pub open spec fn serialize_spec(h: TbfHeader) -> Seq<u8> {
    le4(h.total_size as int) + le4(h.init_fn_offset as int) + le4(h.minimum_ram_size as int)
        + le4(h.region_count as int) + le4(h.package_name@.len() as int)
        + region_bytes(h.regions@, h.region_count as int) + h.package_name@
}

/// The serialized region table holds eight bytes per entry.
pub proof fn lemma_region_bytes_len(regions: Seq<FlashRegion>, count: int)
    ensures
        region_bytes(regions, count).len() == (if count <= 0 { 0 } else { 8 * count }),
    decreases count,
{
    if count > 0 {
        lemma_region_bytes_len(regions, count - 1);
    }
}

/// A serialized header is exactly `header_len_spec` bytes long.
pub proof fn lemma_serialize_len(h: TbfHeader)
    requires
        0 <= h.region_count,
    ensures
        serialize_spec(h).len()
            == header_len_spec(h.region_count as int, h.package_name@.len() as int),
{
    lemma_region_bytes_len(h.regions@, h.region_count as int);
}

impl TbfHeader {
    /// An empty header: all fields zero, no regions, empty name.
    pub fn new() -> (h: TbfHeader)
        ensures
            h.minimum_ram_size == 0,
            h.init_fn_offset == 0,
            h.total_size == 0,
            h.region_count == 0,
            h.regions@ == Seq::<FlashRegion>::empty(),
            h.package_name@ == Seq::<u8>::empty(),
    {
        TbfHeader {
            minimum_ram_size: 0,
            init_fn_offset: 0,
            total_size: 0,
            region_count: 0,
            regions: Vec::new(),
            package_name: Vec::new(),
        }
    }

    /// The layout pass: fixes the minimum RAM, the region count and the
    /// package name, and returns the serialized length, which will not
    /// change when the remaining fields are set.
    pub fn create(
        &mut self,
        minimum_ram_size: u32,
        writeable_flash_regions_count: u32,
        package_name: Vec<u8>,
    ) -> (length: usize)
        requires
            header_len_spec(
                writeable_flash_regions_count as int,
                package_name@.len() as int,
            ) <= 0x8000_0000,
        ensures
            (*final(self) == TbfHeader {
                minimum_ram_size,
                region_count: writeable_flash_regions_count,
                regions: old(self).regions,
                package_name,
                ..*old(self)
            }),
            length as int == header_len_spec(
                writeable_flash_regions_count as int,
                package_name@.len() as int,
            ),
            length as int == serialize_spec(*final(self)).len(),
    {
        self.minimum_ram_size = minimum_ram_size;
        self.region_count = writeable_flash_regions_count;
        let length = 20 + 8 * (writeable_flash_regions_count as usize) + package_name.len();
        self.package_name = package_name;
        proof {
            lemma_serialize_len(*self);
        }
        length
    }

    /// Records the placement of one writeable flash region. At most the
    /// count declared at creation may be recorded.
    pub fn set_writeable_flash_region_values(&mut self, offset: u32, size: u32)
        requires
            old(self).regions@.len() < old(self).region_count as int,
        ensures
            (*final(self) == TbfHeader { regions: final(self).regions, ..*old(self) }),
            final(self).regions@ == old(self).regions@.push(FlashRegion { offset, size }),
    {
        self.regions.push(FlashRegion { offset, size });
    }

    /// Sets the entry-function offset.
    pub fn set_init_fn_offset(&mut self, init_fn_offset: u32)
        ensures
            (*final(self) == TbfHeader { init_fn_offset, ..*old(self) }),
    {
        self.init_fn_offset = init_fn_offset;
    }

    /// Sets the total image size.
    pub fn set_total_size(&mut self, total_size: u32)
        ensures
            (*final(self) == TbfHeader { total_size, ..*old(self) }),
    {
        self.total_size = total_size;
    }

    /// Serializes the header.
    pub fn generate(&self) -> (r: Vec<u8>)
        requires
            header_wf(*self),
        ensures
            r@ == serialize_spec(*self),
    {
        let mut out: Vec<u8> = Vec::new();
        push_u32_le(&mut out, self.total_size);
        push_u32_le(&mut out, self.init_fn_offset);
        push_u32_le(&mut out, self.minimum_ram_size);
        push_u32_le(&mut out, self.region_count);
        push_u32_le(&mut out, self.package_name.len() as u32);
        let ghost fixed = out@;
        let mut j: u32 = 0;
        while j < self.region_count
            invariant
                j <= self.region_count,
                header_wf(*self),
                out@ == fixed + region_bytes(self.regions@, j as int),
            decreases self.region_count - j,
        {
            let entry = if (j as usize) < self.regions.len() {
                self.regions[j as usize]
            } else {
                FlashRegion { offset: 0, size: 0 }
            };
            push_u32_le(&mut out, entry.offset);
            push_u32_le(&mut out, entry.size);
            j += 1;
            proof {
                assert(entry == region_entry(self.regions@, j - 1));
                assert(fixed + region_bytes(self.regions@, j - 1)
                    + le4(entry.offset as int) + le4(entry.size as int)
                    =~= fixed + region_bytes(self.regions@, j as int));
            }
        }
        append_bytes(&mut out, &self.package_name);
        proof {
            assert(out@ =~= serialize_spec(*self));
        }
        out
    }
}

/// A header read back from serialized bytes.
pub struct ParsedHeader {
    /// Total size of the image.
    pub total_size: u32,
    /// Offset of the entry function.
    pub init_fn_offset: u32,
    /// Minimum RAM the application needs.
    pub minimum_ram_size: u32,
    /// The full region table, one entry per declared region.
    pub regions: Vec<FlashRegion>,
    /// The package name bytes.
    pub package_name: Vec<u8>,
}

/// `b` starts with a well-formed serialized header: the fixed fields are
/// present and the region table and name they announce fit inside `b`.
pub open spec fn parse_ok(b: Seq<u8>) -> bool {
    b.len() >= 20 && b.len() >= 20 + 8 * le_val_at(b, 12) + le_val_at(b, 16)
}

/// The region table read from the serialized bytes `b`.
pub open spec fn parse_regions(b: Seq<u8>, count: int) -> Seq<FlashRegion>
    decreases count,
{
    if count <= 0 {
        Seq::empty()
    } else {
        parse_regions(b, count - 1).push(
            FlashRegion {
                offset: le_val_at(b, 20 + 8 * (count - 1)) as u32,
                size: le_val_at(b, 20 + 8 * (count - 1) + 4) as u32,
            },
        )
    }
}

/// Reads a serialized header back from the start of `bytes`; bytes beyond
/// the header — the image body of a full image — are ignored.
pub fn parse_header(bytes: &Vec<u8>) -> (r: Option<ParsedHeader>)
    ensures
        match r {
            Some(p) => {
                &&& parse_ok(bytes@)
                &&& p.total_size as int == le_val_at(bytes@, 0)
                &&& p.init_fn_offset as int == le_val_at(bytes@, 4)
                &&& p.minimum_ram_size as int == le_val_at(bytes@, 8)
                &&& p.regions@ == parse_regions(bytes@, le_val_at(bytes@, 12))
                &&& p.regions@.len() == le_val_at(bytes@, 12)
                &&& p.package_name@ == bytes@.subrange(
                    20 + 8 * le_val_at(bytes@, 12),
                    20 + 8 * le_val_at(bytes@, 12) + le_val_at(bytes@, 16),
                )
            },
            None => !parse_ok(bytes@),
        },
{
    if bytes.len() < 20 {
        return None;
    }
    let total_size = read_u32_le(bytes, 0);
    let init_fn_offset = read_u32_le(bytes, 4);
    let minimum_ram_size = read_u32_le(bytes, 8);
    let count = read_u32_le(bytes, 12);
    let name_len = read_u32_le(bytes, 16);
    let needed: u64 = 20 + 8 * (count as u64) + name_len as u64;
    let blen = bytes.len();
    if (blen as u64) < needed {
        return None;
    }
    let mut regions: Vec<FlashRegion> = Vec::new();
    let mut j: u32 = 0;
    while j < count
        invariant
            j <= count,
            blen == bytes@.len(),
            blen as int >= 20 + 8 * (count as int) + name_len as int,
            name_len as int == le_val_at(bytes@, 16),
            count as int == le_val_at(bytes@, 12),
            regions@ == parse_regions(bytes@, j as int),
            regions@.len() == j as int,
        decreases count - j,
    {
        let base = 20 + 8 * (j as usize);
        let offset = read_u32_le(bytes, base);
        let size = read_u32_le(bytes, base + 4);
        regions.push(FlashRegion { offset, size });
        j += 1;
    }
    let name_start = 20 + 8 * (count as usize);
    let mut package_name: Vec<u8> = Vec::new();
    let mut k: usize = 0;
    while k < name_len as usize
        invariant
            k <= name_len as usize,
            blen == bytes@.len(),
            name_start == 20 + 8 * (count as int),
            blen as int >= name_start + name_len,
            package_name@ == bytes@.subrange(name_start as int, name_start + k),
        decreases name_len as usize - k,
    {
        package_name.push(bytes[name_start + k]);
        k += 1;
        proof {
            assert(bytes@.subrange(name_start as int, name_start + k - 1)
                .push(bytes@[name_start + k - 1])
                =~= bytes@.subrange(name_start as int, name_start + k));
        }
    }
    Some(ParsedHeader { total_size, init_fn_offset, minimum_ram_size, regions, package_name })
}

/// Four consecutive bytes that equal a 32-bit value's little-endian
/// encoding decode back to that value.
pub proof fn lemma_le_val_at_eq(s: Seq<u8>, i: int, v: int)
    requires
        0 <= i,
        i + 4 <= s.len(),
        s.subrange(i, i + 4) == le4(v),
        0 <= v < 0x1_0000_0000,
    ensures
        le_val_at(s, i) == v,
{
    crate::bytes::lemma_le4_round_trip(v);
    assert(s.subrange(i, i + 4)[0] == s[i]);
    assert(s.subrange(i, i + 4)[1] == s[i + 1]);
    assert(s.subrange(i, i + 4)[2] == s[i + 2]);
    assert(s.subrange(i, i + 4)[3] == s[i + 3]);
    assert(le_val_at(s, i) == le_val_at(s.subrange(i, i + 4), 0));
}

/// The serialized region table holds entry `j`'s two words at bytes
/// `8 j` and `8 j + 4`.
pub proof fn lemma_region_bytes_index(regions: Seq<FlashRegion>, count: int, j: int)
    requires
        0 <= j < count,
    ensures
        region_bytes(regions, count).subrange(8 * j, 8 * j + 4)
            == le4(region_entry(regions, j).offset as int),
        region_bytes(regions, count).subrange(8 * j + 4, 8 * j + 8)
            == le4(region_entry(regions, j).size as int),
    decreases count,
{
    lemma_region_bytes_len(regions, count - 1);
    if j == count - 1 {
        assert(region_bytes(regions, count).subrange(8 * j, 8 * j + 4)
            =~= le4(region_entry(regions, j).offset as int));
        assert(region_bytes(regions, count).subrange(8 * j + 4, 8 * j + 8)
            =~= le4(region_entry(regions, j).size as int));
    } else {
        lemma_region_bytes_index(regions, count - 1, j);
        assert(region_bytes(regions, count).subrange(8 * j, 8 * j + 4)
            =~= region_bytes(regions, count - 1).subrange(8 * j, 8 * j + 4));
        assert(region_bytes(regions, count).subrange(8 * j + 4, 8 * j + 8)
            =~= region_bytes(regions, count - 1).subrange(8 * j + 4, 8 * j + 8));
    }
}

/// When every table slot of `b` decodes to the corresponding declared
/// entry, the parsed table is the declared table.
proof fn lemma_parse_regions_eq(b: Seq<u8>, regions: Seq<FlashRegion>, count: int)
    requires
        forall|j: int| 0 <= j < count ==> #[trigger] le_val_at(b, 20 + 8 * j)
            == region_entry(regions, j).offset as int,
        forall|j: int| 0 <= j < count ==> #[trigger] le_val_at(b, 20 + 8 * j + 4)
            == region_entry(regions, j).size as int,
    ensures
        parse_regions(b, count) == region_list(regions, count),
    decreases count,
{
    if count <= 0 {
        assert(parse_regions(b, count) =~= region_list(regions, count));
    } else {
        lemma_parse_regions_eq(b, regions, count - 1);
        assert(parse_regions(b, count) =~= region_list(regions, count));
    }
}

/// The round trip: parsing any byte sequence that begins with a serialized
/// header reads back exactly the total size, entry offset, minimum RAM,
/// region table and package name that were serialized. Trailing bytes — the
/// image body, for a full image — do not disturb it.
#[verifier::rlimit(100)]
pub proof fn lemma_header_round_trip(h: TbfHeader, rest: Seq<u8>)
    requires
        header_wf(h),
    ensures
        ({
            let b = serialize_spec(h) + rest;
            &&& parse_ok(b)
            &&& le_val_at(b, 0) == h.total_size as int
            &&& le_val_at(b, 4) == h.init_fn_offset as int
            &&& le_val_at(b, 8) == h.minimum_ram_size as int
            &&& le_val_at(b, 12) == h.region_count as int
            &&& le_val_at(b, 16) == h.package_name@.len()
            &&& parse_regions(b, h.region_count as int)
                == region_list(h.regions@, h.region_count as int)
            &&& b.subrange(
                20 + 8 * (h.region_count as int),
                20 + 8 * (h.region_count as int) + h.package_name@.len() as int,
            ) == h.package_name@
        }),
{
    let b = serialize_spec(h) + rest;
    let count = h.region_count as int;
    let nlen = h.package_name@.len() as int;
    lemma_region_bytes_len(h.regions@, count);
    assert(b.subrange(0, 4) =~= le4(h.total_size as int));
    lemma_le_val_at_eq(b, 0, h.total_size as int);
    assert(b.subrange(4, 8) =~= le4(h.init_fn_offset as int));
    lemma_le_val_at_eq(b, 4, h.init_fn_offset as int);
    assert(b.subrange(8, 12) =~= le4(h.minimum_ram_size as int));
    lemma_le_val_at_eq(b, 8, h.minimum_ram_size as int);
    assert(b.subrange(12, 16) =~= le4(h.region_count as int));
    lemma_le_val_at_eq(b, 12, h.region_count as int);
    assert(b.subrange(16, 20) =~= le4(h.package_name@.len() as int));
    lemma_le_val_at_eq(b, 16, h.package_name@.len() as int);
    assert forall|j: int| 0 <= j < count implies #[trigger] le_val_at(b, 20 + 8 * j)
        == region_entry(h.regions@, j).offset as int && le_val_at(b, 20 + 8 * j + 4)
        == region_entry(h.regions@, j).size as int by {
        lemma_region_bytes_index(h.regions@, count, j);
        let rb = region_bytes(h.regions@, count);
        assert(b.subrange(20 + 8 * j, 20 + 8 * j + 4) =~= rb.subrange(8 * j, 8 * j + 4));
        lemma_le_val_at_eq(b, 20 + 8 * j, region_entry(h.regions@, j).offset as int);
        assert(b.subrange(20 + 8 * j + 4, 20 + 8 * j + 8)
            =~= rb.subrange(8 * j + 4, 8 * j + 8));
        lemma_le_val_at_eq(b, 20 + 8 * j + 4, region_entry(h.regions@, j).size as int);
    }
    assert forall|j: int| 0 <= j < count implies #[trigger] le_val_at(b, 20 + 8 * j + 4)
        == region_entry(h.regions@, j).size as int by {
        assert(le_val_at(b, 20 + 8 * j) == region_entry(h.regions@, j).offset as int);
    }
    lemma_parse_regions_eq(b, h.regions@, count);
    assert(b.subrange(20 + 8 * count, 20 + 8 * count + nlen) =~= h.package_name@);
}

} // verus!
