//! The data model of the converter: the parts of an ELF file that the
//! image transformation reads, held as plain values, together with the
//! section predicates that drive classification.
use vstd::prelude::*;

verus! {

/// Section header type of program-bits sections.
pub const SHT_PROGBITS: u32 = 1;

/// Section flag: writeable.
pub const SHF_WRITE: u64 = 1;

/// Section flag: occupies memory at run time.
pub const SHF_ALLOC: u64 = 2;

/// Section flag: executable.
pub const SHF_EXECINSTR: u64 = 4;

/// Program header type of loadable segments.
pub const PT_LOAD: u32 = 1;

/// Program header flag: writeable.
pub const PF_W: u32 = 2;

/// Program header flag: readable.
pub const PF_R: u32 = 4;

/// One ELF section, reduced to the fields the conversion reads.
pub struct Section {
    /// Section name bytes.
    pub name: Vec<u8>,
    /// Offset of the section's contents in the ELF file.
    pub offset: u64,
    /// Virtual address the section is loaded at.
    pub addr: u64,
    /// Declared size in bytes.
    pub size: u64,
    /// Section header type.
    pub shtype: u32,
    /// Section flag bits.
    pub flags: u64,
    /// Raw contents.
    pub data: Vec<u8>,
    /// Declared alignment requirement.
    pub addralign: u64,
}

/// One ELF program segment, reduced to the fields the conversion reads.
pub struct Segment {
    /// Program header type.
    pub progtype: u32,
    /// Program header flag bits.
    pub flags: u32,
    /// Size in memory once loaded.
    pub memsz: u64,
}

/// One symbol-table entry, reduced to the fields the conversion reads.
pub struct Symbol {
    /// Symbol name bytes.
    pub name: Vec<u8>,
    /// Symbol value (an address).
    pub value: u64,
    /// Symbol size in bytes.
    pub size: u64,
}

/// Everything the conversion needs from one input ELF file. The symbol list
/// holds the entries of the symbol table, and is empty when the file has
/// none.
pub struct ElfInput {
    /// All sections, in declaration order.
    pub sections: Vec<Section>,
    /// All program segments, in declaration order.
    pub segments: Vec<Segment>,
    /// The entry-point address.
    pub entry: u64,
    /// The symbol table's entries.
    pub symbols: Vec<Symbol>,
}

/// The error a conversion can report.
#[derive(Clone, Copy, Debug, PartialEq, Eq, Structural)]
pub enum TbfError {
    /// A crt section was selected for the image but its contents are not
    /// exactly the 40 bytes of the startup record, so patching it would
    /// read or write out of bounds.
    CrtRecordSizeMismatch,
}

/// `m` occurs as a contiguous run inside `s`.
pub open spec fn seq_contains(s: Seq<u8>, m: Seq<u8>) -> bool {
    exists|k: int| 0 <= k && k + m.len() <= s.len() && #[trigger] s.subrange(k, k + m.len()) == m
}

/// Reports whether `marker` occurs as a contiguous run inside `name`.
pub fn contains_marker(name: &Vec<u8>, marker: &Vec<u8>) -> (r: bool)
    ensures
        r == seq_contains(name@, marker@),
{
    let n = name.len();
    let m = marker.len();
    if m > n {
        proof {
            assert(!seq_contains(name@, marker@));
        }
        return false;
    }
    if m == 0 {
        proof {
            assert(name@.subrange(0, 0 + marker@.len() as int) =~= marker@);
        }
        return true;
    }
    let mut k: usize = 0;
    while k <= n - m
        invariant
            1 <= m <= n,
            n == name@.len(),
            m == marker@.len(),
            k <= n - m + 1,
            forall|kk: int| 0 <= kk < k ==> #[trigger] name@.subrange(kk, kk + m) != marker@,
        decreases n - m + 1 - k,
    {
        let mut j: usize = 0;
        let mut matched = true;
        while j < m && matched
            invariant
                m <= n,
                n == name@.len(),
                m == marker@.len(),
                k + m <= n,
                j <= m,
                matched ==> forall|jj: int| 0 <= jj < j ==> name@[k + jj] == marker@[jj],
                !matched ==> name@.subrange(k as int, k + m) != marker@,
            decreases m - j + (if matched { 1int } else { 0int }),
        {
            if name[k + j] != marker[j] {
                matched = false;
                proof {
                    assert(name@.subrange(k as int, k + m) != marker@) by {
                        assert(name@.subrange(k as int, k + m)[j as int] != marker@[j as int]);
                    }
                }
            } else {
                j += 1;
            }
        }
        if matched {
            proof {
                assert(name@.subrange(k as int, k + m) =~= marker@);
            }
            return true;
        }
        proof {
            assert(name@.subrange(k as int, k + m) != marker@);
        }
        k += 1;
    }
    proof {
        assert forall|kk: int| 0 <= kk && kk + marker@.len() <= name@.len()
            implies #[trigger] name@.subrange(kk, kk + marker@.len()) != marker@ by {
            assert(kk < k);
        }
    }
    false
}

/// The marker in a section name that makes the section a writeable flash
/// region: the bytes of ".wfr".
pub open spec fn wfr_marker() -> Seq<u8> {
    seq![0x2eu8, 0x77u8, 0x66u8, 0x72u8]
}

/// The marker in a section name that makes the section the startup (crt)
/// section: the bytes of "crt0".
pub open spec fn crt_marker() -> Seq<u8> {
    seq![0x63u8, 0x72u8, 0x74u8, 0x30u8]
}

/// The prefix of the name of a relocation companion section: the bytes of
/// ".rel".
pub open spec fn rel_prefix() -> Seq<u8> {
    seq![0x2eu8, 0x72u8, 0x65u8, 0x6cu8]
}

/// The marker in a symbol name that counts the symbol towards the embedded
/// vtable region: the bytes of "unnamed".
pub open spec fn unnamed_marker() -> Seq<u8> {
    seq![0x75u8, 0x6eu8, 0x6eu8, 0x61u8, 0x6du8, 0x65u8, 0x64u8]
}

/// The bytes of ".wfr" as a vector.
pub fn wfr_marker_vec() -> (v: Vec<u8>)
    ensures
        v@ == wfr_marker(),
{
    let mut v: Vec<u8> = Vec::new();
    v.push(0x2eu8);
    v.push(0x77u8);
    v.push(0x66u8);
    v.push(0x72u8);
    proof {
        assert(v@ =~= wfr_marker());
    }
    v
}

/// The bytes of "crt0" as a vector.
pub fn crt_marker_vec() -> (v: Vec<u8>)
    ensures
        v@ == crt_marker(),
{
    let mut v: Vec<u8> = Vec::new();
    v.push(0x63u8);
    v.push(0x72u8);
    v.push(0x74u8);
    v.push(0x30u8);
    proof {
        assert(v@ =~= crt_marker());
    }
    v
}

/// The bytes of ".rel" as a vector.
pub fn rel_prefix_vec() -> (v: Vec<u8>)
    ensures
        v@ == rel_prefix(),
{
    let mut v: Vec<u8> = Vec::new();
    v.push(0x2eu8);
    v.push(0x72u8);
    v.push(0x65u8);
    v.push(0x6cu8);
    proof {
        assert(v@ =~= rel_prefix());
    }
    v
}

/// The bytes of "unnamed" as a vector.
pub fn unnamed_marker_vec() -> (v: Vec<u8>)
    ensures
        v@ == unnamed_marker(),
{
    let mut v: Vec<u8> = Vec::new();
    v.push(0x75u8);
    v.push(0x6eu8);
    v.push(0x6eu8);
    v.push(0x61u8);
    v.push(0x6du8);
    v.push(0x65u8);
    v.push(0x64u8);
    proof {
        assert(v@ =~= unnamed_marker());
    }
    v
}

/// A section goes into the flash image when it is program bits, has contents,
/// and is writeable, executable or allocated.
pub open spec fn included(s: Section) -> bool {
    &&& (s.flags & (SHF_WRITE | SHF_EXECINSTR | SHF_ALLOC)) != 0
    &&& s.shtype == SHT_PROGBITS
    &&& s.size > 0
}

/// A section counts as a writeable flash region when its name holds the
/// ".wfr" marker and it has contents.
pub open spec fn wfr_sec(s: Section) -> bool {
    seq_contains(s.name@, wfr_marker()) && s.size > 0
}

/// A section is a relocation candidate when its flags are exactly
/// write + alloc: any further flag bit disqualifies it.
pub open spec fn rel_candidate(s: Section) -> bool {
    s.flags == SHF_WRITE + SHF_ALLOC
}

/// A section holds the startup record when its name holds the "crt0" marker.
pub open spec fn crt_sec(s: Section) -> bool {
    seq_contains(s.name@, crt_marker())
}

/// The sections a conversion works on are coherent: every section selected
/// for the image carries exactly as many content bytes as its declared size.
pub open spec fn sections_wf(sections: Seq<Section>) -> bool {
    forall|i: int| 0 <= i < sections.len() && included(#[trigger] sections[i])
        ==> sections[i].data@.len() == sections[i].size
}

} // verus!
