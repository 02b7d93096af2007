//! Extraction of a flat firmware image from an ELF file: the loadable,
//! readable program headers are laid out in file order, with any address
//! gap between two consecutive segments filled with zero bytes.
use vstd::prelude::*;

use crate::command::copy_range;
use crate::utils::UtilError;

verus! {

/// ELF program header type of a loadable segment.
pub const PT_LOAD: u32 = 1;

/// Readable-segment flag bit of an ELF program header.
pub const PF_R: u32 = 4;

/// One program header, reduced to the fields the extractor reads.
#[derive(Clone, Copy, Debug, PartialEq, Eq, Structural)]
pub struct ProgramHeader {
    /// The segment's type; only `PT_LOAD` segments are taken.
    pub p_type: u32,
    /// The segment's permission flags.
    pub p_flags: u32,
    /// Where the segment's bytes start in the file.
    pub p_offset: u64,
    /// The physical address the segment is loaded at.
    pub p_paddr: u64,
    /// How many bytes the segment takes from the file.
    pub p_filesz: u64,
}

/// The tuple form of one header, used to state what parsing returns.
pub open spec fn header_tuple(h: ProgramHeader) -> (u32, u32, u64, u64, u64) {
    (h.p_type, h.p_flags, h.p_offset, h.p_paddr, h.p_filesz)
}

/// The header a parsed tuple stands for.
pub open spec fn header_of_tuple(t: (u32, u32, u64, u64, u64)) -> ProgramHeader {
    ProgramHeader { p_type: t.0, p_flags: t.1, p_offset: t.2, p_paddr: t.3, p_filesz: t.4 }
}

/// What an ELF buffer parses to: the ELF header's own size and the program
/// header table, each entry as (p_type, p_flags, p_offset, p_paddr,
/// p_filesz) in file order; nothing when the buffer is not valid ELF.
pub uninterp spec fn elf_load_table(bytes: Seq<u8>) -> Option<
    (u16, Seq<(u32, u32, u64, u64, u64)>),
>;

/// Relies on goblin::elf::Elf::parse: whether a buffer parses, the
/// e_ehsize field of its header, and its program header table depend on
/// the buffer alone, and the table keeps the file's order.
#[verifier::external_body]
pub fn parse_elf(bytes: &Vec<u8>) -> (r: Result<(u16, Vec<ProgramHeader>), UtilError>)
    ensures
        r is Ok <==> elf_load_table(bytes@) is Some,
        r is Ok ==> r->Ok_0.0 == elf_load_table(bytes@)->Some_0.0,
        r is Ok ==> r->Ok_0.1@.map_values(|h: ProgramHeader| header_tuple(h)) == elf_load_table(
            bytes@,
        )->Some_0.1,
        r is Err ==> r->Err_0 == UtilError::Elf,
{
    let elf = match goblin::elf::Elf::parse(bytes.as_slice()) {
        Ok(e) => e,
        Err(_) => return Err(UtilError::Elf),
    };
    let to_header = |p: &goblin::elf::ProgramHeader| ProgramHeader {
        p_type: p.p_type, p_flags: p.p_flags, p_offset: p.p_offset,
        p_paddr: p.p_paddr, p_filesz: p.p_filesz,
    };
    Ok((elf.header.e_ehsize, elf.program_headers.iter().map(to_header).collect()))
}

/// Whether the extractor takes a header: loadable, with file contents,
/// placed at or beyond the ELF header, and readable.
pub open spec fn spec_qualifies(h: ProgramHeader, ehsize: int) -> bool {
    &&& h.p_type == PT_LOAD
    &&& h.p_filesz > 0
    &&& h.p_offset >= ehsize
    &&& h.p_flags & PF_R != 0
}

/// The qualifying headers among the first `j`, in file order.
pub open spec fn quals_upto(hs: Seq<ProgramHeader>, ehsize: int, j: int) -> Seq<ProgramHeader>
    decreases j,
{
    if j <= 0 {
        Seq::empty()
    } else {
        let prev = quals_upto(hs, ehsize, j - 1);
        if spec_qualifies(hs[j - 1], ehsize) {
            prev + seq![hs[j - 1]]
        } else {
            prev
        }
    }
}

/// All qualifying headers, in file order.
pub open spec fn spec_quals(hs: Seq<ProgramHeader>, ehsize: int) -> Seq<ProgramHeader> {
    quals_upto(hs, ehsize, hs.len() as int)
}

/// A run of `n` zero bytes.
pub open spec fn zeros(n: int) -> Seq<u8> {
    Seq::new(n as nat, |i: int| 0u8)
}

/// The zero-filled gap before qualifying segment `k`: from the true end of
/// the previous segment up to this one's physical address, and nothing
/// before the first segment or where segments touch or overlap.
pub open spec fn spec_gap(qs: Seq<ProgramHeader>, k: int) -> int {
    if k <= 0 {
        0
    } else {
        let prev_end = qs[k - 1].p_paddr + qs[k - 1].p_filesz;
        if qs[k].p_paddr > prev_end {
            qs[k].p_paddr - prev_end
        } else {
            0
        }
    }
}

/// The file bytes of one segment.
pub open spec fn spec_seg_bytes(file: Seq<u8>, h: ProgramHeader) -> Seq<u8> {
    file.subrange(h.p_offset as int, h.p_offset + h.p_filesz)
}

/// The flat image of the first `k` qualifying segments: each segment's gap
/// zeros, then its file bytes, in order.
pub open spec fn flat_upto(file: Seq<u8>, qs: Seq<ProgramHeader>, k: int) -> Seq<u8>
    decreases k,
{
    if k <= 0 {
        Seq::empty()
    } else {
        flat_upto(file, qs, k - 1) + zeros(spec_gap(qs, k - 1)) + spec_seg_bytes(file, qs[k - 1])
    }
}

/// The flat image of all qualifying segments.
pub open spec fn spec_flat(file: Seq<u8>, qs: Seq<ProgramHeader>) -> Seq<u8> {
    flat_upto(file, qs, qs.len() as int)
}

/// Whether one segment's bytes lie within the file and its end address
/// stays within u64.
pub open spec fn spec_seg_ok(file_len: int, h: ProgramHeader) -> bool {
    &&& h.p_offset + h.p_filesz <= file_len
    &&& h.p_paddr + h.p_filesz <= u64::MAX
}

/// Earlier qualifying-header lists are prefixes of later ones.
proof fn lemma_quals_prefix(hs: Seq<ProgramHeader>, ehsize: int, j1: int, j2: int)
    requires
        j1 <= j2,
    ensures
        quals_upto(hs, ehsize, j1).len() <= quals_upto(hs, ehsize, j2).len(),
        quals_upto(hs, ehsize, j1) == quals_upto(hs, ehsize, j2).subrange(
            0,
            quals_upto(hs, ehsize, j1).len() as int,
        ),
    decreases j2 - j1,
{
    if j1 < j2 {
        lemma_quals_prefix(hs, ehsize, j1, j2 - 1);
        let a = quals_upto(hs, ehsize, j1);
        let b = quals_upto(hs, ehsize, j2 - 1);
        let c = quals_upto(hs, ehsize, j2);
        assert(a =~= c.subrange(0, a.len() as int)) by {
            assert(a == b.subrange(0, a.len() as int));
        }
    }
}

/// The flat image of the first `k` segments reads only those segments, so
/// a longer list with the same prefix gives the same image.
proof fn lemma_flat_upto_prefix(file: Seq<u8>, qs1: Seq<ProgramHeader>, qs2: Seq<ProgramHeader>, k: int)
    requires
        0 <= k <= qs1.len() <= qs2.len(),
        qs1 == qs2.subrange(0, qs1.len() as int),
    ensures
        flat_upto(file, qs2, k) == flat_upto(file, qs1, k),
    decreases k,
{
    if k > 0 {
        lemma_flat_upto_prefix(file, qs1, qs2, k - 1);
        assert(qs1[k - 1] == qs2[k - 1]);
        if k - 1 > 0 {
            assert(qs1[k - 2] == qs2[k - 2]);
        }
        assert(spec_gap(qs2, k - 1) == spec_gap(qs1, k - 1));
    }
}

/// A longer prefix of segments never gives a shorter image.
proof fn lemma_flat_upto_len_mono(file: Seq<u8>, qs: Seq<ProgramHeader>, k1: int, k2: int)
    requires
        0 <= k1 <= k2,
    ensures
        flat_upto(file, qs, k1).len() <= flat_upto(file, qs, k2).len(),
    decreases k2 - k1,
{
    if k1 < k2 {
        lemma_flat_upto_len_mono(file, qs, k1, k2 - 1);
    }
}

/// Turn an ELF file's loadable segments into one contiguous image: the
/// first qualifying header sets the load address, each later one is
/// preceded by the zero fill of its address gap. An ELF with no
/// qualifying header has no image and is refused as `InvalidBinary`; a
/// qualifying segment that reaches outside the file, or an image too
/// large to hold, is refused as `Elf`.
pub fn flatten_segments(file: &Vec<u8>, ehsize: u16, headers: &Vec<ProgramHeader>) -> (r: Result<
    (Vec<u8>, u32),
    UtilError,
>)
    ensures
        ({
            let qs = spec_quals(headers@, ehsize as int);
            &&& (r is Ok <==> (qs.len() > 0 && (forall|k: int|
                0 <= k < qs.len() ==> spec_seg_ok(file@.len() as int, #[trigger] qs[k]))
                && spec_flat(file@, qs).len() <= usize::MAX))
            &&& (r is Ok ==> r->Ok_0.0@ == spec_flat(file@, qs))
            &&& (r is Ok ==> r->Ok_0.1 == qs[0].p_paddr as u32)
            &&& (r == Err::<(Vec<u8>, u32), UtilError>(UtilError::InvalidBinary) <==> qs.len()
                == 0)
            &&& (r is Err ==> (r->Err_0 == UtilError::Elf || r->Err_0
                == UtilError::InvalidBinary))
        }),
{
    let flen: usize = file.len();
    let mut data: Vec<u8> = Vec::new();
    let mut start_address: u32 = 0;
    let mut found_first: bool = false;
    let mut last_end: u64 = 0;
    let mut j: usize = 0;
    while j < headers.len()
        invariant
            j <= headers@.len(),
            flen == file@.len(),
            ({
                let qsj = quals_upto(headers@, ehsize as int, j as int);
                &&& (found_first <==> qsj.len() > 0)
                &&& forall|k: int|
                    0 <= k < qsj.len() ==> spec_seg_ok(flen as int, #[trigger] qsj[k])
                &&& data@ == flat_upto(file@, qsj, qsj.len() as int)
                &&& (qsj.len() > 0 ==> start_address == qsj[0].p_paddr as u32)
                &&& last_end == (if qsj.len() > 0 {
                    (qsj[qsj.len() - 1].p_paddr + qsj[qsj.len() - 1].p_filesz) as int
                } else {
                    0
                })
            }),
        decreases headers@.len() - j,
    {
        let ghost qsj = quals_upto(headers@, ehsize as int, j as int);
        let ghost qs_full = spec_quals(headers@, ehsize as int);
        let ghost qc = qsj.len() as int;
        let h = headers[j];
        let qualifies = h.p_type == PT_LOAD && h.p_filesz > 0 && h.p_offset >= ehsize as u64 && (
        h.p_flags & PF_R) != 0;
        proof {
            assert(qualifies == spec_qualifies(h, ehsize as int));
            assert(quals_upto(headers@, ehsize as int, j as int + 1) == (if spec_qualifies(
                h,
                ehsize as int,
            ) {
                qsj + seq![h]
            } else {
                qsj
            }));
        }
        if qualifies {
            let ghost qsj1 = quals_upto(headers@, ehsize as int, j as int + 1);
            proof {
                assert(qsj1 == qsj + seq![h]);
                assert(qsj1.len() == qc + 1);
                assert(qsj =~= qsj1.subrange(0, qc));
                lemma_quals_prefix(headers@, ehsize as int, j as int + 1, headers@.len() as int);
                assert(qsj1 == qs_full.subrange(0, qc + 1));
                assert(qs_full[qc] == qsj1[qc] && qsj1[qc] == h);
            }
            if h.p_filesz > flen as u64 || h.p_offset > flen as u64 - h.p_filesz {
                proof {
                    assert(!spec_seg_ok(flen as int, qs_full[qc]));
                }
                return Err(UtilError::Elf);
            }
            if h.p_paddr > u64::MAX - h.p_filesz {
                proof {
                    assert(!spec_seg_ok(flen as int, qs_full[qc]));
                }
                return Err(UtilError::Elf);
            }
            let gap: u64 = if found_first && h.p_paddr > last_end {
                h.p_paddr - last_end
            } else {
                0
            };
            proof {
                assert(flat_upto(file@, qsj1, qc) == flat_upto(file@, qsj, qc)) by {
                    lemma_flat_upto_prefix(file@, qsj, qsj1, qc);
                }
                assert(spec_gap(qsj1, qc) == gap as int);
                assert(flat_upto(file@, qsj1, qc + 1) == data@ + zeros(gap as int)
                    + spec_seg_bytes(file@, h));
                assert(spec_seg_bytes(file@, h).len() == h.p_filesz);
                assert(data@.len() == data.len());
            }
            let dlen: usize = data.len();
            if gap > (usize::MAX - dlen) as u64 {
                proof {
                    lemma_flat_upto_prefix(file@, qsj1, qs_full, qc + 1);
                    lemma_flat_upto_len_mono(file@, qs_full, qc + 1, qs_full.len() as int);
                }
                return Err(UtilError::Elf);
            }
            if h.p_filesz > (usize::MAX - dlen) as u64 - gap {
                proof {
                    lemma_flat_upto_prefix(file@, qsj1, qs_full, qc + 1);
                    lemma_flat_upto_len_mono(file@, qs_full, qc + 1, qs_full.len() as int);
                }
                return Err(UtilError::Elf);
            }
            if !found_first {
                start_address = h.p_paddr as u32;
                found_first = true;
            }
            let gap_us: usize = gap as usize;
            let mut g: usize = 0;
            let ghost data_before = data@;
            while g < gap_us
                invariant
                    g <= gap_us,
                    data@ == data_before + zeros(g as int),
                decreases gap_us - g,
            {
                data.push(0u8);
                proof {
                    assert(data_before + zeros(g as int) + seq![0u8] =~= data_before + zeros(
                        g as int + 1,
                    ));
                }
                g = g + 1;
            }
            let mut seg = copy_range(file, h.p_offset as usize, (h.p_offset + h.p_filesz) as usize);
            proof {
                assert(seg@ == spec_seg_bytes(file@, h));
            }
            data.append(&mut seg);
            last_end = h.p_paddr + h.p_filesz;
            proof {
                assert(data@ == flat_upto(file@, qsj1, qc + 1));
                if qc > 0 {
                    assert(qsj1[qc - 1] == qsj[qc - 1]);
                }
                assert(qsj1[0] == (if qc == 0 {
                    h
                } else {
                    qsj[0]
                }));
            }
        }
        j = j + 1;
    }
    if !found_first {
        return Err(UtilError::InvalidBinary);
    }
    proof {
        assert(data@.len() == data.len());
    }
    Ok((data, start_address))
}

/// Extract a flat binary and its load address from the bytes of an ELF
/// file: parse the program headers, then lay the loadable segments out
/// with their gaps zero-filled.
pub fn elf_to_bin(bytes: &Vec<u8>) -> (r: Result<(Vec<u8>, u32), UtilError>)
    ensures
        elf_load_table(bytes@) is None ==> r == Err::<(Vec<u8>, u32), UtilError>(UtilError::Elf),
        r is Ok ==> elf_load_table(bytes@) is Some,
        ({
            let parsed = elf_load_table(bytes@)->Some_0;
            let qs = spec_quals(
                parsed.1.map_values(|t: (u32, u32, u64, u64, u64)| header_of_tuple(t)),
                parsed.0 as int,
            );
            &&& (r is Ok ==> qs.len() > 0 && r->Ok_0.0@ == spec_flat(bytes@, qs) && r->Ok_0.1
                == qs[0].p_paddr as u32)
            &&& (r == Err::<(Vec<u8>, u32), UtilError>(UtilError::InvalidBinary) <==> (
            elf_load_table(bytes@) is Some && qs.len() == 0))
        }),
        r is Err ==> (r->Err_0 == UtilError::Elf || r->Err_0 == UtilError::InvalidBinary),
{
    let parsed = match parse_elf(bytes) {
        Ok(p) => p,
        Err(e) => {
            return Err(e);
        },
    };
    let (ehsize, headers) = parsed;
    proof {
        let table = elf_load_table(bytes@)->Some_0.1;
        let mapped = table.map_values(|t: (u32, u32, u64, u64, u64)| header_of_tuple(t));
        assert(headers@ =~= mapped) by {
            assert(headers@.map_values(|h: ProgramHeader| header_tuple(h)) == table);
            assert forall|i: int| 0 <= i < headers@.len() implies #[trigger] mapped[i]
                == headers@[i] by {
                assert(table[i] == headers@.map_values(|h: ProgramHeader| header_tuple(h))[i]);
                assert(table[i] == header_tuple(headers@[i]));
            }
        }
    }
    flatten_segments(bytes, ehsize, &headers)
}

} // verus!
