//! Per-page CRC-16 checksums of a firmware image, the values the device's
//! ChksumPages command is compared against.
use vstd::prelude::*;

use crate::command::copy_range;

verus! {

/// The CRC-16 checksum the protocol computes over a run of bytes.
pub uninterp spec fn crc16_of(bytes: Seq<u8>) -> u16;

/// Relies on crc_any's CRCu16::crc16xmodem (CRC-16/XMODEM, the CRC-16-CCITT
/// variant of this protocol): the checksum depends on the bytes alone.
#[verifier::external_body]
pub fn crc16(bytes: &Vec<u8>) -> (r: u16)
    ensures
        r == crc16_of(bytes@),
{
    let mut digest = crc_any::CRCu16::crc16xmodem();
    digest.digest(bytes.as_slice());
    digest.get_crc()
}

/// The bytes of page `i` of an image split into `page_size`-byte pages.
pub open spec fn spec_page(image: Seq<u8>, page_size: int, i: int) -> Seq<u8> {
    image.subrange(i * page_size, (i + 1) * page_size)
}

/// The CRC-16 of every page of `image`, in page order.
pub fn page_checksums(image: &Vec<u8>, page_size: u32) -> (r: Vec<u16>)
    requires
        page_size >= 1,
        image@.len() as int % (page_size as int) == 0,
    ensures
        r@.len() == image@.len() as int / (page_size as int),
        forall|i: int|
            0 <= i < r@.len() ==> r@[i] == crc16_of(spec_page(image@, page_size as int, i)),
{
    let n: usize = image.len();
    let ps: usize = page_size as usize;
    let count: usize = n / ps;
    proof {
        assert((count as int) * (ps as int) == n) by (nonlinear_arith)
            requires
                count as int == n as int / ps as int,
                n as int % ps as int == 0,
                ps >= 1,
        ;
    }
    let mut r: Vec<u16> = Vec::new();
    let mut i: usize = 0;
    let mut off: usize = 0;
    while i < count
        invariant
            i <= count,
            off == i * ps,
            n == image@.len(),
            ps == page_size,
            page_size >= 1,
            (count as int) * (ps as int) == n,
            r@.len() == i,
            forall|j: int|
                0 <= j < i ==> r@[j] == crc16_of(spec_page(image@, page_size as int, j)),
        decreases count - i,
    {
        proof {
            assert((i as int + 1) * (ps as int) <= (count as int) * (ps as int) && (i as int + 1)
                * (ps as int) == i as int * (ps as int) + ps as int) by (nonlinear_arith)
                requires
                    i as int + 1 <= count as int,
                    ps >= 1,
            ;
        }
        let page = copy_range(image, off, off + ps);
        let sum = crc16(&page);
        r.push(sum);
        i = i + 1;
        off = off + ps;
    }
    r
}

} // verus!
