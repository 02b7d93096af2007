//! The flash synchronizer: pad an image to whole pages, fetch the device's
//! per-page checksums, rewrite only the pages that differ, verify, and
//! reboot into the application.
use vstd::prelude::*;

use crate::bininfo::{BinInfoMode, BinInfoResponse};
use crate::chksumpages::ChksumPages;
use crate::command::copy_range;
use crate::crc16::page_checksums;
use crate::resetintoapp::ResetIntoApp;
use crate::startflash::StartFlash;
use crate::writeflashpage::WriteFlashPage;
use crate::Error;
use crate::ReadWrite;

verus! {

/// Errors of the flashing layer.
#[derive(Clone, Copy, Debug, PartialEq, Eq)]
pub enum UtilError {
    /// A firmware file could not be read.
    File,
    /// The firmware image is empty or has no loadable contents.
    InvalidBinary,
    /// The buffer is not a usable ELF file.
    Elf,
    /// A protocol-level failure that is not a communication failure.
    Internal,
    /// Talking to the device failed.
    Communication,
    /// After writing, the device's flash still differs from the image.
    ContentsDifferent,
}

/// How a protocol error surfaces to the flashing layer.
pub open spec fn spec_util_error(err: Error) -> UtilError {
    match err {
        Error::Parse => UtilError::Communication,
        Error::Transmission => UtilError::Communication,
        _ => UtilError::Internal,
    }
}

impl core::convert::From<Error> for UtilError {
    fn from(err: Error) -> (r: UtilError) {
        match err {
            Error::Parse | Error::Transmission => UtilError::Communication,
            _ => UtilError::Internal,
        }
    }
}

impl vstd::std_specs::convert::FromSpecImpl<Error> for UtilError {
    open spec fn obeys_from_spec() -> bool {
        true
    }

    open spec fn from_spec(err: Error) -> UtilError {
        spec_util_error(err)
    }
}

/// The length of `len` bytes padded up to whole `page_size`-byte pages.
pub open spec fn spec_padded_len(len: int, page_size: int) -> int {
    ((len + page_size - 1) / page_size) * page_size
}

/// Padding reaches the next page boundary at or after `len`.
pub proof fn lemma_padded_len(len: int, page_size: int)
    requires
        page_size >= 1,
        len >= 0,
    ensures
        spec_padded_len(len, page_size) % page_size == 0,
        len <= spec_padded_len(len, page_size) < len + page_size,
        spec_padded_len(len, page_size) / page_size == (len + page_size - 1) / page_size,
{
    let q = (len + page_size - 1) / page_size;
    let r = (len + page_size - 1) % page_size;
    vstd::arithmetic::div_mod::lemma_fundamental_div_mod(len + page_size - 1, page_size);
    vstd::arithmetic::div_mod::lemma_mod_multiples_basic(q, page_size);
    assert(q * page_size % page_size == 0);
    assert(len + page_size - 1 == page_size * q + r);
    assert(q * page_size == page_size * q) by (nonlinear_arith);
    vstd::arithmetic::div_mod::lemma_div_multiples_vanish(q, page_size);
    assert((q * page_size) / page_size == q);
}

/// Pad `binary` with trailing zero bytes up to the next multiple of
/// `page_size`: the image keeps its bytes, and only zeros follow them.
pub fn pad_to_page_size(binary: &Vec<u8>, page_size: u32) -> (r: Vec<u8>)
    requires
        page_size >= 1,
        binary@.len() + page_size <= u32::MAX,
    ensures
        r@.len() == spec_padded_len(binary@.len() as int, page_size as int),
        r@.subrange(0, binary@.len() as int) == binary@,
        forall|i: int| binary@.len() <= i < r@.len() ==> r@[i] == 0,
        r@.len() as int % (page_size as int) == 0,
        binary@.len() <= r@.len() < binary@.len() + page_size,
{
    proof {
        lemma_padded_len(binary@.len() as int, page_size as int);
    }
    let len32: u32 = binary.len() as u32;
    let pages: u32 = (len32 + (page_size - 1)) / page_size;
    proof {
        assert((pages as int) * (page_size as int) == spec_padded_len(
            binary@.len() as int,
            page_size as int,
        ));
        assert((pages as int) * (page_size as int) < binary@.len() + page_size);
    }
    let padded_size: u32 = pages * page_size;
    let mut r = copy_range(binary, 0, binary.len());
    assert(r@ =~= binary@);
    while r.len() < padded_size as usize
        invariant
            binary@.len() <= r@.len() <= padded_size,
            padded_size == spec_padded_len(binary@.len() as int, page_size as int),
            r@.subrange(0, binary@.len() as int) == binary@,
            forall|i: int| binary@.len() <= i < r@.len() ==> r@[i] == 0,
        decreases padded_size - r@.len(),
    {
        r.push(0u8);
        assert(r@.subrange(0, binary@.len() as int) == binary@);
    }
    r
}

/// The page indices whose local and device checksums differ, from index
/// `k` on, in ascending order.
pub open spec fn mismatches_from(local: Seq<u16>, device: Seq<u16>, k: int) -> Seq<int>
    decreases local.len() - k,
{
    if k < 0 || k >= local.len() {
        Seq::empty()
    } else if local[k] != device[k] {
        seq![k] + mismatches_from(local, device, k + 1)
    } else {
        mismatches_from(local, device, k + 1)
    }
}

/// The page indices whose local and device checksums differ, ascending.
pub open spec fn spec_mismatches(local: Seq<u16>, device: Seq<u16>) -> Seq<int> {
    mismatches_from(local, device, 0)
}

/// Where the tables agree from `k` on, no mismatch is listed.
proof fn lemma_mismatches_from_empty(local: Seq<u16>, device: Seq<u16>, k: int)
    requires
        forall|i: int| k <= i < local.len() ==> local[i] == #[trigger] device[i],
    ensures
        mismatches_from(local, device, k) =~= Seq::<int>::empty(),
    decreases local.len() - k,
{
    if 0 <= k < local.len() {
        lemma_mismatches_from_empty(local, device, k + 1);
    }
}

/// Diff minimality, matching half: a device table identical to the local
/// table asks for no page write at all.
pub proof fn lemma_diff_write_skips_matching(local: Seq<u16>, device: Seq<u16>)
    requires
        local == device,
    ensures
        spec_mismatches(local, device) =~= Seq::<int>::empty(),
{
    lemma_mismatches_from_empty(local, device, 0);
}

/// Where exactly `j` differs from `k` on, only `j` is listed.
proof fn lemma_mismatches_from_single(local: Seq<u16>, device: Seq<u16>, k: int, j: int)
    requires
        0 <= k <= j < local.len(),
        local.len() == device.len(),
        local[j] != device[j],
        forall|i: int| k <= i < local.len() && i != j ==> local[i] == #[trigger] device[i],
    ensures
        mismatches_from(local, device, k) =~= seq![j],
    decreases local.len() - k,
{
    if k == j {
        lemma_mismatches_from_empty(local, device, k + 1);
        assert(mismatches_from(local, device, k) =~= seq![j] + Seq::<int>::empty());
    } else {
        lemma_mismatches_from_single(local, device, k + 1, j);
    }
}

/// Diff minimality, single-page half: a device table that differs from the
/// local table in exactly one page asks for exactly that page, and no
/// other, to be written.
pub proof fn lemma_diff_write_single_page(local: Seq<u16>, device: Seq<u16>, j: int)
    requires
        local.len() == device.len(),
        0 <= j < local.len(),
        local[j] != device[j],
        forall|i: int| 0 <= i < local.len() && i != j ==> local[i] == #[trigger] device[i],
    ensures
        spec_mismatches(local, device) =~= seq![j],
{
    lemma_mismatches_from_single(local, device, 0, j);
}

/// The indices of the pages whose checksum in `local` differs from the one
/// in `device`, in ascending order: exactly the pages a diff-write rewrites.
pub fn pages_to_write(local: &Vec<u16>, device: &Vec<u16>) -> (r: Vec<usize>)
    requires
        local@.len() == device@.len(),
    ensures
        r@.map_values(|u: usize| u as int) == spec_mismatches(local@, device@),
        forall|i: int| 0 <= i < r@.len() ==> r@[i] < local@.len(),
{
    let n: usize = local.len();
    let mut r: Vec<usize> = Vec::new();
    let mut k: usize = 0;
    while k < n
        invariant
            k <= n,
            n == local@.len() == device@.len(),
            spec_mismatches(local@, device@) == r@.map_values(|u: usize| u as int)
                + mismatches_from(local@, device@, k as int),
            forall|i: int| 0 <= i < r@.len() ==> r@[i] < n,
        decreases n - k,
    {
        let ghost before = r@.map_values(|u: usize| u as int);
        if local[k] != device[k] {
            r.push(k);
            proof {
                assert(r@.map_values(|u: usize| u as int) =~= before + seq![k as int]);
                assert(before + (seq![k as int] + mismatches_from(
                    local@,
                    device@,
                    k as int + 1,
                )) =~= (before + seq![k as int]) + mismatches_from(local@, device@, k as int + 1));
            }
        }
        k = k + 1;
    }
    proof {
        assert(mismatches_from(local@, device@, n as int) =~= Seq::<int>::empty());
        assert(r@.map_values(|u: usize| u as int) + Seq::<int>::empty() =~= r@.map_values(
            |u: usize| u as int,
        ));
    }
    r
}

/// The checksum requests that cover pages `[start, total)` in batches of at
/// most `max` pages: each entry is the first page and the page count of one
/// request.
pub open spec fn spec_plan(start: int, total: int, max: int) -> Seq<(int, int)>
    decreases total - start,
{
    if max < 1 || start >= total {
        Seq::empty()
    } else {
        let b = vstd::math::min(max, total - start);
        seq![(start, b)] + spec_plan(start + b, total, max)
    }
}

/// Checksum table completeness: the requests of the plan cover the pages
/// `[start, total)` exactly once, in ascending adjacent runs — the first
/// request starts at `start`, each next one starts where the previous
/// ended, the last one ends at `total` — and no request asks for more than
/// `max` pages.
pub proof fn lemma_plan_shape(start: int, total: int, max: int)
    requires
        max >= 1,
        start <= total,
    ensures
        ({
            let plan = spec_plan(start, total, max);
            &&& forall|i: int| 0 <= i < plan.len() ==> 1 <= (#[trigger] plan[i]).1 <= max
            &&& forall|i: int|
                0 <= i < plan.len() ==> start <= (#[trigger] plan[i]).0 && plan[i].0 + plan[i].1
                    <= total
            &&& forall|i: int|
                0 <= i < plan.len() - 1 ==> (#[trigger] plan[i]).0 + plan[i].1 == plan[i + 1].0
            &&& (plan.len() > 0 <==> start < total)
            &&& plan.len() > 0 ==> plan[0].0 == start
            &&& plan.len() > 0 ==> plan[plan.len() - 1].0 + plan[plan.len() - 1].1 == total
            &&& forall|i: int, j: int|
                0 <= i < j < plan.len() ==> (#[trigger] plan[i]).0 + plan[i].1
                    <= (#[trigger] plan[j]).0
        }),
    decreases total - start,
{
    let plan = spec_plan(start, total, max);
    if start < total {
        let b = vstd::math::min(max, total - start);
        let tail = spec_plan(start + b, total, max);
        lemma_plan_shape(start + b, total, max);
        assert(plan == seq![(start, b)] + tail);
        assert(plan[0] == (start, b));
        assert forall|i: int| 0 <= i < plan.len() implies 1 <= (#[trigger] plan[i]).1 <= max by {
            if i > 0 {
                assert(plan[i] == tail[i - 1]);
            }
        }
        assert forall|i: int| 0 <= i < plan.len() implies start <= (#[trigger] plan[i]).0
            && plan[i].0 + plan[i].1 <= total by {
            if i > 0 {
                assert(plan[i] == tail[i - 1]);
            }
        }
        assert forall|i: int| 0 <= i < plan.len() - 1 implies (#[trigger] plan[i]).0 + plan[i].1
            == plan[i + 1].0 by {
            if i == 0 {
                if tail.len() > 0 {
                    assert(plan[1] == tail[0]);
                }
            } else {
                assert(plan[i] == tail[i - 1]);
                assert(plan[i + 1] == tail[i]);
            }
        }
        if tail.len() > 0 {
            assert(plan[plan.len() - 1] == tail[tail.len() - 1]);
        }
        assert forall|i: int, j: int| 0 <= i < j < plan.len() implies (#[trigger] plan[i]).0
            + plan[i].1 <= (#[trigger] plan[j]).0 by {
            assert(plan[j] == tail[j - 1]);
            if i > 0 {
                assert(plan[i] == tail[i - 1]);
            }
        }
    }
}

/// Checksum table completeness, per page: every page in `[start, total)`
/// falls inside some request of the plan (and, by the plan's disjointness,
/// inside exactly one).
pub proof fn lemma_plan_covers_page(start: int, total: int, max: int, p: int)
    requires
        max >= 1,
        start <= p < total,
    ensures
        exists|i: int|
            0 <= i < spec_plan(start, total, max).len() && (#[trigger] spec_plan(
                start,
                total,
                max,
            )[i]).0 <= p < spec_plan(start, total, max)[i].0 + spec_plan(start, total, max)[i].1,
    decreases total - start,
{
    let plan = spec_plan(start, total, max);
    let b = vstd::math::min(max, total - start);
    if p < start + b {
        assert(plan[0] == (start, b));
        assert(0 <= 0 < plan.len() && plan[0].0 <= p < plan[0].0 + plan[0].1);
    } else {
        lemma_plan_covers_page(start + b, total, max, p);
        let tail = spec_plan(start + b, total, max);
        let w = choose|i: int| 0 <= i < tail.len() && (#[trigger] tail[i]).0 <= p < tail[i].0
            + tail[i].1;
        assert(plan[w + 1] == tail[w]);
        assert(0 <= w + 1 < plan.len() && plan[w + 1].0 <= p < plan[w + 1].0 + plan[w + 1].1);
    }
}

/// Build the checksum request plan for `num_pages` pages in batches of at
/// most `max_pages`.
pub fn build_plan(num_pages: u32, max_pages: u32) -> (r: Vec<(u32, u32)>)
    requires
        max_pages >= 1,
    ensures
        r@.map_values(|e: (u32, u32)| (e.0 as int, e.1 as int)) == spec_plan(
            0,
            num_pages as int,
            max_pages as int,
        ),
{
    let ghost splan = spec_plan(0, num_pages as int, max_pages as int);
    let mut r: Vec<(u32, u32)> = Vec::new();
    let mut done: u32 = 0;
    while done < num_pages
        invariant
            done <= num_pages,
            max_pages >= 1,
            splan == spec_plan(0, num_pages as int, max_pages as int),
            splan == r@.map_values(|e: (u32, u32)| (e.0 as int, e.1 as int)) + spec_plan(
                done as int,
                num_pages as int,
                max_pages as int,
            ),
        decreases num_pages - done,
    {
        let ghost before = r@.map_values(|e: (u32, u32)| (e.0 as int, e.1 as int));
        let remaining = num_pages - done;
        let batch = if remaining < max_pages {
            remaining
        } else {
            max_pages
        };
        r.push((done, batch));
        proof {
            assert(vstd::math::min(max_pages as int, num_pages as int - done as int)
                == batch as int);
            assert(spec_plan(done as int, num_pages as int, max_pages as int) == seq![
                (done as int, batch as int),
            ] + spec_plan(done as int + batch as int, num_pages as int, max_pages as int));
            assert(r@.map_values(|e: (u32, u32)| (e.0 as int, e.1 as int)) =~= before + seq![
                (done as int, batch as int),
            ]);
            assert(before + (seq![(done as int, batch as int)] + spec_plan(
                done as int + batch as int,
                num_pages as int,
                max_pages as int,
            )) =~= (before + seq![(done as int, batch as int)]) + spec_plan(
                done as int + batch as int,
                num_pages as int,
                max_pages as int,
            ));
        }
        done = done + batch;
    }
    proof {
        assert(spec_plan(done as int, num_pages as int, max_pages as int) == Seq::<(
            int,
            int,
        )>::empty());
        assert(r@.map_values(|e: (u32, u32)| (e.0 as int, e.1 as int)) + Seq::<(
            int,
            int,
        )>::empty() =~= r@.map_values(|e: (u32, u32)| (e.0 as int, e.1 as int)));
    }
    r
}

/// Fetch the device's checksum table for `num_pages` pages starting at
/// `address`: one ChksumPages request per plan entry, the answers
/// concatenated in page order. A device that answers with too few
/// checksums is a parse error, so a success holds exactly one checksum per
/// page.
pub fn fetch_checksums<T: ReadWrite>(
    d: &mut T,
    address: u32,
    num_pages: u32,
    page_size: u32,
    max_pages: u32,
) -> (r: Result<Vec<u16>, Error>)
    requires
        max_pages >= 1,
        page_size >= 1,
        address as int + (num_pages as int) * (page_size as int) <= u32::MAX,
    ensures
        r is Ok ==> r->Ok_0@.len() == num_pages as int,
        r is Err ==> (r->Err_0 == Error::Transmission || r->Err_0 == Error::Parse || r->Err_0
            == Error::Sequence || r->Err_0 == Error::CommandNotRecognized),
{
    let plan = build_plan(num_pages, max_pages);
    let ghost splan = spec_plan(0, num_pages as int, max_pages as int);
    proof {
        lemma_plan_shape(0, num_pages as int, max_pages as int);
    }
    let mut table: Vec<u16> = Vec::new();
    let mut i: usize = 0;
    while i < plan.len()
        invariant
            i <= plan@.len(),
            max_pages >= 1,
            page_size >= 1,
            address as int + (num_pages as int) * (page_size as int) <= u32::MAX,
            splan == spec_plan(0, num_pages as int, max_pages as int),
            splan == plan@.map_values(|e: (u32, u32)| (e.0 as int, e.1 as int)),
            table@.len() == (if i < plan@.len() {
                splan[i as int].0
            } else {
                num_pages as int
            }),
        decreases plan@.len() - i,
    {
        proof {
            lemma_plan_shape(0, num_pages as int, max_pages as int);
            assert(splan[i as int] == (plan@[i as int].0 as int, plan@[i as int].1 as int));
        }
        let off = plan[i].0;
        let batch = plan[i].1;
        proof {
            assert(off as int + batch as int <= num_pages as int);
            assert((off as int) * (page_size as int) + (batch as int) * (page_size as int) <= (
            num_pages as int) * (page_size as int)) by (nonlinear_arith)
                requires
                    off as int + batch as int <= num_pages as int,
                    page_size >= 1,
                    batch >= 1,
            ;
            assert((batch as int) * (page_size as int) >= 1) by (nonlinear_arith)
                requires
                    page_size >= 1,
                    batch >= 1,
            ;
        }
        let target = address + off * page_size;
        let rsp = match (ChksumPages { target_address: target, num_pages: batch }).send(d) {
            Ok(x) => x,
            Err(e) => {
                return Err(e);
            },
        };
        let sums = rsp.iter();
        if sums.len() < batch as usize {
            return Err(Error::Parse);
        }
        let mut j: usize = 0;
        while j < batch as usize
            invariant
                j <= batch as usize,
                batch as usize <= sums@.len(),
                table@.len() == splan[i as int].0 + j,
                i < plan@.len(),
                splan == spec_plan(0, num_pages as int, max_pages as int),
                splan[i as int].0 == off as int && splan[i as int].1 == batch as int,
            decreases batch as usize - j,
        {
            let s = sums[j];
            table.push(s);
            j = j + 1;
        }
        proof {
            if i + 1 < plan@.len() {
                assert(splan[i as int].0 + splan[i as int].1 == splan[i as int + 1].0);
            } else {
                assert(splan[i as int].0 + splan[i as int].1 == num_pages as int);
            }
        }
        i = i + 1;
    }
    Ok(table)
}

/// Whether two checksum tables are equal, entry for entry.
pub fn tables_equal(a: &Vec<u16>, b: &Vec<u16>) -> (r: bool)
    ensures
        r <==> a@ == b@,
{
    if a.len() != b.len() {
        return false;
    }
    let n = a.len();
    let mut k: usize = 0;
    while k < n
        invariant
            k <= n,
            n == a@.len() == b@.len(),
            forall|i: int| 0 <= i < k ==> a@[i] == b@[i],
        decreases n - k,
    {
        if a[k] != b[k] {
            return false;
        }
        k = k + 1;
    }
    proof {
        assert(a@ =~= b@);
    }
    true
}

/// Whether a device's reported geometry can drive a flashing session: a
/// real page size, and a message size that leaves room for at least one
/// checksum per request.
pub open spec fn spec_geometry_usable(b: BinInfoResponse) -> bool {
    &&& b.flash_page_size >= 1
    &&& b.max_message_size >= 6
}

/// Flash `binary` at `address`, then verify and reboot into the
/// application: pad to whole pages, hand over to the bootloader when a
/// user-space program runs, fetch the device's page checksums, rewrite
/// only the pages whose checksum differs, fetch the checksums again and
/// compare every page, and finally reset into the application. An empty
/// image is refused, and nothing else is.
pub fn flash_bin<T: ReadWrite>(
    binary: &Vec<u8>,
    address: u32,
    bininfo: &BinInfoResponse,
    d: &mut T,
) -> (r: Result<(), UtilError>)
    requires
        spec_geometry_usable(*bininfo),
        binary@.len() + bininfo.flash_page_size + 128 <= u32::MAX,
        address as int + spec_padded_len(binary@.len() as int, bininfo.flash_page_size as int)
            <= u32::MAX,
    ensures
        binary@.len() == 0 <==> r == Err::<(), UtilError>(UtilError::InvalidBinary),
        r is Ok ==> binary@.len() > 0,
        r is Err ==> (r->Err_0 == UtilError::InvalidBinary || r->Err_0 == UtilError::Communication
            || r->Err_0 == UtilError::Internal || r->Err_0 == UtilError::ContentsDifferent),
{
    if binary.len() == 0 {
        return Err(UtilError::InvalidBinary);
    }
    let page_size = bininfo.flash_page_size;
    let padded = pad_to_page_size(binary, page_size);
    let num_pages: u32 = (padded.len() as u32) / page_size;
    proof {
        assert((num_pages as int) * (page_size as int) == padded@.len()) by (nonlinear_arith)
            requires
                num_pages as int == padded@.len() as int / (page_size as int),
                padded@.len() as int % (page_size as int) == 0,
                page_size >= 1,
        ;
    }
    let max_pages: u32 = bininfo.max_message_size / 2 - 2;
    let is_bootloader = match bininfo.mode {
        BinInfoMode::Bootloader => true,
        _ => false,
    };
    if !is_bootloader {
        match (StartFlash {  }).send(d) {
            Ok(_) => {},
            Err(e) => {
                return Err(UtilError::from(e));
            },
        }
    }
    let device = match fetch_checksums(d, address, num_pages, page_size, max_pages) {
        Ok(t) => t,
        Err(e) => {
            return Err(UtilError::from(e));
        },
    };
    let local = page_checksums(&padded, page_size);
    let targets = pages_to_write(&local, &device);
    let mut t: usize = 0;
    while t < targets.len()
        invariant
            t <= targets@.len(),
            binary@.len() > 0,
            page_size >= 1,
            page_size + 128 <= u32::MAX,
            (num_pages as int) * (page_size as int) == padded@.len(),
            address as int + padded@.len() <= u32::MAX,
            local@.len() == num_pages as int,
            forall|i: int| 0 <= i < targets@.len() ==> (#[trigger] targets@[i]) < local@.len(),
        decreases targets@.len() - t,
    {
        let idx = targets[t];
        proof {
            assert((idx as int + 1) * (page_size as int) <= (num_pages as int) * (
            page_size as int) && (idx as int + 1) * (page_size as int) == (idx as int) * (
            page_size as int) + page_size as int && (idx as int) * (page_size as int) >= 0)
                by (nonlinear_arith)
                requires
                    idx as int + 1 <= num_pages as int,
                    page_size >= 1,
                    idx >= 0,
            ;
        }
        let off = idx * (page_size as usize);
        let page = copy_range(&padded, off, off + page_size as usize);
        let cmd = WriteFlashPage {
            target_address: address + (idx as u32) * page_size,
            data: page,
        };
        match cmd.send(d) {
            Ok(_) => {},
            Err(e) => {
                return Err(UtilError::from(e));
            },
        }
        t = t + 1;
    }
    let device_after = match fetch_checksums(d, address, num_pages, page_size, max_pages) {
        Ok(x) => x,
        Err(e) => {
            return Err(UtilError::from(e));
        },
    };
    if !tables_equal(&local, &device_after) {
        return Err(UtilError::ContentsDifferent);
    }
    match (ResetIntoApp {  }).send(d) {
        Ok(_) => Ok(()),
        Err(e) => Err(UtilError::from(e)),
    }
}

/// Confirm that the device's flash already matches `binary` at `address`:
/// pad to whole pages, fetch the device's page checksums, and compare
/// every page against the local checksums, without writing anything and
/// without rebooting. An empty image is refused, and nothing else is.
pub fn verify_bin<T: ReadWrite>(
    binary: &Vec<u8>,
    address: u32,
    bininfo: &BinInfoResponse,
    d: &mut T,
) -> (r: Result<(), UtilError>)
    requires
        spec_geometry_usable(*bininfo),
        binary@.len() + bininfo.flash_page_size + 128 <= u32::MAX,
        address as int + spec_padded_len(binary@.len() as int, bininfo.flash_page_size as int)
            <= u32::MAX,
    ensures
        binary@.len() == 0 <==> r == Err::<(), UtilError>(UtilError::InvalidBinary),
        r is Ok ==> binary@.len() > 0,
        r is Err ==> (r->Err_0 == UtilError::InvalidBinary || r->Err_0 == UtilError::Communication
            || r->Err_0 == UtilError::Internal || r->Err_0 == UtilError::ContentsDifferent),
{
    if binary.len() == 0 {
        return Err(UtilError::InvalidBinary);
    }
    let page_size = bininfo.flash_page_size;
    let padded = pad_to_page_size(binary, page_size);
    let num_pages: u32 = (padded.len() as u32) / page_size;
    proof {
        assert((num_pages as int) * (page_size as int) == padded@.len()) by (nonlinear_arith)
            requires
                num_pages as int == padded@.len() as int / (page_size as int),
                padded@.len() as int % (page_size as int) == 0,
                page_size >= 1,
        ;
    }
    let max_pages: u32 = bininfo.max_message_size / 2 - 2;
    let device = match fetch_checksums(d, address, num_pages, page_size, max_pages) {
        Ok(t) => t,
        Err(e) => {
            return Err(UtilError::from(e));
        },
    };
    let local = page_checksums(&padded, page_size);
    if !tables_equal(&local, &device) {
        return Err(UtilError::ContentsDifferent);
    }
    Ok(())
}

} // verus!
