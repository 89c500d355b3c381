//! The address-space layout (bus): a validated, gapless partitioning of a
//! fixed-size address space across the registered devices, with address
//! translation.
//!
//! A layout is built in two phases. The mutable builder accumulates
//! devices and range assignments and may fail; `build` validates the
//! requested partition and produces the immutable runtime layout, whose
//! lookups are panic-free. At run time the layout routes every virtual
//! address to the owning device and a device-local (physical) address:
//! the sorted segment table is binary-searched for the segment whose
//! start lies at or below the address, and the physical address is the
//! segment's physical base plus the offset into the segment.

use vstd::prelude::*;

use vstd::arithmetic::div_mod::lemma_small_mod;

use crate::device::dev_capacity;
use crate::device::dev_read_spec;
use crate::device::dev_reset_spec;
use crate::device::dev_write_spec;
use crate::device::DevView;
use crate::device::Device;

verus! {

/// Handle to a device registered with a builder: its index in
/// registration order.
#[derive(Clone, Copy, Debug, PartialEq, Eq, Structural)]
pub struct DevId(pub usize);

/// One requested binding of a virtual address range to a device, as the
/// builder's contracts see it.
pub struct ReqV {
    pub start: usize,
    pub cnt: usize,
    pub dev: usize,
}

/// The builder, seen abstractly: the address-space size, the registered
/// devices and the requested range assignments, in order.
#[verifier::ext_equal]
pub struct BuilderView {
    pub max: usize,
    pub devs: Seq<DevView>,
    pub reqs: Seq<ReqV>,
}

/// One run of the coalesced segment table: the virtual addresses from
/// `start` up to the next segment's start are routed to device `dev`,
/// translated to physical addresses counted from `phys`.
pub struct SegV {
    pub start: int,
    pub phys: int,
    pub dev: int,
}

/// The runtime layout, seen abstractly: the address-space size, what each
/// device holds, and the segment table.
#[verifier::ext_equal]
pub struct MemView {
    pub size: int,
    pub devs: Seq<DevView>,
    pub segs: Seq<SegV>,
}

/// Whether request `r` assigns virtual address `a`.
pub open spec fn req_covers(r: ReqV, a: int) -> bool {
    r.start <= a < r.start + r.cnt
}

/// Whether any request in `reqs` assigns virtual address `a`.
pub open spec fn reqs_cover(reqs: Seq<ReqV>, a: int) -> bool {
    exists|i: int| 0 <= i < reqs.len() && req_covers(reqs[i], a)
}

/// The device the requests paint address `a` with; of several covering
/// requests the later one counts (overlaps are refused by `build`
/// anyway). `-1` where no request covers `a`.
pub open spec fn req_dev_at(reqs: Seq<ReqV>, a: int) -> int
    decreases reqs.len(),
{
    if reqs.len() == 0 {
        -1
    } else if req_covers(reqs.last(), a) {
        reqs.last().dev as int
    } else {
        req_dev_at(reqs.drop_last(), a)
    }
}

/// How many addresses below `addr` the requests assign to device `dev`.
/// On a successful build this is the physical base offset of address
/// `addr` on its device: assignments are consumed in increasing
/// virtual-address order for offset accumulation.
pub open spec fn assigned_below(reqs: Seq<ReqV>, dev: int, addr: int) -> int
    decreases addr,
{
    if addr <= 0 {
        0
    } else {
        assigned_below(reqs, dev, addr - 1) + if reqs_cover(reqs, addr - 1) && req_dev_at(
            reqs,
            addr - 1,
        ) == dev {
            1int
        } else {
            0int
        }
    }
}

/// The index of the segment routing address `addr`: the last segment
/// whose start lies at or below `addr`; `-1` if there is none.
pub open spec fn seg_idx(segs: Seq<SegV>, addr: int) -> int
    decreases segs.len(),
{
    if segs.len() == 0 {
        -1
    } else if segs.last().start <= addr {
        segs.len() - 1
    } else {
        seg_idx(segs.drop_last(), addr)
    }
}

/// The device the segment table routes address `addr` to.
pub open spec fn seg_dev_at(segs: Seq<SegV>, addr: int) -> int {
    segs[seg_idx(segs, addr)].dev
}

/// The device-local address the segment table translates address `addr`
/// to.
pub open spec fn seg_phys_at(segs: Seq<SegV>, addr: int) -> int {
    let s = segs[seg_idx(segs, addr)];
    s.phys + (addr - s.start)
}

/// How many addresses below `addr` the segment table routes to device
/// `dev`.
pub open spec fn routed_below(segs: Seq<SegV>, dev: int, addr: int) -> int
    decreases addr,
{
    if addr <= 0 {
        0
    } else {
        routed_below(segs, dev, addr - 1) + if seg_dev_at(segs, addr - 1) == dev {
            1int
        } else {
            0int
        }
    }
}

/// Well-formedness of a runtime layout. The segment table starts at
/// address zero, is strictly sorted, stays inside the space and names
/// only registered devices; every address translates to the physical
/// offset that per-device accumulation in ascending virtual-address
/// order yields; and no device is handed more bytes than its capacity,
/// so translated addresses never reach past a storage device's end.
pub open spec fn mem_wf(m: MemView) -> bool {
    &&& 0 < m.segs.len()
    &&& m.segs[0].start == 0
    &&& (forall|i: int|
        0 <= i < m.segs.len() - 1 ==> (#[trigger] m.segs[i].start) < m.segs[i + 1].start)
    &&& (forall|i: int| 0 <= i < m.segs.len() ==> 0 <= (#[trigger] m.segs[i].start) < m.size)
    &&& (forall|i: int| 0 <= i < m.segs.len() ==> 0 <= (#[trigger] m.segs[i].dev) < m.devs.len())
    &&& (forall|a: int|
        0 <= a < m.size ==> (#[trigger] seg_phys_at(m.segs, a)) == routed_below(
            m.segs,
            seg_dev_at(m.segs, a),
            a,
        ))
    &&& (forall|a: int|
        0 <= a < m.size ==> (#[trigger] seg_phys_at(m.segs, a)) + 1 <= dev_capacity(
            m.devs[seg_dev_at(m.segs, a)],
        ))
}

/// What a bus read at address `addr` does: the layout afterwards and the
/// byte handed back. The address is routed and translated, and the
/// owning device answers.
#[verifier::opaque]
pub open spec fn mem_read_spec(m: MemView, addr: int) -> (MemView, Option<u8>) {
    let d = seg_dev_at(m.segs, addr);
    let (dv, r) = dev_read_spec(m.devs[d], seg_phys_at(m.segs, addr));
    (MemView { devs: m.devs.update(d, dv), ..m }, r)
}

/// What a bus write at address `addr` does.
#[verifier::opaque]
pub open spec fn mem_write_spec(m: MemView, addr: int, data: u8) -> (MemView, Option<()>) {
    let d = seg_dev_at(m.segs, addr);
    let (dv, r) = dev_write_spec(m.devs[d], seg_phys_at(m.segs, addr), data);
    (MemView { devs: m.devs.update(d, dv), ..m }, r)
}

/// What a reset does: every owned device is reset; the partition itself
/// is immutable.
#[verifier::opaque]
pub open spec fn mem_reset_spec(m: MemView) -> MemView {
    MemView { devs: Seq::new(m.devs.len(), |i: int| dev_reset_spec(m.devs[i])), ..m }
}

/// In a table that starts at zero and is strictly sorted, every
/// non-negative address has a routing segment, and that segment starts at
/// or below the address while the next one starts above it.
pub proof fn lemma_seg_idx_bounds(segs: Seq<SegV>, addr: int)
    requires
        0 < segs.len(),
        segs[0].start == 0,
        forall|i: int| 0 <= i < segs.len() - 1 ==> (#[trigger] segs[i].start) < segs[i + 1].start,
        0 <= addr,
    ensures
        0 <= seg_idx(segs, addr) < segs.len(),
        segs[seg_idx(segs, addr)].start <= addr,
        seg_idx(segs, addr) < segs.len() - 1 ==> addr < segs[seg_idx(segs, addr) + 1].start,
    decreases segs.len(),
{
    if segs.last().start <= addr {
    } else {
        assert(segs.len() > 1);
        let dropped = segs.drop_last();
        assert(forall|i: int|
            0 <= i < dropped.len() - 1 ==> (#[trigger] dropped[i].start) < dropped[i + 1].start);
        lemma_seg_idx_bounds(dropped, addr);
    }
}

/// Strict sortedness of adjacent segment starts extends to any pair.
pub proof fn lemma_starts_sorted(segs: Seq<SegV>, i: int, j: int)
    requires
        forall|k: int| 0 <= k < segs.len() - 1 ==> (#[trigger] segs[k].start) < segs[k + 1].start,
        0 <= i < j < segs.len(),
    ensures
        segs[i].start < segs[j].start,
    decreases j - i,
{
    if i + 1 < j {
        lemma_starts_sorted(segs, i + 1, j);
    }
}

/// The routing segment is the unique one whose start lies at or below the
/// address while the next one starts above it.
pub proof fn lemma_seg_idx_unique(segs: Seq<SegV>, addr: int, i: int)
    requires
        forall|k: int| 0 <= k < segs.len() - 1 ==> (#[trigger] segs[k].start) < segs[k + 1].start,
        0 <= i < segs.len(),
        segs[i].start <= addr,
        i == segs.len() - 1 || addr < segs[i + 1].start,
    ensures
        seg_idx(segs, addr) == i,
    decreases segs.len(),
{
    if i == segs.len() - 1 {
    } else {
        assert(segs.last().start > addr) by {
            if i + 1 < segs.len() - 1 {
                lemma_starts_sorted(segs, i + 1, segs.len() - 1);
            }
        }
        let dropped = segs.drop_last();
        assert(forall|k: int|
            0 <= k < dropped.len() - 1 ==> (#[trigger] dropped[k].start) < dropped[k + 1].start);
        lemma_seg_idx_unique(dropped, addr, i);
    }
}

/// Counts never exceed the number of addresses counted over.
pub proof fn lemma_routed_below_le(segs: Seq<SegV>, dev: int, addr: int)
    requires
        0 <= addr,
    ensures
        0 <= routed_below(segs, dev, addr) <= addr,
    decreases addr,
{
    if addr > 0 {
        lemma_routed_below_le(segs, dev, addr - 1);
    }
}

/// Counting below a larger address never gives less; and if some address
/// in between is routed to the device, strictly more.
pub proof fn lemma_routed_below_mono(segs: Seq<SegV>, dev: int, a1: int, a2: int)
    requires
        0 <= a1 <= a2,
    ensures
        routed_below(segs, dev, a1) <= routed_below(segs, dev, a2),
    decreases a2 - a1,
{
    if a1 < a2 {
        lemma_routed_below_mono(segs, dev, a1, a2 - 1);
    }
}

/// Distinct addresses routed to the same device translate to distinct
/// physical addresses, in ascending order: routing is injective on a
/// well-formed layout.
pub proof fn lemma_route_injective(m: MemView, a1: int, a2: int)
    requires
        mem_wf(m),
        0 <= a1 < a2 < m.size,
        seg_dev_at(m.segs, a1) == seg_dev_at(m.segs, a2),
    ensures
        seg_phys_at(m.segs, a1) < seg_phys_at(m.segs, a2),
{
    let d = seg_dev_at(m.segs, a1);
    assert(routed_below(m.segs, d, a1 + 1) == routed_below(m.segs, d, a1) + 1);
    lemma_routed_below_mono(m.segs, d, a1 + 1, a2);
}

/// Why a requested partition was refused.
#[derive(Clone, Copy, Debug, PartialEq, Eq, Structural)]
pub enum BuildError {
    /// Some addresses were never assigned; the payload is the maximal
    /// contiguous unassigned run starting at the first such address,
    /// as (first address, end of run).
    UnassignedRange(usize, usize),
    /// A request (given as its start address and byte count) reaches past
    /// the end of the address space.
    VirtualAddressOutOfRange(usize, usize),
    /// A device was assigned more bytes than its reported capacity.
    MemoryOutOfRange(DevId),
    /// A request named a handle no `add_device` call returned.
    InvalidMemoryId(DevId),
    /// A request (given as its start address and byte count) assigns an
    /// address some earlier request already assigned; a later assignment
    /// is an error, not an override.
    OverlappingRange(usize, usize),
}

/// What is wrong with request `r` on its own, given the requests before
/// it: it must lie inside the address space, name a registered device,
/// and touch no address an earlier request covers.
pub open spec fn req_error_one(r: ReqV, earlier: Seq<ReqV>, max: int, nd: int) -> Option<
    BuildError,
> {
    if r.start + r.cnt > max {
        Some(BuildError::VirtualAddressOutOfRange(r.start, r.cnt))
    } else if !(r.dev < nd) {
        Some(BuildError::InvalidMemoryId(DevId(r.dev)))
    } else if exists|a: int| req_covers(r, a) && reqs_cover(earlier, a) {
        Some(BuildError::OverlappingRange(r.start, r.cnt))
    } else {
        None
    }
}

/// The first per-request error in the list, in request order; `None` when
/// every request is acceptable on its own.
pub open spec fn req_list_error(reqs: Seq<ReqV>, max: int, nd: int) -> Option<BuildError>
    decreases reqs.len(),
{
    if reqs.len() == 0 {
        None
    } else {
        match req_list_error(reqs.drop_last(), max, nd) {
            Some(e) => Some(e),
            None => req_error_one(reqs.last(), reqs.drop_last(), max, nd),
        }
    }
}

/// Whether the requests assign every address of the space.
pub open spec fn all_covered(reqs: Seq<ReqV>, max: int) -> bool {
    forall|a: int| 0 <= a < max ==> reqs_cover(reqs, a)
}

/// Whether no device is assigned more bytes than its capacity.
pub open spec fn caps_ok(reqs: Seq<ReqV>, devs: Seq<DevView>, max: int) -> bool {
    forall|d: int|
        0 <= d < devs.len() ==> assigned_below(reqs, d, max) <= dev_capacity(#[trigger] devs[d])
}

/// A prefix that already has a per-request error decides the whole list.
proof fn lemma_req_list_error_prefix(reqs: Seq<ReqV>, max: int, nd: int, k: int)
    requires
        0 <= k <= reqs.len(),
        req_list_error(reqs.take(k), max, nd) is Some,
    ensures
        req_list_error(reqs, max, nd) == req_list_error(reqs.take(k), max, nd),
    decreases reqs.len() - k,
{
    if k == reqs.len() {
        assert(reqs.take(k) =~= reqs);
    } else {
        assert(reqs.take(k + 1).drop_last() =~= reqs.take(k));
        lemma_req_list_error_prefix(reqs, max, nd, k + 1);
    }
}

/// With a clean prefix, the error state after one more request is that
/// request's own.
proof fn lemma_req_list_error_step(reqs: Seq<ReqV>, max: int, nd: int, k: int)
    requires
        0 <= k < reqs.len(),
        req_list_error(reqs.take(k), max, nd) is None,
    ensures
        req_list_error(reqs.take(k + 1), max, nd) == req_error_one(
            reqs[k],
            reqs.take(k),
            max,
            nd,
        ),
{
    assert(reqs.take(k + 1).drop_last() =~= reqs.take(k));
    assert(reqs.take(k + 1).last() == reqs[k]);
}

/// How coverage and painting change when one more request is taken in.
proof fn lemma_cover_take_succ(reqs: Seq<ReqV>, k: int, a: int)
    requires
        0 <= k < reqs.len(),
    ensures
        reqs_cover(reqs.take(k + 1), a) <==> (reqs_cover(reqs.take(k), a) || req_covers(
            reqs[k],
            a,
        )),
        !req_covers(reqs[k], a) ==> req_dev_at(reqs.take(k + 1), a) == req_dev_at(
            reqs.take(k),
            a,
        ),
        req_covers(reqs[k], a) ==> req_dev_at(reqs.take(k + 1), a) == reqs[k].dev,
{
    assert(reqs.take(k + 1).drop_last() =~= reqs.take(k));
    assert(reqs.take(k + 1).last() == reqs[k]);
    if reqs_cover(reqs.take(k + 1), a) {
        let i = choose|i: int|
            0 <= i < reqs.take(k + 1).len() && #[trigger] req_covers(reqs.take(k + 1)[i], a);
        if i < k {
            assert(req_covers(reqs.take(k)[i], a));
        }
    }
    if reqs_cover(reqs.take(k), a) {
        let i = choose|i: int|
            0 <= i < reqs.take(k).len() && #[trigger] req_covers(reqs.take(k)[i], a);
        assert(req_covers(reqs.take(k + 1)[i], a));
    }
    if req_covers(reqs[k], a) {
        assert(req_covers(reqs.take(k + 1)[k], a));
    }
}

/// A clean request list paints covered addresses only with registered
/// devices.
proof fn lemma_req_dev_bounds(reqs: Seq<ReqV>, max: int, nd: int, a: int)
    requires
        req_list_error(reqs, max, nd) is None,
        reqs_cover(reqs, a),
    ensures
        0 <= req_dev_at(reqs, a) < nd,
    decreases reqs.len(),
{
    if req_covers(reqs.last(), a) {
    } else {
        let i = choose|i: int| 0 <= i < reqs.len() && #[trigger] req_covers(reqs[i], a);
        assert(req_covers(reqs.drop_last()[i], a));
        lemma_req_dev_bounds(reqs.drop_last(), max, nd, a);
    }
}

/// Counts never exceed the number of addresses counted over.
proof fn lemma_assigned_below_le(reqs: Seq<ReqV>, dev: int, addr: int)
    requires
        0 <= addr,
    ensures
        0 <= assigned_below(reqs, dev, addr) <= addr,
    decreases addr,
{
    if addr > 0 {
        lemma_assigned_below_le(reqs, dev, addr - 1);
    }
}

/// Counting below a larger address never gives less.
proof fn lemma_assigned_below_mono(reqs: Seq<ReqV>, dev: int, a1: int, a2: int)
    requires
        0 <= a1 <= a2,
    ensures
        assigned_below(reqs, dev, a1) <= assigned_below(reqs, dev, a2),
    decreases a2 - a1,
{
    if a1 < a2 {
        lemma_assigned_below_mono(reqs, dev, a1, a2 - 1);
    }
}

/// Where a segment table and a request list route every lower address to
/// the same device, their counts agree.
proof fn lemma_counts_agree(segs: Seq<SegV>, reqs: Seq<ReqV>, d: int, x: int)
    requires
        forall|y: int|
            0 <= y < x ==> (#[trigger] seg_dev_at(segs, y)) == req_dev_at(reqs, y) && reqs_cover(
                reqs,
                y,
            ),
    ensures
        routed_below(segs, d, x) == assigned_below(reqs, d, x),
    decreases x,
{
    if x > 0 {
        lemma_counts_agree(segs, reqs, d, x - 1);
    }
}

/// A segment pushed past an address leaves that address's routing alone.
proof fn lemma_seg_idx_push(segs: Seq<SegV>, s: SegV, x: int)
    requires
        s.start > x,
    ensures
        seg_idx(segs.push(s), x) == seg_idx(segs, x),
{
    assert(segs.push(s).drop_last() =~= segs);
    assert(segs.push(s).last() == s);
}

/// One requested binding of a virtual address range to a device, as
/// stored by the builder.
#[derive(Clone, Copy)]
struct MappingRequest {
    addr_start: usize,
    byte_cnt: usize,
    dev: usize,
}

impl MappingRequest {
    spec fn view_spec(self) -> ReqV {
        ReqV { start: self.addr_start, cnt: self.byte_cnt, dev: self.dev }
    }
}

/// The abstract request list of a stored one.
spec fn reqs_view(ms: Seq<MappingRequest>) -> Seq<ReqV> {
    Seq::new(ms.len(), |i: int| ms[i].view_spec())
}

/// The mutable first phase: devices and range assignments accumulate
/// here, and `build` validates them into a `Layout`.
pub struct LayoutBuilder {
    max_byte_cnt: usize,
    devs: Vec<Device>,
    mappings: Vec<MappingRequest>,
}

impl View for LayoutBuilder {
    type V = BuilderView;

    closed spec fn view(&self) -> BuilderView {
        BuilderView {
            max: self.max_byte_cnt,
            devs: devs_view(self.devs@),
            reqs: reqs_view(self.mappings@),
        }
    }
}

impl LayoutBuilder {
    /// A builder for an address space of `max_byte_cnt` byte-addresses,
    /// with no devices and no assignments yet.
    pub fn new(max_byte_cnt: usize) -> (r: Self)
        ensures
            r@.max == max_byte_cnt,
            r@.devs.len() == 0,
            r@.reqs.len() == 0,
    {
        LayoutBuilder { max_byte_cnt, devs: Vec::new(), mappings: Vec::new() }
    }

    /// Register a device; the handle names it in later assignments. The
    /// builder owns the device from here on.
    pub fn add_device(&mut self, dev: Device) -> (r: DevId)
        ensures
            final(self)@.max == old(self)@.max,
            final(self)@.devs == old(self)@.devs.push(dev@),
            final(self)@.reqs == old(self)@.reqs,
            r.0 == old(self)@.devs.len(),
    {
        let mem_id = DevId(self.devs.len());
        self.devs.push(dev);
        proof {
            assert(self@.devs =~= old(self)@.devs.push(dev@));
            assert(self@.reqs =~= old(self)@.reqs);
        }
        mem_id
    }

    /// Assign a single address to a device.
    pub fn assign(&mut self, addr: usize, mem_id: DevId) -> (ret: &mut Self)
        ensures
            (*ret)@ == (BuilderView {
                reqs: old(self)@.reqs.push(ReqV { start: addr, cnt: 1, dev: mem_id.0 }),
                ..old(self)@
            }),
            *final(self) == *final(ret),
    {
        self.assign_range(addr, 1, mem_id)
    }

    /// Assign `byte_cnt` consecutive addresses from `addr_start` to a
    /// device. A device may be assigned several ranges, contiguous or
    /// not; a zero-length range is ignored. Nothing is validated here:
    /// `build` checks every request.
    pub fn assign_range(&mut self, addr_start: usize, byte_cnt: usize, dev_id: DevId) -> (ret:
        &mut Self)
        ensures
            (*ret)@ == (BuilderView {
                reqs: if byte_cnt == 0 {
                    old(self)@.reqs
                } else {
                    old(self)@.reqs.push(ReqV { start: addr_start, cnt: byte_cnt, dev: dev_id.0 })
                },
                ..old(self)@
            }),
            *final(self) == *final(ret),
    {
        if byte_cnt == 0 {
            proof {
                assert(self@ =~= (BuilderView { reqs: old(self)@.reqs, ..old(self)@ }));
            }
            return self;
        }
        self.mappings.push(MappingRequest { addr_start, byte_cnt, dev: dev_id.0 });
        proof {
            assert(self@.reqs =~= old(self)@.reqs.push(
                ReqV { start: addr_start, cnt: byte_cnt, dev: dev_id.0 },
            ));
            assert(self@ =~= (BuilderView {
                reqs: old(self)@.reqs.push(ReqV { start: addr_start, cnt: byte_cnt, dev: dev_id.0 }),
                ..old(self)@
            }));
        }
        self
    }

    /// Validate the requested partition and produce the immutable layout.
    ///
    /// Conceptually every address of the space is painted with the
    /// request assigned to it. A request reaching past the space, naming
    /// an unregistered handle, or touching an already painted address is
    /// refused, in request order. Addresses left unpainted are refused as
    /// the maximal unassigned run starting at the first one. A device
    /// painted over more addresses than its capacity is refused. On
    /// success the painted space is coalesced into maximal same-device
    /// runs in ascending address order, and each run's physical base
    /// offset continues where the same device's previous run ended, so a
    /// device assigned several disjoint windows presents one contiguous
    /// internal address space.
    #[verifier::rlimit(80)]
    pub fn build(self) -> (r: Result<Layout, BuildError>)
        requires
            self@.max >= 1,
        ensures
            ({
                let reqs = self@.reqs;
                let devsv = self@.devs;
                let maxi = self@.max as int;
                let nd = devsv.len() as int;
                match req_list_error(reqs, maxi, nd) {
                    Some(e0) => r == Err::<Layout, BuildError>(e0),
                    None => if !all_covered(reqs, maxi) {
                        match r {
                            Err(BuildError::UnassignedRange(gs, ge)) => {
                                &&& 0 <= gs < ge <= maxi
                                &&& !reqs_cover(reqs, gs as int)
                                &&& (forall|a: int| 0 <= a < gs ==> reqs_cover(reqs, a))
                                &&& (forall|a: int| gs <= a < ge ==> !reqs_cover(reqs, a))
                                &&& (ge < maxi ==> reqs_cover(reqs, ge as int))
                            },
                            _ => false,
                        }
                    } else if !caps_ok(reqs, devsv, maxi) {
                        match r {
                            Err(BuildError::MemoryOutOfRange(id)) => {
                                &&& id.0 < devsv.len()
                                &&& assigned_below(reqs, id.0 as int, maxi) > dev_capacity(
                                    devsv[id.0 as int],
                                )
                            },
                            _ => false,
                        }
                    } else {
                        match r {
                            Ok(lay) => {
                                &&& lay.wf()
                                &&& lay@.size == maxi
                                &&& lay@.devs == devsv
                                &&& (forall|a: int|
                                    0 <= a < maxi ==> #[trigger] seg_dev_at(lay@.segs, a)
                                        == req_dev_at(reqs, a))
                                &&& (forall|a: int|
                                    0 <= a < maxi ==> #[trigger] seg_phys_at(lay@.segs, a)
                                        == assigned_below(reqs, req_dev_at(reqs, a), a))
                            },
                            _ => false,
                        }
                    },
                }
            }),
    {
        let LayoutBuilder { max_byte_cnt, devs, mappings } = self;
        let ghost reqs = reqs_view(mappings@);
        let ghost devsv = devs_view(devs@);
        let ghost maxi = max_byte_cnt as int;
        let ghost nd = devsv.len() as int;
        let ndevs = devs.len();
        proof {
            assert(reqs == self@.reqs);
            assert(devsv == self@.devs);
            assert(maxi == self@.max as int);
            assert(nd == self@.devs.len() as int);
        }

        // Paint the space: one slot per address, `ndevs` meaning
        // unassigned.
        let mut space: Vec<usize> = Vec::new();
        let mut z: usize = 0;
        while z < max_byte_cnt
            invariant
                z <= max_byte_cnt,
                space@.len() == z,
                forall|a: int| 0 <= a < z ==> #[trigger] space@[a] == ndevs,
            decreases max_byte_cnt - z,
        {
            space.push(ndevs);
            z = z + 1;
        }

        let mut k: usize = 0;
        while k < mappings.len()
            invariant
                self@.reqs == reqs && self@.devs == devsv && self@.max == max_byte_cnt,
                k <= mappings@.len(),
                reqs == reqs_view(mappings@),
                devsv == devs_view(devs@),
                nd == ndevs == devs@.len(),
                maxi == max_byte_cnt as int,
                space@.len() == max_byte_cnt,
                req_list_error(reqs.take(k as int), maxi, nd) is None,
                forall|a: int|
                    0 <= a < maxi ==> #[trigger] space@[a] == (if reqs_cover(
                        reqs.take(k as int),
                        a,
                    ) {
                        req_dev_at(reqs.take(k as int), a)
                    } else {
                        ndevs as int
                    }),
            decreases mappings@.len() - k,
        {
            let rq = mappings[k];
            proof {
                assert(reqs[k as int] == rq.view_spec());
            }
            if rq.byte_cnt > max_byte_cnt || rq.addr_start > max_byte_cnt - rq.byte_cnt {
                proof {
                    lemma_req_list_error_step(reqs, maxi, nd, k as int);
                    lemma_req_list_error_prefix(reqs, maxi, nd, k as int + 1);
                }
                return Err(BuildError::VirtualAddressOutOfRange(rq.addr_start, rq.byte_cnt));
            }
            if rq.dev >= ndevs {
                proof {
                    lemma_req_list_error_step(reqs, maxi, nd, k as int);
                    lemma_req_list_error_prefix(reqs, maxi, nd, k as int + 1);
                }
                return Err(BuildError::InvalidMemoryId(DevId(rq.dev)));
            }
            let mut j: usize = 0;
            while j < rq.byte_cnt
                invariant
                    self@.reqs == reqs && self@.devs == devsv && self@.max == max_byte_cnt,
                    j <= rq.byte_cnt,
                    k < mappings@.len(),
                    reqs == reqs_view(mappings@),
                    devsv == devs_view(devs@),
                    nd == ndevs == devs@.len(),
                    maxi == max_byte_cnt as int,
                    rq.view_spec() == reqs[k as int],
                    rq.addr_start + rq.byte_cnt <= max_byte_cnt,
                    rq.dev < ndevs,
                    space@.len() == max_byte_cnt,
                    req_list_error(reqs.take(k as int), maxi, nd) is None,
                    forall|a: int|
                        rq.addr_start <= a < rq.addr_start + j ==> #[trigger] space@[a]
                            == rq.dev as int,
                    forall|a: int|
                        rq.addr_start <= a < rq.addr_start + j ==> !reqs_cover(
                            reqs.take(k as int),
                            a,
                        ),
                    forall|a: int|
                        0 <= a < maxi && !(rq.addr_start <= a < rq.addr_start + j)
                            ==> #[trigger] space@[a] == (if reqs_cover(reqs.take(k as int), a) {
                            req_dev_at(reqs.take(k as int), a)
                        } else {
                            ndevs as int
                        }),
                decreases rq.byte_cnt - j,
            {
                let a = rq.addr_start + j;
                if space[a] != ndevs {
                    proof {
                        assert(reqs_cover(reqs.take(k as int), a as int));
                        assert(req_covers(reqs[k as int], a as int));
                        lemma_req_list_error_step(reqs, maxi, nd, k as int);
                        lemma_req_list_error_prefix(reqs, maxi, nd, k as int + 1);
                    }
                    return Err(BuildError::OverlappingRange(rq.addr_start, rq.byte_cnt));
                }
                proof {
                    if reqs_cover(reqs.take(k as int), a as int) {
                        lemma_req_dev_bounds(reqs.take(k as int), maxi, nd, a as int);
                        assert(false);
                    }
                }
                space[a] = rq.dev;
                j = j + 1;
            }
            proof {
                assert(req_error_one(reqs[k as int], reqs.take(k as int), maxi, nd) is None) by {
                    if exists|a: int|
                        req_covers(reqs[k as int], a) && reqs_cover(reqs.take(k as int), a) {
                        let a = choose|a: int|
                            req_covers(reqs[k as int], a) && #[trigger] reqs_cover(
                                reqs.take(k as int),
                                a,
                            );
                        assert(rq.addr_start <= a < rq.addr_start + rq.byte_cnt);
                        assert(false);
                    }
                }
                lemma_req_list_error_step(reqs, maxi, nd, k as int);
                assert forall|a: int|
                    0 <= a < maxi implies #[trigger] space@[a] == (if reqs_cover(
                    reqs.take(k as int + 1),
                    a,
                ) {
                    req_dev_at(reqs.take(k as int + 1), a)
                } else {
                    ndevs as int
                }) by {
                    lemma_cover_take_succ(reqs, k as int, a);
                }
            }
            k = k + 1;
        }
        proof {
            assert(reqs.take(reqs.len() as int) =~= reqs);
        }

        // Scan for the first unassigned address; report the maximal
        // unassigned run from there.
        let mut g: usize = 0;
        while g < max_byte_cnt && space[g] != ndevs
            invariant
                self@.reqs == reqs && self@.devs == devsv && self@.max == max_byte_cnt,
                g <= max_byte_cnt,
                maxi == max_byte_cnt as int,
                space@.len() == max_byte_cnt,
                forall|a: int| 0 <= a < g ==> reqs_cover(reqs, a),
                req_list_error(reqs, maxi, nd) is None,
                forall|a: int|
                    0 <= a < maxi ==> #[trigger] space@[a] == (if reqs_cover(reqs, a) {
                        req_dev_at(reqs, a)
                    } else {
                        ndevs as int
                    }),
                nd == ndevs == devs@.len(),
            decreases max_byte_cnt - g,
        {
            proof {
                if !reqs_cover(reqs, g as int) {
                    assert(space@[g as int] == ndevs as int);
                    assert(false);
                }
            }
            g = g + 1;
        }
        if g < max_byte_cnt {
            proof {
                if reqs_cover(reqs, g as int) {
                    lemma_req_dev_bounds(reqs, maxi, nd, g as int);
                    assert(false);
                }
            }
            let mut ge: usize = g + 1;
            while ge < max_byte_cnt && space[ge] == ndevs
                invariant
                    self@.reqs == reqs && self@.devs == devsv && self@.max == max_byte_cnt,
                    g < ge <= max_byte_cnt,
                    maxi == max_byte_cnt as int,
                    space@.len() == max_byte_cnt,
                    forall|a: int| g <= a < ge ==> !reqs_cover(reqs, a),
                    req_list_error(reqs, maxi, nd) is None,
                    forall|a: int|
                        0 <= a < maxi ==> #[trigger] space@[a] == (if reqs_cover(reqs, a) {
                            req_dev_at(reqs, a)
                        } else {
                            ndevs as int
                        }),
                    nd == ndevs == devs@.len(),
                decreases max_byte_cnt - ge,
            {
                proof {
                    if reqs_cover(reqs, ge as int) {
                        lemma_req_dev_bounds(reqs, maxi, nd, ge as int);
                        assert(false);
                    }
                }
                ge = ge + 1;
            }
            proof {
                if ge < max_byte_cnt {
                    if !reqs_cover(reqs, ge as int) {
                        assert(space@[ge as int] == ndevs as int);
                        assert(false);
                    }
                }
            }
            return Err(BuildError::UnassignedRange(g, ge));
        }

        proof {
            assert forall|x: int| 0 <= x < maxi implies reqs_cover(reqs, x) && 0 <= (
            #[trigger] req_dev_at(reqs, x)) < nd && space@[x] == req_dev_at(reqs, x) by {
                lemma_req_dev_bounds(reqs, maxi, nd, x);
            }
        }

        // Coalesce the painted space into maximal same-device runs, with
        // per-device physical offset accumulation, checking capacities.
        let mut counts: Vec<usize> = Vec::new();
        let mut z2: usize = 0;
        while z2 < ndevs
            invariant
                z2 <= ndevs,
                counts@.len() == z2,
                forall|d: int| 0 <= d < z2 ==> #[trigger] counts@[d] == 0,
            decreases ndevs - z2,
        {
            counts.push(0);
            z2 = z2 + 1;
        }
        let mut table: Vec<Mapping> = Vec::new();
        let mut a: usize = 0;
        while a < max_byte_cnt
            invariant
                self@.reqs == reqs && self@.devs == devsv && self@.max == max_byte_cnt,
                a <= max_byte_cnt,
                req_list_error(reqs, maxi, nd) is None,
                all_covered(reqs, maxi),
                reqs == reqs_view(mappings@),
                devsv == devs_view(devs@),
                nd == ndevs == devs@.len(),
                maxi == max_byte_cnt as int,
                space@.len() == max_byte_cnt,
                forall|x: int|
                    0 <= x < maxi ==> reqs_cover(reqs, x) && 0 <= (#[trigger] req_dev_at(reqs, x))
                        < nd && space@[x] == req_dev_at(reqs, x),
                counts@.len() == ndevs,
                forall|d: int|
                    0 <= d < nd ==> #[trigger] counts@[d] == assigned_below(reqs, d, a as int),
                forall|d: int|
                    0 <= d < nd ==> assigned_below(reqs, d, a as int) <= dev_capacity(
                        #[trigger] devsv[d],
                    ),
                a == 0 ==> table@.len() == 0,
                a > 0 ==> 0 < table@.len(),
                a > 0 ==> segs_view(table@)[0].start == 0,
                a > 0 ==> segs_view(table@).last().start < a as int,
                a > 0 ==> segs_view(table@).last().dev == space@[a - 1],
                forall|i: int|
                    0 <= i < table@.len() - 1 ==> (#[trigger] segs_view(table@)[i].start)
                        < segs_view(table@)[i + 1].start,
                forall|i: int|
                    0 <= i < table@.len() ==> 0 <= (#[trigger] segs_view(table@)[i].start) < maxi,
                forall|i: int|
                    0 <= i < table@.len() ==> 0 <= (#[trigger] segs_view(table@)[i].dev) < nd,
                forall|i: int|
                    0 <= i < table@.len() ==> 0 <= (#[trigger] segs_view(table@)[i].phys),
                forall|x: int|
                    0 <= x < a ==> #[trigger] seg_dev_at(segs_view(table@), x) == req_dev_at(
                        reqs,
                        x,
                    ),
                forall|x: int|
                    0 <= x < a ==> #[trigger] seg_phys_at(segs_view(table@), x) == assigned_below(
                        reqs,
                        req_dev_at(reqs, x),
                        x,
                    ),
            decreases max_byte_cnt - a,
        {
            let ghost sv = segs_view(table@);
            let d = space[a];
            proof {
                assert(space@[a as int] == req_dev_at(reqs, a as int));
            }
            let cap = devs[d].byte_capacity();
            proof {
                lemma_assigned_below_le(reqs, d as int, a as int);
            }
            if counts[d] >= cap {
                proof {
                    assert(assigned_below(reqs, d as int, a as int + 1) == assigned_below(
                        reqs,
                        d as int,
                        a as int,
                    ) + 1);
                    lemma_assigned_below_mono(reqs, d as int, a as int + 1, maxi);
                    assert(dev_capacity(devsv[d as int]) < assigned_below(reqs, d as int, maxi));
                    assert(!caps_ok(reqs, devsv, maxi));
                }
                return Err(BuildError::MemoryOutOfRange(DevId(d)));
            }
            if a == 0 || space[a - 1] != d {
                table.push(
                    Mapping { virtual_addr_start: a, physical_addr_start: counts[d], dev: d },
                );
                proof {
                    assert(segs_view(table@) =~= sv.push(
                        SegV { start: a as int, phys: counts@[d as int] as int, dev: d as int },
                    ));
                    assert forall|x: int|
                        0 <= x < a implies #[trigger] seg_dev_at(segs_view(table@), x)
                        == seg_dev_at(sv, x) by {
                        lemma_seg_idx_bounds(sv, x);
                        lemma_seg_idx_push(
                            sv,
                            SegV { start: a as int, phys: counts@[d as int] as int, dev: d as int },
                            x,
                        );
                        assert(segs_view(table@)[seg_idx(sv, x)] == sv[seg_idx(sv, x)]);
                    }
                    assert forall|x: int|
                        0 <= x < a implies #[trigger] seg_phys_at(segs_view(table@), x)
                        == seg_phys_at(sv, x) by {
                        lemma_seg_idx_bounds(sv, x);
                        lemma_seg_idx_push(
                            sv,
                            SegV { start: a as int, phys: counts@[d as int] as int, dev: d as int },
                            x,
                        );
                        assert(segs_view(table@)[seg_idx(sv, x)] == sv[seg_idx(sv, x)]);
                    }
                }
            }
            let c = counts[d];
            counts[d] = c + 1;
            proof {
                let svn = segs_view(table@);
                assert(svn.last().start <= a as int);
                assert(seg_idx(svn, a as int) == svn.len() - 1);
                if a > 0 && space@[a as int - 1] == d as int {
                    assert(svn == sv);
                    assert(seg_idx(svn, a as int - 1) == svn.len() - 1);
                    assert(space@[a as int - 1] == req_dev_at(reqs, a as int - 1));
                    assert(seg_dev_at(svn, a as int - 1) == d as int);
                    assert(seg_phys_at(svn, a as int - 1) == assigned_below(
                        reqs,
                        d as int,
                        a as int - 1,
                    ));
                    assert(assigned_below(reqs, d as int, a as int) == assigned_below(
                        reqs,
                        d as int,
                        a as int - 1,
                    ) + 1);
                } else {
                    assert(svn.last() == (SegV { start: a as int, phys: c as int, dev: d as int }));
                }
                assert(seg_dev_at(svn, a as int) == d as int);
                assert(seg_phys_at(svn, a as int) == assigned_below(reqs, d as int, a as int));
                assert forall|x: int|
                    0 <= x < a as int + 1 implies #[trigger] seg_dev_at(segs_view(table@), x)
                    == req_dev_at(reqs, x) by {
                    assert(svn == segs_view(table@));
                    if x == a as int {
                        assert(space@[a as int] == req_dev_at(reqs, a as int));
                    } else if a == 0 || space@[a as int - 1] != d as int {
                        assert(seg_dev_at(svn, x) == seg_dev_at(sv, x));
                        assert(seg_dev_at(sv, x) == req_dev_at(reqs, x));
                    } else {
                        assert(svn == sv);
                        assert(seg_dev_at(sv, x) == req_dev_at(reqs, x));
                    }
                }
                assert forall|x: int|
                    0 <= x < a as int + 1 implies #[trigger] seg_phys_at(segs_view(table@), x)
                    == assigned_below(reqs, req_dev_at(reqs, x), x) by {
                    assert(svn == segs_view(table@));
                    if x == a as int {
                        assert(space@[a as int] == req_dev_at(reqs, a as int));
                        assert(seg_phys_at(svn, a as int) == assigned_below(
                            reqs,
                            d as int,
                            a as int,
                        ));
                    } else if a == 0 || space@[a as int - 1] != d as int {
                        assert(seg_phys_at(svn, x) == seg_phys_at(sv, x));
                        assert(seg_phys_at(sv, x) == assigned_below(reqs, req_dev_at(reqs, x), x));
                    } else {
                        assert(svn == sv);
                        assert(seg_phys_at(sv, x) == assigned_below(reqs, req_dev_at(reqs, x), x));
                    }
                }
                assert forall|d2: int|
                    0 <= d2 < nd implies #[trigger] counts@[d2] == assigned_below(
                    reqs,
                    d2,
                    a as int + 1,
                ) by {
                    assert(assigned_below(reqs, d2, a as int + 1) == assigned_below(
                        reqs,
                        d2,
                        a as int,
                    ) + if req_dev_at(reqs, a as int) == d2 {
                        1int
                    } else {
                        0int
                    });
                }
            }
            a = a + 1;
        }

        proof {
            let sv = segs_view(table@);
            assert forall|x: int| 0 <= x < maxi implies (#[trigger] seg_phys_at(sv, x))
                == routed_below(sv, seg_dev_at(sv, x), x) by {
                lemma_counts_agree(sv, reqs, seg_dev_at(sv, x), x);
            }
            assert forall|x: int| 0 <= x < maxi implies (#[trigger] seg_phys_at(sv, x)) + 1
                <= dev_capacity(devsv[seg_dev_at(sv, x)]) by {
                let d = seg_dev_at(sv, x);
                assert(assigned_below(reqs, d, x + 1) == assigned_below(reqs, d, x) + 1);
                lemma_assigned_below_mono(reqs, d, x + 1, maxi);
            }
        }
        let lay = Layout::new(max_byte_cnt, devs, table);
        proof {
            assert(lay@.devs =~= devsv);
        }
        Ok(lay)
    }
}

/// One run of the coalesced table, as stored: virtual start, physical
/// base, owning device index.
#[derive(Clone, Copy)]
struct Mapping {
    virtual_addr_start: usize,
    physical_addr_start: usize,
    dev: usize,
}

/// The validated, immutable runtime layout. It owns every registered
/// device and routes the whole address space to them.
pub struct Layout {
    byte_cnt: usize,
    devs: Vec<Device>,
    mappings: Vec<Mapping>,
}

impl Mapping {
    spec fn view_spec(self) -> SegV {
        SegV {
            start: self.virtual_addr_start as int,
            phys: self.physical_addr_start as int,
            dev: self.dev as int,
        }
    }
}

/// The abstract segment table of a stored one.
spec fn segs_view(ms: Seq<Mapping>) -> Seq<SegV> {
    Seq::new(ms.len(), |i: int| ms[i].view_spec())
}

/// The abstract contents of a device vector.
spec fn devs_view(ds: Seq<Device>) -> Seq<DevView> {
    Seq::new(ds.len(), |i: int| ds[i]@)
}

impl View for Layout {
    type V = MemView;

    closed spec fn view(&self) -> MemView {
        MemView {
            size: self.byte_cnt as int,
            devs: devs_view(self.devs@),
            segs: segs_view(self.mappings@),
        }
    }
}

impl Layout {
    /// Whether the routing invariant holds; `build` establishes it and
    /// every method keeps it.
    pub open spec fn wf(&self) -> bool {
        mem_wf(self@)
    }

    /// The constructor; only `build` reaches it, with a validated table.
    fn new(byte_cnt: usize, devs: Vec<Device>, mappings: Vec<Mapping>) -> (r: Self)
        ensures
            r@ == (MemView {
                size: byte_cnt as int,
                devs: devs_view(devs@),
                segs: segs_view(mappings@),
            }),
    {
        Layout { byte_cnt, devs, mappings }
    }

    /// How many byte-addresses the layout spans.
    pub fn get_byte_count(&self) -> (r: usize)
        ensures
            r == self@.size,
    {
        self.byte_cnt
    }

    /// The index of the segment routing `addr`: binary search over the
    /// sorted table.
    #[verifier::rlimit(30)]
    fn get_mapping_at_addr(&self, addr: usize) -> (i: usize)
        requires
            self.wf(),
            addr < self@.size,
        ensures
            i == seg_idx(self@.segs, addr as int),
    {
        proof {
            lemma_seg_idx_bounds(self@.segs, addr as int);
        }
        let mut lo: usize = 0;
        let mut hi: usize = self.mappings.len() - 1;
        while lo < hi
            invariant
                self.wf(),
                lo <= hi < self.mappings.len(),
                self@.segs[lo as int].start <= addr,
                hi < self.mappings.len() - 1 ==> addr < self@.segs[hi + 1].start,
            decreases hi - lo,
        {
            let mid = lo + (hi - lo + 1) / 2;
            if self.mappings[mid].virtual_addr_start <= addr {
                lo = mid;
            } else {
                hi = mid - 1;
            }
        }
        proof {
            lemma_seg_idx_unique(self@.segs, addr as int, lo as int);
        }
        lo
    }

    /// Route a bus read: translate `addr` and ask the owning device. The
    /// partition and the other devices are untouched.
    pub fn read(&mut self, addr: usize) -> (r: Option<u8>)
        requires
            old(self).wf(),
            addr < old(self)@.size,
        ensures
            final(self).wf(),
            (final(self)@, r) == mem_read_spec(old(self)@, addr as int),
            final(self)@.size == old(self)@.size,
            final(self)@.segs == old(self)@.segs,
            final(self)@.devs.len() == old(self)@.devs.len(),
    {
        proof {
            reveal(mem_read_spec);
            lemma_seg_idx_bounds(self@.segs, addr as int);
            assert(seg_phys_at(self@.segs, addr as int) == routed_below(
                self@.segs,
                seg_dev_at(self@.segs, addr as int),
                addr as int,
            ));
            lemma_routed_below_le(self@.segs, seg_dev_at(self@.segs, addr as int), addr as int);
        }
        let i = self.get_mapping_at_addr(addr);
        let m = self.mappings[i];
        let phys = m.physical_addr_start + (addr - m.virtual_addr_start);
        let mut dev = self.devs.remove(m.dev);
        let r = dev.read(phys);
        self.devs.insert(m.dev, dev);
        proof {
            assert(self.devs@ =~= old(self).devs@.update(m.dev as int, self.devs@[m.dev as int]));
            assert(self@.devs =~= mem_read_spec(old(self)@, addr as int).0.devs);
            assert(self@ =~= mem_read_spec(old(self)@, addr as int).0);
            lemma_wf_devs_same_shape(old(self)@, self@);
        }
        r
    }

    /// Route a bus write: translate `addr` and hand the byte to the
    /// owning device; `None` reports a refused write.
    pub fn write(&mut self, addr: usize, data: u8) -> (r: Option<()>)
        requires
            old(self).wf(),
            addr < old(self)@.size,
        ensures
            final(self).wf(),
            (final(self)@, r) == mem_write_spec(old(self)@, addr as int, data),
            final(self)@.size == old(self)@.size,
            final(self)@.segs == old(self)@.segs,
            final(self)@.devs.len() == old(self)@.devs.len(),
    {
        proof {
            reveal(mem_write_spec);
            lemma_seg_idx_bounds(self@.segs, addr as int);
            assert(seg_phys_at(self@.segs, addr as int) == routed_below(
                self@.segs,
                seg_dev_at(self@.segs, addr as int),
                addr as int,
            ));
            lemma_routed_below_le(self@.segs, seg_dev_at(self@.segs, addr as int), addr as int);
        }
        let i = self.get_mapping_at_addr(addr);
        let m = self.mappings[i];
        let phys = m.physical_addr_start + (addr - m.virtual_addr_start);
        let mut dev = self.devs.remove(m.dev);
        let r = dev.write(phys, data);
        self.devs.insert(m.dev, dev);
        proof {
            assert(self.devs@ =~= old(self).devs@.update(m.dev as int, self.devs@[m.dev as int]));
            assert(self@.devs =~= mem_write_spec(old(self)@, addr as int, data).0.devs);
            assert(self@ =~= mem_write_spec(old(self)@, addr as int, data).0);
            lemma_wf_devs_same_shape(old(self)@, self@);
        }
        r
    }

    /// Lifecycle: attach every owned device, in registration order.
    pub fn attach(&mut self)
        ensures
            final(self)@ == old(self)@,
            old(self).wf() ==> final(self).wf(),
    {
        let n = self.devs.len();
        let mut i: usize = 0;
        while i < n
            invariant
                n == self.devs@.len(),
                i <= n,
                self.byte_cnt == old(self).byte_cnt,
                self.mappings@ == old(self).mappings@,
                forall|j: int| 0 <= j < n ==> self.devs@[j]@ == #[trigger] old(self).devs@[j]@,
            decreases n - i,
        {
            let mut dev = self.devs.remove(i);
            dev.attach();
            self.devs.insert(i, dev);
            i = i + 1;
        }
        proof {
            assert(self@.devs =~= old(self)@.devs);
            assert(self@ =~= old(self)@);
        }
    }

    /// Lifecycle: detach every owned device, in registration order.
    pub fn detach(&mut self)
        ensures
            final(self)@ == old(self)@,
            old(self).wf() ==> final(self).wf(),
    {
        let n = self.devs.len();
        let mut i: usize = 0;
        while i < n
            invariant
                n == self.devs@.len(),
                i <= n,
                self.byte_cnt == old(self).byte_cnt,
                self.mappings@ == old(self).mappings@,
                forall|j: int| 0 <= j < n ==> self.devs@[j]@ == #[trigger] old(self).devs@[j]@,
            decreases n - i,
        {
            let mut dev = self.devs.remove(i);
            dev.detach();
            self.devs.insert(i, dev);
            i = i + 1;
        }
        proof {
            assert(self@.devs =~= old(self)@.devs);
            assert(self@ =~= old(self)@);
        }
    }

    /// Lifecycle: reset every owned device, in registration order.
    pub fn reset(&mut self)
        ensures
            final(self)@ == mem_reset_spec(old(self)@),
            old(self).wf() ==> final(self).wf(),
            final(self)@.size == old(self)@.size,
            final(self)@.segs == old(self)@.segs,
            final(self)@.devs.len() == old(self)@.devs.len(),
    {
        let n = self.devs.len();
        let mut i: usize = 0;
        while i < n
            invariant
                n == self.devs@.len(),
                self.devs@.len() == old(self).devs@.len(),
                i <= n,
                self.byte_cnt == old(self).byte_cnt,
                self.mappings@ == old(self).mappings@,
                forall|j: int|
                    0 <= j < i ==> self.devs@[j]@ == dev_reset_spec(#[trigger] old(self).devs@[j]@),
                forall|j: int| i <= j < n ==> self.devs@[j] == #[trigger] old(self).devs@[j],
            decreases n - i,
        {
            let mut dev = self.devs.remove(i);
            dev.reset();
            self.devs.insert(i, dev);
            i = i + 1;
        }
        proof {
            reveal(mem_reset_spec);
            assert(self@.devs =~= mem_reset_spec(old(self)@).devs);
            assert(self@ =~= mem_reset_spec(old(self)@));
            if old(self).wf() {
                lemma_wf_devs_same_shape(old(self)@, self@);
            }
        }
    }
}

/// Every address of a well-formed layout's space is routed to some
/// registered device: after a successful `build`, no read goes unmapped
/// for want of a segment.
pub proof fn lemma_full_coverage(m: MemView, a: int)
    requires
        mem_wf(m),
        0 <= a < m.size,
    ensures
        0 <= seg_idx(m.segs, a) < m.segs.len(),
        0 <= seg_dev_at(m.segs, a) < m.devs.len(),
    decreases m.segs.len(),
{
    lemma_seg_idx_bounds(m.segs, a);
}

/// The byte a read at `addr` hands back, without the read's own effect
/// on the device (a serial read consumes its queue; only the value is
/// observed here). `None` is a refused access.
pub open spec fn mem_value_at(m: MemView, addr: int) -> Option<u8> {
    mem_read_spec(m, addr).1
}

/// Writing to an address routed to read-write storage, then reading the
/// same address, hands the written byte back, for every address of the
/// space and every byte.
pub proof fn lemma_write_read_round_trip(m: MemView, addr: int, b: u8)
    requires
        mem_wf(m),
        0 <= addr < m.size,
        m.devs[seg_dev_at(m.segs, addr)] is Ram,
    ensures
        mem_value_at(mem_write_spec(m, addr, b).0, addr) == Some(b),
        mem_write_spec(m, addr, b).1 == Some(()),
{
    reveal(mem_read_spec);
    reveal(mem_write_spec);
    lemma_seg_idx_bounds(m.segs, addr);
    let d = seg_dev_at(m.segs, addr);
    let p = seg_phys_at(m.segs, addr);
    lemma_routed_below_le(m.segs, d, addr);
    assert(p == routed_below(m.segs, d, addr));
    assert(p + 1 <= dev_capacity(m.devs[d]));
    if let DevView::Ram(sq) = m.devs[d] {
        assert(0 <= p < sq.len());
        lemma_small_mod(p as nat, sq.len());
        assert(p % sq.len() as int == p);
        assert(sq.update(p, b)[p] == b);
    }
}

/// A write to an address routed to read-only storage is a no-op: the
/// write is refused and the layout, device contents included, is
/// exactly as it was.
pub proof fn lemma_rom_write_noop(m: MemView, addr: int, b: u8)
    requires
        mem_wf(m),
        0 <= addr < m.size,
        m.devs[seg_dev_at(m.segs, addr)] is Rom,
    ensures
        mem_write_spec(m, addr, b).0 == m,
        mem_write_spec(m, addr, b).1 is None,
{
    reveal(mem_write_spec);
    lemma_seg_idx_bounds(m.segs, addr);
    let d = seg_dev_at(m.segs, addr);
    assert(m.devs.update(d, m.devs[d]) =~= m.devs);
    assert(mem_write_spec(m, addr, b).0 =~= m);
}

/// A write keeps the layout well-formed and the partition untouched.
pub proof fn lemma_write_preserves_wf(m: MemView, waddr: int, b: u8)
    requires
        mem_wf(m),
        0 <= waddr < m.size,
    ensures
        mem_wf(mem_write_spec(m, waddr, b).0),
        mem_write_spec(m, waddr, b).0.size == m.size,
        mem_write_spec(m, waddr, b).0.segs == m.segs,
        mem_write_spec(m, waddr, b).0.devs.len() == m.devs.len(),
    decreases m.size,
{
    reveal(mem_write_spec);
    lemma_seg_idx_bounds(m.segs, waddr);
    lemma_wf_devs_same_shape(m, mem_write_spec(m, waddr, b).0);
}

/// A read keeps the layout well-formed, the partition untouched, and
/// every device of the kind it was: only a serial port's queues can
/// move.
#[verifier::rlimit(60)]
pub proof fn lemma_read_frame(m: MemView, raddr: int)
    requires
        mem_wf(m),
        0 <= raddr < m.size,
    ensures
        mem_wf(mem_read_spec(m, raddr).0),
        mem_read_spec(m, raddr).0.size == m.size,
        mem_read_spec(m, raddr).0.segs == m.segs,
        mem_read_spec(m, raddr).0.devs.len() == m.devs.len(),
        forall|i: int|
            0 <= i < m.devs.len() ==> ((#[trigger] mem_read_spec(m, raddr).0.devs[i]) is Ram
                <==> m.devs[i] is Ram),
        forall|i: int|
            0 <= i < m.devs.len() ==> ((#[trigger] mem_read_spec(m, raddr).0.devs[i]) is Rom
                <==> m.devs[i] is Rom),
    decreases m.size,
{
    reveal(mem_read_spec);
    lemma_seg_idx_bounds(m.segs, raddr);
    lemma_wf_devs_same_shape(m, mem_read_spec(m, raddr).0);
}

/// A write keeps every device of the kind it was.
pub proof fn lemma_write_frame_kinds(m: MemView, waddr: int, b: u8)
    requires
        mem_wf(m),
        0 <= waddr < m.size,
    ensures
        forall|i: int|
            0 <= i < m.devs.len() ==> ((#[trigger] mem_write_spec(m, waddr, b).0.devs[i]) is Ram
                <==> m.devs[i] is Ram),
        forall|i: int|
            0 <= i < m.devs.len() ==> ((#[trigger] mem_write_spec(m, waddr, b).0.devs[i]) is Rom
                <==> m.devs[i] is Rom),
    decreases m.size,
{
    reveal(mem_write_spec);
    lemma_seg_idx_bounds(m.segs, waddr);
}

/// A read leaves the byte at every address routed to storage as it was:
/// only a serial port consumes anything when read.
pub proof fn lemma_read_preserves_storage_values(m: MemView, raddr: int, a: int)
    requires
        mem_wf(m),
        0 <= raddr < m.size,
        0 <= a < m.size,
        m.devs[seg_dev_at(m.segs, a)] is Ram || m.devs[seg_dev_at(m.segs, a)] is Rom,
    ensures
        mem_value_at(mem_read_spec(m, raddr).0, a) == mem_value_at(m, a),
{
    reveal(mem_read_spec);
    lemma_seg_idx_bounds(m.segs, raddr);
    lemma_seg_idx_bounds(m.segs, a);
    let dr = seg_dev_at(m.segs, raddr);
    let da = seg_dev_at(m.segs, a);
    if da == dr {
        assert(mem_read_spec(m, raddr).0.devs[da] == m.devs[da]);
    }
    assert(mem_read_spec(m, raddr).0.devs[da] == m.devs[da]);
}

/// A write changes no byte but the one at its own address: every other
/// address of the space reads the same value afterwards. Distinct
/// addresses never share a storage cell, because routing is injective
/// and stays within each device's capacity.
pub proof fn lemma_write_preserves_others(m: MemView, waddr: int, b: u8, a: int)
    requires
        mem_wf(m),
        0 <= waddr < m.size,
        0 <= a < m.size,
        a != waddr,
    ensures
        mem_value_at(mem_write_spec(m, waddr, b).0, a) == mem_value_at(m, a),
{
    reveal(mem_read_spec);
    reveal(mem_write_spec);
    lemma_seg_idx_bounds(m.segs, waddr);
    lemma_seg_idx_bounds(m.segs, a);
    let dw = seg_dev_at(m.segs, waddr);
    let da = seg_dev_at(m.segs, a);
    let pw = seg_phys_at(m.segs, waddr);
    let pa = seg_phys_at(m.segs, a);
    lemma_routed_below_le(m.segs, dw, waddr);
    lemma_routed_below_le(m.segs, da, a);
    assert(pw == routed_below(m.segs, dw, waddr));
    assert(pa == routed_below(m.segs, da, a));
    assert(pw + 1 <= dev_capacity(m.devs[dw]));
    assert(pa + 1 <= dev_capacity(m.devs[da]));
    if da == dw {
        if a < waddr {
            lemma_route_injective(m, a, waddr);
        } else {
            lemma_route_injective(m, waddr, a);
        }
        if let DevView::Ram(sq) = m.devs[dw] {
            assert(0 <= pw < sq.len());
            assert(0 <= pa < sq.len());
            lemma_small_mod(pw as nat, sq.len());
            lemma_small_mod(pa as nat, sq.len());
            assert(pw % sq.len() as int == pw);
            assert(pa % sq.len() as int == pa);
            assert(sq.update(pw, b)[pa] == sq[pa]);
        }
    }
}

/// Well-formedness only reads the segment table, the device count and the
/// device capacities; a transition that keeps those keeps it.
proof fn lemma_wf_devs_same_shape(m1: MemView, m2: MemView)
    requires
        mem_wf(m1),
        m2.size == m1.size,
        m2.segs == m1.segs,
        m2.devs.len() == m1.devs.len(),
        forall|d: int|
            0 <= d < m1.devs.len() ==> dev_capacity(#[trigger] m2.devs[d]) == dev_capacity(
                m1.devs[d],
            ),
    ensures
        mem_wf(m2),
{
    assert forall|a: int|
        0 <= a < m2.size implies (#[trigger] seg_phys_at(m2.segs, a)) + 1 <= dev_capacity(
        m2.devs[seg_dev_at(m2.segs, a)],
    ) by {
        lemma_seg_idx_bounds(m1.segs, a);
        assert(seg_phys_at(m1.segs, a) + 1 <= dev_capacity(m1.devs[seg_dev_at(m1.segs, a)]));
        assert(0 <= seg_dev_at(m1.segs, a) < m1.devs.len());
        assert(dev_capacity(m2.devs[seg_dev_at(m1.segs, a)]) == dev_capacity(
            m1.devs[seg_dev_at(m1.segs, a)],
        ));
    }
}

} // verus!
