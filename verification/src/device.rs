//! The memory-mapped participants a layout can route bus traffic to:
//! plain read-write storage, read-only storage, and a byte-oriented serial
//! port. A device answers byte reads and writes at device-local addresses
//! and takes attach/detach/reset lifecycle calls; `None` from a read or a
//! write signals a refused access.

use vstd::prelude::*;

verus! {

/// Plain read-write storage. Device-local addresses wrap modulo the
/// capacity, as the address pins of a narrow memory part would.
pub struct RAM {
    data: Vec<u8>,
}

/// Read-only storage: reads behave as RAM's, every write is refused.
pub struct ROM {
    data: Vec<u8>,
}

/// A byte-oriented serial port, modelled by its two queues: bytes that
/// arrived and wait to be consumed by the processor, and bytes the
/// processor sent that wait to be drained by the host. The host side
/// feeds `push_input` and drains `pop_output`; the processor side reads
/// and writes through the bus, at any device-local address.
pub struct SerialIO {
    input: Vec<u8>,
    output: Vec<u8>,
}

/// The closed set of device kinds a layout can own.
pub enum Device {
    Ram(RAM),
    Rom(ROM),
    Serial(SerialIO),
}

/// What a device holds, seen abstractly: the stored bytes for storage
/// parts, the two queues for the serial port.
pub enum DevView {
    Ram(Seq<u8>),
    Rom(Seq<u8>),
    Serial(Seq<u8>, Seq<u8>),
}

impl View for RAM {
    type V = Seq<u8>;

    closed spec fn view(&self) -> Seq<u8> {
        self.data@
    }
}

impl View for ROM {
    type V = Seq<u8>;

    closed spec fn view(&self) -> Seq<u8> {
        self.data@
    }
}

impl View for SerialIO {
    type V = (Seq<u8>, Seq<u8>);

    closed spec fn view(&self) -> (Seq<u8>, Seq<u8>) {
        (self.input@, self.output@)
    }
}

impl View for Device {
    type V = DevView;

    open spec fn view(&self) -> DevView {
        match self {
            Device::Ram(m) => DevView::Ram(m@),
            Device::Rom(m) => DevView::Rom(m@),
            Device::Serial(s) => DevView::Serial(s@.0, s@.1),
        }
    }
}

/// The byte capacity a device reports to the layout builder. The serial
/// port ignores the device-local address, so it accepts a window of any
/// size.
pub open spec fn dev_capacity(d: DevView) -> int {
    match d {
        DevView::Ram(s) => s.len() as int,
        DevView::Rom(s) => s.len() as int,
        DevView::Serial(_inp, _out) => usize::MAX as int,
    }
}

/// What a read at device-local address `addr` does: the device afterwards,
/// and the byte handed back, `None` for a refused access. Storage reads
/// leave the device as it was; a serial read consumes the head of the
/// input queue and is refused when that queue is empty.
pub open spec fn dev_read_spec(d: DevView, addr: int) -> (DevView, Option<u8>) {
    match d {
        DevView::Ram(s) => if s.len() == 0 {
            (d, None)
        } else {
            (d, Some(s[addr % s.len() as int]))
        },
        DevView::Rom(s) => if s.len() == 0 {
            (d, None)
        } else {
            (d, Some(s[addr % s.len() as int]))
        },
        DevView::Serial(inp, out) => if inp.len() > 0 {
            (DevView::Serial(inp.drop_first(), out), Some(inp[0]))
        } else {
            (d, None)
        },
    }
}

/// What a write of `data` at device-local address `addr` does. RAM stores
/// the byte; ROM refuses and is unchanged; the serial port appends the
/// byte to its output queue.
pub open spec fn dev_write_spec(d: DevView, addr: int, data: u8) -> (DevView, Option<()>) {
    match d {
        DevView::Ram(s) => if s.len() == 0 {
            (d, None)
        } else {
            (DevView::Ram(s.update(addr % s.len() as int, data)), Some(()))
        },
        DevView::Rom(_s) => (d, None),
        DevView::Serial(inp, out) => (DevView::Serial(inp, out.push(data)), Some(())),
    }
}

/// What a reset does: storage keeps its bytes, the serial port drops both
/// queues.
pub open spec fn dev_reset_spec(d: DevView) -> DevView {
    match d {
        DevView::Serial(_inp, _out) => DevView::Serial(Seq::empty(), Seq::empty()),
        _ => d,
    }
}

impl RAM {
    /// Fresh storage of `byte_cnt` zeroed bytes.
    pub fn new(byte_cnt: usize) -> (r: Self)
        ensures
            r@.len() == byte_cnt,
            forall|i: int| 0 <= i < byte_cnt ==> r@[i] == 0u8,
    {
        RAM { data: zeroed_bytes(byte_cnt) }
    }

    /// Copy `data` into the storage starting at device-local address
    /// `addr_start`; the image must fit inside the capacity.
    pub fn load_bytes(&mut self, addr_start: usize, data: &[u8])
        requires
            addr_start + data@.len() <= old(self)@.len(),
        ensures
            final(self)@ == splice_bytes(old(self)@, addr_start as int, data@),
    {
        splice_into(&mut self.data, addr_start, data);
    }

    /// The byte at the wrapped device-local address; refused only when the
    /// capacity is zero.
    pub fn on_read(&self, addr: usize) -> (r: Option<u8>)
        ensures
            (DevView::Ram(self@), r) == dev_read_spec(DevView::Ram(self@), addr as int),
    {
        if self.data.len() == 0 {
            None
        } else {
            Some(self.data[addr % self.data.len()])
        }
    }

    /// Store the byte at the wrapped device-local address.
    pub fn on_write(&mut self, addr: usize, data: u8) -> (r: Option<()>)
        ensures
            (DevView::Ram(final(self)@), r) == dev_write_spec(
                DevView::Ram(old(self)@),
                addr as int,
                data,
            ),
    {
        if self.data.len() == 0 {
            None
        } else {
            let i = addr % self.data.len();
            self.data[i] = data;
            Some(())
        }
    }
}

impl ROM {
    /// Fresh read-only storage of `byte_cnt` zeroed bytes.
    pub fn new(byte_cnt: usize) -> (r: Self)
        ensures
            r@.len() == byte_cnt,
            forall|i: int| 0 <= i < byte_cnt ==> r@[i] == 0u8,
    {
        ROM { data: zeroed_bytes(byte_cnt) }
    }

    /// Burn `data` into the storage starting at device-local address
    /// `addr_start`; the image must fit inside the capacity. This is the
    /// one way the contents change after construction.
    pub fn load_bytes(&mut self, addr_start: usize, data: &[u8])
        requires
            addr_start + data@.len() <= old(self)@.len(),
        ensures
            final(self)@ == splice_bytes(old(self)@, addr_start as int, data@),
    {
        splice_into(&mut self.data, addr_start, data);
    }

    /// The byte at the wrapped device-local address.
    pub fn on_read(&self, addr: usize) -> (r: Option<u8>)
        ensures
            (DevView::Rom(self@), r) == dev_read_spec(DevView::Rom(self@), addr as int),
    {
        if self.data.len() == 0 {
            None
        } else {
            Some(self.data[addr % self.data.len()])
        }
    }

    /// Every write to read-only storage is refused.
    pub fn on_write(&mut self, _addr: usize, _data: u8) -> (r: Option<()>)
        ensures
            final(self)@ == old(self)@,
            r is None,
    {
        None
    }
}

impl SerialIO {
    /// A serial port with both queues empty.
    pub fn new() -> (r: Self)
        ensures
            r@.0.len() == 0,
            r@.1.len() == 0,
    {
        SerialIO { input: Vec::new(), output: Vec::new() }
    }

    /// The host hands the port one arrived byte; the processor will see it
    /// after the bytes already queued.
    pub fn push_input(&mut self, data: u8)
        ensures
            final(self)@.0 == old(self)@.0.push(data),
            final(self)@.1 == old(self)@.1,
    {
        self.input.push(data);
    }

    /// The host drains one byte the processor sent, oldest first; `None`
    /// when nothing is pending.
    pub fn pop_output(&mut self) -> (r: Option<u8>)
        ensures
            old(self)@.1.len() == 0 ==> r is None && final(self)@ == old(self)@,
            old(self)@.1.len() > 0 ==> r == Some(old(self)@.1[0]) && final(self)@.0 == old(self)@.0
                && final(self)@.1 == old(self)@.1.drop_first(),
    {
        if self.output.len() == 0 {
            None
        } else {
            let b = self.output.remove(0);
            proof {
                assert(self.output@ =~= old(self).output@.drop_first());
            }
            Some(b)
        }
    }

    /// A bus read consumes the head of the input queue, whatever the
    /// device-local address; refused when the queue is empty.
    pub fn on_read(&mut self, _addr: usize) -> (r: Option<u8>)
        ensures
            (DevView::Serial(final(self)@.0, final(self)@.1), r) == dev_read_spec(
                DevView::Serial(old(self)@.0, old(self)@.1),
                0,
            ),
    {
        if self.input.len() == 0 {
            None
        } else {
            let b = self.input.remove(0);
            proof {
                assert(self.input@ =~= old(self).input@.drop_first());
            }
            Some(b)
        }
    }

    /// A bus write appends the byte to the output queue, whatever the
    /// device-local address.
    pub fn on_write(&mut self, _addr: usize, data: u8) -> (r: Option<()>)
        ensures
            (DevView::Serial(final(self)@.0, final(self)@.1), r) == dev_write_spec(
                DevView::Serial(old(self)@.0, old(self)@.1),
                0,
                data,
            ),
    {
        self.output.push(data);
        Some(())
    }

    /// A reset drops both queues.
    pub fn on_reset(&mut self)
        ensures
            final(self)@.0 == Seq::<u8>::empty(),
            final(self)@.1 == Seq::<u8>::empty(),
    {
        self.input = Vec::new();
        self.output = Vec::new();
        proof {
            assert(self.input@ =~= Seq::<u8>::empty());
            assert(self.output@ =~= Seq::<u8>::empty());
        }
    }
}

impl Device {
    /// The byte capacity this device reports for range validation.
    pub fn byte_capacity(&self) -> (r: usize)
        ensures
            r == dev_capacity(self@),
    {
        match self {
            Device::Ram(m) => m.data.len(),
            Device::Rom(m) => m.data.len(),
            Device::Serial(_s) => usize::MAX,
        }
    }

    /// A byte read at a device-local address.
    pub fn read(&mut self, addr: usize) -> (r: Option<u8>)
        ensures
            (final(self)@, r) == dev_read_spec(old(self)@, addr as int),
    {
        match self {
            Device::Ram(m) => m.on_read(addr),
            Device::Rom(m) => m.on_read(addr),
            Device::Serial(s) => s.on_read(addr),
        }
    }

    /// A byte write at a device-local address.
    pub fn write(&mut self, addr: usize, data: u8) -> (r: Option<()>)
        ensures
            (final(self)@, r) == dev_write_spec(old(self)@, addr as int, data),
    {
        match self {
            Device::Ram(m) => m.on_write(addr, data),
            Device::Rom(m) => m.on_write(addr, data),
            Device::Serial(s) => s.on_write(addr, data),
        }
    }

    /// Lifecycle: the layout attaches every device once, at engine
    /// construction.
    pub fn attach(&mut self)
        ensures
            final(self)@ == old(self)@,
    {
    }

    /// Lifecycle: the layout detaches every device at teardown.
    pub fn detach(&mut self)
        ensures
            final(self)@ == old(self)@,
    {
    }

    /// Lifecycle: a processor reset reaches every device.
    pub fn reset(&mut self)
        ensures
            final(self)@ == dev_reset_spec(old(self)@),
    {
        match self {
            Device::Serial(s) => s.on_reset(),
            _ => (),
        }
    }
}

/// A vector of `byte_cnt` zeroed bytes.
fn zeroed_bytes(byte_cnt: usize) -> (r: Vec<u8>)
    ensures
        r@.len() == byte_cnt,
        forall|i: int| 0 <= i < byte_cnt ==> r@[i] == 0u8,
{
    let mut data: Vec<u8> = Vec::new();
    let mut i: usize = 0;
    while i < byte_cnt
        invariant
            i <= byte_cnt,
            data@.len() == i,
            forall|j: int| 0 <= j < i ==> data@[j] == 0u8,
        decreases byte_cnt - i,
    {
        data.push(0u8);
        i = i + 1;
    }
    data
}

/// `dst` with `src` copied in from index `at` on; everything else as it
/// was.
pub open spec fn splice_bytes(dst: Seq<u8>, at: int, src: Seq<u8>) -> Seq<u8> {
    Seq::new(dst.len(), |i: int| if at <= i < at + src.len() {
        src[i - at]
    } else {
        dst[i]
    })
}

/// Copy `src` into `dst` starting at index `at`.
fn splice_into(dst: &mut Vec<u8>, at: usize, src: &[u8])
    requires
        at + src@.len() <= old(dst)@.len(),
    ensures
        final(dst)@ == splice_bytes(old(dst)@, at as int, src@),
{
    let dst_len = dst.len();
    let mut i: usize = 0;
    while i < src.len()
        invariant
            i <= src@.len(),
            at + src@.len() <= dst_len,
            dst@.len() == dst_len,
            dst@.len() == old(dst)@.len(),
            forall|j: int| 0 <= j < i ==> dst@[at + j] == src@[j],
            forall|j: int|
                0 <= j < dst@.len() && !(at <= j < at + i) ==> dst@[j] == old(dst)@[j],
        decreases src@.len() - i,
    {
        let k = at + i;
        dst[k] = src[i];
        i = i + 1;
    }
    proof {
        assert(dst@ =~= splice_bytes(old(dst)@, at as int, src@));
    }
}

} // verus!
