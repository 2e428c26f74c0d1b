//! The bus through which the processor reaches memory and I/O ports, and a
//! plain RAM-backed implementation of it.

use vstd::prelude::*;

verus! {

/// Size of the address space.
pub const MEMORY_SIZE: usize = 65536;
/// Number of distinct I/O ports of [`TestBus`]: only the low byte of a port
/// number selects one.
pub const PORT_COUNT: usize = 256;

/// A memory and I/O bus.
///
/// Implementations describe their state by two sequences: the contents of the
/// address space (`memory`) and the state of the I/O ports (`ports`). How an
/// input reads and changes the ports and how an output changes them is up to
/// the implementation (`port_input`, `port_after_input`, `port_output`), so a
/// port may be a device whose reads have effects or whose value changes from
/// one input to the next. Memory, by contrast, is modelled as storage: a read
/// gives the byte stored at the address and changes nothing, and only writes
/// change it. A bus with memory-mapped devices whose reads have effects is
/// outside this model.
pub trait Bus: Sized {
    /// The bytes of the address space, indexed by address.
    spec fn memory(&self) -> Seq<u8>;

    /// The state of the I/O ports.
    spec fn ports(&self) -> Seq<u8>;

    /// The memory covers the whole 16-bit address space: one byte for each
    /// address.
    proof fn lemma_memory_size(&self)
        ensures
            self.memory().len() == MEMORY_SIZE,
    ;

    /// The byte that an input from `port` yields when the ports are in state `ports`.
    spec fn port_input(ports: Seq<u8>, port: u16) -> u8;

    /// The state of the ports after an input from `port`.
    spec fn port_after_input(ports: Seq<u8>, port: u16) -> Seq<u8>;

    /// The state of the ports after `value` is output to `port`.
    spec fn port_output(ports: Seq<u8>, port: u16, value: u8) -> Seq<u8>;

    /// Reads the byte at `address`.
    fn read8(&mut self, address: u16) -> (value: u8)
        ensures
            value == old(self).memory()[address as int],
            final(self).memory() == old(self).memory(),
            final(self).ports() == old(self).ports(),
    ;

    /// Reads the little-endian word at `address` (low byte first; the high
    /// byte's address wraps around at the top of memory).
    fn read16(&mut self, address: u16) -> (value: u16)
        ensures
            value == old(self).memory()[address as int] as int + 256 * old(self).memory()[
                address.wrapping_add(1) as int] as int,
            final(self).memory() == old(self).memory(),
            final(self).ports() == old(self).ports(),
    ;

    /// Writes `value` at `address`.
    fn write8(&mut self, address: u16, value: u8)
        ensures
            final(self).memory() == old(self).memory().update(address as int, value),
            final(self).ports() == old(self).ports(),
    ;

    /// Writes `value` as a little-endian word at `address`.
    fn write16(&mut self, address: u16, value: u16)
        ensures
            final(self).memory() == old(self).memory().update(address as int, (value % 256) as u8).update(
                address.wrapping_add(1) as int,
                (value / 256) as u8,
            ),
            final(self).ports() == old(self).ports(),
    ;

    /// Reads a byte from the I/O port `port`.
    fn read_io(&mut self, port: u16) -> (value: u8)
        ensures
            value == Self::port_input(old(self).ports(), port),
            final(self).memory() == old(self).memory(),
            final(self).ports() == Self::port_after_input(old(self).ports(), port),
    ;

    /// Writes a byte to the I/O port `port`.
    fn write_io(&mut self, port: u16, value: u8)
        ensures
            final(self).memory() == old(self).memory(),
            final(self).ports() == Self::port_output(old(self).ports(), port, value),
    ;

    /// Copies `data` to the start of memory.
    fn load(&mut self, data: &[u8])
        requires
            data@.len() <= old(self).memory().len(),
        ensures
            final(self).memory() == data@ + old(self).memory().skip(data@.len() as int),
            final(self).ports() == old(self).ports(),
    ;
}

/// A bus backed by 64 KiB of RAM and 256 I/O ports that hold the last byte
/// written to them.
pub struct TestBus {
    data: [u8; 65536],
    io: [u8; 256],
}

impl TestBus {
    /// A bus whose memory and ports are all zero.
    pub fn new() -> (r: Self)
        ensures
            r.memory() == Seq::new(MEMORY_SIZE as nat, |i: int| 0u8),
            r.ports() == Seq::new(PORT_COUNT as nat, |i: int| 0u8),
    {
        let r = Self { data: [0u8; 65536], io: [0u8; 256] };
        assert(r.memory() =~= Seq::new(MEMORY_SIZE as nat, |i: int| 0u8));
        assert(r.ports() =~= Seq::new(PORT_COUNT as nat, |i: int| 0u8));
        r
    }
}

impl TestBus {
    /// A `TestBus` has one cell for each of the 256 port numbers that the low
    /// byte of a port selects.
    pub proof fn lemma_port_count(&self)
        ensures
            self.ports().len() == PORT_COUNT,
    {
    }
}

impl Default for TestBus {
    fn default() -> (r: Self)
        ensures
            r.memory() == Seq::new(MEMORY_SIZE as nat, |i: int| 0u8),
            r.ports() == Seq::new(PORT_COUNT as nat, |i: int| 0u8),
    {
        Self::new()
    }
}

impl Bus for TestBus {
    closed spec fn memory(&self) -> Seq<u8> {
        self.data@
    }

    closed spec fn ports(&self) -> Seq<u8> {
        self.io@
    }

    proof fn lemma_memory_size(&self) {
    }

    open spec fn port_input(ports: Seq<u8>, port: u16) -> u8 {
        ports[port as int % 256]
    }

    open spec fn port_after_input(ports: Seq<u8>, port: u16) -> Seq<u8> {
        ports
    }

    open spec fn port_output(ports: Seq<u8>, port: u16, value: u8) -> Seq<u8> {
        ports.update(port as int % 256, value)
    }

    fn read8(&mut self, address: u16) -> (value: u8) {
        self.data[address as usize]
    }

    fn read16(&mut self, address: u16) -> (value: u16) {
        let low_byte = self.data[address as usize] as u16;
        let high_byte = self.data[address.wrapping_add(1) as usize] as u16;
        assert((high_byte << 8 | low_byte) == low_byte + 256 * high_byte) by (bit_vector)
            requires
                low_byte < 256,
                high_byte < 256,
        ;
        high_byte << 8 | low_byte
    }

    fn write8(&mut self, address: u16, value: u8) {
        self.data[address as usize] = value;
    }

    fn write16(&mut self, address: u16, value: u16) {
        let high_byte = ((value >> 8) & 0xFF) as u8;
        let low_byte = (value & 0xFF) as u8;
        assert(((value >> 8) & 0xFF) as u8 == (value / 256) as u8) by (bit_vector);
        assert((value & 0xFF) as u8 == (value % 256) as u8) by (bit_vector);
        self.data[address as usize] = low_byte;
        self.data[address.wrapping_add(1) as usize] = high_byte;
    }

    fn read_io(&mut self, port: u16) -> (value: u8) {
        assert(port & 0xFF == port % 256) by (bit_vector);
        self.io[(port & 0xFF) as usize]
    }

    fn write_io(&mut self, port: u16, value: u8) {
        assert(port & 0xFF == port % 256) by (bit_vector);
        self.io[(port & 0xFF) as usize] = value;
    }

    fn load(&mut self, data: &[u8]) {
        let ghost before = self.data@;
        let mut i: usize = 0;
        while i < data.len()
            invariant
                data@.len() <= MEMORY_SIZE,
                i <= data@.len(),
                self.data@.len() == MEMORY_SIZE,
                self.io@ == old(self).io@,
                before == old(self).data@,
                forall|j: int| 0 <= j < i ==> self.data@[j] == data@[j],
                forall|j: int| i <= j < MEMORY_SIZE ==> self.data@[j] == before[j],
            decreases data@.len() - i,
        {
            self.data[i] = data[i];
            i = i + 1;
        }
        assert(self.data@ =~= data@ + before.skip(data@.len() as int));
    }
}

/// What is written at an address is what a later read of that address
/// gives, and writing one address leaves every other address as it was.
pub proof fn lemma_read_after_write(memory: Seq<u8>, address: u16, value: u8, other: u16)
    requires
        memory.len() == MEMORY_SIZE,
    ensures
        memory.update(address as int, value)[address as int] == value,
        other != address ==> memory.update(address as int, value)[other as int]
            == memory[other as int],
{
}

} // verus!
