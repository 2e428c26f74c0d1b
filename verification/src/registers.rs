//! The register file of the processor.

use vstd::prelude::*;

pub mod index;

verus! {


/// The 16-bit value of a register pair whose high byte is `high` and whose
/// low byte is `low`.
pub open spec fn pair_value(high: u8, low: u8) -> u16 {
    (high as int * 256 + low as int) as u16
}

/// The high byte of a 16-bit value.
pub open spec fn high_byte(value: u16) -> u8 {
    (value / 256) as u8
}

/// The low byte of a 16-bit value.
pub open spec fn low_byte(value: u16) -> u8 {
    (value % 256) as u8
}

/// The refresh register after one increment: bit 7 is kept, the low seven
/// bits count modulo 128.
pub open spec fn next_refresh(r: u8) -> u8 {
    ((r / 128) * 128 + (r % 128 + 1) % 128) as u8
}

pub struct Registers {
    /// Temporary
    pub w: u8,
    /// Temporary
    pub z: u8,
    /// Accumulator
    pub a: u8,
    /// Flags
    pub f: u8,
    pub b: u8,
    pub c: u8,
    pub d: u8,
    pub e: u8,
    pub h: u8,
    pub l: u8,
    pub a_alt: u8,
    pub f_alt: u8,
    pub b_alt: u8,
    pub c_alt: u8,
    pub d_alt: u8,
    pub e_alt: u8,
    pub h_alt: u8,
    pub l_alt: u8,
    /// Program counter
    pub pc: u16,
    /// Stack pointer
    pub sp: u16,
    /// Index register X
    pub ix: u16,
    /// Index register Y
    pub iy: u16,
    /// Interrupt vector
    pub i: u8,
    /// Refresh counter
    pub r: u8,
    /// Interrupt flip-flops
    pub iff1: bool,
    pub iff2: bool,
    /// Interrupt mode
    pub im: u8,
    pub halted: bool,
}

/// The register file in which every register is zero and every flag false.
pub open spec fn zeroed_registers() -> Registers {
    Registers {
        w: 0,
        z: 0,
        a: 0,
        f: 0,
        b: 0,
        c: 0,
        d: 0,
        e: 0,
        h: 0,
        l: 0,
        a_alt: 0,
        f_alt: 0,
        b_alt: 0,
        c_alt: 0,
        d_alt: 0,
        e_alt: 0,
        h_alt: 0,
        l_alt: 0,
        pc: 0,
        sp: 0,
        ix: 0,
        iy: 0,
        i: 0,
        r: 0,
        iff1: false,
        iff2: false,
        im: 0,
        halted: false,
    }
}

/// The composition of a high and a low byte, computed with shifts.
pub(crate) fn join(high: u8, low: u8) -> (r: u16)
    ensures
        r == pair_value(high, low),
{
    let r = ((high as u16) << 8) | (low as u16);
    assert((((high as u16) << 8) | (low as u16)) == (high as int * 256 + low as int) as u16)
        by (bit_vector);
    r
}

/// The high and low bytes of a word, computed with shifts and masks.
pub(crate) fn split(value: u16) -> (r: (u8, u8))
    ensures
        r.0 == high_byte(value),
        r.1 == low_byte(value),
{
    assert(((value >> 8) as u8) == (value / 256) as u8) by (bit_vector);
    assert(((value & 0xFF) as u8) == (value % 256) as u8) by (bit_vector);
    ((value >> 8) as u8, (value & 0xFF) as u8)
}

impl Registers {
    pub fn new() -> (r: Self)
        ensures
            r == zeroed_registers(),
    {
        Self {
            w: 0,
            z: 0,
            a: 0,
            f: 0,
            b: 0,
            c: 0,
            d: 0,
            e: 0,
            h: 0,
            l: 0,
            a_alt: 0,
            f_alt: 0,
            b_alt: 0,
            c_alt: 0,
            d_alt: 0,
            e_alt: 0,
            h_alt: 0,
            l_alt: 0,
            pc: 0,
            sp: 0,
            ix: 0,
            iy: 0,
            i: 0,
            r: 0,
            iff1: false,
            iff2: false,
            im: 0,
            halted: false,
        }
    }

    pub fn increment_pc(&mut self)
        ensures
            *final(self) == (Registers { pc: old(self).pc.wrapping_add(1), ..*old(self) }),
    {
        self.pc = self.pc.wrapping_add(1);
    }

    pub fn increment_r(&mut self)
        ensures
            *final(self) == (Registers { r: next_refresh(old(self).r), ..*old(self) }),
    {
        let r = self.r;
        assert((r & 0x80 | (r.wrapping_add(1) & 0x7f)) == ((r / 128) * 128 + (r % 128 + 1)
            % 128) as u8) by (bit_vector);
        self.r = self.r & 0x80 | (self.r.wrapping_add(1) & 0x7f);
    }

    pub fn increment_sp(&mut self)
        ensures
            *final(self) == (Registers { sp: old(self).sp.wrapping_add(1), ..*old(self) }),
    {
        self.sp = self.sp.wrapping_add(1);
    }

    pub fn decrement_sp(&mut self)
        ensures
            *final(self) == (Registers { sp: old(self).sp.wrapping_sub(1), ..*old(self) }),
    {
        self.sp = self.sp.wrapping_sub(1);
    }

    pub fn wz(&self) -> (r: u16)
        ensures
            r == pair_value(self.w, self.z),
    {
        join(self.w, self.z)
    }

    pub fn af(&self) -> (r: u16)
        ensures
            r == pair_value(self.a, self.f),
    {
        join(self.a, self.f)
    }

    pub fn af_alt(&self) -> (r: u16)
        ensures
            r == pair_value(self.a_alt, self.f_alt),
    {
        join(self.a_alt, self.f_alt)
    }

    pub fn bc(&self) -> (r: u16)
        ensures
            r == pair_value(self.b, self.c),
    {
        join(self.b, self.c)
    }

    pub fn bc_alt(&self) -> (r: u16)
        ensures
            r == pair_value(self.b_alt, self.c_alt),
    {
        join(self.b_alt, self.c_alt)
    }

    pub fn de(&self) -> (r: u16)
        ensures
            r == pair_value(self.d, self.e),
    {
        join(self.d, self.e)
    }

    pub fn de_alt(&self) -> (r: u16)
        ensures
            r == pair_value(self.d_alt, self.e_alt),
    {
        join(self.d_alt, self.e_alt)
    }

    pub fn hl(&self) -> (r: u16)
        ensures
            r == pair_value(self.h, self.l),
    {
        join(self.h, self.l)
    }

    pub fn hl_alt(&self) -> (r: u16)
        ensures
            r == pair_value(self.h_alt, self.l_alt),
    {
        join(self.h_alt, self.l_alt)
    }

    pub fn set_wz(&mut self, value: u16)
        ensures
            *final(self) == (Registers {
                w: high_byte(value),
                z: low_byte(value),
                ..*old(self)
            }),
    {
        let (high, low) = split(value);
        self.w = high;
        self.z = low;
    }

    pub fn set_af(&mut self, value: u16)
        ensures
            *final(self) == (Registers {
                a: high_byte(value),
                f: low_byte(value),
                ..*old(self)
            }),
    {
        let (high, low) = split(value);
        self.a = high;
        self.f = low;
    }

    pub fn set_af_alt(&mut self, value: u16)
        ensures
            *final(self) == (Registers {
                a_alt: high_byte(value),
                f_alt: low_byte(value),
                ..*old(self)
            }),
    {
        let (high, low) = split(value);
        self.a_alt = high;
        self.f_alt = low;
    }

    pub fn set_bc(&mut self, value: u16)
        ensures
            *final(self) == (Registers {
                b: high_byte(value),
                c: low_byte(value),
                ..*old(self)
            }),
    {
        let (high, low) = split(value);
        self.b = high;
        self.c = low;
    }

    pub fn set_bc_alt(&mut self, value: u16)
        ensures
            *final(self) == (Registers {
                b_alt: high_byte(value),
                c_alt: low_byte(value),
                ..*old(self)
            }),
    {
        let (high, low) = split(value);
        self.b_alt = high;
        self.c_alt = low;
    }

    pub fn set_de(&mut self, value: u16)
        ensures
            *final(self) == (Registers {
                d: high_byte(value),
                e: low_byte(value),
                ..*old(self)
            }),
    {
        let (high, low) = split(value);
        self.d = high;
        self.e = low;
    }

    pub fn set_de_alt(&mut self, value: u16)
        ensures
            *final(self) == (Registers {
                d_alt: high_byte(value),
                e_alt: low_byte(value),
                ..*old(self)
            }),
    {
        let (high, low) = split(value);
        self.d_alt = high;
        self.e_alt = low;
    }

    pub fn set_hl(&mut self, value: u16)
        ensures
            *final(self) == (Registers {
                h: high_byte(value),
                l: low_byte(value),
                ..*old(self)
            }),
    {
        let (high, low) = split(value);
        self.h = high;
        self.l = low;
    }

    pub fn set_hl_alt(&mut self, value: u16)
        ensures
            *final(self) == (Registers {
                h_alt: high_byte(value),
                l_alt: low_byte(value),
                ..*old(self)
            }),
    {
        let (high, low) = split(value);
        self.h_alt = high;
        self.l_alt = low;
    }
}

impl Default for Registers {
    fn default() -> (r: Self)
        ensures
            r == zeroed_registers(),
    {
        Self::new()
    }
}

/// Splitting a word into its bytes and joining them again gives the word
/// back; joining two bytes and splitting the result gives the bytes back.
/// So writing a register pair and reading it gives what was written, and
/// reading a pair and writing it back changes nothing.
pub proof fn lemma_pair_round_trip(value: u16, high: u8, low: u8)
    ensures
        pair_value(high_byte(value), low_byte(value)) == value,
        high_byte(pair_value(high, low)) == high,
        low_byte(pair_value(high, low)) == low,
{
}

/// The refresh increment keeps bit 7 and counts the low seven bits modulo
/// 128.
pub proof fn lemma_next_refresh(r: u8)
    ensures
        next_refresh(r) / 128 == r / 128,
        next_refresh(r) % 128 == (r % 128 + 1) % 128,
{
}

} // verus!
