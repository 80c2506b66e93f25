//! Pins and the small closed enums that map one-to-one onto hardware bits.

use vstd::prelude::*;

verus! {

/// One of the two eight-pin banks of the expander.  Each bank has its own
/// parallel set of byte-wide hardware registers.
#[derive(Clone, Copy, Debug, PartialEq, Eq, Structural, Hash)]
pub enum Bank {
    A,
    B,
}

/// Direction of a pin.  In a direction register a bit of 1 means the pin is
/// an input, 0 means an output.
#[derive(Clone, Copy, Debug, PartialEq, Eq, Structural)]
pub enum Mode {
    Input,
    Output,
}

impl Mode {
    /// The hardware bit this mode is written as: input is 1, output is 0.
    pub open spec fn spec_as_bool(self) -> bool {
        self == Mode::Input
    }

    #[verifier::when_used_as_spec(spec_as_bool)]
    pub fn as_bool(self) -> (b: bool)
        ensures
            b == self.spec_as_bool(),
    {
        matches!(self, Mode::Input)
    }

    pub fn from_bool(b: bool) -> (m: Mode)
        ensures
            m.spec_as_bool() == b,
    {
        if b {
            Mode::Input
        } else {
            Mode::Output
        }
    }
}

/// Electrical level of a pin.
#[derive(Clone, Copy, Debug, PartialEq, Eq, Structural)]
pub enum State {
    High,
    Low,
}

impl State {
    /// The hardware bit this level is written as: high is 1, low is 0.
    pub open spec fn spec_as_bool(self) -> bool {
        self == State::High
    }

    #[verifier::when_used_as_spec(spec_as_bool)]
    pub fn as_bool(self) -> (b: bool)
        ensures
            b == self.spec_as_bool(),
    {
        matches!(self, State::High)
    }

    pub fn from_bool(b: bool) -> (s: State)
        ensures
            s.spec_as_bool() == b,
    {
        if b {
            State::High
        } else {
            State::Low
        }
    }
}

/// Whether an interrupt feature is switched on.
#[derive(Clone, Copy, Debug, PartialEq, Eq, Structural)]
pub enum Feature {
    On,
    Off,
}

impl Feature {
    /// The hardware bit this setting is written as: on is 1, off is 0.
    pub open spec fn spec_as_bool(self) -> bool {
        self == Feature::On
    }

    #[verifier::when_used_as_spec(spec_as_bool)]
    pub fn as_bool(self) -> (b: bool)
        ensures
            b == self.spec_as_bool(),
    {
        matches!(self, Feature::On)
    }

    pub fn from_bool(b: bool) -> (f: Feature)
        ensures
            f.spec_as_bool() == b,
    {
        if b {
            Feature::On
        } else {
            Feature::Off
        }
    }
}

/// Resting polarity of the interrupt output pin.
#[derive(Clone, Copy, Debug, PartialEq, Eq, Structural)]
pub enum INTPOL {
    /// The pin rests high and goes low on an interrupt.
    ActiveHigh,
    /// The pin rests low and goes high on an interrupt.
    ActiveLow,
}

impl INTPOL {
    /// The hardware bit this polarity is written as: active-high is 1.
    pub open spec fn spec_as_bool(self) -> bool {
        self == INTPOL::ActiveHigh
    }

    #[verifier::when_used_as_spec(spec_as_bool)]
    pub fn as_bool(self) -> (b: bool)
        ensures
            b == self.spec_as_bool(),
    {
        matches!(self, INTPOL::ActiveHigh)
    }

    pub fn from_bool(b: bool) -> (p: INTPOL)
        ensures
            p.spec_as_bool() == b,
    {
        if b {
            INTPOL::ActiveHigh
        } else {
            INTPOL::ActiveLow
        }
    }
}

/// What an interrupt-on-change pin is compared against.
#[derive(Clone, Copy, Debug, PartialEq, Eq, Structural)]
pub enum Compare {
    Default,
    Previous,
}

impl Compare {
    /// The hardware bit this setting is written as: compare-to-default is 1.
    pub open spec fn spec_as_bool(self) -> bool {
        self == Compare::Default
    }

    #[verifier::when_used_as_spec(spec_as_bool)]
    pub fn as_bool(self) -> (b: bool)
        ensures
            b == self.spec_as_bool(),
    {
        matches!(self, Compare::Default)
    }

    pub fn from_bool(b: bool) -> (c: Compare)
        ensures
            c.spec_as_bool() == b,
    {
        if b {
            Compare::Default
        } else {
            Compare::Previous
        }
    }
}

/// One of the sixteen logical pins, carrying its pre-computed address: the
/// bank it lives in, its bit index inside that bank's byte-wide registers,
/// and how far its bank's byte is shifted inside a combined sixteen-bit
/// word.
#[derive(Clone, Copy, Debug, PartialEq, Eq, Structural, Hash)]
pub struct Pin {
    /// Bit index inside the bank's byte, 0 to 7.
    pub pin: u8,
    /// The caller-facing logical index, 0 to 15.
    pub orig: u8,
    /// 0 for bank A, 8 for bank B: where the bank's byte sits in a
    /// sixteen-bit word combining both banks.
    pub shift: u8,
    /// The bank the pin belongs to.
    pub bank: Bank,
}

impl Pin {
    /// A pin is well formed when its fields are the ones `Pin::new` derives
    /// from the logical index: bank A for indices below 8, bank B above,
    /// with the in-bank bit and the shift to match.
    pub open spec fn wf(self) -> bool {
        &&& self.orig < 16
        &&& self.bank == (if self.orig < 8 {
            Bank::A
        } else {
            Bank::B
        })
        &&& self.pin == (if self.orig < 8 {
            self.orig
        } else {
            (self.orig - 8) as u8
        })
        &&& self.shift == (if self.orig < 8 {
            0u8
        } else {
            8u8
        })
    }

    /// Make the pin with the given logical index.  Indices 0 to 7 fall in
    /// bank A, 8 to 15 in bank B; anything from 16 up yields nothing.
    pub fn new(pin: u8) -> (r: Option<Pin>)
        ensures
            r is Some <==> pin < 16,
            r matches Some(p) ==> {
                &&& p.wf()
                &&& p.orig == pin
                &&& (p.bank is A <==> pin < 8)
                &&& p.pin == pin % 8
                &&& p.shift == (if pin < 8 {
                    0u8
                } else {
                    8u8
                })
            },
    {
        if pin >= 16 {
            None
        } else {
            if pin < 8 {
                Some(Pin { pin, orig: pin, shift: 0, bank: Bank::A })
            } else {
                Some(Pin { pin: pin - 8, orig: pin, shift: 8, bank: Bank::B })
            }
        }
    }

    /// The mode the cached direction word records for this pin: a set bit
    /// means input, a clear bit means output.
    pub open spec fn spec_mode(self, direction: u16) -> Mode {
        if direction & (1u16 << self.orig) != 0 {
            Mode::Input
        } else {
            Mode::Output
        }
    }

    pub fn mode(&self, direction: u16) -> (m: Mode)
        requires
            self.wf(),
        ensures
            m == self.spec_mode(direction),
    {
        Mode::from_bool(direction & (1u16 << self.orig) != 0)
    }

    /// Replace this pin's bank's byte inside a combined sixteen-bit word,
    /// leaving the other bank's byte untouched.  Bank A is the low byte,
    /// bank B the high byte.
    pub open spec fn spec_apply_u16(self, bitmap: u16, value: u8) -> u16 {
        if self.shift != 8 {
            (bitmap & 0xFF00) | (value as u16)
        } else {
            (bitmap & 0x00FF) | ((value as u16) << 8u16)
        }
    }

    pub fn apply_u16(&self, bitmap: u16, value: u8) -> (r: u16)
        ensures
            r == self.spec_apply_u16(bitmap, value),
    {
        if self.shift != 8 {
            (bitmap & 0xFF00) | (value as u16)
        } else {
            (bitmap & 0x00FF) | ((value as u16) << 8u16)
        }
    }
}

/// A pin's identity is its bank and its bit inside that bank: two well
/// formed pins that agree on both are the same pin, so equality by fields
/// reduces to bank-and-bit identity.
pub proof fn lemma_bank_bit_identity(p: Pin, q: Pin)
    requires
        p.wf(),
        q.wf(),
        p.bank == q.bank,
        p.pin == q.pin,
    ensures
        p == q,
{
}

/// Merging a byte into one half of a word stores the byte there exactly and
/// leaves the other half as it was.
pub proof fn lemma_apply_u16_round_trip(p: Pin, w: u16, b: u8)
    requires
        p.wf(),
    ensures
        p.shift == 0 ==> p.spec_apply_u16(w, b) & 0x00FF == b as u16,
        p.shift == 0 ==> p.spec_apply_u16(w, b) & 0xFF00 == w & 0xFF00,
        p.shift == 8 ==> p.spec_apply_u16(w, b) >> 8u16 == b as u16,
        p.shift == 8 ==> p.spec_apply_u16(w, b) & 0x00FF == w & 0x00FF,
{
    assert(((w & 0xFF00) | (b as u16)) & 0x00FF == b as u16) by (bit_vector);
    assert(((w & 0xFF00) | (b as u16)) & 0xFF00 == w & 0xFF00) by (bit_vector);
    assert(((w & 0x00FF) | ((b as u16) << 8u16)) >> 8u16 == b as u16) by (bit_vector);
    assert(((w & 0x00FF) | ((b as u16) << 8u16)) & 0x00FF == w & 0x00FF) by (bit_vector);
}

} // verus!
