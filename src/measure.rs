//! A single reading: its kind and its value, held as the bit pattern of an
//! IEEE-754 binary32 number.
use crate::decimal::{is_nan, is_zero, one_decimal, one_decimal_text};
use vstd::prelude::*;
use vstd::string::StringExecFns;

verus! {

/// The kinds of reading a sensor reports.
#[derive(Clone, Copy, Debug, PartialEq, Eq, Structural)]
pub enum MeasureKind {
    Temperature,
    Humidity,
    Unknown,
}

/// One reading; the payload is the bit pattern of a binary32 value.
#[derive(Clone, Copy, Debug)]
pub enum Measure {
    Temperature(u32),
    Humidity(u32),
    Unknown(u32),
}

pub open spec fn kind_of(m: Measure) -> MeasureKind {
    match m {
        Measure::Temperature(_) => MeasureKind::Temperature,
        Measure::Humidity(_) => MeasureKind::Humidity,
        Measure::Unknown(_) => MeasureKind::Unknown,
    }
}

pub open spec fn bits_of(m: Measure) -> u32 {
    match m {
        Measure::Temperature(b) => b,
        Measure::Humidity(b) => b,
        Measure::Unknown(b) => b,
    }
}

/// Floating-point equality of two binary32 patterns: never for not-a-number,
/// and the two zeros are equal.
pub open spec fn float_eq(a: u32, b: u32) -> bool {
    !is_nan(a) && !is_nan(b) && (a == b || (is_zero(a) && is_zero(b)))
}

/// Two readings are equal when they have the same kind and equal values.
pub open spec fn measure_eq(a: Measure, b: Measure) -> bool {
    kind_of(a) == kind_of(b) && float_eq(bits_of(a), bits_of(b))
}

/// The key of a kind in the formatted view.
pub open spec fn label_text(k: MeasureKind) -> Seq<char> {
    match k {
        MeasureKind::Temperature => seq!['t', 'e', 'm', 'p', 'e', 'r', 'a', 't', 'u', 'r', 'e'],
        MeasureKind::Humidity => seq!['h', 'u', 'm', 'i', 'd', 'i', 't', 'y'],
        MeasureKind::Unknown => seq!['u', 'n', 'k', 'n', 'o', 'w', 'n'],
    }
}

/// The unit appended to a formatted value of a kind.
pub open spec fn unit_text(k: MeasureKind) -> Seq<char> {
    match k {
        MeasureKind::Humidity => seq![' ', '%'],
        _ => seq![' ', '°', 'C'],
    }
}

/// The display text of a reading: its value with one decimal, then its unit.
pub open spec fn measure_text(m: Measure) -> Seq<char> {
    one_decimal_text(bits_of(m)) + unit_text(kind_of(m))
}

pub fn float_equal(a: u32, b: u32) -> (r: bool)
    ensures
        r == float_eq(a, b),
{
    let a_nan = a / 0x80_0000 % 0x100 == 0xff && a % 0x80_0000 != 0;
    let b_nan = b / 0x80_0000 % 0x100 == 0xff && b % 0x80_0000 != 0;
    let a_zero = a % 0x8000_0000 == 0;
    let b_zero = b % 0x8000_0000 == 0;
    assert(a_zero == is_zero(a)) by (nonlinear_arith)
        requires
            a_zero == (a % 0x8000_0000 == 0),
    ;
    assert(b_zero == is_zero(b)) by (nonlinear_arith)
        requires
            b_zero == (b % 0x8000_0000 == 0),
    ;
    !a_nan && !b_nan && (a == b || (a_zero && b_zero))
}

impl MeasureKind {
    /// The key of this kind in the formatted view.
    pub fn label(&self) -> (r: &'static str)
        ensures
            r@ == label_text(*self),
    {
        proof {
            reveal_strlit("temperature");
            reveal_strlit("humidity");
            reveal_strlit("unknown");
        }
        match self {
            MeasureKind::Temperature => "temperature",
            MeasureKind::Humidity => "humidity",
            MeasureKind::Unknown => "unknown",
        }
    }

    /// The unit appended to a formatted value of this kind.
    pub fn unit(&self) -> (r: &'static str)
        ensures
            r@ == unit_text(*self),
    {
        proof {
            reveal_strlit(" %");
            reveal_strlit(" °C");
        }
        match self {
            MeasureKind::Humidity => " %",
            _ => " °C",
        }
    }
}

impl Measure {
    pub fn kind(&self) -> (r: MeasureKind)
        ensures
            r == kind_of(*self),
    {
        match self {
            Measure::Temperature(_) => MeasureKind::Temperature,
            Measure::Humidity(_) => MeasureKind::Humidity,
            Measure::Unknown(_) => MeasureKind::Unknown,
        }
    }

    /// The bit pattern of the value.
    pub fn bits(&self) -> (r: u32)
        ensures
            r == bits_of(*self),
    {
        match self {
            Measure::Temperature(b) => *b,
            Measure::Humidity(b) => *b,
            Measure::Unknown(b) => *b,
        }
    }

    /// The display text of this reading, e.g. `25.0 °C` or `50.0 %`.
    pub fn formatted(&self) -> (r: String)
        ensures
            r@ == measure_text(*self),
    {
        let mut out = one_decimal(self.bits());
        out.append(self.kind().unit());
        out
    }
}

impl Default for Measure {
    /// A reading of unknown kind with value zero.
    fn default() -> (r: Measure)
        ensures
            r == Measure::Unknown(0),
    {
        Measure::Unknown(0)
    }
}

impl PartialEq for Measure {
    fn eq(&self, other: &Measure) -> (r: bool)
        ensures
            r == measure_eq(*self, *other),
    {
        self.kind() == other.kind() && float_equal(self.bits(), other.bits())
    }
}

impl vstd::std_specs::cmp::PartialEqSpecImpl for Measure {
    open spec fn obeys_eq_spec() -> bool {
        true
    }

    open spec fn eq_spec(&self, other: &Measure) -> bool {
        measure_eq(*self, *other)
    }
}

} // verus!
