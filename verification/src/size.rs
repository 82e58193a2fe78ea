use crate::decimal::{decimal, digit_char, push_decimal};
use vstd::prelude::*;

verus! {

/// The size of a device or partition, counted in blocks of 512 bytes.
#[derive(Clone, Copy, Debug)]
pub struct Size {
    raw_size: u64,
}

/// Units in which a size can be shown.
#[derive(Clone, Copy, Debug, PartialEq, Eq, Structural)]
pub enum Unit {
    Blocks,
    KiloByte,
    MegaByte,
    GigaByte,
    TeraByte,
}

impl Unit {
    /// The abbreviation that is printed behind a value in this unit.
    pub open spec fn spec_short_name(self) -> Seq<char> {
        match self {
            Unit::Blocks => "Blocks"@,
            Unit::KiloByte => "KB"@,
            Unit::MegaByte => "MB"@,
            Unit::GigaByte => "GB"@,
            Unit::TeraByte => "TB"@,
        }
    }

    /// The number of 512-byte blocks that make up one of this unit.
    pub open spec fn spec_conversion_factor(self) -> nat {
        match self {
            Unit::Blocks => 1,
            Unit::KiloByte => 2,
            Unit::MegaByte => 2048,
            Unit::GigaByte => 2097152,
            Unit::TeraByte => 2147483648,
        }
    }

    /// The unit in which a block count reads best: the first of KB, MB, GB
    /// whose successor the count does not reach, else TB.
    pub open spec fn spec_most_suitable(size: nat) -> Unit {
        if size < 2048 {
            Unit::KiloByte
        } else if size < 2097152 {
            Unit::MegaByte
        } else if size < 2147483648 {
            Unit::GigaByte
        } else {
            Unit::TeraByte
        }
    }

    /// The abbreviation of the unit.
    pub fn short_name(&self) -> (name: &'static str)
        ensures
            name@ == self.spec_short_name(),
    {
        match *self {
            Unit::Blocks => "Blocks",
            Unit::KiloByte => "KB",
            Unit::MegaByte => "MB",
            Unit::GigaByte => "GB",
            Unit::TeraByte => "TB",
        }
    }

    /// The number of blocks in one of the unit.
    pub fn conversion_factor(&self) -> (factor: u32)
        ensures
            factor == self.spec_conversion_factor(),
    {
        match *self {
            Unit::Blocks => 1,
            Unit::KiloByte => 2,
            Unit::MegaByte => 2048,
            Unit::GigaByte => 2097152,
            Unit::TeraByte => 2147483648,
        }
    }

    /// The unit in which a block count reads best.
    pub fn most_suitable_unit_for_raw_size(size: u64) -> (unit: Unit)
        ensures
            unit == Unit::spec_most_suitable(size as nat),
    {
        if size < 2048 {
            Unit::KiloByte
        } else if size < 2097152 {
            Unit::MegaByte
        } else if size < 2147483648 {
            Unit::GigaByte
        } else {
            Unit::TeraByte
        }
    }
}

/// A size in a unit, in hundredths of the unit: the quotient of the block
/// count and the unit's factor, times one hundred, rounded to the nearest
/// whole number, a half rounded up.
pub open spec fn hundredths_in_unit(raw: nat, unit: Unit) -> nat {
    (200 * raw + unit.spec_conversion_factor()) / (2 * unit.spec_conversion_factor())
}

/// A number of hundredths written with as few decimals as it takes: none
/// where the value is whole, one where the second would be a zero, else two.
pub open spec fn hundredths_text(h: nat) -> Seq<char> {
    let whole = decimal(h / 100);
    let fraction = h % 100;
    if fraction == 0 {
        whole
    } else if fraction % 10 == 0 {
        whole + seq!['.', digit_char(fraction / 10)]
    } else {
        whole + seq!['.', digit_char(fraction / 10), digit_char(fraction % 10)]
    }
}

/// A block count as a reader wants it: the value in the most suitable unit,
/// a space, the unit's abbreviation.
pub open spec fn human_readable(raw: nat) -> Seq<char> {
    let unit = Unit::spec_most_suitable(raw);
    hundredths_text(hundredths_in_unit(raw, unit)) + seq![' '] + unit.spec_short_name()
}

impl View for Size {
    type V = nat;

    /// The number of blocks.
    closed spec fn view(&self) -> nat {
        self.raw_size as nat
    }
}

impl Size {
    /// A size of `raw_size` blocks.
    pub fn new(raw_size: u64) -> (size: Size)
        ensures
            size@ == raw_size,
    {
        Size { raw_size }
    }

    /// The number of blocks.
    pub fn get_raw_size(&self) -> (raw_size: u64)
        ensures
            raw_size == self@,
    {
        self.raw_size
    }

    /// The size in the given unit, in hundredths of that unit.
    pub fn get_size_in_hundredths(&self, unit: &Unit) -> (h: u128)
        ensures
            h == hundredths_in_unit(self@, *unit),
    {
        let factor: u128 = unit.conversion_factor() as u128;
        let raw: u128 = self.raw_size as u128;
        (200 * raw + factor) / (2 * factor)
    }

    /// The size in the unit in which it reads best, such as `476.44 GB`.
    pub fn as_human_readable_string(&self) -> (text: String)
        ensures
            text@ == human_readable(self@),
    {
        let unit = Unit::most_suitable_unit_for_raw_size(self.raw_size);
        let h: u128 = self.get_size_in_hundredths(&unit);
        let fraction: u8 = (h % 100) as u8;
        let mut text = String::new();
        push_decimal(&mut text, h / 100);
        if fraction != 0 {
            text.push('.');
            text.push((48u8 + fraction / 10) as char);
            if fraction % 10 != 0 {
                text.push((48u8 + fraction % 10) as char);
            }
        }
        text.push(' ');
        text.append(unit.short_name());
        proof {
            let number = hundredths_text(h as nat);
            let whole = decimal((h / 100) as nat);
            if fraction == 0 {
                assert(Seq::<char>::empty() + whole =~= number);
            } else if fraction % 10 == 0 {
                assert((Seq::<char>::empty() + whole).push('.').push(
                    digit_char((fraction / 10) as nat),
                ) =~= number);
            } else {
                assert((Seq::<char>::empty() + whole).push('.').push(
                    digit_char((fraction / 10) as nat),
                ).push(digit_char((fraction % 10) as nat)) =~= number);
            }
            assert(number.push(' ') + unit.spec_short_name() =~= number + seq![' ']
                + unit.spec_short_name());
        }
        text
    }
}

/// A larger block count never reads as a smaller value in the same unit.
pub proof fn lemma_hundredths_monotonic(a: nat, b: nat, unit: Unit)
    requires
        a <= b,
    ensures
        hundredths_in_unit(a, unit) <= hundredths_in_unit(b, unit),
{
    let f = unit.spec_conversion_factor();
    assert(f > 0);
    assert((200 * a + f) / (2 * f) <= (200 * b + f) / (2 * f)) by (nonlinear_arith)
        requires
            a <= b,
            f > 0,
    ;
}

/// A block count that is a whole number of units reads as exactly that
/// number: no rounding takes place.
pub proof fn lemma_hundredths_exact(raw: nat, unit: Unit)
    requires
        raw % unit.spec_conversion_factor() == 0,
    ensures
        hundredths_in_unit(raw, unit) == 100 * (raw / unit.spec_conversion_factor()),
        hundredths_text(hundredths_in_unit(raw, unit)) == decimal(
            raw / unit.spec_conversion_factor(),
        ),
{
    let f = unit.spec_conversion_factor();
    let q = raw / f;
    assert(f > 0);
    assert(raw == q * f) by (nonlinear_arith)
        requires
            raw % f == 0,
            q == raw / f,
            f > 0,
    ;
    assert((200 * (q * f) + f) / (2 * f) == 100 * q) by (nonlinear_arith)
        requires
            f > 0,
            q >= 0,
    ;
}

} // verus!
