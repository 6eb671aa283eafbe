//! The sides of each format.
//!
//! A metric sheet of index `n` has the height `a · m · r^n` and the width
//! `a · m · r^(n + 1)`, where the aspect constant `a` and the scale `m` belong
//! to the family and `r = 1/√2` is the reduction from one sheet to the next.
//! An inch format has its two sides from a table, at 25.4 mm to the inch.

use vstd::prelude::*;
use crate::exact::power;
use crate::format::{Format, Orientation};
use crate::length::{Length, Radical};

verus! {

/// The root by which a side is divided from one sheet of a series to the
/// next: the square root of two.
pub open spec fn reduction() -> Radical {
    Radical::root_of(2, 2)
}

/// The reduction names the positive number whose square is two.
pub proof fn lemma_reduction_is_root_of_two(r: real)
    ensures
        reduction().denotes(r) <==> r > (0 as real) && r * r == 2 as real,
{
    reveal_with_fuel(power, 3);
}

/// Width and height of the metric sheet of index `n` in a family with the
/// aspect constant `aspect` and the scale `scale`.
pub open spec fn metric_sides(n: isize, aspect: Radical, scale: Radical) -> (Length, Length) {
    (
        Length::Metric { aspect, scale, reduction: reduction(), steps: (n + 1) as i128 },
        Length::Metric { aspect, scale, reduction: reduction(), steps: n as i128 },
    )
}

/// The length of `halves` half inches: an inch is 25.4 mm, so half an inch is
/// 127 tenths of a millimetre.
pub open spec fn inch_length(halves: u32) -> Length {
    Length::Decimal { tenths: (halves * 127) as u64 }
}

/// The two components of a pair, in the other order.
pub open spec fn swapped(size: (Length, Length)) -> (Length, Length) {
    (size.1, size.0)
}

impl Format {
    /// The index of a metric sheet within its series; `None` for an inch
    /// format.
    pub open spec fn index(self) -> Option<isize> {
        match self {
            Format::IsoA(n)
            | Format::IsoB(n)
            | Format::IsoC(n)
            | Format::JisA(n)
            | Format::JisB(n)
            | Format::SisA(n)
            | Format::SisB(n)
            | Format::SisC(n)
            | Format::SisD(n)
            | Format::SisE(n)
            | Format::SisF(n)
            | Format::SisG(n)
            | Format::SisH(n) => Some(n),
            _ => None,
        }
    }

    /// The aspect constant of a metric family.
    pub open spec fn aspect(self) -> Option<Radical> {
        match self {
            Format::IsoA(_) | Format::JisA(_) | Format::JisB(_) => Some(Radical::root_of(2, 4)),
            Format::IsoB(_) => Some(Radical::root_of(2, 2)),
            Format::IsoC(_) => Some(Radical::root_of(8, 8)),
            Format::SisA(_) => Some(Radical::root_of(2, 16).raised(4)),
            Format::SisE(_) => Some(Radical::root_of(2, 16).raised(5)),
            Format::SisC(_) => Some(Radical::root_of(2, 16).raised(6)),
            Format::SisG(_) => Some(Radical::root_of(2, 16).raised(7)),
            Format::SisB(_) => Some(Radical::root_of(2, 16).raised(8)),
            Format::SisF(_) => Some(Radical::root_of(2, 16).raised(9)),
            Format::SisD(_) => Some(Radical::root_of(2, 16).raised(10)),
            Format::SisH(_) => Some(Radical::root_of(2, 16).raised(11)),
            _ => None,
        }
    }

    /// The scale of a metric family, in millimetres: 1000, which the JIS
    /// series write as the square root of an area.
    pub open spec fn scale(self) -> Option<Radical> {
        match self {
            Format::JisA(_) => Some(Radical::root_of(1_000_000, 2)),
            Format::JisB(_) => Some(Radical::root_of(1_500_000, 2)),
            _ => if self.index().is_some() {
                Some(Radical::root_of(1000, 1))
            } else {
                None
            },
        }
    }

    /// Width and height of an inch format, in half inches.
    pub open spec fn half_inches(self) -> Option<(u32, u32)> {
        match self {
            Format::Legal => Some((17, 28)),
            Format::Letter | Format::AnsiA => Some((17, 22)),
            Format::Tabloid | Format::AnsiB => Some((22, 34)),
            Format::AnsiC => Some((34, 44)),
            Format::AnsiD => Some((44, 68)),
            Format::AnsiE => Some((68, 88)),
            _ => None,
        }
    }

    /// Width and height of the upright sheet.
    pub open spec fn portrait(self) -> (Length, Length) {
        match self.index() {
            Some(n) => metric_sides(n, self.aspect().unwrap(), self.scale().unwrap()),
            None => (
                inch_length(self.half_inches().unwrap().0),
                inch_length(self.half_inches().unwrap().1),
            ),
        }
    }

    /// Width and height of the sheet on its side.
    pub open spec fn landscape(self) -> (Length, Length) {
        swapped(self.portrait())
    }

    /// Width and height of the sheet as it is held.
    pub open spec fn oriented(self, orientation: Orientation) -> (Length, Length) {
        match orientation {
            Orientation::Portrait => self.portrait(),
            Orientation::Landscape => self.landscape(),
        }
    }

    /// Width and height of the sheet, held as `orientation` says. The result
    /// is a function of the two arguments and of nothing else.
    pub fn size(&self, orientation: Orientation) -> (size: (Length, Length))
        ensures
            size == self.oriented(orientation),
            size.0.wf(),
            size.1.wf(),
    {
        match orientation {
            Orientation::Portrait => self.portrait_size(),
            Orientation::Landscape => self.landscape_size(),
        }
    }

    /// Width and height of the upright sheet.
    pub fn portrait_size(&self) -> (size: (Length, Length))
        ensures
            size == self.portrait(),
            size.0.wf(),
            size.1.wf(),
    {
        match self {
            Format::IsoA(n) => metric_size(*n, Radical::root(2, 4), Radical::whole(1000)),
            Format::IsoB(n) => metric_size(*n, Radical::root(2, 2), Radical::whole(1000)),
            Format::IsoC(n) => metric_size(*n, Radical::root(8, 8), Radical::whole(1000)),
            Format::JisA(n) => metric_size(*n, Radical::root(2, 4), Radical::root(1000 * 1000, 2)),
            Format::JisB(n) => metric_size(*n, Radical::root(2, 4), Radical::root(1000 * 1500, 2)),
            Format::SisA(n) => metric_size(*n, Radical::root(2, 16).pow(4), Radical::whole(1000)),
            Format::SisE(n) => metric_size(*n, Radical::root(2, 16).pow(5), Radical::whole(1000)),
            Format::SisC(n) => metric_size(*n, Radical::root(2, 16).pow(6), Radical::whole(1000)),
            Format::SisG(n) => metric_size(*n, Radical::root(2, 16).pow(7), Radical::whole(1000)),
            Format::SisB(n) => metric_size(*n, Radical::root(2, 16).pow(8), Radical::whole(1000)),
            Format::SisF(n) => metric_size(*n, Radical::root(2, 16).pow(9), Radical::whole(1000)),
            Format::SisD(n) => metric_size(*n, Radical::root(2, 16).pow(10), Radical::whole(1000)),
            Format::SisH(n) => metric_size(*n, Radical::root(2, 16).pow(11), Radical::whole(1000)),
            Format::Legal => (inch_to_mm(17), inch_to_mm(28)),
            Format::Letter => (inch_to_mm(17), inch_to_mm(22)),
            Format::Tabloid => (inch_to_mm(22), inch_to_mm(34)),
            Format::AnsiA => (inch_to_mm(17), inch_to_mm(22)),
            Format::AnsiB => (inch_to_mm(22), inch_to_mm(34)),
            Format::AnsiC => (inch_to_mm(34), inch_to_mm(44)),
            Format::AnsiD => (inch_to_mm(44), inch_to_mm(68)),
            Format::AnsiE => (inch_to_mm(68), inch_to_mm(88)),
        }
    }

    /// Width and height of the sheet on its side: those of the upright
    /// sheet, in the other order.
    pub fn landscape_size(&self) -> (size: (Length, Length))
        ensures
            size == self.landscape(),
            size == swapped(self.portrait()),
            size.0.wf(),
            size.1.wf(),
    {
        let (width, height) = self.portrait_size();
        (height, width)
    }
}

/// Width and height of the metric sheet of index `n`: the height takes `n`
/// steps of the reduction, the width one more.
pub fn metric_size(n: isize, aspect: Radical, scale: Radical) -> (size: (Length, Length))
    ensures
        size == metric_sides(n, aspect, scale),
        size.0.wf() <==> aspect.wf() && scale.wf(),
        size.1.wf() <==> aspect.wf() && scale.wf(),
{
    let reduction = Radical::root(2, 2);
    let steps: i128 = n as i128;
    (
        Length::Metric { aspect, scale, reduction, steps: steps + 1 },
        Length::Metric { aspect, scale, reduction, steps },
    )
}

/// The length of `halves` half inches.
pub fn inch_to_mm(halves: u32) -> (length: Length)
    ensures
        length == inch_length(halves),
        length == (Length::Decimal { tenths: (halves * 127) as u64 }),
        length.wf(),
{
    let halves: u64 = halves as u64;
    Length::Decimal { tenths: halves * 127 }
}

} // verus!
