//! What holds of every format.

use vstd::prelude::*;
use crate::exact::{power, power_int};
use crate::format::{Format, Orientation};
use crate::length::{lemma_one_step_more_divides, Length, Radical};
use crate::sizing::{inch_length, lemma_reduction_is_root_of_two, reduction, swapped};

verus! {

impl Format {
    /// The sheet of index `n` in the series of `self`; an inch format has no
    /// series and stays as it is.
    pub open spec fn with_index(self, n: isize) -> Format {
        match self {
            Format::IsoA(_) => Format::IsoA(n),
            Format::IsoB(_) => Format::IsoB(n),
            Format::IsoC(_) => Format::IsoC(n),
            Format::JisA(_) => Format::JisA(n),
            Format::JisB(_) => Format::JisB(n),
            Format::SisA(_) => Format::SisA(n),
            Format::SisB(_) => Format::SisB(n),
            Format::SisC(_) => Format::SisC(n),
            Format::SisD(_) => Format::SisD(n),
            Format::SisE(_) => Format::SisE(n),
            Format::SisF(_) => Format::SisF(n),
            Format::SisG(_) => Format::SisG(n),
            Format::SisH(_) => Format::SisH(n),
            _ => self,
        }
    }
}

/// The sheet on its side has the sides of the upright sheet with width and
/// height in each other's place, the same two values and none computed anew;
/// put on its side twice, the sheet is upright again.
pub proof fn lemma_landscape_swaps_portrait(f: Format)
    ensures
        f.landscape() == (f.portrait().1, f.portrait().0),
        f.oriented(Orientation::Landscape) == swapped(f.oriented(Orientation::Portrait)),
        swapped(f.landscape()) == f.portrait(),
{
}

/// Every root in a side that a format has names a positive real.
pub proof fn lemma_sides_are_well_formed(f: Format, orientation: Orientation)
    ensures
        f.oriented(orientation).0.wf(),
        f.oriented(orientation).1.wf(),
{
}

/// In every metric sheet the height is the width times the square root of
/// two, whatever the family and the index.
pub proof fn lemma_sides_are_in_the_ratio_of_root_two(
    f: Format,
    root_of_two: real,
    width: real,
    height: real,
)
    requires
        f.index().is_some(),
        reduction().denotes(root_of_two),
        f.portrait().0.measures(width),
        f.portrait().1.measures(height),
    ensures
        height == width * root_of_two,
{
    lemma_one_step_more_divides(f.portrait().1, f.portrait().0, root_of_two, height, width);
}

/// The width of a metric sheet is the height of the next sheet of its
/// series.
pub proof fn lemma_width_is_next_height(f: Format, n: isize)
    requires
        f.index() == Some(n),
        n < isize::MAX,
    ensures
        f.with_index((n + 1) as isize).portrait().1 == f.portrait().0,
{
}

/// From one sheet of a metric series to the next, the width and the height
/// are each multiplied by the reciprocal of the square root of two.
pub proof fn lemma_next_sheet_reduces_both_sides(
    f: Format,
    n: isize,
    root_of_two: real,
    width: real,
    height: real,
    next_width: real,
    next_height: real,
)
    requires
        f.index() == Some(n),
        n < isize::MAX,
        reduction().denotes(root_of_two),
        f.portrait().0.measures(width),
        f.portrait().1.measures(height),
        f.with_index((n + 1) as isize).portrait().0.measures(next_width),
        f.with_index((n + 1) as isize).portrait().1.measures(next_height),
    ensures
        next_width == width * ((1 as real) / root_of_two),
        next_height == height * ((1 as real) / root_of_two),
{
    let next = f.with_index((n + 1) as isize);
    lemma_one_step_more_divides(f.portrait().0, next.portrait().0, root_of_two, width, next_width);
    lemma_one_step_more_divides(
        f.portrait().1,
        next.portrait().1,
        root_of_two,
        height,
        next_height,
    );
}

/// From one sheet of a metric series to the next the area halves; the ISO A
/// series is one of them.
pub proof fn lemma_next_sheet_halves_area(
    f: Format,
    n: isize,
    width: real,
    height: real,
    next_width: real,
    next_height: real,
)
    requires
        f.index() == Some(n),
        n < isize::MAX,
        f.portrait().0.measures(width),
        f.portrait().1.measures(height),
        f.with_index((n + 1) as isize).portrait().0.measures(next_width),
        f.with_index((n + 1) as isize).portrait().1.measures(next_height),
    ensures
        width * height == (2 as real) * (next_width * next_height),
{
    let next = f.with_index((n + 1) as isize);
    let (a, m, r) = choose|a: real, m: real, r: real|
        #[trigger] Length::factors(f.aspect().unwrap(), f.scale().unwrap(), reduction(), a, m, r)
            && height == a * m * power_int(r, -(n as i128));
    lemma_reduction_is_root_of_two(r);
    lemma_one_step_more_divides(f.portrait().0, next.portrait().0, r, width, next_width);
    lemma_one_step_more_divides(f.portrait().1, next.portrait().1, r, height, next_height);
    assert(width * height == (2 as real) * (next_width * next_height)) by (nonlinear_arith)
        requires
            next_width * r == width,
            next_height * r == height,
            r * r == 2 as real,
    ;
}

/// An inch is 25.4 mm: a length of `halves` half inches is `x` millimetres
/// where twenty times `x` is 254 times `halves`, and only there.
pub proof fn lemma_inch_is_25_4_mm(halves: u32, x: real)
    ensures
        inch_length(halves).measures(x) <==> x * (20 as real) == (halves * 254) as real,
{
    let tenths = (halves * 127) as u64;
    assert(tenths as real == (halves * 127) as real);
    assert((2 as real) * ((halves * 127) as real) == (halves * 254) as real) by {
        assert(2 * (halves * 127) == halves * 254);
    }
}

/// The numbers that the three roots of an ISO A side name: the fourth root
/// of two, a thousand and the square root of two.
proof fn lemma_iso_a_factors(a: real, m: real, r: real)
    requires
        Length::factors(Radical::root_of(2, 4), Radical::root_of(1000, 1), reduction(), a, m, r),
    ensures
        (a * a) * (a * a) == 2 as real,
        m == 1000 as real,
        r * r == 2 as real,
        a > (0 as real),
        r > (0 as real),
{
    reveal_with_fuel(power, 5);
    lemma_reduction_is_root_of_two(r);
    assert(power(2 as real, 1) == 2 as real);
    assert(power(1000 as real, 1) == 1000 as real);
    assert(a * (a * (a * a)) == 2 as real);
    assert((a * a) * (a * a) == a * (a * (a * a))) by (nonlinear_arith);
}

/// The width of an ISO A sheet from its height: where the square of the
/// square of the height is `h4`, that of the width is a quarter of it.
proof fn lemma_iso_a_width(n: isize, r: real, width: real, height: real, h4: real)
    requires
        Format::IsoA(n).portrait().0.measures(width),
        Format::IsoA(n).portrait().1.measures(height),
        reduction().denotes(r),
        height > (0 as real),
        (height * height) * (height * height) == h4,
    ensures
        width > (0 as real),
        (4 as real) * ((width * width) * (width * width)) == h4,
{
    lemma_reduction_is_root_of_two(r);
    lemma_one_step_more_divides(
        Format::IsoA(n).portrait().1,
        Format::IsoA(n).portrait().0,
        r,
        height,
        width,
    );
    let w2 = width * width;
    let h2 = height * height;
    assert(w2 * (2 as real) == h2) by (nonlinear_arith)
        requires
            width * r == height,
            r * r == 2 as real,
            w2 == width * width,
            h2 == height * height,
    ;
    assert((4 as real) * (w2 * w2) == h2 * h2) by (nonlinear_arith)
        requires
            w2 * (2 as real) == h2,
    ;
    assert(width > (0 as real)) by (nonlinear_arith)
        requires
            width * r == height,
            r > (0 as real),
            height > (0 as real),
    ;
}

/// The height of the ISO A sheet of index 4, A4, lies between 297 and
/// 297.4 mm, and its width between 210 and 210.3 mm.
pub proof fn lemma_a4_is_210_by_297(width: real, height: real)
    requires
        Format::IsoA(4).portrait().0.measures(width),
        Format::IsoA(4).portrait().1.measures(height),
    ensures
        (210 as real) < width,
        width * (10 as real) < (2103 as real),
        (297 as real) < height,
        height * (10 as real) < (2974 as real),
{
    let (a, m, r) = choose|a: real, m: real, r: real|
        #[trigger] Length::factors(
            Radical::root_of(2, 4),
            Radical::root_of(1000, 1),
            reduction(),
            a,
            m,
            r,
        ) && height == a * m * power_int(r, -4);
    lemma_iso_a_factors(a, m, r);
    assert(power_int(r, -4) == (1 as real) / (4 as real)) by {
        reveal_with_fuel(power, 5);
        assert(r * (r * (r * (r * (1 as real)))) == (4 as real)) by (nonlinear_arith)
            requires
                r * r == 2 as real,
        ;
    }
    assert(height * (4 as real) == a * (1000 as real)) by (nonlinear_arith)
        requires
            height == a * (1000 as real) * ((1 as real) / (4 as real)),
    ;
    let h2 = height * height;
    let a2 = a * a;
    assert(h2 == (62500 as real) * a2) by (nonlinear_arith)
        requires
            height * (4 as real) == a * (1000 as real),
            h2 == height * height,
            a2 == a * a,
    ;
    assert(h2 * h2 == (7812500000 as real)) by (nonlinear_arith)
        requires
            h2 == (62500 as real) * a2,
            a2 * a2 == 2 as real,
    ;
    assert((297 as real) < height && height * (10 as real) < (2974 as real)) by (nonlinear_arith)
        requires
            height > (0 as real),
            h2 == height * height,
            h2 * h2 == (7812500000 as real),
    ;
    lemma_iso_a_width(4, r, width, height, 7812500000 as real);
    let w2 = width * width;
    assert((210 as real) < width && width * (10 as real) < (2103 as real)) by (nonlinear_arith)
        requires
            width > (0 as real),
            w2 == width * width,
            (4 as real) * (w2 * w2) == (7812500000 as real),
    ;
}

/// The height of the ISO A sheet of index 0, A0, lies between 1189 and
/// 1189.3 mm, and its width between 840.8 and 841 mm.
pub proof fn lemma_a0_is_841_by_1189(width: real, height: real)
    requires
        Format::IsoA(0).portrait().0.measures(width),
        Format::IsoA(0).portrait().1.measures(height),
    ensures
        (8408 as real) < width * (10 as real),
        width < (841 as real),
        (1189 as real) < height,
        height * (10 as real) < (11893 as real),
{
    let (a, m, r) = choose|a: real, m: real, r: real|
        #[trigger] Length::factors(
            Radical::root_of(2, 4),
            Radical::root_of(1000, 1),
            reduction(),
            a,
            m,
            r,
        ) && height == a * m * power_int(r, 0);
    lemma_iso_a_factors(a, m, r);
    assert(power_int(r, 0) == (1 as real));
    assert(height == a * (1000 as real)) by (nonlinear_arith)
        requires
            height == a * (1000 as real) * (1 as real),
    ;
    let h2 = height * height;
    let a2 = a * a;
    assert(h2 == (1000000 as real) * a2) by (nonlinear_arith)
        requires
            height == a * (1000 as real),
            h2 == height * height,
            a2 == a * a,
    ;
    assert(h2 * h2 == (2000000000000 as real)) by (nonlinear_arith)
        requires
            h2 == (1000000 as real) * a2,
            a2 * a2 == 2 as real,
    ;
    assert((1189 as real) < height && height * (10 as real) < (11893 as real)) by (nonlinear_arith)
        requires
            height > (0 as real),
            h2 == height * height,
            h2 * h2 == (2000000000000 as real),
    ;
    lemma_iso_a_width(0, r, width, height, 2000000000000 as real);
    let w2 = width * width;
    assert((8408 as real) < width * (10 as real) && width < (841 as real)) by (nonlinear_arith)
        requires
            width > (0 as real),
            w2 == width * width,
            (4 as real) * (w2 * w2) == (2000000000000 as real),
    ;
}

/// ANSI B and Tabloid are one sheet, however it is held.
pub proof fn lemma_ansi_b_is_tabloid(orientation: Orientation)
    ensures
        Format::AnsiB.oriented(orientation) == Format::Tabloid.oriented(orientation),
{
}

/// The size is a function of format and orientation: what two calls of
/// `size` with the same arguments give is the same pair.
pub proof fn lemma_size_is_a_function(
    f: Format,
    orientation: Orientation,
    first: (Length, Length),
    second: (Length, Length),
)
    requires
        first == f.oriented(orientation),
        second == f.oriented(orientation),
    ensures
        first == second,
{
}

} // verus!
