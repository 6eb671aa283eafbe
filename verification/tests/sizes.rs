use paper_size::sizing::{inch_to_mm, metric_size};
use paper_size::{Format, Length, Orientation, Radical};

fn radical(base: u32, degree: u32, power: u32) -> Radical {
    Radical { base, degree, power }
}

fn metric(aspect: Radical, scale: Radical, steps: i128) -> Length {
    Length::Metric { aspect, scale, reduction: radical(2, 2, 1), steps }
}

fn value(r: Radical) -> f64 {
    (r.base as f64).powf(1.0 / r.degree as f64).powf(r.power as f64)
}

fn millimetres(length: Length) -> f64 {
    match length {
        Length::Metric { aspect, scale, reduction, steps } => {
            value(aspect) * value(scale) * (1.0 / value(reduction)).powf(steps as f64)
        }
        Length::Decimal { tenths } => tenths as f64 / 10.0,
    }
}

fn close(a: f64, b: f64) -> bool {
    (a - b).abs() <= 1e-9 * b.abs()
}

#[test]
fn a4_is_210_by_297() {
    let (width, height) = Format::IsoA(4).portrait_size();
    assert_eq!(width, metric(radical(2, 4, 1), radical(1000, 1, 1), 5));
    assert_eq!(height, metric(radical(2, 4, 1), radical(1000, 1, 1), 4));
    assert!(close(millimetres(width), 210.22410381342857));
    assert!(close(millimetres(height), 297.30177875068017));
    assert!(210.0 < millimetres(width) && millimetres(width) < 210.3);
    assert!(297.0 < millimetres(height) && millimetres(height) < 297.4);
}

#[test]
fn a0_is_841_by_1189() {
    let (width, height) = Format::IsoA(0).portrait_size();
    assert_eq!(width, metric(radical(2, 4, 1), radical(1000, 1, 1), 1));
    assert_eq!(height, metric(radical(2, 4, 1), radical(1000, 1, 1), 0));
    assert!(close(millimetres(width), 840.8964152537145));
    assert!(close(millimetres(height), 1189.2071150027211));
    assert!(840.8 < millimetres(width) && millimetres(width) < 841.0);
    assert!(1189.0 < millimetres(height) && millimetres(height) < 1189.3);
}

#[test]
fn letter_is_exact() {
    let (width, height) = Format::Letter.portrait_size();
    assert_eq!(width, Length::Decimal { tenths: 2159 });
    assert_eq!(height, Length::Decimal { tenths: 2794 });
    assert_eq!(millimetres(width), 215.9);
    assert_eq!(millimetres(height), 279.4);
}

#[test]
fn ansi_b_equals_tabloid() {
    assert_eq!(Format::AnsiB.portrait_size(), Format::Tabloid.portrait_size());
    assert_eq!(Format::AnsiB.landscape_size(), Format::Tabloid.landscape_size());
    for orientation in [Orientation::Portrait, Orientation::Landscape] {
        assert_eq!(Format::AnsiB.size(orientation), Format::Tabloid.size(orientation));
    }
    assert_eq!(
        Format::AnsiB.portrait_size(),
        (Length::Decimal { tenths: 2794 }, Length::Decimal { tenths: 4318 })
    );
}

#[test]
fn inch_formats_follow_the_table() {
    let table = [
        (Format::Legal, 2159, 3556),
        (Format::Letter, 2159, 2794),
        (Format::Tabloid, 2794, 4318),
        (Format::AnsiA, 2159, 2794),
        (Format::AnsiB, 2794, 4318),
        (Format::AnsiC, 4318, 5588),
        (Format::AnsiD, 5588, 8636),
        (Format::AnsiE, 8636, 11176),
    ];
    for (format, width, height) in table {
        assert_eq!(
            format.portrait_size(),
            (Length::Decimal { tenths: width }, Length::Decimal { tenths: height })
        );
    }
    assert_eq!(millimetres(Format::Legal.portrait_size().1), 355.6);
    assert_eq!(millimetres(Format::AnsiE.portrait_size().1), 1117.6);
}

#[test]
fn metric_families_follow_the_table() {
    let thousand = radical(1000, 1, 1);
    let table = [
        (Format::IsoA(3), radical(2, 4, 1), thousand),
        (Format::IsoB(3), radical(2, 2, 1), thousand),
        (Format::IsoC(3), radical(8, 8, 1), thousand),
        (Format::JisA(3), radical(2, 4, 1), radical(1_000_000, 2, 1)),
        (Format::JisB(3), radical(2, 4, 1), radical(1_500_000, 2, 1)),
        (Format::SisA(3), radical(2, 16, 4), thousand),
        (Format::SisE(3), radical(2, 16, 5), thousand),
        (Format::SisC(3), radical(2, 16, 6), thousand),
        (Format::SisG(3), radical(2, 16, 7), thousand),
        (Format::SisB(3), radical(2, 16, 8), thousand),
        (Format::SisF(3), radical(2, 16, 9), thousand),
        (Format::SisD(3), radical(2, 16, 10), thousand),
        (Format::SisH(3), radical(2, 16, 11), thousand),
    ];
    for (format, aspect, scale) in table {
        assert_eq!(
            format.portrait_size(),
            (metric(aspect, scale, 4), metric(aspect, scale, 3))
        );
    }
}

#[test]
fn metric_sizes_in_millimetres() {
    let cases = [
        (Format::IsoB(0), 1000.0, 1414.213562373095),
        (Format::IsoC(4), 229.2510108011677, 324.2098886627523),
        (Format::JisA(4), 210.22410381342857, 297.30177875068017),
        (Format::JisB(5), 182.05941439024616, 257.4708929883896),
        (Format::SisD(4), 272.6269331663141, 385.5527063519848),
        (Format::IsoA(-1), 1189.2071150027211, 1681.7928305074292),
    ];
    for (format, width, height) in cases {
        let size = format.portrait_size();
        assert!(close(millimetres(size.0), width));
        assert!(close(millimetres(size.1), height));
    }
}

#[test]
fn zero_and_negative_indices_are_sheets() {
    let aspect = radical(2, 2, 1);
    let scale = radical(1000, 1, 1);
    assert_eq!(
        Format::IsoB(0).portrait_size(),
        (metric(aspect, scale, 1), metric(aspect, scale, 0))
    );
    assert_eq!(
        Format::IsoB(-1).portrait_size(),
        (metric(aspect, scale, 0), metric(aspect, scale, -1))
    );
    assert_eq!(
        Format::IsoB(-7).portrait_size(),
        (metric(aspect, scale, -6), metric(aspect, scale, -7))
    );
}

#[test]
fn extreme_indices_are_accepted() {
    let aspect = radical(2, 4, 1);
    let scale = radical(1000, 1, 1);
    let top = isize::MAX as i128;
    let bottom = isize::MIN as i128;
    assert_eq!(
        Format::IsoA(isize::MAX).portrait_size(),
        (metric(aspect, scale, top + 1), metric(aspect, scale, top))
    );
    assert_eq!(
        Format::IsoA(isize::MIN).portrait_size(),
        (metric(aspect, scale, bottom + 1), metric(aspect, scale, bottom))
    );
    assert_eq!(millimetres(Format::IsoA(isize::MAX).portrait_size().1), 0.0);
    assert_eq!(millimetres(Format::IsoA(isize::MIN).portrait_size().1), f64::INFINITY);
}

#[test]
fn metric_size_takes_one_step_more_for_the_width() {
    let aspect = radical(2, 16, 7);
    let scale = radical(1_500_000, 2, 1);
    assert_eq!(
        metric_size(9, aspect, scale),
        (metric(aspect, scale, 10), metric(aspect, scale, 9))
    );
}

#[test]
fn half_an_inch_is_127_tenths() {
    assert_eq!(inch_to_mm(0), Length::Decimal { tenths: 0 });
    assert_eq!(inch_to_mm(1), Length::Decimal { tenths: 127 });
    assert_eq!(inch_to_mm(2), Length::Decimal { tenths: 254 });
    assert_eq!(inch_to_mm(17), Length::Decimal { tenths: 2159 });
    assert_eq!(inch_to_mm(u32::MAX), Length::Decimal { tenths: 4_294_967_295 * 127 });
}

#[test]
fn roots_and_powers() {
    assert_eq!(Radical::root(2, 16), radical(2, 16, 1));
    assert_eq!(Radical::root(2, 16).pow(11), radical(2, 16, 11));
    assert_eq!(Radical::root(2, 16).pow(3).pow(5), radical(2, 16, 15));
    assert_eq!(Radical::root(8, 8).pow(0), radical(8, 8, 0));
    assert_eq!(Radical::whole(1000), radical(1000, 1, 1));
    assert!(close(value(Radical::root(2, 16).pow(8)), 2.0_f64.sqrt()));
    assert_eq!(value(Radical::whole(1000)), 1000.0);
}
