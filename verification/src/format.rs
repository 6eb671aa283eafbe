//! The catalogue of paper formats and the two orientations of a sheet.

use vstd::prelude::*;

verus! {

/// A paper format. The metric families carry the index of the sheet within
/// the series (`IsoA(4)` is A4); a larger index is a smaller sheet, and zero
/// and negative indices are sheets like any other.
#[derive(Clone, Copy, Debug, PartialEq, Eq, Structural)]
pub enum Format {
    /// ISO 216, series A.
    IsoA(isize),
    /// ISO 216, series B.
    IsoB(isize),
    /// ISO 216, series C.
    IsoC(isize),
    /// JIS P 0138, series A.
    JisA(isize),
    /// JIS P 0138, series B.
    JisB(isize),
    /// SIS 014711, series A.
    SisA(isize),
    /// SIS 014711, series B.
    SisB(isize),
    /// SIS 014711, series C.
    SisC(isize),
    /// SIS 014711, series D.
    SisD(isize),
    /// SIS 014711, series E.
    SisE(isize),
    /// SIS 014711, series F.
    SisF(isize),
    /// SIS 014711, series G.
    SisG(isize),
    /// SIS 014711, series H.
    SisH(isize),
    /// 8.5 by 14 inches. Prefer a metric format.
    Legal,
    /// 8.5 by 11 inches. Prefer a metric format.
    Letter,
    /// 11 by 17 inches. Prefer a metric format.
    Tabloid,
    /// 8.5 by 11 inches. Prefer a metric format.
    AnsiA,
    /// 11 by 17 inches. Prefer a metric format.
    AnsiB,
    /// 17 by 22 inches. Prefer a metric format.
    AnsiC,
    /// 22 by 34 inches. Prefer a metric format.
    AnsiD,
    /// 34 by 44 inches. Prefer a metric format.
    AnsiE,
}

/// How a sheet is held.
#[derive(Clone, Copy, Debug, PartialEq, Eq, Structural)]
pub enum Orientation {
    /// Upright: the sides as the format defines them.
    Portrait,
    /// On its side: width and height change places.
    Landscape,
}

} // verus!
