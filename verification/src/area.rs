//! Area computation over fixed-point dimensions.
//!
//! A length is a count of hundredths of a centimeter, so the product of two
//! lengths is a count of ten-thousandths of a square centimeter. The `area`
//! field carries that exact product; only the display string rounds it to
//! the nearest hundredth.

use vstd::prelude::*;
use crate::formatting::{spec_format_decimal, format_brazilian_decimal};

verus! {

/// A panel's dimensions, each a count of hundredths of a centimeter.
#[derive(Debug, Clone, Copy, PartialEq, Eq, Structural)]
pub struct Dimension {
    /// Width in hundredths of a centimeter.
    pub width: i64,
    /// Height in hundredths of a centimeter.
    pub height: i64,
}

/// The outcome of an area computation: the exact product of the two
/// lengths in ten-thousandths of a square centimeter, its display string
/// rounded to hundredths, and the inputs for traceability.
#[derive(Debug, Clone)]
pub struct AreaResult {
    /// The exact area in ten-thousandths of a square centimeter.
    pub area: i64,
    /// The area rounded to hundredths, in the Brazilian decimal format.
    pub formatted_area: String,
    /// The width the area was computed from.
    pub width: i64,
    /// The height the area was computed from.
    pub height: i64,
}

/// A count of ten-thousandths rounded to the nearest hundredth, halves
/// away from zero.
pub open spec fn spec_round_to_hundredths(t: int) -> int {
    if t < 0 {
        -((-t + 50) / 100)
    } else {
        (t + 50) / 100
    }
}

/// The product of the two lengths fits an `i64` with room for the rounding
/// offset.
pub open spec fn area_in_range(width: i64, height: i64) -> bool {
    -(i64::MAX - 50) <= width * height <= i64::MAX - 50
}

/// `r` is the area result for the given dimensions: the exact product, the
/// inputs unchanged, and the rounded rendering.
pub open spec fn area_result_matches(r: AreaResult, width: i64, height: i64) -> bool {
    &&& r.area == width * height
    &&& r.width == width
    &&& r.height == height
    &&& r.formatted_area@ == spec_format_decimal(spec_round_to_hundredths(width * height))
}

/// Multiplies the two lengths; the numeric area is the exact product and
/// only the display string is rounded, to the nearest hundredth.
pub fn calculate_area(width: i64, height: i64) -> (r: AreaResult)
    requires
        area_in_range(width, height),
    ensures
        area_result_matches(r, width, height),
        r.area == width * height,
{
    let area: i64 = width * height;
    let rounded: i64 = if area >= 0 {
        (area + 50) / 100
    } else {
        -((-area + 50) / 100)
    };
    let formatted = format_brazilian_decimal(rounded);
    AreaResult { area, formatted_area: formatted, width, height }
}

/// Computes the area of each dimension pair, preserving input order.
pub fn calculate_batch_areas(items: &Vec<Dimension>) -> (rs: Vec<AreaResult>)
    requires
        forall|i: int|
            0 <= i < items.len() ==> area_in_range(
                (#[trigger] items@[i]).width,
                items@[i].height,
            ),
    ensures
        rs.len() == items.len(),
        forall|i: int|
            0 <= i < items.len() ==> area_result_matches(
                #[trigger] rs@[i],
                items@[i].width,
                items@[i].height,
            ),
{
    let mut rs: Vec<AreaResult> = Vec::new();
    let mut i: usize = 0;
    while i < items.len()
        invariant
            i <= items.len(),
            rs.len() == i,
            forall|j: int|
                0 <= j < items.len() ==> area_in_range(
                    (#[trigger] items@[j]).width,
                    items@[j].height,
                ),
            forall|j: int|
                0 <= j < i ==> area_result_matches(
                    #[trigger] rs@[j],
                    items@[j].width,
                    items@[j].height,
                ),
        decreases items.len() - i,
    {
        let d = &items[i];
        let r = calculate_area(d.width, d.height);
        rs.push(r);
        i = i + 1;
    }
    rs
}

} // verus!
