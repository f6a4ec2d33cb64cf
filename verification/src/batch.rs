//! Batch aggregation over production items.
//!
//! A production item describes one panel to produce; its numeric fields
//! are optional and non-negative when present (a length in hundredths of a
//! centimeter, an amount in cents). The batch processor folds the input
//! once: an item with both dimensions contributes its area, every item
//! contributes its value plus its additional value (each 0 when absent),
//! and the items themselves pass through unchanged.

use vstd::prelude::*;
use std::collections::HashMap;

verus! {

/// A fastener (grommet) configuration: a count, a unit price in cents, and
/// a spacing in hundredths of a centimeter.
#[derive(Debug, Clone, Copy, PartialEq, Eq, Structural)]
pub struct IlhosConfig {
    /// How many fasteners to place.
    pub quantidade: u32,
    /// The price of one fastener, in cents.
    pub valor_unitario: i64,
    /// The spacing between fasteners, in hundredths of a centimeter.
    pub distancia: i64,
}

/// One item of a production batch. The numeric fields are non-negative
/// when present: lengths in hundredths of a centimeter, amounts in cents.
#[derive(Debug, Clone)]
pub struct ProductionItem {
    /// An identifier, when the item already has one.
    pub id: Option<String>,
    /// The production type.
    pub tipo_producao: String,
    /// A free-text description.
    pub descricao: String,
    /// Width in hundredths of a centimeter, when known.
    pub width: Option<i64>,
    /// Height in hundredths of a centimeter, when known.
    pub height: Option<i64>,
    /// The item's value in cents, when known.
    pub valor: Option<i64>,
    /// Additional value in cents, when known.
    pub valor_adicionais: Option<i64>,
    /// The salesperson, when known.
    pub vendedor: Option<String>,
    /// The designer, when known.
    pub designer: Option<String>,
    /// The fabric, when known.
    pub tecido: Option<String>,
    /// The material, when known.
    pub material: Option<String>,
    /// Selected finishing options, when any.
    pub acabamentos: Option<HashMap<String, bool>>,
    /// The fastener configuration, when any.
    pub ilhos_config: Option<IlhosConfig>,
}

/// The aggregate of a batch: total area in ten-thousandths of a square
/// centimeter, total value in cents, the item count, and the items passed
/// through unchanged. The elapsed-time field is telemetry: the pure fold
/// leaves it at zero, and a caller that measures may fill it.
#[derive(Debug, Clone)]
pub struct BatchCalculationResult {
    /// The sum of the areas of the items with both dimensions present, in
    /// ten-thousandths of a square centimeter.
    pub total_area: i64,
    /// The sum of the items' values and additional values, in cents.
    pub total_value: i64,
    /// How many items the input held.
    pub item_count: usize,
    /// The input items, unchanged and in order.
    pub items: Vec<ProductionItem>,
    /// Elapsed-time telemetry; the fold itself leaves it at zero.
    pub calculation_time_ms: u64,
}

/// The area an item contributes: the product of its dimensions when both
/// are present, 0 otherwise.
pub open spec fn spec_item_area(item: ProductionItem) -> int {
    match (item.width, item.height) {
        (Some(w), Some(h)) => w * h,
        _ => 0,
    }
}

/// The value an item contributes: its value plus its additional value,
/// each 0 when absent.
pub open spec fn spec_item_value(item: ProductionItem) -> int {
    (match item.valor {
        Some(v) => v as int,
        None => 0,
    }) + (match item.valor_adicionais {
        Some(v) => v as int,
        None => 0,
    })
}

/// The item's optional numeric fields are non-negative when present.
pub open spec fn item_wf(item: ProductionItem) -> bool {
    &&& (item.width matches Some(w) ==> w >= 0)
    &&& (item.height matches Some(h) ==> h >= 0)
    &&& (item.valor matches Some(v) ==> v >= 0)
    &&& (item.valor_adicionais matches Some(v) ==> v >= 0)
}

/// Every item of the batch is well formed.
pub open spec fn batch_wf(items: Seq<ProductionItem>) -> bool {
    forall|i: int| 0 <= i < items.len() ==> item_wf(#[trigger] items[i])
}

/// The total area of a batch, in ten-thousandths of a square centimeter.
pub open spec fn spec_total_area(items: Seq<ProductionItem>) -> int
    decreases items.len(),
{
    if items.len() == 0 {
        0
    } else {
        spec_total_area(items.drop_last()) + spec_item_area(items.last())
    }
}

/// The total value of a batch, in cents.
pub open spec fn spec_total_value(items: Seq<ProductionItem>) -> int
    decreases items.len(),
{
    if items.len() == 0 {
        0
    } else {
        spec_total_value(items.drop_last()) + spec_item_value(items.last())
    }
}

/// A well-formed item contributes a non-negative area and value.
proof fn lemma_item_contributions_nonneg(item: ProductionItem)
    requires
        item_wf(item),
    ensures
        spec_item_area(item) >= 0,
        spec_item_value(item) >= 0,
{
    match (item.width, item.height) {
        (Some(w), Some(h)) => {
            assert(w * h >= 0) by (nonlinear_arith)
                requires
                    w >= 0,
                    h >= 0,
            ;
        },
        _ => {},
    }
}

/// The totals of a well-formed batch are non-negative.
pub proof fn lemma_totals_nonneg(items: Seq<ProductionItem>)
    requires
        batch_wf(items),
    ensures
        spec_total_area(items) >= 0,
        spec_total_value(items) >= 0,
    decreases items.len(),
{
    if items.len() > 0 {
        assert(batch_wf(items.drop_last()));
        lemma_totals_nonneg(items.drop_last());
        lemma_item_contributions_nonneg(items.last());
    }
}

/// The totals of a prefix of a well-formed batch are at most the totals of
/// the whole batch.
pub proof fn lemma_totals_take_le(items: Seq<ProductionItem>, i: int)
    requires
        batch_wf(items),
        0 <= i <= items.len(),
    ensures
        spec_total_area(items.take(i)) <= spec_total_area(items),
        spec_total_value(items.take(i)) <= spec_total_value(items),
    decreases items.len(),
{
    if i == items.len() {
        assert(items.take(i) =~= items);
    } else {
        assert(batch_wf(items.drop_last()));
        assert(items.take(i) =~= items.drop_last().take(i));
        lemma_totals_take_le(items.drop_last(), i);
        lemma_item_contributions_nonneg(items.last());
    }
}

/// Folds a batch once: sums the areas of the items with both dimensions,
/// sums value plus additional value over all items, and passes the items
/// through unchanged. The item count is the input length, not a filtered
/// count.
pub fn process_production_batch(items: Vec<ProductionItem>) -> (r: BatchCalculationResult)
    requires
        batch_wf(items@),
        spec_total_area(items@) <= i64::MAX,
        spec_total_value(items@) <= i64::MAX,
    ensures
        r.total_area == spec_total_area(items@),
        r.total_value == spec_total_value(items@),
        r.item_count == items@.len(),
        r.items@ == items@,
        r.calculation_time_ms == 0,
{
    let mut total_area: i64 = 0;
    let mut total_value: i64 = 0;
    let mut i: usize = 0;
    while i < items.len()
        invariant
            i <= items.len(),
            batch_wf(items@),
            spec_total_area(items@) <= i64::MAX,
            spec_total_value(items@) <= i64::MAX,
            total_area == spec_total_area(items@.take(i as int)),
            total_value == spec_total_value(items@.take(i as int)),
        decreases items.len() - i,
    {
        proof {
            assert(items@.take(i + 1).drop_last() =~= items@.take(i as int));
            assert(items@.take(i + 1).last() == items@[i as int]);
            assert(item_wf(items@[i as int]));
            lemma_item_contributions_nonneg(items@[i as int]);
            assert(batch_wf(items@.take(i + 1)));
            lemma_totals_nonneg(items@.take(i as int));
            lemma_totals_take_le(items@, i + 1);
        }
        let item = &items[i];
        if item.width.is_some() && item.height.is_some() {
            let w = *item.width.as_ref().unwrap();
            let h = *item.height.as_ref().unwrap();
            let a = w * h;
            total_area = total_area + a;
        }
        let v = match &item.valor {
            Some(v) => *v,
            None => 0,
        };
        let va = match &item.valor_adicionais {
            Some(v) => *v,
            None => 0,
        };
        total_value = total_value + v + va;
        i = i + 1;
    }
    proof {
        assert(items@.take(items@.len() as int) =~= items@);
    }
    let item_count = items.len();
    BatchCalculationResult { total_area, total_value, item_count, items, calculation_time_ms: 0 }
}

} // verus!
