//! Pricing rules that do not involve floating point.
//!
//! The money arithmetic itself (material cost, discount amount, express
//! surcharge, margin) is done in binary floating point by the caller from a
//! `QuoteBreakdown`; this module fixes the integer rules it depends on.
use vstd::prelude::*;

verus! {

/// Infill assumed when neither the model nor the request gives one.
pub const DEFAULT_INFILL_PERCENT: u8 = 25;

/// Orders of more pieces than this are priced but flagged for review.
pub const AUTO_QUOTE_MAX_QTY: u32 = 30;

/// Orders of up to this many pieces get no quantity discount.
pub const DISCOUNT_THRESHOLD: u32 = 40;

/// Each further started group of this many pieces adds one discount step.
pub const DISCOUNT_STEP: u32 = 10;

/// The number of pieces priced: at least one.
pub open spec fn priced_quantity(quantity: u32) -> u32 {
    if quantity < 1 {
        1
    } else {
        quantity
    }
}

/// Quantity discount steps: none up to the threshold, then one more for each
/// started group of `DISCOUNT_STEP` pieces beyond it. The discount rate is
/// `min(steps × 0.05, 0.35)`.
pub open spec fn spec_discount_steps(quantity: u32) -> int {
    if quantity <= DISCOUNT_THRESHOLD {
        0
    } else {
        (quantity - DISCOUNT_THRESHOLD - 1) / (DISCOUNT_STEP as int) + 1
    }
}

/// The number of discount steps for an order of `quantity` pieces.
pub fn discount_steps(quantity: u32) -> (steps: u32)
    ensures
        steps == spec_discount_steps(quantity),
{
    if quantity <= DISCOUNT_THRESHOLD {
        0
    } else {
        (quantity - DISCOUNT_THRESHOLD - 1) / DISCOUNT_STEP + 1
    }
}

/// Whether an order of `quantity` pieces must be reviewed before it is
/// accepted.
pub fn review_required(quantity: u32) -> (r: bool)
    ensures
        r == (quantity > AUTO_QUOTE_MAX_QTY),
{
    quantity > AUTO_QUOTE_MAX_QTY
}

/// No discount up to the threshold; from the next piece on at least one step.
pub proof fn law_discount_threshold(quantity: u32)
    ensures
        spec_discount_steps(quantity) == 0 <==> quantity <= DISCOUNT_THRESHOLD,
{
}

/// Each started group of `DISCOUNT_STEP` pieces beyond the threshold adds one
/// step: the first group earns one step, and ten more pieces earn one more.
pub proof fn law_discount_per_started_group(quantity: u32)
    ensures
        DISCOUNT_THRESHOLD < quantity <= DISCOUNT_THRESHOLD + DISCOUNT_STEP
            ==> spec_discount_steps(quantity) == 1,
        DISCOUNT_THRESHOLD < quantity && quantity + DISCOUNT_STEP <= u32::MAX
            ==> spec_discount_steps((quantity + DISCOUNT_STEP) as u32) == spec_discount_steps(quantity)
            + 1,
{
}

/// Ordering more pieces never lowers the discount.
pub proof fn law_discount_monotone(a: u32, b: u32)
    requires
        a <= b,
    ensures
        spec_discount_steps(a) <= spec_discount_steps(b),
{
    if a > DISCOUNT_THRESHOLD {
        vstd::arithmetic::div_mod::lemma_div_is_ordered(
            (a - DISCOUNT_THRESHOLD - 1) as int,
            (b - DISCOUNT_THRESHOLD - 1) as int,
            DISCOUNT_STEP as int,
        );
    }
}

} // verus!
