//! What a quote is asked for and what it answers.
use vstd::prelude::*;

use crate::float_text::{opt_float_text, opt_is_float_text};
use crate::material::MaterialProfile;
use crate::text::opt_view;
use crate::model::{MetadataView, ModelMetadata};

verus! {

/// How fast the order is wanted.
#[derive(Debug, Clone, Copy, PartialEq, Eq, Structural)]
pub enum Turnaround {
    Standard,
    Express,
}

impl Default for Turnaround {
    /// Standard turnaround.
    fn default() -> (t: Turnaround)
        ensures
            t == Turnaround::Standard,
    {
        Turnaround::Standard
    }
}

/// A request for a quote. The optional price overrides are decimal text
/// accepted by `f64::from_str`.
#[derive(Debug)]
pub struct QuoteInput {
    pub material_id: String,
    pub infill_percent: Option<u8>,
    pub supports: bool,
    pub cost_per_kg_override: Option<String>,
    pub base_fee_override: Option<String>,
    pub quantity: u32,
    pub turnaround: Turnaround,
}

/// The price overrides of `q` are absent or text that `f64::from_str`
/// accepts.
pub open spec fn input_numbers_valid(q: QuoteInput) -> bool {
    &&& opt_float_text(opt_view(q.cost_per_kg_override))
    &&& opt_float_text(opt_view(q.base_fee_override))
}

impl QuoteInput {
    /// Whether the price overrides are text that `f64::from_str` accepts, as
    /// quoting requires.
    pub fn numbers_valid(&self) -> (r: bool)
        ensures
            r == input_numbers_valid(*self),
    {
        opt_is_float_text(&self.cost_per_kg_override) && opt_is_float_text(&self.base_fee_override)
    }

    /// One piece of `material_id` at standard turnaround, with supports, and
    /// no infill or price given.
    pub fn material(material_id: String) -> (q: QuoteInput)
        ensures
            q.material_id == material_id,
            q.infill_percent is None,
            q.supports,
            q.cost_per_kg_override is None,
            q.base_fee_override is None,
            q.quantity == 1,
            q.turnaround == Turnaround::Standard,
    {
        QuoteInput {
            material_id,
            infill_percent: None,
            supports: true,
            cost_per_kg_override: None,
            base_fee_override: None,
            quantity: 1,
            turnaround: Turnaround::default(),
        }
    }
}

/// Where the price per kilogram of a quote comes from.
#[derive(Debug)]
pub enum CostPerKg {
    /// The request's override, decimal text.
    Override(String),
    /// The material's price, binary32 encoding.
    Material(u32),
}

pub enum CostPerKgView {
    Override(Seq<char>),
    Material(u32),
}

impl View for CostPerKg {
    type V = CostPerKgView;

    open spec fn view(&self) -> CostPerKgView {
        match self {
            CostPerKg::Override(t) => CostPerKgView::Override(t@),
            CostPerKg::Material(b) => CostPerKgView::Material(*b),
        }
    }
}

/// Where the base fee of a quote comes from.
#[derive(Debug)]
pub enum BaseFee {
    /// The request's override, decimal text.
    Override(String),
    /// The material's own fee, binary32 encoding (always positive).
    Material(u32),
    /// The standard fee of 50.0.
    Standard,
}

pub enum BaseFeeView {
    Override(Seq<char>),
    Material(u32),
    Standard,
}

impl View for BaseFee {
    type V = BaseFeeView;

    open spec fn view(&self) -> BaseFeeView {
        match self {
            BaseFee::Override(t) => BaseFeeView::Override(t@),
            BaseFee::Material(b) => BaseFeeView::Material(*b),
            BaseFee::Standard => BaseFeeView::Standard,
        }
    }
}

/// Everything a quote's price is computed from. The amounts are combined
/// in binary64 floating point as
///
/// ```text
/// material_cost_total = grams / 1000 × cost_per_kg × quantity
/// discount_amount     = min(material_cost_total × rate, material_cost_total)
///                       where rate = min(discount_steps × 0.05, 0.35)
/// subtotal            = (base_fee + material_cost_total − discount_amount)
///                       × (1.35 if express, else 1.0)
/// total               = subtotal × margin_multiplier
/// unit_total          = total / quantity
/// ```
#[derive(Debug)]
pub struct QuoteBreakdown {
    pub currency: String,
    /// Filament mass in grams, as text accepted by `f64::from_str`.
    pub filament_used_g: String,
    pub cost_per_kg: CostPerKg,
    pub base_fee: BaseFee,
    /// The material's margin, binary32 encoding.
    pub margin_multiplier_bits: u32,
    /// Pieces priced (at least one).
    pub quantity: u32,
    pub turnaround: Turnaround,
    pub discount_steps: u32,
    pub review_required: bool,
    pub is_estimate: bool,
}

pub struct BreakdownView {
    pub currency: Seq<char>,
    pub filament_used_g: Seq<char>,
    pub cost_per_kg: CostPerKgView,
    pub base_fee: BaseFeeView,
    pub margin_multiplier_bits: u32,
    pub quantity: u32,
    pub turnaround: Turnaround,
    pub discount_steps: u32,
    pub review_required: bool,
    pub is_estimate: bool,
}

impl View for QuoteBreakdown {
    type V = BreakdownView;

    open spec fn view(&self) -> BreakdownView {
        BreakdownView {
            currency: self.currency@,
            filament_used_g: self.filament_used_g@,
            cost_per_kg: self.cost_per_kg@,
            base_fee: self.base_fee@,
            margin_multiplier_bits: self.margin_multiplier_bits,
            quantity: self.quantity,
            turnaround: self.turnaround,
            discount_steps: self.discount_steps,
            review_required: self.review_required,
            is_estimate: self.is_estimate,
        }
    }
}

/// A quote: the model's metadata (with defaults filled in), the material
/// and the price breakdown.
#[derive(Debug)]
pub struct QuoteOutput {
    pub metadata: ModelMetadata,
    pub material: MaterialProfile,
    pub breakdown: QuoteBreakdown,
}

pub struct QuoteView {
    pub metadata: MetadataView,
    pub material: MaterialProfile,
    pub breakdown: BreakdownView,
}

impl View for QuoteOutput {
    type V = QuoteView;

    open spec fn view(&self) -> QuoteView {
        QuoteView {
            metadata: self.metadata@,
            material: self.material,
            breakdown: self.breakdown@,
        }
    }
}

} // verus!
