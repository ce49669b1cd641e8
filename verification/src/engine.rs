//! The quote engine: a currency and a material catalog.
use vstd::prelude::*;
use vstd::utf8::{decode_utf8, valid_utf8};

use crate::error::EngineError;
use crate::float_text::opt_float_text;
use crate::gcode::{
    gcode_filament, gcode_times_fit, law_gcode_quantities_are_float_text, parse_gcode_metadata,
};
use crate::material::{
    f32_bits_positive, is_default_catalog, lists_catalog, MaterialCatalog, MaterialProfile,
};
use crate::model::{
    empty_geometry, metadata_numbers_valid, FilamentView, MetadataView, ModelKind, ModelMetadata,
};
use crate::pricing::{
    discount_steps, priced_quantity, review_required, spec_discount_steps,
    AUTO_QUOTE_MAX_QTY, DEFAULT_INFILL_PERCENT,
};
use crate::quote::{
    input_numbers_valid, BaseFee, BaseFeeView, BreakdownView, CostPerKg, CostPerKgView, QuoteBreakdown, QuoteInput,
    QuoteOutput,
};

verus! {

/// Prices print jobs in one currency from a catalog of materials.
pub struct PriceEngine {
    currency: String,
    materials: MaterialCatalog,
}

pub struct EngineView {
    pub currency: Seq<char>,
    pub materials: Map<Seq<char>, MaterialProfile>,
}

impl View for PriceEngine {
    type V = EngineView;

    closed spec fn view(&self) -> EngineView {
        EngineView { currency: self.currency@, materials: self.materials@ }
    }
}

pub open spec fn default_currency() -> Seq<char> {
    seq!['P', 'L', 'N']
}

/// The metadata of a quote: what the model says, with the material's name,
/// the requested (or default) infill and the requested supports filled in
/// where the model says nothing.
pub open spec fn quoted_metadata(
    meta: MetadataView,
    material: MaterialProfile,
    input: QuoteInput,
) -> MetadataView {
    MetadataView {
        filament: FilamentView {
            filament_type: match meta.filament.filament_type {
                Some(t) => Some(t),
                None => Some(material.display_name@),
            },
            infill_percent: match meta.filament.infill_percent {
                Some(p) => Some(p),
                None => match input.infill_percent {
                    Some(p) => Some(p),
                    None => Some(DEFAULT_INFILL_PERCENT),
                },
            },
            supports_enabled: match meta.filament.supports_enabled {
                Some(s) => Some(s),
                None => Some(input.supports),
            },
            ..meta.filament
        },
        ..meta
    }
}

/// The price breakdown of a quote for `grams` of `material`.
pub open spec fn quoted_breakdown(
    currency: Seq<char>,
    material: MaterialProfile,
    input: QuoteInput,
    grams: Seq<char>,
    is_estimate: bool,
) -> BreakdownView {
    BreakdownView {
        currency,
        filament_used_g: grams,
        cost_per_kg: match input.cost_per_kg_override {
            Some(t) => CostPerKgView::Override(t@),
            None => CostPerKgView::Material(material.cost_per_kg_bits),
        },
        base_fee: match input.base_fee_override {
            Some(t) => BaseFeeView::Override(t@),
            None => if f32_bits_positive(material.base_fee_bits) {
                BaseFeeView::Material(material.base_fee_bits)
            } else {
                BaseFeeView::Standard
            },
        },
        margin_multiplier_bits: material.margin_multiplier_bits,
        quantity: priced_quantity(input.quantity),
        turnaround: input.turnaround,
        discount_steps: spec_discount_steps(priced_quantity(input.quantity)) as u32,
        review_required: priced_quantity(input.quantity) > AUTO_QUOTE_MAX_QTY,
        is_estimate,
    }
}

/// The outcome of quoting `meta` with `input` on an engine in state `e`:
/// unknown materials and models without a filament mass are refused,
/// everything else is priced.
pub open spec fn quote_outcome(
    e: EngineView,
    meta: MetadataView,
    input: QuoteInput,
    is_estimate: bool,
    r: Result<QuoteOutput, EngineError>,
) -> bool {
    if !e.materials.contains_key(input.material_id@) {
        r matches Err(EngineError::InvalidInput(m)) && m@ == "unknown material: "@
            + input.material_id@
    } else if meta.filament.filament_used_g is None {
        r matches Err(EngineError::InvalidInput(m)) && m@ == "filament mass missing in metadata"@
    } else {
        let material = e.materials[input.material_id@];
        &&& r is Ok
        &&& r->Ok_0@.material == material
        &&& r->Ok_0@.metadata == quoted_metadata(meta, material, input)
        &&& r->Ok_0@.breakdown == quoted_breakdown(
            e.currency,
            material,
            input,
            meta.filament.filament_used_g->Some_0,
            is_estimate,
        )
    }
}

/// The metadata that a G-code text yields.
pub open spec fn gcode_metadata(text: Seq<char>) -> MetadataView {
    MetadataView {
        kind: ModelKind::Gcode,
        geometry: empty_geometry(),
        filament: gcode_filament(text),
    }
}

/// A quote is refused exactly when its material is unknown or the model's
/// filament mass is missing.
pub proof fn law_quote_refusals(
    e: EngineView,
    meta: MetadataView,
    input: QuoteInput,
    is_estimate: bool,
    r: Result<QuoteOutput, EngineError>,
)
    requires
        quote_outcome(e, meta, input, is_estimate, r),
    ensures
        r is Ok <==> e.materials.contains_key(input.material_id@)
            && meta.filament.filament_used_g is Some,
{
}

/// A quote is priced with the material most recently installed under the
/// requested id, in the engine's currency.
pub proof fn law_quote_uses_installed_material(
    e: EngineView,
    profile: MaterialProfile,
    meta: MetadataView,
    input: QuoteInput,
    r: Result<QuoteOutput, EngineError>,
)
    requires
        input.material_id@ == profile.id@,
        meta.filament.filament_used_g is Some,
        quote_outcome(
            EngineView { currency: e.currency, materials: e.materials.insert(profile.id@, profile) },
            meta,
            input,
            false,
            r,
        ),
    ensures
        r is Ok,
        r->Ok_0@.material == profile,
        r->Ok_0@.breakdown.currency == e.currency,
{
}

/// Installing a material makes it the one found under its id and leaves the
/// other ids as they were.
pub proof fn law_install_then_lookup(
    materials: Map<Seq<char>, MaterialProfile>,
    profile: MaterialProfile,
    other: Seq<char>,
)
    ensures
        materials.insert(profile.id@, profile).contains_key(profile.id@),
        materials.insert(profile.id@, profile)[profile.id@] == profile,
        other != profile.id@ ==> materials.insert(profile.id@, profile).contains_key(other)
            == materials.contains_key(other),
        other != profile.id@ && materials.contains_key(other) ==> materials.insert(
            profile.id@,
            profile,
        )[other] == materials[other],
{
}

/// Defaults only fill what the model leaves open: every value the model
/// states is kept, and afterwards material name, infill and supports are
/// all known.
pub proof fn law_defaults_fill_gaps(meta: MetadataView, material: MaterialProfile, input: QuoteInput)
    ensures
        ({
            let q = quoted_metadata(meta, material, input);
            &&& q.kind == meta.kind
            &&& q.geometry == meta.geometry
            &&& q.filament.filament_used_g == meta.filament.filament_used_g
            &&& q.filament.filament_used_mm == meta.filament.filament_used_mm
            &&& q.filament.print_time_seconds == meta.filament.print_time_seconds
            &&& q.filament.print_time_human == meta.filament.print_time_human
            &&& meta.filament.filament_type is Some ==> q.filament.filament_type
                == meta.filament.filament_type
            &&& meta.filament.infill_percent is Some ==> q.filament.infill_percent
                == meta.filament.infill_percent
            &&& meta.filament.supports_enabled is Some ==> q.filament.supports_enabled
                == meta.filament.supports_enabled
            &&& q.filament.filament_type is Some
            &&& q.filament.infill_percent is Some
            &&& q.filament.supports_enabled is Some
        }),
{
}

/// A priced order has at least one piece, keeps the requested count when it
/// asks for at least one, and is flagged for review exactly above the
/// automatic-quote limit.
pub proof fn law_priced_quantity(
    currency: Seq<char>,
    material: MaterialProfile,
    input: QuoteInput,
    grams: Seq<char>,
    is_estimate: bool,
)
    ensures
        ({
            let b = quoted_breakdown(currency, material, input, grams, is_estimate);
            &&& b.quantity >= 1
            &&& input.quantity >= 1 ==> b.quantity == input.quantity
            &&& b.review_required <==> b.quantity > AUTO_QUOTE_MAX_QTY
            &&& b.discount_steps == spec_discount_steps(b.quantity)
        }),
{
    let q = priced_quantity(input.quantity);
    assert(0 <= spec_discount_steps(q) <= u32::MAX) by {
        if q > 40 {
            assert((q - 41) / 10 + 1 <= q);
        }
    }
}

/// Every quantity of a quote made from readable numbers is text that
/// `f64::from_str` accepts: the metadata's, the filament mass and the price
/// overrides.
pub proof fn law_quote_numbers_readable(
    e: EngineView,
    meta: MetadataView,
    input: QuoteInput,
    is_estimate: bool,
    r: Result<QuoteOutput, EngineError>,
)
    requires
        metadata_numbers_valid(meta),
        input_numbers_valid(input),
        quote_outcome(e, meta, input, is_estimate, r),
        r is Ok,
    ensures
        metadata_numbers_valid(r->Ok_0@.metadata),
        opt_float_text(Some(r->Ok_0@.breakdown.filament_used_g)),
        r->Ok_0@.breakdown.cost_per_kg matches CostPerKgView::Override(t) ==> opt_float_text(Some(t)),
        r->Ok_0@.breakdown.base_fee matches BaseFeeView::Override(t) ==> opt_float_text(Some(t)),
{
}

/// The request's own prices come first: a quote made with a base fee
/// override carries that fee, and one made with a price-per-kg override that
/// price, whatever the material's own figures. Without an override the
/// material's price per kg is used, and its base fee when that is positive,
/// else the standard fee.
pub proof fn law_price_sources(
    e: EngineView,
    meta: MetadataView,
    input: QuoteInput,
    is_estimate: bool,
    r: Result<QuoteOutput, EngineError>,
)
    requires
        quote_outcome(e, meta, input, is_estimate, r),
        r is Ok,
    ensures
        input.base_fee_override matches Some(t) ==> r->Ok_0@.breakdown.base_fee
            == BaseFeeView::Override(t@),
        input.cost_per_kg_override matches Some(t) ==> r->Ok_0@.breakdown.cost_per_kg
            == CostPerKgView::Override(t@),
        input.cost_per_kg_override is None ==> r->Ok_0@.breakdown.cost_per_kg
            == CostPerKgView::Material(r->Ok_0@.material.cost_per_kg_bits),
        input.base_fee_override is None && f32_bits_positive(r->Ok_0@.material.base_fee_bits)
            ==> r->Ok_0@.breakdown.base_fee == BaseFeeView::Material(
            r->Ok_0@.material.base_fee_bits,
        ),
        input.base_fee_override is None && !f32_bits_positive(r->Ok_0@.material.base_fee_bits)
            ==> r->Ok_0@.breakdown.base_fee == BaseFeeView::Standard,
{
}

/// A G-code quote is of kind G-code and is never an estimate.
pub proof fn law_gcode_quote_is_exact(
    e: EngineView,
    text: Seq<char>,
    input: QuoteInput,
    r: Result<QuoteOutput, EngineError>,
)
    requires
        quote_outcome(e, gcode_metadata(text), input, false, r),
        r is Ok,
    ensures
        r->Ok_0@.metadata.kind == ModelKind::Gcode,
        !r->Ok_0@.breakdown.is_estimate,
{
}

/// Calls `std::str::from_utf8`: the text of `bytes` exactly when they are
/// well-formed UTF-8.
#[verifier::external_body]
fn utf8_text(bytes: &[u8]) -> (r: Option<&str>)
    ensures
        r is Some <==> valid_utf8(bytes@),
        r matches Some(s) ==> s@ == decode_utf8(bytes@),
{
    std::str::from_utf8(bytes).ok()
}

impl Default for PriceEngine {
    /// The same as `PriceEngine::new`.
    fn default() -> (e: PriceEngine)
        ensures
            e@.currency == default_currency(),
            is_default_catalog(e@.materials),
    {
        PriceEngine::new()
    }
}

impl PriceEngine {
    /// An engine pricing in PLN with the built-in materials.
    pub fn new() -> (e: PriceEngine)
        ensures
            e@.currency == default_currency(),
            is_default_catalog(e@.materials),
    {
        proof {
            reveal_strlit("PLN");
            assert("PLN"@ =~= default_currency());
        }
        PriceEngine { currency: String::from_str("PLN"), materials: MaterialCatalog::with_defaults() }
    }

    /// The same engine pricing in `currency`.
    pub fn with_currency(self, currency: String) -> (e: PriceEngine)
        ensures
            e@.currency == currency@,
            e@.materials == self@.materials,
    {
        PriceEngine { currency, materials: self.materials }
    }

    /// The same engine with `profile` added under its id, replacing the
    /// material that had that id.
    pub fn install_material(self, profile: MaterialProfile) -> (e: PriceEngine)
        ensures
            e@.currency == self@.currency,
            e@.materials == self@.materials.insert(profile.id@, profile),
    {
        let mut materials = self.materials;
        materials.insert(profile);
        PriceEngine { currency: self.currency, materials }
    }

    /// The material with id `material_id`.
    pub fn material(&self, material_id: &str) -> (r: Option<&MaterialProfile>)
        ensures
            match r {
                Some(p) => self@.materials.contains_key(material_id@) && *p
                    == self@.materials[material_id@],
                None => !self@.materials.contains_key(material_id@),
            },
    {
        self.materials.get(material_id)
    }

    /// All materials, each once, in no particular order.
    pub fn materials(&self) -> (ps: &[MaterialProfile])
        ensures
            lists_catalog(ps@, self@.materials),
    {
        self.materials.iter()
    }

    /// Quotes a G-code file given as bytes; they must be UTF-8.
    pub fn quote_from_gcode_bytes(&self, data: &[u8], input: QuoteInput) -> (r: Result<
        QuoteOutput,
        EngineError,
    >)
        requires
            valid_utf8(data@) ==> gcode_times_fit(decode_utf8(data@)),
            input_numbers_valid(input),
        ensures
            !valid_utf8(data@) ==> (r matches Err(EngineError::InvalidInput(m)) && m@
                == "G-code file must be UTF-8"@),
            valid_utf8(data@) ==> quote_outcome(
                self@,
                gcode_metadata(decode_utf8(data@)),
                input,
                false,
                r,
            ),
    {
        match utf8_text(data) {
            Some(text) => self.quote_from_gcode_str(text, input),
            None => Err(EngineError::InvalidInput(String::from_str("G-code file must be UTF-8"))),
        }
    }

    /// Quotes a G-code file from the metadata in its comments.
    pub fn quote_from_gcode_str(&self, gcode: &str, input: QuoteInput) -> (r: Result<
        QuoteOutput,
        EngineError,
    >)
        requires
            gcode_times_fit(gcode@),
            input_numbers_valid(input),
        ensures
            quote_outcome(self@, gcode_metadata(gcode@), input, false, r),
    {
        proof {
            law_gcode_quantities_are_float_text(gcode@);
        }
        let mut metadata = parse_gcode_metadata(gcode);
        metadata.kind = ModelKind::Gcode;
        self.compute_quote(metadata, input, false)
    }

    /// Quotes a model whose metadata is already known (for example from a
    /// slicer).
    pub fn quote_from_metadata(&self, metadata: ModelMetadata, input: QuoteInput) -> (r: Result<
        QuoteOutput,
        EngineError,
    >)
        requires
            metadata_numbers_valid(metadata@),
            input_numbers_valid(input),
        ensures
            quote_outcome(self@, metadata@, input, false, r),
    {
        self.compute_quote(metadata, input, false)
    }

    fn compute_quote(&self, metadata: ModelMetadata, input: QuoteInput, is_estimate: bool) -> (r:
        Result<QuoteOutput, EngineError>)
        requires
            metadata_numbers_valid(metadata@),
            input_numbers_valid(input),
        ensures
            quote_outcome(self@, metadata@, input, is_estimate, r),
    {
        let ghost meta0 = metadata@;
        let material = match self.material(input.material_id.as_str()) {
            Some(m) => m,
            None => {
                let mut message = String::from_str("unknown material: ");
                message.append(input.material_id.as_str());
                return Err(EngineError::InvalidInput(message));
            },
        };
        let mut metadata = metadata;
        if metadata.filament.filament_type.is_none() {
            metadata.filament.filament_type = Some(material.display_name.clone());
        }
        if metadata.filament.infill_percent.is_none() {
            metadata.filament.infill_percent = match input.infill_percent {
                Some(p) => Some(p),
                None => Some(DEFAULT_INFILL_PERCENT),
            };
        }
        if metadata.filament.supports_enabled.is_none() {
            metadata.filament.supports_enabled = Some(input.supports);
        }
        let grams = match &metadata.filament.filament_used_g {
            Some(g) => g.clone(),
            None => {
                return Err(
                    EngineError::InvalidInput(
                        String::from_str("filament mass missing in metadata"),
                    ),
                );
            },
        };
        let cost_per_kg = match &input.cost_per_kg_override {
            Some(t) => CostPerKg::Override(t.clone()),
            None => CostPerKg::Material(material.cost_per_kg_bits),
        };
        let base_fee = match &input.base_fee_override {
            Some(t) => BaseFee::Override(t.clone()),
            None => if 0 < material.base_fee_bits && material.base_fee_bits <= 0x7f80_0000 {
                BaseFee::Material(material.base_fee_bits)
            } else {
                BaseFee::Standard
            },
        };
        let quantity = if input.quantity < 1 {
            1
        } else {
            input.quantity
        };
        let breakdown = QuoteBreakdown {
            currency: self.currency.clone(),
            filament_used_g: grams,
            cost_per_kg,
            base_fee,
            margin_multiplier_bits: material.margin_multiplier_bits,
            quantity,
            turnaround: input.turnaround,
            discount_steps: discount_steps(quantity),
            review_required: review_required(quantity),
            is_estimate,
        };
        let out = QuoteOutput { metadata, material: material.clone(), breakdown };
        proof {
            assert(out@.metadata =~= quoted_metadata(meta0, self@.materials[input.material_id@], input));
        }
        Ok(out)
    }
}

} // verus!
