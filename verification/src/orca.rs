//! The exchange with the slicing worker: what is asked of it and how its
//! answer becomes model metadata. The HTTP transport is the caller's.
use vstd::prelude::*;

use crate::error::EngineError;
use crate::model::{
    empty_geometry, FilamentStats, FilamentView, GeometryStats, MetadataView, ModelKind,
    ModelMetadata,
};
use crate::text::opt_view;

verus! {

/// Slicing settings sent with a model.
#[derive(Debug)]
pub struct SliceRequest {
    pub infill: Option<u8>,
    pub supports: bool,
    pub profile: Option<String>,
}

/// What the worker measured. Quantities are decimal text accepted by
/// `f64::from_str`.
#[derive(Debug)]
pub struct SliceMetadata {
    pub filament_used_g: Option<String>,
    pub filament_used_mm: Option<String>,
    pub filament_cost: Option<String>,
    pub print_time_seconds: Option<u32>,
    pub print_time_human: Option<String>,
    pub total_layers: Option<u32>,
}

/// The worker's answer.
#[derive(Debug)]
pub struct SliceResponse {
    pub success: bool,
    pub gcode: Option<String>,
    pub metadata: SliceMetadata,
    pub error: Option<String>,
}

/// The worker's slicing endpoint under `base_url`.
pub fn slice_endpoint(base_url: &str) -> (url: String)
    ensures
        url@ == base_url@ + "/api/slice"@,
{
    let mut url = String::from_str(base_url);
    url.append("/api/slice");
    url
}

/// The metadata of a model sliced with `request`, given the worker's
/// measurements.
pub open spec fn sliced_metadata(m: SliceMetadata, request: SliceRequest) -> MetadataView {
    MetadataView {
        kind: ModelKind::Gcode,
        geometry: empty_geometry(),
        filament: FilamentView {
            filament_used_g: opt_view(m.filament_used_g),
            filament_used_mm: opt_view(m.filament_used_mm),
            print_time_human: opt_view(m.print_time_human),
            print_time_seconds: m.print_time_seconds,
            filament_type: None,
            infill_percent: request.infill,
            supports_enabled: Some(request.supports),
            solid_ratio_percent: None,
        },
    }
}

/// A successful slicing keeps every measurement the worker reports: the
/// filament mass and length and both print times are the worker's, the model
/// is G-code, and infill and supports are those that were asked for.
pub proof fn law_slicing_keeps_measurements(m: SliceMetadata, request: SliceRequest)
    ensures
        ({
            let meta = sliced_metadata(m, request);
            &&& meta.kind == ModelKind::Gcode
            &&& meta.filament.filament_used_g == opt_view(m.filament_used_g)
            &&& meta.filament.filament_used_mm == opt_view(m.filament_used_mm)
            &&& meta.filament.print_time_seconds == m.print_time_seconds
            &&& meta.filament.print_time_human == opt_view(m.print_time_human)
            &&& meta.filament.infill_percent == request.infill
            &&& meta.filament.supports_enabled == Some(request.supports)
        }),
{
}

/// Turns the worker's answer to a slicing `request` into model metadata; a
/// failed slicing is refused with the worker's message, or "Unknown slicing
/// error" when it gave none.
pub fn metadata_from_slice(response: SliceResponse, request: &SliceRequest) -> (r: Result<
    ModelMetadata,
    EngineError,
>)
    ensures
        !response.success ==> (r matches Err(EngineError::InvalidInput(m)) && m@ == (
        match response.error {
            Some(e) => e@,
            None => "Unknown slicing error"@,
        })),
        response.success ==> (r matches Ok(meta) && meta@ == sliced_metadata(
            response.metadata,
            *request,
        )),
{
    if !response.success {
        let message = match response.error {
            Some(e) => e,
            None => String::from_str("Unknown slicing error"),
        };
        return Err(EngineError::InvalidInput(message));
    }
    let m = response.metadata;
    let filament = FilamentStats {
        filament_used_g: m.filament_used_g,
        filament_used_mm: m.filament_used_mm,
        print_time_human: m.print_time_human,
        print_time_seconds: m.print_time_seconds,
        filament_type: None,
        infill_percent: request.infill,
        supports_enabled: Some(request.supports),
        solid_ratio_percent: None,
    };
    Ok(ModelMetadata { kind: ModelKind::Gcode, geometry: GeometryStats::default(), filament })
}

} // verus!
