//! What is known about a model before it is priced.
//!
//! Measured quantities are held as the decimal text they were read from
//! (see `float_text`); every such text is accepted by `f64::from_str`, which
//! gives their binary floating-point value.
use vstd::prelude::*;

use crate::float_text::{is_float_text, opt_float_text, opt_is_float_text};
use crate::text::opt_view;

verus! {

/// The kind of file a quote is made from.
#[derive(Debug, Clone, Copy, PartialEq, Eq, Structural)]
pub enum ModelKind {
    Gcode,
    ThreeMf,
    Stl,
}

impl Default for ModelKind {
    /// The kind assumed when nothing else is known: G-code.
    fn default() -> (k: ModelKind)
        ensures
            k == ModelKind::Gcode,
    {
        ModelKind::Gcode
    }
}

/// Geometric measurements of a model.
#[derive(Debug)]
pub struct GeometryStats {
    pub volume_cm3: Option<String>,
    pub surface_area_cm2: Option<String>,
    pub bounding_box_mm: Option<(String, String, String)>,
    pub triangle_count: Option<u32>,
}

pub struct GeometryView {
    pub volume_cm3: Option<Seq<char>>,
    pub surface_area_cm2: Option<Seq<char>>,
    pub bounding_box_mm: Option<(Seq<char>, Seq<char>, Seq<char>)>,
    pub triangle_count: Option<u32>,
}

impl View for GeometryStats {
    type V = GeometryView;

    open spec fn view(&self) -> GeometryView {
        GeometryView {
            volume_cm3: opt_view(self.volume_cm3),
            surface_area_cm2: opt_view(self.surface_area_cm2),
            bounding_box_mm: match self.bounding_box_mm {
                Some((x, y, z)) => Some((x@, y@, z@)),
                None => None,
            },
            triangle_count: self.triangle_count,
        }
    }
}

pub open spec fn empty_geometry() -> GeometryView {
    GeometryView {
        volume_cm3: None,
        surface_area_cm2: None,
        bounding_box_mm: None,
        triangle_count: None,
    }
}

impl Default for GeometryStats {
    /// No measurement known.
    fn default() -> (g: GeometryStats)
        ensures
            g@ == empty_geometry(),
    {
        GeometryStats {
            volume_cm3: None,
            surface_area_cm2: None,
            bounding_box_mm: None,
            triangle_count: None,
        }
    }
}

/// Filament use and print settings of a sliced model.
#[derive(Debug)]
pub struct FilamentStats {
    pub filament_used_g: Option<String>,
    pub filament_used_mm: Option<String>,
    pub print_time_human: Option<String>,
    pub print_time_seconds: Option<u32>,
    pub filament_type: Option<String>,
    pub infill_percent: Option<u8>,
    pub supports_enabled: Option<bool>,
    pub solid_ratio_percent: Option<String>,
}

pub struct FilamentView {
    pub filament_used_g: Option<Seq<char>>,
    pub filament_used_mm: Option<Seq<char>>,
    pub print_time_human: Option<Seq<char>>,
    pub print_time_seconds: Option<u32>,
    pub filament_type: Option<Seq<char>>,
    pub infill_percent: Option<u8>,
    pub supports_enabled: Option<bool>,
    pub solid_ratio_percent: Option<Seq<char>>,
}

impl View for FilamentStats {
    type V = FilamentView;

    open spec fn view(&self) -> FilamentView {
        FilamentView {
            filament_used_g: opt_view(self.filament_used_g),
            filament_used_mm: opt_view(self.filament_used_mm),
            print_time_human: opt_view(self.print_time_human),
            print_time_seconds: self.print_time_seconds,
            filament_type: opt_view(self.filament_type),
            infill_percent: self.infill_percent,
            supports_enabled: self.supports_enabled,
            solid_ratio_percent: opt_view(self.solid_ratio_percent),
        }
    }
}

pub open spec fn empty_filament() -> FilamentView {
    FilamentView {
        filament_used_g: None,
        filament_used_mm: None,
        print_time_human: None,
        print_time_seconds: None,
        filament_type: None,
        infill_percent: None,
        supports_enabled: None,
        solid_ratio_percent: None,
    }
}

impl Default for FilamentStats {
    /// Nothing known.
    fn default() -> (f: FilamentStats)
        ensures
            f@ == empty_filament(),
    {
        FilamentStats {
            filament_used_g: None,
            filament_used_mm: None,
            print_time_human: None,
            print_time_seconds: None,
            filament_type: None,
            infill_percent: None,
            supports_enabled: None,
            solid_ratio_percent: None,
        }
    }
}

/// Everything known about a model: its kind, geometry and filament use.
#[derive(Debug)]
pub struct ModelMetadata {
    pub kind: ModelKind,
    pub geometry: GeometryStats,
    pub filament: FilamentStats,
}

pub struct MetadataView {
    pub kind: ModelKind,
    pub geometry: GeometryView,
    pub filament: FilamentView,
}

impl View for ModelMetadata {
    type V = MetadataView;

    open spec fn view(&self) -> MetadataView {
        MetadataView { kind: self.kind, geometry: self.geometry@, filament: self.filament@ }
    }
}

impl Default for ModelMetadata {
    /// A G-code model about which nothing is known yet.
    fn default() -> (m: ModelMetadata)
        ensures
            m@ == (MetadataView {
                kind: ModelKind::Gcode,
                geometry: empty_geometry(),
                filament: empty_filament(),
            }),
    {
        ModelMetadata {
            kind: ModelKind::default(),
            geometry: GeometryStats::default(),
            filament: FilamentStats::default(),
        }
    }
}

/// Every measured quantity of `m` is text that `f64::from_str` accepts.
pub open spec fn metadata_numbers_valid(m: MetadataView) -> bool {
    &&& opt_float_text(m.geometry.volume_cm3)
    &&& opt_float_text(m.geometry.surface_area_cm2)
    &&& (m.geometry.bounding_box_mm matches Some((x, y, z)) ==> opt_float_text(Some(x))
        && opt_float_text(Some(y)) && opt_float_text(Some(z)))
    &&& opt_float_text(m.filament.filament_used_g)
    &&& opt_float_text(m.filament.filament_used_mm)
    &&& opt_float_text(m.filament.solid_ratio_percent)
}

impl ModelMetadata {
    /// Whether every measured quantity is text that `f64::from_str` accepts,
    /// as quoting requires.
    pub fn numbers_valid(&self) -> (r: bool)
        ensures
            r == metadata_numbers_valid(self@),
    {
        let bbox_ok = match &self.geometry.bounding_box_mm {
            Some((x, y, z)) => is_float_text(x.as_str()) && is_float_text(y.as_str())
                && is_float_text(z.as_str()),
            None => true,
        };
        opt_is_float_text(&self.geometry.volume_cm3) && opt_is_float_text(
            &self.geometry.surface_area_cm2,
        ) && bbox_ok && opt_is_float_text(&self.filament.filament_used_g) && opt_is_float_text(
            &self.filament.filament_used_mm,
        ) && opt_is_float_text(&self.filament.solid_ratio_percent)
    }
}

} // verus!
