use price_engine::engine::PriceEngine;
use price_engine::error::EngineError;
use price_engine::gcode::{gcode_print_times_fit, parse_gcode_metadata};
use price_engine::material::{MaterialCatalog, MaterialKind, MaterialProfile};
use price_engine::model::{FilamentStats, GeometryStats, ModelKind, ModelMetadata};
use price_engine::quote::{BaseFee, CostPerKg, QuoteBreakdown, QuoteInput, Turnaround};

const SAMPLE_GCODE: &str = "; filament used [g] = 4.94\n; filament used [mm] = 1234.56\n; filament_type = PLA\n; estimated printing time (normal mode) = 15m 32s\nG28\n";

fn as_f64(text: &Option<String>) -> Option<f64> {
    text.as_deref().map(|t| t.parse::<f64>().expect("float text"))
}

#[test]
fn parses_basic_gcode_metadata() {
    let meta = parse_gcode_metadata(SAMPLE_GCODE);
    assert_eq!(as_f64(&meta.filament.filament_used_g), Some(4.94));
    assert_eq!(as_f64(&meta.filament.filament_used_mm), Some(1234.56));
    assert_eq!(meta.filament.filament_type.as_deref(), Some("PLA"));
    assert_eq!(meta.filament.print_time_seconds, Some(15 * 60 + 32));
}

#[test]
fn quote_requires_known_material() {
    let engine = PriceEngine::new();
    let result = engine.quote_from_gcode_str(SAMPLE_GCODE, QuoteInput::material("unknown".to_string()));
    assert!(matches!(result, Err(EngineError::InvalidInput(_))));
}

#[test]
fn quote_happy_path_from_gcode() {
    let engine = PriceEngine::new();
    let output = engine
        .quote_from_gcode_str(SAMPLE_GCODE, QuoteInput::material("pla".to_string()))
        .expect("quote should work");

    assert_eq!(as_f64(&output.metadata.filament.filament_used_g), Some(4.94));
    assert!(!output.breakdown.is_estimate);
    // The parts the total is computed from: 4.94 g of PLA at its own price,
    // the standard fee, one piece, no discount, margin 1.
    let b = &output.breakdown;
    assert_eq!(b.filament_used_g, "4.94");
    assert!(matches!(b.cost_per_kg, CostPerKg::Material(bits) if f32::from_bits(bits) == 90.0));
    assert!(matches!(b.base_fee, BaseFee::Standard));
    assert_eq!(b.quantity, 1);
    assert_eq!(b.discount_steps, 0);
    assert_eq!(f32::from_bits(b.margin_multiplier_bits), 1.0);
    assert_eq!(b.turnaround, Turnaround::Standard);
}

#[test]
fn unknown_material_message_names_the_material() {
    let engine = PriceEngine::new();
    match engine.quote_from_gcode_str(SAMPLE_GCODE, QuoteInput::material("nylon".to_string())) {
        Err(EngineError::InvalidInput(m)) => assert_eq!(m, "unknown material: nylon"),
        other => panic!("unexpected {:?}", other),
    }
}

#[test]
fn quote_without_mass_is_refused() {
    let engine = PriceEngine::new();
    match engine.quote_from_gcode_str("; filament_type = ABS\nG1 X0\n", QuoteInput::material("abs".to_string())) {
        Err(EngineError::InvalidInput(m)) => assert_eq!(m, "filament mass missing in metadata"),
        other => panic!("unexpected {:?}", other),
    }
}

#[test]
fn quote_from_bytes_requires_utf8() {
    let engine = PriceEngine::new();
    match engine.quote_from_gcode_bytes(&[0x3b, 0xff, 0xfe], QuoteInput::material("pla".to_string())) {
        Err(EngineError::InvalidInput(m)) => assert_eq!(m, "G-code file must be UTF-8"),
        other => panic!("unexpected {:?}", other),
    }
    let ok = engine
        .quote_from_gcode_bytes(SAMPLE_GCODE.as_bytes(), QuoteInput::material("pla".to_string()))
        .expect("utf-8 G-code");
    assert_eq!(ok.metadata.filament.filament_used_g.as_deref(), Some("4.94"));
    assert_eq!(ok.metadata.kind, ModelKind::Gcode);
}

#[test]
fn quote_fills_defaults_and_prices_from_material() {
    let engine = PriceEngine::new();
    let out = engine
        .quote_from_gcode_str("; filament used [g] = 10\n", QuoteInput::material("pla".to_string()))
        .unwrap();
    assert_eq!(out.metadata.filament.filament_type.as_deref(), Some("PLA"));
    assert_eq!(out.metadata.filament.infill_percent, Some(25));
    assert_eq!(out.metadata.filament.supports_enabled, Some(true));
    assert_eq!(out.material.id, "pla");
    let b = &out.breakdown;
    assert_eq!(b.currency, "PLN");
    assert!(matches!(b.cost_per_kg, CostPerKg::Material(bits) if bits == 90.0f32.to_bits()));
    assert!(matches!(b.base_fee, BaseFee::Standard));
    assert_eq!(b.margin_multiplier_bits, 1.0f32.to_bits());
    assert_eq!(b.filament_used_g, "10");
    assert_eq!(b.quantity, 1);
    assert_eq!(b.discount_steps, 0);
    assert!(!b.review_required);
}

#[test]
fn quote_keeps_model_values_and_uses_overrides() {
    let engine = PriceEngine::new().with_currency("EUR".to_string());
    let mut filament = FilamentStats::default();
    filament.filament_used_g = Some("100".to_string());
    filament.filament_type = Some("PETG".to_string());
    filament.infill_percent = Some(80);
    filament.supports_enabled = Some(false);
    let meta = ModelMetadata { kind: ModelKind::Stl, geometry: GeometryStats::default(), filament };
    let mut input = QuoteInput::material("abs".to_string());
    input.cost_per_kg_override = Some("200".to_string());
    input.base_fee_override = Some("10.5".to_string());
    assert!(input.numbers_valid());
    assert!(meta.numbers_valid());
    input.quantity = 0;
    input.turnaround = Turnaround::Express;
    let out = engine.quote_from_metadata(meta, input).unwrap();
    assert_eq!(out.metadata.kind, ModelKind::Stl);
    assert_eq!(out.metadata.filament.filament_type.as_deref(), Some("PETG"));
    assert_eq!(out.metadata.filament.infill_percent, Some(80));
    assert_eq!(out.metadata.filament.supports_enabled, Some(false));
    let b = &out.breakdown;
    assert_eq!(b.currency, "EUR");
    assert!(matches!(&b.cost_per_kg, CostPerKg::Override(t) if t == "200"));
    assert!(matches!(&b.base_fee, BaseFee::Override(t) if t == "10.5"));
    assert_eq!(b.quantity, 1);
    assert_eq!(b.turnaround, Turnaround::Express);
}

#[test]
fn quantity_discount_and_review() {
    let engine = PriceEngine::new();
    let mut input = QuoteInput::material("pc".to_string());
    input.quantity = 55;
    let out = engine.quote_from_gcode_str("; filament used [g] = 2\n", input).unwrap();
    assert_eq!(out.breakdown.quantity, 55);
    assert_eq!(out.breakdown.discount_steps, 2);
    assert!(out.breakdown.review_required);
}

#[test]
fn installed_material_is_found_and_quoted() {
    let resin = MaterialProfile::new(
        "resin".to_string(),
        "Resin".to_string(),
        MaterialKind::Resin,
        1.1f32.to_bits(),
        300.0f32.to_bits(),
        15.0f32.to_bits(),
        1.5f32.to_bits(),
    );
    let engine = PriceEngine::new().install_material(resin);
    let found = engine.material("resin").expect("installed");
    assert_eq!(found.display_name, "Resin");
    assert!(engine.material("pla").is_some());
    assert_eq!(engine.materials().len(), 5);
    let out = engine
        .quote_from_gcode_str("; filament used [g] = 1\n", QuoteInput::material("resin".to_string()))
        .unwrap();
    assert_eq!(out.material.kind, MaterialKind::Resin);
    assert!(matches!(out.breakdown.base_fee, BaseFee::Material(bits) if bits == 15.0f32.to_bits()));
    assert_eq!(out.breakdown.margin_multiplier_bits, 1.5f32.to_bits());
}

#[test]
fn reinstalling_replaces_material() {
    let cheap = MaterialProfile::new(
        "pla".to_string(),
        "PLA budget".to_string(),
        MaterialKind::Fdm,
        1.25f32.to_bits(),
        50.0f32.to_bits(),
        0,
        1.0f32.to_bits(),
    );
    let engine = PriceEngine::new().install_material(cheap);
    assert_eq!(engine.materials().len(), 4);
    assert_eq!(engine.material("pla").unwrap().display_name, "PLA budget");
}

#[test]
fn default_catalog_contents() {
    let catalog = MaterialCatalog::with_defaults();
    let pla = catalog.get("pla").unwrap();
    assert_eq!(pla.display_name, "PLA");
    assert_eq!(f32::from_bits(pla.density_g_cm3_bits), 1.25);
    assert_eq!(f32::from_bits(pla.cost_per_kg_bits), 90.0);
    assert_eq!(f32::from_bits(catalog.get("abs").unwrap().density_g_cm3_bits), 1.05);
    assert_eq!(f32::from_bits(catalog.get("pc").unwrap().cost_per_kg_bits), 240.0);
    assert_eq!(f32::from_bits(catalog.get("tpu").unwrap().cost_per_kg_bits), 210.0);
    assert!(catalog.get("PLA").is_none());
    let mut ids: Vec<String> = catalog.iter().iter().map(|p| p.id.clone()).collect();
    ids.sort();
    assert_eq!(ids, vec!["abs", "pc", "pla", "tpu"]);
    assert_eq!(catalog.into_inner().len(), 4);
}

#[test]
fn new_engine_uses_pln_and_default_catalog() {
    let engine = PriceEngine::new();
    assert_eq!(engine.materials().len(), 4);
    assert_eq!(engine.material("tpu").unwrap().display_name, "TPU");
}

#[test]
fn overflowing_print_time_is_detected() {
    assert!(gcode_print_times_fit(SAMPLE_GCODE));
    assert!(!gcode_print_times_fit("; estimated printing time = 2000000h\n"));
    // Not a comment line, so never read.
    assert!(gcode_print_times_fit("estimated printing time = 2000000h\n"));
}

#[test]
fn empty_catalog_and_insert() {
    let mut catalog = MaterialCatalog::default();
    assert!(catalog.get("pla").is_none());
    assert_eq!(catalog.iter().len(), 0);
    catalog.insert(MaterialProfile::new(
        "petg".to_string(),
        "PETG".to_string(),
        MaterialKind::Fdm,
        1.27f32.to_bits(),
        110.0f32.to_bits(),
        0,
        1.0f32.to_bits(),
    ));
    assert_eq!(catalog.get("petg").unwrap().display_name, "PETG");
    assert_eq!(catalog.iter().len(), 1);
}

#[test]
fn number_checks_of_inputs() {
    let mut input = QuoteInput::material("pla".to_string());
    assert!(input.numbers_valid());
    input.base_fee_override = Some("abc".to_string());
    assert!(!input.numbers_valid());
    let mut meta = parse_gcode_metadata(SAMPLE_GCODE);
    assert!(meta.numbers_valid());
    meta.filament.filament_used_g = Some("4,94".to_string());
    assert!(!meta.numbers_valid());
}

#[test]
fn engine_error_messages() {
    assert_eq!(EngineError::InvalidInput("x".into()).message(), "invalid input: x");
    assert_eq!(EngineError::UnsupportedFormat("obj".into()).message(), "unsupported format: obj");
    assert_eq!(EngineError::Parse("bad".into()).message(), "parse error: bad");
    assert_eq!(
        EngineError::NotImplemented { capability: "STL estimates" }.message(),
        "not implemented: STL estimates"
    );
}
