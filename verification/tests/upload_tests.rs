use price_engine::engine::PriceEngine;
use price_engine::error::EngineError;
use price_engine::model::ModelKind;
use price_engine::orca::{metadata_from_slice, slice_endpoint, SliceMetadata, SliceRequest, SliceResponse};
use price_engine::quote::Turnaround;
use price_engine::upload::{
    accept_chunk, detect_model_kind, engine_error_status, field_action, file_request,
    finish_upload, gcode_request_input, max_upload_bytes, FieldAction, FormOptions, RequestError,
};

#[test]
fn detect_by_extension() {
    assert_eq!(detect_model_kind(Some("part.gcode"), b"xyz").unwrap(), ModelKind::Gcode);
    assert_eq!(detect_model_kind(Some("dir/Part.3MF"), b"").unwrap(), ModelKind::ThreeMf);
    assert_eq!(detect_model_kind(Some("/a/b/cube.StL"), b"PK\x03\x04").unwrap(), ModelKind::Stl);
    assert_eq!(detect_model_kind(Some("cube.stl/."), b"").unwrap(), ModelKind::Stl);
}

#[test]
fn unsupported_extension_is_reported_lowercased() {
    match detect_model_kind(Some("model.OBJ"), b"; gcode") {
        Err(RequestError::UnsupportedExtension(e)) => assert_eq!(e, "obj"),
        other => panic!("unexpected {:?}", other),
    }
    match detect_model_kind(Some("model."), b"; gcode") {
        Err(RequestError::UnsupportedExtension(e)) => assert_eq!(e, ""),
        other => panic!("unexpected {:?}", other),
    }
}

#[test]
fn detect_by_content_without_extension() {
    assert_eq!(detect_model_kind(None, b"PK\x03\x04rest").unwrap(), ModelKind::ThreeMf);
    assert_eq!(detect_model_kind(Some("upload"), b"solid cube").unwrap(), ModelKind::Stl);
    assert_eq!(detect_model_kind(Some(".hidden"), b"SOLID x").unwrap(), ModelKind::Stl);
    assert_eq!(detect_model_kind(Some("a/.."), b"; c").unwrap(), ModelKind::Gcode);
    assert_eq!(detect_model_kind(None, b"G28").unwrap(), ModelKind::Gcode);
    assert!(matches!(detect_model_kind(None, b"solidcube"), Err(RequestError::UnknownFileType)));
    assert!(matches!(detect_model_kind(None, b""), Err(RequestError::UnknownFileType)));
}

#[test]
fn form_options_apply() {
    let mut form = FormOptions::default();
    assert!(form.apply("material_id", "  abs  ").is_ok());
    assert_eq!(form.material_id.as_deref(), Some("abs"));
    // Blank values are ignored, whatever the field.
    assert!(form.apply("colour", "   ").is_ok());
    assert!(form.apply("material_id", "").is_ok());
    assert_eq!(form.material_id.as_deref(), Some("abs"));
    match form.apply("colour", "red") {
        Err(RequestError::UnknownField(f)) => assert_eq!(f, "colour"),
        other => panic!("unexpected {:?}", other),
    }
    assert_eq!(form.material_id.as_deref(), Some("abs"));
}

#[test]
fn multipart_field_actions() {
    assert!(matches!(field_action(None, false), Err(RequestError::MissingFieldName)));
    assert_eq!(field_action(Some("file"), false).unwrap(), FieldAction::ReadFile);
    assert!(matches!(field_action(Some("file"), true), Err(RequestError::MultipleFiles)));
    assert_eq!(field_action(Some("material_id"), true).unwrap(), FieldAction::ReadText);
}

#[test]
fn upload_chunks_respect_limit() {
    assert_eq!(accept_chunk(0, 10, 10).unwrap(), 10);
    assert!(matches!(accept_chunk(5, 6, 10), Err(RequestError::FileTooLarge(10))));
}

#[test]
fn upload_limit_setting() {
    assert_eq!(max_upload_bytes(None), Some(50 * 1024 * 1024));
    assert_eq!(max_upload_bytes(Some("8")), Some(8 * 1024 * 1024));
    assert_eq!(max_upload_bytes(Some("+8")), Some(8 * 1024 * 1024));
    assert_eq!(max_upload_bytes(Some("0")), Some(50 * 1024 * 1024));
    assert_eq!(max_upload_bytes(Some("-3")), Some(50 * 1024 * 1024));
    assert_eq!(max_upload_bytes(Some(" 8")), Some(50 * 1024 * 1024));
    assert_eq!(max_upload_bytes(Some("")), Some(50 * 1024 * 1024));
    assert_eq!(max_upload_bytes(Some("99999999999999999999999")), Some(50 * 1024 * 1024));
    assert_eq!(max_upload_bytes(Some(&(usize::MAX / 2).to_string())), None);
}

#[test]
fn request_inputs() {
    let q = gcode_request_input(String::new());
    assert_eq!(q.material_id, "pla");
    assert_eq!(q.infill_percent, Some(25));
    assert!(q.supports);
    assert_eq!(q.quantity, 1);
    assert_eq!(q.turnaround, Turnaround::Standard);
    assert_eq!(gcode_request_input("abs".to_string()).material_id, "abs");

    let (name, input) = file_request(&FormOptions::default());
    assert_eq!(name, "upload");
    assert_eq!(input.material_id, "pla");
    assert_eq!(input.infill_percent, Some(25));
    assert!(input.supports);
    assert!(input.cost_per_kg_override.is_none() && input.base_fee_override.is_none());
    let mut form = FormOptions::default();
    form.filename = Some("a.stl".to_string());
    form.apply("material_id", "tpu").unwrap();
    form.apply("infill_percent", "40").unwrap();
    form.apply("supports", "false").unwrap();
    form.apply("cost", "120.5").unwrap();
    form.apply("base_fee", "30").unwrap();
    let (name, input) = file_request(&form);
    assert_eq!(name, "a.stl");
    assert_eq!(input.material_id, "tpu");
    assert_eq!(input.infill_percent, Some(40));
    assert!(!input.supports);
    assert_eq!(input.cost_per_kg_override.as_deref(), Some("120.5"));
    assert_eq!(input.base_fee_override.as_deref(), Some("30"));
    assert!(input.numbers_valid());
    assert_eq!(input.quantity, 1);
}

#[test]
fn engine_error_statuses() {
    assert_eq!(engine_error_status(&EngineError::InvalidInput("x".into())), 400);
    assert_eq!(engine_error_status(&EngineError::UnsupportedFormat("x".into())), 400);
    assert_eq!(engine_error_status(&EngineError::NotImplemented { capability: "stl" }), 501);
    assert_eq!(engine_error_status(&EngineError::Parse("x".into())), 500);
}

#[test]
fn slice_answers() {
    assert_eq!(slice_endpoint("http://worker:9000"), "http://worker:9000/api/slice");
    let request = SliceRequest { infill: Some(20), supports: false, profile: None };
    let meta = SliceMetadata {
        filament_used_g: Some("12.5".into()),
        filament_used_mm: None,
        filament_cost: None,
        print_time_seconds: Some(600),
        print_time_human: Some("10m".into()),
        total_layers: Some(100),
    };
    let ok = metadata_from_slice(
        SliceResponse { success: true, gcode: None, metadata: meta, error: None },
        &request,
    )
    .unwrap();
    assert_eq!(ok.kind, ModelKind::Gcode);
    assert_eq!(ok.filament.filament_used_g.as_deref(), Some("12.5"));
    assert_eq!(ok.filament.infill_percent, Some(20));
    assert_eq!(ok.filament.supports_enabled, Some(false));
    assert_eq!(ok.filament.print_time_seconds, Some(600));
    let empty = SliceMetadata {
        filament_used_g: None,
        filament_used_mm: None,
        filament_cost: None,
        print_time_seconds: None,
        print_time_human: None,
        total_layers: None,
    };
    match metadata_from_slice(
        SliceResponse { success: false, gcode: None, metadata: empty, error: None },
        &request,
    ) {
        Err(EngineError::InvalidInput(m)) => assert_eq!(m, "Unknown slicing error"),
        other => panic!("unexpected {:?}", other),
    }
}

#[test]
fn form_documented_fields() {
    let mut form = FormOptions::default();
    assert!(form.apply("infill_percent", "20").is_ok());
    assert_eq!(form.infill_percent, Some(20));
    assert_eq!(form.material_id, None);
    assert!(form.apply("infill_percent", " +100 ").is_ok());
    assert_eq!(form.infill_percent, Some(100));
    for (value, expected) in [("true", true), ("ON", true), ("1", true), ("Yes", true),
                              ("false", false), ("off", false), ("0", false), ("NO", false)] {
        form.apply("supports", value).unwrap();
        assert_eq!(form.supports, Some(expected), "{}", value);
    }
    assert!(form.apply("cost", "99.9").is_ok());
    assert_eq!(form.cost_per_kg_override.as_deref(), Some("99.9"));
    match form.apply("cost_per_kg", "10") {
        Err(RequestError::UnknownField(f)) => assert_eq!(f, "cost_per_kg"),
        other => panic!("unexpected {:?}", other),
    }
    assert_eq!(form.cost_per_kg_override.as_deref(), Some("99.9"));
    assert!(form.apply("base_fee", " 12 ").is_ok());
    assert_eq!(form.base_fee_override.as_deref(), Some("12"));
}

#[test]
fn form_unreadable_values_are_refused() {
    let mut form = FormOptions::default();
    match form.apply("infill_percent", " 101 ") {
        Err(RequestError::InvalidValue { field, value }) => {
            assert_eq!(field, "infill_percent");
            assert_eq!(value, "101");
        }
        other => panic!("unexpected {:?}", other),
    }
    assert!(matches!(form.apply("infill_percent", "-5"), Err(RequestError::InvalidValue { .. })));
    assert!(matches!(form.apply("infill_percent", "2.5"), Err(RequestError::InvalidValue { .. })));
    assert!(matches!(form.apply("supports", "maybe"), Err(RequestError::InvalidValue { .. })));
    assert!(matches!(form.apply("cost", "12,5"), Err(RequestError::InvalidValue { .. })));
    assert!(matches!(form.apply("base_fee", "free"), Err(RequestError::InvalidValue { .. })));
    assert_eq!(form.infill_percent, None);
    assert_eq!(form.supports, None);
    assert_eq!(form.cost_per_kg_override, None);
    assert_eq!(form.base_fee_override, None);
}

#[test]
fn upload_with_form_fields_is_quoted_with_them() {
    let mut form = FormOptions::default();
    form.filename = Some("a.gcode".to_string());
    form.apply("material_id", "pla").unwrap();
    form.apply("infill_percent", "40").unwrap();
    form.apply("supports", "false").unwrap();
    let data = b"; filament used [g] = 10\n";
    let (name, input) = file_request(&form);
    assert_eq!(detect_model_kind(Some(name.as_str()), data).unwrap(), ModelKind::Gcode);
    let out = PriceEngine::new().quote_from_gcode_bytes(data, input).unwrap();
    assert_eq!(out.metadata.filament.infill_percent, Some(40));
    assert_eq!(out.metadata.filament.supports_enabled, Some(false));
}

#[test]
fn request_error_messages() {
    assert_eq!(RequestError::MissingFieldName.message(), "multipart field missing name");
    assert_eq!(RequestError::MultipleFiles.message(), "multiple file fields provided");
    assert_eq!(RequestError::MissingFile.message(), "missing file field");
    assert_eq!(RequestError::UnknownField("colour".into()).message(), "unknown form field: colour");
    assert_eq!(
        RequestError::InvalidValue { field: "supports".into(), value: "maybe".into() }.message(),
        "invalid value for form field supports: maybe"
    );
    assert_eq!(
        RequestError::UnsupportedExtension("obj".into()).message(),
        "unsupported file extension: .obj"
    );
    assert_eq!(RequestError::UnknownFileType.message(), "unable to detect file type");
    assert_eq!(RequestError::FileTooLarge(52428800).message(), "file exceeds 52428800 bytes limit");
    assert_eq!(RequestError::FileTooLarge(0).message(), "file exceeds 0 bytes limit");
    assert_eq!(RequestError::FileTooLarge(7).message(), "file exceeds 7 bytes limit");
}

#[test]
fn upload_form_end() {
    let mut form = FormOptions::default();
    assert!(matches!(finish_upload(None, &form), Err(RequestError::MissingFile)));
    form.apply("infill_percent", "30").unwrap();
    let (data, name, input) = finish_upload(Some(vec![1, 2, 3]), &form).unwrap();
    assert_eq!(data, vec![1, 2, 3]);
    assert_eq!(name, "upload");
    assert_eq!(input.material_id, "pla");
    assert_eq!(input.infill_percent, Some(30));
}
