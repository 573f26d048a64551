use jasblog_editor::{Document, DocumentKind, Float64Bits, MiniModeSettings, Settings};

#[test]
fn default_settings_have_every_field_absent() {
    let settings = Settings::default();
    assert_eq!(settings.workspace_path, None);
    assert_eq!(settings.workspace_type, None);
    assert_eq!(settings.last_opened_file, None);
    assert_eq!(settings.mini_mode_settings, None);
    assert_eq!(settings.theme, None);
}

#[test]
fn a_blank_document_is_default_settings_or_no_templates() {
    assert_eq!(Document::blank(DocumentKind::Settings), Document::Settings(Settings::default()));
    assert_eq!(Document::blank(DocumentKind::Templates), Document::Templates(Vec::new()));
}

#[test]
fn a_document_tells_its_kind() {
    assert_eq!(Document::Settings(Settings::default()).kind_of(), DocumentKind::Settings);
    assert_eq!(Document::Templates(Vec::new()).kind_of(), DocumentKind::Templates);
}

#[test]
fn window_geometry_is_carried_bit_for_bit() {
    let mini = MiniModeSettings {
        width: Float64Bits { bits: 420.5f64.to_bits() },
        height: Float64Bits { bits: 300.0f64.to_bits() },
        position_x: Some(Float64Bits { bits: (-12.25f64).to_bits() }),
        position_y: None,
    };
    assert_eq!(f64::from_bits(mini.width.bits), 420.5);
    assert_eq!(f64::from_bits(mini.height.bits), 300.0);
    assert_eq!(mini.position_x.map(|x| f64::from_bits(x.bits)), Some(-12.25));
    assert_eq!(mini.clone(), mini);
}
