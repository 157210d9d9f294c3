use vr_renderer::debug::{validation_layers, MessageKind, Severity, VALIDATION_LAYER};

#[test]
fn most_severe_flag_wins() {
    assert_eq!(Severity::from_flags(true, true, false, true), Severity::Error);
    assert_eq!(Severity::from_flags(false, true, true, true), Severity::Warning);
    assert_eq!(Severity::from_flags(false, false, true, true), Severity::Information);
    assert_eq!(Severity::from_flags(false, false, false, true), Severity::Verbose);
    assert_eq!(Severity::from_flags(false, false, false, false), Severity::Unknown);
}

#[test]
fn severity_names() {
    assert_eq!(Severity::Error.name(), "error");
    assert_eq!(Severity::Warning.name(), "warning");
    assert_eq!(Severity::Information.name(), "information");
    assert_eq!(Severity::Verbose.name(), "verbose");
    assert_eq!(Severity::Unknown.name(), "unknown");
}

#[test]
fn message_kinds() {
    assert_eq!(MessageKind::from_flags(true, true, true), MessageKind::General);
    assert_eq!(MessageKind::from_flags(false, true, true), MessageKind::Validation);
    assert_eq!(MessageKind::from_flags(false, false, true), MessageKind::Performance);
    assert_eq!(MessageKind::from_flags(false, false, false), MessageKind::Unknown);
    assert_eq!(MessageKind::Performance.name(), "performance");
    assert_eq!(MessageKind::General.name(), "general");
    assert_eq!(MessageKind::Validation.name(), "validation");
}

#[test]
fn layers_only_in_debug_mode() {
    assert_eq!(validation_layers(true), vec![VALIDATION_LAYER]);
    assert_eq!(VALIDATION_LAYER, "VK_LAYER_LUNARG_standard_validation");
    assert!(validation_layers(false).is_empty());
}
