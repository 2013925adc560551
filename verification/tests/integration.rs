use bevy_map_editor::integration::{
    default_property_type, ContextMenuTarget, ContributionDef, EditorExtension, EditorMeta,
    IntegrationError, IntegrationRegistry, PluginInfo, PluginMeta, PropertyDef, PropertyType,
};

fn prop(name: &str, prop_type: PropertyType, min: Option<f64>) -> PropertyDef {
    PropertyDef {
        name: name.to_string(),
        description: None,
        required: false,
        prop_type,
        min: min.map(|v| v.to_bits()),
        max: None,
        extensions: None,
        variants: None,
        default: None,
    }
}

fn plugin(name: &str, applies_to: &[&str], properties: Vec<PropertyDef>, editor: EditorMeta) -> PluginMeta {
    PluginMeta {
        plugin: PluginInfo {
            name: name.to_string(),
            version: String::new(),
            description: String::new(),
            applies_to: applies_to.iter().map(|s| s.to_string()).collect(),
        },
        properties,
        editor,
    }
}

fn editor_meta(section: Option<&str>, exts: &[&str]) -> EditorMeta {
    EditorMeta {
        inspector_section: section.map(|s| s.to_string()),
        file_extensions: exts.iter().map(|s| s.to_string()).collect(),
        contributions: Vec::new(),
    }
}

fn sample_meta() -> PluginMeta {
    plugin(
        "test_plugin",
        &["npc", "enemy"],
        vec![prop("health", PropertyType::Int, Some(0.0)), prop("speed", PropertyType::Float, None)],
        editor_meta(Some("Test Section"), &["tst", "test"]),
    )
}

#[test]
fn register_and_query_properties() {
    let mut registry = IntegrationRegistry::default();
    registry.register_plugin(sample_meta());

    let props = registry.properties_for_entity("npc");
    assert_eq!(props.len(), 2);
    assert_eq!(props[0].1.name, "health");
    assert_eq!(props[1].1.name, "speed");

    // Non-matching type returns empty
    let props = registry.properties_for_entity("chest");
    assert!(props.is_empty());
}

#[test]
fn wildcard_applies_to() {
    let meta = plugin("universal", &[], vec![prop("tag", default_property_type(), None)], editor_meta(None, &[]));

    let mut registry = IntegrationRegistry::default();
    registry.register_plugin(meta);

    // Empty applies_to matches everything
    let props = registry.properties_for_entity("anything");
    assert_eq!(props.len(), 1);
}

#[test]
fn inspector_section_lookup() {
    let mut registry = IntegrationRegistry::default();
    registry.register_plugin(sample_meta());

    assert_eq!(registry.inspector_section("test_plugin"), Some("Test Section"));
    assert_eq!(registry.inspector_section("unknown"), None);
}

#[test]
fn file_extensions() {
    let mut registry = IntegrationRegistry::default();
    registry.register_plugin(sample_meta());

    let exts = registry.all_file_extensions();
    assert_eq!(exts, vec!["tst", "test"]);
}

#[test]
fn no_duplicate_extensions() {
    let mut registry = IntegrationRegistry::default();
    registry.register_plugin(sample_meta());
    // Register a second plugin with overlapping extension
    let meta2 = plugin("other", &[], Vec::new(), editor_meta(None, &["tst", "other"]));
    registry.register_plugin(meta2);

    let exts = registry.all_file_extensions();
    assert_eq!(exts, vec!["tst", "test", "other"]);
}

#[test]
fn applies_to_ignores_ascii_case() {
    let mut registry = IntegrationRegistry::new();
    registry.register_plugin(sample_meta());
    assert_eq!(registry.properties_for_entity("NPC").len(), 2);
    assert_eq!(registry.properties_for_entity("Enemy").len(), 2);
    let props = registry.properties_for_entity("npc");
    assert_eq!(props[0].0.name, "test_plugin");
    assert_eq!(props[0].1.min, Some(0.0f64.to_bits()));
}

#[test]
fn contributions_convert_on_registration() {
    let mut meta = plugin("ui", &[], Vec::new(), editor_meta(None, &[]));
    meta.editor.contributions = vec![
        ContributionDef::Panel { name: "Stats".to_string() },
        ContributionDef::MenuItem { path: "Tools/Run".to_string() },
        ContributionDef::ContextMenu { target: "Entity".to_string(), name: "Inspect".to_string() },
        ContributionDef::ContextMenu { target: "weird".to_string(), name: "Nope".to_string() },
        ContributionDef::ContextMenu { target: "LAYER".to_string(), name: "Fill".to_string() },
    ];
    let mut registry = IntegrationRegistry::new();
    registry.register_plugin(meta);
    let ext = registry.ui_contributions();
    assert_eq!(ext.len(), 4);
    assert!(matches!(&ext[0], EditorExtension::Panel { name } if name == "Stats"));
    assert!(matches!(&ext[1], EditorExtension::MenuItem { path } if path == "Tools/Run"));
    assert!(matches!(&ext[2], EditorExtension::ContextMenu { target: ContextMenuTarget::Entity, name } if name == "Inspect"));
    assert!(matches!(&ext[3], EditorExtension::ContextMenu { target: ContextMenuTarget::Layer, name } if name == "Fill"));
}

#[test]
fn from_def_lowercases_the_target() {
    let e = EditorExtension::from_def(ContributionDef::ContextMenu {
        target: "EnTiTy".to_string(),
        name: "x".to_string(),
    });
    assert!(matches!(e, Some(EditorExtension::ContextMenu { target: ContextMenuTarget::Entity, .. })));
    assert!(EditorExtension::from_def(ContributionDef::ContextMenu { target: "tile".to_string(), name: "x".to_string() }).is_none());
    assert!(matches!(
        EditorExtension::from_def(ContributionDef::ToolbarButton { name: "b".to_string() }),
        Some(EditorExtension::ToolbarButton { name }) if name == "b"
    ));
}

#[test]
fn integration_error_messages() {
    assert_eq!(IntegrationError::IoError("disk".to_string()).message(), "IO error: disk");
    assert_eq!(IntegrationError::ParseError("bad".to_string()).message(), "Parse error: bad");
    assert_eq!(IntegrationError::ValidationError("no".to_string()).message(), "Validation error: no");
}

#[test]
fn default_property_type_is_string() {
    assert_eq!(default_property_type(), PropertyType::String);
}
