use bevy_map_editor::external_editor::Platform;
use bevy_map_editor::integration::{EditorMeta, IntegrationError, PluginInfo, PluginMeta};
use bevy_map_editor::plugin_manager::{find_plugins_dir, PluginDirEnv, PluginManager};
use bevy_map_editor::project::PropertyValue;
use bevy_map_editor::runtime::{dialogue_id_of, dialogue_to_attach, EntityRegistry};

fn meta(name: &str, version: &str) -> PluginMeta {
    PluginMeta {
        plugin: PluginInfo {
            name: name.to_string(),
            version: version.to_string(),
            description: String::new(),
            applies_to: Vec::new(),
        },
        properties: Vec::new(),
        editor: EditorMeta { inspector_section: None, file_extensions: Vec::new(), contributions: Vec::new() },
    }
}

#[test]
fn default_manager_has_no_plugins() {
    let manager = PluginManager::default();
    assert_eq!(manager.plugins().len(), 0);
}

#[test]
fn load_with_no_dir_is_ok() {
    let mut manager = PluginManager::with_dir(None);
    assert!(manager.load_metadata(true, Vec::new()).is_ok());
}

#[test]
fn load_keeps_one_plugin_per_name() {
    let mut manager = PluginManager::with_dir(Some("/cfg/plugins".to_string()));
    let files = vec![Ok(meta("a", "1")), Ok(meta("b", "1")), Ok(meta("a", "2"))];
    assert!(manager.load_metadata(true, files).is_ok());
    let p = manager.plugins();
    assert_eq!(p.len(), 2);
    assert_eq!(p[0].plugin.name, "a");
    assert_eq!(p[0].plugin.version, "2");
    assert_eq!(p[1].plugin.name, "b");
}

#[test]
fn load_stops_at_the_first_error() {
    let mut manager = PluginManager::with_dir(Some("/cfg/plugins".to_string()));
    let files = vec![
        Ok(meta("a", "1")),
        Err(IntegrationError::ParseError("bad toml".to_string())),
        Ok(meta("b", "1")),
    ];
    match manager.load_metadata(true, files) {
        Err(IntegrationError::ParseError(m)) => assert_eq!(m, "bad toml"),
        other => panic!("unexpected {:?}", other),
    }
    assert_eq!(manager.plugins().len(), 1);
    assert_eq!(manager.plugins()[0].plugin.name, "a");
}

#[test]
fn load_from_missing_dir_clears() {
    let mut manager = PluginManager::with_dir(Some("/cfg/plugins".to_string()));
    manager.store(meta("a", "1"));
    assert_eq!(manager.plugins().len(), 1);
    assert!(manager.load_metadata(false, vec![Ok(meta("b", "1"))]).is_ok());
    assert_eq!(manager.plugins().len(), 0);
}

#[test]
fn plugins_dir_fallback() {
    let env = PluginDirEnv { xdg_config_home: None, home: None, appdata: None };
    assert_eq!(find_plugins_dir(&env, Platform::Linux), Some(".bevy_map/plugins".to_string()));
    let env = PluginDirEnv { xdg_config_home: Some("/x".to_string()), home: None, appdata: None };
    let d = find_plugins_dir(&env, Platform::Windows).unwrap();
    assert!(d == "/x/bevy_map_editor/plugins" || d == "/x\\bevy_map_editor/plugins");
    let home = PluginDirEnv { xdg_config_home: None, home: Some("/home/u".to_string()), appdata: None };
    let d = find_plugins_dir(&home, Platform::MacOs).unwrap();
    assert!(d.ends_with("Library/Application Support/bevy_map_editor/plugins"));
    let d = find_plugins_dir(&home, Platform::Linux).unwrap();
    assert!(d.ends_with(".config/bevy_map_editor/plugins"));
    let m = PluginManager::from_default_config(&env, Platform::Linux).unwrap();
    assert!(m.plugins_dir().is_some());
    assert_eq!(m.plugins().len(), 0);
}

#[test]
fn test_registry_register() {
    let mut registry = EntityRegistry::new();
    assert!(registry.is_empty());

    registry.register("TestEntity");

    assert!(!registry.is_empty());
    assert_eq!(registry.len(), 1);
    assert!(registry.is_registered("TestEntity"));
    assert!(!registry.is_registered("OtherEntity"));
}

#[test]
fn registering_twice_counts_once() {
    let mut registry = EntityRegistry::new();
    registry.register("Npc");
    registry.register("Npc");
    registry.register("Enemy");
    assert_eq!(registry.len(), 2);
    let spawned = vec!["Npc".to_string(), "Chest".to_string(), "Enemy".to_string(), "Door".to_string()];
    assert_eq!(registry.count_unregistered(&spawned), 2);
}

#[test]
fn dialogue_from_properties() {
    let props = vec![
        ("name".to_string(), PropertyValue::String("Bob".to_string())),
        ("dialogue".to_string(), PropertyValue::String(String::new())),
        ("greeting_dialogue".to_string(), PropertyValue::String("intro".to_string())),
        ("dialogue".to_string(), PropertyValue::String("later".to_string())),
    ];
    assert_eq!(dialogue_id_of(&props), Some("intro".to_string()));
    let none = vec![("talk".to_string(), PropertyValue::String("x".to_string())), ("dialogue".to_string(), PropertyValue::Int(3))];
    assert_eq!(dialogue_id_of(&none), None);
}

#[test]
fn dialogue_from_embedded_object() {
    let obj = |fields: Vec<(&str, PropertyValue)>| {
        PropertyValue::Object(fields.into_iter().map(|(k, v)| (k.to_string(), v)).collect())
    };
    let props = vec![
        ("npc_dialogue".to_string(), obj(vec![("title", PropertyValue::String("t".to_string()))])),
        ("dialogue".to_string(), obj(vec![("id", PropertyValue::Int(4))])),
        ("shop_dialogue".to_string(), obj(vec![("lines", PropertyValue::Int(2)), ("id", PropertyValue::String("shop".to_string()))])),
    ];
    assert_eq!(dialogue_id_of(&props), Some("shop".to_string()));
    assert_eq!(dialogue_to_attach(false, &props), Some("shop".to_string()));
    assert_eq!(dialogue_to_attach(true, &props), None);
    let empty_id = vec![("dialogue".to_string(), obj(vec![("id", PropertyValue::String(String::new()))]))];
    assert_eq!(dialogue_id_of(&empty_id), None);
}

#[test]
fn object_values_duplicate_with_their_fields() {
    let v = PropertyValue::Object(vec![
        ("id".to_string(), PropertyValue::String("x".to_string())),
        ("inner".to_string(), PropertyValue::Object(vec![("n".to_string(), PropertyValue::Int(1))])),
    ]);
    assert_eq!(v.duplicate(), v);
}
