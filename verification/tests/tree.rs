use bevy_map_editor::integration::{
    ContextMenuTarget, ContributionDef, EditorMeta, IntegrationRegistry, PluginInfo, PluginMeta,
};
use bevy_map_editor::map::{EntityInstance, Layer, LayerData, Level, Position};
use bevy_map_editor::menu::integration_context_items;
use bevy_map_editor::tree::{bulk_delete_count, layer_label, rename_outcome, RenameOutcome};

fn entity(id: u128) -> EntityInstance {
    EntityInstance { id, entity_type: "NPC".to_string(), position: Position { x_bits: 0, y_bits: 0 } }
}

#[test]
fn layer_labels() {
    let level = Level {
        id: 1,
        name: "L".to_string(),
        width: 1,
        height: 1,
        layers: vec![
            Layer { name: "Ground".to_string(), data: LayerData::Tiles { tiles: vec![None] } },
            Layer { name: "Actors".to_string(), data: LayerData::Objects { entities: vec![10, 12, 99] } },
            Layer { name: "Empty".to_string(), data: LayerData::Objects { entities: vec![] } },
        ],
        entities: vec![entity(10), entity(11), entity(12)],
    };
    assert_eq!(layer_label(&level, 0), Some("[Tile] Ground".to_string()));
    assert_eq!(layer_label(&level, 1), Some("[Object] Actors (2)".to_string()));
    assert_eq!(layer_label(&level, 2), Some("[Object] Empty".to_string()));
    assert_eq!(layer_label(&level, 3), None);
}

#[test]
fn renames_and_bulk_deletes() {
    assert_eq!(rename_outcome(true, "Boss", true), RenameOutcome { commit: Some("Boss".to_string()), cancel: true });
    assert_eq!(rename_outcome(true, "", true), RenameOutcome { commit: None, cancel: true });
    assert_eq!(rename_outcome(true, "", false), RenameOutcome { commit: Some(String::new()), cancel: true });
    assert_eq!(rename_outcome(false, "Boss", false), RenameOutcome { commit: None, cancel: true });
    assert_eq!(bulk_delete_count(&vec![1, 2, 3], 2), Some(3));
    assert_eq!(bulk_delete_count(&vec![2], 2), None);
    assert_eq!(bulk_delete_count(&vec![1, 3], 2), None);
}

#[test]
fn context_menu_items_by_target() {
    let mut registry = IntegrationRegistry::new();
    registry.register_plugin(PluginMeta {
        plugin: PluginInfo { name: "p".to_string(), version: String::new(), description: String::new(), applies_to: Vec::new() },
        properties: Vec::new(),
        editor: EditorMeta {
            inspector_section: None,
            file_extensions: Vec::new(),
            contributions: vec![
                ContributionDef::ContextMenu { target: "entity".to_string(), name: "Inspect".to_string() },
                ContributionDef::ContextMenu { target: "layer".to_string(), name: "Fill".to_string() },
                ContributionDef::Panel { name: "Stats".to_string() },
                ContributionDef::ContextMenu { target: "Entity".to_string(), name: "Clone".to_string() },
            ],
        },
    });
    assert_eq!(
        integration_context_items(&registry, ContextMenuTarget::Entity),
        vec!["Inspect".to_string(), "Clone".to_string()]
    );
    assert_eq!(integration_context_items(&registry, ContextMenuTarget::Layer), vec!["Fill".to_string()]);
}
