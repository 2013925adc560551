use bevy_map_editor::map::{EntityInstance, Layer, LayerData, Level, Position};
use bevy_map_editor::menu::{project_title, title_for};
use bevy_map_editor::project::{
    DataInstance, DataStore, DialogueTree, Project, PropertyValue, Schema, SchemaProject, SpriteSheet,
};

fn project() -> Project {
    Project::new(Schema { project: SchemaProject { name: "Demo".to_string() } })
}

fn level(id: u128, name: &str, types: &[&str]) -> Level {
    Level {
        id,
        name: name.to_string(),
        width: 2,
        height: 2,
        layers: vec![Layer { name: "Ground".to_string(), data: LayerData::Tiles { tiles: vec![Some(1), None, None, Some(2)] } }],
        entities: types
            .iter()
            .enumerate()
            .map(|(i, t)| EntityInstance {
                id: id * 10 + i as u128,
                entity_type: t.to_string(),
                position: Position { x_bits: 0, y_bits: 0 },
            })
            .collect(),
    }
}

fn instance(id: u128, data_type: &str, props: Vec<(&str, PropertyValue)>) -> DataInstance {
    DataInstance {
        id,
        data_type: data_type.to_string(),
        properties: props.into_iter().map(|(k, v)| (k.to_string(), v)).collect(),
    }
}

#[test]
fn new_project_is_clean() {
    let p = project();
    assert!(!p.is_dirty());
    assert_eq!(p.version, 1);
    assert_eq!(p.name(), "Demo");
    assert_eq!(project_title(&p), "Demo");
}

#[test]
fn name_comes_from_the_path_stem() {
    let mut p = project();
    p.path = Some("/maps/castle.map.json".to_string());
    assert_eq!(p.name(), "castle.map");
    p.path = Some("keep.tar.gz".to_string());
    assert_eq!(p.name(), "keep.tar");
    p.path = Some(".hidden".to_string());
    assert_eq!(p.name(), ".hidden");
    p.path = Some("castle.map.json".to_string());
    p.mark_dirty();
    assert_eq!(project_title(&p), "castle.map *");
    assert_eq!(title_for("x".to_string(), false), "x");
    assert_eq!(title_for("x".to_string(), true), "x *");
}

#[test]
fn levels_add_get_remove_duplicate() {
    let mut p = project();
    p.add_level(level(1, "One", &["NPC", "Chest", "NPC"]));
    p.add_level(level(2, "Two", &["NPC"]));
    assert!(p.is_dirty());
    assert_eq!(p.get_level(2).unwrap().name, "Two");
    assert!(p.get_level(3).is_none());
    assert_eq!(p.count_entities_of_type("NPC"), 3);
    assert_eq!(p.count_entities_of_type("Chest"), 1);
    assert_eq!(p.count_entities_of_type("Door"), 0);

    let copy = p.duplicate_level(1).unwrap();
    assert_ne!(copy, 1);
    let c = p.get_level(copy).unwrap();
    assert_eq!(c.name, "One (Copy)");
    assert_eq!(c.entities.len(), 3);
    assert_eq!(c.get_tile(0, 1, 1), Some(2));
    assert_eq!(p.levels.len(), 3);
    assert!(p.duplicate_level(77).is_none());

    let removed = p.remove_level(2).unwrap();
    assert_eq!(removed.name, "Two");
    assert!(p.remove_level(2).is_none());
    assert_eq!(p.levels.len(), 2);
}

#[test]
fn data_instances_and_duplicates() {
    let mut p = project();
    p.add_data_instance(instance(5, "Item", vec![("name", PropertyValue::String("Sword".to_string())), ("power", PropertyValue::Int(3))]));
    p.add_data_instance(instance(6, "Quest", vec![]));
    p.add_data_instance(instance(7, "Item", vec![("name", PropertyValue::Int(1))]));
    assert_eq!(p.get_data_instance(6).unwrap().data_type, "Quest");
    assert_eq!(p.data.get_by_type(&"Item".to_string()).len(), 2);
    assert_eq!(p.data.get_by_type(&"Npc".to_string()).len(), 0);
    assert_eq!(p.data.all_instances().len(), 3);

    let copy = p.duplicate_data_instance(5).unwrap();
    let c = p.get_data_instance(copy).unwrap();
    assert_eq!(c.properties[0].1, PropertyValue::String("Sword (Copy)".to_string()));
    assert_eq!(c.properties[1].1, PropertyValue::Int(3));
    assert_eq!(c.display_name(), "Sword (Copy)");
    assert_eq!((copy >> 76) & 0xf, 4);

    // A name that is not text stays as it is; the list shows the id's start.
    let copy7 = p.duplicate_data_instance(7).unwrap();
    assert_eq!(p.get_data_instance(copy7).unwrap().properties[0].1, PropertyValue::Int(1));
    let shown = instance(0x0123_4567_89ab_cdef_0011_2233_4455_6677, "Item", vec![]).display_name();
    assert_eq!(shown, "01234567");

    if let Some(d) = p.get_data_instance_mut(6) {
        d.properties.push(("done".to_string(), PropertyValue::Bool(true)));
    }
    assert_eq!(p.get_data_instance(6).unwrap().properties.len(), 1);
    assert_eq!(p.remove_data_instance(6).unwrap().id, 6);
    assert!(p.get_data_instance(6).is_none());
    assert!(p.remove_data_instance(6).is_none());
    assert!(p.duplicate_data_instance(6).is_none());
}

#[test]
fn data_store_groups_by_type() {
    let mut store = DataStore::new();
    store.add(DataInstance::new("Npc".to_string()));
    store.add(DataInstance::new("Npc".to_string()));
    store.add(DataInstance::new("Item".to_string()));
    assert_eq!(store.instances.len(), 2);
    assert_eq!(store.instances[0].0, "Npc");
    assert_eq!(store.instances[0].1.len(), 2);
    let id = store.instances[1].1[0].id;
    assert!(store.get(id).is_some());
    assert!(store.remove(id).is_some());
    assert!(store.get(id).is_none());
}

#[test]
fn sprite_sheets_and_dialogues() {
    let mut p = project();
    p.add_sprite_sheet(SpriteSheet { id: 1, name: "Hero".to_string(), sheet_path: "hero.png".to_string() });
    assert_eq!(p.get_sprite_sheet(1).unwrap().name, "Hero");
    if let Some(s) = p.get_sprite_sheet_mut(1) {
        s.name = "Heroine".to_string();
    }
    assert_eq!(p.get_sprite_sheet(1).unwrap().name, "Heroine");
    assert!(p.remove_sprite_sheet(1).is_some());
    assert!(p.get_sprite_sheet(1).is_none());

    p.add_dialogue(DialogueTree { id: "intro".to_string(), name: "Intro".to_string() });
    assert_eq!(p.get_dialogue("intro").unwrap().name, "Intro");
    assert!(p.get_dialogue("outro").is_none());
    if let Some(d) = p.get_dialogue_mut("intro") {
        d.name = "Opening".to_string();
    }
    assert_eq!(p.remove_dialogue("intro").unwrap().name, "Opening");
    assert!(p.remove_dialogue("intro").is_none());
}
