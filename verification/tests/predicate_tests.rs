use region_scan::predicate::get_coordinate_if_contains_entities;
use region_scan::tags::{TagCompound, TagEntry, TagError, TagValue};
use region_scan::ScanError;

fn entry(key: &str, value: TagValue) -> TagEntry {
    TagEntry { key: key.as_bytes().to_vec(), value }
}

fn empty_compound() -> TagCompound {
    TagCompound { entries: Vec::new() }
}

/// A chunk whose `Level` holds the given coordinate and record lists.
fn chunk(x: i32, z: i32, entities: Vec<TagCompound>, tile_entities: Vec<TagCompound>) -> TagCompound {
    let level = TagCompound {
        entries: vec![
            entry("xPos", TagValue::Int(x)),
            entry("zPos", TagValue::Int(z)),
            entry("Entities", TagValue::CompoundList(entities)),
            entry("TileEntities", TagValue::CompoundList(tile_entities)),
        ],
    };
    TagCompound { entries: vec![entry("Level", TagValue::Compound(level))] }
}

#[test]
fn entity_list_nonempty_yields_coordinate() {
    let c = chunk(3, 4, vec![empty_compound()], vec![]);
    let r = get_coordinate_if_contains_entities(&c).unwrap().unwrap();
    assert_eq!(r.x, 3);
    assert_eq!(r.z, 4);
}

#[test]
fn tile_entity_list_nonempty_yields_coordinate() {
    let c = chunk(-7, 12, vec![], vec![empty_compound()]);
    let r = get_coordinate_if_contains_entities(&c).unwrap().unwrap();
    assert_eq!(r.x, -7);
    assert_eq!(r.z, 12);
}

#[test]
fn both_lists_nonempty_yields_coordinate() {
    let c = chunk(0, 0, vec![empty_compound()], vec![empty_compound()]);
    let r = get_coordinate_if_contains_entities(&c).unwrap().unwrap();
    assert_eq!(r.x, 0);
    assert_eq!(r.z, 0);
}

#[test]
fn both_lists_empty_yields_none() {
    let c = chunk(3, 4, vec![], vec![]);
    let r = get_coordinate_if_contains_entities(&c).unwrap();
    assert!(r.is_none());
}

#[test]
fn missing_level_is_malformed() {
    let c = empty_compound();
    let r = get_coordinate_if_contains_entities(&c);
    assert!(matches!(r, Err(ScanError::MalformedChunk)));
}

#[test]
fn level_of_wrong_type_is_malformed() {
    let c = TagCompound { entries: vec![entry("Level", TagValue::Int(1))] };
    let r = get_coordinate_if_contains_entities(&c);
    assert!(matches!(r, Err(ScanError::MalformedChunk)));
}

#[test]
fn missing_x_pos_is_malformed() {
    let level = TagCompound {
        entries: vec![
            entry("zPos", TagValue::Int(4)),
            entry("Entities", TagValue::CompoundList(vec![])),
            entry("TileEntities", TagValue::CompoundList(vec![])),
        ],
    };
    let c = TagCompound { entries: vec![entry("Level", TagValue::Compound(level))] };
    let r = get_coordinate_if_contains_entities(&c);
    assert!(matches!(r, Err(ScanError::MalformedChunk)));
}

#[test]
fn x_pos_of_wrong_type_is_malformed() {
    let level = TagCompound {
        entries: vec![
            entry("xPos", TagValue::Other),
            entry("zPos", TagValue::Int(4)),
            entry("Entities", TagValue::CompoundList(vec![])),
            entry("TileEntities", TagValue::CompoundList(vec![])),
        ],
    };
    let c = TagCompound { entries: vec![entry("Level", TagValue::Compound(level))] };
    let r = get_coordinate_if_contains_entities(&c);
    assert!(matches!(r, Err(ScanError::MalformedChunk)));
}

#[test]
fn missing_entities_list_is_malformed() {
    let level = TagCompound {
        entries: vec![
            entry("xPos", TagValue::Int(3)),
            entry("zPos", TagValue::Int(4)),
            entry("TileEntities", TagValue::CompoundList(vec![])),
        ],
    };
    let c = TagCompound { entries: vec![entry("Level", TagValue::Compound(level))] };
    let r = get_coordinate_if_contains_entities(&c);
    assert!(matches!(r, Err(ScanError::MalformedChunk)));
}

#[test]
fn typed_accessors_report_absence_and_mismatch() {
    let t = TagCompound {
        entries: vec![entry("a", TagValue::Int(5)), entry("b", TagValue::Other)],
    };
    assert_eq!(t.get_i32(&b"a".to_vec()), Ok(5));
    assert_eq!(t.get_i32(&b"b".to_vec()), Err(TagError::WrongType));
    assert_eq!(t.get_i32(&b"c".to_vec()), Err(TagError::NotFound));
    assert!(matches!(t.get_compound_tag(&b"a".to_vec()), Err(TagError::WrongType)));
    assert!(matches!(t.get_compound_tag_vec(&b"c".to_vec()), Err(TagError::NotFound)));
}

#[test]
fn first_entry_wins_on_duplicate_names() {
    let t = TagCompound {
        entries: vec![entry("a", TagValue::Int(1)), entry("a", TagValue::Int(2))],
    };
    assert_eq!(t.get_i32(&b"a".to_vec()), Ok(1));
}
