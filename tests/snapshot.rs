use std::collections::HashMap;
use std::sync::Arc;

use mcdata_rs::cached_data::{cache_key, get_features, optional, EditionFeatures, IndexedData, SnapshotCache, VersionFiles};
use mcdata_rs::error::McDataError;
use mcdata_rs::features::{Feature, FeatureValue, ResolvedVersions, Scalar, get_feature_support, is_version_in_range, resolve_cached_version};
use mcdata_rs::indexer::{shape_index_of_key, index_block_shapes, index_blocks, index_entities, index_items, index_windows, index_attributes};
use mcdata_rs::strmap::StrMap;
use mcdata_rs::structs::{
    Aabb, Attribute, Block, BlockCollisionShapes, BlockDrop, BlockShapeRef, DropElement, DropType, Entity, Food, Item, Window,
    default_entity_stack_size_range, default_stack_size_range, default_state_id,
};
use mcdata_rs::version::{load_and_index_versions, resolve_version, Edition, EditionVersions, ProtocolVersionInfo, Version};

fn raw_entry(mc: &str, major: &str, protocol: i32, dv: Option<i32>) -> ProtocolVersionInfo {
    ProtocolVersionInfo {
        minecraft_version: mc.to_string(),
        version: protocol,
        data_version: dv,
        uses_netty: true,
        major_version: major.to_string(),
        release_type: "release".to_string(),
    }
}

fn two_editions() -> EditionVersions {
    let raw = vec![
        raw_entry("1.8.8", "1.8", 47, None),
        raw_entry("1.8", "1.8", 47, None),
        raw_entry("1.13.2", "1.13", 404, Some(1631)),
        raw_entry("1.14", "1.14", 477, Some(1952)),
        raw_entry("1.15.2", "1.15", 578, Some(2230)),
        raw_entry("1.16.5", "1.16", 754, Some(2586)),
        raw_entry("1.17", "1.17", 755, Some(2724)),
        raw_entry("1.17.1", "1.17", 756, Some(2730)),
        raw_entry("1.18.2", "1.18", 758, Some(2975)),
        raw_entry("1.19", "1.19", 759, Some(3105)),
        raw_entry("1.20.1", "1.20", 763, Some(3465)),
    ];
    let bedrock = vec![raw_entry("1.19.1", "1.19", 419, Some(10))];
    EditionVersions {
        pc: Ok(load_and_index_versions(Edition::Pc, raw)),
        bedrock: Ok(load_and_index_versions(Edition::Bedrock, bedrock)),
    }
}

fn block(id: u32, name: &str, min: u32, max: u32, default: u32) -> Block {
    Block {
        id,
        name: name.to_string(),
        display_name: name.to_string(),
        hardness: Some(1.5f32.to_bits()),
        resistance: 6.0f32.to_bits(),
        stack_size: 64,
        diggable: true,
        bounding_box: "block".to_string(),
        material: None,
        harvest_tools: Vec::new(),
        variations: None,
        drops: Vec::new(),
        emit_light: 0,
        filter_light: 15,
        transparent: false,
        states: Vec::new(),
        min_state_id: min,
        max_state_id: max,
        default_state: default,
    }
}

fn aabb(c: [f64; 6]) -> Aabb {
    [c[0].to_bits(), c[1].to_bits(), c[2].to_bits(), c[3].to_bits(), c[4].to_bits(), c[5].to_bits()]
}

fn collision() -> BlockCollisionShapes {
    let mut blocks = StrMap::new();
    blocks.insert("air".to_string(), BlockShapeRef::Single(0));
    blocks.insert("stone".to_string(), BlockShapeRef::Single(1));
    blocks.insert("oak_slab".to_string(), BlockShapeRef::Multiple(vec![2, 3, 1]));
    let mut shapes: HashMap<u32, Vec<Aabb>> = HashMap::new();
    shapes.insert(1, vec![aabb([0.0, 0.0, 0.0, 1.0, 1.0, 1.0])]);
    shapes.insert(2, vec![aabb([0.0, 0.0, 0.0, 1.0, 0.5, 1.0])]);
    shapes.insert(3, vec![aabb([0.0, 0.5, 0.0, 1.0, 1.0, 1.0])]);
    BlockCollisionShapes { blocks, shapes }
}

fn item(id: u32, name: &str) -> Item {
    Item {
        id,
        name: name.to_string(),
        display_name: name.to_string(),
        stack_size: 64,
        enchant_categories: None,
        repair_with: None,
        max_durability: None,
        variations: None,
    }
}

fn entity(id: u32, name: &str, kind: &str) -> Entity {
    Entity {
        id,
        internal_id: None,
        name: name.to_string(),
        display_name: name.to_string(),
        entity_type: kind.to_string(),
        width: Some(0.6f32.to_bits()),
        height: Some(1.8f32.to_bits()),
        category: None,
        metadata_keys: Vec::new(),
    }
}

fn empty_files(blocks: Vec<Block>, items: Vec<Item>) -> VersionFiles {
    VersionFiles {
        blocks,
        items,
        biomes: None,
        effects: None,
        entities: None,
        sounds: None,
        particles: None,
        attributes: None,
        instruments: None,
        foods: None,
        enchantments: None,
        map_icons: None,
        windows: None,
        block_loot: None,
        entity_loot: None,
        block_collision_shapes: None,
        tints: None,
        language: None,
        legacy: None,
        recipes: None,
        materials: None,
        commands: None,
        protocol: None,
        protocol_comments: None,
        login_packet: None,
    }
}

fn snapshot(version: &str) -> IndexedData {
    let r = two_editions();
    let v = resolve_version(&r, version).unwrap();
    let blocks = vec![
        block(0, "air", 0, 0, 0),
        block(1, "stone", 1, 1, 1),
        block(2, "oak_slab", 10, 12, 10),
    ];
    let mut files = empty_files(blocks, vec![item(1, "stone"), item(800, "stick")]);
    files.entities = Some(vec![entity(1, "warden", "mob"), entity(2, "boat", "object")]);
    files.foods = Some(vec![Food {
        id: 3,
        name: "apple".to_string(),
        display_name: "Apple".to_string(),
        stack_size: 64,
        food_points: 4.0f32.to_bits(),
        saturation: 2.4f32.to_bits(),
        effective_quality: 6.4f32.to_bits(),
        saturation_ratio: 0.6f32.to_bits(),
        variations: None,
    }]);
    files.block_collision_shapes = Some(collision());
    files.recipes = Some(serde_json::Value::Bool(true));
    IndexedData::load(v, files)
}

#[test]
fn specific_version_snapshot() {
    let data = snapshot("1.18.2");
    assert_eq!(data.version.minecraft_version, "1.18.2");
    assert_eq!(data.version.edition, Edition::Pc);
    let stone = data.block_by_name("stone").expect("stone");
    assert_eq!(stone.id, 1);
    assert_eq!(data.block_by_id(1).unwrap().name, "stone");
    assert!(data.item_by_name("stick").is_some());
    assert_eq!(data.item_by_id(800).unwrap().name, "stick");
    assert_eq!(data.block_by_state_id(stone.default_state).unwrap().name, "stone");
    let shape = data.shapes_of_block("stone").expect("stone shape");
    assert_eq!(shape, &vec![aabb([0.0, 0.0, 0.0, 1.0, 1.0, 1.0])]);
    let apple = data.food_by_name("apple").expect("apple");
    assert_eq!(f32::from_bits(apple.food_points), 4.0);
    assert!(data.recipes.is_some());
    assert!(data.materials.is_none());
    assert!(data.entity_by_name("warden").is_some());
}

#[test]
fn slab_states_have_their_own_shapes() {
    let data = snapshot("1.18.2");
    let slab = data.block_by_name("oak_slab").unwrap();
    assert_eq!(data.shapes_of_block("oak_slab").unwrap(), &vec![aabb([0.0, 0.0, 0.0, 1.0, 0.5, 1.0])]);
    let top = data.shapes_of_state(slab.min_state_id + 1).unwrap();
    assert_eq!(top, &vec![aabb([0.0, 0.5, 0.0, 1.0, 1.0, 1.0])]);
    assert_eq!(f64::from_bits(top[0][1]), 0.5);
    assert!(data.shapes_of_block("air").is_none());
    assert!(data.shapes_of_state(0).is_none());
    assert!(data.shapes_of_block("not_a_real_block").is_none());
}

#[test]
fn legacy_blocks_get_sixteen_states() {
    let mut stone = block(1, "stone", 0, 0, 0);
    stone.drops = vec![BlockDrop::Element(DropElement { drop: DropType::Id(4), min_count: None, max_count: None })];
    let idx = index_blocks(vec![block(0, "air", 0, 0, 0), stone]);
    let s = &idx.blocks[1];
    assert_eq!((s.min_state_id, s.max_state_id, s.default_state), (16, 31, 16));
    match &s.drops[0] {
        BlockDrop::Element(el) => match el.drop {
            DropType::Id(id) => assert_eq!(id, 4),
            _ => panic!("expected a bare id"),
        },
        _ => panic!("expected an element"),
    }
    for st in 16..=31u32 {
        assert_eq!(idx.by_state_id.get(&st), Some(&1));
    }
    assert_eq!(idx.by_state_id.get(&0), Some(&0));
    assert_eq!(idx.by_state_id.get(&32), None);
    // An id past 2^28 wraps as the shift does.
    let big = index_blocks(vec![block(0x1000_0001, "far", 0, 0, 0)]);
    assert_eq!(big.blocks[0].min_state_id, 16);
}

#[test]
fn later_block_owns_shared_states() {
    let idx = index_blocks(vec![block(5, "a", 1, 4, 1), block(6, "b", 3, 6, 3)]);
    assert_eq!(idx.by_state_id.get(&2), Some(&0));
    assert_eq!(idx.by_state_id.get(&3), Some(&1));
    assert_eq!(idx.by_state_id.get(&6), Some(&1));
    let disjoint = index_blocks(vec![block(5, "a", 1, 4, 1), block(6, "b", 5, 6, 5)]);
    for st in 1..=4u32 {
        assert_eq!(disjoint.by_state_id.get(&st), Some(&0));
    }
}

#[test]
fn shapes_skip_missing_and_out_of_range() {
    let mut col = collision();
    col.blocks.insert("ghost".to_string(), BlockShapeRef::Single(99));
    col.blocks.insert("short".to_string(), BlockShapeRef::Multiple(vec![1]));
    let idx = index_blocks(vec![block(3, "ghost", 40, 40, 40), block(4, "short", 50, 51, 51)]);
    let (by_state, by_name) = index_block_shapes(&idx.blocks, &idx.by_state_id, &idx.by_name, &col);
    assert_eq!(by_state.get(&40), None);
    assert_eq!(by_state.get(&50), Some(&1));
    assert_eq!(by_state.get(&51), None);
    assert!(by_name.get_str("ghost").is_none());
    assert!(by_name.get_str("short").is_none());
}

#[test]
fn name_and_id_indexes_keep_the_last_record() {
    let items = vec![item(1, "a"), item(2, "b"), item(1, "c"), item(3, "a")];
    let (by_id, by_name) = index_items(&items);
    assert_eq!(by_id.get(&1), Some(&2));
    assert_eq!(by_name.get_str("a"), Some(&3));
    assert_eq!(by_name.get_str("b"), Some(&1));
    assert_eq!(by_name.len(), 3);
    let ents = vec![entity(1, "zombie", "mob"), entity(2, "boat", "object"), entity(3, "arrow", "projectile")];
    let (_, _, mobs, objects) = index_entities(&ents);
    assert_eq!(mobs.len(), 1);
    assert_eq!(mobs.get(&1), Some(&0));
    assert_eq!(objects.get(&2), Some(&1));
    let windows = vec![Window { id: "minecraft:chest".to_string(), name: "chest".to_string(), slots: Vec::new(), opened_with: Vec::new(), properties: Vec::new() }];
    let (by_wid, by_wname) = index_windows(&windows);
    assert_eq!(by_wid.get_str("minecraft:chest"), Some(&0));
    assert_eq!(by_wname.get_str("chest"), Some(&0));
    let attrs = vec![Attribute { name: "maxHealth".to_string(), resource: "minecraft:generic.max_health".to_string(), default: 20.0f64.to_bits(), min: 0.0f64.to_bits(), max: 1024.0f64.to_bits() }];
    let (an, ar) = index_attributes(&attrs);
    assert_eq!(an.get_str("maxHealth"), Some(&0));
    assert_eq!(ar.get_str("minecraft:generic.max_health"), Some(&0));
}

#[test]
fn defaults_of_missing_fields() {
    assert_eq!(default_state_id(), 0);
    assert_eq!(default_stack_size_range(), vec![Some(1)]);
    assert_eq!(default_entity_stack_size_range(), vec![1]);
}

#[test]
fn optional_files_absent_or_failing() {
    let missing: Result<u8, McDataError> = Err(McDataError::DataPathNotFound { mc_version: "1.18".into(), edition: Edition::Pc, data_key: "tints".into() });
    assert_eq!(optional(missing), Ok(None));
    let no_file: Result<u8, McDataError> = Err(McDataError::DataFileNotFound { data_key: "tints".into(), path: "x".into() });
    assert_eq!(optional(no_file), Ok(None));
    let bad: Result<u8, McDataError> = Err(McDataError::JsonParseError { path: "p".into(), message: "m".into() });
    assert!(matches!(optional(bad), Err(McDataError::JsonParseError { .. })));
    assert_eq!(optional::<u8>(Ok(3)), Ok(Some(3)));
}

#[test]
fn version_comparisons() {
    let r = two_editions();
    let v118 = snapshot("1.18.2");
    let v116 = snapshot("1.16.5");
    assert!(v118.is_newer_or_equal_to(&r, "1.16.5").unwrap());
    assert!(v118.is_newer_or_equal_to(&r, "1.18.2").unwrap());
    assert!(v118.is_newer_or_equal_to(&r, "1.16").unwrap());
    assert!(!v116.is_newer_or_equal_to(&r, "1.18.2").unwrap());
    assert!(!v118.is_newer_or_equal_to(&r, "1.20.1").unwrap());
    assert!(!v118.is_newer_or_equal_to(&r, "1.19").unwrap());
    assert!(v116.is_older_than(&r, "1.18.2").unwrap());
    assert!(v116.is_older_than(&r, "1.17.1").unwrap());
    assert!(!v116.is_older_than(&r, "1.16.5").unwrap());
    assert!(!v116.is_older_than(&r, "1.15.2").unwrap());
    assert!(!v118.is_older_than(&r, "1.18.2").unwrap());
    assert!(matches!(v118.is_older_than(&r, "nope"), Err(McDataError::InvalidVersion(_))));
}

#[test]
fn cross_edition_comparison_fails() {
    let r = two_editions();
    let v = snapshot("1.18.2");
    assert!(matches!(v.is_older_than(&r, "bedrock_1.19.1"), Err(McDataError::Internal(_))));
    assert!(matches!(v.is_newer_or_equal_to(&r, "bedrock_1.19.1"), Err(McDataError::Internal(_))));
}

fn ranged(value: Scalar, min: &str, max: &str) -> FeatureValue {
    FeatureValue { value, version: None, versions: vec![min.to_string(), max.to_string()] }
}

fn features() -> Vec<Feature> {
    vec![
        Feature {
            name: "dimensionIsAnInt".to_string(),
            description: None,
            values: Vec::new(),
            version: None,
            versions: vec!["1.8".to_string(), "1.15.2".to_string()],
        },
        Feature {
            name: "metadataIxOfItem".to_string(),
            description: None,
            values: vec![
                ranged(Scalar::Int(8), "1.8_major", "1.13.2"),
                ranged(Scalar::Int(7), "1.14", "1.16.5"),
                ranged(Scalar::Int(8), "1.17", "latest"),
            ],
            version: None,
            versions: Vec::new(),
        },
        Feature {
            name: "onlyOne".to_string(),
            description: None,
            values: Vec::new(),
            version: Some("1.16.5".to_string()),
            versions: Vec::new(),
        },
        Feature {
            name: "onlyOne".to_string(),
            description: Some("later definition wins".to_string()),
            values: Vec::new(),
            version: Some("1.17.1".to_string()),
            versions: Vec::new(),
        },
        Feature {
            name: "broken".to_string(),
            description: None,
            values: Vec::new(),
            version: None,
            versions: vec!["1.8".to_string(), "not_a_version".to_string()],
        },
        Feature {
            name: "newestMajor".to_string(),
            description: None,
            values: vec![ranged(Scalar::Str("x".to_string()), "1.17_major", "1.17_major")],
            version: None,
            versions: Vec::new(),
        },
    ]
}

fn eval(version: &str, name: &str) -> Result<Scalar, McDataError> {
    let r = two_editions();
    let data = snapshot(version);
    let mut cache = ResolvedVersions::new();
    let fs = EditionFeatures { pc: Ok(features()), bedrock: Err("absent".to_string()) };
    data.support_feature(&mut cache, &r, &fs, name)
}

#[test]
fn feature_evaluation() {
    assert_eq!(eval("1.15.2", "dimensionIsAnInt").unwrap(), Scalar::Bool(true));
    assert_eq!(eval("1.18.2", "dimensionIsAnInt").unwrap(), Scalar::Bool(false));
    assert_eq!(eval("1.15.2", "metadataIxOfItem").unwrap(), Scalar::Int(7));
    assert_eq!(eval("1.18.2", "metadataIxOfItem").unwrap(), Scalar::Int(8));
    assert_eq!(eval("1.8.8", "metadataIxOfItem").unwrap(), Scalar::Int(8));
    assert_eq!(eval("1.8.8", "someRandomFeatureName").unwrap(), Scalar::Bool(false));
    assert_eq!(eval("1.16.5", "onlyOne").unwrap(), Scalar::Bool(false));
    assert_eq!(eval("1.17.1", "onlyOne").unwrap(), Scalar::Bool(true));
    assert_eq!(eval("1.17.1", "newestMajor").unwrap(), Scalar::Str("x".to_string()));
    // Protocol 755 is 1.17 itself ("1.17" as a major names 1.17.1).
    assert_eq!(eval("755", "newestMajor").unwrap(), Scalar::Str("x".to_string()));
    assert_eq!(eval("1.16.5", "newestMajor").unwrap(), Scalar::Bool(false));
    assert!(eval("1.18.2", "broken").is_err());
}

#[test]
fn feature_support_from_a_plain_list() {
    let r = two_editions();
    let v: Version = resolve_version(&r, "1.15.2").unwrap();
    let mut cache = ResolvedVersions::new();
    let fs = features();
    assert_eq!(get_feature_support(&mut cache, &r, &fs, &v, "metadataIxOfItem").unwrap(), Scalar::Int(7));
    // A second evaluation goes through the cache of resolved versions.
    assert_eq!(get_feature_support(&mut cache, &r, &fs, &v, "metadataIxOfItem").unwrap(), Scalar::Int(7));
}

#[test]
fn features_of_a_failed_edition_are_a_cached_error() {
    let fs = EditionFeatures { pc: Ok(features()), bedrock: Err("absent".to_string()) };
    assert!(matches!(get_features(&fs, Edition::Bedrock), Err(McDataError::CachedError(m)) if m == "absent"));
    assert_eq!(get_features(&fs, Edition::Pc).unwrap().len(), 6);
}

#[test]
fn range_endpoints() {
    let r = two_editions();
    let mut cache = ResolvedVersions::new();
    let v = resolve_version(&r, "755").unwrap();
    assert_eq!(v.minecraft_version, "1.17");
    assert!(is_version_in_range(&mut cache, &r, &v, "1.17_major", "1.17_major").unwrap());
    assert!(!is_version_in_range(&mut cache, &r, &v, "1.17.1", "latest").unwrap());
    assert!(is_version_in_range(&mut cache, &r, &v, "1.8", "latest").unwrap());
    // "1.17" as an end is the major key: the newest release 1.17.1.
    assert!(!is_version_in_range(&mut cache, &r, &v, "1.17", "1.17").unwrap());
    assert!(is_version_in_range(&mut cache, &r, &v, "1.16.5", "1.17").unwrap());
    assert!(is_version_in_range(&mut cache, &r, &v, "1.99_major", "latest").is_err());
    assert!(matches!(resolve_cached_version(&mut cache, &r, Edition::Pc, "bedrock_1.19.1"), Err(McDataError::Internal(_))));
    assert_eq!(resolve_cached_version(&mut cache, &r, Edition::Pc, "1.17.1").unwrap().data_version, 2730);
    assert_eq!(resolve_cached_version(&mut cache, &r, Edition::Pc, "1.17.1").unwrap().data_version, 2730);
}

#[test]
fn cache_keys_and_snapshot_cache() {
    let r = two_editions();
    let a = resolve_version(&r, "1.17.1").unwrap();
    let b = resolve_version(&r, "pc_1.17.1").unwrap();
    assert_eq!(cache_key(&a), "pc_1.17.1");
    assert_eq!(cache_key(&a), cache_key(&b));
    let mut cache: SnapshotCache<Arc<String>> = SnapshotCache::new();
    let first = Arc::new("first".to_string());
    cache.insert_if_absent(cache_key(&a), first.clone());
    cache.insert_if_absent(cache_key(&b), Arc::new("second".to_string()));
    let got = cache.get(&cache_key(&b)).unwrap();
    assert!(Arc::ptr_eq(got, &first));
    assert!(cache.get(&"pc_1.18.2".to_string()).is_none());
}

#[test]
fn shape_table_keys() {
    assert_eq!(shape_index_of_key("0"), Some(0));
    assert_eq!(shape_index_of_key("17"), Some(17));
    assert_eq!(shape_index_of_key("4294967295"), Some(u32::MAX));
    assert_eq!(shape_index_of_key("4294967296"), None);
    assert_eq!(shape_index_of_key("017"), None);
    assert_eq!(shape_index_of_key("+17"), None);
    assert_eq!(shape_index_of_key(""), None);
    assert_eq!(shape_index_of_key("a"), None);
}
