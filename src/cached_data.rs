//! The indexed snapshot of one version's data, the choices made while
//! loading it, and the cache of snapshots by version.
use vstd::prelude::*;
use std::collections::HashMap;
use crate::error::McDataError;
use crate::features::{Feature, ResolvedVersions, Scalar, feature_spec, get_feature_support};
use crate::indexer::{
    alt_index, id_index, index_attributes, index_biomes, index_block_loot, index_block_shapes,
    index_blocks, index_effects, index_enchantments, index_entities, index_entity_loot,
    index_foods, index_instruments, index_items, index_map_icons, index_particles, index_sounds,
    index_windows, mob_word, name_index, object_word, shapes_by_name_spec, shapes_by_state_spec,
    state_index, typed_id_index, with_states,
};
use crate::strmap::StrMap;
use crate::structs::{
    Aabb, Attribute, Biome, Block, BlockCollisionShapes, BlockLoot, Effect, Enchantment, Entity,
    EntityLoot, Food, Instrument, Item, Legacy, MapIcon, Particle, Sound, Tints, Window,
};
use crate::version::{
    Edition, EditionVersions, Version, edition_token, resolve_in_spec, resolve_version,
    split_edition,
};
use vstd::string::StringExecFns;

verus! {

broadcast use vstd::std_specs::hash::group_hash_axioms;

/// `serde_json::Value`: a JSON document kept as it was read (recipes,
/// materials, commands, protocol). The library only carries it.
#[verifier::external_type_specification]
#[verifier::external_body]
pub struct ExJsonValue(serde_json::Value);

/// An optional data file's load result: a file that is absent for this
/// version (no entry in `dataPaths.json`, or no file of that stem) counts
/// as missing; any other failure stands.
pub fn optional<T>(loaded: Result<T, McDataError>) -> (r: Result<Option<T>, McDataError>)
    ensures
        match loaded {
            Ok(v) => r == Ok::<Option<T>, McDataError>(Some(v)),
            Err(e) => if e.spec_is_missing_file() {
                r == Ok::<Option<T>, McDataError>(None)
            } else {
                r == Err::<Option<T>, McDataError>(e)
            },
        },
{
    match loaded {
        Ok(v) => Ok(Some(v)),
        Err(e) => {
            if e.is_missing_file() {
                Ok(None)
            } else {
                Err(e)
            }
        },
    }
}

/// The files of one version as read: the required block and item lists,
/// and each optional file where the version has it.
#[derive(Debug)]
pub struct VersionFiles {
    pub blocks: Vec<Block>,
    pub items: Vec<Item>,
    pub biomes: Option<Vec<Biome>>,
    pub effects: Option<Vec<Effect>>,
    pub entities: Option<Vec<Entity>>,
    pub sounds: Option<Vec<Sound>>,
    pub particles: Option<Vec<Particle>>,
    pub attributes: Option<Vec<Attribute>>,
    pub instruments: Option<Vec<Instrument>>,
    pub foods: Option<Vec<Food>>,
    pub enchantments: Option<Vec<Enchantment>>,
    pub map_icons: Option<Vec<MapIcon>>,
    pub windows: Option<Vec<Window>>,
    pub block_loot: Option<Vec<BlockLoot>>,
    pub entity_loot: Option<Vec<EntityLoot>>,
    pub block_collision_shapes: Option<BlockCollisionShapes>,
    pub tints: Option<Tints>,
    pub language: Option<HashMap<String, String>>,
    pub legacy: Option<Legacy>,
    pub recipes: Option<serde_json::Value>,
    pub materials: Option<serde_json::Value>,
    pub commands: Option<serde_json::Value>,
    pub protocol: Option<serde_json::Value>,
    pub protocol_comments: Option<serde_json::Value>,
    pub login_packet: Option<serde_json::Value>,
}

/// The list of an optional file, empty where the version lacks it.
pub open spec fn or_empty<T>(o: Option<Vec<T>>) -> Seq<T> {
    match o {
        Some(v) => v@,
        None => Seq::empty(),
    }
}

fn unwrap_list<T>(o: Option<Vec<T>>) -> (r: Vec<T>)
    ensures
        r@ == or_empty(o),
{
    match o {
        Some(v) => v,
        None => Vec::new(),
    }
}

/// All data of one version, with its lookup tables. Each table maps a key
/// to the position of the record in its list (the last record wins where
/// records share a key).
#[derive(Debug)]
pub struct IndexedData {
    pub version: Version,
    /// The blocks, with state ranges filled in where the source lacks them.
    pub blocks_array: Vec<Block>,
    pub blocks_by_id: HashMap<u32, usize>,
    pub blocks_by_name: StrMap<usize>,
    pub blocks_by_state_id: HashMap<u32, usize>,
    pub items_array: Vec<Item>,
    pub items_by_id: HashMap<u32, usize>,
    pub items_by_name: StrMap<usize>,
    pub biomes_array: Vec<Biome>,
    pub biomes_by_id: HashMap<u32, usize>,
    pub biomes_by_name: StrMap<usize>,
    pub effects_array: Vec<Effect>,
    pub effects_by_id: HashMap<u32, usize>,
    pub effects_by_name: StrMap<usize>,
    pub entities_array: Vec<Entity>,
    pub entities_by_id: HashMap<u32, usize>,
    pub entities_by_name: StrMap<usize>,
    /// Entities of type `mob`.
    pub mobs_by_id: HashMap<u32, usize>,
    /// Entities of type `object`.
    pub objects_by_id: HashMap<u32, usize>,
    pub sounds_array: Vec<Sound>,
    pub sounds_by_id: HashMap<u32, usize>,
    pub sounds_by_name: StrMap<usize>,
    pub particles_array: Vec<Particle>,
    pub particles_by_id: HashMap<u32, usize>,
    pub particles_by_name: StrMap<usize>,
    pub attributes_array: Vec<Attribute>,
    pub attributes_by_name: StrMap<usize>,
    pub attributes_by_resource: StrMap<usize>,
    pub instruments_array: Vec<Instrument>,
    pub instruments_by_id: HashMap<u32, usize>,
    pub instruments_by_name: StrMap<usize>,
    pub foods_array: Vec<Food>,
    pub foods_by_id: HashMap<u32, usize>,
    pub foods_by_name: StrMap<usize>,
    pub enchantments_array: Vec<Enchantment>,
    pub enchantments_by_id: HashMap<u32, usize>,
    pub enchantments_by_name: StrMap<usize>,
    pub map_icons_array: Vec<MapIcon>,
    pub map_icons_by_id: HashMap<u32, usize>,
    pub map_icons_by_name: StrMap<usize>,
    pub windows_array: Vec<Window>,
    pub windows_by_id: StrMap<usize>,
    pub windows_by_name: StrMap<usize>,
    pub block_loot_array: Vec<BlockLoot>,
    pub block_loot_by_name: StrMap<usize>,
    pub entity_loot_array: Vec<EntityLoot>,
    pub entity_loot_by_name: StrMap<usize>,
    /// State id to the shape index (in the collision data) of its boxes.
    pub block_shapes_by_state_id: HashMap<u32, u32>,
    /// Block name to the shape index of its default state's boxes.
    pub block_shapes_by_name: StrMap<u32>,
    pub block_collision_shapes_raw: Option<BlockCollisionShapes>,
    pub tints: Option<Tints>,
    pub language: HashMap<String, String>,
    pub legacy: Option<Legacy>,
    pub recipes: Option<serde_json::Value>,
    pub materials: Option<serde_json::Value>,
    pub commands: Option<serde_json::Value>,
    pub protocol: Option<serde_json::Value>,
    pub protocol_comments: Option<serde_json::Value>,
    pub login_packet: Option<serde_json::Value>,
}

impl IndexedData {
    /// Every table is the index of its list.
    pub open spec fn wf(&self) -> bool {
        &&& self.blocks_array@.len() <= usize::MAX
        &&& self.blocks_by_id@ == id_index(self.blocks_array@)
        &&& self.blocks_by_name.wf() && self.blocks_by_name@ == name_index(self.blocks_array@)
        &&& self.blocks_by_state_id@ == state_index(self.blocks_array@)
        &&& self.items_by_id@ == id_index(self.items_array@)
        &&& self.items_by_name.wf() && self.items_by_name@ == name_index(self.items_array@)
        &&& self.biomes_by_id@ == id_index(self.biomes_array@)
        &&& self.biomes_by_name.wf() && self.biomes_by_name@ == name_index(self.biomes_array@)
        &&& self.effects_by_id@ == id_index(self.effects_array@)
        &&& self.effects_by_name.wf() && self.effects_by_name@ == name_index(self.effects_array@)
        &&& self.entities_by_id@ == id_index(self.entities_array@)
        &&& self.entities_by_name.wf() && self.entities_by_name@ == name_index(
            self.entities_array@,
        )
        &&& self.mobs_by_id@ == typed_id_index(self.entities_array@, mob_word())
        &&& self.objects_by_id@ == typed_id_index(self.entities_array@, object_word())
        &&& self.sounds_by_id@ == id_index(self.sounds_array@)
        &&& self.sounds_by_name.wf() && self.sounds_by_name@ == name_index(self.sounds_array@)
        &&& self.particles_by_id@ == id_index(self.particles_array@)
        &&& self.particles_by_name.wf() && self.particles_by_name@ == name_index(
            self.particles_array@,
        )
        &&& self.attributes_by_name.wf() && self.attributes_by_name@ == name_index(
            self.attributes_array@,
        )
        &&& self.attributes_by_resource.wf() && self.attributes_by_resource@ == alt_index(
            self.attributes_array@,
        )
        &&& self.instruments_by_id@ == id_index(self.instruments_array@)
        &&& self.instruments_by_name.wf() && self.instruments_by_name@ == name_index(
            self.instruments_array@,
        )
        &&& self.foods_by_id@ == id_index(self.foods_array@)
        &&& self.foods_by_name.wf() && self.foods_by_name@ == name_index(self.foods_array@)
        &&& self.enchantments_by_id@ == id_index(self.enchantments_array@)
        &&& self.enchantments_by_name.wf() && self.enchantments_by_name@ == name_index(
            self.enchantments_array@,
        )
        &&& self.map_icons_by_id@ == id_index(self.map_icons_array@)
        &&& self.map_icons_by_name.wf() && self.map_icons_by_name@ == name_index(
            self.map_icons_array@,
        )
        &&& self.windows_by_id.wf() && self.windows_by_id@ == alt_index(self.windows_array@)
        &&& self.windows_by_name.wf() && self.windows_by_name@ == name_index(self.windows_array@)
        &&& self.block_loot_by_name.wf() && self.block_loot_by_name@ == name_index(
            self.block_loot_array@,
        )
        &&& self.entity_loot_by_name.wf() && self.entity_loot_by_name@ == name_index(
            self.entity_loot_array@,
        )
        &&& self.block_shapes_by_name.wf()
        &&& match self.block_collision_shapes_raw {
            Some(col) => {
                &&& col.blocks.wf()
                &&& self.block_shapes_by_state_id@ == shapes_by_state_spec(self.blocks_array@, col)
                &&& self.block_shapes_by_name@ == shapes_by_name_spec(
                    self.blocks_array@,
                    self.blocks_by_name@,
                    self.block_shapes_by_state_id@,
                )
            },
            None => {
                &&& self.block_shapes_by_state_id@ == Map::<u32, u32>::empty()
                &&& self.block_shapes_by_name@ == Map::<Seq<char>, u32>::empty()
            },
        }
    }

    /// Indexes the files of `version`. Optional lists that the version lacks
    /// are empty; without collision data the shape tables are empty.
    pub fn load(version: Version, files: VersionFiles) -> (r: IndexedData)
        requires
            files.block_collision_shapes matches Some(col) ==> col.blocks.wf(),
        ensures
            r.wf(),
            r.version == version,
            r.blocks_array@ == files.blocks@.map_values(|b: Block| with_states(b)),
            r.items_array@ == files.items@,
            r.biomes_array@ == or_empty(files.biomes),
            r.effects_array@ == or_empty(files.effects),
            r.entities_array@ == or_empty(files.entities),
            r.sounds_array@ == or_empty(files.sounds),
            r.particles_array@ == or_empty(files.particles),
            r.attributes_array@ == or_empty(files.attributes),
            r.instruments_array@ == or_empty(files.instruments),
            r.foods_array@ == or_empty(files.foods),
            r.enchantments_array@ == or_empty(files.enchantments),
            r.map_icons_array@ == or_empty(files.map_icons),
            r.windows_array@ == or_empty(files.windows),
            r.block_loot_array@ == or_empty(files.block_loot),
            r.entity_loot_array@ == or_empty(files.entity_loot),
            r.block_collision_shapes_raw == files.block_collision_shapes,
            r.tints == files.tints,
            r.language@ == match files.language {
                Some(l) => l@,
                None => Map::<String, String>::empty(),
            },
            r.legacy == files.legacy,
            r.recipes == files.recipes,
            r.materials == files.materials,
            r.commands == files.commands,
            r.protocol == files.protocol,
            r.protocol_comments == files.protocol_comments,
            r.login_packet == files.login_packet,
    {
        let blocks = index_blocks(files.blocks);
        let block_count: usize = blocks.blocks.len();
        let items = files.items;
        let (items_by_id, items_by_name) = index_items(&items);
        let biomes = unwrap_list(files.biomes);
        let (biomes_by_id, biomes_by_name) = index_biomes(&biomes);
        let effects = unwrap_list(files.effects);
        let (effects_by_id, effects_by_name) = index_effects(&effects);
        let entities = unwrap_list(files.entities);
        let (entities_by_id, entities_by_name, mobs_by_id, objects_by_id) = index_entities(
            &entities,
        );
        let sounds = unwrap_list(files.sounds);
        let (sounds_by_id, sounds_by_name) = index_sounds(&sounds);
        let particles = unwrap_list(files.particles);
        let (particles_by_id, particles_by_name) = index_particles(&particles);
        let attributes = unwrap_list(files.attributes);
        let (attributes_by_name, attributes_by_resource) = index_attributes(&attributes);
        let instruments = unwrap_list(files.instruments);
        let (instruments_by_id, instruments_by_name) = index_instruments(&instruments);
        let foods = unwrap_list(files.foods);
        let (foods_by_id, foods_by_name) = index_foods(&foods);
        let enchantments = unwrap_list(files.enchantments);
        let (enchantments_by_id, enchantments_by_name) = index_enchantments(&enchantments);
        let map_icons = unwrap_list(files.map_icons);
        let (map_icons_by_id, map_icons_by_name) = index_map_icons(&map_icons);
        let windows = unwrap_list(files.windows);
        let (windows_by_id, windows_by_name) = index_windows(&windows);
        let block_loot = unwrap_list(files.block_loot);
        let block_loot_by_name = index_block_loot(&block_loot);
        let entity_loot = unwrap_list(files.entity_loot);
        let entity_loot_by_name = index_entity_loot(&entity_loot);
        let (block_shapes_by_state_id, block_shapes_by_name) = match &files.block_collision_shapes {
            Some(col) => index_block_shapes(
                &blocks.blocks,
                &blocks.by_state_id,
                &blocks.by_name,
                col,
            ),
            None => {
                let a: HashMap<u32, u32> = HashMap::new();
                let b: StrMap<u32> = StrMap::new();
                (a, b)
            },
        };
        let language = match files.language {
            Some(l) => l,
            None => HashMap::new(),
        };
        IndexedData {
            version,
            blocks_array: blocks.blocks,
            blocks_by_id: blocks.by_id,
            blocks_by_name: blocks.by_name,
            blocks_by_state_id: blocks.by_state_id,
            items_array: items,
            items_by_id,
            items_by_name,
            biomes_array: biomes,
            biomes_by_id,
            biomes_by_name,
            effects_array: effects,
            effects_by_id,
            effects_by_name,
            entities_array: entities,
            entities_by_id,
            entities_by_name,
            mobs_by_id,
            objects_by_id,
            sounds_array: sounds,
            sounds_by_id,
            sounds_by_name,
            particles_array: particles,
            particles_by_id,
            particles_by_name,
            attributes_array: attributes,
            attributes_by_name,
            attributes_by_resource,
            instruments_array: instruments,
            instruments_by_id,
            instruments_by_name,
            foods_array: foods,
            foods_by_id,
            foods_by_name,
            enchantments_array: enchantments,
            enchantments_by_id,
            enchantments_by_name,
            map_icons_array: map_icons,
            map_icons_by_id,
            map_icons_by_name,
            windows_array: windows,
            windows_by_id,
            windows_by_name,
            block_loot_array: block_loot,
            block_loot_by_name,
            entity_loot_array: entity_loot,
            entity_loot_by_name,
            block_shapes_by_state_id,
            block_shapes_by_name,
            block_collision_shapes_raw: files.block_collision_shapes,
            tints: files.tints,
            language,
            legacy: files.legacy,
            recipes: files.recipes,
            materials: files.materials,
            commands: files.commands,
            protocol: files.protocol,
            protocol_comments: files.protocol_comments,
            login_packet: files.login_packet,
        }
    }
}


/// What comparing `v` with the version that `other` resolves to gives:
/// `None` when `other` does not resolve or names another edition.
pub open spec fn compare_spec(
    v: Version,
    versions: EditionVersions,
    other: Seq<char>,
    older: bool,
) -> Option<bool> {
    match resolve_spec_of(versions, other) {
        Some(o) => if o.edition == v.edition {
            if older {
                Some(v.data_version < o.data_version)
            } else {
                Some(v.data_version >= o.data_version)
            }
        } else {
            None
        },
        None => None,
    }
}

/// What `s` resolves to, in the edition its prefix names.
pub open spec fn resolve_spec_of(versions: EditionVersions, s: Seq<char>) -> Option<Version> {
    let (e, part) = split_edition(s);
    match versions.spec_for(e) {
        Ok(d) => resolve_in_spec(d, part),
        Err(_) => None,
    }
}

/// The features of both editions, each as loaded or with the message of
/// the failure that loading it met.
#[derive(Debug)]
pub struct EditionFeatures {
    pub pc: Result<Vec<Feature>, String>,
    pub bedrock: Result<Vec<Feature>, String>,
}

impl EditionFeatures {
    pub open spec fn spec_for(&self, edition: Edition) -> Result<Vec<Feature>, String> {
        match edition {
            Edition::Pc => self.pc,
            Edition::Bedrock => self.bedrock,
        }
    }
}

/// The features of `edition`; features that failed to load give their
/// remembered failure again, as `CachedError`.
pub fn get_features(features: &EditionFeatures, edition: Edition) -> (r: Result<
    &Vec<Feature>,
    McDataError,
>)
    ensures
        match r {
            Ok(f) => features.spec_for(edition) == Ok::<Vec<Feature>, String>(*f),
            Err(e) => features.spec_for(edition) matches Err(msg) && e == McDataError::CachedError(
                msg,
            ),
        },
{
    let slot = match edition {
        Edition::Pc => &features.pc,
        Edition::Bedrock => &features.bedrock,
    };
    match slot {
        Ok(f) => Ok(f),
        Err(msg) => Err(McDataError::CachedError(msg.clone())),
    }
}

pub proof fn lemma_id_index_bound<T: crate::structs::Numbered>(s: Seq<T>, k: u32)
    requires
        s.len() <= usize::MAX,
    ensures
        id_index(s).contains_key(k) ==> id_index(s)[k] < s.len(),
    decreases s.len(),
{
    if s.len() > 0 {
        lemma_id_index_bound(s.drop_last(), k);
    }
}

pub proof fn lemma_name_index_bound<T: crate::structs::Named>(s: Seq<T>, k: Seq<char>)
    requires
        s.len() <= usize::MAX,
    ensures
        name_index(s).contains_key(k) ==> name_index(s)[k] < s.len(),
    decreases s.len(),
{
    if s.len() > 0 {
        lemma_name_index_bound(s.drop_last(), k);
    }
}

/// The record named `name` through a name table of `arr`.
fn by_name<'a, T: crate::structs::Named>(arr: &'a Vec<T>, table: &StrMap<usize>, name: &str) -> (r:
    Option<&'a T>)
    requires
        table.wf(),
        table@ == name_index(arr@),
    ensures
        match r {
            Some(x) => table@.contains_key(name@) && *x == arr@[table@[name@] as int],
            None => !table@.contains_key(name@),
        },
{
    let n: usize = arr.len();
    proof {
        lemma_name_index_bound(arr@, name@);
    }
    match table.get_str(name) {
        Some(p) => Some(&arr[*p]),
        None => None,
    }
}

/// The record with id `id` through an id table of `arr`.
fn by_id<'a, T: crate::structs::Numbered>(arr: &'a Vec<T>, table: &HashMap<u32, usize>, id: u32) -> (r:
    Option<&'a T>)
    requires
        table@ == id_index(arr@),
    ensures
        match r {
            Some(x) => table@.contains_key(id) && *x == arr@[table@[id] as int],
            None => !table@.contains_key(id),
        },
{
    let n: usize = arr.len();
    proof {
        lemma_id_index_bound(arr@, id);
    }
    match table.get(&id) {
        Some(p) => Some(&arr[*p]),
        None => None,
    }
}

impl IndexedData {
    /// Whether this version is newer than or equal to the version that
    /// `other_version_str` resolves to. Versions of different editions are
    /// not compared: that is an internal error.
    pub fn is_newer_or_equal_to(&self, versions: &EditionVersions, other_version_str: &str) -> (r:
        Result<bool, McDataError>)
        requires
            versions.wf(),
        ensures
            match compare_spec(self.version, *versions, other_version_str@, false) {
                Some(b) => r == Ok::<bool, McDataError>(b),
                None => r is Err,
            },
            resolve_spec_of(*versions, other_version_str@) matches Some(o) && o.edition
                != self.version.edition ==> r matches Err(McDataError::Internal(_)),
    {
        let other = resolve_version(versions, other_version_str)?;
        if self.version.edition == other.edition {
            Ok(self.version.data_version >= other.data_version)
        } else {
            Err(McDataError::Internal("versions of different editions are not comparable".to_owned()))
        }
    }

    /// Whether this version is older than the version that
    /// `other_version_str` resolves to. Versions of different editions are
    /// not compared: that is an internal error.
    pub fn is_older_than(&self, versions: &EditionVersions, other_version_str: &str) -> (r: Result<
        bool,
        McDataError,
    >)
        requires
            versions.wf(),
        ensures
            match compare_spec(self.version, *versions, other_version_str@, true) {
                Some(b) => r == Ok::<bool, McDataError>(b),
                None => r is Err,
            },
            resolve_spec_of(*versions, other_version_str@) matches Some(o) && o.edition
                != self.version.edition ==> r matches Err(McDataError::Internal(_)),
    {
        let other = resolve_version(versions, other_version_str)?;
        if self.version.edition == other.edition {
            Ok(self.version.data_version < other.data_version)
        } else {
            Err(McDataError::Internal("versions of different editions are not comparable".to_owned()))
        }
    }

    /// What feature `feature_name` evaluates to for this version.
    pub fn support_feature(
        &self,
        cache: &mut ResolvedVersions,
        versions: &EditionVersions,
        features: &EditionFeatures,
        feature_name: &str,
    ) -> (r: Result<Scalar, McDataError>)
        requires
            versions.wf(),
            old(cache).agrees_with(*versions),
        ensures
            final(cache).agrees_with(*versions),
            match features.spec_for(self.version.edition) {
                Err(msg) => r == Err::<Scalar, McDataError>(McDataError::CachedError(msg)),
                Ok(fs) => match feature_spec(*versions, fs@, self.version, feature_name@) {
                    Some(v) => r == Ok::<Scalar, McDataError>(v),
                    None => r is Err,
                },
            },
    {
        let fs = get_features(features, self.version.edition)?;
        get_feature_support(cache, versions, fs, &self.version, feature_name)
    }

    pub fn block_by_name(&self, name: &str) -> (r: Option<&Block>)
        requires
            self.wf(),
        ensures
            match r {
                Some(b) => self.blocks_by_name@.contains_key(name@) && *b
                    == self.blocks_array@[self.blocks_by_name@[name@] as int],
                None => !self.blocks_by_name@.contains_key(name@),
            },
    {
        by_name(&self.blocks_array, &self.blocks_by_name, name)
    }

    pub fn block_by_id(&self, id: u32) -> (r: Option<&Block>)
        requires
            self.wf(),
        ensures
            match r {
                Some(b) => self.blocks_by_id@.contains_key(id) && *b
                    == self.blocks_array@[self.blocks_by_id@[id] as int],
                None => !self.blocks_by_id@.contains_key(id),
            },
    {
        by_id(&self.blocks_array, &self.blocks_by_id, id)
    }

    /// The block that owns state `state_id`.
    pub fn block_by_state_id(&self, state_id: u32) -> (r: Option<&Block>)
        requires
            self.wf(),
        ensures
            match r {
                Some(b) => self.blocks_by_state_id@.contains_key(state_id) && *b
                    == self.blocks_array@[self.blocks_by_state_id@[state_id] as int],
                None => !self.blocks_by_state_id@.contains_key(state_id),
            },
    {
        let n: usize = self.blocks_array.len();
        proof {
            crate::indexer::lemma_state_index(self.blocks_array@, state_id);
        }
        match self.blocks_by_state_id.get(&state_id) {
            Some(p) => Some(&self.blocks_array[*p]),
            None => None,
        }
    }

    pub fn item_by_name(&self, name: &str) -> (r: Option<&Item>)
        requires
            self.wf(),
        ensures
            match r {
                Some(b) => self.items_by_name@.contains_key(name@) && *b
                    == self.items_array@[self.items_by_name@[name@] as int],
                None => !self.items_by_name@.contains_key(name@),
            },
    {
        by_name(&self.items_array, &self.items_by_name, name)
    }

    pub fn item_by_id(&self, id: u32) -> (r: Option<&Item>)
        requires
            self.wf(),
        ensures
            match r {
                Some(b) => self.items_by_id@.contains_key(id) && *b
                    == self.items_array@[self.items_by_id@[id] as int],
                None => !self.items_by_id@.contains_key(id),
            },
    {
        by_id(&self.items_array, &self.items_by_id, id)
    }

    pub fn entity_by_name(&self, name: &str) -> (r: Option<&Entity>)
        requires
            self.wf(),
        ensures
            match r {
                Some(b) => self.entities_by_name@.contains_key(name@) && *b
                    == self.entities_array@[self.entities_by_name@[name@] as int],
                None => !self.entities_by_name@.contains_key(name@),
            },
    {
        by_name(&self.entities_array, &self.entities_by_name, name)
    }

    pub fn food_by_name(&self, name: &str) -> (r: Option<&Food>)
        requires
            self.wf(),
        ensures
            match r {
                Some(b) => self.foods_by_name@.contains_key(name@) && *b
                    == self.foods_array@[self.foods_by_name@[name@] as int],
                None => !self.foods_by_name@.contains_key(name@),
            },
    {
        by_name(&self.foods_array, &self.foods_by_name, name)
    }

    pub fn enchantment_by_name(&self, name: &str) -> (r: Option<&Enchantment>)
        requires
            self.wf(),
        ensures
            match r {
                Some(b) => self.enchantments_by_name@.contains_key(name@) && *b
                    == self.enchantments_array@[self.enchantments_by_name@[name@] as int],
                None => !self.enchantments_by_name@.contains_key(name@),
            },
    {
        by_name(&self.enchantments_array, &self.enchantments_by_name, name)
    }

    pub fn map_icon_by_name(&self, name: &str) -> (r: Option<&MapIcon>)
        requires
            self.wf(),
        ensures
            match r {
                Some(b) => self.map_icons_by_name@.contains_key(name@) && *b
                    == self.map_icons_array@[self.map_icons_by_name@[name@] as int],
                None => !self.map_icons_by_name@.contains_key(name@),
            },
    {
        by_name(&self.map_icons_array, &self.map_icons_by_name, name)
    }

    /// The collision boxes of state `state_id`, when it has any.
    pub fn shapes_of_state(&self, state_id: u32) -> (r: Option<&Vec<Aabb>>)
        requires
            self.wf(),
        ensures
            match r {
                Some(b) => self.block_shapes_by_state_id@.contains_key(state_id) && (
                self.block_collision_shapes_raw matches Some(col) && *b
                    == col.shapes@[self.block_shapes_by_state_id@[state_id]]),
                None => !self.block_shapes_by_state_id@.contains_key(state_id),
            },
    {
        match &self.block_collision_shapes_raw {
            Some(col) => match self.block_shapes_by_state_id.get(&state_id) {
                Some(k) => col.shapes.get(k),
                None => None,
            },
            None => None,
        }
    }

    /// The collision boxes of block `name`'s default state, when it has any.
    pub fn shapes_of_block(&self, name: &str) -> (r: Option<&Vec<Aabb>>)
        requires
            self.wf(),
        ensures
            match r {
                Some(b) => self.block_shapes_by_name@.contains_key(name@) && (
                self.block_collision_shapes_raw matches Some(col) && *b
                    == col.shapes@[self.block_shapes_by_name@[name@]]),
                None => !self.block_shapes_by_name@.contains_key(name@),
            },
    {
        match &self.block_collision_shapes_raw {
            Some(col) => match self.block_shapes_by_name.get_str(name) {
                Some(k) => col.shapes.get(k),
                None => None,
            },
            None => {
                proof {
                    assert(!self.block_shapes_by_name@.contains_key(name@));
                }
                None
            },
        }
    }
}

/// The key under which the snapshot of a version is cached:
/// `<edition token>_<version string>`, as `pc_1.18.2`.
pub open spec fn cache_key_spec(v: Version) -> Seq<char> {
    edition_token(v.edition) + seq!['_'] + v.minecraft_version@
}

pub fn cache_key(v: &Version) -> (r: String)
    ensures
        r@ == cache_key_spec(*v),
{
    let mut k = v.edition.path_prefix().to_owned();
    proof {
        reveal_strlit("_");
    }
    k.append("_");
    k.append(v.minecraft_version.as_str());
    assert("_"@ =~= seq!['_']);
    k
}

/// What a snapshot cache holds after `insert_if_absent(key, v)`: an entry
/// already there stays as it is.
pub open spec fn insert_if_absent_spec<T>(m: Map<Seq<char>, T>, key: Seq<char>, v: T) -> Map<
    Seq<char>,
    T,
> {
    if m.contains_key(key) {
        m
    } else {
        m.insert(key, v)
    }
}

/// Snapshots by cache key. Once a key holds a snapshot, it keeps it.
#[derive(Debug)]
pub struct SnapshotCache<T> {
    entries: StrMap<T>,
}

impl<T> View for SnapshotCache<T> {
    type V = Map<Seq<char>, T>;

    closed spec fn view(&self) -> Map<Seq<char>, T> {
        self.entries@
    }
}

impl<T> SnapshotCache<T> {
    pub closed spec fn wf(&self) -> bool {
        self.entries.wf()
    }

    pub fn new() -> (r: Self)
        ensures
            r.wf(),
            r@ == Map::<Seq<char>, T>::empty(),
    {
        SnapshotCache { entries: StrMap::new() }
    }

    /// The snapshot cached under `key`.
    pub fn get(&self, key: &String) -> (r: Option<&T>)
        requires
            self.wf(),
        ensures
            match r {
                Some(v) => self@.contains_key(key@) && self@[key@] == *v,
                None => !self@.contains_key(key@),
            },
    {
        self.entries.get(key)
    }

    /// Caches `v` under `key` unless a snapshot is there already (one that
    /// another caller loaded meanwhile), which is kept.
    pub fn insert_if_absent(&mut self, key: String, v: T)
        requires
            old(self).wf(),
        ensures
            final(self).wf(),
            final(self)@ == insert_if_absent_spec(old(self)@, key@, v),
    {
        if self.entries.find(&key).is_none() {
            self.entries.insert(key, v);
        }
    }
}

} // verus!
