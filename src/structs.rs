//! The records of the per-version data files.
//!
//! Fractional numbers are held as IEEE-754 bit patterns: an `f32` field as
//! the `u32` that `f32::to_bits` gives, an `f64` field as the `u64` of
//! `f64::to_bits`. `from_bits` gives the number back unchanged.
use vstd::prelude::*;
use crate::features::Scalar;
use crate::strmap::StrMap;

verus! {

/// The name a record is listed under.
pub trait Named {
    spec fn spec_name(&self) -> Seq<char>;

    fn name_ref(&self) -> (r: &String)
        ensures
            r@ == self.spec_name(),
    ;
}

/// The numeric id a record is listed under.
pub trait Numbered {
    spec fn spec_id(&self) -> u32;

    fn id_of(&self) -> (r: u32)
        ensures
            r == self.spec_id(),
    ;
}

/// A second string key of a record: a window's id, an attribute's resource.
pub trait AltKeyed {
    spec fn spec_alt_key(&self) -> Seq<char>;

    fn alt_key(&self) -> (r: &String)
        ensures
            r@ == self.spec_alt_key(),
    ;
}

#[derive(Debug, Clone)]
pub struct Block {
    pub id: u32,
    pub name: String,
    pub display_name: String,
    /// `f32` bits.
    pub hardness: Option<u32>,
    /// `f32` bits.
    pub resistance: u32,
    pub stack_size: u32,
    pub diggable: bool,
    /// Typically `block` or `empty`.
    pub bounding_box: String,
    pub material: Option<String>,
    /// Tool item ids (as strings) that harvest this block.
    pub harvest_tools: Vec<(String, bool)>,
    pub variations: Option<Vec<BlockVariation>>,
    pub drops: Vec<BlockDrop>,
    pub emit_light: u8,
    pub filter_light: u8,
    pub transparent: bool,
    pub states: Vec<BlockStateDefinition>,
    pub min_state_id: u32,
    pub max_state_id: u32,
    pub default_state: u32,
}

/// The state id every state field starts from when the source gives none.
pub fn default_state_id() -> (r: u32)
    ensures
        r == 0,
{
    0
}

#[derive(Debug, Clone)]
pub struct BlockVariation {
    pub metadata: u32,
    pub display_name: String,
    pub description: Option<String>,
}

#[derive(Debug, Clone)]
pub struct BlockStateDefinition {
    pub name: String,
    /// `bool`, `enum`, `int`.
    pub state_type: String,
    pub num_values: Option<u32>,
    pub values: Vec<String>,
}

/// An item with its metadata, as older drops name it.
#[derive(Debug, Clone)]
pub struct DropItem {
    pub id: u32,
    pub metadata: u32,
}

/// What a drop element yields: a bare item id or an item with metadata.
#[derive(Debug, Clone)]
pub enum DropType {
    Id(u32),
    Item(DropItem),
}

#[derive(Debug, Clone)]
pub struct DropElement {
    pub drop: DropType,
    /// `f32` bits.
    pub min_count: Option<u32>,
    /// `f32` bits.
    pub max_count: Option<u32>,
}

/// A block drop: a bare item id, or an element with counts.
#[derive(Debug, Clone)]
pub enum BlockDrop {
    Id(u32),
    Element(DropElement),
}

#[derive(Debug, Clone)]
pub struct Item {
    pub id: u32,
    pub name: String,
    pub display_name: String,
    pub stack_size: u32,
    pub enchant_categories: Option<Vec<String>>,
    pub repair_with: Option<Vec<String>>,
    pub max_durability: Option<u32>,
    pub variations: Option<Vec<ItemVariation>>,
}

#[derive(Debug, Clone)]
pub struct ItemVariation {
    pub metadata: u32,
    pub display_name: String,
}

#[derive(Debug, Clone)]
pub struct Biome {
    pub id: u32,
    pub name: String,
    pub category: String,
    /// `f32` bits.
    pub temperature: u32,
    pub precipitation: Option<String>,
    pub dimension: String,
    pub display_name: String,
    pub color: i32,
    /// `f32` bits.
    pub rainfall: Option<u32>,
    /// `f32` bits.
    pub depth: Option<u32>,
    pub has_precipitation: Option<bool>,
}

#[derive(Debug, Clone)]
pub struct Effect {
    pub id: u32,
    pub name: String,
    pub display_name: String,
    /// `good` or `bad`.
    pub effect_type: String,
}

#[derive(Debug, Clone)]
pub struct Entity {
    pub id: u32,
    pub internal_id: Option<u32>,
    pub name: String,
    pub display_name: String,
    /// `mob`, `object`, `projectile`, ...
    pub entity_type: String,
    /// `f32` bits.
    pub width: Option<u32>,
    /// `f32` bits.
    pub height: Option<u32>,
    pub category: Option<String>,
    pub metadata_keys: Vec<String>,
}

/// `dataPaths.json`: for each edition, major version to data key to the
/// directory (relative to the data root) that holds that file.
#[derive(Debug, Clone)]
pub struct DataPaths {
    pub pc: StrMap<StrMap<String>>,
    pub bedrock: StrMap<StrMap<String>>,
}

#[derive(Debug, Clone)]
pub struct Sound {
    pub id: u32,
    pub name: String,
}

/// The collision shape of a block: one shape index for all its states, or
/// one per state, counted from its first state.
#[derive(Debug, Clone)]
pub enum BlockShapeRef {
    Single(u32),
    Multiple(Vec<u32>),
}

/// A box `[x1, y1, z1, x2, y2, z2]`, each coordinate as `f64` bits.
pub type Aabb = [u64; 6];

/// `blockCollisionShapes.json`.
#[derive(Debug, Clone)]
pub struct BlockCollisionShapes {
    /// Block name to its shape reference.
    pub blocks: StrMap<BlockShapeRef>,
    /// Shape index to its boxes.
    pub shapes: std::collections::HashMap<u32, Vec<Aabb>>,
}

#[derive(Debug, Clone)]
pub struct Particle {
    pub id: u32,
    pub name: String,
}

#[derive(Debug, Clone)]
pub struct Attribute {
    pub name: String,
    /// The namespaced key.
    pub resource: String,
    /// `f64` bits.
    pub default: u64,
    /// `f64` bits.
    pub min: u64,
    /// `f64` bits.
    pub max: u64,
}

#[derive(Debug, Clone)]
pub struct Instrument {
    pub id: u32,
    pub name: String,
}

#[derive(Debug, Clone)]
pub struct BlockLoot {
    /// The block's name.
    pub block: String,
    pub drops: Vec<BlockLootDrop>,
}

#[derive(Debug, Clone)]
pub struct BlockLootDrop {
    pub item: String,
    /// `f32` bits.
    pub drop_chance: u32,
    /// `[min]` or `[min, max]`.
    pub stack_size_range: Vec<Option<i32>>,
    pub silk_touch: Option<bool>,
    pub no_silk_touch: Option<bool>,
    pub block_age: Option<i32>,
}

/// The stack size range of a block loot drop that names none: `[1]`.
pub fn default_stack_size_range() -> (r: Vec<Option<i32>>)
    ensures
        r@ == seq![Some(1i32)],
{
    let mut v: Vec<Option<i32>> = Vec::new();
    v.push(Some(1));
    assert(v@ =~= seq![Some(1i32)]);
    v
}

#[derive(Debug, Clone)]
pub struct Window {
    /// A number or a namespaced string (`minecraft:chest`).
    pub id: String,
    pub name: String,
    pub slots: Vec<WindowSlot>,
    pub opened_with: Vec<WindowOpenedWith>,
    pub properties: Vec<String>,
}

#[derive(Debug, Clone)]
pub struct WindowSlot {
    pub name: String,
    pub index: u32,
    pub size: Option<u32>,
}

#[derive(Debug, Clone)]
pub struct WindowOpenedWith {
    /// `block` or `entity`.
    pub opener_type: String,
    pub id: u32,
}

#[derive(Debug, Clone)]
pub struct EntityLoot {
    /// The entity's name.
    pub entity: String,
    pub drops: Vec<EntityLootDrop>,
}

#[derive(Debug, Clone)]
pub struct EntityLootDrop {
    pub item: String,
    /// `f32` bits.
    pub drop_chance: u32,
    /// `[min]` or `[min, max]`.
    pub stack_size_range: Vec<u32>,
    pub player_kill: Option<bool>,
}

/// The stack size range of an entity loot drop that names none: `[1]`.
pub fn default_entity_stack_size_range() -> (r: Vec<u32>)
    ensures
        r@ == seq![1u32],
{
    let mut v: Vec<u32> = Vec::new();
    v.push(1);
    assert(v@ =~= seq![1u32]);
    v
}

#[derive(Debug, Clone)]
pub struct Food {
    pub id: u32,
    pub name: String,
    pub display_name: String,
    pub stack_size: u32,
    /// `f32` bits.
    pub food_points: u32,
    /// `f32` bits.
    pub saturation: u32,
    /// `f32` bits.
    pub effective_quality: u32,
    /// `f32` bits.
    pub saturation_ratio: u32,
    pub variations: Option<Vec<ItemVariation>>,
}

#[derive(Debug, Clone)]
pub struct Enchantment {
    pub id: u32,
    pub name: String,
    pub display_name: String,
    pub max_level: u32,
    pub min_cost: EnchantmentCost,
    pub max_cost: EnchantmentCost,
    pub treasure_only: bool,
    pub curse: bool,
    /// Names of enchantments this one excludes.
    pub exclude: Vec<String>,
    pub category: String,
    pub weight: u32,
    pub tradeable: bool,
    pub discoverable: bool,
}

/// A cost `a * level + b`.
#[derive(Debug, Clone, Copy, Default)]
pub struct EnchantmentCost {
    pub a: i32,
    pub b: i32,
}

#[derive(Debug, Clone)]
pub struct MapIcon {
    pub id: u32,
    pub name: String,
    pub appearance: Option<String>,
    pub visible_in_item_frame: bool,
}

#[derive(Debug, Clone)]
pub struct Tints {
    pub grass: TintData,
    pub foliage: TintData,
    pub water: TintData,
    pub redstone: TintData,
    pub constant: TintData,
}

#[derive(Debug, Clone)]
pub struct TintData {
    pub default: Option<i32>,
    pub data: Vec<TintDatum>,
}

#[derive(Debug, Clone)]
pub struct TintDatum {
    /// Biome names or redstone levels.
    pub keys: Vec<Scalar>,
    pub color: i32,
}

/// `legacy.json`: legacy numeric ids (as strings) to namespaced ids.
#[derive(Debug, Clone)]
pub struct Legacy {
    pub blocks: Vec<(String, String)>,
    pub items: Vec<(String, String)>,
}

impl Named for Block {
    open spec fn spec_name(&self) -> Seq<char> {
        self.name@
    }

    fn name_ref(&self) -> (r: &String) {
        &self.name
    }
}

impl Numbered for Block {
    open spec fn spec_id(&self) -> u32 {
        self.id
    }

    fn id_of(&self) -> (r: u32) {
        self.id
    }
}

impl Named for Item {
    open spec fn spec_name(&self) -> Seq<char> {
        self.name@
    }

    fn name_ref(&self) -> (r: &String) {
        &self.name
    }
}

impl Numbered for Item {
    open spec fn spec_id(&self) -> u32 {
        self.id
    }

    fn id_of(&self) -> (r: u32) {
        self.id
    }
}

impl Named for Biome {
    open spec fn spec_name(&self) -> Seq<char> {
        self.name@
    }

    fn name_ref(&self) -> (r: &String) {
        &self.name
    }
}

impl Numbered for Biome {
    open spec fn spec_id(&self) -> u32 {
        self.id
    }

    fn id_of(&self) -> (r: u32) {
        self.id
    }
}

impl Named for Effect {
    open spec fn spec_name(&self) -> Seq<char> {
        self.name@
    }

    fn name_ref(&self) -> (r: &String) {
        &self.name
    }
}

impl Numbered for Effect {
    open spec fn spec_id(&self) -> u32 {
        self.id
    }

    fn id_of(&self) -> (r: u32) {
        self.id
    }
}

impl Named for Entity {
    open spec fn spec_name(&self) -> Seq<char> {
        self.name@
    }

    fn name_ref(&self) -> (r: &String) {
        &self.name
    }
}

impl Numbered for Entity {
    open spec fn spec_id(&self) -> u32 {
        self.id
    }

    fn id_of(&self) -> (r: u32) {
        self.id
    }
}

impl Named for Sound {
    open spec fn spec_name(&self) -> Seq<char> {
        self.name@
    }

    fn name_ref(&self) -> (r: &String) {
        &self.name
    }
}

impl Numbered for Sound {
    open spec fn spec_id(&self) -> u32 {
        self.id
    }

    fn id_of(&self) -> (r: u32) {
        self.id
    }
}

impl Named for Particle {
    open spec fn spec_name(&self) -> Seq<char> {
        self.name@
    }

    fn name_ref(&self) -> (r: &String) {
        &self.name
    }
}

impl Numbered for Particle {
    open spec fn spec_id(&self) -> u32 {
        self.id
    }

    fn id_of(&self) -> (r: u32) {
        self.id
    }
}

impl Named for Attribute {
    open spec fn spec_name(&self) -> Seq<char> {
        self.name@
    }

    fn name_ref(&self) -> (r: &String) {
        &self.name
    }
}

impl AltKeyed for Attribute {
    open spec fn spec_alt_key(&self) -> Seq<char> {
        self.resource@
    }

    fn alt_key(&self) -> (r: &String) {
        &self.resource
    }
}

impl Named for Instrument {
    open spec fn spec_name(&self) -> Seq<char> {
        self.name@
    }

    fn name_ref(&self) -> (r: &String) {
        &self.name
    }
}

impl Numbered for Instrument {
    open spec fn spec_id(&self) -> u32 {
        self.id
    }

    fn id_of(&self) -> (r: u32) {
        self.id
    }
}

impl Named for Food {
    open spec fn spec_name(&self) -> Seq<char> {
        self.name@
    }

    fn name_ref(&self) -> (r: &String) {
        &self.name
    }
}

impl Numbered for Food {
    open spec fn spec_id(&self) -> u32 {
        self.id
    }

    fn id_of(&self) -> (r: u32) {
        self.id
    }
}

impl Named for Enchantment {
    open spec fn spec_name(&self) -> Seq<char> {
        self.name@
    }

    fn name_ref(&self) -> (r: &String) {
        &self.name
    }
}

impl Numbered for Enchantment {
    open spec fn spec_id(&self) -> u32 {
        self.id
    }

    fn id_of(&self) -> (r: u32) {
        self.id
    }
}

impl Named for MapIcon {
    open spec fn spec_name(&self) -> Seq<char> {
        self.name@
    }

    fn name_ref(&self) -> (r: &String) {
        &self.name
    }
}

impl Numbered for MapIcon {
    open spec fn spec_id(&self) -> u32 {
        self.id
    }

    fn id_of(&self) -> (r: u32) {
        self.id
    }
}

impl Named for Window {
    open spec fn spec_name(&self) -> Seq<char> {
        self.name@
    }

    fn name_ref(&self) -> (r: &String) {
        &self.name
    }
}

impl AltKeyed for Window {
    open spec fn spec_alt_key(&self) -> Seq<char> {
        self.id@
    }

    fn alt_key(&self) -> (r: &String) {
        &self.id
    }
}

/// Block loot is listed under its block's name.
impl Named for BlockLoot {
    open spec fn spec_name(&self) -> Seq<char> {
        self.block@
    }

    fn name_ref(&self) -> (r: &String) {
        &self.block
    }
}

/// Entity loot is listed under its entity's name.
impl Named for EntityLoot {
    open spec fn spec_name(&self) -> Seq<char> {
        self.entity@
    }

    fn name_ref(&self) -> (r: &String) {
        &self.entity
    }
}

} // verus!
