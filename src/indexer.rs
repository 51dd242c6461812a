//! Lookup tables over the records of one version: each table maps a key to
//! the position of the record in its list. Where records share a key, the
//! last one wins.
use vstd::prelude::*;
use std::collections::HashMap;
use crate::strmap::StrMap;
use crate::structs::{
    AltKeyed, Attribute, Biome, Block, BlockCollisionShapes, BlockLoot, BlockShapeRef, Effect,
    Enchantment, Entity, EntityLoot, Food, Instrument, Item, MapIcon, Named, Numbered, Particle,
    Sound, Window,
};
use crate::text::{all_digits, chars_of, decimal_value, lemma_decimal_nonneg, parse_u32_range, str_eq};

verus! {

broadcast use vstd::std_specs::hash::group_hash_axioms;

/// Each id to the position of the last record that has it.
pub open spec fn id_index<T: Numbered>(s: Seq<T>) -> Map<u32, usize>
    decreases s.len(),
{
    if s.len() == 0 {
        Map::empty()
    } else {
        id_index(s.drop_last()).insert(s.last().spec_id(), (s.len() - 1) as usize)
    }
}

/// Each name to the position of the last record that has it.
pub open spec fn name_index<T: Named>(s: Seq<T>) -> Map<Seq<char>, usize>
    decreases s.len(),
{
    if s.len() == 0 {
        Map::empty()
    } else {
        name_index(s.drop_last()).insert(s.last().spec_name(), (s.len() - 1) as usize)
    }
}

/// Each second key to the position of the last record that has it.
pub open spec fn alt_index<T: AltKeyed>(s: Seq<T>) -> Map<Seq<char>, usize>
    decreases s.len(),
{
    if s.len() == 0 {
        Map::empty()
    } else {
        alt_index(s.drop_last()).insert(s.last().spec_alt_key(), (s.len() - 1) as usize)
    }
}

pub fn index_by_id<T: Numbered>(items: &Vec<T>) -> (r: HashMap<u32, usize>)
    ensures
        r@ == id_index(items@),
{
    let mut m: HashMap<u32, usize> = HashMap::new();
    let mut i: usize = 0;
    assert(items@.take(0) =~= Seq::<T>::empty());
    assert(m@ =~= id_index(items@.take(0)));
    while i < items.len()
        invariant
            i <= items@.len(),
            m@ == id_index(items@.take(i as int)),
        decreases items@.len() - i,
    {
        assert(items@.take(i + 1).drop_last() =~= items@.take(i as int));
        m.insert(items[i].id_of(), i);
        i = i + 1;
    }
    assert(items@.take(i as int) =~= items@);
    m
}

pub fn index_by_name<T: Named>(items: &Vec<T>) -> (r: StrMap<usize>)
    ensures
        r.wf(),
        r@ == name_index(items@),
{
    let mut m: StrMap<usize> = StrMap::new();
    let mut i: usize = 0;
    assert(items@.take(0) =~= Seq::<T>::empty());
    assert(m@ =~= name_index(items@.take(0)));
    while i < items.len()
        invariant
            i <= items@.len(),
            m.wf(),
            m@ == name_index(items@.take(i as int)),
        decreases items@.len() - i,
    {
        assert(items@.take(i + 1).drop_last() =~= items@.take(i as int));
        m.insert(items[i].name_ref().clone(), i);
        i = i + 1;
    }
    assert(items@.take(i as int) =~= items@);
    m
}

pub fn index_by_alt_key<T: AltKeyed>(items: &Vec<T>) -> (r: StrMap<usize>)
    ensures
        r.wf(),
        r@ == alt_index(items@),
{
    let mut m: StrMap<usize> = StrMap::new();
    let mut i: usize = 0;
    assert(items@.take(0) =~= Seq::<T>::empty());
    assert(m@ =~= alt_index(items@.take(0)));
    while i < items.len()
        invariant
            i <= items@.len(),
            m.wf(),
            m@ == alt_index(items@.take(i as int)),
        decreases items@.len() - i,
    {
        assert(items@.take(i + 1).drop_last() =~= items@.take(i as int));
        m.insert(items[i].alt_key().clone(), i);
        i = i + 1;
    }
    assert(items@.take(i as int) =~= items@);
    m
}

/// Indexes items by id and by name.
pub fn index_items(items: &Vec<Item>) -> (r: (HashMap<u32, usize>, StrMap<usize>))
    ensures
        r.0@ == id_index(items@),
        r.1.wf(),
        r.1@ == name_index(items@),
{
    (index_by_id(items), index_by_name(items))
}

/// Indexes biomes by id and by name.
pub fn index_biomes(biomes: &Vec<Biome>) -> (r: (HashMap<u32, usize>, StrMap<usize>))
    ensures
        r.0@ == id_index(biomes@),
        r.1.wf(),
        r.1@ == name_index(biomes@),
{
    (index_by_id(biomes), index_by_name(biomes))
}

/// Indexes effects by id and by name.
pub fn index_effects(effects: &Vec<Effect>) -> (r: (HashMap<u32, usize>, StrMap<usize>))
    ensures
        r.0@ == id_index(effects@),
        r.1.wf(),
        r.1@ == name_index(effects@),
{
    (index_by_id(effects), index_by_name(effects))
}

/// Indexes sounds by id and by name.
pub fn index_sounds(sounds: &Vec<Sound>) -> (r: (HashMap<u32, usize>, StrMap<usize>))
    ensures
        r.0@ == id_index(sounds@),
        r.1.wf(),
        r.1@ == name_index(sounds@),
{
    (index_by_id(sounds), index_by_name(sounds))
}

/// Indexes particles by id and by name.
pub fn index_particles(particles: &Vec<Particle>) -> (r: (HashMap<u32, usize>, StrMap<usize>))
    ensures
        r.0@ == id_index(particles@),
        r.1.wf(),
        r.1@ == name_index(particles@),
{
    (index_by_id(particles), index_by_name(particles))
}

/// Indexes instruments by id and by name.
pub fn index_instruments(instruments: &Vec<Instrument>) -> (r: (HashMap<u32, usize>, StrMap<usize>))
    ensures
        r.0@ == id_index(instruments@),
        r.1.wf(),
        r.1@ == name_index(instruments@),
{
    (index_by_id(instruments), index_by_name(instruments))
}

/// Indexes foods by id and by name.
pub fn index_foods(foods: &Vec<Food>) -> (r: (HashMap<u32, usize>, StrMap<usize>))
    ensures
        r.0@ == id_index(foods@),
        r.1.wf(),
        r.1@ == name_index(foods@),
{
    (index_by_id(foods), index_by_name(foods))
}

/// Indexes enchantments by id and by name.
pub fn index_enchantments(enchantments: &Vec<Enchantment>) -> (r: (
    HashMap<u32, usize>,
    StrMap<usize>,
))
    ensures
        r.0@ == id_index(enchantments@),
        r.1.wf(),
        r.1@ == name_index(enchantments@),
{
    (index_by_id(enchantments), index_by_name(enchantments))
}

/// Indexes map icons by id and by name.
pub fn index_map_icons(map_icons: &Vec<MapIcon>) -> (r: (HashMap<u32, usize>, StrMap<usize>))
    ensures
        r.0@ == id_index(map_icons@),
        r.1.wf(),
        r.1@ == name_index(map_icons@),
{
    (index_by_id(map_icons), index_by_name(map_icons))
}

/// Indexes windows by their (string) id and by name.
pub fn index_windows(windows: &Vec<Window>) -> (r: (StrMap<usize>, StrMap<usize>))
    ensures
        r.0.wf(),
        r.0@ == alt_index(windows@),
        r.1.wf(),
        r.1@ == name_index(windows@),
{
    (index_by_alt_key(windows), index_by_name(windows))
}

/// Indexes attributes by name and by namespaced resource key.
pub fn index_attributes(attributes: &Vec<Attribute>) -> (r: (StrMap<usize>, StrMap<usize>))
    ensures
        r.0.wf(),
        r.0@ == name_index(attributes@),
        r.1.wf(),
        r.1@ == alt_index(attributes@),
{
    (index_by_name(attributes), index_by_alt_key(attributes))
}

/// Indexes block loot tables by block name.
pub fn index_block_loot(block_loot: &Vec<BlockLoot>) -> (r: StrMap<usize>)
    ensures
        r.wf(),
        r@ == name_index(block_loot@),
{
    index_by_name(block_loot)
}

/// Indexes entity loot tables by entity name.
pub fn index_entity_loot(entity_loot: &Vec<EntityLoot>) -> (r: StrMap<usize>)
    ensures
        r.wf(),
        r@ == name_index(entity_loot@),
{
    index_by_name(entity_loot)
}

pub open spec fn mob_word() -> Seq<char> {
    seq!['m', 'o', 'b']
}

pub open spec fn object_word() -> Seq<char> {
    seq!['o', 'b', 'j', 'e', 'c', 't']
}

/// Each id to the position of the last entity of type `kind` that has it.
pub open spec fn typed_id_index(s: Seq<Entity>, kind: Seq<char>) -> Map<u32, usize>
    decreases s.len(),
{
    if s.len() == 0 {
        Map::empty()
    } else if s.last().entity_type@ == kind {
        typed_id_index(s.drop_last(), kind).insert(s.last().id, (s.len() - 1) as usize)
    } else {
        typed_id_index(s.drop_last(), kind)
    }
}

fn index_typed(entities: &Vec<Entity>, kind: &str) -> (r: HashMap<u32, usize>)
    ensures
        r@ == typed_id_index(entities@, kind@),
{
    let mut m: HashMap<u32, usize> = HashMap::new();
    let mut i: usize = 0;
    assert(entities@.take(0) =~= Seq::<Entity>::empty());
    assert(m@ =~= typed_id_index(entities@.take(0), kind@));
    while i < entities.len()
        invariant
            i <= entities@.len(),
            m@ == typed_id_index(entities@.take(i as int), kind@),
        decreases entities@.len() - i,
    {
        assert(entities@.take(i + 1).drop_last() =~= entities@.take(i as int));
        if str_eq(entities[i].entity_type.as_str(), kind) {
            m.insert(entities[i].id, i);
        }
        i = i + 1;
    }
    assert(entities@.take(i as int) =~= entities@);
    m
}

/// Indexes entities by id and by name, and by id again for those of type
/// `mob` and those of type `object`.
pub fn index_entities(entities: &Vec<Entity>) -> (r: (
    HashMap<u32, usize>,
    StrMap<usize>,
    HashMap<u32, usize>,
    HashMap<u32, usize>,
))
    ensures
        r.0@ == id_index(entities@),
        r.1.wf(),
        r.1@ == name_index(entities@),
        r.2@ == typed_id_index(entities@, mob_word()),
        r.3@ == typed_id_index(entities@, object_word()),
{
    proof {
        reveal_strlit("mob");
        reveal_strlit("object");
    }
    assert("mob"@ =~= mob_word());
    assert("object"@ =~= object_word());
    (
        index_by_id(entities),
        index_by_name(entities),
        index_typed(entities, "mob"),
        index_typed(entities, "object"),
    )
}

/// A block whose state range is missing (both ends zero) while its id is
/// not zero gets sixteen states from `id * 16` (the id shifted left by
/// four, as a `u32`), the first being its default.
pub open spec fn with_states(b: Block) -> Block {
    if b.id != 0 && b.min_state_id == 0 && b.max_state_id == 0 {
        let m = ((b.id as int % 0x1000_0000) * 16) as u32;
        Block { min_state_id: m, max_state_id: (m + 15) as u32, default_state: m, ..b }
    } else {
        b
    }
}

pub open spec fn in_states(b: Block, s: u32) -> bool {
    b.min_state_id <= s <= b.max_state_id
}

/// Each state id to the position of the last block whose state range holds it.
pub open spec fn state_index(bs: Seq<Block>) -> Map<u32, usize>
    decreases bs.len(),
{
    if bs.len() == 0 {
        Map::empty()
    } else {
        let b = bs.last();
        state_index(bs.drop_last()).union_prefer_right(
            Map::new(|s: u32| in_states(b, s), |s: u32| (bs.len() - 1) as usize),
        )
    }
}

/// The state index names, for each state it holds, the last block whose
/// range holds it; it holds every state of every block.
pub proof fn lemma_state_index(bs: Seq<Block>, s: u32)
    requires
        bs.len() <= usize::MAX,
    ensures
        state_index(bs).contains_key(s) ==> {
            let i = state_index(bs)[s] as int;
            &&& 0 <= i < bs.len()
            &&& in_states(bs[i], s)
            &&& forall|j: int| i < j < bs.len() ==> !in_states(#[trigger] bs[j], s)
        },
        forall|j: int| 0 <= j < bs.len() && in_states(#[trigger] bs[j], s) ==> state_index(
            bs,
        ).contains_key(s),
    decreases bs.len(),
{
    if bs.len() > 0 {
        let t = bs.drop_last();
        lemma_state_index(t, s);
        assert forall|j: int| 0 <= j < bs.len() && in_states(#[trigger] bs[j], s) implies state_index(
            bs,
        ).contains_key(s) by {
            if j < bs.len() - 1 {
                assert(t[j] == bs[j]);
            }
        }
        let right = Map::new(|x: u32| in_states(bs.last(), x), |x: u32| (bs.len() - 1) as usize);
        assert(state_index(bs) == state_index(t).union_prefer_right(right));
        if in_states(bs.last(), s) {
            assert(right.contains_key(s));
            assert(state_index(bs)[s] == (bs.len() - 1) as usize);
        } else if state_index(bs).contains_key(s) {
            assert(!right.contains_key(s));
            assert(state_index(bs)[s] == state_index(t)[s]);
            let i = state_index(bs)[s] as int;
            assert(state_index(t).contains_key(s));
            assert(t[i] == bs[i]);
            assert forall|j: int| i < j < bs.len() implies !in_states(#[trigger] bs[j], s) by {
                if j < bs.len() - 1 {
                    assert(t[j] == bs[j]);
                }
            }
        }
    }
}

/// The blocks of a version with their tables: the blocks (with state ranges
/// filled in), and positions by id, by name and by state id.
#[derive(Debug)]
pub struct BlockIndexes {
    pub blocks: Vec<Block>,
    pub by_id: HashMap<u32, usize>,
    pub by_name: StrMap<usize>,
    pub by_state_id: HashMap<u32, usize>,
}

/// Fills in missing state ranges, then indexes the blocks by id, by name
/// and by every state id in each block's range.
pub fn index_blocks(blocks: Vec<Block>) -> (r: BlockIndexes)
    ensures
        r.blocks@ == blocks@.map_values(|b: Block| with_states(b)),
        r.by_id@ == id_index(r.blocks@),
        r.by_name.wf(),
        r.by_name@ == name_index(r.blocks@),
        r.by_state_id@ == state_index(r.blocks@),
{
    let ghost orig = blocks@;
    let ghost target = orig.map_values(|b: Block| with_states(b));
    let mut src = blocks;
    let mut out: Vec<Block> = Vec::new();
    let mut by_state: HashMap<u32, usize> = HashMap::new();
    let n = src.len();
    let mut i: usize = 0;
    assert(target.take(0) =~= Seq::<Block>::empty());
    assert(by_state@ =~= state_index(target.take(0)));
    while i < n
        invariant
            n == orig.len(),
            target == orig.map_values(|b: Block| with_states(b)),
            i <= n,
            src@ == orig.skip(i as int),
            out@ == target.take(i as int),
            by_state@ == state_index(out@),
        decreases n - i,
    {
        let mut b = src.remove(0);
        assert(b == orig[i as int]);
        assert(src@ =~= orig.skip(i + 1));
        if b.id != 0 && b.min_state_id == 0 && b.max_state_id == 0 {
            let m: u32 = (b.id % 0x1000_0000) * 16;
            b.min_state_id = m;
            b.max_state_id = m + 15;
            b.default_state = m;
        }
        assert(b == target[i as int]);
        let ghost base = by_state@;
        let lo = b.min_state_id;
        let hi = b.max_state_id;
        let mut s: u64 = lo as u64;
        while s <= hi as u64
            invariant
                lo as u64 <= s,
                s <= hi as u64 + 1 || s == lo as u64,
                lo == b.min_state_id,
                hi == b.max_state_id,
                by_state@ == base.union_prefer_right(
                    Map::new(|t: u32| lo <= t && (t as u64) < s, |t: u32| i),
                ),
            decreases hi as int + 1 - s as int,
        {
            by_state.insert(s as u32, i);
            s = s + 1;
            assert(by_state@ =~= base.union_prefer_right(
                Map::new(|t: u32| lo <= t && (t as u64) < s, |t: u32| i),
            ));
        }
        assert(by_state@ =~= base.union_prefer_right(
            Map::new(|t: u32| in_states(b, t), |t: u32| i),
        ));
        out.push(b);
        i = i + 1;
        assert(out@ =~= target.take(i as int));
        assert(out@.drop_last() =~= target.take(i - 1));
    }
    assert(target.take(n as int) =~= target);
    let by_id = index_by_id(&out);
    let by_name = index_by_name(&out);
    BlockIndexes { blocks: out, by_id, by_name, by_state_id: by_state }
}


/// The shape index that the collision data gives state `s` of block `b`:
/// its single index, or the entry for `s`'s offset from the block's first
/// state. An offset past the list gives none.
pub open spec fn shape_ref_index(col: BlockCollisionShapes, b: Block, s: u32) -> Option<u32> {
    if col.blocks@.contains_key(b.name@) {
        match col.blocks@[b.name@] {
            BlockShapeRef::Single(k) => Some(k),
            BlockShapeRef::Multiple(v) => if b.min_state_id <= s && (s - b.min_state_id) < v@.len() {
                Some(v@[s - b.min_state_id])
            } else {
                None
            },
        }
    } else {
        None
    }
}

/// The shape index of state `s` of block `b`, when it names boxes: index
/// zero means no collision, and an index missing from the table names none.
pub open spec fn state_shape(col: BlockCollisionShapes, b: Block, s: u32) -> Option<u32> {
    match shape_ref_index(col, b, s) {
        Some(k) => if k != 0 && col.shapes@.contains_key(k) {
            Some(k)
        } else {
            None
        },
        None => None,
    }
}

/// Each state id, of the block that owns it, to its shape index.
pub open spec fn shapes_by_state_spec(bs: Seq<Block>, col: BlockCollisionShapes) -> Map<u32, u32> {
    let owners = state_index(bs);
    Map::new(
        |s: u32| owners.contains_key(s) && state_shape(col, bs[owners[s] as int], s) is Some,
        |s: u32| state_shape(col, bs[owners[s] as int], s)->0,
    )
}

/// Each block name to the shape index of the block's default state.
pub open spec fn shapes_by_name_spec(
    bs: Seq<Block>,
    names: Map<Seq<char>, usize>,
    by_state: Map<u32, u32>,
) -> Map<Seq<char>, u32> {
    Map::new(
        |n: Seq<char>|
            names.contains_key(n) && names[n] < bs.len() && by_state.contains_key(
                bs[names[n] as int].default_state,
            ),
        |n: Seq<char>| by_state[bs[names[n] as int].default_state],
    )
}

/// The shape index of state `st` of block `b`, given the shape reference
/// that the collision data holds for `b` (looked up once per block).
fn shape_of_state(col: &BlockCollisionShapes, sref: Option<&BlockShapeRef>, b: &Block, st: u32) -> (r:
    Option<u32>)
    requires
        match sref {
            Some(x) => col.blocks@.contains_key(b.name@) && col.blocks@[b.name@] == *x,
            None => !col.blocks@.contains_key(b.name@),
        },
    ensures
        r == state_shape(*col, *b, st),
{
    let k: Option<u32> = match sref {
        None => None,
        Some(BlockShapeRef::Single(k)) => Some(*k),
        Some(BlockShapeRef::Multiple(v)) => {
            if b.min_state_id <= st && ((st - b.min_state_id) as usize) < v.len() {
                Some(v[(st - b.min_state_id) as usize])
            } else {
                None
            }
        },
    };
    match k {
        Some(k) => {
            if k != 0 && col.shapes.contains_key(&k) {
                Some(k)
            } else {
                None
            }
        },
        None => None,
    }
}

/// Maps each state id to the shape index of its collision boxes, and each
/// block name to that of its default state. States and blocks without
/// collision (shape index zero) or whose shape is missing are left out.
pub fn index_block_shapes(
    blocks: &Vec<Block>,
    by_state_id: &HashMap<u32, usize>,
    by_name: &StrMap<usize>,
    col: &BlockCollisionShapes,
) -> (r: (HashMap<u32, u32>, StrMap<u32>))
    requires
        by_state_id@ == state_index(blocks@),
        by_name.wf(),
        col.blocks.wf(),
    ensures
        r.0@ == shapes_by_state_spec(blocks@, *col),
        r.1.wf(),
        r.1@ == shapes_by_name_spec(blocks@, by_name@, r.0@),
{
    let ghost bs = blocks@;
    let ghost owners = state_index(bs);
    let mut out: HashMap<u32, u32> = HashMap::new();
    let n = blocks.len();
    let mut i: usize = 0;
    assert(out@ =~= Map::new(
        |t: u32|
            owners.contains_key(t) && owners[t] < i && state_shape(*col, bs[owners[t] as int], t) is Some,
        |t: u32| state_shape(*col, bs[owners[t] as int], t)->0,
    ));
    while i < n
        invariant
            n == bs.len(),
            bs == blocks@,
            owners == state_index(bs),
            by_state_id@ == owners,
            col.blocks.wf(),
            i <= n,
            out@ == Map::new(
                |t: u32|
                    owners.contains_key(t) && owners[t] < i && state_shape(
                        *col,
                        bs[owners[t] as int],
                        t,
                    ) is Some,
                |t: u32| state_shape(*col, bs[owners[t] as int], t)->0,
            ),
        decreases n - i,
    {
        let b = &blocks[i];
        let sref = col.blocks.get(&b.name);
        let lo = b.min_state_id;
        let hi = b.max_state_id;
        let mut s: u64 = lo as u64;
        while s <= hi as u64
            invariant
                match sref {
                    Some(x) => col.blocks@.contains_key(b.name@) && col.blocks@[b.name@] == *x,
                    None => !col.blocks@.contains_key(b.name@),
                },
                n == bs.len(),
                bs == blocks@,
                owners == state_index(bs),
                by_state_id@ == owners,
                col.blocks.wf(),
                i < n,
                *b == bs[i as int],
                lo == b.min_state_id,
                hi == b.max_state_id,
                lo as u64 <= s,
                s <= hi as u64 + 1 || s == lo as u64,
                out@ == Map::new(
                    |t: u32|
                        owners.contains_key(t) && (owners[t] < i || (owners[t] == i && lo <= t
                            && (t as u64) < s)) && state_shape(*col, bs[owners[t] as int], t) is Some,
                    |t: u32| state_shape(*col, bs[owners[t] as int], t)->0,
                ),
            decreases hi as int + 1 - s as int,
        {
            let st = s as u32;
            let owned = match by_state_id.get(&st) {
                Some(o) => *o == i,
                None => false,
            };
            if owned {
                if let Some(k) = shape_of_state(col, sref, b, st) {
                    out.insert(st, k);
                }
            }
            s = s + 1;
            assert(out@ =~= Map::new(
                |t: u32|
                    owners.contains_key(t) && (owners[t] < i || (owners[t] == i && lo <= t && (t as u64)
                        < s)) && state_shape(*col, bs[owners[t] as int], t) is Some,
                |t: u32| state_shape(*col, bs[owners[t] as int], t)->0,
            ));
        }
        proof {
            assert forall|t: u32| owners.contains_key(t) && owners[t] == i implies lo <= t && (t as u64)
                < s by {
                lemma_state_index(bs, t);
            }
        }
        i = i + 1;
        assert(out@ =~= Map::new(
            |t: u32|
                owners.contains_key(t) && owners[t] < i && state_shape(*col, bs[owners[t] as int], t) is Some,
            |t: u32| state_shape(*col, bs[owners[t] as int], t)->0,
        ));
    }
    proof {
        assert forall|t: u32| owners.contains_key(t) implies owners[t] < n by {
            lemma_state_index(bs, t);
        }
    }
    assert(out@ =~= shapes_by_state_spec(bs, *col));

    let ghost by_state = out@;
    let ghost names = by_name@;
    let mut names_out: StrMap<u32> = StrMap::new();
    let m = by_name.len();
    let mut j: usize = 0;
    assert(names_out@ =~= Map::new(
        |k: Seq<char>|
            (exists|jj: int| 0 <= jj < j && by_name.spec_entries()[jj].0@ == k) && names.contains_key(k)
                && names[k] < bs.len() && by_state.contains_key(bs[names[k] as int].default_state),
        |k: Seq<char>| by_state[bs[names[k] as int].default_state],
    ));
    while j < m
        invariant
            m == by_name.spec_entries().len(),
            by_name.wf(),
            names == by_name@,
            bs == blocks@,
            n == bs.len(),
            by_state == out@,
            j <= m,
            names_out.wf(),
            names_out@ == Map::new(
                |k: Seq<char>|
                    (exists|jj: int| 0 <= jj < j && by_name.spec_entries()[jj].0@ == k)
                        && names.contains_key(k) && names[k] < bs.len() && by_state.contains_key(
                        bs[names[k] as int].default_state,
                    ),
                |k: Seq<char>| by_state[bs[names[k] as int].default_state],
            ),
        decreases m - j,
    {
        let (key, pos) = by_name.entry(j);
        proof {
            by_name.lemma_entry(j as int);
        }
        let ghost before = names_out@;
        if *pos < blocks.len() {
            let ds = blocks[*pos].default_state;
            if let Some(x) = out.get(&ds) {
                names_out.insert(key.clone(), *x);
            }
        }
        j = j + 1;
        proof {
            assert forall|a: int| 0 <= a < j - 1 implies by_name.spec_entries()[a].0@ != key@ by {
                by_name.lemma_distinct(a, j - 1);
            }
        }
        assert(names_out@ =~= Map::new(
            |k: Seq<char>|
                (exists|jj: int| 0 <= jj < j && by_name.spec_entries()[jj].0@ == k) && names.contains_key(
                    k,
                ) && names[k] < bs.len() && by_state.contains_key(bs[names[k] as int].default_state),
            |k: Seq<char>| by_state[bs[names[k] as int].default_state],
        ));
    }
    proof {
        assert forall|k: Seq<char>| names.contains_key(k) implies (exists|jj: int|
            0 <= jj < m && by_name.spec_entries()[jj].0@ == k) by {
            let jj = by_name.lemma_key(k);
        }
    }
    assert(names_out@ =~= shapes_by_name_spec(bs, names, by_state));
    (out, names_out)
}


/// `s` is the decimal spelling of a `u32`, as `u32::to_string` writes it:
/// digits only, no leading zero (but for `0` itself).
pub open spec fn is_canonical_decimal(s: Seq<char>) -> bool {
    &&& s.len() > 0
    &&& all_digits(s)
    &&& (s.len() == 1 || s[0] != '0')
    &&& decimal_value(s) <= u32::MAX
}

/// The shape index that a key of the collision data's shape table names:
/// the number whose decimal spelling the key is. A key spelled any other
/// way names no index.
pub fn shape_index_of_key(key: &str) -> (r: Option<u32>)
    ensures
        is_canonical_decimal(key@) ==> r == Some(decimal_value(key@) as u32),
        !is_canonical_decimal(key@) ==> r is None,
{
    let cs = chars_of(key);
    let n = cs.len();
    if n == 0 || !('0' <= cs[0] && cs[0] <= '9') || (n > 1 && cs[0] == '0') {
        return None;
    }
    assert(cs@.subrange(0, n as int) =~= cs@);
    let r = parse_u32_range(&cs, 0, n);
    proof {
        assert(cs@[0] != '+');
        if is_canonical_decimal(key@) {
            lemma_decimal_nonneg(key@);
        }
    }
    r
}

} // verus!
