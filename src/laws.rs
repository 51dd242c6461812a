//! Properties that hold across the library's functions, proved over the
//! same spec functions that their contracts use.
use vstd::prelude::*;
use crate::cached_data::{
    IndexedData, cache_key_spec, compare_spec, insert_if_absent_spec, resolve_spec_of,
};
use crate::data_source::fetch_count;
use crate::indexer::{in_states, lemma_state_index};
use crate::text::version_parts;
use crate::version::{
    Edition, EditionVersions, Version, VersionData, bedrock_tag, edition_token,
    lemma_mc_index, lemma_resolved_is_entry, lemma_supported, parts_cmp, pc_tag, split_edition,
    supported_spec,
};

verus! {

/// The prefix that names an edition in a version string: `pc_`, `bedrock_`.
pub open spec fn edition_tag(e: Edition) -> Seq<char> {
    edition_token(e) + seq!['_']
}

proof fn lemma_split_tagged(e: Edition, s: Seq<char>)
    ensures
        split_edition(edition_tag(e) + s) == (e, s),
{
    let t = edition_tag(e) + s;
    match e {
        Edition::Pc => {
            assert(t.take(3) =~= pc_tag());
            assert(t.skip(3) =~= s);
        },
        Edition::Bedrock => {
            assert(t[0] == 'b');
            assert(t.take(3)[0] != pc_tag()[0]);
            assert(t.take(8) =~= bedrock_tag());
            assert(t.skip(8) =~= s);
        },
    }
}

/// Within one edition, `is_older_than` holds exactly when this version's
/// data version is smaller than the other's, and `is_newer_or_equal_to`
/// exactly when it is not.
pub proof fn lemma_comparisons_follow_data_version(
    v1: Version,
    versions: EditionVersions,
    other: Seq<char>,
    v2: Version,
)
    requires
        resolve_spec_of(versions, other) == Some(v2),
        v1.edition == v2.edition,
    ensures
        compare_spec(v1, versions, other, true) == Some(v1.data_version < v2.data_version),
        compare_spec(v1, versions, other, false) == Some(v1.data_version >= v2.data_version),
{
}

/// Versions of different editions are never compared: both comparisons
/// fail.
pub proof fn lemma_cross_edition_comparisons_fail(
    v1: Version,
    versions: EditionVersions,
    other: Seq<char>,
    v2: Version,
)
    requires
        resolve_spec_of(versions, other) == Some(v2),
        v1.edition != v2.edition,
    ensures
        compare_spec(v1, versions, other, true) is None,
        compare_spec(v1, versions, other, false) is None,
{
}

/// Every state in a block's range maps to that block, unless a later block's
/// range holds the state too (then the later block owns it).
pub proof fn lemma_block_owns_its_states(d: IndexedData, i: int, s: u32)
    requires
        d.wf(),
        0 <= i < d.blocks_array@.len(),
        in_states(d.blocks_array@[i], s),
        forall|j: int|
            i < j < d.blocks_array@.len() ==> !in_states(#[trigger] d.blocks_array@[j], s),
    ensures
        d.blocks_by_state_id@.contains_key(s),
        d.blocks_by_state_id@[s] == i,
{
    let bs = d.blocks_array@;
    lemma_state_index(bs, s);
    let k = d.blocks_by_state_id@[s] as int;
    if k < i {
        assert(!in_states(bs[i], s));
    } else if k > i {
        assert(!in_states(bs[k], s));
    }
}

/// Feeding back the version string of a resolved version (with its edition
/// prefix) gives that version again exactly when the registry lists the
/// version under its own string; otherwise that string names another
/// version (an earlier entry of the same name, or the newest release of a
/// major version of that name).
pub proof fn lemma_resolution_idempotent(versions: EditionVersions, s: Seq<char>, v: Version)
    requires
        versions.wf(),
        resolve_spec_of(versions, s) == Some(v),
    ensures
        versions.spec_for(v.edition) matches Ok(d) && d.by_minecraft_version@.contains_key(
            v.minecraft_version@,
        ) && (resolve_spec_of(versions, edition_tag(v.edition) + v.minecraft_version@) == Some(v)
            <==> d.by_minecraft_version@[v.minecraft_version@] == v),
{
    let (e, part) = split_edition(s);
    let d = versions.spec_for(e)->Ok_0;
    lemma_resolved_is_entry(d, part);
    let k = choose|k: int| 0 <= k < d.entries@.len() && d.entries@[k] == v;
    assert(d.entries@[k].edition == d.edition);
    lemma_mc_index(d.entries@);
    lemma_split_tagged(v.edition, v.minecraft_version@);
}

/// A version string without an edition prefix resolves as it does with the
/// `pc_` prefix, so both reach the same cached snapshot.
pub proof fn lemma_prefix_invariance(versions: EditionVersions, s: Seq<char>)
    requires
        split_edition(s) == (Edition::Pc, s),
    ensures
        resolve_spec_of(versions, pc_tag() + s) == resolve_spec_of(versions, s),
        resolve_spec_of(versions, s) matches Some(v) ==> cache_key_spec(v) == cache_key_spec(
            resolve_spec_of(versions, pc_tag() + s)->0,
        ),
{
    lemma_split_tagged(Edition::Pc, s);
    assert(edition_tag(Edition::Pc) =~= pc_tag());
}

/// Once the snapshot cache holds a snapshot under a key, inserting keeps
/// it: every later request for that key gets the same snapshot.
pub proof fn lemma_cache_keeps_snapshots<T>(m: Map<Seq<char>, T>, key: Seq<char>, v: T, k: Seq<char>)
    requires
        m.contains_key(k),
    ensures
        insert_if_absent_spec(m, key, v).contains_key(k),
        insert_if_absent_spec(m, key, v)[k] == m[k],
{
}

/// The supported versions of an edition come oldest first, and each of them
/// (with the edition's prefix) resolves.
pub proof fn lemma_supported_versions(versions: EditionVersions, e: Edition, d: VersionData)
    requires
        versions.wf(),
        versions.spec_for(e) == Ok::<VersionData, String>(d),
    ensures
        forall|i: int|
            0 <= i < supported_spec(d).len() - 1 ==> parts_cmp(
                version_parts(supported_spec(d)[i]@),
                version_parts(#[trigger] supported_spec(d)[i + 1]@),
                0,
            ) <= 0,
        forall|i: int|
            0 <= i < supported_spec(d).len() ==> resolve_spec_of(
                versions,
                edition_tag(e) + (#[trigger] supported_spec(d)[i])@,
            ) is Some,
{
    lemma_supported(d);
    assert forall|i: int| 0 <= i < supported_spec(d).len() implies resolve_spec_of(
        versions,
        edition_tag(e) + (#[trigger] supported_spec(d)[i])@,
    ) is Some by {
        lemma_split_tagged(e, supported_spec(d)[i]@);
    }
}

/// The supported versions depend on the registry's entries alone: two
/// requests against the same registry give equal lists.
pub proof fn lemma_supported_versions_repeatable(d1: VersionData, d2: VersionData)
    requires
        d1.entries@ == d2.entries@,
    ensures
        supported_spec(d1) == supported_spec(d2),
{
}

/// A run of data-root requests fetches at most once (each fetch succeeding),
/// and never once a root is remembered.
pub proof fn lemma_single_fetch(memo: Option<Seq<char>>, present: Seq<bool>, target: Seq<char>)
    ensures
        fetch_count(memo, present, target) <= 1,
        memo is Some ==> fetch_count(memo, present, target) == 0,
    decreases present.len(),
{
    if present.len() > 0 {
        let rest = present.skip(1);
        match memo {
            Some(p) => {
                lemma_single_fetch(Some(p), rest, target);
            },
            None => {
                lemma_single_fetch(Some(target), rest, target);
            },
        }
    }
}

} // verus!
