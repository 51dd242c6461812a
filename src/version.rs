//! Editions, versions, the per-edition version registry and the resolution
//! of loose version strings.
use vstd::prelude::*;
use std::collections::HashMap;
use crate::error::McDataError;
use crate::sorting::{SortOrder, insert_sorted, sort_spec, sort_stable};
use crate::sorting;
use crate::strmap::StrMap;
use crate::text::{chars_of, parse_i32, parse_i32_spec, starts_with, str_eq};
use vstd::string::StrSliceExecFns;

verus! {

broadcast use vstd::std_specs::hash::group_hash_axioms;

/// The game line: PC (Java) or Bedrock.
#[derive(Debug, Clone, Copy, PartialEq, Eq, Hash, Structural)]
pub enum Edition {
    Pc,
    Bedrock,
}

/// The short token that names an edition in paths and keys.
pub open spec fn edition_token(e: Edition) -> Seq<char> {
    match e {
        Edition::Pc => seq!['p', 'c'],
        Edition::Bedrock => seq!['b', 'e', 'd', 'r', 'o', 'c', 'k'],
    }
}

impl Edition {
    /// The token used for this edition in paths: `pc` or `bedrock`.
    pub fn path_prefix(&self) -> (r: &'static str)
        ensures
            r@ == edition_token(*self),
    {
        match self {
            Edition::Pc => {
                proof {
                    reveal_strlit("pc");
                }
                assert("pc"@ =~= edition_token(Edition::Pc));
                "pc"
            },
            Edition::Bedrock => {
                proof {
                    reveal_strlit("bedrock");
                }
                assert("bedrock"@ =~= edition_token(Edition::Bedrock));
                "bedrock"
            },
        }
    }
}

pub open spec fn release_word() -> Seq<char> {
    seq!['r', 'e', 'l', 'e', 'a', 's', 'e']
}

/// The release type given to an entry that names none.
pub fn default_release_type() -> (r: String)
    ensures
        r@ == release_word(),
{
    proof {
        reveal_strlit("release");
    }
    assert("release"@ =~= release_word());
    "release".to_owned()
}

/// One entry of `protocolVersions.json`.
#[derive(Debug, Clone)]
pub struct ProtocolVersionInfo {
    pub minecraft_version: String,
    /// The protocol number.
    pub version: i32,
    /// The data version, where the source gives one.
    pub data_version: Option<i32>,
    pub uses_netty: bool,
    pub major_version: String,
    pub release_type: String,
}

/// A short version record, as some data files carry it.
#[derive(Debug, Clone)]
pub struct VersionInfo {
    pub version: i32,
    pub minecraft_version: String,
    pub major_version: String,
    pub release_type: String,
}

/// A canonical version. Within one edition `data_version` orders versions;
/// versions of different editions are not comparable.
#[derive(Debug, Clone, Eq, Hash)]
pub struct Version {
    /// The user-facing version string, such as `1.18.2`.
    pub minecraft_version: String,
    /// The major version string, such as `1.18`.
    pub major_version: String,
    /// The protocol number.
    pub version: i32,
    /// The data version; synthesized (zero or negative) where the source has none.
    pub data_version: i32,
    pub edition: Edition,
    /// `release`, `snapshot`, and so on.
    pub release_type: String,
}

pub open spec fn is_release(v: Version) -> bool {
    v.release_type@ == release_word()
}

impl Version {
    /// A copy of this version, field for field.
    pub fn copied(&self) -> (r: Version)
        ensures
            r == *self,
    {
        Version {
            minecraft_version: self.minecraft_version.clone(),
            major_version: self.major_version.clone(),
            version: self.version,
            data_version: self.data_version,
            edition: self.edition,
            release_type: self.release_type.clone(),
        }
    }

    /// Whether this version's release type is `release`.
    pub fn is_release(&self) -> (r: bool)
        ensures
            r == is_release(*self),
    {
        proof {
            reveal_strlit("release");
        }
        assert("release"@ =~= release_word());
        str_eq(self.release_type.as_str(), "release")
    }
}

/// Two versions are equal when every field is.
impl PartialEq for Version {
    fn eq(&self, other: &Version) -> (r: bool) {
        self.minecraft_version == other.minecraft_version && self.major_version
            == other.major_version && self.version == other.version && self.data_version
            == other.data_version && self.edition == other.edition && self.release_type
            == other.release_type
    }
}

impl vstd::std_specs::cmp::PartialEqSpecImpl for Version {
    open spec fn obeys_eq_spec() -> bool {
        true
    }

    open spec fn eq_spec(&self, other: &Version) -> bool {
        &&& self.minecraft_version@ == other.minecraft_version@
        &&& self.major_version@ == other.major_version@
        &&& self.version == other.version
        &&& self.data_version == other.data_version
        &&& self.edition == other.edition
        &&& self.release_type@ == other.release_type@
    }
}

/// How two versions compare: by data version within one edition; versions
/// of different editions are not comparable.
pub open spec fn version_order(a: Version, b: Version) -> Option<std::cmp::Ordering> {
    if a.edition != b.edition {
        None
    } else if a.data_version < b.data_version {
        Some(std::cmp::Ordering::Less)
    } else if a.data_version > b.data_version {
        Some(std::cmp::Ordering::Greater)
    } else {
        Some(std::cmp::Ordering::Equal)
    }
}

/// Versions order by data version within one edition; across editions
/// `partial_cmp` gives `None` (and `<`, `>=` and the like are all false).
impl PartialOrd for Version {
    fn partial_cmp(&self, other: &Version) -> (r: Option<std::cmp::Ordering>) {
        if self.edition != other.edition {
            None
        } else if self.data_version < other.data_version {
            Some(std::cmp::Ordering::Less)
        } else if self.data_version > other.data_version {
            Some(std::cmp::Ordering::Greater)
        } else {
            Some(std::cmp::Ordering::Equal)
        }
    }
}

impl vstd::std_specs::cmp::PartialOrdSpecImpl for Version {
    open spec fn obeys_partial_cmp_spec() -> bool {
        true
    }

    open spec fn partial_cmp_spec(&self, other: &Version) -> Option<std::cmp::Ordering> {
        version_order(*self, *other)
    }
}

/// Newest first: a larger data version comes before a smaller one.
impl SortOrder for Version {
    open spec fn spec_before(&self, other: &Self) -> bool {
        self.data_version > other.data_version
    }

    fn before(&self, other: &Self) -> (r: bool) {
        self.data_version > other.data_version
    }

    proof fn lemma_asymmetric(a: &Self, b: &Self) {
    }
}

/// Highest protocol number first.
impl SortOrder for ProtocolVersionInfo {
    open spec fn spec_before(&self, other: &Self) -> bool {
        self.version > other.version
    }

    fn before(&self, other: &Self) -> (r: bool) {
        self.version > other.version
    }

    proof fn lemma_asymmetric(a: &Self, b: &Self) {
    }
}

/// The version that the entry at position `i` of the sorted list becomes:
/// an entry without a data version gets `-i`.
pub open spec fn to_version(raw: ProtocolVersionInfo, i: int, edition: Edition) -> Version {
    Version {
        minecraft_version: raw.minecraft_version,
        major_version: raw.major_version,
        version: raw.version,
        data_version: match raw.data_version {
            Some(d) => d,
            None => (-i) as i32,
        },
        edition,
        release_type: raw.release_type,
    }
}

/// The entries of `protocolVersions.json` sorted by protocol number, newest
/// first, each turned into a version.
pub open spec fn registry_entries(raw: Seq<ProtocolVersionInfo>, edition: Edition) -> Seq<Version> {
    let sorted = sort_spec(raw);
    Seq::new(sorted.len(), |i: int| to_version(sorted[i], i, edition))
}

/// Each version string to the entry of that string (the last one where
/// entries share it).
pub open spec fn own_index(es: Seq<Version>) -> Map<Seq<char>, Version>
    decreases es.len(),
{
    if es.len() == 0 {
        Map::empty()
    } else {
        own_index(es.drop_last()).insert(es.last().minecraft_version@, es.last())
    }
}

/// The map from version strings to versions: every entry under its own
/// string, and every major version (also where a version bears the same
/// name) to the newest release of its series, or to the series' newest
/// entry where it has no release.
pub open spec fn mc_index(es: Seq<Version>) -> Map<Seq<char>, Version> {
    let majors = major_index(es);
    own_index(es).union_prefer_right(
        Map::new(|m: Seq<char>| majors.contains_key(m), |m: Seq<char>| preferred(majors[m])),
    )
}

/// `y` is an entry of major version `m`.
pub open spec fn in_series(es: Seq<Version>, m: Seq<char>, y: Version) -> bool {
    es.contains(y) && y.major_version@ == m
}

/// `v` is what major version `m` should name: an entry of the series; its
/// newest release where the series has a release, else its newest entry.
pub open spec fn newest_of_series(es: Seq<Version>, m: Seq<char>, v: Version) -> bool {
    &&& in_series(es, m, v)
    &&& (exists|y: Version| in_series(es, m, y) && is_release(y)) ==> is_release(v) && forall|
        y: Version,
    | #[trigger] in_series(es, m, y) && is_release(y) ==> y.data_version <= v.data_version
    &&& !(exists|y: Version| in_series(es, m, y) && is_release(y)) ==> forall|y: Version|
        #[trigger] in_series(es, m, y) ==> y.data_version <= v.data_version
}

/// The versions of each major version, newest first.
pub open spec fn major_index(es: Seq<Version>) -> Map<Seq<char>, Seq<Version>>
    decreases es.len(),
{
    if es.len() == 0 {
        Map::empty()
    } else {
        let v = es.last();
        let m = major_index(es.drop_last());
        let k = v.major_version@;
        m.insert(k, insert_sorted(if m.contains_key(k) { m[k] } else { Seq::empty() }, v))
    }
}

/// The versions that share each protocol number, newest first.
pub open spec fn protocol_index(es: Seq<Version>) -> Map<i32, Seq<Version>>
    decreases es.len(),
{
    if es.len() == 0 {
        Map::empty()
    } else {
        let v = es.last();
        let m = protocol_index(es.drop_last());
        let k = v.version;
        m.insert(k, insert_sorted(if m.contains_key(k) { m[k] } else { Seq::empty() }, v))
    }
}

/// The version registry of one edition.
#[derive(Debug, Clone)]
pub struct VersionData {
    pub edition: Edition,
    /// Every version of the edition, highest protocol number first.
    pub entries: Vec<Version>,
    /// Each version string to its version, and each major version string
    /// to the newest release of its series (its newest version where it
    /// has no release).
    pub by_minecraft_version: StrMap<Version>,
    /// Each major version to its versions, newest first.
    pub by_major_version: StrMap<Vec<Version>>,
    /// Each protocol number to the versions that share it, newest first.
    pub by_protocol_version: HashMap<i32, Vec<Version>>,
}

impl VersionData {
    pub open spec fn major_lists(&self) -> Map<Seq<char>, Seq<Version>> {
        self.by_major_version@.map_values(|l: Vec<Version>| l@)
    }

    pub open spec fn protocol_lists(&self) -> Map<i32, Seq<Version>> {
        self.by_protocol_version@.map_values(|l: Vec<Version>| l@)
    }

    /// The tables index the entries, all of which belong to the edition.
    pub open spec fn wf(&self) -> bool {
        &&& self.by_minecraft_version.wf()
        &&& self.by_major_version.wf()
        &&& self.by_minecraft_version@ == mc_index(self.entries@)
        &&& self.major_lists() == major_index(self.entries@)
        &&& self.protocol_lists() == protocol_index(self.entries@)
        &&& forall|i: int| 0 <= i < self.entries@.len() ==> (#[trigger] self.entries@[i]).edition
            == self.edition
    }
}

/// Later entries are no newer than earlier ones in a newest-first list.
pub proof fn lemma_newest_first(s: Seq<Version>)
    requires
        crate::sorting::is_sorted(s),
    ensures
        forall|i: int, j: int|
            0 <= i <= j < s.len() ==> (#[trigger] s[j]).data_version <= (#[trigger] s[i]).data_version,
    decreases s.len(),
{
    if s.len() > 1 {
        let t = s.drop_last();
        assert(crate::sorting::is_sorted(t)) by {
            assert forall|i: int| 0 <= i < t.len() - 1 implies !(#[trigger] t[i + 1]).spec_before(
                &t[i],
            ) by {
                assert(!s[i + 1].spec_before(&s[i]));
            }
        }
        lemma_newest_first(t);
        assert forall|i: int, j: int| 0 <= i <= j < s.len() implies (#[trigger] s[j]).data_version
            <= (#[trigger] s[i]).data_version by {
            if j == s.len() - 1 && i < j {
                assert(!s[(j - 1) + 1].spec_before(&s[j - 1]));
                assert(t[j - 1] == s[j - 1] && t[i] == s[i]);
            } else if i < j {
                assert(t[j] == s[j] && t[i] == s[i]);
            }
        }
    }
}

/// Each list of the major index holds exactly the entries of its series,
/// newest first.
pub proof fn lemma_major_index(es: Seq<Version>, m: Seq<char>)
    ensures
        major_index(es).contains_key(m) <==> exists|y: Version| in_series(es, m, y),
        major_index(es).contains_key(m) ==> {
            &&& major_index(es)[m].len() > 0
            &&& crate::sorting::is_sorted(major_index(es)[m])
            &&& forall|y: Version| #[trigger]
                major_index(es)[m].contains(y) <==> in_series(es, m, y)
        },
    decreases es.len(),
{
    if es.len() > 0 {
        let t = es.drop_last();
        let v = es.last();
        lemma_major_index(t, m);
        let mt = major_index(t);
        let prev = if mt.contains_key(v.major_version@) {
            mt[v.major_version@]
        } else {
            Seq::empty()
        };
        assert forall|y: Version| es.contains(y) <==> (t.contains(y) || y == v) by {
            if es.contains(y) {
                let k = choose|k: int| 0 <= k < es.len() && es[k] == y;
                if k < es.len() - 1 {
                    assert(t[k] == y);
                }
            }
            if t.contains(y) {
                let k = choose|k: int| 0 <= k < t.len() && t[k] == y;
                assert(es[k] == y);
            }
            assert(es[es.len() - 1] == v);
        }
        assert forall|y: Version| in_series(es, m, y) <==> (in_series(t, m, y) || (y == v
            && v.major_version@ == m)) by {
        }
        if v.major_version@ == m {
            assert(in_series(es, m, v));
            crate::sorting::lemma_insert_sorted(prev, v);
            assert forall|y: Version| #[trigger]
                major_index(es)[m].contains(y) <==> in_series(es, m, y) by {
                crate::sorting::lemma_insert_sorted_contains(prev, v, y);
                if mt.contains_key(m) {
                    assert(mt[m].contains(y) <==> in_series(t, m, y));
                } else {
                    assert(!in_series(t, m, y));
                }
            }
        } else {
            assert(major_index(es)[m] == mt[m]);
            if major_index(es).contains_key(m) {
                assert(mt.contains_key(m));
                let y = choose|y: Version| in_series(t, m, y);
                assert(in_series(es, m, y));
                assert forall|y: Version| #[trigger]
                    major_index(es)[m].contains(y) <==> in_series(es, m, y) by {
                    assert(mt[m].contains(y) <==> in_series(t, m, y));
                }
            }
            if exists|y: Version| in_series(es, m, y) {
                let y = choose|y: Version| in_series(es, m, y);
                assert(in_series(t, m, y));
            }
        }
    }
}

/// The first release of a list, where it has one, stands after only
/// non-releases; where it has none, the list holds no release.
pub proof fn lemma_first_release(s: Seq<Version>)
    ensures
        first_release(s) matches Some(v) ==> exists|k: int|
            0 <= k < s.len() && s[k] == v && is_release(v) && forall|j: int|
                0 <= j < k ==> !is_release(#[trigger] s[j]),
        first_release(s) is None ==> forall|j: int| 0 <= j < s.len() ==> !is_release(#[trigger] s[j]),
    decreases s.len(),
{
    if s.len() > 0 && !is_release(s[0]) {
        let t = s.skip(1);
        lemma_first_release(t);
        if let Some(v) = first_release(t) {
            let k = choose|k: int|
                0 <= k < t.len() && t[k] == v && is_release(v) && forall|j: int|
                    0 <= j < k ==> !is_release(#[trigger] t[j]);
            assert(s[k + 1] == v);
            assert forall|j: int| 0 <= j < k + 1 implies !is_release(#[trigger] s[j]) by {
                if j > 0 {
                    assert(s[j] == t[j - 1]);
                }
            }
        } else {
            assert forall|j: int| 0 <= j < s.len() implies !is_release(#[trigger] s[j]) by {
                if j > 0 {
                    assert(s[j] == t[j - 1]);
                }
            }
        }
    } else if s.len() > 0 {
        assert(s[0] == s[0]);
    }
}

/// The version a major version names is the newest release of its
/// series, or its newest entry where it has no release.
pub proof fn lemma_preferred_is_newest(es: Seq<Version>, m: Seq<char>)
    requires
        major_index(es).contains_key(m),
    ensures
        newest_of_series(es, m, preferred(major_index(es)[m])),
{
    lemma_major_index(es, m);
    let l = major_index(es)[m];
    let v = preferred(l);
    lemma_newest_first(l);
    lemma_first_release(l);
    match first_release(l) {
        Some(f) => {
            let k = choose|k: int|
                0 <= k < l.len() && l[k] == f && is_release(f) && forall|j: int|
                    0 <= j < k ==> !is_release(#[trigger] l[j]);
            assert(l.contains(f));
            assert forall|y: Version| #[trigger]
                in_series(es, m, y) && is_release(y) implies y.data_version <= v.data_version by {
                assert(l.contains(y));
                let j = choose|j: int| 0 <= j < l.len() && l[j] == y;
                if j < k {
                    assert(!is_release(l[j]));
                }
            }
        },
        None => {
            assert(l.contains(l[0]));
            assert(!(exists|y: Version| in_series(es, m, y) && is_release(y))) by {
                if exists|y: Version| in_series(es, m, y) && is_release(y) {
                    let y = choose|y: Version| in_series(es, m, y) && is_release(y);
                    assert(l.contains(y));
                    let j = choose|j: int| 0 <= j < l.len() && l[j] == y;
                    assert(!is_release(l[j]));
                }
            }
            assert forall|y: Version| #[trigger] in_series(es, m, y) implies y.data_version
                <= v.data_version by {
                assert(l.contains(y));
                let j = choose|j: int| 0 <= j < l.len() && l[j] == y;
            }
        },
    }
}

/// Each version of the version-string map is an entry, named by its own
/// string or its major version; each entry's own string is a key.
pub proof fn lemma_mc_index(es: Seq<Version>)
    ensures
        forall|k: Seq<char>| #[trigger]
            mc_index(es).contains_key(k) ==> es.contains(mc_index(es)[k]) && (
            mc_index(es)[k].minecraft_version@ == k || mc_index(es)[k].major_version@ == k),
        forall|y: Version| #[trigger] es.contains(y) ==> mc_index(es).contains_key(y.minecraft_version@),
{
    lemma_own_index(es);
    assert forall|k: Seq<char>| #[trigger] mc_index(es).contains_key(k) implies es.contains(
        mc_index(es)[k],
    ) && (mc_index(es)[k].minecraft_version@ == k || mc_index(es)[k].major_version@ == k) by {
        if major_index(es).contains_key(k) {
            lemma_preferred_is_newest(es, k);
        }
    }
}

/// Each list of the protocol index holds entries only, and is not empty.
pub proof fn lemma_protocol_index(es: Seq<Version>, p: i32)
    ensures
        protocol_index(es).contains_key(p) ==> protocol_index(es)[p].len() > 0 && forall|y: Version|
            #[trigger] protocol_index(es)[p].contains(y) ==> es.contains(y),
    decreases es.len(),
{
    if es.len() > 0 {
        let t = es.drop_last();
        let v = es.last();
        lemma_protocol_index(t, p);
        let pt = protocol_index(t);
        let prev = if pt.contains_key(v.version) {
            pt[v.version]
        } else {
            Seq::empty()
        };
        assert forall|y: Version| t.contains(y) implies es.contains(y) by {
            let k = choose|k: int| 0 <= k < t.len() && t[k] == y;
            assert(es[k] == y);
        }
        assert(es[es.len() - 1] == v);
        if v.version == p {
            assert forall|y: Version| #[trigger] protocol_index(es)[p].contains(y) implies es.contains(y) by {
                crate::sorting::lemma_insert_sorted_contains(prev, v, y);
            }
        }
    }
}

/// The preferred version of a list is one of its elements.
pub proof fn lemma_preferred_member(s: Seq<Version>)
    requires
        s.len() > 0,
    ensures
        s.contains(preferred(s)),
{
    lemma_first_release(s);
    if let Some(v) = first_release(s) {
        let k = choose|k: int|
            0 <= k < s.len() && s[k] == v && is_release(v) && forall|j: int|
                0 <= j < k ==> !is_release(#[trigger] s[j]);
    } else {
        assert(s[0] == s[0]);
    }
}

/// What a version part resolves to is an entry of the registry.
pub proof fn lemma_resolved_is_entry(d: VersionData, part: Seq<char>)
    requires
        d.wf(),
    ensures
        resolve_in_spec(d, part) matches Some(v) ==> d.entries@.contains(v),
{
    let es = d.entries@;
    lemma_mc_index(es);
    let mc = d.by_minecraft_version@;
    if mc.contains_key(part) && (mc[part].minecraft_version@ == part || mc[part].major_version@
        == part) {
    } else if parse_i32_spec(part) is Some && d.protocol_lists().contains_key(parse_i32_spec(part)->0)
        && d.protocol_lists()[parse_i32_spec(part)->0].len() > 0 {
        let p = parse_i32_spec(part)->0;
        lemma_protocol_index(es, p);
        lemma_preferred_member(d.protocol_lists()[p]);
    } else if d.major_lists().contains_key(part) && d.major_lists()[part].len() > 0 {
        lemma_major_index(es, part);
        let l = d.major_lists()[part];
        assert(l.contains(l[0]));
    }
}

proof fn lemma_own_index(es: Seq<Version>)
    ensures
        forall|k: Seq<char>| #[trigger]
            own_index(es).contains_key(k) ==> es.contains(own_index(es)[k]) && own_index(
                es,
            )[k].minecraft_version@ == k,
        forall|y: Version| #[trigger] es.contains(y) ==> own_index(es).contains_key(y.minecraft_version@),
    decreases es.len(),
{
    if es.len() > 0 {
        let t = es.drop_last();
        lemma_own_index(t);
        assert(es[es.len() - 1] == es.last());
        assert forall|k: Seq<char>| #[trigger] own_index(es).contains_key(k) implies es.contains(
            own_index(es)[k],
        ) && own_index(es)[k].minecraft_version@ == k by {
            if k != es.last().minecraft_version@ {
                let y = own_index(t)[k];
                let j = choose|j: int| 0 <= j < t.len() && t[j] == y;
                assert(es[j] == y);
            }
        }
        assert forall|y: Version| #[trigger] es.contains(y) implies own_index(es).contains_key(
            y.minecraft_version@,
        ) by {
            let j = choose|j: int| 0 <= j < es.len() && es[j] == y;
            if j < es.len() - 1 {
                assert(t[j] == y);
                assert(t.contains(y));
            } else {
                assert(y == es.last());
            }
        }
    }
}

/// Builds the registry of `edition` from the entries of its
/// `protocolVersions.json`: sorts them by protocol number (newest first),
/// gives each entry without a data version the data version `-i`, `i` being
/// its position, and indexes the result. Every major version names the
/// newest release of its series, or its newest entry where it has none.
pub fn load_and_index_versions(edition: Edition, raw: Vec<ProtocolVersionInfo>) -> (r: VersionData)
    requires
        raw@.len() <= i32::MAX,
    ensures
        r.wf(),
        r.edition == edition,
        r.entries@ == registry_entries(raw@, edition),
        forall|m: Seq<char>, y: Version|
            #[trigger] in_series(r.entries@, m, y) ==> r.by_minecraft_version@.contains_key(m)
                && newest_of_series(r.entries@, m, r.by_minecraft_version@[m]),
{
    let ghost es = registry_entries(raw@, edition);
    let sorted = sort_stable(raw);
    proof {
        sorting::lemma_sort_sorted(raw@);
    }
    let mut entries: Vec<Version> = Vec::new();
    let mut by_mc: StrMap<Version> = StrMap::new();
    let mut by_major: StrMap<Vec<Version>> = StrMap::new();
    let mut by_proto: HashMap<i32, Vec<Version>> = HashMap::new();
    let n = sorted.len();
    let mut i: usize = 0;
    proof {
        assert(es.take(0) =~= Seq::<Version>::empty());
        assert(by_mc@ =~= own_index(es.take(0)));
        assert(by_major@.map_values(|l: Vec<Version>| l@) =~= major_index(es.take(0)));
        assert(by_proto@.map_values(|l: Vec<Version>| l@) =~= protocol_index(es.take(0)));
    }
    while i < n
        invariant
            n == sorted@.len(),
            n == es.len(),
            n <= i32::MAX,
            i <= n,
            es == registry_entries(raw@, edition),
            sorted@ == sort_spec(raw@),
            entries@ == es.take(i as int),
            by_mc.wf(),
            by_major.wf(),
            by_mc@ == own_index(es.take(i as int)),
            by_major@.map_values(|l: Vec<Version>| l@) == major_index(es.take(i as int)),
            by_proto@.map_values(|l: Vec<Version>| l@) == protocol_index(es.take(i as int)),
        decreases n - i,
    {
        let e = &sorted[i];
        let dv: i32 = match e.data_version {
            Some(d) => d,
            None => -(i as i32),
        };
        let v = Version {
            minecraft_version: e.minecraft_version.clone(),
            major_version: e.major_version.clone(),
            version: e.version,
            data_version: dv,
            edition,
            release_type: e.release_type.clone(),
        };
        assert(v == es[i as int]);
        let ghost pre = es.take(i as int);
        let ghost nxt = es.take(i + 1);
        assert(nxt.drop_last() =~= pre);
        assert(nxt.last() == v);

        by_mc.insert(v.minecraft_version.clone(), v.copied());

        let ghost old_major = by_major@;
        by_major.insert_into_list(v.major_version.clone(), v.copied());
        proof {
            let lhs = by_major@.map_values(|l: Vec<Version>| l@);
            let rhs = major_index(nxt);
            assert(lhs.dom() =~= rhs.dom());
            assert forall|k: Seq<char>| lhs.contains_key(k) implies #[trigger] lhs[k] == rhs[k] by {
                if k != v.major_version@ {
                    assert(by_major@[k] == old_major[k]);
                }
            }
            assert(lhs =~= rhs);
        }

        let ghost old_proto = by_proto@;
        let mut list: Vec<Version> = match by_proto.remove(&v.version) {
            Some(l) => l,
            None => Vec::new(),
        };
        sorting::insert_sorted_vec(&mut list, v.copied());
        by_proto.insert(v.version, list);
        proof {
            let lhs = by_proto@.map_values(|l: Vec<Version>| l@);
            let rhs = protocol_index(nxt);
            assert(lhs.dom() =~= rhs.dom());
            assert forall|k: i32| lhs.contains_key(k) implies #[trigger] lhs[k] == rhs[k] by {
                if k != v.version {
                    assert(by_proto@[k] == old_proto[k]);
                }
            }
            assert(lhs =~= rhs);
        }
        entries.push(v);
        i = i + 1;
        assert(entries@ =~= es.take(i as int));
    }
    assert(es.take(n as int) =~= es);

    // Each major version names the preferred version of its series.
    let ghost own = by_mc@;
    let ghost majors = major_index(es);
    let m = by_major.len();
    let mut j: usize = 0;
    assert(by_mc@ =~= own.union_prefer_right(
        Map::new(
            |k: Seq<char>| (exists|jj: int| 0 <= jj < j && by_major.spec_entries()[jj].0@ == k),
            |k: Seq<char>| preferred(majors[k]),
        ),
    ));
    while j < m
        invariant
            m == by_major.spec_entries().len(),
            by_major.wf(),
            by_major@.map_values(|l: Vec<Version>| l@) == majors,
            majors == major_index(es),
            entries@ == es,
            es == registry_entries(raw@, edition),
            j <= m,
            by_mc.wf(),
            by_mc@ == own.union_prefer_right(
                Map::new(
                    |k: Seq<char>|
                        (exists|jj: int| 0 <= jj < j && by_major.spec_entries()[jj].0@ == k),
                    |k: Seq<char>| preferred(majors[k]),
                ),
            ),
        decreases m - j,
    {
        let (key, list) = by_major.entry(j);
        proof {
            by_major.lemma_entry(j as int);
            assert(majors.contains_key(key@));
            assert(majors[key@] == list@);
            lemma_major_index(es, key@);
        }
        let p = preferred_of(list);
        by_mc.insert(key.clone(), p);
        j = j + 1;
        assert(by_mc@ =~= own.union_prefer_right(
            Map::new(
                |k: Seq<char>| (exists|jj: int| 0 <= jj < j && by_major.spec_entries()[jj].0@ == k),
                |k: Seq<char>| preferred(majors[k]),
            ),
        ));
    }
    proof {
        assert forall|k: Seq<char>| majors.contains_key(k) implies (exists|jj: int|
            0 <= jj < m && by_major.spec_entries()[jj].0@ == k) by {
            let jj = by_major.lemma_key(k);
        }
        assert forall|k: Seq<char>|
            (exists|jj: int| 0 <= jj < m && by_major.spec_entries()[jj].0@ == k) implies majors.contains_key(
            k,
        ) by {
            let jj = choose|jj: int| 0 <= jj < m && by_major.spec_entries()[jj].0@ == k;
            by_major.lemma_entry(jj);
        }
        assert(by_mc@ =~= mc_index(es));
        assert forall|k: int| 0 <= k < es.len() implies (#[trigger] es[k]).edition == edition by {
        }
    }
    let r = VersionData {
        edition,
        entries,
        by_minecraft_version: by_mc,
        by_major_version: by_major,
        by_protocol_version: by_proto,
    };
    proof {
        lemma_majors_name_newest(r.entries@, r.by_minecraft_version@);
    }
    r
}

/// In the version-string map of a list of entries, every major version
/// names the newest release of its series, or its newest entry where the
/// series has no release.
pub proof fn lemma_majors_name_newest(es: Seq<Version>, mc: Map<Seq<char>, Version>)
    requires
        mc == mc_index(es),
    ensures
        forall|m: Seq<char>, y: Version|
            #[trigger] in_series(es, m, y) ==> mc.contains_key(m) && newest_of_series(es, m, mc[m]),
{
    assert forall|m: Seq<char>, y: Version| #[trigger] in_series(es, m, y) implies mc.contains_key(m)
        && newest_of_series(es, m, mc[m]) by {
        lemma_major_index(es, m);
        lemma_preferred_is_newest(es, m);
        assert(mc[m] == preferred(major_index(es)[m]));
    }
}


pub open spec fn pc_tag() -> Seq<char> {
    seq!['p', 'c', '_']
}

pub open spec fn bedrock_tag() -> Seq<char> {
    seq!['b', 'e', 'd', 'r', 'o', 'c', 'k', '_']
}

/// The edition that a version string names by its prefix (`pc_` or
/// `bedrock_`; PC when it has neither), and the rest of the string.
pub open spec fn split_edition(s: Seq<char>) -> (Edition, Seq<char>) {
    if s.len() >= 3 && s.take(3) == pc_tag() {
        (Edition::Pc, s.skip(3))
    } else if s.len() >= 8 && s.take(8) == bedrock_tag() {
        (Edition::Bedrock, s.skip(8))
    } else {
        (Edition::Pc, s)
    }
}

/// Splits `version_str` into its edition and its version part.
pub fn parse_version_string(version_str: &str) -> (r: (Edition, &str))
    ensures
        r.0 == split_edition(version_str@).0,
        r.1@ == split_edition(version_str@).1,
{
    let cs = chars_of(version_str);
    let n = version_str.unicode_len();
    proof {
        reveal_strlit("pc_");
        reveal_strlit("bedrock_");
    }
    assert("pc_"@ =~= pc_tag());
    assert("bedrock_"@ =~= bedrock_tag());
    if starts_with(&cs, "pc_") {
        (Edition::Pc, version_str.substring_char(3, n))
    } else if starts_with(&cs, "bedrock_") {
        (Edition::Bedrock, version_str.substring_char(8, n))
    } else {
        assert(version_str@.subrange(0, n as int) =~= version_str@);
        (Edition::Pc, version_str.substring_char(0, n))
    }
}

/// The first release in `s`, if it holds one.
pub open spec fn first_release(s: Seq<Version>) -> Option<Version>
    decreases s.len(),
{
    if s.len() == 0 {
        None
    } else if is_release(s[0]) {
        Some(s[0])
    } else {
        first_release(s.skip(1))
    }
}

/// The newest release in a newest-first list, or its newest entry where it
/// holds no release.
pub open spec fn preferred(s: Seq<Version>) -> Version {
    match first_release(s) {
        Some(v) => v,
        None => s[0],
    }
}

/// What a version part resolves to in one edition's registry: the version
/// stored under that exact string, if it is that version or its major
/// version; else the preferred version of that protocol number; else the
/// newest version of that major version.
pub open spec fn resolve_in_spec(d: VersionData, part: Seq<char>) -> Option<Version> {
    let mc = d.by_minecraft_version@;
    let protos = d.protocol_lists();
    let majors = d.major_lists();
    if mc.contains_key(part) && (mc[part].minecraft_version@ == part || mc[part].major_version@
        == part) {
        Some(mc[part])
    } else if parse_i32_spec(part) is Some && protos.contains_key(parse_i32_spec(part)->0)
        && protos[parse_i32_spec(part)->0].len() > 0 {
        Some(preferred(protos[parse_i32_spec(part)->0]))
    } else if majors.contains_key(part) && majors[part].len() > 0 {
        Some(majors[part][0])
    } else {
        None
    }
}

proof fn lemma_first_release_skip(s: Seq<Version>, j: int)
    requires
        0 <= j <= s.len(),
        forall|k: int| 0 <= k < j ==> !is_release(#[trigger] s[k]),
    ensures
        first_release(s) == first_release(s.skip(j)),
    decreases j,
{
    if j > 0 {
        assert forall|k: int| 0 <= k < j - 1 implies !is_release(#[trigger] s.skip(1)[k]) by {
            assert(s.skip(1)[k] == s[k + 1]);
        }
        lemma_first_release_skip(s.skip(1), j - 1);
        assert(s.skip(1).skip(j - 1) =~= s.skip(j));
        assert(!is_release(s[0]));
    } else {
        assert(s.skip(0) =~= s);
    }
}

/// The preferred version of a non-empty newest-first list.
fn preferred_of(s: &Vec<Version>) -> (r: Version)
    requires
        s@.len() > 0,
    ensures
        r == preferred(s@),
{
    let n = s.len();
    let mut j: usize = 0;
    while j < n
        invariant
            n == s@.len(),
            j <= n,
            forall|k: int| 0 <= k < j ==> !is_release(#[trigger] s@[k]),
        decreases n - j,
    {
        if s[j].is_release() {
            proof {
                lemma_first_release_skip(s@, j as int);
                assert(s@.skip(j as int)[0] == s@[j as int]);
            }
            return s[j].copied();
        }
        j = j + 1;
    }
    proof {
        lemma_first_release_skip(s@, n as int);
    }
    s[0].copied()
}

/// Resolves a version part (without edition prefix) in one registry.
pub fn resolve_in(d: &VersionData, part: &str) -> (r: Option<Version>)
    requires
        d.wf(),
    ensures
        r == resolve_in_spec(*d, part@),
{
    if let Some(v) = d.by_minecraft_version.get_str(part) {
        if str_eq(v.minecraft_version.as_str(), part) || str_eq(v.major_version.as_str(), part) {
            return Some(v.copied());
        }
    }
    let cs = chars_of(part);
    if let Some(p) = parse_i32(&cs) {
        if let Some(list) = d.by_protocol_version.get(&p) {
            if list.len() > 0 {
                return Some(preferred_of(list));
            }
        }
    }
    let key = part.to_owned();
    if let Some(list) = d.by_major_version.get(&key) {
        if list.len() > 0 {
            return Some(list[0].copied());
        }
    }
    None
}

/// The registries of both editions, each as loaded or with the message of
/// the failure that loading it met.
#[derive(Debug)]
pub struct EditionVersions {
    pub pc: Result<VersionData, String>,
    pub bedrock: Result<VersionData, String>,
}

impl EditionVersions {
    pub open spec fn spec_for(&self, edition: Edition) -> Result<VersionData, String> {
        match edition {
            Edition::Pc => self.pc,
            Edition::Bedrock => self.bedrock,
        }
    }

    pub open spec fn wf(&self) -> bool {
        &&& (self.pc matches Ok(d) ==> d.wf() && d.edition == Edition::Pc)
        &&& (self.bedrock matches Ok(d) ==> d.wf() && d.edition == Edition::Bedrock)
    }
}

/// The registry of `edition`; a registry that failed to load gives its
/// remembered failure again, as `CachedError`.
pub fn get_version_data(versions: &EditionVersions, edition: Edition) -> (r: Result<
    &VersionData,
    McDataError,
>)
    ensures
        match r {
            Ok(d) => versions.spec_for(edition) == Ok::<VersionData, String>(*d),
            Err(e) => versions.spec_for(edition) matches Err(msg) && e == McDataError::CachedError(
                msg,
            ),
        },
{
    let slot = match edition {
        Edition::Pc => &versions.pc,
        Edition::Bedrock => &versions.bedrock,
    };
    match slot {
        Ok(d) => Ok(d),
        Err(msg) => Err(McDataError::CachedError(msg.clone())),
    }
}

/// Resolves a loose version string (`1.18.2`, `pc_1.16.5`, `bedrock_1.19.1`,
/// `1.19`, a protocol number) to its canonical version.
pub fn resolve_version(versions: &EditionVersions, version_str: &str) -> (r: Result<
    Version,
    McDataError,
>)
    requires
        versions.wf(),
    ensures
        match versions.spec_for(split_edition(version_str@).0) {
            Err(msg) => r == Err::<Version, McDataError>(McDataError::CachedError(msg)),
            Ok(d) => match resolve_in_spec(d, split_edition(version_str@).1) {
                Some(v) => r == Ok::<Version, McDataError>(v),
                None => r matches Err(McDataError::InvalidVersion(s)) && s@ == version_str@,
            },
        },
        r matches Ok(v) ==> v.edition == split_edition(version_str@).0,
{
    let (edition, part) = parse_version_string(version_str);
    let data = get_version_data(versions, edition)?;
    proof {
        lemma_resolved_is_entry(*data, part@);
    }
    match resolve_in(data, part) {
        Some(v) => Ok(v),
        None => Err(McDataError::InvalidVersion(version_str.to_owned())),
    }
}


/// `a` is compared with `b` piece by piece from position `i`, a missing
/// piece counting as zero: negative, zero or positive as `a` is older, equal
/// or newer.
pub open spec fn parts_cmp(a: Seq<u32>, b: Seq<u32>, i: int) -> int
    decreases a.len() + b.len() - i,
{
    if i < 0 || (i >= a.len() && i >= b.len()) {
        0
    } else {
        let x = if i < a.len() { a[i] as int } else { 0 };
        let y = if i < b.len() { b[i] as int } else { 0 };
        if x < y {
            -1
        } else if x > y {
            1
        } else {
            parts_cmp(a, b, i + 1)
        }
    }
}

/// Comparing the other way round gives the opposite answer.
pub proof fn lemma_parts_cmp_antisym(a: Seq<u32>, b: Seq<u32>, i: int)
    ensures
        parts_cmp(a, b, i) == -parts_cmp(b, a, i),
    decreases a.len() + b.len() - i,
{
    if !(i < 0 || (i >= a.len() && i >= b.len())) {
        lemma_parts_cmp_antisym(a, b, i + 1);
    }
}

/// Version strings in ascending order of their numeric pieces.
pub open spec fn version_lt(a: Seq<char>, b: Seq<char>) -> bool {
    parts_cmp(crate::text::version_parts(a), crate::text::version_parts(b), 0) < 0
}

fn compare_parts(a: &Vec<u32>, b: &Vec<u32>) -> (r: i8)
    ensures
        r as int == parts_cmp(a@, b@, 0),
{
    let n = if a.len() > b.len() {
        a.len()
    } else {
        b.len()
    };
    let mut i: usize = 0;
    while i < n
        invariant
            n == if a@.len() > b@.len() {
                a@.len()
            } else {
                b@.len()
            },
            i <= n,
            parts_cmp(a@, b@, 0) == parts_cmp(a@, b@, i as int),
        decreases n - i,
    {
        let x: u32 = if i < a.len() {
            a[i]
        } else {
            0
        };
        let y: u32 = if i < b.len() {
            b[i]
        } else {
            0
        };
        if x < y {
            return -1;
        } else if x > y {
            return 1;
        }
        i = i + 1;
    }
    0
}

/// A version string, listed in ascending version order.
#[derive(Debug, Clone)]
pub struct VersionName {
    pub name: String,
}

impl SortOrder for VersionName {
    open spec fn spec_before(&self, other: &Self) -> bool {
        version_lt(self.name@, other.name@)
    }

    fn before(&self, other: &Self) -> (r: bool) {
        let a = crate::text::version_parts_of(self.name.as_str());
        let b = crate::text::version_parts_of(other.name.as_str());
        compare_parts(&a, &b) < 0
    }

    proof fn lemma_asymmetric(a: &Self, b: &Self) {
        lemma_parts_cmp_antisym(
            crate::text::version_parts(a.name@),
            crate::text::version_parts(b.name@),
            0,
        );
    }
}

/// The distinct version strings of `vals` that hold a `.`, in order of
/// first appearance.
pub open spec fn specific_names(vals: Seq<Version>) -> Seq<String>
    decreases vals.len(),
{
    if vals.len() == 0 {
        Seq::empty()
    } else {
        let r = specific_names(vals.drop_last());
        let n = vals.last().minecraft_version;
        if n@.contains('.') && !(exists|k: int| 0 <= k < r.len() && r[k]@ == n@) {
            r.push(n)
        } else {
            r
        }
    }
}

pub open spec fn as_names(s: Seq<String>) -> Seq<VersionName> {
    s.map_values(|n: String| VersionName { name: n })
}

pub open spec fn names_of(s: Seq<VersionName>) -> Seq<String> {
    s.map_values(|n: VersionName| n.name)
}

/// The supported version strings of a registry, oldest first.
pub open spec fn supported_spec(d: VersionData) -> Seq<String> {
    names_of(sort_spec(as_names(specific_names(d.entries@))))
}

proof fn lemma_specific_names_from(vals: Seq<Version>)
    ensures
        forall|x: int|
            0 <= x < specific_names(vals).len() ==> exists|j: int|
                0 <= j < vals.len() && #[trigger] specific_names(vals)[x]
                    == vals[j].minecraft_version,
    decreases vals.len(),
{
    if vals.len() > 0 {
        let t = vals.drop_last();
        lemma_specific_names_from(t);
        let r = specific_names(vals);
        assert forall|x: int| 0 <= x < r.len() implies exists|j: int|
            0 <= j < vals.len() && #[trigger] r[x] == vals[j].minecraft_version by {
            if x < specific_names(t).len() {
                assert(r[x] == specific_names(t)[x]);
                let j = choose|j: int|
                    0 <= j < t.len() && specific_names(t)[x] == t[j].minecraft_version;
                assert(vals[j] == t[j]);
            } else {
                assert(r[x] == vals[vals.len() - 1].minecraft_version);
            }
        }
    }
}

/// The supported versions of a registry come oldest first, and each of
/// them resolves in it.
pub proof fn lemma_supported(d: VersionData)
    requires
        d.wf(),
    ensures
        forall|i: int|
            0 <= i < supported_spec(d).len() - 1 ==> parts_cmp(
                crate::text::version_parts(supported_spec(d)[i]@),
                crate::text::version_parts(#[trigger] supported_spec(d)[i + 1]@),
                0,
            ) <= 0,
        forall|i: int|
            0 <= i < supported_spec(d).len() ==> resolve_in_spec(
                d,
                (#[trigger] supported_spec(d)[i])@,
            ) is Some,
{
    let es = d.entries@;
    let names = as_names(specific_names(es));
    let sorted = sort_spec(names);
    sorting::lemma_sort_sorted(names);
    sorting::lemma_sort_members(names);
    lemma_specific_names_from(es);
    lemma_mc_index(es);
    let out = supported_spec(d);
    assert forall|i: int| 0 <= i < out.len() - 1 implies parts_cmp(
        crate::text::version_parts(out[i]@),
        crate::text::version_parts(#[trigger] out[i + 1]@),
        0,
    ) <= 0 by {
        assert(!sorted[i + 1].spec_before(&sorted[i]));
        lemma_parts_cmp_antisym(
            crate::text::version_parts(out[i]@),
            crate::text::version_parts(out[i + 1]@),
            0,
        );
    }
    assert forall|i: int| 0 <= i < out.len() implies resolve_in_spec(
        d,
        (#[trigger] out[i])@,
    ) is Some by {
        assert(sorted.contains(sorted[i]));
        let x = choose|x: int| 0 <= x < names.len() && names[x] == sorted[i];
        let j = choose|j: int|
            0 <= j < es.len() && specific_names(es)[x] == es[j].minecraft_version;
        assert(es.contains(es[j]));
        assert(mc_index(es).contains_key(out[i]@));
    }
}

/// Every version string of `edition` that holds a `.`, each once, sorted
/// oldest first by the numbers of its dot-separated pieces (a piece that is
/// not a number counts as zero; equal ones keep registry order). Each of
/// them resolves in the edition's registry.
pub fn get_supported_versions(versions: &EditionVersions, edition: Edition) -> (r: Result<
    Vec<String>,
    McDataError,
>)
    requires
        versions.wf(),
    ensures
        match versions.spec_for(edition) {
            Err(msg) => r == Err::<Vec<String>, McDataError>(McDataError::CachedError(msg)),
            Ok(d) => r matches Ok(list) && list@ == supported_spec(d) && (forall|i: int|
                0 <= i < list@.len() ==> resolve_in_spec(d, (#[trigger] list@[i])@) is Some),
        },
{
    let d = get_version_data(versions, edition)?;
    let ghost vals = d.entries@;
    let n = d.entries.len();
    let mut names: Vec<VersionName> = Vec::new();
    let ghost mut plain: Seq<String> = Seq::empty();
    let mut i: usize = 0;
    assert(vals.take(0) =~= Seq::<Version>::empty());
    while i < n
        invariant
            n == vals.len(),
            vals == d.entries@,
            i <= n,
            plain == specific_names(vals.take(i as int)),
            names@ == as_names(plain),
        decreases n - i,
    {
        let v = &d.entries[i];
        let ghost pre = vals.take(i as int);
        let ghost nxt = vals.take(i + 1);
        assert(nxt.drop_last() =~= pre);
        assert(nxt.last() == *v);
        if crate::text::contains_char(v.minecraft_version.as_str(), '.') {
            let mut seen = false;
            let mut k: usize = 0;
            while k < names.len()
                invariant
                    k <= names@.len(),
                    names@ == as_names(plain),
                    seen == (exists|j: int| 0 <= j < k && plain[j]@ == v.minecraft_version@),
                decreases names@.len() - k,
            {
                if names[k].name == v.minecraft_version {
                    seen = true;
                }
                k = k + 1;
            }
            if !seen {
                names.push(VersionName { name: v.minecraft_version.clone() });
                proof {
                    plain = plain.push(v.minecraft_version);
                }
                assert(names@ =~= as_names(plain));
            }
        }
        i = i + 1;
    }
    assert(vals.take(n as int) =~= vals);
    let sorted = sort_stable(names);
    let mut out: Vec<String> = Vec::new();
    let mut j: usize = 0;
    while j < sorted.len()
        invariant
            j <= sorted@.len(),
            out@ == names_of(sorted@.take(j as int)),
        decreases sorted@.len() - j,
    {
        out.push(sorted[j].name.clone());
        j = j + 1;
        assert(out@ =~= names_of(sorted@.take(j as int)));
    }
    assert(sorted@.take(j as int) =~= sorted@);
    proof {
        lemma_supported(*d);
    }
    Ok(out)
}

/// The supported version strings of `edition`, oldest first.
pub fn supported_versions(versions: &EditionVersions, edition: Edition) -> (r: Result<
    Vec<String>,
    McDataError,
>)
    requires
        versions.wf(),
    ensures
        match versions.spec_for(edition) {
            Err(msg) => r == Err::<Vec<String>, McDataError>(McDataError::CachedError(msg)),
            Ok(d) => r matches Ok(list) && list@ == supported_spec(d) && (forall|i: int|
                0 <= i < list@.len() ==> resolve_in_spec(d, (#[trigger] list@[i])@) is Some),
        },
{
    get_supported_versions(versions, edition)
}

} // verus!
