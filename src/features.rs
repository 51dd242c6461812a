//! Feature evaluation: whether (or with what value) a named feature applies
//! to a version, by the version ranges of `features.json`.
use vstd::prelude::*;
use crate::error::McDataError;
use crate::strmap::StrMap;
use crate::text::{chars_of, str_eq};
use crate::version::{
    Edition, EditionVersions, Version, VersionData, get_version_data, resolve_in_spec,
    resolve_version, split_edition,
};
use vstd::string::StrSliceExecFns;

verus! {

/// An untyped value from a data file: what a feature evaluates to, or a key
/// of a tint rule.
#[derive(Debug, Clone, PartialEq, Eq)]
pub enum Scalar {
    Null,
    Bool(bool),
    /// A whole number.
    Int(i64),
    /// A number with a fraction, as the bit pattern of an IEEE-754 binary64
    /// (`f64::from_bits` gives it back).
    Float(u64),
    Str(String),
}

impl Scalar {
    /// A copy of this value.
    pub fn copied(&self) -> (r: Scalar)
        ensures
            r == *self,
    {
        match self {
            Scalar::Null => Scalar::Null,
            Scalar::Bool(b) => Scalar::Bool(*b),
            Scalar::Int(i) => Scalar::Int(*i),
            Scalar::Float(f) => Scalar::Float(*f),
            Scalar::Str(s) => Scalar::Str(s.clone()),
        }
    }
}

/// One entry of `features.json`.
#[derive(Debug, Clone)]
pub struct Feature {
    pub name: String,
    pub description: Option<String>,
    /// Values by version range; the last range that holds a version wins.
    pub values: Vec<FeatureValue>,
    /// A single version at which the feature holds.
    pub version: Option<String>,
    /// A `[min, max]` range in which the feature holds.
    pub versions: Vec<String>,
}

/// A value of a feature and the versions it applies to: one version, or a
/// `[min, max]` range.
#[derive(Debug, Clone)]
pub struct FeatureValue {
    pub value: Scalar,
    pub version: Option<String>,
    pub versions: Vec<String>,
}

/// Versions already resolved for range checks, per edition.
#[derive(Debug)]
pub struct ResolvedVersions {
    pc: StrMap<Version>,
    bedrock: StrMap<Version>,
}

impl ResolvedVersions {
    pub closed spec fn spec_for(&self, edition: Edition) -> StrMap<Version> {
        match edition {
            Edition::Pc => self.pc,
            Edition::Bedrock => self.bedrock,
        }
    }

    /// Every remembered version is what its string resolves to, in the
    /// edition it is remembered for.
    pub closed spec fn agrees_with(&self, versions: EditionVersions) -> bool {
        &&& self.pc.wf()
        &&& self.bedrock.wf()
        &&& forall|e: Edition, k: Seq<char>|
            #![trigger self.spec_for(e)@[k]]
            self.spec_for(e)@.contains_key(k) ==> resolved_to(versions, k, self.spec_for(e)@[k])
                && self.spec_for(e)@[k].edition == e
    }

    pub fn new() -> (r: Self)
        ensures
            forall|v: EditionVersions| r.agrees_with(v),
    {
        ResolvedVersions { pc: StrMap::new(), bedrock: StrMap::new() }
    }
}

/// `s` resolves to `v` through the registries.
pub open spec fn resolved_to(versions: EditionVersions, s: Seq<char>, v: Version) -> bool {
    let (edition, part) = split_edition(s);
    versions.spec_for(edition) matches Ok(d) && resolve_in_spec(d, part) == Some(v)
}

/// What `s` resolves to, when it resolves in `edition`.
pub open spec fn resolve_for(versions: EditionVersions, edition: Edition, s: Seq<char>) -> Option<
    Version,
> {
    let (e, part) = split_edition(s);
    match versions.spec_for(e) {
        Ok(d) => match resolve_in_spec(d, part) {
            Some(v) => if v.edition == edition {
                Some(v)
            } else {
                None
            },
            None => None,
        },
        Err(_) => None,
    }
}

/// Resolves `version_str` for a range check in `edition`, through the cache
/// of earlier resolutions. A version of another edition is an internal
/// error.
pub fn resolve_cached_version(
    cache: &mut ResolvedVersions,
    versions: &EditionVersions,
    edition: Edition,
    version_str: &str,
) -> (r: Result<Version, McDataError>)
    requires
        versions.wf(),
        old(cache).agrees_with(*versions),
    ensures
        final(cache).agrees_with(*versions),
        match resolve_for(*versions, edition, version_str@) {
            Some(v) => r == Ok::<Version, McDataError>(v),
            None => r is Err,
        },
{
    let key = version_str.to_owned();
    let hit = match edition {
        Edition::Pc => cache.pc.get(&key),
        Edition::Bedrock => cache.bedrock.get(&key),
    };
    if let Some(v) = hit {
        assert(cache.spec_for(edition)@[key@] == *v);
        return Ok(v.copied());
    }
    let resolved = resolve_version(versions, version_str)?;
    if resolved.edition == edition {
        let ghost before = *cache;
        match edition {
            Edition::Pc => cache.pc.insert(key, resolved.copied()),
            Edition::Bedrock => cache.bedrock.insert(key, resolved.copied()),
        }
        proof {
            assert forall|e: Edition, k: Seq<char>|
                #![trigger cache.spec_for(e)@[k]]
                cache.spec_for(e)@.contains_key(k) implies resolved_to(
                    *versions,
                    k,
                    cache.spec_for(e)@[k],
                ) && cache.spec_for(e)@[k].edition == e by {
                if !(e == edition && k == version_str@) {
                    assert(before.spec_for(e)@.contains_key(k));
                    assert(before.spec_for(e)@[k] == cache.spec_for(e)@[k]);
                }
            }
        }
        Ok(resolved)
    } else {
        Err(McDataError::Internal("resolved version belongs to another edition".to_owned()))
    }
}

pub open spec fn major_suffix() -> Seq<char> {
    seq!['_', 'm', 'a', 'j', 'o', 'r']
}

pub open spec fn latest_word() -> Seq<char> {
    seq!['l', 'a', 't', 'e', 's', 't']
}

/// The major version that `s` names as `<major>_major`, if it has that form.
pub open spec fn major_base(s: Seq<char>) -> Option<Seq<char>> {
    if s.len() >= 6 && s.skip(s.len() - 6) == major_suffix() {
        Some(s.take(s.len() - 6))
    } else {
        None
    }
}

fn strip_major_suffix(s: &str) -> (r: Option<&str>)
    ensures
        match major_base(s@) {
            Some(b) => r matches Some(x) && x@ == b,
            None => r is None,
        },
{
    let cs = chars_of(s);
    let n = cs.len();
    if n < 6 {
        return None;
    }
    proof {
        reveal_strlit("_major");
    }
    let suffix = "_major";
    assert(suffix@ =~= major_suffix());
    let mut i: usize = 0;
    while i < 6
        invariant
            n == cs@.len(),
            n >= 6,
            cs@ == s@,
            suffix@ == major_suffix(),
            i <= 6,
            forall|j: int| 0 <= j < i ==> cs@[n - 6 + j] == major_suffix()[j],
        decreases 6 - i,
    {
        if cs[n - 6 + i] != suffix.get_char(i) {
            assert(s@.skip(n - 6)[i as int] != major_suffix()[i as int]);
            return None;
        }
        i = i + 1;
    }
    assert(s@.skip(n - 6) =~= major_suffix());
    Some(s.substring_char(0, n - 6))
}

/// The data versions at which a `[min, max]` range starts and ends, for
/// versions of `edition`.
pub open spec fn min_endpoint(versions: EditionVersions, edition: Edition, s: Seq<char>) -> Option<
    int,
> {
    match major_base(s) {
        Some(b) => match versions.spec_for(edition) {
            Ok(d) => if d.major_lists().contains_key(b) && d.major_lists()[b].len() > 0 {
                Some(d.major_lists()[b].last().data_version as int)
            } else {
                None
            },
            Err(_) => None,
        },
        None => match resolve_for(versions, edition, s) {
            Some(v) => Some(v.data_version as int),
            None => None,
        },
    }
}

/// The largest data version among `vals` (the edition's newest version).
pub open spec fn max_data_version(vals: Seq<Version>) -> Option<int>
    decreases vals.len(),
{
    if vals.len() == 0 {
        None
    } else {
        match max_data_version(vals.drop_last()) {
            Some(m) => if vals.last().data_version > m {
                Some(vals.last().data_version as int)
            } else {
                Some(m)
            },
            None => Some(vals.last().data_version as int),
        }
    }
}

pub open spec fn max_endpoint(versions: EditionVersions, edition: Edition, s: Seq<char>) -> Option<
    int,
> {
    if s == latest_word() {
        match versions.spec_for(edition) {
            Ok(d) => max_data_version(d.entries@),
            Err(_) => None,
        }
    } else {
        match major_base(s) {
            Some(b) => match versions.spec_for(edition) {
                Ok(d) => if d.major_lists().contains_key(b) && d.major_lists()[b].len() > 0 {
                    Some(d.major_lists()[b][0].data_version as int)
                } else {
                    None
                },
                Err(_) => None,
            },
            None => match resolve_for(versions, edition, s) {
                Some(v) => Some(v.data_version as int),
                None => None,
            },
        }
    }
}

/// Whether `target` lies in `[min, max]`; `None` when an end does not
/// resolve.
pub open spec fn in_range_spec(versions: EditionVersions, target: Version, min: Seq<char>, max: Seq<
    char,
>) -> Option<bool> {
    match (min_endpoint(versions, target.edition, min), max_endpoint(versions, target.edition, max)) {
        (Some(lo), Some(hi)) => Some(lo <= target.data_version && target.data_version <= hi),
        _ => None,
    }
}

fn major_list<'a>(versions: &'a EditionVersions, edition: Edition, base: &str) -> (r: Result<
    &'a Vec<Version>,
    McDataError,
>)
    requires
        versions.wf(),
    ensures
        match versions.spec_for(edition) {
            Ok(d) => if d.major_lists().contains_key(base@) && d.major_lists()[base@].len() > 0 {
                r matches Ok(l) && l@ == d.major_lists()[base@]
            } else {
                r is Err
            },
            Err(_) => r is Err,
        },
{
    let d = get_version_data(versions, edition)?;
    match d.by_major_version.get_str(base) {
        Some(list) => {
            if list.len() > 0 {
                Ok(list)
            } else {
                Err(McDataError::InvalidVersion(base.to_owned()))
            }
        },
        None => Err(McDataError::InvalidVersion(base.to_owned())),
    }
}

fn latest_data_version(d: &VersionData) -> (r: Option<i32>)
    requires
        d.wf(),
    ensures
        match max_data_version(d.entries@) {
            Some(m) => r == Some(m as i32) && i32::MIN <= m <= i32::MAX,
            None => r is None,
        },
{
    let ghost vals = d.entries@;
    let n = d.entries.len();
    let mut best: Option<i32> = None;
    let mut i: usize = 0;
    assert(vals.take(0) =~= Seq::<Version>::empty());
    while i < n
        invariant
            n == vals.len(),
            vals == d.entries@,
            i <= n,
            match max_data_version(vals.take(i as int)) {
                Some(x) => best == Some(x as i32) && i32::MIN <= x <= i32::MAX,
                None => best is None,
            },
        decreases n - i,
    {
        let v = &d.entries[i];
        assert(vals.take(i + 1).drop_last() =~= vals.take(i as int));
        assert(vals.take(i + 1).last() == *v);
        best = match best {
            Some(b) => if v.data_version > b {
                Some(v.data_version)
            } else {
                Some(b)
            },
            None => Some(v.data_version),
        };
        i = i + 1;
    }
    assert(vals.take(n as int) =~= vals);
    best
}

/// Whether `target` lies in the range `[min_ver_str, max_ver_str]`. An end
/// is a version string; `<major>_major` as the start means the oldest
/// version of that major version and as the end its newest; `latest` as the
/// end means the newest version of the edition.
pub fn is_version_in_range(
    cache: &mut ResolvedVersions,
    versions: &EditionVersions,
    target: &Version,
    min_ver_str: &str,
    max_ver_str: &str,
) -> (r: Result<bool, McDataError>)
    requires
        versions.wf(),
        old(cache).agrees_with(*versions),
    ensures
        final(cache).agrees_with(*versions),
        match in_range_spec(*versions, *target, min_ver_str@, max_ver_str@) {
            Some(b) => r == Ok::<bool, McDataError>(b),
            None => r is Err,
        },
{
    let edition = target.edition;
    let min_dv: i32 = match strip_major_suffix(min_ver_str) {
        Some(base) => {
            let list = major_list(versions, edition, base)?;
            list[list.len() - 1].data_version
        },
        None => resolve_cached_version(cache, versions, edition, min_ver_str)?.data_version,
    };
    proof {
        reveal_strlit("latest");
    }
    assert("latest"@ =~= latest_word());
    let max_dv: i32 = if str_eq(max_ver_str, "latest") {
        let d = get_version_data(versions, edition)?;
        match latest_data_version(d) {
            Some(m) => m,
            None => {
                return Err(McDataError::Internal("the registry holds no version".to_owned()));
            },
        }
    } else {
        match strip_major_suffix(max_ver_str) {
            Some(base) => {
                let list = major_list(versions, edition, base)?;
                list[0].data_version
            },
            None => resolve_cached_version(cache, versions, edition, max_ver_str)?.data_version,
        }
    };
    Ok(min_dv <= target.data_version && target.data_version <= max_dv)
}

/// Whether the entry holds `target`: `None` when an end does not resolve;
/// an entry with neither a version nor a two-element range holds nothing.
pub open spec fn value_applies(versions: EditionVersions, fv: FeatureValue, target: Version) -> Option<
    bool,
> {
    match fv.version {
        Some(v) => in_range_spec(versions, target, v@, v@),
        None => if fv.versions@.len() == 2 {
            in_range_spec(versions, target, fv.versions@[0]@, fv.versions@[1]@)
        } else {
            Some(false)
        },
    }
}

/// The value of the last entry of `vals` that holds `target`: `Some(None)`
/// when none does, `None` when a range met on the way does not resolve.
pub open spec fn scan_values(versions: EditionVersions, vals: Seq<FeatureValue>, target: Version) -> Option<
    Option<Scalar>,
>
    decreases vals.len(),
{
    if vals.len() == 0 {
        Some(None)
    } else {
        match value_applies(versions, vals.last(), target) {
            Some(true) => Some(Some(vals.last().value)),
            Some(false) => scan_values(versions, vals.drop_last(), target),
            None => None,
        }
    }
}

/// The position of the last feature named `name`.
pub open spec fn last_named(features: Seq<Feature>, name: Seq<char>) -> Option<int>
    decreases features.len(),
{
    if features.len() == 0 {
        None
    } else if features.last().name@ == name {
        Some(features.len() - 1)
    } else {
        last_named(features.drop_last(), name)
    }
}

/// What feature `name` evaluates to for `target`; `None` when a range on
/// the way does not resolve.
pub open spec fn feature_spec(
    versions: EditionVersions,
    features: Seq<Feature>,
    target: Version,
    name: Seq<char>,
) -> Option<Scalar> {
    match last_named(features, name) {
        None => Some(Scalar::Bool(false)),
        Some(i) => {
            let f = features[i];
            if f.values@.len() > 0 {
                match scan_values(versions, f.values@, target) {
                    Some(Some(v)) => Some(v),
                    Some(None) => Some(Scalar::Bool(false)),
                    None => None,
                }
            } else if f.version is Some {
                match in_range_spec(versions, target, f.version->0@, f.version->0@) {
                    Some(b) => Some(Scalar::Bool(b)),
                    None => None,
                }
            } else if f.versions@.len() == 2 {
                match in_range_spec(versions, target, f.versions@[0]@, f.versions@[1]@) {
                    Some(b) => Some(Scalar::Bool(b)),
                    None => None,
                }
            } else {
                Some(Scalar::Bool(false))
            }
        },
    }
}

fn find_last_named(features: &Vec<Feature>, name: &str) -> (r: Option<usize>)
    ensures
        match last_named(features@, name@) {
            Some(i) => r matches Some(j) && j == i && 0 <= i < features@.len(),
            None => r is None,
        },
{
    let mut i: usize = features.len();
    assert(features@.take(i as int) =~= features@);
    while i > 0
        invariant
            i <= features@.len(),
            last_named(features@, name@) == last_named(features@.take(i as int), name@),
        decreases i,
    {
        let ghost t = features@.take(i as int);
        assert(t.drop_last() =~= features@.take(i - 1));
        assert(t.last() == features@[i - 1]);
        if str_eq(features[i - 1].name.as_str(), name) {
            assert(last_named(t, name@) == Some(i - 1));
            return Some(i - 1);
        }
        i = i - 1;
    }
    None
}

/// What feature `feature_name` evaluates to for `target`: the last feature
/// of that name decides. Its `values`, if any, give the value of the last
/// entry whose range holds `target`; else its `version` or its `versions`
/// range gives `true` when it holds `target`. Anything else is `false`.
pub fn get_feature_support(
    cache: &mut ResolvedVersions,
    versions: &EditionVersions,
    features: &Vec<Feature>,
    target: &Version,
    feature_name: &str,
) -> (r: Result<Scalar, McDataError>)
    requires
        versions.wf(),
        old(cache).agrees_with(*versions),
    ensures
        final(cache).agrees_with(*versions),
        match feature_spec(*versions, features@, *target, feature_name@) {
            Some(v) => r == Ok::<Scalar, McDataError>(v),
            None => r is Err,
        },
{
    let found = find_last_named(features, feature_name);
    let idx = match found {
        Some(i) => i,
        None => {
            return Ok(Scalar::Bool(false));
        },
    };

    let feature = &features[idx];
    if feature.values.len() > 0 {
        let vals = &feature.values;
        let mut j: usize = vals.len();
        assert(vals@.take(j as int) =~= vals@);
        while j > 0
            invariant
                j <= vals@.len(),
                vals@.len() > 0,
                idx < features@.len(),
                *vals == features@[idx as int].values,
                last_named(features@, feature_name@) == Some(idx as int),
                versions.wf(),
                cache.agrees_with(*versions),
                scan_values(*versions, vals@, *target) == scan_values(
                    *versions,
                    vals@.take(j as int),
                    *target,
                ),
            decreases j,
        {
            let ghost t = vals@.take(j as int);
            assert(t.drop_last() =~= vals@.take(j - 1));
            assert(t.last() == vals@[j - 1]);
            let fv = &vals[j - 1];
            let applies = match &fv.version {
                Some(v) => is_version_in_range(cache, versions, target, v.as_str(), v.as_str())?,
                None => {
                    if fv.versions.len() == 2 {
                        is_version_in_range(
                            cache,
                            versions,
                            target,
                            fv.versions[0].as_str(),
                            fv.versions[1].as_str(),
                        )?
                    } else {
                        false
                    }
                },
            };
            if applies {
                return Ok(fv.value.copied());
            }
            j = j - 1;
        }
        assert(vals@.take(0) =~= Seq::<FeatureValue>::empty());
        Ok(Scalar::Bool(false))
    } else if let Some(v) = &feature.version {
        let b = is_version_in_range(cache, versions, target, v.as_str(), v.as_str())?;
        Ok(Scalar::Bool(b))
    } else if feature.versions.len() == 2 {
        let b = is_version_in_range(
            cache,
            versions,
            target,
            feature.versions[0].as_str(),
            feature.versions[1].as_str(),
        )?;
        Ok(Scalar::Bool(b))
    } else {
        Ok(Scalar::Bool(false))
    }
}

} // verus!
