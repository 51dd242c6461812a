//! Where a data file of a version lives: the lookup in `dataPaths.json`
//! and the choice of the file in the directory it names.
use vstd::prelude::*;
use crate::error::McDataError;
use crate::structs::DataPaths;
use crate::version::Edition;
use crate::strmap::StrMap;
use vstd::string::StringExecFns;

verus! {

impl DataPaths {
    pub open spec fn spec_for(&self, edition: Edition) -> StrMap<StrMap<String>> {
        match edition {
            Edition::Pc => self.pc,
            Edition::Bedrock => self.bedrock,
        }
    }

    /// Every table (and every table within one) has distinct keys.
    pub open spec fn wf(&self) -> bool {
        &&& self.pc.wf()
        &&& self.bedrock.wf()
        &&& forall|k: Seq<char>| #[trigger] self.pc@.contains_key(k) ==> self.pc@[k].wf()
        &&& forall|k: Seq<char>| #[trigger] self.bedrock@.contains_key(k) ==> self.bedrock@[k].wf()
    }
}

/// The loaded `dataPaths.json`; a load that failed gives its remembered
/// failure again, as `CachedError`.
pub fn get_data_paths(memo: &Result<DataPaths, String>) -> (r: Result<&DataPaths, McDataError>)
    ensures
        match r {
            Ok(p) => *memo == Ok::<DataPaths, String>(*p),
            Err(e) => *memo matches Err(msg) && e == McDataError::CachedError(msg),
        },
{
    match memo {
        Ok(p) => Ok(p),
        Err(msg) => Err(McDataError::CachedError(msg.clone())),
    }
}

/// The directory suffix that `dataPaths.json` gives for a key of a major
/// version, if it gives one.
pub open spec fn path_suffix_spec(
    paths: DataPaths,
    edition: Edition,
    version: Seq<char>,
    data_key: Seq<char>,
) -> Option<String> {
    let ed = paths.spec_for(edition);
    if ed@.contains_key(version) && ed@[version]@.contains_key(data_key) {
        Some(ed@[version]@[data_key])
    } else {
        None
    }
}

/// The directory (relative to the data root) that holds `data_key` for
/// major version `version`.
pub fn get_path_suffix(paths: &DataPaths, edition: Edition, version: &str, data_key: &str) -> (r:
    Result<String, McDataError>)
    requires
        paths.wf(),
    ensures
        match path_suffix_spec(*paths, edition, version@, data_key@) {
            Some(s) => r == Ok::<String, McDataError>(s),
            None => r matches Err(McDataError::DataPathNotFound { mc_version, edition: e, data_key: k })
                && mc_version@ == version@ && e == edition && k@ == data_key@,
        },
{
    let ed = match edition {
        Edition::Pc => &paths.pc,
        Edition::Bedrock => &paths.bedrock,
    };
    match ed.get_str(version) {
        Some(keys) => match keys.get_str(data_key) {
            Some(s) => {
                return Ok(s.clone());
            },
            None => {},
        },
        None => {},
    }
    Err(
        McDataError::DataPathNotFound {
            mc_version: version.to_owned(),
            edition,
            data_key: data_key.to_owned(),
        },
    )
}

/// `root` and `suffix` joined by `/`.
pub fn data_dir(root: &str, suffix: &str) -> (r: String)
    ensures
        r@ == root@ + seq!['/'] + suffix@,
{
    let mut d = root.to_owned();
    proof {
        reveal_strlit("/");
    }
    d.append("/");
    d.append(suffix);
    assert("/"@ =~= seq!['/']);
    d
}

/// One entry of a directory listing.
#[derive(Debug, Clone)]
pub struct DirEntryInfo {
    pub path: String,
    /// The file name without its extension, where it is valid text.
    pub stem: Option<String>,
    pub is_file: bool,
}

/// What reading a data directory gave.
#[derive(Debug, Clone)]
pub enum DirListing {
    Entries(Vec<DirEntryInfo>),
    /// The directory does not exist.
    Missing,
    /// Reading it failed otherwise, with this message.
    Failed(String),
}

/// Entry `i` is the first file of stem `key`.
pub open spec fn is_first_match(es: Seq<DirEntryInfo>, i: int, key: Seq<char>) -> bool {
    &&& 0 <= i < es.len()
    &&& matches_key(es[i], key)
    &&& forall|j: int| 0 <= j < i ==> !matches_key(#[trigger] es[j], key)
}

pub open spec fn matches_key(e: DirEntryInfo, key: Seq<char>) -> bool {
    e.is_file && (e.stem matches Some(s) && s@ == key)
}

/// The file of `dir` whose stem is `data_key` (the first such file in the
/// listing).
pub fn pick_data_file(dir: &str, listing: &DirListing, data_key: &str) -> (r: Result<
    String,
    McDataError,
>)
    ensures
        match listing {
            DirListing::Entries(es) => if exists|i: int|
                0 <= i < es@.len() && matches_key(#[trigger] es@[i], data_key@) {
                r matches Ok(p) && exists|i: int|
                    #[trigger] is_first_match(es@, i, data_key@) && p == es@[i].path
            } else {
                r matches Err(McDataError::DataFileNotFound { data_key: k, .. }) && k@
                    == data_key@
            },
            DirListing::Missing => r matches Err(McDataError::DataFileNotFound { data_key: k, path })
                && k@ == data_key@ && path@ == dir@,
            DirListing::Failed(m) => r matches Err(McDataError::IoError { path, message })
                && path@ == dir@ && message == m,
        },
{
    match listing {
        DirListing::Entries(es) => {
            let mut i: usize = 0;
            while i < es.len()
                invariant
                    *listing == DirListing::Entries(*es),
                    i <= es@.len(),
                    forall|j: int| 0 <= j < i ==> !matches_key(#[trigger] es@[j], data_key@),
                decreases es@.len() - i,
            {
                let e = &es[i];
                if e.is_file {
                    if let Some(s) = &e.stem {
                        if crate::text::str_eq(s.as_str(), data_key) {
                            let p = e.path.clone();
                            assert(is_first_match(es@, i as int, data_key@));
                            return Ok(p);
                        }
                    }
                }
                i = i + 1;
            }
            let mut pattern = dir.to_owned();
            pattern.append("/");
            pattern.append(data_key);
            pattern.append(".*");
            Err(McDataError::DataFileNotFound { data_key: data_key.to_owned(), path: pattern })
        },
        DirListing::Missing => Err(
            McDataError::DataFileNotFound { data_key: data_key.to_owned(), path: dir.to_owned() },
        ),
        DirListing::Failed(m) => Err(
            McDataError::IoError { path: dir.to_owned(), message: m.clone() },
        ),
    }
}

} // verus!
