//! The decisions around the local copy of the upstream data tree: use the
//! remembered path, use a copy already on disk, or fetch one; and whether a
//! fetch left a usable tree.
use vstd::prelude::*;
use crate::error::McDataError;

verus! {

/// What a request for the data root does next.
#[derive(Debug, Clone, PartialEq, Eq)]
pub enum RootStep {
    /// Use this directory: remembered from before, or found complete on disk.
    Use(String),
    /// Download and unpack the archive into the target directory.
    Fetch,
}

pub open spec fn plan_spec(memo: Option<Seq<char>>, present: bool, target: Seq<char>) -> Option<
    Seq<char>,
> {
    match memo {
        Some(p) => Some(p),
        None => if present {
            Some(target)
        } else {
            None
        },
    }
}

/// The next step for a data-root request: a remembered path is used as it
/// is; else a target whose marker file is present is used; else it is
/// fetched.
pub fn plan_data_root(memo: &Option<String>, present: bool, target: &String) -> (r: RootStep)
    ensures
        match plan_spec(
            match memo {
                Some(p) => Some(p@),
                None => None,
            },
            present,
            target@,
        ) {
            Some(p) => r matches RootStep::Use(q) && q@ == p,
            None => r == RootStep::Fetch,
        },
{
    match memo {
        Some(p) => RootStep::Use(p.clone()),
        None => {
            if present {
                RootStep::Use(target.clone())
            } else {
                RootStep::Fetch
            }
        },
    }
}

/// After unpacking: the target is the data root when its marker file is
/// there; otherwise the download did not verify.
pub fn verify_extraction(present: bool, target: String) -> (r: Result<String, McDataError>)
    ensures
        present ==> r == Ok::<String, McDataError>(target),
        !present ==> r == Err::<String, McDataError>(McDataError::DownloadVerificationFailed(target)),
{
    if present {
        Ok(target)
    } else {
        Err(McDataError::DownloadVerificationFailed(target))
    }
}

/// The number of fetches made by a run of data-root requests that start
/// from `memo`, where request `i` finds the marker present or not as
/// `present[i]` says and every fetch succeeds; each answer is remembered.
pub open spec fn fetch_count(memo: Option<Seq<char>>, present: Seq<bool>, target: Seq<char>) -> nat
    decreases present.len(),
{
    if present.len() == 0 {
        0
    } else {
        match plan_spec(memo, present[0], target) {
            Some(p) => fetch_count(Some(p), present.skip(1), target),
            None => 1 + fetch_count(Some(target), present.skip(1), target),
        }
    }
}

} // verus!
