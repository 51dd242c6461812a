//! Which entries of the upstream archive are unpacked, and where.
use vstd::prelude::*;
use crate::text::{chars_of, starts_with};
use vstd::string::StrSliceExecFns;

verus! {

/// The directory of the archive that holds the data tree.
pub open spec fn data_prefix() -> Seq<char> {
    seq![
        'm', 'i', 'n', 'e', 'c', 'r', 'a', 'f', 't', '-', 'd', 'a', 't', 'a', '-', 'm', 'a', 's', 't',
        'e', 'r', '/', 'd', 'a', 't', 'a', '/',
    ]
}

/// What to do with one archive entry.
#[derive(Debug, Clone, PartialEq, Eq)]
pub enum EntryAction {
    /// Leave it out: its name is unsafe or it lies outside the data tree.
    Skip,
    /// Create this directory (relative to the data root).
    CreateDir(String),
    /// Write the entry to this file (relative to the data root).
    WriteFile(String),
}

/// The relative path that an action names.
pub open spec fn action_path(a: EntryAction) -> Option<Seq<char>> {
    match a {
        EntryAction::Skip => None,
        EntryAction::CreateDir(p) => Some(p@),
        EntryAction::WriteFile(p) => Some(p@),
    }
}

/// The action for an entry named `name` whose enclosed path (the name made
/// safe, or `None` where it escapes the archive) is `enclosed`: entries
/// under the data prefix are unpacked with the prefix cut off; a name that
/// ends in `/` is a directory; anything else is skipped.
pub fn plan_entry(name: &str, enclosed: Option<&str>) -> (r: EntryAction)
    ensures
        match enclosed {
            None => r == EntryAction::Skip,
            Some(p) => if p@.len() >= data_prefix().len() && p@.take(data_prefix().len() as int)
                == data_prefix() {
                action_path(r) == Some(p@.skip(data_prefix().len() as int)) && (if name@.len() > 0
                    && name@.last() == '/' {
                    r is CreateDir
                } else {
                    r is WriteFile
                })
            } else {
                r == EntryAction::Skip
            },
        },
{
    let p = match enclosed {
        None => {
            return EntryAction::Skip;
        },
        Some(p) => p,
    };
    proof {
        reveal_strlit("minecraft-data-master/data/");
    }
    let prefix = "minecraft-data-master/data/";
    assert(prefix@ =~= data_prefix());
    let cs = chars_of(p);
    if !starts_with(&cs, prefix) {
        return EntryAction::Skip;
    }
    let n = p.unicode_len();
    let rel = p.substring_char(27, n).to_owned();
    let name_len = name.unicode_len();
    if name_len > 0 && name.get_char(name_len - 1) == '/' {
        EntryAction::CreateDir(rel)
    } else {
        EntryAction::WriteFile(rel)
    }
}

/// The permission bits to set on an unpacked file: those the archive
/// records, unless they are absent or zero.
pub fn mode_to_apply(mode: Option<u32>) -> (r: Option<u32>)
    ensures
        r == match mode {
            Some(m) => if m != 0 {
                Some(m)
            } else {
                None
            },
            None => None,
        },
{
    match mode {
        Some(m) => if m != 0 {
            Some(m)
        } else {
            None
        },
        None => None,
    }
}

} // verus!
