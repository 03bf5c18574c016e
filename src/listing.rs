use vstd::prelude::*;

use crate::names::{decimal, decimal_chars, is_hidden};
use crate::ops::opt_view;
use crate::path::{rel_model, render_spec, PathModel, VaultPath};
use crate::text::string_of;

verus! {

/// A file or directory found under a vault root.
#[derive(Debug, PartialEq, Eq)]
pub struct FsEntry {
    pub path: String,
    pub rel_path: String,
    pub name: String,
    pub is_dir: bool,
    /// Seconds since the epoch, in decimal, when known.
    pub created: Option<String>,
    /// Seconds since the epoch, in decimal, when known.
    pub modified: Option<String>,
}

/// `path` is listed under `base`: it is not `base` itself, and no component
/// of it below `base` is hidden.
pub open spec fn admitted(path: PathModel, base: PathModel) -> bool {
    &&& rel_model(path, base).parts.len() > 0
    &&& forall|i: int|
        0 <= i < rel_model(path, base).parts.len() ==> !#[trigger] is_hidden(
            rel_model(path, base).parts[i],
        )
}

/// The entry that a listing of `base` shows for `path`, or `None` when the
/// listing leaves it (and, for a directory, everything below it) out.
pub fn admit_entry(
    base: &VaultPath,
    path: &VaultPath,
    is_dir: bool,
    created: Option<String>,
    modified: Option<String>,
) -> (r: Option<FsEntry>)
    requires
        path.wf(),
    ensures
        r is Some <==> admitted(path@, base@),
        r matches Some(e) ==> {
            &&& e.path@ == render_spec(path@)
            &&& e.rel_path@ == render_spec(rel_model(path@, base@))
            &&& e.name@ == path@.parts.last()
            &&& e.is_dir == is_dir
            &&& e.created == created
            &&& e.modified == modified
        },
{
    let rel = path.relative_to(base);
    if rel.parts.len() == 0 {
        return None;
    }
    let name = match path.file_name() {
        Some(n) => n,
        None => return None,
    };
    let mut i: usize = 0;
    while i < rel.parts.len()
        invariant
            i <= rel@.parts.len(),
            rel@ == rel_model(path@, base@),
            forall|k: int| 0 <= k < i ==> !#[trigger] is_hidden(rel@.parts[k]),
        decreases rel.parts.len() - i,
    {
        let part = &rel.parts[i];
        if part.len() > 0 && part[0] == '.' {
            assert(is_hidden(rel@.parts[i as int]));
            return None;
        }
        i = i + 1;
    }
    Some(
        FsEntry {
            path: path.render(),
            rel_path: rel.render(),
            name: string_of(&name),
            is_dir,
            created,
            modified,
        },
    )
}

/// A time stamp as seconds since the epoch, in decimal; `None` when it is
/// unknown or before the epoch.
pub open spec fn secs_text(secs: Option<u64>) -> Option<Seq<char>> {
    match secs {
        Some(n) => Some(decimal(n as nat)),
        None => None,
    }
}

/// The creation time to show: the creation time where it could be read,
/// else the modification time.
pub open spec fn created_or_modified(
    created: Option<Option<u64>>,
    modified: Option<Option<u64>>,
) -> Option<u64> {
    match created {
        Some(c) => c,
        None => match modified {
            Some(m) => m,
            None => None,
        },
    }
}

fn secs_string(secs: Option<u64>) -> (r: Option<String>)
    ensures
        opt_view(r) == secs_text(secs),
{
    match secs {
        Some(n) => Some(string_of(&decimal_chars(n))),
        None => None,
    }
}

/// The `created` and `modified` texts of an entry. Each time stamp is
/// `None` when it could not be read, `Some(None)` when it lies before the
/// epoch, and `Some(Some(s))` for `s` seconds after it.
pub fn entry_times(created: Option<Option<u64>>, modified: Option<Option<u64>>) -> (r: (
    Option<String>,
    Option<String>,
))
    ensures
        opt_view(r.0) == secs_text(created_or_modified(created, modified)),
        opt_view(r.1) == secs_text(
            match modified {
                Some(m) => m,
                None => None,
            },
        ),
{
    let m = match modified {
        Some(m) => m,
        None => None,
    };
    let c = match created {
        Some(c) => c,
        None => m,
    };
    (secs_string(c), secs_string(m))
}

} // verus!
