use vstd::prelude::*;

use crate::error::VaultError;
use crate::names::{
    all_taken, check_name, choose_note_name, is_first_free, is_hidden, lemma_untitled_is_part, name_error,
    untitled, validate_name, validate_name_str,
};
use crate::path::{is_descendant, is_within, touches_metadata, PathModel, VaultPath};
use crate::text::{chars_of, trim};

verus! {

/// The root check shared by every operation that needs a vault directory.
pub fn require_directory(is_dir: bool) -> (r: Result<(), VaultError>)
    ensures
        is_dir <==> r is Ok,
        !is_dir ==> r == Err::<(), VaultError>(VaultError::NotADirectory),
{
    if is_dir {
        Ok(())
    } else {
        Err(VaultError::NotADirectory)
    }
}

/// The path of a new note in the vault `root`, given whether `root` is a
/// directory and the names already present in it.
pub fn plan_new_note(root: &VaultPath, root_is_dir: bool, existing: &Vec<Vec<char>>) -> (r: Result<
    VaultPath,
    VaultError,
>)
    requires
        root.wf(),
    ensures
        !root_is_dir ==> r == Err::<VaultPath, VaultError>(VaultError::NotADirectory),
        root_is_dir ==> (r is Err <==> all_taken(existing@.map_values(|v: Vec<char>| v@))),
        root_is_dir && r is Err ==> r == Err::<VaultPath, VaultError>(
            VaultError::ExhaustedNamespace,
        ),
        r matches Ok(p) ==> p.wf() && exists|n: nat|
            is_first_free(existing@.map_values(|v: Vec<char>| v@), n) && p@ == (PathModel {
                rooted: root@.rooted,
                parts: root@.parts.push(untitled(n)),
            }),
{
    if !root_is_dir {
        return Err(VaultError::NotADirectory);
    }
    match choose_note_name(existing) {
        Ok(name) => {
            let ghost n = choose|n: nat|
                is_first_free(existing@.map_values(|v: Vec<char>| v@), n) && name@ == untitled(n);
            proof {
                lemma_untitled_is_part(n);
            }
            Ok(root.join(&name))
        },
        Err(e) => Err(e),
    }
}

/// What `delete_note` may do: only an existing file is removed.
pub fn check_delete_note(exists: bool, is_dir: bool) -> (r: Result<(), VaultError>)
    ensures
        !exists ==> r == Err::<(), VaultError>(VaultError::NotFound),
        exists && is_dir ==> r == Err::<(), VaultError>(VaultError::NotAFile),
        exists && !is_dir ==> r is Ok,
{
    if !exists {
        Err(VaultError::NotFound)
    } else if is_dir {
        Err(VaultError::NotAFile)
    } else {
        Ok(())
    }
}

/// How `delete_entry` removes a path.
#[derive(Debug, PartialEq, Eq)]
pub enum Removal {
    /// Remove a single file.
    File,
    /// Remove a directory with everything below it.
    Tree,
}

pub fn plan_delete_entry(is_dir: bool) -> (r: Removal)
    ensures
        is_dir ==> r == Removal::Tree,
        !is_dir ==> r == Removal::File,
{
    if is_dir {
        Removal::Tree
    } else {
        Removal::File
    }
}

/// The last step before an entry is created or moved to `target`: it must
/// not exist yet.
pub fn claim_target(target: VaultPath, exists: bool) -> (r: Result<VaultPath, VaultError>)
    ensures
        exists ==> r == Err::<VaultPath, VaultError>(VaultError::AlreadyExists),
        !exists ==> r == Ok::<VaultPath, VaultError>(target),
{
    if exists {
        Err(VaultError::AlreadyExists)
    } else {
        Ok(target)
    }
}

/// Why renaming `old` to `name` is refused, if it is.
pub open spec fn rename_error(old: PathModel, name: Seq<char>) -> Option<VaultError> {
    if old.parts.len() == 0 {
        Some(VaultError::InvalidTarget)
    } else if touches_metadata(old) {
        Some(VaultError::ReservedPath)
    } else {
        name_error(name, true)
    }
}

/// Renaming keeps the parent and replaces the last component by the new
/// name as given.
pub open spec fn renamed(old: PathModel, name: Seq<char>) -> PathModel {
    PathModel { rooted: old.rooted, parts: old.parts.drop_last().push(name) }
}

/// The path that `old` gets when renamed to `name` within its parent.
pub fn plan_rename(old: &VaultPath, new_name: &str) -> (r: Result<VaultPath, VaultError>)
    requires
        old.wf(),
    ensures
        match rename_error(old@, new_name@) {
            Some(e) => r == Err::<VaultPath, VaultError>(e),
            None => r matches Ok(p) && p.wf() && p@ == renamed(old@, new_name@),
        },
{
    let parent = match old.parent() {
        Some(p) => p,
        None => return Err(VaultError::InvalidTarget),
    };
    if old.in_metadata_dir() {
        return Err(VaultError::ReservedPath);
    }
    let name = chars_of(new_name);
    check_name(&name, true)?;
    Ok(parent.join(&name))
}

/// Why creating the directory `name` in `parent` is refused, if it is
/// (before looking whether the new path is free).
pub open spec fn create_dir_error(parent: PathModel, parent_is_dir: bool, name: Seq<char>) -> Option<
    VaultError,
> {
    if !parent_is_dir {
        Some(VaultError::NotADirectory)
    } else if touches_metadata(parent) {
        Some(VaultError::ReservedPath)
    } else {
        name_error(trim(name), false)
    }
}

pub open spec fn child(parent: PathModel, name: Seq<char>) -> PathModel {
    PathModel { rooted: parent.rooted, parts: parent.parts.push(trim(name)) }
}

/// The path of a new directory `name` (trimmed) inside `parent`.
pub fn plan_create_directory(parent: &VaultPath, parent_is_dir: bool, name: &str) -> (r: Result<
    VaultPath,
    VaultError,
>)
    requires
        parent.wf(),
    ensures
        match create_dir_error(parent@, parent_is_dir, name@) {
            Some(e) => r == Err::<VaultPath, VaultError>(e),
            None => r matches Ok(p) && p.wf() && p@ == child(parent@, name@),
        },
{
    if !parent_is_dir {
        return Err(VaultError::NotADirectory);
    }
    if parent.in_metadata_dir() {
        return Err(VaultError::ReservedPath);
    }
    let t = validate_name_str(name, false)?;
    Ok(parent.join(&t))
}

/// Where a move goes, once it is known to be allowed.
#[derive(Debug)]
pub enum MoveStep {
    /// The entry already is at the requested place: nothing to do.
    Unchanged(VaultPath),
    /// Rename the entry to this path, if it is free.
    Relocate(VaultPath),
}

impl MoveStep {
    pub open spec fn target(self) -> PathModel {
        match self {
            MoveStep::Unchanged(p) => p@,
            MoveStep::Relocate(p) => p@,
        }
    }
}

pub open spec fn opt_view(o: Option<String>) -> Option<Seq<char>> {
    match o {
        Some(s) => Some(s@),
        None => None,
    }
}

/// The name a moved entry gets: the one asked for, else its own.
pub open spec fn move_name(old: PathModel, new_name: Option<Seq<char>>) -> Seq<char> {
    match new_name {
        Some(n) => n,
        None => if old.parts.len() > 0 {
            old.parts.last()
        } else {
            Seq::empty()
        },
    }
}

/// Why moving `old` into `parent` under `name` is refused, if it is
/// (before looking whether the new path is free).
pub open spec fn move_error(
    old: PathModel,
    old_exists: bool,
    parent: PathModel,
    parent_is_dir: bool,
    name: Seq<char>,
) -> Option<VaultError> {
    if !old_exists {
        Some(VaultError::NotFound)
    } else if touches_metadata(old) {
        Some(VaultError::ReservedPath)
    } else if !parent_is_dir {
        Some(VaultError::NotADirectory)
    } else if touches_metadata(parent) {
        Some(VaultError::ReservedPath)
    } else if name_error(trim(name), true) is Some {
        name_error(trim(name), true)
    } else if child(parent, name) != old && is_within(child(parent, name), old) {
        Some(VaultError::InvalidOperation)
    } else {
        None
    }
}

fn option_chars(s: &Option<String>) -> (r: Option<Vec<char>>)
    ensures
        r is Some <==> s is Some,
        r matches Some(v) ==> v@ == s->Some_0@,
{
    match s {
        Some(t) => Some(chars_of(t.as_str())),
        None => None,
    }
}

/// Where `old` goes when moved into `new_parent`, under `new_name` or else
/// its own name (trimmed either way), given what is known of both paths.
pub fn plan_move(
    old: &VaultPath,
    old_exists: bool,
    new_parent: &VaultPath,
    parent_is_dir: bool,
    new_name: &Option<String>,
) -> (r: Result<MoveStep, VaultError>)
    requires
        old.wf(),
        new_parent.wf(),
    ensures
        ({
            let name = move_name(old@, opt_view(*new_name));
            match move_error(old@, old_exists, new_parent@, parent_is_dir, name) {
                Some(e) => r == Err::<MoveStep, VaultError>(e),
                None => r matches Ok(step) && step.target() == child(new_parent@, name) && !touches_metadata(step.target())
                    && (step is Unchanged <==> step.target() == old@),
            }
        }),
{
    if !old_exists {
        return Err(VaultError::NotFound);
    }
    if old.in_metadata_dir() {
        return Err(VaultError::ReservedPath);
    }
    if !parent_is_dir {
        return Err(VaultError::NotADirectory);
    }
    if new_parent.in_metadata_dir() {
        return Err(VaultError::ReservedPath);
    }
    let raw = match option_chars(new_name) {
        Some(n) => n,
        None => match old.file_name() {
            Some(n) => n,
            None => Vec::new(),
        },
    };
    assert(raw@ == move_name(old@, opt_view(*new_name)));
    let t = validate_name(&raw, true)?;
    let target = new_parent.join(&t);
    proof {
        if touches_metadata(target@) {
            let i = choose|i: int|
                0 <= i < target@.parts.len() && target@.parts[i] == crate::path::metadata_name();
            if i < new_parent@.parts.len() {
                assert(target@.parts[i] == new_parent@.parts[i]);
            }
        }
    }
    if target.same_as(old) {
        return Ok(MoveStep::Unchanged(target));
    }
    if is_descendant(old, &target) {
        return Err(VaultError::InvalidOperation);
    }
    Ok(MoveStep::Relocate(target))
}

} // verus!
