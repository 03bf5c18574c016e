use vstd::prelude::*;

use crate::error::VaultError;
use crate::path::{is_part, metadata_dir_name, metadata_name, PathModel, VaultPath};

verus! {

/// The owner recorded in a vault's config.
#[derive(Debug, PartialEq, Eq)]
pub struct OwnerInfo {
    pub first_name: String,
    pub last_name: String,
}

/// The record kept in the vault's metadata directory.
#[derive(Debug, PartialEq, Eq)]
pub struct VaultConfig {
    pub space_id: String,
    pub vault_path: String,
    pub label: Option<String>,
    pub owner: OwnerInfo,
    pub created_at: String,
    pub updated_at: String,
    pub version: u32,
}

/// The schema version written into every config.
pub const CONFIG_VERSION: u32 = 1;

pub open spec fn is_lower_hex(c: char) -> bool {
    ('0' <= c && c <= '9') || ('a' <= c && c <= 'f')
}

/// The hyphenated text of a random (version 4) UUID: 36 characters, lower
/// case hex digits with hyphens at 8, 13, 18 and 23, and the version digit
/// `4` at 14.
pub open spec fn is_v4_text(s: Seq<char>) -> bool {
    &&& s.len() == 36
    &&& forall|i: int|
        0 <= i < 36 ==> if i == 8 || i == 13 || i == 18 || i == 23 {
            s[i] == '-'
        } else {
            is_lower_hex(#[trigger] s[i])
        }
    &&& s[14] == '4'
}

/// Relies on `uuid::Uuid::new_v4` for a random identifier, written in the
/// hyphenated lower case form of its `Display` impl.
#[verifier::external_body]
fn new_vault_id() -> (r: String)
    ensures
        is_v4_text(r@),
{
    uuid::Uuid::new_v4().to_string()
}

pub open spec fn is_digit(c: char) -> bool {
    '0' <= c && c <= '9'
}

/// RFC 3339 text of an instant in UTC: it ends in `+00:00`, and when the
/// year is written with four digits (years 0 to 9999) the date and time
/// stand at fixed places: `YYYY-MM-DDTHH:MM:SS`.
pub open spec fn is_utc_rfc3339(s: Seq<char>) -> bool {
    &&& s.len() >= 25
    &&& s.subrange(s.len() - 6, s.len() as int) == seq!['+', '0', '0', ':', '0', '0']
    &&& is_digit(s[0]) ==> forall|i: int|
        0 <= i < 19 ==> if i == 4 || i == 7 {
            s[i] == '-'
        } else if i == 10 {
            s[i] == 'T'
        } else if i == 13 || i == 16 {
            s[i] == ':'
        } else {
            is_digit(#[trigger] s[i])
        }
}

/// Relies on `chrono::Utc::now` and `DateTime::to_rfc3339`: the current
/// instant, written with a `+00:00` offset.
#[verifier::external_body]
fn now_rfc3339() -> (r: String)
    ensures
        is_utc_rfc3339(r@),
{
    chrono::Utc::now().to_rfc3339()
}

/// A config record for the vault at `vault_path`, with the given identifier
/// and time for both its creation and its last update.
pub fn build_vault_config(
    vault_path: String,
    first_name: String,
    last_name: String,
    label: Option<String>,
    space_id: String,
    now: String,
) -> (r: VaultConfig)
    ensures
        r.space_id == space_id,
        r.vault_path == vault_path,
        r.label == label,
        r.owner.first_name == first_name,
        r.owner.last_name == last_name,
        r.created_at@ == now@,
        r.updated_at == now,
        r.version == CONFIG_VERSION,
{
    VaultConfig {
        space_id,
        vault_path,
        label,
        owner: OwnerInfo { first_name, last_name },
        created_at: now.clone(),
        updated_at: now,
        version: CONFIG_VERSION,
    }
}

/// A fresh config record for a vault: a new random identifier, and the
/// current time as both creation and update time.
pub fn init_vault_config(
    vault_path: String,
    vault_is_dir: bool,
    first_name: String,
    last_name: String,
    label: Option<String>,
) -> (r: Result<VaultConfig, VaultError>)
    ensures
        !vault_is_dir ==> r == Err::<VaultConfig, VaultError>(VaultError::NotADirectory),
        vault_is_dir ==> r is Ok,
        r matches Ok(c) ==> {
            &&& c.vault_path == vault_path
            &&& c.label == label
            &&& c.owner.first_name == first_name
            &&& c.owner.last_name == last_name
            &&& is_v4_text(c.space_id@)
            &&& c.created_at@ == c.updated_at@
            &&& is_utc_rfc3339(c.created_at@)
            &&& c.version == CONFIG_VERSION
        },
{
    if !vault_is_dir {
        return Err(VaultError::NotADirectory);
    }
    let id = new_vault_id();
    let now = now_rfc3339();
    Ok(build_vault_config(vault_path, first_name, last_name, label, id, now))
}

pub open spec fn config_file_name() -> Seq<char> {
    seq!['v', 'a', 'u', 'l', 't', '.', 'j', 's', 'o', 'n']
}

/// The metadata directory of the vault at `vault`.
pub fn metadata_dir(vault: &VaultPath) -> (r: VaultPath)
    requires
        vault.wf(),
    ensures
        r.wf(),
        r@ == (PathModel { rooted: vault@.rooted, parts: vault@.parts.push(metadata_name()) }),
{
    vault.join(&metadata_dir_name())
}

/// The file that holds the config of the vault at `vault`.
pub fn config_path(vault: &VaultPath) -> (r: VaultPath)
    requires
        vault.wf(),
    ensures
        r.wf(),
        r@ == (PathModel {
            rooted: vault@.rooted,
            parts: vault@.parts.push(metadata_name()).push(config_file_name()),
        }),
{
    let dir = metadata_dir(vault);
    let name = vec!['v', 'a', 'u', 'l', 't', '.', 'j', 's', 'o', 'n'];
    assert(name@ =~= config_file_name());
    assert(is_part(name@));
    dir.join(&name)
}

} // verus!
