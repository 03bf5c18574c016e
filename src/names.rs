use vstd::prelude::*;

use crate::error::VaultError;
use crate::path::{is_part, metadata_dir_name, metadata_name};
use crate::text::{chars_of, trim, trim_chars};

verus! {

pub open spec fn is_sep_char(c: char) -> bool {
    c == '/' || c == '\\'
}

pub open spec fn has_sep(t: Seq<char>) -> bool {
    exists|k: int| 0 <= k < t.len() && is_sep_char(t[k])
}

pub open spec fn is_hidden(t: Seq<char>) -> bool {
    t.len() > 0 && t[0] == '.'
}

/// What is wrong with the (already trimmed) name `t`, checked in this order:
/// empty, the metadata directory's name, hidden (unless allowed), a separator.
pub open spec fn name_error(t: Seq<char>, allow_hidden: bool) -> Option<VaultError> {
    if t.len() == 0 {
        Some(VaultError::InvalidName)
    } else if t == metadata_name() {
        Some(VaultError::ReservedName)
    } else if !allow_hidden && is_hidden(t) {
        Some(VaultError::InvalidName)
    } else if has_sep(t) {
        Some(VaultError::InvalidName)
    } else {
        None
    }
}

/// Checks `t`, as it stands, as the name of a new entry.
pub fn check_name(t: &Vec<char>, allow_hidden: bool) -> (r: Result<(), VaultError>)
    ensures
        match name_error(t@, allow_hidden) {
            Some(e) => r == Err::<(), VaultError>(e),
            None => r is Ok && is_part(t@),
        },
{
    if t.len() == 0 {
        return Err(VaultError::InvalidName);
    }
    if crate::path::chars_eq(t, &metadata_dir_name()) {
        return Err(VaultError::ReservedName);
    }
    if !allow_hidden && t[0] == '.' {
        return Err(VaultError::InvalidName);
    }
    let mut k: usize = 0;
    while k < t.len()
        invariant
            k <= t@.len(),
            t@.len() > 0,
            t@ != metadata_name(),
            allow_hidden || !is_hidden(t@),
            forall|j: int| 0 <= j < k ==> !is_sep_char(t@[j]),
        decreases t.len() - k,
    {
        if t[k] == '/' || t[k] == '\\' {
            assert(is_sep_char(t@[k as int]));
            return Err(VaultError::InvalidName);
        }
        k = k + 1;
    }
    Ok(())
}

/// Trims `raw` and checks it as the name of a new entry. On success the
/// trimmed name is returned.
pub fn validate_name(raw: &Vec<char>, allow_hidden: bool) -> (r: Result<Vec<char>, VaultError>)
    ensures
        match name_error(trim(raw@), allow_hidden) {
            Some(e) => r == Err::<Vec<char>, VaultError>(e),
            None => r matches Ok(t) && t@ == trim(raw@) && is_part(t@),
        },
{
    let t = trim_chars(raw);
    match check_name(&t, allow_hidden) {
        Ok(()) => Ok(t),
        Err(e) => Err(e),
    }
}

/// The same check on a name given as text.
pub fn validate_name_str(raw: &str, allow_hidden: bool) -> (r: Result<Vec<char>, VaultError>)
    ensures
        match name_error(trim(raw@), allow_hidden) {
            Some(e) => r == Err::<Vec<char>, VaultError>(e),
            None => r matches Ok(t) && t@ == trim(raw@) && is_part(t@),
        },
{
    validate_name(&chars_of(raw), allow_hidden)
}

pub open spec fn digit_of(d: nat) -> char {
    if d == 0 { '0' }
    else if d == 1 { '1' }
    else if d == 2 { '2' }
    else if d == 3 { '3' }
    else if d == 4 { '4' }
    else if d == 5 { '5' }
    else if d == 6 { '6' }
    else if d == 7 { '7' }
    else if d == 8 { '8' }
    else { '9' }
}

/// The decimal digits of `n`, most significant first, without leading zeros.
pub open spec fn decimal(n: nat) -> Seq<char>
    decreases n,
{
    if n < 10 {
        seq![digit_of(n)]
    } else {
        decimal(n / 10).push(digit_of(n % 10))
    }
}

/// The name of the `n`-th candidate for a new note: `Untitled n.md`.
pub open spec fn untitled(n: nat) -> Seq<char> {
    seq!['U', 'n', 't', 'i', 't', 'l', 'e', 'd', ' '] + decimal(n) + seq!['.', 'm', 'd']
}

/// The highest candidate number tried for a new note.
pub const MAX_UNTITLED: u32 = 9999;

pub open spec fn taken(existing: Seq<Seq<char>>, n: nat) -> bool {
    existing.contains(untitled(n))
}

/// `n` is the lowest candidate number whose name is free.
pub open spec fn is_first_free(existing: Seq<Seq<char>>, n: nat) -> bool {
    &&& 1 <= n <= MAX_UNTITLED
    &&& !taken(existing, n)
    &&& forall|m: nat| 1 <= m < n ==> taken(existing, m)
}

pub open spec fn all_taken(existing: Seq<Seq<char>>) -> bool {
    forall|m: nat| 1 <= m <= MAX_UNTITLED ==> taken(existing, m)
}

fn digit_char(d: u64) -> (r: char)
    requires
        d < 10,
    ensures
        r == digit_of(d as nat),
{
    if d == 0 { '0' }
    else if d == 1 { '1' }
    else if d == 2 { '2' }
    else if d == 3 { '3' }
    else if d == 4 { '4' }
    else if d == 5 { '5' }
    else if d == 6 { '6' }
    else if d == 7 { '7' }
    else if d == 8 { '8' }
    else { '9' }
}

pub fn decimal_chars(n: u64) -> (r: Vec<char>)
    ensures
        r@ == decimal(n as nat),
    decreases n,
{
    if n < 10 {
        let r = vec![digit_char(n)];
        assert(r@ =~= decimal(n as nat));
        r
    } else {
        let mut r = decimal_chars(n / 10);
        r.push(digit_char(n % 10));
        r
    }
}

/// `Untitled n.md`.
pub fn untitled_name(n: u32) -> (r: Vec<char>)
    ensures
        r@ == untitled(n as nat),
{
    let mut r = vec!['U', 'n', 't', 'i', 't', 'l', 'e', 'd', ' '];
    let d = decimal_chars(n as u64);
    let ghost head = r@;
    let mut i: usize = 0;
    while i < d.len()
        invariant
            i <= d@.len(),
            r@ =~= head + d@.take(i as int),
        decreases d.len() - i,
    {
        r.push(d[i]);
        i = i + 1;
    }
    r.push('.');
    r.push('m');
    r.push('d');
    assert(d@.take(i as int) =~= d@);
    assert(r@ =~= untitled(n as nat));
    r
}

fn contains_name(existing: &Vec<Vec<char>>, name: &Vec<char>) -> (r: bool)
    ensures
        r == existing@.map_values(|v: Vec<char>| v@).contains(name@),
{
    let ghost names = existing@.map_values(|v: Vec<char>| v@);
    let mut i: usize = 0;
    while i < existing.len()
        invariant
            i <= existing@.len(),
            names == existing@.map_values(|v: Vec<char>| v@),
            forall|k: int| 0 <= k < i ==> names[k] != name@,
        decreases existing.len() - i,
    {
        if crate::path::chars_eq(&existing[i], name) {
            assert(names[i as int] == name@);
            return true;
        }
        i = i + 1;
    }
    false
}

/// The first `Untitled n.md`, for `n` from 1 up to the limit, that is not
/// among the names already in the vault.
pub fn choose_note_name(existing: &Vec<Vec<char>>) -> (r: Result<Vec<char>, VaultError>)
    ensures
        r is Err <==> all_taken(existing@.map_values(|v: Vec<char>| v@)),
        r is Err ==> r == Err::<Vec<char>, VaultError>(VaultError::ExhaustedNamespace),
        r matches Ok(name) ==> exists|n: nat|
            is_first_free(existing@.map_values(|v: Vec<char>| v@), n) && name@ == untitled(n),
{
    let ghost names = existing@.map_values(|v: Vec<char>| v@);
    let mut idx: u32 = 1;
    while idx <= MAX_UNTITLED
        invariant
            1 <= idx <= MAX_UNTITLED + 1,
            names == existing@.map_values(|v: Vec<char>| v@),
            forall|m: nat| 1 <= m < idx ==> taken(names, m),
        decreases MAX_UNTITLED + 1 - idx,
    {
        let cand = untitled_name(idx);
        if !contains_name(existing, &cand) {
            assert(is_first_free(names, idx as nat));
            return Ok(cand);
        }
        idx = idx + 1;
    }
    Err(VaultError::ExhaustedNamespace)
}

/// Decimal digits hold no separator.
pub proof fn lemma_decimal_no_sep(n: nat)
    ensures
        decimal(n).len() >= 1,
        forall|k: int| 0 <= k < decimal(n).len() ==> decimal(n)[k] != '/',
    decreases n,
{
    if n >= 10 {
        lemma_decimal_no_sep(n / 10);
    }
}

/// Every candidate note name is a single path component.
pub proof fn lemma_untitled_is_part(n: nat)
    ensures
        is_part(untitled(n)),
{
    lemma_decimal_no_sep(n);
    let u = untitled(n);
    let d = decimal(n);
    assert forall|k: int| 0 <= k < u.len() implies u[k] != '/' by {
        if 9 <= k < 9 + d.len() {
            assert(u[k] == d[k - 9]);
        }
    }
}

} // verus!
