use vstd::prelude::*;

use crate::error::VaultError;
use crate::listing::admitted;
use crate::names::{
    decimal, digit_of, has_sep, is_first_free, is_hidden, lemma_decimal_no_sep, name_error,
    taken, untitled, MAX_UNTITLED,
};
use crate::ops::{child, create_dir_error, move_error, move_name};
use crate::path::{is_within, metadata_name, model_wf, rel_model, touches_metadata, PathModel};
use crate::text::trim;

verus! {

/// A destination parent that is not a directory is refused, by the directory
/// creator and, once the source is known to be a movable entry, by the mover.
pub proof fn law_non_directory_refused(
    old: PathModel,
    parent: PathModel,
    name: Seq<char>,
)
    ensures
        create_dir_error(parent, false, name) == Some(VaultError::NotADirectory),
        !touches_metadata(old) ==> move_error(old, true, parent, false, name) == Some(
            VaultError::NotADirectory,
        ),
{
}

/// Nothing a listing shows lies in the metadata directory or in any other
/// hidden directory, and no entry it shows is itself hidden.
pub proof fn law_listing_skips_hidden(path: PathModel, base: PathModel)
    requires
        admitted(path, base),
    ensures
        !is_hidden(path.parts.last()),
        !touches_metadata(rel_model(path, base)),
        forall|i: int|
            0 <= i < rel_model(path, base).parts.len() ==> !is_hidden(
                #[trigger] rel_model(path, base).parts[i],
            ),
{
    let rel = rel_model(path, base);
    assert(rel.parts.last() == path.parts.last());
    assert(!is_hidden(rel.parts[rel.parts.len() - 1]));
    if touches_metadata(rel) {
        let i = choose|i: int| 0 <= i < rel.parts.len() && rel.parts[i] == metadata_name();
        assert(is_hidden(rel.parts[i]));
    }
}

/// Two different numbers give two different decimal texts.
pub proof fn lemma_decimal_injective(a: nat, b: nat)
    requires
        decimal(a) == decimal(b),
    ensures
        a == b,
    decreases a,
{
    lemma_decimal_no_sep(a / 10);
    lemma_decimal_no_sep(b / 10);
    if a < 10 && b < 10 {
        assert(decimal(a)[0] == digit_of(a));
        assert(decimal(b)[0] == digit_of(b));
    } else if a < 10 {
        assert(decimal(b).len() >= 2);
    } else if b < 10 {
        assert(decimal(a).len() >= 2);
    } else {
        assert(decimal(a).drop_last() =~= decimal(a / 10));
        assert(decimal(b).drop_last() =~= decimal(b / 10));
        assert(decimal(a).last() == digit_of(a % 10));
        assert(decimal(b).last() == digit_of(b % 10));
        lemma_decimal_injective(a / 10, b / 10);
    }
}

/// Candidate note names are all distinct.
pub proof fn law_untitled_distinct(a: nat, b: nat)
    requires
        a != b,
    ensures
        untitled(a) != untitled(b),
{
    if untitled(a) == untitled(b) {
        let ua = untitled(a);
        let ub = untitled(b);
        assert(ua.subrange(9, ua.len() - 3) =~= decimal(a));
        assert(ub.subrange(9, ub.len() - 3) =~= decimal(b));
        lemma_decimal_injective(a, b);
    }
}

/// In a vault that holds exactly `Untitled 1.md` .. `Untitled k.md`, the
/// next note is `Untitled k+1.md`: so `n` notes created in an empty vault
/// are named `Untitled 1.md` .. `Untitled n.md`.
pub proof fn law_next_untitled(existing: Seq<Seq<char>>, k: nat)
    requires
        k < MAX_UNTITLED,
        forall|s: Seq<char>|
            #[trigger] existing.contains(s) <==> exists|m: nat| 1 <= m <= k && s == untitled(m),
    ensures
        is_first_free(existing, k + 1),
        forall|n: nat| #[trigger] is_first_free(existing, n) ==> n == k + 1,
{
    assert forall|m: nat| 1 <= m < k + 1 implies taken(existing, m) by {
        assert(existing.contains(untitled(m)));
    }
    if taken(existing, k + 1) {
        let m = choose|m: nat| 1 <= m <= k && untitled(k + 1) == #[trigger] untitled(m);
        law_untitled_distinct(k + 1, m);
    }
    assert forall|n: nat| #[trigger] is_first_free(existing, n) implies n == k + 1 by {
        if n < k + 1 {
            assert(taken(existing, n)) by {
                assert(existing.contains(untitled(n)));
            }
        } else if n > k + 1 {
            assert(taken(existing, k + 1));
        }
    }
}

/// Moving an entry into its own parent under its own name changes nothing:
/// the move is allowed and its target is the entry itself. (A name with
/// white space at either end is trimmed by the move, so it is left out.)
pub proof fn law_self_move(p: PathModel)
    requires
        model_wf(p),
        p.parts.len() > 0,
        !touches_metadata(p),
        name_error(trim(p.parts.last()), true) is None,
        trim(p.parts.last()) == p.parts.last(),
    ensures
        ({
            let parent = PathModel { rooted: p.rooted, parts: p.parts.drop_last() };
            &&& move_error(p, true, parent, true, move_name(p, None)) is None
            &&& child(parent, move_name(p, None)) == p
        }),
{
    let parent = PathModel { rooted: p.rooted, parts: p.parts.drop_last() };
    assert(child(parent, move_name(p, None)).parts =~= p.parts);
    if touches_metadata(parent) {
        let i = choose|i: int| 0 <= i < parent.parts.len() && parent.parts[i] == metadata_name();
        assert(p.parts[i] == metadata_name());
    }
}

/// A directory cannot be moved into itself or anywhere below it.
pub proof fn law_no_move_below_itself(d: PathModel, parent: PathModel, name: Seq<char>)
    requires
        is_within(parent, d),
        !touches_metadata(d),
        !touches_metadata(parent),
        name_error(trim(name), true) is None,
    ensures
        move_error(d, true, parent, true, name) == Some(VaultError::InvalidOperation),
{
    let c = child(parent, name);
    assert(c.parts.subrange(0, d.parts.len() as int) =~= parent.parts.subrange(
        0,
        d.parts.len() as int,
    ));
    assert(c.parts.len() > d.parts.len());
}

/// The directory creator refuses each bad name on its own: empty or white
/// space only, the metadata directory's name, hidden, or holding a separator.
pub proof fn law_create_directory_rejects(parent: PathModel, name: Seq<char>)
    requires
        !touches_metadata(parent),
    ensures
        trim(name).len() == 0 ==> create_dir_error(parent, true, name) == Some(
            VaultError::InvalidName,
        ),
        trim(name) == metadata_name() ==> create_dir_error(parent, true, name) == Some(
            VaultError::ReservedName,
        ),
        is_hidden(trim(name)) && trim(name) != metadata_name() ==> create_dir_error(
            parent,
            true,
            name,
        ) == Some(VaultError::InvalidName),
        has_sep(trim(name)) ==> create_dir_error(parent, true, name) == Some(
            VaultError::InvalidName,
        ),
{
    let t = trim(name);
    if has_sep(t) && t == metadata_name() {
        let k = choose|k: int| 0 <= k < t.len() && crate::names::is_sep_char(t[k]);
        assert(0 <= k < 8);
    }
}

/// The names of the first `k` candidate notes, in order.
pub open spec fn untitled_upto(k: nat) -> Seq<Seq<char>>
    decreases k,
{
    if k == 0 {
        Seq::empty()
    } else {
        untitled_upto((k - 1) as nat).push(untitled(k))
    }
}

proof fn lemma_untitled_upto(k: nat)
    ensures
        untitled_upto(k).len() == k,
        forall|i: int| 0 <= i < k ==> #[trigger] untitled_upto(k)[i] == untitled((i + 1) as nat),
        forall|s: Seq<char>|
            #[trigger] untitled_upto(k).contains(s) <==> exists|m: nat|
                1 <= m <= k && s == untitled(m),
    decreases k,
{
    if k > 0 {
        lemma_untitled_upto((k - 1) as nat);
    }
    let u = untitled_upto(k);
    assert forall|s: Seq<char>| #[trigger] u.contains(s) <==> exists|m: nat|
        1 <= m <= k && s == untitled(m) by {
        if u.contains(s) {
            let i = choose|i: int| 0 <= i < u.len() && u[i] == s;
            assert(1 <= i + 1 <= k && s == untitled((i + 1) as nat));
        }
        if exists|m: nat| 1 <= m <= k && s == untitled(m) {
            let m = choose|m: nat| 1 <= m <= k && s == untitled(m);
            assert(u[m - 1] == s);
        }
    }
}

/// Notes created one after another in an empty vault, each while the vault
/// holds exactly the notes created before it: the `k`-th is named
/// `Untitled k.md`, so `n` of them are `Untitled 1.md` .. `Untitled n.md`,
/// all distinct.
pub proof fn law_untitled_run(n: nat)
    requires
        n <= MAX_UNTITLED,
    ensures
        forall|k: nat|
            k < n ==> #[trigger] is_first_free(untitled_upto(k), k + 1) && forall|j: nat|
                is_first_free(untitled_upto(k), j) ==> j == k + 1,
        untitled_upto(n).no_duplicates(),
        forall|s: Seq<char>|
            #[trigger] untitled_upto(n).contains(s) <==> exists|m: nat|
                1 <= m <= n && s == untitled(m),
{
    lemma_untitled_upto(n);
    assert forall|k: nat| k < n implies #[trigger] is_first_free(untitled_upto(k), k + 1)
        && forall|j: nat| is_first_free(untitled_upto(k), j) ==> j == k + 1 by {
        lemma_untitled_upto(k);
        law_next_untitled(untitled_upto(k), k);
    }
    let u = untitled_upto(n);
    assert forall|i: int, j: int| 0 <= i < u.len() && 0 <= j < u.len() && i != j implies u[i]
        != u[j] by {
        law_untitled_distinct((i + 1) as nat, (j + 1) as nat);
    }
}

} // verus!
