//! The upsert algorithm's decision core.
//!
//! The container format is append-only: replacing a member means writing a
//! fresh container that holds the new members first and then every old entry
//! whose path none of the new members claims.  The functions here decide,
//! for each old entry, whether it survives, and state the exact listing the
//! rewrite produces; the caller streams the containers accordingly.

use vstd::prelude::*;

use crate::seq_facts::{lemma_deep_view_after_push, lemma_filter_all_pass, lemma_filter_push};

verus! {

/// The survival test for old entries: a path passes when no pending member
/// path equals it.
pub open spec fn not_superseded_by(pending: Seq<Seq<char>>) -> spec_fn(Seq<char>) -> bool {
    |path: Seq<char>| !pending.contains(path)
}

/// The old entries that a rewrite carries over: those whose path is not
/// among the pending member paths, in their original relative order.
pub open spec fn surviving_paths(
    existing: Seq<Seq<char>>,
    pending: Seq<Seq<char>>,
) -> Seq<Seq<char>> {
    existing.filter(not_superseded_by(pending))
}

/// The listing of the container a rewrite produces: the pending members
/// first, in their collection order, followed by the surviving old entries
/// in their original order.
pub open spec fn upsert_listing(
    pending: Seq<Seq<char>>,
    existing: Seq<Seq<char>>,
) -> Seq<Seq<char>> {
    pending + surviving_paths(existing, pending)
}

/// Whether one of the pending member paths equals `path`.
///
/// This is the per-entry decision of the rewrite: an old entry whose path is
/// superseded is dropped, every other one is copied verbatim.
pub fn is_superseded(path: &String, pending: &Vec<String>) -> (r: bool)
    ensures
        r == pending.deep_view().contains(path@),
{
    let mut i: usize = 0;
    while i < pending.len()
        invariant
            i <= pending.len(),
            forall|j: int| 0 <= j < i ==> pending.deep_view()[j] != path@,
        decreases pending.len() - i,
    {
        if pending[i].eq(path) {
            assert(pending.deep_view()[i as int] == path@);
            return true;
        }
        i += 1;
    }
    false
}

/// The listing that rewriting `existing` under the pending member paths
/// produces, without touching any container.
pub fn upsert_members(pending: &Vec<String>, existing: &Vec<String>) -> (r: Vec<String>)
    ensures
        r.deep_view() == upsert_listing(pending.deep_view(), existing.deep_view()),
{
    let mut r: Vec<String> = Vec::new();
    let mut i: usize = 0;
    while i < pending.len()
        invariant
            i <= pending.len(),
            r.deep_view() == pending.deep_view().take(i as int),
        decreases pending.len() - i,
    {
        let ghost prev = r@;
        let ghost rv0 = r.deep_view();
        let member = pending[i].clone();
        proof {
            assert(member@ == pending.deep_view()[i as int]);
        }
        r.push(member);
        proof {
            lemma_deep_view_after_push(prev, rv0, &r);
            assert(rv0.push(pending.deep_view()[i as int]) =~= pending.deep_view().take(
                i + 1 as int,
            ));
        }
        i += 1;
    }
    proof {
        assert(pending.deep_view().take(pending.len() as int) =~= pending.deep_view());
    }
    let mut j: usize = 0;
    while j < existing.len()
        invariant
            j <= existing.len(),
            r.deep_view() == pending.deep_view() + existing.deep_view().take(j as int).filter(
                not_superseded_by(pending.deep_view()),
            ),
        decreases existing.len() - j,
    {
        let ghost pred = not_superseded_by(pending.deep_view());
        let ghost prefix = existing.deep_view().take(j as int);
        let ghost x = existing.deep_view()[j as int];
        let superseded = is_superseded(&existing[j], pending);
        if !superseded {
            let ghost prev = r@;
            let ghost rv0 = r.deep_view();
            let survivor = existing[j].clone();
            proof {
                assert(survivor@ == x);
            }
            r.push(survivor);
            proof {
                lemma_deep_view_after_push(prev, rv0, &r);
                assert(existing.deep_view().take(j + 1 as int) =~= prefix.push(x));
                lemma_filter_push(prefix, x, pred);
                assert(rv0.push(x) =~= pending.deep_view() + prefix.filter(pred).push(x));
            }
        } else {
            proof {
                assert(existing.deep_view().take(j + 1 as int) =~= prefix.push(x));
                lemma_filter_push(prefix, x, pred);
            }
        }
        j += 1;
    }
    proof {
        assert(existing.deep_view().take(existing.len() as int) =~= existing.deep_view());
    }
    r
}

/// The order of the upsert listing, spelled out: the new and updated
/// members stand first, in call order; everything after them is exactly
/// the surviving old entries, in their original relative order; and no
/// path is lost — a path is listed if and only if it was pending or
/// already present, each exactly once per occurrence that survives.
pub proof fn lemma_upsert_ordering(pending: Seq<Seq<char>>, existing: Seq<Seq<char>>)
    ensures
        upsert_listing(pending, existing).take(pending.len() as int) == pending,
        upsert_listing(pending, existing).skip(pending.len() as int) == surviving_paths(
            existing,
            pending,
        ),
        forall|path: Seq<char>|
            #[trigger] upsert_listing(pending, existing).contains(path) <==> (pending.contains(
                path,
            ) || existing.contains(path)),
{
    let pred = not_superseded_by(pending);
    let survivors = surviving_paths(existing, pending);
    let listing = upsert_listing(pending, existing);
    assert(listing.take(pending.len() as int) =~= pending);
    assert(listing.skip(pending.len() as int) =~= survivors);
    assert forall|path: Seq<char>| #[trigger] listing.contains(path) implies (pending.contains(path)
        || existing.contains(path)) by {
        let i = choose|i: int| 0 <= i < listing.len() && listing[i] == path;
        if i >= pending.len() {
            existing.lemma_filter_contains_rev(pred, path);
        }
    }
    assert forall|path: Seq<char>| pending.contains(path) || existing.contains(path) implies
        #[trigger] listing.contains(path) by {
        if pending.contains(path) {
            let i = choose|i: int| 0 <= i < pending.len() && pending[i] == path;
            assert(listing[i] == path);
        } else {
            let i = choose|i: int| 0 <= i < existing.len() && existing[i] == path;
            existing.lemma_filter_contains(pred, i);
            let j = choose|j: int| 0 <= j < survivors.len() && survivors[j] == path;
            assert(listing[pending.len() + j] == path);
        }
    }
}

/// The engine's invariant on added paths: after a rewrite, an added path
/// is listed exactly once — the newly written entry — however many entries
/// the old archive held under it.  The hypothesis that the pending set
/// holds no duplicates is what the collector guarantees of every set it
/// assembles.  Returns the index of the one entry.
pub proof fn lemma_exactly_one_entry_per_added_path(
    pending: Seq<Seq<char>>,
    existing: Seq<Seq<char>>,
    path: Seq<char>,
) -> (i: int)
    requires
        pending.no_duplicates(),
        pending.contains(path),
    ensures
        0 <= i < upsert_listing(pending, existing).len(),
        upsert_listing(pending, existing)[i] == path,
        forall|j: int|
            0 <= j < upsert_listing(pending, existing).len() && #[trigger] upsert_listing(
                pending,
                existing,
            )[j] == path ==> j == i,
{
    let listing = upsert_listing(pending, existing);
    let i = choose|k: int| 0 <= k < pending.len() && pending[k] == path;
    assert(listing[i] == path);
    assert forall|j: int| 0 <= j < listing.len() && #[trigger] listing[j] == path implies j == i by {
        if j < pending.len() {
            assert(pending[j] == path);
        } else {
            existing.lemma_filter_pred(not_superseded_by(pending), j - pending.len());
        }
    }
    i
}

/// Rewriting twice under the same pending member paths yields the same
/// listing as rewriting once: the second rewrite supersedes exactly the
/// members it re-adds, in place, and carries every other entry over
/// unchanged.
pub proof fn lemma_upsert_idempotent(pending: Seq<Seq<char>>, existing: Seq<Seq<char>>)
    ensures
        upsert_listing(pending, upsert_listing(pending, existing)) == upsert_listing(
            pending,
            existing,
        ),
{
    let pred = not_superseded_by(pending);
    let survivors = surviving_paths(existing, pending);
    Seq::filter_distributes_over_add(pending, survivors, pred);
    assert(pending.all(|x: Seq<char>| !pred(x))) by {
        assert forall|i: int| 0 <= i < pending.len() implies !pred(pending[i]) by {
            assert(pending.contains(pending[i]));
        }
    }
    pending.lemma_all_neg_filter_empty(pred);
    assert forall|i: int| 0 <= i < survivors.len() implies pred(#[trigger] survivors[i]) by {
        existing.lemma_filter_pred(pred, i);
    }
    lemma_filter_all_pass(survivors, pred);
    assert(pending.filter(pred) + survivors =~= survivors);
}

/// Rewriting an archive that does not exist yet — the create case — yields
/// exactly the pending members, in their collection order.
pub proof fn lemma_create_listing(pending: Seq<Seq<char>>)
    ensures
        upsert_listing(pending, Seq::empty()) == pending,
{
    reveal(Seq::filter);
    assert(pending + Seq::<Seq<char>>::empty().filter(not_superseded_by(pending)) =~= pending);
}

/// A rewrite that adds nothing supersedes nothing: every old entry
/// survives, in place.
pub proof fn lemma_empty_upsert(existing: Seq<Seq<char>>)
    ensures
        upsert_listing(Seq::empty(), existing) == existing,
{
    let pred = not_superseded_by(Seq::<Seq<char>>::empty());
    lemma_filter_all_pass(existing, pred);
    assert(Seq::<Seq<char>>::empty() + existing =~= existing);
}

} // verus!
