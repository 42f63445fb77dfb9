//! What the process listing guarantees to its caller, proved from the
//! definitions of the listing.

use crate::error::PsError;
use crate::pattern::is_pid_name;
use crate::process::{
    agrees, entry_line, entry_record, format_line, header, listing, ps_outcome, record_of,
    EntryModel,
};
use crate::status::{caller_identity, first_line, owner_label, status_owner};
use crate::text::{lines, text_views};
use vstd::prelude::*;
use vstd::seq_lib::{
    lemma_multiset_commutative, to_multiset_build, to_multiset_contains, to_multiset_len,
    to_multiset_remove,
};

verus! {

/// The listing of entries that follow one another is the listing of the
/// first ones followed by the listing of the others.
pub proof fn lemma_listing_concat(uid: Seq<char>, a: Seq<EntryModel>, b: Seq<EntryModel>)
    ensures
        listing(uid, a + b) == listing(uid, a) + listing(uid, b),
    decreases b.len(),
{
    if b.len() == 0 {
        assert(a + b =~= a);
        assert(listing(uid, a) + listing(uid, b) =~= listing(uid, a));
    } else {
        assert((a + b).drop_last() =~= a + b.drop_last());
        assert((a + b).last() == b.last());
        lemma_listing_concat(uid, a, b.drop_last());
        assert(listing(uid, a + b) =~= listing(uid, a) + listing(uid, b));
    }
}

/// The listing of a single entry is its line, if it has one.
pub proof fn lemma_listing_single(uid: Seq<char>, e: EntryModel)
    ensures
        listing(uid, seq![e]) == match entry_line(uid, e) {
            Some(line) => seq![line],
            None => Seq::empty(),
        },
{
    let one = seq![e];
    assert(one.drop_last() =~= Seq::<EntryModel>::empty());
    assert(one.last() == e);
    assert(listing(uid, one.drop_last()) =~= Seq::<Seq<char>>::empty());
    assert(listing(uid, one) =~= match entry_line(uid, e) {
        Some(line) => seq![line],
        None => Seq::empty(),
    });
}

/// Every process of the caller is listed, once: where each entry has a
/// process identifier for its name, a status record that declares the
/// caller as its owner, and a stat record that was read, the listing has
/// one line for each entry, in the order of the entries.
pub proof fn lemma_own_processes_listed_once(uid: Seq<char>, entries: Seq<EntryModel>)
    requires
        uid.len() > 0,
        forall|i: int|
            0 <= i < entries.len() ==> {
                &&& is_pid_name(#[trigger] entries[i].name)
                &&& entries[i].status is Some
                &&& entries[i].stat is Some
                &&& status_owner(entries[i].status->0) == uid
            },
    ensures
        listing(uid, entries).len() == entries.len(),
        forall|i: int|
            0 <= i < entries.len() ==> #[trigger] listing(uid, entries)[i] == format_line(
                record_of(entries[i].name, entries[i].status->0, entries[i].stat->0),
            ),
    decreases entries.len(),
{
    if entries.len() > 0 {
        let before = entries.drop_last();
        let e = entries.last();
        assert forall|i: int| 0 <= i < before.len() implies {
            &&& is_pid_name(#[trigger] before[i].name)
            &&& before[i].status is Some
            &&& before[i].stat is Some
            &&& status_owner(before[i].status->0) == uid
        } by {
            assert(before[i] == entries[i]);
        }
        lemma_own_processes_listed_once(uid, before);
        assert(is_pid_name(entries[entries.len() - 1].name));
        assert(entry_line(uid, e) is Some);
        assert(listing(uid, entries) =~= listing(uid, before) + seq![entry_line(uid, e)->0]);
        assert forall|i: int| 0 <= i < entries.len() implies #[trigger] listing(uid, entries)[i]
            == format_line(
            record_of(entries[i].name, entries[i].status->0, entries[i].stat->0),
        ) by {
            if i < before.len() {
                assert(before[i] == entries[i]);
                assert(listing(uid, entries)[i] == listing(uid, before)[i]);
            }
        }
    }
}

/// Every line of a listing belongs to an entry that has a process
/// identifier for its name and a status record that declares the caller
/// as its owner.
pub proof fn lemma_listed_lines_are_owned(uid: Seq<char>, entries: Seq<EntryModel>, j: int)
    requires
        0 <= j < listing(uid, entries).len(),
    ensures
        exists|i: int|
            0 <= i < entries.len() && is_pid_name(#[trigger] entries[i].name)
                && entries[i].status is Some && status_owner(entries[i].status->0) == uid
                && entry_line(uid, entries[i]) == Some(listing(uid, entries)[j]),
    decreases entries.len(),
{
    if entries.len() > 0 {
        let before = entries.drop_last();
        let e = entries.last();
        if j < listing(uid, before).len() {
            lemma_listed_lines_are_owned(uid, before, j);
            let i = choose|i: int|
                0 <= i < before.len() && is_pid_name(#[trigger] before[i].name)
                    && before[i].status is Some && status_owner(before[i].status->0) == uid
                    && entry_line(uid, before[i]) == Some(listing(uid, before)[j]);
            assert(before[i] == entries[i]);
            assert(is_pid_name(entries[i].name));
            assert(listing(uid, entries)[j] == listing(uid, before)[j]);
        } else {
            let i = entries.len() - 1;
            assert(entry_line(uid, e) is Some);
            assert(is_pid_name(entries[i].name));
            assert(listing(uid, entries)[j] == entry_line(uid, e)->0);
        }
    }
}

/// An entry that has no line of its own changes nothing: with it, at any
/// place among the others, the listing is what it is without it.
pub proof fn lemma_unlisted_entry_is_ignored(
    uid: Seq<char>,
    entries: Seq<EntryModel>,
    at: int,
    e: EntryModel,
)
    requires
        0 <= at <= entries.len(),
        entry_line(uid, e) is None,
    ensures
        listing(uid, entries.insert(at, e)) == listing(uid, entries),
{
    let front = entries.take(at);
    let back = entries.skip(at);
    assert(entries.insert(at, e) =~= (front + seq![e]) + back);
    assert(entries =~= front + back);
    lemma_listing_concat(uid, front + seq![e], back);
    lemma_listing_concat(uid, front, seq![e]);
    lemma_listing_single(uid, e);
    lemma_listing_concat(uid, front, back);
    assert(listing(uid, front) + Seq::<Seq<char>>::empty() =~= listing(uid, front));
}

/// A process of another owner is not listed: an entry whose status record
/// declares an owner other than the caller adds no line, wherever it
/// stands in the registry.
pub proof fn lemma_foreign_process_not_listed(
    uid: Seq<char>,
    entries: Seq<EntryModel>,
    at: int,
    e: EntryModel,
)
    requires
        0 <= at <= entries.len(),
        e.status is Some ==> status_owner(e.status->0) != uid,
    ensures
        entry_line(uid, e) is None,
        listing(uid, entries.insert(at, e)) == listing(uid, entries),
{
    lemma_unlisted_entry_is_ignored(uid, entries, at, e);
}

/// An entry whose name is not a process identifier is no process: it adds
/// no line, whatever its records hold and wherever it stands.
pub proof fn lemma_other_entry_not_listed(
    uid: Seq<char>,
    entries: Seq<EntryModel>,
    at: int,
    e: EntryModel,
)
    requires
        0 <= at <= entries.len(),
        !is_pid_name(e.name),
    ensures
        entry_record(uid, e) is None,
        listing(uid, entries.insert(at, e)) == listing(uid, entries),
{
    lemma_unlisted_entry_is_ignored(uid, entries, at, e);
}

/// A process that went away while the registry was read costs the listing
/// nothing but its own line: with an entry whose status or stat record
/// could not be read, the command gives what it gives without that entry.
pub proof fn lemma_vanished_process_is_skipped(
    self_status: Option<Seq<char>>,
    entries: Seq<EntryModel>,
    at: int,
    e: EntryModel,
)
    requires
        0 <= at <= entries.len(),
        e.status is None || e.stat is None,
    ensures
        ps_outcome(self_status, Some(entries.insert(at, e))) == ps_outcome(self_status, Some(entries)),
{
    if self_status is Some && caller_identity(self_status->0) is Some {
        lemma_unlisted_entry_is_ignored(caller_identity(self_status->0)->0, entries, at, e);
    }
}

/// A caller whose own status record has no owner line gets no listing:
/// the command fails, whatever the registry holds.
pub proof fn lemma_caller_without_owner_line(status: Seq<char>, registry: Option<Seq<EntryModel>>)
    requires
        forall|i: int|
            0 <= i < lines(status).len() ==> !owner_label().is_prefix_of(#[trigger] lines(status)[i]),
    ensures
        caller_identity(status) is None,
        ps_outcome(Some(status), registry) == Err::<Seq<Seq<char>>, PsError>(
            PsError::NoOwnerIdentity,
        ),
{
    lemma_no_labelled_line(lines(status), owner_label());
}

/// Among lines of which none begins with `label` there is no first one
/// that does.
pub proof fn lemma_no_labelled_line(ls: Seq<Seq<char>>, label: Seq<char>)
    requires
        forall|i: int| 0 <= i < ls.len() ==> !label.is_prefix_of(#[trigger] ls[i]),
    ensures
        first_line(ls, label) is None,
    decreases ls.len(),
{
    if ls.len() > 0 {
        assert(!label.is_prefix_of(ls[0]));
        let rest = ls.drop_first();
        assert forall|i: int| 0 <= i < rest.len() implies !label.is_prefix_of(
            #[trigger] rest[i],
        ) by {
            assert(rest[i] == ls[i + 1]);
        }
        lemma_no_labelled_line(rest, label);
    }
}

/// The order of the registry decides the order of the lines and nothing
/// else: two registries that hold the same entries, each as often as the
/// other, give the same lines, each as often as the other.
pub proof fn lemma_listing_ignores_order(uid: Seq<char>, a: Seq<EntryModel>, b: Seq<EntryModel>)
    requires
        a.to_multiset() == b.to_multiset(),
    ensures
        listing(uid, a).to_multiset() == listing(uid, b).to_multiset(),
    decreases a.len(),
{
    to_multiset_len(a);
    to_multiset_len(b);
    if a.len() == 0 {
        assert(b =~= a);
    } else {
        let x = a.last();
        let rest = a.drop_last();
        assert(a =~= rest.push(x));
        to_multiset_build(rest, x);
        to_multiset_contains(b, x);
        assert(a.to_multiset().count(x) > 0);
        let j = choose|j: int| 0 <= j < b.len() && b[j] == x;
        let front = b.take(j);
        let back = b.skip(j + 1);
        to_multiset_remove(b, j);
        assert(b.remove(j) =~= front + back);
        assert(rest.to_multiset() =~= a.to_multiset().remove(x));
        assert(rest.to_multiset() == (front + back).to_multiset());
        lemma_listing_ignores_order(uid, rest, front + back);
        let mid = listing(uid, seq![x]);
        // the lines of `a`
        assert(a =~= rest + seq![x]);
        lemma_listing_concat(uid, rest, seq![x]);
        lemma_multiset_commutative(listing(uid, rest), mid);
        // the lines of `b`
        assert(b =~= (front + seq![x]) + back);
        lemma_listing_concat(uid, front + seq![x], back);
        lemma_listing_concat(uid, front, seq![x]);
        lemma_listing_concat(uid, front, back);
        lemma_multiset_commutative(listing(uid, front) + mid, listing(uid, back));
        lemma_multiset_commutative(listing(uid, front), mid);
        lemma_multiset_commutative(listing(uid, front), listing(uid, back));
        assert(listing(uid, b).to_multiset() =~= listing(uid, front + back).to_multiset().add(
            mid.to_multiset(),
        ));
    }
}

/// Listing one snapshot twice gives the same both times; listing it with
/// its registry in another order gives the same failure, or the header and
/// then the same lines, each as often.
pub proof fn lemma_listing_is_repeatable(
    self_status: Option<Seq<char>>,
    a: Seq<EntryModel>,
    b: Seq<EntryModel>,
    first: Result<Vec<String>, PsError>,
    second: Result<Vec<String>, PsError>,
)
    requires
        a.to_multiset() == b.to_multiset(),
        agrees(first, ps_outcome(self_status, Some(a))),
        agrees(second, ps_outcome(self_status, Some(b))),
    ensures
        first is Ok <==> second is Ok,
        first is Err ==> first->Err_0 == second->Err_0,
        first is Ok ==> {
            &&& text_views(first->Ok_0@).first() == header()
            &&& text_views(second->Ok_0@).first() == header()
            &&& text_views(first->Ok_0@).drop_first().to_multiset() == text_views(
                second->Ok_0@,
            ).drop_first().to_multiset()
        },
        first is Ok && a == b ==> text_views(first->Ok_0@) == text_views(second->Ok_0@),
{
    if first is Ok {
        let uid = caller_identity(self_status->0)->0;
        lemma_listing_ignores_order(uid, a, b);
        assert((seq![header()] + listing(uid, a)).drop_first() =~= listing(uid, a));
        assert((seq![header()] + listing(uid, b)).drop_first() =~= listing(uid, b));
    }
}

} // verus!
