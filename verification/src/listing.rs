//! A whole listing: what Windows takes of a directory over several calls.

use crate::attr::FileAttr;
use crate::context::{OpenFile, UnitPlan};
use crate::directory::{
    collected, is_listable, is_pending, lemma_every_item_is_collected, lemma_pending,
    lemma_pending_is_distinct, lemma_pieces_join, offering, offering_first, pending,
    read_directory_plan,
};
use crate::order::{
    distinct, lemma_sorted, lemma_sorted_is_distinct, lemma_sorted_keeps, ordered, sorted, text_le,
    Entries,
};
use crate::plan::Plan;
use crate::protocol::{Answer, Asked, DirEntry, Reply, Request};
use crate::status::{FsError, NTSTATUS};
use crate::utf16::{lemma_decode_encode, lossy_text, text_units, NAME_UNITS};
use vstd::prelude::*;

verus! {

/// A call of Windows that lists a directory: how many entries it takes before it refuses one,
/// and how the store replies meanwhile, which may be otherwise in every call.
pub struct ListingCall {
    pub room: nat,
    pub store: spec_fn(Asked) -> Answer,
}

/// What calls come to: the listing that the open directory keeps at their end, the entries that
/// Windows took, in the order in which it took them, and whether every call succeeded.
#[verifier::ext_equal]
pub struct ListingOutcome {
    pub kept: Option<Entries>,
    pub taken: Entries,
    pub succeeded: bool,
}

/// What a call comes to, from a listing that is kept and the entries that are taken already,
/// if the lock of the open directory is in order.
pub open spec fn listing_call(
    plan: UnitPlan,
    kept: Option<Entries>,
    taken: Entries,
    call: ListingCall,
) -> ListingOutcome
    decreases plan,
{
    match plan {
        Plan::Ask(request, next) => match request {
            Request::CachedEntries => listing_call(
                next(Reply::Cached(Some(kept))),
                kept,
                taken,
                call,
            ),
            Request::StoreEntries { entries } => listing_call(
                next(Reply::Kept),
                Some(entries),
                taken,
                call,
            ),
            Request::ClearEntries => listing_call(next(Reply::Stored(true)), None, taken, call),
            Request::Offer { entry } => if taken.len() < call.room {
                listing_call(next(Reply::Accepted(true)), kept, taken.push(entry), call)
            } else {
                listing_call(next(Reply::Accepted(false)), kept, taken, call)
            },
            _ => listing_call(next((call.store)(request)), kept, taken, call),
        },
        Plan::Done(result) => ListingOutcome { kept, taken, succeeded: result is Ok },
        Plan::Overflow => ListingOutcome { kept, taken, succeeded: false },
    }
}

/// The marker with which Windows comes back: the last name that it took, which went through
/// UTF-16, or the marker it had if it took none.
pub open spec fn next_marker(marker: Option<Seq<char>>, taken: Entries) -> Option<Seq<char>> {
    if taken.len() > 0 {
        Some(lossy_text(text_units(taken.last().name)))
    } else {
        marker
    }
}

/// What calls come to that each take up where the one before left off.
pub open spec fn listing_run(
    file: OpenFile,
    kept: Option<Entries>,
    marker: Option<Seq<char>>,
    calls: Seq<ListingCall>,
) -> ListingOutcome
    decreases calls.len(),
{
    if calls.len() == 0 {
        ListingOutcome { kept, taken: Seq::empty(), succeeded: true }
    } else {
        let first = listing_call(
            read_directory_plan(file, marker),
            kept,
            Seq::empty(),
            calls[0],
        );
        let rest = listing_run(
            file,
            first.kept,
            next_marker(marker, first.taken),
            calls.skip(1),
        );
        ListingOutcome {
            kept: rest.kept,
            taken: first.taken + rest.taken,
            succeeded: first.succeeded && rest.succeeded,
        }
    }
}

/// How many entries calls have room for.
pub open spec fn total_room(calls: Seq<ListingCall>) -> nat
    decreases calls.len(),
{
    if calls.len() == 0 {
        0
    } else {
        calls[0].room + total_room(calls.skip(1))
    }
}

/// What offering comes to: all entries are taken and the listing is forgotten, or as many as
/// there is room for and the listing stays.
proof fn lemma_offering_call(
    entries: Entries,
    kept: Option<Entries>,
    taken: Entries,
    call: ListingCall,
)
    requires
        taken.len() <= call.room,
    ensures
        listing_call(offering(entries), kept, taken, call) == if taken.len() + entries.len()
            <= call.room {
            ListingOutcome { kept: None, taken: taken + entries, succeeded: true }
        } else {
            ListingOutcome {
                kept,
                taken: taken + entries.take(call.room - taken.len()),
                succeeded: true,
            }
        },
    decreases entries.len(),
{
    reveal_with_fuel(listing_call, 3);
    reveal_with_fuel(offering, 2);
    reveal_with_fuel(offering_first, 2);
    if entries.len() == 0 {
        assert(taken + entries == taken);
    } else if taken.len() < call.room {
        let rest = entries.skip(1);
        lemma_offering_call(rest, kept, taken.push(entries[0]), call);
        assert(taken.push(entries[0]) + rest == taken + entries);
        if taken.len() + entries.len() > call.room {
            let room = call.room - taken.len();
            assert(taken.push(entries[0]) + rest.take(room - 1) == taken + entries.take(room));
        }
    } else {
        assert(taken + entries.take(0) == taken);
    }
}

/// The calls that follow the first.
proof fn lemma_further_calls(
    file: OpenFile,
    listing: Entries,
    before: int,
    marker: Option<Seq<char>>,
    calls: Seq<ListingCall>,
)
    requires
        file.is_dir,
        ordered(listing),
        distinct(pending(listing, None)),
        0 < before <= pending(listing, None).len(),
        marker == Some(pending(listing, None)[before - 1].name),
        calls.len() > 0,
        before + total_room(calls.drop_last()) < pending(listing, None).len(),
    ensures
        listing_run(file, Some(listing), marker, calls) == if before + total_room(calls)
            >= pending(listing, None).len() {
            ListingOutcome {
                kept: None,
                taken: pending(listing, None).skip(before),
                succeeded: true,
            }
        } else {
            ListingOutcome {
                kept: Some(listing),
                taken: pending(listing, None).subrange(before, before + total_room(calls)),
                succeeded: true,
            }
        },
    decreases calls.len(),
{
    let all = pending(listing, None);
    let call = calls[0];
    let offered = all.skip(before);
    let further = calls.skip(1);
    assert(all[before - 1].name != all[before].name);
    lemma_pieces_join(listing, before);
    assert(pending(listing, marker) == offered);
    lemma_offering_call(offered, Some(listing), Seq::empty(), call);
    reveal_with_fuel(listing_call, 2);
    let first = listing_call(
        read_directory_plan(file, marker),
        Some(listing),
        Seq::empty(),
        call,
    );
    assert(first == listing_call(offering(offered), Some(listing), Seq::empty(), call));
    assert(Entries::empty() + offered == offered);
    if further.len() == 0 {
        reveal_with_fuel(listing_run, 2);
        reveal_with_fuel(total_room, 2);
        assert(first.taken + Entries::empty() == first.taken);
        if call.room < offered.len() {
            assert(first.taken =~= all.subrange(before, before + call.room));
        }
    } else {
        assert(calls.drop_last().skip(1) == further.drop_last());
        assert(calls.drop_last()[0] == call);
        assert(call.room < offered.len());
        let now = before + call.room;
        assert(first.taken =~= all.subrange(before, now));
        let next = next_marker(marker, first.taken);
        if call.room > 0 {
            assert(first.taken.last() == all[now - 1]);
            lemma_decode_encode(all[now - 1].name);
        }
        lemma_further_calls(file, listing, now, next, further);
        if now + total_room(further) >= all.len() {
            assert(first.taken + all.skip(now) == all.skip(before));
        } else {
            assert(first.taken + all.subrange(now, now + total_room(further)) == all.subrange(
                before,
                now + total_room(further),
            ));
        }
    }
}

/// Windows lists a directory whole: over calls that each take up from the last name that was
/// taken, it takes the entries whose names fit, in ascending order and each once, and nothing
/// is kept once all are taken. The entries are those that the store gave for the first call,
/// whatever becomes of the directory between the calls. If there is more than one call, the
/// first has to take an entry, as Windows comes back without a marker otherwise, and the calls
/// end once all are taken.
pub proof fn lemma_directory_is_listed_whole(
    file: OpenFile,
    kept: Option<Entries>,
    entries: Entries,
    calls: Seq<ListingCall>,
)
    requires
        file.is_dir,
        distinct(entries),
        calls.len() > 0,
        (calls[0].store)(Request::ReadDirPlus { ino: file.ino })->Listing_0 matches Ok(items)
            && collected(items) == Some(Ok::<Entries, NTSTATUS>(entries)),
        calls.len() == 1 || (calls[0].room > 0 && total_room(calls.drop_last()) < pending(
            sorted(entries),
            None,
        ).len()),
    ensures
        ({
            let all = pending(sorted(entries), None);
            let outcome = listing_run(file, kept, None, calls);
            &&& outcome.succeeded
            &&& total_room(calls) >= all.len() ==> outcome.kept is None && outcome.taken == all
            &&& total_room(calls) < all.len() ==> outcome.kept == Some(sorted(entries))
                && outcome.taken == all.take(total_room(calls) as int)
            &&& forall|i: int, j: int|
                0 <= i < j < outcome.taken.len() ==> {
                    &&& text_le(
                        (#[trigger] outcome.taken[i]).name,
                        (#[trigger] outcome.taken[j]).name,
                    )
                    &&& outcome.taken[i].name != outcome.taken[j].name
                }
            &&& total_room(calls) >= all.len() ==> forall|entry: DirEntry<Seq<char>>| #[trigger]
                outcome.taken.contains(entry) <==> entries.contains(entry) && text_units(
                    entry.name,
                ).len() < NAME_UNITS
        }),
{
    let listing = sorted(entries);
    let all = pending(listing, None);
    let call = calls[0];
    let further = calls.skip(1);
    lemma_sorted(entries);
    lemma_sorted_is_distinct(entries);
    lemma_pending_is_distinct(listing, None);
    lemma_pending(listing, None);
    reveal_with_fuel(listing_call, 4);
    lemma_offering_call(all, Some(listing), Seq::empty(), call);
    let first = listing_call(read_directory_plan(file, None), kept, Seq::empty(), call);
    assert(first == listing_call(offering(all), Some(listing), Seq::empty(), call));
    assert(Entries::empty() + all == all);
    if further.len() == 0 {
        reveal_with_fuel(listing_run, 2);
        reveal_with_fuel(total_room, 2);
        assert(first.taken + Entries::empty() == first.taken);
        if call.room < all.len() {
            assert(first.taken =~= all.take(call.room as int));
        }
    } else {
        assert(calls.drop_last().skip(1) == further.drop_last());
        assert(calls.drop_last()[0] == call);
        assert(call.room < all.len());
        let now = call.room as int;
        assert(first.taken =~= all.take(now));
        assert(first.taken.last() == all[now - 1]);
        lemma_decode_encode(all[now - 1].name);
        lemma_further_calls(file, listing, now, next_marker(None, first.taken), further);
        if now + total_room(further) >= all.len() {
            assert(first.taken + all.skip(now) == all);
        } else {
            assert(first.taken + all.subrange(now, now + total_room(further)) == all.take(
                now + total_room(further),
            ));
        }
    }
    let outcome = listing_run(file, kept, None, calls);
    assert forall|i: int, j: int| 0 <= i < j < outcome.taken.len() implies text_le(
        (#[trigger] outcome.taken[i]).name,
        (#[trigger] outcome.taken[j]).name,
    ) && outcome.taken[i].name != outcome.taken[j].name by {
        assert(outcome.taken[i] == all[i] && outcome.taken[j] == all[j]);
    }
    if total_room(calls) >= all.len() {
        assert forall|entry: DirEntry<Seq<char>>| #[trigger]
            outcome.taken.contains(entry) <==> entries.contains(entry) && text_units(
                entry.name,
            ).len() < NAME_UNITS by {
            lemma_sorted_keeps(entries, entry);
        }
    }
}

/// Windows gets every item of the directory whose name fits, files and directories alike:
/// exactly one entry has its name, and that entry has its file information. Nothing else is
/// listed.
pub proof fn lemma_every_item_is_listed(
    file: OpenFile,
    kept: Option<Entries>,
    items: Seq<Result<(Seq<char>, FileAttr), FsError>>,
    calls: Seq<ListingCall>,
)
    requires
        file.is_dir,
        forall|i: int| 0 <= i < items.len() ==> is_listable(#[trigger] items[i]),
        forall|i: int, j: int|
            0 <= i < j < items.len() ==> (#[trigger] items[i])->Ok_0.0 != (
            #[trigger] items[j])->Ok_0.0,
        calls.len() > 0,
        (calls[0].store)(Request::ReadDirPlus { ino: file.ino })->Listing_0 == Ok::<
            Seq<Result<(Seq<char>, FileAttr), FsError>>,
            FsError,
        >(items),
        calls.len() == 1 || (calls[0].room > 0 && total_room(calls.drop_last()) < pending(
            sorted(collected(items)->0->Ok_0),
            None,
        ).len()),
        total_room(calls) >= items.len(),
    ensures
        ({
            let taken = listing_run(file, kept, None, calls).taken;
            &&& forall|i: int|
                0 <= i < items.len() && text_units((#[trigger] items[i])->Ok_0.0).len() < 255
                    ==> {
                    &&& exists|j: int|
                        0 <= j < taken.len() && (#[trigger] taken[j]).name == items[i]->Ok_0.0
                            && taken[j].info == items[i]->Ok_0.1.info()
                    &&& forall|j: int, k: int|
                        0 <= j < taken.len() && 0 <= k < taken.len() && (
                        #[trigger] taken[j]).name == items[i]->Ok_0.0 && (
                        #[trigger] taken[k]).name == items[i]->Ok_0.0 ==> j == k
                }
            &&& forall|j: int|
                0 <= j < taken.len() ==> exists|i: int|
                    0 <= i < items.len() && (#[trigger] items[i])->Ok_0.0 == (
                    #[trigger] taken[j]).name && text_units(taken[j].name).len() < 255
        }),
{
    lemma_every_item_is_collected(items);
    let entries = collected(items)->0->Ok_0;
    assert(distinct(entries)) by {
        assert forall|i: int, j: int| 0 <= i < j < entries.len() implies (
        #[trigger] entries[i]).name != (#[trigger] entries[j]).name by {
            assert(items[i]->Ok_0.0 != items[j]->Ok_0.0);
        }
    }
    lemma_sorted(entries);
    sorted(entries).lemma_filter_len(is_pending(None));
    lemma_directory_is_listed_whole(file, kept, entries, calls);
    let taken = listing_run(file, kept, None, calls).taken;
    assert forall|i: int|
        0 <= i < items.len() && text_units((#[trigger] items[i])->Ok_0.0).len() < 255 implies {
        &&& exists|j: int|
            0 <= j < taken.len() && (#[trigger] taken[j]).name == items[i]->Ok_0.0
                && taken[j].info == items[i]->Ok_0.1.info()
        &&& forall|j: int, k: int|
            0 <= j < taken.len() && 0 <= k < taken.len() && (#[trigger] taken[j]).name
                == items[i]->Ok_0.0 && (#[trigger] taken[k]).name == items[i]->Ok_0.0 ==> j == k
    } by {
        assert(entries[i].name == items[i]->Ok_0.0);
        assert(entries.contains(entries[i]));
        assert(taken.contains(entries[i]));
        let at = choose|at: int| 0 <= at < taken.len() && taken[at] == entries[i];
        assert(taken[at].name == items[i]->Ok_0.0);
        assert forall|j: int, k: int|
            0 <= j < taken.len() && 0 <= k < taken.len() && (#[trigger] taken[j]).name
                == items[i]->Ok_0.0 && (#[trigger] taken[k]).name == items[i]->Ok_0.0 implies j
            == k by {
            if j < k {
                assert(taken[j].name != taken[k].name);
            } else if k < j {
                assert(taken[k].name != taken[j].name);
            }
        }
    }
    assert forall|j: int| 0 <= j < taken.len() implies exists|i: int|
        0 <= i < items.len() && (#[trigger] items[i])->Ok_0.0 == (#[trigger] taken[j]).name
            && text_units(taken[j].name).len() < 255 by {
        assert(taken.contains(taken[j]));
        assert(entries.contains(taken[j]));
        let i = choose|i: int| 0 <= i < entries.len() && entries[i] == taken[j];
        assert(items[i]->Ok_0.0 == taken[j].name);
    }
}

} // verus!
