//! Listing an open directory. Windows asks for a listing piece by piece: it takes entries
//! until its buffer is full and comes back with the name of the last one, the marker. The
//! open directory keeps the listing meanwhile, so that the pieces belong together.

use crate::attr::{checked_file_info, FileAttr};
use crate::context::{OpenFile, UnitPlan};
use crate::order::{
    distinct, has_name, lemma_text_le_total, lemma_text_le_transitive, named, not_after, ordered,
    sort_entries, sorted, text_le, Entries,
};
use crate::plan::Plan;
use crate::protocol::{
    follows, listed, shown, Answer, Asked, DirEntry, Operation, Reply, Request, Step, StoreReply,
};
use crate::status::{
    error_status, fs_error_to_status, FsError, NTSTATUS, STATUS_INVALID_HANDLE,
    STATUS_NOT_A_DIRECTORY,
};
use crate::utf16::{fits_directory_record, text_units, NAME_UNITS};
use std::collections::VecDeque;
use vstd::pervasive::unreached;
use vstd::prelude::*;

verus! {

/// What the reading of a directory comes to: the entries, the status code of the first item
/// that could not be read, or nothing where an item before that cannot be reported.
pub open spec fn collected(items: Seq<Result<(Seq<char>, FileAttr), FsError>>) -> Option<
    Result<Entries, NTSTATUS>,
>
    decreases items.len(),
{
    if items.len() == 0 {
        Some(Ok(Seq::empty()))
    } else {
        match collected(items.drop_last()) {
            Some(Ok(entries)) => match items.last() {
                Ok((name, attr)) => if attr.reportable() {
                    Some(Ok(entries.push(DirEntry { name, info: attr.info() })))
                } else {
                    None
                },
                Err(error) => Some(Err(error_status(error))),
            },
            stopped => stopped,
        }
    }
}

/// The entries, their names as texts, or the status code of a failure.
pub open spec fn shown_result(result: Result<Vec<DirEntry<String>>, NTSTATUS>) -> Result<
    Entries,
    NTSTATUS,
> {
    match result {
        Ok(entries) => Ok(shown(entries@)),
        Err(status) => Err(status),
    }
}

proof fn lemma_collected_stops(items: Seq<Result<(Seq<char>, FileAttr), FsError>>, count: int)
    requires
        0 <= count <= items.len(),
        !(collected(items.take(count)) matches Some(Ok(_))),
    ensures
        collected(items) == collected(items.take(count)),
    decreases items.len(),
{
    if count < items.len() {
        assert(items.drop_last().take(count) == items.take(count));
        lemma_collected_stops(items.drop_last(), count);
    } else {
        assert(items.take(count) == items);
    }
}

/// Whether an item of a directory could be read and can be reported.
pub open spec fn is_listable(item: Result<(Seq<char>, FileAttr), FsError>) -> bool {
    item matches Ok((_, attr)) && attr.reportable()
}

/// Every item that could be read becomes an entry, file or directory, in its place: with its
/// name, and with what Windows is told of its attributes.
pub proof fn lemma_every_item_is_collected(items: Seq<Result<(Seq<char>, FileAttr), FsError>>)
    requires
        forall|i: int| 0 <= i < items.len() ==> is_listable(#[trigger] items[i]),
    ensures
        collected(items) matches Some(Ok(entries)) && {
            &&& entries.len() == items.len()
            &&& forall|i: int|
                0 <= i < items.len() ==> {
                    &&& (#[trigger] entries[i]).name == items[i]->Ok_0.0
                    &&& entries[i].info == items[i]->Ok_0.1.info()
                }
        },
    decreases items.len(),
{
    if items.len() > 0 {
        let before = items.drop_last();
        assert forall|i: int| 0 <= i < before.len() implies is_listable(#[trigger] before[i]) by {
            assert(before[i] == items[i]);
        }
        lemma_every_item_is_collected(before);
        assert(is_listable(items[items.len() - 1]));
    }
}

/// The first item that could not be read is what the reading of the directory fails with, and
/// one that cannot be reported ends it likewise.
pub proof fn lemma_first_failure_decides(
    items: Seq<Result<(Seq<char>, FileAttr), FsError>>,
    at: int,
)
    requires
        0 <= at < items.len(),
        forall|i: int| 0 <= i < at ==> is_listable(#[trigger] items[i]),
        !is_listable(items[at]),
    ensures
        collected(items) == match items[at] {
            Ok(_) => None,
            Err(error) => Some(Err::<Entries, NTSTATUS>(error_status(error))),
        },
{
    let before = items.take(at);
    assert forall|i: int| 0 <= i < before.len() implies is_listable(#[trigger] before[i]) by {
        assert(before[i] == items[i]);
    }
    lemma_every_item_is_collected(before);
    assert(items.take(at + 1).drop_last() == before);
    lemma_collected_stops(items, at + 1);
}

/// Collects what the reading of a directory gave.
pub fn collect_entries(items: Vec<Result<(String, FileAttr), FsError>>) -> (result: Option<
    Result<Vec<DirEntry<String>>, NTSTATUS>,
>)
    ensures
        match result {
            Some(result) => collected(listed(items@)) == Some(shown_result(result)),
            None => collected(listed(items@)) is None,
        },
{
    let ghost all = listed(items@);
    let mut entries: Vec<DirEntry<String>> = Vec::new();
    assert(shown(entries@) == Entries::empty());
    for item in iter: items
        invariant
            iter.seq() == items@,
            all == listed(items@),
            collected(all.take(iter.index() as int)) == Some(
                Ok::<Entries, NTSTATUS>(shown(entries@)),
            ),
    {
        let ghost index = iter.index() as int;
        let ghost before = entries@;
        proof {
            assert(all.take(index + 1).drop_last() == all.take(index));
        }
        match item {
            Ok((name, attr)) => match checked_file_info(attr) {
                Some(info) => {
                    let entry = DirEntry { name, info };
                    entries.push(entry);
                    assert(shown(entries@) == shown(before).push(entry@));
                },
                None => {
                    proof {
                        lemma_collected_stops(all, index + 1);
                    }
                    return None;
                },
            },
            Err(error) => {
                proof {
                    lemma_collected_stops(all, index + 1);
                }
                return Some(Err(fs_error_to_status(error)));
            },
        }
    }
    assert(all.take(items@.len() as int) == all);
    Some(Ok(entries))
}

/// Which entries are offered: those behind the marker whose names fit into the record of an
/// entry.
pub open spec fn is_pending(marker: Option<Seq<char>>) -> spec_fn(DirEntry<Seq<char>>) -> bool {
    |entry: DirEntry<Seq<char>>|
        {
            &&& marker matches Some(last) ==> !text_le(entry.name, last)
            &&& text_units(entry.name).len() < NAME_UNITS
        }
}

/// The entries that are still to be offered.
pub open spec fn pending(entries: Entries, marker: Option<Seq<char>>) -> Entries {
    entries.filter(is_pending(marker))
}

/// The text of a marker, if there is one.
pub open spec fn marker_text(marker: Option<String>) -> Option<Seq<char>> {
    match marker {
        Some(last) => Some(last@),
        None => None,
    }
}

/// Picks the entries that are still to be offered.
pub fn pending_entries(entries: Vec<DirEntry<String>>, marker: &Option<String>) -> (queue:
    VecDeque<DirEntry<String>>)
    ensures
        shown(queue@) == pending(shown(entries@), marker_text(*marker)),
{
    let ghost all = shown(entries@);
    let ghost picked = is_pending(marker_text(*marker));
    let mut queue: VecDeque<DirEntry<String>> = VecDeque::new();
    proof {
        reveal(Seq::filter);
        assert(shown(queue@) == all.take(0).filter(picked));
    }
    for entry in iter: entries
        invariant
            iter.seq() == entries@,
            all == shown(entries@),
            picked == is_pending(marker_text(*marker)),
            shown(queue@) == all.take(iter.index() as int).filter(picked),
    {
        let ghost index = iter.index() as int;
        let ghost before = queue@;
        proof {
            reveal(Seq::filter);
            assert(all.take(index + 1).drop_last() == all.take(index));
            assert(all.take(index + 1).last() == entry@);
        }
        let offered = match marker {
            Some(last) => !not_after(entry.name.as_str(), last.as_str()),
            None => true,
        };
        if offered && fits_directory_record(entry.name.as_str()) {
            queue.push_back(entry);
            assert(shown(queue@) == shown(before).push(entry@));
        }
    }
    assert(all.take(entries@.len() as int) == all);
    queue
}

/// Copies entries.
fn copy_entries(entries: &Vec<DirEntry<String>>) -> (copy: Vec<DirEntry<String>>)
    ensures
        shown(copy@) == shown(entries@),
{
    let mut copy: Vec<DirEntry<String>> = Vec::new();
    for index in 0..entries.len()
        invariant
            copy.len() == index,
            index <= entries.len(),
            forall|i: int| 0 <= i < index ==> (#[trigger] copy[i])@ == entries[i]@,
    {
        let entry = DirEntry { name: entries[index].name.clone(), info: entries[index].info };
        copy.push(entry);
    }
    assert(shown(copy@) == shown(entries@));
    copy
}

/// Listing an open directory from a marker on. The listing that is kept serves all requests
/// that have a marker; without one, or where none is kept, it is made anew.
pub open spec fn read_directory_plan(file: OpenFile, marker: Option<Seq<char>>) -> UnitPlan {
    if file.is_dir {
        recalling(file.ino, marker)
    } else {
        Plan::Done(Err(STATUS_NOT_A_DIRECTORY))
    }
}

pub open spec fn recalling(ino: u64, marker: Option<Seq<char>>) -> UnitPlan {
    Plan::Ask(
        Request::CachedEntries,
        |reply: Answer|
            match reply->Cached_0 {
                Some(Some(entries)) => if marker is Some {
                    offering(pending(entries, marker))
                } else {
                    listing(ino, marker)
                },
                Some(None) => listing(ino, marker),
                None => Plan::Done(Err(STATUS_INVALID_HANDLE)),
            },
    )
}

pub open spec fn listing(ino: u64, marker: Option<Seq<char>>) -> UnitPlan {
    Plan::Ask(
        Request::ReadDirPlus { ino },
        |reply: Answer|
            match reply->Listing_0 {
                Ok(items) => match collected(items) {
                    Some(Ok(entries)) => keeping(sorted(entries), marker),
                    Some(Err(status)) => Plan::Done(Err(status)),
                    None => Plan::Overflow,
                },
                Err(error) => Plan::Done(Err(error_status(error))),
            },
    )
}

pub open spec fn keeping(entries: Entries, marker: Option<Seq<char>>) -> UnitPlan {
    Plan::Ask(
        Request::StoreEntries { entries },
        |reply: Answer| offering(pending(entries, marker)),
    )
}

/// Offering entries one by one, as long as Windows takes them. Once it has taken all, the
/// listing is over and no longer kept.
pub open spec fn offering(entries: Entries) -> UnitPlan
    decreases entries.len(), 1int,
{
    if entries.len() == 0 {
        clearing()
    } else {
        offering_first(entries[0], entries.skip(1))
    }
}

pub open spec fn offering_first(entry: DirEntry<Seq<char>>, rest: Entries) -> UnitPlan
    decreases rest.len() + 1, 0int,
{
    Plan::Ask(
        Request::Offer { entry },
        |reply: Answer|
            if reply->Accepted_0 {
                offering(rest)
            } else {
                Plan::Done(Ok(()))
            },
    )
}

pub open spec fn clearing() -> UnitPlan {
    Plan::Ask(
        Request::ClearEntries,
        |reply: Answer|
            Plan::Done(
                if reply->Stored_0 {
                    Ok(())
                } else {
                    Err(STATUS_INVALID_HANDLE)
                },
            ),
    )
}

/// The listing of an open directory, under way.
pub enum ReadDirectory {
    Recalling { ino: u64, marker: Option<String> },
    Listing { ino: u64, marker: Option<String> },
    Keeping { entries: Vec<DirEntry<String>>, marker: Option<String> },
    Offering { asked: Ghost<DirEntry<Seq<char>>>, rest: VecDeque<DirEntry<String>> },
    Clearing,
}

impl ReadDirectory {
    /// Begins to list an open directory.
    pub fn start(file: OpenFile, marker: Option<String>) -> (step: Step<
        ReadDirectory,
        Result<(), NTSTATUS>,
    >)
        ensures
            follows(step, read_directory_plan(file, marker_text(marker))),
    {
        if !file.is_dir {
            return Step::Done(Err(STATUS_NOT_A_DIRECTORY));
        }
        Step::Ask {
            request: Request::CachedEntries,
            next: ReadDirectory::Recalling { ino: file.ino, marker },
        }
    }
}

impl Operation for ReadDirectory {
    type Output = Result<(), NTSTATUS>;

    type Outcome = Result<(), NTSTATUS>;

    open spec fn outcome(output: Self::Output) -> Self::Outcome {
        output
    }

    open spec fn plan(&self) -> UnitPlan {
        match *self {
            ReadDirectory::Recalling { ino, marker } => recalling(ino, marker_text(marker)),
            ReadDirectory::Listing { ino, marker } => listing(ino, marker_text(marker)),
            ReadDirectory::Keeping { entries, marker } => keeping(
                shown(entries@),
                marker_text(marker),
            ),
            ReadDirectory::Offering { asked, rest } => offering_first(asked@, shown(rest@)),
            ReadDirectory::Clearing => clearing(),
        }
    }

    fn resume(self, reply: StoreReply) -> (step: Step<Self, Self::Output>) {
        let mut queue = match (self, reply) {
            (
                ReadDirectory::Recalling { ino, marker },
                Reply::Cached(Some(cached)),
            ) => match (cached, marker) {
                (Some(entries), Some(last)) => pending_entries(entries, &Some(last)),
                (_, marker) => {
                    return Step::Ask {
                        request: Request::ReadDirPlus { ino },
                        next: ReadDirectory::Listing { ino, marker },
                    };
                },
            },
            (ReadDirectory::Recalling { .. }, Reply::Cached(None)) => {
                return Step::Done(Err(STATUS_INVALID_HANDLE));
            },
            (
                ReadDirectory::Listing { marker, .. },
                Reply::Listing(Ok(items)),
            ) => match collect_entries(items) {
                Some(Ok(entries)) => {
                    let entries = sort_entries(entries);
                    return Step::Ask {
                        request: Request::StoreEntries { entries: copy_entries(&entries) },
                        next: ReadDirectory::Keeping { entries, marker },
                    };
                },
                Some(Err(status)) => return Step::Done(Err(status)),
                None => return Step::Overflow,
            },
            (ReadDirectory::Listing { .. }, Reply::Listing(Err(error))) => {
                return Step::Done(Err(fs_error_to_status(error)));
            },
            (ReadDirectory::Keeping { entries, marker }, Reply::Kept) => pending_entries(
                entries,
                &marker,
            ),
            (ReadDirectory::Offering { rest, .. }, Reply::Accepted(accepted)) => {
                if !accepted {
                    return Step::Done(Ok(()));
                }
                rest
            },
            (ReadDirectory::Clearing, Reply::Stored(stored)) => {
                return Step::Done(
                    if stored {
                        Ok(())
                    } else {
                        Err(STATUS_INVALID_HANDLE)
                    },
                );
            },
            _ => unreached(),
        };
        let ghost all = shown(queue@);
        match queue.pop_front() {
            Some(entry) => {
                let asked: Ghost<DirEntry<Seq<char>>> = Ghost(entry@);
                assert(shown(queue@) == all.skip(1));
                Step::Ask {
                    request: Request::Offer { entry },
                    next: ReadDirectory::Offering { asked, rest: queue },
                }
            },
            None => Step::Ask { request: Request::ClearEntries, next: ReadDirectory::Clearing },
        }
    }
}

proof fn lemma_filter_none<A>(items: Seq<A>, pred: spec_fn(A) -> bool)
    requires
        forall|i: int| 0 <= i < items.len() ==> !pred(#[trigger] items[i]),
    ensures
        items.filter(pred) == Seq::<A>::empty(),
    decreases items.len(),
{
    reveal(Seq::filter);
    if items.len() > 0 {
        assert(!pred(items[items.len() - 1]));
        lemma_filter_none(items.drop_last(), pred);
    }
}

proof fn lemma_filter_all<A>(items: Seq<A>, pred: spec_fn(A) -> bool)
    requires
        forall|i: int| 0 <= i < items.len() ==> pred(#[trigger] items[i]),
    ensures
        items.filter(pred) == items,
    decreases items.len(),
{
    reveal(Seq::filter);
    if items.len() > 0 {
        assert(pred(items[items.len() - 1]));
        lemma_filter_all(items.drop_last(), pred);
        assert(items == items.drop_last().push(items.last()));
    }
}

proof fn lemma_filter_twice<A>(
    items: Seq<A>,
    first: spec_fn(A) -> bool,
    second: spec_fn(A) -> bool,
    both: spec_fn(A) -> bool,
)
    requires
        forall|item: A| #[trigger] both(item) <==> first(item) && second(item),
    ensures
        items.filter(first).filter(second) == items.filter(both),
    decreases items.len(),
{
    reveal(Seq::filter);
    if items.len() > 0 {
        let kept = items.drop_last().filter(first);
        lemma_filter_twice(items.drop_last(), first, second, both);
        assert(both(items.last()) <==> first(items.last()) && second(items.last()));
        assert(kept.push(items.last()).drop_last() == kept);
    }
}

/// What is pending of an ordered listing is ordered.
proof fn lemma_pending_is_ordered(entries: Entries, marker: Option<Seq<char>>)
    requires
        ordered(entries),
    ensures
        ordered(pending(entries, marker)),
    decreases entries.len(),
{
    reveal(Seq::filter);
    if entries.len() > 0 {
        let before = entries.drop_last();
        let kept = pending(before, marker);
        lemma_pending_is_ordered(before, marker);
        lemma_text_le_total(entries.last().name, entries.last().name);
        assert forall|i: int| 0 <= i < kept.len() implies text_le(
            (#[trigger] kept[i]).name,
            entries.last().name,
        ) by {
            assert(kept.contains(kept[i]));
            before.lemma_filter_contains_rev(is_pending(marker), kept[i]);
            let at = choose|at: int| 0 <= at < before.len() && before[at] == kept[i];
            assert(text_le(entries[at].name, entries[entries.len() - 1].name));
        }
    }
}

/// What is pending are the entries behind the marker whose names fit, all of them and no
/// others, in the order of the listing.
pub proof fn lemma_pending(entries: Entries, marker: Option<Seq<char>>)
    requires
        ordered(entries),
    ensures
        ordered(pending(entries, marker)),
        forall|entry: DirEntry<Seq<char>>| #[trigger]
            pending(entries, marker).contains(entry) <==> {
                &&& entries.contains(entry)
                &&& marker matches Some(last) ==> !text_le(entry.name, last)
                &&& text_units(entry.name).len() < NAME_UNITS
            },
{
    lemma_pending_is_ordered(entries, marker);
    let kept = pending(entries, marker);
    assert forall|entry: DirEntry<Seq<char>>| #[trigger] kept.contains(entry) <==> {
        &&& entries.contains(entry)
        &&& marker matches Some(last) ==> !text_le(entry.name, last)
        &&& text_units(entry.name).len() < NAME_UNITS
    } by {
        if kept.contains(entry) {
            let at = choose|at: int| 0 <= at < kept.len() && kept[at] == entry;
            entries.lemma_filter_pred(is_pending(marker), at);
            entries.lemma_filter_contains_rev(is_pending(marker), entry);
        }
        if entries.contains(entry) && is_pending(marker)(entry) {
            let at = choose|at: int| 0 <= at < entries.len() && entries[at] == entry;
            entries.lemma_filter_contains(is_pending(marker), at);
        }
    }
}

/// What is pending of a listing with distinct names has distinct names.
pub proof fn lemma_pending_is_distinct(entries: Entries, marker: Option<Seq<char>>)
    requires
        distinct(entries),
    ensures
        distinct(pending(entries, marker)),
    decreases entries.len(),
{
    reveal(Seq::filter);
    if entries.len() > 0 {
        let before = entries.drop_last();
        let kept = pending(before, marker);
        lemma_pending_is_distinct(before, marker);
        assert forall|i: int| 0 <= i < kept.len() implies (#[trigger] kept[i]).name
            != entries.last().name by {
            assert(kept.contains(kept[i]));
            before.lemma_filter_contains_rev(is_pending(marker), kept[i]);
            let at = choose|at: int| 0 <= at < before.len() && before[at] == kept[i];
            assert(entries[at].name != entries[entries.len() - 1].name);
        }
    }
}

/// Of every name that fits and comes behind the marker all entries are pending, as they come,
/// and of every other name none is.
pub proof fn lemma_pending_of_a_name(entries: Entries, marker: Option<Seq<char>>, name: Seq<char>)
    ensures
        named(pending(entries, marker), name) == if text_units(name).len() < 255 && (
        marker matches Some(last) ==> !text_le(name, last)) {
            named(entries, name)
        } else {
            Seq::empty()
        },
{
    let both = |entry: DirEntry<Seq<char>>| is_pending(marker)(entry) && has_name(name)(entry);
    lemma_filter_twice(entries, is_pending(marker), has_name(name), both);
    if text_units(name).len() < 255 && (marker matches Some(last) ==> !text_le(name, last)) {
        lemma_filter_twice(entries, has_name(name), is_pending(marker), both);
        let found = named(entries, name);
        assert forall|i: int| 0 <= i < found.len() implies is_pending(marker)(
            #[trigger] found[i],
        ) by {
            entries.lemma_filter_pred(has_name(name), i);
        }
        lemma_filter_all(found, is_pending(marker));
    } else {
        assert forall|i: int| 0 <= i < entries.len() implies !both(#[trigger] entries[i]) by {}
        lemma_filter_none(entries, both);
    }
}

/// The pieces of a listing join: once Windows has taken some entries and comes back with the
/// name of the last one, exactly the entries behind it are pending. The next entry has to
/// have another name.
pub proof fn lemma_pieces_join(entries: Entries, taken: int)
    requires
        ordered(entries),
        0 < taken <= pending(entries, None).len(),
        taken < pending(entries, None).len() ==> pending(entries, None)[taken - 1].name != pending(
            entries,
            None,
        )[taken].name,
    ensures
        pending(entries, Some(pending(entries, None)[taken - 1].name)) == pending(
            entries,
            None,
        ).skip(taken),
{
    let all = pending(entries, None);
    let last = all[taken - 1].name;
    let behind = |entry: DirEntry<Seq<char>>| !text_le(entry.name, last);
    lemma_pending_is_ordered(entries, None);
    lemma_filter_twice(entries, is_pending(None), behind, is_pending(Some(last)));
    let head = all.take(taken);
    let tail = all.skip(taken);
    assert(all == head + tail);
    Seq::filter_distributes_over_add(head, tail, behind);
    assert forall|i: int| 0 <= i < head.len() implies !behind(#[trigger] head[i]) by {
        assert(text_le(all[i].name, all[taken - 1].name));
    }
    lemma_filter_none(head, behind);
    assert forall|i: int| 0 <= i < tail.len() implies behind(#[trigger] tail[i]) by {
        if text_le(tail[i].name, last) {
            assert(text_le(all[taken].name, all[taken + i].name));
            assert(text_le(all[taken - 1].name, all[taken].name));
            lemma_text_le_transitive(all[taken].name, tail[i].name, last);
            lemma_text_le_total(all[taken].name, last);
        }
    }
    lemma_filter_all(tail, behind);
    assert(head.filter(behind) + tail.filter(behind) == tail);
}

/// The offers of entries.
pub open spec fn offers(entries: Entries) -> Seq<Asked> {
    entries.map_values(|entry: DirEntry<Seq<char>>| Request::Offer { entry })
}

/// As long as Windows takes entries, each is offered once and in order, and the listing is
/// forgotten once all are taken.
pub proof fn lemma_all_are_offered(entries: Entries, world: spec_fn(Asked) -> Answer)
    requires
        forall|i: int|
            0 <= i < entries.len() ==> world(
                Request::Offer { entry: #[trigger] entries[i] },
            )->Accepted_0,
    ensures
        offering(entries).trace(world) == offers(entries).push(Request::ClearEntries),
        offering(entries).run(world) == Some(
            if world(Request::ClearEntries)->Stored_0 {
                Ok::<(), NTSTATUS>(())
            } else {
                Err(STATUS_INVALID_HANDLE)
            },
        ),
    decreases entries.len(),
{
    reveal_with_fuel(Plan::run, 3);
    reveal_with_fuel(Plan::trace, 3);
    reveal_with_fuel(offering, 2);
    reveal_with_fuel(offering_first, 2);
    if entries.len() > 0 {
        let rest = entries.skip(1);
        assert forall|i: int| 0 <= i < rest.len() implies world(
            Request::Offer { entry: #[trigger] rest[i] },
        )->Accepted_0 by {
            assert(rest[i] == entries[i + 1]);
        }
        lemma_all_are_offered(rest, world);
        assert(offers(entries) == seq![Request::Offer { entry: entries[0] }] + offers(rest));
        assert(world(Request::Offer { entry: entries[0] })->Accepted_0);
        assert(offering(entries).trace(world) =~= offers(entries).push(Request::ClearEntries));
    } else {
        assert(offering(entries).trace(world) =~= offers(entries).push(Request::ClearEntries));
    }
}

/// Once Windows refuses an entry, no more are offered and the listing stays.
pub proof fn lemma_offers_end_with_a_refusal(
    entries: Entries,
    taken: int,
    world: spec_fn(Asked) -> Answer,
)
    requires
        0 <= taken < entries.len(),
        forall|i: int|
            0 <= i < taken ==> world(Request::Offer { entry: #[trigger] entries[i] })->Accepted_0,
        !(world(Request::Offer { entry: entries[taken] })->Accepted_0),
    ensures
        offering(entries).trace(world) == offers(entries.take(taken + 1)),
        offering(entries).run(world) == Some(Ok::<(), NTSTATUS>(())),
    decreases taken,
{
    reveal_with_fuel(Plan::run, 3);
    reveal_with_fuel(Plan::trace, 3);
    reveal_with_fuel(offering, 2);
    reveal_with_fuel(offering_first, 2);
    let offered = entries.take(taken + 1);
    assert(offers(offered) == seq![Request::Offer { entry: entries[0] }] + offers(offered.skip(1)));
    if taken > 0 {
        let rest = entries.skip(1);
        assert forall|i: int| 0 <= i < taken - 1 implies world(
            Request::Offer { entry: #[trigger] rest[i] },
        )->Accepted_0 by {
            assert(rest[i] == entries[i + 1]);
        }
        lemma_offers_end_with_a_refusal(rest, taken - 1, world);
        assert(rest.take(taken) == offered.skip(1));
        assert(world(Request::Offer { entry: entries[0] })->Accepted_0);
    } else {
        assert(offered.skip(1) == Entries::empty());
    }
    assert(offering(entries).trace(world) =~= offers(offered));
}

/// A marker is its text, and what was collected is its entries, or its failure.
pub proof fn lemma_markers_and_results_are_seen_as_they_are(
    marker: String,
    entries: Vec<DirEntry<String>>,
    status: NTSTATUS,
)
    ensures
        marker_text(Some(marker)) == Some(marker@),
        marker_text(None) == None::<Seq<char>>,
        shown_result(Ok(entries)) == Ok::<Entries, NTSTATUS>(shown(entries@)),
        shown_result(Err(status)) == Err::<Entries, NTSTATUS>(status),
{
}

} // verus!
