//! The protocol between the index file and the cache, stated over a model
//! of the disk.
//!
//! The manager hands out actions; here they are performed on a [`Disk`] that
//! fails only where its state forces it to: a directory that is not there
//! cannot be removed, an index file that is missing or malformed cannot be
//! loaded. A [`World`] is such a disk together with the cache, and its
//! operations are the manager's, run to their end. What the theorems below
//! say therefore holds of the manager wherever each action is performed as
//! [`respond`] describes; a real disk may fail more often, and every such
//! failure ends the operation at that action.

use crate::error::{Error, Failure};
use crate::ident::{canonical_text, lemma_canonical_text_injective};
use crate::layout::{image_name, ImageView};
use crate::manager::{
    advance, begin_create, begin_delete, info_found, loaded, ActionView, EventView, PendingView,
    StepView,
};
use crate::model::{
    distinct_ids, lemma_first_iff_listed, lemma_push_distinct, lemma_push_first,
    lemma_push_lists, lemma_without_lists, lemma_without_unlisted, lists, without, Entry,
};
use crate::state::refreshed;
use std::path::PathBuf;
use vstd::prelude::*;

verus! {

/// What stands where the index file should be.
pub enum IndexFile {
    /// No file.
    Missing,
    /// A file that does not decode to an index.
    Malformed,
    /// A file that decodes to these entries.
    Holds(Seq<Entry>),
}

/// The base directory as the manager's actions see it.
pub struct Disk {
    /// The names of the directories directly under the base directory.
    pub dirs: Set<Seq<char>>,
    /// The index file.
    pub index: IndexFile,
    /// The files inside those directories, by directory name and file name,
    /// each with the path that it was copied from.
    pub files: Map<(Seq<char>, Seq<char>), PathBuf>,
}

/// Performs one action on the disk and reports how it went.
///
/// Creating a directory succeeds, also where it exists. Removing one takes
/// its files with it and fails where it does not exist. A load reports a
/// missing file as a failed read and a malformed one as a failed decoding.
/// A store overwrites the index file, and the next load brings the entries
/// that were stored: the encoding is taken to lose nothing. A copy needs
/// the directory it copies into; its source is taken to be readable. A
/// failed action leaves the disk as it was.
pub open spec fn respond(disk: Disk, action: ActionView) -> (Disk, EventView) {
    match action {
        ActionView::CreateDir { dir_name } => (
            Disk { dirs: disk.dirs.insert(dir_name), ..disk },
            EventView::Done,
        ),
        ActionView::RemoveDir { dir_name } => if disk.dirs.contains(dir_name) {
            (
                Disk {
                    dirs: disk.dirs.remove(dir_name),
                    files: disk.files.restrict(
                        Set::new(|file: (Seq<char>, Seq<char>)| file.0 != dir_name),
                    ),
                    ..disk
                },
                EventView::Done,
            )
        } else {
            (disk, EventView::Failed(Failure::Io))
        },
        ActionView::LoadIndex => match disk.index {
            IndexFile::Missing => (disk, EventView::Failed(Failure::Io)),
            IndexFile::Malformed => (disk, EventView::Failed(Failure::Deserialization)),
            IndexFile::Holds(entries) => (disk, EventView::Loaded(entries)),
        },
        ActionView::StoreIndex { index } => (
            Disk { index: IndexFile::Holds(index), ..disk },
            EventView::Done,
        ),
        ActionView::CopyImage { source, dir_name, file_name } => if disk.dirs.contains(dir_name) {
            (
                Disk { files: disk.files.insert((dir_name, file_name), source), ..disk },
                EventView::Done,
            )
        } else {
            (disk, EventView::Failed(Failure::Io))
        },
    }
}

/// How many actions a mutation may still ask for.
pub open spec fn actions_left(step: StepView) -> nat {
    match step {
        StepView::Finished(_) => 0,
        StepView::Perform(_, pending) => match pending {
            PendingView::CreatingDir { .. } => 4,
            PendingView::LoadingForCreate { .. } => 3,
            PendingView::StoringCreated { .. } => 2,
            PendingView::CopyingImage => 1,
            PendingView::RemovingDir { .. } => 3,
            PendingView::LoadingForDelete { .. } => 2,
            PendingView::StoringDeleted => 1,
        },
    }
}

/// Runs a mutation to its end: performs each action it asks for and hands
/// it the reply, until it has finished.
pub open spec fn run(disk: Disk, step: StepView) -> (Disk, Result<(), Error>)
    decreases actions_left(step),
{
    match step {
        StepView::Finished(result) => (disk, result),
        StepView::Perform(action, pending) => {
            let (next, event) = respond(disk, action);
            run(next, advance(pending, event))
        },
    }
}

/// A disk and the cache of a process that works on it.
pub struct World {
    pub disk: Disk,
    pub cache: Seq<Entry>,
}

/// A request to create an instance: the identifier that was drawn, the
/// name, and the image if there is one.
pub struct Creation {
    pub id: u128,
    pub name: Seq<char>,
    pub image: Option<ImageView>,
}

impl Creation {
    /// The entry that the creation adds to the index.
    pub open spec fn entry(self) -> Entry {
        Entry { id: self.id, name: self.name, order_index: 0 }
    }
}

impl World {
    /// Creating an instance: the manager's creation, run on the disk. The
    /// cache is no part of it.
    pub open spec fn create(self, request: Creation) -> (World, Result<(), Error>) {
        let (disk, result) = run(self.disk, begin_create(request.id, request.name, request.image));
        (World { disk, ..self }, result)
    }

    /// Deleting an instance: the manager's deletion, run on the disk. The
    /// cache is no part of it.
    pub open spec fn delete(self, id: u128) -> (World, Result<(), Error>) {
        let (disk, result) = run(self.disk, begin_delete(id));
        (World { disk, ..self }, result)
    }

    /// Looking an instance up: a load of the index file, then the manager's
    /// lookup on the reply.
    pub open spec fn info(self, id: u128) -> Result<Entry, Error> {
        info_found(id, respond(self.disk, ActionView::LoadIndex).1)
    }

    /// Reading the cached index.
    pub open spec fn index(self) -> Seq<Entry> {
        self.cache
    }

    /// Refreshing the cache: a load of the index file, then the refresh on
    /// the reply.
    pub open spec fn refresh(self) -> (World, Result<(), Error>) {
        let event = respond(self.disk, ActionView::LoadIndex).1;
        (
            World { cache: refreshed(self.cache, event), ..self },
            match loaded(event) {
                Ok(_) => Ok(()),
                Err(error) => Err(error),
            },
        )
    }

    /// Creating one instance after another, whatever each creation returns.
    pub open spec fn create_all(self, requests: Seq<Creation>) -> World
        decreases requests.len(),
    {
        if requests.len() == 0 {
            self
        } else {
            self.create_all(requests.drop_last()).create(requests.last()).0
        }
    }
}

/// What a creation does, step by step.
///
/// The directory is made first. Where the index file cannot be loaded the
/// operation ends there with `Deserialization`: the directory stays and the
/// index file is untouched. Where it can, the entry is appended behind
/// the entries that are there, and the index is stored before the image is
/// looked at: an image without an extension gives `InvalidInput` with the
/// instance indexed all the same, and an image with one is copied into the
/// instance's directory as `instance.` and the extension.
pub proof fn create_outcome(disk: Disk, request: Creation)
    ensures
        ({
            let (after, result) = run(
                disk,
                begin_create(request.id, request.name, request.image),
            );
            let dir = canonical_text(request.id);
            &&& after.dirs == disk.dirs.insert(dir)
            &&& match disk.index {
                IndexFile::Missing | IndexFile::Malformed => {
                    &&& result == Err::<(), Error>(Error::Deserialization)
                    &&& after.index == disk.index
                    &&& after.files == disk.files
                },
                IndexFile::Holds(entries) => {
                    &&& after.index == IndexFile::Holds(entries.push(request.entry()))
                    &&& match request.image {
                        None => result == Ok::<(), Error>(()) && after.files == disk.files,
                        Some(image) => match image.extension {
                            None => {
                                &&& result == Err::<(), Error>(Error::InvalidInput)
                                &&& after.files == disk.files
                            },
                            Some(extension) => {
                                &&& result == Ok::<(), Error>(())
                                &&& after.files == disk.files.insert(
                                    (dir, image_name(extension)),
                                    image.source,
                                )
                            },
                        },
                    }
                },
            }
        }),
{
    reveal_with_fuel(run, 5);
}

/// What a deletion does, step by step.
///
/// The directory is removed first. Where there is none the operation ends
/// with `Io` and nothing has changed. Where the index file then cannot be
/// loaded the operation ends with the load's failure: the directory is gone
/// and the index file is untouched. Else the index is stored without the
/// entries of the instance, the others in their order.
pub proof fn delete_outcome(disk: Disk, id: u128)
    ensures
        ({
            let (after, result) = run(disk, begin_delete(id));
            let dir = canonical_text(id);
            if !disk.dirs.contains(dir) {
                after == disk && result == Err::<(), Error>(Error::Io)
            } else {
                &&& after.dirs == disk.dirs.remove(dir)
                &&& forall|file: (Seq<char>, Seq<char>)|
                    after.files.contains_key(file) <==> disk.files.contains_key(file) && file.0
                        != dir
                &&& match disk.index {
                    IndexFile::Missing => {
                        &&& result == Err::<(), Error>(Error::Io)
                        &&& after.index == disk.index
                    },
                    IndexFile::Malformed => {
                        &&& result == Err::<(), Error>(Error::Deserialization)
                        &&& after.index == disk.index
                    },
                    IndexFile::Holds(entries) => {
                        &&& result == Ok::<(), Error>(())
                        &&& after.index == IndexFile::Holds(without(entries, id))
                    },
                }
            }
        }),
{
    reveal_with_fuel(run, 4);
}

/// An instance that was created is found: after a creation that returned
/// `Ok`, under an identifier that the index did not list, a lookup of the
/// identifier returns the given name and position hint 0.
pub proof fn create_then_get(world: World, request: Creation)
    requires
        world.create(request).1 is Ok,
        !(world.disk.index matches IndexFile::Holds(entries) && lists(entries, request.id)),
    ensures
        world.create(request).0.info(request.id) == Ok::<Entry, Error>(request.entry()),
        request.entry().name == request.name,
        request.entry().order_index == 0,
{
    create_outcome(world.disk, request);
    let entries = world.disk.index->Holds_0;
    lemma_push_first(entries, request.entry(), request.id);
}

/// A failed image does not undo the creation: where a creation returns
/// `InvalidInput`, the instance is indexed and found all the same.
pub proof fn create_survives_bad_image(world: World, request: Creation)
    requires
        world.create(request).1 == Err::<(), Error>(Error::InvalidInput),
        !(world.disk.index matches IndexFile::Holds(entries) && lists(entries, request.id)),
    ensures
        world.create(request).0.info(request.id) == Ok::<Entry, Error>(request.entry()),
{
    create_outcome(world.disk, request);
    let entries = world.disk.index->Holds_0;
    lemma_push_first(entries, request.entry(), request.id);
}

/// An instance that was deleted is not found: after a deletion that
/// returned `Ok`, a lookup of the identifier fails with `NotFound`, which
/// carries the identifier.
pub proof fn delete_then_get(world: World, id: u128)
    requires
        world.delete(id).1 is Ok,
    ensures
        world.delete(id).0.info(id) == Err::<Entry, Error>(Error::NotFound(id)),
{
    delete_outcome(world.disk, id);
    let entries = world.disk.index->Holds_0;
    lemma_without_lists(entries, id, id);
    lemma_first_iff_listed(without(entries, id), id);
}

/// Deleting what the index does not list: where the directory is there,
/// the deletion returns `Ok` and stores the index with the entries it had;
/// where it is not, the deletion reports `Io` and changes nothing.
pub proof fn delete_unlisted(world: World, id: u128)
    requires
        world.disk.index matches IndexFile::Holds(entries) && !lists(entries, id),
    ensures
        world.disk.dirs.contains(canonical_text(id)) ==> {
            &&& world.delete(id).1 == Ok::<(), Error>(())
            &&& world.delete(id).0.disk.index == world.disk.index
        },
        !world.disk.dirs.contains(canonical_text(id)) ==> {
            &&& world.delete(id).1 == Err::<(), Error>(Error::Io)
            &&& world.delete(id).0 == world
        },
{
    delete_outcome(world.disk, id);
    lemma_without_unlisted(world.disk.index->Holds_0, id);
}

/// The cache is stale until it is refreshed: a creation that returned `Ok`
/// leaves the cached index as it was, so an identifier that the cache did
/// not list is still not listed; after a refresh the cache is the index on
/// disk and lists it.
pub proof fn cache_is_stale_until_refresh(world: World, request: Creation)
    requires
        world.create(request).1 is Ok,
        !lists(world.index(), request.id),
    ensures
        world.create(request).0.index() == world.index(),
        !lists(world.create(request).0.index(), request.id),
        world.create(request).0.refresh().1 == Ok::<(), Error>(()),
        world.create(request).0.disk.index == IndexFile::Holds(
            world.create(request).0.refresh().0.index(),
        ),
        lists(world.create(request).0.refresh().0.index(), request.id),
{
    create_outcome(world.disk, request);
    let entries = world.disk.index->Holds_0;
    lemma_push_lists(entries, request.entry(), request.id);
}

/// The same holds of a deletion: it leaves the cache as it was, and after a
/// refresh the cache no longer lists the instance.
pub proof fn cache_keeps_deleted_until_refresh(world: World, id: u128)
    requires
        world.delete(id).1 is Ok,
    ensures
        world.delete(id).0.index() == world.index(),
        world.delete(id).0.refresh().1 == Ok::<(), Error>(()),
        !lists(world.delete(id).0.refresh().0.index(), id),
{
    delete_outcome(world.disk, id);
    lemma_without_lists(world.disk.index->Holds_0, id, id);
}

/// A refresh brings the cache up to date: where the index file loads, the
/// refresh returns `Ok` and the cache holds what the file holds, whatever
/// it held before.
pub proof fn refresh_agrees_with_disk(world: World, entries: Seq<Entry>)
    requires
        world.disk.index == IndexFile::Holds(entries),
    ensures
        world.refresh().1 == Ok::<(), Error>(()),
        world.refresh().0.index() == entries,
        world.refresh().0.disk == world.disk,
{
}

/// A malformed index file does not reach the cache: the refresh fails with
/// `Deserialization` and the cache keeps what it held. A missing file fails
/// the refresh with `Io` in the same way.
pub proof fn refresh_keeps_cache_on_failure(world: World)
    requires
        !(world.disk.index is Holds),
    ensures
        world.refresh().0 == world,
        world.disk.index is Malformed ==> world.refresh().1 == Err::<(), Error>(
            Error::Deserialization,
        ),
        world.disk.index is Missing ==> world.refresh().1 == Err::<(), Error>(Error::Io),
{
}

/// An image is attached under a fixed name: a creation with an image whose
/// path has the extension `extension`, on a disk whose index file loads,
/// returns `Ok` and leaves in the instance's directory a file named
/// `instance.` and the extension, copied from the image's path.
pub proof fn image_is_attached(world: World, request: Creation, extension: Seq<char>)
    requires
        world.disk.index is Holds,
        request.image matches Some(image) && image.extension == Some(extension),
    ensures
        world.create(request).1 == Ok::<(), Error>(()),
        world.create(request).0.disk.dirs.contains(canonical_text(request.id)),
        world.create(request).0.disk.files.contains_key(
            (canonical_text(request.id), image_name(extension)),
        ),
        world.create(request).0.disk.files[(canonical_text(request.id), image_name(extension))]
            == request.image->Some_0.source,
{
    create_outcome(world.disk, request);
}

/// Every instance that the index lists has its directory. An index file
/// that does not load lists nothing.
pub open spec fn listed_have_directories(disk: Disk) -> bool {
    disk.index matches IndexFile::Holds(entries) ==> forall|i: int|
        0 <= i < entries.len() ==> disk.dirs.contains(canonical_text((#[trigger] entries[i]).id))
}

/// A creation keeps every listed instance with its directory, however it
/// ends: the directory is made before the entry is stored.
pub proof fn create_keeps_directories(disk: Disk, request: Creation)
    requires
        listed_have_directories(disk),
    ensures
        listed_have_directories(run(disk, begin_create(request.id, request.name, request.image)).0),
{
    create_outcome(disk, request);
    let after = run(disk, begin_create(request.id, request.name, request.image)).0;
    if let IndexFile::Holds(entries) = disk.index {
        let longer = entries.push(request.entry());
        assert forall|i: int| 0 <= i < longer.len() implies after.dirs.contains(
            canonical_text((#[trigger] longer[i]).id),
        ) by {
            if i < entries.len() {
                assert(disk.dirs.contains(canonical_text(entries[i].id)));
            }
        }
    }
}

/// A deletion that runs to its end keeps every listed instance with its
/// directory: it removes one directory, and with it every entry that names
/// it, for no two identifiers share a directory. Between the removal and
/// the store the index still lists the instance; a deletion that a real disk
/// cuts short there leaves an entry without a directory.
pub proof fn delete_keeps_directories(disk: Disk, id: u128)
    requires
        listed_have_directories(disk),
    ensures
        listed_have_directories(run(disk, begin_delete(id)).0),
{
    delete_outcome(disk, id);
    let after = run(disk, begin_delete(id)).0;
    if disk.dirs.contains(canonical_text(id)) {
        if let IndexFile::Holds(entries) = disk.index {
            let kept = without(entries, id);
            assert forall|i: int| 0 <= i < kept.len() implies after.dirs.contains(
                canonical_text((#[trigger] kept[i]).id),
            ) by {
                let other = kept[i].id;
                lemma_without_lists(entries, id, other);
                let j = choose|j: int| 0 <= j < entries.len() && (#[trigger] entries[j]).id == other;
                assert(disk.dirs.contains(canonical_text(entries[j].id)));
                if canonical_text(other) == canonical_text(id) {
                    lemma_canonical_text_injective(other, id);
                }
            }
        }
    }
}

/// Performs the action that a mutation asks for and hands it the reply: one
/// turn of the loop that [`run`] goes through. A mutation that has finished
/// stays as it is.
pub open spec fn turn(disk: Disk, step: StepView) -> (Disk, StepView) {
    match step {
        StepView::Finished(_) => (disk, step),
        StepView::Perform(action, pending) => {
            let (next, event) = respond(disk, action);
            (next, advance(pending, event))
        },
    }
}

/// The index file is not locked, so the last writer wins: where two
/// creations both load the index before either stores it, both return `Ok`
/// and the index holds the entry of the one that stored last, not that of
/// the other.
pub proof fn concurrent_creations_lose_an_entry(
    disk: Disk,
    entries: Seq<Entry>,
    one: Creation,
    other: Creation,
)
    requires
        disk.index == IndexFile::Holds(entries),
        one.image is None,
        other.image is None,
        one.id != other.id,
        !lists(entries, one.id),
    ensures
        ({
            let (d1, a1) = turn(disk, begin_create(one.id, one.name, one.image));
            let (d2, a2) = turn(d1, a1);
            let (d3, b1) = turn(d2, begin_create(other.id, other.name, other.image));
            let (d4, b2) = turn(d3, b1);
            let (d5, a3) = turn(d4, a2);
            let (d6, b3) = turn(d5, b2);
            &&& a3 == StepView::Finished(Ok(()))
            &&& b3 == StepView::Finished(Ok(()))
            &&& d6.index == IndexFile::Holds(entries.push(other.entry()))
            &&& !lists(entries.push(other.entry()), one.id)
        }),
{
    lemma_push_lists(entries, other.entry(), one.id);
}

/// The identifiers of the requests are pairwise distinct and none of them
/// is listed in `entries`.
pub open spec fn fresh_ids(entries: Seq<Entry>, requests: Seq<Creation>) -> bool {
    &&& forall|i: int| 0 <= i < requests.len() ==> !lists(entries, (#[trigger] requests[i]).id)
    &&& forall|i: int, j: int|
        0 <= i < j < requests.len() ==> (#[trigger] requests[i]).id != (#[trigger] requests[j]).id
}

/// The entries that the requests add, in the order of the requests.
pub open spec fn entries_of(requests: Seq<Creation>) -> Seq<Entry> {
    requests.map_values(|request: Creation| request.entry())
}

/// Every creation adds one entry: on an index file that loads, creations
/// under identifiers that are new and pairwise distinct leave the index
/// with the entries it had, followed by one entry for each creation in
/// turn. Identifiers that were distinct stay distinct; from the empty
/// index, N creations give exactly N entries with N identifiers.
pub proof fn creations_add_distinct_entries(
    world: World,
    start: Seq<Entry>,
    requests: Seq<Creation>,
)
    requires
        world.disk.index == IndexFile::Holds(start),
        fresh_ids(start, requests),
    ensures
        world.create_all(requests).disk.index == IndexFile::Holds(start + entries_of(requests)),
        (start + entries_of(requests)).len() == start.len() + requests.len(),
        distinct_ids(start) ==> distinct_ids(start + entries_of(requests)),
        world.create_all(requests).cache == world.cache,
    decreases requests.len(),
{
    if requests.len() == 0 {
        assert(start + entries_of(requests) =~= start);
    } else {
        let earlier = requests.drop_last();
        let last = requests.last();
        assert(fresh_ids(start, earlier)) by {
            assert forall|i: int| 0 <= i < earlier.len() implies !lists(
                start,
                (#[trigger] earlier[i]).id,
            ) by {
                assert(earlier[i] == requests[i]);
            }
            assert forall|i: int, j: int| 0 <= i < j < earlier.len() implies (#[trigger] earlier[i]).id
                != (#[trigger] earlier[j]).id by {
                assert(earlier[i] == requests[i] && earlier[j] == requests[j]);
            }
        }
        creations_add_distinct_entries(world, start, earlier);
        let before = world.create_all(earlier);
        let listed = start + entries_of(earlier);
        create_outcome(before.disk, last);
        assert(listed.push(last.entry()) =~= start + entries_of(requests));
        // the last identifier is new among those listed so far
        assert(!lists(listed, last.id)) by {
            if lists(listed, last.id) {
                let k = choose|k: int| 0 <= k < listed.len() && (#[trigger] listed[k]).id == last.id;
                if k < start.len() {
                    assert(start[k].id == last.id);
                    assert(requests[requests.len() - 1].id == last.id);
                } else {
                    let i = k - start.len();
                    assert(requests[i].id == entries_of(earlier)[i].id);
                    assert(requests[i].id != requests[requests.len() - 1].id);
                }
            }
        }
        lemma_push_distinct(listed, last.entry());
    }
}

} // verus!
