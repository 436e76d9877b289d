//! The instance manager: creating, deleting and looking up instances.
//!
//! The manager never touches the disk. A lookup takes the reply to a load of
//! the index file. A mutation is a state machine: it hands out one
//! [`Action`] at a time, in the order in which the directory tree and the
//! index file must change, and takes back the [`Event`] that reports how the
//! action went. The first failure ends the operation; what was done before
//! it stays done.

use crate::error::{Error, Failure};
use crate::ident::{canonical_text, is_random_id, random_id};
use crate::layout::{image_name, instance_dir_name, Image, ImageView};
use crate::model::{first, without, Entry, InstanceIndex, InstanceInfo};
use std::path::PathBuf;
use vstd::prelude::*;

verus! {

/// One thing for the caller to do under the base directory.
#[derive(Debug, PartialEq, Eq)]
pub enum Action {
    /// Create the directory `dir_name`, and its parents where they are
    /// missing.
    CreateDir { dir_name: String },
    /// Remove the directory `dir_name` with all that is in it.
    RemoveDir { dir_name: String },
    /// Read the index file and decode it.
    LoadIndex,
    /// Encode `index` and overwrite the index file with it.
    StoreIndex { index: InstanceIndex },
    /// Copy the file at `source` to `file_name` inside the directory
    /// `dir_name`.
    CopyImage { source: PathBuf, dir_name: String, file_name: String },
}

/// An [`Action`] as a mathematical value.
pub enum ActionView {
    CreateDir { dir_name: Seq<char> },
    RemoveDir { dir_name: Seq<char> },
    LoadIndex,
    StoreIndex { index: Seq<Entry> },
    CopyImage { source: PathBuf, dir_name: Seq<char>, file_name: Seq<char> },
}

impl View for Action {
    type V = ActionView;

    open spec fn view(&self) -> ActionView {
        match self {
            Action::CreateDir { dir_name } => ActionView::CreateDir { dir_name: dir_name@ },
            Action::RemoveDir { dir_name } => ActionView::RemoveDir { dir_name: dir_name@ },
            Action::LoadIndex => ActionView::LoadIndex,
            Action::StoreIndex { index } => ActionView::StoreIndex { index: index@ },
            Action::CopyImage { source, dir_name, file_name } => ActionView::CopyImage {
                source: *source,
                dir_name: dir_name@,
                file_name: file_name@,
            },
        }
    }
}

/// How an [`Action`] went.
#[derive(Debug, PartialEq, Eq)]
pub enum Event {
    /// The action was performed; the reply to every action but a load.
    Done,
    /// The index file was read and decoded; the reply to a load.
    Loaded(InstanceIndex),
    /// The action failed.
    Failed(Failure),
}

/// An [`Event`] as a mathematical value.
pub enum EventView {
    Done,
    Loaded(Seq<Entry>),
    Failed(Failure),
}

impl View for Event {
    type V = EventView;

    open spec fn view(&self) -> EventView {
        match self {
            Event::Done => EventView::Done,
            Event::Loaded(index) => EventView::Loaded(index@),
            Event::Failed(failure) => EventView::Failed(*failure),
        }
    }
}

/// What a reply means for an action that brings nothing back: a failure is
/// surfaced as it is, and an index that nobody asked for counts as a failed
/// filesystem operation.
pub open spec fn answered(event: EventView) -> Result<(), Error> {
    match event {
        EventView::Done => Ok(()),
        EventView::Loaded(_) => Err(Error::Io),
        EventView::Failed(failure) => Err(Error::of(failure)),
    }
}

/// What a reply means for a load: the index that was read, or the failure
/// as it is. A reply without an index counts as a failed read.
pub open spec fn loaded(event: EventView) -> Result<Seq<Entry>, Error> {
    match event {
        EventView::Done => Err(Error::Io),
        EventView::Loaded(index) => Ok(index),
        EventView::Failed(failure) => Err(Error::of(failure)),
    }
}

impl Event {
    /// Reads the reply to an action that brings nothing back.
    pub fn check(&self) -> (outcome: Result<(), Error>)
        ensures
            outcome == answered(self@),
    {
        match self {
            Event::Done => Ok(()),
            Event::Loaded(_) => Err(Error::Io),
            Event::Failed(failure) => Err(Error::from_failure(*failure)),
        }
    }

    /// Reads the reply to a load.
    pub fn into_index(self) -> (outcome: Result<InstanceIndex, Error>)
        ensures
            match outcome {
                Ok(index) => loaded(self@) == Ok::<Seq<Entry>, Error>(index@),
                Err(error) => loaded(self@) == Err::<Seq<Entry>, Error>(error),
            },
    {
        match self {
            Event::Done => Err(Error::Io),
            Event::Loaded(index) => Ok(index),
            Event::Failed(failure) => Err(Error::from_failure(failure)),
        }
    }
}

/// A mutation that waits for the reply to the action it handed out.
#[derive(Debug, PartialEq, Eq)]
pub enum Pending {
    /// Creating: the instance's directory is being made.
    CreatingDir { info: InstanceInfo, image: Option<Image> },
    /// Creating: the directory is there, the index is being read.
    LoadingForCreate { info: InstanceInfo, image: Option<Image> },
    /// Creating: the index with the new entry is being written.
    StoringCreated { id: u128, image: Option<Image> },
    /// Creating: the instance is indexed, its image is being copied.
    CopyingImage,
    /// Deleting: the instance's directory is being removed.
    RemovingDir { id: u128 },
    /// Deleting: the directory is gone, the index is being read.
    LoadingForDelete { id: u128 },
    /// Deleting: the index without the instance is being written.
    StoringDeleted,
}

/// A [`Pending`] mutation as a mathematical value.
pub enum PendingView {
    CreatingDir { info: Entry, image: Option<ImageView> },
    LoadingForCreate { info: Entry, image: Option<ImageView> },
    StoringCreated { id: u128, image: Option<ImageView> },
    CopyingImage,
    RemovingDir { id: u128 },
    LoadingForDelete { id: u128 },
    StoringDeleted,
}

/// The value of an image that may be absent.
pub open spec fn image_view(image: Option<Image>) -> Option<ImageView> {
    match image {
        Some(image) => Some(image@),
        None => None,
    }
}

impl View for Pending {
    type V = PendingView;

    open spec fn view(&self) -> PendingView {
        match self {
            Pending::CreatingDir { info, image } => PendingView::CreatingDir {
                info: info@,
                image: image_view(*image),
            },
            Pending::LoadingForCreate { info, image } => PendingView::LoadingForCreate {
                info: info@,
                image: image_view(*image),
            },
            Pending::StoringCreated { id, image } => PendingView::StoringCreated {
                id: *id,
                image: image_view(*image),
            },
            Pending::CopyingImage => PendingView::CopyingImage,
            Pending::RemovingDir { id } => PendingView::RemovingDir { id: *id },
            Pending::LoadingForDelete { id } => PendingView::LoadingForDelete { id: *id },
            Pending::StoringDeleted => PendingView::StoringDeleted,
        }
    }
}

/// Where a mutation stands: it asks for an action, or it has ended.
#[derive(Debug, PartialEq, Eq)]
pub enum Step {
    /// Perform the action, then hand the reply to [`Pending::advance`].
    Perform(Action, Pending),
    /// The operation ended with this result.
    Finished(Result<(), Error>),
}

/// A [`Step`] as a mathematical value.
pub enum StepView {
    Perform(ActionView, PendingView),
    Finished(Result<(), Error>),
}

impl View for Step {
    type V = StepView;

    open spec fn view(&self) -> StepView {
        match self {
            Step::Perform(action, pending) => StepView::Perform(action@, pending@),
            Step::Finished(result) => StepView::Finished(*result),
        }
    }
}

/// The first step of creating the instance `id` under `name`: make its
/// directory. The entry to be indexed has position hint 0.
pub open spec fn begin_create(id: u128, name: Seq<char>, image: Option<ImageView>) -> StepView {
    StepView::Perform(
        ActionView::CreateDir { dir_name: canonical_text(id) },
        PendingView::CreatingDir { info: Entry { id, name, order_index: 0 }, image },
    )
}

/// The first step of deleting the instance `id`: remove its directory.
pub open spec fn begin_delete(id: u128) -> StepView {
    StepView::Perform(
        ActionView::RemoveDir { dir_name: canonical_text(id) },
        PendingView::RemovingDir { id },
    )
}

/// What follows the storing of a new instance's entry: nothing without an
/// image, the copy of an image with an extension, and `InvalidInput` for an
/// image without one. The entry stays indexed in each case.
pub open spec fn after_indexing(id: u128, image: Option<ImageView>) -> StepView {
    match image {
        None => StepView::Finished(Ok(())),
        Some(image) => match image.extension {
            None => StepView::Finished(Err(Error::InvalidInput)),
            Some(extension) => StepView::Perform(
                ActionView::CopyImage {
                    source: image.source,
                    dir_name: canonical_text(id),
                    file_name: image_name(extension),
                },
                PendingView::CopyingImage,
            ),
        },
    }
}

/// The transition of a mutation on a reply.
///
/// Creating goes: make the directory, load the index, store it with the new
/// entry appended, copy the image if there is one. Deleting goes: remove
/// the directory, load the index, store it without the instance's entries.
/// A reply that reports a failure, or that does not answer the action, ends
/// the operation with that error and asks for nothing more. One case has a
/// rule of its own: a creation whose load brings no index, because the file
/// is missing or because it is malformed, ends with `Deserialization`.
pub open spec fn advance(pending: PendingView, event: EventView) -> StepView {
    match pending {
        PendingView::CreatingDir { info, image } => match answered(event) {
            Ok(()) => StepView::Perform(
                ActionView::LoadIndex,
                PendingView::LoadingForCreate { info, image },
            ),
            Err(error) => StepView::Finished(Err(error)),
        },
        PendingView::LoadingForCreate { info, image } => match loaded(event) {
            Ok(index) => StepView::Perform(
                ActionView::StoreIndex { index: index.push(info) },
                PendingView::StoringCreated { id: info.id, image },
            ),
            Err(_) => StepView::Finished(Err(Error::Deserialization)),
        },
        PendingView::StoringCreated { id, image } => match answered(event) {
            Ok(()) => after_indexing(id, image),
            Err(error) => StepView::Finished(Err(error)),
        },
        PendingView::CopyingImage => StepView::Finished(answered(event)),
        PendingView::RemovingDir { id } => match answered(event) {
            Ok(()) => StepView::Perform(
                ActionView::LoadIndex,
                PendingView::LoadingForDelete { id },
            ),
            Err(error) => StepView::Finished(Err(error)),
        },
        PendingView::LoadingForDelete { id } => match loaded(event) {
            Ok(index) => StepView::Perform(
                ActionView::StoreIndex { index: without(index, id) },
                PendingView::StoringDeleted,
            ),
            Err(error) => StepView::Finished(Err(error)),
        },
        PendingView::StoringDeleted => StepView::Finished(answered(event)),
    }
}

/// The entry that a lookup of `id` returns on the reply to a load: the
/// first entry with that identifier, `NotFound` with the identifier where
/// the index lists none, and the failure where the load failed.
pub open spec fn info_found(id: u128, event: EventView) -> Result<Entry, Error> {
    match loaded(event) {
        Ok(index) => match first(index, id) {
            Some(entry) => Ok(entry),
            None => Err(Error::NotFound(id)),
        },
        Err(error) => Err(error),
    }
}

impl Pending {
    /// Takes the reply to the action that was handed out and says what
    /// comes next.
    pub fn advance(self, event: Event) -> (step: Step)
        ensures
            step@ == advance(self@, event@),
    {
        match self {
            Pending::CreatingDir { info, image } => match event.check() {
                Ok(()) => Step::Perform(
                    Action::LoadIndex,
                    Pending::LoadingForCreate { info, image },
                ),
                Err(error) => Step::Finished(Err(error)),
            },
            Pending::LoadingForCreate { info, image } => match event.into_index() {
                Ok(index) => {
                    let id = info.id;
                    let mut index = index;
                    index.push(info);
                    Step::Perform(
                        Action::StoreIndex { index },
                        Pending::StoringCreated { id, image },
                    )
                },
                Err(_) => Step::Finished(Err(Error::Deserialization)),
            },
            Pending::StoringCreated { id, image } => match event.check() {
                Ok(()) => match image {
                    None => Step::Finished(Ok(())),
                    Some(image) => match image.file_name() {
                        Ok(file_name) => Step::Perform(
                            Action::CopyImage {
                                source: image.source,
                                dir_name: instance_dir_name(id),
                                file_name,
                            },
                            Pending::CopyingImage,
                        ),
                        Err(error) => Step::Finished(Err(error)),
                    },
                },
                Err(error) => Step::Finished(Err(error)),
            },
            Pending::CopyingImage => Step::Finished(event.check()),
            Pending::RemovingDir { id } => match event.check() {
                Ok(()) => Step::Perform(Action::LoadIndex, Pending::LoadingForDelete { id }),
                Err(error) => Step::Finished(Err(error)),
            },
            Pending::LoadingForDelete { id } => match event.into_index() {
                Ok(index) => {
                    let mut index = index;
                    index.remove(id);
                    Step::Perform(Action::StoreIndex { index }, Pending::StoringDeleted)
                },
                Err(error) => Step::Finished(Err(error)),
            },
            Pending::StoringDeleted => Step::Finished(event.check()),
        }
    }
}

/// Starts the creation of an instance under an identifier that the caller
/// chose, with the image already examined.
pub fn create_instance_with_id(id: u128, instance_name: String, image: Option<Image>) -> (step: Step)
    ensures
        step@ == begin_create(id, instance_name@, image_view(image)),
{
    let dir_name = instance_dir_name(id);
    let info = InstanceInfo::new(id, instance_name);
    Step::Perform(Action::CreateDir { dir_name }, Pending::CreatingDir { info, image })
}

/// Starts the creation of an instance named `instance_name`, with the image
/// at `image_path` as its cover if one is given.
///
/// The identifier is drawn at random and the extension is read off the
/// path, so the contract says what holds of every draw and every reading:
/// the step is the first step of a creation, under a random identifier,
/// with the given name and with the image at the given path. What the
/// creation does from there, [`create_instance_with_id`] and
/// [`Pending::advance`] say exactly.
///
/// The draw needs random bytes from the operating system and panics where
/// there are none.
pub fn create_instance(instance_name: String, image_path: Option<PathBuf>) -> (step: Step)
    ensures
        exists|id: u128, image: Option<ImageView>|
            {
                &&& is_random_id(id)
                &&& image is Some <==> image_path is Some
                &&& image matches Some(i) ==> Some(i.source) == image_path
                &&& image matches Some(i) ==> (i.extension matches Some(e) ==> !e.contains('.'))
                &&& #[trigger] begin_create(id, instance_name@, image) == step@
            },
{
    let id = random_id();
    let image = match image_path {
        Some(path) => Some(Image::at(path)),
        None => None,
    };
    create_instance_with_id(id, instance_name, image)
}

/// Starts the deletion of the instance `instance_id`.
pub fn delete_instance(instance_id: u128) -> (step: Step)
    ensures
        step@ == begin_delete(instance_id),
{
    Step::Perform(
        Action::RemoveDir { dir_name: instance_dir_name(instance_id) },
        Pending::RemovingDir { id: instance_id },
    )
}

/// Looks `instance_id` up in the index that a load of the index file
/// brought: the lookup goes by the disk, never by the cache.
pub fn get_instance_info(instance_id: u128, reply: Event) -> (result: Result<InstanceInfo, Error>)
    ensures
        match result {
            Ok(info) => info_found(instance_id, reply@) == Ok::<Entry, Error>(info@),
            Err(error) => info_found(instance_id, reply@) == Err::<Entry, Error>(error),
        },
{
    match reply.into_index() {
        Ok(index) => match index.find(instance_id) {
            Some(info) => Ok(info.clone()),
            None => Err(Error::NotFound(instance_id)),
        },
        Err(error) => Err(error),
    }
}

} // verus!
