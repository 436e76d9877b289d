//! The process state: the configuration and the cached index.
//!
//! The cache is a copy of the index file in memory. Only an explicit refresh
//! brings it up to date: creating and deleting change the file and leave
//! the cache as it is.

use crate::error::Error;
use crate::manager::{loaded, Action, ActionView, Event, EventView};
use crate::model::{Entry, InstanceIndex};
use std::path::PathBuf;
use vstd::prelude::*;

verus! {

/// The configuration, as the application keeps it.
#[derive(Debug, PartialEq, Eq)]
pub struct AppConfig {
    /// Where the game is installed, if that is known.
    pub game_dir: Option<PathBuf>,
    /// The base directory: the index file and every instance's directory
    /// live directly under it.
    pub instances_dir: PathBuf,
}

/// The state of the process: made once at startup, then handed to every
/// operation that needs it.
#[derive(Debug, PartialEq, Eq)]
pub struct AppState {
    /// The configuration.
    pub config: AppConfig,
    /// The cached index.
    pub instance_index: InstanceIndex,
}

/// The value of a reply that may be absent.
pub open spec fn event_view(reply: Option<Event>) -> Option<EventView> {
    match reply {
        Some(event) => Some(event@),
        None => None,
    }
}

/// The index that the process starts with: the empty one where no index
/// file was found, else what the load of the file brought.
pub open spec fn startup_index(found: Option<EventView>) -> Result<Seq<Entry>, Error> {
    match found {
        None => Ok(Seq::<Entry>::empty()),
        Some(event) => loaded(event),
    }
}

/// What a refresh makes of the cache on the reply to a load: the index that
/// was read, or the cache as it was where the load failed.
pub open spec fn refreshed(cache: Seq<Entry>, event: EventView) -> Seq<Entry> {
    match loaded(event) {
        Ok(index) => index,
        Err(_) => cache,
    }
}

impl AppState {
    /// Makes the state at startup. `found` is `None` where there is no
    /// index file yet, else the reply to a load of it.
    ///
    /// Without an index file the state starts with the empty index, and the
    /// action that is returned writes that index to disk. With one, the
    /// state starts with what the file holds and nothing is to be done; a
    /// failed load fails the startup.
    pub fn new(config: AppConfig, found: Option<Event>) -> (result: Result<
        (AppState, Option<Action>),
        Error,
    >)
        ensures
            match result {
                Ok((state, action)) => {
                    &&& startup_index(event_view(found)) == Ok::<Seq<Entry>, Error>(
                        state.instance_index@,
                    )
                    &&& state.config == config
                    &&& match action {
                        Some(action) => found is None && action@ == (ActionView::StoreIndex {
                            index: Seq::<Entry>::empty(),
                        }),
                        None => found is Some,
                    }
                },
                Err(error) => startup_index(event_view(found)) == Err::<Seq<Entry>, Error>(error),
            },
    {
        match found {
            None => {
                let state = AppState { config, instance_index: InstanceIndex::new() };
                let action = Action::StoreIndex { index: InstanceIndex::new() };
                Ok((state, Some(action)))
            },
            Some(event) => match event.into_index() {
                Ok(instance_index) => Ok((AppState { config, instance_index }, None)),
                Err(error) => Err(error),
            },
        }
    }
}

/// A copy of the cached index. The disk is not consulted: the copy shows
/// the last successful refresh.
pub fn get_instances_index(cache: &InstanceIndex) -> (result: Result<InstanceIndex, Error>)
    ensures
        result is Ok,
        result->Ok_0@ == cache@,
{
    Ok(cache.clone())
}

/// Replaces the cached index by what a load of the index file brought. On
/// a failed load the cache stays as it was and the failure is returned.
pub fn refresh_instances_index(cache: &mut InstanceIndex, reply: Event) -> (result: Result<
    (),
    Error,
>)
    ensures
        final(cache)@ == refreshed(old(cache)@, reply@),
        match loaded(reply@) {
            Ok(_) => result == Ok::<(), Error>(()),
            Err(error) => result == Err::<(), Error>(error),
        },
{
    match reply.into_index() {
        Ok(index) => {
            cache.instances = index.instances;
            Ok(())
        },
        Err(error) => Err(error),
    }
}

} // verus!
