//! Following the config file.

use crate::event::{ConfigReload, Event, Topic};
use crate::modules::{part, Located, LocatedView};
use crate::source::{described, Described, SourceId};
use crate::sources::cause::{Cause, CauseView, StartError};
use crate::sources::{describe, known};
use crate::text::same;
use vstd::prelude::*;

verus! {

/// How long one save may keep producing events, in milliseconds.
pub const DEBOUNCE: u64 = 250;

/// Whether a reported path is the config. The file's name alone will do: the
/// path a save is reported against may have gone through a link.
pub open spec fn is_config(reported: LocatedView, config: LocatedView) -> bool {
    reported.whole == config.whole || reported.file == config.file
}

/// Whether a reported path is the config.
pub fn touches(reported: &Located, config: &Located) -> (r: bool)
    ensures
        r == is_config(reported@, config@),
{
    if same(&reported.whole, &config.whole) {
        return true;
    }
    match (&reported.file, &config.file) {
        (Some(a), Some(b)) => same(a, b),
        (None, None) => true,
        _ => false,
    }
}

/// The source of config events: the config it follows, where there is one.
#[derive(Debug, Clone, PartialEq, Eq)]
pub struct Watcher {
    pub config: Option<Located>,
}

impl Watcher {
    /// What this source is called, and what it produces. It runs whether or
    /// not anything asks: the daemon is who asks.
    pub fn describe() -> (r: Described)
        ensures
            described(r) == known("config"@, seq![Topic::ConfigReloaded], true),
    {
        let topics = vec![Topic::ConfigReloaded];
        assert(topics@ =~= seq![Topic::ConfigReloaded]);
        describe(SourceId("config"), topics, true)
    }

    /// The directory to watch: not the file, which an editor replaces when it
    /// saves.
    pub fn watched(&self) -> (r: Result<String, StartError>)
        ensures
            match self.config {
                None => r matches Err(e) && e.id@ == "config"@ && e.cause@
                    == CauseView::NoConfigFile,
                Some(config) => match config.directory {
                    None => r matches Err(e) && e.id@ == "config"@ && e.cause@
                        == CauseView::NoParentDirectory(config.whole@),
                    Some(directory) => r matches Ok(watched) && watched@ == directory@,
                },
            },
    {
        match &self.config {
            None => Err(StartError::new(SourceId("config"), Cause::NoConfigFile)),
            Some(config) => match &config.directory {
                None => Err(
                    StartError::new(
                        SourceId("config"),
                        Cause::NoParentDirectory(config.whole.clone()),
                    ),
                ),
                Some(directory) => Ok(directory.clone()),
            },
        }
    }

    /// Whether any of some reported paths is the config.
    pub fn changed(&self, reported: &Vec<Located>) -> (r: bool)
        ensures
            r == (self.config matches Some(config) && exists|i: int|
                0 <= i < reported@.len() && is_config((#[trigger] reported@[i])@, config@)),
    {
        let config = match &self.config {
            Some(config) => config,
            None => {
                return false;
            },
        };
        let mut i: usize = 0;
        while i < reported.len()
            invariant
                i <= reported@.len(),
                self.config == Some(*config),
                forall|j: int| 0 <= j < i ==> !is_config((#[trigger] reported@[j])@, config@),
            decreases reported@.len() - i,
        {
            if touches(&reported[i], config) {
                return true;
            }
            i = i + 1;
        }
        false
    }

    /// What is reported of a change.
    pub fn event(&self) -> (r: Event)
        ensures
            r is ConfigReloaded,
    {
        Event::ConfigReloaded(ConfigReload {  })
    }
}

/// What the runs of the config have come to.
#[derive(Debug, Clone, PartialEq, Eq)]
pub struct Runs {
    /// How many succeeded.
    pub generation: u64,
    /// Why the last one failed, if it did.
    pub last_error: Option<String>,
}

impl Runs {
    /// None yet.
    pub fn new() -> (r: Runs)
        ensures
            r.generation == 0,
            r.last_error is None,
    {
        Runs { generation: 0, last_error: None }
    }

    /// What a run comes to where there is no config to run: nothing was
    /// replaced, so nothing the one before put there should go.
    pub fn without_config() -> (r: Result<(), String>)
        ensures
            r matches Err(said) && said@ == "there is no config file to run"@,
    {
        Err("there is no config file to run".to_owned())
    }

    /// Takes what a run came to. A failed one leaves what the one before it
    /// did in place.
    pub fn finished(&mut self, outcome: &Result<(), String>)
        requires
            old(self).generation < u64::MAX,
        ensures
            match *outcome {
                Ok(_) => final(self).generation == old(self).generation + 1
                    && final(self).last_error is None,
                Err(said) => final(self).generation == old(self).generation && part(
                    final(self).last_error,
                ) == Some(said@),
            },
    {
        match outcome {
            Ok(_) => {
                self.generation = self.generation + 1;
                self.last_error = None;
            },
            Err(said) => {
                self.last_error = Some(said.clone());
            },
        }
    }
}

/// A path reported for the config by another way there is still the config,
/// and a file of another name in its directory is not.
pub proof fn law_the_name_is_what_counts(reported: LocatedView, config: LocatedView)
    ensures
        reported.file == config.file ==> is_config(reported, config),
        reported.file != config.file && reported.whole != config.whole ==> !is_config(
            reported,
            config,
        ),
{
}

} // verus!
