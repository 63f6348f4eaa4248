//! Why a source could not start.
//!
//! Every cause is structural: a source that fails one way fails the same way
//! every time, which is why nothing tries again.

use crate::lua::{signed, signed_text};
use crate::source::SourceId;
use crate::text::{joined, joined3};
use vstd::prelude::*;

verus! {

/// Why a source could not start.
#[derive(Debug, Clone, PartialEq, Eq)]
pub enum Cause {
    /// There is no config file to follow.
    NoConfigFile,
    /// A path with no parent to watch.
    NoParentDirectory(String),
    /// The filesystem would not be watched, and what it said.
    Watch(String),
    /// There is no audio output to observe.
    NoOutputDevice,
    /// A property listener was refused, and with what status.
    CoreAudio(i32),
    /// A reconfiguration callback was refused, and how that prints.
    CoreGraphics(String),
    /// No power notification source was to be had.
    IoKit,
    /// Started elsewhere than on the main thread, where it has to be.
    NotMainThread,
    /// The display has no brightness to control.
    NoBrightnessControl,
    /// The dynamic store refused to be made, keyed or scheduled.
    DynamicStore,
    /// What is playing is not for this process to know.
    MediaRemoteBlocked,
}

/// [`Cause`] over plain text.
pub enum CauseView {
    NoConfigFile,
    NoParentDirectory(Seq<char>),
    Watch(Seq<char>),
    NoOutputDevice,
    CoreAudio(int),
    CoreGraphics(Seq<char>),
    IoKit,
    NotMainThread,
    NoBrightnessControl,
    DynamicStore,
    MediaRemoteBlocked,
}

impl View for Cause {
    type V = CauseView;

    open spec fn view(&self) -> CauseView {
        match self {
            Cause::NoConfigFile => CauseView::NoConfigFile,
            Cause::NoParentDirectory(path) => CauseView::NoParentDirectory(path@),
            Cause::Watch(said) => CauseView::Watch(said@),
            Cause::NoOutputDevice => CauseView::NoOutputDevice,
            Cause::CoreAudio(status) => CauseView::CoreAudio(*status as int),
            Cause::CoreGraphics(said) => CauseView::CoreGraphics(said@),
            Cause::IoKit => CauseView::IoKit,
            Cause::NotMainThread => CauseView::NotMainThread,
            Cause::NoBrightnessControl => CauseView::NoBrightnessControl,
            Cause::DynamicStore => CauseView::DynamicStore,
            Cause::MediaRemoteBlocked => CauseView::MediaRemoteBlocked,
        }
    }
}

/// The sentence a cause is logged as.
pub open spec fn cause_text(cause: CauseView) -> Seq<char> {
    match cause {
        CauseView::NoConfigFile => "there is no config file"@,
        CauseView::NoParentDirectory(path) => path + " has no parent directory to watch"@,
        CauseView::Watch(said) => "could not watch the filesystem: "@ + said,
        CauseView::NoOutputDevice => "there is no default output device"@,
        CauseView::CoreAudio(status) => "CoreAudio refused a listener (status "@ + signed_text(
            status,
        ) + ")"@,
        CauseView::CoreGraphics(said) => "CoreGraphics refused the callback ("@ + said + ")"@,
        CauseView::IoKit => "IOKit refused a notification source"@,
        CauseView::NotMainThread => "this source has to be registered on the main thread"@,
        CauseView::NoBrightnessControl => "this display has no brightness control"@,
        CauseView::DynamicStore => "SCDynamicStore refused the registration"@,
        CauseView::MediaRemoteBlocked => "MediaRemote is entitlement-blocked on this OS"@,
    }
}

impl Cause {
    /// The sentence this is logged as.
    pub fn to_string(&self) -> (r: String)
        ensures
            r@ == cause_text(self@),
    {
        match self {
            Cause::NoConfigFile => "there is no config file".to_owned(),
            Cause::NoParentDirectory(path) => joined(path, " has no parent directory to watch"),
            Cause::Watch(said) => joined("could not watch the filesystem: ", said),
            Cause::NoOutputDevice => "there is no default output device".to_owned(),
            Cause::CoreAudio(status) => {
                let number = signed(*status as i64);
                joined3("CoreAudio refused a listener (status ", &number, ")")
            },
            Cause::CoreGraphics(said) => joined3("CoreGraphics refused the callback (", said, ")"),
            Cause::IoKit => "IOKit refused a notification source".to_owned(),
            Cause::NotMainThread => "this source has to be registered on the main thread".to_owned(),
            Cause::NoBrightnessControl => "this display has no brightness control".to_owned(),
            Cause::DynamicStore => "SCDynamicStore refused the registration".to_owned(),
            Cause::MediaRemoteBlocked => "MediaRemote is entitlement-blocked on this OS".to_owned(),
        }
    }
}

/// A source that could not start, and which one.
#[derive(Debug, Clone, PartialEq, Eq)]
pub struct StartError {
    pub id: SourceId,
    pub cause: Cause,
}

impl StartError {
    /// A source that could not start, and why.
    pub fn new(id: SourceId, cause: Cause) -> (r: StartError)
        ensures
            r.id@ == id@,
            r.cause@ == cause@,
    {
        StartError { id, cause }
    }

    /// The sentence this is logged as.
    pub fn to_string(&self) -> (r: String)
        ensures
            r@ == "could not start the "@ + self.id@ + (" event source: "@ + cause_text(
                self.cause@,
            )),
    {
        joined3(
            "could not start the ",
            self.id.0,
            &joined(" event source: ", &self.cause.to_string()),
        )
    }
}

} // verus!
