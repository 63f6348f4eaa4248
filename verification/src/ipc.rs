//! Talking to the daemon: which one, what its answer means, and when what it
//! pushes has ended.

use crate::error::{ApiError, ApiFault};
use crate::naming::service_name;
use crate::request::Response;
use vstd::prelude::*;

verus! {

/// The format the protocol travels in, with struct fields written as names.
#[derive(Debug, Clone, Copy, PartialEq, Eq, Default)]
pub struct MessagePack;

/// The way to one daemon.
#[derive(Debug)]
pub struct IpcDispatcher {
    service: String,
}

impl IpcDispatcher {
    /// The service this looks up.
    pub closed spec fn looked_up(&self) -> Seq<char> {
        self.service@
    }

    /// The way to the daemon the environment names, or to the usual one.
    pub fn new(set: Option<String>) -> (r: IpcDispatcher)
        ensures
            r.looked_up() == match set {
                Some(name) => name@,
                None => "com.auscyber.rsbar"@,
            },
    {
        IpcDispatcher { service: service_name(set) }
    }

    /// The way to the daemon that answers on a service.
    pub fn with_service(service: String) -> (r: IpcDispatcher)
        ensures
            r.looked_up() == service@,
    {
        IpcDispatcher { service }
    }

    /// The service to look up.
    pub fn service(&self) -> (r: &str)
        ensures
            r@ == self.looked_up(),
    {
        self.service.as_str()
    }
}

/// What an answer means: a request that was understood and refused is an
/// error, and everything else is the answer.
pub fn answered(response: Response) -> (r: Result<Response, ApiError>)
    ensures
        match response {
            Response::Error(message) => r matches Err(e) && e@ == ApiFault::Rejected(message@),
            _ => r == Ok::<Response, ApiError>(response),
        },
{
    match response {
        Response::Error(message) => Err(ApiError::Rejected(message)),
        other => Ok(other),
    }
}

/// What asking for the next event came to.
#[derive(Debug, Clone, Copy, PartialEq, Eq, Structural)]
pub enum Polled {
    /// One arrived.
    Delivered,
    /// One arrived that cannot be made out.
    Undecodable,
    /// Whoever sends them is gone, or sends no more.
    Gone,
    /// None has arrived yet.
    Pending,
}

/// What to do about it.
#[derive(Debug, Clone, Copy, PartialEq, Eq, Structural)]
pub enum Next {
    /// Hand it on.
    Deliver,
    /// Pass over it and ask again.
    Skip,
    /// There will be no more.
    End,
    /// Wait.
    Wait,
}

/// Events as they are pushed, until whoever pushes them is gone.
#[derive(Debug, Clone, Copy, PartialEq, Eq, Structural)]
pub struct EventStream {
    done: bool,
}

impl EventStream {
    /// Whether this has ended.
    pub closed spec fn ended(&self) -> bool {
        self.done
    }

    /// One that has not ended.
    pub fn new() -> (r: EventStream)
        ensures
            !r.ended(),
    {
        EventStream { done: false }
    }

    /// Whether to ask for another event at all.
    pub fn is_done(&self) -> (r: bool)
        ensures
            r == self.ended(),
    {
        self.done
    }

    /// What to do about what asking came to. An event that cannot be made out
    /// is passed over and ends nothing; once ended, always ended.
    pub fn poll(&mut self, polled: Polled) -> (r: Next)
        ensures
            final(self).ended() == (old(self).ended() || polled == Polled::Gone),
            r == next_step(old(self).ended(), polled),
    {
        if self.done {
            return Next::End;
        }
        match polled {
            Polled::Delivered => Next::Deliver,
            Polled::Undecodable => Next::Skip,
            Polled::Gone => {
                self.done = true;
                Next::End
            },
            Polled::Pending => Next::Wait,
        }
    }
}

/// What to do about what asking came to.
pub open spec fn next_step(ended: bool, polled: Polled) -> Next {
    if ended {
        Next::End
    } else {
        match polled {
            Polled::Delivered => Next::Deliver,
            Polled::Undecodable => Next::Skip,
            Polled::Gone => Next::End,
            Polled::Pending => Next::Wait,
        }
    }
}

} // verus!
