//! Retry and fallback across an ordered list of interchangeable mirrors.
//!
//! The caller sends the requests; this module decides, from what each request
//! gave, which mirror is asked next and when to stop.

use vstd::prelude::*;
use vstd::string::*;

verus! {

/// How many connection-level failures one mirror is allowed.
pub const RETRY_BUDGET: u8 = 3;

/// The only HTTP status that is accepted as a result.
pub const HTTP_OK: u16 = 200;

/// What one GET gave.
#[derive(Clone, Copy, Debug, PartialEq, Eq, Structural)]
pub enum FetchEvent {
    /// The mirror answered with this HTTP status.
    Status(u16),
    /// The request failed below HTTP: no connection, or a timeout.
    NetworkFailure,
}

/// What the caller does next.
#[derive(Clone, Copy, Debug, PartialEq, Eq, Structural)]
pub enum FetchNext {
    /// The last response is the result.
    Accept,
    /// Send the request to the mirror with this index.
    Ask(usize),
    /// Every mirror is exhausted: there is no result.
    GiveUp,
}

/// Where a fetch stands, as plain numbers.
pub struct FetchProgress {
    /// Index of the mirror that is asked next.
    pub mirror: nat,
    /// Connection-level failures of that mirror so far.
    pub failures: nat,
    /// Number of mirrors.
    pub mirrors: nat,
}

impl FetchProgress {
    /// Whether a mirror is left to ask.
    pub open spec fn active(self) -> bool {
        self.mirror < self.mirrors
    }

    /// The state in which the next mirror is asked with a full retry budget.
    pub open spec fn advanced(self) -> FetchProgress {
        FetchProgress { mirror: self.mirror + 1, failures: 0, mirrors: self.mirrors }
    }

    /// The state after `event`, for an event that is not accepted.
    pub open spec fn after(self, event: FetchEvent) -> FetchProgress {
        if !self.active() {
            self
        } else {
            match event {
                FetchEvent::Status(_) => self.advanced(),
                FetchEvent::NetworkFailure => if self.failures + 1 >= RETRY_BUDGET {
                    self.advanced()
                } else {
                    FetchProgress { failures: self.failures + 1, ..self }
                },
            }
        }
    }

    /// What the caller does in this state.
    pub open spec fn next(self) -> FetchNext {
        if self.active() {
            FetchNext::Ask(self.mirror as usize)
        } else {
            FetchNext::GiveUp
        }
    }

    /// An upper bound on the requests that can still be sent.
    pub open spec fn requests_left(self) -> int {
        RETRY_BUDGET * (self.mirrors - self.mirror) - self.failures
    }
}

/// Whether `event` ends the fetch with a result.
pub open spec fn accepted(event: FetchEvent) -> bool {
    event == FetchEvent::Status(HTTP_OK)
}

/// The position of one fetch in its list of mirrors.
#[derive(Clone, Copy, Debug)]
pub struct MirrorFetch {
    mirror: usize,
    failures: u8,
    mirrors: usize,
}

impl View for MirrorFetch {
    type V = FetchProgress;

    closed spec fn view(&self) -> FetchProgress {
        FetchProgress {
            mirror: self.mirror as nat,
            failures: self.failures as nat,
            mirrors: self.mirrors as nat,
        }
    }
}

impl MirrorFetch {
    #[verifier::type_invariant]
    spec fn inv(self) -> bool {
        self.mirror <= self.mirrors && self.failures < RETRY_BUDGET && (self.mirror == self.mirrors
            ==> self.failures == 0)
    }

    /// A fetch over `mirrors` mirrors that has sent nothing yet.
    pub fn new(mirrors: usize) -> (fetch: MirrorFetch)
        ensures
            fetch@ == (FetchProgress { mirror: 0, failures: 0, mirrors: mirrors as nat }),
    {
        MirrorFetch { mirror: 0, failures: 0, mirrors }
    }

    /// What the caller does now: ask the current mirror, or give up.
    pub fn next(&self) -> (next: FetchNext)
        ensures
            next == self@.next(),
    {
        if self.mirror < self.mirrors {
            FetchNext::Ask(self.mirror)
        } else {
            FetchNext::GiveUp
        }
    }

    /// Takes in what the last request gave and says what to do next.
    ///
    /// A status of 200 is accepted. Any other status moves to the next mirror
    /// at once, whatever the failures counted so far, and that mirror starts
    /// with a full retry budget. A connection-level failure is retried on the
    /// same mirror until the budget is spent, then the next mirror is asked.
    pub fn record(&mut self, event: FetchEvent) -> (next: FetchNext)
        ensures
            old(self)@.active() && accepted(event) ==> next == FetchNext::Accept && final(self)@
                == old(self)@,
            !(old(self)@.active() && accepted(event)) ==> final(self)@ == old(self)@.after(event)
                && next == final(self)@.next(),
            old(self)@.active() && !accepted(event) ==> final(self)@.requests_left() < old(
                self,
            )@.requests_left(),
            final(self)@.requests_left() >= 0,
    {
        proof {
            use_type_invariant(&*self);
        }
        if self.mirror >= self.mirrors {
            return FetchNext::GiveUp;
        }
        match event {
            FetchEvent::Status(code) => {
                if code == HTTP_OK {
                    return FetchNext::Accept;
                }
                *self = MirrorFetch { mirror: self.mirror + 1, failures: 0, mirrors: self.mirrors };
            },
            FetchEvent::NetworkFailure => {
                if self.failures + 1 >= RETRY_BUDGET {
                    *self = MirrorFetch {
                        mirror: self.mirror + 1,
                        failures: 0,
                        mirrors: self.mirrors,
                    };
                } else {
                    *self = MirrorFetch {
                        mirror: self.mirror,
                        failures: self.failures + 1,
                        mirrors: self.mirrors,
                    };
                }
            },
        }
        self.next()
    }
}

/// The address of `filename` on a mirror: the mirror's base address with the
/// name appended.
pub open spec fn mirror_url(base: Seq<char>, filename: Seq<char>) -> Seq<char> {
    base + filename
}

/// The address to request from the mirror with index `mirror`.
pub fn request_url(servers: &Vec<String>, mirror: usize, filename: &str) -> (url: Option<String>)
    ensures
        mirror < servers.len() ==> url is Some && url->Some_0@ == mirror_url(
            servers[mirror as int]@,
            filename@,
        ),
        mirror >= servers.len() ==> url is None,
{
    if mirror < servers.len() {
        let mut url: String = servers[mirror].clone();
        url.append(filename);
        Some(url)
    } else {
        None
    }
}

/// A status other than 200 makes the fetch fall back to the next mirror at
/// once: the failures counted on the mirror that answered play no part, and
/// the next mirror starts with its whole retry budget.
pub proof fn lemma_bad_status_falls_back_at_once(state: FetchProgress, code: u16)
    requires
        state.active(),
        code != HTTP_OK,
    ensures
        state.after(FetchEvent::Status(code)).mirror == state.mirror + 1,
        state.after(FetchEvent::Status(code)).failures == 0,
{
}

/// A connection-level failure stays on the same mirror until the third one
/// in a row, which moves on to the next mirror.
pub proof fn lemma_network_failure_is_retried(state: FetchProgress)
    requires
        state.active(),
    ensures
        state.failures + 1 < RETRY_BUDGET ==> state.after(FetchEvent::NetworkFailure).mirror
            == state.mirror && state.after(FetchEvent::NetworkFailure).failures == state.failures
            + 1,
        state.failures + 1 >= RETRY_BUDGET ==> state.after(FetchEvent::NetworkFailure)
            == state.advanced(),
{
}

} // verus!
