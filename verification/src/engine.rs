use vstd::prelude::*;

verus! {

/// What polling a `YieldNow` decides.
#[derive(Clone, Copy, Debug, PartialEq, Eq, Structural)]
pub enum YieldPoll {
    /// Not ready yet; the task is to be woken at once.
    PendingWake,
    Ready,
}

/// A future that yields to the executor once before completing.
#[derive(Debug)]
pub struct YieldNow {
    yielded: bool,
}

impl YieldNow {
    /// Whether it has yielded already.
    pub closed spec fn has_yielded(&self) -> bool {
        self.yielded
    }

    /// Decides one poll: the first is pending and asks for a wake-up, later ones are ready.
    pub fn poll(&mut self) -> (r: YieldPoll)
        ensures
            final(self).has_yielded(),
            r == (if old(self).has_yielded() { YieldPoll::Ready } else { YieldPoll::PendingWake }),
    {
        if !self.yielded {
            self.yielded = true;
            YieldPoll::PendingWake
        } else {
            YieldPoll::Ready
        }
    }
}

/// A future that has not yielded yet.
pub fn yield_now() -> (r: YieldNow)
    ensures
        !r.has_yielded(),
{
    YieldNow { yielded: false }
}

/// What one poll of the application's future gave.
#[derive(Clone, Copy, Debug, PartialEq, Eq, Structural)]
pub enum AppPoll<T> {
    Ready(T),
    Pending,
}

/// What the event loop does after polling the application.
#[derive(Clone, Copy, Debug, PartialEq, Eq, Structural)]
pub enum AppWait<T> {
    /// The application finished with this result.
    Finished(T),
    /// The application waits for the next event: hand it one.
    WaitsForEvent,
    /// The application waits for something else: keep polling.
    Pending,
}

/// Decides one poll of the application: a finished application is done; a
/// pending one is handed back to the event loop when it waits for an event.
pub fn app_event_wait<T>(poll: AppPoll<T>, waiting_for_event: bool) -> (r: AppWait<T>)
    ensures
        r == (match poll {
            AppPoll::Ready(result) => AppWait::Finished(result),
            AppPoll::Pending => if waiting_for_event { AppWait::WaitsForEvent } else { AppWait::Pending },
        }),
{
    match poll {
        AppPoll::Ready(result) => AppWait::Finished(result),
        AppPoll::Pending => if waiting_for_event { AppWait::WaitsForEvent } else { AppWait::Pending },
    }
}

} // verus!
