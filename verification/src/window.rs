//! Foreground-window sampling: log a focus change, never a repeat.

use vstd::prelude::*;
use crate::logfmt::{window_message_spec, format_window_message};
use crate::text::str_eq;

verus! {

/// One sampled foreground window.
pub struct WindowObservation {
    pub title: String,
    pub process: String,
}

/// Ghost value of one observation.
pub struct WindowObservationView {
    pub title: Seq<char>,
    pub process: Seq<char>,
}

impl View for WindowObservation {
    type V = WindowObservationView;

    open spec fn view(&self) -> WindowObservationView {
        WindowObservationView { title: self.title@, process: self.process@ }
    }
}

/// Remembers the last observation, so that two identical samples in a
/// row yield a single log line.
pub struct WindowTracker {
    pub last: Option<WindowObservation>,
}

impl View for WindowTracker {
    type V = Option<WindowObservationView>;

    open spec fn view(&self) -> Option<WindowObservationView> {
        match self.last {
            Some(ref o) => Some(o@),
            None => None,
        }
    }
}

impl WindowTracker {
    /// A fresh tracker: the first observation always logs.
    pub fn new() -> (r: Self)
        ensures
            r@ is None,
    {
        WindowTracker { last: None }
    }

    /// Records a sample. Returns the log message exactly when the
    /// observation differs from the previous one.
    pub fn observe(&mut self, title: &str, process: &str) -> (r: Option<String>)
        ensures
            final(self)@ == Some(WindowObservationView { title: title@, process: process@ }),
            match r {
                Some(m) => old(self)@ != Some(
                    WindowObservationView { title: title@, process: process@ },
                ) && m@ == window_message_spec(title@, process@),
                None => old(self)@ == Some(
                    WindowObservationView { title: title@, process: process@ },
                ),
            },
    {
        let same = match &self.last {
            Some(obs) => str_eq(obs.title.as_str(), title) && str_eq(
                obs.process.as_str(),
                process,
            ),
            None => false,
        };
        self.last = Some(
            WindowObservation { title: title.to_owned(), process: process.to_owned() },
        );
        if same {
            None
        } else {
            Some(format_window_message(title, process))
        }
    }
}

} // verus!
