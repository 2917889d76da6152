//! The structured events that the log lines carry.

use vstd::prelude::*;

verus! {

/// The browser family a visit was read from.
#[derive(Clone, Copy, PartialEq, Eq, Structural, Debug)]
pub enum BrowserKind {
    Chromium,
    Firefox,
}

/// Ghost value of one event payload.
pub enum EventDataView {
    Window { window_title: Seq<char>, process_name: Seq<char> },
    Browser { browser: BrowserKind, title: Seq<char>, url: Seq<char> },
}

/// Ghost value of one structured event.
pub struct SyncEventView {
    pub timestamp: Seq<char>,
    pub data: EventDataView,
}

/// One event payload: a window focus or a browser visit.
#[derive(Debug)]
pub enum EventData {
    Window { window_title: String, process_name: String },
    Browser { browser: BrowserKind, title: String, url: String },
}

/// One structured event, rebuilt from a log line.
#[derive(Debug)]
pub struct SyncEvent {
    pub timestamp: String,
    pub data: EventData,
}

impl View for EventData {
    type V = EventDataView;

    open spec fn view(&self) -> EventDataView {
        match self {
            EventData::Window { window_title, process_name } => EventDataView::Window {
                window_title: window_title@,
                process_name: process_name@,
            },
            EventData::Browser { browser, title, url } => EventDataView::Browser {
                browser: *browser,
                title: title@,
                url: url@,
            },
        }
    }
}

impl View for SyncEvent {
    type V = SyncEventView;

    open spec fn view(&self) -> SyncEventView {
        SyncEventView { timestamp: self.timestamp@, data: self.data@ }
    }
}

/// The view of an optional event, for relating parser output to its spec.
pub open spec fn opt_event_view(r: Option<SyncEvent>) -> Option<SyncEventView> {
    match r {
        Some(e) => Some(e@),
        None => None,
    }
}

} // verus!
