//! The two shapes of an event: as it arrives, and once it has been checked.

use vstd::prelude::*;

verus! {

/// An event as read from the input, every field optional.
///
/// `payload` holds the payload as compact JSON text, or `None` where the input
/// had no payload (or a JSON `null`).
#[derive(Debug)]
pub struct RawEvent {
    pub event_id: Option<String>,
    pub ts: Option<String>,
    pub source: Option<String>,
    pub event_name: Option<String>,
    pub user_id: Option<u64>,
    pub payload: Option<String>,
}

/// The abstract value of a [`RawEvent`]: its texts as character sequences.
pub struct RawEventView {
    pub event_id: Option<Seq<char>>,
    pub ts: Option<Seq<char>>,
    pub source: Option<Seq<char>>,
    pub event_name: Option<Seq<char>>,
    pub user_id: Option<u64>,
    pub payload: Option<Seq<char>>,
}

impl View for RawEvent {
    type V = RawEventView;

    open spec fn view(&self) -> RawEventView {
        RawEventView {
            event_id: self.event_id.deep_view(),
            ts: self.ts.deep_view(),
            source: self.source.deep_view(),
            event_name: self.event_name.deep_view(),
            user_id: self.user_id,
            payload: self.payload.deep_view(),
        }
    }
}

/// An event that passed validation: `event_id`, `ts` and `source` are present
/// and not blank, `event_name` is not blank (or empty where the event had
/// none), the payload is filled in (with `null` where there was none), and
/// `event_hash` identifies the event for deduplication.
#[derive(Debug)]
pub struct NormalizedEvent {
    pub event_id: String,
    pub ts: String,
    pub source: String,
    pub event_name: String,
    pub user_id: Option<u64>,
    /// The payload as compact JSON text.
    pub payload: String,
    pub event_hash: u64,
}

/// The abstract value of a [`NormalizedEvent`].
pub struct NormalizedEventView {
    pub event_id: Seq<char>,
    pub ts: Seq<char>,
    pub source: Seq<char>,
    pub event_name: Seq<char>,
    pub user_id: Option<u64>,
    pub payload: Seq<char>,
    pub event_hash: u64,
}

impl View for NormalizedEvent {
    type V = NormalizedEventView;

    open spec fn view(&self) -> NormalizedEventView {
        NormalizedEventView {
            event_id: self.event_id@,
            ts: self.ts@,
            source: self.source@,
            event_name: self.event_name@,
            user_id: self.user_id,
            payload: self.payload@,
            event_hash: self.event_hash,
        }
    }
}

impl NormalizedEventView {
    /// The raw event that carries exactly this event's fields.
    pub open spec fn to_raw(self) -> RawEventView {
        RawEventView {
            event_id: Some(self.event_id),
            ts: Some(self.ts),
            source: Some(self.source),
            event_name: Some(self.event_name),
            user_id: self.user_id,
            payload: Some(self.payload),
        }
    }
}

} // verus!
