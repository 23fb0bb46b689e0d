//! The per-request delivery state machine.
//!
//! Each request walks cache lookup, acquisition, upload, cache recording and
//! cleanup in a fixed order, with a terminal failure state reachable from
//! resolution, acquisition and upload. The machine makes every decision
//! itself — including link resolution, which happens inside the `Begin`
//! step — and hands the driver a list of actions to perform; the driver
//! reports each outcome back as an event. Actions returned together are
//! independent and may run concurrently.

use vstd::prelude::*;
use crate::download::{resolve, resolve_spec, Error, Media, MediaKind, MediaV};
use crate::strutil::{trim, trim_spec};

verus! {

/// Where a request currently stands.
pub enum Step {
    /// Nothing has happened yet; awaiting the raw link.
    Start,
    /// The link resolved to this canonical URI; awaiting the cache answer.
    CacheLookup { uri: String },
    /// The cache held an identifier: delivery by reference and cleanup are
    /// in flight, concurrently.
    CacheHit { uri: String, id: String },
    /// The cache missed; acquisition is in flight.
    Acquire { uri: String },
    /// Acquisition succeeded; the upload is in flight.
    Upload { uri: String },
    /// The upload yielded a fresh identifier; recording it is in flight.
    RecordCache { uri: String, id: String },
    /// The in-progress indicator is being removed.
    Cleanup,
    /// The request completed.
    Done,
    /// The request failed with a pipeline error; the user was told why.
    Failed { error: Error },
    /// A transport failure ended the request; the in-progress indicator is
    /// deliberately left in place for diagnosis.
    Aborted,
}

/// What the driver reports back to the machine.
pub enum Event {
    /// A request arrived with this raw user text.
    Begin { raw: String },
    /// The cache lookup finished, with the cached identifier if any.
    Looked { cached: Option<String> },
    /// The acquisition finished.
    Acquired { result: Result<Media, Error> },
    /// The upload finished, with the fresh destination identifier on
    /// success.
    Uploaded { id: Option<String> },
    /// The by-reference delivery (and its concurrent cleanup) finished.
    Delivered { ok: bool },
    /// The fresh identifier was recorded in the cache.
    Recorded,
    /// The in-progress indicator was removed.
    Cleaned,
}

/// What the driver is asked to do next.
pub enum Action {
    /// Tell the user how to invoke the command; no link was provided.
    ShowUsage,
    /// Create the in-progress indicator.
    ShowProgress,
    /// Ask the cache for this canonical URI.
    Lookup { uri: String },
    /// Run the two-phase acquisition for this canonical URI.
    AcquireMedia { uri: String },
    /// Transfer this handle's bytes and filename to the destination.
    UploadMedia { media: Media },
    /// Re-deliver by reference: no data transfer.
    DeliverByReference { id: String },
    /// Record the fresh identifier under the canonical URI.
    RecordEntry { uri: String, id: String },
    /// Remove the in-progress indicator.
    RemoveIndicator,
    /// Replace the in-progress indicator with the message for this error.
    Report { error: Error },
}

pub enum StepV {
    Start,
    CacheLookup { uri: Seq<char> },
    CacheHit { uri: Seq<char>, id: Seq<char> },
    Acquire { uri: Seq<char> },
    Upload { uri: Seq<char> },
    RecordCache { uri: Seq<char>, id: Seq<char> },
    Cleanup,
    Done,
    Failed { error: Error },
    Aborted,
}

pub enum EventV {
    Begin { raw: Seq<char> },
    Looked { cached: Option<Seq<char>> },
    Acquired { result: Result<MediaV, Error> },
    Uploaded { id: Option<Seq<char>> },
    Delivered { ok: bool },
    Recorded,
    Cleaned,
}

pub enum ActionV {
    ShowUsage,
    ShowProgress,
    Lookup { uri: Seq<char> },
    AcquireMedia { uri: Seq<char> },
    UploadMedia { media: MediaV },
    DeliverByReference { id: Seq<char> },
    RecordEntry { uri: Seq<char>, id: Seq<char> },
    RemoveIndicator,
    Report { error: Error },
}

impl View for Step {
    type V = StepV;

    open spec fn view(&self) -> StepV {
        match *self {
            Step::Start => StepV::Start,
            Step::CacheLookup { uri } => StepV::CacheLookup { uri: uri@ },
            Step::CacheHit { uri, id } => StepV::CacheHit { uri: uri@, id: id@ },
            Step::Acquire { uri } => StepV::Acquire { uri: uri@ },
            Step::Upload { uri } => StepV::Upload { uri: uri@ },
            Step::RecordCache { uri, id } => StepV::RecordCache { uri: uri@, id: id@ },
            Step::Cleanup => StepV::Cleanup,
            Step::Done => StepV::Done,
            Step::Failed { error } => StepV::Failed { error },
            Step::Aborted => StepV::Aborted,
        }
    }
}

impl View for Event {
    type V = EventV;

    open spec fn view(&self) -> EventV {
        match *self {
            Event::Begin { raw } => EventV::Begin { raw: raw@ },
            Event::Looked { cached } => EventV::Looked {
                cached: match cached {
                    Some(id) => Some(id@),
                    None => None,
                },
            },
            Event::Acquired { result } => EventV::Acquired {
                result: match result {
                    Ok(media) => Ok(media@),
                    Err(e) => Err(e),
                },
            },
            Event::Uploaded { id } => EventV::Uploaded {
                id: match id {
                    Some(id) => Some(id@),
                    None => None,
                },
            },
            Event::Delivered { ok } => EventV::Delivered { ok },
            Event::Recorded => EventV::Recorded,
            Event::Cleaned => EventV::Cleaned,
        }
    }
}

impl View for Action {
    type V = ActionV;

    open spec fn view(&self) -> ActionV {
        match *self {
            Action::ShowUsage => ActionV::ShowUsage,
            Action::ShowProgress => ActionV::ShowProgress,
            Action::Lookup { uri } => ActionV::Lookup { uri: uri@ },
            Action::AcquireMedia { uri } => ActionV::AcquireMedia { uri: uri@ },
            Action::UploadMedia { media } => ActionV::UploadMedia { media: media@ },
            Action::DeliverByReference { id } => ActionV::DeliverByReference { id: id@ },
            Action::RecordEntry { uri, id } => ActionV::RecordEntry { uri: uri@, id: id@ },
            Action::RemoveIndicator => ActionV::RemoveIndicator,
            Action::Report { error } => ActionV::Report { error },
        }
    }
}

impl DeepView for Action {
    type V = ActionV;

    open spec fn deep_view(&self) -> ActionV {
        self.view()
    }
}

/// The transition relation of the machine: for a step and an event, the
/// next step and the actions the driver must now perform. An event that the
/// current step does not expect changes nothing and asks for nothing.
pub open spec fn step_spec(s: StepV, e: EventV) -> (StepV, Seq<ActionV>) {
    match (s, e) {
        (StepV::Start, EventV::Begin { raw }) => {
            let link = trim_spec(raw);
            if link.len() == 0 {
                (StepV::Failed { error: Error::InvalidLink }, seq![ActionV::ShowUsage])
            } else {
                match resolve_spec(link) {
                    Some(uri) => (
                        StepV::CacheLookup { uri },
                        seq![ActionV::ShowProgress, ActionV::Lookup { uri }],
                    ),
                    None => (
                        StepV::Failed { error: Error::InvalidLink },
                        seq![
                            ActionV::ShowProgress,
                            ActionV::Report { error: Error::InvalidLink },
                        ],
                    ),
                }
            }
        },
        (StepV::CacheLookup { uri }, EventV::Looked { cached }) => match cached {
            Some(id) => (
                StepV::CacheHit { uri, id },
                seq![ActionV::DeliverByReference { id }, ActionV::RemoveIndicator],
            ),
            None => (StepV::Acquire { uri }, seq![ActionV::AcquireMedia { uri }]),
        },
        (StepV::CacheHit { uri, id }, EventV::Delivered { ok }) => (
            if ok {
                StepV::Done
            } else {
                StepV::Aborted
            },
            Seq::empty(),
        ),
        (StepV::Acquire { uri }, EventV::Acquired { result }) => match result {
            Ok(media) => (StepV::Upload { uri }, seq![ActionV::UploadMedia { media }]),
            Err(error) => (StepV::Failed { error }, seq![ActionV::Report { error }]),
        },
        (StepV::Upload { uri }, EventV::Uploaded { id }) => match id {
            Some(id) => (
                StepV::RecordCache { uri, id },
                seq![ActionV::RecordEntry { uri, id }],
            ),
            None => (StepV::Aborted, Seq::empty()),
        },
        (StepV::RecordCache { uri, id }, EventV::Recorded) => (
            StepV::Cleanup,
            seq![ActionV::RemoveIndicator],
        ),
        (StepV::Cleanup, EventV::Cleaned) => (StepV::Done, Seq::empty()),
        (s, _) => (s, Seq::empty()),
    }
}

fn transition(cur: Step, event: Event) -> (r: (Step, Vec<Action>))
    ensures
        (r.0@, r.1.deep_view()) == step_spec(cur@, event@),
{
    let ghost sv = cur@;
    let ghost ev = event@;
    match (cur, event) {
        (Step::Start, Event::Begin { raw }) => {
            let link = trim(raw.as_str());
            if link.unicode_len() == 0 {
                let mut acts: Vec<Action> = Vec::new();
                acts.push(Action::ShowUsage);
                proof {
                    assert(acts.deep_view() =~= step_spec(sv, ev).1);
                }
                (Step::Failed { error: Error::InvalidLink }, acts)
            } else {
                match resolve(link) {
                    Ok(input) => {
                        let uri = input.uri().clone();
                        let mut acts: Vec<Action> = Vec::new();
                        acts.push(Action::ShowProgress);
                        acts.push(Action::Lookup { uri: uri.clone() });
                        proof {
                            assert(acts.deep_view() =~= step_spec(sv, ev).1);
                        }
                        (Step::CacheLookup { uri }, acts)
                    },
                    Err(error) => {
                        let mut acts: Vec<Action> = Vec::new();
                        acts.push(Action::ShowProgress);
                        acts.push(Action::Report { error });
                        proof {
                            assert(acts.deep_view() =~= step_spec(sv, ev).1);
                        }
                        (Step::Failed { error }, acts)
                    },
                }
            }
        },
        (Step::CacheLookup { uri }, Event::Looked { cached }) => match cached {
            Some(id) => {
                let mut acts: Vec<Action> = Vec::new();
                acts.push(Action::DeliverByReference { id: id.clone() });
                acts.push(Action::RemoveIndicator);
                proof {
                    assert(acts.deep_view() =~= step_spec(sv, ev).1);
                }
                (Step::CacheHit { uri, id }, acts)
            },
            None => {
                let mut acts: Vec<Action> = Vec::new();
                acts.push(Action::AcquireMedia { uri: uri.clone() });
                proof {
                    assert(acts.deep_view() =~= step_spec(sv, ev).1);
                }
                (Step::Acquire { uri }, acts)
            },
        },
        (Step::CacheHit { uri: _, id: _ }, Event::Delivered { ok }) => {
            let next = if ok {
                Step::Done
            } else {
                Step::Aborted
            };
            let acts: Vec<Action> = Vec::new();
            proof {
                assert(acts.deep_view() =~= step_spec(sv, ev).1);
            }
            (next, acts)
        },
        (Step::Acquire { uri }, Event::Acquired { result }) => match result {
            Ok(media) => {
                let mut acts: Vec<Action> = Vec::new();
                acts.push(Action::UploadMedia { media });
                proof {
                    assert(acts.deep_view() =~= step_spec(sv, ev).1);
                }
                (Step::Upload { uri }, acts)
            },
            Err(error) => {
                let mut acts: Vec<Action> = Vec::new();
                acts.push(Action::Report { error });
                proof {
                    assert(acts.deep_view() =~= step_spec(sv, ev).1);
                }
                (Step::Failed { error }, acts)
            },
        },
        (Step::Upload { uri }, Event::Uploaded { id }) => match id {
            Some(id) => {
                let mut acts: Vec<Action> = Vec::new();
                acts.push(Action::RecordEntry { uri: uri.clone(), id: id.clone() });
                proof {
                    assert(acts.deep_view() =~= step_spec(sv, ev).1);
                }
                (Step::RecordCache { uri, id }, acts)
            },
            None => {
                let acts: Vec<Action> = Vec::new();
                proof {
                    assert(acts.deep_view() =~= step_spec(sv, ev).1);
                }
                (Step::Aborted, acts)
            },
        },
        (Step::RecordCache { uri: _, id: _ }, Event::Recorded) => {
            let mut acts: Vec<Action> = Vec::new();
            acts.push(Action::RemoveIndicator);
            proof {
                assert(acts.deep_view() =~= step_spec(sv, ev).1);
            }
            (Step::Cleanup, acts)
        },
        (Step::Cleanup, Event::Cleaned) => {
            let acts: Vec<Action> = Vec::new();
            proof {
                assert(acts.deep_view() =~= step_spec(sv, ev).1);
            }
            (Step::Done, acts)
        },
        (other, _) => {
            let acts: Vec<Action> = Vec::new();
            proof {
                assert(acts.deep_view() =~= step_spec(sv, ev).1);
            }
            (other, acts)
        },
    }
}

pub open spec fn usage_message_spec(kind: MediaKind) -> Seq<char> {
    match kind {
        MediaKind::Video => "No link provided\nAn example of using the command:\n\t/video https://www.youtube.com/watch?v=dQw4w9WgXcQ"@,
        MediaKind::Audio => "No link provided\nAn example of using the command:\n\t/audio https://www.youtube.com/watch?v=dQw4w9WgXcQ"@,
    }
}

/// The usage hint shown when a command arrives without a link.
pub fn usage_message(kind: MediaKind) -> (r: &'static str)
    ensures
        r@ == usage_message_spec(kind),
{
    match kind {
        MediaKind::Video => "No link provided\nAn example of using the command:\n\t/video https://www.youtube.com/watch?v=dQw4w9WgXcQ",
        MediaKind::Audio => "No link provided\nAn example of using the command:\n\t/audio https://www.youtube.com/watch?v=dQw4w9WgXcQ",
    }
}

pub open spec fn progress_message_spec(kind: MediaKind) -> Seq<char> {
    match kind {
        MediaKind::Video => "Downloading video..."@,
        MediaKind::Audio => "Downloading audio..."@,
    }
}

/// The text of the in-progress indicator.
pub fn progress_message(kind: MediaKind) -> (r: &'static str)
    ensures
        r@ == progress_message_spec(kind),
{
    match kind {
        MediaKind::Video => "Downloading video...",
        MediaKind::Audio => "Downloading audio...",
    }
}

pub open spec fn user_message_spec(kind: MediaKind, error: Error) -> Seq<char> {
    match error {
        Error::TooLarge => match kind {
            MediaKind::Video => "The video is too large"@,
            MediaKind::Audio => "The track is too large"@,
        },
        Error::IsStream => "Live streams can't be downloaded while they're ongoing"@,
        Error::NotFound | Error::InvalidLink => "The provided link doesn't point to an existing video/track.\nMake sure the link is copied correctly and try again.\nKeep in mind that shortened links are not accepted."@,
        Error::MetadataFetchFailed | Error::DataFetchFailed => "An unexpected error occured while downloading"@,
    }
}

/// The short human-readable message for each error kind, one to one: this
/// is the single point that maps failures to user-facing text.
pub fn user_message(kind: MediaKind, error: Error) -> (r: &'static str)
    ensures
        r@ == user_message_spec(kind, error),
{
    match error {
        Error::TooLarge => match kind {
            MediaKind::Video => "The video is too large",
            MediaKind::Audio => "The track is too large",
        },
        Error::IsStream => "Live streams can't be downloaded while they're ongoing",
        Error::NotFound | Error::InvalidLink => "The provided link doesn't point to an existing video/track.\nMake sure the link is copied correctly and try again.\nKeep in mind that shortened links are not accepted.",
        Error::MetadataFetchFailed | Error::DataFetchFailed => "An unexpected error occured while downloading",
    }
}

/// On a cache hit, the machine asks for the by-reference delivery and the
/// indicator removal together — they may run concurrently — and never for
/// an acquisition or a data-bearing upload: a hit blocks on no download.
pub proof fn lemma_cache_hit_no_download(uri: Seq<char>, id: Seq<char>)
    ensures
        ({
            let (next, acts) = step_spec(
                StepV::CacheLookup { uri },
                EventV::Looked { cached: Some(id) },
            );
            &&& next == StepV::CacheHit { uri, id }
            &&& acts == seq![
                ActionV::DeliverByReference { id },
                ActionV::RemoveIndicator,
            ]
            &&& forall|i: int|
                0 <= i < acts.len() ==> !(acts[i] is AcquireMedia) && !(acts[i] is UploadMedia)
        }),
{
}

/// A data-bearing upload is asked for only when an acquisition has just
/// succeeded: on the miss path, upload strictly follows acquisition.
pub proof fn lemma_upload_follows_acquisition(s: StepV, e: EventV)
    ensures
        forall|i: int|
            #![auto]
            0 <= i < step_spec(s, e).1.len() && step_spec(s, e).1[i] is UploadMedia ==> s
                is Acquire && e matches EventV::Acquired { result: Ok(_) },
{
}

/// A cache entry is recorded only when an acquisition-path upload has just
/// succeeded, and the identifier recorded is exactly the one the transport
/// returned, under the canonical URI: a failed acquisition or upload never
/// mutates the cache.
pub proof fn lemma_record_follows_upload(s: StepV, e: EventV)
    ensures
        forall|i: int|
            0 <= i < step_spec(s, e).1.len() ==> ((#[trigger] step_spec(s, e).1[i]) matches
                ActionV::RecordEntry { uri, id } ==> s == (StepV::Upload { uri }) && e == (
            EventV::Uploaded { id: Some(id) })),
{
}

/// On the miss path the indicator is removed only after the fresh
/// identifier was recorded; a failure mid-upload leaves it in place.
pub proof fn lemma_cleanup_follows_record(s: StepV, e: EventV)
    ensures
        s is Acquire || s is Upload ==> forall|i: int|
            #![auto]
            0 <= i < step_spec(s, e).1.len() ==> !(step_spec(s, e).1[i] is RemoveIndicator),
{
}

/// One in-flight request: the requested media kind and where the request
/// stands.
pub struct Delivery {
    /// The media kind this request asked for.
    pub kind: MediaKind,
    /// Where the request stands; advanced only by [`Delivery::on_event`].
    pub step: Step,
}

impl Delivery {
    pub open spec fn step_view(self) -> StepV {
        self.step@
    }

    /// A fresh request for one media kind.
    pub fn new(kind: MediaKind) -> (r: Delivery)
        ensures
            r.kind == kind,
            r.step_view() == StepV::Start,
    {
        Delivery { kind, step: Step::Start }
    }

    /// Feed one event into the machine; what comes back is the list of
    /// actions the driver must now perform.
    pub fn on_event(&mut self, event: Event) -> (acts: Vec<Action>)
        ensures
            final(self).kind == old(self).kind,
            (final(self).step_view(), acts.deep_view()) == step_spec(
                old(self).step_view(),
                event@,
            ),
    {
        let mut cur = Step::Start;
        core::mem::swap(&mut self.step, &mut cur);
        let (next, acts) = transition(cur, event);
        self.step = next;
        acts
    }
}

} // verus!
