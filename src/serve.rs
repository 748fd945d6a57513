//! The request flow: a state machine that decides, for one request, which
//! asynchronous step comes next and which response ends it.
//!
//! The driver performs each action (resolving a path, waiting for the
//! fallback, calling it) and hands back the event that followed.

use vstd::prelude::*;

use crate::assets::{normalize_path, normalize_path_with_index, AssetTable, ResolveError};
use crate::conditional::{evaluate, evaluation_of, Evaluation};
use crate::dates::{decode_http_date, IfModifiedSince};
use crate::headers::{header_lookup, HeaderMap, HeaderMapExt, HeaderName};
use crate::if_none_match::{decode_if_none_match, IfNoneMatch, IfNoneMatchView};
use crate::metadata::{Metadata, MetadataView};
use crate::response::{
    allow_value, empty_head, method_not_allowed, no_store_header, no_store_headers,
    not_found_response, not_modified_response, ok_headers, ok_response, server_error_response,
    BodySource, ResponseHead, ResponseHeadView, STATUS_INTERNAL_SERVER_ERROR,
    STATUS_METHOD_NOT_ALLOWED, STATUS_NOT_FOUND, STATUS_NOT_MODIFIED, STATUS_OK,
};

verus! {

/// A request's method, as far as serving assets goes.
#[derive(Clone, Copy, Debug, PartialEq, Eq, Structural)]
pub enum Method {
    Get,
    Head,
    /// Any other method; it is not allowed.
    Other,
}

/// Where a request stands.
#[derive(Clone, Copy, Debug, PartialEq, Eq, Structural)]
pub enum Phase {
    /// The asset source is resolving the path.
    AwaitingResolution,
    /// The path was not found; the fallback is getting ready.
    AwaitingFallbackReady,
    /// The fallback is answering the request.
    AwaitingFallbackResponse,
    /// The response is chosen.
    Completed,
}

/// What the driver reports back.
pub enum Event<'a> {
    /// The asset source answered.
    Resolved(Result<&'a Metadata, ResolveError>),
    /// The fallback is ready to be called.
    FallbackReady,
    /// The fallback answered.
    FallbackResponded,
}

/// What an event holds.
pub enum EventView {
    Resolved(Result<MetadataView, ResolveError>),
    FallbackReady,
    FallbackResponded,
}

impl<'a> View for Event<'a> {
    type V = EventView;

    open spec fn view(&self) -> EventView {
        match self {
            Event::Resolved(Ok(m)) => EventView::Resolved(Ok(m@)),
            Event::Resolved(Err(e)) => EventView::Resolved(Err(*e)),
            Event::FallbackReady => EventView::FallbackReady,
            Event::FallbackResponded => EventView::FallbackResponded,
        }
    }
}

/// What the driver is to do next.
pub enum Action {
    /// Resolve this normalized path with the asset source.
    Resolve(String),
    /// Wait until the fallback is ready.
    AwaitFallbackReady,
    /// Call the fallback, once, with the request and an empty body.
    CallFallback,
    /// Answer with this response; the request is done.
    Respond(ResponseHead),
    /// Answer with the fallback's response, these headers set on it; the
    /// request is done.
    ForwardFallback(HeaderMap),
    /// The event did not fit where the request stands: nothing to do.
    Ignore,
}

/// What an action holds.
pub enum ActionView {
    Resolve(Seq<char>),
    AwaitFallbackReady,
    CallFallback,
    Respond(ResponseHeadView),
    ForwardFallback(Seq<(HeaderName, Seq<u8>)>),
    Ignore,
}

impl View for Action {
    type V = ActionView;

    open spec fn view(&self) -> ActionView {
        match self {
            Action::Resolve(p) => ActionView::Resolve(p@),
            Action::AwaitFallbackReady => ActionView::AwaitFallbackReady,
            Action::CallFallback => ActionView::CallFallback,
            Action::Respond(h) => ActionView::Respond(h@),
            Action::ForwardFallback(h) => ActionView::ForwardFallback(h@),
            Action::Ignore => ActionView::Ignore,
        }
    }
}

/// What a request flow holds.
pub struct FlowView {
    pub phase: Phase,
    pub head_only: bool,
    pub request_headers: Seq<(HeaderName, Seq<u8>)>,
    pub has_fallback: bool,
}

/// The `If-None-Match` of a request: absent when missing or malformed.
pub open spec fn request_if_none_match(h: Seq<(HeaderName, Seq<u8>)>) -> Option<IfNoneMatchView> {
    match header_lookup(h, HeaderName::IfNoneMatch) {
        Some(v) => decode_if_none_match(v),
        None => None,
    }
}

/// The `If-Modified-Since` of a request: absent when missing or malformed.
pub open spec fn request_if_modified_since(h: Seq<(HeaderName, Seq<u8>)>) -> Option<u64> {
    match header_lookup(h, HeaderName::IfModifiedSince) {
        Some(v) => decode_http_date(v),
        None => None,
    }
}

/// The response to a request for a resolved asset: 304 when the client's
/// copy is still valid, else 200.
pub open spec fn asset_response(f: FlowView, m: MetadataView) -> ResponseHeadView {
    if evaluation_of(
        request_if_none_match(f.request_headers),
        request_if_modified_since(f.request_headers),
        m.etag,
        m.last_modified,
    ) == Evaluation::NotModified {
        empty_head(STATUS_NOT_MODIFIED, Seq::empty())
    } else {
        ResponseHeadView {
            status: STATUS_OK,
            headers: ok_headers(m),
            body: if f.head_only {
                BodySource::Empty
            } else {
                BodySource::Content
            },
        }
    }
}

/// One step of the flow: the next phase and the action, from the phase and
/// the event.
pub open spec fn step_spec(f: FlowView, e: EventView) -> (Phase, ActionView) {
    match (f.phase, e) {
        (Phase::AwaitingResolution, EventView::Resolved(Err(ResolveError::NotFound))) => {
            if f.has_fallback {
                (Phase::AwaitingFallbackReady, ActionView::AwaitFallbackReady)
            } else {
                (
                    Phase::Completed,
                    ActionView::Respond(empty_head(STATUS_NOT_FOUND, no_store_headers())),
                )
            }
        },
        (Phase::AwaitingResolution, EventView::Resolved(Err(ResolveError::Other))) => (
            Phase::Completed,
            ActionView::Respond(empty_head(STATUS_INTERNAL_SERVER_ERROR, no_store_headers())),
        ),
        (Phase::AwaitingResolution, EventView::Resolved(Ok(m))) => (
            Phase::Completed,
            ActionView::Respond(asset_response(f, m)),
        ),
        (Phase::AwaitingFallbackReady, EventView::FallbackReady) => (
            Phase::AwaitingFallbackResponse,
            ActionView::CallFallback,
        ),
        (Phase::AwaitingFallbackResponse, EventView::FallbackResponded) => (
            Phase::Completed,
            ActionView::ForwardFallback(no_store_headers()),
        ),
        _ => (f.phase, ActionView::Ignore),
    }
}

/// The flow of one request.
pub struct RequestFlow {
    phase: Phase,
    head_only: bool,
    request_headers: HeaderMap,
    has_fallback: bool,
}

impl View for RequestFlow {
    type V = FlowView;

    closed spec fn view(&self) -> FlowView {
        FlowView {
            phase: self.phase,
            head_only: self.head_only,
            request_headers: self.request_headers@,
            has_fallback: self.has_fallback,
        }
    }
}

impl RequestFlow {
    /// Starts a request: any method but `GET` and `HEAD` is answered 405 at
    /// once, whatever the path; otherwise the normalized path is to be resolved.
    pub fn start(
        method: Method,
        path: &str,
        request_headers: HeaderMap,
        has_fallback: bool,
        index: &str,
    ) -> (r: (RequestFlow, Action))
        ensures
            method == Method::Other ==> r.0@.phase == Phase::Completed && r.1@ == ActionView::Respond(
                empty_head(STATUS_METHOD_NOT_ALLOWED, seq![(HeaderName::Allow, allow_value())]),
            ),
            method != Method::Other ==> r.0@.phase == Phase::AwaitingResolution && r.1@
                == ActionView::Resolve(normalize_path(path@, index@)),
            r.0@.head_only == (method == Method::Head),
            r.0@.request_headers == request_headers@,
            r.0@.has_fallback == has_fallback,
    {
        let head_only = method == Method::Head;
        if method == Method::Other {
            let flow = RequestFlow {
                phase: Phase::Completed,
                head_only,
                request_headers,
                has_fallback,
            };
            return (flow, Action::Respond(method_not_allowed()));
        }
        let target = normalize_path_with_index(path, index);
        let flow = RequestFlow {
            phase: Phase::AwaitingResolution,
            head_only,
            request_headers,
            has_fallback,
        };
        (flow, Action::Resolve(target))
    }

    /// Where the request stands.
    pub fn phase(&self) -> (r: Phase)
        ensures
            r == self@.phase,
    {
        self.phase
    }

    /// Takes the next event: moves to the next phase and says what to do.
    /// A completed request takes no more events.
    pub fn step(&mut self, event: Event) -> (r: Action)
        requires
            old(self)@.phase != Phase::Completed,
        ensures
            (final(self)@.phase, r@) == step_spec(old(self)@, event@),
            final(self)@.head_only == old(self)@.head_only,
            final(self)@.request_headers == old(self)@.request_headers,
            final(self)@.has_fallback == old(self)@.has_fallback,
    {
        match (self.phase, event) {
            (Phase::AwaitingResolution, Event::Resolved(Err(ResolveError::NotFound))) => {
                if self.has_fallback {
                    self.phase = Phase::AwaitingFallbackReady;
                    Action::AwaitFallbackReady
                } else {
                    self.phase = Phase::Completed;
                    Action::Respond(not_found_response())
                }
            },
            (Phase::AwaitingResolution, Event::Resolved(Err(ResolveError::Other))) => {
                self.phase = Phase::Completed;
                Action::Respond(server_error_response())
            },
            (Phase::AwaitingResolution, Event::Resolved(Ok(metadata))) => {
                self.phase = Phase::Completed;
                Action::Respond(self.asset_response(metadata))
            },
            (Phase::AwaitingFallbackReady, Event::FallbackReady) => {
                self.phase = Phase::AwaitingFallbackResponse;
                Action::CallFallback
            },
            (Phase::AwaitingFallbackResponse, Event::FallbackResponded) => {
                self.phase = Phase::Completed;
                Action::ForwardFallback(no_store_header())
            },
            _ => Action::Ignore,
        }
    }

    /// The response for a resolved asset, after the conditional checks.
    fn asset_response(&self, metadata: &Metadata) -> (r: ResponseHead)
        ensures
            r@ == asset_response(self@, metadata@),
    {
        let if_none_match: Option<IfNoneMatch> = self.request_headers.typed_get();
        let if_modified_since: Option<IfModifiedSince> = self.request_headers.typed_get();
        match evaluate(if_none_match.as_ref(), if_modified_since.as_ref(), metadata) {
            Evaluation::NotModified => not_modified_response(),
            Evaluation::Pass => ok_response(metadata, self.head_only),
        }
    }
}

/// The actions that a flow takes over a sequence of events.
pub open spec fn run(f: FlowView, events: Seq<EventView>) -> Seq<ActionView>
    decreases events.len(),
{
    if events.len() == 0 {
        Seq::empty()
    } else {
        let (phase, action) = step_spec(f, events[0]);
        seq![action] + run(FlowView { phase, ..f }, events.drop_first())
    }
}

/// An action that ends the request.
pub open spec fn is_terminal(a: ActionView) -> bool {
    a is Respond || a is ForwardFallback
}

/// How many of `actions` call the fallback.
pub open spec fn fallback_calls(actions: Seq<ActionView>) -> nat
    decreases actions.len(),
{
    if actions.len() == 0 {
        0
    } else {
        (if actions[0] is CallFallback {
            1nat
        } else {
            0nat
        }) + fallback_calls(actions.drop_first())
    }
}

/// How many of `actions` end the request.
pub open spec fn terminal_count(actions: Seq<ActionView>) -> nat
    decreases actions.len(),
{
    if actions.len() == 0 {
        0
    } else {
        (if is_terminal(actions[0]) {
            1nat
        } else {
            0nat
        }) + terminal_count(actions.drop_first())
    }
}

/// Whatever events come, a request calls the fallback at most once and ends
/// at most once; a completed request does neither again.
pub proof fn lemma_single_outcome(f: FlowView, events: Seq<EventView>)
    ensures
        fallback_calls(run(f, events)) <= (if f.phase == Phase::AwaitingResolution || f.phase
            == Phase::AwaitingFallbackReady {
            1nat
        } else {
            0nat
        }),
        terminal_count(run(f, events)) <= (if f.phase == Phase::Completed {
            0nat
        } else {
            1nat
        }),
    decreases events.len(),
{
    if events.len() > 0 {
        let (phase, action) = step_spec(f, events[0]);
        let g = FlowView { phase, ..f };
        lemma_single_outcome(g, events.drop_first());
        let acts = run(f, events);
        assert(acts[0] == action);
        assert(acts.drop_first() =~= run(g, events.drop_first()));
    }
}

/// When the path is not found and a fallback is set, the request never gets
/// a response of its own: it can only end with the fallback's response, with
/// `Cache-Control: no-store` set on it.
pub proof fn lemma_not_found_goes_to_fallback(f: FlowView, events: Seq<EventView>)
    requires
        f.phase == Phase::AwaitingResolution,
        f.has_fallback,
        events.len() > 0,
        events[0] == EventView::Resolved(Err(ResolveError::NotFound)),
    ensures
        forall|i: int| 0 <= i < run(f, events).len() ==> !(#[trigger] run(f, events)[i] is Respond),
        forall|i: int|
            0 <= i < run(f, events).len() && (#[trigger] run(f, events)[i] is ForwardFallback)
                ==> run(f, events)[i] == ActionView::ForwardFallback(no_store_headers()),
{
    let g = FlowView { phase: Phase::AwaitingFallbackReady, ..f };
    lemma_fallback_phases(g, events.drop_first());
    assert(run(f, events) =~= seq![ActionView::AwaitFallbackReady] + run(g, events.drop_first()));
}

/// From waiting on the fallback, the only response is the fallback's.
proof fn lemma_fallback_phases(f: FlowView, events: Seq<EventView>)
    requires
        f.phase == Phase::AwaitingFallbackReady || f.phase == Phase::AwaitingFallbackResponse
            || f.phase == Phase::Completed,
    ensures
        forall|i: int| 0 <= i < run(f, events).len() ==> !(#[trigger] run(f, events)[i] is Respond),
        forall|i: int|
            0 <= i < run(f, events).len() && (#[trigger] run(f, events)[i] is ForwardFallback)
                ==> run(f, events)[i] == ActionView::ForwardFallback(no_store_headers()),
    decreases events.len(),
{
    if events.len() > 0 {
        let (phase, action) = step_spec(f, events[0]);
        let g = FlowView { phase, ..f };
        lemma_fallback_phases(g, events.drop_first());
        let acts = run(f, events);
        assert(acts =~= seq![action] + run(g, events.drop_first()));
        assert forall|i: int| 0 <= i < acts.len() implies !(#[trigger] acts[i] is Respond) by {
            if i > 0 {
                assert(acts[i] == run(g, events.drop_first())[i - 1]);
            }
        }
        assert forall|i: int| 0 <= i < acts.len() && (#[trigger] acts[i] is ForwardFallback) implies acts[i]
            == ActionView::ForwardFallback(no_store_headers()) by {
            if i > 0 {
                assert(acts[i] == run(g, events.drop_first())[i - 1]);
            }
        }
    }
}

/// A custom page to answer with when a path is not found.
pub struct NotFoundPage {
    page: String,
}

impl NotFoundPage {
    /// The page at `page`.
    pub fn new(page: String) -> (r: NotFoundPage)
        ensures
            r.page_path()@ == page@,
    {
        NotFoundPage { page }
    }

    /// The path of the page.
    pub closed spec fn page_path(&self) -> String {
        self.page
    }

    /// The path of the page.
    pub fn page(&self) -> (r: &str)
        ensures
            r@ == self.page_path()@,
    {
        self.page.as_str()
    }

    /// Starts answering a request with the page, whatever its method: the
    /// page is resolved like a request path, with no further fallback.
    pub fn start(&self, method: Method, request_headers: HeaderMap, index: &str) -> (r: (
        RequestFlow,
        Action,
    ))
        ensures
            r.0@.phase == Phase::AwaitingResolution,
            r.1@ == ActionView::Resolve(normalize_path(self.page_path()@, index@)),
            r.0@.head_only == (method == Method::Head),
            r.0@.request_headers == request_headers@,
            !r.0@.has_fallback,
    {
        let flow = RequestFlow {
            phase: Phase::AwaitingResolution,
            head_only: method == Method::Head,
            request_headers,
            has_fallback: false,
        };
        (flow, Action::Resolve(normalize_path_with_index(self.page.as_str(), index)))
    }
}

/// Builds a not-found page from an asset source.
pub trait EmbedExt: Sized {
    /// A not-found page served from the asset at `path`.
    fn not_found_page(path: &str) -> (r: NotFoundPage)
        ensures
            r.page_path()@ == path@,
    ;
}

impl EmbedExt for AssetTable {
    fn not_found_page(path: &str) -> (r: NotFoundPage) {
        NotFoundPage::new(<String as vstd::string::StringExecFns>::from_str(path))
    }
}

} // verus!
