//! A record/replay layer for callers that make HTTP requests themselves: it answers
//! requests from the cassette and records the responses it is given.

use vstd::prelude::*;
use crate::cassette::types::{
    Cassette, ErrorView, Interaction, InteractionView, RecordedError, RecordedRequest, RecordedResponse,
    RequestView, ResponseView, interactions_view,
};
use crate::cassette::Timestamp;
use crate::client::resolve_cassette_path;
use crate::clock::{Nanos, now, span_of_duration};
use crate::error::Error;
use crate::filter::{
    RequestFilterRule, ResponseFilterRule, apply_request_filters, apply_response_filters, request_chain,
    request_chain_specified, response_chain, response_chain_specified,
};
use crate::matcher::{AllMatcher, Matcher};
use crate::mode::Mode;
use crate::playback::{expired, is_expired, recorded_error_to_error, replays_error};
use crate::text::owned;

verus! {

/// What replay found for a request.
pub enum PlaybackResult {
    /// A recorded response.
    Response(RecordedResponse),
    /// A recorded error.
    Error(RecordedError),
}

impl Clone for PlaybackResult {
    fn clone(&self) -> (r: Self)
        ensures
            match (*self, r) {
                (PlaybackResult::Response(a), PlaybackResult::Response(b)) => a@ == b@,
                (PlaybackResult::Error(a), PlaybackResult::Error(b)) => a@ == b@,
                _ => false,
            },
    {
        match self {
            PlaybackResult::Response(x) => PlaybackResult::Response(x.clone()),
            PlaybackResult::Error(x) => PlaybackResult::Error(x.clone()),
        }
    }
}

/// The interaction replay settles on, from `start` on: the first accepted one that is
/// expired (`true`) or holds a response or an error (`false`); accepted interactions
/// holding neither are passed over.
pub open spec fn layer_lookup<M: Matcher + ?Sized>(
    m: &M,
    s: Seq<InteractionView>,
    req: RequestView,
    max_age: Option<Nanos>,
    now: Timestamp,
    start: int,
) -> Option<(int, bool)>
    decreases s.len() - start,
{
    if start < 0 || start >= s.len() {
        None
    } else if m.spec_matches(s[start].request, req) {
        if is_expired(s[start].recorded_at, max_age, now) {
            Some((start, true))
        } else if s[start].response is Some || s[start].error is Some {
            Some((start, false))
        } else {
            layer_lookup(m, s, req, max_age, now, start + 1)
        }
    } else {
        layer_lookup(m, s, req, max_age, now, start + 1)
    }
}

/// Whether `r` is what replay gives for the interaction it settles on: nothing, an
/// expiry error, the response (preferred), or the recorded error.
pub open spec fn try_playback_outcome(
    s: Seq<InteractionView>,
    found: Option<(int, bool)>,
    max_age: Option<Nanos>,
    r: Result<Option<PlaybackResult>, Error>,
) -> bool {
    match found {
        None => r matches Ok(None),
        Some((i, true)) => r matches Err(Error::CassetteExpired { recorded_at, max_age: m }) && recorded_at
            == s[i].recorded_at && max_age == Some(m),
        Some((i, false)) => match s[i].response {
            Some(rv) => r matches Ok(Some(PlaybackResult::Response(x))) && x@ == rv,
            None => match s[i].error {
                Some(ev) => r matches Ok(Some(PlaybackResult::Error(x))) && x@ == ev,
                None => false,
            },
        },
    }
}

/// Whether `r` is what the layer finds in one interaction at `now`: its expiry error
/// when it has expired, otherwise its response, or else its recorded error.
pub open spec fn layer_answer_of(iv: InteractionView, max_age: Option<Nanos>, now: Timestamp, r: Result<
    Option<PlaybackResult>,
    Error,
>) -> bool {
    if is_expired(iv.recorded_at, max_age, now) {
        r matches Err(Error::CassetteExpired { recorded_at, max_age: a }) && recorded_at == iv.recorded_at
            && max_age == Some(a)
    } else {
        match iv.response {
            Some(rv) => r matches Ok(Some(PlaybackResult::Response(x))) && x@ == rv,
            None => match iv.error {
                Some(ev) => r matches Ok(Some(PlaybackResult::Error(x))) && x@ == ev,
                None => false,
            },
        }
    }
}

/// Whether `r` comes from the cassette whatever the matcher decides: nothing found, or
/// what one of the interactions gives at `now`.
pub open spec fn layer_answered_from(s: Seq<InteractionView>, max_age: Option<Nanos>, now: Timestamp, r: Result<
    Option<PlaybackResult>,
    Error,
>) -> bool {
    r matches Ok(None) || exists|i: int| 0 <= i < s.len() && #[trigger] layer_answer_of(s[i], max_age, now, r)
}

/// Whether `r` is how the layer answers `req` at `now` in replay or auto mode: for the
/// interaction found (see `layer_lookup`), its expiry error, its response, or its
/// replayed error; when none is found, `NoMatch` in replay mode and `None` (forward it)
/// in auto mode.
pub open spec fn request_outcome<M: Matcher + ?Sized>(
    m: &M,
    s: Seq<InteractionView>,
    req: RequestView,
    max_age: Option<Nanos>,
    mode: Mode,
    now: Timestamp,
    r: Result<Option<RecordedResponse>, Error>,
) -> bool {
    match layer_lookup(m, s, req, max_age, now, 0) {
        None => if mode == Mode::Replay {
            r matches Err(Error::NoMatch)
        } else {
            r matches Ok(None)
        },
        Some((i, true)) => r matches Err(Error::CassetteExpired { recorded_at, max_age: a }) && recorded_at
            == s[i].recorded_at && max_age == Some(a),
        Some((i, false)) => match s[i].response {
            Some(rv) => r matches Ok(Some(x)) && x@ == rv,
            None => match s[i].error {
                Some(ev) => r matches Err(err) && replays_error(ev, err),
                None => false,
            },
        },
    }
}

/// The layer: a mode, a cassette, a matcher, filters and an expiry.
pub struct MockingbirdLayer<M: Matcher> {
    mode: Mode,
    cassette_path: String,
    cassette: Cassette,
    matcher: M,
    request_filters: Vec<RequestFilterRule>,
    response_filters: Vec<ResponseFilterRule>,
    expiration: Option<Nanos>,
}

impl MockingbirdLayer<AllMatcher> {
    /// A builder for a layer in replay mode.
    pub fn playback(cassette_path: &str) -> (b: LayerBuilder<AllMatcher>)
        ensures
            b.mode_spec() == Mode::Replay,
            b.cassette_path_spec() == cassette_path@,
    {
        LayerBuilder::new(cassette_path).mode(Mode::Replay)
    }

    /// A builder for a layer in record mode.
    pub fn record(cassette_path: &str) -> (b: LayerBuilder<AllMatcher>)
        ensures
            b.mode_spec() == Mode::Record,
            b.cassette_path_spec() == cassette_path@,
    {
        LayerBuilder::new(cassette_path).mode(Mode::Record)
    }

    /// A builder for a layer in auto mode.
    pub fn auto(cassette_path: &str) -> (b: LayerBuilder<AllMatcher>)
        ensures
            b.mode_spec() == Mode::Auto,
            b.cassette_path_spec() == cassette_path@,
    {
        LayerBuilder::new(cassette_path).mode(Mode::Auto)
    }
}

impl<M: Matcher> MockingbirdLayer<M> {
    /// The mode.
    pub closed spec fn mode_spec(&self) -> Mode {
        self.mode
    }

    /// The recorded interactions, as views.
    pub closed spec fn entries(&self) -> Seq<InteractionView> {
        interactions_view(self.cassette.interactions@)
    }

    /// The matcher.
    pub closed spec fn matcher_spec(&self) -> &M {
        &self.matcher
    }

    /// The request filters.
    pub closed spec fn request_filters_spec(&self) -> Seq<RequestFilterRule> {
        self.request_filters@
    }

    /// The response filters.
    pub closed spec fn response_filters_spec(&self) -> Seq<ResponseFilterRule> {
        self.response_filters@
    }

    /// The expiry.
    pub closed spec fn expiration_spec(&self) -> Option<Nanos> {
        self.expiration
    }

    /// The cassette file's path.
    pub closed spec fn cassette_path_spec(&self) -> Seq<char> {
        self.cassette_path@
    }

    /// Whether the matcher and all filters follow their specs.
    pub open spec fn specified(&self) -> bool {
        &&& self.matcher_spec().is_specified()
        &&& request_chain_specified(self.request_filters_spec())
        &&& response_chain_specified(self.response_filters_spec())
    }

    /// When the cassette was last changed.
    pub closed spec fn modified_at_spec(&self) -> Timestamp {
        self.cassette.modified_at
    }

    /// The cassette, for saving.
    pub fn cassette(&self) -> (c: &Cassette)
        ensures
            interactions_view(c.interactions@) == self.entries(),
            c.modified_at == self.modified_at_spec(),
    {
        &self.cassette
    }

    /// The cassette file's path.
    pub fn cassette_path(&self) -> (p: &str)
        ensures
            p@ == self.cassette_path_spec(),
    {
        self.cassette_path.as_str()
    }

    /// Finds the recorded answer for a request at time `now` (see `layer_lookup`),
    /// after filtering the request.
    pub fn try_playback_at(&self, request: &RecordedRequest, now: Timestamp) -> (r: Result<
        Option<PlaybackResult>,
        Error,
    >)
        ensures
            self.specified() ==> try_playback_outcome(
                self.entries(),
                layer_lookup(
                    self.matcher_spec(),
                    self.entries(),
                    request_chain(self.request_filters_spec(), request@),
                    self.expiration_spec(),
                    now,
                    0,
                ),
                self.expiration_spec(),
                r,
            ),
            layer_answered_from(self.entries(), self.expiration_spec(), now, r),
    {
        let mut filtered = request.clone();
        apply_request_filters(&self.request_filters, &mut filtered);
        let ghost req = filtered@;
        let ghost s = self.entries();
        let mut i: usize = 0;
        while i < self.cassette.interactions.len()
            invariant
                i <= self.cassette.interactions@.len(),
                s == self.entries(),
                req == filtered@,
                request_chain_specified(self.request_filters_spec()) ==> req == request_chain(
                    self.request_filters_spec(),
                    request@,
                ),
                self.specified() ==> layer_lookup(&self.matcher, s, req, self.expiration, now, 0) == layer_lookup(
                    &self.matcher,
                    s,
                    req,
                    self.expiration,
                    now,
                    i as int,
                ),
            decreases self.cassette.interactions.len() - i,
        {
            let interaction = &self.cassette.interactions[i];
            assert(s[i as int] == interaction@);
            if self.matcher.matches(&interaction.request, &filtered) {
                if expired(interaction.recorded_at, self.expiration, now) {
                    match self.expiration {
                        Some(max_age) => {
                            let r = Err(Error::CassetteExpired { recorded_at: interaction.recorded_at, max_age });
                            assert(layer_answer_of(s[i as int], self.expiration, now, r));
                            return r;
                        },
                        None => {},
                    }
                }
                match &interaction.response {
                    Some(response) => {
                        let r = Ok(Some(PlaybackResult::Response(response.clone())));
                        assert(layer_answer_of(s[i as int], self.expiration, now, r));
                        return r;
                    },
                    None => {},
                }
                match &interaction.error {
                    Some(error) => {
                        let r = Ok(Some(PlaybackResult::Error(error.clone())));
                        assert(layer_answer_of(s[i as int], self.expiration, now, r));
                        return r;
                    },
                    None => {},
                }
            }
            i = i + 1;
        }
        Ok(None)
    }

    /// Finds the recorded answer for a request, checking expiry against the clock.
    pub fn try_playback(&self, request: &RecordedRequest) -> (r: Result<Option<PlaybackResult>, Error>)
        ensures
            exists|t: Timestamp|
                (self.specified() ==> try_playback_outcome(
                    self.entries(),
                    layer_lookup(
                        self.matcher_spec(),
                        self.entries(),
                        request_chain(self.request_filters_spec(), request@),
                        self.expiration_spec(),
                        t,
                        0,
                    ),
                    self.expiration_spec(),
                    r,
                )) && layer_answered_from(self.entries(), self.expiration_spec(), t, r),
    {
        let t = now();
        self.try_playback_at(request, t)
    }

    /// A replay result as a response, or the error replayed for a recorded error.
    pub fn playback_result_to_response(&self, result: PlaybackResult) -> (r: Result<RecordedResponse, Error>)
        ensures
            match result {
                PlaybackResult::Response(x) => r == Ok::<RecordedResponse, Error>(x),
                PlaybackResult::Error(e) => r matches Err(err) && replays_error(e@, err),
            },
    {
        match result {
            PlaybackResult::Response(response) => Ok(response),
            PlaybackResult::Error(error) => Err(recorded_error_to_error(&error)),
        }
    }

    /// Records an exchange stamped `at`: the filtered request with the filtered response.
    pub fn record_interaction_at(&mut self, request: RecordedRequest, response: RecordedResponse, at: Timestamp)
        ensures
            old(self).specified() ==> final(self).entries().last() == (InteractionView {
                request: request_chain(old(self).request_filters_spec(), request@),
                response: Some(response_chain(old(self).response_filters_spec(), response@)),
                error: None,
                recorded_at: at,
            }),
            final(self).entries().last().response is Some,
            final(self).entries().last().error is None,
            final(self).entries().last().recorded_at == at,
            final(self).modified_at_spec() == at,
            final(self).entries().len() == old(self).entries().len() + 1,
            final(self).entries().drop_last() == old(self).entries(),
            final(self).mode_spec() == old(self).mode_spec(),
            final(self).matcher_spec() == old(self).matcher_spec(),
            final(self).request_filters_spec() == old(self).request_filters_spec(),
            final(self).response_filters_spec() == old(self).response_filters_spec(),
            final(self).expiration_spec() == old(self).expiration_spec(),
    {
        let mut filtered_request = request;
        apply_request_filters(&self.request_filters, &mut filtered_request);
        let mut filtered_response = response;
        apply_response_filters(&self.response_filters, &mut filtered_response);
        let interaction = Interaction::new_at(filtered_request, filtered_response, at);
        let ghost before = self.entries();
        self.cassette.interactions.push(interaction);
        self.cassette.modified_at = at;
        assert(self.entries() =~= before.push(interaction@));
        assert(self.entries().drop_last() =~= before);
    }

    /// Records an exchange, stamped with the current time.
    pub fn record_interaction(&mut self, request: RecordedRequest, response: RecordedResponse)
        ensures
            final(self).entries().len() == old(self).entries().len() + 1,
            final(self).entries().drop_last() == old(self).entries(),
            old(self).specified() ==> final(self).entries().last().request == request_chain(
                old(self).request_filters_spec(),
                request@,
            ),
            old(self).specified() ==> final(self).entries().last().response == Some(
                response_chain(old(self).response_filters_spec(), response@),
            ),
            final(self).entries().last().error is None,
            final(self).mode_spec() == old(self).mode_spec(),
            final(self).matcher_spec() == old(self).matcher_spec(),
            final(self).request_filters_spec() == old(self).request_filters_spec(),
            final(self).response_filters_spec() == old(self).response_filters_spec(),
            final(self).expiration_spec() == old(self).expiration_spec(),
            crate::clock::is_clock_reading(final(self).entries().last().recorded_at),
            final(self).modified_at_spec() == final(self).entries().last().recorded_at,
    {
        let t = now();
        self.record_interaction_at(request, response, t);
    }

    /// The mode.
    pub fn mode(&self) -> (m: Mode)
        ensures
            m == self.mode_spec(),
    {
        self.mode
    }

    /// Whether replay is attempted (replay and auto modes).
    pub fn should_playback(&self) -> (b: bool)
        ensures
            b == (self.mode_spec() == Mode::Replay || self.mode_spec() == Mode::Auto),
    {
        self.mode.replays()
    }

    /// Whether exchanges are recorded (record and auto modes).
    pub fn should_record(&self) -> (b: bool)
        ensures
            b == (self.mode_spec() == Mode::Record || self.mode_spec() == Mode::Auto),
    {
        self.mode.records()
    }

    /// Handles a request at time `now`: in replay mode, the recorded response, the
    /// replayed error, or `NoMatch`; in auto mode the same, but `None` (forward it)
    /// when nothing matches; in record and passthrough modes `None`.
    pub fn process_request_at(&self, request: &RecordedRequest, now: Timestamp) -> (r: Result<
        Option<RecordedResponse>,
        Error,
    >)
        ensures
            (self.mode_spec() == Mode::Record || self.mode_spec() == Mode::Passthrough) ==> r matches Ok(None),
            (self.mode_spec() == Mode::Replay || self.mode_spec() == Mode::Auto) && self.specified()
                ==> request_outcome(
                self.matcher_spec(),
                self.entries(),
                request_chain(self.request_filters_spec(), request@),
                self.expiration_spec(),
                self.mode_spec(),
                now,
                r,
            ),
    {
        match self.mode {
            Mode::Replay | Mode::Auto => {
                let found = self.try_playback_at(request, now);
                match found {
                    Err(e) => Err(e),
                    Ok(Some(PlaybackResult::Response(response))) => Ok(Some(response)),
                    Ok(Some(PlaybackResult::Error(error))) => Err(recorded_error_to_error(&error)),
                    Ok(None) => match self.mode {
                        Mode::Replay => Err(Error::NoMatch),
                        _ => Ok(None),
                    },
                }
            },
            Mode::Record | Mode::Passthrough => Ok(None),
        }
    }

    /// Handles a request, checking expiry against the clock (see `process_request_at`).
    pub fn process_request(&self, request: &RecordedRequest) -> (r: Result<Option<RecordedResponse>, Error>)
        ensures
            (self.mode_spec() == Mode::Record || self.mode_spec() == Mode::Passthrough) ==> r matches Ok(None),
            (self.mode_spec() == Mode::Replay || self.mode_spec() == Mode::Auto) && self.specified() ==> exists|
                t: Timestamp,
            |
                request_outcome(
                    self.matcher_spec(),
                    self.entries(),
                    request_chain(self.request_filters_spec(), request@),
                    self.expiration_spec(),
                    self.mode_spec(),
                    t,
                    r,
                ),
            self.mode_spec() == Mode::Replay && self.specified() && layer_lookup(
                self.matcher_spec(),
                self.entries(),
                request_chain(self.request_filters_spec(), request@),
                self.expiration_spec(),
                0,
                0,
            ) is None && self.expiration_spec() is None ==> r matches Err(Error::NoMatch),
    {
        let t = now();
        proof {
            if self.expiration_spec() is None {
                let req = request_chain(self.request_filters_spec(), request@);
                lemma_lookup_without_expiry(self.matcher_spec(), self.entries(), req, t, 0, 0);
            }
        }
        self.process_request_at(request, t)
    }

    /// After forwarding: records the exchange in record and auto modes, and gives the
    /// response back. Returns whether the cassette changed.
    pub fn process_response(&mut self, request: RecordedRequest, response: RecordedResponse) -> (r: (
        RecordedResponse,
        bool,
    ))
        ensures
            r.0@ == response@,
            r.1 == (old(self).mode_spec() == Mode::Record || old(self).mode_spec() == Mode::Auto),
            r.1 ==> final(self).entries().len() == old(self).entries().len() + 1 && final(self).entries().drop_last()
                == old(self).entries(),
            r.1 && old(self).specified() ==> final(self).entries().last().request == request_chain(
                old(self).request_filters_spec(),
                request@,
            ) && final(self).entries().last().response == Some(
                response_chain(old(self).response_filters_spec(), response@),
            ),
            !r.1 ==> final(self).entries() == old(self).entries(),
            final(self).mode_spec() == old(self).mode_spec(),
    {
        if self.should_record() {
            let kept = response.clone();
            self.record_interaction(request, response);
            (kept, true)
        } else {
            (response, false)
        }
    }
}

/// Configures a `MockingbirdLayer`.
pub struct LayerBuilder<M: Matcher> {
    cassette_path: String,
    mode: Mode,
    matcher: M,
    request_filters: Vec<RequestFilterRule>,
    response_filters: Vec<ResponseFilterRule>,
    expiration: Option<Nanos>,
}

impl LayerBuilder<AllMatcher> {
    /// A builder in auto mode with method and URL matching, no filters and no expiry.
    pub fn new(cassette_path: &str) -> (b: Self)
        ensures
            b.cassette_path_spec() == cassette_path@,
            b.mode_spec() == Mode::Auto,
            b.matcher_spec().is_specified(),
            forall|r: RequestView, i: RequestView|
                b.matcher_spec().spec_matches(r, i) == (crate::matcher::same_method(r, i) && r.url == i.url),
            b.request_filters_spec().len() == 0,
            b.response_filters_spec().len() == 0,
            b.expiration_spec() is None,
    {
        LayerBuilder {
            cassette_path: owned(cassette_path),
            mode: Mode::Auto,
            matcher: AllMatcher::default_matchers(),
            request_filters: Vec::new(),
            response_filters: Vec::new(),
            expiration: None,
        }
    }
}

impl<M: Matcher> LayerBuilder<M> {
    /// The cassette path.
    pub closed spec fn cassette_path_spec(&self) -> Seq<char> {
        self.cassette_path@
    }

    /// The mode.
    pub closed spec fn mode_spec(&self) -> Mode {
        self.mode
    }

    /// The matcher.
    pub closed spec fn matcher_spec(&self) -> &M {
        &self.matcher
    }

    /// The request filters.
    pub closed spec fn request_filters_spec(&self) -> Seq<RequestFilterRule> {
        self.request_filters@
    }

    /// The response filters.
    pub closed spec fn response_filters_spec(&self) -> Seq<ResponseFilterRule> {
        self.response_filters@
    }

    /// The expiry.
    pub closed spec fn expiration_spec(&self) -> Option<Nanos> {
        self.expiration
    }

    /// Sets the mode.
    pub fn mode(self, mode: Mode) -> (b: Self)
        ensures
            b.mode_spec() == mode,
            b.cassette_path_spec() == self.cassette_path_spec(),
            b.matcher_spec() == self.matcher_spec(),
            b.request_filters_spec() == self.request_filters_spec(),
            b.response_filters_spec() == self.response_filters_spec(),
            b.expiration_spec() == self.expiration_spec(),
    {
        LayerBuilder { mode, ..self }
    }

    /// Sets the matcher.
    pub fn matcher<N: Matcher>(self, matcher: N) -> (b: LayerBuilder<N>)
        ensures
            *b.matcher_spec() == matcher,
            b.mode_spec() == self.mode_spec(),
            b.cassette_path_spec() == self.cassette_path_spec(),
            b.request_filters_spec() == self.request_filters_spec(),
            b.response_filters_spec() == self.response_filters_spec(),
            b.expiration_spec() == self.expiration_spec(),
    {
        LayerBuilder {
            cassette_path: self.cassette_path,
            mode: self.mode,
            matcher,
            request_filters: self.request_filters,
            response_filters: self.response_filters,
            expiration: self.expiration,
        }
    }

    /// Adds a request filter.
    pub fn request_filter<F>(self, filter: F) -> (b: Self) where RequestFilterRule: From<F>
        ensures
            b.request_filters_spec().len() == self.request_filters_spec().len() + 1,
            b.request_filters_spec().drop_last() == self.request_filters_spec(),
            <RequestFilterRule as vstd::std_specs::convert::FromSpec<F>>::obeys_from_spec()
                ==> b.request_filters_spec().last() == <RequestFilterRule as vstd::std_specs::convert::FromSpec<
                F,
            >>::from_spec(filter),
            b.mode_spec() == self.mode_spec(),
            b.cassette_path_spec() == self.cassette_path_spec(),
            b.matcher_spec() == self.matcher_spec(),
            b.response_filters_spec() == self.response_filters_spec(),
            b.expiration_spec() == self.expiration_spec(),
    {
        let rule = RequestFilterRule::from(filter);
        let mut b = self;
        let ghost before = b.request_filters@;
        b.request_filters.push(rule);
        assert(b.request_filters@.drop_last() =~= before);
        b
    }

    /// Adds a response filter.
    pub fn response_filter<F>(self, filter: F) -> (b: Self) where ResponseFilterRule: From<F>
        ensures
            b.response_filters_spec().len() == self.response_filters_spec().len() + 1,
            b.response_filters_spec().drop_last() == self.response_filters_spec(),
            <ResponseFilterRule as vstd::std_specs::convert::FromSpec<F>>::obeys_from_spec()
                ==> b.response_filters_spec().last() == <ResponseFilterRule as vstd::std_specs::convert::FromSpec<
                F,
            >>::from_spec(filter),
            b.mode_spec() == self.mode_spec(),
            b.cassette_path_spec() == self.cassette_path_spec(),
            b.matcher_spec() == self.matcher_spec(),
            b.request_filters_spec() == self.request_filters_spec(),
            b.expiration_spec() == self.expiration_spec(),
    {
        let rule = ResponseFilterRule::from(filter);
        let mut b = self;
        let ghost before = b.response_filters@;
        b.response_filters.push(rule);
        assert(b.response_filters@.drop_last() =~= before);
        b
    }

    /// Sets the longest age at which interactions are replayed (saturating as chrono's
    /// `TimeDelta::from_std(d).unwrap_or(TimeDelta::MAX)`).
    pub fn expire_after(self, duration: std::time::Duration) -> (b: Self)
        ensures
            b.expiration_spec() == Some(crate::clock::span_of(duration)),
            b.mode_spec() == self.mode_spec(),
            b.cassette_path_spec() == self.cassette_path_spec(),
            b.matcher_spec() == self.matcher_spec(),
            b.request_filters_spec() == self.request_filters_spec(),
            b.response_filters_spec() == self.response_filters_spec(),
    {
        let d = span_of_duration(duration);
        LayerBuilder { expiration: Some(d), ..self }
    }

    /// The cassette path.
    pub fn cassette_path(&self) -> (p: &str)
        ensures
            p@ == self.cassette_path_spec(),
    {
        self.cassette_path.as_str()
    }

    /// Builds the layer over a cassette (the one loaded from the path, or a new one).
    pub fn build(self, cassette: Cassette) -> (l: MockingbirdLayer<M>)
        ensures
            l.entries() == interactions_view(cassette.interactions@),
            l.mode_spec() == self.mode_spec(),
            l.matcher_spec() == self.matcher_spec(),
            l.request_filters_spec() == self.request_filters_spec(),
            l.response_filters_spec() == self.response_filters_spec(),
            l.expiration_spec() == self.expiration_spec(),
            l.cassette_path_spec() == self.cassette_path_spec(),
    {
        MockingbirdLayer {
            mode: self.mode,
            cassette_path: self.cassette_path,
            cassette,
            matcher: self.matcher,
            request_filters: self.request_filters,
            response_filters: self.response_filters,
            expiration: self.expiration,
        }
    }
}

/// A recorded exchange is found again: if no interaction so far is accepted for a
/// request and the matcher accepts the request against itself, then once an unexpired
/// interaction holding that request and a response is appended, replay settles on it.
pub proof fn lemma_layer_replay_after_record<M: Matcher + ?Sized>(
    m: &M,
    s: Seq<InteractionView>,
    added: InteractionView,
    req: RequestView,
    max_age: Option<Nanos>,
    now: Timestamp,
)
    requires
        added.request == req,
        added.response is Some,
        m.spec_matches(req, req),
        !is_expired(added.recorded_at, max_age, now),
        forall|j: int| 0 <= j < s.len() ==> !m.spec_matches(#[trigger] s[j].request, req),
    ensures
        layer_lookup(m, s.push(added), req, max_age, now, 0) == Some((s.len() as int, false)),
{
    lemma_lookup_skips(m, s, added, req, max_age, now, 0);
}

/// Without an expiry, what replay settles on does not depend on the time.
proof fn lemma_lookup_without_expiry<M: Matcher + ?Sized>(
    m: &M,
    s: Seq<InteractionView>,
    req: RequestView,
    t1: Timestamp,
    t2: Timestamp,
    start: int,
)
    ensures
        layer_lookup(m, s, req, None, t1, start) == layer_lookup(m, s, req, None, t2, start),
    decreases s.len() - start,
{
    if 0 <= start < s.len() {
        lemma_lookup_without_expiry(m, s, req, t1, t2, start + 1);
    }
}

/// Interactions that are not accepted are passed over.
proof fn lemma_lookup_skips<M: Matcher + ?Sized>(
    m: &M,
    s: Seq<InteractionView>,
    added: InteractionView,
    req: RequestView,
    max_age: Option<Nanos>,
    now: Timestamp,
    start: int,
)
    requires
        0 <= start <= s.len(),
        added.request == req,
        added.response is Some,
        m.spec_matches(req, req),
        !is_expired(added.recorded_at, max_age, now),
        forall|j: int| 0 <= j < s.len() ==> !m.spec_matches(#[trigger] s[j].request, req),
    ensures
        layer_lookup(m, s.push(added), req, max_age, now, start) == Some((s.len() as int, false)),
    decreases s.len() - start,
{
    let s2 = s.push(added);
    if start < s.len() {
        assert(s2[start] == s[start]);
        lemma_lookup_skips(m, s, added, req, max_age, now, start + 1);
    } else {
        assert(s2[start] == added);
    }
}

} // verus!
