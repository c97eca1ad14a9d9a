//! The recording client's decisions: which recorded interaction answers a request,
//! what is replayed for it, and what is recorded after a request to the server.

use vstd::prelude::*;
use crate::cassette::index::{IndexedCassette, Key, key_of, positions_of};
use crate::cassette::types::{
    Cassette, ErrorKind, ErrorView, Interaction, InteractionView, RecordedError, RecordedRequest,
    RecordedResponse, RequestView,
};
use crate::cassette::Timestamp;
use crate::clock::{Nanos, now, span_of_duration};
use crate::error::{Error, error_message, is_recorded};
use crate::filter::{
    JsonPathRequestFilter, JsonPathResponseFilter, RequestFilterRule, ResponseFilterRule, ReplaceRequestHeader,
    ReplaceResponseHeader, apply_request_filters,
    apply_response_filters, request_chain, request_chain_specified, response_chain, response_chain_specified,
};
use crate::matcher::{AllMatcher, Matcher};
use crate::mode::Mode;
use crate::playback::{expired, first_match, first_match_from, is_expired, recorded_error_to_error, replays_error};
use crate::request::{Request, RequestModel, recorded_view};
use crate::response::{Response, replayed};
use crate::text::{owned, uppercase};

verus! {

/// Whether `r` is what replaying the interaction gives: its recorded error, its
/// response, or an error when it holds neither.
pub open spec fn interaction_outcome(iv: InteractionView, r: Result<Response, Error>) -> bool {
    match iv.error {
        Some(e) => r matches Err(err) && replays_error(e, err),
        None => match iv.response {
            Some(rv) => r matches Ok(resp) && resp@ == replayed(rv),
            None => r matches Err(Error::InvalidFormat(m)) && m@ == "Interaction has no response or error"@,
        },
    }
}

/// The first position listed in `p` (from `start` on) whose interaction the matcher accepts.
pub open spec fn first_candidate<M: Matcher + ?Sized>(
    m: &M,
    s: Seq<InteractionView>,
    p: Seq<usize>,
    req: RequestView,
    start: int,
) -> Option<int>
    decreases p.len() - start,
{
    if start < 0 || start >= p.len() {
        None
    } else if p[start] < s.len() && m.spec_matches(s[p[start] as int].request, req) {
        Some(p[start] as int)
    } else {
        first_candidate(m, s, p, req, start + 1)
    }
}

/// The interaction chosen for a request: the first accepted one among those indexed
/// under the request's method and URL, otherwise the first accepted one overall.
pub open spec fn chosen<M: Matcher + ?Sized>(m: &M, s: Seq<InteractionView>, req: RequestView) -> Option<int> {
    match first_candidate(m, s, positions_of(s, (uppercase(req.method), req.url)), req, 0) {
        Some(i) => Some(i),
        None => first_match(m, s, req),
    }
}

/// Whether the interaction at `i` can answer `req` at `now`: the matcher accepts it
/// and it has not expired.
pub open spec fn fresh_match<M: Matcher + ?Sized>(
    m: &M,
    s: Seq<InteractionView>,
    req: RequestView,
    max_age: Option<Nanos>,
    now: Timestamp,
    i: int,
) -> bool {
    m.spec_matches(s[i].request, req) && !is_expired(s[i].recorded_at, max_age, now)
}

/// The first position listed in `p` (from `start` on) whose interaction can answer
/// `req` at `now`.
pub open spec fn first_fresh_candidate<M: Matcher + ?Sized>(
    m: &M,
    s: Seq<InteractionView>,
    p: Seq<usize>,
    req: RequestView,
    max_age: Option<Nanos>,
    now: Timestamp,
    start: int,
) -> Option<int>
    decreases p.len() - start,
{
    if start < 0 || start >= p.len() {
        None
    } else if p[start] < s.len() && fresh_match(m, s, req, max_age, now, p[start] as int) {
        Some(p[start] as int)
    } else {
        first_fresh_candidate(m, s, p, req, max_age, now, start + 1)
    }
}

/// The first position (from `start` on) whose interaction can answer `req` at `now`.
pub open spec fn first_fresh_from<M: Matcher + ?Sized>(
    m: &M,
    s: Seq<InteractionView>,
    req: RequestView,
    max_age: Option<Nanos>,
    now: Timestamp,
    start: int,
) -> Option<int>
    decreases s.len() - start,
{
    if start < 0 || start >= s.len() {
        None
    } else if fresh_match(m, s, req, max_age, now, start) {
        Some(start)
    } else {
        first_fresh_from(m, s, req, max_age, now, start + 1)
    }
}

/// The interaction replayed for a request at `now`: the first accepted, unexpired one
/// among those indexed under the request's method and URL, otherwise the first
/// accepted, unexpired one overall.
pub open spec fn chosen_fresh<M: Matcher + ?Sized>(
    m: &M,
    s: Seq<InteractionView>,
    req: RequestView,
    max_age: Option<Nanos>,
    now: Timestamp,
) -> Option<int> {
    match first_fresh_candidate(m, s, positions_of(s, (uppercase(req.method), req.url)), req, max_age, now, 0) {
        Some(i) => Some(i),
        None => first_fresh_from(m, s, req, max_age, now, 0),
    }
}

/// Whether `r` answers `req` from the interactions `s` at `now`: the outcome of the
/// interaction replayed (see `chosen_fresh`); when every accepted interaction has
/// expired, the expiry error of the one `chosen` would pick; otherwise `NoMatch`.
pub open spec fn playback_outcome<M: Matcher + ?Sized>(
    m: &M,
    s: Seq<InteractionView>,
    req: RequestView,
    max_age: Option<Nanos>,
    now: Timestamp,
    r: Result<Response, Error>,
) -> bool {
    match chosen_fresh(m, s, req, max_age, now) {
        Some(i) => 0 <= i < s.len() && interaction_outcome(s[i], r),
        None => match chosen(m, s, req) {
            Some(i) => 0 <= i < s.len() && (r matches Err(Error::CassetteExpired { recorded_at, max_age: a })
                && recorded_at == s[i].recorded_at && max_age == Some(a)),
            None => r matches Err(Error::NoMatch),
        },
    }
}

/// Whether `r` is what one interaction gives at `now`: its outcome when it has not
/// expired, its expiry error when it has.
pub open spec fn answer_of(iv: InteractionView, max_age: Option<Nanos>, now: Timestamp, r: Result<
    Response,
    Error,
>) -> bool {
    if is_expired(iv.recorded_at, max_age, now) {
        r matches Err(Error::CassetteExpired { recorded_at, max_age: a }) && recorded_at == iv.recorded_at
            && max_age == Some(a)
    } else {
        interaction_outcome(iv, r)
    }
}

/// Whether `r` comes from the cassette whatever the matcher decides: `NoMatch`, or what
/// one of the interactions gives at `now`.
pub open spec fn answered_from(s: Seq<InteractionView>, max_age: Option<Nanos>, now: Timestamp, r: Result<
    Response,
    Error,
>) -> bool {
    r matches Err(Error::NoMatch) || exists|i: int| 0 <= i < s.len() && #[trigger] answer_of(s[i], max_age, now, r)
}

/// Whether auto mode answers a request from the cassette at `now`: the interaction
/// replayed holds a recorded error or a response.
pub open spec fn auto_replays<M: Matcher + ?Sized>(
    m: &M,
    s: Seq<InteractionView>,
    req: RequestView,
    max_age: Option<Nanos>,
    now: Timestamp,
) -> bool {
    chosen_fresh(m, s, req, max_age, now) matches Some(i) && (0 <= i < s.len() && (s[i].error is Some
        || s[i].response is Some))
}

/// The recorded form of an error from a request to the server: an HTTP timeout or
/// connection failure keeps its kind; anything else is recorded as unknown, with its
/// message.
pub open spec fn recorded_error_of(error: &Error) -> ErrorView {
    match error {
        Error::Http { message, timeout, connect } => ErrorView {
            kind: if *timeout {
                ErrorKind::Timeout
            } else if *connect {
                ErrorKind::Connection
            } else {
                ErrorKind::Unknown
            },
            message: message@,
        },
        _ => ErrorView { kind: ErrorKind::Unknown, message: error_message(error) },
    }
}

/// What the client does with a request.
pub enum Route {
    /// Answer with this, without a request to the server.
    Respond(Result<Response, Error>),
    /// Send the request to the server; record the exchange when `record`.
    Forward { record: bool },
}

/// The recording client's state: its mode, its indexed cassette, how requests are
/// matched and filtered, and its recording options.
pub struct Recorder<M: Matcher> {
    mode: Mode,
    cassette_path: String,
    cassette: IndexedCassette,
    matcher: M,
    request_filters: Vec<RequestFilterRule>,
    response_filters: Vec<ResponseFilterRule>,
    expiration: Option<Nanos>,
    record_errors: bool,
    follow_redirects: bool,
}

impl<M: Matcher> Recorder<M> {
    /// The index agrees with the cassette, at all times.
    #[verifier::type_invariant]
    spec fn wf(&self) -> bool {
        self.cassette.wf()
    }

    /// The mode.
    pub closed spec fn mode_spec(&self) -> Mode {
        self.mode
    }

    /// The recorded interactions, as views.
    pub closed spec fn entries(&self) -> Seq<InteractionView> {
        self.cassette.entries()
    }

    /// The matcher.
    pub closed spec fn matcher_spec(&self) -> &M {
        &self.matcher
    }

    /// The request filters.
    pub closed spec fn request_filters_spec(&self) -> Seq<RequestFilterRule> {
        self.request_filters@
    }

    /// The response filters.
    pub closed spec fn response_filters_spec(&self) -> Seq<ResponseFilterRule> {
        self.response_filters@
    }

    /// The longest age at which an interaction is replayed.
    pub closed spec fn expiration_spec(&self) -> Option<Nanos> {
        self.expiration
    }

    /// Whether failed requests are recorded.
    pub closed spec fn record_errors_spec(&self) -> bool {
        self.record_errors
    }

    /// The cassette file's path.
    pub closed spec fn cassette_path_spec(&self) -> Seq<char> {
        self.cassette_path@
    }

    /// Whether requests to the server follow redirects.
    pub closed spec fn follow_redirects_spec(&self) -> bool {
        self.follow_redirects
    }

    /// Whether the matcher and all filters follow their specs.
    pub open spec fn specified(&self) -> bool {
        &&& self.matcher_spec().is_specified()
        &&& request_chain_specified(self.request_filters_spec())
        &&& response_chain_specified(self.response_filters_spec())
    }

    /// The request as it is matched and recorded: its recorded form, filtered.
    pub open spec fn filtered(&self, request: RequestView) -> RequestView {
        request_chain(self.request_filters_spec(), request)
    }

    /// The mode.
    pub fn mode(&self) -> (m: Mode)
        ensures
            m == self.mode_spec(),
    {
        self.mode
    }

    /// The cassette file's path.
    pub fn cassette_path(&self) -> (p: &str)
        ensures
            p@ == self.cassette_path_spec(),
    {
        self.cassette_path.as_str()
    }

    /// Whether requests to the server follow redirects.
    pub fn follows_redirects(&self) -> (b: bool)
        ensures
            b == self.follow_redirects_spec(),
    {
        self.follow_redirects
    }

    /// Whether failed requests are recorded.
    pub fn records_errors(&self) -> (b: bool)
        ensures
            b == self.record_errors_spec(),
    {
        self.record_errors
    }

    /// The longest age at which an interaction is replayed.
    pub fn expiration(&self) -> (e: Option<Nanos>)
        ensures
            e == self.expiration_spec(),
    {
        self.expiration
    }

    /// The indexed cassette.
    pub fn cassette(&self) -> (c: &IndexedCassette)
        ensures
            c.entries() == self.entries(),
            c.wf(),
    {
        proof {
            use_type_invariant(self);
        }
        &self.cassette
    }

    /// Appends an interaction to the cassette, keeping the index in step.
    fn append(&mut self, interaction: Interaction)
        ensures
            final(self).entries() == old(self).entries().push(interaction@),
            final(self).mode_spec() == old(self).mode_spec(),
            final(self).matcher_spec() == old(self).matcher_spec(),
            final(self).request_filters_spec() == old(self).request_filters_spec(),
            final(self).response_filters_spec() == old(self).response_filters_spec(),
            final(self).expiration_spec() == old(self).expiration_spec(),
            final(self).record_errors_spec() == old(self).record_errors_spec(),
            final(self).cassette_path_spec() == old(self).cassette_path_spec(),
            final(self).follow_redirects_spec() == old(self).follow_redirects_spec(),
    {
        proof {
            use_type_invariant(&*self);
        }
        let mut c = IndexedCassette::new(Cassette::new_at(0));
        std::mem::swap(&mut c, &mut self.cassette);
        let ghost before = c.entries();
        c.add(interaction);
        assert(c.entries() =~= before.push(interaction@));
        std::mem::swap(&mut c, &mut self.cassette);
    }

    /// The recorded form of a request, filtered.
    pub fn filter_request(&self, request: &Request) -> (r: RecordedRequest)
        ensures
            request_chain_specified(self.request_filters_spec()) ==> r@ == self.filtered(recorded_view(request@)),
    {
        let mut r = request.to_recorded();
        apply_request_filters(&self.request_filters, &mut r);
        r
    }

    /// What replaying an interaction gives (see `interaction_outcome`).
    pub fn interaction_to_response(interaction: &Interaction) -> (r: Result<Response, Error>)
        ensures
            interaction_outcome(interaction@, r),
    {
        match &interaction.error {
            Some(e) => Err(recorded_error_to_error(e)),
            None => match &interaction.response {
                Some(resp) => Ok(Response::from_recorded(resp.clone())),
                None => Err(Error::InvalidFormat(owned("Interaction has no response or error"))),
            },
        }
    }

    /// Answers a request from the cassette at time `now` (see `playback_outcome`); whatever
    /// the matcher and filters decide, the answer comes from the cassette (see
    /// `answered_from`).
    pub fn playback_at(&self, request: &Request, now: Timestamp) -> (r: Result<Response, Error>)
        ensures
            self.specified() ==> playback_outcome(
                self.matcher_spec(),
                self.entries(),
                self.filtered(recorded_view(request@)),
                self.expiration_spec(),
                now,
                r,
            ),
            answered_from(self.entries(), self.expiration_spec(), now, r),
    {
        proof {
            use_type_invariant(self);
        }
        let rr = self.filter_request(request);
        let ghost s = self.entries();
        let ghost req = rr@;
        let candidates = self.cassette.find_by_method_url(rr.method.as_str(), rr.url.as_str());
        let ghost p = positions_of(s, (uppercase(req.method), req.url));
        assert(candidates@ == p);
        let mut seen: Option<usize> = None;
        let mut j: usize = 0;
        while j < candidates.len()
            invariant
                j <= candidates@.len(),
                candidates@ == p,
                req == rr@,
                p == positions_of(s, (uppercase(req.method), req.url)),
                request_chain_specified(self.request_filters_spec()) ==> req == self.filtered(
                    recorded_view(request@),
                ),
                s == self.entries(),
                self.cassette.wf(),
                s == self.cassette.entries(),
                seen matches Some(k) ==> k < s.len() && is_expired(s[k as int].recorded_at, self.expiration, now),
                self.specified() ==> first_fresh_candidate(&self.matcher, s, p, req, self.expiration, now, 0)
                    == first_fresh_candidate(&self.matcher, s, p, req, self.expiration, now, j as int),
                self.specified() ==> match seen {
                    Some(k) => first_candidate(&self.matcher, s, p, req, 0) == Some(k as int),
                    None => first_candidate(&self.matcher, s, p, req, 0) == first_candidate(
                        &self.matcher,
                        s,
                        p,
                        req,
                        j as int,
                    ),
                },
            decreases candidates.len() - j,
        {
            let idx = candidates[j];
            assert(idx == p[j as int]);
            match self.cassette.get(idx) {
                Some(interaction) => {
                    assert(s[idx as int] == interaction@);
                    if self.matcher.matches(&interaction.request, &rr) {
                        if !expired(interaction.recorded_at, self.expiration, now) {
                            let r = Self::interaction_to_response(interaction);
                            assert(answer_of(s[idx as int], self.expiration, now, r));
                            return r;
                        }
                        if seen.is_none() {
                            seen = Some(idx);
                        }
                    }
                },
                None => {},
            }
            j = j + 1;
        }
        let items = self.cassette.interactions();
        assert(crate::cassette::types::interactions_view(items@) == s);
        let mut i: usize = 0;
        while i < items.len()
            invariant
                i <= items@.len(),
                crate::cassette::types::interactions_view(items@) == s,
                req == rr@,
                request_chain_specified(self.request_filters_spec()) ==> req == self.filtered(
                    recorded_view(request@),
                ),
                s == self.entries(),
                seen matches Some(k) ==> k < s.len() && is_expired(s[k as int].recorded_at, self.expiration, now),
                self.specified() ==> chosen_fresh(&self.matcher, s, req, self.expiration, now) == first_fresh_from(
                    &self.matcher,
                    s,
                    req,
                    self.expiration,
                    now,
                    i as int,
                ),
                self.specified() ==> match seen {
                    Some(k) => chosen(&self.matcher, s, req) == Some(k as int),
                    None => chosen(&self.matcher, s, req) == first_match_from(&self.matcher, s, req, i as int),
                },
            decreases items.len() - i,
        {
            let interaction = &items[i];
            assert(s[i as int] == interaction@);
            if self.matcher.matches(&interaction.request, &rr) {
                if !expired(interaction.recorded_at, self.expiration, now) {
                    let r = Self::interaction_to_response(interaction);
                    assert(answer_of(s[i as int], self.expiration, now, r));
                    return r;
                }
                if seen.is_none() {
                    seen = Some(i);
                }
            }
            i = i + 1;
        }
        match seen {
            Some(k) => {
                let it = &items[k];
                assert(s[k as int] == it@);
                match self.expiration {
                    Some(max_age) => {
                        let r = Err(Error::CassetteExpired { recorded_at: it.recorded_at, max_age });
                        assert(answer_of(s[k as int], self.expiration, now, r));
                        r
                    },
                    None => Err(Error::NoMatch),
                }
            },
            None => Err(Error::NoMatch),
        }
    }

    /// Answers a request from the cassette, checking expiry against the clock.
    pub fn playback_request(&self, request: &Request) -> (r: Result<Response, Error>)
        ensures
            exists|t: Timestamp|
                (self.specified() ==> playback_outcome(
                    self.matcher_spec(),
                    self.entries(),
                    self.filtered(recorded_view(request@)),
                    self.expiration_spec(),
                    t,
                    r,
                )) && answered_from(self.entries(), self.expiration_spec(), t, r),
    {
        let t = now();
        self.playback_at(request, t)
    }

    /// What the client does with a request at time `now` (see `route_at`): replay mode
    /// answers from the cassette; auto mode answers from it when the interaction replayed
    /// holds a response or a recorded error (see `auto_replays`), and otherwise records;
    /// record mode records; passthrough forwards without recording.
    pub open spec fn routes(&self, request: RequestModel, now: Timestamp, r: Route) -> bool {
        let req = self.filtered(recorded_view(request));
        let s = self.entries();
        let ma = self.expiration_spec();
        &&& self.mode_spec() == Mode::Replay ==> (r matches Route::Respond(x) && (self.specified()
            ==> playback_outcome(self.matcher_spec(), s, req, ma, now, x)) && answered_from(s, ma, now, x))
        &&& self.mode_spec() == Mode::Auto ==> match r {
            Route::Respond(x) => (x is Ok || (x matches Err(e) && is_recorded(&e))) && (self.specified()
                ==> playback_outcome(self.matcher_spec(), s, req, ma, now, x)) && answered_from(s, ma, now, x),
            Route::Forward { record } => record,
        }
        &&& self.mode_spec() == Mode::Auto && self.specified() ==> (r is Respond <==> auto_replays(
            self.matcher_spec(),
            s,
            req,
            ma,
            now,
        ))
        &&& self.mode_spec() == Mode::Record ==> (r matches Route::Forward { record } && record)
        &&& self.mode_spec() == Mode::Passthrough ==> (r matches Route::Forward { record } && !record)
    }

    /// Decides what to do with a request at time `now` (see `routes`).
    pub fn route_at(&self, request: &Request, now: Timestamp) -> (r: Route)
        ensures
            self.routes(request@, now, r),
    {
        match self.mode {
            Mode::Replay => Route::Respond(self.playback_at(request, now)),
            Mode::Record => Route::Forward { record: true },
            Mode::Auto => {
                let r = self.playback_at(request, now);
                match r {
                    Ok(resp) => Route::Respond(Ok(resp)),
                    Err(e) => {
                        if e.is_recorded_error() {
                            Route::Respond(Err(e))
                        } else {
                            Route::Forward { record: true }
                        }
                    },
                }
            },
            Mode::Passthrough => Route::Forward { record: false },
        }
    }

    /// Decides what to do with a request, reading the clock for expiry checks.
    pub fn route(&self, request: &Request) -> (r: Route)
        ensures
            exists|t: Timestamp| self.routes(request@, t, r),
    {
        let t = now();
        self.route_at(request, t)
    }

    /// Records the response the server sent: the filtered request with the filtered
    /// response is added to the cassette, and the unfiltered response is returned.
    pub fn record_response(&mut self, request: &Request, received: RecordedResponse) -> (r: Response)
        ensures
            r@ == replayed(received@),
            final(self).entries().len() == old(self).entries().len() + 1,
            final(self).entries().drop_last() == old(self).entries(),
            old(self).specified() ==> final(self).entries().last().request == old(self).filtered(
                recorded_view(request@),
            ),
            old(self).specified() ==> final(self).entries().last().response == Some(
                response_chain(old(self).response_filters_spec(), received@),
            ),
            final(self).entries().last().error is None,
            final(self).mode_spec() == old(self).mode_spec(),
            final(self).matcher_spec() == old(self).matcher_spec(),
            final(self).request_filters_spec() == old(self).request_filters_spec(),
            final(self).response_filters_spec() == old(self).response_filters_spec(),
            final(self).expiration_spec() == old(self).expiration_spec(),
            final(self).record_errors_spec() == old(self).record_errors_spec(),
    {
        proof {
            use_type_invariant(&*self);
        }
        let rr = self.filter_request(request);
        let response = Response::from_recorded(received.clone());
        let mut filtered = received;
        apply_response_filters(&self.response_filters, &mut filtered);
        let interaction = Interaction::new(rr, filtered);
        self.append(interaction);
        response
    }

    /// The recorded form of an error from a request to the server: an HTTP timeout or connection
    /// failure keeps its kind; anything else is recorded as unknown, with its message.
    pub fn error_to_recorded(error: &Error) -> (r: RecordedError)
        ensures
            r@ == recorded_error_of(error),
    {
        match error {
            Error::Http { message, timeout, connect } => {
                if *timeout {
                    RecordedError::timeout(message.as_str())
                } else if *connect {
                    RecordedError::connection(message.as_str())
                } else {
                    RecordedError::new(ErrorKind::Unknown, message.as_str())
                }
            },
            _ => {
                let m = error.to_string();
                RecordedError::new(ErrorKind::Unknown, m.as_str())
            },
        }
    }

    /// After a request to the server failed: when errors are recorded, adds the filtered request
    /// with the recorded error. Returns whether the cassette changed.
    pub fn record_error(&mut self, request: &Request, error: &Error) -> (changed: bool)
        ensures
            changed == old(self).record_errors_spec(),
            !changed ==> final(self).entries() == old(self).entries(),
            changed ==> final(self).entries().drop_last() == old(self).entries() && final(self).entries().len()
                == old(self).entries().len() + 1 && final(self).entries().last().response is None
                && final(self).entries().last().error is Some,
            changed && old(self).specified() ==> final(self).entries().last().request == old(self).filtered(
                recorded_view(request@),
            ),
            changed ==> final(self).entries().last().error == Some(recorded_error_of(error)),
            final(self).mode_spec() == old(self).mode_spec(),
            final(self).matcher_spec() == old(self).matcher_spec(),
            final(self).request_filters_spec() == old(self).request_filters_spec(),
            final(self).response_filters_spec() == old(self).response_filters_spec(),
            final(self).expiration_spec() == old(self).expiration_spec(),
            final(self).record_errors_spec() == old(self).record_errors_spec(),
    {
        proof {
            use_type_invariant(&*self);
        }
        if !self.record_errors {
            return false;
        }
        let rr = self.filter_request(request);
        let recorded = Self::error_to_recorded(error);
        let interaction = Interaction::error(rr, recorded);
        self.append(interaction);
        true
    }
}

/// Configures a `Recorder`.
pub struct ClientBuilder<M: Matcher> {
    cassette_path: String,
    mode: Mode,
    matcher: M,
    request_filters: Vec<RequestFilterRule>,
    response_filters: Vec<ResponseFilterRule>,
    expiration: Option<Nanos>,
    record_errors: bool,
    follow_redirects: bool,
}

/// A cassette path resolved against a cassette directory: an absolute path (one
/// starting with `/`) as is; a relative one joined to the directory when there is one
/// (std's `Path::join`: a `/` between them unless the directory is empty or ends in `/`).
pub open spec fn resolved_path(path: Seq<char>, dir: Option<Seq<char>>) -> Seq<char> {
    if path.len() > 0 && path[0] == '/' {
        path
    } else {
        match dir {
            Some(d) => if d.len() == 0 || d.last() == '/' {
                d + path
            } else {
                d + seq!['/'] + path
            },
            None => path,
        }
    }
}

/// Resolves a cassette path against the cassette directory (see `resolved_path`).
pub fn resolve_cassette_path(path: &str, cassette_dir: Option<&str>) -> (r: String)
    ensures
        r@ == resolved_path(path@, match cassette_dir {
            Some(d) => Some(d@),
            None => None,
        }),
{
    let pv = crate::text::chars_of(path);
    if pv.len() > 0 && pv[0] == '/' {
        return owned(path);
    }
    match cassette_dir {
        Some(d) => {
            let dv = crate::text::chars_of(d);
            let mut r = owned(d);
            if dv.len() > 0 && dv[dv.len() - 1] != '/' {
                proof {
                    reveal_strlit("/");
                    assert("/"@ =~= seq!['/']);
                }
                vstd::string::StringExecFns::append(&mut r, "/");
            }
            vstd::string::StringExecFns::append(&mut r, path);
            r
        },
        None => owned(path),
    }
}

impl ClientBuilder<AllMatcher> {
    /// A builder for the cassette at `cassette_path`, resolved against `cassette_dir`
    /// when given (the `MOCKINGBIRD_CASSETTE_DIR` setting); the mode is `default_mode`
    /// when given (the `MOCKINGBIRD_MODE` setting), else auto; method and URL matching;
    /// no filters, no expiry, errors not recorded, redirects followed.
    pub fn new(cassette_path: &str, cassette_dir: Option<&str>, default_mode: Option<Mode>) -> (b: Self)
        ensures
            b.cassette_path_spec() == resolved_path(cassette_path@, match cassette_dir {
                Some(d) => Some(d@),
                None => None,
            }),
            b.mode_spec() == match default_mode {
                Some(m) => m,
                None => Mode::Auto,
            },
            b.matcher_spec().is_specified(),
            forall|r: RequestView, i: RequestView|
                b.matcher_spec().spec_matches(r, i) == (crate::matcher::same_method(r, i) && r.url == i.url),
            b.request_filters_spec().len() == 0,
            b.response_filters_spec().len() == 0,
            b.expiration_spec() is None,
            !b.record_errors_spec(),
            b.follow_redirects_spec(),
    {
        let mode = match default_mode {
            Some(m) => m,
            None => Mode::Auto,
        };
        ClientBuilder {
            cassette_path: resolve_cassette_path(cassette_path, cassette_dir),
            mode,
            matcher: AllMatcher::default_matchers(),
            request_filters: Vec::new(),
            response_filters: Vec::new(),
            expiration: None,
            record_errors: false,
            follow_redirects: true,
        }
    }
}

impl<M: Matcher> ClientBuilder<M> {
    /// The cassette path.
    pub closed spec fn cassette_path_spec(&self) -> Seq<char> {
        self.cassette_path@
    }

    /// The mode.
    pub closed spec fn mode_spec(&self) -> Mode {
        self.mode
    }

    /// The matcher.
    pub closed spec fn matcher_spec(&self) -> &M {
        &self.matcher
    }

    /// The request filters.
    pub closed spec fn request_filters_spec(&self) -> Seq<RequestFilterRule> {
        self.request_filters@
    }

    /// The response filters.
    pub closed spec fn response_filters_spec(&self) -> Seq<ResponseFilterRule> {
        self.response_filters@
    }

    /// The expiry.
    pub closed spec fn expiration_spec(&self) -> Option<Nanos> {
        self.expiration
    }

    /// Whether errors are recorded.
    pub closed spec fn record_errors_spec(&self) -> bool {
        self.record_errors
    }

    /// Whether redirects are followed.
    pub closed spec fn follow_redirects_spec(&self) -> bool {
        self.follow_redirects
    }

    /// Sets the mode.
    pub fn mode(self, mode: Mode) -> (b: Self)
        ensures
            b.mode_spec() == mode,
            b.cassette_path_spec() == self.cassette_path_spec(),
            b.matcher_spec() == self.matcher_spec(),
            b.request_filters_spec() == self.request_filters_spec(),
            b.response_filters_spec() == self.response_filters_spec(),
            b.expiration_spec() == self.expiration_spec(),
            b.record_errors_spec() == self.record_errors_spec(),
            b.follow_redirects_spec() == self.follow_redirects_spec(),
    {
        ClientBuilder { mode, ..self }
    }

    /// Sets the matcher.
    pub fn matcher<N: Matcher>(self, matcher: N) -> (b: ClientBuilder<N>)
        ensures
            *b.matcher_spec() == matcher,
            b.mode_spec() == self.mode_spec(),
            b.cassette_path_spec() == self.cassette_path_spec(),
            b.request_filters_spec() == self.request_filters_spec(),
            b.response_filters_spec() == self.response_filters_spec(),
            b.expiration_spec() == self.expiration_spec(),
            b.record_errors_spec() == self.record_errors_spec(),
            b.follow_redirects_spec() == self.follow_redirects_spec(),
    {
        ClientBuilder {
            cassette_path: self.cassette_path,
            mode: self.mode,
            matcher,
            request_filters: self.request_filters,
            response_filters: self.response_filters,
            expiration: self.expiration,
            record_errors: self.record_errors,
            follow_redirects: self.follow_redirects,
        }
    }

    /// Sets the matcher (another name for `matcher`).
    pub fn match_by<N: Matcher>(self, matcher: N) -> (b: ClientBuilder<N>)
        ensures
            *b.matcher_spec() == matcher,
            b.mode_spec() == self.mode_spec(),
            b.cassette_path_spec() == self.cassette_path_spec(),
            b.request_filters_spec() == self.request_filters_spec(),
            b.response_filters_spec() == self.response_filters_spec(),
            b.expiration_spec() == self.expiration_spec(),
            b.record_errors_spec() == self.record_errors_spec(),
            b.follow_redirects_spec() == self.follow_redirects_spec(),
    {
        self.matcher(matcher)
    }

    /// Adds a request filter.
    pub fn request_filter<F>(self, filter: F) -> (b: Self) where RequestFilterRule: From<F>
        ensures
            b.request_filters_spec().len() == self.request_filters_spec().len() + 1,
            b.request_filters_spec().drop_last() == self.request_filters_spec(),
            <RequestFilterRule as vstd::std_specs::convert::FromSpec<F>>::obeys_from_spec()
                ==> b.request_filters_spec().last() == <RequestFilterRule as vstd::std_specs::convert::FromSpec<
                F,
            >>::from_spec(filter),
            b.mode_spec() == self.mode_spec(),
            b.cassette_path_spec() == self.cassette_path_spec(),
            b.matcher_spec() == self.matcher_spec(),
            b.response_filters_spec() == self.response_filters_spec(),
            b.expiration_spec() == self.expiration_spec(),
            b.record_errors_spec() == self.record_errors_spec(),
            b.follow_redirects_spec() == self.follow_redirects_spec(),
    {
        let rule = RequestFilterRule::from(filter);
        let mut b = self;
        let ghost before = b.request_filters@;
        b.request_filters.push(rule);
        assert(b.request_filters@.drop_last() =~= before);
        b
    }

    /// Adds a response filter.
    pub fn response_filter<F>(self, filter: F) -> (b: Self) where ResponseFilterRule: From<F>
        ensures
            b.response_filters_spec().len() == self.response_filters_spec().len() + 1,
            b.response_filters_spec().drop_last() == self.response_filters_spec(),
            <ResponseFilterRule as vstd::std_specs::convert::FromSpec<F>>::obeys_from_spec()
                ==> b.response_filters_spec().last() == <ResponseFilterRule as vstd::std_specs::convert::FromSpec<
                F,
            >>::from_spec(filter),
            b.mode_spec() == self.mode_spec(),
            b.cassette_path_spec() == self.cassette_path_spec(),
            b.matcher_spec() == self.matcher_spec(),
            b.request_filters_spec() == self.request_filters_spec(),
            b.expiration_spec() == self.expiration_spec(),
            b.record_errors_spec() == self.record_errors_spec(),
            b.follow_redirects_spec() == self.follow_redirects_spec(),
    {
        let rule = ResponseFilterRule::from(filter);
        let mut b = self;
        let ghost before = b.response_filters@;
        b.response_filters.push(rule);
        assert(b.response_filters@.drop_last() =~= before);
        b
    }

    /// Sets the longest age at which interactions are replayed (converted as chrono's
    /// `TimeDelta::from_std` does, saturating).
    pub fn expire_after(self, duration: std::time::Duration) -> (b: Self)
        ensures
            b.expiration_spec() == Some(crate::clock::span_of(duration)),
            b.mode_spec() == self.mode_spec(),
            b.cassette_path_spec() == self.cassette_path_spec(),
            b.matcher_spec() == self.matcher_spec(),
            b.request_filters_spec() == self.request_filters_spec(),
            b.response_filters_spec() == self.response_filters_spec(),
            b.record_errors_spec() == self.record_errors_spec(),
            b.follow_redirects_spec() == self.follow_redirects_spec(),
    {
        let d = span_of_duration(duration);
        ClientBuilder { expiration: Some(d), ..self }
    }

    /// Replaces a request header's value before recording.
    pub fn filter_request_header(self, name: &str, replacement: &str) -> (b: Self)
        ensures
            b.request_filters_spec().len() == self.request_filters_spec().len() + 1,
            b.request_filters_spec().drop_last() == self.request_filters_spec(),
            b.request_filters_spec().last() matches RequestFilterRule::ReplaceHeader(f) && f.name_view()
                == crate::text::lowercase(name@) && f.replacement_view() == replacement@,
            b.mode_spec() == self.mode_spec(),
            b.matcher_spec() == self.matcher_spec(),
            b.response_filters_spec() == self.response_filters_spec(),
            b.expiration_spec() == self.expiration_spec(),
            b.record_errors_spec() == self.record_errors_spec(),
    {
        self.request_filter(ReplaceRequestHeader::new(name, replacement))
    }

    /// Replaces a response header's value before recording.
    pub fn filter_response_header(self, name: &str, replacement: &str) -> (b: Self)
        ensures
            b.response_filters_spec().len() == self.response_filters_spec().len() + 1,
            b.response_filters_spec().drop_last() == self.response_filters_spec(),
            b.response_filters_spec().last() matches ResponseFilterRule::ReplaceHeader(f) && f.name_view()
                == crate::text::lowercase(name@) && f.replacement_view() == replacement@,
            b.mode_spec() == self.mode_spec(),
            b.matcher_spec() == self.matcher_spec(),
            b.request_filters_spec() == self.request_filters_spec(),
            b.expiration_spec() == self.expiration_spec(),
            b.record_errors_spec() == self.record_errors_spec(),
    {
        self.response_filter(ReplaceResponseHeader::new(name, replacement))
    }

    /// Replaces the value at a JSON path in request bodies before recording.
    pub fn filter_request_body_json(self, json_path: &str, replacement: &str) -> (b: Self)
        ensures
            b.request_filters_spec().len() == self.request_filters_spec().len() + 1,
            b.request_filters_spec().drop_last() == self.request_filters_spec(),
            b.request_filters_spec().last() matches RequestFilterRule::JsonPath(f) && f.path_view() == json_path@
                && f.replacement_view() == replacement@,
            b.mode_spec() == self.mode_spec(),
            b.matcher_spec() == self.matcher_spec(),
            b.response_filters_spec() == self.response_filters_spec(),
            b.expiration_spec() == self.expiration_spec(),
            b.record_errors_spec() == self.record_errors_spec(),
    {
        self.request_filter(JsonPathRequestFilter::new(json_path, replacement))
    }

    /// Replaces the value at a JSON path in response bodies before recording.
    pub fn filter_response_body_json(self, json_path: &str, replacement: &str) -> (b: Self)
        ensures
            b.response_filters_spec().len() == self.response_filters_spec().len() + 1,
            b.response_filters_spec().drop_last() == self.response_filters_spec(),
            b.response_filters_spec().last() matches ResponseFilterRule::JsonPath(f) && f.path_view()
                == json_path@ && f.replacement_view() == replacement@,
            b.mode_spec() == self.mode_spec(),
            b.matcher_spec() == self.matcher_spec(),
            b.request_filters_spec() == self.request_filters_spec(),
            b.expiration_spec() == self.expiration_spec(),
            b.record_errors_spec() == self.record_errors_spec(),
    {
        self.response_filter(JsonPathResponseFilter::new(json_path, replacement))
    }

    /// Sets whether failed requests are recorded.
    pub fn record_errors(self, enable: bool) -> (b: Self)
        ensures
            b.record_errors_spec() == enable,
            b.mode_spec() == self.mode_spec(),
            b.cassette_path_spec() == self.cassette_path_spec(),
            b.matcher_spec() == self.matcher_spec(),
            b.request_filters_spec() == self.request_filters_spec(),
            b.response_filters_spec() == self.response_filters_spec(),
            b.expiration_spec() == self.expiration_spec(),
            b.follow_redirects_spec() == self.follow_redirects_spec(),
    {
        ClientBuilder { record_errors: enable, ..self }
    }

    /// Sets whether redirects are followed.
    pub fn follow_redirects(self, follow: bool) -> (b: Self)
        ensures
            b.follow_redirects_spec() == follow,
            b.mode_spec() == self.mode_spec(),
            b.cassette_path_spec() == self.cassette_path_spec(),
            b.matcher_spec() == self.matcher_spec(),
            b.request_filters_spec() == self.request_filters_spec(),
            b.response_filters_spec() == self.response_filters_spec(),
            b.expiration_spec() == self.expiration_spec(),
            b.record_errors_spec() == self.record_errors_spec(),
    {
        ClientBuilder { follow_redirects: follow, ..self }
    }

    /// The cassette path.
    pub fn cassette_path(&self) -> (p: &str)
        ensures
            p@ == self.cassette_path_spec(),
    {
        self.cassette_path.as_str()
    }

    /// Builds the recorder over a cassette (the one loaded from the path, or a new one).
    pub fn build(self, cassette: Cassette) -> (r: Recorder<M>)
        ensures
            r.entries() == crate::cassette::types::interactions_view(cassette.interactions@),
            r.mode_spec() == self.mode_spec(),
            r.matcher_spec() == self.matcher_spec(),
            r.request_filters_spec() == self.request_filters_spec(),
            r.response_filters_spec() == self.response_filters_spec(),
            r.expiration_spec() == self.expiration_spec(),
            r.record_errors_spec() == self.record_errors_spec(),
            r.cassette_path_spec() == self.cassette_path_spec(),
            r.follow_redirects_spec() == self.follow_redirects_spec(),
    {
        let indexed = IndexedCassette::new(cassette);
        Recorder {
            mode: self.mode,
            cassette_path: self.cassette_path,
            cassette: indexed,
            matcher: self.matcher,
            request_filters: self.request_filters,
            response_filters: self.response_filters,
            expiration: self.expiration,
            record_errors: self.record_errors,
            follow_redirects: self.follow_redirects,
        }
    }
}

} // verus!

verus! {

/// Every candidate from `start` on either lies before the new interaction and is not
/// accepted, so the search reaches the new interaction, listed last.
proof fn lemma_candidates_reach_last<M: Matcher + ?Sized>(
    m: &M,
    s: Seq<InteractionView>,
    p: Seq<usize>,
    req: RequestView,
    start: int,
)
    requires
        0 <= start < p.len(),
        p.last() == (s.len() - 1) as usize,
        s.len() >= 1,
        s.len() - 1 <= usize::MAX,
        m.spec_matches(s.last().request, req),
        forall|j: int| 0 <= j < p.len() - 1 ==> (#[trigger] p[j]) < s.len() - 1 && !m.spec_matches(
            s[p[j] as int].request,
            req,
        ),
    ensures
        first_candidate(m, s, p, req, start) == Some(s.len() - 1),
    decreases p.len() - start,
{
    if start < p.len() - 1 {
        lemma_candidates_reach_last(m, s, p, req, start + 1);
    }
}

/// A recorded exchange is what replay chooses: if no interaction so far is accepted
/// for a request, and the matcher accepts the request against itself, then once an
/// interaction holding that request is appended, it is the one chosen for the request.
pub proof fn lemma_replay_after_record<M: Matcher + ?Sized>(
    m: &M,
    s: Seq<InteractionView>,
    added: InteractionView,
    req: RequestView,
)
    requires
        added.request == req,
        m.spec_matches(req, req),
        first_match(m, s, req) is None,
        s.len() < usize::MAX,
    ensures
        chosen(m, s.push(added), req) == Some(s.len() as int),
{
    let k: Key = (uppercase(req.method), req.url);
    let s2 = s.push(added);
    crate::cassette::index::lemma_positions_push(s, added, k);
    assert(key_of(added) == k);
    let p = positions_of(s, k);
    let p2 = positions_of(s2, k);
    assert(p2 == p.push(s.len() as usize));
    crate::cassette::index::lemma_positions_of(s, k);
    crate::playback::lemma_first_match_from(m, s, req, 0);
    assert forall|j: int| 0 <= j < p2.len() - 1 implies (#[trigger] p2[j]) < s2.len() - 1 && !m.spec_matches(
        s2[p2[j] as int].request,
        req,
    ) by {
        assert(p2[j] == p[j]);
        assert(s2[p[j] as int] == s[p[j] as int]);
    }
    assert(s2.last() == added);
    lemma_candidates_reach_last(m, s2, p2, req, 0);
}

/// Every candidate before the last is no fresh match, so the search for a fresh match
/// reaches the new interaction, listed last.
proof fn lemma_fresh_candidates_reach_last<M: Matcher + ?Sized>(
    m: &M,
    s: Seq<InteractionView>,
    p: Seq<usize>,
    req: RequestView,
    max_age: Option<Nanos>,
    now: Timestamp,
    start: int,
)
    requires
        0 <= start < p.len(),
        p.last() == (s.len() - 1) as usize,
        s.len() >= 1,
        s.len() - 1 <= usize::MAX,
        fresh_match(m, s, req, max_age, now, s.len() - 1),
        forall|j: int|
            0 <= j < p.len() - 1 ==> (#[trigger] p[j]) < s.len() - 1 && !fresh_match(
                m,
                s,
                req,
                max_age,
                now,
                p[j] as int,
            ),
    ensures
        first_fresh_candidate(m, s, p, req, max_age, now, start) == Some(s.len() - 1),
    decreases p.len() - start,
{
    if start < p.len() - 1 {
        lemma_fresh_candidates_reach_last(m, s, p, req, max_age, now, start + 1);
    }
}

/// A fresh recording is what replay picks: when every interaction that the matcher
/// accepts for a request has expired (or there is none), and an unexpired interaction
/// holding that request is appended (one the matcher accepts for it), replay picks the
/// new interaction.
pub proof fn lemma_fresh_after_record<M: Matcher + ?Sized>(
    m: &M,
    s: Seq<InteractionView>,
    added: InteractionView,
    req: RequestView,
    max_age: Option<Nanos>,
    now: Timestamp,
)
    requires
        added.request == req,
        m.spec_matches(req, req),
        !is_expired(added.recorded_at, max_age, now),
        forall|j: int|
            0 <= j < s.len() && m.spec_matches(#[trigger] s[j].request, req) ==> is_expired(
                s[j].recorded_at,
                max_age,
                now,
            ),
        s.len() < usize::MAX,
    ensures
        chosen_fresh(m, s.push(added), req, max_age, now) == Some(s.len() as int),
{
    let k: Key = (uppercase(req.method), req.url);
    let s2 = s.push(added);
    crate::cassette::index::lemma_positions_push(s, added, k);
    assert(key_of(added) == k);
    let p = positions_of(s, k);
    let p2 = positions_of(s2, k);
    assert(p2 == p.push(s.len() as usize));
    crate::cassette::index::lemma_positions_of(s, k);
    assert forall|j: int| 0 <= j < p2.len() - 1 implies (#[trigger] p2[j]) < s2.len() - 1 && !fresh_match(
        m,
        s2,
        req,
        max_age,
        now,
        p2[j] as int,
    ) by {
        assert(p2[j] == p[j]);
        assert(s2[p[j] as int] == s[p[j] as int]);
    }
    assert(s2[s.len() as int] == added);
    lemma_fresh_candidates_reach_last(m, s2, p2, req, max_age, now, 0);
}

/// No candidate from `start` on is a fresh match when no interaction is.
proof fn lemma_no_fresh_candidate<M: Matcher + ?Sized>(
    m: &M,
    s: Seq<InteractionView>,
    p: Seq<usize>,
    req: RequestView,
    max_age: Option<Nanos>,
    now: Timestamp,
    start: int,
)
    requires
        forall|j: int| 0 <= j < s.len() ==> !#[trigger] fresh_match(m, s, req, max_age, now, j),
    ensures
        first_fresh_candidate(m, s, p, req, max_age, now, start) is None,
    decreases p.len() - start,
{
    if 0 <= start < p.len() {
        if p[start] < s.len() {
            assert(!fresh_match(m, s, req, max_age, now, p[start] as int));
        }
        lemma_no_fresh_candidate(m, s, p, req, max_age, now, start + 1);
    }
}

/// No position from `start` on is a fresh match when no interaction is.
proof fn lemma_no_fresh_from<M: Matcher + ?Sized>(
    m: &M,
    s: Seq<InteractionView>,
    req: RequestView,
    max_age: Option<Nanos>,
    now: Timestamp,
    start: int,
)
    requires
        forall|j: int| 0 <= j < s.len() ==> !#[trigger] fresh_match(m, s, req, max_age, now, j),
    ensures
        first_fresh_from(m, s, req, max_age, now, start) is None,
    decreases s.len() - start,
{
    if 0 <= start < s.len() {
        assert(!fresh_match(m, s, req, max_age, now, start));
        lemma_no_fresh_from(m, s, req, max_age, now, start + 1);
    }
}

/// Replay gives back what was recorded: when every interaction accepted for a request
/// before has expired (or there is none), and an unexpired interaction holding the
/// request and a response is appended, replay answers with that response. This is how
/// an expired recording is replaced: the fresh re-recording is what is replayed.
pub proof fn lemma_record_then_replay<M: Matcher + ?Sized>(
    m: &M,
    s: Seq<InteractionView>,
    added: InteractionView,
    req: RequestView,
    max_age: Option<Nanos>,
    now: Timestamp,
    r: Result<Response, Error>,
)
    requires
        added.request == req,
        added.error is None,
        added.response is Some,
        m.spec_matches(req, req),
        forall|j: int|
            0 <= j < s.len() && m.spec_matches(#[trigger] s[j].request, req) ==> is_expired(
                s[j].recorded_at,
                max_age,
                now,
            ),
        s.len() < usize::MAX,
        !is_expired(added.recorded_at, max_age, now),
        playback_outcome(m, s.push(added), req, max_age, now, r),
    ensures
        r matches Ok(resp) && resp@ == replayed(added.response.unwrap()),
{
    lemma_fresh_after_record(m, s, added, req, max_age, now);
    assert(s.push(added)[s.len() as int] == added);
}

/// A recorded failure replays: when every interaction accepted for a request before has
/// expired (or there is none), and an unexpired interaction holding the request and an
/// error is appended, replay fails with the error that the recorded error stands for
/// (a timeout as a timeout, and so on).
pub proof fn lemma_record_error_then_replay<M: Matcher + ?Sized>(
    m: &M,
    s: Seq<InteractionView>,
    added: InteractionView,
    req: RequestView,
    max_age: Option<Nanos>,
    now: Timestamp,
    r: Result<Response, Error>,
)
    requires
        added.request == req,
        added.error is Some,
        m.spec_matches(req, req),
        forall|j: int|
            0 <= j < s.len() && m.spec_matches(#[trigger] s[j].request, req) ==> is_expired(
                s[j].recorded_at,
                max_age,
                now,
            ),
        s.len() < usize::MAX,
        !is_expired(added.recorded_at, max_age, now),
        playback_outcome(m, s.push(added), req, max_age, now, r),
    ensures
        r matches Err(err) && replays_error(added.error.unwrap(), err),
{
    lemma_fresh_after_record(m, s, added, req, max_age, now);
    assert(s.push(added)[s.len() as int] == added);
}

/// Expiry forces re-recording: when some interaction is accepted for a request but every
/// accepted one has expired, replay answers with the expiry error, so in auto mode the
/// request goes to the server and is recorded again.
pub proof fn lemma_expired_not_replayed<M: Matcher + ?Sized>(
    m: &M,
    s: Seq<InteractionView>,
    req: RequestView,
    max_age: Option<Nanos>,
    now: Timestamp,
    r: Result<Response, Error>,
)
    requires
        chosen(m, s, req) is Some,
        forall|j: int|
            0 <= j < s.len() && m.spec_matches(#[trigger] s[j].request, req) ==> is_expired(
                s[j].recorded_at,
                max_age,
                now,
            ),
        playback_outcome(m, s, req, max_age, now, r),
    ensures
        r matches Err(Error::CassetteExpired { recorded_at, max_age: a }) && max_age == Some(a),
{
    assert forall|j: int| 0 <= j < s.len() implies !#[trigger] fresh_match(m, s, req, max_age, now, j) by {
        if m.spec_matches(s[j].request, req) {
            assert(is_expired(s[j].recorded_at, max_age, now));
        }
    }
    lemma_no_fresh_candidate(m, s, positions_of(s, (uppercase(req.method), req.url)), req, max_age, now, 0);
    lemma_no_fresh_from(m, s, req, max_age, now, 0);
}

} // verus!
