use vstd::prelude::*;
use crate::attributes::{views, Attribute, AttributeValue, ValueView};
use crate::keyed::{
    distinct_keys, lemma_position_found, lemma_value_of_with_entry,
    lemma_with_entry_keeps_distinct, position_of, value_of, with_entries, with_entry,
};
use crate::propagation::{extract, extracted, Carrier, SpanContext};
use crate::text::{
    chars_of, decimal_text, is_whitespace, is_whitespace_char, lemma_trim_end, lemma_trim_end_is,
    push_decimal,
    string_of, text_or_empty, trim_end,
};

verus! {

// The keys under which the hooks record a request and its response, from
// the controlled vocabulary of the semantic conventions.

pub const URL_PATH: &'static str = "url.path";

pub const URL_SCHEME: &'static str = "url.scheme";

pub const HTTP_ROUTE: &'static str = "http.route";

pub const HTTP_REQUEST_METHOD: &'static str = "http.request.method";

pub const HTTP_REQUEST_HEADER: &'static str = "http.request.header";

pub const NETWORK_PROTOCOL_VERSION: &'static str = "network.protocol.version";

pub const CLIENT_ADDRESS: &'static str = "client.address";

pub const USER_AGENT_ORIGINAL: &'static str = "user_agent.original";

pub const HTTP_RESPONSE_STATUS_CODE: &'static str = "http.response.status_code";

pub const ERROR_TYPE: &'static str = "error.type";

/// The name of the header that names the host a request was sent to.
pub const HOST: &'static str = "host";

/// The name of the header that names the client's software.
pub const USER_AGENT: &'static str = "user-agent";

/// The scheme of a request that names none.
pub const DEFAULT_SCHEME: &'static str = "http";

/// The least status code that marks a response as failed.
pub const FIRST_ERROR_STATUS: u16 = 400;

/// What the hooks read of an inbound request. Header names are in lower
/// case, as header maps keep them.
#[derive(Clone, Debug)]
pub struct RequestInfo {
    pub method: String,
    pub path: String,
    pub scheme: Option<String>,
    pub matched_route: Option<String>,
    pub headers: Carrier,
    pub headers_rendering: String,
    pub protocol_version: String,
}

/// How a span ended, as far as it is known. The hooks mark a span as
/// failed or leave its status alone; only one who knows that the work
/// succeeded says so.
#[derive(Clone, Copy, Debug, PartialEq, Eq, Structural)]
pub enum SpanStatus {
    Unset,
    Okay,
    Error,
}

/// Where a span stands in its life. It only moves forward.
#[derive(Clone, Copy, Debug, PartialEq, Eq, Structural)]
pub enum SpanStage {
    Created,
    Recording,
    Ended,
}

/// The record of one request: its name, the context of its parent, what
/// was recorded of it, and how it ended.
#[derive(Clone, Debug)]
pub struct Span {
    name: String,
    parent: Option<SpanContext>,
    attributes: Vec<Attribute>,
    status: SpanStatus,
    stage: SpanStage,
}

/// A span as contracts speak of it.
pub struct SpanView {
    pub name: Seq<char>,
    pub parent: Option<SpanContext>,
    pub attributes: Seq<(Seq<char>, ValueView)>,
    pub status: SpanStatus,
    pub stage: SpanStage,
}

impl View for Span {
    type V = SpanView;

    closed spec fn view(&self) -> SpanView {
        SpanView {
            name: self.name@,
            parent: self.parent,
            attributes: views(self.attributes@),
            status: self.status,
            stage: self.stage,
        }
    }
}

/// How far a span has come in its life.
pub open spec fn stage_rank(stage: SpanStage) -> nat {
    match stage {
        SpanStage::Created => 0,
        SpanStage::Recording => 1,
        SpanStage::Ended => 2,
    }
}

impl SpanView {
    /// Whether the span has ended.
    pub open spec fn ended(self) -> bool {
        self.stage == SpanStage::Ended
    }

    /// The span after `value` was recorded under `key`, in place of what was
    /// recorded there. A span that has ended stays as it is.
    pub open spec fn with_attribute(self, key: Seq<char>, value: ValueView) -> SpanView {
        if self.ended() {
            self
        } else {
            SpanView { attributes: with_entry(self.attributes, key, value), ..self }
        }
    }

    /// The span after each of `entries` was recorded in turn. A span that has
    /// ended stays as it is.
    pub open spec fn with_attributes(self, entries: Seq<(Seq<char>, ValueView)>) -> SpanView {
        if self.ended() {
            self
        } else {
            SpanView { attributes: with_entries(self.attributes, entries), ..self }
        }
    }

    /// The span after it was ended.
    pub open spec fn after_end(self) -> SpanView {
        SpanView { stage: SpanStage::Ended, ..self }
    }

    /// The span after the hook at the start of `request`: what is read of
    /// the request is recorded, and the span is recording. A span that has
    /// ended stays as it is.
    pub open spec fn after_request(self, request: RequestInfo) -> SpanView {
        if self.ended() {
            self
        } else {
            SpanView {
                attributes: with_entries(self.attributes, request_entries(request)),
                stage: SpanStage::Recording,
                ..self
            }
        }
    }

    /// The span after the hook at the end of a response with `status_code`:
    /// the status code is recorded, a failed response marks the span as
    /// failed and any other leaves its status alone, and the span has ended.
    /// A span that had ended before stays as it is.
    pub open spec fn after_response(self, status_code: u16) -> SpanView {
        if self.ended() {
            self
        } else {
            SpanView {
                attributes: with_entries(self.attributes, response_entries(status_code)),
                status: if is_error_status(status_code) {
                    SpanStatus::Error
                } else {
                    self.status
                },
                stage: SpanStage::Ended,
                ..self
            }
        }
    }
}

/// The name of the span of a request: the method, a space and the route it
/// matched, without white space at the end. A request that matched no
/// route is named by its method alone.
pub open spec fn span_name_text(method: Seq<char>, route: Option<String>) -> Seq<char> {
    trim_end(method + seq![' '] + text_or_empty(route))
}

/// The name of the span of a request with `method` that matched `route`.
pub fn span_name(method: &str, route: &Option<String>) -> (name: String)
    ensures
        name@ == span_name_text(method@, *route),
{
    let mut full = chars_of(method);
    full.push(' ');
    match route {
        Some(route) => {
            let mut rest = chars_of(route.as_str());
            full.append(&mut rest);
        },
        None => {},
    }
    assert(full@ =~= method@ + seq![' '] + text_or_empty(*route));
    let mut n: usize = full.len();
    while n > 0 && is_whitespace_char(full[n - 1])
        invariant
            n <= full.len(),
            forall|i: int| n <= i < full.len() ==> is_whitespace(#[trigger] full@[i]),
        decreases n,
    {
        n -= 1;
    }
    proof {
        lemma_trim_end_is(full@, n as int);
    }
    string_of(&full, 0, n)
}

impl Span {
    /// What was recorded has distinct keys.
    pub open spec fn well_formed(&self) -> bool {
        distinct_keys(self@.attributes)
    }

    /// A span that was just created: nothing recorded, no status.
    pub fn new(name: String, parent: Option<SpanContext>) -> (span: Span)
        ensures
            span@ == (SpanView {
                name: name@,
                parent,
                attributes: Seq::empty(),
                status: SpanStatus::Unset,
                stage: SpanStage::Created,
            }),
            span.well_formed(),
    {
        let span = Span {
            name,
            parent,
            attributes: Vec::new(),
            status: SpanStatus::Unset,
            stage: SpanStage::Created,
        };
        assert(span@.attributes =~= Seq::empty());
        span
    }

    /// The name of the span.
    pub fn name(&self) -> (name: &String)
        ensures
            name@ == self@.name,
    {
        &self.name
    }

    /// The context of the parent; `None` for the root of a trace.
    pub fn parent(&self) -> (parent: Option<SpanContext>)
        ensures
            parent == self@.parent,
    {
        self.parent
    }

    /// What was recorded, in the order in which the keys first came.
    pub fn attributes(&self) -> (attributes: &Vec<Attribute>)
        ensures
            views(attributes@) == self@.attributes,
    {
        &self.attributes
    }

    /// How the span ended, as far as it is known.
    pub fn status(&self) -> (status: SpanStatus)
        ensures
            status == self@.status,
    {
        self.status
    }

    /// Where the span stands in its life.
    pub fn stage(&self) -> (stage: SpanStage)
        ensures
            stage == self@.stage,
    {
        self.stage
    }

    /// Whether the span has ended.
    pub fn is_ended(&self) -> (ended: bool)
        ensures
            ended == (self@.stage == SpanStage::Ended),
    {
        match self.stage {
            SpanStage::Ended => true,
            _ => false,
        }
    }

    /// What was recorded under `key`, if anything.
    pub fn attribute(&self, key: &str) -> (value: Option<&AttributeValue>)
        ensures
            match value {
                Some(v) => value_of(self@.attributes, key@) == Some(v@),
                None => value_of(self@.attributes, key@) is None,
            },
    {
        let at = self.find(key);
        if at < self.attributes.len() {
            Some(&self.attributes[at].value)
        } else {
            None
        }
    }

    /// The position of the first attribute under `key`, or their number.
    fn find(&self, key: &str) -> (at: usize)
        ensures
            at == position_of(self@.attributes, key@),
            at <= self.attributes@.len(),
    {
        let wanted: String = key.to_owned();
        let mut i: usize = 0;
        while i < self.attributes.len()
            invariant
                i <= self.attributes@.len(),
                wanted@ == key@,
                forall|j: int| 0 <= j < i ==> (#[trigger] self@.attributes[j]).0 != key@,
            decreases self.attributes@.len() - i,
        {
            if self.attributes[i].key == wanted {
                proof {
                    lemma_position_found(self@.attributes, key@, i as int);
                }
                return i;
            }
            i += 1;
        }
        proof {
            lemma_position_found(self@.attributes, key@, i as int);
        }
        i
    }

    /// Records `attribute`, in place of what was recorded under its key. A
    /// span that has ended takes no more attributes and stays as it is.
    pub fn record(&mut self, attribute: Attribute)
        ensures
            final(self)@ == old(self)@.with_attribute(attribute@.0, attribute@.1),
            old(self).well_formed() ==> final(self).well_formed(),
    {
        if self.is_ended() {
            return ;
        }
        let at = self.find(attribute.key.as_str());
        proof {
            if old(self).well_formed() {
                lemma_with_entry_keeps_distinct(old(self)@.attributes, attribute@.0, attribute@.1);
            }
        }
        if at < self.attributes.len() {
            self.attributes.set(at, attribute);
        } else {
            self.attributes.push(attribute);
        }
        assert(self@.attributes =~= with_entry(old(self)@.attributes, attribute@.0, attribute@.1));
    }

    /// Ends the span: what was recorded stays, and nothing more is taken.
    pub fn end(&mut self)
        ensures
            final(self)@ == old(self)@.after_end(),
            old(self).well_formed() ==> final(self).well_formed(),
    {
        self.stage = SpanStage::Ended;
    }
}

impl Span {
    /// Records each of `attributes` in turn.
    pub fn record_all(&mut self, attributes: Vec<Attribute>)
        ensures
            final(self)@ == old(self)@.with_attributes(views(attributes@)),
            old(self).well_formed() ==> final(self).well_formed(),
    {
        let ghost all = attributes@;
        for attribute in it: attributes
            invariant
                it.seq() == all,
                self@ == old(self)@.with_attributes(views(all).take(it.index() as int)),
                old(self).well_formed() ==> self.well_formed(),
        {
            proof {
                let done = it.index() as int;
                assert(views(all).take(done + 1).drop_last() =~= views(all).take(done));
                assert(views(all).take(done + 1).last() == attribute@);
            }
            self.record(attribute);
        }
        assert(views(all).take(all.len() as int) =~= views(all));
    }
}

/// What the hook at the start of a request records of it: the path, the
/// scheme (`http` where the request names none), the matched route (empty
/// where none matched), the method, the rendering of the headers and the
/// protocol version; then the client address and the client's software, each
/// only where the request has the header.
pub open spec fn request_entries(request: RequestInfo) -> Seq<(Seq<char>, ValueView)> {
    let fixed = seq![
        (URL_PATH@, ValueView::Text(request.path@)),
        (
            URL_SCHEME@,
            ValueView::Text(
                match request.scheme {
                    Some(scheme) => scheme@,
                    None => DEFAULT_SCHEME@,
                },
            ),
        ),
        (HTTP_ROUTE@, ValueView::Text(text_or_empty(request.matched_route))),
        (HTTP_REQUEST_METHOD@, ValueView::Text(request.method@)),
        (HTTP_REQUEST_HEADER@, ValueView::Text(request.headers_rendering@)),
        (NETWORK_PROTOCOL_VERSION@, ValueView::Text(request.protocol_version@)),
    ];
    let address = match value_of(request.headers@, HOST@) {
        Some(host) => seq![(CLIENT_ADDRESS@, ValueView::Text(host))],
        None => Seq::empty(),
    };
    let agent = match value_of(request.headers@, USER_AGENT@) {
        Some(agent) => seq![(USER_AGENT_ORIGINAL@, ValueView::Text(agent))],
        None => Seq::empty(),
    };
    fixed + address + agent
}

/// What the hook at the start of a request records of it.
pub fn request_attributes(request: &RequestInfo) -> (attributes: Vec<Attribute>)
    ensures
        views(attributes@) == request_entries(*request),
{
    let mut attributes: Vec<Attribute> = Vec::new();
    attributes.push(Attribute::text(URL_PATH, request.path.clone()));
    let scheme = match &request.scheme {
        Some(scheme) => scheme.clone(),
        None => DEFAULT_SCHEME.to_owned(),
    };
    attributes.push(Attribute::text(URL_SCHEME, scheme));
    let route = match &request.matched_route {
        Some(route) => route.clone(),
        None => String::new(),
    };
    attributes.push(Attribute::text(HTTP_ROUTE, route));
    attributes.push(Attribute::text(HTTP_REQUEST_METHOD, request.method.clone()));
    attributes.push(Attribute::text(HTTP_REQUEST_HEADER, request.headers_rendering.clone()));
    attributes.push(Attribute::text(NETWORK_PROTOCOL_VERSION, request.protocol_version.clone()));
    match request.headers.get(HOST) {
        Some(host) => {
            attributes.push(Attribute::text(CLIENT_ADDRESS, host.clone()));
        },
        None => {},
    }
    match request.headers.get(USER_AGENT) {
        Some(agent) => {
            attributes.push(Attribute::text(USER_AGENT_ORIGINAL, agent.clone()));
        },
        None => {},
    }
    assert(views(attributes@) =~= request_entries(*request));
    attributes
}

/// Whether a response with `status_code` failed.
pub open spec fn is_error_status(status_code: u16) -> bool {
    status_code >= FIRST_ERROR_STATUS
}

/// What the hook at the end of a response records of it: the status code as
/// a number, and for a failed response the kind of error, which is the
/// status code in decimal.
pub open spec fn response_entries(status_code: u16) -> Seq<(Seq<char>, ValueView)> {
    if is_error_status(status_code) {
        seq![
            (HTTP_RESPONSE_STATUS_CODE@, ValueView::Integer(status_code as i64)),
            (ERROR_TYPE@, ValueView::Text(decimal_text(status_code as nat))),
        ]
    } else {
        seq![(HTTP_RESPONSE_STATUS_CODE@, ValueView::Integer(status_code as i64))]
    }
}

/// What the hook at the end of a response records of it.
pub fn response_attributes(status_code: u16) -> (attributes: Vec<Attribute>)
    ensures
        views(attributes@) == response_entries(status_code),
{
    let mut attributes: Vec<Attribute> = Vec::new();
    attributes.push(Attribute::integer(HTTP_RESPONSE_STATUS_CODE, status_code as i64));
    if status_code >= FIRST_ERROR_STATUS {
        let mut kind = String::new();
        push_decimal(&mut kind, status_code as u64);
        assert(kind@ =~= decimal_text(status_code as nat));
        attributes.push(Attribute::text(ERROR_TYPE, kind));
    }
    assert(views(attributes@) =~= response_entries(status_code));
    attributes
}

/// The span of an inbound request, just created: named after the method and
/// the matched route, with the context that the request's headers carry as
/// its parent. A request without such a header, or with a malformed one,
/// starts a trace of its own.
pub fn make_span_with_impl(request: &RequestInfo) -> (span: Span)
    ensures
        span@ == (SpanView {
            name: span_name_text(request.method@, request.matched_route),
            parent: extracted(request.headers@),
            attributes: Seq::empty(),
            status: SpanStatus::Unset,
            stage: SpanStage::Created,
        }),
        span.well_formed(),
{
    let name = span_name(request.method.as_str(), &request.matched_route);
    let parent = extract(&request.headers);
    Span::new(name, parent)
}

/// The hook at the start of a request: records what is read of the request
/// and has the span recording. A span that has ended stays as it is.
pub fn on_request_impl(request: &RequestInfo, span: &mut Span)
    ensures
        final(span)@ == old(span)@.after_request(*request),
        old(span).well_formed() ==> final(span).well_formed(),
{
    if span.is_ended() {
        return ;
    }
    span.record_all(request_attributes(request));
    span.stage = SpanStage::Recording;
}

/// The hook at the end of a response: records the status code, marks the
/// span as failed where the status code says so and leaves its status
/// alone otherwise, and ends the span. A span that has ended stays as it is.
/// The time that the response took is not recorded.
pub fn on_response_impl(status_code: u16, _elapsed: std::time::Duration, span: &mut Span)
    ensures
        final(span)@ == old(span)@.after_response(status_code),
        old(span).well_formed() ==> final(span).well_formed(),
{
    if span.is_ended() {
        return ;
    }
    span.record_all(response_attributes(status_code));
    if status_code >= FIRST_ERROR_STATUS {
        span.status = SpanStatus::Error;
    }
    span.end();
}

/// The name of a span is the method, the space and the route as far as
/// they go before the white space at their end: it ends in no white space.
pub proof fn lemma_span_name_is_trimmed(method: Seq<char>, route: Option<String>)
    ensures
        span_name_text(method, route).len() <= method.len() + 1 + text_or_empty(route).len(),
        span_name_text(method, route) == (method + seq![' '] + text_or_empty(route)).take(
            span_name_text(method, route).len() as int,
        ),
        span_name_text(method, route).len() > 0 ==> !is_whitespace(
            span_name_text(method, route).last(),
        ),
{
    lemma_trim_end(method + seq![' '] + text_or_empty(route));
}

/// A request that matched no route is named by its method alone, when the
/// method does not end in white space.
pub proof fn lemma_span_name_without_route(method: Seq<char>)
    requires
        method.len() > 0,
        !is_whitespace(method.last()),
    ensures
        span_name_text(method, None) == method,
{
    let full = method + seq![' '] + text_or_empty(None);
    assert(full =~= method.push(' '));
    lemma_trim_end_is(full, method.len() as int);
    assert(full.take(method.len() as int) =~= method);
}

/// A request that matched a route is named by its method, a space and the
/// route, when the route does not end in white space.
pub proof fn lemma_span_name_with_route(method: Seq<char>, route: String)
    requires
        route@.len() > 0,
        !is_whitespace(route@.last()),
    ensures
        span_name_text(method, Some(route)) == method + seq![' '] + route@,
{
    let full = method + seq![' '] + route@;
    lemma_trim_end_is(full, full.len() as int);
    assert(full.take(full.len() as int) =~= full);
}

/// A span that has ended is immutable: no hook, no recording and no second
/// ending changes it.
pub proof fn lemma_ended_span_stays(
    span: SpanView,
    request: RequestInfo,
    status_code: u16,
    entries: Seq<(Seq<char>, ValueView)>,
)
    requires
        span.ended(),
    ensures
        span.after_request(request) == span,
        span.after_response(status_code) == span,
        span.with_attributes(entries) == span,
        span.after_end() == span,
{
}

/// A span only moves forward in its life, and the hook at the end of a
/// response always leaves it ended.
pub proof fn lemma_stage_moves_forward(
    span: SpanView,
    request: RequestInfo,
    status_code: u16,
    entries: Seq<(Seq<char>, ValueView)>,
)
    ensures
        stage_rank(span.after_request(request).stage) >= stage_rank(span.stage),
        stage_rank(span.after_response(status_code).stage) >= stage_rank(span.stage),
        stage_rank(span.with_attributes(entries).stage) == stage_rank(span.stage),
        stage_rank(span.after_end().stage) >= stage_rank(span.stage),
        span.after_response(status_code).ended(),
        span.after_end().ended(),
{
}

/// How the hook at the end of a response classifies it, on a span that has
/// not ended. A response that did not fail leaves the status of the span and
/// what is recorded as the kind of error as they were; a failed response
/// marks the span as failed and records its status code, in decimal, as the
/// kind of error. Either way the status code is recorded as a number.
pub proof fn lemma_response_classification(span: SpanView, status_code: u16)
    requires
        !span.ended(),
    ensures
        value_of(span.after_response(status_code).attributes, HTTP_RESPONSE_STATUS_CODE@) == Some(
            ValueView::Integer(status_code as i64),
        ),
        !is_error_status(status_code) ==> span.after_response(status_code).status == span.status
            && value_of(span.after_response(status_code).attributes, ERROR_TYPE@) == value_of(
            span.attributes,
            ERROR_TYPE@,
        ),
        is_error_status(status_code) ==> span.after_response(status_code).status
            == SpanStatus::Error && value_of(
            span.after_response(status_code).attributes,
            ERROR_TYPE@,
        ) == Some(ValueView::Text(decimal_text(status_code as nat))),
{
    reveal_strlit("http.response.status_code");
    reveal_strlit("error.type");
    assert(HTTP_RESPONSE_STATUS_CODE@.len() != ERROR_TYPE@.len());
    let code = (HTTP_RESPONSE_STATUS_CODE@, ValueView::Integer(status_code as i64));
    let first = with_entry(span.attributes, code.0, code.1);
    lemma_value_of_with_entry(span.attributes, code.0, code.1, HTTP_RESPONSE_STATUS_CODE@);
    lemma_value_of_with_entry(span.attributes, code.0, code.1, ERROR_TYPE@);
    reveal_with_fuel(with_entries, 3);
    if is_error_status(status_code) {
        let kind = (ERROR_TYPE@, ValueView::Text(decimal_text(status_code as nat)));
        let entries = response_entries(status_code);
        assert(entries.drop_last() =~= seq![code]);
        assert(entries.drop_last().drop_last() =~= Seq::<(Seq<char>, ValueView)>::empty());
        assert(with_entries(span.attributes, entries) == with_entry(first, kind.0, kind.1));
        lemma_value_of_with_entry(first, kind.0, kind.1, HTTP_RESPONSE_STATUS_CODE@);
        lemma_value_of_with_entry(first, kind.0, kind.1, ERROR_TYPE@);
    } else {
        let entries = response_entries(status_code);
        assert(entries.drop_last() =~= Seq::<(Seq<char>, ValueView)>::empty());
        assert(with_entries(span.attributes, entries) == first);
    }
}

} // verus!
