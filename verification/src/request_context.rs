//! Explicit request-context propagation.
//!
//! A [`TraceMetadata`] correlates logs, events and state transitions of
//! off-chain work (webhook delivery, anchor calls, health events) with the
//! on-chain request that caused it. It travels
//!
//! - from an operation to its sub-operations, by [`TraceMetadata::child`];
//! - through outbound HTTP calls, as [`ContextHeader`]s;
//! - inside webhook payloads, as a line before the original payload;
//! - with [`AuditEntry`] and [`TransactionContextRecord`] values.

use crate::text;
use vstd::prelude::*;

verus! {

// ---------------------------------------------------------------------------
// TraceMetadata
// ---------------------------------------------------------------------------

/// Compact trace-context carrier used in off-chain call chains.
#[derive(Clone, Debug, PartialEq, Eq)]
pub struct TraceMetadata {
    /// Stable root request ID that originated this trace chain.
    pub root_request_id: String,
    /// Name of the current operation.
    pub operation: String,
    /// Parent request ID when this is a child span.
    pub parent_request_id: Option<String>,
    /// Zero-based depth of this span within the trace tree.
    pub depth: u32,
}

/// What a [`TraceMetadata`] says.
pub struct TraceView {
    pub root_request_id: Seq<char>,
    pub operation: Seq<char>,
    pub parent_request_id: Option<Seq<char>>,
    pub depth: u32,
}

/// The characters of an optional string.
pub open spec fn optional_text(s: Option<String>) -> Option<Seq<char>> {
    match s {
        Some(t) => Some(t@),
        None => None,
    }
}

impl View for TraceMetadata {
    type V = TraceView;

    open spec fn view(&self) -> TraceView {
        TraceView {
            root_request_id: self.root_request_id@,
            operation: self.operation@,
            parent_request_id: optional_text(self.parent_request_id),
            depth: self.depth,
        }
    }
}

/// What an optional [`TraceMetadata`] says.
pub open spec fn optional_trace(t: Option<TraceMetadata>) -> Option<TraceView> {
    match t {
        Some(meta) => Some(meta@),
        None => None,
    }
}

/// `n + 1`, or `n` where that does not fit.
pub open spec fn next_depth(n: u32) -> u32 {
    if n < u32::MAX {
        (n + 1) as u32
    } else {
        n
    }
}

impl TraceView {
    /// The root span of `root_request_id` with the given operation.
    pub open spec fn root(root_request_id: Seq<char>, operation: Seq<char>) -> TraceView {
        TraceView { root_request_id, operation, parent_request_id: None, depth: 0 }
    }

    /// The span of a sub-operation of this one.
    pub open spec fn child(self, operation: Seq<char>) -> TraceView {
        TraceView {
            root_request_id: self.root_request_id,
            operation,
            parent_request_id: Some(self.root_request_id),
            depth: next_depth(self.depth),
        }
    }

    /// The log prefix of this span.
    pub open spec fn log_prefix(self) -> Seq<char> {
        "[trace "@ + self.root_request_id + " op="@ + self.operation + " depth="@ + text::decimal(
            self.depth as nat,
        ) + "]"@
    }
}

impl TraceMetadata {
    /// A root-level trace context for `root_request_id`, with the operation
    /// `"root"` and no parent.
    pub fn new(root_request_id: String) -> (r: Self)
        ensures
            r@ == TraceView::root(root_request_id@, "root"@),
            r.root_request_id@ == root_request_id@,
            r.operation@ == "root"@,
            r.parent_request_id is None,
            r.depth == 0,
    {
        TraceMetadata {
            root_request_id,
            operation: "root".to_owned(),
            parent_request_id: None,
            depth: 0,
        }
    }

    /// A root trace with an explicit operation name.
    pub fn with_operation(root_request_id: String, operation: &str) -> (r: Self)
        ensures
            r@ == TraceView::root(root_request_id@, operation@),
            r.root_request_id@ == root_request_id@,
            r.operation@ == operation@,
            r.parent_request_id is None,
            r.depth == 0,
    {
        TraceMetadata {
            root_request_id,
            operation: operation.to_owned(),
            parent_request_id: None,
            depth: 0,
        }
    }

    /// The trace context of a sub-operation: it inherits `root_request_id`,
    /// names it as its parent, and lies one level deeper.
    pub fn child(&self, operation: &str) -> (r: Self)
        ensures
            r@ == self@.child(operation@),
            r.root_request_id@ == self.root_request_id@,
            r.operation@ == operation@,
            r.parent_request_id matches Some(parent) && parent@ == self.root_request_id@,
            self.depth < u32::MAX ==> r.depth == self.depth + 1,
            self.depth == u32::MAX ==> r.depth == u32::MAX,
    {
        TraceMetadata {
            root_request_id: self.root_request_id.clone(),
            operation: operation.to_owned(),
            parent_request_id: Some(self.root_request_id.clone()),
            depth: self.depth.saturating_add(1),
        }
    }

    /// Whether this is a root span (no parent).
    pub fn is_root(&self) -> (r: bool)
        ensures
            r == (self@.parent_request_id is None),
            r == (self.parent_request_id is None),
    {
        self.parent_request_id.is_none()
    }

    /// This context as a log prefix, such as
    /// `[trace req-abc-123 op=deliver_webhook depth=1]`.
    pub fn log_prefix(&self) -> (r: String)
        ensures
            r@ == self@.log_prefix(),
            r@ == "[trace "@ + self.root_request_id@ + " op="@ + self.operation@ + " depth="@
                + text::decimal(self.depth as nat) + "]"@,
    {
        let mut out: String = "[trace ".to_owned();
        out.append(self.root_request_id.as_str());
        out.append(" op=");
        out.append(self.operation.as_str());
        out.append(" depth=");
        text::push_decimal(&mut out, self.depth as u64);
        out.append("]");
        out
    }
}

// ---------------------------------------------------------------------------
// ContextHeader
// ---------------------------------------------------------------------------

/// An HTTP header that carries trace context through an outbound call.
#[derive(Clone, Debug, PartialEq, Eq)]
pub struct ContextHeader {
    pub name: String,
    pub value: String,
}

/// What a [`ContextHeader`] says.
pub struct HeaderView {
    pub name: Seq<char>,
    pub value: Seq<char>,
}

impl View for ContextHeader {
    type V = HeaderView;

    open spec fn view(&self) -> HeaderView {
        HeaderView { name: self.name@, value: self.value@ }
    }
}

/// Header that carries the root request ID.
pub const HEADER_TRACE_ID: &'static str = "X-Anchor-Trace-Id";

/// Header that carries the parent request ID.
pub const HEADER_PARENT_SPAN: &'static str = "X-Anchor-Parent-Span";

/// Header that carries the operation name.
pub const HEADER_OPERATION: &'static str = "X-Anchor-Operation";

/// What each header of a list says.
pub open spec fn header_views(headers: Seq<ContextHeader>) -> Seq<HeaderView> {
    headers.map_values(|h: ContextHeader| h@)
}

impl TraceView {
    /// The headers that carry this context: trace ID, operation and, where
    /// there is a parent, parent span.
    pub open spec fn headers(self) -> Seq<HeaderView> {
        let always = seq![
            HeaderView { name: HEADER_TRACE_ID@, value: self.root_request_id },
            HeaderView { name: HEADER_OPERATION@, value: self.operation },
        ];
        match self.parent_request_id {
            Some(parent) => always.push(HeaderView { name: HEADER_PARENT_SPAN@, value: parent }),
            None => always,
        }
    }

    /// The context that `headers` carry: `None` without a trace ID; the
    /// operation is `"unknown"` where no header names it.
    pub open spec fn from_headers(headers: Seq<HeaderView>) -> Option<TraceView> {
        match header_value(headers, HEADER_TRACE_ID@) {
            Some(root_request_id) => Some(
                TraceView {
                    root_request_id,
                    operation: match header_value(headers, HEADER_OPERATION@) {
                        Some(operation) => operation,
                        None => "unknown"@,
                    },
                    parent_request_id: header_value(headers, HEADER_PARENT_SPAN@),
                    depth: 0,
                },
            ),
            None => None,
        }
    }
}

/// The value of the first header called `name`.
pub open spec fn header_value(headers: Seq<HeaderView>, name: Seq<char>) -> Option<Seq<char>>
    decreases headers.len(),
{
    if headers.len() == 0 {
        None
    } else if headers[0].name == name {
        Some(headers[0].value)
    } else {
        header_value(headers.skip(1), name)
    }
}

/// A value is found exactly if some header has the name, and it is that of the
/// first such header.
pub proof fn lemma_header_value(headers: Seq<HeaderView>, name: Seq<char>)
    ensures
        header_value(headers, name) is Some <==> exists|i: int|
            0 <= i < headers.len() && #[trigger] headers[i].name == name,
        forall|i: int|
            0 <= i < headers.len() && #[trigger] headers[i].name == name && (forall|j: int|
                0 <= j < i ==> #[trigger] headers[j].name != name) ==> header_value(headers, name)
                == Some(headers[i].value),
    decreases headers.len(),
{
    if headers.len() > 0 {
        let rest = headers.skip(1);
        lemma_header_value(rest, name);
        if headers[0].name != name {
            if exists|i: int| 0 <= i < headers.len() && #[trigger] headers[i].name == name {
                let i = choose|i: int|
                    0 <= i < headers.len() && #[trigger] headers[i].name == name;
                assert(rest[i - 1].name == name);
            }
            if exists|i: int| 0 <= i < rest.len() && #[trigger] rest[i].name == name {
                let i = choose|i: int| 0 <= i < rest.len() && #[trigger] rest[i].name == name;
                assert(headers[i + 1].name == name);
            }
        }
        assert forall|i: int|
            0 <= i < headers.len() && #[trigger] headers[i].name == name && (forall|j: int|
                0 <= j < i ==> #[trigger] headers[j].name != name) implies header_value(
            headers,
            name,
        ) == Some(headers[i].value) by {
            if i > 0 {
                assert(headers[0].name != name);
                assert(rest[i - 1] == headers[i]);
                assert forall|j: int| 0 <= j < i - 1 implies #[trigger] rest[j].name != name by {
                    assert(rest[j] == headers[j + 1]);
                }
            }
        }
    }
}

/// What [`lemma_header_value`] says, of the headers themselves.
proof fn lemma_value_of_header(headers: Seq<ContextHeader>, name: Seq<char>)
    ensures
        header_value(header_views(headers), name) is Some <==> exists|i: int|
            0 <= i < headers.len() && #[trigger] headers[i].name@ == name,
        forall|i: int|
            0 <= i < headers.len() && #[trigger] headers[i].name@ == name && (forall|j: int|
                0 <= j < i ==> #[trigger] headers[j].name@ != name) ==> header_value(
                header_views(headers),
                name,
            ) == Some(headers[i].value@),
{
    let views = header_views(headers);
    lemma_header_value(views, name);
    if exists|i: int| 0 <= i < headers.len() && #[trigger] headers[i].name@ == name {
        let i = choose|i: int| 0 <= i < headers.len() && #[trigger] headers[i].name@ == name;
        assert(views[i].name == name);
    }
    if exists|i: int| 0 <= i < views.len() && #[trigger] views[i].name == name {
        let i = choose|i: int| 0 <= i < views.len() && #[trigger] views[i].name == name;
        assert(headers[i].name@ == name);
    }
    assert forall|i: int|
        0 <= i < headers.len() && #[trigger] headers[i].name@ == name && (forall|j: int|
            0 <= j < i ==> #[trigger] headers[j].name@ != name) implies header_value(views, name)
        == Some(headers[i].value@) by {
        assert(views[i].name == name);
        assert forall|j: int| 0 <= j < i implies #[trigger] views[j].name != name by {
            assert(headers[j].name@ != name);
        }
    }
}

/// The headers that carry `meta` in outbound HTTP requests.
pub fn trace_to_headers(meta: &TraceMetadata) -> (r: Vec<ContextHeader>)
    ensures
        header_views(r@) == meta@.headers(),
        r@.len() == (if meta.parent_request_id is Some {
            3nat
        } else {
            2nat
        }),
        r@[0].name@ == "X-Anchor-Trace-Id"@,
        r@[0].value@ == meta.root_request_id@,
        r@[1].name@ == "X-Anchor-Operation"@,
        r@[1].value@ == meta.operation@,
        meta.parent_request_id matches Some(parent) ==> r@[2].name@ == "X-Anchor-Parent-Span"@
            && r@[2].value@ == parent@,
{
    let mut headers: Vec<ContextHeader> = Vec::new();
    headers.push(
        ContextHeader {
            name: HEADER_TRACE_ID.to_owned(),
            value: meta.root_request_id.clone(),
        },
    );
    headers.push(
        ContextHeader { name: HEADER_OPERATION.to_owned(), value: meta.operation.clone() },
    );
    if let Some(parent) = &meta.parent_request_id {
        headers.push(
            ContextHeader { name: HEADER_PARENT_SPAN.to_owned(), value: parent.clone() },
        );
    }
    assert(header_views(headers@) =~= meta@.headers());
    headers
}

/// A copy of the value of the first header called `name`.
fn find_header(headers: &[ContextHeader], name: &str) -> (r: Option<String>)
    ensures
        optional_text(r) == header_value(header_views(headers@), name@),
{
    let mut i: usize = 0;
    let ghost all = header_views(headers@);
    assert(all.skip(0) =~= all);
    while i < headers.len()
        invariant
            i <= headers@.len(),
            all == header_views(headers@),
            header_value(all, name@) == header_value(all.skip(i as int), name@),
        decreases headers.len() - i,
    {
        let ghost rest = all.skip(i as int);
        if text::same_text(headers[i].name.as_str(), name) {
            return Some(headers[i].value.clone());
        }
        assert(rest.skip(1) =~= all.skip(i + 1));
        i += 1;
    }
    None
}

/// The trace context that HTTP headers carry; `None` when the required
/// `X-Anchor-Trace-Id` header is absent.
pub fn headers_to_trace(headers: &[ContextHeader]) -> (r: Option<TraceMetadata>)
    ensures
        optional_trace(r) == TraceView::from_headers(header_views(headers@)),
        r is Some <==> exists|i: int|
            0 <= i < headers@.len() && #[trigger] headers@[i].name@ == "X-Anchor-Trace-Id"@,
        r matches Some(t) ==> t.depth == 0,
        r matches Some(t) ==> forall|i: int|
            0 <= i < headers@.len() && #[trigger] headers@[i].name@ == "X-Anchor-Trace-Id"@ && (
            forall|j: int|
                0 <= j < i ==> #[trigger] headers@[j].name@ != "X-Anchor-Trace-Id"@)
                ==> t.root_request_id@ == headers@[i].value@,
        r matches Some(t) ==> forall|i: int|
            0 <= i < headers@.len() && #[trigger] headers@[i].name@ == "X-Anchor-Operation"@ && (
            forall|j: int|
                0 <= j < i ==> #[trigger] headers@[j].name@ != "X-Anchor-Operation"@)
                ==> t.operation@ == headers@[i].value@,
        r matches Some(t) && (forall|i: int|
            0 <= i < headers@.len() ==> #[trigger] headers@[i].name@ != "X-Anchor-Operation"@)
            ==> r->0.operation@ == "unknown"@,
        r matches Some(t) ==> forall|i: int|
            0 <= i < headers@.len() && #[trigger] headers@[i].name@ == "X-Anchor-Parent-Span"@ && (
            forall|j: int|
                0 <= j < i ==> #[trigger] headers@[j].name@ != "X-Anchor-Parent-Span"@)
                ==> optional_text(t.parent_request_id) == Some(headers@[i].value@),
        r matches Some(t) && (forall|i: int|
            0 <= i < headers@.len() ==> #[trigger] headers@[i].name@ != "X-Anchor-Parent-Span"@)
            ==> r->0.parent_request_id is None,
{
    proof {
        lemma_value_of_header(headers@, HEADER_TRACE_ID@);
        lemma_value_of_header(headers@, HEADER_OPERATION@);
        lemma_value_of_header(headers@, HEADER_PARENT_SPAN@);
    }
    let root_request_id: String = match find_header(headers, HEADER_TRACE_ID) {
        Some(value) => value,
        None => {
            return None;
        },
    };
    let operation: String = match find_header(headers, HEADER_OPERATION) {
        Some(value) => value,
        None => "unknown".to_owned(),
    };
    let parent_request_id: Option<String> = find_header(headers, HEADER_PARENT_SPAN);
    Some(TraceMetadata { root_request_id, operation, parent_request_id, depth: 0 })
}

// ---------------------------------------------------------------------------
// Webhook payloads
// ---------------------------------------------------------------------------

/// What a line that carries trace context begins with.
pub const PAYLOAD_PREFIX: &'static str = "[anchor-trace ";

impl TraceView {
    /// The payload with a line before it that carries this context.
    pub open spec fn enrich(self, payload: Seq<char>) -> Seq<char> {
        "[anchor-trace id="@ + self.root_request_id + " op="@ + self.operation + " depth="@
            + text::decimal(self.depth as nat) + "]\n"@ + payload
    }

    /// The context that the first line of `payload` carries.
    ///
    /// The line begins with [`PAYLOAD_PREFIX`]; behind all copies of it, and
    /// before the closing brackets, stand words `key=value`, of which the last
    /// with a given key counts. Without an `id`, or with an empty one, there is
    /// no context; without an `op` the operation is `"unknown"`; without a
    /// readable `depth` the depth is 0.
    pub open spec fn from_payload(payload: Seq<char>) -> Option<TraceView> {
        let line = text::first_line(payload);
        if PAYLOAD_PREFIX@.is_prefix_of(line) {
            TraceView::from_fields(
                text::words(
                    text::without_trailing(text::without_leading(line, PAYLOAD_PREFIX@), ']'),
                ),
            )
        } else {
            None
        }
    }

    /// The context that the words `key=value` give.
    pub open spec fn from_fields(fields: Seq<Seq<char>>) -> Option<TraceView> {
        match last_field(fields, "id="@) {
            Some(root_request_id) => if root_request_id.len() > 0 {
                Some(
                    TraceView {
                        root_request_id,
                        operation: match last_field(fields, "op="@) {
                            Some(operation) => operation,
                            None => "unknown"@,
                        },
                        parent_request_id: None,
                        depth: depth_field(last_field(fields, "depth="@)),
                    },
                )
            } else {
                None
            },
            None => None,
        }
    }
}

/// What follows `key` in the last of `fields` that begins with it.
pub open spec fn last_field(fields: Seq<Seq<char>>, key: Seq<char>) -> Option<Seq<char>>
    decreases fields.len(),
{
    if fields.len() == 0 {
        None
    } else if key.is_prefix_of(fields.last()) {
        text::after_prefix(fields.last(), key)
    } else {
        last_field(fields.drop_last(), key)
    }
}

/// The depth that a `depth` field gives: 0 where it is absent or no number.
pub open spec fn depth_field(field: Option<Seq<char>>) -> u32 {
    match field {
        Some(value) => match text::read_u32(value) {
            Some(depth) => depth,
            None => 0,
        },
        None => 0,
    }
}

/// The payload with trace context embedded before it:
///
/// ```text
/// [anchor-trace id=<root_request_id> op=<operation> depth=<depth>]
/// <original payload>
/// ```
pub fn enrich_webhook_payload(payload: &str, meta: &TraceMetadata) -> (r: String)
    ensures
        r@ == meta@.enrich(payload@),
        r@ == "[anchor-trace id="@ + meta.root_request_id@ + " op="@ + meta.operation@ + " depth="@
            + text::decimal(meta.depth as nat) + "]\n"@ + payload@,
{
    let mut out: String = "[anchor-trace id=".to_owned();
    out.append(meta.root_request_id.as_str());
    out.append(" op=");
    out.append(meta.operation.as_str());
    out.append(" depth=");
    text::push_decimal(&mut out, meta.depth as u64);
    out.append("]\n");
    out.append(payload);
    out
}

/// The trace context that [`enrich_webhook_payload`] embedded in `payload`;
/// `None` when the payload does not start with the expected prefix or carries
/// no request ID.
pub fn extract_trace_from_payload(payload: &str) -> (r: Option<TraceMetadata>)
    ensures
        optional_trace(r) == TraceView::from_payload(payload@),
{
    let line: &str = text::leading_line(payload);
    if text::strip_prefix(line, PAYLOAD_PREFIX).is_none() {
        return None;
    }
    let inner: &str = text::strip_trailing(text::strip_leading(line, PAYLOAD_PREFIX), ']');
    let parts: Vec<&str> = text::split_words(inner);
    let ghost fields = text::texts(parts@);

    let mut root_request_id: String = String::new();
    let mut operation: String = "unknown".to_owned();
    let mut depth: u32 = 0;
    let mut i: usize = 0;
    assert(fields.take(0) =~= Seq::<Seq<char>>::empty());
    while i < parts.len()
        invariant
            i <= parts@.len(),
            fields == text::texts(parts@),
            root_request_id@ == (match last_field(fields.take(i as int), "id="@) {
                Some(value) => value,
                None => Seq::<char>::empty(),
            }),
            operation@ == (match last_field(fields.take(i as int), "op="@) {
                Some(value) => value,
                None => "unknown"@,
            }),
            depth == depth_field(last_field(fields.take(i as int), "depth="@)),
        decreases parts.len() - i,
    {
        let part: &str = parts[i];
        proof {
            assert(fields.take(i + 1).drop_last() =~= fields.take(i as int));
            assert(fields.take(i + 1).last() == part@);
            lemma_keys_exclude_each_other(part@);
        }
        if let Some(value) = text::strip_prefix(part, "id=") {
            root_request_id = value.to_owned();
        } else if let Some(value) = text::strip_prefix(part, "op=") {
            operation = value.to_owned();
        } else if let Some(value) = text::strip_prefix(part, "depth=") {
            depth = match text::parse_u32(value) {
                Some(number) => number,
                None => 0,
            };
        }
        i += 1;
    }
    assert(fields.take(i as int) =~= fields);
    if root_request_id.as_str().is_empty() {
        return None;
    }
    Some(TraceMetadata { root_request_id, operation, parent_request_id: None, depth })
}

/// A word begins with at most one of the three keys.
pub(crate) proof fn lemma_keys_exclude_each_other(word: Seq<char>)
    ensures
        "id="@.is_prefix_of(word) ==> !"op="@.is_prefix_of(word),
        "id="@.is_prefix_of(word) ==> !"depth="@.is_prefix_of(word),
        "op="@.is_prefix_of(word) ==> !"depth="@.is_prefix_of(word),
{
    reveal_strlit("id=");
    reveal_strlit("op=");
    reveal_strlit("depth=");
    if "id="@.is_prefix_of(word) {
        assert(word.subrange(0, 3)[0] == 'i');
    }
    if "op="@.is_prefix_of(word) {
        assert(word.subrange(0, 3)[0] == 'o');
    }
    if "depth="@.is_prefix_of(word) {
        assert(word.subrange(0, 6)[0] == 'd');
    }
}

// ---------------------------------------------------------------------------
// AuditEntry
// ---------------------------------------------------------------------------

/// A structured audit record that carries full trace context alongside the
/// operation details.
#[derive(Clone, Debug, PartialEq, Eq)]
pub struct AuditEntry {
    /// Trace context linking this entry to its originating request.
    pub trace: TraceMetadata,
    /// Session ID (`None` for operations outside a session).
    pub session_id: Option<u64>,
    /// Actor (Stellar account ID string).
    pub actor: String,
    /// Name of the operation.
    pub operation: String,
    /// Unix timestamp in seconds.
    pub timestamp: u64,
    /// Status string: `"success"` or `"failed"`.
    pub status: String,
    /// Error detail when `status == "failed"`.
    pub error: Option<String>,
}

/// How a summary names the session; empty outside a session.
pub open spec fn session_part(session_id: Option<u64>) -> Seq<char> {
    match session_id {
        Some(id) => " session="@ + text::decimal(id as nat),
        None => Seq::empty(),
    }
}

impl AuditEntry {
    /// A successful audit entry with trace metadata.
    pub fn success(
        trace: TraceMetadata,
        session_id: Option<u64>,
        actor: String,
        operation: String,
        timestamp: u64,
    ) -> (r: Self)
        ensures
            r.trace == trace,
            r.session_id == session_id,
            r.actor == actor,
            r.operation == operation,
            r.timestamp == timestamp,
            r.status@ == "success"@,
            r.error is None,
    {
        AuditEntry {
            trace,
            session_id,
            actor,
            operation,
            timestamp,
            status: "success".to_owned(),
            error: None,
        }
    }

    /// A failed audit entry with an error description.
    pub fn failed(
        trace: TraceMetadata,
        session_id: Option<u64>,
        actor: String,
        operation: String,
        timestamp: u64,
        error: String,
    ) -> (r: Self)
        ensures
            r.trace == trace,
            r.session_id == session_id,
            r.actor == actor,
            r.operation == operation,
            r.timestamp == timestamp,
            r.status@ == "failed"@,
            r.error == Some(error),
    {
        AuditEntry {
            trace,
            session_id,
            actor,
            operation,
            timestamp,
            status: "failed".to_owned(),
            error: Some(error),
        }
    }

    /// What [`AuditEntry::summary`] writes.
    pub open spec fn summary_text(self) -> Seq<char> {
        self.trace@.log_prefix() + " actor="@ + self.actor@ + session_part(self.session_id)
            + " status="@ + self.status@ + " ts="@ + text::decimal(self.timestamp as nat)
    }

    /// A one-line summary for log output, such as
    /// `[trace req-abc op=submit_attestation depth=0] actor=G... session=42 status=success ts=1000000`.
    pub fn summary(&self) -> (r: String)
        ensures
            r@ == self.summary_text(),
            self.session_id is None ==> r@ == "[trace "@ + self.trace.root_request_id@ + " op="@
                + self.trace.operation@ + " depth="@ + text::decimal(self.trace.depth as nat)
                + "]"@ + " actor="@ + self.actor@ + " status="@ + self.status@ + " ts="@
                + text::decimal(self.timestamp as nat),
            self.session_id matches Some(id) ==> r@ == "[trace "@ + self.trace.root_request_id@
                + " op="@ + self.trace.operation@ + " depth="@ + text::decimal(
                self.trace.depth as nat,
            ) + "]"@ + " actor="@ + self.actor@ + " session="@ + text::decimal(id as nat)
                + " status="@ + self.status@ + " ts="@ + text::decimal(self.timestamp as nat),
    {
        let mut out: String = self.trace.log_prefix();
        out.append(" actor=");
        out.append(self.actor.as_str());
        let ghost before_session = out@;
        if let Some(id) = self.session_id {
            out.append(" session=");
            text::push_decimal(&mut out, id);
        }
        assert(out@ =~= before_session + session_part(self.session_id));
        out.append(" status=");
        out.append(self.status.as_str());
        out.append(" ts=");
        text::push_decimal(&mut out, self.timestamp);
        out
    }
}

// ---------------------------------------------------------------------------
// TransactionContextRecord
// ---------------------------------------------------------------------------

/// A transaction state with the trace context of the request that initiated
/// it, so that every state transition can be correlated with that request.
#[derive(Clone, Debug)]
pub struct TransactionContextRecord {
    /// The on-chain transaction ID.
    pub transaction_id: u64,
    /// Current state (`"pending"`, `"in_progress"`, `"completed"`, `"failed"`).
    pub state: String,
    /// Trace context from the request that initiated this transaction.
    pub trace: TraceMetadata,
    /// Actor (Stellar account ID string).
    pub initiator: String,
    /// Unix timestamp of the most recent state change.
    pub last_updated: u64,
    /// Routing reason recorded at creation time.
    pub routing_reason: Option<String>,
}

} // verus!
