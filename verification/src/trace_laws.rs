//! Laws of request-context propagation, over the models that the contracts of
//! [`request_context`](crate::request_context) use.

use crate::request_context;
use crate::request_context::{
    AuditEntry, ContextHeader, HeaderView, TraceMetadata, TraceView,
};
use crate::request_context::{HEADER_OPERATION, HEADER_PARENT_SPAN, HEADER_TRACE_ID};
use crate::request_context::PAYLOAD_PREFIX;
use crate::text;
use crate::text_laws;
use vstd::prelude::*;

verus! {

// ---------------------------------------------------------------------------
// Spans
// ---------------------------------------------------------------------------

/// The models say what the values hold, field by field.
pub proof fn law_models_are_faithful(
    meta: TraceMetadata,
    header: ContextHeader,
    headers: Seq<ContextHeader>,
)
    ensures
        meta@.root_request_id == meta.root_request_id@,
        meta@.operation == meta.operation@,
        meta@.depth == meta.depth,
        meta.parent_request_id is None <==> meta@.parent_request_id is None,
        meta.parent_request_id matches Some(parent) ==> meta@.parent_request_id == Some(parent@),
        header@.name == header.name@,
        header@.value == header.value@,
        request_context::header_views(headers).len() == headers.len(),
        forall|i: int|
            0 <= i < headers.len() ==> #[trigger] request_context::header_views(headers)[i]
                == headers[i]@,
        request_context::optional_trace(None) is None,
        request_context::optional_trace(Some(meta)) == Some(meta@),
        request_context::optional_text(None) is None,
        request_context::optional_text(Some(header.name)) == Some(header.name@),
{
}

/// A root span has no parent and lies at depth 0. A child keeps the root ID,
/// names it as its parent, has its own operation and lies one level deeper,
/// where there is one; its parent's operation and parent leave no trace in it.
pub proof fn law_root_and_child_spans(
    root_request_id: Seq<char>,
    operation: Seq<char>,
    trace: TraceView,
    twin: TraceView,
)
    ensures
        ({
            let root = TraceView::root(root_request_id, operation);
            let child = trace.child(operation);
            &&& root.root_request_id == root_request_id
            &&& root.operation == operation
            &&& root.parent_request_id is None
            &&& root.depth == 0
            &&& child.root_request_id == trace.root_request_id
            &&& child.operation == operation
            &&& child.parent_request_id == Some(trace.root_request_id)
            &&& trace.depth < u32::MAX ==> child.depth == trace.depth + 1
            &&& trace.depth == u32::MAX ==> child.depth == u32::MAX
            &&& twin.root_request_id == trace.root_request_id && twin.depth == trace.depth
                ==> twin.child(operation) == child
        }),
{
}

// ---------------------------------------------------------------------------
// Chains of spans
// ---------------------------------------------------------------------------

/// The span that a chain of sub-operations leads to.
pub open spec fn descend(trace: TraceView, operations: Seq<Seq<char>>) -> TraceView
    decreases operations.len(),
{
    if operations.len() == 0 {
        trace
    } else {
        descend(trace, operations.drop_last()).child(operations.last())
    }
}

/// The root request ID survives every chain of sub-operations: each span of the
/// chain carries it, names it as its parent, names its own operation, and lies
/// one level deeper than the span before, up to the largest depth.
pub proof fn law_root_survives_every_chain(trace: TraceView, operations: Seq<Seq<char>>)
    ensures
        ({
            let end = descend(trace, operations);
            &&& end.root_request_id == trace.root_request_id
            &&& operations.len() > 0 ==> end.parent_request_id == Some(trace.root_request_id)
            &&& operations.len() > 0 ==> end.operation == operations.last()
            &&& end.depth == (if trace.depth + operations.len() <= u32::MAX {
                trace.depth + operations.len()
            } else {
                u32::MAX as int
            })
        }),
    decreases operations.len(),
{
    if operations.len() > 0 {
        law_root_survives_every_chain(trace, operations.drop_last());
    }
}

// ---------------------------------------------------------------------------
// Headers
// ---------------------------------------------------------------------------

/// The three header names differ.
proof fn lemma_header_names_differ()
    ensures
        HEADER_TRACE_ID@ != HEADER_OPERATION@,
        HEADER_TRACE_ID@ != HEADER_PARENT_SPAN@,
        HEADER_OPERATION@ != HEADER_PARENT_SPAN@,
{
    reveal_strlit("X-Anchor-Trace-Id");
    reveal_strlit("X-Anchor-Operation");
    reveal_strlit("X-Anchor-Parent-Span");
    assert(HEADER_TRACE_ID@.len() == 17);
    assert(HEADER_OPERATION@.len() == 18);
    assert(HEADER_PARENT_SPAN@.len() == 20);
}

/// Each part of a context is found by the name of its header, wherever that
/// stands in the list, and the first header of a name counts: the trace ID,
/// without which there is no context; the operation, `"unknown"` exactly where
/// no header has its name; and the parent, absent exactly where no header has
/// its name.
pub proof fn law_headers_are_found_by_name(headers: Seq<HeaderView>, i: int)
    requires
        0 <= i < headers.len(),
        forall|j: int| 0 <= j < i ==> #[trigger] headers[j].name != headers[i].name,
    ensures
        headers[i].name == "X-Anchor-Trace-Id"@ ==> (TraceView::from_headers(
            headers,
        ) matches Some(t) && t.root_request_id == headers[i].value && t.depth == 0),
        headers[i].name == "X-Anchor-Operation"@ ==> (TraceView::from_headers(
            headers,
        ) matches Some(t) ==> t.operation == headers[i].value),
        headers[i].name == "X-Anchor-Parent-Span"@ ==> (TraceView::from_headers(
            headers,
        ) matches Some(t) ==> t.parent_request_id == Some(headers[i].value)),
{
    request_context::lemma_header_value(headers, HEADER_TRACE_ID@);
    request_context::lemma_header_value(headers, HEADER_OPERATION@);
    request_context::lemma_header_value(headers, HEADER_PARENT_SPAN@);
}

/// What no header names is absent: without a trace ID there is no context;
/// without an operation it is `"unknown"`; without a parent span there is no
/// parent.
pub proof fn law_unnamed_parts_are_absent(headers: Seq<HeaderView>)
    ensures
        (forall|i: int|
            0 <= i < headers.len() ==> #[trigger] headers[i].name != "X-Anchor-Trace-Id"@)
            <==> TraceView::from_headers(headers) is None,
        (forall|i: int|
            0 <= i < headers.len() ==> #[trigger] headers[i].name != "X-Anchor-Operation"@) ==> (
        TraceView::from_headers(headers) matches Some(t) ==> t.operation == "unknown"@),
        TraceView::from_headers(headers) matches Some(t) ==> ((forall|i: int|
            0 <= i < headers.len() ==> #[trigger] headers[i].name != "X-Anchor-Parent-Span"@)
            <==> t.parent_request_id is None),
{
    request_context::lemma_header_value(headers, HEADER_TRACE_ID@);
    request_context::lemma_header_value(headers, HEADER_OPERATION@);
    request_context::lemma_header_value(headers, HEADER_PARENT_SPAN@);
}

/// A header of another name before a list does not hide what the list says.
proof fn lemma_value_behind(front: Seq<HeaderView>, back: Seq<HeaderView>, name: Seq<char>)
    ensures
        request_context::header_value(front + back, name) == match request_context::header_value(
            front,
            name,
        ) {
            Some(value) => Some(value),
            None => request_context::header_value(back, name),
        },
    decreases front.len(),
{
    if front.len() == 0 {
        assert(front + back =~= back);
    } else {
        assert((front + back)[0] == front[0]);
        assert((front + back).skip(1) =~= front.skip(1) + back);
        lemma_value_behind(front.skip(1), back, name);
    }
}

/// Headers of other names make no difference, wherever they stand.
pub proof fn law_other_headers_make_no_difference(
    front: Seq<HeaderView>,
    other: HeaderView,
    back: Seq<HeaderView>,
)
    requires
        other.name != "X-Anchor-Trace-Id"@,
        other.name != "X-Anchor-Operation"@,
        other.name != "X-Anchor-Parent-Span"@,
    ensures
        TraceView::from_headers(front + (seq![other] + back)) == TraceView::from_headers(
            front + back,
        ),
{
    let one = seq![other];
    reveal_with_fuel(request_context::header_value, 2);
    lemma_value_behind(front, one + back, HEADER_TRACE_ID@);
    lemma_value_behind(one, back, HEADER_TRACE_ID@);
    lemma_value_behind(front, back, HEADER_TRACE_ID@);
    lemma_value_behind(front, one + back, HEADER_OPERATION@);
    lemma_value_behind(one, back, HEADER_OPERATION@);
    lemma_value_behind(front, back, HEADER_OPERATION@);
    lemma_value_behind(front, one + back, HEADER_PARENT_SPAN@);
    lemma_value_behind(one, back, HEADER_PARENT_SPAN@);
    lemma_value_behind(front, back, HEADER_PARENT_SPAN@);
}

/// Two neighbours of different names may change places, so headers of distinct
/// names may stand in any order.
pub proof fn law_header_order_makes_no_difference(
    front: Seq<HeaderView>,
    a: HeaderView,
    b: HeaderView,
    back: Seq<HeaderView>,
)
    requires
        a.name != b.name,
    ensures
        TraceView::from_headers(front + (seq![a, b] + back)) == TraceView::from_headers(
            front + (seq![b, a] + back),
        ),
{
    lemma_neighbours_may_change_places(front, a, b, back, HEADER_TRACE_ID@);
    lemma_neighbours_may_change_places(front, a, b, back, HEADER_OPERATION@);
    lemma_neighbours_may_change_places(front, a, b, back, HEADER_PARENT_SPAN@);
}

/// A value is found whichever of two neighbours of different names comes first.
proof fn lemma_neighbours_may_change_places(
    front: Seq<HeaderView>,
    a: HeaderView,
    b: HeaderView,
    back: Seq<HeaderView>,
    name: Seq<char>,
)
    requires
        a.name != b.name,
    ensures
        request_context::header_value(front + (seq![a, b] + back), name)
            == request_context::header_value(front + (seq![b, a] + back), name),
{
    lemma_value_behind(front, seq![a, b] + back, name);
    lemma_value_behind(front, seq![b, a] + back, name);
    lemma_value_behind(seq![a, b], back, name);
    lemma_value_behind(seq![b, a], back, name);
    reveal_with_fuel(request_context::header_value, 3);
    assert(seq![a, b].skip(1) =~= seq![b]);
    assert(seq![b, a].skip(1) =~= seq![a]);
}

/// The headers of a context are its trace ID, its operation and, where there is
/// one, its parent, and no others.
pub proof fn law_headers_say_nothing_else(trace: TraceView)
    ensures
        trace.headers().len() == (if trace.parent_request_id is Some {
            3nat
        } else {
            2nat
        }),
        trace.headers()[0].name == "X-Anchor-Trace-Id"@,
        trace.headers()[0].value == trace.root_request_id,
        trace.headers()[1].name == "X-Anchor-Operation"@,
        trace.headers()[1].value == trace.operation,
        trace.parent_request_id matches Some(parent) ==> trace.headers()[2].name
            == "X-Anchor-Parent-Span"@ && trace.headers()[2].value == parent,
{
}

/// Headers carry every context across a service boundary: what is read back is
/// what was sent, at depth 0.
pub proof fn law_headers_round_trip(trace: TraceView)
    ensures
        TraceView::from_headers(trace.headers()) == Some(TraceView { depth: 0, ..trace }),
{
    lemma_header_names_differ();
    reveal_with_fuel(request_context::header_value, 4);
    let headers = trace.headers();
    assert(headers.skip(1).skip(1) =~= headers.skip(2));
    if trace.parent_request_id is Some {
        assert(headers.skip(1).skip(1).skip(1).len() == 0);
    }
}

/// A receiver of headers continues the trace: the spans that it derives carry
/// the sender's root request ID.
pub proof fn law_receiver_continues_the_trace(trace: TraceView, operations: Seq<Seq<char>>)
    ensures
        TraceView::from_headers(trace.headers()) matches Some(received) && descend(
            received,
            operations,
        ).root_request_id == trace.root_request_id,
{
    law_headers_round_trip(trace);
    law_root_survives_every_chain(TraceView { depth: 0, ..trace }, operations);
}

/// The parent-span header is sent exactly if there is a parent.
pub proof fn law_parent_header_only_with_parent(trace: TraceView)
    ensures
        (exists|i: int|
            0 <= i < trace.headers().len() && #[trigger] trace.headers()[i].name
                == HEADER_PARENT_SPAN@) <==> trace.parent_request_id is Some,
{
    lemma_header_names_differ();
    let headers = trace.headers();
    if trace.parent_request_id is Some {
        assert(headers[2].name == HEADER_PARENT_SPAN@);
    }
}

// ---------------------------------------------------------------------------
// Payloads
// ---------------------------------------------------------------------------

/// The line that carries a context, without its line feed.
spec fn context_line(trace: TraceView) -> Seq<char> {
    "[anchor-trace id="@ + trace.root_request_id + " op="@ + trace.operation + " depth="@
        + text::decimal(trace.depth as nat) + "]"@
}

/// The words of a context line.
spec fn context_words(trace: TraceView) -> Seq<Seq<char>> {
    seq![
        "id="@ + trace.root_request_id,
        "op="@ + trace.operation,
        "depth="@ + text::decimal(trace.depth as nat),
    ]
}

/// An enriched payload is the context line, a line feed and the payload.
proof fn lemma_enrich_shape(trace: TraceView, payload: Seq<char>)
    ensures
        trace.enrich(payload) == context_line(trace) + "\n"@ + payload,
        "\n"@ == seq!['\n'],
{
    reveal_strlit("]\n");
    reveal_strlit("]");
    reveal_strlit("\n");
    assert("]\n"@ =~= "]"@ + "\n"@);
    assert("\n"@ =~= seq!['\n']);
    assert(trace.enrich(payload) =~= context_line(trace) + "\n"@ + payload);
}

/// A context line holds a line feed only where its request ID or operation
/// does, and ends with a bracket.
#[verifier::spinoff_prover]
proof fn lemma_context_line(trace: TraceView)
    ensures
        context_line(trace).len() > 0,
        context_line(trace).last() == ']',
        context_line(trace).contains('\n') <==> trace.root_request_id.contains('\n')
            || trace.operation.contains('\n'),
{
    reveal_strlit("[anchor-trace id=");
    reveal_strlit(" op=");
    reveal_strlit(" depth=");
    reveal_strlit("]");
    let root = trace.root_request_id;
    let op = trace.operation;
    let depth = text::decimal(trace.depth as nat);
    text::lemma_decimal_reads_back(trace.depth as nat);
    let a = "[anchor-trace id="@;
    let b = a + root;
    let c = b + " op="@;
    let d = c + op;
    let e = d + " depth="@;
    let f = e + depth;
    let line = context_line(trace);
    assert(line == f + "]"@);
    if root.contains('\n') {
        let i = choose|i: int| 0 <= i < root.len() && root[i] == '\n';
        assert(line[a.len() + i] == '\n');
    }
    if op.contains('\n') {
        let i = choose|i: int| 0 <= i < op.len() && op[i] == '\n';
        assert(line[c.len() + i] == '\n');
    }
    if line.contains('\n') {
        let i = choose|i: int| 0 <= i < line.len() && line[i] == '\n';
        if i < a.len() {
            assert(line[i] == a[i]);
        } else if i < b.len() {
            assert(line[i] == root[i - a.len()]);
        } else if i < c.len() {
            assert(line[i] == " op="@[i - b.len()]);
        } else if i < d.len() {
            assert(line[i] == op[i - c.len()]);
        } else if i < e.len() {
            assert(line[i] == " depth="@[i - d.len()]);
        } else if i < f.len() {
            assert(line[i] == depth[i - e.len()]);
            assert(text::is_digit(depth[i - e.len()]));
        } else {
            assert(line[i] == "]"@[i - f.len()]);
        }
    }
}

/// Consumers that look only at what follows the first line feed see the
/// original payload, exactly if neither the request ID nor the operation holds
/// a line feed.
pub proof fn law_payload_follows_first_line(trace: TraceView, payload: Seq<char>)
    ensures
        text::after_first_line(trace.enrich(payload)) == payload <==> !trace.root_request_id.contains(
            '\n',
        ) && !trace.operation.contains('\n'),
{
    let line = context_line(trace);
    let enriched = trace.enrich(payload);
    lemma_enrich_shape(trace, payload);
    lemma_context_line(trace);
    if line.contains('\n') {
        let i = choose|i: int| 0 <= i < line.len() && line[i] == '\n';
        assert(enriched[i] == '\n');
        text::lemma_length_before_bounds(enriched, text::line_feed());
        let n = text::length_before(enriched, text::line_feed());
        if n > i {
            assert(!text::line_feed()(enriched[i]));
        }
        assert(text::after_first_line(enriched).len() > payload.len());
    } else {
        lemma_first_line_of_enriched(trace, payload);
        assert(enriched.skip((line.len() + 1) as int) =~= payload);
    }
}

/// The first line of an enriched payload is the context line, where that holds
/// no line feed.
proof fn lemma_first_line_of_enriched(trace: TraceView, payload: Seq<char>)
    requires
        !context_line(trace).contains('\n'),
    ensures
        text::length_before(trace.enrich(payload), text::line_feed()) == context_line(trace).len(),
        text::first_line(trace.enrich(payload)) == context_line(trace),
{
    let line = context_line(trace);
    let enriched = trace.enrich(payload);
    lemma_enrich_shape(trace, payload);
    lemma_context_line(trace);
    assert forall|i: int| 0 <= i < line.len() implies !text::line_feed()(
        #[trigger] enriched[i],
    ) by {
        assert(enriched[i] == line[i]);
        assert(line.contains(line[i]));
    }
    assert(enriched[line.len() as int] == '\n');
    text::lemma_length_before(enriched, text::line_feed(), line.len() as int);
    assert(enriched[line.len() - 1] == ']');
    assert(enriched.take(line.len() as int) =~= line);
}

/// `key` before a solid text is a word.
proof fn lemma_solid_field(key: Seq<char>, value: Seq<char>)
    requires
        key.len() > 0,
        text::is_solid(key),
        text::is_solid(value),
    ensures
        text::is_solid(key + value),
        (key + value).len() > 0,
{
    let word = key + value;
    assert forall|i: int| 0 <= i < word.len() implies !text::is_white_space(
        #[trigger] word[i],
    ) by {
        if i < key.len() {
            assert(word[i] == key[i]);
        } else {
            assert(word[i] == value[i - key.len()]);
        }
    }
}

/// What stands between the prefix and the bracket of a context line.
spec fn context_inner(trace: TraceView) -> Seq<char> {
    let w = context_words(trace);
    w[0] + (seq![' '] + (w[1] + (seq![' '] + w[2])))
}

/// A context line is the prefix, its words and a bracket.
#[verifier::spinoff_prover]
proof fn lemma_context_line_shape(trace: TraceView)
    ensures
        context_line(trace) == "[anchor-trace "@ + (context_inner(trace) + seq![']']),
{
    reveal_strlit("[anchor-trace ");
    reveal_strlit("[anchor-trace id=");
    reveal_strlit(" op=");
    reveal_strlit(" depth=");
    reveal_strlit("]");
    reveal_strlit("id=");
    reveal_strlit("op=");
    reveal_strlit("depth=");
    let space = seq![' '];
    assert("[anchor-trace id="@ =~= "[anchor-trace "@ + "id="@);
    assert(" op="@ =~= space + "op="@);
    assert(" depth="@ =~= space + "depth="@);
    assert("]"@ =~= seq![']']);
    assert(context_line(trace) =~= "[anchor-trace "@ + (context_inner(trace) + seq![']']));
}

/// A digit is no white space.
proof fn lemma_decimal_is_solid(n: nat)
    ensures
        text::is_solid(text::decimal(n)),
{
    text::lemma_decimal_reads_back(n);
    let d = text::decimal(n);
    assert forall|i: int| 0 <= i < d.len() implies !text::is_white_space(#[trigger] d[i]) by {
        assert(text::is_digit(d[i]));
    }
}

/// Between the prefix and the bracket of a context line stand its words, and
/// they begin with another character than the prefix and end with a digit.
#[verifier::spinoff_prover]
proof fn lemma_context_words(trace: TraceView)
    requires
        text::is_solid(trace.root_request_id),
        text::is_solid(trace.operation),
    ensures
        text::words(context_inner(trace)) == context_words(trace),
        !"[anchor-trace "@.is_prefix_of(context_inner(trace)),
        context_inner(trace).len() > 0,
        context_inner(trace)[context_inner(trace).len() - 1] != ']',
{
    reveal_strlit("[anchor-trace ");
    reveal_strlit("id=");
    reveal_strlit("op=");
    reveal_strlit("depth=");
    let depth = text::decimal(trace.depth as nat);
    text::lemma_decimal_reads_back(trace.depth as nat);
    let w = context_words(trace);
    let space = seq![' '];
    let tail = space + w[2];
    let middle = space + (w[1] + tail);
    let inner = context_inner(trace);
    assert(inner == w[0] + middle);

    let prefix = "[anchor-trace "@;
    assert(inner[0] == w[0][0]);
    assert(w[0][0] == 'i');
    if prefix.is_prefix_of(inner) {
        assert(inner.subrange(0, prefix.len() as int)[0] == prefix[0]);
    }
    assert(tail.last() == depth.last());
    assert((w[1] + tail).last() == tail.last());
    assert(middle.last() == (w[1] + tail).last());
    assert(inner.last() == middle.last());
    assert(text::is_digit(depth[depth.len() - 1]));

    lemma_decimal_is_solid(trace.depth as nat);
    lemma_solid_field("id="@, trace.root_request_id);
    lemma_solid_field("op="@, trace.operation);
    lemma_solid_field("depth="@, depth);
    let none = Seq::<char>::empty();
    text_laws::law_run_is_one_word(w[0], middle);
    text_laws::law_white_space_adds_no_word(' ', w[1] + tail);
    text_laws::law_run_is_one_word(w[1], tail);
    text_laws::law_white_space_adds_no_word(' ', w[2]);
    text_laws::law_run_is_one_word(w[2], none);
    assert(w[2] + none =~= w[2]);
    assert(text::words(none) =~= Seq::<Seq<char>>::empty());
    assert(text::words(inner) =~= w);
}

/// The words of a context line give its context back.
proof fn lemma_context_words_read_back(trace: TraceView)
    requires
        trace.root_request_id.len() > 0,
    ensures
        TraceView::from_fields(context_words(trace)) == Some(
            TraceView { parent_request_id: None, ..trace },
        ),
{
    let w = context_words(trace);
    let depth = text::decimal(trace.depth as nat);
    text::lemma_decimal_reads_back(trace.depth as nat);
    request_context::lemma_keys_exclude_each_other(w[0]);
    request_context::lemma_keys_exclude_each_other(w[1]);
    request_context::lemma_keys_exclude_each_other(w[2]);
    assert("id="@ =~= w[0].subrange(0, "id="@.len() as int));
    assert("op="@ =~= w[1].subrange(0, "op="@.len() as int));
    assert("depth="@ =~= w[2].subrange(0, "depth="@.len() as int));
    assert(w[0].skip("id="@.len() as int) =~= trace.root_request_id);
    assert(w[1].skip("op="@.len() as int) =~= trace.operation);
    assert(w[2].skip("depth="@.len() as int) =~= depth);
    assert(w.drop_last() =~= seq![w[0], w[1]]);
    assert(w.drop_last().drop_last() =~= seq![w[0]]);
    reveal_with_fuel(request_context::last_field, 4);
    assert(request_context::last_field(w, "id="@) == Some(trace.root_request_id));
    assert(request_context::last_field(w, "op="@) == Some(trace.operation));
    assert(request_context::last_field(w, "depth="@) == Some(depth));
}

/// Every word is solid.
proof fn lemma_words_are_solid(s: Seq<char>)
    ensures
        forall|i: int| 0 <= i < text::words(s).len() ==> text::is_solid(#[trigger] text::words(s)[i]),
    decreases s.len(),
{
    if s.len() > 0 {
        if text::is_white_space(s[0]) {
            lemma_words_are_solid(s.skip(1));
            assert(text::words(s) == text::words(s.skip(1)));
        } else {
            text::lemma_length_before_bounds(s, text::blank());
            let n = text::length_before(s, text::blank()) as int;
            let word = s.take(n);
            assert forall|i: int| 0 <= i < word.len() implies !text::is_white_space(
                #[trigger] word[i],
            ) by {
                assert(word[i] == s[i]);
                assert(!text::blank()(s[i]));
            }
            lemma_words_are_solid(s.skip(n));
            let tail = text::words(s.skip(n));
            assert(text::words(s) == seq![word] + tail);
            assert forall|i: int| 0 <= i < text::words(s).len() implies text::is_solid(
                #[trigger] text::words(s)[i],
            ) by {
                if i > 0 {
                    assert(text::words(s)[i] == tail[i - 1]);
                }
            }
        }
    }
}

/// The value of a field among solid words is solid.
proof fn lemma_field_is_solid(fields: Seq<Seq<char>>, key: Seq<char>)
    requires
        forall|i: int| 0 <= i < fields.len() ==> text::is_solid(#[trigger] fields[i]),
    ensures
        request_context::last_field(fields, key) matches Some(value) ==> text::is_solid(value),
    decreases fields.len(),
{
    if fields.len() > 0 {
        let word = fields.last();
        if key.is_prefix_of(word) {
            let value = word.skip(key.len() as int);
            assert forall|i: int| 0 <= i < value.len() implies !text::is_white_space(
                #[trigger] value[i],
            ) by {
                assert(value[i] == word[key.len() + i]);
            }
        } else {
            let fewer = fields.drop_last();
            assert forall|i: int| 0 <= i < fewer.len() implies text::is_solid(
                #[trigger] fewer[i],
            ) by {
                assert(fewer[i] == fields[i]);
            }
            lemma_field_is_solid(fewer, key);
        }
    }
}

/// The last field of a key is found wherever it stands.
proof fn lemma_last_field(fields: Seq<Seq<char>>, key: Seq<char>, i: int)
    requires
        0 <= i < fields.len(),
        key.is_prefix_of(fields[i]),
        forall|j: int| i < j < fields.len() ==> !key.is_prefix_of(#[trigger] fields[j]),
    ensures
        request_context::last_field(fields, key) == Some(fields[i].skip(key.len() as int)),
    decreases fields.len(),
{
    if i < fields.len() - 1 {
        let fewer = fields.drop_last();
        assert(!key.is_prefix_of(fields[fields.len() - 1]));
        assert forall|j: int| i < j < fewer.len() implies !key.is_prefix_of(
            #[trigger] fewer[j],
        ) by {
            assert(fewer[j] == fields[j]);
        }
        assert(fewer[i] == fields[i]);
        lemma_last_field(fewer, key, i);
    }
}

/// A key that no field begins with is not found.
proof fn lemma_no_field(fields: Seq<Seq<char>>, key: Seq<char>)
    requires
        forall|j: int| 0 <= j < fields.len() ==> !key.is_prefix_of(#[trigger] fields[j]),
    ensures
        request_context::last_field(fields, key) is None,
    decreases fields.len(),
{
    if fields.len() > 0 {
        let fewer = fields.drop_last();
        assert(!key.is_prefix_of(fields[fields.len() - 1]));
        assert forall|j: int| 0 <= j < fewer.len() implies !key.is_prefix_of(
            #[trigger] fewer[j],
        ) by {
            assert(fewer[j] == fields[j]);
        }
        lemma_no_field(fewer, key);
    }
}

/// The request ID is what follows `id=` in the last word that begins with it,
/// whatever the other words are; there is a context exactly if there is such a
/// word and its ID is not empty.
pub proof fn law_last_id_word_counts(fields: Seq<Seq<char>>, i: int, id: Seq<char>)
    ensures
        0 <= i < fields.len() && fields[i] == "id="@ + id && (forall|j: int|
            i < j < fields.len() ==> !"id="@.is_prefix_of(#[trigger] fields[j])) ==> {
            &&& TraceView::from_fields(fields) is Some <==> id.len() > 0
            &&& TraceView::from_fields(fields) matches Some(t) ==> t.root_request_id == id
                && t.parent_request_id is None
        },
        (forall|j: int| 0 <= j < fields.len() ==> !"id="@.is_prefix_of(#[trigger] fields[j]))
            ==> TraceView::from_fields(fields) is None,
{
    if 0 <= i < fields.len() && fields[i] == "id="@ + id && (forall|j: int|
        i < j < fields.len() ==> !"id="@.is_prefix_of(#[trigger] fields[j])) {
        assert("id="@ =~= fields[i].subrange(0, "id="@.len() as int));
        assert(fields[i].skip("id="@.len() as int) =~= id);
        lemma_last_field(fields, "id="@, i);
    }
    if forall|j: int| 0 <= j < fields.len() ==> !"id="@.is_prefix_of(#[trigger] fields[j]) {
        lemma_no_field(fields, "id="@);
    }
}

/// The operation is what follows `op=` in the last word that begins with it,
/// whatever the other words are, and `"unknown"` where there is no such word.
pub proof fn law_last_op_word_counts(fields: Seq<Seq<char>>, i: int, op: Seq<char>)
    ensures
        0 <= i < fields.len() && fields[i] == "op="@ + op && (forall|j: int|
            i < j < fields.len() ==> !"op="@.is_prefix_of(#[trigger] fields[j])) ==> (
        TraceView::from_fields(fields) matches Some(t) ==> t.operation == op),
        (forall|j: int| 0 <= j < fields.len() ==> !"op="@.is_prefix_of(#[trigger] fields[j])) ==> (
        TraceView::from_fields(fields) matches Some(t) ==> t.operation == "unknown"@),
{
    if 0 <= i < fields.len() && fields[i] == "op="@ + op && (forall|j: int|
        i < j < fields.len() ==> !"op="@.is_prefix_of(#[trigger] fields[j])) {
        assert("op="@ =~= fields[i].subrange(0, "op="@.len() as int));
        assert(fields[i].skip("op="@.len() as int) =~= op);
        lemma_last_field(fields, "op="@, i);
    }
    if forall|j: int| 0 <= j < fields.len() ==> !"op="@.is_prefix_of(#[trigger] fields[j]) {
        lemma_no_field(fields, "op="@);
    }
}

/// The depth is the number that follows `depth=` in the last word that begins
/// with it, whatever the other words are, and 0 where that is no number or
/// there is no such word.
pub proof fn law_last_depth_word_counts(fields: Seq<Seq<char>>, i: int, depth: Seq<char>)
    ensures
        0 <= i < fields.len() && fields[i] == "depth="@ + depth && (forall|j: int|
            i < j < fields.len() ==> !"depth="@.is_prefix_of(#[trigger] fields[j])) ==> (
        TraceView::from_fields(fields) matches Some(t) ==> {
            &&& text::read_u32(depth) matches Some(n) ==> t.depth == n
            &&& text::read_u32(depth) is None ==> t.depth == 0
        }),
        (forall|j: int| 0 <= j < fields.len() ==> !"depth="@.is_prefix_of(#[trigger] fields[j]))
            ==> (TraceView::from_fields(fields) matches Some(t) ==> t.depth == 0),
{
    if 0 <= i < fields.len() && fields[i] == "depth="@ + depth && (forall|j: int|
        i < j < fields.len() ==> !"depth="@.is_prefix_of(#[trigger] fields[j])) {
        assert("depth="@ =~= fields[i].subrange(0, "depth="@.len() as int));
        assert(fields[i].skip("depth="@.len() as int) =~= depth);
        lemma_last_field(fields, "depth="@, i);
    }
    if forall|j: int| 0 <= j < fields.len() ==> !"depth="@.is_prefix_of(#[trigger] fields[j]) {
        lemma_no_field(fields, "depth="@);
    }
}

/// Brackets at the end of a text that ends otherwise do not count.
proof fn lemma_brackets_do_not_count(inner: Seq<char>, brackets: Seq<char>)
    requires
        inner.len() == 0 || inner[inner.len() - 1] != ']',
        forall|i: int| 0 <= i < brackets.len() ==> #[trigger] brackets[i] == ']',
    ensures
        text::without_trailing(inner + brackets, ']') == inner,
    decreases brackets.len(),
{
    if brackets.len() == 0 {
        assert(inner + brackets =~= inner);
        text_laws::law_trailing_copies_do_not_count(inner, ']');
    } else {
        let fewer = brackets.drop_last();
        assert forall|i: int| 0 <= i < fewer.len() implies #[trigger] fewer[i] == ']' by {
            assert(fewer[i] == brackets[i]);
        }
        assert(brackets[brackets.len() - 1] == ']');
        assert(inner + brackets =~= (inner + fewer).push(']'));
        text_laws::law_trailing_copies_do_not_count(inner + fewer, ']');
        lemma_brackets_do_not_count(inner, fewer);
    }
}

/// What a line carries is what the words between its prefix and its closing
/// brackets give, however many brackets there are.
pub proof fn law_line_carries_its_words(
    payload: Seq<char>,
    inner: Seq<char>,
    brackets: Seq<char>,
)
    requires
        text::first_line(payload) == "[anchor-trace "@ + (inner + brackets),
        !"[anchor-trace "@.is_prefix_of(inner),
        inner.len() == 0 || inner[inner.len() - 1] != ']',
        forall|i: int| 0 <= i < brackets.len() ==> #[trigger] brackets[i] == ']',
    ensures
        TraceView::from_payload(payload) == TraceView::from_fields(text::words(inner)),
{
    reveal_strlit("[anchor-trace ");
    let prefix = "[anchor-trace "@;
    let line = text::first_line(payload);
    let rest = inner + brackets;
    text_laws::law_prefix_and_rest_make_the_whole(line, prefix, rest);
    text_laws::law_leading_copies_do_not_count(rest, prefix);
    if prefix.is_prefix_of(rest) {
        if inner.len() < prefix.len() {
            let k = inner.len() as int;
            assert(rest[k] == brackets[0]);
            assert(rest.subrange(0, prefix.len() as int)[k] == prefix[k]);
        } else {
            assert(prefix =~= inner.subrange(0, prefix.len() as int)) by {
                assert forall|k: int| 0 <= k < prefix.len() implies prefix[k] == inner[k] by {
                    assert(rest.subrange(0, prefix.len() as int)[k] == prefix[k]);
                }
            }
        }
    }
    assert(!prefix.is_prefix_of(rest));
    assert(text::without_leading(rest, prefix) == rest);
    lemma_brackets_do_not_count(inner, brackets);
}

/// A line that does not begin with the prefix carries nothing, and further
/// copies of the prefix make no difference.
pub proof fn law_prefix_opens_the_line(payload: Seq<char>, doubled: Seq<char>, rest: Seq<char>)
    ensures
        !"[anchor-trace "@.is_prefix_of(text::first_line(payload)) ==> TraceView::from_payload(
            payload,
        ) is None,
        text::first_line(payload) == "[anchor-trace "@ + rest && text::first_line(doubled)
            == "[anchor-trace "@ + ("[anchor-trace "@ + rest) ==> TraceView::from_payload(payload)
            == TraceView::from_payload(doubled),
{
    reveal_strlit("[anchor-trace ");
    let prefix = "[anchor-trace "@;
    text_laws::law_leading_copies_do_not_count(rest, prefix);
    text_laws::law_leading_copies_do_not_count(prefix + rest, prefix);
    text_laws::law_prefix_and_rest_make_the_whole(prefix + rest, prefix, rest);
    text_laws::law_prefix_and_rest_make_the_whole(
        prefix + (prefix + rest),
        prefix,
        prefix + rest,
    );
}

/// Only the first line carries context: what follows it makes no difference.
pub proof fn law_body_makes_no_difference(a: Seq<char>, b: Seq<char>)
    requires
        text::first_line(a) == text::first_line(b),
    ensures
        TraceView::from_payload(a) == TraceView::from_payload(b),
{
}

/// A line `[anchor-trace id=... op=...]` needs no depth: request ID and
/// operation are read, at depth 0.
#[verifier::spinoff_prover]
pub proof fn law_line_without_depth_is_read(id: Seq<char>, op: Seq<char>, payload: Seq<char>)
    requires
        id.len() > 0,
        forall|i: int| 0 <= i < id.len() ==> !text::is_white_space(#[trigger] id[i]),
        forall|i: int| 0 <= i < op.len() ==> !text::is_white_space(#[trigger] op[i]),
        op.len() == 0 || op[op.len() - 1] != ']',
    ensures
        TraceView::from_payload("[anchor-trace id="@ + id + " op="@ + op + "]\n"@ + payload)
            == Some(
            TraceView { root_request_id: id, operation: op, parent_request_id: None, depth: 0 },
        ),
{
    reveal_strlit("[anchor-trace ");
    reveal_strlit("[anchor-trace id=");
    reveal_strlit(" op=");
    reveal_strlit("]\n");
    reveal_strlit("id=");
    reveal_strlit("op=");
    reveal_strlit("depth=");
    let prefix = "[anchor-trace "@;
    let space = seq![' '];
    let brackets = seq![']'];
    let w0 = "id="@ + id;
    let w1 = "op="@ + op;
    let inner = w0 + (space + w1);
    let line = prefix + (inner + brackets);
    let whole = "[anchor-trace id="@ + id + " op="@ + op + "]\n"@ + payload;
    assert(whole =~= line + seq!['\n'] + payload);
    assert forall|i: int| 0 <= i < line.len() implies #[trigger] line[i] != '\n' by {
        if i < 14 {
            assert(line[i] == prefix[i]);
        } else if i < 17 {
            assert(line[i] == "id="@[i - 14]);
        } else if i < 17 + id.len() {
            assert(line[i] == id[i - 17]);
        } else if i < 21 + id.len() {
            assert(line[i] == " op="@[i - 17 - id.len()]);
        } else if i < 21 + id.len() + op.len() {
            assert(line[i] == op[i - 21 - id.len()]);
        } else {
            assert(line[i] == ']');
        }
    }
    assert(line[line.len() - 1] == ']');
    text_laws::law_first_line_ends_at_its_terminator(line, payload);

    assert(inner[0] == 'i');
    if prefix.is_prefix_of(inner) {
        assert(inner.subrange(0, 14)[0] == prefix[0]);
    }
    assert(inner[inner.len() - 1] == w1[w1.len() - 1]);
    law_line_carries_its_words(whole, inner, brackets);

    lemma_solid_field("id="@, id);
    lemma_solid_field("op="@, op);
    let none = Seq::<char>::empty();
    text_laws::law_run_is_one_word(w0, space + w1);
    text_laws::law_white_space_adds_no_word(' ', w1);
    text_laws::law_run_is_one_word(w1, none);
    assert(w1 + none =~= w1);
    let fields = seq![w0, w1];
    assert(text::words(inner) =~= fields);

    request_context::lemma_keys_exclude_each_other(w0);
    request_context::lemma_keys_exclude_each_other(w1);
    assert("id="@ =~= w0.subrange(0, 3));
    assert("op="@ =~= w1.subrange(0, 3));
    law_last_id_word_counts(fields, 0, id);
    law_last_op_word_counts(fields, 1, op);
    law_last_depth_word_counts(fields, 0, none);
}

/// Enriching puts one line before the payload and leaves the payload as it is:
/// what is appended to the payload is appended to the whole.
pub proof fn law_enrich_only_prepends(trace: TraceView, payload: Seq<char>, more: Seq<char>)
    ensures
        trace.enrich(payload + more) == trace.enrich(payload) + more,
        trace.enrich(Seq::<char>::empty()) == "[anchor-trace id="@ + trace.root_request_id
            + " op="@ + trace.operation + " depth="@ + text::decimal(trace.depth as nat)
            + "]\n"@,
{
    assert(trace.enrich(payload + more) =~= trace.enrich(payload) + more);
    assert(trace.enrich(Seq::<char>::empty()) =~= "[anchor-trace id="@ + trace.root_request_id
        + " op="@ + trace.operation + " depth="@ + text::decimal(trace.depth as nat) + "]\n"@);
}

/// A context that is extracted from a payload, whatever the payload is, is a
/// root span with a request ID, and neither its request ID nor its operation
/// holds white space.
pub proof fn law_extracted_context_is_a_solid_root(payload: Seq<char>)
    ensures
        TraceView::from_payload(payload) matches Some(trace) ==> {
            &&& trace.parent_request_id is None
            &&& trace.root_request_id.len() > 0
            &&& text::is_solid(trace.root_request_id)
            &&& text::is_solid(trace.operation)
        },
{
    let line = text::first_line(payload);
    let inner = text::without_trailing(text::without_leading(line, PAYLOAD_PREFIX@), ']');
    let fields = text::words(inner);
    lemma_words_are_solid(inner);
    lemma_field_is_solid(fields, "id="@);
    lemma_field_is_solid(fields, "op="@);
    reveal_strlit("unknown");
    assert(text::is_solid("unknown"@));
}

/// Webhook delivery carries a context through a payload: what is extracted from
/// an enriched payload is what was embedded, without the parent, exactly if the
/// request ID is not empty and neither it nor the operation holds white space.
pub proof fn law_payload_round_trip(trace: TraceView, payload: Seq<char>)
    ensures
        TraceView::from_payload(trace.enrich(payload)) == Some(
            TraceView { parent_request_id: None, ..trace },
        ) <==> trace.root_request_id.len() > 0 && text::is_solid(trace.root_request_id)
            && text::is_solid(trace.operation),
{
    if trace.root_request_id.len() > 0 && text::is_solid(trace.root_request_id) && text::is_solid(
        trace.operation,
    ) {
        lemma_context_line(trace);
        assert(text::is_white_space('\n'));
        lemma_first_line_of_enriched(trace, payload);
        lemma_context_line_shape(trace);
        lemma_context_words(trace);
        law_line_carries_its_words(trace.enrich(payload), context_inner(trace), seq![']']);
        lemma_context_words_read_back(trace);
    } else {
        law_extracted_context_is_a_solid_root(trace.enrich(payload));
    }
}

/// The root request ID survives a chain of sub-operations and the payload that
/// its last span is embedded in, together with the operation and the depth of
/// that span, exactly if it is not empty and neither it nor that operation holds
/// white space.
pub proof fn law_root_survives_chain_and_payload(
    trace: TraceView,
    operations: Seq<Seq<char>>,
    payload: Seq<char>,
)
    ensures
        ({
            let end = descend(trace, operations);
            TraceView::from_payload(end.enrich(payload)) == Some(
                TraceView {
                    root_request_id: trace.root_request_id,
                    operation: end.operation,
                    parent_request_id: None,
                    depth: end.depth,
                },
            ) <==> trace.root_request_id.len() > 0 && text::is_solid(trace.root_request_id)
                && text::is_solid(end.operation)
        }),
{
    law_root_survives_every_chain(trace, operations);
    law_payload_round_trip(descend(trace, operations), payload);
}

// ---------------------------------------------------------------------------
// Logs
// ---------------------------------------------------------------------------

/// Log lines can be searched by request ID: it stands in every log prefix, and
/// every summary of an audit entry begins with the log prefix of its trace.
pub proof fn law_logs_carry_the_request_id(entry: AuditEntry)
    ensures
        ({
            let trace = entry.trace@;
            let from = "[trace "@.len() as int;
            &&& trace.log_prefix().subrange(from, from + trace.root_request_id.len())
                == trace.root_request_id
            &&& trace.log_prefix().is_prefix_of(entry.summary_text())
        }),
{
    let trace = entry.trace@;
    let from = "[trace "@.len() as int;
    assert(trace.log_prefix().subrange(from, from + trace.root_request_id.len())
        =~= trace.root_request_id);
    assert(trace.log_prefix() =~= entry.summary_text().subrange(
        0,
        trace.log_prefix().len() as int,
    ));
}

/// A log prefix shows request ID, operation and depth of its span, in that
/// order, and nothing else.
pub proof fn law_log_prefix_shows_its_span(trace: TraceView)
    ensures
        trace.log_prefix() == "[trace "@ + trace.root_request_id + " op="@ + trace.operation
            + " depth="@ + text::decimal(trace.depth as nat) + "]"@,
{
}

/// A summary shows, behind its log prefix, the actor, the session exactly if
/// there is one, the status and the time of its entry.
pub proof fn law_summary_shows_its_entry(entry: AuditEntry)
    ensures
        entry.session_id is None ==> entry.summary_text() == entry.trace@.log_prefix()
            + " actor="@ + entry.actor@ + " status="@ + entry.status@ + " ts="@ + text::decimal(
            entry.timestamp as nat,
        ),
        entry.session_id matches Some(id) ==> entry.summary_text() == entry.trace@.log_prefix()
            + " actor="@ + entry.actor@ + " session="@ + text::decimal(id as nat) + " status="@
            + entry.status@ + " ts="@ + text::decimal(entry.timestamp as nat),
{
    let head = entry.trace@.log_prefix() + " actor="@ + entry.actor@;
    match entry.session_id {
        Some(id) => {
            assert(head + (" session="@ + text::decimal(id as nat)) =~= head + " session="@
                + text::decimal(id as nat));
        },
        None => {
            assert(head + Seq::<char>::empty() =~= head);
        },
    }
}

/// Entries that differ in their status, and perhaps in their operation and
/// error, have summaries that differ in the text behind `status=` and nowhere
/// else, and are equal only if the statuses are.
pub proof fn law_status_alone_changes_the_status(a: AuditEntry, b: AuditEntry)
    requires
        a.trace == b.trace,
        a.actor == b.actor,
        a.session_id == b.session_id,
        a.timestamp == b.timestamp,
    ensures
        ({
            let n = a.summary_text().len() - a.status@.len() - " ts="@.len() - text::decimal(
                a.timestamp as nat,
            ).len();
            let tail = " ts="@ + text::decimal(a.timestamp as nat);
            &&& " status="@.is_suffix_of(a.summary_text().take(n))
            &&& a.summary_text() == a.summary_text().take(n) + a.status@ + tail
            &&& b.summary_text() == a.summary_text().take(n) + b.status@ + tail
            &&& a.summary_text() == b.summary_text() ==> a.status@ == b.status@
        }),
{
    let head = a.trace@.log_prefix() + " actor="@ + a.actor@ + request_context::session_part(
        a.session_id,
    ) + " status="@;
    let tail = " ts="@ + text::decimal(a.timestamp as nat);
    let sa = a.summary_text();
    let sb = b.summary_text();
    assert(sa =~= head + a.status@ + tail);
    assert(sb =~= head + b.status@ + tail);
    assert(sa.take(head.len() as int) =~= head);
    assert(" status="@ =~= head.subrange(head.len() - " status="@.len(), head.len() as int));
    if sa == sb {
        assert(a.status@ =~= sa.subrange(
            head.len() as int,
            (head.len() + a.status@.len()) as int,
        ));
        assert(b.status@ =~= sb.subrange(
            head.len() as int,
            (head.len() + b.status@.len()) as int,
        ));
    }
}

/// A session adds its own part behind the actor and changes nothing else.
pub proof fn law_session_only_adds_its_part(outside: AuditEntry, inside: AuditEntry, id: u64)
    requires
        outside.session_id is None,
        inside.session_id == Some(id),
        outside.trace == inside.trace,
        outside.actor == inside.actor,
        outside.status == inside.status,
        outside.timestamp == inside.timestamp,
    ensures
        ({
            let n = outside.trace@.log_prefix().len() + " actor="@.len() + outside.actor@.len();
            inside.summary_text() == outside.summary_text().take(n as int) + " session="@
                + text::decimal(id as nat) + outside.summary_text().skip(n as int)
        }),
{
    let head = outside.trace@.log_prefix() + " actor="@ + outside.actor@;
    let rest = " status="@ + outside.status@ + " ts="@ + text::decimal(
        outside.timestamp as nat,
    );
    law_summary_shows_its_entry(outside);
    law_summary_shows_its_entry(inside);
    let so = outside.summary_text();
    assert(so =~= head + rest);
    assert(so.take(head.len() as int) =~= head);
    assert(so.skip(head.len() as int) =~= rest);
    assert(inside.summary_text() =~= head + " session="@ + text::decimal(id as nat) + rest);
}

} // verus!
