use anchorkit::request_context::{
    enrich_webhook_payload, extract_trace_from_payload, headers_to_trace, trace_to_headers,
    AuditEntry, ContextHeader, TraceMetadata, TransactionContextRecord, HEADER_OPERATION,
    HEADER_PARENT_SPAN,
};

// -----------------------------------------------------------------------
// TraceMetadata
// -----------------------------------------------------------------------

#[test]
fn test_new_trace_is_root() {
    let meta = TraceMetadata::new("req-001".to_string());
    assert!(meta.is_root());
    assert_eq!(meta.root_request_id, "req-001");
    assert_eq!(meta.depth, 0);
}

#[test]
fn test_child_inherits_root_and_increments_depth() {
    let root = TraceMetadata::with_operation("req-001".to_string(), "create_session");
    let child = root.child("submit_attestation");
    assert_eq!(child.root_request_id, "req-001");
    assert_eq!(child.parent_request_id.as_deref(), Some("req-001"));
    assert_eq!(child.depth, 1);
    assert_eq!(child.operation, "submit_attestation");
}

#[test]
fn test_grandchild_depth_increments() {
    let root = TraceMetadata::new("req-002".to_string());
    let child = root.child("op-a");
    let grandchild = child.child("op-b");
    assert_eq!(grandchild.depth, 2);
    assert_eq!(grandchild.root_request_id, "req-002");
}

#[test]
fn test_log_prefix_format() {
    let meta = TraceMetadata::with_operation("req-xyz".to_string(), "deliver_webhook");
    let prefix = meta.log_prefix();
    assert!(prefix.starts_with("[trace req-xyz"));
    assert!(prefix.contains("op=deliver_webhook"));
    assert!(prefix.contains("depth=0"));
}

// -----------------------------------------------------------------------
// ContextHeader round-trip
// -----------------------------------------------------------------------

#[test]
fn test_headers_round_trip() {
    let meta = TraceMetadata {
        root_request_id: "req-abc".to_string(),
        operation: "submit_quote".to_string(),
        parent_request_id: Some("req-parent".to_string()),
        depth: 1,
    };
    let headers = trace_to_headers(&meta);
    let recovered = headers_to_trace(&headers).expect("should parse headers");
    assert_eq!(recovered.root_request_id, "req-abc");
    assert_eq!(recovered.operation, "submit_quote");
    assert_eq!(recovered.parent_request_id.as_deref(), Some("req-parent"));
}

#[test]
fn test_headers_without_parent_span() {
    let meta = TraceMetadata::with_operation("req-no-parent".to_string(), "root_op");
    let headers = trace_to_headers(&meta);
    assert!(!headers.iter().any(|h| h.name == HEADER_PARENT_SPAN));
    let recovered = headers_to_trace(&headers).expect("should parse");
    assert!(recovered.parent_request_id.is_none());
}

#[test]
fn test_missing_trace_id_returns_none() {
    let headers = vec![ContextHeader {
        name: HEADER_OPERATION.to_string(),
        value: "some-op".to_string(),
    }];
    assert!(headers_to_trace(&headers).is_none());
}

// -----------------------------------------------------------------------
// Webhook payload enrichment
// -----------------------------------------------------------------------

#[test]
fn test_enrich_and_extract_webhook_payload() {
    let payload = r#"{"event":"deposit","amount":100}"#;
    let meta = TraceMetadata::with_operation("req-wh-001".to_string(), "deliver_webhook");
    let enriched = enrich_webhook_payload(payload, &meta);

    assert!(enriched.starts_with("[anchor-trace "));
    assert!(enriched.contains(payload));

    let extracted = extract_trace_from_payload(&enriched).expect("should extract");
    assert_eq!(extracted.root_request_id, "req-wh-001");
    assert_eq!(extracted.operation, "deliver_webhook");
}

#[test]
fn test_extract_from_plain_payload_returns_none() {
    let payload = r#"{"event":"deposit"}"#;
    assert!(extract_trace_from_payload(payload).is_none());
}

#[test]
fn test_enriched_payload_survives_multi_step_chain() {
    let meta = TraceMetadata::new("req-chain".to_string());
    let child = meta.child("step-1");
    let grandchild = child.child("step-2");

    let payload = "original_payload";
    let enriched = enrich_webhook_payload(payload, &grandchild);
    let extracted = extract_trace_from_payload(&enriched).unwrap();

    // root_request_id must survive the full chain.
    assert_eq!(extracted.root_request_id, "req-chain");
    assert_eq!(extracted.depth, 2);
}

// -----------------------------------------------------------------------
// AuditEntry
// -----------------------------------------------------------------------

#[test]
fn test_audit_entry_success_summary_contains_trace_id() {
    let meta = TraceMetadata::with_operation("req-audit".to_string(), "approve_kyc");
    let entry = AuditEntry::success(
        meta,
        Some(7),
        "GABC123".to_string(),
        "approve_kyc".to_string(),
        1_000_000,
    );
    let summary = entry.summary();
    assert!(summary.contains("req-audit"));
    assert!(summary.contains("session=7"));
    assert!(summary.contains("status=success"));
}

#[test]
fn test_audit_entry_failed_carries_error() {
    let meta = TraceMetadata::new("req-fail".to_string());
    let entry = AuditEntry::failed(
        meta,
        None,
        "GXYZ".to_string(),
        "submit_attestation".to_string(),
        2_000_000,
        "replay attack".to_string(),
    );
    assert_eq!(entry.status, "failed");
    assert_eq!(entry.error.as_deref(), Some("replay attack"));
}

// -----------------------------------------------------------------------
// Context ID survival across multi-step operations
// -----------------------------------------------------------------------

#[test]
fn test_root_id_survives_three_level_chain() {
    let root_id = "root-persistent-id".to_string();
    let root = TraceMetadata::new(root_id.clone());
    let step1 = root.child("create_session");
    let step2 = step1.child("submit_attestation");
    let step3 = step2.child("deliver_webhook");

    // Root ID must be the same at every level.
    assert_eq!(step1.root_request_id, root_id);
    assert_eq!(step2.root_request_id, root_id);
    assert_eq!(step3.root_request_id, root_id);

    // Each step knows its parent.
    assert_eq!(step1.parent_request_id.as_deref(), Some(root_id.as_str()));
    assert_eq!(step2.parent_request_id.as_deref(), Some(root_id.as_str()));
    assert_eq!(step3.parent_request_id.as_deref(), Some(root_id.as_str()));
}

#[test]
fn test_context_id_in_audit_entries_chain() {
    let root_id = "req-audit-chain".to_string();
    let meta = TraceMetadata::new(root_id.clone());

    let entries: Vec<AuditEntry> = ["create_session", "submit_attestation", "deliver_webhook"]
        .iter()
        .enumerate()
        .map(|(i, op)| {
            let span = meta.child(op);
            AuditEntry::success(span, Some(1), "GACTOR".to_string(), op.to_string(), 1000 + i as u64)
        })
        .collect();

    // Every entry must carry the same root request ID.
    for entry in &entries {
        assert_eq!(entry.trace.root_request_id, root_id);
    }
}

#[test]
fn test_header_propagation_preserves_root_across_service_boundary() {
    // Simulate passing context from the contract host to a webhook endpoint.
    let original = TraceMetadata::with_operation("req-boundary".to_string(), "notify_webhook");
    let headers = trace_to_headers(&original);

    // Simulate the receiving end reconstructing the context.
    let reconstructed = headers_to_trace(&headers).expect("header parse");
    assert_eq!(reconstructed.root_request_id, "req-boundary");

    // The receiver can create a child for its own work.
    let receiver_span = reconstructed.child("process_notification");
    assert_eq!(receiver_span.root_request_id, "req-boundary");
}

// -----------------------------------------------------------------------
// Spans
// -----------------------------------------------------------------------

#[test]
fn test_new_names_the_root_operation() {
    let meta = TraceMetadata::new("req".to_string());
    assert_eq!(
        meta,
        TraceMetadata {
            root_request_id: "req".to_string(),
            operation: "root".to_string(),
            parent_request_id: None,
            depth: 0,
        }
    );
    assert!(!meta.child("op").is_root());
}

#[test]
fn test_depth_saturates() {
    let mut meta = TraceMetadata::new("req".to_string());
    meta.depth = u32::MAX;
    assert_eq!(meta.child("op").depth, u32::MAX);
}

#[test]
fn test_log_prefix_is_exact() {
    let mut meta = TraceMetadata::with_operation("req-abc-123".to_string(), "deliver_webhook");
    meta.depth = 1;
    assert_eq!(meta.log_prefix(), "[trace req-abc-123 op=deliver_webhook depth=1]");
}

// -----------------------------------------------------------------------
// Headers
// -----------------------------------------------------------------------

fn header(name: &str, value: &str) -> ContextHeader {
    ContextHeader { name: name.to_string(), value: value.to_string() }
}

#[test]
fn test_headers_are_exact() {
    let meta = TraceMetadata::with_operation("r".to_string(), "a").child("b");
    assert_eq!(
        trace_to_headers(&meta),
        vec![
            header("X-Anchor-Trace-Id", "r"),
            header("X-Anchor-Operation", "b"),
            header("X-Anchor-Parent-Span", "r"),
        ]
    );
    let back = headers_to_trace(&trace_to_headers(&meta)).unwrap();
    assert_eq!(back, TraceMetadata { depth: 0, ..meta });
}

#[test]
fn test_first_header_of_a_name_counts() {
    let found = headers_to_trace(&[
        header("Accept", "x"),
        header("X-Anchor-Trace-Id", "first"),
        header("X-Anchor-Trace-Id", "second"),
        header("x-anchor-operation", "lower case is another name"),
    ])
    .unwrap();
    assert_eq!(found.root_request_id, "first");
    assert_eq!(found.operation, "unknown");
    assert_eq!(found.parent_request_id, None);
    assert_eq!(headers_to_trace(&[]), None);
}

// -----------------------------------------------------------------------
// Payloads
// -----------------------------------------------------------------------

fn extracted(payload: &str) -> Option<(String, String, u32)> {
    extract_trace_from_payload(payload).map(|t| {
        assert!(t.is_root());
        (t.root_request_id, t.operation, t.depth)
    })
}

fn found(root: &str, operation: &str, depth: u32) -> Option<(String, String, u32)> {
    Some((root.to_string(), operation.to_string(), depth))
}

#[test]
fn test_enriched_payload_is_exact() {
    let mut meta = TraceMetadata::with_operation("r".to_string(), "o");
    meta.depth = 12;
    assert_eq!(
        enrich_webhook_payload("body\nmore", &meta),
        "[anchor-trace id=r op=o depth=12]\nbody\nmore"
    );
    assert_eq!(
        enrich_webhook_payload("body\nmore", &meta).split_once('\n').unwrap().1,
        "body\nmore"
    );
}

#[test]
fn test_payload_round_trip_keeps_root_operation_and_depth() {
    for (root, op, depth) in [
        ("r", "o", 0),
        ("r]", "o]", u32::MAX),
        ("id=x", "op=y", 7),
        ("[anchor-trace", "", 1),
        ("日本", "é", 10),
    ] {
        let meta = TraceMetadata {
            root_request_id: root.to_string(),
            operation: op.to_string(),
            parent_request_id: Some("p".to_string()),
            depth,
        };
        for payload in ["", "x", "\n", "[anchor-trace id=other]\n"] {
            assert_eq!(extracted(&enrich_webhook_payload(payload, &meta)), found(root, op, depth));
        }
    }
}

#[test]
fn test_payload_round_trip_fails_on_white_space_and_empty_ids() {
    let enrich = |root: &str, op: &str| {
        enrich_webhook_payload("x", &TraceMetadata::with_operation(root.to_string(), op))
    };
    assert_eq!(extracted(&enrich("", "o")), None);
    assert_eq!(extracted(&enrich("a b", "o")), found("a", "o", 0));
    assert_eq!(extracted(&enrich("a", "o p")), found("a", "o", 0));
    assert_eq!(extracted(&enrich("a\nb", "o")), found("a", "unknown", 0));
}

#[test]
fn test_extraction_edge_cases() {
    assert_eq!(extracted(""), None);
    assert_eq!(extracted("\n[anchor-trace id=a]"), None);
    assert_eq!(extracted("[anchor-trace]"), None);
    assert_eq!(extracted("[anchor-trace ]"), None);
    assert_eq!(extracted("[anchor-trace op=o depth=1]"), None);
    assert_eq!(extracted("[anchor-trace id=]"), None);
    assert_eq!(extracted("[anchor-trace id=a id=]"), None);
    assert_eq!(extracted(" [anchor-trace id=a]"), None);
    assert_eq!(extracted("[anchor-trace id=a"), found("a", "unknown", 0));
    assert_eq!(extracted("[anchor-trace id=a]]]"), found("a", "unknown", 0));
    assert_eq!(extracted("[anchor-trace id=a]\r\nbody"), found("a", "unknown", 0));
    assert_eq!(extracted("[anchor-trace id=a]\r"), found("a]", "unknown", 0));
    assert_eq!(
        extracted("[anchor-trace [anchor-trace id=a op=b depth=3]"),
        found("a", "b", 3)
    );
    assert_eq!(
        extracted("[anchor-trace depth=3 op=x id=a\top=y id=b junk]"),
        found("b", "y", 3)
    );
    assert_eq!(extracted("[anchor-trace id=a depth=3 depth=x]"), found("a", "unknown", 0));
    assert_eq!(extracted("[anchor-trace id=a depth=+5]"), found("a", "unknown", 5));
    assert_eq!(extracted("[anchor-trace id=a depth=4294967296]"), found("a", "unknown", 0));
}

// -----------------------------------------------------------------------
// Audit entries
// -----------------------------------------------------------------------

#[test]
fn test_summary_is_exact() {
    let trace = TraceMetadata::with_operation("req-abc".to_string(), "submit_attestation");
    let inside = AuditEntry::success(
        trace.clone(),
        Some(42),
        "GA".to_string(),
        "submit_attestation".to_string(),
        1_000_000,
    );
    assert_eq!(
        inside.summary(),
        "[trace req-abc op=submit_attestation depth=0] actor=GA session=42 status=success ts=1000000"
    );
    let outside = AuditEntry::failed(
        trace,
        None,
        "GB".to_string(),
        "submit_attestation".to_string(),
        0,
        "replay".to_string(),
    );
    assert_eq!(
        outside.summary(),
        "[trace req-abc op=submit_attestation depth=0] actor=GB status=failed ts=0"
    );
    assert_eq!(inside.error, None);
    assert!(outside.summary().starts_with(&outside.trace.log_prefix()));
}

// -----------------------------------------------------------------------
// Types
// -----------------------------------------------------------------------

fn require_send_sync<T: Send + Sync>() {}

#[test]
fn test_types_are_send_and_sync() {
    require_send_sync::<TraceMetadata>();
    require_send_sync::<ContextHeader>();
    require_send_sync::<AuditEntry>();
    require_send_sync::<TransactionContextRecord>();
}

#[test]
fn test_transaction_record_carries_its_trace() {
    let record = TransactionContextRecord {
        transaction_id: 5,
        state: "pending".to_string(),
        trace: TraceMetadata::new("req-tx".to_string()),
        initiator: "GABC".to_string(),
        last_updated: 9,
        routing_reason: None,
    };
    let moved_on = TransactionContextRecord {
        state: "completed".to_string(),
        trace: record.trace.child("complete"),
        ..record.clone()
    };
    assert_eq!(moved_on.trace.root_request_id, record.trace.root_request_id);
    assert_eq!(moved_on.transaction_id, 5);
}

#[test]
fn test_context_propagates_into_a_child_operation() {
    let meta = TraceMetadata::new("req-abc-123".to_string());
    let child = meta.child("webhook-deliver");
    assert_eq!(child.root_request_id, "req-abc-123");
    assert_eq!(child.operation, "webhook-deliver");
    assert_eq!(child.parent_request_id.as_deref(), Some("req-abc-123"));
}
