use api_telemetry::propagation::{
    extract, inject, parse_traceparent_value, traceparent_value, Carrier, HeaderField,
    SpanContext, TRACEPARENT,
};
use opentelemetry::propagation::TextMapPropagator;
use opentelemetry::trace::{SpanId, TraceContextExt, TraceFlags, TraceId, TraceState};
use opentelemetry::Context;
use opentelemetry_sdk::propagation::TraceContextPropagator;
use std::collections::HashMap;

const TRACE_ID: u128 = 0x4bf9_2f35_77b3_4da6_a3ce_929d_0e0e_4736;
const SPAN_ID: u64 = 0x00f0_67aa_0ba9_02b7;

fn sample(flags: u8) -> SpanContext {
    SpanContext { trace_id: TRACE_ID, span_id: SPAN_ID, trace_flags: flags }
}

fn carrier_with(value: &str) -> Carrier {
    let mut carrier = Carrier::new();
    carrier.set(TRACEPARENT, value.to_string());
    carrier
}

fn outside_context(context: &SpanContext) -> Context {
    Context::new().with_remote_span_context(opentelemetry::trace::SpanContext::new(
        TraceId::from(context.trace_id),
        SpanId::from(context.span_id),
        TraceFlags::new(context.trace_flags),
        true,
        TraceState::default(),
    ))
}

#[test]
fn header_name_is_traceparent() {
    assert_eq!(TRACEPARENT, "traceparent");
}

#[test]
fn inject_writes_the_documented_form() {
    let mut carrier = Carrier::new();
    inject(&sample(1), &mut carrier);
    assert_eq!(carrier.fields.len(), 1);
    assert_eq!(carrier.fields[0].name, "traceparent");
    assert_eq!(
        carrier.fields[0].value,
        "00-4bf92f3577b34da6a3ce929d0e0e4736-00f067aa0ba902b7-01"
    );
}

#[test]
fn traceparent_value_pads_with_zeros() {
    let context = SpanContext { trace_id: 1, span_id: 0xab, trace_flags: 0 };
    assert_eq!(
        traceparent_value(&context),
        "00-00000000000000000000000000000001-00000000000000ab-00"
    );
}

#[test]
fn traceparent_value_of_largest_numbers() {
    let context = SpanContext { trace_id: u128::MAX, span_id: u64::MAX, trace_flags: u8::MAX };
    assert_eq!(
        traceparent_value(&context),
        "00-ffffffffffffffffffffffffffffffff-ffffffffffffffff-ff"
    );
    assert_eq!(parse_traceparent_value(&traceparent_value(&context)), Some(context));
}

#[test]
fn extract_after_inject_gives_the_context_back() {
    for flags in [0u8, 1, 2, 0x7f, 0xff] {
        let context = sample(flags);
        let mut carrier = Carrier::new();
        inject(&context, &mut carrier);
        let back = extract(&carrier).unwrap();
        assert_eq!(back.trace_id, context.trace_id);
        assert_eq!(back.span_id, context.span_id);
        assert_eq!(back.trace_flags, context.trace_flags);
    }
}

#[test]
fn extract_after_inject_into_a_filled_carrier() {
    let mut carrier = Carrier::new();
    carrier.set("host", "localhost:3030".to_string());
    carrier.set(TRACEPARENT, "stale".to_string());
    carrier.set("user-agent", "curl/8".to_string());
    inject(&sample(1), &mut carrier);
    assert_eq!(extract(&carrier), Some(sample(1)));
    assert_eq!(carrier.fields.len(), 3);
    assert_eq!(carrier.get("host").map(|s| s.as_str()), Some("localhost:3030"));
    assert_eq!(carrier.get("user-agent").map(|s| s.as_str()), Some("curl/8"));
}

#[test]
fn inject_of_an_invalid_context_writes_nothing() {
    let mut carrier = Carrier::new();
    inject(&SpanContext { trace_id: 0, span_id: SPAN_ID, trace_flags: 1 }, &mut carrier);
    inject(&SpanContext { trace_id: TRACE_ID, span_id: 0, trace_flags: 1 }, &mut carrier);
    assert!(carrier.fields.is_empty());
    assert_eq!(extract(&carrier), None);
}

#[test]
fn is_valid_asks_for_both_identifiers() {
    assert!(sample(0).is_valid());
    assert!(!SpanContext { trace_id: 0, span_id: 1, trace_flags: 0 }.is_valid());
    assert!(!SpanContext { trace_id: 1, span_id: 0, trace_flags: 0 }.is_valid());
}

#[test]
fn extract_of_a_malformed_header_is_none() {
    assert_eq!(extract(&carrier_with("not-a-valid-header")), None);
}

#[test]
fn extract_of_an_absent_header_is_none() {
    assert_eq!(extract(&Carrier::new()), None);
    let mut carrier = Carrier::new();
    carrier.set("host", "localhost".to_string());
    assert_eq!(extract(&carrier), None);
}

#[test]
fn extract_reads_the_first_entry_under_the_name() {
    let carrier = Carrier {
        fields: vec![
            HeaderField { name: "traceparent".to_string(), value: "garbage".to_string() },
            HeaderField {
                name: "traceparent".to_string(),
                value: "00-4bf92f3577b34da6a3ce929d0e0e4736-00f067aa0ba902b7-01".to_string(),
            },
        ],
    };
    assert_eq!(extract(&carrier), None);
}

#[test]
fn parse_accepts_the_documented_form() {
    assert_eq!(
        parse_traceparent_value("00-4bf92f3577b34da6a3ce929d0e0e4736-00f067aa0ba902b7-01"),
        Some(sample(1))
    );
    assert_eq!(
        parse_traceparent_value("00-4bf92f3577b34da6a3ce929d0e0e4736-00f067aa0ba902b7-00"),
        Some(sample(0))
    );
}

#[test]
fn parse_refuses_other_shapes() {
    let refused = [
        "",
        "00",
        "00-4bf92f3577b34da6a3ce929d0e0e4736-00f067aa0ba902b7",
        "00-4bf92f3577b34da6a3ce929d0e0e4736-00f067aa0ba902b7-0",
        "00-4bf92f3577b34da6a3ce929d0e0e4736-00f067aa0ba902b7-011",
        "00-4bf92f3577b34da6a3ce929d0e0e4736-00f067aa0ba902b7-01 ",
        " 00-4bf92f3577b34da6a3ce929d0e0e4736-00f067aa0ba902b7-01",
        "01-4bf92f3577b34da6a3ce929d0e0e4736-00f067aa0ba902b7-01",
        "0g-4bf92f3577b34da6a3ce929d0e0e4736-00f067aa0ba902b7-01",
        "00_4bf92f3577b34da6a3ce929d0e0e4736-00f067aa0ba902b7-01",
        "00-4bf92f3577b34da6a3ce929d0e0e4736_00f067aa0ba902b7-01",
        "00-4bf92f3577b34da6a3ce929d0e0e4736-00f067aa0ba902b7_01",
        "00-4BF92F3577B34DA6A3CE929D0E0E4736-00f067aa0ba902b7-01",
        "00-4bf92f3577b34da6a3ce929d0e0e4736-00F067AA0BA902B7-01",
        "00-4bf92f3577b34da6a3ce929d0e0e4736-00f067aa0ba902b7-0A",
        "00-4bf92f3577b34da6a3ce929d0e0e473x-00f067aa0ba902b7-01",
        "00-4bf92f3577b34da6a3ce929d0e0e4736-00f067aa0ba902bx-01",
        "00-4bf92f3577b34da6a3ce929d0e0e4736-00f067aa0ba902b7-0x",
        "00-00000000000000000000000000000000-00f067aa0ba902b7-01",
        "00-4bf92f3577b34da6a3ce929d0e0e4736-0000000000000000-01",
        "00-4bf92f3577b34da6a3ce929d0e0e473\u{e9}-00f067aa0ba902b7-01",
    ];
    for text in refused {
        assert_eq!(parse_traceparent_value(text), None, "{:?}", text);
    }
}

#[test]
fn carrier_set_replaces_and_get_reads() {
    let mut carrier = Carrier::new();
    assert!(carrier.get("a").is_none());
    carrier.set("a", "1".to_string());
    carrier.set("b", "2".to_string());
    carrier.set("a", "3".to_string());
    assert_eq!(carrier.fields.len(), 2);
    assert_eq!(carrier.get("a").map(|s| s.as_str()), Some("3"));
    assert_eq!(carrier.get("b").map(|s| s.as_str()), Some("2"));
    assert!(carrier.get("A").is_none());
}

#[test]
fn inject_agrees_with_the_sdk_on_sampled_and_unsampled_contexts() {
    let propagator = TraceContextPropagator::new();
    for flags in [0u8, 1] {
        for (trace_id, span_id) in [(TRACE_ID, SPAN_ID), (1, 1), (u128::MAX, u64::MAX)] {
            let context = SpanContext { trace_id, span_id, trace_flags: flags };
            let mut theirs: HashMap<String, String> = HashMap::new();
            propagator.inject_context(&outside_context(&context), &mut theirs);
            assert_eq!(theirs.get("traceparent"), Some(&traceparent_value(&context)));
        }
    }
}

#[test]
fn the_sdk_reads_what_inject_writes() {
    let propagator = TraceContextPropagator::new();
    for flags in [0u8, 1] {
        let context = sample(flags);
        let mut carrier = Carrier::new();
        inject(&context, &mut carrier);
        let mut theirs: HashMap<String, String> = HashMap::new();
        for field in &carrier.fields {
            theirs.insert(field.name.clone(), field.value.clone());
        }
        let extracted = propagator.extract(&theirs);
        let span = extracted.span();
        let read = span.span_context();
        assert_eq!(read.trace_id(), TraceId::from(context.trace_id));
        assert_eq!(read.span_id(), SpanId::from(context.span_id));
        assert_eq!(read.trace_flags().to_u8(), context.trace_flags);
        assert!(read.is_remote());
    }
}

#[test]
fn extract_agrees_with_the_sdk_on_what_the_sdk_writes() {
    let propagator = TraceContextPropagator::new();
    let context = sample(1);
    let mut theirs: HashMap<String, String> = HashMap::new();
    propagator.inject_context(&outside_context(&context), &mut theirs);
    assert_eq!(extract(&carrier_with(&theirs["traceparent"])), Some(context));
}
