use ctrader_bot::dto::{FieldValue, LogLevel, WsFrame};
use ctrader_bot::log_layer::{level_from_tracing, log_frame, FieldVisitor, WsLogLayer};
use ctrader_bot::units::Double;
use tracing::Level;

#[test]
fn level_mapping() {
    assert_eq!(level_from_tracing(Level::ERROR.as_str()), LogLevel::Error);
    assert_eq!(level_from_tracing(Level::WARN.as_str()), LogLevel::Warn);
    assert_eq!(level_from_tracing(Level::INFO.as_str()), LogLevel::Info);
    assert_eq!(level_from_tracing(Level::DEBUG.as_str()), LogLevel::Debug);
    assert_eq!(level_from_tracing(Level::TRACE.as_str()), LogLevel::Trace);
}

#[test]
fn visitor_collects_fields_and_message() {
    let mut v = FieldVisitor::default();
    v.insert("k", FieldValue::Text("v".to_string()));
    v.message = Some("hello".to_string());
    assert_eq!(v.message.as_deref(), Some("hello"));
    assert!(matches!(v.get("k"), Some(FieldValue::Text(t)) if t == "v"));
}

#[test]
fn message_is_kept_apart_for_texts_only() {
    let mut v = FieldVisitor::default();
    v.record_str("message", "first");
    v.record_debug("message", "second");
    assert_eq!(v.message.as_deref(), Some("second"));
    assert!(v.fields.is_empty());
    v.record_i64("message", 5);
    assert!(matches!(v.get("message"), Some(FieldValue::Int(5))));
    assert_eq!(v.message.as_deref(), Some("second"));
}

#[test]
fn fields_are_in_order_and_set_once() {
    let mut v = FieldVisitor::default();
    v.record_u64("zeta", 1);
    v.record_bool("alpha", true);
    v.record_str("mid", "x");
    v.record_debug("ab", "\"y\"");
    v.record_u64("zeta", 2);
    let names: Vec<&str> = v.fields.iter().map(|f| f.0.as_str()).collect();
    assert_eq!(names, vec!["ab", "alpha", "mid", "zeta"]);
    assert!(matches!(v.get("zeta"), Some(FieldValue::UInt(2))));
    assert!(matches!(v.get("alpha"), Some(FieldValue::Bool(true))));
    assert!(matches!(v.get("ab"), Some(FieldValue::Text(t)) if t == "\"y\""));
    assert!(v.get("none").is_none());
}

#[test]
fn doubles_that_are_no_numbers_are_dropped() {
    let mut v = FieldVisitor::default();
    v.record_f64("a", Double { bits: f64::NAN.to_bits() });
    v.record_f64("b", Double { bits: f64::INFINITY.to_bits() });
    v.record_f64("c", Double { bits: f64::NEG_INFINITY.to_bits() });
    assert!(v.fields.is_empty());
    v.record_f64("d", Double { bits: f64::MAX.to_bits() });
    v.record_f64("e", Double { bits: (-0.5f64).to_bits() });
    assert_eq!(v.fields.len(), 2);
    assert!(matches!(v.get("e"), Some(FieldValue::Real(d)) if f64::from_bits(d.bits) == -0.5));
}

#[test]
fn frame_of_an_event() {
    let frame = log_frame("WARN", FieldVisitor::default(), 1_713_440_000_000);
    match frame {
        WsFrame::Log { level, message, fields, at } => {
            assert_eq!(level, LogLevel::Warn);
            assert_eq!(message, "");
            assert!(fields.is_none());
            assert_eq!(at, "2024-04-18T11:33:20Z");
        }
        _ => panic!("not a log frame"),
    }
}

#[test]
fn layer_takes_in_every_event() {
    let layer = WsLogLayer;
    assert!(layer.enabled());
    let mut v = FieldVisitor::default();
    v.record_str("message", "hi");
    v.record_i64("n", -1);
    let frame = layer.on_event("INFO", v);
    assert_eq!(format!("{:?}", frame.clone()), format!("{:?}", frame));
    match frame {
        WsFrame::Log { level, message, fields, at } => {
            assert_eq!(level, LogLevel::Info);
            assert_eq!(message, "hi");
            let fields = fields.unwrap();
            assert_eq!(fields.len(), 1);
            assert_eq!(fields[0].0, "n");
            assert!(at.as_str() > "2020");
        }
        _ => panic!("not a log frame"),
    }
}
