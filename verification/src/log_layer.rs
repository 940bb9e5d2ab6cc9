//! Log events as frames for the clients.

use vstd::prelude::*;

use crate::dto;
use crate::dto::{now_unix_ms, rfc3339_from_ms, FieldValue, LogLevel, WsFrame};
use crate::named;
use crate::text;
use crate::text::{is_before, same_text};
use crate::units::Double;

verus! {

// -------------------------------------------------------------------- levels

/// The level with the name that `tracing` gives it.
pub open spec fn level_of_name(name: Seq<char>) -> Option<LogLevel> {
    if name == "ERROR"@ {
        Some(LogLevel::Error)
    } else if name == "WARN"@ {
        Some(LogLevel::Warn)
    } else if name == "INFO"@ {
        Some(LogLevel::Info)
    } else if name == "DEBUG"@ {
        Some(LogLevel::Debug)
    } else if name == "TRACE"@ {
        Some(LogLevel::Trace)
    } else {
        None
    }
}

/// The level of an event, by the name that `tracing` gives its level.
pub fn level_from_tracing(name: &str) -> (r: LogLevel)
    requires
        level_of_name(name@) is Some,
    ensures
        Some(r) == level_of_name(name@),
{
    if same_text(name, "ERROR") {
        LogLevel::Error
    } else if same_text(name, "WARN") {
        LogLevel::Warn
    } else if same_text(name, "INFO") {
        LogLevel::Info
    } else if same_text(name, "DEBUG") {
        LogLevel::Debug
    } else {
        LogLevel::Trace
    }
}

// -------------------------------------------------------------------- fields

/// What an event carries: its message, and its other fields in the order of
/// their names.
#[derive(Debug)]
pub struct FieldVisitor {
    pub message: Option<String>,
    pub fields: Vec<(String, FieldValue)>,
}

/// What a visitor has taken in.
pub struct VisitorView {
    pub message: Option<Seq<char>>,
    pub entries: Map<Seq<char>, dto::FieldView>,
}

impl VisitorView {
    /// After a text: the message of the event, or a field.
    pub open spec fn with_text(self, name: Seq<char>, value: Seq<char>) -> VisitorView {
        if name == "message"@ {
            VisitorView { message: Some(value), ..self }
        } else {
            self.with_value(name, dto::FieldView::Text(value))
        }
    }

    /// After a value that is no text.
    pub open spec fn with_value(self, name: Seq<char>, value: dto::FieldView) -> VisitorView {
        VisitorView { entries: self.entries.insert(name, value), ..self }
    }

    /// After a double, which is dropped unless it is a number.
    pub open spec fn with_real(self, name: Seq<char>, value: Double) -> VisitorView {
        if value.finite() {
            self.with_value(name, dto::FieldView::Real(value))
        } else {
            self
        }
    }
}

impl Default for FieldVisitor {
    /// No message and no fields.
    fn default() -> (r: Self)
        ensures
            r.message is None,
            r.fields@.len() == 0,
            r.well_formed(),
            r.entries() == Map::<Seq<char>, dto::FieldView>::empty(),
    {
        FieldVisitor { message: None, fields: Vec::new() }
    }
}

impl FieldVisitor {
    /// The fields are in order.
    pub open spec fn well_formed(&self) -> bool {
        named::ordered(dto::field_views(self.fields@))
    }

    /// The fields as a map.
    pub open spec fn entries(&self) -> Map<Seq<char>, dto::FieldView> {
        named::entries(dto::field_views(self.fields@))
    }

    pub open spec fn view(&self) -> VisitorView {
        VisitorView { message: text::opt_text(self.message), entries: self.entries() }
    }

    /// Sets a field.
    pub fn insert(&mut self, name: &str, value: FieldValue)
        requires
            old(self).well_formed(),
        ensures
            final(self).well_formed(),
            final(self).entries() == old(self).entries().insert(name@, value@),
            final(self).message == old(self).message,
    {
        let ghost before = dto::field_views(self.fields@);
        let ghost item = (name@, value@);
        let n = self.fields.len();
        let mut i: usize = 0;
        while i < n && is_before(self.fields[i].0.as_str(), name)
            invariant
                n == self.fields@.len(),
                i <= n,
                before == dto::field_views(self.fields@),
                self.message == old(self).message,
                self.fields == old(self).fields,
                forall|k: int| 0 <= k < i ==> text::precedes((#[trigger] before[k]).0, name@),
            decreases n - i,
        {
            i = i + 1;
        }
        proof {
            named::lemma_entries(before);
        }
        if i < n && same_text(self.fields[i].0.as_str(), name) {
            self.fields.set(i, (name.to_owned(), value));
            let ghost after = dto::field_views(self.fields@);
            proof {
                assert(after =~= before.update(i as int, item));
                assert forall|a: int, b: int| 0 <= a < b < after.len() implies text::precedes(
                    (#[trigger] after[a]).0,
                    (#[trigger] after[b]).0,
                ) by {
                    assert(text::precedes(before[a].0, before[b].0));
                }
                named::lemma_replaced(before, i as int, item);
            }
        } else {
            proof {
                if i < n {
                    text::lemma_precedes_total(before[i as int].0, name@);
                }
            }
            self.fields.insert(i, (name.to_owned(), value));
            let ghost after = dto::field_views(self.fields@);
            proof {
                assert(after =~= before.insert(i as int, item));
                named::lemma_inserted(before, i as int, item);
            }
        }
    }

    /// The value of a field.
    pub fn get(&self, name: &str) -> (r: Option<&FieldValue>)
        requires
            self.well_formed(),
        ensures
            match r {
                Some(value) => self.entries().contains_key(name@) && self.entries()[name@]
                    == value@,
                None => !self.entries().contains_key(name@),
            },
    {
        let ghost views = dto::field_views(self.fields@);
        proof {
            named::lemma_entries(views);
        }
        for i in 0..self.fields.len()
            invariant
                views == dto::field_views(self.fields@),
                self.entries() == named::entries(views),
                forall|k: int| 0 <= k < i ==> (#[trigger] views[k]).0 != name@,
                forall|k: int|
                    0 <= k < views.len() ==> named::entries(views)[(#[trigger] views[k]).0] == views[k].1,
                forall|other: Seq<char>| #[trigger]
                    named::entries(views).contains_key(other) <==> exists|k: int|
                        0 <= k < views.len() && (#[trigger] views[k]).0 == other,
        {
            if same_text(self.fields[i].0.as_str(), name) {
                assert(views[i as int].0 == name@);
                return Some(&self.fields[i].1);
            }
            assert(views[i as int].0 != name@);
        }
        None
    }

    /// Takes in a text. The field `message` is the message of the event.
    pub fn record_str(&mut self, name: &str, value: &str)
        requires
            old(self).well_formed(),
        ensures
            final(self).well_formed(),
            if name@ == "message"@ {
                text::opt_text(final(self).message) == Some(value@) && final(self).fields == old(
                    self,
                ).fields
            } else {
                final(self).message == old(self).message && final(self).entries() == old(
                    self,
                ).entries().insert(name@, dto::FieldView::Text(value@))
            },
            final(self)@ == old(self)@.with_text(name@, value@),
    {
        if same_text(name, "message") {
            self.message = Some(value.to_owned());
        } else {
            self.insert(name, FieldValue::Text(value.to_owned()));
        }
    }

    /// Takes in a value by its rendering. The field `message` is the message
    /// of the event.
    pub fn record_debug(&mut self, name: &str, rendered: &str)
        requires
            old(self).well_formed(),
        ensures
            final(self).well_formed(),
            if name@ == "message"@ {
                text::opt_text(final(self).message) == Some(rendered@) && final(self).fields == old(
                    self,
                ).fields
            } else {
                final(self).message == old(self).message && final(self).entries() == old(
                    self,
                ).entries().insert(name@, dto::FieldView::Text(rendered@))
            },
            final(self)@ == old(self)@.with_text(name@, rendered@),
    {
        if same_text(name, "message") {
            self.message = Some(rendered.to_owned());
        } else {
            self.insert(name, FieldValue::Text(rendered.to_owned()));
        }
    }

    /// Takes in a signed integer.
    pub fn record_i64(&mut self, name: &str, value: i64)
        requires
            old(self).well_formed(),
        ensures
            final(self).well_formed(),
            final(self).entries() == old(self).entries().insert(name@, dto::FieldView::Int(value)),
            final(self).message == old(self).message,
            final(self)@ == old(self)@.with_value(name@, dto::FieldView::Int(value)),
    {
        self.insert(name, FieldValue::Int(value));
    }

    /// Takes in an unsigned integer.
    pub fn record_u64(&mut self, name: &str, value: u64)
        requires
            old(self).well_formed(),
        ensures
            final(self).well_formed(),
            final(self).entries() == old(self).entries().insert(name@, dto::FieldView::UInt(value)),
            final(self).message == old(self).message,
            final(self)@ == old(self)@.with_value(name@, dto::FieldView::UInt(value)),
    {
        self.insert(name, FieldValue::UInt(value));
    }

    /// Takes in a truth value.
    pub fn record_bool(&mut self, name: &str, value: bool)
        requires
            old(self).well_formed(),
        ensures
            final(self).well_formed(),
            final(self).entries() == old(self).entries().insert(name@, dto::FieldView::Bool(value)),
            final(self).message == old(self).message,
            final(self)@ == old(self)@.with_value(name@, dto::FieldView::Bool(value)),
    {
        self.insert(name, FieldValue::Bool(value));
    }

    /// Takes in a double. One that is infinite or undefined is dropped.
    pub fn record_f64(&mut self, name: &str, value: Double)
        requires
            old(self).well_formed(),
        ensures
            final(self).well_formed(),
            final(self).entries() == (if value.finite() {
                old(self).entries().insert(name@, dto::FieldView::Real(value))
            } else {
                old(self).entries()
            }),
            final(self).message == old(self).message,
            final(self)@ == old(self)@.with_real(name@, value),
    {
        if value.is_finite() {
            self.insert(name, FieldValue::Real(value));
        }
    }
}

// -------------------------------------------------------------------- frames

/// The frame of an event at a time. An event without a message has the empty
/// message, and one without fields has none.
pub open spec fn log_frame_of(
    level: LogLevel,
    visitor: FieldVisitor,
    at_ms: i64,
) -> dto::FrameView {
    dto::FrameView::Log {
        level,
        message: text::text_or_empty(visitor.message),
        fields: if visitor.fields@.len() == 0 {
            None
        } else {
            Some(dto::field_views(visitor.fields@))
        },
        at: dto::rfc3339_text(at_ms),
    }
}

/// The frame of an event at a time.
pub fn log_frame(level_name: &str, visitor: FieldVisitor, at_ms: i64) -> (r: WsFrame)
    requires
        level_of_name(level_name@) is Some,
    ensures
        r@ == log_frame_of(level_of_name(level_name@)->0, visitor, at_ms),
{
    let message = match visitor.message {
        Some(m) => m,
        None => String::new(),
    };
    let fields = if visitor.fields.len() == 0 {
        None
    } else {
        Some(visitor.fields)
    };
    WsFrame::Log {
        level: level_from_tracing(level_name),
        message,
        fields,
        at: rfc3339_from_ms(at_ms),
    }
}

/// The layer that turns log events into frames.
#[derive(Clone, Copy, Debug)]
pub struct WsLogLayer;

impl WsLogLayer {
    /// The frame of an event that happens now. The clock is read by
    /// [`now_unix_ms`]; where the time is at hand, [`log_frame`] takes it.
    pub fn on_event(&self, level_name: &str, visitor: FieldVisitor) -> (r: WsFrame)
        requires
            level_of_name(level_name@) is Some,
        ensures
            exists|at_ms: i64| r@ == log_frame_of(level_of_name(level_name@)->0, visitor, at_ms),
    {
        let at_ms = now_unix_ms();
        log_frame(level_name, visitor, at_ms)
    }

    /// Every event is taken in.
    pub fn enabled(&self) -> (r: bool)
        ensures
            r,
    {
        true
    }
}

// --------------------------------------------------------------------- laws

/// Each level is known by its name, and no other name is that of a level.
pub proof fn law_names_of_levels(name: Seq<char>)
    ensures
        level_of_name(name) == Some(LogLevel::Error) <==> name == "ERROR"@,
        level_of_name(name) == Some(LogLevel::Warn) <==> name == "WARN"@,
        level_of_name(name) == Some(LogLevel::Info) <==> name == "INFO"@,
        level_of_name(name) == Some(LogLevel::Debug) <==> name == "DEBUG"@,
        level_of_name(name) == Some(LogLevel::Trace) <==> name == "TRACE"@,
{
    reveal_strlit("ERROR");
    reveal_strlit("WARN");
    reveal_strlit("INFO");
    reveal_strlit("DEBUG");
    reveal_strlit("TRACE");
    assert("ERROR"@.len() == 5 && "WARN"@.len() == 4 && "INFO"@.len() == 4 && "DEBUG"@.len() == 5
        && "TRACE"@.len() == 5);
    assert("ERROR"@[0] == 'E' && "DEBUG"@[0] == 'D' && "TRACE"@[0] == 'T');
    assert("WARN"@[0] == 'W' && "INFO"@[0] == 'I');
}

/// The text of the field `message` is the message of the event, and changes no
/// field. Every other text is a field, and does not change the message.
pub proof fn law_message_and_fields(v: VisitorView, name: Seq<char>, value: Seq<char>)
    ensures
        v.with_text("message"@, value).message == Some(value),
        v.with_text("message"@, value).entries == v.entries,
        name != "message"@ ==> v.with_text(name, value).message == v.message,
        name != "message"@ ==> v.with_text(name, value).entries.contains_key(name)
            && v.with_text(name, value).entries[name] == dto::FieldView::Text(value),
{
}

/// A value is kept under its name until another takes its place. The other
/// fields and the message stay.
pub proof fn law_fields_are_kept(
    v: VisitorView,
    name: Seq<char>,
    value: dto::FieldView,
    other: Seq<char>,
)
    requires
        other != name,
    ensures
        ({
            let after = v.with_value(name, value);
            &&& after.message == v.message
            &&& after.entries.contains_key(name)
            &&& after.entries[name] == value
            &&& after.entries.contains_key(other) == v.entries.contains_key(other)
            &&& v.entries.contains_key(other) ==> after.entries[other] == v.entries[other]
        }),
        v.with_text(name, Seq::empty()).entries.contains_key(other) == v.entries.contains_key(
            other,
        ),
{
}

/// A double is kept as a field where it is a number, and dropped where it is
/// infinite or undefined.
pub proof fn law_only_numbers_are_kept(v: VisitorView, name: Seq<char>, value: Double)
    ensures
        value.bits % 0x8000_0000_0000_0000 < 0x7ff0_0000_0000_0000 ==> v.with_real(name, value)
            == v.with_value(name, dto::FieldView::Real(value)),
        value.bits % 0x8000_0000_0000_0000 >= 0x7ff0_0000_0000_0000 ==> v.with_real(name, value)
            == v,
{
    value.law_finite();
}

/// The frame of an event has its level, its message or the empty one, its
/// fields in order unless there are none, and its time.
pub proof fn law_frame_of_an_event(level: LogLevel, visitor: FieldVisitor, at_ms: i64)
    ensures
        match log_frame_of(level, visitor, at_ms) {
            dto::FrameView::Log { level: told, message, fields, at } => {
                &&& told == level
                &&& visitor.message matches Some(m) ==> message == m@
                &&& visitor.message is None ==> message.len() == 0
                &&& fields is None <==> visitor.fields@.len() == 0
                &&& fields matches Some(list) ==> list.len() == visitor.fields@.len() && forall|
                    i: int,
                |
                    0 <= i < list.len() ==> #[trigger] list[i] == (
                        visitor.fields@[i].0@,
                        visitor.fields@[i].1@,
                    )
                &&& at == dto::rfc3339_text(at_ms)
            },
            _ => false,
        },
{
}

} // verus!
