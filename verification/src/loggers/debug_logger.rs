//! Events as lines for a console.

use crate::observers;
use crate::observers::{EventStat, OperationType, ProxyEvent};
use crate::text;
use vstd::prelude::*;

verus! {

/// Writes events as lines.
#[derive(Debug, Clone, Copy)]
pub struct DebugLogger {}

/// The name of a kind of value.
pub open spec fn operation_name(t: OperationType) -> Seq<char> {
    match t {
        OperationType::Distribution => "Distribution"@,
        OperationType::Timing => "Timing"@,
        OperationType::Gauge => "Gauge"@,
        OperationType::IncrByValue => "IncrByValue"@,
    }
}

/// The value of an event in a line.
pub open spec fn stat_text(stat: Option<EventStat>) -> Seq<char> {
    match stat {
        Some(s) => "Some(EventStat { operation_type: "@ + operation_name(s.operation_type)
            + ", value: "@ + text::signed_decimal(s.value as int) + " })"@,
        None => "None"@,
    }
}

/// An event as a line.
pub open spec fn event_line(e: observers::EventView) -> Seq<char> {
    "[Debug][Event: "@ + observers::event_name(e.event_type) + "] sdk_key: "@ + (match e.context {
        Some(c) => observers::tagged_key(c.sdk_key),
        None => "None"@,
    }) + ", lcut: "@ + (match e.lcut {
        Some(n) => text::decimal(n as nat),
        None => "None"@,
    }) + ", stat: "@ + stat_text(e.stat)
}

impl Default for DebugLogger {
    fn default() -> (r: Self)
        ensures
            r == (DebugLogger {  }),
    {
        DebugLogger {  }
    }
}

impl DebugLogger {
    pub fn new() -> (r: Self)
        ensures
            r == (DebugLogger {  }),
    {
        DebugLogger {  }
    }

    /// The line of an event.
    pub fn handle_event(&self, event: &ProxyEvent) -> (r: String)
        requires
            event@.context matches Some(c) ==> observers::is_loggable(c.sdk_key),
        ensures
            r@ == event_line(event@),
    {
        let mut line = "[Debug][Event: ".to_owned();
        line.append(event.event_type.to_str());
        line.append("] sdk_key: ");
        match event.get_sdk_key() {
            Some(key) => line.append(key.as_str()),
            None => line.append("None"),
        }
        line.append(", lcut: ");
        match event.lcut {
            Some(lcut) => text::push_decimal(&mut line, lcut),
            None => line.append("None"),
        }
        line.append(", stat: ");
        let ghost head = line@;
        match event.stat {
            Some(stat) => {
                line.append("Some(EventStat { operation_type: ");
                line.append(
                    match stat.operation_type {
                        OperationType::Distribution => "Distribution",
                        OperationType::Timing => "Timing",
                        OperationType::Gauge => "Gauge",
                        OperationType::IncrByValue => "IncrByValue",
                    },
                );
                line.append(", value: ");
                text::push_signed_decimal(&mut line, stat.value);
                line.append(" })");
                assert(line@ =~= head + stat_text(event@.stat));
            },
            None => line.append("None"),
        }
        line
    }
}

/// A line names its event, and ends with what it measured.
pub proof fn law_lines_name_their_event(e: observers::EventView)
    ensures
        text::has_prefix(
            event_line(e),
            "[Debug][Event: "@ + observers::event_name(e.event_type) + "]"@,
        ),
        text::has_suffix(event_line(e), ", stat: "@ + stat_text(e.stat)),
{
    reveal_strlit("] sdk_key: ");
    reveal_strlit("]");
    let l = event_line(e);
    let p = "[Debug][Event: "@ + observers::event_name(e.event_type) + "]"@;
    assert("] sdk_key: "@[0] == ']');
    assert(l.take(p.len() as int) =~= p);
    let s = ", stat: "@ + stat_text(e.stat);
    assert(l.skip(l.len() - s.len()) =~= s);
}

/// Different values are written differently.
pub proof fn law_stats_are_told_apart(t: OperationType, a: i64, b: i64)
    ensures
        stat_text(Some(EventStat { operation_type: t, value: a })) == stat_text(
            Some(EventStat { operation_type: t, value: b }),
        ) ==> a == b,
{
    let x = stat_text(Some(EventStat { operation_type: t, value: a }));
    let y = stat_text(Some(EventStat { operation_type: t, value: b }));
    if x == y {
        let start = "Some(EventStat { operation_type: "@ + operation_name(t) + ", value: "@;
        let end = " })"@;
        let m = text::signed_decimal(a as int);
        let n = text::signed_decimal(b as int);
        assert(x.len() == start.len() + m.len() + end.len());
        assert(y.len() == start.len() + n.len() + end.len());
        assert(m =~= x.subrange(start.len() as int, (start.len() + m.len()) as int));
        assert(n =~= y.subrange(start.len() as int, (start.len() + n.len()) as int));
        text::law_signed_numbers_are_told_apart(a as int, b as int);
    }
}

} // verus!
