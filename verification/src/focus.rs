//! Focus-change event generation: given the focused node before and after
//! a focus update, the ordered list of events to dispatch.  The caller
//! performs the update itself and dispatches the returned events.

use vstd::prelude::*;

verus! {

/// The kinds of focus events, in dispatch categories.
#[derive(Debug, Clone, Copy, PartialEq, Eq, Structural)]
pub enum FocusEventKind {
    Blur,
    FocusOut,
    Focus,
    FocusIn,
}

/// A focus event to dispatch at a node.
#[derive(Debug, Clone, Copy, PartialEq, Eq, Structural)]
pub struct FocusEvent {
    pub node: usize,
    pub kind: FocusEventKind,
}

/// When focus moves, the old node gets `Blur` then `FocusOut`, and the new
/// node gets `Focus` then `FocusIn`; when focus does not move, nothing is
/// dispatched.
pub open spec fn focus_events_spec(old_focus: Option<usize>, new_focus: Option<usize>) -> Seq<
    FocusEvent,
> {
    if old_focus == new_focus {
        Seq::<FocusEvent>::empty()
    } else {
        (match old_focus {
            Some(o) => seq![
                FocusEvent { node: o, kind: FocusEventKind::Blur },
                FocusEvent { node: o, kind: FocusEventKind::FocusOut },
            ],
            None => Seq::<FocusEvent>::empty(),
        }) + (match new_focus {
            Some(n) => seq![
                FocusEvent { node: n, kind: FocusEventKind::Focus },
                FocusEvent { node: n, kind: FocusEventKind::FocusIn },
            ],
            None => Seq::<FocusEvent>::empty(),
        })
    }
}

/// The events to dispatch after a focus update that moved focus from
/// `old_focus` to `new_focus`.
pub fn generate_focus_events(old_focus: Option<usize>, new_focus: Option<usize>) -> (r: Vec<
    FocusEvent,
>)
    ensures
        r@ == focus_events_spec(old_focus, new_focus),
{
    let mut events: Vec<FocusEvent> = Vec::new();
    let same = match (&old_focus, &new_focus) {
        (Some(o), Some(n)) => *o == *n,
        (None, None) => true,
        _ => false,
    };
    if same {
        proof {
            assert(events@ =~= focus_events_spec(old_focus, new_focus));
        }
        return events;
    }
    if let Some(o) = old_focus {
        events.push(FocusEvent { node: o, kind: FocusEventKind::Blur });
        events.push(FocusEvent { node: o, kind: FocusEventKind::FocusOut });
    }
    if let Some(n) = new_focus {
        events.push(FocusEvent { node: n, kind: FocusEventKind::Focus });
        events.push(FocusEvent { node: n, kind: FocusEventKind::FocusIn });
    }
    proof {
        assert(events@ =~= focus_events_spec(old_focus, new_focus));
    }
    events
}

} // verus!
