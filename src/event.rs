//! One event of the link queue, its direction, and the history of a query.

use vstd::prelude::*;

verus! {

/// One change of the link queue: the link that was pushed or popped, and the
/// state of the queue at that moment. Both are carried through as they were
/// read.
#[derive(Debug, Clone, PartialEq)]
pub struct LinkEvent {
    pub link: serde_json::Map<String, serde_json::Value>,
    pub queue: serde_json::Map<String, serde_json::Value>,
}

/// The two ways the link queue changes.
#[derive(Clone, Copy, Debug, PartialEq, Eq, Structural)]
pub enum Direction {
    Push,
    Pop,
}

/// The event type that names a push.
pub open spec fn push_name() -> Seq<char> {
    seq!['p', 'u', 's', 'h']
}

/// The event type that names a pop.
pub open spec fn pop_name() -> Seq<char> {
    seq!['p', 'o', 'p']
}

/// The direction that an event type names, if it names one.
pub open spec fn direction_named(kind: Seq<char>) -> Option<Direction> {
    if kind == push_name() {
        Some(Direction::Push)
    } else if kind == pop_name() {
        Some(Direction::Pop)
    } else {
        None
    }
}

impl Direction {
    /// Reads the `type` of an event: `push` or `pop`; any other text names
    /// no direction.
    pub fn from_type(kind: &str) -> (r: Option<Direction>)
        ensures
            r == direction_named(kind@),
    {
        let n = kind.unicode_len();
        if n == 4 && kind.get_char(0) == 'p' && kind.get_char(1) == 'u' && kind.get_char(2) == 's'
            && kind.get_char(3) == 'h' {
            assert(kind@ =~= push_name());
            Some(Direction::Push)
        } else if n == 3 && kind.get_char(0) == 'p' && kind.get_char(1) == 'o' && kind.get_char(2)
            == 'p' {
            assert(kind@ =~= pop_name());
            Some(Direction::Pop)
        } else {
            proof {
                if kind@ == push_name() {
                    assert(kind@[0] == 'p' && kind@[1] == 'u' && kind@[2] == 's' && kind@[3] == 'h');
                }
                if kind@ == pop_name() {
                    assert(kind@[0] == 'p' && kind@[1] == 'o' && kind@[2] == 'p');
                }
            }
            None
        }
    }
}

/// The events of one query, each list in the order of arrival.
#[derive(Debug, Clone, PartialEq)]
pub struct History {
    pub push_events: Vec<LinkEvent>,
    pub pop_events: Vec<LinkEvent>,
}

/// What a `History` holds: its two lists of events.
pub ghost struct HistoryView {
    pub push_events: Seq<LinkEvent>,
    pub pop_events: Seq<LinkEvent>,
}

impl HistoryView {
    /// No event yet.
    pub open spec fn empty() -> HistoryView {
        HistoryView { push_events: Seq::empty(), pop_events: Seq::empty() }
    }

    /// `e` appended to the list of its direction; the other list unchanged.
    pub open spec fn with_event(self, d: Direction, e: LinkEvent) -> HistoryView {
        match d {
            Direction::Push => HistoryView { push_events: self.push_events.push(e), ..self },
            Direction::Pop => HistoryView { pop_events: self.pop_events.push(e), ..self },
        }
    }

    /// The number of events in both lists.
    pub open spec fn count(self) -> nat {
        self.push_events.len() + self.pop_events.len()
    }
}

impl View for History {
    type V = HistoryView;

    open spec fn view(&self) -> HistoryView {
        HistoryView { push_events: self.push_events@, pop_events: self.pop_events@ }
    }
}

impl History {
    /// A history with no event.
    pub fn new() -> (r: History)
        ensures
            r@ == HistoryView::empty(),
    {
        History { push_events: Vec::new(), pop_events: Vec::new() }
    }

    /// Appends `e` to the list of direction `d`.
    pub fn add(&mut self, d: Direction, e: LinkEvent)
        ensures
            final(self)@ == old(self)@.with_event(d, e),
    {
        match d {
            Direction::Push => self.push_events.push(e),
            Direction::Pop => self.pop_events.push(e),
        }
    }
}

} // verus!
