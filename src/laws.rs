//! Properties of the aggregate over several events.

use vstd::prelude::*;

use crate::aggregate::{history_of, recorded};
use crate::event::{Direction, HistoryView, LinkEvent};
use crate::text::one_line;

verus! {

/// The list of direction `d` in `h`.
pub open spec fn events_of(h: HistoryView, d: Direction) -> Seq<LinkEvent> {
    match d {
        Direction::Push => h.push_events,
        Direction::Pop => h.pop_events,
    }
}

/// The other direction.
pub open spec fn opposite(d: Direction) -> Direction {
    match d {
        Direction::Push => Direction::Pop,
        Direction::Pop => Direction::Push,
    }
}

/// `m` after the events `evs` arrived for query `q`, in order.
pub open spec fn replay(
    m: Map<Seq<char>, HistoryView>,
    q: Seq<char>,
    evs: Seq<(Direction, LinkEvent)>,
) -> Map<Seq<char>, HistoryView>
    decreases evs.len(),
{
    if evs.len() == 0 {
        m
    } else {
        let (d, e) = evs.last();
        recorded(replay(m, q, evs.drop_last()), q, d, e)
    }
}

/// The events of direction `d` among `evs`, in order.
pub open spec fn of_direction(evs: Seq<(Direction, LinkEvent)>, d: Direction) -> Seq<LinkEvent>
    decreases evs.len(),
{
    if evs.len() == 0 {
        Seq::empty()
    } else if evs.last().0 == d {
        of_direction(evs.drop_last(), d).push(evs.last().1)
    } else {
        of_direction(evs.drop_last(), d)
    }
}

/// An event lands under its query, last in the list of its direction; the
/// list of the other direction stays as it was.
pub proof fn lemma_event_lands_last(m: Map<Seq<char>, HistoryView>, q: Seq<char>, d: Direction, e: LinkEvent)
    ensures
        recorded(m, q, d, e).contains_key(q),
        events_of(recorded(m, q, d, e)[q], d) == events_of(history_of(m, q), d).push(e),
        events_of(recorded(m, q, d, e)[q], d).last() == e,
        events_of(recorded(m, q, d, e)[q], opposite(d)) == events_of(history_of(m, q), opposite(d)),
{
}

/// An event for one query leaves every other query as it was: whether it
/// has a history, and what that history holds.
pub proof fn lemma_other_queries_untouched(
    m: Map<Seq<char>, HistoryView>,
    q: Seq<char>,
    d: Direction,
    e: LinkEvent,
    other: Seq<char>,
)
    requires
        q != other,
    ensures
        recorded(m, q, d, e).contains_key(other) == m.contains_key(other),
        history_of(recorded(m, q, d, e), other) == history_of(m, other),
{
}

/// The number of events of each direction among `evs` adds up to their number.
pub proof fn lemma_of_direction_counts(evs: Seq<(Direction, LinkEvent)>)
    ensures
        of_direction(evs, Direction::Push).len() + of_direction(evs, Direction::Pop).len() == evs.len(),
    decreases evs.len(),
{
    if evs.len() > 0 {
        lemma_of_direction_counts(evs.drop_last());
    }
}

/// Events of one query, pushes and pops mixed, land in the order of their
/// arrival in the list of their direction, and its history grows by their
/// number.
pub proof fn lemma_replay_keeps_order(
    m: Map<Seq<char>, HistoryView>,
    q: Seq<char>,
    evs: Seq<(Direction, LinkEvent)>,
)
    ensures
        evs.len() > 0 ==> replay(m, q, evs).contains_key(q),
        history_of(replay(m, q, evs), q).push_events == history_of(m, q).push_events + of_direction(evs, Direction::Push),
        history_of(replay(m, q, evs), q).pop_events == history_of(m, q).pop_events + of_direction(evs, Direction::Pop),
        history_of(replay(m, q, evs), q).count() == history_of(m, q).count() + evs.len(),
    decreases evs.len(),
{
    if evs.len() == 0 {
        assert(history_of(m, q).push_events + Seq::empty() =~= history_of(m, q).push_events);
        assert(history_of(m, q).pop_events + Seq::empty() =~= history_of(m, q).pop_events);
    } else {
        let rest = evs.drop_last();
        lemma_replay_keeps_order(m, q, rest);
        lemma_of_direction_counts(evs);
        lemma_of_direction_counts(rest);
        let (d, e) = evs.last();
        match d {
            Direction::Push => {
                assert(history_of(m, q).push_events + of_direction(rest, Direction::Push).push(e)
                    =~= (history_of(m, q).push_events + of_direction(rest, Direction::Push)).push(e));
            },
            Direction::Pop => {
                assert(history_of(m, q).pop_events + of_direction(rest, Direction::Pop).push(e)
                    =~= (history_of(m, q).pop_events + of_direction(rest, Direction::Pop)).push(e));
            },
        }
    }
}

/// Two raw queries with the same one-line form share one key: their events
/// add that key at most, and both land in its history.
pub proof fn lemma_same_one_line_one_key(
    m: Map<Seq<char>, HistoryView>,
    q1: Seq<char>,
    d1: Direction,
    e1: LinkEvent,
    q2: Seq<char>,
    d2: Direction,
    e2: LinkEvent,
)
    requires
        one_line(q1) == one_line(q2),
    ensures
        recorded(recorded(m, one_line(q1), d1, e1), one_line(q2), d2, e2).dom() == m.dom().insert(one_line(q1)),
        history_of(recorded(recorded(m, one_line(q1), d1, e1), one_line(q2), d2, e2), one_line(q1)).count()
            == history_of(m, one_line(q1)).count() + 2,
{
    let k = one_line(q1);
    let after = recorded(recorded(m, k, d1, e1), k, d2, e2);
    assert(after.dom() =~= m.dom().insert(k));
}

} // verus!
