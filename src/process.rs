//! Reading one log line into the aggregate.

use vstd::prelude::*;

use crate::aggregate::{recorded, HistoryByQuery};
use crate::event::{direction_named, Direction, LinkEvent};
use crate::json::{is_json_document, json_map_at, json_object_at, json_string_at, object_at, parse_document, string_at, Document};
use crate::text::{event_text, find_event_json, has_marker, lemma_no_marker_no_event, normalize_query, one_line};

verus! {

/// A field that an event must hold: `data` at the top, and inside it
/// `type`, `query`, `link` and `queue`.
#[derive(Clone, Copy, Debug, PartialEq, Eq, Structural)]
pub enum Field {
    Data,
    Type,
    Query,
    Link,
    Queue,
}

/// Why a line that carries the marker gave no event.
#[derive(Debug)]
pub enum LineError {
    /// The event object is not a JSON document. Only this line is lost: the
    /// run goes on.
    Malformed(serde_json::Error),
    /// A field is absent, or not of the kind expected (an object for `data`,
    /// `link` and `queue`; a string for `type` and `query`).
    MissingField(Field),
    /// The event's `type` names neither direction.
    UnknownEvent(String),
}

impl LineError {
    /// Whether the run must stop: every error but a malformed event object.
    pub fn is_fatal(&self) -> (r: bool)
        ensures
            r == !(self is Malformed),
    {
        match self {
            LineError::Malformed(_) => false,
            _ => true,
        }
    }
}

/// Routes an event of type `kind` for the raw query text `raw_query` into
/// `history`, under the query put on one line. A `kind` that names neither
/// direction leaves `history` as it was and is reported.
pub fn apply_event(
    history: &mut HistoryByQuery,
    raw_query: &str,
    kind: &str,
    event: LinkEvent,
) -> (r: Result<(), LineError>)
    requires
        old(history).well_formed(),
    ensures
        final(history).well_formed(),
        match direction_named(kind@) {
            Some(d) => r is Ok && final(history)@ == recorded(old(history)@, one_line(raw_query@), d, event),
            None => final(history)@ == old(history)@ && match r {
                Err(LineError::UnknownEvent(k)) => k@ == kind@,
                _ => false,
            },
        },
{
    match Direction::from_type(kind) {
        Some(d) => {
            let query = normalize_query(raw_query);
            history.record(query, d, event);
            Ok(())
        },
        None => Err(LineError::UnknownEvent(kind.to_owned())),
    }
}

/// The JSON pointer at which the event holds `f`.
pub open spec fn pointer_of(f: Field) -> Seq<char> {
    match f {
        Field::Data => seq!['/', 'd', 'a', 't', 'a'],
        Field::Type => seq!['/', 'd', 'a', 't', 'a', '/', 't', 'y', 'p', 'e'],
        Field::Query => seq!['/', 'd', 'a', 't', 'a', '/', 'q', 'u', 'e', 'r', 'y'],
        Field::Link => seq!['/', 'd', 'a', 't', 'a', '/', 'l', 'i', 'n', 'k'],
        Field::Queue => seq!['/', 'd', 'a', 't', 'a', '/', 'q', 'u', 'e', 'u', 'e'],
    }
}

/// The first of `data`, `query`, `type`, `link` and `queue` that the event
/// read from `t` lacks or holds with the wrong kind: `data`, `link` and
/// `queue` must be objects, `query` and `type` strings.
pub open spec fn first_missing(t: Seq<char>) -> Option<Field> {
    if !json_object_at(t, pointer_of(Field::Data)) {
        Some(Field::Data)
    } else if json_string_at(t, pointer_of(Field::Query)) is None {
        Some(Field::Query)
    } else if json_string_at(t, pointer_of(Field::Type)) is None {
        Some(Field::Type)
    } else if !json_object_at(t, pointer_of(Field::Link)) {
        Some(Field::Link)
    } else if !json_object_at(t, pointer_of(Field::Queue)) {
        Some(Field::Queue)
    } else {
        None
    }
}

/// The raw query text of the event read from `t`.
pub open spec fn query_of(t: Seq<char>) -> Seq<char> {
    json_string_at(t, pointer_of(Field::Query))->0
}

/// The type of the event read from `t`.
pub open spec fn type_of(t: Seq<char>) -> Seq<char> {
    json_string_at(t, pointer_of(Field::Type))->0
}

/// The event read from `t`: its `link` and `queue` objects, as they are.
pub open spec fn event_of(t: Seq<char>) -> LinkEvent {
    LinkEvent {
        link: json_map_at(t, pointer_of(Field::Link)),
        queue: json_map_at(t, pointer_of(Field::Queue)),
    }
}

impl Field {
    /// The JSON pointer at which the event holds this field.
    pub fn pointer(self) -> (r: &'static str)
        ensures
            r@ == pointer_of(self),
    {
        match self {
            Field::Data => {
                proof {
                    reveal_strlit("/data");
                }
                assert("/data"@ =~= pointer_of(self));
                "/data"
            },
            Field::Type => {
                proof {
                    reveal_strlit("/data/type");
                }
                assert("/data/type"@ =~= pointer_of(self));
                "/data/type"
            },
            Field::Query => {
                proof {
                    reveal_strlit("/data/query");
                }
                assert("/data/query"@ =~= pointer_of(self));
                "/data/query"
            },
            Field::Link => {
                proof {
                    reveal_strlit("/data/link");
                }
                assert("/data/link"@ =~= pointer_of(self));
                "/data/link"
            },
            Field::Queue => {
                proof {
                    reveal_strlit("/data/queue");
                }
                assert("/data/queue"@ =~= pointer_of(self));
                "/data/queue"
            },
        }
    }
}

fn object_field(doc: &Document, field: Field) -> (r: Result<&serde_json::Map<String, serde_json::Value>, LineError>)
    ensures
        r is Ok <==> json_object_at(doc.source(), pointer_of(field)),
        r matches Ok(m) ==> *m == json_map_at(doc.source(), pointer_of(field)),
        r matches Err(LineError::MissingField(f)) ==> f == field,
        r is Err ==> r matches Err(LineError::MissingField(_)),
{
    match object_at(doc, field.pointer()) {
        Some(m) => Ok(m),
        None => Err(LineError::MissingField(field)),
    }
}

fn string_field(doc: &Document, field: Field) -> (r: Result<&str, LineError>)
    ensures
        match r {
            Ok(s) => json_string_at(doc.source(), pointer_of(field)) == Some(s@),
            Err(e) => json_string_at(doc.source(), pointer_of(field)) is None && e == LineError::MissingField(field),
        },
{
    match string_at(doc, field.pointer()) {
        Some(s) => Ok(s),
        None => Err(LineError::MissingField(field)),
    }
}

/// Reads one log line into `history`. A line without an embedded event
/// object (see `find_event_json`) is skipped. An event object that is not
/// JSON gives `Malformed`; one without the expected fields gives
/// `MissingField` for the first that lacks; one whose `type` is neither
/// `push` nor `pop` gives `UnknownEvent`. On any error `history` is left as
/// it was. Otherwise the event is appended under its query put on one line.
pub fn process_line(line: &String, history: &mut HistoryByQuery) -> (r: Result<(), LineError>)
    requires
        old(history).well_formed(),
    ensures
        final(history).well_formed(),
        !has_marker(line@) ==> r is Ok && final(history)@ == old(history)@,
        match event_text(line@) {
            None => r is Ok && final(history)@ == old(history)@,
            Some(t) => {
                &&& (r matches Err(LineError::Malformed(_))) <==> !is_json_document(t)
                &&& is_json_document(t) ==> match first_missing(t) {
                    Some(f) => r matches Err(LineError::MissingField(g)) && g == f,
                    None => match direction_named(type_of(t)) {
                        Some(d) => r is Ok && final(history)@ == recorded(
                            old(history)@,
                            one_line(query_of(t)),
                            d,
                            event_of(t),
                        ),
                        None => r matches Err(LineError::UnknownEvent(k)) && k@ == type_of(t),
                    },
                }
            },
        },
        r is Err ==> final(history)@ == old(history)@,
{
    proof {
        if !has_marker(line@) {
            lemma_no_marker_no_event(line@);
        }
    }
    let text = match find_event_json(line.as_str()) {
        Some(t) => t,
        None => return Ok(()),
    };
    let doc = match parse_document(text) {
        Ok(d) => d,
        Err(e) => return Err(LineError::Malformed(e)),
    };
    if let Err(e) = object_field(&doc, Field::Data) {
        return Err(e);
    }
    let query = match string_field(&doc, Field::Query) {
        Ok(s) => s,
        Err(e) => return Err(e),
    };
    let kind = match string_field(&doc, Field::Type) {
        Ok(s) => s,
        Err(e) => return Err(e),
    };
    let link = match object_field(&doc, Field::Link) {
        Ok(m) => m,
        Err(e) => return Err(e),
    };
    let queue = match object_field(&doc, Field::Queue) {
        Ok(m) => m,
        Err(e) => return Err(e),
    };
    let event = LinkEvent { link: link.clone(), queue: queue.clone() };
    assert(event == event_of(text@));
    let r = apply_event(history, query, kind, event);
    proof {
        let t = text@;
        assert(first_missing(t) is None);
        assert(query@ == query_of(t));
        assert(kind@ == type_of(t));
    }
    r
}

} // verus!
