//! The text of a log line: where its event object stands, and the query
//! put on one line.

use vstd::prelude::*;

verus! {

/// The characters of `s`, in order.
fn chars_of(s: &str) -> (r: Vec<char>)
    ensures
        r@ == s@,
{
    let mut out: Vec<char> = Vec::new();
    for c in it: s.chars()
        invariant
            it.seq() == s@,
            out@ == it.seq().take(it.index() as int),
    {
        out.push(c);
    }
    out
}

/// The text that tags a link-queue event: `"Link queue changed"`, quotes included.
pub open spec fn marker() -> Seq<char> {
    seq!['"', 'L', 'i', 'n', 'k', ' ', 'q', 'u', 'e', 'u', 'e', ' ', 'c', 'h', 'a', 'n', 'g', 'e', 'd', '"']
}

/// The marker stands in `s` from position `j` on.
pub open spec fn marker_at(s: Seq<char>, j: int) -> bool {
    0 <= j && j + marker().len() <= s.len() && s.subrange(j, j + marker().len()) == marker()
}

/// The marker stands somewhere in `s`.
pub open spec fn has_marker(s: Seq<char>) -> bool {
    exists|j: int| marker_at(s, j)
}

/// `s[i..=k]` opens with `{`, closes with `}`, and holds the marker between
/// the two.
pub open spec fn frames_marker(s: Seq<char>, i: int, k: int) -> bool {
    &&& 0 <= i < k < s.len()
    &&& s[i] == '{'
    &&& s[k] == '}'
    &&& exists|j: int| i + 1 <= j && j + marker().len() <= k && #[trigger] marker_at(s, j)
}

/// Some `}` after the `{` at `i` closes a span that holds the marker.
pub open spec fn opens_event(s: Seq<char>, i: int) -> bool {
    exists|k: int| frames_marker(s, i, k)
}

/// The event object of `s` runs from `i` to `k`, both included: `i` is the
/// first `{` that opens a span holding the marker, and `k` is the last `}` of
/// the line (the last closing brace wins).
pub open spec fn event_bounds(s: Seq<char>, i: int, k: int) -> bool {
    &&& opens_event(s, i)
    &&& forall|a: int| 0 <= a < i ==> !opens_event(s, a)
    &&& 0 <= k < s.len()
    &&& s[k] == '}'
    &&& forall|b: int| k < b < s.len() ==> s[b] != '}'
}

/// The embedded event object of the line `s`, if it holds one.
pub open spec fn event_text(s: Seq<char>) -> Option<Seq<char>> {
    if exists|i: int, k: int| event_bounds(s, i, k) {
        let (i, k) = choose|i: int, k: int| event_bounds(s, i, k);
        Some(s.subrange(i, k + 1))
    } else {
        None
    }
}

/// The bounds of the event object are unique.
pub proof fn lemma_event_bounds_unique(s: Seq<char>, i1: int, k1: int, i2: int, k2: int)
    requires
        event_bounds(s, i1, k1),
        event_bounds(s, i2, k2),
    ensures
        i1 == i2,
        k1 == k2,
{
    if i1 < i2 {
        assert(!opens_event(s, i1));
    }
    if i2 < i1 {
        assert(!opens_event(s, i2));
    }
    if k1 < k2 {
        assert(s[k2] != '}');
    }
    if k2 < k1 {
        assert(s[k1] != '}');
    }
}

/// A line without the marker holds no event object.
pub proof fn lemma_no_marker_no_event(s: Seq<char>)
    requires
        !has_marker(s),
    ensures
        event_text(s) is None,
{
    if exists|i: int, k: int| event_bounds(s, i, k) {
        let (i, k) = choose|i: int, k: int| event_bounds(s, i, k);
        let k2 = choose|k2: int| frames_marker(s, i, k2);
        let j = choose|j: int| i + 1 <= j && j + marker().len() <= k2 && #[trigger] marker_at(s, j);
        assert(has_marker(s));
    }
}

fn marker_chars() -> (r: Vec<char>)
    ensures
        r@ == marker(),
{
    let r: Vec<char> = vec!['"', 'L', 'i', 'n', 'k', ' ', 'q', 'u', 'e', 'u', 'e', ' ', 'c', 'h', 'a', 'n', 'g', 'e', 'd', '"'];
    assert(r@ =~= marker());
    r
}

fn marker_at_exec(s: &Vec<char>, m: &Vec<char>, j: usize) -> (r: bool)
    requires
        m@ == marker(),
        j + marker().len() <= s@.len(),
    ensures
        r == marker_at(s@, j as int),
{
    let mut t: usize = 0;
    let n = s.len();
    assert(m@.len() == marker().len());
    while t < m.len()
        invariant
            m@ == marker(),
            j + m@.len() <= s@.len() == n,
            t <= m@.len(),
            forall|u: int| 0 <= u < t ==> s@[j + u] == m@[u],
        decreases m@.len() - t,
    {
        if s[j + t] != m[t] {
            assert(s@.subrange(j as int, j + marker().len())[t as int] != marker()[t as int]);
            return false;
        }
        t = t + 1;
    }
    assert(s@.subrange(j as int, j + marker().len()) =~= marker());
    true
}

/// Finds the embedded event object of a log line: from the first `{` that
/// opens a span holding `"Link queue changed"` to the last `}` of the line.
/// A line without one gives `None`.
pub fn find_event_json(line: &str) -> (r: Option<&str>)
    ensures
        match r {
            Some(t) => event_text(line@) == Some(t@),
            None => event_text(line@) is None,
        },
{
    let s = chars_of(line);
    let n = s.len();
    let ghost sq = s@;
    // the first opening brace
    let mut i: usize = 0;
    while i < n && s[i] != '{'
        invariant
            i <= n == sq.len(),
            s@ == sq,
            forall|a: int| 0 <= a < i ==> sq[a] != '{',
        decreases n - i,
    {
        i = i + 1;
    }
    if i == n {
        proof {
            assert forall|a: int, b: int| !event_bounds(sq, a, b) by {
                if event_bounds(sq, a, b) {
                    let k2 = choose|k2: int| frames_marker(sq, a, k2);
                }
            }
        }
        return None;
    }
    // the last closing brace
    let mut k: usize = n;
    while k > 0 && s[k - 1] != '}'
        invariant
            k <= n == sq.len(),
            s@ == sq,
            forall|b: int| k <= b < n ==> sq[b] != '}',
        decreases k,
    {
        k = k - 1;
    }
    let ghost first = i as int;
    proof {
        assert forall|a: int, b: int| event_bounds(sq, a, b) implies first <= a && b < k by {
            let k2 = choose|k2: int| frames_marker(sq, a, k2);
            assert(sq[k2] == '}');
        }
    }
    if k < 22 || k - 22 < i {
        proof {
            assert forall|a: int, b: int| !event_bounds(sq, a, b) by {
                if event_bounds(sq, a, b) {
                    let k2 = choose|k2: int| frames_marker(sq, a, k2);
                    assert(sq[k2] == '}');
                    let j = choose|j: int| a + 1 <= j && j + marker().len() <= k2 && #[trigger] marker_at(sq, j);
                }
            }
        }
        return None;
    }
    let last = k - 1;
    let m = marker_chars();
    let mut j: usize = i + 1;
    while j <= last - 20
        invariant
            m@ == marker(),
            s@ == sq,
            n == sq.len(),
            first + 1 <= j,
            20 <= last < n,
            first == i < n,
            sq == line@,
            sq[first] == '{',
            sq[last as int] == '}',
            forall|a: int| 0 <= a < first ==> sq[a] != '{',
            forall|b: int| last < b < n ==> sq[b] != '}',
            forall|jj: int| first + 1 <= jj < j ==> !marker_at(sq, jj),
        decreases last - j,
    {
        if marker_at_exec(&s, &m, j) {
            proof {
                assert(marker_at(sq, j as int));
                assert(frames_marker(sq, first, last as int));
                assert(opens_event(sq, first));
                assert forall|a: int| 0 <= a < first implies !opens_event(sq, a) by {
                    if opens_event(sq, a) {
                        let k2 = choose|k2: int| frames_marker(sq, a, k2);
                    }
                }
                assert(event_bounds(sq, first, last as int));
                let (ci, ck) = choose|ci: int, ck: int| event_bounds(sq, ci, ck);
                lemma_event_bounds_unique(sq, ci, ck, first, last as int);
            }
            return Some(line.substring_char(i, last + 1));
        }
        j = j + 1;
    }
    proof {
        assert forall|a: int, b: int| !event_bounds(sq, a, b) by {
            if event_bounds(sq, a, b) {
                let k2 = choose|k2: int| frames_marker(sq, a, k2);
                assert(sq[k2] == '}');
                let jj = choose|jj: int| a + 1 <= jj && jj + marker().len() <= k2 && #[trigger] marker_at(sq, jj);
            }
        }
    }
    None
}

/// `\r` and `\n` end a line.
pub open spec fn is_line_break(c: char) -> bool {
    c == '\r' || c == '\n'
}

/// `s` with each line ending (`\r\n`, a lone `\n`, a lone `\r`) replaced by
/// one space; `\r\n` counts as one ending.
pub open spec fn one_line(s: Seq<char>) -> Seq<char>
    decreases s.len(),
{
    if s.len() == 0 {
        s
    } else if s.len() >= 2 && s[0] == '\r' && s[1] == '\n' {
        seq![' '] + one_line(s.subrange(2, s.len() as int))
    } else if is_line_break(s[0]) {
        seq![' '] + one_line(s.subrange(1, s.len() as int))
    } else {
        seq![s[0]] + one_line(s.subrange(1, s.len() as int))
    }
}

/// Text without line breaks passes through unchanged.
pub proof fn lemma_one_line_plain_prefix(a: Seq<char>, b: Seq<char>)
    requires
        forall|p: int| 0 <= p < a.len() ==> !is_line_break(#[trigger] a[p]),
    ensures
        one_line(a + b) == a + one_line(b),
    decreases a.len(),
{
    if a.len() > 0 {
        let rest = a.subrange(1, a.len() as int);
        assert((a + b).subrange(1, (a + b).len() as int) =~= rest + b);
        lemma_one_line_plain_prefix(rest, b);
        assert(a =~= seq![a[0]] + rest);
        assert(seq![a[0]] + (rest + one_line(b)) =~= a + one_line(b));
    } else {
        assert(a + b =~= b);
        assert(a + one_line(b) =~= one_line(b));
    }
}

/// Line breaks are replaced piecewise, unless the cut splits a `\r\n`.
pub proof fn lemma_one_line_concat(a: Seq<char>, b: Seq<char>)
    requires
        !(a.len() > 0 && b.len() > 0 && a.last() == '\r' && b[0] == '\n'),
    ensures
        one_line(a + b) == one_line(a) + one_line(b),
    decreases a.len(),
{
    let ab = a + b;
    if a.len() == 0 {
        assert(ab =~= b);
        assert(one_line(a) + one_line(b) =~= one_line(b));
    } else {
        let step: int = if a.len() >= 2 && a[0] == '\r' && a[1] == '\n' { 2 } else { 1 };
        let rest = a.subrange(step, a.len() as int);
        assert(ab.subrange(step, ab.len() as int) =~= rest + b);
        if a.len() == 1 && a[0] == '\r' {
            assert(ab.len() < 2 || ab[1] != '\n');
        }
        lemma_one_line_concat(rest, b);
        if is_line_break(a[0]) {
            assert(seq![' '] + (one_line(rest) + one_line(b)) =~= (seq![' '] + one_line(rest)) + one_line(b));
        } else {
            assert(seq![a[0]] + (one_line(rest) + one_line(b)) =~= (seq![a[0]] + one_line(rest)) + one_line(b));
        }
    }
}

/// `\r\n`, `\n` and `\r` between two pieces of text give the same one-line
/// form, unless the text around them would join with the break.
pub proof fn lemma_line_endings_agree(a: Seq<char>, b: Seq<char>)
    requires
        !(a.len() > 0 && a.last() == '\r'),
        !(b.len() > 0 && b[0] == '\n'),
    ensures
        one_line(a + seq!['\r', '\n'] + b) == one_line(a + seq!['\n'] + b),
        one_line(a + seq!['\r'] + b) == one_line(a + seq!['\n'] + b),
{
    let crlf = seq!['\r', '\n'];
    let lf = seq!['\n'];
    let cr = seq!['\r'];
    assert(one_line(crlf.subrange(2, 2)) =~= Seq::<char>::empty());
    assert(one_line(crlf) =~= seq![' ']);
    assert(one_line(lf.subrange(1, 1)) =~= Seq::<char>::empty());
    assert(one_line(lf) =~= seq![' ']);
    assert(one_line(cr.subrange(1, 1)) =~= Seq::<char>::empty());
    assert(one_line(cr) =~= seq![' ']);
    lemma_one_line_concat(a, crlf);
    lemma_one_line_concat(a + crlf, b);
    lemma_one_line_concat(a, lf);
    lemma_one_line_concat(a + lf, b);
    lemma_one_line_concat(a, cr);
    lemma_one_line_concat(a + cr, b);
}

/// The query text on one line: each line ending (`\r\n`, a lone `\n` or a
/// lone `\r`) becomes one space.
pub fn normalize_query(raw: &str) -> (r: String)
    ensures
        r@ == one_line(raw@),
{
    let s = chars_of(raw);
    let n = s.len();
    let ghost sq = s@;
    let mut out = String::new();
    let mut start: usize = 0;
    let mut i: usize = 0;
    proof {
        assert(sq.subrange(0, n as int) =~= sq);
        assert(out@ + one_line(sq) =~= one_line(sq));
    }
    while i < n
        invariant
            s@ == sq,
            sq == raw@,
            n == sq.len(),
            start <= i <= n,
            forall|p: int| start <= p < i ==> !is_line_break(#[trigger] sq[p]),
            out@ + one_line(sq.subrange(start as int, n as int)) == one_line(sq),
        decreases n - i,
    {
        let c = s[i];
        if c == '\r' || c == '\n' {
            let next: usize = if c == '\r' && i + 1 < n && s[i + 1] == '\n' { i + 2 } else { i + 1 };
            proof {
                let plain = sq.subrange(start as int, i as int);
                let tail = sq.subrange(i as int, n as int);
                assert(sq.subrange(start as int, n as int) =~= plain + tail);
                lemma_one_line_plain_prefix(plain, tail);
                assert(tail.subrange(next - i, tail.len() as int) =~= sq.subrange(next as int, n as int));
                assert(one_line(tail) == seq![' '] + one_line(sq.subrange(next as int, n as int)));
                reveal_strlit(" ");
                assert(" "@ =~= seq![' ']);
                assert(out@ + plain + " "@ + one_line(sq.subrange(next as int, n as int))
                    =~= out@ + one_line(sq.subrange(start as int, n as int)));
            }
            out.append(raw.substring_char(start, i));
            out.append(" ");
            i = next;
            start = next;
        } else {
            i = i + 1;
        }
    }
    proof {
        let plain = sq.subrange(start as int, n as int);
        lemma_one_line_plain_prefix(plain, Seq::<char>::empty());
        assert(plain + Seq::<char>::empty() =~= plain);
        assert(one_line(Seq::<char>::empty()) =~= Seq::<char>::empty());
        assert(plain + one_line(Seq::<char>::empty()) =~= plain);
    }
    out.append(raw.substring_char(start, n));
    out
}

} // verus!
