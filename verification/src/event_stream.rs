//! The WebUI's event stream: where a reconnecting browser resumes, and what
//! the stream does with each record it meets, so that no record is sent
//! twice and none an owner may not see is sent at all.
use crate::text::chars_of;
use vstd::prelude::*;

verus! {

/// Whether `c` is an ASCII decimal digit.
pub open spec fn is_digit(c: char) -> bool {
    '0' <= c && c <= '9'
}

/// The value of a string of decimal digits.
pub open spec fn digits_value(s: Seq<char>) -> nat
    decreases s.len(),
{
    if s.len() == 0 {
        0
    } else {
        digits_value(s.drop_last()) * 10 + ((s.last() as nat) - ('0' as nat)) as nat
    }
}

/// A number's digits: the text without one leading `+`.
pub open spec fn sign_stripped(s: Seq<char>) -> Seq<char> {
    if s.len() > 0 && s[0] == '+' {
        s.drop_first()
    } else {
        s
    }
}

pub open spec fn all_digits(d: Seq<char>) -> bool {
    forall|i: int| 0 <= i < d.len() ==> is_digit(#[trigger] d[i])
}

/// What `str::parse::<u64>` reads: decimal digits, after an optional `+`,
/// at least one, of a value that fits in 64 bits.
pub open spec fn parsed_u64(s: Seq<char>) -> Option<u64> {
    let d = sign_stripped(s);
    if d.len() > 0 && all_digits(d) && digits_value(d) <= u64::MAX {
        Some(digits_value(d) as u64)
    } else {
        None
    }
}

proof fn lemma_digits_value_grows(d: Seq<char>, i: int)
    requires
        0 <= i <= d.len(),
        forall|k: int| 0 <= k < d.len() ==> is_digit(#[trigger] d[k]),
    ensures
        digits_value(d.take(i)) <= digits_value(d),
    decreases d.len() - i,
{
    if i < d.len() {
        lemma_digits_value_grows(d, i + 1);
        let t = d.take(i + 1);
        assert(t.drop_last() =~= d.take(i));
        assert(digits_value(t) >= digits_value(d.take(i)) * 10);
        assert(digits_value(d.take(i)) * 10 >= digits_value(d.take(i))) by (nonlinear_arith);
    } else {
        assert(d.take(i) =~= d);
    }
}

/// Parses an unsigned 64-bit decimal number as `str::parse::<u64>` does.
pub fn parse_u64(s: &str) -> (r: Option<u64>)
    ensures
        r == parsed_u64(s@),
{
    let v = chars_of(s);
    let start: usize = if v.len() > 0 && v[0] == '+' {
        1
    } else {
        0
    };
    let ghost d = if s@.len() > 0 && s@[0] == '+' {
        s@.drop_first()
    } else {
        s@
    };
    assert(d =~= v@.skip(start as int));
    if start >= v.len() {
        return None;
    }
    let mut value: u64 = 0;
    let mut i: usize = start;
    while i < v.len()
        invariant
            start <= i <= v.len(),
            v@ == s@,
            d == sign_stripped(s@),
            d == v@.skip(start as int),
            forall|k: int| start <= k < i ==> is_digit(#[trigger] v@[k]),
            value as nat == digits_value(d.take(i - start)),
        decreases v.len() - i,
    {
        let c = v[i];
        let ghost t = d.take(i - start + 1);
        assert(t.drop_last() =~= d.take(i - start));
        assert(t.last() == c);
        if !('0' <= c && c <= '9') {
            proof {
                assert(!is_digit(d[i - start]));
                assert(!all_digits(d));
            }
            return None;
        }
        let digit = (c as u64) - ('0' as u64);
        if value > (u64::MAX - digit) / 10 {
            proof {
                assert(digits_value(t) == value * 10 + digit);
                assert(value * 10 + digit > u64::MAX) by (nonlinear_arith)
                    requires
                        value > (u64::MAX - digit) / 10,
                        digit <= 9,
                ;
                if all_digits(d) {
                    lemma_digits_value_grows(d, i - start + 1);
                }
            }
            return None;
        }
        proof {
            assert(value * 10 + digit <= u64::MAX) by (nonlinear_arith)
                requires
                    value <= (u64::MAX - digit) / 10,
                    digit <= 9,
            ;
        }
        value = value * 10 + digit;
        i += 1;
    }
    assert(d.take(d.len() as int) =~= d);
    Some(value)
}

/// Where a (re)connecting stream resumes: after the later of the `after`
/// query parameter and the `Last-Event-ID` header, a header that is not a
/// number counting as 0.
pub open spec fn resume_point(after: u64, header: Option<Seq<char>>) -> u64 {
    let h = match header {
        Some(text) => match parsed_u64(text) {
            Some(n) => n,
            None => 0,
        },
        None => 0,
    };
    if after >= h {
        after
    } else {
        h
    }
}

pub fn resume_after(after: u64, header: Option<&str>) -> (r: u64)
    ensures
        r == resume_point(
            after,
            match header {
                Some(t) => Some(t@),
                None => None,
            },
        ),
{
    let h = match header {
        Some(t) => match parse_u64(t) {
            Some(n) => n,
            None => 0,
        },
        None => 0,
    };
    if after >= h {
        after
    } else {
        h
    }
}

/// What the stream meets next.
pub enum StreamInput {
    /// A record replayed from the history.
    Replayed { id: u64, resync: bool, allowed: bool },
    /// A record broadcast live.
    Live { id: u64, allowed: bool },
    /// The live channel dropped records: replay the history after the last
    /// id seen.
    Lagged,
    /// The event bus closed.
    Closed,
}

/// What the stream does with it.
pub enum StreamAction {
    Send,
    Skip,
    Replay,
    End,
}

/// One step of the stream from the last id seen: a replayed resync marker
/// is always sent; any other record at or below the last id is skipped;
/// a newer record moves the last id and is sent only if the viewer may see
/// it.
pub open spec fn stream_step_of(last_id: u64, input: StreamInput) -> (u64, StreamAction) {
    match input {
        StreamInput::Replayed { id, resync, allowed } => if resync {
            (id, StreamAction::Send)
        } else if id <= last_id {
            (last_id, StreamAction::Skip)
        } else if allowed {
            (id, StreamAction::Send)
        } else {
            (id, StreamAction::Skip)
        },
        StreamInput::Live { id, allowed } => if id <= last_id {
            (last_id, StreamAction::Skip)
        } else if allowed {
            (id, StreamAction::Send)
        } else {
            (id, StreamAction::Skip)
        },
        StreamInput::Lagged => (last_id, StreamAction::Replay),
        StreamInput::Closed => (last_id, StreamAction::End),
    }
}

pub fn stream_step(last_id: u64, input: StreamInput) -> (r: (u64, StreamAction))
    ensures
        r == stream_step_of(last_id, input),
{
    match input {
        StreamInput::Replayed { id, resync, allowed } => if resync {
            (id, StreamAction::Send)
        } else if id <= last_id {
            (last_id, StreamAction::Skip)
        } else if allowed {
            (id, StreamAction::Send)
        } else {
            (id, StreamAction::Skip)
        },
        StreamInput::Live { id, allowed } => if id <= last_id {
            (last_id, StreamAction::Skip)
        } else if allowed {
            (id, StreamAction::Send)
        } else {
            (id, StreamAction::Skip)
        },
        StreamInput::Lagged => (last_id, StreamAction::Replay),
        StreamInput::Closed => (last_id, StreamAction::End),
    }
}

/// Whether an input is an ordinary record (not a resync marker).
pub open spec fn is_record(input: StreamInput) -> bool {
    match input {
        StreamInput::Replayed { resync, .. } => !resync,
        StreamInput::Live { .. } => true,
        _ => false,
    }
}

pub open spec fn record_id(input: StreamInput) -> u64 {
    match input {
        StreamInput::Replayed { id, .. } => id,
        StreamInput::Live { id, .. } => id,
        _ => 0,
    }
}

pub open spec fn record_allowed(input: StreamInput) -> bool {
    match input {
        StreamInput::Replayed { allowed, .. } => allowed,
        StreamInput::Live { allowed, .. } => allowed,
        _ => false,
    }
}

/// Ordinary records go out once, in rising order of id, and never to a
/// viewer who may not see them: a record sent is newer than every record
/// met before it, and the last id never goes back.
pub proof fn law_records_are_sent_once_in_order(last_id: u64, input: StreamInput)
    requires
        is_record(input),
    ensures
        stream_step_of(last_id, input).0 >= last_id,
        stream_step_of(last_id, input).1 is Send ==> record_id(input) > last_id && record_allowed(input)
            && stream_step_of(last_id, input).0 == record_id(input),
        record_id(input) <= last_id ==> stream_step_of(last_id, input).1 is Skip,
{
}


/// A record the viewer may see and that is newer than the last id seen is
/// sent, whether it comes from the history (as on every reconnect) or live,
/// and the last id moves to it.
pub proof fn law_new_visible_records_are_sent(last_id: u64, id: u64)
    requires
        id > last_id,
    ensures
        stream_step_of(last_id, StreamInput::Replayed { id, resync: false, allowed: true }) == (
            id,
            StreamAction::Send,
        ),
        stream_step_of(last_id, StreamInput::Live { id, allowed: true }) == (id, StreamAction::Send),
{
}

/// Each ordinary record (replayed or live, not a resync marker) is sent at
/// most once and only to a viewer allowed to see it: it is sent exactly when
/// it is newer than the last id seen and allowed; a newer record moves the
/// last id to its own id, an older one leaves it; the last id never goes
/// back.
pub proof fn law_records_sent_once_in_order(last_id: u64, id: u64, allowed: bool, live: bool)
    ensures
        ({
            let input = if live {
                StreamInput::Live { id, allowed }
            } else {
                StreamInput::Replayed { id, resync: false, allowed }
            };
            let r = stream_step_of(last_id, input);
            &&& (r.1 is Send <==> (id > last_id && allowed))
            &&& (r.1 is Send || r.1 is Skip)
            &&& r.0 == (if id > last_id { id } else { last_id })
            &&& r.0 >= last_id
        }),
{
}

/// A resync marker from the history is always sent; a lag replays the
/// history and a closed bus ends the stream, the last id unchanged.
pub proof fn law_markers_lags_and_close(last_id: u64, id: u64, allowed: bool)
    ensures
        stream_step_of(last_id, StreamInput::Replayed { id, resync: true, allowed }) == (id, StreamAction::Send),
        stream_step_of(last_id, StreamInput::Lagged) == (last_id, StreamAction::Replay),
        stream_step_of(last_id, StreamInput::Closed) == (last_id, StreamAction::End),
{
}

} // verus!
