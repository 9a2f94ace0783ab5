//! What the framing of replies promises.
//!
//! [`reply_wire`] writes a reply down as the peer sends it. The laws of this
//! file say that [`frame`] reads such bytes back as the reply they were
//! written from, that it does so only within the ceiling, and that it reads
//! nothing from a reply that is cut short or whose lines disagree on the
//! code.

use crate::control::conn::conn::{
    code_value, ends_data, feed, frame, run, start, ConnError, Outcome, ParseState,
    Stage, Step, DOT, MINUS, PLUS,
};
use crate::utils::text::is_ascii_bytes;
use crate::utils::{is_digit, CR, LF, SPACE, ZERO};
use vstd::prelude::*;

verus! {

/// A line of a reply that is not the last one.
pub struct Line {
    /// Whether the line is sent as a data line.
    pub data: bool,
    pub payload: Seq<u8>,
}

/// The three digits of a code.
pub open spec fn code_digits(code: u16) -> Seq<u8> {
    seq![
        (ZERO + code / 100) as u8,
        (ZERO + (code / 10) % 10) as u8,
        (ZERO + code % 10) as u8,
    ]
}

/// What ends a line.
pub open spec fn line_end() -> Seq<u8> {
    seq![CR, LF]
}

/// What ends a data line.
pub open spec fn data_end() -> Seq<u8> {
    seq![CR, LF, DOT, CR, LF]
}

/// ASCII in which no line feed follows a carriage return: what a line can
/// hold.
pub open spec fn clean_line(payload: Seq<u8>) -> bool {
    &&& is_ascii_bytes(payload)
    &&& forall|i: int, j: int|
        0 <= i && j == i + 1 && j < payload.len() && #[trigger] payload[i] == CR
            ==> #[trigger] payload[j] != LF
}

/// ASCII that, with the end of a data line behind it, holds that end at its
/// end only: what a data line can hold.
pub open spec fn clean_data(payload: Seq<u8>) -> bool {
    &&& is_ascii_bytes(payload)
    &&& forall|m: int|
        0 <= m < payload.len() + 5 ==> !ends_data(#[trigger] (payload + data_end()).take(m))
}

/// What a line can hold, by its kind.
pub open spec fn clean(line: Line) -> bool {
    if line.data {
        clean_data(line.payload)
    } else {
        clean_line(line.payload)
    }
}

/// One line on the wire: the code, the mark, the payload and the end.
pub open spec fn line_wire(code: u16, mark: u8, payload: Seq<u8>) -> Seq<u8> {
    code_digits(code) + seq![mark] + payload + (if mark == PLUS {
        data_end()
    } else {
        line_end()
    })
}

/// The mark of a line that is not the last one.
pub open spec fn mark_of(line: Line) -> u8 {
    if line.data {
        PLUS
    } else {
        MINUS
    }
}

/// The lines before the last one on the wire.
pub open spec fn body_wire(code: u16, body: Seq<Line>) -> Seq<u8>
    decreases body.len(),
{
    if body.len() == 0 {
        Seq::empty()
    } else {
        line_wire(code, mark_of(body[0]), body[0].payload) + body_wire(code, body.skip(1))
    }
}

/// A reply on the wire.
pub open spec fn reply_wire(code: u16, body: Seq<Line>, last: Seq<u8>) -> Seq<u8> {
    body_wire(code, body) + line_wire(code, SPACE, last)
}

/// What the lines hold.
pub open spec fn payloads(body: Seq<Line>) -> Seq<Seq<u8>> {
    Seq::new(body.len(), |i: int| body[i].payload)
}

/// The state between two lines of a reply with the code `code`.
pub open spec fn between_lines(st: ParseState, code: u16) -> bool {
    &&& st.stage == Stage::Code
    &&& st.buffer.len() == 0
    &&& st.code is Some ==> st.code == Some(code)
    &&& st.code is None ==> st.lines.len() == 0
}

/// The state behind a line.
pub open spec fn after_line(st: ParseState, code: u16, payload: Seq<u8>, taken: nat) -> ParseState {
    ParseState {
        stage: Stage::Code,
        code: Some(code),
        lines: st.lines.push(payload),
        buffer: Seq::empty(),
        read: st.read + taken,
    }
}

/// One byte at the head of the input is fed, unless the ceiling is reached.
proof fn lemma_run_byte(st: ParseState, limit: nat, b: u8, tail: Seq<u8>)
    ensures
        run(st, limit, seq![b] + tail) == if st.read >= limit {
            Outcome::Fail(ConnError::TooManyBytesRead)
        } else {
            match feed(st, limit, b) {
                Step::More(next) => run(next, limit, tail),
                Step::Done(code, lines) => Outcome::Reply { code, lines, consumed: st.read + 1 },
                Step::Fail(e) => Outcome::Fail(e),
            }
        },
{
    let input = seq![b] + tail;
    assert(input.skip(1) =~= tail);
}

/// The digits of a code are digits and write the code.
proof fn lemma_code_digits(code: u16)
    requires
        code <= 999,
    ensures
        code_digits(code).len() == 3,
        forall|i: int| 0 <= i < 3 ==> is_digit(#[trigger] code_digits(code)[i]),
        code_value(code_digits(code)) == code,
{
}

/// The code and the mark of a line lead into the line.
proof fn lemma_run_head(st: ParseState, code: u16, mark: u8, tail: Seq<u8>, limit: nat)
    requires
        between_lines(st, code),
        code <= 999,
        mark == SPACE || mark == MINUS || mark == PLUS,
    ensures
        run(st, limit, code_digits(code) + seq![mark] + tail) == if st.read + 4 > limit {
            Outcome::Fail(ConnError::TooManyBytesRead)
        } else {
            run(
                ParseState {
                    stage: if mark == SPACE {
                        Stage::Last
                    } else if mark == MINUS {
                        Stage::Mid
                    } else {
                        Stage::Data
                    },
                    code: Some(code),
                    read: st.read + 4,
                    ..st
                },
                limit,
                tail,
            )
        },
{
    lemma_code_digits(code);
    assert(st.buffer =~= Seq::<u8>::empty());
    let d = code_digits(code);
    let input = d + seq![mark] + tail;
    let t1 = seq![d[1], d[2], mark] + tail;
    let t2 = seq![d[2], mark] + tail;
    let t3 = seq![mark] + tail;
    assert(input =~= seq![d[0]] + t1);
    assert(t1 =~= seq![d[1]] + t2);
    assert(t2 =~= seq![d[2]] + t3);
    lemma_run_byte(st, limit, d[0], t1);
    if st.read < limit {
        let s1 = ParseState { buffer: seq![d[0]], read: st.read + 1, ..st };
        lemma_run_byte(s1, limit, d[1], t2);
        if s1.read < limit {
            let s2 = ParseState { buffer: seq![d[0], d[1]], read: st.read + 2, ..st };
            lemma_run_byte(s2, limit, d[2], t3);
            if s2.read < limit {
                let s3 = ParseState {
                    stage: Stage::Mark,
                    code: Some(code),
                    buffer: Seq::empty(),
                    read: st.read + 3,
                    ..st
                };
                lemma_run_byte(s3, limit, mark, tail);
            }
        }
    }
}

/// A line that is not a data line is read up to its end.
proof fn lemma_run_line_body(st: ParseState, payload: Seq<u8>, k: int, tail: Seq<u8>, limit: nat)
    requires
        st.stage == Stage::Mid || st.stage == Stage::Last,
        st.code is Some,
        clean_line(payload),
        0 <= k <= payload.len(),
        st.buffer == payload.take(k),
    ensures
        run(st, limit, payload.skip(k) + line_end() + tail) == if st.read + (payload.len() - k) + 2
            > limit {
            Outcome::Fail(ConnError::TooManyBytesRead)
        } else if st.stage == Stage::Last {
            Outcome::Reply {
                code: st.code->0,
                lines: st.lines.push(payload),
                consumed: (st.read + (payload.len() - k) + 2) as nat,
            }
        } else {
            run(
                ParseState {
                    stage: Stage::Code,
                    lines: st.lines.push(payload),
                    buffer: Seq::empty(),
                    read: (st.read + (payload.len() - k) + 2) as nat,
                    ..st
                },
                limit,
                tail,
            )
        },
    decreases payload.len() - k,
{
    let input = payload.skip(k) + line_end() + tail;
    if k < payload.len() {
        let b = payload[k];
        let rest = payload.skip(k + 1) + line_end() + tail;
        assert(input =~= seq![b] + rest);
        lemma_run_byte(st, limit, b, rest);
        if st.read < limit {
            let buffer = st.buffer.push(b);
            assert(buffer =~= payload.take(k + 1));
            let next = ParseState { buffer, read: st.read + 1, ..st };
            lemma_run_line_body(next, payload, k + 1, tail, limit);
        }
    } else {
        let t1 = seq![LF] + tail;
        assert(payload.take(k) =~= payload);
        assert(input =~= seq![CR] + t1);
        lemma_run_byte(st, limit, CR, t1);
        if st.read < limit {
            let b1 = payload.push(CR);
            let s1 = ParseState { buffer: b1, read: st.read + 1, ..st };
            lemma_run_byte(s1, limit, LF, tail);
            let b2 = b1.push(LF);
            assert(b2.take(b2.len() - 2) =~= payload);
        }
    }
}

/// A data line is read up to its end.
proof fn lemma_run_data_body(st: ParseState, payload: Seq<u8>, k: int, tail: Seq<u8>, limit: nat)
    requires
        st.stage == Stage::Data,
        clean_data(payload),
        0 <= k < payload.len() + 5,
        st.buffer == (payload + data_end()).take(k),
    ensures
        run(st, limit, (payload + data_end()).skip(k) + tail) == if st.read + (payload.len() + 5
            - k) > limit {
            Outcome::Fail(ConnError::TooManyBytesRead)
        } else {
            run(
                ParseState {
                    stage: Stage::Code,
                    lines: st.lines.push(payload),
                    buffer: Seq::empty(),
                    read: (st.read + (payload.len() + 5 - k)) as nat,
                    ..st
                },
                limit,
                tail,
            )
        },
    decreases payload.len() + 5 - k,
{
    let full = payload + data_end();
    let input = full.skip(k) + tail;
    let b = full[k];
    let rest = full.skip(k + 1) + tail;
    assert(input =~= seq![b] + rest);
    lemma_run_byte(st, limit, b, rest);
    if st.read < limit {
        let buffer = st.buffer.push(b);
        assert(buffer =~= full.take(k + 1));
        if k + 1 < full.len() {
            let next = ParseState { buffer, read: st.read + 1, ..st };
            lemma_run_data_body(next, payload, k + 1, tail, limit);
        } else {
            assert(buffer.take(buffer.len() - 5) =~= payload);
        }
    }
}

/// A whole line is read.
proof fn lemma_run_line(
    st: ParseState,
    code: u16,
    mark: u8,
    payload: Seq<u8>,
    tail: Seq<u8>,
    limit: nat,
)
    requires
        between_lines(st, code),
        code <= 999,
        mark == SPACE || mark == MINUS || mark == PLUS,
        mark == PLUS ==> clean_data(payload),
        mark != PLUS ==> clean_line(payload),
    ensures
        run(st, limit, line_wire(code, mark, payload) + tail) == if st.read + line_wire(
            code,
            mark,
            payload,
        ).len() > limit {
            Outcome::Fail(ConnError::TooManyBytesRead)
        } else if mark == SPACE {
            Outcome::Reply {
                code,
                lines: st.lines.push(payload),
                consumed: st.read + line_wire(code, mark, payload).len(),
            }
        } else {
            run(
                after_line(st, code, payload, line_wire(code, mark, payload).len()),
                limit,
                tail,
            )
        },
{
    let end = if mark == PLUS {
        data_end()
    } else {
        line_end()
    };
    let rest = payload + end + tail;
    assert(line_wire(code, mark, payload) + tail =~= code_digits(code) + seq![mark] + rest);
    assert(st.buffer =~= Seq::<u8>::empty());
    lemma_run_head(st, code, mark, rest, limit);
    if st.read + 4 <= limit {
        let inside = ParseState {
            stage: if mark == SPACE {
                Stage::Last
            } else if mark == MINUS {
                Stage::Mid
            } else {
                Stage::Data
            },
            code: Some(code),
            read: st.read + 4,
            ..st
        };
        if mark == PLUS {
            assert((payload + data_end()).take(0) =~= Seq::<u8>::empty());
            assert((payload + data_end()).skip(0) + tail =~= rest);
            lemma_run_data_body(inside, payload, 0, tail, limit);
        } else {
            assert(payload.take(0) =~= Seq::<u8>::empty());
            assert(payload.skip(0) + line_end() + tail =~= rest);
            lemma_run_line_body(inside, payload, 0, tail, limit);
        }
    }
}

/// The state behind the lines `body`, which took `taken` bytes.
pub open spec fn after_body(st: ParseState, code: u16, body: Seq<Line>, taken: nat) -> ParseState {
    ParseState {
        stage: Stage::Code,
        code: if body.len() == 0 {
            st.code
        } else {
            Some(code)
        },
        lines: st.lines + payloads(body),
        buffer: Seq::empty(),
        read: st.read + taken,
    }
}

/// The lines before the last one are read.
proof fn lemma_run_body(st: ParseState, code: u16, body: Seq<Line>, tail: Seq<u8>, limit: nat)
    requires
        between_lines(st, code),
        code <= 999,
        forall|i: int| 0 <= i < body.len() ==> clean(#[trigger] body[i]),
    ensures
        run(st, limit, body_wire(code, body) + tail) == if body.len() > 0 && st.read + body_wire(
            code,
            body,
        ).len() > limit {
            Outcome::Fail(ConnError::TooManyBytesRead)
        } else {
            run(after_body(st, code, body, body_wire(code, body).len()), limit, tail)
        },
    decreases body.len(),
{
    if body.len() == 0 {
        assert(st.buffer =~= Seq::<u8>::empty());
    } else {
        let head = body[0];
        let rest = body.skip(1);
        let first = line_wire(code, mark_of(head), head.payload);
        let more = body_wire(code, rest);
        assert(body_wire(code, body) + tail =~= first + (more + tail));
        lemma_run_line(st, code, mark_of(head), head.payload, more + tail, limit);
        if st.read + first.len() <= limit {
            let next = after_line(st, code, head.payload, first.len());
            lemma_run_body(next, code, rest, tail, limit);
            assert(next.lines + payloads(rest) =~= st.lines + payloads(body));
        }
    }
}

/// A reply that is written down is read back, within the ceiling.
///
/// Whatever stands behind the reply is left alone. So a reply of one line
/// comes back as that line, lines marked `-` come back in their order, and
/// a data line comes back with the line breaks it holds. A reply of more
/// bytes than the ceiling is not read.
pub proof fn lemma_frame_reply(
    code: u16,
    body: Seq<Line>,
    last: Seq<u8>,
    tail: Seq<u8>,
    limit: nat,
)
    requires
        code <= 999,
        forall|i: int| 0 <= i < body.len() ==> clean(#[trigger] body[i]),
        clean_line(last),
    ensures
        frame(reply_wire(code, body, last) + tail, limit) == if reply_wire(code, body, last).len()
            <= limit {
            Outcome::Reply {
                code,
                lines: payloads(body).push(last),
                consumed: reply_wire(code, body, last).len(),
            }
        } else {
            Outcome::Fail(ConnError::TooManyBytesRead)
        },
{
    let st = start();
    let front = body_wire(code, body);
    let end = line_wire(code, SPACE, last);
    assert(reply_wire(code, body, last) + tail =~= front + (end + tail));
    lemma_run_body(st, code, body, end + tail, limit);
    let mid = after_body(st, code, body, front.len());
    lemma_run_line(mid, code, SPACE, last, tail, limit);
}

/// While a reply goes on, each byte counts.
proof fn lemma_feed_counts(st: ParseState, limit: nat, b: u8)
    ensures
        feed(st, limit, b) matches Step::More(next) ==> next.read == st.read + 1,
{
}

/// A reply that ends with the input is not found in less of the input.
proof fn lemma_run_prefix(st: ParseState, limit: nat, input: Seq<u8>, k: int)
    requires
        run(st, limit, input) matches Outcome::Reply { consumed, .. } && consumed == st.read
            + input.len(),
        0 <= k < input.len(),
    ensures
        run(st, limit, input.take(k)) is Starved,
    decreases input.len(),
{
    lemma_feed_counts(st, limit, input[0]);
    if k > 0 {
        let cut = input.take(k);
        assert(cut.skip(1) =~= input.skip(1).take(k - 1));
        match feed(st, limit, input[0]) {
            Step::More(next) => {
                lemma_run_prefix(next, limit, input.skip(1), k - 1);
            },
            _ => {},
        }
    }
}

/// A reply that is cut short is not read: the input ends before the reply
/// does, whatever the length of the cut.
pub proof fn lemma_frame_truncated(
    code: u16,
    body: Seq<Line>,
    last: Seq<u8>,
    limit: nat,
    k: int,
)
    requires
        code <= 999,
        forall|i: int| 0 <= i < body.len() ==> clean(#[trigger] body[i]),
        clean_line(last),
        reply_wire(code, body, last).len() <= limit,
        0 <= k < reply_wire(code, body, last).len(),
    ensures
        frame(reply_wire(code, body, last).take(k), limit) is Starved,
{
    let wire = reply_wire(code, body, last);
    lemma_frame_reply(code, body, last, Seq::empty(), limit);
    lemma_run_prefix(start(), limit, wire, k);
}

/// A line whose code is not that of the lines before it is refused, as soon
/// as its code is read.
pub proof fn lemma_frame_code_mismatch(
    code: u16,
    body: Seq<Line>,
    other: u16,
    tail: Seq<u8>,
    limit: nat,
)
    requires
        code <= 999,
        other <= 999,
        other != code,
        body.len() > 0,
        forall|i: int| 0 <= i < body.len() ==> clean(#[trigger] body[i]),
        body_wire(code, body).len() + 3 <= limit,
    ensures
        frame(body_wire(code, body) + code_digits(other) + tail, limit) == Outcome::Fail(
            ConnError::ResponseCodeMismatch,
        ),
{
    let front = body_wire(code, body);
    let d = code_digits(other);
    lemma_code_digits(other);
    assert(front + d + tail =~= front + (d + tail));
    lemma_run_body(start(), code, body, d + tail, limit);
    let s0 = after_body(start(), code, body, front.len());
    let t1 = seq![d[1], d[2]] + tail;
    let t2 = seq![d[2]] + tail;
    assert(d + tail =~= seq![d[0]] + t1);
    assert(t1 =~= seq![d[1]] + t2);
    lemma_run_byte(s0, limit, d[0], t1);
    let s1 = ParseState { buffer: seq![d[0]], read: s0.read + 1, ..s0 };
    lemma_run_byte(s1, limit, d[1], t2);
    let s2 = ParseState { buffer: seq![d[0], d[1]], read: s0.read + 2, ..s0 };
    lemma_run_byte(s2, limit, d[2], tail);
}

} // verus!
