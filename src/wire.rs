//! Line framing of the wire protocol.
//!
//! A request is three newline-terminated lines (envelope, metadata,
//! payload); a response is an envelope line, followed by a payload line
//! when the envelope carries neither an error nor the stream terminator.
//! Lines are handled here as bytes; what each line holds is JSON text.
use vstd::prelude::*;

use crate::error::RpcError;

verus! {

/// The byte that ends every line on the wire.
pub const NEWLINE: u8 = 10;

pub open spec fn has_newline(line: Seq<u8>) -> bool {
    line.contains(NEWLINE)
}

/// `s` starts with the newline-free `line`, then a newline, then `rest`.
pub open spec fn splits_at_line(s: Seq<u8>, line: Seq<u8>, rest: Seq<u8>) -> bool {
    &&& s == line + seq![NEWLINE] + rest
    &&& !has_newline(line)
}

/// The first complete line of `s` and what follows its newline, if `s`
/// holds a newline at all.
pub open spec fn split_line(s: Seq<u8>) -> Option<(Seq<u8>, Seq<u8>)> {
    if exists|p: (Seq<u8>, Seq<u8>)| splits_at_line(s, p.0, p.1) {
        Some(choose|p: (Seq<u8>, Seq<u8>)| splits_at_line(s, p.0, p.1))
    } else {
        None
    }
}

/// The bytes of one line on the wire: the line, then its newline.
pub open spec fn framed(line: Seq<u8>) -> Seq<u8> {
    line + seq![NEWLINE]
}

/// The bytes of a request unit: envelope, metadata and payload lines.
pub open spec fn request_bytes(envelope: Seq<u8>, metadata: Seq<u8>, payload: Seq<u8>) -> Seq<u8> {
    framed(envelope) + framed(metadata) + framed(payload)
}

/// The bytes of a response: the envelope line, then the payload line if any.
pub open spec fn response_bytes(envelope: Seq<u8>, payload: Option<Seq<u8>>) -> Seq<u8> {
    match payload {
        Some(p) => framed(envelope) + framed(p),
        None => framed(envelope),
    }
}

/// The bytes of an optional line.
pub open spec fn optional_line(line: Option<&[u8]>) -> Option<Seq<u8>> {
    match line {
        Some(l) => Some(l@),
        None => None,
    }
}

/// A line is split off a byte sequence in one way at most.
pub proof fn lemma_split_unique(s: Seq<u8>, l1: Seq<u8>, r1: Seq<u8>, l2: Seq<u8>, r2: Seq<u8>)
    requires
        splits_at_line(s, l1, r1),
        splits_at_line(s, l2, r2),
    ensures
        l1 == l2,
        r1 == r2,
{
    if l1.len() < l2.len() {
        assert(s[l1.len() as int] == NEWLINE);
        assert(l2[l1.len() as int] == NEWLINE);
        assert(has_newline(l2));
    } else if l2.len() < l1.len() {
        assert(s[l2.len() as int] == NEWLINE);
        assert(l1[l2.len() as int] == NEWLINE);
        assert(has_newline(l1));
    } else {
        assert(l1 =~= s.subrange(0, l1.len() as int));
        assert(l2 =~= s.subrange(0, l2.len() as int));
        assert(r1 =~= s.subrange(l1.len() as int + 1, s.len() as int));
        assert(r2 =~= s.subrange(l2.len() as int + 1, s.len() as int));
    }
}

/// `split_line` gives the one split that exists.
pub proof fn lemma_split_line_is(s: Seq<u8>, line: Seq<u8>, rest: Seq<u8>)
    requires
        splits_at_line(s, line, rest),
    ensures
        split_line(s) == Some((line, rest)),
{
    let p = choose|p: (Seq<u8>, Seq<u8>)| splits_at_line(s, p.0, p.1);
    assert(splits_at_line(s, (line, rest).0, (line, rest).1));
    lemma_split_unique(s, p.0, p.1, line, rest);
}

/// A newline-free line followed by its newline splits back into that line.
pub proof fn lemma_split_framed(line: Seq<u8>, rest: Seq<u8>)
    requires
        !has_newline(line),
    ensures
        split_line(framed(line) + rest) == Some((line, rest)),
{
    assert(framed(line) + rest =~= line + seq![NEWLINE] + rest);
    lemma_split_line_is(framed(line) + rest, line, rest);
}

/// Reading three lines back from a request unit gives its envelope,
/// metadata and payload lines, in that order, and leaves nothing over.
pub proof fn lemma_request_round_trip(envelope: Seq<u8>, metadata: Seq<u8>, payload: Seq<u8>)
    requires
        !has_newline(envelope),
        !has_newline(metadata),
        !has_newline(payload),
    ensures
        split_line(request_bytes(envelope, metadata, payload)) == Some(
            (envelope, framed(metadata) + framed(payload)),
        ),
        split_line(framed(metadata) + framed(payload)) == Some((metadata, framed(payload))),
        split_line(framed(payload)) == Some((payload, Seq::<u8>::empty())),
{
    assert(request_bytes(envelope, metadata, payload) =~= framed(envelope) + (framed(metadata)
        + framed(payload)));
    lemma_split_framed(envelope, framed(metadata) + framed(payload));
    lemma_split_framed(metadata, framed(payload));
    assert(framed(payload) =~= framed(payload) + Seq::<u8>::empty());
    lemma_split_framed(payload, Seq::<u8>::empty());
}

/// Reading a response back gives its envelope line, then its payload line
/// if it has one, and nothing more: a response without payload is one line.
pub proof fn lemma_response_round_trip(envelope: Seq<u8>, payload: Option<Seq<u8>>)
    requires
        !has_newline(envelope),
        payload matches Some(p) ==> !has_newline(p),
    ensures
        split_line(response_bytes(envelope, payload)) == Some(
            (
                envelope,
                match payload {
                    Some(p) => framed(p),
                    None => Seq::<u8>::empty(),
                },
            ),
        ),
        payload matches Some(p) ==> split_line(framed(p)) == Some((p, Seq::<u8>::empty())),
{
    match payload {
        Some(p) => {
            lemma_split_framed(envelope, framed(p));
            assert(framed(p) =~= framed(p) + Seq::<u8>::empty());
            lemma_split_framed(p, Seq::<u8>::empty());
        },
        None => {
            assert(framed(envelope) =~= framed(envelope) + Seq::<u8>::empty());
            lemma_split_framed(envelope, Seq::<u8>::empty());
        },
    }
}

/// The index of the first newline in `bytes` at or after `start`, if any.
pub fn find_newline(bytes: &[u8], start: usize) -> (r: Option<usize>)
    requires
        start <= bytes@.len(),
    ensures
        match r {
            Some(i) => start <= i < bytes@.len() && bytes@[i as int] == NEWLINE && !has_newline(
                bytes@.subrange(start as int, i as int),
            ),
            None => !has_newline(bytes@.subrange(start as int, bytes@.len() as int)),
        },
{
    let mut i: usize = start;
    while i < bytes.len()
        invariant
            start <= i <= bytes@.len(),
            !has_newline(bytes@.subrange(start as int, i as int)),
        decreases bytes@.len() - i,
    {
        if bytes[i] == NEWLINE {
            return Some(i);
        }
        assert(bytes@.subrange(start as int, i + 1) =~= bytes@.subrange(start as int, i as int).push(
            bytes@[i as int],
        ));
        i = i + 1;
    }
    None
}

/// A copy of `bytes[from..to]`.
fn copy_range(bytes: &[u8], from: usize, to: usize) -> (r: Vec<u8>)
    requires
        from <= to <= bytes@.len(),
    ensures
        r@ == bytes@.subrange(from as int, to as int),
{
    let mut r: Vec<u8> = Vec::new();
    let mut i: usize = from;
    while i < to
        invariant
            from <= i <= to <= bytes@.len(),
            r@ == bytes@.subrange(from as int, i as int),
        decreases to - i,
    {
        r.push(bytes[i]);
        assert(bytes@.subrange(from as int, i + 1) =~= bytes@.subrange(from as int, i as int).push(
            bytes@[i as int],
        ));
        i = i + 1;
    }
    r
}

/// The split that `find_newline` found is the split of the whole sequence.
proof fn lemma_found_split(s: Seq<u8>, i: int)
    requires
        0 <= i < s.len(),
        s[i] == NEWLINE,
        !has_newline(s.subrange(0, i)),
    ensures
        split_line(s) == Some((s.subrange(0, i), s.subrange(i + 1, s.len() as int))),
{
    assert(s =~= s.subrange(0, i) + seq![NEWLINE] + s.subrange(i + 1, s.len() as int));
    lemma_split_line_is(s, s.subrange(0, i), s.subrange(i + 1, s.len() as int));
}

/// With no newline in `s`, no line can be split off it.
proof fn lemma_no_split(s: Seq<u8>)
    requires
        !has_newline(s),
    ensures
        split_line(s) is None,
{
    assert forall|p: (Seq<u8>, Seq<u8>)| !splits_at_line(s, p.0, p.1) by {
        if splits_at_line(s, p.0, p.1) {
            assert(s[p.0.len() as int] == NEWLINE);
        }
    }
}

/// Bytes received from a connection that do not yet form a complete line.
///
/// Chunks may end anywhere, also inside a line: lines are handed out only
/// once their newline has arrived.
pub struct LineBuffer {
    pending: Vec<u8>,
}

impl View for LineBuffer {
    type V = Seq<u8>;

    closed spec fn view(&self) -> Seq<u8> {
        self.pending@
    }
}

impl LineBuffer {
    pub fn new() -> (r: LineBuffer)
        ensures
            r@ == Seq::<u8>::empty(),
    {
        LineBuffer { pending: Vec::new() }
    }

    /// Appends a chunk as it was read from the connection.
    pub fn push(&mut self, chunk: &[u8])
        ensures
            final(self)@ == old(self)@ + chunk@,
    {
        let mut i: usize = 0;
        while i < chunk.len()
            invariant
                i <= chunk@.len(),
                self@ == old(self)@ + chunk@.subrange(0, i as int),
            decreases chunk@.len() - i,
        {
            self.pending.push(chunk[i]);
            assert(chunk@.subrange(0, i + 1) =~= chunk@.subrange(0, i as int).push(chunk@[i as int]));
            i = i + 1;
        }
        assert(chunk@.subrange(0, i as int) =~= chunk@);
    }

    /// Takes the first complete line, without its newline; `None`, with
    /// nothing taken, while no complete line has arrived.
    pub fn next_line(&mut self) -> (r: Option<Vec<u8>>)
        ensures
            match split_line(old(self)@) {
                Some((line, rest)) => r matches Some(v) && v@ == line && final(self)@ == rest,
                None => r is None && final(self)@ == old(self)@,
            },
    {
        let bytes = self.pending.as_slice();
        let n = bytes.len();
        match find_newline(bytes, 0) {
            Some(i) => {
                let line = copy_range(bytes, 0, i);
                let rest = copy_range(bytes, i + 1, n);
                proof {
                    lemma_found_split(self@, i as int);
                }
                self.pending = rest;
                Some(line)
            },
            None => {
                proof {
                    assert(self@.subrange(0, self@.len() as int) =~= self@);
                    lemma_no_split(self@);
                }
                None
            },
        }
    }
}

/// The bytes of a request unit; `NewlineInLine` if one of the lines holds
/// a newline, as then the unit could not be read back.
pub fn request_unit(envelope: &[u8], metadata: &[u8], payload: &[u8]) -> (r: Result<
    Vec<u8>,
    RpcError,
>)
    ensures
        match r {
            Ok(v) => !has_newline(envelope@) && !has_newline(metadata@) && !has_newline(payload@)
                && v@ == request_bytes(envelope@, metadata@, payload@),
            Err(e) => (has_newline(envelope@) || has_newline(metadata@) || has_newline(payload@))
                && e == RpcError::NewlineInLine,
        },
{
    if line_has_newline(envelope) || line_has_newline(metadata) || line_has_newline(payload) {
        return Err(RpcError::NewlineInLine);
    }
    let mut out: Vec<u8> = Vec::new();
    push_framed(&mut out, envelope);
    push_framed(&mut out, metadata);
    push_framed(&mut out, payload);
    assert(out@ =~= request_bytes(envelope@, metadata@, payload@));
    Ok(out)
}

/// The bytes of a response: its envelope line and, if given, its payload
/// line; `NewlineInLine` if one of them holds a newline.
pub fn response_unit(envelope: &[u8], payload: Option<&[u8]>) -> (r: Result<Vec<u8>, RpcError>)
    ensures
        match r {
            Ok(v) => !has_newline(envelope@) && (payload matches Some(p) ==> !has_newline(p@))
                && v@ == response_bytes(envelope@, optional_line(payload)),
            Err(e) => (has_newline(envelope@) || (payload matches Some(p) && has_newline(p@)))
                && e == RpcError::NewlineInLine,
        },
{
    if line_has_newline(envelope) {
        return Err(RpcError::NewlineInLine);
    }
    let mut out: Vec<u8> = Vec::new();
    push_framed(&mut out, envelope);
    match payload {
        Some(p) => {
            if line_has_newline(p) {
                return Err(RpcError::NewlineInLine);
            }
            push_framed(&mut out, p);
        },
        None => {},
    }
    Ok(out)
}

fn line_has_newline(line: &[u8]) -> (r: bool)
    ensures
        r == has_newline(line@),
{
    let found = find_newline(line, 0);
    proof {
        assert(line@.subrange(0, line@.len() as int) =~= line@);
        if let Some(i) = found {
            assert(line@[i as int] == NEWLINE);
        }
    }
    found.is_some()
}

/// Appends `line` and a newline to `out`.
fn push_framed(out: &mut Vec<u8>, line: &[u8])
    ensures
        final(out)@ == old(out)@ + framed(line@),
{
    let mut i: usize = 0;
    while i < line.len()
        invariant
            i <= line@.len(),
            out@ == old(out)@ + line@.subrange(0, i as int),
        decreases line@.len() - i,
    {
        out.push(line[i]);
        assert(line@.subrange(0, i + 1) =~= line@.subrange(0, i as int).push(line@[i as int]));
        i = i + 1;
    }
    assert(line@.subrange(0, i as int) =~= line@);
    out.push(NEWLINE);
    assert(out@ =~= old(out)@ + framed(line@));
}

} // verus!
