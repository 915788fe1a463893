//! The HTTP/1.1 request that carries the document, and the line of the reply
//! that the firmware reports.
use crate::text::{
    decimal, digits_value, decimal_reads_back, fill, request_new, request_push_str, request_text, request_write_decimal, utf8_str,
};
use vstd::prelude::*;
use vstd::string::StringSliceAdditionalSpecFns;
use vstd::utf8::valid_utf8;

verus! {

/// The pieces of the POST request in the order they are written: request
/// line, `Host`, `Content-Type`, `Content-Length` (the byte length of the
/// body), `Connection: close`, a blank line, then the body.
pub open spec fn request_pieces(path: Seq<u8>, host: Seq<u8>, body: Seq<u8>) -> Seq<Seq<u8>> {
    seq![
        "POST ".spec_bytes(),
        path,
        " HTTP/1.1\r\nHost: ".spec_bytes(),
        host,
        "\r\nContent-Type: application/json\r\nContent-Length: ".spec_bytes(),
        decimal(body.len()),
        "\r\nConnection: close\r\n\r\n".spec_bytes(),
        body,
    ]
}

/// The whole request when nothing is cut off.
pub open spec fn full_request(path: Seq<u8>, host: Seq<u8>, body: Seq<u8>) -> Seq<u8> {
    concat_all(request_pieces(path, host, body))
}

/// All pieces, one after another.
pub open spec fn concat_all(pieces: Seq<Seq<u8>>) -> Seq<u8>
    decreases pieces.len(),
{
    if pieces.len() == 0 {
        Seq::empty()
    } else {
        pieces[0] + concat_all(pieces.drop_first())
    }
}

proof fn lemma_fill_prefix(text: Seq<u8>, pieces: Seq<Seq<u8>>, cap: nat)
    requires
        text.len() <= cap,
    ensures
        text.len() <= fill(text, pieces, cap).len() <= cap,
        (text + concat_all(pieces)).take(fill(text, pieces, cap).len() as int) == fill(
            text,
            pieces,
            cap,
        ),
        text.len() + concat_all(pieces).len() <= cap ==> fill(text, pieces, cap) == text
            + concat_all(pieces),
    decreases pieces.len(),
{
    if pieces.len() == 0 {
        assert(text + concat_all(pieces) =~= text);
    } else if text.len() + pieces[0].len() <= cap {
        let rest = pieces.drop_first();
        lemma_fill_prefix(text + pieces[0], rest, cap);
        assert(text + concat_all(pieces) =~= (text + pieces[0]) + concat_all(rest));
    } else {
        assert((text + concat_all(pieces)).take(text.len() as int) =~= text);
    }
}

/// The request as it lands in its 512-byte buffer: the pieces go in one
/// after another, and the first piece that does not fit ends the request.
pub open spec fn request_spec(path: Seq<u8>, host: Seq<u8>, body: Seq<u8>) -> Seq<u8> {
    fill(Seq::empty(), request_pieces(path, host, body), 512)
}

/// The request in the buffer is always the full request, cut off at the end
/// of some piece, and never longer than 512 bytes; when the full request fits,
/// it is all there, `Content-Length` included.
pub proof fn request_is_cut_full_request(path: Seq<u8>, host: Seq<u8>, body: Seq<u8>)
    ensures
        request_spec(path, host, body).len() <= 512,
        full_request(path, host, body).take(request_spec(path, host, body).len() as int)
            == request_spec(path, host, body),
        full_request(path, host, body).len() <= 512 ==> request_spec(path, host, body)
            == full_request(path, host, body),
{
    let p = request_pieces(path, host, body);
    lemma_fill_prefix(Seq::empty(), p, 512);
    assert(Seq::<u8>::empty() + concat_all(p) =~= concat_all(p));
}

proof fn lemma_concat_step(pieces: Seq<Seq<u8>>, k: int)
    requires
        0 <= k < pieces.len(),
    ensures
        concat_all(pieces.subrange(k, pieces.len() as int)) == pieces[k] + concat_all(
            pieces.subrange(k + 1, pieces.len() as int),
        ),
{
    let rest = pieces.subrange(k, pieces.len() as int);
    assert(rest.drop_first() =~= pieces.subrange(k + 1, pieces.len() as int));
}

/// The full request is the request line for `path`, the `Host` header for
/// `host`, the JSON content type, a `Content-Length` whose digits read back as
/// the byte length of the body, `Connection: close`, a blank line and the
/// body itself.
pub proof fn request_announces_body_length(path: Seq<u8>, host: Seq<u8>, body: Seq<u8>)
    ensures
        full_request(path, host, body) == "POST ".spec_bytes() + path
            + " HTTP/1.1\r\nHost: ".spec_bytes() + host
            + "\r\nContent-Type: application/json\r\nContent-Length: ".spec_bytes()
            + decimal(body.len()) + "\r\nConnection: close\r\n\r\n".spec_bytes() + body,
        digits_value(request_pieces(path, host, body)[5]) == body.len(),
{
    let p = request_pieces(path, host, body);
    decimal_reads_back(body.len());
    lemma_concat_eight(p);
}

proof fn lemma_concat_eight(p: Seq<Seq<u8>>)
    requires
        p.len() == 8,
    ensures
        concat_all(p) == p[0] + p[1] + p[2] + p[3] + p[4] + p[5] + p[6] + p[7],
{
    assert(p.subrange(0, 8) =~= p);
    lemma_concat_step(p, 0);
    lemma_concat_step(p, 1);
    lemma_concat_step(p, 2);
    lemma_concat_step(p, 3);
    lemma_concat_step(p, 4);
    lemma_concat_step(p, 5);
    lemma_concat_step(p, 6);
    lemma_concat_step(p, 7);
    assert(concat_all(p.subrange(8, 8)) =~= Seq::<u8>::empty()) by {
        assert(p.subrange(8, 8).len() == 0);
    }
    assert(p[7] + Seq::<u8>::empty() =~= p[7]);
    assert(p[0] + (p[1] + (p[2] + (p[3] + (p[4] + (p[5] + (p[6] + p[7])))))) =~= p[0] + p[1]
        + p[2] + p[3] + p[4] + p[5] + p[6] + p[7]);
}

proof fn lemma_fill_step(text: Seq<u8>, pieces: Seq<Seq<u8>>, k: int, cap: nat)
    requires
        0 <= k < pieces.len(),
    ensures
        fill(text, pieces.subrange(k, pieces.len() as int), cap) == if text.len() + pieces[k].len()
            <= cap {
            fill(text + pieces[k], pieces.subrange(k + 1, pieces.len() as int), cap)
        } else {
            text
        },
{
    let rest = pieces.subrange(k, pieces.len() as int);
    assert(rest.drop_first() =~= pieces.subrange(k + 1, pieces.len() as int));
    assert(rest[0] == pieces[k]);
}

proof fn lemma_fill_end(text: Seq<u8>, pieces: Seq<Seq<u8>>, cap: nat)
    ensures
        fill(text, pieces.subrange(pieces.len() as int, pieces.len() as int), cap) == text,
{
    assert(pieces.subrange(pieces.len() as int, pieces.len() as int).len() == 0);
}

/// Writes the POST request for `body` to `path` on `host` into a 512-byte
/// buffer, piece by piece; a piece that does not fit ends the request there.
pub fn http_request(path: &str, host: &str, body: &str) -> (r: heapless::String<512>)
    ensures
        request_text(r) == request_spec(path.spec_bytes(), host.spec_bytes(), body.spec_bytes()),
{
    let ghost pieces = request_pieces(path.spec_bytes(), host.spec_bytes(), body.spec_bytes());
    let ghost goal = request_spec(path.spec_bytes(), host.spec_bytes(), body.spec_bytes());
    let body_len = body.as_bytes().len();
    let mut req = request_new();
    assert(pieces.subrange(0, 8) =~= pieces);
    proof {
        lemma_fill_step(request_text(req), pieces, 0, 512);
    }
    if request_push_str(&mut req, "POST ").is_err() {
        return req;
    }
    proof {
        lemma_fill_step(request_text(req), pieces, 1, 512);
    }
    if request_push_str(&mut req, path).is_err() {
        return req;
    }
    proof {
        lemma_fill_step(request_text(req), pieces, 2, 512);
    }
    if request_push_str(&mut req, " HTTP/1.1\r\nHost: ").is_err() {
        return req;
    }
    proof {
        lemma_fill_step(request_text(req), pieces, 3, 512);
    }
    if request_push_str(&mut req, host).is_err() {
        return req;
    }
    proof {
        lemma_fill_step(request_text(req), pieces, 4, 512);
    }
    if request_push_str(&mut req, "\r\nContent-Type: application/json\r\nContent-Length: ").is_err() {
        return req;
    }
    proof {
        lemma_fill_step(request_text(req), pieces, 5, 512);
    }
    if request_write_decimal(&mut req, body_len as u64).is_err() {
        return req;
    }
    proof {
        lemma_fill_step(request_text(req), pieces, 6, 512);
    }
    if request_push_str(&mut req, "\r\nConnection: close\r\n\r\n").is_err() {
        return req;
    }
    proof {
        lemma_fill_step(request_text(req), pieces, 7, 512);
    }
    let _ = request_push_str(&mut req, body);
    proof {
        lemma_fill_end(request_text(req), pieces, 512);
    }
    req
}

/// Whether `i` is the index of the first line feed in `b`, or its length when
/// `b` holds no line feed.
pub open spec fn is_line_end(b: Seq<u8>, i: int) -> bool {
    &&& 0 <= i <= b.len()
    &&& (i == b.len() || b[i] == 10)
    &&& forall|j: int| 0 <= j < i ==> b[j] != 10
}

/// The first line of `b` the way `str::lines` yields it: the bytes before the
/// first line feed, without a carriage return right before that line feed;
/// all of `b` when it holds no line feed.
pub open spec fn first_line(b: Seq<u8>) -> Seq<u8> {
    let i = choose|i: int| is_line_end(b, i);
    if i < b.len() && i > 0 && b[i - 1] == 13 {
        b.take(i - 1)
    } else {
        b.take(i)
    }
}

/// What the firmware reports of a reply: its first line when the bytes
/// received are non-empty UTF-8, and `?` otherwise.
pub open spec fn status_line_spec(received: Seq<u8>) -> Seq<u8> {
    if valid_utf8(received) && received.len() > 0 {
        first_line(received)
    } else {
        "?".spec_bytes()
    }
}

proof fn lemma_line_end_exists(b: Seq<u8>, k: int)
    requires
        0 <= k <= b.len(),
        forall|j: int| 0 <= j < k ==> b[j] != 10,
    ensures
        exists|i: int| is_line_end(b, i),
    decreases b.len() - k,
{
    if k == b.len() || b[k] == 10 {
        assert(is_line_end(b, k));
    } else {
        lemma_line_end_exists(b, k + 1);
    }
}

/// What the firmware reports of a reply never spans more than one line: it
/// holds no line feed.
pub proof fn status_line_is_one_line(received: Seq<u8>)
    ensures
        forall|j: int| 0 <= j < status_line_spec(received).len() ==> status_line_spec(received)[j]
            != 10,
{
    if valid_utf8(received) && received.len() > 0 {
        lemma_line_end_exists(received, 0);
        let i = choose|i: int| is_line_end(received, i);
        assert(is_line_end(received, i));
    } else {
        broadcast use vstd::string::is_ascii_spec_bytes;

        reveal_strlit("?");
        assert(vstd::string::is_ascii("?"));
    }
}

/// The reported line is the reply's own first line: for a non-empty UTF-8
/// reply of any length it is a prefix of the reply, holds no line feed, and
/// ends where the reply ends (with no line feed in it), or right before a line
/// feed that has no carriage return before it, or right before a carriage
/// return and line feed. Anything else is reported as `?`.
pub proof fn status_line_is_reply_prefix(received: Seq<u8>)
    ensures
        !(valid_utf8(received) && received.len() > 0) ==> status_line_spec(received)
            == "?".spec_bytes(),
        valid_utf8(received) && received.len() > 0 ==> ({
            let r = status_line_spec(received);
            let k = r.len() as int;
            &&& k <= received.len()
            &&& received.take(k) == r
            &&& forall|j: int| 0 <= j < k ==> r[j] != 10
            &&& {
                ||| (k == received.len() && forall|j: int| 0 <= j < received.len() ==> received[j]
                    != 10)
                ||| (k < received.len() && received[k] == 10 && (k == 0 || received[k - 1]
                    != 13))
                ||| (k + 1 < received.len() && received[k] == 13 && received[k + 1] == 10)
            }
        }),
{
    if valid_utf8(received) && received.len() > 0 {
        let b = received;
        lemma_line_end_exists(b, 0);
        let i = choose|i: int| is_line_end(b, i);
        assert(is_line_end(b, i));
        let r = status_line_spec(b);
        if i < b.len() && i > 0 && b[i - 1] == 13 {
            assert(r == b.take(i - 1));
            assert(b.take(r.len() as int) =~= r);
        } else {
            assert(r == b.take(i));
            assert(b.take(r.len() as int) =~= r);
        }
    }
}

proof fn lemma_line_end_unique(b: Seq<u8>, i: int, k: int)
    requires
        is_line_end(b, i),
        is_line_end(b, k),
    ensures
        i == k,
{
    if i < k {
        assert(b[i] != 10);
    } else if k < i {
        assert(b[k] != 10);
    }
}

/// The first line of a reply, as `from_utf8(..).unwrap_or("?").lines().next()
/// .unwrap_or("?")` gives it: `?` when the bytes are not UTF-8 or are empty.
pub fn status_line(received: &[u8]) -> (r: &str)
    ensures
        r.spec_bytes() == status_line_spec(received@),
{
    let text = match utf8_str(received) {
        Some(t) => t,
        None => return "?",
    };
    if received.len() == 0 {
        return "?";
    }
    let n = received.len();
    let mut i: usize = 0;
    while i < n && received[i] != 10
        invariant
            n == received@.len(),
            0 <= i <= n,
            forall|j: int| 0 <= j < i ==> received@[j] != 10,
        decreases n - i,
    {
        i = i + 1;
    }
    let ghost b = received@;
    proof {
        assert(is_line_end(b, i as int));
        let c = choose|c: int| is_line_end(b, c);
        lemma_line_end_unique(b, i as int, c);
    }
    let end = if i < n && i > 0 && received[i - 1] == 13 {
        i - 1
    } else {
        i
    };
    proof {
        broadcast use vstd::utf8::is_char_boundary_start_end_of_seq;

        if end < n {
            vstd::utf8::is_char_boundary_iff_not_is_continuation_byte(b, end as int);
        }
        assert(b.take(end as int) =~= b.subrange(0, end as int));
    }
    let (line, _) = text.split_at(end);
    line
}

} // verus!
