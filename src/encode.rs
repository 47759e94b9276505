//! Turning a response into the bytes sent on the wire.

use vstd::prelude::*;
use vstd::utf8::encode_utf8;
use crate::response::{describes, response_for, Response};

verus! {

/// The decimal digits of `n`, most significant first, as ASCII bytes.
pub open spec fn decimal(n: nat) -> Seq<u8>
    decreases n,
{
    if n < 10 {
        seq![(48 + n) as u8]
    } else {
        decimal(n / 10) + seq![(48 + n % 10) as u8]
    }
}

/// The header lines, each `name: value` and a line break.
pub open spec fn header_lines(headers: Seq<(Seq<char>, Seq<char>)>) -> Seq<u8>
    decreases headers.len(),
{
    if headers.len() == 0 {
        Seq::<u8>::empty()
    } else {
        header_lines(headers.drop_last()) + encode_utf8(headers.last().0) + encode_utf8(": "@)
            + encode_utf8(headers.last().1) + encode_utf8("\r\n"@)
    }
}

/// The status line and the server, length and date lines of a response
/// sent at `date`.
pub open spec fn status_block(rsp: Response, date: Seq<u8>) -> Seq<u8> {
    encode_utf8("HTTP/1.1 "@) + decimal(rsp.code as nat) + encode_utf8(" "@) + encode_utf8(rsp.reason@)
        + encode_utf8("\r\nServer: may_http\r\nContent-Length: "@) + decimal(
        encode_utf8(rsp.body@).len(),
    ) + encode_utf8("\r\nDate: "@) + date + encode_utf8("\r\n"@)
}

/// The wire form of a response sent at `date`: the status line, the server,
/// length and date lines, the response's own headers, a blank line, and the
/// body.
pub open spec fn encoded(rsp: Response, date: Seq<u8>) -> Seq<u8> {
    status_block(rsp, date) + header_lines(rsp.headers@.map_values(|h: (String, String)| (h.0@, h.1@)))
        + encode_utf8("\r\n"@) + encode_utf8(rsp.body@)
}

fn push_bytes(out: &mut Vec<u8>, bytes: &[u8])
    ensures
        final(out)@ == old(out)@ + bytes@,
{
    let mut i: usize = 0;
    while i < bytes.len()
        invariant
            i <= bytes@.len(),
            out@ == old(out)@ + bytes@.take(i as int),
        decreases bytes@.len() - i,
    {
        out.push(bytes[i]);
        i = i + 1;
        assert(bytes@.take(i as int) =~= bytes@.take((i - 1) as int).push(bytes@[i - 1]));
    }
    assert(bytes@.take(i as int) =~= bytes@);
}

pub(crate) fn push_str(out: &mut Vec<u8>, s: &str)
    ensures
        final(out)@ == old(out)@ + encode_utf8(s@),
{
    push_bytes(out, s.as_bytes());
}

fn push_decimal(out: &mut Vec<u8>, n: u64)
    ensures
        final(out)@ == old(out)@ + decimal(n as nat),
    decreases n,
{
    if n < 10 {
        out.push((48 + n) as u8);
        assert(final(out)@ =~= old(out)@ + decimal(n as nat));
    } else {
        push_decimal(out, n / 10);
        out.push((48 + n % 10) as u8);
        assert(out@ =~= old(out)@ + decimal(n as nat));
    }
}

fn push_status_block(rsp: &Response, date: &[u8], out: &mut Vec<u8>)
    ensures
        final(out)@ == old(out)@ + status_block(*rsp, date@),
{
    let body = rsp.body.as_str().as_bytes();
    push_str(out, "HTTP/1.1 ");
    push_decimal(out, rsp.code as u64);
    push_str(out, " ");
    push_str(out, rsp.reason.as_str());
    push_str(out, "\r\nServer: may_http\r\nContent-Length: ");
    push_decimal(out, body.len() as u64);
    push_str(out, "\r\nDate: ");
    push_bytes(out, date);
    push_str(out, "\r\n");
    assert(out@ =~= old(out)@ + status_block(*rsp, date@));
}

/// Appends the wire form of `rsp`, sent at `date`, to `out`.
pub fn encode(rsp: &Response, date: &[u8], out: &mut Vec<u8>)
    ensures
        final(out)@ == old(out)@ + encoded(*rsp, date@),
{
    push_status_block(rsp, date, out);
    let ghost hs = rsp.headers@.map_values(|h: (String, String)| (h.0@, h.1@));
    let ghost start = out@;
    let mut i: usize = 0;
    while i < rsp.headers.len()
        invariant
            i <= rsp.headers@.len(),
            hs == rsp.headers@.map_values(|h: (String, String)| (h.0@, h.1@)),
            out@ == start + header_lines(hs.take(i as int)),
        decreases rsp.headers@.len() - i,
    {
        let (name, value) = &rsp.headers[i];
        push_str(out, name.as_str());
        push_str(out, ": ");
        push_str(out, value.as_str());
        push_str(out, "\r\n");
        i = i + 1;
        assert(hs.take(i as int).drop_last() =~= hs.take((i - 1) as int));
    }
    assert(hs.take(i as int) =~= hs);
    let ghost with_headers = out@;
    push_str(out, "\r\n");
    push_str(out, rsp.body.as_str());
    assert(out@ =~= with_headers + encode_utf8("\r\n"@) + encode_utf8(rsp.body@));
    assert(out@ =~= old(out)@ + encoded(*rsp, date@));
}

/// The bytes owed for one handled request, sent at `date`: the handler's
/// response, or the fixed 500 reply when the handler failed.
pub fn reply_bytes(result: std::io::Result<Response>, date: &[u8]) -> (r: Vec<u8>)
    ensures
        result matches Ok(rsp) ==> r@ == encoded(rsp, date@),
        result matches Err(e) ==> exists|rsp: Response|
            {
                &&& rsp.code == 500
                &&& rsp.reason@ == "Internal Server Error"@
                &&& rsp.headers@.len() == 0
                &&& describes(&e, rsp.body@)
                &&& r@ == encoded(rsp, date@)
            },
{
    let rsp = response_for(result);
    let mut out: Vec<u8> = Vec::with_capacity(512);
    encode(&rsp, date, &mut out);
    assert(out@ =~= encoded(rsp, date@));
    out
}

} // verus!
