//! A response and its serialisation to the wire.
use vstd::prelude::*;
use vstd::string::{StringExecFns, StringSliceAdditionalSpecFns};
use vstd::utf8::encode_utf8;
use crate::status_code::StatusCode;

verus! {

/// A status and an optional body.
#[derive(Debug)]
pub struct Response {
    status_code: StatusCode,
    body: Option<String>,
}

/// The decimal digit `d`.
pub open spec fn digit(d: nat) -> char {
    seq!['0', '1', '2', '3', '4', '5', '6', '7', '8', '9'][d as int]
}

/// `n` written in decimal, without leading zeros.
pub open spec fn decimal(n: nat) -> Seq<char>
    decreases n,
{
    if n < 10 {
        seq![digit(n)]
    } else {
        decimal(n / 10).push(digit(n % 10))
    }
}

/// `HTTP/1.1 <code> <reason>\r\n\r\n<body>`.
pub open spec fn wire_text(status: StatusCode, body: Option<Seq<char>>) -> Seq<char> {
    seq!['H', 'T', 'T', 'P', '/', '1', '.', '1', ' '] + decimal(status.spec_code() as nat) + seq![' ']
        + status.reason() + seq!['\r', '\n', '\r', '\n'] + match body {
        Some(b) => b,
        None => Seq::empty(),
    }
}

impl View for Response {
    type V = (StatusCode, Option<Seq<char>>);

    closed spec fn view(&self) -> (StatusCode, Option<Seq<char>>) {
        (
            self.status_code,
            match self.body {
                Some(b) => Some(b@),
                None => None,
            },
        )
    }
}

/// Appends `n` in decimal to `out`.
fn append_decimal(n: u16, out: &mut String)
    ensures
        final(out)@ == old(out)@ + decimal(n as nat),
    decreases n,
{
    if n >= 10 {
        append_decimal(n / 10, out);
    }
    let digits = "0123456789";
    proof {
        reveal_strlit("0123456789");
    }
    let d = (n % 10) as usize;
    out.append(digits.substring_char(d, d + 1));
    assert(digits@.subrange(d as int, d + 1) =~= seq![digit(d as nat)]);
    if n >= 10 {
        assert(decimal(n as nat) == decimal((n / 10) as nat).push(digit((n % 10) as nat)));
    }
    assert(final(out)@ =~= old(out)@ + decimal(n as nat));
}

impl Response {
    /// A response with the given status and body.
    pub fn new(status_code: StatusCode, body: Option<String>) -> (r: Response)
        ensures
            r@ == (status_code, match body {
                Some(b) => Some(b@),
                None => None::<Seq<char>>,
            }),
    {
        Response { status_code, body }
    }

    /// The response as text: `HTTP/1.1 <code> <reason>\r\n\r\n<body>`, no headers.
    pub fn to_text(&self) -> (r: String)
        ensures
            r@ == wire_text(self@.0, self@.1),
    {
        let mut out = String::new();
        proof {
            reveal_strlit("HTTP/1.1 ");
            reveal_strlit(" ");
            reveal_strlit("\r\n\r\n");
        }
        out.append("HTTP/1.1 ");
        append_decimal(self.status_code.code(), &mut out);
        out.append(" ");
        out.append(self.status_code.message());
        out.append("\r\n\r\n");
        match &self.body {
            Some(b) => out.append(b.as_str()),
            None => {},
        }
        assert(out@ =~= wire_text(self@.0, self@.1));
        out
    }

    /// Writes the response, UTF-8 encoded, to the end of `sink`.
    pub fn send(&self, sink: &mut Vec<u8>)
        ensures
            final(sink)@ == old(sink)@ + encode_utf8(wire_text(self@.0, self@.1)),
    {
        let text = self.to_text();
        let bytes = text.as_str().as_bytes();
        let ghost start = sink@;
        let mut i: usize = 0;
        while i < bytes.len()
            invariant
                i <= bytes@.len(),
                sink@ == start + bytes@.take(i as int),
            decreases bytes@.len() - i,
        {
            sink.push(bytes[i]);
            i = i + 1;
            assert(sink@ =~= start + bytes@.take(i as int));
        }
        assert(bytes@.take(i as int) =~= bytes@);
    }
}

} // verus!
