//! Writing a response out as wire bytes.
use vstd::prelude::*;
use vstd::utf8::{
    decode_utf8, decode_utf8_encode_utf8, encode_utf8, is_leading_byte_width_1, valid_utf8,
};
use crate::response::{HTTPResponse, ResponseView};
use crate::text::decode_lossy;

verus! {

/// The decimal digits of `n`, most significant first, without leading zeros.
pub open spec fn decimal(n: nat) -> Seq<u8>
    decreases n,
{
    if n < 10 {
        seq![(48 + n) as u8]
    } else {
        decimal(n / 10).push((48 + n % 10) as u8)
    }
}

/// Every byte of `decimal(n)` is an ASCII digit.
pub proof fn lemma_decimal_digits(n: nat)
    ensures
        decimal(n).len() >= 1,
        forall|i: int| 0 <= i < decimal(n).len() ==> 48 <= #[trigger] decimal(n)[i] <= 57,
    decreases n,
{
    if n >= 10 {
        lemma_decimal_digits(n / 10);
    }
}

/// ASCII bytes are valid UTF-8.
pub proof fn lemma_ascii_valid_utf8(s: Seq<u8>)
    requires
        forall|i: int| 0 <= i < s.len() ==> #[trigger] s[i] < 128,
    ensures
        valid_utf8(s),
    decreases s.len(),
{
    if s.len() > 0 {
        let b = s[0];
        assert(is_leading_byte_width_1(b));
        assert((b & 0x7F) <= 0x7F) by (bit_vector);
        let rest = s.subrange(1, s.len() as int);
        assert forall|i: int| 0 <= i < rest.len() implies #[trigger] rest[i] < 128 by {
            assert(rest[i] == s[i + 1]);
        }
        lemma_ascii_valid_utf8(rest);
    }
}

/// Appends the decimal digits of `n`.
pub fn push_decimal(out: &mut Vec<u8>, n: u64)
    ensures
        final(out)@ == old(out)@ + decimal(n as nat),
    decreases n,
{
    if n >= 10 {
        push_decimal(out, n / 10);
    }
    out.push((48 + n % 10) as u8);
    assert(final(out)@ =~= old(out)@ + decimal(n as nat));
}

/// Appends `b`.
pub fn push_bytes(out: &mut Vec<u8>, b: &[u8])
    ensures
        final(out)@ == old(out)@ + b@,
{
    let mut i: usize = 0;
    while i < b.len()
        invariant
            i <= b@.len(),
            out@ == old(out)@ + b@.subrange(0, i as int),
        decreases b@.len() - i,
    {
        out.push(b[i]);
        assert(b@.subrange(0, i + 1) =~= b@.subrange(0, i as int).push(b@[i as int]));
        i = i + 1;
    }
    assert(b@.subrange(0, b@.len() as int) =~= b@);
}

/// The header name `Content-Length`.
pub open spec fn content_length() -> Seq<char> {
    seq!['C', 'o', 'n', 't', 'e', 'n', 't', '-', 'L', 'e', 'n', 'g', 't', 'h']
}

/// The header lines `name: value\r\n`, in order.
pub open spec fn header_lines(p: Seq<(Seq<char>, Seq<char>)>) -> Seq<u8>
    decreases p.len(),
{
    if p.len() == 0 {
        Seq::empty()
    } else {
        header_lines(p.drop_last()) + encode_utf8(p.last().0) + seq![58u8, 32u8] + encode_utf8(
            p.last().1,
        ) + seq![13u8, 10u8]
    }
}

/// `HTTP/1.1 ` as bytes.
pub open spec fn status_prefix() -> Seq<u8> {
    seq![72u8, 84, 84, 80, 47, 49, 46, 49, 32]
}

/// The wire form of a response, headers as they stand.
pub open spec fn wire_form(v: ResponseView) -> Seq<u8> {
    status_prefix() + decimal(v.code as nat) + seq![32u8] + encode_utf8(v.msg) + seq![13u8, 10u8]
        + header_lines(v.header_pairs) + seq![13u8, 10u8] + v.body
}

/// The response with `Content-Length` set to the body's length in decimal,
/// unless a header of that name is already present.
pub open spec fn with_content_length(v: ResponseView) -> ResponseView {
    if v.headers.contains_key(content_length()) {
        v
    } else {
        let len = decode_utf8(decimal(v.body.len()));
        ResponseView {
            headers: v.headers.insert(content_length(), len),
            header_pairs: v.header_pairs.push((content_length(), len)),
            ..v
        }
    }
}

/// Serializing a response without `Content-Length` adds that header last,
/// and as the only pair of that name, with the body's length in decimal as
/// its value; the bytes then end with that header line, one blank line and
/// exactly the body.
pub proof fn lemma_content_length_added(v: ResponseView)
    requires
        v.headers_agree(),
        !v.headers.contains_key(content_length()),
    ensures
        forall|i: int|
            0 <= i < with_content_length(v).header_pairs.len() ==> ((
            #[trigger] with_content_length(v).header_pairs[i]).0 == content_length() <==> i
                == v.header_pairs.len()),
        with_content_length(v).headers.contains_key(content_length()),
        encode_utf8(with_content_length(v).headers[content_length()]) == decimal(v.body.len()),
        wire_form(with_content_length(v)) == status_prefix() + decimal(v.code as nat) + seq![32u8]
            + encode_utf8(v.msg) + seq![13u8, 10u8] + header_lines(v.header_pairs) + encode_utf8(
            content_length(),
        ) + seq![58u8, 32u8] + decimal(v.body.len()) + seq![13u8, 10u8, 13u8, 10u8] + v.body,
{
    let digits = decimal(v.body.len());
    lemma_decimal_digits(v.body.len());
    lemma_ascii_valid_utf8(digits);
    decode_utf8_encode_utf8(digits);
    let w = with_content_length(v);
    assert(w.header_pairs.drop_last() =~= v.header_pairs);
    assert forall|i: int| 0 <= i < w.header_pairs.len() implies ((
    #[trigger] w.header_pairs[i]).0 == content_length() <==> i == v.header_pairs.len()) by {
        if i < v.header_pairs.len() {
            assert(w.header_pairs[i] == v.header_pairs[i]);
            assert(v.headers.contains_key(v.header_pairs[i].0));
        }
    }
    assert(wire_form(w) =~= status_prefix() + decimal(v.code as nat) + seq![32u8] + encode_utf8(
        v.msg,
    ) + seq![13u8, 10u8] + header_lines(v.header_pairs) + encode_utf8(content_length()) + seq![
        58u8,
        32u8,
    ] + digits + seq![13u8, 10u8, 13u8, 10u8] + v.body);
}

/// Turns responses into wire bytes.
pub struct HTTPResponseSerializer;

impl HTTPResponseSerializer {
    pub fn new() -> (r: HTTPResponseSerializer) {
        HTTPResponseSerializer
    }

    /// The status line `HTTP/1.1 <code> <reason>\r\n`, each header as
    /// `<name>: <value>\r\n`, a blank line and the body; `Content-Length` is
    /// added when absent.
    pub fn serialize(&self, response: HTTPResponse) -> (r: Vec<u8>)
        ensures
            r@ == wire_form(with_content_length(response@)),
            with_content_length(response@).headers_agree(),
    {
        let ghost given = response@;
        let mut response = response;
        let name = "Content-Length";
        proof {
            reveal_strlit("Content-Length");
        }
        assert(name@ =~= content_length());
        if !response.has_header(name) {
            let mut digits: Vec<u8> = Vec::new();
            push_decimal(&mut digits, response.get_body().len() as u64);
            assert(digits@ =~= decimal(response@.body.len()));
            proof {
                lemma_decimal_digits(response@.body.len());
                lemma_ascii_valid_utf8(digits@);
            }
            let len = decode_lossy(digits.as_slice());
            response.add_header(name, len.as_str());
        }
        let ghost v = response@;
        assert(v == with_content_length(given)) by {
            if !given.headers.contains_key(content_length()) {
                assert(v =~= with_content_length(given));
            }
        }
        let mut out: Vec<u8> = vec![72u8, 84, 84, 80, 47, 49, 46, 49, 32];
        push_decimal(&mut out, response.get_code() as u64);
        out.push(32u8);
        let msg = response.get_msg();
        push_bytes(&mut out, msg.as_str().as_bytes());
        out.push(13u8);
        out.push(10u8);
        let headers = response.get_headers();
        let ghost pairs = v.header_pairs;
        let ghost start = out@;
        let mut i: usize = 0;
        while i < headers.len()
            invariant
                i <= headers@.len(),
                headers@.map_values(|e: (String, String)| (e.0@, e.1@)) == pairs,
                out@ == start + header_lines(pairs.subrange(0, i as int)),
            decreases headers@.len() - i,
        {
            let ghost before = out@;
            assert(pairs[i as int] == (headers@[i as int].0@, headers@[i as int].1@));
            push_bytes(&mut out, headers[i].0.as_str().as_bytes());
            out.push(58u8);
            out.push(32u8);
            push_bytes(&mut out, headers[i].1.as_str().as_bytes());
            out.push(13u8);
            out.push(10u8);
            assert(pairs.subrange(0, i + 1).drop_last() =~= pairs.subrange(0, i as int));
            assert(out@ =~= start + header_lines(pairs.subrange(0, i + 1)));
            i = i + 1;
        }
        assert(pairs.subrange(0, i as int) =~= pairs);
        out.push(13u8);
        out.push(10u8);
        push_bytes(&mut out, response.get_body().as_slice());
        assert(out@ =~= wire_form(v));
        out
    }
}

} // verus!
