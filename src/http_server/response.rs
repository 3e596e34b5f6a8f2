//! Responses of the fn-pointer server.
use vstd::prelude::*;
use vstd::utf8::encode_utf8;
use crate::serializer::{decimal, push_bytes, push_decimal};
use crate::text::chars_of;
use crate::wire::copy_range;

verus! {

/// What a `Response` holds, as mathematical values.
pub struct ResponseParts {
    pub version: Seq<char>,
    pub status_code: usize,
    pub status_message: Seq<char>,
    pub headers: Seq<Seq<char>>,
    pub body: Seq<u8>,
}

/// The header lines, each followed by `\r\n`.
pub open spec fn raw_header_lines(h: Seq<Seq<char>>) -> Seq<u8>
    decreases h.len(),
{
    if h.len() == 0 {
        Seq::empty()
    } else {
        raw_header_lines(h.drop_last()) + encode_utf8(h.last()) + seq![13u8, 10u8]
    }
}

/// `Content-Length:`, the start of a header line that gives the body's length.
pub open spec fn length_prefix() -> Seq<char> {
    seq!['C', 'o', 'n', 't', 'e', 'n', 't', '-', 'L', 'e', 'n', 'g', 't', 'h', ':']
}

/// Whether some header line starts with `Content-Length:`.
pub open spec fn has_length_line(h: Seq<Seq<char>>) -> bool {
    exists|i: int|
        0 <= i < h.len() && #[trigger] h[i].len() >= 15 && h[i].subrange(0, 15) == length_prefix()
}

/// The bytes of `Content-Length: `.
pub open spec fn length_line_start() -> Seq<u8> {
    seq![67u8, 111, 110, 116, 101, 110, 116, 45, 76, 101, 110, 103, 116, 104, 58, 32]
}

/// The line `Content-Length: <body length>\r\n` when no header line gives
/// the length, else nothing.
pub open spec fn length_line(p: ResponseParts) -> Seq<u8> {
    if has_length_line(p.headers) {
        Seq::empty()
    } else {
        length_line_start() + decimal(p.body.len()) + seq![13u8, 10u8]
    }
}

/// `<version> <code> <message>\r\n`, the header lines, a `Content-Length`
/// line unless one is there, a blank line and the body.
pub open spec fn response_bytes(p: ResponseParts) -> Seq<u8> {
    encode_utf8(p.version) + seq![32u8] + decimal(p.status_code as nat) + seq![32u8] + encode_utf8(
        p.status_message,
    ) + seq![13u8, 10u8] + raw_header_lines(p.headers) + length_line(p) + seq![13u8, 10u8]
        + p.body
}

/// Whether `h` starts with `Content-Length:`.
fn starts_with_length(h: &String) -> (r: bool)
    ensures
        r == (h@.len() >= 15 && h@.subrange(0, 15) == length_prefix()),
{
    let c = chars_of(h.as_str());
    let p = vec!['C', 'o', 'n', 't', 'e', 'n', 't', '-', 'L', 'e', 'n', 'g', 't', 'h', ':'];
    assert(p@ =~= length_prefix());
    if c.len() < 15 {
        return false;
    }
    let mut i: usize = 0;
    while i < 15
        invariant
            i <= 15,
            c@.len() >= 15,
            c@ == h@,
            p@ == length_prefix(),
            forall|j: int| 0 <= j < i ==> c@[j] == p@[j],
        decreases 15 - i,
    {
        if c[i] != p[i] {
            assert(c@.subrange(0, 15)[i as int] != length_prefix()[i as int]);
            return false;
        }
        i = i + 1;
    }
    assert(c@.subrange(0, 15) =~= length_prefix());
    true
}

/// An HTTP response whose headers are whole `Name: value` lines, kept in
/// the order added.
pub struct Response {
    version: String,
    status_code: usize,
    status_message: String,
    headers: Vec<String>,
    body: Vec<u8>,
}

impl View for Response {
    type V = ResponseParts;

    closed spec fn view(&self) -> ResponseParts {
        ResponseParts {
            version: self.version@,
            status_code: self.status_code,
            status_message: self.status_message@,
            headers: self.headers@.map_values(|h: String| h@),
            body: self.body@,
        }
    }
}

impl Response {
    /// A response with no headers.
    pub fn new(version: &str, status_code: usize, status_message: &str, body: &[u8]) -> (r:
        Response)
        ensures
            r@ == (ResponseParts {
                version: version@,
                status_code,
                status_message: status_message@,
                headers: Seq::empty(),
                body: body@,
            }),
    {
        let r = Response {
            version: version.to_string(),
            status_code,
            status_message: status_message.to_string(),
            headers: Vec::new(),
            body: copy_range(body, 0, body.len()),
        };
        assert(body@.subrange(0, body@.len() as int) =~= body@);
        assert(r@.headers =~= Seq::<Seq<char>>::empty());
        r
    }

    /// A 200 Ok response.
    pub fn create_200(version: &str, body: &[u8]) -> (r: Response)
        ensures
            r@ == (ResponseParts {
                version: version@,
                status_code: 200,
                status_message: "Ok"@,
                headers: Seq::empty(),
                body: body@,
            }),
    {
        Self::new(version, 200, "Ok", body)
    }

    /// A 404 Not Found response.
    pub fn create_404(version: &str, body: &[u8]) -> (r: Response)
        ensures
            r@ == (ResponseParts {
                version: version@,
                status_code: 404,
                status_message: "Not Found"@,
                headers: Seq::empty(),
                body: body@,
            }),
    {
        Self::new(version, 404, "Not Found", body)
    }

    /// Appends a header line.
    pub fn add_header(&mut self, header: &str)
        ensures
            final(self)@ == (ResponseParts {
                headers: old(self)@.headers.push(header@),
                ..old(self)@
            }),
    {
        let h = header.to_string();
        self.headers.push(h);
        assert(self@.headers =~= old(self)@.headers.push(header@));
    }

    /// The response's wire bytes.
    pub fn parse(&self) -> (r: Vec<u8>)
        ensures
            r@ == response_bytes(self@),
    {
        let mut out: Vec<u8> = Vec::new();
        push_bytes(&mut out, self.version.as_str().as_bytes());
        out.push(32u8);
        push_decimal(&mut out, self.status_code as u64);
        out.push(32u8);
        push_bytes(&mut out, self.status_message.as_str().as_bytes());
        out.push(13u8);
        out.push(10u8);
        let ghost hs = self@.headers;
        let ghost start = out@;
        let mut i: usize = 0;
        while i < self.headers.len()
            invariant
                i <= self.headers@.len(),
                hs == self.headers@.map_values(|h: String| h@),
                out@ == start + raw_header_lines(hs.subrange(0, i as int)),
            decreases self.headers@.len() - i,
        {
            assert(hs[i as int] == self.headers@[i as int]@);
            push_bytes(&mut out, self.headers[i].as_str().as_bytes());
            out.push(13u8);
            out.push(10u8);
            assert(hs.subrange(0, i + 1).drop_last() =~= hs.subrange(0, i as int));
            assert(out@ =~= start + raw_header_lines(hs.subrange(0, i + 1)));
            i = i + 1;
        }
        assert(hs.subrange(0, i as int) =~= hs);
        let mut found = false;
        let mut k: usize = 0;
        while k < self.headers.len()
            invariant
                k <= self.headers@.len(),
                hs == self.headers@.map_values(|h: String| h@),
                found == exists|j: int|
                    0 <= j < k && #[trigger] hs[j].len() >= 15 && hs[j].subrange(0, 15)
                        == length_prefix(),
            decreases self.headers@.len() - k,
        {
            assert(hs[k as int] == self.headers@[k as int]@);
            if starts_with_length(&self.headers[k]) {
                found = true;
            }
            k = k + 1;
        }
        if !found {
            push_bytes(
                &mut out,
                vec![67u8, 111, 110, 116, 101, 110, 116, 45, 76, 101, 110, 103, 116, 104, 58, 32].as_slice(),
            );
            push_decimal(&mut out, self.body.len() as u64);
            out.push(13u8);
            out.push(10u8);
        }
        out.push(13u8);
        out.push(10u8);
        push_bytes(&mut out, self.body.as_slice());
        assert(out@ =~= response_bytes(self@));
        out
    }
}

} // verus!
