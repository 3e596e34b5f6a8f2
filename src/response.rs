//! The response value: status code, reason phrase, headers and body.
use vstd::prelude::*;
use crate::fields::FieldMap;
use crate::wire::copy_range;

verus! {

/// What a response holds, as mathematical values; `header_pairs` lists the
/// headers in the order in which they are written out.
pub struct ResponseView {
    pub msg: Seq<char>,
    pub code: u32,
    pub headers: Map<Seq<char>, Seq<char>>,
    pub header_pairs: Seq<(Seq<char>, Seq<char>)>,
    pub body: Seq<u8>,
}

impl ResponseView {
    /// Each header name occurs once among `header_pairs`, and `headers` is
    /// the map that they make.
    pub open spec fn headers_agree(self) -> bool {
        &&& forall|i: int, j: int|
            0 <= i < j < self.header_pairs.len() ==> #[trigger] self.header_pairs[i].0
                != #[trigger] self.header_pairs[j].0
        &&& forall|i: int|
            0 <= i < self.header_pairs.len() ==> self.headers.contains_key(
                #[trigger] self.header_pairs[i].0,
            ) && self.headers[self.header_pairs[i].0] == self.header_pairs[i].1
        &&& forall|k: Seq<char>|
            self.headers.contains_key(k) ==> exists|i: int|
                0 <= i < self.header_pairs.len() && #[trigger] self.header_pairs[i].0 == k
    }
}

/// An HTTP response. Setting a header that is already present replaces its
/// value in place.
pub struct HTTPResponse {
    msg: String,
    code: u32,
    headers: FieldMap,
    body: Vec<u8>,
}

impl View for HTTPResponse {
    type V = ResponseView;

    closed spec fn view(&self) -> ResponseView {
        ResponseView {
            msg: self.msg@,
            code: self.code,
            headers: self.headers@,
            header_pairs: self.headers.pairs(),
            body: self.body@,
        }
    }
}

impl HTTPResponse {
    /// A response with no headers.
    pub fn new(msg: &str, status_code: u32, body: &[u8]) -> (r: HTTPResponse)
        ensures
            r@.headers_agree(),
            r@ == (ResponseView {
                msg: msg@,
                code: status_code,
                headers: Map::empty(),
                header_pairs: Seq::empty(),
                body: body@,
            }),
    {
        let r = HTTPResponse {
            code: status_code,
            msg: msg.to_string(),
            headers: FieldMap::new(),
            body: copy_range(body, 0, body.len()),
        };
        assert(body@.subrange(0, body@.len() as int) =~= body@);
        proof {
            r.headers.lemma_pairs_view();
        }
        r
    }

    /// Sets a header, replacing any earlier value under the same name; a new
    /// name goes after the others.
    pub fn add_header(&mut self, key: &str, value: &str)
        ensures
            final(self)@.headers_agree(),
            old(self)@.headers.contains_key(key@) ==> exists|i: int|
                0 <= i < old(self)@.header_pairs.len() && old(self)@.header_pairs[i].0 == key@
                    && final(self)@.header_pairs == old(self)@.header_pairs.update(
                    i,
                    (key@, value@),
                ),
            final(self)@.headers == old(self)@.headers.insert(key@, value@),
            !old(self)@.headers.contains_key(key@) ==> final(self)@.header_pairs == old(
                self,
            )@.header_pairs.push((key@, value@)),
            final(self)@.msg == old(self)@.msg,
            final(self)@.code == old(self)@.code,
            final(self)@.body == old(self)@.body,
    {
        self.headers.insert(key, value);
        proof {
            use_type_invariant(&self.headers);
            self.headers.lemma_pairs_view();
            assert(self@.header_pairs == self.headers.pairs());
            assert(self@.headers == self.headers@);
            if old(self)@.headers.contains_key(key@) {
                let i = choose|i: int|
                    0 <= i < old(self).headers.pairs().len() && old(self).headers.pairs()[i].0
                        == key@ && self.headers.pairs() == old(self).headers.pairs().update(
                        i,
                        (key@, value@),
                    );
                assert(old(self)@.header_pairs[i].0 == key@);
            }
        }
    }

    /// Whether a header of this name is set.
    pub fn has_header(&self, key: &str) -> (r: bool)
        ensures
            r == self@.headers.contains_key(key@),
    {
        self.headers.contains_key(key)
    }

    pub fn get_body(&self) -> (r: Vec<u8>)
        ensures
            r@ == self@.body,
    {
        let r = copy_range(self.body.as_slice(), 0, self.body.len());
        assert(self.body@.subrange(0, self.body@.len() as int) =~= self.body@);
        r
    }

    /// The headers in write order.
    pub fn get_headers(&self) -> (r: Vec<(String, String)>)
        ensures
            self@.headers_agree(),
            r@.map_values(|e: (String, String)| (e.0@, e.1@)) == self@.header_pairs,
    {
        proof {
            use_type_invariant(&self.headers);
            self.headers.lemma_pairs_view();
            assert(self@.header_pairs == self.headers.pairs());
            assert(self@.headers == self.headers@);
        }
        self.headers.to_vec()
    }

    pub fn get_msg(&self) -> (r: String)
        ensures
            r@ == self@.msg,
    {
        self.msg.clone()
    }

    pub fn get_code(&self) -> (r: u32)
        ensures
            r == self@.code,
    {
        self.code
    }
}

} // verus!
