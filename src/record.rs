//! A WARC record as the batches read it: the value of each named
//! header, if present, and the decoded body.

use vstd::prelude::*;

use crate::schema::{HeaderName, HEADER_COUNT};

verus! {

/// The text of an optional string.
pub open spec fn text_view(o: Option<String>) -> Option<Seq<char>> {
    match o {
        Some(s) => Some(s@),
        None => None,
    }
}

/// What a record holds: for each header slot its value, if any, and the body.
pub struct RecordView {
    pub headers: Seq<Option<Seq<char>>>,
    pub body: Seq<u8>,
}

impl RecordView {
    /// The value of header `h`, or nothing where the record lacks it.
    pub open spec fn header(self, h: HeaderName) -> Option<Seq<char>> {
        if h.slot() < self.headers.len() {
            self.headers[h.slot() as int]
        } else {
            None
        }
    }
}

/// One WARC record: its named headers and its body.
pub struct WarcRecord {
    headers: Vec<Option<String>>,
    body: Vec<u8>,
}

impl View for WarcRecord {
    type V = RecordView;

    closed spec fn view(&self) -> RecordView {
        RecordView { headers: self.headers@.map_values(|o: Option<String>| text_view(o)), body: self.body@ }
    }
}

impl WarcRecord {
    #[verifier::type_invariant]
    spec fn has_every_slot(self) -> bool {
        self.headers@.len() == HEADER_COUNT
    }

    /// A record with no header and an empty body.
    pub fn new() -> (r: WarcRecord)
        ensures
            forall|h: HeaderName| r@.header(h) is None,
            r@.body.len() == 0,
    {
        let mut headers: Vec<Option<String>> = Vec::new();
        let mut i: usize = 0;
        while i < HEADER_COUNT
            invariant
                i <= HEADER_COUNT,
                headers@.len() == i,
                forall|j: int| 0 <= j < i ==> headers@[j] is None,
            decreases HEADER_COUNT - i,
        {
            headers.push(None);
            i = i + 1;
        }
        WarcRecord { headers, body: Vec::new() }
    }

    /// This record with header `h` set to `value`, replacing any earlier value.
    pub fn with_header(self, h: HeaderName, value: String) -> (r: WarcRecord)
        ensures
            r@.header(h) == Some(value@),
            forall|g: HeaderName| g != h ==> r@.header(g) == self@.header(g),
            r@.body == self@.body,
    {
        proof {
            use_type_invariant(&self);
        }
        let mut headers = self.headers;
        let i = h.index();
        headers[i] = Some(value);
        proof {
            assert forall|g: HeaderName| g != h implies g.slot() != h.slot() by {}
        }
        WarcRecord { headers, body: self.body }
    }

    /// This record with its body replaced by `body`.
    pub fn with_body(self, body: Vec<u8>) -> (r: WarcRecord)
        ensures
            forall|g: HeaderName| r@.header(g) == self@.header(g),
            r@.body == body@,
    {
        proof {
            use_type_invariant(&self);
        }
        WarcRecord { headers: self.headers, body }
    }

    /// The value of header `h`, if the record has one.
    pub fn header(&self, h: HeaderName) -> (r: Option<&String>)
        ensures
            match r {
                Some(s) => self@.header(h) == Some(s@),
                None => self@.header(h) is None,
            },
    {
        proof {
            use_type_invariant(self);
        }
        self.headers[h.index()].as_ref()
    }

    /// The record's body.
    pub fn body(&self) -> (r: &Vec<u8>)
        ensures
            r@ == self@.body,
    {
        &self.body
    }
}

} // verus!
