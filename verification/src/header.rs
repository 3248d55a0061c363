//! The response headers that carry the store's indices.

use vstd::prelude::*;
use crate::text::{eq_ignore_ascii_case, names_match, pairs_view, parse_decimal_u32, parse_u32};

verus! {

/// A response header whose value is a 32-bit number in decimal.
pub trait Header: Sized {
    /// The name of the header.
    spec fn name() -> Seq<char>;

    /// The number that the header carries.
    spec fn number(&self) -> u32;

    /// The name of the header.
    fn header_name() -> (r: &'static str)
        ensures
            r@ == Self::name(),
    ;

    /// Parses the value of the header: one or more decimal digits whose
    /// value fits in 32 bits.
    fn parse_header(raw: &str) -> (r: Option<Self>)
        ensures
            match parse_u32(raw@) {
                Some(n) => r matches Some(h) && h.number() == n,
                None => r is None,
            },
    ;

    /// The number that the header carries.
    fn value(&self) -> (r: u32)
        ensures
            r == self.number(),
    ;
}

/// `X-Etcd-Index`: the store's change counter.
#[allow(non_camel_case_types)]
#[derive(Debug, Clone, Copy, PartialEq, Eq, Structural)]
pub struct X_Etcd_Index(pub u32);

/// `X-Raft-Index`: the index of the underlying replication log.
#[allow(non_camel_case_types)]
#[derive(Debug, Clone, Copy, PartialEq, Eq, Structural)]
pub struct X_Raft_Index(pub u32);

/// `X-Raft-Term`: the election term.
#[allow(non_camel_case_types)]
#[derive(Debug, Clone, Copy, PartialEq, Eq, Structural)]
pub struct X_Raft_Term(pub u32);

impl Header for X_Etcd_Index {
    open spec fn name() -> Seq<char> {
        "X-Etcd-Index"@
    }

    open spec fn number(&self) -> u32 {
        self.0
    }

    fn header_name() -> (r: &'static str) {
        "X-Etcd-Index"
    }

    fn parse_header(raw: &str) -> (r: Option<Self>) {
        match parse_decimal_u32(raw) {
            Some(n) => Some(X_Etcd_Index(n)),
            None => None,
        }
    }

    fn value(&self) -> (r: u32) {
        self.0
    }
}

impl Header for X_Raft_Index {
    open spec fn name() -> Seq<char> {
        "X-Raft-Index"@
    }

    open spec fn number(&self) -> u32 {
        self.0
    }

    fn header_name() -> (r: &'static str) {
        "X-Raft-Index"
    }

    fn parse_header(raw: &str) -> (r: Option<Self>) {
        match parse_decimal_u32(raw) {
            Some(n) => Some(X_Raft_Index(n)),
            None => None,
        }
    }

    fn value(&self) -> (r: u32) {
        self.0
    }
}

impl Header for X_Raft_Term {
    open spec fn name() -> Seq<char> {
        "X-Raft-Term"@
    }

    open spec fn number(&self) -> u32 {
        self.0
    }

    fn header_name() -> (r: &'static str) {
        "X-Raft-Term"
    }

    fn parse_header(raw: &str) -> (r: Option<Self>) {
        match parse_decimal_u32(raw) {
            Some(n) => Some(X_Raft_Term(n)),
            None => None,
        }
    }

    fn value(&self) -> (r: u32) {
        self.0
    }
}

/// The value of the first header whose name matches `name`, whatever the
/// case of its letters.
pub open spec fn find_header(headers: Seq<(Seq<char>, Seq<char>)>, name: Seq<char>) -> Option<
    Seq<char>,
>
    decreases headers.len(),
{
    if headers.len() == 0 {
        None
    } else if names_match(headers[0].0, name) {
        Some(headers[0].1)
    } else {
        find_header(headers.drop_first(), name)
    }
}

/// The index that the header `name` carries; zero where the header is
/// missing or its value does not parse.
pub open spec fn header_index(headers: Seq<(Seq<char>, Seq<char>)>, name: Seq<char>) -> i64 {
    match find_header(headers, name) {
        Some(raw) => match parse_u32(raw) {
            Some(n) => n as i64,
            None => 0,
        },
        None => 0,
    }
}

/// Finds the value of the first header whose name matches `name`, whatever
/// the case of its letters.
pub fn header_value<'a>(headers: &'a Vec<(String, String)>, name: &str) -> (r: Option<&'a String>)
    ensures
        match r {
            Some(raw) => find_header(pairs_view(headers@), name@) == Some(raw@),
            None => find_header(pairs_view(headers@), name@) is None,
        },
{
    let ghost all = pairs_view(headers@);
    let mut i: usize = 0;
    assert(all.skip(0) =~= all);
    while i < headers.len()
        invariant
            i <= headers.len(),
            all == pairs_view(headers@),
            find_header(all, name@) == find_header(all.skip(i as int), name@),
        decreases headers.len() - i,
    {
        assert(all.skip(i as int)[0] == all[i as int]);
        if eq_ignore_ascii_case(headers[i].0.as_str(), name) {
            return Some(&headers[i].1);
        }
        assert(all.skip(i as int).drop_first() =~= all.skip(i as int + 1));
        i += 1;
    }
    None
}

/// Reads the index that the header `H` carries; zero where the header is
/// missing or its value does not parse.
pub fn index_from_headers<H: Header>(headers: &Vec<(String, String)>) -> (r: i64)
    ensures
        r == header_index(pairs_view(headers@), H::name()),
{
    match header_value(headers, H::header_name()) {
        Some(raw) => match H::parse_header(raw.as_str()) {
            Some(h) => h.value() as i64,
            None => 0,
        },
        None => 0,
    }
}

} // verus!
