//! The parts of a request: the store's base objects, the parameters of an
//! operation as pairs of strings, and the two encodings that the `url` crate
//! computes.

use vstd::prelude::*;
use vstd::string::StringSliceAdditionalSpecFns;
use vstd::utf8::{char_u32_cast, encode_utf8, is_ascii_chars, is_ascii_chars_encode_utf8};
use url::Url;
use crate::text::{bool_string, bool_text, decimal_string, decimal_text, pairs_view};

verus! {

/// The version of the store's protocol, a segment of every URL.
pub const VERSION: &'static str = "v2";

/// The base object of a URL.
#[derive(Debug, Clone, Copy, PartialEq, Eq, Structural)]
pub enum EtcdObject {
    Version,
    Keys,
    Stats,
}

impl EtcdObject {
    /// The path segment of the object.
    pub open spec fn name(self) -> Seq<char> {
        match self {
            EtcdObject::Version => "version"@,
            EtcdObject::Keys => "keys"@,
            EtcdObject::Stats => "stats"@,
        }
    }

    /// The path segment of the object.
    pub fn as_str(&self) -> (r: &'static str)
        ensures
            r@ == self.name(),
    {
        match self {
            EtcdObject::Version => "version",
            EtcdObject::Keys => "keys",
            EtcdObject::Stats => "stats",
        }
    }
}

/// The condition of an atomic write: the store performs the write only
/// where the condition holds of the key as it is.
#[derive(Debug, Clone, Copy, PartialEq, Eq)]
pub enum AtomicOp<'a> {
    /// The key holds this value.
    PrevValue(&'a str),
    /// The key was last changed at this index.
    PrevIndex(u64),
    /// The key exists (`true`), or does not exist (`false`).
    PrevExist(bool),
}

impl<'a> AtomicOp<'a> {
    /// The query parameter that states the condition.
    pub open spec fn pair(self) -> (Seq<char>, Seq<char>) {
        match self {
            AtomicOp::PrevValue(s) => ("prevValue"@, s@),
            AtomicOp::PrevIndex(i) => ("prevIndex"@, decimal_text(i as nat)),
            AtomicOp::PrevExist(b) => ("prevExists"@, bool_text(b)),
        }
    }

    /// The query parameter that states the condition.
    pub fn into(self) -> (r: (String, String))
        ensures
            (r.0@, r.1@) == self.pair(),
    {
        match self {
            AtomicOp::PrevValue(s) => (String::from_str("prevValue"), String::from_str(s)),
            AtomicOp::PrevIndex(i) => (String::from_str("prevIndex"), decimal_string(i)),
            AtomicOp::PrevExist(b) => (String::from_str("prevExists"), bool_string(b)),
        }
    }
}

/// One parameter of a request.
#[derive(Debug, Clone, Copy, PartialEq, Eq)]
pub enum Param<'a> {
    Dir(bool),
    Recursive(bool),
    Sorted(bool),
    Value(&'a str),
    Wait(bool),
    WaitIndex(u64),
}

impl<'a> Param<'a> {
    /// The name and the text of the parameter.
    pub open spec fn pair(self) -> (Seq<char>, Seq<char>) {
        match self {
            Param::Dir(b) => ("dir"@, bool_text(b)),
            Param::Recursive(b) => ("recursive"@, bool_text(b)),
            Param::Sorted(b) => ("sorted"@, bool_text(b)),
            Param::Value(s) => ("value"@, s@),
            Param::Wait(b) => ("wait"@, bool_text(b)),
            Param::WaitIndex(i) => ("waitIndex"@, decimal_text(i as nat)),
        }
    }

    /// The name and the text of the parameter.
    pub fn into(self) -> (r: (String, String))
        ensures
            (r.0@, r.1@) == self.pair(),
    {
        match self {
            Param::Dir(b) => (String::from_str("dir"), bool_string(b)),
            Param::Recursive(b) => (String::from_str("recursive"), bool_string(b)),
            Param::Sorted(b) => (String::from_str("sorted"), bool_string(b)),
            Param::Value(s) => (String::from_str("value"), String::from_str(s)),
            Param::Wait(b) => (String::from_str("wait"), bool_string(b)),
            Param::WaitIndex(i) => (String::from_str("waitIndex"), decimal_string(i)),
        }
    }
}

/// The HTTP method of a request.
#[derive(Debug, Clone, Copy, PartialEq, Eq, Structural)]
pub enum Method {
    Get,
    Put,
    Post,
    Delete,
}

/// The mathematical model of a request.
pub struct RequestView {
    pub method: Method,
    pub url: Seq<char>,
    pub headers: Seq<(Seq<char>, Seq<char>)>,
    pub body: Option<Seq<char>>,
}

/// One HTTP request, ready to be sent.
#[derive(Debug, Clone, PartialEq, Eq)]
pub struct Request {
    pub method: Method,
    /// The absolute URL, query included.
    pub url: String,
    /// The header fields, each a name and a value.
    pub headers: Vec<(String, String)>,
    /// The form-encoded body of a write.
    pub body: Option<String>,
}

impl View for Request {
    type V = RequestView;

    open spec fn view(&self) -> RequestView {
        RequestView {
            method: self.method,
            url: self.url@,
            headers: pairs_view(self.headers@),
            body: match self.body {
                Some(b) => Some(b@),
                None => None,
            },
        }
    }
}

/// The header that asks for a JSON answer.
pub open spec fn accept_json() -> (Seq<char>, Seq<char>) {
    ("Accept"@, "application/json"@)
}

/// The header that announces a form-encoded body.
pub open spec fn content_type_form() -> (Seq<char>, Seq<char>) {
    ("Content-Type"@, "application/x-www-form-urlencoded"@)
}

/// The headers of a request: `Accept` always, and `Content-Type` where the
/// request has a body.
pub open spec fn request_headers(with_body: bool) -> Seq<(Seq<char>, Seq<char>)> {
    if with_body {
        seq![accept_json(), content_type_form()]
    } else {
        seq![accept_json()]
    }
}

/// The bytes that a list of pairs takes: those of each name and value, and
/// two more for each pair.
pub open spec fn pairs_size(pairs: Seq<(Seq<char>, Seq<char>)>) -> nat
    decreases pairs.len(),
{
    if pairs.len() == 0 {
        0
    } else {
        pairs_size(pairs.drop_last()) + encode_utf8(pairs.last().0).len() + encode_utf8(
            pairs.last().1,
        ).len() + 2
    }
}

/// The most bytes that a URL text and its parameters may take together.
///
/// The URL parser holds positions in the serialization of a URL in 32 bits.
/// The serialization can be longer than what it is made of: a byte of a
/// path or of a pair becomes up to three, and the mapping of a host name
/// may lengthen it. This figure leaves a factor of 256 for that growth.
pub const URL_INPUT_LIMIT: usize = 0x100_0000;

/// The URL text and the parameters are small enough for the URL parser.
pub open spec fn url_input_fits(input: Seq<char>, params: Seq<(Seq<char>, Seq<char>)>) -> bool {
    encode_utf8(input).len() + pairs_size(params) <= URL_INPUT_LIMIT
}

/// Tells whether a URL text and its parameters are small enough for the URL
/// parser.
pub fn check_url_input(input: &str, params: &Vec<(String, String)>) -> (r: bool)
    ensures
        r == url_input_fits(input@, pairs_view(params@)),
{
    let ghost all = pairs_view(params@);
    if input.as_bytes().len() > URL_INPUT_LIMIT {
        return false;
    }
    let mut total: usize = input.as_bytes().len();
    let mut i: usize = 0;
    assert(all.take(0) =~= Seq::<(Seq<char>, Seq<char>)>::empty());
    while i < params.len()
        invariant
            i <= params.len(),
            all == pairs_view(params@),
            total == encode_utf8(input@).len() + pairs_size(all.take(i as int)),
            total <= URL_INPUT_LIMIT,
        decreases params.len() - i,
    {
        let name = params[i].0.as_str().as_bytes().len();
        let value = params[i].1.as_str().as_bytes().len();
        assert(all.take(i as int + 1).drop_last() =~= all.take(i as int));
        assert(all.take(i as int + 1).last() == all[i as int]);
        proof {
            lemma_pairs_size_grows(all, i as int + 1);
        }
        if name > URL_INPUT_LIMIT || value > URL_INPUT_LIMIT {
            return false;
        }
        if total + name + value + 2 > URL_INPUT_LIMIT {
            return false;
        }
        total = total + name + value + 2;
        i += 1;
    }
    assert(all.take(i as int) =~= all);
    true
}

/// A list of pairs takes no fewer bytes than a prefix of it.
pub proof fn lemma_pairs_size_grows(pairs: Seq<(Seq<char>, Seq<char>)>, n: int)
    requires
        0 <= n <= pairs.len(),
    ensures
        pairs_size(pairs.take(n)) <= pairs_size(pairs),
    decreases pairs.len() - n,
{
    if n == pairs.len() {
        assert(pairs.take(n) =~= pairs);
    } else {
        lemma_pairs_size_grows(pairs, n + 1);
        assert(pairs.take(n + 1).drop_last() =~= pairs.take(n));
    }
}

/// The serialization of the URL that `url::Url::parse` makes of the text
/// `input`, once its query has been cleared and set from the pairs `params`
/// through `Url::query_pairs_mut`; `None` where the parser reports an error.
pub uninterp spec fn url_with_query(input: Seq<char>, params: Seq<(Seq<char>, Seq<char>)>) -> Option<
    Seq<char>,
>;

/// A byte that the form encoding leaves as it is: `*`, `-`, `.`, `_`, a
/// digit or an ASCII letter.
pub open spec fn form_byte_kept(b: u8) -> bool {
    b == 0x2a || b == 0x2d || b == 0x2e || b == 0x5f || (0x30 <= b && b <= 0x39) || (0x41 <= b
        && b <= 0x5a) || (0x61 <= b && b <= 0x7a)
}

/// The digit of base sixteen that stands for `n`, with capital letters.
pub open spec fn hex_digit(n: int) -> char {
    if n < 10 {
        ((0x30 + n) as u8) as char
    } else {
        ((0x37 + n) as u8) as char
    }
}

/// The form encoding of one byte: itself where it is kept, `+` for a space,
/// and `%` with its two digits of base sixteen for any other.
pub open spec fn form_byte(b: u8) -> Seq<char> {
    if form_byte_kept(b) {
        seq![b as char]
    } else if b == 0x20 {
        seq!['+']
    } else {
        seq!['%', hex_digit(b as int / 16), hex_digit(b as int % 16)]
    }
}

/// The form encoding of a sequence of bytes: that of each byte, in order.
pub open spec fn form_bytes(bytes: Seq<u8>) -> Seq<char>
    decreases bytes.len(),
{
    if bytes.len() == 0 {
        Seq::empty()
    } else {
        form_bytes(bytes.drop_last()) + form_byte(bytes.last())
    }
}

/// The form encoding of a name or a value: that of its bytes in UTF-8.
pub open spec fn form_component(text: Seq<char>) -> Seq<char> {
    form_bytes(encode_utf8(text))
}

/// The form encoding of a pair: the name, `=`, and the value.
pub open spec fn form_pair(pair: (Seq<char>, Seq<char>)) -> Seq<char> {
    form_component(pair.0) + seq!['='] + form_component(pair.1)
}

/// The `application/x-www-form-urlencoded` form of a list of pairs: the
/// pairs in order, with `&` between them.
pub open spec fn form_urlencoded(pairs: Seq<(Seq<char>, Seq<char>)>) -> Seq<char>
    decreases pairs.len(),
{
    if pairs.len() == 0 {
        Seq::empty()
    } else if pairs.len() == 1 {
        form_pair(pairs[0])
    } else {
        form_urlencoded(pairs.drop_last()) + seq!['&'] + form_pair(pairs.last())
    }
}

/// Every character of `text` is one that the form encoding keeps.
pub open spec fn form_plain(text: Seq<char>) -> bool {
    &&& is_ascii_chars(text)
    &&& forall|i: int| 0 <= i < text.len() ==> form_byte_kept((#[trigger] text[i]) as u8)
}

/// The form encoding of bytes that are all kept is these bytes as
/// characters.
pub proof fn lemma_form_bytes_kept(bytes: Seq<u8>)
    requires
        forall|i: int| 0 <= i < bytes.len() ==> form_byte_kept(#[trigger] bytes[i]),
    ensures
        form_bytes(bytes) == Seq::new(bytes.len(), |i: int| bytes[i] as char),
    decreases bytes.len(),
{
    if bytes.len() > 0 {
        let front = bytes.drop_last();
        lemma_form_bytes_kept(front);
        assert(form_bytes(bytes) =~= Seq::new(bytes.len(), |i: int| bytes[i] as char));
    } else {
        assert(form_bytes(bytes) =~= Seq::new(bytes.len(), |i: int| bytes[i] as char));
    }
}

/// The form encoding leaves a text as it is where every character is one
/// that it keeps.
pub proof fn lemma_form_component_plain(text: Seq<char>)
    requires
        form_plain(text),
    ensures
        form_component(text) == text,
{
    let bytes = encode_utf8(text);
    is_ascii_chars_encode_utf8(text);
    assert forall|i: int| 0 <= i < bytes.len() implies form_byte_kept(#[trigger] bytes[i]) by {
        assert(text[i] as u8 == bytes[i]);
    }
    lemma_form_bytes_kept(bytes);
    assert forall|i: int| 0 <= i < text.len() implies bytes[i] as char == #[trigger] text[i] by {
        assert(text[i] as u8 == bytes[i]);
        char_u32_cast(text[i], text[i] as u32);
    }
    assert(form_component(text) =~= text);
}

/// Calls `url::Url::parse` on `input`, then sets the query of the URL from
/// `params` alone, with `query_pairs_mut`, `clear` and `extend_pairs`, and
/// takes the URL's serialization. A query that `input` holds is dropped, a
/// fragment is kept. Trusted: on an input that is small enough the calls
/// return, and what comes out is what [`url_with_query`] names.
#[verifier::external_body]
pub(crate) fn parse_url_with_query(input: &str, params: &Vec<(String, String)>) -> (r: Option<
    String,
>)
    requires
        url_input_fits(input@, pairs_view(params@)),
    ensures
        match r {
            Some(url) => url_with_query(input@, pairs_view(params@)) == Some(url@),
            None => url_with_query(input@, pairs_view(params@)) is None,
        },
{
    match Url::parse(input) {
        Ok(mut url) => {
            url.query_pairs_mut().clear().extend_pairs(params.iter());
            Some(url.into())
        },
        Err(_) => None,
    }
}

/// Feeds `pairs` to a `url::form_urlencoded::Serializer` that writes to a new
/// string. Trusted: the string is the form of the pairs as
/// [`form_urlencoded`] states it: each name and value with the bytes of its
/// UTF-8 encoding kept, turned into `+` or percent-encoded, `=` between
/// name and value, and `&` between pairs.
#[verifier::external_body]
pub(crate) fn form_encode(pairs: &Vec<(String, String)>) -> (r: String)
    ensures
        r@ == form_urlencoded(pairs_view(pairs@)),
{
    url::form_urlencoded::Serializer::new(String::new()).extend_pairs(pairs.iter()).finish()
}

} // verus!
