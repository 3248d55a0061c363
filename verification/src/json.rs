//! JSON documents as the decoders read them.
//!
//! Parsing is done by the `rustc_serialize` crate. Its tree is copied into
//! [`JsonValue`], a type that Verus can look into, and everything that reads
//! a document works on that type.

use vstd::prelude::*;
use vstd::string::StringSliceAdditionalSpecFns;
use vstd::utf8::{decode_utf8, encode_utf8, encode_utf8_decode_utf8, valid_utf8};
use rustc_serialize::json::{Json, ParserError};
use crate::etcd_error::EtcdError;
use crate::text::str_eq;

verus! {

/// The mathematical model of a JSON document.
pub enum JsonModel {
    Null,
    Boolean(bool),
    /// An integer written with a minus sign.
    I64(i64),
    /// An integer written without a sign.
    U64(u64),
    /// A number written with a fraction or an exponent. Its value is not
    /// part of the model: no decoder reads it.
    Float,
    String(Seq<char>),
    Array(Seq<JsonModel>),
    /// The members of an object, each a name and a value.
    Object(Seq<(Seq<char>, JsonModel)>),
}

/// The value of the first member of `entries` named `key`.
pub open spec fn lookup(entries: Seq<(Seq<char>, JsonModel)>, key: Seq<char>) -> Option<JsonModel>
    decreases entries.len(),
{
    if entries.len() == 0 {
        None
    } else if entries[0].0 == key {
        Some(entries[0].1)
    } else {
        lookup(entries.drop_first(), key)
    }
}

impl JsonModel {
    /// The text of a string, `None` for any other document.
    pub open spec fn as_string(self) -> Option<Seq<char>> {
        match self {
            JsonModel::String(s) => Some(s),
            _ => None,
        }
    }

    /// The value of an integer that fits in 64 bits with a sign, `None` for
    /// any other document.
    pub open spec fn as_i64(self) -> Option<i64> {
        match self {
            JsonModel::I64(n) => Some(n),
            JsonModel::U64(n) => if n <= i64::MAX {
                Some(n as i64)
            } else {
                None
            },
            _ => None,
        }
    }

    /// The value of a boolean, `None` for any other document.
    pub open spec fn as_boolean(self) -> Option<bool> {
        match self {
            JsonModel::Boolean(b) => Some(b),
            _ => None,
        }
    }

    /// The items of an array, `None` for any other document.
    pub open spec fn as_array(self) -> Option<Seq<JsonModel>> {
        match self {
            JsonModel::Array(items) => Some(items),
            _ => None,
        }
    }

    /// The members of an object, `None` for any other document.
    pub open spec fn as_object(self) -> Option<Seq<(Seq<char>, JsonModel)>> {
        match self {
            JsonModel::Object(entries) => Some(entries),
            _ => None,
        }
    }
}

/// A value found by `lookup` lies inside the members it was found in.
pub proof fn lemma_lookup_is_member(entries: Seq<(Seq<char>, JsonModel)>, key: Seq<char>)
    ensures
        lookup(entries, key) matches Some(v) ==> exists|i: int|
            0 <= i < entries.len() && entries[i].0 == key && #[trigger] entries[i].1 == v,
        lookup(entries, key) is None ==> forall|i: int|
            0 <= i < entries.len() ==> (#[trigger] entries[i]).0 != key,
    decreases entries.len(),
{
    if entries.len() > 0 && entries[0].0 != key {
        let rest = entries.drop_first();
        lemma_lookup_is_member(rest, key);
        if lookup(rest, key) is Some {
            let v = lookup(rest, key)->Some_0;
            let i = choose|i: int| 0 <= i < rest.len() && rest[i].0 == key && #[trigger] rest[i].1 == v;
            assert(entries[i + 1].0 == key && entries[i + 1].1 == v);
        } else {
            assert forall|i: int| 0 <= i < entries.len() implies (#[trigger] entries[i]).0
                != key by {
                if i > 0 {
                    assert(rest[i - 1].0 != key);
                }
            }
        }
    }
}

/// A value found by `lookup` is structurally smaller than the members it was
/// found in.
pub proof fn lemma_lookup_decreases(entries: Seq<(Seq<char>, JsonModel)>, key: Seq<char>)
    ensures
        lookup(entries, key) matches Some(v) ==> decreases_to!(entries => v),
{
    lemma_lookup_is_member(entries, key);
}

/// The documents that a list of values holds, in order.
pub open spec fn json_models(items: Seq<JsonValue>) -> Seq<JsonModel> {
    Seq::new(items.len(), |i: int| items[i]@)
}

/// The members of a JSON object, in the order in which they are held.
#[derive(Debug, PartialEq)]
pub struct JsonObject {
    pub entries: Vec<(String, JsonValue)>,
}

/// A JSON document.
#[derive(Debug, PartialEq)]
pub enum JsonValue {
    Null,
    Boolean(bool),
    /// An integer written with a minus sign.
    I64(i64),
    /// An integer written without a sign.
    U64(u64),
    /// A number written with a fraction or an exponent. Its value is not
    /// kept: no decoder reads it.
    Float,
    String(String),
    Array(Vec<JsonValue>),
    Object(JsonObject),
}

impl JsonObject {
    /// The members as a sequence of names and modelled values.
    pub open spec fn model(&self) -> Seq<(Seq<char>, JsonModel)>
        decreases self,
    {
        Seq::new(
            self.entries.len() as nat,
            |i: int|
                if 0 <= i < self.entries.len() {
                    (self.entries[i].0@, self.entries[i].1.model())
                } else {
                    (Seq::empty(), JsonModel::Null)
                },
        )
    }
}

impl JsonValue {
    /// The document that this value holds.
    pub open spec fn model(&self) -> JsonModel
        decreases self,
    {
        match self {
            JsonValue::Null => JsonModel::Null,
            JsonValue::Boolean(b) => JsonModel::Boolean(*b),
            JsonValue::I64(n) => JsonModel::I64(*n),
            JsonValue::U64(n) => JsonModel::U64(*n),
            JsonValue::Float => JsonModel::Float,
            JsonValue::String(s) => JsonModel::String(s@),
            JsonValue::Array(items) => JsonModel::Array(
                Seq::new(
                    items.len() as nat,
                    |i: int|
                        if 0 <= i < items.len() {
                            items[i].model()
                        } else {
                            JsonModel::Null
                        },
                ),
            ),
            JsonValue::Object(object) => JsonModel::Object(object.model()),
        }
    }
}

impl View for JsonObject {
    type V = Seq<(Seq<char>, JsonModel)>;

    open spec fn view(&self) -> Seq<(Seq<char>, JsonModel)> {
        self.model()
    }
}

impl View for JsonValue {
    type V = JsonModel;

    open spec fn view(&self) -> JsonModel {
        self.model()
    }
}

impl JsonObject {
    /// The value of the first member named `key`.
    pub fn get(&self, key: &str) -> (r: Option<&JsonValue>)
        ensures
            match r {
                Some(v) => lookup(self@, key@) == Some(v@),
                None => lookup(self@, key@) is None,
            },
    {
        let mut i: usize = 0;
        assert(self@.skip(0) =~= self@);
        while i < self.entries.len()
            invariant
                i <= self.entries.len(),
                lookup(self@, key@) == lookup(self@.skip(i as int), key@),
            decreases self.entries.len() - i,
        {
            if str_eq(self.entries[i].0.as_str(), key) {
                assert(self@.skip(i as int)[0] == self@[i as int]);
                return Some(&self.entries[i].1);
            }
            assert(self@.skip(i as int)[0] == self@[i as int]);
            assert(self@.skip(i as int).drop_first() =~= self@.skip(i as int + 1));
            i += 1;
        }
        None
    }
}

impl JsonValue {
    /// The text of a string, `None` for any other document.
    pub fn as_string(&self) -> (r: Option<&String>)
        ensures
            match r {
                Some(s) => self@.as_string() == Some(s@),
                None => self@.as_string() is None,
            },
    {
        match self {
            JsonValue::String(s) => Some(s),
            _ => None,
        }
    }

    /// The value of an integer that fits in 64 bits with a sign, `None` for
    /// any other document.
    pub fn as_i64(&self) -> (r: Option<i64>)
        ensures
            r == self@.as_i64(),
    {
        match self {
            JsonValue::I64(n) => Some(*n),
            JsonValue::U64(n) => if *n <= 0x7fff_ffff_ffff_ffff {
                Some(*n as i64)
            } else {
                None
            },
            _ => None,
        }
    }

    /// The value of a boolean, `None` for any other document.
    pub fn as_boolean(&self) -> (r: Option<bool>)
        ensures
            r == self@.as_boolean(),
    {
        match self {
            JsonValue::Boolean(b) => Some(*b),
            _ => None,
        }
    }

    /// The items of an array, `None` for any other document.
    pub fn as_array(&self) -> (r: Option<&Vec<JsonValue>>)
        ensures
            match r {
                Some(items) => self@ == JsonModel::Array(json_models(items@)),
                None => self@.as_array() is None,
            },
    {
        match self {
            JsonValue::Array(items) => {
                assert(self@->Array_0 =~= json_models(items@));
                Some(items)
            },
            _ => None,
        }
    }

    /// The members of an object, `None` for any other document.
    pub fn as_object(&self) -> (r: Option<&JsonObject>)
        ensures
            match r {
                Some(object) => self@.as_object() == Some(object@),
                None => self@.as_object() is None,
            },
    {
        match self {
            JsonValue::Object(object) => Some(object),
            _ => None,
        }
    }
}

/// Where a scan of a JSON text stands.
pub enum ScanMode {
    /// Between tokens, or inside a token that is no string.
    Outside,
    /// Inside a string.
    InString,
    /// Inside a string, behind a backslash.
    Escaped,
    /// Behind the closing quote of a string, with only white space since.
    AfterString,
    /// Behind an `e` or `E` outside a string.
    AfterE,
    /// Behind an `e` or `E`, a sign if there is one, and the digits that
    /// follow.
    InExponent,
    /// Behind a comma outside a string, with only white space since.
    AfterComma,
}

/// What a scan of a JSON text has counted so far.
pub struct Scan {
    pub mode: ScanMode,
    /// The brackets and braces that are open.
    pub depth: nat,
    /// The largest `depth` so far.
    pub deepest: nat,
    /// The bytes of the string that the scan is in or has just left.
    pub token: nat,
    /// The bytes of the longest string so far that a colon followed.
    pub longest_name: nat,
    /// The digits of the exponent that the scan is in.
    pub digits: nat,
    /// The digits of the longest exponent so far.
    pub longest_exponent: nat,
    /// Whether a comma outside a string was followed by a closing brace,
    /// with only white space between.
    pub comma_before_brace: bool,
}

/// `b` is one of the ten decimal digits.
pub open spec fn is_digit_byte(b: u8) -> bool {
    0x30 <= b && b <= 0x39
}

/// The larger of two numbers.
pub open spec fn larger(a: nat, b: nat) -> nat {
    if a > b {
        a
    } else {
        b
    }
}

/// The scan of a text outside a string meets `b`: a quote opens a string, a
/// bracket or brace opens or closes a level, an `e` or `E` may open an
/// exponent, and a comma is remembered.
pub open spec fn scan_outside(s: Scan, b: u8) -> Scan {
    if b == 0x22 {
        Scan { mode: ScanMode::InString, token: 0, ..s }
    } else if b == 0x5b || b == 0x7b {
        Scan {
            mode: ScanMode::Outside,
            depth: s.depth + 1,
            deepest: larger(s.deepest, s.depth + 1),
            ..s
        }
    } else if b == 0x5d || b == 0x7d {
        Scan {
            mode: ScanMode::Outside,
            depth: if s.depth > 0 {
                (s.depth - 1) as nat
            } else {
                0
            },
            ..s
        }
    } else if b == 0x45 || b == 0x65 {
        Scan { mode: ScanMode::AfterE, digits: 0, ..s }
    } else if b == 0x2c {
        Scan { mode: ScanMode::AfterComma, ..s }
    } else {
        Scan { mode: ScanMode::Outside, ..s }
    }
}

/// `b` is one of the four bytes that the parser skips as white space.
pub open spec fn is_space_byte(b: u8) -> bool {
    b == 0x20 || b == 0x09 || b == 0x0a || b == 0x0d
}

/// The scan of a text behind an `e` or `E` meets the digit `b`.
pub open spec fn scan_digit(s: Scan) -> Scan {
    Scan {
        mode: ScanMode::InExponent,
        digits: s.digits + 1,
        longest_exponent: larger(s.longest_exponent, s.digits + 1),
        ..s
    }
}

/// The scan of a text meets `b`. A quote opens a string, and the next quote
/// that no backslash precedes closes it; a string that only white space
/// parts from a colon is a member name. The digits that follow an `e` or
/// `E` outside a string, and a sign if there is one, are an exponent. A
/// closing brace that only white space parts from a comma is noted.
pub open spec fn scan_byte(s: Scan, b: u8) -> Scan {
    match s.mode {
        ScanMode::Outside => scan_outside(s, b),
        ScanMode::InString => if b == 0x22 {
            Scan { mode: ScanMode::AfterString, ..s }
        } else if b == 0x5c {
            Scan { mode: ScanMode::Escaped, token: s.token + 1, ..s }
        } else {
            Scan { token: s.token + 1, ..s }
        },
        ScanMode::Escaped => Scan { mode: ScanMode::InString, token: s.token + 1, ..s },
        ScanMode::AfterString => if is_space_byte(b) {
            s
        } else if b == 0x3a {
            Scan { mode: ScanMode::Outside, longest_name: larger(s.longest_name, s.token), ..s }
        } else {
            scan_outside(s, b)
        },
        ScanMode::AfterE => if b == 0x2b || b == 0x2d {
            Scan { mode: ScanMode::InExponent, ..s }
        } else if is_digit_byte(b) {
            scan_digit(s)
        } else {
            scan_outside(s, b)
        },
        ScanMode::InExponent => if is_digit_byte(b) {
            scan_digit(s)
        } else {
            scan_outside(s, b)
        },
        ScanMode::AfterComma => if is_space_byte(b) {
            s
        } else if b == 0x7d {
            scan_outside(Scan { comma_before_brace: true, ..s }, b)
        } else {
            scan_outside(s, b)
        },
    }
}

/// The scan of all of `bytes`.
pub open spec fn scan(bytes: Seq<u8>) -> Scan
    decreases bytes.len(),
{
    if bytes.len() == 0 {
        Scan {
            mode: ScanMode::Outside,
            depth: 0,
            deepest: 0,
            token: 0,
            longest_name: 0,
            digits: 0,
            longest_exponent: 0,
            comma_before_brace: false,
        }
    } else {
        scan_byte(scan(bytes.drop_last()), bytes.last())
    }
}

/// The deepest nesting of arrays and objects that the parser is handed.
///
/// The parser builds its tree by recursion, one level of calls for each
/// level of nesting, as do the copy of the tree and the decoders. A level
/// takes about a kilobyte of stack in the parser, so that a thread with the
/// default stack of 2 MiB overflows between two and three thousand levels.
/// The figure keeps the recursion within a quarter of that stack; a listing
/// of directories may be 255 directories deep.
pub const MAX_JSON_DEPTH: usize = 512;

/// The most bytes that the member names along a path of the document may
/// take together: the parser keeps them in one buffer, and the place and
/// the length of each in 16 bits.
pub const MAX_JSON_NAMES: usize = 0xffff;

/// The most digits of an exponent that the parser is handed: it adds them
/// up in a machine word without a check, and then narrows the sum to 32
/// bits.
pub const MAX_JSON_EXPONENT: usize = 9;

/// The text is one that the parser can be handed: its length fits in 32
/// bits, it nests at most `MAX_JSON_DEPTH` deep, its deepest nesting times
/// its longest member name is at most `MAX_JSON_NAMES` bytes, no exponent
/// has more than `MAX_JSON_EXPONENT` digits, and no comma outside a string
/// is followed by a closing brace with only white space between.
///
/// The parser counts the items of an array in 32 bits. The product bounds
/// the bytes of the member names along any path of the document. On a
/// closing brace behind a comma inside a nested object the parser loses
/// track of the member it is in, and may then stop with a panic; a text of
/// that shape is never valid JSON.
pub open spec fn within_parser_limits(text: Seq<char>) -> bool {
    let bytes = encode_utf8(text);
    &&& bytes.len() <= u32::MAX
    &&& scan(bytes).deepest <= MAX_JSON_DEPTH
    &&& scan(bytes).deepest * scan(bytes).longest_name <= MAX_JSON_NAMES
    &&& scan(bytes).longest_exponent <= MAX_JSON_EXPONENT
    &&& !scan(bytes).comma_before_brace
}

#[derive(Clone, Copy, PartialEq, Eq, Structural)]
enum Mode {
    Outside,
    InString,
    Escaped,
    AfterString,
    AfterE,
    InExponent,
    AfterComma,
}

impl Mode {
    spec fn model(self) -> ScanMode {
        match self {
            Mode::Outside => ScanMode::Outside,
            Mode::InString => ScanMode::InString,
            Mode::Escaped => ScanMode::Escaped,
            Mode::AfterString => ScanMode::AfterString,
            Mode::AfterE => ScanMode::AfterE,
            Mode::InExponent => ScanMode::InExponent,
            Mode::AfterComma => ScanMode::AfterComma,
        }
    }
}

/// Tells whether a text is within the limits of the parser.
pub fn text_within_parser_limits(text: &str) -> (r: bool)
    ensures
        r == within_parser_limits(text@),
{
    let bytes = text.as_bytes();
    let mut mode = Mode::Outside;
    let mut depth: usize = 0;
    let mut deepest: usize = 0;
    let mut token: usize = 0;
    let mut longest_name: usize = 0;
    let mut digits: usize = 0;
    let mut longest_exponent: usize = 0;
    let mut comma_before_brace = false;
    let mut i: usize = 0;
    assert(bytes@.take(0) =~= Seq::<u8>::empty());
    while i < bytes.len()
        invariant
            i <= bytes.len(),
            depth <= i,
            deepest <= i,
            token <= i,
            longest_name <= i,
            digits <= i,
            longest_exponent <= i,
            scan(bytes@.take(i as int)) == (Scan {
                mode: mode.model(),
                depth: depth as nat,
                deepest: deepest as nat,
                token: token as nat,
                longest_name: longest_name as nat,
                digits: digits as nat,
                longest_exponent: longest_exponent as nat,
                comma_before_brace,
            }),
        decreases bytes.len() - i,
    {
        let b = bytes[i];
        assert(bytes@.take(i as int + 1).drop_last() =~= bytes@.take(i as int));
        assert(bytes@.take(i as int + 1).last() == b);
        let space = b == 0x20 || b == 0x09 || b == 0x0a || b == 0x0d;
        let digit = 0x30 <= b && b <= 0x39;
        if mode == Mode::InString {
            if b == 0x22 {
                mode = Mode::AfterString;
            } else {
                if b == 0x5c {
                    mode = Mode::Escaped;
                }
                token = token + 1;
            }
        } else if mode == Mode::Escaped {
            mode = Mode::InString;
            token = token + 1;
        } else if (mode == Mode::AfterString || mode == Mode::AfterComma) && space {
        } else if mode == Mode::AfterString && b == 0x3a {
            mode = Mode::Outside;
            if token > longest_name {
                longest_name = token;
            }
        } else if mode == Mode::AfterE && (b == 0x2b || b == 0x2d) {
            mode = Mode::InExponent;
        } else if (mode == Mode::AfterE || mode == Mode::InExponent) && digit {
            mode = Mode::InExponent;
            digits = digits + 1;
            if digits > longest_exponent {
                longest_exponent = digits;
            }
        } else if b == 0x22 {
            mode = Mode::InString;
            token = 0;
        } else if b == 0x5b || b == 0x7b {
            mode = Mode::Outside;
            depth = depth + 1;
            if depth > deepest {
                deepest = depth;
            }
        } else if b == 0x5d || b == 0x7d {
            if mode == Mode::AfterComma && b == 0x7d {
                comma_before_brace = true;
            }
            mode = Mode::Outside;
            if depth > 0 {
                depth = depth - 1;
            }
        } else if b == 0x45 || b == 0x65 {
            mode = Mode::AfterE;
            digits = 0;
        } else if b == 0x2c {
            mode = Mode::AfterComma;
        } else {
            mode = Mode::Outside;
        }
        i += 1;
    }
    assert(bytes@.take(i as int) =~= bytes@);
    if bytes.len() > 0xffff_ffff || deepest > MAX_JSON_DEPTH || longest_exponent
        > MAX_JSON_EXPONENT || comma_before_brace {
        return false;
    }
    if deepest == 0 {
        assert(deepest * longest_name == 0) by (nonlinear_arith)
            requires
                deepest == 0,
        ;
        return true;
    }
    if longest_name > MAX_JSON_NAMES {
        assert(deepest * longest_name > MAX_JSON_NAMES) by (nonlinear_arith)
            requires
                longest_name > MAX_JSON_NAMES,
                deepest >= 1,
        ;
        return false;
    }
    assert(deepest * longest_name <= 0xffff_ffff * 0xffff) by (nonlinear_arith)
        requires
            deepest <= 0xffff_ffff,
            longest_name <= 0xffff,
    ;
    (deepest as u64) * (longest_name as u64) <= (MAX_JSON_NAMES as u64)
}

/// `rustc_serialize::json::Json`, the tree that the parser builds. Nothing
/// is known of a value of it but what [`json_tree`] names.
#[verifier::external_type_specification]
#[verifier::external_body]
pub struct ExJson(Json);

/// `rustc_serialize::json::ParserError`, the parser's error.
#[verifier::external_type_specification]
#[verifier::external_body]
pub struct ExParserError(ParserError);

/// The document that `rustc_serialize::json::Json::from_str` builds from
/// `text`, or `None` where it reports an error. The value of a float, which
/// the parser computes in floating point, is no part of the document.
pub uninterp spec fn parsed_json(text: Seq<char>) -> Option<JsonModel>;

/// The document that a tree of the parser holds: each variant with its
/// field, but a float without its value, and the members of an object in
/// the order in which its map yields them, which is ascending by name.
pub uninterp spec fn json_tree(tree: Json) -> JsonModel;

/// Calls `rustc_serialize::json::Json::from_str`. Trusted: on a text that
/// `within_parser_limits` admits the call returns: the bytes of the member
/// names, the count of the array items and the digits of the exponents are
/// where the parser computes without a check, and a closing brace behind a
/// comma is where it loses track of its place. It succeeds exactly on the
/// texts for which [`parsed_json`] names a document, and the tree it returns
/// holds that document.
#[verifier::external_body]
fn parse_tree(text: &str) -> (r: Result<Json, ParserError>)
    requires
        within_parser_limits(text@),
    ensures
        r is Ok <==> parsed_json(text@) is Some,
        r matches Ok(tree) ==> parsed_json(text@) == Some(json_tree(tree)),
{
    Json::from_str(text)
}

/// Copies a tree of `rustc_serialize::json::Json` into a [`JsonValue`],
/// variant by variant; the value of a float is left behind. Trusted: the
/// copy holds the document that the tree holds.
#[verifier::external_body]
fn import_tree(tree: &Json) -> (r: JsonValue)
    ensures
        r@ == json_tree(*tree),
{
    match tree {
        Json::Null => JsonValue::Null,
        Json::Boolean(b) => JsonValue::Boolean(*b),
        Json::I64(n) => JsonValue::I64(*n),
        Json::U64(n) => JsonValue::U64(*n),
        Json::F64(_) => JsonValue::Float,
        Json::String(s) => JsonValue::String(s.clone()),
        Json::Array(a) => JsonValue::Array(a.iter().map(import_tree).collect()),
        Json::Object(o) => JsonValue::Object(
            JsonObject { entries: o.iter().map(|(k, v)| (k.clone(), import_tree(v))).collect() },
        ),
    }
}

/// The document that a text stands for: what the parser builds from it,
/// where the text is within the limits of the parser and the parser accepts
/// it.
pub open spec fn document_of(text: Seq<char>) -> Option<JsonModel> {
    if within_parser_limits(text) {
        parsed_json(text)
    } else {
        None
    }
}

/// The text that `bytes` are the UTF-8 encoding of.
pub open spec fn text_of(bytes: Seq<u8>) -> Option<Seq<char>> {
    if valid_utf8(bytes) {
        Some(decode_utf8(bytes))
    } else {
        None
    }
}

/// The document that a body stands for: that of its text, where the body
/// is valid UTF-8.
pub open spec fn document_of_bytes(bytes: Seq<u8>) -> Option<JsonModel> {
    match text_of(bytes) {
        Some(text) => document_of(text),
        None => None,
    }
}

/// Calls `core::str::from_utf8`. Trusted: the call succeeds exactly on
/// valid UTF-8, and the string that it returns is made of these bytes.
#[verifier::external_body]
fn str_from_utf8(bytes: &[u8]) -> (r: Option<&str>)
    ensures
        r is Some <==> valid_utf8(bytes@),
        r matches Some(text) ==> text.spec_bytes() == bytes@,
{
    core::str::from_utf8(bytes).ok()
}

impl JsonValue {
    /// Parses a body: bytes that have to be the UTF-8 encoding of a JSON
    /// text. Bytes that are not valid UTF-8 give `DecodeFailure`, as does a
    /// text that [`JsonValue::parse`] does not take.
    pub fn from_bytes(bytes: &[u8]) -> (r: Result<JsonValue, EtcdError>)
        ensures
            match document_of_bytes(bytes@) {
                Some(document) => r matches Ok(value) && value@ == document,
                None => r matches Err(e) && e == EtcdError::DecodeFailure,
            },
    {
        match str_from_utf8(bytes) {
            Some(text) => {
                proof {
                    encode_utf8_decode_utf8(text@);
                }
                JsonValue::parse(text)
            },
            None => Err(EtcdError::DecodeFailure),
        }
    }

    /// Parses a JSON text. A text that the parser rejects gives
    /// `DecodeFailure`, and so does a text beyond the limits of the parser,
    /// valid JSON or not.
    pub fn parse(text: &str) -> (r: Result<JsonValue, EtcdError>)
        ensures
            match document_of(text@) {
                Some(document) => r matches Ok(value) && value@ == document,
                None => r matches Err(e) && e == EtcdError::DecodeFailure,
            },
    {
        if !text_within_parser_limits(text) {
            return Err(EtcdError::DecodeFailure);
        }
        match parse_tree(text) {
            Ok(tree) => Ok(import_tree(&tree)),
            Err(e) => Err(EtcdError::from(e)),
        }
    }
}

} // verus!
