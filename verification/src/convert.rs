//! Turning the text of a token into a value of a declared kind.
use crate::arg::{Datum, Double, Single, Type, Value, ValueView};
use crate::text::{integer_reading, integer_text, lemma_integer_text_reads_back};
use vstd::prelude::*;
use vstd::string::*;

verus! {

/// The description that the standard library gives of its failure to read
/// `text` at `kind`. It is a function of the kind and the text alone; what
/// it says is not stated here.
pub uninterp spec fn conversion_failure_text(kind: Type, text: Seq<char>) -> Seq<char>;

/// The number that a text denotes at an integer kind: the integer it
/// denotes in decimal notation, if that lies in the range of the kind.
pub open spec fn typed_reading(kind: Type, text: Seq<char>) -> Option<int> {
    match integer_reading(text, kind.is_signed()) {
        Some(n) => if kind.min_value() <= n <= kind.max_value() {
            Some(n)
        } else {
            None
        },
        None => None,
    }
}

/// The truth value that a text denotes: only `true` and `false` denote one.
pub open spec fn truth_reading(text: Seq<char>) -> Option<bool> {
    if text == "true"@ {
        Some(true)
    } else if text == "false"@ {
        Some(false)
    } else {
        None
    }
}

/// The character that a text denotes: the text must consist of it alone.
pub open spec fn symbol_reading(text: Seq<char>) -> Option<char> {
    if text.len() == 1 {
        Some(text[0])
    } else {
        None
    }
}

/// What a text denotes at a kind that is not real, if anything.
pub open spec fn plain_reading(kind: Type, text: Seq<char>) -> Option<Datum> {
    if kind.is_integer() {
        match typed_reading(kind, text) {
            Some(n) => Some(Datum::Number(n)),
            None => None,
        }
    } else if kind == Type::ReadAsBool {
        match truth_reading(text) {
            Some(b) => Some(Datum::Truth(b)),
            None => None,
        }
    } else if kind == Type::ReadAsChar {
        match symbol_reading(text) {
            Some(c) => Some(Datum::Symbol(c)),
            None => None,
        }
    } else if kind == Type::ReadAsString {
        Some(Datum::Text(text))
    } else {
        None
    }
}

/// How a token reads as a real number, at either precision: the number, or
/// the description of the failure to read it. The engine does no arithmetic
/// on real numbers; whoever hands it the tokens hands it their readings.
#[derive(Debug)]
pub struct RealReading {
    pub single: Result<Single, String>,
    pub double: Result<Double, String>,
}

/// The mathematical model of a [`RealReading`].
pub struct RealReadingView {
    pub single: Result<ValueView, Seq<char>>,
    pub double: Result<ValueView, Seq<char>>,
}

impl View for RealReading {
    type V = RealReadingView;

    open spec fn view(&self) -> RealReadingView {
        RealReadingView {
            single: match self.single {
                Ok(v) => Ok(v@),
                Err(e) => Err(e@),
            },
            double: match self.double {
                Ok(v) => Ok(v@),
                Err(e) => Err(e@),
            },
        }
    }
}

impl RealReadingView {
    /// Whether each reading that succeeded is a real number of its
    /// precision. The model of every [`RealReading`] is.
    pub open spec fn wf(self) -> bool {
        &&& match self.single {
            Ok(v) => v.kind == Type::ReadAsF32 && v.conforms(),
            Err(_) => true,
        }
        &&& match self.double {
            Ok(v) => v.kind == Type::ReadAsF64 && v.conforms(),
            Err(_) => true,
        }
    }
}

/// The model of a reading that may be absent.
pub open spec fn reading_view(reals: Option<&RealReading>) -> Option<RealReadingView> {
    match reals {
        Some(r) => Some(r@),
        None => None,
    }
}

/// The description of the failure to convert a token at a real kind when no
/// reading of it came with it.
pub open spec fn missing_reading_text() -> Seq<char> {
    "no reading as a real number was supplied"@
}

/// The outcome of converting the text of a token at a kind: the value, or
/// the description of the failure.
pub open spec fn conversion(kind: Type, text: Seq<char>, reals: Option<RealReadingView>) -> Result<
    ValueView,
    Seq<char>,
> {
    if kind == Type::ReadAsF32 {
        match reals {
            Some(r) => r.single,
            None => Err(missing_reading_text()),
        }
    } else if kind == Type::ReadAsF64 {
        match reals {
            Some(r) => r.double,
            None => Err(missing_reading_text()),
        }
    } else {
        match plain_reading(kind, text) {
            Some(datum) => Ok(ValueView { kind, datum }),
            None => Err(conversion_failure_text(kind, text)),
        }
    }
}

/// `str::parse::<u8>`. Claimed of it: it succeeds exactly on an optional `+`
/// followed by one or more decimal digits that denote a number in the range
/// of `u8`, and then returns that number; its failure is described by the
/// text that [`conversion_failure_text`] names.
#[verifier::external_body]
fn parse_u8(text: &str) -> (r: Result<u8, String>)
    ensures
        match r {
            Ok(v) => typed_reading(Type::ReadAsU8, text@) == Some(v as int),
            Err(e) => typed_reading(Type::ReadAsU8, text@) is None
                && e@ == conversion_failure_text(Type::ReadAsU8, text@),
        },
{
    match text.parse::<u8>() {
        Ok(v) => Ok(v),
        Err(e) => Err(e.to_string()),
    }
}

/// `str::parse::<u16>`. Claimed of it: it succeeds exactly on an optional `+`
/// followed by one or more decimal digits that denote a number in the range
/// of `u16`, and then returns that number; its failure is described by the
/// text that [`conversion_failure_text`] names.
#[verifier::external_body]
fn parse_u16(text: &str) -> (r: Result<u16, String>)
    ensures
        match r {
            Ok(v) => typed_reading(Type::ReadAsU16, text@) == Some(v as int),
            Err(e) => typed_reading(Type::ReadAsU16, text@) is None
                && e@ == conversion_failure_text(Type::ReadAsU16, text@),
        },
{
    match text.parse::<u16>() {
        Ok(v) => Ok(v),
        Err(e) => Err(e.to_string()),
    }
}

/// `str::parse::<u32>`. Claimed of it: it succeeds exactly on an optional `+`
/// followed by one or more decimal digits that denote a number in the range
/// of `u32`, and then returns that number; its failure is described by the
/// text that [`conversion_failure_text`] names.
#[verifier::external_body]
fn parse_u32(text: &str) -> (r: Result<u32, String>)
    ensures
        match r {
            Ok(v) => typed_reading(Type::ReadAsU32, text@) == Some(v as int),
            Err(e) => typed_reading(Type::ReadAsU32, text@) is None
                && e@ == conversion_failure_text(Type::ReadAsU32, text@),
        },
{
    match text.parse::<u32>() {
        Ok(v) => Ok(v),
        Err(e) => Err(e.to_string()),
    }
}

/// `str::parse::<u64>`. Claimed of it: it succeeds exactly on an optional `+`
/// followed by one or more decimal digits that denote a number in the range
/// of `u64`, and then returns that number; its failure is described by the
/// text that [`conversion_failure_text`] names.
#[verifier::external_body]
fn parse_u64(text: &str) -> (r: Result<u64, String>)
    ensures
        match r {
            Ok(v) => typed_reading(Type::ReadAsU64, text@) == Some(v as int),
            Err(e) => typed_reading(Type::ReadAsU64, text@) is None
                && e@ == conversion_failure_text(Type::ReadAsU64, text@),
        },
{
    match text.parse::<u64>() {
        Ok(v) => Ok(v),
        Err(e) => Err(e.to_string()),
    }
}

/// `str::parse::<u128>`. Claimed of it: it succeeds exactly on an optional `+`
/// followed by one or more decimal digits that denote a number in the range
/// of `u128`, and then returns that number; its failure is described by the
/// text that [`conversion_failure_text`] names.
#[verifier::external_body]
fn parse_u128(text: &str) -> (r: Result<u128, String>)
    ensures
        match r {
            Ok(v) => typed_reading(Type::ReadAsU128, text@) == Some(v as int),
            Err(e) => typed_reading(Type::ReadAsU128, text@) is None
                && e@ == conversion_failure_text(Type::ReadAsU128, text@),
        },
{
    match text.parse::<u128>() {
        Ok(v) => Ok(v),
        Err(e) => Err(e.to_string()),
    }
}

/// `str::parse::<usize>`. Claimed of it: it succeeds exactly on an optional `+`
/// followed by one or more decimal digits that denote a number in the range
/// of `usize`, and then returns that number; its failure is described by the
/// text that [`conversion_failure_text`] names.
#[verifier::external_body]
fn parse_usize(text: &str) -> (r: Result<usize, String>)
    ensures
        match r {
            Ok(v) => typed_reading(Type::ReadAsUsize, text@) == Some(v as int),
            Err(e) => typed_reading(Type::ReadAsUsize, text@) is None
                && e@ == conversion_failure_text(Type::ReadAsUsize, text@),
        },
{
    match text.parse::<usize>() {
        Ok(v) => Ok(v),
        Err(e) => Err(e.to_string()),
    }
}

/// `str::parse::<i8>`. Claimed of it: it succeeds exactly on an optional `+` or `-`
/// followed by one or more decimal digits that denote a number in the range
/// of `i8`, and then returns that number; its failure is described by the
/// text that [`conversion_failure_text`] names.
#[verifier::external_body]
fn parse_i8(text: &str) -> (r: Result<i8, String>)
    ensures
        match r {
            Ok(v) => typed_reading(Type::ReadAsI8, text@) == Some(v as int),
            Err(e) => typed_reading(Type::ReadAsI8, text@) is None
                && e@ == conversion_failure_text(Type::ReadAsI8, text@),
        },
{
    match text.parse::<i8>() {
        Ok(v) => Ok(v),
        Err(e) => Err(e.to_string()),
    }
}

/// `str::parse::<i16>`. Claimed of it: it succeeds exactly on an optional `+` or `-`
/// followed by one or more decimal digits that denote a number in the range
/// of `i16`, and then returns that number; its failure is described by the
/// text that [`conversion_failure_text`] names.
#[verifier::external_body]
fn parse_i16(text: &str) -> (r: Result<i16, String>)
    ensures
        match r {
            Ok(v) => typed_reading(Type::ReadAsI16, text@) == Some(v as int),
            Err(e) => typed_reading(Type::ReadAsI16, text@) is None
                && e@ == conversion_failure_text(Type::ReadAsI16, text@),
        },
{
    match text.parse::<i16>() {
        Ok(v) => Ok(v),
        Err(e) => Err(e.to_string()),
    }
}

/// `str::parse::<i32>`. Claimed of it: it succeeds exactly on an optional `+` or `-`
/// followed by one or more decimal digits that denote a number in the range
/// of `i32`, and then returns that number; its failure is described by the
/// text that [`conversion_failure_text`] names.
#[verifier::external_body]
fn parse_i32(text: &str) -> (r: Result<i32, String>)
    ensures
        match r {
            Ok(v) => typed_reading(Type::ReadAsI32, text@) == Some(v as int),
            Err(e) => typed_reading(Type::ReadAsI32, text@) is None
                && e@ == conversion_failure_text(Type::ReadAsI32, text@),
        },
{
    match text.parse::<i32>() {
        Ok(v) => Ok(v),
        Err(e) => Err(e.to_string()),
    }
}

/// `str::parse::<i64>`. Claimed of it: it succeeds exactly on an optional `+` or `-`
/// followed by one or more decimal digits that denote a number in the range
/// of `i64`, and then returns that number; its failure is described by the
/// text that [`conversion_failure_text`] names.
#[verifier::external_body]
fn parse_i64(text: &str) -> (r: Result<i64, String>)
    ensures
        match r {
            Ok(v) => typed_reading(Type::ReadAsI64, text@) == Some(v as int),
            Err(e) => typed_reading(Type::ReadAsI64, text@) is None
                && e@ == conversion_failure_text(Type::ReadAsI64, text@),
        },
{
    match text.parse::<i64>() {
        Ok(v) => Ok(v),
        Err(e) => Err(e.to_string()),
    }
}

/// `str::parse::<i128>`. Claimed of it: it succeeds exactly on an optional `+` or `-`
/// followed by one or more decimal digits that denote a number in the range
/// of `i128`, and then returns that number; its failure is described by the
/// text that [`conversion_failure_text`] names.
#[verifier::external_body]
fn parse_i128(text: &str) -> (r: Result<i128, String>)
    ensures
        match r {
            Ok(v) => typed_reading(Type::ReadAsI128, text@) == Some(v as int),
            Err(e) => typed_reading(Type::ReadAsI128, text@) is None
                && e@ == conversion_failure_text(Type::ReadAsI128, text@),
        },
{
    match text.parse::<i128>() {
        Ok(v) => Ok(v),
        Err(e) => Err(e.to_string()),
    }
}

/// `str::parse::<isize>`. Claimed of it: it succeeds exactly on an optional `+` or `-`
/// followed by one or more decimal digits that denote a number in the range
/// of `isize`, and then returns that number; its failure is described by the
/// text that [`conversion_failure_text`] names.
#[verifier::external_body]
fn parse_isize(text: &str) -> (r: Result<isize, String>)
    ensures
        match r {
            Ok(v) => typed_reading(Type::ReadAsIsize, text@) == Some(v as int),
            Err(e) => typed_reading(Type::ReadAsIsize, text@) is None
                && e@ == conversion_failure_text(Type::ReadAsIsize, text@),
        },
{
    match text.parse::<isize>() {
        Ok(v) => Ok(v),
        Err(e) => Err(e.to_string()),
    }
}

/// `str::parse::<bool>`. Claimed of it: it succeeds exactly on the texts
/// `true` and `false`, and then returns the truth value so written; its
/// failure is described by the text that [`conversion_failure_text`] names.
#[verifier::external_body]
fn parse_bool(text: &str) -> (r: Result<bool, String>)
    ensures
        match r {
            Ok(v) => truth_reading(text@) == Some(v),
            Err(e) => truth_reading(text@) is None
                && e@ == conversion_failure_text(Type::ReadAsBool, text@),
        },
{
    match text.parse::<bool>() {
        Ok(v) => Ok(v),
        Err(e) => Err(e.to_string()),
    }
}

/// `str::parse::<char>`. Claimed of it: it succeeds exactly on the texts
/// of one character, and then returns that character; its failure is
/// described by the text that [`conversion_failure_text`] names.
#[verifier::external_body]
fn parse_char(text: &str) -> (r: Result<char, String>)
    ensures
        match r {
            Ok(v) => symbol_reading(text@) == Some(v),
            Err(e) => symbol_reading(text@) is None
                && e@ == conversion_failure_text(Type::ReadAsChar, text@),
        },
{
    match text.parse::<char>() {
        Ok(v) => Ok(v),
        Err(e) => Err(e.to_string()),
    }
}

/// Converts the text of a token into a value of the given kind. At a real
/// kind the value is the reading that came with the token.
pub fn convert(kind: Type, token: &str, reals: Option<&RealReading>) -> (r: Result<Value, String>)
    ensures
        match r {
            Ok(v) => conversion(kind, token@, reading_view(reals)) == Ok::<ValueView, Seq<char>>(
                v@,
            ),
            Err(e) => conversion(kind, token@, reading_view(reals)) == Err::<ValueView, Seq<char>>(
                e@,
            ),
        },
{
    match kind {
        Type::ReadAsU8 => match parse_u8(token) {
            Ok(v) => Ok(Value::U8(v)),
            Err(e) => Err(e),
        },
        Type::ReadAsU16 => match parse_u16(token) {
            Ok(v) => Ok(Value::U16(v)),
            Err(e) => Err(e),
        },
        Type::ReadAsU32 => match parse_u32(token) {
            Ok(v) => Ok(Value::U32(v)),
            Err(e) => Err(e),
        },
        Type::ReadAsU64 => match parse_u64(token) {
            Ok(v) => Ok(Value::U64(v)),
            Err(e) => Err(e),
        },
        Type::ReadAsU128 => match parse_u128(token) {
            Ok(v) => Ok(Value::U128(v)),
            Err(e) => Err(e),
        },
        Type::ReadAsUsize => match parse_usize(token) {
            Ok(v) => Ok(Value::Usize(v)),
            Err(e) => Err(e),
        },
        Type::ReadAsI8 => match parse_i8(token) {
            Ok(v) => Ok(Value::I8(v)),
            Err(e) => Err(e),
        },
        Type::ReadAsI16 => match parse_i16(token) {
            Ok(v) => Ok(Value::I16(v)),
            Err(e) => Err(e),
        },
        Type::ReadAsI32 => match parse_i32(token) {
            Ok(v) => Ok(Value::I32(v)),
            Err(e) => Err(e),
        },
        Type::ReadAsI64 => match parse_i64(token) {
            Ok(v) => Ok(Value::I64(v)),
            Err(e) => Err(e),
        },
        Type::ReadAsI128 => match parse_i128(token) {
            Ok(v) => Ok(Value::I128(v)),
            Err(e) => Err(e),
        },
        Type::ReadAsIsize => match parse_isize(token) {
            Ok(v) => Ok(Value::Isize(v)),
            Err(e) => Err(e),
        },
        Type::ReadAsF32 => match reals {
            Some(reading) => match &reading.single {
                Ok(v) => Ok(Value::F32(v.duplicate())),
                Err(e) => Err(e.clone()),
            },
            None => Err(String::from_str("no reading as a real number was supplied")),
        },
        Type::ReadAsF64 => match reals {
            Some(reading) => match &reading.double {
                Ok(v) => Ok(Value::F64(v.duplicate())),
                Err(e) => Err(e.clone()),
            },
            None => Err(String::from_str("no reading as a real number was supplied")),
        },
        Type::ReadAsBool => match parse_bool(token) {
            Ok(v) => Ok(Value::Bool(v)),
            Err(e) => Err(e),
        },
        Type::ReadAsChar => match parse_char(token) {
            Ok(v) => Ok(Value::Char(v)),
            Err(e) => Err(e),
        },
        Type::ReadAsString => Ok(Value::Str(token.to_owned())),
    }
}

/// A converted value is of the kind asked for, and of the shape and the
/// range of that kind.
pub proof fn lemma_conversion_conforms(
    kind: Type,
    text: Seq<char>,
    reals: Option<RealReadingView>,
)
    requires
        match reals {
            Some(r) => r.wf(),
            None => true,
        },
    ensures
        match conversion(kind, text, reals) {
            Ok(v) => v.kind == kind && v.conforms(),
            Err(_) => true,
        },
{
}

/// The text that denotes a value at its kind: a number in decimal notation,
/// a truth value as `true` or `false`, a character as itself, a text as it
/// is. A real number has no such text here; it is given the empty one.
pub open spec fn canonical_text(value: ValueView) -> Seq<char> {
    match value.datum {
        Datum::Number(n) => integer_text(n),
        Datum::Truth(b) => if b {
            "true"@
        } else {
            "false"@
        },
        Datum::Symbol(c) => seq![c],
        Datum::Text(t) => t,
        Datum::Real { bits, text } => Seq::empty(),
    }
}

/// Converting the text that denotes a value at its kind gives the value
/// back, for every value of a kind that is not real.
pub proof fn lemma_canonical_text_reads_back(value: ValueView, reals: Option<RealReadingView>)
    requires
        value.conforms(),
        !value.kind.is_real(),
    ensures
        conversion(value.kind, canonical_text(value), reals) == Ok::<ValueView, Seq<char>>(value),
{
    match value.datum {
        Datum::Number(n) => {
            lemma_integer_text_reads_back(n, value.kind.is_signed());
        },
        Datum::Truth(b) => {
            reveal_strlit("true");
            reveal_strlit("false");
        },
        Datum::Symbol(c) => {},
        Datum::Text(t) => {},
        Datum::Real { bits, text } => {},
    }
}

} // verus!
