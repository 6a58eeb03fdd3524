use crate::error::{ParseError, ParseFailure};
use crate::text::{integer_text, integer_to_text, natural_to_text};
use vstd::prelude::*;
use vstd::string::*;

verus! {

/// This enum indicates the expected type of the argument value.
#[derive(Clone, Copy, PartialEq, Eq, Structural, Debug)]
pub enum Type {
    /// Value is expected to be `u8`.
    ReadAsU8,
    /// Value is expected to be `u16`.
    ReadAsU16,
    /// Value is expected to be `u32`.
    ReadAsU32,
    /// Value is expected to be `u64`.
    ReadAsU64,
    /// Value is expected to be `u128`.
    ReadAsU128,
    /// Value is expected to be `usize`.
    ReadAsUsize,
    /// Value is expected to be `i8`.
    ReadAsI8,
    /// Value is expected to be `i16`.
    ReadAsI16,
    /// Value is expected to be `i32`.
    ReadAsI32,
    /// Value is expected to be `i64`.
    ReadAsI64,
    /// Value is expected to be `i128`.
    ReadAsI128,
    /// Value is expected to be `isize`.
    ReadAsIsize,
    /// Value is expected to be a single-precision real number.
    ReadAsF32,
    /// Value is expected to be a double-precision real number.
    ReadAsF64,
    /// Value is expected to be `bool`.
    ReadAsBool,
    /// Value is expected to be `char`.
    ReadAsChar,
    /// Value is expected to be `String`.
    ReadAsString,
}

impl Type {
    /// Whether values of this kind are whole numbers.
    pub open spec fn is_integer(self) -> bool {
        match self {
            Type::ReadAsU8
            | Type::ReadAsU16
            | Type::ReadAsU32
            | Type::ReadAsU64
            | Type::ReadAsU128
            | Type::ReadAsUsize
            | Type::ReadAsI8
            | Type::ReadAsI16
            | Type::ReadAsI32
            | Type::ReadAsI64
            | Type::ReadAsI128
            | Type::ReadAsIsize => true,
            _ => false,
        }
    }

    /// Whether values of this kind are whole numbers that may be negative.
    pub open spec fn is_signed(self) -> bool {
        match self {
            Type::ReadAsI8
            | Type::ReadAsI16
            | Type::ReadAsI32
            | Type::ReadAsI64
            | Type::ReadAsI128
            | Type::ReadAsIsize => true,
            _ => false,
        }
    }

    /// Whether values of this kind are real numbers.
    pub open spec fn is_real(self) -> bool {
        self == Type::ReadAsF32 || self == Type::ReadAsF64
    }

    /// The least number of an integer kind, the least bit pattern of a real
    /// kind; zero for the other kinds.
    pub open spec fn min_value(self) -> int {
        match self {
            Type::ReadAsI8 => i8::MIN as int,
            Type::ReadAsI16 => i16::MIN as int,
            Type::ReadAsI32 => i32::MIN as int,
            Type::ReadAsI64 => i64::MIN as int,
            Type::ReadAsI128 => i128::MIN as int,
            Type::ReadAsIsize => isize::MIN as int,
            _ => 0,
        }
    }

    /// The greatest number of an integer kind, the greatest bit pattern of a
    /// real kind; zero for the other kinds.
    pub open spec fn max_value(self) -> int {
        match self {
            Type::ReadAsU8 => u8::MAX as int,
            Type::ReadAsU16 => u16::MAX as int,
            Type::ReadAsU32 => u32::MAX as int,
            Type::ReadAsU64 => u64::MAX as int,
            Type::ReadAsU128 => u128::MAX as int,
            Type::ReadAsUsize => usize::MAX as int,
            Type::ReadAsI8 => i8::MAX as int,
            Type::ReadAsI16 => i16::MAX as int,
            Type::ReadAsI32 => i32::MAX as int,
            Type::ReadAsI64 => i64::MAX as int,
            Type::ReadAsI128 => i128::MAX as int,
            Type::ReadAsIsize => isize::MAX as int,
            Type::ReadAsF32 => u32::MAX as int,
            Type::ReadAsF64 => u64::MAX as int,
            _ => 0,
        }
    }

    /// The name of the kind as it appears in messages.
    pub open spec fn label_text(self) -> Seq<char> {
        match self {
            Type::ReadAsU8 => "u8"@,
            Type::ReadAsU16 => "u16"@,
            Type::ReadAsU32 => "u32"@,
            Type::ReadAsU64 => "u64"@,
            Type::ReadAsU128 => "u128"@,
            Type::ReadAsUsize => "usize"@,
            Type::ReadAsI8 => "i8"@,
            Type::ReadAsI16 => "i16"@,
            Type::ReadAsI32 => "i32"@,
            Type::ReadAsI64 => "i64"@,
            Type::ReadAsI128 => "i128"@,
            Type::ReadAsIsize => "isize"@,
            Type::ReadAsF32 => "f32"@,
            Type::ReadAsF64 => "f64"@,
            Type::ReadAsBool => "bool"@,
            Type::ReadAsChar => "char"@,
            Type::ReadAsString => "String"@,
        }
    }

    /// The name of the kind as it appears in messages.
    pub fn label(&self) -> (r: &'static str)
        ensures
            r@ == self.label_text(),
    {
        match self {
            Type::ReadAsU8 => "u8",
            Type::ReadAsU16 => "u16",
            Type::ReadAsU32 => "u32",
            Type::ReadAsU64 => "u64",
            Type::ReadAsU128 => "u128",
            Type::ReadAsUsize => "usize",
            Type::ReadAsI8 => "i8",
            Type::ReadAsI16 => "i16",
            Type::ReadAsI32 => "i32",
            Type::ReadAsI64 => "i64",
            Type::ReadAsI128 => "i128",
            Type::ReadAsIsize => "isize",
            Type::ReadAsF32 => "f32",
            Type::ReadAsF64 => "f64",
            Type::ReadAsBool => "bool",
            Type::ReadAsChar => "char",
            Type::ReadAsString => "String",
        }
    }
}

/// A single-precision real number as the engine carries it: its IEEE-754 bit
/// pattern, by which it is told apart, and the text it is displayed as.
#[derive(Debug)]
pub struct Single {
    pub bits: u32,
    pub text: String,
}

/// A double-precision real number as the engine carries it: its IEEE-754 bit
/// pattern, by which it is told apart, and the text it is displayed as.
#[derive(Debug)]
pub struct Double {
    pub bits: u64,
    pub text: String,
}

/// A value of one of the kinds an argument can be read as.
#[derive(Debug)]
pub enum Value {
    U8(u8),
    U16(u16),
    U32(u32),
    U64(u64),
    U128(u128),
    Usize(usize),
    I8(i8),
    I16(i16),
    I32(i32),
    I64(i64),
    I128(i128),
    Isize(isize),
    F32(Single),
    F64(Double),
    Bool(bool),
    Char(char),
    Str(String),
}

/// What a value holds, apart from its kind.
pub enum Datum {
    /// A whole number.
    Number(int),
    /// A truth value.
    Truth(bool),
    /// A single character.
    Symbol(char),
    /// A text.
    Text(Seq<char>),
    /// A real number: its bit pattern and the text it is displayed as.
    Real { bits: int, text: Seq<char> },
}

/// The mathematical model of a [`Value`]: its kind and what it holds.
pub struct ValueView {
    pub kind: Type,
    pub datum: Datum,
}

impl ValueView {
    /// Whether what the value holds is of the shape and the range that its
    /// kind allows.
    pub open spec fn conforms(self) -> bool {
        match self.datum {
            Datum::Number(n) => self.kind.is_integer() && self.kind.min_value() <= n
                <= self.kind.max_value(),
            Datum::Truth(_) => self.kind == Type::ReadAsBool,
            Datum::Symbol(_) => self.kind == Type::ReadAsChar,
            Datum::Text(_) => self.kind == Type::ReadAsString,
            Datum::Real { bits, text } => self.kind.is_real() && 0 <= bits
                <= self.kind.max_value(),
        }
    }
}

/// The zero-equivalent value of a kind.
pub open spec fn sample_view(kind: Type) -> ValueView {
    ValueView {
        kind,
        datum: if kind.is_integer() {
            Datum::Number(0)
        } else if kind.is_real() {
            Datum::Real { bits: 0, text: "0.0"@ }
        } else if kind == Type::ReadAsBool {
            Datum::Truth(false)
        } else if kind == Type::ReadAsChar {
            Datum::Symbol('0')
        } else {
            Datum::Text(Seq::empty())
        },
    }
}

impl View for Single {
    type V = ValueView;

    open spec fn view(&self) -> ValueView {
        ValueView {
            kind: Type::ReadAsF32,
            datum: Datum::Real { bits: self.bits as int, text: self.text@ },
        }
    }
}

impl View for Double {
    type V = ValueView;

    open spec fn view(&self) -> ValueView {
        ValueView {
            kind: Type::ReadAsF64,
            datum: Datum::Real { bits: self.bits as int, text: self.text@ },
        }
    }
}

impl View for Value {
    type V = ValueView;

    open spec fn view(&self) -> ValueView {
        match self {
            Value::U8(v) => ValueView { kind: Type::ReadAsU8, datum: Datum::Number(*v as int) },
            Value::U16(v) => ValueView { kind: Type::ReadAsU16, datum: Datum::Number(*v as int) },
            Value::U32(v) => ValueView { kind: Type::ReadAsU32, datum: Datum::Number(*v as int) },
            Value::U64(v) => ValueView { kind: Type::ReadAsU64, datum: Datum::Number(*v as int) },
            Value::U128(v) => ValueView { kind: Type::ReadAsU128, datum: Datum::Number(*v as int) },
            Value::Usize(v) => ValueView {
                kind: Type::ReadAsUsize,
                datum: Datum::Number(*v as int),
            },
            Value::I8(v) => ValueView { kind: Type::ReadAsI8, datum: Datum::Number(*v as int) },
            Value::I16(v) => ValueView { kind: Type::ReadAsI16, datum: Datum::Number(*v as int) },
            Value::I32(v) => ValueView { kind: Type::ReadAsI32, datum: Datum::Number(*v as int) },
            Value::I64(v) => ValueView { kind: Type::ReadAsI64, datum: Datum::Number(*v as int) },
            Value::I128(v) => ValueView { kind: Type::ReadAsI128, datum: Datum::Number(*v as int) },
            Value::Isize(v) => ValueView {
                kind: Type::ReadAsIsize,
                datum: Datum::Number(*v as int),
            },
            Value::F32(v) => v@,
            Value::F64(v) => v@,
            Value::Bool(v) => ValueView { kind: Type::ReadAsBool, datum: Datum::Truth(*v) },
            Value::Char(v) => ValueView { kind: Type::ReadAsChar, datum: Datum::Symbol(*v) },
            Value::Str(v) => ValueView { kind: Type::ReadAsString, datum: Datum::Text(v@) },
        }
    }
}

impl Single {
    /// A copy of the number.
    pub fn duplicate(&self) -> (r: Single)
        ensures
            r@ == self@,
    {
        Single { bits: self.bits, text: self.text.clone() }
    }
}

impl Double {
    /// A copy of the number.
    pub fn duplicate(&self) -> (r: Double)
        ensures
            r@ == self@,
    {
        Double { bits: self.bits, text: self.text.clone() }
    }
}

impl Value {
    /// The kind of the value.
    pub fn kind(&self) -> (k: Type)
        ensures
            k == self@.kind,
    {
        match self {
            Value::U8(_) => Type::ReadAsU8,
            Value::U16(_) => Type::ReadAsU16,
            Value::U32(_) => Type::ReadAsU32,
            Value::U64(_) => Type::ReadAsU64,
            Value::U128(_) => Type::ReadAsU128,
            Value::Usize(_) => Type::ReadAsUsize,
            Value::I8(_) => Type::ReadAsI8,
            Value::I16(_) => Type::ReadAsI16,
            Value::I32(_) => Type::ReadAsI32,
            Value::I64(_) => Type::ReadAsI64,
            Value::I128(_) => Type::ReadAsI128,
            Value::Isize(_) => Type::ReadAsIsize,
            Value::F32(_) => Type::ReadAsF32,
            Value::F64(_) => Type::ReadAsF64,
            Value::Bool(_) => Type::ReadAsBool,
            Value::Char(_) => Type::ReadAsChar,
            Value::Str(_) => Type::ReadAsString,
        }
    }

    /// A copy of the value.
    pub fn duplicate(&self) -> (r: Value)
        ensures
            r@ == self@,
    {
        match self {
            Value::U8(v) => Value::U8(*v),
            Value::U16(v) => Value::U16(*v),
            Value::U32(v) => Value::U32(*v),
            Value::U64(v) => Value::U64(*v),
            Value::U128(v) => Value::U128(*v),
            Value::Usize(v) => Value::Usize(*v),
            Value::I8(v) => Value::I8(*v),
            Value::I16(v) => Value::I16(*v),
            Value::I32(v) => Value::I32(*v),
            Value::I64(v) => Value::I64(*v),
            Value::I128(v) => Value::I128(*v),
            Value::Isize(v) => Value::Isize(*v),
            Value::F32(v) => Value::F32(v.duplicate()),
            Value::F64(v) => Value::F64(v.duplicate()),
            Value::Bool(v) => Value::Bool(*v),
            Value::Char(v) => Value::Char(*v),
            Value::Str(v) => Value::Str(v.clone()),
        }
    }

    /// The zero-equivalent value of a kind. It tells the kind and is never
    /// read as data.
    pub fn sample(kind: Type) -> (r: Value)
        ensures
            r@ == sample_view(kind),
    {
        match kind {
            Type::ReadAsU8 => Value::U8(0),
            Type::ReadAsU16 => Value::U16(0),
            Type::ReadAsU32 => Value::U32(0),
            Type::ReadAsU64 => Value::U64(0),
            Type::ReadAsU128 => Value::U128(0),
            Type::ReadAsUsize => Value::Usize(0),
            Type::ReadAsI8 => Value::I8(0),
            Type::ReadAsI16 => Value::I16(0),
            Type::ReadAsI32 => Value::I32(0),
            Type::ReadAsI64 => Value::I64(0),
            Type::ReadAsI128 => Value::I128(0),
            Type::ReadAsIsize => Value::Isize(0),
            Type::ReadAsF32 => Value::F32(Single { bits: 0, text: String::from_str("0.0") }),
            Type::ReadAsF64 => Value::F64(Double { bits: 0, text: String::from_str("0.0") }),
            Type::ReadAsBool => Value::Bool(false),
            Type::ReadAsChar => Value::Char('0'),
            Type::ReadAsString => Value::Str(String::new()),
        }
    }

    /// Every value is of the shape and the range that its kind allows.
    pub proof fn lemma_conforms(&self)
        ensures
            self@.conforms(),
    {
    }
}

/// The text that the standard library's debug formatting gives for a text:
/// the text between double quotes, with escapes where it sees need of them.
pub uninterp spec fn quoted_text(text: Seq<char>) -> Seq<char>;

/// The text that the standard library's debug formatting gives for a
/// character: the character between single quotes, escaped where it sees
/// need of it.
pub uninterp spec fn quoted_symbol(symbol: char) -> Seq<char>;

/// The `Debug` formatting of `str`. Claimed of it: the result is a function
/// of the text alone, the one that [`quoted_text`] names.
#[verifier::external_body]
fn quote_text(text: &str) -> (r: String)
    ensures
        r@ == quoted_text(text@),
{
    format!("{:?}", text)
}

/// The `Debug` formatting of `char`. Claimed of it: the result is a function
/// of the character alone, the one that [`quoted_symbol`] names.
#[verifier::external_body]
fn quote_symbol(symbol: char) -> (r: String)
    ensures
        r@ == quoted_symbol(symbol),
{
    format!("{:?}", symbol)
}

impl ValueView {
    /// The text a value is displayed as: a number in decimal notation, a
    /// truth value as `true` or `false`, a character and a text in quotes,
    /// a real number as the text it carries.
    pub open spec fn text(self) -> Seq<char> {
        match self.datum {
            Datum::Number(n) => integer_text(n),
            Datum::Truth(b) => if b {
                "true"@
            } else {
                "false"@
            },
            Datum::Symbol(c) => quoted_symbol(c),
            Datum::Text(t) => quoted_text(t),
            Datum::Real { bits, text } => text,
        }
    }
}

impl Value {
    /// The text the value is displayed as.
    pub fn to_text(&self) -> (r: String)
        ensures
            r@ == self@.text(),
    {
        match self {
            Value::U8(v) => natural_to_text(*v as u128),
            Value::U16(v) => natural_to_text(*v as u128),
            Value::U32(v) => natural_to_text(*v as u128),
            Value::U64(v) => natural_to_text(*v as u128),
            Value::U128(v) => natural_to_text(*v),
            Value::Usize(v) => natural_to_text(*v as u128),
            Value::I8(v) => integer_to_text(*v as i128),
            Value::I16(v) => integer_to_text(*v as i128),
            Value::I32(v) => integer_to_text(*v as i128),
            Value::I64(v) => integer_to_text(*v as i128),
            Value::I128(v) => integer_to_text(*v),
            Value::Isize(v) => integer_to_text(*v as i128),
            Value::F32(v) => v.text.clone(),
            Value::F64(v) => v.text.clone(),
            Value::Bool(v) => if *v {
                String::from_str("true")
            } else {
                String::from_str("false")
            },
            Value::Char(v) => quote_symbol(*v),
            Value::Str(v) => quote_text(v.as_str()),
        }
    }
}

/// The mathematical model of an [`Arg`]: what was declared of the argument,
/// and what the last parse left in it.
pub struct ArgView {
    /// The name, without the marker `--`.
    pub name: Seq<char>,
    /// The kind of value the argument reads; `None` for a flag that takes
    /// no value.
    pub kind: Option<Type>,
    /// Whether the argument must be given.
    pub required: bool,
    /// The value the argument has when none is given.
    pub default: Option<ValueView>,
    /// What the usage text says of the argument.
    pub description: Seq<char>,
    /// Whether the last parse met the argument's flag.
    pub found: bool,
    /// The value the last parse left.
    pub value: Option<ValueView>,
}

impl ArgView {
    /// The invariant of an argument: a value it holds is of the declared
    /// kind, so a flag that takes no value holds none; and the value and
    /// the default are each of the shape and the range of their own kind.
    pub open spec fn wf(self) -> bool {
        &&& match self.value {
            Some(v) => self.kind == Some(v.kind) && v.conforms(),
            None => true,
        }
        &&& match self.default {
            Some(d) => d.conforms(),
            None => true,
        }
    }

    /// The argument as a parse finds it at its start: not met, without a
    /// value.
    pub open spec fn reset(self) -> ArgView {
        ArgView { found: false, value: None, ..self }
    }

    /// The argument once its flag was met. Of a flag that takes no value
    /// this is all that a parse records.
    pub open spec fn met(self) -> ArgView {
        ArgView { found: true, ..self }
    }

    /// The argument once it was given a value.
    pub open spec fn given(self, value: ValueView) -> ArgView {
        ArgView { value: Some(value), ..self }
    }

    /// The outcome of accepting the default: the argument with the default
    /// as its value, or the reason why the default cannot be one.
    pub open spec fn accept_default(self) -> Result<ArgView, ParseFailure>
        recommends
            self.default is Some,
    {
        match self.kind {
            None => Err(ParseFailure::MissingValueKind { name: self.name }),
            Some(kind) => if self.default.unwrap().kind == kind {
                Ok(self.given(self.default.unwrap()))
            } else {
                Err(ParseFailure::DefaultTypeMismatch { name: self.name })
            },
        }
    }

    /// The outcome of validating the argument after the tokens were walked.
    /// An argument that was not met takes its default, and fails if it has
    /// none and is required. One that was met without a value, though it
    /// takes one, takes its default, and fails if it has none.
    pub open spec fn settle(self) -> Result<ArgView, ParseFailure> {
        if !self.found {
            if self.default is Some {
                self.accept_default()
            } else if self.required {
                Err(ParseFailure::MissingRequired { name: self.name })
            } else {
                Ok(self)
            }
        } else if self.kind is Some && self.value is None {
            if self.default is Some {
                self.accept_default()
            } else {
                Err(ParseFailure::MissingValue { name: self.name })
            }
        } else {
            Ok(self)
        }
    }

    /// The text of the current value; empty where there is none.
    pub open spec fn value_text(self) -> Seq<char> {
        match self.value {
            Some(v) => if self.kind is Some {
                v.text()
            } else {
                Seq::empty()
            },
            None => Seq::empty(),
        }
    }

    /// The text of the default; empty where there is none.
    pub open spec fn default_text(self) -> Seq<char> {
        match self.default {
            Some(d) => d.text(),
            None => Seq::empty(),
        }
    }

    /// The argument as it is written on a command line, with `None` for a
    /// value that is not there.
    pub open spec fn text(self) -> Seq<char> {
        if self.kind is Some {
            "--"@ + self.name + "="@ + (if self.value is Some {
                self.value_text()
            } else {
                "None"@
            })
        } else {
            "--"@ + self.name
        }
    }
}

/// This structure represents an Argument for the command line
/// in the form "--arg_name value".
#[derive(Debug)]
pub struct Arg {
    name: String,
    type_read: Option<Type>,
    required: bool,
    value: Option<Value>,
    found: bool,
    default_value: Option<Value>,
    description: String,
}

impl View for Arg {
    type V = ArgView;

    closed spec fn view(&self) -> ArgView {
        ArgView {
            name: self.name@,
            kind: self.type_read,
            required: self.required,
            default: match self.default_value {
                Some(d) => Some(d@),
                None => None,
            },
            description: self.description@,
            found: self.found,
            value: match self.value {
                Some(v) => Some(v@),
                None => None,
            },
        }
    }
}

impl Arg {
    /// Construct an `Arg` expecting a value and having a default one.
    ///
    /// # Arguments
    /// * `name` - The name of the argument.
    /// * `reading_type` - The expected `Type` of the argument.
    /// * `default_value` - The default value of the argument.
    /// * `required` - Check if whether or not the argument is required.
    pub fn with_default_value(
        name: &str,
        reading_type: Type,
        default_value: Value,
        required: bool,
    ) -> (arg: Arg)
        ensures
            arg@ == (ArgView {
                name: name@,
                kind: Some(reading_type),
                required,
                default: Some(default_value@),
                description: Seq::empty(),
                found: false,
                value: None,
            }),
            arg@.wf(),
    {
        proof {
            default_value.lemma_conforms();
        }
        Arg {
            name: name.to_owned(),
            type_read: Some(reading_type),
            required,
            value: None,
            found: false,
            default_value: Some(default_value),
            description: String::new(),
        }
    }

    /// Construct an `Arg` expecting a value.
    ///
    /// # Arguments
    /// * `name` - The name of the argument.
    /// * `reading_type` - The expected `Type` of the argument.
    /// * `required` - Check if whether or not the argument is required.
    pub fn with_value(name: &str, reading_type: Type, required: bool) -> (arg: Arg)
        ensures
            arg@ == (ArgView {
                name: name@,
                kind: Some(reading_type),
                required,
                default: None,
                description: Seq::empty(),
                found: false,
                value: None,
            }),
            arg@.wf(),
    {
        Arg {
            name: name.to_owned(),
            type_read: Some(reading_type),
            required,
            value: None,
            found: false,
            default_value: None,
            description: String::new(),
        }
    }

    /// Construct an `Arg` expecting no value.
    ///
    /// # Arguments
    /// * `name` - The name of the argument.
    /// * `required` - Check if whether or not the argument is required.
    pub fn without_value(name: &str, required: bool) -> (arg: Arg)
        ensures
            arg@ == (ArgView {
                name: name@,
                kind: None,
                required,
                default: None,
                description: Seq::empty(),
                found: false,
                value: None,
            }),
            arg@.wf(),
    {
        Arg {
            name: name.to_owned(),
            type_read: None,
            required,
            value: None,
            found: false,
            default_value: None,
            description: String::new(),
        }
    }

    /// Sets what the usage text says of the argument.
    pub fn set_description(&mut self, description: &str)
        ensures
            final(self)@ == (ArgView { description: description@, ..old(self)@ }),
    {
        self.description = description.to_owned();
    }

    /// Get the name of the `Arg`.
    pub fn get_name(&self) -> (name: String)
        ensures
            name@ == self@.name,
    {
        self.name.clone()
    }

    /// The name of the `Arg`, borrowed.
    pub fn name(&self) -> (name: &str)
        ensures
            name@ == self@.name,
    {
        self.name.as_str()
    }

    /// What the usage text says of the argument.
    pub fn description(&self) -> (description: &str)
        ensures
            description@ == self@.description,
    {
        self.description.as_str()
    }

    /// The kind of value the argument reads, if it takes one.
    pub fn kind(&self) -> (kind: Option<Type>)
        ensures
            kind == self@.kind,
    {
        self.type_read
    }

    /// Whether the argument takes a value.
    pub fn takes_value(&self) -> (r: bool)
        ensures
            r == (self@.kind is Some),
    {
        self.type_read.is_some()
    }

    /// Whether the argument must be given.
    pub fn is_required(&self) -> (r: bool)
        ensures
            r == self@.required,
    {
        self.required
    }

    /// Whether the last parse met the argument's flag.
    pub fn was_found(&self) -> (r: bool)
        ensures
            r == self@.found,
    {
        self.found
    }

    /// Whether a default was supplied when the argument was declared.
    pub fn has_default_value(&self) -> (r: bool)
        ensures
            r == (self@.default is Some),
    {
        self.default_value.is_some()
    }

    /// The value the last parse left, if any.
    pub fn value(&self) -> (r: Option<&Value>)
        ensures
            match r {
                Some(v) => self@.value == Some(v@),
                None => self@.value is None,
            },
    {
        self.value.as_ref()
    }

    /// The default, if any.
    pub fn default_value(&self) -> (r: Option<&Value>)
        ensures
            match r {
                Some(d) => self@.default == Some(d@),
                None => self@.default is None,
            },
    {
        self.default_value.as_ref()
    }

    /// Forgets what the last parse left.
    pub(crate) fn reset(&mut self)
        ensures
            final(self)@ == old(self)@.reset(),
    {
        self.value = None;
        self.found = false;
    }

    /// Records that the argument's flag was met.
    pub(crate) fn mark_found(&mut self)
        ensures
            final(self)@ == old(self)@.met(),
    {
        self.found = true;
    }

    /// Gives the argument a value.
    pub(crate) fn store(&mut self, value: Value)
        ensures
            final(self)@ == old(self)@.given(value@),
            value@.conforms(),
    {
        proof {
            value.lemma_conforms();
        }
        self.value = Some(value);
    }

    /// Makes the default the current value, after checking once more that
    /// it is of the declared kind.
    pub fn accept_default_value(&mut self) -> (r: Result<(), ParseError>)
        requires
            old(self)@.default is Some,
        ensures
            match r {
                Ok(()) => old(self)@.accept_default() == Ok::<ArgView, ParseFailure>(
                    final(self)@,
                ),
                Err(e) => old(self)@.accept_default() == Err::<ArgView, ParseFailure>(e@)
                    && final(self)@ == old(self)@,
            },
            old(self)@.wf() ==> final(self)@.wf(),
    {
        match self.type_read {
            None => Err(ParseError::MissingValueKind { name: self.name.clone() }),
            Some(kind) => {
                let copy = match &self.default_value {
                    Some(d) => if d.kind() == kind {
                        Some(d.duplicate())
                    } else {
                        None
                    },
                    None => None,
                };
                match copy {
                    Some(v) => {
                        self.value = Some(v);
                        Ok(())
                    },
                    None => Err(ParseError::DefaultTypeMismatch { name: self.name.clone() }),
                }
            },
        }
    }

    /// The text of the current value; empty if there is none or the
    /// argument takes none.
    pub fn format_value(&self) -> (r: String)
        ensures
            r@ == self@.value_text(),
    {
        if self.type_read.is_some() {
            match &self.value {
                Some(v) => v.to_text(),
                None => String::new(),
            }
        } else {
            String::new()
        }
    }

    /// The text of the default; empty if there is none.
    pub fn format_default_value(&self) -> (r: String)
        ensures
            r@ == self@.default_text(),
    {
        match &self.default_value {
            Some(d) => d.to_text(),
            None => String::new(),
        }
    }

    /// The argument as it is written on a command line: `--name=value`, or
    /// `--name` for a flag that takes no value.
    pub fn to_text(&self) -> (r: String)
        ensures
            r@ == self@.text(),
    {
        let mut r = String::from_str("--");
        r.append(self.name.as_str());
        if self.type_read.is_some() {
            r.append("=");
            if self.value.is_some() {
                r.append(self.format_value().as_str());
            } else {
                r.append("None");
            }
        }
        r
    }
}

} // verus!
