//! Character sequences: the order of names, the shape of a flag token, and
//! the decimal notation of integers.
use vstd::prelude::*;
use vstd::string::*;

verus! {

/// The strict lexicographic order of two character sequences, character by
/// character in code-point order; a proper prefix comes first.
pub open spec fn lex_lt(a: Seq<char>, b: Seq<char>) -> bool
    decreases a.len(),
{
    if b.len() == 0 {
        false
    } else if a.len() == 0 {
        true
    } else if a[0] != b[0] {
        (a[0] as u32) < (b[0] as u32)
    } else {
        lex_lt(a.drop_first(), b.drop_first())
    }
}

/// No sequence comes before itself.
pub proof fn lemma_lex_lt_irreflexive(a: Seq<char>)
    ensures
        !lex_lt(a, a),
    decreases a.len(),
{
    if a.len() > 0 {
        lemma_lex_lt_irreflexive(a.drop_first());
    }
}

/// The order is transitive.
pub proof fn lemma_lex_lt_transitive(a: Seq<char>, b: Seq<char>, c: Seq<char>)
    requires
        lex_lt(a, b),
        lex_lt(b, c),
    ensures
        lex_lt(a, c),
    decreases a.len(),
{
    if a.len() > 0 && a[0] == b[0] && b[0] == c[0] {
        lemma_lex_lt_transitive(a.drop_first(), b.drop_first(), c.drop_first());
    }
}

/// Of two different characters one has the smaller code point.
pub proof fn lemma_chars_ordered(x: char, y: char)
    requires
        x != y,
    ensures
        (x as u32) < (y as u32) || (y as u32) < (x as u32),
{
}

/// Of two different sequences one comes before the other.
pub proof fn lemma_lex_lt_total(a: Seq<char>, b: Seq<char>)
    ensures
        lex_lt(a, b) || a == b || lex_lt(b, a),
    decreases a.len(),
{
    if a.len() > 0 && b.len() > 0 {
        if a[0] == b[0] {
            lemma_lex_lt_total(a.drop_first(), b.drop_first());
            if a.drop_first() == b.drop_first() {
                assert(b =~= seq![b[0]] + b.drop_first());
            }
        } else {
            lemma_chars_ordered(a[0], b[0]);
        }
    }
}

/// How one name stands to another in the order of names.
#[derive(Clone, Copy, PartialEq, Eq, Structural, Debug)]
pub enum NameOrder {
    Before,
    Same,
    After,
}

/// The characters of a string, in order.
pub fn chars_of(s: &str) -> (v: Vec<char>)
    ensures
        v@ == s@,
{
    let mut v: Vec<char> = Vec::new();
    for c in it: s.chars()
        invariant
            v@ == it.seq().take(it.index()),
            it.seq() == s@,
    {
        v.push(c);
    }
    v
}

/// Whether the code point of `x` is the smaller one.
fn char_before(x: char, y: char) -> (r: bool)
    ensures
        r == ((x as u32) < (y as u32)),
{
    x < y
}

/// Places `a` relative to `b` in the order of names.
pub fn compare_names(a: &str, b: &str) -> (r: NameOrder)
    ensures
        r == NameOrder::Before <==> lex_lt(a@, b@),
        r == NameOrder::Same <==> a@ == b@,
        r == NameOrder::After <==> lex_lt(b@, a@),
{
    let x = chars_of(a);
    let y = chars_of(b);
    let mut i: usize = 0;
    proof {
        assert(a@.skip(0) =~= a@);
        assert(b@.skip(0) =~= b@);
    }
    while i < x.len() && i < y.len() && x[i] == y[i]
        invariant
            x@ == a@,
            y@ == b@,
            i <= x.len(),
            i <= y.len(),
            a@.take(i as int) == b@.take(i as int),
            lex_lt(a@, b@) == lex_lt(a@.skip(i as int), b@.skip(i as int)),
            lex_lt(b@, a@) == lex_lt(b@.skip(i as int), a@.skip(i as int)),
        decreases x.len() - i,
    {
        proof {
            let sa = a@.skip(i as int);
            let sb = b@.skip(i as int);
            assert(sa.drop_first() =~= a@.skip(i + 1));
            assert(sb.drop_first() =~= b@.skip(i + 1));
        }
        i += 1;
    }
    proof {
        let sa = a@.skip(i as int);
        lemma_lex_lt_irreflexive(sa);
        if i < x.len() && i < y.len() {
            lemma_chars_ordered(x@[i as int], y@[i as int]);
        }
    }
    if i == x.len() {
        if i == y.len() {
            NameOrder::Same
        } else {
            NameOrder::Before
        }
    } else if i == y.len() {
        NameOrder::After
    } else if char_before(x[i], y[i]) {
        NameOrder::Before
    } else {
        NameOrder::After
    }
}

/// Whether a token has the shape of a flag: the marker `--` and at least one
/// character after it.
pub open spec fn is_flag(token: Seq<char>) -> bool {
    token.len() >= 3 && token[0] == '-' && token[1] == '-'
}

/// The name that a flag token carries: what follows the marker.
pub open spec fn flag_name(token: Seq<char>) -> Seq<char> {
    token.skip(2)
}

/// Whether a token asks for the usage text: `--help`, in any mix of upper
/// and lower case.
pub open spec fn is_help(token: Seq<char>) -> bool {
    &&& token.len() == 6
    &&& token[0] == '-'
    &&& token[1] == '-'
    &&& (token[2] == 'h' || token[2] == 'H')
    &&& (token[3] == 'e' || token[3] == 'E')
    &&& (token[4] == 'l' || token[4] == 'L')
    &&& (token[5] == 'p' || token[5] == 'P')
}

/// What a token is, seen as a flag.
pub enum Flag {
    /// The token is no flag.
    Plain,
    /// The token asks for the usage text.
    Help,
    /// The token is a flag of this name.
    Named(String),
}

/// Reads a token as a flag.
pub fn read_flag(token: &str) -> (r: Flag)
    ensures
        match r {
            Flag::Plain => !is_flag(token@),
            Flag::Help => is_help(token@),
            Flag::Named(name) => is_flag(token@) && !is_help(token@) && name@ == flag_name(
                token@,
            ),
        },
{
    let t = chars_of(token);
    if t.len() < 3 || t[0] != '-' || t[1] != '-' {
        return Flag::Plain;
    }
    if t.len() == 6 && (t[2] == 'h' || t[2] == 'H') && (t[3] == 'e' || t[3] == 'E') && (t[4] == 'l'
        || t[4] == 'L') && (t[5] == 'p' || t[5] == 'P') {
        return Flag::Help;
    }
    let name = token.substring_char(2, t.len());
    Flag::Named(name.to_owned())
}

/// Whether a character is one of the ten decimal digits.
pub open spec fn is_digit(c: char) -> bool {
    '0' <= c <= '9'
}

/// The number that a decimal digit stands for.
pub open spec fn digit_value(c: char) -> int {
    c as int - '0' as int
}

/// The decimal digit that stands for a number below ten.
pub open spec fn digit_char(d: int) -> char {
    if d == 0 {
        '0'
    } else if d == 1 {
        '1'
    } else if d == 2 {
        '2'
    } else if d == 3 {
        '3'
    } else if d == 4 {
        '4'
    } else if d == 5 {
        '5'
    } else if d == 6 {
        '6'
    } else if d == 7 {
        '7'
    } else if d == 8 {
        '8'
    } else {
        '9'
    }
}

/// The decimal notation of a natural number, without sign or leading zeros.
pub open spec fn decimal_text(n: nat) -> Seq<char>
    decreases n,
{
    if n < 10 {
        seq![digit_char(n as int)]
    } else {
        decimal_text(n / 10).push(digit_char((n % 10) as int))
    }
}

/// The decimal notation of an integer: a minus sign before a negative
/// number, no sign otherwise.
pub open spec fn integer_text(i: int) -> Seq<char> {
    if i < 0 {
        seq!['-'] + decimal_text((-i) as nat)
    } else {
        decimal_text(i as nat)
    }
}

/// Whether every character of a sequence is a decimal digit.
pub open spec fn all_digits(s: Seq<char>) -> bool {
    forall|i: int| 0 <= i < s.len() ==> is_digit(#[trigger] s[i])
}

/// The number that a sequence of decimal digits denotes.
pub open spec fn digits_value(s: Seq<char>) -> int
    decreases s.len(),
{
    if s.len() == 0 {
        0
    } else {
        digits_value(s.drop_last()) * 10 + digit_value(s.last())
    }
}

/// The number that a sequence of one or more decimal digits denotes.
pub open spec fn unsigned_reading(s: Seq<char>) -> Option<int> {
    if s.len() > 0 && all_digits(s) {
        Some(digits_value(s))
    } else {
        None
    }
}

/// The integer that a text denotes in decimal notation: digits, with an
/// optional `+` before them, or, where `signed`, an optional `-`.
pub open spec fn integer_reading(s: Seq<char>, signed: bool) -> Option<int> {
    if s.len() > 0 && s[0] == '+' {
        unsigned_reading(s.skip(1))
    } else if signed && s.len() > 0 && s[0] == '-' {
        match unsigned_reading(s.skip(1)) {
            Some(n) => Some(-n),
            None => None,
        }
    } else {
        unsigned_reading(s)
    }
}

/// The decimal notation of a natural number consists of digits and denotes
/// that number.
pub proof fn lemma_decimal_text_reads_back(n: nat)
    ensures
        decimal_text(n).len() > 0,
        all_digits(decimal_text(n)),
        digits_value(decimal_text(n)) == n,
    decreases n,
{
    let t = decimal_text(n);
    if n < 10 {
        assert(digits_value(t.drop_last()) == 0);
    } else {
        lemma_decimal_text_reads_back(n / 10);
        assert(t.drop_last() =~= decimal_text(n / 10));
    }
}

/// Reading the decimal notation of an integer gives the integer back,
/// provided the reading admits a sign if the integer is negative.
pub proof fn lemma_integer_text_reads_back(i: int, signed: bool)
    requires
        i >= 0 || signed,
    ensures
        integer_reading(integer_text(i), signed) == Some(i),
{
    if i < 0 {
        let d = decimal_text((-i) as nat);
        lemma_decimal_text_reads_back((-i) as nat);
        assert(integer_text(i).skip(1) =~= d);
    } else {
        lemma_decimal_text_reads_back(i as nat);
    }
}

/// The one-character text of a decimal digit.
fn digit_text(d: u8) -> (r: &'static str)
    requires
        d < 10,
    ensures
        r@ == seq![digit_char(d as int)],
{
    proof {
        reveal_strlit("0");
        reveal_strlit("1");
        reveal_strlit("2");
        reveal_strlit("3");
        reveal_strlit("4");
        reveal_strlit("5");
        reveal_strlit("6");
        reveal_strlit("7");
        reveal_strlit("8");
        reveal_strlit("9");
    }
    if d == 0 {
        "0"
    } else if d == 1 {
        "1"
    } else if d == 2 {
        "2"
    } else if d == 3 {
        "3"
    } else if d == 4 {
        "4"
    } else if d == 5 {
        "5"
    } else if d == 6 {
        "6"
    } else if d == 7 {
        "7"
    } else if d == 8 {
        "8"
    } else {
        "9"
    }
}

/// Writes a natural number in decimal notation.
pub fn natural_to_text(n: u128) -> (r: String)
    ensures
        r@ == decimal_text(n as nat),
    decreases n,
{
    if n < 10 {
        String::from_str(digit_text(n as u8))
    } else {
        let mut r = natural_to_text(n / 10);
        r.append(digit_text((n % 10) as u8));
        r
    }
}

/// Writes an integer in decimal notation.
pub fn integer_to_text(i: i128) -> (r: String)
    ensures
        r@ == integer_text(i as int),
{
    if i < 0 {
        let magnitude: u128 = if i == i128::MIN {
            0x8000_0000_0000_0000_0000_0000_0000_0000u128
        } else {
            (-i) as u128
        };
        let mut r = String::from_str("-");
        r.append(natural_to_text(magnitude).as_str());
        proof {
            reveal_strlit("-");
        }
        r
    } else {
        natural_to_text(i as u128)
    }
}

} // verus!
