//! JSON numerals: the grammar of a number's text, and a number type that
//! holds only texts of that grammar.

use vstd::prelude::*;
use vstd::string::*;
use crate::text::{decimal_text, digit_char, push_decimal, to_chars};

verus! {

/// A decimal digit.
pub open spec fn is_digit(c: char) -> bool {
    c == '0' || c == '1' || c == '2' || c == '3' || c == '4' || c == '5' || c == '6' || c == '7'
        || c == '8' || c == '9'
}

/// Every character is a decimal digit.
pub open spec fn all_digits(s: Seq<char>) -> bool {
    forall|i: int| 0 <= i < s.len() ==> is_digit(#[trigger] s[i])
}

/// An optional minus sign.
pub open spec fn is_sign_part(s: Seq<char>) -> bool {
    s.len() == 0 || (s.len() == 1 && s[0] == '-')
}

/// One or more digits, with no leading zero before another digit.
pub open spec fn is_integer_part(s: Seq<char>) -> bool {
    &&& s.len() >= 1
    &&& all_digits(s)
    &&& s.len() > 1 ==> s[0] != '0'
}

/// Nothing, or a point and one or more digits.
pub open spec fn is_fraction_part(s: Seq<char>) -> bool {
    s.len() == 0 || (s.len() >= 2 && s[0] == '.' && all_digits(s.skip(1)))
}

/// Nothing, or `e` or `E`, an optional sign, and one or more digits.
pub open spec fn is_exponent_part(s: Seq<char>) -> bool {
    s.len() == 0 || (s.len() >= 2 && (s[0] == 'e' || s[0] == 'E') && {
        ||| all_digits(s.skip(1))
        ||| (s.len() >= 3 && (s[1] == '+' || s[1] == '-') && all_digits(s.skip(2)))
    })
}

/// `s` splits at `a`, `b` and `c` into a sign, an integer part, a fraction
/// and an exponent.
pub open spec fn is_number_split(s: Seq<char>, a: int, b: int, c: int) -> bool {
    &&& 0 <= a <= b <= c <= s.len()
    &&& is_sign_part(s.subrange(0, a))
    &&& is_integer_part(s.subrange(a, b))
    &&& is_fraction_part(s.subrange(b, c))
    &&& is_exponent_part(s.subrange(c, s.len() as int))
}

/// `s` is a JSON numeral.
pub open spec fn is_number_text(s: Seq<char>) -> bool {
    exists|a: int, b: int, c: int| is_number_split(s, a, b, c)
}

/// The end of the run of digits that begins at `from`.
pub open spec fn run_end(s: Seq<char>, from: int) -> int
    decreases s.len() - from,
{
    if 0 <= from < s.len() && is_digit(s[from]) {
        run_end(s, from + 1)
    } else {
        from
    }
}

/// The run of digits from `from` ends at `run_end`: digits up to there, and
/// none there.
pub proof fn lemma_run_end(s: Seq<char>, from: int)
    requires
        0 <= from <= s.len(),
    ensures
        from <= run_end(s, from) <= s.len(),
        forall|i: int| from <= i < run_end(s, from) ==> is_digit(#[trigger] s[i]),
        run_end(s, from) < s.len() ==> !is_digit(s[run_end(s, from)]),
    decreases s.len() - from,
{
    if from < s.len() && is_digit(s[from]) {
        lemma_run_end(s, from + 1);
    }
}

/// A stretch of digits that ends at the end, or before a character that is
/// no digit, is the run of digits from its start.
pub proof fn lemma_run_end_unique(s: Seq<char>, from: int, end: int)
    requires
        0 <= from <= end <= s.len(),
        forall|i: int| from <= i < end ==> is_digit(#[trigger] s[i]),
        end < s.len() ==> !is_digit(s[end]),
    ensures
        run_end(s, from) == end,
    decreases end - from,
{
    if from < end {
        assert(is_digit(s[from]));
        lemma_run_end_unique(s, from + 1, end);
    }
}

/// Where the sign ends.
pub open spec fn sign_end(s: Seq<char>) -> int {
    if s.len() > 0 && s[0] == '-' {
        1
    } else {
        0
    }
}

/// Where the integer part ends.
pub open spec fn integer_end(s: Seq<char>) -> int {
    run_end(s, sign_end(s))
}

/// Where the fraction ends.
pub open spec fn fraction_end(s: Seq<char>) -> int {
    let b = integer_end(s);
    if b < s.len() && s[b] == '.' {
        run_end(s, b + 1)
    } else {
        b
    }
}

/// Where the digits of the exponent begin, if there is an exponent.
pub open spec fn exponent_digits(s: Seq<char>) -> int {
    let c = fraction_end(s);
    if c + 1 < s.len() && (s[c + 1] == '+' || s[c + 1] == '-') {
        c + 2
    } else {
        c + 1
    }
}

/// Where the exponent ends.
pub open spec fn exponent_end(s: Seq<char>) -> int {
    let c = fraction_end(s);
    if c < s.len() && (s[c] == 'e' || s[c] == 'E') {
        run_end(s, exponent_digits(s))
    } else {
        c
    }
}

/// What a scan from left to right accepts: each part, where it begins, is
/// complete, and the last one ends the text.
pub open spec fn scan_accepts(s: Seq<char>) -> bool {
    let a = sign_end(s);
    let b = integer_end(s);
    let c = fraction_end(s);
    &&& b > a
    &&& b > a + 1 ==> s[a] != '0'
    &&& (b < s.len() && s[b] == '.') ==> c > b + 1
    &&& (c < s.len() && (s[c] == 'e' || s[c] == 'E')) ==> exponent_end(s) > exponent_digits(s)
    &&& exponent_end(s) == s.len()
}

/// A split into the four parts is the one that a scan from left to right
/// finds, and the scan accepts the text.
pub proof fn lemma_split_scans(s: Seq<char>, a: int, b: int, c: int)
    requires
        is_number_split(s, a, b, c),
    ensures
        a == sign_end(s),
        b == integer_end(s),
        c == fraction_end(s),
        scan_accepts(s),
{
    let n = s.len() as int;
    let sign = s.subrange(0, a);
    let whole = s.subrange(a, b);
    let fraction = s.subrange(b, c);
    let exponent = s.subrange(c, n);
    assert(whole[0] == s[a]);
    assert(is_digit(s[a]));
    if a == 1 {
        assert(sign[0] == s[0]);
    }
    assert(a == sign_end(s));
    assert forall|i: int| a <= i < b implies is_digit(#[trigger] s[i]) by {
        assert(whole[i - a] == s[i]);
    }
    if b < c {
        assert(fraction[0] == s[b]);
        assert forall|i: int| b + 1 <= i < c implies is_digit(#[trigger] s[i]) by {
            assert(fraction.skip(1)[i - b - 1] == s[i]);
        }
    }
    if c < n {
        assert(exponent[0] == s[c]);
        assert(exponent[1] == s[c + 1]);
    }
    lemma_run_end_unique(s, a, b);
    if b > a + 1 {
        assert(whole.len() > 1);
    }
    if b < c {
        lemma_run_end_unique(s, b + 1, c);
    }
    assert(c == fraction_end(s));
    if c < n {
        if s[c + 1] == '+' || s[c + 1] == '-' {
            assert(!is_digit(exponent.skip(1)[0]));
            assert forall|i: int| c + 2 <= i < n implies is_digit(#[trigger] s[i]) by {
                assert(exponent.skip(2)[i - c - 2] == s[i]);
            }
            lemma_run_end_unique(s, c + 2, n);
        } else {
            assert forall|i: int| c + 1 <= i < n implies is_digit(#[trigger] s[i]) by {
                assert(exponent.skip(1)[i - c - 1] == s[i]);
            }
            lemma_run_end_unique(s, c + 1, n);
        }
    }
}

/// What a scan from left to right accepts splits into the four parts where
/// the scan found them.
pub proof fn lemma_scan_splits(s: Seq<char>)
    requires
        scan_accepts(s),
    ensures
        is_number_split(s, sign_end(s), integer_end(s), fraction_end(s)),
{
    let n = s.len() as int;
    let a = sign_end(s);
    let b = integer_end(s);
    let c = fraction_end(s);
    lemma_run_end(s, a);
    if b < n && s[b] == '.' {
        lemma_run_end(s, b + 1);
    }
    let whole = s.subrange(a, b);
    let fraction = s.subrange(b, c);
    let exponent = s.subrange(c, n);
    assert(all_digits(whole));
    if b < c {
        assert(all_digits(fraction.skip(1)));
    }
    if c < n {
        let d = exponent_digits(s);
        lemma_run_end(s, d);
        if d == c + 2 {
            assert(all_digits(exponent.skip(2)));
        } else {
            assert(all_digits(exponent.skip(1)));
        }
    }
}

/// A text is a JSON numeral just where a scan from left to right accepts it.
pub proof fn lemma_number_text_scans(s: Seq<char>)
    ensures
        is_number_text(s) <==> scan_accepts(s),
{
    if is_number_text(s) {
        let (a, b, c) = choose|a: int, b: int, c: int| is_number_split(s, a, b, c);
        lemma_split_scans(s, a, b, c);
    }
    if scan_accepts(s) {
        lemma_scan_splits(s);
    }
}

/// Tests whether a character is a decimal digit.
pub fn digit(c: char) -> (r: bool)
    ensures
        r == is_digit(c),
{
    c == '0' || c == '1' || c == '2' || c == '3' || c == '4' || c == '5' || c == '6' || c == '7'
        || c == '8' || c == '9'
}

/// Finds the end of the run of digits that begins at `from`.
pub fn scan_digits(text: &Vec<char>, from: usize) -> (end: usize)
    requires
        from <= text.len(),
    ensures
        end == run_end(text@, from as int),
        from <= end <= text.len(),
{
    let mut end: usize = from;
    while end < text.len() && digit(text[end])
        invariant
            from <= end <= text.len(),
            run_end(text@, from as int) == run_end(text@, end as int),
        decreases text.len() - end,
    {
        end = end + 1;
    }
    end
}

/// Tests whether `text` is a JSON numeral.
pub fn is_number(text: &str) -> (r: bool)
    ensures
        r == is_number_text(text@),
{
    let chars = to_chars(text);
    let n: usize = chars.len();
    proof {
        lemma_number_text_scans(chars@);
    }
    let a: usize = if n > 0 && chars[0] == '-' {
        1
    } else {
        0
    };
    let b: usize = scan_digits(&chars, a);
    if b == a {
        return false;
    }
    if b > a + 1 && chars[a] == '0' {
        return false;
    }
    let mut c: usize = b;
    if b < n && chars[b] == '.' {
        c = scan_digits(&chars, b + 1);
        if c == b + 1 {
            return false;
        }
    }
    let mut end: usize = c;
    if c < n && (chars[c] == 'e' || chars[c] == 'E') {
        let mut d: usize = c + 1;
        if d < n && (chars[d] == '+' || chars[d] == '-') {
            d = d + 1;
        }
        end = scan_digits(&chars, d);
        if end == d {
            return false;
        }
    }
    end == n
}

/// The numeral of an integer: a minus sign before the decimal numeral of
/// its magnitude where it is negative.
pub open spec fn integer_text(n: int) -> Seq<char> {
    if n < 0 {
        seq!['-'] + decimal_text((-n) as nat)
    } else {
        decimal_text(n as nat)
    }
}

/// A decimal numeral is made of digits, at least one, and begins with a
/// zero only where it is the numeral of zero.
pub proof fn lemma_decimal_digits(n: nat)
    ensures
        decimal_text(n).len() >= 1,
        all_digits(decimal_text(n)),
        decimal_text(n)[0] == '0' ==> n == 0,
        n < 10 ==> decimal_text(n).len() == 1,
    decreases n,
{
    if n >= 10 {
        lemma_decimal_digits(n / 10);
        let head = decimal_text(n / 10);
        assert(decimal_text(n) == head.push(digit_char(n % 10)));
        assert(decimal_text(n)[0] == head[0]);
    }
}

/// The numeral of an integer is a JSON numeral.
pub proof fn lemma_integer_text_is_number(n: int)
    ensures
        is_number_text(integer_text(n)),
{
    let text = integer_text(n);
    let len = text.len() as int;
    if n < 0 {
        let digits = decimal_text((-n) as nat);
        lemma_decimal_digits((-n) as nat);
        assert(text.subrange(1, len) =~= digits);
        assert(text.subrange(0, 1) =~= seq!['-']);
        assert(is_number_split(text, 1, len, len));
    } else {
        lemma_decimal_digits(n as nat);
        assert(text.subrange(0, len) =~= text);
        assert(is_number_split(text, 0, len, len));
    }
}

/// A number, held as its JSON numeral.
#[derive(Debug, PartialEq, Eq)]
pub struct JsonNumber {
    text: String,
}

impl View for JsonNumber {
    type V = Seq<char>;

    closed spec fn view(&self) -> Seq<char> {
        self.text@
    }
}

impl JsonNumber {
    #[verifier::type_invariant]
    closed spec fn holds_numeral(&self) -> bool {
        is_number_text(self.text@)
    }

    /// The number that `text` is the numeral of; `None` where `text` is no
    /// JSON numeral.
    pub fn parse(text: &str) -> (r: Option<JsonNumber>)
        ensures
            r is Some <==> is_number_text(text@),
            r is Some ==> r->0@ == text@,
    {
        if is_number(text) {
            Some(JsonNumber { text: String::from_str(text) })
        } else {
            None
        }
    }

    /// The number of an unsigned integer.
    pub fn from_u64(n: u64) -> (r: JsonNumber)
        ensures
            r@ == decimal_text(n as nat),
    {
        let mut text = String::new();
        push_decimal(&mut text, n);
        proof {
            assert(text@ =~= integer_text(n as int));
            lemma_integer_text_is_number(n as int);
        }
        JsonNumber { text }
    }

    /// The number of a signed integer.
    pub fn from_i64(n: i64) -> (r: JsonNumber)
        ensures
            r@ == integer_text(n as int),
    {
        let mut text = String::new();
        if n < 0 {
            let magnitude: u64 = (-(n + 1)) as u64 + 1;
            text.append("-");
            push_decimal(&mut text, magnitude);
            proof {
                reveal_strlit("-");
                assert(text@ =~= integer_text(n as int));
            }
        } else {
            push_decimal(&mut text, n as u64);
            assert(text@ =~= integer_text(n as int));
        }
        proof {
            lemma_integer_text_is_number(n as int);
        }
        JsonNumber { text }
    }

    /// The numeral.
    pub fn as_str(&self) -> (r: &str)
        ensures
            r@ == self@,
            is_number_text(r@),
    {
        proof {
            use_type_invariant(self);
        }
        self.text.as_str()
    }
}

impl Clone for JsonNumber {
    fn clone(&self) -> (r: Self)
        ensures
            r@ == self@,
    {
        proof {
            use_type_invariant(self);
        }
        JsonNumber { text: self.text.clone() }
    }
}

} // verus!
