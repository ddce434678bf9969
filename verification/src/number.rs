//! Decimal numerals: the form in which a number with a fraction part is
//! written in a document.

use vstd::prelude::*;
use crate::text::push_char;

verus! {

/// Whether `c` is one of the ten decimal digits.
pub open spec fn is_digit(c: char) -> bool {
    '0' <= c && c <= '9'
}

/// The position of the first character at or after `i` that is not a digit;
/// the length of `s` if only digits follow.
pub open spec fn digits_end(s: Seq<char>, i: int) -> int
    decreases s.len() - i,
{
    if 0 <= i < s.len() && is_digit(s[i]) {
        digits_end(s, i + 1)
    } else {
        i
    }
}

/// Where the integer part begins: after the minus sign, if there is one.
pub open spec fn int_start(s: Seq<char>) -> int {
    if s.len() > 0 && s[0] == '-' {
        1
    } else {
        0
    }
}

/// Where the integer part ends.
pub open spec fn int_end(s: Seq<char>) -> int {
    digits_end(s, int_start(s))
}

/// Whether a decimal point stands right after the integer part.
pub open spec fn has_point(s: Seq<char>) -> bool {
    int_end(s) < s.len() && s[int_end(s)] == '.'
}

/// Where the fraction part ends; the end of the integer part if there is no
/// decimal point.
pub open spec fn frac_end(s: Seq<char>) -> int {
    if has_point(s) {
        digits_end(s, int_end(s) + 1)
    } else {
        int_end(s)
    }
}

/// Whether an exponent mark stands right after the fraction part.
pub open spec fn has_exponent(s: Seq<char>) -> bool {
    let c = frac_end(s);
    c < s.len() && (s[c] == 'e' || s[c] == 'E')
}

/// Where the digits of the exponent begin: after the mark and its sign.
pub open spec fn exp_start(s: Seq<char>) -> int {
    let c = frac_end(s);
    if c + 1 < s.len() && (s[c + 1] == '+' || s[c + 1] == '-') {
        c + 2
    } else {
        c + 1
    }
}

/// Where the numeral ends.
pub open spec fn numeral_end(s: Seq<char>) -> int {
    if has_exponent(s) {
        digits_end(s, exp_start(s))
    } else {
        frac_end(s)
    }
}

/// Whether `s` is a JSON number: an optional minus sign, an integer part
/// without a leading zero, an optional fraction, an optional exponent, each
/// with at least one digit, and nothing else.
pub open spec fn is_number(s: Seq<char>) -> bool {
    let a = int_start(s);
    let b = int_end(s);
    &&& b > a
    &&& (s[a] == '0' ==> b == a + 1)
    &&& (has_point(s) ==> frac_end(s) > b + 1)
    &&& (has_exponent(s) ==> numeral_end(s) > exp_start(s))
    &&& numeral_end(s) == s.len()
}

/// Whether the numeral has a fraction part.
pub open spec fn has_fraction(s: Seq<char>) -> bool {
    has_point(s)
}

/// The numeral with a fraction part: `s` itself if it has one, else `s`
/// with `.0` put in after the integer part.
pub open spec fn with_fraction(s: Seq<char>) -> Seq<char> {
    if has_point(s) {
        s
    } else {
        s.take(int_end(s)) + seq!['.', '0'] + s.skip(int_end(s))
    }
}

/// Digits are skipped alike in two texts that agree from `i` on, up to a
/// shift by `k`.
proof fn lemma_digits_end_shift(s: Seq<char>, t: Seq<char>, i: int, k: int)
    requires
        0 <= i <= s.len(),
        t.len() == s.len() + k,
        0 <= i + k,
        forall|j: int| i <= j < s.len() ==> s[j] == #[trigger] t[j + k],
    ensures
        digits_end(t, i + k) == digits_end(s, i) + k,
    decreases s.len() - i,
{
    if i < s.len() && is_digit(s[i]) {
        assert(s[i] == t[i + k]);
        lemma_digits_end_shift(s, t, i + 1, k);
    } else if i < s.len() {
        assert(s[i] == t[i + k]);
    }
}

/// Digits are skipped alike in two texts that agree up to the first
/// character that is no digit.
proof fn lemma_digits_end_prefix(s: Seq<char>, t: Seq<char>, i: int)
    requires
        0 <= i <= digits_end(s, i) < t.len(),
        digits_end(s, i) <= s.len(),
        forall|j: int| i <= j < digits_end(s, i) ==> s[j] == #[trigger] t[j],
        !is_digit(t[digits_end(s, i)]),
    ensures
        digits_end(t, i) == digits_end(s, i),
    decreases s.len() - i,
{
    if i < s.len() && is_digit(s[i]) {
        lemma_digits_end_bounds(s, i + 1);
        assert(s[i] == t[i]);
        lemma_digits_end_prefix(s, t, i + 1);
    }
}

/// The scan stops between its start and the end of the text.
pub proof fn lemma_digits_end_bounds(s: Seq<char>, i: int)
    requires
        0 <= i <= s.len(),
    ensures
        i <= digits_end(s, i) <= s.len(),
        forall|j: int| i <= j < digits_end(s, i) ==> is_digit(#[trigger] s[j]),
        digits_end(s, i) < s.len() ==> !is_digit(s[digits_end(s, i)]),
    decreases s.len() - i,
{
    if i < s.len() && is_digit(s[i]) {
        lemma_digits_end_bounds(s, i + 1);
    }
}

/// Putting in the fraction part keeps a number a number, and gives it a
/// fraction part.
pub proof fn lemma_with_fraction(s: Seq<char>)
    requires
        is_number(s),
    ensures
        is_number(with_fraction(s)),
        has_fraction(with_fraction(s)),
{
    if !has_point(s) {
        let t = with_fraction(s);
        let a = int_start(s);
        let b = int_end(s);
        lemma_digits_end_bounds(s, a);
        assert(t.len() == s.len() + 2);
        assert(forall|j: int| 0 <= j < b ==> t[j] == s[j]);
        assert(t[b] == '.');
        assert(t[b + 1] == '0');
        assert(forall|j: int| b <= j < s.len() ==> s[j] == #[trigger] t[j + 2]);
        assert(int_start(t) == a);
        lemma_digits_end_prefix(s, t, a);
        assert(int_end(t) == b);
        assert(has_point(t));
        lemma_digits_end_shift(s, t, b, 2);
        assert(digits_end(s, b) == b);
        assert(digits_end(t, b + 1) == digits_end(t, b + 2));
        assert(frac_end(t) == b + 2);
        assert(frac_end(s) == b);
        if has_exponent(s) {
            assert(has_exponent(t));
            assert(exp_start(t) == exp_start(s) + 2);
            lemma_digits_end_shift(s, t, exp_start(s), 2);
        }
    }
}

/// A finite number with a fraction part, held as the decimal numeral that is
/// written for it. The numeral is a JSON number and always has a decimal
/// point with a digit on each side.
#[derive(Debug, PartialEq, Eq)]
pub struct Decimal {
    text: String,
}

impl View for Decimal {
    type V = Seq<char>;

    closed spec fn view(&self) -> Seq<char> {
        self.text@
    }
}

/// A 64-bit float as a document carries it: the numeral of a finite value, or
/// the mark of a value that has none (a NaN or an infinity).
#[derive(Debug, PartialEq, Eq)]
pub enum Float {
    Finite(Decimal),
    NonFinite,
}

impl View for Float {
    type V = Option<Seq<char>>;

    open spec fn view(&self) -> Option<Seq<char>> {
        match self {
            Float::Finite(d) => Some(d@),
            Float::NonFinite => None,
        }
    }
}

/// What `Float::from_numeral` makes of a text.
pub open spec fn float_of(s: Seq<char>) -> Option<Seq<char>> {
    if is_number(s) {
        Some(with_fraction(s))
    } else {
        None
    }
}

/// The characters of `s`, one by one.
pub fn chars_of(s: &str) -> (v: Vec<char>)
    ensures
        v@ == s@,
{
    let mut v: Vec<char> = Vec::new();
    for c in it: s.chars()
        invariant
            it.seq() == s@,
            v@ == s@.take(it.index() as int),
    {
        v.push(c);
    }
    v
}

fn is_digit_char(c: char) -> (b: bool)
    ensures
        b == is_digit(c),
{
    '0' <= c && c <= '9'
}

fn skip_digits(v: &Vec<char>, start: usize) -> (end: usize)
    requires
        start <= v.len(),
    ensures
        end == digits_end(v@, start as int),
        start <= end <= v.len(),
{
    let mut end: usize = start;
    while end < v.len() && is_digit_char(v[end])
        invariant
            start <= end <= v.len(),
            digits_end(v@, end as int) == digits_end(v@, start as int),
        decreases v.len() - end,
    {
        end = end + 1;
    }
    end
}

fn append_chars(out: &mut String, v: &Vec<char>, from: usize, to: usize)
    requires
        from <= to <= v.len(),
    ensures
        final(out)@ == old(out)@ + v@.subrange(from as int, to as int),
{
    let mut i: usize = from;
    while i < to
        invariant
            from <= i <= to <= v.len(),
            out@ == old(out)@ + v@.subrange(from as int, i as int),
        decreases to - i,
    {
        push_char(out, v[i]);
        i = i + 1;
        assert(v@.subrange(from as int, i as int) == v@.subrange(from as int, i - 1).push(
            v@[i - 1],
        ));
    }
}

/// Checks the text against the grammar of JSON numbers, and finds where its
/// integer part ends.
fn scan_number(v: &Vec<char>) -> (r: Option<usize>)
    ensures
        r is Some <==> is_number(v@),
        r matches Some(b) ==> b == int_end(v@) && b <= v.len(),
{
    let n = v.len();
    let a: usize = if n > 0 && v[0] == '-' {
        1
    } else {
        0
    };
    assert(a == int_start(v@));
    let b = skip_digits(v, a);
    assert(b == int_end(v@));
    if b == a {
        return None;
    }
    if v[a] == '0' && b != a + 1 {
        return None;
    }
    let point = b < n && v[b] == '.';
    assert(point == has_point(v@));
    let c: usize = if point {
        skip_digits(v, b + 1)
    } else {
        b
    };
    assert(c == frac_end(v@));
    if point && c == b + 1 {
        return None;
    }
    let mut e: usize = c;
    if c < n && (v[c] == 'e' || v[c] == 'E') {
        assert(has_exponent(v@));
        let d: usize = if c + 1 < n && (v[c + 1] == '+' || v[c + 1] == '-') {
            c + 2
        } else {
            c + 1
        };
        assert(d == exp_start(v@));
        e = skip_digits(v, d);
        if e == d {
            return None;
        }
    } else {
        assert(!has_exponent(v@));
    }
    assert(e == numeral_end(v@));
    if e != n {
        return None;
    }
    Some(b)
}

impl Decimal {
    /// What holds of every numeral: it is a JSON number with a fraction
    /// part.
    #[verifier::type_invariant]
    pub closed spec fn well_formed(&self) -> bool {
        is_number(self.text@) && has_fraction(self.text@)
    }

    /// A well-formed numeral is a JSON number with a fraction part.
    pub proof fn lemma_well_formed(&self)
        requires
            self.well_formed(),
        ensures
            is_number(self@),
            has_fraction(self@),
    {
    }

    /// Reads a numeral. It is accepted if and only if it is a JSON number;
    /// one without a fraction part is given the fraction `.0`.
    pub fn parse(s: &str) -> (r: Option<Decimal>)
        ensures
            r is Some <==> is_number(s@),
            r matches Some(d) ==> d@ == with_fraction(s@) && is_number(d@) && has_fraction(d@),
    {
        let v = chars_of(s);
        match scan_number(&v) {
            None => None,
            Some(b) => {
                let point = b < v.len() && v[b] == '.';
                let mut text = String::new();
                append_chars(&mut text, &v, 0, b);
                if !point {
                    push_char(&mut text, '.');
                    push_char(&mut text, '0');
                }
                append_chars(&mut text, &v, b, v.len());
                proof {
                    lemma_with_fraction(s@);
                    assert(s@.take(b as int) == s@.subrange(0, b as int));
                    assert(s@.skip(b as int) == s@.subrange(b as int, s@.len() as int));
                    assert(s@ == s@.subrange(0, b as int) + s@.subrange(b as int, s@.len() as int));
                    assert(text@ == with_fraction(s@));
                }
                Some(Decimal { text })
            },
        }
    }

    /// The numeral: a JSON number with a decimal point.
    pub fn as_str(&self) -> (s: &str)
        ensures
            s@ == self@,
            is_number(s@),
            has_fraction(s@),
    {
        proof {
            use_type_invariant(self);
        }
        self.text.as_str()
    }

}

impl Clone for Decimal {
    fn clone(&self) -> (r: Self)
        ensures
            r@ == self@,
    {
        proof {
            use_type_invariant(self);
        }
        Decimal { text: self.text.clone() }
    }
}

impl Clone for Float {
    fn clone(&self) -> (r: Self)
        ensures
            r@ == self@,
    {
        match self {
            Float::Finite(d) => Float::Finite(d.clone()),
            Float::NonFinite => Float::NonFinite,
        }
    }
}

impl Float {
    /// The float that the text denotes: finite if the text is a JSON number,
    /// and without a numeral otherwise.
    pub fn from_numeral(s: &str) -> (f: Float)
        ensures
            f@ == float_of(s@),
    {
        match Decimal::parse(s) {
            Some(d) => Float::Finite(d),
            None => Float::NonFinite,
        }
    }
}

} // verus!
