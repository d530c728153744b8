//! Decimal number syntax shared by the resource-quantity parsers: the unsigned
//! integer grammar and the floating-point literal grammar.
use vstd::prelude::*;
use crate::text::{decimal, digit_char};

verus! {

pub open spec fn is_digit(c: char) -> bool {
    48 <= (c as u32) && (c as u32) <= 57
}

pub open spec fn digit_val(c: char) -> nat {
    ((c as u32) - 48) as nat
}

pub open spec fn all_digits(s: Seq<char>) -> bool {
    forall|i: int| 0 <= i < s.len() ==> is_digit(#[trigger] s[i])
}

/// The natural number spelled by a run of decimal digits, most significant first.
pub open spec fn digits_value(s: Seq<char>) -> nat
    decreases s.len(),
{
    if s.len() == 0 {
        0
    } else {
        digits_value(s.drop_last()) * 10 + digit_val(s.last())
    }
}

// ---------------------------------------------------------------------------
// Unsigned integers
// ---------------------------------------------------------------------------

/// Why a string is not an unsigned 64-bit integer.
#[derive(Debug, Clone, Copy, PartialEq, Eq, Structural)]
pub enum IntErrorKind {
    Empty,
    InvalidDigit,
    PosOverflow,
}

impl IntErrorKind {
    pub open spec fn message_spec(self) -> Seq<char> {
        match self {
            IntErrorKind::Empty => "cannot parse integer from empty string"@,
            IntErrorKind::InvalidDigit => "invalid digit found in string"@,
            IntErrorKind::PosOverflow => "number too large to fit in target type"@,
        }
    }

    /// The text that describes this error.
    pub fn message(&self) -> (m: &'static str)
        ensures
            m@ == self.message_spec(),
    {
        match self {
            IntErrorKind::Empty => "cannot parse integer from empty string",
            IntErrorKind::InvalidDigit => "invalid digit found in string",
            IntErrorKind::PosOverflow => "number too large to fit in target type",
        }
    }
}

/// Reads digits left to right: the first character that is not a digit, or
/// that pushes the value past `u64::MAX`, decides the error.
pub open spec fn scan_u64(d: Seq<char>) -> Result<u64, IntErrorKind>
    decreases d.len(),
{
    if d.len() == 0 {
        Ok(0)
    } else {
        match scan_u64(d.drop_last()) {
            Err(k) => Err(k),
            Ok(v) => if !is_digit(d.last()) {
                Err(IntErrorKind::InvalidDigit)
            } else if v * 10 + digit_val(d.last()) > u64::MAX {
                Err(IntErrorKind::PosOverflow)
            } else {
                Ok((v * 10 + digit_val(d.last())) as u64)
            },
        }
    }
}

/// The unsigned decimal integer grammar: an optional `+`, then digits only.
pub open spec fn parse_u64_spec(s: Seq<char>) -> Result<u64, IntErrorKind> {
    if s.len() == 0 {
        Err(IntErrorKind::Empty)
    } else if s.len() == 1 && (s[0] == '+' || s[0] == '-') {
        Err(IntErrorKind::InvalidDigit)
    } else if s[0] == '+' {
        scan_u64(s.drop_first())
    } else {
        scan_u64(s)
    }
}

/// A successful scan reads exactly the digit strings whose value fits.
pub proof fn lemma_scan_u64_ok(d: Seq<char>)
    ensures
        scan_u64(d) is Ok <==> (all_digits(d) && digits_value(d) <= u64::MAX),
        scan_u64(d) is Ok ==> scan_u64(d)->Ok_0 == digits_value(d),
    decreases d.len(),
{
    if d.len() > 0 {
        let t = d.drop_last();
        lemma_scan_u64_ok(t);
        if all_digits(d) {
            assert(all_digits(t)) by {
                assert forall|i: int| 0 <= i < t.len() implies is_digit(#[trigger] t[i]) by {
                    assert(t[i] == d[i]);
                }
            }
            assert(is_digit(d[d.len() - 1]));
            if digits_value(t) > u64::MAX {
                assert(digits_value(d) >= digits_value(t));
            }
        } else {
            if all_digits(t) {
                assert(!is_digit(d.last())) by {
                    if is_digit(d.last()) {
                        assert forall|i: int| 0 <= i < d.len() implies is_digit(#[trigger] d[i]) by {
                            if i < t.len() {
                                assert(d[i] == t[i]);
                            }
                        }
                    }
                }
            }
        }
    }
}

pub fn is_digit_char(c: char) -> (b: bool)
    ensures
        b == is_digit(c),
{
    48 <= (c as u32) && (c as u32) <= 57
}

pub fn digit_of(c: char) -> (d: u64)
    requires
        is_digit(c),
    ensures
        d == digit_val(c),
        d < 10,
{
    ((c as u32) - 48) as u64
}

/// Parses `s[lo..hi]` as an unsigned decimal integer.
pub fn parse_u64_in(s: &Vec<char>, lo: usize, hi: usize) -> (r: Result<u64, IntErrorKind>)
    requires
        lo <= hi <= s.len(),
    ensures
        r == parse_u64_spec(s@.subrange(lo as int, hi as int)),
{
    let ghost sub = s@.subrange(lo as int, hi as int);
    if lo == hi {
        return Err(IntErrorKind::Empty);
    }
    if hi - lo == 1 && (s[lo] == '+' || s[lo] == '-') {
        return Err(IntErrorKind::InvalidDigit);
    }
    let start = if s[lo] == '+' { lo + 1 } else { lo };
    let ghost d = s@.subrange(start as int, hi as int);
    assert(d =~= if s[lo as int] == '+' { sub.drop_first() } else { sub });
    let mut acc: u64 = 0;
    let mut i = start;
    while i < hi
        invariant
            lo <= start <= i <= hi <= s.len(),
            d == s@.subrange(start as int, hi as int),
            sub == s@.subrange(lo as int, hi as int),
            parse_u64_spec(sub) == scan_u64(d),
            scan_u64(d.take(i - start)) == Ok::<u64, IntErrorKind>(acc),
        decreases hi - i,
    {
        let c = s[i];
        proof {
            assert(d.take(i - start + 1).drop_last() =~= d.take(i - start));
            assert(d.take(i - start + 1).last() == c);
        }
        if !is_digit_char(c) {
            proof { lemma_scan_prefix_err(d, (i - start + 1) as int); }
            return Err(IntErrorKind::InvalidDigit);
        }
        let v = digit_of(c);
        if acc > (u64::MAX - v) / 10 {
            proof { lemma_scan_prefix_err(d, (i - start + 1) as int); }
            return Err(IntErrorKind::PosOverflow);
        }
        acc = acc * 10 + v;
        i = i + 1;
    }
    assert(d.take(hi - start) =~= d);
    Ok(acc)
}

/// Once a prefix fails, the whole scan fails the same way.
pub proof fn lemma_scan_prefix_err(d: Seq<char>, i: int)
    requires
        0 <= i <= d.len(),
        scan_u64(d.take(i)) is Err,
    ensures
        scan_u64(d) == scan_u64(d.take(i)),
    decreases d.len() - i,
{
    if i < d.len() {
        assert(d.take(i + 1).drop_last() =~= d.take(i));
        lemma_scan_prefix_err(d, i + 1);
    } else {
        assert(d.take(i) =~= d);
    }
}


// ---------------------------------------------------------------------------
// Floating-point literals
// ---------------------------------------------------------------------------

/// Why a string is not a floating-point literal.
#[derive(Debug, Clone, Copy, PartialEq, Eq, Structural)]
pub enum FloatErrorKind {
    Empty,
    Invalid,
}

impl FloatErrorKind {
    pub open spec fn message_spec(self) -> Seq<char> {
        match self {
            FloatErrorKind::Empty => "cannot parse float from empty string"@,
            FloatErrorKind::Invalid => "invalid float literal"@,
        }
    }

    /// The text that describes this error.
    pub fn message(&self) -> (m: &'static str)
        ensures
            m@ == self.message_spec(),
    {
        match self {
            FloatErrorKind::Empty => "cannot parse float from empty string",
            FloatErrorKind::Invalid => "invalid float literal",
        }
    }
}

pub open spec fn has_sign(s: Seq<char>) -> bool {
    s.len() > 0 && (s[0] == '+' || s[0] == '-')
}

pub open spec fn unsigned_part(s: Seq<char>) -> Seq<char> {
    if has_sign(s) {
        s.drop_first()
    } else {
        s
    }
}

pub open spec fn is_exp_mark(c: char) -> bool {
    c == 'e' || c == 'E'
}

/// Position of the first `e` or `E` (the length when there is none).
pub open spec fn exp_mark_index(s: Seq<char>) -> nat
    decreases s.len(),
{
    if s.len() == 0 {
        0
    } else if is_exp_mark(s[0]) {
        0
    } else {
        1 + exp_mark_index(s.drop_first())
    }
}

/// Position of the first `.` (the length when there is none).
pub open spec fn dot_index(s: Seq<char>) -> nat
    decreases s.len(),
{
    if s.len() == 0 {
        0
    } else if s[0] == '.' {
        0
    } else {
        1 + dot_index(s.drop_first())
    }
}

/// `s` spells the word whose lower-case and upper-case forms are given, in any mix of cases.
pub open spec fn matches_word(s: Seq<char>, lower: Seq<char>, upper: Seq<char>) -> bool {
    &&& s.len() == lower.len()
    &&& forall|i: int| 0 <= i < s.len() ==> s[i] == lower[i] || s[i] == upper[i]
}

/// The unsigned number grammar `(digits | digits '.' digits? | '.' digits) (('e'|'E') sign? digits)?`.
pub open spec fn number_literal(s: Seq<char>) -> bool {
    let ei = exp_mark_index(s) as int;
    let mant = s.take(ei);
    let di = dot_index(mant) as int;
    let ip = mant.take(di);
    let fp = if di < mant.len() {
        mant.skip(di + 1)
    } else {
        Seq::<char>::empty()
    };
    let exp_digits = unsigned_part(s.skip(ei + 1));
    &&& all_digits(ip)
    &&& all_digits(fp)
    &&& ip.len() + fp.len() > 0
    &&& (ei == s.len() || (exp_digits.len() > 0 && all_digits(exp_digits)))
}

/// The floating-point literal grammar of `str::parse::<f64>`: an optional sign, then
/// `inf`, `infinity`, `nan` (in any case) or a number.
pub open spec fn float_literal(s: Seq<char>) -> bool {
    let body = unsigned_part(s);
    ||| matches_word(body, "inf"@, "INF"@)
    ||| matches_word(body, "infinity"@, "INFINITY"@)
    ||| matches_word(body, "nan"@, "NAN"@)
    ||| number_literal(body)
}

/// Whether `s` reads as a floating-point number, and why not when it does not.
pub open spec fn float_check_spec(s: Seq<char>) -> Result<(), FloatErrorKind> {
    if s.len() == 0 {
        Err(FloatErrorKind::Empty)
    } else if float_literal(s) {
        Ok(())
    } else {
        Err(FloatErrorKind::Invalid)
    }
}


pub proof fn lemma_exp_mark_index(t: Seq<char>, i: int)
    requires
        0 <= i <= t.len(),
        forall|j: int| 0 <= j < i ==> !is_exp_mark(#[trigger] t[j]),
        i == t.len() || is_exp_mark(t[i]),
    ensures
        exp_mark_index(t) == i,
    decreases i,
{
    if i > 0 {
        let u = t.drop_first();
        assert(!is_exp_mark(t[0]));
        assert forall|j: int| 0 <= j < i - 1 implies !is_exp_mark(#[trigger] u[j]) by {
            assert(u[j] == t[j + 1]);
        }
        if i < t.len() {
            assert(u[i - 1] == t[i]);
        }
        lemma_exp_mark_index(u, i - 1);
    }
}

pub proof fn lemma_dot_index(t: Seq<char>, i: int)
    requires
        0 <= i <= t.len(),
        forall|j: int| 0 <= j < i ==> #[trigger] t[j] != '.',
        i == t.len() || t[i] == '.',
    ensures
        dot_index(t) == i,
    decreases i,
{
    if i > 0 {
        let u = t.drop_first();
        assert(t[0] != '.');
        assert forall|j: int| 0 <= j < i - 1 implies #[trigger] u[j] != '.' by {
            assert(u[j] == t[j + 1]);
        }
        if i < t.len() {
            assert(u[i - 1] == t[i]);
        }
        lemma_dot_index(u, i - 1);
    }
}

/// Whether every character of `s[lo..hi]` is a decimal digit.
pub fn all_digits_in(s: &Vec<char>, lo: usize, hi: usize) -> (b: bool)
    requires
        lo <= hi <= s.len(),
    ensures
        b == all_digits(s@.subrange(lo as int, hi as int)),
{
    let mut i = lo;
    while i < hi
        invariant
            lo <= i <= hi <= s.len(),
            forall|j: int| lo <= j < i ==> is_digit(#[trigger] s@[j]),
        decreases hi - i,
    {
        if !is_digit_char(s[i]) {
            assert(s@.subrange(lo as int, hi as int)[i - lo] == s@[i as int]);
            return false;
        }
        i = i + 1;
    }
    assert forall|j: int| 0 <= j < hi - lo implies is_digit(
        #[trigger] s@.subrange(lo as int, hi as int)[j],
    ) by {
        assert(s@.subrange(lo as int, hi as int)[j] == s@[lo + j]);
    }
    true
}

/// `s[lo..hi]` spells the word given in lower and upper case, in any mix of cases.
fn matches_word_in(s: &Vec<char>, lo: usize, hi: usize, lower: &str, upper: &str) -> (b: bool)
    requires
        lo <= hi <= s.len(),
        lower@.len() == upper@.len(),
    ensures
        b == matches_word(s@.subrange(lo as int, hi as int), lower@, upper@),
{
    let n = lower.unicode_len();
    if hi - lo != n {
        return false;
    }
    let ghost t = s@.subrange(lo as int, hi as int);
    let mut i: usize = 0;
    while i < n
        invariant
            n == lower@.len() == upper@.len(),
            hi - lo == n,
            lo <= hi <= s.len(),
            t == s@.subrange(lo as int, hi as int),
            i <= n,
            forall|j: int| 0 <= j < i ==> t[j] == lower@[j] || t[j] == upper@[j],
        decreases n - i,
    {
        let c = s[lo + i];
        assert(t[i as int] == c);
        if c != lower.get_char(i) && c != upper.get_char(i) {
            return false;
        }
        i = i + 1;
    }
    true
}

/// Finds the exponent mark and the decimal point of the literal `s[start..hi]`.
fn locate_marks(s: &Vec<char>, start: usize, hi: usize) -> (r: (usize, usize))
    requires
        start <= hi <= s.len(),
    ensures
        start <= r.1 <= r.0 <= hi,
        r.0 - start == exp_mark_index(s@.subrange(start as int, hi as int)),
        r.1 - start == dot_index(s@.subrange(start as int, r.0 as int)),
{
    let ghost body = s@.subrange(start as int, hi as int);
    let mut ei = start;
    while ei < hi && !(s[ei] == 'e' || s[ei] == 'E')
        invariant
            start <= ei <= hi <= s.len(),
            forall|j: int| start <= j < ei ==> !is_exp_mark(#[trigger] s@[j]),
        decreases hi - ei,
    {
        ei = ei + 1;
    }
    proof {
        assert forall|j: int| 0 <= j < ei - start implies !is_exp_mark(#[trigger] body[j]) by {
            assert(body[j] == s@[start + j]);
        }
        if ei < hi {
            assert(body[ei - start] == s@[ei as int]);
        }
        lemma_exp_mark_index(body, ei - start);
    }
    let ghost mant = s@.subrange(start as int, ei as int);
    let mut di = start;
    while di < ei && s[di] != '.'
        invariant
            start <= di <= ei <= hi <= s.len(),
            forall|j: int| start <= j < di ==> #[trigger] s@[j] != '.',
        decreases ei - di,
    {
        di = di + 1;
    }
    proof {
        assert forall|j: int| 0 <= j < di - start implies #[trigger] mant[j] != '.' by {
            assert(mant[j] == s@[start + j]);
        }
        if di < ei {
            assert(mant[di - start] == s@[di as int]);
        }
        lemma_dot_index(mant, di - start);
    }
    (ei, di)
}

/// Whether the exponent part `s[x..hi]` (after the `e`) is an optional sign and digits.
fn exponent_ok(s: &Vec<char>, x: usize, hi: usize) -> (b: bool)
    requires
        x <= hi <= s.len(),
    ensures
        ({
            let u = unsigned_part(s@.subrange(x as int, hi as int));
            b == (u.len() > 0 && all_digits(u))
        }),
{
    let ghost t = s@.subrange(x as int, hi as int);
    let xs = if x < hi && (s[x] == '+' || s[x] == '-') {
        x + 1
    } else {
        x
    };
    assert(unsigned_part(t) =~= s@.subrange(xs as int, hi as int));
    xs < hi && all_digits_in(s, xs, hi)
}

/// Whether `s[start..hi]` is an unsigned number literal.
fn number_literal_in(s: &Vec<char>, start: usize, hi: usize) -> (b: bool)
    requires
        start <= hi <= s.len(),
    ensures
        b == number_literal(s@.subrange(start as int, hi as int)),
{
    let ghost body = s@.subrange(start as int, hi as int);
    let (ei, di) = locate_marks(s, start, hi);
    let ghost mant = body.take(ei - start);
    assert(mant =~= s@.subrange(start as int, ei as int));
    let frac_lo = if di < ei {
        di + 1
    } else {
        ei
    };
    assert(s@.subrange(start as int, di as int) =~= mant.take(di - start));
    assert(s@.subrange(frac_lo as int, ei as int) =~= if di - start < mant.len() {
        mant.skip(di - start + 1)
    } else {
        Seq::<char>::empty()
    });
    let int_ok = all_digits_in(s, start, di);
    let frac_ok = all_digits_in(s, frac_lo, ei);
    if !int_ok || !frac_ok || (di - start) + (ei - frac_lo) == 0 {
        return false;
    }
    if ei < hi {
        assert(body.skip(ei - start + 1) =~= s@.subrange(ei + 1, hi as int));
        exponent_ok(s, ei + 1, hi)
    } else {
        true
    }
}

/// Checks that `s[lo..hi]` is a floating-point literal, as `str::parse::<f64>` reads one.
pub fn float_literal_in(s: &Vec<char>, lo: usize, hi: usize) -> (r: Result<(), FloatErrorKind>)
    requires
        lo <= hi <= s.len(),
    ensures
        r == float_check_spec(s@.subrange(lo as int, hi as int)),
{
    let ghost t = s@.subrange(lo as int, hi as int);
    if lo == hi {
        return Err(FloatErrorKind::Empty);
    }
    let start = if s[lo] == '+' || s[lo] == '-' {
        lo + 1
    } else {
        lo
    };
    assert(s@.subrange(start as int, hi as int) =~= unsigned_part(t));
    proof {
        reveal_strlit("inf");
        reveal_strlit("INF");
        reveal_strlit("infinity");
        reveal_strlit("INFINITY");
        reveal_strlit("nan");
        reveal_strlit("NAN");
    }
    if matches_word_in(s, start, hi, "inf", "INF") || matches_word_in(
        s,
        start,
        hi,
        "infinity",
        "INFINITY",
    ) || matches_word_in(s, start, hi, "nan", "NAN") || number_literal_in(s, start, hi) {
        Ok(())
    } else {
        Err(FloatErrorKind::Invalid)
    }
}


// ---------------------------------------------------------------------------
// Decimal text read back
// ---------------------------------------------------------------------------

pub proof fn lemma_digit_char(d: nat)
    requires
        d < 10,
    ensures
        is_digit(digit_char(d)),
        digit_val(digit_char(d)) == d,
{
}

/// The decimal spelling of `n` is a non-empty run of digits worth `n`.
pub proof fn lemma_decimal(n: nat)
    ensures
        decimal(n).len() >= 1,
        all_digits(decimal(n)),
        digits_value(decimal(n)) == n,
    decreases n,
{
    if n < 10 {
        lemma_digit_char(n);
        assert(seq![digit_char(n)].drop_last() =~= Seq::<char>::empty());
        assert(digits_value(Seq::<char>::empty()) == 0);
        assert(seq![digit_char(n)].last() == digit_char(n));
    } else {
        lemma_decimal(n / 10);
        lemma_digit_char(n % 10);
        let t = decimal(n / 10);
        let s = decimal(n);
        assert(s.drop_last() =~= t);
        assert(s.last() == digit_char(n % 10));
        assert(n == (n / 10) * 10 + n % 10);
        assert forall|i: int| 0 <= i < s.len() implies is_digit(#[trigger] s[i]) by {
            if i < t.len() {
                assert(s[i] == t[i]);
            }
        }
    }
}

/// A run of digits has no exponent mark and no decimal point.
pub proof fn lemma_digits_have_no_marks(s: Seq<char>)
    requires
        all_digits(s),
    ensures
        exp_mark_index(s) == s.len(),
        dot_index(s) == s.len(),
{
    assert forall|j: int| 0 <= j < s.len() implies !is_exp_mark(#[trigger] s[j]) by {
        assert(is_digit(s[j]));
    }
    lemma_exp_mark_index(s, s.len() as int);
    assert forall|j: int| 0 <= j < s.len() implies #[trigger] s[j] != '.' by {
        assert(is_digit(s[j]));
    }
    lemma_dot_index(s, s.len() as int);
}

/// The decimal spelling of `n` reads back as `n` in the integer grammar.
pub proof fn lemma_decimal_parses_as_u64(n: u64)
    ensures
        parse_u64_spec(decimal(n as nat)) == Ok::<u64, IntErrorKind>(n),
{
    let s = decimal(n as nat);
    lemma_decimal(n as nat);
    assert(is_digit(s[0]));
    lemma_scan_u64_ok(s);
}

/// The decimal spelling of `n` is a floating-point literal.
pub proof fn lemma_decimal_is_float_literal(n: nat)
    ensures
        float_check_spec(decimal(n)) == Ok::<(), FloatErrorKind>(()),
{
    let s = decimal(n);
    lemma_decimal(n);
    lemma_digits_have_no_marks(s);
    assert(is_digit(s[0]));
    assert(!has_sign(s));
    assert(unsigned_part(s) == s);
    assert(s.take(s.len() as int) =~= s);
    assert(all_digits(Seq::<char>::empty()));
    assert(number_literal(s));
}

} // verus!
