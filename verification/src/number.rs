//! Decimal numerals: unsigned integers and fixed-point amounts.

use vstd::prelude::*;

verus! {

/// Whether `c` is one of the digits `0` to `9`.
pub open spec fn is_digit(c: char) -> bool {
    '0' <= c && c <= '9'
}

/// The value of the digit `c`.
pub open spec fn digit_value(c: char) -> nat
    recommends
        is_digit(c),
{
    ((c as u32) - ('0' as u32)) as nat
}

/// Whether `s` consists of digits only.
pub open spec fn all_digits(s: Seq<char>) -> bool {
    forall|i: int| 0 <= i < s.len() ==> is_digit(#[trigger] s[i])
}

/// The number obtained by writing the digits `s` behind the number `acc`.
pub open spec fn append_digits(acc: nat, s: Seq<char>) -> nat
    decreases s.len(),
{
    if s.len() == 0 {
        acc
    } else {
        append_digits(acc, s.drop_last()) * 10 + digit_value(s.last())
    }
}

/// The number that the digits `s` denote in base ten; 0 for no digits.
pub open spec fn digits_value(s: Seq<char>) -> nat {
    append_digits(0, s)
}

/// Writing `a` and then `b` behind a number is writing `a + b` behind it.
pub proof fn lemma_append_digits_concat(acc: nat, a: Seq<char>, b: Seq<char>)
    ensures
        append_digits(acc, a + b) == append_digits(append_digits(acc, a), b),
    decreases b.len(),
{
    if b.len() == 0 {
        assert(a + b =~= a);
    } else {
        assert((a + b).drop_last() =~= a + b.drop_last());
        assert((a + b).last() == b.last());
        lemma_append_digits_concat(acc, a, b.drop_last());
    }
}

/// The smaller of two numbers.
pub open spec fn min_nat(a: nat, b: nat) -> nat {
    if a <= b {
        a
    } else {
        b
    }
}

/// Reads the digits `chars[from..to]` behind the number that `acc` stands
/// for. The running value stops growing at `cap`, so that numerals of any
/// length can be read without overflow.
fn fold_digits(
    acc: u128,
    chars: &Vec<char>,
    from: usize,
    to: usize,
    cap: u128,
    Ghost(exact): Ghost<nat>,
) -> (r: Option<u128>)
    requires
        from <= to <= chars.len(),
        cap <= 0x1_0000_0000_0000_0000,
        acc == min_nat(exact, cap as nat),
    ensures
        r is Some <==> all_digits(chars@.subrange(from as int, to as int)),
        r matches Some(v) ==> v == min_nat(
            append_digits(exact, chars@.subrange(from as int, to as int)),
            cap as nat,
        ),
{
    let ghost s = chars@;
    let mut value: u128 = acc;
    let mut i: usize = from;
    assert(s.subrange(from as int, from as int).len() == 0);
    while i < to
        invariant
            from <= i <= to <= chars.len(),
            s == chars@,
            cap <= 0x1_0000_0000_0000_0000,
            all_digits(s.subrange(from as int, i as int)),
            value == min_nat(append_digits(exact, s.subrange(from as int, i as int)), cap as nat),
        decreases to - i,
    {
        let c = chars[i];
        let ghost part = s.subrange(from as int, i as int);
        let ghost next = s.subrange(from as int, i + 1);
        assert(next.drop_last() =~= part);
        assert(next.last() == c);
        if !('0' <= c && c <= '9') {
            assert(!is_digit(s.subrange(from as int, to as int)[i - from]));
            return None;
        }
        assert forall|j: int| 0 <= j < next.len() implies is_digit(#[trigger] next[j]) by {
            if j < part.len() {
                assert(next[j] == part[j]);
            }
        }
        let digit: u128 = (c as u32 - '0' as u32) as u128;
        let grown: u128 = value * 10 + digit;
        value = if grown < cap { grown } else { cap };
        i += 1;
    }
    Some(value)
}

/// The number that the numeral `s` denotes: an optional `+` followed by one
/// or more digits. `None` for any other text.
pub open spec fn unsigned_value(s: Seq<char>) -> Option<nat> {
    let digits = if s.len() > 0 && s[0] == '+' {
        s.drop_first()
    } else {
        s
    };
    if digits.len() > 0 && all_digits(digits) {
        Some(digits_value(digits))
    } else {
        None
    }
}

/// The `u32` that `s` denotes, if it is a numeral whose value fits.
pub open spec fn u32_value(s: Seq<char>) -> Option<u32> {
    match unsigned_value(s) {
        Some(v) if v <= u32::MAX => Some(v as u32),
        _ => None,
    }
}

/// Parses an unsigned decimal numeral. Leading and trailing characters that
/// are not digits, whitespace included, make the text invalid.
pub fn parse_u32(chars: &Vec<char>) -> (r: Option<u32>)
    ensures
        r == u32_value(chars@),
{
    let len = chars.len();
    let from: usize = if len > 0 && chars[0] == '+' {
        1
    } else {
        0
    };
    assert(chars@.subrange(from as int, len as int) =~= if from == 1 {
        chars@.drop_first()
    } else {
        chars@
    });
    if from == len {
        return None;
    }
    match fold_digits(0, chars, from, len, 0x1_0000_0000, Ghost(0)) {
        Some(v) => {
            if v <= 0xFFFF_FFFF {
                Some(v as u32)
            } else {
                None
            }
        },
        None => None,
    }
}

/// The number of millionths in one whole unit.
pub const MICROS_PER_UNIT: u64 = 1_000_000;

/// The number of digits that an amount may have behind its decimal point.
pub const FRACTION_DIGITS: usize = 6;

/// A non-negative amount of money, held exactly as a count of millionths.
#[derive(Clone, Copy, Debug, PartialEq, Eq, Structural)]
pub struct Amount {
    pub micros: u64,
}

impl Amount {
    /// The amount of `units` whole units.
    pub fn from_units(units: u32) -> (r: Amount)
        ensures
            r.micros == units * MICROS_PER_UNIT,
    {
        Amount { micros: units as u64 * MICROS_PER_UNIT }
    }

    /// The whole units of the amount.
    pub fn units(&self) -> (r: u64)
        ensures
            r == self.micros / MICROS_PER_UNIT,
    {
        self.micros / MICROS_PER_UNIT
    }

    /// What the amount holds beyond its whole units, in millionths.
    pub fn fraction(&self) -> (r: u32)
        ensures
            r == self.micros % MICROS_PER_UNIT,
    {
        (self.micros % MICROS_PER_UNIT) as u32
    }
}

/// Why a text is not accepted as an amount.
#[derive(Clone, Copy, Debug, PartialEq, Eq, Structural)]
pub enum AmountError {
    /// The text is no decimal numeral, has too many digits behind the point,
    /// or denotes more than an `Amount` can hold.
    Invalid,
    /// The text denotes zero or a negative number.
    NotPositive,
}

/// The position of the first `.` in `s`; the length of `s` if it has none.
pub open spec fn point_index(s: Seq<char>) -> int
    decreases s.len(),
{
    if s.len() == 0 || s.first() == '.' {
        0
    } else {
        1 + point_index(s.drop_first())
    }
}

/// `n` times the digit `0`.
pub open spec fn zeros(n: nat) -> Seq<char> {
    Seq::new(n, |i: int| '0')
}

/// The digits before the decimal point of the unsigned numeral `s`.
pub open spec fn whole_digits(s: Seq<char>) -> Seq<char> {
    s.take(point_index(s))
}

/// The digits behind the decimal point of the unsigned numeral `s`.
pub open spec fn fraction_digits(s: Seq<char>) -> Seq<char> {
    if point_index(s) < s.len() {
        s.skip(point_index(s) + 1)
    } else {
        Seq::empty()
    }
}

/// The number of millionths that the unsigned decimal numeral `s` denotes.
/// A numeral is a run of digits, optionally with a `.` before, in or behind
/// it; it has at least one digit, and at most six behind the point. Read
/// without its point and with the fraction filled up to six digits, it is the
/// count of millionths.
pub open spec fn decimal_micros(s: Seq<char>) -> Option<nat> {
    let whole = whole_digits(s);
    let fraction = fraction_digits(s);
    if all_digits(whole) && all_digits(fraction) && whole.len() + fraction.len() > 0
        && fraction.len() <= FRACTION_DIGITS {
        Some(digits_value(whole + fraction + zeros((FRACTION_DIGITS - fraction.len()) as nat)))
    } else {
        None
    }
}

/// Whether `s` begins with a sign.
pub open spec fn has_sign(s: Seq<char>) -> bool {
    s.len() > 0 && (s[0] == '+' || s[0] == '-')
}

/// The number of millionths that the decimal numeral `s` denotes, where `s`
/// may begin with `+` or `-`.
pub open spec fn signed_micros(s: Seq<char>) -> Option<int> {
    if has_sign(s) {
        match decimal_micros(s.drop_first()) {
            Some(m) => Some(if s[0] == '-' { -(m as int) } else { m as int }),
            None => None,
        }
    } else {
        match decimal_micros(s) {
            Some(m) => Some(m as int),
            None => None,
        }
    }
}

/// The amount that the text `s` stands for, or why it is rejected.
pub open spec fn amount_outcome(s: Seq<char>) -> Result<Amount, AmountError> {
    match signed_micros(s) {
        None => Err(AmountError::Invalid),
        Some(v) => if v <= 0 {
            Err(AmountError::NotPositive)
        } else if v > u64::MAX {
            Err(AmountError::Invalid)
        } else {
            Ok(Amount { micros: v as u64 })
        },
    }
}

/// The position of the first `.` at or behind `from`.
fn find_point(chars: &Vec<char>, from: usize) -> (p: usize)
    requires
        from <= chars.len(),
    ensures
        from <= p <= chars.len(),
        p - from == point_index(chars@.skip(from as int)),
{
    let ghost s = chars@;
    let mut p: usize = from;
    while p < chars.len() && chars[p] != '.'
        invariant
            from <= p <= chars.len(),
            s == chars@,
            point_index(s.skip(from as int)) == (p - from) + point_index(s.skip(p as int)),
        decreases chars.len() - p,
    {
        assert(s.skip(p as int).drop_first() =~= s.skip(p + 1));
        p += 1;
    }
    p
}

/// Parses a positive decimal amount, exactly: nothing is rounded.
pub fn parse_amount(chars: &Vec<char>) -> (r: Result<Amount, AmountError>)
    ensures
        r == amount_outcome(chars@),
{
    let ghost s = chars@;
    let len = chars.len();
    let negative = len > 0 && chars[0] == '-';
    let from: usize = if len > 0 && (chars[0] == '-' || chars[0] == '+') {
        1
    } else {
        0
    };
    let ghost body = s.skip(from as int);
    assert(body =~= if has_sign(s) {
        s.drop_first()
    } else {
        s
    });
    let point = find_point(chars, from);
    let fraction_from: usize = if point < len {
        point + 1
    } else {
        len
    };
    let ghost whole = whole_digits(body);
    let ghost fraction = fraction_digits(body);
    assert(whole =~= s.subrange(from as int, point as int));
    assert(fraction =~= s.subrange(fraction_from as int, len as int));
    let cap: u128 = 0x1_0000_0000_0000_0000;
    let read_whole = match fold_digits(0, chars, from, point, cap, Ghost(0)) {
        Some(v) => v,
        None => { return Err(AmountError::Invalid); },
    };
    let mut value = match fold_digits(
        read_whole,
        chars,
        fraction_from,
        len,
        cap,
        Ghost(digits_value(whole)),
    ) {
        Some(v) => v,
        None => { return Err(AmountError::Invalid); },
    };
    let fraction_len = len - fraction_from;
    if point - from + fraction_len == 0 || fraction_len > FRACTION_DIGITS {
        return Err(AmountError::Invalid);
    }
    proof {
        lemma_append_digits_concat(0, whole, fraction);
        assert(zeros(0).len() == 0);
        assert(whole + fraction + zeros(0) =~= whole + fraction);
    }
    let mut filled: usize = fraction_len;
    while filled < FRACTION_DIGITS
        invariant
            fraction_len <= filled <= FRACTION_DIGITS,
            fraction_len == fraction.len(),
            cap == 0x1_0000_0000_0000_0000,
            value == min_nat(
                digits_value(whole + fraction + zeros((filled - fraction_len) as nat)),
                cap as nat,
            ),
        decreases FRACTION_DIGITS - filled,
    {
        let ghost before = whole + fraction + zeros((filled - fraction_len) as nat);
        let ghost after = whole + fraction + zeros((filled + 1 - fraction_len) as nat);
        assert(after.drop_last() =~= before);
        assert(after.last() == '0');
        let grown: u128 = value * 10;
        value = if grown < cap { grown } else { cap };
        filled += 1;
    }
    assert(decimal_micros(body) == Some(
        digits_value(whole + fraction + zeros((FRACTION_DIGITS - fraction.len()) as nat)),
    ));
    if negative || value == 0 {
        Err(AmountError::NotPositive)
    } else if value >= cap {
        Err(AmountError::Invalid)
    } else {
        Ok(Amount { micros: value as u64 })
    }
}

/// The character for the digit `d`.
pub open spec fn digit_char(d: nat) -> char
    recommends
        d < 10,
{
    (d + 48) as u8 as char
}

/// The decimal numeral for `n`, without leading zeros.
pub open spec fn decimal_text(n: nat) -> Seq<char>
    decreases n,
{
    if n < 10 {
        seq![digit_char(n)]
    } else {
        decimal_text(n / 10).push(digit_char(n % 10))
    }
}

/// Writes `n` as a decimal numeral.
pub fn decimal_string(n: usize) -> (r: String)
    ensures
        r@ == decimal_text(n as nat),
    decreases n,
{
    let mut out = if n < 10 {
        String::new()
    } else {
        decimal_string(n / 10)
    };
    let digit: u8 = (n % 10) as u8 + 48;
    out.push(digit as char);
    assert(n < 10 ==> out@ =~= seq![digit_char(n as nat)]);
    out
}

/// Reading back the numeral written for `n` gives `n`.
pub proof fn lemma_decimal_text_round_trip(n: nat)
    ensures
        all_digits(decimal_text(n)),
        decimal_text(n).len() > 0,
        unsigned_value(decimal_text(n)) == Some(n),
    decreases n,
{
    let text = decimal_text(n);
    if n < 10 {
        assert(text.drop_last() =~= Seq::<char>::empty());
        assert(append_digits(0, text.drop_last()) == 0);
    } else {
        lemma_decimal_text_round_trip(n / 10);
        let front = decimal_text(n / 10);
        assert(text.drop_last() =~= front);
        assert forall|i: int| 0 <= i < text.len() implies is_digit(#[trigger] text[i]) by {
            if i < front.len() {
                assert(text[i] == front[i]);
            }
        }
    }
    assert(text[0] != '+') by {
        assert(is_digit(text[0]));
    }
}

} // verus!
