//! Text as the rest of the crate reads it: a sequence of Unicode scalar values.
//!
//! Trimming, case folding, decimal numbers in both directions. Every function here is stated over
//! `Seq<char>`, the view of `str` and `String`.
use vstd::prelude::*;

verus! {

/// `String::push` appends the given character to the end of the string.
pub assume_specification[ String::push ](s: &mut String, c: char)
    ensures
        final(s)@ == old(s)@.push(c),
;

/// The view of an optional text.
pub open spec fn text_view(s: Option<String>) -> Option<Seq<char>> {
    match s {
        Some(s) => Some(s@),
        None => None,
    }
}

// ── Characters ────────────────────────────────────────────────────────────────

/// The Unicode property `White_Space`.
pub open spec fn is_white_space(c: char) -> bool {
    ||| '\u{9}' <= c <= '\u{D}'
    ||| c == '\u{20}'
    ||| c == '\u{85}'
    ||| c == '\u{A0}'
    ||| c == '\u{1680}'
    ||| '\u{2000}' <= c <= '\u{200A}'
    ||| c == '\u{2028}'
    ||| c == '\u{2029}'
    ||| c == '\u{202F}'
    ||| c == '\u{205F}'
    ||| c == '\u{3000}'
}

/// Whether `c` has the Unicode property `White_Space`.
pub fn is_whitespace(c: char) -> (r: bool)
    ensures
        r == is_white_space(c),
{
    ('\u{9}' <= c && c <= '\u{D}') || c == '\u{20}' || c == '\u{85}' || c == '\u{A0}' || c
        == '\u{1680}' || ('\u{2000}' <= c && c <= '\u{200A}') || c == '\u{2028}' || c == '\u{2029}'
        || c == '\u{202F}' || c == '\u{205F}' || c == '\u{3000}'
}

/// ASCII capitals become small letters; every other character stays as it is.
pub open spec fn ascii_lower(c: char) -> char {
    if 'A' <= c <= 'Z' {
        (c as u32 + 32) as char
    } else {
        c
    }
}

// ── Strings and their characters ──────────────────────────────────────────────

/// The characters of `s`, one by one.
pub fn chars_of(s: &str) -> (chars: Vec<char>)
    ensures
        chars@ == s@,
{
    let mut chars: Vec<char> = Vec::new();
    for c in it: s.chars()
        invariant
            chars@ == s@.take(it.index()),
            it.seq() == s@,
    {
        chars.push(c);
    }
    chars
}

/// The string of the characters `chars[from..to]`.
pub fn string_of(chars: &Vec<char>, from: usize, to: usize) -> (s: String)
    requires
        from <= to <= chars@.len(),
    ensures
        s@ == chars@.subrange(from as int, to as int),
{
    let mut s = String::new();
    let mut i: usize = from;
    while i < to
        invariant
            from <= i <= to <= chars@.len(),
            s@ == chars@.subrange(from as int, i as int),
        decreases to - i,
    {
        s.push(chars[i]);
        i += 1;
    }
    s
}

// ── Trimming ──────────────────────────────────────────────────────────────────

/// `s` without its leading white space.
pub open spec fn trim_front(s: Seq<char>) -> Seq<char>
    decreases s.len(),
{
    if s.len() > 0 && is_white_space(s.first()) {
        trim_front(s.drop_first())
    } else {
        s
    }
}

/// `s` without its trailing white space.
pub open spec fn trim_back(s: Seq<char>) -> Seq<char>
    decreases s.len(),
{
    if s.len() > 0 && is_white_space(s.last()) {
        trim_back(s.drop_last())
    } else {
        s
    }
}

/// `s` without the white space at either end.
pub open spec fn trimmed(s: Seq<char>) -> Seq<char> {
    trim_back(trim_front(s))
}

/// What is left after trimming neither begins nor ends with white space, and only white space was
/// taken off: the text is the rest with white space on both sides.
pub proof fn lemma_trimmed(s: Seq<char>) -> (cut: (Seq<char>, Seq<char>))
    ensures
        s == cut.0 + trimmed(s) + cut.1,
        forall|i: int| 0 <= i < cut.0.len() ==> is_white_space(#[trigger] cut.0[i]),
        forall|i: int| 0 <= i < cut.1.len() ==> is_white_space(#[trigger] cut.1[i]),
        trimmed(s).len() > 0 ==> !is_white_space(trimmed(s).first()) && !is_white_space(
            trimmed(s).last(),
        ),
{
    let front = lemma_trim_front(s);
    let back = lemma_trim_back(trim_front(s));
    let mid = trim_front(s);
    assert(trimmed(s).len() > 0 ==> trimmed(s).first() == mid.first());
    assert(s =~= front + trimmed(s) + back);
    (front, back)
}

proof fn lemma_trim_front(s: Seq<char>) -> (cut: Seq<char>)
    ensures
        s == cut + trim_front(s),
        forall|i: int| 0 <= i < cut.len() ==> is_white_space(#[trigger] cut[i]),
        trim_front(s).len() > 0 ==> !is_white_space(trim_front(s).first()),
    decreases s.len(),
{
    if s.len() > 0 && is_white_space(s.first()) {
        let rest = lemma_trim_front(s.drop_first());
        let cut = seq![s.first()] + rest;
        assert(s =~= seq![s.first()] + s.drop_first());
        assert(seq![s.first()] + (rest + trim_front(s)) =~= cut + trim_front(s));
        cut
    } else {
        assert(s =~= Seq::<char>::empty() + s);
        Seq::empty()
    }
}

proof fn lemma_trim_back(s: Seq<char>) -> (cut: Seq<char>)
    ensures
        s == trim_back(s) + cut,
        forall|i: int| 0 <= i < cut.len() ==> is_white_space(#[trigger] cut[i]),
        trim_back(s).len() > 0 ==> !is_white_space(trim_back(s).last()),
    decreases s.len(),
{
    if s.len() > 0 && is_white_space(s.last()) {
        let rest = lemma_trim_back(s.drop_last());
        let cut = rest.push(s.last());
        assert(s =~= s.drop_last().push(s.last()));
        assert((trim_back(s) + rest).push(s.last()) =~= trim_back(s) + cut);
        cut
    } else {
        assert(s =~= s + Seq::<char>::empty());
        Seq::empty()
    }
}

/// Trimming what is trimmed changes nothing.
pub proof fn lemma_trimmed_twice(s: Seq<char>)
    ensures
        trimmed(trimmed(s)) == trimmed(s),
{
    let _ = lemma_trimmed(s);
}

/// The bounds of the trimmed text inside `chars`.
pub fn trim_bounds(chars: &Vec<char>) -> (r: (usize, usize))
    ensures
        r.0 <= r.1 <= chars@.len(),
        chars@.subrange(r.0 as int, r.1 as int) == trimmed(chars@),
{
    let len = chars.len();
    let mut from: usize = 0;
    assert(chars@.skip(0) =~= chars@);
    while from < len && is_whitespace(chars[from])
        invariant
            from <= len == chars@.len(),
            trim_front(chars@.skip(from as int)) == trim_front(chars@),
        decreases len - from,
    {
        assert(chars@.skip(from as int).drop_first() =~= chars@.skip(from + 1));
        from += 1;
    }
    let ghost rest = trim_front(chars@);
    assert(rest == chars@.skip(from as int));
    let mut to: usize = len;
    assert(chars@.subrange(from as int, len as int) =~= rest);
    while to > from && is_whitespace(chars[to - 1])
        invariant
            from <= to <= len == chars@.len(),
            trim_back(chars@.subrange(from as int, to as int)) == trim_back(rest),
        decreases to,
    {
        assert(chars@.subrange(from as int, to as int).drop_last() =~= chars@.subrange(
            from as int,
            to - 1,
        ));
        to -= 1;
    }
    (from, to)
}

/// `s` without the white space at either end.
pub fn trim(s: &str) -> (r: String)
    ensures
        r@ == trimmed(s@),
{
    let chars = chars_of(s);
    let (from, to) = trim_bounds(&chars);
    string_of(&chars, from, to)
}

// ── Comparing without regard to ASCII case ────────────────────────────────────

/// `s` with ASCII capitals made small.
pub open spec fn lowered(s: Seq<char>) -> Seq<char> {
    s.map_values(|c: char| ascii_lower(c))
}

/// Whether `s` begins with `prefix` once ASCII capitals are made small.
pub open spec fn begins_with_lowered(s: Seq<char>, prefix: Seq<char>) -> bool {
    prefix.is_prefix_of(lowered(s))
}

/// The small letter for an ASCII capital; any other character as it is.
pub fn to_ascii_lower(c: char) -> (r: char)
    ensures
        r == ascii_lower(c),
{
    if 'A' <= c && c <= 'Z' {
        (c as u8 + 32) as char
    } else {
        c
    }
}

/// Whether `s`, its ASCII capitals made small, begins with `prefix`.
pub fn starts_with_lowered(s: &str, prefix: &str) -> (r: bool)
    ensures
        r == begins_with_lowered(s@, prefix@),
{
    let chars = chars_of(s);
    let want = chars_of(prefix);
    if want.len() > chars.len() {
        return false;
    }
    let mut i: usize = 0;
    while i < want.len()
        invariant
            i <= want.len() <= chars.len(),
            chars@ == s@,
            want@ == prefix@,
            forall|j: int| 0 <= j < i ==> ascii_lower(#[trigger] s@[j]) == prefix@[j],
        decreases want.len() - i,
    {
        if to_ascii_lower(chars[i]) != want[i] {
            assert(lowered(s@)[i as int] != prefix@[i as int]);
            return false;
        }
        i += 1;
    }
    assert(prefix@ =~= lowered(s@).take(prefix@.len() as int));
    true
}

/// Whether `a` and `b` agree once ASCII capitals in both are made small.
pub fn eq_lowered(a: &str, b: &str) -> (r: bool)
    ensures
        r == (lowered(a@) == lowered(b@)),
{
    let left = chars_of(a);
    let right = chars_of(b);
    if left.len() != right.len() {
        assert(lowered(a@).len() != lowered(b@).len());
        return false;
    }
    let mut i: usize = 0;
    while i < left.len()
        invariant
            i <= left.len() == right.len(),
            left@ == a@,
            right@ == b@,
            forall|j: int|
                0 <= j < i ==> ascii_lower(#[trigger] a@[j]) == ascii_lower(b@[j]),
        decreases left.len() - i,
    {
        if to_ascii_lower(left[i]) != to_ascii_lower(right[i]) {
            assert(lowered(a@)[i as int] != lowered(b@)[i as int]);
            return false;
        }
        i += 1;
    }
    assert(lowered(a@) =~= lowered(b@));
    true
}

// ── Decimal numbers ───────────────────────────────────────────────────────────

/// The digit character for a number below ten.
pub open spec fn digit(d: int) -> char {
    (48 + d) as char
}

/// `n` in decimal, without leading zeros; zero is `0`.
pub open spec fn decimal(n: nat) -> Seq<char>
    decreases n,
{
    if n < 10 {
        seq![digit(n as int)]
    } else {
        decimal(n / 10).push(digit((n % 10) as int))
    }
}

/// `n` in decimal with zeros in front up to four digits.
pub open spec fn four_digits(n: nat) -> Seq<char> {
    seq![
        digit((n / 1000) as int),
        digit((n / 100 % 10) as int),
        digit((n / 10 % 10) as int),
        digit((n % 10) as int),
    ]
}

fn digit_char(d: u8) -> (c: char)
    requires
        d < 10,
    ensures
        c == digit(d as int),
{
    (48 + d) as char
}

/// Appends `n` in decimal.
pub fn push_decimal(s: &mut String, n: u64)
    ensures
        final(s)@ == old(s)@ + decimal(n as nat),
    decreases n,
{
    if n >= 10 {
        push_decimal(s, n / 10);
    }
    s.push(digit_char((n % 10) as u8));
    assert(s@ =~= old(s)@ + decimal(n as nat));
}

/// Appends `n`, which has at most four digits, padded with zeros to four.
pub fn push_four_digits(s: &mut String, n: u32)
    requires
        n < 10_000,
    ensures
        final(s)@ == old(s)@ + four_digits(n as nat),
{
    s.push(digit_char((n / 1000) as u8));
    s.push(digit_char((n / 100 % 10) as u8));
    s.push(digit_char((n / 10 % 10) as u8));
    s.push(digit_char((n % 10) as u8));
    assert(s@ =~= old(s)@ + four_digits(n as nat));
}

/// Why a text is no unsigned decimal number.
#[derive(Debug, Clone, Copy, PartialEq, Eq, Structural)]
pub enum IntError {
    /// There is no character at all.
    Empty,
    /// A character is no digit, or nothing follows the sign.
    InvalidDigit,
    /// The number is above the largest one admitted.
    PosOverflow,
}

impl IntError {
    /// What the error is called in a report to the operator.
    pub open spec fn spec_message(self) -> Seq<char> {
        match self {
            IntError::Empty => "cannot parse integer from empty string"@,
            IntError::InvalidDigit => "invalid digit found in string"@,
            IntError::PosOverflow => "number too large to fit in target type"@,
        }
    }

    /// The error as text.
    pub fn message(&self) -> (s: &'static str)
        ensures
            s@ == self.spec_message(),
    {
        match self {
            IntError::Empty => "cannot parse integer from empty string",
            IntError::InvalidDigit => "invalid digit found in string",
            IntError::PosOverflow => "number too large to fit in target type",
        }
    }
}

/// Whether `c` is an ASCII digit.
pub open spec fn is_digit(c: char) -> bool {
    '0' <= c <= '9'
}

/// The number that the digits `s` write, read from the left; the first character that is no digit
/// or takes the number above `max` ends the reading.
pub open spec fn digits_value(s: Seq<char>, max: nat) -> Result<nat, IntError>
    decreases s.len(),
{
    if s.len() == 0 {
        Ok(0)
    } else {
        match digits_value(s.drop_last(), max) {
            Err(e) => Err(e),
            Ok(n) => if !is_digit(s.last()) {
                Err(IntError::InvalidDigit)
            } else if n * 10 + (s.last() as nat - 48) > max {
                Err(IntError::PosOverflow)
            } else {
                Ok((n * 10 + (s.last() as nat - 48)) as nat)
            },
        }
    }
}

/// An optional `+`, then one digit or more and nothing else.
pub open spec fn parsed_number(s: Seq<char>, max: nat) -> Result<nat, IntError> {
    if s.len() == 0 {
        Err(IntError::Empty)
    } else if s.first() == '+' {
        if s.len() == 1 {
            Err(IntError::InvalidDigit)
        } else {
            digits_value(s.drop_first(), max)
        }
    } else {
        digits_value(s, max)
    }
}

/// An error in a prefix of the digits is the error of all of them.
proof fn lemma_digits_error(s: Seq<char>, k: int, max: nat)
    requires
        0 <= k <= s.len(),
        digits_value(s.take(k), max) is Err,
    ensures
        digits_value(s, max) == digits_value(s.take(k), max),
    decreases s.len() - k,
{
    if k < s.len() {
        assert(s.take(k + 1).drop_last() =~= s.take(k));
        lemma_digits_error(s, k + 1, max);
    } else {
        assert(s.take(k) =~= s);
    }
}

/// Reads an unsigned decimal number of at most `max`.
pub fn parse_number(s: &str, max: u64) -> (r: Result<u64, IntError>)
    ensures
        match r {
            Ok(n) => parsed_number(s@, max as nat) == Ok::<nat, IntError>(n as nat),
            Err(e) => parsed_number(s@, max as nat) == Err::<nat, IntError>(e),
        },
{
    let chars = chars_of(s);
    if chars.len() == 0 {
        return Err(IntError::Empty);
    }
    let mut i: usize = 0;
    if chars[0] == '+' {
        if chars.len() == 1 {
            return Err(IntError::InvalidDigit);
        }
        i = 1;
    }
    let ghost from = i as int;
    let ghost digits = s@.skip(from);
    assert(s@.skip(0) =~= s@);
    assert(s@.skip(1) =~= s@.drop_first());
    assert(digits.take(0) =~= Seq::<char>::empty());
    let mut n: u64 = 0;
    while i < chars.len()
        invariant
            0 <= from <= i <= chars.len(),
            chars@ == s@,
            digits == s@.skip(from),
            digits_value(digits, max as nat) == parsed_number(s@, max as nat),
            digits_value(digits.take(i - from), max as nat) == Ok::<nat, IntError>(n as nat),
        decreases chars.len() - i,
    {
        let c = chars[i];
        let ghost read = digits.take(i - from);
        let ghost next = digits.take(i - from + 1);
        assert(next.drop_last() =~= read);
        assert(next.last() == c);
        if !('0' <= c && c <= '9') {
            proof {
                lemma_digits_error(digits, i - from + 1, max as nat);
            }
            return Err(IntError::InvalidDigit);
        }
        let d: u64 = (c as u32 - 48) as u64;
        if d > max || n > (max - d) / 10 {
            proof {
                lemma_digits_error(digits, i - from + 1, max as nat);
            }
            return Err(IntError::PosOverflow);
        }
        n = n * 10 + d;
        i += 1;
    }
    assert(digits.take(i - from) =~= digits);
    Ok(n)
}

// ── What the text functions guarantee ─────────────────────────────────────────

/// The view of an optional text is that of the text, where there is one.
pub proof fn lemma_text_view(s: Option<String>)
    ensures
        s is None ==> text_view(s) is None,
        s is Some ==> text_view(s) == Some(s->0@),
{
}

/// The characters that are white space, by their numbers.
pub proof fn lemma_white_space(c: char)
    ensures
        is_white_space(c) <==> ({
            let n = c as u32;
            ||| 0x9 <= n <= 0xD
            ||| n == 0x20 || n == 0x85 || n == 0xA0 || n == 0x1680
            ||| 0x2000 <= n <= 0x200A
            ||| n == 0x2028 || n == 0x2029 || n == 0x202F || n == 0x205F || n == 0x3000
        }),
{
}

/// Making small moves the 26 capitals by 32 places, leaves every other character alone, and does
/// nothing the second time.
pub proof fn lemma_ascii_lower(c: char)
    ensures
        'A' <= c <= 'Z' ==> ascii_lower(c) as int == c as int + 32,
        !('A' <= c <= 'Z') ==> ascii_lower(c) == c,
        ascii_lower(ascii_lower(c)) == ascii_lower(c),
{
}

/// A text is made small character by character, and a prefix is looked for at its front.
pub proof fn lemma_lowered(s: Seq<char>, prefix: Seq<char>)
    ensures
        lowered(s).len() == s.len(),
        forall|i: int| 0 <= i < s.len() ==> #[trigger] lowered(s)[i] == ascii_lower(s[i]),
        begins_with_lowered(s, prefix) <==> prefix.len() <= s.len() && forall|i: int|
            0 <= i < prefix.len() ==> ascii_lower(s[i]) == #[trigger] prefix[i],
{
    if prefix.len() <= s.len() && forall|i: int|
        0 <= i < prefix.len() ==> ascii_lower(s[i]) == #[trigger] prefix[i] {
        assert(prefix =~= lowered(s).take(prefix.len() as int));
    }
    if begins_with_lowered(s, prefix) {
        assert forall|i: int| 0 <= i < prefix.len() implies ascii_lower(s[i])
            == #[trigger] prefix[i] by {
            assert(prefix[i] == lowered(s).take(prefix.len() as int)[i]);
        }
    }
}

/// A number below ten is one digit; one digit more is the number times ten plus the digit.
pub proof fn lemma_decimal(n: nat, d: nat)
    requires
        d < 10,
    ensures
        decimal(d).len() == 1,
        decimal(d)[0] as int == '0' as int + d,
        n > 0 ==> decimal(n * 10 + d) == decimal(n) + decimal(d),
{
    if n > 0 {
        assert((n * 10 + d) / 10 == n);
        assert((n * 10 + d) % 10 == d);
        assert(decimal(n).push(digit(d as int)) =~= decimal(n) + decimal(d));
    }
}

/// Four digits are the number in decimal with as many zeros in front as it takes.
pub proof fn lemma_four_digits(n: nat)
    requires
        n < 10_000,
    ensures
        four_digits(n).len() == 4,
        decimal(n).len() <= 4,
        four_digits(n).skip(4 - decimal(n).len()) == decimal(n),
        forall|i: int| 0 <= i < 4 - decimal(n).len() ==> #[trigger] four_digits(n)[i] == '0',
{
    reveal_with_fuel(decimal, 4);
    assert(n / 10 / 10 == n / 100);
    assert(n / 100 / 10 == n / 1000);
    assert(four_digits(n).skip(4 - decimal(n).len()) =~= decimal(n));
}

/// Digits are read from the left: none are zero; one more digit is ten times the number plus the
/// digit, or too much; a character that is none, or an error, ends the reading for good.
pub proof fn lemma_digits_value(s: Seq<char>, c: char, max: nat)
    ensures
        digits_value(Seq::empty(), max) == Ok::<nat, IntError>(0),
        digits_value(s, max) is Err ==> digits_value(s.push(c), max) == digits_value(s, max),
        digits_value(s, max) is Ok && !('0' <= c <= '9') ==> digits_value(s.push(c), max)
            == Err::<nat, IntError>(IntError::InvalidDigit),
        digits_value(s, max) matches Ok(v) ==> ('0' <= c <= '9' ==> {
            let n = v * 10 + (c as int - '0' as int);
            &&& n <= max ==> digits_value(s.push(c), max) == Ok::<nat, IntError>(n as nat)
            &&& n > max ==> digits_value(s.push(c), max) == Err::<nat, IntError>(
                IntError::PosOverflow,
            )
        }),
{
    assert(s.push(c).drop_last() =~= s);
}

/// One plus sign in front of digits does not matter; a text with nothing to read is an error.
pub proof fn lemma_parsed_number(s: Seq<char>, max: nat)
    ensures
        parsed_number(Seq::empty(), max) == Err::<nat, IntError>(IntError::Empty),
        parsed_number(seq!['+'], max) == Err::<nat, IntError>(IntError::InvalidDigit),
        s.len() > 0 ==> parsed_number(seq!['+'] + s, max) == digits_value(s, max),
        s.len() > 0 && s[0] != '+' ==> parsed_number(s, max) == digits_value(s, max),
{
    assert((seq!['+'] + s).drop_first() =~= s);
}

/// A number that is written in decimal is read back.
pub proof fn lemma_written_is_read(n: nat, max: nat)
    requires
        n <= max,
    ensures
        parsed_number(decimal(n), max) == Ok::<nat, IntError>(n),
{
    lemma_decimal_digits(n, max);
}

proof fn lemma_decimal_digits(n: nat, max: nat)
    requires
        n <= max,
    ensures
        digits_value(decimal(n), max) == Ok::<nat, IntError>(n),
        decimal(n).len() > 0,
        decimal(n)[0] != '+',
    decreases n,
{
    if n < 10 {
        assert(decimal(n).drop_last() =~= Seq::empty());
        assert(digits_value(decimal(n).drop_last(), max) == Ok::<nat, IntError>(0));
    } else {
        lemma_decimal_digits(n / 10, max);
        assert(decimal(n).drop_last() =~= decimal(n / 10));
    }
}

/// What each error is called.
pub proof fn lemma_int_error_messages()
    ensures
        IntError::Empty.spec_message() == "cannot parse integer from empty string"@,
        IntError::InvalidDigit.spec_message() == "invalid digit found in string"@,
        IntError::PosOverflow.spec_message() == "number too large to fit in target type"@,
{
}

} // verus!
