//! Text as sequences of characters: decimal numbers, trimming, joining.
use vstd::prelude::*;

verus! {

/// `String::push` puts the character at the end of the string.
pub assume_specification[ String::push ](s: &mut String, c: char)
    ensures
        final(s)@ == old(s)@.push(c),
;

/// Whether a character is white space: whether Unicode gives it the
/// `White_Space` property.
pub open spec fn white_space(c: char) -> bool {
    let u = c as u32;
    ||| 0x09 <= u <= 0x0d
    ||| u == 0x20
    ||| u == 0x85
    ||| u == 0xa0
    ||| u == 0x1680
    ||| 0x2000 <= u <= 0x200a
    ||| u == 0x2028
    ||| u == 0x2029
    ||| u == 0x202f
    ||| u == 0x205f
    ||| u == 0x3000
}

fn is_white_space(c: char) -> (r: bool)
    ensures
        r == white_space(c),
{
    let u: u32 = c as u32;
    (0x09 <= u && u <= 0x0d) || u == 0x20 || u == 0x85 || u == 0xa0 || u == 0x1680 || (0x2000
        <= u && u <= 0x200a) || u == 0x2028 || u == 0x2029 || u == 0x202f || u == 0x205f || u
        == 0x3000
}

/// The characters of `s`, in order.
pub fn chars_of(s: &str) -> (r: Vec<char>)
    ensures
        r@ == s@,
{
    let mut v: Vec<char> = Vec::new();
    for c in it: s.chars()
        invariant
            it.seq() == s@,
            v@ == it.seq().take(it.index() as int),
    {
        v.push(c);
    }
    v
}

/// The text made of `chars[from..to]`.
pub fn text_of(chars: &Vec<char>, from: usize, to: usize) -> (r: String)
    requires
        from <= to <= chars@.len(),
    ensures
        r@ == chars@.subrange(from as int, to as int),
{
    let mut s = String::new();
    for i in from..to
        invariant
            from <= i <= to <= chars@.len(),
            s@ == chars@.subrange(from as int, i as int),
    {
        s.push(chars[i]);
    }
    s
}

/// Whether two texts have the same characters.
pub fn same_text(a: &str, b: &str) -> (r: bool)
    ensures
        r == (a@ == b@),
{
    a.to_owned() == b.to_owned()
}

// ---------------------------------------------------------------------------
// Decimal numbers
// ---------------------------------------------------------------------------

/// The digit character for `d`.
pub open spec fn digit(d: nat) -> char
    recommends
        d < 10,
{
    (('0' as u32) + d) as char
}

/// The number that a digit character stands for.
pub open spec fn digit_value(c: char) -> nat
    recommends
        is_digit(c),
{
    ((c as u32) - ('0' as u32)) as nat
}

pub open spec fn is_digit(c: char) -> bool {
    '0' <= c && c <= '9'
}

/// `n` in decimal, without leading zeros.
pub open spec fn decimal(n: nat) -> Seq<char>
    decreases n,
{
    if n < 10 {
        seq![digit(n)]
    } else {
        decimal(n / 10).push(digit(n % 10))
    }
}

/// `i` in decimal, with a minus sign when it is negative.
pub open spec fn signed_decimal(i: int) -> Seq<char> {
    if i < 0 {
        seq!['-'] + decimal((-i) as nat)
    } else {
        decimal(i as nat)
    }
}

pub open spec fn all_digits(s: Seq<char>) -> bool {
    forall|i: int| 0 <= i < s.len() ==> is_digit(#[trigger] s[i])
}

/// The number that a sequence of digits writes.
pub open spec fn digits_value(s: Seq<char>) -> nat
    decreases s.len(),
{
    if s.len() == 0 {
        0
    } else {
        10 * digits_value(s.drop_last()) + digit_value(s.last())
    }
}

/// The number that `s` writes, if it is a non-empty run of digits.
pub open spec fn digits_number(s: Seq<char>) -> Option<nat> {
    if s.len() > 0 && all_digits(s) {
        Some(digits_value(s))
    } else {
        None
    }
}

/// How a `u32` is read: an optional plus sign, then digits only, no more than
/// the type can hold.
pub open spec fn parsed_u32(s: Seq<char>) -> Option<u32> {
    let body = if s.len() > 0 && s[0] == '+' {
        s.skip(1)
    } else {
        s
    };
    match digits_number(body) {
        Some(n) => if n <= u32::MAX {
            Some(n as u32)
        } else {
            None
        },
        None => None,
    }
}

/// How an `i32` is read: an optional sign, then digits only, within the range
/// of the type.
pub open spec fn parsed_i32(s: Seq<char>) -> Option<i32> {
    let negative = s.len() > 0 && s[0] == '-';
    let body = if negative || (s.len() > 0 && s[0] == '+') {
        s.skip(1)
    } else {
        s
    };
    match digits_number(body) {
        Some(n) => {
            let i = if negative {
                -(n as int)
            } else {
                n as int
            };
            if i32::MIN <= i <= i32::MAX {
                Some(i as i32)
            } else {
                None
            }
        },
        None => None,
    }
}

proof fn lemma_digit(d: nat)
    requires
        d < 10,
    ensures
        is_digit(digit(d)),
        digit_value(digit(d)) == d,
{
}

proof fn lemma_digits_value_push(s: Seq<char>, c: char)
    ensures
        digits_value(s.push(c)) == 10 * digits_value(s) + digit_value(c),
{
    assert(s.push(c).drop_last() == s);
}

/// A decimal number is a non-empty run of digits, and reads back as itself.
pub proof fn lemma_decimal_reads_back(n: nat)
    ensures
        decimal(n).len() > 0,
        all_digits(decimal(n)),
        digits_value(decimal(n)) == n,
    decreases n,
{
    if n < 10 {
        lemma_digit(n);
        let s = seq![digit(n)];
        assert(s.drop_last() == Seq::<char>::empty());
        assert(digits_value(s.drop_last()) == 0);
    } else {
        lemma_decimal_reads_back(n / 10);
        lemma_digit(n % 10);
        lemma_digits_value_push(decimal(n / 10), digit(n % 10));
    }
}

/// Reading what was written gives the number back, for every `u32`.
pub proof fn law_u32_text_round_trip(n: u32)
    ensures
        parsed_u32(decimal(n as nat)) == Some(n),
{
    lemma_decimal_reads_back(n as nat);
    assert(is_digit(decimal(n as nat)[0]));
}

/// Reading what was written gives the number back, for every `i32`.
pub proof fn law_i32_text_round_trip(i: i32)
    ensures
        parsed_i32(signed_decimal(i as int)) == Some(i),
{
    if i < 0 {
        let n = (-i) as nat;
        lemma_decimal_reads_back(n);
        assert((seq!['-'] + decimal(n)).skip(1) == decimal(n));
    } else {
        lemma_decimal_reads_back(i as nat);
        assert(is_digit(decimal(i as nat)[0]));
    }
}

/// Two numbers with the same decimal text are the same number.
pub proof fn lemma_decimal_injective(a: nat, b: nat)
    requires
        decimal(a) == decimal(b),
    ensures
        a == b,
{
    lemma_decimal_reads_back(a);
    lemma_decimal_reads_back(b);
}

/// `n` in decimal.
pub fn u64_text(n: u64) -> (r: String)
    ensures
        r@ == decimal(n as nat),
    decreases n,
{
    let d: u8 = (n % 10) as u8;
    let c: char = (48u8 + d) as char;
    let mut s = if n < 10 {
        String::new()
    } else {
        u64_text(n / 10)
    };
    s.push(c);
    proof {
        if n < 10 {
            assert(s@ == seq![digit(n as nat)]);
        }
    }
    s
}

/// `n` in decimal.
pub fn u32_text(n: u32) -> (r: String)
    ensures
        r@ == decimal(n as nat),
{
    u64_text(n as u64)
}

/// `n` in decimal.
pub fn usize_text(n: usize) -> (r: String)
    ensures
        r@ == decimal(n as nat),
{
    u64_text(n as u64)
}

/// `i` in decimal, with a minus sign when it is negative.
pub fn i32_text(i: i32) -> (r: String)
    ensures
        r@ == signed_decimal(i as int),
{
    if i < 0 {
        let mut s = String::new();
        s.push('-');
        let magnitude: u64 = (-(i as i64)) as u64;
        s.append(u64_text(magnitude).as_str());
        assert(s@ == seq!['-'] + decimal((-i) as nat));
        s
    } else {
        u64_text(i as u64)
    }
}

/// Prefixes of a run of digits are worth no more than the whole run.
proof fn lemma_digits_value_prefix(s: Seq<char>, k: int)
    requires
        0 <= k <= s.len(),
    ensures
        digits_value(s.take(k)) <= digits_value(s),
    decreases s.len() - k,
{
    if k < s.len() {
        lemma_digits_value_prefix(s, k + 1);
        assert(s.take(k + 1).drop_last() == s.take(k));
    } else {
        assert(s.take(k) == s);
    }
}

/// Reads `chars[from..]` as a non-empty run of digits worth at most `limit`.
fn read_digits(chars: &Vec<char>, from: usize, limit: u64) -> (r: Option<u64>)
    requires
        from <= chars@.len(),
        limit <= 0xffff_ffff,
    ensures
        r matches Some(n) ==> digits_number(chars@.skip(from as int)) == Some(n as nat) && n
            <= limit,
        r is None ==> match digits_number(chars@.skip(from as int)) {
            Some(n) => n > limit,
            None => true,
        },
{
    let ghost body = chars@.skip(from as int);
    if from == chars.len() {
        return None;
    }
    let mut value: u64 = 0;
    for i in from..chars.len()
        invariant
            from <= i <= chars@.len(),
            body == chars@.skip(from as int),
            limit <= 0xffff_ffff,
            value <= limit,
            all_digits(body.take(i - from)),
            value == digits_value(body.take(i - from)),
    {
        let c = chars[i];
        assert(c == body[i - from]);
        if c < '0' || c > '9' {
            return None;
        }
        let d: u64 = (c as u32 - '0' as u32) as u64;
        proof {
            let k = i - from;
            assert(body.take(k + 1) == body.take(k).push(c));
            lemma_digits_value_push(body.take(k), c);
            lemma_digits_value_prefix(body, k + 1);
        }
        value = value * 10 + d;
        if value > limit {
            return None;
        }
    }
    assert(body.take(body.len() as int) == body);
    Some(value)
}

/// Reads a `u32` the way the standard parser does.
pub fn parse_u32(s: &str) -> (r: Option<u32>)
    ensures
        r == parsed_u32(s@),
{
    let chars = chars_of(s);
    let from: usize = if chars.len() > 0 && chars[0] == '+' {
        1
    } else {
        0
    };
    assert(chars@.skip(0) == chars@);
    match read_digits(&chars, from, 0xffff_ffff) {
        Some(n) => Some(n as u32),
        None => None,
    }
}

/// Reads an `i32` the way the standard parser does.
pub fn parse_i32(s: &str) -> (r: Option<i32>)
    ensures
        r == parsed_i32(s@),
{
    let chars = chars_of(s);
    assert(chars@.skip(0) == chars@);
    if chars.len() > 0 && chars[0] == '-' {
        match read_digits(&chars, 1, 0x8000_0000) {
            Some(n) => Some((-(n as i64)) as i32),
            None => None,
        }
    } else {
        let from: usize = if chars.len() > 0 && chars[0] == '+' {
            1
        } else {
            0
        };
        match read_digits(&chars, from, 0x7fff_ffff) {
            Some(n) => Some(n as i32),
            None => None,
        }
    }
}

// ---------------------------------------------------------------------------
// Trimming and case
// ---------------------------------------------------------------------------

/// `s` without leading white space.
pub open spec fn trimmed_start(s: Seq<char>) -> Seq<char>
    decreases s.len(),
{
    if s.len() > 0 && white_space(s[0]) {
        trimmed_start(s.skip(1))
    } else {
        s
    }
}

/// `s` without trailing white space.
pub open spec fn trimmed_end(s: Seq<char>) -> Seq<char>
    decreases s.len(),
{
    if s.len() > 0 && white_space(s.last()) {
        trimmed_end(s.drop_last())
    } else {
        s
    }
}

/// `s` without white space at either end.
pub open spec fn trimmed(s: Seq<char>) -> Seq<char> {
    trimmed_end(trimmed_start(s))
}

/// The index in `chars[from..to]` of the first character that is not white
/// space, or `to`.
pub fn skip_white_space(chars: &Vec<char>, from: usize, to: usize) -> (r: usize)
    requires
        from <= to <= chars@.len(),
    ensures
        from <= r <= to,
        chars@.subrange(r as int, to as int) == trimmed_start(
            chars@.subrange(from as int, to as int),
        ),
{
    let mut i = from;
    while i < to && is_white_space(chars[i])
        invariant
            from <= i <= to <= chars@.len(),
            trimmed_start(chars@.subrange(i as int, to as int)) == trimmed_start(
                chars@.subrange(from as int, to as int),
            ),
        ensures
            from <= i <= to,
            i < to ==> !white_space(chars@[i as int]),
            trimmed_start(chars@.subrange(i as int, to as int)) == trimmed_start(
                chars@.subrange(from as int, to as int),
            ),
        decreases to - i,
    {
        proof {
            let rest = chars@.subrange(i as int, to as int);
            assert(rest[0] == chars@[i as int]);
            assert(rest.skip(1) == chars@.subrange(i + 1, to as int));
        }
        i = i + 1;
    }
    proof {
        let rest = chars@.subrange(i as int, to as int);
        if i < to {
            assert(rest[0] == chars@[i as int]);
        }
    }
    i
}

/// `s` without white space at either end, as characters.
pub fn trim_chars(s: &str) -> (r: Vec<char>)
    ensures
        r@ == trimmed(s@),
{
    let chars = chars_of(s);
    let from = skip_white_space(&chars, 0, chars.len());
    let mut to = chars.len();
    let ghost start = trimmed_start(s@);
    assert(chars@.subrange(0, chars@.len() as int) == chars@);
    while to > from && is_white_space(chars[to - 1])
        invariant
            from <= to <= chars@.len(),
            trimmed_end(chars@.subrange(from as int, to as int)) == trimmed_end(start),
        ensures
            from <= to <= chars@.len(),
            to > from ==> !white_space(chars@[to - 1]),
            trimmed_end(chars@.subrange(from as int, to as int)) == trimmed_end(start),
        decreases to,
    {
        proof {
            let rest = chars@.subrange(from as int, to as int);
            assert(rest.last() == chars@[to - 1]);
            assert(rest.drop_last() == chars@.subrange(from as int, to - 1));
        }
        to = to - 1;
    }
    let mut out: Vec<char> = Vec::new();
    for i in from..to
        invariant
            from <= i <= to <= chars@.len(),
            out@ == chars@.subrange(from as int, i as int),
    {
        out.push(chars[i]);
    }
    proof {
        let rest = chars@.subrange(from as int, to as int);
        if from < to {
            assert(rest.last() == chars@[to - 1]);
        }
    }
    out
}

/// `s` without white space at either end.
pub fn trim(s: &str) -> (r: String)
    ensures
        r@ == trimmed(s@),
{
    let chars = trim_chars(s);
    let n = chars.len();
    assert(chars@.subrange(0, n as int) == chars@);
    text_of(&chars, 0, n)
}

/// The lower-case form of an ASCII letter; any other character itself.
pub open spec fn ascii_lower(c: char) -> char {
    if 'A' <= c && c <= 'Z' {
        ((c as u32) + 32) as char
    } else {
        c
    }
}

/// `s` with its ASCII letters in lower case.
pub open spec fn ascii_lowered(s: Seq<char>) -> Seq<char> {
    s.map_values(|c: char| ascii_lower(c))
}

/// The characters with their ASCII letters in lower case, as text.
pub fn lower_text(chars: &Vec<char>) -> (r: String)
    ensures
        r@ == ascii_lowered(chars@),
{
    let mut s = String::new();
    for i in 0..chars.len()
        invariant
            s@ == ascii_lowered(chars@.take(i as int)),
    {
        let c = chars[i];
        let lower: char = if 'A' <= c && c <= 'Z' {
            ((c as u32 + 32) as u8) as char
        } else {
            c
        };
        s.push(lower);
        assert(chars@.take(i + 1) == chars@.take(i as int).push(c));
        assert(ascii_lowered(chars@.take(i + 1)) == ascii_lowered(chars@.take(i as int)).push(
            ascii_lower(c),
        ));
    }
    assert(chars@.take(chars@.len() as int) == chars@);
    s
}

// ---------------------------------------------------------------------------
// Joining
// ---------------------------------------------------------------------------

/// The parts one after the other, with `sep` between each two.
pub open spec fn joined(parts: Seq<Seq<char>>, sep: Seq<char>) -> Seq<char>
    decreases parts.len(),
{
    if parts.len() == 0 {
        Seq::empty()
    } else if parts.len() == 1 {
        parts[0]
    } else {
        joined(parts.drop_last(), sep) + sep + parts.last()
    }
}

/// The parts one after the other, with `sep` between each two.
pub fn join(parts: &Vec<String>, sep: &str) -> (r: String)
    ensures
        r@ == joined(parts.deep_view(), sep@),
{
    let mut out = String::new();
    let ghost views = parts.deep_view();
    for i in 0..parts.len()
        invariant
            views == parts.deep_view(),
            out@ == joined(views.take(i as int), sep@),
    {
        if i > 0 {
            out.append(sep);
        }
        out.append(parts[i].as_str());
        proof {
            assert(views.take(i + 1).drop_last() == views.take(i as int));
            assert(views.take(i + 1).last() == parts@[i as int]@);
            assert(views.take(i + 1)[0] == views[0]);
        }
    }
    assert(views.take(views.len() as int) == views);
    out
}

/// Two texts, one after the other.
pub fn concat(a: &str, b: &str) -> (r: String)
    ensures
        r@ == a@ + b@,
{
    let mut s = a.to_owned();
    s.append(b);
    s
}

/// A number between two texts.
pub fn around_u32(before: &str, n: u32, after: &str) -> (r: String)
    ensures
        r@ == before@ + decimal(n as nat) + after@,
{
    let mut s = before.to_owned();
    s.append(u32_text(n).as_str());
    s.append(after);
    s
}

/// A number between two texts.
pub fn around_usize(before: &str, n: usize, after: &str) -> (r: String)
    ensures
        r@ == before@ + decimal(n as nat) + after@,
{
    let mut s = before.to_owned();
    s.append(usize_text(n).as_str());
    s.append(after);
    s
}

/// The texts of some numbers.
pub open spec fn decimals(numbers: Seq<u32>) -> Seq<Seq<char>> {
    numbers.map_values(|n: u32| decimal(n as nat))
}

/// The numbers in decimal, with `sep` between each two.
pub fn join_numbers(numbers: &Vec<u32>, sep: &str) -> (r: String)
    ensures
        r@ == joined(decimals(numbers@), sep@),
{
    let mut parts: Vec<String> = Vec::new();
    for i in 0..numbers.len()
        invariant
            parts@.len() == i,
            forall|k: int| 0 <= k < i ==> (#[trigger] parts@[k])@ == decimal(numbers@[k] as nat),
    {
        parts.push(u32_text(numbers[i]));
    }
    assert(parts.deep_view() =~= decimals(numbers@));
    join(&parts, sep)
}

// ---------------------------------------------------------------------------
// Copies
// ---------------------------------------------------------------------------

/// A copy of a list of texts.
pub fn copy_texts(v: &Vec<String>) -> (r: Vec<String>)
    ensures
        r.deep_view() == v.deep_view(),
{
    let mut out: Vec<String> = Vec::new();
    for i in 0..v.len()
        invariant
            out@.len() == i,
            forall|k: int| 0 <= k < i ==> out@[k] == #[trigger] v@[k],
    {
        out.push(v[i].clone());
    }
    assert(out.deep_view() =~= v.deep_view());
    out
}

/// A copy of a list of named values.
pub fn copy_pairs(v: &Vec<(String, String)>) -> (r: Vec<(String, String)>)
    ensures
        r.deep_view() == v.deep_view(),
{
    let mut out: Vec<(String, String)> = Vec::new();
    for i in 0..v.len()
        invariant
            out@.len() == i,
            forall|k: int| 0 <= k < i ==> out@[k] == #[trigger] v@[k],
    {
        out.push((v[i].0.clone(), v[i].1.clone()));
    }
    assert(out.deep_view() =~= v.deep_view());
    out
}

/// A copy of a text that may be absent.
pub fn copy_optional(v: &Option<String>) -> (r: Option<String>)
    ensures
        r.deep_view() == v.deep_view(),
{
    match v {
        Some(s) => Some(s.clone()),
        None => None,
    }
}

/// A copy of a list of numbers.
pub fn copy_numbers(v: &Vec<u32>) -> (r: Vec<u32>)
    ensures
        r@ == v@,
{
    let mut out: Vec<u32> = Vec::new();
    for i in 0..v.len()
        invariant
            out@ == v@.take(i as int),
    {
        out.push(v[i]);
    }
    out
}

// ---------------------------------------------------------------------------
// What numbers look like
// ---------------------------------------------------------------------------

/// The digits of a decimal number are its place values: counted from the end, the
/// digit at place `i` says how many ten-to-the-`i`s there are, and there are as
/// many places as the number needs.
pub proof fn law_digits_are_place_values(n: nat, i: nat)
    ensures
        i < decimal(n).len() ==> decimal(n)[decimal(n).len() - 1 - i] as u32 == 48 + (n as int
            / vstd::arithmetic::power::pow(10, i)) % 10,
        n < vstd::arithmetic::power::pow(10, decimal(n).len()),
        n > 0 ==> vstd::arithmetic::power::pow(10, (decimal(n).len() - 1) as nat) <= n,
    decreases n,
{
    lemma_pow_of_ten(i);
    let len = decimal(n).len();
    if n < 10 {
        assert(vstd::arithmetic::power::pow(10, 0) == 1) by {
            vstd::arithmetic::power::lemma_pow0(10);
        }
        assert(vstd::arithmetic::power::pow(10, 1) == 10) by {
            vstd::arithmetic::power::lemma_pow1(10);
        }
    } else {
        let m = n / 10;
        law_digits_are_place_values(m, if i > 0 {
            (i - 1) as nat
        } else {
            0
        });
        let short = decimal(m).len();
        assert(len == short + 1);
        lemma_decimal_reads_back(m);
        lemma_pow_of_ten(len);
        lemma_pow_of_ten((len - 1) as nat);
        lemma_pow_of_ten(short);
        if 0 < i < len {
            let p = vstd::arithmetic::power::pow(10, (i - 1) as nat);
            assert(decimal(n)[len - 1 - i] == decimal(m)[short - 1 - (i - 1)]);
            vstd::arithmetic::div_mod::lemma_div_denominator(n as int, 10, p);
        }
        if i == 0 {
            vstd::arithmetic::power::lemma_pow0(10);
        }
    }
}

proof fn lemma_pow_of_ten(i: nat)
    ensures
        vstd::arithmetic::power::pow(10, i) > 0,
        i > 0 ==> vstd::arithmetic::power::pow(10, i) == 10 * vstd::arithmetic::power::pow(
            10,
            (i - 1) as nat,
        ),
{
    vstd::arithmetic::power::lemma_pow_positive(10, i);
    if i > 0 {
        reveal(vstd::arithmetic::power::pow);
    }
}

/// A number below zero is written as a minus sign and the number without it; any
/// other without a sign.
pub proof fn law_signs_are_written(i: int)
    ensures
        i > 0 ==> signed_decimal(-i) == seq!['-'] + signed_decimal(i),
        i >= 0 ==> signed_decimal(i) == decimal(i as nat),
{
}

/// Numbers are read digit by digit: one digit stands for itself, and one more digit
/// behind a number is worth ten times the number and the digit, unless that is more
/// than the type can hold. A run of digits that is too large stays so.
pub proof fn law_numbers_are_read_digit_by_digit(s: Seq<char>, c: char)
    requires
        '0' <= c <= '9',
    ensures
        parsed_u32(seq![c]) == Some((c as u32 - 48) as u32),
        parsed_u32(s) matches Some(n) ==> parsed_u32(s.push(c)) == (if 10 * n + (c as u32 - 48)
            <= 0xffff_ffff {
            Some((10 * n + (c as u32 - 48)) as u32)
        } else {
            None
        }),
        s.len() > 0 && parsed_u32(s) is None && (forall|i: int|
            0 <= i < s.len() ==> '0' <= #[trigger] s[i] <= '9') ==> parsed_u32(s.push(c)) is None,
{
    let one = seq![c];
    assert(one == Seq::<char>::empty().push(c));
    lemma_digits_value_push(Seq::empty(), c);
    assert(digits_value(Seq::<char>::empty()) == 0);
    assert(all_digits(one));
    let t = s.push(c);
    if s.len() > 0 {
        if s[0] == '+' {
            assert(t.skip(1) == s.skip(1).push(c));
            lemma_digits_value_push(s.skip(1), c);
            if parsed_u32(s) is Some {
                assert(all_digits(t.skip(1)));
            }
        } else {
            lemma_digits_value_push(s, c);
            if forall|i: int| 0 <= i < s.len() ==> '0' <= #[trigger] s[i] <= '9' {
                assert(all_digits(s));
            }
            if parsed_u32(s) is Some {
                assert(all_digits(t));
            }
        }
    }
}

/// Only a non-empty run of digits is read as a number, with a plus sign in front of
/// it or without; the plus sign makes no difference.
pub proof fn law_only_digits_are_read(s: Seq<char>)
    ensures
        parsed_u32(s) is Some ==> s.len() > 0 && s.last() != '+' && forall|i: int|
            0 <= i < s.len() ==> ('0' <= #[trigger] s[i] <= '9' || (i == 0 && s[i] == '+')),
        s.len() > 0 && s[0] != '+' ==> parsed_u32(seq!['+'] + s) == parsed_u32(s),
{
    if parsed_u32(s) is Some {
        assert forall|i: int| 0 <= i < s.len() implies ('0' <= #[trigger] s[i] <= '9' || (i == 0
            && s[i] == '+')) by {
            if s[0] == '+' && i > 0 {
                assert(is_digit(s.skip(1)[i - 1]));
            }
        }
        if s[0] == '+' {
            assert(is_digit(s.skip(1)[s.len() - 2]));
        }
    }
    assert((seq!['+'] + s).skip(1) == s);
}

/// Numbers with a sign are read as those without one, but for the sign, within the
/// range of the type.
pub proof fn law_signed_numbers_are_read_with_their_sign(s: Seq<char>)
    requires
        s.len() > 0 ==> s[0] != '+' && s[0] != '-',
    ensures
        parsed_i32(s) == (match parsed_u32(s) {
            Some(n) => if n <= 0x7fff_ffff {
                Some(n as i32)
            } else {
                None
            },
            None => None,
        }),
        parsed_i32(seq!['+'] + s) == parsed_i32(s),
        parsed_i32(seq!['-'] + s) == (match parsed_u32(s) {
            Some(n) => if n <= 0x8000_0000 {
                Some((-(n as int)) as i32)
            } else {
                None
            },
            None => None,
        }),
{
    assert((seq!['+'] + s).skip(1) == s);
    assert((seq!['-'] + s).skip(1) == s);
}

// ---------------------------------------------------------------------------
// What trimming, joining and lowering do
// ---------------------------------------------------------------------------

/// Trimming takes white space away at both ends, all of it, and nothing else.
pub proof fn law_trimming_takes_white_space_only(s: Seq<char>)
    ensures
        exists|i: int, j: int|
            0 <= i <= j <= s.len() && trimmed(s) == #[trigger] s.subrange(i, j) && (forall|k: int|
                (0 <= k < i || j <= k < s.len()) ==> white_space(#[trigger] s[k])),
        trimmed(s).len() > 0 ==> !white_space(trimmed(s)[0]) && !white_space(trimmed(s).last()),
{
    lemma_trimmed_start(s);
    let i = s.len() - trimmed_start(s).len();
    let t = trimmed_start(s);
    lemma_trimmed_end(t);
    let j = i + trimmed_end(t).len();
    assert(trimmed(s) =~= s.subrange(i as int, j as int));
    assert forall|k: int| (0 <= k < i || j <= k < s.len()) implies white_space(
        #[trigger] s[k],
    ) by {
        if k >= j {
            assert(t[k - i] == s[k]);
        }
    }
    if trimmed(s).len() > 0 {
        assert(trimmed(s)[0] == t[0]);
    }
}

proof fn lemma_trimmed_start(s: Seq<char>)
    ensures
        trimmed_start(s).len() <= s.len(),
        trimmed_start(s) == s.skip(s.len() - trimmed_start(s).len()),
        forall|k: int| 0 <= k < s.len() - trimmed_start(s).len() ==> white_space(#[trigger] s[k]),
        trimmed_start(s).len() > 0 ==> !white_space(trimmed_start(s)[0]),
    decreases s.len(),
{
    if s.len() > 0 && white_space(s[0]) {
        let rest = s.skip(1);
        lemma_trimmed_start(rest);
        let n = s.len() - trimmed_start(s).len();
        assert(rest.skip(n - 1) == s.skip(n));
        assert forall|k: int| 0 <= k < n implies white_space(#[trigger] s[k]) by {
            if k > 0 {
                assert(rest[k - 1] == s[k]);
            }
        }
    } else {
        assert(s.skip(0) == s);
    }
}

proof fn lemma_trimmed_end(s: Seq<char>)
    ensures
        trimmed_end(s).len() <= s.len(),
        trimmed_end(s) == s.take(trimmed_end(s).len() as int),
        forall|k: int| trimmed_end(s).len() <= k < s.len() ==> white_space(#[trigger] s[k]),
        trimmed_end(s).len() > 0 ==> !white_space(trimmed_end(s).last()),
    decreases s.len(),
{
    if s.len() > 0 && white_space(s.last()) {
        let rest = s.drop_last();
        lemma_trimmed_end(rest);
        assert(rest.take(trimmed_end(s).len() as int) == s.take(trimmed_end(s).len() as int));
        assert forall|k: int| trimmed_end(s).len() <= k < s.len() implies white_space(
            #[trigger] s[k],
        ) by {
            if k < rest.len() {
                assert(rest[k] == s[k]);
            }
        }
    } else {
        assert(s.take(s.len() as int) == s);
    }
}

/// Lowering changes the 26 capital letters of ASCII and no other character.
pub proof fn law_lowering_changes_capitals_only(s: Seq<char>, i: int)
    requires
        0 <= i < s.len(),
    ensures
        ascii_lowered(s).len() == s.len(),
        'A' <= s[i] <= 'Z' ==> ascii_lowered(s)[i] as u32 == s[i] as u32 + 32,
        !('A' <= s[i] <= 'Z') ==> ascii_lowered(s)[i] == s[i],
{
}

/// A text cut at every occurrence of a character, which is left out.
pub open spec fn split_at(s: Seq<char>, c: char) -> Seq<Seq<char>>
    decreases s.len(),
{
    if s.len() == 0 {
        seq![Seq::empty()]
    } else {
        let before = split_at(s.drop_last(), c);
        if s.last() == c {
            before.push(Seq::empty())
        } else {
            before.drop_last().push(before.last().push(s.last()))
        }
    }
}

proof fn lemma_split_is_not_empty(s: Seq<char>, c: char)
    ensures
        split_at(s, c).len() > 0,
    decreases s.len(),
{
    if s.len() > 0 {
        lemma_split_is_not_empty(s.drop_last(), c);
    }
}

proof fn lemma_nothing_to_split(s: Seq<char>, c: char)
    requires
        !s.contains(c),
    ensures
        split_at(s, c) == seq![s],
    decreases s.len(),
{
    if s.len() > 0 {
        let init = s.drop_last();
        assert(s.last() != c) by {
            assert(s[s.len() - 1] == s.last());
        }
        assert(!init.contains(c)) by {
            if init.contains(c) {
                let i = choose|i: int| 0 <= i < init.len() && init[i] == c;
                assert(s[i] == c);
            }
        }
        lemma_nothing_to_split(init, c);
        assert(init.push(s.last()) == s);
        assert(split_at(s, c) =~= seq![s]);
    } else {
        assert(s =~= Seq::<char>::empty());
    }
}

proof fn lemma_split_at_separator(a: Seq<char>, b: Seq<char>, c: char)
    ensures
        split_at(a + seq![c] + b, c) == split_at(a, c) + split_at(b, c),
    decreases b.len(),
{
    let s = a + seq![c] + b;
    if b.len() == 0 {
        assert(s.drop_last() == a);
        assert(s.last() == c);
        assert(split_at(s, c) =~= split_at(a, c) + split_at(b, c));
    } else {
        lemma_split_at_separator(a, b.drop_last(), c);
        assert(s.drop_last() == a + seq![c] + b.drop_last());
        assert(s.last() == b.last());
        lemma_split_is_not_empty(b.drop_last(), c);
        assert(split_at(s, c) =~= split_at(a, c) + split_at(b, c));
    }
}

/// Joined parts can be told apart again: cutting the text at the separator gives
/// the parts back, as many, in the same order, as long as none of them holds the
/// separator itself.
pub proof fn law_joined_parts_split_back(parts: Seq<Seq<char>>, c: char)
    requires
        parts.len() > 0,
        forall|i: int| 0 <= i < parts.len() ==> !(#[trigger] parts[i]).contains(c),
    ensures
        split_at(joined(parts, seq![c]), c) == parts,
    decreases parts.len(),
{
    if parts.len() == 1 {
        lemma_nothing_to_split(parts[0], c);
        assert(seq![parts[0]] =~= parts);
    } else {
        let init = parts.drop_last();
        law_joined_parts_split_back(init, c);
        lemma_split_at_separator(joined(init, seq![c]), parts.last(), c);
        assert(!parts[parts.len() - 1].contains(c));
        lemma_nothing_to_split(parts.last(), c);
        assert(init + seq![parts.last()] =~= parts);
    }
}

/// One more part is put behind the others and a separator; no part is nothing, and
/// a single part is itself.
pub proof fn law_joining_adds_part_after_part(
    parts: Seq<Seq<char>>,
    part: Seq<char>,
    sep: Seq<char>,
)
    ensures
        joined(Seq::empty(), sep) == Seq::<char>::empty(),
        joined(seq![part], sep) == part,
        parts.len() > 0 ==> joined(parts.push(part), sep) == joined(parts, sep) + sep + part,
{
    assert(parts.push(part).drop_last() == parts);
}

/// A list of numbers with commas in between reads back as the same numbers: cut at
/// the commas, each part is read as the number in its place. No numbers are no text.
pub proof fn law_number_lists_read_back(numbers: Seq<u32>)
    ensures
        numbers.len() == 0 ==> joined(decimals(numbers), ","@) == Seq::<char>::empty(),
        numbers.len() > 0 ==> ({
            let parts = split_at(joined(decimals(numbers), ","@), ',');
            &&& parts.len() == numbers.len()
            &&& forall|i: int|
                0 <= i < numbers.len() ==> parsed_u32(#[trigger] parts[i]) == Some(numbers[i])
        }),
{
    reveal_strlit(",");
    assert(","@ =~= seq![',']);
    let parts = decimals(numbers);
    assert forall|i: int| 0 <= i < parts.len() implies !(#[trigger] parts[i]).contains(',') by {
        lemma_decimal_reads_back(numbers[i] as nat);
        if parts[i].contains(',') {
            let k = choose|k: int| 0 <= k < parts[i].len() && parts[i][k] == ',';
            assert(is_digit(decimal(numbers[i] as nat)[k]));
        }
    }
    if numbers.len() > 0 {
        law_joined_parts_split_back(parts, ',');
        assert forall|i: int| 0 <= i < numbers.len() implies parsed_u32(#[trigger] parts[i])
            == Some(numbers[i]) by {
            law_u32_text_round_trip(numbers[i]);
        }
    }
}

} // verus!
