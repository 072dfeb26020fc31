//! Characters, decimal numbers and path strings.
use vstd::prelude::*;
use vstd::string::StringExecFns;

verus! {

/// `String::push` appends one character to the end of the string.
pub assume_specification[ String::push ](s: &mut String, c: char)
    ensures
        final(s)@ == old(s)@.push(c),
;

/// The characters of `s`, in order.
pub fn chars_of(s: &str) -> (r: Vec<char>)
    ensures
        r@ == s@,
{
    let mut out: Vec<char> = Vec::new();
    for c in it: s.chars()
        invariant
            out@ == it.seq().take(it.index() as int),
    {
        out.push(c);
    }
    out
}

/// The string made of `chars[from..to]`.
pub fn text_of(chars: &[char], from: usize, to: usize) -> (r: String)
    requires
        from <= to <= chars.len(),
    ensures
        r@ == chars@.subrange(from as int, to as int),
{
    let mut out = String::new();
    let mut i: usize = from;
    while i < to
        invariant
            from <= i <= to <= chars.len(),
            out@ == chars@.subrange(from as int, i as int),
        decreases to - i,
    {
        out.push(chars[i]);
        i += 1;
        assert(chars@.subrange(from as int, i as int) == chars@.subrange(
            from as int,
            i - 1,
        ).push(chars@[i - 1]));
    }
    out
}

/// Whether two strings hold the same characters.
pub fn same_text(a: &str, b: &str) -> (r: bool)
    ensures
        r == (a@ == b@),
{
    let x = a.to_owned();
    let y = b.to_owned();
    x == y
}

/// The characters with Unicode's `White_Space` property.
pub open spec fn is_space(c: char) -> bool {
    let n = c as u32;
    ||| 0x09 <= n <= 0x0D
    ||| n == 0x20
    ||| n == 0x85
    ||| n == 0xA0
    ||| n == 0x1680
    ||| 0x2000 <= n <= 0x200A
    ||| n == 0x2028
    ||| n == 0x2029
    ||| n == 0x202F
    ||| n == 0x205F
    ||| n == 0x3000
}

pub fn is_whitespace(c: char) -> (r: bool)
    ensures
        r == is_space(c),
{
    let n: u32 = c as u32;
    (0x09 <= n && n <= 0x0D) || n == 0x20 || n == 0x85 || n == 0xA0 || n == 0x1680 || (0x2000 <= n
        && n <= 0x200A) || n == 0x2028 || n == 0x2029 || n == 0x202F || n == 0x205F || n
        == 0x3000
}

/// The first index at or after `from` at which `s` holds `c`, or the length
/// of `s` where it holds none.
pub open spec fn find_char(s: Seq<char>, c: char, from: int) -> int
    decreases s.len() - from,
{
    if 0 <= from < s.len() {
        if s[from] == c {
            from
        } else {
            find_char(s, c, from + 1)
        }
    } else {
        from
    }
}

pub proof fn lemma_find_char(s: Seq<char>, c: char, from: int)
    requires
        0 <= from <= s.len(),
    ensures
        from <= find_char(s, c, from) <= s.len(),
        find_char(s, c, from) < s.len() ==> s[find_char(s, c, from)] == c,
        forall|i: int| from <= i < find_char(s, c, from) ==> s[i] != c,
    decreases s.len() - from,
{
    if from < s.len() && s[from] != c {
        lemma_find_char(s, c, from + 1);
    }
}

/// Scans `chars` from `from` for `c`; see [`find_char`].
pub fn index_of(chars: &[char], c: char, from: usize) -> (r: usize)
    requires
        from <= chars.len(),
    ensures
        r == find_char(chars@, c, from as int),
        from <= r <= chars.len(),
{
    let mut i: usize = from;
    while i < chars.len() && chars[i] != c
        invariant
            from <= i <= chars.len(),
            find_char(chars@, c, from as int) == find_char(chars@, c, i as int),
        decreases chars.len() - i,
    {
        i += 1;
    }
    i
}

/// `base`, a backslash, and `name`: the path of `name` inside `base`. The two
/// are taken as they are: a base that ends in a separator gets one more, and
/// a name that is a path of its own is still put behind the base.
pub open spec fn joined(base: Seq<char>, name: Seq<char>) -> Seq<char> {
    base.push('\\') + name
}

/// The path of `name` inside the directory `base`; see [`joined`].
pub fn join_path(base: &str, name: &str) -> (r: String)
    ensures
        r@ == joined(base@, name@),
{
    let mut out = base.to_owned();
    out.push('\\');
    out.append(name);
    out
}

/// The decimal digits `0` to `9`.
pub open spec fn is_digit(c: char) -> bool {
    '0' <= c <= '9'
}

/// What a decimal digit counts.
pub open spec fn digit_value(c: char) -> int {
    c as int - '0' as int
}

pub open spec fn all_digits(s: Seq<char>) -> bool {
    forall|i: int| 0 <= i < s.len() ==> is_digit(#[trigger] s[i])
}

/// One or more decimal digits and nothing else.
pub open spec fn is_number(s: Seq<char>) -> bool {
    s.len() > 0 && all_digits(s)
}

/// The number that a run of decimal digits writes.
pub open spec fn decimal_value(s: Seq<char>) -> int
    decreases s.len(),
{
    if s.len() == 0 {
        0
    } else {
        10 * decimal_value(s.drop_last()) + digit_value(s.last())
    }
}

/// The integer that `s` writes: an optional sign, which is `+` or, where
/// `negative` allows it, `-`, and then one or more decimal digits.
pub open spec fn integer_value(s: Seq<char>, negative: bool) -> Option<int> {
    if s.len() > 0 && s[0] == '-' && negative {
        if is_number(s.skip(1)) {
            Some(-decimal_value(s.skip(1)))
        } else {
            None
        }
    } else if s.len() > 0 && s[0] == '+' {
        if is_number(s.skip(1)) {
            Some(decimal_value(s.skip(1)))
        } else {
            None
        }
    } else if is_number(s) {
        Some(decimal_value(s))
    } else {
        None
    }
}

/// The `i64` that `s` writes, where it writes one that fits.
pub open spec fn i64_value(s: Seq<char>) -> Option<i64> {
    match integer_value(s, true) {
        Some(v) => if i64::MIN <= v <= i64::MAX {
            Some(v as i64)
        } else {
            None
        },
        None => None,
    }
}

/// The `i32` that `s` writes, where it writes one that fits.
pub open spec fn i32_value(s: Seq<char>) -> Option<i32> {
    match integer_value(s, true) {
        Some(v) => if i32::MIN <= v <= i32::MAX {
            Some(v as i32)
        } else {
            None
        },
        None => None,
    }
}

/// The `u64` that `s` writes, where it writes one that fits. A minus sign is
/// no part of an unsigned number.
pub open spec fn u64_value(s: Seq<char>) -> Option<u64> {
    match integer_value(s, false) {
        Some(v) => if v <= u64::MAX {
            Some(v as u64)
        } else {
            None
        },
        None => None,
    }
}

pub proof fn lemma_decimal_value_push(s: Seq<char>, c: char)
    ensures
        decimal_value(s.push(c)) == 10 * decimal_value(s) + digit_value(c),
{
    assert(s.push(c).drop_last() == s);
}

/// Digits write a number that is not negative, and more digits behind them
/// never write a smaller one.
pub proof fn lemma_decimal_value_grows(s: Seq<char>, k: int)
    requires
        all_digits(s),
        0 <= k <= s.len(),
    ensures
        0 <= decimal_value(s.take(k)) <= decimal_value(s),
    decreases s.len() - k,
{
    if k == s.len() {
        assert(s.take(k) == s);
        lemma_decimal_value_nonnegative(s);
    } else {
        lemma_decimal_value_grows(s, k + 1);
        assert(s.take(k + 1).drop_last() == s.take(k));
        assert(is_digit(s[k]));
        lemma_decimal_value_nonnegative(s.take(k));
    }
}

pub proof fn lemma_decimal_value_nonnegative(s: Seq<char>)
    requires
        all_digits(s),
    ensures
        0 <= decimal_value(s),
    decreases s.len(),
{
    if s.len() > 0 {
        assert(is_digit(s[s.len() - 1]));
        lemma_decimal_value_nonnegative(s.drop_last());
    }
}

/// The number that the digits `chars[from..]` write, where they are one or
/// more digits that write at most `limit`.
fn magnitude(chars: &[char], from: usize, limit: u64) -> (r: Option<u64>)
    requires
        from <= chars.len(),
    ensures
        r == if is_number(chars@.skip(from as int)) && decimal_value(chars@.skip(from as int))
            <= limit {
            Some(decimal_value(chars@.skip(from as int)) as u64)
        } else {
            None::<u64>
        },
{
    let ghost digits = chars@.skip(from as int);
    if from == chars.len() {
        return None;
    }
    let mut acc: u64 = 0;
    let mut i: usize = from;
    while i < chars.len()
        invariant
            from <= i <= chars.len(),
            digits == chars@.skip(from as int),
            all_digits(digits.take(i - from)),
            acc == decimal_value(digits.take(i - from)),
            acc <= limit,
        decreases chars.len() - i,
    {
        let c = chars[i];
        assert(digits[i - from] == c);
        if !('0' <= c && c <= '9') {
            return None;
        }
        let d: u32 = c as u32 - '0' as u32;
        let next: u128 = 10 * (acc as u128) + d as u128;
        proof {
            assert(digits.take(i - from + 1) == digits.take(i - from).push(c));
            lemma_decimal_value_push(digits.take(i - from), c);
            assert(next == decimal_value(digits.take(i - from + 1)));
            assert forall|k: int| 0 <= k < i - from + 1 implies is_digit(
                #[trigger] digits.take(i - from + 1)[k],
            ) by {
                if k < i - from {
                    assert(digits.take(i - from + 1)[k] == digits.take(i - from)[k]);
                }
            }
            if all_digits(digits) {
                lemma_decimal_value_grows(digits, i - from + 1);
            }
        }
        if next > limit as u128 {
            return None;
        }
        acc = next as u64;
        i += 1;
    }
    assert(digits.take(i - from) == digits);
    Some(acc)
}

/// Reads a signed 64-bit integer, as [`i64_value`] says.
pub fn parse_i64(text: &str) -> (r: Option<i64>)
    ensures
        r == i64_value(text@),
{
    let chars = chars_of(text);
    proof {
        if chars.len() > 0 && is_number(chars@.skip(1)) {
            lemma_decimal_value_nonnegative(chars@.skip(1));
        }
        if is_number(chars@) {
            lemma_decimal_value_nonnegative(chars@);
        }
    }
    if chars.len() > 0 && chars[0] == '-' {
        match magnitude(chars.as_slice(), 1, 0x8000_0000_0000_0000) {
            Some(m) => {
                let v: i128 = 0 - (m as i128);
                Some(v as i64)
            },
            None => None,
        }
    } else if chars.len() > 0 && chars[0] == '+' {
        match magnitude(chars.as_slice(), 1, 0x7FFF_FFFF_FFFF_FFFF) {
            Some(m) => Some(m as i64),
            None => None,
        }
    } else {
        assert(chars@.skip(0) == chars@);
        match magnitude(chars.as_slice(), 0, 0x7FFF_FFFF_FFFF_FFFF) {
            Some(m) => Some(m as i64),
            None => None,
        }
    }
}

/// Reads a signed 32-bit integer, as [`i32_value`] says.
pub fn parse_i32(text: &str) -> (r: Option<i32>)
    ensures
        r == i32_value(text@),
{
    match parse_i64(text) {
        Some(v) => if -0x8000_0000 <= v && v <= 0x7FFF_FFFF {
            Some(v as i32)
        } else {
            None
        },
        None => {
            proof {
                let s = text@;
                if s.len() > 0 && (s[0] == '-' || s[0] == '+') {
                    if is_number(s.skip(1)) {
                        lemma_decimal_value_nonnegative(s.skip(1));
                    }
                } else if is_number(s) {
                    lemma_decimal_value_nonnegative(s);
                }
            }
            None
        },
    }
}

/// Reads an unsigned 64-bit integer, as [`u64_value`] says.
pub fn parse_u64(text: &str) -> (r: Option<u64>)
    ensures
        r == u64_value(text@),
{
    let chars = chars_of(text);
    if chars.len() > 0 && chars[0] == '+' {
        proof {
            if is_number(chars@.skip(1)) {
                lemma_decimal_value_nonnegative(chars@.skip(1));
            }
        }
        magnitude(chars.as_slice(), 1, 0xFFFF_FFFF_FFFF_FFFF)
    } else {
        assert(chars@.skip(0) == chars@);
        proof {
            if is_number(chars@) {
                lemma_decimal_value_nonnegative(chars@);
            }
        }
        magnitude(chars.as_slice(), 0, 0xFFFF_FFFF_FFFF_FFFF)
    }
}

/// The character of a digit below ten.
pub open spec fn digit_char(d: int) -> char {
    if d == 0 {
        '0'
    } else if d == 1 {
        '1'
    } else if d == 2 {
        '2'
    } else if d == 3 {
        '3'
    } else if d == 4 {
        '4'
    } else if d == 5 {
        '5'
    } else if d == 6 {
        '6'
    } else if d == 7 {
        '7'
    } else if d == 8 {
        '8'
    } else {
        '9'
    }
}

/// The decimal digits of `n`, without leading zeros.
pub open spec fn decimal_digits(n: nat) -> Seq<char>
    decreases n,
{
    if n < 10 {
        seq![digit_char(n as int)]
    } else {
        decimal_digits(n / 10).push(digit_char((n % 10) as int))
    }
}

/// How `n` is written: a minus sign where it is negative, then the decimal
/// digits of its magnitude.
pub open spec fn decimal_text(n: int) -> Seq<char> {
    if n < 0 {
        seq!['-'] + decimal_digits((-n) as nat)
    } else {
        decimal_digits(n as nat)
    }
}

fn digit_of(d: u64) -> (c: char)
    requires
        d < 10,
    ensures
        c == digit_char(d as int),
        is_digit(c),
        digit_value(c) == d,
{
    if d == 0 {
        '0'
    } else if d == 1 {
        '1'
    } else if d == 2 {
        '2'
    } else if d == 3 {
        '3'
    } else if d == 4 {
        '4'
    } else if d == 5 {
        '5'
    } else if d == 6 {
        '6'
    } else if d == 7 {
        '7'
    } else if d == 8 {
        '8'
    } else {
        '9'
    }
}

fn push_digits(out: &mut String, n: u64)
    ensures
        final(out)@ == old(out)@ + decimal_digits(n as nat),
    decreases n,
{
    if n >= 10 {
        push_digits(out, n / 10);
    }
    out.push(digit_of(n % 10));
    assert(final(out)@ =~= old(out)@ + decimal_digits(n as nat));
}

/// Writes `n` in decimal; see [`decimal_text`].
pub fn decimal(n: i64) -> (r: String)
    ensures
        r@ == decimal_text(n as int),
{
    let mut out = String::new();
    if n < 0 {
        out.push('-');
        let m: i128 = 0 - (n as i128);
        push_digits(&mut out, m as u64);
    } else {
        push_digits(&mut out, n as u64);
    }
    assert(out@ =~= decimal_text(n as int));
    out
}

/// The digits of a number write that number.
pub proof fn lemma_decimal_digits_value(n: nat)
    ensures
        is_number(decimal_digits(n)),
        decimal_value(decimal_digits(n)) == n,
        decimal_digits(n)[0] != '-',
        decimal_digits(n)[0] != '+',
    decreases n,
{
    let last = digit_char((n % 10) as int);
    assert(is_digit(last) && digit_value(last) == n % 10);
    if n >= 10 {
        lemma_decimal_digits_value(n / 10);
        lemma_decimal_value_push(decimal_digits(n / 10), last);
    } else {
        lemma_decimal_value_push(Seq::<char>::empty(), last);
        assert(Seq::<char>::empty().push(last) == decimal_digits(n));
        assert(decimal_value(Seq::<char>::empty()) == 0);
    }
}

/// What [`decimal`] writes, [`parse_i64`] reads back.
pub proof fn lemma_decimal_round_trip(n: i64)
    ensures
        i64_value(decimal_text(n as int)) == Some(n),
{
    let s = decimal_text(n as int);
    if n < 0 {
        lemma_decimal_digits_value((-n) as nat);
        assert(s.skip(1) == decimal_digits((-n) as nat));
    } else {
        lemma_decimal_digits_value(n as nat);
    }
}

/// What is written of a 32-bit integer is read back as that integer.
pub proof fn lemma_decimal_i32_round_trip(n: i32)
    ensures
        i32_value(decimal_text(n as int)) == Some(n),
{
    let s = decimal_text(n as int);
    if n < 0 {
        lemma_decimal_digits_value((-n) as nat);
        assert(s.skip(1) == decimal_digits((-n) as nat));
    } else {
        lemma_decimal_digits_value(n as nat);
    }
}

} // verus!
