//! Text helpers: decimal numerals, numeric lexemes, joining and lines.

use vstd::prelude::*;
use vstd::string::*;

verus! {

/// The character of a decimal digit.
pub open spec fn digit_char(d: nat) -> char {
    if d == 0 {
        '0'
    } else if d == 1 {
        '1'
    } else if d == 2 {
        '2'
    } else if d == 3 {
        '3'
    } else if d == 4 {
        '4'
    } else if d == 5 {
        '5'
    } else if d == 6 {
        '6'
    } else if d == 7 {
        '7'
    } else if d == 8 {
        '8'
    } else {
        '9'
    }
}

/// The decimal numeral of a natural number: no sign, no leading zero.
pub open spec fn decimal(n: nat) -> Seq<char>
    decreases n,
{
    if n < 10 {
        seq![digit_char(n)]
    } else {
        decimal(n / 10).push(digit_char(n % 10))
    }
}

/// The decimal numeral of an integer, with `-` before a negative one.
pub open spec fn signed_decimal(v: int) -> Seq<char> {
    if v < 0 {
        seq!['-'] + decimal((-v) as nat)
    } else {
        decimal(v as nat)
    }
}

fn digit_str(d: u64) -> (s: &'static str)
    requires
        d < 10,
    ensures
        s@ == seq![digit_char(d as nat)],
{
    proof {
        reveal_strlit("0");
        reveal_strlit("1");
        reveal_strlit("2");
        reveal_strlit("3");
        reveal_strlit("4");
        reveal_strlit("5");
        reveal_strlit("6");
        reveal_strlit("7");
        reveal_strlit("8");
        reveal_strlit("9");
    }
    let s = if d == 0 {
        "0"
    } else if d == 1 {
        "1"
    } else if d == 2 {
        "2"
    } else if d == 3 {
        "3"
    } else if d == 4 {
        "4"
    } else if d == 5 {
        "5"
    } else if d == 6 {
        "6"
    } else if d == 7 {
        "7"
    } else if d == 8 {
        "8"
    } else {
        "9"
    };
    assert(s@ =~= seq![digit_char(d as nat)]);
    s
}

/// Appends the decimal numeral of `n` to `out`.
pub fn push_decimal(out: &mut String, n: u64)
    ensures
        final(out)@ == old(out)@ + decimal(n as nat),
    decreases n,
{
    if n >= 10 {
        push_decimal(out, n / 10);
    }
    out.append(digit_str(n % 10));
    assert(final(out)@ =~= old(out)@ + decimal(n as nat));
}

/// Appends the decimal numeral of `v` to `out`.
pub fn push_signed_decimal(out: &mut String, v: i64)
    ensures
        final(out)@ == old(out)@ + signed_decimal(v as int),
{
    if v < 0 {
        proof {
            reveal_strlit("-");
        }
        out.append("-");
        let magnitude: u64 = ((-(v + 1)) as u64) + 1;
        push_decimal(out, magnitude);
        assert(final(out)@ =~= old(out)@ + signed_decimal(v as int));
    } else {
        push_decimal(out, v as u64);
    }
}

/// `String::push` appends one character to the end of the string.
pub assume_specification[ String::push ](s: &mut String, c: char)
    ensures
        final(s)@ == old(s)@.push(c),
;

/// Whether `c` is one of `0` to `9`.
pub open spec fn is_digit(c: char) -> bool {
    48 <= c as u32 <= 57
}

/// The value of a decimal digit.
pub open spec fn digit_value(c: char) -> nat {
    (c as u32 - 48) as nat
}

/// Whether every character of `s` is a decimal digit.
pub open spec fn all_digits(s: Seq<char>) -> bool {
    forall|i: int| 0 <= i < s.len() ==> is_digit(#[trigger] s[i])
}

/// The number that a run of decimal digits denotes.
pub open spec fn number(digits: Seq<char>) -> nat
    decreases digits.len(),
{
    if digits.len() == 0 {
        0
    } else {
        number(digits.drop_last()) * 10 + digit_value(digits.last())
    }
}

/// The integer that a lexeme denotes: an optional `+` or `-`, then one or
/// more decimal digits, the whole within the range of `i64`. Anything else
/// denotes nothing.
pub open spec fn int_value(s: Seq<char>) -> Option<i64> {
    let signed = s.len() > 0 && (s[0] == '-' || s[0] == '+');
    let negative = s.len() > 0 && s[0] == '-';
    let digits = if signed { s.skip(1) } else { s };
    let magnitude = number(digits) as int;
    let v = if negative { -magnitude } else { magnitude };
    if digits.len() == 0 || !all_digits(digits) || v < i64::MIN || v > i64::MAX {
        None
    } else {
        Some(v as i64)
    }
}

proof fn lemma_number_prefix(digits: Seq<char>, k: int)
    requires
        0 <= k <= digits.len(),
    ensures
        number(digits.take(k)) <= number(digits),
    decreases digits.len(),
{
    if k < digits.len() {
        lemma_number_prefix(digits.drop_last(), k);
        assert(digits.drop_last().take(k) =~= digits.take(k));
    } else {
        assert(digits.take(k) =~= digits);
    }
}

/// Reads the integer that `lexeme` denotes.
pub fn parse_int(lexeme: &str) -> (r: Option<i64>)
    ensures
        r == int_value(lexeme@),
{
    let n = lexeme.unicode_len();
    if n == 0 {
        return None;
    }
    let first = lexeme.get_char(0);
    let negative = first == '-';
    let start: usize = if first == '-' || first == '+' { 1 } else { 0 };
    if start == n {
        return None;
    }
    let limit: u64 = if negative { 9223372036854775808 } else { 9223372036854775807 };
    let ghost digits = lexeme@.skip(start as int);
    let mut acc: u64 = 0;
    let mut i: usize = start;
    assert(digits.take(0) =~= Seq::<char>::empty());
    assert(start == 0 ==> lexeme@.skip(0) =~= lexeme@);
    while i < n
        invariant
            start <= i <= n,
            n == lexeme@.len(),
            digits == lexeme@.skip(start as int),
            all_digits(digits.take(i - start)),
            acc == number(digits.take(i - start)),
            acc <= limit,
            limit == if negative { 9223372036854775808u64 } else { 9223372036854775807u64 },
            start < n,
            negative == (lexeme@[0] == '-'),
            start == if lexeme@[0] == '-' || lexeme@[0] == '+' { 1usize } else { 0usize },
        decreases n - i,
    {
        let c = lexeme.get_char(i);
        let code = c as u32;
        if code < 48 || code > 57 {
            assert(!is_digit(digits[i - start]));
            assert(start == 0 ==> lexeme@.skip(0) =~= lexeme@);
            return None;
        }
        let d: u64 = (code - 48) as u64;
        proof {
            assert(digits.take(i + 1 - start).drop_last() =~= digits.take(i - start));
            assert(digits.take(i + 1 - start).last() == c);
            assert(number(digits.take(i + 1 - start)) == acc * 10 + d);
        }
        if acc > (limit - d) / 10 {
            proof {
                lemma_number_prefix(digits, i + 1 - start);
                assert(start == 0 ==> lexeme@.skip(0) =~= lexeme@);
            }
            return None;
        }
        acc = acc * 10 + d;
        i = i + 1;
    }
    assert(digits.take(i - start) =~= digits);
    assert(start == 0 ==> lexeme@.skip(0) =~= lexeme@);
    if negative {
        if acc == 9223372036854775808 {
            Some(i64::MIN)
        } else {
            Some(-(acc as i64))
        }
    } else {
        Some(acc as i64)
    }
}

/// How many decimal digits stand in `s` from index `from` on without a break.
pub open spec fn digit_run(s: Seq<char>, from: int) -> nat
    decreases s.len() - from,
{
    if 0 <= from < s.len() && is_digit(s[from]) {
        1 + digit_run(s, from + 1)
    } else {
        0
    }
}

/// The lower-case form of an ASCII letter; any other character unchanged.
pub open spec fn ascii_lower(c: char) -> u32 {
    if 65 <= c as u32 <= 90 {
        (c as u32 + 32) as u32
    } else {
        c as u32
    }
}

/// Whether `s` spells `word` (given in lower case), letter case aside.
pub open spec fn spells(s: Seq<char>, word: Seq<char>) -> bool {
    &&& s.len() == word.len()
    &&& forall|i: int| 0 <= i < s.len() ==> ascii_lower(#[trigger] s[i]) == word[i] as u32
}

/// Whether `s` from index `from` on is an exponent: `e` or `E`, an optional
/// sign, then one or more digits up to the end.
pub open spec fn is_exponent(s: Seq<char>, from: int) -> bool {
    let signed = from + 1 < s.len() && (s[from + 1] == '+' || s[from + 1] == '-');
    let digits_from = if signed { from + 2 } else { from + 1 };
    &&& 0 <= from < s.len()
    &&& (s[from] == 'e' || s[from] == 'E')
    &&& digit_run(s, digits_from) > 0
    &&& digits_from + digit_run(s, digits_from) == s.len()
}

/// Whether `s` is an unsigned decimal number: digits with an optional point,
/// at least one digit before or after it, and an optional exponent.
pub open spec fn is_decimal_number(s: Seq<char>) -> bool {
    let whole = digit_run(s, 0) as int;
    let pointed = whole < s.len() && s[whole] == '.';
    let fraction = if pointed { digit_run(s, whole + 1) as int } else { 0 };
    let end = if pointed { whole + 1 + fraction } else { whole };
    &&& whole > 0 || fraction > 0
    &&& end == s.len() || is_exponent(s, end)
}

/// Whether a lexeme denotes a floating-point number: an optional sign, then
/// `inf`, `infinity` or `nan` in any letter case, or a decimal number.
pub open spec fn is_float_text(s: Seq<char>) -> bool {
    let signed = s.len() > 0 && (s[0] == '-' || s[0] == '+');
    let body = if signed { s.skip(1) } else { s };
    ||| spells(body, "inf"@)
    ||| spells(body, "infinity"@)
    ||| spells(body, "nan"@)
    ||| is_decimal_number(body)
}

fn lower_code(c: char) -> (code: u32)
    ensures
        code == ascii_lower(c),
{
    let code = c as u32;
    if 65 <= code && code <= 90 {
        code + 32
    } else {
        code
    }
}

/// Whether `s` from character `start` to its end spells `word`.
fn spells_from(s: &str, n: usize, start: usize, word: &str) -> (r: bool)
    requires
        n == s@.len(),
        start <= n,
    ensures
        r == spells(s@.skip(start as int), word@),
{
    let m = word.unicode_len();
    if n - start != m {
        return false;
    }
    let mut i: usize = 0;
    while i < m
        invariant
            i <= m,
            m == word@.len(),
            n == s@.len(),
            start <= n,
            n - start == m,
            forall|j: int| 0 <= j < i ==> ascii_lower(#[trigger] s@.skip(start as int)[j]) == word@[j] as u32,
        decreases m - i,
    {
        let a = lower_code(s.get_char(start + i));
        let b = word.get_char(i) as u32;
        if a != b {
            assert(ascii_lower(s@.skip(start as int)[i as int]) != word@[i as int] as u32);
            return false;
        }
        i = i + 1;
    }
    true
}

/// The index of the first character at or after `from` that is no digit.
fn skip_digits(s: &str, n: usize, from: usize) -> (to: usize)
    requires
        n == s@.len(),
        from <= n,
    ensures
        to == from + digit_run(s@, from as int),
        to <= n,
{
    let mut i: usize = from;
    while i < n
        invariant
            from <= i <= n,
            n == s@.len(),
            i - from + digit_run(s@, i as int) == digit_run(s@, from as int),
        decreases n - i,
    {
        let code = s.get_char(i) as u32;
        if code < 48 || code > 57 {
            return i;
        }
        i = i + 1;
    }
    i
}

fn exponent_at(s: &str, n: usize, from: usize) -> (r: bool)
    requires
        n == s@.len(),
        from < n,
    ensures
        r == is_exponent(s@, from as int),
{
    let c = s.get_char(from);
    if c != 'e' && c != 'E' {
        return false;
    }
    let mut digits_from = from + 1;
    if digits_from < n {
        let sign = s.get_char(digits_from);
        if sign == '+' || sign == '-' {
            digits_from = digits_from + 1;
        }
    }
    let to = skip_digits(s, n, digits_from);
    to > digits_from && to == n
}

fn decimal_number_from(s: &str, n: usize, start: usize) -> (r: bool)
    requires
        n == s@.len(),
        start <= n,
    ensures
        r == is_decimal_number(s@.skip(start as int)),
{
    let ghost body = s@.skip(start as int);
    let whole_end = skip_digits(s, n, start);
    proof {
        lemma_digit_run_skip(s@, start as int, start as int);
    }
    let mut end = whole_end;
    let mut fraction: usize = 0;
    if whole_end < n && s.get_char(whole_end) == '.' {
        let fraction_end = skip_digits(s, n, whole_end + 1);
        proof {
            lemma_digit_run_skip(s@, start as int, whole_end + 1);
        }
        fraction = fraction_end - (whole_end + 1);
        end = fraction_end;
    }
    if !(whole_end > start || fraction > 0) {
        return false;
    }
    if end == n {
        return true;
    }
    proof {
        lemma_exponent_skip(s@, start as int, end as int);
    }
    exponent_at(s, n, end)
}

proof fn lemma_digit_run_skip(s: Seq<char>, start: int, from: int)
    requires
        0 <= start <= from <= s.len(),
    ensures
        digit_run(s.skip(start), from - start) == digit_run(s, from),
    decreases s.len() - from,
{
    if from < s.len() && is_digit(s[from]) {
        lemma_digit_run_skip(s, start, from + 1);
    }
}

proof fn lemma_exponent_skip(s: Seq<char>, start: int, from: int)
    requires
        0 <= start <= from < s.len(),
    ensures
        is_exponent(s.skip(start), from - start) == is_exponent(s, from),
{
    let t = s.skip(start);
    let signed = from + 1 < s.len() && (s[from + 1] == '+' || s[from + 1] == '-');
    let digits_from = if signed { from + 2 } else { from + 1 };
    if digits_from <= s.len() {
        lemma_digit_run_skip(s, start, digits_from);
    }
}

/// Whether `lexeme` denotes a floating-point number.
pub fn is_float_lexeme(lexeme: &str) -> (r: bool)
    ensures
        r == is_float_text(lexeme@),
{
    let n = lexeme.unicode_len();
    let mut start: usize = 0;
    if n > 0 {
        let first = lexeme.get_char(0);
        if first == '-' || first == '+' {
            start = 1;
        }
    }
    assert(start == 0 ==> lexeme@.skip(0) =~= lexeme@);
    spells_from(lexeme, n, start, "inf") || spells_from(lexeme, n, start, "infinity")
        || spells_from(lexeme, n, start, "nan") || decimal_number_from(lexeme, n, start)
}

/// The parts of `parts` in order, with `sep` between each two.
pub open spec fn join(parts: Seq<Seq<char>>, sep: Seq<char>) -> Seq<char>
    decreases parts.len(),
{
    if parts.len() == 0 {
        Seq::empty()
    } else if parts.len() == 1 {
        parts[0]
    } else {
        join(parts.drop_last(), sep) + sep + parts.last()
    }
}

/// Joining one part more: the first part stands alone, each later one
/// follows a separator.
pub proof fn lemma_join_next(parts: Seq<Seq<char>>, sep: Seq<char>, i: int)
    requires
        0 <= i < parts.len(),
    ensures
        join(parts.take(i + 1), sep) == if i == 0 {
            parts[0]
        } else {
            join(parts.take(i), sep) + sep + parts[i]
        },
{
    assert(parts.take(i + 1).drop_last() =~= parts.take(i));
    assert(parts.take(i + 1).last() == parts[i]);
}

/// How many line breaks `text` holds.
pub open spec fn line_breaks(text: Seq<char>) -> nat
    decreases text.len(),
{
    if text.len() == 0 {
        0
    } else {
        line_breaks(text.drop_last()) + if text.last() == '\n' { 1nat } else { 0nat }
    }
}

/// Line `n` of `text`, counted from 0: the characters that stand after
/// exactly `n` line breaks and are no line break themselves. Empty where
/// `text` has no such line.
pub open spec fn line_at(text: Seq<char>, n: nat) -> Seq<char>
    decreases text.len(),
{
    if text.len() == 0 {
        Seq::empty()
    } else {
        let before = line_at(text.drop_last(), n);
        if text.last() != '\n' && line_breaks(text.drop_last()) == n {
            before.push(text.last())
        } else {
            before
        }
    }
}

/// Line `n` of `text`, counted from 0.
pub fn line_of(text: &str, n: usize) -> (line: String)
    ensures
        line@ == line_at(text@, n as nat),
{
    let total = text.unicode_len();
    let mut line = String::new();
    let mut seen: usize = 0;
    for c in it: text.chars()
        invariant
            it.seq() == text@,
            total == text@.len(),
            it.index() <= total,
            seen == line_breaks(text@.take(it.index() as int)),
            seen <= it.index(),
            line@ == line_at(text@.take(it.index() as int), n as nat),
    {
        assert(text@.take(it.index() + 1).drop_last() =~= text@.take(it.index() as int));
        if c == '\n' {
            seen = seen + 1;
        } else if seen == n {
            line.push(c);
        }
    }
    assert(text@.take(text@.len() as int) =~= text@);
    line
}

} // verus!
