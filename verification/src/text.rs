//! Numbers and bytes as text.
use vstd::prelude::*;
use vstd::string::StringExecFns;

verus! {

/// `String::push` appends one character.
pub assume_specification[ String::push ](s: &mut String, c: char)
    ensures
        final(s)@ == old(s)@.push(c),
;

/// The character of a digit below ten.
pub open spec fn digit_char(digit: nat) -> char {
    (48 + digit) as char
}

/// `n` in decimal, without leading zeros.
pub open spec fn decimal(n: nat) -> Seq<char>
    decreases n,
{
    if n < 10 {
        seq![digit_char(n)]
    } else {
        decimal(n / 10).push(digit_char(n % 10))
    }
}

/// The character of a digit below sixteen, in lower case.
pub open spec fn hex_char(digit: nat) -> char {
    if digit < 10 {
        (48 + digit) as char
    } else {
        (87 + digit) as char
    }
}

/// Two hexadecimal digits per byte.
pub open spec fn hex(bytes: Seq<u8>) -> Seq<char>
    decreases bytes.len(),
{
    if bytes.len() == 0 {
        Seq::empty()
    } else {
        hex(bytes.drop_last()).push(hex_char((bytes.last() / 16) as nat)).push(
            hex_char((bytes.last() % 16) as nat),
        )
    }
}

/// Appends `n` in decimal.
pub fn push_decimal(out: &mut String, n: u128)
    ensures
        final(out)@ == old(out)@ + decimal(n as nat),
    decreases n,
{
    if n >= 10 {
        push_decimal(out, n / 10);
    }
    let digit: u8 = 48 + (n % 10) as u8;
    out.push(digit as char);
    assert(out@ =~= old(out)@ + decimal(n as nat));
}

/// `n` in decimal, with a zero before a single digit.
pub open spec fn two_digits(n: nat) -> Seq<char> {
    if n < 10 {
        "0"@ + decimal(n)
    } else {
        decimal(n)
    }
}

/// `prefix` and behind it `n` with at least two digits.
pub fn numbered(prefix: &str, n: usize) -> (text: String)
    ensures
        text@ == prefix@ + two_digits(n as nat),
{
    let mut text = prefix.to_owned();
    if n < 10 {
        text.append("0");
    }
    push_decimal(&mut text, n as u128);
    assert(text@ =~= prefix@ + two_digits(n as nat));
    text
}

/// Appends the character of a digit below sixteen.
fn push_hex_digit(out: &mut String, digit: u8)
    requires
        digit < 16,
    ensures
        final(out)@ == old(out)@.push(hex_char(digit as nat)),
{
    let code: u8 = if digit < 10 {
        48 + digit
    } else {
        87 + digit
    };
    out.push(code as char);
}

/// Writes each byte as two lower-case hexadecimal digits.
pub fn hex_encode(bytes: &[u8]) -> (text: String)
    ensures
        text@ == hex(bytes@),
{
    let mut text = String::new();
    let mut i: usize = 0;
    assert(bytes@.take(0) =~= Seq::empty());
    while i < bytes.len()
        invariant
            i <= bytes@.len(),
            text@ == hex(bytes@.take(i as int)),
        decreases bytes@.len() - i,
    {
        proof {
            let upto = bytes@.take(i + 1);
            assert(upto.drop_last() =~= bytes@.take(i as int));
            assert(upto.last() == bytes@[i as int]);
        }
        let byte: u8 = bytes[i];
        push_hex_digit(&mut text, byte / 16);
        push_hex_digit(&mut text, byte % 16);
        i = i + 1;
    }
    assert(bytes@.take(i as int) =~= bytes@);
    text
}

/// The characters of a text, for access by index.
pub fn chars_of(text: &str) -> (chars: Vec<char>)
    ensures
        chars@ == text@,
{
    let mut chars: Vec<char> = Vec::new();
    for c in it: text.chars()
        invariant
            it.seq() == text@,
            chars@ == it.seq().take(it.index() as int),
    {
        chars.push(c);
        assert(chars@ =~= it.seq().take(it.index() as int + 1));
    }
    assert(chars@ =~= text@);
    chars
}

/// `n` times the same character.
pub open spec fn repeated(c: char, n: nat) -> Seq<char> {
    Seq::new(n, |i: int| c)
}

/// Appends `n` times the same character.
pub fn push_repeated(out: &mut String, c: char, n: usize)
    ensures
        final(out)@ == old(out)@ + repeated(c, n as nat),
{
    let mut i: usize = 0;
    assert(out@ =~= old(out)@ + repeated(c, 0));
    while i < n
        invariant
            i <= n,
            out@ == old(out)@ + repeated(c, i as nat),
        decreases n - i,
    {
        out.push(c);
        i = i + 1;
        assert(out@ =~= old(out)@ + repeated(c, i as nat));
    }
}

/// How many blanks bring `text` to `width` characters.
pub open spec fn missing_blanks(text: Seq<char>, width: nat) -> nat {
    if text.len() < width {
        (width - text.len()) as nat
    } else {
        0
    }
}

/// `text` with blanks behind it, up to `width` characters.
pub open spec fn left_aligned(text: Seq<char>, width: nat) -> Seq<char> {
    text + repeated(' ', missing_blanks(text, width))
}

/// `text` with blanks before it, up to `width` characters.
pub open spec fn right_aligned(text: Seq<char>, width: nat) -> Seq<char> {
    repeated(' ', missing_blanks(text, width)) + text
}

/// Counts the blanks that bring `text` to `width` characters.
fn blanks_for(text: &str, width: usize) -> (n: usize)
    ensures
        n == missing_blanks(text@, width as nat),
{
    let len: usize = text.unicode_len();
    if len < width {
        width - len
    } else {
        0
    }
}

/// Appends `text` and blanks behind it.
pub fn push_left_aligned(out: &mut String, text: &str, width: usize)
    ensures
        final(out)@ == old(out)@ + left_aligned(text@, width as nat),
{
    let blanks: usize = blanks_for(text, width);
    out.append(text);
    push_repeated(out, ' ', blanks);
    assert(out@ =~= old(out)@ + left_aligned(text@, width as nat));
}

/// Appends blanks and `text` behind them.
pub fn push_right_aligned(out: &mut String, text: &str, width: usize)
    ensures
        final(out)@ == old(out)@ + right_aligned(text@, width as nat),
{
    let blanks: usize = blanks_for(text, width);
    push_repeated(out, ' ', blanks);
    out.append(text);
    assert(out@ =~= old(out)@ + right_aligned(text@, width as nat));
}

/// Whether `c` is one of the ten decimal digits.
pub open spec fn is_digit(c: char) -> bool {
    '0' <= c <= '9'
}

/// Whether `text` is made of decimal digits and nothing else.
pub open spec fn all_digits(text: Seq<char>) -> bool {
    forall|i: int| 0 <= i < text.len() ==> is_digit(#[trigger] text[i])
}

/// The number that the digits in `text` stand for.
pub open spec fn digits_value(text: Seq<char>) -> nat
    decreases text.len(),
{
    if text.len() == 0 {
        0
    } else {
        10 * digits_value(text.drop_last()) + (text.last() as nat - 48) as nat
    }
}

/// The digits of a number that may have a plus sign before them.
pub open spec fn unsigned_digits(text: Seq<char>) -> Seq<char> {
    if text.len() > 0 && text[0] == '+' {
        text.skip(1)
    } else {
        text
    }
}

/// The unsigned number up to `max` that `text` stands for: at least one digit,
/// with or without a plus sign before it.
pub open spec fn parsed_unsigned(text: Seq<char>, max: nat) -> Option<nat> {
    let digits = unsigned_digits(text);
    if digits.len() > 0 && all_digits(digits) && digits_value(digits) <= max {
        Some(digits_value(digits))
    } else {
        None
    }
}

/// More digits never make a number smaller.
proof fn digits_value_of_prefix(text: Seq<char>, n: int)
    requires
        0 <= n <= text.len(),
        all_digits(text),
    ensures
        digits_value(text.take(n)) <= digits_value(text),
    decreases text.len(),
{
    if n == text.len() {
        assert(text.take(n) =~= text);
    } else {
        digits_value_of_prefix(text.drop_last(), n);
        assert(text.drop_last().take(n) =~= text.take(n));
    }
}

/// Reads an unsigned number that is at most `max`.
pub fn parse_unsigned(text: &str, max: u64) -> (res: Option<u64>)
    ensures
        match res {
            Some(n) => parsed_unsigned(text@, max as nat) == Some(n as nat),
            None => parsed_unsigned(text@, max as nat) is None,
        },
{
    let chars = chars_of(text);
    let start: usize = if chars.len() > 0 && chars[0] == '+' {
        1
    } else {
        0
    };
    let ghost digits = unsigned_digits(text@);
    assert(digits =~= text@.skip(start as int));
    if chars.len() == start {
        return None;
    }
    let mut value: u64 = 0;
    let mut i: usize = start;
    assert(digits.take(0) =~= Seq::empty());
    while i < chars.len()
        invariant
            chars@ == text@,
            start <= i <= chars@.len(),
            digits == unsigned_digits(text@),
            digits == text@.skip(start as int),
            all_digits(digits.take(i - start)),
            value == digits_value(digits.take(i - start)),
            value <= max,
        decreases chars@.len() - i,
    {
        let c: char = chars[i];
        let ghost upto = digits.take(i - start + 1);
        assert(upto.drop_last() =~= digits.take(i - start));
        assert(upto.last() == c);
        if !('0' <= c && c <= '9') {
            assert(!is_digit(digits[i - start]));
            return None;
        }
        let digit: u64 = c as u64 - 48;
        proof {
            assert forall|j: int| 0 <= j < upto.len() implies is_digit(#[trigger] upto[j]) by {
                if j < i - start {
                    assert(upto[j] == digits.take(i - start)[j]);
                }
            }
            if all_digits(digits) {
                digits_value_of_prefix(digits, i - start + 1);
            }
        }
        if digit > max || value > (max - digit) / 10 {
            assert(digits_value(upto) > max);
            return None;
        }
        value = value * 10 + digit;
        i = i + 1;
    }
    assert(digits.take(i - start) =~= digits);
    Some(value)
}

/// Every number is read back from its decimal form.
pub proof fn decimal_roundtrip(n: nat, max: nat)
    requires
        n <= max,
    ensures
        parsed_unsigned(decimal(n), max) == Some(n),
{
    decimal_digits(n);
    assert(is_digit(decimal(n)[0]));
}

/// A decimal form is made of digits that stand for the number.
proof fn decimal_digits(n: nat)
    ensures
        decimal(n).len() > 0,
        all_digits(decimal(n)),
        digits_value(decimal(n)) == n,
    decreases n,
{
    let text = decimal(n);
    reveal_with_fuel(digits_value, 2);
    if n < 10 {
        assert(text.drop_last() =~= Seq::empty());
        assert(text.last() == digit_char(n));
    } else {
        decimal_digits(n / 10);
        assert(text.drop_last() =~= decimal(n / 10));
        assert(text.last() == digit_char(n % 10));
    }
}

/// A hexadecimal text is twice as long as the bytes it shows.
pub proof fn hex_len(bytes: Seq<u8>)
    ensures
        hex(bytes).len() == 2 * bytes.len(),
    decreases bytes.len(),
{
    if bytes.len() > 0 {
        hex_len(bytes.drop_last());
    }
}

/// Different bytes have different hexadecimal texts.
pub proof fn hex_injective(a: Seq<u8>, b: Seq<u8>)
    requires
        hex(a) == hex(b),
    ensures
        a == b,
    decreases a.len(),
{
    hex_len(a);
    hex_len(b);
    if a.len() == 0 {
        assert(a =~= b);
    } else {
        let x = hex(a);
        let y = hex(b);
        assert(x.drop_last().drop_last() =~= hex(a.drop_last()));
        assert(y.drop_last().drop_last() =~= hex(b.drop_last()));
        hex_injective(a.drop_last(), b.drop_last());
        assert(x[x.len() - 2] == hex_char((a.last() / 16) as nat));
        assert(x[x.len() - 1] == hex_char((a.last() % 16) as nat));
        assert(y[y.len() - 2] == hex_char((b.last() / 16) as nat));
        assert(y[y.len() - 1] == hex_char((b.last() % 16) as nat));
        assert(a.last() == b.last());
        assert(a =~= a.drop_last().push(a.last()));
        assert(b =~= b.drop_last().push(b.last()));
    }
}

/// Whether `pattern` stands at place `at` of `text`.
pub open spec fn stands_at(text: Seq<char>, pattern: Seq<char>, at: int) -> bool {
    &&& 0 <= at <= text.len() - pattern.len()
    &&& text.subrange(at, at + pattern.len()) == pattern
}

/// `text` from place `from` on, with every occurrence of `pattern` replaced by
/// `with`, the leftmost first and without looking into what was put in.
pub open spec fn replaced_from(
    text: Seq<char>,
    pattern: Seq<char>,
    with: Seq<char>,
    from: int,
) -> Seq<char>
    decreases text.len() - from,
{
    if from < 0 || from >= text.len() {
        Seq::empty()
    } else if pattern.len() > 0 && stands_at(text, pattern, from) {
        with + replaced_from(text, pattern, with, from + pattern.len())
    } else {
        seq![text[from]] + replaced_from(text, pattern, with, from + 1)
    }
}

/// Whether `pattern` stands at place `at`.
fn pattern_at(text: &Vec<char>, pattern: &Vec<char>, at: usize) -> (res: bool)
    requires
        at <= text@.len(),
    ensures
        res == stands_at(text@, pattern@, at as int),
{
    if pattern.len() > text.len() - at {
        return false;
    }
    let mut i: usize = 0;
    while i < pattern.len()
        invariant
            i <= pattern@.len(),
            at + pattern.len() <= text.len(),
            forall|j: int| 0 <= j < i ==> text@[at + j] == pattern@[j],
        decreases pattern@.len() - i,
    {
        if text[at + i] != pattern[i] {
            assert(text@.subrange(at as int, at + pattern@.len())[i as int] != pattern@[i as int]);
            return false;
        }
        i = i + 1;
    }
    assert(text@.subrange(at as int, at + pattern@.len()) =~= pattern@);
    true
}

/// Replaces every occurrence of `pattern` in `text`.
pub fn replace_all(text: &str, pattern: &str, with: &str) -> (out: String)
    requires
        pattern@.len() > 0,
    ensures
        out@ == replaced_from(text@, pattern@, with@, 0),
{
    let chars = chars_of(text);
    let wanted = chars_of(pattern);
    let mut out = String::new();
    let mut i: usize = 0;
    assert(out@ + replaced_from(text@, pattern@, with@, 0) =~= replaced_from(
        text@,
        pattern@,
        with@,
        0,
    ));
    while i < chars.len()
        invariant
            chars@ == text@,
            wanted@ == pattern@,
            pattern@.len() > 0,
            i <= chars@.len(),
            out@ + replaced_from(text@, pattern@, with@, i as int) == replaced_from(
                text@,
                pattern@,
                with@,
                0,
            ),
        decreases chars@.len() - i,
    {
        let ghost before = out@;
        if pattern_at(&chars, &wanted, i) {
            out.append(with);
            i = i + wanted.len();
            assert(out@ + replaced_from(text@, pattern@, with@, i as int) =~= before + (with@
                + replaced_from(text@, pattern@, with@, i as int)));
        } else {
            out.push(chars[i]);
            i = i + 1;
            assert(out@ + replaced_from(text@, pattern@, with@, i as int) =~= before + (seq![
                text@[i - 1],
            ] + replaced_from(text@, pattern@, with@, i as int)));
        }
    }
    assert(out@ + replaced_from(text@, pattern@, with@, i as int) =~= out@);
    out
}

/// A text in which the pattern does not stand is left as it is.
pub proof fn replacing_nothing(text: Seq<char>, pattern: Seq<char>, with: Seq<char>, from: int)
    requires
        0 <= from <= text.len(),
        forall|at: int| from <= at < text.len() ==> !#[trigger] stands_at(text, pattern, at),
    ensures
        replaced_from(text, pattern, with, from) == text.skip(from),
    decreases text.len() - from,
{
    if from < text.len() {
        replacing_nothing(text, pattern, with, from + 1);
        assert(text.skip(from) =~= seq![text[from]] + text.skip(from + 1));
    } else {
        assert(text.skip(from) =~= Seq::empty());
    }
}

/// The first occurrence of the pattern is replaced, and what stands before it
/// is left as it is.
pub proof fn replacing_the_first(
    text: Seq<char>,
    pattern: Seq<char>,
    with: Seq<char>,
    from: int,
    at: int,
)
    requires
        pattern.len() > 0,
        0 <= from <= at,
        stands_at(text, pattern, at),
        forall|i: int| from <= i < at ==> !#[trigger] stands_at(text, pattern, i),
    ensures
        replaced_from(text, pattern, with, from) == text.subrange(from, at) + with + replaced_from(
            text,
            pattern,
            with,
            at + pattern.len(),
        ),
    decreases at - from,
{
    let rest = replaced_from(text, pattern, with, at + pattern.len());
    if from < at {
        replacing_the_first(text, pattern, with, from + 1, at);
        assert(seq![text[from]] + (text.subrange(from + 1, at) + with + rest) =~= text.subrange(
            from,
            at,
        ) + with + rest);
    } else {
        assert(text.subrange(from, at) + with + rest =~= with + rest);
    }
}

/// A text put between two others stands behind the first.
pub proof fn stands_between(before: Seq<char>, middle: Seq<char>, after: Seq<char>)
    ensures
        (before + middle + after).subrange(
            before.len() as int,
            (before.len() + middle.len()) as int,
        ) == middle,
{
    assert((before + middle + after).subrange(
        before.len() as int,
        (before.len() + middle.len()) as int,
    ) =~= middle);
}

/// Whether a text does not begin with a decimal digit.
pub open spec fn begins_without_digit(text: Seq<char>) -> bool {
    text.len() == 0 || !('0' <= text[0] <= '9')
}

/// A number in decimal is told apart from every other, whatever stands behind
/// it, as long as that does not begin with a digit.
pub proof fn numbers_are_told_apart(a: nat, b: nat, behind_a: Seq<char>, behind_b: Seq<char>)
    requires
        begins_without_digit(behind_a),
        begins_without_digit(behind_b),
        decimal(a) + behind_a == decimal(b) + behind_b,
    ensures
        a == b,
        behind_a == behind_b,
{
    let x = decimal(a);
    let y = decimal(b);
    let text = x + behind_a;
    decimal_digits(a);
    decimal_digits(b);
    if x.len() < y.len() {
        assert(is_digit(y[x.len() as int]));
        assert(text[x.len() as int] == y[x.len() as int]);
        assert(text.len() == y.len() + behind_b.len());
        assert(text[x.len() as int] == behind_a[0]);
    }
    if y.len() < x.len() {
        assert(is_digit(x[y.len() as int]));
        assert((y + behind_b)[y.len() as int] == x[y.len() as int]);
        assert((y + behind_b).len() == x.len() + behind_a.len());
        assert((y + behind_b)[y.len() as int] == behind_b[0]);
    }
    assert(text.take(x.len() as int) =~= x);
    assert((y + behind_b).take(y.len() as int) =~= y);
    assert(text.skip(x.len() as int) =~= behind_a);
    assert((y + behind_b).skip(y.len() as int) =~= behind_b);
}

/// A decimal form has digits only. It begins with a zero only if it is zero, and
/// one more digit behind it multiplies the number by ten and adds the digit.
pub proof fn decimal_is_positional(n: nat, digit: nat)
    requires
        digit < 10,
    ensures
        decimal(n).len() >= 1,
        forall|i: int| 0 <= i < decimal(n).len() ==> '0' <= #[trigger] decimal(n)[i] <= '9',
        n > 0 ==> decimal(n)[0] != '0',
        n > 0 ==> decimal(10 * n + digit) == decimal(n).push((48 + digit) as char),
        decimal(digit) == seq![(48 + digit) as char],
{
    decimal_digits(n);
    assert forall|i: int| 0 <= i < decimal(n).len() implies '0' <= #[trigger] decimal(n)[i]
        <= '9' by {
        assert(is_digit(decimal(n)[i]));
    }
    if n > 0 {
        no_leading_zero(n);
        let more = (10 * n + digit) as nat;
        assert(more / 10 == n);
        assert(more % 10 == digit);
    }
}

/// A decimal form does not begin with a zero, unless it is zero.
proof fn no_leading_zero(n: nat)
    requires
        n > 0,
    ensures
        decimal(n).len() > 0,
        decimal(n)[0] != '0',
    decreases n,
{
    if n >= 10 {
        no_leading_zero(n / 10);
    }
}

/// Each byte shows as two hexadecimal digits, the higher half first.
pub proof fn hex_shows_each_byte(bytes: Seq<u8>, i: int)
    requires
        0 <= i < bytes.len(),
    ensures
        hex(bytes).len() == 2 * bytes.len(),
        hex(bytes)[2 * i] == "0123456789abcdef"@[bytes[i] as int / 16],
        hex(bytes)[2 * i + 1] == "0123456789abcdef"@[bytes[i] as int % 16],
    decreases bytes.len(),
{
    reveal_strlit("0123456789abcdef");
    hex_len(bytes);
    hex_len(bytes.drop_last());
    if i < bytes.len() - 1 {
        hex_shows_each_byte(bytes.drop_last(), i);
    }
}

/// A number with at least two digits is the number, and has exactly two digits
/// below a hundred.
pub proof fn two_digits_show_the_number(n: nat)
    ensures
        parsed_unsigned(two_digits(n), n) == Some(n),
        two_digits(n).len() >= 2,
        n < 100 ==> two_digits(n).len() == 2,
        n >= 10 ==> two_digits(n) == decimal(n),
{
    reveal_strlit("0");
    reveal_with_fuel(decimal, 3);
    decimal_digits(n);
    if n < 10 {
        let text = two_digits(n);
        assert(text =~= seq!['0', digit_char(n)]);
        assert(text.drop_last() =~= seq!['0']);
        assert(text.drop_last().drop_last() =~= Seq::empty());
        reveal_with_fuel(digits_value, 3);
        assert(unsigned_digits(text) == text);
        assert forall|i: int| 0 <= i < text.len() implies is_digit(#[trigger] text[i]) by {}
    } else {
        assert(is_digit(decimal(n)[0]));
    }
}

/// Alignment adds blanks on one side only, and only up to the width: the text
/// itself is kept, however long it is.
pub proof fn alignment_keeps_the_text(text: Seq<char>, width: nat)
    ensures
        left_aligned(text, width).len() == if text.len() < width {
            width
        } else {
            text.len()
        },
        left_aligned(text, width).take(text.len() as int) == text,
        forall|i: int|
            text.len() <= i < left_aligned(text, width).len() ==> #[trigger] left_aligned(
                text,
                width,
            )[i] == ' ',
        right_aligned(text, width).len() == left_aligned(text, width).len(),
        right_aligned(text, width).skip(right_aligned(text, width).len() - text.len()) == text,
        forall|i: int|
            0 <= i < right_aligned(text, width).len() - text.len() ==> #[trigger] right_aligned(
                text,
                width,
            )[i] == ' ',
{
    assert(left_aligned(text, width).take(text.len() as int) =~= text);
    assert(right_aligned(text, width).skip(right_aligned(text, width).len() - text.len()) =~= text);
}

/// A number is read with or without a plus sign before it and zeros before its
/// digits, and only up to the limit.
pub proof fn numbers_are_read_up_to_the_limit(n: nat, max: nat)
    ensures
        parsed_unsigned(decimal(n), max) == if n <= max {
            Some(n)
        } else {
            None
        },
        parsed_unsigned(seq!['+'] + decimal(n), max) == parsed_unsigned(decimal(n), max),
        parsed_unsigned(seq!['0'] + decimal(n), max) == parsed_unsigned(decimal(n), max),
{
    let text = decimal(n);
    decimal_digits(n);
    assert(is_digit(text[0]));
    assert((seq!['+'] + text).skip(1) =~= text);
    let padded = seq!['0'] + text;
    zero_before_digits(text);
    assert forall|i: int| 0 <= i < padded.len() implies is_digit(#[trigger] padded[i]) by {
        if i > 0 {
            assert(padded[i] == text[i - 1]);
        }
    }
}

/// A zero before the digits of a number does not change it.
proof fn zero_before_digits(text: Seq<char>)
    ensures
        digits_value(seq!['0'] + text) == digits_value(text),
    decreases text.len(),
{
    let padded = seq!['0'] + text;
    if text.len() == 0 {
        assert(padded.drop_last() =~= Seq::empty());
        assert(padded.last() == '0');
        reveal_with_fuel(digits_value, 2);
    } else {
        assert(padded.drop_last() =~= seq!['0'] + text.drop_last());
        assert(padded.last() == text.last());
        zero_before_digits(text.drop_last());
    }
}

/// A text with anything but digits in it, a plus sign at its beginning aside, is
/// no number, and neither is a text without digits.
pub proof fn only_digits_are_numbers(text: Seq<char>, max: nat, i: int)
    ensures
        text.len() == 0 ==> parsed_unsigned(text, max) is None,
        text == seq!['+'] ==> parsed_unsigned(text, max) is None,
        0 <= i < text.len() && !('0' <= text[i] <= '9') && !(i == 0 && text[i] == '+')
            ==> parsed_unsigned(text, max) is None,
{
    if 0 <= i < text.len() && !('0' <= text[i] <= '9') && !(i == 0 && text[i] == '+') {
        let digits = unsigned_digits(text);
        if text[0] == '+' {
            assert(digits[i - 1] == text[i]);
            assert(!is_digit(digits[i - 1]));
        } else {
            assert(!is_digit(digits[i]));
        }
    }
}

/// What follows upon the same beginning is the same if the whole is.
pub proof fn same_beginning_cancels(beginning: Seq<char>, a: Seq<char>, b: Seq<char>)
    requires
        beginning + a == beginning + b,
    ensures
        a == b,
{
    assert((beginning + a).skip(beginning.len() as int) =~= a);
    assert((beginning + b).skip(beginning.len() as int) =~= b);
}

} // verus!
