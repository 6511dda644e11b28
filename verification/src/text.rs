//! Rendering numbers as text.

use vstd::prelude::*;
use vstd::string::*;
use vstd::utf8::*;

verus! {

/// `String::push` appends one character to the end of the string.
pub assume_specification[ String::push ](s: &mut String, c: char)
    ensures
        final(s)@ == old(s)@.push(c),
;

/// `std::str::from_utf8` gives the text that the bytes encode when they are valid
/// UTF-8, and an error otherwise.
#[verifier::external_body]
pub(crate) fn utf8_text(bytes: &[u8]) -> (r: Option<&str>)
    ensures
        match r {
            Some(s) => valid_utf8(bytes@) && s.spec_bytes() == bytes@,
            None => !valid_utf8(bytes@),
        },
{
    std::str::from_utf8(bytes).ok()
}

/// The text that `String::from_utf8_lossy` makes of bytes.
pub uninterp spec fn lossy_text(bytes: Seq<u8>) -> Seq<char>;

/// `String::from_utf8_lossy` gives the text that valid UTF-8 encodes. Of other bytes it
/// replaces what is not valid; the text depends on the bytes alone.
#[verifier::external_body]
pub(crate) fn utf8_lossy(bytes: &[u8]) -> (s: String)
    ensures
        s@ == lossy_text(bytes@),
        valid_utf8(bytes@) ==> s@ == decode_utf8(bytes@),
{
    String::from_utf8_lossy(bytes).into_owned()
}

/// The characters of `s`.
pub fn chars_of(s: &str) -> (v: Vec<char>)
    ensures
        v@ == s@,
{
    let mut v: Vec<char> = Vec::new();
    for c in it: s.chars()
        invariant
            v@ =~= it.seq().take(it.index()),
            it.seq() == s@,
    {
        v.push(c);
    }
    assert(v@ =~= s@);
    v
}

/// The characters that valid UTF-8 bytes encode; `None` for other bytes.
pub fn utf8_chars(bytes: &[u8]) -> (r: Option<Vec<char>>)
    ensures
        match r {
            Some(v) => valid_utf8(bytes@) && v@ == decode_utf8(bytes@),
            None => !valid_utf8(bytes@),
        },
{
    match utf8_text(bytes) {
        Some(s) => {
            proof {
                encode_utf8_decode_utf8(s@);
            }
            Some(chars_of(s))
        },
        None => None,
    }
}

/// The text made of `chars`.
pub fn string_of(chars: &[char]) -> (s: String)
    ensures
        s@ == chars@,
{
    let mut s = String::new();
    let mut i: usize = 0;
    while i < chars.len()
        invariant
            i <= chars@.len(),
            s@ =~= chars@.take(i as int),
        decreases chars@.len() - i,
    {
        s.push(chars[i]);
        i = i + 1;
    }
    assert(s@ =~= chars@);
    s
}

/// Whether a character has the Unicode property White_Space.
pub open spec fn is_white_space(c: char) -> bool {
    let n = c as u32;
    ||| 0x9 <= n <= 0xD
    ||| n == 0x20
    ||| n == 0x85
    ||| n == 0xA0
    ||| n == 0x1680
    ||| 0x2000 <= n <= 0x200A
    ||| n == 0x2028
    ||| n == 0x2029
    ||| n == 0x202F
    ||| n == 0x205F
    ||| n == 0x3000
}

/// Whether a character has the Unicode property White_Space.
pub fn white_space(c: char) -> (b: bool)
    ensures
        b == is_white_space(c),
{
    let n: u32 = c as u32;
    (0x9 <= n && n <= 0xD) || n == 0x20 || n == 0x85 || n == 0xA0 || n == 0x1680 || (0x2000 <= n
        && n <= 0x200A) || n == 0x2028 || n == 0x2029 || n == 0x202F || n == 0x205F || n == 0x3000
}

/// `s` without leading white space.
pub open spec fn trimmed_start(s: Seq<char>) -> Seq<char>
    decreases s.len(),
{
    if s.len() > 0 && is_white_space(s[0]) {
        trimmed_start(s.drop_first())
    } else {
        s
    }
}

/// `s` without trailing white space.
pub open spec fn trimmed_end(s: Seq<char>) -> Seq<char>
    decreases s.len(),
{
    if s.len() > 0 && is_white_space(s.last()) {
        trimmed_end(s.drop_last())
    } else {
        s
    }
}

/// `s` without white space at either end.
pub open spec fn trimmed(s: Seq<char>) -> Seq<char> {
    trimmed_end(trimmed_start(s))
}

/// `s` without leading white space.
pub fn trim_start(s: &[char]) -> (r: &[char])
    ensures
        r@ == trimmed_start(s@),
        r@.len() <= s@.len(),
{
    let mut i: usize = 0;
    assert(s@.skip(0) =~= s@);
    while i < s.len() && white_space(s[i])
        invariant
            i <= s@.len(),
            trimmed_start(s@.skip(i as int)) == trimmed_start(s@),
        decreases s@.len() - i,
    {
        assert(s@.skip(i as int).drop_first() =~= s@.skip(i + 1));
        i = i + 1;
    }
    let r = vstd::slice::slice_subrange(s, i, s.len());
    assert(r@ =~= s@.skip(i as int));
    r
}

/// `s` without white space at either end.
pub fn trim(s: &[char]) -> (r: &[char])
    ensures
        r@ == trimmed(s@),
{
    let t = trim_start(s);
    let mut n: usize = t.len();
    assert(t@.take(n as int) =~= t@);
    while n > 0 && white_space(t[n - 1])
        invariant
            n <= t@.len(),
            trimmed_end(t@.take(n as int)) == trimmed_end(t@),
        decreases n,
    {
        assert(t@.take(n as int).drop_last() =~= t@.take(n - 1));
        n = n - 1;
    }
    let r = vstd::slice::slice_subrange(t, 0, n);
    assert(r@ =~= t@.take(n as int));
    r
}

/// How many characters `s` has before its first white space.
pub open spec fn word_len(s: Seq<char>) -> int
    decreases s.len(),
{
    if s.len() == 0 || is_white_space(s[0]) {
        0
    } else {
        1 + word_len(s.drop_first())
    }
}

/// The first word of `s` and what follows it, if `s` has a word.
pub open spec fn first_word(s: Seq<char>) -> Option<(Seq<char>, Seq<char>)> {
    let t = trimmed_start(s);
    if t.len() == 0 {
        None
    } else {
        Some((t.take(word_len(t)), t.skip(word_len(t))))
    }
}

/// Splits the first word off `s`.
pub fn split_word(s: &[char]) -> (r: Option<(&[char], &[char])>)
    ensures
        match r {
            Some((word, rest)) => first_word(s@) == Some((word@, rest@)),
            None => first_word(s@) is None,
        },
{
    let t = trim_start(s);
    if t.len() == 0 {
        return None;
    }
    let mut n: usize = 0;
    assert(t@.skip(0) =~= t@);
    while n < t.len() && !white_space(t[n])
        invariant
            n <= t@.len(),
            n + word_len(t@.skip(n as int)) == word_len(t@),
        decreases t@.len() - n,
    {
        assert(t@.skip(n as int).drop_first() =~= t@.skip(n + 1));
        n = n + 1;
    }
    let word = vstd::slice::slice_subrange(t, 0, n);
    let rest = vstd::slice::slice_subrange(t, n, t.len());
    assert(word@ =~= t@.take(n as int));
    assert(rest@ =~= t@.skip(n as int));
    Some((word, rest))
}

/// The value of a run of decimal digits, if it is one.
pub open spec fn digits_value(s: Seq<char>) -> Option<nat>
    decreases s.len(),
{
    if s.len() == 0 {
        Some(0)
    } else {
        match digits_value(s.drop_last()) {
            Some(v) if '0' <= s.last() <= '9' => Some(
                (v * 10 + (s.last() as u32 - '0' as u32)) as nat,
            ),
            _ => None,
        }
    }
}

/// The number that `s` writes in decimal: digits, at least one, after an optional plus
/// sign, and no more than `max`.
pub open spec fn parsed_number(s: Seq<char>, max: nat) -> Option<nat> {
    let digits = if s.len() > 0 && s[0] == '+' {
        s.drop_first()
    } else {
        s
    };
    if digits.len() == 0 {
        None
    } else {
        match digits_value(digits) {
            Some(v) if v <= max => Some(v),
            _ => None,
        }
    }
}

/// A longer run of digits is a run of digits, and no smaller in value.
proof fn digits_value_grows(s: Seq<char>, n: int)
    requires
        0 <= n <= s.len(),
    ensures
        digits_value(s) is Some ==> digits_value(s.take(n)) is Some && digits_value(s.take(n))->0
            <= digits_value(s)->0,
    decreases s.len() - n,
{
    if n < s.len() {
        digits_value_grows(s, n + 1);
        assert(s.take(n + 1).drop_last() =~= s.take(n));
    } else {
        assert(s.take(n) =~= s);
    }
}

/// Reads a decimal number of at most `max`.
pub fn parse_number(s: &[char], max: u64) -> (r: Option<u64>)
    ensures
        match r {
            Some(v) => parsed_number(s@, max as nat) == Some(v as nat),
            None => parsed_number(s@, max as nat) is None,
        },
{
    let digits: &[char] = if s.len() > 0 && s[0] == '+' {
        vstd::slice::slice_subrange(s, 1, s.len())
    } else {
        s
    };
    assert(s@.len() > 0 && s@[0] == '+' ==> digits@ =~= s@.drop_first());
    if digits.len() == 0 {
        return None;
    }
    let mut v: u64 = 0;
    let mut i: usize = 0;
    while i < digits.len()
        invariant
            i <= digits@.len(),
            digits_value(digits@.take(i as int)) == Some(v as nat),
            v <= max,
            digits@.len() > 0,
            digits@ == if s@.len() > 0 && s@[0] == '+' {
                s@.drop_first()
            } else {
                s@
            },
        decreases digits@.len() - i,
    {
        let c: char = digits[i];
        proof {
            digits_value_grows(digits@, i + 1);
            assert(digits@.take(i + 1).drop_last() =~= digits@.take(i as int));
        }
        if !('0' <= c && c <= '9') {
            return None;
        }
        let d: u64 = (c as u32 - '0' as u32) as u64;
        if v > max / 10 || d > max - v * 10 {
            return None;
        }
        v = v * 10 + d;
        i = i + 1;
    }
    assert(digits@.take(i as int) =~= digits@);
    Some(v)
}

/// The character for the digit `d` (lower case above nine).
pub open spec fn digit_char(d: int) -> char {
    if d < 10 {
        (48 + d) as char
    } else {
        (87 + d) as char
    }
}

/// The digits of `n` in `base`, most significant first, without leading zeros.
pub open spec fn digits(n: nat, base: nat) -> Seq<char>
    decreases n,
{
    if base < 2 || n < base {
        seq![digit_char(n as int)]
    } else {
        proof {
            assert(n / base < n) by (nonlinear_arith)
                requires
                    base >= 2,
                    n >= base,
            ;
        }
        digits(n / base, base).push(digit_char((n % base) as int))
    }
}

/// The decimal rendering of `n`, as `{}` formats an unsigned integer.
pub open spec fn decimal(n: nat) -> Seq<char> {
    digits(n, 10)
}

/// The lower-case hexadecimal rendering of `n`, as `{:#x}` formats it.
pub open spec fn hex_prefixed(n: nat) -> Seq<char> {
    "0x"@ + digits(n, 16)
}

/// `n` in lower-case hexadecimal, padded with zeros to `width` digits.
pub open spec fn hex_padded(n: nat, width: nat) -> Seq<char> {
    let d = digits(n, 16);
    if d.len() >= width {
        d
    } else {
        Seq::new((width - d.len()) as nat, |i: int| '0') + d
    }
}

/// The rendering of a boolean, as `{}` formats it.
pub open spec fn bool_text(b: bool) -> Seq<char> {
    if b {
        "true"@
    } else {
        "false"@
    }
}

/// The character for the digit `d`.
pub fn digit_to_char(d: u8) -> (c: char)
    requires
        d < 16,
    ensures
        c == digit_char(d as int),
{
    if d < 10 {
        (48 + d) as char
    } else {
        (87 + d) as char
    }
}

/// Appends the digits of `n` in `base`.
pub fn push_digits(out: &mut String, n: u64, base: u64)
    requires
        2 <= base <= 16,
    ensures
        final(out)@ == old(out)@ + digits(n as nat, base as nat),
    decreases n,
{
    if n >= base {
        assert(n / base < n) by (nonlinear_arith)
            requires
                base >= 2,
                n >= base,
        ;
        push_digits(out, n / base, base);
    }
    assert(n % base < base && (n < base ==> n % base == n)) by (nonlinear_arith)
        requires
            base >= 2,
    ;
    out.push(digit_to_char((n % base) as u8));
    assert(out@ =~= old(out)@ + digits(n as nat, base as nat));
}

/// Appends the decimal rendering of `n`.
pub fn push_decimal(out: &mut String, n: u64)
    ensures
        final(out)@ == old(out)@ + decimal(n as nat),
{
    push_digits(out, n, 10);
}

/// Appends `0x` and the hexadecimal rendering of `n`.
pub fn push_hex_prefixed(out: &mut String, n: u64)
    ensures
        final(out)@ == old(out)@ + hex_prefixed(n as nat),
{
    out.append("0x");
    push_digits(out, n, 16);
    assert(out@ =~= old(out)@ + hex_prefixed(n as nat));
}

/// Appends the hexadecimal rendering of `n` padded with zeros to `width` digits.
pub fn push_hex_padded(out: &mut String, n: u64, width: usize)
    ensures
        final(out)@ == old(out)@ + hex_padded(n as nat, width as nat),
{
    let mut d = String::new();
    push_digits(&mut d, n, 16);
    let have = d.as_str().unicode_len();
    let mut i: usize = have;
    while i < width
        invariant
            have == digits(n as nat, 16).len(),
            have <= i,
            i <= width || i == have,
            out@ =~= old(out)@ + Seq::new((i - have) as nat, |k: int| '0'),
        decreases width - i,
    {
        out.push('0');
        i = i + 1;
    }
    out.append(d.as_str());
    assert(out@ =~= old(out)@ + hex_padded(n as nat, width as nat));
}

/// Appends `true` or `false`.
pub fn push_bool(out: &mut String, b: bool)
    ensures
        final(out)@ == old(out)@ + bool_text(b),
{
    if b {
        out.append("true");
    } else {
        out.append("false");
    }
}

/// Whether a text has no white space in it and is not empty.
pub open spec fn is_word(s: Seq<char>) -> bool {
    s.len() > 0 && forall|i: int| 0 <= i < s.len() ==> !is_white_space(#[trigger] s[i])
}

/// Whether a text is white space throughout.
pub open spec fn is_blank(s: Seq<char>) -> bool {
    forall|i: int| 0 <= i < s.len() ==> is_white_space(#[trigger] s[i])
}

/// Of the ASCII characters the space and those from tab to carriage return are white space,
/// and no other; of the rest the no-break space is and letters such as e with an accent are
/// not.
pub proof fn ascii_white_space(c: char)
    ensures
        (c as u32) < 0x80 ==> (is_white_space(c) <==> c == ' ' || 9 <= c as u32 <= 13),
        is_white_space('\u{a0}'),
        !is_white_space('\u{e9}'),
{
}

/// Leading white space goes, and nothing else.
pub proof fn leading_blanks_go(blanks: Seq<char>, rest: Seq<char>)
    requires
        is_blank(blanks),
        rest.len() == 0 || !is_white_space(rest[0]),
    ensures
        trimmed_start(blanks + rest) == rest,
    decreases blanks.len(),
{
    if blanks.len() > 0 {
        let b = blanks.drop_first();
        assert forall|i: int| 0 <= i < b.len() implies is_white_space(#[trigger] b[i]) by {
            assert(b[i] == blanks[i + 1]);
        }
        assert((blanks + rest).drop_first() =~= b + rest);
        leading_blanks_go(b, rest);
    } else {
        assert(blanks + rest =~= rest);
    }
}

/// Trailing white space goes, and nothing else.
pub proof fn trailing_blanks_go(rest: Seq<char>, blanks: Seq<char>)
    requires
        is_blank(blanks),
        rest.len() == 0 || !is_white_space(rest[rest.len() - 1]),
    ensures
        trimmed_end(rest + blanks) == rest,
    decreases blanks.len(),
{
    if blanks.len() > 0 {
        let b = blanks.drop_last();
        assert forall|i: int| 0 <= i < b.len() implies is_white_space(#[trigger] b[i]) by {
            assert(b[i] == blanks[i]);
        }
        assert((rest + blanks).drop_last() =~= rest + b);
        assert((rest + blanks).last() == blanks[blanks.len() - 1]);
        trailing_blanks_go(rest, b);
    } else {
        assert(rest + blanks =~= rest);
    }
}

/// A text is trimmed to what stands between the white space at its ends.
pub proof fn trimming_keeps_the_middle(before: Seq<char>, middle: Seq<char>, after: Seq<char>)
    requires
        is_blank(before),
        is_blank(after),
        middle.len() > 0,
        !is_white_space(middle[0]),
        !is_white_space(middle[middle.len() - 1]),
    ensures
        trimmed(before + middle + after) == middle,
        trimmed(before) == Seq::<char>::empty(),
{
    assert(before + middle + after =~= before + (middle + after));
    leading_blanks_go(before, middle + after);
    trailing_blanks_go(middle, after);
    leading_blanks_go(before, Seq::empty());
    assert(before + Seq::<char>::empty() =~= before);
}

proof fn word_is_counted(word: Seq<char>, rest: Seq<char>)
    requires
        forall|i: int| 0 <= i < word.len() ==> !is_white_space(#[trigger] word[i]),
        rest.len() == 0 || is_white_space(rest[0]),
    ensures
        word_len(word + rest) == word.len(),
    decreases word.len(),
{
    if word.len() > 0 {
        let w = word.drop_first();
        assert forall|i: int| 0 <= i < w.len() implies !is_white_space(#[trigger] w[i]) by {
            assert(w[i] == word[i + 1]);
        }
        assert((word + rest).drop_first() =~= w + rest);
        assert((word + rest)[0] == word[0]);
        word_is_counted(w, rest);
    } else {
        assert(word + rest =~= rest);
    }
}

/// The first word is what stands between leading white space and the next white space; a
/// text of white space has none.
pub proof fn first_word_is_found(blanks: Seq<char>, word: Seq<char>, rest: Seq<char>)
    requires
        is_blank(blanks),
        is_word(word),
        rest.len() == 0 || is_white_space(rest[0]),
    ensures
        first_word(blanks + word + rest) == Some((word, rest)),
        first_word(blanks) is None,
{
    assert(blanks + word + rest =~= blanks + (word + rest));
    leading_blanks_go(blanks, word + rest);
    word_is_counted(word, rest);
    assert((word + rest).take(word.len() as int) =~= word);
    assert((word + rest).skip(word.len() as int) =~= rest);
    leading_blanks_go(blanks, Seq::empty());
    assert(blanks + Seq::<char>::empty() =~= blanks);
}

/// Decimal digits read back give the number that they were written for, and there is a
/// leading zero for zero only.
pub proof fn decimal_round_trip(n: nat)
    ensures
        digits_value(decimal(n)) == Some(n),
        decimal(n).len() > 0,
        forall|i: int| 0 <= i < decimal(n).len() ==> '0' <= #[trigger] decimal(n)[i] <= '9',
        n > 0 ==> decimal(n)[0] != '0',
    decreases n,
{
    if n >= 10 {
        decimal_round_trip(n / 10);
        let d = decimal(n);
        assert(d.drop_last() =~= decimal(n / 10));
        assert forall|i: int| 0 <= i < d.len() implies '0' <= #[trigger] d[i] <= '9' by {
            if i < d.len() - 1 {
                assert(d[i] == decimal(n / 10)[i]);
            }
        }
        assert(d[0] == decimal(n / 10)[0]);
    } else {
        let d = decimal(n);
        assert(d.drop_last() =~= Seq::<char>::empty());
        assert(digits_value(d.drop_last()) == Some(0nat));
    }
}

/// A number in decimal is read back up to the largest that is allowed, with or without a
/// plus sign before it.
pub proof fn numbers_are_read_back(n: nat, max: nat)
    ensures
        parsed_number(decimal(n), max) == if n <= max {
            Some(n)
        } else {
            None
        },
        parsed_number(seq!['+'] + decimal(n), max) == parsed_number(decimal(n), max),
{
    decimal_round_trip(n);
    assert((seq!['+'] + decimal(n)).drop_first() =~= decimal(n));
    assert(decimal(n)[0] != '+');
}

/// A text with a character that is no digit is no run of digits.
pub proof fn only_digits_have_a_value(s: Seq<char>, i: int)
    requires
        0 <= i < s.len(),
        !('0' <= s[i] <= '9'),
    ensures
        digits_value(s) is None,
    decreases s.len(),
{
    if i < s.len() - 1 {
        assert(s.drop_last()[i] == s[i]);
        only_digits_have_a_value(s.drop_last(), i);
    }
}

/// What is no number: nothing, a sign alone, and anything with a character that is no digit
/// after the sign.
pub proof fn other_texts_are_no_number(s: Seq<char>, i: int, max: nat)
    ensures
        parsed_number(Seq::empty(), max) is None,
        parsed_number(seq!['+'], max) is None,
        0 <= i < s.len() && !('0' <= s[i] <= '9') && (i > 0 || s[i] != '+') ==> parsed_number(
            s,
            max,
        ) is None,
{
    assert(seq!['+'].drop_first() =~= Seq::<char>::empty());
    if 0 <= i < s.len() && !('0' <= s[i] <= '9') && (i > 0 || s[i] != '+') {
        if s[0] == '+' {
            assert(s.drop_first()[i - 1] == s[i]);
            only_digits_have_a_value(s.drop_first(), i - 1);
        } else {
            only_digits_have_a_value(s, i);
        }
    }
}

/// Numbers are written with the digits 0 to 9 and then a to f, the last digit being the
/// remainder by the base and the others the quotient.
pub proof fn numbers_are_written_digit_by_digit(n: nat, base: nat)
    requires
        2 <= base <= 16,
    ensures
        ({
            let last = digits(n, base).last() as u32;
            let d = n % base;
            &&& d <= 9 ==> last == 48 + d
            &&& d >= 10 ==> last == 87 + d
            &&& n < base ==> digits(n, base).len() == 1
            &&& n >= base ==> digits(n, base).drop_last() == digits(n / base, base)
        }),
{
    let d = n % base;
    assert(0 <= d < base) by {
        vstd::arithmetic::div_mod::lemma_mod_bound(n as int, base as int);
    }
    if n < base {
        vstd::arithmetic::div_mod::lemma_small_mod(n, base);
    } else {
        assert(digits(n, base).drop_last() =~= digits(n / base, base));
    }
}

/// In base sixteen a number stands behind `0x`, or is filled up with zeros from the left.
pub proof fn hexadecimal_is_prefixed_or_padded(n: nat, width: nat)
    ensures
        hex_prefixed(n).take(2) == seq!['0', 'x'],
        hex_prefixed(n).skip(2) == digits(n, 16),
        digits(n, 16).len() >= width ==> hex_padded(n, width) == digits(n, 16),
        digits(n, 16).len() <= width ==> ({
            let zeros = width - digits(n, 16).len();
            &&& hex_padded(n, width).len() == width
            &&& hex_padded(n, width).skip(zeros) == digits(n, 16)
            &&& forall|i: int| 0 <= i < zeros ==> #[trigger] hex_padded(n, width)[i] == '0'
        }),
{
    reveal_strlit("0x");
    assert(hex_prefixed(n).take(2) =~= seq!['0', 'x']);
    assert(hex_prefixed(n).skip(2) =~= digits(n, 16));
    if digits(n, 16).len() <= width {
        let zeros = width - digits(n, 16).len();
        assert(hex_padded(n, width).skip(zeros) =~= digits(n, 16));
    }
}

} // verus!
