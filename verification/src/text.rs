//! Numbers and words in the text of settings.
use vstd::prelude::*;

verus! {

/// The characters of a string.
pub fn chars_of(text: &str) -> (r: Vec<char>)
    ensures
        r@ == text@,
{
    let mut chars: Vec<char> = Vec::new();
    let count: usize = text.unicode_len();
    let mut i: usize = 0;
    while i < count
        invariant
            i <= count,
            count == text@.len(),
            chars@ == text@.subrange(0, i as int),
        decreases count - i,
    {
        chars.push(text.get_char(i));
        i = i + 1;
        assert(chars@ =~= text@.subrange(0, i as int));
    }
    assert(chars@ =~= text@);
    chars
}

/// Whether two strings hold the same characters.
pub fn same_text(a: &str, b: &str) -> (r: bool)
    ensures
        r == (a@ == b@),
{
    let count: usize = a.unicode_len();
    if count != b.unicode_len() {
        return false;
    }
    let mut i: usize = 0;
    while i < count
        invariant
            i <= count,
            count == a@.len(),
            count == b@.len(),
            a@.subrange(0, i as int) == b@.subrange(0, i as int),
        decreases count - i,
    {
        if a.get_char(i) != b.get_char(i) {
            return false;
        }
        i = i + 1;
        assert(a@.subrange(0, i as int) =~= a@.subrange(0, i - 1).push(a@[i - 1]));
        assert(b@.subrange(0, i as int) =~= b@.subrange(0, i - 1).push(b@[i - 1]));
    }
    assert(a@.subrange(0, count as int) =~= a@);
    assert(b@.subrange(0, count as int) =~= b@);
    true
}

/// Whether a character is Unicode white space.
pub open spec fn is_white_space(c: char) -> bool {
    let code = c as u32;
    0x9 <= code <= 0xd || code == 0x20 || code == 0x85 || code == 0xa0 || code == 0x1680 || 0x2000
        <= code <= 0x200a || code == 0x2028 || code == 0x2029 || code == 0x202f || code == 0x205f
        || code == 0x3000
}

/// Whether a character is Unicode white space.
pub fn white_space(c: char) -> (r: bool)
    ensures
        r == is_white_space(c),
{
    let code: u32 = c as u32;
    (0x9 <= code && code <= 0xd) || code == 0x20 || code == 0x85 || code == 0xa0 || code == 0x1680
        || (0x2000 <= code && code <= 0x200a) || code == 0x2028 || code == 0x2029 || code == 0x202f
        || code == 0x205f || code == 0x3000
}

/// The text without white space at its ends.
pub open spec fn trimmed(text: Seq<char>) -> Seq<char>
    decreases text.len(),
{
    if text.len() == 0 {
        text
    } else if is_white_space(text[0]) {
        trimmed(text.subrange(1, text.len() as int))
    } else if is_white_space(text.last()) {
        trimmed(text.drop_last())
    } else {
        text
    }
}

/// The text without white space at its ends.
pub fn trim(text: &Vec<char>) -> (r: Vec<char>)
    ensures
        r@ == trimmed(text@),
{
    let mut from: usize = 0;
    let mut to: usize = text.len();
    assert(text@.subrange(0, text@.len() as int) =~= text@);
    while from < to && white_space(text[from])
        invariant
            from <= to <= text@.len(),
            trimmed(text@.subrange(from as int, to as int)) == trimmed(text@),
        decreases to - from,
    {
        assert(text@.subrange(from as int, to as int).subrange(1, to - from) =~= text@.subrange(
            from + 1,
            to as int,
        ));
        from = from + 1;
    }
    while from < to && white_space(text[to - 1])
        invariant
            from <= to <= text@.len(),
            trimmed(text@.subrange(from as int, to as int)) == trimmed(text@),
            from < to ==> !is_white_space(text@[from as int]),
        decreases to - from,
    {
        assert(text@.subrange(from as int, to as int).drop_last() =~= text@.subrange(
            from as int,
            to - 1,
        ));
        to = to - 1;
    }
    let mut rest: Vec<char> = Vec::new();
    let mut i: usize = from;
    while i < to
        invariant
            from <= i <= to <= text@.len(),
            rest@ == text@.subrange(from as int, i as int),
        decreases to - i,
    {
        rest.push(text[i]);
        i = i + 1;
        assert(rest@ =~= text@.subrange(from as int, i as int));
    }
    rest
}

/// The value of a digit in a radix of at most 16.
pub open spec fn digit_value(c: char, radix: nat) -> Option<nat> {
    let code = c as u32;
    let value = if 0x30 <= code <= 0x39 {
        Some((code - 0x30) as nat)
    } else if 0x61 <= code <= 0x66 {
        Some((code - 0x61 + 10) as nat)
    } else if 0x41 <= code <= 0x46 {
        Some((code - 0x41 + 10) as nat)
    } else {
        None
    };
    match value {
        Some(value) => if value < radix {
            Some(value)
        } else {
            None
        },
        None => None,
    }
}

/// The number that digits denote, or `None` when one is not a digit.
pub open spec fn digits_value(digits: Seq<char>, radix: nat) -> Option<nat>
    decreases digits.len(),
{
    if digits.len() == 0 {
        Some(0)
    } else {
        match (digits_value(digits.drop_last(), radix), digit_value(digits.last(), radix)) {
            (Some(high), Some(low)) => Some(high * radix + low),
            _ => None,
        }
    }
}

/// The number that digits denote, if there are any, they all are digits and the
/// number fits in 64 bits.
pub open spec fn number_of(digits: Seq<char>, radix: nat) -> Option<u64> {
    match digits_value(digits, radix) {
        Some(value) => if digits.len() > 0 && value <= u64::MAX {
            Some(value as u64)
        } else {
            None
        },
        None => None,
    }
}

fn digit(c: char, radix: u64) -> (r: Option<u64>)
    requires
        radix <= 16,
    ensures
        match digit_value(c, radix as nat) {
            Some(value) => r == Some(value as u64) && value < radix,
            None => r is None,
        },
{
    let code: u32 = c as u32;
    let value: u32 = if 0x30 <= code && code <= 0x39 {
        code - 0x30
    } else if 0x61 <= code && code <= 0x66 {
        code - 0x61 + 10
    } else if 0x41 <= code && code <= 0x46 {
        code - 0x41 + 10
    } else {
        return None;
    };
    if (value as u64) < radix {
        Some(value as u64)
    } else {
        None
    }
}

/// More digits never make a number smaller.
proof fn lemma_digits_grow(digits: Seq<char>, n: int, radix: nat)
    requires
        0 <= n <= digits.len(),
        1 <= radix,
        digits_value(digits, radix) is Some,
    ensures
        digits_value(digits.subrange(0, n), radix) is Some,
        digits_value(digits.subrange(0, n), radix)->0 <= digits_value(digits, radix)->0,
    decreases digits.len() - n,
{
    if n == digits.len() {
        assert(digits.subrange(0, n) =~= digits);
    } else {
        lemma_digits_grow(digits, n + 1, radix);
        assert(digits.subrange(0, n + 1).drop_last() =~= digits.subrange(0, n));
        let high = digits_value(digits.subrange(0, n), radix)->0;
        assert(high * radix >= high) by (nonlinear_arith)
            requires
                radix >= 1,
                high >= 0,
        ;
    }
}

/// Read the number that the characters of `text` from `from` to `to` denote.
pub fn parse_number(text: &Vec<char>, from: usize, to: usize, radix: u64) -> (r: Option<u64>)
    requires
        from <= to <= text@.len(),
        2 <= radix <= 16,
    ensures
        r == number_of(text@.subrange(from as int, to as int), radix as nat),
{
    let ghost digits = text@.subrange(from as int, to as int);
    if from == to {
        return None;
    }
    let mut value: u64 = 0;
    let mut i: usize = from;
    assert(text@.subrange(from as int, from as int) =~= Seq::<char>::empty());
    while i < to
        invariant
            from <= i <= to <= text@.len(),
            2 <= radix <= 16,
            digits == text@.subrange(from as int, to as int),
            digits_value(text@.subrange(from as int, i as int), radix as nat) == Some(value as nat),
        decreases to - i,
    {
        let ghost sofar = text@.subrange(from as int, i + 1);
        proof {
            assert(sofar.drop_last() =~= text@.subrange(from as int, i as int));
            assert(digits.subrange(0, i + 1 - from) =~= sofar);
            if digits_value(digits, radix as nat) is Some {
                lemma_digits_grow(digits, i + 1 - from, radix as nat);
            }
        }
        let low: u64 = match digit(text[i], radix) {
            Some(low) => low,
            None => return None,
        };
        assert(digits_value(sofar, radix as nat) == Some((value * radix + low) as nat));
        let high: u64 = match value.checked_mul(radix) {
            Some(high) => high,
            None => return None,
        };
        value = match high.checked_add(low) {
            Some(value) => value,
            None => return None,
        };
        i = i + 1;
    }
    Some(value)
}

/// The number that a whole text denotes: digits, with a plus sign before them
/// or not.
pub open spec fn signed_number(text: Seq<char>, radix: nat) -> Option<u64> {
    if text.len() > 0 && text[0] == '+' {
        number_of(text.subrange(1, text.len() as int), radix)
    } else {
        number_of(text, radix)
    }
}

/// Read the number that a text from `from` on denotes.
pub fn parse_signed(text: &Vec<char>, from: usize, radix: u64) -> (r: Option<u64>)
    requires
        from <= text@.len(),
        2 <= radix <= 16,
    ensures
        r == signed_number(text@.subrange(from as int, text@.len() as int), radix as nat),
{
    let ghost rest = text@.subrange(from as int, text@.len() as int);
    if from < text.len() && text[from] == '+' {
        assert(rest.subrange(1, rest.len() as int) =~= text@.subrange(
            from + 1,
            text@.len() as int,
        ));
        return parse_number(text, from + 1, text.len(), radix);
    }
    parse_number(text, from, text.len(), radix)
}

/// The text without any number of `0x` before it.
pub open spec fn without_hex_prefix(text: Seq<char>) -> Seq<char>
    decreases text.len(),
{
    if text.len() >= 2 && text[0] == '0' && text[1] == 'x' {
        without_hex_prefix(text.subrange(2, text.len() as int))
    } else {
        text
    }
}

/// The exceptions that a setting asks to trap: a hexadecimal bitmap, with or
/// without `0x` before it. None when there is no setting or it is no such
/// number.
pub open spec fn trapped_exceptions(setting: Option<Seq<char>>) -> u32 {
    match setting {
        Some(text) => match signed_number(without_hex_prefix(text), 16) {
            Some(value) => if value <= u32::MAX {
                value as u32
            } else {
                0
            },
            None => 0,
        },
        None => 0,
    }
}

/// Read the setting that says which exceptions to trap.
///
/// A guest that faults in a loop of its own making takes no exits, so there is
/// nothing to see; trapping makes the loop visible. It is off by default
/// because a guest legitimately handles its own exceptions.
pub fn trap_setting(setting: Option<&str>) -> (r: u32)
    ensures
        r == trapped_exceptions(
            match setting {
                Some(text) => Some(text@),
                None => None,
            },
        ),
{
    let chars: Vec<char> = match setting {
        Some(text) => chars_of(text),
        None => return 0,
    };
    let mut from: usize = 0;
    let size: usize = chars.len();
    assert(chars@.subrange(0, size as int) =~= chars@);
    while size - from >= 2 && chars[from] == '0' && chars[from + 1] == 'x'
        invariant
            from <= size,
            size == chars@.len(),
            without_hex_prefix(chars@.subrange(from as int, size as int)) == without_hex_prefix(
                chars@,
            ),
        decreases size - from,
    {
        assert(chars@.subrange(from as int, size as int).subrange(2, size - from)
            =~= chars@.subrange(from + 2, size as int));
        from = from + 2;
    }
    match parse_signed(&chars, from, 16) {
        Some(value) => {
            if value <= 0xffff_ffff {
                value as u32
            } else {
                0
            }
        },
        None => 0,
    }
}

/// How many resumes in a row are worth a report, unless a setting says
/// otherwise.
pub const DEFAULT_SAMPLE: u64 = 20_000;

/// Read the setting that says how many resumes in a row are worth a report.
pub fn sample_setting(setting: Option<&str>) -> (r: u64)
    ensures
        r == (match setting {
            Some(text) => match signed_number(text@, 10) {
                Some(value) => value,
                None => DEFAULT_SAMPLE,
            },
            None => DEFAULT_SAMPLE,
        }),
{
    let chars: Vec<char> = match setting {
        Some(text) => chars_of(text),
        None => return DEFAULT_SAMPLE,
    };
    assert(chars@.subrange(0, chars@.len() as int) =~= chars@);
    match parse_signed(&chars, 0, 10) {
        Some(value) => value,
        None => DEFAULT_SAMPLE,
    }
}

/// One digit is worth what it says: `0` to `9` in any radix above them, and the
/// letters from `a` and from `A` on what comes after nine, if the radix has them.
pub proof fn law_digits_are_worth_what_they_say(c: char, radix: nat)
    requires
        radix == 10 || radix == 16,
    ensures
        ({
            let code = c as u32;
            &&& '0' <= c <= '9' ==> number_of(seq![c], radix) == Some((code - '0' as u32) as u64)
            &&& 'a' <= c <= 'f' && radix == 16 ==> number_of(seq![c], radix) == Some(
                (10 + (code - 'a' as u32)) as u64,
            )
            &&& 'A' <= c <= 'F' && radix == 16 ==> number_of(seq![c], radix) == Some(
                (10 + (code - 'A' as u32)) as u64,
            )
            &&& number_of(seq![c], radix) is Some ==> '0' <= c <= '9' || (radix == 16 && ('a' <= c
                <= 'f' || 'A' <= c <= 'F'))
            &&& number_of(Seq::empty(), radix) is None
        }),
{
    reveal_with_fuel(digits_value, 3);
    assert(seq![c].drop_last() =~= Seq::<char>::empty());
}

/// Numbers are positional: one more digit makes a number the radix times what it
/// was, and the digit more. A text with a character that is no digit is no
/// number, and neither is one that does not fit in 64 bits.
pub proof fn law_numbers_are_positional(digits: Seq<char>, c: char, radix: nat)
    requires
        digits.len() > 0,
        radix == 10 || radix == 16,
    ensures
        match (number_of(digits, radix), number_of(seq![c], radix)) {
            (Some(high), Some(low)) => number_of(digits.push(c), radix) == (if high * radix + low
                <= u64::MAX {
                Some((high * radix + low) as u64)
            } else {
                None
            }),
            _ => number_of(digits.push(c), radix) is None,
        },
{
    reveal_with_fuel(digits_value, 3);
    assert(seq![c].drop_last() =~= Seq::<char>::empty());
    assert(digits.push(c).drop_last() =~= digits);
    if let Some(high) = digits_value(digits, radix) {
        assert(high * radix >= high) by (nonlinear_arith)
            requires
                radix >= 1,
                high >= 0,
        ;
    }
}

/// A plus sign before a number changes nothing, and only one is read.
pub proof fn law_plus_signs(digits: Seq<char>, radix: nat)
    ensures
        signed_number(seq!['+'] + digits, radix) == number_of(digits, radix),
        digits.len() == 0 || digits[0] != '+' ==> signed_number(digits, radix) == number_of(
            digits,
            radix,
        ),
{
    let signed = seq!['+'] + digits;
    assert(signed.subrange(1, signed.len() as int) =~= digits);
}

/// Trimming takes white space off both ends and nothing else: what is left is a
/// piece of the text, everything before and behind it is white space, and it
/// neither starts nor ends with any. The ends of the piece are what comes back.
#[verifier::rlimit(40)]
pub proof fn law_trimming_takes_white_space_off_the_ends(text: Seq<char>) -> (span: (int, int))
    ensures
        0 <= span.0 <= span.1 <= text.len(),
        trimmed(text) == text.subrange(span.0, span.1),
        forall|k: int|
            0 <= k < text.len() && !(span.0 <= k < span.1) ==> is_white_space(#[trigger] text[k]),
        span.0 < span.1 ==> !is_white_space(text[span.0]) && !is_white_space(text[span.1 - 1]),
    decreases text.len(),
{
    if text.len() == 0 {
        assert(text.subrange(0, 0) =~= text);
        (0, 0)
    } else if is_white_space(text[0]) {
        let rest = text.subrange(1, text.len() as int);
        let (from, to) = law_trimming_takes_white_space_off_the_ends(rest);
        assert(rest.subrange(from, to) =~= text.subrange(from + 1, to + 1));
        assert forall|k: int|
            0 <= k < text.len() && !(from + 1 <= k < to + 1) implies is_white_space(
            #[trigger] text[k],
        ) by {
            if k > 0 {
                assert(rest[k - 1] == text[k]);
            }
        }
        (from + 1, to + 1)
    } else if is_white_space(text.last()) {
        let rest = text.drop_last();
        let (from, to) = law_trimming_takes_white_space_off_the_ends(rest);
        assert(rest.subrange(from, to) =~= text.subrange(from, to));
        assert forall|k: int| 0 <= k < text.len() && !(from <= k < to) implies is_white_space(
            #[trigger] text[k],
        ) by {
            if k < text.len() - 1 {
                assert(rest[k] == text[k]);
            }
        }
        (from, to)
    } else {
        assert(text.subrange(0, text.len() as int) =~= text);
        (0, text.len() as int)
    }
}

/// The white space characters, one by one: the six of ASCII and the others of
/// Unicode. No digit, letter or sign is one.
pub proof fn law_white_space_characters(c: char)
    ensures
        is_white_space(c) <==> (c == '\t' || c == '\n' || c == '\u{b}' || c == '\u{c}' || c == '\r'
            || c == ' ' || c == '\u{85}' || c == '\u{a0}' || c == '\u{1680}' || c == '\u{2000}' || c
            == '\u{2001}' || c == '\u{2002}' || c == '\u{2003}' || c == '\u{2004}' || c
            == '\u{2005}' || c == '\u{2006}' || c == '\u{2007}' || c == '\u{2008}' || c
            == '\u{2009}' || c == '\u{200a}' || c == '\u{2028}' || c == '\u{2029}' || c
            == '\u{202f}' || c == '\u{205f}' || c == '\u{3000}'),
        '!' <= c <= '~' ==> !is_white_space(c),
{
}

/// A hexadecimal prefix changes nothing, however often it stands there, and only
/// a prefix is taken off.
pub proof fn law_hexadecimal_prefixes_do_not_matter(text: Seq<char>)
    ensures
        without_hex_prefix(seq!['0', 'x'] + text) == without_hex_prefix(text),
        trapped_exceptions(Some(seq!['0', 'x'] + text)) == trapped_exceptions(Some(text)),
        !(text.len() >= 2 && text[0] == '0' && text[1] == 'x') ==> without_hex_prefix(text) == text,
{
    let prefixed = seq!['0', 'x'] + text;
    assert(prefixed.subrange(2, prefixed.len() as int) =~= text);
}

/// The exceptions to trap are the hexadecimal number that the setting holds, if
/// that is one of 32 bits, and none otherwise; and none without a setting.
pub proof fn law_trapped_exceptions_are_the_number(text: Seq<char>)
    requires
        !(text.len() >= 2 && text[0] == '0' && text[1] == 'x'),
    ensures
        trapped_exceptions(None) == 0,
        signed_number(text, 16) matches Some(value) ==> trapped_exceptions(Some(text)) == (if value
            <= 0xffff_ffff {
            value
        } else {
            0
        }),
        signed_number(text, 16) is None ==> trapped_exceptions(Some(text)) == 0,
        DEFAULT_SAMPLE == 20_000,
{
}

/// The sample is the decimal number that the setting holds, and twenty thousand
/// without a setting or if it is no number.
pub proof fn law_samples_are_the_number(
    text: &str,
    sample: u64,
    unset: u64,
)
    requires
        call_ensures(sample_setting, (Some(text),), sample),
        call_ensures(sample_setting, (None::<&str>,), unset),
    ensures
        unset == 20_000,
        signed_number(text@, 10) matches Some(value) ==> sample == value,
        signed_number(text@, 10) is None ==> sample == 20_000,
{
}

} // verus!
