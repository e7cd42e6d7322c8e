//! Reading and writing text: white space, numerals and searching.

use vstd::prelude::*;

verus! {

/// The characters with the Unicode property `White_Space`.
pub open spec fn white_space(c: char) -> bool {
    ||| '\u{9}' <= c <= '\u{d}'
    ||| c == ' '
    ||| c == '\u{85}'
    ||| c == '\u{a0}'
    ||| c == '\u{1680}'
    ||| '\u{2000}' <= c <= '\u{200a}'
    ||| c == '\u{2028}'
    ||| c == '\u{2029}'
    ||| c == '\u{202f}'
    ||| c == '\u{205f}'
    ||| c == '\u{3000}'
}

/// Whether `text` is white space throughout.
pub open spec fn all_white_space(text: Seq<char>) -> bool {
    forall|i: int| 0 <= i < text.len() ==> white_space(#[trigger] text[i])
}

/// `text` without the white space that it starts with.
pub open spec fn trimmed_start(text: Seq<char>) -> Seq<char>
    decreases text.len(),
{
    if text.len() > 0 && white_space(text.first()) {
        trimmed_start(text.drop_first())
    } else {
        text
    }
}

/// `text` without the white space that it ends with.
pub open spec fn trimmed_end(text: Seq<char>) -> Seq<char>
    decreases text.len(),
{
    if text.len() > 0 && white_space(text.last()) {
        trimmed_end(text.drop_last())
    } else {
        text
    }
}

/// `text` without the white space at either end.
pub open spec fn trimmed(text: Seq<char>) -> Seq<char> {
    trimmed_end(trimmed_start(text))
}

/// Whether `needle` occurs somewhere in `text`.
pub open spec fn occurs_in(needle: Seq<char>, text: Seq<char>) -> bool {
    exists|at: int| #[trigger] occurs_at(needle, text, at)
}

/// Whether `needle` occurs in `text` from position `at` on.
pub open spec fn occurs_at(needle: Seq<char>, text: Seq<char>, at: int) -> bool {
    &&& 0 <= at
    &&& at + needle.len() <= text.len()
    &&& text.subrange(at, at + needle.len()) == needle
}

/// The digit that stands for `value`, which is below sixteen.
pub open spec fn digit(value: nat) -> char {
    if value < 10 {
        (48 + value) as char
    } else {
        (87 + value) as char
    }
}

/// `value` written in `base`, most significant digit first, without leading zeros.
pub open spec fn numeral(value: nat, base: nat) -> Seq<char>
    decreases value,
{
    if value < base || base < 2 {
        seq![digit(value)]
    } else {
        proof {
            vstd::arithmetic::div_mod::lemma_div_decreases(value as int, base as int);
        }
        numeral(value / base, base).push(digit(value % base))
    }
}

/// `value` written in decimal.
pub open spec fn decimal(value: nat) -> Seq<char> {
    numeral(value, 10)
}

/// `value` written in hexadecimal, with lower case letters.
pub open spec fn hexadecimal(value: nat) -> Seq<char> {
    numeral(value, 16)
}

/// Whether every character of `text` is one of the ten decimal digits.
pub open spec fn all_digits(text: Seq<char>) -> bool {
    forall|i: int| 0 <= i < text.len() ==> '0' <= #[trigger] text[i] <= '9'
}

/// The number that decimal digits stand for.
pub open spec fn digits_value(digits: Seq<char>) -> nat
    decreases digits.len(),
{
    if digits.len() == 0 {
        0
    } else {
        digits_value(digits.drop_last()) * 10 + (digits.last() as nat - 48) as nat
    }
}

/// `text` without a leading plus sign.
pub open spec fn without_plus(text: Seq<char>) -> Seq<char> {
    if text.len() > 0 && text.first() == '+' {
        text.drop_first()
    } else {
        text
    }
}

/// The number that `text` spells, if it spells one up to `max`: an optional plus sign and
/// then at least one decimal digit, and nothing else.
pub open spec fn parsed_unsigned(text: Seq<char>, max: nat) -> Option<nat> {
    let digits = without_plus(text);
    if digits.len() > 0 && all_digits(digits) && digits_value(digits) <= max {
        Some(digits_value(digits))
    } else {
        None
    }
}

/// The characters of an optional text.
pub open spec fn optional_view(text: Option<&str>) -> Option<Seq<char>> {
    match text {
        Some(text) => Some(text@),
        None => None,
    }
}

/// The characters of each of several texts.
pub open spec fn texts_view(texts: Seq<String>) -> Seq<Seq<char>> {
    texts.map_values(|text: String| text@)
}

proof fn lemma_all_digits_push(text: Seq<char>, c: char)
    requires
        all_digits(text),
        '0' <= c <= '9',
    ensures
        all_digits(text.push(c)),
{
}

pub proof fn lemma_decimal_is_digits(value: nat)
    ensures
        decimal(value).len() > 0,
        all_digits(decimal(value)),
        digits_value(decimal(value)) == value,
    decreases value,
{
    reveal_with_fuel(digits_value, 2);
    if value < 10 {
        assert(decimal(value).drop_last() =~= Seq::<char>::empty());
    } else {
        let rest = decimal(value / 10);
        lemma_decimal_is_digits(value / 10);
        assert(decimal(value) =~= rest.push(digit(value % 10)));
        assert(decimal(value).drop_last() =~= rest);
    }
}

/// Reading back a number written in decimal gives the number.
pub proof fn decimal_reads_back(value: nat, max: nat)
    requires
        value <= max,
    ensures
        parsed_unsigned(decimal(value), max) == Some(value),
{
    lemma_decimal_is_digits(value);
    assert(without_plus(decimal(value)) =~= decimal(value));
}

/// No two numbers are written alike in hexadecimal.
pub proof fn hexadecimal_is_injective(left: nat, right: nat)
    requires
        hexadecimal(left) == hexadecimal(right),
    ensures
        left == right,
    decreases left,
{
    if left < 16 && right < 16 {
        assert(hexadecimal(left)[0] == digit(left));
        assert(hexadecimal(right)[0] == digit(right));
        lemma_digit_is_injective(left, right);
    } else if left < 16 {
        lemma_hexadecimal_is_not_empty(right / 16);
        assert(hexadecimal(left).len() == 1);
    } else if right < 16 {
        lemma_hexadecimal_is_not_empty(left / 16);
        assert(hexadecimal(right).len() == 1);
    } else {
        assert(hexadecimal(left).drop_last() =~= hexadecimal(left / 16));
        assert(hexadecimal(right).drop_last() =~= hexadecimal(right / 16));
        hexadecimal_is_injective(left / 16, right / 16);
        assert(hexadecimal(left).last() == digit(left % 16));
        assert(hexadecimal(right).last() == digit(right % 16));
        lemma_digit_is_injective(left % 16, right % 16);
    }
}

proof fn lemma_digit_is_injective(left: nat, right: nat)
    requires
        left < 16,
        right < 16,
        digit(left) == digit(right),
    ensures
        left == right,
{
    assert(digit(left) as nat == digit(right) as nat);
}

proof fn lemma_hexadecimal_is_not_empty(value: nat)
    ensures
        hexadecimal(value).len() > 0,
{
}

proof fn lemma_digits_value_grows(digits: Seq<char>, end: int)
    requires
        0 <= end <= digits.len(),
    ensures
        digits_value(digits.take(end)) <= digits_value(digits),
    decreases digits.len(),
{
    if end < digits.len() {
        lemma_digits_value_grows(digits.drop_last(), end);
        assert(digits.drop_last().take(end) =~= digits.take(end));
    } else {
        assert(digits.take(end) =~= digits);
    }
}

/// Trimming starts at whatever follows leading white space.
pub proof fn lemma_trimmed_skips_white_space(space: Seq<char>, text: Seq<char>)
    requires
        all_white_space(space),
    ensures
        trimmed_start(space + text) == trimmed_start(text),
    decreases space.len(),
{
    if space.len() == 0 {
        assert(space + text =~= text);
    } else {
        assert((space + text).first() == space[0]);
        assert((space + text).drop_first() =~= space.drop_first() + text);
        lemma_trimmed_skips_white_space(space.drop_first(), text);
    }
}

/// Trimming the end stops at whatever precedes trailing white space.
pub proof fn lemma_trimmed_end_skips_white_space(text: Seq<char>, space: Seq<char>)
    requires
        all_white_space(space),
    ensures
        trimmed_end(text + space) == trimmed_end(text),
    decreases space.len(),
{
    if space.len() == 0 {
        assert(text + space =~= text);
    } else {
        assert((text + space).last() == space[space.len() - 1]);
        assert((text + space).drop_last() =~= text + space.drop_last());
        lemma_trimmed_end_skips_white_space(text, space.drop_last());
    }
}

proof fn lemma_trimmed_end_after(kept: Seq<char>, text: Seq<char>)
    requires
        kept.len() > 0,
        !white_space(kept.last()),
    ensures
        trimmed_end(kept + text) == kept + trimmed_end(text),
    decreases text.len(),
{
    if text.len() == 0 {
        assert(kept + text =~= kept);
        assert(kept + trimmed_end(text) =~= kept);
    } else {
        assert((kept + text).last() == text.last());
        assert((kept + text).drop_last() =~= kept + text.drop_last());
        if white_space(text.last()) {
            lemma_trimmed_end_after(kept, text.drop_last());
        }
    }
}

/// Of a text that starts with something to keep, only the end is trimmed.
pub proof fn lemma_trimmed_after(kept: Seq<char>, text: Seq<char>)
    requires
        kept.len() > 0,
        !white_space(kept.first()),
        !white_space(kept.last()),
    ensures
        trimmed(kept + text) == kept + trimmed_end(text),
{
    assert((kept + text).first() == kept.first());
    lemma_trimmed_end_after(kept, text);
}

/// It makes no difference which end is trimmed first.
pub proof fn lemma_trimming_commutes(text: Seq<char>)
    ensures
        trimmed_start(trimmed_end(text)) == trimmed_end(trimmed_start(text)),
    decreases text.len(),
{
    if text.len() > 0 {
        if white_space(text.first()) {
            lemma_trimming_commutes(text.drop_first());
            if text.len() == 1 {
                assert(text.drop_first() =~= Seq::<char>::empty());
                assert(text.drop_last() =~= Seq::<char>::empty());
            }
            lemma_trimmed_end_of_rest(text);
        } else {
            lemma_trimmed_end_keeps_first(text);
        }
    }
}

pub proof fn lemma_trimmed_end_keeps_first(text: Seq<char>)
    requires
        text.len() > 0,
        !white_space(text.first()),
    ensures
        trimmed_end(text).len() > 0,
        trimmed_end(text).first() == text.first(),
    decreases text.len(),
{
    if white_space(text.last()) {
        lemma_trimmed_end_keeps_first(text.drop_last());
    }
}

proof fn lemma_trimmed_end_of_rest(text: Seq<char>)
    requires
        text.len() > 0,
        white_space(text.first()),
    ensures
        trimmed_start(trimmed_end(text)) == trimmed_start(trimmed_end(text.drop_first())),
    decreases text.len(),
{
    let rest = text.drop_first();
    if white_space(text.last()) {
        if text.len() == 1 {
            assert(text.drop_last() =~= rest);
        } else {
            assert(text.drop_last().drop_first() =~= rest.drop_last());
            lemma_trimmed_end_of_rest(text.drop_last());
        }
    }
}

/// The white space characters, by their code points.
pub proof fn white_space_by_code_point(c: char)
    ensures
        white_space(c) <==> ({
            let code = c as int;
            ||| code == 9 || code == 10 || code == 11 || code == 12 || code == 13
            ||| code == 32 || code == 133 || code == 160 || code == 5760
            ||| code == 8192 || code == 8193 || code == 8194 || code == 8195 || code == 8196
            ||| code == 8197 || code == 8198 || code == 8199 || code == 8200 || code == 8201
            ||| code == 8202 || code == 8232 || code == 8233 || code == 8239 || code == 8287
            ||| code == 12288
        }),
{
}

/// Whether `text` is empty, or starts and ends with something else than white space.
pub open spec fn has_bare_ends(text: Seq<char>) -> bool {
    text.len() == 0 || (!white_space(text.first()) && !white_space(text.last()))
}

/// Whatever stands between outer white space is what trimming leaves.
pub proof fn trimming_leaves_what_is_inside(before: Seq<char>, kept: Seq<char>, after: Seq<char>)
    requires
        all_white_space(before),
        has_bare_ends(kept),
        all_white_space(after),
    ensures
        trimmed(before + kept + after) == kept,
{
    assert(before + kept + after =~= before + (kept + after));
    lemma_trimmed_skips_white_space(before, kept + after);
    lemma_trimmed_end_skips_white_space(Seq::empty(), after);
    assert(Seq::<char>::empty() + after =~= after);
    if kept.len() > 0 {
        lemma_trimmed_after(kept, after);
        assert(kept + Seq::<char>::empty() =~= kept);
    } else {
        assert(kept + after =~= after);
        lemma_trimming_commutes(after);
        assert(kept =~= Seq::<char>::empty());
    }
}

/// Trimming takes away nothing but outer white space, and all of it.
pub proof fn trimming_takes_only_outer_white_space(text: Seq<char>)
    ensures
        has_bare_ends(trimmed(text)),
        exists|before: Seq<char>, after: Seq<char>|
            all_white_space(before) && all_white_space(after) && #[trigger] (before + trimmed(text)
                + after) == text,
{
    let start = trimmed_start(text);
    trimming_the_start_takes_only_white_space(text);
    lemma_trimmed_end_takes_only_white_space(start);
    let before = choose|before: Seq<char>|
        all_white_space(before) && #[trigger] (before + start) == text;
    let after = choose|after: Seq<char>|
        all_white_space(after) && #[trigger] (trimmed_end(start) + after) == start;
    assert(before + trimmed(text) + after =~= text);
    if start.len() > 0 {
        lemma_trimmed_end_keeps_first(start);
    }
}

/// Trimming the start takes away nothing but the white space there, and all of it.
pub proof fn trimming_the_start_takes_only_white_space(text: Seq<char>)
    ensures
        trimmed_start(text).len() == 0 || !white_space(trimmed_start(text).first()),
        exists|before: Seq<char>|
            all_white_space(before) && #[trigger] (before + trimmed_start(text)) == text,
    decreases text.len(),
{
    if text.len() > 0 && white_space(text.first()) {
        let rest = text.drop_first();
        trimming_the_start_takes_only_white_space(rest);
        let before = choose|before: Seq<char>|
            all_white_space(before) && #[trigger] (before + trimmed_start(rest)) == rest;
        let longer = seq![text.first()] + before;
        assert forall|i: int| 0 <= i < longer.len() implies white_space(#[trigger] longer[i]) by {
            if i > 0 {
                assert(longer[i] == before[i - 1]);
            }
        }
        assert(longer + trimmed_start(text) =~= seq![text.first()] + (before + trimmed_start(rest)));
        assert(seq![text.first()] + rest =~= text);
    } else {
        assert(Seq::<char>::empty() + trimmed_start(text) =~= text);
    }
}

proof fn lemma_trimmed_end_takes_only_white_space(text: Seq<char>)
    ensures
        trimmed_end(text).len() == 0 || !white_space(trimmed_end(text).last()),
        exists|after: Seq<char>|
            all_white_space(after) && #[trigger] (trimmed_end(text) + after) == text,
    decreases text.len(),
{
    if text.len() > 0 && white_space(text.last()) {
        let rest = text.drop_last();
        lemma_trimmed_end_takes_only_white_space(rest);
        let after = choose|after: Seq<char>|
            all_white_space(after) && #[trigger] (trimmed_end(rest) + after) == rest;
        let longer = after.push(text.last());
        assert forall|i: int| 0 <= i < longer.len() implies white_space(#[trigger] longer[i]) by {
            if i < after.len() {
                assert(longer[i] == after[i]);
            }
        }
        assert(trimmed_end(text) + longer =~= (trimmed_end(rest) + after).push(text.last()));
        assert(rest.push(text.last()) =~= text);
    } else {
        assert(trimmed_end(text) + Seq::<char>::empty() =~= text);
    }
}

/// A text occurs in another exactly if the other is that text with something, or nothing,
/// before and after it.
pub proof fn occurrences_stand_inside(needle: Seq<char>, text: Seq<char>)
    ensures
        occurs_in(needle, text) <==> exists|before: Seq<char>, after: Seq<char>| #[trigger]
            (before + needle + after) == text,
{
    if occurs_in(needle, text) {
        let at = choose|at: int| #[trigger] occurs_at(needle, text, at);
        let before = text.take(at);
        let after = text.skip(at + needle.len());
        assert forall|i: int| 0 <= i < text.len() implies (before + needle + after)[i]
            == text[i] by {
            if at <= i < at + needle.len() {
                assert(text.subrange(at, at + needle.len())[i - at] == needle[i - at]);
            }
        }
        assert(before + needle + after =~= text);
    }
    if exists|before: Seq<char>, after: Seq<char>| #[trigger] (before + needle + after) == text {
        let (before, after) = choose|before: Seq<char>, after: Seq<char>| #[trigger]
            (before + needle + after) == text;
        let at = before.len() as int;
        assert(text.subrange(at, at + needle.len()) =~= needle);
        assert(occurs_at(needle, text, at));
    }
}

/// Decimal numbers go on digit by digit: one below ten is its digit, and ten times a number and
/// a digit is the number and then the digit.
pub proof fn decimal_goes_on_with_its_last_digit(value: nat, last: nat)
    requires
        last < 10,
    ensures
        decimal(last) == seq!["0123456789"@[last as int]],
        value > 0 ==> decimal(10 * value + last) == decimal(value).push("0123456789"@[last as int]),
{
    reveal_strlit("0123456789");
    assert(digit(last) == "0123456789"@[last as int]) by {
        assert(last == 0 || last == 1 || last == 2 || last == 3 || last == 4 || last == 5 || last
            == 6 || last == 7 || last == 8 || last == 9);
    }
    assert((10 * value + last) / 10 == value);
    assert((10 * value + last) % 10 == last);
}

/// Hexadecimal numbers go on digit by digit: one below sixteen is its digit, and sixteen times
/// a number and a digit is the number and then the digit.
pub proof fn hexadecimal_goes_on_with_its_last_digit(value: nat, last: nat)
    requires
        last < 16,
    ensures
        hexadecimal(last) == seq!["0123456789abcdef"@[last as int]],
        value > 0 ==> hexadecimal(16 * value + last) == hexadecimal(value).push(
            "0123456789abcdef"@[last as int],
        ),
{
    reveal_strlit("0123456789abcdef");
    assert(digit(last) == "0123456789abcdef"@[last as int]) by {
        assert(last == 0 || last == 1 || last == 2 || last == 3 || last == 4 || last == 5 || last
            == 6 || last == 7 || last == 8 || last == 9 || last == 10 || last == 11 || last == 12
            || last == 13 || last == 14 || last == 15);
    }
    assert((16 * value + last) / 16 == value);
    assert((16 * value + last) % 16 == last);
}

/// Whether `text` is nothing but zeros, or empty.
pub open spec fn all_zeros(text: Seq<char>) -> bool {
    forall|i: int| 0 <= i < text.len() ==> #[trigger] text[i] == '0'
}

/// Whether `text` is `value` in decimal, with or without zeros before it.
pub open spec fn spells(text: Seq<char>, value: nat) -> bool {
    exists|zeros: Seq<char>| all_zeros(zeros) && #[trigger] (zeros + decimal(value)) == text
}

/// A text is read as a number exactly if it is that number in decimal, with or without zeros
/// and a plus sign before it, and the number is not too large.
pub proof fn only_decimal_numbers_are_read(text: Seq<char>, max: nat, value: nat)
    ensures
        parsed_unsigned(text, max) == Some(value) <==> value <= max && (spells(text, value) || (
        text.len() > 0 && text[0] == '+' && spells(text.skip(1), value))),
{
    let digits = without_plus(text);
    assert(text.len() > 0 ==> text.drop_first() =~= text.skip(1));
    if parsed_unsigned(text, max) == Some(value) {
        lemma_digits_spell(digits);
    }
    if spells(text, value) {
        lemma_spelled_digits(text, value);
        assert(text[0] != '+');
    }
    if text.len() > 0 && text[0] == '+' && spells(text.skip(1), value) {
        lemma_spelled_digits(text.skip(1), value);
    }
}

proof fn lemma_digits_spell(digits: Seq<char>)
    requires
        digits.len() > 0,
        all_digits(digits),
    ensures
        spells(digits, digits_value(digits)),
    decreases digits.len(),
{
    let last = (digits.last() as nat - 48) as nat;
    decimal_goes_on_with_its_last_digit(0, last);
    assert(decimal(last) =~= seq![digits.last()]);
    if digits.len() == 1 {
        reveal_with_fuel(digits_value, 2);
        assert(digits.drop_last() =~= Seq::<char>::empty());
        assert(Seq::<char>::empty() + decimal(last) =~= digits);
    } else {
        let rest = digits.drop_last();
        let value = digits_value(rest);
        lemma_digits_spell(rest);
        decimal_goes_on_with_its_last_digit(value, last);
        let zeros = choose|zeros: Seq<char>|
            all_zeros(zeros) && #[trigger] (zeros + decimal(value)) == rest;
        assert(digits =~= rest.push(digits.last()));
        if value > 0 {
            assert(zeros + decimal(10 * value + last) =~= digits);
        } else {
            decimal_goes_on_with_its_last_digit(0, 0);
            assert(decimal(0)[0] == '0');
            assert(zeros + decimal(0) + decimal(last) =~= digits);
            let more = zeros + decimal(0);
            assert(all_zeros(more));
            assert(more + decimal(last) =~= digits);
        }
    }
}

proof fn lemma_spelled_digits(text: Seq<char>, value: nat)
    requires
        spells(text, value),
    ensures
        text.len() > 0,
        all_digits(text),
        digits_value(text) == value,
{
    let zeros = choose|zeros: Seq<char>|
        all_zeros(zeros) && #[trigger] (zeros + decimal(value)) == text;
    lemma_decimal_is_digits(value);
    lemma_zeros_add_nothing(zeros, decimal(value));
    assert forall|i: int| 0 <= i < text.len() implies '0' <= #[trigger] text[i] <= '9' by {
        if i < zeros.len() {
            assert(text[i] == zeros[i]);
        } else {
            assert(text[i] == decimal(value)[i - zeros.len()]);
        }
    }
}

proof fn lemma_zeros_add_nothing(zeros: Seq<char>, digits: Seq<char>)
    requires
        all_zeros(zeros),
    ensures
        digits_value(zeros + digits) == digits_value(digits),
    decreases zeros.len() + digits.len(),
{
    if digits.len() > 0 {
        assert((zeros + digits).drop_last() =~= zeros + digits.drop_last());
        lemma_zeros_add_nothing(zeros, digits.drop_last());
    } else if zeros.len() > 0 {
        assert(zeros + digits =~= zeros);
        assert(zeros.drop_last() + digits =~= zeros.drop_last());
        lemma_zeros_add_nothing(zeros.drop_last(), digits);
    } else {
        assert(zeros + digits =~= digits);
    }
}

/// The texts of a list are its own, in order, and so is a text that may be missing.
pub proof fn texts_are_read_as_they_are(texts: Seq<String>, text: &str)
    ensures
        texts_view(texts).len() == texts.len(),
        forall|i: int| 0 <= i < texts.len() ==> #[trigger] texts_view(texts)[i] == texts[i]@,
        optional_view(Some(text)) == Some(text@),
        optional_view(None) is None,
{
}

/// Whether `c` has the Unicode property `White_Space`.
pub fn is_white_space(c: char) -> (is: bool)
    ensures
        is == white_space(c),
{
    ('\u{9}' <= c && c <= '\u{d}') || c == ' ' || c == '\u{85}' || c == '\u{a0}' || c == '\u{1680}'
        || ('\u{2000}' <= c && c <= '\u{200a}') || c == '\u{2028}' || c == '\u{2029}' || c
        == '\u{202f}' || c == '\u{205f}' || c == '\u{3000}'
}

/// The characters of `text`.
pub fn chars_of(text: &str) -> (chars: Vec<char>)
    ensures
        chars@ == text@,
{
    let mut chars: Vec<char> = Vec::new();
    for c in it: text.chars()
        invariant
            chars@ == it.seq().take(it.index()),
            it.seq() == text@,
    {
        chars.push(c);
    }
    chars
}

/// `text` without the white space that it starts with.
pub fn trim_start(text: &str) -> (rest: &str)
    ensures
        rest@ == trimmed_start(text@),
{
    let chars: Vec<char> = chars_of(text);
    let len: usize = chars.len();
    let mut start: usize = 0;
    assert(text@.skip(0) =~= text@);
    while start < len && is_white_space(chars[start])
        invariant
            len == chars.len(),
            chars@ == text@,
            start <= len,
            trimmed_start(text@) == trimmed_start(text@.skip(start as int)),
        decreases len - start,
    {
        assert(text@.skip(start as int).drop_first() =~= text@.skip(start + 1));
        start = start + 1;
    }
    assert(text@.skip(start as int) =~= text@.subrange(start as int, len as int));
    text.substring_char(start, len)
}

/// `text` without the white space that it ends with.
pub fn trim_end(text: &str) -> (rest: &str)
    ensures
        rest@ == trimmed_end(text@),
{
    let chars: Vec<char> = chars_of(text);
    let mut end: usize = chars.len();
    assert(text@.take(end as int) =~= text@);
    while end > 0 && is_white_space(chars[end - 1])
        invariant
            chars@ == text@,
            end <= chars.len(),
            trimmed_end(text@) == trimmed_end(text@.take(end as int)),
        decreases end,
    {
        assert(text@.take(end as int).drop_last() =~= text@.take(end - 1));
        end = end - 1;
    }
    assert(text@.take(end as int) =~= text@.subrange(0, end as int));
    text.substring_char(0, end)
}

/// `text` without the white space at either end.
pub fn trim(text: &str) -> (rest: &str)
    ensures
        rest@ == trimmed(text@),
{
    trim_end(trim_start(text))
}

/// What follows `prefix` in `text`, if `text` starts with it.
pub fn strip_prefix<'a>(text: &'a str, prefix: &str) -> (rest: Option<&'a str>)
    ensures
        rest is Some <==> prefix@.is_prefix_of(text@),
        rest matches Some(rest) ==> rest@ == text@.skip(prefix@.len() as int),
{
    let chars: Vec<char> = chars_of(text);
    let start: Vec<char> = chars_of(prefix);
    let len: usize = start.len();
    if chars.len() < len {
        return None;
    }
    let mut i: usize = 0;
    while i < len
        invariant
            chars@ == text@,
            start@ == prefix@,
            len == start.len(),
            len <= chars.len(),
            i <= len,
            forall|j: int| 0 <= j < i ==> chars@[j] == start@[j],
        decreases len - i,
    {
        if chars[i] != start[i] {
            assert(text@.subrange(0, len as int)[i as int] != prefix@[i as int]);
            return None;
        }
        i = i + 1;
    }
    assert(prefix@ =~= text@.subrange(0, len as int));
    assert(text@.skip(len as int) =~= text@.subrange(len as int, chars.len() as int));
    Some(text.substring_char(len, chars.len()))
}

/// Whether `needle` occurs somewhere in `text`.
pub fn contains(text: &str, needle: &str) -> (found: bool)
    ensures
        found == occurs_in(needle@, text@),
{
    let chars: Vec<char> = chars_of(text);
    let sought: Vec<char> = chars_of(needle);
    if chars.len() < sought.len() {
        return false;
    }
    let last: usize = chars.len() - sought.len();
    let mut at: usize = 0;
    while at <= last
        invariant
            chars@ == text@,
            sought@ == needle@,
            last + sought.len() == chars.len(),
            last < usize::MAX || sought.len() == 0,
            at <= last + 1,
            forall|k: int| 0 <= k < at ==> !#[trigger] occurs_at(needle@, text@, k),
        decreases last + 1 - at,
    {
        let mut i: usize = 0;
        while i < sought.len() && chars[at + i] == sought[i]
            invariant
                at + sought.len() <= chars.len(),
                i <= sought.len(),
                forall|j: int| 0 <= j < i ==> chars@[at + j] == sought@[j],
            decreases sought.len() - i,
        {
            i = i + 1;
        }
        if i == sought.len() {
            assert(text@.subrange(at as int, at + needle@.len()) =~= needle@);
            assert(occurs_at(needle@, text@, at as int));
            return true;
        }
        assert(text@.subrange(at as int, at + needle@.len())[i as int] != needle@[i as int]);
        at = at + 1;
    }
    false
}

/// Whether two texts are the same.
pub fn same_text(left: &str, right: &str) -> (same: bool)
    ensures
        same == (left@ == right@),
{
    left.to_owned() == right.to_owned()
}

/// The number that `text` spells, if it spells one up to `max`: an optional plus sign and
/// then at least one decimal digit, and nothing else.
pub fn parse_unsigned(text: &str, max: u64) -> (number: Option<u64>)
    ensures
        match number {
            Some(number) => parsed_unsigned(text@, max as nat) == Some(number as nat),
            None => parsed_unsigned(text@, max as nat) is None,
        },
{
    let chars: Vec<char> = chars_of(text);
    let len: usize = chars.len();
    let mut i: usize = 0;
    if len > 0 && chars[0] == '+' {
        i = 1;
    }
    let ghost start = i as int;
    let ghost digits = without_plus(text@);
    assert(digits =~= text@.skip(start));
    if i == len {
        return None;
    }
    let mut number: u64 = 0;
    assert(digits.take(0) =~= Seq::<char>::empty());
    while i < len
        invariant
            chars@ == text@,
            len == chars.len(),
            0 <= start <= i <= len,
            start < len,
            digits == without_plus(text@),
            digits == text@.skip(start),
            all_digits(digits.take(i - start)),
            number == digits_value(digits.take(i - start)),
            number <= max,
        decreases len - i,
    {
        let c: char = chars[i];
        if c < '0' || '9' < c {
            assert(digits[i - start] == c);
            return None;
        }
        let value: u64 = (c as u32 - 48) as u64;
        let ghost longer = digits.take(i - start + 1);
        proof {
            assert(longer.drop_last() =~= digits.take(i - start));
            assert(longer =~= digits.take(i - start).push(c));
            lemma_all_digits_push(digits.take(i - start), c);
            lemma_digits_value_grows(digits, i - start + 1);
        }
        let next: u128 = (number as u128) * 10 + (value as u128);
        assert(digits_value(longer) == next);
        if next > max as u128 {
            return None;
        }
        number = next as u64;
        i = i + 1;
    }
    assert(digits.take(len - start) =~= digits);
    Some(number)
}

fn digit_text(value: u128) -> (text: &'static str)
    requires
        value < 16,
    ensures
        text@ == seq![digit(value as nat)],
{
    proof {
        reveal_strlit("0");
        reveal_strlit("1");
        reveal_strlit("2");
        reveal_strlit("3");
        reveal_strlit("4");
        reveal_strlit("5");
        reveal_strlit("6");
        reveal_strlit("7");
        reveal_strlit("8");
        reveal_strlit("9");
        reveal_strlit("a");
        reveal_strlit("b");
        reveal_strlit("c");
        reveal_strlit("d");
        reveal_strlit("e");
        reveal_strlit("f");
    }
    let text: &'static str = match value {
        0 => "0",
        1 => "1",
        2 => "2",
        3 => "3",
        4 => "4",
        5 => "5",
        6 => "6",
        7 => "7",
        8 => "8",
        9 => "9",
        10 => "a",
        11 => "b",
        12 => "c",
        13 => "d",
        14 => "e",
        _ => "f",
    };
    assert(text@ =~= seq![digit(value as nat)]);
    text
}

fn numeral_text(value: u128, base: u128) -> (text: String)
    requires
        2 <= base <= 16,
    ensures
        text@ == numeral(value as nat, base as nat),
    decreases value,
{
    if value < base {
        digit_text(value).to_owned()
    } else {
        proof {
            vstd::arithmetic::div_mod::lemma_div_decreases(value as int, base as int);
            vstd::arithmetic::div_mod::lemma_mod_bound(value as int, base as int);
        }
        let mut text: String = numeral_text(value / base, base);
        let ghost rest = text@;
        text.append(digit_text(value % base));
        assert(text@ =~= rest.push(digit((value % base) as nat)));
        text
    }
}

/// `value` written in decimal.
pub fn decimal_text(value: u64) -> (text: String)
    ensures
        text@ == decimal(value as nat),
{
    numeral_text(value as u128, 10)
}

/// `value` written in hexadecimal, with lower case letters.
pub fn hexadecimal_text(value: u128) -> (text: String)
    ensures
        text@ == hexadecimal(value as nat),
{
    numeral_text(value, 16)
}

} // verus!
