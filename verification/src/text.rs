//! Text handling on `Seq<char>` models: pushing and popping characters,
//! splitting on spaces, and decimal numbers.

use vstd::prelude::*;
use vstd::std_specs::iter::IteratorSpec;

verus! {

/// `String::push` appends the given character to the end of the string.
pub assume_specification[ String::push ](s: &mut String, ch: char)
    ensures
        final(s)@ == old(s)@.push(ch),
;

/// `String::pop` removes the last character and returns it, or returns
/// `None` and leaves the string alone when it is empty.
pub assume_specification[ String::pop ](s: &mut String) -> (last: Option<char>)
    ensures
        old(s)@.len() == 0 ==> last.is_none() && final(s)@ == old(s)@,
        old(s)@.len() > 0 ==> last == Some(old(s)@.last()) && final(s)@ == old(s)@.drop_last(),
;

/// The characters of `s`, in order.
pub fn chars_of(s: &str) -> (chars: Vec<char>)
    ensures
        chars@ == s@,
{
    broadcast use vstd::string::group_string_axioms;

    let mut chars: Vec<char> = Vec::new();
    for c in iter: s.chars()
        invariant
            iter.seq() == s@,
            chars@ == iter.seq().take(iter.index()),
    {
        chars.push(c);
    }
    chars
}

/// The texts that a sequence of strings holds.
pub open spec fn texts(strings: Seq<String>) -> Seq<Seq<char>> {
    Seq::new(strings.len(), |i: int| strings[i]@)
}

/// The fields of `s` when it is cut at every single space. Reading from
/// the left, a space closes the current field and opens an empty one; any
/// other character extends the current field. There is always at least one
/// field, and two spaces in a row enclose an empty one.
pub open spec fn fields(s: Seq<char>) -> Seq<Seq<char>>
    decreases s.len(),
{
    if s.len() == 0 {
        seq![Seq::<char>::empty()]
    } else {
        let before = fields(s.drop_last());
        if s.last() == ' ' {
            before.push(Seq::<char>::empty())
        } else {
            before.drop_last().push(before.last().push(s.last()))
        }
    }
}

/// `fields` never comes back empty.
pub proof fn lemma_fields_nonempty(s: Seq<char>)
    ensures
        fields(s).len() >= 1,
    decreases s.len(),
{
    if s.len() > 0 {
        lemma_fields_nonempty(s.drop_last());
    }
}

/// The texts of `parts` in a row, with one space between each two.
pub open spec fn joined(parts: Seq<Seq<char>>) -> Seq<char>
    decreases parts.len(),
{
    if parts.len() == 0 {
        Seq::empty()
    } else if parts.len() == 1 {
        parts[0]
    } else {
        joined(parts.drop_last()) + seq![' '] + parts.last()
    }
}

/// The fields of a text hold no space, and put in a row again with a space
/// between each two they give the text.
pub proof fn lemma_fields_rejoin(s: Seq<char>)
    ensures
        joined(fields(s)) == s,
        forall|i: int, k: int|
            0 <= i < fields(s).len() && 0 <= k < fields(s)[i].len() ==> fields(s)[i][k] != ' ',
    decreases s.len(),
{
    if s.len() > 0 {
        let rest = s.drop_last();
        let before = fields(rest);
        lemma_fields_rejoin(rest);
        lemma_fields_nonempty(rest);
        assert(s == rest.push(s.last()));
        if s.last() == ' ' {
            let after = before.push(Seq::<char>::empty());
            assert(after.drop_last() == before);
            assert(joined(after) =~= joined(before) + seq![' ']);
            assert(joined(after) =~= s);
        } else {
            let grown = before.last().push(s.last());
            let after = before.drop_last().push(grown);
            assert(after.drop_last() == before.drop_last());
            if before.len() == 1 {
                assert(joined(after) =~= s);
            } else {
                assert(joined(after) =~= joined(before).push(s.last()));
                assert(joined(after) =~= s);
            }
        }
    }
}

/// Cuts `s` at every single space.
pub fn split_fields(s: &str) -> (out: Vec<String>)
    ensures
        texts(out@) == fields(s@),
{
    broadcast use vstd::string::group_string_axioms;

    let mut done: Vec<String> = Vec::new();
    let mut current = String::new();
    for c in iter: s.chars()
        invariant
            iter.seq() == s@,
            texts(done@).push(current@) == fields(s@.take(iter.index())),
    {
        proof {
            let upto = s@.take(iter.index() + 1);
            assert(upto.drop_last() == s@.take(iter.index()));
            assert(upto.last() == c);
        }
        if c == ' ' {
            done.push(current);
            current = String::new();
        } else {
            current.push(c);
        }
    }
    proof {
        assert(s@.take(s@.len() as int) == s@);
    }
    done.push(current);
    done
}

/// Whether `c` is one of the ten ASCII digits.
pub open spec fn is_digit(c: char) -> bool {
    '0' <= c && c <= '9'
}

/// The number that the digit `c` stands for.
pub open spec fn digit_value(c: char) -> nat
    recommends
        is_digit(c),
{
    (c as int - '0' as int) as nat
}

/// Whether `s` holds ASCII digits only.
pub open spec fn all_digits(s: Seq<char>) -> bool {
    forall|i: int| 0 <= i < s.len() ==> is_digit(#[trigger] s[i])
}

/// The number that the digits of `s` write in base ten; 0 for no digits.
pub open spec fn decimal_value(s: Seq<char>) -> nat
    recommends
        all_digits(s),
    decreases s.len(),
{
    if s.len() == 0 {
        0
    } else {
        decimal_value(s.drop_last()) * 10 + digit_value(s.last())
    }
}

/// `s` without the one `+` that may stand in front of a number.
pub open spec fn unsigned_digits(s: Seq<char>) -> Seq<char> {
    if s.len() > 0 && s[0] == '+' {
        s.skip(1)
    } else {
        s
    }
}

/// The count that `s` writes: an optional `+`, then at least one ASCII
/// digit, with a value that a `usize` holds. Anything else is no count.
pub open spec fn parse_count(s: Seq<char>) -> Option<nat> {
    let digits = unsigned_digits(s);
    if digits.len() > 0 && all_digits(digits) && decimal_value(digits) <= usize::MAX {
        Some(decimal_value(digits))
    } else {
        None
    }
}

/// A number is never smaller than the number that its leading digits write.
pub proof fn lemma_decimal_value_grows(s: Seq<char>, n: int)
    requires
        0 <= n <= s.len(),
    ensures
        decimal_value(s.take(n)) <= decimal_value(s),
    decreases s.len() - n,
{
    if n == s.len() {
        assert(s.take(n) == s);
    } else {
        lemma_decimal_value_grows(s, n + 1);
        assert(s.take(n + 1).drop_last() == s.take(n));
    }
}

/// Reads `s` as a count, as `parse_count` says.
pub fn read_count(s: &str) -> (count: Option<usize>)
    ensures
        match count {
            Some(n) => parse_count(s@) == Some(n as nat),
            None => parse_count(s@).is_none(),
        },
{
    let chars = chars_of(s);
    let start: usize = if chars.len() > 0 && chars[0] == '+' {
        1
    } else {
        0
    };
    if start == chars.len() {
        return None;
    }
    let ghost digits = unsigned_digits(s@);
    assert(digits == chars@.skip(start as int));
    let mut value: usize = 0;
    let mut i: usize = start;
    while i < chars.len()
        invariant
            start <= i <= chars.len(),
            digits == unsigned_digits(s@),
            digits == chars@.skip(start as int),
            all_digits(digits.take(i - start)),
            value == decimal_value(digits.take(i - start)),
        decreases chars.len() - i,
    {
        let c = chars[i];
        let ghost upto = digits.take(i - start + 1);
        proof {
            assert(upto.drop_last() == digits.take(i - start));
            assert(upto.last() == c);
            lemma_decimal_value_grows(digits, i - start + 1);
        }
        if !(c >= '0' && c <= '9') {
            assert(!is_digit(digits[i - start]));
            return None;
        }
        let digit: usize = (c as u32 - '0' as u32) as usize;
        let next = match value.checked_mul(10) {
            Some(tens) => tens.checked_add(digit),
            None => None,
        };
        match next {
            Some(n) => {
                value = n;
            },
            None => {
                return None;
            },
        }
        i += 1;
    }
    proof {
        assert(digits.take(i - start) == digits);
    }
    Some(value)
}

/// The character that writes the digit `d`.
pub open spec fn digit_char(d: nat) -> char
    recommends
        d < 10,
{
    ('0' as int + d) as char
}

/// `n` written in base ten, without leading zeros.
pub open spec fn decimal(n: nat) -> Seq<char>
    decreases n,
{
    if n < 10 {
        seq![digit_char(n)]
    } else {
        decimal(n / 10).push(digit_char(n % 10))
    }
}

/// What is written in base ten reads back as the number it was written
/// for: the text holds digits only, at least one, and as a count it is the
/// number again.
pub proof fn lemma_decimal_reads_back(n: nat)
    ensures
        decimal(n).len() > 0,
        all_digits(decimal(n)),
        decimal_value(decimal(n)) == n,
        n <= usize::MAX ==> parse_count(decimal(n)) == Some(n),
    decreases n,
{
    let text = decimal(n);
    if n < 10 {
        assert(text.drop_last() == Seq::<char>::empty());
        assert(decimal_value(text.drop_last()) == 0);
        assert(is_digit(text[0]));
    } else {
        lemma_decimal_reads_back(n / 10);
        let front = decimal(n / 10);
        assert(text.drop_last() == front);
        assert(text.last() == digit_char(n % 10));
        assert(is_digit(text.last()));
        assert forall|i: int| 0 <= i < text.len() implies is_digit(#[trigger] text[i]) by {
            if i < front.len() {
                assert(text[i] == front[i]);
            }
        }
    }
    assert(is_digit(text[0]));
    assert(unsigned_digits(text) == text);
}

/// `n` written in base ten, with a minus sign before it if it is negative.
pub open spec fn signed_decimal(n: int) -> Seq<char> {
    if n < 0 {
        seq!['-'] + decimal((-n) as nat)
    } else {
        decimal(n as nat)
    }
}

/// Appends `n`, written in base ten, to `out`.
pub fn push_wide_decimal(out: &mut String, n: u128)
    ensures
        final(out)@ == old(out)@ + decimal(n as nat),
    decreases n,
{
    if n >= 10 {
        push_wide_decimal(out, n / 10);
    }
    let digit: u8 = (n % 10) as u8;
    out.push((48u8 + digit) as char);
}

/// Appends `n`, written in base ten, to `out`.
pub fn push_decimal(out: &mut String, n: usize)
    ensures
        final(out)@ == old(out)@ + decimal(n as nat),
{
    push_wide_decimal(out, n as u128);
}

/// Appends `n`, written in base ten with its sign, to `out`.
pub fn push_signed_decimal(out: &mut String, n: i128)
    ensures
        final(out)@ == old(out)@ + signed_decimal(n as int),
{
    if n < 0 {
        out.push('-');
        let size: u128 = (-(n + 1)) as u128 + 1;
        push_wide_decimal(out, size);
    } else {
        push_wide_decimal(out, n as u128);
    }
}

/// How one text stands to another in the order of the dictionary.
#[derive(Clone, Copy, Debug, PartialEq, Eq, Structural)]
pub enum TextOrder {
    Before,
    Same,
    After,
}

impl TextOrder {
    /// The order seen from the other side.
    pub open spec fn reversed(self) -> TextOrder {
        match self {
            TextOrder::Before => TextOrder::After,
            TextOrder::Same => TextOrder::Same,
            TextOrder::After => TextOrder::Before,
        }
    }
}

/// How `a` stands to `b` in the order of the dictionary, character by
/// character: the first character in which they differ decides, and a text
/// stands before every text that it begins.
pub open spec fn text_order(a: Seq<char>, b: Seq<char>) -> TextOrder
    decreases a.len(),
{
    if a.len() == 0 && b.len() == 0 {
        TextOrder::Same
    } else if a.len() == 0 {
        TextOrder::Before
    } else if b.len() == 0 {
        TextOrder::After
    } else if a[0] < b[0] {
        TextOrder::Before
    } else if a[0] > b[0] {
        TextOrder::After
    } else {
        text_order(a.drop_first(), b.drop_first())
    }
}

/// Only equal texts are the same in the order.
pub proof fn lemma_text_order_same(a: Seq<char>, b: Seq<char>)
    ensures
        text_order(a, b) == TextOrder::Same <==> a == b,
    decreases a.len(),
{
    if a.len() > 0 && b.len() > 0 && a[0] == b[0] {
        lemma_text_order_same(a.drop_first(), b.drop_first());
        if a.drop_first() == b.drop_first() {
            assert(a =~= seq![a[0]] + a.drop_first());
            assert(b =~= seq![b[0]] + b.drop_first());
        }
    }
    if a.len() == 0 && b.len() == 0 {
        assert(a =~= b);
    }
}

/// If `a` stands before `b`, then `b` stands after `a`, and the other way
/// round.
pub proof fn lemma_text_order_reversed(a: Seq<char>, b: Seq<char>)
    ensures
        text_order(b, a) == text_order(a, b).reversed(),
    decreases a.len(),
{
    if a.len() > 0 && b.len() > 0 && a[0] == b[0] {
        lemma_text_order_reversed(a.drop_first(), b.drop_first());
    }
}

/// Cutting off a common beginning does not change the order.
pub proof fn lemma_text_order_skips(a: Seq<char>, b: Seq<char>, n: int)
    requires
        0 <= n <= a.len(),
        n <= b.len(),
        a.take(n) == b.take(n),
    ensures
        text_order(a, b) == text_order(a.skip(n), b.skip(n)),
    decreases n,
{
    if n == 0 {
        assert(a.skip(0) == a);
        assert(b.skip(0) == b);
    } else {
        assert(a[0] == a.take(n)[0] && b[0] == b.take(n)[0]);
        assert(a.drop_first().take(n - 1) == a.take(n).drop_first());
        assert(b.drop_first().take(n - 1) == b.take(n).drop_first());
        lemma_text_order_skips(a.drop_first(), b.drop_first(), n - 1);
        assert(a.drop_first().skip(n - 1) == a.skip(n));
        assert(b.drop_first().skip(n - 1) == b.skip(n));
    }
}

/// How `a` stands to `b` in the order of the dictionary.
pub fn compare_texts(a: &str, b: &str) -> (order: TextOrder)
    ensures
        order == text_order(a@, b@),
{
    let left = chars_of(a);
    let right = chars_of(b);
    let mut i: usize = 0;
    while i < left.len() && i < right.len()
        invariant
            i <= left.len(),
            i <= right.len(),
            left@ == a@,
            right@ == b@,
            left@.take(i as int) == right@.take(i as int),
        decreases left.len() - i,
    {
        proof {
            lemma_text_order_skips(left@, right@, i as int);
            assert(left@.skip(i as int)[0] == left@[i as int]);
            assert(right@.skip(i as int)[0] == right@[i as int]);
        }
        if left[i] < right[i] {
            return TextOrder::Before;
        }
        if left[i] > right[i] {
            return TextOrder::After;
        }
        proof {
            assert(left@.take(i + 1) == left@.take(i as int).push(left@[i as int]));
            assert(right@.take(i + 1) == right@.take(i as int).push(right@[i as int]));
        }
        i += 1;
    }
    proof {
        lemma_text_order_skips(left@, right@, i as int);
    }
    if i < right.len() {
        TextOrder::Before
    } else if i < left.len() {
        TextOrder::After
    } else {
        TextOrder::Same
    }
}

} // verus!
