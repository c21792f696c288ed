//! Laws of digits, words and the order of texts.
use crate::text::{
    ascii, decimal, has_text, hex_byte, hex_char, hex_number, hex_text, hex_value, is_white,
    lemma_hex_char, lemma_hex_text, lemma_trim_start, lemma_word_len_is, lower_hex, text_before,
    trim, trim_end, trim_start, words,
};
use vstd::prelude::*;

verus! {

/// The hexadecimal digits are `0` to `9`, `a` to `f` and `A` to `F`, with their usual
/// values, and no other character is one.
pub proof fn law_hex_digit_values(c: char)
    ensures
        0x30 <= c as int <= 0x39 ==> hex_value(c) is Some && hex_value(c)->0 == c as int - 0x30,
        0x61 <= c as int <= 0x66 ==> hex_value(c) is Some && hex_value(c)->0 == c as int - 0x57,
        0x41 <= c as int <= 0x46 ==> hex_value(c) is Some && hex_value(c)->0 == c as int - 0x37,
        !(0x30 <= c as int <= 0x39) && !(0x61 <= c as int <= 0x66) && !(0x41 <= c as int <= 0x46)
            ==> hex_value(c) is None,
{
}

/// The digit of a nibble: `0` to `9`, and then the lower-case letters.
pub proof fn law_lower_case_digits(n: int)
    requires
        0 <= n < 16,
    ensures
        n < 10 ==> hex_char(n) as int == 0x30 + n,
        n >= 10 ==> hex_char(n) as int == 0x57 + n,
{
}

/// Each byte is written as two lower-case digits, the high one first, and together
/// they have its value.
pub proof fn law_hex_text_spells_bytes(bytes: Seq<u8>, i: int)
    requires
        0 <= i < bytes.len(),
    ensures
        hex_text(bytes).len() == 2 * bytes.len(),
        ({
            let high = hex_text(bytes)[2 * i];
            let low = hex_text(bytes)[2 * i + 1];
            &&& hex_value(high) is Some && hex_value(low) is Some
            &&& 16 * hex_value(high)->0 + hex_value(low)->0 == bytes[i]
            &&& !(0x41 <= high as int <= 0x46) && !(0x41 <= low as int <= 0x46)
        }),
        hex_text(seq![bytes[i]]) == hex_byte(bytes[i]),
{
    lemma_hex_text(bytes);
    let pair = hex_text(bytes).subrange(2 * i, 2 * i + 2);
    assert(pair == hex_byte(bytes[i]));
    assert(pair[0] == hex_text(bytes)[2 * i]);
    assert(pair[1] == hex_text(bytes)[2 * i + 1]);
    lemma_hex_char(bytes[i] as int / 16);
    lemma_hex_char(bytes[i] as int % 16);
    let one = seq![bytes[i]];
    assert(one.drop_last() =~= seq![]);
    assert(hex_text(one) =~= hex_byte(bytes[i])) by {
        assert(hex_text(one.drop_last()) =~= seq![]);
    }
}

/// One digit more makes sixteen times the number and the digit; a character that is no
/// digit makes no number.
pub proof fn law_hex_number_goes_on(digits: Seq<char>, c: char)
    ensures
        hex_number(Seq::empty()) == Some(0nat),
        hex_number(digits) is Some && hex_value(c) is Some ==> hex_number(digits.push(c)) == Some(
            (16 * hex_number(digits)->0 + hex_value(c)->0) as nat,
        ),
        hex_number(digits) is None || hex_value(c) is None ==> hex_number(digits.push(c)) is None,
{
    assert(digits.push(c).drop_last() =~= digits);
}

/// Upper-case digits become lower-case ones of the same value, and nothing else
/// changes.
pub proof fn law_lower_hex_keeps_values(s: Seq<char>, i: int)
    requires
        0 <= i < s.len(),
    ensures
        lower_hex(s).len() == s.len(),
        hex_value(lower_hex(s)[i]) == hex_value(s[i]),
        !(0x41 <= s[i] as int <= 0x46) ==> lower_hex(s)[i] == s[i],
        0x41 <= s[i] as int <= 0x46 ==> lower_hex(s)[i] as int == s[i] as int + 0x20,
{
    match hex_value(s[i]) {
        Some(v) => {
            lemma_hex_char(v as int);
        },
        None => {},
    }
}

/// Decimal digits: one digit stands for itself, and one digit more makes ten times the
/// number and the digit.
pub proof fn law_decimal_digits(n: nat, d: nat)
    requires
        d < 10,
    ensures
        decimal(d).len() == 1,
        decimal(d)[0] as int == 0x30 + d,
        n > 0 ==> decimal(10 * n + d).len() == decimal(n).len() + 1,
        n > 0 ==> decimal(10 * n + d).drop_last() == decimal(n),
        n > 0 ==> decimal(10 * n + d).last() as int == 0x30 + d,
{
    if n > 0 {
        assert((10 * n + d) / 10 == n);
        assert((10 * n + d) % 10 == d);
        assert(decimal(10 * n + d).drop_last() =~= decimal(n));
    }
}

/// The bytes of an ASCII text are the numbers of its characters, in order.
pub proof fn law_ascii_bytes(text: Seq<char>, i: int)
    requires
        0 <= i < text.len(),
    ensures
        ascii(text).len() == text.len(),
        ascii(text)[i] == text[i] as u8,
{
}

/// Which characters are whitespace: those with the property of that name.
pub proof fn law_whitespace(c: char)
    ensures
        is_white(c) <==> {
            let n = c as int;
            9 <= n <= 13 || n == 0x20 || n == 0x85 || n == 0xa0 || n == 0x1680 || 0x2000 <= n
                <= 0x200a || n == 0x2028 || n == 0x2029 || n == 0x202f || n == 0x205f || n
                == 0x3000
        },
{
}

/// Words: whitespace in front does not count, a run of other characters up to the next
/// whitespace is the first word, and without characters there are none.
pub proof fn law_words(word: Seq<char>, gap: char, rest: Seq<char>)
    requires
        word.len() > 0,
        forall|i: int| 0 <= i < word.len() ==> !is_white(#[trigger] word[i]),
        is_white(gap),
    ensures
        words(Seq::empty()) == Seq::<Seq<char>>::empty(),
        words(seq![gap] + rest) == words(rest),
        words(word) == seq![word],
        words(word + seq![gap] + rest) == seq![word] + words(rest),
{
    let s = word + seq![gap] + rest;
    let n = word.len();
    assert(s[0] == word[0]);
    assert forall|i: int| 0 <= i < n implies !is_white(#[trigger] s[i]) by {
        assert(s[i] == word[i]);
    }
    lemma_word_len_is(s, n);
    assert(s.take(n as int) =~= word);
    let after = seq![gap] + rest;
    assert(s.skip(n as int) =~= after);
    assert(after.drop_first() =~= rest);
    assert(trim_start(after) == trim_start(rest));
    assert(words(after) == words(rest));
    lemma_word_len_is(word, n);
    assert(word.take(n as int) =~= word);
    assert(word.skip(n as int) =~= seq![]);
    assert(words(Seq::<char>::empty()) =~= seq![]) by {
        assert(trim_start(Seq::<char>::empty()).len() == 0);
    }
    assert(seq![word] + Seq::<Seq<char>>::empty() =~= seq![word]);
}

/// What trimming cuts off in front is whitespace.
proof fn lemma_trim_start_cut(s: Seq<char>, i: int)
    requires
        0 <= i < s.len() - trim_start(s).len(),
    ensures
        is_white(s[i]),
    decreases s.len(),
{
    lemma_trim_start(s);
    if s.len() > 0 && is_white(s[0]) && i > 0 {
        lemma_trim_start(s.drop_first());
        lemma_trim_start_cut(s.drop_first(), i - 1);
    }
}

/// Trimming the end leaves a prefix, and cuts off whitespace alone.
proof fn lemma_trim_end(s: Seq<char>)
    ensures
        trim_end(s).len() <= s.len(),
        trim_end(s) == s.take(trim_end(s).len() as int),
        trim_end(s).len() > 0 ==> !is_white(trim_end(s).last()),
        forall|i: int| trim_end(s).len() <= i < s.len() ==> is_white(#[trigger] s[i]),
    decreases s.len(),
{
    if s.len() > 0 && is_white(s.last()) {
        let r = s.drop_last();
        lemma_trim_end(r);
        assert(r.take(trim_end(r).len() as int) =~= s.take(trim_end(r).len() as int));
        assert forall|i: int| trim_end(s).len() <= i < s.len() implies is_white(
            #[trigger] s[i],
        ) by {
            if i < r.len() {
                assert(is_white(r[i]));
            }
        }
    } else {
        assert(s.take(s.len() as int) =~= s);
    }
}

/// Trimming cuts whitespace off both ends and nothing else: what is left stands at `n`,
/// has no whitespace at its ends, and all around it is whitespace.
pub proof fn law_trim(s: Seq<char>) -> (n: int)
    ensures
        0 <= n <= n + trim(s).len() <= s.len(),
        trim(s) == s.subrange(n, n + trim(s).len()),
        forall|i: int| 0 <= i < n ==> is_white(#[trigger] s[i]),
        forall|i: int| n + trim(s).len() <= i < s.len() ==> is_white(#[trigger] s[i]),
        trim(s).len() > 0 ==> !is_white(trim(s)[0]) && !is_white(trim(s).last()),
{
    let t = trim_start(s);
    let n = s.len() - t.len();
    lemma_trim_start(s);
    lemma_trim_end(t);
    assert forall|i: int| 0 <= i < n implies is_white(#[trigger] s[i]) by {
        lemma_trim_start_cut(s, i);
    }
    assert(trim(s) =~= s.subrange(n, n + trim(s).len()));
    assert forall|i: int| n + trim(s).len() <= i < s.len() implies is_white(#[trigger] s[i]) by {
        assert(s[i] == t[i - n]);
    }
    if trim(s).len() > 0 {
        assert(trim(s)[0] == t[0]);
    }
    n
}

/// The order of texts: a common beginning does not count, then the first characters
/// decide by their numbers, and a text comes before every longer one that begins with it.
pub proof fn law_text_order(p: Seq<char>, a: Seq<char>, b: Seq<char>)
    ensures
        text_before(p + a, p + b) == text_before(a, b),
        text_before(p, p + b) == (b.len() > 0),
        a.len() > 0 && b.len() > 0 && a[0] != b[0] ==> text_before(a, b) == ((a[0] as int) < (
        b[0] as int)),
        b.len() == 0 ==> !text_before(a, b),
    decreases p.len(),
{
    if p.len() > 0 {
        let q = p.drop_first();
        law_text_order(q, a, b);
        assert((p + a).drop_first() =~= q + a);
        assert((p + b).drop_first() =~= q + b);
    } else {
        assert(p + a =~= a);
        assert(p + b =~= b);
    }
}

/// A part is found wherever it stands, and what is found stands somewhere.
pub proof fn law_has_text(text: Seq<char>, before: Seq<char>, part: Seq<char>, after: Seq<char>)
    ensures
        has_text(before + part + after, part),
        has_text(text, part) ==> exists|a: Seq<char>, b: Seq<char>| #[trigger] (a + part + b)
            == text,
{
    let whole = before + part + after;
    let n = before.len() as int;
    assert(whole.subrange(n, n + part.len()) =~= part);
    if has_text(text, part) {
        let i = choose|i: int|
            0 <= i && i + part.len() <= text.len() && #[trigger] text.subrange(i, i + part.len())
                == part;
        let a = text.take(i);
        let b = text.skip(i + part.len());
        assert(a + part + b =~= text);
    }
}

} // verus!
