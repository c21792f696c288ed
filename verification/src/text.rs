//! Characters, hexadecimal digits and small pieces of text.
use vstd::prelude::*;
use vstd::string::*;
use vstd::utf8::*;

verus! {

/// Error of a failed UTF-8 check.
#[verifier::external_type_specification]
#[verifier::external_body]
pub struct ExUtf8Error(core::str::Utf8Error);

/// `core::str::from_utf8` accepts exactly the valid UTF-8 byte sequences and
/// hands back the text that they encode.
pub assume_specification[ core::str::from_utf8 ](v: &[u8]) -> (r: Result<
    &str,
    core::str::Utf8Error,
>)
    ensures
        r is Ok <==> valid_utf8(v@),
        r matches Ok(s) ==> s.spec_bytes() == v@,
;

/// `String::push` appends one character.
pub assume_specification[ String::push ](s: &mut String, c: char)
    ensures
        final(s)@ == old(s)@.push(c),
;

/// What `String::from_utf8_lossy` makes of a byte sequence.
pub uninterp spec fn utf8_lossy(bytes: Seq<u8>) -> Seq<char>;

/// Calls `String::from_utf8_lossy`: the text of `bytes`, which for valid UTF-8
/// is the text that the bytes encode. What stands in for invalid parts is left
/// to the name [`utf8_lossy`].
#[verifier::external_body]
pub(crate) fn lossy_text(bytes: &[u8]) -> (text: String)
    ensures
        text@ == utf8_lossy(bytes@),
        valid_utf8(bytes@) ==> text@ == decode_utf8(bytes@),
{
    String::from_utf8_lossy(bytes).into_owned()
}

/// What the `Debug` form of a text is: the text between quotation marks, with
/// escapes.
pub uninterp spec fn quoted(text: Seq<char>) -> Seq<char>;

/// Formats `text` with `Debug` of `str`. Which characters are escaped, and how,
/// is left to the name [`quoted`].
#[verifier::external_body]
pub(crate) fn quoted_text(text: &str) -> (r: String)
    ensures
        r@ == quoted(text@),
{
    format!("{text:?}")
}

/// The text that may be there.
pub open spec fn text_option(text: Option<String>) -> Option<Seq<char>> {
    match text {
        Some(s) => Some(s@),
        None => None,
    }
}

/// The borrowed text that may be there.
pub open spec fn str_option(text: Option<&str>) -> Option<Seq<char>> {
    match text {
        Some(s) => Some(s@),
        None => None,
    }
}

/// Characters with the Unicode `White_Space` property.
pub open spec fn is_white(c: char) -> bool {
    ||| '\u{9}' <= c <= '\u{d}'
    ||| c == '\u{20}'
    ||| c == '\u{85}'
    ||| c == '\u{a0}'
    ||| c == '\u{1680}'
    ||| '\u{2000}' <= c <= '\u{200a}'
    ||| c == '\u{2028}'
    ||| c == '\u{2029}'
    ||| c == '\u{202f}'
    ||| c == '\u{205f}'
    ||| c == '\u{3000}'
}

/// Whether `c` has the Unicode `White_Space` property.
pub fn is_whitespace(c: char) -> (r: bool)
    ensures
        r == is_white(c),
{
    ('\u{9}' <= c && c <= '\u{d}') || c == '\u{20}' || c == '\u{85}' || c == '\u{a0}' || c
        == '\u{1680}' || ('\u{2000}' <= c && c <= '\u{200a}') || c == '\u{2028}' || c == '\u{2029}'
        || c == '\u{202f}' || c == '\u{205f}' || c == '\u{3000}'
}

/// `s` without the whitespace that it starts with.
pub open spec fn trim_start(s: Seq<char>) -> Seq<char>
    decreases s.len(),
{
    if s.len() > 0 && is_white(s[0]) {
        trim_start(s.drop_first())
    } else {
        s
    }
}

/// `s` without the whitespace that it ends with.
pub open spec fn trim_end(s: Seq<char>) -> Seq<char>
    decreases s.len(),
{
    if s.len() > 0 && is_white(s.last()) {
        trim_end(s.drop_last())
    } else {
        s
    }
}

/// `s` without whitespace at its ends.
pub open spec fn trim(s: Seq<char>) -> Seq<char> {
    trim_end(trim_start(s))
}

/// Number of characters before the first whitespace.
pub open spec fn word_len(s: Seq<char>) -> nat
    decreases s.len(),
{
    if s.len() > 0 && !is_white(s[0]) {
        1 + word_len(s.drop_first())
    } else {
        0
    }
}

/// The words of `s`: its runs of characters between whitespace.
pub open spec fn words(s: Seq<char>) -> Seq<Seq<char>>
    decreases s.len(),
{
    let t = trim_start(s);
    proof {
        lemma_trim_start(s);
        lemma_word_len(t);
    }
    if t.len() == 0 {
        seq![]
    } else {
        seq![t.take(word_len(t) as int)] + words(t.skip(word_len(t) as int))
    }
}

/// Trimming leaves a suffix that does not start with whitespace.
pub proof fn lemma_trim_start(s: Seq<char>)
    ensures
        trim_start(s).len() <= s.len(),
        trim_start(s) == s.skip(s.len() - trim_start(s).len()),
        trim_start(s).len() > 0 ==> !is_white(trim_start(s)[0]),
    decreases s.len(),
{
    if s.len() > 0 && is_white(s[0]) {
        lemma_trim_start(s.drop_first());
        let t = trim_start(s);
        assert(s.skip(s.len() - t.len()) =~= s.drop_first().skip(s.len() - 1 - t.len()));
    } else {
        assert(s.skip(0) =~= s);
    }
}

/// A word ends at the first whitespace.
pub proof fn lemma_word_len(s: Seq<char>)
    ensures
        word_len(s) <= s.len(),
        forall|i: int| 0 <= i < word_len(s) ==> !is_white(#[trigger] s[i]),
        word_len(s) < s.len() ==> is_white(s[word_len(s) as int]),
        s.len() > 0 && !is_white(s[0]) ==> word_len(s) > 0,
    decreases s.len(),
{
    if s.len() > 0 && !is_white(s[0]) {
        let r = s.drop_first();
        lemma_word_len(r);
        assert forall|i: int| 0 <= i < word_len(s) implies !is_white(#[trigger] s[i]) by {
            if i > 0 {
                assert(!is_white(r[i - 1]));
            }
        }
        if word_len(s) < s.len() {
            assert(s[word_len(s) as int] == r[word_len(r) as int]);
        }
    }
}

/// The length of a word is determined by where it ends.
pub proof fn lemma_word_len_is(s: Seq<char>, n: nat)
    requires
        n <= s.len(),
        forall|i: int| 0 <= i < n ==> !is_white(#[trigger] s[i]),
        n < s.len() ==> is_white(s[n as int]),
    ensures
        word_len(s) == n,
{
    lemma_word_len(s);
    let m = word_len(s);
    if m < n {
        assert(!is_white(s[m as int]));
    }
    if n < m {
        assert(!is_white(s[n as int]));
    }
}

/// A word in front of a space is the first word.
pub proof fn lemma_words_cons(word: Seq<char>, rest: Seq<char>)
    requires
        word.len() > 0,
        forall|i: int| 0 <= i < word.len() ==> !is_white(#[trigger] word[i]),
    ensures
        words(word + seq![' '] + rest) == seq![word] + words(rest),
        words(word) == seq![word],
        words(seq![' '] + rest) == words(rest),
{
    let s = word + seq![' '] + rest;
    let n = word.len();
    assert(s[0] == word[0]);
    assert forall|i: int| 0 <= i < n implies !is_white(#[trigger] s[i]) by {
        assert(s[i] == word[i]);
    }
    lemma_word_len_is(s, n);
    assert(s.take(n as int) =~= word);
    let after = seq![' '] + rest;
    assert(s.skip(n as int) =~= after);
    assert(after.drop_first() =~= rest);
    assert(trim_start(after) == trim_start(rest));
    assert(words(after) == words(rest));
    lemma_word_len_is(word, n);
    assert(word.take(n as int) =~= word);
    assert(word.skip(n as int) =~= seq![]);
    assert(words(Seq::<char>::empty()) =~= seq![]) by {
        assert(trim_start(Seq::<char>::empty()).len() == 0);
    }
    assert(seq![word] + Seq::<Seq<char>>::empty() =~= seq![word]);
}

/// Position of the first character at or after `from` that is no whitespace.
fn skip_white(chars: &[char], from: usize) -> (i: usize)
    requires
        from <= chars@.len(),
    ensures
        from <= i <= chars@.len(),
        chars@.skip(i as int) == trim_start(chars@.skip(from as int)),
{
    let mut i: usize = from;
    while i < chars.len() && is_whitespace(chars[i])
        invariant
            from <= i <= chars@.len(),
            trim_start(chars@.skip(i as int)) == trim_start(chars@.skip(from as int)),
        decreases chars@.len() - i,
    {
        proof {
            assert(chars@.skip(i as int).drop_first() =~= chars@.skip(i + 1));
        }
        i = i + 1;
    }
    i
}

/// The bounds of `chars` without whitespace at its ends.
pub fn trim_bounds(chars: &[char]) -> (r: (usize, usize))
    ensures
        r.0 <= r.1 <= chars@.len(),
        chars@.subrange(r.0 as int, r.1 as int) == trim(chars@),
{
    proof {
        assert(chars@.skip(0) =~= chars@);
    }
    let start: usize = skip_white(chars, 0);
    let mut end: usize = chars.len();
    proof {
        assert(chars@.subrange(start as int, end as int) =~= chars@.skip(start as int));
    }
    while start < end && is_whitespace(chars[end - 1])
        invariant
            start <= end <= chars@.len(),
            trim_end(chars@.subrange(start as int, end as int)) == trim(chars@),
        decreases end,
    {
        proof {
            let t = chars@.subrange(start as int, end as int);
            assert(t.last() == chars@[end - 1]);
            assert(t.drop_last() =~= chars@.subrange(start as int, end - 1));
        }
        end = end - 1;
    }
    proof {
        let t = chars@.subrange(start as int, end as int);
        if start < end {
            assert(t.last() == chars@[end - 1]);
        }
    }
    (start, end)
}

/// The bounds of the next word at or after `from`, if there is one.
pub fn next_word(chars: &[char], from: usize) -> (r: Option<(usize, usize)>)
    requires
        from <= chars@.len(),
    ensures
        match r {
            Some((start, end)) => from <= start < end <= chars@.len() && words(
                chars@.skip(from as int),
            ) == seq![chars@.subrange(start as int, end as int)] + words(chars@.skip(end as int)),
            None => words(chars@.skip(from as int)) == Seq::<Seq<char>>::empty(),
        },
{
    let start: usize = skip_white(chars, from);
    if start == chars.len() {
        return None;
    }
    let mut end: usize = start;
    let ghost t = chars@.skip(start as int);
    proof {
        lemma_trim_start(chars@.skip(from as int));
    }
    while end < chars.len() && !is_whitespace(chars[end])
        invariant
            start <= end <= chars@.len(),
            t == chars@.skip(start as int),
            forall|i: int| 0 <= i < end - start ==> !is_white(#[trigger] t[i]),
        decreases chars@.len() - end,
    {
        end = end + 1;
    }
    proof {
        lemma_word_len_is(t, (end - start) as nat);
        assert(t.take(end - start) =~= chars@.subrange(start as int, end as int));
        assert(t.skip(end - start) =~= chars@.skip(end as int));
    }
    Some((start, end))
}

/// The characters of `s`.
pub fn chars_of(s: &str) -> (out: Vec<char>)
    ensures
        out@ == s@,
{
    let mut out: Vec<char> = Vec::new();
    for c in it: s.chars()
        invariant
            it.seq() == s@,
            out@ == s@.take(it.index()),
    {
        proof {
            assert(s@.take(it.index() + 1) == s@.take(it.index()).push(c));
        }
        out.push(c);
    }
    proof {
        assert(s@.take(s@.len() as int) == s@);
    }
    out
}

/// The text made of `chars`.
pub fn text_of(chars: &[char]) -> (out: String)
    ensures
        out@ == chars@,
{
    let mut out = String::new();
    let mut i: usize = 0;
    while i < chars.len()
        invariant
            i <= chars@.len(),
            out@ == chars@.take(i as int),
        decreases chars@.len() - i,
    {
        proof {
            assert(chars@.take(i + 1) == chars@.take(i as int).push(chars@[i as int]));
        }
        out.push(chars[i]);
        i = i + 1;
    }
    proof {
        assert(chars@.take(i as int) == chars@);
    }
    out
}

/// Whether `a` and `b` are the same text.
pub fn same_text(a: &str, b: &str) -> (r: bool)
    ensures
        r == (a@ == b@),
{
    a.to_owned() == b.to_owned()
}

/// The bytes of a text made of ASCII characters.
pub open spec fn ascii(text: Seq<char>) -> Seq<u8> {
    text.map_values(|c: char| c as u8)
}

/// The bytes of an ASCII text.
pub fn bytes_of(text: &str) -> (out: Vec<u8>)
    ensures
        out@ == ascii(text@),
{
    let chars = chars_of(text);
    let mut out: Vec<u8> = Vec::new();
    let mut i: usize = 0;
    while i < chars.len()
        invariant
            i <= chars@.len(),
            out@ == ascii(chars@.take(i as int)),
        decreases chars@.len() - i,
    {
        out.push(chars[i] as u8);
        proof {
            assert(ascii(chars@.take(i + 1)) =~= ascii(chars@.take(i as int)).push(
                chars@[i as int] as u8,
            ));
        }
        i = i + 1;
    }
    proof {
        assert(chars@.take(i as int) =~= text@);
    }
    out
}

/// Whether a text comes before another: the first character in which they differ
/// decides, or else the shorter one comes first.
pub open spec fn text_before(a: Seq<char>, b: Seq<char>) -> bool
    decreases a.len(),
{
    if b.len() == 0 {
        false
    } else if a.len() == 0 {
        true
    } else if a[0] != b[0] {
        a[0] < b[0]
    } else {
        text_before(a.drop_first(), b.drop_first())
    }
}

/// Whether a text comes before another.
pub fn comes_before(a: &str, b: &str) -> (r: bool)
    ensures
        r == text_before(a@, b@),
{
    let x = chars_of(a);
    let y = chars_of(b);
    let mut i: usize = 0;
    proof {
        assert(a@.skip(0) =~= a@);
        assert(b@.skip(0) =~= b@);
    }
    while i < x.len() && i < y.len()
        invariant
            x@ == a@,
            y@ == b@,
            i <= x@.len(),
            i <= y@.len(),
            text_before(a@, b@) == text_before(a@.skip(i as int), b@.skip(i as int)),
        decreases x@.len() - i,
    {
        if x[i] != y[i] {
            return x[i] < y[i];
        }
        proof {
            assert(a@.skip(i as int).drop_first() =~= a@.skip(i + 1));
            assert(b@.skip(i as int).drop_first() =~= b@.skip(i + 1));
        }
        i = i + 1;
    }
    i < y.len()
}

/// Texts are ordered: a text does not come before itself, and of two different
/// texts one comes before the other.
pub proof fn lemma_text_order(a: Seq<char>, b: Seq<char>)
    ensures
        !text_before(a, a),
        text_before(a, b) ==> !text_before(b, a),
        a != b ==> text_before(a, b) || text_before(b, a),
    decreases a.len(),
{
    if a.len() > 0 {
        lemma_text_order(a.drop_first(), b.drop_first());
        if b.len() > 0 && a[0] == b[0] && a.drop_first() == b.drop_first() {
            assert(a =~= seq![a[0]] + a.drop_first());
            assert(b =~= seq![b[0]] + b.drop_first());
        }
    } else if b.len() == 0 {
        assert(a =~= b);
    }
}

/// The order of texts is transitive.
pub proof fn lemma_text_order_goes_on(a: Seq<char>, b: Seq<char>, c: Seq<char>)
    requires
        text_before(a, b),
        text_before(b, c),
    ensures
        text_before(a, c),
    decreases a.len(),
{
    if a.len() > 0 && a[0] == b[0] && b[0] == c[0] {
        lemma_text_order_goes_on(a.drop_first(), b.drop_first(), c.drop_first());
    }
}

/// Whether two byte runs agree.
pub fn same_bytes(a: &[u8], b: &[u8]) -> (r: bool)
    ensures
        r == (a@ == b@),
{
    a.len() == b.len() && starts_with(a, b)
}

/// Whether `a` starts with `b`.
pub fn starts_with(a: &[u8], b: &[u8]) -> (r: bool)
    ensures
        r == b@.is_prefix_of(a@),
        a@.len() == b@.len() ==> r == (a@ == b@),
{
    if b.len() > a.len() {
        return false;
    }
    let mut i: usize = 0;
    while i < b.len()
        invariant
            i <= b@.len() <= a@.len(),
            forall|j: int| 0 <= j < i ==> a@[j] == b@[j],
        decreases b@.len() - i,
    {
        if a[i] != b[i] {
            proof {
                assert(a@.subrange(0, b@.len() as int)[i as int] == a@[i as int]);
            }
            return false;
        }
        i = i + 1;
    }
    proof {
        assert(a@.subrange(0, b@.len() as int) =~= b@);
        if a@.len() == b@.len() {
            assert(a@ =~= b@);
        }
    }
    true
}

/// Whether `part` stands somewhere in `text`.
pub open spec fn has_text(text: Seq<char>, part: Seq<char>) -> bool {
    exists|i: int|
        0 <= i && i + part.len() <= text.len() && #[trigger] text.subrange(i, i + part.len())
            == part
}

/// Whether `part` stands somewhere in `text`.
pub fn contains_text(text: &[char], part: &[char]) -> (r: bool)
    ensures
        r == has_text(text@, part@),
{
    if part.len() > text.len() {
        return false;
    }
    let last: usize = text.len() - part.len();
    let mut i: usize = 0;
    loop
        invariant
            i <= last,
            last + part@.len() == text.len(),
            forall|j: int|
                0 <= j < i ==> #[trigger] text@.subrange(j, j + part@.len()) != part@,
        decreases last - i,
    {
        let mut k: usize = 0;
        while k < part.len() && text[i + k] == part[k]
            invariant
                k <= part@.len(),
                i + part@.len() <= text.len(),
                forall|j: int| 0 <= j < k ==> text@[i + j] == part@[j],
            decreases part@.len() - k,
        {
            k = k + 1;
        }
        if k == part.len() {
            proof {
                assert(text@.subrange(i as int, i + part@.len()) =~= part@);
            }
            return true;
        }
        proof {
            assert(text@.subrange(i as int, i + part@.len())[k as int] == text@[i + k]);
        }
        if i == last {
            return false;
        }
        i = i + 1;
    }
}

/// Whether `text` starts with `part`.
pub fn starts_with_text(text: &[char], part: &[char]) -> (r: bool)
    ensures
        r == part@.is_prefix_of(text@),
{
    if part.len() > text.len() {
        return false;
    }
    let mut i: usize = 0;
    while i < part.len()
        invariant
            i <= part@.len() <= text@.len(),
            forall|j: int| 0 <= j < i ==> text@[j] == part@[j],
        decreases part@.len() - i,
    {
        if text[i] != part[i] {
            proof {
                assert(text@.subrange(0, part@.len() as int)[i as int] == text@[i as int]);
            }
            return false;
        }
        i = i + 1;
    }
    proof {
        assert(text@.subrange(0, part@.len() as int) =~= part@);
    }
    true
}

/// The characters of valid UTF-8 bytes.
pub fn decode_text(bytes: &[u8]) -> (r: Option<Vec<char>>)
    ensures
        match r {
            Some(chars) => valid_utf8(bytes@) && chars@ == decode_utf8(bytes@),
            None => !valid_utf8(bytes@),
        },
{
    match core::str::from_utf8(bytes) {
        Ok(s) => {
            proof {
                encode_utf8_decode_utf8(s@);
            }
            Some(chars_of(s))
        },
        Err(_) => None,
    }
}

/// An ASCII text is encoded one byte per character.
pub proof fn lemma_ascii_bytes(text: Seq<char>)
    requires
        is_ascii_chars(text),
    ensures
        encode_utf8(text) == ascii(text),
        valid_utf8(ascii(text)),
        decode_utf8(ascii(text)) == text,
{
    is_ascii_chars_encode_utf8(text);
    assert(encode_utf8(text) =~= ascii(text));
    encode_utf8_valid_utf8(text);
    encode_utf8_decode_utf8(text);
}

/// Value of a hexadecimal digit of either case.
pub open spec fn hex_value(c: char) -> Option<u8> {
    if '0' <= c <= '9' {
        Some((c as u8 - '0' as u8) as u8)
    } else if 'a' <= c <= 'f' {
        Some((c as u8 - 'a' as u8 + 10) as u8)
    } else if 'A' <= c <= 'F' {
        Some((c as u8 - 'A' as u8 + 10) as u8)
    } else {
        None
    }
}

/// Lower-case digit of a nibble.
pub open spec fn hex_char(nibble: int) -> char {
    if nibble < 10 {
        (('0' as u8) + nibble) as char
    } else {
        (('a' as u8) + nibble - 10) as char
    }
}

/// Two lower-case digits of a byte, high nibble first.
pub open spec fn hex_byte(value: u8) -> Seq<char> {
    seq![hex_char(value as int / 16), hex_char(value as int % 16)]
}

/// Lower-case digits of `bytes`, two for each byte.
pub open spec fn hex_text(bytes: Seq<u8>) -> Seq<char>
    decreases bytes.len(),
{
    if bytes.len() == 0 {
        seq![]
    } else {
        hex_text(bytes.drop_last()) + hex_byte(bytes.last())
    }
}

/// Value of a big-endian run of hexadecimal digits, when all are digits.
pub open spec fn hex_number(digits: Seq<char>) -> Option<nat>
    decreases digits.len(),
{
    if digits.len() == 0 {
        Some(0)
    } else {
        match (hex_number(digits.drop_last()), hex_value(digits.last())) {
            (Some(high), Some(low)) => Some(high * 16 + low as nat),
            _ => None,
        }
    }
}

/// Value of a hexadecimal digit.
pub fn hex_digit(c: char) -> (r: Option<u8>)
    ensures
        r == hex_value(c),
        r matches Some(v) ==> v < 16,
{
    if '0' <= c && c <= '9' {
        Some(c as u8 - '0' as u8)
    } else if 'a' <= c && c <= 'f' {
        Some(c as u8 - 'a' as u8 + 10)
    } else if 'A' <= c && c <= 'F' {
        Some(c as u8 - 'A' as u8 + 10)
    } else {
        None
    }
}

/// Lower-case digit of `nibble`.
pub fn digit_of(nibble: u8) -> (c: char)
    requires
        nibble < 16,
    ensures
        c == hex_char(nibble as int),
{
    if nibble < 10 {
        ('0' as u8 + nibble) as char
    } else {
        ('a' as u8 + (nibble - 10)) as char
    }
}

/// Appends the two lower-case digits of `value`.
pub fn push_hex_byte(out: &mut String, value: u8)
    ensures
        final(out)@ == old(out)@ + hex_byte(value),
{
    let high: u8 = value / 16;
    let low: u8 = value % 16;
    out.push(digit_of(high));
    out.push(digit_of(low));
    proof {
        assert(out@ =~= old(out)@ + hex_byte(value));
    }
}

/// A digit reads back as its nibble.
pub proof fn lemma_hex_char(nibble: int)
    requires
        0 <= nibble < 16,
    ensures
        hex_value(hex_char(nibble)) == Some(nibble as u8),
        '\0' <= hex_char(nibble) <= '\u{7f}',
        !is_white(hex_char(nibble)),
{
}

/// One more digit.
pub proof fn lemma_hex_push(digits: Seq<char>, nibble: int)
    requires
        hex_number(digits) is Some,
        0 <= nibble < 16,
    ensures
        hex_number(digits.push(hex_char(nibble))) == Some(
            (hex_number(digits)->0 * 16 + nibble) as nat,
        ),
{
    lemma_hex_char(nibble);
    assert(digits.push(hex_char(nibble)).drop_last() =~= digits);
}

/// The digits of a byte read back as that byte.
pub proof fn lemma_hex_byte(value: u8)
    ensures
        hex_number(hex_byte(value)) == Some(value as nat),
{
    let none = Seq::<char>::empty();
    let high = none.push(hex_char(value as int / 16));
    lemma_hex_push(none, value as int / 16);
    lemma_hex_push(high, value as int % 16);
    assert(hex_byte(value) =~= high.push(hex_char(value as int % 16)));
}

/// Two digits stand for each byte, in order.
pub proof fn lemma_hex_text(bytes: Seq<u8>)
    ensures
        hex_text(bytes).len() == 2 * bytes.len(),
        forall|i: int|
            #![trigger bytes[i]]
            0 <= i < bytes.len() ==> hex_text(bytes).subrange(2 * i, 2 * i + 2) == hex_byte(
                bytes[i],
            ),
    decreases bytes.len(),
{
    if bytes.len() > 0 {
        let init = bytes.drop_last();
        lemma_hex_text(init);
        assert forall|i: int|
            #![trigger bytes[i]]
            0 <= i < bytes.len() implies hex_text(bytes).subrange(2 * i, 2 * i + 2) == hex_byte(
            bytes[i],
        ) by {
            if i < init.len() {
                assert(init[i] == bytes[i]);
                assert(hex_text(bytes).subrange(2 * i, 2 * i + 2) =~= hex_text(init).subrange(
                    2 * i,
                    2 * i + 2,
                ));
            } else {
                assert(hex_text(bytes).subrange(2 * i, 2 * i + 2) =~= hex_byte(bytes[i]));
            }
        }
    }
}

/// Upper-case hexadecimal digits made lower-case.
pub open spec fn lower_hex(s: Seq<char>) -> Seq<char> {
    s.map_values(|c: char| match hex_value(c) {
        Some(v) => hex_char(v as int),
        None => c,
    })
}

/// Powers of sixteen.
pub open spec fn pow16(n: nat) -> nat
    decreases n,
{
    if n == 0 {
        1
    } else {
        16 * pow16((n - 1) as nat)
    }
}

/// A run of digits reads as a number below the next power.
pub proof fn lemma_hex_number_bound(digits: Seq<char>)
    ensures
        hex_number(digits) matches Some(n) ==> n < pow16(digits.len()),
    decreases digits.len(),
{
    if digits.len() > 0 {
        lemma_hex_number_bound(digits.drop_last());
    }
}

/// A run of digits is a number only if each is a digit, and the other way round.
pub proof fn lemma_hex_number_digits(digits: Seq<char>)
    ensures
        hex_number(digits) is Some <==> forall|i: int|
            0 <= i < digits.len() ==> hex_value(#[trigger] digits[i]) is Some,
    decreases digits.len(),
{
    if digits.len() > 0 {
        let init = digits.drop_last();
        lemma_hex_number_digits(init);
        assert(forall|i: int| 0 <= i < init.len() ==> init[i] == digits[i]);
        if hex_number(digits) is Some {
            assert forall|i: int| 0 <= i < digits.len() implies hex_value(
                #[trigger] digits[i],
            ) is Some by {
                if i < init.len() {
                    assert(hex_value(init[i]) is Some);
                }
            }
        }
    }
}

/// Reads the hexadecimal digits `chars[from..to]`, at most eight of them.
pub fn read_hex(chars: &[char], from: usize, to: usize) -> (r: Option<u32>)
    requires
        from <= to <= chars@.len(),
        to - from <= 8,
    ensures
        match hex_number(chars@.subrange(from as int, to as int)) {
            Some(n) => r is Some && r->0 == n && n < pow16((to - from) as nat),
            None => r is None,
        },
{
    let ghost all = chars@.subrange(from as int, to as int);
    let mut value: u32 = 0;
    let mut i: usize = from;
    proof {
        assert(chars@.subrange(from as int, from as int) =~= seq![]);
        reveal_with_fuel(pow16, 9);
        lemma_hex_number_bound(all);
        lemma_hex_number_digits(all);
    }
    while i < to
        invariant
            from <= i <= to <= chars@.len(),
            to - from <= 8,
            all == chars@.subrange(from as int, to as int),
            hex_number(chars@.subrange(from as int, i as int)) == Some(value as nat),
            hex_number(all) is Some <==> forall|k: int|
                0 <= k < all.len() ==> hex_value(#[trigger] all[k]) is Some,
        decreases to - i,
    {
        let ghost before = chars@.subrange(from as int, i as int);
        let ghost now = chars@.subrange(from as int, i + 1);
        proof {
            assert(now.drop_last() =~= before);
            assert(all[i - from] == chars@[i as int]);
            lemma_hex_number_bound(before);
            lemma_hex_number_bound(now);
            lemma_pow16_small(before.len());
        }
        match hex_digit(chars[i]) {
            Some(d) => {
                value = value * 16 + d as u32;
            },
            None => {
                return None;
            },
        }
        i = i + 1;
    }
    Some(value)
}

proof fn lemma_pow16_small(n: nat)
    requires
        n <= 7,
    ensures
        pow16(n) <= 0x1000_0000,
{
    reveal_with_fuel(pow16, 8);
}

/// Decimal digits of a number.
pub open spec fn decimal(n: nat) -> Seq<char>
    decreases n,
{
    if n < 10 {
        seq![(('0' as u8) + n) as char]
    } else {
        decimal(n / 10).push((('0' as u8) + n % 10) as char)
    }
}

/// Appends the decimal digits of `n`.
pub fn push_decimal(out: &mut String, n: u64)
    ensures
        final(out)@ == old(out)@ + decimal(n as nat),
    decreases n,
{
    if n < 10 {
        out.push(('0' as u8 + n as u8) as char);
    } else {
        push_decimal(out, n / 10);
        out.push(('0' as u8 + (n % 10) as u8) as char);
    }
    proof {
        assert(out@ =~= old(out)@ + decimal(n as nat));
    }
}

} // verus!
