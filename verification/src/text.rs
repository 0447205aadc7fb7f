//! Bytes as text: classes of bytes, runs, decimal numbers, and the text that
//! the body of a write stands for.
use vstd::prelude::*;
use vstd::string::*;
use vstd::utf8::*;

verus! {

pub open spec fn is_digit(b: u8) -> bool {
    0x30 <= b <= 0x39
}

pub open spec fn is_alpha(b: u8) -> bool {
    (0x41 <= b <= 0x5A) || (0x61 <= b <= 0x7A)
}

/// A space or a tab.
pub open spec fn is_blank(b: u8) -> bool {
    b == 0x20 || b == 0x09
}

/// Where the run of digits that starts at `i` ends.
pub open spec fn digits_end(s: Seq<u8>, i: int) -> int
    decreases s.len() - i,
{
    if 0 <= i < s.len() && is_digit(s[i]) {
        digits_end(s, i + 1)
    } else {
        i
    }
}

/// Where the run of blanks that starts at `i` ends.
pub open spec fn blanks_end(s: Seq<u8>, i: int) -> int
    decreases s.len() - i,
{
    if 0 <= i < s.len() && is_blank(s[i]) {
        blanks_end(s, i + 1)
    } else {
        i
    }
}

/// Every byte of `s` is a digit, and there is at least one.
pub open spec fn is_decimal(s: Seq<u8>) -> bool {
    s.len() > 0 && forall|i: int| 0 <= i < s.len() ==> is_digit(#[trigger] s[i])
}

/// A decimal number without needless zeros in front.
pub open spec fn is_canonical_decimal(s: Seq<u8>) -> bool {
    is_decimal(s) && (s.len() == 1 || s[0] != 0x30)
}

/// The number that the digits of `s` write in base ten.
pub open spec fn decimal_value(s: Seq<u8>) -> nat
    decreases s.len(),
{
    if s.len() == 0 {
        0
    } else {
        decimal_value(s.drop_last()) * 10 + (s.last() - 0x30) as nat
    }
}

/// `word` stands in `s` at `i`.
pub open spec fn has_word_at(s: Seq<u8>, i: int, word: Seq<u8>) -> bool {
    0 <= i && i + word.len() <= s.len() && s.subrange(i, i + word.len()) == word
}

pub proof fn lemma_digits_end(s: Seq<u8>, i: int)
    requires
        0 <= i <= s.len(),
    ensures
        i <= digits_end(s, i) <= s.len(),
        forall|j: int| i <= j < digits_end(s, i) ==> is_digit(#[trigger] s[j]),
        digits_end(s, i) < s.len() ==> !is_digit(s[digits_end(s, i)]),
    decreases s.len() - i,
{
    if i < s.len() && is_digit(s[i]) {
        lemma_digits_end(s, i + 1);
    }
}

pub proof fn lemma_blanks_end(s: Seq<u8>, i: int)
    requires
        0 <= i <= s.len(),
    ensures
        i <= blanks_end(s, i) <= s.len(),
        forall|j: int| i <= j < blanks_end(s, i) ==> is_blank(#[trigger] s[j]),
        blanks_end(s, i) < s.len() ==> !is_blank(s[blanks_end(s, i)]),
    decreases s.len() - i,
{
    if i < s.len() && is_blank(s[i]) {
        lemma_blanks_end(s, i + 1);
    }
}

/// A run of digits does not end before the digits do: from any place inside
/// it the same end is reached.
pub proof fn lemma_digits_end_from(s: Seq<u8>, i: int, j: int)
    requires
        0 <= i <= j <= s.len(),
        forall|k: int| i <= k < j ==> is_digit(#[trigger] s[k]),
    ensures
        digits_end(s, i) == digits_end(s, j),
    decreases j - i,
{
    if i < j {
        lemma_digits_end_from(s, i + 1, j);
    }
}

/// More digits never write a smaller number.
pub proof fn lemma_decimal_value_grows(s: Seq<u8>, n: int)
    requires
        0 <= n <= s.len(),
        forall|i: int| 0 <= i < s.len() ==> is_digit(#[trigger] s[i]),
    ensures
        decimal_value(s.take(n)) <= decimal_value(s),
    decreases s.len() - n,
{
    if n < s.len() {
        lemma_decimal_value_grows(s.drop_last(), n);
        assert(s.drop_last().take(n) == s.take(n));
    } else {
        assert(s.take(n) == s);
    }
}

/// Where the run of digits of `data` that starts at `start` ends.
pub fn scan_digits(data: &[u8], start: usize) -> (end: usize)
    requires
        start <= data@.len(),
    ensures
        end == digits_end(data@, start as int),
        start <= end <= data@.len(),
{
    let mut i: usize = start;
    proof {
        lemma_digits_end(data@, start as int);
    }
    while i < data.len() && data[i] >= 0x30 && data[i] <= 0x39
        invariant
            start <= i <= data@.len(),
            digits_end(data@, i as int) == digits_end(data@, start as int),
        decreases data@.len() - i,
    {
        i += 1;
    }
    i
}

/// Where the run of blanks of `data` that starts at `start` ends.
pub fn scan_blanks(data: &[u8], start: usize) -> (end: usize)
    requires
        start <= data@.len(),
    ensures
        end == blanks_end(data@, start as int),
        start <= end <= data@.len(),
{
    let mut i: usize = start;
    while i < data.len() && (data[i] == 0x20 || data[i] == 0x09)
        invariant
            start <= i <= data@.len(),
            blanks_end(data@, i as int) == blanks_end(data@, start as int),
        decreases data@.len() - i,
    {
        i += 1;
    }
    i
}

/// Whether `word` stands in `data` at `start`.
pub fn word_at(data: &[u8], start: usize, word: &[u8]) -> (found: bool)
    ensures
        found == has_word_at(data@, start as int, word@),
{
    if start > data.len() || word.len() > data.len() - start {
        return false;
    }
    let mut k: usize = 0;
    while k < word.len()
        invariant
            start + word@.len() <= data@.len() <= usize::MAX,
            k <= word@.len(),
            forall|j: int| 0 <= j < k ==> data@[start + j] == word@[j],
        decreases word@.len() - k,
    {
        if data[start + k] != word[k] {
            proof {
                let sub = data@.subrange(start as int, start + word@.len());
                assert(sub[k as int] == data@[start + k]);
            }
            return false;
        }
        k += 1;
    }
    assert(data@.subrange(start as int, start + word@.len()) =~= word@);
    true
}

/// Whether two byte strings are the same.
pub fn bytes_equal(a: &[u8], b: &[u8]) -> (same: bool)
    ensures
        same == (a@ == b@),
{
    if a.len() != b.len() {
        return false;
    }
    let found = word_at(a, 0, b);
    proof {
        assert(a@.subrange(0, a@.len() as int) =~= a@);
    }
    found
}

/// The number written by the digits of `data` from `start` to `end`, unless
/// it is too large for 64 bits.
pub fn decimal_between(data: &[u8], start: usize, end: usize) -> (value: Option<u64>)
    requires
        start <= end <= data@.len(),
        forall|i: int| start <= i < end ==> is_digit(#[trigger] data@[i]),
    ensures
        value is Some <==> decimal_value(data@.subrange(start as int, end as int)) <= u64::MAX,
        value is Some ==> value.unwrap() == decimal_value(
            data@.subrange(start as int, end as int),
        ),
{
    let ghost whole = data@.subrange(start as int, end as int);
    let mut acc: u64 = 0;
    let mut i: usize = start;
    assert(whole.take(0) =~= Seq::<u8>::empty());
    while i < end
        invariant
            start <= i <= end <= data@.len(),
            whole == data@.subrange(start as int, end as int),
            forall|j: int| start <= j < end ==> is_digit(#[trigger] data@[j]),
            acc == decimal_value(whole.take(i - start)),
        decreases end - i,
    {
        let digit: u64 = (data[i] - 0x30) as u64;
        proof {
            let next = whole.take(i - start + 1);
            assert(next.drop_last() =~= whole.take(i - start));
            assert(next.last() == data@[i as int]);
            assert(decimal_value(next) == acc * 10 + digit);
            assert forall|j: int| 0 <= j < whole.len() implies is_digit(#[trigger] whole[j]) by {
                assert(whole[j] == data@[start + j]);
            }
            lemma_decimal_value_grows(whole, i - start + 1);
        }
        if acc > (u64::MAX - digit) / 10 {
            return None;
        }
        acc = acc * 10 + digit;
        i += 1;
    }
    assert(whole.take(end - start) =~= whole);
    Some(acc)
}

/// The digits of `value` in base ten, without needless zeros.
pub open spec fn decimal_text(value: nat) -> Seq<u8>
    decreases value,
{
    if value < 10 {
        seq![(0x30 + value) as u8]
    } else {
        decimal_text(value / 10).push((0x30 + value % 10) as u8)
    }
}

/// The digits of a number are a canonical decimal that writes the number.
pub proof fn lemma_decimal_text(value: nat)
    ensures
        is_canonical_decimal(decimal_text(value)),
        decimal_value(decimal_text(value)) == value,
        value == 0 <==> decimal_text(value)[0] == 0x30,
    decreases value,
{
    let digits = decimal_text(value);
    if value < 10 {
        assert(digits.drop_last() =~= Seq::<u8>::empty());
        assert(decimal_value(digits.drop_last()) == 0);
    } else {
        lemma_decimal_text(value / 10);
        let high = decimal_text(value / 10);
        assert(digits.drop_last() =~= high);
        assert(digits[0] == high[0]);
        assert forall|i: int| 0 <= i < digits.len() implies is_digit(#[trigger] digits[i]) by {
            if i < high.len() {
                assert(digits[i] == high[i]);
            }
        }
    }
}

/// Writes `value` in base ten, without needless zeros.
pub fn render_decimal(value: u64) -> (digits: Vec<u8>)
    ensures
        digits@ == decimal_text(value as nat),
        is_canonical_decimal(digits@),
        decimal_value(digits@) == value,
        digits@.len() <= 20,
    decreases value,
{
    proof {
        lemma_decimal_text(value as nat);
    }
    if value < 10 {
        let mut out: Vec<u8> = Vec::new();
        out.push(0x30 + value as u8);
        assert(out@ =~= decimal_text(value as nat));
        out
    } else {
        let mut out = render_decimal(value / 10);
        let ghost high = out@;
        out.push(0x30 + (value % 10) as u8);
        proof {
            lemma_decimal_len(high, value / 10);
        }
        out
    }
}

/// A canonical decimal of `k` digits writes a number of at least 10^(k-1):
/// one of at most 64 bits has at most 20 digits.  Stated here for the step
/// from a number to ten times the number.
proof fn lemma_decimal_len(s: Seq<u8>, v: u64)
    requires
        is_canonical_decimal(s),
        decimal_value(s) == v,
        v <= u64::MAX / 10,
        s.len() <= 20,
    ensures
        s.len() <= 19,
{
    if s.len() == 20 {
        lemma_decimal_floor(s);
        reveal_with_fuel(pow10, 20);
        assert(pow10(19) == 10_000_000_000_000_000_000);
    }
}

/// Ten to the power `n`.
pub open spec fn pow10(n: nat) -> nat
    decreases n,
{
    if n == 0 {
        1
    } else {
        10 * pow10((n - 1) as nat)
    }
}

proof fn lemma_decimal_floor(s: Seq<u8>)
    requires
        is_decimal(s),
        s[0] != 0x30,
    ensures
        decimal_value(s) >= pow10((s.len() - 1) as nat),
    decreases s.len(),
{
    if s.len() == 1 {
        assert(s.drop_last() =~= Seq::<u8>::empty());
        assert(decimal_value(s.drop_last()) == 0);
    } else {
        let t = s.drop_last();
        assert(t[0] == s[0]);
        lemma_decimal_floor(t);
    }
}

/// The characters that count as white space when a text is trimmed: those
/// with the Unicode property White_Space.
pub open spec fn is_whitespace(c: char) -> bool {
    let v = c as u32;
    (0x09 <= v <= 0x0D) || v == 0x20 || v == 0x85 || v == 0xA0 || v == 0x1680 || (0x2000 <= v
        <= 0x200A) || v == 0x2028 || v == 0x2029 || v == 0x202F || v == 0x205F || v == 0x3000
}

/// `s` without the white space in front.
pub open spec fn trim_start(s: Seq<char>) -> Seq<char>
    decreases s.len(),
{
    if s.len() > 0 && is_whitespace(s[0]) {
        trim_start(s.drop_first())
    } else {
        s
    }
}

/// `s` without the white space at its end.
pub open spec fn trim_end(s: Seq<char>) -> Seq<char>
    decreases s.len(),
{
    if s.len() > 0 && is_whitespace(s.last()) {
        trim_end(s.drop_last())
    } else {
        s
    }
}

/// `s` without the white space at both ends.
pub open spec fn trimmed(s: Seq<char>) -> Seq<char> {
    trim_end(trim_start(s))
}

/// The text that the body of a write stands for: the body must be UTF-8,
/// and the white space around it does not count.
pub open spec fn written_text(body: Seq<u8>) -> Option<Seq<u8>> {
    if valid_utf8(body) {
        Some(encode_utf8(trimmed(decode_utf8(body))))
    } else {
        None
    }
}

/// `std::str::from_utf8`: the bytes as a string slice, which exists exactly
/// when the bytes are well-formed UTF-8 and then has these very bytes.
#[verifier::external_body]
fn utf8_text<'a>(data: &'a [u8]) -> (text: Option<&'a str>)
    ensures
        text is Some <==> valid_utf8(data@),
        text is Some ==> text.unwrap().spec_bytes() == data@,
{
    match std::str::from_utf8(data) {
        Ok(text) => Some(text),
        Err(_) => None,
    }
}

/// `str::trim`: the slice without its leading and trailing white space,
/// white space being the characters with the Unicode property White_Space.
#[verifier::external_body]
fn trim_text<'a>(text: &'a str) -> (inner: &'a str)
    ensures
        inner@ == trimmed(text@),
{
    text.trim()
}

/// The text of a written body, or nothing where the body is not UTF-8.
pub fn body_text<'a>(body: &'a [u8]) -> (text: Option<&'a [u8]>)
    ensures
        text is Some <==> valid_utf8(body@),
        match text {
            Some(bytes) => written_text(body@) == Some(bytes@),
            None => written_text(body@) is None,
        },
{
    match utf8_text(body) {
        None => None,
        Some(text) => {
            proof {
                encode_utf8_decode_utf8(text@);
            }
            let inner = trim_text(text);
            Some(inner.as_bytes())
        },
    }
}

/// Every byte of `b` is an ASCII character.
pub open spec fn is_ascii_bytes(b: Seq<u8>) -> bool {
    forall|i: int| 0 <= i < b.len() ==> #[trigger] b[i] < 128
}

/// The ASCII characters that are white space.
pub open spec fn is_space_byte(x: u8) -> bool {
    (0x09 <= x <= 0x0D) || x == 0x20
}

/// `b` without the white space in front.
pub open spec fn strip_start(b: Seq<u8>) -> Seq<u8>
    decreases b.len(),
{
    if b.len() > 0 && is_space_byte(b[0]) {
        strip_start(b.drop_first())
    } else {
        b
    }
}

/// `b` without the white space at its end.
pub open spec fn strip_end(b: Seq<u8>) -> Seq<u8>
    decreases b.len(),
{
    if b.len() > 0 && is_space_byte(b.last()) {
        strip_end(b.drop_last())
    } else {
        b
    }
}

/// `b` without the white space at both ends.
pub open spec fn stripped(b: Seq<u8>) -> Seq<u8> {
    strip_end(strip_start(b))
}

/// The characters that ASCII bytes stand for.
pub open spec fn ascii_chars(b: Seq<u8>) -> Seq<char> {
    Seq::new(b.len(), |i: int| b[i] as char)
}

proof fn lemma_ascii_chars(b: Seq<u8>)
    requires
        is_ascii_bytes(b),
    ensures
        valid_utf8(b),
        decode_utf8(b) == ascii_chars(b),
        encode_utf8(ascii_chars(b)) == b,
{
    let c = ascii_chars(b);
    assert(is_ascii_chars(c)) by {
        assert forall|i: int| 0 <= i < c.len() implies '\0' <= #[trigger] c[i] <= '\u{7f}' by {
            assert(b[i] < 128);
        }
    }
    is_ascii_chars_encode_utf8(c);
    assert(encode_utf8(c) =~= b) by {
        assert forall|i: int| 0 <= i < b.len() implies encode_utf8(c)[i] == b[i] by {
            assert(b[i] < 128);
            assert(c[i] as u8 == encode_utf8(c)[i]);
        }
    }
    encode_utf8_valid_utf8(c);
    encode_utf8_decode_utf8(c);
}

proof fn lemma_strip_start(b: Seq<u8>)
    requires
        is_ascii_bytes(b),
    ensures
        is_ascii_bytes(strip_start(b)),
        trim_start(ascii_chars(b)) == ascii_chars(strip_start(b)),
    decreases b.len(),
{
    if b.len() > 0 {
        assert(b[0] < 128);
        assert(ascii_chars(b)[0] == b[0] as char);
        assert(is_whitespace(b[0] as char) == is_space_byte(b[0]));
        if is_space_byte(b[0]) {
            let rest = b.drop_first();
            assert forall|i: int| 0 <= i < rest.len() implies #[trigger] rest[i] < 128 by {
                assert(rest[i] == b[i + 1]);
            }
            assert(ascii_chars(b).drop_first() =~= ascii_chars(rest));
            lemma_strip_start(rest);
        }
    }
}

proof fn lemma_strip_end(b: Seq<u8>)
    requires
        is_ascii_bytes(b),
    ensures
        is_ascii_bytes(strip_end(b)),
        trim_end(ascii_chars(b)) == ascii_chars(strip_end(b)),
    decreases b.len(),
{
    if b.len() > 0 {
        assert(b.last() < 128);
        assert(ascii_chars(b).last() == b.last() as char);
        assert(is_whitespace(b.last() as char) == is_space_byte(b.last()));
        if is_space_byte(b.last()) {
            let rest = b.drop_last();
            assert forall|i: int| 0 <= i < rest.len() implies #[trigger] rest[i] < 128 by {
                assert(rest[i] == b[i]);
            }
            assert(ascii_chars(b).drop_last() =~= ascii_chars(rest));
            lemma_strip_end(rest);
        }
    }
}

/// Of a body of ASCII characters the text is the body without the ASCII
/// white space at its ends.
pub proof fn lemma_written_ascii(body: Seq<u8>)
    requires
        is_ascii_bytes(body),
    ensures
        written_text(body) == Some(stripped(body)),
{
    lemma_ascii_chars(body);
    lemma_strip_start(body);
    lemma_strip_end(strip_start(body));
    lemma_ascii_chars(stripped(body));
}

} // verus!
