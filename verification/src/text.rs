//! Text as sequences of characters: the few string operations that the wire
//! grammars, the key-binding syntax and the messages are made of.

use vstd::prelude::*;
use vstd::utf8::{encode_utf8, valid_utf8};

verus! {

/// Unicode's `White_Space` property.
pub open spec fn white_space(c: char) -> bool {
    ||| '\u{9}' <= c <= '\u{d}'
    ||| c == '\u{20}'
    ||| c == '\u{85}'
    ||| c == '\u{a0}'
    ||| c == '\u{1680}'
    ||| '\u{2000}' <= c <= '\u{200a}'
    ||| c == '\u{2028}'
    ||| c == '\u{2029}'
    ||| c == '\u{202f}'
    ||| c == '\u{205f}'
    ||| c == '\u{3000}'
}

/// `s` without its leading white space.
pub open spec fn trimmed_start(s: Seq<char>) -> Seq<char>
    decreases s.len(),
{
    if s.len() > 0 && white_space(s[0]) {
        trimmed_start(s.drop_first())
    } else {
        s
    }
}

/// `s` without its trailing white space.
pub open spec fn trimmed_end(s: Seq<char>) -> Seq<char>
    decreases s.len(),
{
    if s.len() > 0 && white_space(s.last()) {
        trimmed_end(s.drop_last())
    } else {
        s
    }
}

/// `s` without white space at either end.
pub open spec fn trimmed(s: Seq<char>) -> Seq<char> {
    trimmed_end(trimmed_start(s))
}

/// The ASCII lower-case form of one character.
pub open spec fn lower(c: char) -> char {
    if 'A' <= c <= 'Z' {
        ((c as u32 + 32) as u32) as char
    } else {
        c
    }
}

/// The ASCII lower-case form of a text.
pub open spec fn lowered(s: Seq<char>) -> Seq<char> {
    s.map_values(|c: char| lower(c))
}

/// The index of the first `mark` in `s` at or after `from`, or `s.len()`.
pub open spec fn first_index(s: Seq<char>, mark: char, from: int) -> int
    decreases s.len() - from,
{
    if from >= s.len() {
        s.len() as int
    } else if s[from] == mark {
        from
    } else {
        first_index(s, mark, from + 1)
    }
}

/// The pieces of `s` between its marks, from position `from` on.
pub open spec fn pieces(s: Seq<char>, mark: char, from: int) -> Seq<Seq<char>>
    decreases s.len() - from,
{
    let end = first_index(s, mark, from);
    if from < 0 || end < from || end >= s.len() {
        seq![s.subrange(from, s.len() as int)]
    } else {
        seq![s.subrange(from, end)] + pieces(s, mark, end + 1)
    }
}

/// The value of a run of decimal digits.
pub open spec fn digits_value(s: Seq<char>) -> nat
    decreases s.len(),
{
    if s.len() == 0 {
        0
    } else {
        digits_value(s.drop_last()) * 10 + (s.last() as nat - '0' as nat) as nat
    }
}

/// Whether every character of `s` is a decimal digit.
pub open spec fn all_digits(s: Seq<char>) -> bool {
    forall|i: int| 0 <= i < s.len() ==> '0' <= #[trigger] s[i] <= '9'
}

/// An unsigned number no larger than `max`, written in decimal with an
/// optional leading plus.
pub open spec fn unsigned_value(s: Seq<char>, max: nat) -> Option<nat> {
    let digits = if s.len() > 1 && s[0] == '+' {
        s.drop_first()
    } else {
        s
    };
    if digits.len() > 0 && all_digits(digits) && digits_value(digits) <= max {
        Some(digits_value(digits))
    } else {
        None
    }
}

/// The decimal digits of `n`, without leading zeros.
pub open spec fn decimal(n: nat) -> Seq<char>
    decreases n,
{
    if n < 10 {
        seq![('0' as u32 + n) as char]
    } else {
        decimal(n / 10).push(('0' as u32 + n % 10) as char)
    }
}

/// Whether a text comes strictly before another: the first difference decides,
/// and a text comes before its extensions.
pub open spec fn text_before(a: Seq<char>, b: Seq<char>) -> bool
    decreases a.len(),
{
    if b.len() == 0 {
        false
    } else if a.len() == 0 {
        true
    } else if a[0] != b[0] {
        a[0] < b[0]
    } else {
        text_before(a.drop_first(), b.drop_first())
    }
}

/// Of two different texts one comes before the other.
pub proof fn law_text_order_is_total(a: Seq<char>, b: Seq<char>)
    ensures
        a != b ==> text_before(a, b) || text_before(b, a),
        !(text_before(a, b) && text_before(b, a)),
        !text_before(a, a),
    decreases a.len(),
{
    if a.len() > 0 && b.len() > 0 && a[0] == b[0] {
        law_text_order_is_total(a.drop_first(), b.drop_first());
        if a.drop_first() == b.drop_first() {
            assert(a =~= seq![a[0]] + a.drop_first());
            assert(b =~= seq![b[0]] + b.drop_first());
        }
    } else if a.len() == 0 && b.len() == 0 {
        assert(a =~= b);
    }
    if a.len() > 0 {
        law_text_order_is_total(a.drop_first(), a.drop_first());
    }
}

/// The order of texts is transitive.
pub proof fn law_text_order_is_transitive(a: Seq<char>, b: Seq<char>, c: Seq<char>)
    requires
        text_before(a, b),
        text_before(b, c),
    ensures
        text_before(a, c),
    decreases a.len(),
{
    if a.len() > 0 && b.len() > 0 && c.len() > 0 && a[0] == b[0] && b[0] == c[0] {
        law_text_order_is_transitive(a.drop_first(), b.drop_first(), c.drop_first());
    }
}

/// One hexadecimal digit.
pub open spec fn hex_digit(n: nat) -> char {
    if n < 10 {
        ('0' as u32 + n) as char
    } else {
        ('a' as u32 + (n - 10)) as char
    }
}

/// The low `width` hexadecimal digits of `n`.
pub open spec fn hexadecimal(n: nat, width: nat) -> Seq<char>
    decreases width,
{
    if width == 0 {
        Seq::empty()
    } else {
        hexadecimal(n / 16, (width - 1) as nat).push(hex_digit(n % 16))
    }
}

/// A string's characters, in order.
pub fn chars_of(text: &str) -> (chars: Vec<char>)
    ensures
        chars@ == text@,
{
    let mut chars: Vec<char> = Vec::new();
    for c in it: text.chars()
        invariant
            chars@ == it.seq().take(it.index()),
            it.seq() == text@,
    {
        chars.push(c);
    }
    chars
}

/// Collects characters with `String::from_iter`, which keeps them in order.
#[verifier::external_body]
pub(crate) fn string_from(chars: &[char]) -> (text: String)
    ensures
        text@ == chars@,
{
    String::from_iter(chars)
}

/// Reads bytes with `String::from_utf8`: the text whose encoding they are; none
/// where they are no encoding.
#[verifier::external_body]
pub(crate) fn utf8_text(bytes: Vec<u8>) -> (text: Option<String>)
    ensures
        match text {
            Some(text) => encode_utf8(text@) == bytes@,
            None => !valid_utf8(bytes@),
        },
{
    String::from_utf8(bytes).ok()
}

/// Reading back the decimal digits of a number gives the number.
pub proof fn lemma_decimal_value(n: nat)
    ensures
        digits_value(decimal(n)) == n,
        all_digits(decimal(n)),
        decimal(n).len() > 0,
    decreases n,
{
    if n < 10 {
        let digits = decimal(n);
        assert(digits.drop_last() =~= Seq::empty());
        assert(digits_value(digits.drop_last()) == 0);
    } else {
        lemma_decimal_value(n / 10);
        let digits = decimal(n);
        assert(digits.drop_last() =~= decimal(n / 10));
    }
}

/// The decimal digits of a number.
pub fn decimal_chars(n: u64) -> (digits: Vec<char>)
    ensures
        digits@ == decimal(n as nat),
    decreases n,
{
    if n < 10 {
        let mut digits: Vec<char> = Vec::new();
        let byte: u8 = 48 + n as u8;
        digits.push(byte as char);
        digits
    } else {
        let mut digits = decimal_chars(n / 10);
        let byte: u8 = 48 + (n % 10) as u8;
        digits.push(byte as char);
        digits
    }
}

/// A number written in decimal.
pub fn decimal_text(n: u64) -> (text: String)
    ensures
        text@ == decimal(n as nat),
{
    string_from(&decimal_chars(n))
}

fn hex_chars(n: u64, width: u8) -> (digits: Vec<char>)
    ensures
        digits@ == hexadecimal(n as nat, width as nat),
    decreases width,
{
    if width == 0 {
        Vec::new()
    } else {
        let mut digits = hex_chars(n / 16, width - 1);
        let low: u8 = (n % 16) as u8;
        let byte: u8 = if low < 10 {
            48 + low
        } else {
            87 + low
        };
        digits.push(byte as char);
        digits
    }
}

/// A number written in sixteen hexadecimal digits.
pub fn hex_text(n: u64) -> (text: String)
    ensures
        text@ == hexadecimal(n as nat, 16),
{
    string_from(&hex_chars(n, 16))
}

/// A word written as a prefix and eight hexadecimal digits.
pub fn hex_word(n: u32) -> (text: String)
    ensures
        text@ == "0x"@ + hexadecimal(n as nat, 8),
{
    let mut text = "0x".to_owned();
    text.append(&string_from(&hex_chars(n as u64, 8)));
    text
}

/// Whether a string comes strictly before another.
pub fn is_before(a: &str, b: &str) -> (before: bool)
    ensures
        before == text_before(a@, b@),
{
    let left = chars_of(a);
    let right = chars_of(b);
    let mut i: usize = 0;
    proof {
        assert(left@.skip(0) =~= left@);
        assert(right@.skip(0) =~= right@);
    }
    while i < left.len() && i < right.len()
        invariant
            i <= left@.len(),
            i <= right@.len(),
            left@ == a@,
            right@ == b@,
            text_before(a@, b@) == text_before(left@.skip(i as int), right@.skip(i as int)),
        decreases left.len() - i,
    {
        if left[i] != right[i] {
            return left[i] < right[i];
        }
        proof {
            assert(left@.skip(i as int).drop_first() =~= left@.skip(i + 1));
            assert(right@.skip(i as int).drop_first() =~= right@.skip(i + 1));
        }
        i += 1;
    }
    i < right.len()
}

/// The number of bytes that a text takes in UTF-8.
pub open spec fn byte_len(text: Seq<char>) -> nat {
    vstd::utf8::encode_utf8(text).len()
}

/// The number of bytes of a string.
pub fn text_byte_len(text: &str) -> (len: usize)
    ensures
        len == byte_len(text@),
{
    text.as_bytes().len()
}

/// The number of characters of a string.
pub fn char_count(text: &str) -> (count: usize)
    ensures
        count == text@.len(),
{
    chars_of(text).len()
}

/// Whether two strings have the same characters.
pub fn same_text(a: &str, b: &str) -> (same: bool)
    ensures
        same == (a@ == b@),
{
    reads(&chars_of(a), b)
}

fn is_white_space(c: char) -> (white: bool)
    ensures
        white == white_space(c),
{
    ('\u{9}' <= c && c <= '\u{d}') || c == '\u{20}' || c == '\u{85}' || c == '\u{a0}' || c
        == '\u{1680}' || ('\u{2000}' <= c && c <= '\u{200a}') || c == '\u{2028}' || c
        == '\u{2029}' || c == '\u{202f}' || c == '\u{205f}' || c == '\u{3000}'
}

proof fn lemma_trimmed_start(s: Seq<char>, from: int)
    requires
        0 <= from <= s.len(),
        forall|i: int| 0 <= i < from ==> white_space(#[trigger] s[i]),
    ensures
        trimmed_start(s) == trimmed_start(s.skip(from)),
    decreases from,
{
    if from == 0 {
        assert(s.skip(0) =~= s);
    } else {
        assert(white_space(s[0]));
        let rest = s.drop_first();
        assert forall|i: int| 0 <= i < from - 1 implies white_space(#[trigger] rest[i]) by {
            assert(rest[i] == s[i + 1]);
        }
        lemma_trimmed_start(rest, from - 1);
        assert(rest.skip(from - 1) =~= s.skip(from));
    }
}

proof fn lemma_trimmed_end(s: Seq<char>, upto: int)
    requires
        0 <= upto <= s.len(),
        forall|i: int| upto <= i < s.len() ==> white_space(#[trigger] s[i]),
    ensures
        trimmed_end(s) == trimmed_end(s.take(upto)),
    decreases s.len() - upto,
{
    if upto == s.len() {
        assert(s.take(upto) =~= s);
    } else {
        assert(white_space(s[s.len() - 1]));
        lemma_trimmed_end(s.drop_last(), upto);
        assert(s.drop_last().take(upto) =~= s.take(upto));
    }
}

/// Characters without white space at either end.
pub fn trimmed_chars(s: &Vec<char>) -> (out: Vec<char>)
    ensures
        out@ == trimmed(s@),
{
    let mut from: usize = 0;
    while from < s.len() && is_white_space(s[from])
        invariant
            from <= s@.len(),
            forall|i: int| 0 <= i < from ==> white_space(#[trigger] s@[i]),
        decreases s.len() - from,
    {
        from += 1;
    }
    let ghost tail = s@.skip(from as int);
    proof {
        lemma_trimmed_start(s@, from as int);
        assert(tail.len() > 0 ==> tail[0] == s@[from as int]);
    }
    let mut upto: usize = s.len();
    while upto > from && is_white_space(s[upto - 1])
        invariant
            from <= upto <= s@.len(),
            tail == s@.skip(from as int),
            forall|i: int| upto <= i < s@.len() ==> white_space(#[trigger] s@[i]),
        decreases upto,
    {
        upto -= 1;
    }
    proof {
        assert forall|i: int| upto - from <= i < tail.len() implies white_space(
            #[trigger] tail[i],
        ) by {
            assert(tail[i] == s@[i + from]);
        }
        lemma_trimmed_end(tail, upto - from);
        let kept = tail.take(upto - from);
        assert(kept.len() > 0 ==> kept.last() == s@[upto - 1]);
    }
    let mut out: Vec<char> = Vec::new();
    let mut i: usize = from;
    while i < upto
        invariant
            from <= i <= upto <= s@.len(),
            out@ == s@.subrange(from as int, i as int),
        decreases upto - i,
    {
        out.push(s[i]);
        assert(out@ =~= s@.subrange(from as int, i + 1));
        i += 1;
    }
    assert(out@ =~= tail.take(upto - from));
    out
}

fn lowered_char(c: char) -> (out: char)
    ensures
        out == lower(c),
{
    if 'A' <= c && c <= 'Z' {
        ((c as u8) + 32) as char
    } else {
        c
    }
}

/// The ASCII lower-case form of characters.
pub fn lowered_chars(s: &Vec<char>) -> (out: Vec<char>)
    ensures
        out@ == lowered(s@),
{
    let mut out: Vec<char> = Vec::new();
    let mut i: usize = 0;
    while i < s.len()
        invariant
            i <= s@.len(),
            out@.len() == i,
            forall|j: int| 0 <= j < i ==> #[trigger] out@[j] == lower(s@[j]),
        decreases s.len() - i,
    {
        out.push(lowered_char(s[i]));
        i += 1;
    }
    assert(out@ =~= lowered(s@));
    out
}

/// The pieces of a text, as characters.
pub open spec fn pieces_of(parts: Seq<Vec<char>>) -> Seq<Seq<char>> {
    parts.map_values(|part: Vec<char>| part@)
}

proof fn lemma_first_index(s: Seq<char>, mark: char, from: int, at: int)
    requires
        0 <= from <= at <= s.len(),
        forall|j: int| from <= j < at ==> #[trigger] s[j] != mark,
    ensures
        first_index(s, mark, from) == first_index(s, mark, at),
    decreases at - from,
{
    if from < at {
        assert(s[from] != mark);
        lemma_first_index(s, mark, from + 1, at);
    }
}

fn pieces_from(s: &Vec<char>, mark: char, from: usize) -> (parts: Vec<Vec<char>>)
    requires
        from <= s@.len(),
    ensures
        pieces_of(parts@) == pieces(s@, mark, from as int),
    decreases s@.len() - from,
{
    let mut part: Vec<char> = Vec::new();
    let mut end: usize = from;
    while end < s.len() && s[end] != mark
        invariant
            from <= end <= s@.len(),
            part@ == s@.subrange(from as int, end as int),
            forall|j: int| from <= j < end ==> #[trigger] s@[j] != mark,
        decreases s.len() - end,
    {
        part.push(s[end]);
        assert(part@ =~= s@.subrange(from as int, end + 1));
        end += 1;
    }
    proof {
        lemma_first_index(s@, mark, from as int, end as int);
    }
    let mut parts: Vec<Vec<char>> = Vec::new();
    let ghost whole = part@;
    parts.push(part);
    assert(pieces_of(parts@) =~= seq![whole]);
    if end < s.len() {
        let mut rest = pieces_from(s, mark, end + 1);
        let ghost tail = rest@;
        let ghost head = parts@;
        parts.append(&mut rest);
        assert(pieces_of(parts@) =~= pieces_of(head) + pieces_of(tail));
    }
    parts
}

/// The pieces of a text between its marks.
pub fn split_chars(s: &Vec<char>, mark: char) -> (parts: Vec<Vec<char>>)
    ensures
        pieces_of(parts@) == pieces(s@, mark, 0),
{
    pieces_from(s, mark, 0)
}

/// Whether characters read as a name.
pub fn reads(s: &Vec<char>, name: &str) -> (same: bool)
    ensures
        same == (s@ == name@),
{
    let wanted = chars_of(name);
    if s.len() != wanted.len() {
        return false;
    }
    let mut i: usize = 0;
    while i < s.len()
        invariant
            i <= s@.len(),
            s@.len() == wanted@.len(),
            wanted@ == name@,
            forall|j: int| 0 <= j < i ==> s@[j] == wanted@[j],
        decreases s.len() - i,
    {
        if s[i] != wanted[i] {
            return false;
        }
        i += 1;
    }
    assert(s@ =~= name@);
    true
}

/// A text before and behind its first mark.
pub open spec fn halves_at(s: Seq<char>, mark: char) -> Option<(Seq<char>, Seq<char>)> {
    let at = first_index(s, mark, 0);
    if at < s.len() {
        Some((s.take(at), s.skip(at + 1)))
    } else {
        None
    }
}

/// Splits a text at its first mark.
pub fn split_once(s: &Vec<char>, mark: char) -> (halves: Option<(Vec<char>, Vec<char>)>)
    ensures
        match halves {
            Some((before, after)) => halves_at(s@, mark) == Some((before@, after@)),
            None => halves_at(s@, mark) is None,
        },
{
    let mut before: Vec<char> = Vec::new();
    let mut at: usize = 0;
    while at < s.len() && s[at] != mark
        invariant
            at <= s@.len(),
            before@ == s@.take(at as int),
            forall|j: int| 0 <= j < at ==> #[trigger] s@[j] != mark,
        decreases s.len() - at,
    {
        before.push(s[at]);
        assert(before@ =~= s@.take(at + 1));
        at += 1;
    }
    proof {
        lemma_first_index(s@, mark, 0, at as int);
    }
    if at == s.len() {
        return None;
    }
    let mut after: Vec<char> = Vec::new();
    let mut i: usize = at + 1;
    while i < s.len()
        invariant
            at < i <= s@.len(),
            after@ == s@.subrange(at + 1, i as int),
        decreases s.len() - i,
    {
        after.push(s[i]);
        assert(after@ =~= s@.subrange(at + 1, i + 1));
        i += 1;
    }
    assert(after@ =~= s@.skip(at + 1));
    Some((before, after))
}

proof fn lemma_digits_grow(s: Seq<char>, upto: int)
    requires
        0 <= upto <= s.len(),
        all_digits(s),
    ensures
        digits_value(s.take(upto)) <= digits_value(s),
    decreases s.len() - upto,
{
    if upto == s.len() {
        assert(s.take(upto) =~= s);
    } else {
        let next = s.take(upto + 1);
        assert(next.drop_last() =~= s.take(upto));
        assert('0' <= s[upto] <= '9');
        lemma_digits_grow(s, upto + 1);
    }
}

fn digits_number(s: &Vec<char>, from: usize, max: u64) -> (value: Option<u64>)
    requires
        from <= s@.len(),
    ensures
        ({
            let digits = s@.skip(from as int);
            match value {
                Some(value) => digits.len() > 0 && all_digits(digits) && digits_value(digits) == value
                    && value <= max,
                None => !(digits.len() > 0 && all_digits(digits) && digits_value(digits) <= max),
            }
        }),
{
    let ghost digits = s@.skip(from as int);
    if from == s.len() {
        return None;
    }
    let mut value: u64 = 0;
    let mut i: usize = from;
    assert(digits.take(0) =~= Seq::empty());
    while i < s.len()
        invariant
            from <= i <= s@.len(),
            from < s@.len(),
            digits == s@.skip(from as int),
            value <= max,
            value == digits_value(digits.take(i - from)),
            forall|j: int| 0 <= j < i - from ==> '0' <= #[trigger] digits[j] <= '9',
        decreases s.len() - i,
    {
        let c: char = s[i];
        proof {
            assert(digits[i - from] == c);
            assert(digits.take(i - from + 1).drop_last() =~= digits.take(i - from));
            assert(digits.take(i - from + 1).last() == c);
        }
        if !('0' <= c && c <= '9') {
            return None;
        }
        let digit: u64 = c as u64 - '0' as u64;
        let larger: Option<u64> = match value.checked_mul(10) {
            Some(tenfold) => tenfold.checked_add(digit),
            None => None,
        };
        proof {
            if all_digits(digits) {
                lemma_digits_grow(digits, i - from + 1);
            }
        }
        match larger {
            Some(larger) => {
                if larger > max {
                    return None;
                }
                value = larger;
            },
            None => {
                return None;
            },
        }
        i += 1;
    }
    assert(digits.take(i - from) =~= digits);
    Some(value)
}

/// Reads an unsigned number no larger than `max`.
pub fn parse_unsigned(s: &Vec<char>, max: u64) -> (value: Option<u64>)
    ensures
        match value {
            Some(value) => unsigned_value(s@, max as nat) == Some(value as nat) && value <= max,
            None => unsigned_value(s@, max as nat) is None,
        },
{
    if s.len() > 1 && s[0] == '+' {
        assert(s@.skip(1) =~= s@.drop_first());
        digits_number(s, 1, max)
    } else {
        assert(s@.skip(0) =~= s@);
        digits_number(s, 0, max)
    }
}

/// Lower case: each capital letter becomes its small one, thirty-two further
/// on, and every other character stays.
pub proof fn law_lower_case(s: Seq<char>, at: int)
    requires
        0 <= at < s.len(),
    ensures
        lowered(s).len() == s.len(),
        'A' <= s[at] <= 'Z' ==> lowered(s)[at] as u32 == s[at] as u32 + 32,
        !('A' <= s[at] <= 'Z') ==> lowered(s)[at] == s[at],
{
}

/// Trimming takes white space off both ends and nothing else: what is left is a
/// part of the text that neither begins nor ends in white space, and all that
/// was taken is white space.
pub proof fn law_trimming_takes_white_space(s: Seq<char>) -> (range: (int, int))
    ensures
        0 <= range.0 <= range.1 <= s.len(),
        trimmed(s) == s.subrange(range.0, range.1),
        forall|i: int| 0 <= i < range.0 ==> white_space(#[trigger] s[i]),
        forall|i: int| range.1 <= i < s.len() ==> white_space(#[trigger] s[i]),
        range.0 < range.1 ==> !white_space(s[range.0]) && !white_space(s[range.1 - 1]),
{
    let from = lemma_start_of_trimmed(s);
    let rest = s.skip(from);
    let to = lemma_end_of_trimmed(rest);
    assert(rest.take(to) =~= s.subrange(from, from + to));
    assert forall|i: int| from + to <= i < s.len() implies white_space(#[trigger] s[i]) by {
        assert(rest[i - from] == s[i]);
    }
    (from, from + to)
}

proof fn lemma_start_of_trimmed(s: Seq<char>) -> (from: int)
    ensures
        0 <= from <= s.len(),
        trimmed_start(s) == s.skip(from),
        forall|i: int| 0 <= i < from ==> white_space(#[trigger] s[i]),
        from < s.len() ==> !white_space(s[from]),
    decreases s.len(),
{
    if s.len() > 0 && white_space(s[0]) {
        let rest = lemma_start_of_trimmed(s.drop_first());
        assert(s.drop_first().skip(rest) =~= s.skip(rest + 1));
        assert forall|i: int| 0 <= i < rest + 1 implies white_space(#[trigger] s[i]) by {
            if i > 0 {
                assert(s.drop_first()[i - 1] == s[i]);
            }
        }
        rest + 1
    } else {
        assert(s.skip(0) =~= s);
        0
    }
}

proof fn lemma_end_of_trimmed(s: Seq<char>) -> (to: int)
    ensures
        0 <= to <= s.len(),
        trimmed_end(s) == s.take(to),
        forall|i: int| to <= i < s.len() ==> white_space(#[trigger] s[i]),
        to > 0 ==> !white_space(s[to - 1]),
    decreases s.len(),
{
    if s.len() > 0 && white_space(s.last()) {
        let to = lemma_end_of_trimmed(s.drop_last());
        assert(s.drop_last().take(to) =~= s.take(to));
        assert forall|i: int| to <= i < s.len() implies white_space(#[trigger] s[i]) by {
            if i < s.len() - 1 {
                assert(s.drop_last()[i] == s[i]);
            }
        }
        to
    } else {
        assert(s.take(s.len() as int) =~= s);
        s.len() as int
    }
}

/// The ordinary blanks are white space, and letters, digits and marks are not.
pub proof fn law_blanks_are_white_space(c: char)
    ensures
        c == ' ' || c == '\t' || c == '\n' || c == '\r' ==> white_space(c),
        '!' <= c <= '~' ==> !white_space(c),
{
}

/// A text is split at its first mark: what is before holds none, and the two
/// with the mark between them are the text. Without a mark there is no split.
pub proof fn law_texts_split_at_the_first_mark(s: Seq<char>, mark: char)
    ensures
        halves_at(s, mark) matches Some((before, behind)) ==> s == before + seq![mark] + behind
            && !before.contains(mark),
        halves_at(s, mark) is None <==> !s.contains(mark),
{
    lemma_first_mark(s, mark, 0);
    let at = first_index(s, mark, 0);
    if at < s.len() {
        assert(s =~= s.take(at) + seq![mark] + s.skip(at + 1));
        assert(s.contains(s[at]));
    }
}

proof fn lemma_first_mark(s: Seq<char>, mark: char, from: int)
    requires
        0 <= from <= s.len(),
    ensures
        from <= first_index(s, mark, from) <= s.len(),
        first_index(s, mark, from) < s.len() ==> s[first_index(s, mark, from)] == mark,
        forall|i: int| from <= i < first_index(s, mark, from) ==> #[trigger] s[i] != mark,
    decreases s.len() - from,
{
    if from < s.len() && s[from] != mark {
        lemma_first_mark(s, mark, from + 1);
    }
}

/// A text falls into pieces between its marks: none holds a mark, and put
/// together with marks between them they are the text.
pub proof fn law_pieces_make_the_text(s: Seq<char>, mark: char, from: int)
    requires
        0 <= from <= s.len(),
    ensures
        pieces(s, mark, from).len() >= 1,
        with_marks(pieces(s, mark, from), mark) == s.skip(from),
        forall|i: int|
            0 <= i < pieces(s, mark, from).len() ==> !(#[trigger] pieces(s, mark, from)[i]).contains(
                mark,
            ),
    decreases s.len() - from,
{
    lemma_first_mark(s, mark, from);
    let end = first_index(s, mark, from);
    let all = pieces(s, mark, from);
    if end >= s.len() {
        let only = s.subrange(from, s.len() as int);
        assert(all =~= seq![only]);
        assert(with_marks(all, mark) =~= only);
        assert(only =~= s.skip(from));
        assert(!all[0].contains(mark));
    } else {
        law_pieces_make_the_text(s, mark, end + 1);
        let first = s.subrange(from, end);
        let rest = pieces(s, mark, end + 1);
        assert(all =~= seq![first] + rest);
        assert(all.drop_first() =~= rest);
        assert(with_marks(all, mark) =~= s.skip(from));
        assert forall|i: int| 0 <= i < all.len() implies !(#[trigger] all[i]).contains(mark) by {
            if i > 0 {
                assert(all[i] == rest[i - 1]);
            }
        }
    }
}

/// Pieces with a mark between each two.
pub open spec fn with_marks(parts: Seq<Seq<char>>, mark: char) -> Seq<char>
    decreases parts.len(),
{
    if parts.len() == 0 {
        Seq::empty()
    } else if parts.len() == 1 {
        parts[0]
    } else {
        parts[0] + seq![mark] + with_marks(parts.drop_first(), mark)
    }
}

/// A number is written in decimal, without leading zeros, and reads back, with
/// or without a plus sign; a larger one than may be is none.
pub proof fn law_numbers_read_back(n: nat, max: nat)
    ensures
        n <= max ==> unsigned_value(decimal(n), max) == Some(n),
        n <= max ==> unsigned_value(seq!['+'] + decimal(n), max) == Some(n),
        n > max ==> unsigned_value(decimal(n), max) is None,
        n > 0 ==> decimal(n)[0] != '0',
        unsigned_value(Seq::empty(), max) is None,
{
    lemma_decimal_value(n);
    lemma_no_leading_zero(n);
    let digits = decimal(n);
    assert('0' <= digits[0] <= '9');
    assert((seq!['+'] + digits).drop_first() =~= digits);
}

proof fn lemma_no_leading_zero(n: nat)
    ensures
        n > 0 ==> decimal(n)[0] != '0',
        decimal(n).len() > 0,
    decreases n,
{
    if n >= 10 {
        lemma_no_leading_zero(n / 10);
    }
}

/// A number in hexadecimal has as many digits as it is given, the highest first,
/// and in small letters: its last digit is what is left over by sixteen, and
/// those before it are the number without it.
pub proof fn law_hexadecimal_digits(n: nat, width: nat)
    ensures
        hexadecimal(n, width).len() == width,
        width > 0 ==> hexadecimal(n, width).drop_last() == hexadecimal(n / 16, (width - 1) as nat),
        width > 0 && n % 16 < 10 ==> hexadecimal(n, width).last() as u32 == '0' as u32 + n % 16,
        width > 0 && n % 16 >= 10 ==> hexadecimal(n, width).last() as u32 == 'a' as u32 + n % 16
            - 10,
    decreases width,
{
    if width > 0 {
        law_hexadecimal_digits(n / 16, (width - 1) as nat);
        assert(hexadecimal(n, width).drop_last() =~= hexadecimal(n / 16, (width - 1) as nat));
    }
}

/// Put together again with the mark, two texts split where they met, if the
/// first has no mark.
pub proof fn law_joined_texts_split_again(a: Seq<char>, b: Seq<char>, mark: char)
    requires
        !a.contains(mark),
    ensures
        halves_at(a + seq![mark] + b, mark) == Some((a, b)),
{
    let all = a + seq![mark] + b;
    assert forall|j: int| 0 <= j < a.len() implies #[trigger] all[j] != mark by {
        assert(all[j] == a[j]);
        assert(a.contains(a[j]));
    }
    assert(all[a.len() as int] == mark);
    lemma_first_index(all, mark, 0, a.len() as int);
    assert(all.take(a.len() as int) =~= a);
    assert(all.skip(a.len() as int + 1) =~= b);
}

} // verus!
