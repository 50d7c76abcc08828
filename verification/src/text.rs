//! Text as sequences of characters: the few operations on strings that the
//! rest of the library is built from.
use vstd::prelude::*;
use vstd::string::*;
use vstd::utf8::*;

verus! {

/// `String::push` appends one character to the end of the text.
pub assume_specification[ String::push ](string: &mut String, character: char)
    ensures
        final(string)@ == old(string)@.push(character),
;

/// The text that `String::from_utf8_lossy` makes of `bytes`.
pub uninterp spec fn lossy_text(bytes: Seq<u8>) -> Seq<char>;

/// Calls `String::from_utf8_lossy`: every byte sequence becomes text, and bytes that are
/// UTF-8 throughout become the text that they encode.
#[verifier::external_body]
pub(crate) fn lossy(bytes: &[u8]) -> (text: String)
    ensures
        text@ == lossy_text(bytes@),
        valid_utf8(bytes@) ==> text@ == decode_utf8(bytes@),
{
    String::from_utf8_lossy(bytes).into_owned()
}

/// The text of the error that `std::str::from_utf8` reports for `bytes` that are not UTF-8.
pub uninterp spec fn utf8_error(bytes: Seq<u8>) -> Seq<char>;

/// What `bytes` encode as UTF-8, or the reason why they encode nothing.
pub open spec fn utf8_text(bytes: Seq<u8>) -> Result<Seq<char>, Seq<char>> {
    if valid_utf8(bytes) {
        Ok(decode_utf8(bytes))
    } else {
        Err(utf8_error(bytes))
    }
}

/// Calls `std::str::from_utf8`, which accepts exactly the bytes that are UTF-8 and yields the
/// text that they encode; the error is handed on as its text.
#[verifier::external_body]
pub(crate) fn from_utf8(bytes: &[u8]) -> (text: Result<String, String>)
    ensures
        text is Ok <==> valid_utf8(bytes@),
        text is Ok ==> text->Ok_0@ == decode_utf8(bytes@),
        text is Err ==> text->Err_0@ == utf8_error(bytes@),
{
    match std::str::from_utf8(bytes) {
        Ok(text) => Ok(text.to_owned()),
        Err(error) => Err(error.to_string()),
    }
}

/// The text that the `Debug` format of `str` makes of `text`: quoted, with escapes.
pub uninterp spec fn quoted_text(text: Seq<char>) -> Seq<char>;

/// Formats `text` with the `Debug` implementation of `str`.
#[verifier::external_body]
pub(crate) fn quoted(text: &str) -> (result: String)
    ensures
        result@ == quoted_text(text@),
{
    format!("{text:?}")
}

/// The characters of `text`, in order.
pub fn to_chars(text: &str) -> (chars: Vec<char>)
    ensures
        chars@ == text@,
{
    let mut chars: Vec<char> = Vec::new();
    for c in it: text.chars()
        invariant
            chars@ == text@.take(it.index() as int),
            it.seq() == text@,
    {
        chars.push(c);
        assert(text@.take(it.index() + 1) =~= text@.take(it.index() as int).push(c));
    }
    assert(text@.take(text@.len() as int) =~= text@);
    chars
}

/// The text made of `chars[from..to]`.
pub fn from_chars(chars: &Vec<char>, from: usize, to: usize) -> (text: String)
    requires
        from <= to <= chars.len(),
    ensures
        text@ == chars@.subrange(from as int, to as int),
{
    let mut text = String::new();
    let mut i: usize = from;
    assert(chars@.subrange(from as int, from as int) =~= Seq::<char>::empty());
    while i < to
        invariant
            from <= i <= to <= chars.len(),
            text@ == chars@.subrange(from as int, i as int),
        decreases to - i,
    {
        text.push(chars[i]);
        assert(chars@.subrange(from as int, i + 1) =~= chars@.subrange(from as int, i as int).push(
            chars@[i as int],
        ));
        i += 1;
    }
    text
}

/// Whether the two texts are the same.
pub fn same_text(left: &str, right: &str) -> (same: bool)
    ensures
        same == (left@ == right@),
{
    left.to_owned() == right.to_owned()
}

/// Whether both or neither of two optional texts is there, and they are the same.
pub fn same_optional_text(left: &Option<String>, right: &Option<String>) -> (same: bool)
    ensures
        same == (left.deep_view() == right.deep_view()),
{
    match (left, right) {
        (None, None) => true,
        (Some(left), Some(right)) => same_text(left, right),
        _ => false,
    }
}

/// `first` followed by `second`.
pub fn concat2(first: &str, second: &str) -> (text: String)
    ensures
        text@ == first@ + second@,
{
    let mut text = first.to_owned();
    text.append(second);
    text
}

/// The three texts, one after the other.
pub fn concat3(first: &str, second: &str, third: &str) -> (text: String)
    ensures
        text@ == first@ + second@ + third@,
{
    let mut text = concat2(first, second);
    text.append(third);
    text
}

/// The four texts, one after the other.
pub fn concat4(first: &str, second: &str, third: &str, fourth: &str) -> (text: String)
    ensures
        text@ == first@ + second@ + third@ + fourth@,
{
    let mut text = concat3(first, second, third);
    text.append(fourth);
    text
}

/// The five texts, one after the other.
pub fn concat5(first: &str, second: &str, third: &str, fourth: &str, fifth: &str) -> (text: String)
    ensures
        text@ == first@ + second@ + third@ + fourth@ + fifth@,
{
    let mut text = concat4(first, second, third, fourth);
    text.append(fifth);
    text
}

/// The decimal digit with the value `digit`.
pub open spec fn decimal_digit(digit: nat) -> char {
    (('0' as nat) + digit) as char
}

/// `number` in decimal, without leading zeros.
pub open spec fn decimal_text(number: nat) -> Seq<char>
    decreases number,
{
    if number < 10 {
        seq![decimal_digit(number)]
    } else {
        decimal_text(number / 10).push(decimal_digit(number % 10))
    }
}

/// `number` in decimal, without leading zeros.
pub fn decimal(number: u64) -> (text: String)
    ensures
        text@ == decimal_text(number as nat),
    decreases number,
{
    let digit: u8 = (number % 10) as u8;
    let mut text = if number < 10 {
        String::new()
    } else {
        decimal(number / 10)
    };
    text.push((48 + digit) as char);
    assert(text@ =~= decimal_text(number as nat));
    text
}

/// Whether every character is a decimal digit.
pub open spec fn all_digits(text: Seq<char>) -> bool {
    forall|i: int| 0 <= i < text.len() ==> '0' <= #[trigger] text[i] <= '9'
}

/// The number that a row of decimal digits stands for.
pub open spec fn digits_value(text: Seq<char>) -> nat
    decreases text.len(),
{
    if text.len() == 0 {
        0
    } else {
        10 * digits_value(text.drop_last()) + (text.last() as nat - '0' as nat) as nat
    }
}

/// The digits of a number that may be written with a plus sign.
pub open spec fn unsigned_digits(text: Seq<char>) -> Seq<char> {
    if text.len() > 0 && text[0] == '+' {
        text.skip(1)
    } else {
        text
    }
}

/// The value of `text` as a number of at most `limit`: an optional plus sign, then decimal
/// digits, at least one.
pub open spec fn parse_unsigned(text: Seq<char>, limit: nat) -> Option<nat> {
    let digits = unsigned_digits(text);
    if digits.len() > 0 && all_digits(digits) && digits_value(digits) <= limit {
        Some(digits_value(digits))
    } else {
        None
    }
}

proof fn lemma_digits_value_grows(text: Seq<char>, end: int)
    requires
        0 <= end <= text.len(),
        all_digits(text),
    ensures
        digits_value(text.take(end)) <= digits_value(text),
    decreases text.len() - end,
{
    if end == text.len() {
        assert(text.take(end) =~= text);
    } else {
        lemma_digits_value_grows(text, end + 1);
        assert(text.take(end + 1).drop_last() =~= text.take(end));
    }
}

/// Reads `text` as a number of at most `limit`.
pub fn parse_number(text: &str, limit: u64) -> (number: Option<u64>)
    ensures
        number is Some <==> parse_unsigned(text@, limit as nat) is Some,
        number is Some ==> number->0 as nat == parse_unsigned(text@, limit as nat)->0,
{
    let chars = to_chars(text);
    let start: usize = if chars.len() > 0 && chars[0] == '+' {
        1
    } else {
        0
    };
    let ghost digits = unsigned_digits(text@);
    assert(digits =~= chars@.subrange(start as int, chars@.len() as int));
    if start == chars.len() {
        return None;
    }
    let mut value: u64 = 0;
    let mut i: usize = start;
    while i < chars.len()
        invariant
            start <= i <= chars.len(),
            digits == chars@.subrange(start as int, chars@.len() as int),
            digits == unsigned_digits(text@),
            digits.len() > 0,
            all_digits(digits.take(i - start)),
            value as nat == digits_value(digits.take(i - start)),
            value <= limit,
        decreases chars.len() - i,
    {
        let c = chars[i];
        let ghost k = i - start;
        assert(digits[k] == c);
        if c < '0' || c > '9' {
            assert(!all_digits(digits));
            return None;
        }
        let digit: u64 = c as u64 - '0' as u64;
        assert(digits.take(k + 1).drop_last() =~= digits.take(k));
        assert(all_digits(digits.take(k + 1)));
        assert(digits_value(digits.take(k + 1)) == 10 * value + digit);
        if value > (u64::MAX - digit) / 10 || value * 10 + digit > limit {
            proof {
                if all_digits(digits) {
                    lemma_digits_value_grows(digits, k + 1);
                }
            }
            return None;
        }
        value = value * 10 + digit;
        i += 1;
    }
    assert(digits.take(digits.len() as int) =~= digits);
    Some(value)
}

/// Whether `c` is white space in the sense of Unicode.
pub open spec fn white_space(c: char) -> bool {
    ||| '\u{9}' <= c <= '\u{d}'
    ||| c == ' '
    ||| c == '\u{85}'
    ||| c == '\u{a0}'
    ||| c == '\u{1680}'
    ||| '\u{2000}' <= c <= '\u{200a}'
    ||| c == '\u{2028}'
    ||| c == '\u{2029}'
    ||| c == '\u{202f}'
    ||| c == '\u{205f}'
    ||| c == '\u{3000}'
}

/// Whether `c` is white space in the sense of Unicode.
pub fn is_white_space(c: char) -> (result: bool)
    ensures
        result == white_space(c),
{
    ('\u{9}' <= c && c <= '\u{d}') || c == ' ' || c == '\u{85}' || c == '\u{a0}' || c == '\u{1680}'
        || ('\u{2000}' <= c && c <= '\u{200a}') || c == '\u{2028}' || c == '\u{2029}' || c
        == '\u{202f}' || c == '\u{205f}' || c == '\u{3000}'
}

/// `text` without the white space that it starts with.
pub open spec fn trim_start(text: Seq<char>) -> Seq<char>
    decreases text.len(),
{
    if text.len() > 0 && white_space(text[0]) {
        trim_start(text.skip(1))
    } else {
        text
    }
}

/// `text` without the white space that it ends with.
pub open spec fn trim_end(text: Seq<char>) -> Seq<char>
    decreases text.len(),
{
    if text.len() > 0 && white_space(text.last()) {
        trim_end(text.drop_last())
    } else {
        text
    }
}

/// `text` without white space at either end.
pub open spec fn trimmed(text: Seq<char>) -> Seq<char> {
    trim_end(trim_start(text))
}

/// The length of the word, free of white space, that `text` starts with.
pub open spec fn word_length(text: Seq<char>) -> nat
    decreases text.len(),
{
    if text.len() > 0 && !white_space(text[0]) {
        1 + word_length(text.skip(1))
    } else {
        0
    }
}

/// The second of the words that white space separates in `text`.
pub open spec fn second_word(text: Seq<char>) -> Option<Seq<char>> {
    let first = trim_start(text);
    let second = trim_start(first.skip(word_length(first) as int));
    if second.len() > 0 {
        Some(second.take(word_length(second) as int))
    } else {
        None
    }
}

/// The first position from `from` on that holds no white space.
fn skip_white_space(chars: &Vec<char>, from: usize) -> (to: usize)
    requires
        from <= chars.len(),
    ensures
        from <= to <= chars.len(),
        trim_start(chars@.skip(from as int)) == chars@.skip(to as int),
        to < chars.len() ==> !white_space(chars[to as int]),
{
    let mut to: usize = from;
    while to < chars.len() && is_white_space(chars[to])
        invariant
            from <= to <= chars.len(),
            trim_start(chars@.skip(from as int)) == trim_start(chars@.skip(to as int)),
        decreases chars.len() - to,
    {
        assert(chars@.skip(to as int).skip(1) =~= chars@.skip(to + 1));
        to += 1;
    }
    to
}

/// The first position from `from` on that holds white space.
fn skip_word(chars: &Vec<char>, from: usize) -> (to: usize)
    requires
        from <= chars.len(),
    ensures
        from <= to <= chars.len(),
        to - from == word_length(chars@.skip(from as int)),
{
    let mut to: usize = from;
    while to < chars.len() && !is_white_space(chars[to])
        invariant
            from <= to <= chars.len(),
            word_length(chars@.skip(from as int)) == to - from + word_length(
                chars@.skip(to as int),
            ),
        decreases chars.len() - to,
    {
        assert(chars@.skip(to as int).skip(1) =~= chars@.skip(to + 1));
        to += 1;
    }
    to
}

/// `text` without white space at either end.
pub fn trim(text: &str) -> (result: String)
    ensures
        result@ == trimmed(text@),
{
    let chars = to_chars(text);
    let start = skip_white_space(&chars, 0);
    assert(chars@.skip(0) =~= chars@);
    let mut end: usize = chars.len();
    assert(chars@.subrange(start as int, end as int) =~= chars@.skip(start as int));
    while end > start && is_white_space(chars[end - 1])
        invariant
            start <= end <= chars.len(),
            trimmed(text@) == trim_end(chars@.subrange(start as int, end as int)),
        decreases end,
    {
        assert(chars@.subrange(start as int, end as int).drop_last() =~= chars@.subrange(
            start as int,
            end - 1,
        ));
        end -= 1;
    }
    from_chars(&chars, start, end)
}

/// The second of the words that white space separates in `text`.
pub fn nth_word_1(text: &str) -> (word: Option<String>)
    ensures
        word.deep_view() == second_word(text@),
{
    let chars = to_chars(text);
    assert(chars@.skip(0) =~= chars@);
    let first = skip_white_space(&chars, 0);
    let first_end = skip_word(&chars, first);
    assert(chars@.skip(first as int).skip(first_end - first) =~= chars@.skip(first_end as int));
    let second = skip_white_space(&chars, first_end);
    if second == chars.len() {
        return None;
    }
    let second_end = skip_word(&chars, second);
    assert(chars@.skip(second as int).take(second_end - second) =~= chars@.subrange(
        second as int,
        second_end as int,
    ));
    Some(from_chars(&chars, second, second_end))
}

/// Whether `text` starts with `prefix`.
pub fn starts_with(text: &str, prefix: &str) -> (result: bool)
    ensures
        result == prefix@.is_prefix_of(text@),
{
    let chars = to_chars(text);
    let start = to_chars(prefix);
    if start.len() > chars.len() {
        return false;
    }
    let mut i: usize = 0;
    while i < start.len()
        invariant
            i <= start.len() <= chars.len(),
            chars@ == text@,
            start@ == prefix@,
            start@.take(i as int) =~= chars@.take(i as int),
        decreases start.len() - i,
    {
        if start[i] != chars[i] {
            assert(text@.subrange(0, prefix@.len() as int)[i as int] != prefix@[i as int]);
            return false;
        }
        assert(start@.take(i + 1) =~= start@.take(i as int).push(start@[i as int]));
        assert(chars@.take(i + 1) =~= chars@.take(i as int).push(chars@[i as int]));
        i += 1;
    }
    assert(start@.take(i as int) =~= start@);
    true
}

/// `text` without `prefix`, where it starts with it, and else `text`.
pub open spec fn without_prefix(text: Seq<char>, prefix: Seq<char>) -> Seq<char> {
    if prefix.is_prefix_of(text) {
        text.skip(prefix.len() as int)
    } else {
        text
    }
}

/// `text` without `prefix`, where it starts with it, and else `text`.
pub fn strip_prefix(text: &str, prefix: &str) -> (result: String)
    ensures
        result@ == without_prefix(text@, prefix@),
{
    if starts_with(text, prefix) {
        let chars = to_chars(text);
        let length = to_chars(prefix).len();
        assert(chars@.subrange(length as int, chars@.len() as int) =~= chars@.skip(length as int));
        from_chars(&chars, length, chars.len())
    } else {
        text.to_owned()
    }
}

/// The pieces of `text` between the places where `separator` stands.
pub open spec fn split_text(text: Seq<char>, separator: char) -> Seq<Seq<char>>
    decreases text.len(),
{
    if text.len() == 0 {
        seq![Seq::<char>::empty()]
    } else {
        let before = split_text(text.drop_last(), separator);
        if text.last() == separator {
            before.push(Seq::<char>::empty())
        } else {
            before.drop_last().push(before.last().push(text.last()))
        }
    }
}

/// The pieces of `text` between the places where `separator` stands.
pub fn split(text: &str, separator: char) -> (pieces: Vec<String>)
    ensures
        pieces.deep_view() == split_text(text@, separator),
        pieces.len() > 0,
{
    let chars = to_chars(text);
    let mut pieces: Vec<String> = Vec::new();
    let mut piece = String::new();
    let mut i: usize = 0;
    proof {
        assert(chars@.take(0) =~= Seq::<char>::empty());
        assert(pieces.deep_view().push(piece@) =~= seq![Seq::<char>::empty()]);
    }
    while i < chars.len()
        invariant
            i <= chars.len(),
            pieces.deep_view().push(piece@) == split_text(chars@.take(i as int), separator),
        decreases chars.len() - i,
    {
        let ghost before = split_text(chars@.take(i as int), separator);
        let ghost shown = pieces.deep_view();
        assert(chars@.take(i + 1).drop_last() =~= chars@.take(i as int));
        assert(before.drop_last() =~= shown);
        assert(before.last() == piece@);
        if chars[i] == separator {
            pieces.push(piece);
            piece = String::new();
            assert(pieces.deep_view() =~= before);
        } else {
            piece.push(chars[i]);
        }
        i += 1;
    }
    assert(chars@.take(i as int) =~= chars@);
    let ghost shown = pieces.deep_view();
    let ghost last = piece@;
    pieces.push(piece);
    assert(pieces.deep_view() =~= shown.push(last));
    pieces
}

/// The pieces of `bytes` between the places where one of the two separators stands.
pub open spec fn split_bytes(bytes: Seq<u8>, first: u8, second: u8) -> Seq<Seq<u8>>
    decreases bytes.len(),
{
    if bytes.len() == 0 {
        seq![Seq::<u8>::empty()]
    } else {
        let before = split_bytes(bytes.drop_last(), first, second);
        if bytes.last() == first || bytes.last() == second {
            before.push(Seq::<u8>::empty())
        } else {
            before.drop_last().push(before.last().push(bytes.last()))
        }
    }
}

/// The contents of each of the byte strings.
pub open spec fn contents(pieces: Seq<Vec<u8>>) -> Seq<Seq<u8>> {
    pieces.map_values(|piece: Vec<u8>| piece@)
}

/// The pieces of `bytes` between the places where one of the two separators stands.
pub fn split_at_bytes(bytes: &[u8], first: u8, second: u8) -> (pieces: Vec<Vec<u8>>)
    ensures
        contents(pieces@) == split_bytes(bytes@, first, second),
        pieces.len() > 0,
{
    let mut pieces: Vec<Vec<u8>> = Vec::new();
    let mut piece: Vec<u8> = Vec::new();
    let mut i: usize = 0;
    proof {
        assert(bytes@.take(0) =~= Seq::<u8>::empty());
        assert(contents(pieces@).push(piece@) =~= seq![Seq::<u8>::empty()]);
    }
    while i < bytes.len()
        invariant
            i <= bytes.len(),
            contents(pieces@).push(piece@) == split_bytes(bytes@.take(i as int), first, second),
        decreases bytes.len() - i,
    {
        let ghost before = split_bytes(bytes@.take(i as int), first, second);
        assert(bytes@.take(i + 1).drop_last() =~= bytes@.take(i as int));
        assert(before.drop_last() =~= contents(pieces@));
        assert(before.last() == piece@);
        if bytes[i] == first || bytes[i] == second {
            pieces.push(piece);
            piece = Vec::new();
            assert(contents(pieces@) =~= before);
        } else {
            piece.push(bytes[i]);
        }
        i += 1;
    }
    assert(bytes@.take(i as int) =~= bytes@);
    let ghost shown = contents(pieces@);
    let ghost last = piece@;
    pieces.push(piece);
    assert(contents(pieces@) =~= shown.push(last));
    pieces
}

/// Whether the two byte strings are the same.
pub fn same_bytes(left: &[u8], right: &[u8]) -> (same: bool)
    ensures
        same == (left@ == right@),
{
    if left.len() != right.len() {
        return false;
    }
    let mut i: usize = 0;
    while i < left.len()
        invariant
            i <= left.len() == right.len(),
            left@.take(i as int) =~= right@.take(i as int),
        decreases left.len() - i,
    {
        if left[i] != right[i] {
            return false;
        }
        assert(left@.take(i + 1) =~= left@.take(i as int).push(left@[i as int]));
        assert(right@.take(i + 1) =~= right@.take(i as int).push(right@[i as int]));
        i += 1;
    }
    assert(left@.take(i as int) =~= left@);
    assert(right@.take(i as int) =~= right@);
    true
}

/// The bytes `bytes[from..to]`.
pub fn copy_bytes(bytes: &[u8], from: usize, to: usize) -> (copy: Vec<u8>)
    requires
        from <= to <= bytes.len(),
    ensures
        copy@ == bytes@.subrange(from as int, to as int),
{
    let mut copy: Vec<u8> = Vec::new();
    let mut i: usize = from;
    assert(bytes@.subrange(from as int, from as int) =~= Seq::<u8>::empty());
    while i < to
        invariant
            from <= i <= to <= bytes.len(),
            copy@ == bytes@.subrange(from as int, i as int),
        decreases to - i,
    {
        copy.push(bytes[i]);
        assert(bytes@.subrange(from as int, i + 1) =~= bytes@.subrange(from as int, i as int).push(
            bytes@[i as int],
        ));
        i += 1;
    }
    copy
}

/// Whether `left` comes before `right` in the order of a dictionary, by the codes of the
/// characters.
pub open spec fn text_before(left: Seq<char>, right: Seq<char>) -> bool
    decreases left.len(),
{
    if right.len() == 0 {
        false
    } else if left.len() == 0 {
        true
    } else if left[0] != right[0] {
        left[0] < right[0]
    } else {
        text_before(left.skip(1), right.skip(1))
    }
}

/// Whether `left` comes before `right` in the order of a dictionary.
pub fn is_text_before(left: &str, right: &str) -> (result: bool)
    ensures
        result == text_before(left@, right@),
{
    let left = to_chars(left);
    let right = to_chars(right);
    let mut i: usize = 0;
    assert(left@.skip(0) =~= left@);
    assert(right@.skip(0) =~= right@);
    while i < left.len() && i < right.len() && left[i] == right[i]
        invariant
            i <= left.len(),
            i <= right.len(),
            text_before(left@, right@) == text_before(left@.skip(i as int), right@.skip(i as int)),
        decreases left.len() - i,
    {
        assert(left@.skip(i as int).skip(1) =~= left@.skip(i + 1));
        assert(right@.skip(i as int).skip(1) =~= right@.skip(i + 1));
        i += 1;
    }
    if i >= right.len() {
        false
    } else if i >= left.len() {
        true
    } else {
        left[i] < right[i]
    }
}

/// A copy of `bytes`.
pub fn clone_bytes(bytes: &Vec<u8>) -> (copy: Vec<u8>)
    ensures
        copy@ == bytes@,
{
    let copy = copy_bytes(bytes.as_slice(), 0, bytes.len());
    assert(copy@ =~= bytes@);
    copy
}

/// A copy of each text.
pub fn clone_texts(texts: &Vec<String>) -> (copy: Vec<String>)
    ensures
        copy.deep_view() == texts.deep_view(),
{
    let mut copy: Vec<String> = Vec::new();
    let mut i: usize = 0;
    while i < texts.len()
        invariant
            i <= texts.len(),
            copy.deep_view() == texts.deep_view().take(i as int),
        decreases texts.len() - i,
    {
        push_text(&mut copy, texts[i].as_str());
        assert(texts.deep_view().take(i + 1) =~= texts.deep_view().take(i as int).push(
            texts.deep_view()[i as int],
        ));
        i += 1;
    }
    assert(texts.deep_view().take(i as int) =~= texts.deep_view());
    copy
}

/// A copy of a text, if there is one.
pub fn clone_optional(text: &Option<String>) -> (copy: Option<String>)
    ensures
        copy.deep_view() == text.deep_view(),
{
    match text {
        None => None,
        Some(text) => Some(text.clone()),
    }
}

/// Appends a copy of `text` to `texts`.
pub fn push_text(texts: &mut Vec<String>, text: &str)
    ensures
        final(texts).deep_view() == old(texts).deep_view().push(text@),
{
    let ghost before = texts.deep_view();
    texts.push(text.to_owned());
    assert(texts.deep_view() =~= before.push(text@));
}

/// Appends a pair of texts to `pairs`.
pub fn push_pair(pairs: &mut Vec<(String, String)>, first: &str, second: &str)
    ensures
        final(pairs).deep_view() == old(pairs).deep_view().push((first@, second@)),
{
    let ghost before = pairs.deep_view();
    pairs.push((first.to_owned(), second.to_owned()));
    assert(pairs.deep_view() =~= before.push((first@, second@)));
}

/// The texts with `separator` between each two of them.
pub open spec fn joined_text(texts: Seq<Seq<char>>, separator: Seq<char>) -> Seq<char>
    decreases texts.len(),
{
    if texts.len() == 0 {
        Seq::empty()
    } else if texts.len() == 1 {
        texts[0]
    } else {
        joined_text(texts.drop_last(), separator) + separator + texts.last()
    }
}

/// The texts with `separator` between each two of them.
pub fn join_texts(texts: &Vec<String>, separator: &str) -> (joined: String)
    ensures
        joined@ == joined_text(texts.deep_view(), separator@),
{
    let ghost all = texts.deep_view();
    let mut joined = String::new();
    let mut i: usize = 0;
    while i < texts.len()
        invariant
            i <= texts.len(),
            all == texts.deep_view(),
            joined@ == joined_text(all.take(i as int), separator@),
        decreases texts.len() - i,
    {
        if i > 0 {
            joined.append(separator);
        }
        joined.append(texts[i].as_str());
        assert(all.take(i + 1).drop_last() =~= all.take(i as int));
        assert(all.take(i + 1).last() == texts[i as int]@);
        assert(joined@ =~= joined_text(all.take(i + 1), separator@));
        i += 1;
    }
    assert(all.take(i as int) =~= all);
    joined
}

/// Whether `bytes` start with the characters of `prefix` in UTF-8.
pub fn bytes_start_with(bytes: &[u8], prefix: &str) -> (result: bool)
    ensures
        result == encode_utf8(prefix@).is_prefix_of(bytes@),
{
    let start = prefix.as_bytes();
    if start.len() > bytes.len() {
        return false;
    }
    let ghost wanted = start@;
    let mut i: usize = 0;
    while i < start.len()
        invariant
            i <= start.len() <= bytes.len(),
            wanted == start@,
            wanted == encode_utf8(prefix@),
            forall|j: int| 0 <= j < i ==> wanted[j] == bytes@[j],
        decreases start.len() - i,
    {
        if start[i] != bytes[i] {
            assert(wanted[i as int] != bytes@.subrange(0, wanted.len() as int)[i as int]);
            return false;
        }
        i += 1;
    }
    assert(wanted =~= bytes@.subrange(0, wanted.len() as int));
    true
}

/// Whether `bytes` are the characters of `text` in UTF-8.
pub fn bytes_are(bytes: &[u8], text: &str) -> (result: bool)
    ensures
        result == (bytes@ == encode_utf8(text@)),
{
    same_bytes(bytes, text.as_bytes())
}

/// The bytes behind `prefix`, where `bytes` start with it.
pub open spec fn bytes_after(bytes: Seq<u8>, prefix: Seq<char>) -> Option<Seq<u8>> {
    if encode_utf8(prefix).is_prefix_of(bytes) {
        Some(bytes.skip(encode_utf8(prefix).len() as int))
    } else {
        None
    }
}

/// The bytes behind `prefix`, where `bytes` start with it.
pub fn strip_bytes(bytes: &[u8], prefix: &str) -> (rest: Option<Vec<u8>>)
    ensures
        rest is Some <==> bytes_after(bytes@, prefix@) is Some,
        rest is Some ==> rest->0@ == bytes_after(bytes@, prefix@)->0,
{
    if bytes_start_with(bytes, prefix) {
        let length = prefix.as_bytes().len();
        let rest = copy_bytes(bytes, length, bytes.len());
        assert(rest@ =~= bytes@.skip(length as int));
        Some(rest)
    } else {
        None
    }
}

/// Whether all bytes are ASCII.
pub open spec fn ascii_bytes(bytes: Seq<u8>) -> bool {
    forall|i: int| 0 <= i < bytes.len() ==> bytes[i] < 128
}

/// The characters with the given ASCII codes.
pub open spec fn ascii_text(bytes: Seq<u8>) -> Seq<char> {
    Seq::new(bytes.len(), |i: int| bytes[i] as char)
}

/// The text with the given ASCII codes; none where a byte is not ASCII.
pub fn from_ascii(bytes: &[u8]) -> (text: Option<String>)
    ensures
        text.deep_view() == (if ascii_bytes(bytes@) {
            Some(ascii_text(bytes@))
        } else {
            None::<Seq<char>>
        }),
{
    let mut text = String::new();
    let mut i: usize = 0;
    while i < bytes.len()
        invariant
            i <= bytes.len(),
            ascii_bytes(bytes@.take(i as int)),
            text@ == ascii_text(bytes@.take(i as int)),
        decreases bytes.len() - i,
    {
        if bytes[i] >= 128 {
            return None;
        }
        text.push(bytes[i] as char);
        i += 1;
        assert(text@ =~= ascii_text(bytes@.take(i as int)));
    }
    assert(bytes@.take(i as int) =~= bytes@);
    Some(text)
}

/// Whether a text is empty.
pub fn is_blank(text: &str) -> (result: bool)
    ensures
        result == (text@.len() == 0),
{
    let result = same_text(text, "");
    proof {
        reveal_strlit("");
        if text@.len() == 0 {
            assert(text@ =~= ""@);
        }
    }
    result
}

/// Whether `texts` hold `text`.
pub fn contains_text(texts: &Vec<String>, text: &str) -> (found: bool)
    ensures
        found == texts.deep_view().contains(text@),
{
    let ghost all = texts.deep_view();
    let mut i: usize = 0;
    while i < texts.len()
        invariant
            i <= texts.len(),
            all == texts.deep_view(),
            forall|j: int| 0 <= j < i ==> all[j] != text@,
        decreases texts.len() - i,
    {
        if same_text(texts[i].as_str(), text) {
            assert(all[i as int] == text@);
            return true;
        }
        assert(all[i as int] == texts[i as int]@);
        i += 1;
    }
    false
}

/// The texts, which are in order, with one more in its place; a text that is there already is
/// not added again.
pub open spec fn insert_text(texts: Seq<Seq<char>>, text: Seq<char>) -> Seq<Seq<char>>
    decreases texts.len(),
{
    if texts.len() == 0 {
        seq![text]
    } else if texts.last() == text {
        texts
    } else if text_before(texts.last(), text) {
        texts.push(text)
    } else {
        insert_text(texts.drop_last(), text).push(texts.last())
    }
}

/// Puts a text in its place among texts that are in order, unless it is there already.
pub fn insert_sorted(texts: Vec<String>, text: &str) -> (inserted: Vec<String>)
    ensures
        inserted.deep_view() == insert_text(texts.deep_view(), text@),
    decreases texts.len(),
{
    let ghost all = texts.deep_view();
    let mut rest = texts;
    match rest.pop() {
        None => {
            let mut inserted = rest;
            push_text(&mut inserted, text);
            assert(inserted.deep_view() =~= seq![text@]);
            inserted
        },
        Some(last) => {
            assert(rest.deep_view() =~= all.drop_last());
            assert(last@ == all.last());
            if same_text(last.as_str(), text) {
                push_text(&mut rest, last.as_str());
                assert(rest.deep_view() =~= all);
                rest
            } else if is_text_before(last.as_str(), text) {
                push_text(&mut rest, last.as_str());
                assert(rest.deep_view() =~= all);
                push_text(&mut rest, text);
                rest
            } else {
                let mut inserted = insert_sorted(rest, text);
                push_text(&mut inserted, last.as_str());
                inserted
            }
        },
    }
}

/// A text that is put in its place is there, and with it all that was there before.
pub(crate) proof fn lemma_insert_text(texts: Seq<Seq<char>>, text: Seq<char>, other: Seq<char>)
    ensures
        insert_text(texts, text).contains(other) <==> texts.contains(other) || other == text,
    decreases texts.len(),
{
    let inserted = insert_text(texts, text);
    if texts.len() == 0 {
        assert(inserted[0] == text);
    } else if texts.last() == text {
        assert(texts[texts.len() - 1] == text);
    } else if text_before(texts.last(), text) {
        assert(inserted[texts.len() as int] == text);
        if texts.contains(other) {
            let k = choose|k: int| 0 <= k < texts.len() && texts[k] == other;
            assert(inserted[k] == other);
        }
        if inserted.contains(other) && other != text {
            let k = choose|k: int| 0 <= k < inserted.len() && inserted[k] == other;
            assert(texts[k] == other);
        }
    } else {
        let shorter = texts.drop_last();
        let before = insert_text(shorter, text);
        lemma_insert_text(shorter, text, other);
        if texts.contains(other) {
            let k = choose|k: int| 0 <= k < texts.len() && texts[k] == other;
            if k < shorter.len() {
                assert(shorter[k] == other);
                let j = choose|j: int| 0 <= j < before.len() && before[j] == other;
                assert(inserted[j] == other);
            } else {
                assert(inserted[inserted.len() - 1] == other);
            }
        }
        if other == text {
            let j = choose|j: int| 0 <= j < before.len() && before[j] == other;
            assert(inserted[j] == other);
        }
        if inserted.contains(other) {
            let k = choose|k: int| 0 <= k < inserted.len() && inserted[k] == other;
            if k < before.len() {
                assert(before[k] == other);
                if other != text {
                    let j = choose|j: int| 0 <= j < shorter.len() && shorter[j] == other;
                    assert(texts[j] == other);
                }
            } else {
                assert(texts[texts.len() - 1] == other);
            }
        }
    }
}

/// The numbers, which are in order, with one more in its place, unless it is there already.
pub open spec fn insert_number(numbers: Seq<u32>, number: u32) -> Seq<u32>
    decreases numbers.len(),
{
    if numbers.len() == 0 {
        seq![number]
    } else if numbers.last() == number {
        numbers
    } else if numbers.last() < number {
        numbers.push(number)
    } else {
        insert_number(numbers.drop_last(), number).push(numbers.last())
    }
}

/// Puts a number in its place among numbers that are in order, unless it is there already.
pub fn insert_ordered(numbers: Vec<u32>, number: u32) -> (inserted: Vec<u32>)
    ensures
        inserted@ == insert_number(numbers@, number),
    decreases numbers.len(),
{
    let ghost all = numbers@;
    let mut rest = numbers;
    match rest.pop() {
        None => {
            rest.push(number);
            assert(rest@ =~= seq![number]);
            rest
        },
        Some(last) => {
            assert(rest@ =~= all.drop_last());
            if last == number {
                rest.push(last);
                assert(rest@ =~= all);
                rest
            } else if last < number {
                rest.push(last);
                assert(rest@ =~= all);
                rest.push(number);
                rest
            } else {
                let mut inserted = insert_ordered(rest, number);
                inserted.push(last);
                inserted
            }
        },
    }
}

/// Whether `bytes` start with `prefix`.
pub fn has_prefix(bytes: &[u8], prefix: &[u8]) -> (result: bool)
    ensures
        result == prefix@.is_prefix_of(bytes@),
{
    if prefix.len() > bytes.len() {
        return false;
    }
    let start = copy_bytes(bytes, 0, prefix.len());
    same_bytes(prefix, start.as_slice())
}

/// A number reads back from its decimal digits.
pub(crate) proof fn lemma_decimal_reads_back(number: nat)
    ensures
        decimal_text(number).len() > 0,
        all_digits(decimal_text(number)),
        digits_value(decimal_text(number)) == number,
        forall|limit: nat| number <= limit ==> #[trigger] parse_unsigned(
            decimal_text(number),
            limit,
        ) == Some(number),
    decreases number,
{
    let digits = decimal_text(number);
    let digit = decimal_digit(number % 10);
    assert('0' <= digit <= '9' && digit as nat - '0' as nat == number % 10);
    if number < 10 {
        assert(digits.drop_last() =~= Seq::empty());
        assert(digits.last() == digit);
        assert(digits_value(digits.drop_last()) == 0);
    } else {
        lemma_decimal_reads_back(number / 10);
        assert(digits.drop_last() =~= decimal_text(number / 10));
        assert(digits.last() == digit);
        assert forall|i: int| 0 <= i < digits.len() implies '0' <= #[trigger] digits[i] <= '9' by {
            if i < digits.len() - 1 {
                assert(digits[i] == decimal_text(number / 10)[i]);
            }
        }
    }
    assert(digits[0] != '+') by {
        assert('0' <= digits[0] <= '9');
    }
    assert(unsigned_digits(digits) == digits);
}

/// Whether `part` stands somewhere in `text`.
pub open spec fn holds_text(text: Seq<char>, part: Seq<char>) -> bool {
    exists|i: int| 0 <= i <= text.len() && #[trigger] part.is_prefix_of(text.skip(i))
}

/// Whether `part` stands somewhere in `text`.
pub fn contains_part(text: &str, part: &str) -> (found: bool)
    ensures
        found == holds_text(text@, part@),
{
    let chars = to_chars(text);
    let mut i: usize = 0;
    while i <= chars.len()
        invariant
            i <= chars.len() + 1,
            chars@ == text@,
            forall|j: int| 0 <= j < i ==> !#[trigger] part@.is_prefix_of(text@.skip(j)),
        decreases chars.len() + 1 - i,
    {
        let rest = from_chars(&chars, i, chars.len());
        assert(rest@ =~= text@.skip(i as int));
        if starts_with(rest.as_str(), part) {
            assert(part@.is_prefix_of(text@.skip(i as int)));
            return true;
        }
        if i == chars.len() {
            return false;
        }
        i += 1;
    }
    false
}

/// The bytes of a text in UTF-8.
pub fn to_bytes(text: &str) -> (bytes: Vec<u8>)
    ensures
        bytes@ == encode_utf8(text@),
{
    let spelled = text.as_bytes();
    let bytes = copy_bytes(spelled, 0, spelled.len());
    assert(bytes@ =~= spelled@);
    bytes
}

/// Two texts with a separator between them have the pieces of the one and then those of the other.
pub(crate) proof fn lemma_split_joins(left: Seq<char>, separator: char, right: Seq<char>)
    ensures
        split_text(left.push(separator) + right, separator) == split_text(left, separator)
            + split_text(right, separator),
        split_text(right, separator).len() > 0,
    decreases right.len(),
{
    let whole = left.push(separator) + right;
    if right.len() == 0 {
        assert(whole =~= left.push(separator));
        assert(whole.drop_last() =~= left);
        assert(split_text(left, separator).push(Seq::<char>::empty()) =~= split_text(
            left,
            separator,
        ) + seq![Seq::<char>::empty()]);
    } else {
        lemma_split_joins(left, separator, right.drop_last());
        assert(whole.drop_last() =~= left.push(separator) + right.drop_last());
        assert(whole.last() == right.last());
        let before = split_text(right.drop_last(), separator);
        let front = split_text(left, separator);
        if right.last() == separator {
            assert((front + before).push(Seq::<char>::empty()) =~= front + before.push(
                Seq::<char>::empty(),
            ));
        } else {
            assert((front + before).drop_last().push((front + before).last().push(right.last()))
                =~= front + before.drop_last().push(before.last().push(right.last())));
        }
    }
}

/// Of two texts either one comes before the other, or they are the same.
pub(crate) proof fn lemma_text_total(left: Seq<char>, right: Seq<char>)
    ensures
        text_before(left, right) || text_before(right, left) || left == right,
        !(text_before(left, right) && text_before(right, left)),
        left == right ==> !text_before(left, right),
    decreases left.len(),
{
    if left.len() > 0 && right.len() > 0 && left[0] == right[0] {
        lemma_text_total(left.skip(1), right.skip(1));
        if left.skip(1) == right.skip(1) {
            assert(left =~= seq![left[0]] + left.skip(1));
            assert(right =~= seq![right[0]] + right.skip(1));
        }
    } else if left.len() == 0 && right.len() == 0 {
        assert(left =~= right);
    }
}

/// The order of texts is transitive.
pub(crate) proof fn lemma_text_transitive(first: Seq<char>, second: Seq<char>, third: Seq<char>)
    requires
        text_before(first, second),
        text_before(second, third),
    ensures
        text_before(first, third),
    decreases first.len(),
{
    if first.len() > 0 && first[0] == second[0] && second[0] == third[0] {
        lemma_text_transitive(first.skip(1), second.skip(1), third.skip(1));
    }
}

/// Whether a byte is one of two separators.
pub open spec fn separates(byte: u8, first: u8, second: u8) -> bool {
    byte == first || byte == second
}

pub(crate) proof fn lemma_split_some(bytes: Seq<u8>, first: u8, second: u8)
    ensures
        split_bytes(bytes, first, second).len() > 0,
    decreases bytes.len(),
{
    if bytes.len() > 0 {
        lemma_split_some(bytes.drop_last(), first, second);
    }
}

/// Bytes that end in a separator are taken apart by themselves.
pub(crate) proof fn lemma_split_behind(left: Seq<u8>, right: Seq<u8>, first: u8, second: u8)
    requires
        left.len() > 0,
        separates(left.last(), first, second),
    ensures
        split_bytes(left + right, first, second) == split_bytes(left, first, second).drop_last()
            + split_bytes(right, first, second),
    decreases right.len(),
{
    let before = split_bytes(left, first, second);
    lemma_split_some(left, first, second);
    if right.len() == 0 {
        assert(left + right =~= left);
        assert(before.last() == Seq::<u8>::empty());
        assert(before =~= before.drop_last() + seq![Seq::<u8>::empty()]);
    } else {
        let shorter = right.drop_last();
        lemma_split_behind(left, shorter, first, second);
        lemma_split_some(shorter, first, second);
        assert((left + right).drop_last() =~= left + shorter);
        assert((left + right).last() == right.last());
        let pieces = split_bytes(shorter, first, second);
        let all = before.drop_last() + pieces;
        assert(all.last() == pieces.last());
        assert(all.drop_last() =~= before.drop_last() + pieces.drop_last());
        if separates(right.last(), first, second) {
            assert(all.push(Seq::empty()) =~= before.drop_last() + pieces.push(Seq::empty()));
        } else {
            assert(all.drop_last().push(all.last().push(right.last())) =~= before.drop_last()
                + pieces.drop_last().push(pieces.last().push(right.last())));
        }
    }
}

/// Bytes without a separator are one piece, and with one behind them a piece and an empty one.
pub(crate) proof fn lemma_split_piece(piece: Seq<u8>, end: u8, first: u8, second: u8)
    requires
        forall|i: int| 0 <= i < piece.len() ==> !separates(#[trigger] piece[i], first, second),
        separates(end, first, second),
    ensures
        split_bytes(piece, first, second) == seq![piece],
        split_bytes(piece.push(end), first, second) == seq![piece, Seq::<u8>::empty()],
    decreases piece.len(),
{
    if piece.len() > 0 {
        let shorter = piece.drop_last();
        assert forall|i: int| 0 <= i < shorter.len() implies !separates(
            #[trigger] shorter[i],
            first,
            second,
        ) by {
            assert(shorter[i] == piece[i]);
        }
        lemma_split_piece(shorter, end, first, second);
        assert(!separates(piece[piece.len() - 1], first, second));
        assert(seq![shorter].drop_last() =~= Seq::<Seq<u8>>::empty());
        assert(shorter.push(piece.last()) =~= piece);
        assert(split_bytes(piece, first, second) =~= seq![piece]);
    } else {
        assert(piece =~= Seq::<u8>::empty());
    }
    assert(split_bytes(piece, first, second) =~= seq![piece]);
    assert(piece.push(end).drop_last() =~= piece);
    assert(piece.push(end).last() == end);
    assert(seq![piece].push(Seq::<u8>::empty()) =~= seq![piece, Seq::<u8>::empty()]);
}

/// A piece with a separator behind it comes before the rest.
pub(crate) proof fn lemma_split_first(
    piece: Seq<u8>,
    end: u8,
    rest: Seq<u8>,
    first: u8,
    second: u8,
)
    requires
        forall|i: int| 0 <= i < piece.len() ==> !separates(#[trigger] piece[i], first, second),
        separates(end, first, second),
    ensures
        split_bytes(piece.push(end) + rest, first, second) == seq![piece] + split_bytes(
            rest,
            first,
            second,
        ),
{
    lemma_split_piece(piece, end, first, second);
    lemma_split_behind(piece.push(end), rest, first, second);
    assert(seq![piece, Seq::<u8>::empty()].drop_last() =~= seq![piece]);
}

/// Bytes do not start with bytes that start otherwise.
pub(crate) proof fn lemma_starts_otherwise(prefix: Seq<u8>, bytes: Seq<u8>)
    requires
        prefix.len() > 0,
        bytes.len() == 0 || prefix[0] != bytes[0],
    ensures
        !prefix.is_prefix_of(bytes),
{
    if prefix.is_prefix_of(bytes) {
        assert(prefix =~= bytes.take(prefix.len() as int));
        assert(prefix[0] == bytes.take(prefix.len() as int)[0]);
    }
}

/// Bytes start with what they are put behind.
pub(crate) proof fn lemma_starts_with(prefix: Seq<u8>, rest: Seq<u8>)
    ensures
        prefix.is_prefix_of(prefix + rest),
        (prefix + rest).skip(prefix.len() as int) == rest,
{
    assert((prefix + rest).take(prefix.len() as int) =~= prefix);
    assert((prefix + rest).skip(prefix.len() as int) =~= rest);
}

} // verus!
