//! Text as sequences of characters: searching, and numbers in decimal notation.
//!
//! Contracts in this crate speak of a string through its view, a `Seq<char>`.
//! The functions here work on `Vec<char>` where they need to index, and on
//! `String` where they build text.

use vstd::prelude::*;

use crate::trusted::unicode_whitespace;

verus! {

/// `needle` stands in `hay` at position `at`.
pub open spec fn occurs_at(hay: Seq<char>, needle: Seq<char>, at: int) -> bool {
    &&& 0 <= at
    &&& at + needle.len() <= hay.len()
    &&& hay.subrange(at, at + needle.len()) == needle
}

/// `needle` stands somewhere in `hay`. The empty text stands in every text.
pub open spec fn contains_text(hay: Seq<char>, needle: Seq<char>) -> bool {
    exists|at: int| occurs_at(hay, needle, at)
}

/// At least one of `words` stands somewhere in `hay`.
pub open spec fn contains_any(hay: Seq<char>, words: Seq<Seq<char>>) -> bool {
    exists|k: int| 0 <= k < words.len() && #[trigger] contains_text(hay, words[k])
}

/// `c` is one of the ten characters `0` to `9`.
pub open spec fn is_decimal_digit(c: char) -> bool {
    '0' <= c && c <= '9'
}

/// Some character of `text` is a decimal digit.
pub open spec fn has_decimal_digit(text: Seq<char>) -> bool {
    exists|i: int| 0 <= i < text.len() && is_decimal_digit(#[trigger] text[i])
}

/// `c` is one of the characters of `set`.
pub open spec fn is_one_of(c: char, set: Seq<char>) -> bool {
    exists|i: int| 0 <= i < set.len() && #[trigger] set[i] == c
}

/// Some character of `text` is one of the characters of `set`.
pub open spec fn has_any_of(text: Seq<char>, set: Seq<char>) -> bool {
    exists|i: int| 0 <= i < text.len() && is_one_of(#[trigger] text[i], set)
}

/// The length of a text in bytes, encoded as UTF-8.
pub open spec fn utf8_len(text: Seq<char>) -> nat {
    vstd::utf8::encode_utf8(text).len()
}

/// The views of a sequence of strings.
pub open spec fn texts(strings: Seq<String>) -> Seq<Seq<char>> {
    strings.map_values(|s: String| s@)
}

/// Every character of the text is white space; so it is with the empty text.
pub open spec fn is_blank(text: Seq<char>) -> bool {
    forall|i: int| 0 <= i < text.len() ==> unicode_whitespace(#[trigger] text[i])
}

/// What is known of the words of a text when its first `n` characters have
/// been read: the words that have ended, and the part that has been read of
/// a word that has not. White space ends a word and belongs to none.
pub open spec fn words_read(text: Seq<char>, n: nat) -> (Seq<Seq<char>>, Seq<char>)
    decreases n,
{
    if n == 0 {
        (Seq::empty(), Seq::empty())
    } else {
        let (ended, open) = words_read(text, (n - 1) as nat);
        let c = text[n - 1];
        if !unicode_whitespace(c) {
            (ended, open.push(c))
        } else if open.len() > 0 {
            (ended.push(open), Seq::empty())
        } else {
            (ended, open)
        }
    }
}

/// The words of a text: its parts between runs of white space, in order.
pub open spec fn words(text: Seq<char>) -> Seq<Seq<char>> {
    let (ended, open) = words_read(text, text.len());
    if open.len() > 0 {
        ended.push(open)
    } else {
        ended
    }
}

/// A word has a character and no white space.
pub open spec fn is_word(word: Seq<char>) -> bool {
    word.len() > 0 && forall|i: int| 0 <= i < word.len() ==> !unicode_whitespace(#[trigger] word[i])
}

/// Whatever part of a text has been read, the words that have ended are
/// words, and the part of the open word holds no white space. There is
/// neither an ended word nor a part of one exactly if all that was read is
/// white space.
pub proof fn lemma_words_read(text: Seq<char>, n: nat)
    requires
        n <= text.len(),
    ensures
        forall|i: int|
            0 <= i < words_read(text, n).0.len() ==> is_word(#[trigger] words_read(text, n).0[i]),
        forall|i: int|
            0 <= i < words_read(text, n).1.len() ==> !unicode_whitespace(
                #[trigger] words_read(text, n).1[i],
            ),
        (words_read(text, n).0.len() == 0 && words_read(text, n).1.len() == 0) <==> is_blank(
            text.take(n as int),
        ),
    decreases n,
{
    if n > 0 {
        let before = (n - 1) as nat;
        lemma_words_read(text, before);
        let read = text.take(n as int);
        let read_before = text.take(before as int);
        assert(read.drop_last() =~= read_before);
        assert(read.last() == text[n - 1]);
        if is_blank(read) {
            assert forall|i: int| 0 <= i < read_before.len() implies unicode_whitespace(
                #[trigger] read_before[i],
            ) by {
                assert(read_before[i] == read[i]);
            }
        }
        if is_blank(read_before) && unicode_whitespace(text[n - 1]) {
            assert forall|i: int| 0 <= i < read.len() implies unicode_whitespace(
                #[trigger] read[i],
            ) by {
                if i < read_before.len() {
                    assert(read[i] == read_before[i]);
                }
            }
        }
        if !unicode_whitespace(text[n - 1]) {
            assert(!unicode_whitespace(read[n - 1]));
        }
    }
}

/// Every word of a text is a word, and a text has no word exactly if it is
/// blank.
pub proof fn lemma_words(text: Seq<char>)
    ensures
        forall|i: int| 0 <= i < words(text).len() ==> is_word(#[trigger] words(text)[i]),
        words(text).len() == 0 <==> is_blank(text),
{
    lemma_words_read(text, text.len());
    assert(text.take(text.len() as int) =~= text);
}

/// The length of a string in bytes.
pub fn byte_length(s: &str) -> (n: usize)
    ensures
        n == utf8_len(s@),
{
    s.as_bytes().len()
}

/// The characters of a string, in order.
pub fn chars_of(s: &str) -> (v: Vec<char>)
    ensures
        v@ == s@,
{
    broadcast use vstd::string::group_string_axioms;

    let mut v: Vec<char> = Vec::new();
    for c in it: s.chars()
        invariant
            it.seq() == s@,
            v@ == s@.take(it.index()),
    {
        v.push(c);
    }
    v
}

/// The string made of the given characters.
pub fn string_of(chars: &Vec<char>) -> (s: String)
    ensures
        s@ == chars@,
{
    let mut s = String::new();
    let mut i: usize = 0;
    while i < chars.len()
        invariant
            i <= chars.len(),
            s@ == chars@.take(i as int),
        decreases chars.len() - i,
    {
        s.push(chars[i]);
        i = i + 1;
    }
    s
}

/// Whether `needle` stands in `hay` at `at`.
pub fn matches_at(hay: &Vec<char>, needle: &Vec<char>, at: usize) -> (found: bool)
    ensures
        found == occurs_at(hay@, needle@, at as int),
{
    if at > hay.len() || needle.len() > hay.len() - at {
        return false;
    }
    let mut j: usize = 0;
    while j < needle.len()
        invariant
            j <= needle.len(),
            at + needle.len() <= hay.len(),
            forall|k: int| 0 <= k < j ==> hay@[at + k] == needle@[k],
        decreases needle.len() - j,
    {
        if hay[at + j] != needle[j] {
            return false;
        }
        j = j + 1;
    }
    assert(hay@.subrange(at as int, at + needle.len()) =~= needle@);
    true
}

/// The first position at which `needle` stands in `hay`, if there is one.
pub fn find_text(hay: &Vec<char>, needle: &Vec<char>) -> (found: Option<usize>)
    ensures
        match found {
            Some(at) => occurs_at(hay@, needle@, at as int) && forall|earlier: int|
                0 <= earlier < at ==> !occurs_at(hay@, needle@, earlier),
            None => !contains_text(hay@, needle@),
        },
{
    if needle.len() > hay.len() {
        return None;
    }
    let last: usize = hay.len() - needle.len();
    let mut at: usize = 0;
    loop
        invariant
            at <= last,
            last == hay.len() - needle.len(),
            needle.len() <= hay.len(),
            forall|earlier: int| 0 <= earlier < at ==> !occurs_at(hay@, needle@, earlier),
        decreases last - at,
    {
        if matches_at(hay, needle, at) {
            return Some(at);
        }
        if at == last {
            return None;
        }
        at = at + 1;
    }
}

/// The words of a string.
pub fn split_words(text: &str) -> (found: Vec<String>)
    ensures
        texts(found@) == words(text@),
{
    let chars = chars_of(text);
    let mut found: Vec<String> = Vec::new();
    let mut open = String::new();
    let mut i: usize = 0;
    while i < chars.len()
        invariant
            i <= chars.len(),
            chars@ == text@,
            texts(found@) == words_read(text@, i as nat).0,
            open@ == words_read(text@, i as nat).1,
        decreases chars.len() - i,
    {
        let c = chars[i];
        if !c.is_whitespace() {
            open.push(c);
        } else if !open.as_str().is_empty() {
            found.push(open);
            open = String::new();
        }
        i = i + 1;
    }
    if !open.as_str().is_empty() {
        found.push(open);
    }
    found
}

/// Whether every character of a text is white space.
pub fn all_whitespace(text: &Vec<char>) -> (blank: bool)
    ensures
        blank == is_blank(text@),
{
    let mut i: usize = 0;
    while i < text.len()
        invariant
            i <= text.len(),
            forall|j: int| 0 <= j < i ==> unicode_whitespace(#[trigger] text@[j]),
        decreases text.len() - i,
    {
        if !text[i].is_whitespace() {
            return false;
        }
        i = i + 1;
    }
    true
}

/// Whether `needle` stands somewhere in `hay`.
pub fn contains(hay: &Vec<char>, needle: &str) -> (found: bool)
    ensures
        found == contains_text(hay@, needle@),
{
    let needle_chars = chars_of(needle);
    find_text(hay, &needle_chars).is_some()
}

/// Whether one of `words` stands somewhere in `hay`.
pub fn contains_any_of(hay: &Vec<char>, words: &Vec<String>) -> (found: bool)
    ensures
        found == contains_any(hay@, texts(words@)),
{
    let mut k: usize = 0;
    while k < words.len()
        invariant
            k <= words.len(),
            forall|j: int| 0 <= j < k ==> !contains_text(hay@, #[trigger] texts(words@)[j]),
        decreases words.len() - k,
    {
        if contains(hay, words[k].as_str()) {
            assert(contains_text(hay@, texts(words@)[k as int]));
            return true;
        }
        k = k + 1;
    }
    false
}

/// Whether `c` is a decimal digit.
pub fn is_digit(c: char) -> (digit: bool)
    ensures
        digit == is_decimal_digit(c),
{
    '0' <= c && c <= '9'
}

/// Whether some character of `text` is a decimal digit.
pub fn has_digit(text: &Vec<char>) -> (found: bool)
    ensures
        found == has_decimal_digit(text@),
{
    let mut i: usize = 0;
    while i < text.len()
        invariant
            i <= text.len(),
            forall|j: int| 0 <= j < i ==> !is_decimal_digit(#[trigger] text@[j]),
        decreases text.len() - i,
    {
        if is_digit(text[i]) {
            return true;
        }
        i = i + 1;
    }
    false
}

/// Whether `c` is one of the characters of `set`.
pub fn char_in(c: char, set: &Vec<char>) -> (found: bool)
    ensures
        found == is_one_of(c, set@),
{
    let mut i: usize = 0;
    while i < set.len()
        invariant
            i <= set.len(),
            forall|j: int| 0 <= j < i ==> set@[j] != c,
        decreases set.len() - i,
    {
        if set[i] == c {
            return true;
        }
        i = i + 1;
    }
    false
}

/// The character for a digit's value.
pub open spec fn digit_char(value: int) -> char {
    if value == 0 {
        '0'
    } else if value == 1 {
        '1'
    } else if value == 2 {
        '2'
    } else if value == 3 {
        '3'
    } else if value == 4 {
        '4'
    } else if value == 5 {
        '5'
    } else if value == 6 {
        '6'
    } else if value == 7 {
        '7'
    } else if value == 8 {
        '8'
    } else {
        '9'
    }
}

/// The value of a decimal digit.
pub open spec fn digit_value(c: char) -> int {
    c as int - '0' as int
}

/// A number in decimal notation, without sign or leading zeros.
pub open spec fn decimal(n: nat) -> Seq<char>
    decreases n,
{
    if n < 10 {
        seq![digit_char(n as int)]
    } else {
        decimal(n / 10).push(digit_char((n % 10) as int))
    }
}

/// The number that a run of decimal digits denotes; leading zeros count for
/// nothing and the empty run denotes zero.
pub open spec fn digits_value(digits: Seq<char>) -> nat
    decreases digits.len(),
{
    if digits.len() == 0 {
        0
    } else {
        (digits_value(digits.drop_last()) * 10 + digit_value(digits.last())) as nat
    }
}

/// Every character of `text` is a decimal digit.
pub open spec fn all_decimal_digits(text: Seq<char>) -> bool {
    forall|i: int| 0 <= i < text.len() ==> is_decimal_digit(#[trigger] text[i])
}

/// The digits of a number written with an optional leading plus sign.
pub open spec fn unsigned_digits(text: Seq<char>) -> Seq<char> {
    if text.len() > 0 && text[0] == '+' {
        text.skip(1)
    } else {
        text
    }
}

/// The number that `text` denotes as a `usize`: an optional plus sign, then
/// one digit or more and nothing else, of a value that fits. `None` for any
/// other text.
pub open spec fn parsed_usize(text: Seq<char>) -> Option<usize> {
    let digits = unsigned_digits(text);
    if digits.len() > 0 && all_decimal_digits(digits) && digits_value(digits) <= usize::MAX {
        Some(digits_value(digits) as usize)
    } else {
        None
    }
}

/// The truth value that `text` denotes: `true` or `false`, spelled so.
pub open spec fn parsed_bool(text: Seq<char>) -> Option<bool> {
    if text == "true"@ {
        Some(true)
    } else if text == "false"@ {
        Some(false)
    } else {
        None
    }
}

fn char_of_digit(value: usize) -> (c: char)
    requires
        value < 10,
    ensures
        c == digit_char(value as int),
{
    if value == 0 {
        '0'
    } else if value == 1 {
        '1'
    } else if value == 2 {
        '2'
    } else if value == 3 {
        '3'
    } else if value == 4 {
        '4'
    } else if value == 5 {
        '5'
    } else if value == 6 {
        '6'
    } else if value == 7 {
        '7'
    } else if value == 8 {
        '8'
    } else {
        '9'
    }
}

/// A number in decimal notation.
pub fn decimal_string(n: usize) -> (s: String)
    ensures
        s@ == decimal(n as nat),
{
    // The digits from the last to the second, then the first.
    let mut low: Vec<char> = Vec::new();
    let mut rest: usize = n;
    while rest >= 10
        invariant
            decimal(n as nat) == decimal(rest as nat) + low@.reverse(),
        decreases rest,
    {
        low.push(char_of_digit(rest % 10));
        rest = rest / 10;
    }
    let mut s = String::new();
    s.push(char_of_digit(rest));
    let mut i: usize = low.len();
    while i > 0
        invariant
            i <= low.len(),
            s@ == decimal(rest as nat) + low@.reverse().take(low.len() - i),
        decreases i,
    {
        i = i - 1;
        s.push(low[i]);
    }
    s
}

/// Reads a `usize` in decimal notation, as `parsed_usize` says.
pub fn parse_usize(text: &str) -> (parsed: Option<usize>)
    ensures
        parsed == parsed_usize(text@),
{
    let chars = chars_of(text);
    let start: usize = if chars.len() > 0 && chars[0] == '+' {
        1
    } else {
        0
    };
    let ghost digits = unsigned_digits(chars@);
    if start == chars.len() {
        return None;
    }
    let mut value: usize = 0;
    let mut i: usize = start;
    while i < chars.len()
        invariant
            start <= i <= chars.len(),
            chars@ == text@,
            digits == unsigned_digits(text@),
            digits == chars@.skip(start as int),
            all_decimal_digits(digits.take(i - start)),
            value == digits_value(digits.take(i - start)),
        decreases chars.len() - i,
    {
        let c = chars[i];
        let ghost seen = digits.take(i - start);
        let ghost next = digits.take(i - start + 1);
        assert(next.drop_last() =~= seen);
        assert(next.last() == c);
        if !is_digit(c) {
            return None;
        }
        let d: usize = (c as u32 - '0' as u32) as usize;
        let scaled = match value.checked_mul(10) {
            Some(scaled) => scaled,
            None => {
                proof {
                    if all_decimal_digits(digits) {
                        lemma_digits_value_grows(digits, i - start + 1);
                    }
                }
                return None;
            },
        };
        value = match scaled.checked_add(d) {
            Some(sum) => sum,
            None => {
                proof {
                    if all_decimal_digits(digits) {
                        lemma_digits_value_grows(digits, i - start + 1);
                    }
                }
                return None;
            },
        };
        assert forall|j: int| 0 <= j < next.len() implies is_decimal_digit(#[trigger] next[j]) by {
            if j < seen.len() {
                assert(next[j] == seen[j]);
            }
        }
        i = i + 1;
    }
    assert(digits.take(i - start) =~= digits);
    Some(value)
}

/// A longer run of digits denotes no less than any of its prefixes.
pub proof fn lemma_digits_value_grows(digits: Seq<char>, n: int)
    requires
        0 <= n <= digits.len(),
        all_decimal_digits(digits),
    ensures
        digits_value(digits.take(n)) <= digits_value(digits),
    decreases digits.len() - n,
{
    if n < digits.len() {
        let longer = digits.take(n + 1);
        assert(longer.drop_last() =~= digits.take(n));
        assert(is_decimal_digit(digits[n]));
        assert(longer.last() == digits[n]);
        lemma_digits_value_grows(digits, n + 1);
    } else {
        assert(digits.take(n) =~= digits);
    }
}

/// Reads a truth value, as `parsed_bool` says.
pub fn parse_bool(text: &str) -> (parsed: Option<bool>)
    ensures
        parsed == parsed_bool(text@),
{
    let chars = chars_of(text);
    let yes = chars_of("true");
    let no = chars_of("false");
    if same_chars(&chars, &yes) {
        Some(true)
    } else if same_chars(&chars, &no) {
        Some(false)
    } else {
        None
    }
}

/// Whether two texts are the same.
pub fn same_chars(a: &Vec<char>, b: &Vec<char>) -> (same: bool)
    ensures
        same == (a@ == b@),
{
    if a.len() != b.len() {
        return false;
    }
    let found = matches_at(a, b, 0);
    assert(a@.subrange(0, b.len() as int) =~= a@);
    found
}

} // verus!
