//! Text as sequences of characters: the handful of string operations that the
//! parsers and message builders of this crate need, each with its meaning
//! stated over `Seq<char>`.
use vstd::prelude::*;
use vstd::string::*;

verus! {

/// `String::push`: appends the given character to the end of the string.
pub assume_specification[ std::string::String::push ](target: &mut std::string::String, added: char)
    ensures
        final(target)@ == old(target)@.push(added),
;

// ── Characters ──────────────────────────────────────────────────────────

/// The characters with the Unicode property `White_Space`.
pub open spec fn is_space(c: char) -> bool {
    ||| '\u{9}' <= c <= '\u{d}'
    ||| c == ' '
    ||| c == '\u{85}'
    ||| c == '\u{a0}'
    ||| c == '\u{1680}'
    ||| '\u{2000}' <= c <= '\u{200a}'
    ||| c == '\u{2028}'
    ||| c == '\u{2029}'
    ||| c == '\u{202f}'
    ||| c == '\u{205f}'
    ||| c == '\u{3000}'
}

/// Whether the character is whitespace.
pub fn char_is_space(c: char) -> (space: bool)
    ensures
        space == is_space(c),
{
    ('\u{9}' <= c && c <= '\u{d}') || c == ' ' || c == '\u{85}' || c == '\u{a0}' || c == '\u{1680}'
        || ('\u{2000}' <= c && c <= '\u{200a}') || c == '\u{2028}' || c == '\u{2029}'
        || c == '\u{202f}' || c == '\u{205f}' || c == '\u{3000}'
}

/// The ten ASCII digits.
pub open spec fn is_digit(c: char) -> bool {
    '0' <= c <= '9'
}

/// Whether the character is an ASCII digit.
pub fn char_is_digit(c: char) -> (digit: bool)
    ensures
        digit == is_digit(c),
{
    '0' <= c && c <= '9'
}

/// The character with an ASCII capital made small; every other one unchanged.
pub open spec fn ascii_lower(c: char) -> char {
    if 'A' <= c <= 'Z' {
        ((c as u8) + 32u8) as char
    } else {
        c
    }
}

/// Makes an ASCII capital small.
pub fn char_ascii_lower(c: char) -> (lower: char)
    ensures
        lower == ascii_lower(c),
{
    if 'A' <= c && c <= 'Z' {
        ((c as u8) + 32u8) as char
    } else {
        c
    }
}

// ── Conversions and comparisons ─────────────────────────────────────────

/// The characters of a text that may be missing.
pub open spec fn optional(text: Option<&str>) -> Option<Seq<char>> {
    match text {
        Some(text) => Some(text@),
        None => None,
    }
}

/// The characters of a string that may be missing.
pub open spec fn optional_string(text: Option<String>) -> Option<Seq<char>> {
    match text {
        Some(text) => Some(text@),
        None => None,
    }
}

/// The characters of each of several strings.
pub open spec fn strings(parts: Seq<String>) -> Seq<Seq<char>> {
    parts.map_values(|part: String| part@)
}

/// The characters of a string slice, in order.
pub fn chars_of(text: &str) -> (chars: Vec<char>)
    ensures
        chars@ == text@,
{
    let mut chars: Vec<char> = Vec::new();
    for c in it: text.chars()
        invariant
            chars@ == it.seq().take(it.index() as int),
            it.seq() == text@,
    {
        chars.push(c);
    }
    assert(text@.take(text@.len() as int) == text@);
    chars
}

/// The string that holds the given characters.
pub fn text_of(chars: &[char]) -> (text: String)
    ensures
        text@ == chars@,
{
    let mut text = String::new();
    let mut i: usize = 0;
    while i < chars.len()
        invariant
            i <= chars.len(),
            text@ == chars@.take(i as int),
        decreases chars.len() - i,
    {
        text.push(chars[i]);
        i += 1;
    }
    assert(chars@.take(chars@.len() as int) == chars@);
    text
}

/// The characters from `from` up to but without `to`.
pub fn chars_between(chars: &[char], from: usize, to: usize) -> (part: Vec<char>)
    requires
        from <= to <= chars.len(),
    ensures
        part@ == chars@.subrange(from as int, to as int),
{
    let mut part: Vec<char> = Vec::new();
    let mut i: usize = from;
    while i < to
        invariant
            from <= i <= to <= chars.len(),
            part@ == chars@.subrange(from as int, i as int),
        decreases to - i,
    {
        part.push(chars[i]);
        i += 1;
    }
    part
}

/// Whether two strings hold the same characters.
pub fn same_text(a: &str, b: &str) -> (same: bool)
    ensures
        same == (a@ == b@),
{
    a.to_owned() == b.to_owned()
}

/// Whether the string begins with the given prefix.
pub fn starts_with(text: &str, prefix: &str) -> (starts: bool)
    ensures
        starts == prefix@.is_prefix_of(text@),
{
    let text_chars = chars_of(text);
    let prefix_chars = chars_of(prefix);
    if prefix_chars.len() > text_chars.len() {
        return false;
    }
    let mut i: usize = 0;
    while i < prefix_chars.len()
        invariant
            i <= prefix_chars.len() <= text_chars.len(),
            prefix_chars@ == prefix@,
            text_chars@ == text@,
            forall|k: int| 0 <= k < i ==> prefix@[k] == text@[k],
        decreases prefix_chars.len() - i,
    {
        if prefix_chars[i] != text_chars[i] {
            assert(text@.subrange(0, prefix@.len() as int)[i as int] == text@[i as int]);
            return false;
        }
        i += 1;
    }
    assert(prefix@ =~= text@.subrange(0, prefix@.len() as int));
    true
}

/// The order of strings: by the first character in which they differ, a proper
/// prefix before the longer string.
pub open spec fn text_le(a: Seq<char>, b: Seq<char>) -> bool {
    text_le_from(a, b, 0)
}

/// The order of two strings whose first `i` characters agree.
pub open spec fn text_le_from(a: Seq<char>, b: Seq<char>, i: int) -> bool
    decreases a.len() - i,
{
    if i >= a.len() {
        true
    } else if i >= b.len() {
        false
    } else if a[i] != b[i] {
        a[i] < b[i]
    } else {
        text_le_from(a, b, i + 1)
    }
}

/// Compares two strings character by character.
pub fn text_at_most(a: &str, b: &str) -> (le: bool)
    ensures
        le == text_le(a@, b@),
{
    let a_chars = chars_of(a);
    let b_chars = chars_of(b);
    let mut i: usize = 0;
    while i < a_chars.len()
        invariant
            i <= a_chars.len(),
            a_chars@ == a@,
            b_chars@ == b@,
            text_le(a@, b@) == text_le_from(a@, b@, i as int),
        decreases a_chars.len() - i,
    {
        if i >= b_chars.len() {
            return false;
        }
        if a_chars[i] != b_chars[i] {
            return a_chars[i] < b_chars[i];
        }
        i += 1;
    }
    true
}

/// The order of strings is total.
pub proof fn lemma_text_le_total(a: Seq<char>, b: Seq<char>, i: int)
    requires
        0 <= i,
    ensures
        text_le_from(a, b, i) || text_le_from(b, a, i),
    decreases a.len() - i,
{
    if i < a.len() && i < b.len() && a[i] == b[i] {
        lemma_text_le_total(a, b, i + 1);
    }
}

/// The order of strings is transitive.
pub proof fn lemma_text_le_transitive(a: Seq<char>, b: Seq<char>, c: Seq<char>, i: int)
    requires
        0 <= i,
        text_le_from(a, b, i),
        text_le_from(b, c, i),
    ensures
        text_le_from(a, c, i),
    decreases a.len() - i,
{
    if i < a.len() && i < b.len() && i < c.len() && a[i] == b[i] && b[i] == c[i] {
        lemma_text_le_transitive(a, b, c, i + 1);
    }
}

// ── Searching ───────────────────────────────────────────────────────────

/// Whether `pattern` stands in `text` at position `at`.
pub open spec fn occurs_at(text: Seq<char>, pattern: Seq<char>, at: int) -> bool {
    &&& 0 <= at
    &&& at + pattern.len() <= text.len()
    &&& text.subrange(at, at + pattern.len()) == pattern
}

/// Whether `pattern` stands anywhere in `text`.
pub open spec fn contains_text(text: Seq<char>, pattern: Seq<char>) -> bool {
    find_text(text, pattern, 0) is Some
}

/// The first position from `from` on at which `pattern` stands in `text`.
pub open spec fn find_text(text: Seq<char>, pattern: Seq<char>, from: int) -> Option<int>
    decreases text.len() + 1 - from,
{
    if from + pattern.len() > text.len() {
        None
    } else if occurs_at(text, pattern, from) {
        Some(from)
    } else {
        find_text(text, pattern, from + 1)
    }
}

/// What `find_text` finds is the first occurrence, and it finds one wherever there is one.
pub proof fn lemma_find_text(text: Seq<char>, pattern: Seq<char>, from: int)
    requires
        0 <= from,
    ensures
        find_text(text, pattern, from) matches Some(at) ==> from <= at && occurs_at(
            text,
            pattern,
            at,
        ) && forall|k: int| from <= k < at ==> !occurs_at(text, pattern, k),
        find_text(text, pattern, from) is None ==> forall|k: int|
            from <= k ==> !occurs_at(text, pattern, k),
    decreases text.len() + 1 - from,
{
    if from + pattern.len() <= text.len() && !occurs_at(text, pattern, from) {
        lemma_find_text(text, pattern, from + 1);
    }
}

/// Finds the first occurrence of a pattern among the characters.
pub fn find(text: &[char], pattern: &[char]) -> (found: Option<usize>)
    ensures
        match found {
            Some(at) => find_text(text@, pattern@, 0) == Some(at as int) && at + pattern.len()
                <= text.len(),
            None => find_text(text@, pattern@, 0) is None,
        },
{
    let mut at: usize = 0;
    while pattern.len() <= text.len() && at <= text.len() - pattern.len()
        invariant
            at <= text.len() + 1,
            find_text(text@, pattern@, 0) == find_text(text@, pattern@, at as int),
        decreases text.len() + 1 - at,
    {
        let mut i: usize = 0;
        while i < pattern.len() && text[at + i] == pattern[i]
            invariant
                i <= pattern.len(),
                at + pattern.len() <= text.len(),
                forall|k: int| 0 <= k < i ==> text@[at + k] == pattern@[k],
            decreases pattern.len() - i,
        {
            i += 1;
        }
        if i == pattern.len() {
            assert(text@.subrange(at as int, at + pattern@.len()) =~= pattern@);
            return Some(at);
        }
        proof {
            if occurs_at(text@, pattern@, at as int) {
                assert(text@.subrange(at as int, at + pattern@.len())[i as int] == text@[at + i]);
            }
        }
        if at == text.len() {
            return None;
        }
        at += 1;
    }
    None
}

/// Whether the string contains the pattern.
pub fn contains(text: &str, pattern: &str) -> (found: bool)
    ensures
        found == contains_text(text@, pattern@),
{
    let text_chars = chars_of(text);
    let pattern_chars = chars_of(pattern);
    find(&text_chars, &pattern_chars).is_some()
}

/// Whether the characters contain the given one.
pub fn contains_char(chars: &[char], c: char) -> (found: bool)
    ensures
        found == chars@.contains(c),
{
    let mut i: usize = 0;
    while i < chars.len()
        invariant
            i <= chars.len(),
            forall|k: int| 0 <= k < i ==> chars@[k] != c,
        decreases chars.len() - i,
    {
        if chars[i] == c {
            assert(chars@[i as int] == c);
            return true;
        }
        i += 1;
    }
    false
}

// ── Splitting and trimming ──────────────────────────────────────────────

/// The texts of a list of character vectors.
pub open spec fn texts(parts: Seq<Vec<char>>) -> Seq<Seq<char>> {
    parts.map_values(|part: Vec<char>| part@)
}

/// The first position from `from` on that is whitespace or the end.
pub open spec fn token_end(text: Seq<char>, from: int) -> int
    decreases text.len() - from,
{
    if from >= text.len() || is_space(text[from]) {
        from
    } else {
        token_end(text, from + 1)
    }
}

/// A run of characters ends within the text.
pub proof fn lemma_token_end(text: Seq<char>, from: int)
    requires
        0 <= from <= text.len(),
    ensures
        from <= token_end(text, from) <= text.len(),
    decreases text.len() - from,
{
    if from < text.len() && !is_space(text[from]) {
        lemma_token_end(text, from + 1);
    }
}

/// The maximal runs of characters that are not whitespace, from `from` on.
pub open spec fn tokens_from(text: Seq<char>, from: int) -> Seq<Seq<char>>
    decreases text.len() - from,
{
    if from < 0 || from >= text.len() {
        seq![]
    } else if is_space(text[from]) {
        tokens_from(text, from + 1)
    } else {
        let end = token_end(text, from + 1);
        proof {
            lemma_token_end(text, from + 1);
        }
        seq![text.subrange(from, end)] + tokens_from(text, end)
    }
}

/// The text split at whitespace, without empty parts.
pub open spec fn tokens(text: Seq<char>) -> Seq<Seq<char>> {
    tokens_from(text, 0)
}

/// Splits at whitespace.
pub fn split_whitespace(text: &[char]) -> (parts: Vec<Vec<char>>)
    ensures
        texts(parts@) == tokens(text@),
{
    let mut parts: Vec<Vec<char>> = Vec::new();
    let mut from: usize = 0;
    while from < text.len()
        invariant
            from <= text.len(),
            texts(parts@) + tokens_from(text@, from as int) == tokens(text@),
        decreases text.len() - from,
    {
        if char_is_space(text[from]) {
            from += 1;
        } else {
            let mut end: usize = from + 1;
            while end < text.len() && !char_is_space(text[end])
                invariant
                    from < end <= text.len(),
                    token_end(text@, from + 1) == token_end(text@, end as int),
                decreases text.len() - end,
            {
                end += 1;
            }
            let ghost before = texts(parts@);
            let part = chars_between(text, from, end);
            parts.push(part);
            assert(texts(parts@) =~= before.push(part@));
            assert(before + (seq![part@] + tokens_from(text@, end as int)) =~= before.push(part@)
                + tokens_from(text@, end as int));
            from = end;
        }
    }
    assert(texts(parts@) + tokens_from(text@, from as int) =~= texts(parts@));
    parts
}

/// The line without the carriage return that ends it, if one does.
pub open spec fn without_return(line: Seq<char>) -> Seq<char> {
    if line.len() > 0 && line.last() == '\r' {
        line.drop_last()
    } else {
        line
    }
}

/// The first position from `from` on that holds a line feed, or the end.
pub open spec fn line_end(text: Seq<char>, from: int) -> int
    decreases text.len() - from,
{
    if from >= text.len() || text[from] == '\n' {
        from
    } else {
        line_end(text, from + 1)
    }
}

/// A line ends within the text.
pub proof fn lemma_line_end(text: Seq<char>, from: int)
    requires
        0 <= from <= text.len(),
    ensures
        from <= line_end(text, from) <= text.len(),
    decreases text.len() - from,
{
    if from < text.len() && text[from] != '\n' {
        lemma_line_end(text, from + 1);
    }
}

/// The lines of the text from `from` on. A line ends with `"\n"` or `"\r\n"`,
/// which is no part of it; the last line need not be ended.
pub open spec fn lines_from(text: Seq<char>, from: int) -> Seq<Seq<char>>
    decreases text.len() - from,
{
    if from < 0 || from >= text.len() {
        seq![]
    } else {
        let end = line_end(text, from);
        proof {
            lemma_line_end(text, from);
        }
        if end >= text.len() {
            seq![text.subrange(from, text.len() as int)]
        } else {
            seq![without_return(text.subrange(from, end))] + lines_from(text, end + 1)
        }
    }
}

/// The lines of the text.
pub open spec fn lines(text: Seq<char>) -> Seq<Seq<char>> {
    lines_from(text, 0)
}

/// Splits into lines.
pub fn split_lines(text: &[char]) -> (parts: Vec<Vec<char>>)
    ensures
        texts(parts@) == lines(text@),
{
    let mut parts: Vec<Vec<char>> = Vec::new();
    let mut from: usize = 0;
    while from < text.len()
        invariant
            from <= text.len(),
            texts(parts@) + lines_from(text@, from as int) == lines(text@),
        decreases text.len() - from,
    {
        let mut end: usize = from;
        while end < text.len() && text[end] != '\n'
            invariant
                from <= end <= text.len(),
                line_end(text@, from as int) == line_end(text@, end as int),
            decreases text.len() - end,
        {
            end += 1;
        }
        let ghost before = texts(parts@);
        if end == text.len() {
            let part = chars_between(text, from, end);
            parts.push(part);
            assert(texts(parts@) =~= before.push(part@));
            assert(before + seq![part@] =~= before.push(part@));
            return parts;
        }
        let mut stop: usize = end;
        if from < end && text[end - 1] == '\r' {
            stop = end - 1;
        }
        let part = chars_between(text, from, stop);
        assert(part@ =~= without_return(text@.subrange(from as int, end as int)));
        parts.push(part);
        assert(texts(parts@) =~= before.push(part@));
        assert(before + (seq![part@] + lines_from(text@, end + 1)) =~= before.push(part@)
            + lines_from(text@, end + 1));
        from = end + 1;
    }
    assert(texts(parts@) + lines_from(text@, from as int) =~= texts(parts@));
    parts
}

/// The text without whitespace at either end.
pub open spec fn trimmed(text: Seq<char>) -> Seq<char>
    decreases text.len(),
{
    if text.len() > 0 && is_space(text.first()) {
        trimmed(text.drop_first())
    } else if text.len() > 0 && is_space(text.last()) {
        trimmed(text.drop_last())
    } else {
        text
    }
}

/// Removes whitespace from either end.
pub fn trim(text: &[char]) -> (inner: Vec<char>)
    ensures
        inner@ == trimmed(text@),
{
    let mut from: usize = 0;
    let mut to: usize = text.len();
    assert(text@.subrange(0, text@.len() as int) =~= text@);
    while from < to && char_is_space(text[from])
        invariant
            from <= to <= text.len(),
            trimmed(text@) == trimmed(text@.subrange(from as int, to as int)),
        decreases to - from,
    {
        assert(text@.subrange(from as int, to as int).drop_first() =~= text@.subrange(
            from + 1,
            to as int,
        ));
        from += 1;
    }
    while from < to && char_is_space(text[to - 1])
        invariant
            from <= to <= text.len(),
            from < to ==> !is_space(text@[from as int]),
            trimmed(text@) == trimmed(text@.subrange(from as int, to as int)),
        decreases to - from,
    {
        assert(text@.subrange(from as int, to as int).drop_last() =~= text@.subrange(
            from as int,
            to - 1,
        ));
        to -= 1;
    }
    chars_between(text, from, to)
}

/// The text without the run of `c` at its end.
pub open spec fn without_trailing(text: Seq<char>, c: char) -> Seq<char>
    decreases text.len(),
{
    if text.len() > 0 && text.last() == c {
        without_trailing(text.drop_last(), c)
    } else {
        text
    }
}

/// Removes the run of `c` at the end.
pub fn trim_end_matches(text: &[char], c: char) -> (start: Vec<char>)
    ensures
        start@ == without_trailing(text@, c),
{
    let mut to: usize = text.len();
    assert(text@.subrange(0, text@.len() as int) =~= text@);
    while 0 < to && text[to - 1] == c
        invariant
            to <= text.len(),
            without_trailing(text@, c) == without_trailing(text@.subrange(0, to as int), c),
        decreases to,
    {
        assert(text@.subrange(0, to as int).drop_last() =~= text@.subrange(0, to - 1));
        to -= 1;
    }
    chars_between(text, 0, to)
}

/// The text without the run of `c` at its start.
pub open spec fn without_leading(text: Seq<char>, c: char) -> Seq<char>
    decreases text.len(),
{
    if text.len() > 0 && text.first() == c {
        without_leading(text.drop_first(), c)
    } else {
        text
    }
}

/// Removes the run of `c` at the start.
pub fn trim_start_matches(text: &[char], c: char) -> (end: Vec<char>)
    ensures
        end@ == without_leading(text@, c),
{
    let mut from: usize = 0;
    assert(text@.subrange(0, text@.len() as int) =~= text@);
    while from < text.len() && text[from] == c
        invariant
            from <= text.len(),
            without_leading(text@, c) == without_leading(
                text@.subrange(from as int, text@.len() as int),
                c,
            ),
        decreases text.len() - from,
    {
        assert(text@.subrange(from as int, text@.len() as int).drop_first() =~= text@.subrange(
            from + 1,
            text@.len() as int,
        ));
        from += 1;
    }
    chars_between(text, from, text.len())
}

/// The text up to the first occurrence of the separator, or all of it.
pub open spec fn before_first(text: Seq<char>, separator: Seq<char>) -> Seq<char> {
    match find_text(text, separator, 0) {
        Some(at) => text.subrange(0, at),
        None => text,
    }
}

/// Cuts at the first occurrence of the separator.
pub fn take_before(text: &[char], separator: &[char]) -> (part: Vec<char>)
    ensures
        part@ == before_first(text@, separator@),
{
    match find(text, separator) {
        Some(at) => chars_between(text, 0, at),
        None => {
            let whole = chars_between(text, 0, text.len());
            assert(whole@ =~= text@);
            whole
        },
    }
}

/// The text with each ASCII capital made small.
pub open spec fn ascii_lowered(text: Seq<char>) -> Seq<char> {
    text.map_values(|c: char| ascii_lower(c))
}

/// Makes every ASCII capital small.
pub fn to_ascii_lowercase(text: &str) -> (lower: String)
    ensures
        lower@ == ascii_lowered(text@),
{
    let chars = chars_of(text);
    let mut lower = String::new();
    let mut i: usize = 0;
    while i < chars.len()
        invariant
            i <= chars.len(),
            chars@ == text@,
            lower@ == ascii_lowered(text@.take(i as int)),
        decreases chars.len() - i,
    {
        lower.push(char_ascii_lower(chars[i]));
        assert(ascii_lowered(text@.take(i + 1)) =~= ascii_lowered(text@.take(i as int)).push(
            ascii_lower(text@[i as int]),
        ));
        i += 1;
    }
    assert(text@.take(text@.len() as int) =~= text@);
    lower
}

// ── Columns ─────────────────────────────────────────────────────────────

/// The character the given number of times.
pub open spec fn repeated(c: char, n: nat) -> Seq<char> {
    Seq::new(n, |i: int| c)
}

/// The text with spaces behind it, to the given number of characters at least.
pub open spec fn padded(text: Seq<char>, width: nat) -> Seq<char> {
    if text.len() >= width {
        text
    } else {
        text + repeated(' ', (width - text.len()) as nat)
    }
}

/// Writes a character the given number of times.
pub fn repeat_char(c: char, n: usize) -> (text: String)
    ensures
        text@ == repeated(c, n as nat),
{
    let mut text = String::new();
    let mut i: usize = 0;
    assert(text@ =~= repeated(c, 0));
    while i < n
        invariant
            i <= n,
            text@ == repeated(c, i as nat),
        decreases n - i,
    {
        text.push(c);
        i += 1;
        assert(text@ =~= repeated(c, i as nat));
    }
    text
}

/// Fills a text up with spaces.
pub fn pad(text: &str, width: usize) -> (column: String)
    ensures
        column@ == padded(text@, width as nat),
{
    let len: usize = chars_of(text).len();
    let mut column = text.to_owned();
    if len < width {
        column.append(repeat_char(' ', width - len).as_str());
    }
    column
}

/// The number of bytes of the text in UTF-8.
pub open spec fn byte_len(text: Seq<char>) -> nat {
    vstd::utf8::encode_utf8(text).len()
}

/// Whether the last `n` bytes of the text are whole characters.
pub open spec fn splits_before(text: Seq<char>, n: int) -> bool {
    0 <= n <= byte_len(text) && vstd::utf8::is_char_boundary(
        vstd::utf8::encode_utf8(text),
        byte_len(text) - n,
    )
}

/// The last `n` bytes of the text.
pub open spec fn last_bytes(text: Seq<char>, n: int) -> Seq<char> {
    let bytes = vstd::utf8::encode_utf8(text);
    vstd::utf8::decode_utf8(bytes.subrange(bytes.len() - n, bytes.len() as int))
}

/// Whether the text fits into `max` bytes, or can be cut so that it does.
pub open spec fn can_be_shortened(text: Seq<char>, max: int) -> bool {
    byte_len(text) > max ==> max >= 3 && splits_before(text, max - 3)
}

/// The text, or its end behind three dots where it is longer than `max` bytes.
pub open spec fn shortened(text: Seq<char>, max: int) -> Seq<char> {
    if byte_len(text) <= max {
        text
    } else {
        "..."@ + last_bytes(text, max - 3)
    }
}

/// Shortens a text to `max` bytes by leaving out its start.
pub fn shorten(value: &str, max: usize) -> (short: String)
    requires
        can_be_shortened(value@, max as int),
    ensures
        short@ == shortened(value@, max as int),
{
    let len: usize = value.as_bytes().len();
    if len <= max {
        value.to_owned()
    } else {
        let (_, end) = value.split_at(len - (max - 3));
        proof {
            vstd::utf8::encode_utf8_decode_utf8(end@);
        }
        let mut short = "...".to_owned();
        short.append(end);
        short
    }
}

/// Whether a text can be shortened to `max` bytes: it fits, or the cut does not
/// fall within a character.
pub fn is_shortenable(value: &str, max: usize) -> (answer: bool)
    ensures
        answer == can_be_shortened(value@, max as int),
{
    let len: usize = value.as_bytes().len();
    len <= max || (max >= 3 && value.is_char_boundary(len - (max - 3)))
}

/// The bytes of two texts behind each other are those of both.
proof fn lemma_byte_len_add(a: Seq<char>, b: Seq<char>)
    ensures
        byte_len(a + b) == byte_len(a) + byte_len(b),
    decreases a.len(),
{
    if a.len() == 0 {
        assert(a + b =~= b);
    } else {
        assert((a + b).drop_first() =~= a.drop_first() + b);
        assert((a + b)[0] == a[0]);
        lemma_byte_len_add(a.drop_first(), b);
    }
}

/// A text that is shortened to `max` bytes takes up no more than that, and
/// exactly that where something was left out.
pub proof fn shortened_text_fits(text: Seq<char>, max: int)
    requires
        0 <= max,
        can_be_shortened(text, max),
    ensures
        byte_len(shortened(text, max)) <= max,
        byte_len(text) > max ==> byte_len(shortened(text, max)) == max,
{
    if byte_len(text) > max {
        let bytes = vstd::utf8::encode_utf8(text);
        let cut = bytes.len() - (max - 3);
        let tail = bytes.subrange(cut, bytes.len() as int);
        vstd::utf8::encode_utf8_valid_utf8(text);
        vstd::utf8::valid_utf8_split(bytes, cut);
        vstd::utf8::decode_utf8_encode_utf8(tail);
        lemma_byte_len_add("..."@, last_bytes(text, max - 3));
        reveal_strlit("...");
        reveal_with_fuel(vstd::utf8::encode_utf8, 4);
        assert(byte_len("..."@) == 3) by {
            let dots = "..."@;
            assert(dots.drop_first().len() == 2);
            assert(dots.drop_first().drop_first().len() == 1);
            assert(dots.drop_first().drop_first().drop_first().len() == 0);
            assert(vstd::utf8::encode_scalar('.' as u32).len() == 1);
        }
    }
}

} // verus!
