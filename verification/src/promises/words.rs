//! Numbers and text: writing, reading, splitting and searching.
use vstd::prelude::*;
use crate::decimal;
use crate::text;

verus! {

// ── Numbers ─────────────────────────────────────────────────────────────

/// A number is written digit by digit: below ten it is its one digit, and from
/// ten on the text of its tenth with the last digit behind it.
pub proof fn number_is_written_digit_by_digit(n: u64, text: String, tenth: String)
    requires
        call_ensures(decimal::decimal_text, (n,), text),
        call_ensures(decimal::decimal_text, ((n / 10) as u64,), tenth),
    ensures
        n < 10 ==> text@.len() == 1 && text@[0] as int == 48 + n,
        n >= 10 ==> text@.len() == tenth@.len() + 1 && text@.drop_last() == tenth@
            && text@.last() as int == 48 + n % 10,
{
    lemma_last_digit(n as nat);
    if n >= 10 {
        assert(text@.drop_last() =~= decimal::decimal((n / 10) as nat));
    }
}

/// The last digit of the notation of a number stands for its last digit.
pub proof fn lemma_last_digit(n: nat)
    ensures
        decimal::decimal(n).len() > 0,
        decimal::decimal(n).last() as int == 48 + n % 10,
{
    if n < 10 {
        lemma_digit(n);
    } else {
        lemma_digit(n % 10);
    }
}

/// The digits follow each other from zero on.
proof fn lemma_digit(d: nat)
    requires
        d < 10,
    ensures
        decimal::digit_char(d) as int == 48 + d,
{
}

/// A number that may be negative is written with a minus sign in front.
pub proof fn negative_number_has_a_sign(n: i32, text: String, size: String)
    requires
        call_ensures(decimal::signed_decimal_text, (n,), text),
        call_ensures(
            decimal::decimal_text,
            ((if n < 0 {
                -n
            } else {
                n as int
            }) as u64,),
            size,
        ),
    ensures
        n >= 0 ==> text@ == size@,
        n < 0 ==> text@ == seq!['-'] + size@,
{
}

/// What a number is written as reads back as that number.
pub proof fn number_reads_back(n: u64, text: String, chars: &[char], value: Option<u32>)
    requires
        call_ensures(decimal::decimal_text, (n,), text),
        chars@ == text@,
        call_ensures(decimal::parse_u32, (chars,), value),
        n <= u32::MAX,
    ensures
        value == Some(n as u32),
{
    lemma_parses(n as nat, u32::MAX as nat);
}

/// What a number is written as reads back, also where only small ones can.
pub proof fn small_number_reads_back(n: u64, text: String, chars: &[char], value: Option<u16>)
    requires
        call_ensures(decimal::decimal_text, (n,), text),
        chars@ == text@,
        call_ensures(decimal::parse_u16, (chars,), value),
    ensures
        n <= u16::MAX ==> value == Some(n as u16),
        n > u16::MAX ==> value is None,
{
    decimal::decimal_reads_back(n as nat);
    lemma_parses(n as nat, u16::MAX as nat);
}

/// The notation of a number reads as that number where it is not too large.
pub proof fn lemma_parses(n: nat, max: nat)
    ensures
        n <= max ==> decimal::parse_unsigned(decimal::decimal(n), max) == Some(n),
        n > max ==> decimal::parse_unsigned(decimal::decimal(n), max) is None,
{
    decimal::decimal_reads_back(n);
    assert(text::is_digit(decimal::decimal(n)[0]));
}

/// Two numbers that are written the same are the same.
pub proof fn lemma_decimal_injective(a: nat, b: nat)
    requires
        decimal::decimal(a) == decimal::decimal(b),
    ensures
        a == b,
{
    decimal::decimal_reads_back(a);
    decimal::decimal_reads_back(b);
}

/// A number is read digit by digit: one more digit makes it ten times as large
/// and adds that digit. What would be too large is no number.
pub proof fn number_is_read_digit_by_digit(
    short: &[char],
    longer: &[char],
    before: u32,
    after: Option<u32>,
)
    requires
        call_ensures(decimal::parse_u32, (short,), Some(before)),
        call_ensures(decimal::parse_u32, (longer,), after),
        longer@.len() == short@.len() + 1,
        longer@.drop_last() == short@,
        '0' <= longer@.last() <= '9',
    ensures
        before * 10 + (longer@.last() as int - 48) <= u32::MAX ==> after == Some(
            (before * 10 + (longer@.last() as int - 48)) as u32,
        ),
        before * 10 + (longer@.last() as int - 48) > u32::MAX ==> after is None,
{
    let s = short@;
    let l = longer@;
    let signed = s.len() > 0 && s[0] == '+';
    assert(s.len() > 0);
    assert(l[0] == s[0]);
    let digits = if signed {
        s.drop_first()
    } else {
        s
    };
    let more = if signed {
        l.drop_first()
    } else {
        l
    };
    assert(more.drop_last() =~= digits);
    assert(more.last() == l.last());
    assert(decimal::all_digits(more)) by {
        assert forall|i: int| 0 <= i < more.len() implies text::is_digit(#[trigger] more[i]) by {
            if i < digits.len() {
                assert(more[i] == digits[i]);
            }
        }
    }
}

/// A single digit reads as what it stands for; nothing, and a text with
/// something other than digits behind its sign, reads as no number.
pub proof fn only_digits_are_a_number(chars: &[char], value: Option<u32>, k: int)
    requires
        call_ensures(decimal::parse_u32, (chars,), value),
    ensures
        chars@.len() == 0 ==> value is None,
        chars@.len() == 1 && '0' <= chars@[0] <= '9' ==> value == Some(
            (chars@[0] as int - 48) as u32,
        ),
        0 <= k < chars@.len() && !('0' <= chars@[k] <= '9') && (k > 0 || chars@[0] != '+')
            ==> value is None,
{
    let c = chars@;
    if c.len() == 1 && '0' <= c[0] <= '9' {
        assert(c.drop_last() =~= seq![]);
        assert(decimal::digits_value(c.drop_last()) == 0);
        assert(decimal::digits_value(c) == decimal::digit_value(c[0]));
        assert(decimal::all_digits(c));
    }
    if 0 <= k < c.len() && !('0' <= c[k] <= '9') && (k > 0 || c[0] != '+') {
        if c[0] == '+' {
            assert(c.drop_first()[k - 1] == c[k]);
            assert(!text::is_digit(c.drop_first()[k - 1]));
        } else {
            assert(!text::is_digit(c[k]));
        }
    }
}

/// A sign in front of the digits makes no difference.
pub proof fn sign_is_passed_over(
    signed: &[char],
    plain: &[char],
    of_signed: Option<u32>,
    of_plain: Option<u32>,
    small_of_signed: Option<u16>,
    small_of_plain: Option<u16>,
)
    requires
        call_ensures(decimal::parse_u32, (signed,), of_signed),
        call_ensures(decimal::parse_u32, (plain,), of_plain),
        call_ensures(decimal::parse_u16, (signed,), small_of_signed),
        call_ensures(decimal::parse_u16, (plain,), small_of_plain),
        signed@ == seq!['+'] + plain@,
        plain@.len() > 0,
        plain@[0] != '+',
    ensures
        of_signed == of_plain,
        small_of_signed == small_of_plain,
{
    assert(signed@.drop_first() =~= plain@);
}

// ── Characters ──────────────────────────────────────────────────────────

/// Blanks, tabs and line ends separate words; letters, digits and signs do not.
pub proof fn blanks_separate_words(c: char, space: bool)
    requires
        call_ensures(text::char_is_space, (c,), space),
    ensures
        c == ' ' || c == '\t' || c == '\n' || c == '\r' ==> space,
        '!' <= c <= '~' ==> !space,
{
}

/// The ten digits are digits, and nothing else is.
pub proof fn ten_characters_are_digits(c: char, digit: bool)
    requires
        call_ensures(text::char_is_digit, (c,), digit),
    ensures
        digit <==> 48 <= c as int <= 57,
{
}

// ── Comparing ───────────────────────────────────────────────────────────

/// Two texts are the same where they have the same characters.
pub proof fn same_text_is_same_characters(a: &str, b: &str, same: bool)
    requires
        call_ensures(text::same_text, (a, b), same),
    ensures
        same <==> a@ == b@,
{
}

/// A text starts with another where that and something behind it make it up.
pub proof fn start_is_what_comes_first(text: &str, prefix: &str, starts: bool)
    requires
        call_ensures(text::starts_with, (text, prefix), starts),
    ensures
        starts ==> prefix@ + text@.skip(prefix@.len() as int) == text@,
        (exists|rest: Seq<char>| text@ == #[trigger] (prefix@ + rest)) ==> starts,
{
    if starts {
        assert(prefix@ + text@.skip(prefix@.len() as int) =~= text@);
    }
    if exists|rest: Seq<char>| text@ == #[trigger] (prefix@ + rest) {
        let rest = choose|rest: Seq<char>| text@ == #[trigger] (prefix@ + rest);
        assert(prefix@ =~= (prefix@ + rest).subrange(0, prefix@.len() as int));
        assert(prefix@.is_prefix_of(text@));
    }
}

/// The order of texts goes by the first character in which they differ; where
/// none differs, the shorter text comes first.
pub proof fn texts_are_ordered_by_first_difference(a: &str, b: &str, at_most: bool, k: int)
    requires
        call_ensures(text::text_at_most, (a, b), at_most),
        0 <= k <= a@.len(),
        k <= b@.len(),
        forall|i: int| 0 <= i < k ==> a@[i] == b@[i],
    ensures
        k == a@.len() ==> at_most,
        k < a@.len() && k == b@.len() ==> !at_most,
        k < a@.len() && k < b@.len() && a@[k] != b@[k] ==> at_most == (a@[k] < b@[k]),
{
    lemma_order_from(a@, b@, 0, k);
}

proof fn lemma_order_from(a: Seq<char>, b: Seq<char>, from: int, k: int)
    requires
        0 <= from <= k <= a.len(),
        k <= b.len(),
        forall|i: int| from <= i < k ==> a[i] == b[i],
    ensures
        text::text_le_from(a, b, from) == text::text_le_from(a, b, k),
    decreases k - from,
{
    if from < k {
        lemma_order_from(a, b, from + 1, k);
    }
}

// ── Searching ───────────────────────────────────────────────────────────

/// A text contains another exactly where it can be cut into that one and what
/// stands before and behind it.
pub proof fn text_contains_its_parts(text: &str, pattern: &str, found: bool)
    requires
        call_ensures(text::contains, (text, pattern), found),
    ensures
        found <==> exists|at: int|
            0 <= at && at + pattern@.len() <= text@.len() && #[trigger] text@.subrange(
                at,
                at + pattern@.len(),
            ) == pattern@,
{
    text::lemma_find_text(text@, pattern@, 0);
    if exists|at: int|
        0 <= at && at + pattern@.len() <= text@.len() && #[trigger] text@.subrange(
            at,
            at + pattern@.len(),
        ) == pattern@ {
        let at = choose|at: int|
            0 <= at && at + pattern@.len() <= text@.len() && #[trigger] text@.subrange(
                at,
                at + pattern@.len(),
            ) == pattern@;
        assert(text::occurs_at(text@, pattern@, at));
    }
}

/// A search finds the first place at which the pattern stands.
pub proof fn search_finds_the_first_place(text: &[char], pattern: &[char], found: Option<usize>)
    requires
        call_ensures(text::find, (text, pattern), found),
    ensures
        found matches Some(at) ==> at + pattern@.len() <= text@.len() && text@.subrange(
            at as int,
            at + pattern@.len(),
        ) == pattern@,
        forall|k: int|
            0 <= k && k + pattern@.len() <= text@.len() && #[trigger] text@.subrange(
                k,
                k + pattern@.len(),
            ) == pattern@ ==> (found matches Some(at) && at <= k),
{
    text::lemma_find_text(text@, pattern@, 0);
    assert forall|k: int|
        0 <= k && k + pattern@.len() <= text@.len() && #[trigger] text@.subrange(
            k,
            k + pattern@.len(),
        ) == pattern@ implies (found matches Some(at) && at <= k) by {
        assert(text::occurs_at(text@, pattern@, k));
    }
}

/// Cutting at a separator leaves what stands before its first occurrence, and
/// everything where there is none.
pub proof fn cut_leaves_what_stands_before(text: &[char], separator: &[char], part: Vec<char>)
    requires
        call_ensures(text::take_before, (text, separator), part),
    ensures
        part@.len() <= text@.len(),
        part@ == text@.take(part@.len() as int),
        part@.len() < text@.len() ==> part@.len() + separator@.len() <= text@.len()
            && text@.subrange(part@.len() as int, (part@.len() + separator@.len()) as int)
            == separator@,
        forall|k: int|
            0 <= k && k + separator@.len() <= text@.len() && #[trigger] text@.subrange(
                k,
                k + separator@.len(),
            ) == separator@ ==> part@.len() <= k,
{
    text::lemma_find_text(text@, separator@, 0);
    assert(part@ =~= text@.take(part@.len() as int));
    assert forall|k: int|
        0 <= k && k + separator@.len() <= text@.len() && #[trigger] text@.subrange(
            k,
            k + separator@.len(),
        ) == separator@ implies part@.len() <= k by {
        assert(text::occurs_at(text@, separator@, k));
    }
}

/// A list of characters contains one exactly where it stands at some place.
pub proof fn character_is_contained_at_a_place(chars: &[char], c: char, found: bool)
    requires
        call_ensures(text::contains_char, (chars, c), found),
    ensures
        found <==> exists|i: int| 0 <= i < chars@.len() && #[trigger] chars@[i] == c,
{
}

// ── Splitting and trimming ──────────────────────────────────────────────

/// A run of letters, digits and signs is one word, and nothing is no word.
pub proof fn run_is_one_word(text: &[char], parts: Vec<Vec<char>>)
    requires
        call_ensures(text::split_whitespace, (text,), parts),
        forall|i: int| 0 <= i < text@.len() ==> '!' <= #[trigger] text@[i] <= '~',
    ensures
        text@.len() == 0 ==> parts@.len() == 0,
        text@.len() > 0 ==> parts@.len() == 1 && parts@[0]@ == text@,
{
    let tokens = text::tokens(text@);
    assert(text::texts(parts@) == tokens);
    lemma_word(text@);
    if text@.len() > 0 {
        assert(text::texts(parts@)[0] == parts@[0]@);
    }
}

/// The run of characters without blanks goes to the end.
proof fn lemma_token_end_whole(text: Seq<char>, from: int)
    requires
        0 <= from <= text.len(),
        forall|i: int| from <= i < text.len() ==> !text::is_space(#[trigger] text[i]),
    ensures
        text::token_end(text, from) == text.len(),
    decreases text.len() - from,
{
    if from < text.len() {
        lemma_token_end_whole(text, from + 1);
    }
}

/// A text without blanks is one token.
pub proof fn lemma_word(text: Seq<char>)
    requires
        forall|i: int| 0 <= i < text.len() ==> '!' <= #[trigger] text[i] <= '~',
    ensures
        text.len() == 0 ==> text::tokens(text) == Seq::<Seq<char>>::empty(),
        text.len() > 0 ==> text::tokens(text) == seq![text],
{
    if text.len() > 0 {
        assert forall|i: int| 0 <= i < text.len() implies !text::is_space(#[trigger] text[i]) by {}
        lemma_token_end_whole(text, 1);
        assert(text.subrange(0, text.len() as int) =~= text);
        assert(text::tokens_from(text, text.len() as int) =~= seq![]);
        assert(text::tokens(text) =~= seq![text]);
    }
}

/// Two texts with a blank between them have the words of the first and then
/// those of the second.
pub proof fn blank_joins_two_lists_of_words(
    first: &[char],
    second: &[char],
    both: &[char],
    blank: char,
    of_first: Vec<Vec<char>>,
    of_second: Vec<Vec<char>>,
    of_both: Vec<Vec<char>>,
)
    requires
        call_ensures(text::split_whitespace, (first,), of_first),
        call_ensures(text::split_whitespace, (second,), of_second),
        call_ensures(text::split_whitespace, (both,), of_both),
        blank == ' ' || blank == '\t' || blank == '\n' || blank == '\r',
        both@ == first@.push(blank) + second@,
    ensures
        of_both@.len() == of_first@.len() + of_second@.len(),
        forall|i: int| 0 <= i < of_first@.len() ==> (#[trigger] of_both@[i])@ == of_first@[i]@,
        forall|i: int|
            0 <= i < of_second@.len() ==> of_both@[of_first@.len() + i]@ == (
            #[trigger] of_second@[i])@,
{
    lemma_words_join(first@, second@, blank, 0);
    let a = text::texts(of_first@);
    let b = text::texts(of_second@);
    let c = text::texts(of_both@);
    assert(c == a + b);
    assert(a.len() == of_first@.len() && b.len() == of_second@.len() && c.len() == of_both@.len());
    assert forall|i: int| 0 <= i < of_first@.len() implies (#[trigger] of_both@[i])@
        == of_first@[i]@ by {
        assert(c[i] == a[i]);
    }
    assert forall|i: int| 0 <= i < of_second@.len() implies of_both@[of_first@.len() + i]@ == (
    #[trigger] of_second@[i])@ by {
        assert(c[of_first@.len() + i] == b[i]);
    }
}

/// A run of characters ends before the blank, whatever follows.
proof fn lemma_token_end_before(first: Seq<char>, second: Seq<char>, blank: char, from: int)
    requires
        0 <= from <= first.len(),
        text::is_space(blank),
    ensures
        text::token_end(first.push(blank) + second, from) == text::token_end(first, from),
    decreases first.len() - from,
{
    let both = first.push(blank) + second;
    if from < first.len() {
        assert(both[from] == first[from]);
        lemma_token_end_before(first, second, blank, from + 1);
    } else {
        assert(both[from] == blank);
    }
}

/// The tokens of a text do not depend on what stands before it.
proof fn lemma_tokens_after(before: Seq<char>, text: Seq<char>, from: int)
    requires
        0 <= from <= text.len(),
    ensures
        text::tokens_from(before + text, before.len() + from) == text::tokens_from(text, from),
    decreases text.len() - from,
{
    let both = before + text;
    if from < text.len() {
        assert(both[before.len() + from] == text[from]);
        if text::is_space(text[from]) {
            lemma_tokens_after(before, text, from + 1);
        } else {
            lemma_token_end_after(before, text, from + 1);
            text::lemma_token_end(text, from + 1);
            let end = text::token_end(text, from + 1);
            assert(both.subrange(before.len() + from, before.len() + end) =~= text.subrange(
                from,
                end,
            ));
            lemma_tokens_after(before, text, end);
        }
    }
}

proof fn lemma_token_end_after(before: Seq<char>, text: Seq<char>, from: int)
    requires
        0 <= from <= text.len(),
    ensures
        text::token_end(before + text, before.len() + from) == before.len() + text::token_end(
            text,
            from,
        ),
    decreases text.len() - from,
{
    if from < text.len() {
        assert((before + text)[before.len() + from] == text[from]);
        lemma_token_end_after(before, text, from + 1);
    }
}

/// The tokens of two texts with a blank between them.
pub proof fn lemma_words_join(first: Seq<char>, second: Seq<char>, blank: char, from: int)
    requires
        0 <= from <= first.len(),
        text::is_space(blank),
    ensures
        text::tokens_from(first.push(blank) + second, from) == text::tokens_from(first, from)
            + text::tokens(second),
    decreases first.len() - from,
{
    let both = first.push(blank) + second;
    if from < first.len() {
        assert(both[from] == first[from]);
        if text::is_space(first[from]) {
            lemma_words_join(first, second, blank, from + 1);
        } else {
            lemma_token_end_before(first, second, blank, from + 1);
            text::lemma_token_end(first, from + 1);
            let end = text::token_end(first, from + 1);
            lemma_words_join(first, second, blank, end);
            assert(both.subrange(from, end) =~= first.subrange(from, end));
            assert(seq![both.subrange(from, end)] + (text::tokens_from(first, end)
                + text::tokens(second)) =~= (seq![first.subrange(from, end)] + text::tokens_from(
                first,
                end,
            )) + text::tokens(second));
        }
    } else {
        assert(both[from] == blank);
        lemma_tokens_after(first.push(blank), second, 0);
        assert(text::tokens_from(first, from) =~= seq![]);
        assert(text::tokens_from(first, from) + text::tokens(second) =~= text::tokens(second));
    }
}

/// A text without a line feed is one line, and nothing is no line.
pub proof fn text_without_line_feed_is_one_line(text: &[char], parts: Vec<Vec<char>>)
    requires
        call_ensures(text::split_lines, (text,), parts),
        forall|i: int| 0 <= i < text@.len() ==> #[trigger] text@[i] != '\n',
    ensures
        text@.len() == 0 ==> parts@.len() == 0,
        text@.len() > 0 ==> parts@.len() == 1 && parts@[0]@ == text@,
{
    assert(text::texts(parts@) == text::lines(text@));
    assert(text::texts(parts@).len() == parts@.len());
    if text@.len() > 0 {
        lemma_line_end_whole(text@, 0);
        assert(text@.subrange(0, text@.len() as int) =~= text@);
        assert(text::lines(text@) =~= seq![text@]);
        assert(text::texts(parts@)[0] == parts@[0]@);
    }
}

proof fn lemma_line_end_whole(text: Seq<char>, from: int)
    requires
        0 <= from <= text.len(),
        forall|i: int| from <= i < text.len() ==> #[trigger] text[i] != '\n',
    ensures
        text::line_end(text, from) == text.len(),
    decreases text.len() - from,
{
    if from < text.len() {
        lemma_line_end_whole(text, from + 1);
    }
}

/// A line feed ends a line: the first line is what stands before it, without a
/// carriage return at its end, and the other lines are those of what follows.
pub proof fn line_feed_ends_the_line(
    first: &[char],
    rest: &[char],
    whole: &[char],
    of_rest: Vec<Vec<char>>,
    of_whole: Vec<Vec<char>>,
)
    requires
        call_ensures(text::split_lines, (rest,), of_rest),
        call_ensures(text::split_lines, (whole,), of_whole),
        forall|i: int| 0 <= i < first@.len() ==> #[trigger] first@[i] != '\n',
        whole@ == first@.push('\n') + rest@,
    ensures
        of_whole@.len() == of_rest@.len() + 1,
        first@.len() > 0 && first@.last() == '\r' ==> of_whole@[0]@ == first@.drop_last(),
        first@.len() == 0 || first@.last() != '\r' ==> of_whole@[0]@ == first@,
        forall|i: int| 0 <= i < of_rest@.len() ==> of_whole@[i + 1]@ == (#[trigger] of_rest@[i])@,
{
    lemma_first_line(first@, rest@);
    let w = text::texts(of_whole@);
    let r = text::texts(of_rest@);
    assert(w.len() == of_whole@.len() && r.len() == of_rest@.len());
    assert(w[0] == of_whole@[0]@);
    assert forall|i: int| 0 <= i < of_rest@.len() implies of_whole@[i + 1]@ == (
    #[trigger] of_rest@[i])@ by {
        assert(w[i + 1] == r[i]);
    }
}

/// The lines of a first line and what follows it.
pub proof fn lemma_first_line(first: Seq<char>, rest: Seq<char>)
    requires
        forall|i: int| 0 <= i < first.len() ==> #[trigger] first[i] != '\n',
    ensures
        text::lines(first.push('\n') + rest) == seq![
            if first.len() > 0 && first.last() == '\r' {
                first.drop_last()
            } else {
                first
            },
        ] + text::lines(rest),
{
    let whole = first.push('\n') + rest;
    lemma_line_end_before(first, rest, 0);
    assert(whole.subrange(0, first.len() as int) =~= first);
    lemma_lines_after(first.push('\n'), rest, 0);
}

proof fn lemma_line_end_before(first: Seq<char>, rest: Seq<char>, from: int)
    requires
        0 <= from <= first.len(),
        forall|i: int| 0 <= i < first.len() ==> #[trigger] first[i] != '\n',
    ensures
        text::line_end(first.push('\n') + rest, from) == first.len(),
    decreases first.len() - from,
{
    let whole = first.push('\n') + rest;
    if from < first.len() {
        assert(whole[from] == first[from]);
        lemma_line_end_before(first, rest, from + 1);
    } else {
        assert(whole[from] == '\n');
    }
}

proof fn lemma_line_end_after(before: Seq<char>, text: Seq<char>, from: int)
    requires
        0 <= from <= text.len(),
    ensures
        text::line_end(before + text, before.len() + from) == before.len() + text::line_end(
            text,
            from,
        ),
    decreases text.len() - from,
{
    if from < text.len() {
        assert((before + text)[before.len() + from] == text[from]);
        lemma_line_end_after(before, text, from + 1);
    }
}

proof fn lemma_lines_after(before: Seq<char>, text: Seq<char>, from: int)
    requires
        0 <= from <= text.len(),
    ensures
        text::lines_from(before + text, before.len() + from) == text::lines_from(text, from),
    decreases text.len() - from,
{
    let both = before + text;
    if from < text.len() {
        lemma_line_end_after(before, text, from);
        text::lemma_line_end(text, from);
        let end = text::line_end(text, from);
        assert(both.subrange(before.len() + from, before.len() + end) =~= text.subrange(from, end));
        if end < text.len() {
            lemma_lines_after(before, text, end + 1);
        } else {
            assert(both.subrange(before.len() + from, both.len() as int) =~= text.subrange(
                from,
                text.len() as int,
            ));
        }
    }
}

/// Trimming takes blanks, and nothing else, away from both ends.
pub proof fn trimming_takes_blanks_from_the_ends(text: &[char], inner: Vec<char>)
    requires
        call_ensures(text::trim, (text,), inner),
    ensures
        inner@.len() > 0 ==> !text::is_space(inner@[0]) && !text::is_space(inner@.last()),
        exists|from: int|
            {
                &&& 0 <= from
                &&& from + inner@.len() <= text@.len()
                &&& #[trigger] text@.subrange(from, from + inner@.len()) == inner@
                &&& forall|i: int|
                    (0 <= i < from || from + inner@.len() <= i < text@.len()) ==> text::is_space(
                        #[trigger] text@[i],
                    )
            },
{
    let from = lemma_trimmed(text@);
    assert(text@.subrange(from, from + inner@.len()) == inner@);
}

proof fn lemma_trimmed(text: Seq<char>) -> (from: int)
    ensures
        text::trimmed(text).len() > 0 ==> !text::is_space(text::trimmed(text)[0])
            && !text::is_space(text::trimmed(text).last()),
        0 <= from,
        from + text::trimmed(text).len() <= text.len(),
        text.subrange(from, from + text::trimmed(text).len()) == text::trimmed(text),
        forall|i: int|
            (0 <= i < from || from + text::trimmed(text).len() <= i < text.len())
                ==> text::is_space(#[trigger] text[i]),
    decreases text.len(),
{
    let inner = text::trimmed(text);
    if text.len() > 0 && text::is_space(text.first()) {
        let rest = text.drop_first();
        let at = lemma_trimmed(rest);
        assert(text.subrange(at + 1, at + 1 + inner.len()) =~= rest.subrange(at, at + inner.len()));
        assert forall|i: int|
            (0 <= i < at + 1 || at + 1 + inner.len() <= i < text.len()) implies text::is_space(
            #[trigger] text[i],
        ) by {
            if i > 0 {
                assert(rest[i - 1] == text[i]);
            }
        }
        at + 1
    } else if text.len() > 0 && text::is_space(text.last()) {
        let rest = text.drop_last();
        let at = lemma_trimmed(rest);
        assert(text.subrange(at, at + inner.len()) =~= rest.subrange(at, at + inner.len()));
        assert forall|i: int|
            (0 <= i < at || at + inner.len() <= i < text.len()) implies text::is_space(
            #[trigger] text[i],
        ) by {
            if i < rest.len() {
                assert(rest[i] == text[i]);
            }
        }
        at
    } else {
        assert(text.subrange(0, text.len() as int) =~= text);
        0
    }
}

/// Taking a character away from the end leaves a start that does not end with
/// it; only that character is taken away.
pub proof fn trailing_run_is_taken_away(text: &[char], c: char, start: Vec<char>)
    requires
        call_ensures(text::trim_end_matches, (text, c), start),
    ensures
        start@.len() <= text@.len(),
        start@ == text@.take(start@.len() as int),
        start@.len() > 0 ==> start@.last() != c,
        forall|i: int| start@.len() <= i < text@.len() ==> #[trigger] text@[i] == c,
{
    lemma_without_trailing(text@, c);
}

/// What is left without the run at the end.
pub proof fn lemma_without_trailing(text: Seq<char>, c: char)
    ensures
        ({
            let start = text::without_trailing(text, c);
            &&& start.len() <= text.len()
            &&& start == text.take(start.len() as int)
            &&& start.len() > 0 ==> start.last() != c
            &&& forall|i: int| start.len() <= i < text.len() ==> #[trigger] text[i] == c
        }),
    decreases text.len(),
{
    let start = text::without_trailing(text, c);
    if text.len() > 0 && text.last() == c {
        lemma_without_trailing(text.drop_last(), c);
        assert(text.drop_last().take(start.len() as int) =~= text.take(start.len() as int));
        assert forall|i: int| start.len() <= i < text.len() implies #[trigger] text[i] == c by {
            if i < text.len() - 1 {
                assert(text.drop_last()[i] == c);
            }
        }
    } else {
        assert(text.take(text.len() as int) =~= text);
    }
}

/// Taking a character away from the start leaves an end that does not start
/// with it; only that character is taken away.
pub proof fn leading_run_is_taken_away(text: &[char], c: char, end: Vec<char>)
    requires
        call_ensures(text::trim_start_matches, (text, c), end),
    ensures
        end@.len() <= text@.len(),
        end@ == text@.skip(text@.len() - end@.len()),
        end@.len() > 0 ==> end@[0] != c,
        forall|i: int| 0 <= i < text@.len() - end@.len() ==> #[trigger] text@[i] == c,
{
    lemma_without_leading(text@, c);
}

proof fn lemma_without_leading(text: Seq<char>, c: char)
    ensures
        ({
            let end = text::without_leading(text, c);
            &&& end.len() <= text.len()
            &&& end == text.skip(text.len() - end.len())
            &&& end.len() > 0 ==> end[0] != c
            &&& forall|i: int| 0 <= i < text.len() - end.len() ==> #[trigger] text[i] == c
        }),
    decreases text.len(),
{
    let end = text::without_leading(text, c);
    if text.len() > 0 && text.first() == c {
        let rest = text.drop_first();
        lemma_without_leading(rest, c);
        assert(rest.skip(rest.len() - end.len()) =~= text.skip(text.len() - end.len()));
        assert forall|i: int| 0 <= i < text.len() - end.len() implies #[trigger] text[i] == c by {
            if i > 0 {
                assert(rest[i - 1] == c);
            }
        }
    } else {
        assert(text.skip(0) =~= text);
    }
}

// ── Letters and columns ─────────────────────────────────────────────────

/// Capitals become small, and every other character stays.
pub proof fn capitals_become_small(text: &str, lower: String, i: int)
    requires
        call_ensures(text::to_ascii_lowercase, (text,), lower),
        0 <= i < text@.len(),
    ensures
        lower@.len() == text@.len(),
        'A' <= text@[i] <= 'Z' ==> lower@[i] as int == text@[i] as int + 32,
        !('A' <= text@[i] <= 'Z') ==> lower@[i] == text@[i],
{
}

/// A column is the text with blanks behind it, as wide as it should be or as
/// the text is.
pub proof fn column_is_text_and_blanks(text: &str, width: usize, column: String)
    requires
        call_ensures(text::pad, (text, width), column),
    ensures
        column@.len() == if text@.len() >= width {
            text@.len()
        } else {
            width as nat
        },
        column@.take(text@.len() as int) == text@,
        forall|i: int| text@.len() <= i < column@.len() ==> #[trigger] column@[i] == ' ',
{
    assert(column@.take(text@.len() as int) =~= text@);
}

/// A text that is short enough is not shortened. A longer one is cut to the
/// given number of bytes: three dots and its end.
pub proof fn short_text_is_dots_and_the_end(value: &str, max: usize, short: String)
    requires
        text::can_be_shortened(value@, max as int),
        call_ensures(text::shorten, (value, max), short),
    ensures
        vstd::utf8::encode_utf8(value@).len() <= max ==> short@ == value@,
        vstd::utf8::encode_utf8(value@).len() > max ==> {
            let bytes = vstd::utf8::encode_utf8(value@);
            let end = short@.skip(3);
            &&& short@.len() >= 3
            &&& short@[0] == '.' && short@[1] == '.' && short@[2] == '.'
            &&& vstd::utf8::encode_utf8(end) == bytes.skip(bytes.len() - (max - 3))
        },
{
    let bytes = vstd::utf8::encode_utf8(value@);
    if bytes.len() > max {
        reveal_strlit("...");
        let tail = bytes.subrange(bytes.len() - (max - 3), bytes.len() as int);
        vstd::utf8::encode_utf8_valid_utf8(value@);
        vstd::utf8::valid_utf8_split(bytes, bytes.len() - (max - 3));
        vstd::utf8::decode_utf8_encode_utf8(tail);
        assert(short@.skip(3) =~= text::last_bytes(value@, max - 3));
        assert(tail =~= bytes.skip(bytes.len() - (max - 3)));
    }
}

} // verus!
