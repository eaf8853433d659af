//! Reading problems from plain text.
//!
//! A text holds problems one after the other. Each begins with a `title:`
//! line; the lines that follow give its other fields, each as a header
//! `name:` with the value behind it or on the lines below.

use vstd::prelude::*;
use vstd::string::StringExecFns;
use crate::models::{optional_text, ParsedProblem, ParsedProblemView};
use crate::text::{
    byte_len, byte_length, chars_of, extend_chars, find_char, index_of, is_ascii_digit, is_ascii_letter, is_space,
    is_whitespace, leading_whitespace, lemma_byte_len_concat, lines, normalize_chars,
    normalized, rows, same_text, split_chars, split_lines, split_on, string_of, subvec, texts, trim, trim_start,
    trimmed, begins_at, has_prefix, decimal, push_decimal, lowercase_of, to_lowercase,
};

verus! {

/// Whether a character is a dash: hyphen-minus, en dash, em dash or minus
/// sign.
pub open spec fn is_dash(c: char) -> bool {
    c == '-' || c == '\u{2013}' || c == '\u{2014}' || c == '\u{2212}'
}

/// Whether a character can open a list item: a dash, a bullet operator, a
/// bullet, a white bullet, a small black or white square, or an asterisk.
pub open spec fn is_bullet(c: char) -> bool {
    is_dash(c) || c == '\u{2219}' || c == '\u{2022}' || c == '\u{25e6}' || c == '\u{25aa}' || c == '\u{25ab}' || c
        == '*'
}

/// Whether every character of a text is an ASCII digit.
pub open spec fn all_digits(s: Seq<char>) -> bool {
    forall|i: int| 0 <= i < s.len() ==> is_ascii_digit(#[trigger] s[i])
}

/// Whether a text holds nothing but dashes and whitespace, and is not
/// empty.
pub open spec fn dash_only(s: Seq<char>) -> bool {
    s.len() > 0 && forall|i: int| 0 <= i < s.len() ==> is_dash(#[trigger] s[i]) || is_whitespace(s[i])
}

/// Whether a text begins with digits and a full stop: a full stop occurs,
/// not at the start, and only digits stand before the first one.
pub open spec fn digits_before_dot(s: Seq<char>) -> bool {
    match index_of(s, '.') {
        Some(p) => p > 0 && all_digits(s.take(p)),
        None => false,
    }
}

/// Whether a text is a numbered item: digits, a full stop, and something
/// behind it.
pub open spec fn numbered(s: Seq<char>) -> bool {
    match index_of(s, '.') {
        Some(p) => p > 0 && all_digits(s.take(p)) && p + 1 < s.len(),
        None => false,
    }
}

/// A text without what stands before its first full stop and without that
/// full stop, trimmed; the text itself where the full stop is missing, comes
/// first or comes last.
pub open spec fn without_number(s: Seq<char>) -> Seq<char> {
    match index_of(s, '.') {
        Some(p) => if p > 0 && p + 1 < s.len() {
            trim(s.skip(p + 1))
        } else {
            s
        },
        None => s,
    }
}

/// Whether a character is a dash.
pub fn char_is_dash(c: char) -> (b: bool)
    ensures
        b == is_dash(c),
{
    c == '-' || c == '\u{2013}' || c == '\u{2014}' || c == '\u{2212}'
}

/// Whether a character can open a list item.
pub fn char_is_bullet(c: char) -> (b: bool)
    ensures
        b == is_bullet(c),
{
    char_is_dash(c) || c == '\u{2219}' || c == '\u{2022}' || c == '\u{25e6}' || c == '\u{25aa}' || c == '\u{25ab}'
        || c == '*'
}

/// Whether `chars[..to]` are all ASCII digits.
fn digits_up_to(chars: &Vec<char>, to: usize) -> (b: bool)
    requires
        to <= chars.len(),
    ensures
        b == all_digits(chars@.take(to as int)),
{
    let mut i: usize = 0;
    while i < to
        invariant
            i <= to <= chars.len(),
            forall|j: int| 0 <= j < i ==> is_ascii_digit(#[trigger] chars@[j]),
        decreases to - i,
    {
        let c = chars[i];
        if !('0' <= c && c <= '9') {
            assert(!is_ascii_digit(chars@.take(to as int)[i as int]));
            return false;
        }
        i = i + 1;
    }
    assert forall|j: int| 0 <= j < chars@.take(to as int).len() implies is_ascii_digit(
        #[trigger] chars@.take(to as int)[j],
    ) by {
        assert(chars@.take(to as int)[j] == chars@[j]);
    }
    true
}

fn chars_dash_only(chars: &Vec<char>) -> (b: bool)
    ensures
        b == dash_only(chars@),
{
    if chars.len() == 0 {
        return false;
    }
    let mut i: usize = 0;
    while i < chars.len()
        invariant
            i <= chars.len(),
            forall|j: int| 0 <= j < i ==> is_dash(#[trigger] chars@[j]) || is_whitespace(chars@[j]),
        decreases chars.len() - i,
    {
        let c = chars[i];
        if !(char_is_dash(c) || is_space(c)) {
            return false;
        }
        i = i + 1;
    }
    true
}

fn chars_numbered(chars: &Vec<char>) -> (b: bool)
    ensures
        b == numbered(chars@),
{
    match find_char(chars, '.') {
        Some(p) => p > 0 && digits_up_to(chars, p) && p + 1 < chars.len(),
        None => false,
    }
}

fn chars_digits_before_dot(chars: &Vec<char>) -> (b: bool)
    ensures
        b == digits_before_dot(chars@),
{
    match find_char(chars, '.') {
        Some(p) => p > 0 && digits_up_to(chars, p),
        None => false,
    }
}

fn chars_without_number(chars: &Vec<char>) -> (v: Vec<char>)
    ensures
        v@ == without_number(chars@),
{
    match find_char(chars, '.') {
        Some(p) => {
            if p > 0 && p + 1 < chars.len() {
                let rest = subvec(chars, p + 1, chars.len());
                assert(rest@ =~= chars@.skip(p + 1));
                trimmed(&rest)
            } else {
                subvec_all(chars)
            }
        },
        None => subvec_all(chars),
    }
}

/// A copy of `chars`.
fn subvec_all(chars: &Vec<char>) -> (v: Vec<char>)
    ensures
        v@ == chars@,
{
    let v = subvec(chars, 0, chars.len());
    assert(chars@.subrange(0, chars.len() as int) =~= chars@);
    v
}

/// Whether a text holds nothing but dashes and whitespace, and is not
/// empty.
pub fn is_dash_only(text: &str) -> (b: bool)
    ensures
        b == dash_only(text@),
{
    let chars = chars_of(text);
    chars_dash_only(&chars)
}

/// Whether a text is a numbered item such as `1. first`.
pub fn is_numbered_item(text: &str) -> (b: bool)
    ensures
        b == numbered(text@),
{
    let chars = chars_of(text);
    chars_numbered(&chars)
}

/// A numbered item without its number.
pub fn remove_number_prefix(text: &str) -> (item: String)
    ensures
        item@ == without_number(text@),
{
    let chars = chars_of(text);
    let rest = chars_without_number(&chars);
    string_of(&rest)
}

/// A text with every run of whitespace inside it replaced by one space,
/// and without the whitespace at its start and at its end.
pub fn normalize_whitespace(text: &str) -> (clean: String)
    ensures
        clean@ == normalized(text@),
{
    let chars = chars_of(text);
    let clean = normalize_chars(&chars);
    string_of(&clean)
}

/// Whether a line begins like a sentence of its own: with one of a dozen
/// common first words and a space.
pub open spec fn starts_sentence(t: Seq<char>) -> bool {
    ||| has_prefix(t, "The "@)
    ||| has_prefix(t, "This "@)
    ||| has_prefix(t, "When "@)
    ||| has_prefix(t, "If "@)
    ||| has_prefix(t, "Use "@)
    ||| has_prefix(t, "Keep "@)
    ||| has_prefix(t, "Remember "@)
    ||| has_prefix(t, "Consider "@)
    ||| has_prefix(t, "Try "@)
    ||| has_prefix(t, "Again "@)
    ||| has_prefix(t, "Also "@)
    ||| has_prefix(t, "Another "@)
}

/// Whether a line looks like prose that stands for itself: longer than
/// fifty bytes, with a space in it, and beginning with an ASCII letter.
pub open spec fn long_prose(t: Seq<char>) -> bool {
    byte_len(t) > 50 && index_of(t, ' ') is Some && t.len() > 0 && is_ascii_letter(t[0])
}

/// Number of bytes of whitespace at the start of a line.
pub open spec fn indentation(line: Seq<char>) -> int {
    byte_len(line) - byte_len(trim_start(line))
}

/// Whether a line without a bullet continues the item before it: it does
/// unless it is long prose, is indented by more than two bytes, or begins
/// like a sentence of its own. `t` is the line with its whitespace
/// normalized.
pub open spec fn continues(t: Seq<char>, line: Seq<char>) -> bool {
    !long_prose(t) && indentation(line) <= 2 && !starts_sentence(t)
}

/// What a bulleted line holds behind its bullet, or `None` for a line that
/// is no bulleted line. A bulleted line begins with a bullet character and
/// is longer than one byte.
pub open spec fn bullet_content(t: Seq<char>) -> Option<Seq<char>> {
    if t.len() > 0 && is_bullet(t[0]) && byte_len(t) > 1 {
        Some(trim(t.skip(1)))
    } else {
        None
    }
}

/// `items` with `item` behind them, unless `item` is empty.
pub open spec fn with_item(items: Seq<Seq<char>>, item: Seq<char>) -> Seq<Seq<char>> {
    if item.len() > 0 {
        items.push(item)
    } else {
        items
    }
}

/// The items gathered so far, after one more line. A blank line changes
/// nothing. A bulleted or numbered line adds what it holds behind the
/// bullet or number. Any other line is an item of its own if it is the
/// first or does not continue the item before it, and is else joined to
/// that item by a space.
pub open spec fn take_line(items: Seq<Seq<char>>, line: Seq<char>) -> Seq<Seq<char>> {
    let t = normalized(line);
    if t.len() == 0 {
        items
    } else {
        match bullet_content(t) {
            Some(content) => with_item(items, content),
            None => if numbered(t) {
                with_item(items, without_number(t))
            } else if items.len() > 0 && continues(t, line) {
                items.update(items.len() - 1, items.last() + seq![' '] + t)
            } else {
                items.push(t)
            },
        }
    }
}

/// The items gathered from a run of lines.
pub open spec fn gathered(all: Seq<Seq<char>>) -> Seq<Seq<char>>
    decreases all.len(),
{
    if all.len() == 0 {
        Seq::empty()
    } else {
        take_line(gathered(all.drop_last()), all.last())
    }
}

/// Whether a trimmed item is kept in a list: it is unless it is empty,
/// longer than five hundred bytes, or nothing but dashes.
pub open spec fn keeps(item: Seq<char>) -> bool {
    item.len() > 0 && byte_len(item) <= 500 && !dash_only(item)
}

/// The items of a list that are kept once trimmed, trimmed.
pub open spec fn kept(items: Seq<Seq<char>>) -> Seq<Seq<char>>
    decreases items.len(),
{
    if items.len() == 0 {
        Seq::empty()
    } else {
        let head = kept(items.drop_last());
        let item = trim(items.last());
        if keeps(item) {
            head.push(item)
        } else {
            head
        }
    }
}

/// The items of a text that is read as a list of lines.
pub open spec fn bullet_list(value: Seq<char>) -> Seq<Seq<char>> {
    kept(gathered(lines(value)))
}

/// The pieces of a list that are not empty once trimmed, trimmed.
pub open spec fn trimmed_pieces(pieces: Seq<Seq<char>>) -> Seq<Seq<char>>
    decreases pieces.len(),
{
    if pieces.len() == 0 {
        Seq::empty()
    } else {
        with_item(trimmed_pieces(pieces.drop_last()), trim(pieces.last()))
    }
}

/// The items of a text that is read as one line of items between commas.
pub open spec fn comma_list(value: Seq<char>) -> Seq<Seq<char>> {
    trimmed_pieces(split_on(value, ','))
}

/// Whether a trimmed line shows that the text around it is a list of
/// lines: it is a bulleted line, or begins with digits and a full stop.
pub open spec fn marks_list(t: Seq<char>) -> bool {
    (t.len() > 0 && is_bullet(t[0]) && byte_len(t) > 1) || digits_before_dot(t)
}

/// Whether some line of a run of lines marks a list.
pub open spec fn any_marks_list(all: Seq<Seq<char>>) -> bool
    decreases all.len(),
{
    all.len() > 0 && (any_marks_list(all.drop_last()) || marks_list(trim(all.last())))
}

/// The items of a list field. The text is read as a list of lines if one
/// of its lines is bulleted or numbered; else, if it is a single line with
/// a comma in it, as items between commas; else as a list of lines.
pub open spec fn list_field(value: Seq<char>) -> Seq<Seq<char>> {
    if any_marks_list(lines(value)) {
        bullet_list(value)
    } else if index_of(value, ',') is Some && index_of(value, '\n') is None {
        comma_list(value)
    } else {
        bullet_list(value)
    }
}

fn chars_start_sentence(t: &Vec<char>) -> (b: bool)
    ensures
        b == starts_sentence(t@),
{
    assert(t@.skip(0) =~= t@);
    begins_at(t, 0, &chars_of("The ")) || begins_at(t, 0, &chars_of("This ")) || begins_at(t, 0, &chars_of("When "))
        || begins_at(t, 0, &chars_of("If ")) || begins_at(t, 0, &chars_of("Use ")) || begins_at(
        t,
        0,
        &chars_of("Keep "),
    ) || begins_at(t, 0, &chars_of("Remember ")) || begins_at(t, 0, &chars_of("Consider ")) || begins_at(
        t,
        0,
        &chars_of("Try "),
    ) || begins_at(t, 0, &chars_of("Again ")) || begins_at(t, 0, &chars_of("Also ")) || begins_at(
        t,
        0,
        &chars_of("Another "),
    )
}

fn chars_long_prose(t: &Vec<char>) -> (b: bool)
    ensures
        b == long_prose(t@),
{
    if byte_length(t) > 50 && find_char(t, ' ').is_some() && t.len() > 0 {
        let c = t[0];
        ('a' <= c && c <= 'z') || ('A' <= c && c <= 'Z')
    } else {
        false
    }
}

fn chars_indentation(line: &Vec<char>) -> (n: u128)
    ensures
        n == indentation(line@),
{
    let k = leading_whitespace(line);
    let rest = subvec(line, k, line.len());
    proof {
        assert(rest@ =~= line@.skip(k as int));
        assert(line@ =~= line@.take(k as int) + line@.skip(k as int));
        lemma_byte_len_concat(line@.take(k as int), line@.skip(k as int));
    }
    byte_length(line) - byte_length(&rest)
}

fn chars_continue(t: &Vec<char>, line: &Vec<char>) -> (b: bool)
    ensures
        b == continues(t@, line@),
{
    !chars_long_prose(t) && chars_indentation(line) <= 2 && !chars_start_sentence(t)
}

/// Whether a line without a bullet continues the item before it. `trimmed`
/// is the line with its whitespace normalized, `original_line` the line as
/// it stands in the text.
pub fn should_treat_as_continuation(trimmed: &str, original_line: &str) -> (b: bool)
    ensures
        b == continues(trimmed@, original_line@),
{
    let t = chars_of(trimmed);
    let line = chars_of(original_line);
    chars_continue(&t, &line)
}

fn chars_bullet_content(t: &Vec<char>) -> (content: Option<Vec<char>>)
    ensures
        match content {
            Some(c) => bullet_content(t@) == Some(c@),
            None => bullet_content(t@) is None,
        },
{
    if t.len() > 0 && char_is_bullet(t[0]) && byte_length(t) > 1 {
        let rest = subvec(t, 1, t.len());
        assert(rest@ =~= t@.skip(1));
        Some(trimmed(&rest))
    } else {
        None
    }
}

fn push_item(items: &mut Vec<Vec<char>>, item: Vec<char>)
    ensures
        rows(final(items)@) == with_item(rows(old(items)@), item@),
{
    if item.len() > 0 {
        let ghost before = items@;
        items.push(item);
        assert(rows(items@) =~= rows(before).push(item@));
    }
}

fn take_line_chars(items: &mut Vec<Vec<char>>, line: &Vec<char>)
    ensures
        rows(final(items)@) == take_line(rows(old(items)@), line@),
{
    let t = normalize_chars(line);
    if t.len() == 0 {
        return;
    }
    match chars_bullet_content(&t) {
        Some(content) => push_item(items, content),
        None => {
            if chars_numbered(&t) {
                let content = chars_without_number(&t);
                push_item(items, content);
            } else if items.len() > 0 && chars_continue(&t, line) {
                let ghost before = items@;
                let last = items.len() - 1;
                let mut joined = subvec_all(&items[last]);
                joined.push(' ');
                extend_chars(&mut joined, &t);
                items.set(last, joined);
                proof {
                    assert(joined@ =~= rows(before).last() + seq![' '] + t@);
                    assert(rows(items@) =~= rows(before).update(last as int, joined@));
                }
            } else {
                let ghost before = items@;
                items.push(t);
                assert(rows(items@) =~= rows(before).push(t@));
            }
        },
    }
}

/// The strings for the items that are kept.
fn keep_items(items: &Vec<Vec<char>>) -> (list: Vec<String>)
    ensures
        texts(list@) == kept(rows(items@)),
{
    let mut list: Vec<String> = Vec::new();
    let mut i: usize = 0;
    proof {
        assert(rows(items@).take(0) =~= Seq::<Seq<char>>::empty());
        assert(texts(list@) =~= Seq::<Seq<char>>::empty());
    }
    while i < items.len()
        invariant
            i <= items.len(),
            texts(list@) == kept(rows(items@).take(i as int)),
        decreases items.len() - i,
    {
        proof {
            assert(rows(items@).take(i + 1).drop_last() =~= rows(items@).take(i as int));
        }
        let item = trimmed(&items[i]);
        if item.len() > 0 && byte_length(&item) <= 500 && !chars_dash_only(&item) {
            let ghost before = list@;
            let text = string_of(&item);
            list.push(text);
            assert(texts(list@) =~= texts(before).push(text@));
        }
        i = i + 1;
    }
    proof {
        assert(rows(items@).take(i as int) =~= rows(items@));
    }
    list
}

fn gather(all: &Vec<Vec<char>>) -> (items: Vec<Vec<char>>)
    ensures
        rows(items@) == gathered(rows(all@)),
{
    let mut items: Vec<Vec<char>> = Vec::new();
    let mut i: usize = 0;
    proof {
        assert(rows(all@).take(0) =~= Seq::<Seq<char>>::empty());
        assert(rows(items@) =~= Seq::<Seq<char>>::empty());
    }
    while i < all.len()
        invariant
            i <= all.len(),
            rows(items@) == gathered(rows(all@).take(i as int)),
        decreases all.len() - i,
    {
        proof {
            assert(rows(all@).take(i + 1).drop_last() =~= rows(all@).take(i as int));
        }
        take_line_chars(&mut items, &all[i]);
        i = i + 1;
    }
    proof {
        assert(rows(all@).take(i as int) =~= rows(all@));
    }
    items
}

fn bullet_list_of(chars: &Vec<char>) -> (list: Vec<String>)
    ensures
        texts(list@) == bullet_list(chars@),
{
    let all = split_lines(chars);
    let items = gather(&all);
    keep_items(&items)
}

fn comma_list_of(chars: &Vec<char>) -> (list: Vec<String>)
    ensures
        texts(list@) == comma_list(chars@),
{
    let pieces = split_chars(chars, ',');
    let mut list: Vec<String> = Vec::new();
    let mut i: usize = 0;
    proof {
        assert(rows(pieces@).take(0) =~= Seq::<Seq<char>>::empty());
        assert(texts(list@) =~= Seq::<Seq<char>>::empty());
    }
    while i < pieces.len()
        invariant
            i <= pieces.len(),
            texts(list@) == trimmed_pieces(rows(pieces@).take(i as int)),
        decreases pieces.len() - i,
    {
        proof {
            assert(rows(pieces@).take(i + 1).drop_last() =~= rows(pieces@).take(i as int));
        }
        let item = trimmed(&pieces[i]);
        if item.len() > 0 {
            let ghost before = list@;
            let text = string_of(&item);
            list.push(text);
            assert(texts(list@) =~= texts(before).push(text@));
        }
        i = i + 1;
    }
    proof {
        assert(rows(pieces@).take(i as int) =~= rows(pieces@));
    }
    list
}

fn lines_mark_list(all: &Vec<Vec<char>>) -> (b: bool)
    ensures
        b == any_marks_list(rows(all@)),
{
    let mut found = false;
    let mut i: usize = 0;
    proof {
        assert(rows(all@).take(0) =~= Seq::<Seq<char>>::empty());
    }
    while i < all.len()
        invariant
            i <= all.len(),
            found == any_marks_list(rows(all@).take(i as int)),
        decreases all.len() - i,
    {
        proof {
            assert(rows(all@).take(i + 1).drop_last() =~= rows(all@).take(i as int));
        }
        let t = trimmed(&all[i]);
        if (t.len() > 0 && char_is_bullet(t[0]) && byte_length(&t) > 1) || chars_digits_before_dot(&t) {
            found = true;
        }
        i = i + 1;
    }
    proof {
        assert(rows(all@).take(i as int) =~= rows(all@));
    }
    found
}

/// The items of a text that is read as one line of items between commas:
/// the pieces between the commas, trimmed, without the empty ones.
pub fn parse_comma_list(value: &str) -> (list: Vec<String>)
    ensures
        texts(list@) == comma_list(value@),
{
    let chars = chars_of(value);
    comma_list_of(&chars)
}

/// The items of a text that is read as a list of lines: bulleted and
/// numbered lines without their bullets and numbers, other lines as items
/// of their own or joined to the item before them.
pub fn parse_bullet_list(value: &str) -> (list: Vec<String>)
    ensures
        texts(list@) == bullet_list(value@),
{
    let chars = chars_of(value);
    bullet_list_of(&chars)
}

/// The items of a list field, given line by line or, on a single line,
/// between commas.
pub fn parse_list_field(value: &str) -> (list: Vec<String>)
    ensures
        texts(list@) == list_field(value@),
{
    let chars = chars_of(value);
    let all = split_lines(&chars);
    if lines_mark_list(&all) {
        bullet_list_of(&chars)
    } else if find_char(&chars, ',').is_some() && find_char(&chars, '\n').is_none() {
        comma_list_of(&chars)
    } else {
        bullet_list_of(&chars)
    }
}

/// A line without the hash signs at its start.
pub open spec fn without_hashes(s: Seq<char>) -> Seq<char>
    decreases s.len(),
{
    if s.len() > 0 && s[0] == '#' {
        without_hashes(s.skip(1))
    } else {
        s
    }
}

/// The field that a lowercase label names: every label that begins with
/// `example` names the description, `leetcode url` the link, any other
/// label itself.
pub open spec fn field_name(lower: Seq<char>) -> Seq<char> {
    if has_prefix(lower, "example"@) {
        "description"@
    } else if lower == "leetcode url"@ {
        "leetcode_url"@
    } else {
        lower
    }
}

/// Whether a name is that of a field of a problem.
pub open spec fn known_field(name: Seq<char>) -> bool {
    ||| name == "title"@
    ||| name == "description"@
    ||| name == "difficulty"@
    ||| name == "topics"@
    ||| name == "leetcode_url"@
    ||| name == "constraints"@
    ||| name == "hints"@
    ||| name == "tags"@
}

/// The field and the value that a header gives, from its label as written,
/// the label in lowercase, and what stands behind the colon. An example
/// keeps its label in front of its value; a label that names no field
/// gives nothing.
pub open spec fn classified(lower: Seq<char>, label: Seq<char>, value: Seq<char>) -> Option<
    (Seq<char>, Seq<char>),
> {
    if known_field(field_name(lower)) {
        Some(
            (
                field_name(lower),
                if has_prefix(lower, "example"@) {
                    label + ":\n"@ + value
                } else {
                    value
                },
            ),
        )
    } else {
        None
    }
}

/// The field and the value that a line gives as a header, or `None` for a
/// line that is no header. A header is, behind any hash signs, a label
/// that names a field, a colon, and possibly a value.
pub open spec fn header(line: Seq<char>) -> Option<(Seq<char>, Seq<char>)> {
    let cleaned = trim(without_hashes(line));
    match index_of(cleaned, ':') {
        Some(p) => {
            let label = trim(cleaned.take(p));
            classified(lowercase_of(label), label, trim(cleaned.skip(p + 1)))
        },
        None => None,
    }
}

/// The value of an optional pair of strings.
pub open spec fn pair_view(pair: Option<(String, String)>) -> Option<(Seq<char>, Seq<char>)> {
    match pair {
        Some((a, b)) => Some((a@, b@)),
        None => None,
    }
}

fn is_known_field(name: &str) -> (b: bool)
    ensures
        b == known_field(name@),
{
    same_text(name, "title") || same_text(name, "description") || same_text(name, "difficulty") || same_text(
        name,
        "topics",
    ) || same_text(name, "leetcode_url") || same_text(name, "constraints") || same_text(name, "hints")
        || same_text(name, "tags")
}

/// The field and the value that a header gives, from its label as
/// written, the label in lowercase, and what stands behind the colon.
pub fn classify_field(lower: &str, label: &str, value: &str) -> (found: Option<(String, String)>)
    ensures
        pair_view(found) == classified(lower@, label@, value@),
{
    let lower_chars = chars_of(lower);
    assert(lower_chars@.skip(0) =~= lower_chars@);
    let is_example = begins_at(&lower_chars, 0, &chars_of("example"));
    let name = if is_example {
        String::from_str("description")
    } else if same_text(lower, "leetcode url") {
        String::from_str("leetcode_url")
    } else {
        String::from_str(lower)
    };
    if is_known_field(name.as_str()) {
        let shown = if is_example {
            let mut shown = String::from_str(label);
            shown.append(":\n");
            shown.append(value);
            shown
        } else {
            String::from_str(value)
        };
        Some((name, shown))
    } else {
        None
    }
}

fn skip_hashes(chars: &Vec<char>) -> (v: Vec<char>)
    ensures
        v@ == without_hashes(chars@),
{
    let mut i: usize = 0;
    assert(chars@.skip(0) =~= chars@);
    while i < chars.len() && chars[i] == '#'
        invariant
            i <= chars.len(),
            without_hashes(chars@) == without_hashes(chars@.skip(i as int)),
        decreases chars.len() - i,
    {
        assert(chars@.skip(i as int).skip(1) =~= chars@.skip(i + 1));
        i = i + 1;
    }
    let v = subvec(chars, i, chars.len());
    assert(chars@.subrange(i as int, chars.len() as int) =~= chars@.skip(i as int));
    v
}

fn header_of(line: &Vec<char>) -> (found: Option<(String, String)>)
    ensures
        pair_view(found) == header(line@),
{
    let bare = skip_hashes(line);
    let cleaned = trimmed(&bare);
    match find_char(&cleaned, ':') {
        Some(p) => {
            let before = subvec(&cleaned, 0, p);
            let after = subvec(&cleaned, p + 1, cleaned.len());
            proof {
                assert(before@ =~= cleaned@.take(p as int));
                assert(after@ =~= cleaned@.skip(p + 1));
            }
            let label = string_of(&trimmed(&before));
            let value = string_of(&trimmed(&after));
            let lower = to_lowercase(label.as_str());
            classify_field(lower.as_str(), label.as_str(), value.as_str())
        },
        None => None,
    }
}

/// The field and the value that a line gives as a header, or `None` for a
/// line that is no header.
pub fn parse_field_header(line: &str) -> (found: Option<(String, String)>)
    ensures
        pair_view(found) == header(line@),
{
    let chars = chars_of(line);
    header_of(&chars)
}

/// Whether a text names one of the three difficulties.
pub open spec fn valid_difficulty(d: Seq<char>) -> bool {
    d == "Easy"@ || d == "Medium"@ || d == "Hard"@
}

/// A problem after one of its fields has been given `value`, or the reason
/// for which the value is refused.
///
/// The title and the difficulty are replaced; the title must not be empty,
/// the difficulty must be one of the three. A description is added to the
/// one that is there, behind a blank line; an empty one changes nothing but
/// is refused while there is none. The lists are replaced, except that tags
/// are added to the topics. An empty link changes nothing.
pub open spec fn with_field(p: ParsedProblemView, field: Seq<char>, value: Seq<char>) -> Result<
    ParsedProblemView,
    Seq<char>,
> {
    if field == "title"@ {
        if value.len() == 0 {
            Err("Title cannot be empty"@)
        } else {
            Ok(ParsedProblemView { title: value, ..p })
        }
    } else if field == "description"@ {
        if value.len() == 0 && p.description.len() == 0 {
            Err("Description cannot be empty"@)
        } else if value.len() == 0 {
            Ok(p)
        } else if p.description.len() > 0 {
            Ok(ParsedProblemView { description: p.description + "\n\n"@ + value, ..p })
        } else {
            Ok(ParsedProblemView { description: value, ..p })
        }
    } else if field == "difficulty"@ {
        if valid_difficulty(value) {
            Ok(ParsedProblemView { difficulty: value, ..p })
        } else {
            Err("Invalid difficulty: "@ + value + ". Must be Easy, Medium, or Hard"@)
        }
    } else if field == "topics"@ {
        Ok(ParsedProblemView { topics: list_field(value), ..p })
    } else if field == "leetcode_url"@ {
        if value.len() > 0 {
            Ok(ParsedProblemView { leetcode_url: Some(value), ..p })
        } else {
            Ok(p)
        }
    } else if field == "constraints"@ {
        Ok(ParsedProblemView { constraints: list_field(value), ..p })
    } else if field == "hints"@ {
        Ok(ParsedProblemView { hints: list_field(value), ..p })
    } else if field == "tags"@ {
        Ok(ParsedProblemView { topics: p.topics + list_field(value), ..p })
    } else {
        Err("Unknown field: "@ + field)
    }
}

fn is_valid_difficulty(d: &str) -> (b: bool)
    ensures
        b == valid_difficulty(d@),
{
    same_text(d, "Easy") || same_text(d, "Medium") || same_text(d, "Hard")
}

/// Gives one field of a problem a value. A value that is refused leaves
/// the problem as it was.
pub fn set_problem_field(problem: &mut ParsedProblem, field: &str, value: &str) -> (r: Result<(), String>)
    ensures
        match with_field(old(problem)@, field@, value@) {
            Ok(p) => r is Ok && final(problem)@ == p,
            Err(e) => r is Err && r->Err_0@ == e && final(problem)@ == old(problem)@,
        },
{
    let empty = value.is_empty();
    if same_text(field, "title") {
        if empty {
            return Err(String::from_str("Title cannot be empty"));
        }
        problem.title = String::from_str(value);
    } else if same_text(field, "description") {
        let had = !problem.description.as_str().is_empty();
        if empty && !had {
            return Err(String::from_str("Description cannot be empty"));
        }
        if !empty {
            if had {
                let mut text = problem.description.clone();
                text.append("\n\n");
                text.append(value);
                problem.description = text;
            } else {
                problem.description = String::from_str(value);
            }
        }
    } else if same_text(field, "difficulty") {
        if !is_valid_difficulty(value) {
            let mut message = String::from_str("Invalid difficulty: ");
            message.append(value);
            message.append(". Must be Easy, Medium, or Hard");
            return Err(message);
        }
        problem.difficulty = String::from_str(value);
    } else if same_text(field, "topics") {
        problem.topics = parse_list_field(value);
    } else if same_text(field, "leetcode_url") {
        if !empty {
            problem.leetcode_url = Some(String::from_str(value));
        }
    } else if same_text(field, "constraints") {
        problem.constraints = parse_list_field(value);
    } else if same_text(field, "hints") {
        problem.hints = parse_list_field(value);
    } else if same_text(field, "tags") {
        let more = parse_list_field(value);
        let ghost before = problem.topics@;
        let mut i: usize = 0;
        assert(texts(problem.topics@) =~= texts(before) + texts(more@).take(0));
        while i < more.len()
            invariant
                i <= more.len(),
                texts(problem.topics@) == texts(before) + texts(more@).take(i as int),
                problem.title == old(problem).title,
                problem.description == old(problem).description,
                problem.difficulty == old(problem).difficulty,
                problem.tags == old(problem).tags,
                problem.leetcode_url == old(problem).leetcode_url,
                problem.constraints == old(problem).constraints,
                problem.hints == old(problem).hints,
            decreases more.len() - i,
        {
            let ghost prev = problem.topics@;
            let item = more[i].clone();
            problem.topics.push(item);
            i = i + 1;
            proof {
                assert(texts(problem.topics@) =~= texts(prev).push(item@));
                assert(texts(more@).take(i as int) =~= texts(more@).take(i - 1).push(texts(more@)[i - 1]));
                assert(texts(problem.topics@) =~= texts(before) + texts(more@).take(i as int));
            }
        }
        proof {
            assert(texts(more@).take(i as int) =~= texts(more@));
        }
    } else {
        return Err(crate::text::prefixed("Unknown field: ", field));
    }
    Ok(())
}

/// What keeps a problem from being complete, if anything does: a missing
/// title, description or difficulty, or a difficulty that is none of the
/// three.
pub open spec fn validation_error(p: ParsedProblemView) -> Option<Seq<char>> {
    if p.title.len() == 0 {
        Some("Title is required"@)
    } else if p.description.len() == 0 {
        Some("Description is required"@)
    } else if p.difficulty.len() == 0 {
        Some("Difficulty is required"@)
    } else if !valid_difficulty(p.difficulty) {
        Some("Invalid difficulty: "@ + p.difficulty)
    } else {
        None
    }
}

/// Checks that a problem is complete.
pub fn validate_problem(problem: &ParsedProblem) -> (r: Result<(), String>)
    ensures
        match validation_error(problem@) {
            Some(e) => r is Err && r->Err_0@ == e,
            None => r is Ok,
        },
{
    if problem.title.as_str().is_empty() {
        return Err(String::from_str("Title is required"));
    }
    if problem.description.as_str().is_empty() {
        return Err(String::from_str("Description is required"));
    }
    if problem.difficulty.as_str().is_empty() {
        return Err(String::from_str("Difficulty is required"));
    }
    if !is_valid_difficulty(problem.difficulty.as_str()) {
        return Err(crate::text::prefixed("Invalid difficulty: ", problem.difficulty.as_str()));
    }
    Ok(())
}

/// The state of reading a text line by line.
pub struct ReaderState {
    /// The problems that are complete.
    pub problems: Seq<ParsedProblemView>,
    /// The problem being read.
    pub current: Option<ParsedProblemView>,
    /// The field being read.
    pub field: Option<Seq<char>>,
    /// What has been read of its value.
    pub value: Seq<char>,
    /// Why reading came to an end, if it did.
    pub failure: Option<Seq<char>>,
}

/// The views of a run of problems.
pub open spec fn problem_views(problems: Seq<ParsedProblem>) -> Seq<ParsedProblemView> {
    problems.map_values(|p: ParsedProblem| p@)
}

impl ReaderState {
    /// The state before the first line.
    pub open spec fn start() -> ReaderState {
        ReaderState { problems: Seq::empty(), current: None, field: None, value: Seq::empty(), failure: None }
    }

    /// The state after the field being read has been given its value. A
    /// field that stands before the first title belongs to no problem and
    /// is dropped.
    pub open spec fn stored(self) -> ReaderState {
        if self.failure is Some || self.current is None || self.field is None {
            self
        } else {
            match with_field(self.current->Some_0, self.field->Some_0, trim(self.value)) {
                Ok(p) => ReaderState { current: Some(p), ..self },
                Err(e) => ReaderState { failure: Some(e), ..self },
            }
        }
    }

    /// The complete problems, with the one being read behind them.
    pub open spec fn all_problems(self) -> Seq<ParsedProblemView> {
        match self.current {
            Some(p) => self.problems.push(p),
            None => self.problems,
        }
    }

    /// The state after a header for `name` with `immediate` behind its
    /// colon: the field before it is stored, a title begins a new problem,
    /// and the value of the new field begins with `immediate`.
    pub open spec fn begin_field(self, name: Seq<char>, immediate: Seq<char>) -> ReaderState {
        let stored = self.stored();
        if stored.failure is Some {
            stored
        } else if name == "title"@ {
            ReaderState {
                problems: stored.all_problems(),
                current: Some(ParsedProblemView::empty()),
                field: Some(name),
                value: immediate,
                failure: None,
            }
        } else {
            ReaderState { field: Some(name), value: immediate, ..stored }
        }
    }

    /// The state after one more line. Blank lines are passed over. A header
    /// begins a field; any other line is added to the value being read, on
    /// a line of its own.
    pub open spec fn read(self, line: Seq<char>) -> ReaderState {
        let t = trim(line);
        if self.failure is Some || t.len() == 0 {
            self
        } else {
            match header(t) {
                Some((name, immediate)) => self.begin_field(name, immediate),
                None => ReaderState {
                    value: if self.value.len() > 0 {
                        self.value + seq!['\n'] + t
                    } else {
                        t
                    },
                    ..self
                },
            }
        }
    }
}

/// The state after a run of lines.
pub open spec fn read_all(all: Seq<Seq<char>>) -> ReaderState
    decreases all.len(),
{
    if all.len() == 0 {
        ReaderState::start()
    } else {
        read_all(all.drop_last()).read(all.last())
    }
}

/// The place of the first problem that is not complete, with what it
/// lacks.
pub open spec fn first_incomplete(problems: Seq<ParsedProblemView>) -> Option<(int, Seq<char>)>
    decreases problems.len(),
{
    if problems.len() == 0 {
        None
    } else {
        match first_incomplete(problems.drop_last()) {
            Some(found) => Some(found),
            None => match validation_error(problems.last()) {
                Some(e) => Some((problems.len() - 1, e)),
                None => None,
            },
        }
    }
}

/// The message for the `index`-th problem, counted from zero, that lacks
/// what `reason` says.
pub open spec fn incomplete_message(index: int, reason: Seq<char>) -> Seq<char> {
    "Problem "@ + decimal((index + 1) as nat) + " validation failed: "@ + reason
}

/// The problems of a text, or the reason for which the text is refused: a
/// value that its field does not take, or the first problem that is not
/// complete.
pub open spec fn parsed(content: Seq<char>) -> Result<Seq<ParsedProblemView>, Seq<char>> {
    let end = read_all(lines(content)).stored();
    match end.failure {
        Some(e) => Err(e),
        None => match first_incomplete(end.all_problems()) {
            Some((index, reason)) => Err(incomplete_message(index, reason)),
            None => Ok(end.all_problems()),
        },
    }
}

/// Once reading has come to an end, further lines change nothing.
pub proof fn lemma_failure_stays(all: Seq<Seq<char>>, n: int)
    requires
        0 <= n <= all.len(),
        read_all(all.take(n)).failure is Some,
    ensures
        read_all(all) == read_all(all.take(n)),
    decreases all.len() - n,
{
    if n < all.len() {
        assert(all.take(n + 1).drop_last() =~= all.take(n));
        lemma_failure_stays(all, n + 1);
    } else {
        assert(all.take(n) =~= all);
    }
}

/// The reader's state as the parser holds it.
struct Reader {
    problems: Vec<ParsedProblem>,
    current: Option<ParsedProblem>,
    field: Option<String>,
    value: Vec<char>,
}

impl Reader {
    spec fn state(self) -> ReaderState {
        ReaderState {
            problems: problem_views(self.problems@),
            current: match self.current {
                Some(p) => Some(p@),
                None => None,
            },
            field: optional_text(self.field),
            value: self.value@,
            failure: None,
        }
    }

    /// Gives the field being read its value.
    fn store(self) -> (r: Result<Reader, String>)
        ensures
            match r {
                Ok(next) => next.state() == self.state().stored(),
                Err(e) => self.state().stored().failure == Some(e@),
            },
    {
        let Reader { problems, current, field, value } = self;
        match current {
            Some(mut problem) => match field {
                Some(name) => {
                    let text = string_of(&trimmed(&value));
                    match set_problem_field(&mut problem, name.as_str(), text.as_str()) {
                        Ok(_) => Ok(Reader { problems, current: Some(problem), field: Some(name), value }),
                        Err(e) => Err(e),
                    }
                },
                None => Ok(Reader { problems, current: Some(problem), field: None, value }),
            },
            None => Ok(Reader { problems, current: None, field, value }),
        }
    }

    /// Moves the problem being read behind the complete ones.
    fn close(self) -> (problems: Vec<ParsedProblem>)
        ensures
            problem_views(problems@) == self.state().all_problems(),
    {
        let Reader { mut problems, current, field, value } = self;
        match current {
            Some(problem) => {
                let ghost before = problems@;
                problems.push(problem);
                assert(problem_views(problems@) =~= problem_views(before).push(problem@));
            },
            None => {},
        }
        problems
    }
}

/// Reads the problems of a text.
///
/// The text is taken line by line; blank lines are passed over. A line
/// that is a header begins a field, and a `title` header begins a problem.
/// Any other line belongs to the value of the field before it. The text is
/// refused as soon as a field does not take its value, and in the end if a
/// problem is not complete.
pub fn parse_txt_content(content: &str) -> (r: Result<Vec<ParsedProblem>, String>)
    ensures
        match parsed(content@) {
            Ok(problems) => r is Ok && problem_views(r->Ok_0@) == problems,
            Err(e) => r is Err && r->Err_0@ == e,
        },
{
    let chars = chars_of(content);
    let all = split_lines(&chars);
    let mut reader = Reader { problems: Vec::new(), current: None, field: None, value: Vec::new() };
    let mut i: usize = 0;
    proof {
        assert(rows(all@).take(0) =~= Seq::<Seq<char>>::empty());
        assert(problem_views(reader.problems@) =~= Seq::<ParsedProblemView>::empty());
    }
    while i < all.len()
        invariant
            i <= all.len(),
            rows(all@) == lines(content@),
            reader.state() == read_all(rows(all@).take(i as int)),
        decreases all.len() - i,
    {
        proof {
            assert(rows(all@).take(i + 1).drop_last() =~= rows(all@).take(i as int));
            assert(rows(all@).take(i + 1).last() == all@[i as int]@);
        }
        let t = trimmed(&all[i]);
        let ghost before = reader.state();
        let ghost line = all@[i as int]@;
        if t.len() > 0 {
            match header_of(&t) {
                Some((name, immediate)) => {
                    match reader.store() {
                        Ok(stored) => {
                            let Reader { problems, current, field, value } = stored;
                            let is_title = same_text(name.as_str(), "title");
                            let stored = Reader { problems, current, field, value };
                            if is_title {
                                let problems = stored.close();
                                reader = Reader {
                                    problems,
                                    current: Some(ParsedProblem::new()),
                                    field: Some(name),
                                    value: chars_of(immediate.as_str()),
                                };
                            } else {
                                let Reader { problems, current, field, value } = stored;
                                reader = Reader {
                                    problems,
                                    current,
                                    field: Some(name),
                                    value: chars_of(immediate.as_str()),
                                };
                            }
                            assert(reader.state() == before.begin_field(name@, immediate@));
                            assert(reader.state() == before.read(line));
                        },
                        Err(e) => {
                            proof {
                                lemma_failure_stays(rows(all@), i + 1);
                            }
                            return Err(e);
                        },
                    }
                },
                None => {
                    let Reader { problems, current, field, mut value } = reader;
                    let ghost held = value@;
                    if value.len() > 0 {
                        value.push('\n');
                    }
                    extend_chars(&mut value, &t);
                    proof {
                        if held.len() > 0 {
                            assert(value@ =~= held + seq!['\n'] + t@);
                        } else {
                            assert(value@ =~= t@);
                        }
                    }
                    reader = Reader { problems, current, field, value };
                    assert(reader.state() == before.read(line));
                },
            }
        }
        i = i + 1;
    }
    proof {
        assert(rows(all@).take(i as int) =~= rows(all@));
    }
    match reader.store() {
        Ok(stored) => {
            let ghost end = read_all(lines(content@)).stored();
            assert(stored.state() == end);
            let problems = stored.close();
            let mut k: usize = 0;
            proof {
                assert(problem_views(problems@).take(0) =~= Seq::<ParsedProblemView>::empty());
            }
            while k < problems.len()
                invariant
                    k <= problems.len(),
                    end == read_all(lines(content@)).stored(),
                    end.failure is None,
                    problem_views(problems@) == end.all_problems(),
                    first_incomplete(problem_views(problems@).take(k as int)) is None,
                decreases problems.len() - k,
            {
                proof {
                    assert(problem_views(problems@).take(k + 1).drop_last() =~= problem_views(problems@).take(
                        k as int,
                    ));
                }
                match validate_problem(&problems[k]) {
                    Ok(_) => {},
                    Err(reason) => {
                        proof {
                            lemma_first_incomplete_found(problem_views(problems@), k as int);
                        }
                        let mut message = chars_of("Problem ");
                        push_decimal((k + 1) as u64, &mut message);
                        extend_chars(&mut message, &chars_of(" validation failed: "));
                        extend_chars(&mut message, &chars_of(reason.as_str()));
                        proof {
                            assert(problem_views(problems@)[k as int] == problems@[k as int]@);
                            assert(message@ == incomplete_message(k as int, reason@));
                        }
                        return Err(string_of(&message));
                    },
                }
                k = k + 1;
            }
            proof {
                assert(problem_views(problems@).take(k as int) =~= problem_views(problems@));
            }
            Ok(problems)
        },
        Err(e) => Err(e),
    }
}

/// The first problem that is not complete stays the first when more
/// problems follow.
pub proof fn lemma_first_incomplete_found(problems: Seq<ParsedProblemView>, k: int)
    requires
        0 <= k < problems.len(),
        first_incomplete(problems.take(k)) is None,
        validation_error(problems[k]) is Some,
    ensures
        first_incomplete(problems) == Some((k, validation_error(problems[k])->Some_0)),
    decreases problems.len() - k,
{
    assert(problems.take(k + 1).drop_last() =~= problems.take(k));
    assert(first_incomplete(problems.take(k + 1)) == Some((k, validation_error(problems[k])->Some_0)));
    lemma_first_incomplete_prefix(problems, k + 1);
}

/// What is found in a prefix is found in the whole.
proof fn lemma_first_incomplete_prefix(problems: Seq<ParsedProblemView>, n: int)
    requires
        0 <= n <= problems.len(),
        first_incomplete(problems.take(n)) is Some,
    ensures
        first_incomplete(problems) == first_incomplete(problems.take(n)),
    decreases problems.len() - n,
{
    if n < problems.len() {
        assert(problems.take(n + 1).drop_last() =~= problems.take(n));
        lemma_first_incomplete_prefix(problems, n + 1);
    } else {
        assert(problems.take(n) =~= problems);
    }
}

} // verus!
