//! String helpers shared by the rest of the library.

use vstd::prelude::*;
use vstd::string::StringExecFns;

verus! {

/// Taken on trust of the standard library: `==` on `str` holds exactly when
/// the two slices hold the same characters.
pub assume_specification[ <str as PartialEq>::eq ](a: &str, b: &str) -> (r: bool)
    ensures
        r == (a@ == b@),
;

/// Taken on trust of the standard library: `String::push` appends the
/// character to the end of the string and changes nothing else.
pub assume_specification[ String::push ](s: &mut String, c: char)
    ensures
        final(s)@ == old(s)@.push(c),
;

/// The lowercase form of a text as `str::to_lowercase` gives it.
pub uninterp spec fn lowercase_of(text: Seq<char>) -> Seq<char>;

/// Calls `str::to_lowercase`. Taken on trust: the result depends on the
/// text alone, so that it can be named; nothing more is claimed of it.
#[verifier::external_body]
pub(crate) fn to_lowercase(text: &str) -> (lower: String)
    ensures
        lower@ == lowercase_of(text@),
{
    text.to_lowercase()
}

/// Whether two string slices hold the same characters.
pub fn same_text(a: &str, b: &str) -> (r: bool)
    ensures
        r == (a@ == b@),
{
    *a == *b
}

/// `prefix` followed by `rest`.
pub fn prefixed(prefix: &str, rest: &str) -> (s: String)
    ensures
        s@ == prefix@ + rest@,
{
    let mut s = String::from_str(prefix);
    s.append(rest);
    s
}

/// The views of a sequence of strings.
pub open spec fn texts(v: Seq<String>) -> Seq<Seq<char>> {
    v.map_values(|s: String| s@)
}

/// Whether `v` holds a string equal to `name`.
pub fn contains_text(v: &Vec<String>, name: &str) -> (found: bool)
    ensures
        found == texts(v@).contains(name@),
{
    let mut i: usize = 0;
    while i < v.len()
        invariant
            i <= v.len(),
            forall|j: int| 0 <= j < i ==> texts(v@)[j] != name@,
        decreases v.len() - i,
    {
        if same_text(v[i].as_str(), name) {
            assert(texts(v@)[i as int] == name@);
            return true;
        }
        i = i + 1;
    }
    false
}

/// A copy of a list of strings.
pub fn clone_strings(v: &Vec<String>) -> (copy: Vec<String>)
    ensures
        texts(copy@) == texts(v@),
{
    let mut copy: Vec<String> = Vec::new();
    let mut i: usize = 0;
    assert(texts(copy@) =~= texts(v@).take(0));
    while i < v.len()
        invariant
            i <= v.len(),
            texts(copy@) == texts(v@).take(i as int),
        decreases v.len() - i,
    {
        let ghost before = copy@;
        let item = v[i].clone();
        copy.push(item);
        i = i + 1;
        proof {
            assert(texts(copy@) =~= texts(before).push(item@));
            assert(texts(v@).take(i as int) =~= texts(v@).take(i - 1).push(texts(v@)[i - 1]));
        }
    }
    assert(texts(v@).take(i as int) =~= texts(v@));
    copy
}

/// The characters of a string.
pub fn chars_of(s: &str) -> (v: Vec<char>)
    ensures
        v@ == s@,
{
    let mut v: Vec<char> = Vec::new();
    for c in it: s.chars()
        invariant
            v@ == it.seq().take(it.index() as int),
            it.seq() == s@,
    {
        v.push(c);
    }
    v
}

/// The string made of the characters `chars[from..to]`.
pub fn string_between(chars: &Vec<char>, from: usize, to: usize) -> (s: String)
    requires
        from <= to <= chars.len(),
    ensures
        s@ == chars@.subrange(from as int, to as int),
{
    let mut s = String::new();
    let mut i: usize = from;
    while i < to
        invariant
            from <= i <= to <= chars.len(),
            s@ == chars@.subrange(from as int, i as int),
        decreases to - i,
    {
        s.push(chars[i]);
        i = i + 1;
        assert(chars@.subrange(from as int, i as int) =~= chars@.subrange(from as int, i - 1).push(chars@[i - 1]));
    }
    s
}

/// The string made of `chars`.
pub fn string_of(chars: &Vec<char>) -> (s: String)
    ensures
        s@ == chars@,
{
    let s = string_between(chars, 0, chars.len());
    assert(chars@.subrange(0, chars.len() as int) =~= chars@);
    s
}

/// Whether `s` begins with `prefix`.
pub open spec fn has_prefix(s: Seq<char>, prefix: Seq<char>) -> bool {
    prefix.len() <= s.len() && s.take(prefix.len() as int) == prefix
}

/// Whether `s[at..]` begins with `prefix`.
pub fn begins_at(s: &Vec<char>, at: usize, prefix: &Vec<char>) -> (b: bool)
    requires
        at <= s.len(),
    ensures
        b == has_prefix(s@.skip(at as int), prefix@),
{
    if prefix.len() > s.len() - at {
        return false;
    }
    let ghost rest = s@.skip(at as int);
    let mut i: usize = 0;
    while i < prefix.len()
        invariant
            i <= prefix.len() <= s.len() - at,
            rest == s@.skip(at as int),
            rest.take(i as int) == prefix@.take(i as int),
        decreases prefix.len() - i,
    {
        if s[at + i] != prefix[i] {
            assert(rest.take(prefix.len() as int)[i as int] != prefix@[i as int]);
            return false;
        }
        i = i + 1;
        proof {
            assert(rest.take(i as int) =~= rest.take(i - 1).push(rest[i - 1]));
            assert(prefix@.take(i as int) =~= prefix@.take(i - 1).push(prefix@[i - 1]));
        }
    }
    proof {
        assert(prefix@.take(prefix.len() as int) =~= prefix@);
    }
    true
}

/// Whether `s` begins with `prefix`.
pub fn starts_with(s: &str, prefix: &str) -> (b: bool)
    ensures
        b == has_prefix(s@, prefix@),
{
    let chars = chars_of(s);
    let wanted = chars_of(prefix);
    assert(chars@.skip(0) =~= chars@);
    begins_at(&chars, 0, &wanted)
}

/// A copy of `chars[from..to]`.
pub fn subvec(chars: &Vec<char>, from: usize, to: usize) -> (v: Vec<char>)
    requires
        from <= to <= chars.len(),
    ensures
        v@ == chars@.subrange(from as int, to as int),
{
    let mut v: Vec<char> = Vec::new();
    let mut i: usize = from;
    while i < to
        invariant
            from <= i <= to <= chars.len(),
            v@ == chars@.subrange(from as int, i as int),
        decreases to - i,
    {
        v.push(chars[i]);
        i = i + 1;
        assert(chars@.subrange(from as int, i as int) =~= chars@.subrange(from as int, i - 1).push(chars@[i - 1]));
    }
    v
}

/// Appends the characters of `more` to `v`.
pub fn extend_chars(v: &mut Vec<char>, more: &Vec<char>)
    ensures
        final(v)@ == old(v)@ + more@,
{
    let ghost before = v@;
    let mut i: usize = 0;
    assert(v@ =~= before + more@.take(0));
    while i < more.len()
        invariant
            i <= more.len(),
            v@ == before + more@.take(i as int),
        decreases more.len() - i,
    {
        v.push(more[i]);
        i = i + 1;
        assert(before + more@.take(i as int) =~= (before + more@.take(i - 1)).push(more@[i - 1]));
    }
    assert(more@.take(i as int) =~= more@);
}

/// Whether a character has the Unicode property `White_Space`.
pub open spec fn is_whitespace(c: char) -> bool {
    let u = c as u32;
    ||| 0x09 <= u <= 0x0d
    ||| u == 0x20
    ||| u == 0x85
    ||| u == 0xa0
    ||| u == 0x1680
    ||| 0x2000 <= u <= 0x200a
    ||| u == 0x2028
    ||| u == 0x2029
    ||| u == 0x202f
    ||| u == 0x205f
    ||| u == 0x3000
}

/// Whether a character has the Unicode property `White_Space`.
pub fn is_space(c: char) -> (b: bool)
    ensures
        b == is_whitespace(c),
{
    let u: u32 = c as u32;
    (0x09 <= u && u <= 0x0d) || u == 0x20 || u == 0x85 || u == 0xa0 || u == 0x1680 || (0x2000 <= u && u <= 0x200a)
        || u == 0x2028 || u == 0x2029 || u == 0x202f || u == 0x205f || u == 0x3000
}

/// Whether a character is one of the ASCII digits.
pub open spec fn is_ascii_digit(c: char) -> bool {
    '0' <= c <= '9'
}

/// Whether a character is one of the ASCII letters.
pub open spec fn is_ascii_letter(c: char) -> bool {
    ('a' <= c <= 'z') || ('A' <= c <= 'Z')
}

/// Number of bytes of a character in UTF-8.
pub open spec fn utf8_width(c: char) -> nat {
    let u = c as u32;
    if u < 0x80 {
        1
    } else if u < 0x800 {
        2
    } else if u < 0x1_0000 {
        3
    } else {
        4
    }
}

/// Number of bytes of a text in UTF-8.
pub open spec fn byte_len(s: Seq<char>) -> nat
    decreases s.len(),
{
    if s.len() == 0 {
        0
    } else {
        byte_len(s.drop_last()) + utf8_width(s.last())
    }
}

/// The bytes of two texts add up.
pub proof fn lemma_byte_len_concat(a: Seq<char>, b: Seq<char>)
    ensures
        byte_len(a + b) == byte_len(a) + byte_len(b),
    decreases b.len(),
{
    if b.len() == 0 {
        assert(a + b =~= a);
    } else {
        assert((a + b).drop_last() =~= a + b.drop_last());
        lemma_byte_len_concat(a, b.drop_last());
    }
}

/// Number of bytes of a character in UTF-8.
pub fn char_width(c: char) -> (w: u64)
    ensures
        w == utf8_width(c),
        1 <= w <= 4,
{
    let u: u32 = c as u32;
    if u < 0x80 {
        1
    } else if u < 0x800 {
        2
    } else if u < 0x1_0000 {
        3
    } else {
        4
    }
}

/// Number of bytes of a text in UTF-8.
pub fn byte_length(chars: &Vec<char>) -> (n: u128)
    ensures
        n == byte_len(chars@),
{
    let mut n: u128 = 0;
    let mut i: usize = 0;
    assert(chars@.take(0) =~= Seq::<char>::empty());
    while i < chars.len()
        invariant
            i <= chars.len(),
            n == byte_len(chars@.take(i as int)),
            n <= 4 * i,
        decreases chars.len() - i,
    {
        proof {
            assert(chars@.take(i + 1).drop_last() =~= chars@.take(i as int));
        }
        n = n + char_width(chars[i]) as u128;
        i = i + 1;
    }
    assert(chars@.take(i as int) =~= chars@);
    n
}

/// A text without the whitespace at its start.
pub open spec fn trim_start(s: Seq<char>) -> Seq<char>
    decreases s.len(),
{
    if s.len() > 0 && is_whitespace(s[0]) {
        trim_start(s.skip(1))
    } else {
        s
    }
}

/// A text without the whitespace at its end.
pub open spec fn trim_end(s: Seq<char>) -> Seq<char>
    decreases s.len(),
{
    if s.len() > 0 && is_whitespace(s.last()) {
        trim_end(s.drop_last())
    } else {
        s
    }
}

/// A text without the whitespace at its start and at its end.
pub open spec fn trim(s: Seq<char>) -> Seq<char> {
    trim_end(trim_start(s))
}

/// Index of the first character of `chars` that is not whitespace, or the
/// length where there is none.
pub fn leading_whitespace(chars: &Vec<char>) -> (i: usize)
    ensures
        i <= chars.len(),
        trim_start(chars@) == chars@.skip(i as int),
{
    let mut i: usize = 0;
    assert(chars@.skip(0) =~= chars@);
    while i < chars.len() && is_space(chars[i])
        invariant
            i <= chars.len(),
            trim_start(chars@) == trim_start(chars@.skip(i as int)),
        decreases chars.len() - i,
    {
        assert(chars@.skip(i as int).skip(1) =~= chars@.skip(i + 1));
        i = i + 1;
    }
    i
}

/// A copy of `chars` without the whitespace at its start.
pub fn trimmed_start(chars: &Vec<char>) -> (v: Vec<char>)
    ensures
        v@ == trim_start(chars@),
{
    let i = leading_whitespace(chars);
    let v = subvec(chars, i, chars.len());
    assert(chars@.subrange(i as int, chars.len() as int) =~= chars@.skip(i as int));
    v
}

/// A copy of `chars` without the whitespace at its start and at its end.
pub fn trimmed(chars: &Vec<char>) -> (v: Vec<char>)
    ensures
        v@ == trim(chars@),
{
    let i = leading_whitespace(chars);
    let ghost rest = chars@.skip(i as int);
    let mut j: usize = chars.len();
    assert(chars@.subrange(i as int, j as int) =~= rest);
    while j > i && is_space(chars[j - 1])
        invariant
            i <= j <= chars.len(),
            rest == chars@.skip(i as int),
            trim_end(rest) == trim_end(chars@.subrange(i as int, j as int)),
        decreases j,
    {
        assert(chars@.subrange(i as int, j as int).drop_last() =~= chars@.subrange(i as int, j - 1));
        j = j - 1;
    }
    subvec(chars, i, j)
}

/// Index of the first `wanted` in a text, if it occurs.
pub open spec fn index_of(s: Seq<char>, wanted: char) -> Option<int>
    decreases s.len(),
{
    if s.len() == 0 {
        None
    } else if s[0] == wanted {
        Some(0)
    } else {
        match index_of(s.skip(1), wanted) {
            Some(i) => Some(i + 1),
            None => None,
        }
    }
}

/// `index_of` gives the first place of the character, and none exactly when
/// the character does not occur.
pub proof fn lemma_index_of(s: Seq<char>, wanted: char)
    ensures
        match index_of(s, wanted) {
            Some(i) => 0 <= i < s.len() && s[i] == wanted && forall|j: int| 0 <= j < i ==> s[j] != wanted,
            None => forall|j: int| 0 <= j < s.len() ==> s[j] != wanted,
        },
    decreases s.len(),
{
    if s.len() > 0 && s[0] != wanted {
        let rest = s.skip(1);
        lemma_index_of(rest, wanted);
        match index_of(rest, wanted) {
            Some(i) => {
                assert forall|j: int| 0 <= j < i + 1 implies s[j] != wanted by {
                    if j > 0 {
                        assert(rest[j - 1] == s[j]);
                    }
                }
            },
            None => {
                assert forall|j: int| 0 <= j < s.len() implies s[j] != wanted by {
                    if j > 0 {
                        assert(rest[j - 1] == s[j]);
                    }
                }
            },
        }
    }
}

/// The first place that satisfies what `index_of` promises is the one that
/// `index_of` gives.
pub proof fn lemma_index_of_is(s: Seq<char>, wanted: char, at: Option<int>)
    requires
        match at {
            Some(i) => 0 <= i < s.len() && s[i] == wanted && forall|j: int| 0 <= j < i ==> s[j] != wanted,
            None => forall|j: int| 0 <= j < s.len() ==> s[j] != wanted,
        },
    ensures
        index_of(s, wanted) == at,
{
    lemma_index_of(s, wanted);
}

/// Index of the first `wanted` in `chars`, if it occurs.
pub fn find_char(chars: &Vec<char>, wanted: char) -> (at: Option<usize>)
    ensures
        match at {
            Some(i) => index_of(chars@, wanted) == Some(i as int) && i < chars.len(),
            None => index_of(chars@, wanted) is None,
        },
{
    let mut i: usize = 0;
    while i < chars.len()
        invariant
            i <= chars.len(),
            forall|j: int| 0 <= j < i ==> chars@[j] != wanted,
        decreases chars.len() - i,
    {
        if chars[i] == wanted {
            proof {
                lemma_index_of_is(chars@, wanted, Some(i as int));
            }
            return Some(i);
        }
        i = i + 1;
    }
    proof {
        lemma_index_of_is(chars@, wanted, None);
    }
    None
}

/// The views of a sequence of texts held as characters.
pub open spec fn rows(v: Seq<Vec<char>>) -> Seq<Seq<char>> {
    v.map_values(|r: Vec<char>| r@)
}

/// Number of characters of a text before its first `stop`, or its length
/// where `stop` does not occur.
pub open spec fn run_until(s: Seq<char>, stop: char) -> nat
    decreases s.len(),
{
    if s.len() == 0 || s[0] == stop {
        0
    } else {
        1 + run_until(s.skip(1), stop)
    }
}

/// `run_until` is the place of the first `stop`.
pub proof fn lemma_run_until(s: Seq<char>, stop: char)
    ensures
        run_until(s, stop) <= s.len(),
        forall|j: int| 0 <= j < run_until(s, stop) ==> s[j] != stop,
        run_until(s, stop) < s.len() ==> s[run_until(s, stop) as int] == stop,
    decreases s.len(),
{
    if s.len() > 0 && s[0] != stop {
        let rest = s.skip(1);
        lemma_run_until(rest, stop);
        assert forall|j: int| 0 <= j < run_until(s, stop) implies s[j] != stop by {
            if j > 0 {
                assert(rest[j - 1] == s[j]);
            }
        }
        if run_until(s, stop) < s.len() {
            assert(rest[run_until(rest, stop) as int] == s[run_until(s, stop) as int]);
        }
    }
}

/// A run without `stop` that ends at a `stop` or at the end of the text is
/// the run that `run_until` measures.
pub proof fn lemma_run_until_is(s: Seq<char>, stop: char, n: int)
    requires
        0 <= n <= s.len(),
        forall|j: int| 0 <= j < n ==> s[j] != stop,
        n < s.len() ==> s[n] == stop,
    ensures
        run_until(s, stop) == n,
{
    lemma_run_until(s, stop);
}

/// The pieces of a text between the occurrences of `sep`; a text without
/// `sep` is one piece, and two occurrences in a row have an empty piece
/// between them.
pub open spec fn split_on(s: Seq<char>, sep: char) -> Seq<Seq<char>>
    decreases s.len(),
{
    let end = run_until(s, sep);
    if end < s.len() {
        seq![s.take(end as int)] + split_on(s.skip(end as int + 1), sep)
    } else {
        seq![s]
    }
}

/// A line without the carriage return that ends it, if one does.
pub open spec fn without_carriage_return(line: Seq<char>) -> Seq<char> {
    if line.len() > 0 && line.last() == '\r' {
        line.drop_last()
    } else {
        line
    }
}

/// The lines of a text. A line ends with a line feed, or with a carriage
/// return and a line feed, neither of which belongs to it; the last line
/// may end with the text instead, and then keeps a carriage return at its
/// end. An empty text has no lines.
pub open spec fn lines(s: Seq<char>) -> Seq<Seq<char>>
    decreases s.len(),
{
    if s.len() == 0 {
        Seq::empty()
    } else {
        let end = run_until(s, '\n');
        if end < s.len() {
            seq![without_carriage_return(s.take(end as int))] + lines(s.skip(end as int + 1))
        } else {
            seq![s]
        }
    }
}

/// The pieces of `chars` between the occurrences of `sep`.
pub fn split_chars(chars: &Vec<char>, sep: char) -> (pieces: Vec<Vec<char>>)
    ensures
        rows(pieces@) == split_on(chars@, sep),
{
    let mut pieces: Vec<Vec<char>> = Vec::new();
    let mut start: usize = 0;
    let mut i: usize = 0;
    proof {
        assert(chars@.skip(0) =~= chars@);
        assert(rows(pieces@) + split_on(chars@, sep) =~= split_on(chars@, sep));
    }
    while i < chars.len()
        invariant
            start <= i <= chars.len(),
            forall|j: int| start <= j < i ==> chars@[j] != sep,
            rows(pieces@) + split_on(chars@.skip(start as int), sep) == split_on(chars@, sep),
        decreases chars.len() - i,
    {
        if chars[i] == sep {
            let ghost rest = chars@.skip(start as int);
            let ghost before = pieces@;
            proof {
                lemma_run_until_is(rest, sep, i - start);
            }
            let piece = subvec(chars, start, i);
            pieces.push(piece);
            proof {
                assert(rest.take(i - start) =~= chars@.subrange(start as int, i as int));
                assert(rest.skip(i - start + 1) =~= chars@.skip(i + 1));
                assert(rows(pieces@) =~= rows(before).push(piece@));
                assert(rows(pieces@) + split_on(chars@.skip(i + 1), sep) =~= rows(before) + split_on(rest, sep));
            }
            start = i + 1;
        }
        i = i + 1;
    }
    let ghost rest = chars@.skip(start as int);
    let ghost before = pieces@;
    proof {
        lemma_run_until_is(rest, sep, rest.len() as int);
    }
    let piece = subvec(chars, start, chars.len());
    pieces.push(piece);
    proof {
        assert(chars@.subrange(start as int, chars.len() as int) =~= rest);
        assert(rows(pieces@) =~= rows(before).push(piece@));
        assert(rows(pieces@) =~= rows(before) + split_on(rest, sep));
    }
    pieces
}

/// The lines of `chars`.
pub fn split_lines(chars: &Vec<char>) -> (found: Vec<Vec<char>>)
    ensures
        rows(found@) == lines(chars@),
{
    let mut found: Vec<Vec<char>> = Vec::new();
    let mut start: usize = 0;
    let mut i: usize = 0;
    proof {
        assert(chars@.skip(0) =~= chars@);
        assert(rows(found@) + lines(chars@) =~= lines(chars@));
    }
    while i < chars.len()
        invariant
            start <= i <= chars.len(),
            forall|j: int| start <= j < i ==> chars@[j] != '\n',
            rows(found@) + lines(chars@.skip(start as int)) == lines(chars@),
        decreases chars.len() - i,
    {
        if chars[i] == '\n' {
            let ghost rest = chars@.skip(start as int);
            let ghost before = found@;
            proof {
                lemma_run_until_is(rest, '\n', i - start);
            }
            let end = if i > start && chars[i - 1] == '\r' {
                i - 1
            } else {
                i
            };
            let line = subvec(chars, start, end);
            found.push(line);
            proof {
                assert(rest.take(i - start) =~= chars@.subrange(start as int, i as int));
                assert(line@ =~= without_carriage_return(rest.take(i - start)));
                assert(rest.skip(i - start + 1) =~= chars@.skip(i + 1));
                assert(rows(found@) =~= rows(before).push(line@));
                assert(rows(found@) + lines(chars@.skip(i + 1)) =~= rows(before) + lines(rest));
            }
            start = i + 1;
        }
        i = i + 1;
    }
    if start < chars.len() {
        let ghost rest = chars@.skip(start as int);
        let ghost before = found@;
        proof {
            lemma_run_until_is(rest, '\n', rest.len() as int);
        }
        let line = subvec(chars, start, chars.len());
        found.push(line);
        proof {
            assert(chars@.subrange(start as int, chars.len() as int) =~= rest);
            assert(rows(found@) =~= rows(before).push(line@));
            assert(rows(found@) =~= rows(before) + lines(rest));
        }
    } else {
        proof {
            assert(chars@.skip(start as int) =~= Seq::<char>::empty());
            assert(rows(found@) + Seq::<Seq<char>>::empty() =~= rows(found@));
        }
    }
    found
}

/// A text with every run of whitespace inside it replaced by one space,
/// and without the whitespace at its start and at its end.
pub open spec fn normalized(s: Seq<char>) -> Seq<char>
    decreases s.len(),
{
    if s.len() == 0 {
        Seq::empty()
    } else {
        let front = s.drop_last();
        if is_whitespace(s.last()) {
            normalized(front)
        } else if front.len() > 0 && is_whitespace(front.last()) && normalized(front).len() > 0 {
            normalized(front).push(' ').push(s.last())
        } else {
            normalized(front).push(s.last())
        }
    }
}

/// A copy of `chars` with every run of whitespace inside it replaced by
/// one space, and without the whitespace at its start and at its end.
pub fn normalize_chars(chars: &Vec<char>) -> (v: Vec<char>)
    ensures
        v@ == normalized(chars@),
{
    let mut v: Vec<char> = Vec::new();
    let mut i: usize = 0;
    assert(chars@.take(0) =~= Seq::<char>::empty());
    while i < chars.len()
        invariant
            i <= chars.len(),
            v@ == normalized(chars@.take(i as int)),
        decreases chars.len() - i,
    {
        proof {
            assert(chars@.take(i + 1).drop_last() =~= chars@.take(i as int));
            if i > 0 {
                assert(chars@.take(i as int).last() == chars@[i - 1]);
            }
        }
        let c = chars[i];
        if !is_space(c) {
            if i > 0 && is_space(chars[i - 1]) && v.len() > 0 {
                v.push(' ');
            }
            v.push(c);
        }
        i = i + 1;
    }
    assert(chars@.take(i as int) =~= chars@);
    v
}

/// The character for a decimal digit.
pub open spec fn digit_char(d: nat) -> char
    recommends
        d < 10,
{
    (('0' as u8) + d as u8) as char
}

/// A number in decimal notation.
pub open spec fn decimal(n: nat) -> Seq<char>
    decreases n,
{
    if n < 10 {
        seq![digit_char(n)]
    } else {
        decimal(n / 10).push(digit_char(n % 10))
    }
}

/// Appends `n` in decimal notation to `out`.
pub fn push_decimal(n: u64, out: &mut Vec<char>)
    ensures
        final(out)@ == old(out)@ + decimal(n as nat),
    decreases n,
{
    if n >= 10 {
        push_decimal(n / 10, out);
    }
    let d: u8 = (n % 10) as u8;
    let c: char = (48u8 + d) as char;
    let ghost before = out@;
    out.push(c);
    proof {
        assert(c == digit_char((n % 10) as nat));
        if n < 10 {
            assert(out@ =~= old(out)@ + decimal(n as nat));
        } else {
            assert(out@ =~= old(out)@ + decimal(n as nat));
        }
    }
}

/// Whether `part` occurs in `s`.
pub open spec fn occurs_in(part: Seq<char>, s: Seq<char>) -> bool {
    exists|i: int| 0 <= i <= s.len() && has_prefix(#[trigger] s.skip(i), part)
}

/// Whether `part` occurs in `s`.
pub fn contains_chars(s: &Vec<char>, part: &Vec<char>) -> (b: bool)
    ensures
        b == occurs_in(part@, s@),
{
    let mut i: usize = 0;
    while i < s.len()
        invariant
            i <= s.len(),
            forall|j: int| 0 <= j < i ==> !has_prefix(#[trigger] s@.skip(j), part@),
        decreases s.len() - i,
    {
        if begins_at(s, i, part) {
            return true;
        }
        i = i + 1;
    }
    begins_at(s, i, part)
}

} // verus!
