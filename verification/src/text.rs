//! Text operations, stated over the characters of a string.
use vstd::prelude::*;
use vstd::string::*;

verus! {

/// `String::push`: appends one character to the end of the string.
pub assume_specification[ String::push ](s: &mut String, c: char)
    ensures
        final(s)@ == old(s)@.push(c),
;

/// The characters of a text in lower case.
pub uninterp spec fn lowercase(s: Seq<char>) -> Seq<char>;

/// `str::to_lowercase`: the text in lower case. The mapping is the one of the
/// Unicode tables that std carries, and depends on the text alone.
#[verifier::external_body]
pub(crate) fn to_lower(s: &str) -> (r: String)
    ensures
        r@ == lowercase(s@),
{
    s.to_lowercase()
}

/// The characters of a text in upper case.
pub uninterp spec fn uppercase(s: Seq<char>) -> Seq<char>;

/// `str::to_uppercase`: the text in upper case. The mapping is the one of the
/// Unicode tables that std carries, and depends on the text alone.
#[verifier::external_body]
pub(crate) fn to_upper(s: &str) -> (r: String)
    ensures
        r@ == uppercase(s@),
{
    s.to_uppercase()
}

/// Whether two string slices hold the same characters.
pub fn str_eq(a: &str, b: &str) -> (r: bool)
    ensures
        r == (a@ == b@),
{
    a.to_owned() == b.to_owned()
}

/// Whether `a` is present and holds the characters of `b`.
pub fn opt_str_eq(a: &Option<String>, b: &str) -> (r: bool)
    ensures
        r == (a matches Some(s) && s@ == b@),
{
    match a {
        Some(s) => str_eq(s.as_str(), b),
        None => false,
    }
}

/// The characters of a string slice.
pub fn chars_of(s: &str) -> (r: Vec<char>)
    ensures
        r@ == s@,
{
    let mut out: Vec<char> = Vec::new();
    for c in it: s.chars()
        invariant
            it.seq() == s@,
            out@ == s@.take(it.index() as int),
    {
        out.push(c);
    }
    assert(s@.take(s@.len() as int) == s@);
    out
}

/// The string made of the characters `chars[from..to]`.
pub fn string_of(chars: &Vec<char>, from: usize, to: usize) -> (r: String)
    requires
        from <= to <= chars@.len(),
    ensures
        r@ == chars@.subrange(from as int, to as int),
{
    let mut out = String::new();
    let mut i: usize = from;
    while i < to
        invariant
            from <= i <= to <= chars@.len(),
            out@ == chars@.subrange(from as int, i as int),
        decreases to - i,
    {
        out.push(chars[i]);
        i = i + 1;
    }
    out
}

/// The views of a sequence of strings.
pub open spec fn views(strings: Seq<String>) -> Seq<Seq<char>> {
    strings.map_values(|s: String| s@)
}

/// Whether a list of strings holds the given text.
pub fn contains_text(list: &Vec<String>, text: &str) -> (r: bool)
    ensures
        r == views(list@).contains(text@),
{
    let mut i: usize = 0;
    while i < list.len()
        invariant
            i <= list@.len(),
            forall|j: int| 0 <= j < i ==> views(list@)[j] != text@,
        decreases list@.len() - i,
    {
        if str_eq(list[i].as_str(), text) {
            assert(views(list@)[i as int] == text@);
            return true;
        }
        assert(views(list@)[i as int] == list@[i as int]@);
        i = i + 1;
    }
    false
}

/// Copies a list of strings.
pub fn clone_strings(list: &Vec<String>) -> (r: Vec<String>)
    ensures
        r@ == list@,
{
    let mut out: Vec<String> = Vec::new();
    let mut i: usize = 0;
    while i < list.len()
        invariant
            i <= list@.len(),
            out@ == list@.take(i as int),
        decreases list@.len() - i,
    {
        out.push(list[i].clone());
        i = i + 1;
        assert(list@.take(i as int) == list@.take(i - 1).push(list@[i - 1]));
    }
    assert(list@.take(list@.len() as int) == list@);
    out
}

/// Whether `s` begins with `prefix`.
pub fn starts_with(s: &str, prefix: &str) -> (r: bool)
    ensures
        r == prefix@.is_prefix_of(s@),
{
    let text = chars_of(s);
    let head = chars_of(prefix);
    if head.len() > text.len() {
        return false;
    }
    let mut i: usize = 0;
    while i < head.len()
        invariant
            i <= head@.len() <= text@.len(),
            text@ == s@,
            head@ == prefix@,
            forall|j: int| 0 <= j < i ==> head@[j] == text@[j],
        decreases head@.len() - i,
    {
        if head[i] != text[i] {
            assert(head@[i as int] != text@.take(head@.len() as int)[i as int]);
            return false;
        }
        i = i + 1;
    }
    assert(head@ == text@.take(head@.len() as int));
    true
}

/// Whether `s` ends with `suffix`.
pub fn ends_with(s: &str, suffix: &str) -> (r: bool)
    ensures
        r == suffix@.is_suffix_of(s@),
{
    let text = chars_of(s);
    let tail = chars_of(suffix);
    if tail.len() > text.len() {
        return false;
    }
    let offset: usize = text.len() - tail.len();
    let mut i: usize = 0;
    while i < tail.len()
        invariant
            i <= tail@.len() <= text@.len(),
            text@ == s@,
            tail@ == suffix@,
            offset + tail@.len() == text.len(),
            forall|j: int| 0 <= j < i ==> tail@[j] == text@[offset + j],
        decreases tail@.len() - i,
    {
        if tail[i] != text[offset + i] {
            assert(tail@[i as int] != text@.subrange(offset as int, text@.len() as int)[i as int]);
            return false;
        }
        i = i + 1;
    }
    assert(tail@ == text@.subrange(offset as int, text@.len() as int));
    true
}

/// Whether `s` holds the character `c`.
pub fn contains_char(s: &str, c: char) -> (r: bool)
    ensures
        r == s@.contains(c),
{
    let text = chars_of(s);
    let mut i: usize = 0;
    while i < text.len()
        invariant
            i <= text@.len(),
            text@ == s@,
            forall|j: int| 0 <= j < i ==> text@[j] != c,
        decreases text@.len() - i,
    {
        if text[i] == c {
            return true;
        }
        i = i + 1;
    }
    false
}

/// The position of the first `sep` in `s`, or the length where there is none.
pub open spec fn first_index(s: Seq<char>, sep: char) -> int
    decreases s.len(),
{
    if s.len() == 0 || s[0] == sep {
        0
    } else {
        1 + first_index(s.drop_first(), sep)
    }
}

pub proof fn lemma_first_index(s: Seq<char>, sep: char)
    ensures
        0 <= first_index(s, sep) <= s.len(),
        forall|j: int| 0 <= j < first_index(s, sep) ==> s[j] != sep,
        first_index(s, sep) < s.len() ==> s[first_index(s, sep)] == sep,
    decreases s.len(),
{
    if s.len() == 0 || s[0] == sep {
    } else {
        lemma_first_index(s.drop_first(), sep);
        assert forall|j: int| 0 <= j < first_index(s, sep) implies s[j] != sep by {
            if j > 0 {
                assert(s.drop_first()[j - 1] == s[j]);
            }
        }
    }
}

/// The first index is the only position with nothing equal to `sep` before it.
pub proof fn lemma_first_index_unique(s: Seq<char>, sep: char, n: int)
    requires
        0 <= n <= s.len(),
        forall|j: int| 0 <= j < n ==> s[j] != sep,
        n < s.len() ==> s[n] == sep,
    ensures
        first_index(s, sep) == n,
{
    lemma_first_index(s, sep);
}

/// The pieces of `s` between the separators; a text without one is one piece.
pub open spec fn segments(s: Seq<char>, sep: char) -> Seq<Seq<char>>
    decreases s.len(),
{
    let n = first_index(s, sep);
    if 0 <= n < s.len() {
        seq![s.take(n)] + segments(s.skip(n + 1), sep)
    } else {
        seq![s]
    }
}

/// The piece of `s` before the first separator.
pub open spec fn first_segment(s: Seq<char>, sep: char) -> Seq<char> {
    s.take(first_index(s, sep))
}

/// The piece of `s` before the first `sep`.
pub fn segment_before(s: &str, sep: char) -> (r: String)
    ensures
        r@ == first_segment(s@, sep),
        r@ == segments(s@, sep)[0],
{
    let text = chars_of(s);
    let mut n: usize = 0;
    while n < text.len() && text[n] != sep
        invariant
            n <= text@.len(),
            text@ == s@,
            forall|j: int| 0 <= j < n ==> text@[j] != sep,
        decreases text@.len() - n,
    {
        n = n + 1;
    }
    proof {
        lemma_first_index_unique(s@, sep, n as int);
        if n == s@.len() {
            assert(s@.take(n as int) == s@);
        }
    }
    string_of(&text, 0, n)
}

/// The pieces of `s` between the separators.
pub fn split(s: &str, sep: char) -> (r: Vec<String>)
    ensures
        views(r@) == segments(s@, sep),
{
    let text = chars_of(s);
    let mut out: Vec<String> = Vec::new();
    let mut start: usize = 0;
    proof {
        assert(s@.skip(0) == s@);
        assert(views(out@) + segments(s@.skip(0), sep) =~= segments(s@, sep));
    }
    loop
        invariant
            start <= text@.len(),
            text@ == s@,
            views(out@) + segments(s@.skip(start as int), sep) == segments(s@, sep),
        decreases text@.len() + 1 - start,
    {
        let mut n: usize = start;
        while n < text.len() && text[n] != sep
            invariant
                start <= n <= text@.len(),
                forall|j: int| start <= j < n ==> text@[j] != sep,
            decreases text@.len() - n,
        {
            n = n + 1;
        }
        let ghost rest = s@.skip(start as int);
        proof {
            assert forall|j: int| 0 <= j < n - start implies rest[j] != sep by {
                assert(rest[j] == text@[start + j]);
            }
            lemma_first_index_unique(rest, sep, n - start);
            assert(rest.take(n - start) == text@.subrange(start as int, n as int));
        }
        let piece = string_of(&text, start, n);
        let ghost before = out@;
        out.push(piece);
        assert(views(out@) =~= views(before).push(piece@));
        if n == text.len() {
            assert(rest.take(n - start) == rest);
            assert(views(out@) =~= views(before) + seq![rest]);
            return out;
        }
        proof {
            assert(rest.skip(n - start + 1) == s@.skip(n + 1));
            assert(views(out@) + segments(s@.skip(n + 1), sep) =~= views(before) + (seq![piece@]
                + segments(s@.skip(n + 1), sep)));
        }
        start = n + 1;
    }
}

/// `s` with every `from` replaced by `to`.
pub open spec fn replaced(s: Seq<char>, from: char, to: char) -> Seq<char> {
    s.map_values(
        |c: char|
            if c == from {
                to
            } else {
                c
            },
    )
}

/// `s` with every character `from` replaced by `to`.
pub fn replace_char(s: &str, from: char, to: char) -> (r: String)
    ensures
        r@ == replaced(s@, from, to),
{
    let text = chars_of(s);
    let mut out = String::new();
    let mut i: usize = 0;
    while i < text.len()
        invariant
            i <= text@.len(),
            text@ == s@,
            out@ == replaced(s@, from, to).take(i as int),
        decreases text@.len() - i,
    {
        let c = text[i];
        out.push(
            if c == from {
                to
            } else {
                c
            },
        );
        i = i + 1;
        assert(replaced(s@, from, to).take(i as int) == replaced(s@, from, to).take(i - 1).push(
            replaced(s@, from, to)[i - 1],
        ));
    }
    assert(replaced(s@, from, to).take(s@.len() as int) == replaced(s@, from, to));
    out
}

/// The lower-case form of an ASCII letter; any other character is kept.
pub open spec fn ascii_lower_char(c: char) -> char {
    if 'A' <= c <= 'Z' {
        (c as u32 + 32) as u8 as char
    } else {
        c
    }
}

/// `s` with its ASCII letters in lower case.
pub open spec fn ascii_lower(s: Seq<char>) -> Seq<char> {
    s.map_values(|c: char| ascii_lower_char(c))
}

/// `s` with its ASCII letters in lower case.
pub fn to_ascii_lower(s: &str) -> (r: String)
    ensures
        r@ == ascii_lower(s@),
{
    let text = chars_of(s);
    let mut out = String::new();
    let mut i: usize = 0;
    while i < text.len()
        invariant
            i <= text@.len(),
            text@ == s@,
            out@ == ascii_lower(s@).take(i as int),
        decreases text@.len() - i,
    {
        let c = text[i];
        let lower: char = if 'A' <= c && c <= 'Z' {
            let code: u32 = c as u32 + 32;
            code as u8 as char
        } else {
            c
        };
        out.push(lower);
        i = i + 1;
        assert(ascii_lower(s@).take(i as int) == ascii_lower(s@).take(i - 1).push(
            ascii_lower(s@)[i - 1],
        ));
    }
    assert(ascii_lower(s@).take(s@.len() as int) == ascii_lower(s@));
    out
}

/// Whether `c` has the Unicode property `White_Space`.
pub open spec fn is_white_space(c: char) -> bool {
    ||| '\u{9}' <= c <= '\u{d}'
    ||| c == ' '
    ||| c == '\u{85}'
    ||| c == '\u{a0}'
    ||| c == '\u{1680}'
    ||| '\u{2000}' <= c <= '\u{200a}'
    ||| c == '\u{2028}'
    ||| c == '\u{2029}'
    ||| c == '\u{202f}'
    ||| c == '\u{205f}'
    ||| c == '\u{3000}'
}

/// Whether `c` has the Unicode property `White_Space`.
pub fn white_space(c: char) -> (r: bool)
    ensures
        r == is_white_space(c),
{
    ('\u{9}' <= c && c <= '\u{d}') || c == ' ' || c == '\u{85}' || c == '\u{a0}' || c == '\u{1680}'
        || ('\u{2000}' <= c && c <= '\u{200a}') || c == '\u{2028}' || c == '\u{2029}' || c
        == '\u{202f}' || c == '\u{205f}' || c == '\u{3000}'
}

/// `s` without white space at its start.
pub open spec fn trimmed_start(s: Seq<char>) -> Seq<char>
    decreases s.len(),
{
    if s.len() > 0 && is_white_space(s[0]) {
        trimmed_start(s.drop_first())
    } else {
        s
    }
}

/// `s` without white space at its end.
pub open spec fn trimmed_end(s: Seq<char>) -> Seq<char>
    decreases s.len(),
{
    if s.len() > 0 && is_white_space(s.last()) {
        trimmed_end(s.drop_last())
    } else {
        s
    }
}

/// `s` without white space at either end.
pub open spec fn trimmed(s: Seq<char>) -> Seq<char> {
    trimmed_end(trimmed_start(s))
}

/// `s` without white space at either end.
pub fn trim(s: &str) -> (r: String)
    ensures
        r@ == trimmed(s@),
{
    let text = chars_of(s);
    let mut start: usize = 0;
    assert(s@.skip(0) == s@);
    while start < text.len() && white_space(text[start])
        invariant
            start <= text@.len(),
            text@ == s@,
            trimmed_start(s@.skip(start as int)) == trimmed_start(s@),
        decreases text@.len() - start,
    {
        assert(s@.skip(start as int).drop_first() == s@.skip(start + 1));
        start = start + 1;
    }
    let ghost body = s@.skip(start as int);
    assert(trimmed_start(s@) == body);
    let mut end: usize = text.len();
    assert(s@.subrange(start as int, end as int) == body);
    while end > start && white_space(text[end - 1])
        invariant
            start <= end <= text@.len(),
            text@ == s@,
            trimmed_end(s@.subrange(start as int, end as int)) == trimmed_end(body),
        decreases end,
    {
        assert(s@.subrange(start as int, end as int).drop_last() == s@.subrange(
            start as int,
            end - 1,
        ));
        end = end - 1;
    }
    string_of(&text, start, end)
}

/// The strings joined with `sep` between neighbours.
pub open spec fn joined(parts: Seq<Seq<char>>, sep: Seq<char>) -> Seq<char>
    decreases parts.len(),
{
    if parts.len() == 0 {
        seq![]
    } else if parts.len() == 1 {
        parts[0]
    } else {
        joined(parts.drop_last(), sep) + sep + parts.last()
    }
}

/// The strings `parts[from..]` joined with `sep` between neighbours.
pub fn join_from(parts: &Vec<String>, from: usize, sep: &str) -> (r: String)
    requires
        from <= parts@.len(),
    ensures
        r@ == joined(views(parts@).skip(from as int), sep@),
{
    let mut out = String::new();
    let mut i: usize = from;
    let ghost all = views(parts@).skip(from as int);
    assert(all.take(0) =~= Seq::<Seq<char>>::empty());
    while i < parts.len()
        invariant
            from <= i <= parts@.len(),
            all == views(parts@).skip(from as int),
            out@ == joined(all.take(i - from), sep@),
        decreases parts@.len() - i,
    {
        let ghost k = i - from;
        assert(all.take(k + 1).drop_last() == all.take(k));
        assert(all.take(k + 1).last() == parts@[i as int]@);
        if i > from {
            out.append(sep);
        }
        out.append(parts[i].as_str());
        i = i + 1;
    }
    assert(all.take(all.len() as int) == all);
    out
}

/// The text of `a` followed by that of `b`.
pub fn concat2(a: &str, b: &str) -> (r: String)
    ensures
        r@ == a@ + b@,
{
    a.to_owned().concat(b)
}

/// The text of `a`, `b` and `c` in a row.
pub fn concat3(a: &str, b: &str, c: &str) -> (r: String)
    ensures
        r@ == a@ + b@ + c@,
{
    a.to_owned().concat(b).concat(c)
}

/// A text starts with its first piece, which holds no separator and ends at one or
/// at the end.
pub proof fn law_first_segment(s: Seq<char>, sep: char)
    ensures
        first_segment(s, sep).is_prefix_of(s),
        !first_segment(s, sep).contains(sep),
        first_segment(s, sep).len() < s.len() ==> s[first_segment(s, sep).len() as int] == sep,
{
    lemma_first_index(s, sep);
    let n = first_index(s, sep);
    assert(first_segment(s, sep) =~= s.take(n));
    assert forall|i: int| 0 <= i < n implies first_segment(s, sep)[i] != sep by {
        assert(first_segment(s, sep)[i] == s[i]);
    }
}

/// What stands before a separator is the first piece, whatever follows.
pub proof fn law_first_segment_of_path(first: Seq<char>, sep: char, rest: Seq<char>)
    requires
        !first.contains(sep),
    ensures
        first_segment(first.push(sep) + rest, sep) == first,
        first_segment(first, sep) == first,
{
    let s = first.push(sep) + rest;
    assert forall|j: int| 0 <= j < first.len() implies s[j] != sep by {
        assert(s[j] == first[j]);
        assert(first.contains(first[j]));
    }
    lemma_first_index_unique(s, sep, first.len() as int);
    assert(s.take(first.len() as int) =~= first);
    assert forall|j: int| 0 <= j < first.len() implies first[j] != sep by {
        assert(first.contains(first[j]));
    }
    lemma_first_index_unique(first, sep, first.len() as int);
    assert(first.take(first.len() as int) =~= first);
}

/// Replacing a character touches no other: it is gone afterwards, and everything
/// else stands where it stood.
pub proof fn law_replacing_touches_nothing_else(s: Seq<char>, from: char, to: char)
    ensures
        replaced(s, from, to).len() == s.len(),
        forall|i: int|
            0 <= i < s.len() && s[i] != from ==> #[trigger] replaced(s, from, to)[i] == s[i],
        forall|i: int|
            0 <= i < s.len() && s[i] == from ==> #[trigger] replaced(s, from, to)[i] == to,
        !s.contains(from) ==> replaced(s, from, to) == s,
{
    if !s.contains(from) {
        assert forall|i: int| 0 <= i < s.len() implies replaced(s, from, to)[i] == s[i] by {
            assert(s.contains(s[i]));
        }
        assert(replaced(s, from, to) =~= s);
    }
}

/// The pieces of a text put together again with the separator are the text, and
/// none of them holds it.
pub proof fn law_pieces_make_the_text(s: Seq<char>, sep: char)
    ensures
        joined(segments(s, sep), seq![sep]) == s,
        segments(s, sep).len() > 0,
        forall|i: int|
            0 <= i < segments(s, sep).len() ==> !(#[trigger] segments(s, sep)[i]).contains(sep),
    decreases s.len(),
{
    lemma_first_index(s, sep);
    let n = first_index(s, sep);
    if n < s.len() {
        let rest = s.skip(n + 1);
        law_pieces_make_the_text(rest, sep);
        lemma_joined_front(s.take(n), segments(rest, sep), seq![sep]);
        assert(s =~= s.take(n) + seq![sep] + rest);
        assert forall|i: int| 0 <= i < segments(s, sep).len() implies !(#[trigger] segments(
            s,
            sep,
        )[i]).contains(sep) by {
            if i > 0 {
                assert(segments(s, sep)[i] == segments(rest, sep)[i - 1]);
            }
        }
    } else {
        assert(segments(s, sep) =~= seq![s]);
    }
}

proof fn lemma_joined_front(first: Seq<char>, rest: Seq<Seq<char>>, sep: Seq<char>)
    requires
        rest.len() > 0,
    ensures
        joined(seq![first] + rest, sep) == first + sep + joined(rest, sep),
    decreases rest.len(),
{
    let all = seq![first] + rest;
    assert(all.last() == rest.last());
    if rest.len() == 1 {
        assert(all.drop_last() =~= seq![first]);
        assert(joined(seq![first], sep) == first);
        assert(joined(rest, sep) == rest[0]);
    } else {
        assert(all.drop_last() =~= seq![first] + rest.drop_last());
        lemma_joined_front(first, rest.drop_last(), sep);
        assert(joined(all, sep) =~= first + sep + joined(rest, sep));
    }
}

/// Trimming takes white space from both ends and nothing else: what is left stands
/// inside the text, with white space alone around it, and neither starts nor ends
/// with any.
pub proof fn law_trimming_takes_white_space(s: Seq<char>)
    ensures
        exists|i: int, j: int|
            {
                &&& 0 <= i <= j <= s.len()
                &&& #[trigger] s.subrange(i, j) == trimmed(s)
                &&& forall|k: int|
                    0 <= k < i || j <= k < s.len() ==> is_white_space(#[trigger] s[k])
            },
        trimmed(s).len() > 0 ==> !is_white_space(trimmed(s)[0]) && !is_white_space(
            trimmed(s).last(),
        ),
{
    let i = lemma_trimmed_start(s);
    let rest = s.skip(i);
    let n = lemma_trimmed_end(rest);
    assert(s.subrange(i, i + n) =~= rest.take(n));
    assert forall|k: int| 0 <= k < i || i + n <= k < s.len() implies is_white_space(
        #[trigger] s[k],
    ) by {
        if k >= i {
            assert(rest[k - i] == s[k]);
        }
    }
    if n > 0 {
        assert(trimmed(s)[0] == rest[0]);
    }
}

proof fn lemma_trimmed_start(s: Seq<char>) -> (i: int)
    ensures
        0 <= i <= s.len(),
        trimmed_start(s) == s.skip(i),
        forall|k: int| 0 <= k < i ==> is_white_space(#[trigger] s[k]),
        i < s.len() ==> !is_white_space(s[i]),
    decreases s.len(),
{
    if s.len() > 0 && is_white_space(s[0]) {
        let i = lemma_trimmed_start(s.drop_first());
        assert(s.drop_first().skip(i) =~= s.skip(i + 1));
        assert forall|k: int| 0 <= k < i + 1 implies is_white_space(#[trigger] s[k]) by {
            if k > 0 {
                assert(s.drop_first()[k - 1] == s[k]);
            }
        }
        i + 1
    } else {
        assert(s.skip(0) =~= s);
        0
    }
}

proof fn lemma_trimmed_end(s: Seq<char>) -> (n: int)
    ensures
        0 <= n <= s.len(),
        trimmed_end(s) == s.take(n),
        forall|k: int| n <= k < s.len() ==> is_white_space(#[trigger] s[k]),
        n > 0 ==> !is_white_space(s[n - 1]),
    decreases s.len(),
{
    if s.len() > 0 && is_white_space(s.last()) {
        let n = lemma_trimmed_end(s.drop_last());
        assert(s.drop_last().take(n) =~= s.take(n));
        assert forall|k: int| n <= k < s.len() implies is_white_space(#[trigger] s[k]) by {
            if k < s.len() - 1 {
                assert(s.drop_last()[k] == s[k]);
            }
        }
        n
    } else {
        assert(s.take(s.len() as int) =~= s);
        s.len() as int
    }
}

/// Lower case is told apart from upper case by ASCII letters alone: a letter has
/// one lower-case form for both its cases, and nothing else changes.
pub proof fn law_ascii_lower(s: Seq<char>)
    ensures
        ascii_lower(s).len() == s.len(),
        ascii_lower(ascii_lower(s)) == ascii_lower(s),
        forall|i: int|
            0 <= i < s.len() && !('A' <= s[i] <= 'Z') ==> #[trigger] ascii_lower(s)[i] == s[i],
        forall|i: int|
            0 <= i < s.len() && 'A' <= s[i] <= 'Z' ==> 'a' <= #[trigger] ascii_lower(s)[i] <= 'z'
                && ascii_lower(s)[i] as int - s[i] as int == 'a' as int - 'A' as int,
{
    assert forall|c: char| 'A' <= c <= 'Z' implies 'a' <= #[trigger] ascii_lower_char(c) <= 'z'
        && ascii_lower_char(c) as int - c as int == 'a' as int - 'A' as int by {
        let code = (c as u32 + 32) as u8;
        assert(code == c as u32 + 32);
    }
    assert forall|i: int| 0 <= i < s.len() implies ascii_lower(ascii_lower(s))[i] == ascii_lower(
        s,
    )[i] by {
        let c = s[i];
        assert(ascii_lower(s)[i] == ascii_lower_char(c));
    }
    assert(ascii_lower(ascii_lower(s)) =~= ascii_lower(s));
}

/// White space are these characters and no others.
pub proof fn law_what_is_white_space(c: char)
    ensures
        is_white_space(c) <==> {
            let n = c as int;
            9 <= n <= 13 || n == 32 || n == 133 || n == 160 || n == 5760 || 8192 <= n <= 8202 || n
                == 8232 || n == 8233 || n == 8239 || n == 8287 || n == 12288
        },
{
}

/// Parts are joined in order with what separates them between each two, and nothing in
/// front or behind.
pub proof fn law_how_parts_are_joined(
    first: Seq<char>,
    parts: Seq<Seq<char>>,
    last: Seq<char>,
    sep: Seq<char>,
)
    ensures
        joined(seq![], sep) == Seq::<char>::empty(),
        joined(seq![first], sep) == first,
        joined((seq![first] + parts).push(last), sep) == joined(seq![first] + parts, sep) + sep
            + last,
{
    let all = (seq![first] + parts).push(last);
    assert(all.drop_last() =~= seq![first] + parts);
    assert(seq![first][0] == first);
}

/// The pieces of two texts with a separator between them are those of the one and then
/// those of the other.
pub proof fn law_pieces_of_two_texts(a: Seq<char>, b: Seq<char>, sep: char)
    ensures
        segments(a.push(sep) + b, sep) == segments(a, sep) + segments(b, sep),
        !a.contains(sep) ==> segments(a, sep) == seq![a],
    decreases a.len(),
{
    let all = a.push(sep) + b;
    let n = first_index(a, sep);
    lemma_first_index(a, sep);
    assert(all.take(a.len() as int) =~= a);
    assert(all[a.len() as int] == sep);
    assert forall|j: int| 0 <= j < n implies all[j] != sep by {
        assert(all[j] == a[j]);
    }
    if n < a.len() {
        assert(all[n] == a[n]);
        lemma_first_index_unique(all, sep, n);
        let rest = a.skip(n + 1);
        law_pieces_of_two_texts(rest, b, sep);
        assert(all.skip(n + 1) =~= rest.push(sep) + b);
        assert(all.take(n) =~= a.take(n));
        assert(segments(all, sep) =~= segments(a, sep) + segments(b, sep));
        assert(a.contains(a[n]));
    } else {
        lemma_first_index_unique(all, sep, n);
        assert(all.skip(n + 1) =~= b);
        assert(all.take(n) =~= a);
        assert(segments(all, sep) =~= segments(a, sep) + segments(b, sep));
    }
}

} // verus!
