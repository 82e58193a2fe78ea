//! Text handling shared by the readers: the characters of a string, white
//! space, prefixes and occurrences.

use vstd::prelude::*;

verus! {

/// Whether a character counts as white space: whether it has the property
/// `White_Space` of the Unicode Character Database. These are the controls
/// from the horizontal tab to the carriage return, the space, the next-line
/// control, the no-break space, the Ogham space mark, the spaces from the en
/// quad to the hair space, the line and the paragraph separator, the narrow
/// no-break space, the medium mathematical space and the ideographic space.
pub open spec fn is_whitespace(c: char) -> bool {
    ||| '\u{9}' <= c <= '\u{d}'
    ||| c == ' '
    ||| c == '\u{85}'
    ||| c == '\u{a0}'
    ||| c == '\u{1680}'
    ||| '\u{2000}' <= c <= '\u{200a}'
    ||| c == '\u{2028}'
    ||| c == '\u{2029}'
    ||| c == '\u{202f}'
    ||| c == '\u{205f}'
    ||| c == '\u{3000}'
}

/// Asks `char::is_whitespace` of the standard library, which answers
/// whether the character has the property `White_Space`.
#[verifier::external_body]
pub(crate) fn char_is_whitespace(c: char) -> (b: bool)
    ensures
        b == is_whitespace(c),
{
    c.is_whitespace()
}

/// `String::push` appends the character to the end of the string.
pub assume_specification[ String::push ](s: &mut String, ch: char)
    ensures
        final(s)@ == old(s)@.push(ch),
;

/// The characters of a string, in order.
pub fn chars_of(s: &str) -> (v: Vec<char>)
    ensures
        v@ == s@,
{
    let mut v: Vec<char> = Vec::new();
    for c in it: s.chars()
        invariant
            it.seq() == s@,
            v@ == s@.take(it.index() as int),
    {
        proof {
            assert(s@.take(it.index() + 1) =~= s@.take(it.index() as int).push(c));
        }
        v.push(c);
    }
    proof {
        assert(s@.take(s@.len() as int) =~= s@);
    }
    v
}

/// The string made of the characters of `v` from position `from` up to, not
/// including, position `to`.
pub fn string_of(v: &Vec<char>, from: usize, to: usize) -> (s: String)
    requires
        from <= to <= v.len(),
    ensures
        s@ == v@.subrange(from as int, to as int),
{
    let mut s = String::new();
    let mut i: usize = from;
    while i < to
        invariant
            from <= i <= to <= v.len(),
            s@ == v@.subrange(from as int, i as int),
        decreases to - i,
    {
        s.push(v[i]);
        proof {
            assert(v@.subrange(from as int, i + 1) =~= v@.subrange(from as int, i as int).push(
                v@[i as int],
            ));
        }
        i += 1;
    }
    s
}

/// Whether `needle` stands in `text` at position `at`.
pub open spec fn occurs_at(text: Seq<char>, needle: Seq<char>, at: int) -> bool {
    &&& 0 <= at
    &&& at + needle.len() <= text.len()
    &&& text.subrange(at, at + needle.len()) == needle
}

/// Whether `needle` stands somewhere in `text`. The empty string stands in
/// every text.
pub open spec fn occurs_in(text: Seq<char>, needle: Seq<char>) -> bool {
    exists|at: int| occurs_at(text, needle, at)
}

fn matches_at(text: &Vec<char>, needle: &Vec<char>, at: usize) -> (b: bool)
    requires
        at + needle.len() <= text.len(),
    ensures
        b == occurs_at(text@, needle@, at as int),
{
    let mut k: usize = 0;
    while k < needle.len()
        invariant
            k <= needle.len(),
            at + needle.len() <= text.len(),
            text@.subrange(at as int, at + k) == needle@.take(k as int),
        decreases needle.len() - k,
    {
        if text[at + k] != needle[k] {
            proof {
                let whole = text@.subrange(at as int, at + needle.len());
                assert(whole[k as int] == text@[at + k]);
            }
            return false;
        }
        proof {
            assert(text@.subrange(at as int, at + k + 1) =~= text@.subrange(
                at as int,
                at + k,
            ).push(text@[at + k]));
            assert(needle@.take(k + 1) =~= needle@.take(k as int).push(needle@[k as int]));
        }
        k += 1;
    }
    proof {
        assert(needle@.take(needle.len() as int) =~= needle@);
    }
    true
}

/// Whether the text begins with the prefix, character for character.
pub fn starts_with(text: &str, prefix: &str) -> (b: bool)
    ensures
        b == prefix@.is_prefix_of(text@),
{
    let t = chars_of(text);
    let p = chars_of(prefix);
    if p.len() > t.len() {
        return false;
    }
    matches_at(&t, &p, 0)
}

/// Whether the needle occurs in the text as a run of consecutive characters.
pub fn contains(text: &str, needle: &str) -> (b: bool)
    ensures
        b == occurs_in(text@, needle@),
{
    let t = chars_of(text);
    let n = chars_of(needle);
    if n.len() > t.len() {
        return false;
    }
    let last: usize = t.len() - n.len();
    let mut at: usize = 0;
    loop
        invariant
            at <= last,
            last + n.len() == t.len(),
            t@ == text@,
            n@ == needle@,
            forall|j: int| 0 <= j < at ==> !occurs_at(text@, needle@, j),
        decreases last - at,
    {
        if matches_at(&t, &n, at) {
            return true;
        }
        if at == last {
            return false;
        }
        at += 1;
    }
}

/// The position of the first character at or after `from` that is no white
/// space, or the length of the text when there is none.
pub open spec fn skip_whitespace(s: Seq<char>, from: int) -> int
    decreases s.len() - from,
{
    if 0 <= from < s.len() && is_whitespace(s[from]) {
        skip_whitespace(s, from + 1)
    } else {
        from
    }
}

/// The position of the first white space at or after `from`, or the length
/// of the text when there is none.
pub open spec fn skip_word(s: Seq<char>, from: int) -> int
    decreases s.len() - from,
{
    if 0 <= from < s.len() && !is_whitespace(s[from]) {
        skip_word(s, from + 1)
    } else {
        from
    }
}

/// The position behind the last character before `to` that is no white
/// space, looking no further back than `low`.
pub open spec fn skip_whitespace_back(s: Seq<char>, low: int, to: int) -> int
    decreases to - low,
{
    if low < to <= s.len() && is_whitespace(s[to - 1]) {
        skip_whitespace_back(s, low, to - 1)
    } else {
        to
    }
}

/// The text without the white space at its beginning and at its end.
pub open spec fn trimmed(s: Seq<char>) -> Seq<char> {
    let start = skip_whitespace(s, 0);
    s.subrange(start, skip_whitespace_back(s, start, s.len() as int))
}

/// The text without its line feeds.
pub open spec fn without_line_feeds(s: Seq<char>) -> Seq<char> {
    s.filter(|c: char| c != '\n')
}

/// Skipping white space moves forward and stays inside the text.
pub proof fn lemma_skip_whitespace_bounds(s: Seq<char>, from: int)
    requires
        0 <= from <= s.len(),
    ensures
        from <= skip_whitespace(s, from) <= s.len(),
    decreases s.len() - from,
{
    if from < s.len() && is_whitespace(s[from]) {
        lemma_skip_whitespace_bounds(s, from + 1);
    }
}

/// Where skipping white space stops short of the end, no white space stands.
pub proof fn lemma_skip_whitespace_stops(s: Seq<char>, from: int)
    requires
        0 <= from <= s.len(),
    ensures
        skip_whitespace(s, from) < s.len() ==> !is_whitespace(s[skip_whitespace(s, from)]),
    decreases s.len() - from,
{
    if from < s.len() && is_whitespace(s[from]) {
        lemma_skip_whitespace_stops(s, from + 1);
    }
}

/// Skipping a word moves forward, stays inside the text, and passes at
/// least one character where a word begins.
pub proof fn lemma_skip_word_bounds(s: Seq<char>, from: int)
    requires
        0 <= from <= s.len(),
    ensures
        from <= skip_word(s, from) <= s.len(),
        from < s.len() && !is_whitespace(s[from]) ==> from < skip_word(s, from),
    decreases s.len() - from,
{
    if from < s.len() && !is_whitespace(s[from]) {
        lemma_skip_word_bounds(s, from + 1);
    }
}

/// No white space stands between the beginning of a word and its end.
pub proof fn lemma_skip_word_passes_no_whitespace(s: Seq<char>, from: int, at: int)
    requires
        0 <= from <= at < skip_word(s, from),
    ensures
        at < s.len(),
        !is_whitespace(s[at]),
    decreases s.len() - from,
{
    if from < at {
        lemma_skip_word_passes_no_whitespace(s, from + 1, at);
    }
}

/// Skipping white space backwards stays between `low` and `to`, and where
/// it stops above `low`, no white space stands before it.
pub proof fn lemma_skip_whitespace_back_stops(s: Seq<char>, low: int, to: int)
    requires
        0 <= low <= to <= s.len(),
    ensures
        low <= skip_whitespace_back(s, low, to) <= to,
        low < skip_whitespace_back(s, low, to) ==> !is_whitespace(
            s[skip_whitespace_back(s, low, to) - 1],
        ),
    decreases to - low,
{
    if low < to && is_whitespace(s[to - 1]) {
        lemma_skip_whitespace_back_stops(s, low, to - 1);
    }
}

/// A trimmed text is a part of the text that neither begins nor ends with
/// white space.
pub proof fn lemma_trimmed_has_no_whitespace_around(s: Seq<char>)
    ensures
        trimmed(s).len() <= s.len(),
        trimmed(s).len() > 0 ==> !is_whitespace(trimmed(s).first()) && !is_whitespace(
            trimmed(s).last(),
        ),
{
    let start = skip_whitespace(s, 0);
    lemma_skip_whitespace_bounds(s, 0);
    lemma_skip_whitespace_stops(s, 0);
    lemma_skip_whitespace_back_stops(s, start, s.len() as int);
}

/// A text that holds no line feed and neither begins nor ends with white
/// space is its own content: cleaning it changes nothing.
pub proof fn lemma_plain_text_stays(s: Seq<char>)
    requires
        forall|i: int| 0 <= i < s.len() ==> #[trigger] s[i] != '\n',
        s.len() > 0 ==> !is_whitespace(s.first()) && !is_whitespace(s.last()),
    ensures
        without_line_feeds(s) == s,
        trimmed(s) == s,
        trimmed(without_line_feeds(s)) == s,
{
    lemma_without_line_feeds_keeps(s);
    assert(trimmed(s) =~= s);
}

proof fn lemma_without_line_feeds_keeps(s: Seq<char>)
    requires
        forall|i: int| 0 <= i < s.len() ==> #[trigger] s[i] != '\n',
    ensures
        without_line_feeds(s) == s,
    decreases s.len(),
{
    reveal(Seq::filter);
    if s.len() > 0 {
        lemma_without_line_feeds_keeps(s.drop_last());
        assert(s.drop_last().push(s.last()) =~= s);
    }
}

/// Walks over white space from `from` on.
pub fn find_word_start(v: &Vec<char>, from: usize) -> (at: usize)
    requires
        from <= v.len(),
    ensures
        at == skip_whitespace(v@, from as int),
        from <= at <= v.len(),
{
    let mut at: usize = from;
    while at < v.len() && char_is_whitespace(v[at])
        invariant
            from <= at <= v.len(),
            skip_whitespace(v@, at as int) == skip_whitespace(v@, from as int),
        decreases v.len() - at,
    {
        at += 1;
    }
    at
}

/// Walks over a word from `from` on.
pub fn find_word_end(v: &Vec<char>, from: usize) -> (at: usize)
    requires
        from <= v.len(),
    ensures
        at == skip_word(v@, from as int),
        from <= at <= v.len(),
{
    let mut at: usize = from;
    while at < v.len() && !char_is_whitespace(v[at])
        invariant
            from <= at <= v.len(),
            skip_word(v@, at as int) == skip_word(v@, from as int),
        decreases v.len() - at,
    {
        at += 1;
    }
    at
}

/// The text without its line feeds, and then without the white space at the
/// beginning and at the end of what is left.
pub fn clean(raw: &str) -> (s: String)
    ensures
        s@ == trimmed(without_line_feeds(raw@)),
{
    let all = chars_of(raw);
    let ghost keep = |c: char| c != '\n';
    let mut kept: Vec<char> = Vec::new();
    let mut i: usize = 0;
    proof {
        reveal(Seq::filter);
        assert(all@.take(0) =~= Seq::<char>::empty());
    }
    while i < all.len()
        invariant
            i <= all.len(),
            keep == |c: char| c != '\n',
            kept@ == all@.take(i as int).filter(keep),
        decreases all.len() - i,
    {
        let c = all[i];
        proof {
            assert(all@.take(i + 1) =~= all@.take(i as int).push(c));
            all@.take(i as int).lemma_filter_push(c, keep);
        }
        if c != '\n' {
            kept.push(c);
        }
        i += 1;
    }
    proof {
        assert(all@.take(all.len() as int) =~= all@);
    }
    let start = find_word_start(&kept, 0);
    let mut end: usize = kept.len();
    while end > start && char_is_whitespace(kept[end - 1])
        invariant
            start <= end <= kept.len(),
            skip_whitespace_back(kept@, start as int, end as int) == skip_whitespace_back(
                kept@,
                start as int,
                kept.len() as int,
            ),
        decreases end - start,
    {
        end -= 1;
    }
    string_of(&kept, start, end)
}

} // verus!
