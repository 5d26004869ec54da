//! Splitting a line into tokens separated by spaces and tabs.

use vstd::prelude::*;

verus! {

/// Whether `c` separates two tokens: a space or a tab.
pub open spec fn is_separator_char(c: char) -> bool {
    c == ' ' || c == '\t'
}

/// Number of separators at the start of `s`.
pub open spec fn leading_separators(s: Seq<char>) -> nat
    decreases s.len(),
{
    if s.len() > 0 && is_separator_char(s[0]) {
        1 + leading_separators(s.drop_first())
    } else {
        0
    }
}

/// Number of non-separator characters at the start of `s`.
pub open spec fn word_length(s: Seq<char>) -> nat
    decreases s.len(),
{
    if s.len() > 0 && !is_separator_char(s[0]) {
        1 + word_length(s.drop_first())
    } else {
        0
    }
}

/// `s` without its leading separators.
pub open spec fn trim_separators(s: Seq<char>) -> Seq<char> {
    s.skip(leading_separators(s) as int)
}

/// The first token of `s`, if any, and what follows it.
///
/// Where `s` holds only separators there is no token and nothing follows.
pub open spec fn spec_read(s: Seq<char>) -> (Option<Seq<char>>, Seq<char>) {
    let t = trim_separators(s);
    if t.len() == 0 {
        (None, t)
    } else {
        let n = word_length(t) as int;
        (Some(t.take(n)), t.skip(n))
    }
}

/// The character sequences of the words in `words`.
pub open spec fn words_view(words: Seq<&str>) -> Seq<Seq<char>> {
    words.map_values(|w: &str| w@)
}

/// Whether a token that is one of `stops` follows the separator at position `i` of `t`.
pub open spec fn stop_follows(t: Seq<char>, i: int, stops: Seq<Seq<char>>) -> bool {
    &&& is_separator_char(t[i])
    &&& match spec_read(t.skip(i)).0 {
        Some(w) => stops.contains(w),
        None => false,
    }
}

/// The first position at or after `i` of a separator that a stop word follows.
pub open spec fn first_stop_from(t: Seq<char>, i: int, stops: Seq<Seq<char>>) -> Option<int>
    decreases t.len() - i,
{
    if i < 0 || i >= t.len() {
        None
    } else if stop_follows(t, i, stops) {
        Some(i)
    } else {
        first_stop_from(t, i + 1, stops)
    }
}

/// What comes before the first separator of `s` that a stop word follows, and the rest
/// from that separator on; where no stop word follows a separator, the whole of `s`
/// after its leading separators, and nothing after it.
pub open spec fn spec_read_until(s: Seq<char>, stops: Seq<Seq<char>>) -> (
    Option<Seq<char>>,
    Seq<char>,
) {
    let t = trim_separators(s);
    if t.len() == 0 {
        (None, Seq::empty())
    } else {
        match first_stop_from(t, 0, stops) {
            Some(e) => (Some(t.take(e)), t.skip(e)),
            None => (Some(t), Seq::empty()),
        }
    }
}

/// The separators at the start of a sequence are all in it, and the first character
/// after them is no separator.
pub proof fn lemma_leading_separators(s: Seq<char>)
    ensures
        leading_separators(s) <= s.len(),
        leading_separators(s) < s.len() ==> !is_separator_char(
            s[leading_separators(s) as int],
        ),
        forall|i: int| 0 <= i < leading_separators(s) ==> is_separator_char(#[trigger] s[i]),
    decreases s.len(),
{
    if s.len() > 0 && is_separator_char(s[0]) {
        lemma_leading_separators(s.drop_first());
        assert forall|i: int| 0 <= i < leading_separators(s) implies is_separator_char(
            #[trigger] s[i],
        ) by {
            if i > 0 {
                assert(s[i] == s.drop_first()[i - 1]);
            }
        }
    }
}

/// The word at the start of a sequence is in it, holds no separator, and is followed by a
/// separator or by nothing.
pub proof fn lemma_word_length(s: Seq<char>)
    ensures
        word_length(s) <= s.len(),
        word_length(s) < s.len() ==> is_separator_char(s[word_length(s) as int]),
        forall|i: int| 0 <= i < word_length(s) ==> !is_separator_char(#[trigger] s[i]),
    decreases s.len(),
{
    if s.len() > 0 && !is_separator_char(s[0]) {
        lemma_word_length(s.drop_first());
        assert forall|i: int| 0 <= i < word_length(s) implies !is_separator_char(
            #[trigger] s[i],
        ) by {
            if i > 0 {
                assert(s[i] == s.drop_first()[i - 1]);
            }
        }
    }
}

/// What follows a token is no longer than what it was read from, and shorter where a
/// token was read.
pub proof fn lemma_read_rest(s: Seq<char>)
    ensures
        spec_read(s).1.len() <= s.len(),
        spec_read(s).0 is Some ==> spec_read(s).1.len() < s.len(),
{
    lemma_leading_separators(s);
    let t = trim_separators(s);
    lemma_word_length(t);
    if t.len() > 0 {
        assert(t[0] == s[leading_separators(s) as int]);
    }
}

/// What `spec_read_until` leaves is no longer than what it reads from.
pub proof fn lemma_read_until_rest(s: Seq<char>, stops: Seq<Seq<char>>)
    ensures
        spec_read_until(s, stops).1.len() <= s.len(),
{
    lemma_leading_separators(s);
    let t = trim_separators(s);
    lemma_first_stop_bounds(t, 0, stops);
}

/// A stop position lies within the sequence, at or after where the search starts.
pub proof fn lemma_first_stop_bounds(t: Seq<char>, i: int, stops: Seq<Seq<char>>)
    requires
        0 <= i,
    ensures
        first_stop_from(t, i, stops) matches Some(e) ==> i <= e < t.len() && stop_follows(
            t,
            e,
            stops,
        ) && forall|j: int| i <= j < e ==> !stop_follows(t, j, stops),
        first_stop_from(t, i, stops) is None ==> forall|j: int|
            i <= j < t.len() ==> !stop_follows(t, j, stops),
    decreases t.len() - i,
{
    if 0 <= i < t.len() && !stop_follows(t, i, stops) {
        lemma_first_stop_bounds(t, i + 1, stops);
    }
}

/// Whether `c` is a space or a tab.
pub fn is_separator(c: char) -> (res: bool)
    ensures
        res == is_separator_char(c),
{
    c == ' ' || c == '\t'
}

/// The characters of `s`, in order.
pub fn chars_of(s: &str) -> (res: Vec<char>)
    ensures
        res@ == s@,
{
    let mut res: Vec<char> = Vec::new();
    for c in it: s.chars()
        invariant
            res@ == it.seq().take(it.index() as int),
            it.seq() == s@,
    {
        res.push(c);
    }
    res
}


/// Position of the first character at or after `from` that is not a separator.
fn skip_separators(chars: &Vec<char>, from: usize) -> (i: usize)
    requires
        from <= chars@.len(),
    ensures
        from <= i <= chars@.len(),
        i == from + leading_separators(chars@.skip(from as int)),
        i < chars@.len() ==> !is_separator_char(chars@[i as int]),
        forall|j: int| from <= j < i ==> is_separator_char(#[trigger] chars@[j]),
{
    let mut i = from;
    while i < chars.len() && is_separator(chars[i])
        invariant
            from <= i <= chars@.len(),
            leading_separators(chars@.skip(from as int)) == (i - from) + leading_separators(
                chars@.skip(i as int),
            ),
            forall|j: int| from <= j < i ==> is_separator_char(#[trigger] chars@[j]),
        decreases chars@.len() - i,
    {
        assert(chars@.skip(i as int).drop_first() =~= chars@.skip(i + 1));
        i += 1;
    }
    i
}

/// Position of the first separator at or after `from`, or the end of `chars`.
fn skip_word(chars: &Vec<char>, from: usize) -> (i: usize)
    requires
        from <= chars@.len(),
    ensures
        from <= i <= chars@.len(),
        i == from + word_length(chars@.skip(from as int)),
        i < chars@.len() ==> is_separator_char(chars@[i as int]),
        forall|j: int| from <= j < i ==> !is_separator_char(#[trigger] chars@[j]),
{
    let mut i = from;
    while i < chars.len() && !is_separator(chars[i])
        invariant
            from <= i <= chars@.len(),
            word_length(chars@.skip(from as int)) == (i - from) + word_length(
                chars@.skip(i as int),
            ),
            forall|j: int| from <= j < i ==> !is_separator_char(#[trigger] chars@[j]),
        decreases chars@.len() - i,
    {
        assert(chars@.skip(i as int).drop_first() =~= chars@.skip(i + 1));
        i += 1;
    }
    i
}

/// Reads the first token of `chars@.skip(from)`: its bounds, if there is one, and the
/// position where what follows it starts.
pub(crate) fn scan_token(chars: &Vec<char>, from: usize) -> (res: (Option<(usize, usize)>, usize))
    requires
        from <= chars@.len(),
    ensures
        res.1 <= chars@.len(),
        chars@.skip(res.1 as int) == spec_read(chars@.skip(from as int)).1,
        match res.0 {
            Some((a, b)) => {
                &&& from <= a < b <= res.1
                &&& spec_read(chars@.skip(from as int)).0 == Some(chars@.subrange(a as int, b as int))
            },
            None => spec_read(chars@.skip(from as int)).0 is None,
        },
{
    let a = skip_separators(chars, from);
    let ghost s = chars@.skip(from as int);
    assert(trim_separators(s) =~= chars@.skip(a as int));
    if a == chars.len() {
        (None, a)
    } else {
        let b = skip_word(chars, a);
        proof {
            let t = chars@.skip(a as int);
            assert(t[0] == chars@[a as int]);
            assert(word_length(t) > 0);
            assert(t.take(b - a) =~= chars@.subrange(a as int, b as int));
            assert(t.skip(b - a) =~= chars@.skip(b as int));
        }
        (Some((a, b)), b)
    }
}


/// Whether `chars@.subrange(a, b)` is the word `w`.
pub(crate) fn chars_match(chars: &Vec<char>, a: usize, b: usize, w: &str) -> (res: bool)
    requires
        a <= b <= chars@.len(),
    ensures
        res == (chars@.subrange(a as int, b as int) == w@),
{
    let n = w.unicode_len();
    if n != b - a {
        return false;
    }
    let mut i: usize = 0;
    while i < n
        invariant
            n == w@.len(),
            n == b - a,
            a <= b <= chars@.len(),
            i <= n,
            forall|j: int| 0 <= j < i ==> chars@[a + j] == w@[j],
        decreases n - i,
    {
        if chars[a + i] != w.get_char(i) {
            assert(chars@.subrange(a as int, b as int)[i as int] != w@[i as int]);
            return false;
        }
        i += 1;
    }
    assert(chars@.subrange(a as int, b as int) =~= w@);
    true
}

/// Whether `chars@.subrange(a, b)` is one of `words`.
pub(crate) fn chars_among(chars: &Vec<char>, a: usize, b: usize, words: &[&str]) -> (res: bool)
    requires
        a <= b <= chars@.len(),
    ensures
        res == words_view(words@).contains(chars@.subrange(a as int, b as int)),
{
    let mut k: usize = 0;
    while k < words.len()
        invariant
            a <= b <= chars@.len(),
            k <= words@.len(),
            forall|j: int| 0 <= j < k ==> words@[j]@ != chars@.subrange(a as int, b as int),
        decreases words@.len() - k,
    {
        if chars_match(chars, a, b, words[k]) {
            assert(words_view(words@)[k as int] == chars@.subrange(a as int, b as int));
            return true;
        }
        k += 1;
    }
    assert forall|j: int| 0 <= j < words_view(words@).len() implies words_view(words@)[j]
        != chars@.subrange(a as int, b as int) by {
        assert(words_view(words@)[j] == words@[j]@);
    }
    false
}

/// Reads `chars@.skip(from)` up to the first separator that a word of `stops` follows:
/// the bounds of what was read, if anything was, and the position where the rest starts.
pub(crate) fn scan_until(chars: &Vec<char>, from: usize, stops: &[&str]) -> (res: (
    Option<(usize, usize)>,
    usize,
))
    requires
        from <= chars@.len(),
    ensures
        res.1 <= chars@.len(),
        chars@.skip(res.1 as int) == spec_read_until(chars@.skip(from as int), words_view(stops@)).1,
        match res.0 {
            Some((a, b)) => {
                &&& from <= a < b <= res.1
                &&& spec_read_until(chars@.skip(from as int), words_view(stops@)).0 == Some(
                    chars@.subrange(a as int, b as int),
                )
            },
            None => spec_read_until(chars@.skip(from as int), words_view(stops@)).0 is None,
        },
{
    let ghost w = words_view(stops@);
    let a = skip_separators(chars, from);
    let ghost t = chars@.skip(a as int);
    assert(trim_separators(chars@.skip(from as int)) =~= t);
    if a == chars.len() {
        assert(chars@.skip(a as int) =~= Seq::<char>::empty());
        return (None, a);
    }
    let mut e = a;
    while e < chars.len()
        invariant
            from <= a <= e <= chars@.len(),
            a < chars@.len(),
            !is_separator_char(chars@[a as int]),
            t == chars@.skip(a as int),
            trim_separators(chars@.skip(from as int)) == t,
            w == words_view(stops@),
            first_stop_from(t, 0, w) == first_stop_from(t, e - a, w),
        decreases chars@.len() - e,
    {
        assert(t[e - a] == chars@[e as int]);
        assert(t.skip(e - a) =~= chars@.skip(e as int));
        if is_separator(chars[e]) {
            let (tok, _) = scan_token(chars, e);
            match tok {
                Some((x, y)) => {
                    if chars_among(chars, x, y, stops) {
                        assert(stop_follows(t, e - a, w));
                        assert(first_stop_from(t, e - a, w) == Some(e - a));
                        assert(t.take(e - a) =~= chars@.subrange(a as int, e as int));
                        assert(t.skip(e - a) =~= chars@.skip(e as int));
                        return (Some((a, e)), e);
                    }
                },
                None => {},
            }
        }
        e += 1;
    }
    assert(first_stop_from(t, e - a, w) is None);
    assert(t =~= chars@.subrange(a as int, chars@.len() as int));
    assert(chars@.skip(e as int) =~= Seq::<char>::empty());
    (Some((a, e)), e)
}


/// Whether `a` and `b` are the same text.
pub fn same_str(a: &str, b: &str) -> (res: bool)
    ensures
        res == (a@ == b@),
{
    let n = a.unicode_len();
    if n != b.unicode_len() {
        return false;
    }
    let mut i: usize = 0;
    while i < n
        invariant
            n == a@.len(),
            n == b@.len(),
            i <= n,
            forall|j: int| 0 <= j < i ==> a@[j] == b@[j],
        decreases n - i,
    {
        if a.get_char(i) != b.get_char(i) {
            return false;
        }
        i += 1;
    }
    assert(a@ =~= b@);
    true
}

/// The first token of `s`, if any, and what follows it.
pub fn read(s: &str) -> (res: (Option<&str>, &str))
    ensures
        (match res.0 {
            Some(t) => Some(t@),
            None => None,
        }, res.1@) == spec_read(s@),
{
    let chars = chars_of(s);
    let (tok, rest) = scan_token(&chars, 0);
    assert(chars@.skip(0) =~= s@);
    let tail = s.substring_char(rest, chars.len());
    assert(chars@.skip(rest as int) =~= chars@.subrange(rest as int, chars@.len() as int));
    match tok {
        Some((a, b)) => (Some(s.substring_char(a, b)), tail),
        None => (None, tail),
    }
}

/// What comes before the first separator of `s` that one of the words `stops` follows,
/// and the rest from that separator on (see `spec_read_until`).
pub fn read_until<'a>(s: &'a str, stops: &[&str]) -> (res: (Option<&'a str>, &'a str))
    ensures
        (match res.0 {
            Some(t) => Some(t@),
            None => None,
        }, res.1@) == spec_read_until(s@, words_view(stops@)),
{
    let chars = chars_of(s);
    let (tok, rest) = scan_until(&chars, 0, stops);
    assert(chars@.skip(0) =~= s@);
    let tail = s.substring_char(rest, chars.len());
    assert(chars@.skip(rest as int) =~= chars@.subrange(rest as int, chars@.len() as int));
    match tok {
        Some((a, b)) => (Some(s.substring_char(a, b)), tail),
        None => (None, tail),
    }
}

} // verus!
