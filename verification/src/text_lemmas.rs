//! Facts about tokens of concatenated text, used to read back what was written.

use vstd::prelude::*;
use crate::tokens::{
    first_stop_from, is_separator_char, leading_separators, spec_read, spec_read_until,
    stop_follows, trim_separators, word_length,
};

verus! {

/// Whether every character of `s` is a separator.
pub open spec fn all_separators(s: Seq<char>) -> bool {
    forall|i: int| 0 <= i < s.len() ==> is_separator_char(#[trigger] s[i])
}

/// Whether `w` is a word: not empty, and without separators.
pub open spec fn is_word(w: Seq<char>) -> bool {
    &&& w.len() > 0
    &&& forall|i: int| 0 <= i < w.len() ==> !is_separator_char(#[trigger] w[i])
}

/// Whether `r` ends a token that comes before it: it is empty or starts with a separator.
pub open spec fn ends_token(r: Seq<char>) -> bool {
    r.len() == 0 || is_separator_char(r[0])
}

/// Whether `s` holds a character that is no separator.
pub open spec fn has_word_char(s: Seq<char>) -> bool {
    exists|i: int| 0 <= i < s.len() && !is_separator_char(#[trigger] s[i])
}

/// Separators before text that starts with a word character are all the leading separators.
pub proof fn lemma_leading_separators_concat(p: Seq<char>, s: Seq<char>)
    requires
        all_separators(p),
        s.len() == 0 || !is_separator_char(s[0]),
    ensures
        leading_separators(p + s) == p.len(),
    decreases p.len(),
{
    if p.len() > 0 {
        assert((p + s)[0] == p[0]);
        assert((p + s).drop_first() =~= p.drop_first() + s);
        lemma_leading_separators_concat(p.drop_first(), s);
    } else {
        assert(p + s =~= s);
    }
}

/// A word that ends a token is the whole first word.
pub proof fn lemma_word_length_concat(w: Seq<char>, r: Seq<char>)
    requires
        forall|i: int| 0 <= i < w.len() ==> !is_separator_char(#[trigger] w[i]),
        ends_token(r),
    ensures
        word_length(w + r) == w.len(),
    decreases w.len(),
{
    if w.len() > 0 {
        assert((w + r)[0] == w[0]);
        assert((w + r).drop_first() =~= w.drop_first() + r);
        lemma_word_length_concat(w.drop_first(), r);
    } else {
        assert(w + r =~= r);
    }
}

/// Reading after separators `p` a word `w` that a separator or the end follows gives
/// that word, and leaves what follows it.
pub proof fn lemma_read_word(p: Seq<char>, w: Seq<char>, r: Seq<char>)
    requires
        all_separators(p),
        is_word(w),
        ends_token(r),
    ensures
        spec_read(p + w + r) == (Some(w), r),
{
    let s = p + w + r;
    assert(p + w + r =~= p + (w + r));
    assert((w + r)[0] == w[0]);
    lemma_leading_separators_concat(p, w + r);
    assert(trim_separators(s) =~= w + r);
    lemma_word_length_concat(w, r);
    assert((w + r).take(w.len() as int) =~= w);
    assert((w + r).skip(w.len() as int) =~= r);
}

/// Reading from text of separators only gives no token and leaves nothing.
pub proof fn lemma_read_blank(s: Seq<char>)
    requires
        all_separators(s),
    ensures
        spec_read(s) == (None::<Seq<char>>, Seq::<char>::empty()),
{
    lemma_leading_separators_concat(s, Seq::<char>::empty());
    assert(s + Seq::<char>::empty() =~= s);
    assert(trim_separators(s) =~= Seq::<char>::empty());
}

/// Text with a word character has the same leading separators whatever follows it.
pub proof fn lemma_leading_separators_prefix(a: Seq<char>, b: Seq<char>)
    requires
        has_word_char(a),
    ensures
        leading_separators(a + b) == leading_separators(a),
        leading_separators(a) < a.len(),
    decreases a.len(),
{
    let i = choose|i: int| 0 <= i < a.len() && !is_separator_char(#[trigger] a[i]);
    assert((a + b)[0] == a[0]);
    if is_separator_char(a[0]) {
        assert(a.drop_first()[i - 1] == a[i]);
        assert((a + b).drop_first() =~= a.drop_first() + b);
        lemma_leading_separators_prefix(a.drop_first(), b);
    }
}

/// What follows a token does not change its first word.
pub proof fn lemma_word_length_prefix(x: Seq<char>, b: Seq<char>)
    requires
        ends_token(b),
    ensures
        word_length(x + b) == word_length(x),
    decreases x.len(),
{
    if x.len() > 0 {
        assert((x + b)[0] == x[0]);
        if !is_separator_char(x[0]) {
            assert((x + b).drop_first() =~= x.drop_first() + b);
            lemma_word_length_prefix(x.drop_first(), b);
        }
    } else {
        assert(x + b =~= b);
    }
}

/// The token read from `a + b` is the one read from `a`, where `a` holds a word
/// character and `b` ends the token.
pub proof fn lemma_read_prefix(a: Seq<char>, b: Seq<char>)
    requires
        has_word_char(a),
        ends_token(b),
    ensures
        spec_read(a + b).0 == spec_read(a).0,
{
    lemma_leading_separators_prefix(a, b);
    let l = leading_separators(a) as int;
    let x = a.skip(l);
    assert((a + b).skip(l) =~= x + b);
    lemma_word_length_prefix(x, b);
    crate::tokens::lemma_word_length(x);
    let n = word_length(x) as int;
    assert((x + b).take(n) =~= x.take(n));
}

/// Whether `f` reads back whole before a stop word: it is not empty, starts and ends
/// with a word character, and no stop word follows one of its separators.
pub open spec fn is_phrase(f: Seq<char>, stops: Seq<Seq<char>>) -> bool {
    &&& f.len() > 0
    &&& !is_separator_char(f[0])
    &&& !is_separator_char(f.last())
    &&& forall|i: int| 0 <= i < f.len() ==> !stop_follows(f, i, stops)
}

/// Whether `r` is what may follow a phrase read up to one of `stops`: nothing, or a
/// separator and a stop word.
pub open spec fn stop_or_end(r: Seq<char>, stops: Seq<Seq<char>>) -> bool {
    r.len() == 0 || (0 < r.len() && stop_follows(r, 0, stops))
}

/// No stop word follows a separator inside a phrase, whatever follows the phrase.
proof fn lemma_no_stop_in_phrase(f: Seq<char>, r: Seq<char>, stops: Seq<Seq<char>>, i: int)
    requires
        is_phrase(f, stops),
        ends_token(r),
        0 <= i <= f.len(),
    ensures
        first_stop_from(f + r, i, stops) == first_stop_from(f + r, f.len() as int, stops),
    decreases f.len() - i,
{
    if i < f.len() {
        let t = f + r;
        assert(t[i] == f[i]);
        if is_separator_char(f[i]) {
            assert(f.skip(i)[f.len() - 1 - i] == f.last());
            assert(has_word_char(f.skip(i)));
            assert(t.skip(i) =~= f.skip(i) + r);
            lemma_read_prefix(f.skip(i), r);
            assert(!stop_follows(f, i, stops));
        }
        assert(!stop_follows(t, i, stops));
        lemma_no_stop_in_phrase(f, r, stops, i + 1);
    }
}

/// Reading up to a stop word after separators `p`, a phrase `f` that nothing or a stop
/// word follows gives that phrase and leaves what follows it.
pub proof fn lemma_read_until_phrase(p: Seq<char>, f: Seq<char>, r: Seq<char>, stops: Seq<Seq<char>>)
    requires
        all_separators(p),
        is_phrase(f, stops),
        stop_or_end(r, stops),
    ensures
        spec_read_until(p + f + r, stops) == (Some(f), r),
{
    let s = p + f + r;
    assert(p + f + r =~= p + (f + r));
    assert((f + r)[0] == f[0]);
    lemma_leading_separators_concat(p, f + r);
    assert(trim_separators(s) =~= f + r);
    let t = f + r;
    lemma_no_stop_in_phrase(f, r, stops, 0);
    if r.len() == 0 {
        assert(t =~= f);
    } else {
        assert(t.skip(f.len() as int) =~= r);
        assert(t[f.len() as int] == r[0]);
        assert(r.skip(0) =~= r);
        assert(stop_follows(t, f.len() as int, stops));
        assert(t.take(f.len() as int) =~= f);
    }
}

/// Reading everything after separators `p`, with no stop words, gives the text `f` that
/// starts with a word character, and leaves nothing.
pub proof fn lemma_read_rest_of_line(p: Seq<char>, f: Seq<char>)
    requires
        all_separators(p),
        f.len() > 0,
        !is_separator_char(f[0]),
    ensures
        spec_read_until(p + f, seq![]) == (Some(f), Seq::<char>::empty()),
{
    lemma_leading_separators_concat(p, f);
    assert(trim_separators(p + f) =~= f);
    lemma_no_stop_at_all(f, 0);
}

/// Without stop words, no stop word follows a separator.
proof fn lemma_no_stop_at_all(t: Seq<char>, i: int)
    requires
        0 <= i,
    ensures
        first_stop_from(t, i, seq![]) is None,
    decreases t.len() - i,
{
    if i < t.len() {
        lemma_no_stop_at_all(t, i + 1);
    }
}

} // verus!
