//! Character-sequence helpers: splitting on a separator, joining, replacing.

use vstd::prelude::*;

verus! {

broadcast use vstd::string::group_string_axioms;

/// The pieces of `s` between occurrences of `c`, as `str::split` yields them:
/// there is always at least one piece, and `k` separators give `k + 1` pieces.
pub open spec fn split_on(s: Seq<char>, c: char) -> Seq<Seq<char>>
    decreases s.len(),
{
    if s.len() == 0 {
        seq![Seq::empty()]
    } else {
        let pieces = split_on(s.drop_last(), c);
        if s.last() == c {
            pieces.push(Seq::empty())
        } else {
            pieces.update(pieces.len() - 1, pieces.last().push(s.last()))
        }
    }
}

/// The pieces joined with `sep` between consecutive pieces.
pub open spec fn join(pieces: Seq<Seq<char>>, sep: Seq<char>) -> Seq<char>
    decreases pieces.len(),
{
    if pieces.len() == 0 {
        Seq::empty()
    } else if pieces.len() == 1 {
        pieces[0]
    } else {
        join(pieces.drop_last(), sep) + sep + pieces.last()
    }
}

/// `s` with every occurrence of the character `from` replaced by `to`.
pub open spec fn replace_char(s: Seq<char>, from: char, to: char) -> Seq<char> {
    s.map_values(|x: char| if x == from { to } else { x })
}

/// `s` with every non-overlapping occurrence of `pat`, scanning from the left,
/// removed (`str::replace(pat, "")`); an empty pattern leaves `s` unchanged.
pub open spec fn remove_all(s: Seq<char>, pat: Seq<char>) -> Seq<char>
    decreases s.len(),
{
    if pat.len() == 0 || s.len() < pat.len() {
        s
    } else if s.take(pat.len() as int) == pat {
        remove_all(s.skip(pat.len() as int), pat)
    } else {
        seq![s[0]] + remove_all(s.skip(1), pat)
    }
}

/// Splitting never gives an empty list of pieces.
pub proof fn lemma_split_nonempty(s: Seq<char>, c: char)
    ensures
        split_on(s, c).len() >= 1,
    decreases s.len(),
{
    if s.len() > 0 {
        lemma_split_nonempty(s.drop_last(), c);
    }
}

/// A text with a separator in it splits into at least two pieces.
pub proof fn lemma_split_two(a: Seq<char>, b: Seq<char>, c: char)
    ensures
        split_on(a.push(c) + b, c).len() >= 2,
    decreases b.len(),
{
    if b.len() == 0 {
        assert(a.push(c) + b == a.push(c));
        assert((a.push(c)).drop_last() == a);
        lemma_split_nonempty(a, c);
    } else {
        lemma_split_two(a, b.drop_last(), c);
        assert((a.push(c) + b).drop_last() == a.push(c) + b.drop_last());
    }
}

/// `c` does not occur in `s`.
pub open spec fn free_of(s: Seq<char>, c: char) -> bool {
    forall|i: int| 0 <= i < s.len() ==> s[i] != c
}

/// Every piece is free of `c`.
pub open spec fn pieces_free_of(pieces: Seq<Seq<char>>, c: char) -> bool {
    forall|i: int| 0 <= i < pieces.len() ==> free_of(#[trigger] pieces[i], c)
}

/// A text without the separator is a single piece.
pub proof fn lemma_split_plain(s: Seq<char>, c: char)
    requires
        free_of(s, c),
    ensures
        split_on(s, c) == seq![s],
    decreases s.len(),
{
    if s.len() == 0 {
        assert(s =~= Seq::<char>::empty());
    } else {
        assert forall|i: int| 0 <= i < s.drop_last().len() implies s.drop_last()[i] != c by {
            assert(s.drop_last()[i] == s[i]);
        }
        lemma_split_plain(s.drop_last(), c);
        assert(s.last() != c);
        assert(split_on(s.drop_last(), c) == seq![s.drop_last()]);
        assert(s.drop_last().push(s.last()) == s);
        assert(split_on(s, c) =~= seq![s]);
    }
}

/// A separator followed by a piece without it adds that piece.
pub proof fn lemma_split_append(s: Seq<char>, t: Seq<char>, c: char)
    requires
        free_of(t, c),
    ensures
        split_on(s.push(c) + t, c) == split_on(s, c).push(t),
    decreases t.len(),
{
    if t.len() == 0 {
        assert(t =~= Seq::<char>::empty());
        assert(s.push(c) + t == s.push(c));
        assert(s.push(c).drop_last() == s);
        assert(split_on(s.push(c), c) =~= split_on(s, c).push(t));
    } else {
        let u = s.push(c) + t;
        assert forall|i: int| 0 <= i < t.drop_last().len() implies t.drop_last()[i] != c by {
            assert(t.drop_last()[i] == t[i]);
        }
        lemma_split_append(s, t.drop_last(), c);
        assert(u.drop_last() == s.push(c) + t.drop_last());
        assert(u.last() == t.last());
        assert(t.drop_last().push(t.last()) == t);
        let pieces = split_on(s, c).push(t.drop_last());
        assert(split_on(u, c) == pieces.update(pieces.len() - 1, pieces.last().push(u.last())));
        assert(split_on(u, c) =~= split_on(s, c).push(t));
    }
}

/// Joining pieces without the separator and splitting again gives the pieces back.
pub proof fn lemma_split_join(pieces: Seq<Seq<char>>, c: char)
    requires
        pieces.len() >= 1,
        pieces_free_of(pieces, c),
    ensures
        split_on(join(pieces, seq![c]), c) == pieces,
    decreases pieces.len(),
{
    if pieces.len() == 1 {
        assert(free_of(pieces[0], c));
        lemma_split_plain(pieces[0], c);
        assert(pieces =~= seq![pieces[0]]);
    } else {
        let init = pieces.drop_last();
        assert forall|i: int| 0 <= i < init.len() implies free_of(#[trigger] init[i], c) by {
            assert(init[i] == pieces[i]);
        }
        lemma_split_join(init, c);
        assert(free_of(pieces.last(), c));
        assert(join(init, seq![c]) + seq![c] + pieces.last() == join(init, seq![c]).push(c) + pieces.last());
        lemma_split_append(join(init, seq![c]), pieces.last(), c);
        assert(init.push(pieces.last()) =~= pieces);
    }
}

/// The pieces of a split never hold the separator.
pub proof fn lemma_split_pieces_free(s: Seq<char>, c: char)
    ensures
        pieces_free_of(split_on(s, c), c),
    decreases s.len(),
{
    if s.len() > 0 {
        lemma_split_pieces_free(s.drop_last(), c);
        lemma_split_nonempty(s.drop_last(), c);
        let pieces = split_on(s.drop_last(), c);
        if s.last() != c {
            let last = pieces.last().push(s.last());
            assert(free_of(pieces.last(), c));
            assert(free_of(last, c));
            assert forall|i: int| 0 <= i < split_on(s, c).len() implies free_of(#[trigger] split_on(s, c)[i], c) by {
                if i < pieces.len() - 1 {
                    assert(split_on(s, c)[i] == pieces[i]);
                }
            }
        } else {
            assert forall|i: int| 0 <= i < split_on(s, c).len() implies free_of(#[trigger] split_on(s, c)[i], c) by {
                if i < pieces.len() {
                    assert(split_on(s, c)[i] == pieces[i]);
                } else {
                    assert(split_on(s, c)[i] == Seq::<char>::empty());
                }
            }
        }
    }
}

/// Splitting a text and joining the pieces with the separator gives the text back.
pub proof fn lemma_join_split(s: Seq<char>, c: char)
    ensures
        join(split_on(s, c), seq![c]) == s,
    decreases s.len(),
{
    if s.len() > 0 {
        let init = s.drop_last();
        lemma_join_split(init, c);
        lemma_split_nonempty(init, c);
        let pieces = split_on(init, c);
        if s.last() == c {
            assert(split_on(s, c) == pieces.push(Seq::<char>::empty()));
            assert(pieces.push(Seq::<char>::empty()).drop_last() == pieces);
            assert(join(pieces.push(Seq::<char>::empty()), seq![c]) == join(pieces, seq![c]) + seq![c] + Seq::<char>::empty());
            assert(s =~= init + seq![c] + Seq::<char>::empty());
        } else {
            lemma_join_last(pieces, s.last(), c);
            assert(s =~= init.push(s.last()));
        }
    }
}

/// Appending a character to the last piece appends it to the joined text.
proof fn lemma_join_last(pieces: Seq<Seq<char>>, x: char, c: char)
    requires
        pieces.len() >= 1,
    ensures
        join(pieces.update(pieces.len() - 1, pieces.last().push(x)), seq![c]) == join(pieces, seq![c]).push(x),
{
    let q = pieces.update(pieces.len() - 1, pieces.last().push(x));
    if pieces.len() == 1 {
        assert(q[0] == pieces[0].push(x));
    } else {
        assert(q.drop_last() =~= pieces.drop_last());
        assert(q.last() == pieces.last().push(x));
        assert(join(pieces, seq![c]) == join(pieces.drop_last(), seq![c]) + seq![c] + pieces.last());
        assert(join(q, seq![c]) =~= join(pieces, seq![c]).push(x));
    }
}

/// Append one character to a string (`String::push`).
#[verifier::external_body]
pub fn push_char(s: &mut String, c: char)
    ensures
        final(s)@ == old(s)@.push(c),
{
    s.push(c);
}

/// Append a string slice to a string (`String::push_str`).
#[verifier::external_body]
pub fn push_str(s: &mut String, t: &str)
    ensures
        final(s)@ == old(s)@ + t@,
{
    s.push_str(t);
}

/// The characters of a string slice.
pub fn chars_of(s: &str) -> (r: Vec<char>)
    ensures
        r@ == s@,
{
    let mut r: Vec<char> = Vec::new();
    for c in it: s.chars()
        invariant
            r@ == it.seq().take(it.index()),
    {
        r.push(c);
    }
    r
}

/// The views of a vector of strings.
pub open spec fn views(v: Seq<String>) -> Seq<Seq<char>> {
    v.map_values(|x: String| x@)
}

/// A string holding the given characters.
pub fn string_of(cs: &Vec<char>) -> (r: String)
    ensures
        r@ == cs@,
{
    let mut r = String::new();
    let mut i: usize = 0;
    while i < cs.len()
        invariant
            i <= cs.len(),
            r@ == cs@.take(i as int),
        decreases cs.len() - i,
    {
        push_char(&mut r, cs[i]);
        proof {
            assert(cs@.take(i + 1) == cs@.take(i as int).push(cs@[i as int]));
        }
        i = i + 1;
    }
    proof {
        assert(cs@.take(cs.len() as int) == cs@);
    }
    r
}

/// Split `s` at every `c` (`str::split` with a character pattern).
pub fn split_str(s: &str, c: char) -> (r: Vec<String>)
    ensures
        views(r@) == split_on(s@, c),
{
    let cs = chars_of(s);
    let mut pieces: Vec<String> = Vec::new();
    let mut cur: String = String::new();
    let mut i: usize = 0;
    while i < cs.len()
        invariant
            i <= cs.len(),
            cs@ == s@,
            views(pieces@).push(cur@) == split_on(cs@.take(i as int), c),
        decreases cs.len() - i,
    {
        let x = cs[i];
        proof {
            assert(cs@.take(i + 1).drop_last() == cs@.take(i as int));
            assert(cs@.take(i + 1).last() == x);
        }
        if x == c {
            let done = cur;
            pieces.push(done);
            cur = String::new();
            proof {
                assert(views(pieces@) == views(pieces@.drop_last()).push(done@));
            }
        } else {
            push_char(&mut cur, x);
        }
        i = i + 1;
    }
    proof {
        assert(cs@.take(cs.len() as int) == cs@);
    }
    pieces.push(cur);
    proof {
        assert(views(pieces@) == views(pieces@.drop_last()).push(cur@));
    }
    pieces
}

/// The pieces joined with `sep` between consecutive pieces (`[..].join(sep)`).
pub fn join_strings(pieces: &Vec<String>, sep: &str) -> (r: String)
    ensures
        r@ == join(views(pieces@), sep@),
{
    let mut r = String::new();
    let mut i: usize = 0;
    while i < pieces.len()
        invariant
            i <= pieces.len(),
            r@ == join(views(pieces@).take(i as int), sep@),
        decreases pieces.len() - i,
    {
        proof {
            assert(views(pieces@).take(i + 1).drop_last() == views(pieces@).take(i as int));
        }
        if i > 0 {
            push_str(&mut r, sep);
        }
        push_str(&mut r, pieces[i].as_str());
        i = i + 1;
    }
    proof {
        assert(views(pieces@).take(pieces.len() as int) == views(pieces@));
    }
    r
}

/// Whether `pat` occurs in `s` at position `i`.
fn occurs_at(s: &Vec<char>, pat: &Vec<char>, i: usize) -> (r: bool)
    requires
        i <= s.len(),
    ensures
        r == (i + pat.len() <= s.len() && s@.subrange(i as int, i + pat.len()) == pat@),
{
    if pat.len() > s.len() - i {
        return false;
    }
    let mut k: usize = 0;
    while k < pat.len()
        invariant
            k <= pat.len(),
            i + pat.len() <= s.len(),
            forall|j: int| 0 <= j < k ==> s@[i + j] == pat@[j],
        decreases pat.len() - k,
    {
        if s[i + k] != pat[k] {
            proof {
                assert(s@.subrange(i as int, i + pat.len())[k as int] != pat@[k as int]);
            }
            return false;
        }
        k = k + 1;
    }
    proof {
        assert(s@.subrange(i as int, i + pat.len()) =~= pat@);
    }
    true
}

/// `s.replace(pat, "")`.
pub fn remove_str(s: &str, pat: &str) -> (r: String)
    ensures
        r@ == remove_all(s@, pat@),
{
    let cs = chars_of(s);
    let ps = chars_of(pat);
    let mut r = String::new();
    if ps.len() == 0 {
        return owned_chars(&cs);
    }
    let mut i: usize = 0;
    proof {
        assert(cs@.skip(0) == cs@);
        assert(r@ + remove_all(cs@, ps@) =~= remove_all(cs@, ps@));
    }
    while i < cs.len()
        invariant
            i <= cs.len(),
            cs@ == s@,
            ps@ == pat@,
            ps.len() > 0,
            r@ + remove_all(cs@.skip(i as int), ps@) == remove_all(cs@, ps@),
        decreases cs.len() - i,
    {
        let ghost rest = cs@.skip(i as int);
        if occurs_at(&cs, &ps, i) {
            proof {
                assert(rest.take(ps.len() as int) == cs@.subrange(i as int, i + ps.len()));
                assert(rest.skip(ps.len() as int) == cs@.skip(i + ps.len()));
            }
            i = i + ps.len();
        } else {
            proof {
                if rest.len() >= ps.len() {
                    assert(rest.take(ps.len() as int) == cs@.subrange(i as int, i + ps.len()));
                }
                assert(rest.skip(1) == cs@.skip(i + 1));
                assert(rest[0] == cs@[i as int]);
                if rest.len() < ps.len() {
                    assert(remove_all(rest, ps@) == rest);
                    assert(remove_all(rest.skip(1), ps@) == rest.skip(1));
                    assert(rest =~= seq![rest[0]] + rest.skip(1));
                }
            }
            push_char(&mut r, cs[i]);
            i = i + 1;
        }
    }
    proof {
        assert(cs@.skip(i as int) =~= Seq::<char>::empty());
    }
    r
}

/// A string holding the given characters.
fn owned_chars(cs: &Vec<char>) -> (r: String)
    ensures
        r@ == cs@,
{
    string_of(cs)
}

/// `s` with every `from` character replaced by `to`.
pub fn replace_chars(s: &str, from: char, to: char) -> (r: String)
    ensures
        r@ == replace_char(s@, from, to),
{
    let cs = chars_of(s);
    let mut r = String::new();
    let mut i: usize = 0;
    while i < cs.len()
        invariant
            i <= cs.len(),
            cs@ == s@,
            r@ == replace_char(cs@.take(i as int), from, to),
        decreases cs.len() - i,
    {
        let c = cs[i];
        push_char(&mut r, if c == from { to } else { c });
        proof {
            assert(replace_char(cs@.take(i + 1), from, to) =~= replace_char(cs@.take(i as int), from, to).push(
                if c == from { to } else { c },
            ));
        }
        i = i + 1;
    }
    proof {
        assert(cs@.take(cs.len() as int) == cs@);
    }
    r
}

} // verus!
