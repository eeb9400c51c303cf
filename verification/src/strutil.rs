//! Verified character-sequence utilities: conversion between `&str` and
//! `Vec<char>`, equality, prefix/suffix/containment tests, splitting,
//! joining, trimming and placeholder replacement. All contracts are stated
//! over `Seq<char>` views.
use vstd::prelude::*;
use vstd::string::*;

verus! {

/// Collects the characters of `s` into a vector, one at a time.
pub fn to_chars(s: &str) -> (r: Vec<char>)
    ensures
        r@ == s@,
{
    let n = s.unicode_len();
    let mut r: Vec<char> = Vec::new();
    let mut i: usize = 0;
    while i < n
        invariant
            n == s@.len(),
            i <= n,
            r@ == s@.subrange(0, i as int),
        decreases n - i,
    {
        r.push(s.get_char(i));
        i += 1;
        proof {
            assert(r@ =~= s@.subrange(0, i as int));
        }
    }
    proof {
        assert(r@ =~= s@);
    }
    r
}

/// Relies on `String: FromIterator<char>`: collecting yields a string whose
/// characters are exactly those of the iterator, in order.
#[verifier::external_body]
pub(crate) fn from_chars(cs: &Vec<char>) -> (r: String)
    ensures
        r@ == cs@,
{
    cs.iter().collect()
}

/// The views of a vector of strings.
pub open spec fn string_views(v: Seq<String>) -> Seq<Seq<char>> {
    v.map_values(|s: String| s@)
}

/// Clones a vector of strings, keeping every view.
pub fn clone_strings(v: &Vec<String>) -> (r: Vec<String>)
    ensures
        string_views(r@) == string_views(v@),
        r@.len() == v@.len(),
{
    let mut r: Vec<String> = Vec::new();
    let mut i: usize = 0;
    while i < v.len()
        invariant
            i <= v@.len(),
            r@.len() == i,
            forall|k: int| 0 <= k < i ==> r@[k]@ == v@[k]@,
        decreases v@.len() - i,
    {
        r.push(v[i].clone());
        i += 1;
    }
    proof {
        assert(string_views(r@) =~= string_views(v@));
    }
    r
}

/// String-slice equality, decided through owned strings.
pub fn str_eq(a: &str, b: &str) -> (r: bool)
    ensures
        r == (a@ == b@),
{
    let sa = a.to_owned();
    let sb = b.to_owned();
    sa == sb
}

/// Appends every character of `src` to `dst`.
pub fn push_all(dst: &mut Vec<char>, src: &Vec<char>)
    ensures
        final(dst)@ == old(dst)@ + src@,
{
    let mut j: usize = 0;
    while j < src.len()
        invariant
            j <= src@.len(),
            dst@ == old(dst)@ + src@.subrange(0, j as int),
        decreases src@.len() - j,
    {
        dst.push(src[j]);
        j += 1;
        proof {
            assert(dst@ =~= old(dst)@ + src@.subrange(0, j as int));
        }
    }
    proof {
        assert(dst@ =~= old(dst)@ + src@);
    }
}

/// The pattern `p` occurs in `s` at position `i`.
pub open spec fn matches_at(s: Seq<char>, p: Seq<char>, i: int) -> bool {
    0 <= i && i + p.len() <= s.len() && s.subrange(i, i + p.len() as int) == p
}

/// The pattern `p` occurs somewhere in `s`.
pub open spec fn contains_seq(s: Seq<char>, p: Seq<char>) -> bool {
    exists|i: int| matches_at(s, p, i)
}

/// `s` begins with `p`.
pub open spec fn starts_with_seq(s: Seq<char>, p: Seq<char>) -> bool {
    p.len() <= s.len() && s.subrange(0, p.len() as int) == p
}

/// `s` ends with `p`.
pub open spec fn ends_with_seq(s: Seq<char>, p: Seq<char>) -> bool {
    p.len() <= s.len() && s.subrange(s.len() - p.len(), s.len() as int) == p
}

/// Decides whether `p` occurs in `s` at position `i`.
pub fn match_at(s: &Vec<char>, p: &Vec<char>, i: usize) -> (b: bool)
    requires
        i <= s@.len(),
    ensures
        b == matches_at(s@, p@, i as int),
{
    if p.len() > s.len() - i {
        return false;
    }
    let mut j: usize = 0;
    while j < p.len()
        invariant
            i + p@.len() <= s@.len(),
            s@.len() <= usize::MAX,
            j <= p@.len(),
            forall|k: int| 0 <= k < j ==> s@[i + k] == p@[k],
        decreases p@.len() - j,
    {
        if s[i + j] != p[j] {
            assert(s@.subrange(i as int, i + p@.len() as int)[j as int] != p@[j as int]);
            return false;
        }
        j += 1;
    }
    proof {
        assert(s@.subrange(i as int, i + p@.len() as int) =~= p@);
    }
    true
}

/// Decides whether `p` occurs somewhere in `s`.
pub fn contains_chars(s: &Vec<char>, p: &Vec<char>) -> (b: bool)
    ensures
        b == contains_seq(s@, p@),
{
    if p.len() > s.len() {
        proof {
            assert(forall|i: int| !matches_at(s@, p@, i));
        }
        return false;
    }
    if p.len() == 0 {
        proof {
            assert(s@.subrange(0, 0) =~= p@);
            assert(matches_at(s@, p@, 0));
        }
        return true;
    }
    let mut i: usize = 0;
    while i <= s.len() - p.len()
        invariant
            0 < p@.len() <= s@.len(),
            s@.len() <= usize::MAX,
            i <= s@.len() - p@.len() + 1,
            forall|k: int| 0 <= k < i ==> !matches_at(s@, p@, k),
        decreases s@.len() - p@.len() + 1 - i,
    {
        if match_at(s, p, i) {
            return true;
        }
        i += 1;
    }
    proof {
        assert(forall|k: int| !matches_at(s@, p@, k));
    }
    false
}

/// Decides whether `s` begins with `p`.
pub fn starts_with_chars(s: &Vec<char>, p: &Vec<char>) -> (b: bool)
    ensures
        b == starts_with_seq(s@, p@),
{
    match_at(s, p, 0)
}

/// Decides whether `s` ends with `p`.
pub fn ends_with_chars(s: &Vec<char>, p: &Vec<char>) -> (b: bool)
    ensures
        b == ends_with_seq(s@, p@),
{
    if p.len() > s.len() {
        return false;
    }
    match_at(s, p, s.len() - p.len())
}

/// Every occurrence of `from` in `s` replaced by `to`, scanning left to
/// right without overlap; an empty pattern leaves `s` unchanged.
pub open spec fn replace_seq(s: Seq<char>, from: Seq<char>, to: Seq<char>) -> Seq<char>
    decreases s.len(),
{
    if from.len() == 0 || s.len() < from.len() {
        s
    } else if s.subrange(0, from.len() as int) == from {
        to + replace_seq(s.skip(from.len() as int), from, to)
    } else {
        seq![s[0]] + replace_seq(s.skip(1), from, to)
    }
}

proof fn lemma_replace_no_match(s: Seq<char>, from: Seq<char>, to: Seq<char>)
    requires
        s.len() > 0,
        from.len() > 0,
        !matches_at(s, from, 0),
    ensures
        replace_seq(s, from, to) == seq![s[0]] + replace_seq(s.skip(1), from, to),
{
    if s.len() < from.len() {
        assert(replace_seq(s.skip(1), from, to) == s.skip(1));
        assert(s =~= seq![s[0]] + s.skip(1));
    }
}

/// `replace_chars` computes `replace_seq` over character vectors.
pub fn replace_chars(s: &Vec<char>, from: &Vec<char>, to: &Vec<char>) -> (r: Vec<char>)
    ensures
        r@ == replace_seq(s@, from@, to@),
{
    if from.len() == 0 {
        let mut r: Vec<char> = Vec::new();
        push_all(&mut r, s);
        return r;
    }
    let mut r: Vec<char> = Vec::new();
    let mut i: usize = 0;
    proof {
        assert(s@.skip(0) =~= s@);
        assert(r@ + replace_seq(s@, from@, to@) =~= replace_seq(s@, from@, to@));
    }
    while i < s.len()
        invariant
            from@.len() > 0,
            i <= s@.len(),
            replace_seq(s@, from@, to@) == r@ + replace_seq(s@.skip(i as int), from@, to@),
        decreases s@.len() - i,
    {
        if match_at(s, from, i) {
            proof {
                assert(s@.skip(i as int).len() >= from@.len());
                assert(s@.skip(i as int).subrange(0, from@.len() as int) =~= s@.subrange(
                    i as int,
                    i + from@.len() as int,
                ));
                assert(s@.skip(i as int).skip(from@.len() as int) =~= s@.skip(
                    i + from@.len() as int,
                ));
            }
            push_all(&mut r, to);
            i += from.len();
            proof {
                assert(replace_seq(s@, from@, to@) =~= r@ + replace_seq(
                    s@.skip(i as int),
                    from@,
                    to@,
                ));
            }
        } else {
            proof {
                if i + from@.len() <= s@.len() {
                    assert(s@.skip(i as int).subrange(0, from@.len() as int) =~= s@.subrange(
                        i as int,
                        i + from@.len() as int,
                    ));
                }
                lemma_replace_no_match(s@.skip(i as int), from@, to@);
                assert(s@.skip(i as int)[0] == s@[i as int]);
                assert(s@.skip(i as int).skip(1) =~= s@.skip(i + 1));
            }
            r.push(s[i]);
            i += 1;
            proof {
                assert(replace_seq(s@, from@, to@) =~= r@ + replace_seq(
                    s@.skip(i as int),
                    from@,
                    to@,
                ));
            }
        }
    }
    proof {
        assert(s@.skip(i as int) =~= Seq::<char>::empty());
        assert(replace_seq(Seq::<char>::empty(), from@, to@) == Seq::<char>::empty());
        assert(r@ =~= r@ + Seq::<char>::empty());
    }
    r
}

/// `s` divided at every occurrence of `c`: the separators are dropped and
/// the pieces kept in order, so `n` separators yield `n + 1` pieces.
pub open spec fn split_seq(s: Seq<char>, c: char) -> Seq<Seq<char>>
    decreases s.len(),
{
    if s.len() == 0 {
        seq![Seq::<char>::empty()]
    } else if s[0] == c {
        seq![Seq::<char>::empty()] + split_seq(s.skip(1), c)
    } else {
        let rest = split_seq(s.skip(1), c);
        seq![seq![s[0]] + rest[0]] + rest.skip(1)
    }
}

pub proof fn lemma_split_len(s: Seq<char>, c: char)
    ensures
        split_seq(s, c).len() >= 1,
    decreases s.len(),
{
    if s.len() > 0 {
        lemma_split_len(s.skip(1), c);
    }
}

/// The first piece of `segs` with `p` glued onto its front.
spec fn prepend_first(p: Seq<char>, segs: Seq<Seq<char>>) -> Seq<Seq<char>> {
    seq![p + segs[0]] + segs.skip(1)
}

/// The views of a vector of character vectors.
pub open spec fn views_of(vs: Seq<Vec<char>>) -> Seq<Seq<char>> {
    vs.map_values(|v: Vec<char>| v@)
}

/// Splits `s` at every occurrence of `c`.
pub fn split_chars(s: &Vec<char>, c: char) -> (r: Vec<Vec<char>>)
    ensures
        views_of(r@) == split_seq(s@, c),
{
    let mut out: Vec<Vec<char>> = Vec::new();
    let mut cur: Vec<char> = Vec::new();
    let mut i: usize = 0;
    proof {
        lemma_split_len(s@, c);
        assert(s@.skip(0) =~= s@);
        assert(prepend_first(cur@, split_seq(s@, c)) =~= split_seq(s@, c));
        assert(views_of(out@) + split_seq(s@, c) =~= split_seq(s@, c));
    }
    while i < s.len()
        invariant
            i <= s@.len(),
            split_seq(s@.skip(i as int), c).len() >= 1,
            split_seq(s@, c) == views_of(out@) + prepend_first(
                cur@,
                split_seq(s@.skip(i as int), c),
            ),
        decreases s@.len() - i,
    {
        proof {
            lemma_split_len(s@.skip(i + 1), c);
            assert(s@.skip(i as int)[0] == s@[i as int]);
            assert(s@.skip(i as int).skip(1) =~= s@.skip(i + 1));
        }
        let ghost prev = prepend_first(cur@, split_seq(s@.skip(i as int), c));
        if s[i] == c {
            let ghost old_out = out@;
            let ghost old_cur = cur@;
            out.push(cur);
            cur = Vec::new();
            proof {
                assert(split_seq(s@.skip(i as int), c) == seq![Seq::<char>::empty()] + split_seq(
                    s@.skip(i + 1),
                    c,
                ));
                assert(prev =~= seq![old_cur] + split_seq(s@.skip(i + 1), c)) by {
                    assert(prev[0] =~= old_cur);
                }
                assert(views_of(out@) =~= views_of(old_out).push(out@[out@.len() - 1]@));
                assert(split_seq(s@, c) =~= views_of(out@) + prepend_first(
                    cur@,
                    split_seq(s@.skip(i + 1), c),
                )) by {
                    assert(prepend_first(cur@, split_seq(s@.skip(i + 1), c)) =~= split_seq(
                        s@.skip(i + 1),
                        c,
                    ));
                }
            }
        } else {
            let ghost old_cur = cur@;
            cur.push(s[i]);
            proof {
                let rest = split_seq(s@.skip(i + 1), c);
                assert(split_seq(s@.skip(i as int), c) == seq![seq![s@[i as int]] + rest[0]]
                    + rest.skip(1));
                assert(prepend_first(old_cur, split_seq(s@.skip(i as int), c)) =~= prepend_first(
                    cur@,
                    rest,
                )) by {
                    assert(old_cur + (seq![s@[i as int]] + rest[0]) =~= cur@ + rest[0]);
                }
                assert(split_seq(s@, c) =~= views_of(out@) + prepend_first(cur@, rest));
            }
        }
        i += 1;
    }
    proof {
        assert(s@.skip(i as int) =~= Seq::<char>::empty());
        assert(split_seq(Seq::<char>::empty(), c) == seq![Seq::<char>::empty()]);
        assert(prepend_first(cur@, seq![Seq::<char>::empty()]) =~= seq![cur@]);
    }
    let ghost old_out = out@;
    out.push(cur);
    proof {
        assert(views_of(out@) =~= views_of(old_out).push(out@[out@.len() - 1]@));
        assert(views_of(out@) =~= split_seq(s@, c));
    }
    out
}

/// The pieces of `parts` joined with `sep` between consecutive pieces.
pub open spec fn join_seq(parts: Seq<Seq<char>>, sep: Seq<char>) -> Seq<char>
    decreases parts.len(),
{
    if parts.len() == 0 {
        Seq::empty()
    } else if parts.len() == 1 {
        parts[0]
    } else {
        parts[0] + sep + join_seq(parts.skip(1), sep)
    }
}

proof fn lemma_join_push(parts: Seq<Seq<char>>, sep: Seq<char>, p: Seq<char>)
    ensures
        parts.len() == 0 ==> join_seq(parts.push(p), sep) == p,
        parts.len() > 0 ==> join_seq(parts.push(p), sep) == join_seq(parts, sep) + sep + p,
    decreases parts.len(),
{
    if parts.len() == 0 {
        assert(parts.push(p)[0] == p);
    } else if parts.len() == 1 {
        assert(parts.push(p)[0] == parts[0]);
        assert(parts.push(p).skip(1) =~= seq![p]);
        assert(join_seq(seq![p], sep) == p);
    } else {
        lemma_join_push(parts.skip(1), sep, p);
        assert(parts.push(p).skip(1) =~= parts.skip(1).push(p));
        assert(parts.push(p)[0] == parts[0]);
        assert(join_seq(parts.push(p), sep) == parts[0] + sep + join_seq(
            parts.skip(1).push(p),
            sep,
        ));
        assert(parts[0] + sep + (join_seq(parts.skip(1), sep) + sep + p) =~= (parts[0] + sep
            + join_seq(parts.skip(1), sep)) + sep + p);
    }
}

/// Joins the pieces with `sep` between consecutive pieces.
pub fn join_chars(parts: &Vec<Vec<char>>, sep: &Vec<char>) -> (r: Vec<char>)
    ensures
        r@ == join_seq(views_of(parts@), sep@),
{
    let mut r: Vec<char> = Vec::new();
    let mut i: usize = 0;
    while i < parts.len()
        invariant
            i <= parts@.len(),
            r@ == join_seq(views_of(parts@).subrange(0, i as int), sep@),
        decreases parts@.len() - i,
    {
        proof {
            lemma_join_push(views_of(parts@).subrange(0, i as int), sep@, parts@[i as int]@);
            assert(views_of(parts@).subrange(0, i + 1) =~= views_of(parts@).subrange(
                0,
                i as int,
            ).push(parts@[i as int]@));
        }
        if i > 0 {
            push_all(&mut r, sep);
        }
        proof {
            assert(views_of(parts@).subrange(0, i as int).len() == i);
        }
        push_all(&mut r, &parts[i]);
        i += 1;
    }
    proof {
        assert(views_of(parts@).subrange(0, parts@.len() as int) =~= views_of(parts@));
    }
    r
}

/// `s` with every trailing occurrence of `c` removed.
pub open spec fn trim_end_seq(s: Seq<char>, c: char) -> Seq<char>
    decreases s.len(),
{
    if s.len() > 0 && s[s.len() - 1] == c {
        trim_end_seq(s.take(s.len() - 1), c)
    } else {
        s
    }
}

/// Removes every trailing occurrence of `c` from `s`.
pub fn trim_end_chars(s: &Vec<char>, c: char) -> (r: Vec<char>)
    ensures
        r@ == trim_end_seq(s@, c),
{
    let mut end: usize = s.len();
    proof {
        assert(s@.subrange(0, end as int) =~= s@);
    }
    while end > 0 && s[end - 1] == c
        invariant
            end <= s@.len(),
            trim_end_seq(s@, c) == trim_end_seq(s@.subrange(0, end as int), c),
        decreases end,
    {
        proof {
            assert(s@.subrange(0, end as int).take(end - 1) =~= s@.subrange(0, end - 1));
        }
        end -= 1;
    }
    let mut r: Vec<char> = Vec::new();
    let mut i: usize = 0;
    while i < end
        invariant
            end <= s@.len(),
            i <= end,
            r@ == s@.subrange(0, i as int),
        decreases end - i,
    {
        r.push(s[i]);
        i += 1;
        proof {
            assert(r@ =~= s@.subrange(0, i as int));
        }
    }
    proof {
        if end > 0 {
            assert(s@.subrange(0, end as int)[end - 1] == s@[end - 1]);
        }
        assert(trim_end_seq(s@.subrange(0, end as int), c) == s@.subrange(0, end as int));
    }
    r
}

/// Lexicographic order on character sequences, by code point.
pub open spec fn lex_le(a: Seq<char>, b: Seq<char>) -> bool
    decreases a.len(),
{
    if a.len() == 0 {
        true
    } else if b.len() == 0 {
        false
    } else if a[0] == b[0] {
        lex_le(a.skip(1), b.skip(1))
    } else {
        (a[0] as u32) < (b[0] as u32)
    }
}

/// Decides `lex_le` on character vectors.
pub fn lex_le_chars(a: &Vec<char>, b: &Vec<char>) -> (r: bool)
    ensures
        r == lex_le(a@, b@),
{
    let mut i: usize = 0;
    proof {
        assert(a@.skip(0) =~= a@);
        assert(b@.skip(0) =~= b@);
    }
    loop
        invariant
            i <= a@.len(),
            i <= b@.len(),
            lex_le(a@, b@) == lex_le(a@.skip(i as int), b@.skip(i as int)),
        decreases a@.len() - i,
    {
        if i == a.len() {
            return true;
        }
        if i == b.len() {
            return false;
        }
        let ca = a[i];
        let cb = b[i];
        proof {
            assert(a@.skip(i as int)[0] == a@[i as int]);
            assert(b@.skip(i as int)[0] == b@[i as int]);
            assert(a@.skip(i as int).skip(1) =~= a@.skip(i + 1));
            assert(b@.skip(i as int).skip(1) =~= b@.skip(i + 1));
        }
        if ca != cb {
            return (ca as u32) < (cb as u32);
        }
        i += 1;
    }
}


proof fn lemma_char_cast_injective(x: char, y: char)
    requires
        (x as u32) == (y as u32),
    ensures
        x == y,
{
}

/// Law: the lexicographic order is total.
pub proof fn lemma_lex_le_total(a: Seq<char>, b: Seq<char>)
    ensures
        lex_le(a, b) || lex_le(b, a),
    decreases a.len(),
{
    if a.len() > 0 && b.len() > 0 && a[0] == b[0] {
        lemma_lex_le_total(a.skip(1), b.skip(1));
    } else if a.len() > 0 && b.len() > 0 {
        if (a[0] as u32) < (b[0] as u32) {
            assert(lex_le(a, b));
        } else {
            if (b[0] as u32) == (a[0] as u32) {
                lemma_char_cast_injective(b[0], a[0]);
            }
            assert(lex_le(b, a));
        }
    }
}

/// Law: the lexicographic order is transitive.
pub proof fn lemma_lex_le_trans(a: Seq<char>, b: Seq<char>, c: Seq<char>)
    requires
        lex_le(a, b),
        lex_le(b, c),
    ensures
        lex_le(a, c),
    decreases a.len(),
{
    if a.len() == 0 {
    } else {
        assert(b.len() > 0);
        assert(c.len() > 0);
        if a[0] == b[0] {
            if b[0] == c[0] {
                lemma_lex_le_trans(a.skip(1), b.skip(1), c.skip(1));
            }
        }
    }
}


/// Law: the lexicographic order is reflexive.
pub proof fn lemma_lex_le_refl(a: Seq<char>)
    ensures
        lex_le(a, a),
    decreases a.len(),
{
    if a.len() > 0 {
        lemma_lex_le_refl(a.skip(1));
    }
}

} // verus!
