//! Lexing of the header text: lines, whitespace-separated tokens, fields
//! and trimming.
use vstd::prelude::*;

verus! {

/// Whitespace as Unicode's White_Space property has it: U+0009 to U+000D,
/// U+0020, U+0085, U+00A0, U+1680, U+2000 to U+200A, U+2028, U+2029, U+202F,
/// U+205F and U+3000.
pub open spec fn is_ws(c: char) -> bool {
    ||| ('\u{9}' <= c && c <= '\u{d}')
    ||| c == ' '
    ||| c == '\u{85}'
    ||| c == '\u{a0}'
    ||| c == '\u{1680}'
    ||| ('\u{2000}' <= c && c <= '\u{200a}')
    ||| c == '\u{2028}'
    ||| c == '\u{2029}'
    ||| c == '\u{202f}'
    ||| c == '\u{205f}'
    ||| c == '\u{3000}'
}

/// Whether `c` is whitespace.
pub fn is_space(c: char) -> (r: bool)
    ensures
        r == is_ws(c),
{
    ('\u{9}' <= c && c <= '\u{d}') || c == ' ' || c == '\u{85}' || c == '\u{a0}' || c
        == '\u{1680}' || ('\u{2000}' <= c && c <= '\u{200a}') || c == '\u{2028}' || c
        == '\u{2029}' || c == '\u{202f}' || c == '\u{205f}' || c == '\u{3000}'
}

/// Copies `s[lo..hi]` into a new vector.
pub fn copy_chars(s: &[char], lo: usize, hi: usize) -> (r: Vec<char>)
    requires
        lo <= hi <= s@.len(),
    ensures
        r@ == s@.subrange(lo as int, hi as int),
{
    let mut r: Vec<char> = Vec::new();
    let mut i: usize = lo;
    while i < hi
        invariant
            lo <= i <= hi,
            hi <= s@.len(),
            r@ == s@.subrange(lo as int, i as int),
        decreases hi - i,
    {
        r.push(s[i]);
        assert(s@.subrange(lo as int, i + 1) =~= s@.subrange(lo as int, i as int).push(s@[i as int]));
        i = i + 1;
    }
    r
}

/// Whether two character sequences are equal.
pub fn chars_eq(a: &[char], b: &[char]) -> (r: bool)
    ensures
        r == (a@ == b@),
{
    if a.len() != b.len() {
        return false;
    }
    let mut i: usize = 0;
    while i < a.len()
        invariant
            a@.len() == b@.len(),
            i <= a@.len(),
            forall|j: int| 0 <= j < i ==> a@[j] == b@[j],
        decreases a@.len() - i,
    {
        if a[i] != b[i] {
            return false;
        }
        i = i + 1;
    }
    assert(a@ =~= b@);
    true
}

/// Index of the first occurrence of `b` in `s`, if any.
pub open spec fn find_first(s: Seq<char>, b: char) -> Option<int>
    decreases s.len(),
{
    if s.len() == 0 {
        None
    } else {
        match find_first(s.drop_last(), b) {
            Some(i) => Some(i),
            None => if s.last() == b {
                Some(s.len() - 1)
            } else {
                None
            },
        }
    }
}

pub proof fn lemma_find_first_bounds(s: Seq<char>, b: char)
    ensures
        find_first(s, b) matches Some(i) ==> 0 <= i < s.len() && s[i] == b,
        find_first(s, b) is None ==> forall|j: int| 0 <= j < s.len() ==> s[j] != b,
    decreases s.len(),
{
    if s.len() > 0 {
        lemma_find_first_bounds(s.drop_last(), b);
        if find_first(s.drop_last(), b) is None {
            assert forall|j: int| 0 <= j < s.len() - 1 implies s[j] != b by {
                assert(s.drop_last()[j] == s[j]);
            }
        }
    }
}

proof fn lemma_find_first_extend(s: Seq<char>, b: char, k: int)
    requires
        0 <= k <= s.len(),
        find_first(s.subrange(0, k), b) is Some,
    ensures
        find_first(s, b) == find_first(s.subrange(0, k), b),
    decreases s.len() - k,
{
    if k == s.len() {
        assert(s.subrange(0, k) =~= s);
    } else {
        assert(s.drop_last().subrange(0, k) =~= s.subrange(0, k));
        lemma_find_first_extend(s.drop_last(), b, k);
    }
}

/// `find_first` gives the first position where `b` stands.
pub proof fn lemma_find_first_at(s: Seq<char>, b: char, j: int)
    requires
        0 <= j < s.len(),
        s[j] == b,
        forall|i: int| 0 <= i < j ==> s[i] != b,
    ensures
        find_first(s, b) == Some(j),
{
    let p = s.subrange(0, j);
    lemma_find_first_bounds(p, b);
    match find_first(p, b) {
        Some(i) => {
            assert(p[i] == s[i]);
        },
        None => {},
    }
    let q = s.subrange(0, j + 1);
    assert(q.drop_last() =~= p);
    lemma_find_first_extend(s, b, j + 1);
}

/// Without `b`, `find_first` finds nothing.
pub proof fn lemma_find_first_none(s: Seq<char>, b: char)
    requires
        forall|i: int| 0 <= i < s.len() ==> s[i] != b,
    ensures
        find_first(s, b) is None,
{
    lemma_find_first_bounds(s, b);
}

/// Returns the index of the first occurrence of `b` in `s`.
pub fn find_char(s: &[char], b: char) -> (r: Option<usize>)
    ensures
        match r {
            Some(i) => find_first(s@, b) == Some(i as int) && i < s@.len() && s@[i as int] == b,
            None => find_first(s@, b) == None::<int>,
        },
{
    let n = s.len();
    let mut i: usize = 0;
    while i < n
        invariant
            n == s@.len(),
            i <= n,
            find_first(s@.subrange(0, i as int), b) == None::<int>,
        decreases n - i,
    {
        let ghost p = s@.subrange(0, i + 1);
        assert(p.drop_last() =~= s@.subrange(0, i as int));
        if s[i] == b {
            proof {
                lemma_find_first_extend(s@, b, i + 1);
            }
            return Some(i);
        }
        i = i + 1;
    }
    assert(s@.subrange(0, n as int) =~= s@);
    None
}

/// The pieces of `s` between occurrences of `sep`; there is always at least
/// one piece.
pub open spec fn split(s: Seq<char>, sep: char) -> Seq<Seq<char>>
    decreases s.len(),
{
    if s.len() == 0 {
        seq![Seq::empty()]
    } else {
        let p = split(s.drop_last(), sep);
        if s.last() == sep {
            p.push(Seq::empty())
        } else {
            p.update(p.len() - 1, p.last().push(s.last()))
        }
    }
}

pub proof fn lemma_split_nonempty(s: Seq<char>, sep: char)
    ensures
        split(s, sep).len() >= 1,
    decreases s.len(),
{
    if s.len() > 0 {
        lemma_split_nonempty(s.drop_last(), sep);
    }
}

/// Without `sep`, `s` is one piece.
pub proof fn lemma_split_whole(s: Seq<char>, sep: char)
    requires
        forall|i: int| 0 <= i < s.len() ==> s[i] != sep,
    ensures
        split(s, sep) == seq![s],
    decreases s.len(),
{
    if s.len() > 0 {
        assert forall|i: int| 0 <= i < s.drop_last().len() implies s.drop_last()[i] != sep by {
            assert(s.drop_last()[i] == s[i]);
        }
        lemma_split_whole(s.drop_last(), sep);
        assert(s.drop_last().push(s.last()) =~= s);
        assert(split(s, sep) =~= seq![s]);
    } else {
        assert(s =~= Seq::<char>::empty());
    }
}

/// A prefix without `sep` joins the first piece.
pub proof fn lemma_split_prefix(a: Seq<char>, b: Seq<char>, sep: char)
    requires
        forall|i: int| 0 <= i < a.len() ==> a[i] != sep,
    ensures
        split(b, sep).len() >= 1,
        split(a + b, sep) == split(b, sep).update(0, a + split(b, sep)[0]),
    decreases b.len(),
{
    lemma_split_nonempty(b, sep);
    if b.len() == 0 {
        assert(a + b =~= a);
        lemma_split_whole(a, sep);
        assert(split(a + b, sep) =~= split(b, sep).update(0, a + split(b, sep)[0]));
    } else {
        let c = a + b;
        assert(c.drop_last() =~= a + b.drop_last());
        lemma_split_prefix(a, b.drop_last(), sep);
        lemma_split_nonempty(b.drop_last(), sep);
        let p = split(b.drop_last(), sep);
        if b.last() != sep && p.len() == 1 {
            assert((a + p[0]).push(b.last()) =~= a + p[0].push(b.last()));
        }
        assert(split(a + b, sep) =~= split(b, sep).update(0, a + split(b, sep)[0]));
    }
}

/// The first piece is the prefix of `b` up to its first `sep`: there is
/// one piece exactly when that prefix is all of `b`.
pub proof fn lemma_split_first(b: Seq<char>, sep: char)
    ensures
        split(b, sep).len() >= 1,
        split(b, sep)[0].len() <= b.len(),
        split(b, sep)[0] == b.subrange(0, split(b, sep)[0].len() as int),
        split(b, sep)[0].len() < b.len() ==> b[split(b, sep)[0].len() as int] == sep,
        (split(b, sep).len() == 1) == (split(b, sep)[0].len() == b.len()),
    decreases b.len(),
{
    lemma_split_nonempty(b, sep);
    if b.len() == 0 {
    } else {
        let bp = b.drop_last();
        lemma_split_first(bp, sep);
        let f = split(bp, sep)[0];
        if b.last() != sep && split(bp, sep).len() == 1 {
            assert(f =~= bp);
            assert(split(b, sep)[0] =~= b);
        } else {
            assert(split(b, sep)[0] == f);
            assert(b.subrange(0, f.len() as int) =~= bp.subrange(0, f.len() as int));
        }
    }
}

/// Splitting at a `sep` joins the pieces of both sides.
pub proof fn lemma_split_concat(a: Seq<char>, b: Seq<char>, sep: char)
    ensures
        split(a.push(sep) + b, sep) == split(a, sep) + split(b, sep),
    decreases b.len(),
{
    lemma_split_nonempty(a, sep);
    if b.len() == 0 {
        assert(a.push(sep) + b =~= a.push(sep));
        assert(a.push(sep).drop_last() =~= a);
        assert(split(a.push(sep) + b, sep) =~= split(a, sep) + split(b, sep));
    } else {
        let c = a.push(sep) + b;
        assert(c.drop_last() =~= a.push(sep) + b.drop_last());
        lemma_split_concat(a, b.drop_last(), sep);
        lemma_split_nonempty(b.drop_last(), sep);
        assert(split(c, sep) =~= split(a, sep) + split(b, sep));
    }
}

/// Splits `s` at every occurrence of `sep`.
pub fn split_on(s: &[char], sep: char) -> (r: Vec<Vec<char>>)
    ensures
        r.deep_view() == split(s@, sep),
{
    let n = s.len();
    let mut pieces: Vec<Vec<char>> = Vec::new();
    let mut cur: Vec<char> = Vec::new();
    let mut i: usize = 0;
    assert(pieces.deep_view().push(cur@) =~= split(s@.subrange(0, 0), sep));
    while i < n
        invariant
            n == s@.len(),
            i <= n,
            pieces.deep_view().push(cur@) == split(s@.subrange(0, i as int), sep),
        decreases n - i,
    {
        let ghost p = s@.subrange(0, i + 1);
        let ghost before = pieces.deep_view();
        assert(p.drop_last() =~= s@.subrange(0, i as int));
        let b = s[i];
        if b == sep {
            let ghost c = cur@;
            assert(cur.deep_view() =~= c);
            pieces.push(cur);
            cur = Vec::new();
            assert(pieces.deep_view() =~= before.push(c));
            assert(pieces.deep_view().push(cur@) =~= split(p, sep));
        } else {
            cur.push(b);
            assert(pieces.deep_view() =~= before);
            assert(pieces.deep_view().push(cur@) =~= split(p, sep));
        }
        i = i + 1;
    }
    assert(s@.subrange(0, n as int) =~= s@);
    let ghost before = pieces.deep_view();
    let ghost c = cur@;
    assert(cur.deep_view() =~= c);
    pieces.push(cur);
    assert(pieces.deep_view() =~= before.push(c));
    pieces
}

/// The maximal runs of non-whitespace characters of `s`, in order.
pub open spec fn tokens(s: Seq<char>) -> Seq<Seq<char>>
    decreases s.len(),
{
    if s.len() == 0 {
        seq![]
    } else {
        let t = tokens(s.drop_last());
        let b = s.last();
        if is_ws(b) {
            t
        } else if s.len() == 1 || is_ws(s[s.len() - 2]) {
            t.push(seq![b])
        } else {
            t.update(t.len() - 1, t.last().push(b))
        }
    }
}

proof fn lemma_tokens_open(s: Seq<char>)
    requires
        s.len() > 0,
        !is_ws(s.last()),
    ensures
        tokens(s).len() >= 1,
    decreases s.len(),
{
    if s.len() > 1 && !is_ws(s[s.len() - 2]) {
        assert(s.drop_last().last() == s[s.len() - 2]);
        lemma_tokens_open(s.drop_last());
    }
}

/// A nonempty run without whitespace is one token.
pub proof fn lemma_tokens_word(t: Seq<char>)
    requires
        t.len() > 0,
        forall|i: int| 0 <= i < t.len() ==> !is_ws(t[i]),
    ensures
        tokens(t) == seq![t],
    decreases t.len(),
{
    if t.len() == 1 {
        assert(t.drop_last() =~= Seq::<char>::empty());
        assert(tokens(t.drop_last()) =~= Seq::<Seq<char>>::empty());
        assert(!is_ws(t[0]));
        assert(seq![t.last()] =~= t);
        assert(tokens(t) =~= seq![t]);
    } else {
        assert forall|i: int| 0 <= i < t.drop_last().len() implies !is_ws(t.drop_last()[i]) by {
            assert(t.drop_last()[i] == t[i]);
        }
        lemma_tokens_word(t.drop_last());
        assert(!is_ws(t[t.len() - 2]));
        assert(t.drop_last().push(t.last()) =~= t);
        assert(tokens(t) =~= seq![t]);
    }
}

/// A word followed by nothing or by whitespace is the first token, and the
/// tokens of the rest follow it.
pub proof fn lemma_tokens_concat(t: Seq<char>, x: Seq<char>)
    requires
        t.len() > 0,
        forall|i: int| 0 <= i < t.len() ==> !is_ws(t[i]),
        x.len() == 0 || is_ws(x[0]),
    ensures
        tokens(t + x) == seq![t] + tokens(x),
    decreases x.len(),
{
    if x.len() == 0 {
        lemma_tokens_word(t);
        assert(t + x =~= t);
        assert(tokens(t + x) =~= seq![t] + tokens(x));
    } else {
        let c = t + x;
        let xp = x.drop_last();
        assert(c.drop_last() =~= t + xp);
        if xp.len() > 0 {
            assert(xp[0] == x[0]);
        }
        lemma_tokens_concat(t, xp);
        let b = x.last();
        if is_ws(b) {
            assert(tokens(c) =~= seq![t] + tokens(x));
        } else {
            assert(x.len() >= 2);
            assert(c[c.len() - 2] == x[x.len() - 2]);
            if is_ws(x[x.len() - 2]) {
                assert(tokens(c) =~= seq![t] + tokens(x));
            } else {
                assert(xp.last() == x[x.len() - 2]);
                lemma_tokens_open(xp);
                assert(tokens(c) =~= seq![t] + tokens(x));
            }
        }
    }
}

/// Leading whitespace makes no token.
pub proof fn lemma_tokens_skip_ws(w: char, y: Seq<char>)
    requires
        is_ws(w),
    ensures
        tokens(seq![w] + y) == tokens(y),
    decreases y.len(),
{
    let c = seq![w] + y;
    if y.len() == 0 {
        assert(c.drop_last() =~= Seq::<char>::empty());
        assert(tokens(c.drop_last()) =~= Seq::<Seq<char>>::empty());
    } else {
        let yp = y.drop_last();
        assert(c.drop_last() =~= seq![w] + yp);
        lemma_tokens_skip_ws(w, yp);
        if y.len() >= 2 {
            assert(c[c.len() - 2] == y[y.len() - 2]);
        }
    }
}

/// Splits `s` into its whitespace-separated tokens.
pub fn split_tokens(s: &[char]) -> (r: Vec<Vec<char>>)
    ensures
        r.deep_view() == tokens(s@),
{
    let n = s.len();
    let mut toks: Vec<Vec<char>> = Vec::new();
    let mut cur: Vec<char> = Vec::new();
    let mut open = false;
    let mut i: usize = 0;
    assert(toks.deep_view() =~= tokens(s@.subrange(0, 0)));
    while i < n
        invariant
            n == s@.len(),
            i <= n,
            open ==> i > 0 && !is_ws(s@[i - 1]),
            !open ==> (i == 0 || is_ws(s@[i - 1])),
            open ==> toks.deep_view().push(cur@) == tokens(s@.subrange(0, i as int)),
            !open ==> toks.deep_view() == tokens(s@.subrange(0, i as int)),
        decreases n - i,
    {
        let ghost p = s@.subrange(0, i + 1);
        let ghost before = toks.deep_view();
        assert(p.drop_last() =~= s@.subrange(0, i as int));
        let b = s[i];
        if is_space(b) {
            if open {
                let ghost c = cur@;
                assert(cur.deep_view() =~= c);
                toks.push(cur);
                cur = Vec::new();
                assert(toks.deep_view() =~= before.push(c));
                open = false;
            }
            assert(toks.deep_view() =~= tokens(p));
        } else {
            if open {
                assert(p[p.len() - 2] == s@[i - 1]);
                cur.push(b);
                assert(toks.deep_view() =~= before);
                assert(toks.deep_view().push(cur@) =~= tokens(p));
            } else {
                if i > 0 {
                    assert(p[p.len() - 2] == s@[i - 1]);
                }
                cur = Vec::new();
                cur.push(b);
                assert(toks.deep_view() =~= before);
                assert(toks.deep_view().push(cur@) =~= tokens(p));
                open = true;
            }
        }
        i = i + 1;
    }
    assert(s@.subrange(0, n as int) =~= s@);
    if open {
        let ghost before = toks.deep_view();
        let ghost c = cur@;
        assert(cur.deep_view() =~= c);
        toks.push(cur);
        assert(toks.deep_view() =~= before.push(c));
    }
    toks
}

pub open spec fn trim_start(s: Seq<char>) -> Seq<char>
    decreases s.len(),
{
    if s.len() > 0 && is_ws(s[0]) {
        trim_start(s.subrange(1, s.len() as int))
    } else {
        s
    }
}

pub open spec fn trim_end(s: Seq<char>) -> Seq<char>
    decreases s.len(),
{
    if s.len() > 0 && is_ws(s.last()) {
        trim_end(s.drop_last())
    } else {
        s
    }
}

/// `s` without leading and trailing whitespace.
pub open spec fn trim(s: Seq<char>) -> Seq<char> {
    trim_end(trim_start(s))
}

/// Returns `s[lo..hi]` with leading and trailing whitespace removed.
pub fn trim_range(s: &[char], lo: usize, hi: usize) -> (r: Vec<char>)
    requires
        lo <= hi <= s@.len(),
    ensures
        r@ == trim(s@.subrange(lo as int, hi as int)),
{
    let mut a: usize = lo;
    while a < hi && is_space(s[a])
        invariant
            lo <= a <= hi,
            hi <= s@.len(),
            trim_start(s@.subrange(a as int, hi as int)) == trim_start(s@.subrange(lo as int, hi as int)),
        decreases hi - a,
    {
        assert(s@.subrange(a as int, hi as int).subrange(1, (hi - a) as int) =~= s@.subrange(a + 1, hi as int));
        a = a + 1;
    }
    if a < hi {
        assert(s@.subrange(a as int, hi as int)[0] == s@[a as int]);
    }
    let ghost start = s@.subrange(a as int, hi as int);
    assert(trim_start(start) == start);
    let mut e: usize = hi;
    while e > a && is_space(s[e - 1])
        invariant
            lo <= a <= e <= hi,
            hi <= s@.len(),
            start == s@.subrange(a as int, hi as int),
            trim_end(s@.subrange(a as int, e as int)) == trim_end(start),
        decreases e - a,
    {
        assert(s@.subrange(a as int, e as int).drop_last() =~= s@.subrange(a as int, e - 1));
        e = e - 1;
    }
    if e > a {
        assert(s@.subrange(a as int, e as int).last() == s@[e - 1]);
    }
    copy_chars(s, a, e)
}

} // verus!
