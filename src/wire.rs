//! Framing of the wire bytes: where the header section ends.
use vstd::prelude::*;

verus! {

/// The header/body delimiter `\r\n\r\n`.
pub open spec fn crlfcrlf() -> Seq<u8> {
    seq![13u8, 10u8, 13u8, 10u8]
}

/// Index of the first `\r\n\r\n` in `s`, if any.
pub open spec fn find_delim(s: Seq<u8>) -> Option<int>
    decreases s.len(),
{
    if s.len() < 4 {
        None
    } else {
        match find_delim(s.drop_last()) {
            Some(i) => Some(i),
            None => if s.subrange(s.len() - 4, s.len() as int) == crlfcrlf() {
                Some(s.len() - 4)
            } else {
                None
            },
        }
    }
}

proof fn lemma_find_delim_extend(s: Seq<u8>, k: int)
    requires
        0 <= k <= s.len(),
        find_delim(s.subrange(0, k)) is Some,
    ensures
        find_delim(s) == find_delim(s.subrange(0, k)),
    decreases s.len() - k,
{
    if k == s.len() {
        assert(s.subrange(0, k) =~= s);
    } else {
        assert(s.drop_last().subrange(0, k) =~= s.subrange(0, k));
        lemma_find_delim_extend(s.drop_last(), k);
    }
}

/// Where `find_delim` finds something, `\r\n\r\n` stands there.
pub proof fn lemma_find_delim_found(s: Seq<u8>)
    ensures
        find_delim(s) matches Some(d) ==> 0 <= d && d + 4 <= s.len() && s.subrange(d, d + 4)
            == crlfcrlf(),
        (forall|i: int| 0 <= i && i + 4 <= s.len() ==> #[trigger] s.subrange(i, i + 4) != crlfcrlf())
            ==> find_delim(s) is None,
    decreases s.len(),
{
    if s.len() >= 4 {
        lemma_find_delim_found(s.drop_last());
        match find_delim(s.drop_last()) {
            Some(d) => {
                assert(s.drop_last().subrange(d, d + 4) =~= s.subrange(d, d + 4));
            },
            None => {},
        }
        if forall|i: int| 0 <= i && i + 4 <= s.len() ==> #[trigger] s.subrange(i, i + 4)
            != crlfcrlf() {
            assert forall|i: int| 0 <= i && i + 4 <= s.drop_last().len() implies #[trigger] s.drop_last().subrange(
                i,
                i + 4,
            ) != crlfcrlf() by {
                assert(s.drop_last().subrange(i, i + 4) =~= s.subrange(i, i + 4));
            }
            let i = s.len() - 4;
            assert(s.subrange(i, i + 4) != crlfcrlf());
            assert(s.subrange(i, i + 4) =~= s.subrange(s.len() - 4, s.len() as int));
        }
    }
}

/// Returns the index of the first `\r\n\r\n` in `s`.
pub fn find_delimiter(s: &[u8]) -> (r: Option<usize>)
    ensures
        match r {
            Some(i) => find_delim(s@) == Some(i as int) && i + 4 <= s@.len(),
            None => find_delim(s@) == None::<int>,
        },
{
    let n = s.len();
    if n < 4 {
        return None;
    }
    let mut i: usize = 0;
    assert(find_delim(s@.subrange(0, 3)) == None::<int>);
    while i + 3 < n
        invariant
            n == s@.len(),
            n >= 4,
            i + 3 <= n,
            find_delim(s@.subrange(0, i + 3)) == None::<int>,
        decreases n - i,
    {
        let ghost p = s@.subrange(0, i + 4);
        assert(p.drop_last() =~= s@.subrange(0, i + 3));
        assert(p.subrange(p.len() - 4, p.len() as int) =~= s@.subrange(i as int, i + 4));
        if s[i] == 13 && s[i + 1] == 10 && s[i + 2] == 13 && s[i + 3] == 10 {
            assert(s@.subrange(i as int, i + 4) =~= crlfcrlf());
            proof {
                lemma_find_delim_extend(s@, i + 4);
            }
            return Some(i);
        }
        assert(s@.subrange(i as int, i + 4) != crlfcrlf()) by {
            if s@.subrange(i as int, i + 4) == crlfcrlf() {
                assert(s@.subrange(i as int, i + 4)[0] == s@[i as int]);
                assert(s@.subrange(i as int, i + 4)[1] == s@[i + 1]);
                assert(s@.subrange(i as int, i + 4)[2] == s@[i + 2]);
                assert(s@.subrange(i as int, i + 4)[3] == s@[i + 3]);
            }
        }
        i = i + 1;
    }
    assert(s@.subrange(0, n as int) =~= s@);
    None
}

/// Copies `s[lo..hi]` into a new vector.
pub fn copy_range(s: &[u8], lo: usize, hi: usize) -> (r: Vec<u8>)
    requires
        lo <= hi <= s@.len(),
    ensures
        r@ == s@.subrange(lo as int, hi as int),
{
    let mut r: Vec<u8> = Vec::new();
    let mut i: usize = lo;
    while i < hi
        invariant
            lo <= i <= hi,
            hi <= s@.len(),
            r@ == s@.subrange(lo as int, i as int),
        decreases hi - i,
    {
        r.push(s[i]);
        assert(s@.subrange(lo as int, i + 1) =~= s@.subrange(lo as int, i as int).push(s@[i as int]));
        i = i + 1;
    }
    r
}

} // verus!
