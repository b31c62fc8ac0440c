//! String helpers shared by the pipelines: searching, splitting on a
//! separator character, prefix tests and substring containment, all
//! specified over `Seq<char>` views.

use vstd::prelude::*;

verus! {

/// The part of `s` that stands before the first occurrence of `c`
/// (all of `s` when `c` does not occur).
pub open spec fn prefix_upto(s: Seq<char>, c: char) -> Seq<char>
    decreases s.len(),
{
    if s.len() == 0 {
        s
    } else if s[0] == c {
        Seq::<char>::empty()
    } else {
        seq![s[0]] + prefix_upto(s.drop_first(), c)
    }
}

/// The part of `s` that stands after the first occurrence of `c`
/// (empty when `c` does not occur).
pub open spec fn suffix_after(s: Seq<char>, c: char) -> Seq<char>
    decreases s.len(),
{
    if s.len() == 0 {
        s
    } else if s[0] == c {
        s.drop_first()
    } else {
        suffix_after(s.drop_first(), c)
    }
}

/// `c` occurs in `s`.
pub open spec fn contains_char(s: Seq<char>, c: char) -> bool {
    exists|i: int| 0 <= i < s.len() && #[trigger] s[i] == c
}

/// `p` is a prefix of `s`.
pub open spec fn starts_with(s: Seq<char>, p: Seq<char>) -> bool {
    p.len() <= s.len() && s.subrange(0, p.len() as int) == p
}

/// `n` occurs somewhere inside `h`.
pub open spec fn contains_seq(h: Seq<char>, n: Seq<char>) -> bool {
    exists|i: int| 0 <= i && i + n.len() <= h.len() && #[trigger] h.subrange(i, i + n.len()) == n
}

pub proof fn lemma_prefix_upto_no_hit(s: Seq<char>, c: char)
    requires
        forall|j: int| 0 <= j < s.len() ==> s[j] != c,
    ensures
        prefix_upto(s, c) == s,
        suffix_after(s, c) == Seq::<char>::empty(),
    decreases s.len(),
{
    if s.len() == 0 {
        assert(prefix_upto(s, c) =~= s);
        assert(suffix_after(s, c) =~= Seq::<char>::empty());
    } else {
        lemma_prefix_upto_no_hit(s.drop_first(), c);
        assert(prefix_upto(s, c) =~= seq![s[0]] + s.drop_first());
        assert(seq![s[0]] + s.drop_first() =~= s);
    }
}

pub proof fn lemma_prefix_upto_hit(s: Seq<char>, c: char, i: int)
    requires
        0 <= i < s.len(),
        s[i] == c,
        forall|j: int| 0 <= j < i ==> s[j] != c,
    ensures
        prefix_upto(s, c) == s.subrange(0, i),
        suffix_after(s, c) == s.subrange(i + 1, s.len() as int),
    decreases i,
{
    if i == 0 {
        assert(prefix_upto(s, c) =~= s.subrange(0, 0));
        assert(s.drop_first() =~= s.subrange(1, s.len() as int));
    } else {
        let d = s.drop_first();
        assert(forall|j: int| 0 <= j < i - 1 ==> d[j] == s[j + 1]);
        lemma_prefix_upto_hit(d, c, i - 1);
        assert(prefix_upto(s, c) =~= s.subrange(0, i)) by {
            assert(prefix_upto(s, c) == seq![s[0]] + d.subrange(0, i - 1));
        }
        assert(suffix_after(s, c) =~= s.subrange(i + 1, s.len() as int)) by {
            assert(suffix_after(s, c) == d.subrange(i, d.len() as int));
        }
    }
}

/// Splitting a string assembled as `a + c + b` at `c` recovers `a` and `b`,
/// provided `c` does not occur in `a`.
pub proof fn lemma_prefix_upto_concat(a: Seq<char>, b: Seq<char>, c: char)
    requires
        forall|j: int| 0 <= j < a.len() ==> a[j] != c,
    ensures
        prefix_upto(a + seq![c] + b, c) == a,
        suffix_after(a + seq![c] + b, c) == b,
{
    let s = a + seq![c] + b;
    assert(s[a.len() as int] == c);
    assert(forall|j: int| 0 <= j < a.len() ==> s[j] == a[j] && s[j] != c);
    lemma_prefix_upto_hit(s, c, a.len() as int);
    assert(s.subrange(0, a.len() as int) =~= a);
    assert(s.subrange(a.len() as int + 1, s.len() as int) =~= b);
}

/// Index of the first occurrence of `c` in `s`, if any.
pub fn find_char(s: &str, c: char) -> (r: Option<usize>)
    ensures
        match r {
            Some(i) => i < s@.len() && s@[i as int] == c
                && (forall|j: int| 0 <= j < i ==> s@[j] != c),
            None => forall|j: int| 0 <= j < s@.len() ==> s@[j] != c,
        },
{
    let n: usize = s.unicode_len();
    let mut i: usize = 0;
    while i < n
        invariant
            n == s@.len(),
            i <= n,
            forall|j: int| 0 <= j < i ==> s@[j] != c,
        decreases n - i,
    {
        let ch: char = s.get_char(i);
        if ch == c {
            return Some(i);
        }
        i = i + 1;
    }
    None
}

/// Character-for-character equality of two string slices.
pub fn str_eq(a: &str, b: &str) -> (r: bool)
    ensures
        r == (a@ == b@),
{
    let an: usize = a.unicode_len();
    let bn: usize = b.unicode_len();
    if an != bn {
        return false;
    }
    let mut i: usize = 0;
    while i < an
        invariant
            an == a@.len(),
            bn == b@.len(),
            an == bn,
            i <= an,
            forall|j: int| 0 <= j < i ==> a@[j] == b@[j],
        decreases an - i,
    {
        let ca: char = a.get_char(i);
        let cb: char = b.get_char(i);
        if ca != cb {
            return false;
        }
        i = i + 1;
    }
    proof {
        assert(a@ =~= b@);
    }
    true
}

/// Character-for-character equality that always scans both strings to
/// the end: no exit at the first differing character, for comparing
/// secrets.
pub fn str_eq_whole(a: &str, b: &str) -> (r: bool)
    ensures
        r == (a@ == b@),
{
    let an: usize = a.unicode_len();
    let bn: usize = b.unicode_len();
    if an != bn {
        return false;
    }
    let mut same: bool = true;
    let mut i: usize = 0;
    proof {
        assert(a@.subrange(0, 0) =~= b@.subrange(0, 0));
    }
    while i < an
        invariant
            an == a@.len(),
            bn == b@.len(),
            an == bn,
            i <= an,
            same == (a@.subrange(0, i as int) == b@.subrange(0, i as int)),
        decreases an - i,
    {
        let ca: char = a.get_char(i);
        let cb: char = b.get_char(i);
        proof {
            let ap = a@.subrange(0, i as int + 1);
            let bp = b@.subrange(0, i as int + 1);
            if same && ca == cb {
                assert(ap =~= a@.subrange(0, i as int).push(ca));
                assert(bp =~= b@.subrange(0, i as int).push(cb));
            } else if ap == bp {
                assert(ap.subrange(0, i as int) =~= a@.subrange(0, i as int));
                assert(bp.subrange(0, i as int) =~= b@.subrange(0, i as int));
                assert(ap[i as int] == a@[i as int] && bp[i as int] == b@[i as int]);
            }
        }
        same = same && ca == cb;
        i = i + 1;
    }
    proof {
        assert(a@.subrange(0, an as int) =~= a@);
        assert(b@.subrange(0, bn as int) =~= b@);
    }
    same
}

/// Whether `n` matches `h` starting at position `i`.
fn match_at(h: &str, n: &str, i: usize, hn: usize, nn: usize) -> (r: bool)
    requires
        hn == h@.len(),
        nn == n@.len(),
        i + nn <= hn,
    ensures
        r == (h@.subrange(i as int, i + n@.len()) == n@),
{
    let mut j: usize = 0;
    while j < nn
        invariant
            hn == h@.len(),
            nn == n@.len(),
            i + nn <= hn,
            j <= nn,
            forall|k: int| 0 <= k < j ==> h@[i + k] == n@[k],
        decreases nn - j,
    {
        let hc: char = h.get_char(i + j);
        let nc: char = n.get_char(j);
        if hc != nc {
            proof {
                assert(h@.subrange(i as int, i + n@.len())[j as int] == h@[i + j]);
            }
            return false;
        }
        j = j + 1;
    }
    proof {
        assert(h@.subrange(i as int, i + n@.len()) =~= n@);
    }
    true
}

/// `p` is a prefix of `s`, tested character by character.
pub fn str_starts_with(s: &str, p: &str) -> (r: bool)
    ensures
        r == starts_with(s@, p@),
{
    let sn: usize = s.unicode_len();
    let pn: usize = p.unicode_len();
    if pn > sn {
        return false;
    }
    match_at(s, p, 0, sn, pn)
}

/// `n` occurs somewhere inside `h`, tested at every offset.
pub fn str_contains(h: &str, n: &str) -> (r: bool)
    ensures
        r == contains_seq(h@, n@),
{
    let hn: usize = h.unicode_len();
    let nn: usize = n.unicode_len();
    if nn > hn {
        return false;
    }
    if nn == 0 {
        proof {
            assert(h@.subrange(0, 0 + n@.len() as int) =~= n@);
            assert(contains_seq(h@, n@));
        }
        return true;
    }
    let mut i: usize = 0;
    while i <= hn - nn
        invariant
            hn == h@.len(),
            nn == n@.len(),
            0 < nn <= hn,
            i <= hn - nn + 1,
            forall|k: int| 0 <= k < i ==> #[trigger] h@.subrange(k, k + n@.len()) != n@,
        decreases hn - nn - i + 1,
    {
        if match_at(h, n, i, hn, nn) {
            assert(h@.subrange(i as int, i as int + n@.len()) == n@);
            return true;
        }
        i = i + 1;
    }
    false
}

/// The part of `s` before the first occurrence of `c`, as an owned string.
pub fn split_before(s: &str, c: char) -> (r: String)
    ensures
        r@ == prefix_upto(s@, c),
{
    match find_char(s, c) {
        Some(i) => {
            proof {
                lemma_prefix_upto_hit(s@, c, i as int);
            }
            s.substring_char(0, i).to_owned()
        }
        None => {
            proof {
                lemma_prefix_upto_no_hit(s@, c);
            }
            s.to_owned()
        }
    }
}

/// The part of `s` after the first occurrence of `c`, as an owned string.
pub fn split_after(s: &str, c: char) -> (r: String)
    ensures
        r@ == suffix_after(s@, c),
{
    let n: usize = s.unicode_len();
    match find_char(s, c) {
        Some(i) => {
            proof {
                lemma_prefix_upto_hit(s@, c, i as int);
            }
            s.substring_char(i + 1, n).to_owned()
        }
        None => {
            proof {
                lemma_prefix_upto_no_hit(s@, c);
            }
            String::new()
        }
    }
}

} // verus!
