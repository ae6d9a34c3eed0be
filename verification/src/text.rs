//! Verified helpers over strings: equality, and splitting a dotted path
//! into its segments, the shape in which level rows come back from the
//! database.

use vstd::prelude::*;

verus! {

use vstd::string::StrSliceExecFns;

/// Index of the first `'.'` in `s`; meaningful only when `s` contains one.
pub open spec fn first_dot(s: Seq<char>) -> int
    decreases s.len(),
{
    if s.len() == 0 {
        0
    } else if s[0] == '.' {
        0
    } else {
        1 + first_dot(s.skip(1))
    }
}

/// `first_dot` finds the least index holding a dot.
pub proof fn lemma_first_dot(s: Seq<char>)
    requires
        s.contains('.'),
    ensures
        0 <= first_dot(s) < s.len(),
        s[first_dot(s)] == '.',
        forall|j: int| 0 <= j < first_dot(s) ==> s[j] != '.',
    decreases s.len(),
{
    if s[0] == '.' {
    } else {
        let w = choose|w: int| 0 <= w < s.len() && s[w] == '.';
        assert(s.skip(1)[w - 1] == '.');
        assert(s.skip(1).contains('.'));
        lemma_first_dot(s.skip(1));
        assert forall|j: int| 0 <= j < first_dot(s) implies s[j] != '.' by {
            if j >= 1 {
                assert(s.skip(1)[j - 1] == s[j]);
            }
        }
    }
}

/// A dot at `k` with none before it pins `first_dot` down to `k`.
pub proof fn lemma_first_dot_is(s: Seq<char>, k: int)
    requires
        0 <= k < s.len(),
        s[k] == '.',
        forall|j: int| 0 <= j < k ==> s[j] != '.',
    ensures
        first_dot(s) == k,
{
    assert(s.contains('.'));
    lemma_first_dot(s);
    if first_dot(s) < k {
        assert(s[first_dot(s)] != '.');
    }
    if k < first_dot(s) {
        assert(s[k] != '.');
    }
}

/// The segments of `s`, split on `'.'`.  A string without a dot is one
/// segment; each dot ends the segment before it.
pub open spec fn split_dots(s: Seq<char>) -> Seq<Seq<char>>
    decreases s.len(),
    via split_dots_decreases
{
    if !s.contains('.') {
        seq![s]
    } else {
        seq![s.take(first_dot(s))] + split_dots(s.skip(first_dot(s) + 1))
    }
}

#[via_fn]
proof fn split_dots_decreases(s: Seq<char>) {
    if s.contains('.') {
        lemma_first_dot(s);
    }
}

/// Splitting a dotless string yields that string as the one segment.
pub proof fn lemma_split_dots_dotless(a: Seq<char>)
    requires
        !a.contains('.'),
    ensures
        split_dots(a) == seq![a],
{
}

/// The first dot ends the first segment: splitting `a + "." + b` yields
/// `a` followed by the segments of `b`, when `a` itself has no dot.
pub proof fn lemma_split_dots_step(a: Seq<char>, b: Seq<char>)
    requires
        !a.contains('.'),
    ensures
        split_dots(a + seq!['.'] + b) == seq![a] + split_dots(b),
{
    let s = a + seq!['.'] + b;
    assert(s[a.len() as int] == '.');
    assert forall|j: int| 0 <= j < a.len() implies s[j] != '.' by {
        assert(s[j] == a[j]);
        if a[j] == '.' {
            assert(a.contains('.'));
        }
    }
    lemma_first_dot_is(s, a.len() as int);
    assert(s.take(a.len() as int) =~= a);
    assert(s.skip(a.len() as int + 1) =~= b);
}

/// Character-wise string equality, with the equality of the views in its
/// contract.
pub fn str_eq(a: &str, b: &str) -> (r: bool)
    ensures
        r == (a@ == b@),
{
    let a_len = a.unicode_len();
    let b_len = b.unicode_len();
    if a_len != b_len {
        return false;
    }
    let mut i: usize = 0;
    while i < a_len
        invariant
            a_len == a@.len(),
            a_len == b@.len(),
            0 <= i <= a_len,
            forall|j: int| 0 <= j < i ==> a@[j] == b@[j],
        decreases a_len - i,
    {
        if a.get_char(i) != b.get_char(i) {
            return false;
        }
        i = i + 1;
    }
    proof {
        assert(a@ =~= b@);
    }
    true
}

/// Splits `s` on dots, one owned segment per entry of the result.
pub fn split_on_dots(s: &str) -> (r: Vec<String>)
    ensures
        r.deep_view() == split_dots(s@),
{
    let n = s.unicode_len();
    let mut out: Vec<String> = Vec::new();
    let mut start: usize = 0;
    let mut i: usize = 0;
    proof {
        assert(s@.skip(0) =~= s@);
        assert(out.deep_view() =~= Seq::<Seq<char>>::empty());
    }
    while i < n
        invariant
            n == s@.len(),
            0 <= start <= i <= n,
            forall|j: int| start <= j < i ==> s@[j] != '.',
            split_dots(s@) =~~= out.deep_view() + split_dots(s@.skip(start as int)),
        decreases n - i,
    {
        let c = s.get_char(i);
        if c == '.' {
            let ghost pre = out.deep_view();
            let seg = s.substring_char(start, i).to_owned();
            proof {
                let a = s@.subrange(start as int, i as int);
                let b = s@.skip(i as int + 1);
                assert forall|j: int| 0 <= j < a.len() implies a[j] != '.' by {
                    assert(a[j] == s@[start + j]);
                }
                if a.contains('.') {
                    let w = choose|w: int| 0 <= w < a.len() && a[w] == '.';
                    assert(a[w] != '.');
                }
                assert(s@.skip(start as int) =~= a + seq!['.'] + b);
                lemma_split_dots_step(a, b);
            }
            out.push(seg);
            proof {
                let a = s@.subrange(start as int, i as int);
                let b = s@.skip(i as int + 1);
                assert(out.deep_view() =~= pre.push(a));
                assert(pre.push(a) + split_dots(b) =~~= pre + (seq![a] + split_dots(b)));
            }
            start = i + 1;
        }
        i = i + 1;
    }
    let ghost pre = out.deep_view();
    let seg = s.substring_char(start, n).to_owned();
    proof {
        let a = s@.skip(start as int);
        assert forall|j: int| 0 <= j < a.len() implies a[j] != '.' by {
            assert(a[j] == s@[start + j]);
        }
        if a.contains('.') {
            let w = choose|w: int| 0 <= w < a.len() && a[w] == '.';
            assert(a[w] != '.');
        }
        lemma_split_dots_dotless(a);
    }
    out.push(seg);
    proof {
        let a = s@.skip(start as int);
        assert(out.deep_view() =~= pre.push(a));
        assert(pre.push(a) =~~= pre + seq![a]);
        assert(out.deep_view() =~~= split_dots(s@));
    }
    out
}

} // verus!
