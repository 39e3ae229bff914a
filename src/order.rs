//! Lexicographic order on character sequences, and value-ordered string sets
//! kept as strictly sorted vectors.

use vstd::prelude::*;

verus! {

/// Lexicographic order on character sequences by code point; this is the order
/// of `String`'s `Ord`, since UTF-8 keeps code-point order byte for byte.
pub open spec fn seq_lt(a: Seq<char>, b: Seq<char>) -> bool
    decreases a.len(),
{
    if a.len() == 0 {
        b.len() > 0
    } else if b.len() == 0 {
        false
    } else if a[0] != b[0] {
        (a[0] as int) < (b[0] as int)
    } else {
        seq_lt(a.drop_first(), b.drop_first())
    }
}

/// The views of a vector of strings.
pub open spec fn views(v: Seq<String>) -> Seq<Seq<char>> {
    v.map_values(|s: String| s@)
}

/// Every element is below every later one: a set listed in increasing order.
pub open spec fn strictly_sorted(s: Seq<Seq<char>>) -> bool {
    forall|i: int, j: int| 0 <= i < j < s.len() ==> seq_lt(#[trigger] s[i], #[trigger] s[j])
}

pub proof fn lemma_lt_irreflexive(a: Seq<char>)
    ensures
        !seq_lt(a, a),
    decreases a.len(),
{
    if a.len() > 0 {
        lemma_lt_irreflexive(a.drop_first());
    }
}

pub proof fn lemma_lt_asymmetric(a: Seq<char>, b: Seq<char>)
    ensures
        !(seq_lt(a, b) && seq_lt(b, a)),
    decreases a.len(),
{
    if a.len() > 0 && b.len() > 0 && a[0] == b[0] {
        lemma_lt_asymmetric(a.drop_first(), b.drop_first());
    }
}

pub proof fn lemma_lt_transitive(a: Seq<char>, b: Seq<char>, c: Seq<char>)
    requires
        seq_lt(a, b),
        seq_lt(b, c),
    ensures
        seq_lt(a, c),
    decreases a.len(),
{
    if a.len() > 0 && a[0] == b[0] && b[0] == c[0] {
        lemma_lt_transitive(a.drop_first(), b.drop_first(), c.drop_first());
    }
}

pub proof fn lemma_lt_total(a: Seq<char>, b: Seq<char>)
    requires
        a != b,
    ensures
        seq_lt(a, b) || seq_lt(b, a),
    decreases a.len(),
{
    if a.len() > 0 && b.len() > 0 && a[0] == b[0] {
        if a.drop_first() == b.drop_first() {
            assert(a =~= seq![a[0]] + a.drop_first());
            assert(b =~= seq![b[0]] + b.drop_first());
        }
        lemma_lt_total(a.drop_first(), b.drop_first());
    } else if a.len() == 0 && b.len() == 0 {
        assert(a =~= b);
    } else if a.len() > 0 && b.len() > 0 {
        assert((a[0] as int) != (b[0] as int));
    }
}

/// Two strictly sorted sequences with the same elements are the same sequence.
pub proof fn lemma_sorted_unique(a: Seq<Seq<char>>, b: Seq<Seq<char>>)
    requires
        strictly_sorted(a),
        strictly_sorted(b),
        a.to_set() == b.to_set(),
    ensures
        a == b,
    decreases a.len(),
{
    assert(forall|x: Seq<char>| a.contains(x) <==> #[trigger] a.to_set().contains(x));
    assert(forall|x: Seq<char>| b.contains(x) <==> #[trigger] b.to_set().contains(x));
    if a.len() == 0 {
        if b.len() > 0 {
            assert(b.to_set().contains(b[0]));
        }
        assert(a =~= b);
    } else {
        assert(a.to_set().contains(a[0]));
        if b.len() == 0 {
            assert(false);
        }
        assert(b.to_set().contains(b[0]));
        let j = choose|j: int| 0 <= j < b.len() && b[j] == a[0];
        let k = choose|k: int| 0 <= k < a.len() && a[k] == b[0];
        if j > 0 {
            assert(seq_lt(b[0], b[j]));
            if k > 0 {
                assert(seq_lt(a[0], a[k]));
                lemma_lt_asymmetric(a[0], a[k]);
            } else {
                lemma_lt_irreflexive(a[0]);
            }
        }
        assert(a[0] == b[0]);
        let a1 = a.drop_first();
        let b1 = b.drop_first();
        assert forall|x: Seq<char>| a1.to_set().contains(x) implies b1.to_set().contains(x) by {
            assert(a1.contains(x));
            let m = choose|m: int| 0 <= m < a1.len() && a1[m] == x;
            assert(a[m + 1] == x);
            assert(seq_lt(a[0], x));
            lemma_lt_irreflexive(x);
            assert(a.to_set().contains(x));
            assert(b.to_set().contains(x));
            assert(b.contains(x));
            let n = choose|n: int| 0 <= n < b.len() && b[n] == x;
            assert(n != 0);
            assert(b1[n - 1] == x);
            assert(b1.contains(x));
        }
        assert forall|x: Seq<char>| b1.to_set().contains(x) implies a1.to_set().contains(x) by {
            assert(b1.contains(x));
            let m = choose|m: int| 0 <= m < b1.len() && b1[m] == x;
            assert(b[m + 1] == x);
            assert(seq_lt(b[0], x));
            lemma_lt_irreflexive(x);
            assert(b.to_set().contains(x));
            assert(a.to_set().contains(x));
            assert(a.contains(x));
            let n = choose|n: int| 0 <= n < a.len() && a[n] == x;
            assert(n != 0);
            assert(a1[n - 1] == x);
            assert(a1.contains(x));
        }
        assert(a1.to_set() =~= b1.to_set());
        lemma_sorted_unique(a1, b1);
        assert(a =~= seq![a[0]] + a1);
        assert(b =~= seq![b[0]] + b1);
    }
}

/// Compares two strings in lexicographic order.
pub fn str_lt(a: &str, b: &str) -> (r: bool)
    ensures
        r == seq_lt(a@, b@),
{
    let la = a.unicode_len();
    let lb = b.unicode_len();
    let mut i: usize = 0;
    assert(a@.skip(0) =~= a@);
    assert(b@.skip(0) =~= b@);
    while i < la && i < lb
        invariant
            la == a@.len(),
            lb == b@.len(),
            i <= la,
            i <= lb,
            seq_lt(a@, b@) == seq_lt(a@.skip(i as int), b@.skip(i as int)),
        decreases la - i,
    {
        let ca = a.get_char(i);
        let cb = b.get_char(i);
        assert(a@.skip(i as int)[0] == ca);
        assert(b@.skip(i as int)[0] == cb);
        if ca != cb {
            return (ca as u32) < (cb as u32);
        }
        assert(a@.skip(i as int).drop_first() =~= a@.skip(i + 1));
        assert(b@.skip(i as int).drop_first() =~= b@.skip(i + 1));
        i = i + 1;
    }
    i == la && i < lb
}

/// Inserts a string into a value-ordered set kept as a strictly sorted vector.
pub fn insert_sorted(v: &mut Vec<String>, x: String)
    requires
        strictly_sorted(views(old(v)@)),
    ensures
        strictly_sorted(views(final(v)@)),
        views(final(v)@).to_set() == views(old(v)@).to_set().insert(x@),
{
    let ghost old_v = views(v@);
    let mut i: usize = 0;
    while i < v.len()
        invariant
            views(v@) == old_v,
            strictly_sorted(old_v),
            i <= v.len(),
            forall|k: int| 0 <= k < i ==> seq_lt(#[trigger] old_v[k], x@),
        ensures
            views(v@) == old_v,
            i <= v.len(),
            forall|k: int| 0 <= k < i ==> seq_lt(#[trigger] old_v[k], x@),
            i < v.len() ==> !seq_lt(old_v[i as int], x@),
        decreases v.len() - i,
    {
        if !str_lt(v[i].as_str(), x.as_str()) {
            break;
        }
        i = i + 1;
    }
    if i < v.len() && v[i] == x {
        assert(views(v@).to_set() =~= old_v.to_set().insert(x@)) by {
            assert(old_v[i as int] == x@);
        }
        return;
    }
    proof {
        if i < v.len() {
            assert(old_v[i as int] != x@);
            lemma_lt_total(old_v[i as int], x@);
        }
    }
    v.insert(i, x);
    let ghost nv = views(v@);
    assert(nv =~= old_v.insert(i as int, x@));
    assert forall|p: int, q: int| 0 <= p < q < nv.len() implies seq_lt(#[trigger] nv[p], #[trigger] nv[q]) by {
        if q < i {
        } else if q == i {
        } else if p < i {
            assert(seq_lt(old_v[p], x@));
            assert(nv[q] == old_v[q - 1]);
            if q - 1 > i {
                assert(seq_lt(old_v[i as int], old_v[q - 1]));
                lemma_lt_transitive(x@, old_v[i as int], old_v[q - 1]);
            }
            lemma_lt_transitive(old_v[p], x@, old_v[q - 1]);
        } else if p == i {
            if q - 1 > i {
                assert(seq_lt(old_v[i as int], old_v[q - 1]));
                lemma_lt_transitive(x@, old_v[i as int], old_v[q - 1]);
            }
        } else {
            assert(nv[p] == old_v[p - 1]);
            assert(nv[q] == old_v[q - 1]);
        }
    }
    assert(nv.to_set() =~= old_v.to_set().insert(x@)) by {
        assert forall|y: Seq<char>| nv.to_set().contains(y) implies old_v.to_set().insert(x@).contains(y) by {
            assert(nv.contains(y));
            let m = choose|m: int| 0 <= m < nv.len() && nv[m] == y;
            if m < i {
                assert(old_v[m] == y);
            } else if m > i {
                assert(old_v[m - 1] == y);
            }
        }
        assert forall|y: Seq<char>| old_v.to_set().insert(x@).contains(y) implies nv.to_set().contains(y) by {
            if y == x@ {
                assert(nv[i as int] == y);
            } else {
                assert(old_v.contains(y));
                let m = choose|m: int| 0 <= m < old_v.len() && old_v[m] == y;
                if m < i {
                    assert(nv[m] == y);
                } else {
                    assert(nv[m + 1] == y);
                }
            }
        }
    }
}

/// Collects strings into a value-ordered set, dropping repeats.
pub fn sorted_set(items: Vec<String>) -> (r: Vec<String>)
    ensures
        strictly_sorted(views(r@)),
        views(r@).to_set() == views(items@).to_set(),
{
    let mut r: Vec<String> = Vec::new();
    let mut k: usize = 0;
    while k < items.len()
        invariant
            k <= items.len(),
            strictly_sorted(views(r@)),
            views(r@).to_set() == views(items@.take(k as int)).to_set(),
        decreases items.len() - k,
    {
        let ghost before = views(r@).to_set();
        insert_sorted(&mut r, items[k].clone());
        assert(views(items@.take(k + 1)) =~= views(items@.take(k as int)).push(items@[k as int]@));
        proof {
            views(items@.take(k as int)).lemma_push_to_set_commute(items@[k as int]@);
        }
        k = k + 1;
    }
    assert(items@.take(k as int) =~= items@);
    r
}


/// A copy of a vector of strings.
pub fn copy_strings(v: &Vec<String>) -> (r: Vec<String>)
    ensures
        r@ == v@,
{
    let mut r: Vec<String> = Vec::new();
    let mut i: usize = 0;
    while i < v.len()
        invariant
            i <= v.len(),
            r@ == v@.take(i as int),
        decreases v.len() - i,
    {
        r.push(v[i].clone());
        assert(r@ =~= v@.take(i + 1));
        i = i + 1;
    }
    assert(r@ =~= v@);
    r
}

/// The strictly sorted sequence that holds the elements of `s`.
pub open spec fn sorted_of(s: Seq<Seq<char>>) -> Seq<Seq<char>> {
    choose|t: Seq<Seq<char>>| strictly_sorted(t) && t.to_set() == s.to_set()
}

pub proof fn lemma_sorted_of(s: Seq<Seq<char>>, t: Seq<Seq<char>>)
    requires
        strictly_sorted(t),
        t.to_set() == s.to_set(),
    ensures
        sorted_of(s) == t,
{
    let u = sorted_of(s);
    assert(strictly_sorted(u) && u.to_set() == s.to_set());
    lemma_sorted_unique(u, t);
}

/// Collects strings into their value-ordered set.
pub fn sorted_set_of(items: Vec<String>) -> (r: Vec<String>)
    ensures
        views(r@) == sorted_of(views(items@)),
        strictly_sorted(views(r@)),
{
    let ghost v = views(items@);
    let r = sorted_set(items);
    proof {
        lemma_sorted_of(v, views(r@));
    }
    r
}

} // verus!
