//! Text order, and sorting by a text key.
//!
//! Host aliases, tunnel ids and session records are all listed in the order of
//! their names. The order is by code point, which for UTF-8 text is the byte
//! order `String`'s `Ord` compares by.
use vstd::prelude::*;
use vstd::multiset::Multiset;
use crate::text::chars_of;

verus! {

broadcast use vstd::multiset::group_multiset_axioms;

/// Lexicographic order by code point.
pub open spec fn key_lt(a: Seq<char>, b: Seq<char>) -> bool
    decreases a.len(),
{
    if b.len() == 0 {
        false
    } else if a.len() == 0 {
        true
    } else if a[0] != b[0] {
        a[0] < b[0]
    } else {
        key_lt(a.drop_first(), b.drop_first())
    }
}

/// The order is asymmetric: no key sorts both before and after another.
pub proof fn lemma_key_lt_asymmetric(a: Seq<char>, b: Seq<char>)
    ensures
        key_lt(a, b) ==> !key_lt(b, a),
    decreases a.len(),
{
    if a.len() > 0 && b.len() > 0 && a[0] == b[0] {
        lemma_key_lt_asymmetric(a.drop_first(), b.drop_first());
    }
}

/// Whenever `c` sorts before `a`, any `b` sorts after `c` or before `a`; so
/// "not before" is transitive.
pub proof fn lemma_key_lt_weak(a: Seq<char>, b: Seq<char>, c: Seq<char>)
    ensures
        key_lt(c, a) ==> key_lt(c, b) || key_lt(b, a),
    decreases a.len(),
{
    if a.len() > 0 && b.len() > 0 && c.len() > 0 && c[0] == a[0] && b[0] == c[0] {
        lemma_key_lt_weak(a.drop_first(), b.drop_first(), c.drop_first());
    }
}

/// Whether `a` sorts strictly before `b`.
pub fn chars_lt(a: &[char], b: &[char]) -> (r: bool)
    ensures
        r == key_lt(a@, b@),
{
    let mut i: usize = 0;
    assert(a@.skip(0) =~= a@);
    assert(b@.skip(0) =~= b@);
    while i < a.len() && i < b.len() && a[i] == b[i]
        invariant
            i <= a.len(),
            i <= b.len(),
            key_lt(a@, b@) == key_lt(a@.skip(i as int), b@.skip(i as int)),
        decreases a.len() - i,
    {
        assert(a@.skip(i as int).drop_first() =~= a@.skip(i + 1));
        assert(b@.skip(i as int).drop_first() =~= b@.skip(i + 1));
        i = i + 1;
    }
    if i == b.len() {
        false
    } else if i == a.len() {
        true
    } else {
        a[i] < b[i]
    }
}

/// A value listed by a text key.
pub trait Keyed {
    /// The key's characters.
    spec fn key_view(&self) -> Seq<char>;

    /// The key.
    fn key(&self) -> (r: &str)
        ensures
            r@ == self.key_view(),
    ;
}

impl Keyed for String {
    open spec fn key_view(&self) -> Seq<char> {
        self@
    }

    fn key(&self) -> (r: &str) {
        self.as_str()
    }
}

/// No element sorts before an element in front of it.
pub open spec fn sorted_by_key<T: Keyed>(s: Seq<T>) -> bool {
    forall|i: int, j: int| 0 <= i < j < s.len() ==> !key_lt(#[trigger] s[j].key_view(), #[trigger] s[i].key_view())
}

/// Where `x` goes in `out`: after every element that sorts before it.
fn insert_position<T: Keyed>(out: &Vec<T>, x: &T) -> (j: usize)
    ensures
        j <= out.len(),
        forall|k: int| 0 <= k < j ==> key_lt(#[trigger] out@[k].key_view(), x.key_view()),
        j < out.len() ==> !key_lt(out@[j as int].key_view(), x.key_view()),
{
    let xk = chars_of(x.key());
    let mut j: usize = 0;
    while j < out.len()
        invariant
            j <= out.len(),
            xk@ == x.key_view(),
            forall|k: int| 0 <= k < j ==> key_lt(#[trigger] out@[k].key_view(), x.key_view()),
        decreases out.len() - j,
    {
        let ok = chars_of(out[j].key());
        if !chars_lt(ok.as_slice(), xk.as_slice()) {
            return j;
        }
        j = j + 1;
    }
    j
}

/// Inserting at [`insert_position`] keeps a sorted sequence sorted.
proof fn lemma_insert_sorted<T: Keyed>(out: Seq<T>, x: T, j: int)
    requires
        sorted_by_key(out),
        0 <= j <= out.len(),
        forall|k: int| 0 <= k < j ==> key_lt(#[trigger] out[k].key_view(), x.key_view()),
        j < out.len() ==> !key_lt(out[j].key_view(), x.key_view()),
    ensures
        sorted_by_key(out.insert(j, x)),
{
    let n = out.insert(j, x);
    assert forall|a: int, b: int| 0 <= a < b < n.len() implies !key_lt(#[trigger] n[b].key_view(), #[trigger] n[a].key_view()) by {
        if b < j {
        } else if b == j {
            lemma_key_lt_asymmetric(out[a].key_view(), x.key_view());
        } else if a < j {
            lemma_key_lt_asymmetric(out[a].key_view(), x.key_view());
            lemma_key_lt_weak(out[a].key_view(), x.key_view(), out[b - 1].key_view());
            if key_lt(out[b - 1].key_view(), x.key_view()) {
                lemma_key_lt_weak(x.key_view(), out[j].key_view(), out[b - 1].key_view());
                if b - 1 > j {
                    assert(!key_lt(out[b - 1].key_view(), out[j].key_view()));
                }
            }
        } else if a == j {
            if b - 1 > j {
                assert(!key_lt(out[b - 1].key_view(), out[j].key_view()));
                lemma_key_lt_weak(x.key_view(), out[j].key_view(), out[b - 1].key_view());
            }
        } else {
            assert(!key_lt(out[b - 1].key_view(), out[a - 1].key_view()));
        }
    }
}

/// The elements of `s` whose key is `k`, in the order `s` has them.
pub open spec fn with_key<T: Keyed>(s: Seq<T>, k: Seq<char>) -> Seq<T> {
    s.filter(has_key(k))
}

/// Whether an element's key is `k`.
pub open spec fn has_key<T: Keyed>(k: Seq<char>) -> spec_fn(T) -> bool {
    |x: T| x.key_view() == k
}

/// No element of `s` has key `k`.
proof fn lemma_none_with_key<T: Keyed>(s: Seq<T>, k: Seq<char>)
    requires
        forall|m: int| 0 <= m < s.len() ==> (#[trigger] s[m]).key_view() != k,
    ensures
        with_key(s, k) == Seq::<T>::empty(),
    decreases s.len(),
{
    reveal(Seq::filter);
    if s.len() > 0 {
        lemma_none_with_key(s.drop_last(), k);
    }
    assert(with_key(s, k) =~= Seq::<T>::empty());
}

/// Inserting `x` after every element that sorts before it puts `x` first among
/// the elements with its key, and moves no other element of that key.
proof fn lemma_insert_with_key<T: Keyed>(out: Seq<T>, x: T, j: int, k: Seq<char>)
    requires
        0 <= j <= out.len(),
        forall|m: int| 0 <= m < j ==> key_lt(#[trigger] out[m].key_view(), x.key_view()),
    ensures
        with_key(out.insert(j, x), k) == (if x.key_view() == k {
            seq![x]
        } else {
            Seq::<T>::empty()
        }) + with_key(out, k),
{
    let pred = has_key::<T>(k);
    let a = out.take(j);
    let b = out.skip(j);
    assert(out.insert(j, x) =~= a + (seq![x] + b));
    assert(out =~= a + b);
    Seq::filter_distributes_over_add(a, seq![x] + b, pred);
    Seq::filter_distributes_over_add(a, b, pred);
    b.lemma_filter_prepend(x, pred);
    if x.key_view() == k {
        assert forall|m: int| 0 <= m < a.len() implies (#[trigger] a[m]).key_view() != k by {
            lemma_key_lt_asymmetric(a[m].key_view(), x.key_view());
        }
        lemma_none_with_key(a, k);
        assert(with_key(out.insert(j, x), k) =~= seq![x] + with_key(out, k));
    } else {
        assert(with_key(out.insert(j, x), k) =~= with_key(out, k));
    }
}

/// The elements of `v`, ordered by key. The result holds exactly the elements
/// of `v`, each as often as `v` does, and the sort is stable: elements with the
/// same key keep the order they had in `v`.
pub fn sort_by_key<T: Keyed>(v: Vec<T>) -> (r: Vec<T>)
    ensures
        r@.to_multiset() == v@.to_multiset(),
        sorted_by_key(r@),
        forall|k: Seq<char>| #[trigger] with_key(r@, k) == with_key(v@, k),
{
    let ghost all = v@.to_multiset();
    let ghost vv = v@;
    let mut rest = v;
    let mut out: Vec<T> = Vec::new();
    proof {
        assert(out@.to_multiset() =~= Multiset::<T>::empty()) by {
            vstd::seq_lib::to_multiset_len(out@);
        }
    }
    while rest.len() > 0
        invariant
            out@.to_multiset().add(rest@.to_multiset()) == all,
            sorted_by_key(out@),
            rest@ == vv.take(rest.len() as int),
            rest.len() <= vv.len(),
            forall|k: Seq<char>| #[trigger] with_key(out@, k) == with_key(vv.skip(rest.len() as int), k),
        decreases rest.len(),
    {
        let ghost before = rest@;
        let x = match rest.pop() {
            Some(x) => x,
            None => {
                vstd::pervasive::unreached()
            },
        };
        proof {
            assert(before =~= rest@.push(x));
            vstd::seq_lib::to_multiset_build(rest@, x);
        }
        let j = insert_position(&out, &x);
        proof {
            lemma_insert_sorted(out@, x, j as int);
            vstd::seq_lib::to_multiset_insert(out@, j as int, x);
        }
        let ghost old_out = out@;
        out.insert(j, x);
        proof {
            assert(out@ == old_out.insert(j as int, x));
            assert(out@.to_multiset().add(rest@.to_multiset()) =~= all);
            assert(rest@ =~= vv.take(rest.len() as int));
            assert(x == vv[rest.len() as int]);
            assert(vv.skip(rest.len() as int) =~= seq![x] + vv.skip(rest.len() + 1));
            assert forall|k: Seq<char>| #[trigger] with_key(out@, k) == with_key(vv.skip(rest.len() as int), k) by {
                lemma_insert_with_key(old_out, x, j as int, k);
                vv.skip(rest.len() + 1).lemma_filter_prepend(x, has_key::<T>(k));
            }
        }
    }
    proof {
        assert(rest@.to_multiset() =~= Multiset::<T>::empty()) by {
            vstd::seq_lib::to_multiset_len(rest@);
        }
        assert(out@.to_multiset().add(rest@.to_multiset()) =~= out@.to_multiset());
        assert(vv.skip(0) =~= vv);
    }
    out
}

} // verus!
