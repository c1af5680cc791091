//! Ordering lists by a text key, in the order `str::cmp` gives.

use vstd::prelude::*;
use vstd::multiset::Multiset;

use crate::text::{lemma_lex_antisym, lemma_lex_refl, lemma_lex_total, lemma_lex_trans, lex_le, lex_lt, text_less};

verus! {

/// Values ordered by a text key.
pub trait Keyed {
    /// The key of this value.
    spec fn key_view(&self) -> Seq<char>;

    /// The key of this value.
    fn key(&self) -> (k: &String)
        ensures
            k@ == self.key_view(),
    ;
}

/// `s` is in ascending order of keys.
pub open spec fn sorted_by_key<T: Keyed>(s: Seq<T>) -> bool {
    forall|i: int, j: int|
        0 <= i < j < s.len() ==> lex_le((#[trigger] s[i]).key_view(), (#[trigger] s[j]).key_view())
}

/// Whether a value has the key `k`.
pub open spec fn with_key<T: Keyed>(k: Seq<char>) -> spec_fn(T) -> bool {
    |x: T| x.key_view() == k
}

proof fn lemma_filter_none<T: Keyed>(s: Seq<T>, k: Seq<char>)
    requires
        forall|j: int| 0 <= j < s.len() ==> (#[trigger] s[j]).key_view() != k,
    ensures
        s.filter(with_key::<T>(k)) == Seq::<T>::empty(),
{
    broadcast use vstd::seq_lib::group_filter_ensures;

    let f = s.filter(with_key::<T>(k));
    if f.len() > 0 {
        assert(with_key::<T>(k)(f[0]));
        assert(f.contains(f[0]));
        s.lemma_filter_contains_rev(with_key::<T>(k), f[0]);
    }
    assert(f =~= Seq::<T>::empty());
}

proof fn lemma_filter_single<T: Keyed>(x: T, k: Seq<char>)
    ensures
        seq![x].filter(with_key::<T>(k)) == (if x.key_view() == k {
            seq![x]
        } else {
            Seq::<T>::empty()
        }),
{
    reveal_with_fuel(Seq::filter, 2);
    assert(seq![x].drop_last() =~= Seq::<T>::empty());
    if x.key_view() == k {
        assert(seq![x] =~= Seq::<T>::empty().push(x));
    }
}

/// Taking out the first value with its key keeps what follows of every key.
proof fn lemma_filter_remove<T: Keyed>(s: Seq<T>, m: int, k: Seq<char>)
    requires
        0 <= m < s.len(),
        forall|j: int| 0 <= j < m ==> (#[trigger] s[j]).key_view() != s[m].key_view(),
    ensures
        s.filter(with_key::<T>(k)) == (if s[m].key_view() == k {
            seq![s[m]]
        } else {
            Seq::<T>::empty()
        }) + s.remove(m).filter(with_key::<T>(k)),
{
    let p = with_key::<T>(k);
    let a = s.take(m);
    let b = s.skip(m + 1);
    assert(s =~= a + seq![s[m]] + b);
    assert(s.remove(m) =~= a + b);
    Seq::filter_distributes_over_add(a + seq![s[m]], b, p);
    Seq::filter_distributes_over_add(a, seq![s[m]], p);
    Seq::filter_distributes_over_add(a, b, p);
    lemma_filter_single(s[m], k);
    if s[m].key_view() == k {
        assert forall|j: int| 0 <= j < a.len() implies (#[trigger] a[j]).key_view() != k by {
            assert(a[j] == s[j]);
        }
        lemma_filter_none(a, k);
        assert(s.filter(p) =~= seq![s[m]] + s.remove(m).filter(p));
    } else {
        assert(s.filter(p) =~= Seq::<T>::empty() + s.remove(m).filter(p));
    }
}

fn min_position<T: Keyed>(v: &Vec<T>) -> (m: usize)
    requires
        v@.len() > 0,
    ensures
        m < v@.len(),
        forall|j: int| 0 <= j < v@.len() ==> lex_le(v@[m as int].key_view(), (#[trigger] v@[j]).key_view()),
        forall|j: int| 0 <= j < m ==> (#[trigger] v@[j]).key_view() != v@[m as int].key_view(),
{
    let mut m: usize = 0;
    let mut k: usize = 1;
    proof {
        lemma_lex_refl(v@[0].key_view());
    }
    while k < v.len()
        invariant
            1 <= k <= v@.len(),
            m < k,
            forall|j: int| 0 <= j < k ==> lex_le(v@[m as int].key_view(), (#[trigger] v@[j]).key_view()),
            forall|j: int| 0 <= j < m ==> (#[trigger] v@[j]).key_view() != v@[m as int].key_view(),
        decreases v@.len() - k,
    {
        let ghost old_m = m;
        if text_less(v[k].key().as_str(), v[m].key().as_str()) {
            m = k;
            proof {
                assert forall|j: int| 0 <= j < k + 1 implies lex_le(
                    v@[m as int].key_view(),
                    (#[trigger] v@[j]).key_view(),
                ) by {
                    if j < k {
                        lemma_lex_trans(v@[m as int].key_view(), v@[old_m as int].key_view(), v@[j].key_view());
                    } else {
                        lemma_lex_refl(v@[j].key_view());
                    }
                }
                assert forall|j: int| 0 <= j < m implies (#[trigger] v@[j]).key_view() != v@[m as int].key_view() by {
                    if v@[j].key_view() == v@[m as int].key_view() {
                        assert(lex_le(v@[old_m as int].key_view(), v@[j].key_view()));
                        lemma_lex_antisym(v@[old_m as int].key_view(), v@[m as int].key_view());
                    }
                }
            }
        } else {
            proof {
                lemma_lex_total(v@[k as int].key_view(), v@[m as int].key_view());
                if v@[k as int].key_view() == v@[m as int].key_view() {
                    lemma_lex_refl(v@[m as int].key_view());
                }
            }
        }
        k = k + 1;
    }
    m
}

/// The items of `v` in ascending order of keys; items with the same key
/// keep their order.
pub fn sort_by_key<T: Keyed>(v: Vec<T>) -> (r: Vec<T>)
    ensures
        r@.to_multiset() == v@.to_multiset(),
        r@.len() == v@.len(),
        sorted_by_key(r@),
        forall|k: Seq<char>| #[trigger] r@.filter(with_key::<T>(k)) == v@.filter(with_key::<T>(k)),
{
    broadcast use vstd::seq_lib::group_to_multiset_ensures;
    broadcast use vstd::multiset::group_multiset_axioms;

    let ghost input = v@;
    let mut rest = v;
    let mut out: Vec<T> = Vec::new();
    assert forall|k: Seq<char>|
        #[trigger] input.filter(with_key::<T>(k)) == out@.filter(with_key::<T>(k)) + rest@.filter(
            with_key::<T>(k),
        ) by {
        lemma_filter_none(out@, k);
        assert(Seq::<T>::empty() + rest@.filter(with_key::<T>(k)) =~= rest@.filter(with_key::<T>(k)));
    }
    while rest.len() > 0
        invariant
            out@.to_multiset().add(rest@.to_multiset()) == input.to_multiset(),
            sorted_by_key(out@),
            forall|a: int, b: int|
                0 <= a < out@.len() && 0 <= b < rest@.len() ==> lex_le(
                    (#[trigger] out@[a]).key_view(),
                    (#[trigger] rest@[b]).key_view(),
                ),
            forall|k: Seq<char>|
                #[trigger] input.filter(with_key::<T>(k)) == out@.filter(with_key::<T>(k)) + rest@.filter(
                    with_key::<T>(k),
                ),
        decreases rest@.len(),
    {
        let m = min_position(&rest);
        let ghost before_rest = rest@;
        let ghost before_out = out@;
        let x = rest.remove(m);
        out.push(x);
        assert forall|k: Seq<char>|
            #[trigger] input.filter(with_key::<T>(k)) == out@.filter(with_key::<T>(k)) + rest@.filter(
                with_key::<T>(k),
            ) by {
            assert(input.filter(with_key::<T>(k)) == before_out.filter(with_key::<T>(k))
                + before_rest.filter(with_key::<T>(k)));
            lemma_filter_remove(before_rest, m as int, k);
            Seq::filter_distributes_over_add(before_out, seq![x], with_key::<T>(k));
            lemma_filter_single(x, k);
            assert(before_out.push(x) =~= before_out + seq![x]);
            assert(input.filter(with_key::<T>(k)) =~= out@.filter(with_key::<T>(k)) + rest@.filter(
                with_key::<T>(k),
            ));
        }
        proof {
            before_out.to_multiset_ensures();
            before_rest.to_multiset_ensures();
        }
        assert(x == before_rest[m as int]);
        assert(out@ == before_out.push(x));
        assert(rest@ == before_rest.remove(m as int));
        assert(out@.to_multiset() == before_out.to_multiset().insert(x));
        assert(rest@.to_multiset() == before_rest.to_multiset().remove(x));
        assert(before_rest.to_multiset().contains(x)) by {
            assert(before_rest.contains(x)) by {
                assert(before_rest[m as int] == x);
            }
        }
        assert(out@.to_multiset().add(rest@.to_multiset()) =~= before_out.to_multiset().add(
            before_rest.to_multiset(),
        ));
        assert forall|i: int, j: int| 0 <= i < j < out@.len() implies lex_le(
            (#[trigger] out@[i]).key_view(),
            (#[trigger] out@[j]).key_view(),
        ) by {
            if j < out@.len() - 1 {
                assert(out@[i] == before_out[i] && out@[j] == before_out[j]);
            } else {
                assert(out@[i] == before_out[i]);
                assert(out@[j] == before_rest[m as int]);
            }
        }
        assert forall|a: int, b: int|
            0 <= a < out@.len() && 0 <= b < rest@.len() implies lex_le(
            (#[trigger] out@[a]).key_view(),
            (#[trigger] rest@[b]).key_view(),
        ) by {
            let bb = if b < m {
                b
            } else {
                b + 1
            };
            assert(rest@[b] == before_rest[bb]);
            if a < out@.len() - 1 {
                assert(out@[a] == before_out[a]);
            } else {
                assert(out@[a] == before_rest[m as int]);
            }
        }
    }
    assert(rest@ =~= Seq::<T>::empty());
    assert(rest@.to_multiset() =~= Multiset::<T>::empty());
    assert forall|k: Seq<char>| #[trigger] out@.filter(with_key::<T>(k)) == input.filter(with_key::<T>(k)) by {
        assert(input.filter(with_key::<T>(k)) == out@.filter(with_key::<T>(k)) + rest@.filter(with_key::<T>(k)));
        lemma_filter_none(rest@, k);
        assert(out@.filter(with_key::<T>(k)) + Seq::<T>::empty() =~= out@.filter(with_key::<T>(k)));
    }
    assert(out@.to_multiset().add(rest@.to_multiset()) =~= out@.to_multiset());
    proof {
        input.to_multiset_ensures();
        out@.to_multiset_ensures();
    }
    out
}

} // verus!
