use vstd::prelude::*;
use vstd::multiset::{group_multiset_axioms, lemma_multiset_empty_len};
use vstd::seq_lib::{group_to_multiset_ensures, to_multiset_build, to_multiset_insert, to_multiset_len};

verus! {

/// A sort key, compared component by component.
pub type SortKey = (i64, i64, i64, i64);

/// Lexicographic order on sort keys.
pub open spec fn key_le(a: SortKey, b: SortKey) -> bool {
    a.0 < b.0 || (a.0 == b.0 && (a.1 < b.1 || (a.1 == b.1 && (a.2 < b.2 || (a.2 == b.2 && a.3
        <= b.3)))))
}

fn key_le_exec(a: &SortKey, b: &SortKey) -> (r: bool)
    ensures
        r == key_le(*a, *b),
{
    a.0 < b.0 || (a.0 == b.0 && (a.1 < b.1 || (a.1 == b.1 && (a.2 < b.2 || (a.2 == b.2 && a.3
        <= b.3)))))
}

/// The keys in `keys` ascend.
pub open spec fn keys_ascending(keys: Seq<SortKey>) -> bool {
    forall|i: int, j: int| 0 <= i < j < keys.len() ==> key_le(#[trigger] keys[i], #[trigger] keys[j])
}

/// First position at which `k` can be inserted into ascending `keys` keeping them ascending.
fn insertion_point(keys: &Vec<SortKey>, k: &SortKey) -> (p: usize)
    ensures
        p <= keys@.len(),
        forall|q: int| 0 <= q < p ==> key_le(#[trigger] keys@[q], *k),
        p < keys@.len() ==> !key_le(keys@[p as int], *k),
{
    let mut p: usize = 0;
    while p < keys.len()
        invariant
            0 <= p <= keys@.len(),
            forall|q: int| 0 <= q < p ==> key_le(#[trigger] keys@[q], *k),
        decreases keys@.len() - p,
    {
        if !key_le_exec(&keys[p], k) {
            return p;
        }
        p = p + 1;
    }
    p
}

/// Reorders `items` so that their keys ascend; `keys[i]` is the key of `items[i]`.
pub fn sort_by_keys<T>(
    items: Vec<T>,
    keys: Vec<SortKey>,
    Ghost(key): Ghost<spec_fn(T) -> SortKey>,
) -> (r: Vec<T>)
    requires
        items@.len() == keys@.len(),
        forall|i: int| 0 <= i < keys@.len() ==> #[trigger] keys@[i] == key(items@[i]),
    ensures
        r@.to_multiset() == items@.to_multiset(),
        forall|i: int, j: int|
            0 <= i < j < r@.len() ==> key_le(key(#[trigger] r@[i]), key(#[trigger] r@[j])),
{
    broadcast use group_to_multiset_ensures;

    let ghost orig = items@;
    let mut items = items;
    let mut keys = keys;
    let mut out: Vec<T> = Vec::new();
    let mut out_keys: Vec<SortKey> = Vec::new();
    while items.len() > 0
        invariant
            items@.len() == keys@.len(),
            forall|i: int| 0 <= i < keys@.len() ==> #[trigger] keys@[i] == key(items@[i]),
            out@.len() == out_keys@.len(),
            forall|i: int| 0 <= i < out_keys@.len() ==> #[trigger] out_keys@[i] == key(out@[i]),
            keys_ascending(out_keys@),
            out@.to_multiset().add(items@.to_multiset()) == orig.to_multiset(),
        decreases items@.len(),
    {
        let ghost items0 = items@;
        let ghost out0 = out@;
        let ghost keys0 = out_keys@;
        let x = items.pop().unwrap();
        let kx = keys.pop().unwrap();
        proof {
            assert(items0 =~= items@.push(x));
        }
        let p = insertion_point(&out_keys, &kx);
        out.insert(p, x);
        out_keys.insert(p, kx);
        proof {
            assert(out@ == out0.insert(p as int, x));
            to_multiset_insert(out0, p as int, x);
            to_multiset_build(items@, x);
            assert(out@.to_multiset().add(items@.to_multiset()) =~= out0.to_multiset().add(
                items0.to_multiset(),
            ));
            let ks = out_keys@;
            assert forall|i: int| 0 <= i < ks.len() implies #[trigger] ks[i] == key(out@[i]) by {
                if i < p {
                    assert(ks[i] == keys0[i]);
                } else if i > p {
                    assert(ks[i] == keys0[i - 1]);
                }
            }
            assert forall|i: int, j: int| 0 <= i < j < ks.len() implies key_le(
                #[trigger] ks[i],
                #[trigger] ks[j],
            ) by {
                if j < p {
                    assert(key_le(keys0[i], keys0[j]));
                } else if j == p {
                    assert(key_le(keys0[i], kx));
                } else if i < p {
                    assert(key_le(keys0[i], kx));
                    assert(key_le(keys0[p as int], keys0[j - 1]));
                } else if i == p {
                    assert(key_le(keys0[p as int], keys0[j - 1]));
                } else {
                    assert(key_le(keys0[i - 1], keys0[j - 1]));
                }
            }
        }
    }
    proof {
        broadcast use group_multiset_axioms;

        to_multiset_len(items@);
        lemma_multiset_empty_len(items@.to_multiset());
        assert(out@.to_multiset() =~= out@.to_multiset().add(items@.to_multiset()));
        assert forall|i: int, j: int| 0 <= i < j < out@.len() implies key_le(
            key(#[trigger] out@[i]),
            key(#[trigger] out@[j]),
        ) by {
            assert(key_le(out_keys@[i], out_keys@[j]));
        }
    }
    out
}

} // verus!
