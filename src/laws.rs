use vstd::prelude::*;

use crate::op::{applied, is_default, replayed, tab_key, Op};

verus! {

/// Applying messages one at a time, as the listener does, leaves exactly what
/// replaying the whole sequence at once leaves: a run over `first + second`
/// is a run over `first` followed by a run over `second`, and back.
pub proof fn lemma_replay_splits<B: Default>(
    pre: Map<Seq<char>, B>,
    first: Seq<Op<B>>,
    second: Seq<Op<B>>,
    post: Map<Seq<char>, B>,
)
    ensures
        replayed(pre, first + second, post) <==> exists|mid: Map<Seq<char>, B>|
            #[trigger] replayed(pre, first, mid) && replayed(mid, second, post),
    decreases second.len(),
{
    if second.len() == 0 {
        assert(first + second =~= first);
        if replayed(pre, first, post) {
            assert(replayed(post, second, post));
        }
    } else {
        let init = second.drop_last();
        assert((first + second).drop_last() =~= first + init);
        assert((first + second).last() == second.last());
        if replayed(pre, first + second, post) {
            let m2 = choose|m2: Map<Seq<char>, B>|
                replayed(pre, (first + second).drop_last(), m2) && #[trigger] applied(
                    m2,
                    (first + second).last(),
                    post,
                );
            lemma_replay_splits(pre, first, init, m2);
            let mid = choose|mid: Map<Seq<char>, B>|
                #[trigger] replayed(pre, first, mid) && replayed(mid, init, m2);
            assert(replayed(mid, second, post));
        }
        if exists|mid: Map<Seq<char>, B>|
            #[trigger] replayed(pre, first, mid) && replayed(mid, second, post) {
            let mid = choose|mid: Map<Seq<char>, B>|
                #[trigger] replayed(pre, first, mid) && replayed(mid, second, post);
            let m2 = choose|m2: Map<Seq<char>, B>|
                replayed(mid, second.drop_last(), m2) && #[trigger] applied(
                    m2,
                    second.last(),
                    post,
                );
            lemma_replay_splits(pre, first, init, m2);
            assert(replayed(pre, first + init, m2));
        }
    }
}

/// `a` and `b` have the same keys, and each key holds the same value in both,
/// or a default value in both.
pub open spec fn same_up_to_defaults<B: Default>(a: Map<Seq<char>, B>, b: Map<Seq<char>, B>) -> bool {
    &&& a.dom() == b.dom()
    &&& forall|k| #[trigger] a.contains_key(k) ==> a[k] == b[k] || is_default(a[k]) && is_default(b[k])
}

/// A sequence of upserts, removals and new tabs leads to one outcome: two runs
/// over it from the same mapping agree on every key, but for which default
/// value the payload type hands out.
pub proof fn lemma_replay_determined<B: Default>(
    pre: Map<Seq<char>, B>,
    ops: Seq<Op<B>>,
    p1: Map<Seq<char>, B>,
    p2: Map<Seq<char>, B>,
)
    requires
        forall|i: int| 0 <= i < ops.len() ==> !(#[trigger] ops[i] is RemoveRandom),
        replayed(pre, ops, p1),
        replayed(pre, ops, p2),
    ensures
        same_up_to_defaults(p1, p2),
    decreases ops.len(),
{
    if ops.len() > 0 {
        let init = ops.drop_last();
        let op = ops.last();
        let m1 = choose|m: Map<Seq<char>, B>| replayed(pre, init, m) && #[trigger] applied(m, op, p1);
        let m2 = choose|m: Map<Seq<char>, B>| replayed(pre, init, m) && #[trigger] applied(m, op, p2);
        assert forall|i: int| 0 <= i < init.len() implies !(#[trigger] init[i] is RemoveRandom) by {
            assert(ops[i] == init[i]);
        }
        lemma_replay_determined(pre, init, m1, m2);
        assert(!(ops[ops.len() - 1] is RemoveRandom));
        match op {
            Op::Upsert(k, v) => {
                assert(p1.dom() =~= p2.dom());
            },
            Op::Remove(k) => {
                assert(p1.dom() =~= p2.dom());
            },
            Op::NewTab(k) => {
                assert(p1.dom() =~= p2.dom());
            },
            Op::RemoveRandom => {},
        }
    }
}

/// After `Upsert(k, v)` the key `k` holds `v`; after `Remove(k)` it holds nothing.
pub proof fn lemma_upsert_then_remove<B: Default>(
    m: Map<Seq<char>, B>,
    k: String,
    v: B,
    p: Map<Seq<char>, B>,
    q: Map<Seq<char>, B>,
)
    requires
        applied(m, Op::Upsert(k, v), p),
        applied(p, Op::Remove(k), q),
    ensures
        p.contains_key(k@),
        p[k@] == v,
        !q.contains_key(k@),
{
}

/// `RemoveRandom` empties a store of one key, and leaves an empty store as it is.
pub proof fn lemma_remove_random_small<B: Default>(m: Map<Seq<char>, B>, p: Map<Seq<char>, B>)
    requires
        m.dom().finite(),
        m.len() <= 1,
        applied(m, Op::RemoveRandom, p),
    ensures
        p == Map::<Seq<char>, B>::empty(),
{
    if m.len() == 0 {
        assert(m.dom() =~= Set::empty());
    } else {
        let k = choose|k: Seq<char>| m.contains_key(k) && p == m.remove(k);
        assert(p.dom() == m.dom().remove(k));
        assert(p.dom().len() == 0);
        assert(p.dom() =~= Set::empty());
    }
    assert(p =~= Map::<Seq<char>, B>::empty());
}

/// `NewTab(k)` puts a default value under `"tab_"` followed by `k`; a second
/// `NewTab(k)` again leaves a default value there and changes no other key.
pub proof fn lemma_new_tab_twice<B: Default>(
    m: Map<Seq<char>, B>,
    k: String,
    p: Map<Seq<char>, B>,
    q: Map<Seq<char>, B>,
)
    requires
        applied(m, Op::NewTab(k), p),
        applied(p, Op::NewTab(k), q),
    ensures
        p.contains_key(tab_key(k@)),
        is_default(p[tab_key(k@)]),
        p.remove(tab_key(k@)) == m.remove(tab_key(k@)),
        q.dom() == p.dom(),
        is_default(q[tab_key(k@)]),
        q.remove(tab_key(k@)) == p.remove(tab_key(k@)),
{
    assert(p.remove(tab_key(k@)) =~= m.remove(tab_key(k@)));
    assert(q.dom() =~= p.dom());
    assert(q.remove(tab_key(k@)) =~= p.remove(tab_key(k@)));
}

/// The keys that a sequence of messages upserts.
pub open spec fn upserted_keys<B>(ops: Seq<Op<B>>) -> Seq<Seq<char>> {
    ops.map_values(|op: Op<B>| if let Op::Upsert(k, _) = op { k@ } else { Seq::empty() })
}

/// Upserts of mutually distinct keys, in whatever order they arrive, lose
/// nothing: starting from an empty store, there is one entry per message.
pub proof fn lemma_distinct_upserts_kept<B: Default>(ops: Seq<Op<B>>, post: Map<Seq<char>, B>)
    requires
        forall|i: int| 0 <= i < ops.len() ==> #[trigger] ops[i] is Upsert,
        upserted_keys(ops).no_duplicates(),
        replayed(Map::empty(), ops, post),
    ensures
        post.dom().finite(),
        post.len() == ops.len(),
{
    lemma_distinct_upserts_keys(ops, post);
    upserted_keys(ops).unique_seq_to_set();
}

proof fn lemma_distinct_upserts_keys<B: Default>(ops: Seq<Op<B>>, post: Map<Seq<char>, B>)
    requires
        forall|i: int| 0 <= i < ops.len() ==> #[trigger] ops[i] is Upsert,
        replayed(Map::empty(), ops, post),
    ensures
        post.dom() == upserted_keys(ops).to_set(),
    decreases ops.len(),
{
    if ops.len() == 0 {
        assert(post.dom() =~= upserted_keys(ops).to_set());
    } else {
        let init = ops.drop_last();
        let mid = choose|mid: Map<Seq<char>, B>|
            replayed(Map::empty(), init, mid) && #[trigger] applied(mid, ops.last(), post);
        assert forall|i: int| 0 <= i < init.len() implies #[trigger] init[i] is Upsert by {
            assert(ops[i] is Upsert);
        }
        lemma_distinct_upserts_keys(init, mid);
        assert(ops[ops.len() - 1] is Upsert);
        let keys = upserted_keys(ops);
        assert(upserted_keys(init) =~= keys.drop_last());
        assert forall|x| keys.contains(x) <==> keys.drop_last().contains(x) || x == keys.last() by {
            if keys.contains(x) {
                let j = choose|j: int| 0 <= j < keys.len() && keys[j] == x;
                if j < keys.len() - 1 {
                    assert(keys.drop_last()[j] == x);
                }
            }
            if keys.drop_last().contains(x) {
                let j = choose|j: int| 0 <= j < keys.len() - 1 && keys.drop_last()[j] == x;
                assert(keys[j] == x);
            }
        }
        assert(post.dom() =~= keys.to_set());
    }
}

} // verus!
