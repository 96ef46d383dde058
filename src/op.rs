use rand::Rng;
use vstd::prelude::*;

use crate::store::Store;

verus! {

/// A mutation request, handled by the store's single writer.
#[derive(Debug, Clone)]
pub enum Op<B> {
    /// Insert or overwrite a key.
    Upsert(String, B),
    /// Delete a key if present.
    Remove(String),
    /// Insert `"tab_"` followed by the key, with the payload type's default value.
    NewTab(String),
    /// Delete one key chosen at random; nothing happens on an empty store.
    RemoveRandom,
}

/// The key under which `NewTab(k)` stores its entry.
pub open spec fn tab_key(k: Seq<char>) -> Seq<char> {
    seq!['t', 'a', 'b', '_'] + k
}

/// `v` is a value that the payload type's `default` can return.
pub open spec fn is_default<B: Default>(v: B) -> bool {
    call_ensures(B::default, (), v)
}

/// `post` is a mapping that applying `op` to `pre` can leave.
pub open spec fn applied<B: Default>(pre: Map<Seq<char>, B>, op: Op<B>, post: Map<Seq<char>, B>) -> bool {
    match op {
        Op::Upsert(k, v) => post == pre.insert(k@, v),
        Op::Remove(k) => post == pre.remove(k@),
        Op::NewTab(k) => post == pre.insert(tab_key(k@), post[tab_key(k@)]) && is_default(
            post[tab_key(k@)],
        ),
        Op::RemoveRandom => if pre.dom().is_empty() {
            post == pre
        } else {
            exists|k: Seq<char>| pre.contains_key(k) && post == pre.remove(k)
        },
    }
}

/// `post` is a mapping that applying `ops` to `pre`, one at a time and in
/// order, can leave.
pub open spec fn replayed<B: Default>(
    pre: Map<Seq<char>, B>,
    ops: Seq<Op<B>>,
    post: Map<Seq<char>, B>,
) -> bool
    decreases ops.len(),
{
    if ops.len() == 0 {
        post == pre
    } else {
        exists|mid: Map<Seq<char>, B>|
            replayed(pre, ops.drop_last(), mid) && #[trigger] applied(mid, ops.last(), post)
    }
}

/// Relies on `String::push_str`: the characters of `string` are appended.
pub assume_specification[ String::push_str ](s: &mut String, string: &str)
    ensures
        final(s)@ == old(s)@ + string@,
;

/// Relies on rand's `Rng::gen_range` on `thread_rng()`: a value drawn from
/// `0..n`; it panics on an empty range, which `requires` leaves out.
#[verifier::external_body]
fn random_below(n: usize) -> (r: usize)
    requires
        n > 0,
    ensures
        r < n,
{
    rand::thread_rng().gen_range(0..n)
}

/// The key `"tab_"` followed by `key`.
pub fn tab_name(key: &String) -> (r: String)
    ensures
        r@ == tab_key(key@),
{
    let mut r = "tab_".to_owned();
    proof {
        reveal_strlit("tab_");
    }
    r.push_str(key.as_str());
    r
}

impl<B: Clone + Default> Store<B> {
    /// Applies one message to the store.
    pub fn apply(&mut self, op: Op<B>)
        requires
            old(self).wf(),
        ensures
            final(self).wf(),
            applied(old(self)@, op, final(self)@),
    {
        match op {
            Op::Upsert(key, value) => {
                self.insert(key, value);
            },
            Op::Remove(key) => {
                self.remove(&key);
            },
            Op::NewTab(key) => {
                let name = tab_name(&key);
                let value = B::default();
                self.insert(name, value);
                assert(self@ =~= old(self)@.insert(tab_key(key@), self@[tab_key(key@)]));
            },
            Op::RemoveRandom => {
                proof {
                    self.lemma_keys();
                }
                let n = self.len();
                if n > 0 {
                    let idx = random_below(n);
                    proof {
                        assert(self.keys().to_set().contains(self.keys()[idx as int]));
                    }
                    self.remove_nth(idx);
                } else {
                    assert(self@.dom() =~= Set::empty());
                }
            },
        }
    }

    /// Applies `ops` one after another, in order.
    pub fn apply_all(&mut self, ops: Vec<Op<B>>)
        requires
            old(self).wf(),
        ensures
            final(self).wf(),
            replayed(old(self)@, ops@, final(self)@),
    {
        let ghost start = self@;
        let ghost all = ops@;
        let mut ops = ops;
        let mut done: usize = 0;
        let n = ops.len();
        proof {
            assert(all.len() == n);
            assert(all.take(0) =~= Seq::<Op<B>>::empty());
            assert(all.skip(0) =~= all);
        }
        while ops.len() > 0
            invariant
                done + ops@.len() == all.len(),
                all.len() <= usize::MAX,
                ops@ == all.skip(done as int),
                self.wf(),
                replayed(start, all.take(done as int), self@),
            decreases ops.len(),
        {
            let ghost pre = self@;
            let op = ops.remove(0);
            self.apply(op);
            proof {
                assert(all.take(done + 1).drop_last() =~= all.take(done as int));
                assert(all.take(done + 1).last() == op);
                assert(all.skip(done + 1) =~= all.skip(done as int).remove(0));
                assert(applied(pre, all.take(done + 1).last(), self@));
            }
            done = done + 1;
        }
        proof {
            assert(all.take(done as int) =~= all);
        }
    }
}

} // verus!
