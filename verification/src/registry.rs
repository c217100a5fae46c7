//! Identity registry: allocates and reclaims integer handles, and keeps
//! the alias (name to id) and tag (name to id group) tables.
//!
//! Released ids are parked in a pending list and become reusable only
//! after an explicit `reclaim` call, which the simulation runs once per
//! step after all deferred event delivery. This keeps an id from being
//! reused while stale events referencing its old owner are still queued.

use vstd::prelude::*;

verus! {

broadcast use vstd::seq_lib::group_seq_properties;


/// The name the reverse alias table gives an id: the earliest binding
/// wins.
pub open spec fn rev_alias_first(rev: Seq<(u64, String)>, id: u64) -> Option<Seq<char>>
    decreases rev.len(),
{
    if rev.len() == 0 {
        None::<Seq<char>>
    } else if rev.first().0 == id {
        Some(rev.first().1@)
    } else {
        rev_alias_first(rev.drop_first(), id)
    }
}

/// The reverse alias table with every binding of this id removed.
pub open spec fn rev_without(rev: Seq<(u64, String)>, id: u64) -> Seq<(u64, String)>
    decreases rev.len(),
{
    if rev.len() == 0 {
        rev
    } else if rev.first().0 == id {
        rev_without(rev.drop_first(), id)
    } else {
        seq![rev.first()] + rev_without(rev.drop_first(), id)
    }
}

/// The reverse alias table with the first binding of this id removed.
pub open spec fn rev_remove_first(rev: Seq<(u64, String)>, id: u64) -> Seq<(u64, String)>
    decreases rev.len(),
{
    if rev.len() == 0 {
        rev
    } else if rev.first().0 == id {
        rev.drop_first()
    } else {
        seq![rev.first()] + rev_remove_first(rev.drop_first(), id)
    }
}

/// Clearing an id keeps exactly the other ids' bindings, in order, and
/// leaves none of the cleared id's.
proof fn lemma_rev_without_clears(rev: Seq<(u64, String)>, id: u64)
    ensures
        forall|i: int|
            0 <= i < rev_without(rev, id).len() ==> (#[trigger] rev_without(rev, id)[i]).0 != id,
        forall|i: int|
            0 <= i < rev_without(rev, id).len() ==> rev.contains(#[trigger] rev_without(rev, id)[i]),
    decreases rev.len(),
{
    if rev.len() > 0 {
        lemma_rev_without_clears(rev.drop_first(), id);
        assert forall|i: int|
            0 <= i < rev_without(rev, id).len() implies rev.contains(
            #[trigger] rev_without(rev, id)[i],
        ) by {
            let x = rev_without(rev, id)[i];
            if rev.first().0 == id {
                assert(x == rev_without(rev.drop_first(), id)[i]);
                assert(rev.drop_first().contains(x));
                let j = choose|j: int|
                    0 <= j < rev.drop_first().len() && rev.drop_first()[j] == x;
                assert(rev[j + 1] == x);
            } else if i > 0 {
                assert(x == rev_without(rev.drop_first(), id)[i - 1]);
                assert(rev.drop_first().contains(x));
                let j = choose|j: int|
                    0 <= j < rev.drop_first().len() && rev.drop_first()[j] == x;
                assert(rev[j + 1] == x);
            } else {
                assert(rev_without(rev, id)[0] == rev.first());
                assert(rev[0] == x);
            }
        }
    }
}

/// After a table free of an id, the binding appended for that id is the
/// one its reverse lookup finds.
proof fn lemma_rev_first_after_clear(s: Seq<(u64, String)>, e: (u64, String), id: u64)
    requires
        forall|i: int| 0 <= i < s.len() ==> (#[trigger] s[i]).0 != id,
        e.0 == id,
    ensures
        rev_alias_first(s.push(e), id) == Some(e.1@),
    decreases s.len(),
{
    if s.len() == 0 {
        assert(s.push(e).first() == e);
    } else {
        assert(s.push(e).first() == s.first());
        assert(s[0].0 != id);
        assert(s.push(e).drop_first() =~= s.drop_first().push(e));
        lemma_rev_first_after_clear(s.drop_first(), e, id);
    }
}

/// Removing the first match at a known first-match index is the plain
/// index removal.
proof fn lemma_rev_remove_first_at(rev: Seq<(u64, String)>, id: u64, i: int)
    requires
        0 <= i < rev.len(),
        rev[i].0 == id,
        forall|j: int| 0 <= j < i ==> (#[trigger] rev[j]).0 != id,
    ensures
        rev_remove_first(rev, id) =~= rev.remove(i),
    decreases i,
{
    if i == 0 {
        assert(rev.first().0 == id);
        assert(rev.drop_first() =~= rev.remove(0));
    } else {
        assert(rev.first().0 != id) by {
            assert(rev[0].0 != id);
        }
        lemma_rev_remove_first_at(rev.drop_first(), id, i - 1);
        assert(rev.drop_first().remove(i - 1) =~= rev.remove(i).drop_first());
        assert(rev_remove_first(rev, id) =~= seq![rev.first()] + rev.drop_first().remove(i - 1));
        assert(rev.remove(i).first() == rev.first());
        assert(seq![rev.remove(i).first()] + rev.remove(i).drop_first() =~= rev.remove(i));
    }
}

/// With no match, removing the first match changes nothing.
proof fn lemma_rev_remove_first_absent(rev: Seq<(u64, String)>, id: u64)
    requires
        forall|j: int| 0 <= j < rev.len() ==> (#[trigger] rev[j]).0 != id,
    ensures
        rev_remove_first(rev, id) =~= rev,
    decreases rev.len(),
{
    if rev.len() > 0 {
        assert(rev[0].0 != id);
        lemma_rev_remove_first_absent(rev.drop_first(), id);
        assert(seq![rev.first()] + rev.drop_first() =~= rev);
    }
}

/// Errors a registry operation can report.
#[derive(Clone, Copy, Debug, PartialEq, Eq, Structural)]
pub enum RegistryError {
    /// `create_alias` was given a name that already resolves to an id.
    AliasInUse,
}

impl RegistryError {
    /// Human-readable description of the error.
    pub fn describe(&self) -> (r: &'static str)
        ensures
            r@ =~= "alias name already in use"@,
    {
        "alias name already in use"
    }
}

pub struct Registry {
    /// Next id the monotonic counter hands out.
    pub counter: u64,
    /// Ids parked for reuse.
    pub free: Vec<u64>,
    /// Ids released this step, reusable only after `reclaim`.
    pub reclaimed: Vec<u64>,
    /// Whether releases are parked (the default) or reusable at once.
    pub reclaimable: bool,
    /// Alias table: name to id, each name bound at most once.
    pub names: Vec<(String, u64)>,
    /// Reverse alias table: id back to name.
    pub rev_names: Vec<(u64, String)>,
    /// Tag table: name to the group of ids carrying the tag.
    pub tags: Vec<(String, Vec<u64>)>,
}

impl Registry {
    /// An id is live when it has been handed out and neither parked for
    /// reuse nor pending reclaim.
    pub open spec fn is_live(self, id: u64) -> bool {
        &&& 1 <= id < self.counter
        &&& !self.free@.contains(id)
        &&& !self.reclaimed@.contains(id)
    }

    /// Some entry of the alias table carries this name.
    pub open spec fn has_alias(self, name: Seq<char>) -> bool {
        exists|i: int| 0 <= i < self.names@.len() && #[trigger] self.names@[i].0@ == name
    }

    /// Some entry of the tag table carries this name.
    pub open spec fn has_tag(self, name: Seq<char>) -> bool {
        exists|i: int| 0 <= i < self.tags@.len() && #[trigger] self.tags@[i].0@ == name
    }

    /// Structural invariant: every pooled id below the counter, no id
    /// both free and pending, no duplicates in either pool, and each
    /// table keyed at most once per name.
    pub open spec fn wf(self) -> bool {
        &&& 1 <= self.counter
        &&& (forall|i: int|
            0 <= i < self.free@.len() ==> 1 <= #[trigger] self.free@[i] < self.counter)
        &&& (forall|i: int|
            0 <= i < self.reclaimed@.len() ==> 1 <= #[trigger] self.reclaimed@[i] < self.counter)
        &&& (forall|i: int, j: int|
            0 <= i < j < self.free@.len() ==> #[trigger] self.free@[i] != #[trigger] self.free@[j])
        &&& (forall|i: int, j: int|
            0 <= i < j < self.reclaimed@.len() ==> #[trigger] self.reclaimed@[i]
                != #[trigger] self.reclaimed@[j])
        &&& (forall|id: u64|
            #[trigger] self.free@.contains(id) ==> !self.reclaimed@.contains(id))
        &&& (forall|i: int, j: int|
            0 <= i < j < self.names@.len() ==> #[trigger] self.names@[i].0@
                != #[trigger] self.names@[j].0@)
        &&& (forall|i: int, j: int|
            0 <= i < j < self.tags@.len() ==> #[trigger] self.tags@[i].0@
                != #[trigger] self.tags@[j].0@)
    }

    /// Fresh registry: the counter starts at 1 and every table is empty.
    pub fn new() -> (r: Registry)
        ensures
            r.wf(),
            r.counter == 1,
            r.free@ =~= Seq::<u64>::empty(),
            r.reclaimed@ =~= Seq::<u64>::empty(),
            r.reclaimable,
            r.names@ =~= Seq::<(String, u64)>::empty(),
            r.rev_names@ =~= Seq::<(u64, String)>::empty(),
            r.tags@ =~= Seq::<(String, Vec<u64>)>::empty(),
    {
        Registry {
            counter: 1,
            free: Vec::new(),
            reclaimed: Vec::new(),
            reclaimable: true,
            names: Vec::new(),
            rev_names: Vec::new(),
            tags: Vec::new(),
        }
    }

    /// Allocate an identity: the smallest parked id if any is reusable,
    /// else a fresh one from the counter. The result is never an id that
    /// is still live, nor one released but not yet reclaimed.
    #[verifier::loop_isolation(false)]
    pub fn get_id(&mut self) -> (id: u64)
        requires
            old(self).wf(),
            old(self).counter < u64::MAX,
        ensures
            final(self).wf(),
            !old(self).is_live(id),
            !old(self).reclaimed@.contains(id),
            final(self).is_live(id),
            forall|x: u64| old(self).is_live(x) ==> final(self).is_live(x),
            final(self).reclaimed@ =~= old(self).reclaimed@,
            final(self).names@ == old(self).names@,
            final(self).rev_names@ == old(self).rev_names@,
            final(self).tags@ == old(self).tags@,
            final(self).reclaimable == old(self).reclaimable,
            if old(self).free@.len() == 0 {
                &&& id == old(self).counter
                &&& final(self).counter == old(self).counter + 1
                &&& final(self).free@ =~= old(self).free@
            } else {
                &&& old(self).free@.contains(id)
                &&& (forall|i: int|
                    0 <= i < old(self).free@.len() ==> id <= #[trigger] old(self).free@[i])
                &&& final(self).counter == old(self).counter
                &&& !final(self).free@.contains(id)
                &&& final(self).free@.len() == old(self).free@.len() - 1
                &&& (forall|x: u64|
                    #[trigger] final(self).free@.contains(x) ==> old(self).free@.contains(x))
                &&& (forall|x: u64|
                    old(self).free@.contains(x) && x != id
                        ==> #[trigger] final(self).free@.contains(x))
            },
    {
        if self.free.len() == 0 {
            let id = self.counter;
            self.counter = self.counter + 1;
            id
        } else {
            let mut best: usize = 0;
            let mut i: usize = 1;
            while i < self.free.len()
                invariant
                    0 <= best < i <= self.free.len(),
                    forall|j: int| 0 <= j < i ==> self.free@[best as int] <= #[trigger] self.free@[j],
                decreases self.free.len() - i,
            {
                if self.free[i] < self.free[best] {
                    best = i;
                }
                i = i + 1;
            }
            let id = self.free.remove(best);
            proof {
                let pre = old(self).free@;
                let post = self.free@;
                assert(pre.contains(id)) by {
                    assert(pre[best as int] == id);
                }
                assert forall|x: u64| #[trigger] post.contains(x) implies pre.contains(x) by {
                    let k = choose|k: int| 0 <= k < post.len() && post[k] == x;
                    if k < best {
                        assert(pre[k] == x);
                    } else {
                        assert(pre[k + 1] == x);
                    }
                }
                assert forall|x: u64| pre.contains(x) && x != id implies #[trigger] post.contains(
                    x,
                ) by {
                    let k = choose|k: int| 0 <= k < pre.len() && pre[k] == x;
                    if k < best {
                        assert(post[k] == x);
                    } else if k > best {
                        assert(post[k - 1] == x);
                    }
                }
                assert(!post.contains(id)) by {
                    if post.contains(id) {
                        let k = choose|k: int| 0 <= k < post.len() && post[k] == id;
                        if k < best {
                            assert(pre[k] == id);
                            assert(pre[best as int] == id);
                        } else {
                            assert(pre[k + 1] == id);
                            assert(pre[best as int] == id);
                        }
                    }
                }
                assert forall|a: int, b: int| 0 <= a < b < post.len() implies #[trigger] post[a]
                    != #[trigger] post[b] by {
                    let oa: int = if a < best { a } else { a + 1 };
                    let ob: int = if b < best { b } else { b + 1 };
                    assert(pre[oa] == post[a]);
                    assert(pre[ob] == post[b]);
                }
                assert forall|k: int| 0 <= k < post.len() implies 1 <= #[trigger] post[k]
                    < self.counter by {
                    if k < best {
                        assert(pre[k] == post[k]);
                    } else {
                        assert(pre[k + 1] == post[k]);
                    }
                }
            }
            id
        }
    }

    /// Release an identity. Under deferred reclaim (the default) the id
    /// is parked until `reclaim`; otherwise it is reusable at once.
    /// Releasing an id that is not live is a use-after-free in the
    /// caller, so it is excluded here.
    pub fn return_id(&mut self, id: u64)
        requires
            old(self).wf(),
            old(self).is_live(id),
        ensures
            final(self).wf(),
            !final(self).is_live(id),
            forall|x: u64| old(self).is_live(x) && x != id ==> final(self).is_live(x),
            forall|x: u64| final(self).is_live(x) ==> old(self).is_live(x),
            final(self).counter == old(self).counter,
            final(self).names@ == old(self).names@,
            final(self).rev_names@ == old(self).rev_names@,
            final(self).tags@ == old(self).tags@,
            final(self).reclaimable == old(self).reclaimable,
            if old(self).reclaimable {
                &&& final(self).reclaimed@ =~= old(self).reclaimed@.push(id)
                &&& final(self).free@ =~= old(self).free@
            } else {
                &&& final(self).free@ =~= old(self).free@.push(id)
                &&& final(self).reclaimed@ =~= old(self).reclaimed@
            },
    {
        if self.reclaimable {
            self.reclaimed.push(id);
            proof {
                let post = self.reclaimed@;
                let pre = old(self).reclaimed@;
                assert forall|a: int, b: int| 0 <= a < b < post.len() implies #[trigger] post[a]
                    != #[trigger] post[b] by {
                    if b == post.len() - 1 {
                        assert(pre.contains(pre[a]));
                    }
                }
            }
        } else {
            self.free.push(id);
            proof {
                let post = self.free@;
                let pre = old(self).free@;
                assert forall|a: int, b: int| 0 <= a < b < post.len() implies #[trigger] post[a]
                    != #[trigger] post[b] by {
                    if b == post.len() - 1 {
                        assert(pre.contains(pre[a]));
                    }
                }
            }
        }
    }

    /// Move every pending id into the reusable pool. The simulation calls
    /// this exactly once per step, after deferred event delivery.
    pub fn reclaim(&mut self)
        requires
            old(self).wf(),
        ensures
            final(self).wf(),
            final(self).free@ =~= old(self).free@ + old(self).reclaimed@,
            final(self).reclaimed@ =~= Seq::<u64>::empty(),
            final(self).counter == old(self).counter,
            final(self).names@ == old(self).names@,
            final(self).rev_names@ == old(self).rev_names@,
            final(self).tags@ == old(self).tags@,
            final(self).reclaimable == old(self).reclaimable,
    {
        self.free.append(&mut self.reclaimed);
        proof {
            let pre_f = old(self).free@;
            let pre_r = old(self).reclaimed@;
            let post = self.free@;
            assert forall|a: int, b: int| 0 <= a < b < post.len() implies #[trigger] post[a]
                != #[trigger] post[b] by {
                let nf = pre_f.len() as int;
                if b < nf {
                } else if a >= nf {
                    assert(pre_r[a - nf] == post[a]);
                    assert(pre_r[b - nf] == post[b]);
                } else {
                    assert(pre_f.contains(post[a])) by {
                        assert(pre_f[a] == post[a]);
                    }
                    assert(pre_r[b - nf] == post[b]);
                    assert(pre_r.contains(post[b]));
                }
            }
        }
    }

    /// Switch to immediate reuse, first reclaiming anything pending.
    pub fn no_reclaim(&mut self)
        requires
            old(self).wf(),
        ensures
            final(self).wf(),
            !final(self).reclaimable,
            final(self).free@ =~= old(self).free@ + old(self).reclaimed@,
            final(self).reclaimed@ =~= Seq::<u64>::empty(),
            final(self).counter == old(self).counter,
            final(self).names@ == old(self).names@,
            final(self).rev_names@ == old(self).rev_names@,
            final(self).tags@ == old(self).tags@,
    {
        self.reclaim();
        self.reclaimable = false;
    }

    /// Bind a name to an id. A name may resolve to at most one id at a
    /// time, so a name already bound is reported as an error and nothing
    /// changes. The reverse table follows the latest binding: any earlier
    /// binding of this id is dropped before the new one is appended, so
    /// the id now resolves back to this name.
    #[verifier::loop_isolation(false)]
    pub fn create_alias(&mut self, name: String, id: u64) -> (r: Result<(), RegistryError>)
        requires
            old(self).wf(),
        ensures
            final(self).wf(),
            r is Ok <==> !old(self).has_alias(name@),
            r is Ok ==> final(self).names@ =~= old(self).names@.push((name, id)),
            r is Ok ==> final(self).rev_names@ =~= rev_without(old(self).rev_names@, id).push(
                (id, name),
            ),
            r is Ok ==> rev_alias_first(final(self).rev_names@, id) == Some(name@),
            r is Err ==> final(self).names@ == old(self).names@,
            r is Err ==> final(self).rev_names@ == old(self).rev_names@,
            final(self).free@ == old(self).free@,
            final(self).reclaimed@ == old(self).reclaimed@,
            final(self).counter == old(self).counter,
            final(self).tags@ == old(self).tags@,
            final(self).reclaimable == old(self).reclaimable,
    {
        let mut i: usize = 0;
        while i < self.names.len()
            invariant
                forall|j: int| 0 <= j < i ==> #[trigger] self.names@[j].0@ != name@,
                i <= self.names.len(),
            decreases self.names.len() - i,
        {
            if self.names[i].0 == name {
                proof {
                    assert(self.names@[i as int].0@ == name@);
                }
                return Err(RegistryError::AliasInUse);
            }
            i = i + 1;
        }
        let ghost all_rev = old(self).rev_names@;
        let mut olds_rev: Vec<(u64, String)> = Vec::new();
        core::mem::swap(&mut olds_rev, &mut self.rev_names);
        proof {
            assert(self.rev_names@ + rev_without(olds_rev@, id) =~= rev_without(all_rev, id)) by {
                assert(self.rev_names@ =~= Seq::<(u64, String)>::empty());
                assert(olds_rev@ =~= all_rev);
            }
        }
        while olds_rev.len() > 0
            invariant
                *self == (Registry { rev_names: self.rev_names, ..*old(self) }),
                self.rev_names@ + rev_without(olds_rev@, id) =~= rev_without(all_rev, id),
            decreases olds_rev@.len(),
        {
            let ghost pre = olds_rev@;
            let e = olds_rev.remove(0);
            proof {
                assert(pre.first() == e);
                assert(pre.drop_first() =~= olds_rev@);
            }
            if e.0 != id {
                self.rev_names.push(e);
            }
        }
        proof {
            assert(rev_without(olds_rev@, id) =~= Seq::<(u64, String)>::empty());
            assert(self.rev_names@ =~= rev_without(all_rev, id));
        }
        let rev_entry = (id, name.clone());
        self.names.push((name, id));
        self.rev_names.push(rev_entry);
        proof {
            let post = self.names@;
            let pre = old(self).names@;
            assert forall|a: int, b: int| 0 <= a < b < post.len() implies #[trigger] post[a].0@
                != #[trigger] post[b].0@ by {
                if b == post.len() - 1 {
                    assert(pre[a].0@ != name@);
                }
            }
            lemma_rev_without_clears(all_rev, id);
            lemma_rev_first_after_clear(rev_without(all_rev, id), (id, name), id);
            assert(self.rev_names@ =~= rev_without(all_rev, id).push((id, name)));
        }
        Ok(())
    }

    /// Look a name up in the alias table.
    #[verifier::loop_isolation(false)]
    pub fn get_aliased_id(&self, name: &String) -> (r: Option<u64>)
        requires
            self.wf(),
        ensures
            match r {
                Some(id) => exists|i: int|
                    0 <= i < self.names@.len() && #[trigger] self.names@[i].0@ == name@
                        && self.names@[i].1 == id,
                None => !self.has_alias(name@),
            },
    {
        let mut i: usize = 0;
        while i < self.names.len()
            invariant
                forall|j: int| 0 <= j < i ==> #[trigger] self.names@[j].0@ != name@,
                i <= self.names.len(),
            decreases self.names.len() - i,
        {
            if self.names[i].0 == *name {
                proof {
                    assert(self.names@[i as int].0@ == name@);
                }
                return Some(self.names[i].1);
            }
            i = i + 1;
        }
        None
    }

    /// Look an id up in the reverse alias table.
    #[verifier::loop_isolation(false)]
    pub fn get_aliased_string(&self, id: u64) -> (r: Option<String>)
        requires
            self.wf(),
        ensures
            match r {
                Some(name) => rev_alias_first(self.rev_names@, id) == Some(name@),
                None => rev_alias_first(self.rev_names@, id) is None,
            },
    {
        let mut i: usize = 0;
        while i < self.rev_names.len()
            invariant
                i <= self.rev_names.len(),
                rev_alias_first(self.rev_names@, id) == rev_alias_first(
                    self.rev_names@.skip(i as int),
                    id,
                ),
            decreases self.rev_names.len() - i,
        {
            proof {
                assert(self.rev_names@.skip(i as int).first() == self.rev_names@[i as int]);
                assert(self.rev_names@.skip(i as int).drop_first() =~= self.rev_names@.skip(
                    i as int + 1,
                ));
            }
            if self.rev_names[i].0 == id {
                return Some(self.rev_names[i].1.clone());
            }
            i = i + 1;
        }
        proof {
            assert(self.rev_names@.skip(self.rev_names@.len() as int) =~= Seq::<(
                u64,
                String,
            )>::empty());
        }
        None
    }

    /// Drop a name binding, from both directions of the alias table: the
    /// name's entry leaves the forward table, and the first reverse
    /// binding of the id it resolved to leaves the reverse table. An
    /// unknown name changes nothing.
    #[verifier::loop_isolation(false)]
    pub fn remove_alias(&mut self, name: &String)
        requires
            old(self).wf(),
        ensures
            final(self).wf(),
            !final(self).has_alias(name@),
            !old(self).has_alias(name@) ==> *final(self) == *old(self),
            old(self).has_alias(name@) ==> ({
                let i = choose|i: int|
                    0 <= i < old(self).names@.len() && #[trigger] old(self).names@[i].0@ == name@;
                &&& final(self).names@ =~= old(self).names@.remove(i)
                &&& final(self).rev_names@ =~= rev_remove_first(
                    old(self).rev_names@,
                    old(self).names@[i].1,
                )
            }),
            forall|i: int|
                0 <= i < final(self).names@.len() ==> old(self).names@.contains(
                    #[trigger] final(self).names@[i],
                ),
            forall|i: int|
                0 <= i < old(self).names@.len() && #[trigger] old(self).names@[i].0@ != name@
                    ==> final(self).names@.contains(old(self).names@[i]),
            final(self).free@ == old(self).free@,
            final(self).reclaimed@ == old(self).reclaimed@,
            final(self).counter == old(self).counter,
            final(self).tags@ == old(self).tags@,
            final(self).reclaimable == old(self).reclaimable,
    {
        let mut i: usize = 0;
        let mut found: bool = false;
        while i < self.names.len()
            invariant
                forall|j: int| 0 <= j < i ==> #[trigger] self.names@[j].0@ != name@,
                i <= self.names.len(),
                !found,
            decreases self.names.len() - i,
        {
            if self.names[i].0 == *name {
                found = true;
                break ;
            }
            i = i + 1;
        }
        if !found {
            return ;
        }
        let (_, id) = self.names.remove(i);
        proof {
            let pre = old(self).names@;
            let post = self.names@;
            assert(pre[i as int].0@ == name@);
            assert forall|k: int| 0 <= k < post.len() implies pre.contains(#[trigger] post[k]) by {
                if k < i {
                    assert(pre[k] == post[k]);
                } else {
                    assert(pre[k + 1] == post[k]);
                }
            }
            assert forall|k: int|
                0 <= k < pre.len() && #[trigger] pre[k].0@ != name@ implies post.contains(
                pre[k],
            ) by {
                if k < i {
                    assert(post[k] == pre[k]);
                } else if k > i {
                    assert(post[k - 1] == pre[k]);
                }
            }
            assert forall|k: int| 0 <= k < post.len() implies #[trigger] post[k].0@ != name@ by {
                if k >= i {
                    assert(post[k] == pre[k + 1]);
                }
            }
            assert forall|a: int, b: int| 0 <= a < b < post.len() implies #[trigger] post[a].0@
                != #[trigger] post[b].0@ by {
                let oa: int = if a < i { a } else { a + 1 };
                let ob: int = if b < i { b } else { b + 1 };
                assert(pre[oa] == post[a]);
                assert(pre[ob] == post[b]);
            }
            let ci = choose|c: int|
                0 <= c < old(self).names@.len() && #[trigger] old(self).names@[c].0@ == name@;
            if ci != i as int {
                if ci < i as int {
                    assert(pre[ci].0@ != pre[i as int].0@);
                } else {
                    assert(pre[i as int].0@ != pre[ci].0@);
                }
            }
            assert(ci == i as int);
            assert(post =~= pre.remove(i as int));
            assert(id == pre[i as int].1);
        }
        let ghost mid = *self;
        let mut k: usize = 0;
        while k < self.rev_names.len()
            invariant
                k <= self.rev_names.len(),
                self.counter == mid.counter,
                self.free == mid.free,
                self.reclaimed == mid.reclaimed,
                self.reclaimable == mid.reclaimable,
                self.names == mid.names,
                self.tags == mid.tags,
                self.rev_names == mid.rev_names,
                forall|j: int| 0 <= j < k ==> (#[trigger] self.rev_names@[j]).0 != id,
            decreases self.rev_names.len() - k,
        {
            if self.rev_names[k].0 == id {
                proof {
                    lemma_rev_remove_first_at(mid.rev_names@, id, k as int);
                }
                self.rev_names.remove(k);
                return ;
            }
            k = k + 1;
        }
        proof {
            lemma_rev_remove_first_absent(mid.rev_names@, id);
        }
    }

    /// Add an id to a tag group, creating the group on first use. An id
    /// already in the group is not added again, and no other group is
    /// touched.
    #[verifier::loop_isolation(false)]
    pub fn tag_id(&mut self, id: u64, tag: String)
        requires
            old(self).wf(),
        ensures
            final(self).wf(),
            final(self).has_tag(tag@),
            final(self).free@ == old(self).free@,
            final(self).reclaimed@ == old(self).reclaimed@,
            final(self).counter == old(self).counter,
            final(self).names@ == old(self).names@,
            final(self).rev_names@ == old(self).rev_names@,
            final(self).reclaimable == old(self).reclaimable,
            exists|i: int|
                0 <= i < final(self).tags@.len() && #[trigger] final(self).tags@[i].0@ == tag@
                    && final(self).tags@[i].1@.contains(id),
            forall|j: int|
                0 <= j < old(self).tags@.len() && (#[trigger] old(self).tags@[j]).0@ != tag@
                    ==> final(self).tags@.contains(old(self).tags@[j]),
            forall|j: int|
                0 <= j < old(self).tags@.len() && (#[trigger] old(self).tags@[j]).0@ == tag@
                    ==> exists|k: int|
                    0 <= k < final(self).tags@.len() && (#[trigger] final(self).tags@[k]).0
                        == old(self).tags@[j].0 && (final(self).tags@[k].1@ == old(
                        self,
                    ).tags@[j].1@ || final(self).tags@[k].1@ == old(self).tags@[j].1@.push(id)),
            (exists|i: int|
                0 <= i < old(self).tags@.len() && (#[trigger] old(self).tags@[i]).0@ == tag@
                    && old(self).tags@[i].1@.contains(id)) ==> final(self).tags@ == old(
                self,
            ).tags@,
            old(self).has_tag(tag@) ==> final(self).tags@.len() == old(self).tags@.len(),
            !old(self).has_tag(tag@) ==> final(self).tags@.len() == old(self).tags@.len() + 1,
    {
        let mut i: usize = 0;
        while i < self.tags.len()
            invariant
                forall|j: int| 0 <= j < i ==> #[trigger] self.tags@[j].0@ != tag@,
                i <= self.tags.len(),
                *self == *old(self),
            decreases self.tags.len() - i,
        {
            if self.tags[i].0 == tag {
                let mut k: usize = 0;
                let n = self.tags[i].1.len();
                while k < n
                    invariant
                        k <= n == self.tags@[i as int].1.len(),
                        0 <= i < self.tags.len(),
                        forall|j: int| 0 <= j < k ==> #[trigger] self.tags@[i as int].1@[j] != id,
                    decreases n - k,
                {
                    if self.tags[i].1[k] == id {
                        proof {
                            assert(self.tags@[i as int].0@ == tag@);
                            assert(self.tags@[i as int].1@.contains(id)) by {
                                assert(self.tags@[i as int].1@[k as int] == id);
                            }
                            assert forall|j: int|
                                0 <= j < old(self).tags@.len() && (
                                #[trigger] old(self).tags@[j]).0@ != tag@ implies self.tags@.contains(
                                old(self).tags@[j],
                            ) by {
                                assert(self.tags@[j] == old(self).tags@[j]);
                            }
                        }
                        return ;
                    }
                    k = k + 1;
                }
                let key = self.tags[i].0.clone();
                let mut ids = self.tags[i].1.clone();
                ids.push(id);
                self.tags[i] = (key, ids);
                proof {
                    let post = self.tags@;
                    let pre = old(self).tags@;
                    assert(post[i as int].0@ == tag@);
                    assert(post[i as int].1@.contains(id)) by {
                        assert(post[i as int].1@.last() == id);
                    }
                    assert forall|a: int, b: int|
                        0 <= a < b < post.len() implies #[trigger] post[a].0@
                        != #[trigger] post[b].0@ by {
                        assert(pre[a].0@ == post[a].0@);
                        assert(pre[b].0@ == post[b].0@);
                    }
                    assert forall|j: int|
                        0 <= j < pre.len() && (#[trigger] pre[j]).0@ != tag@ implies post.contains(
                        pre[j],
                    ) by {
                        assert(post[j] == pre[j]);
                    }
                    assert forall|j: int|
                        0 <= j < pre.len() && (#[trigger] pre[j]).0@ == tag@ implies exists|k: int|
                        0 <= k < post.len() && (#[trigger] post[k]).0 == pre[j].0 && (post[k].1@
                            == pre[j].1@ || post[k].1@ == pre[j].1@.push(id)) by {
                        if j == i {
                            assert(post[i as int].0 == pre[i as int].0);
                            assert(post[i as int].1@ == pre[i as int].1@.push(id));
                        } else {
                            assert(pre[j].0@ == tag@ && pre[i as int].0@ == tag@);
                        }
                    }
                    if exists|w: int|
                        0 <= w < pre.len() && (#[trigger] pre[w]).0@ == tag@ && pre[w].1@.contains(
                        id,
                    ) {
                        let w = choose|w: int|
                            0 <= w < pre.len() && (#[trigger] pre[w]).0@ == tag@
                                && pre[w].1@.contains(id);
                        assert(w == i);
                        let v = choose|v: int|
                            0 <= v < pre[i as int].1@.len() && pre[i as int].1@[v] == id;
                        assert(false);
                    }
                }
                return ;
            }
            i = i + 1;
        }
        let mut ids: Vec<u64> = Vec::new();
        ids.push(id);
        self.tags.push((tag, ids));
        proof {
            let post = self.tags@;
            let pre = old(self).tags@;
            let n = post.len() - 1;
            assert(post[n].0@ == tag@);
            assert(post[n].1@.contains(id)) by {
                assert(post[n].1@[0] == id);
            }
            assert forall|a: int, b: int| 0 <= a < b < post.len() implies #[trigger] post[a].0@
                != #[trigger] post[b].0@ by {
                if b == n {
                    assert(pre[a].0@ != tag@);
                }
            }
            assert forall|j: int|
                0 <= j < pre.len() && (#[trigger] pre[j]).0@ != tag@ implies post.contains(
                pre[j],
            ) by {
                assert(post[j] == pre[j]);
            }
        }
    }

    /// Remove an id from a tag group, if the group exists and holds it.
    #[verifier::loop_isolation(false)]
    pub fn untag_id(&mut self, id: u64, tag: &String)
        requires
            old(self).wf(),
        ensures
            final(self).wf(),
            final(self).free@ == old(self).free@,
            final(self).reclaimed@ == old(self).reclaimed@,
            final(self).counter == old(self).counter,
            final(self).names@ == old(self).names@,
            final(self).rev_names@ == old(self).rev_names@,
            final(self).reclaimable == old(self).reclaimable,
            forall|i: int|
                0 <= i < final(self).tags@.len() && #[trigger] final(self).tags@[i].0@ == tag@
                    ==> !final(self).tags@[i].1@.contains(id),
    {
        let mut i: usize = 0;
        while i < self.tags.len()
            invariant
                forall|j: int| 0 <= j < i ==> #[trigger] self.tags@[j].0@ != tag@,
                i <= self.tags.len(),
                *self == *old(self),
            decreases self.tags.len() - i,
        {
            if self.tags[i].0 == *tag {
                let key = self.tags[i].0.clone();
                let old_ids = self.tags[i].1.clone();
                let mut out: Vec<u64> = Vec::new();
                let mut k: usize = 0;
                while k < old_ids.len()
                    invariant
                        k <= old_ids.len(),
                        !out@.contains(id),
                    decreases old_ids.len() - k,
                {
                    let v = old_ids[k];
                    if v != id {
                        out.push(v);
                    }
                    k = k + 1;
                }
                self.tags[i] = (key, out);
                proof {
                    let post = self.tags@;
                    let pre = old(self).tags@;
                    assert forall|a: int, b: int|
                        0 <= a < b < post.len() implies #[trigger] post[a].0@
                        != #[trigger] post[b].0@ by {
                        assert(pre[a].0@ == post[a].0@);
                        assert(pre[b].0@ == post[b].0@);
                    }
                    assert forall|j: int|
                        0 <= j < post.len() && #[trigger] post[j].0@ == tag@ implies !post[j].1@.contains(
                        id,
                    ) by {
                        if j != i {
                            assert(pre[j].0@ == post[j].0@);
                            if j < i {
                                assert(pre[j].0@ != tag@);
                            } else {
                                assert(pre[i as int].0@ == tag@);
                            }
                        }
                    }
                }
                return ;
            }
            i = i + 1;
        }
    }

    /// The ids currently in a tag group, or `None` for an unknown tag.
    #[verifier::loop_isolation(false)]
    pub fn get_tagged(&self, tag: &String) -> (r: Option<Vec<u64>>)
        requires
            self.wf(),
        ensures
            match r {
                Some(ids) => exists|i: int|
                    0 <= i < self.tags@.len() && #[trigger] self.tags@[i].0@ == tag@
                        && self.tags@[i].1@ == ids@,
                None => !self.has_tag(tag@),
            },
    {
        let mut i: usize = 0;
        while i < self.tags.len()
            invariant
                forall|j: int| 0 <= j < i ==> #[trigger] self.tags@[j].0@ != tag@,
                i <= self.tags.len(),
            decreases self.tags.len() - i,
        {
            if self.tags[i].0 == *tag {
                let ids = self.tags[i].1.clone();
                proof {
                    assert(self.tags@[i as int].0@ == tag@);
                }
                return Some(ids);
            }
            i = i + 1;
        }
        None
    }

    /// Remove a whole tag group, returning its ids if it existed.
    #[verifier::loop_isolation(false)]
    pub fn remove_tagged(&mut self, tag: &String) -> (r: Option<Vec<u64>>)
        requires
            old(self).wf(),
        ensures
            final(self).wf(),
            !final(self).has_tag(tag@),
            final(self).free@ == old(self).free@,
            final(self).reclaimed@ == old(self).reclaimed@,
            final(self).counter == old(self).counter,
            final(self).names@ == old(self).names@,
            final(self).rev_names@ == old(self).rev_names@,
            final(self).reclaimable == old(self).reclaimable,
            match r {
                Some(ids) => exists|i: int|
                    0 <= i < old(self).tags@.len() && #[trigger] old(self).tags@[i].0@ == tag@
                        && old(self).tags@[i].1@ == ids@,
                None => !old(self).has_tag(tag@),
            },
    {
        let mut i: usize = 0;
        let mut found: bool = false;
        while i < self.tags.len()
            invariant
                forall|j: int| 0 <= j < i ==> #[trigger] self.tags@[j].0@ != tag@,
                i <= self.tags.len(),
                !found,
            decreases self.tags.len() - i,
        {
            if self.tags[i].0 == *tag {
                found = true;
                break ;
            }
            i = i + 1;
        }
        if !found {
            return None;
        }
        let (_, ids) = self.tags.remove(i);
        proof {
            let pre = old(self).tags@;
            let post = self.tags@;
            assert(pre[i as int].0@ == tag@);
            assert forall|a: int, b: int| 0 <= a < b < post.len() implies #[trigger] post[a].0@
                != #[trigger] post[b].0@ by {
                let oa: int = if a < i { a } else { a + 1 };
                let ob: int = if b < i { b } else { b + 1 };
                assert(pre[oa] == post[a]);
                assert(pre[ob] == post[b]);
            }
            assert forall|j: int| 0 <= j < post.len() implies #[trigger] post[j].0@ != tag@ by {
                if j >= i {
                    assert(post[j] == pre[j + 1]);
                }
            }
        }
        Some(ids)
    }
}


/// Law: an id released this step is not reusable before `reclaim` runs.
/// While it is pending, it is in neither source the allocator draws
/// from — the free pool or the fresh counter — so `get_id` cannot
/// return it.
pub proof fn lemma_pending_id_not_reusable(r: Registry, id: u64)
    requires
        r.wf(),
        r.reclaimed@.contains(id),
    ensures
        !r.free@.contains(id),
        id < r.counter,
{
    let w = choose|w: int| 0 <= w < r.reclaimed@.len() && r.reclaimed@[w] == id;
    assert(1 <= r.reclaimed@[w] < r.counter);
}

} // verus!
