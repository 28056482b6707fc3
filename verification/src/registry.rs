//! The subscriber registry: an ordered set of subscriber identifiers
//! mutated only through idempotent add and remove, read through full
//! copies.  The order of insertion is kept so that persisted snapshots
//! round-trip deterministically.

use vstd::prelude::*;

verus! {

/// No identifier occurs twice.
pub open spec fn distinct_ids(s: Seq<i64>) -> bool {
    forall|i: int, j: int| 0 <= i < j < s.len() ==> s[i] != s[j]
}

/// The sequence after an add: unchanged when the id is already present,
/// otherwise the id appended at the end.
pub open spec fn add_id(s: Seq<i64>, id: i64) -> Seq<i64> {
    if s.contains(id) {
        s
    } else {
        s.push(id)
    }
}

/// The sequence after a remove: the first occurrence of the id taken out,
/// unchanged when the id is absent.
pub open spec fn remove_id(s: Seq<i64>, id: i64) -> Seq<i64>
    decreases s.len(),
{
    if s.len() == 0 {
        s
    } else if s[0] == id {
        s.drop_first()
    } else {
        seq![s[0]] + remove_id(s.drop_first(), id)
    }
}

/// One command against the registry.
pub enum RegistryOp {
    Add(i64),
    Remove(i64),
}

/// The effect of one command on the sequence of subscribers.
pub open spec fn apply_op(s: Seq<i64>, op: RegistryOp) -> Seq<i64> {
    match op {
        RegistryOp::Add(id) => add_id(s, id),
        RegistryOp::Remove(id) => remove_id(s, id),
    }
}

/// The net effect of a sequence of commands, applied in submission order.
pub open spec fn apply_ops(s: Seq<i64>, ops: Seq<RegistryOp>) -> Seq<i64>
    decreases ops.len(),
{
    if ops.len() == 0 {
        s
    } else {
        apply_ops(apply_op(s, ops[0]), ops.drop_first())
    }
}

/// Removing an id keeps every other id and drops every occurrence-free id;
/// in particular it keeps the ids distinct and never invents an id.
proof fn lemma_remove_id_contains(s: Seq<i64>, id: i64, x: i64)
    ensures
        x != id ==> (remove_id(s, id).contains(x) <==> s.contains(x)),
        remove_id(s, id).contains(x) ==> s.contains(x),
    decreases s.len(),
{
    if s.len() == 0 {
    } else if s[0] == id {
        assert(forall|y: i64| s.drop_first().contains(y) ==> s.contains(y));
        if x != id && s.contains(x) {
            let k = choose|k: int| 0 <= k < s.len() && s[k] == x;
            assert(s.drop_first()[k - 1] == x);
        }
    } else {
        lemma_remove_id_contains(s.drop_first(), id, x);
        let r = seq![s[0]] + remove_id(s.drop_first(), id);
        if r.contains(x) {
            let k = choose|k: int| 0 <= k < r.len() && r[k] == x;
            if k == 0 {
                assert(s[0] == x);
            } else {
                assert(remove_id(s.drop_first(), id)[k - 1] == x);
            }
        }
        if x != id && s.contains(x) {
            let k = choose|k: int| 0 <= k < s.len() && s[k] == x;
            if k == 0 {
                assert(r[0] == x);
            } else {
                assert(s.drop_first()[k - 1] == x);
                assert(remove_id(s.drop_first(), id).contains(x));
                let m = choose|m: int|
                    0 <= m < remove_id(s.drop_first(), id).len() && remove_id(
                        s.drop_first(),
                        id,
                    )[m] == x;
                assert(r[m + 1] == x);
            }
        }
    }
}

/// A remove keeps the remaining ids distinct.
proof fn lemma_remove_id_distinct(s: Seq<i64>, id: i64)
    requires
        distinct_ids(s),
    ensures
        distinct_ids(remove_id(s, id)),
    decreases s.len(),
{
    if s.len() == 0 {
    } else if s[0] == id {
        assert forall|i: int, j: int|
            0 <= i < j < s.drop_first().len() implies s.drop_first()[i] != s.drop_first()[j] by {
            assert(s.drop_first()[i] == s[i + 1]);
            assert(s.drop_first()[j] == s[j + 1]);
        }
    } else {
        assert forall|i: int, j: int|
            0 <= i < j < s.drop_first().len() implies s.drop_first()[i] != s.drop_first()[j] by {
            assert(s.drop_first()[i] == s[i + 1]);
            assert(s.drop_first()[j] == s[j + 1]);
        }
        lemma_remove_id_distinct(s.drop_first(), id);
        let r = seq![s[0]] + remove_id(s.drop_first(), id);
        assert forall|i: int, j: int| 0 <= i < j < r.len() implies r[i] != r[j] by {
            if i == 0 {
                assert(r[j] == remove_id(s.drop_first(), id)[j - 1]);
                assert(remove_id(s.drop_first(), id).contains(r[j]));
                lemma_remove_id_contains(s.drop_first(), id, r[j]);
                assert(s.drop_first().contains(r[j]));
                let k = choose|k: int|
                    0 <= k < s.drop_first().len() && s.drop_first()[k] == r[j];
                assert(s[k + 1] == r[j]);
            } else {
                assert(r[i] == remove_id(s.drop_first(), id)[i - 1]);
                assert(r[j] == remove_id(s.drop_first(), id)[j - 1]);
            }
        }
    }
}

/// An add keeps the ids distinct.
proof fn lemma_add_id_distinct(s: Seq<i64>, id: i64)
    requires
        distinct_ids(s),
    ensures
        distinct_ids(add_id(s, id)),
{
    if !s.contains(id) {
        let r = s.push(id);
        assert forall|i: int, j: int| 0 <= i < j < r.len() implies r[i] != r[j] by {
            if j == r.len() - 1 {
                assert(r[i] == s[i]);
            }
        }
    }
}

/// Whatever commands are submitted in whatever order, the subscriber set
/// never holds a duplicate id.
pub proof fn lemma_ops_keep_ids_distinct(s: Seq<i64>, ops: Seq<RegistryOp>)
    requires
        distinct_ids(s),
    ensures
        distinct_ids(apply_ops(s, ops)),
    decreases ops.len(),
{
    if ops.len() > 0 {
        match ops[0] {
            RegistryOp::Add(id) => lemma_add_id_distinct(s, id),
            RegistryOp::Remove(id) => lemma_remove_id_distinct(s, id),
        }
        lemma_ops_keep_ids_distinct(apply_op(s, ops[0]), ops.drop_first());
    }
}

/// The live subscriber set.  All mutation goes through `add` and `remove`;
/// readers take a full copy through `snapshot`, so no caller ever observes
/// a partial mutation.
pub struct SubscriberRegistry {
    ids: Vec<i64>,
}

impl SubscriberRegistry {
    /// The ids currently subscribed, in insertion order.
    pub closed spec fn view(&self) -> Seq<i64> {
        self.ids@
    }

    /// The registry invariant: no id is held twice.
    pub closed spec fn wf(&self) -> bool {
        distinct_ids(self.ids@)
    }

    /// An empty registry.
    pub fn new() -> (r: SubscriberRegistry)
        ensures
            r.wf(),
            r@ == Seq::<i64>::empty(),
    {
        SubscriberRegistry { ids: Vec::new() }
    }

    /// A registry loaded from a stored snapshot; duplicate ids in the
    /// stored copy are dropped, keeping the first occurrence of each.
    pub fn from_ids(ids: Vec<i64>) -> (r: SubscriberRegistry)
        ensures
            r.wf(),
            r@ == apply_ops(
                Seq::<i64>::empty(),
                ids@.map_values(|id: i64| RegistryOp::Add(id)),
            ),
    {
        let ops = Ghost(ids@.map_values(|id: i64| RegistryOp::Add(id)));
        let mut r = SubscriberRegistry::new();
        let mut i: usize = 0;
        while i < ids.len()
            invariant
                i <= ids.len(),
                r.wf(),
                ops@ == ids@.map_values(|id: i64| RegistryOp::Add(id)),
                r@ == apply_ops(Seq::<i64>::empty(), ops@.subrange(0, i as int)),
            decreases ids.len() - i,
        {
            let ghost pre = ops@.subrange(0, i as int);
            r.add(ids[i]);
            proof {
                lemma_apply_ops_snoc(Seq::<i64>::empty(), pre, RegistryOp::Add(ids@[i as int]));
                assert(pre.push(RegistryOp::Add(ids@[i as int])) =~= ops@.subrange(
                    0,
                    i + 1 as int,
                ));
            }
            i = i + 1;
        }
        proof {
            assert(ops@.subrange(0, ops@.len() as int) =~= ops@);
        }
        r
    }

    /// Whether the id is currently subscribed.
    pub fn contains(&self, id: i64) -> (r: bool)
        ensures
            r == self@.contains(id),
    {
        let mut i: usize = 0;
        while i < self.ids.len()
            invariant
                i <= self.ids@.len(),
                forall|j: int| 0 <= j < i ==> self.ids@[j] != id,
            decreases self.ids@.len() - i,
        {
            if self.ids[i] == id {
                return true;
            }
            i = i + 1;
        }
        false
    }

    /// Subscribes the id.  Returns true when the id was newly added; when
    /// it was already present the set is left untouched and no snapshot
    /// needs to be written.
    pub fn add(&mut self, id: i64) -> (added: bool)
        requires
            old(self).wf(),
        ensures
            final(self).wf(),
            added == !old(self)@.contains(id),
            final(self)@ == add_id(old(self)@, id),
    {
        if self.contains(id) {
            false
        } else {
            proof {
                lemma_add_id_distinct(self.ids@, id);
            }
            self.ids.push(id);
            true
        }
    }

    /// Unsubscribes the id.  Returns true when the id was present; when it
    /// was absent this is a no-op and no snapshot needs to be written.
    pub fn remove(&mut self, id: i64) -> (removed: bool)
        requires
            old(self).wf(),
        ensures
            final(self).wf(),
            removed == old(self)@.contains(id),
            final(self)@ == remove_id(old(self)@, id),
    {
        let mut i: usize = 0;
        while i < self.ids.len()
            invariant
                *self == *old(self),
                old(self).wf(),
                i <= self.ids@.len(),
                forall|j: int| 0 <= j < i ==> self.ids@[j] != id,
            decreases self.ids@.len() - i,
        {
            if self.ids[i] == id {
                proof {
                    lemma_remove_id_distinct(self.ids@, id);
                    lemma_remove_id_at(self.ids@, id, i as int);
                }
                self.ids.remove(i);
                return true;
            }
            i = i + 1;
        }
        proof {
            lemma_remove_id_absent(self.ids@, id);
        }
        false
    }

    /// A point-in-time copy of the subscriber set, safe to iterate without
    /// holding the registry.
    pub fn snapshot(&self) -> (r: Vec<i64>)
        ensures
            r@ == self@,
    {
        let mut r: Vec<i64> = Vec::new();
        let mut i: usize = 0;
        while i < self.ids.len()
            invariant
                i <= self.ids@.len(),
                r@ == self.ids@.subrange(0, i as int),
            decreases self.ids@.len() - i,
        {
            r.push(self.ids[i]);
            proof {
                assert(self.ids@.subrange(0, i as int).push(self.ids@[i as int])
                    =~= self.ids@.subrange(0, i + 1 as int));
            }
            i = i + 1;
        }
        proof {
            assert(self.ids@.subrange(0, self.ids@.len() as int) =~= self.ids@);
        }
        r
    }

    /// How many subscribers are held.
    pub fn len(&self) -> (n: usize)
        ensures
            n == self@.len(),
    {
        self.ids.len()
    }
}

/// Removing an id that is not present leaves the sequence as it was.
proof fn lemma_remove_id_absent(s: Seq<i64>, id: i64)
    requires
        !s.contains(id),
    ensures
        remove_id(s, id) == s,
    decreases s.len(),
{
    if s.len() > 0 {
        assert(s[0] != id);
        assert(forall|k: int|
            0 <= k < s.drop_first().len() ==> s.drop_first()[k] == s[k + 1]);
        lemma_remove_id_absent(s.drop_first(), id);
        assert(seq![s[0]] + s.drop_first() =~= s);
    }
}

/// When the first occurrence of the id stands at position `k`, the remove
/// is exactly the deletion of that position.
proof fn lemma_remove_id_at(s: Seq<i64>, id: i64, k: int)
    requires
        0 <= k < s.len(),
        s[k] == id,
        forall|j: int| 0 <= j < k ==> s[j] != id,
    ensures
        remove_id(s, id) == s.remove(k),
    decreases k,
{
    if k == 0 {
        assert(remove_id(s, id) == s.drop_first());
        assert(s.drop_first() =~= s.remove(0));
    } else {
        assert(s[0] != id);
        assert(s.drop_first()[k - 1] == id);
        assert(forall|j: int| 0 <= j < k - 1 ==> s.drop_first()[j] == s[j + 1]);
        lemma_remove_id_at(s.drop_first(), id, k - 1);
        assert(seq![s[0]] + s.drop_first().remove(k - 1) =~= s.remove(k));
    }
}

/// Appending one more command to a batch applies it last.
pub proof fn lemma_apply_ops_snoc(s: Seq<i64>, ops: Seq<RegistryOp>, op: RegistryOp)
    ensures
        apply_ops(s, ops.push(op)) == apply_op(apply_ops(s, ops), op),
    decreases ops.len(),
{
    if ops.len() == 0 {
        let d = ops.push(op).drop_first();
        assert(ops.push(op)[0] == op);
        assert(d =~= Seq::<RegistryOp>::empty());
        assert(apply_ops(apply_op(s, op), d) == apply_op(s, op));
        assert(apply_ops(s, ops.push(op)) == apply_ops(apply_op(s, op), d));
    } else {
        assert(ops.push(op)[0] == ops[0]);
        assert(ops.push(op).drop_first() =~= ops.drop_first().push(op));
        lemma_apply_ops_snoc(apply_op(s, ops[0]), ops.drop_first(), op);
    }
}

} // verus!
