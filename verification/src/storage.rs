//! Storage for records of one kind, in memory. It gives each new record the
//! next identity, keeps the records in the order in which they are listed,
//! and finds them by identity. What a record holds besides its identity and
//! the instant of its creation is no concern of the storage: the rules of
//! each kind are kept by the store of that kind, built on this one.

use vstd::prelude::*;
use crate::model::Timestamp;

verus! {

/// What the storage reads of a record.
pub trait Record: Sized {
    /// The identity, once the record has one.
    spec fn ident(&self) -> Option<i64>;

    /// The instant at which the record was created.
    spec fn born(&self) -> Option<Timestamp>;

    fn identity(&self) -> (r: Option<i64>)
        ensures
            r == self.ident(),
    ;

    fn created(&self) -> (r: Option<Timestamp>)
        ensures
            r == self.born(),
    ;
}

/// `a` is listed before `b`: it was created later, or at the same instant
/// with the greater identity.
pub open spec fn listed_before<T: Record>(a: T, b: T) -> bool {
    let ca = a.born()->0.micros;
    let cb = b.born()->0.micros;
    ca > cb || (ca == cb && a.ident()->0 > b.ident()->0)
}

/// The record has an identity below the next one to be given, and an
/// instant of creation.
pub open spec fn placed<T: Record>(c: T, next_id: int) -> bool {
    &&& c.ident() is Some
    &&& 1 <= c.ident()->0 < next_id
    &&& c.born() is Some
}

/// What holds of the records in storage at all times: each has its
/// identity, they stand as they are listed, and no identity occurs twice.
pub open spec fn in_order<T: Record>(rows: Seq<T>, next_id: int) -> bool {
    &&& 1 <= next_id <= i64::MAX
    &&& forall|i: int| 0 <= i < rows.len() ==> placed(#[trigger] rows[i], next_id)
    &&& forall|i: int, j: int|
        #![trigger rows[i], rows[j]]
        0 <= i < j < rows.len() ==> listed_before(rows[i], rows[j])
    &&& forall|i: int, j: int|
        #![trigger rows[i], rows[j]]
        0 <= i < j < rows.len() ==> rows[i].ident() != rows[j].ident()
}

/// Some record has this identity.
pub open spec fn holds<T: Record>(rows: Seq<T>, id: i64) -> bool {
    exists|i: int| 0 <= i < rows.len() && (#[trigger] rows[i]).ident() == Some(id)
}

/// Where the record with this identity stands.
pub open spec fn position<T: Record>(rows: Seq<T>, id: i64) -> int {
    choose|i: int| 0 <= i < rows.len() && (#[trigger] rows[i]).ident() == Some(id)
}

/// `c` belongs at `pos`: all before it are listed before it, and it is
/// listed before all from there on.
pub open spec fn is_slot<T: Record>(rows: Seq<T>, c: T, pos: int) -> bool {
    &&& 0 <= pos <= rows.len()
    &&& forall|k: int| 0 <= k < pos ==> listed_before(#[trigger] rows[k], c)
    &&& forall|k: int| pos <= k < rows.len() ==> listed_before(c, #[trigger] rows[k])
}

/// Every record meets `rule`.
pub open spec fn all_meet<T>(rows: Seq<T>, rule: spec_fn(T) -> bool) -> bool {
    forall|i: int| 0 <= i < rows.len() ==> rule(#[trigger] rows[i])
}

/// Among records in order, a record stands where its identity is looked
/// up.
pub proof fn lemma_position_unique<T: Record>(rows: Seq<T>, next_id: int, i: int, id: i64)
    requires
        in_order(rows, next_id),
        0 <= i < rows.len(),
        rows[i].ident() == Some(id),
    ensures
        holds(rows, id),
        position(rows, id) == i,
{
    let j = position(rows, id);
    if j < i {
        assert(rows[j].ident() != rows[i].ident());
    } else if i < j {
        assert(rows[i].ident() != rows[j].ident());
    }
}

/// A record with the next identity, put where it belongs, leaves the
/// records in order.
pub proof fn lemma_insert_keeps_order<T: Record>(rows: Seq<T>, next_id: int, c: T, pos: int)
    requires
        in_order(rows, next_id),
        next_id < i64::MAX,
        c.ident() == Some(next_id as i64),
        c.born() is Some,
        is_slot(rows, c, pos),
    ensures
        in_order(rows.insert(pos, c), next_id + 1),
{
    let after = rows.insert(pos, c);
    assert forall|i: int| 0 <= i < after.len() implies placed(#[trigger] after[i], next_id + 1) by {
        if i < pos {
            assert(after[i] == rows[i]);
        } else if i > pos {
            assert(after[i] == rows[i - 1]);
        }
    }
    assert forall|i: int, j: int| 0 <= i < j < after.len() implies listed_before(
        #[trigger] after[i],
        #[trigger] after[j],
    ) && after[i].ident() != after[j].ident() by {
        let a = if i < pos { i } else { i - 1 };
        let b = if j < pos { j } else { j - 1 };
        if i == pos {
            assert(after[j] == rows[b]);
            assert(placed(rows[b], next_id));
        } else if j == pos {
            assert(after[i] == rows[a]);
            assert(placed(rows[a], next_id));
        } else {
            assert(after[i] == rows[a]);
            assert(after[j] == rows[b]);
            assert(listed_before(rows[a], rows[b]));
        }
    }
}

/// A record that takes the place of one with the same identity and the same
/// instant of creation leaves the records in order.
pub proof fn lemma_update_keeps_order<T: Record>(rows: Seq<T>, next_id: int, idx: int, c: T)
    requires
        in_order(rows, next_id),
        0 <= idx < rows.len(),
        c.ident() == rows[idx].ident(),
        c.born() == rows[idx].born(),
    ensures
        in_order(rows.update(idx, c), next_id),
{
    let after = rows.update(idx, c);
    assert forall|i: int| 0 <= i < after.len() implies placed(#[trigger] after[i], next_id) by {
        assert(placed(rows[i], next_id));
    }
    assert forall|i: int, j: int| 0 <= i < j < after.len() implies listed_before(
        #[trigger] after[i],
        #[trigger] after[j],
    ) && after[i].ident() != after[j].ident() by {
        assert(listed_before(rows[i], rows[j]));
        assert(rows[i].ident() != rows[j].ident());
    }
}

/// Taking a record out leaves the others in order, and none of them has
/// its identity.
pub proof fn lemma_remove_keeps_order<T: Record>(rows: Seq<T>, next_id: int, idx: int)
    requires
        in_order(rows, next_id),
        0 <= idx < rows.len(),
    ensures
        in_order(rows.remove(idx), next_id),
        !holds(rows.remove(idx), rows[idx].ident()->0),
{
    let after = rows.remove(idx);
    assert(placed(rows[idx], next_id));
    assert forall|i: int| 0 <= i < after.len() implies placed(#[trigger] after[i], next_id) by {
        let a = if i < idx { i } else { i + 1 };
        assert(after[i] == rows[a]);
    }
    assert forall|i: int, j: int| 0 <= i < j < after.len() implies listed_before(
        #[trigger] after[i],
        #[trigger] after[j],
    ) && after[i].ident() != after[j].ident() by {
        let a = if i < idx { i } else { i + 1 };
        let b = if j < idx { j } else { j + 1 };
        assert(after[i] == rows[a]);
        assert(after[j] == rows[b]);
        assert(listed_before(rows[a], rows[b]));
    }
    assert forall|i: int| 0 <= i < after.len() implies (#[trigger] after[i]).ident()
        != rows[idx].ident() by {
        let a = if i < idx { i } else { i + 1 };
        assert(after[i] == rows[a]);
        if a < idx {
            assert(rows[a].ident() != rows[idx].ident());
        } else {
            assert(rows[idx].ident() != rows[a].ident());
        }
    }
}

/// A rule that all records meet is still met by all once one that meets it
/// is put among them.
pub proof fn lemma_insert_keeps_rule<T>(rows: Seq<T>, rule: spec_fn(T) -> bool, c: T, pos: int)
    requires
        all_meet(rows, rule),
        rule(c),
        0 <= pos <= rows.len(),
    ensures
        all_meet(rows.insert(pos, c), rule),
{
    let after = rows.insert(pos, c);
    assert forall|i: int| 0 <= i < after.len() implies rule(#[trigger] after[i]) by {
        if i < pos {
            assert(after[i] == rows[i]);
        } else if i > pos {
            assert(after[i] == rows[i - 1]);
        }
    }
}

/// A rule that all records meet is still met by all once one that meets it
/// takes the place of another.
pub proof fn lemma_update_keeps_rule<T>(rows: Seq<T>, rule: spec_fn(T) -> bool, idx: int, c: T)
    requires
        all_meet(rows, rule),
        rule(c),
        0 <= idx < rows.len(),
    ensures
        all_meet(rows.update(idx, c), rule),
{
    let after = rows.update(idx, c);
    assert forall|i: int| 0 <= i < after.len() implies rule(#[trigger] after[i]) by {
        if i != idx {
            assert(after[i] == rows[i]);
        }
    }
}

/// A rule that all records meet is still met by all once one of them is
/// taken out.
pub proof fn lemma_remove_keeps_rule<T>(rows: Seq<T>, rule: spec_fn(T) -> bool, idx: int)
    requires
        all_meet(rows, rule),
        0 <= idx < rows.len(),
    ensures
        all_meet(rows.remove(idx), rule),
{
    let after = rows.remove(idx);
    assert forall|i: int| 0 <= i < after.len() implies rule(#[trigger] after[i]) by {
        let a = if i < idx { i } else { i + 1 };
        assert(after[i] == rows[a]);
    }
}

/// The records of one kind, and the identity that the next one gets.
pub struct Storage<T> {
    rows: Vec<T>,
    next_id: i64,
}

impl<T: Record> View for Storage<T> {
    type V = Seq<T>;

    /// The records, in the order in which they are listed.
    closed spec fn view(&self) -> Seq<T> {
        self.rows@
    }
}

impl<T: Record> Storage<T> {
    /// The identity that the next new record gets.
    pub closed spec fn next_id(&self) -> int {
        self.next_id as int
    }

    /// The records are in order.
    pub open spec fn wf(&self) -> bool {
        in_order(self@, self.next_id())
    }

    /// Storage without records. Its first record gets the identity 1.
    pub fn new() -> (s: Self)
        ensures
            s@ == Seq::<T>::empty(),
            s.next_id() == 1,
            s.wf(),
    {
        Storage { rows: Vec::new(), next_id: 1 }
    }

    /// The number of records.
    pub fn len(&self) -> (n: usize)
        ensures
            n == self@.len(),
    {
        self.rows.len()
    }

    /// The record at a position of the list.
    pub fn get(&self, idx: usize) -> (r: &T)
        requires
            idx < self@.len(),
        ensures
            *r == self@[idx as int],
    {
        &self.rows[idx]
    }

    /// The identity for the next new record, or `None` once all identities
    /// are used up.
    pub fn next_identity(&self) -> (r: Option<i64>)
        requires
            self.wf(),
        ensures
            match r {
                Some(id) => id == self.next_id() && id < i64::MAX,
                None => self.next_id() >= i64::MAX,
            },
    {
        if self.next_id == i64::MAX {
            None
        } else {
            Some(self.next_id)
        }
    }

    /// Where the record with this identity stands, if there is one.
    pub fn find(&self, id: i64) -> (r: Option<usize>)
        requires
            self.wf(),
        ensures
            match r {
                Some(i) => holds(self@, id) && i == position(self@, id) && i < self@.len(),
                None => !holds(self@, id),
            },
    {
        let n: usize = self.rows.len();
        let mut i: usize = 0;
        while i < n
            invariant
                i <= n,
                n == self.rows@.len(),
                self.wf(),
                forall|k: int| 0 <= k < i ==> (#[trigger] self.rows@[k]).ident() != Some(id),
            decreases n - i,
        {
            let hit = match self.rows[i].identity() {
                Some(v) => v == id,
                None => false,
            };
            if hit {
                proof {
                    lemma_position_unique(self@, self.next_id(), i as int, id);
                }
                return Some(i);
            }
            i += 1;
        }
        None
    }

    /// Where a record created at `created` with the next identity belongs.
    fn slot(&self, created: Timestamp) -> (pos: usize)
        requires
            self.wf(),
        ensures
            pos <= self@.len(),
            forall|k: int|
                0 <= k < pos ==> (#[trigger] self@[k]).born()->0.micros > created.micros,
            forall|k: int|
                pos <= k < self@.len() ==> (#[trigger] self@[k]).born()->0.micros
                    <= created.micros,
    {
        let n: usize = self.rows.len();
        let mut pos: usize = 0;
        let mut scanning: bool = true;
        while scanning
            invariant
                pos <= n,
                n == self.rows@.len(),
                self.wf(),
                forall|k: int|
                    0 <= k < pos ==> (#[trigger] self.rows@[k]).born()->0.micros > created.micros,
                !scanning ==> pos == n || (#[trigger] self.rows@[pos as int]).born()->0.micros
                    <= created.micros,
            decreases n - pos + (if scanning { 1int } else { 0int }),
        {
            if pos < n {
                assert(placed(self.rows@[pos as int], self.next_id()));
                let at = match self.rows[pos].created() {
                    Some(t) => t.micros,
                    None => created.micros,
                };
                if at > created.micros {
                    pos += 1;
                } else {
                    scanning = false;
                }
            } else {
                scanning = false;
            }
        }
        assert forall|k: int| pos <= k < self@.len() implies (#[trigger] self@[k]).born()->0.micros
            <= created.micros by {
            assert(placed(self@[k], self.next_id()));
            if k > pos {
                assert(listed_before(self@[pos as int], self@[k]));
            }
        }
        pos
    }

    /// Puts a new record, which carries the next identity, where it
    /// belongs in the list.
    pub fn insert(&mut self, record: T) -> (pos: usize)
        requires
            old(self).wf(),
            old(self).next_id() < i64::MAX,
            record.ident() is Some,
            record.ident()->0 == old(self).next_id(),
            record.born() is Some,
        ensures
            final(self).wf(),
            final(self).next_id() == old(self).next_id() + 1,
            is_slot(old(self)@, record, pos as int),
            final(self)@ == old(self)@.insert(pos as int, record),
    {
        let created = match record.created() {
            Some(t) => t,
            None => Timestamp { micros: 0 },
        };
        let pos = self.slot(created);
        proof {
            assert(is_slot(self@, record, pos as int));
            lemma_insert_keeps_order(self@, self.next_id(), record, pos as int);
        }
        self.rows.insert(pos, record);
        self.next_id = self.next_id + 1;
        pos
    }

    /// Puts a record in the place of the one at `idx`, which has the same
    /// identity and the same instant of creation.
    pub fn replace(&mut self, idx: usize, record: T)
        requires
            old(self).wf(),
            idx < old(self)@.len(),
            record.ident() == old(self)@[idx as int].ident(),
            record.born() == old(self)@[idx as int].born(),
        ensures
            final(self).wf(),
            final(self).next_id() == old(self).next_id(),
            final(self)@ == old(self)@.update(idx as int, record),
    {
        proof {
            lemma_update_keeps_order(self@, self.next_id(), idx as int, record);
            assert(self@.remove(idx as int).insert(idx as int, record) =~= self@.update(
                idx as int,
                record,
            ));
        }
        let _ = self.rows.remove(idx);
        self.rows.insert(idx, record);
    }

    /// Takes the record at `idx` out for good.
    pub fn remove(&mut self, idx: usize) -> (record: T)
        requires
            old(self).wf(),
            idx < old(self)@.len(),
        ensures
            final(self).wf(),
            final(self).next_id() == old(self).next_id(),
            record == old(self)@[idx as int],
            final(self)@ == old(self)@.remove(idx as int),
            !holds(final(self)@, record.ident()->0),
    {
        proof {
            lemma_remove_keeps_order(self@, self.next_id(), idx as int);
        }
        self.rows.remove(idx)
    }
}

} // verus!
