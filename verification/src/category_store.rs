//! The categories, held in memory. A store owns its records: whoever holds
//! it exclusively sees each operation happen as one step, so callers that
//! share a store behind a lock can never see an identity reused.

use vstd::prelude::*;
use vstd::string::*;
use crate::error::Failure;
use crate::model::{Category, CreateCategory, Timestamp, UpdateCategory};
use crate::storage::{
    all_meet, holds, in_order, is_slot, lemma_insert_keeps_rule, lemma_position_unique,
    lemma_remove_keeps_rule, lemma_update_keeps_rule, position, Storage,
};
use crate::text::{
    contains_ignoring_case, fold_text, is_trimmed, lemma_trimmed_is_trimmed, occurs_in_codes,
    trimmed,
};
use crate::validate::{
    category_create_violation, category_update_violation, patched_text, validate_category_create,
    validate_category_update,
};

verus! {

/// The categories and the rules they are held to.
pub struct CategoryStore {
    inner: Storage<Category>,
}

/// What holds of every stored category besides its place: the stamp of the
/// last change is not before that of creation, and the name is trimmed and
/// not empty.
pub open spec fn row_ok(c: Category) -> bool {
    &&& c.updated_at is Some
    &&& c.created_at->0.micros <= c.updated_at->0.micros
    &&& c.name@.len() > 0
    &&& is_trimmed(c.name@)
}

/// `row_ok`, as the rule that every record of a store meets.
pub open spec fn rule() -> spec_fn(Category) -> bool {
    |c: Category| row_ok(c)
}

/// What holds of a store at all times: the records stand as they are
/// listed, each under an identity of its own, and every one of them is in
/// order.
pub open spec fn store_ok(rows: Seq<Category>, next_id: int) -> bool {
    &&& in_order(rows, next_id)
    &&& all_meet(rows, rule())
}

/// Why a new category is turned down, if it is: a broken field rule first,
/// then a store out of identities.
pub open spec fn create_failure(next_id: int, p: CreateCategory) -> Option<Failure> {
    if category_create_violation(p) is Some {
        Some(Failure::InvalidField(category_create_violation(p)->0))
    } else if next_id >= i64::MAX {
        Some(Failure::StorageUnavailable)
    } else {
        None
    }
}

/// `c` is the record stored for the payload `p` under the identity `id` at
/// the instant `now`.
pub open spec fn is_stored(c: Category, p: CreateCategory, id: int, now: Timestamp) -> bool {
    &&& c.id is Some
    &&& c.id->0 == id
    &&& c.name@ == trimmed(p.name@)
    &&& c.created_at == Some(now)
    &&& c.updated_at == Some(now)
}

/// A change names no field.
pub open spec fn names_nothing(p: UpdateCategory) -> bool {
    p.name is None
}

/// Why a change is turned down, if it is: a broken field rule first, then a
/// change that names no field, then an unknown identity.
pub open spec fn update_failure(rows: Seq<Category>, id: i64, p: UpdateCategory) -> Option<Failure> {
    if category_update_violation(p) is Some {
        Some(Failure::InvalidField(category_update_violation(p)->0))
    } else if names_nothing(p) {
        Some(Failure::NoFieldsToUpdate)
    } else if !holds(rows, id) {
        Some(Failure::NotFound)
    } else {
        None
    }
}

/// `after` is `before` with the change `p` applied at the instant `now`:
/// identity and creation stamp stay, and the stamp of the last change moves
/// forward: to `now`, or by one microsecond where `now` is not later.
pub open spec fn is_patched(before: Category, after: Category, p: UpdateCategory, now: Timestamp) -> bool {
    &&& after.id == before.id
    &&& after.name@ == patched_text(before.name, p.name)
    &&& after.created_at == before.created_at
    &&& after.updated_at == Some(before.updated_at->0.spec_stamp_after(now))
}

/// A category is found by a text that stands in its name.
pub open spec fn category_matches(c: Category, needle: Seq<char>) -> bool {
    contains_ignoring_case(c.name@, needle)
}

/// The test by which `search` picks records for a text.
pub open spec fn matcher(needle: Seq<char>) -> spec_fn(Category) -> bool {
    |c: Category| category_matches(c, needle)
}

impl View for CategoryStore {
    type V = Seq<Category>;

    /// The records, in the order in which they are listed.
    closed spec fn view(&self) -> Seq<Category> {
        self.inner@
    }
}

impl CategoryStore {
    /// The identity that the next new record gets.
    pub closed spec fn next_id(&self) -> int {
        self.inner.next_id()
    }

    /// The store is in order.
    pub open spec fn wf(&self) -> bool {
        store_ok(self@, self.next_id())
    }

    /// What `create_at` does to a store and returns.
    pub open spec fn created(
        pre: CategoryStore,
        p: CreateCategory,
        now: Timestamp,
        post: CategoryStore,
        r: Result<Category, Failure>,
    ) -> bool {
        match r {
            Ok(c) => {
                &&& create_failure(pre.next_id(), p) is None
                &&& is_stored(c, p, pre.next_id(), now)
                &&& post.next_id() == pre.next_id() + 1
                &&& exists|pos: int| #[trigger] is_slot(pre@, c, pos) && post@ == pre@.insert(pos, c)
            },
            Err(e) => {
                &&& create_failure(pre.next_id(), p) == Some(e)
                &&& post@ == pre@
                &&& post.next_id() == pre.next_id()
            },
        }
    }

    /// What `update_at` does to a store and returns.
    pub open spec fn updated(
        pre: CategoryStore,
        id: i64,
        p: UpdateCategory,
        now: Timestamp,
        post: CategoryStore,
        r: Result<Category, Failure>,
    ) -> bool {
        &&& post.next_id() == pre.next_id()
        &&& match r {
            Ok(c) => {
                &&& update_failure(pre@, id, p) is None
                &&& is_patched(pre@[position(pre@, id)], c, p, now)
                &&& post@ == pre@.update(position(pre@, id), c)
            },
            Err(e) => {
                &&& update_failure(pre@, id, p) == Some(e)
                &&& post@ == pre@
            },
        }
    }

    /// What `get_by_id` returns.
    pub open spec fn got(store: CategoryStore, id: i64, r: Result<Category, Failure>) -> bool {
        match r {
            Ok(c) => holds(store@, id) && c == store@[position(store@, id)],
            Err(e) => !holds(store@, id) && e == Failure::NotFound,
        }
    }

    /// A store without records. Its first record gets the identity 1.
    pub fn new() -> (s: CategoryStore)
        ensures
            s@ == Seq::<Category>::empty(),
            s.next_id() == 1,
            s.wf(),
    {
        CategoryStore { inner: Storage::new() }
    }

    /// The number of records.
    pub fn len(&self) -> (n: usize)
        ensures
            n == self@.len(),
    {
        self.inner.len()
    }

    /// Whether a category has this identity.
    pub fn contains(&self, id: i64) -> (r: bool)
        requires
            self.wf(),
        ensures
            r == holds(self@, id),
    {
        self.inner.find(id).is_some()
    }

    /// Stores a new category as of the instant `now`.
    pub fn create_at(&mut self, category: &CreateCategory, now: Timestamp) -> (r: Result<
        Category,
        Failure,
    >)
        requires
            old(self).wf(),
        ensures
            final(self).wf(),
            Self::created(*old(self), *category, now, *final(self), r),
    {
        let canon = match validate_category_create(category) {
            Ok(c) => c,
            Err(v) => {
                return Err(Failure::InvalidField(v));
            },
        };
        let id: i64 = match self.inner.next_identity() {
            Some(id) => id,
            None => {
                return Err(Failure::StorageUnavailable);
            },
        };
        let record = Category {
            id: Some(id),
            name: canon.name,
            created_at: Some(now),
            updated_at: Some(now),
        };
        let out = record.clone();
        let ghost rows = self@;
        let pos = self.inner.insert(record);
        proof {
            lemma_trimmed_is_trimmed(category.name@);
            assert(rule()(out));
            lemma_insert_keeps_rule(rows, rule(), out, pos as int);
        }
        Ok(out)
    }

    /// Stores a new category as of the present instant. Which instant that
    /// is cannot be said beforehand; for the rest the outcome is that of
    /// `create_at`.
    pub fn create(&mut self, category: &CreateCategory) -> (r: Result<Category, Failure>)
        requires
            old(self).wf(),
        ensures
            final(self).wf(),
            exists|now: Timestamp|
                #[trigger] Self::created(*old(self), *category, now, *final(self), r),
    {
        let now = Timestamp::now();
        self.create_at(category, now)
    }

    /// The category with this identity.
    pub fn get_by_id(&self, id: i64) -> (r: Result<Category, Failure>)
        requires
            self.wf(),
        ensures
            Self::got(*self, id, r),
    {
        match self.inner.find(id) {
            Some(i) => Ok(self.inner.get(i).clone()),
            None => Err(Failure::NotFound),
        }
    }

    /// All categories, the one created last first; of two created at the
    /// same instant, the one with the greater identity first.
    pub fn list(&self) -> (r: Vec<Category>)
        requires
            self.wf(),
        ensures
            r@ == self@,
            forall|i: int, j: int|
                #![trigger r@[i], r@[j]]
                0 <= i < j < r@.len() ==> crate::storage::listed_before(r@[i], r@[j]),
    {
        let n: usize = self.inner.len();
        let mut out: Vec<Category> = Vec::new();
        let mut i: usize = 0;
        while i < n
            invariant
                i <= n,
                n == self@.len(),
                out@ == self@.subrange(0, i as int),
            decreases n - i,
        {
            out.push(self.inner.get(i).clone());
            proof {
                assert(out@ =~= self@.subrange(0, i + 1));
            }
            i += 1;
        }
        proof {
            assert(out@ =~= self@);
        }
        out
    }

    /// Changes the category with this identity as of the instant `now`.
    pub fn update_at(&mut self, id: i64, change: &UpdateCategory, now: Timestamp) -> (r: Result<
        Category,
        Failure,
    >)
        requires
            old(self).wf(),
        ensures
            final(self).wf(),
            Self::updated(*old(self), id, *change, now, *final(self), r),
    {
        let canon = match validate_category_update(change) {
            Ok(c) => c,
            Err(v) => {
                return Err(Failure::InvalidField(v));
            },
        };
        if canon.name.is_none() {
            return Err(Failure::NoFieldsToUpdate);
        }
        let idx = match self.inner.find(id) {
            Some(i) => i,
            None => {
                return Err(Failure::NotFound);
            },
        };
        let ghost rows = self@;
        assert(rule()(rows[idx as int]));
        let before = self.inner.get(idx).clone();
        let stamp = match before.updated_at {
            Some(t) => t.stamp_after(now),
            None => now,
        };
        let after = Category {
            id: before.id,
            name: match canon.name {
                Some(s) => s,
                None => before.name,
            },
            created_at: before.created_at,
            updated_at: Some(stamp),
        };
        let out = after.clone();
        proof {
            lemma_trimmed_is_trimmed(change.name->0@);
            assert(is_patched(rows[idx as int], after, *change, now));
            assert(rule()(after));
            lemma_update_keeps_rule(rows, rule(), idx as int, after);
        }
        self.inner.replace(idx, after);
        Ok(out)
    }

    /// Changes the category with this identity as of the present instant.
    /// Which instant that is cannot be said beforehand; for the rest the
    /// outcome is that of `update_at`.
    pub fn update(&mut self, id: i64, change: &UpdateCategory) -> (r: Result<Category, Failure>)
        requires
            old(self).wf(),
        ensures
            final(self).wf(),
            exists|now: Timestamp|
                #[trigger] Self::updated(*old(self), id, *change, now, *final(self), r),
    {
        let now = Timestamp::now();
        self.update_at(id, change, now)
    }

    /// Removes the category with this identity for good.
    pub fn delete(&mut self, id: i64) -> (r: Result<(), Failure>)
        requires
            old(self).wf(),
        ensures
            final(self).wf(),
            final(self).next_id() == old(self).next_id(),
            match r {
                Ok(_) => holds(old(self)@, id) && final(self)@ == old(self)@.remove(
                    position(old(self)@, id),
                ) && !holds(final(self)@, id),
                Err(e) => e == Failure::NotFound && !holds(old(self)@, id) && final(self)@ == old(
                    self,
                )@,
            },
    {
        match self.inner.find(id) {
            Some(i) => {
                proof {
                    lemma_remove_keeps_rule(self@, rule(), i as int);
                }
                let _ = self.inner.remove(i);
                Ok(())
            },
            None => Err(Failure::NotFound),
        }
    }

    /// The categories whose name holds `text`, the case of ASCII letters
    /// left out of account, in the order in which they are listed.
    pub fn search(&self, text: &str) -> (r: Vec<Category>)
        ensures
            r@ == self@.filter(matcher(text@)),
    {
        let needle = fold_text(text);
        let n: usize = self.inner.len();
        let mut out: Vec<Category> = Vec::new();
        let mut i: usize = 0;
        proof {
            reveal(Seq::filter);
            assert(self@.subrange(0, 0) =~= Seq::<Category>::empty());
        }
        while i < n
            invariant
                i <= n,
                n == self@.len(),
                needle@ == crate::text::folded(text@),
                out@ == self@.subrange(0, i as int).filter(matcher(text@)),
            decreases n - i,
        {
            let row = self.inner.get(i);
            let name = fold_text(row.name.as_str());
            let hit = occurs_in_codes(&name, &needle);
            proof {
                reveal(Seq::filter);
                let next = self@.subrange(0, i + 1);
                assert(next.drop_last() =~= self@.subrange(0, i as int));
                assert(next.last() == self@[i as int]);
                assert(hit == matcher(text@)(self@[i as int]));
            }
            if hit {
                out.push(row.clone());
            }
            i += 1;
        }
        proof {
            assert(self@.subrange(0, n as int) =~= self@);
        }
        out
    }
}

/// A category that was just created is found under the identity it was
/// given, equal to what `create_at` returned in every field.
pub proof fn created_is_found(
    pre: CategoryStore,
    p: CreateCategory,
    now: Timestamp,
    post: CategoryStore,
    c: Category,
)
    requires
        post.wf(),
        CategoryStore::created(pre, p, now, post, Ok(c)),
    ensures
        CategoryStore::got(post, c.id->0, Ok(c)),
        forall|r: Result<Category, Failure>| CategoryStore::got(post, c.id->0, r) ==> r == Ok::<
            Category,
            Failure,
        >(c),
{
    let pos = choose|pos: int| #[trigger] is_slot(pre@, c, pos) && post@ == pre@.insert(pos, c);
    assert(post@[pos] == c);
    lemma_position_unique(post@, post.next_id(), pos, c.id->0);
}

} // verus!
