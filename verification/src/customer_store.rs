//! The customers, held in memory. A store owns its records: whoever holds
//! it exclusively sees each operation happen as one step, so callers that
//! share a store behind a lock can never see an identity reused.
//!
//! A customer names a category by its identity. Whether that category must
//! exist when the customer is written is chosen when the store is made: a
//! strict store turns a customer with an unknown category down, a lenient
//! one takes it. Either way the category itself is looked up afresh each
//! time a customer is read, and never stored with it.

use vstd::prelude::*;
use vstd::string::*;
use crate::error::Failure;
use crate::category_store::CategoryStore;
use crate::gst::gst_shape;
use crate::model::{opt_text, Category, CreateCustomer, Customer, Timestamp, UpdateCustomer};
use crate::storage::{
    all_meet, holds, in_order, is_slot, lemma_insert_keeps_rule, lemma_position_unique,
    lemma_remove_keeps_rule, lemma_update_keeps_rule, position, Storage,
};
use crate::text::{
    contains_ignoring_case, fold_text, is_trimmed, lemma_trimmed_is_trimmed, occurs_in_codes,
    trimmed,
};
use crate::validate::{
    customer_create_violation, customer_update_violation, opt_trimmed, patched_opt_text,
    patched_text, validate_customer_create, validate_customer_update,
};

verus! {

/// The customers and the rules they are held to.
pub struct CustomerStore {
    inner: Storage<Customer>,
    strict: bool,
}

/// An optional text that is trimmed where it is present.
pub open spec fn opt_trimmed_ok(o: Option<String>) -> bool {
    match o {
        Some(s) => is_trimmed(s@),
        None => true,
    }
}

/// An optional GST number that is empty or well formed where it is present.
pub open spec fn opt_gst_ok(o: Option<String>) -> bool {
    match o {
        Some(s) => s@.len() == 0 || gst_shape(s@),
        None => true,
    }
}

/// What holds of every stored customer besides its place: the stamp of the
/// last change is not before that of creation, both names are trimmed and
/// not empty, the GST number is empty or well formed, the state code is
/// trimmed, the category reference is positive and no category is attached.
pub open spec fn row_ok(c: Customer) -> bool {
    &&& c.updated_at is Some
    &&& c.created_at->0.micros <= c.updated_at->0.micros
    &&& c.report_customer@.len() > 0
    &&& is_trimmed(c.report_customer@)
    &&& c.tally_customer@.len() > 0
    &&& is_trimmed(c.tally_customer@)
    &&& opt_gst_ok(c.gst_no)
    &&& opt_trimmed_ok(c.state_code)
    &&& c.category_id > 0
    &&& c.category is None
}

/// `row_ok`, as the rule that every record of a store meets.
pub open spec fn rule() -> spec_fn(Customer) -> bool {
    |c: Customer| row_ok(c)
}

/// What holds of a store at all times: the records stand as they are
/// listed, each under an identity of its own, and every one of them is in
/// order.
pub open spec fn store_ok(rows: Seq<Customer>, next_id: int) -> bool {
    &&& in_order(rows, next_id)
    &&& all_meet(rows, rule())
}

/// Why a new customer is turned down, if it is: a broken field rule first,
/// then, in a strict store, a category that is not among `cats`, then a
/// store out of identities.
pub open spec fn create_failure(
    next_id: int,
    strict: bool,
    cats: Seq<Category>,
    p: CreateCustomer,
) -> Option<Failure> {
    if customer_create_violation(p) is Some {
        Some(Failure::InvalidField(customer_create_violation(p)->0))
    } else if strict && !holds(cats, p.category_id) {
        Some(Failure::NotFound)
    } else if next_id >= i64::MAX {
        Some(Failure::StorageUnavailable)
    } else {
        None
    }
}

/// `c` is the record stored for the payload `p` under the identity `id` at
/// the instant `now`.
pub open spec fn is_stored(c: Customer, p: CreateCustomer, id: int, now: Timestamp) -> bool {
    &&& c.id is Some
    &&& c.id->0 == id
    &&& c.report_customer@ == trimmed(p.report_customer@)
    &&& c.tally_customer@ == trimmed(p.tally_customer@)
    &&& opt_text(c.gst_no) == opt_trimmed(p.gst_no)
    &&& opt_text(c.state_code) == opt_trimmed(p.state_code)
    &&& c.category_id == p.category_id
    &&& c.category is None
    &&& c.created_at == Some(now)
    &&& c.updated_at == Some(now)
}

/// A change names no field.
pub open spec fn names_nothing(p: UpdateCustomer) -> bool {
    &&& p.report_customer is None
    &&& p.tally_customer is None
    &&& p.gst_no is None
    &&& p.state_code is None
    &&& p.category_id is None
}

/// Why a change is turned down, if it is: a broken field rule first, then a
/// change that names no field, then an unknown identity, then, in a strict
/// store, a new category that is not among `cats`.
pub open spec fn update_failure(
    rows: Seq<Customer>,
    id: i64,
    strict: bool,
    cats: Seq<Category>,
    p: UpdateCustomer,
) -> Option<Failure> {
    if customer_update_violation(p) is Some {
        Some(Failure::InvalidField(customer_update_violation(p)->0))
    } else if names_nothing(p) {
        Some(Failure::NoFieldsToUpdate)
    } else if !holds(rows, id) {
        Some(Failure::NotFound)
    } else if strict && p.category_id is Some && !holds(
        cats,
        p.category_id->0,
    ) {
        Some(Failure::NotFound)
    } else {
        None
    }
}

/// `after` is `before` with the change `p` applied at the instant `now`:
/// identity and creation stamp stay, and the stamp of the last change moves
/// forward: to `now`, or by one microsecond where `now` is not later.
pub open spec fn is_patched(before: Customer, after: Customer, p: UpdateCustomer, now: Timestamp) -> bool {
    &&& after.id == before.id
    &&& after.report_customer@ == patched_text(before.report_customer, p.report_customer)
    &&& after.tally_customer@ == patched_text(before.tally_customer, p.tally_customer)
    &&& opt_text(after.gst_no) == patched_opt_text(before.gst_no, p.gst_no)
    &&& opt_text(after.state_code) == patched_opt_text(before.state_code, p.state_code)
    &&& after.category_id == match p.category_id {
        Some(k) => k,
        None => before.category_id,
    }
    &&& after.category is None
    &&& after.created_at == before.created_at
    &&& after.updated_at == Some(before.updated_at->0.spec_stamp_after(now))
}

/// A customer is found by a text that stands in one of its names, its GST
/// number or its state code.
pub open spec fn customer_matches(c: Customer, needle: Seq<char>) -> bool {
    ||| contains_ignoring_case(c.report_customer@, needle)
    ||| contains_ignoring_case(c.tally_customer@, needle)
    ||| (c.gst_no is Some && contains_ignoring_case(c.gst_no->0@, needle))
    ||| (c.state_code is Some && contains_ignoring_case(c.state_code->0@, needle))
}

/// The category that a customer names, as it stands among `cats` now.
pub open spec fn category_of(c: Customer, cats: Seq<Category>) -> Option<Category> {
    if holds(cats, c.category_id) {
        Some(cats[position(cats, c.category_id)])
    } else {
        None
    }
}

/// A stored customer as it is handed out: with its category attached.
pub open spec fn joined(c: Customer, cats: Seq<Category>) -> Customer {
    Customer { category: category_of(c, cats), ..c }
}

/// `joined`, as what is done to each customer that is handed out.
pub open spec fn joiner(cats: Seq<Category>) -> spec_fn(Customer) -> Customer {
    |c: Customer| joined(c, cats)
}

/// The test by which `search` picks records for a text.
pub open spec fn matcher(needle: Seq<char>) -> spec_fn(Customer) -> bool {
    |c: Customer| customer_matches(c, needle)
}

impl View for CustomerStore {
    type V = Seq<Customer>;

    /// The records, in the order in which they are listed.
    closed spec fn view(&self) -> Seq<Customer> {
        self.inner@
    }
}

impl CustomerStore {
    /// The identity that the next new record gets.
    pub closed spec fn next_id(&self) -> int {
        self.inner.next_id()
    }

    /// Whether a customer must name a category that exists when it is
    /// written.
    pub closed spec fn is_strict(&self) -> bool {
        self.strict
    }

    /// The store is in order.
    pub open spec fn wf(&self) -> bool {
        store_ok(self@, self.next_id())
    }

    /// What `create_at` does to a store and returns.
    pub open spec fn created(
        pre: CustomerStore,
        p: CreateCustomer,
        cats: Seq<Category>,
        now: Timestamp,
        post: CustomerStore,
        r: Result<Customer, Failure>,
    ) -> bool {
        &&& post.is_strict() == pre.is_strict()
        &&& match r {
            Ok(c) => {
                &&& create_failure(pre.next_id(), pre.is_strict(), cats, p) is None
                &&& is_stored(c, p, pre.next_id(), now)
                &&& post.next_id() == pre.next_id() + 1
                &&& exists|pos: int| #[trigger]
                    is_slot(pre@, c, pos) && post@ == pre@.insert(pos, c)
            },
            Err(e) => {
                &&& create_failure(pre.next_id(), pre.is_strict(), cats, p) == Some(e)
                &&& post@ == pre@
                &&& post.next_id() == pre.next_id()
            },
        }
    }

    /// What `update_at` does to a store and returns.
    pub open spec fn updated(
        pre: CustomerStore,
        id: i64,
        p: UpdateCustomer,
        cats: Seq<Category>,
        now: Timestamp,
        post: CustomerStore,
        r: Result<Customer, Failure>,
    ) -> bool {
        &&& post.next_id() == pre.next_id()
        &&& post.is_strict() == pre.is_strict()
        &&& match r {
            Ok(c) => {
                &&& update_failure(pre@, id, pre.is_strict(), cats, p) is None
                &&& is_patched(pre@[position(pre@, id)], c, p, now)
                &&& post@ == pre@.update(position(pre@, id), c)
            },
            Err(e) => {
                &&& update_failure(pre@, id, pre.is_strict(), cats, p) == Some(e)
                &&& post@ == pre@
            },
        }
    }

    /// What `get_by_id` returns.
    pub open spec fn got(
        store: CustomerStore,
        cats: Seq<Category>,
        id: i64,
        r: Result<Customer, Failure>,
    ) -> bool {
        match r {
            Ok(c) => holds(store@, id) && c == joined(store@[position(store@, id)], cats),
            Err(e) => !holds(store@, id) && e == Failure::NotFound,
        }
    }

    /// A store without records. Its first record gets the identity 1.
    /// `strict` says whether a customer must name a category that exists
    /// when it is written.
    pub fn new(strict: bool) -> (s: CustomerStore)
        ensures
            s@ == Seq::<Customer>::empty(),
            s.next_id() == 1,
            s.is_strict() == strict,
            s.wf(),
    {
        CustomerStore { inner: Storage::new(), strict }
    }

    /// The number of records.
    pub fn len(&self) -> (n: usize)
        ensures
            n == self@.len(),
    {
        self.inner.len()
    }

    /// Whether a customer has this identity.
    pub fn contains(&self, id: i64) -> (r: bool)
        requires
            self.wf(),
        ensures
            r == holds(self@, id),
    {
        self.inner.find(id).is_some()
    }

    /// A stored customer with its category attached, where `categories`
    /// holds the category that it names.
    fn attach(stored: &Customer, categories: &CategoryStore) -> (out: Customer)
        requires
            categories.wf(),
        ensures
            out == joined(*stored, categories@),
    {
        let mut out = stored.clone();
        out.category = match categories.get_by_id(stored.category_id) {
            Ok(c) => Some(c),
            Err(_) => None,
        };
        out
    }

    /// Stores a new customer as of the instant `now`. What is returned is
    /// the stored record, without its category attached.
    pub fn create_at(
        &mut self,
        customer: &CreateCustomer,
        categories: &CategoryStore,
        now: Timestamp,
    ) -> (r: Result<Customer, Failure>)
        requires
            old(self).wf(),
            categories.wf(),
        ensures
            final(self).wf(),
            Self::created(*old(self), *customer, categories@, now, *final(self), r),
    {
        let canon = match validate_customer_create(customer) {
            Ok(c) => c,
            Err(v) => {
                return Err(Failure::InvalidField(v));
            },
        };
        if self.strict && !categories.contains(canon.category_id) {
            return Err(Failure::NotFound);
        }
        let id: i64 = match self.inner.next_identity() {
            Some(id) => id,
            None => {
                return Err(Failure::StorageUnavailable);
            },
        };
        let record = Customer {
            id: Some(id),
            report_customer: canon.report_customer,
            tally_customer: canon.tally_customer,
            gst_no: canon.gst_no,
            state_code: canon.state_code,
            category_id: canon.category_id,
            category: None,
            created_at: Some(now),
            updated_at: Some(now),
        };
        let out = record.clone();
        let ghost rows = self@;
        let pos = self.inner.insert(record);
        proof {
            lemma_trimmed_is_trimmed(customer.report_customer@);
            lemma_trimmed_is_trimmed(customer.tally_customer@);
            if customer.state_code is Some {
                lemma_trimmed_is_trimmed(customer.state_code->0@);
            }
            assert(rule()(out));
            lemma_insert_keeps_rule(rows, rule(), out, pos as int);
        }
        Ok(out)
    }

    /// Stores a new customer as of the present instant. Which instant that
    /// is cannot be said beforehand; for the rest the outcome is that of
    /// `create_at`.
    pub fn create(&mut self, customer: &CreateCustomer, categories: &CategoryStore) -> (r: Result<
        Customer,
        Failure,
    >)
        requires
            old(self).wf(),
            categories.wf(),
        ensures
            final(self).wf(),
            exists|now: Timestamp|
                #[trigger] Self::created(*old(self), *customer, categories@, now, *final(self), r),
    {
        let now = Timestamp::now();
        self.create_at(customer, categories, now)
    }

    /// The customer with this identity, with its category attached.
    pub fn get_by_id(&self, id: i64, categories: &CategoryStore) -> (r: Result<Customer, Failure>)
        requires
            self.wf(),
            categories.wf(),
        ensures
            Self::got(*self, categories@, id, r),
    {
        match self.inner.find(id) {
            Some(i) => Ok(Self::attach(self.inner.get(i), categories)),
            None => Err(Failure::NotFound),
        }
    }

    /// All customers, each with its category attached, the one created
    /// last first; of two created at the same instant, the one with the
    /// greater identity first.
    pub fn list(&self, categories: &CategoryStore) -> (r: Vec<Customer>)
        requires
            self.wf(),
            categories.wf(),
        ensures
            r@ == self@.map_values(joiner(categories@)),
            forall|i: int, j: int|
                #![trigger r@[i], r@[j]]
                0 <= i < j < r@.len() ==> crate::storage::listed_before(r@[i], r@[j]),
    {
        let n: usize = self.inner.len();
        let mut out: Vec<Customer> = Vec::new();
        let mut i: usize = 0;
        while i < n
            invariant
                i <= n,
                n == self@.len(),
                categories.wf(),
                out@ == self@.subrange(0, i as int).map_values(joiner(categories@)),
            decreases n - i,
        {
            out.push(Self::attach(self.inner.get(i), categories));
            proof {
                assert(out@ =~= self@.subrange(0, i + 1).map_values(joiner(categories@)));
            }
            i += 1;
        }
        proof {
            assert(self@.subrange(0, n as int) =~= self@);
        }
        out
    }

    /// Changes the customer with this identity as of the instant `now`.
    /// What is returned is the stored record, without its category
    /// attached.
    pub fn update_at(
        &mut self,
        id: i64,
        change: &UpdateCustomer,
        categories: &CategoryStore,
        now: Timestamp,
    ) -> (r: Result<Customer, Failure>)
        requires
            old(self).wf(),
            categories.wf(),
        ensures
            final(self).wf(),
            Self::updated(*old(self), id, *change, categories@, now, *final(self), r),
    {
        let canon = match validate_customer_update(change) {
            Ok(c) => c,
            Err(v) => {
                return Err(Failure::InvalidField(v));
            },
        };
        if canon.report_customer.is_none() && canon.tally_customer.is_none()
            && canon.gst_no.is_none() && canon.state_code.is_none() && canon.category_id.is_none() {
            return Err(Failure::NoFieldsToUpdate);
        }
        let idx = match self.inner.find(id) {
            Some(i) => i,
            None => {
                return Err(Failure::NotFound);
            },
        };
        if self.strict {
            if let Some(k) = canon.category_id {
                if !categories.contains(k) {
                    return Err(Failure::NotFound);
                }
            }
        }
        let ghost rows = self@;
        assert(rule()(rows[idx as int]));
        let before = self.inner.get(idx).clone();
        let stamp = match before.updated_at {
            Some(t) => t.stamp_after(now),
            None => now,
        };
        let after = Customer {
            id: before.id,
            report_customer: match canon.report_customer {
                Some(s) => s,
                None => before.report_customer,
            },
            tally_customer: match canon.tally_customer {
                Some(s) => s,
                None => before.tally_customer,
            },
            gst_no: match canon.gst_no {
                Some(s) => Some(s),
                None => before.gst_no,
            },
            state_code: match canon.state_code {
                Some(s) => Some(s),
                None => before.state_code,
            },
            category_id: match canon.category_id {
                Some(k) => k,
                None => before.category_id,
            },
            category: None,
            created_at: before.created_at,
            updated_at: Some(stamp),
        };
        let out = after.clone();
        proof {
            if change.report_customer is Some {
                lemma_trimmed_is_trimmed(change.report_customer->0@);
            }
            if change.tally_customer is Some {
                lemma_trimmed_is_trimmed(change.tally_customer->0@);
            }
            if change.state_code is Some {
                lemma_trimmed_is_trimmed(change.state_code->0@);
            }
            assert(is_patched(rows[idx as int], after, *change, now));
            assert(rule()(after));
            lemma_update_keeps_rule(rows, rule(), idx as int, after);
        }
        self.inner.replace(idx, after);
        Ok(out)
    }

    /// Changes the customer with this identity as of the present instant.
    /// Which instant that is cannot be said beforehand; for the rest the
    /// outcome is that of `update_at`.
    pub fn update(&mut self, id: i64, change: &UpdateCustomer, categories: &CategoryStore) -> (r:
        Result<Customer, Failure>)
        requires
            old(self).wf(),
            categories.wf(),
        ensures
            final(self).wf(),
            exists|now: Timestamp|
                #[trigger] Self::updated(*old(self), id, *change, categories@, now, *final(self), r),
    {
        let now = Timestamp::now();
        self.update_at(id, change, categories, now)
    }

    /// Removes the customer with this identity for good. No category is
    /// touched.
    pub fn delete(&mut self, id: i64) -> (r: Result<(), Failure>)
        requires
            old(self).wf(),
        ensures
            final(self).wf(),
            final(self).next_id() == old(self).next_id(),
            final(self).is_strict() == old(self).is_strict(),
            match r {
                Ok(_) => holds(old(self)@, id) && final(self)@ == old(self)@.remove(
                    position(old(self)@, id),
                ) && !holds(final(self)@, id),
                Err(e) => e == Failure::NotFound && !holds(old(self)@, id) && final(self)@ == old(
                    self,
                )@,
            },
    {
        match self.inner.find(id) {
            Some(i) => {
                proof {
                    lemma_remove_keeps_rule(self@, rule(), i as int);
                }
                let _ = self.inner.remove(i);
                Ok(())
            },
            None => Err(Failure::NotFound),
        }
    }

    /// The customers of which a name, the GST number or the state code
    /// holds `text`, the case of ASCII letters left out of account, each
    /// with its category attached, in the order in which they are listed.
    pub fn search(&self, text: &str, categories: &CategoryStore) -> (r: Vec<Customer>)
        requires
            categories.wf(),
        ensures
            r@ == self@.filter(matcher(text@)).map_values(joiner(categories@)),
    {
        let needle = fold_text(text);
        let n: usize = self.inner.len();
        let mut out: Vec<Customer> = Vec::new();
        let mut i: usize = 0;
        proof {
            reveal(Seq::filter);
            assert(self@.subrange(0, 0) =~= Seq::<Customer>::empty());
            assert(out@ =~= self@.subrange(0, 0).filter(matcher(text@)).map_values(
                joiner(categories@),
            ));
        }
        while i < n
            invariant
                i <= n,
                n == self@.len(),
                categories.wf(),
                needle@ == crate::text::folded(text@),
                out@ == self@.subrange(0, i as int).filter(matcher(text@)).map_values(
                    joiner(categories@),
                ),
            decreases n - i,
        {
            let row = self.inner.get(i);
            let hit = occurs_in_codes(&fold_text(row.report_customer.as_str()), &needle)
                || occurs_in_codes(&fold_text(row.tally_customer.as_str()), &needle)
                || Self::optional_holds(&row.gst_no, &needle) || Self::optional_holds(
                &row.state_code,
                &needle,
            );
            proof {
                reveal(Seq::filter);
                let next = self@.subrange(0, i + 1);
                assert(next.drop_last() =~= self@.subrange(0, i as int));
                assert(next.last() == self@[i as int]);
                assert(hit == matcher(text@)(self@[i as int]));
            }
            if hit {
                out.push(Self::attach(row, categories));
                proof {
                    assert(out@ =~= self@.subrange(0, i + 1).filter(
                        matcher(text@),
                    ).map_values(joiner(categories@)));
                }
            }
            i += 1;
        }
        proof {
            assert(self@.subrange(0, n as int) =~= self@);
        }
        out
    }

    fn optional_holds(field: &Option<String>, needle: &Vec<u32>) -> (r: bool)
        ensures
            r == (field is Some && crate::text::occurs_in(
                crate::text::folded(field->0@),
                needle@,
            )),
    {
        match field {
            Some(s) => occurs_in_codes(&fold_text(s.as_str()), needle),
            None => false,
        }
    }
}

/// A customer that was just created is found under the identity it was
/// given: as it was stored, with the category that it names attached as
/// that category stands at the time of reading.
pub proof fn created_is_found(
    pre: CustomerStore,
    p: CreateCustomer,
    cats: Seq<Category>,
    now: Timestamp,
    post: CustomerStore,
    c: Customer,
    cats_at_reading: Seq<Category>,
)
    requires
        post.wf(),
        CustomerStore::created(pre, p, cats, now, post, Ok(c)),
    ensures
        CustomerStore::got(post, cats_at_reading, c.id->0, Ok(joined(c, cats_at_reading))),
{
    let pos = choose|pos: int| #[trigger] is_slot(pre@, c, pos) && post@ == pre@.insert(pos, c);
    assert(post@[pos] == c);
    lemma_position_unique(post@, post.next_id(), pos, c.id->0);
}

} // verus!
