//! The companies, held in memory. A store owns its records: whoever holds
//! it exclusively sees each operation happen as one step, so callers that
//! share a store behind a lock can never see a GST number twice or an
//! identity reused.

use vstd::prelude::*;
use vstd::string::*;
use crate::error::Failure;
use crate::gst::gst_shape;
use crate::model::{Company, CreateCompany, Timestamp, UpdateCompany};
use crate::storage::{
    all_meet, holds, in_order, is_slot, lemma_insert_keeps_rule, lemma_position_unique,
    lemma_remove_keeps_rule, lemma_update_keeps_rule, placed, position, Storage,
};
use crate::text::{
    all_space, lemma_trim_ignores_padding, contains_ignoring_case, fold_text, is_trimmed, lemma_trimmed_is_trimmed, occurs_in_codes,
    trimmed,
};
use crate::validate::{
    company_create_violation, company_update_violation, patched_text, validate_company_create,
    validate_company_update,
};

verus! {

/// The companies and the rules they are held to.
pub struct CompanyStore {
    inner: Storage<Company>,
}

/// What holds of every stored company besides its place: the stamp of the
/// last change is not before that of creation, the texts are trimmed and
/// not empty, the GST number is well formed.
pub open spec fn row_ok(c: Company) -> bool {
    &&& c.updated_at is Some
    &&& c.created_at->0.micros <= c.updated_at->0.micros
    &&& c.company_name@.len() > 0
    &&& is_trimmed(c.company_name@)
    &&& gst_shape(c.gst_no@)
    &&& c.state_code@.len() > 0
    &&& is_trimmed(c.state_code@)
}

/// `row_ok`, as the rule that every record of a store meets.
pub open spec fn rule() -> spec_fn(Company) -> bool {
    |c: Company| row_ok(c)
}

/// No GST number occurs twice.
pub open spec fn gst_distinct(rows: Seq<Company>) -> bool {
    forall|i: int, j: int|
        #![trigger rows[i], rows[j]]
        0 <= i < j < rows.len() ==> rows[i].gst_no@ != rows[j].gst_no@
}

/// What holds of a store at all times: the records stand as they are
/// listed, each under an identity of its own, every one of them is in
/// order, and no GST number occurs twice.
pub open spec fn store_ok(rows: Seq<Company>, next_id: int) -> bool {
    &&& in_order(rows, next_id)
    &&& all_meet(rows, rule())
    &&& gst_distinct(rows)
}

/// Some record has this GST number.
pub open spec fn gst_taken(rows: Seq<Company>, gst_no: Seq<char>) -> bool {
    exists|i: int| 0 <= i < rows.len() && (#[trigger] rows[i]).gst_no@ == gst_no
}

/// Some record other than the one with identity `id` has this GST number.
pub open spec fn gst_taken_by_other(rows: Seq<Company>, id: i64, gst_no: Seq<char>) -> bool {
    exists|i: int|
        0 <= i < rows.len() && (#[trigger] rows[i]).gst_no@ == gst_no && rows[i].id != Some(id)
}

/// Why a new company is turned down, if it is: a broken field rule first,
/// then a GST number that is taken, then a store out of identities.
pub open spec fn create_failure(rows: Seq<Company>, next_id: int, p: CreateCompany) -> Option<
    Failure,
> {
    if company_create_violation(p) is Some {
        Some(Failure::InvalidField(company_create_violation(p)->0))
    } else if gst_taken(rows, trimmed(p.gst_no@)) {
        Some(Failure::Conflict)
    } else if next_id >= i64::MAX {
        Some(Failure::StorageUnavailable)
    } else {
        None
    }
}

/// `c` is the record stored for the payload `p` under the identity `id` at
/// the instant `now`.
pub open spec fn is_stored(c: Company, p: CreateCompany, id: int, now: Timestamp) -> bool {
    &&& c.id is Some
    &&& c.id->0 == id
    &&& c.company_name@ == trimmed(p.company_name@)
    &&& c.gst_no@ == trimmed(p.gst_no@)
    &&& c.state_code@ == trimmed(p.state_code@)
    &&& c.created_at == Some(now)
    &&& c.updated_at == Some(now)
}

/// A change names no field.
pub open spec fn names_nothing(p: UpdateCompany) -> bool {
    p.company_name is None && p.gst_no is None && p.state_code is None
}

/// Why a change is turned down, if it is: a broken field rule first, then a
/// change that names no field, then an unknown identity, then a GST number
/// that another record has.
pub open spec fn update_failure(rows: Seq<Company>, id: i64, p: UpdateCompany) -> Option<Failure> {
    if company_update_violation(p) is Some {
        Some(Failure::InvalidField(company_update_violation(p)->0))
    } else if names_nothing(p) {
        Some(Failure::NoFieldsToUpdate)
    } else if !holds(rows, id) {
        Some(Failure::NotFound)
    } else if p.gst_no is Some && gst_taken_by_other(rows, id, trimmed(p.gst_no->0@)) {
        Some(Failure::Conflict)
    } else {
        None
    }
}

/// `after` is `before` with the change `p` applied at the instant `now`:
/// identity and creation stamp stay, and the stamp of the last change moves
/// forward: to `now`, or by one microsecond where `now` is not later.
pub open spec fn is_patched(before: Company, after: Company, p: UpdateCompany, now: Timestamp) -> bool {
    &&& after.id == before.id
    &&& after.company_name@ == patched_text(before.company_name, p.company_name)
    &&& after.gst_no@ == patched_text(before.gst_no, p.gst_no)
    &&& after.state_code@ == patched_text(before.state_code, p.state_code)
    &&& after.created_at == before.created_at
    &&& after.updated_at == Some(before.updated_at->0.spec_stamp_after(now))
}

/// A company is found by a text that stands in its name, its GST number or
/// its state code.
pub open spec fn company_matches(c: Company, needle: Seq<char>) -> bool {
    ||| contains_ignoring_case(c.company_name@, needle)
    ||| contains_ignoring_case(c.gst_no@, needle)
    ||| contains_ignoring_case(c.state_code@, needle)
}

/// The test by which `search` picks records for a text.
pub open spec fn matcher(needle: Seq<char>) -> spec_fn(Company) -> bool {
    |c: Company| company_matches(c, needle)
}

/// A record with a GST number that none has leaves the numbers distinct
/// wherever it is put.
pub proof fn lemma_insert_keeps_gst(rows: Seq<Company>, c: Company, pos: int)
    requires
        gst_distinct(rows),
        !gst_taken(rows, c.gst_no@),
        0 <= pos <= rows.len(),
    ensures
        gst_distinct(rows.insert(pos, c)),
{
    let after = rows.insert(pos, c);
    assert forall|i: int, j: int| 0 <= i < j < after.len() implies (#[trigger] after[i]).gst_no@ != (
    #[trigger] after[j]).gst_no@ by {
        let a = if i < pos { i } else { i - 1 };
        let b = if j < pos { j } else { j - 1 };
        if i == pos {
            assert(after[j] == rows[b]);
        } else if j == pos {
            assert(after[i] == rows[a]);
        } else {
            assert(after[i] == rows[a]);
            assert(after[j] == rows[b]);
            assert(rows[a].gst_no@ != rows[b].gst_no@);
        }
    }
}

/// A record that takes the place of another, with a GST number that no
/// third one has, leaves the numbers distinct.
pub proof fn lemma_update_keeps_gst(rows: Seq<Company>, idx: int, c: Company)
    requires
        gst_distinct(rows),
        0 <= idx < rows.len(),
        forall|i: int| 0 <= i < rows.len() && i != idx ==> (#[trigger] rows[i]).gst_no@ != c.gst_no@,
    ensures
        gst_distinct(rows.update(idx, c)),
{
    let after = rows.update(idx, c);
    assert forall|i: int, j: int| 0 <= i < j < after.len() implies (#[trigger] after[i]).gst_no@ != (
    #[trigger] after[j]).gst_no@ by {
        assert(rows[i].gst_no@ != rows[j].gst_no@);
    }
}

/// Taking a record out leaves the numbers distinct.
pub proof fn lemma_remove_keeps_gst(rows: Seq<Company>, idx: int)
    requires
        gst_distinct(rows),
        0 <= idx < rows.len(),
    ensures
        gst_distinct(rows.remove(idx)),
{
    let after = rows.remove(idx);
    assert forall|i: int, j: int| 0 <= i < j < after.len() implies (#[trigger] after[i]).gst_no@ != (
    #[trigger] after[j]).gst_no@ by {
        let a = if i < idx { i } else { i + 1 };
        let b = if j < idx { j } else { j + 1 };
        assert(after[i] == rows[a]);
        assert(after[j] == rows[b]);
        assert(rows[a].gst_no@ != rows[b].gst_no@);
    }
}

impl View for CompanyStore {
    type V = Seq<Company>;

    /// The records, in the order in which they are listed.
    closed spec fn view(&self) -> Seq<Company> {
        self.inner@
    }
}

impl CompanyStore {
    /// The identity that the next new record gets.
    pub closed spec fn next_id(&self) -> int {
        self.inner.next_id()
    }

    /// The store is in order.
    pub open spec fn wf(&self) -> bool {
        store_ok(self@, self.next_id())
    }

    /// What `create_at` does to a store and returns.
    pub open spec fn created(
        pre: CompanyStore,
        p: CreateCompany,
        now: Timestamp,
        post: CompanyStore,
        r: Result<Company, Failure>,
    ) -> bool {
        match r {
            Ok(c) => {
                &&& create_failure(pre@, pre.next_id(), p) is None
                &&& is_stored(c, p, pre.next_id(), now)
                &&& post.next_id() == pre.next_id() + 1
                &&& exists|pos: int| #[trigger] is_slot(pre@, c, pos) && post@ == pre@.insert(pos, c)
            },
            Err(e) => {
                &&& create_failure(pre@, pre.next_id(), p) == Some(e)
                &&& post@ == pre@
                &&& post.next_id() == pre.next_id()
            },
        }
    }

    /// What `update_at` does to a store and returns.
    pub open spec fn updated(
        pre: CompanyStore,
        id: i64,
        p: UpdateCompany,
        now: Timestamp,
        post: CompanyStore,
        r: Result<Company, Failure>,
    ) -> bool {
        &&& post.next_id() == pre.next_id()
        &&& match r {
            Ok(c) => {
                &&& update_failure(pre@, id, p) is None
                &&& is_patched(pre@[position(pre@, id)], c, p, now)
                &&& post@ == pre@.update(position(pre@, id), c)
            },
            Err(e) => {
                &&& update_failure(pre@, id, p) == Some(e)
                &&& post@ == pre@
            },
        }
    }

    /// What `get_by_id` returns.
    pub open spec fn got(store: CompanyStore, id: i64, r: Result<Company, Failure>) -> bool {
        match r {
            Ok(c) => holds(store@, id) && c == store@[position(store@, id)],
            Err(e) => !holds(store@, id) && e == Failure::NotFound,
        }
    }

    /// A store without records. Its first record gets the identity 1.
    pub fn new() -> (s: CompanyStore)
        ensures
            s@ == Seq::<Company>::empty(),
            s.next_id() == 1,
            s.wf(),
    {
        CompanyStore { inner: Storage::new() }
    }

    /// The number of records.
    pub fn len(&self) -> (n: usize)
        ensures
            n == self@.len(),
    {
        self.inner.len()
    }

    /// Whether a company has this identity.
    pub fn contains(&self, id: i64) -> (r: bool)
        requires
            self.wf(),
        ensures
            r == holds(self@, id),
    {
        self.inner.find(id).is_some()
    }

    fn gst_holder(&self, gst_no: &String) -> (r: Option<usize>)
        ensures
            match r {
                Some(i) => i < self@.len() && self@[i as int].gst_no@ == gst_no@,
                None => !gst_taken(self@, gst_no@),
            },
    {
        let n: usize = self.inner.len();
        let mut i: usize = 0;
        while i < n
            invariant
                i <= n,
                n == self@.len(),
                forall|k: int| 0 <= k < i ==> (#[trigger] self@[k]).gst_no@ != gst_no@,
            decreases n - i,
        {
            if self.inner.get(i).gst_no == *gst_no {
                return Some(i);
            }
            i += 1;
        }
        None
    }

    /// Stores a new company as of the instant `now`.
    pub fn create_at(&mut self, company: &CreateCompany, now: Timestamp) -> (r: Result<
        Company,
        Failure,
    >)
        requires
            old(self).wf(),
        ensures
            final(self).wf(),
            Self::created(*old(self), *company, now, *final(self), r),
    {
        let canon = match validate_company_create(company) {
            Ok(c) => c,
            Err(v) => {
                return Err(Failure::InvalidField(v));
            },
        };
        if self.gst_holder(&canon.gst_no).is_some() {
            return Err(Failure::Conflict);
        }
        let id: i64 = match self.inner.next_identity() {
            Some(id) => id,
            None => {
                return Err(Failure::StorageUnavailable);
            },
        };
        let record = Company {
            id: Some(id),
            company_name: canon.company_name,
            gst_no: canon.gst_no,
            state_code: canon.state_code,
            created_at: Some(now),
            updated_at: Some(now),
        };
        let out = record.clone();
        let ghost rows = self@;
        let pos = self.inner.insert(record);
        proof {
            lemma_trimmed_is_trimmed(company.company_name@);
            lemma_trimmed_is_trimmed(company.state_code@);
            assert(rule()(out));
            lemma_insert_keeps_rule(rows, rule(), out, pos as int);
            lemma_insert_keeps_gst(rows, out, pos as int);
        }
        Ok(out)
    }

    /// Stores a new company as of the present instant. Which instant that
    /// is cannot be said beforehand; for the rest the outcome is that of
    /// `create_at`.
    pub fn create(&mut self, company: &CreateCompany) -> (r: Result<Company, Failure>)
        requires
            old(self).wf(),
        ensures
            final(self).wf(),
            exists|now: Timestamp|
                #[trigger] Self::created(*old(self), *company, now, *final(self), r),
    {
        let now = Timestamp::now();
        self.create_at(company, now)
    }

    /// The company with this identity.
    pub fn get_by_id(&self, id: i64) -> (r: Result<Company, Failure>)
        requires
            self.wf(),
        ensures
            Self::got(*self, id, r),
    {
        match self.inner.find(id) {
            Some(i) => Ok(self.inner.get(i).clone()),
            None => Err(Failure::NotFound),
        }
    }

    /// All companies, the one created last first; of two created at the
    /// same instant, the one with the greater identity first.
    pub fn list(&self) -> (r: Vec<Company>)
        requires
            self.wf(),
        ensures
            r@ == self@,
            forall|i: int, j: int|
                #![trigger r@[i], r@[j]]
                0 <= i < j < r@.len() ==> crate::storage::listed_before(r@[i], r@[j]),
    {
        let n: usize = self.inner.len();
        let mut out: Vec<Company> = Vec::new();
        let mut i: usize = 0;
        while i < n
            invariant
                i <= n,
                n == self@.len(),
                out@ == self@.subrange(0, i as int),
            decreases n - i,
        {
            out.push(self.inner.get(i).clone());
            proof {
                assert(out@ =~= self@.subrange(0, i + 1));
            }
            i += 1;
        }
        proof {
            assert(out@ =~= self@);
        }
        out
    }

    /// Changes the company with this identity as of the instant `now`.
    pub fn update_at(&mut self, id: i64, change: &UpdateCompany, now: Timestamp) -> (r: Result<
        Company,
        Failure,
    >)
        requires
            old(self).wf(),
        ensures
            final(self).wf(),
            Self::updated(*old(self), id, *change, now, *final(self), r),
    {
        let canon = match validate_company_update(change) {
            Ok(c) => c,
            Err(v) => {
                return Err(Failure::InvalidField(v));
            },
        };
        if canon.company_name.is_none() && canon.gst_no.is_none() && canon.state_code.is_none() {
            return Err(Failure::NoFieldsToUpdate);
        }
        let idx = match self.inner.find(id) {
            Some(i) => i,
            None => {
                return Err(Failure::NotFound);
            },
        };
        let ghost rows = self@;
        if let Some(g) = &canon.gst_no {
            match self.gst_holder(g) {
                Some(j) => {
                    if j != idx {
                        proof {
                            if j < idx {
                                assert(rows[j as int].id != rows[idx as int].id);
                            } else {
                                assert(rows[idx as int].id != rows[j as int].id);
                            }
                        }
                        return Err(Failure::Conflict);
                    }
                    assert forall|i: int| 0 <= i < rows.len() && i != idx implies (
                    #[trigger] rows[i]).gst_no@ != g@ by {
                        if i < idx {
                            assert(rows[i].gst_no@ != rows[idx as int].gst_no@);
                        } else {
                            assert(rows[idx as int].gst_no@ != rows[i].gst_no@);
                        }
                    }
                },
                None => {},
            }
        }
        assert(rule()(rows[idx as int]));
        let before = self.inner.get(idx).clone();
        let stamp = match before.updated_at {
            Some(t) => t.stamp_after(now),
            None => now,
        };
        let after = Company {
            id: before.id,
            company_name: match canon.company_name {
                Some(s) => s,
                None => before.company_name,
            },
            gst_no: match canon.gst_no {
                Some(s) => s,
                None => before.gst_no,
            },
            state_code: match canon.state_code {
                Some(s) => s,
                None => before.state_code,
            },
            created_at: before.created_at,
            updated_at: Some(stamp),
        };
        let out = after.clone();
        proof {
            if change.company_name is Some {
                lemma_trimmed_is_trimmed(change.company_name->0@);
            }
            if change.state_code is Some {
                lemma_trimmed_is_trimmed(change.state_code->0@);
            }
            if change.gst_no is None {
                assert forall|i: int| 0 <= i < rows.len() && i != idx implies (
                #[trigger] rows[i]).gst_no@ != after.gst_no@ by {
                    if i < idx {
                        assert(rows[i].gst_no@ != rows[idx as int].gst_no@);
                    } else {
                        assert(rows[idx as int].gst_no@ != rows[i].gst_no@);
                    }
                }
            }
            assert(is_patched(rows[idx as int], after, *change, now));
            assert(rule()(after));
            lemma_update_keeps_rule(rows, rule(), idx as int, after);
            lemma_update_keeps_gst(rows, idx as int, after);
        }
        self.inner.replace(idx, after);
        Ok(out)
    }

    /// Changes the company with this identity as of the present instant.
    /// Which instant that is cannot be said beforehand; for the rest the
    /// outcome is that of `update_at`.
    pub fn update(&mut self, id: i64, change: &UpdateCompany) -> (r: Result<Company, Failure>)
        requires
            old(self).wf(),
        ensures
            final(self).wf(),
            exists|now: Timestamp|
                #[trigger] Self::updated(*old(self), id, *change, now, *final(self), r),
    {
        let now = Timestamp::now();
        self.update_at(id, change, now)
    }

    /// Removes the company with this identity for good.
    pub fn delete(&mut self, id: i64) -> (r: Result<(), Failure>)
        requires
            old(self).wf(),
        ensures
            final(self).wf(),
            final(self).next_id() == old(self).next_id(),
            match r {
                Ok(_) => holds(old(self)@, id) && final(self)@ == old(self)@.remove(
                    position(old(self)@, id),
                ) && !holds(final(self)@, id),
                Err(e) => e == Failure::NotFound && !holds(old(self)@, id) && final(self)@ == old(
                    self,
                )@,
            },
    {
        match self.inner.find(id) {
            Some(i) => {
                proof {
                    lemma_remove_keeps_rule(self@, rule(), i as int);
                    lemma_remove_keeps_gst(self@, i as int);
                }
                let _ = self.inner.remove(i);
                Ok(())
            },
            None => Err(Failure::NotFound),
        }
    }

    /// The companies whose name, GST number or state code holds `text`,
    /// the case of ASCII letters left out of account, in the order in which
    /// they are listed.
    pub fn search(&self, text: &str) -> (r: Vec<Company>)
        ensures
            r@ == self@.filter(matcher(text@)),
    {
        let needle = fold_text(text);
        let n: usize = self.inner.len();
        let mut out: Vec<Company> = Vec::new();
        let mut i: usize = 0;
        proof {
            reveal(Seq::filter);
            assert(self@.subrange(0, 0) =~= Seq::<Company>::empty());
        }
        while i < n
            invariant
                i <= n,
                n == self@.len(),
                needle@ == crate::text::folded(text@),
                out@ == self@.subrange(0, i as int).filter(matcher(text@)),
            decreases n - i,
        {
            let row = self.inner.get(i);
            let name = fold_text(row.company_name.as_str());
            let gst_no = fold_text(row.gst_no.as_str());
            let state_code = fold_text(row.state_code.as_str());
            let hit = occurs_in_codes(&name, &needle) || occurs_in_codes(&gst_no, &needle)
                || occurs_in_codes(&state_code, &needle);
            proof {
                reveal(Seq::filter);
                let next = self@.subrange(0, i + 1);
                assert(next.drop_last() =~= self@.subrange(0, i as int));
                assert(next.last() == self@[i as int]);
                assert(hit == matcher(text@)(self@[i as int]));
            }
            if hit {
                out.push(row.clone());
            }
            i += 1;
        }
        proof {
            assert(self@.subrange(0, n as int) =~= self@);
        }
        out
    }
}

/// A company that was just created is found under the identity it was
/// given, equal to what `create_at` returned in every field.
pub proof fn created_is_found(
    pre: CompanyStore,
    p: CreateCompany,
    now: Timestamp,
    post: CompanyStore,
    c: Company,
)
    requires
        post.wf(),
        CompanyStore::created(pre, p, now, post, Ok(c)),
    ensures
        CompanyStore::got(post, c.id->0, Ok(c)),
        forall|r: Result<Company, Failure>| CompanyStore::got(post, c.id->0, r) ==> r == Ok::<
            Company,
            Failure,
        >(c),
{
    let pos = choose|pos: int| #[trigger] is_slot(pre@, c, pos) && post@ == pre@.insert(pos, c);
    assert(post@[pos] == c);
    lemma_position_unique(post@, post.next_id(), pos, c.id->0);
}

/// Whatever whitespace surrounds the texts of a payload, the company stored
/// for it has none at either end of any text, and trimming it again changes
/// nothing.
pub proof fn created_texts_are_trimmed(
    pre: CompanyStore,
    p: CreateCompany,
    now: Timestamp,
    post: CompanyStore,
    c: Company,
)
    requires
        CompanyStore::created(pre, p, now, post, Ok(c)),
    ensures
        is_trimmed(c.company_name@),
        is_trimmed(c.gst_no@),
        is_trimmed(c.state_code@),
        trimmed(c.company_name@) == c.company_name@,
        trimmed(c.gst_no@) == c.gst_no@,
        trimmed(c.state_code@) == c.state_code@,
{
    lemma_trimmed_is_trimmed(p.company_name@);
    lemma_trimmed_is_trimmed(p.gst_no@);
    lemma_trimmed_is_trimmed(p.state_code@);
}

/// Whitespace around the name in a payload leaves no trace: the company is
/// stored under the name as it is without that whitespace.
pub proof fn padding_leaves_no_trace(
    pre: CompanyStore,
    p: CreateCompany,
    now: Timestamp,
    post: CompanyStore,
    c: Company,
    lead: Seq<char>,
    name: Seq<char>,
    trail: Seq<char>,
)
    requires
        CompanyStore::created(pre, p, now, post, Ok(c)),
        p.company_name@ == lead + name + trail,
        all_space(lead),
        all_space(trail),
    ensures
        c.company_name@ == trimmed(name),
{
    lemma_trim_ignores_padding(lead, name, trail);
}

/// No store that is in order holds two records with one GST number or one
/// identity. Every operation leaves the store in order, so this holds
/// after any sequence of them.
pub proof fn no_two_alike(store: CompanyStore, i: int, j: int)
    requires
        store.wf(),
        0 <= i < store@.len(),
        0 <= j < store@.len(),
        i != j,
    ensures
        store@[i].gst_no@ != store@[j].gst_no@,
        store@[i].id != store@[j].id,
{
    let rows = store@;
    if i < j {
        assert(rows[i].id != rows[j].id && rows[i].gst_no@ != rows[j].gst_no@);
    } else {
        assert(rows[j].id != rows[i].id && rows[j].gst_no@ != rows[i].gst_no@);
    }
}

/// Of two payloads with the same GST number once trimmed, whichever is
/// created second is turned down and leaves the store as it was: with
/// `Conflict` unless one of its own fields breaks a rule.
pub proof fn same_gst_is_refused(
    first: CompanyStore,
    earlier: CreateCompany,
    at_first: Timestamp,
    second: CompanyStore,
    made: Company,
    later: CreateCompany,
    now: Timestamp,
    third: CompanyStore,
    outcome: Result<Company, Failure>,
)
    requires
        CompanyStore::created(first, earlier, at_first, second, Ok(made)),
        CompanyStore::created(second, later, now, third, outcome),
        trimmed(earlier.gst_no@) == trimmed(later.gst_no@),
    ensures
        outcome is Err,
        third@ == second@,
        company_create_violation(later) is None ==> outcome == Err::<Company, Failure>(Failure::Conflict),
{
    let pos = choose|pos: int| #[trigger]
        is_slot(first@, made, pos) && second@ == first@.insert(pos, made);
    assert(second@[pos].gst_no@ == trimmed(later.gst_no@));
    assert(gst_taken(second@, trimmed(later.gst_no@)));
}

/// Of two payloads that are in order and share a GST number that no
/// stored company has, exactly one is taken, whichever comes first: the
/// first is stored and the second is turned down with `Conflict`.
pub proof fn one_of_two_wins(
    first: CompanyStore,
    earlier: CreateCompany,
    at_first: Timestamp,
    second: CompanyStore,
    outcome_of_earlier: Result<Company, Failure>,
    later: CreateCompany,
    now: Timestamp,
    third: CompanyStore,
    outcome_of_later: Result<Company, Failure>,
)
    requires
        CompanyStore::created(first, earlier, at_first, second, outcome_of_earlier),
        CompanyStore::created(second, later, now, third, outcome_of_later),
        company_create_violation(earlier) is None,
        company_create_violation(later) is None,
        trimmed(earlier.gst_no@) == trimmed(later.gst_no@),
        !gst_taken(first@, trimmed(earlier.gst_no@)),
        first.next_id() < i64::MAX,
    ensures
        outcome_of_earlier is Ok,
        outcome_of_later == Err::<Company, Failure>(Failure::Conflict),
        third@ == second@,
{
    same_gst_is_refused(
        first,
        earlier,
        at_first,
        second,
        outcome_of_earlier->Ok_0,
        later,
        now,
        third,
        outcome_of_later,
    );
}

/// A new company gets an identity above that of every company in the
/// store, and the identity after it is the next to be given.
pub proof fn identities_ascend(
    pre: CompanyStore,
    p: CreateCompany,
    now: Timestamp,
    post: CompanyStore,
    c: Company,
    i: int,
)
    requires
        pre.wf(),
        CompanyStore::created(pre, p, now, post, Ok(c)),
        0 <= i < pre@.len(),
    ensures
        pre@[i].id->0 < c.id->0,
        c.id->0 == pre.next_id(),
        post.next_id() == c.id->0 + 1,
{
    assert(placed(pre@[i], pre.next_id()));
}

/// Two companies created one after the other get identities that follow
/// one another.
pub proof fn successive_identities(
    first: CompanyStore,
    earlier: CreateCompany,
    at_first: Timestamp,
    second: CompanyStore,
    made: Company,
    later: CreateCompany,
    now: Timestamp,
    third: CompanyStore,
    next: Company,
)
    requires
        CompanyStore::created(first, earlier, at_first, second, Ok(made)),
        CompanyStore::created(second, later, now, third, Ok(next)),
    ensures
        next.id->0 == made.id->0 + 1,
{
}

/// A change that names no field is turned down with `NoFieldsToUpdate`,
/// whatever the identity, and leaves every record and its stamps as they
/// were.
pub proof fn empty_change_is_refused(
    pre: CompanyStore,
    id: i64,
    p: UpdateCompany,
    now: Timestamp,
    post: CompanyStore,
    r: Result<Company, Failure>,
)
    requires
        names_nothing(p),
        CompanyStore::updated(pre, id, p, now, post, r),
    ensures
        r == Err::<Company, Failure>(Failure::NoFieldsToUpdate),
        post@ == pre@,
{
}

/// A change that names the state code alone keeps the name and the GST
/// number, and moves the stamp of the last change forward: to `now` where
/// that is later, by one microsecond where it is not. Only a stamp at the
/// last instant that can be written cannot move.
pub proof fn state_code_change_keeps_rest(
    pre: CompanyStore,
    id: i64,
    p: UpdateCompany,
    now: Timestamp,
    post: CompanyStore,
    c: Company,
)
    requires
        pre.wf(),
        p.company_name is None,
        p.gst_no is None,
        p.state_code is Some,
        CompanyStore::updated(pre, id, p, now, post, Ok(c)),
        pre@[position(pre@, id)].updated_at->0.micros < i64::MAX,
    ensures
        ({
            let before = pre@[position(pre@, id)];
            &&& c.id == before.id
            &&& c.company_name@ == before.company_name@
            &&& c.gst_no@ == before.gst_no@
            &&& c.state_code@ == trimmed(p.state_code->0@)
            &&& c.created_at == before.created_at
            &&& c.updated_at->0.micros > before.updated_at->0.micros
            &&& now.micros > before.updated_at->0.micros ==> c.updated_at == Some(now)
        }),
{
}

/// No change moves the stamp of the last change back, and none moves the
/// stamp of creation.
pub proof fn stamps_never_move_back(
    pre: CompanyStore,
    id: i64,
    p: UpdateCompany,
    now: Timestamp,
    post: CompanyStore,
    c: Company,
)
    requires
        pre.wf(),
        CompanyStore::updated(pre, id, p, now, post, Ok(c)),
    ensures
        ({
            let before = pre@[position(pre@, id)];
            &&& c.created_at == before.created_at
            &&& c.updated_at->0.micros >= before.updated_at->0.micros
            &&& c.updated_at->0.micros >= c.created_at->0.micros
        }),
{
    let i = position(pre@, id);
    assert(holds(pre@, id));
    assert(rule()(pre@[i]));
}

} // verus!
