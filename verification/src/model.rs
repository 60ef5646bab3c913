//! The three record kinds and the payloads that create and change them.

use vstd::prelude::*;
use crate::storage::Record;

verus! {

/// An instant, in microseconds since 1970-01-01T00:00:00 UTC.
#[derive(Clone, Copy, Debug, PartialEq, Eq, Structural)]
pub struct Timestamp {
    pub micros: i64,
}

/// A company. `gst_no` is unique among the companies of one store.
#[derive(Debug, PartialEq, Eq)]
pub struct Company {
    pub id: Option<i64>,
    pub company_name: String,
    pub gst_no: String,
    pub state_code: String,
    pub created_at: Option<Timestamp>,
    pub updated_at: Option<Timestamp>,
}

/// What is sent to create a company.
#[derive(Debug, PartialEq, Eq)]
pub struct CreateCompany {
    pub company_name: String,
    pub gst_no: String,
    pub state_code: String,
}

/// A change to a company: an absent field is left as it is.
#[derive(Debug, PartialEq, Eq)]
pub struct UpdateCompany {
    pub company_name: Option<String>,
    pub gst_no: Option<String>,
    pub state_code: Option<String>,
}

/// A category of customers.
#[derive(Debug, PartialEq, Eq)]
pub struct Category {
    pub id: Option<i64>,
    pub name: String,
    pub created_at: Option<Timestamp>,
    pub updated_at: Option<Timestamp>,
}

/// What is sent to create a category.
#[derive(Debug, PartialEq, Eq)]
pub struct CreateCategory {
    pub name: String,
}

/// A change to a category: an absent field is left as it is.
#[derive(Debug, PartialEq, Eq)]
pub struct UpdateCategory {
    pub name: Option<String>,
}

/// A customer, known under one name in reports and another in the ledger.
/// `category` is filled in when a customer is read, never stored.
#[derive(Debug, PartialEq, Eq)]
pub struct Customer {
    pub id: Option<i64>,
    pub report_customer: String,
    pub tally_customer: String,
    pub gst_no: Option<String>,
    pub state_code: Option<String>,
    pub category_id: i64,
    pub category: Option<Category>,
    pub created_at: Option<Timestamp>,
    pub updated_at: Option<Timestamp>,
}

/// What is sent to create a customer.
#[derive(Debug, PartialEq, Eq)]
pub struct CreateCustomer {
    pub report_customer: String,
    pub tally_customer: String,
    pub gst_no: Option<String>,
    pub state_code: Option<String>,
    pub category_id: i64,
}

/// A change to a customer: an absent field is left as it is.
#[derive(Debug, PartialEq, Eq)]
pub struct UpdateCustomer {
    pub report_customer: Option<String>,
    pub tally_customer: Option<String>,
    pub gst_no: Option<String>,
    pub state_code: Option<String>,
    pub category_id: Option<i64>,
}

/// The characters of an optional text.
pub open spec fn opt_text(o: Option<String>) -> Option<Seq<char>> {
    match o {
        Some(s) => Some(s@),
        None => None,
    }
}

pub fn clone_opt_text(o: &Option<String>) -> (r: Option<String>)
    ensures
        r == *o,
{
    match o {
        Some(s) => Some(s.clone()),
        None => None,
    }
}

impl Clone for Company {
    fn clone(&self) -> (r: Self)
        ensures
            r == *self,
    {
        Company {
            id: self.id,
            company_name: self.company_name.clone(),
            gst_no: self.gst_no.clone(),
            state_code: self.state_code.clone(),
            created_at: self.created_at,
            updated_at: self.updated_at,
        }
    }
}

impl Clone for Category {
    fn clone(&self) -> (r: Self)
        ensures
            r == *self,
    {
        Category {
            id: self.id,
            name: self.name.clone(),
            created_at: self.created_at,
            updated_at: self.updated_at,
        }
    }
}

impl Clone for Customer {
    fn clone(&self) -> (r: Self)
        ensures
            r == *self,
    {
        let category = match &self.category {
            Some(c) => Some(c.clone()),
            None => None,
        };
        Customer {
            id: self.id,
            report_customer: self.report_customer.clone(),
            tally_customer: self.tally_customer.clone(),
            gst_no: clone_opt_text(&self.gst_no),
            state_code: clone_opt_text(&self.state_code),
            category_id: self.category_id,
            category,
            created_at: self.created_at,
            updated_at: self.updated_at,
        }
    }
}

impl Record for Company {
    open spec fn ident(&self) -> Option<i64> {
        self.id
    }

    open spec fn born(&self) -> Option<Timestamp> {
        self.created_at
    }

    fn identity(&self) -> (r: Option<i64>) {
        self.id
    }

    fn created(&self) -> (r: Option<Timestamp>) {
        self.created_at
    }
}

impl Record for Category {
    open spec fn ident(&self) -> Option<i64> {
        self.id
    }

    open spec fn born(&self) -> Option<Timestamp> {
        self.created_at
    }

    fn identity(&self) -> (r: Option<i64>) {
        self.id
    }

    fn created(&self) -> (r: Option<Timestamp>) {
        self.created_at
    }
}

impl Record for Customer {
    open spec fn ident(&self) -> Option<i64> {
        self.id
    }

    open spec fn born(&self) -> Option<Timestamp> {
        self.created_at
    }

    fn identity(&self) -> (r: Option<i64>) {
        self.id
    }

    fn created(&self) -> (r: Option<Timestamp>) {
        self.created_at
    }
}

} // verus!
