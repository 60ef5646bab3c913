//! Why a request was turned down, and the message shown for it.

use vstd::prelude::*;
use vstd::string::*;

verus! {

/// The rule that a field broke.
#[derive(Clone, Copy, Debug, PartialEq, Eq, Structural)]
pub enum Violation {
    CompanyNameRequired,
    CompanyNameEmpty,
    CompanyNameTooLong,
    GstRequired,
    GstEmpty,
    GstFormat,
    StateCodeRequired,
    StateCodeEmpty,
    CategoryNameRequired,
    CategoryNameEmpty,
    CategoryNameTooLong,
    ReportCustomerRequired,
    ReportCustomerEmpty,
    ReportCustomerTooLong,
    TallyCustomerRequired,
    TallyCustomerEmpty,
    TallyCustomerTooLong,
    CategoryRequired,
}

/// Why an operation on a store failed.
#[derive(Clone, Copy, Debug, PartialEq, Eq, Structural)]
pub enum Failure {
    /// A field broke a rule; the caller can correct it.
    InvalidField(Violation),
    /// Another company already has this GST number.
    Conflict,
    /// No record has this identity.
    NotFound,
    /// The change names no field.
    NoFieldsToUpdate,
    /// The store cannot take the record for a reason that is not in the data.
    StorageUnavailable,
}

impl Violation {
    /// The message for this rule.
    pub open spec fn text(self) -> Seq<char> {
        match self {
            Violation::CompanyNameRequired => "Company name is required"@,
            Violation::CompanyNameEmpty => "Company name cannot be empty"@,
            Violation::CompanyNameTooLong => "Company name must be 255 characters or less"@,
            Violation::GstRequired => "GST number is required"@,
            Violation::GstEmpty => "GST number cannot be empty"@,
            Violation::GstFormat => "GST number must be 15 characters and follow GST format"@,
            Violation::StateCodeRequired => "State code is required"@,
            Violation::StateCodeEmpty => "State code cannot be empty"@,
            Violation::CategoryNameRequired => "Category name is required"@,
            Violation::CategoryNameEmpty => "Category name cannot be empty"@,
            Violation::CategoryNameTooLong => "Category name must be 100 characters or less"@,
            Violation::ReportCustomerRequired => "Report customer name is required"@,
            Violation::ReportCustomerEmpty => "Report customer name cannot be empty"@,
            Violation::ReportCustomerTooLong => "Report customer name must be 255 characters or less"@,
            Violation::TallyCustomerRequired => "Tally customer name is required"@,
            Violation::TallyCustomerEmpty => "Tally customer name cannot be empty"@,
            Violation::TallyCustomerTooLong => "Tally customer name must be 255 characters or less"@,
            Violation::CategoryRequired => "Category is required"@,
        }
    }

    pub fn message(&self) -> (m: String)
        ensures
            m@ == self.text(),
    {
        match self {
            Violation::CompanyNameRequired => "Company name is required".to_owned(),
            Violation::CompanyNameEmpty => "Company name cannot be empty".to_owned(),
            Violation::CompanyNameTooLong => "Company name must be 255 characters or less".to_owned(),
            Violation::GstRequired => "GST number is required".to_owned(),
            Violation::GstEmpty => "GST number cannot be empty".to_owned(),
            Violation::GstFormat => "GST number must be 15 characters and follow GST format".to_owned(),
            Violation::StateCodeRequired => "State code is required".to_owned(),
            Violation::StateCodeEmpty => "State code cannot be empty".to_owned(),
            Violation::CategoryNameRequired => "Category name is required".to_owned(),
            Violation::CategoryNameEmpty => "Category name cannot be empty".to_owned(),
            Violation::CategoryNameTooLong => "Category name must be 100 characters or less".to_owned(),
            Violation::ReportCustomerRequired => "Report customer name is required".to_owned(),
            Violation::ReportCustomerEmpty => "Report customer name cannot be empty".to_owned(),
            Violation::ReportCustomerTooLong => "Report customer name must be 255 characters or less".to_owned(),
            Violation::TallyCustomerRequired => "Tally customer name is required".to_owned(),
            Violation::TallyCustomerEmpty => "Tally customer name cannot be empty".to_owned(),
            Violation::TallyCustomerTooLong => "Tally customer name must be 255 characters or less".to_owned(),
            Violation::CategoryRequired => "Category is required".to_owned(),
        }
    }
}

impl Failure {
    /// The one message shown for this failure.
    pub open spec fn text(self) -> Seq<char> {
        match self {
            Failure::InvalidField(v) => v.text(),
            Failure::Conflict => "A company with this GST number already exists"@,
            Failure::NotFound => "Record not found"@,
            Failure::NoFieldsToUpdate => "No fields to update"@,
            Failure::StorageUnavailable => "Storage is unavailable"@,
        }
    }

    pub fn message(&self) -> (m: String)
        ensures
            m@ == self.text(),
    {
        match self {
            Failure::InvalidField(v) => v.message(),
            Failure::Conflict => "A company with this GST number already exists".to_owned(),
            Failure::NotFound => "Record not found".to_owned(),
            Failure::NoFieldsToUpdate => "No fields to update".to_owned(),
            Failure::StorageUnavailable => "Storage is unavailable".to_owned(),
        }
    }
}

} // verus!
