//! The field rules of each record kind. A check stops at the first field
//! that breaks a rule; a payload that passes comes back with its texts
//! trimmed.

use vstd::prelude::*;
use vstd::string::*;
use crate::error::Violation;
use crate::gst::{gst_format_ok, is_valid_gst_format};
use crate::model::{
    opt_text, Company, CreateCategory, CreateCompany, CreateCustomer, Timestamp, UpdateCategory,
    UpdateCompany, UpdateCustomer,
};
use crate::text::{is_blank, trim, trimmed};

verus! {

/// The longest company or customer name, in characters before trimming.
pub const NAME_LIMIT: usize = 255;

/// The longest category name, in characters before trimming.
pub const CATEGORY_NAME_LIMIT: usize = 100;

/// The rule that a required text breaks: `blank` where it holds nothing but
/// whitespace, else `long` where it has more than `limit` characters.
pub open spec fn text_violation(
    s: Seq<char>,
    limit: nat,
    blank: Violation,
    long: Violation,
) -> Option<Violation> {
    if is_blank(s) {
        Some(blank)
    } else if s.len() > limit {
        Some(long)
    } else {
        None
    }
}

/// The rule that an optional GST number breaks. An absent or blank one
/// breaks none.
pub open spec fn optional_gst_violation(gst_no: Option<String>) -> Option<Violation> {
    match gst_no {
        Some(g) => if !is_blank(g@) && !gst_format_ok(g@) {
            Some(Violation::GstFormat)
        } else {
            None
        },
        None => None,
    }
}

/// The rule that a required GST number breaks.
pub open spec fn gst_violation(s: Seq<char>, blank: Violation) -> Option<Violation> {
    if is_blank(s) {
        Some(blank)
    } else if !gst_format_ok(s) {
        Some(Violation::GstFormat)
    } else {
        None
    }
}

/// The text of each present field trimmed, an absent field absent.
pub open spec fn opt_trimmed(o: Option<String>) -> Option<Seq<char>> {
    match o {
        Some(s) => Some(trimmed(s@)),
        None => None,
    }
}

/// The text of a field after a change: the new text trimmed where the
/// change names the field, the text as it was where it does not.
pub open spec fn patched_text(before: String, change: Option<String>) -> Seq<char> {
    match change {
        Some(s) => trimmed(s@),
        None => before@,
    }
}

/// An optional text after a change: the new text trimmed where the change
/// names the field, the text as it was where it does not.
pub open spec fn patched_opt_text(before: Option<String>, change: Option<String>) -> Option<
    Seq<char>,
> {
    match change {
        Some(s) => Some(trimmed(s@)),
        None => opt_text(before),
    }
}

/// The rule that a text breaks where it is present.
pub open spec fn opt_text_violation(
    o: Option<String>,
    limit: nat,
    blank: Violation,
    long: Violation,
) -> Option<Violation> {
    match o {
        Some(s) => text_violation(s@, limit, blank, long),
        None => None,
    }
}

/// The rule that a GST number breaks where it is present.
pub open spec fn opt_gst_violation(o: Option<String>, blank: Violation) -> Option<Violation> {
    match o {
        Some(s) => gst_violation(s@, blank),
        None => None,
    }
}

/// The rule that a text breaks where it must hold more than whitespace.
pub open spec fn blank_violation(s: Seq<char>, blank: Violation) -> Option<Violation> {
    if is_blank(s) {
        Some(blank)
    } else {
        None
    }
}

/// The rule that a text breaks where it is present and must hold more than
/// whitespace.
pub open spec fn opt_blank_violation(o: Option<String>, blank: Violation) -> Option<Violation> {
    match o {
        Some(s) => blank_violation(s@, blank),
        None => None,
    }
}

/// The first finding where it names a rule, else the second.
pub open spec fn or_else(first: Option<Violation>, second: Option<Violation>) -> Option<Violation> {
    if first is Some {
        first
    } else {
        second
    }
}

/// The rule that a category reference breaks: it must be positive.
pub open spec fn category_violation(category_id: i64) -> Option<Violation> {
    if category_id <= 0 {
        Some(Violation::CategoryRequired)
    } else {
        None
    }
}

/// Checks a required text and returns it trimmed.
pub fn check_text(s: &str, limit: usize, blank: Violation, long: Violation) -> (r: Result<
    String,
    Violation,
>)
    ensures
        match r {
            Ok(t) => text_violation(s@, limit as nat, blank, long) is None && t@ == trimmed(s@),
            Err(e) => text_violation(s@, limit as nat, blank, long) == Some(e),
        },
{
    let t = trim(s);
    if t.as_str().unicode_len() == 0 {
        Err(blank)
    } else if s.unicode_len() > limit {
        Err(long)
    } else {
        Ok(t)
    }
}

/// Checks a required GST number and returns it trimmed.
pub fn check_gst(s: &str, blank: Violation) -> (r: Result<String, Violation>)
    ensures
        match r {
            Ok(t) => gst_violation(s@, blank) is None && t@ == trimmed(s@),
            Err(e) => gst_violation(s@, blank) == Some(e),
        },
{
    let t = trim(s);
    if t.as_str().unicode_len() == 0 {
        Err(blank)
    } else if !is_valid_gst_format(s) {
        Err(Violation::GstFormat)
    } else {
        Ok(t)
    }
}

/// Checks a text that must not be blank and returns it trimmed.
pub fn check_not_blank(s: &str, blank: Violation) -> (r: Result<String, Violation>)
    ensures
        match r {
            Ok(t) => blank_violation(s@, blank) is None && t@ == trimmed(s@),
            Err(e) => blank_violation(s@, blank) == Some(e),
        },
{
    let t = trim(s);
    if t.as_str().unicode_len() == 0 {
        Err(blank)
    } else {
        Ok(t)
    }
}

/// Checks an optional GST number and returns it trimmed.
pub fn check_optional_gst(gst_no: &Option<String>) -> (r: Result<Option<String>, Violation>)
    ensures
        match r {
            Ok(t) => optional_gst_violation(*gst_no) is None && opt_text(t) == opt_trimmed(*gst_no),
            Err(e) => optional_gst_violation(*gst_no) == Some(e),
        },
{
    match gst_no {
        Some(g) => {
            let t = trim(g.as_str());
            if t.as_str().unicode_len() != 0 && !is_valid_gst_format(g.as_str()) {
                Err(Violation::GstFormat)
            } else {
                Ok(Some(t))
            }
        },
        None => Ok(None),
    }
}

/// Trims a text where it is present.
pub fn trim_optional(o: &Option<String>) -> (r: Option<String>)
    ensures
        opt_text(r) == opt_trimmed(*o),
{
    match o {
        Some(s) => Some(trim(s.as_str())),
        None => None,
    }
}

/// Checks a text where it is present and returns it trimmed.
pub fn check_opt_text(o: &Option<String>, limit: usize, blank: Violation, long: Violation) -> (r:
    Result<Option<String>, Violation>)
    ensures
        match r {
            Ok(t) => opt_text_violation(*o, limit as nat, blank, long) is None && opt_text(t)
                == opt_trimmed(*o),
            Err(e) => opt_text_violation(*o, limit as nat, blank, long) == Some(e),
        },
{
    match o {
        Some(s) => match check_text(s.as_str(), limit, blank, long) {
            Ok(t) => Ok(Some(t)),
            Err(e) => Err(e),
        },
        None => Ok(None),
    }
}

/// Checks a GST number that must be well formed where it is present.
pub fn check_opt_gst(o: &Option<String>, blank: Violation) -> (r: Result<Option<String>, Violation>)
    ensures
        match r {
            Ok(t) => opt_gst_violation(*o, blank) is None && opt_text(t) == opt_trimmed(*o),
            Err(e) => opt_gst_violation(*o, blank) == Some(e),
        },
{
    match o {
        Some(s) => match check_gst(s.as_str(), blank) {
            Ok(t) => Ok(Some(t)),
            Err(e) => Err(e),
        },
        None => Ok(None),
    }
}

/// Checks a text that must not be blank where it is present.
pub fn check_opt_not_blank(o: &Option<String>, blank: Violation) -> (r: Result<
    Option<String>,
    Violation,
>)
    ensures
        match r {
            Ok(t) => opt_blank_violation(*o, blank) is None && opt_text(t) == opt_trimmed(*o),
            Err(e) => opt_blank_violation(*o, blank) == Some(e),
        },
{
    match o {
        Some(s) => match check_not_blank(s.as_str(), blank) {
            Ok(t) => Ok(Some(t)),
            Err(e) => Err(e),
        },
        None => Ok(None),
    }
}

/// The first rule that a new company breaks: the name, then the GST number,
/// then the state code.
pub open spec fn company_create_violation(p: CreateCompany) -> Option<Violation> {
    or_else(
        text_violation(
            p.company_name@,
            NAME_LIMIT as nat,
            Violation::CompanyNameRequired,
            Violation::CompanyNameTooLong,
        ),
        or_else(
            gst_violation(p.gst_no@, Violation::GstRequired),
            blank_violation(p.state_code@, Violation::StateCodeRequired),
        ),
    )
}

/// `c` is `p` with every text trimmed.
pub open spec fn company_create_canonical(p: CreateCompany, c: CreateCompany) -> bool {
    &&& c.company_name@ == trimmed(p.company_name@)
    &&& c.gst_no@ == trimmed(p.gst_no@)
    &&& c.state_code@ == trimmed(p.state_code@)
}

/// Checks a new company and returns it with its texts trimmed.
pub fn validate_company_create(company: &CreateCompany) -> (r: Result<CreateCompany, Violation>)
    ensures
        match r {
            Ok(c) => company_create_violation(*company) is None && company_create_canonical(
                *company,
                c,
            ),
            Err(e) => company_create_violation(*company) == Some(e),
        },
{
    let company_name = match check_text(
        company.company_name.as_str(),
        NAME_LIMIT,
        Violation::CompanyNameRequired,
        Violation::CompanyNameTooLong,
    ) {
        Ok(t) => t,
        Err(e) => {
            return Err(e);
        },
    };
    let gst_no = match check_gst(company.gst_no.as_str(), Violation::GstRequired) {
        Ok(t) => t,
        Err(e) => {
            return Err(e);
        },
    };
    let state_code = match check_not_blank(
        company.state_code.as_str(),
        Violation::StateCodeRequired,
    ) {
        Ok(t) => t,
        Err(e) => {
            return Err(e);
        },
    };
    Ok(CreateCompany { company_name, gst_no, state_code })
}

/// `c` is the record that the payload `p` gives at the instant `now`: no
/// identity yet, every text trimmed, both stamps equal to `now`.
pub open spec fn is_fresh_company(c: Company, p: CreateCompany, now: Timestamp) -> bool {
    &&& c.id is None
    &&& c.company_name@ == trimmed(p.company_name@)
    &&& c.gst_no@ == trimmed(p.gst_no@)
    &&& c.state_code@ == trimmed(p.state_code@)
    &&& c.created_at == Some(now)
    &&& c.updated_at == Some(now)
}

/// Checks a new company and builds its record as of `now`.
pub fn create_company_at(company: &CreateCompany, now: Timestamp) -> (r: Result<Company, Violation>)
    ensures
        match r {
            Ok(c) => company_create_violation(*company) is None && is_fresh_company(
                c,
                *company,
                now,
            ),
            Err(e) => company_create_violation(*company) == Some(e),
        },
{
    match validate_company_create(company) {
        Ok(c) => Ok(
            Company {
                id: None,
                company_name: c.company_name,
                gst_no: c.gst_no,
                state_code: c.state_code,
                created_at: Some(now),
                updated_at: Some(now),
            },
        ),
        Err(e) => Err(e),
    }
}

/// Checks a new company and builds its record as of the present instant.
/// Which instant that is cannot be said beforehand; whatever it is, both
/// stamps carry it.
pub fn create_company(company: &CreateCompany) -> (r: Result<Company, Violation>)
    ensures
        match r {
            Ok(c) => company_create_violation(*company) is None && exists|now: Timestamp|
                #[trigger] is_fresh_company(c, *company, now),
            Err(e) => company_create_violation(*company) == Some(e),
        },
{
    let now = Timestamp::now();
    create_company_at(company, now)
}

/// The first rule that a change to a company breaks, among the fields that
/// it names.
pub open spec fn company_update_violation(p: UpdateCompany) -> Option<Violation> {
    or_else(
        opt_text_violation(
            p.company_name,
            NAME_LIMIT as nat,
            Violation::CompanyNameEmpty,
            Violation::CompanyNameTooLong,
        ),
        or_else(
            opt_gst_violation(p.gst_no, Violation::GstEmpty),
            opt_blank_violation(p.state_code, Violation::StateCodeEmpty),
        ),
    )
}

/// `c` names the fields that `p` names, each with its text trimmed.
pub open spec fn company_update_canonical(p: UpdateCompany, c: UpdateCompany) -> bool {
    &&& opt_text(c.company_name) == opt_trimmed(p.company_name)
    &&& opt_text(c.gst_no) == opt_trimmed(p.gst_no)
    &&& opt_text(c.state_code) == opt_trimmed(p.state_code)
}

/// Checks a change to a company and returns it with its texts trimmed.
pub fn validate_company_update(company: &UpdateCompany) -> (r: Result<UpdateCompany, Violation>)
    ensures
        match r {
            Ok(c) => company_update_violation(*company) is None && company_update_canonical(
                *company,
                c,
            ),
            Err(e) => company_update_violation(*company) == Some(e),
        },
{
    let company_name = match check_opt_text(
        &company.company_name,
        NAME_LIMIT,
        Violation::CompanyNameEmpty,
        Violation::CompanyNameTooLong,
    ) {
        Ok(t) => t,
        Err(e) => {
            return Err(e);
        },
    };
    let gst_no = match check_opt_gst(&company.gst_no, Violation::GstEmpty) {
        Ok(t) => t,
        Err(e) => {
            return Err(e);
        },
    };
    let state_code = match check_opt_not_blank(&company.state_code, Violation::StateCodeEmpty) {
        Ok(t) => t,
        Err(e) => {
            return Err(e);
        },
    };
    Ok(UpdateCompany { company_name, gst_no, state_code })
}

/// The rule that a new category breaks.
pub open spec fn category_create_violation(p: CreateCategory) -> Option<Violation> {
    text_violation(
        p.name@,
        CATEGORY_NAME_LIMIT as nat,
        Violation::CategoryNameRequired,
        Violation::CategoryNameTooLong,
    )
}

/// Checks a new category and returns it with its name trimmed.
pub fn validate_category_create(category: &CreateCategory) -> (r: Result<CreateCategory, Violation>)
    ensures
        match r {
            Ok(c) => category_create_violation(*category) is None && c.name@ == trimmed(
                category.name@,
            ),
            Err(e) => category_create_violation(*category) == Some(e),
        },
{
    match check_text(
        category.name.as_str(),
        CATEGORY_NAME_LIMIT,
        Violation::CategoryNameRequired,
        Violation::CategoryNameTooLong,
    ) {
        Ok(name) => Ok(CreateCategory { name }),
        Err(e) => Err(e),
    }
}

/// The rule that a change to a category breaks.
pub open spec fn category_update_violation(p: UpdateCategory) -> Option<Violation> {
    opt_text_violation(
        p.name,
        CATEGORY_NAME_LIMIT as nat,
        Violation::CategoryNameEmpty,
        Violation::CategoryNameTooLong,
    )
}

/// Checks a change to a category and returns it with its name trimmed.
pub fn validate_category_update(category: &UpdateCategory) -> (r: Result<UpdateCategory, Violation>)
    ensures
        match r {
            Ok(c) => category_update_violation(*category) is None && opt_text(c.name)
                == opt_trimmed(category.name),
            Err(e) => category_update_violation(*category) == Some(e),
        },
{
    match check_opt_text(
        &category.name,
        CATEGORY_NAME_LIMIT,
        Violation::CategoryNameEmpty,
        Violation::CategoryNameTooLong,
    ) {
        Ok(name) => Ok(UpdateCategory { name }),
        Err(e) => Err(e),
    }
}

/// The first rule that a new customer breaks: the report name, the ledger
/// name, the GST number where one is given, then the category.
pub open spec fn customer_create_violation(p: CreateCustomer) -> Option<Violation> {
    or_else(
        text_violation(
            p.report_customer@,
            NAME_LIMIT as nat,
            Violation::ReportCustomerRequired,
            Violation::ReportCustomerTooLong,
        ),
        or_else(
            text_violation(
                p.tally_customer@,
                NAME_LIMIT as nat,
                Violation::TallyCustomerRequired,
                Violation::TallyCustomerTooLong,
            ),
            or_else(optional_gst_violation(p.gst_no), category_violation(p.category_id)),
        ),
    )
}

/// `c` is `p` with every text trimmed.
pub open spec fn customer_create_canonical(p: CreateCustomer, c: CreateCustomer) -> bool {
    &&& c.report_customer@ == trimmed(p.report_customer@)
    &&& c.tally_customer@ == trimmed(p.tally_customer@)
    &&& opt_text(c.gst_no) == opt_trimmed(p.gst_no)
    &&& opt_text(c.state_code) == opt_trimmed(p.state_code)
    &&& c.category_id == p.category_id
}

/// Checks a new customer and returns it with its texts trimmed.
pub fn validate_customer_create(customer: &CreateCustomer) -> (r: Result<CreateCustomer, Violation>)
    ensures
        match r {
            Ok(c) => customer_create_violation(*customer) is None && customer_create_canonical(
                *customer,
                c,
            ),
            Err(e) => customer_create_violation(*customer) == Some(e),
        },
{
    let report_customer = match check_text(
        customer.report_customer.as_str(),
        NAME_LIMIT,
        Violation::ReportCustomerRequired,
        Violation::ReportCustomerTooLong,
    ) {
        Ok(t) => t,
        Err(e) => {
            return Err(e);
        },
    };
    let tally_customer = match check_text(
        customer.tally_customer.as_str(),
        NAME_LIMIT,
        Violation::TallyCustomerRequired,
        Violation::TallyCustomerTooLong,
    ) {
        Ok(t) => t,
        Err(e) => {
            return Err(e);
        },
    };
    let gst_no = match check_optional_gst(&customer.gst_no) {
        Ok(t) => t,
        Err(e) => {
            return Err(e);
        },
    };
    if customer.category_id <= 0 {
        return Err(Violation::CategoryRequired);
    }
    Ok(
        CreateCustomer {
            report_customer,
            tally_customer,
            gst_no,
            state_code: trim_optional(&customer.state_code),
            category_id: customer.category_id,
        },
    )
}

/// The rule that a category reference breaks where it is present.
pub open spec fn opt_category_violation(category_id: Option<i64>) -> Option<Violation> {
    match category_id {
        Some(id) => category_violation(id),
        None => None,
    }
}

/// The first rule that a change to a customer breaks, among the fields that
/// it names.
pub open spec fn customer_update_violation(p: UpdateCustomer) -> Option<Violation> {
    or_else(
        opt_text_violation(
            p.report_customer,
            NAME_LIMIT as nat,
            Violation::ReportCustomerEmpty,
            Violation::ReportCustomerTooLong,
        ),
        or_else(
            opt_text_violation(
                p.tally_customer,
                NAME_LIMIT as nat,
                Violation::TallyCustomerEmpty,
                Violation::TallyCustomerTooLong,
            ),
            or_else(optional_gst_violation(p.gst_no), opt_category_violation(p.category_id)),
        ),
    )
}

/// `c` names the fields that `p` names, each text trimmed.
pub open spec fn customer_update_canonical(p: UpdateCustomer, c: UpdateCustomer) -> bool {
    &&& opt_text(c.report_customer) == opt_trimmed(p.report_customer)
    &&& opt_text(c.tally_customer) == opt_trimmed(p.tally_customer)
    &&& opt_text(c.gst_no) == opt_trimmed(p.gst_no)
    &&& opt_text(c.state_code) == opt_trimmed(p.state_code)
    &&& c.category_id == p.category_id
}

/// Checks a change to a customer and returns it with its texts trimmed.
pub fn validate_customer_update(customer: &UpdateCustomer) -> (r: Result<UpdateCustomer, Violation>)
    ensures
        match r {
            Ok(c) => customer_update_violation(*customer) is None && customer_update_canonical(
                *customer,
                c,
            ),
            Err(e) => customer_update_violation(*customer) == Some(e),
        },
{
    let report_customer = match check_opt_text(
        &customer.report_customer,
        NAME_LIMIT,
        Violation::ReportCustomerEmpty,
        Violation::ReportCustomerTooLong,
    ) {
        Ok(t) => t,
        Err(e) => {
            return Err(e);
        },
    };
    let tally_customer = match check_opt_text(
        &customer.tally_customer,
        NAME_LIMIT,
        Violation::TallyCustomerEmpty,
        Violation::TallyCustomerTooLong,
    ) {
        Ok(t) => t,
        Err(e) => {
            return Err(e);
        },
    };
    let gst_no = match check_optional_gst(&customer.gst_no) {
        Ok(t) => t,
        Err(e) => {
            return Err(e);
        },
    };
    if let Some(id) = customer.category_id {
        if id <= 0 {
            return Err(Violation::CategoryRequired);
        }
    }
    Ok(
        UpdateCustomer {
            report_customer,
            tally_customer,
            gst_no,
            state_code: trim_optional(&customer.state_code),
            category_id: customer.category_id,
        },
    )
}

/// A customer's GST number is held to the format only where it is given
/// and holds more than whitespace: an absent one and a blank one break no
/// rule, so a payload that is in order otherwise passes with either.
pub proof fn blank_gst_is_exempt(p: CreateCustomer)
    requires
        p.gst_no is None || is_blank(p.gst_no->0@),
        text_violation(
            p.report_customer@,
            NAME_LIMIT as nat,
            Violation::ReportCustomerRequired,
            Violation::ReportCustomerTooLong,
        ) is None,
        text_violation(
            p.tally_customer@,
            NAME_LIMIT as nat,
            Violation::TallyCustomerRequired,
            Violation::TallyCustomerTooLong,
        ) is None,
        p.category_id > 0,
    ensures
        optional_gst_violation(p.gst_no) is None,
        customer_create_violation(p) is None,
{
}

} // verus!
