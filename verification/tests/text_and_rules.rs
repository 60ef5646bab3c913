use gst_records::error::{Failure, Violation};
use gst_records::gst::{all_ascii_alnum, is_valid_gst_format};
use gst_records::model::{
    CreateCategory, CreateCompany, CreateCustomer, Timestamp, UpdateCategory, UpdateCompany,
    UpdateCustomer,
};
use gst_records::text::{
    contains_text, fold_case_char, fold_text, is_ascii_alnum_char, is_space_char, trim,
};
use gst_records::validate::{
    check_text, create_company, create_company_at, validate_category_create,
    validate_category_update, validate_company_create, validate_company_update,
    validate_customer_create, validate_customer_update,
};

fn company(name: &str, gst_no: &str, state_code: &str) -> CreateCompany {
    CreateCompany {
        company_name: name.to_string(),
        gst_no: gst_no.to_string(),
        state_code: state_code.to_string(),
    }
}

fn customer(report: &str, tally: &str, gst_no: Option<&str>, category_id: i64) -> CreateCustomer {
    CreateCustomer {
        report_customer: report.to_string(),
        tally_customer: tally.to_string(),
        gst_no: gst_no.map(|g| g.to_string()),
        state_code: None,
        category_id,
    }
}

fn no_customer_change() -> UpdateCustomer {
    UpdateCustomer {
        report_customer: None,
        tally_customer: None,
        gst_no: None,
        state_code: None,
        category_id: None,
    }
}

#[test]
fn whitespace_is_what_std_calls_whitespace() {
    for code in 0u32..=0x10FFFF {
        if let Some(c) = char::from_u32(code) {
            assert_eq!(is_space_char(c), c.is_whitespace(), "code {:#x}", code);
        }
    }
}

#[test]
fn alphanumeric_is_what_std_calls_ascii_alphanumeric() {
    for code in 0u32..=0x10FFFF {
        if let Some(c) = char::from_u32(code) {
            assert_eq!(is_ascii_alnum_char(c), c.is_ascii_alphanumeric(), "code {:#x}", code);
        }
    }
}

#[test]
fn folding_lowers_ascii_letters_only() {
    for code in 0u32..=0x10FFFF {
        if let Some(c) = char::from_u32(code) {
            assert_eq!(fold_case_char(c), c.to_ascii_lowercase() as u32, "code {:#x}", code);
        }
    }
    assert_eq!(fold_case_char('A'), 'a' as u32);
    assert_eq!(fold_case_char('Z'), 'z' as u32);
    assert_eq!(fold_case_char('@'), '@' as u32);
    assert_eq!(fold_case_char('['), '[' as u32);
    assert_eq!(fold_case_char('É'), 'É' as u32);
}

#[test]
fn trim_agrees_with_std() {
    let samples = [
        "",
        " ",
        "   \t\n",
        "a",
        " a",
        "a ",
        "  Acme Pvt Ltd  ",
        "\u{3000}wide\u{3000}",
        "\u{a0}nbsp\u{a0}",
        "in ner",
        "\u{200b}zero width is no space\u{200b}",
        "\r\n27ABCDE1234F1Z5\r\n",
    ];
    for s in samples {
        assert_eq!(trim(s), s.trim().to_string(), "sample {:?}", s);
    }
}

#[test]
fn trim_is_idempotent() {
    for s in ["  Acme  ", "\t x y \n", "", "   ", "plain"] {
        let once = trim(s);
        assert_eq!(trim(&once), once);
    }
    assert_eq!(trim("  Acme  "), "Acme");
}

#[test]
fn fold_text_gives_codes() {
    assert_eq!(fold_text("aB1"), vec![97u32, 98, 49]);
    assert_eq!(fold_text(""), Vec::<u32>::new());
}

#[test]
fn contains_text_ignores_ascii_case() {
    assert!(contains_text("Acme Pvt Ltd", "acme"));
    assert!(contains_text("Acme Pvt Ltd", "PVT"));
    assert!(contains_text("Acme Pvt Ltd", "Ltd"));
    assert!(contains_text("Acme Pvt Ltd", ""));
    assert!(contains_text("", ""));
    assert!(!contains_text("", "a"));
    assert!(!contains_text("Acme", "Acme Pvt"));
    assert!(!contains_text("Acme Pvt Ltd", "acne"));
    assert!(contains_text("27ABCDE1234F1Z5", "ABCDE1234F1Z5"));
    assert!(contains_text("27ABCDE1234F1Z5", "f1z5"));
    assert!(!contains_text("Éclair", "éclair"));
    assert!(contains_text("Éclair", "ÉCLAIR"));
}

#[test]
fn gst_format_accepts_fifteen_ascii_letters_and_digits() {
    assert!(is_valid_gst_format("27ABCDE1234F1Z5"));
    assert!(is_valid_gst_format("27abcde1234f1z5"));
    assert!(is_valid_gst_format("  27ABCDE1234F1Z5\t"));
    assert!(is_valid_gst_format("000000000000000"));
}

#[test]
fn gst_format_rejects_the_rest() {
    assert!(!is_valid_gst_format(""));
    assert!(!is_valid_gst_format("short"));
    assert!(!is_valid_gst_format("27ABCDE1234F1Z"));
    assert!(!is_valid_gst_format("27ABCDE1234F1Z55"));
    assert!(!is_valid_gst_format("27ABCDE-234F1Z5"));
    assert!(!is_valid_gst_format("27ABCDE 234F1Z5"));
    assert!(!is_valid_gst_format("27ABCDÉ1234F1Z5"));
    assert!(!is_valid_gst_format("ééééééééééééééé"));
}

#[test]
fn all_ascii_alnum_on_samples() {
    assert!(all_ascii_alnum(""));
    assert!(all_ascii_alnum("abcXYZ019"));
    assert!(!all_ascii_alnum("abc def"));
    assert!(!all_ascii_alnum("abc_"));
}

#[test]
fn check_text_counts_characters_before_trimming() {
    let blank = Violation::CompanyNameRequired;
    let long = Violation::CompanyNameTooLong;
    assert_eq!(check_text(&"a".repeat(255), 255, blank, long), Ok("a".repeat(255)));
    assert_eq!(check_text(&"a".repeat(256), 255, blank, long), Err(long));
    let padded = format!("{} ", "a".repeat(255));
    assert_eq!(check_text(&padded, 255, blank, long), Err(long));
    let padded_short = format!(" {} ", "a".repeat(253));
    assert_eq!(check_text(&padded_short, 255, blank, long), Ok("a".repeat(253)));
    assert_eq!(check_text(&"é".repeat(200), 255, blank, long), Ok("é".repeat(200)));
    assert_eq!(check_text("   ", 255, blank, long), Err(blank));
    assert_eq!(check_text(&" ".repeat(300), 255, blank, long), Err(blank));
}

#[test]
fn company_create_is_trimmed() {
    let r = validate_company_create(&company("  Acme Pvt Ltd ", " 27ABCDE1234F1Z5 ", " 27\n"));
    assert_eq!(r, Ok(company("Acme Pvt Ltd", "27ABCDE1234F1Z5", "27")));
}

#[test]
fn company_create_stops_at_the_first_broken_rule() {
    let v = |name: &str, gst_no: &str, state: &str| {
        validate_company_create(&company(name, gst_no, state))
    };
    assert_eq!(v(" ", "short", ""), Err(Violation::CompanyNameRequired));
    assert_eq!(v(&"x".repeat(256), "short", ""), Err(Violation::CompanyNameTooLong));
    assert_eq!(v("Acme", "  ", ""), Err(Violation::GstRequired));
    assert_eq!(v("Acme", "short", ""), Err(Violation::GstFormat));
    assert_eq!(v("Acme", "27ABCDE1234F1Z5", " "), Err(Violation::StateCodeRequired));
}

#[test]
fn company_update_rules() {
    let change = |name: Option<&str>, gst_no: Option<&str>, state: Option<&str>| UpdateCompany {
        company_name: name.map(|s| s.to_string()),
        gst_no: gst_no.map(|s| s.to_string()),
        state_code: state.map(|s| s.to_string()),
    };
    assert_eq!(validate_company_update(&change(None, None, None)), Ok(change(None, None, None)));
    assert_eq!(
        validate_company_update(&change(Some(" Acme "), None, Some(" 29 "))),
        Ok(change(Some("Acme"), None, Some("29")))
    );
    assert_eq!(
        validate_company_update(&change(Some(" "), Some("short"), None)),
        Err(Violation::CompanyNameEmpty)
    );
    assert_eq!(
        validate_company_update(&change(Some(&"x".repeat(256)), None, None)),
        Err(Violation::CompanyNameTooLong)
    );
    assert_eq!(
        validate_company_update(&change(None, Some(" "), Some(""))),
        Err(Violation::GstEmpty)
    );
    assert_eq!(
        validate_company_update(&change(None, Some("short"), Some(""))),
        Err(Violation::GstFormat)
    );
    assert_eq!(
        validate_company_update(&change(None, None, Some(" "))),
        Err(Violation::StateCodeEmpty)
    );
}

#[test]
fn category_rules() {
    let create = |name: &str| validate_category_create(&CreateCategory { name: name.to_string() });
    assert_eq!(create(" Retail "), Ok(CreateCategory { name: "Retail".to_string() }));
    assert_eq!(create(""), Err(Violation::CategoryNameRequired));
    assert_eq!(create(&"c".repeat(100)), Ok(CreateCategory { name: "c".repeat(100) }));
    assert_eq!(create(&"c".repeat(101)), Err(Violation::CategoryNameTooLong));
    let update = |name: Option<&str>| {
        validate_category_update(&UpdateCategory { name: name.map(|s| s.to_string()) })
    };
    assert_eq!(update(None), Ok(UpdateCategory { name: None }));
    assert_eq!(update(Some(" Bulk")), Ok(UpdateCategory { name: Some("Bulk".to_string()) }));
    assert_eq!(update(Some("  ")), Err(Violation::CategoryNameEmpty));
    assert_eq!(update(Some(&"c".repeat(101))), Err(Violation::CategoryNameTooLong));
}

#[test]
fn customer_without_gst_number_passes() {
    let r = validate_customer_create(&customer(" Ravi ", "Ravi Traders", None, 1));
    assert_eq!(r, Ok(customer("Ravi", "Ravi Traders", None, 1)));
}

#[test]
fn customer_with_empty_gst_number_passes() {
    let r = validate_customer_create(&customer("Ravi", "Ravi Traders", Some(""), 1));
    assert_eq!(r, Ok(customer("Ravi", "Ravi Traders", Some(""), 1)));
    let r = validate_customer_create(&customer("Ravi", "Ravi Traders", Some("  \t"), 1));
    assert_eq!(r, Ok(customer("Ravi", "Ravi Traders", Some(""), 1)));
}

#[test]
fn customer_create_stops_at_the_first_broken_rule() {
    let v = |report: &str, tally: &str, gst_no: Option<&str>, category_id: i64| {
        validate_customer_create(&customer(report, tally, gst_no, category_id))
    };
    assert_eq!(v("", "", Some("short"), 0), Err(Violation::ReportCustomerRequired));
    assert_eq!(v(&"r".repeat(256), "", None, 0), Err(Violation::ReportCustomerTooLong));
    assert_eq!(v("Ravi", " ", Some("short"), 0), Err(Violation::TallyCustomerRequired));
    assert_eq!(v("Ravi", &"t".repeat(256), None, 0), Err(Violation::TallyCustomerTooLong));
    assert_eq!(v("Ravi", "Ravi", Some("short"), 0), Err(Violation::GstFormat));
    assert_eq!(v("Ravi", "Ravi", None, 0), Err(Violation::CategoryRequired));
    assert_eq!(v("Ravi", "Ravi", None, -3), Err(Violation::CategoryRequired));
    assert_eq!(
        v("Ravi", "Ravi", Some(" 27ABCDE1234F1Z5"), 2),
        Ok(customer("Ravi", "Ravi", Some("27ABCDE1234F1Z5"), 2))
    );
}

#[test]
fn customer_create_trims_the_state_code() {
    let mut p = customer("Ravi", "Ravi", None, 2);
    p.state_code = Some(" 27 ".to_string());
    let mut want = customer("Ravi", "Ravi", None, 2);
    want.state_code = Some("27".to_string());
    assert_eq!(validate_customer_create(&p), Ok(want));
}

#[test]
fn customer_update_rules() {
    assert_eq!(validate_customer_update(&no_customer_change()), Ok(no_customer_change()));
    let mut c = no_customer_change();
    c.report_customer = Some(" ".to_string());
    assert_eq!(validate_customer_update(&c), Err(Violation::ReportCustomerEmpty));
    c.report_customer = Some("r".repeat(256));
    assert_eq!(validate_customer_update(&c), Err(Violation::ReportCustomerTooLong));
    let mut c = no_customer_change();
    c.tally_customer = Some(String::new());
    assert_eq!(validate_customer_update(&c), Err(Violation::TallyCustomerEmpty));
    c.tally_customer = Some("t".repeat(256));
    assert_eq!(validate_customer_update(&c), Err(Violation::TallyCustomerTooLong));
    let mut c = no_customer_change();
    c.gst_no = Some("short".to_string());
    assert_eq!(validate_customer_update(&c), Err(Violation::GstFormat));
    c.gst_no = Some("  ".to_string());
    c.category_id = Some(0);
    assert_eq!(validate_customer_update(&c), Err(Violation::CategoryRequired));
    c.category_id = Some(4);
    c.state_code = Some(" 07 ".to_string());
    let mut want = no_customer_change();
    want.gst_no = Some(String::new());
    want.category_id = Some(4);
    want.state_code = Some("07".to_string());
    assert_eq!(validate_customer_update(&c), Ok(want));
}

#[test]
fn messages_are_exact() {
    let all = [
        (Violation::CompanyNameRequired, "Company name is required"),
        (Violation::CompanyNameEmpty, "Company name cannot be empty"),
        (Violation::CompanyNameTooLong, "Company name must be 255 characters or less"),
        (Violation::GstRequired, "GST number is required"),
        (Violation::GstEmpty, "GST number cannot be empty"),
        (Violation::GstFormat, "GST number must be 15 characters and follow GST format"),
        (Violation::StateCodeRequired, "State code is required"),
        (Violation::StateCodeEmpty, "State code cannot be empty"),
        (Violation::CategoryNameRequired, "Category name is required"),
        (Violation::CategoryNameEmpty, "Category name cannot be empty"),
        (Violation::CategoryNameTooLong, "Category name must be 100 characters or less"),
        (Violation::ReportCustomerRequired, "Report customer name is required"),
        (Violation::ReportCustomerEmpty, "Report customer name cannot be empty"),
        (
            Violation::ReportCustomerTooLong,
            "Report customer name must be 255 characters or less",
        ),
        (Violation::TallyCustomerRequired, "Tally customer name is required"),
        (Violation::TallyCustomerEmpty, "Tally customer name cannot be empty"),
        (Violation::TallyCustomerTooLong, "Tally customer name must be 255 characters or less"),
        (Violation::CategoryRequired, "Category is required"),
    ];
    for (v, text) in all {
        assert_eq!(v.message(), text);
        assert_eq!(Failure::InvalidField(v).message(), text);
    }
    assert_eq!(Failure::Conflict.message(), "A company with this GST number already exists");
    assert_eq!(Failure::NotFound.message(), "Record not found");
    assert_eq!(Failure::NoFieldsToUpdate.message(), "No fields to update");
    assert_eq!(Failure::StorageUnavailable.message(), "Storage is unavailable");
}

#[test]
fn create_company_at_builds_the_record() {
    let now = Timestamp { micros: 1_662_921_288_000_000 };
    let c = create_company_at(&company(" Acme Pvt Ltd ", "27ABCDE1234F1Z5 ", "27"), now).unwrap();
    assert_eq!(c.id, None);
    assert_eq!(c.company_name, "Acme Pvt Ltd");
    assert_eq!(c.gst_no, "27ABCDE1234F1Z5");
    assert_eq!(c.state_code, "27");
    assert_eq!(c.created_at, Some(now));
    assert_eq!(c.updated_at, Some(now));
    assert_eq!(
        create_company_at(&company("Acme", "short", "27"), now),
        Err(Violation::GstFormat)
    );
}

#[test]
fn create_company_stamps_both_fields_alike() {
    let c = create_company(&company("Acme Pvt Ltd", "27ABCDE1234F1Z5", "27")).unwrap();
    assert!(c.created_at.is_some());
    assert_eq!(c.created_at, c.updated_at);
    assert!(c.created_at.unwrap().micros > 1_577_836_800_000_000);
    assert_eq!(create_company(&company("", "", "")), Err(Violation::CompanyNameRequired));
}

#[test]
fn the_clock_is_past_the_epoch_and_moves() {
    let a = Timestamp::now();
    // 2020-01-01T00:00:00Z
    assert!(a.micros > 1_577_836_800_000_000);
    let b = Timestamp::now();
    assert!(b.micros >= a.micros - 60_000_000);
}

#[test]
fn rfc3339_text_of_known_instants() {
    let text = |micros: i64| Timestamp { micros }.to_rfc3339();
    assert_eq!(text(0), Some("1970-01-01T00:00:00+00:00".to_string()));
    assert_eq!(text(1_662_921_288_000_000), Some("2022-09-11T18:34:48+00:00".to_string()));
    assert_eq!(text(1_000_444), Some("1970-01-01T00:00:01.000444+00:00".to_string()));
    assert_eq!(text(-2_208_936_075_000_000), Some("1900-01-01T14:38:45+00:00".to_string()));
    assert_eq!(text(i64::MIN), None);
}

#[test]
fn a_stamp_always_moves_forward() {
    let at = |micros: i64| Timestamp { micros };
    assert_eq!(at(5).stamp_after(at(9)), at(9));
    assert_eq!(at(9).stamp_after(at(5)), at(10));
    assert_eq!(at(9).stamp_after(at(9)), at(10));
    assert_eq!(at(-3).stamp_after(at(-7)), at(-2));
    assert_eq!(at(i64::MAX - 1).stamp_after(at(0)), at(i64::MAX));
    assert_eq!(at(i64::MAX).stamp_after(at(0)), at(i64::MAX));
    assert_eq!(at(i64::MIN).stamp_after(at(i64::MAX)), at(i64::MAX));
}
