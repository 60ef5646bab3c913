use gst_records::category_store::CategoryStore;
use gst_records::company_store::CompanyStore;
use gst_records::customer_store::CustomerStore;
use gst_records::error::{Failure, Violation};
use gst_records::storage::Storage;
use gst_records::model::{
    Category, Company, CreateCategory, CreateCompany, CreateCustomer, Timestamp, UpdateCategory,
    UpdateCompany, UpdateCustomer,
};

fn at(micros: i64) -> Timestamp {
    Timestamp { micros }
}

fn company(name: &str, gst_no: &str, state_code: &str) -> CreateCompany {
    CreateCompany {
        company_name: name.to_string(),
        gst_no: gst_no.to_string(),
        state_code: state_code.to_string(),
    }
}

fn acme() -> CreateCompany {
    company("Acme Pvt Ltd", "27ABCDE1234F1Z5", "27")
}

fn change(name: Option<&str>, gst_no: Option<&str>, state: Option<&str>) -> UpdateCompany {
    UpdateCompany {
        company_name: name.map(|s| s.to_string()),
        gst_no: gst_no.map(|s| s.to_string()),
        state_code: state.map(|s| s.to_string()),
    }
}

fn customer(report: &str, gst_no: Option<&str>, category_id: i64) -> CreateCustomer {
    CreateCustomer {
        report_customer: report.to_string(),
        tally_customer: format!("{} (ledger)", report),
        gst_no: gst_no.map(|g| g.to_string()),
        state_code: Some("27".to_string()),
        category_id,
    }
}

fn no_customer_change() -> UpdateCustomer {
    UpdateCustomer {
        report_customer: None,
        tally_customer: None,
        gst_no: None,
        state_code: None,
        category_id: None,
    }
}

fn ids(rows: &[Company]) -> Vec<i64> {
    rows.iter().map(|c| c.id.unwrap()).collect()
}

#[test]
fn round_trip_of_a_company() {
    let mut store = CompanyStore::new();
    let c = store.create_at(&acme(), at(1_000)).unwrap();
    assert_eq!(c.id, Some(1));
    assert_eq!(c.company_name, "Acme Pvt Ltd");
    assert_eq!(c.gst_no, "27ABCDE1234F1Z5");
    assert_eq!(c.state_code, "27");
    assert_eq!(c.created_at, Some(at(1_000)));
    assert_eq!(c.updated_at, c.created_at);
    assert_eq!(store.get_by_id(1), Ok(c));
    assert_eq!(store.len(), 1);
}

#[test]
fn round_trip_with_the_clock() {
    let mut store = CompanyStore::new();
    let c = store.create(&acme()).unwrap();
    assert!(c.id.is_some());
    assert!(c.created_at.is_some());
    assert_eq!(c.created_at, c.updated_at);
    assert_eq!(c.gst_no, "27ABCDE1234F1Z5");
    assert_eq!(store.get_by_id(c.id.unwrap()), Ok(c));
}

#[test]
fn case_of_the_gst_number_is_kept() {
    let mut store = CompanyStore::new();
    let c = store.create_at(&company("Acme", "27abcDE1234f1z5", "27"), at(1)).unwrap();
    assert_eq!(c.gst_no, "27abcDE1234f1z5");
}

#[test]
fn stored_texts_are_trimmed() {
    let mut store = CompanyStore::new();
    let c = store
        .create_at(&company("\t  Acme Pvt Ltd \n", "  27ABCDE1234F1Z5 ", " 27 "), at(1))
        .unwrap();
    let got = store.get_by_id(c.id.unwrap()).unwrap();
    assert_eq!(got.company_name, "Acme Pvt Ltd");
    assert_eq!(got.gst_no, "27ABCDE1234F1Z5");
    assert_eq!(got.state_code, "27");
}

#[test]
fn a_malformed_gst_number_is_rejected_and_nothing_stored() {
    let mut store = CompanyStore::new();
    let r = store.create_at(&company("Acme", "short", "27"), at(1));
    assert_eq!(r, Err(Failure::InvalidField(Violation::GstFormat)));
    assert_eq!(
        r.unwrap_err().message(),
        "GST number must be 15 characters and follow GST format"
    );
    assert_eq!(store.len(), 0);
    assert!(store.list().is_empty());
    assert_eq!(store.create_at(&acme(), at(2)).unwrap().id, Some(1));
}

#[test]
fn a_second_company_with_the_same_gst_number_conflicts() {
    let mut store = CompanyStore::new();
    let a = store.create_at(&acme(), at(1)).unwrap();
    let b = store.create_at(&company("Other", " 27ABCDE1234F1Z5 ", "29"), at(2));
    assert_eq!(b, Err(Failure::Conflict));
    assert_eq!(store.list(), vec![a]);
}

#[test]
fn gst_numbers_that_differ_in_case_do_not_conflict() {
    let mut store = CompanyStore::new();
    store.create_at(&acme(), at(1)).unwrap();
    assert!(store.create_at(&company("Other", "27abcde1234f1z5", "29"), at(2)).is_ok());
    assert_eq!(store.len(), 2);
}

#[test]
fn identities_follow_one_another() {
    let mut store = CompanyStore::new();
    let mut seen = Vec::new();
    for k in 0..20 {
        let gst_no = format!("27ABCDE1234F1{:02}", k);
        let c = store.create_at(&company("Acme", &gst_no, "27"), at(5)).unwrap();
        seen.push(c.id.unwrap());
    }
    assert_eq!(seen, (1..=20).collect::<Vec<i64>>());
}

#[test]
fn identities_are_not_reused_after_a_delete_or_a_refusal() {
    let mut store = CompanyStore::new();
    store.create_at(&acme(), at(1)).unwrap();
    assert_eq!(store.delete(1), Ok(()));
    assert_eq!(store.create_at(&company("Acme", "short", "27"), at(2)).is_err(), true);
    let c = store.create_at(&acme(), at(3)).unwrap();
    assert_eq!(c.id, Some(2));
}

#[test]
fn list_is_newest_first_with_ties_by_identity() {
    let mut store = CompanyStore::new();
    store.create_at(&company("A", "27ABCDE1234F1Z1", "27"), at(50)).unwrap();
    store.create_at(&company("B", "27ABCDE1234F1Z2", "27"), at(90)).unwrap();
    store.create_at(&company("C", "27ABCDE1234F1Z3", "27"), at(50)).unwrap();
    store.create_at(&company("D", "27ABCDE1234F1Z4", "27"), at(10)).unwrap();
    store.create_at(&company("E", "27ABCDE1234F1Z5", "27"), at(90)).unwrap();
    assert_eq!(ids(&store.list()), vec![5, 2, 3, 1, 4]);
    store.update_at(4, &change(Some("D2"), None, None), at(500)).unwrap();
    assert_eq!(ids(&store.list()), vec![5, 2, 3, 1, 4]);
    store.delete(3).unwrap();
    assert_eq!(ids(&store.list()), vec![5, 2, 1, 4]);
}

#[test]
fn an_empty_change_is_refused_and_changes_nothing() {
    let mut store = CompanyStore::new();
    let c = store.create_at(&acme(), at(1)).unwrap();
    assert_eq!(store.update_at(1, &change(None, None, None), at(9)), Err(Failure::NoFieldsToUpdate));
    assert_eq!(store.get_by_id(1), Ok(c));
    assert_eq!(store.update_at(77, &change(None, None, None), at(9)), Err(Failure::NoFieldsToUpdate));
    assert_eq!(store.update(1, &change(None, None, None)), Err(Failure::NoFieldsToUpdate));
}

#[test]
fn a_change_of_the_state_code_keeps_the_rest() {
    let mut store = CompanyStore::new();
    store.create_at(&acme(), at(100)).unwrap();
    let c = store.update_at(1, &change(None, None, Some(" 29 ")), at(250)).unwrap();
    assert_eq!(c.id, Some(1));
    assert_eq!(c.company_name, "Acme Pvt Ltd");
    assert_eq!(c.gst_no, "27ABCDE1234F1Z5");
    assert_eq!(c.state_code, "29");
    assert_eq!(c.created_at, Some(at(100)));
    assert_eq!(c.updated_at, Some(at(250)));
    assert_eq!(store.get_by_id(1), Ok(c));
}

#[test]
fn every_change_moves_the_stamp_forward() {
    let mut store = CompanyStore::new();
    store.create_at(&acme(), at(100)).unwrap();
    let c = store.update_at(1, &change(Some("Acme 2"), None, None), at(40)).unwrap();
    assert_eq!(c.company_name, "Acme 2");
    assert_eq!(c.created_at, Some(at(100)));
    assert_eq!(c.updated_at, Some(at(101)));
    let c = store.update_at(1, &change(Some("Acme 2"), None, None), at(101)).unwrap();
    assert_eq!(c.updated_at, Some(at(102)));
    let c = store.update_at(1, &change(Some("Acme 4"), None, None), at(500)).unwrap();
    assert_eq!(c.updated_at, Some(at(500)));
    assert_eq!(store.get_by_id(1).unwrap().updated_at, Some(at(500)));
}

#[test]
fn update_with_the_clock() {
    let mut store = CompanyStore::new();
    let made = store.create(&acme()).unwrap();
    let c = store.update(1, &change(None, None, Some("29"))).unwrap();
    assert_eq!(c.state_code, "29");
    assert_eq!(c.created_at, made.created_at);
    assert!(c.updated_at.unwrap().micros > made.updated_at.unwrap().micros);
}

#[test]
fn update_failures_in_their_order() {
    let mut store = CompanyStore::new();
    store.create_at(&acme(), at(1)).unwrap();
    store.create_at(&company("Other", "29ABCDE1234F1Z5", "29"), at(2)).unwrap();
    assert_eq!(
        store.update_at(9, &change(Some(" "), None, None), at(3)),
        Err(Failure::InvalidField(Violation::CompanyNameEmpty))
    );
    assert_eq!(store.update_at(9, &change(Some("X"), None, None), at(3)), Err(Failure::NotFound));
    assert_eq!(
        store.update_at(2, &change(None, Some("27ABCDE1234F1Z5"), None), at(3)),
        Err(Failure::Conflict)
    );
    assert_eq!(store.get_by_id(2).unwrap().gst_no, "29ABCDE1234F1Z5");
    assert_eq!(store.get_by_id(2).unwrap().updated_at, Some(at(2)));
    let same = store.update_at(2, &change(None, Some(" 29ABCDE1234F1Z5"), None), at(3)).unwrap();
    assert_eq!(same.gst_no, "29ABCDE1234F1Z5");
    assert_eq!(same.updated_at, Some(at(3)));
    let moved = store.update_at(2, &change(None, Some("30ABCDE1234F1Z5"), None), at(4)).unwrap();
    assert_eq!(moved.gst_no, "30ABCDE1234F1Z5");
    assert!(store.create_at(&company("Third", "29ABCDE1234F1Z5", "29"), at(5)).is_ok());
}

#[test]
fn get_and_delete_of_a_missing_company() {
    let mut store = CompanyStore::new();
    assert_eq!(store.get_by_id(1), Err(Failure::NotFound));
    assert_eq!(store.delete(1), Err(Failure::NotFound));
    assert!(!store.contains(1));
    store.create_at(&acme(), at(1)).unwrap();
    assert!(store.contains(1));
    assert_eq!(store.delete(1), Ok(()));
    assert_eq!(store.get_by_id(1), Err(Failure::NotFound));
    assert_eq!(store.delete(1), Err(Failure::NotFound));
    assert_eq!(store.len(), 0);
}

#[test]
fn search_finds_by_name_gst_number_and_state_code() {
    let mut store = CompanyStore::new();
    store.create_at(&acme(), at(1)).unwrap();
    store.create_at(&company("Bharat Steel", "29XYZAB9876K1Z3", "KA"), at(2)).unwrap();
    assert_eq!(ids(&store.search("acme")), vec![1]);
    assert_eq!(ids(&store.search("ABCDE1234F1Z5")), vec![1]);
    assert_eq!(ids(&store.search("abcde1234f1z5")), vec![1]);
    assert_eq!(ids(&store.search("ka")), vec![2]);
    assert_eq!(ids(&store.search("STEEL")), vec![2]);
    assert_eq!(ids(&store.search("1z")), vec![2, 1]);
    assert_eq!(ids(&store.search("")), vec![2, 1]);
    assert_eq!(ids(&store.search("nothing")), Vec::<i64>::new());
}

#[test]
fn categories_have_no_uniqueness() {
    let mut store = CategoryStore::new();
    let a = store.create_at(&CreateCategory { name: " Retail ".to_string() }, at(1)).unwrap();
    let b = store.create_at(&CreateCategory { name: "Retail".to_string() }, at(2)).unwrap();
    assert_eq!(a.id, Some(1));
    assert_eq!(b.id, Some(2));
    assert_eq!(a.name, "Retail");
    assert_eq!(store.list(), vec![b, a]);
    assert_eq!(
        store.create_at(&CreateCategory { name: " ".to_string() }, at(3)),
        Err(Failure::InvalidField(Violation::CategoryNameRequired))
    );
    assert!(store.create(&CreateCategory { name: "Bulk".to_string() }).is_ok());
}

#[test]
fn category_update_get_delete_search() {
    let mut store = CategoryStore::new();
    store.create_at(&CreateCategory { name: "Retail".to_string() }, at(1)).unwrap();
    store.create_at(&CreateCategory { name: "Wholesale".to_string() }, at(2)).unwrap();
    assert_eq!(store.update_at(1, &UpdateCategory { name: None }, at(3)), Err(Failure::NoFieldsToUpdate));
    assert_eq!(
        store.update_at(1, &UpdateCategory { name: Some(String::new()) }, at(3)),
        Err(Failure::InvalidField(Violation::CategoryNameEmpty))
    );
    assert_eq!(
        store.update_at(5, &UpdateCategory { name: Some("X".to_string()) }, at(3)),
        Err(Failure::NotFound)
    );
    let c = store.update_at(1, &UpdateCategory { name: Some(" Shops ".to_string()) }, at(3)).unwrap();
    assert_eq!(
        c,
        Category {
            id: Some(1),
            name: "Shops".to_string(),
            created_at: Some(at(1)),
            updated_at: Some(at(3)),
        }
    );
    assert_eq!(store.get_by_id(1), Ok(c));
    assert_eq!(store.search("SALE").len(), 1);
    assert_eq!(store.search("sale")[0].id, Some(2));
    assert!(store.update(2, &UpdateCategory { name: Some("Trade".to_string()) }).is_ok());
    assert_eq!(store.delete(2), Ok(()));
    assert_eq!(store.delete(2), Err(Failure::NotFound));
    assert!(store.contains(1));
    assert_eq!(store.len(), 1);
}

#[test]
fn a_customer_is_read_with_its_category() {
    let mut categories = CategoryStore::new();
    let retail = categories.create_at(&CreateCategory { name: "Retail".to_string() }, at(1)).unwrap();
    let mut customers = CustomerStore::new(false);
    let made = customers.create_at(&customer("Ravi", None, 1), &categories, at(2)).unwrap();
    assert_eq!(made.id, Some(1));
    assert_eq!(made.category, None);
    assert_eq!(made.gst_no, None);
    assert_eq!(made.state_code, Some("27".to_string()));
    let got = customers.get_by_id(1, &categories).unwrap();
    assert_eq!(got.category, Some(retail.clone()));
    assert_eq!(got.report_customer, "Ravi");
    assert_eq!(got.tally_customer, "Ravi (ledger)");
    assert_eq!(customers.list(&categories)[0].category, Some(retail));
    categories.update_at(1, &UpdateCategory { name: Some("Shops".to_string()) }, at(3)).unwrap();
    assert_eq!(customers.get_by_id(1, &categories).unwrap().category.unwrap().name, "Shops");
    categories.delete(1).unwrap();
    assert_eq!(customers.get_by_id(1, &categories).unwrap().category, None);
    assert_eq!(customers.len(), 1);
}

#[test]
fn a_lenient_store_takes_an_unknown_category() {
    let categories = CategoryStore::new();
    let mut customers = CustomerStore::new(false);
    let c = customers.create_at(&customer("Ravi", Some(""), 7), &categories, at(1)).unwrap();
    assert_eq!(c.category_id, 7);
    assert_eq!(c.gst_no, Some(String::new()));
    assert_eq!(customers.get_by_id(1, &categories).unwrap().category, None);
    assert!(customers.create(&customer("Asha", None, 8), &categories).is_ok());
}

#[test]
fn a_strict_store_asks_for_a_known_category() {
    let mut categories = CategoryStore::new();
    let mut customers = CustomerStore::new(true);
    assert_eq!(
        customers.create_at(&customer("Ravi", None, 1), &categories, at(1)),
        Err(Failure::NotFound)
    );
    assert_eq!(customers.len(), 0);
    categories.create_at(&CreateCategory { name: "Retail".to_string() }, at(1)).unwrap();
    assert!(customers.create_at(&customer("Ravi", None, 1), &categories, at(2)).is_ok());
    let mut c = no_customer_change();
    c.category_id = Some(2);
    assert_eq!(customers.update_at(1, &c, &categories, at(3)), Err(Failure::NotFound));
    c.category_id = Some(1);
    assert!(customers.update_at(1, &c, &categories, at(3)).is_ok());
}

#[test]
fn customer_gst_numbers_need_not_be_unique() {
    let categories = CategoryStore::new();
    let mut customers = CustomerStore::new(false);
    customers.create_at(&customer("Ravi", Some("27ABCDE1234F1Z5"), 1), &categories, at(1)).unwrap();
    customers.create_at(&customer("Asha", Some("27ABCDE1234F1Z5"), 1), &categories, at(2)).unwrap();
    assert_eq!(customers.len(), 2);
    assert_eq!(
        customers.create_at(&customer("Bad", Some("short"), 1), &categories, at(3)),
        Err(Failure::InvalidField(Violation::GstFormat))
    );
}

#[test]
fn customer_update_delete_search() {
    let categories = CategoryStore::new();
    let mut customers = CustomerStore::new(false);
    customers.create_at(&customer("Ravi", Some("27ABCDE1234F1Z5"), 1), &categories, at(1)).unwrap();
    customers.create_at(&customer("Asha", None, 2), &categories, at(2)).unwrap();
    assert_eq!(
        customers.update_at(1, &no_customer_change(), &categories, at(3)),
        Err(Failure::NoFieldsToUpdate)
    );
    let mut c = no_customer_change();
    c.gst_no = Some(" ".to_string());
    c.report_customer = Some(" Ravi K ".to_string());
    let after = customers.update_at(1, &c, &categories, at(3)).unwrap();
    assert_eq!(after.report_customer, "Ravi K");
    assert_eq!(after.tally_customer, "Ravi (ledger)");
    assert_eq!(after.gst_no, Some(String::new()));
    assert_eq!(after.state_code, Some("27".to_string()));
    assert_eq!(after.category_id, 1);
    assert_eq!(after.created_at, Some(at(1)));
    assert_eq!(after.updated_at, Some(at(3)));
    assert_eq!(customers.update_at(9, &c, &categories, at(3)), Err(Failure::NotFound));
    assert!(customers.update(2, &c, &categories).is_ok());
    let found = customers.search("asha", &categories);
    assert_eq!(found.len(), 1);
    assert_eq!(found[0].id, Some(2));
    assert_eq!(customers.search("LEDGER", &categories).len(), 2);
    assert_eq!(customers.search("27", &categories).len(), 2);
    assert!(customers.contains(2));
    assert_eq!(customers.delete(2), Ok(()));
    assert_eq!(customers.delete(2), Err(Failure::NotFound));
    assert_eq!(customers.get_by_id(2, &categories), Err(Failure::NotFound));
}

#[test]
fn padding_leaves_no_trace_in_what_is_stored() {
    let mut plain = CompanyStore::new();
    let mut padded = CompanyStore::new();
    let a = plain.create_at(&acme(), at(7)).unwrap();
    let b = padded
        .create_at(&company(" \t Acme Pvt Ltd\u{a0}\n", "\u{3000}27ABCDE1234F1Z5 ", "  27"), at(7))
        .unwrap();
    assert_eq!(a, b);
    assert_eq!(plain.list(), padded.list());
}

#[test]
fn storage_keeps_records_of_any_kind_in_order() {
    let record = |id: i64, name: &str, created: i64| Category {
        id: Some(id),
        name: name.to_string(),
        created_at: Some(at(created)),
        updated_at: Some(at(created)),
    };
    let mut storage: Storage<Category> = Storage::new();
    assert_eq!(storage.len(), 0);
    assert_eq!(storage.next_identity(), Some(1));
    assert_eq!(storage.find(1), None);
    assert_eq!(storage.insert(record(1, "first", 10)), 0);
    assert_eq!(storage.next_identity(), Some(2));
    assert_eq!(storage.insert(record(2, "second", 5)), 1);
    assert_eq!(storage.insert(record(3, "third", 10)), 0);
    assert_eq!(storage.insert(record(4, "fourth", 7)), 2);
    assert_eq!(storage.len(), 4);
    let names: Vec<String> = (0..4).map(|i| storage.get(i).name.clone()).collect();
    assert_eq!(names, vec!["third", "first", "fourth", "second"]);
    assert_eq!(storage.find(1), Some(1));
    assert_eq!(storage.find(2), Some(3));
    assert_eq!(storage.find(9), None);
    storage.replace(1, record(1, "first again", 10));
    assert_eq!(storage.get(1).name, "first again");
    assert_eq!(storage.remove(0), record(3, "third", 10));
    assert_eq!(storage.find(3), None);
    assert_eq!(storage.find(1), Some(0));
    assert_eq!(storage.next_identity(), Some(5));
}
