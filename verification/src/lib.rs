//! Validation and in-memory storage of the business records behind a GST
//! sales-reporting tool: companies, categories and customers.
//!
//! `validate` holds the field rules and `gst` the format of a GST number;
//! `storage` keeps records of any kind in order and under identities of
//! their own; `company_store`, `category_store` and `customer_store` put the
//! two together for each kind of record. `clock` is the one place that
//! reaches outside: it reads the time and writes an instant as text.
//!
//! Every function here carries a contract over mathematical models of its
//! arguments. All of them are machine-checked but the two in `clock` that
//! speak for `chrono`.

pub mod category_store;
pub mod clock;
pub mod company_store;
pub mod customer_store;
pub mod error;
pub mod gst;
pub mod model;
pub mod storage;
pub mod text;
pub mod validate;
