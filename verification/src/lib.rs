//! A single-user issue tracker: the data model, the status flow, label
//! normalisation, the store's operations and the text that the command line
//! shows, each with a contract proved by Verus.

pub mod text;
pub mod width;
pub mod clock;
pub mod status;
pub mod priority;
pub mod error;
pub mod labels;
pub mod issue;
pub mod store;
pub mod query;
pub mod storage;
pub mod prompt;
pub mod render;
pub mod laws;
