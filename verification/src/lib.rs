//! Vocabulary memorisation with mailbox synchronisation.
//!
//! The crate holds the rules of the tool as verified code: the revisit
//! schedule, the word records and their meaning sets, the subject line and
//! archive framing of a snapshot, the decisions of the retrieval protocol, and
//! the merge of a pulled snapshot into the local store. Network sessions, the
//! credential store and the database files are driven by the program around
//! this library, which hands in plain values and carries out the actions that
//! the library returns.

pub mod codec;
pub mod conf;
pub mod db;
pub mod db_syncer;
pub mod error;
pub mod merge;
pub mod merge_proofs;
pub mod merger;
pub mod model;
pub mod revisit_planner;
pub mod sql_value;
pub mod storage;
pub mod subject;
pub mod sync_data;
pub mod sync_keys;
pub mod syncer;
pub mod syncer_proofs;
pub mod text;
pub mod timestamp;
pub mod word_manager;
pub mod word_visitor;
