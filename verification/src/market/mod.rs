pub mod error;
pub mod oracle_adapter;
pub mod settlement;
pub mod storage;
pub mod types;
pub mod validation;
pub mod withdraw;
