pub mod address;
pub mod market;
pub mod outcome_token;
pub mod resolution;
pub mod table;
pub mod treasury;
