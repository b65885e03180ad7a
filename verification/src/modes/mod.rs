//! What the robot does in each of its modes.
pub mod scan_content;
pub mod follow_street;
pub mod scan_bank;
pub mod searching_bank;
pub mod searching_content;
