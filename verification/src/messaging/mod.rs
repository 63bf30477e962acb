pub mod mqtt;
pub mod topic;
pub mod translate;
