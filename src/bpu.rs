pub mod chance;
pub mod constants;
pub mod hardware;
pub mod processor;
pub mod replication;
