pub mod balance;
pub mod fork;
pub mod health;
pub mod mainnet;
pub mod program;
pub mod rpc;
pub mod token;
pub mod transaction;
