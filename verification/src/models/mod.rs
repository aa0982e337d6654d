pub mod program;
pub mod requests;
pub mod responses;
pub mod rpc;
pub mod token;
