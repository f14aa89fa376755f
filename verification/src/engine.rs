pub mod http;
pub mod tcp;
