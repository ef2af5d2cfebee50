//! What travels on the protocol's channels, and the table of requests that
//! wait for their response.
pub mod messages;
pub mod response;
