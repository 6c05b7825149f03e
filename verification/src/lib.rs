//! A client library for the MoEmail temporary-mailbox API, together with
//! random credential generation.

pub mod text;
pub mod moemail;
pub mod numeric;
pub mod rand_key;
pub mod signup;
mod random;
