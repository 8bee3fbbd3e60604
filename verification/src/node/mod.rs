//! What a node finds out about the machine it runs on.

pub mod hardware;
pub mod validator;
