//! What an operator configures.

pub mod validator;
