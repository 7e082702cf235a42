//! What holds of the registry as a whole.
pub mod asking;
pub mod calls;
pub mod changes;
pub mod consistency;
pub mod executing;
pub mod keys;
pub mod matching;
pub mod registration;
pub mod requests;
pub mod routing;
pub mod selecting;
pub mod tagging;
pub mod watching;
