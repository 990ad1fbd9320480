//! Session-backed article lifecycle: validation, storage, sessions, signed
//! cookies and request routing, each with a verified contract.
pub mod article;
pub mod router;
pub mod session;
pub mod signing;
pub mod text;
