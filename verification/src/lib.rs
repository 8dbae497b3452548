//! A minimal user-account repository: create a user with a bcrypt-hashed
//! password, look a user up by identifier or email, and list all users with
//! an independent count. The store behind the repository is an in-memory
//! users table with a verified invariant: store-assigned increasing
//! identifiers and unique emails.

pub mod clock;
pub mod exception;
pub mod laws;
pub mod model;
pub mod password;
pub mod repository;

pub use crate::exception::Exception;
pub use crate::repository::CreateUser;
pub use crate::repository::Store;
pub use crate::repository::User;
