//! Verified core of a small product/user administration service: text and
//! file-name rules, upload decisions, data models and the decisions that the
//! repositories, the admin service and the seeder take.

pub mod admin;
pub mod assembly;
pub mod errors;
pub mod factory;
pub mod ids;
pub mod models;
pub mod paths;
pub mod repository;
pub mod seed;
pub mod text;
pub mod upload;
pub mod validator;
