//! Data model, identifier scheme and scoring engine of a security-operations
//! maturity questionnaire.

pub mod answer;
pub mod aspect;
pub mod cid;
pub mod compat;
pub mod control;
pub mod control_map;
pub mod data;
pub mod error;
pub mod profile;
pub mod schema;
pub mod score;
pub mod text;
