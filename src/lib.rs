//! Caesar cipher: a case-preserving rotation of the Latin letters of a text,
//! with permissive and validated entry points, all verified with Verus.
pub mod caesar_cipher;
pub mod config;
pub mod cli;
