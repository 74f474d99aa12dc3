//! Verified core of a personal cloud drive.

pub mod clock;
pub mod errors;
pub mod files;
pub mod text;
pub mod quota;
pub mod resumable;
pub mod sync;
pub mod crypto;
pub mod auth;
pub mod share_link;
pub mod s3;
pub mod sigv4;
pub mod url_text;
pub mod uploads;
pub mod repository;
pub mod ids;
pub mod jobs;
pub mod storage;
pub mod config;
pub mod usecases;
pub mod validation;
pub mod dto;
pub mod email;
