//! Core of a terminal task tracker: the task model with its wire codec, the
//! request plans of the authenticated REST client, password-checked
//! registration and login, the free-text ingestion engine with its
//! deterministic offline fallback, the disposable task mirror, and the
//! synchronization coordinator that ties one round of them together.

pub mod ai;
pub mod cache;
pub mod clock;
pub mod config;
pub mod db;
pub mod model;
pub mod sync;
pub mod task;
pub mod text;
pub mod ui;
