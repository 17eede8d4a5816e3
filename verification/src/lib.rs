//! Marketplace backend core: registration, onboarding, catalog, bookings,
//! messaging, reviews, favorites and related rules, verified against an
//! in-memory model of the relational store.
//!
//! The crate is the logic alone, exposed as functions over the store
//! model and a caller-supplied clock; the HTTP routing, multipart
//! handling and file storage around it belong to the surrounding
//! program.
#![verifier::loop_isolation(false)]

pub mod admin;
pub mod attachments;
pub mod auth;
pub mod bookings;
pub mod businesses;
pub mod categories;
pub mod clients;
pub mod errors;
pub mod favorites;
pub mod laws;
pub mod locations;
pub mod messages;
pub mod passwords;
pub mod posts;
pub mod providers;
pub mod reviews;
pub mod services;
pub mod store;
pub mod tokens;
pub mod validate;
