//! Order management for a print and clothing shop: clients, orders, the
//! garment lines and impressions that an order is made of, users, and
//! snapshots of the whole store.
//!
//! All state lives in an explicit [`database::Database`] value, and every
//! operation states in its contract how the store after the call relates to
//! the store before it. Amounts of money are integers in the smallest
//! currency unit and tax rates are integers in hundredths of a percent; the
//! tax on a subtotal is rounded down to a whole unit. A client owes what its
//! orders owe together: a payment, a recalculation, and deleting an order or
//! moving it to another client bring the debt of the client up to date. A new
//! order owes nothing, so creating one writes the order and nothing else.
//!
//! An operation that needs a fresh identity or the present instant comes
//! twice: once taking them as arguments, with a contract that says exactly
//! what happens, and once drawing them itself, with a contract that says
//! that this happens for some identity and some instant.

pub mod error;
pub mod text;
pub mod temporal;
pub mod ident;
pub mod config;

pub mod table;
pub mod ordering;
pub mod models;
pub mod database;

pub mod sequence;
pub mod pricing;
pub mod dto;
pub mod repositories;
pub mod services;

pub mod backup;
pub mod consistency;
