//! Cash kiosk for museum tickets: the rules of the sale, the banknote validator, the
//! ticket printer and the signed ticket tokens, as verified functions on plain values.

pub mod admin;
pub mod base64url;
pub mod commands;
pub mod config;
pub mod db;
pub mod ids;
pub mod keyed;
pub mod models;
pub mod nv9;
pub mod order;
pub mod payment;
pub mod printer;
pub mod text;
pub mod token;
pub mod view_laws;
