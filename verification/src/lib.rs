//! Control-plane core for DDoS mitigation at a point of presence.

pub mod action;
pub mod audit;
pub mod auth;
pub mod clock;
pub mod config;
pub mod decision;
pub mod domain;
pub mod engine;
pub mod guardrails;
pub mod ids;
pub mod inventory;
pub mod json;
pub mod lifecycle;
pub mod listing;
pub mod net;
pub mod playbook;
pub mod quota;
pub mod reconciler;
pub mod repository;
pub mod safelist;
pub mod scope;
pub mod search;
pub mod stats;
pub mod text;
pub mod traits;
