//! Verified core of a bulletin board system for Meshtastic mesh networks.

pub mod roles;
pub mod text;
pub mod ui;
pub mod frame;
pub mod mesh;
pub mod reliable;
pub mod clock;
pub mod dispatch;
pub mod slots;
pub mod random;
pub mod config;
pub mod keyed;
pub mod public;
pub mod session;
pub mod storage;
pub mod metrics;
pub mod eightball;
pub mod fortune;
pub mod apps;
pub mod audit;
pub mod auditlog;
pub mod activity;
pub mod tinymush;
pub mod password;
pub mod auth;
pub mod replies;
pub mod dashboard;
pub mod schema;
pub mod npcs;
pub mod restart;
pub mod nodes;
pub mod commands;
pub mod device;
pub mod order;
pub mod direct;
pub mod reader;
pub mod recipe;
