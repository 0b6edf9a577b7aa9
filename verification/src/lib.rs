//! Verified core logic of the tuner messenger bridge.

pub mod text;
pub mod patterns;
pub mod content;
pub mod matrix_format;
pub mod id_map;
pub mod dedupe;
pub mod blockquotes;
pub mod matrix_transport;
pub mod paths;
pub mod remote_hub;
pub mod handover;
pub mod review;
pub mod keyboard;
pub mod remote_dashboard;
pub mod commands;
pub mod access;
pub mod streaming;
pub mod rate_limit;
pub mod model_select;
pub mod attachments;
pub mod matrix_bot;
pub mod review_sessions;
pub mod review_callback;
pub mod cron_pages;
pub mod archive;
pub mod tokens;
pub mod media;
pub mod history;
pub mod matrix_login;
pub mod supervisor;
pub mod cron_schedule;
pub mod sessions;
pub mod ingress;
pub mod upgrade_offer;
pub mod observer;
pub mod quota;
