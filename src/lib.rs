//! Administrative control plane of a multi-tenant mail service: who may act
//! on which domain, the lifecycle of mail entries and domain signing keys, and
//! the editing of alias and list membership.

pub mod api;
pub mod api_types;
pub mod expansion;
pub mod login_state;
pub mod models;
pub mod order;
pub mod state;
