//! Decision logic of the Hearth web console: the account self-service pages
//! and the `/ui/admin/*` management surface.

pub mod access;
pub mod account;
pub mod admins;
pub mod audit;
pub mod calendar;
pub mod clients;
pub mod codec;
pub mod config_editor;
pub mod consents;
pub mod diff;
pub mod groups;
pub mod identity_providers;
pub mod json;
pub mod linked;
pub mod members;
pub mod migrations;
pub mod onboarding;
pub mod order;
pub mod org_members;
pub mod orgs;
pub mod query;
pub mod rbac;
pub mod realms;
pub mod roles;
pub mod sessions;
pub mod text;
pub mod units;
pub mod user_access;
pub mod users;
pub mod web;
