//! Notifications: webhook signing and event names.

pub mod webhook;
