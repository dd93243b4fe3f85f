//! Template cache, form-history ledger and hot-reload session logic for
//! hypermedia fragments.
//!
//! The [`store`] keeps the validated source of each endpoint; the [`ledger`]
//! remembers every form a client submitted per endpoint and decides whether a
//! submission is new or the re-render of a live fragment; a [`session`] runs
//! the reload handshake with one browser and feeds the ledger.

pub mod config;
pub mod endpoint;
pub mod file_type;
pub mod inject;
pub mod ledger;
pub mod session;
pub mod store;
pub mod template;
pub mod text;

pub use template::{template_hydrate, ContextPlan, Template};
