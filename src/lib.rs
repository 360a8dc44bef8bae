//! The decision core of a modular HTTP host whose routes come from shared
//! libraries loaded at run time.
//!
//! - `paths`: route normalization and route patterns.
//! - `json`: JSON values as plain data.
//! - `settings`: the settings record, partial patches, derived limits.
//! - `rate_limit`, `waf`, `oauth2`, `guards`, `admin`, `cors`: the middleware
//!   decisions.
//! - `loader`, `package`, `util`, `features`: reading manifests and building
//!   the routing table.
//! - `openapi`: the reflected API description.
//! - `response`: reading a handler's tagged payload.
//! - `supervisor`, `watcher`: live state and reload decisions.
//! - `plugins`: payloads of the bundled sample modules.
//! - `text`: character-level helpers.

pub mod text;
pub mod paths;
pub mod json;
pub mod settings;
pub mod rate_limit;
pub mod waf;
pub mod oauth2;
pub mod guards;
pub mod response;
pub mod loader;
pub mod openapi;
pub mod admin;
pub mod util;
pub mod cors;
pub mod plugins;
pub mod features;
pub mod supervisor;
pub mod watcher;
pub mod package;
pub mod decimal;
pub mod greetings;
pub mod order;
