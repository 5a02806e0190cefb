//! Asset readiness and hot-reload orchestration for a 2D action game.
//!
//! The library decides: it aggregates load progress over a dependency graph,
//! gates the state machine on it, filters change notifications, promotes stub
//! entities once their definitions resolve, and owns the singleton resources
//! (camera, locale, fonts, background) together with their replacement on
//! reload. The engine around it performs what it decides.

pub mod input;
pub mod progress;
pub mod debounce;
pub mod materialize;
pub mod lifecycle;
pub mod schedule;
