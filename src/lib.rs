//! The deciding core of a tray-item event loop: item identities, wake tags
//! and the shared pending list, the slot table of conversions in flight, and
//! the dispatcher that decides which single source each wake names.

pub mod engine;
pub mod slots;
pub mod token;
pub mod wake;
