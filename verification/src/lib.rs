//! Interaction core of a terminal catalog browser: the catalog model, platform
//! dispatch, list filtering and selection, the modal input state machine and the
//! bookkeeping around external install, uninstall and launch commands.

pub mod app;
pub mod registry;
pub mod system;
pub mod utils;
