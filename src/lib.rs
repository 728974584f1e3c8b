//! Exchange-rate tray: a store of the latest quote per symbol, the rules that
//! turn provider replies into quotes, the refresh orchestrator, and the layout
//! of the composite tray icon.
pub mod decimal;
pub mod text;
pub mod store;
pub mod fetch;
pub mod orchestrator;
pub mod host;
pub mod compositor;
