//! Decision logic for a desktop tray application: the tray menu, the
//! lifecycle of its named windows, and the settings of its log sink.
//!
//! Nothing here touches the GUI host. Each event handler takes the current
//! state and an event, updates the state, and returns the command that the
//! host must carry out.
pub mod text;
pub mod window;
pub mod menu;
pub mod shell;
pub mod logging;
