//! A tray of named web destinations, one surface each, switched by the user or
//! rotated on a timer. The library holds the catalog validation and the
//! visibility / rotation state machine; the windowing host drives it.
pub mod display;
pub mod laws;
pub mod menu;
pub mod rotation;
pub mod state;
pub mod website;
