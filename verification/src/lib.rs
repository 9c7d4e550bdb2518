//! Verified core of a terminal trading dashboard: the interaction state
//! machine (tabs, scrolling, symbol and order entry), the order lifecycle
//! (placement, fills, cancellation, trade log), key dispatch, and the text
//! shown by the views.

pub mod text;
pub mod orders;
pub mod app;
pub mod keys;
pub mod view;
pub mod feed;
pub mod laws;
