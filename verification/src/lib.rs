//! Lifecycle of screen-capture sessions.
//!
//! A [`Capture`] names one capture target, a [`CaptureSource`], and holds at
//! most one active [`Session`]. It is idle or capturing: `start` opens a
//! session where none is active, `stop` closes the active one, and each does
//! nothing where there is nothing for it to do.
//!
//! Sessions are handed out by a [`SessionManager`]. A session names the
//! capture it was made for without owning it. A [`CaptureTable`] holds the
//! live captures and resolves that name for as long as the capture is live,
//! and never after.
//!
//! Windows, workspaces and outputs appear as numbers, one for each protocol
//! object. The calls take `&mut`, so whoever shares a capture between
//! threads puts it behind a lock, and each call is then one critical
//! section.
//!
//! [`laws`] states what holds across calls.

pub mod capture;
pub mod laws;
pub mod session;
pub mod source;
pub mod table;

pub use capture::{Capture, CaptureView};
pub use session::{ManagerView, Session, SessionManager};
pub use source::{CaptureFilter, CaptureSource};
pub use table::{CaptureTable, TableView};
