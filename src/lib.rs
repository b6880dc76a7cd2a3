//! Instrumentation engine for a running external process: byte-pattern
//! address resolution, pointer-chain dereferencing, inline-hook integrity
//! tracking and an edge-triggered event buffer.

pub mod bytes;
pub mod pattern;
pub mod pointer;
pub mod memory;
pub mod events;
pub mod hooks;
pub mod session;
pub mod game;
pub mod widgets;

pub use events::{EventBuffer, EventFlag, Webserver};
pub use game::{DxVersion, GameKind, MockGame};
pub use hooks::HookDescriptor;
pub use pattern::ScanPattern;
pub use pointer::PointerChain;
pub use session::GameSession;
pub use widgets::{ChrDbgFlagsWidget, EventFlagWidget, MiscWidget};
