//! Scanning engine for a key matrix that is addressed through a clocked
//! shift-register chain.
//!
//! The engine drives four output lines and samples one input line. Driving
//! a line, sleeping and publishing suspend the caller, so the engine is a
//! state machine: each step takes what the previous action produced and
//! answers with the next action to perform. Every step is specified against
//! [`protocol::ScanModel`], and the module [`laws`] proves what a whole scan
//! pass does.

pub mod clock;
pub mod key;
pub mod laws;
pub mod matrix;
pub mod offset;
pub mod pins;
pub mod protocol;
pub mod timing;

pub use crate::key::{DebounceState, KeyEvent, KeyState};
pub use crate::matrix::{MatrixError, MatrixTrait, SequentialMatrix};
pub use crate::offset::OffsettedMatrix;
pub use crate::pins::{Line, SequentialMatrixPins};
pub use crate::protocol::{Action, InputMode, ScanEvent, ScanModel, ScanPhase, WaitPhase};
