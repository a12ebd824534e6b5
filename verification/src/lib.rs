//! Encoding and orchestration for proving chains of hash steps over pairs of
//! 256-bit words.
//!
//! Numbers enter as 256-bit integers and leave as 32 big-endian bytes, each
//! byte written as decimal text, inside the JSON that the constraint system's
//! argument reader takes. A proving session is a script of actions: the
//! library decides what is done next and what a failure means; its driver
//! does the work on files and in the proving backends.

pub mod action;
pub mod bigendian;
pub mod distinct;
pub mod error;
pub mod ethuint;
pub mod json;
pub mod prover;
pub mod session;
pub mod state;
pub mod word;

pub use action::{Action, Curve};
pub use bigendian::{be_bytes, be_value, pow256};
pub use error::{ErrorKind, ProverError};
pub use ethuint::EthU256;
pub use prover::Prover;
pub use session::Session;
pub use state::{CircuitInputGroth16, HashInputs, State, SEQ_LEN};
pub use word::{ByteText, U256};
