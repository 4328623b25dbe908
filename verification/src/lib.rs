//! ColliderVM toy: flow-identifier derivation by nonce grinding, and the
//! assembly of the locking scripts that re-check the same hash prefix on
//! chain.
//!
//! Every function carries a contract over a mathematical model of its data:
//! byte strings are `Seq<u8>`, numbers are `nat`, and the two hash functions
//! are named but not interpreted.

pub mod config;
pub mod flow_id;
pub mod le_bytes;
pub mod nibble;
pub mod presigned;
pub mod script;
pub mod sighash;
pub mod stack_machine;

pub use config::ColliderVmConfig;
pub use flow_id::{calculate_flow_id, find_valid_nonce, FlowError};
pub use nibble::flow_id_to_prefix_bytes;
pub use presigned::{OperatorInfo, PresignedFlow, PresignedStep, SignerInfo};
pub use script::{
    build_script_f1_blake3_locked, build_script_f2_blake3_locked, GateRole, F1_THRESHOLD,
    F2_THRESHOLD,
};
pub use sighash::create_toy_sighash_message;
