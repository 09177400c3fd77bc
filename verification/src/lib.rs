//! Verified core of a Cairo virtual machine: the coordinator side of the hint
//! execution bridge and the signature builtin with its deferred memory
//! validation.
//!
//! Values cross the bridge by copy only. The coordinator owns memory, segments
//! and scopes; a worker asks for every read and write with an [`Operation`]
//! and gets exactly one [`OperationResult`] back for each, `End` excepted.
//!
//! [`Operation`]: python_executor::Operation
//! [`OperationResult`]: python_executor::OperationResult

pub mod assoc;
pub mod felt;
pub mod errors;
pub mod relocatable;
pub mod ecdsa;
pub mod math_utils;
pub mod memory;
pub mod signature;
pub mod instance_def;
pub mod memory_segments;
pub mod vm_core;
pub mod exec_scope;
pub mod hint_processor;
pub mod python_executor;
pub mod hint_runner;
