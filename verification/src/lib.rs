//! A state machine with capability-based memory access: the state of a contract lives in memory
//! cells that only an operation with the right capability can consume, and every operation is
//! verified against the codex of its contract by scripts of a virtual machine over a finite
//! field.

use vstd::prelude::*;

pub mod bytes;
pub mod commit;
pub mod fe;
pub mod site;
pub mod text;
pub mod util;
pub mod state;
pub mod vm;
pub mod operation;
pub mod codec;
pub mod codex_bytes;
pub mod issue_bytes;
pub mod order;
pub mod codex;
pub mod issue;
pub mod contract;
pub mod isa;

pub use crate::codex::{CallError, Codex, CodexId, Memory, VerifierCall};
pub use crate::contract::ConstU32;
pub use crate::fe::Fe256;
pub use crate::isa::context::VmContext;
pub use crate::isa::instr::{InstrFamily, UsonicInstr, ISA_ULTRASONIC};
pub use crate::isa::regs::{IoCat, RegE, UsonicCore};
pub use crate::issue::{Consensus, ContractId, ContractMeta, ContractName, Issue, TypeName};
pub use crate::operation::{CallId, CellAddr, FromSliceError, Genesis, Input, Operation, Opid, VerifiedOperation};
pub use crate::site::{LibId, LibSite, ReservedBytes};
pub use crate::state::{AuthToken, RawData, StateCell, StateData, StateValue};
pub use crate::text::TextForm;
pub use crate::util::Identity;
pub use crate::vm::{lib_is_tame, CoreConfig, FieldOp, LibRepo};

verus! {

/// Name of the strict type library that holds the types of this crate.
pub const LIB_NAME_ULTRASONIC: &'static str = "UltraSONIC";

} // verus!
