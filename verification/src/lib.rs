//! Self-describing byte encodings for typed on-chain state, and the checks
//! that accept or reject one state transition.
//!
//! * `codec` holds the codec capability and the cursor; `le`, `ints`,
//!   `sequence`, `text`, `record` and `sum` hold the wire layout of each kind
//!   of type; `wrapper`, `types` and `samples` hold cell types.
//! * `cell_manager` is the cell store, `dispatch` resolves the arguments of a
//!   contract from it; `order` is the order of the identifiers.
//! * `transition` verifies one transition; `contract` gathers the outcome of
//!   one contract execution; `travel` is the contract of the frog.
//! * `registration` and `declaration` check what is declared before it is
//!   taken up; `generators` writes the text of a contract project; `hash`
//!   ties cells and contracts to the name of their application.

pub mod cell_manager;
pub mod codec;
pub mod contract;
pub mod declaration;
pub mod dispatch;
pub mod generators;
pub mod hash;
pub mod ints;
pub mod le;
pub mod order;
pub mod record;
pub mod registration;
pub mod samples;
pub mod sequence;
pub mod sum;
pub mod text;
pub mod transition;
pub mod travel;
pub mod types;
pub mod wrapper;

pub use cell_manager::CellManager;
pub use codec::{consume_and_decode, Format, OnChain};
pub use contract::{Contract, ContractResult};
pub use types::Frog;
pub use wrapper::OnChainWrapper;
