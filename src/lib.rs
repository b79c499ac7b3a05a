//! Executable payload descriptors of ledger transactions: how the code that a
//! deploy runs is addressed, which entry point it calls, and the decoding of
//! its argument buffer.
pub mod deploy_item;
pub mod keys;
pub mod loaded_item;
pub mod ordering;
pub mod render;
pub mod runtime_args;

pub use deploy_item::{DeployItemView, ExecutableDeployItem, ResolveError, DEFAULT_ENTRY_POINT_NAME};
pub use keys::{Account, ContractHash, ContractPackageHash, Key};
pub use runtime_args::{ArgumentDecodeError, RuntimeArgs};
pub use loaded_item::LoadedItem;
