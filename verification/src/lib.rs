//! A hierarchical, capability-oriented object network: named objects that
//! expose services at three visibility tiers, organize sub-objects, and
//! declare conformance to versioned interfaces drawn from a vendor-namespaced
//! package hierarchy. Structural changes to an object go through atomic
//! transactions: a batch of commands either takes effect as a whole or
//! leaves the object untouched, and returns the first failing command's
//! error.

pub mod version;
pub mod path;
pub mod service;
pub mod interface;
pub mod object;
pub mod objtrans;
pub mod trans;
pub mod laws;
pub mod catalog;
pub mod hierarchy;
pub mod master;

pub use version::InterfaceVersion;
pub use path::Path;
pub use path::PathIter;
pub use path::BiPathIter;
pub use service::Service;
pub use service::ServiceArch;
pub use interface::Interface;
pub use interface::InterfaceDependency;
pub use interface::Package;
pub use object::Object;
pub use object::ObjectVector;
pub use objtrans::ObjectTransaction;
pub use objtrans::TransactionError;
pub use objtrans::Visibility;
pub use trans::Transaction;
pub use catalog::InterfaceHierarchy;
pub use hierarchy::ObjectHierarchy;
pub use hierarchy::InterfaceLoader;
pub use hierarchy::ImplementerLoader;
pub use master::Master;
