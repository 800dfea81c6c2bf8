//! Address families, errors, derived names and kernel settings shared by the controllers.

pub mod error;
pub mod ipfamily;
pub mod naming;
pub mod sysctl;
