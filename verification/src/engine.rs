//! What the desktop shells ask of a disc and of a rip: what to show, what to
//! run next, and what to say when it is done.

pub mod naming;
pub mod naming_laws;
pub mod identity;
pub mod rows;
pub mod row_laws;
pub mod summary;
pub mod summary_laws;
pub mod request;
pub mod rip;
pub mod rip_laws;
pub mod titles;
pub mod title_laws;
