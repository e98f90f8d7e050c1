//! The plain forms of the subcommands: what they print without any care for
//! what a terminal makes of it.

pub mod disc_info;
pub mod info;
pub mod verify;
pub mod verify_laws;
pub mod plain_laws;
