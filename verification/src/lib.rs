//! Verified core logic of the CloudDesk web desktop.

pub mod text;
pub mod status;
pub mod reason;
pub mod vfs;
pub mod archive;
pub mod acl;
pub mod downloads;
pub mod transfers;
pub mod lexical;
pub mod egress;
pub mod ospath;
pub mod wopi;
pub mod office;
pub mod web;
pub mod code;
pub mod ssh;
pub mod browser;
pub mod terminal;
pub mod vault;
pub mod api;
pub mod uploads;
pub mod hostkeys;
pub mod localfs;
pub mod checksum;
