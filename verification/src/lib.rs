//! Decoding of NVMe identification data.
//!
//! The library decodes the Identify-Controller and Identify-Namespace
//! records an NVMe controller returns to the Identify admin command,
//! enumerates the namespaces a controller exposes under the
//! version-gated rules, and resolves each namespace to its block-device
//! path through the device-class metadata tree.  The admin command and
//! the metadata tree are reached only through the [`host::NvmeHost`]
//! trait; [`host::StubHost`] scripts them for tests, and a program
//! supplies an implementation that performs the system calls.

pub mod codec;
pub mod controller;
pub mod error;
pub mod host;
pub mod namespace;
pub mod resolve;
pub mod text;

pub use codec::{bit_field_extract, to_u16, to_u32, to_u64, u24_to_u32};
pub use controller::NvmeController;
pub use error::{ErrorKind, NvmeError};
pub use host::{NvmeAdminCmd, NvmeHost, StubHost};
pub use namespace::NvmeNameSpace;
pub use text::{size_bytes_2_size_human, to_hex_string};
