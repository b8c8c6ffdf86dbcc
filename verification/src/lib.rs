//! Headers of GUID partition tables.
pub mod checksum;
pub mod codec;
pub mod create;
pub mod cursor;
pub mod device;
pub mod disk;
pub mod endian;
pub mod error;
pub mod find;
pub mod guid;
pub mod header;
pub mod laws;
pub mod layout;
pub mod partition;
pub mod read;
pub mod table;
pub mod text;
pub mod write;
