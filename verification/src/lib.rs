//! Generator for a proxy DLL project: from a catalog of export records
//! (ordinal, name, entry-point address) and a binary's base name it renders
//! a header, an implementation file, an assembly forwarder table, a
//! module-definition file, and optionally an embedded-binary header and a
//! loader-entry stub — all agreeing on slot indices, symbol names and array
//! sizes, which is proved of every artifact's text.

pub mod export;
pub mod numerals;
pub mod packing;
pub mod resolution;
pub mod dll_proxy_builder;
