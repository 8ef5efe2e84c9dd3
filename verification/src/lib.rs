//! Reading ZIP archives from a seekable byte source.
//!
//! The archive's central directory is located and parsed once, when a reader
//! is opened; after that every entry can be opened by its index, in any
//! order, and its bytes streamed out of the shared source.
//!
//! The logic never touches a source by itself.  It says what it needs next
//! ([`exchange::Request`]) and takes what came back ([`exchange::Reply`]):
//! [`open::Opener`] finds and reads the central directory this way, and
//! [`local::EntryOpener`] the local header of one entry.  What they must come
//! to is written down over the bytes of the archive in [`archive`] and
//! [`local`], and each step is proved to stay on the way to it.  An entry's
//! stream is kept by [`stream::EntryStream`]: it bounds what is read to the
//! entry's compressed bytes and holds what comes out against the checksum of
//! the central directory.
//!
//! [`reader::ZipFileReader`] puts these together over any
//! [`source::SeekableSource`], such as the in-memory
//! [`source::MemorySource`].  A caller whose source cannot stand behind that
//! trait, an asynchronous one for instance, serves the requests itself.

pub mod archive;
pub mod codec;
pub mod crc32;
pub mod entry;
pub mod error;
pub mod exchange;
pub mod file;
pub mod local;
pub mod open;
pub mod reader;
pub mod source;
pub mod stream;
pub mod trailer;
pub mod wire;
