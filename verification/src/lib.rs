//! A FAT16/FAT32 filesystem and SD card library for block devices with
//! 512-byte blocks, with its parsing and bookkeeping logic verified.

pub mod blockdevice;
pub mod bytes;
pub mod fat;
pub mod filesystem;
pub mod sdcard;
pub mod sdmmc;
pub mod sdmmc_proto;
pub mod text;

pub use crate::blockdevice::{Block, BlockCache, BlockCount, BlockDevice, BlockIdx};
pub use crate::fat::volume::{FatVolume, VolumeName};
pub use crate::filesystem::attributes::Attributes;
pub use crate::filesystem::cluster::{Cluster, ClusterId};
pub use crate::filesystem::directory::{DirEntry, Directory};
pub use crate::filesystem::filename::{FilenameError, ShortFileName};
pub use crate::filesystem::files::{File, FileError, FileInfo, Mode, RawFile};
pub use crate::filesystem::handles::{Handle, HandleGenerator};
pub use crate::filesystem::lfn::LfnBuffer;
pub use crate::filesystem::search_id::{SearchId, SearchIdGenerator};
pub use crate::filesystem::timestamp::{TimeSource, Timestamp};

use vstd::prelude::*;

verus! {

/// All the ways the functions in this crate can fail.
#[derive(Debug, Clone, PartialEq, Eq)]
pub enum Error<E> {
    /// The underlying block device threw an error.
    DeviceError(E),
    /// The filesystem is badly formatted (or this code is buggy).
    FormatError(&'static str),
    /// The given `VolumeIdx` was bad,
    NoSuchVolume,
    /// The given filename was bad
    FilenameError(FilenameError),
    /// Out of memory opening volumes
    TooManyOpenVolumes,
    /// Out of memory opening directories
    TooManyOpenDirs,
    /// Out of memory opening files
    TooManyOpenFiles,
    /// Bad handle given
    BadHandle,
    /// That file or directory doesn't exist
    NotFound,
    /// You can't open a file twice or delete an open file
    FileAlreadyOpen,
    /// You can't open a directory twice
    DirAlreadyOpen,
    /// You can't open a directory as a file
    OpenedDirAsFile,
    /// You can't open a file as a directory
    OpenedFileAsDir,
    /// You can't delete a directory as a file
    DeleteDirAsFile,
    /// You can't close a volume with open files or directories
    VolumeStillInUse,
    /// You can't open a volume twice
    VolumeAlreadyOpen,
    /// We can't do that yet
    Unsupported,
    /// Tried to read beyond end of file
    EndOfFile,
    /// Found a bad cluster
    BadCluster,
    /// Error while converting types
    ConversionError,
    /// The device does not have enough space for the operation
    NotEnoughSpace,
    /// Cluster was not properly allocated by the library
    AllocationError,
    /// Jumped to free space during FAT traversing
    UnterminatedFatChain,
    /// Tried to open Read-Only file with write mode
    ReadOnly,
    /// Tried to create an existing file
    FileAlreadyExists,
    /// Bad block size - only 512 byte blocks supported
    BadBlockSize(u16),
    /// Bad offset given when seeking
    InvalidOffset,
    /// Disk is full
    DiskFull,
    /// A directory with that name already exists
    DirAlreadyExists,
    /// The filesystem tried to gain a lock whilst already locked.
    LockError,
}

/// The kinds of I/O error that the errors of this crate are, as the
/// `embedded-io` crate tells them apart.
#[derive(Debug, Clone, Copy, PartialEq, Eq, Structural)]
pub enum ErrorKind {
    /// Unspecified error kind.
    Other,
    /// A parameter was incorrect.
    InvalidInput,
    /// An operation could not be completed for lack of memory.
    OutOfMemory,
    /// An entity was not found, often a file.
    NotFound,
    /// Data not valid for the operation were encountered.
    InvalidData,
    /// This operation is unsupported.
    Unsupported,
    /// The operation lacked the necessary privileges to complete.
    PermissionDenied,
    /// An entity already exists, often a file.
    AlreadyExists,
}

/// The kind of I/O error that error `e` is.
pub open spec fn error_kind_of<E>(e: Error<E>) -> ErrorKind {
    match e {
        Error::DeviceError(_) | Error::FormatError(_) | Error::FileAlreadyOpen
        | Error::DirAlreadyOpen | Error::VolumeStillInUse | Error::VolumeAlreadyOpen
        | Error::EndOfFile | Error::DiskFull | Error::NotEnoughSpace | Error::AllocationError
        | Error::LockError => ErrorKind::Other,
        Error::NoSuchVolume | Error::FilenameError(_) | Error::BadHandle
        | Error::InvalidOffset => ErrorKind::InvalidInput,
        Error::TooManyOpenVolumes | Error::TooManyOpenDirs
        | Error::TooManyOpenFiles => ErrorKind::OutOfMemory,
        Error::NotFound => ErrorKind::NotFound,
        Error::OpenedDirAsFile | Error::OpenedFileAsDir | Error::DeleteDirAsFile
        | Error::BadCluster | Error::ConversionError
        | Error::UnterminatedFatChain => ErrorKind::InvalidData,
        Error::Unsupported | Error::BadBlockSize(_) => ErrorKind::Unsupported,
        Error::ReadOnly => ErrorKind::PermissionDenied,
        Error::FileAlreadyExists | Error::DirAlreadyExists => ErrorKind::AlreadyExists,
    }
}

impl<E> Error<E> {
    /// The kind of I/O error that this error is.
    pub fn kind(&self) -> (r: ErrorKind)
        ensures
            r == error_kind_of(*self),
    {
        match self {
            Error::DeviceError(_) | Error::FormatError(_) | Error::FileAlreadyOpen
            | Error::DirAlreadyOpen | Error::VolumeStillInUse | Error::VolumeAlreadyOpen
            | Error::EndOfFile | Error::DiskFull | Error::NotEnoughSpace | Error::AllocationError
            | Error::LockError => ErrorKind::Other,
            Error::NoSuchVolume | Error::FilenameError(_) | Error::BadHandle
            | Error::InvalidOffset => ErrorKind::InvalidInput,
            Error::TooManyOpenVolumes | Error::TooManyOpenDirs
            | Error::TooManyOpenFiles => ErrorKind::OutOfMemory,
            Error::NotFound => ErrorKind::NotFound,
            Error::OpenedDirAsFile | Error::OpenedFileAsDir | Error::DeleteDirAsFile
            | Error::BadCluster | Error::ConversionError
            | Error::UnterminatedFatChain => ErrorKind::InvalidData,
            Error::Unsupported | Error::BadBlockSize(_) => ErrorKind::Unsupported,
            Error::ReadOnly => ErrorKind::PermissionDenied,
            Error::FileAlreadyExists | Error::DirAlreadyExists => ErrorKind::AlreadyExists,
        }
    }
}

impl<E: core::fmt::Debug> From<E> for Error<E> {
    fn from(value: E) -> (r: Error<E>) {
        Error::DeviceError(value)
    }
}

impl<E: core::fmt::Debug> vstd::std_specs::convert::FromSpecImpl<E> for Error<E> {
    open spec fn obeys_from_spec() -> bool {
        true
    }

    open spec fn from_spec(v: E) -> Error<E> {
        Error::DeviceError(v)
    }
}

/// A handle to a volume.
///
/// A volume is a partition with a filesystem within it.
#[derive(Debug, Copy, Clone, PartialEq, Eq, Structural)]
pub struct RawVolume(pub Handle);

/// This enum holds the data for the various different types of filesystems
/// we support.
#[derive(Debug)]
pub enum VolumeType {
    /// FAT16/FAT32 formatted volumes.
    Fat(FatVolume),
}

/// A number which identifies a volume (or partition) on a disk.
///
/// `VolumeIdx(0)` is the first primary partition on an MBR partitioned disk.
#[derive(Debug, PartialEq, Eq, Structural, Copy, Clone)]
pub struct VolumeIdx(pub usize);

} // verus!
