//! Open files: their modes, position bookkeeping and seeking.

use crate::filesystem::cluster::ClusterId;
use crate::filesystem::directory::DirEntry;
use crate::filesystem::search_id::SearchId;
use crate::RawVolume;
use vstd::prelude::*;

verus! {

/// A handle for an open file.
#[derive(Debug, Copy, Clone, PartialEq, Eq, Structural)]
pub struct RawFile(pub SearchId);

/// Errors related to file operations.
#[derive(Debug, Clone, Copy, PartialEq, Eq, Structural)]
pub enum FileError {
    /// Tried to use an invalid offset.
    InvalidOffset,
}

/// The different ways we can open a file.
#[derive(Debug, PartialEq, Eq, Structural, Copy, Clone)]
pub enum Mode {
    /// Open a file for reading, if it exists.
    ReadOnly,
    /// Open a file for appending (writing to the end of the existing file), if it exists.
    ReadWriteAppend,
    /// Open a file and remove all contents, before writing to the start of the existing file, if it exists.
    ReadWriteTruncate,
    /// Create a new empty file. Fail if it exists.
    ReadWriteCreate,
    /// Create a new empty file, or truncate an existing file.
    ReadWriteCreateOrTruncate,
    /// Create a new empty file, or append to an existing file.
    ReadWriteCreateOrAppend,
}

/// Metadata about an open file.
#[derive(Debug, Clone, Copy)]
pub struct FileInfo {
    /// Unique ID for this file.
    pub file_id: RawFile,
    /// The unique ID for the volume this file is on.
    pub volume_id: RawVolume,
    /// The last cluster we accessed, and how many bytes that short-cuts us.
    pub current_cluster: (u32, ClusterId),
    /// How far through the file we've read (in bytes).
    pub current_offset: u32,
    /// What mode the file was opened in.
    pub mode: Mode,
    /// DirEntry of this file.
    pub entry: DirEntry,
    /// Did we write to this file?
    pub dirty: bool,
}

/// The new offset of a seek by `offset` bytes from `current` in a file of
/// `length` bytes, if it stays within the file.
pub open spec fn seek_target(current: u32, offset: i32, length: u32) -> Option<u32> {
    let t = current + offset;
    if 0 <= t <= length {
        Some(t as u32)
    } else {
        None
    }
}

impl FileInfo {
    /// Are we at the end of the file?
    pub fn eof(&self) -> (r: bool)
        ensures
            r == (self.current_offset == self.entry.size),
    {
        self.current_offset == self.entry.size
    }

    /// How long is the file?
    pub fn length(&self) -> (r: u32)
        ensures
            r == self.entry.size,
    {
        self.entry.size
    }

    /// Seek to a new position in the file, relative to the start of the file.
    pub fn seek_from_start(&mut self, offset: u32) -> (r: Result<(), FileError>)
        ensures
            old(self).current_offset <= old(self).entry.size ==> final(self).current_offset <= final(self).entry.size,
            r is Ok <==> offset <= old(self).entry.size,
            r is Ok ==> *final(self) == (FileInfo { current_offset: offset, ..*old(self) }),
            r is Err ==> *final(self) == *old(self),
    {
        if offset > self.entry.size {
            return Err(FileError::InvalidOffset);
        }
        self.current_offset = offset;
        Ok(())
    }

    /// Seek to a new position in the file, relative to the end of the file.
    pub fn seek_from_end(&mut self, offset: u32) -> (r: Result<(), FileError>)
        ensures
            old(self).current_offset <= old(self).entry.size ==> final(self).current_offset <= final(self).entry.size,
            r is Ok <==> offset <= old(self).entry.size,
            r is Ok ==> *final(self) == (FileInfo {
                current_offset: (old(self).entry.size - offset) as u32,
                ..*old(self)
            }),
            r is Err ==> *final(self) == *old(self),
    {
        if offset > self.entry.size {
            return Err(FileError::InvalidOffset);
        }
        self.current_offset = self.entry.size - offset;
        Ok(())
    }

    /// Seek to a new position in the file, relative to the current position.
    pub fn seek_from_current(&mut self, offset: i32) -> (r: Result<(), FileError>)
        ensures
            old(self).current_offset <= old(self).entry.size ==> final(self).current_offset <= final(self).entry.size,
            match seek_target(old(self).current_offset, offset, old(self).entry.size) {
                Some(t) => r is Ok && *final(self) == (FileInfo { current_offset: t, ..*old(self) }),
                None => r is Err && *final(self) == *old(self),
            },
    {
        let new_offset: i64 = self.current_offset as i64 + offset as i64;
        if new_offset < 0 || new_offset > self.entry.size as i64 {
            return Err(FileError::InvalidOffset);
        }
        self.current_offset = new_offset as u32;
        Ok(())
    }

    /// Amount of file left to read.
    pub fn left(&self) -> (r: u32)
        requires
            self.current_offset <= self.entry.size,
        ensures
            r == self.entry.size - self.current_offset,
    {
        self.entry.size - self.current_offset
    }

    /// Update the file's length.
    pub fn update_length(&mut self, new: u32)
        ensures
            *final(self) == (FileInfo {
                entry: DirEntry { size: new, ..old(self).entry },
                ..*old(self)
            }),
    {
        self.entry.size = new;
    }
}

/// A seek on an open file.
#[derive(Debug, Copy, Clone, PartialEq, Eq, Structural)]
pub enum Seek {
    /// To this many bytes from the start.
    FromStart(u32),
    /// To this many bytes before the end.
    FromEnd(u32),
    /// By this many bytes from the current position.
    FromCurrent(i32),
}

/// The file once the seek `s` was made on `f`; unchanged when the seek
/// would leave the file. Seeking back before the remembered cluster goes
/// back to the first cluster.
pub open spec fn file_after_seek(f: File, s: Seek) -> File {
    match s {
        Seek::FromStart(o) => if o <= f.length {
            File {
                current_offset: o,
                current_cluster: if o < f.current_cluster.0 {
                    (0u32, f.starting_cluster)
                } else {
                    f.current_cluster
                },
                ..f
            }
        } else {
            f
        },
        Seek::FromEnd(o) => if o <= f.length {
            File {
                current_offset: (f.length - o) as u32,
                current_cluster: if o < f.current_cluster.0 {
                    (0u32, f.starting_cluster)
                } else {
                    f.current_cluster
                },
                ..f
            }
        } else {
            f
        },
        Seek::FromCurrent(o) => match seek_target(f.current_offset, o, f.length) {
            Some(t) => File { current_offset: t, ..f },
            None => f,
        },
    }
}

/// The file once the seeks `seeks` were made on `f`, in order.
pub open spec fn file_after_seeks(f: File, seeks: Seq<Seek>) -> File
    decreases seeks.len(),
{
    if seeks.len() == 0 {
        f
    } else {
        file_after_seek(file_after_seeks(f, seeks.drop_last()), seeks.last())
    }
}

/// Any number of seeks keeps a file's length and its directory entry (so
/// the length stays equal to the entry's size once `update_length` set
/// both), and keeps a position within the length there.
pub proof fn lemma_seeks_keep_length(f: File, seeks: Seq<Seek>)
    ensures
        file_after_seeks(f, seeks).length == f.length,
        file_after_seeks(f, seeks).entry == f.entry,
        f.current_offset <= f.length ==> file_after_seeks(f, seeks).current_offset
            <= file_after_seeks(f, seeks).length,
    decreases seeks.len(),
{
    if seeks.len() > 0 {
        lemma_seeks_keep_length(f, seeks.drop_last());
    }
}

/// An open file, with its position and the cluster it was last read at.
#[derive(Debug, Clone, Copy)]
pub struct File {
    /// The starting point of the file.
    pub starting_cluster: ClusterId,
    /// The current cluster, and how many bytes that short-cuts us.
    pub current_cluster: (u32, ClusterId),
    /// How far through the file we've read (in bytes).
    pub current_offset: u32,
    /// The length of the file, in bytes.
    pub length: u32,
    /// What mode the file was opened in.
    pub mode: Mode,
    /// DirEntry of this file.
    pub entry: DirEntry,
}

impl File {
    /// Are we at the end of the file?
    pub fn eof(&self) -> (r: bool)
        ensures
            r == (self.current_offset == self.length),
    {
        self.current_offset == self.length
    }

    /// How long is the file?
    pub fn length(&self) -> (r: u32)
        ensures
            r == self.length,
    {
        self.length
    }

    /// Seek to a new position in the file, relative to the start of the
    /// file. Seeking back before the remembered cluster goes back to the
    /// first cluster.
    pub fn seek_from_start(&mut self, offset: u32) -> (r: Result<(), ()>)
        ensures
            *final(self) == file_after_seek(*old(self), Seek::FromStart(offset)),
            old(self).current_offset <= old(self).length ==> final(self).current_offset <= final(self).length,
            old(self).length == old(self).entry.size ==> final(self).length == final(self).entry.size,
            r is Ok <==> offset <= old(self).length,
            r is Ok ==> *final(self) == (File {
                current_offset: offset,
                current_cluster: if offset < old(self).current_cluster.0 {
                    (0u32, old(self).starting_cluster)
                } else {
                    old(self).current_cluster
                },
                ..*old(self)
            }),
            r is Err ==> *final(self) == *old(self),
    {
        if offset <= self.length {
            self.current_offset = offset;
            if offset < self.current_cluster.0 {
                self.current_cluster = (0, self.starting_cluster);
            }
            Ok(())
        } else {
            Err(())
        }
    }

    /// Seek to a new position in the file, relative to the end of the file.
    /// The remembered cluster goes back to the first cluster when `offset`
    /// is below the remembered byte count.
    pub fn seek_from_end(&mut self, offset: u32) -> (r: Result<(), ()>)
        ensures
            *final(self) == file_after_seek(*old(self), Seek::FromEnd(offset)),
            old(self).current_offset <= old(self).length ==> final(self).current_offset <= final(self).length,
            old(self).length == old(self).entry.size ==> final(self).length == final(self).entry.size,
            r is Ok <==> offset <= old(self).length,
            r is Ok ==> *final(self) == (File {
                current_offset: (old(self).length - offset) as u32,
                current_cluster: if offset < old(self).current_cluster.0 {
                    (0u32, old(self).starting_cluster)
                } else {
                    old(self).current_cluster
                },
                ..*old(self)
            }),
            r is Err ==> *final(self) == *old(self),
    {
        if offset <= self.length {
            self.current_offset = self.length - offset;
            if offset < self.current_cluster.0 {
                self.current_cluster = (0, self.starting_cluster);
            }
            Ok(())
        } else {
            Err(())
        }
    }

    /// Seek to a new position in the file, relative to the current position.
    pub fn seek_from_current(&mut self, offset: i32) -> (r: Result<(), ()>)
        ensures
            *final(self) == file_after_seek(*old(self), Seek::FromCurrent(offset)),
            old(self).current_offset <= old(self).length ==> final(self).current_offset <= final(self).length,
            old(self).length == old(self).entry.size ==> final(self).length == final(self).entry.size,
            match seek_target(old(self).current_offset, offset, old(self).length) {
                Some(t) => r is Ok && *final(self) == (File { current_offset: t, ..*old(self) }),
                None => r is Err && *final(self) == *old(self),
            },
    {
        let new_offset: i64 = self.current_offset as i64 + offset as i64;
        if new_offset >= 0 && new_offset <= self.length as i64 {
            self.current_offset = new_offset as u32;
            Ok(())
        } else {
            Err(())
        }
    }

    /// Amount of file left to read.
    pub fn left(&self) -> (r: u32)
        requires
            self.current_offset <= self.length,
        ensures
            r == self.length - self.current_offset,
    {
        self.length - self.current_offset
    }

    /// Update the file's length, in the file and in its directory entry.
    pub fn update_length(&mut self, new: u32)
        ensures
            final(self).length == final(self).entry.size,
            *final(self) == (File {
                length: new,
                entry: DirEntry { size: new, ..old(self).entry },
                ..*old(self)
            }),
    {
        self.length = new;
        self.entry.size = new;
    }
}

} // verus!
