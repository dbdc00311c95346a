//! The file-change transaction layer. A `SourceFile` owns the authoritative
//! in-memory text of one file; every mutation runs through a `FileChange`,
//! which snapshots the text before the change and then either commits the new
//! text or rolls the file back to the snapshot, so the engine's view of the
//! tree is consistent and recoverable at all times.

use vstd::prelude::*;

verus! {

/// Aggregate over one sweep of a pass: whether any file changed.
pub struct Changes {
    any_change: bool,
}

impl View for Changes {
    type V = bool;

    closed spec fn view(&self) -> bool {
        self.any_change
    }
}

impl Default for Changes {
    /// A fresh aggregate: no change seen yet.
    fn default() -> (r: Self)
        ensures
            r@ == false,
    {
        Changes { any_change: false }
    }
}

impl Changes {
    /// Whether any transaction of this sweep was committed.
    pub fn had_changes(&self) -> (r: bool)
        ensures
            r == self@,
    {
        self.any_change
    }
}

/// The model of a source file: its identity and its text.
pub struct SourceFileModel {
    pub path: Seq<char>,
    pub content: Seq<char>,
}

/// One source file of the tree being minimized: its path and the
/// authoritative in-memory text. The engine mutates the text only through
/// `try_change`, and the surrounding binary mirrors the text to disk after
/// each transaction step, so the cache always matches what the next build
/// sees. The type is deliberately not `Clone`: a clone would desynchronize
/// the cache from the file system.
#[derive(Debug)]
pub struct SourceFile {
    path: String,
    content: String,
}

impl View for SourceFile {
    type V = SourceFileModel;

    closed spec fn view(&self) -> SourceFileModel {
        SourceFileModel { path: self.path@, content: self.content@ }
    }
}

impl SourceFile {
    /// Wraps a file that the surrounding binary has read.
    pub fn new(path: String, content: String) -> (r: SourceFile)
        ensures
            r@.path == path@,
            r@.content == content@,
    {
        SourceFile { path, content }
    }

    /// The path of this file, for decisions that do not touch the file
    /// system.
    pub fn path_no_fs_interact(&self) -> (r: &String)
        ensures
            r@ == self@.path,
    {
        &self.path
    }

    /// The current text of this file.
    pub fn content(&self) -> (r: &String)
        ensures
            r@ == self@.content,
    {
        &self.content
    }

    /// Begins a transaction on this file: snapshots the current text, so the
    /// change can be rolled back.
    pub fn try_change(&self) -> (c: FileChange)
        ensures
            c@.path == self@.path,
            c@.before_content == self@.content,
            !c@.has_written,
    {
        FileChange {
            path: self.path.clone(),
            before_content: self.content.clone(),
            has_written: false,
        }
    }
}

/// The model of a transaction: the file it belongs to, the snapshot taken
/// when it began, and whether a tentative change was written.
pub struct FileChangeModel {
    pub path: Seq<char>,
    pub before_content: Seq<char>,
    pub has_written: bool,
}

/// A scoped mutation of one source file. It holds the pre-transaction
/// snapshot; a written change must be either committed or rolled back, which
/// consumes the transaction, so no tentative text can survive it.
pub struct FileChange {
    path: String,
    before_content: String,
    has_written: bool,
}

impl View for FileChange {
    type V = FileChangeModel;

    closed spec fn view(&self) -> FileChangeModel {
        FileChangeModel {
            path: self.path@,
            before_content: self.before_content@,
            has_written: self.has_written,
        }
    }
}

impl FileChange {
    /// The text of the file as it was when the transaction began.
    pub fn before_content(&self) -> (r: &String)
        ensures
            r@ == self@.before_content,
    {
        &self.before_content
    }

    /// Writes tentative new text into the file's cache. The snapshot is
    /// kept, so the change can still be rolled back.
    pub fn write(&mut self, file: &mut SourceFile, new_content: String)
        requires
            old(self)@.path == old(file)@.path,
        ensures
            final(self)@.path == old(self)@.path,
            final(self)@.before_content == old(self)@.before_content,
            final(self)@.has_written,
            final(file)@.path == old(file)@.path,
            final(file)@.content == new_content@,
    {
        self.has_written = true;
        file.content = new_content;
    }

    /// Discards the tentative change: the file's text is restored to the
    /// snapshot taken when the transaction began.
    pub fn rollback(self, file: &mut SourceFile)
        requires
            self@.has_written,
            self@.path == old(file)@.path,
        ensures
            final(file)@.path == old(file)@.path,
            final(file)@.content == self@.before_content,
    {
        file.content = self.before_content;
    }

    /// Keeps the tentative change and records that this sweep changed
    /// something. The file's text stays as written.
    pub fn commit(self, changes: &mut Changes)
        requires
            self@.has_written,
        ensures
            final(changes)@ == true,
    {
        changes.any_change = true;
    }
}

} // verus!
