//! The open-file table and the in-memory I/O stores.
//!
//! Each execution frame carries a table mapping FD numbers to handles; the
//! table is copied per frame, so redirections mutate only the frame's copy.
//! What the handles point at — capture buffers, pipe buffers and the modeled
//! file store — lives outside the frames in an `IoStore`, so writes persist
//! across frame boundaries the way real file contents do.

use vstd::prelude::*;

use crate::error::{Error, ErrorKind};

verus! {

/// What an FD number resolves to.
#[derive(Clone, Copy, PartialEq, Eq, Structural, Debug)]
pub enum OpenFile {
    /// A real OS file descriptor, carried through opaquely; text written to
    /// it lands on the store's pending list for the host to forward.
    OsFd(i32),
    /// The null device: reads see nothing, writes vanish.
    Null,
    /// An in-memory buffer of the store: a capture buffer or a pipe end.
    Buffer(usize),
    /// A file of the store, open for writing at its end.
    FileWrite(usize),
}

/// The store the handles point into: anonymous buffers (captures, pipes),
/// named files, and the text addressed to real OS descriptors, which the
/// engine cannot write itself and records for the host to forward.
#[derive(Debug)]
pub struct IoStore {
    pub buffers: Vec<String>,
    pub files: Vec<(String, String)>,
    pub pending: Vec<(i32, String)>,
}

/// A table entry's targets exist in the store.
pub open spec fn file_wf(f: OpenFile, io: IoStore) -> bool {
    match f {
        OpenFile::Buffer(id) => id < io.buffers@.len(),
        OpenFile::FileWrite(id) => id < io.files@.len(),
        _ => true,
    }
}

/// The store only grows: ids that were valid stay valid, and recorded
/// host-bound writes are never dropped.
pub open spec fn io_extends(new: IoStore, old: IoStore) -> bool {
    new.buffers@.len() >= old.buffers@.len() && new.files@.len() >= old.files@.len()
        && new.pending@.len() >= old.pending@.len()
}

/// A table well-formed for a store stays well-formed when the store grows.
pub proof fn lemma_wf_for_extend(t: OpenFiles, a: IoStore, b: IoStore)
    requires
        t.wf_for(a),
        io_extends(b, a),
    ensures
        t.wf_for(b),
{
}

/// The per-frame open-file table, indexed by FD number.
#[derive(Debug)]
pub struct OpenFiles {
    pub files: Vec<Option<OpenFile>>,
}

impl OpenFiles {
    /// The handle at `fd`, if one is installed.
    pub open spec fn spec_get(self, fd: int) -> Option<OpenFile> {
        if 0 <= fd < self.files@.len() {
            self.files@[fd]
        } else {
            None
        }
    }

    /// Every installed handle points into the store.
    pub open spec fn wf_for(self, io: IoStore) -> bool {
        forall|fd: int|
            0 <= fd < self.files@.len() ==> match #[trigger] self.files@[fd] {
                Some(f) => file_wf(f, io),
                None => true,
            }
    }

    /// An empty table.
    pub fn new() -> (r: OpenFiles)
        ensures
            forall|fd: int| r.spec_get(fd) is None,
            forall|io: IoStore| r.wf_for(io),
    {
        OpenFiles { files: Vec::new() }
    }

    /// The table every execution starts from: FDs 0, 1 and 2 attached to the
    /// process's standard streams.
    pub fn standard() -> (r: OpenFiles)
        ensures
            r.spec_get(0) == Some(OpenFile::OsFd(0)),
            r.spec_get(1) == Some(OpenFile::OsFd(1)),
            r.spec_get(2) == Some(OpenFile::OsFd(2)),
            forall|fd: int| fd > 2 ==> r.spec_get(fd) is None,
            forall|io: IoStore| r.wf_for(io),
    {
        let mut files: Vec<Option<OpenFile>> = Vec::new();
        files.push(Some(OpenFile::OsFd(0)));
        files.push(Some(OpenFile::OsFd(1)));
        files.push(Some(OpenFile::OsFd(2)));
        OpenFiles { files }
    }

    /// Duplicates the table for a child frame.
    pub fn clone_table(&self) -> (r: OpenFiles)
        ensures
            r.files@ =~= self.files@,
            forall|fd: int| r.spec_get(fd) == self.spec_get(fd),
    {
        let n = self.files.len();
        let mut files: Vec<Option<OpenFile>> = Vec::new();
        let mut i: usize = 0;
        while i < n
            invariant
                i <= n,
                n == self.files@.len(),
                files@.len() == i,
                forall|k: int| 0 <= k < i ==> files@[k] == self.files@[k],
            decreases n - i,
        {
            files.push(self.files[i]);
            i = i + 1;
        }
        let r = OpenFiles { files };
        proof {
            assert(r.files@ =~= self.files@);
        }
        r
    }

    /// Reads the handle at `fd`.
    pub fn get(&self, fd: usize) -> (r: Option<OpenFile>)
        ensures
            r == self.spec_get(fd as int),
    {
        if fd < self.files.len() {
            self.files[fd]
        } else {
            None
        }
    }

    /// Installs `f` at `fd`, leaving every other FD as it was.
    pub fn set_fd(&mut self, fd: usize, f: OpenFile)
        ensures
            final(self).spec_get(fd as int) == Some(f),
            forall|k: int| k != fd ==> final(self).spec_get(k) == old(self).spec_get(k),
    {
        while self.files.len() <= fd
            invariant
                self.files@.len() >= old(self).files@.len(),
                forall|k: int|
                    0 <= k < self.files@.len() ==> self.files@[k] == old(self).spec_get(k),
            decreases fd + 1 - self.files.len(),
        {
            self.files.push(None);
        }
        self.files[fd] = Some(f);
    }

    /// Removes the handle at `fd`, leaving every other FD as it was.
    pub fn close(&mut self, fd: usize)
        ensures
            final(self).spec_get(fd as int) is None,
            forall|k: int| k != fd ==> final(self).spec_get(k) == old(self).spec_get(k),
    {
        if fd < self.files.len() {
            self.files[fd] = None;
        }
    }

    /// Duplicates the handle at `from` onto `to` (`N>&M`): fails when `from`
    /// is not open.
    pub fn dup(&mut self, from: usize, to: usize) -> (r: Result<(), Error>)
        ensures
            match old(self).spec_get(from as int) {
                Some(f) => {
                    &&& r is Ok
                    &&& final(self).spec_get(to as int) == Some(f)
                    &&& forall|k: int|
                        k != to ==> final(self).spec_get(k) == old(self).spec_get(k)
                },
                None => {
                    &&& r matches Err(e) && e.kind == ErrorKind::InvalidRedirection
                    &&& forall|k: int| final(self).spec_get(k) == old(self).spec_get(k)
                },
            },
    {
        match self.get(from) {
            Some(f) => {
                self.set_fd(to, f);
                Ok(())
            },
            None => Err(Error::new(ErrorKind::InvalidRedirection)),
        }
    }

    /// Removes and returns the handle at `fd`.
    pub fn take(&mut self, fd: usize) -> (r: Option<OpenFile>)
        ensures
            r == old(self).spec_get(fd as int),
            final(self).spec_get(fd as int) is None,
            forall|k: int| k != fd ==> final(self).spec_get(k) == old(self).spec_get(k),
    {
        let r = self.get(fd);
        self.close(fd);
        r
    }
}

impl IoStore {
    /// An empty store.
    pub fn new() -> (r: IoStore)
        ensures
            r.buffers@.len() == 0,
            r.files@.len() == 0,
            r.pending@.len() == 0,
    {
        IoStore { buffers: Vec::new(), files: Vec::new(), pending: Vec::new() }
    }

    /// Opens a fresh, empty buffer and returns its id.
    pub fn new_buffer(&mut self) -> (id: usize)
        ensures
            id == old(self).buffers@.len(),
            final(self).buffers@.len() == old(self).buffers@.len() + 1,
            final(self).buffers@[id as int]@ =~= Seq::<char>::empty(),
            forall|k: int|
                0 <= k < old(self).buffers@.len() ==> final(self).buffers@[k] == old(
                    self,
                ).buffers@[k],
            final(self).files@ =~= old(self).files@,
            final(self).pending@ == old(self).pending@,
    {
        let id = self.buffers.len();
        self.buffers.push(String::new());
        id
    }

    /// The contents of a buffer.
    pub fn buffer_contents(&self, id: usize) -> (r: &String)
        requires
            id < self.buffers@.len(),
        ensures
            *r == self.buffers@[id as int],
    {
        &self.buffers[id]
    }

    /// The index of the named file in the store, if it exists.
    fn find_file(&self, name: &str) -> (r: Option<usize>)
        ensures
            match r {
                Some(id) => id < self.files@.len() && self.files@[id as int].0@ == name@,
                None => forall|k: int|
                    0 <= k < self.files@.len() ==> (#[trigger] self.files@[k].0@) != name@,
            },
    {
        let n = self.files.len();
        let mut i: usize = 0;
        while i < n
            invariant
                i <= n,
                n == self.files@.len(),
                forall|k: int| 0 <= k < i ==> (#[trigger] self.files@[k].0@) != name@,
            decreases n - i,
        {
            if crate::strings::str_eq(self.files[i].0.as_str(), name) {
                return Some(i);
            }
            i = i + 1;
        }
        None
    }

    /// Opens the named file for writing, creating it if needed and
    /// truncating it unless `append` is set.  Returns the file's id.
    pub fn open_file_for_write(&mut self, name: &str, append: bool) -> (id: usize)
        ensures
            id < final(self).files@.len(),
            final(self).files@[id as int].0@ == name@,
            final(self).buffers@ =~= old(self).buffers@,
            final(self).files@.len() >= old(self).files@.len(),
            forall|k: int|
                0 <= k < old(self).files@.len() && k != id ==> final(self).files@[k] == old(
                    self,
                ).files@[k],
            !append ==> final(self).files@[id as int].1@ =~= Seq::<char>::empty(),
            append && id < old(self).files@.len() ==> final(self).files@[id as int].1 == old(
                self,
            ).files@[id as int].1,
            final(self).pending@ == old(self).pending@,
    {
        let ghost pre = self.files@;
        match self.find_file(name) {
            Some(id) => {
                if !append {
                    let (nm, _) = self.files.remove(id);
                    self.files.insert(id, (nm, String::new()));
                    proof {
                        assert(self.files@ =~= pre.update(id as int, self.files@[id as int]));
                    }
                }
                id
            },
            None => {
                let id = self.files.len();
                self.files.push((String::from_str(name), String::new()));
                id
            },
        }
    }

    /// The contents of the named file, if it exists.
    pub fn file_contents(&self, name: &str) -> (r: Option<&String>)
        ensures
            match r {
                Some(s) => exists|k: int|
                    0 <= k < self.files@.len() && (#[trigger] self.files@[k]).0@ == name@
                        && self.files@[k].1 == *s,
                None => forall|k: int|
                    0 <= k < self.files@.len() ==> (#[trigger] self.files@[k].0@) != name@,
            },
    {
        match self.find_file(name) {
            Some(id) => Some(&self.files[id].1),
            None => None,
        }
    }

    /// Appends text to a buffer.
    pub fn append_to_buffer(&mut self, id: usize, text: &str)
        requires
            id < old(self).buffers@.len(),
        ensures
            final(self).buffers@.len() == old(self).buffers@.len(),
            final(self).buffers@[id as int]@ == old(self).buffers@[id as int]@ + text@,
            forall|k: int|
                0 <= k < old(self).buffers@.len() && k != id ==> final(self).buffers@[k] == old(
                    self,
                ).buffers@[k],
            final(self).files@ =~= old(self).files@,
            final(self).pending@ == old(self).pending@,
    {
        let ghost pre = self.buffers@;
        let mut s = self.buffers.remove(id);
        s.append(text);
        self.buffers.insert(id, s);
        proof {
            assert(self.buffers@ =~= pre.update(id as int, self.buffers@[id as int]));
        }
    }

    /// Appends text to a file of the store.
    pub fn append_to_file(&mut self, id: usize, text: &str)
        requires
            id < old(self).files@.len(),
        ensures
            final(self).files@.len() == old(self).files@.len(),
            final(self).files@[id as int].0 == old(self).files@[id as int].0,
            final(self).files@[id as int].1@ == old(self).files@[id as int].1@ + text@,
            forall|k: int|
                0 <= k < old(self).files@.len() && k != id ==> final(self).files@[k] == old(
                    self,
                ).files@[k],
            final(self).buffers@ =~= old(self).buffers@,
            final(self).pending@ == old(self).pending@,
    {
        let ghost pre = self.files@;
        let (nm, mut s) = self.files.remove(id);
        s.append(text);
        self.files.insert(id, (nm, s));
        proof {
            assert(self.files@ =~= pre.update(id as int, self.files@[id as int]));
        }
    }
}

/// Writes text through the table: buffers and store files record it, the
/// null device discards it, text for a real OS descriptor is recorded on
/// the store's pending list for the host to forward, and a missing FD is an
/// error.  The store only ever grows what the text appends.
pub fn write_via_fd(table: &OpenFiles, io: &mut IoStore, fd: usize, text: &str) -> (r: Result<
    (),
    Error,
>)
    requires
        table.wf_for(*old(io)),
    ensures
        table.wf_for(*final(io)),
        final(io).buffers@.len() == old(io).buffers@.len(),
        final(io).files@.len() == old(io).files@.len(),
        match table.spec_get(fd as int) {
            None => {
                &&& r matches Err(e) && (e.kind matches ErrorKind::Io(m) && m@
                    == "bad file descriptor"@)
                &&& final(io).buffers@ =~= old(io).buffers@
                &&& final(io).files@ =~= old(io).files@
                &&& final(io).pending@ == old(io).pending@
            },
            Some(f) => {
                &&& r is Ok
                &&& match f {
                    OpenFile::Buffer(id) => {
                        &&& final(io).buffers@[id as int]@ == old(io).buffers@[id as int]@
                            + text@
                        &&& forall|k: int|
                            0 <= k < old(io).buffers@.len() && k != id
                                ==> final(io).buffers@[k] == old(io).buffers@[k]
                        &&& final(io).files@ =~= old(io).files@
                        &&& final(io).pending@ == old(io).pending@
                    },
                    OpenFile::FileWrite(id) => {
                        &&& final(io).files@[id as int].1@ == old(io).files@[id as int].1@
                            + text@
                        &&& final(io).files@[id as int].0 == old(io).files@[id as int].0
                        &&& forall|k: int|
                            0 <= k < old(io).files@.len() && k != id ==> final(io).files@[k]
                                == old(io).files@[k]
                        &&& final(io).buffers@ =~= old(io).buffers@
                        &&& final(io).pending@ == old(io).pending@
                    },
                    OpenFile::OsFd(os) => {
                        &&& final(io).buffers@ =~= old(io).buffers@
                        &&& final(io).files@ =~= old(io).files@
                        &&& final(io).pending@.len() == old(io).pending@.len() + 1
                        &&& final(io).pending@.last().0 == os
                        &&& final(io).pending@.last().1@ == text@
                        &&& final(io).pending@.drop_last() == old(io).pending@
                    },
                    _ => final(io).buffers@ =~= old(io).buffers@ && final(io).files@
                        =~= old(io).files@ && final(io).pending@ == old(io).pending@,
                }
            },
        },
{
    match table.get(fd) {
        None => Err(Error::new(ErrorKind::Io(String::from_str("bad file descriptor")))),
        Some(OpenFile::Null) => Ok(()),
        Some(OpenFile::OsFd(os)) => {
            io.pending.push((os, String::from_str(text)));
            proof {
                assert(io.pending@.drop_last() =~= old(io).pending@);
            }
            Ok(())
        },
        Some(OpenFile::Buffer(id)) => {
            io.append_to_buffer(id, text);
            Ok(())
        },
        Some(OpenFile::FileWrite(id)) => {
            io.append_to_file(id, text);
            Ok(())
        },
    }
}

} // verus!
