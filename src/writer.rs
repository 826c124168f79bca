use vstd::prelude::*;
use crate::entry::{is_valid_relative, join_segments, segments_view, segment_is_valid, join_path};
use crate::error::ArchiveError;

verus! {

#[verifier::external_type_specification]
#[verifier::external_body]
pub struct ExTempPath(tempfile::TempPath);

#[verifier::external_type_specification]
#[verifier::external_body]
pub struct ExZipError(zip::result::ZipError);

#[verifier::external_type_specification]
#[verifier::external_body]
pub struct ExIoError(std::io::Error);

/// The container writer of the zip crate over a temporary file. It is held
/// opaque: its type carries `std::io` trait bounds, and the file's type a `std`
/// file handle, neither of which can be declared here.
#[verifier::external_body]
pub struct ZipSink {
    inner: zip::ZipWriter<tempfile::NamedTempFile>,
}

/// A temporary file holding a finished container, held opaque for the same reason.
#[verifier::external_body]
pub struct FinishedFile {
    file: tempfile::NamedTempFile,
}

/// Relies on tempfile::NamedTempFile::new, which creates a uniquely named
/// temporary file, and zip::ZipWriter::new, which wraps it in a container writer.
#[verifier::external_body]
fn zip_create() -> Result<ZipSink, std::io::Error> {
    let file = tempfile::NamedTempFile::new()?;
    Ok(ZipSink { inner: zip::ZipWriter::new(file) })
}

/// Relies on zip::ZipWriter::start_file: starts a new entry with default options.
#[verifier::external_body]
fn zip_start_file(zip: &mut ZipSink, name: &String) -> Result<(), zip::result::ZipError> {
    zip.inner.start_file(name.as_str(), zip::write::FileOptions::default())
}

/// Relies on `Write::write_all` of zip::ZipWriter: appends bytes to the open entry.
#[verifier::external_body]
fn zip_write_all(zip: &mut ZipSink, data: &[u8]) -> Result<(), std::io::Error> {
    std::io::Write::write_all(&mut zip.inner, data)
}

/// Relies on zip::ZipWriter::finish: writes the trailing index and hands the file back.
#[verifier::external_body]
fn zip_finish(mut zip: ZipSink) -> Result<FinishedFile, zip::result::ZipError> {
    zip.inner.finish().map(|file| FinishedFile { file })
}

/// Relies on `File::sync_all` of the finished file: flushes it to stable storage.
#[verifier::external_body]
fn sync_finished(done: &FinishedFile) -> Result<(), std::io::Error> {
    done.file.as_file().sync_all()
}

/// Relies on tempfile::NamedTempFile::into_temp_path: gives up the file handle and keeps
/// the path, which still deletes the file when dropped.
#[verifier::external_body]
fn into_temp_path(done: FinishedFile) -> tempfile::TempPath {
    done.file.into_temp_path()
}

/// What a writer has recorded: the entries started so far, each with the bytes
/// streamed into it, whether an entry is open for bytes, whether the writer
/// was closed (finished, or stopped by a failure of the container), and whether
/// it was finished and synced, the one state in which it yields an artifact.
pub struct WriterState {
    pub names: Seq<Seq<char>>,
    pub contents: Seq<Seq<u8>>,
    pub entry_open: bool,
    pub closed: bool,
    pub finished: bool,
}

/// A container being filled one entry at a time.
pub struct ArchiveWriter {
    zip: Option<ZipSink>,
    done: Option<FinishedFile>,
    names: Vec<String>,
    contents: Ghost<Seq<Seq<u8>>>,
    entry_open: bool,
    closed: bool,
    finished: bool,
}

impl View for ArchiveWriter {
    type V = WriterState;

    closed spec fn view(&self) -> WriterState {
        WriterState {
            names: segments_view(self.names@),
            contents: self.contents@,
            entry_open: self.entry_open,
            closed: self.closed,
            finished: self.finished,
        }
    }
}

impl ArchiveWriter {
    /// The writer's internal consistency: one content per entry, no entry name twice.
    pub closed spec fn wf(&self) -> bool {
        &&& self.names@.len() == self.contents@.len()
        &&& segments_view(self.names@).no_duplicates()
        &&& self.entry_open ==> self.names@.len() > 0
        &&& self.finished ==> self.closed
        &&& !self.closed ==> self.zip is Some
        &&& self.finished ==> self.done is Some
    }

    /// Opens a writer over a new, uniquely named temporary file, with no entries.
    pub fn create() -> (r: Result<Self, ArchiveError>)
        ensures
            r is Err ==> r matches Err(ArchiveError::WriteFailure),
            r matches Ok(w) ==> w.wf() && w@.names.len() == 0 && w@.contents.len() == 0
                && !w@.entry_open && !w@.closed && !w@.finished,
    {
        match zip_create() {
            Ok(zip) => Ok(
                ArchiveWriter {
                    zip: Some(zip),
                    done: None,
                    names: Vec::new(),
                    contents: Ghost(Seq::empty()),
                    entry_open: false,
                    closed: false,
                    finished: false,
                },
            ),
            Err(_) => Err(ArchiveError::WriteFailure),
        }
    }

    /// Starts the entry stored under the relative path `path`, given as its components.
    pub fn begin_entry(&mut self, path: &Vec<String>) -> (r: Result<(), ArchiveError>)
        requires
            old(self).wf(),
        ensures
            final(self).wf(),
            old(self)@.closed ==> r == Err::<(), ArchiveError>(ArchiveError::ClosedWriter),
            !old(self)@.closed && !is_valid_relative(segments_view(path@)) ==> r == Err::<
                (),
                ArchiveError,
            >(ArchiveError::InvalidPath),
            !old(self)@.closed && is_valid_relative(segments_view(path@)) && old(
                self,
            )@.names.contains(join_segments(segments_view(path@))) ==> r == Err::<
                (),
                ArchiveError,
            >(ArchiveError::DuplicateEntry),
            !old(self)@.closed && is_valid_relative(segments_view(path@)) && !old(
                self,
            )@.names.contains(join_segments(segments_view(path@))) ==> r is Ok || r == Err::<
                (),
                ArchiveError,
            >(ArchiveError::WriteFailure),
            r is Ok ==> final(self)@ == (WriterState {
                names: old(self)@.names.push(join_segments(segments_view(path@))),
                contents: old(self)@.contents.push(Seq::empty()),
                entry_open: true,
                closed: false,
                finished: false,
            }),
            r == Err::<(), ArchiveError>(ArchiveError::WriteFailure) ==> final(self)@ == (
            WriterState { closed: true, ..old(self)@ }),
            r is Err && r != Err::<(), ArchiveError>(ArchiveError::WriteFailure) ==> final(self)@
                == old(self)@,
    {
        if self.closed {
            return Err(ArchiveError::ClosedWriter);
        }
        if path.len() == 0 {
            return Err(ArchiveError::InvalidPath);
        }
        let mut i: usize = 0;
        while i < path.len()
            invariant
                0 <= i <= path@.len(),
                forall|j: int| 0 <= j < i ==> is_valid_segment_at(path@, j),
                *self == *old(self),
                self.wf(),
                !self.closed,
            decreases path@.len() - i,
        {
            if !segment_is_valid(path[i].as_str()) {
                proof {
                    assert(!crate::entry::is_valid_segment(segments_view(path@)[i as int]));
                }
                return Err(ArchiveError::InvalidPath);
            }
            i = i + 1;
        }
        proof {
            assert forall|j: int| 0 <= j < segments_view(path@).len() implies
                crate::entry::is_valid_segment(#[trigger] segments_view(path@)[j]) by {
                assert(is_valid_segment_at(path@, j));
            }
        }
        let name = join_path(path);
        let mut k: usize = 0;
        while k < self.names.len()
            invariant
                0 <= k <= self.names@.len(),
                forall|j: int| 0 <= j < k ==> self.names@[j]@ != name@,
                *self == *old(self),
                self.wf(),
                !self.closed,
                is_valid_relative(segments_view(path@)),
                name@ == join_segments(segments_view(path@)),
            decreases self.names@.len() - k,
        {
            if self.names[k] == name {
                proof {
                    assert(segments_view(self.names@)[k as int] == name@);
                }
                return Err(ArchiveError::DuplicateEntry);
            }
            k = k + 1;
        }
        proof {
            assert(!segments_view(self.names@).contains(name@)) by {
                if segments_view(self.names@).contains(name@) {
                    let j = choose|j: int|
                        0 <= j < segments_view(self.names@).len() && segments_view(self.names@)[j]
                            == name@;
                    assert(self.names@[j]@ == name@);
                }
            }
        }
        let zip = self.zip.as_mut().unwrap();
        match zip_start_file(zip, &name) {
            Ok(()) => {
                self.names.push(name);
                self.contents = Ghost(self.contents@.push(Seq::empty()));
                self.entry_open = true;
                proof {
                    assert(segments_view(self.names@) =~= segments_view(old(self).names@).push(
                        name@,
                    ));
                }
                Ok(())
            },
            Err(_) => {
                self.closed = true;
                Err(ArchiveError::WriteFailure)
            },
        }
    }

    /// Streams `data` into the entry that is open.
    pub fn write_chunk(&mut self, data: &[u8]) -> (r: Result<(), ArchiveError>)
        requires
            old(self).wf(),
        ensures
            final(self).wf(),
            old(self)@.closed || !old(self)@.entry_open ==> r == Err::<(), ArchiveError>(
                ArchiveError::ClosedWriter,
            ) && final(self)@ == old(self)@,
            !old(self)@.closed && old(self)@.entry_open ==> r is Ok || r == Err::<
                (),
                ArchiveError,
            >(ArchiveError::WriteFailure),
            r is Ok ==> final(self)@ == (WriterState {
                contents: old(self)@.contents.update(
                    old(self)@.contents.len() - 1,
                    old(self)@.contents.last() + data@,
                ),
                ..old(self)@
            }),
            r == Err::<(), ArchiveError>(ArchiveError::WriteFailure) ==> final(self)@ == (
            WriterState { closed: true, ..old(self)@ }),
    {
        if self.closed || !self.entry_open {
            return Err(ArchiveError::ClosedWriter);
        }
        let zip = self.zip.as_mut().unwrap();
        match zip_write_all(zip, data) {
            Ok(()) => {
                let ghost last = (self.contents@.len() - 1) as int;
                self.contents = Ghost(
                    self.contents@.update(last, self.contents@.last() + data@),
                );
                Ok(())
            },
            Err(_) => {
                self.closed = true;
                Err(ArchiveError::WriteFailure)
            },
        }
    }

    /// Writes the container's trailing index and syncs the file to stable storage;
    /// the writer accepts nothing afterwards.
    pub fn finish(&mut self) -> (r: Result<(), ArchiveError>)
        requires
            old(self).wf(),
        ensures
            final(self).wf(),
            old(self)@.closed ==> r == Err::<(), ArchiveError>(ArchiveError::ClosedWriter),
            !old(self)@.closed ==> r is Ok || r == Err::<(), ArchiveError>(
                ArchiveError::WriteFailure,
            ),
            r is Ok ==> final(self)@ == (WriterState {
                closed: true,
                entry_open: false,
                finished: true,
                ..old(self)@
            }),
            r is Err ==> final(self)@ == (WriterState { closed: true, entry_open: false, ..old(self)@ }),
    {
        if self.closed {
            self.entry_open = false;
            return Err(ArchiveError::ClosedWriter);
        }
        self.closed = true;
        self.entry_open = false;
        let zip = self.zip.take().unwrap();
        let done = match zip_finish(zip) {
            Ok(done) => done,
            Err(_) => return Err(ArchiveError::WriteFailure),
        };
        match sync_finished(&done) {
            Ok(()) => {},
            Err(_) => return Err(ArchiveError::WriteFailure),
        }
        self.done = Some(done);
        self.finished = true;
        Ok(())
    }

    /// Hands over the finished artifact: the path of the temporary file, which is
    /// deleted when the returned value is dropped. Only a finished writer has one;
    /// dropping any other writer deletes its file.
    pub fn into_artifact(self) -> (r: tempfile::TempPath)
        requires
            self.wf(),
            self@.finished,
    {
        into_temp_path(self.done.unwrap())
    }
}

/// The component at `j` of `path` is a valid segment.
pub open spec fn is_valid_segment_at(path: Seq<String>, j: int) -> bool {
    crate::entry::is_valid_segment(path[j]@)
}

} // verus!
