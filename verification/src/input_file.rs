//! The file input abstraction: one value standing for either a file on disk
//! or an in-memory buffer, the source the chunked upload pipeline reads.
//!
//! The in-memory operations are computed here. Disk-backed reads are input
//! and output and belong to the surrounding I/O layer, which resolves them
//! with the file system and hands the bytes back as plain values.

use crate::error::AppwriteError;
use crate::text::chars_to_string;
use crate::text::str_to_chars;
use vstd::prelude::*;
use vstd::string::*;

verus! {

/// Where the bytes of an input file come from.
pub enum InputFileSource {
    /// A path into the file system, resolved by the I/O layer.
    Path,
    /// A buffer held in memory.
    Bytes,
}

/// A file to upload: a source, a filename and an optional MIME type.
pub struct InputFile {
    /// Which source the value carries.
    pub source_type: InputFileSource,
    /// Name the file is uploaded under.
    pub filename: String,
    /// MIME type, guessed from the extension or supplied by the caller.
    pub mime_type: Option<String>,
    /// The buffer, for a bytes-backed file.
    pub data: Option<Vec<u8>>,
    /// The path, for a path-backed file.
    pub path: Option<String>,
}

/// A path separator.
pub open spec fn is_sep(c: char) -> bool {
    c == '/' || c == '\\'
}

/// The final path component: what follows the last separator.
pub open spec fn spec_file_name(s: Seq<char>) -> Seq<char>
    decreases s.len(),
{
    if s.len() == 0 {
        Seq::empty()
    } else if is_sep(s[s.len() - 1]) {
        Seq::empty()
    } else {
        spec_file_name(s.take(s.len() - 1)) + seq![s[s.len() - 1]]
    }
}

/// The extension of a filename: what follows the last dot, when that dot is
/// not the leading character.
pub open spec fn spec_extension(s: Seq<char>) -> Option<Seq<char>>
    decreases s.len(),
{
    if s.len() <= 1 {
        None
    } else if s[s.len() - 1] == '.' {
        Some(Seq::empty())
    } else {
        match spec_extension(s.take(s.len() - 1)) {
            Some(e) => Some(e + seq![s[s.len() - 1]]),
            None => None,
        }
    }
}

/// The MIME type `mime_guess` registers for a file extension.
pub uninterp spec fn mime_for_ext(ext: Seq<char>) -> Option<Seq<char>>;

/// Relies on mime_guess::from_ext with first_raw: the first MIME type
/// registered for the extension, a fixed table lookup.
#[verifier::external_body]
fn guess_mime_from_ext(ext: &str) -> (r: Option<String>)
    ensures
        match r {
            Some(m) => mime_for_ext(ext@) == Some(m@),
            None => mime_for_ext(ext@) is None,
        },
{
    match mime_guess::from_ext(ext).first_raw() {
        Some(name) => Some(name.to_string()),
        None => None,
    }
}

/// The final path component of `path`.
#[verifier::loop_isolation(false)]
fn file_name_exec(cs: &Vec<char>) -> (r: Vec<char>)
    ensures
        r@ == spec_file_name(cs@),
{
    let mut name: Vec<char> = Vec::new();
    let mut i: usize = 0;
    proof {
        assert(cs@.subrange(0, 0) =~= Seq::<char>::empty());
    }
    while i < cs.len()
        invariant
            i <= cs@.len(),
            name@ == spec_file_name(cs@.subrange(0, i as int)),
        decreases cs@.len() - i,
    {
        let c = cs[i];
        if c == '/' || c == '\\' {
            name.clear();
        } else {
            name.push(c);
        }
        proof {
            assert(cs@.subrange(0, i + 1).take(i as int) =~= cs@.subrange(0, i as int));
            assert(cs@.subrange(0, i + 1)[i as int] == cs@[i as int]);
            if !is_sep(cs@[i as int]) {
                assert(name@ =~= spec_file_name(cs@.subrange(0, i as int)) + seq![cs@[i as int]]);
            }
        }
        i = i + 1;
    }
    proof {
        assert(cs@.subrange(0, cs@.len() as int) =~= cs@);
    }
    name
}

/// The extension of a filename.
#[verifier::loop_isolation(false)]
fn extension_exec(cs: &Vec<char>) -> (r: Option<Vec<char>>)
    ensures
        match r {
            Some(e) => spec_extension(cs@) == Some(e@),
            None => spec_extension(cs@) is None,
        },
{
    let mut cur: Option<Vec<char>> = None;
    let mut i: usize = 0;
    proof {
        assert(cs@.subrange(0, 0) =~= Seq::<char>::empty());
    }
    while i < cs.len()
        invariant
            i <= cs@.len(),
            match cur {
                Some(e) => spec_extension(cs@.subrange(0, i as int)) == Some(e@),
                None => spec_extension(cs@.subrange(0, i as int)) is None,
            },
        decreases cs@.len() - i,
    {
        let c = cs[i];
        if c == '.' {
            cur = if i == 0 {
                None
            } else {
                Some(Vec::new())
            };
        } else {
            cur = match cur {
                Some(mut e) => {
                    e.push(c);
                    Some(e)
                },
                None => None,
            };
        }
        proof {
            assert(cs@.subrange(0, i + 1).take(i as int) =~= cs@.subrange(0, i as int));
            assert(cs@.subrange(0, i + 1)[i as int] == cs@[i as int]);
        }
        i = i + 1;
    }
    proof {
        assert(cs@.subrange(0, cs@.len() as int) =~= cs@);
    }
    cur
}

/// A copy of a byte vector.
#[verifier::loop_isolation(false)]
fn copy_bytes(d: &Vec<u8>) -> (r: Vec<u8>)
    ensures
        r@ == d@,
{
    let mut out: Vec<u8> = Vec::new();
    let mut i: usize = 0;
    while i < d.len()
        invariant
            i <= d@.len(),
            out@ == d@.subrange(0, i as int),
        decreases d@.len() - i,
    {
        proof {
            assert(d@.subrange(0, 0) =~= Seq::<u8>::empty());
        }
        out.push(d[i]);
        proof {
            assert(d@.subrange(0, i + 1) =~= d@.subrange(0, i as int).push(d@[i as int]));
        }
        i = i + 1;
    }
    proof {
        assert(d@.subrange(0, d@.len() as int) =~= d@);
    }
    out
}

/// The slice `[offset, offset + len)` of a buffer, clamped to its end:
/// empty at or past the end, never an error.
pub open spec fn spec_chunk(data: Seq<u8>, offset: int, len: int) -> Seq<u8> {
    if offset < 0 || offset >= data.len() {
        Seq::empty()
    } else if offset + len <= data.len() {
        data.subrange(offset, offset + len)
    } else {
        data.subrange(offset, data.len() as int)
    }
}

impl InputFile {
    /// A path-backed input file. The filename is the final path component
    /// and the MIME type is guessed from its extension; a path with an
    /// empty final component is rejected.
    pub fn from_path(path: &str) -> (r: Result<InputFile, AppwriteError>)
        ensures
            match r {
                Ok(f) => {
                    &&& spec_file_name(path@).len() > 0
                    &&& f.source_type is Path
                    &&& f.filename@ == spec_file_name(path@)
                    &&& f.data is None
                    &&& (f.path matches Some(p) && p@ == path@)
                    &&& (match spec_extension(spec_file_name(path@)) {
                        Option::Some(e) => (match mime_for_ext(e) {
                            Option::Some(m) => f.mime_type matches Some(t) && t@ == m,
                            Option::None => f.mime_type is None,
                        }),
                        Option::None => f.mime_type is None,
                    })
                },
                Err(e) => spec_file_name(path@).len() == 0 && (
                e matches AppwriteError::FileError(m) && m@ == "Invalid filename"@),
            },
    {
        let cs = str_to_chars(path);
        let name_chars = file_name_exec(&cs);
        if name_chars.len() == 0 {
            return Err(AppwriteError::file_error("Invalid filename"));
        }
        let filename = chars_to_string(&name_chars);
        let mime_type = match extension_exec(&name_chars) {
            Some(ext_chars) => {
                let ext = chars_to_string(&ext_chars);
                guess_mime_from_ext(ext.as_str())
            },
            None => None,
        };
        Ok(InputFile {
            source_type: InputFileSource::Path,
            filename,
            mime_type,
            data: None,
            path: Some(String::from_str(path)),
        })
    }

    /// A bytes-backed input file with the given name and MIME type.
    pub fn from_bytes(data: Vec<u8>, filename: &str, mime_type: Option<String>) -> (r: InputFile)
        ensures
            r.source_type is Bytes,
            r.filename@ == filename@,
            r.mime_type == mime_type,
            r.data matches Some(d) && d@ == data@,
            r.path is None,
    {
        InputFile {
            source_type: InputFileSource::Bytes,
            filename: String::from_str(filename),
            mime_type,
            data: Some(data),
            path: None,
        }
    }

    /// The file size in bytes. For a bytes-backed file this is the buffer
    /// length; resolving a path-backed size takes the file system, which the
    /// I/O layer supplies.
    pub fn size(&self) -> (r: Result<u64, AppwriteError>)
        ensures
            match r {
                Ok(n) => self.source_type is Bytes && (self.data matches Some(d) && n == d@.len()),
                Err(e) => (match self.source_type {
                    InputFileSource::Bytes => self.data is None && (
                    e matches AppwriteError::FileError(m) && m@ == "Data not set"@),
                    InputFileSource::Path => e matches AppwriteError::FileError(m) && m@
                        == "Path-backed access requires the I/O layer"@,
                }),
            },
    {
        match self.source_type {
            InputFileSource::Bytes => match &self.data {
                Some(d) => Ok(d.len() as u64),
                None => Err(AppwriteError::file_error("Data not set")),
            },
            InputFileSource::Path => Err(
                AppwriteError::file_error("Path-backed access requires the I/O layer"),
            ),
        }
    }

    /// The whole contents. For a bytes-backed file this is the buffer;
    /// reading a path-backed file takes the file system, which the I/O layer
    /// supplies.
    pub fn read_data(&self) -> (r: Result<Vec<u8>, AppwriteError>)
        ensures
            match r {
                Ok(b) => self.source_type is Bytes && (self.data matches Some(d) && b@ == d@),
                Err(e) => (match self.source_type {
                    InputFileSource::Bytes => self.data is None && (
                    e matches AppwriteError::FileError(m) && m@ == "Data not set"@),
                    InputFileSource::Path => e matches AppwriteError::FileError(m) && m@
                        == "Path-backed access requires the I/O layer"@,
                }),
            },
    {
        match self.source_type {
            InputFileSource::Bytes => match &self.data {
                Some(d) => Ok(copy_bytes(d)),
                None => Err(AppwriteError::file_error("Data not set")),
            },
            InputFileSource::Path => Err(
                AppwriteError::file_error("Path-backed access requires the I/O layer"),
            ),
        }
    }

    /// Up to `size` bytes starting at `offset`. For a bytes-backed file the
    /// slice is clamped to the buffer: an offset at or past the end yields
    /// an empty buffer, never an error, and otherwise exactly
    /// `min(size, length - offset)` bytes come back.
    #[verifier::loop_isolation(false)]
    pub fn read_chunk(&self, offset: u64, size: usize) -> (r: Result<Vec<u8>, AppwriteError>)
        ensures
            match r {
                Ok(b) => self.source_type is Bytes && (self.data matches Some(d) && {
                    &&& b@ == spec_chunk(d@, offset as int, size as int)
                    &&& (offset >= d@.len() ==> b@.len() == 0)
                    &&& (offset < d@.len() ==> b@.len() == vstd::math::min(
                        size as int,
                        d@.len() - offset,
                    ))
                }),
                Err(e) => (match self.source_type {
                    InputFileSource::Bytes => self.data is None && (
                    e matches AppwriteError::FileError(m) && m@ == "Data not set"@),
                    InputFileSource::Path => e matches AppwriteError::FileError(m) && m@
                        == "Path-backed access requires the I/O layer"@,
                }),
            },
    {
        match self.source_type {
            InputFileSource::Bytes => match &self.data {
                Some(d) => {
                    if offset >= d.len() as u64 {
                        let empty: Vec<u8> = Vec::new();
                        proof {
                            assert(empty@ =~= spec_chunk(d@, offset as int, size as int));
                        }
                        Ok(empty)
                    } else {
                        let start = offset as usize;
                        let remaining = d.len() - start;
                        let take = if size < remaining {
                            size
                        } else {
                            remaining
                        };
                        let mut out: Vec<u8> = Vec::new();
                        let mut i: usize = 0;
                        proof {
                            assert(out@ =~= d@.subrange(start as int, start as int));
                        }
                        while i < take
                            invariant
                                start + take <= d@.len(),
                                i <= take,
                                out@ == d@.subrange(start as int, start + i),
                            decreases take - i,
                        {
                            out.push(d[start + i]);
                            proof {
                                assert(d@.subrange(start as int, start + i + 1) =~= d@.subrange(
                                    start as int,
                                    start + i,
                                ).push(d@[start + i]));
                            }
                            i = i + 1;
                        }
                        proof {
                            assert(out@ =~= spec_chunk(d@, offset as int, size as int));
                        }
                        Ok(out)
                    }
                },
                None => Err(AppwriteError::file_error("Data not set")),
            },
            InputFileSource::Path => Err(
                AppwriteError::file_error("Path-backed access requires the I/O layer"),
            ),
        }
    }

    /// The filename.
    pub fn filename(&self) -> (r: &str)
        ensures
            r@ == self.filename@,
    {
        self.filename.as_str()
    }

    /// The MIME type, when one is known.
    pub fn mime_type(&self) -> (r: Option<&str>)
        ensures
            match r {
                Some(m) => self.mime_type matches Some(t) && t@ == m@,
                None => self.mime_type is None,
            },
    {
        match &self.mime_type {
            Some(t) => Some(t.as_str()),
            None => None,
        }
    }

    /// Replaces the filename.
    pub fn set_filename(self, filename: &str) -> (r: InputFile)
        ensures
            r.filename@ == filename@,
            r.source_type == self.source_type,
            r.mime_type == self.mime_type,
            r.data == self.data,
            r.path == self.path,
    {
        let InputFile { source_type, filename: _, mime_type, data, path } = self;
        InputFile { source_type, filename: String::from_str(filename), mime_type, data, path }
    }

    /// Replaces the MIME type.
    pub fn set_mime_type(self, mime_type: Option<String>) -> (r: InputFile)
        ensures
            r.mime_type == mime_type,
            r.source_type == self.source_type,
            r.filename@ == self.filename@,
            r.data == self.data,
            r.path == self.path,
    {
        let InputFile { source_type, filename, mime_type: _, data, path } = self;
        InputFile { source_type, filename, mime_type, data, path }
    }
}

} // verus!
