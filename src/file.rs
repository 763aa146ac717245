//! A resource loaded from disk, as the handler sees it, and its compression.
use vstd::prelude::*;

use flate2::write::{DeflateEncoder, GzEncoder};
use flate2::Compression;
use std::io::Write;

use crate::http10::content_codings::ContentEncoding;
use crate::http10::dates::HttpDate;

verus! {

/// Why a resource could not be loaded.
#[derive(Debug, PartialEq, Eq, Clone, Copy, Structural)]
pub enum FileError {
    /// Nothing exists at the path.
    NotFound,
    /// The path exists but reading it failed.
    ReadError,
    /// The path is a directory with neither `index.html` nor `index.htm`.
    IsADirectory,
}

/// A loaded file: its bytes, media type and last modification time.
#[derive(Debug)]
pub struct File {
    pub path: String,
    pub extension: Option<String>,
    pub mime_type: String,
    pub content: Vec<u8>,
    pub size: usize,
    pub modified: HttpDate,
}

/// The gzip stream of `data` at compression level `level`, where writing it succeeds.
pub uninterp spec fn gzip_of(data: Seq<u8>, level: int) -> Option<Seq<u8>>;

/// The raw deflate stream of `data` at compression level `level`, where writing it succeeds.
pub uninterp spec fn deflate_of(data: Seq<u8>, level: int) -> Option<Seq<u8>>;

/// Relies on flate2's `GzEncoder` writing into a `Vec`: the bytes it gives on `finish`.
/// flate2 debug-asserts a level of at most 10.
#[verifier::external_body]
fn gzip_bytes(data: &Vec<u8>, level: u32) -> (r: Option<Vec<u8>>)
    requires
        level <= 10,
    ensures
        r matches Some(v) ==> gzip_of(data@, level as int) == Some(v@),
        r is None <==> gzip_of(data@, level as int) is None,
{
    let mut enc = GzEncoder::new(Vec::new(), Compression::new(level));
    match enc.write_all(data) {
        Ok(()) => enc.finish().ok(),
        Err(_) => None,
    }
}

/// Relies on flate2's `DeflateEncoder` writing into a `Vec`: the bytes it gives on `finish`.
/// flate2 debug-asserts a level of at most 10.
#[verifier::external_body]
fn deflate_bytes(data: &Vec<u8>, level: u32) -> (r: Option<Vec<u8>>)
    requires
        level <= 10,
    ensures
        r matches Some(v) ==> deflate_of(data@, level as int) == Some(v@),
        r is None <==> deflate_of(data@, level as int) is None,
{
    let mut enc = DeflateEncoder::new(Vec::new(), Compression::new(level));
    match enc.write_all(data) {
        Ok(()) => enc.finish().ok(),
        Err(_) => None,
    }
}

/// The content that compressing with a coding gives: `token` leaves it as it is.
pub open spec fn compressed(content: Seq<u8>, coding: ContentEncoding, ratio: int) -> Option<Seq<u8>> {
    match coding {
        ContentEncoding::GZIP => gzip_of(content, ratio),
        ContentEncoding::DEFLATE => deflate_of(content, ratio),
        ContentEncoding::TOKEN => Some(content),
    }
}

/// A copy of some bytes.
pub fn copy_bytes(b: &Vec<u8>) -> (r: Vec<u8>)
    ensures
        r@ == b@,
{
    let mut r: Vec<u8> = Vec::new();
    let mut i: usize = 0;
    while i < b.len()
        invariant
            i <= b@.len(),
            r@ == b@.subrange(0, i as int),
        decreases b@.len() - i,
    {
        r.push(b[i]);
        i = i + 1;
        assert(r@ =~= b@.subrange(0, i as int));
    }
    assert(r@ =~= b@);
    r
}

impl File {
    /// A file with the given parts; its size is the length of its content.
    pub fn new(
        path: String,
        extension: Option<String>,
        mime_type: String,
        content: Vec<u8>,
        modified: HttpDate,
    ) -> (r: File)
        ensures
            r.path == path,
            r.extension == extension,
            r.mime_type == mime_type,
            r.content == content,
            r.size == content@.len(),
            r.modified == modified,
    {
        let size = content.len();
        File { path, extension, mime_type, content, size, modified }
    }

    pub fn get_content(&self) -> (r: Vec<u8>)
        ensures
            r@ == self.content@,
    {
        copy_bytes(&self.content)
    }

    pub fn get_mime(&self) -> (r: String)
        ensures
            r@ == self.mime_type@,
    {
        self.mime_type.clone()
    }

    pub fn get_size(&self) -> (r: usize)
        ensures
            r == self.size,
    {
        self.size
    }

    pub fn get_modified(&self) -> (r: HttpDate)
        ensures
            r == self.modified,
    {
        self.modified
    }

    /// The file with its content compressed by a coding at level `ratio`, its size updated;
    /// `None` where the encoder fails.
    pub fn compress(self, compression: &ContentEncoding, ratio: u32) -> (r: Option<File>)
        requires
            ratio <= 9,
        ensures
            r is Some <==> compressed(self.content@, *compression, ratio as int) is Some,
            r matches Some(f) ==> compressed(self.content@, *compression, ratio as int) == Some(
                f.content@,
            ) && f.size == f.content@.len() && f.path == self.path && f.extension
                == self.extension && f.mime_type == self.mime_type && f.modified
                == self.modified,
    {
        let out = match compression {
            ContentEncoding::GZIP => gzip_bytes(&self.content, ratio),
            ContentEncoding::DEFLATE => deflate_bytes(&self.content, ratio),
            ContentEncoding::TOKEN => {
                let size = self.content.len();
                return Some(File { size, ..self });
            },
        };
        match out {
            Some(comp) => {
                let size = comp.len();
                Some(File { size, content: comp, ..self })
            },
            None => None,
        }
    }
}

} // verus!
