//! Answering a server's request for a local file.
//!
//! The file's bytes go to the server in chunks of [`CHUNK_SIZE`] bytes, one
//! packet per chunk. The first chunk that is shorter than that, possibly
//! empty, is the last one: it tells the server where the file ends.

use vstd::prelude::*;
use crate::error::Error;

verus! {

/// Number of bytes in every chunk of an upload but the last.
pub const CHUNK_SIZE: usize = 4096;

/// The chunks in which `data` is uploaded.
pub open spec fn chunks(data: Seq<u8>) -> Seq<Seq<u8>>
    decreases data.len(),
{
    if data.len() < CHUNK_SIZE {
        seq![data]
    } else {
        seq![data.take(CHUNK_SIZE as int)] + chunks(data.skip(CHUNK_SIZE as int))
    }
}

/// The files that a handler offers, by name. Of two files with one name the
/// one registered first is offered.
pub open spec fn offered(files: Seq<(Seq<u8>, Seq<u8>)>, name: Seq<u8>) -> Option<Seq<u8>>
    decreases files.len(),
{
    if files.len() == 0 {
        None
    } else if files[0].0 == name {
        Some(files[0].1)
    } else {
        offered(files.skip(1), name)
    }
}

/// A file that a handler offers to the server.
#[derive(Debug)]
pub struct LocalFile {
    name: Vec<u8>,
    contents: Vec<u8>,
}

impl View for LocalFile {
    type V = (Seq<u8>, Seq<u8>);

    closed spec fn view(&self) -> (Seq<u8>, Seq<u8>) {
        (self.name@, self.contents@)
    }
}

/// Maps the file names that a server may ask for to the bytes to upload.
#[derive(Debug)]
pub struct LocalInfileHandler {
    files: Vec<LocalFile>,
}

impl View for LocalInfileHandler {
    type V = Seq<(Seq<u8>, Seq<u8>)>;

    closed spec fn view(&self) -> Seq<(Seq<u8>, Seq<u8>)> {
        self.files@.map_values(|f: LocalFile| f@)
    }
}

/// Whether two byte strings are equal.
fn same_bytes(a: &[u8], b: &[u8]) -> (r: bool)
    ensures
        r == (a@ == b@),
{
    if a.len() != b.len() {
        return false;
    }
    let mut i: usize = 0;
    while i < a.len()
        invariant
            a.len() == b.len(),
            i <= a.len(),
            forall|j: int| 0 <= j < i ==> a@[j] == b@[j],
        decreases a.len() - i,
    {
        if a[i] != b[i] {
            return false;
        }
        i = i + 1;
    }
    assert(a@ =~= b@);
    true
}

impl LocalInfileHandler {
    /// A handler that offers no file.
    pub fn new() -> (handler: LocalInfileHandler)
        ensures
            handler@ == Seq::<(Seq<u8>, Seq<u8>)>::empty(),
    {
        let handler = LocalInfileHandler { files: Vec::new() };
        assert(handler@ =~= Seq::<(Seq<u8>, Seq<u8>)>::empty());
        handler
    }

    /// Offers `contents` under `name`, after the files already registered.
    pub fn register(&mut self, name: Vec<u8>, contents: Vec<u8>)
        ensures
            final(self)@ == old(self)@.push((name@, contents@)),
    {
        self.files.push(LocalFile { name, contents });
        assert(self@ =~= old(self)@.push((name@, contents@)));
    }

    /// The bytes to upload for `file_name`.
    pub fn handle(&self, file_name: &[u8]) -> (r: Result<&[u8], Error>)
        ensures
            match r {
                Ok(contents) => offered(self@, file_name@) == Some(contents@),
                Err(e) => e == Error::LocalInfileNotFound && offered(self@, file_name@) is None,
            },
    {
        let mut i: usize = 0;
        assert(self@.skip(0) =~= self@);
        while i < self.files.len()
            invariant
                i <= self.files.len(),
                offered(self@, file_name@) == offered(self@.skip(i as int), file_name@),
            decreases self.files.len() - i,
        {
            assert(self@.skip(i as int)[0] == self.files@[i as int]@);
            if same_bytes(self.files[i].name.as_slice(), file_name) {
                return Ok(self.files[i].contents.as_slice());
            }
            assert(self@.skip(i as int).skip(1) =~= self@.skip(i + 1));
            i = i + 1;
        }
        Err(Error::LocalInfileNotFound)
    }
}

/// Whether a chunk of `len` bytes is the last of its upload.
pub fn is_last_chunk(len: usize) -> (last: bool)
    ensures
        last == (len < CHUNK_SIZE),
{
    len < CHUNK_SIZE
}

} // verus!
