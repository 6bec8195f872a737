//! A file whose content is written in its own path: the path
//! `content:text` opens a file that holds `text`.

use std::io;
use vstd::prelude::*;
use vstd::utf8::encode_utf8;
use crate::strings::{starts_with, slice_starts_with, str_chars, string_from_chars, sub_chars};

verus! {

#[verifier::external_type_specification]
#[verifier::external_body]
pub struct ExIoError(std::io::Error);

/// Prefix of the paths that can be opened.
pub const PATH_PREFIX: &'static str = "content:";

/// `io::Error::new` with the kind `Other` and a message.
#[verifier::external_body]
fn other_error(message: &'static str) -> std::io::Error {
    io::Error::new(io::ErrorKind::Other, message)
}

/// A file with its content and the position of the next read.
pub struct File {
    content: String,
    pos: usize,
}

impl File {
    /// The bytes of the file.
    pub closed spec fn content(&self) -> Seq<u8> {
        encode_utf8(self.content@)
    }

    /// The position of the next read.
    pub closed spec fn pos(&self) -> nat {
        self.pos as nat
    }

    /// The position never goes past the end.
    pub closed spec fn wf(&self) -> bool {
        self.pos <= encode_utf8(self.content@).len()
    }

    /// Open the file whose content follows the prefix of its path; an error
    /// for any other path.
    pub fn open(path: &str) -> (r: io::Result<File>)
        ensures
            match r {
                Ok(f) => starts_with(path@, PATH_PREFIX@) && f.wf() && f.pos() == 0
                    && f.content() == encode_utf8(path@.skip(PATH_PREFIX@.len() as int)),
                Err(_) => !starts_with(path@, PATH_PREFIX@),
            },
    {
        let chars = str_chars(path);
        let prefix = str_chars(PATH_PREFIX);
        if !slice_starts_with(chars.as_slice(), prefix.as_slice()) {
            Err(other_error("invalid test path"))
        } else {
            let rest = sub_chars(chars.as_slice(), prefix.len(), chars.len());
            let content = string_from_chars(rest.as_slice());
            assert(rest@ =~= path@.skip(PATH_PREFIX@.len() as int));
            Ok(File { content, pos: 0 })
        }
    }

    /// Read into `buf` as many bytes as it holds or as remain, and return
    /// how many were read; the rest of `buf` is left alone.
    pub fn read(&mut self, buf: &mut [u8]) -> (r: io::Result<usize>)
        requires
            old(self).wf(),
        ensures
            final(self).wf(),
            final(self).content() == old(self).content(),
            r matches Ok(n) && {
                &&& n == (if old(buf)@.len() <= old(self).content().len() - old(self).pos() {
                    old(buf)@.len() as int
                } else {
                    old(self).content().len() - old(self).pos()
                })
                &&& final(self).pos() == old(self).pos() + n
                &&& final(buf)@.len() == old(buf)@.len()
                &&& final(buf)@.take(n as int) == old(self).content().subrange(old(self).pos() as int, old(self).pos() + n)
                &&& final(buf)@.skip(n as int) == old(buf)@.skip(n as int)
            },
    {
        let bytes = self.content.as_str().as_bytes();
        let rest_len = bytes.len() - self.pos;
        if rest_len == 0 {
            assert(buf@.skip(0) =~= old(buf)@.skip(0));
            assert(buf@.take(0) =~= bytes@.subrange(self.pos as int, self.pos as int));
            return Ok(0);
        }
        let n = if buf.len() <= rest_len { buf.len() } else { rest_len };
        let mut i: usize = 0;
        while i < n
            invariant
                0 <= i <= n,
                n <= buf.len(),
                self.pos + n <= bytes.len(),
                bytes@ == encode_utf8(self.content@),
                buf@.len() == old(buf)@.len(),
                forall|j: int| 0 <= j < i ==> buf@[j] == bytes@[self.pos + j],
                forall|j: int| i <= j < buf@.len() ==> buf@[j] == old(buf)@[j],
            decreases n - i,
        {
            buf[i] = bytes[self.pos + i];
            i = i + 1;
        }
        let ghost start = self.pos as int;
        assert(buf@.take(n as int) =~= bytes@.subrange(start, start + n));
        assert(buf@.skip(n as int) =~= old(buf)@.skip(n as int));
        self.pos = self.pos + n;
        Ok(n)
    }
}

} // verus!
