//! Text files: how their bytes become text, and line queries on that text.
//!
//! Reading the bytes is left to the caller; each query takes them as read.
use vstd::prelude::*;
use vstd::string::*;
use vstd::utf8::{decode_utf8, valid_utf8};
use crate::text::{contains, contains_exec, split_exec, split_on, views};

verus! {

/// What the UTF-16LE decoder of encoding_rs_io makes of the bytes.
pub uninterp spec fn utf16le_text(bytes: Seq<u8>) -> Seq<char>;

/// The characters with the Unicode White_Space property.
pub open spec fn is_white_space(c: char) -> bool {
    let u = c as u32;
    (0x9 <= u && u <= 0xd) || u == 0x20 || u == 0x85 || u == 0xa0 || u == 0x1680 || (0x2000 <= u
        && u <= 0x200a) || u == 0x2028 || u == 0x2029 || u == 0x202f || u == 0x205f || u == 0x3000
}

pub open spec fn trim_start(s: Seq<char>) -> Seq<char>
    decreases s.len(),
{
    if s.len() > 0 && is_white_space(s[0]) {
        trim_start(s.drop_first())
    } else {
        s
    }
}

pub open spec fn trim_end(s: Seq<char>) -> Seq<char>
    decreases s.len(),
{
    if s.len() > 0 && is_white_space(s.last()) {
        trim_end(s.drop_last())
    } else {
        s
    }
}

/// `s` without leading and trailing white space.
pub open spec fn trimmed(s: Seq<char>) -> Seq<char> {
    trim_end(trim_start(s))
}

/// Relies on encoding_rs_io's DecodeReaderBytes set to UTF-16LE (encoding_rs):
/// malformed input becomes replacement characters, so reading never fails;
/// the text depends on the bytes alone.
#[verifier::external_body]
fn decode_utf16le(bytes: &Vec<u8>) -> (r: String)
    ensures
        r@ == utf16le_text(bytes@),
{
    let enc = encoding_rs::Encoding::for_label("utf-16le".as_bytes());
    let mut dec = encoding_rs_io::DecodeReaderBytesBuilder::new().encoding(enc).build(&bytes[..]);
    let mut res = String::new();
    let _ = std::io::Read::read_to_string(&mut dec, &mut res);
    res
}

/// Relies on String::from_utf8: it succeeds exactly on valid UTF-8, and the
/// text is what the bytes encode.
#[verifier::external_body]
fn utf8_text(bytes: &Vec<u8>) -> (r: Option<String>)
    ensures
        r is Some == valid_utf8(bytes@),
        r matches Some(s) ==> s@ == decode_utf8(bytes@),
{
    String::from_utf8(bytes.clone()).ok()
}

/// Relies on str::trim: leading and trailing characters with the Unicode
/// White_Space property removed.
#[verifier::external_body]
fn trim(s: &str) -> (r: String)
    ensures
        r@ == trimmed(s@),
{
    s.trim().to_string()
}

/// Why a line query on a file failed.
#[derive(Debug, Clone, Copy, PartialEq, Eq, Structural)]
pub enum FileError {
    /// The bytes are not text in the file's encoding.
    NotText,
    /// No line has anything but white space.
    Empty,
    /// No line holds the text looked for.
    TextNotFound,
}

/// The lines of `text` (split at line feeds), trimmed, without the empty ones.
pub open spec fn content_lines(text: Seq<char>) -> Seq<Seq<char>> {
    nonempty_trimmed(split_on(text, "\n"@))
}

pub open spec fn nonempty_trimmed(parts: Seq<Seq<char>>) -> Seq<Seq<char>>
    decreases parts.len(),
{
    if parts.len() == 0 {
        Seq::empty()
    } else {
        let prev = nonempty_trimmed(parts.drop_last());
        let t = trimmed(parts.last());
        if t.len() == 0 {
            prev
        } else {
            prev.push(t)
        }
    }
}

/// The first of `lines` that contains `text`, if any.
pub open spec fn first_containing(lines: Seq<Seq<char>>, text: Seq<char>) -> Option<Seq<char>>
    decreases lines.len(),
{
    if lines.len() == 0 {
        None
    } else if contains(lines[0], text) {
        Some(lines[0])
    } else {
        first_containing(lines.drop_first(), text)
    }
}

/// A file to read: its path and whether it is UTF-16LE rather than UTF-8.
pub struct File {
    file: String,
    is_utf16le: bool,
}

impl File {
    pub closed spec fn path(&self) -> Seq<char> {
        self.file@
    }

    pub closed spec fn utf16le(&self) -> bool {
        self.is_utf16le
    }

    /// The text that the bytes of this file hold, if they are text.
    pub open spec fn text_of(&self, bytes: Seq<u8>) -> Option<Seq<char>> {
        if self.utf16le() {
            Some(utf16le_text(bytes))
        } else if valid_utf8(bytes) {
            Some(decode_utf8(bytes))
        } else {
            None
        }
    }

    /// No path, read as UTF-8.
    pub fn new() -> (r: File)
        ensures
            r.path().len() == 0,
            !r.utf16le(),
    {
        File { file: String::new(), is_utf16le: false }
    }

    pub fn set_file(&mut self, filepath: &str) -> (r: &mut Self)
        ensures
            r.path() == filepath@,
            r.utf16le() == old(self).utf16le(),
            *final(self) == *final(r),
    {
        self.file = String::from_str(filepath);
        self
    }

    /// Marks the file as UTF-16LE.
    pub fn is_utf16le(&mut self) -> (r: &mut Self)
        ensures
            r.utf16le(),
            r.path() == old(self).path(),
            *final(self) == *final(r),
    {
        self.is_utf16le = true;
        self
    }

    pub fn get_file(&self) -> (r: &String)
        ensures
            r@ == self.path(),
    {
        &self.file
    }

    /// The text of the file whose content is `bytes`.
    pub fn file_text(&self, bytes: &Vec<u8>) -> (r: Option<String>)
        ensures
            match r {
                Some(s) => self.text_of(bytes@) == Some(s@),
                None => self.text_of(bytes@) is None,
            },
    {
        if self.is_utf16le {
            Some(decode_utf16le(bytes))
        } else {
            utf8_text(bytes)
        }
    }

    /// The lines of the file whose content is `bytes`, trimmed, without the empty ones.
    pub fn content_lines(&self, bytes: &Vec<u8>) -> (r: Option<Vec<String>>)
        ensures
            match r {
                Some(v) => self.text_of(bytes@) matches Some(t) && views(v@) == content_lines(t),
                None => self.text_of(bytes@) is None,
            },
    {
        let text = match self.file_text(bytes) {
            Some(t) => t,
            None => return None,
        };
        proof {
            reveal_strlit("\n");
        }
        let parts = split_exec(text.as_str(), "\n");
        let mut out: Vec<String> = Vec::new();
        let mut i: usize = 0;
        while i < parts.len()
            invariant
                i <= parts@.len(),
                views(out@) == nonempty_trimmed(views(parts@).take(i as int)),
            decreases parts@.len() - i,
        {
            assert(views(parts@).take(i + 1).drop_last() =~= views(parts@).take(i as int));
            let t = trim(parts[i].as_str());
            if t.as_str().unicode_len() != 0 {
                let ghost before = views(out@);
                out.push(t);
                assert(views(out@) =~= before.push(trimmed(parts@[i as int]@)));
            }
            i += 1;
        }
        assert(views(parts@).take(i as int) =~= views(parts@));
        Some(out)
    }

    /// The last line of the file, trimmed, that is not empty.
    pub fn last_file_line(&mut self, bytes: &Vec<u8>) -> (r: Result<String, FileError>)
        ensures
            *final(self) == *old(self),
            match old(self).text_of(bytes@) {
                None => r == Err::<String, FileError>(FileError::NotText),
                Some(t) => if content_lines(t).len() == 0 {
                    r == Err::<String, FileError>(FileError::Empty)
                } else {
                    r matches Ok(s) && s@ == content_lines(t).last()
                },
            },
    {
        match self.content_lines(bytes) {
            None => Err(FileError::NotText),
            Some(mut lines) => {
                let n = lines.len();
                if n == 0 {
                    Err(FileError::Empty)
                } else {
                    Ok(lines.remove(n - 1))
                }
            },
        }
    }

    /// The first line of the file, trimmed, that is not empty.
    pub fn first_file_line(&mut self, bytes: &Vec<u8>) -> (r: Result<String, FileError>)
        ensures
            *final(self) == *old(self),
            match old(self).text_of(bytes@) {
                None => r == Err::<String, FileError>(FileError::NotText),
                Some(t) => if content_lines(t).len() == 0 {
                    r == Err::<String, FileError>(FileError::Empty)
                } else {
                    r matches Ok(s) && s@ == content_lines(t)[0]
                },
            },
    {
        match self.content_lines(bytes) {
            None => Err(FileError::NotText),
            Some(mut lines) => {
                if lines.len() == 0 {
                    Err(FileError::Empty)
                } else {
                    Ok(lines.remove(0))
                }
            },
        }
    }

    /// The first line of the file, trimmed and not empty, that contains `text`.
    pub fn find_line_by_text(&mut self, bytes: &Vec<u8>, text: &str) -> (r: Result<String, FileError>)
        ensures
            *final(self) == *old(self),
            match old(self).text_of(bytes@) {
                None => r == Err::<String, FileError>(FileError::NotText),
                Some(t) => match first_containing(content_lines(t), text@) {
                    None => r == Err::<String, FileError>(FileError::TextNotFound),
                    Some(line) => r matches Ok(s) && s@ == line,
                },
            },
    {
        let mut lines = match self.content_lines(bytes) {
            None => return Err(FileError::NotText),
            Some(v) => v,
        };
        let ghost all = views(lines@);
        assert(all.subrange(0, all.len() as int) =~= all);
        let mut i: usize = 0;
        while i < lines.len()
            invariant
                i <= lines@.len(),
                all == views(lines@),
                *self == *old(self),
                old(self).text_of(bytes@) matches Some(t) && all == content_lines(t),
                first_containing(all, text@) == first_containing(all.subrange(i as int, all.len() as int), text@),
            decreases lines@.len() - i,
        {
            let ghost rest = all.subrange(i as int, all.len() as int);
            assert(rest.drop_first() =~= all.subrange(i + 1, all.len() as int));
            assert(rest[0] == lines@[i as int]@);
            if contains_exec(lines[i].as_str(), text) {
                let ghost li = lines@[i as int]@;
                let line = lines.remove(i);
                assert(line@ == li);
                assert(first_containing(rest, text@) == Some(li));
                return Ok(line);
            }
            i += 1;
        }
        assert(all.subrange(i as int, all.len() as int).len() == 0);
        Err(FileError::TextNotFound)
    }
}

} // verus!
