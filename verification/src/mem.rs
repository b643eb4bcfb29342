//! A string of characters with access by index.

use vstd::prelude::*;
use vstd::string::*;

verus! {

/// The characters that stand for the bytes, one for each byte.
pub open spec fn bytes_as_chars(bytes: Seq<u8>) -> Seq<char> {
    Seq::new(bytes.len(), |i: int| bytes[i] as char)
}

/// A string of characters that can be read and written by index.
pub trait FlycatcherString: Sized {
    /// The characters of the string.
    spec fn text(&self) -> Seq<char>;

    /// A string that holds one character for each byte of `src`.
    fn from_str(src: &str) -> (r: Self)
        ensures
            r.text() == bytes_as_chars(src.spec_bytes()),
    ;

    /// The character at `idx`, or `None` if the string is not that long.
    fn get(&self, idx: usize) -> (r: Option<char>)
        ensures
            r == if idx < self.text().len() {
                Some(self.text()[idx as int])
            } else {
                None
            },
    ;

    /// Puts `c` at `idx`. Nothing happens if the string is not that long.
    fn put(&mut self, idx: usize, c: char)
        ensures
            final(self).text() == if idx < old(self).text().len() {
                old(self).text().update(idx as int, c)
            } else {
                old(self).text()
            },
    ;
}

/// A string that keeps its characters on the heap.
#[derive(Debug)]
pub struct AllocString {
    /// The characters.
    pub chars: Vec<char>,
}

impl FlycatcherString for AllocString {
    open spec fn text(&self) -> Seq<char> {
        self.chars@
    }

    fn from_str(src: &str) -> (r: Self) {
        let bytes = src.as_bytes();
        let mut chars: Vec<char> = Vec::new();
        let mut i: usize = 0;
        while i < bytes.len()
            invariant
                i <= bytes@.len(),
                chars@ == bytes_as_chars(bytes@.subrange(0, i as int)),
            decreases bytes@.len() - i,
        {
            chars.push(bytes[i] as char);
            assert(chars@ =~= bytes_as_chars(bytes@.subrange(0, i + 1)));
            i = i + 1;
        }
        assert(bytes@.subrange(0, bytes@.len() as int) =~= bytes@);
        AllocString { chars }
    }

    fn get(&self, idx: usize) -> (r: Option<char>) {
        if idx >= self.chars.len() {
            return None;
        }
        Some(self.chars[idx])
    }

    fn put(&mut self, idx: usize, c: char) {
        if idx >= self.chars.len() {
            return ;
        }
        self.chars[idx] = c;
    }
}

impl AllocString {
    /// Appends `c`.
    pub fn push(&mut self, c: char)
        ensures
            final(self).text() == old(self).text().push(c),
    {
        self.chars.push(c);
    }

    /// The number of characters.
    pub fn len(&self) -> (r: usize)
        ensures
            r == self.text().len(),
    {
        self.chars.len()
    }
}

} // verus!
