//! Output buffers that styled text is written to, and the text content of a
//! styled fragment.
use vstd::prelude::*;

verus! {

/// An appendable output buffer: a `String` (a stream of characters) or a
/// `Vec<u8>` (a stream of bytes). Text of the same kind and ASCII escape
/// codes can be written to it.
pub trait AnyWrite: Sized {
    /// What the buffer is a sequence of: `char` or `u8`.
    type Unit;

    /// What the buffer holds.
    spec fn units(&self) -> Seq<Self::Unit>;

    /// How the ASCII byte `b` of an escape code stands in the buffer.
    spec fn code_unit(b: u8) -> Self::Unit;

    /// An empty buffer.
    fn empty_buffer() -> (r: Self)
        ensures
            r.units() == Seq::<Self::Unit>::empty(),
    ;

    /// A copy of the buffer.
    fn clone_buffer(&self) -> (r: Self)
        ensures
            r.units() == self.units(),
    ;

    /// Writes the text `s` at the end.
    fn write_any_str(&mut self, s: &Self)
        ensures
            final(self).units() == old(self).units() + s.units(),
    ;

    /// Writes the ASCII bytes of an escape code at the end.
    fn write_code(&mut self, code: &Vec<u8>)
        ensures
            final(self).units() == old(self).units() + code@.map_values(
                |b: u8| Self::code_unit(b),
            ),
    ;
}

/// How the bytes of an escape code stand in the buffer `W`.
pub open spec fn lift<W: AnyWrite>(code: Seq<u8>) -> Seq<W::Unit> {
    code.map_values(|b: u8| W::code_unit(b))
}

/// The characters of ASCII bytes.
pub open spec fn code_chars(code: Seq<u8>) -> Seq<char> {
    code.map_values(|b: u8| b as char)
}

/// Relies on `String::push`: the character is appended at the end.
#[verifier::external_body]
fn push_char(s: &mut String, c: char)
    ensures
        final(s)@ == old(s)@.push(c),
{
    s.push(c)
}

impl AnyWrite for String {
    type Unit = char;

    open spec fn units(&self) -> Seq<char> {
        self@
    }

    open spec fn code_unit(b: u8) -> char {
        b as char
    }

    fn empty_buffer() -> (r: String) {
        String::new()
    }

    fn clone_buffer(&self) -> (r: String) {
        self.clone()
    }

    fn write_any_str(&mut self, s: &String) {
        self.append(s.as_str());
    }

    fn write_code(&mut self, code: &Vec<u8>) {
        let mut i: usize = 0;
        while i < code.len()
            invariant
                i <= code@.len(),
                self@ == old(self)@ + code_chars(code@.subrange(0, i as int)),
            decreases code@.len() - i,
        {
            push_char(self, code[i] as char);
            i += 1;
            assert(code_chars(code@.subrange(0, i as int)) =~= code_chars(
                code@.subrange(0, i - 1 as int),
            ).push(code@[i - 1] as char));
        }
        assert(code@.subrange(0, code@.len() as int) =~= code@);
        assert(code_chars(code@) =~= code@.map_values(|b: u8| b as char));
    }
}

impl AnyWrite for Vec<u8> {
    type Unit = u8;

    open spec fn units(&self) -> Seq<u8> {
        self@
    }

    open spec fn code_unit(b: u8) -> u8 {
        b
    }

    fn empty_buffer() -> (r: Vec<u8>) {
        Vec::new()
    }

    fn clone_buffer(&self) -> (r: Vec<u8>) {
        let mut r: Vec<u8> = Vec::new();
        crate::ansi::extend_bytes(&mut r, self);
        r
    }

    fn write_any_str(&mut self, s: &Vec<u8>) {
        crate::ansi::extend_bytes(self, s);
    }

    fn write_code(&mut self, code: &Vec<u8>) {
        crate::ansi::extend_bytes(self, code);
        assert(code@.map_values(|b: u8| b) =~= code@);
    }
}

/// The text of a styled fragment, held until it is written out. It is always
/// held by value: a deferred formatted value is not held, so callers format
/// it into a `String` (or a `Vec<u8>`) first.
#[derive(Clone, Debug)]
pub enum Content<S> {
    /// Text held by value: a `String` or a `Vec<u8>`.
    StrLike(S),
}

impl<S: AnyWrite> Content<S> {
    /// The text this content stands for.
    pub open spec fn units(&self) -> Seq<S::Unit> {
        match self {
            Content::StrLike(s) => s.units(),
        }
    }

    /// A copy of the content.
    pub fn copy(&self) -> (r: Content<S>)
        ensures
            r.units() == self.units(),
    {
        match self {
            Content::StrLike(s) => Content::StrLike(s.clone_buffer()),
        }
    }

    /// Writes the content to `w`.
    pub fn write_to(&self, w: &mut S)
        ensures
            final(w).units() == old(w).units() + self.units(),
    {
        match self {
            Content::StrLike(s) => w.write_any_str(s),
        }
    }
}

} // verus!
