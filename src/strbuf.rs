//! A fixed-capacity text buffer for formatting diagnostics without
//! allocation. A write that does not fit fails whole; nothing is cut short.
use vstd::prelude::*;

verus! {

use vstd::slice::slice_subrange;
use vstd::utf8::{
    decode_utf8,
    decode_utf8_encode_utf8,
    encode_utf8,
    encode_utf8_decode_utf8,
    encode_utf8_valid_utf8,
    valid_utf8,
};

/// A write did not fit in what is left of the buffer.
#[derive(Clone, Copy, Debug, PartialEq, Eq, Structural)]
pub struct Overflow;

/// Relies on `core::str::from_utf8`: it accepts exactly the byte strings that
/// are valid UTF-8, and then returns the text those bytes encode.
#[verifier::external_body]
fn utf8_text<'a>(b: &'a [u8]) -> (r: Option<&'a str>)
    ensures
        r.is_some() == valid_utf8(b@),
        r.is_some() ==> encode_utf8(r.unwrap()@) == b@,
{
    core::str::from_utf8(b).ok()
}

/// Encoding a concatenation gives the concatenated encodings.
proof fn lemma_encode_append(a: Seq<char>, b: Seq<char>)
    ensures
        encode_utf8(a + b) == encode_utf8(a) + encode_utf8(b),
    decreases a.len(),
{
    if a.len() == 0 {
        assert(a + b =~= b);
        assert(encode_utf8(a) + encode_utf8(b) =~= encode_utf8(b));
    } else {
        assert((a + b)[0] == a[0]);
        assert((a + b).drop_first() =~= a.drop_first() + b);
        lemma_encode_append(a.drop_first(), b);
        assert(encode_utf8(a + b) =~= encode_utf8(a) + encode_utf8(b));
    }
}

/// Text held in an array of `N` bytes.
pub struct StrBuf<const N: usize> {
    buf: [u8; N],
    cursor: usize,
}

impl<const N: usize> StrBuf<N> {
    #[verifier::type_invariant]
    spec fn inv(&self) -> bool {
        &&& self.cursor <= N
        &&& valid_utf8(self.buf@.subrange(0, self.cursor as int))
    }

    /// The UTF-8 bytes of the text held.
    pub closed spec fn bytes(&self) -> Seq<u8> {
        self.buf@.subrange(0, self.cursor as int)
    }
}

impl<const N: usize> View for StrBuf<N> {
    type V = Seq<char>;

    /// The text held.
    closed spec fn view(&self) -> Seq<char> {
        decode_utf8(self.bytes())
    }
}

impl<const N: usize> Default for StrBuf<N> {
    fn default() -> (r: StrBuf<N>)
        ensures
            r@ == Seq::<char>::empty(),
    {
        StrBuf::new()
    }
}

impl<const N: usize> StrBuf<N> {
    /// An empty buffer.
    pub fn new() -> (r: StrBuf<N>)
        ensures
            r@ == Seq::<char>::empty(),
    {
        let r = StrBuf { buf: [0u8; N], cursor: 0 };
        assert(r.bytes() =~= Seq::<u8>::empty());
        r
    }

    /// Forgets the text held.
    pub fn clear(&mut self)
        ensures
            final(self)@ == Seq::<char>::empty(),
    {
        self.cursor = 0;
        assert(self.bytes() =~= Seq::<u8>::empty());
    }

    /// The text held.
    pub fn as_str(&self) -> (r: &str)
        ensures
            r@ == self@,
    {
        proof {
            use_type_invariant(self);
        }
        let bytes = slice_subrange(self.buf.as_slice(), 0, self.cursor);
        assert(bytes@ =~= self.bytes());
        match utf8_text(bytes) {
            Some(s) => {
                proof {
                    encode_utf8_decode_utf8(s@);
                }
                s
            },
            None => "",
        }
    }

    /// Appends `s` if its bytes fit in what is left of the buffer; otherwise
    /// leaves the buffer as it was and fails.
    pub fn write_str(&mut self, s: &str) -> (r: Result<(), Overflow>)
        ensures
            r.is_ok() <==> encode_utf8(old(self)@).len() + encode_utf8(s@).len() <= N,
            r.is_ok() ==> final(self)@ == old(self)@ + s@,
            r.is_err() ==> final(self)@ == old(self)@,
    {
        proof {
            use_type_invariant(&*self);
            decode_utf8_encode_utf8(self.bytes());
        }
        let bytes = s.as_bytes();
        let start = self.cursor;
        if bytes.len() > N - start {
            return Err(Overflow);
        }
        let ghost old_bytes = self.bytes();
        let mut buf = self.buf;
        let mut i: usize = 0;
        while i < bytes.len()
            invariant
                start == self.cursor,
                start + bytes@.len() <= N,
                i <= bytes@.len(),
                buf@.subrange(0, start as int) == old_bytes,
                forall|j: int| 0 <= j < i ==> buf@[start + j] == bytes@[j],
            decreases bytes@.len() - i,
        {
            let ghost before = buf@;
            buf[start + i] = bytes[i];
            assert(buf@.subrange(0, start as int) =~= before.subrange(0, start as int));
            i = i + 1;
        }
        let end = start + bytes.len();
        proof {
            let new_bytes = buf@.subrange(0, end as int);
            assert(new_bytes =~= old_bytes + bytes@);
            lemma_encode_append(old(self)@, s@);
            encode_utf8_valid_utf8(old(self)@ + s@);
            encode_utf8_decode_utf8(old(self)@ + s@);
        }
        *self = StrBuf { buf, cursor: end };
        Ok(())
    }
}

} // verus!
