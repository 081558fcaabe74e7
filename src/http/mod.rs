use vstd::prelude::*;
use vstd::slice::slice_subrange;
use vstd::slice::slice_to_vec;
use vstd::string::StringSliceAdditionalSpecFns;

pub mod headers;
pub mod request;
pub mod response;

verus! {

/// The error of turning text into a `Body`; it never occurs.
#[derive(Debug)]
pub struct BodyTransformError;

/// An opaque byte buffer carried by a request or a response.
#[derive(Debug, Clone)]
pub struct Body {
    content: Vec<u8>,
}

impl View for Body {
    type V = Seq<u8>;

    closed spec fn view(&self) -> Seq<u8> {
        self.content@
    }
}

impl Default for Body {
    fn default() -> (r: Self)
        ensures
            r@ == Seq::<u8>::empty(),
    {
        Body { content: Vec::new() }
    }
}

impl Body {
    pub fn new(bytes: Vec<u8>) -> (r: Self)
        ensures
            r@ == bytes@,
    {
        Body { content: bytes }
    }

    /// The body holding the UTF-8 encoding of `s`.
    pub fn from_str(s: &str) -> (r: Result<Self, BodyTransformError>)
        ensures
            r matches Ok(b) && b@ == s.spec_bytes(),
    {
        let bytes = s.as_bytes();
        Ok(Body { content: slice_to_vec(bytes) })
    }

    pub fn len(&self) -> (r: usize)
        ensures
            r == self@.len(),
    {
        self.content.len()
    }

    pub fn as_bytes(&self) -> (r: &[u8])
        ensures
            r@ == self@,
    {
        self.content.as_slice()
    }
}

/// A finite byte stream read from the front: the bytes and how many of them
/// have been consumed.
#[derive(Debug)]
pub struct ByteReader {
    bytes: Vec<u8>,
    pos: usize,
}

impl ByteReader {
    pub closed spec fn data(&self) -> Seq<u8> {
        self.bytes@
    }

    pub closed spec fn pos(&self) -> int {
        self.pos as int
    }

    pub open spec fn wf(&self) -> bool {
        0 <= self.pos() <= self.data().len()
    }

    pub fn new(bytes: Vec<u8>) -> (r: Self)
        ensures
            r.data() == bytes@,
            r.pos() == 0,
            r.wf(),
    {
        ByteReader { bytes, pos: 0 }
    }

    /// How many bytes have been consumed.
    pub fn position(&self) -> (r: usize)
        ensures
            r == self.pos(),
    {
        self.pos
    }

    /// The bytes not consumed yet.
    pub fn remaining(&self) -> (r: &[u8])
        requires
            self.wf(),
        ensures
            r@ == self.data().subrange(self.pos(), self.data().len() as int),
    {
        slice_subrange(self.bytes.as_slice(), self.pos, self.bytes.len())
    }

    /// Consumes bytes up to and including the next `\n` and returns them
    /// without it, and without a `\r` just before it. `None` when the stream
    /// ends first; everything is then consumed.
    pub fn read_line(&mut self) -> (r: Option<Vec<u8>>)
        requires
            old(self).wf(),
        ensures
            final(self).wf(),
            final(self).data() == old(self).data(),
            match line_spec(old(self).data(), old(self).pos()) {
                Some((l, next)) => r matches Some(v) && v@ == l && final(self).pos() == next,
                None => r is None && final(self).pos() == old(self).data().len(),
            },
    {
        let ghost s = self.bytes@;
        let start = self.pos;
        let mut i = self.pos;
        while i < self.bytes.len()
            invariant
                start <= i <= self.bytes@.len(),
                s == self.bytes@,
                s == old(self).bytes@,
                self.pos == start,
                start == old(self).pos,
                next_newline(s, i as int) == next_newline(s, start as int),
            decreases self.bytes@.len() - i,
        {
            if self.bytes[i] == 10u8 {
                let mut line = slice_to_vec(slice_subrange(self.bytes.as_slice(), start, i));
                let n = line.len();
                if n > 0 && line[n - 1] == 13u8 {
                    line.pop();
                }
                self.pos = i + 1;
                assert(line@ =~= strip_cr(s.subrange(start as int, i as int)));
                return Some(line);
            }
            i = i + 1;
        }
        self.pos = self.bytes.len();
        None
    }

    /// Consumes exactly `n` bytes, or nothing when fewer than `n` are left.
    pub fn read_exact(&mut self, n: usize) -> (r: Option<Vec<u8>>)
        requires
            old(self).wf(),
        ensures
            final(self).wf(),
            final(self).data() == old(self).data(),
            old(self).pos() + n <= old(self).data().len() ==> (r matches Some(v)
                && v@ == old(self).data().subrange(old(self).pos(), old(self).pos() + n)
                && final(self).pos() == old(self).pos() + n),
            old(self).pos() + n > old(self).data().len() ==> r is None && final(self).pos()
                == old(self).pos(),
    {
        if n > self.bytes.len() - self.pos {
            return None;
        }
        let out = slice_to_vec(slice_subrange(self.bytes.as_slice(), self.pos, self.pos + n));
        self.pos = self.pos + n;
        Some(out)
    }
}

/// Index of the first `\n` at or after `i`, or the length when there is none.
pub open spec fn next_newline(s: Seq<u8>, i: int) -> int
    decreases s.len() - i,
{
    if i >= s.len() {
        s.len() as int
    } else if s[i] == 10u8 {
        i
    } else {
        next_newline(s, i + 1)
    }
}

/// A line without its trailing `\r`.
pub open spec fn strip_cr(l: Seq<u8>) -> Seq<u8> {
    if l.len() > 0 && l.last() == 13u8 {
        l.drop_last()
    } else {
        l
    }
}

/// The line that starts at `pos` and the position after its `\n`, or `None`
/// when no `\n` follows.
pub open spec fn line_spec(s: Seq<u8>, pos: int) -> Option<(Seq<u8>, int)> {
    let nl = next_newline(s, pos);
    if nl < s.len() {
        Some((strip_cr(s.subrange(pos, nl)), nl + 1))
    } else {
        None
    }
}

} // verus!

verus! {

pub proof fn lemma_next_newline_bounds(s: Seq<u8>, i: int)
    requires
        0 <= i <= s.len(),
    ensures
        i <= next_newline(s, i) <= s.len(),
        forall|j: int| i <= j < next_newline(s, i) ==> s[j] != 10u8,
        next_newline(s, i) < s.len() ==> s[next_newline(s, i)] == 10u8,
    decreases s.len() - i,
{
    if i < s.len() && s[i] != 10u8 {
        lemma_next_newline_bounds(s, i + 1);
    }
}

} // verus!
