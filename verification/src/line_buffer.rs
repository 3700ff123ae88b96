//! Line framing for the read adapter: bytes arrive in arbitrary chunks and
//! leave as whole lines, each ending with the newline byte, exactly as they
//! came in.

use vstd::prelude::*;

verus! {

/// The newline byte that ends a line.
pub const NEWLINE: u8 = 10;

/// Whether a newline byte occurs in `s`.
pub open spec fn has_newline(s: Seq<u8>) -> bool {
    exists|i: int| 0 <= i < s.len() && s[i] == NEWLINE
}

/// The index of the first newline byte in `s`, or `s.len()` if none.
pub open spec fn first_newline(s: Seq<u8>) -> int
    decreases s.len(),
{
    if s.len() == 0 {
        0
    } else if s[0] == NEWLINE {
        0
    } else {
        1 + first_newline(s.drop_first())
    }
}

/// `first_newline` points at the first newline: everything before it is
/// some other byte, and it is a newline exactly when there is one.
pub proof fn lemma_first_newline(s: Seq<u8>)
    ensures
        0 <= first_newline(s) <= s.len(),
        has_newline(s) <==> first_newline(s) < s.len(),
        first_newline(s) < s.len() ==> s[first_newline(s)] == NEWLINE,
        forall|i: int| 0 <= i < first_newline(s) ==> s[i] != NEWLINE,
    decreases s.len(),
{
    if s.len() > 0 && s[0] != NEWLINE {
        lemma_first_newline(s.drop_first());
        let n = first_newline(s);
        assert forall|i: int| 0 <= i < n implies s[i] != NEWLINE by {
            if i > 0 {
                assert(s.drop_first()[i - 1] == s[i]);
            }
        }
        if has_newline(s) {
            let w = choose|i: int| 0 <= i < s.len() && s[i] == NEWLINE;
            assert(s.drop_first()[w - 1] == s[w]);
            assert(has_newline(s.drop_first()));
        }
        if first_newline(s.drop_first()) < s.drop_first().len() {
            assert(s[n] == s.drop_first()[n - 1]);
        }
    }
}

/// Bytes waiting to be framed into lines.
pub struct LineBuffer {
    data: Vec<u8>,
}

impl LineBuffer {
    /// The bytes received and not yet handed out, oldest first.
    pub closed spec fn contents(&self) -> Seq<u8> {
        self.data@
    }

    /// An empty buffer.
    pub fn new() -> (b: LineBuffer)
        ensures
            b.contents() == Seq::<u8>::empty(),
    {
        LineBuffer { data: Vec::new() }
    }

    /// How many bytes are waiting.
    pub fn len(&self) -> (n: usize)
        ensures
            n == self.contents().len(),
    {
        self.data.len()
    }

    /// Append a chunk as it came off the wire.
    pub fn push_bytes(&mut self, bytes: &[u8])
        requires
            old(self).contents().len() + bytes@.len() <= usize::MAX,
        ensures
            final(self).contents() == old(self).contents() + bytes@,
    {
        let ghost orig = self.contents();
        let mut j: usize = 0;
        while j < bytes.len()
            invariant
                j <= bytes@.len(),
                orig.len() + bytes@.len() <= usize::MAX,
                self.contents() == orig + bytes@.take(j as int),
            decreases bytes@.len() - j,
        {
            self.data.push(bytes[j]);
            proof {
                assert(orig + bytes@.take(j + 1) =~= (orig + bytes@.take(j as int)).push(
                    bytes@[j as int],
                ));
            }
            j = j + 1;
        }
        proof {
            assert(orig + bytes@.take(bytes@.len() as int) =~= orig + bytes@);
        }
    }

    /// Hand out the first full line — up to and including its newline —
    /// or nothing if no newline has arrived yet; the bytes after the
    /// newline stay for the next line.
    pub fn take_line(&mut self) -> (r: Option<Vec<u8>>)
        ensures
            !has_newline(old(self).contents()) ==> {
                &&& r is None
                &&& final(self).contents() == old(self).contents()
            },
            has_newline(old(self).contents()) ==> {
                let cut = first_newline(old(self).contents()) + 1;
                &&& r matches Some(line) && line@ == old(self).contents().take(cut)
                &&& final(self).contents() == old(self).contents().skip(cut)
            },
    {
        proof {
            lemma_first_newline(self.contents());
        }
        let n = self.data.len();
        let mut i: usize = 0;
        while i < n && self.data[i] != NEWLINE
            invariant
                n == self.contents().len(),
                i <= n,
                forall|k: int| 0 <= k < i ==> self.contents()[k] != NEWLINE,
            decreases n - i,
        {
            i = i + 1;
        }
        proof {
            assert(i as int == first_newline(self.contents()));
        }
        if i == n {
            return None;
        }
        let mut line: Vec<u8> = Vec::new();
        let mut j: usize = 0;
        while j <= i
            invariant
                j <= i + 1,
                i < n,
                n == self.contents().len(),
                line@ == self.contents().take(j as int),
            decreases i + 1 - j,
        {
            line.push(self.data[j]);
            proof {
                assert(self.contents().take(j + 1) =~= self.contents().take(j as int).push(
                    self.contents()[j as int],
                ));
            }
            j = j + 1;
        }
        let mut rest: Vec<u8> = Vec::new();
        let mut k: usize = i + 1;
        while k < n
            invariant
                i + 1 <= k <= n,
                n == self.contents().len(),
                rest@ == self.contents().subrange(i + 1, k as int),
            decreases n - k,
        {
            rest.push(self.data[k]);
            proof {
                assert(self.contents().subrange(i + 1, k + 1) =~= self.contents().subrange(
                    i + 1,
                    k as int,
                ).push(self.contents()[k as int]));
            }
            k = k + 1;
        }
        proof {
            assert(rest@ =~= self.contents().skip(i + 1));
        }
        self.data = rest;
        Some(line)
    }

    /// Hand out whatever is left, emptying the buffer: the final piece of
    /// a stream that closed without a trailing newline is still a line.
    pub fn take_rest(&mut self) -> (r: Vec<u8>)
        ensures
            r@ == old(self).contents(),
            final(self).contents() == Seq::<u8>::empty(),
    {
        let mut r: Vec<u8> = Vec::new();
        let n = self.data.len();
        let mut j: usize = 0;
        while j < n
            invariant
                j <= n,
                n == self.contents().len(),
                r@ == self.contents().take(j as int),
            decreases n - j,
        {
            r.push(self.data[j]);
            proof {
                assert(self.contents().take(j + 1) =~= self.contents().take(j as int).push(
                    self.contents()[j as int],
                ));
            }
            j = j + 1;
        }
        proof {
            assert(r@ =~= self.contents());
        }
        self.data = Vec::new();
        r
    }
}

/// The echo rule: what goes back over the connection is the line that came
/// in, byte for byte.
pub fn echo_reply(line: &Vec<u8>) -> (r: Vec<u8>)
    ensures
        r@ == line@,
{
    let mut r: Vec<u8> = Vec::new();
    let mut j: usize = 0;
    while j < line.len()
        invariant
            j <= line@.len(),
            r@ == line@.take(j as int),
        decreases line@.len() - j,
    {
        r.push(line[j]);
        proof {
            assert(line@.take(j + 1) =~= line@.take(j as int).push(line@[j as int]));
        }
        j = j + 1;
    }
    proof {
        assert(line@.take(line@.len() as int) =~= line@);
    }
    r
}

} // verus!
