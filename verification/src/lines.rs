//! The TCP control wire's outer framing: a byte stream cut into LF-ended
//! lines. A carriage return just before the line feed is dropped, the rest
//! of the line is handed over untouched.

use vstd::prelude::*;

verus! {

/// The position of the first line feed at or after `i`, or the length if
/// none.
pub open spec fn lf_pos(s: Seq<u8>, i: int) -> int
    recommends
        0 <= i <= s.len(),
    decreases s.len() - i,
{
    if 0 <= i < s.len() {
        if s[i] == 0x0a {
            i
        } else {
            lf_pos(s, i + 1)
        }
    } else {
        i
    }
}

/// A line as handed to the parser: the bytes before the line feed, less a
/// final carriage return.
pub open spec fn strip_cr(s: Seq<u8>) -> Seq<u8> {
    if s.len() > 0 && s.last() == 0x0d {
        s.drop_last()
    } else {
        s
    }
}

/// Buffers stream bytes and hands out whole lines.
pub struct LineBuffer {
    buf: Vec<u8>,
}

impl LineBuffer {
    /// The bytes received but not yet handed out.
    pub closed spec fn buffered(self) -> Seq<u8> {
        self.buf@
    }

    /// An empty buffer.
    pub fn new() -> (b: LineBuffer)
        ensures
            b.buffered() == Seq::<u8>::empty(),
    {
        LineBuffer { buf: Vec::new() }
    }

    /// Appends bytes read from the stream.
    pub fn feed(&mut self, bytes: &[u8])
        ensures
            final(self).buffered() == old(self).buffered() + bytes@,
    {
        self.buf.extend_from_slice(bytes);
    }

    /// Takes the next whole line, without its line feed and without a
    /// carriage return just before it; `None` means no whole line is
    /// buffered yet.
    pub fn next_line(&mut self) -> (r: Option<Vec<u8>>)
        ensures
            match r {
                None => {
                    &&& final(self).buffered() == old(self).buffered()
                    &&& lf_pos(old(self).buffered(), 0) == old(self).buffered().len()
                },
                Some(line) => {
                    let k = lf_pos(old(self).buffered(), 0);
                    &&& k < old(self).buffered().len()
                    &&& line@ == strip_cr(old(self).buffered().take(k))
                    &&& final(self).buffered() == old(self).buffered().skip(k + 1)
                },
            },
    {
        let n = self.buf.len();
        let mut k: usize = 0;
        while k < n && self.buf[k] != 0x0a
            invariant
                k <= n,
                n == self.buffered().len(),
                lf_pos(self.buffered(), 0) == lf_pos(self.buffered(), k as int),
            decreases n - k,
        {
            k = k + 1;
        }
        if k == n {
            return None;
        }
        let mut rest = self.buf.split_off(k + 1);
        core::mem::swap(&mut self.buf, &mut rest);
        let mut line = rest;
        let ghost raw = line@;
        line.pop();
        if line.len() > 0 && line[line.len() - 1] == 0x0d {
            line.pop();
        }
        proof {
            assert(raw == old(self).buffered().take(k + 1));
            assert(raw.drop_last() =~= old(self).buffered().take(k as int));
            assert(line@ =~= strip_cr(old(self).buffered().take(k as int)));
            assert(self.buffered() =~= old(self).buffered().skip(k + 1));
        }
        Some(line)
    }
}

} // verus!
