//! Line demultiplexer: reconstructs newline-terminated lines from arbitrarily
//! chunked byte input. Unterminated trailing bytes stay buffered until the next
//! chunk arrives; a trailing carriage return before the delimiter is stripped.

use vstd::prelude::*;
use crate::NL;
use crate::CR;

verus! {

/// A line with one trailing carriage return stripped, as the protocol allows
/// `\r\n` as well as `\n` termination.
pub open spec fn strip_cr(l: Seq<u8>) -> Seq<u8> {
    if l.len() > 0 && l.last() == CR {
        l.drop_last()
    } else {
        l
    }
}

/// Index of the first line feed in `s`, or `s.len()` if there is none.
pub open spec fn first_nl(s: Seq<u8>) -> nat
    decreases s.len(),
{
    if s.len() == 0 {
        0
    } else if s[0] == NL {
        0
    } else {
        1 + first_nl(s.skip(1))
    }
}

pub proof fn lemma_first_nl(s: Seq<u8>)
    ensures
        first_nl(s) <= s.len(),
        first_nl(s) < s.len() <==> s.contains(NL),
        first_nl(s) < s.len() ==> s[first_nl(s) as int] == NL,
        forall|j: int| 0 <= j < first_nl(s) ==> s[j] != NL,
    decreases s.len(),
{
    if s.len() == 0 {
        assert(!s.contains(NL));
    } else if s[0] == NL {
        assert(s.contains(NL));
    } else {
        lemma_first_nl(s.skip(1));
        let t = s.skip(1);
        assert(forall|j: int| 1 <= j < s.len() ==> s[j] == t[j - 1]);
        if t.contains(NL) {
            let k = choose|k: int| 0 <= k < t.len() && t[k] == NL;
            assert(s[k + 1] == NL);
            assert(s.contains(NL));
        }
        if s.contains(NL) {
            let k = choose|k: int| 0 <= k < s.len() && s[k] == NL;
            assert(k >= 1);
            assert(t[k - 1] == NL);
            assert(t.contains(NL));
        }
    }
}

/// The complete (newline-terminated) lines contained in `s`, in order, each
/// with its delimiter and optional carriage return removed.
pub open spec fn complete_lines(s: Seq<u8>) -> Seq<Seq<u8>>
    decreases s.len()
    via complete_lines_decreases
{
    if s.contains(NL) {
        seq![strip_cr(s.take(first_nl(s) as int))] + complete_lines(s.skip(first_nl(s) as int + 1))
    } else {
        Seq::empty()
    }
}

#[via_fn]
proof fn complete_lines_decreases(s: Seq<u8>) {
    lemma_first_nl(s);
}

/// The bytes after the last line feed in `s`: the part that is still awaiting
/// its delimiter.
pub open spec fn residual(s: Seq<u8>) -> Seq<u8>
    decreases s.len()
    via residual_decreases
{
    if s.contains(NL) {
        residual(s.skip(first_nl(s) as int + 1))
    } else {
        s
    }
}

#[via_fn]
proof fn residual_decreases(s: Seq<u8>) {
    lemma_first_nl(s);
}

/// If `p` is the position of a line feed with none before it, it is the first.
pub proof fn lemma_first_nl_is(s: Seq<u8>, p: int)
    requires
        0 <= p < s.len(),
        s[p] == NL,
        forall|j: int| 0 <= j < p ==> s[j] != NL,
    ensures
        s.contains(NL),
        first_nl(s) == p,
    decreases p,
{
    assert(s.contains(NL));
    if p == 0 {
    } else {
        let t = s.skip(1);
        assert(forall|j: int| 0 <= j < t.len() ==> t[j] == s[j + 1]);
        lemma_first_nl_is(t, p - 1);
    }
}

/// Position of the first line feed in `v`, if any.
fn find_nl(v: &Vec<u8>) -> (r: Option<usize>)
    ensures
        match r {
            Some(p) => p < v@.len() && v@.contains(NL) && first_nl(v@) == p,
            None => !v@.contains(NL),
        },
{
    let mut j: usize = 0;
    while j < v.len()
        invariant
            j <= v@.len(),
            forall|t: int| 0 <= t < j ==> v@[t] != NL,
        decreases v@.len() - j,
    {
        if v[j] == NL {
            proof {
                lemma_first_nl_is(v@, j as int);
            }
            return Some(j);
        }
        j += 1;
    }
    proof {
        if v@.contains(NL) {
            let k = choose|k: int| 0 <= k < v@.len() && v@[k] == NL;
            assert(v@[k] != NL);
        }
    }
    None
}

/// Splitting a byte stream into two chunks changes nothing: the lines of the
/// whole are the lines of the first part followed by the lines completed once
/// the second part arrives, and the leftover bytes agree as well.
pub proof fn lemma_chunk_boundary_invariance(a: Seq<u8>, b: Seq<u8>)
    ensures
        complete_lines(a + b) == complete_lines(a) + complete_lines(residual(a) + b),
        residual(a + b) == residual(residual(a) + b),
    decreases a.len(),
{
    if a.contains(NL) {
        lemma_first_nl(a);
        let i = first_nl(a) as int;
        assert(forall|j: int| 0 <= j < i ==> (a + b)[j] == a[j]);
        lemma_first_nl_is(a + b, i);
        assert((a + b).take(i) =~= a.take(i));
        assert((a + b).skip(i + 1) =~= a.skip(i + 1) + b);
        lemma_chunk_boundary_invariance(a.skip(i + 1), b);
        assert(complete_lines(a + b) =~= complete_lines(a) + complete_lines(residual(a) + b));
    } else {
        assert(residual(a) + b =~= a + b);
        assert(complete_lines(a) + complete_lines(residual(a) + b) =~= complete_lines(a + b));
    }
}

/// All the chunks of a stream, concatenated.
pub open spec fn concat_all(chunks: Seq<Seq<u8>>) -> Seq<u8>
    decreases chunks.len(),
{
    if chunks.len() == 0 {
        Seq::empty()
    } else {
        chunks[0] + concat_all(chunks.skip(1))
    }
}

/// The lines emitted when the chunks arrive one by one at a buffer whose
/// residue is `r`, in order of arrival.
pub open spec fn emitted_from(r: Seq<u8>, chunks: Seq<Seq<u8>>) -> Seq<Seq<u8>>
    decreases chunks.len(),
{
    if chunks.len() == 0 {
        Seq::empty()
    } else {
        complete_lines(r + chunks[0]) + emitted_from(residual(r + chunks[0]), chunks.skip(1))
    }
}

/// The buffered residue left once the chunks have arrived one by one at a
/// buffer whose residue is `r`.
pub open spec fn residual_from(r: Seq<u8>, chunks: Seq<Seq<u8>>) -> Seq<u8>
    decreases chunks.len(),
{
    if chunks.len() == 0 {
        r
    } else {
        residual_from(residual(r + chunks[0]), chunks.skip(1))
    }
}

/// What remains after the last line feed never holds a line feed.
pub proof fn lemma_residual_no_nl(s: Seq<u8>)
    ensures
        !residual(s).contains(NL),
    decreases s.len(),
{
    if s.contains(NL) {
        lemma_first_nl(s);
        lemma_residual_no_nl(s.skip(first_nl(s) as int + 1));
    }
}

/// Chunk-boundary invariance: however a byte stream is cut into chunks, feeding
/// them one by one into a buffer emits exactly the complete lines of the whole
/// stream, and leaves exactly the whole stream's unterminated tail buffered.
pub proof fn lemma_chunking_invariance(r: Seq<u8>, chunks: Seq<Seq<u8>>)
    requires
        !r.contains(NL),
    ensures
        emitted_from(r, chunks) == complete_lines(r + concat_all(chunks)),
        residual_from(r, chunks) == residual(r + concat_all(chunks)),
    decreases chunks.len(),
{
    if chunks.len() == 0 {
        assert(r + concat_all(chunks) =~= r);
        assert(complete_lines(r) =~= Seq::<Seq<u8>>::empty() + complete_lines(r));
        assert(emitted_from(r, chunks) =~= complete_lines(r + concat_all(chunks)));
    } else {
        let c0 = chunks[0];
        let rest = chunks.skip(1);
        lemma_residual_no_nl(r + c0);
        lemma_chunking_invariance(residual(r + c0), rest);
        lemma_chunk_boundary_invariance(r + c0, concat_all(rest));
        assert((r + c0) + concat_all(rest) =~= r + concat_all(chunks));
        assert(emitted_from(r, chunks) =~= complete_lines(r + concat_all(chunks)));
    }
}

/// One stream's reassembly state: the bytes received so far that are not yet
/// part of a complete line.
pub struct LineBuffer {
    buf: Vec<u8>,
}

impl View for LineBuffer {
    type V = Seq<u8>;

    closed spec fn view(&self) -> Seq<u8> {
        self.buf@
    }
}

impl LineBuffer {
    /// The buffered bytes never contain a delimiter: a delimiter always causes
    /// the line holding it to be emitted at once.
    pub open spec fn wf(self) -> bool {
        !self@.contains(NL)
    }

    pub fn new() -> (r: LineBuffer)
        ensures
            r@ == Seq::<u8>::empty(),
            r.wf(),
    {
        LineBuffer { buf: Vec::new() }
    }

    /// Feed one chunk of bytes; every line completed by it is returned, in
    /// order, and the unterminated remainder stays buffered. The result is
    /// exactly the complete lines of the buffered bytes followed by the chunk,
    /// so it does not depend on how the stream was cut into chunks.
    pub fn push_chunk(&mut self, chunk: &Vec<u8>) -> (lines: Vec<Vec<u8>>)
        requires
            old(self).wf(),
        ensures
            final(self).wf(),
            lines@.map_values(|l: Vec<u8>| l@) == complete_lines(old(self)@ + chunk@),
            final(self)@ == residual(old(self)@ + chunk@),
    {
        let ghost full = self.buf@ + chunk@;
        let mut i: usize = 0;
        while i < chunk.len()
            invariant
                i <= chunk@.len(),
                self.buf@ == old(self)@ + chunk@.take(i as int),
            decreases chunk@.len() - i,
        {
            self.buf.push(chunk[i]);
            i += 1;
        }
        proof {
            assert(chunk@.take(chunk@.len() as int) =~= chunk@);
            assert(self.buf@ == full);
        }
        let mut lines: Vec<Vec<u8>> = Vec::new();
        let mut more = true;
        while more
            invariant
                lines@.map_values(|l: Vec<u8>| l@) + complete_lines(self.buf@) == complete_lines(
                    full,
                ),
                residual(self.buf@) == residual(full),
                !more ==> !self.buf@.contains(NL),
            decreases self.buf@.len() + (if more {
                1int
            } else {
                0int
            }),
        {
            match find_nl(&self.buf) {
                None => {
                    more = false;
                },
                Some(p) => {
                    let ghost pre = self.buf@;
                    let n = self.buf.len();
                    assert(p < n);
                    let end: usize = if p > 0 && self.buf[p - 1] == CR {
                        p - 1
                    } else {
                        p
                    };
                    let mut line: Vec<u8> = Vec::new();
                    let mut t: usize = 0;
                    while t < end
                        invariant
                            t <= end,
                            end <= self.buf@.len(),
                            line@ == self.buf@.take(t as int),
                        decreases end - t,
                    {
                        line.push(self.buf[t]);
                        t += 1;
                    }
                    let mut rest: Vec<u8> = Vec::new();
                    let mut u: usize = p + 1;
                    while u < self.buf.len()
                        invariant
                            p + 1 <= u <= self.buf@.len(),
                            rest@ == self.buf@.subrange(p + 1, u as int),
                        decreases self.buf@.len() - u,
                    {
                        rest.push(self.buf[u]);
                        u += 1;
                    }
                    proof {
                        assert(rest@ =~= pre.skip(p as int + 1));
                        if end < p {
                            assert(pre.take(p as int).last() == CR);
                            assert(line@ =~= pre.take(p as int).drop_last());
                        } else {
                            assert(line@ =~= pre.take(p as int));
                        }
                        assert(line@ == strip_cr(pre.take(p as int)));
                    }
                    self.buf = rest;
                    let ghost old_lines = lines@;
                    lines.push(line);
                    proof {
                        assert(lines@.map_values(|l: Vec<u8>| l@) =~= old_lines.map_values(
                            |l: Vec<u8>| l@,
                        ).push(line@));
                        assert(complete_lines(pre) == seq![strip_cr(pre.take(first_nl(pre) as int))]
                            + complete_lines(pre.skip(first_nl(pre) as int + 1)));
                        assert(lines@.map_values(|l: Vec<u8>| l@) + complete_lines(self.buf@)
                            =~= old_lines.map_values(|l: Vec<u8>| l@) + complete_lines(pre));
                    }
                },
            }
        }
        proof {
            assert(lines@.map_values(|l: Vec<u8>| l@) + complete_lines(self.buf@)
                =~= lines@.map_values(|l: Vec<u8>| l@));
        }
        lines
    }
}

} // verus!
