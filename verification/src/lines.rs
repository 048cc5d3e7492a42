//! Line reassembly: folding arbitrary byte chunks into complete,
//! newline-terminated lines, carrying an unterminated tail between chunks.

use vstd::prelude::*;

verus! {

/// The byte that terminates a line.
pub open spec fn nl() -> u8 {
    10
}

/// One step of line scanning: fold the byte `b` into the state
/// `(complete lines so far, current unterminated tail)`.
pub open spec fn scan_byte(st: (Seq<Seq<u8>>, Seq<u8>), b: u8) -> (Seq<Seq<u8>>, Seq<u8>) {
    if b == nl() {
        (st.0.push(st.1), Seq::empty())
    } else {
        (st.0, st.1.push(b))
    }
}

/// Scan the bytes of `t`, left to right, starting from the state `st`.
/// The first component collects every line completed while scanning `t`;
/// the second is the unterminated tail left over afterwards.
pub open spec fn scan_from(st: (Seq<Seq<u8>>, Seq<u8>), t: Seq<u8>) -> (Seq<Seq<u8>>, Seq<u8>)
    decreases t.len(),
{
    if t.len() == 0 {
        st
    } else {
        scan_byte(scan_from(st, t.drop_last()), t.last())
    }
}

/// The complete lines of `t`, scanned from an empty state.
pub open spec fn lines_of(t: Seq<u8>) -> Seq<Seq<u8>> {
    scan_from((Seq::empty(), Seq::empty()), t).0
}

/// The unterminated tail of `t`: the bytes after its last newline.
pub open spec fn tail_of(t: Seq<u8>) -> Seq<u8> {
    scan_from((Seq::empty(), Seq::empty()), t).1
}

/// Scanning is compositional: scanning `a + b` is scanning `a`, then
/// scanning `b` from the state that `a` left behind. This is the heart of
/// split-invariance: chunk boundaries cannot change which lines come out.
pub proof fn lemma_scan_append(st: (Seq<Seq<u8>>, Seq<u8>), a: Seq<u8>, b: Seq<u8>)
    ensures
        scan_from(st, a + b) == scan_from(scan_from(st, a), b),
    decreases b.len(),
{
    if b.len() == 0 {
        assert(a + b =~= a);
    } else {
        lemma_scan_append(st, a, b.drop_last());
        assert((a + b).drop_last() =~= a + b.drop_last());
        assert((a + b).last() == b.last());
    }
}

/// Scanning only ever appends to the lines already collected.
pub proof fn lemma_scan_grows(st: (Seq<Seq<u8>>, Seq<u8>), t: Seq<u8>)
    ensures
        scan_from(st, t).0 == st.0 + scan_from((Seq::empty(), st.1), t).0,
        scan_from(st, t).1 == scan_from((Seq::empty(), st.1), t).1,
    decreases t.len(),
{
    if t.len() == 0 {
        assert(st.0 + Seq::<Seq<u8>>::empty() =~= st.0);
    } else {
        lemma_scan_grows(st, t.drop_last());
        let prev = scan_from(st, t.drop_last());
        let prev0 = scan_from((Seq::empty(), st.1), t.drop_last());
        if t.last() == nl() {
            assert(st.0 + prev0.0.push(prev0.1) =~= (st.0 + prev0.0).push(prev0.1));
        }
    }
}

/// All the chunks, in order, as one byte sequence.
pub open spec fn concat_of(chunks: Seq<Seq<u8>>) -> Seq<u8>
    decreases chunks.len(),
{
    if chunks.len() == 0 {
        Seq::empty()
    } else {
        chunks[0] + concat_of(chunks.drop_first())
    }
}

/// Scan a sequence of chunks, one at a time, starting from the state `st`.
pub open spec fn scan_all(st: (Seq<Seq<u8>>, Seq<u8>), chunks: Seq<Seq<u8>>) -> (
    Seq<Seq<u8>>,
    Seq<u8>,
)
    decreases chunks.len(),
{
    if chunks.len() == 0 {
        st
    } else {
        scan_all(scan_from(st, chunks[0]), chunks.drop_first())
    }
}

proof fn lemma_scan_all_concat(st: (Seq<Seq<u8>>, Seq<u8>), chunks: Seq<Seq<u8>>)
    ensures
        scan_all(st, chunks) == scan_from(st, concat_of(chunks)),
    decreases chunks.len(),
{
    if chunks.len() == 0 {
    } else {
        lemma_scan_all_concat(scan_from(st, chunks[0]), chunks.drop_first());
        lemma_scan_append(st, chunks[0], concat_of(chunks.drop_first()));
    }
}

/// Line reassembly is split-invariant: however a byte sequence is cut into
/// chunks, feeding them one at a time yields exactly the complete lines of
/// the whole sequence, and leaves exactly its unterminated tail behind.
pub proof fn lemma_reassembly_split_invariance(chunks: Seq<Seq<u8>>)
    ensures
        scan_all((Seq::empty(), Seq::empty()), chunks).0 == lines_of(concat_of(chunks)),
        scan_all((Seq::empty(), Seq::empty()), chunks).1 == tail_of(concat_of(chunks)),
{
    lemma_scan_all_concat((Seq::empty(), Seq::empty()), chunks);
}

/// The vector `out` holds exactly the lines `ls`, in order.
pub open spec fn lines_match(out: Seq<Vec<u8>>, ls: Seq<Seq<u8>>) -> bool {
    out.len() == ls.len() && forall|i: int| 0 <= i < out.len() ==> out[i]@ == ls[i]
}

/// Accumulates chunk bytes and yields complete lines, holding back an
/// unterminated trailing fragment until a later chunk (or the end of the
/// stream) completes it.
pub struct LineReassembler {
    buf: Vec<u8>,
}

impl LineReassembler {
    /// The carried-over tail: everything received since the last newline.
    pub closed spec fn view(&self) -> Seq<u8> {
        self.buf@
    }

    pub fn new() -> (r: Self)
        ensures
            r@ == Seq::<u8>::empty(),
    {
        LineReassembler { buf: Vec::new() }
    }

    /// Fold one chunk in, returning every line it completes, in order.
    /// The new carry-over is whatever followed the chunk's last newline.
    pub fn feed(&mut self, chunk: &[u8]) -> (out: Vec<Vec<u8>>)
        ensures
            lines_match(out@, scan_from((Seq::empty(), old(self)@), chunk@).0),
            final(self)@ == scan_from((Seq::empty(), old(self)@), chunk@).1,
    {
        let mut out: Vec<Vec<u8>> = Vec::new();
        let ghost start = self.buf@;
        let mut i: usize = 0;
        while i < chunk.len()
            invariant
                i <= chunk.len(),
                lines_match(out@, scan_from((Seq::empty(), start), chunk@.take(i as int)).0),
                self.buf@ == scan_from((Seq::empty(), start), chunk@.take(i as int)).1,
            decreases chunk.len() - i,
        {
            let b = chunk[i];
            let ghost prev = scan_from((Seq::empty(), start), chunk@.take(i as int));
            proof {
                assert(chunk@.take(i + 1).drop_last() =~= chunk@.take(i as int));
                assert(chunk@.take(i + 1).last() == chunk@[i as int]);
                assert(scan_from((Seq::empty(), start), chunk@.take(i + 1)) == scan_byte(
                    prev,
                    chunk@[i as int],
                ));
            }
            if b == 10 {
                let mut line: Vec<u8> = Vec::new();
                core::mem::swap(&mut line, &mut self.buf);
                out.push(line);
            } else {
                self.buf.push(b);
            }
            i += 1;
        }
        proof {
            assert(chunk@.take(chunk@.len() as int) =~= chunk@);
        }
        out
    }

    /// Give up the carried-over tail: at end of input a non-empty tail is
    /// treated as one final complete line even without a terminator.
    pub fn take_tail(&mut self) -> (r: Option<Vec<u8>>)
        ensures
            final(self)@ == Seq::<u8>::empty(),
            match r {
                Some(l) => l@ == old(self)@ && old(self)@.len() > 0,
                None => old(self)@.len() == 0,
            },
    {
        if self.buf.len() == 0 {
            None
        } else {
            let mut line: Vec<u8> = Vec::new();
            core::mem::swap(&mut line, &mut self.buf);
            Some(line)
        }
    }
}

} // verus!
