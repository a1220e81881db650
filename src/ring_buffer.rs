//! Fixed-capacity sample history and the oscilloscope edge search over it.
use vstd::arithmetic::div_mod::lemma_fundamental_div_mod_converse;
use vstd::prelude::*;

verus! {

/// A fixed-capacity circular buffer of samples whose write cursor wraps
/// around the capacity.
pub struct RingBuffer {
    pub buffer: Vec<i16>,
    pub index: usize,
}

impl RingBuffer {
    /// The capacity is positive and the cursor points into the buffer.
    pub open spec fn wf(&self) -> bool {
        &&& self.buffer@.len() > 0
        &&& self.index < self.buffer@.len()
    }

    pub fn new(size: usize) -> (r: Self)
        requires
            size > 0,
        ensures
            r.wf(),
            r.buffer@ == Seq::new(size as nat, |i: int| 0i16),
            r.index == 0,
    {
        let mut buffer: Vec<i16> = Vec::new();
        let mut i: usize = 0;
        while i < size
            invariant
                i <= size,
                buffer@ == Seq::new(i as nat, |j: int| 0i16),
            decreases size - i,
        {
            buffer.push(0);
            i = i + 1;
            assert(buffer@ =~= Seq::new(i as nat, |j: int| 0i16));
        }
        RingBuffer { buffer, index: 0 }
    }

    /// Writes a sample at the cursor and advances the cursor, wrapping around.
    pub fn push(&mut self, sample: i16)
        requires
            old(self).wf(),
        ensures
            final(self).wf(),
            final(self).buffer@ == old(self).buffer@.update(old(self).index as int, sample),
            final(self).index == (old(self).index + 1) % (old(self).buffer@.len() as int),
    {
        let i = self.index;
        self.buffer.set(i, sample);
        let len = self.buffer.len();
        self.index = if i < len - 1 { i + 1 } else { 0 };
        proof {
            if i < len - 1 {
                vstd::arithmetic::div_mod::lemma_small_mod((i + 1) as nat, len as nat);
            } else {
                vstd::arithmetic::div_mod::lemma_mod_self_0(len as int);
            }
        }
    }

    /// The stored samples, oldest write position first.
    pub fn buffer(&self) -> (r: &Vec<i16>)
        ensures
            r@ == self.buffer@,
    {
        &self.buffer
    }

    /// The position of the next write.
    pub fn index(&self) -> (r: usize)
        ensures
            r == self.index,
    {
        self.index
    }
}

/// The position `back` places before `pos` on a circle of `len` slots.
pub open spec fn ring_back(pos: int, back: int, len: int) -> int {
    (pos - back) % len
}

/// The outcome of scanning backwards from `start`, from step `k` up to (not
/// including) step `limit`, for a non-zero edge marker: the position centred
/// half a window before the first marker found, or `start` if none is found.
pub open spec fn edge_scan(buf: Seq<i16>, start: int, window: int, k: int, limit: int) -> int
    decreases limit - k,
{
    if k >= limit {
        start
    } else if buf[ring_back(start, k, buf.len() as int)] != 0 {
        ring_back(start, k + window / 2, buf.len() as int)
    } else {
        edge_scan(buf, start, window, k + 1, limit)
    }
}

/// Steps `back` places backwards from `pos` on a circle of `len` slots.
fn step_back(pos: usize, back: usize, len: usize) -> (r: usize)
    requires
        pos < len,
    ensures
        r == ring_back(pos as int, back as int, len as int),
        r < len,
{
    let b: usize = back % len;
    let r: usize = if pos >= b { pos - b } else { pos + (len - b) };
    proof {
        let q: int = (back as int) / (len as int);
        vstd::arithmetic::div_mod::lemma_fundamental_div_mod(back as int, len as int);
        if pos >= b {
            assert(pos as int - back as int == (-q) * len as int + r as int) by (nonlinear_arith)
                requires
                    back as int == len as int * q + b as int,
                    r == pos - b,
            ;
            lemma_fundamental_div_mod_converse(pos as int - back as int, len as int, -q, r as int);
        } else {
            assert(pos as int - back as int == (-q - 1) * len as int + r as int) by (nonlinear_arith)
                requires
                    back as int == len as int * q + b as int,
                    r == pos + len - b,
            ;
            lemma_fundamental_div_mod_converse(pos as int - back as int, len as int, -q - 1, r as int);
        }
    }
    r
}

/// Finds where an oscilloscope window of `window_size` samples should start so
/// that it is centred on the most recent edge marker: the scan starts
/// `window_size` samples behind the cursor and goes back at most
/// `4 * window_size` samples; without a marker, the scan's start is returned.
pub fn find_edge(edge_buffer: &RingBuffer, window_size: usize) -> (r: usize)
    requires
        edge_buffer.wf(),
        window_size <= usize::MAX / 4,
    ensures
        r < edge_buffer.buffer@.len(),
        r == edge_scan(
            edge_buffer.buffer@,
            ring_back(edge_buffer.index as int, window_size as int, edge_buffer.buffer@.len() as int),
            window_size as int,
            0,
            4 * window_size,
        ),
{
    let len: usize = edge_buffer.buffer.len();
    let start_index: usize = step_back(edge_buffer.index, window_size, len);
    let limit: usize = window_size * 4;
    let mut current_index: usize = start_index;
    let mut i: usize = 0;
    proof {
        vstd::arithmetic::div_mod::lemma_small_mod(start_index as nat, len as nat);
    }
    while i < limit
        invariant
            len == edge_buffer.buffer@.len(),
            len > 0,
            i <= limit,
            limit == 4 * window_size,
            start_index < len,
            start_index == ring_back(edge_buffer.index as int, window_size as int, len as int),
            current_index == ring_back(start_index as int, i as int, len as int),
            current_index < len,
            edge_scan(edge_buffer.buffer@, start_index as int, window_size as int, 0, limit as int)
                == edge_scan(edge_buffer.buffer@, start_index as int, window_size as int, i as int, limit as int),
        decreases limit - i,
    {
        if edge_buffer.buffer[current_index] != 0 {
            let r = step_back(current_index, window_size / 2, len);
            proof {
                lemma_back_twice(start_index as int, i as int, (window_size / 2) as int, len as int);
                assert(edge_buffer.buffer@[current_index as int] != 0);
                assert(edge_scan(edge_buffer.buffer@, start_index as int, window_size as int, i as int, limit as int)
                    == ring_back(start_index as int, i + window_size as int / 2, len as int));
            }
            return r;
        }
        let next = step_back(current_index, 1, len);
        proof {
            lemma_back_twice(start_index as int, i as int, 1, len as int);
        }
        current_index = next;
        i = i + 1;
    }
    start_index
}

/// Stepping back twice is stepping back by the sum.
proof fn lemma_back_twice(pos: int, a: int, b: int, len: int)
    requires
        len > 0,
    ensures
        ring_back(ring_back(pos, a, len), b, len) == ring_back(pos, a + b, len),
{
    vstd::arithmetic::div_mod::lemma_fundamental_div_mod(pos - a, len);
    let q = (pos - a) / len;
    let r1 = (pos - a) % len;
    vstd::arithmetic::div_mod::lemma_fundamental_div_mod(r1 - b, len);
    let q2 = (r1 - b) / len;
    let r2 = (r1 - b) % len;
    assert(pos - (a + b) == (q + q2) * len + r2) by (nonlinear_arith)
        requires
            pos - a == len * q + r1,
            r1 - b == len * q2 + r2,
    ;
    lemma_fundamental_div_mod_converse(pos - (a + b), len, q + q2, r2);
}

} // verus!
