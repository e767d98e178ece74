//! The bookkeeping of the cache of keys and values.
use vstd::prelude::*;

verus! {

/// What is known of the cache: which layers keep keys and values, how many
/// positions are filled, and how many there are.
#[derive(Debug)]
pub struct CudaKv {
    pub is_full: Vec<bool>,
    pub len: usize,
    pub max_seq: usize,
}

/// How often `true` occurs.
pub open spec fn count_true(s: Seq<bool>) -> nat
    decreases s.len(),
{
    if s.len() == 0 {
        0
    } else {
        count_true(s.drop_last()) + (if s.last() {
            1nat
        } else {
            0
        })
    }
}

impl CudaKv {
    /// No more positions are filled than there are.
    pub open spec fn wf(self) -> bool {
        self.len <= self.max_seq
    }

    /// Forgets every position.
    pub fn clear(&mut self)
        ensures
            final(self).len == 0,
            final(self).max_seq == old(self).max_seq,
            final(self).is_full == old(self).is_full,
            final(self).wf(),
    {
        self.len = 0;
    }

    /// Counts `n` more positions as filled.
    pub fn advance(&mut self, n: usize)
        requires
            old(self).len + n <= old(self).max_seq,
        ensures
            final(self).len == old(self).len + n,
            final(self).max_seq == old(self).max_seq,
            final(self).is_full == old(self).is_full,
            final(self).wf(),
    {
        self.len = self.len + n;
    }

    /// Counts only the first `len` positions as filled.
    pub fn rewind(&mut self, len: usize)
        requires
            len <= old(self).len,
            old(self).wf(),
        ensures
            final(self).len == len,
            final(self).max_seq == old(self).max_seq,
            final(self).is_full == old(self).is_full,
            final(self).wf(),
    {
        self.len = len;
    }

    /// Whether `n` more positions are there.
    pub fn has_room(&self, n: usize) -> (r: bool)
        requires
            self.wf(),
        ensures
            r == (self.len + n <= self.max_seq),
    {
        n <= self.max_seq - self.len
    }

    /// Bytes of a token over all layers that keep keys and values: both, two
    /// bytes a number, `stride` numbers a layer.
    pub fn bytes_per_token(&self, _n_layer: usize, stride: usize) -> (r: usize)
        requires
            count_true(self.is_full@) * stride * 4 <= usize::MAX,
        ensures
            r == count_true(self.is_full@) * stride * 4,
    {
        let mut full: usize = 0;
        let mut i: usize = 0;
        proof {
            assert(self.is_full@.take(0) =~= Seq::<bool>::empty());
        }
        while i < self.is_full.len()
            invariant
                i <= self.is_full@.len(),
                full == count_true(self.is_full@.take(i as int)),
                full <= i,
            decreases self.is_full@.len() - i,
        {
            proof {
                assert(self.is_full@.take(i as int + 1).drop_last() =~= self.is_full@.take(
                    i as int,
                ));
            }
            if self.is_full[i] {
                full = full + 1;
            }
            i = i + 1;
        }
        proof {
            assert(self.is_full@.take(self.is_full@.len() as int) =~= self.is_full@);
            assert(0 <= full * stride <= full * stride * 4) by (nonlinear_arith)
                requires
                    full >= 0,
                    stride >= 0,
            ;
        }
        full * stride * 2 * 2
    }
}

} // verus!
