//! The data stack shared by all droplets.
use vstd::prelude::*;
use crate::types::bigint::TubularBigInt;
use crate::text::{dec_int, push_str};

verus! {

/// The values of a sequence of integers.
pub open spec fn values_of(s: Seq<TubularBigInt>) -> Seq<int> {
    s.map_values(|v: TubularBigInt| v@)
}

/// A stack of arbitrary precision integers; the last element is the top.
#[derive(Debug)]
pub struct DataStack {
    /// Stack values, bottom first.
    pub data: Vec<TubularBigInt>,
    /// Largest depth the stack has had (for monitoring).
    pub max_depth: usize,
}

impl View for DataStack {
    type V = Seq<int>;

    open spec fn view(&self) -> Seq<int> {
        values_of(self.data@)
    }
}

/// Copies of the values of a slice, in order.
fn clone_values(s: &[TubularBigInt]) -> (r: Vec<TubularBigInt>)
    ensures
        values_of(r@) == values_of(s@),
{
    let mut out: Vec<TubularBigInt> = Vec::new();
    let mut i: usize = 0;
    while i < s.len()
        invariant
            i <= s@.len(),
            values_of(out@) =~= values_of(s@.take(i as int)),
        decreases s@.len() - i,
    {
        let ghost before = out@;
        out.push(s[i].clone());
        proof {
            assert(s@.take(i + 1) =~= s@.take(i as int).push(s@[i as int]));
            assert(values_of(out@) =~= values_of(before).push(s@[i as int]@));
            assert(values_of(s@.take(i + 1)) =~= values_of(s@.take(i as int)).push(s@[i as int]@));
        }
        i = i + 1;
    }
    assert(s@.take(s@.len() as int) =~= s@);
    out
}

impl Clone for DataStack {
    fn clone(&self) -> (r: Self)
        ensures
            r@ == self@,
            r.max_depth == self.max_depth,
    {
        DataStack { data: clone_values(self.data.as_slice()), max_depth: self.max_depth }
    }
}

impl DataStack {
    pub fn new() -> (r: Self)
        ensures
            r@ == Seq::<int>::empty(),
            r.max_depth == 0,
    {
        DataStack { data: Vec::new(), max_depth: 0 }
    }

    pub fn with_capacity(capacity: usize) -> (r: Self)
        ensures
            r@ == Seq::<int>::empty(),
            r.max_depth == 0,
    {
        DataStack { data: Vec::with_capacity(capacity), max_depth: 0 }
    }

    /// Pushes `value` on top; the recorded maximum depth grows to the new depth if needed.
    pub fn push(&mut self, value: TubularBigInt)
        ensures
            final(self)@ == old(self)@.push(value@),
            final(self).max_depth == (if old(self).max_depth >= old(self)@.len() + 1 {
                old(self).max_depth as int
            } else {
                old(self)@.len() + 1int
            }),
    {
        let ghost v = value@;
        self.data.push(value);
        let len = self.data.len();
        if len > self.max_depth {
            self.max_depth = len;
        }
        assert(self@ =~= old(self)@.push(v));
    }

    /// Removes and returns the top value; an empty stack gives zero and stays empty.
    pub fn pop(&mut self) -> (r: TubularBigInt)
        ensures
            old(self)@.len() == 0 ==> r@ == 0 && final(self)@ == old(self)@,
            old(self)@.len() > 0 ==> r@ == old(self)@.last() && final(self)@ == old(self)@.drop_last(),
            final(self).max_depth == old(self).max_depth,
    {
        match self.data.pop() {
            Some(v) => {
                assert(self@ =~= old(self)@.drop_last());
                v
            },
            None => TubularBigInt::zero(),
        }
    }

    /// The same as `pop`.
    pub fn pop_or_zero(&mut self) -> (r: TubularBigInt)
        ensures
            old(self)@.len() == 0 ==> r@ == 0 && final(self)@ == old(self)@,
            old(self)@.len() > 0 ==> r@ == old(self)@.last() && final(self)@ == old(self)@.drop_last(),
            final(self).max_depth == old(self).max_depth,
    {
        self.pop()
    }

    /// A copy of the top value, or zero for an empty stack.
    pub fn peek(&self) -> (r: TubularBigInt)
        ensures
            r@ == (if self@.len() == 0 { 0 } else { self@.last() }),
    {
        if self.data.len() == 0 {
            TubularBigInt::zero()
        } else {
            self.data[self.data.len() - 1].clone()
        }
    }

    /// A copy of the value `depth` places below the top, or zero past the bottom.
    pub fn peek_depth(&self, depth: usize) -> (r: TubularBigInt)
        ensures
            r@ == (if depth >= self@.len() { 0 } else { self@[self@.len() - 1 - depth] }),
    {
        if depth >= self.data.len() {
            TubularBigInt::zero()
        } else {
            self.data[self.data.len() - 1 - depth].clone()
        }
    }

    pub fn is_empty(&self) -> (r: bool)
        ensures
            r == (self@.len() == 0),
    {
        self.data.len() == 0
    }

    pub fn len(&self) -> (r: usize)
        ensures
            r == self@.len(),
    {
        self.data.len()
    }

    /// Number of values on the stack.
    pub fn depth(&self) -> (r: usize)
        ensures
            r == self@.len(),
    {
        self.data.len()
    }

    pub fn clear(&mut self)
        ensures
            final(self)@ == Seq::<int>::empty(),
            final(self).max_depth == old(self).max_depth,
    {
        self.data.clear();
        assert(self@ =~= Seq::<int>::empty());
    }

    /// Keeps only the bottom `new_len` values.
    pub fn truncate(&mut self, new_len: usize)
        ensures
            final(self)@ == (if new_len < old(self)@.len() { old(self)@.take(new_len as int) } else { old(self)@ }),
            final(self).max_depth == old(self).max_depth,
    {
        if new_len < self.data.len() {
            self.data.truncate(new_len);
            assert(self@ =~= old(self)@.take(new_len as int));
        }
    }

    /// Exchanges the two top values; false (and no change) with fewer than two.
    pub fn swap_top_two(&mut self) -> (r: bool)
        ensures
            r == (old(self)@.len() >= 2),
            r ==> final(self)@ == old(self)@.update(old(self)@.len() - 1, old(self)@[old(self)@.len() - 2]).update(
                old(self)@.len() - 2,
                old(self)@[old(self)@.len() - 1],
            ),
            !r ==> final(self)@ == old(self)@,
            final(self).max_depth == old(self).max_depth,
    {
        if self.data.len() < 2 {
            false
        } else {
            let len = self.data.len();
            let top = self.data.pop().unwrap();
            let below = self.data.pop().unwrap();
            self.data.push(top);
            self.data.push(below);
            assert(self@ =~= old(self)@.update(old(self)@.len() - 1, old(self)@[old(self)@.len() - 2]).update(
                old(self)@.len() - 2,
                old(self)@[old(self)@.len() - 1],
            ));
            true
        }
    }

    /// Pushes a copy of the top value; false (and no change) on an empty stack.
    pub fn duplicate(&mut self) -> (r: bool)
        ensures
            r == (old(self)@.len() > 0),
            r ==> final(self)@ == old(self)@.push(old(self)@.last()),
            r ==> final(self).max_depth == (if old(self).max_depth >= old(self)@.len() + 1 {
                old(self).max_depth as int
            } else {
                old(self)@.len() + 1int
            }),
            !r ==> final(self)@ == old(self)@ && final(self).max_depth == old(self).max_depth,
    {
        if self.data.len() == 0 {
            false
        } else {
            let top = self.data[self.data.len() - 1].clone();
            self.push(top);
            true
        }
    }

    /// Pops `n` values: the top first; zeros once the stack is empty.
    pub fn pop_n(&mut self, n: usize) -> (r: Vec<TubularBigInt>)
        ensures
            r@.len() == n,
            forall|i: int|
                0 <= i < n ==> (#[trigger] r@[i])@ == (if i < old(self)@.len() {
                    old(self)@[old(self)@.len() - 1 - i]
                } else {
                    0
                }),
            final(self)@ == (if n <= old(self)@.len() {
                old(self)@.take(old(self)@.len() - n)
            } else {
                Seq::<int>::empty()
            }),
            final(self).max_depth == old(self).max_depth,
    {
        let mut result: Vec<TubularBigInt> = Vec::new();
        let mut k: usize = 0;
        while k < n
            invariant
                k <= n,
                result@.len() == k,
                forall|i: int|
                    0 <= i < k ==> (#[trigger] result@[i])@ == (if i < old(self)@.len() {
                        old(self)@[old(self)@.len() - 1 - i]
                    } else {
                        0
                    }),
                self@ == (if k <= old(self)@.len() {
                    old(self)@.take(old(self)@.len() - k)
                } else {
                    Seq::<int>::empty()
                }),
                self.max_depth == old(self).max_depth,
            decreases n - k,
        {
            let v = self.pop();
            proof {
                if k < old(self)@.len() {
                    assert(old(self)@.take(old(self)@.len() - k).drop_last() =~= old(self)@.take(old(self)@.len() - (k + 1)));
                } else if k == old(self)@.len() {
                    assert(old(self)@.take(0) =~= Seq::<int>::empty());
                }
            }
            result.push(v);
            k = k + 1;
        }
        result
    }

    /// Pushes the values in order, so the last one ends on top.
    pub fn push_n(&mut self, values: Vec<TubularBigInt>)
        ensures
            final(self)@ == old(self)@ + values_of(values@),
            final(self).max_depth >= old(self).max_depth,
            final(self).max_depth >= final(self)@.len() || values@.len() == 0,
    {
        let mut values = values;
        let ghost orig = values@;
        let ghost all = values_of(values@);
        let n = values.len();
        let mut k: usize = 0;
        while values.len() > 0
            invariant
                values@ == orig.skip(k as int),
                k <= n,
                n == orig.len(),
                all == values_of(orig),
                self@ == old(self)@ + all.take(k as int),
                self.max_depth >= old(self).max_depth,
                k > 0 ==> self.max_depth >= self@.len(),
            decreases values@.len(),
        {
            let v = values.remove(0);
            self.push(v);
            proof {
                assert(all.take(k + 1) =~= all.take(k as int).push(all[k as int]));
                assert(orig.skip(k as int).drop_first() =~= orig.skip(k + 1));
            }
            k = k + 1;
        }
        assert(all.take(n as int) =~= all);
    }

    /// The value at `index` counted from the bottom.
    pub fn get(&self, index: usize) -> (r: Option<&TubularBigInt>)
        ensures
            match r {
                Some(v) => index < self@.len() && v@ == self@[index as int],
                None => index >= self@.len(),
            },
    {
        if index < self.data.len() {
            Some(&self.data[index])
        } else {
            None
        }
    }

    /// The value `index_from_top` places below the top.
    pub fn get_from_top(&self, index_from_top: usize) -> (r: Option<&TubularBigInt>)
        ensures
            match r {
                Some(v) => index_from_top < self@.len() && v@ == self@[self@.len() - 1 - index_from_top],
                None => index_from_top >= self@.len(),
            },
    {
        if index_from_top >= self.data.len() {
            None
        } else {
            Some(&self.data[self.data.len() - 1 - index_from_top])
        }
    }

    /// The values, bottom first.
    pub fn as_slice(&self) -> (r: &[TubularBigInt])
        ensures
            values_of(r@) == self@,
    {
        self.data.as_slice()
    }

    pub fn is_within_limit(&self, limit: usize) -> (r: bool)
        ensures
            r == (self@.len() <= limit),
    {
        self.data.len() <= limit
    }

    pub fn max_depth_reached(&self) -> (r: usize)
        ensures
            r == self.max_depth,
    {
        self.max_depth
    }

    /// A stack holding `values` (the last on top), whose maximum depth is its depth.
    pub fn from_values(values: Vec<TubularBigInt>) -> (r: Self)
        ensures
            r@ == values_of(values@),
            r.max_depth == values@.len(),
    {
        let max_depth = values.len();
        DataStack { data: values, max_depth }
    }

    /// A stack holding the given integers (the last on top).
    pub fn from_i64_values(values: Vec<i64>) -> (r: Self)
        ensures
            r@ == values@.map_values(|v: i64| v as int),
            r.max_depth == values@.len(),
    {
        let mut data: Vec<TubularBigInt> = Vec::new();
        let mut i: usize = 0;
        while i < values.len()
            invariant
                i <= values@.len(),
                values_of(data@) =~= values@.take(i as int).map_values(|v: i64| v as int),
            decreases values@.len() - i,
        {
            let ghost before = data@;
            data.push(TubularBigInt::new(values[i]));
            proof {
                assert(values@.take(i + 1) =~= values@.take(i as int).push(values@[i as int]));
                assert(values_of(data@) =~= values_of(before).push(values@[i as int] as int));
                assert(values@.take(i + 1).map_values(|v: i64| v as int) =~= values@.take(i as int).map_values(|v: i64| v as int).push(values@[i as int] as int));
            }
            i = i + 1;
        }
        assert(values@.take(values@.len() as int) =~= values@);
        DataStack::from_values(data)
    }
}

/// The values of a list written out in decimal and separated by `, `.
pub open spec fn int_list_text(s: Seq<int>) -> Seq<char>
    decreases s.len(),
{
    if s.len() == 0 {
        Seq::empty()
    } else if s.len() == 1 {
        dec_int(s[0])
    } else {
        int_list_text(s.drop_last()) + ", "@ + dec_int(s.last())
    }
}

impl DataStack {
    /// The stack as text, bottom first: `[1, 2, 3]`.
    pub fn to_text(&self) -> (r: String)
        ensures
            r@ == "["@ + int_list_text(self@) + "]"@,
    {
        let mut out = String::new();
        push_str(&mut out, "[");
        let mut i: usize = 0;
        while i < self.data.len()
            invariant
                i <= self.data@.len(),
                out@ == "["@ + int_list_text(self@.take(i as int)),
            decreases self.data@.len() - i,
        {
            let ghost before = out@;
            if i > 0 {
                push_str(&mut out, ", ");
            }
            let d = self.data[i].to_decimal_string();
            push_str(&mut out, d.as_str());
            proof {
                let s = self@.take(i + 1);
                assert(s.drop_last() =~= self@.take(i as int));
                assert(s.last() == self.data@[i as int]@);
                if i == 0 {
                    assert(s.len() == 1);
                    assert(out@ =~= "["@ + int_list_text(s));
                } else {
                    assert(out@ =~= "["@ + int_list_text(s));
                }
            }
            i = i + 1;
        }
        assert(self@.take(self.data@.len() as int) =~= self@);
        push_str(&mut out, "]");
        out
    }
}

impl Default for DataStack {
    fn default() -> (r: Self)
        ensures
            r@ == Seq::<int>::empty(),
            r.max_depth == 0,
    {
        Self::new()
    }
}


/// Popping right after pushing a value gives the value back and leaves the
/// stack as it was.
pub proof fn law_pop_undoes_push(s: Seq<int>, v: int)
    ensures
        s.push(v).len() > 0,
        s.push(v).last() == v,
        s.push(v).drop_last() == s,
{
    assert(s.push(v).drop_last() =~= s);
}

} // verus!
