//! The call stack of subroutine return points.
use vstd::prelude::*;
use crate::types::coordinate::Coordinate;
use crate::types::direction::Direction;

verus! {

/// Where and in which direction to continue after a subroutine returns.
#[derive(Debug, Clone, Copy, PartialEq, Eq, Structural)]
pub struct StackFrame {
    /// Position to return to.
    pub return_position: Coordinate,
    /// Direction after return.
    pub return_direction: Direction,
}

impl StackFrame {
    pub fn new(return_position: Coordinate, return_direction: Direction) -> (r: Self)
        ensures
            r.return_position == return_position,
            r.return_direction == return_direction,
    {
        StackFrame { return_position, return_direction }
    }
}

/// A stack of return frames; the last frame is the top.
#[derive(Debug, Clone)]
pub struct CallStack {
    /// Frames, bottom first.
    pub frames: Vec<StackFrame>,
    /// Largest depth the stack has had.
    pub max_depth: usize,
}

impl View for CallStack {
    type V = Seq<StackFrame>;

    open spec fn view(&self) -> Seq<StackFrame> {
        self.frames@
    }
}

impl CallStack {
    pub fn new() -> (r: Self)
        ensures
            r@ == Seq::<StackFrame>::empty(),
            r.max_depth == 0,
    {
        CallStack { frames: Vec::new(), max_depth: 0 }
    }

    pub fn with_capacity(capacity: usize) -> (r: Self)
        ensures
            r@ == Seq::<StackFrame>::empty(),
            r.max_depth == 0,
    {
        CallStack { frames: Vec::with_capacity(capacity), max_depth: 0 }
    }

    /// Pushes a frame; the recorded maximum depth grows to the new depth if needed.
    pub fn push(&mut self, frame: StackFrame)
        ensures
            final(self)@ == old(self)@.push(frame),
            final(self).max_depth == (if old(self).max_depth >= old(self)@.len() + 1 {
                old(self).max_depth as int
            } else {
                old(self)@.len() + 1int
            }),
    {
        self.frames.push(frame);
        let len = self.frames.len();
        if len > self.max_depth {
            self.max_depth = len;
        }
    }

    /// Pushes the frame for returning to `return_position` heading `return_direction`.
    pub fn push_return(&mut self, return_position: Coordinate, return_direction: Direction)
        ensures
            final(self)@ == old(self)@.push(StackFrame { return_position, return_direction }),
            final(self).max_depth == (if old(self).max_depth >= old(self)@.len() + 1 {
                old(self).max_depth as int
            } else {
                old(self)@.len() + 1int
            }),
    {
        self.push(StackFrame::new(return_position, return_direction));
    }

    /// Removes and returns the top frame.
    pub fn pop(&mut self) -> (r: Option<StackFrame>)
        ensures
            old(self)@.len() == 0 ==> r is None && final(self)@ == old(self)@,
            old(self)@.len() > 0 ==> r == Some(old(self)@.last()) && final(self)@ == old(self)@.drop_last(),
            final(self).max_depth == old(self).max_depth,
    {
        self.frames.pop()
    }

    /// The same as `pop`.
    pub fn pop_or_none(&mut self) -> (r: Option<StackFrame>)
        ensures
            old(self)@.len() == 0 ==> r is None && final(self)@ == old(self)@,
            old(self)@.len() > 0 ==> r == Some(old(self)@.last()) && final(self)@ == old(self)@.drop_last(),
            final(self).max_depth == old(self).max_depth,
    {
        self.pop()
    }

    /// The top frame.
    pub fn peek(&self) -> (r: Option<&StackFrame>)
        ensures
            match r {
                Some(f) => self@.len() > 0 && *f == self@.last(),
                None => self@.len() == 0,
            },
    {
        if self.frames.len() == 0 {
            None
        } else {
            Some(&self.frames[self.frames.len() - 1])
        }
    }

    pub fn is_empty(&self) -> (r: bool)
        ensures
            r == (self@.len() == 0),
    {
        self.frames.len() == 0
    }

    pub fn len(&self) -> (r: usize)
        ensures
            r == self@.len(),
    {
        self.frames.len()
    }

    /// Number of frames.
    pub fn depth(&self) -> (r: usize)
        ensures
            r == self@.len(),
    {
        self.frames.len()
    }

    pub fn clear(&mut self)
        ensures
            final(self)@ == Seq::<StackFrame>::empty(),
            final(self).max_depth == old(self).max_depth,
    {
        self.frames.clear();
    }

    /// Keeps only the bottom `new_len` frames.
    pub fn truncate(&mut self, new_len: usize)
        ensures
            final(self)@ == (if new_len < old(self)@.len() { old(self)@.take(new_len as int) } else { old(self)@ }),
            final(self).max_depth == old(self).max_depth,
    {
        if new_len < self.frames.len() {
            self.frames.truncate(new_len);
        }
    }

    /// The frame at `index` counted from the bottom.
    pub fn get(&self, index: usize) -> (r: Option<&StackFrame>)
        ensures
            match r {
                Some(f) => index < self@.len() && *f == self@[index as int],
                None => index >= self@.len(),
            },
    {
        if index < self.frames.len() {
            Some(&self.frames[index])
        } else {
            None
        }
    }

    /// The frame `index_from_top` places below the top.
    pub fn get_from_top(&self, index_from_top: usize) -> (r: Option<&StackFrame>)
        ensures
            match r {
                Some(f) => index_from_top < self@.len() && *f == self@[self@.len() - 1 - index_from_top],
                None => index_from_top >= self@.len(),
            },
    {
        if index_from_top >= self.frames.len() {
            None
        } else {
            Some(&self.frames[self.frames.len() - 1 - index_from_top])
        }
    }

    /// Exchanges the two top frames; false (and no change) with fewer than two.
    pub fn swap_top_two(&mut self) -> (r: bool)
        ensures
            r == (old(self)@.len() >= 2),
            r ==> final(self)@ == old(self)@.update(old(self)@.len() - 1, old(self)@[old(self)@.len() - 2]).update(
                old(self)@.len() - 2,
                old(self)@[old(self)@.len() - 1],
            ),
            !r ==> final(self)@ == old(self)@,
            final(self).max_depth == old(self).max_depth,
    {
        if self.frames.len() < 2 {
            false
        } else {
            let len = self.frames.len();
            let top = self.frames[len - 1];
            let below = self.frames[len - 2];
            self.frames.set(len - 1, below);
            self.frames.set(len - 2, top);
            true
        }
    }

    /// The frames, bottom first.
    pub fn as_slice(&self) -> (r: &[StackFrame])
        ensures
            r@ == self@,
    {
        self.frames.as_slice()
    }

    pub fn is_within_limit(&self, limit: usize) -> (r: bool)
        ensures
            r == (self@.len() <= limit),
    {
        self.frames.len() <= limit
    }

    pub fn max_depth_reached(&self) -> (r: usize)
        ensures
            r == self.max_depth,
    {
        self.max_depth
    }

    /// The frames, bottom first (to iterate over).
    pub fn iter(&self) -> (r: &[StackFrame])
        ensures
            r@ == self@,
    {
        self.frames.as_slice()
    }

    /// The frames, bottom first, lent out for changing in place; what they are
    /// when the loan ends is what the stack holds, and the recorded maximum depth
    /// stays.
    pub fn iter_mut(&mut self) -> (r: &mut Vec<StackFrame>)
        ensures
            *r == old(self).frames,
            final(self).frames == *final(r),
            final(self).max_depth == old(self).max_depth,
    {
        &mut self.frames
    }

    /// Whether some frame returns to `position`.
    pub fn contains_position(&self, position: Coordinate) -> (r: bool)
        ensures
            r == (exists|i: int| 0 <= i < self@.len() && (#[trigger] self@[i]).return_position == position),
    {
        let mut i: usize = 0;
        while i < self.frames.len()
            invariant
                i <= self@.len(),
                forall|j: int| 0 <= j < i ==> (#[trigger] self@[j]).return_position != position,
            decreases self@.len() - i,
        {
            if self.frames[i].return_position == position {
                return true;
            }
            i = i + 1;
        }
        false
    }

    /// The frames that return heading `direction`, bottom first.
    pub fn filter_by_direction(&self, direction: Direction) -> (r: Vec<&StackFrame>)
        ensures
            r@.map_values(|f: &StackFrame| *f) == self@.filter(|f: StackFrame| f.return_direction == direction),
    {
        let mut out: Vec<&StackFrame> = Vec::new();
        let mut i: usize = 0;
        while i < self.frames.len()
            invariant
                i <= self@.len(),
                out@.map_values(|f: &StackFrame| *f) == self@.take(i as int).filter(|f: StackFrame| f.return_direction == direction),
            decreases self@.len() - i,
        {
            if self.frames[i].return_direction == direction {
                out.push(&self.frames[i]);
            }
            proof {
                let p = |f: StackFrame| f.return_direction == direction;
                assert(self@.take(i + 1).drop_last() =~= self@.take(i as int));
                reveal_with_fuel(Seq::filter, 1);
                assert(out@.map_values(|f: &StackFrame| *f) =~= self@.take(i + 1).filter(p));
            }
            i = i + 1;
        }
        assert(self@.take(self@.len() as int) =~= self@);
        out
    }

    /// A stack holding `frames` (the last on top), whose maximum depth is its depth.
    pub fn from_frames(frames: Vec<StackFrame>) -> (r: Self)
        ensures
            r@ == frames@,
            r.max_depth == frames@.len(),
    {
        let max_depth = frames.len();
        CallStack { frames, max_depth }
    }

    /// A stack holding a frame for each position/direction pair (the last on top).
    pub fn from_pairs(pairs: Vec<(Coordinate, Direction)>) -> (r: Self)
        ensures
            r@ == pairs@.map_values(|p: (Coordinate, Direction)| StackFrame { return_position: p.0, return_direction: p.1 }),
            r.max_depth == pairs@.len(),
    {
        let mut frames: Vec<StackFrame> = Vec::new();
        let mut i: usize = 0;
        while i < pairs.len()
            invariant
                i <= pairs@.len(),
                frames@ =~= pairs@.take(i as int).map_values(|p: (Coordinate, Direction)| StackFrame { return_position: p.0, return_direction: p.1 }),
            decreases pairs@.len() - i,
        {
            let (pos, dir) = pairs[i];
            frames.push(StackFrame::new(pos, dir));
            proof {
                assert(pairs@.take(i + 1) =~= pairs@.take(i as int).push(pairs@[i as int]));
            }
            i = i + 1;
        }
        assert(pairs@.take(pairs@.len() as int) =~= pairs@);
        CallStack::from_frames(frames)
    }
}

impl Default for CallStack {
    fn default() -> (r: Self)
        ensures
            r@ == Seq::<StackFrame>::empty(),
            r.max_depth == 0,
    {
        Self::new()
    }
}

} // verus!
