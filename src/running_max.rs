//! The running-maximum emitter: it reads an inbound sequence one element at
//! a time and emits the maximum so far each time it strictly increases.
use vstd::prelude::*;

verus! {

/// The values emitted for the inbound sequence `s`: the first element, then
/// each element that is strictly greater than every element before it.
pub open spec fn running_maxima(s: Seq<i32>) -> Seq<i32>
    decreases s.len(),
{
    if s.len() == 0 {
        Seq::empty()
    } else {
        let prev = running_maxima(s.drop_last());
        if prev.len() == 0 || s.last() > prev.last() {
            prev.push(s.last())
        } else {
            prev
        }
    }
}

/// One pull from the inbound sequence.
pub enum MaxEvent {
    /// The next element.
    Item(i32),
    /// The inbound sequence ended normally.
    End,
    /// The inbound sequence failed; the failure itself stays with the caller.
    Failed,
}

/// What the emitter does in answer to one pull.
#[derive(PartialEq, Eq, Structural, Debug, Clone, Copy)]
pub enum MaxAction {
    /// Emit this new maximum on the outbound sequence.
    Emit(i32),
    /// Emit nothing for this pull.
    Silent,
    /// Close the outbound sequence normally.
    Close,
    /// Close the outbound sequence with the inbound failure.
    Fail,
}

/// The running state of one emitter.
pub struct MaxTracker {
    current: i32,
    seen_any: bool,
    finished: bool,
    seen: Ghost<Seq<i32>>,
}

impl MaxTracker {
    /// The elements observed so far, in order.
    pub closed spec fn seen(&self) -> Seq<i32> {
        self.seen@
    }

    /// The outbound sequence has been closed, normally or with a failure.
    pub closed spec fn is_finished(&self) -> bool {
        self.finished
    }

    /// The state is consistent: the current maximum is the last value
    /// emitted for what was observed.
    pub closed spec fn wf(&self) -> bool {
        &&& self.seen_any <==> self.seen@.len() > 0
        &&& self.seen_any ==> running_maxima(self.seen@).len() > 0
            && self.current == running_maxima(self.seen@).last()
    }

    /// An emitter that has observed nothing.
    pub fn new() -> (r: MaxTracker)
        ensures
            r.wf(),
            r.seen() == Seq::<i32>::empty(),
            !r.is_finished(),
    {
        MaxTracker { current: 0, seen_any: false, finished: false, seen: Ghost(Seq::empty()) }
    }

    /// Whether the outbound sequence has been closed.
    pub fn finished(&self) -> (r: bool)
        ensures
            r == self.is_finished(),
    {
        self.finished
    }

    /// Observes `x`; returns the new maximum if `x` is the first element or
    /// exceeds every element before it. Ties emit nothing.
    pub fn observe(&mut self, x: i32) -> (r: Option<i32>)
        requires
            old(self).wf(),
        ensures
            final(self).wf(),
            final(self).is_finished() == old(self).is_finished(),
            final(self).seen() == old(self).seen().push(x),
            r == (if old(self).seen().len() == 0 || x > running_maxima(old(self).seen()).last() {
                Some(x)
            } else {
                None::<i32>
            }),
            running_maxima(final(self).seen()) == match r {
                Some(v) => running_maxima(old(self).seen()).push(v),
                None => running_maxima(old(self).seen()),
            },
    {
        let ghost before = self.seen@;
        self.seen = Ghost(self.seen@.push(x));
        assert(self.seen@.drop_last() == before);
        assert(self.seen@.last() == x);
        assert(running_maxima(self.seen@) == if running_maxima(before).len() == 0 || x > running_maxima(before).last() {
            running_maxima(before).push(x)
        } else {
            running_maxima(before)
        });
        if !self.seen_any || x > self.current {
            self.current = x;
            self.seen_any = true;
            Some(x)
        } else {
            None
        }
    }

    /// Answers one pull from the inbound sequence. An element may emit a new
    /// maximum; the end closes the outbound sequence and a failure closes it
    /// with that failure. Once closed, the emitter ignores further pulls.
    pub fn on_event(&mut self, ev: MaxEvent) -> (r: MaxAction)
        requires
            old(self).wf(),
        ensures
            final(self).wf(),
            old(self).is_finished() ==> r == MaxAction::Silent && final(self).seen() == old(self).seen()
                && final(self).is_finished(),
            !old(self).is_finished() ==> match ev {
                MaxEvent::Item(x) => {
                    &&& final(self).seen() == old(self).seen().push(x)
                    &&& !final(self).is_finished()
                    &&& r == if old(self).seen().len() == 0 || x > running_maxima(old(self).seen()).last() {
                        MaxAction::Emit(x)
                    } else {
                        MaxAction::Silent
                    }
                },
                MaxEvent::End => r == MaxAction::Close && final(self).is_finished()
                    && final(self).seen() == old(self).seen(),
                MaxEvent::Failed => r == MaxAction::Fail && final(self).is_finished()
                    && final(self).seen() == old(self).seen(),
            },
    {
        if self.finished {
            return MaxAction::Silent;
        }
        match ev {
            MaxEvent::Item(x) => match self.observe(x) {
                Some(v) => MaxAction::Emit(v),
                None => MaxAction::Silent,
            },
            MaxEvent::End => {
                self.finished = true;
                MaxAction::Close
            },
            MaxEvent::Failed => {
                self.finished = true;
                MaxAction::Fail
            },
        }
    }
}

/// The values the emitter sends for `data`, a whole inbound sequence that
/// ends normally.
pub fn find_max(data: &Vec<i32>) -> (r: Vec<i32>)
    ensures
        r@ == running_maxima(data@),
{
    let mut tracker = MaxTracker::new();
    let mut out: Vec<i32> = Vec::new();
    let mut i: usize = 0;
    while i < data.len()
        invariant
            i <= data.len(),
            tracker.wf(),
            tracker.seen() == data@.take(i as int),
            out@ == running_maxima(tracker.seen()),
        decreases data.len() - i,
    {
        assert(data@.take(i as int).push(data@[i as int]) == data@.take(i as int + 1));
        match tracker.observe(data[i]) {
            Some(v) => out.push(v),
            None => {},
        }
        i = i + 1;
    }
    assert(data@.take(i as int) == data@);
    out
}

} // verus!
