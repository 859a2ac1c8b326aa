//! Captured stacks: the bounded buffer that a stack walk fills, and the
//! sample that a walk of one thread's stack gives.

use vstd::prelude::*;
use vstd::slice::{slice_subrange, slice_to_vec};

use crate::{MAX_DEPTH, MAX_THREAD_NAME};

verus! {

/// What tells one stack from another among the samples: the captured
/// addresses, innermost frame first, and the label of the thread.
#[verifier::ext_equal]
pub struct StackKey {
    pub stack: Seq<u64>,
    pub thread_name: Seq<u8>,
}

/// What a sample is, as a value.
#[verifier::ext_equal]
pub struct SampleView {
    /// The captured return addresses, innermost frame first.
    pub stack: Seq<u64>,
    /// The label of the thread that the stack was captured on.
    pub thread_name: Seq<u8>,
    /// The numeric identifier of that thread.
    pub thread_id: u64,
}

/// The first `limit` elements of `s`, or all of `s` where it has fewer.
pub open spec fn truncated<T>(s: Seq<T>, limit: nat) -> Seq<T> {
    if s.len() <= limit {
        s
    } else {
        s.take(limit as int)
    }
}

impl SampleView {
    /// The identity under which the sample is counted.
    pub open spec fn key(self) -> StackKey {
        StackKey { stack: self.stack, thread_name: self.thread_name }
    }

    /// Whether the stack and the label are within their limits.
    pub open spec fn bounded(self) -> bool {
        &&& self.stack.len() <= MAX_DEPTH
        &&& self.thread_name.len() <= MAX_THREAD_NAME
    }

    /// The sample that is kept of a stack walk: the first `MAX_DEPTH`
    /// addresses and the first `MAX_THREAD_NAME` bytes of the label.
    pub open spec fn capture(
        backtrace: Seq<u64>,
        thread_name: Seq<u8>,
        thread_id: u64,
    ) -> SampleView {
        SampleView {
            stack: truncated(backtrace, MAX_DEPTH as nat),
            thread_name: truncated(thread_name, MAX_THREAD_NAME as nat),
            thread_id,
        }
    }
}

/// The first `limit` elements of `source`, copied.
fn copy_prefix<T: Copy>(source: &[T], limit: usize) -> (prefix: Vec<T>)
    ensures
        prefix@ == truncated(source@, limit as nat),
{
    if source.len() <= limit {
        slice_to_vec(source)
    } else {
        slice_to_vec(slice_subrange(source, 0, limit))
    }
}

/// One captured stack with the thread it was captured on, not yet resolved
/// to symbols.
#[derive(Debug)]
pub struct UnresolvedFrames {
    frames: Vec<u64>,
    thread_name: Vec<u8>,
    thread_id: u64,
}

impl View for UnresolvedFrames {
    type V = SampleView;

    closed spec fn view(&self) -> SampleView {
        SampleView {
            stack: self.frames@,
            thread_name: self.thread_name@,
            thread_id: self.thread_id,
        }
    }
}

impl UnresolvedFrames {
    #[verifier::type_invariant]
    spec fn well_formed(self) -> bool {
        self@.bounded()
    }

    /// The sample of one stack walk. A walk deeper than `MAX_DEPTH` and a
    /// label longer than `MAX_THREAD_NAME` are cut to those limits.
    pub fn new(backtrace: &[u64], thread_name: &[u8], thread_id: u64) -> (sample: UnresolvedFrames)
        ensures
            sample@ == SampleView::capture(backtrace@, thread_name@, thread_id),
            sample@.bounded(),
    {
        UnresolvedFrames {
            frames: copy_prefix(backtrace, MAX_DEPTH),
            thread_name: copy_prefix(thread_name, MAX_THREAD_NAME),
            thread_id,
        }
    }

    /// The captured return addresses, innermost frame first.
    pub fn frames(&self) -> (frames: &[u64])
        ensures
            frames@ == self@.stack,
            frames@.len() <= MAX_DEPTH,
    {
        proof {
            use_type_invariant(self);
        }
        self.frames.as_slice()
    }

    /// The label of the thread that the stack was captured on.
    pub fn thread_name(&self) -> (thread_name: &[u8])
        ensures
            thread_name@ == self@.thread_name,
            thread_name@.len() <= MAX_THREAD_NAME,
    {
        proof {
            use_type_invariant(self);
        }
        self.thread_name.as_slice()
    }

    /// The numeric identifier of that thread.
    pub fn thread_id(&self) -> (thread_id: u64)
        ensures
            thread_id == self@.thread_id,
    {
        self.thread_id
    }

    /// Whether `self` and `other` are counted under one identity: the same
    /// addresses and the same label.
    pub fn same_stack(&self, other: &UnresolvedFrames) -> (same: bool)
        ensures
            same == (self@.key() == other@.key()),
    {
        let same = self.frames == other.frames && self.thread_name == other.thread_name;
        proof {
            if self.frames@ =~= other.frames@ && self.thread_name@ =~= other.thread_name@ {
                assert(self@.key() =~= other@.key());
            }
        }
        same
    }
}

/// The buffer that a stack walk fills, one return address at a time. It
/// holds `MAX_DEPTH` addresses at most.
#[derive(Debug)]
pub struct StackBuffer {
    frames: Vec<u64>,
}

impl View for StackBuffer {
    type V = Seq<u64>;

    closed spec fn view(&self) -> Seq<u64> {
        self.frames@
    }
}

impl StackBuffer {
    #[verifier::type_invariant]
    spec fn well_formed(self) -> bool {
        self.frames@.len() <= MAX_DEPTH
    }

    /// An empty buffer, with room for a whole walk set aside: filling it
    /// asks for no more memory.
    pub fn new() -> (buffer: StackBuffer)
        ensures
            buffer@ == Seq::<u64>::empty(),
    {
        StackBuffer { frames: Vec::with_capacity(MAX_DEPTH) }
    }

    /// Takes the next return address of a walk. While the buffer has room
    /// the address is kept and the answer is `true`: the walk goes on. A full
    /// buffer keeps what it has and answers `false`: the walk ends there.
    pub fn push(&mut self, address: u64) -> (more: bool)
        ensures
            more == (old(self)@.len() < MAX_DEPTH),
            final(self)@ == (if more {
                old(self)@.push(address)
            } else {
                old(self)@
            }),
    {
        proof {
            use_type_invariant(&*self);
        }
        if self.frames.len() < MAX_DEPTH {
            let mut taken = StackBuffer::new();
            std::mem::swap(self, &mut taken);
            let StackBuffer { mut frames } = taken;
            frames.push(address);
            *self = StackBuffer { frames };
            true
        } else {
            false
        }
    }

    /// The number of addresses held.
    pub fn len(&self) -> (len: usize)
        ensures
            len == self@.len(),
            len <= MAX_DEPTH,
    {
        proof {
            use_type_invariant(self);
        }
        self.frames.len()
    }

    /// The addresses held, in the order in which they came.
    pub fn as_slice(&self) -> (frames: &[u64])
        ensures
            frames@ == self@,
            frames@.len() <= MAX_DEPTH,
    {
        proof {
            use_type_invariant(self);
        }
        self.frames.as_slice()
    }

    /// The addresses held, in the order in which they came.
    pub fn into_vec(self) -> (frames: Vec<u64>)
        ensures
            frames@ == self@,
            frames@.len() <= MAX_DEPTH,
    {
        proof {
            use_type_invariant(&self);
        }
        self.frames
    }
}

} // verus!
