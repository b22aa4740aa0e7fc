use vstd::prelude::*;

verus! {

/// Where `add_slice` placed a slice: the buffer, the byte offset in it, and
/// whether that buffer had to be created for it.
#[derive(Copy, Clone, Debug, PartialEq, Eq, Structural)]
pub struct SliceSlot {
    pub buffer_idx: usize,
    pub buffer_start: u64,
    pub new_buffer: bool,
}

/// Bookkeeping of a growing set of equally sized GPU buffers that slices are
/// appended to: slices fill the last buffer, and a new buffer starts when the
/// last one has no room left.
pub struct DynamicBuffer {
    buffer_count: usize,
    buffer_used: u64,
    buffer_size: u64,
}

/// Abstract state: number of buffers, bytes used in the last one, size of each.
pub struct DynamicBufferModel {
    pub count: nat,
    pub used: nat,
    pub size: nat,
}

/// The slot that `add_slice(required)` hands out in state `s`.
pub open spec fn model_slot(s: DynamicBufferModel, required: nat) -> (nat, nat, bool) {
    if s.count == 0 || s.size - s.used < required {
        (s.count, 0, true)
    } else {
        ((s.count - 1) as nat, s.used, false)
    }
}

/// State after `add_slice(required)`.
pub open spec fn model_add_slice(s: DynamicBufferModel, required: nat) -> DynamicBufferModel {
    if s.count == 0 || s.size - s.used < required {
        DynamicBufferModel { count: s.count + 1, used: required, size: s.size }
    } else {
        DynamicBufferModel { count: s.count, used: s.used + required, size: s.size }
    }
}

/// A slice lies inside its buffer, and a slice placed in the same buffer as
/// the previous one starts after the end of it: slices never overlap.
pub proof fn law_slices_do_not_overlap(s: DynamicBufferModel, first: nat, second: nat)
    requires
        s.used <= s.size,
        first <= s.size,
        second <= s.size,
    ensures
        ({
            let (i1, st1, _) = model_slot(s, first);
            let s1 = model_add_slice(s, first);
            let (i2, st2, _) = model_slot(s1, second);
            &&& st1 + first <= s.size
            &&& st2 + second <= s.size
            &&& i1 <= i2
            &&& i1 == i2 ==> st1 + first <= st2
        }),
{
}

impl DynamicBuffer {
    pub closed spec fn model(&self) -> DynamicBufferModel {
        DynamicBufferModel {
            count: self.buffer_count as nat,
            used: self.buffer_used as nat,
            size: self.buffer_size as nat,
        }
    }

    /// The bytes used in the last buffer fit in it.
    pub open spec fn wf(&self) -> bool {
        self.model().used <= self.model().size
    }

    pub fn new(size: u64) -> (r: Self)
        ensures
            r.wf(),
            r.model() == (DynamicBufferModel { count: 0, used: 0, size: size as nat }),
    {
        DynamicBuffer { buffer_count: 0, buffer_used: 0, buffer_size: size }
    }

    /// Bookkeeping that starts with one empty buffer already created.
    pub fn with_first_buffer(size: u64) -> (r: Self)
        ensures
            r.wf(),
            r.model() == (DynamicBufferModel { count: 1, used: 0, size: size as nat }),
    {
        DynamicBuffer { buffer_count: 1, buffer_used: 0, buffer_size: size }
    }

    /// Drops every buffer but the last one, which stays as it is.
    pub fn retain_last(&mut self)
        ensures
            final(self).wf() == old(self).wf(),
            final(self).model() == (DynamicBufferModel {
                count: if old(self).model().count > 1 { 1 } else { old(self).model().count },
                used: old(self).model().used,
                size: old(self).model().size,
            }),
    {
        if self.buffer_count > 1 {
            self.buffer_count = 1;
        }
    }

    /// Places a slice of `required_size` bytes: at the end of the last buffer
    /// when it has room, else at the start of a new buffer.
    pub fn add_slice(&mut self, required_size: u64) -> (r: SliceSlot)
        requires
            old(self).wf(),
            required_size <= old(self).model().size,
            old(self).model().count < usize::MAX,
        ensures
            final(self).wf(),
            final(self).model() == model_add_slice(old(self).model(), required_size as nat),
            (r.buffer_idx as nat, r.buffer_start as nat, r.new_buffer) == model_slot(
                old(self).model(),
                required_size as nat,
            ),
            r.buffer_start + required_size <= old(self).model().size,
    {
        let remain_size = self.buffer_size - self.buffer_used;
        let new_buffer = self.buffer_count == 0 || remain_size < required_size;
        if new_buffer {
            self.buffer_count = self.buffer_count + 1;
            self.buffer_used = 0;
        }
        let buffer_idx = self.buffer_count - 1;
        let buffer_start = self.buffer_used;
        self.buffer_used = self.buffer_used + required_size;
        SliceSlot { buffer_idx, buffer_start, new_buffer }
    }

    /// Number of buffers.
    pub fn buffer_count(&self) -> (r: usize)
        ensures
            r == self.model().count,
    {
        self.buffer_count
    }

    /// Keeps only the first buffer, and empties it.
    pub fn clear(&mut self)
        ensures
            final(self).wf(),
            final(self).model() == (DynamicBufferModel {
                count: if old(self).model().count > 1 { 1 } else { old(self).model().count },
                used: 0,
                size: old(self).model().size,
            }),
    {
        if self.buffer_count > 1 {
            self.buffer_count = 1;
        }
        self.buffer_used = 0;
    }
}

} // verus!
