use vstd::prelude::*;

verus! {

/// Bytes one vertex takes in the GPU vertex buffer.
pub const VERTEX_SIZE: u64 = 32;

/// Bump allocator over a fixed-capacity vertex buffer: a cursor that only
/// advances within a frame and goes back to zero when a frame begins.
pub struct FrameAllocator {
    capacity: u64,
    cursor: u64,
}

impl FrameAllocator {
    /// Capacity in bytes.
    pub closed spec fn capacity(&self) -> nat {
        self.capacity as nat
    }

    /// Bytes handed out so far in this frame.
    pub closed spec fn cursor(&self) -> nat {
        self.cursor as nat
    }

    #[verifier::type_invariant]
    closed spec fn inv(&self) -> bool {
        &&& self.cursor <= self.capacity
        &&& self.capacity <= VERTEX_SIZE * (u32::MAX as u64)
        &&& self.capacity % VERTEX_SIZE == 0
        &&& self.cursor % VERTEX_SIZE == 0
    }

    /// An allocator for a buffer of `capacity_vertices` vertices.
    pub fn new(capacity_vertices: u32) -> (a: FrameAllocator)
        ensures
            a.capacity() == VERTEX_SIZE * capacity_vertices,
            a.cursor() == 0,
    {
        FrameAllocator { capacity: VERTEX_SIZE * capacity_vertices as u64, cursor: 0 }
    }

    pub fn capacity_bytes(&self) -> (r: u64)
        ensures
            r == self.capacity(),
            r <= VERTEX_SIZE * (u32::MAX as u64),
    {
        proof {
            use_type_invariant(self);
        }
        self.capacity
    }

    pub fn cursor_bytes(&self) -> (r: u64)
        ensures
            r == self.cursor(),
            r <= self.capacity(),
    {
        proof {
            use_type_invariant(self);
        }
        self.cursor
    }

    /// Starts a frame: the whole buffer is free again.
    pub fn begin_frame(&mut self)
        ensures
            final(self).cursor() == 0,
            final(self).capacity() == old(self).capacity(),
    {
        proof {
            use_type_invariant(&*self);
        }
        self.cursor = 0;
    }

    /// Reserves room for `n_vertices` vertices: the byte range
    /// `[cursor, cursor + n_vertices * VERTEX_SIZE)`, after which the cursor
    /// stands at its end. Fails, changing nothing, when the range would pass
    /// the capacity.
    pub fn reserve(&mut self, n_vertices: usize) -> (r: Option<(u64, u64)>)
        ensures
            final(self).capacity() == old(self).capacity(),
            old(self).capacity() <= VERTEX_SIZE * (u32::MAX as u64),
            match r {
                Some((start, end)) => {
                    &&& old(self).cursor() + VERTEX_SIZE * n_vertices <= old(self).capacity()
                    &&& start == old(self).cursor()
                    &&& start % VERTEX_SIZE == 0
                    &&& end == old(self).cursor() + VERTEX_SIZE * n_vertices
                    &&& final(self).cursor() == end
                },
                None => {
                    &&& old(self).cursor() + VERTEX_SIZE * n_vertices > old(self).capacity()
                    &&& final(self).cursor() == old(self).cursor()
                },
            },
    {
        proof {
            use_type_invariant(&*self);
        }
        let free_vertices = (self.capacity - self.cursor) / VERTEX_SIZE;
        if n_vertices as u64 > free_vertices {
            assert(self.cursor + VERTEX_SIZE * n_vertices > self.capacity) by (nonlinear_arith)
                requires
                    n_vertices > free_vertices,
                    free_vertices == (self.capacity - self.cursor) / 32,
                    (self.capacity - self.cursor) % 32 == 0,
                    VERTEX_SIZE == 32,
            ;
            None
        } else {
            assert(self.cursor + VERTEX_SIZE * n_vertices <= self.capacity) by (nonlinear_arith)
                requires
                    n_vertices <= free_vertices,
                    free_vertices == (self.capacity - self.cursor) / 32,
                    self.cursor <= self.capacity,
                    VERTEX_SIZE == 32,
            ;
            let start = self.cursor;
            let end = self.cursor + VERTEX_SIZE * n_vertices as u64;
            assert(end % VERTEX_SIZE == 0) by (nonlinear_arith)
                requires
                    end == start + 32 * n_vertices,
                    start % 32 == 0,
                    VERTEX_SIZE == 32,
            ;
            self.cursor = end;
            Some((start, end))
        }
    }
}

} // verus!
