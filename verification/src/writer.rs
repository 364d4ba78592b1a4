//! The checks that bracket encoding of a road-editing module into a
//! size-prefixed `LFRE` buffer: the capacity reserved up front and the sealing
//! of the finished storage into an owned buffer.

use vstd::prelude::*;

use crate::diagnostic::{Diagnostic, DiagnosticBundle, RoadEditingInputViolation};
use crate::limits::{CompileLimitDimension, CompileLimits};
use crate::reader::u32_at;
use crate::rules::input_error;
use crate::scratch::limit_error;

verus! {

/// `Vec::capacity`: the number of elements the vector can hold without
/// reallocating. The allocator decides it; the documentation promises only
/// that it is at least the length.
#[verifier::external_body]
fn vec_capacity(storage: &Vec<u8>) -> (r: usize)
    ensures
        r >= storage@.len(),
{
    storage.capacity()
}

/// Storage of a finished size-prefixed buffer and the start of its valid tail.
pub struct OwnedRoadEditingSourceBuffer {
    storage: Vec<u8>,
    start: usize,
}

impl OwnedRoadEditingSourceBuffer {
    #[verifier::type_invariant]
    closed spec fn inv(&self) -> bool {
        self.start <= self.storage@.len()
    }

    /// The bytes of the buffer: the storage from its start on.
    pub closed spec fn bytes_view(&self) -> Seq<u8> {
        self.storage@.skip(self.start as int)
    }

    /// Returns the size-prefixed buffer.
    pub fn as_bytes(&self) -> (r: &[u8])
        ensures
            r@ == self.bytes_view(),
    {
        proof {
            use_type_invariant(self);
        }
        let r = vstd::slice::slice_subrange(self.storage.as_slice(), self.start, self.storage.len());
        proof {
            assert(r@ =~= self.bytes_view());
        }
        r
    }

    /// The capacity that the storage retains, at least the length of the
    /// storage, which includes the buffer.
    pub fn retained_capacity_bytes(&self) -> (r: usize)
        ensures
            r >= self.bytes_view().len(),
    {
        proof {
            use_type_invariant(self);
        }
        vec_capacity(&self.storage)
    }
}

/// Encodes road-editing modules under a limit profile.
pub struct RoadEditingSourceWriter<'limits> {
    limits: &'limits CompileLimits,
}

/// The outcome of sealing storage whose buffer starts at `start`, for a module
/// whose encoding is bounded by `bound` bytes under the per-module limit
/// `limit`: the buffer bytes, or the input field or limit that failed.
pub open spec fn seal_spec(storage: Seq<u8>, start: int, bound: u64, limit: u64) -> Result<
    Seq<u8>,
    Result<(CompileLimitDimension, u64, u64), Seq<char>>,
> {
    if start > storage.len() {
        Err(Err("roadEditingWriter.bufferStart"@))
    } else {
        let bytes = storage.skip(start);
        let observed = bytes.len() as u64;
        if bytes.len() > bound {
            Err(Ok((CompileLimitDimension::SourceBytesPerModule, bound, observed)))
        } else if bytes.len() > limit {
            Err(Ok((CompileLimitDimension::SourceBytesPerModule, limit, observed)))
        } else if bytes.len() < 4 || u32_at(bytes, 0)->Some_0 != bytes.len() - 4 {
            Err(Err("roadEditingWriter.sizePrefix"@))
        } else {
            Ok(bytes)
        }
    }
}

/// The four bytes at the front of `b` read as a little-endian `u32` give the
/// number of bytes after them.
pub open spec fn size_prefix_holds(b: Seq<u8>) -> bool {
    &&& b.len() >= 4
    &&& b[0] + 256 * b[1] + 65536 * b[2] + 16777216 * b[3] == b.len() - 4
}

/// A sealed buffer is the storage from `start` on, within both byte bounds,
/// and its size prefix counts exactly the bytes that follow it.
pub proof fn law_sealed_buffer_is_size_prefixed(storage: Seq<u8>, start: int, bound: u64, limit: u64)
    requires
        0 <= start,
        seal_spec(storage, start, bound, limit) is Ok,
    ensures
        ({
            let b = seal_spec(storage, start, bound, limit)->Ok_0;
            &&& start <= storage.len()
            &&& b == storage.skip(start)
            &&& b.len() <= bound
            &&& b.len() <= limit
            &&& size_prefix_holds(b)
        }),
{
}

impl<'limits> RoadEditingSourceWriter<'limits> {
    pub closed spec fn spec_limits(&self) -> CompileLimits {
        *self.limits
    }

    /// A writer under `limits`.
    pub fn new(limits: &'limits CompileLimits) -> (r: Self)
        ensures
            r.spec_limits() == *limits,
    {
        RoadEditingSourceWriter { limits }
    }

    /// The storage capacity to reserve for a module whose encoding is bounded
    /// by `wire_upper_bound` bytes: the bound itself, when the per-module
    /// source limit allows it and it fits in `usize`.
    pub fn reserved_capacity(&self, wire_upper_bound: u64) -> (r: Result<usize, DiagnosticBundle>)
        ensures
            ({
                let limit = self.spec_limits().spec_value(CompileLimitDimension::SourceBytesPerModule);
                if wire_upper_bound > limit || wire_upper_bound > usize::MAX {
                    r matches Err(b) && b.is_limit_error(
                        CompileLimitDimension::SourceBytesPerModule,
                        limit,
                        wire_upper_bound,
                    )
                } else {
                    r == Ok::<usize, DiagnosticBundle>(wire_upper_bound as usize)
                }
            }),
    {
        let capacity_limit = self.limits.value(CompileLimitDimension::SourceBytesPerModule);
        if wire_upper_bound > capacity_limit || wire_upper_bound > usize::MAX as u64 {
            return Err(limit_error(CompileLimitDimension::SourceBytesPerModule, capacity_limit, wire_upper_bound));
        }
        Ok(wire_upper_bound as usize)
    }

    /// Seals finished storage whose buffer starts at `start`: the buffer must
    /// lie in the storage, stay within the encoding bound and the per-module
    /// limit, and carry a size prefix equal to the bytes that follow it.
    pub fn seal(&self, storage: Vec<u8>, start: usize, wire_upper_bound: u64) -> (r: Result<
        OwnedRoadEditingSourceBuffer,
        DiagnosticBundle,
    >)
        ensures
            match seal_spec(
                storage@,
                start as int,
                wire_upper_bound,
                self.spec_limits().spec_value(CompileLimitDimension::SourceBytesPerModule),
            ) {
                Ok(bytes) => r matches Ok(buffer) && buffer.bytes_view() == bytes,
                Err(Ok((d, l, o))) => r matches Err(b) && b.is_limit_error(d, l, o),
                Err(Err(field)) => r matches Err(b) && b.is_input_error(
                    field,
                    RoadEditingInputViolation::InvalidCombination,
                ),
            },
            r matches Ok(buffer) ==> size_prefix_holds(buffer.bytes_view()),
    {
        let capacity_limit = self.limits.value(CompileLimitDimension::SourceBytesPerModule);
        if start > storage.len() {
            return Err(input_error("roadEditingWriter.bufferStart", RoadEditingInputViolation::InvalidCombination));
        }
        let ghost bytes = storage@.skip(start as int);
        let observed = (storage.len() - start) as u64;
        if observed > wire_upper_bound {
            return Err(limit_error(CompileLimitDimension::SourceBytesPerModule, wire_upper_bound, observed));
        }
        if observed > capacity_limit {
            return Err(limit_error(CompileLimitDimension::SourceBytesPerModule, capacity_limit, observed));
        }
        if storage.len() - start < 4 {
            return Err(input_error("roadEditingWriter.sizePrefix", RoadEditingInputViolation::InvalidCombination));
        }
        let prefix = storage[start] as u64 + 256 * (storage[start + 1] as u64) + 65536 * (storage[start + 2] as u64)
            + 16777216 * (storage[start + 3] as u64);
        proof {
            assert(bytes[0] == storage@[start as int]);
            assert(bytes[1] == storage@[start + 1]);
            assert(bytes[2] == storage@[start + 2]);
            assert(bytes[3] == storage@[start + 3]);
        }
        if prefix != observed - 4 {
            return Err(input_error("roadEditingWriter.sizePrefix", RoadEditingInputViolation::InvalidCombination));
        }
        Ok(OwnedRoadEditingSourceBuffer { storage, start })
    }
}

} // verus!
