//! The request budget of borrowed preflight indexes: every index reserves its
//! exact byte size against the stage scratch limit and the compiler-controlled
//! live-byte limit before it is built, and returns it when released.

use vstd::prelude::*;

use crate::diagnostic::{Diagnostic, DiagnosticBundle};
use crate::limits::{CompileLimitDimension, CompileLimits};

verus! {

/// The outcome of requesting `requested` more scratch bytes while `live` bytes
/// are reserved and `admitted` live bytes are held by admitted modules: the new
/// live total, or the violated dimension with its limit and observed value.
pub open spec fn scratch_request(
    limits: CompileLimits,
    admitted: u64,
    live: u64,
    requested: int,
) -> Result<u64, (CompileLimitDimension, u64, u64)> {
    let stage = limits.spec_value(CompileLimitDimension::StageScratchBytes);
    let live_limit = limits.spec_value(CompileLimitDimension::CompilerControlledLiveBytes);
    if requested > isize::MAX || requested > u64::MAX {
        Err((CompileLimitDimension::StageScratchBytes, stage, u64::MAX))
    } else if live + requested > u64::MAX {
        Err((CompileLimitDimension::StageScratchBytes, stage, u64::MAX))
    } else if live + requested > stage {
        Err((CompileLimitDimension::StageScratchBytes, stage, (live + requested) as u64))
    } else if admitted + live + requested > u64::MAX {
        Err((CompileLimitDimension::CompilerControlledLiveBytes, live_limit, u64::MAX))
    } else if admitted + live + requested > live_limit {
        Err(
            (
                CompileLimitDimension::CompilerControlledLiveBytes,
                live_limit,
                (admitted + live + requested) as u64,
            ),
        )
    } else {
        Ok((live + requested) as u64)
    }
}

/// `after` is `before` with a request granted at the new live total `live`.
pub open spec fn granted(before: PreflightScratch, after: PreflightScratch, live: u64) -> bool {
    &&& after.spec_limits() == before.spec_limits()
    &&& after.admitted() == before.admitted()
    &&& after.live() == live
    &&& after.peak() == (if live > before.peak() {
        live
    } else {
        before.peak()
    })
}

/// `after` accounts exactly what `before` did.
pub open spec fn unchanged(before: PreflightScratch, after: PreflightScratch) -> bool {
    &&& after.spec_limits() == before.spec_limits()
    &&& after.admitted() == before.admitted()
    &&& after.live() == before.live()
    &&& after.peak() == before.peak()
}

/// The live and peak request accounting of one preflight pass.
pub struct PreflightScratch {
    limits: CompileLimits,
    admitted_live_bytes: u64,
    live_bytes: u64,
    peak_bytes: u64,
}

/// Entries held under a scratch reservation. Only a scratch pass makes one,
/// from a granted request, so the bytes it returns on release are bytes that
/// pass reserved.
pub struct ScratchVec<T> {
    entries: Vec<T>,
    bytes: u64,
}

impl<T> View for ScratchVec<T> {
    type V = Seq<T>;

    closed spec fn view(&self) -> Seq<T> {
        self.entries@
    }
}

impl<T> ScratchVec<T> {
    /// The bytes of the reservation that holds the entries.
    pub closed spec fn held(&self) -> u64 {
        self.bytes
    }

    /// The entries.
    pub fn entries(&self) -> (r: &[T])
        ensures
            r@ == self@,
    {
        self.entries.as_slice()
    }

    /// The bytes of the reservation that holds the entries.
    pub fn bytes(&self) -> (r: u64)
        ensures
            r == self.held(),
    {
        self.bytes
    }

    /// The number of entries.
    pub fn len(&self) -> (r: usize)
        ensures
            r == self@.len(),
    {
        self.entries.len()
    }

    /// Appends `value`; the reservation stays as it was.
    pub fn push(&mut self, value: T)
        ensures
            final(self)@ == old(self)@.push(value),
            final(self).held() == old(self).held(),
    {
        self.entries.push(value);
    }

    /// Replaces the entry at `index`; the reservation stays as it was.
    pub fn set(&mut self, index: usize, value: T)
        requires
            index < old(self)@.len(),
        ensures
            final(self)@ == old(self)@.update(index as int, value),
            final(self).held() == old(self).held(),
    {
        self.entries.set(index, value);
    }
}

/// A peak request within the limits of a pass: within the stage scratch
/// limit and, once anything was granted, within the live-byte limit together
/// with the admitted bytes.
pub open spec fn peak_within_limits(limits: CompileLimits, admitted: u64, peak: u64) -> bool {
    &&& peak <= limits.spec_value(CompileLimitDimension::StageScratchBytes)
    &&& peak > 0 ==> admitted + peak <= limits.spec_value(CompileLimitDimension::CompilerControlledLiveBytes)
}

/// The peak of a pass whose peak was `peak` with `live` bytes reserved,
/// once requests reaching at most `need` bytes above `live`, one of them
/// exactly `need`, were granted and returned; no request at all when `need`
/// is zero.
pub open spec fn lifted(peak: u64, live: u64, need: nat) -> int {
    if need > 0 && live + need > peak {
        live + need
    } else {
        peak as int
    }
}

/// `after` has the peak of `before` lifted by `need`.
pub open spec fn peak_lifted(before: PreflightScratch, after: PreflightScratch, need: nat) -> bool {
    after.peak() == lifted(before.peak(), before.live(), need)
}

/// The larger of two needs.
pub open spec fn max_nat(a: nat, b: nat) -> nat {
    if a >= b {
        a
    } else {
        b
    }
}

/// The largest need of the items.
pub open spec fn max_need<T>(items: Seq<T>, need: spec_fn(T) -> nat) -> nat
    decreases items.len(),
{
    if items.len() == 0 {
        0
    } else {
        max_nat(max_need(items.drop_last(), need), need(items.last()))
    }
}

/// The need of the first `k + 1` items.
pub proof fn lemma_max_need_extend<T>(items: Seq<T>, need: spec_fn(T) -> nat, k: int)
    requires
        0 <= k < items.len(),
    ensures
        max_need(items.take(k + 1), need) == max_nat(max_need(items.take(k), need), need(items[k])),
{
    assert(items.take(k + 1).drop_last() =~= items.take(k));
}

/// The need of all items.
pub proof fn lemma_max_need_all<T>(items: Seq<T>, need: spec_fn(T) -> nat)
    ensures
        max_need(items.take(items.len() as int), need) == max_need(items, need),
{
    assert(items.take(items.len() as int) =~= items);
}

impl PreflightScratch {
    /// Only granted requests move the accounting: the live total stays at or
    /// under the peak, and the peak within the limits.
    #[verifier::type_invariant]
    closed spec fn granted_within_limits(&self) -> bool {
        &&& self.live_bytes <= self.peak_bytes
        &&& peak_within_limits(self.limits, self.admitted_live_bytes, self.peak_bytes)
    }

    pub closed spec fn spec_limits(&self) -> CompileLimits {
        self.limits
    }

    pub closed spec fn admitted(&self) -> u64 {
        self.admitted_live_bytes
    }

    pub closed spec fn live(&self) -> u64 {
        self.live_bytes
    }

    pub closed spec fn peak(&self) -> u64 {
        self.peak_bytes
    }

    /// This pass once a request has raised its live total to `live`.
    pub closed spec fn after_grant(self, live: u64) -> Self {
        PreflightScratch {
            live_bytes: live,
            peak_bytes: if live > self.peak_bytes {
                live
            } else {
                self.peak_bytes
            },
            ..self
        }
    }

    /// Accounting never lets the live total exceed the peak.
    pub open spec fn wf(&self) -> bool {
        self.live() <= self.peak()
    }

    /// A pass over `limits` with nothing reserved yet.
    pub closed spec fn fresh(limits: CompileLimits, admitted_live_bytes: u64) -> Self {
        PreflightScratch { limits, admitted_live_bytes, live_bytes: 0, peak_bytes: 0 }
    }

    /// A pass with nothing reserved yet.
    pub fn new(limits: &CompileLimits, admitted_live_bytes: u64) -> (r: Self)
        ensures
            r == Self::fresh(*limits, admitted_live_bytes),
            r.spec_limits() == *limits,
            r.admitted() == admitted_live_bytes,
            r.live() == 0,
            r.peak() == 0,
            r.wf(),
    {
        PreflightScratch { limits: *limits, admitted_live_bytes, live_bytes: 0, peak_bytes: 0 }
    }

    /// The limit profile.
    pub fn limits(&self) -> (r: &CompileLimits)
        ensures
            *r == self.spec_limits(),
    {
        &self.limits
    }

    /// The largest simultaneous reservation so far.
    pub fn peak_bytes(&self) -> (r: u64)
        ensures
            r == self.peak(),
            peak_within_limits(self.spec_limits(), self.admitted(), r),
    {
        proof {
            use_type_invariant(self);
        }
        self.peak_bytes
    }

    /// The bytes currently reserved.
    pub fn live_bytes(&self) -> (r: u64)
        ensures
            r == self.live(),
    {
        self.live_bytes
    }

    /// Reserves room for `count` values of `T`, before anything is read or
    /// allocated; on failure nothing changes.
    pub fn reserve<T>(&mut self, count: usize) -> (r: Result<u64, DiagnosticBundle>)
        ensures
            old(self).wf(),
            final(self).spec_limits() == old(self).spec_limits(),
            final(self).admitted() == old(self).admitted(),
            match scratch_request(
                old(self).spec_limits(),
                old(self).admitted(),
                old(self).live(),
                count * vstd::layout::size_of::<T>(),
            ) {
                Ok(live) => r == Ok::<u64, DiagnosticBundle>((count * vstd::layout::size_of::<T>()) as u64)
                    && final(self).live() == live && final(self).peak() == (if live > old(self).peak() {
                    live
                } else {
                    old(self).peak()
                }),
                Err((d, l, o)) => r matches Err(b) && b.is_limit_error(d, l, o) && final(self).live()
                    == old(self).live() && final(self).peak() == old(self).peak(),
            },
            old(self).wf() ==> final(self).wf(),
    {
        proof {
            use_type_invariant(&*self);
        }
        let stage_limit = self.limits.value(CompileLimitDimension::StageScratchBytes);
        let element = core::mem::size_of::<T>();
        let bytes = match count.checked_mul(element) {
            Some(b) => b,
            None => {
                return Err(limit_error(CompileLimitDimension::StageScratchBytes, stage_limit, u64::MAX));
            },
        };
        if bytes > isize::MAX as usize {
            return Err(limit_error(CompileLimitDimension::StageScratchBytes, stage_limit, u64::MAX));
        }
        let bytes = bytes as u64;
        let live = match self.live_bytes.checked_add(bytes) {
            Some(l) => l,
            None => {
                return Err(limit_error(CompileLimitDimension::StageScratchBytes, stage_limit, u64::MAX));
            },
        };
        if live > stage_limit {
            return Err(limit_error(CompileLimitDimension::StageScratchBytes, stage_limit, live));
        }
        let live_limit = self.limits.value(CompileLimitDimension::CompilerControlledLiveBytes);
        let total = match self.admitted_live_bytes.checked_add(live) {
            Some(t) => t,
            None => {
                return Err(
                    limit_error(CompileLimitDimension::CompilerControlledLiveBytes, live_limit, u64::MAX),
                );
            },
        };
        if total > live_limit {
            return Err(limit_error(CompileLimitDimension::CompilerControlledLiveBytes, live_limit, total));
        }
        proof {
            use_type_invariant(&*self);
        }
        let peak = if live > self.peak_bytes {
            live
        } else {
            self.peak_bytes
        };
        *self = PreflightScratch {
            limits: self.limits,
            admitted_live_bytes: self.admitted_live_bytes,
            live_bytes: live,
            peak_bytes: peak,
        };
        Ok(bytes)
    }

    /// Returns a reservation of `bytes` made by [`Self::reserve`] in this
    /// pass.
    pub(crate) fn release(&mut self, bytes: u64)
        requires
            old(self).live() >= bytes,
        ensures
            final(self).live() == old(self).live() - bytes,
            final(self).peak() == old(self).peak(),
            final(self).spec_limits() == old(self).spec_limits(),
            final(self).admitted() == old(self).admitted(),
            old(self).wf() ==> final(self).wf(),
    {
        proof {
            use_type_invariant(&*self);
        }
        self.live_bytes = self.live_bytes - bytes;
    }

    /// Reserves room for a copy of `values` and makes the copy.
    pub fn collect<T: Copy>(&mut self, values: &[T]) -> (r: Result<ScratchVec<T>, DiagnosticBundle>)
        ensures
            old(self).wf(),
            final(self).spec_limits() == old(self).spec_limits(),
            final(self).admitted() == old(self).admitted(),
            match scratch_request(
                old(self).spec_limits(),
                old(self).admitted(),
                old(self).live(),
                (values@.len() * vstd::layout::size_of::<T>()) as int,
            ) {
                Ok(live) => r matches Ok(v) && v@ == values@ && v.held() == (values@.len()
                    * vstd::layout::size_of::<T>()) as u64 && granted(*old(self), *final(self), live),
                Err((d, l, o)) => r matches Err(b) && b.is_limit_error(d, l, o) && final(self).live()
                    == old(self).live() && final(self).peak() == old(self).peak(),
            },
            old(self).wf() ==> final(self).wf(),
    {
        let bytes = self.reserve::<T>(values.len())?;
        let mut entries: Vec<T> = Vec::new();
        let mut i: usize = 0;
        while i < values.len()
            invariant
                i <= values@.len(),
                entries@ == values@.take(i as int),
            decreases values@.len() - i,
        {
            entries.push(values[i]);
            proof {
                assert(values@.take(i + 1) =~= values@.take(i as int).push(values@[i as int]));
            }
            i = i + 1;
        }
        proof {
            assert(values@.take(values@.len() as int) =~= values@);
        }
        Ok(ScratchVec { entries, bytes })
    }

    /// Reserves room for `count` values of `T` and hands out an empty vector
    /// held under that reservation; on failure nothing changes.
    pub fn reserve_vec<T>(&mut self, count: usize) -> (r: Result<ScratchVec<T>, DiagnosticBundle>)
        ensures
            old(self).wf(),
            final(self).spec_limits() == old(self).spec_limits(),
            final(self).admitted() == old(self).admitted(),
            match scratch_request(
                old(self).spec_limits(),
                old(self).admitted(),
                old(self).live(),
                count * vstd::layout::size_of::<T>(),
            ) {
                Ok(live) => r matches Ok(v) && v@ == Seq::<T>::empty() && v.held() == (count
                    * vstd::layout::size_of::<T>()) as u64 && granted(*old(self), *final(self), live),
                Err((d, l, o)) => r matches Err(b) && b.is_limit_error(d, l, o) && final(self).live()
                    == old(self).live() && final(self).peak() == old(self).peak(),
            },
            old(self).wf() ==> final(self).wf(),
    {
        let bytes = self.reserve::<T>(count)?;
        Ok(ScratchVec { entries: Vec::new(), bytes })
    }

    /// Releases the reservation of `v`.
    pub fn release_vec<T>(&mut self, v: ScratchVec<T>)
        requires
            old(self).live() >= v.held(),
        ensures
            final(self).live() == old(self).live() - v.held(),
            final(self).peak() == old(self).peak(),
            final(self).spec_limits() == old(self).spec_limits(),
            final(self).admitted() == old(self).admitted(),
    {
        let bytes = v.bytes();
        self.release(bytes);
    }
}

/// What [`PreflightScratch::after_grant`] is, seen through the accessors.
pub proof fn lemma_after_grant(s: PreflightScratch, live: u64)
    ensures
        granted(s, s.after_grant(live), live),
{
}

/// Reserving room and returning it leaves the live total where it was.
pub proof fn law_reserve_release_restores_live(
    limits: CompileLimits,
    admitted: u64,
    live: u64,
    requested: int,
)
    requires
        0 <= requested,
        scratch_request(limits, admitted, live, requested) is Ok,
    ensures
        scratch_request(limits, admitted, live, requested)->Ok_0 - requested == live,
{
}

/// A granted request never takes the live total above the stage scratch limit,
/// nor, together with the admitted bytes, above the live-byte limit.
pub proof fn law_granted_request_within_limits(
    limits: CompileLimits,
    admitted: u64,
    live: u64,
    requested: int,
)
    requires
        0 <= requested,
        scratch_request(limits, admitted, live, requested) is Ok,
    ensures
        scratch_request(limits, admitted, live, requested)->Ok_0 <= limits.spec_value(
            CompileLimitDimension::StageScratchBytes,
        ),
        admitted + scratch_request(limits, admitted, live, requested)->Ok_0 <= limits.spec_value(
            CompileLimitDimension::CompilerControlledLiveBytes,
        ),
{
}

/// The single limit diagnostic.
pub fn limit_error(dimension: CompileLimitDimension, limit: u64, observed: u64) -> (r: DiagnosticBundle)
    ensures
        r.is_limit_error(dimension, limit, observed),
{
    DiagnosticBundle::single(Diagnostic::compile_limit_exceeded(dimension, limit, observed))
}

} // verus!
