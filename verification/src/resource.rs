//! Memory budgets, counted in units of one mebibyte.

use vstd::prelude::*;

use crate::number::{at_least, at_most, decimal, decimal_of, max_u64, min_u64, saturating_mul_u64};
use crate::status::{answers, status_of, Code, Status, StatusView};

verus! {

pub const MEMORY_UNIT_BYTES: u64 = 1024 * 1024;

/// How long to wait for a permit.
#[derive(Clone, Copy, Debug, PartialEq, Eq, Structural)]
pub enum PermitRequest {
    /// Not at all.
    Immediate,
    /// At most this many milliseconds.
    Within(u64),
}

/// What became of a request for a permit.
#[derive(Debug)]
pub enum PermitOutcome {
    Acquired,
    NoPermits,
    TimedOut,
    Closed(String),
}

/// How long to wait, where no waiting is written as zero.
pub open spec fn request_of(wait_ms: u64) -> PermitRequest {
    if wait_ms == 0 {
        PermitRequest::Immediate
    } else {
        PermitRequest::Within(wait_ms)
    }
}

/// How long to wait, where no waiting is written as zero.
pub fn permit_request(wait_ms: u64) -> (r: PermitRequest)
    ensures
        r == request_of(wait_ms),
{
    if wait_ms == 0 {
        PermitRequest::Immediate
    } else {
        PermitRequest::Within(wait_ms)
    }
}

/// The state of a memory budget.
#[derive(Clone, Copy, Debug)]
pub struct ResourceLimiter {
    pub active_units: u64,
    pub unit_bytes: u64,
    pub total_units: u32,
}

/// Units that were taken out of a budget.
#[derive(Debug)]
pub struct ResourcePermit {
    pub units: u32,
}

/// The units that hold `bytes`: rounded up, between one and the greatest 32-bit number.
pub open spec fn units_of(bytes: nat) -> int {
    at_least(
        at_most(
            at_most(bytes + (MEMORY_UNIT_BYTES - 1), u64::MAX as int) / (MEMORY_UNIT_BYTES as int),
            u32::MAX as int,
        ),
        1,
    )
}

/// The units that hold `bytes`.
pub fn units_for(bytes: u64) -> (r: u32)
    ensures
        r == units_of(bytes as nat),
{
    let units: u64 = bytes.saturating_add(MEMORY_UNIT_BYTES - 1) / MEMORY_UNIT_BYTES;
    max_u64(min_u64(units, 0xffff_ffff), 1) as u32
}

impl ResourceLimiter {
    /// A budget with at least one unit, of which no more is in use than there is.
    pub open spec fn well_formed(self) -> bool {
        &&& self.unit_bytes == MEMORY_UNIT_BYTES
        &&& 1 <= self.total_units
        &&& self.active_units <= self.total_units
    }

    /// The bytes of the whole budget.
    pub open spec fn total_of(self) -> int {
        at_most(self.total_units * self.unit_bytes, u64::MAX as int)
    }

    /// The bytes in use, at most all of them.
    pub open spec fn active_of(self) -> int {
        at_most(at_most(self.active_units * self.unit_bytes, u64::MAX as int), self.total_of())
    }

    /// How many streams of a size fit into what is free.
    pub open spec fn streams_of(self, stream_memory_bytes: nat) -> int {
        at_most(
            (self.total_of() - self.active_of()) / at_least(stream_memory_bytes as int, 1),
            usize::MAX as int,
        )
    }

    /// The units that a reservation of `bytes` takes: never more than there are, so that every
    /// reservation can be met some day.
    pub open spec fn units_taken(self, bytes: nat) -> int {
        at_least(at_most(units_of(bytes), self.total_units as int), 1)
    }

    /// A budget of `total_bytes`, rounded up to whole units, with nothing in use.
    pub fn new(total_bytes: u64) -> (r: ResourceLimiter)
        ensures
            r == (ResourceLimiter {
                active_units: 0,
                unit_bytes: MEMORY_UNIT_BYTES,
                total_units: units_of(total_bytes as nat) as u32,
            }),
            r.well_formed(),
    {
        ResourceLimiter {
            active_units: 0,
            unit_bytes: MEMORY_UNIT_BYTES,
            total_units: units_for(total_bytes),
        }
    }

    pub fn total_bytes(&self) -> (r: u64)
        ensures
            r == self.total_of(),
    {
        saturating_mul_u64(self.total_units as u64, self.unit_bytes)
    }

    pub fn active_bytes(&self) -> (r: u64)
        ensures
            r == self.active_of(),
    {
        min_u64(saturating_mul_u64(self.active_units, self.unit_bytes), self.total_bytes())
    }

    pub fn available_bytes(&self) -> (r: u64)
        ensures
            r == self.total_of() - self.active_of(),
    {
        self.total_bytes().saturating_sub(self.active_bytes())
    }

    /// How many streams of a size fit into what is free.
    pub fn available_streams(&self, stream_memory_bytes: u64) -> (r: usize)
        ensures
            r == self.streams_of(stream_memory_bytes as nat),
    {
        let streams: u64 = self.available_bytes() / max_u64(stream_memory_bytes, 1);
        if streams > usize::MAX as u64 {
            usize::MAX
        } else {
            streams as usize
        }
    }

    /// The units to ask for.
    pub fn reserve_units(&self, bytes: u64) -> (r: u32)
        ensures
            r == self.units_taken(bytes as nat),
    {
        let wanted: u32 = units_for(bytes);
        let capped: u32 = if wanted > self.total_units {
            self.total_units
        } else {
            wanted
        };
        if capped < 1 {
            1
        } else {
            capped
        }
    }

    /// Why a reservation is refused.
    pub open spec fn reserve_refusal(
        self,
        bytes: nat,
        operation: Seq<char>,
        outcome: PermitOutcome,
    ) -> Option<StatusView> {
        match outcome {
            PermitOutcome::Acquired => None,
            PermitOutcome::NoPermits => Some(
                status_of(
                    Code::ResourceExhausted,
                    operation + " worker has no free memory budget; requested_bytes="@ + decimal_of(
                        at_most(
                            self.units_taken(bytes) * self.unit_bytes,
                            u64::MAX as int,
                        ) as nat,
                    ),
                ),
            ),
            PermitOutcome::TimedOut => Some(
                status_of(
                    Code::ResourceExhausted,
                    "timed out waiting for "@ + operation + " memory budget"@,
                ),
            ),
            PermitOutcome::Closed(words) => Some(status_of(Code::Internal, words@)),
        }
    }

    /// The budget after units were taken.
    pub open spec fn after_reserve(self, units: u32) -> ResourceLimiter {
        ResourceLimiter { active_units: self.active_units.wrapping_add(units as u64), ..self }
    }

    /// The budget after units were given back.
    pub open spec fn after_release(self, units: u32) -> ResourceLimiter {
        ResourceLimiter { active_units: self.active_units.wrapping_sub(units as u64), ..self }
    }

    /// Takes the units of `bytes` into use once the permit for them was acquired.
    pub fn reserve(&mut self, bytes: u64, operation: &str, outcome: PermitOutcome) -> (r: Result<
        ResourcePermit,
        Status,
    >)
        ensures
            answers(
                r,
                old(self).reserve_refusal(bytes as nat, operation@, outcome),
                |permit: ResourcePermit| permit.units == old(self).units_taken(bytes as nat),
            ),
            r is Err ==> *final(self) == *old(self),
            r matches Ok(permit) ==> *final(self) == old(self).after_reserve(permit.units),
    {
        let units: u32 = self.reserve_units(bytes);
        match outcome {
            PermitOutcome::Acquired => {
                self.active_units = self.active_units.wrapping_add(units as u64);
                Ok(ResourcePermit { units })
            },
            PermitOutcome::NoPermits => {
                let mut message = operation.to_owned();
                message.append(" worker has no free memory budget; requested_bytes=");
                let requested: u64 = saturating_mul_u64(units as u64, self.unit_bytes);
                message.append(decimal(requested as u128).as_str());
                Err(Status::new(Code::ResourceExhausted, message))
            },
            PermitOutcome::TimedOut => {
                let mut message = "timed out waiting for ".to_owned();
                message.append(operation);
                message.append(" memory budget");
                Err(Status::new(Code::ResourceExhausted, message))
            },
            PermitOutcome::Closed(words) => Err(Status::new(Code::Internal, words)),
        }
    }

    /// Gives the units of a permit back.
    pub fn release(&mut self, permit: ResourcePermit)
        ensures
            *final(self) == old(self).after_release(permit.units),
    {
        self.active_units = self.active_units.wrapping_sub(permit.units as u64);
    }
}

/// Giving a permit back undoes the reservation that it came from.
pub proof fn law_release_undoes_reserve(limiter: ResourceLimiter, units: u32)
    ensures
        limiter.active_units.wrapping_add(units as u64).wrapping_sub(units as u64)
            == limiter.active_units,
{
}

/// While permits are handed out only for free units, no more than the budget is ever in use, and
/// free and used bytes add up to the budget.
pub proof fn law_budget_is_kept(limiter: ResourceLimiter, units: u32)
    requires
        limiter.well_formed(),
        units <= limiter.total_units - limiter.active_units,
    ensures
        (ResourceLimiter {
            active_units: limiter.active_units.wrapping_add(units as u64),
            ..limiter
        }).well_formed(),
        limiter.active_of() == limiter.active_units * MEMORY_UNIT_BYTES,
        limiter.total_of() == limiter.total_units * MEMORY_UNIT_BYTES,
        0 <= limiter.active_of() <= limiter.total_of(),
{
}

/// The units of a reservation hold its bytes, and one unit less would not: bytes are rounded up to
/// whole mebibytes, and even none take one.
pub proof fn law_units_hold_the_bytes(bytes: u64)
    requires
        bytes <= 0xffff_ffff * 0x10_0000,
    ensures
        units_of(bytes as nat) >= 1,
        units_of(bytes as nat) * 0x10_0000 >= bytes,
        bytes > 0 ==> (units_of(bytes as nat) - 1) * 0x10_0000 < bytes,
{
}

/// A reservation takes the units of its bytes where the budget has so many, all of the budget where
/// it has fewer, and never none. A larger one never takes fewer.
pub proof fn law_reservation_is_capped(limiter: ResourceLimiter, bytes: nat, more: nat)
    requires
        limiter.total_units >= 1,
        bytes <= more,
    ensures
        1 <= limiter.units_taken(bytes) <= limiter.total_units,
        units_of(bytes) <= limiter.total_units ==> limiter.units_taken(bytes) == units_of(bytes),
        units_of(bytes) > limiter.total_units ==> limiter.units_taken(bytes)
            == limiter.total_units,
        limiter.units_taken(bytes) <= limiter.units_taken(more),
{
}

/// A permit for memory is had exactly where it was acquired. Memory that is not free, or did not
/// become free in time, is refused as exhausted.
pub proof fn law_memory_refusals(
    limiter: ResourceLimiter,
    bytes: nat,
    operation: Seq<char>,
    outcome: PermitOutcome,
)
    ensures
        limiter.reserve_refusal(bytes, operation, outcome) is None <==> outcome is Acquired,
        outcome is NoPermits || outcome is TimedOut ==> (limiter.reserve_refusal(
            bytes,
            operation,
            outcome,
        ) matches Some(status) && status.code == Code::ResourceExhausted),
        outcome matches PermitOutcome::Closed(words) ==> limiter.reserve_refusal(
            bytes,
            operation,
            outcome,
        ) == Some(status_of(Code::Internal, words@)),
{
}

/// As many streams fit as free bytes cover, and no more: one more would need more than is free.
pub proof fn law_streams_that_fit(limiter: ResourceLimiter, stream_memory_bytes: u64)
    requires
        limiter.well_formed(),
        stream_memory_bytes >= 1,
        limiter.total_units * 0x10_0000 <= usize::MAX,
    ensures
        ({
            let streams = limiter.streams_of(stream_memory_bytes as nat);
            let free = (limiter.total_units - limiter.active_units) * 0x10_0000;
            0 <= streams && streams * stream_memory_bytes <= free < (streams + 1)
                * stream_memory_bytes
        }),
{
    let size = stream_memory_bytes as int;
    let free = (limiter.total_units - limiter.active_units) * 0x10_0000;
    law_budget_is_kept(limiter, 0);
    assert(free == limiter.total_of() - limiter.active_of());
    let streams = free / size;
    assert(0 <= streams && streams * size <= free < (streams + 1) * size && streams <= free)
        by (nonlinear_arith)
        requires
            free >= 0,
            size >= 1,
            streams == free / size,
    ;
}

/// Taking units raises what is in use by their bytes and giving them back lowers it by as much, and
/// neither changes the budget.
pub proof fn law_memory_in_use(limiter: ResourceLimiter, units: u32)
    requires
        limiter.well_formed(),
    ensures
        limiter.active_units + units <= limiter.total_units ==> limiter.after_reserve(
            units,
        ).active_of() == limiter.active_of() + units * 0x10_0000,
        units <= limiter.active_units ==> limiter.after_release(units).active_of()
            == limiter.active_of() - units * 0x10_0000,
        limiter.after_reserve(units).total_of() == limiter.total_of(),
        limiter.after_release(units).total_of() == limiter.total_of(),
        limiter.after_reserve(units).after_release(units) == limiter,
{
}

}
