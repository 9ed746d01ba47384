//! Opaque runtime identifiers.
//!
//! They are not exposed on the wire, so their representation can change without
//! breaking a published contract.

use vstd::prelude::*;
use vstd::string::*;

use crate::text::{decimal, decimal_u64};

verus! {

/// Identifies a single inference request for its whole lifetime.
#[derive(Debug, Clone, Copy, PartialEq, Eq, PartialOrd, Ord, Hash, Structural)]
pub struct RequestId(u64);

/// Identifies a supervised backend worker process.
#[derive(Debug, Clone, Copy, PartialEq, Eq, PartialOrd, Ord, Hash, Structural)]
pub struct WorkerId(u64);

/// Identifies a model known to the runtime.
#[derive(Debug, Clone, Copy, PartialEq, Eq, PartialOrd, Ord, Hash, Structural)]
pub struct ModelId(u64);

/// An identifier in words: the prefix of its kind, a dash and its number.
pub open spec fn id_text(prefix: Seq<char>, raw: u64) -> Seq<char> {
    prefix + decimal(raw as nat)
}

impl View for RequestId {
    type V = u64;

    closed spec fn view(&self) -> u64 {
        self.0
    }
}

impl RequestId {
    /// Wraps a raw value. Prefer [`IdAllocator`] over calling this directly.
    pub fn from_raw(raw: u64) -> (id: Self)
        ensures
            id@ == raw,
    {
        RequestId(raw)
    }

    /// The underlying value.
    pub fn as_raw(self) -> (raw: u64)
        ensures
            raw == self@,
    {
        self.0
    }

    /// `req-` and the number.
    pub fn to_string(&self) -> (text: String)
        ensures
            text@ == id_text("req-"@, self@),
            text@ == "req-"@ + decimal(self@ as nat),
    {
        let mut text = "req-".to_owned();
        text.append(decimal_u64(self.0).as_str());
        text
    }
}

impl View for WorkerId {
    type V = u64;

    closed spec fn view(&self) -> u64 {
        self.0
    }
}

impl WorkerId {
    /// Wraps a raw value. Prefer [`IdAllocator`] over calling this directly.
    pub fn from_raw(raw: u64) -> (id: Self)
        ensures
            id@ == raw,
    {
        WorkerId(raw)
    }

    /// The underlying value.
    pub fn as_raw(self) -> (raw: u64)
        ensures
            raw == self@,
    {
        self.0
    }

    /// `wrk-` and the number.
    pub fn to_string(&self) -> (text: String)
        ensures
            text@ == id_text("wrk-"@, self@),
            text@ == "wrk-"@ + decimal(self@ as nat),
    {
        let mut text = "wrk-".to_owned();
        text.append(decimal_u64(self.0).as_str());
        text
    }
}

impl View for ModelId {
    type V = u64;

    closed spec fn view(&self) -> u64 {
        self.0
    }
}

impl ModelId {
    /// Wraps a raw value. Prefer [`IdAllocator`] over calling this directly.
    pub fn from_raw(raw: u64) -> (id: Self)
        ensures
            id@ == raw,
    {
        ModelId(raw)
    }

    /// The underlying value.
    pub fn as_raw(self) -> (raw: u64)
        ensures
            raw == self@,
    {
        self.0
    }

    /// `mdl-` and the number.
    pub fn to_string(&self) -> (text: String)
        ensures
            text@ == id_text("mdl-"@, self@),
            text@ == "mdl-"@ + decimal(self@ as nat),
    {
        let mut text = "mdl-".to_owned();
        text.append(decimal_u64(self.0).as_str());
        text
    }
}

/// Hands out identifiers, one counter for every kind.
///
/// Identifiers are unique within one daemon process. They are not stable across
/// restarts and must not be treated as durable references. The counter wraps after
/// the last 64-bit value.
#[derive(Debug)]
pub struct IdAllocator {
    next: u64,
}

impl View for IdAllocator {
    type V = u64;

    closed spec fn view(&self) -> u64 {
        self.next
    }
}

/// The counter after one more identifier.
pub open spec fn counter_after(next: u64) -> u64 {
    if next == u64::MAX {
        0
    } else {
        (next + 1) as u64
    }
}

/// The counter after `n` more identifiers.
pub open spec fn counter_after_many(next: u64, n: nat) -> u64
    decreases n,
{
    if n == 0 {
        next
    } else {
        counter_after(counter_after_many(next, (n - 1) as nat))
    }
}

/// The identifiers a new allocator hands out count up from one, whatever their
/// kinds, until the counter is exhausted.
pub proof fn identifiers_count_up_from_one(n: nat)
    requires
        n < u64::MAX,
    ensures
        counter_after_many(1, n) == n + 1,
    decreases n,
{
    if n > 0 {
        identifiers_count_up_from_one((n - 1) as nat);
    }
}

/// Each identifier is one more than the last, and after the last 64-bit value the counter
/// starts over from zero.
pub proof fn the_counter_goes_up_by_one_and_wraps(next: u64)
    ensures
        next < u64::MAX ==> counter_after(next) == next + 1,
        counter_after(u64::MAX) == 0,
{
}

/// No identifier is handed out twice, and none is zero, before the counter is
/// exhausted.
pub proof fn identifiers_do_not_repeat(m: nat, n: nat)
    requires
        m < n < u64::MAX,
    ensures
        counter_after_many(1, m) != counter_after_many(1, n),
        counter_after_many(1, m) != 0,
        counter_after_many(1, n) != 0,
{
    identifiers_count_up_from_one(m);
    identifiers_count_up_from_one(n);
}

impl IdAllocator {
    /// An allocator whose first identifier is `1`.
    ///
    /// Zero is skipped so that a zeroed identifier is never mistaken for one that
    /// was allocated.
    pub fn new() -> (allocator: Self)
        ensures
            allocator@ == 1,
    {
        IdAllocator { next: 1 }
    }

    fn next_raw(&mut self) -> (raw: u64)
        ensures
            raw == old(self)@,
            final(self)@ == counter_after(old(self)@),
    {
        let raw: u64 = self.next;
        self.next = self.next.wrapping_add(1);
        raw
    }

    /// Allocates the next request identifier.
    pub fn request(&mut self) -> (id: RequestId)
        ensures
            id@ == old(self)@,
            final(self)@ == counter_after(old(self)@),
    {
        RequestId::from_raw(self.next_raw())
    }

    /// Allocates the next worker identifier.
    pub fn worker(&mut self) -> (id: WorkerId)
        ensures
            id@ == old(self)@,
            final(self)@ == counter_after(old(self)@),
    {
        WorkerId::from_raw(self.next_raw())
    }

    /// Allocates the next model identifier.
    pub fn model(&mut self) -> (id: ModelId)
        ensures
            id@ == old(self)@,
            final(self)@ == counter_after(old(self)@),
    {
        ModelId::from_raw(self.next_raw())
    }
}

impl Default for IdAllocator {
    fn default() -> (allocator: IdAllocator)
        ensures
            allocator@ == 1,
    {
        IdAllocator::new()
    }
}

} // verus!
