//! Spans of time and where the service reads the time from.

use vstd::prelude::*;

verus! {

/// Nanoseconds in one second.
pub const NANOS_PER_SEC: u32 = 1_000_000_000;

/// A span of time with nanosecond resolution.
#[derive(Debug, Clone, Copy, PartialEq, Eq, Hash, Structural)]
pub struct Duration {
    nanos: u128,
}

impl View for Duration {
    type V = nat;

    /// Length of the span in nanoseconds.
    closed spec fn view(&self) -> nat {
        self.nanos as nat
    }
}

/// What is left of a number of nanoseconds when it is stored in 64 bits.
pub open spec fn low_64_bits(nanos: nat) -> nat {
    nanos % 0x1_0000_0000_0000_0000
}

/// The time a number of nanoseconds after `time_ns`, or the latest time there is.
pub open spec fn time_after(time_ns: u64, nanos: nat) -> u64 {
    if time_ns + nanos <= u64::MAX {
        (time_ns + nanos) as u64
    } else {
        u64::MAX
    }
}

/// The text of a span of `secs` seconds and `nanos` nanoseconds.
pub uninterp spec fn duration_text(secs: u64, nanos: u32) -> Seq<char>;

/// Formats a span of time with the `Debug` implementation of [`std::time::Duration`], without any
/// formatting parameter. Trusted: the text depends on the number of seconds and nanoseconds alone
/// (as `1.5s` or `20ns` do).
#[verifier::external_body]
fn format_duration(secs: u64, nanos: u32) -> (text: String)
    requires
        nanos < NANOS_PER_SEC,
    ensures
        text@ == duration_text(secs, nanos),
{
    format!("{:?}", std::time::Duration::new(secs, nanos))
}

impl Duration {
    /// Whole seconds and the remaining nanoseconds never exceed what 64 bits of seconds hold.
    #[verifier::type_invariant]
    spec fn in_range(self) -> bool {
        self.nanos < 0x1_0000_0000_0000_0000 * NANOS_PER_SEC
    }

    /// The text of this span.
    pub open spec fn text(self) -> Seq<char> {
        duration_text((self@ / NANOS_PER_SEC as nat) as u64, (self@ % NANOS_PER_SEC as nat) as u32)
    }

    /// A span of `secs` seconds and `nanos` nanoseconds.
    pub fn new(secs: u64, nanos: u32) -> (span: Duration)
        requires
            secs + nanos / NANOS_PER_SEC <= u64::MAX,
        ensures
            span@ == secs * NANOS_PER_SEC + nanos,
    {
        assert(secs * NANOS_PER_SEC <= u64::MAX * NANOS_PER_SEC) by (nonlinear_arith)
            requires
                secs <= u64::MAX,
        ;
        Duration { nanos: secs as u128 * NANOS_PER_SEC as u128 + nanos as u128 }
    }

    /// A span of whole seconds.
    pub fn from_secs(secs: u64) -> (span: Duration)
        ensures
            span@ == secs * NANOS_PER_SEC,
    {
        Duration::new(secs, 0)
    }

    /// A span of nanoseconds.
    pub fn from_nanos(nanos: u64) -> (span: Duration)
        ensures
            span@ == nanos,
    {
        Duration { nanos: nanos as u128 }
    }

    /// Length of the span in nanoseconds.
    pub fn as_nanos(&self) -> (nanos: u128)
        ensures
            nanos == self@,
    {
        self.nanos
    }

    /// Length of the span in nanoseconds, of which only the low 64 bits are kept.
    pub fn as_nanos_64(&self) -> (nanos: u64)
        ensures
            nanos == low_64_bits(self@),
    {
        let nanos: u128 = self.nanos;
        assert(#[verifier::truncate] (nanos as u64) == nanos % 0x1_0000_0000_0000_0000)
            by (bit_vector);
        #[verifier::truncate]
        (nanos as u64)
    }

    /// Whole seconds of the span.
    pub fn as_secs(&self) -> (secs: u64)
        ensures
            secs == self@ / NANOS_PER_SEC as nat,
    {
        proof {
            use_type_invariant(self);
        }
        (self.nanos / NANOS_PER_SEC as u128) as u64
    }

    /// Nanoseconds of the span beyond its whole seconds.
    pub fn subsec_nanos(&self) -> (nanos: u32)
        ensures
            nanos == self@ % NANOS_PER_SEC as nat,
    {
        (self.nanos % NANOS_PER_SEC as u128) as u32
    }

    /// The span as a text such as `1.5s`.
    pub fn to_text(&self) -> (text: String)
        ensures
            text@ == self.text(),
    {
        format_duration(self.as_secs(), self.subsec_nanos())
    }
}

/// Where the service reads the current time from.
pub trait TimeSource {
    /// `time_ns` is a time that [`TimeSource::current_time_nanos`] may show. The relation is the
    /// implementation's own: it admits everything unless that says more.
    open spec fn shows(&self, time_ns: u64) -> bool {
        true
    }

    /// Current time in nanoseconds.
    fn current_time_nanos(&self) -> (time_ns: u64)
        ensures
            self.shows(time_ns),
    ;
}

/// Decides how long a connection may live before the service disconnects it.
pub trait TtlSupplier {
    /// `ttl` is a time to live that [`TtlSupplier::ttl`] may hand out. The relation is the
    /// implementation's own: it admits everything unless that says more.
    open spec fn supplies(&self, ttl: Duration) -> bool {
        true
    }

    /// Time to live of the next connection, or of the next extension of one.
    fn ttl(&self) -> (ttl: Duration)
        ensures
            self.supplies(ttl),
    ;
}

/// A closure that supplies a time to live.
pub struct TtlFn<F: Fn() -> Duration> {
    supplier: F,
}

impl<F: Fn() -> Duration> TtlFn<F> {
    /// The closure can be called.
    #[verifier::type_invariant]
    spec fn callable(&self) -> bool {
        call_requires(self.supplier, ())
    }

    /// The closure that supplies the time to live.
    pub closed spec fn closure(self) -> F {
        self.supplier
    }

    /// Supplies what the closure returns.
    pub fn new(supplier: F) -> (ttl_fn: TtlFn<F>)
        requires
            call_requires(supplier, ()),
        ensures
            ttl_fn.closure() == supplier,
    {
        TtlFn { supplier }
    }
}

impl<F: Fn() -> Duration> TtlSupplier for TtlFn<F> {
    open spec fn supplies(&self, ttl: Duration) -> bool {
        call_ensures(self.closure(), (), ttl)
    }

    fn ttl(&self) -> (ttl: Duration) {
        proof {
            use_type_invariant(self);
        }
        (self.supplier)()
    }
}

} // verus!
