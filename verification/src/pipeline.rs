//! The sampling and publish pipeline's pure parts: the per-slot retry
//! policy for a flaky sensor, the fixed-capacity window of readings,
//! its rounded mean, and the decimal payload handed to the wire codec.
//!
//! Readings enter as integer milliwatts; the mean is published as a
//! whole number of watts, rounded to nearest with halves rounded up.

use vstd::prelude::*;
use vstd::string::StringSliceAdditionalSpecFns;
use crate::mqtt;

verus! {

/// How many readings make one published window.
pub const SAMPLES_PER_PUBLISH: usize = 15;

/// How many read attempts one sample slot allows before the sensor
/// counts as failed.
pub const MAX_SAMPLE_ATTEMPTS: u8 = 5;

/// Retry state for one sample slot.
pub struct SampleRetry {
    /// Failed read attempts so far in this slot.
    pub failures: u8,
}

impl SampleRetry {
    /// A fresh slot has seen no failure.
    pub fn new() -> (r: SampleRetry)
        ensures
            r.failures == 0,
    {
        SampleRetry { failures: 0 }
    }

    /// Records a failed read attempt. While the attempt count stays
    /// within the ceiling the slot is retried, after best-effort
    /// recovery probes; the attempt past the ceiling escalates to a
    /// full reconnect instead, and exactly then.
    pub fn record_failure(&mut self) -> (escalate: bool)
        requires
            old(self).failures <= MAX_SAMPLE_ATTEMPTS,
        ensures
            final(self).failures == old(self).failures + 1,
            escalate <==> final(self).failures > MAX_SAMPLE_ATTEMPTS,
    {
        self.failures = self.failures + 1;
        self.failures > MAX_SAMPLE_ATTEMPTS
    }
}

/// The sum of a window's readings.
pub open spec fn spec_sum(s: Seq<u32>) -> int
    decreases s.len(),
{
    if s.len() == 0 {
        0
    } else {
        s[0] + spec_sum(s.drop_first())
    }
}

/// The window's mean in whole watts, rounded to nearest with halves
/// rounded up, for readings in milliwatts.
pub open spec fn spec_mean_watts(s: Seq<u32>) -> int
    recommends
        s.len() > 0,
{
    (spec_sum(s) + 500 * s.len()) / (1000 * s.len() as int)
}

/// The decimal digits of a number, most significant first.
pub open spec fn spec_decimal(n: int) -> Seq<u8>
    decreases n,
{
    if n < 10 {
        seq![(0x30 + n) as u8]
    } else {
        spec_decimal(n / 10) + seq![(0x30 + n % 10) as u8]
    }
}

/// An ordered window of readings in milliwatts, of fixed capacity,
/// cleared after each publish.
pub struct SampleWindow {
    samples: Vec<u32>,
}

impl View for SampleWindow {
    type V = Seq<u32>;

    closed spec fn view(&self) -> Seq<u32> {
        self.samples@
    }
}

impl SampleWindow {
    /// A fresh window is empty.
    pub fn new() -> (w: SampleWindow)
        ensures
            w@ == Seq::<u32>::empty(),
    {
        SampleWindow { samples: Vec::new() }
    }

    /// How many readings the window holds.
    pub fn len(&self) -> (n: usize)
        ensures
            n == self@.len(),
    {
        self.samples.len()
    }

    /// Whether the window holds a full publish period of readings.
    pub fn is_full(&self) -> (full: bool)
        ensures
            full <==> self@.len() >= SAMPLES_PER_PUBLISH,
    {
        self.samples.len() >= SAMPLES_PER_PUBLISH
    }

    /// Appends one reading, in milliwatts.
    pub fn push(&mut self, reading_mw: u32)
        requires
            old(self)@.len() < SAMPLES_PER_PUBLISH,
        ensures
            final(self)@ == old(self)@.push(reading_mw),
    {
        self.samples.push(reading_mw);
    }

    /// Discards every reading; the window is reset unconditionally
    /// after each publish attempt, successful or not.
    pub fn clear(&mut self)
        ensures
            final(self)@ == Seq::<u32>::empty(),
    {
        self.samples.clear();
    }

    /// The mean of the readings in whole watts, rounded to nearest.
    pub fn mean_watts(&self) -> (w: u64)
        requires
            1 <= self@.len() <= SAMPLES_PER_PUBLISH,
        ensures
            w == spec_mean_watts(self@),
    {
        let n: usize = self.samples.len();
        let mut sum: u64 = 0;
        let mut i: usize = 0;
        while i < n
            invariant
                i <= n == self@.len() <= SAMPLES_PER_PUBLISH,
                self@ == self.samples@,
                sum == spec_sum(self@.subrange(0, i as int)),
                sum <= i * 0xFFFF_FFFF,
            decreases n - i,
        {
            proof {
                lemma_sum_push(self@.subrange(0, i as int), self@[i as int]);
                assert(self@.subrange(0, i as int + 1) =~= self@.subrange(0, i as int).push(
                    self@[i as int],
                ));
            }
            sum = sum + self.samples[i] as u64;
            i += 1;
        }
        proof {
            assert(self@.subrange(0, n as int) =~= self@);
        }
        (sum + 500 * (n as u64)) / (1000 * (n as u64))
    }

    /// The payload published for this window: the mean in whole
    /// watts, rendered in decimal.
    pub fn mean_payload(&self) -> (s: String)
        requires
            1 <= self@.len() <= SAMPLES_PER_PUBLISH,
        ensures
            vstd::utf8::encode_utf8(s@) == spec_decimal(spec_mean_watts(self@)),
    {
        let w: u64 = self.mean_watts();
        let mut digits: Vec<u8> = Vec::new();
        push_decimal(w, &mut digits);
        proof {
            assert(digits@ =~= spec_decimal(w as int));
        }
        ascii_string(digits)
    }
}

/// A window of identical readings averages to that reading's nearest
/// whole watt: what the relay publishes for a steady sensor does not
/// depend on how many readings the window held.
pub proof fn lemma_mean_of_constant(s: Seq<u32>, mw: u32)
    requires
        s.len() >= 1,
        forall|i: int| 0 <= i < s.len() ==> s[i] == mw,
    ensures
        spec_mean_watts(s) == (mw + 500) / 1000,
{
    lemma_sum_of_constant(s, mw);
    let n = s.len() as int;
    let a = mw as int + 500;
    let q = a / 1000;
    let r = a % 1000;
    vstd::arithmetic::div_mod::lemma_fundamental_div_mod(a, 1000);
    vstd::arithmetic::div_mod::lemma_mod_bound(a, 1000);
    // scaling the numerator and the divisor by the window length
    // leaves the quotient alone
    assert(spec_sum(s) + 500 * n == q * (1000 * n) + n * r) by (nonlinear_arith)
        requires
            spec_sum(s) == n * mw,
            a == 1000 * q + r,
            a == mw + 500,
    ;
    assert(0 <= n * r < 1000 * n) by (nonlinear_arith)
        requires
            n >= 1,
            0 <= r < 1000,
    ;
    vstd::arithmetic::div_mod::lemma_fundamental_div_mod_converse(
        spec_sum(s) + 500 * n,
        1000 * n,
        q,
        n * r,
    );
}

/// A window of identical readings sums to the reading scaled by the
/// window length.
proof fn lemma_sum_of_constant(s: Seq<u32>, mw: u32)
    requires
        forall|i: int| 0 <= i < s.len() ==> s[i] == mw,
    ensures
        spec_sum(s) == s.len() * mw,
    decreases s.len(),
{
    if s.len() == 0 {
        assert(spec_sum(s) == 0);
    } else {
        assert(forall|i: int|
            0 <= i < s.drop_first().len() ==> #[trigger] s.drop_first()[i] == s[i + 1]);
        lemma_sum_of_constant(s.drop_first(), mw);
        assert(mw + (s.len() - 1) * mw == s.len() * mw) by (nonlinear_arith);
    }
}

/// Appending a reading adds it to the sum.
proof fn lemma_sum_push(s: Seq<u32>, v: u32)
    ensures
        spec_sum(s.push(v)) == spec_sum(s) + v,
    decreases s.len(),
{
    if s.len() == 0 {
        assert(s.push(v) =~= seq![v]);
        assert(s.push(v).drop_first() =~= Seq::<u32>::empty());
        assert(spec_sum(Seq::<u32>::empty()) == 0);
        assert(s.push(v)[0] == v);
    } else {
        lemma_sum_push(s.drop_first(), v);
        assert(s.push(v).drop_first() =~= s.drop_first().push(v));
    }
}

/// Appends the decimal digits of a number, most significant first.
fn push_decimal(n: u64, out: &mut Vec<u8>)
    ensures
        final(out)@ == old(out)@ + spec_decimal(n as int),
        forall|i: int|
            old(out)@.len() <= i < final(out)@.len() ==> 0x30 <= #[trigger] final(out)@[i] <= 0x39,
    decreases n,
{
    if n < 10 {
        out.push(0x30 + (n as u8));
        proof {
            assert(out@ =~= old(out)@ + spec_decimal(n as int));
        }
    } else {
        push_decimal(n / 10, out);
        out.push(0x30 + ((n % 10) as u8));
        proof {
            assert(out@ =~= old(out)@ + spec_decimal(n as int));
        }
    }
}

/// Relies on String::from_utf8: the returned string wraps exactly the
/// given bytes, and bytes below 0x80 are their own characters.
#[verifier::external_body]
fn ascii_string(bytes: Vec<u8>) -> (s: String)
    requires
        forall|i: int| 0 <= i < bytes@.len() ==> bytes@[i] < 0x80,
    ensures
        vstd::utf8::encode_utf8(s@) == bytes@,
        s@.len() == bytes@.len(),
{
    String::from_utf8(bytes).unwrap_or_default()
}

/// Encodes the publish packet for a full window on the given topic:
/// the payload is the window's rounded mean in decimal. Fails with
/// `PacketTooLarge` exactly where the topic and payload together
/// overrun the single-byte remaining-length field.
pub fn encode_mean_publish(topic: &str, window: &SampleWindow) -> (r: Result<
    Vec<u8>,
    mqtt::DecodeError,
>)
    requires
        1 <= window@.len() <= SAMPLES_PER_PUBLISH,
    ensures
        ({
            let payload = spec_decimal(spec_mean_watts(window@));
            if mqtt::spec_publish_fits(topic.spec_bytes().len(), payload.len()) {
                r matches Ok(pkt) && pkt@ == mqtt::spec_publish_packet(topic.spec_bytes(), payload)
            } else {
                r == Err::<Vec<u8>, mqtt::DecodeError>(mqtt::DecodeError::PacketTooLarge)
            }
        }),
{
    let payload: String = window.mean_payload();
    mqtt::encode_publish(topic, payload.as_str())
}

} // verus!
