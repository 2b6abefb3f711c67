use vstd::prelude::*;
use crate::clock::now_unix_seconds;
use crate::error::WalletError;
use crate::text::{contains_seq, contains_text};

verus! {

#[verifier::external_type_specification]
#[verifier::external_body]
pub struct ExJsonValue(serde_json::Value);

/// Relies on serde_json::Value::get and Value::as_u64: the field `key` of an object, when it
/// is a non-negative integer that fits u64. Nothing is stated of the value.
#[verifier::external_body]
fn json_u64_field(json: &serde_json::Value, key: &str) -> (r: Option<u64>) {
    json.get(key).and_then(serde_json::Value::as_u64)
}

/// Bytes of the fixed transaction fields: version, input count, output count, locktime.
pub const BASE_SIZE: usize = 10;

/// Bytes per input: previous hash, previous index, script length, script, sequence.
pub const INPUT_SIZE: usize = 73;

/// Bytes per output: value, script length, P2PKH script.
pub const OUTPUT_SIZE: usize = 34;

/// Bytes of the witness marker and flag.
pub const WITNESS_MARKER_SIZE: usize = 2;

/// Witness bytes per input: stack item count and signature with public key.
pub const WITNESS_INPUT_SIZE: usize = 73;

/// The size in bytes that a transaction of this shape is reckoned to take.
pub open spec fn transaction_size(inputs: nat, outputs: nat, has_witness: bool) -> nat {
    (BASE_SIZE + INPUT_SIZE * inputs + OUTPUT_SIZE * outputs + if has_witness {
        WITNESS_MARKER_SIZE + WITNESS_INPUT_SIZE * inputs
    } else {
        0
    }) as nat
}

/// Fee rates in satoshis per byte, sampled at a Unix time in seconds.
#[derive(Debug, Clone, Copy, PartialEq, Eq)]
pub struct FeeEstimate {
    pub slow: u64,
    pub medium: u64,
    pub fast: u64,
    pub timestamp: i64,
}

/// A quote: the chosen rate, the fee for a size, and a rough time to confirm.
#[derive(Debug)]
pub struct TransactionFee {
    pub fee_rate: u64,
    pub total_fee: u64,
    pub estimated_time: String,
}

#[derive(Debug, Clone, Copy, PartialEq, Eq)]
pub enum FeeRate {
    Slow,
    Medium,
    Fast,
    Custom(u64),
}

#[derive(Debug, Clone, Copy, PartialEq, Eq)]
pub enum Priority {
    Low,
    Normal,
    High,
    Urgent,
}

#[derive(Debug, Clone, Copy, PartialEq, Eq)]
pub enum Urgency {
    Low,
    Medium,
    High,
    Urgent,
}

/// The response layouts of the fee services that the advisor knows.
#[derive(Debug, Clone, Copy, PartialEq, Eq)]
pub enum ServiceFormat {
    Mempool,
    Blockstream,
}

/// Default slow rate when no source answers.
pub const DEFAULT_SLOW: u64 = 1;

/// Default medium rate when no source answers.
pub const DEFAULT_MEDIUM: u64 = 5;

/// Default fast rate when no source answers.
pub const DEFAULT_FAST: u64 = 10;

/// The rate that a choice of rate stands for under an estimate.
pub open spec fn rate_of(estimate: FeeEstimate, fee_rate: FeeRate) -> u64 {
    match fee_rate {
        FeeRate::Slow => estimate.slow,
        FeeRate::Medium => estimate.medium,
        FeeRate::Fast => estimate.fast,
        FeeRate::Custom(r) => r,
    }
}

pub open spec fn time_estimate_text(fee_rate: FeeRate) -> Seq<char> {
    match fee_rate {
        FeeRate::Slow => "1-24 hours"@,
        FeeRate::Medium => "10-60 minutes"@,
        FeeRate::Fast => "1-10 minutes"@,
        FeeRate::Custom(_) => "Unknown"@,
    }
}

/// The estimate from the first source that answered, in priority order, else the defaults.
pub open spec fn first_estimate(samples: Seq<Option<FeeEstimate>>, now: i64) -> FeeEstimate
    decreases samples.len(),
{
    if samples.len() == 0 {
        FeeEstimate { slow: DEFAULT_SLOW, medium: DEFAULT_MEDIUM, fast: DEFAULT_FAST, timestamp: now }
    } else {
        match samples[0] {
            Some(e) => e,
            None => first_estimate(samples.drop_first(), now),
        }
    }
}

/// Whether the age of a sample stamped `sampled_at`, seen at `now`, exceeds `max_age_minutes`.
pub open spec fn older_than(sampled_at: i64, now: i64, max_age_minutes: i64) -> bool {
    now as int - sampled_at as int > max_age_minutes as int * 60
}

/// The fee services asked, in priority order.
pub fn fee_services() -> (r: Vec<&'static str>)
    ensures
        r@.len() == 2,
{
    vec!["https://mempool.space/api/v1/fees/recommended", "https://blockstream.info/api/fee-estimates"]
}

/// The response layout that a service address names.
pub open spec fn format_of_service(url: Seq<char>) -> Option<ServiceFormat> {
    if contains_seq(url, "mempool.space"@) {
        Some(ServiceFormat::Mempool)
    } else if contains_seq(url, "blockstream"@) {
        Some(ServiceFormat::Blockstream)
    } else {
        None
    }
}

/// The response layout of a service by its address.
pub fn service_format(url: &str) -> (r: Option<ServiceFormat>)
    ensures
        r == format_of_service(url@),
{
    if contains_text(url, "mempool.space") {
        Some(ServiceFormat::Mempool)
    } else if contains_text(url, "blockstream") {
        Some(ServiceFormat::Blockstream)
    } else {
        None
    }
}

/// An estimate from the three sampled rates, each falling back to its default when absent.
pub fn estimate_from_fields(slow: Option<u64>, medium: Option<u64>, fast: Option<u64>, now: i64) -> (r: FeeEstimate)
    ensures
        r.slow == match slow { Some(v) => v, None => DEFAULT_SLOW },
        r.medium == match medium { Some(v) => v, None => DEFAULT_MEDIUM },
        r.fast == match fast { Some(v) => v, None => DEFAULT_FAST },
        r.timestamp == now,
{
    FeeEstimate {
        slow: match slow { Some(v) => v, None => DEFAULT_SLOW },
        medium: match medium { Some(v) => v, None => DEFAULT_MEDIUM },
        fast: match fast { Some(v) => v, None => DEFAULT_FAST },
        timestamp: now,
    }
}

/// Merges the samples of the sources, given in priority order: the first that answered
/// wins; when none did, the defaults 1, 5 and 10 stamped `now`.
pub fn select_fee_estimate(samples: &Vec<Option<FeeEstimate>>, now: i64) -> (r: FeeEstimate)
    ensures
        r == first_estimate(samples@, now),
{
    let mut i: usize = 0;
    assert(samples@.subrange(0, samples@.len() as int) =~= samples@);
    while i < samples.len()
        invariant
            i <= samples@.len(),
            first_estimate(samples@.subrange(i as int, samples@.len() as int), now) == first_estimate(samples@, now),
        decreases samples@.len() - i,
    {
        let ghost rest = samples@.subrange(i as int, samples@.len() as int);
        assert(rest.drop_first() =~= samples@.subrange(i + 1, samples@.len() as int));
        assert(rest[0] == samples@[i as int]);
        if let Some(e) = samples[i] {
            return e;
        }
        i = i + 1;
    }
    assert(samples@.subrange(samples@.len() as int, samples@.len() as int).len() == 0);
    FeeEstimate { slow: DEFAULT_SLOW, medium: DEFAULT_MEDIUM, fast: DEFAULT_FAST, timestamp: now }
}

impl FeeEstimate {
    /// Whether the time from the sample to `now`, in seconds, exceeds `max_age_minutes` minutes.
    pub fn is_stale_at(&self, now: i64, max_age_minutes: i64) -> (r: bool)
        ensures
            r == older_than(self.timestamp, now, max_age_minutes),
    {
        let age: i128 = now as i128 - self.timestamp as i128;
        age > max_age_minutes as i128 * 60
    }

    /// Whether the sample's age at the current time exceeds `max_age_minutes` minutes.
    pub fn is_stale(&self, max_age_minutes: i64) -> (r: bool)
        ensures
            exists|now: i64| r == older_than(self.timestamp, now, max_age_minutes),
    {
        let now = now_unix_seconds();
        self.is_stale_at(now, max_age_minutes)
    }

    /// The rate for an urgency: slow, medium, fast, or twice fast when urgent.
    pub fn get_recommended_rate(&self, urgency: Urgency) -> (r: u64)
        requires
            urgency == Urgency::Urgent ==> self.fast <= u64::MAX / 2,
        ensures
            r == match urgency {
                Urgency::Low => self.slow,
                Urgency::Medium => self.medium,
                Urgency::High => self.fast,
                Urgency::Urgent => (self.fast * 2) as u64,
            },
    {
        match urgency {
            Urgency::Low => self.slow,
            Urgency::Medium => self.medium,
            Urgency::High => self.fast,
            Urgency::Urgent => self.fast * 2,
        }
    }
}

pub struct FeeEstimator;

impl FeeEstimator {
    pub fn new() -> (r: FeeEstimator) {
        FeeEstimator
    }

    /// An estimate from a mempool.space response: economyFee, hourFee and fastestFee.
    pub fn parse_mempool_response(&self, json: &serde_json::Value, now: i64) -> (r: Result<FeeEstimate, WalletError>)
        ensures
            r matches Ok(e) && e.timestamp == now,
    {
        let slow = json_u64_field(json, "economyFee");
        let medium = json_u64_field(json, "hourFee");
        let fast = json_u64_field(json, "fastestFee");
        Ok(estimate_from_fields(slow, medium, fast, now))
    }

    /// An estimate from a blockstream.info response: the rates for 144, 6 and 1 blocks.
    pub fn parse_blockstream_response(&self, json: &serde_json::Value, now: i64) -> (r: Result<FeeEstimate, WalletError>)
        ensures
            r matches Ok(e) && e.timestamp == now,
    {
        let slow = json_u64_field(json, "144");
        let medium = json_u64_field(json, "6");
        let fast = json_u64_field(json, "1");
        Ok(estimate_from_fields(slow, medium, fast, now))
    }

    /// An estimate from a service's response, read by the layout its address names.
    pub fn parse_service_response(&self, url: &str, json: &serde_json::Value, now: i64) -> (r: Result<FeeEstimate, WalletError>)
        ensures
            format_of_service(url@) is None <==> (r matches Err(WalletError::Network(_))),
            r matches Ok(e) ==> e.timestamp == now,
    {
        match service_format(url) {
            Some(ServiceFormat::Mempool) => self.parse_mempool_response(json, now),
            Some(ServiceFormat::Blockstream) => self.parse_blockstream_response(json, now),
            None => Err(WalletError::Network(String::from_str("Unknown service format"))),
        }
    }

    /// The fee for a transaction of `transaction_size` bytes at the chosen rate.
    pub fn calculate_transaction_fee(&self, estimate: &FeeEstimate, fee_rate: FeeRate, transaction_size: usize) -> (r: TransactionFee)
        requires
            rate_of(*estimate, fee_rate) * transaction_size <= u64::MAX,
        ensures
            r.fee_rate == rate_of(*estimate, fee_rate),
            r.total_fee == rate_of(*estimate, fee_rate) * transaction_size,
            r.estimated_time@ == time_estimate_text(fee_rate),
    {
        let rate = match fee_rate {
            FeeRate::Slow => estimate.slow,
            FeeRate::Medium => estimate.medium,
            FeeRate::Fast => estimate.fast,
            FeeRate::Custom(r) => r,
        };
        let total_fee = rate * transaction_size as u64;
        let estimated_time = match fee_rate {
            FeeRate::Slow => String::from_str("1-24 hours"),
            FeeRate::Medium => String::from_str("10-60 minutes"),
            FeeRate::Fast => String::from_str("1-10 minutes"),
            FeeRate::Custom(_) => String::from_str("Unknown"),
        };
        TransactionFee { fee_rate: rate, total_fee, estimated_time }
    }

    /// The rate for a priority: slow, medium, fast, or a custom twice-fast rate when urgent.
    pub fn get_optimal_fee_rate(&self, estimate: &FeeEstimate, priority: Priority) -> (r: FeeRate)
        requires
            priority == Priority::Urgent ==> estimate.fast <= u64::MAX / 2,
        ensures
            r == match priority {
                Priority::Low => FeeRate::Slow,
                Priority::Normal => FeeRate::Medium,
                Priority::High => FeeRate::Fast,
                Priority::Urgent => FeeRate::Custom((estimate.fast * 2) as u64),
            },
    {
        match priority {
            Priority::Low => FeeRate::Slow,
            Priority::Normal => FeeRate::Medium,
            Priority::High => FeeRate::Fast,
            Priority::Urgent => FeeRate::Custom(estimate.fast * 2),
        }
    }

    /// Bytes that a transaction with these inputs and outputs is reckoned to take,
    /// for fee sizing only.
    pub fn estimate_transaction_size(&self, input_count: usize, output_count: usize, has_witness: bool) -> (size: usize)
        requires
            transaction_size(input_count as nat, output_count as nat, has_witness) <= usize::MAX,
        ensures
            size == transaction_size(input_count as nat, output_count as nat, has_witness),
    {
        let mut size: usize = BASE_SIZE;
        let mut i: usize = 0;
        while i < input_count
            invariant
                i <= input_count,
                size == BASE_SIZE + INPUT_SIZE * i,
                transaction_size(input_count as nat, output_count as nat, has_witness) <= usize::MAX,
            decreases input_count - i,
        {
            size = size + INPUT_SIZE;
            i = i + 1;
        }
        let mut j: usize = 0;
        while j < output_count
            invariant
                j <= output_count,
                size == BASE_SIZE + INPUT_SIZE * input_count + OUTPUT_SIZE * j,
                transaction_size(input_count as nat, output_count as nat, has_witness) <= usize::MAX,
            decreases output_count - j,
        {
            size = size + OUTPUT_SIZE;
            j = j + 1;
        }
        if has_witness {
            size = size + WITNESS_MARKER_SIZE;
            let mut k: usize = 0;
            while k < input_count
                invariant
                    k <= input_count,
                    has_witness,
                    size == BASE_SIZE + INPUT_SIZE * input_count + OUTPUT_SIZE * output_count
                        + WITNESS_MARKER_SIZE + WITNESS_INPUT_SIZE * k,
                    transaction_size(input_count as nat, output_count as nat, has_witness) <= usize::MAX,
                decreases input_count - k,
            {
                size = size + WITNESS_INPUT_SIZE;
                k = k + 1;
            }
        }
        size
    }
}

} // verus!
