//! The aggregation scheme consumed by the role engine, shipped here as a
//! known-answer in-memory capability: a measurement is a 64-bit integer,
//! the Client splits it into two additive shares modulo 2^64, and the
//! aggregate of a batch is the sum of its measurements.

use vstd::prelude::*;
use vstd::wrapping::u64_specs;
use crate::base::TransitionFailure;
use crate::bytesutil::{self, u64_from_le_bytes, u64_to_le_bytes, xor_bytes};
use crate::digest::sha256_of;
use crate::hpke::{hpke_encrypt, tag_of, xor_with_key};
use crate::messages::{
    DapMeasurement, Extension, HpkeCiphertext, HpkeConfig, Id, Report, ReportMetadata, Time,
};

verus! {

/// Addition modulo 2^64.
pub open spec fn add64(a: u64, b: u64) -> u64 {
    u64_specs::wrapping_add(a, b)
}

/// Subtraction modulo 2^64.
pub open spec fn sub64(a: u64, b: u64) -> u64 {
    u64_specs::wrapping_sub(a, b)
}

/// The two additive shares of measurement `m` drawn with mask `x`.
pub open spec fn shares_of(m: u64, x: u64) -> (u64, u64) {
    (x, sub64(m, x))
}

/// Recombining the two shares of a measurement yields the measurement,
/// whatever mask they were drawn with.
pub proof fn lemma_shares_recombine(m: u64, x: u64)
    ensures
        add64(shares_of(m, x).0, shares_of(m, x).1) == m,
{
}

/// Recombines two aggregate share values into the aggregate statistic.
pub fn unshard(a: u64, b: u64) -> (r: u64)
    ensures
        r == add64(a, b),
{
    a.wrapping_add(b)
}

/// An encrypted input or aggregate share carrying exactly `value`,
/// addressed to `config`.
pub open spec fn encrypted_share_of(config: HpkeConfig, value: u64, ct: HpkeCiphertext) -> bool {
    &&& ct.config_id == config.id
    &&& ct.payload@ == xor_with_key(config.public_key@, u64_to_le_bytes(value))
    &&& ct.enc@ == tag_of(config.public_key@, u64_to_le_bytes(value))
}

/// Encrypts one share value to `config`.
pub fn encrypt_share(config: &HpkeConfig, value: u64) -> (r: HpkeCiphertext)
    requires
        config.public_key@.len() >= 1,
    ensures
        encrypted_share_of(*config, value, r),
{
    let plain = bytesutil::u64_encode_le(value);
    hpke_encrypt(config, &plain)
}

/// What the scheme makes of a decrypted input share: its 64-bit value,
/// or the preparation failure for a malformed share.
pub open spec fn consume_share_view(plain: Seq<u8>) -> Result<u64, TransitionFailure> {
    if plain.len() == 8 {
        Ok(u64_from_le_bytes(plain))
    } else {
        Err(TransitionFailure::VdafPrepError)
    }
}

/// Decodes a decrypted input share into its 64-bit value.
pub fn consume_share(plain: &Vec<u8>) -> (r: Result<u64, TransitionFailure>)
    ensures
        r == consume_share_view(plain@),
{
    if plain.len() == 8 {
        Ok(bytesutil::u64_decode_le(plain))
    } else {
        Err(TransitionFailure::VdafPrepError)
    }
}

/// One accumulated aggregate share: how many reports went in, the
/// combined checksum of their identifiers, and the combined share value
/// (nothing, before the first merge).
#[derive(Clone, Copy, Debug)]
pub struct DapAggregateShare {
    pub report_count: u64,
    pub checksum: [u8; 32],
    pub data: Option<u64>,
}

/// The combination of two optional share values.
pub open spec fn merged_data(a: Option<u64>, b: Option<u64>) -> Option<u64> {
    match (a, b) {
        (Option::None, x) => x,
        (x, Option::None) => x,
        (Option::Some(u), Option::Some(v)) => Option::Some(add64(u, v)),
    }
}

impl DapAggregateShare {
    /// The empty accumulation.
    pub fn empty() -> (r: Self)
        ensures
            r.report_count == 0,
            r.checksum@ == Seq::new(32, |i: int| 0u8),
            r.data is None,
    {
        let r = DapAggregateShare { report_count: 0, checksum: [0u8; 32], data: None };
        proof {
            assert(r.checksum@ =~= Seq::new(32, |i: int| 0u8));
        }
        r
    }

    /// The accumulation of one report's output share.
    pub fn of_report(report_id: &Id, out_share: u64) -> (r: Self)
        ensures
            r.report_count == 1,
            r.checksum@ == sha256_of(report_id@),
            r.data == Some(out_share),
    {
        let checksum = crate::digest::sha256_of_id(report_id);
        DapAggregateShare { report_count: 1, checksum, data: Some(out_share) }
    }

    /// Merges `other` into `self`: counts add modulo 2^64, checksums
    /// combine by XOR, share values add modulo 2^64.
    pub fn merge(&mut self, other: &DapAggregateShare)
        ensures
            final(self).report_count == add64(old(self).report_count, other.report_count),
            final(self).checksum@ == xor_bytes(old(self).checksum@, other.checksum@),
            final(self).data == merged_data(old(self).data, other.data),
    {
        self.report_count = self.report_count.wrapping_add(other.report_count);
        bytesutil::xor32_assign(&mut self.checksum, &other.checksum);
        self.data = match (self.data, other.data) {
            (None, x) => x,
            (x, None) => x,
            (Some(u), Some(v)) => Some(u.wrapping_add(v)),
        };
    }
}

/// Builds a report for `measurement`: a fresh report identifier, one
/// additive share per aggregator, each encrypted to that aggregator's
/// configuration, the Leader's share first.
pub fn produce_report_with_extensions(
    hpke_config_list: &Vec<HpkeConfig>,
    time: Time,
    task_id: &Id,
    measurement: DapMeasurement,
    extensions: Vec<Extension>,
) -> (r: Report)
    requires
        hpke_config_list@.len() == 2,
        hpke_config_list@[0].public_key@.len() >= 1,
        hpke_config_list@[1].public_key@.len() >= 1,
    ensures
        r.task_id@ == task_id@,
        r.metadata.time == time,
        r.metadata.extensions == extensions,
        r.public_share@.len() == 0,
        r.encrypted_input_shares@.len() == 2,
        measurement matches DapMeasurement::U64(m) ==> exists|x: u64|
            {
                &&& #[trigger] encrypted_share_of(
                    hpke_config_list@[0],
                    x,
                    r.encrypted_input_shares@[0],
                )
                &&& encrypted_share_of(
                    hpke_config_list@[1],
                    sub64(m, x),
                    r.encrypted_input_shares@[1],
                )
            },
{
    let report_id = crate::rng::random_id();
    let mask = crate::rng::random_u64();
    let DapMeasurement::U64(m) = measurement;
    let leader_share = mask;
    let helper_share = m.wrapping_sub(mask);
    let ct0 = encrypt_share(&hpke_config_list[0], leader_share);
    let ct1 = encrypt_share(&hpke_config_list[1], helper_share);
    let mut encrypted_input_shares: Vec<HpkeCiphertext> = Vec::new();
    encrypted_input_shares.push(ct0);
    encrypted_input_shares.push(ct1);
    let r = Report {
        task_id: *task_id,
        metadata: ReportMetadata { id: report_id, time, extensions },
        public_share: Vec::new(),
        encrypted_input_shares,
    };
    proof {
        assert(encrypted_share_of(hpke_config_list@[0], mask, r.encrypted_input_shares@[0]));
        assert(encrypted_share_of(
            hpke_config_list@[1],
            sub64(m, mask),
            r.encrypted_input_shares@[1],
        ));
    }
    r
}

/// What the Collector makes of a collect response under its private key:
/// both aggregate shares decrypted, decoded and recombined into the
/// aggregate statistic.
pub open spec fn open_resp_view(key: Seq<u8>, resp: crate::messages::CollectResp) -> Option<u64>
    recommends
        key.len() >= 1,
{
    if resp.encrypted_agg_shares@.len() != 2 {
        None
    } else {
        let s0 = resp.encrypted_agg_shares@[0];
        let s1 = resp.encrypted_agg_shares@[1];
        match (
            crate::hpke::decrypt_view(key, s0.payload@, s0.enc@),
            crate::hpke::decrypt_view(key, s1.payload@, s1.enc@),
        ) {
            (Option::Some(p0), Option::Some(p1)) => if p0.len() == 8 && p1.len() == 8 {
                Some(add64(u64_from_le_bytes(p0), u64_from_le_bytes(p1)))
            } else {
                None
            },
            _ => None,
        }
    }
}

/// Decrypts and recombines a collect response's two aggregate shares.
pub fn open_collect_resp(
    receiver: &crate::hpke::HpkeReceiverConfig,
    resp: &crate::messages::CollectResp,
) -> (r: Option<u64>)
    requires
        receiver.wf(),
    ensures
        r == open_resp_view(receiver.private_key@, *resp),
{
    if resp.encrypted_agg_shares.len() != 2 {
        return None;
    }
    let p0 = match crate::hpke::hpke_decrypt(&receiver.private_key, &resp.encrypted_agg_shares[0]) {
        Some(p) => p,
        None => {
            return None;
        },
    };
    let p1 = match crate::hpke::hpke_decrypt(&receiver.private_key, &resp.encrypted_agg_shares[1]) {
        Some(p) => p,
        None => {
            return None;
        },
    };
    if p0.len() == 8 && p1.len() == 8 {
        Some(unshard(bytesutil::u64_decode_le(&p0), bytesutil::u64_decode_le(&p1)))
    } else {
        None
    }
}

/// Builds a report for `measurement` with no extensions.
pub fn produce_report(
    hpke_config_list: &Vec<HpkeConfig>,
    time: Time,
    task_id: &Id,
    measurement: DapMeasurement,
) -> (r: Report)
    requires
        hpke_config_list@.len() == 2,
        hpke_config_list@[0].public_key@.len() >= 1,
        hpke_config_list@[1].public_key@.len() >= 1,
    ensures
        r.task_id@ == task_id@,
        r.metadata.time == time,
        r.metadata.extensions@.len() == 0,
        r.public_share@.len() == 0,
        r.encrypted_input_shares@.len() == 2,
        measurement matches DapMeasurement::U64(m) ==> exists|x: u64|
            {
                &&& #[trigger] encrypted_share_of(
                    hpke_config_list@[0],
                    x,
                    r.encrypted_input_shares@[0],
                )
                &&& encrypted_share_of(
                    hpke_config_list@[1],
                    sub64(m, x),
                    r.encrypted_input_shares@[1],
                )
            },
{
    produce_report_with_extensions(hpke_config_list, time, task_id, measurement, Vec::new())
}

} // verus!
