//! Task provisioning: deriving a task configuration from a
//! self-describing report extension on first sight of an unknown task
//! identifier. The task identifier is the digest of the extension's
//! canonical encoding, so a Client cannot claim an identifier that does
//! not match the parameters it supplied.

use vstd::prelude::*;
use crate::base::DapVersion;
use crate::bytesutil::u64_to_le_bytes;
use crate::digest::sha256_of;
use crate::messages::{HpkeConfig, Id};
use crate::task::{AggScheme, DapQueryConfig, DapTaskConfig};

verus! {

/// The query mode a provisioned task asks for.
#[derive(Clone, Copy, Debug)]
pub enum TaskprovQuery {
    TimeInterval,
    FixedSize { max_batch_size: u64 },
}

/// The self-describing parameters embedded in a report's provisioning
/// extension. URL bytes are carried as the Client sent them and decoded
/// only when the task configuration is synthesized.
#[derive(Clone, Debug)]
pub struct TaskprovConfig {
    pub task_info: Vec<u8>,
    pub leader_url: Vec<u8>,
    pub helper_url: Vec<u8>,
    pub time_precision: u64,
    pub min_batch_size: u64,
    pub query: TaskprovQuery,
    pub task_expiration: u64,
}

/// The mode tag and batch-size bound of a provisioning query.
pub open spec fn taskprov_query_tag(q: TaskprovQuery) -> (u8, u64) {
    match q {
        TaskprovQuery::TimeInterval => (1u8, 0u64),
        TaskprovQuery::FixedSize { max_batch_size } => (2u8, max_batch_size),
    }
}

/// The canonical encoding of a provisioning extension: the fixed-width
/// parameters, the mode tag, then each byte string prefixed with its
/// length. The encoding is injective, so the digest of the encoding
/// identifies the parameters.
pub open spec fn encoded_taskprov(c: TaskprovConfig) -> Seq<u8> {
    u64_to_le_bytes(c.time_precision) + u64_to_le_bytes(c.min_batch_size) + u64_to_le_bytes(
        c.task_expiration,
    ) + seq![taskprov_query_tag(c.query).0] + u64_to_le_bytes(taskprov_query_tag(c.query).1)
        + u64_to_le_bytes(c.task_info@.len() as u64) + c.task_info@ + u64_to_le_bytes(
        c.leader_url@.len() as u64,
    ) + c.leader_url@ + u64_to_le_bytes(c.helper_url@.len() as u64) + c.helper_url@
}

/// Encodes a provisioning extension canonically.
pub fn encode_taskprov(c: &TaskprovConfig) -> (r: Vec<u8>)
    requires
        c.task_info@.len() <= u64::MAX,
        c.leader_url@.len() <= u64::MAX,
        c.helper_url@.len() <= u64::MAX,
    ensures
        r@ == encoded_taskprov(*c),
{
    let mut out = crate::bytesutil::u64_encode_le(c.time_precision);
    let mut part = crate::bytesutil::u64_encode_le(c.min_batch_size);
    out.append(&mut part);
    let mut part = crate::bytesutil::u64_encode_le(c.task_expiration);
    out.append(&mut part);
    let (tag, bound) = match c.query {
        TaskprovQuery::TimeInterval => (1u8, 0u64),
        TaskprovQuery::FixedSize { max_batch_size } => (2u8, max_batch_size),
    };
    out.push(tag);
    let mut part = crate::bytesutil::u64_encode_le(bound);
    out.append(&mut part);
    let mut part = crate::bytesutil::u64_encode_le(c.task_info.len() as u64);
    out.append(&mut part);
    out.extend_from_slice(c.task_info.as_slice());
    let mut part = crate::bytesutil::u64_encode_le(c.leader_url.len() as u64);
    out.append(&mut part);
    out.extend_from_slice(c.leader_url.as_slice());
    let mut part = crate::bytesutil::u64_encode_le(c.helper_url.len() as u64);
    out.append(&mut part);
    out.extend_from_slice(c.helper_url.as_slice());
    proof {
        assert(out@ =~= encoded_taskprov(*c));
    }
    out
}

/// Splitting a concatenation at the length of its head recovers both
/// halves.
proof fn lemma_peel(e: Seq<u8>, s: Seq<u8>, t: Seq<u8>)
    requires
        e == s + t,
    ensures
        e.subrange(0, s.len() as int) == s,
        e.subrange(s.len() as int, e.len() as int) == t,
{
    assert(e.subrange(0, s.len() as int) =~= s);
    assert(e.subrange(s.len() as int, e.len() as int) =~= t);
}

/// The canonical encoding written as its head field and the rest.
proof fn lemma_encoded_shape(c: TaskprovConfig)
    ensures
        encoded_taskprov(c) == u64_to_le_bytes(c.time_precision) + (u64_to_le_bytes(
            c.min_batch_size,
        ) + (u64_to_le_bytes(c.task_expiration) + (seq![taskprov_query_tag(c.query).0] + (
        u64_to_le_bytes(taskprov_query_tag(c.query).1) + (u64_to_le_bytes(
            c.task_info@.len() as u64,
        ) + (c.task_info@ + (u64_to_le_bytes(c.leader_url@.len() as u64) + (c.leader_url@ + (
        u64_to_le_bytes(c.helper_url@.len() as u64) + c.helper_url@))))))))),
{
    assert(encoded_taskprov(c) =~= u64_to_le_bytes(c.time_precision) + (u64_to_le_bytes(
        c.min_batch_size,
    ) + (u64_to_le_bytes(c.task_expiration) + (seq![taskprov_query_tag(c.query).0] + (
    u64_to_le_bytes(taskprov_query_tag(c.query).1) + (u64_to_le_bytes(c.task_info@.len() as u64) + (
    c.task_info@ + (u64_to_le_bytes(c.leader_url@.len() as u64) + (c.leader_url@ + (u64_to_le_bytes(
        c.helper_url@.len() as u64,
    ) + c.helper_url@))))))))));
}

/// Two u64 values with the same little-endian encoding are the same.
proof fn lemma_le_bytes_injective(x: u64, y: u64)
    requires
        u64_to_le_bytes(x) == u64_to_le_bytes(y),
    ensures
        x == y,
{
    crate::bytesutil::lemma_u64_le_round_trip(x);
    crate::bytesutil::lemma_u64_le_round_trip(y);
}

/// The canonical encoding is injective: two provisioning extensions with
/// the same encoding carry the same parameters, so the derived task
/// identifier commits the Client to every parameter it supplied.
pub proof fn lemma_encoded_taskprov_injective(c1: TaskprovConfig, c2: TaskprovConfig)
    requires
        encoded_taskprov(c1) == encoded_taskprov(c2),
        c1.task_info@.len() <= u64::MAX,
        c1.leader_url@.len() <= u64::MAX,
        c1.helper_url@.len() <= u64::MAX,
        c2.task_info@.len() <= u64::MAX,
        c2.leader_url@.len() <= u64::MAX,
        c2.helper_url@.len() <= u64::MAX,
    ensures
        c1.time_precision == c2.time_precision,
        c1.min_batch_size == c2.min_batch_size,
        c1.task_expiration == c2.task_expiration,
        c1.query == c2.query,
        c1.task_info@ == c2.task_info@,
        c1.leader_url@ == c2.leader_url@,
        c1.helper_url@ == c2.helper_url@,
{
    lemma_encoded_shape(c1);
    lemma_encoded_shape(c2);
    let e = encoded_taskprov(c1);
    // Name each head and right-nested tail of both encodings.
    let g1 = seq![taskprov_query_tag(c1.query).0];
    let g2 = seq![taskprov_query_tag(c2.query).0];
    let r7_1 = u64_to_le_bytes(c1.helper_url@.len() as u64) + c1.helper_url@;
    let r7_2 = u64_to_le_bytes(c2.helper_url@.len() as u64) + c2.helper_url@;
    let r6_1 = c1.leader_url@ + r7_1;
    let r6_2 = c2.leader_url@ + r7_2;
    let r5_1 = u64_to_le_bytes(c1.leader_url@.len() as u64) + r6_1;
    let r5_2 = u64_to_le_bytes(c2.leader_url@.len() as u64) + r6_2;
    let r4_1 = c1.task_info@ + r5_1;
    let r4_2 = c2.task_info@ + r5_2;
    let r3_1 = u64_to_le_bytes(c1.task_info@.len() as u64) + r4_1;
    let r3_2 = u64_to_le_bytes(c2.task_info@.len() as u64) + r4_2;
    let r2_1 = u64_to_le_bytes(taskprov_query_tag(c1.query).1) + r3_1;
    let r2_2 = u64_to_le_bytes(taskprov_query_tag(c2.query).1) + r3_2;
    let r1_1 = g1 + r2_1;
    let r1_2 = g2 + r2_2;
    let r0_1 = u64_to_le_bytes(c1.task_expiration) + r1_1;
    let r0_2 = u64_to_le_bytes(c2.task_expiration) + r1_2;
    let rm_1 = u64_to_le_bytes(c1.min_batch_size) + r0_1;
    let rm_2 = u64_to_le_bytes(c2.min_batch_size) + r0_2;
    assert(e == u64_to_le_bytes(c1.time_precision) + rm_1);
    assert(e == u64_to_le_bytes(c2.time_precision) + rm_2);
    // Peel the two encodings field by field; at each step the heads have
    // equal length, so the heads and the tails agree.
    peel_eq(e, u64_to_le_bytes(c1.time_precision), rm_1, u64_to_le_bytes(c2.time_precision), rm_2);
    lemma_le_bytes_injective(c1.time_precision, c2.time_precision);
    peel_eq(rm_1, u64_to_le_bytes(c1.min_batch_size), r0_1, u64_to_le_bytes(c2.min_batch_size), r0_2);
    lemma_le_bytes_injective(c1.min_batch_size, c2.min_batch_size);
    peel_eq(r0_1, u64_to_le_bytes(c1.task_expiration), r1_1, u64_to_le_bytes(c2.task_expiration), r1_2);
    lemma_le_bytes_injective(c1.task_expiration, c2.task_expiration);
    peel_eq(r1_1, g1, r2_1, g2, r2_2);
    assert(taskprov_query_tag(c1.query).0 == taskprov_query_tag(c2.query).0) by {
        assert(g1[0] == g2[0]);
    }
    peel_eq(
        r2_1,
        u64_to_le_bytes(taskprov_query_tag(c1.query).1),
        r3_1,
        u64_to_le_bytes(taskprov_query_tag(c2.query).1),
        r3_2,
    );
    lemma_le_bytes_injective(taskprov_query_tag(c1.query).1, taskprov_query_tag(c2.query).1);
    assert(c1.query == c2.query);
    peel_eq(
        r3_1,
        u64_to_le_bytes(c1.task_info@.len() as u64),
        r4_1,
        u64_to_le_bytes(c2.task_info@.len() as u64),
        r4_2,
    );
    lemma_le_bytes_injective(c1.task_info@.len() as u64, c2.task_info@.len() as u64);
    assert(c1.task_info@.len() == c2.task_info@.len());
    peel_eq(r4_1, c1.task_info@, r5_1, c2.task_info@, r5_2);
    peel_eq(
        r5_1,
        u64_to_le_bytes(c1.leader_url@.len() as u64),
        r6_1,
        u64_to_le_bytes(c2.leader_url@.len() as u64),
        r6_2,
    );
    lemma_le_bytes_injective(c1.leader_url@.len() as u64, c2.leader_url@.len() as u64);
    assert(c1.leader_url@.len() == c2.leader_url@.len());
    peel_eq(r6_1, c1.leader_url@, r7_1, c2.leader_url@, r7_2);
    peel_eq(
        r7_1,
        u64_to_le_bytes(c1.helper_url@.len() as u64),
        c1.helper_url@,
        u64_to_le_bytes(c2.helper_url@.len() as u64),
        c2.helper_url@,
    );
    lemma_le_bytes_injective(c1.helper_url@.len() as u64, c2.helper_url@.len() as u64);
}

/// Given one sequence written as two head-tail splits whose heads have
/// equal length, the heads agree and so do the tails.
proof fn peel_eq(e: Seq<u8>, s1: Seq<u8>, t1: Seq<u8>, s2: Seq<u8>, t2: Seq<u8>)
    requires
        s1.len() == s2.len(),
        e == s1 + t1,
        e == s2 + t2,
    ensures
        s1 == s2,
        t1 == t2,
{
    lemma_peel(e, s1, t1);
    lemma_peel(e, s2, t2);
}

/// The identifier a provisioning extension derives: the digest of its
/// canonical encoding.
pub open spec fn taskprov_id_of(c: TaskprovConfig) -> Seq<u8> {
    sha256_of(encoded_taskprov(c))
}

/// Derives the task identifier of a provisioning extension.
pub fn compute_task_id(c: &TaskprovConfig) -> (r: Id)
    requires
        c.task_info@.len() <= u64::MAX,
        c.leader_url@.len() <= u64::MAX,
        c.helper_url@.len() <= u64::MAX,
    ensures
        r@ == taskprov_id_of(*c),
{
    let encoded = encode_taskprov(c);
    let bytes = crate::digest::sha256(&encoded);
    Id { bytes }
}

/// The characters a UTF-8 byte string decodes to, or nothing when the
/// bytes are not UTF-8: a function of the bytes alone, too long to
/// state, so it only carries a name.
pub uninterp spec fn utf8_chars(bytes: Seq<u8>) -> Option<Seq<char>>;

/// Relies on String::from_utf8: decoding depends on the bytes alone.
#[verifier::external_body]
fn utf8_string(bytes: &Vec<u8>) -> (r: Option<String>)
    ensures
        (r is Some) == (utf8_chars(bytes@) is Some),
        r matches Some(s) ==> utf8_chars(bytes@) == Some(s@),
{
    String::from_utf8(bytes.clone()).ok()
}

/// A provisioning extension that can be turned into a usable task
/// configuration.
pub open spec fn taskprov_config_ok(ext: TaskprovConfig) -> bool {
    &&& ext.time_precision >= 1
    &&& utf8_chars(ext.leader_url@) is Some
    &&& utf8_chars(ext.helper_url@) is Some
}

/// A provisioning extension is accepted for a claimed task identifier
/// when the deployment allows provisioning, the identifier it derives is
/// the claimed one, and its parameters are usable.
pub open spec fn can_provision(allow: bool, ext: TaskprovConfig, claimed: Seq<u8>) -> bool {
    &&& allow
    &&& taskprov_id_of(ext) == claimed
    &&& taskprov_config_ok(ext)
}

/// What the task configuration synthesized from a provisioning
/// extension holds.
pub open spec fn provisioned_matches(
    c: DapTaskConfig,
    ext: TaskprovConfig,
    version: DapVersion,
    collector: HpkeConfig,
) -> bool {
    &&& c.version == version
    &&& c.leader_url@ == utf8_chars(ext.leader_url@)->Some_0
    &&& c.helper_url@ == utf8_chars(ext.helper_url@)->Some_0
    &&& c.time_precision == ext.time_precision
    &&& c.expiration == ext.task_expiration
    &&& c.min_batch_size == ext.min_batch_size
    &&& (match ext.query {
        TaskprovQuery::TimeInterval => c.query matches DapQueryConfig::TimeInterval,
        TaskprovQuery::FixedSize { max_batch_size } => c.query matches DapQueryConfig::FixedSize {
            max_batch_size: m,
        } && m == max_batch_size,
    })
    &&& c.agg_scheme == AggScheme::Sum64
    &&& c.collector_hpke_config.id == collector.id
    &&& c.collector_hpke_config.public_key@ == collector.public_key@
    &&& c.wf()
}

/// Synthesizes a full task configuration from a provisioning extension.
pub fn make_task_config(ext: &TaskprovConfig, version: DapVersion, collector: &HpkeConfig) -> (r:
    Option<DapTaskConfig>)
    requires
        collector.public_key@.len() >= 1,
    ensures
        (r is Some) == taskprov_config_ok(*ext),
        r matches Some(c) ==> provisioned_matches(c, *ext, version, *collector),
{
    if ext.time_precision < 1 {
        return None;
    }
    let leader_url = match utf8_string(&ext.leader_url) {
        Some(s) => s,
        None => {
            return None;
        },
    };
    let helper_url = match utf8_string(&ext.helper_url) {
        Some(s) => s,
        None => {
            return None;
        },
    };
    let query = match ext.query {
        TaskprovQuery::TimeInterval => DapQueryConfig::TimeInterval,
        TaskprovQuery::FixedSize { max_batch_size } => DapQueryConfig::FixedSize { max_batch_size },
    };
    Some(
        DapTaskConfig {
            version,
            collector_hpke_config: HpkeConfig {
                id: collector.id,
                public_key: crate::bytesutil::bytes_clone(&collector.public_key),
            },
            leader_url,
            helper_url,
            time_precision: ext.time_precision,
            expiration: ext.task_expiration,
            min_batch_size: ext.min_batch_size,
            query,
            agg_scheme: AggScheme::Sum64,
        },
    )
}

/// Resolves a provisioning extension against the claimed task
/// identifier: the synthesized task configuration when the extension is
/// accepted, nothing otherwise.
pub fn resolve_provision(
    allow: bool,
    version: DapVersion,
    collector: &HpkeConfig,
    ext: &TaskprovConfig,
    claimed: &Id,
) -> (r: Option<DapTaskConfig>)
    requires
        collector.public_key@.len() >= 1,
    ensures
        (r is Some) == can_provision(allow, *ext, claimed@),
        r matches Some(c) ==> provisioned_matches(c, *ext, version, *collector),
{
    if !allow {
        return None;
    }
    proof {
        assert(usize::MAX <= u64::MAX);
    }
    let n1: usize = ext.task_info.len();
    let n2: usize = ext.leader_url.len();
    let n3: usize = ext.helper_url.len();
    let id = compute_task_id(ext);
    if !id.same_as(claimed) {
        return None;
    }
    make_task_config(ext, version, collector)
}

} // verus!
