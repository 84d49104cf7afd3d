//! Unit tests for the leaf components: byte codecs, identifiers and
//! locators, the share-encryption capability, the known-answer scheme,
//! interval validation and the stores.

use daphne::base::{DapAbort, DapGlobalConfig};
use daphne::bytesutil::{u64_decode_le, u64_encode_le};
use daphne::hpke::{hpke_decrypt, hpke_encrypt, HpkeReceiverConfig};
use daphne::locator::{collect_path, id_to_base64url};
use daphne::messages::{DapMeasurement, Id, Interval};
use daphne::scheme::DapAggregateShare;
use daphne::storage::IdSet;
use daphne::task::{check_batch_interval, AggScheme, DapQueryConfig, DapTaskConfig};
use daphne::taskprov::{compute_task_id, encode_taskprov, TaskprovConfig, TaskprovQuery};

fn make_id(seed: u8) -> Id {
    Id { bytes: [seed; 32] }
}

fn test_task() -> DapTaskConfig {
    DapTaskConfig {
        version: daphne::base::DapVersion::Draft02,
        collector_hpke_config: HpkeReceiverConfig::build(5, vec![5u8; 32]).config,
        leader_url: "https://leader.biz/v02/".to_string(),
        helper_url: "http://helper.com:8788/v02/".to_string(),
        time_precision: 3600,
        expiration: 10_000_000,
        min_batch_size: 1,
        query: DapQueryConfig::TimeInterval,
        agg_scheme: AggScheme::Sum64,
    }
}

#[test]
fn u64_le_round_trip_and_exact_bytes() {
    let bytes = u64_encode_le(1);
    assert_eq!(bytes, vec![1, 0, 0, 0, 0, 0, 0, 0]);
    let bytes = u64_encode_le(0x0102030405060708);
    assert_eq!(bytes, vec![8, 7, 6, 5, 4, 3, 2, 1]);
    assert_eq!(u64_decode_le(&bytes), 0x0102030405060708);
    let bytes = u64_encode_le(u64::MAX);
    assert_eq!(u64_decode_le(&bytes), u64::MAX);
}

#[test]
fn id_base64url_rendering_exact() {
    // 0x0f 0xa0 0x00 encodes to the sextets 3, 58, 0, 0.
    let mut bytes = [0u8; 32];
    bytes[0] = 0x0f;
    bytes[1] = 0xa0;
    let id = Id { bytes };
    let text = id_to_base64url(&id);
    assert_eq!(text.len(), 43);
    assert!(text.starts_with("D6AA"));
    assert!(text[4..].chars().all(|c| c == 'A'));
    // The all-zero identifier is all 'A'.
    let zero = Id { bytes: [0u8; 32] };
    let text = id_to_base64url(&zero);
    assert!(text.chars().all(|c| c == 'A'));
    // The all-ones identifier ends in the padded sextet 0b111100.
    let ones = Id { bytes: [0xffu8; 32] };
    let text = id_to_base64url(&ones);
    assert_eq!(text.len(), 43);
    assert!(text.starts_with("__"));
    assert!(text.ends_with("8"));
}

#[test]
fn collect_path_shape() {
    let t = make_id(1);
    let c = make_id(2);
    let path = collect_path(&t, &c);
    let expected = format!("collect/task/{}/req/{}", id_to_base64url(&t), id_to_base64url(&c));
    assert_eq!(path, expected);
}

#[test]
fn hpke_round_trip_and_tamper_detection() {
    let receiver = HpkeReceiverConfig::build(7, vec![42u8; 32]);
    let plain = vec![1u8, 2, 3, 4, 5];
    let ct = hpke_encrypt(&receiver.config, &plain);
    assert_eq!(ct.config_id, 7);
    // The payload is masked, not the plaintext itself.
    assert!(ct.payload != plain);
    assert_eq!(hpke_decrypt(&receiver.private_key, &ct), Some(plain.clone()));
    // A flipped payload byte fails authentication.
    let mut bad = ct.clone();
    bad.payload[0] ^= 0xff;
    assert_eq!(hpke_decrypt(&receiver.private_key, &bad), None);
    // A flipped tag byte fails authentication too.
    let mut bad = ct.clone();
    bad.enc[0] ^= 0x01;
    assert_eq!(hpke_decrypt(&receiver.private_key, &bad), None);
}

#[test]
fn report_shares_recombine_to_measurement() {
    let leader_rc = HpkeReceiverConfig::build(1, vec![11u8; 32]);
    let helper_rc = HpkeReceiverConfig::build(2, vec![13u8; 32]);
    let report = daphne::scheme::produce_report(
        &vec![leader_rc.config.clone(), helper_rc.config.clone()],
        1000,
        &make_id(9),
        DapMeasurement::U64(5),
    );
    let p0 = hpke_decrypt(&leader_rc.private_key, &report.encrypted_input_shares[0]).unwrap();
    let p1 = hpke_decrypt(&helper_rc.private_key, &report.encrypted_input_shares[1]).unwrap();
    let a = u64_decode_le(&p0);
    let b = u64_decode_le(&p1);
    assert_eq!(a.wrapping_add(b), 5);
}

#[test]
fn aggregate_share_merge_exact() {
    let mut acc = DapAggregateShare::empty();
    assert_eq!(acc.report_count, 0);
    assert_eq!(acc.data, None);
    let one = DapAggregateShare::of_report(&make_id(3), 10);
    assert_eq!(one.report_count, 1);
    acc.merge(&one);
    assert_eq!(acc.report_count, 1);
    assert_eq!(acc.data, Some(10));
    // The empty checksum is the identity for the XOR combination.
    assert_eq!(acc.checksum, one.checksum);
    let two = DapAggregateShare::of_report(&make_id(4), 32);
    acc.merge(&two);
    assert_eq!(acc.report_count, 2);
    assert_eq!(acc.data, Some(42));
    // XOR is its own inverse: merging the same checksum twice cancels.
    let mut acc2 = acc;
    acc2.merge(&two);
    acc2.merge(&two);
    assert_eq!(acc2.checksum, acc.checksum);
}

#[test]
fn truncate_time_and_current_window() {
    let task = test_task();
    assert_eq!(task.truncate_time(7201), 7200);
    assert_eq!(task.truncate_time(7200), 7200);
    assert_eq!(task.truncate_time(7199), 3600);
    match task.query_for_current_batch_window(7201) {
        daphne::messages::Query::TimeInterval { batch_interval } => {
            assert_eq!(batch_interval.start, 7200);
            assert_eq!(batch_interval.duration, 3600);
        },
        _ => panic!("wrong query mode"),
    }
}

#[test]
fn batch_interval_validation_exact_reasons() {
    let g = DapGlobalConfig {
        report_storage_epoch_duration: 604800,
        max_batch_duration: 360000,
        min_batch_interval_start: 259200,
        max_batch_interval_end: 259200,
        allow_taskprov: false,
    };
    let now: u64 = 1_600_000_000;
    let window = now - (now % 3600);
    // Misaligned start.
    let itv = Interval { start: window + 1, duration: 3600 };
    assert!(matches!(check_batch_interval(&g, 3600, now, &itv), Err(DapAbort::BatchInvalid)));
    // Zero duration.
    let itv = Interval { start: window, duration: 0 };
    assert!(matches!(check_batch_interval(&g, 3600, now, &itv), Err(DapAbort::BatchInvalid)));
    // Too large.
    let itv = Interval { start: window, duration: g.max_batch_duration + 3600 };
    match check_batch_interval(&g, 3600, now, &itv).unwrap_err() {
        DapAbort::BadRequest(s) => assert_eq!(s, "batch interval too large"),
        _ => panic!("wrong abort"),
    }
    // Too far into the past.
    let itv = Interval {
        start: window - g.max_batch_duration - g.min_batch_interval_start - 3600,
        duration: 7200,
    };
    match check_batch_interval(&g, 3600, now, &itv).unwrap_err() {
        DapAbort::BadRequest(s) => assert_eq!(s, "batch interval too far into past"),
        _ => panic!("wrong abort"),
    }
    // Too far into the future.
    let itv = Interval { start: window + g.max_batch_interval_end - 3600, duration: 7200 };
    match check_batch_interval(&g, 3600, now, &itv).unwrap_err() {
        DapAbort::BadRequest(s) => assert_eq!(s, "batch interval too far into future"),
        _ => panic!("wrong abort"),
    }
    // A maximal interval within every bound passes.
    let itv = Interval {
        start: window - g.max_batch_duration / 2,
        duration: g.max_batch_duration,
    };
    assert!(check_batch_interval(&g, 3600, now, &itv).is_ok());
}

#[test]
fn id_set_membership() {
    let mut s = IdSet::new();
    assert!(!s.contains(&[1u8; 32]));
    s.insert([1u8; 32]);
    assert!(s.contains(&[1u8; 32]));
    assert!(!s.contains(&[2u8; 32]));
    s.insert([2u8; 32]);
    assert!(s.contains(&[1u8; 32]));
    assert!(s.contains(&[2u8; 32]));
}

#[test]
fn taskprov_encoding_and_id_derivation() {
    let config = TaskprovConfig {
        task_info: b"cool task".to_vec(),
        leader_url: b"https://cool.biz/".to_vec(),
        helper_url: b"http://cool.com:8788/".to_vec(),
        time_precision: 3600,
        min_batch_size: 1,
        query: TaskprovQuery::FixedSize { max_batch_size: 2 },
        task_expiration: 1_700_000_000,
    };
    let encoded = encode_taskprov(&config);
    // Fixed-width fields, the mode tag and bound, and three
    // length-prefixed byte strings.
    let expected_len = 8 + 8 + 8 + 1 + 8 + 8 + 9 + 8 + 17 + 8 + 21;
    assert_eq!(encoded.len(), expected_len);
    assert_eq!(&encoded[0..8], &u64_encode_le(3600)[..]);
    // Derivation is deterministic and parameter-sensitive.
    let id1 = compute_task_id(&config);
    let id2 = compute_task_id(&config);
    assert_eq!(id1.bytes, id2.bytes);
    let mut other = config.clone();
    other.min_batch_size = 2;
    let id3 = compute_task_id(&other);
    assert!(id1.bytes != id3.bytes);
}

#[test]
fn open_collect_resp_known_answer() {
    let receiver = HpkeReceiverConfig::build(23, vec![7u8; 32]);
    let a: u64 = 0xfff0_0000_0000_0001;
    let b: u64 = 0x0010_0000_0000_0001;
    let resp = daphne::messages::CollectResp {
        part_batch_sel: daphne::messages::PartialBatchSelector::TimeInterval,
        report_count: 2,
        encrypted_agg_shares: vec![
            daphne::scheme::encrypt_share(&receiver.config, a),
            daphne::scheme::encrypt_share(&receiver.config, b),
        ],
    };
    // Addition is modulo 2^64.
    assert_eq!(daphne::scheme::open_collect_resp(&receiver, &resp), Some(a.wrapping_add(b)));
}

#[test]
fn fresh_identifiers_differ() {
    let a = daphne::rng::random_id();
    let b = daphne::rng::random_id();
    assert!(a.bytes != b.bytes);
}
