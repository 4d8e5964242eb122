use totp::code::{
    code_from_digest, counter_to_block, dynamic_truncate, generate, pow10_u64, render_code,
    GenerationError,
};
use totp::otp::{code_for_entry, code_for_secret, CodeError};
use totp::secret::{decode_as, decode_secret, SecretDecodeError, SecretEncoding};
use totp::store::{add_totp_entry, SecretStore, StoreError};

const RFC_KEY: &[u8] = b"12345678901234567890";
const RFC_KEY_BASE32: &str = "GEZDGNBVGY3TQOJQGEZDGNBVGY3TQOJQ";
const RFC_KEY_BASE64: &str = "MTIzNDU2Nzg5MDEyMzQ1Njc4OTA=";

fn hex20(s: &str) -> [u8; 20] {
    let mut out = [0u8; 20];
    for i in 0..20 {
        out[i] = u8::from_str_radix(&s[2 * i..2 * i + 2], 16).unwrap();
    }
    out
}

#[test]
fn reference_vector_at_59_seconds() {
    assert_eq!(generate(RFC_KEY, 59, 6, 0, 30), Ok(287082));
}

#[test]
fn rfc6238_sha1_eight_digit_vectors() {
    assert_eq!(generate(RFC_KEY, 59, 8, 0, 30), Ok(94287082));
    assert_eq!(generate(RFC_KEY, 1111111109, 8, 0, 30), Ok(7081804));
    assert_eq!(generate(RFC_KEY, 1111111111, 8, 0, 30), Ok(14050471));
    assert_eq!(generate(RFC_KEY, 1234567890, 8, 0, 30), Ok(89005924));
    assert_eq!(generate(RFC_KEY, 2000000000, 8, 0, 30), Ok(69279037));
    assert_eq!(generate(RFC_KEY, 20000000000, 8, 0, 30), Ok(65353130));
}

#[test]
fn rfc4226_hotp_vectors_through_unit_interval() {
    let expected = [
        755224, 287082, 359152, 969429, 338314, 254676, 287922, 162583, 399871, 520489,
    ];
    for (count, code) in expected.iter().enumerate() {
        assert_eq!(generate(RFC_KEY, count as u64, 6, 0, 1), Ok(*code));
    }
}

#[test]
fn ten_digits_keep_the_whole_truncated_value() {
    assert_eq!(generate(RFC_KEY, 59, 10, 0, 30), Ok(1094287082));
    assert_eq!(generate(RFC_KEY, 59, 12, 0, 30), Ok(1094287082));
}

#[test]
fn epoch_shifts_the_counter() {
    assert_eq!(generate(RFC_KEY, 159, 6, 100, 30), generate(RFC_KEY, 59, 6, 0, 30));
    assert_eq!(generate(RFC_KEY, 100, 6, 100, 30), Ok(755224));
}

#[test]
fn same_inputs_same_code() {
    let a = generate(RFC_KEY, 1234567890, 6, 0, 30);
    let b = generate(RFC_KEY, 1234567890, 6, 0, 30);
    assert_eq!(a, b);
    assert_eq!(a, Ok(5924));
}

#[test]
fn code_constant_within_a_step() {
    assert_eq!(generate(RFC_KEY, 30, 6, 0, 30), generate(RFC_KEY, 59, 6, 0, 30));
    assert_eq!(generate(RFC_KEY, 60, 6, 0, 30), Ok(359152));
    assert_ne!(generate(RFC_KEY, 59, 6, 0, 30), generate(RFC_KEY, 60, 6, 0, 30));
}

#[test]
fn six_digit_codes_stay_below_one_million() {
    for now in 0..200u64 {
        let c = generate(b"another key", now * 17, 6, 0, 30).unwrap();
        assert!(c < 1_000_000);
    }
}

#[test]
fn clock_before_epoch_is_refused() {
    assert_eq!(generate(RFC_KEY, 5, 6, 10, 30), Err(GenerationError::ClockBeforeEpoch));
    assert_eq!(generate(RFC_KEY, 0, 6, u64::MAX, 30), Err(GenerationError::ClockBeforeEpoch));
}

#[test]
fn empty_key_is_refused() {
    assert_eq!(generate(&[], 59, 6, 0, 30), Err(GenerationError::InvalidKeyLength));
}

#[test]
fn counter_block_is_big_endian() {
    assert_eq!(counter_to_block(1), [0, 0, 0, 0, 0, 0, 0, 1]);
    assert_eq!(counter_to_block(0x0102030405060708), [1, 2, 3, 4, 5, 6, 7, 8]);
    assert_eq!(counter_to_block(u64::MAX), [255; 8]);
}

#[test]
fn truncation_of_rfc4226_example_digest() {
    let d = hex20("1f8698690e02ca16618550ef7f19da8e945b555a");
    assert_eq!(dynamic_truncate(&d), 0x50ef7f19);
    assert_eq!(code_from_digest(&d, 6), 872921);
}

#[test]
fn truncation_clears_the_top_bit() {
    let mut d = [0xffu8; 20];
    d[19] = 0xf0;
    assert_eq!(dynamic_truncate(&d), 0x7fff_ffff);
    let masked = 0xffff_ffffu32 & 0x7fff_ffff;
    assert_eq!(masked, 0xffff_ffffu32 % 0x8000_0000);
    assert_eq!(code_from_digest(&d, 6), 0x7fff_ffff % 1_000_000);
}

#[test]
fn powers_of_ten() {
    assert_eq!(pow10_u64(0), 1);
    assert_eq!(pow10_u64(6), 1_000_000);
    assert_eq!(pow10_u64(19), 10_000_000_000_000_000_000);
}

#[test]
fn rendering_pads_with_zeros() {
    assert_eq!(render_code(42, 6), "000042");
    assert_eq!(render_code(0, 6), "000000");
    assert_eq!(render_code(287082, 6), "287082");
    assert_eq!(render_code(7081804, 8), "07081804");
    assert_eq!(render_code(5, 0), "");
}

#[test]
fn base32_secret_decodes() {
    assert_eq!(decode_secret(RFC_KEY_BASE32), Ok(RFC_KEY.to_vec()));
    assert_eq!(decode_as(SecretEncoding::Base32, RFC_KEY_BASE32), Some(RFC_KEY.to_vec()));
}

#[test]
fn base32_round_trip() {
    let samples: Vec<Vec<u8>> = vec![
        vec![0],
        vec![255],
        vec![1, 2, 3, 4, 5],
        vec![0xde, 0xad, 0xbe, 0xef, 0x00, 0x11, 0x22],
        (0..=255u8).collect(),
        RFC_KEY.to_vec(),
    ];
    for bytes in samples {
        let text = base32::encode(base32::Alphabet::Rfc4648 { padding: false }, &bytes);
        assert_eq!(decode_secret(&text), Ok(bytes));
    }
}

#[test]
fn base64_fallback() {
    assert_eq!(decode_as(SecretEncoding::Base32, RFC_KEY_BASE64), None);
    assert_eq!(decode_secret(RFC_KEY_BASE64), Ok(RFC_KEY.to_vec()));
    assert_eq!(decode_secret("aGVsbG8="), Ok(b"hello".to_vec()));
}

#[test]
fn invalid_under_both_encodings() {
    assert_eq!(decode_secret("!!!!"), Err(SecretDecodeError::InvalidEncoding));
    assert_eq!(decode_secret("GEZ@"), Err(SecretDecodeError::InvalidEncoding));
    assert_eq!(decode_as(SecretEncoding::Base64, "!!!!"), None);
}

#[test]
fn empty_secret_is_invalid() {
    assert_eq!(decode_secret(""), Err(SecretDecodeError::InvalidEncoding));
}

#[test]
fn code_for_base32_secret() {
    assert_eq!(code_for_secret(RFC_KEY_BASE32, 59), Ok("287082".to_string()));
    assert_eq!(code_for_secret(RFC_KEY_BASE32, 1111111109), Ok("081804".to_string()));
    assert_eq!(code_for_secret(RFC_KEY_BASE64, 59), Ok("287082".to_string()));
}

#[test]
fn code_for_bad_secret() {
    assert_eq!(
        code_for_secret("!!!!", 59),
        Err(CodeError::Decode(SecretDecodeError::InvalidEncoding))
    );
}

#[test]
fn store_insert_overwrites() {
    let mut store = SecretStore::new();
    add_totp_entry(&mut store, "example.com", "AAAA");
    add_totp_entry(&mut store, "example.com", RFC_KEY_BASE32);
    assert_eq!(store.len(), 1);
    assert_eq!(store.lookup("example.com"), Ok(RFC_KEY_BASE32.to_string()));
    let (id, secret) = store.entry(0);
    assert_eq!(id, "example.com");
    assert_eq!(secret, RFC_KEY_BASE32);
}

#[test]
fn store_keeps_enrollment_order() {
    let mut store = SecretStore::new();
    store.insert("b".to_string(), "B".to_string());
    store.insert("a".to_string(), "A".to_string());
    store.insert("b".to_string(), "C".to_string());
    assert_eq!(store.len(), 2);
    assert_eq!(store.entry(0), (&"b".to_string(), &"C".to_string()));
    assert_eq!(store.entry(1), (&"a".to_string(), &"A".to_string()));
}

#[test]
fn store_lookup_absent() {
    let mut store = SecretStore::new();
    assert_eq!(store.lookup("missing"), Err(StoreError::NotFound));
    add_totp_entry(&mut store, "present", RFC_KEY_BASE32);
    assert_eq!(store.lookup("missing"), Err(StoreError::NotFound));
    assert_eq!(code_for_entry(&store, "missing", 59), Err(CodeError::NotFound));
    assert_eq!(code_for_entry(&store, "present", 59), Ok("287082".to_string()));
}
