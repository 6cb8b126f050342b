use snekcloud::error::SnekcloudError;
use snekcloud::keys::{
    armor_private_key, armor_public_key, extract_key, extract_private_key, extract_public_key,
    generate_private_key,
};

const ZERO_KEY_BASE64: &str = "AAAAAAAAAAAAAAAAAAAAAAAAAAAAAAAAAAAAAAAAAAA=";

fn sample_key() -> [u8; 32] {
    let mut k = [0u8; 32];
    for (i, b) in k.iter_mut().enumerate() {
        *b = (i as u8).wrapping_mul(37).wrapping_add(11);
    }
    k
}

#[test]
fn armor_private_key_format() {
    let text = armor_private_key([0u8; 32]);
    assert_eq!(
        text,
        format!(
            "---BEGIN-SNEKCLOUD-PRIVATE-KEY---\n{}\n---END-SNEKCLOUD-PRIVATE-KEY---",
            ZERO_KEY_BASE64
        )
    );
}

#[test]
fn armor_public_key_format() {
    let text = armor_public_key([0u8; 32]);
    assert_eq!(
        text,
        format!(
            "---BEGIN-SNEKCLOUD-PUBLIC-KEY---\n{}\n---END-SNEKCLOUD-PUBLIC-KEY---",
            ZERO_KEY_BASE64
        )
    );
}

#[test]
fn private_key_round_trip() {
    let k = sample_key();
    assert_eq!(extract_private_key(&armor_private_key(k)), Ok(k));
}

#[test]
fn public_key_round_trip() {
    let k = sample_key();
    assert_eq!(extract_public_key(&armor_public_key(k)), Ok(k));
}

#[test]
fn private_armor_is_not_public_armor() {
    let k = sample_key();
    assert_eq!(extract_public_key(&armor_private_key(k)), Err(SnekcloudError::InvalidKey));
    assert_eq!(extract_private_key(&armor_public_key(k)), Err(SnekcloudError::InvalidKey));
}

#[test]
fn missing_prefix_is_invalid_key() {
    let text = armor_private_key(sample_key());
    let stripped = text.trim_start_matches("---BEGIN-SNEKCLOUD-PRIVATE-KEY---\n");
    assert_eq!(extract_private_key(stripped), Err(SnekcloudError::InvalidKey));
}

#[test]
fn missing_suffix_is_invalid_key() {
    let text = armor_private_key(sample_key());
    let stripped = text.trim_end_matches("\n---END-SNEKCLOUD-PRIVATE-KEY---");
    assert_eq!(extract_private_key(stripped), Err(SnekcloudError::InvalidKey));
}

#[test]
fn corrupted_body_is_rejected() {
    let text = armor_private_key(sample_key());
    let corrupted = text.replacen('=', "!", 1);
    assert!(matches!(
        extract_private_key(&corrupted),
        Err(SnekcloudError::Base64DecodeError(_))
    ));
}

#[test]
fn short_key_is_invalid_key() {
    let text = "---BEGIN-SNEKCLOUD-PRIVATE-KEY---\nAAAA\n---END-SNEKCLOUD-PRIVATE-KEY---";
    assert_eq!(extract_private_key(text), Err(SnekcloudError::InvalidKey));
}

#[test]
fn empty_text_is_invalid_key() {
    assert_eq!(extract_public_key(""), Err(SnekcloudError::InvalidKey));
}

#[test]
fn generated_keys_differ() {
    assert_ne!(generate_private_key(), generate_private_key());
}

#[test]
fn invalid_key_message() {
    assert_eq!(SnekcloudError::InvalidKey.message(), "Invalid Key!");
    assert_eq!(
        SnekcloudError::ConfigError("x".to_string()).message(),
        "Config Error: x"
    );
}

#[test]
fn flipped_bits_never_read_back_the_key() {
    let k = sample_key();
    let text = armor_private_key(k);
    let start = "---BEGIN-SNEKCLOUD-PRIVATE-KEY---\n".len();
    let end = text.len() - "\n---END-SNEKCLOUD-PRIVATE-KEY---".len();
    for i in start..end {
        for bit in 0..7 {
            let mut bytes = text.clone().into_bytes();
            bytes[i] ^= 1 << bit;
            if let Ok(corrupted) = String::from_utf8(bytes) {
                assert_ne!(extract_private_key(&corrupted), Ok(k));
            }
        }
    }
}

#[test]
fn extract_key_with_own_armor() {
    let k = sample_key();
    let text = armor_public_key(k);
    assert_eq!(
        extract_key(&text, "---BEGIN-SNEKCLOUD-PUBLIC-KEY---\n", "\n---END-SNEKCLOUD-PUBLIC-KEY---"),
        Ok(k)
    );
    assert_eq!(extract_key(&text, "<", ">"), Err(SnekcloudError::InvalidKey));
}

#[test]
fn decode_error_message() {
    let text = "---BEGIN-SNEKCLOUD-PRIVATE-KEY---\n!!!!\n---END-SNEKCLOUD-PRIVATE-KEY---";
    let e = extract_private_key(text).unwrap_err();
    assert!(e.message().starts_with("Base 64 Decode error: "));
}
