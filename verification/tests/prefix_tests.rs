use random_mac::{ValidationError, address_with_octets, derive_random_address, verify_prefix};

#[test]
fn valid_prefix_with_colons() {
    assert!(verify_prefix(&String::from("AA:BB:CC")).is_ok());
}

#[test]
fn valid_prefix_without_colons() {
    assert!(verify_prefix(&String::from("aabbcc")).is_ok());
}

#[test]
fn valid_prefix_mixed_case_and_digits() {
    assert!(verify_prefix(&String::from("0a:1B:9f")).is_ok());
    assert!(verify_prefix(&String::from("00:00:00")).is_ok());
    assert!(verify_prefix(&String::from("FF:ff:FF")).is_ok());
}

#[test]
fn valid_prefix_odd_colon_placement() {
    assert!(verify_prefix(&String::from(":aabbcc:")).is_ok());
    assert!(verify_prefix(&String::from("aab:bcc")).is_ok());
}

#[test]
fn short_prefix_is_length_error() {
    assert_eq!(
        verify_prefix(&String::from("AA:BB:C")),
        Err(ValidationError::Length)
    );
}

#[test]
fn long_prefix_is_length_error() {
    assert_eq!(
        verify_prefix(&String::from("AA:BB:CC:D")),
        Err(ValidationError::Length)
    );
}

#[test]
fn empty_prefix_is_length_error() {
    assert_eq!(verify_prefix(&String::from("")), Err(ValidationError::Length));
    assert_eq!(verify_prefix(&String::from("::")), Err(ValidationError::Length));
}

#[test]
fn non_hex_prefix_is_character_error() {
    assert_eq!(
        verify_prefix(&String::from("GG:HH:II")),
        Err(ValidationError::Character)
    );
    assert_eq!(
        verify_prefix(&String::from("aabbcg")),
        Err(ValidationError::Character)
    );
}

#[test]
fn length_error_reported_before_character_error() {
    assert_eq!(
        verify_prefix(&String::from("zz")),
        Err(ValidationError::Length)
    );
}

#[test]
fn address_with_octets_exact_value() {
    assert_eq!(
        address_with_octets("AA:BB:CC", 0x00, 0xAB, 0xFF),
        "AA:BB:CC:00:AB:FF"
    );
    assert_eq!(address_with_octets("00:11:22", 1, 16, 255), "00:11:22:01:10:FF");
}

fn suffix_octets(addr: &str, prefix: &str) -> Vec<u8> {
    assert!(addr.starts_with(prefix));
    let tail = &addr[prefix.len()..];
    let parts: Vec<&str> = tail.split(':').collect();
    assert_eq!(parts.len(), 4);
    assert_eq!(parts[0], "");
    parts[1..]
        .iter()
        .map(|p| {
            assert_eq!(p.len(), 2);
            assert!(p.chars().all(|c| c.is_ascii_hexdigit()));
            assert_eq!(p.to_ascii_uppercase(), *p);
            u8::from_str_radix(p, 16).unwrap()
        })
        .collect()
}

#[test]
fn derived_address_has_prefix_and_three_octets() {
    let addr = derive_random_address("AA:BB:CC");
    let octets = suffix_octets(&addr, "AA:BB:CC");
    assert_eq!(octets.len(), 3);
}

#[test]
fn derived_octets_cover_the_whole_byte_range() {
    let mut seen = [false; 256];
    for _ in 0..2500 {
        let addr = derive_random_address("AA:BB:CC");
        for b in suffix_octets(&addr, "AA:BB:CC") {
            seen[b as usize] = true;
        }
    }
    let missing: Vec<usize> = (0..256).filter(|&i| !seen[i]).collect();
    assert!(
        missing.is_empty(),
        "octet values never drawn: {:?}",
        missing
    );
}

#[test]
fn derived_addresses_vary_between_calls() {
    let first = derive_random_address("AA:BB:CC");
    let mut all_equal = true;
    for _ in 0..64 {
        if derive_random_address("AA:BB:CC") != first {
            all_equal = false;
            break;
        }
    }
    assert!(!all_equal);
}
