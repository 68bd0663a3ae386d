use vpn_core::wireguard::{WireGuardConfig, WireGuardError};

const SAMPLE: &str = "[Interface]\n\
                      PrivateKey = abc123\n\
                      Address = 10.0.1.2/32\n\
                      DNS = 1.1.1.1, 8.8.8.8\n\
                      \n\
                      [Peer]\n\
                      PublicKey = xyz789\n\
                      Endpoint = 1.2.3.4:51820\n\
                      AllowedIPs = 0.0.0.0/0\n\
                      PersistentKeepalive = 25\n";

fn missing_name(r: Result<WireGuardConfig, WireGuardError>) -> String {
    match r {
        Err(WireGuardError::MissingField(name)) => name,
        Err(WireGuardError::InvalidFormat) => panic!("unexpected InvalidFormat"),
        Ok(_) => panic!("parse should have failed"),
    }
}

#[test]
fn test_parse_valid_config() {
    let raw = "[Interface]\n\
               PrivateKey = abc123\n\
               Address = 10.0.1.2/32\n\
               DNS = 1.1.1.1, 8.8.8.8\n\
               \n\
               [Peer]\n\
               PublicKey = xyz789\n\
               Endpoint = 1.2.3.4:51820\n\
               AllowedIPs = 0.0.0.0/0\n\
               PersistentKeepalive = 25\n";

    let config = WireGuardConfig::parse(raw).unwrap();
    assert_eq!(config.private_key, "abc123");
    assert_eq!(config.address, "10.0.1.2/32");
    assert_eq!(config.dns, "1.1.1.1, 8.8.8.8");
    assert_eq!(config.peer_public_key, "xyz789");
    assert_eq!(config.endpoint, "1.2.3.4:51820");
    assert_eq!(config.allowed_ips, "0.0.0.0/0");
    assert_eq!(config.persistent_keepalive, 25);
}

#[test]
fn test_missing_field() {
    let raw = "[Interface]\nPrivateKey = abc\n";
    assert!(WireGuardConfig::parse(raw).is_err());
}

#[test]
fn test_roundtrip() {
    let raw = "[Interface]\n\
               PrivateKey = abc123\n\
               Address = 10.0.1.2/32\n\
               DNS = 1.1.1.1, 8.8.8.8\n\
               \n\
               [Peer]\n\
               PublicKey = xyz789\n\
               Endpoint = 1.2.3.4:51820\n\
               AllowedIPs = 0.0.0.0/0\n\
               PersistentKeepalive = 25\n";

    let config = WireGuardConfig::parse(raw).unwrap();
    let reparsed = WireGuardConfig::parse(&config.to_ini()).unwrap();
    assert_eq!(config.private_key, reparsed.private_key);
    assert_eq!(config.endpoint, reparsed.endpoint);
}

#[test]
fn to_ini_exact_text() {
    let config = WireGuardConfig {
        private_key: "k1".to_string(),
        address: "10.0.0.2/32".to_string(),
        dns: "1.1.1.1".to_string(),
        peer_public_key: "k2".to_string(),
        endpoint: "5.6.7.8:51820".to_string(),
        allowed_ips: "0.0.0.0/0".to_string(),
        persistent_keepalive: 7,
    };
    assert_eq!(
        config.to_ini(),
        "[Interface]\nPrivateKey = k1\nAddress = 10.0.0.2/32\nDNS = 1.1.1.1\n\n[Peer]\n\
         PublicKey = k2\nEndpoint = 5.6.7.8:51820\nAllowedIPs = 0.0.0.0/0\n\
         PersistentKeepalive = 7\n"
    );
}

#[test]
fn round_trip_every_field() {
    let config = WireGuardConfig {
        private_key: "aGVsbG8=".to_string(),
        address: "10.8.0.5/24".to_string(),
        dns: "9.9.9.9, 149.112.112.112".to_string(),
        peer_public_key: "d29ybGQ=".to_string(),
        endpoint: "[2001:db8::1]:51820".to_string(),
        allowed_ips: "0.0.0.0/0, ::/0".to_string(),
        persistent_keepalive: 65535,
    };
    let back = WireGuardConfig::parse(&config.to_ini()).unwrap();
    assert_eq!(back.private_key, config.private_key);
    assert_eq!(back.address, config.address);
    assert_eq!(back.dns, config.dns);
    assert_eq!(back.peer_public_key, config.peer_public_key);
    assert_eq!(back.endpoint, config.endpoint);
    assert_eq!(back.allowed_ips, config.allowed_ips);
    assert_eq!(back.persistent_keepalive, 65535);
}

#[test]
fn round_trip_zero_keepalive() {
    let config = WireGuardConfig::parse(SAMPLE).unwrap();
    let config = WireGuardConfig { persistent_keepalive: 0, ..config };
    let text = config.to_ini();
    assert!(text.ends_with("PersistentKeepalive = 0\n"));
    assert_eq!(WireGuardConfig::parse(&text).unwrap().persistent_keepalive, 0);
}

#[test]
fn missing_each_mandatory_key_is_named() {
    let keys = ["PrivateKey", "Address", "DNS", "PublicKey", "Endpoint", "AllowedIPs"];
    for key in keys.iter() {
        let text: String = SAMPLE
            .lines()
            .filter(|l| !l.starts_with(&format!("{} ", key)))
            .map(|l| format!("{}\n", l))
            .collect();
        assert_eq!(missing_name(WireGuardConfig::parse(&text)), *key);
    }
}

#[test]
fn missing_all_keys_names_private_key() {
    assert_eq!(missing_name(WireGuardConfig::parse("")), "PrivateKey");
    assert_eq!(missing_name(WireGuardConfig::parse("[Interface]\n[Peer]\n")), "PrivateKey");
}

#[test]
fn missing_address_after_private_key() {
    assert_eq!(missing_name(WireGuardConfig::parse("[Interface]\nPrivateKey = abc\n")), "Address");
}

#[test]
fn keepalive_absent_gives_default() {
    let text = SAMPLE.replace("PersistentKeepalive = 25\n", "");
    assert_eq!(WireGuardConfig::parse(&text).unwrap().persistent_keepalive, 25);
}

#[test]
fn keepalive_not_a_number_gives_default() {
    for bad in ["abc", "", "-5", "65536", "+", "1 0", "0x10"].iter() {
        let text = SAMPLE.replace("PersistentKeepalive = 25", &format!("PersistentKeepalive = {}", bad));
        assert_eq!(WireGuardConfig::parse(&text).unwrap().persistent_keepalive, 25, "value {:?}", bad);
    }
}

#[test]
fn keepalive_numbers_are_read() {
    let cases = [("15", 15u16), ("+30", 30), ("007", 7), ("65535", 65535), ("0", 0)];
    for (text_value, expected) in cases.iter() {
        let text = SAMPLE.replace("PersistentKeepalive = 25", &format!("PersistentKeepalive = {}", text_value));
        assert_eq!(WireGuardConfig::parse(&text).unwrap().persistent_keepalive, *expected);
    }
}

#[test]
fn shuffled_lines_and_missing_headers_parse_the_same() {
    let shuffled = "AllowedIPs = 0.0.0.0/0\n\
                    [Peer]\n\
                    Endpoint = 1.2.3.4:51820\n\
                    DNS = 1.1.1.1, 8.8.8.8\n\
                    PersistentKeepalive = 25\n\
                    PublicKey = xyz789\n\
                    Address = 10.0.1.2/32\n\
                    PrivateKey = abc123\n";
    let a = WireGuardConfig::parse(SAMPLE).unwrap();
    let b = WireGuardConfig::parse(shuffled).unwrap();
    assert_eq!(a.private_key, b.private_key);
    assert_eq!(a.address, b.address);
    assert_eq!(a.dns, b.dns);
    assert_eq!(a.peer_public_key, b.peer_public_key);
    assert_eq!(a.endpoint, b.endpoint);
    assert_eq!(a.allowed_ips, b.allowed_ips);
    assert_eq!(a.persistent_keepalive, b.persistent_keepalive);
}

#[test]
fn whitespace_unknown_keys_and_last_value() {
    let text = "  [Interface]  \r\n\
                \tPrivateKey=first\n\
                PrivateKey   =   second  \r\n\
                Address = a=b\n\
                DNS = d\n\
                NoEquals\n\
                MTU = 1420\n\
                PublicKey = p\n\
                Endpoint = e\n\
                AllowedIPs = \n";
    let c = WireGuardConfig::parse(text).unwrap();
    assert_eq!(c.private_key, "second");
    assert_eq!(c.address, "a=b");
    assert_eq!(c.dns, "d");
    assert_eq!(c.allowed_ips, "");
    assert_eq!(c.persistent_keepalive, 25);
}

#[test]
fn header_like_key_lines_are_skipped() {
    let text = SAMPLE.replace("PrivateKey = abc123", "[PrivateKey = abc123");
    assert_eq!(missing_name(WireGuardConfig::parse(&text)), "PrivateKey");
}
