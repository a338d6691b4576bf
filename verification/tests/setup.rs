use hap::config::{AccessoryCategory, BonjourFeatureFlag, BonjourStatusFlag, Config, MacAddress};
use hap::net::{get_local_ip, local_address, Interface, IpAddress};
use hap::numeral::{to_base36, to_decimal};
use hap::pin::{Pin, PinError};
use hap::setup::{generate_setup_id, hash_from_digest, hash_setup, pack_payload, setup_id_from};

fn lightbulb() -> Config {
    Config {
        pin: Pin::new([1, 1, 1, 2, 2, 3, 3, 3]).unwrap(),
        name: "Acme Lightbulb".to_string(),
        device_id: MacAddress::from([10, 20, 30, 40, 50, 60]),
        category: AccessoryCategory { id: 5 },
        setup_id: "7OSX".to_string(),
        ..Default::default()
    }
}

#[test]
fn numerals_are_uppercase_and_most_significant_first() {
    assert_eq!(to_base36(0), "0");
    assert_eq!(to_base36(35), "Z");
    assert_eq!(to_base36(36), "10");
    assert_eq!(to_base36(71), "1Z");
    assert_eq!(to_base36(u64::MAX), "3W5E11264SGSF");
    assert_eq!(to_decimal(0), "0");
    assert_eq!(to_decimal(1024), "1024");
    assert_eq!(to_decimal(u64::MAX), u64::MAX.to_string());
}

#[test]
fn numerals_read_back() {
    for value in [0u64, 1, 36, 1295, 1296, 123_456_789, u64::MAX] {
        assert_eq!(u64::from_str_radix(&to_base36(value), 36), Ok(value));
    }
}

#[test]
fn easy_pins_are_refused() {
    assert_eq!(Pin::new([1, 2, 3, 4, 5, 6, 7, 8]).err(), Some(PinError::TooEasy));
    assert_eq!(Pin::new([8, 7, 6, 5, 4, 3, 2, 1]).err(), Some(PinError::TooEasy));
    for digit in 0..10u8 {
        assert_eq!(Pin::new([digit; 8]).err(), Some(PinError::TooEasy));
    }
    assert!(Pin::new([1, 2, 3, 4, 5, 6, 7, 9]).is_ok());
    assert!(Pin::new([0, 0, 0, 0, 0, 0, 0, 1]).is_ok());
}

#[test]
fn pins_are_made_of_digits() {
    assert_eq!(Pin::new([1, 1, 1, 2, 2, 3, 3, 10]).err(), Some(PinError::NotADigit));
    assert_eq!(Pin::new([200; 8]).err(), Some(PinError::NotADigit));
}

#[test]
fn a_pin_reads_as_its_setup_code() {
    let pin = Pin::new([1, 1, 1, 2, 2, 3, 3, 3]).unwrap();
    assert_eq!(pin.code(), 11_122_333);
    assert_eq!(pin.digits(), [1, 1, 1, 2, 2, 3, 3, 3]);
    assert_eq!(Pin::new([0, 0, 0, 0, 0, 0, 1, 2]).unwrap().code(), 12);
}

#[test]
fn the_payload_is_packed_by_its_layout() {
    let value = pack_payload(5, 11_122_333);
    assert_eq!(value, 11_016_976_029);
    assert_eq!(value >> 31, 5);
    assert_eq!((value >> 27) & 15, 2);
    assert_eq!(value & 0x7ff_ffff, 11_122_333);
    assert_eq!(pack_payload(0, 1), 268_435_457);
}

#[test]
fn setup_uris() {
    let mut config = lightbulb();
    assert_eq!(config.setup_uri(), "X-HM://00527813X7OSX");
    config.category = AccessoryCategory { id: 255 };
    config.setup_id = "0000".to_string();
    assert_eq!(config.setup_uri(), "X-HM://06ZP2AW0T0000");
    config.category = AccessoryCategory { id: 17 };
    config.pin = Pin::new([9, 9, 9, 9, 9, 9, 9, 8]).unwrap();
    config.setup_id = "AB12".to_string();
    assert_eq!(config.setup_uri(), "X-HM://00GXUTBEMAB12");
    config.category = AccessoryCategory { id: 2 };
    config.pin = Pin::new([0, 0, 0, 0, 0, 0, 1, 2]).unwrap();
    config.setup_id = "ZZZZ".to_string();
    assert_eq!(config.setup_uri(), "X-HM://0023GXK3WZZZZ");
}

#[test]
fn a_setup_uri_reads_back() {
    let uri = lightbulb().setup_uri();
    assert_eq!(&uri[..7], "X-HM://");
    assert_eq!(u64::from_str_radix(&uri[7..16], 36), Ok(pack_payload(5, 11_122_333)));
    assert_eq!(&uri[16..], "7OSX");
}

#[test]
fn the_device_id_is_written_in_uppercase() {
    assert_eq!(lightbulb().device_id_string(), "0A:14:1E:28:32:3C");
    let mut config = lightbulb();
    config.device_id = MacAddress::from([0xab, 0xcd, 0xef, 0x01, 0x23, 0x45]);
    assert_eq!(config.device_id_string(), "AB:CD:EF:01:23:45");
}

#[test]
fn setup_hashes() {
    let mut config = lightbulb();
    assert_eq!(config.setup_hash(), "daf1KA==");
    config.device_id = MacAddress::from([0xab, 0xcd, 0xef, 0x01, 0x23, 0x45]);
    assert_eq!(config.setup_hash(), "a1HYrw==");
}

#[test]
fn a_setup_hash_is_the_first_four_bytes_in_base64() {
    assert_eq!(hash_from_digest(&[1, 2, 3, 4]), "AQIDBA==");
    assert_eq!(hash_from_digest(&[0xfb, 0xff, 0xbf, 0, 7, 7]), "+/+/AA==");
}

#[test]
fn the_announced_id_gives_the_announced_hash() {
    let records = lightbulb().txt_records();
    let announced = records[2].strip_prefix("id=").unwrap();
    assert_eq!(records[8], format!("sh={}", hash_setup("7OSX", announced)));
}

#[test]
fn txt_records_have_nine_keys() {
    let mut config = lightbulb();
    config.configuration_number = 42;
    config.status_flag = BonjourStatusFlag::zero();
    let records = config.txt_records();
    assert_eq!(
        records,
        [
            "c#=42",
            "ff=0",
            "id=0A:14:1E:28:32:3C",
            "md=Acme Lightbulb",
            "pv=1.0",
            "s#=1",
            "sf=0",
            "ci=5",
            "sh=daf1KA==",
        ]
    );
}

#[test]
fn the_default_configuration() {
    let config = Config::default();
    assert_eq!(config.port, 32000);
    assert_eq!(config.pin.digits(), [1, 1, 1, 2, 2, 3, 3, 3]);
    assert_eq!(config.name, "Accessory");
    assert_eq!(config.configuration_number, 1);
    assert_eq!(config.state_number, 1);
    assert_eq!(config.category, AccessoryCategory::other());
    assert_eq!(config.protocol_version, "1.0");
    assert_eq!(config.status_flag, BonjourStatusFlag::not_paired());
    assert_eq!(config.feature_flag, BonjourFeatureFlag::zero());
    assert_eq!(config.max_peers, None);
    assert_eq!(config.setup_id.len(), 4);
}

#[test]
fn default_identities_differ() {
    let first = Config::default();
    let second = Config::default();
    assert_ne!(first.device_id, second.device_id);
    assert_ne!(
        first.device_ed25519_keypair.to_bytes(),
        second.device_ed25519_keypair.to_bytes()
    );
}

#[test]
fn setup_ids_are_uppercase_and_alphanumeric() {
    assert_eq!(setup_id_from(&vec![7, 24, 28, 33]), "7OSX");
    assert_eq!(setup_id_from(&vec![0, 9, 10, 35]), "09AZ");
    for _ in 0..50 {
        let id = generate_setup_id();
        assert_eq!(id.len(), 4);
        assert!(id.chars().all(|c| c.is_ascii_digit() || c.is_ascii_uppercase()));
    }
}

#[test]
fn the_first_outward_interface_is_served_on() {
    let loopback = Interface { address: IpAddress::V4([127, 0, 0, 1]), loopback: true };
    let first = Interface { address: IpAddress::V4([10, 0, 0, 20]), loopback: false };
    let second = Interface { address: IpAddress::V4([192, 168, 8, 1]), loopback: false };
    assert_eq!(local_address(&vec![loopback, first, second]), IpAddress::V4([10, 0, 0, 20]));
    assert_eq!(local_address(&vec![second, first]), IpAddress::V4([192, 168, 8, 1]));
    assert_eq!(local_address(&vec![loopback]), IpAddress::V4([127, 0, 0, 1]));
    assert_eq!(local_address(&vec![]), IpAddress::V4([127, 0, 0, 1]));
}

#[test]
fn redetermining_the_address_changes_nothing_else() {
    let mut config = lightbulb();
    config.host = IpAddress::V4([0, 0, 0, 0]);
    let uri = config.setup_uri();
    let records = config.txt_records();
    config.redetermine_local_ip();
    assert_eq!(config.host, get_local_ip());
    assert_ne!(config.host, IpAddress::V4([0, 0, 0, 0]));
    assert_eq!(config.setup_uri(), uri);
    assert_eq!(config.txt_records(), records);
}
