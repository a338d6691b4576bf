//! The configuration of an accessory server.
use crate::net::{get_local_ip, IpAddress};
use crate::numeral::{
    digit_char, law_numeral_reads_back, lemma_digit, numeral, numeral_value, to_decimal,
};
use crate::outside::{base64_text, format_mac, mac_text, sha512_digest};
use crate::pin::{law_setup_code_is_the_decimal_number, Pin};
use crate::setup::{
    generate_setup_id, hash_setup, is_setup_id, lemma_setup_uri_digits, setup_hash_text,
    setup_uri_text, write_setup_uri,
};
use vstd::arithmetic::power::pow;
use vstd::prelude::*;
use vstd::string::StringExecFns;
use vstd::utf8::encode_utf8;

verus! {

/// The device identifier, in the form of a MAC address.
#[derive(Clone, Copy, Debug, PartialEq, Eq, Hash)]
pub struct MacAddress {
    pub octets: [u8; 6],
}

/// The category that best describes the primary function of the accessory, by its number.
#[derive(Clone, Copy, Debug, PartialEq, Eq, Hash, Structural)]
pub struct AccessoryCategory {
    pub id: u8,
}

/// The Bonjour status flag, by its number.
#[derive(Clone, Copy, Debug, PartialEq, Eq, Hash, Structural)]
pub struct BonjourStatusFlag {
    pub bits: u8,
}

/// The Bonjour feature flag, by its number.
#[derive(Clone, Copy, Debug, PartialEq, Eq, Hash, Structural)]
pub struct BonjourFeatureFlag {
    pub bits: u8,
}

impl From<[u8; 6]> for MacAddress {
    fn from(octets: [u8; 6]) -> (r: MacAddress) {
        MacAddress { octets }
    }
}

impl vstd::std_specs::convert::FromSpecImpl<[u8; 6]> for MacAddress {
    open spec fn obeys_from_spec() -> bool {
        true
    }

    open spec fn from_spec(octets: [u8; 6]) -> MacAddress {
        MacAddress { octets }
    }
}

impl AccessoryCategory {
    /// An accessory that fits no other category.
    pub fn other() -> (r: AccessoryCategory)
        ensures
            r.id == 1,
    {
        AccessoryCategory { id: 1 }
    }
}

impl BonjourStatusFlag {
    /// The accessory is paired.
    pub fn zero() -> (r: BonjourStatusFlag)
        ensures
            r.bits == 0,
    {
        BonjourStatusFlag { bits: 0 }
    }

    /// The accessory has not been paired with any controller.
    pub fn not_paired() -> (r: BonjourStatusFlag)
        ensures
            r.bits == 1,
    {
        BonjourStatusFlag { bits: 1 }
    }
}

impl BonjourFeatureFlag {
    /// No feature is claimed.
    pub fn zero() -> (r: BonjourFeatureFlag)
        ensures
            r.bits == 0,
    {
        BonjourFeatureFlag { bits: 0 }
    }
}

/// The configuration options of a HomeKit accessory server.
#[derive(Debug)]
pub struct Config {
    /// IP address to serve on. Defaults to the IP of the system's first non-loopback network
    /// interface.
    pub host: IpAddress,
    /// Port to serve on. Defaults to `32000`.
    pub port: u16,
    /// Eight-digit pin used for pairing. Defaults to `11122333`.
    pub pin: Pin,
    /// Model name of the accessory.
    pub name: String,
    /// Device ID of the accessory. Generated randomly if not specified. It is also the accessory's
    /// pairing identifier, and must persist across reboots.
    pub device_id: MacAddress,
    /// The key pair that the accessory proves its identity with.
    pub device_ed25519_keypair: ed25519_dalek::Keypair,
    /// Current configuration number. Must be incremented when an accessory, service or
    /// characteristic is added or removed.
    pub configuration_number: u64,
    /// Current state number. This must have a value of `1`.
    pub state_number: u8,
    /// Accessory category.
    pub category: AccessoryCategory,
    /// Protocol version, `<major>.<minor>`. Defaults to `1.0`.
    pub protocol_version: String,
    /// Bonjour status flag. Defaults to "not paired" and is changed to zero after a successful
    /// pairing.
    pub status_flag: BonjourStatusFlag,
    /// Bonjour feature flag. Only used to indicate MFi compliance.
    pub feature_flag: BonjourFeatureFlag,
    /// Optional maximum number of paired controllers.
    pub max_peers: Option<usize>,
    /// Setup ID: four uppercase alphanumeric characters. Must persist across restarts.
    pub setup_id: String,
}

/// `Keypair::generate` makes a new key pair from the operating system's random numbers. Nothing
/// is promised of the result, which is a matter of chance. It panics where the operating system
/// has no random numbers to give.
#[verifier::external_body]
fn draw_keypair() -> ed25519_dalek::Keypair {
    ed25519_dalek::Keypair::generate(&mut rand::rngs::OsRng {})
}

/// What a generation of a key pair can give.
pub closed spec fn is_generated_keypair(keypair: ed25519_dalek::Keypair) -> bool {
    call_ensures(draw_keypair, (), keypair)
}

/// Generates an Ed25519 key pair.
pub fn generate_ed25519_keypair() -> (keypair: ed25519_dalek::Keypair)
    ensures
        is_generated_keypair(keypair),
{
    draw_keypair()
}

/// `Rng::gen` on the operating system's generator: six bytes, of which nothing is promised. It
/// panics where the operating system has no random numbers to give.
#[verifier::external_body]
fn random_octets() -> [u8; 6] {
    rand::Rng::gen(&mut rand::rngs::OsRng {})
}

/// What a draw of six random bytes can give.
pub closed spec fn is_draw_of_octets(octets: [u8; 6]) -> bool {
    call_ensures(random_octets, (), octets)
}

/// Generates a random MAC address.
pub fn generate_random_mac_address() -> (address: MacAddress)
    ensures
        is_draw_of_octets(address.octets),
{
    MacAddress::from(random_octets())
}

fn record(key: &str, value: &str) -> (text: String)
    ensures
        text@ == key@ + value@,
{
    let mut text: String = key.to_owned();
    text.append(value);
    text
}

impl Config {
    /// The mDNS TXT records, by their text.
    pub open spec fn txt_texts(&self) -> Seq<Seq<char>> {
        seq![
            "c#="@ + numeral(self.configuration_number as nat, 10),
            "ff="@ + numeral(self.feature_flag.bits as nat, 10),
            "id="@ + mac_text(self.device_id.octets@),
            "md="@ + self.name@,
            "pv="@ + self.protocol_version@,
            "s#="@ + numeral(self.state_number as nat, 10),
            "sf="@ + numeral(self.status_flag.bits as nat, 10),
            "ci="@ + numeral(self.category.id as nat, 10),
            "sh="@ + setup_hash_text(self.setup_id@, mac_text(self.device_id.octets@)),
        ]
    }

    /// Redetermines the `host` field to the IP of the system's first non-loopback network
    /// interface.
    pub fn redetermine_local_ip(&mut self)
        ensures
            *final(self) == (Config { host: final(self).host, ..*old(self) }),
            call_ensures(get_local_ip, (), final(self).host),
            !final(self).host.is_loopback() || final(self).host.is_localhost(),
    {
        self.host = get_local_ip();
    }

    /// Derives the mDNS TXT records.
    pub fn txt_records(&self) -> (records: [String; 9])
        ensures
            forall|i: int| 0 <= i < 9 ==> (#[trigger] records@[i])@ == self.txt_texts()[i],
    {
        [
            record("c#=", to_decimal(self.configuration_number).as_str()),
            record("ff=", to_decimal(self.feature_flag.bits as u64).as_str()),
            record("id=", self.device_id_string().as_str()),
            record("md=", self.name.as_str()),
            record("pv=", self.protocol_version.as_str()),
            record("s#=", to_decimal(self.state_number as u64).as_str()),
            record("sf=", to_decimal(self.status_flag.bits as u64).as_str()),
            record("ci=", to_decimal(self.category.id as u64).as_str()),
            record("sh=", self.setup_hash().as_str()),
        ]
    }

    /// The device id exactly as it goes on the wire, in `id=` and in the setup hash.
    pub fn device_id_string(&self) -> (text: String)
        ensures
            text@ == mac_text(self.device_id.octets@),
    {
        format_mac(&self.device_id.octets)
    }

    /// The Bonjour `sh` value: the first four bytes of SHA-512 over the setup id and the device
    /// id, in base64.
    pub fn setup_hash(&self) -> (text: String)
        ensures
            text@ == setup_hash_text(self.setup_id@, mac_text(self.device_id.octets@)),
            text@ == base64_text(
                sha512_digest(
                    encode_utf8(self.setup_id@) + encode_utf8(mac_text(self.device_id.octets@)),
                ).take(4),
            ),
            text@.len() == 8,
            text@.skip(6) == seq!['=', '='],
    {
        hash_setup(self.setup_id.as_str(), self.device_id_string().as_str())
    }

    /// The `X-HM://` setup URI, which is what a HomeKit setup QR code encodes.
    pub fn setup_uri(&self) -> (text: String)
        ensures
            text@ == setup_uri_text(self.category.id, self.pin@, self.setup_id@),
    {
        write_setup_uri(self.category.id, self.pin.code(), self.setup_id.as_str())
    }
}

impl Default for Config {
    fn default() -> (config: Config)
        ensures
            call_ensures(get_local_ip, (), config.host),
            !config.host.is_loopback() || config.host.is_localhost(),
            config.port == 32000,
            config.pin@ == seq![1u8, 1, 1, 2, 2, 3, 3, 3],
            config.name@ == "Accessory"@,
            call_ensures(generate_random_mac_address, (), config.device_id),
            call_ensures(generate_ed25519_keypair, (), config.device_ed25519_keypair),
            config.configuration_number == 1,
            config.state_number == 1,
            config.category.id == 1,
            config.protocol_version@ == "1.0"@,
            config.status_flag.bits == 1,
            config.feature_flag.bits == 0,
            config.max_peers is None,
            call_ensures(generate_setup_id, (), config.setup_id),
            is_setup_id(config.setup_id@),
    {
        let digits: [u8; 8] = [1, 1, 1, 2, 2, 3, 3, 3];
        assert(digits@ =~= seq![1u8, 1, 1, 2, 2, 3, 3, 3]);
        assert(!crate::pin::too_easy(digits@)) by {
            assert(digits@[0] != digits@[3]);
            assert(digits@[0] == 1 && digits@[1] == 1);
        }
        Config {
            host: get_local_ip(),
            port: 32000,
            pin: Pin::new(digits).unwrap(),
            name: "Accessory".to_owned(),
            device_id: generate_random_mac_address(),
            device_ed25519_keypair: generate_ed25519_keypair(),
            configuration_number: 1,
            state_number: 1,
            category: AccessoryCategory::other(),
            protocol_version: "1.0".to_owned(),
            status_flag: BonjourStatusFlag::not_paired(),
            feature_flag: BonjourFeatureFlag::zero(),
            max_peers: None,
            setup_id: generate_setup_id(),
        }
    }
}

/// The `id=` record and the setup hash carry the same device id: a controller that recomputes the
/// hash from the announced `id=` and the setup id gets the announced `sh=`.
pub proof fn law_announced_id_gives_announced_hash(config: Config)
    ensures
        config.txt_texts()[8] == "sh="@ + setup_hash_text(
            config.setup_id@,
            config.txt_texts()[2].skip(3),
        ),
{
    reveal_strlit("id=");
    assert(config.txt_texts()[2].skip(3) =~= mac_text(config.device_id.octets@));
}

/// The device id on the wire is 17 characters long, and different device ids are written
/// differently.
pub proof fn law_device_id_text_determines_octets(a: Seq<u8>, b: Seq<u8>)
    requires
        a.len() == 6,
        b.len() == 6,
    ensures
        mac_text(a).len() == 17,
        mac_text(a) == mac_text(b) ==> a == b,
{
    if mac_text(a) == mac_text(b) {
        assert forall|i: int| 0 <= i < 6 implies a[i] == b[i] by {
            lemma_mac_digits(a, i);
            lemma_mac_digits(b, i);
            lemma_digit((a[i] / 16) as nat);
            lemma_digit((a[i] % 16) as nat);
            lemma_digit((b[i] / 16) as nat);
            lemma_digit((b[i] % 16) as nat);
        }
        assert(a =~= b);
    }
}

proof fn lemma_mac_digits(octets: Seq<u8>, i: int)
    requires
        octets.len() == 6,
        0 <= i < 6,
    ensures
        mac_text(octets)[3 * i] == digit_char((octets[i] / 16) as nat),
        mac_text(octets)[3 * i + 1] == digit_char((octets[i] % 16) as nat),
{
}

/// The records say what the configuration holds, each under its own key: the numbers in decimal,
/// the name and the protocol version as they are, the device id, and the setup hash over the setup
/// id and that device id.
pub proof fn law_records_say_what_is_configured(config: &Config, records: [String; 9])
    requires
        call_ensures(Config::txt_records, (config,), records),
    ensures
        records@[0]@ == "c#="@ + numeral(config.configuration_number as nat, 10),
        records@[1]@ == "ff="@ + numeral(config.feature_flag.bits as nat, 10),
        records@[2]@ == "id="@ + mac_text(config.device_id.octets@),
        records@[3]@ == "md="@ + config.name@,
        records@[4]@ == "pv="@ + config.protocol_version@,
        records@[5]@ == "s#="@ + numeral(config.state_number as nat, 10),
        records@[6]@ == "sf="@ + numeral(config.status_flag.bits as nat, 10),
        records@[7]@ == "ci="@ + numeral(config.category.id as nat, 10),
        records@[8]@ == "sh="@ + base64_text(
            sha512_digest(
                encode_utf8(config.setup_id@) + encode_utf8(mac_text(config.device_id.octets@)),
            ).take(4),
        ),
{
    assert(records@[0]@ == config.txt_texts()[0]);
    assert(records@[1]@ == config.txt_texts()[1]);
    assert(records@[2]@ == config.txt_texts()[2]);
    assert(records@[3]@ == config.txt_texts()[3]);
    assert(records@[4]@ == config.txt_texts()[4]);
    assert(records@[5]@ == config.txt_texts()[5]);
    assert(records@[6]@ == config.txt_texts()[6]);
    assert(records@[7]@ == config.txt_texts()[7]);
    assert(records@[8]@ == config.txt_texts()[8]);
}

/// A controller reads the configuration back from the records: behind each key of three characters
/// stands the number or the text that is configured.
pub proof fn law_records_read_back(config: &Config, records: [String; 9])
    requires
        call_ensures(Config::txt_records, (config,), records),
    ensures
        records@[0]@.take(3) == seq!['c', '#', '='],
        numeral_value(records@[0]@.skip(3), 10) == config.configuration_number,
        records@[1]@.take(3) == seq!['f', 'f', '='],
        numeral_value(records@[1]@.skip(3), 10) == config.feature_flag.bits,
        records@[2]@.take(3) == seq!['i', 'd', '='],
        records@[3]@.take(3) == seq!['m', 'd', '='],
        records@[3]@.skip(3) == config.name@,
        records@[4]@.take(3) == seq!['p', 'v', '='],
        records@[4]@.skip(3) == config.protocol_version@,
        records@[5]@.take(3) == seq!['s', '#', '='],
        numeral_value(records@[5]@.skip(3), 10) == config.state_number,
        records@[6]@.take(3) == seq!['s', 'f', '='],
        numeral_value(records@[6]@.skip(3), 10) == config.status_flag.bits,
        records@[7]@.take(3) == seq!['c', 'i', '='],
        numeral_value(records@[7]@.skip(3), 10) == config.category.id,
        records@[8]@.take(3) == seq!['s', 'h', '='],
        records@[8]@.skip(3) == base64_text(
            sha512_digest(
                encode_utf8(config.setup_id@) + encode_utf8(records@[2]@.skip(3)),
            ).take(4),
        ),
{
    law_records_say_what_is_configured(config, records);
    reveal_strlit("c#=");
    reveal_strlit("ff=");
    reveal_strlit("id=");
    reveal_strlit("md=");
    reveal_strlit("pv=");
    reveal_strlit("s#=");
    reveal_strlit("sf=");
    reveal_strlit("ci=");
    reveal_strlit("sh=");
    lemma_behind_key("c#="@, numeral(config.configuration_number as nat, 10));
    lemma_behind_key("ff="@, numeral(config.feature_flag.bits as nat, 10));
    lemma_behind_key("id="@, mac_text(config.device_id.octets@));
    lemma_behind_key("md="@, config.name@);
    lemma_behind_key("pv="@, config.protocol_version@);
    lemma_behind_key("s#="@, numeral(config.state_number as nat, 10));
    lemma_behind_key("sf="@, numeral(config.status_flag.bits as nat, 10));
    lemma_behind_key("ci="@, numeral(config.category.id as nat, 10));
    lemma_behind_key("sh="@, records@[8]@.skip(3));
    assert(records@[8]@.skip(3) =~= base64_text(
        sha512_digest(
            encode_utf8(config.setup_id@) + encode_utf8(mac_text(config.device_id.octets@)),
        ).take(4),
    ));
    assert(records@[0]@.take(3) =~= seq!['c', '#', '=']);
    assert(records@[1]@.take(3) =~= seq!['f', 'f', '=']);
    assert(records@[2]@.take(3) =~= seq!['i', 'd', '=']);
    assert(records@[3]@.take(3) =~= seq!['m', 'd', '=']);
    assert(records@[4]@.take(3) =~= seq!['p', 'v', '=']);
    assert(records@[5]@.take(3) =~= seq!['s', '#', '=']);
    assert(records@[6]@.take(3) =~= seq!['s', 'f', '=']);
    assert(records@[7]@.take(3) =~= seq!['c', 'i', '=']);
    assert(records@[8]@.take(3) =~= seq!['s', 'h', '=']);
    law_numeral_reads_back(config.configuration_number as nat, 10);
    law_numeral_reads_back(config.feature_flag.bits as nat, 10);
    law_numeral_reads_back(config.state_number as nat, 10);
    law_numeral_reads_back(config.status_flag.bits as nat, 10);
    law_numeral_reads_back(config.category.id as nat, 10);
}

proof fn lemma_behind_key(key: Seq<char>, value: Seq<char>)
    requires
        key.len() == 3,
    ensures
        (key + value).skip(3) == value,
{
    assert((key + value).skip(3) =~= value);
}

/// The device id on the wire is the six octets, each as two uppercase hexadecimal digits, with
/// colons between them.
pub proof fn law_device_id_is_hexadecimal(config: &Config, text: String)
    requires
        call_ensures(Config::device_id_string, (config,), text),
    ensures
        text@.len() == 17,
        forall|i: int|
            #![trigger config.device_id.octets@[i]]
            0 <= i < 6 ==> {
                let high = config.device_id.octets@[i] as int / 16;
                let low = config.device_id.octets@[i] as int % 16;
                &&& text@[3 * i] as int == (if high < 10 {
                    48 + high
                } else {
                    55 + high
                })
                &&& text@[3 * i + 1] as int == (if low < 10 {
                    48 + low
                } else {
                    55 + low
                })
                &&& i < 5 ==> text@[3 * i + 2] == ':'
            },
{
}

/// The setup hash of a configuration is over its setup id and, behind it, the device id as it is
/// on the wire.
pub proof fn law_configured_hash_is_of_both_identifiers(
    config: &Config,
    device_id: String,
    text: String,
)
    requires
        call_ensures(Config::device_id_string, (config,), device_id),
        call_ensures(Config::setup_hash, (config,), text),
    ensures
        text@ == base64_text(
            sha512_digest(encode_utf8(config.setup_id@) + encode_utf8(device_id@)).take(4),
        ),
{
}

/// What the setup URI of a configuration holds behind `X-HM://`: in nine base-36 digits the number
/// that is made of the category, the flag for IP and the pin's digits read in decimal, and then the
/// setup id.
pub proof fn law_setup_uri_carries_the_pin(config: &Config, digits: [u8; 8], text: String)
    requires
        call_ensures(Pin::digits, (&config.pin,), digits),
        call_ensures(Config::setup_uri, (config,), text),
    ensures
        text@.len() == 16 + config.setup_id@.len(),
        text@.take(7) == seq!['X', '-', 'H', 'M', ':', '/', '/'],
        text@.skip(16) == config.setup_id@,
        forall|i: int|
            7 <= i < 16 ==> {
                let code = digits@[0] * 10_000_000 + digits@[1] * 1_000_000 + digits@[2] * 100_000
                    + digits@[3] * 10_000 + digits@[4] * 1_000 + digits@[5] * 100 + digits@[6] * 10
                    + digits@[7];
                let digit = (config.category.id * 0x8000_0000 + 0x1000_0000 + code) / pow(
                    36,
                    (15 - i) as nat,
                ) % 36;
                (#[trigger] text@[i]) as int == (if digit < 10 {
                    48 + digit
                } else {
                    55 + digit
                })
            },
{
    law_setup_code_is_the_decimal_number(digits@);
    lemma_setup_uri_digits(config.category.id, digits@, config.setup_id@);
}

/// A key pair of the configuration is one that was generated.
proof fn law_keypair_is_generated(keypair: ed25519_dalek::Keypair)
    requires
        is_generated_keypair(keypair),
    ensures
        call_ensures(draw_keypair, (), keypair),
{
}

/// The octets of a random address are those that were drawn.
proof fn law_octets_are_drawn(octets: [u8; 6])
    requires
        is_draw_of_octets(octets),
    ensures
        call_ensures(random_octets, (), octets),
{
}

/// A MAC address holds the octets that it was made from, in their order.
pub proof fn law_mac_address_holds_its_octets(octets: [u8; 6], address: MacAddress)
    requires
        call_ensures(<MacAddress as From<[u8; 6]>>::from, (octets,), address),
    ensures
        address.octets@ == octets@,
{
}

} // verus!
