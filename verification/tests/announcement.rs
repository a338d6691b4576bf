use hap::config::Config;
use hap::mdns::{registration, MdnsResponder, Registration};
use hap::net::IpAddress;

type Announcer = MdnsResponder<(), String, String, u32>;

const HOST: IpAddress = IpAddress::V4([10, 0, 0, 20]);

fn create(addresses: Vec<IpAddress>) -> (String, u32) {
    assert_eq!(addresses, vec![HOST]);
    ("responder".to_string(), 1)
}

fn recreate(addresses: Vec<IpAddress>) -> (String, u32) {
    assert_eq!(addresses, vec![HOST]);
    ("another".to_string(), 2)
}

#[test]
fn every_record_is_announced() {
    let mut config = Config::default();
    config.name = "Acme Lightbulb".to_string();
    config.port = 1234;
    let announcement = registration(&config);
    assert_eq!(announcement.service_type, "_hap._tcp");
    assert_eq!(announcement.name, "Acme Lightbulb");
    assert_eq!(announcement.port, 1234);
    assert_eq!(announcement.txt.len(), 9);
    assert_eq!(announcement.txt, config.txt_records().to_vec());
}

#[test]
fn only_the_host_is_announced() {
    let mut responder: MdnsResponder<(), String, (), u32> = MdnsResponder::new((), HOST, create);
    assert_eq!(responder.host, HOST);
    assert_eq!(responder.responder, "responder");
    assert_eq!(responder.run_handle(recreate), 1);
    assert_eq!(responder.responder, "responder");
    assert_eq!(responder.run_handle(recreate), 2);
    assert_eq!(responder.responder, "another");
}

#[test]
fn records_replace_those_before() {
    let config = Config::default();
    let mut responder: Announcer = MdnsResponder::new((), HOST, create);
    assert_eq!(responder.service, None);
    responder.update_records(&config, |by: &Announcer, announcement: Registration| {
        assert_eq!(by.responder, "responder");
        assert_eq!(by.service, None);
        assert_eq!(announcement.txt.len(), 9);
        "first".to_string()
    });
    assert_eq!(responder.service.as_deref(), Some("first"));
    responder.update_records(&config, |by: &Announcer, _: Registration| {
        assert_eq!(by.service, None);
        "second".to_string()
    });
    assert_eq!(responder.service.as_deref(), Some("second"));
    assert_eq!(responder.task, Some(1));
}
