//! The announcement of the accessory to potential controllers.
use crate::config::Config;
use crate::net::IpAddress;
use vstd::prelude::*;

verus! {

/// A service to announce.
#[derive(Debug)]
pub struct Registration {
    pub service_type: String,
    pub name: String,
    pub port: u16,
    pub txt: Vec<String>,
}

impl Registration {
    /// The announcement of an accessory server with that configuration, with all of its TXT
    /// records.
    pub open spec fn announces(&self, config: &Config) -> bool {
        &&& self.service_type@ == "_hap._tcp"@
        &&& self.name@ == config.name@
        &&& self.port == config.port
        &&& self.txt@.map_values(|record: String| record@) == config.txt_texts()
    }
}

/// The announcement of an accessory server with that configuration.
pub fn registration(config: &Config) -> (r: Registration)
    ensures
        r.announces(config),
{
    let records: [String; 9] = config.txt_records();
    let mut txt: Vec<String> = Vec::new();
    let mut i: usize = 0;
    while i < 9
        invariant
            i <= 9,
            txt@.len() == i,
            forall|j: int| 0 <= j < i ==> (#[trigger] txt@[j])@ == config.txt_texts()[j],
            forall|j: int| 0 <= j < 9 ==> (#[trigger] records@[j])@ == config.txt_texts()[j],
        decreases 9 - i,
    {
        txt.push(records[i].clone());
        i = i + 1;
    }
    assert(txt@.map_values(|record: String| record@) =~= config.txt_texts());
    Registration {
        service_type: "_hap._tcp".to_owned(),
        name: config.name.clone(),
        port: config.port,
        txt,
    }
}

/// An mDNS responder: `R` answers queries while the task `T` runs, for as long as the service `S`
/// is kept.
pub struct MdnsResponder<C, R, S, T> {
    /// Where the server's configuration is found.
    pub config: C,
    /// The only address to announce.
    pub host: IpAddress,
    pub responder: R,
    pub service: Option<S>,
    pub task: Option<T>,
}

impl<C, R, S, T> MdnsResponder<C, R, S, T> {
    /// The responder with its service given up.
    pub open spec fn withdrawn(self) -> Self {
        MdnsResponder { service: None, ..self }
    }

    /// Creates a responder that is restricted to the configured host address.
    pub fn new<F>(config: C, host: IpAddress, create: F) -> (r: Self) where
        F: FnOnce(Vec<IpAddress>) -> (R, T),

        requires
            forall|addresses: Vec<IpAddress>|
                addresses@ == seq![host] ==> call_requires(create, (addresses,)),
        ensures
            r.config == config,
            r.host == host,
            r.service is None,
            exists|addresses: Vec<IpAddress>, made: (R, T)|
                {
                    &&& addresses@ == seq![host]
                    &&& #[trigger] call_ensures(create, (addresses,), made)
                    &&& r.responder == made.0
                    &&& r.task == Some(made.1)
                },
    {
        let mut addresses: Vec<IpAddress> = Vec::new();
        addresses.push(host);
        assert(addresses@ =~= seq![host]);
        let (responder, task) = create(addresses);
        MdnsResponder { config, host, responder, service: None, task: Some(task) }
    }

    /// Announces the server by its configuration, in place of what was announced before. What was
    /// announced before is given up first: whoever registers is shown a responder without a
    /// service.
    pub fn update_records<F>(&mut self, config: &Config, register: F) where
        F: FnOnce(&MdnsResponder<C, R, S, T>, Registration) -> S,

        requires
            forall|announcement: Registration|
                announcement.announces(config) ==> #[trigger] call_requires(
                    register,
                    (&old(self).withdrawn(), announcement),
                ),
        ensures
            *final(self) == (MdnsResponder { service: final(self).service, ..*old(self) }),
            exists|announcement: Registration, service: S|
                {
                    &&& announcement.announces(config)
                    &&& #[trigger] call_ensures(
                        register,
                        (&old(self).withdrawn(), announcement),
                        service,
                    )
                    &&& final(self).service == Some(service)
                },
    {
        self.service = None;
        let announcement: Registration = registration(config);
        let service: S = register(&*self, announcement);
        self.service = Some(service);
    }

    /// Hands out the task to run. It can be had once; where it is gone, the whole responder is
    /// made anew, for the same address.
    pub fn run_handle<F>(&mut self, create: F) -> (task: T) where
        F: FnOnce(Vec<IpAddress>) -> (R, T),

        requires
            old(self).task is None ==> forall|addresses: Vec<IpAddress>|
                addresses@ == seq![old(self).host] ==> call_requires(create, (addresses,)),
        ensures
            final(self).task is None,
            *final(self) == (MdnsResponder {
                responder: final(self).responder,
                task: None,
                ..*old(self)
            }),
            old(self).task matches Some(kept) ==> task == kept && final(self).responder == old(
                self,
            ).responder,
            old(self).task is None ==> exists|addresses: Vec<IpAddress>, made: (R, T)|
                {
                    &&& addresses@ == seq![old(self).host]
                    &&& #[trigger] call_ensures(create, (addresses,), made)
                    &&& final(self).responder == made.0
                    &&& task == made.1
                },
    {
        match self.task.take() {
            Some(task) => task,
            None => {
                let mut addresses: Vec<IpAddress> = Vec::new();
                addresses.push(self.host);
                assert(addresses@ =~= seq![self.host]);
                let (responder, task) = create(addresses);
                self.responder = responder;
                task
            },
        }
    }
}

/// What announces a configuration is a `_hap._tcp` service under the configured name and port, with
/// exactly the configuration's nine records, in their order.
pub proof fn law_announcement_has_every_record(
    announcement: Registration,
    config: &Config,
    records: [String; 9],
)
    requires
        announcement.announces(config),
        call_ensures(Config::txt_records, (config,), records),
    ensures
        announcement.service_type@ == "_hap._tcp"@,
        announcement.name@ == config.name@,
        announcement.port == config.port,
        announcement.txt@.len() == 9,
        forall|i: int| 0 <= i < 9 ==> (#[trigger] announcement.txt@[i])@ == records@[i]@,
{
    let texts = announcement.txt@.map_values(|record: String| record@);
    assert(texts.len() == announcement.txt@.len());
    assert forall|i: int| 0 <= i < 9 implies (#[trigger] announcement.txt@[i])@ == records@[i]@ by {
        assert(texts[i] == announcement.txt@[i]@);
        assert(records@[i]@ == config.txt_texts()[i]);
    }
}

/// The registration of a configuration has its name, its port and its records.
pub proof fn law_registration_is_of_the_configuration(
    config: &Config,
    made: Registration,
    records: [String; 9],
)
    requires
        call_ensures(registration, (config,), made),
        call_ensures(Config::txt_records, (config,), records),
    ensures
        made.service_type@ == "_hap._tcp"@,
        made.name@ == config.name@,
        made.port == config.port,
        made.txt@.len() == 9,
        forall|i: int| 0 <= i < 9 ==> (#[trigger] made.txt@[i])@ == records@[i]@,
{
    law_announcement_has_every_record(made, config, records);
}

/// A responder that has been withdrawn has no service and is otherwise the same.
pub proof fn law_withdrawn_has_no_service<C, R, S, T>(responder: MdnsResponder<C, R, S, T>)
    ensures
        responder.withdrawn().service is None,
        responder.withdrawn().config == responder.config,
        responder.withdrawn().host == responder.host,
        responder.withdrawn().responder == responder.responder,
        responder.withdrawn().task == responder.task,
{
}

} // verus!
