//! The address that the server listens on and announces.
use vstd::prelude::*;

verus! {

/// An IP address, by its octets.
#[derive(Clone, Copy, Debug, PartialEq, Eq, Hash)]
pub enum IpAddress {
    V4([u8; 4]),
    V6([u8; 16]),
}

/// A network interface of this machine.
#[derive(Clone, Copy, Debug, PartialEq, Eq, Hash)]
pub struct Interface {
    /// The address of the interface.
    pub address: IpAddress,
    /// Whether it is a loopback interface.
    pub loopback: bool,
}

impl IpAddress {
    /// `127.0.0.1`.
    pub open spec fn is_localhost(&self) -> bool {
        self matches IpAddress::V4(octets) && octets@ == seq![127u8, 0, 0, 1]
    }

    /// An address of `127.0.0.0/8`, or `::1`.
    pub open spec fn is_loopback(&self) -> bool {
        match self {
            IpAddress::V4(octets) => octets@[0] == 127,
            IpAddress::V6(octets) => octets@ == seq![
                0u8, 0, 0, 0, 0, 0, 0, 0, 0, 0, 0, 0, 0, 0, 0, 1,
            ],
        }
    }
}

/// `found` is the first of the interfaces that is not a loopback interface.
pub open spec fn is_first_outward(interfaces: Seq<Interface>, found: int) -> bool {
    &&& 0 <= found < interfaces.len()
    &&& !interfaces[found].loopback
    &&& forall|i: int| 0 <= i < found ==> interfaces[i].loopback
}

/// The address of the first interface that is not a loopback interface, or `127.0.0.1` where
/// there is none.
pub open spec fn is_local_address(interfaces: Seq<Interface>, address: IpAddress) -> bool {
    ||| exists|found: int|
        #[trigger] is_first_outward(interfaces, found) && address == interfaces[found].address
    ||| (forall|i: int| 0 <= i < interfaces.len() ==> interfaces[i].loopback)
        && address.is_localhost()
}

/// Picks the address to serve on from the machine's interfaces.
pub fn local_address(interfaces: &Vec<Interface>) -> (address: IpAddress)
    ensures
        is_local_address(interfaces@, address),
{
    let mut i: usize = 0;
    while i < interfaces.len()
        invariant
            i <= interfaces@.len(),
            forall|j: int| 0 <= j < i ==> interfaces@[j].loopback,
        decreases interfaces@.len() - i,
    {
        if !interfaces[i].loopback {
            assert(is_first_outward(interfaces@, i as int));
            return interfaces[i].address;
        }
        i = i + 1;
    }
    IpAddress::V4([127, 0, 0, 1])
}

/// Two addresses that both answer for the same interfaces are the same address, so the choice
/// leaves nothing open.
pub proof fn law_local_address_is_unique(interfaces: Seq<Interface>, a: IpAddress, b: IpAddress)
    requires
        is_local_address(interfaces, a),
        is_local_address(interfaces, b),
    ensures
        a == b,
{
    if forall|i: int| 0 <= i < interfaces.len() ==> interfaces[i].loopback {
        assert(a->V4_0@ =~= b->V4_0@);
        assert(a->V4_0 =~= b->V4_0);
    } else {
        let m = choose|found: int|
            #[trigger] is_first_outward(interfaces, found) && a == interfaces[found].address;
        let n = choose|found: int|
            #[trigger] is_first_outward(interfaces, found) && b == interfaces[found].address;
        assert(m == n);
    }
}

/// `if_addrs::get_if_addrs` lists the addresses of this machine's network interfaces, in the
/// system's order, or fails (`None`). Which there are is up to the machine; of each,
/// `Interface::is_loopback` says whether its address is a loopback address.
#[verifier::external_body]
fn local_interfaces() -> (r: Option<Vec<Interface>>)
    ensures
        r matches Some(found) ==> forall|i: int|
            0 <= i < found@.len() ==> (#[trigger] found@[i]).loopback
                == found@[i].address.is_loopback(),
{
    let found = if_addrs::get_if_addrs().ok()?;
    let convert = |from: &if_addrs::Interface| Interface {
        address: match &from.addr {
            if_addrs::IfAddr::V4(v4) => IpAddress::V4(v4.ip.octets()),
            if_addrs::IfAddr::V6(v6) => IpAddress::V6(v6.ip.octets()),
        },
        loopback: from.is_loopback(),
    };
    Some(found.iter().map(convert).collect())
}

/// What a listing of the machine's interfaces can give.
pub closed spec fn is_listing(listed: Option<Vec<Interface>>) -> bool {
    call_ensures(local_interfaces, (), listed)
}

/// The interfaces that a listing gave: none where it failed.
pub open spec fn listed_interfaces(listed: Option<Vec<Interface>>) -> Seq<Interface> {
    match listed {
        Some(found) => found@,
        None => Seq::empty(),
    }
}

/// The address to serve on is a loopback address exactly where every listed interface is a loopback
/// interface.
pub proof fn law_loopback_only_where_all_are(listed: Option<Vec<Interface>>, address: IpAddress)
    requires
        is_listing(listed),
        is_local_address(listed_interfaces(listed), address),
    ensures
        address.is_loopback() <==> forall|i: int|
            0 <= i < listed_interfaces(listed).len() ==> listed_interfaces(listed)[i].loopback,
{
}

/// The IP of the system's first non-loopback network interface, or `127.0.0.1` where there is
/// none or the interfaces cannot be listed.
pub fn get_local_ip() -> (address: IpAddress)
    ensures
        exists|listed: Option<Vec<Interface>>|
            {
                &&& #[trigger] is_listing(listed)
                &&& is_local_address(listed_interfaces(listed), address)
                &&& address.is_loopback() <==> forall|i: int|
                    0 <= i < listed_interfaces(listed).len() ==> listed_interfaces(
                        listed,
                    )[i].loopback
            },
        !address.is_loopback() || address.is_localhost(),
{
    let listed: Option<Vec<Interface>> = local_interfaces();
    let ghost given = listed;
    let address: IpAddress = match listed {
        Some(interfaces) => local_address(&interfaces),
        None => local_address(&Vec::new()),
    };
    proof {
        law_loopback_only_where_all_are(given, address);
    }
    address
}

/// The address to serve on is that of the first interface that is not a loopback interface, and
/// `127.0.0.1` where all of them are, or where there is none.
pub proof fn law_first_outward_interface_is_served(interfaces: &Vec<Interface>, address: IpAddress)
    requires
        call_ensures(local_address, (interfaces,), address),
    ensures
        forall|found: int|
            0 <= found < interfaces@.len() && !(#[trigger] interfaces@[found]).loopback && (forall|
                i: int,
            |
                0 <= i < found ==> (#[trigger] interfaces@[i]).loopback) ==> address
                == interfaces@[found].address,
        (forall|i: int| 0 <= i < interfaces@.len() ==> (#[trigger] interfaces@[i]).loopback) ==> {
            &&& address is V4
            &&& address->V4_0@ == seq![127u8, 0, 0, 1]
        },
{
    assert forall|found: int|
        0 <= found < interfaces@.len() && !(#[trigger] interfaces@[found]).loopback && (forall|
            i: int,
        |
            0 <= i < found ==> (#[trigger] interfaces@[i]).loopback) implies address
        == interfaces@[found].address by {
        let other = choose|other: int|
            #[trigger] is_first_outward(interfaces@, other) && address
                == interfaces@[other].address;
        assert(other == found);
    }
}

/// The local address is that of the first interface in a listing of the machine's that is not a
/// loopback interface, and `127.0.0.1` where there is none or the listing failed.
pub proof fn law_local_ip_is_of_a_listing(address: IpAddress)
    requires
        call_ensures(get_local_ip, (), address),
    ensures
        exists|listed: Option<Vec<Interface>>|
            {
                &&& #[trigger] is_listing(listed)
                &&& listed is None ==> address is V4 && address->V4_0@ == seq![127u8, 0, 0, 1]
                &&& listed matches Some(found) ==> {
                    &&& forall|k: int|
                        0 <= k < found@.len() && !(#[trigger] found@[k]).loopback && (forall|i: int|
                            0 <= i < k ==> (#[trigger] found@[i]).loopback) ==> address
                            == found@[k].address
                    &&& (forall|i: int|
                        0 <= i < found@.len() ==> (#[trigger] found@[i]).loopback) ==> address is V4
                        && address->V4_0@ == seq![127u8, 0, 0, 1]
                }
            },
{
    let listed = choose|listed: Option<Vec<Interface>>|
        {
            &&& #[trigger] is_listing(listed)
            &&& is_local_address(listed_interfaces(listed), address)
        };
    if let Some(found) = listed {
        assert forall|k: int|
            0 <= k < found@.len() && !(#[trigger] found@[k]).loopback && (forall|i: int|
                0 <= i < k ==> (#[trigger] found@[i]).loopback) implies address
            == found@[k].address by {
            let other = choose|other: int|
                #[trigger] is_first_outward(found@, other) && address == found@[other].address;
            assert(other == k);
        }
    }
}

/// In a listing exactly the addresses of `127.0.0.0/8` and `::1` are those of loopback interfaces.
pub proof fn law_loopback_interfaces_have_loopback_addresses(
    listed: Option<Vec<Interface>>,
    found: Vec<Interface>,
    i: int,
)
    requires
        is_listing(listed),
        listed == Some(found),
        0 <= i < found@.len(),
    ensures
        found@[i].loopback <==> {
            ||| found@[i].address matches IpAddress::V4(octets) && octets@[0] == 127
            ||| found@[i].address matches IpAddress::V6(octets) && octets@ == seq![
                0u8, 0, 0, 0, 0, 0, 0, 0, 0, 0, 0, 0, 0, 0, 0, 1,
            ]
        },
{
    let all = listed_interfaces(listed);
    assert(all == found@);
    assert(all[i].loopback ==> all[i].address.is_loopback());
    assert(!all[i].loopback ==> !all[i].address.is_loopback());
}

/// A listing is what the machine gave.
proof fn law_listing_is_listed(listed: Option<Vec<Interface>>)
    requires
        is_listing(listed),
    ensures
        call_ensures(local_interfaces, (), listed),
{
}

} // verus!
