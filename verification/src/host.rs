//! Hosts: one container's name, primary address and published ports, and the
//! rules that derive them from an inspection record.

use vstd::prelude::*;
use vstd::string::*;

use crate::text::{max_of, width, width_of};

verus! {

/// Why a run could not produce a table.
#[derive(Clone, Copy, Debug, PartialEq, Eq, Structural)]
pub enum Failure {
    /// The input is not JSON of the expected shape.
    Decode,
    /// A record is attached to no network, so it has no address.
    MissingNetwork,
    /// A port key is not a port and a protocol separated by `/`.
    MalformedPortKey,
}

/// A published port: its number and its protocol, both as written.
#[derive(Clone, Debug, PartialEq, Eq)]
pub struct Port {
    pub protocol: String,
    pub number: String,
}

/// What a `Port` stands for.
pub struct PortView {
    pub protocol: Seq<char>,
    pub number: Seq<char>,
}

impl View for Port {
    type V = PortView;

    open spec fn view(&self) -> PortView {
        PortView { protocol: self.protocol@, number: self.number@ }
    }
}

/// One network that a container is attached to.
#[derive(Clone, Debug, PartialEq, Eq)]
pub struct Network {
    pub name: String,
    pub ip_address: String,
}

/// What a `Network` stands for.
pub struct NetworkView {
    pub name: Seq<char>,
    pub ip_address: Seq<char>,
}

impl View for Network {
    type V = NetworkView;

    open spec fn view(&self) -> NetworkView {
        NetworkView { name: self.name@, ip_address: self.ip_address@ }
    }
}

/// One container as the runtime reports it: the raw name, the networks in
/// the order they were reported, and the keys of its published ports, each
/// of the form `<port>/<protocol>`.
#[derive(Clone, Debug, PartialEq, Eq)]
pub struct Inspect {
    pub name: String,
    pub networks: Vec<Network>,
    pub port_keys: Vec<String>,
}

/// What an `Inspect` stands for.
pub struct InspectView {
    pub name: Seq<char>,
    pub networks: Seq<NetworkView>,
    pub port_keys: Seq<Seq<char>>,
}

impl View for Inspect {
    type V = InspectView;

    open spec fn view(&self) -> InspectView {
        InspectView {
            name: self.name@,
            networks: Seq::new(self.networks@.len(), |i: int| self.networks@[i]@),
            port_keys: Seq::new(self.port_keys@.len(), |i: int| self.port_keys@[i]@),
        }
    }
}

/// A container ready for display.
#[derive(Clone, Debug, PartialEq, Eq)]
pub struct Host {
    pub name: String,
    pub ip: String,
    pub ports: Vec<Port>,
}

/// What a `Host` stands for.
pub struct HostView {
    pub name: Seq<char>,
    pub ip: Seq<char>,
    pub ports: Seq<PortView>,
}

impl View for Host {
    type V = HostView;

    open spec fn view(&self) -> HostView {
        HostView {
            name: self.name@,
            ip: self.ip@,
            ports: Seq::new(self.ports@.len(), |i: int| self.ports@[i]@),
        }
    }
}

/// The protocol whose ports are assumed to speak HTTP.
pub open spec fn tcp() -> Seq<char> {
    seq!['t', 'c', 'p']
}

/// The scheme prefix of every URL.
pub open spec fn scheme() -> Seq<char> {
    seq!['h', 't', 't', 'p', ':', '/', '/']
}

/// The URL of a port at an address: `http://<ip>:<number>` for a TCP port,
/// nothing for any other protocol. The protocol is compared exactly.
pub open spec fn url_of(ip: Seq<char>, port: PortView) -> Seq<char> {
    if port.protocol == tcp() {
        scheme() + ip + seq![':'] + port.number
    } else {
        Seq::empty()
    }
}

/// A container name without its leading `/`, if it has one. Only one is
/// taken off.
pub open spec fn stripped_name(raw: Seq<char>) -> Seq<char> {
    if raw.len() > 0 && raw[0] == '/' {
        raw.drop_first()
    } else {
        raw
    }
}

/// The position of the first `/` in `key`, or the length of `key` if it has
/// none.
pub open spec fn first_slash(key: Seq<char>) -> nat
    decreases key.len(),
{
    if key.len() == 0 || key[0] == '/' {
        0
    } else {
        1 + first_slash(key.drop_first())
    }
}

/// The port that a key names: what stands before its first `/` is the
/// number, what stands after it the protocol. Both must be non-empty.
pub open spec fn port_of_key(key: Seq<char>) -> Option<PortView> {
    let at = first_slash(key) as int;
    if 0 < at && at + 1 < key.len() {
        Some(PortView { number: key.subrange(0, at), protocol: key.subrange(at + 1, key.len() as int) })
    } else {
        None
    }
}

/// `first_slash` is within the key, no `/` stands before it, and a `/`
/// stands at it unless the key has none.
pub proof fn lemma_first_slash(key: Seq<char>)
    ensures
        first_slash(key) <= key.len(),
        forall|j: int| 0 <= j < first_slash(key) ==> key[j] != '/',
        first_slash(key) < key.len() ==> key[first_slash(key) as int] == '/',
    decreases key.len(),
{
    if key.len() == 0 || key[0] == '/' {
    } else {
        let rest = key.drop_first();
        lemma_first_slash(rest);
        assert forall|j: int| 0 <= j < first_slash(key) implies key[j] != '/' by {
            if j > 0 {
                assert(key[j] == rest[j - 1]);
            }
        }
        let at = first_slash(rest) as int;
        assert(at < rest.len() ==> rest[at] == key[at + 1]);
    }
}

/// A position that holds a `/` with none before it is the first slash.
pub proof fn lemma_first_slash_is(key: Seq<char>, at: int)
    requires
        0 <= at <= key.len(),
        forall|j: int| 0 <= j < at ==> key[j] != '/',
        at < key.len() ==> key[at] == '/',
    ensures
        first_slash(key) == at,
{
    lemma_first_slash(key);
    let f = first_slash(key) as int;
    if f < at {
        assert(key[f] != '/');
    } else if at < f {
        assert(key[at] != '/');
    }
}

/// A key that names a port is the port's number, a `/` and the port's
/// protocol. Neither is empty, and the number holds no `/`.
pub proof fn lemma_key_of_port(key: Seq<char>)
    requires
        port_of_key(key) is Some,
    ensures
        key == port_of_key(key)->0.number + seq!['/'] + port_of_key(key)->0.protocol,
        port_of_key(key)->0.number.len() > 0,
        port_of_key(key)->0.protocol.len() > 0,
        !port_of_key(key)->0.number.contains('/'),
{
    lemma_first_slash(key);
    let port = port_of_key(key)->0;
    assert(key =~= port.number + seq!['/'] + port.protocol);
}

/// A non-empty number without a `/`, a `/` and a non-empty protocol make a
/// key that names exactly that port. The protocol may hold further `/`.
pub proof fn lemma_port_of_built_key(number: Seq<char>, protocol: Seq<char>)
    requires
        number.len() > 0,
        protocol.len() > 0,
        !number.contains('/'),
    ensures
        port_of_key(number + seq!['/'] + protocol) == Some(PortView { protocol, number }),
{
    let key = number + seq!['/'] + protocol;
    assert forall|j: int| 0 <= j < number.len() implies key[j] != '/' by {
        assert(number.contains(key[j]));
    }
    lemma_first_slash_is(key, number.len() as int);
    assert(key.subrange(0, number.len() as int) =~= number);
    assert(key.subrange(number.len() as int + 1, key.len() as int) =~= protocol);
}

/// A key names no port exactly when it has no `/`, or nothing before its
/// first `/`, or nothing after it.
pub proof fn lemma_malformed_key(key: Seq<char>)
    ensures
        port_of_key(key) is None <==> (!key.contains('/') || key[0] == '/' || first_slash(key) + 1
            == key.len()),
{
    lemma_first_slash(key);
    let at = first_slash(key) as int;
    if key.contains('/') {
        let j = choose|j: int| 0 <= j < key.len() && key[j] == '/';
        assert(at <= j);
    } else if at < key.len() {
        assert(key.contains(key[at]));
    }
}

/// The ports that a list of keys names, in the order of the keys, or `None`
/// if one of the keys names no port.
pub open spec fn ports_of_keys(keys: Seq<Seq<char>>) -> Option<Seq<PortView>> {
    if forall|i: int| 0 <= i < keys.len() ==> (#[trigger] port_of_key(keys[i])) is Some {
        Some(Seq::new(keys.len(), |i: int| port_of_key(keys[i])->0))
    } else {
        None
    }
}

/// The host that a record describes. A key that names no port is reported
/// before a missing network. The address is that of the first network.
pub open spec fn host_of(record: InspectView) -> Result<HostView, Failure> {
    match ports_of_keys(record.port_keys) {
        None => Err(Failure::MalformedPortKey),
        Some(ports) => if record.networks.len() == 0 {
            Err(Failure::MissingNetwork)
        } else {
            Ok(
                HostView {
                    name: stripped_name(record.name),
                    ip: record.networks[0].ip_address,
                    ports,
                },
            )
        },
    }
}

/// The widths of the protocols of a host's ports, in port order.
pub open spec fn protocol_widths(host: HostView) -> Seq<nat> {
    Seq::new(host.ports.len(), |i: int| width_of(host.ports[i].protocol))
}

/// The widths of the numbers of a host's ports, in port order.
pub open spec fn number_widths(host: HostView) -> Seq<nat> {
    Seq::new(host.ports.len(), |i: int| width_of(host.ports[i].number))
}

/// The widths of the URLs of a host's ports, in port order.
pub open spec fn url_widths(host: HostView) -> Seq<nat> {
    Seq::new(host.ports.len(), |i: int| width_of(url_of(host.ip, host.ports[i])))
}

/// Takes one leading `/` off a container name.
pub fn strip_name(raw: &str) -> (name: String)
    ensures
        name@ == stripped_name(raw@),
{
    let n = raw.unicode_len();
    if n > 0 && raw.get_char(0) == '/' {
        let rest = raw.substring_char(1, n);
        assert(rest@ =~= raw@.drop_first());
        rest.to_owned()
    } else {
        raw.to_owned()
    }
}

/// Splits a port key at its first `/` into number and protocol. A key
/// without a `/`, or with nothing before or after it, names no port.
pub fn parse_port_key(key: &str) -> (res: Result<Port, Failure>)
    ensures
        match res {
            Ok(port) => port_of_key(key@) == Some(port@),
            Err(e) => e == Failure::MalformedPortKey && port_of_key(key@) is None,
        },
{
    let n = key.unicode_len();
    let mut at: usize = 0;
    while at < n && key.get_char(at) != '/'
        invariant
            at <= n,
            n == key@.len(),
            forall|j: int| 0 <= j < at ==> key@[j] != '/',
        decreases n - at,
    {
        at = at + 1;
    }
    proof {
        lemma_first_slash_is(key@, at as int);
    }
    if at == 0 || at >= n - 1 {
        return Err(Failure::MalformedPortKey);
    }
    let number = key.substring_char(0, at).to_owned();
    let protocol = key.substring_char(at + 1, n).to_owned();
    Ok(Port { protocol, number })
}

impl Host {
    /// Builds the host that a record describes: the name without its
    /// leading `/`, the address of the first network, and one port for each
    /// port key, in the order of the keys.
    pub fn from_inspect(inspect: &Inspect) -> (res: Result<Host, Failure>)
        ensures
            match res {
                Ok(host) => host_of(inspect@) == Ok::<HostView, Failure>(host@),
                Err(e) => host_of(inspect@) == Err::<HostView, Failure>(e),
            },
    {
        let ghost keys = inspect@.port_keys;
        let mut ports: Vec<Port> = Vec::new();
        let mut i: usize = 0;
        while i < inspect.port_keys.len()
            invariant
                i <= inspect.port_keys.len(),
                keys == inspect@.port_keys,
                ports@.len() == i,
                forall|j: int| 0 <= j < i ==> (#[trigger] port_of_key(keys[j])) == Some(ports@[j]@),
            decreases inspect.port_keys.len() - i,
        {
            match parse_port_key(inspect.port_keys[i].as_str()) {
                Ok(port) => {
                    ports.push(port);
                },
                Err(e) => {
                    assert(port_of_key(keys[i as int]) is None);
                    return Err(e);
                },
            }
            i = i + 1;
        }
        assert(ports_of_keys(keys) is Some);
        if inspect.networks.len() == 0 {
            return Err(Failure::MissingNetwork);
        }
        let host = Host {
            name: strip_name(inspect.name.as_str()),
            ip: inspect.networks[0].ip_address.clone(),
            ports,
        };
        assert(host@.ports =~= ports_of_keys(keys)->0);
        Ok(host)
    }

    /// The URL at which `port` is reached at `ip`: `http://<ip>:<number>`
    /// for a TCP port, the empty string for any other.
    pub fn make_url(ip: &String, port: &Port) -> (url: String)
        ensures
            url@ == url_of(ip@, port@),
    {
        proof {
            reveal_strlit("tcp");
            reveal_strlit("http://");
            reveal_strlit(":");
        }
        assert("tcp"@ =~= tcp());
        assert("http://"@ =~= scheme());
        assert(":"@ =~= seq![':']);
        let tcp = "tcp".to_owned();
        if port.protocol == tcp {
            let mut url = "http://".to_owned();
            url.append(ip.as_str());
            url.append(":");
            url.append(port.number.as_str());
            url
        } else {
            String::new()
        }
    }

    /// The width of the name.
    pub fn len_name(&self) -> (w: usize)
        ensures
            w == width_of(self@.name),
    {
        width(self.name.as_str())
    }

    /// The width of the address.
    pub fn len_ip(&self) -> (w: usize)
        ensures
            w == width_of(self@.ip),
    {
        width(self.ip.as_str())
    }

    /// The width of the widest protocol among the ports, 0 without ports.
    pub fn len_protocol(&self) -> (w: usize)
        ensures
            w == max_of(0, protocol_widths(self@)),
    {
        let ghost ws = protocol_widths(self@);
        let mut acc: usize = 0;
        let mut i: usize = 0;
        while i < self.ports.len()
            invariant
                i <= self.ports.len(),
                ws == protocol_widths(self@),
                acc == max_of(0, ws.take(i as int)),
            decreases self.ports.len() - i,
        {
            let w = width(self.ports[i].protocol.as_str());
            assert(ws.take(i + 1).drop_last() =~= ws.take(i as int));
            if w > acc {
                acc = w;
            }
            i = i + 1;
        }
        assert(ws.take(i as int) =~= ws);
        acc
    }

    /// The width of the widest port number among the ports, 0 without
    /// ports.
    pub fn len_port(&self) -> (w: usize)
        ensures
            w == max_of(0, number_widths(self@)),
    {
        let ghost ws = number_widths(self@);
        let mut acc: usize = 0;
        let mut i: usize = 0;
        while i < self.ports.len()
            invariant
                i <= self.ports.len(),
                ws == number_widths(self@),
                acc == max_of(0, ws.take(i as int)),
            decreases self.ports.len() - i,
        {
            let w = width(self.ports[i].number.as_str());
            assert(ws.take(i + 1).drop_last() =~= ws.take(i as int));
            if w > acc {
                acc = w;
            }
            i = i + 1;
        }
        assert(ws.take(i as int) =~= ws);
        acc
    }

    /// The width of the widest URL among the ports, 0 without ports.
    pub fn len_url(&self) -> (w: usize)
        ensures
            w == max_of(0, url_widths(self@)),
    {
        let ghost ws = url_widths(self@);
        let mut acc: usize = 0;
        let mut i: usize = 0;
        while i < self.ports.len()
            invariant
                i <= self.ports.len(),
                ws == url_widths(self@),
                acc == max_of(0, ws.take(i as int)),
            decreases self.ports.len() - i,
        {
            let url = Host::make_url(&self.ip, &self.ports[i]);
            let w = width(url.as_str());
            assert(ws.take(i + 1).drop_last() =~= ws.take(i as int));
            if w > acc {
                acc = w;
            }
            i = i + 1;
        }
        assert(ws.take(i as int) =~= ws);
        acc
    }
}

} // verus!
