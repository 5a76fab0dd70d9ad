//! The table: column widths, the header, the rule under it, and one row for
//! each port of each host.

use vstd::prelude::*;
use vstd::string::*;

use crate::host::{
    number_widths, protocol_widths, url_of, url_widths, Host, HostView,
};
use crate::text::{
    blanks, center, centered, dashes, left_justified, lemma_blank_field, lemma_max_of,
    lemma_padded_width, lemma_width_concat, lemma_width_run, ljust, max_of, run_of, texts,
    width_of,
};

verus! {

/// The widths of the five columns, in the order in which they are printed.
#[derive(Clone, Copy, Debug, PartialEq, Eq, Structural)]
pub struct ColumnWidths {
    pub name: usize,
    pub ip: usize,
    pub protocol: usize,
    pub port: usize,
    pub url: usize,
}

/// What `ColumnWidths` stands for.
pub struct Widths {
    pub name: nat,
    pub ip: nat,
    pub protocol: nat,
    pub port: nat,
    pub url: nat,
}

impl View for ColumnWidths {
    type V = Widths;

    open spec fn view(&self) -> Widths {
        Widths {
            name: self.name as nat,
            ip: self.ip as nat,
            protocol: self.protocol as nat,
            port: self.port as nat,
            url: self.url as nat,
        }
    }
}

/// What a list of hosts stands for.
pub open spec fn host_views(hosts: Seq<Host>) -> Seq<HostView> {
    Seq::new(hosts.len(), |i: int| hosts[i]@)
}

/// The label of the name column.
pub open spec fn name_label() -> Seq<char> {
    seq!['N', 'a', 'm', 'e']
}

/// The label of the address column.
pub open spec fn ip_label() -> Seq<char> {
    seq!['I', 'p']
}

/// The label of the protocol column.
pub open spec fn protocol_label() -> Seq<char> {
    seq!['P', 'r', 'o', 't', 'o', 'c', 'o', 'l']
}

/// The label of the port column.
pub open spec fn port_label() -> Seq<char> {
    seq!['P', 'o', 'r', 't']
}

/// The label of the URL column.
pub open spec fn url_label() -> Seq<char> {
    seq!['U', 'r', 'l']
}

/// What stands between two neighbouring fields of a line.
pub open spec fn gap() -> Seq<char> {
    seq![' ', ' ']
}

/// Five fields in a line, with a gap between neighbours.
pub open spec fn joined(
    a: Seq<char>,
    b: Seq<char>,
    c: Seq<char>,
    d: Seq<char>,
    e: Seq<char>,
) -> Seq<char> {
    a + gap() + b + gap() + c + gap() + d + gap() + e
}

/// The width of each host's name, in host order.
pub open spec fn name_widths(hosts: Seq<HostView>) -> Seq<nat> {
    Seq::new(hosts.len(), |i: int| width_of(hosts[i].name))
}

/// The width of each host's address, in host order.
pub open spec fn ip_widths(hosts: Seq<HostView>) -> Seq<nat> {
    Seq::new(hosts.len(), |i: int| width_of(hosts[i].ip))
}

/// The width of each host's widest protocol, in host order.
pub open spec fn widest_protocols(hosts: Seq<HostView>) -> Seq<nat> {
    Seq::new(hosts.len(), |i: int| max_of(0, protocol_widths(hosts[i])))
}

/// The width of each host's widest port number, in host order.
pub open spec fn widest_numbers(hosts: Seq<HostView>) -> Seq<nat> {
    Seq::new(hosts.len(), |i: int| max_of(0, number_widths(hosts[i])))
}

/// The width of each host's widest URL, in host order.
pub open spec fn widest_urls(hosts: Seq<HostView>) -> Seq<nat> {
    Seq::new(hosts.len(), |i: int| max_of(0, url_widths(hosts[i])))
}

/// The column widths of the table of `hosts`: each column is as wide as
/// its label or as the widest text that it will hold, whichever is more.
pub open spec fn widths_of(hosts: Seq<HostView>) -> Widths {
    Widths {
        name: max_of(4, name_widths(hosts)),
        ip: max_of(2, ip_widths(hosts)),
        protocol: max_of(8, widest_protocols(hosts)),
        port: max_of(4, widest_numbers(hosts)),
        url: max_of(3, widest_urls(hosts)),
    }
}

/// The header: the five labels, each centered in its column.
pub open spec fn header_line(w: Widths) -> Seq<char> {
    joined(
        centered(name_label(), w.name),
        centered(ip_label(), w.ip),
        centered(protocol_label(), w.protocol),
        centered(port_label(), w.port),
        centered(url_label(), w.url),
    )
}

/// The rule under the header: hyphens, ten more than the columns are wide
/// together.
pub open spec fn rule_line(w: Widths) -> Seq<char> {
    run_of('-', w.name + w.ip + w.protocol + w.port + w.url + 10)
}

/// A data row: the five texts, each left-justified in its column.
pub open spec fn row_line(
    w: Widths,
    name: Seq<char>,
    ip: Seq<char>,
    protocol: Seq<char>,
    number: Seq<char>,
    url: Seq<char>,
) -> Seq<char> {
    joined(
        left_justified(name, w.name),
        left_justified(ip, w.ip),
        left_justified(protocol, w.protocol),
        left_justified(number, w.port),
        left_justified(url, w.url),
    )
}

/// The row of one port of a host. Only the first port's row names the host
/// and its address; the rows after it leave both fields blank.
pub open spec fn port_row(w: Widths, host: HostView, i: int) -> Seq<char> {
    let port = host.ports[i];
    if i == 0 {
        row_line(w, host.name, host.ip, port.protocol, port.number, url_of(host.ip, port))
    } else {
        row_line(
            w,
            Seq::empty(),
            Seq::empty(),
            port.protocol,
            port.number,
            url_of(host.ip, port),
        )
    }
}

/// The row of a host without ports: its name and address, and three blank
/// fields.
pub open spec fn bare_row(w: Widths, host: HostView) -> Seq<char> {
    row_line(w, host.name, host.ip, Seq::empty(), Seq::empty(), Seq::empty())
}

/// The rows of one host: one for each port, in port order, or a single one
/// if it has no port.
pub open spec fn host_rows(w: Widths, host: HostView) -> Seq<Seq<char>> {
    if host.ports.len() == 0 {
        seq![bare_row(w, host)]
    } else {
        Seq::new(host.ports.len(), |i: int| port_row(w, host, i))
    }
}

/// The rows of all hosts, in host order.
pub open spec fn body_lines(w: Widths, hosts: Seq<HostView>) -> Seq<Seq<char>>
    decreases hosts.len(),
{
    if hosts.len() == 0 {
        Seq::empty()
    } else {
        body_lines(w, hosts.drop_last()) + host_rows(w, hosts.last())
    }
}

/// The whole table: header, rule, then the rows.
pub open spec fn rendered(hosts: Seq<HostView>) -> Seq<Seq<char>> {
    let w = widths_of(hosts);
    seq![header_line(w), rule_line(w)] + body_lines(w, hosts)
}

/// Computes the column widths of the table of `hosts`.
pub fn column_widths(hosts: &Vec<Host>) -> (w: ColumnWidths)
    ensures
        w@ == widths_of(host_views(hosts@)),
{
    let ghost hs = host_views(hosts@);
    let mut w = ColumnWidths { name: 4, ip: 2, protocol: 8, port: 4, url: 3 };
    let mut i: usize = 0;
    while i < hosts.len()
        invariant
            i <= hosts.len(),
            hs == host_views(hosts@),
            w@ == widths_of(hs.take(i as int)),
        decreases hosts.len() - i,
    {
        let host = &hosts[i];
        let ghost next = hs.take(i + 1);
        proof {
            assert(next.drop_last() =~= hs.take(i as int));
            assert(next.last() == host@);
            assert(name_widths(next).drop_last() =~= name_widths(next.drop_last()));
            assert(ip_widths(next).drop_last() =~= ip_widths(next.drop_last()));
            assert(widest_protocols(next).drop_last() =~= widest_protocols(next.drop_last()));
            assert(widest_numbers(next).drop_last() =~= widest_numbers(next.drop_last()));
            assert(widest_urls(next).drop_last() =~= widest_urls(next.drop_last()));
        }
        let name = host.len_name();
        if name > w.name {
            w.name = name;
        }
        let ip = host.len_ip();
        if ip > w.ip {
            w.ip = ip;
        }
        let protocol = host.len_protocol();
        if protocol > w.protocol {
            w.protocol = protocol;
        }
        let port = host.len_port();
        if port > w.port {
            w.port = port;
        }
        let url = host.len_url();
        if url > w.url {
            w.url = url;
        }
        i = i + 1;
    }
    assert(hs.take(i as int) =~= hs);
    w
}

/// Puts five fields into one line, with two spaces between neighbours.
fn join(a: &String, b: &String, c: &String, d: &String, e: &String) -> (line: String)
    ensures
        line@ == joined(a@, b@, c@, d@, e@),
{
    proof {
        reveal_strlit("  ");
    }
    assert("  "@ =~= gap());
    let mut line = a.clone();
    line.append("  ");
    line.append(b.as_str());
    line.append("  ");
    line.append(c.as_str());
    line.append("  ");
    line.append(d.as_str());
    line.append("  ");
    line.append(e.as_str());
    line
}

/// The header line for columns of the given widths.
pub fn header(w: &ColumnWidths) -> (line: String)
    ensures
        line@ == header_line(w@),
{
    proof {
        reveal_strlit("Name");
        reveal_strlit("Ip");
        reveal_strlit("Protocol");
        reveal_strlit("Port");
        reveal_strlit("Url");
    }
    assert("Name"@ =~= name_label());
    assert("Ip"@ =~= ip_label());
    assert("Protocol"@ =~= protocol_label());
    assert("Port"@ =~= port_label());
    assert("Url"@ =~= url_label());
    let name = center(&"Name".to_owned(), w.name);
    let ip = center(&"Ip".to_owned(), w.ip);
    let protocol = center(&"Protocol".to_owned(), w.protocol);
    let port = center(&"Port".to_owned(), w.port);
    let url = center(&"Url".to_owned(), w.url);
    join(&name, &ip, &protocol, &port, &url)
}

/// The rule under the header for columns of the given widths.
pub fn rule(w: &ColumnWidths) -> (line: String)
    ensures
        line@ == rule_line(w@),
{
    let mut line = dashes(w.name);
    line.append(dashes(w.ip).as_str());
    line.append(dashes(w.protocol).as_str());
    line.append(dashes(w.port).as_str());
    line.append(dashes(w.url).as_str());
    line.append(dashes(10).as_str());
    assert(line@ =~= rule_line(w@));
    line
}

/// A data row for columns of the given widths.
pub fn row(
    w: &ColumnWidths,
    name: &String,
    ip: &String,
    protocol: &String,
    number: &String,
    url: &String,
) -> (line: String)
    ensures
        line@ == row_line(w@, name@, ip@, protocol@, number@, url@),
{
    let name = ljust(name, w.name);
    let ip = ljust(ip, w.ip);
    let protocol = ljust(protocol, w.protocol);
    let number = ljust(number, w.port);
    let url = ljust(url, w.url);
    join(&name, &ip, &protocol, &number, &url)
}

/// Adds the rows of one host to `lines`.
pub fn push_host_rows(w: &ColumnWidths, host: &Host, lines: &mut Vec<String>)
    ensures
        texts(final(lines)@) == texts(old(lines)@) + host_rows(w@, host@),
{
    let ghost before = texts(lines@);
    let blank = String::new();
    if host.ports.len() == 0 {
        lines.push(row(w, &host.name, &host.ip, &blank, &blank, &blank));
        assert(texts(lines@) =~= before + host_rows(w@, host@));
        return ;
    }
    let mut i: usize = 0;
    while i < host.ports.len()
        invariant
            i <= host.ports.len(),
            host.ports.len() > 0,
            blank@ == Seq::<char>::empty(),
            texts(lines@) == before + host_rows(w@, host@).take(i as int),
        decreases host.ports.len() - i,
    {
        let port = &host.ports[i];
        let url = Host::make_url(&host.ip, port);
        let line = if i == 0 {
            row(w, &host.name, &host.ip, &port.protocol, &port.number, &url)
        } else {
            row(w, &blank, &blank, &port.protocol, &port.number, &url)
        };
        let ghost rows = host_rows(w@, host@);
        let ghost shown = texts(lines@);
        assert(line@ == rows[i as int]);
        lines.push(line);
        assert(texts(lines@) =~= shown.push(rows[i as int]));
        assert(rows.take(i + 1) =~= rows.take(i as int).push(rows[i as int]));
        i = i + 1;
        assert(texts(lines@) =~= before + rows.take(i as int));
    }
    assert(host_rows(w@, host@).take(i as int) =~= host_rows(w@, host@));
}

/// Renders the table of `hosts` as lines, without line ends: the header,
/// the rule, then for each host in turn one row for each of its ports, or a
/// single row if it has none.
pub fn render(hosts: &Vec<Host>) -> (lines: Vec<String>)
    ensures
        texts(lines@) == rendered(host_views(hosts@)),
{
    let ghost hs = host_views(hosts@);
    let w = column_widths(hosts);
    let mut lines: Vec<String> = Vec::new();
    lines.push(header(&w));
    lines.push(rule(&w));
    let ghost top = seq![header_line(w@), rule_line(w@)];
    assert(texts(lines@) =~= top);
    let mut i: usize = 0;
    while i < hosts.len()
        invariant
            i <= hosts.len(),
            hs == host_views(hosts@),
            texts(lines@) == top + body_lines(w@, hs.take(i as int)),
        decreases hosts.len() - i,
    {
        assert(hs.take(i + 1).drop_last() =~= hs.take(i as int));
        assert(hs.take(i + 1).last() == hosts@[i as int]@);
        push_host_rows(&w, &hosts[i], &mut lines);
        i = i + 1;
        assert(texts(lines@) =~= top + body_lines(w@, hs.take(i as int)));
    }
    assert(hs.take(i as int) =~= hs);
    lines
}

/// The number of rows that a host takes: one for each port, and one if it
/// has none.
pub open spec fn rows_of_host(host: HostView) -> nat {
    if host.ports.len() == 0 {
        1
    } else {
        host.ports.len()
    }
}

/// The number of rows that a list of hosts takes.
pub open spec fn row_count(hosts: Seq<HostView>) -> nat
    decreases hosts.len(),
{
    if hosts.len() == 0 {
        0
    } else {
        row_count(hosts.drop_last()) + rows_of_host(hosts.last())
    }
}

/// The width of every line but the rule: the five columns and the four
/// gaps between them.
pub open spec fn line_width(w: Widths) -> nat {
    w.name + w.ip + w.protocol + w.port + w.url + 8
}

/// Whether every text of a host fits the column that will hold it.
pub open spec fn fits(w: Widths, host: HostView) -> bool {
    &&& width_of(host.name) <= w.name
    &&& width_of(host.ip) <= w.ip
    &&& forall|j: int|
        0 <= j < host.ports.len() ==> {
            &&& width_of(#[trigger] host.ports[j].protocol) <= w.protocol
            &&& width_of(host.ports[j].number) <= w.port
            &&& width_of(url_of(host.ip, host.ports[j])) <= w.url
        }
}

/// A host without ports takes exactly one row. It shows the name and the
/// address; the protocol, port and URL fields are all spaces.
pub proof fn lemma_host_without_ports(w: Widths, host: HostView)
    requires
        host.ports.len() == 0,
    ensures
        host_rows(w, host).len() == 1,
        host_rows(w, host)[0] == joined(
            left_justified(host.name, w.name),
            left_justified(host.ip, w.ip),
            blanks(w.protocol),
            blanks(w.port),
            blanks(w.url),
        ),
{
    lemma_blank_field(w.protocol);
    lemma_blank_field(w.port);
    lemma_blank_field(w.url);
}

/// A host with ports takes exactly one row for each port, in port order.
/// Each row shows the protocol, number and URL of its port. The first row
/// shows the name and the address; in every later row those two fields are
/// all spaces.
pub proof fn lemma_host_with_ports(w: Widths, host: HostView)
    requires
        host.ports.len() > 0,
    ensures
        host_rows(w, host).len() == host.ports.len(),
        host_rows(w, host)[0] == joined(
            left_justified(host.name, w.name),
            left_justified(host.ip, w.ip),
            left_justified(host.ports[0].protocol, w.protocol),
            left_justified(host.ports[0].number, w.port),
            left_justified(url_of(host.ip, host.ports[0]), w.url),
        ),
        forall|i: int|
            1 <= i < host.ports.len() ==> #[trigger] host_rows(w, host)[i] == joined(
                blanks(w.name),
                blanks(w.ip),
                left_justified(host.ports[i].protocol, w.protocol),
                left_justified(host.ports[i].number, w.port),
                left_justified(url_of(host.ip, host.ports[i]), w.url),
            ),
{
    lemma_blank_field(w.name);
    lemma_blank_field(w.ip);
}

/// The table has two lines more than the hosts take rows.
pub proof fn lemma_line_count(hosts: Seq<HostView>)
    ensures
        rendered(hosts).len() == 2 + row_count(hosts),
{
    lemma_body_count(widths_of(hosts), hosts);
}

/// The body has one line for each row of each host.
pub proof fn lemma_body_count(w: Widths, hosts: Seq<HostView>)
    ensures
        body_lines(w, hosts).len() == row_count(hosts),
    decreases hosts.len(),
{
    if hosts.len() > 0 {
        lemma_body_count(w, hosts.drop_last());
    }
}

/// Every column is at least as wide as its label, and as every text that
/// the hosts put into it.
pub proof fn lemma_widths_fit(hosts: Seq<HostView>)
    ensures
        widths_of(hosts).name >= 4,
        widths_of(hosts).ip >= 2,
        widths_of(hosts).protocol >= 8,
        widths_of(hosts).port >= 4,
        widths_of(hosts).url >= 3,
        forall|i: int| 0 <= i < hosts.len() ==> fits(widths_of(hosts), #[trigger] hosts[i]),
{
    let w = widths_of(hosts);
    lemma_max_of(4, name_widths(hosts));
    lemma_max_of(2, ip_widths(hosts));
    lemma_max_of(8, widest_protocols(hosts));
    lemma_max_of(4, widest_numbers(hosts));
    lemma_max_of(3, widest_urls(hosts));
    assert forall|i: int| 0 <= i < hosts.len() implies fits(w, #[trigger] hosts[i]) by {
        let host = hosts[i];
        assert(name_widths(hosts)[i] == width_of(host.name));
        assert(ip_widths(hosts)[i] == width_of(host.ip));
        assert(widest_protocols(hosts)[i] == max_of(0, protocol_widths(host)));
        assert(widest_numbers(hosts)[i] == max_of(0, number_widths(host)));
        assert(widest_urls(hosts)[i] == max_of(0, url_widths(host)));
        lemma_max_of(0, protocol_widths(host));
        lemma_max_of(0, number_widths(host));
        lemma_max_of(0, url_widths(host));
        assert forall|j: int| 0 <= j < host.ports.len() implies {
            &&& width_of(#[trigger] host.ports[j].protocol) <= w.protocol
            &&& width_of(host.ports[j].number) <= w.port
            &&& width_of(url_of(host.ip, host.ports[j])) <= w.url
        } by {
            assert(protocol_widths(host)[j] == width_of(host.ports[j].protocol));
            assert(number_widths(host)[j] == width_of(host.ports[j].number));
            assert(url_widths(host)[j] == width_of(url_of(host.ip, host.ports[j])));
        }
    }
}

/// No column is wider than it must be: each is as wide as its label, or
/// as one of the texts that the hosts put into it.
pub proof fn lemma_widths_tight(hosts: Seq<HostView>)
    ensures
        widths_of(hosts).name == 4 || exists|i: int|
            0 <= i < hosts.len() && width_of(#[trigger] hosts[i].name) == widths_of(hosts).name,
        widths_of(hosts).ip == 2 || exists|i: int|
            0 <= i < hosts.len() && width_of(#[trigger] hosts[i].ip) == widths_of(hosts).ip,
        widths_of(hosts).protocol == 8 || exists|i: int, j: int|
            0 <= i < hosts.len() && 0 <= j < hosts[i].ports.len() && width_of(
                #[trigger] hosts[i].ports[j].protocol,
            ) == widths_of(hosts).protocol,
        widths_of(hosts).port == 4 || exists|i: int, j: int|
            0 <= i < hosts.len() && 0 <= j < hosts[i].ports.len() && width_of(
                #[trigger] hosts[i].ports[j].number,
            ) == widths_of(hosts).port,
        widths_of(hosts).url == 3 || exists|i: int, j: int|
            0 <= i < hosts.len() && 0 <= j < hosts[i].ports.len() && width_of(
                url_of(hosts[i].ip, #[trigger] hosts[i].ports[j]),
            ) == widths_of(hosts).url,
{
    let w = widths_of(hosts);
    lemma_max_of(4, name_widths(hosts));
    lemma_max_of(2, ip_widths(hosts));
    lemma_max_of(8, widest_protocols(hosts));
    lemma_max_of(4, widest_numbers(hosts));
    lemma_max_of(3, widest_urls(hosts));
    if w.name != 4 {
        let i = choose|i: int| 0 <= i < hosts.len() && name_widths(hosts)[i] == w.name;
        assert(width_of(hosts[i].name) == w.name);
    }
    if w.ip != 2 {
        let i = choose|i: int| 0 <= i < hosts.len() && ip_widths(hosts)[i] == w.ip;
        assert(width_of(hosts[i].ip) == w.ip);
    }
    if w.protocol != 8 {
        let i = choose|i: int| 0 <= i < hosts.len() && widest_protocols(hosts)[i] == w.protocol;
        lemma_max_of(0, protocol_widths(hosts[i]));
        let j = choose|j: int|
            0 <= j < hosts[i].ports.len() && protocol_widths(hosts[i])[j] == w.protocol;
        assert(width_of(hosts[i].ports[j].protocol) == w.protocol);
    }
    if w.port != 4 {
        let i = choose|i: int| 0 <= i < hosts.len() && widest_numbers(hosts)[i] == w.port;
        lemma_max_of(0, number_widths(hosts[i]));
        let j = choose|j: int|
            0 <= j < hosts[i].ports.len() && number_widths(hosts[i])[j] == w.port;
        assert(width_of(hosts[i].ports[j].number) == w.port);
    }
    if w.url != 3 {
        let i = choose|i: int| 0 <= i < hosts.len() && widest_urls(hosts)[i] == w.url;
        lemma_max_of(0, url_widths(hosts[i]));
        let j = choose|j: int| 0 <= j < hosts[i].ports.len() && url_widths(hosts[i])[j] == w.url;
        assert(width_of(url_of(hosts[i].ip, hosts[i].ports[j])) == w.url);
    }
}

/// A line of five fields is as wide as its fields and four gaps.
pub proof fn lemma_joined_width(
    a: Seq<char>,
    b: Seq<char>,
    c: Seq<char>,
    d: Seq<char>,
    e: Seq<char>,
)
    ensures
        width_of(joined(a, b, c, d, e)) == width_of(a) + width_of(b) + width_of(c) + width_of(d)
            + width_of(e) + 8,
{
    assert(gap() =~= run_of(' ', 2));
    lemma_width_run(' ', 2);
    let ab = a + gap() + b;
    let abc = ab + gap() + c;
    let abcd = abc + gap() + d;
    lemma_width_concat(a, gap());
    lemma_width_concat(a + gap(), b);
    lemma_width_concat(ab, gap());
    lemma_width_concat(ab + gap(), c);
    lemma_width_concat(abc, gap());
    lemma_width_concat(abc + gap(), d);
    lemma_width_concat(abcd, gap());
    lemma_width_concat(abcd + gap(), e);
}

/// A row whose texts fit their columns is exactly as wide as a line.
pub proof fn lemma_row_width(
    w: Widths,
    name: Seq<char>,
    ip: Seq<char>,
    protocol: Seq<char>,
    number: Seq<char>,
    url: Seq<char>,
)
    requires
        width_of(name) <= w.name,
        width_of(ip) <= w.ip,
        width_of(protocol) <= w.protocol,
        width_of(number) <= w.port,
        width_of(url) <= w.url,
    ensures
        width_of(row_line(w, name, ip, protocol, number, url)) == line_width(w),
{
    lemma_padded_width(name, w.name);
    lemma_padded_width(ip, w.ip);
    lemma_padded_width(protocol, w.protocol);
    lemma_padded_width(number, w.port);
    lemma_padded_width(url, w.url);
    lemma_joined_width(
        left_justified(name, w.name),
        left_justified(ip, w.ip),
        left_justified(protocol, w.protocol),
        left_justified(number, w.port),
        left_justified(url, w.url),
    );
}

/// The header of columns that hold their labels is exactly as wide as a
/// line.
pub proof fn lemma_header_width(w: Widths)
    requires
        w.name >= 4,
        w.ip >= 2,
        w.protocol >= 8,
        w.port >= 4,
        w.url >= 3,
    ensures
        width_of(header_line(w)) == line_width(w),
{
    vstd::utf8::is_ascii_chars_encode_utf8(name_label());
    vstd::utf8::is_ascii_chars_encode_utf8(ip_label());
    vstd::utf8::is_ascii_chars_encode_utf8(protocol_label());
    vstd::utf8::is_ascii_chars_encode_utf8(port_label());
    vstd::utf8::is_ascii_chars_encode_utf8(url_label());
    lemma_padded_width(name_label(), w.name);
    lemma_padded_width(ip_label(), w.ip);
    lemma_padded_width(protocol_label(), w.protocol);
    lemma_padded_width(port_label(), w.port);
    lemma_padded_width(url_label(), w.url);
    lemma_joined_width(
        centered(name_label(), w.name),
        centered(ip_label(), w.ip),
        centered(protocol_label(), w.protocol),
        centered(port_label(), w.port),
        centered(url_label(), w.url),
    );
}

/// Every row of a host whose texts fit the columns is exactly as wide as a
/// line.
pub proof fn lemma_host_rows_width(w: Widths, host: HostView)
    requires
        fits(w, host),
    ensures
        forall|k: int|
            0 <= k < host_rows(w, host).len() ==> width_of(#[trigger] host_rows(w, host)[k])
                == line_width(w),
{
    assert(width_of(Seq::<char>::empty()) == 0);
    assert forall|k: int| 0 <= k < host_rows(w, host).len() implies width_of(
        #[trigger] host_rows(w, host)[k],
    ) == line_width(w) by {
        if host.ports.len() == 0 {
            lemma_row_width(w, host.name, host.ip, Seq::empty(), Seq::empty(), Seq::empty());
        } else {
            let port = host.ports[k];
            assert(width_of(port.protocol) <= w.protocol);
            let url = url_of(host.ip, port);
            if k == 0 {
                lemma_row_width(w, host.name, host.ip, port.protocol, port.number, url);
            } else {
                lemma_row_width(w, Seq::empty(), Seq::empty(), port.protocol, port.number, url);
            }
        }
    }
}

/// Every row of hosts whose texts fit the columns is exactly as wide as a
/// line.
pub proof fn lemma_body_width(w: Widths, hosts: Seq<HostView>)
    requires
        forall|i: int| 0 <= i < hosts.len() ==> fits(w, #[trigger] hosts[i]),
    ensures
        forall|k: int|
            0 <= k < body_lines(w, hosts).len() ==> width_of(#[trigger] body_lines(w, hosts)[k])
                == line_width(w),
    decreases hosts.len(),
{
    if hosts.len() > 0 {
        let init = hosts.drop_last();
        assert forall|i: int| 0 <= i < init.len() implies fits(w, #[trigger] init[i]) by {
            assert(init[i] == hosts[i]);
        }
        lemma_body_width(w, init);
        assert(fits(w, hosts[hosts.len() - 1]));
        lemma_host_rows_width(w, hosts.last());
        let before = body_lines(w, init);
        let rows = host_rows(w, hosts.last());
        assert forall|k: int| 0 <= k < body_lines(w, hosts).len() implies width_of(
            #[trigger] body_lines(w, hosts)[k],
        ) == line_width(w) by {
            if k < before.len() {
                assert(body_lines(w, hosts)[k] == before[k]);
            } else {
                assert(body_lines(w, hosts)[k] == rows[k - before.len()]);
            }
        }
    }
}

/// The table is aligned: the header and every row have the same width,
/// that of the five columns and the gaps between them, and the rule is two
/// wider.
pub proof fn lemma_table_aligned(hosts: Seq<HostView>)
    ensures
        width_of(rendered(hosts)[0]) == line_width(widths_of(hosts)),
        width_of(rendered(hosts)[1]) == line_width(widths_of(hosts)) + 2,
        forall|k: int|
            2 <= k < rendered(hosts).len() ==> width_of(#[trigger] rendered(hosts)[k])
                == line_width(widths_of(hosts)),
{
    let w = widths_of(hosts);
    lemma_widths_fit(hosts);
    lemma_header_width(w);
    lemma_width_run('-', w.name + w.ip + w.protocol + w.port + w.url + 10);
    lemma_body_width(w, hosts);
    assert forall|k: int| 2 <= k < rendered(hosts).len() implies width_of(
        #[trigger] rendered(hosts)[k],
    ) == line_width(w) by {
        assert(rendered(hosts)[k] == body_lines(w, hosts)[k - 2]);
    }
}

} // verus!
