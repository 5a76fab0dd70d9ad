use container_urls::decode::decode;
use container_urls::host::{Failure, Inspect, Network};
use container_urls::report::{hosts_from_records, table_from_json, table_from_records};
use container_urls::table::column_widths;
use container_urls::table::ColumnWidths;

const TWO: &str = r#"[
  {"Name": "/web",
   "NetworkSettings": {
     "Ports": {"443/tcp": null, "80/tcp": [{"HostIp": "0.0.0.0", "HostPort": "8080"}]},
     "Networks": {"app_default": {"IPAddress": "172.18.0.2"}}}},
  {"Name": "/db",
   "NetworkSettings": {
     "Ports": {},
     "Networks": {"app_default": {"IPAddress": "172.18.0.3"}}}}
]"#;

fn record(name: &str, ips: &[&str], keys: &[&str]) -> Inspect {
    Inspect {
        name: name.to_owned(),
        networks: ips
            .iter()
            .map(|ip| Network { name: "net".to_owned(), ip_address: (*ip).to_owned() })
            .collect(),
        port_keys: keys.iter().map(|k| (*k).to_owned()).collect(),
    }
}

#[test]
fn two_containers_from_json_to_table() {
    let lines = table_from_json(TWO).unwrap();
    assert_eq!(
        lines,
        vec![
            "Name      Ip      Protocol  Port           Url         ".to_owned(),
            "-".repeat(57),
            "web   172.18.0.2  tcp       443   http://172.18.0.2:443".to_owned(),
            "                  tcp       80    http://172.18.0.2:80 ".to_owned(),
            format!("db    172.18.0.3  {}", " ".repeat(37)),
        ]
    );
}

#[test]
fn two_containers_column_widths() {
    let hosts = hosts_from_records(&decode(TWO).unwrap()).unwrap();
    assert_eq!(hosts.len(), 2);
    assert_eq!(
        column_widths(&hosts),
        ColumnWidths { name: 4, ip: 10, protocol: 8, port: 4, url: 21 }
    );
}

#[test]
fn port_key_without_slash_gives_no_table() {
    let text = r#"[{"Name": "/web", "NetworkSettings": {"Ports": {"80": null},
        "Networks": {"n": {"IPAddress": "10.0.0.2"}}}}]"#;
    assert_eq!(table_from_json(text), Err(Failure::MalformedPortKey));
}

#[test]
fn one_bad_record_gives_no_table() {
    let text = TWO.replace("\"Ports\": {}", "\"Ports\": {\"/tcp\": null}");
    assert_eq!(table_from_json(&text), Err(Failure::MalformedPortKey));
}

#[test]
fn bad_json_gives_no_table() {
    assert_eq!(table_from_json("not json"), Err(Failure::Decode));
    assert_eq!(table_from_json("{\"Name\": \"x\"}"), Err(Failure::Decode));
    let text = TWO.replace("{\"app_default\": {\"IPAddress\": \"172.18.0.3\"}}", "{}");
    assert_eq!(table_from_json(&text), Err(Failure::Decode));
}

#[test]
fn empty_array_gives_header_and_rule() {
    assert_eq!(
        table_from_json("[]"),
        Ok(vec!["Name  Ip  Protocol  Port  Url".to_owned(), "-".repeat(31)])
    );
}

#[test]
fn hosts_keep_the_order_of_the_records() {
    let records = vec![
        record("/b", &["2"], &["2/tcp"]),
        record("/a", &["1", "9"], &[]),
    ];
    let hosts = hosts_from_records(&records).unwrap();
    assert_eq!(hosts.len(), 2);
    assert_eq!(hosts[0].name, "b");
    assert_eq!(hosts[0].ports.len(), 1);
    assert_eq!(hosts[1].name, "a");
    assert_eq!(hosts[1].ip, "1");
}

#[test]
fn the_first_failing_record_decides_the_failure() {
    let records = vec![
        record("/a", &["1"], &["80/tcp"]),
        record("/b", &[], &[]),
        record("/c", &["3"], &["80"]),
    ];
    assert_eq!(hosts_from_records(&records), Err(Failure::MissingNetwork));
    assert_eq!(table_from_records(&records), Err(Failure::MissingNetwork));
    let records = vec![
        record("/c", &["3"], &["80"]),
        record("/b", &[], &[]),
    ];
    assert_eq!(hosts_from_records(&records), Err(Failure::MalformedPortKey));
}

#[test]
fn table_from_records_renders() {
    let records = vec![record("/dns", &["10.0.0.4"], &["53/udp"])];
    assert_eq!(
        table_from_records(&records),
        Ok(vec![
            "Name     Ip     Protocol  Port  Url".to_owned(),
            "-".repeat(37),
            "dns   10.0.0.4  udp       53       ".to_owned(),
        ])
    );
}
