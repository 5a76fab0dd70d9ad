use container_urls::decode::{decode, record_from_value, records_from_value};
use container_urls::host::{Failure, Inspect, Network};

fn value(text: &str) -> serde_json::Value {
    serde_json::from_str(text).unwrap()
}

fn network(name: &str, ip: &str) -> Network {
    Network { name: name.to_owned(), ip_address: ip.to_owned() }
}

const WEB: &str = r#"{
    "Name": "/web",
    "Id": "0123",
    "NetworkSettings": {
        "Ports": {"443/tcp": null, "80/tcp": [{"HostIp": "0.0.0.0", "HostPort": "8080"}]},
        "Networks": {"app_default": {"IPAddress": "172.18.0.2", "Gateway": "172.18.0.1"}}
    }
}"#;

#[test]
fn record_holds_name_networks_and_port_keys() {
    assert_eq!(
        record_from_value(&value(WEB)),
        Ok(Inspect {
            name: "/web".to_owned(),
            networks: vec![network("app_default", "172.18.0.2")],
            port_keys: vec!["443/tcp".to_owned(), "80/tcp".to_owned()],
        })
    );
}

#[test]
fn record_keeps_every_network() {
    let v = value(
        r#"{"Name": "db", "NetworkSettings": {"Ports": {},
            "Networks": {"back": {"IPAddress": "10.0.0.3"}, "front": {"IPAddress": "10.0.1.3"}}}}"#,
    );
    assert_eq!(
        record_from_value(&v),
        Ok(Inspect {
            name: "db".to_owned(),
            networks: vec![network("back", "10.0.0.3"), network("front", "10.0.1.3")],
            port_keys: vec![],
        })
    );
}

#[test]
fn record_takes_port_keys_as_they_are() {
    let v = value(
        r#"{"Name": "x", "NetworkSettings": {"Ports": {"80": 1},
            "Networks": {"n": {"IPAddress": ""}}}}"#,
    );
    assert_eq!(
        record_from_value(&v),
        Ok(Inspect {
            name: "x".to_owned(),
            networks: vec![network("n", "")],
            port_keys: vec!["80".to_owned()],
        })
    );
}

#[test]
fn record_needs_a_name() {
    let v = value(r#"{"NetworkSettings": {"Ports": {}, "Networks": {"n": {"IPAddress": "1"}}}}"#);
    assert_eq!(record_from_value(&v), Err(Failure::Decode));
    let v = value(
        r#"{"Name": 7, "NetworkSettings": {"Ports": {}, "Networks": {"n": {"IPAddress": "1"}}}}"#,
    );
    assert_eq!(record_from_value(&v), Err(Failure::Decode));
}

#[test]
fn record_matches_member_names_exactly() {
    let v = value(
        r#"{"name": "x", "NetworkSettings": {"Ports": {}, "Networks": {"n": {"IPAddress": "1"}}}}"#,
    );
    assert_eq!(record_from_value(&v), Err(Failure::Decode));
    let v = value(
        r#"{"Name": "x", "NetworkSettings": {"Ports": {}, "Networks": {"n": {"IpAddress": "1"}}}}"#,
    );
    assert_eq!(record_from_value(&v), Err(Failure::Decode));
}

#[test]
fn record_needs_network_settings() {
    assert_eq!(record_from_value(&value(r#"{"Name": "x"}"#)), Err(Failure::Decode));
    assert_eq!(
        record_from_value(&value(r#"{"Name": "x", "NetworkSettings": []}"#)),
        Err(Failure::Decode)
    );
}

#[test]
fn record_needs_a_ports_object() {
    let v = value(r#"{"Name": "x", "NetworkSettings": {"Networks": {"n": {"IPAddress": "1"}}}}"#);
    assert_eq!(record_from_value(&v), Err(Failure::Decode));
    let v = value(
        r#"{"Name": "x", "NetworkSettings": {"Ports": null, "Networks": {"n": {"IPAddress": "1"}}}}"#,
    );
    assert_eq!(record_from_value(&v), Err(Failure::Decode));
    let v = value(
        r#"{"Name": "x", "NetworkSettings": {"Ports": ["80/tcp"], "Networks": {"n": {"IPAddress": "1"}}}}"#,
    );
    assert_eq!(record_from_value(&v), Err(Failure::Decode));
}

#[test]
fn record_needs_at_least_one_network() {
    let v = value(r#"{"Name": "x", "NetworkSettings": {"Ports": {}, "Networks": {}}}"#);
    assert_eq!(record_from_value(&v), Err(Failure::Decode));
    let v = value(r#"{"Name": "x", "NetworkSettings": {"Ports": {}}}"#);
    assert_eq!(record_from_value(&v), Err(Failure::Decode));
    let v = value(r#"{"Name": "x", "NetworkSettings": {"Ports": {}, "Networks": "none"}}"#);
    assert_eq!(record_from_value(&v), Err(Failure::Decode));
}

#[test]
fn record_needs_an_address_in_every_network() {
    let v = value(
        r#"{"Name": "x", "NetworkSettings": {"Ports": {},
            "Networks": {"a": {"IPAddress": "1"}, "b": {}}}}"#,
    );
    assert_eq!(record_from_value(&v), Err(Failure::Decode));
    let v = value(
        r#"{"Name": "x", "NetworkSettings": {"Ports": {}, "Networks": {"a": {"IPAddress": 1}}}}"#,
    );
    assert_eq!(record_from_value(&v), Err(Failure::Decode));
    let v = value(r#"{"Name": "x", "NetworkSettings": {"Ports": {}, "Networks": {"a": "1"}}}"#);
    assert_eq!(record_from_value(&v), Err(Failure::Decode));
}

#[test]
fn record_must_be_an_object() {
    assert_eq!(record_from_value(&value("null")), Err(Failure::Decode));
    assert_eq!(record_from_value(&value("[]")), Err(Failure::Decode));
    assert_eq!(record_from_value(&value("\"Name\"")), Err(Failure::Decode));
}

#[test]
fn records_keep_the_order_of_the_array() {
    let db = r#"{"Name": "/db", "NetworkSettings": {"Ports": {},
        "Networks": {"app_default": {"IPAddress": "172.18.0.3"}}}}"#;
    let records = records_from_value(&value(&format!("[{}, {}]", db, WEB))).unwrap();
    assert_eq!(records.len(), 2);
    assert_eq!(records[0].name, "/db");
    assert_eq!(records[0].port_keys.len(), 0);
    assert_eq!(records[1].name, "/web");
    assert_eq!(records[1].networks, vec![network("app_default", "172.18.0.2")]);
}

#[test]
fn records_of_an_empty_array() {
    assert_eq!(records_from_value(&value("[]")), Ok(vec![]));
}

#[test]
fn records_must_be_an_array() {
    assert_eq!(records_from_value(&value(WEB)), Err(Failure::Decode));
    assert_eq!(records_from_value(&value("null")), Err(Failure::Decode));
    assert_eq!(records_from_value(&value("3")), Err(Failure::Decode));
}

#[test]
fn records_fail_if_one_element_is_no_record() {
    assert_eq!(
        records_from_value(&value(&format!("[{}, {{\"Name\": \"x\"}}]", WEB))),
        Err(Failure::Decode)
    );
    assert_eq!(records_from_value(&value(&format!("[{}, 1]", WEB))), Err(Failure::Decode));
}

#[test]
fn decode_reads_json_text() {
    let records = decode(&format!(" [ {} ] ", WEB)).unwrap();
    assert_eq!(records.len(), 1);
    assert_eq!(records[0].name, "/web");
    assert_eq!(records[0].port_keys, vec!["443/tcp".to_owned(), "80/tcp".to_owned()]);
    assert_eq!(decode("[]"), Ok(vec![]));
}

#[test]
fn decode_rejects_text_that_is_not_json() {
    assert_eq!(decode(""), Err(Failure::Decode));
    assert_eq!(decode("["), Err(Failure::Decode));
    assert_eq!(decode("[] []"), Err(Failure::Decode));
    assert_eq!(decode("Error: No such container"), Err(Failure::Decode));
}

#[test]
fn decode_rejects_json_of_another_shape() {
    assert_eq!(decode("{}"), Err(Failure::Decode));
    assert_eq!(decode("[{}]"), Err(Failure::Decode));
    assert_eq!(decode(WEB), Err(Failure::Decode));
}
