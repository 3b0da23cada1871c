use yakyak::config::Config;

#[test]
fn default_config_listens_everywhere() {
    let c = Config::default();
    assert_eq!(c.server.host, "0.0.0.0");
    assert_eq!(c.server.port, 8080);
    assert_eq!(c.sip.bind_address, "0.0.0.0");
    assert_eq!(c.sip.bind_port, 5060);
    assert_eq!(c.sip.domain, "localhost");
    assert_eq!(c.database.url, "postgres://postgres@localhost/yakyak");
}
