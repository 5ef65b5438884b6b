use air_monitor::form::{parse_form, url_decode, FormParams};
use air_monitor::network::{
    get_display_rot, get_night, known_networks, load_mqtt, plan_connect, remember_network, save_mqtt,
    set_display_rot, set_night, MqttCfg, StoredMqtt, WifiSlot,
};

#[test]
fn url_decoding() {
    assert_eq!(url_decode("a+b%20c%41"), "a b cA");
    assert_eq!(url_decode("%zz%4"), "%zz%4");
    assert_eq!(url_decode("%E2%82%AC"), "\u{20ac}");
    assert_eq!(url_decode("%ff"), "\u{fffd}");
    assert_eq!(url_decode("%2B"), "+");
}

#[test]
fn unescaped_component_decodes_to_itself() {
    assert_eq!(url_decode("Home+Net_5G"), "Home Net_5G");
    assert_eq!(url_decode("caf\u{e9}"), "caf\u{e9}");
    assert_eq!(url_decode(""), "");
}

#[test]
fn form_parsing() {
    let p = parse_form("ssid=My+Net&pass=&m_en=on&flag&&x=1=2&ssid=Other");
    assert_eq!(p.get("ssid").map(|s| s.as_str()), Some("Other"));
    assert_eq!(p.get("pass").map(|s| s.as_str()), Some(""));
    assert!(p.contains_key("m_en"));
    assert_eq!(p.get("flag").map(|s| s.as_str()), Some(""));
    assert_eq!(p.get("x").map(|s| s.as_str()), Some("1=2"));
    assert!(!p.contains_key(""));
    assert!(!p.contains_key("missing"));
    let empty = parse_form("");
    assert!(!empty.contains_key(""));
}

#[test]
fn form_params_insert_overwrites() {
    let mut p = FormParams::new();
    p.insert("a".to_string(), "1".to_string());
    p.insert("a".to_string(), "2".to_string());
    assert_eq!(p.get("a").map(|s| s.as_str()), Some("2"));
}

fn cfg() -> MqttCfg {
    MqttCfg {
        enabled: true,
        server: "192.168.1.99".to_string(),
        port: 1883,
        user: "esp32air".to_string(),
        pass: "secret".to_string(),
        gmt_off: 7200,
        dst_off: 3600,
        interval_sec: 0,
    }
}

#[test]
fn mqtt_defaults() {
    let st = StoredMqtt { m_en: None, m_srv: None, m_port: None, m_user: None, m_pass: None, gmt_off: None, dst_off: None, m_int: None };
    let c = load_mqtt(&st);
    assert!(!c.enabled);
    assert_eq!(c.server, "");
    assert_eq!(c.port, 1883);
    assert_eq!(c.interval_sec, 10);
    let st = StoredMqtt { m_en: Some(2), m_int: Some(-5), ..st };
    let c = load_mqtt(&st);
    assert!(!c.enabled);
    assert_eq!(c.interval_sec, 1);
}

#[test]
fn mqtt_roundtrip() {
    let c = cfg();
    let back = load_mqtt(&save_mqtt(&c));
    assert!(back.enabled);
    assert_eq!(back.server, c.server);
    assert_eq!(back.port, c.port);
    assert_eq!(back.user, c.user);
    assert_eq!(back.pass, c.pass);
    assert_eq!(back.gmt_off, 7200);
    assert_eq!(back.dst_off, 3600);
    assert_eq!(back.interval_sec, 1);
}

fn slots(v: &[(Option<&str>, Option<&str>)]) -> Vec<WifiSlot> {
    v.iter()
        .map(|(s, p)| WifiSlot { ssid: s.map(|x| x.to_string()), pass: p.map(|x| x.to_string()) })
        .collect()
}

fn list(s: &Vec<WifiSlot>) -> Vec<(String, String)> {
    known_networks(s)
}

#[test]
fn networks_listed_in_slot_order() {
    let s = slots(&[(Some("a"), Some("1")), (None, Some("x")), (Some(""), None), (Some("d"), None), (Some("e"), Some("5"))]);
    assert_eq!(list(&s), vec![("a".into(), "1".into()), ("d".into(), "".into()), ("e".into(), "5".into())]);
}

#[test]
fn saving_new_network_shifts_list_over_gaps() {
    let mut s = slots(&[(Some("a"), Some("1")), (Some("b"), Some("2")), (None, None), (Some("d"), Some("4")), (Some("e"), Some("5"))]);
    remember_network(&mut s, "n", "p");
    assert_eq!(
        list(&s),
        vec![
            ("n".into(), "p".into()),
            ("a".into(), "1".into()),
            ("b".into(), "2".into()),
            ("d".into(), "4".into()),
            ("d".into(), "4".into())
        ]
    );
}

#[test]
fn saving_new_network_drops_oldest() {
    let mut s = slots(&[(Some("a"), Some("1")), (Some("b"), Some("2")), (Some("c"), Some("3")), (Some("d"), Some("4")), (Some("e"), Some("5"))]);
    remember_network(&mut s, "n", "p");
    let l = list(&s);
    assert_eq!(l.len(), 5);
    assert_eq!(l[0], ("n".to_string(), "p".to_string()));
    assert_eq!(l[4], ("d".to_string(), "4".to_string()));
}

#[test]
fn saving_first_network_updates_password() {
    let mut s = slots(&[(Some("a"), Some("1")), (Some("b"), Some("2")), (None, None), (None, None), (None, None)]);
    remember_network(&mut s, "a", "new");
    assert_eq!(list(&s), vec![("a".into(), "new".into()), ("b".into(), "2".into())]);
}

#[test]
fn saving_empty_ssid_changes_nothing() {
    let mut s = slots(&[(Some("a"), Some("1")), (None, None), (None, None), (None, None), (None, None)]);
    remember_network(&mut s, "", "x");
    assert_eq!(list(&s), vec![("a".into(), "1".into())]);
}

#[test]
fn rotation_and_night_settings() {
    assert!(get_display_rot(None));
    assert!(get_display_rot(Some(1)));
    assert!(!get_display_rot(Some(0)));
    assert!(get_display_rot(Some(set_display_rot(true))));
    assert!(!get_display_rot(Some(set_display_rot(false))));
    let n = get_night(None, None, None, None);
    assert_eq!((n.on, n.start_h, n.end_h, n.level), (false, 23, 7, 40));
    let n = get_night(Some(1), Some(22), Some(6), Some(5000));
    assert_eq!((n.on, n.start_h, n.end_h, n.level), (true, 22, 6, 1024));
    let (on, sh, eh, lev) = set_night(true, 21, 5, 0);
    assert_eq!((on, sh, eh, lev), (1, 21, 5, 1));
    let n = get_night(Some(on), Some(sh), Some(eh), Some(lev));
    assert_eq!((n.on, n.start_h, n.end_h, n.level), (true, 21, 5, 1));
}

#[test]
fn connect_form_keeps_blank_passwords() {
    let p = parse_form("ssid=Home&pass=&m_srv=&m_port=0&m_user=&m_pass=&gmt_h=2&dst_en=3600&m_int=abc&n_sh=30&n_eh=-4&n_lev=0");
    let saved = vec![("Other".to_string(), "o".to_string()), ("Home".to_string(), "h0me".to_string())];
    let prev = MqttCfg { interval_sec: 10, ..cfg() };
    let plan = plan_connect(&p, &saved, &prev);
    assert_eq!(plan.wifi, Some(("Home".to_string(), "h0me".to_string())));
    assert!(!plan.mqtt.enabled);
    assert_eq!(plan.mqtt.server, "192.168.1.99");
    assert_eq!(plan.mqtt.port, 1883);
    assert_eq!(plan.mqtt.user, "esp32air");
    assert_eq!(plan.mqtt.pass, "secret");
    assert_eq!(plan.mqtt.gmt_off, 7200);
    assert_eq!(plan.mqtt.dst_off, 3600);
    assert_eq!(plan.mqtt.interval_sec, 10);
    assert!(!plan.night.on);
    assert_eq!((plan.night.start_h, plan.night.end_h, plan.night.level), (23, 0, 1));
}

#[test]
fn connect_form_sets_new_values() {
    let p = parse_form("ssid=New&pass=pw&m_en=on&m_srv=broker&m_port=1884&m_user=u&m_pass=p&gmt_h=-5&m_int=0&n_on=on&n_sh=22&n_eh=6&n_lev=100");
    let plan = plan_connect(&p, &vec![], &cfg());
    assert_eq!(plan.wifi, Some(("New".to_string(), "pw".to_string())));
    assert!(plan.mqtt.enabled);
    assert_eq!(plan.mqtt.server, "broker");
    assert_eq!(plan.mqtt.port, 1884);
    assert_eq!(plan.mqtt.user, "u");
    assert_eq!(plan.mqtt.pass, "p");
    assert_eq!(plan.mqtt.gmt_off, -18000);
    assert_eq!(plan.mqtt.dst_off, 0);
    assert_eq!(plan.mqtt.interval_sec, 1);
    assert!(plan.night.on);
    assert_eq!((plan.night.start_h, plan.night.end_h, plan.night.level), (22, 6, 100));
}

#[test]
fn connect_form_without_network() {
    let plan = plan_connect(&parse_form("ssid=&m_port=x"), &vec![], &cfg());
    assert_eq!(plan.wifi, None);
    assert_eq!(plan.mqtt.port, 1883);
    let plan = plan_connect(&parse_form("ssid=Unknown"), &vec![], &cfg());
    assert_eq!(plan.wifi, Some(("Unknown".to_string(), "".to_string())));
    let plan = plan_connect(&parse_form("gmt_h=1000000"), &vec![], &cfg());
    assert_eq!(plan.mqtt.gmt_off, 1000000i32.wrapping_mul(3600));
}

#[test]
fn known_networks_shape() {
    let s = slots(&[(Some(""), Some("x")), (None, Some("y")), (Some("a"), None), (Some("b"), Some("pb")), (Some(""), None)]);
    let nets = list(&s);
    assert!(nets.len() <= s.len());
    assert!(nets.iter().all(|(ssid, _)| !ssid.is_empty()));
    assert_eq!(nets, vec![("a".to_string(), String::new()), ("b".to_string(), "pb".to_string())]);
}
