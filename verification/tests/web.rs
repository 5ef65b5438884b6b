use air_monitor::web::{
    client_id, mqtt_start, mqtt_state, mqtt_url, rotate_message, scan_json, status_json, tail_after, MqttStart,
    PublishSchedule, ScannedNetwork, StatusReport,
};

#[test]
fn status_reply() {
    let r = StatusReport {
        co2_text: "902".to_string(),
        co2_level: "Fair".to_string(),
        pm1: 1,
        pm25: 13,
        pm10: 60,
        temp_text: "29.8".to_string(),
        hum_text: "null".to_string(),
        mqtt_enabled: true,
        mqtt_connected: false,
        gmt_off: -5400,
        dst_off: 3600,
        ssid: "MyNetwork".to_string(),
        ip: "192.168.1.178".to_string(),
        rotated: true,
        night_on: false,
        night_sh: 23,
        night_eh: 7,
        night_lev: 40,
        interval_sec: 10,
    };
    assert_eq!(
        status_json(&r),
        "{\"co2\":902,\"co2lvl\":\"Fair\",\"co2clr\":\"orange\",\"pm1\":1,\"pm1lvl\":\"Good\",\"pm1clr\":\"green\",\"pm25\":13,\"pm25lvl\":\"Fair\",\"pm25clr\":\"orange\",\"pm10\":60,\"pm10lvl\":\"Bad\",\"pm10clr\":\"red\",\"temp\":29.8,\"hum\":null,\"mq\":\"FAIL\",\"m_en\":true,\"gmt_h\":-1,\"dst_s\":3600,\"ssid\":\"MyNetwork\",\"ip\":\"192.168.1.178\",\"rot\":1,\"n_on\":0,\"n_sh\":23,\"n_eh\":7,\"n_lev\":40,\"ver\":\"V0.1.17\",\"m_int\":10}"
    );
}

#[test]
fn mqtt_states() {
    assert_eq!(mqtt_state(true, true), "OK");
    assert_eq!(mqtt_state(true, false), "FAIL");
    assert_eq!(mqtt_state(false, true), "OFF");
}

#[test]
fn scan_reply() {
    assert_eq!(scan_json(&vec![]), "[]");
    let nets = vec![
        ScannedNetwork { ssid: "A".to_string(), rssi: -40 },
        ScannedNetwork { ssid: "B c".to_string(), rssi: 3 },
    ];
    assert_eq!(scan_json(&nets), "[{\"ssid\":\"A\",\"rssi\":-40},{\"ssid\":\"B c\",\"rssi\":3}]");
}

#[test]
fn small_replies() {
    assert_eq!(rotate_message(true), "Display: flipped 180. Restarting...");
    assert_eq!(rotate_message(false), "Display: normal. Restarting...");
    assert_eq!(mqtt_url("192.168.1.99", 1883), "mqtt://192.168.1.99:1883");
    assert_eq!(mqtt_url("h", -1), "mqtt://h:-1");
    assert_eq!(client_id(0xdeadbeef), "AirScan-deadbeef");
    assert_eq!(client_id(0x1f), "AirScan-0000001f");
}

#[test]
fn tail_query() {
    assert_eq!(tail_after("/logs/tail?after=42"), 42);
    assert_eq!(tail_after("/logs/tail"), 0);
    assert_eq!(tail_after("/logs/tail?after=x"), 0);
    assert_eq!(tail_after("/logs/tail?a=1&after=5&b=2"), 5);
    assert_eq!(tail_after("/logs/tail?after=5&after=7"), 7);
    assert_eq!(tail_after("/logs/tail?after=5&after=bad"), 0);
    assert_eq!(tail_after("/logs/tail?after=9?after=3"), 9);
    assert_eq!(tail_after("/logs/tail?xafter=9"), 0);
    assert_eq!(tail_after("?after=18446744073709551615"), u64::MAX);
}

#[test]
fn mqtt_startup() {
    assert!(matches!(mqtt_start(false, "h", 1883), MqttStart::Disabled));
    assert!(matches!(mqtt_start(true, "", 1883), MqttStart::NoServer));
    match mqtt_start(true, "broker", 1884) {
        MqttStart::Connect(u) => assert_eq!(u, "mqtt://broker:1884"),
        _ => panic!("expected a connection"),
    }
}

#[test]
fn publish_schedule() {
    let mut s = PublishSchedule::new();
    assert!(!s.due(0, false, 10));
    assert!(s.due(500, true, 10));
    assert!(!s.due(1000, true, 10));
    assert!(!s.due(10_499, true, 10));
    assert!(s.due(10_500, true, 10));
    assert!(!s.due(30_000, false, 10));
    assert!(s.due(30_500, true, 10));
}
