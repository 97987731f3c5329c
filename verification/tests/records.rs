use plutus::hitlog::{format_hit_record, i64_dec, u64_dec, HitLog, HitRecord};
use plutus::notify::{build_notification, host_id_string, notification_url};

#[test]
fn decimal_rendering_exact() {
    assert_eq!(u64_dec(0), "0");
    assert_eq!(u64_dec(7), "7");
    assert_eq!(u64_dec(5000), "5000");
    assert_eq!(u64_dec(u64::MAX), "18446744073709551615");
    assert_eq!(i64_dec(0), "0");
    assert_eq!(i64_dec(-1), "-1");
    assert_eq!(i64_dec(i64::MAX), "9223372036854775807");
    assert_eq!(i64_dec(i64::MIN), "-9223372036854775808");
}

#[test]
fn record_block_with_balance() {
    let rec = HitRecord {
        secret: "s1".to_string(),
        public_id: "p1".to_string(),
        address: "1addr".to_string(),
        balance: Some(5000),
    };
    assert_eq!(format_hit_record(&rec), "secret:s1\npublic:p1\naddress:1addr\nbalance:5000\n\n");
}

#[test]
fn record_block_without_balance() {
    let rec = HitRecord {
        secret: "s2".to_string(),
        public_id: "p2".to_string(),
        address: "1other".to_string(),
        balance: None,
    };
    assert_eq!(format_hit_record(&rec), "secret:s2\npublic:p2\naddress:1other\n\n");
}

#[test]
fn three_appends_yield_three_intact_records() {
    let mut log = HitLog::new();
    let mut blocks = Vec::new();
    for i in 0..3 {
        let rec = HitRecord {
            secret: format!("secret{}", i),
            public_id: format!("public{}", i),
            address: format!("1addr{}", i),
            balance: Some(i),
        };
        blocks.push(log.append_hit(&rec));
    }
    assert_eq!(log.len(), 3);
    for i in 0..3 {
        assert_eq!(log.entry(i), &blocks[i]);
        let expected = format!(
            "secret:secret{}\npublic:public{}\naddress:1addr{}\nbalance:{}\n\n",
            i, i, i, i
        );
        assert_eq!(log.entry(i), &expected);
    }
}

#[test]
fn notification_url_exact() {
    assert_eq!(notification_url("token123"), "https://sctapi.ftqq.com/token123.send");
}

#[test]
fn host_id_line_exact() {
    assert_eq!(host_id_string("worker-1", "10.0.0.5"), "Host: worker-1 IP: 10.0.0.5");
}

#[test]
fn notification_body_is_form_encoded() {
    let n = build_notification("k", "host-a").unwrap();
    assert_eq!(n.url, "https://sctapi.ftqq.com/k.send");
    assert_eq!(n.body, "text=Confirmed+hit&desp=Reported+by+host-a");
}
