use kiosk_naplata::admin::{
    admin_change_pin, admin_device_status, admin_exit, admin_login, admin_reprint,
    admin_set_devices, admin_set_prices, admin_set_simple_mode, admin_test_print, ct_eq, get_pin,
    normalize_port, set_pin, test_ticket,
};
use kiosk_naplata::config::{bootstrap, bootstrap_with, nv9_cfg, printer_target, validator_port};
use kiosk_naplata::db::Db;
use kiosk_naplata::models::{KioskError, Settings, TicketType};
use kiosk_naplata::printer::PrinterTarget;
use kiosk_naplata::token::{obfuscate, verify};

fn types(list: &[(&str, i64)]) -> Vec<TicketType> {
    list.iter()
        .map(|(c, p)| TicketType {
            code: c.to_string(),
            label: "L".to_string(),
            price_rsd: *p,
        })
        .collect()
}

fn set(list: &[(&str, i64)]) -> Result<Vec<String>, String> {
    let mut s = Settings::default();
    match admin_set_prices(&mut s, types(list)) {
        Ok(()) => Ok(s.ticket_types.iter().map(|t| t.code.clone()).collect()),
        Err(e) => {
            assert_eq!(s.ticket_types.len(), 3);
            Err(e.message())
        }
    }
}

#[test]
fn the_first_pin_and_its_change() {
    let mut db = Db::new();
    assert_eq!(get_pin(&db).unwrap(), "1234");
    assert_eq!(admin_login(&db, "1234").unwrap(), true);
    assert_eq!(admin_login(&db, "4321").unwrap(), false);
    assert!(matches!(admin_change_pin(&mut db, "0000", "5678"), Err(KioskError::BadPin)));
    let text = "konfiguracija: PIN mora imati bar 4 cifre";
    for bad in ["", "123", "12a4", "１２３４", "12 4"] {
        assert_eq!(admin_change_pin(&mut db, "1234", bad).unwrap_err().message(), text);
    }
    admin_change_pin(&mut db, "1234", "98765").unwrap();
    assert_eq!(get_pin(&db).unwrap(), "98765");
    assert_eq!(admin_login(&db, "98765").unwrap(), true);
    assert_eq!(admin_login(&db, "1234").unwrap(), false);
    assert!(admin_exit(&db, "98765").is_ok());
    assert_eq!(admin_exit(&db, "1234").unwrap_err().message(), "neispravan PIN");
}

#[test]
fn a_stored_pin_is_read_as_text() {
    let mut db = Db::new();
    set_pin(&mut db, "čvor").unwrap();
    assert_eq!(get_pin(&db).unwrap(), "čvor");
    db.set_secret("admin_pin", &vec![0x31, 0xff, 0x32]).unwrap();
    assert_eq!(get_pin(&db).unwrap(), "1\u{fffd}2");
}

#[test]
fn pins_are_compared_in_full() {
    assert!(ct_eq("", ""));
    assert!(ct_eq("1234", "1234"));
    assert!(!ct_eq("1234", "1235"));
    assert!(!ct_eq("1234", "12345"));
    assert!(!ct_eq("1234", "1234\0"));
    let padded = format!("1234{}", "\0".repeat(256));
    assert!(!ct_eq("1234", &padded));
    assert!(!ct_eq(&padded, "1234"));
    assert!(ct_eq(&padded, &padded));
}

#[test]
fn prices_are_checked() {
    assert_eq!(set(&[("a", 100), ("b", 2500)]), Ok(vec!["a".to_string(), "b".to_string()]));
    assert_eq!(set(&[(" a ", 100)]), Ok(vec![" a ".to_string()]));
    assert_eq!(set(&[]), Err("konfiguracija: lista tipova karata je prazna".to_string()));
    assert_eq!(
        set(&[("a", 100), ("  ", 100)]),
        Err("konfiguracija: neispravan kod tipa karte: '  '".to_string())
    );
    assert_eq!(
        set(&[("a|b", 100)]),
        Err("konfiguracija: neispravan kod tipa karte: 'a|b'".to_string())
    );
    assert_eq!(
        set(&[("a", 100), (" a", 200)]),
        Err("konfiguracija: dupli kod tipa karte: 'a'".to_string())
    );
    for price in [0, -100, 150] {
        assert_eq!(
            set(&[("a", price)]),
            Err(format!(
                "konfiguracija: cena za 'a' mora biti pozitivan umnožak 100 ({})",
                price
            ))
        );
    }
}

#[test]
fn devices_are_set() {
    let mut s = Settings::default();
    admin_set_devices(
        &mut s,
        Some(" COM4 ".to_string()),
        Some("  ".to_string()),
        None,
        500,
        20,
        0,
    );
    assert_eq!(s.nv9_port, Some("COM4".to_string()));
    assert_eq!((s.printer_port.clone(), s.printer_windows_name.clone()), (None, None));
    assert_eq!((s.feed_before_cut_mm, s.feed_after_cut_mm, s.paper_width_mm), (200, 20, 80));
    admin_set_devices(&mut s, None, None, Some("X".to_string()), 0, 201, 300);
    assert_eq!(s.nv9_port, None);
    assert_eq!(s.printer_windows_name, Some("X".to_string()));
    assert_eq!((s.feed_before_cut_mm, s.feed_after_cut_mm, s.paper_width_mm), (0, 200, 120));
    admin_set_simple_mode(&mut s, true);
    assert!(s.simple_mode);
    assert_eq!(normalize_port(Some("\u{a0}x ".to_string())), Some("x".to_string()));
    assert_eq!(normalize_port(None), None);
}

#[test]
fn the_status_for_the_staff() {
    let s = admin_device_status(None, Ok("USB".to_string()));
    assert!(!s.validator_connected && s.printer_connected);
    assert_eq!(s.validator_detail, "nijedan port nije pronađen");
    let s = admin_device_status(Some(Ok("NV9".to_string())), Err(KioskError::BadPin));
    assert!(s.validator_connected && !s.printer_connected);
    assert_eq!(s.printer_detail, "neispravan PIN");
}

#[test]
fn reprints_and_test_prints() {
    let mut db = Db::new();
    db.create_pending_sale("s1", 1, 1, 0).unwrap();
    assert!(admin_reprint(db.get_sale("s1").unwrap(), "s1").unwrap().is_empty());
    assert_eq!(
        admin_reprint(db.get_sale("s9").unwrap(), "s9").unwrap_err().message(),
        "prodaja 's9' nije pronađena"
    );
    let secret = vec![1, 2, 3];
    let t = test_ticket("id".to_string(), &secret, 77);
    assert_eq!((t.type_code.as_str(), t.label.as_str(), t.price_rsd), ("test", "TEST KARTA", 0));
    let t = admin_test_print(&secret, 77);
    let c = verify(&secret, &t.qr_token).unwrap();
    assert_eq!((c.id, c.issued_at), (t.id, 77));
}

#[test]
fn the_first_start() {
    let mut db = Db::new();
    let secret = bootstrap(&mut db).unwrap();
    assert_eq!(secret.len(), 32);
    assert_eq!(db.get_secret("qr_hmac").unwrap(), Some(obfuscate(&secret)));
    assert_eq!(db.get_secret("__bootstrapped").unwrap(), Some(b"1".to_vec()));
    assert_eq!(db.get_secret("admin_pin").unwrap(), Some(b"1234".to_vec()));
    assert_eq!(db.load_settings().unwrap().max_total_tickets, 10);
    assert!(db.settings.is_some());
}

#[test]
fn a_second_start_changes_nothing() {
    let mut db = Db::new();
    let secret = bootstrap_with(&mut db, vec![7; 32]).unwrap();
    assert_eq!(secret, vec![7; 32]);
    let mut s = db.load_settings().unwrap();
    s.max_total_tickets = 3;
    db.save_settings(&s).unwrap();
    admin_change_pin(&mut db, "1234", "5555").unwrap();
    assert_eq!(bootstrap(&mut db).unwrap(), secret);
    assert_eq!(db.load_settings().unwrap().max_total_tickets, 3);
    assert_eq!(get_pin(&db).unwrap(), "5555");
}

#[test]
fn the_port_of_the_validator() {
    let names: Vec<String> = vec!["COM9".to_string(), "COM10".to_string()];
    let mut s = Settings::default();
    assert_eq!(nv9_cfg(&s, &names).port, "COM3");
    s.nv9_port = None;
    assert_eq!(nv9_cfg(&s, &names).port, "COM10");
    assert_eq!(nv9_cfg(&s, &Vec::new()).port, "COM3");
    assert_eq!(nv9_cfg(&s, &names).baud, 9600);
    assert_eq!(validator_port(&s, &Vec::new()), None);
}

#[test]
fn the_usb_device_of_the_printer() {
    let mut s = Settings::default();
    s.printer_product_id = Some(5);
    assert_eq!(printer_target(&s), PrinterTarget { vendor_id: None, product_id: Some(5) });
}
