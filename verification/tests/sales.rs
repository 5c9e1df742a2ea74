use kiosk_naplata::commands::{
    busy_status, device_status, mint_ticket, mint_tickets, non_empty, open_sale,
    payment_interrupted, plan_close, price_cart, print_route, print_tickets, reserve, settle,
    start_payment, CloseAction, OpenSale, PrintRoute,
};
use kiosk_naplata::db::Db;
use kiosk_naplata::models::{
    Cart, CartLine, DeviceStatus, KioskError, PrintedTicket, Settings, TicketType,
};
use kiosk_naplata::payment::PaymentEnd;
use kiosk_naplata::printer::PrinterTarget;
use kiosk_naplata::token::verify;

fn cart(lines: &[(&str, u32)]) -> Cart {
    Cart {
        lines: lines.iter().map(|(c, q)| CartLine { code: c.to_string(), qty: *q }).collect(),
    }
}

fn priced(settings: &Settings, lines: &[(&str, u32)]) -> Result<(i64, u32), String> {
    price_cart(settings, &cart(lines)).map(|p| (p.total_rsd, p.qty)).map_err(|e| e.message())
}

fn secret() -> Vec<u8> {
    b"kljuc".to_vec()
}

#[test]
fn carts_are_priced() {
    let s = Settings::default();
    assert_eq!(priced(&s, &[("odrasli", 2), ("deca", 1)]), Ok((1000, 3)));
    assert_eq!(priced(&s, &[("odrasli", 1), ("nema", 0), ("odrasli", 1)]), Ok((800, 2)));
    assert_eq!(priced(&s, &[("studenti", 10)]), Ok((3000, 10)));
    assert_eq!(cart(&[("odrasli", 2), ("deca", 1)]).total_qty(), 3);
}

#[test]
fn carts_that_are_refused() {
    let mut s = Settings::default();
    assert_eq!(priced(&s, &[]), Err("prazna korpa".to_string()));
    assert_eq!(priced(&s, &[("odrasli", 0)]), Err("prazna korpa".to_string()));
    assert_eq!(priced(&s, &[("nema", 1)]), Err("nepoznat tip karte: nema".to_string()));
    assert_eq!(
        priced(&s, &[("deca", 11)]),
        Err("najviše 10 karata po transakciji".to_string())
    );
    assert_eq!(
        priced(&s, &[("deca", u32::MAX), ("deca", 1)]),
        Err("previše karata".to_string())
    );
    s.ticket_types[0].price_rsd = i64::MAX;
    assert_eq!(priced(&s, &[("odrasli", 2)]), Err("iznos prekoračen".to_string()));
    assert_eq!(
        priced(&s, &[("odrasli", 1), ("deca", 1)]),
        Err("iznos prekoračen".to_string())
    );
    s.ticket_types[0].price_rsd = -5;
    assert_eq!(priced(&s, &[("odrasli", 1)]), Err("prazna korpa".to_string()));
}

#[test]
fn minted_tickets_match_the_cart_and_verify() {
    let s = Settings::default();
    let c = cart(&[("deca", 2), ("nema", 3), ("odrasli", 0), ("odrasli", 1)]);
    let tickets = mint_tickets(&s, &c, &secret(), 1_700_000_000);
    let codes: Vec<&str> = tickets.iter().map(|t| t.type_code.as_str()).collect();
    assert_eq!(codes, vec!["deca", "deca", "odrasli"]);
    assert_eq!(tickets.iter().map(|t| t.price_rsd).sum::<i64>(), 800);
    assert_ne!(tickets[0].id, tickets[1].id);
    for t in &tickets {
        assert_eq!(t.id.len(), 36);
        assert_eq!(t.issued_at, 1_700_000_000);
        let claims = verify(&secret(), &t.qr_token).unwrap();
        assert_eq!(claims.id, t.id);
        assert_eq!(claims.type_code, t.type_code);
        assert_eq!(claims.price_rsd, t.price_rsd);
        assert_eq!(claims.issued_at, t.issued_at);
    }
    assert_eq!(tickets[0].label, "Deca (do 12)");
}

#[test]
fn a_ticket_under_a_given_id() {
    let ty = TicketType {
        code: "odrasli".to_string(),
        label: "Odrasli".to_string(),
        price_rsd: 400,
    };
    let t = mint_ticket(&ty, "abc".to_string(), &secret(), 1_700_000_000);
    assert_eq!(
        t.qr_token,
        "MMM|v1|abc|odrasli|400|1700000000|WjPlhmEwyzOEk_kLt3t-6pM7TOA3DmYUs44ixeyrhkY"
    );
    assert_eq!(t.label, "Odrasli");
}

#[test]
fn a_sale_is_opened_before_cash_is_taken() {
    let s = Settings::default();
    let mut db = Db::new();
    let sale = open_sale(&mut db, &s, &cart(&[("odrasli", 2)]), "s1".to_string(), 77).unwrap();
    assert_eq!((sale.sale_id.as_str(), sale.total_rsd), ("s1", 800));
    let stored = db.get_sale("s1").unwrap().unwrap();
    assert_eq!(stored.status, "pending");
    assert_eq!((stored.created_at, stored.total_rsd, stored.inserted_rsd), (77, 800, 0));
    assert_eq!(stored.num_tickets, 2);
    assert!(open_sale(&mut db, &s, &cart(&[]), "s2".to_string(), 77).is_err());
    let e = match open_sale(&mut db, &s, &cart(&[("deca", 1)]), "s1".to_string(), 78) {
        Err(e) => e,
        Ok(_) => panic!("dupli ključ"),
    };
    assert_eq!(e.message(), "baza: UNIQUE constraint failed: sales.id");
    let sale = start_payment(&mut db, &s, &cart(&[("deca", 1)]), 79).ok().unwrap();
    assert_eq!(sale.sale_id.len(), 36);
    assert_eq!(db.sales.len(), 2);
}

#[test]
fn the_end_decides_what_is_stored() {
    let s = Settings::default();
    let c = cart(&[("deca", 2)]);
    match plan_close(&s, &c, &secret(), &PaymentEnd::Paid(400), 9) {
        CloseAction::Finalize { inserted, tickets } => {
            assert_eq!((inserted, tickets.len()), (400, 2))
        }
        _ => panic!("nije plaćeno"),
    }
    let fail = |n| PaymentEnd::Failed(KioskError::Hardware("x".to_string()), n);
    assert!(matches!(
        plan_close(&s, &c, &secret(), &PaymentEnd::Cancelled(100), 9),
        CloseAction::Abandon { inserted: 100 }
    ));
    assert!(matches!(
        plan_close(&s, &c, &secret(), &PaymentEnd::Cancelled(0), 9),
        CloseAction::Delete
    ));
    assert!(matches!(
        plan_close(&s, &c, &secret(), &fail(100), 9),
        CloseAction::Abandon { inserted: 100 }
    ));
    assert!(matches!(plan_close(&s, &c, &secret(), &fail(0), 9), CloseAction::Delete));
}

fn open() -> OpenSale {
    OpenSale { sale_id: "s1".to_string(), total_rsd: 400 }
}

#[test]
fn a_paid_sale_that_cannot_be_stored_is_recovered() {
    let s = Settings::default();
    let tickets = mint_tickets(&s, &cart(&[("deca", 2)]), &secret(), 9);
    let ids: Vec<String> = tickets.iter().map(|t| t.id.clone()).collect();
    let r = settle(
        open(),
        PaymentEnd::Paid(400),
        tickets,
        Err(KioskError::Db("disk".to_string())),
    );
    assert_eq!(
        r.result.unwrap_err().message(),
        "naplaćeno 400 RSD, ali upis karata nije uspeo: baza: disk. Sačuvano u recovery — \
         pozovite osoblje."
    );
    let rec = r.recovery.unwrap();
    assert_eq!(rec.sale_id, "s1");
    assert_eq!((rec.inserted_rsd, rec.total_rsd), (400, 400));
    assert_eq!(rec.error, "baza: disk");
    assert_eq!(rec.tickets.iter().map(|t| t.id.clone()).collect::<Vec<_>>(), ids);
}

#[test]
fn what_the_visitor_is_told_at_the_end() {
    let none: Vec<PrintedTicket> = Vec::new();
    let r = settle(open(), PaymentEnd::Paid(400), none.clone(), Ok(()));
    let o = r.result.unwrap();
    assert_eq!((o.sale_id.as_str(), o.inserted_rsd, o.total_rsd), ("s1", 400, 400));
    assert!(r.recovery.is_none());
    let text = |end, stored| settle(open(), end, Vec::new(), stored).result.unwrap_err().message();
    let disk = || Err(KioskError::Db("disk".to_string()));
    assert_eq!(text(PaymentEnd::Cancelled(100), Ok(())), "transakcija otkazana");
    assert_eq!(text(PaymentEnd::Cancelled(100), disk()), "baza: disk");
    assert_eq!(text(PaymentEnd::Cancelled(0), disk()), "transakcija otkazana");
    assert_eq!(
        text(PaymentEnd::Failed(KioskError::Hardware("x".to_string()), 100), disk()),
        "hardver: x"
    );
    assert_eq!(payment_interrupted().message(), "plaćanje prekinuto");
}

#[test]
fn one_session_at_a_time() {
    let mut active = false;
    let start = |active: &mut bool| {
        let r = reserve(*active);
        *active = true;
        r
    };
    assert!(start(&mut active).is_ok());
    for _ in 0..2 {
        assert_eq!(start(&mut active).unwrap_err().message(), "transakcija je već u toku");
    }
    active = false;
    assert!(start(&mut active).is_ok());
}

#[test]
fn cash_stays_on_record_through_a_sale() {
    let s = Settings::default();
    let mut db = Db::new();
    let c = cart(&[("deca", 2)]);
    let sale = open_sale(&mut db, &s, &c, "s1".to_string(), 5).ok().unwrap();
    db.update_inserted("s1", 200).unwrap();
    let stored = db.get_sale("s1").unwrap().unwrap();
    assert_eq!((stored.inserted_rsd, stored.status.as_str()), (200, "pending"));
    match plan_close(&s, &c, &secret(), &PaymentEnd::Paid(400), 9) {
        CloseAction::Finalize { inserted, tickets } => {
            db.finalize_paid("s1", inserted, &tickets).unwrap();
            let stored = db.get_sale("s1").unwrap().unwrap();
            assert_eq!((stored.inserted_rsd, stored.status.as_str()), (400, "paid"));
            let read: Vec<&String> = stored.tickets.iter().map(|t| &t.id).collect();
            let minted: Vec<&String> = tickets.iter().map(|t| &t.id).collect();
            assert_eq!(read, minted);
        }
        _ => panic!("nije plaćeno"),
    }
    assert_eq!(sale.total_rsd, 400);
    open_sale(&mut db, &s, &c, "s2".to_string(), 6).ok().unwrap();
    db.mark_abandoned("s2", 100).unwrap();
    let stored = db.get_sale("s2").unwrap().unwrap();
    assert_eq!((stored.inserted_rsd, stored.status.as_str()), (100, "abandoned"));
    assert!(stored.tickets.is_empty());
}

#[test]
fn only_paid_sales_are_printed() {
    let mut db = Db::new();
    db.create_pending_sale("s1", 1, 400, 1).unwrap();
    assert_eq!(
        print_tickets(db.get_sale("s1").unwrap(), "s1").unwrap_err().message(),
        "karte se mogu štampati samo za plaćenu transakciju"
    );
    assert_eq!(
        print_tickets(db.get_sale("s9").unwrap(), "s9").unwrap_err().message(),
        "prodaja nije pronađena: s9"
    );
    let tickets = mint_tickets(&Settings::default(), &cart(&[("odrasli", 1)]), &secret(), 9);
    db.finalize_paid("s1", 400, &tickets).unwrap();
    assert_eq!(print_tickets(db.get_sale("s1").unwrap(), "s1").unwrap().len(), 1);
}

#[test]
fn the_route_to_the_printer() {
    let mut s = Settings::default();
    assert!(matches!(print_route(&s), PrintRoute::Windows(n) if n == "BIXOLON SRP-Q300"));
    s.printer_windows_name = Some("  ".to_string());
    s.printer_port = Some(" COM5".to_string());
    assert!(matches!(print_route(&s), PrintRoute::Serial(p) if p == " COM5"));
    s.printer_port = None;
    s.printer_vendor_id = Some(0x1504);
    let t = PrinterTarget { vendor_id: Some(0x1504), product_id: None };
    assert!(matches!(print_route(&s), PrintRoute::Usb(u) if u == t));
    assert_eq!(non_empty(Some("\t".to_string())), None);
    assert_eq!(non_empty(Some(" a ".to_string())), Some(" a ".to_string()));
    assert_eq!(non_empty(None), None);
}

#[test]
fn the_status_of_the_devices() {
    let s = device_status(Ok("NV9".to_string()), Err(KioskError::Print("nema".to_string())));
    assert!(s.validator_connected && !s.printer_connected);
    assert_eq!((s.validator_detail.as_str(), s.printer_detail.as_str()), ("NV9", "stampa: nema"));
    let s = busy_status();
    assert!(s.validator_connected && s.printer_connected);
    assert_eq!(s.printer_detail, "zauzeto (transakcija u toku)");
    assert!(!DeviceStatus::default().validator_connected);
}
