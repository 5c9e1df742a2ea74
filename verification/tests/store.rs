use kiosk_naplata::db::reports::{checked_u32, csv_escape};
use kiosk_naplata::db::{db_error, Db};
use kiosk_naplata::models::{PrintedTicket, Settings};

fn ticket(id: &str, type_code: &str, price_rsd: i64, issued_at: i64) -> PrintedTicket {
    PrintedTicket {
        id: id.to_string(),
        type_code: type_code.to_string(),
        label: "Karta".to_string(),
        price_rsd,
        issued_at,
        qr_token: format!("tok-{}", id),
    }
}

fn sold(db: &mut Db, sale: &str, created_at: i64, tickets: Vec<PrintedTicket>) {
    let total = tickets.iter().map(|t| t.price_rsd).sum();
    db.create_pending_sale(sale, created_at, total, tickets.len() as u32).unwrap();
    db.finalize_paid(sale, total, &tickets).unwrap();
}

#[test]
fn settings_read_back() {
    let mut db = Db::new();
    assert_eq!(db.load_settings().unwrap().museum_name, "Muzej Mileve Marić");
    let mut s = Settings::default();
    s.museum_name = "Drugi".to_string();
    s.feed_after_cut_mm = 7;
    db.save_settings(&s).unwrap();
    let read = db.load_settings().unwrap();
    assert_eq!((read.museum_name.as_str(), read.feed_after_cut_mm), ("Drugi", 7));
    assert_eq!(read.ticket_types.len(), 3);
    db.set_secret("a", &vec![1]).unwrap();
    sold(&mut db, "s1", 10, vec![ticket("t1", "deca", 200, 5)]);
    db.mark_printed("s1", 20).unwrap();
    assert!(db.redeem_ticket("t1", 30).unwrap());
    assert_eq!(db.load_settings().unwrap().museum_name, "Drugi");
    assert_eq!(db.load_settings().unwrap().feed_after_cut_mm, 7);
}

#[test]
fn secrets_read_back() {
    let mut db = Db::new();
    assert_eq!(db.get_secret("a").unwrap(), None);
    db.set_secret("a", &vec![1, 2]).unwrap();
    db.set_secret("b", &vec![3]).unwrap();
    db.set_secret("a", &vec![9]).unwrap();
    assert_eq!(db.get_secret("a").unwrap(), Some(vec![9]));
    assert_eq!(db.get_secret("b").unwrap(), Some(vec![3]));
    assert_eq!(db.secrets.len(), 2);
}

#[test]
fn paid_sales_have_their_tickets() {
    let mut db = Db::new();
    sold(&mut db, "s1", 10, vec![ticket("t2", "deca", 200, 5), ticket("t1", "deca", 200, 5)]);
    let s = db.get_sale("s1").unwrap().unwrap();
    assert_eq!(s.status, "paid");
    assert_eq!((s.total_rsd, s.inserted_rsd, s.num_tickets), (400, 400, 2));
    assert!(!s.printed);
    let ids: Vec<&str> = s.tickets.iter().map(|t| t.id.as_str()).collect();
    assert_eq!(ids, vec!["t2", "t1"]);
    assert_eq!(s.tickets[0].qr_token, "tok-t2");
    assert!(db.get_sale("s2").unwrap().is_none());
}

#[test]
fn storing_tickets_is_all_or_nothing() {
    let mut db = Db::new();
    sold(&mut db, "s1", 10, vec![ticket("t1", "deca", 200, 5)]);
    db.create_pending_sale("s2", 11, 200, 1).unwrap();
    let e = db
        .finalize_paid("s2", 200, &vec![ticket("t9", "deca", 1, 1), ticket("t1", "deca", 1, 1)])
        .unwrap_err();
    assert_eq!(e.message(), "baza: UNIQUE constraint failed: tickets.id");
    let e = db
        .finalize_paid("s2", 200, &vec![ticket("t9", "deca", 1, 1), ticket("t9", "deca", 1, 1)])
        .unwrap_err();
    assert_eq!(e.message(), "baza: UNIQUE constraint failed: tickets.id");
    assert_eq!(db.get_sale("s2").unwrap().unwrap().status, "pending");
    assert_eq!(db.tickets.len(), 1);
    let e = db.finalize_paid("s3", 1, &Vec::new()).unwrap_err();
    assert_eq!(e.message(), "baza: prodaja za finalizaciju nije pronađena: s3");
}

#[test]
fn sales_are_opened_once_and_removed_without_tickets() {
    let mut db = Db::new();
    db.create_pending_sale("s1", 10, 200, 1).unwrap();
    assert_eq!(
        db.create_pending_sale("s1", 10, 200, 1).unwrap_err().message(),
        "baza: UNIQUE constraint failed: sales.id"
    );
    db.delete_sale("s9").unwrap();
    db.delete_sale("s1").unwrap();
    assert!(db.get_sale("s1").unwrap().is_none());
    sold(&mut db, "s2", 10, vec![ticket("t1", "deca", 200, 5)]);
    assert_eq!(
        db.delete_sale("s2").unwrap_err().message(),
        "baza: FOREIGN KEY constraint failed"
    );
    assert_eq!(db.sales.len(), 1);
}

#[test]
fn changes_touch_one_sale() {
    let mut db = Db::new();
    db.create_pending_sale("s1", 1, 200, 1).unwrap();
    db.create_pending_sale("s2", 2, 200, 1).unwrap();
    db.update_inserted("s2", 100).unwrap();
    assert_eq!(db.get_sale("s1").unwrap().unwrap().inserted_rsd, 0);
    assert_eq!(db.get_sale("s2").unwrap().unwrap().inserted_rsd, 100);
    db.mark_abandoned("s2", 150).unwrap();
    let s = db.get_sale("s2").unwrap().unwrap();
    assert_eq!((s.inserted_rsd, s.status.as_str()), (150, "abandoned"));
    assert_eq!(db.get_sale("s1").unwrap().unwrap().status, "pending");
    db.update_inserted("s9", 1).unwrap();
}

#[test]
fn prints_are_marked_and_counted() {
    let mut db = Db::new();
    sold(&mut db, "s1", 10, vec![ticket("t1", "deca", 200, 5)]);
    sold(&mut db, "s2", 10, vec![ticket("t2", "deca", 200, 5)]);
    db.mark_printed("s1", 100).unwrap();
    db.mark_printed("s1", 200).unwrap();
    assert!(db.get_sale("s1").unwrap().unwrap().printed);
    assert!(!db.get_sale("s2").unwrap().unwrap().printed);
    assert_eq!(db.tickets[0].printed_at, Some(100));
    assert_eq!(db.tickets[1].printed_at, None);
    db.inc_reprint("s1").unwrap();
    db.inc_reprint("s1").unwrap();
    assert_eq!(db.get_sale("s1").unwrap().unwrap().reprinted_count, 2);
    let text = "baza: prodaja nije pronađena: s9";
    assert_eq!(db.mark_printed("s9", 1).unwrap_err().message(), text);
    assert_eq!(db.inc_reprint("s9").unwrap_err().message(), text);
}

#[test]
fn a_second_print_finds_the_same_tickets() {
    let mut db = Db::new();
    sold(&mut db, "s1", 10, vec![ticket("t2", "deca", 200, 6), ticket("t1", "deca", 200, 5)]);
    sold(&mut db, "s2", 11, vec![ticket("t3", "deca", 200, 5)]);
    let read = |db: &Db, id: &str| {
        let sale = db.get_sale(id).unwrap().unwrap();
        let tickets: Vec<String> =
            sale.tickets.iter().map(|t| format!("{} {}", t.id, t.qr_token)).collect();
        (sale.printed, tickets)
    };
    let (printed, before) = read(&db, "s1");
    assert!(!printed);
    assert_eq!(before, vec!["t1 tok-t1", "t2 tok-t2"]);
    for now in [20, 30] {
        db.mark_printed("s1", now).unwrap();
        assert_eq!(read(&db, "s1"), (true, before.clone()));
        assert_eq!(db.tickets[0].printed_at, Some(20));
        assert_eq!(read(&db, "s2"), (false, vec!["t3 tok-t3".to_string()]));
    }
}

#[test]
fn a_sale_is_written_in_its_own_rows() {
    let all = || {
        let mut db = Db::new();
        sold(&mut db, "s1", 10, vec![ticket("t1", "deca", 200, 5)]);
        db.create_pending_sale("s2", 11, 400, 1).unwrap();
        db
    };
    let own = || {
        let mut db = Db::new();
        db.create_pending_sale("s2", 11, 400, 1).unwrap();
        db
    };
    let row = |db: &Db| {
        let s = db.sales.iter().find(|s| s.id == "s2").map(|s| (s.status.clone(), s.inserted_rsd));
        let t: Vec<String> =
            db.tickets.iter().filter(|t| t.sale_id == "s2").map(|t| t.ticket.id.clone()).collect();
        (s, t)
    };
    let (mut a, mut b) = (all(), own());
    for db in [&mut a, &mut b] {
        db.finalize_paid("s2", 400, &vec![ticket("t2", "deca", 400, 6)]).unwrap();
        assert!(db.delete_sale("s2").is_err());
    }
    assert_eq!(row(&a), row(&b));
    assert_eq!(row(&a), (Some(("paid".to_string(), 400)), vec!["t2".to_string()]));
    let (mut a, mut b) = (all(), own());
    for db in [&mut a, &mut b] {
        db.delete_sale("s2").unwrap();
        assert_eq!(row(db), (None, vec![]));
    }
    assert_eq!(a.sales.len(), 1);
    assert!(all().finalize_paid("s2", 400, &vec![ticket("t1", "deca", 400, 6)]).is_err());
    let mut db = all();
    assert!(db.redeem_ticket("t1", 7).unwrap());
    db.tickets.truncate(1);
    assert!(!db.redeem_ticket("t1", 8).unwrap());
}

#[test]
fn tickets_are_redeemed_once() {
    let mut db = Db::new();
    sold(&mut db, "s1", 10, vec![ticket("t1", "deca", 200, 5), ticket("t2", "deca", 200, 5)]);
    assert_eq!(db.redeem_ticket("t1", 50).unwrap(), true);
    assert_eq!(db.redeem_ticket("t1", 60).unwrap(), false);
    assert_eq!(db.tickets[0].redeemed_at, Some(50));
    assert_eq!(db.redeem_ticket("t9", 50).unwrap(), false);
    assert_eq!(db.redeem_ticket("t2", 70).unwrap(), true);
}

#[test]
fn sales_are_listed_by_time() {
    let mut db = Db::new();
    for (id, at) in [("c", 30), ("a", 10), ("d", 40), ("b", 10)] {
        db.create_pending_sale(id, at, 100, 1).unwrap();
    }
    let list = |from, to| {
        db.list_sales(from, to).unwrap().into_iter().map(|s| s.id).collect::<Vec<_>>()
    };
    assert_eq!(list(0, 100), vec!["a", "b", "c", "d"]);
    assert_eq!(list(10, 30), vec!["a", "b", "c"]);
    assert!(list(11, 29).is_empty());
}

#[test]
fn counts_have_to_fit() {
    assert_eq!(checked_u32(7, "x").unwrap(), 7);
    assert_eq!(
        checked_u32(-1, "num_tickets").unwrap_err().message(),
        "baza: invalid num_tickets value in database: -1"
    );
    assert_eq!(
        checked_u32(4_294_967_296, "x").unwrap_err().message(),
        "baza: invalid x value in database: 4294967296"
    );
    let mut db = Db::new();
    db.create_pending_sale("s1", 1, 1, 1).unwrap();
    db.create_pending_sale("s2", 2, 1, 1).unwrap();
    db.sales[1].reprinted_count = -3;
    let text = "baza: invalid reprinted_count value in database: -3";
    assert_eq!(db.get_sale("s2").unwrap_err().message(), text);
    assert_eq!(db.list_sales(0, 9).unwrap_err().message(), text);
    db.sales[1].num_tickets = 5_000_000_000;
    assert_eq!(
        db.get_sale("s2").unwrap_err().message(),
        "baza: invalid num_tickets value in database: 5000000000"
    );
    assert!(db.get_sale("s1").is_ok());
    assert_eq!(db_error("x").message(), "baza: x");
}

#[test]
fn fields_of_the_export_are_quoted() {
    assert_eq!(csv_escape("obično"), "obično");
    assert_eq!(csv_escape("a,b"), "\"a,b\"");
    assert_eq!(csv_escape("kaže \"da\""), "\"kaže \"\"da\"\"\"");
    assert_eq!(csv_escape("dva\nreda"), "\"dva\nreda\"");
    assert_eq!(csv_escape("\r"), "\"\r\"");
    assert_eq!(csv_escape(""), "");
}

#[test]
fn the_export_lists_tickets_in_order() {
    let mut db = Db::new();
    sold(&mut db, "s2", 20, vec![ticket("t3", "deca", 200, 9), ticket("t2", "deca", 200, 8)]);
    sold(&mut db, "s1", 10, vec![ticket("t1", "od,rasli", 400, 50)]);
    sold(&mut db, "s3", 99, vec![ticket("t4", "deca", 200, 1)]);
    db.mark_printed("s1", 60).unwrap();
    db.redeem_ticket("t2", 70).unwrap();
    assert_eq!(
        db.export_csv(0, 50).unwrap(),
        "sale_id,ticket_id,type_code,label,price_rsd,issued_at,qr_token,printed_at,redeemed_at\n\
         s1,t1,\"od,rasli\",Karta,400,50,tok-t1,60,\n\
         s2,t2,deca,Karta,200,8,tok-t2,,70\n\
         s2,t3,deca,Karta,200,9,tok-t3,,\n"
    );
}

#[test]
fn the_report_of_a_period() {
    let mut db = Db::new();
    sold(&mut db, "s1", 10, vec![ticket("t1", "odrasli", 400, 1), ticket("t2", "deca", 200, 1)]);
    sold(&mut db, "s2", 20, vec![ticket("t3", "deca", 250, 1)]);
    db.create_pending_sale("s3", 15, 400, 1).unwrap();
    db.mark_abandoned("s3", 100).unwrap();
    db.create_pending_sale("s4", 16, 400, 1).unwrap();
    db.update_inserted("s4", 300).unwrap();
    sold(&mut db, "s5", 99, vec![ticket("t4", "deca", 200, 1)]);
    let z = db.z_report(10, 20).unwrap();
    assert_eq!((z.from_ts, z.to_ts), (10, 20));
    assert_eq!((z.count_sales, z.count_tickets), (2, 3));
    assert_eq!((z.total_rsd, z.abandoned_rsd), (850, 100));
    assert_eq!(
        z.by_type,
        vec![("deca".to_string(), 2, 450), ("odrasli".to_string(), 1, 400)]
    );
    assert_eq!(z.by_type.iter().map(|t| t.1).sum::<u32>(), z.count_tickets);
    let z = db.z_report(0, 1).unwrap();
    assert_eq!((z.count_sales, z.total_rsd, z.by_type.len()), (0, 0, 0));
}

#[test]
fn sums_have_to_fit() {
    let mut db = Db::new();
    for id in ["s1", "s2"] {
        db.create_pending_sale(id, 1, i64::MAX, 1).unwrap();
        db.finalize_paid(id, 1, &Vec::new()).unwrap();
    }
    assert_eq!(db.z_report(0, 9).unwrap_err().message(), "baza: integer overflow");
    let mut db = Db::new();
    for id in ["s1", "s2"] {
        db.create_pending_sale(id, 1, 1, 1).unwrap();
        db.mark_abandoned(id, i64::MAX).unwrap();
    }
    assert_eq!(db.z_report(0, 9).unwrap_err().message(), "baza: integer overflow");
    let mut db = Db::new();
    db.create_pending_sale("s1", 1, 1, 1).unwrap();
    db.finalize_paid(
        "s1",
        1,
        &vec![ticket("t1", "deca", i64::MAX, 1), ticket("t2", "deca", 1, 1)],
    )
    .unwrap();
    assert_eq!(db.z_report(0, 9).unwrap_err().message(), "baza: integer overflow");
}

#[test]
fn a_part_of_the_tables_is_enough() {
    let mut all = Db::new();
    sold(&mut all, "s0", 5, vec![ticket("t0", "deca", 200, 1)]);
    sold(&mut all, "s1", 10, vec![ticket("t1", "deca", 200, 3), ticket("t2", "odrasli", 400, 2)]);
    sold(&mut all, "s2", 30, vec![ticket("t3", "deca", 200, 1)]);
    let mut part = Db::new();
    sold(&mut part, "s1", 10, vec![ticket("t1", "deca", 200, 3), ticket("t2", "odrasli", 400, 2)]);
    let ids = |db: &Db| {
        let s = db.get_sale("s1").unwrap().unwrap();
        s.tickets.into_iter().map(|t| t.id).collect::<Vec<_>>()
    };
    assert_eq!(ids(&part), vec!["t2", "t1"]);
    assert_eq!(ids(&part), ids(&all));
    assert_eq!(part.export_csv(10, 20).unwrap(), all.export_csv(10, 20).unwrap());
    let (a, b) = (part.z_report(10, 20).unwrap(), all.z_report(10, 20).unwrap());
    assert_eq!((a.count_sales, a.total_rsd, a.by_type), (b.count_sales, b.total_rsd, b.by_type));
    assert_eq!(part.list_sales(10, 20).unwrap().len(), all.list_sales(10, 20).unwrap().len());
    for db in [&mut part, &mut all] {
        db.mark_printed("s1", 99).unwrap();
        assert!(db.get_sale("s1").unwrap().unwrap().printed);
    }
}
