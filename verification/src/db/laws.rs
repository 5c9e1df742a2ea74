//! What holds of the tables across operations.

use vstd::prelude::*;

use crate::db::reports::{
    by_issue, codes, find_sale, of_type, prices, report_of, rows_of, sold_between, sum_of,
    tickets_of, type_total, type_totals,
};
use crate::db::scope::lemma_map_then_filter;
use crate::db::{
    changed, consistent, has_sale, has_ticket, ids_free, new_ticket_rows, pending_sale, redeemable,
    settings_in_use, sold_in, with_change, with_print_time, with_redemption, written, DbView,
    DbWrite, SaleChange, SaleRowView, TicketRowView,
};
use crate::keyed::{in_order, items, placed};
use crate::models::{default_settings, SettingsView, TicketView};
use crate::order::{
    law_ordered_texts_are_the_same, law_ordered_texts_ascend, law_text_order_irreflexive,
    ordered_texts, strictly_ordered,
};

verus! {

// ---------------------------------------------------------------------------
// Consistency
// ---------------------------------------------------------------------------

proof fn lemma_change_keeps_sales(sales: Seq<SaleRowView>, id: Seq<char>, c: SaleChange, other: Seq<
    char,
>)
    ensures
        has_sale(with_change(sales, id, c), other) <==> has_sale(sales, other),
{
    let after = with_change(sales, id, c);
    if has_sale(sales, other) {
        let i = choose|i: int| 0 <= i < sales.len() && #[trigger] sales[i].id == other;
        assert(after[i].id == other);
    }
    if has_sale(after, other) {
        let i = choose|i: int| 0 <= i < after.len() && #[trigger] after[i].id == other;
        assert(sales[i].id == other);
    }
}

/// Opening a sale under a new id keeps the tables consistent.
pub proof fn law_new_sale_is_consistent(
    d: DbView,
    id: Seq<char>,
    created_at: i64,
    total: i64,
    num_tickets: u32,
)
    requires
        consistent(d),
        !has_sale(d.sales, id),
    ensures
        consistent(
            DbView { sales: d.sales.push(pending_sale(id, created_at, total, num_tickets)), ..d },
        ),
        find_sale(d.sales.push(pending_sale(id, created_at, total, num_tickets)), id) == Some(
            pending_sale(id, created_at, total, num_tickets),
        ),
{
    let row = pending_sale(id, created_at, total, num_tickets);
    let after = d.sales.push(row);
    assert forall|i: int| 0 <= i < d.tickets.len() implies has_sale(
        after,
        (#[trigger] d.tickets[i]).sale_id,
    ) by {
        let k = choose|k: int|
            0 <= k < d.sales.len() && #[trigger] d.sales[k].id == d.tickets[i].sale_id;
        assert(after[k].id == d.tickets[i].sale_id);
    }
    lemma_find_pushed(d.sales, row);
}

proof fn lemma_find_pushed(sales: Seq<SaleRowView>, row: SaleRowView)
    requires
        !has_sale(sales, row.id),
    ensures
        find_sale(sales.push(row), row.id) == Some(row),
    decreases sales.len(),
{
    let after = sales.push(row);
    if sales.len() > 0 {
        assert(sales[0].id != row.id);
        let rest = sales.skip(1);
        assert(after.skip(1) =~= rest.push(row));
        if has_sale(rest, row.id) {
            let k = choose|k: int| 0 <= k < rest.len() && #[trigger] rest[k].id == row.id;
            assert(sales[k + 1].id == row.id);
        }
        lemma_find_pushed(rest, row);
    }
}

/// Any change of a sale keeps the tables consistent.
pub proof fn law_changed_sale_is_consistent(d: DbView, id: Seq<char>, c: SaleChange)
    requires
        consistent(d),
    ensures
        consistent(DbView { sales: with_change(d.sales, id, c), ..d }),
{
    let after = with_change(d.sales, id, c);
    assert forall|i: int, j: int| 0 <= i < j < after.len() implies (#[trigger] after[i]).id != (
    #[trigger] after[j]).id by {
        assert(d.sales[i].id != d.sales[j].id);
    }
    assert forall|i: int| 0 <= i < d.tickets.len() implies has_sale(
        after,
        (#[trigger] d.tickets[i]).sale_id,
    ) by {
        lemma_change_keeps_sales(d.sales, id, c, d.tickets[i].sale_id);
    }
}

/// Storing new tickets of a sale under free ids keeps the tables consistent.
pub proof fn law_new_tickets_are_consistent(d: DbView, sale_id: Seq<char>, new: Seq<TicketView>)
    requires
        consistent(d),
        has_sale(d.sales, sale_id),
        ids_free(d.tickets, new),
    ensures
        consistent(DbView { tickets: d.tickets + new_ticket_rows(sale_id, new), ..d }),
{
    let after = d.tickets + new_ticket_rows(sale_id, new);
    let n = d.tickets.len() as int;
    assert forall|i: int, j: int| 0 <= i < j < after.len() implies (#[trigger] after[i]).ticket.id
        != (#[trigger] after[j]).ticket.id by {
        if j >= n {
            assert(after[j].ticket == new[j - n]);
            if i >= n {
                assert(after[i].ticket == new[i - n]);
            } else {
                assert(!has_ticket(d.tickets, new[j - n].id));
                assert(after[i] == d.tickets[i]);
                assert(d.tickets[i].ticket.id != new[j - n].id);
            }
        } else {
            assert(d.tickets[i].ticket.id != d.tickets[j].ticket.id);
        }
    }
    assert forall|i: int| 0 <= i < after.len() implies has_sale(
        d.sales,
        (#[trigger] after[i]).sale_id,
    ) by {
        if i < n {
            assert(after[i] == d.tickets[i]);
        } else {
            assert(after[i].sale_id == sale_id);
        }
    }
}

/// Removing a sale without tickets keeps the tables consistent, and the sale is gone.
pub proof fn law_removed_sale_is_consistent(d: DbView, id: Seq<char>)
    requires
        consistent(d),
        !sold_in(d.tickets, id),
    ensures
        consistent(DbView { sales: d.sales.filter(|r: SaleRowView| r.id != id), ..d }),
        !has_sale(d.sales.filter(|r: SaleRowView| r.id != id), id),
{
    let keep = |r: SaleRowView| r.id != id;
    let after = d.sales.filter(keep);
    lemma_filter_distinct(d.sales, keep);
    assert forall|i: int| 0 <= i < d.tickets.len() implies has_sale(
        after,
        (#[trigger] d.tickets[i]).sale_id,
    ) by {
        let k = choose|k: int|
            0 <= k < d.sales.len() && #[trigger] d.sales[k].id == d.tickets[i].sale_id;
        assert(d.tickets[i].sale_id != id);
        d.sales.lemma_filter_contains(keep, k);
        let m = choose|m: int| 0 <= m < after.len() && after[m] == d.sales[k];
        assert(after[m].id == d.tickets[i].sale_id);
    }
    if has_sale(after, id) {
        let m = choose|m: int| 0 <= m < after.len() && #[trigger] after[m].id == id;
        d.sales.lemma_filter_pred(keep, m);
    }
}

proof fn lemma_filter_distinct(sales: Seq<SaleRowView>, keep: spec_fn(SaleRowView) -> bool)
    requires
        forall|i: int, j: int|
            0 <= i < j < sales.len() ==> (#[trigger] sales[i]).id != (#[trigger] sales[j]).id,
    ensures
        forall|i: int, j: int|
            0 <= i < j < sales.filter(keep).len() ==> (#[trigger] sales.filter(keep)[i]).id != (
            #[trigger] sales.filter(keep)[j]).id,
    decreases sales.len(),
{
    reveal(Seq::filter);
    if sales.len() > 0 {
        let rest = sales.drop_last();
        lemma_filter_distinct(rest, keep);
        let kept = rest.filter(keep);
        let after = sales.filter(keep);
        assert forall|i: int, j: int| 0 <= i < j < after.len() implies (#[trigger] after[i]).id != (
        #[trigger] after[j]).id by {
            assert(after[i] == kept[i]);
            if j < kept.len() {
                assert(after[j] == kept[j]);
            } else {
                assert(kept.contains(kept[i]));
                rest.lemma_filter_contains_rev(keep, kept[i]);
                let k = choose|k: int| 0 <= k < rest.len() && rest[k] == kept[i];
                assert(sales[k].id != sales[sales.len() - 1].id);
            }
        }
    }
}

/// Printing and redeeming keep the tables consistent.
pub proof fn law_marked_tickets_are_consistent(d: DbView, id: Seq<char>, now: i64)
    requires
        consistent(d),
    ensures
        consistent(DbView { tickets: with_print_time(d.tickets, id, now), ..d }),
        consistent(DbView { tickets: with_redemption(d.tickets, id, now), ..d }),
{
    let printed = with_print_time(d.tickets, id, now);
    let redeemed = with_redemption(d.tickets, id, now);
    assert forall|i: int, j: int| 0 <= i < j < d.tickets.len() implies (
    #[trigger] printed[i]).ticket.id != (#[trigger] printed[j]).ticket.id by {
        assert(d.tickets[i].ticket.id != d.tickets[j].ticket.id);
    }
    assert forall|i: int, j: int| 0 <= i < j < d.tickets.len() implies (
    #[trigger] redeemed[i]).ticket.id != (#[trigger] redeemed[j]).ticket.id by {
        assert(d.tickets[i].ticket.id != d.tickets[j].ticket.id);
    }
    assert forall|i: int| 0 <= i < printed.len() implies has_sale(
        d.sales,
        (#[trigger] printed[i]).sale_id,
    ) by {
        assert(printed[i].sale_id == d.tickets[i].sale_id);
    }
    assert forall|i: int| 0 <= i < redeemed.len() implies has_sale(
        d.sales,
        (#[trigger] redeemed[i]).sale_id,
    ) by {
        assert(redeemed[i].sale_id == d.tickets[i].sale_id);
    }
}

// ---------------------------------------------------------------------------
// What is read after a write
// ---------------------------------------------------------------------------

/// A change of a sale is what is read of it afterwards, and every other sale reads as before.
pub proof fn law_change_reads_back(sales: Seq<SaleRowView>, id: Seq<char>, c: SaleChange, other:
    Seq<char>)
    ensures
        find_sale(with_change(sales, id, c), other) == match find_sale(sales, other) {
            Some(r) => Some(
                if other == id {
                    changed(r, c)
                } else {
                    r
                },
            ),
            None => None,
        },
        find_sale(sales, other) is Some <==> has_sale(sales, other),
    decreases sales.len(),
{
    let after = with_change(sales, id, c);
    if sales.len() > 0 {
        let rest = sales.skip(1);
        law_change_reads_back(rest, id, c, other);
        assert(after.skip(1) =~= with_change(rest, id, c));
        if has_sale(rest, other) {
            let k = choose|k: int| 0 <= k < rest.len() && #[trigger] rest[k].id == other;
            assert(sales[k + 1].id == other);
        }
        if has_sale(sales, other) {
            let k = choose|k: int| 0 <= k < sales.len() && #[trigger] sales[k].id == other;
            if k > 0 {
                assert(rest[k - 1].id == other);
            } else {
                assert(sales[0].id == other);
            }
        }
        if sales[0].id == other {
            assert(has_sale(sales, other));
        }
    }
}

proof fn lemma_all_of_sale(sale_id: Seq<char>, new: Seq<TicketView>)
    ensures
        rows_of(new_ticket_rows(sale_id, new), sale_id) == new_ticket_rows(sale_id, new),
    decreases new.len(),
{
    reveal(Seq::filter);
    let rows = new_ticket_rows(sale_id, new);
    if new.len() > 0 {
        lemma_all_of_sale(sale_id, new.drop_last());
        assert(rows.drop_last() =~= new_ticket_rows(sale_id, new.drop_last()));
        assert(rows =~= rows.drop_last().push(rows.last()));
    }
}

proof fn lemma_none_of_sale(tickets: Seq<TicketRowView>, sale_id: Seq<char>)
    requires
        !sold_in(tickets, sale_id),
    ensures
        rows_of(tickets, sale_id) == Seq::<TicketRowView>::empty(),
    decreases tickets.len(),
{
    reveal(Seq::filter);
    if tickets.len() > 0 {
        let rest = tickets.drop_last();
        assert(tickets[tickets.len() - 1].sale_id != sale_id);
        if sold_in(rest, sale_id) {
            let k = choose|k: int| 0 <= k < rest.len() && #[trigger] rest[k].sale_id == sale_id;
            assert(tickets[k].sale_id == sale_id);
        }
        lemma_none_of_sale(rest, sale_id);
    }
}

proof fn lemma_issued_together(sale_id: Seq<char>, new: Seq<TicketView>, issued_at: i64)
    requires
        forall|i: int| 0 <= i < new.len() ==> (#[trigger] new[i]).issued_at == issued_at,
    ensures
        in_order(by_issue(new_ticket_rows(sale_id, new))) == by_issue(
            new_ticket_rows(sale_id, new),
        ),
    decreases new.len(),
{
    let rows = by_issue(new_ticket_rows(sale_id, new));
    if new.len() > 0 {
        let rest = new.skip(1);
        assert forall|i: int| 0 <= i < rest.len() implies (#[trigger] rest[i]).issued_at
            == issued_at by {
            assert(rest[i] == new[i + 1]);
        }
        lemma_issued_together(sale_id, rest, issued_at);
        let tail = by_issue(new_ticket_rows(sale_id, rest));
        assert(rows.skip(1) =~= tail);
        if tail.len() > 0 {
            assert(tail[0].first == issued_at) by {
                assert(rest[0].issued_at == issued_at);
            }
        }
        assert(rows[0].first == issued_at) by {
            assert(new[0].issued_at == issued_at);
        }
        assert(placed(tail, rows[0]) =~= rows);
    }
}

/// The tickets that a sale is paid with are the tickets that are read of it: all of them, in
/// the order in which they were minted. Tickets are minted together, for a sale that has none.
pub proof fn law_paid_tickets_read_back(
    d: DbView,
    sale_id: Seq<char>,
    inserted: i64,
    new: Seq<TicketView>,
    issued_at: i64,
)
    requires
        has_sale(d.sales, sale_id),
        !sold_in(d.tickets, sale_id),
        forall|i: int| 0 <= i < new.len() ==> (#[trigger] new[i]).issued_at == issued_at,
    ensures
        tickets_of(d.tickets + new_ticket_rows(sale_id, new), sale_id) == new,
        ({
            let sale = find_sale(
                with_change(d.sales, sale_id, SaleChange::Paid(inserted)),
                sale_id,
            );
            &&& sale is Some
            &&& sale->0.status == "paid"@
            &&& sale->0.inserted_rsd == inserted
        }),
{
    let rows = new_ticket_rows(sale_id, new);
    let keep = |r: TicketRowView| r.sale_id == sale_id;
    Seq::filter_distributes_over_add(d.tickets, rows, keep);
    lemma_none_of_sale(d.tickets, sale_id);
    lemma_all_of_sale(sale_id, new);
    assert(Seq::<TicketRowView>::empty() + rows =~= rows);
    lemma_issued_together(sale_id, new, issued_at);
    assert(items(by_issue(rows)) =~= new);
    law_change_reads_back(d.sales, sale_id, SaleChange::Paid(inserted), sale_id);
}

/// A ticket is redeemed once: after a redemption, at whatever time, it is not redeemable, and
/// whether any other ticket is stays as it was.
pub proof fn law_redeemed_once(tickets: Seq<TicketRowView>, id: Seq<char>, now: i64, other: Seq<
    char,
>)
    ensures
        !redeemable(with_redemption(tickets, id, now), id),
        other != id ==> (redeemable(with_redemption(tickets, id, now), other) <==> redeemable(
            tickets,
            other,
        )),
{
    let after = with_redemption(tickets, id, now);
    if redeemable(tickets, other) {
        let i = choose|i: int|
            0 <= i < tickets.len() && #[trigger] tickets[i].ticket.id == other
                && tickets[i].redeemed_at is None;
        assert(other != id ==> after[i].ticket.id == other);
    }
    if redeemable(after, other) {
        let i = choose|i: int|
            0 <= i < after.len() && #[trigger] after[i].ticket.id == other
                && after[i].redeemed_at is None;
        assert(tickets[i].ticket.id == other);
    }
}

/// A time of printing or of redemption, once stored, stays.
pub proof fn law_marks_stay(tickets: Seq<TicketRowView>, id: Seq<char>, now: i64, i: int)
    requires
        0 <= i < tickets.len(),
    ensures
        tickets[i].printed_at is Some ==> with_print_time(tickets, id, now)[i] == tickets[i],
        tickets[i].redeemed_at is Some ==> with_redemption(tickets, id, now)[i] == tickets[i],
{
}

/// Printing a sale leaves the tickets of every sale as they are read, and of the sales changes
/// only that this one is printed. A second print of it finds the same tickets, and changes
/// nothing more.
pub proof fn law_printing_keeps_the_tickets(
    d: DbView,
    id: Seq<char>,
    now: i64,
    later: i64,
    other: Seq<char>,
)
    ensures
        ({
            let after = written(d, DbWrite::Printed { id, now });
            &&& tickets_of(after.tickets, other) == tickets_of(d.tickets, other)
            &&& find_sale(after.sales, other) == match find_sale(d.sales, other) {
                Some(r) => Some(
                    SaleRowView { printed: r.printed || other == id, ..r },
                ),
                None => None,
            }
            &&& written(after, DbWrite::Printed { id, now: later }) == after
        }),
{
    let after = written(d, DbWrite::Printed { id, now });
    law_change_reads_back(d.sales, id, SaleChange::Printed, other);
    if has_sale(d.sales, id) {
        let f = |r: TicketRowView|
            if r.sale_id == id && r.printed_at is None {
                TicketRowView { printed_at: Some(now), ..r }
            } else {
                r
            };
        lemma_map_then_filter(d.tickets, f, |r: TicketRowView| r.sale_id == other);
        assert(by_issue(rows_of(after.tickets, other)) =~= by_issue(rows_of(d.tickets, other)));
        let again = written(after, DbWrite::Printed { id, now: later });
        assert(again.sales =~= after.sales);
        assert(again.tickets =~= after.tickets);
    }
}

/// A secret reads back as it was stored, and every other one as before.
pub proof fn law_secret_reads_back(d: DbView, name: Seq<char>, value: Seq<u8>, other: Seq<char>)
    ensures
        d.secrets.insert(name, value).contains_pair(name, value),
        other != name ==> (d.secrets.insert(name, value).contains_key(other)
            <==> d.secrets.contains_key(other)),
        other != name && d.secrets.contains_key(other) ==> d.secrets.insert(name, value)[other]
            == d.secrets[other],
{
}

/// The tables after a list of writes.
pub open spec fn written_all(d: DbView, writes: Seq<DbWrite>) -> DbView
    decreases writes.len(),
{
    if writes.len() == 0 {
        d
    } else {
        written(written_all(d, writes.drop_last()), writes.last())
    }
}

/// Every write keeps to its own tables: only storing settings changes the settings, only storing
/// a secret changes the secrets, and neither of the two touches a sale or a ticket.
pub proof fn law_writes_keep_to_their_tables(d: DbView, w: DbWrite)
    ensures
        !(w is Settings) ==> written(d, w).settings == d.settings,
        !(w is Secret) ==> written(d, w).secrets == d.secrets,
        w is Settings || w is Secret ==> written(d, w).sales == d.sales && written(d, w).tickets
            == d.tickets,
{
}

/// Without a write of settings, the settings that count stay.
proof fn lemma_settings_stay(d: DbView, writes: Seq<DbWrite>)
    requires
        forall|i: int| 0 <= i < writes.len() ==> !(#[trigger] writes[i] is Settings),
    ensures
        written_all(d, writes).settings == d.settings,
    decreases writes.len(),
{
    if writes.len() > 0 {
        let head = writes.drop_last();
        assert forall|i: int| 0 <= i < head.len() implies !(#[trigger] head[i] is Settings) by {
            assert(head[i] == writes[i]);
        }
        lemma_settings_stay(d, head);
        assert(!(writes[writes.len() - 1] is Settings));
        law_writes_keep_to_their_tables(written_all(d, head), writes.last());
    }
}

/// Settings come back as they were saved, every field of them, whatever was stored before and
/// whatever else is written afterwards. As long as none were saved, those of a fresh
/// installation count.
pub proof fn law_settings_read_back(d: DbView, s: SettingsView, others: Seq<DbWrite>)
    requires
        forall|i: int| 0 <= i < others.len() ==> !(#[trigger] others[i] is Settings),
    ensures
        settings_in_use(written_all(written(d, DbWrite::Settings(s)), others)) == s,
        settings_in_use(written_all(d, others)) == settings_in_use(d),
        d.settings is None ==> settings_in_use(written_all(d, others)) == default_settings(),
{
    lemma_settings_stay(written(d, DbWrite::Settings(s)), others);
    lemma_settings_stay(d, others);
}

// ---------------------------------------------------------------------------
// Totals
// ---------------------------------------------------------------------------

/// The number of tickets over the types of a list.
pub open spec fn counted(rows: Seq<TicketRowView>, list: Seq<Seq<char>>) -> int
    decreases list.len(),
{
    if list.len() == 0 {
        0
    } else {
        counted(rows, list.drop_last()) + of_type(rows, list.last()).len()
    }
}

/// The price of the tickets over the types of a list.
pub open spec fn priced(rows: Seq<TicketRowView>, list: Seq<Seq<char>>) -> int
    decreases list.len(),
{
    if list.len() == 0 {
        0
    } else {
        priced(rows, list.drop_last()) + sum_of(prices(of_type(rows, list.last())))
    }
}

proof fn lemma_one_more_row(rows: Seq<TicketRowView>, list: Seq<Seq<char>>)
    requires
        rows.len() > 0,
        strictly_ordered(list),
    ensures
        ({
            let last = rows.last();
            let there = list.contains(last.ticket.type_code);
            &&& counted(rows, list) == counted(rows.drop_last(), list) + if there {
                1int
            } else {
                0
            }
            &&& priced(rows, list) == priced(rows.drop_last(), list) + if there {
                last.ticket.price_rsd as int
            } else {
                0
            }
        }),
    decreases list.len(),
{
    reveal(Seq::filter);
    if list.len() > 0 {
        let shorter = list.drop_last();
        let code = list.last();
        let last = rows.last();
        let rest = rows.drop_last();
        lemma_one_more_row(rows, shorter);
        assert(list[list.len() - 1] == code);
        let now = of_type(rows, code);
        let before = of_type(rest, code);
        if last.ticket.type_code == code {
            assert(now == before.push(last));
            assert(prices(now).drop_last() =~= prices(before));
            if shorter.contains(code) {
                let k = choose|k: int| 0 <= k < shorter.len() && shorter[k] == code;
                assert(list[k] == code);
                law_text_order_irreflexive(code);
            }
        } else {
            assert(now == before);
            if list.contains(last.ticket.type_code) {
                let k = choose|k: int| 0 <= k < list.len() && list[k] == last.ticket.type_code;
                assert(shorter[k] == last.ticket.type_code);
            }
            if shorter.contains(last.ticket.type_code) {
                let k = choose|k: int|
                    0 <= k < shorter.len() && shorter[k] == last.ticket.type_code;
                assert(list[k] == last.ticket.type_code);
            }
        }
    }
}

proof fn lemma_no_rows(list: Seq<Seq<char>>)
    ensures
        counted(Seq::empty(), list) == 0,
        priced(Seq::empty(), list) == 0,
    decreases list.len(),
{
    reveal(Seq::filter);
    if list.len() > 0 {
        lemma_no_rows(list.drop_last());
        let none = of_type(Seq::<TicketRowView>::empty(), list.last());
        assert(none =~= Seq::<TicketRowView>::empty());
        assert(prices(none) =~= Seq::<i64>::empty());
    }
}

proof fn lemma_types_cover(rows: Seq<TicketRowView>, list: Seq<Seq<char>>)
    requires
        strictly_ordered(list),
        forall|i: int| 0 <= i < rows.len() ==> list.contains((#[trigger] rows[i]).ticket.type_code),
    ensures
        counted(rows, list) == rows.len(),
        priced(rows, list) == sum_of(prices(rows)),
    decreases rows.len(),
{
    if rows.len() == 0 {
        assert(rows =~= Seq::<TicketRowView>::empty());
        lemma_no_rows(list);
    } else {
        let rest = rows.drop_last();
        assert forall|i: int| 0 <= i < rest.len() implies list.contains(
            (#[trigger] rest[i]).ticket.type_code,
        ) by {
            assert(rest[i] == rows[i]);
        }
        lemma_types_cover(rest, list);
        lemma_one_more_row(rows, list);
        assert(list.contains(rows[rows.len() - 1].ticket.type_code));
        assert(prices(rows).drop_last() =~= prices(rest));
    }
}

/// The counts of a list of totals by type.
pub open spec fn listed_count(v: Seq<(Seq<char>, u32, i64)>) -> int
    decreases v.len(),
{
    if v.len() == 0 {
        0
    } else {
        listed_count(v.drop_last()) + v.last().1
    }
}

/// The amounts of a list of totals by type.
pub open spec fn listed_sum(v: Seq<(Seq<char>, u32, i64)>) -> int
    decreases v.len(),
{
    if v.len() == 0 {
        0
    } else {
        listed_sum(v.drop_last()) + v.last().2
    }
}

proof fn lemma_listed(rows: Seq<TicketRowView>, list: Seq<Seq<char>>)
    requires
        type_totals(rows, list) is Ok,
    ensures
        listed_count(type_totals(rows, list)->Ok_0) == counted(rows, list),
        listed_sum(type_totals(rows, list)->Ok_0) == priced(rows, list),
    decreases list.len(),
{
    if list.len() > 0 {
        lemma_listed(rows, list.drop_last());
        let v = type_totals(rows, list.drop_last())->Ok_0;
        let x = type_total(rows, list.last())->Ok_0;
        assert(v.push(x).drop_last() =~= v);
    }
}

/// The totals by type add up: their counts to the number of tickets, and their amounts to what
/// these tickets cost.
pub proof fn law_report_adds_up(d: DbView, from: i64, to: i64)
    requires
        report_of(d, from, to) is Ok,
    ensures
        listed_count(report_of(d, from, to)->Ok_0.by_type) == report_of(
            d,
            from,
            to,
        )->Ok_0.count_tickets,
        listed_sum(report_of(d, from, to)->Ok_0.by_type) == sum_of(
            prices(sold_between(d, from, to)),
        ),
{
    let rows = sold_between(d, from, to);
    let list = ordered_texts(codes(rows));
    law_ordered_texts_ascend(codes(rows));
    assert forall|i: int| 0 <= i < rows.len() implies list.contains(
        (#[trigger] rows[i]).ticket.type_code,
    ) by {
        assert(codes(rows)[i] == rows[i].ticket.type_code);
        law_ordered_texts_are_the_same(codes(rows), rows[i].ticket.type_code);
    }
    lemma_types_cover(rows, list);
    lemma_listed(rows, list);
}

} // verus!
