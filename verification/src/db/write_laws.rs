//! What every write of the tables is for, row by row.

use vstd::prelude::*;

use crate::commands::laws::closed;
use crate::db::{
    can_count, has_sale, has_ticket, ids_free, missing_sale, redeemable, settings_in_use, sold_in,
    written, DbView, DbWrite, SaleRowView, TicketRowView,
};
use crate::models::{default_settings, ErrorView, SettingsView, TicketView};
use crate::payment::EndView;

verus! {

/// A sale that is opened stands behind all others as pending, with its price and number of
/// tickets and without any cash. An id that is taken opens nothing.
pub proof fn law_an_opened_sale_is_pending(
    d: DbView,
    id: Seq<char>,
    created_at: i64,
    total: i64,
    num_tickets: u32,
)
    ensures
        ({
            let after = written(d, DbWrite::NewSale { id, created_at, total, num_tickets });
            if exists|i: int| 0 <= i < d.sales.len() && (#[trigger] d.sales[i]).id == id {
                after == d
            } else {
                &&& after.sales == d.sales.push(
                    SaleRowView {
                        id,
                        created_at,
                        total_rsd: total,
                        inserted_rsd: 0,
                        num_tickets: num_tickets as i64,
                        printed: false,
                        reprinted_count: 0,
                        status: "pending"@,
                    },
                )
                &&& after.tickets == d.tickets
                &&& after.secrets == d.secrets
                &&& after.settings == d.settings
            }
        }),
{
}

/// Storing the cash taken changes that amount of the one sale, and nothing else.
pub proof fn law_a_credit_is_stored_with_its_sale(d: DbView, id: Seq<char>, inserted: i64, i: int)
    requires
        0 <= i < d.sales.len(),
    ensures
        ({
            let after = written(d, DbWrite::Inserted { id, inserted });
            &&& after.sales.len() == d.sales.len()
            &&& after.sales[i] == if d.sales[i].id == id {
                SaleRowView { inserted_rsd: inserted, ..d.sales[i] }
            } else {
                d.sales[i]
            }
            &&& after.tickets == d.tickets
        }),
{
}

/// A sale that is paid is marked so, with the cash taken, and its tickets stand behind all others
/// under its id, each as it was minted, neither printed nor redeemed. Without the sale, or with a
/// ticket id that is taken or given twice, nothing changes at all.
pub proof fn law_a_paid_sale_gets_its_tickets(
    d: DbView,
    id: Seq<char>,
    inserted: i64,
    tickets: Seq<TicketView>,
    i: int,
    k: int,
)
    ensures
        ({
            let after = written(d, DbWrite::Paid { id, inserted, tickets });
            let known = exists|j: int| 0 <= j < d.sales.len() && (#[trigger] d.sales[j]).id == id;
            let taken = exists|j: int, m: int|
                0 <= j < d.tickets.len() && 0 <= m < tickets.len() && (
                #[trigger] d.tickets[j]).ticket.id == (#[trigger] tickets[m]).id;
            let twice = exists|j: int, m: int|
                0 <= j < m < tickets.len() && (#[trigger] tickets[j]).id == (
                #[trigger] tickets[m]).id;
            if !known || taken || twice {
                after == d
            } else {
                &&& after.sales.len() == d.sales.len()
                &&& 0 <= i < d.sales.len() ==> after.sales[i] == if d.sales[i].id == id {
                    SaleRowView { inserted_rsd: inserted, status: "paid"@, ..d.sales[i] }
                } else {
                    d.sales[i]
                }
                &&& after.tickets.len() == d.tickets.len() + tickets.len()
                &&& 0 <= k < d.tickets.len() ==> after.tickets[k] == d.tickets[k]
                &&& 0 <= k < tickets.len() ==> after.tickets[d.tickets.len() + k] == (
                TicketRowView {
                    ticket: tickets[k],
                    sale_id: id,
                    printed_at: None,
                    redeemed_at: None,
                })
            }
        }),
{
    let known = exists|j: int| 0 <= j < d.sales.len() && (#[trigger] d.sales[j]).id == id;
    assert(known == has_sale(d.sales, id));
    let taken = exists|j: int, m: int|
        0 <= j < d.tickets.len() && 0 <= m < tickets.len() && (#[trigger] d.tickets[j]).ticket.id
            == (#[trigger] tickets[m]).id;
    let twice = exists|j: int, m: int|
        0 <= j < m < tickets.len() && (#[trigger] tickets[j]).id == (#[trigger] tickets[m]).id;
    if taken {
        let (j, m) = choose|j: int, m: int|
            0 <= j < d.tickets.len() && 0 <= m < tickets.len() && (
            #[trigger] d.tickets[j]).ticket.id == (#[trigger] tickets[m]).id;
        assert(d.tickets[j].ticket.id == tickets[m].id);
        assert(has_ticket(d.tickets, tickets[m].id));
        assert(!ids_free(d.tickets, tickets));
    }
    if !taken && !twice {
        assert forall|m: int| 0 <= m < tickets.len() implies !has_ticket(
            d.tickets,
            (#[trigger] tickets[m]).id,
        ) by {
            if has_ticket(d.tickets, tickets[m].id) {
                let j = choose|j: int|
                    0 <= j < d.tickets.len() && #[trigger] d.tickets[j].ticket.id == tickets[m].id;
                assert(d.tickets[j].ticket.id == tickets[m].id);
            }
        }
        assert(ids_free(d.tickets, tickets));
    }
}

/// A sale that is given up is marked so, with the cash taken; no ticket comes or goes.
pub proof fn law_an_abandoned_sale_keeps_its_cash(d: DbView, id: Seq<char>, inserted: i64, i: int)
    requires
        0 <= i < d.sales.len(),
    ensures
        ({
            let after = written(d, DbWrite::Abandoned { id, inserted });
            &&& after.sales.len() == d.sales.len()
            &&& after.sales[i] == if d.sales[i].id == id {
                SaleRowView { inserted_rsd: inserted, status: "abandoned"@, ..d.sales[i] }
            } else {
                d.sales[i]
            }
            &&& after.tickets == d.tickets
        }),
{
}

/// A sale that is removed is gone and every other one stays, in its order. One that has tickets
/// is not removed.
pub proof fn law_a_removed_sale_is_gone(d: DbView, id: Seq<char>)
    ensures
        ({
            let after = written(d, DbWrite::Deleted { id });
            let known = exists|j: int| 0 <= j < d.sales.len() && (#[trigger] d.sales[j]).id == id;
            let sold = exists|j: int|
                0 <= j < d.tickets.len() && (#[trigger] d.tickets[j]).sale_id == id;
            if known && sold {
                after == d
            } else {
                &&& after.sales == d.sales.filter(|r: SaleRowView| r.id != id)
                &&& after.tickets == d.tickets
            }
        }),
{
    assert(has_sale(d.sales, id) == exists|j: int|
        0 <= j < d.sales.len() && (#[trigger] d.sales[j]).id == id);
    assert(sold_in(d.tickets, id) == exists|j: int|
        0 <= j < d.tickets.len() && (#[trigger] d.tickets[j]).sale_id == id);
}

/// Printing marks the sale and, with the time, those of its tickets that were not printed before;
/// a reprint counts one up. Nothing else changes.
pub proof fn law_prints_are_marked(d: DbView, id: Seq<char>, now: i64, i: int, k: int)
    ensures
        ({
            let after = written(d, DbWrite::Printed { id, now });
            let known = exists|j: int| 0 <= j < d.sales.len() && (#[trigger] d.sales[j]).id == id;
            if !known {
                after == d
            } else {
                &&& after.sales.len() == d.sales.len()
                &&& after.tickets.len() == d.tickets.len()
                &&& 0 <= i < d.sales.len() ==> after.sales[i] == if d.sales[i].id == id {
                    SaleRowView { printed: true, ..d.sales[i] }
                } else {
                    d.sales[i]
                }
                &&& 0 <= k < d.tickets.len() ==> after.tickets[k] == if d.tickets[k].sale_id == id
                    && d.tickets[k].printed_at is None {
                    TicketRowView { printed_at: Some(now), ..d.tickets[k] }
                } else {
                    d.tickets[k]
                }
            }
        }),
        ({
            let after = written(d, DbWrite::Reprinted { id });
            &&& after.tickets == d.tickets
            &&& after.sales.len() == d.sales.len()
            &&& 0 <= i < d.sales.len() ==> after.sales[i] == if d.sales[i].id == id {
                SaleRowView {
                    reprinted_count: (d.sales[i].reprinted_count + 1) as i64,
                    ..d.sales[i]
                }
            } else {
                d.sales[i]
            }
        }),
{
    assert(has_sale(d.sales, id) == exists|j: int|
        0 <= j < d.sales.len() && (#[trigger] d.sales[j]).id == id);
    if 0 <= i < d.sales.len() && d.sales[i].id == id {
        assert(has_sale(d.sales, id));
    }
}

/// A ticket is let in exactly where it is there and was not before; then it is marked with the
/// time, and no other ticket is.
pub proof fn law_a_ticket_is_let_in_once(d: DbView, ticket_id: Seq<char>, now: i64, k: int)
    ensures
        redeemable(d.tickets, ticket_id) <==> exists|j: int|
            0 <= j < d.tickets.len() && (#[trigger] d.tickets[j]).ticket.id == ticket_id
                && d.tickets[j].redeemed_at is None,
        ({
            let after = written(d, DbWrite::Redeemed { ticket_id, now });
            &&& after.sales == d.sales
            &&& after.tickets.len() == d.tickets.len()
            &&& 0 <= k < d.tickets.len() ==> after.tickets[k] == if d.tickets[k].ticket.id
                == ticket_id && d.tickets[k].redeemed_at is None {
                TicketRowView { redeemed_at: Some(now), ..d.tickets[k] }
            } else {
                d.tickets[k]
            }
            &&& !redeemable(after.tickets, ticket_id)
        }),
{
    let after = written(d, DbWrite::Redeemed { ticket_id, now });
    if redeemable(after.tickets, ticket_id) {
        let j = choose|j: int|
            0 <= j < after.tickets.len() && #[trigger] after.tickets[j].ticket.id == ticket_id
                && after.tickets[j].redeemed_at is None;
        assert(d.tickets[j].ticket.id == ticket_id);
    }
}

/// A sale that is not there is named in the error.
pub proof fn law_a_missing_sale_is_named(id: Seq<char>)
    ensures
        missing_sale(id) == ErrorView::Db("prodaja nije pronađena: "@ + id),
{
}

/// Settings and secrets are stored whole, and read as they are stored; the number of reprints of
/// a sale can be counted up below the top of the range.
pub proof fn law_settings_and_secrets_are_stored_whole(
    d: DbView,
    s: SettingsView,
    name: Seq<char>,
    value: Seq<u8>,
    id: Seq<char>,
)
    ensures
        written(d, DbWrite::Settings(s)) == (DbView { settings: Some(s), ..d }),
        written(d, DbWrite::Secret { name, value }) == (DbView {
            secrets: d.secrets.insert(name, value),
            ..d
        }),
        d.settings matches Some(own) ==> settings_in_use(d) == own,
        d.settings is None ==> settings_in_use(d) == default_settings(),
        can_count(d.sales, id) <==> forall|i: int|
            0 <= i < d.sales.len() && (#[trigger] d.sales[i]).id == id ==> d.sales[i].reprinted_count
                < i64::MAX,
{
}

/// The end of a payment is stored by one write: as paid with the tickets, as abandoned where
/// there is cash, and else by removing the sale.
pub proof fn law_an_end_is_one_write(
    d: DbView,
    id: Seq<char>,
    end: EndView,
    tickets: Seq<TicketView>,
)
    requires
        has_sale(d.sales, id),
        !sold_in(d.tickets, id),
        ids_free(d.tickets, tickets),
    ensures
        closed(d, id, end, tickets) == written(
            d,
            match end {
                EndView::Paid(n) => DbWrite::Paid { id, inserted: n, tickets },
                EndView::Cancelled(n) => if n > 0 {
                    DbWrite::Abandoned { id, inserted: n }
                } else {
                    DbWrite::Deleted { id }
                },
                EndView::Failed(_, n) => if n > 0 {
                    DbWrite::Abandoned { id, inserted: n }
                } else {
                    DbWrite::Deleted { id }
                },
            },
        ),
{
}

} // verus!
