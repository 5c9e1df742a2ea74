//! What an operation needs to see: one sale with its tickets, or the sales of a period with
//! theirs, gives the same answer as the whole tables.

use vstd::prelude::*;

use crate::db::reports::{
    begun_between, by_sale_and_issue, exported, find_sale, in_period, report_of, sales_between,
    sold_between, tickets_of,
};
use crate::db::{
    changed, consistent, has_sale, has_ticket, ids_free, new_ticket_rows, pending_sale, redeemable,
    sold_in, with_change, with_print_time, written, DbView, DbWrite, SaleChange, SaleRowView,
    TicketRowView,
};
use crate::models::TicketView;

verus! {

proof fn lemma_keep_all<A>(s: Seq<A>, p: spec_fn(A) -> bool)
    requires
        forall|i: int| 0 <= i < s.len() ==> p(#[trigger] s[i]),
    ensures
        s.filter(p) == s,
    decreases s.len(),
{
    reveal(Seq::filter);
    if s.len() > 0 {
        let head = s.drop_last();
        assert forall|i: int| 0 <= i < head.len() implies p(#[trigger] head[i]) by {
            assert(head[i] == s[i]);
        }
        lemma_keep_all(head, p);
        assert(p(s[s.len() - 1]));
        assert(head.push(s.last()) =~= s);
    } else {
        assert(s.filter(p) =~= s);
    }
}

proof fn lemma_filter_again<A>(s: Seq<A>, p: spec_fn(A) -> bool, q: spec_fn(A) -> bool)
    requires
        forall|i: int| 0 <= i < s.len() && q(s[i]) ==> p(#[trigger] s[i]),
    ensures
        s.filter(p).filter(q) == s.filter(q),
    decreases s.len(),
{
    reveal(Seq::filter);
    if s.len() > 0 {
        let head = s.drop_last();
        let last = s.last();
        assert forall|i: int| 0 <= i < head.len() && q(head[i]) implies p(#[trigger] head[i]) by {
            assert(head[i] == s[i]);
        }
        lemma_filter_again(head, p, q);
        assert(s[s.len() - 1] == last);
        if p(last) {
            let longer = head.filter(p).push(last);
            assert(longer.drop_last() =~= head.filter(p));
        }
    } else {
        assert(s.filter(p) =~= s);
    }
}

proof fn lemma_found(sales: Seq<SaleRowView>, id: Seq<char>)
    ensures
        match find_sale(sales, id) {
            Some(r) => r.id == id && sales.contains(r),
            None => !has_sale(sales, id),
        },
    decreases sales.len(),
{
    if sales.len() > 0 {
        let rest = sales.skip(1);
        lemma_found(rest, id);
        if sales[0].id == id {
            assert(sales.contains(sales[0]));
        } else {
            match find_sale(rest, id) {
                Some(r) => {
                    let k = choose|k: int| 0 <= k < rest.len() && rest[k] == r;
                    assert(sales[k + 1] == r);
                },
                None => {
                    if has_sale(sales, id) {
                        let k = choose|k: int|
                            0 <= k < sales.len() && #[trigger] sales[k].id == id;
                        assert(rest[k - 1].id == id);
                    }
                },
            }
        }
    }
}

proof fn lemma_found_in_part(
    d: DbView,
    keep: spec_fn(SaleRowView) -> bool,
    id: Seq<char>,
)
    requires
        consistent(d),
    ensures
        find_sale(d.sales.filter(keep), id) == match find_sale(d.sales, id) {
            Some(r) => if keep(r) {
                Some(r)
            } else {
                None
            },
            None => None,
        },
{
    let part = d.sales.filter(keep);
    lemma_found(d.sales, id);
    lemma_found(part, id);
    match find_sale(part, id) {
        Some(r) => {
            let m = choose|m: int| 0 <= m < part.len() && part[m] == r;
            d.sales.lemma_filter_pred(keep, m);
            d.sales.lemma_filter_contains_rev(keep, r);
            let i = choose|i: int| 0 <= i < d.sales.len() && d.sales[i] == r;
            assert(d.sales[i].id == id);
            assert(has_sale(d.sales, id));
            let s = find_sale(d.sales, id)->0;
            let j = choose|j: int| 0 <= j < d.sales.len() && d.sales[j] == s;
            assert(i == j);
        },
        None => {
            if let Some(r) = find_sale(d.sales, id) {
                if keep(r) {
                    let i = choose|i: int| 0 <= i < d.sales.len() && d.sales[i] == r;
                    d.sales.lemma_filter_contains(keep, i);
                    let m = choose|m: int| 0 <= m < part.len() && part[m] == r;
                    assert(part[m].id == id);
                    assert(has_sale(part, id));
                }
            }
        },
    }
}

/// The rows that are about one sale.
pub open spec fn of_sale(d: DbView, id: Seq<char>) -> DbView {
    DbView {
        sales: d.sales.filter(|r: SaleRowView| r.id == id),
        tickets: d.tickets.filter(|r: TicketRowView| r.sale_id == id),
        ..d
    }
}

/// What is read of a sale is read from its own rows.
pub proof fn law_a_sale_reads_from_its_own_rows(d: DbView, id: Seq<char>)
    requires
        consistent(d),
    ensures
        find_sale(of_sale(d, id).sales, id) == find_sale(d.sales, id),
        tickets_of(of_sale(d, id).tickets, id) == tickets_of(d.tickets, id),
{
    let keep = |r: SaleRowView| r.id == id;
    lemma_found(d.sales, id);
    lemma_found_in_part(d, keep, id);
    let own = |r: TicketRowView| r.sale_id == id;
    lemma_filter_again(d.tickets, own, own);
}

/// A change of single items that leaves the condition on them alone may be made before they are
/// picked or after.
pub proof fn lemma_map_then_filter<A>(s: Seq<A>, f: spec_fn(A) -> A, p: spec_fn(A) -> bool)
    requires
        forall|x: A| p(#[trigger] f(x)) == p(x),
    ensures
        s.map_values(f).filter(p) == s.filter(p).map_values(f),
    decreases s.len(),
{
    reveal(Seq::filter);
    if s.len() > 0 {
        let head = s.drop_last();
        lemma_map_then_filter(head, f, p);
        assert(s.map_values(f).drop_last() =~= head.map_values(f));
        assert(p(f(s.last())) == p(s.last()));
        assert(s.map_values(f).filter(p) =~= s.filter(p).map_values(f));
    } else {
        assert(s.map_values(f).filter(p) =~= s.filter(p).map_values(f));
    }
}

/// A change of items that are not picked is not seen.
proof fn lemma_map_of_others<A>(s: Seq<A>, f: spec_fn(A) -> A, p: spec_fn(A) -> bool)
    requires
        forall|x: A| p(#[trigger] f(x)) == p(x),
        forall|x: A| p(x) ==> #[trigger] f(x) == x,
    ensures
        s.map_values(f).filter(p) == s.filter(p),
{
    lemma_map_then_filter(s, f, p);
    let kept = s.filter(p);
    assert forall|i: int| 0 <= i < kept.len() implies kept.map_values(f)[i] == kept[i] by {
        s.lemma_filter_pred(p, i);
    }
    assert(kept.map_values(f) =~= kept);
}

proof fn lemma_keep_none<A>(s: Seq<A>, p: spec_fn(A) -> bool)
    requires
        forall|i: int| 0 <= i < s.len() ==> !p(#[trigger] s[i]),
    ensures
        s.filter(p) == Seq::<A>::empty(),
    decreases s.len(),
{
    reveal(Seq::filter);
    if s.len() > 0 {
        let head = s.drop_last();
        assert forall|i: int| 0 <= i < head.len() implies !p(#[trigger] head[i]) by {
            assert(head[i] == s[i]);
        }
        lemma_keep_none(head, p);
        assert(!p(s[s.len() - 1]));
    }
    assert(s.filter(p) =~= Seq::<A>::empty());
}

/// Whether a write is one of this sale.
pub open spec fn is_write_of(w: DbWrite, sale: Seq<char>) -> bool {
    match w {
        DbWrite::NewSale { id, .. } => id == sale,
        DbWrite::Inserted { id, .. } => id == sale,
        DbWrite::Paid { id, .. } => id == sale,
        DbWrite::Abandoned { id, .. } => id == sale,
        DbWrite::Deleted { id } => id == sale,
        DbWrite::Printed { id, .. } => id == sale,
        DbWrite::Reprinted { id } => id == sale,
        _ => false,
    }
}

/// Whether a ticket of another sale has the id of one of these tickets.
pub open spec fn taken_elsewhere(
    rows: Seq<TicketRowView>,
    sale_id: Seq<char>,
    tickets: Seq<TicketView>,
) -> bool {
    exists|k: int, i: int|
        0 <= k < rows.len() && 0 <= i < tickets.len() && (#[trigger] rows[k]).sale_id != sale_id
            && rows[k].ticket.id == (#[trigger] tickets[i]).id
}

proof fn lemma_same_in_own_rows(d: DbView, id: Seq<char>)
    ensures
        has_sale(of_sale(d, id).sales, id) == has_sale(d.sales, id),
        sold_in(of_sale(d, id).tickets, id) == sold_in(d.tickets, id),
{
    let keep = |r: SaleRowView| r.id == id;
    let own = |r: TicketRowView| r.sale_id == id;
    let part = of_sale(d, id);
    if has_sale(d.sales, id) {
        let i = choose|i: int| 0 <= i < d.sales.len() && #[trigger] d.sales[i].id == id;
        d.sales.lemma_filter_contains(keep, i);
        let m = choose|m: int| 0 <= m < part.sales.len() && part.sales[m] == d.sales[i];
        assert(part.sales[m].id == id);
    }
    if has_sale(part.sales, id) {
        let m = choose|m: int| 0 <= m < part.sales.len() && #[trigger] part.sales[m].id == id;
        d.sales.lemma_filter_contains_rev(keep, part.sales[m]);
        let i = choose|i: int| 0 <= i < d.sales.len() && d.sales[i] == part.sales[m];
        assert(d.sales[i].id == id);
    }
    if sold_in(d.tickets, id) {
        let i = choose|i: int| 0 <= i < d.tickets.len() && #[trigger] d.tickets[i].sale_id == id;
        d.tickets.lemma_filter_contains(own, i);
        let m = choose|m: int| 0 <= m < part.tickets.len() && part.tickets[m] == d.tickets[i];
        assert(part.tickets[m].sale_id == id);
    }
    if sold_in(part.tickets, id) {
        let m = choose|m: int|
            0 <= m < part.tickets.len() && #[trigger] part.tickets[m].sale_id == id;
        d.tickets.lemma_filter_contains_rev(own, part.tickets[m]);
        let i = choose|i: int| 0 <= i < d.tickets.len() && d.tickets[i] == part.tickets[m];
        assert(d.tickets[i].sale_id == id);
    }
}

proof fn lemma_free_in_own_rows(d: DbView, id: Seq<char>, new: Seq<TicketView>)
    ensures
        ids_free(d.tickets, new) <==> ids_free(of_sale(d, id).tickets, new) && !taken_elsewhere(
            d.tickets,
            id,
            new,
        ),
{
    let own = |r: TicketRowView| r.sale_id == id;
    let part = of_sale(d, id).tickets;
    if ids_free(d.tickets, new) {
        assert forall|i: int| 0 <= i < new.len() implies !has_ticket(part, (#[trigger] new[i]).id) by {
            if has_ticket(part, new[i].id) {
                let m = choose|m: int|
                    0 <= m < part.len() && #[trigger] part[m].ticket.id == new[i].id;
                d.tickets.lemma_filter_contains_rev(own, part[m]);
                let k = choose|k: int| 0 <= k < d.tickets.len() && d.tickets[k] == part[m];
                assert(d.tickets[k].ticket.id == new[i].id);
                assert(has_ticket(d.tickets, new[i].id));
            }
        }
        if taken_elsewhere(d.tickets, id, new) {
            let (k, i) = choose|k: int, i: int|
                0 <= k < d.tickets.len() && 0 <= i < new.len() && (
                #[trigger] d.tickets[k]).sale_id != id && d.tickets[k].ticket.id == (
                #[trigger] new[i]).id;
            assert(d.tickets[k].ticket.id == new[i].id);
            assert(has_ticket(d.tickets, new[i].id));
        }
    }
    if ids_free(part, new) && !taken_elsewhere(d.tickets, id, new) {
        assert forall|i: int| 0 <= i < new.len() implies !has_ticket(
            d.tickets,
            (#[trigger] new[i]).id,
        ) by {
            if has_ticket(d.tickets, new[i].id) {
                let k = choose|k: int|
                    0 <= k < d.tickets.len() && #[trigger] d.tickets[k].ticket.id == new[i].id;
                assert(d.tickets[k].sale_id == id);
                d.tickets.lemma_filter_contains(own, k);
                let m = choose|m: int| 0 <= m < part.len() && part[m] == d.tickets[k];
                assert(part[m].ticket.id == new[i].id);
                assert(has_ticket(part, new[i].id));
            }
        }
    }
}

proof fn lemma_change_in_part(sales: Seq<SaleRowView>, id: Seq<char>, c: SaleChange, other: Seq<
    char,
>)
    ensures
        with_change(sales, id, c).filter(|r: SaleRowView| r.id == other) == with_change(
            sales.filter(|r: SaleRowView| r.id == other),
            id,
            c,
        ),
        other != id ==> with_change(sales, id, c).filter(|r: SaleRowView| r.id == other)
            == sales.filter(|r: SaleRowView| r.id == other),
{
    let f = |r: SaleRowView|
        if r.id == id {
            changed(r, c)
        } else {
            r
        };
    let keep = |r: SaleRowView| r.id == other;
    lemma_map_then_filter(sales, f, keep);
    if other != id {
        lemma_map_of_others(sales, f, keep);
    }
}

proof fn lemma_print_in_part(tickets: Seq<TicketRowView>, id: Seq<char>, now: i64, other: Seq<char>)
    ensures
        with_print_time(tickets, id, now).filter(|r: TicketRowView| r.sale_id == other)
            == with_print_time(tickets.filter(|r: TicketRowView| r.sale_id == other), id, now),
        other != id ==> with_print_time(tickets, id, now).filter(
            |r: TicketRowView| r.sale_id == other,
        ) == tickets.filter(|r: TicketRowView| r.sale_id == other),
{
    let f = |r: TicketRowView|
        if r.sale_id == id && r.printed_at is None {
            TicketRowView { printed_at: Some(now), ..r }
        } else {
            r
        };
    let own = |r: TicketRowView| r.sale_id == other;
    lemma_map_then_filter(tickets, f, own);
    if other != id {
        lemma_map_of_others(tickets, f, own);
    }
}

proof fn lemma_new_tickets_in_part(
    rows: Seq<TicketRowView>,
    id: Seq<char>,
    new: Seq<TicketView>,
    other: Seq<char>,
)
    ensures
        (rows + new_ticket_rows(id, new)).filter(|r: TicketRowView| r.sale_id == other) == if other
            == id {
            rows.filter(|r: TicketRowView| r.sale_id == other) + new_ticket_rows(id, new)
        } else {
            rows.filter(|r: TicketRowView| r.sale_id == other)
        },
{
    let own = |r: TicketRowView| r.sale_id == other;
    let more = new_ticket_rows(id, new);
    Seq::filter_distributes_over_add(rows, more, own);
    if other == id {
        lemma_keep_all(more, own);
    } else {
        lemma_keep_none(more, own);
        assert(rows.filter(own) + Seq::<TicketRowView>::empty() =~= rows.filter(own));
    }
}

/// A sale is written in its own rows. Whatever is done to a sale (opened, credited, paid with its
/// tickets, abandoned, removed, marked as printed, counted as reprinted), its own rows alone
/// decide whether it is refused, and they change as they do in the whole tables; the rows of
/// every other sale stay. Only that a new ticket has an id which another sale uses cannot be
/// seen in them: such a payment is refused by the whole tables.
pub proof fn law_a_sale_is_written_in_its_own_rows(
    d: DbView,
    id: Seq<char>,
    w: DbWrite,
    other: Seq<char>,
)
    requires
        is_write_of(w, id),
    ensures
        has_sale(of_sale(d, id).sales, id) == has_sale(d.sales, id),
        sold_in(of_sale(d, id).tickets, id) == sold_in(d.tickets, id),
        w matches DbWrite::Paid { tickets, .. } ==> (ids_free(d.tickets, tickets) <==> ids_free(
            of_sale(d, id).tickets,
            tickets,
        ) && !taken_elsewhere(d.tickets, id, tickets)),
        if w matches DbWrite::Paid { tickets, .. } && taken_elsewhere(d.tickets, id, tickets) {
            written(d, w) == d
        } else {
            of_sale(written(d, w), id) == written(of_sale(d, id), w)
        },
        other != id ==> of_sale(written(d, w), other) == of_sale(d, other),
{
    let part = of_sale(d, id);
    let keep = |r: SaleRowView| r.id == id;
    let keep_other = |r: SaleRowView| r.id == other;
    lemma_same_in_own_rows(d, id);
    match w {
        DbWrite::NewSale { created_at, total, num_tickets, .. } => {
            let row = pending_sale(id, created_at, total, num_tickets);
            d.sales.lemma_filter_push(row, keep);
            d.sales.lemma_filter_push(row, keep_other);
        },
        DbWrite::Inserted { inserted, .. } => {
            lemma_change_in_part(d.sales, id, SaleChange::Inserted(inserted), id);
            lemma_change_in_part(d.sales, id, SaleChange::Inserted(inserted), other);
        },
        DbWrite::Paid { inserted, tickets, .. } => {
            lemma_free_in_own_rows(d, id, tickets);
            lemma_change_in_part(d.sales, id, SaleChange::Paid(inserted), id);
            lemma_change_in_part(d.sales, id, SaleChange::Paid(inserted), other);
            lemma_new_tickets_in_part(d.tickets, id, tickets, id);
            lemma_new_tickets_in_part(d.tickets, id, tickets, other);
        },
        DbWrite::Abandoned { inserted, .. } => {
            lemma_change_in_part(d.sales, id, SaleChange::Abandoned(inserted), id);
            lemma_change_in_part(d.sales, id, SaleChange::Abandoned(inserted), other);
        },
        DbWrite::Deleted { .. } => {
            let rest = |r: SaleRowView| r.id != id;
            assert forall|i: int| 0 <= i < part.sales.len() implies !rest(
                #[trigger] part.sales[i],
            ) by {
                d.sales.lemma_filter_pred(keep, i);
            }
            lemma_keep_none(part.sales, rest);
            let left = d.sales.filter(rest);
            assert forall|i: int| 0 <= i < left.len() implies !keep(#[trigger] left[i]) by {
                d.sales.lemma_filter_pred(rest, i);
            }
            lemma_keep_none(left, keep);
            if other != id {
                lemma_filter_again(d.sales, rest, keep_other);
            }
        },
        DbWrite::Printed { now, .. } => {
            lemma_change_in_part(d.sales, id, SaleChange::Printed, id);
            lemma_change_in_part(d.sales, id, SaleChange::Printed, other);
            lemma_print_in_part(d.tickets, id, now, id);
            lemma_print_in_part(d.tickets, id, now, other);
        },
        DbWrite::Reprinted { .. } => {
            lemma_change_in_part(d.sales, id, SaleChange::Reprinted, id);
            lemma_change_in_part(d.sales, id, SaleChange::Reprinted, other);
        },
        _ => {},
    }
}

/// The row that is about one ticket.
pub open spec fn of_ticket(d: DbView, ticket_id: Seq<char>) -> DbView {
    DbView { tickets: d.tickets.filter(|r: TicketRowView| r.ticket.id == ticket_id), ..d }
}

/// A ticket is redeemed in its own row: it alone decides whether the ticket is let in, it changes
/// as it does in the whole tables, and every other ticket stays.
pub proof fn law_a_ticket_is_redeemed_in_its_own_row(
    d: DbView,
    ticket_id: Seq<char>,
    now: i64,
    other: Seq<char>,
)
    ensures
        redeemable(of_ticket(d, ticket_id).tickets, ticket_id) == redeemable(d.tickets, ticket_id),
        of_ticket(written(d, DbWrite::Redeemed { ticket_id, now }), ticket_id) == written(
            of_ticket(d, ticket_id),
            DbWrite::Redeemed { ticket_id, now },
        ),
        other != ticket_id ==> of_ticket(written(d, DbWrite::Redeemed { ticket_id, now }), other)
            == of_ticket(d, other),
{
    let own = |r: TicketRowView| r.ticket.id == ticket_id;
    let own_other = |r: TicketRowView| r.ticket.id == other;
    let f = |r: TicketRowView|
        if r.ticket.id == ticket_id && r.redeemed_at is None {
            TicketRowView { redeemed_at: Some(now), ..r }
        } else {
            r
        };
    let part = of_ticket(d, ticket_id).tickets;
    lemma_map_then_filter(d.tickets, f, own);
    if other != ticket_id {
        lemma_map_of_others(d.tickets, f, own_other);
    }
    if redeemable(d.tickets, ticket_id) {
        let i = choose|i: int|
            0 <= i < d.tickets.len() && #[trigger] d.tickets[i].ticket.id == ticket_id
                && d.tickets[i].redeemed_at is None;
        d.tickets.lemma_filter_contains(own, i);
        let m = choose|m: int| 0 <= m < part.len() && part[m] == d.tickets[i];
        assert(part[m].ticket.id == ticket_id);
    }
    if redeemable(part, ticket_id) {
        let m = choose|m: int|
            0 <= m < part.len() && #[trigger] part[m].ticket.id == ticket_id
                && part[m].redeemed_at is None;
        d.tickets.lemma_filter_contains_rev(own, part[m]);
        let i = choose|i: int| 0 <= i < d.tickets.len() && d.tickets[i] == part[m];
        assert(d.tickets[i].ticket.id == ticket_id);
    }
}

/// The rows that are about a period.
pub open spec fn of_period(d: DbView, from: i64, to: i64) -> DbView {
    DbView { sales: begun_between(d.sales, from, to), tickets: sold_between(d, from, to), ..d }
}

/// What is read of a period is read from the rows that are about it: the list, the totals and
/// the export.
pub proof fn law_a_period_reads_from_its_own_rows(d: DbView, from: i64, to: i64)
    requires
        consistent(d),
    ensures
        sales_between(of_period(d, from, to).sales, from, to) == sales_between(d.sales, from, to),
        sold_between(of_period(d, from, to), from, to) == sold_between(d, from, to),
        exported(of_period(d, from, to), from, to) == exported(d, from, to),
        report_of(of_period(d, from, to), from, to) == report_of(d, from, to),
{
    let part = of_period(d, from, to);
    let begun = |r: SaleRowView| from <= r.created_at <= to;
    lemma_filter_again(d.sales, begun, begun);
    let sold = |r: TicketRowView| in_period(d.sales, r.sale_id, from, to);
    let again = |r: TicketRowView| in_period(part.sales, r.sale_id, from, to);
    assert forall|i: int| 0 <= i < part.tickets.len() implies again(#[trigger] part.tickets[i]) by {
        d.tickets.lemma_filter_pred(sold, i);
        lemma_found_in_part(d, begun, part.tickets[i].sale_id);
    }
    lemma_keep_all(part.tickets, again);
    assert(sold_between(part, from, to) == part.tickets);
    assert forall|i: int| 0 <= i < part.tickets.len() implies find_sale(
        part.sales,
        (#[trigger] part.tickets[i]).sale_id,
    ) == find_sale(d.sales, part.tickets[i].sale_id) by {
        d.tickets.lemma_filter_pred(sold, i);
        lemma_found_in_part(d, begun, part.tickets[i].sale_id);
    }
    lemma_same_keys(part.sales, d.sales, part.tickets);
    lemma_same_status(d.sales, from, to, "paid"@);
    lemma_same_status(d.sales, from, to, "abandoned"@);
}

proof fn lemma_same_keys(
    some: Seq<SaleRowView>,
    all: Seq<SaleRowView>,
    rows: Seq<TicketRowView>,
)
    requires
        forall|i: int|
            0 <= i < rows.len() ==> find_sale(some, (#[trigger] rows[i]).sale_id) == find_sale(
                all,
                rows[i].sale_id,
            ),
    ensures
        by_sale_and_issue(some, rows)
            == by_sale_and_issue(all, rows),
{
    let a = by_sale_and_issue(some, rows);
    let b = by_sale_and_issue(all, rows);
    assert forall|i: int| 0 <= i < rows.len() implies a[i] == b[i] by {
        assert(find_sale(some, rows[i].sale_id) == find_sale(all, rows[i].sale_id));
    }
    assert(a =~= b);
}

proof fn lemma_same_status(sales: Seq<SaleRowView>, from: i64, to: i64, status: Seq<char>)
    ensures
        begun_between(sales, from, to).filter(
            |r: SaleRowView| from <= r.created_at <= to && r.status == status,
        ) == sales.filter(|r: SaleRowView| from <= r.created_at <= to && r.status == status),
{
    lemma_filter_again(
        sales,
        |r: SaleRowView| from <= r.created_at <= to,
        |r: SaleRowView| from <= r.created_at <= to && r.status == status,
    );
}

} // verus!
