//! What is read out of the tables, and how it follows the rows.

use vstd::prelude::*;

use crate::db::laws::law_change_reads_back;
use crate::db::reports::{
    by_creation, by_issue, by_sale_and_issue, codes, count_field, csv_field, doubled,
    export_fields, export_text, exported, find_sale, in_period, inserted_amounts, of_type, prices, record_of, records_of,
    report_of, rows_of, sales_between, sold_between, sum_field, sum_of, tickets_of, time_field,
    totals, type_total, type_totals, with_status, ZReportView,
};
use crate::db::scope::lemma_map_then_filter;
use crate::db::{
    changed, has_sale, with_change, written, DbView, DbWrite, SaleChange, SaleRowView,
    TicketRowView,
};
use crate::keyed::{
    has_key, in_order, items, law_order_ascends, law_order_is_stable, lemma_order_all, Keyed,
};
use crate::models::{ErrorView, SaleRecordView, TicketView};
use crate::order::{
    law_ordered_texts_are_the_same, law_ordered_texts_ascend, ordered_texts, text_less,
};
use crate::text::{decimal, join_fields};

verus! {

// ---------------------------------------------------------------------------
// Single sales
// ---------------------------------------------------------------------------

/// A sale is found under its id, the first one where there are several, and none is found where
/// there is none.
pub proof fn law_a_sale_is_found_by_its_id(sales: Seq<SaleRowView>, id: Seq<char>, k: int)
    ensures
        0 <= k < sales.len() && sales[k].id == id && (forall|j: int|
            0 <= j < k ==> (#[trigger] sales[j]).id != id) ==> find_sale(sales, id) == Some(
            sales[k],
        ),
        (forall|j: int| 0 <= j < sales.len() ==> (#[trigger] sales[j]).id != id) ==> find_sale(
            sales,
            id,
        ) is None,
    decreases sales.len(),
{
    if sales.len() > 0 {
        let rest = sales.skip(1);
        law_a_sale_is_found_by_its_id(rest, id, k - 1);
        if forall|j: int| 0 <= j < sales.len() ==> (#[trigger] sales[j]).id != id {
            assert(sales[0].id != id);
            assert forall|j: int| 0 <= j < rest.len() implies (#[trigger] rest[j]).id != id by {
                assert(rest[j] == sales[j + 1]);
            }
        }
        if 0 < k < sales.len() && sales[k].id == id && (forall|j: int|
            0 <= j < k ==> (#[trigger] sales[j]).id != id) {
            assert(sales[0].id != id);
            assert(rest[k - 1] == sales[k]);
            assert forall|j: int| 0 <= j < k - 1 implies (#[trigger] rest[j]).id != id by {
                assert(rest[j] == sales[j + 1]);
            }
        }
    }
}

/// What is read of a sale is what stands in its row, and its tickets. Counts that do not fit are
/// an error that names the field and the value.
pub proof fn law_a_sale_is_read_as_stored(s: SaleRowView, tickets: Seq<TicketRowView>)
    ensures
        record_of(s, tickets) is Ok <==> 0 <= s.num_tickets <= u32::MAX && 0 <= s.reprinted_count
            <= u32::MAX,
        record_of(s, tickets) matches Ok(r) ==> {
            &&& r.id == s.id
            &&& r.created_at == s.created_at
            &&& r.total_rsd == s.total_rsd
            &&& r.inserted_rsd == s.inserted_rsd
            &&& r.num_tickets == s.num_tickets
            &&& r.reprinted_count == s.reprinted_count
            &&& r.status == s.status
            &&& r.printed == s.printed
            &&& r.tickets == tickets_of(tickets, s.id)
        },
        !(0 <= s.num_tickets <= u32::MAX) ==> record_of(s, tickets) == Err::<
            SaleRecordView,
            ErrorView,
        >(
            ErrorView::Db(
                "invalid "@ + "num_tickets"@ + " value in database: "@ + decimal(
                    s.num_tickets as int,
                ),
            ),
        ),
        0 <= s.num_tickets <= u32::MAX && !(0 <= s.reprinted_count <= u32::MAX) ==> record_of(
            s,
            tickets,
        ) == Err::<SaleRecordView, ErrorView>(
            ErrorView::Db(
                "invalid "@ + "reprinted_count"@ + " value in database: "@ + decimal(
                    s.reprinted_count as int,
                ),
            ),
        ),
{
}

/// A list of sales is read one by one, up to the first that cannot be.
pub proof fn law_sales_are_read_one_by_one(
    sales: Seq<SaleRowView>,
    s: SaleRowView,
    tickets: Seq<TicketRowView>,
)
    ensures
        records_of(Seq::empty(), tickets) == Ok::<Seq<SaleRecordView>, ErrorView>(Seq::empty()),
        records_of(sales, tickets) is Err ==> records_of(sales.push(s), tickets) == records_of(
            sales,
            tickets,
        ),
        records_of(sales, tickets) is Ok && record_of(s, tickets) is Ok ==> records_of(
            sales.push(s),
            tickets,
        ) == Ok::<Seq<SaleRecordView>, ErrorView>(
            records_of(sales, tickets)->Ok_0.push(record_of(s, tickets)->Ok_0),
        ),
        records_of(sales, tickets) is Ok && record_of(s, tickets) is Err ==> records_of(
            sales.push(s),
            tickets,
        ) == Err::<Seq<SaleRecordView>, ErrorView>(record_of(s, tickets)->Err_0),
{
    assert(sales.push(s).drop_last() =~= sales);
}

/// Numbers that fit are given as they are, and others are refused.
pub proof fn law_numbers_have_to_fit(value: int, field: Seq<char>)
    ensures
        0 <= value <= u32::MAX ==> count_field(value, field) == Ok::<u32, ErrorView>(value as u32),
        !(0 <= value <= u32::MAX) ==> count_field(value, field) == Err::<u32, ErrorView>(
            ErrorView::Db("invalid "@ + field + " value in database: "@ + decimal(value)),
        ),
        i64::MIN <= value <= i64::MAX ==> sum_field(value) == Ok::<i64, ErrorView>(value as i64),
        !(i64::MIN <= value <= i64::MAX) ==> sum_field(value) == Err::<i64, ErrorView>(
            ErrorView::Db("integer overflow"@),
        ),
{
}

// ---------------------------------------------------------------------------
// Order
// ---------------------------------------------------------------------------

proof fn lemma_items_filter<A>(s: Seq<Keyed<A>>, p: spec_fn(A) -> bool, q: spec_fn(Keyed<A>) -> bool)
    requires
        forall|i: int| 0 <= i < s.len() ==> q(#[trigger] s[i]) == p(s[i].item),
    ensures
        items(s).filter(p) == items(s.filter(q)),
    decreases s.len(),
{
    reveal(Seq::filter);
    if s.len() > 0 {
        let head = s.drop_last();
        assert forall|i: int| 0 <= i < head.len() implies q(#[trigger] head[i]) == p(
            head[i].item,
        ) by {
            assert(head[i] == s[i]);
        }
        lemma_items_filter(head, p, q);
        assert(items(s).drop_last() =~= items(head));
        assert(q(s[s.len() - 1]) == p(s[s.len() - 1].item));
        assert(items(s).filter(p) =~= items(s.filter(q)));
    } else {
        assert(items(s).filter(p) =~= items(s.filter(q)));
    }
}

/// Rows sorted by two numbers of each come out by the first, then by the second, and rows for
/// which both are equal in the order in which they were.
proof fn lemma_ordered<A>(
    s: Seq<Keyed<A>>,
    f: spec_fn(A) -> i64,
    g: spec_fn(A) -> i64,
    a: i64,
    b: i64,
)
    requires
        forall|i: int|
            0 <= i < s.len() ==> (#[trigger] s[i]).first == f(s[i].item) && s[i].second == g(
                s[i].item,
            ),
    ensures
        items(in_order(s)).len() == s.len(),
        forall|i: int, j: int|
            0 <= i < j < s.len() ==> {
                let x = #[trigger] items(in_order(s))[i];
                let y = #[trigger] items(in_order(s))[j];
                f(x) < f(y) || (f(x) == f(y) && g(x) <= g(y))
            },
        items(in_order(s)).filter(|x: A| f(x) == a && g(x) == b) == items(s).filter(
            |x: A| f(x) == a && g(x) == b,
        ),
{
    let t = in_order(s);
    let ok = |k: Keyed<A>| k.first == f(k.item) && k.second == g(k.item);
    assert forall|i: int| 0 <= i < s.len() implies ok(#[trigger] s[i]) by {
        assert(s[i].first == f(s[i].item));
    }
    lemma_order_all(s, ok);
    law_order_ascends(s);
    assert forall|i: int, j: int| 0 <= i < j < s.len() implies {
        let x = #[trigger] items(t)[i];
        let y = #[trigger] items(t)[j];
        f(x) < f(y) || (f(x) == f(y) && g(x) <= g(y))
    } by {
        assert(ok(t[i]));
        assert(ok(t[j]));
        assert(items(t)[i] == t[i].item);
        assert(items(t)[j] == t[j].item);
    }
    law_order_is_stable(s, a, b);
    let p = |x: A| f(x) == a && g(x) == b;
    let q = has_key::<A>(a, b);
    assert forall|i: int| 0 <= i < t.len() implies q(#[trigger] t[i]) == p(t[i].item) by {
        assert(ok(t[i]));
    }
    assert forall|i: int| 0 <= i < s.len() implies q(#[trigger] s[i]) == p(s[i].item) by {
        assert(ok(s[i]));
    }
    lemma_items_filter(t, p, q);
    lemma_items_filter(s, p, q);
}

proof fn lemma_map_filter_to<A, B>(
    s: Seq<A>,
    f: spec_fn(A) -> B,
    p: spec_fn(B) -> bool,
    q: spec_fn(A) -> bool,
)
    requires
        forall|x: A| q(x) == p(#[trigger] f(x)),
    ensures
        s.map_values(f).filter(p) == s.filter(q).map_values(f),
    decreases s.len(),
{
    reveal(Seq::filter);
    if s.len() > 0 {
        let head = s.drop_last();
        lemma_map_filter_to(head, f, p, q);
        assert(s.map_values(f).drop_last() =~= head.map_values(f));
        assert(q(s.last()) == p(f(s.last())));
        assert(s.map_values(f).filter(p) =~= s.filter(q).map_values(f));
    } else {
        assert(s.map_values(f).filter(p) =~= s.filter(q).map_values(f));
    }
}

proof fn lemma_filter_both<A>(
    s: Seq<A>,
    p: spec_fn(A) -> bool,
    q: spec_fn(A) -> bool,
    both: spec_fn(A) -> bool,
)
    requires
        forall|x: A| #[trigger] both(x) == (p(x) && q(x)),
    ensures
        s.filter(p).filter(q) == s.filter(both),
    decreases s.len(),
{
    reveal(Seq::filter);
    if s.len() > 0 {
        let head = s.drop_last();
        lemma_filter_both(head, p, q, both);
        assert(both(s.last()) == (p(s.last()) && q(s.last())));
        if p(s.last()) {
            assert(head.filter(p).push(s.last()).drop_last() =~= head.filter(p));
        }
    } else {
        assert(s.filter(p).filter(q) =~= s.filter(both));
    }
}

/// The tickets of a sale are read by the time of issue; those of one time are exactly the stored
/// tickets of the sale with that time, in the order in which they were stored.
pub proof fn law_tickets_are_read_by_issue(
    rows: Seq<TicketRowView>,
    id: Seq<char>,
    at: i64,
    i: int,
    j: int,
)
    ensures
        0 <= i < j < tickets_of(rows, id).len() ==> tickets_of(rows, id)[i].issued_at
            <= tickets_of(rows, id)[j].issued_at,
        tickets_of(rows, id).filter(|t: TicketView| t.issued_at == at) == rows.filter(
            |r: TicketRowView| r.sale_id == id && r.ticket.issued_at == at,
        ).map_values(|r: TicketRowView| r.ticket),
        tickets_of(rows, id).len() == rows.filter(|r: TicketRowView| r.sale_id == id).len(),
{
    let own = rows_of(rows, id);
    let s = by_issue(own);
    let f = |t: TicketView| t.issued_at;
    let g = |t: TicketView| 0i64;
    lemma_ordered(s, f, g, at, 0);
    if 0 <= i < j < tickets_of(rows, id).len() {
        let x = items(in_order(s))[i];
        let y = items(in_order(s))[j];
        assert(f(x) < f(y) || (f(x) == f(y) && g(x) <= g(y)));
    }
    let p = |t: TicketView| t.issued_at == at;
    let p2 = |t: TicketView| f(t) == at && g(t) == 0i64;
    assert(p =~= p2);
    let ticket = |r: TicketRowView| r.ticket;
    assert(items(s) =~= own.map_values(ticket));
    let mine = |r: TicketRowView| r.ticket.issued_at == at;
    lemma_map_filter_to(own, ticket, p, mine);
    lemma_filter_both(
        rows,
        |r: TicketRowView| r.sale_id == id,
        mine,
        |r: TicketRowView| r.sale_id == id && r.ticket.issued_at == at,
    );
}

/// The sales of a period are listed by the time at which they began; those of one time are
/// exactly the stored ones with that time, in the order in which they were stored.
pub proof fn law_sales_are_listed_by_time(
    sales: Seq<SaleRowView>,
    from: i64,
    to: i64,
    at: i64,
    i: int,
    j: int,
)
    ensures
        0 <= i < j < sales_between(sales, from, to).len() ==> sales_between(
            sales,
            from,
            to,
        )[i].created_at <= sales_between(sales, from, to)[j].created_at,
        sales_between(sales, from, to).filter(|r: SaleRowView| r.created_at == at) == sales.filter(
            |r: SaleRowView| from <= r.created_at <= to && r.created_at == at,
        ),
        sales_between(sales, from, to).len() == sales.filter(
            |r: SaleRowView| from <= r.created_at <= to,
        ).len(),
{
    let within = sales.filter(|r: SaleRowView| from <= r.created_at <= to);
    let s = by_creation(within);
    let f = |r: SaleRowView| r.created_at;
    let g = |r: SaleRowView| 0i64;
    lemma_ordered(s, f, g, at, 0);
    if 0 <= i < j < sales_between(sales, from, to).len() {
        let x = items(in_order(s))[i];
        let y = items(in_order(s))[j];
        assert(f(x) < f(y) || (f(x) == f(y) && g(x) <= g(y)));
    }
    let p = |r: SaleRowView| r.created_at == at;
    let p2 = |r: SaleRowView| f(r) == at && g(r) == 0i64;
    assert(p =~= p2);
    assert(items(s) =~= within);
    lemma_filter_both(
        sales,
        |r: SaleRowView| from <= r.created_at <= to,
        p,
        |r: SaleRowView| from <= r.created_at <= to && r.created_at == at,
    );
}

/// A ticket is of a period exactly where its sale began within it.
pub proof fn law_tickets_are_of_the_period_of_their_sale(
    sales: Seq<SaleRowView>,
    id: Seq<char>,
    from: i64,
    to: i64,
    k: int,
)
    ensures
        0 <= k < sales.len() && sales[k].id == id && (forall|j: int|
            0 <= j < k ==> (#[trigger] sales[j]).id != id) ==> (in_period(sales, id, from, to)
            <==> from <= sales[k].created_at <= to),
        (forall|j: int| 0 <= j < sales.len() ==> (#[trigger] sales[j]).id != id) ==> !in_period(
            sales,
            id,
            from,
            to,
        ),
{
    law_a_sale_is_found_by_its_id(sales, id, k);
}

/// The export lists the tickets of the period by the time at which their sale began, then by
/// their time of issue; where both are equal, in the order in which they were stored, none left
/// out and none twice.
pub proof fn law_the_export_is_in_order(
    d: DbView,
    from: i64,
    to: i64,
    a: i64,
    b: i64,
    i: int,
    j: int,
)
    ensures
        0 <= i < j < exported(d, from, to).len() ==> {
            let x = exported(d, from, to)[i];
            let y = exported(d, from, to)[j];
            let u = find_sale(d.sales, x.sale_id)->0.created_at;
            let v = find_sale(d.sales, y.sale_id)->0.created_at;
            u < v || (u == v && x.ticket.issued_at <= y.ticket.issued_at)
        },
        exported(d, from, to).filter(
            |r: TicketRowView|
                find_sale(d.sales, r.sale_id)->0.created_at == a && r.ticket.issued_at == b,
        ) == d.tickets.filter(
            |r: TicketRowView|
                in_period(d.sales, r.sale_id, from, to) && find_sale(
                    d.sales,
                    r.sale_id,
                )->0.created_at == a && r.ticket.issued_at == b,
        ),
        exported(d, from, to).len() == d.tickets.filter(
            |r: TicketRowView| in_period(d.sales, r.sale_id, from, to),
        ).len(),
{
    let sold = sold_between(d, from, to);
    let s = by_sale_and_issue(d.sales, sold);
    let f = |r: TicketRowView| find_sale(d.sales, r.sale_id)->0.created_at;
    let g = |r: TicketRowView| r.ticket.issued_at;
    lemma_ordered(s, f, g, a, b);
    if 0 <= i < j < exported(d, from, to).len() {
        let x = items(in_order(s))[i];
        let y = items(in_order(s))[j];
        assert(f(x) < f(y) || (f(x) == f(y) && g(x) <= g(y)));
    }
    let p = |r: TicketRowView|
        find_sale(d.sales, r.sale_id)->0.created_at == a && r.ticket.issued_at == b;
    let p2 = |r: TicketRowView| f(r) == a && g(r) == b;
    assert(p =~= p2);
    assert(items(s) =~= sold);
    lemma_filter_both(
        d.tickets,
        |r: TicketRowView| in_period(d.sales, r.sale_id, from, to),
        p,
        |r: TicketRowView|
            in_period(d.sales, r.sale_id, from, to) && find_sale(
                d.sales,
                r.sale_id,
            )->0.created_at == a && r.ticket.issued_at == b,
    );
}

// ---------------------------------------------------------------------------
// The export
// ---------------------------------------------------------------------------

/// The export is a line of headings and then a line for each ticket: the sale, the id, the type,
/// the label, the price, the time of issue, the token, and the times of printing and redemption,
/// empty where there is none.
pub proof fn law_the_export_has_a_line_for_each_ticket(rows: Seq<TicketRowView>, r: TicketRowView)
    ensures
        export_text(Seq::empty())
            == "sale_id,ticket_id,type_code,label,price_rsd,issued_at,qr_token,printed_at,redeemed_at\n"@,
        export_text(rows.push(r)) == export_text(rows) + (csv_field(r.sale_id) + ","@ + csv_field(
            r.ticket.id,
        ) + ","@ + csv_field(r.ticket.type_code) + ","@ + csv_field(r.ticket.label) + ","@
            + csv_field(decimal(r.ticket.price_rsd as int)) + ","@ + csv_field(
            decimal(r.ticket.issued_at as int),
        ) + ","@ + csv_field(r.ticket.qr_token) + ","@ + csv_field(
            match r.printed_at {
                Some(n) => decimal(n as int),
                None => ""@,
            },
        ) + ","@ + csv_field(
            match r.redeemed_at {
                Some(n) => decimal(n as int),
                None => ""@,
            },
        )) + "\n"@,
{
    assert(rows.push(r).drop_last() =~= rows);
    let f = export_fields(r);
    assert(time_field(r.printed_at) == match r.printed_at {
        Some(n) => decimal(n as int),
        None => ""@,
    });
    assert(time_field(r.redeemed_at) == match r.redeemed_at {
        Some(n) => decimal(n as int),
        None => ""@,
    });
    reveal_with_fuel(join_fields, 10);
    assert(f.drop_last() =~= f.take(8));
    assert(f.take(8).drop_last() =~= f.take(7));
    assert(f.take(7).drop_last() =~= f.take(6));
    assert(f.take(6).drop_last() =~= f.take(5));
    assert(f.take(5).drop_last() =~= f.take(4));
    assert(f.take(4).drop_last() =~= f.take(3));
    assert(f.take(3).drop_last() =~= f.take(2));
    assert(f.take(2).drop_last() =~= f.take(1));
}

/// A field of the export is its text as it is, unless a comma, a quotation mark or a line break is
/// in it: then it stands in quotation marks, and those in it are doubled.
pub proof fn law_fields_are_quoted_where_they_must_be(s: Seq<char>, c: char)
    ensures
        (forall|i: int|
            0 <= i < s.len() ==> #[trigger] s[i] != ',' && s[i] != '"' && s[i] != '\n' && s[i]
                != '\r') ==> csv_field(s) == s,
        (exists|i: int|
            0 <= i < s.len() && (#[trigger] s[i] == ',' || s[i] == '"' || s[i] == '\n' || s[i]
                == '\r')) ==> csv_field(s) == seq!['"'] + doubled(s) + seq!['"'],
        doubled(Seq::empty()) == Seq::<char>::empty(),
        doubled(s.push(c)) == doubled(s) + if c == '"' {
            seq!['"', '"']
        } else {
            seq![c]
        },
{
    reveal_strlit("\"");
    assert("\""@ =~= seq!['"']);
    assert(s.push(c).drop_last() =~= s);
    assert(doubled(s.push(c)) =~= doubled(s) + if c == '"' {
        seq!['"', '"']
    } else {
        seq![c]
    });
    if exists|i: int|
        0 <= i < s.len() && (#[trigger] s[i] == ',' || s[i] == '"' || s[i] == '\n' || s[i]
            == '\r') {
        let i = choose|i: int|
            0 <= i < s.len() && (#[trigger] s[i] == ',' || s[i] == '"' || s[i] == '\n' || s[i]
                == '\r');
        assert(s.contains(s[i]));
    }
}

// ---------------------------------------------------------------------------
// The totals of a period
// ---------------------------------------------------------------------------

proof fn lemma_filter_same<A>(s: Seq<A>, p: spec_fn(A) -> bool, q: spec_fn(A) -> bool)
    requires
        forall|i: int| 0 <= i < s.len() ==> p(#[trigger] s[i]) == q(s[i]),
    ensures
        s.filter(p) == s.filter(q),
    decreases s.len(),
{
    reveal(Seq::filter);
    if s.len() > 0 {
        let head = s.drop_last();
        assert forall|i: int| 0 <= i < head.len() implies p(#[trigger] head[i]) == q(head[i]) by {
            assert(head[i] == s[i]);
        }
        lemma_filter_same(head, p, q);
        assert(p(s[s.len() - 1]) == q(s[s.len() - 1]));
    }
}

proof fn lemma_find_before_pushed(sales: Seq<SaleRowView>, row: SaleRowView, id: Seq<char>)
    requires
        row.id != id,
    ensures
        find_sale(sales.push(row), id) == find_sale(sales, id),
    decreases sales.len(),
{
    if sales.len() > 0 {
        assert(sales.push(row).skip(1) =~= sales.skip(1).push(row));
        lemma_find_before_pushed(sales.skip(1), row, id);
    } else {
        assert(sales.push(row).skip(1) =~= sales);
        assert(find_sale(sales, id) is None);
    }
}

proof fn lemma_sold_without_new_sale(d: DbView, row: SaleRowView, from: i64, to: i64)
    requires
        forall|k: int| 0 <= k < d.tickets.len() ==> (#[trigger] d.tickets[k]).sale_id != row.id,
    ensures
        sold_between(DbView { sales: d.sales.push(row), ..d }, from, to) == sold_between(
            d,
            from,
            to,
        ),
{
    let e = DbView { sales: d.sales.push(row), ..d };
    let p = |r: TicketRowView| in_period(d.sales, r.sale_id, from, to);
    let q = |r: TicketRowView| in_period(e.sales, r.sale_id, from, to);
    assert forall|k: int| 0 <= k < d.tickets.len() implies p(#[trigger] d.tickets[k]) == q(
        d.tickets[k],
    ) by {
        lemma_find_before_pushed(d.sales, row, d.tickets[k].sale_id);
    }
    lemma_filter_same(d.tickets, p, q);
}

proof fn lemma_sum_push(s: Seq<i64>, x: i64)
    ensures
        sum_of(s.push(x)) == sum_of(s) + x,
{
    assert(s.push(x).drop_last() =~= s);
}

/// A period in which nothing was sold gives zeros and no types.
pub proof fn law_an_empty_period_gives_zeros(d: DbView, from: i64, to: i64)
    requires
        d.sales.len() == 0,
        d.tickets.len() == 0,
    ensures
        report_of(d, from, to) == Ok::<ZReportView, ErrorView>(
            ZReportView {
                from_ts: from,
                to_ts: to,
                count_sales: 0,
                count_tickets: 0,
                total_rsd: 0,
                abandoned_rsd: 0,
                by_type: Seq::empty(),
            },
        ),
{
    reveal(Seq::filter);
    assert(with_status(d, from, to, "paid"@) =~= Seq::<SaleRowView>::empty());
    assert(with_status(d, from, to, "abandoned"@) =~= Seq::<SaleRowView>::empty());
    assert(sold_between(d, from, to) =~= Seq::<TicketRowView>::empty());
    assert(totals(Seq::<SaleRowView>::empty()) =~= Seq::<i64>::empty());
    assert(inserted_amounts(Seq::<SaleRowView>::empty()) =~= Seq::<i64>::empty());
    assert(codes(Seq::<TicketRowView>::empty()) =~= Seq::<Seq<char>>::empty());
}

/// One sale more: a paid one of the period raises the number of sales by one and the revenue by
/// its price, whatever else stands in its row; an abandoned one raises the abandoned cash by what
/// it took; any other, and any of another time, changes nothing.
pub proof fn law_a_sale_more_is_counted(d: DbView, row: SaleRowView, from: i64, to: i64)
    requires
        report_of(d, from, to) is Ok,
        forall|k: int| 0 <= k < d.tickets.len() ==> (#[trigger] d.tickets[k]).sale_id != row.id,
    ensures
        ({
            let z = report_of(d, from, to)->Ok_0;
            let after = report_of(DbView { sales: d.sales.push(row), ..d }, from, to);
            let within = from <= row.created_at <= to;
            &&& within && row.status == "paid"@ && i64::MIN <= z.total_rsd + row.total_rsd
                <= i64::MAX && z.count_sales < u32::MAX ==> after == Ok::<ZReportView, ErrorView>(
                ZReportView {
                    count_sales: (z.count_sales + 1) as u32,
                    total_rsd: (z.total_rsd + row.total_rsd) as i64,
                    ..z
                },
            )
            &&& within && row.status == "abandoned"@ && i64::MIN <= z.abandoned_rsd
                + row.inserted_rsd <= i64::MAX ==> after == Ok::<ZReportView, ErrorView>(
                ZReportView {
                    abandoned_rsd: (z.abandoned_rsd + row.inserted_rsd) as i64,
                    ..z
                },
            )
            &&& !within || (row.status != "paid"@ && row.status != "abandoned"@) ==> after == Ok::<
                ZReportView,
                ErrorView,
            >(z)
        }),
{
    let e = DbView { sales: d.sales.push(row), ..d };
    reveal_strlit("paid");
    reveal_strlit("abandoned");
    assert("paid"@.len() == 4 && "abandoned"@.len() == 9);
    lemma_sold_without_new_sale(d, row, from, to);
    let paid = |r: SaleRowView| from <= r.created_at <= to && r.status == "paid"@;
    let given_up = |r: SaleRowView| from <= r.created_at <= to && r.status == "abandoned"@;
    d.sales.lemma_filter_push(row, paid);
    d.sales.lemma_filter_push(row, given_up);
    let p = d.sales.filter(paid);
    let a = d.sales.filter(given_up);
    assert(with_status(d, from, to, "paid"@) == p);
    assert(with_status(d, from, to, "abandoned"@) == a);
    assert(totals(p.push(row)) =~= totals(p).push(row.total_rsd));
    assert(inserted_amounts(a.push(row)) =~= inserted_amounts(a).push(row.inserted_rsd));
    lemma_sum_push(totals(p), row.total_rsd);
    lemma_sum_push(inserted_amounts(a), row.inserted_rsd);
}

proof fn lemma_type_totals(rows: Seq<TicketRowView>, list: Seq<Seq<char>>, k: int)
    ensures
        type_totals(rows, list) is Ok ==> type_totals(rows, list)->Ok_0.len() == list.len(),
        type_totals(rows, list) is Ok && 0 <= k < list.len() ==> type_total(rows, list[k]) is Ok
            && type_totals(rows, list)->Ok_0[k] == type_total(rows, list[k])->Ok_0,
        (forall|j: int| 0 <= j < list.len() ==> type_total(rows, #[trigger] list[j]) is Ok)
            ==> type_totals(rows, list) is Ok,
    decreases list.len(),
{
    if list.len() > 0 {
        let head = list.drop_last();
        lemma_type_totals(rows, head, k);
        if 0 <= k < head.len() {
            assert(head[k] == list[k]);
        }
        if forall|j: int| 0 <= j < list.len() ==> type_total(rows, #[trigger] list[j]) is Ok {
            assert forall|j: int| 0 <= j < head.len() implies type_total(
                rows,
                #[trigger] head[j],
            ) is Ok by {
                assert(head[j] == list[j]);
            }
            assert(type_total(rows, list[list.len() - 1]) is Ok);
        }
    }
}

/// The types are listed in the order of their codes, each once, and exactly those of which a
/// ticket of the period was sold.
pub proof fn law_the_types_sold_are_listed(
    d: DbView,
    from: i64,
    to: i64,
    code: Seq<char>,
    i: int,
    j: int,
)
    requires
        report_of(d, from, to) is Ok,
    ensures
        ({
            let types = report_of(d, from, to)->Ok_0.by_type;
            &&& 0 <= i < j < types.len() ==> text_less(types[i].0, types[j].0)
            &&& (exists|k: int| 0 <= k < types.len() && (#[trigger] types[k]).0 == code)
                <==> exists|k: int|
                0 <= k < d.tickets.len() && (#[trigger] d.tickets[k]).ticket.type_code == code
                    && in_period(d.sales, d.tickets[k].sale_id, from, to)
        }),
{
    let sold = sold_between(d, from, to);
    let within = |r: TicketRowView| in_period(d.sales, r.sale_id, from, to);
    let list = ordered_texts(codes(sold));
    let types = report_of(d, from, to)->Ok_0.by_type;
    law_ordered_texts_ascend(codes(sold));
    law_ordered_texts_are_the_same(codes(sold), code);
    lemma_type_totals(sold, list, i);
    lemma_type_totals(sold, list, j);
    assert forall|k: int| 0 <= k < types.len() implies (#[trigger] types[k]).0 == list[k] by {
        lemma_type_totals(sold, list, k);
    }
    if exists|k: int| 0 <= k < types.len() && (#[trigger] types[k]).0 == code {
        let k = choose|k: int| 0 <= k < types.len() && (#[trigger] types[k]).0 == code;
        assert(list[k] == code);
        assert(codes(sold).contains(code));
        let m = choose|m: int| 0 <= m < codes(sold).len() && codes(sold)[m] == code;
        assert(sold[m].ticket.type_code == code);
        d.tickets.lemma_filter_pred(within, m);
        d.tickets.lemma_filter_contains_rev(within, sold[m]);
        let at = choose|at: int| 0 <= at < d.tickets.len() && d.tickets[at] == sold[m];
        assert(d.tickets[at].ticket.type_code == code);
    }
    if exists|k: int|
        0 <= k < d.tickets.len() && (#[trigger] d.tickets[k]).ticket.type_code == code
            && in_period(d.sales, d.tickets[k].sale_id, from, to) {
        let k = choose|k: int|
            0 <= k < d.tickets.len() && (#[trigger] d.tickets[k]).ticket.type_code == code
                && in_period(d.sales, d.tickets[k].sale_id, from, to);
        d.tickets.lemma_filter_contains(within, k);
        let m = choose|m: int| 0 <= m < sold.len() && sold[m] == d.tickets[k];
        assert(codes(sold)[m] == code);
        assert(list.contains(code));
        let at = choose|at: int| 0 <= at < list.len() && list[at] == code;
        assert(types[at].0 == code);
    }
}

proof fn lemma_type_more(rows: Seq<TicketRowView>, r: TicketRowView, code: Seq<char>)
    ensures
        of_type(rows.push(r), code).len() == of_type(rows, code).len() + if r.ticket.type_code
            == code {
            1int
        } else {
            0
        },
        sum_of(prices(of_type(rows.push(r), code))) == sum_of(prices(of_type(rows, code)))
            + if r.ticket.type_code == code {
            r.ticket.price_rsd as int
        } else {
            0
        },
{
    let p = |x: TicketRowView| x.ticket.type_code == code;
    rows.lemma_filter_push(r, p);
    let own = of_type(rows, code);
    assert(prices(own.push(r)) =~= prices(own).push(r.ticket.price_rsd));
    lemma_sum_push(prices(own), r.ticket.price_rsd);
}

proof fn lemma_none_of_type(rows: Seq<TicketRowView>, code: Seq<char>)
    requires
        !codes(rows).contains(code),
    ensures
        of_type(rows, code).len() == 0,
        sum_of(prices(of_type(rows, code))) == 0,
{
    let p = |x: TicketRowView| x.ticket.type_code == code;
    let own = of_type(rows, code);
    if own.len() > 0 {
        rows.lemma_filter_pred(p, 0);
        rows.lemma_filter_contains_rev(p, own[0]);
        let i = choose|i: int| 0 <= i < rows.len() && rows[i] == own[0];
        assert(codes(rows)[i] == code);
    }
    assert(prices(own) =~= Seq::<i64>::empty());
}

/// One ticket more, of a sale of the period: the number of tickets goes up by one, the line of
/// its type by one and by its price (or begins with them), and every other line stays. A ticket of
/// another time changes nothing. The sums over the sales stay in any case.
pub proof fn law_a_ticket_more_is_counted(
    d: DbView,
    r: TicketRowView,
    from: i64,
    to: i64,
    code: Seq<char>,
)
    requires
        report_of(d, from, to) is Ok,
        report_of(d, from, to)->Ok_0.count_tickets < u32::MAX,
        forall|k: int|
            0 <= k < report_of(d, from, to)->Ok_0.by_type.len() && (
            #[trigger] report_of(d, from, to)->Ok_0.by_type[k]).0 == r.ticket.type_code
                ==> i64::MIN <= report_of(d, from, to)->Ok_0.by_type[k].2 + r.ticket.price_rsd
                <= i64::MAX,
    ensures
        ({
            let z = report_of(d, from, to)->Ok_0;
            let after = report_of(DbView { tickets: d.tickets.push(r), ..d }, from, to);
            if !in_period(d.sales, r.sale_id, from, to) {
                after == Ok::<ZReportView, ErrorView>(z)
            } else {
                &&& after is Ok
                &&& after->Ok_0.count_tickets == z.count_tickets + 1
                &&& after->Ok_0.count_sales == z.count_sales
                &&& after->Ok_0.total_rsd == z.total_rsd
                &&& after->Ok_0.abandoned_rsd == z.abandoned_rsd
                &&& after->Ok_0.from_ts == from
                &&& after->Ok_0.to_ts == to
                &&& forall|k: int|
                    0 <= k < after->Ok_0.by_type.len() ==> {
                        let x = #[trigger] after->Ok_0.by_type[k];
                        if x.0 != r.ticket.type_code {
                            z.by_type.contains(x)
                        } else {
                            ||| exists|n: u32, sum: i64|
                                #![trigger z.by_type.contains((x.0, n, sum))]
                                z.by_type.contains((x.0, n, sum)) && x.1 == n + 1 && x.2 == sum
                                    + r.ticket.price_rsd
                            ||| (x.1 == 1 && x.2 == r.ticket.price_rsd && forall|m: int|
                                0 <= m < z.by_type.len() ==> (#[trigger] z.by_type[m]).0 != x.0)
                        }
                    }
            }
        }),
{
    let e = DbView { tickets: d.tickets.push(r), ..d };
    let within = |x: TicketRowView| in_period(d.sales, x.sale_id, from, to);
    let rows = sold_between(d, from, to);
    let z = report_of(d, from, to)->Ok_0;
    d.tickets.lemma_filter_push(r, within);
    if in_period(d.sales, r.sale_id, from, to) {
        let more = rows.push(r);
        assert(sold_between(e, from, to) == more);
        let own = r.ticket.type_code;
        let list = ordered_texts(codes(rows));
        let longer = ordered_texts(codes(more));
        assert(codes(more) =~= codes(rows).push(own));
        assert forall|k: int| 0 <= k < longer.len() implies type_total(
            more,
            #[trigger] longer[k],
        ) is Ok && ({
            let x = type_total(more, longer[k])->Ok_0;
            if x.0 != own {
                z.by_type.contains(x)
            } else {
                ||| exists|n: u32, sum: i64|
                    #![trigger z.by_type.contains((x.0, n, sum))]
                    z.by_type.contains((x.0, n, sum)) && x.1 == n + 1 && x.2 == sum
                        + r.ticket.price_rsd
                ||| (x.1 == 1 && x.2 == r.ticket.price_rsd && forall|m: int|
                    0 <= m < z.by_type.len() ==> (#[trigger] z.by_type[m]).0 != x.0)
            }
        }) by {
            let c = longer[k];
            lemma_type_more(rows, r, c);
            law_ordered_texts_are_the_same(codes(more), c);
            law_ordered_texts_are_the_same(codes(rows), c);
            assert(longer.contains(c));
            assert(codes(more).contains(c));
            let at = choose|at: int| 0 <= at < codes(more).len() && codes(more)[at] == c;
            if codes(rows).contains(c) {
                assert(list.contains(c));
                let m = choose|m: int| 0 <= m < list.len() && list[m] == c;
                lemma_type_totals(rows, list, m);
                let y = z.by_type[m];
                assert(y == type_total(rows, c)->Ok_0);
                assert(z.by_type.contains(y));
                assert(of_type(rows, c).len() <= rows.len()) by {
                    rows.lemma_filter_len(|x: TicketRowView| x.ticket.type_code == c);
                }
                assert(y == (y.0, y.1, y.2));
            } else {
                lemma_none_of_type(rows, c);
                assert(at == rows.len());
                assert(c == own);
                assert forall|m: int| 0 <= m < z.by_type.len() implies (
                #[trigger] z.by_type[m]).0 != c by {
                    lemma_type_totals(rows, list, m);
                    if list[m] == c {
                        assert(list.contains(c));
                    }
                }
            }
        }
        lemma_type_totals(more, longer, 0);
        let y = report_of(e, from, to)->Ok_0;
        assert forall|k: int| 0 <= k < y.by_type.len() implies ({
            let x = #[trigger] y.by_type[k];
            if x.0 != own {
                z.by_type.contains(x)
            } else {
                ||| exists|n: u32, sum: i64|
                    #![trigger z.by_type.contains((x.0, n, sum))]
                    z.by_type.contains((x.0, n, sum)) && x.1 == n + 1 && x.2 == sum
                        + r.ticket.price_rsd
                ||| (x.1 == 1 && x.2 == r.ticket.price_rsd && forall|m: int|
                    0 <= m < z.by_type.len() ==> (#[trigger] z.by_type[m]).0 != x.0)
            }
        }) by {
            lemma_type_totals(more, longer, k);
            assert(type_total(more, longer[k]) is Ok);
        }
    }
}

/// Rows that hold the same tickets have the same totals by type.
proof fn lemma_same_tickets(a: Seq<TicketRowView>, b: Seq<TicketRowView>, list: Seq<Seq<char>>)
    requires
        a.len() == b.len(),
        forall|i: int| 0 <= i < a.len() ==> (#[trigger] a[i]).ticket == b[i].ticket,
    ensures
        codes(a) == codes(b),
        type_totals(a, list) == type_totals(b, list),
    decreases list.len(),
{
    assert(codes(a) =~= codes(b));
    if list.len() > 0 {
        lemma_same_tickets(a, b, list.drop_last());
        lemma_same_type(a, b, list.last());
    }
}

proof fn lemma_same_type(a: Seq<TicketRowView>, b: Seq<TicketRowView>, code: Seq<char>)
    requires
        a.len() == b.len(),
        forall|i: int| 0 <= i < a.len() ==> (#[trigger] a[i]).ticket == b[i].ticket,
    ensures
        of_type(a, code).len() == of_type(b, code).len(),
        prices(of_type(a, code)) == prices(of_type(b, code)),
    decreases a.len(),
{
    reveal(Seq::filter);
    if a.len() > 0 {
        let x = a.drop_last();
        let y = b.drop_last();
        assert forall|i: int| 0 <= i < x.len() implies (#[trigger] x[i]).ticket == y[i].ticket by {
            assert(x[i] == a[i]);
            assert(y[i] == b[i]);
        }
        lemma_same_type(x, y, code);
        assert(a[a.len() - 1].ticket == b[b.len() - 1].ticket);
        let p = prices(of_type(x, code));
        if a.last().ticket.type_code == code {
            assert(prices(of_type(a, code)) =~= p.push(a.last().ticket.price_rsd));
            assert(prices(of_type(b, code)) =~= prices(of_type(y, code)).push(
                b.last().ticket.price_rsd,
            ));
        }
    } else {
        assert(prices(of_type(a, code)) =~= prices(of_type(b, code)));
    }
}

proof fn lemma_marked_sales(d: DbView, id: Seq<char>, c: SaleChange, from: i64, to: i64, status: Seq<
    char,
>)
    requires
        c is Printed || c is Reprinted,
    ensures
        ({
            let e = DbView { sales: with_change(d.sales, id, c), ..d };
            &&& with_status(e, from, to, status).len() == with_status(d, from, to, status).len()
            &&& totals(with_status(e, from, to, status)) == totals(with_status(d, from, to, status))
            &&& inserted_amounts(with_status(e, from, to, status)) == inserted_amounts(
                with_status(d, from, to, status),
            )
        }),
{
    let f = |r: SaleRowView|
        if r.id == id {
            changed(r, c)
        } else {
            r
        };
    let p = |r: SaleRowView| from <= r.created_at <= to && r.status == status;
    lemma_map_then_filter(d.sales, f, p);
    let e = DbView { sales: with_change(d.sales, id, c), ..d };
    let a = with_status(d, from, to, status);
    assert(with_status(e, from, to, status) == a.map_values(f));
    assert(totals(a.map_values(f)) =~= totals(a));
    assert(inserted_amounts(a.map_values(f)) =~= inserted_amounts(a));
}

proof fn lemma_marked_period(sales: Seq<SaleRowView>, id: Seq<char>, c: SaleChange, other: Seq<
    char,
>, from: i64, to: i64)
    requires
        c is Printed || c is Reprinted,
    ensures
        in_period(with_change(sales, id, c), other, from, to) == in_period(sales, other, from, to),
{
    law_change_reads_back(sales, id, c, other);
}

/// The totals do not look at the marks: whether a sale was printed or reprinted, and whether a
/// ticket was printed or let in, changes no number of the report.
pub proof fn law_marks_do_not_change_the_totals(
    d: DbView,
    id: Seq<char>,
    now: i64,
    from: i64,
    to: i64,
)
    ensures
        report_of(written(d, DbWrite::Printed { id, now }), from, to) == report_of(d, from, to),
        report_of(written(d, DbWrite::Reprinted { id }), from, to) == report_of(d, from, to),
        report_of(written(d, DbWrite::Redeemed { ticket_id: id, now }), from, to) == report_of(
            d,
            from,
            to,
        ),
{
    let within = |r: TicketRowView| in_period(d.sales, r.sale_id, from, to);
    let rows = sold_between(d, from, to);
    let list = ordered_texts(codes(rows));
    let printed = written(d, DbWrite::Printed { id, now });
    if has_sale(d.sales, id) {
        lemma_marked_sales(d, id, SaleChange::Printed, from, to, "paid"@);
        lemma_marked_sales(d, id, SaleChange::Printed, from, to, "abandoned"@);
        let f = |r: TicketRowView|
            if r.sale_id == id && r.printed_at is None {
                TicketRowView { printed_at: Some(now), ..r }
            } else {
                r
            };
        let sales = with_change(d.sales, id, SaleChange::Printed);
        let then = |r: TicketRowView| in_period(sales, r.sale_id, from, to);
        assert forall|i: int| 0 <= i < printed.tickets.len() implies then(
            #[trigger] printed.tickets[i],
        ) == within(printed.tickets[i]) by {
            lemma_marked_period(
                d.sales,
                id,
                SaleChange::Printed,
                printed.tickets[i].sale_id,
                from,
                to,
            );
        }
        lemma_filter_same(printed.tickets, then, within);
        lemma_map_then_filter(d.tickets, f, within);
        assert(sold_between(printed, from, to) == rows.map_values(f));
        lemma_same_tickets(sold_between(printed, from, to), rows, list);
        assert(with_status(printed, from, to, "paid"@) == with_status(
            DbView { sales, ..d },
            from,
            to,
            "paid"@,
        ));
        assert(with_status(printed, from, to, "abandoned"@) == with_status(
            DbView { sales, ..d },
            from,
            to,
            "abandoned"@,
        ));
    }
    let counted = written(d, DbWrite::Reprinted { id });
    if has_sale(d.sales, id) {
        lemma_marked_sales(d, id, SaleChange::Reprinted, from, to, "paid"@);
        lemma_marked_sales(d, id, SaleChange::Reprinted, from, to, "abandoned"@);
        let then = |r: TicketRowView| in_period(counted.sales, r.sale_id, from, to);
        assert forall|i: int| 0 <= i < d.tickets.len() implies then(#[trigger] d.tickets[i])
            == within(d.tickets[i]) by {
            lemma_marked_period(
                d.sales,
                id,
                SaleChange::Reprinted,
                d.tickets[i].sale_id,
                from,
                to,
            );
        }
        lemma_filter_same(d.tickets, then, within);
    }
    let redeemed = written(d, DbWrite::Redeemed { ticket_id: id, now });
    let g = |r: TicketRowView|
        if r.ticket.id == id && r.redeemed_at is None {
            TicketRowView { redeemed_at: Some(now), ..r }
        } else {
            r
        };
    lemma_map_then_filter(d.tickets, g, within);
    assert(sold_between(redeemed, from, to) == rows.map_values(g));
    lemma_same_tickets(sold_between(redeemed, from, to), rows, list);
}

} // verus!
