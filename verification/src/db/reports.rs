//! What is read out of the tables: single sales, lists of sales, the totals of a period and
//! the export.

use vstd::prelude::*;
use vstd::string::*;

use crate::db::{
    db_error, sale_rows, ticket_rows, Db, DbView, SaleRow, SaleRowView, TicketRow, TicketRowView,
};
use crate::keyed::{
    in_order, items, lemma_order_all, lemma_order_with_items, sort_keyed, with_items, Keyed,
};
use crate::models::{
    ticket_views, ErrorView, KioskError, KioskResult, PrintedTicket, SaleRecord, SaleRecordView,
    TicketView,
};
use crate::order::{distinct_in_order, ordered_texts};
use crate::text::{
    chars_of, decimal, decimal_i64, decimal_u64, has_char, join, join_fields, same_text, texts,
};

verus! {

// ---------------------------------------------------------------------------
// Numbers
// ---------------------------------------------------------------------------

/// A stored count, which has to fit.
pub open spec fn count_field(value: int, field: Seq<char>) -> Result<u32, ErrorView> {
    if 0 <= value <= u32::MAX {
        Ok(value as u32)
    } else {
        Err(
            ErrorView::Db("invalid "@ + field + " value in database: "@ + decimal(value)),
        )
    }
}

/// A stored count, which has to fit.
pub fn checked_u32(value: i64, field: &str) -> (r: KioskResult<u32>)
    ensures
        match count_field(value as int, field@) {
            Ok(n) => r matches Ok(v) && v == n,
            Err(t) => r matches Err(e) && e@ == t,
        },
{
    if 0 <= value && value <= u32::MAX as i64 {
        Ok(value as u32)
    } else {
        Err(
            KioskError::Db(
                "invalid ".to_string().concat(field).concat(" value in database: ").concat(
                    decimal_i64(value).as_str(),
                ),
            ),
        )
    }
}

fn checked_count(value: usize, field: &str) -> (r: KioskResult<u32>)
    ensures
        match count_field(value as int, field@) {
            Ok(n) => r matches Ok(v) && v == n,
            Err(t) => r matches Err(e) && e@ == t,
        },
{
    if value as u64 <= u32::MAX as u64 {
        Ok(value as u32)
    } else {
        Err(
            KioskError::Db(
                "invalid ".to_string().concat(field).concat(" value in database: ").concat(
                    decimal_u64(value as u64).as_str(),
                ),
            ),
        )
    }
}

/// A sum of amounts, which has to fit.
pub open spec fn sum_field(value: int) -> Result<i64, ErrorView> {
    if i64::MIN <= value <= i64::MAX {
        Ok(value as i64)
    } else {
        Err(ErrorView::Db("integer overflow"@))
    }
}

fn checked_sum(value: i128) -> (r: KioskResult<i64>)
    ensures
        match sum_field(value as int) {
            Ok(n) => r matches Ok(v) && v == n,
            Err(t) => r matches Err(e) && e@ == t,
        },
{
    if i64::MIN as i128 <= value && value <= i64::MAX as i128 {
        Ok(value as i64)
    } else {
        Err(db_error("integer overflow"))
    }
}

// ---------------------------------------------------------------------------
// Single sales
// ---------------------------------------------------------------------------

/// The sale with this id.
pub open spec fn find_sale(sales: Seq<SaleRowView>, id: Seq<char>) -> Option<SaleRowView>
    decreases sales.len(),
{
    if sales.len() == 0 {
        None
    } else if sales[0].id == id {
        Some(sales[0])
    } else {
        find_sale(sales.skip(1), id)
    }
}

/// Ticket rows as they are ordered within a sale: by the time of issue.
pub open spec fn by_issue(rows: Seq<TicketRowView>) -> Seq<Keyed<TicketView>> {
    rows.map_values(
        |r: TicketRowView| Keyed { first: r.ticket.issued_at, second: 0i64, item: r.ticket },
    )
}

/// The rows of the tickets of a sale, in the order in which they were stored.
pub open spec fn rows_of(tickets: Seq<TicketRowView>, sale_id: Seq<char>) -> Seq<TicketRowView> {
    tickets.filter(|r: TicketRowView| r.sale_id == sale_id)
}

/// The tickets of a sale: by the time of issue, and as they were stored where that is equal.
pub open spec fn tickets_of(tickets: Seq<TicketRowView>, sale_id: Seq<char>) -> Seq<TicketView> {
    items(in_order(by_issue(rows_of(tickets, sale_id))))
}

/// A sale with its tickets. Its counts have to fit.
pub open spec fn record_of(sale: SaleRowView, tickets: Seq<TicketRowView>) -> Result<
    SaleRecordView,
    ErrorView,
> {
    match count_field(sale.num_tickets as int, "num_tickets"@) {
        Err(e) => Err(e),
        Ok(num_tickets) => match count_field(sale.reprinted_count as int, "reprinted_count"@) {
            Err(e) => Err(e),
            Ok(reprinted_count) => Ok(
                SaleRecordView {
                    id: sale.id,
                    created_at: sale.created_at,
                    total_rsd: sale.total_rsd,
                    inserted_rsd: sale.inserted_rsd,
                    num_tickets,
                    tickets: tickets_of(tickets, sale.id),
                    reprinted_count,
                    status: sale.status,
                    printed: sale.printed,
                },
            ),
        },
    }
}

/// The views of what a query for sales gives.
pub open spec fn record_views(v: Seq<SaleRecord>) -> Seq<SaleRecordView> {
    v.map_values(|r: SaleRecord| r@)
}

fn load_tickets(tickets: &[TicketRow], sale_id: &str) -> (r: Vec<PrintedTicket>)
    ensures
        ticket_views(r@) == tickets_of(ticket_rows(tickets@), sale_id@),
{
    let ghost all = ticket_rows(tickets@);
    let ghost keep = |r: TicketRowView| r.sale_id == sale_id@;
    let ghost f = |t: PrintedTicket| t@;
    let mut keyed: Vec<Keyed<PrintedTicket>> = Vec::new();
    let mut i: usize = 0;
    proof {
        reveal(Seq::filter);
        assert(all.take(0).filter(keep) =~= Seq::<TicketRowView>::empty());
        assert(with_items(keyed@, f) =~= by_issue(all.take(0).filter(keep)));
    }
    while i < tickets.len()
        invariant
            all == ticket_rows(tickets@),
            keep == (|r: TicketRowView| r.sale_id == sale_id@),
            f == (|t: PrintedTicket| t@),
            i <= tickets@.len(),
            with_items(keyed@, f) == by_issue(all.take(i as int).filter(keep)),
        decreases tickets@.len() - i,
    {
        proof {
            reveal(Seq::filter);
            assert(all.take(i + 1).drop_last() =~= all.take(i as int));
            assert(all.take(i + 1).last() == tickets@[i as int]@);
        }
        if same_text(tickets[i].sale_id.as_str(), sale_id) {
            let ghost before = with_items(keyed@, f);
            let item = tickets[i].ticket.clone();
            let first = item.issued_at;
            keyed.push(Keyed { first, second: 0, item });
            assert(with_items(keyed@, f) =~= before.push(
                Keyed { first, second: 0, item: item@ },
            ));
            assert(with_items(keyed@, f) =~= by_issue(all.take(i + 1).filter(keep)));
        }
        i = i + 1;
    }
    assert(all.take(i as int) =~= all);
    proof {
        lemma_order_with_items(keyed@, f);
    }
    let sorted = sort_keyed(keyed);
    let ghost goal = in_order(by_issue(rows_of(all, sale_id@)));
    assert(with_items(sorted@, f) == goal);
    let mut out: Vec<PrintedTicket> = Vec::new();
    let mut k: usize = 0;
    while k < sorted.len()
        invariant
            f == (|t: PrintedTicket| t@),
            with_items(sorted@, f) == goal,
            k <= sorted@.len(),
            ticket_views(out@) == items(goal).take(k as int),
        decreases sorted@.len() - k,
    {
        let ghost before = ticket_views(out@);
        let t = sorted[k].item.clone();
        out.push(t);
        assert(ticket_views(out@) =~= before.push(t@));
        assert(with_items(sorted@, f)[k as int].item == t@);
        assert(items(goal).take(k + 1) =~= items(goal).take(k as int).push(items(goal)[k as int]));
        k = k + 1;
    }
    assert(items(goal).len() == sorted@.len()) by {
        assert(with_items(sorted@, f).len() == sorted@.len());
    }
    assert(items(goal).take(k as int) =~= items(goal));
    out
}

fn assemble_sale(sale: &SaleRow, tickets: &[TicketRow]) -> (r: KioskResult<SaleRecord>)
    ensures
        match record_of(sale@, ticket_rows(tickets@)) {
            Ok(v) => r matches Ok(x) && x@ == v,
            Err(t) => r matches Err(e) && e@ == t,
        },
{
    let loaded = load_tickets(tickets, sale.id.as_str());
    let num_tickets = match checked_u32(sale.num_tickets, "num_tickets") {
        Ok(n) => n,
        Err(e) => return Err(e),
    };
    let reprinted_count = match checked_u32(sale.reprinted_count, "reprinted_count") {
        Ok(n) => n,
        Err(e) => return Err(e),
    };
    Ok(
        SaleRecord {
            id: sale.id.clone(),
            created_at: sale.created_at,
            total_rsd: sale.total_rsd,
            inserted_rsd: sale.inserted_rsd,
            num_tickets,
            tickets: loaded,
            reprinted_count,
            status: sale.status.clone(),
            printed: sale.printed,
        },
    )
}

fn sale_index(sales: &[SaleRow], id: &str) -> (r: Option<usize>)
    ensures
        match find_sale(sale_rows(sales@), id@) {
            Some(v) => r matches Some(i) && i < sales@.len() && sales@[i as int]@ == v,
            None => r is None,
        },
{
    let ghost rows = sale_rows(sales@);
    let mut i: usize = 0;
    assert(rows.skip(0) =~= rows);
    while i < sales.len()
        invariant
            rows == sale_rows(sales@),
            i <= sales@.len(),
            find_sale(rows, id@) == find_sale(rows.skip(i as int), id@),
        decreases sales@.len() - i,
    {
        assert(rows.skip(i as int)[0] == sales@[i as int]@);
        assert(rows.skip(i as int).skip(1) =~= rows.skip(i + 1));
        if same_text(sales[i].id.as_str(), id) {
            return Some(i);
        }
        i = i + 1;
    }
    None
}

// ---------------------------------------------------------------------------
// Lists of sales
// ---------------------------------------------------------------------------

/// Sales as they are listed: by the time at which they began.
pub open spec fn by_creation(rows: Seq<SaleRowView>) -> Seq<Keyed<SaleRowView>> {
    rows.map_values(|r: SaleRowView| Keyed { first: r.created_at, second: 0i64, item: r })
}

/// The sales that began within a period, in the order in which they were stored.
pub open spec fn begun_between(sales: Seq<SaleRowView>, from: i64, to: i64) -> Seq<SaleRowView> {
    sales.filter(|r: SaleRowView| from <= r.created_at <= to)
}

/// The sales that began within a period: by that time, and as they were stored where it is
/// equal.
pub open spec fn sales_between(sales: Seq<SaleRowView>, from: i64, to: i64) -> Seq<SaleRowView> {
    items(in_order(by_creation(begun_between(sales, from, to))))
}

/// Sales with their tickets, or the error of the first whose counts do not fit.
pub open spec fn records_of(sales: Seq<SaleRowView>, tickets: Seq<TicketRowView>) -> Result<
    Seq<SaleRecordView>,
    ErrorView,
>
    decreases sales.len(),
{
    if sales.len() == 0 {
        Ok(Seq::empty())
    } else {
        match records_of(sales.drop_last(), tickets) {
            Err(e) => Err(e),
            Ok(v) => match record_of(sales.last(), tickets) {
                Err(e) => Err(e),
                Ok(x) => Ok(v.push(x)),
            },
        }
    }
}

proof fn lemma_first_error(sales: Seq<SaleRowView>, tickets: Seq<TicketRowView>, n: int)
    requires
        0 <= n <= sales.len(),
        records_of(sales.take(n), tickets) is Err,
    ensures
        records_of(sales, tickets) == records_of(sales.take(n), tickets),
    decreases sales.len() - n,
{
    if n == sales.len() {
        assert(sales.take(n) =~= sales);
    } else {
        assert(sales.take(n + 1).drop_last() =~= sales.take(n));
        lemma_first_error(sales, tickets, n + 1);
    }
}

impl Db {
    /// The sale with this id, with its tickets.
    pub fn get_sale(&self, sale_id: &str) -> (r: KioskResult<Option<SaleRecord>>)
        ensures
            match find_sale(self@.sales, sale_id@) {
                None => r matches Ok(None),
                Some(sale) => match record_of(sale, self@.tickets) {
                    Ok(v) => r matches Ok(Some(x)) && x@ == v,
                    Err(t) => r matches Err(e) && e@ == t,
                },
            },
    {
        match sale_index(&self.sales, sale_id) {
            None => Ok(None),
            Some(i) => match assemble_sale(&self.sales[i], &self.tickets) {
                Ok(x) => Ok(Some(x)),
                Err(e) => Err(e),
            },
        }
    }

    fn sales_in_order(&self, from_ts: i64, to_ts: i64) -> (r: Vec<Keyed<usize>>)
        ensures
            r@.len() == sales_between(self@.sales, from_ts, to_ts).len(),
            forall|k: int|
                0 <= k < r@.len() ==> (#[trigger] r@[k]).item < self.sales@.len()
                    && self.sales@[r@[k].item as int]@ == sales_between(
                    self@.sales,
                    from_ts,
                    to_ts,
                )[k],
    {
        let ghost all = self@.sales;
        let ghost keep = |r: SaleRowView| from_ts <= r.created_at <= to_ts;
        let ghost f = |i: usize| self.sales@[i as int]@;
        let ghost in_table = |k: Keyed<usize>| k.item < self.sales@.len();
        let mut keyed: Vec<Keyed<usize>> = Vec::new();
        let mut i: usize = 0;
        proof {
            reveal(Seq::filter);
            assert(all.take(0).filter(keep) =~= Seq::<SaleRowView>::empty());
            assert(with_items(keyed@, f) =~= by_creation(all.take(0).filter(keep)));
        }
        while i < self.sales.len()
            invariant
                all == self@.sales,
                keep == (|r: SaleRowView| from_ts <= r.created_at <= to_ts),
                f == (|i: usize| self.sales@[i as int]@),
                i <= self.sales@.len(),
                with_items(keyed@, f) == by_creation(all.take(i as int).filter(keep)),
                forall|k: int|
                    0 <= k < keyed@.len() ==> (#[trigger] keyed@[k]).item < self.sales@.len(),
            decreases self.sales@.len() - i,
        {
            proof {
                reveal(Seq::filter);
                assert(all.take(i + 1).drop_last() =~= all.take(i as int));
                assert(all.take(i + 1).last() == self.sales@[i as int]@);
            }
            let first = self.sales[i].created_at;
            if from_ts <= first && first <= to_ts {
                let ghost before = with_items(keyed@, f);
                keyed.push(Keyed { first, second: 0, item: i });
                assert(with_items(keyed@, f) =~= before.push(
                    Keyed { first, second: 0, item: f(i) },
                ));
                assert(with_items(keyed@, f) =~= by_creation(all.take(i + 1).filter(keep)));
            }
            i = i + 1;
        }
        assert(all.take(i as int) =~= all);
        let ghost rows = keyed@;
        proof {
            lemma_order_with_items(rows, f);
            lemma_order_all(rows, in_table);
        }
        let sorted = sort_keyed(keyed);
        proof {
            let goal = in_order(by_creation(begun_between(all, from_ts, to_ts)));
            assert(with_items(sorted@, f) == goal);
            assert(goal.len() == sorted@.len());
            assert forall|k: int| 0 <= k < sorted@.len() implies (#[trigger] sorted@[k]).item
                < self.sales@.len() && self.sales@[sorted@[k].item as int]@ == sales_between(
                self@.sales,
                from_ts,
                to_ts,
            )[k] by {
                assert(in_table(sorted@[k]));
                assert(with_items(sorted@, f)[k].item == f(sorted@[k].item));
            }
        }
        sorted
    }

    /// The sales that began within a period, with their tickets.
    pub fn list_sales(&self, from_ts: i64, to_ts: i64) -> (r: KioskResult<Vec<SaleRecord>>)
        ensures
            match records_of(sales_between(self@.sales, from_ts, to_ts), self@.tickets) {
                Ok(v) => r matches Ok(x) && record_views(x@) == v,
                Err(t) => r matches Err(e) && e@ == t,
            },
    {
        let sorted = self.sales_in_order(from_ts, to_ts);
        let ghost listed = sales_between(self@.sales, from_ts, to_ts);
        let mut out: Vec<SaleRecord> = Vec::new();
        let mut k: usize = 0;
        assert(listed.take(0) =~= Seq::<SaleRowView>::empty());
        assert(record_views(out@) =~= Seq::<SaleRecordView>::empty());
        while k < sorted.len()
            invariant
                listed == sales_between(self@.sales, from_ts, to_ts),
                sorted@.len() == listed.len(),
                k <= sorted@.len(),
                forall|j: int|
                    0 <= j < sorted@.len() ==> (#[trigger] sorted@[j]).item < self.sales@.len()
                        && self.sales@[sorted@[j].item as int]@ == listed[j],
                records_of(listed.take(k as int), self@.tickets) == Ok::<
                    Seq<SaleRecordView>,
                    ErrorView,
                >(record_views(out@)),
            decreases sorted@.len() - k,
        {
            let ghost before = record_views(out@);
            proof {
                assert(sorted@[k as int].item < self.sales@.len());
                assert(listed.take(k + 1).drop_last() =~= listed.take(k as int));
                assert(listed.take(k + 1).last() == listed[k as int]);
            }
            let at: usize = sorted[k].item;
            match assemble_sale(&self.sales[at], &self.tickets) {
                Ok(x) => {
                    out.push(x);
                    assert(record_views(out@) =~= before.push(x@));
                },
                Err(e) => {
                    proof {
                        lemma_first_error(listed, self@.tickets, k + 1);
                    }
                    return Err(e);
                },
            }
            k = k + 1;
        }
        assert(listed.take(k as int) =~= listed);
        Ok(out)
    }
}

// ---------------------------------------------------------------------------
// Tickets of a period
// ---------------------------------------------------------------------------

/// Whether a sale began within a period.
pub open spec fn in_period(sales: Seq<SaleRowView>, id: Seq<char>, from: i64, to: i64) -> bool {
    match find_sale(sales, id) {
        Some(s) => from <= s.created_at <= to,
        None => false,
    }
}

/// The tickets of the sales that began within a period, as they were stored.
pub open spec fn sold_between(d: DbView, from: i64, to: i64) -> Seq<TicketRowView> {
    d.tickets.filter(|r: TicketRowView| in_period(d.sales, r.sale_id, from, to))
}

/// Ticket rows as they are exported: by the time at which the sale began, then by the time
/// of issue.
pub open spec fn by_sale_and_issue(sales: Seq<SaleRowView>, rows: Seq<TicketRowView>) -> Seq<
    Keyed<TicketRowView>,
> {
    rows.map_values(
        |r: TicketRowView|
            Keyed {
                first: find_sale(sales, r.sale_id)->0.created_at,
                second: r.ticket.issued_at,
                item: r,
            },
    )
}

/// The rows of the export.
pub open spec fn exported(d: DbView, from: i64, to: i64) -> Seq<TicketRowView> {
    items(in_order(by_sale_and_issue(d.sales, sold_between(d, from, to))))
}

/// A text with every quotation mark doubled.
pub open spec fn doubled(s: Seq<char>) -> Seq<char>
    decreases s.len(),
{
    if s.len() == 0 {
        s
    } else if s.last() == '"' {
        doubled(s.drop_last()).push('"').push('"')
    } else {
        doubled(s.drop_last()).push(s.last())
    }
}

/// Whether a text has to be quoted in a comma-separated line.
pub open spec fn needs_quotes(s: Seq<char>) -> bool {
    s.contains(',') || s.contains('"') || s.contains('\n') || s.contains('\r')
}

/// A field of a comma-separated line.
pub open spec fn csv_field(s: Seq<char>) -> Seq<char> {
    if needs_quotes(s) {
        "\""@ + doubled(s) + "\""@
    } else {
        s
    }
}

/// A time that may be missing.
pub open spec fn time_field(t: Option<i64>) -> Seq<char> {
    match t {
        Some(n) => decimal(n as int),
        None => ""@,
    }
}

/// The fields of a ticket in the export.
pub open spec fn export_fields(r: TicketRowView) -> Seq<Seq<char>> {
    seq![
        csv_field(r.sale_id),
        csv_field(r.ticket.id),
        csv_field(r.ticket.type_code),
        csv_field(r.ticket.label),
        csv_field(decimal(r.ticket.price_rsd as int)),
        csv_field(decimal(r.ticket.issued_at as int)),
        csv_field(r.ticket.qr_token),
        csv_field(time_field(r.printed_at)),
        csv_field(time_field(r.redeemed_at)),
    ]
}

/// The export: a line of headings, then a line for each ticket.
pub open spec fn export_text(rows: Seq<TicketRowView>) -> Seq<char>
    decreases rows.len(),
{
    if rows.len() == 0 {
        "sale_id,ticket_id,type_code,label,price_rsd,issued_at,qr_token,printed_at,redeemed_at\n"@
    } else {
        export_text(rows.drop_last()) + join_fields(export_fields(rows.last()), ","@) + "\n"@
    }
}

/// A field of a comma-separated line: quoted where it holds a comma, a quotation mark or a
/// line break.
pub fn csv_escape(field: &str) -> (r: String)
    ensures
        r@ == csv_field(field@),
{
    if has_char(field, ',') || has_char(field, '"') || has_char(field, '\n') || has_char(
        field,
        '\r',
    ) {
        let chars = chars_of(field);
        let mut out = "\"".to_string();
        let mut i: usize = 0;
        assert(chars@.take(0) =~= Seq::<char>::empty());
        assert(out@ =~= "\""@ + doubled(chars@.take(0)));
        while i < chars.len()
            invariant
                i <= chars@.len(),
                out@ == "\""@ + doubled(chars@.take(i as int)),
            decreases chars@.len() - i,
        {
            let ghost t = chars@.take(i + 1);
            assert(t.drop_last() =~= chars@.take(i as int));
            assert(t.last() == chars@[i as int]);
            let c: char = chars[i];
            if c == '"' {
                out.push('"');
            }
            out.push(c);
            assert(out@ =~= "\""@ + doubled(t));
            i = i + 1;
        }
        assert(chars@.take(i as int) =~= chars@);
        out.concat("\"")
    } else {
        field.to_string()
    }
}

/// A text with every doubled quotation mark made one.
pub open spec fn halved(s: Seq<char>) -> Seq<char>
    decreases s.len(),
{
    if s.len() == 0 {
        s
    } else if s.len() >= 2 && s.last() == '"' && s[s.len() - 2] == '"' {
        halved(s.take(s.len() - 2)).push('"')
    } else {
        halved(s.drop_last()).push(s.last())
    }
}

/// What a field of a comma-separated line stands for.
pub open spec fn csv_text(field: Seq<char>) -> Seq<char> {
    if field.len() >= 2 && field[0] == '"' {
        halved(field.subrange(1, field.len() - 1))
    } else {
        field
    }
}

proof fn lemma_halved_doubled(s: Seq<char>)
    ensures
        halved(doubled(s)) == s,
    decreases s.len(),
{
    if s.len() > 0 {
        let head = s.drop_last();
        lemma_halved_doubled(head);
        let d = doubled(s);
        if s.last() == '"' {
            assert(d.take(d.len() - 2) =~= doubled(head));
        } else {
            assert(d.drop_last() =~= doubled(head));
        }
        assert(head.push(s.last()) =~= s);
    }
}

/// Every field of the export reads back as the text that it stands for, whatever is in it.
pub proof fn law_export_fields_read_back(s: Seq<char>)
    ensures
        csv_text(csv_field(s)) == s,
{
    reveal_strlit("\"");
    lemma_halved_doubled(s);
    let f = csv_field(s);
    if needs_quotes(s) {
        assert(f.subrange(1, f.len() - 1) =~= doubled(s));
    } else if s.len() > 0 {
        assert(s.contains(s[0]));
    }
}

fn time_text(t: Option<i64>) -> (r: String)
    ensures
        r@ == time_field(t),
{
    match t {
        Some(n) => decimal_i64(n),
        None => "".to_string(),
    }
}

fn export_line(row: &TicketRow) -> (r: String)
    ensures
        r@ == join_fields(export_fields(row@), ","@),
{
    let mut fields: Vec<String> = Vec::new();
    fields.push(csv_escape(row.sale_id.as_str()));
    fields.push(csv_escape(row.ticket.id.as_str()));
    fields.push(csv_escape(row.ticket.type_code.as_str()));
    fields.push(csv_escape(row.ticket.label.as_str()));
    fields.push(csv_escape(decimal_i64(row.ticket.price_rsd).as_str()));
    fields.push(csv_escape(decimal_i64(row.ticket.issued_at).as_str()));
    fields.push(csv_escape(row.ticket.qr_token.as_str()));
    fields.push(csv_escape(time_text(row.printed_at).as_str()));
    fields.push(csv_escape(time_text(row.redeemed_at).as_str()));
    assert(texts(fields@) =~= export_fields(row@));
    join(&fields, ",")
}

impl Db {
    fn sold_rows(&self, from_ts: i64, to_ts: i64) -> (r: Vec<Keyed<usize>>)
        ensures
            with_items(r@, |i: usize| self.tickets@[i as int]@) == by_sale_and_issue(
                self@.sales,
                sold_between(self@, from_ts, to_ts),
            ),
            forall|k: int| 0 <= k < r@.len() ==> (#[trigger] r@[k]).item < self.tickets@.len(),
    {
        let ghost sales = self@.sales;
        let ghost all = self@.tickets;
        let ghost keep = |r: TicketRowView| in_period(self@.sales, r.sale_id, from_ts, to_ts);
        let ghost f = |i: usize| self.tickets@[i as int]@;
        let mut keyed: Vec<Keyed<usize>> = Vec::new();
        let mut i: usize = 0;
        proof {
            reveal(Seq::filter);
            assert(all.take(0).filter(keep) =~= Seq::<TicketRowView>::empty());
            assert(with_items(keyed@, f) =~= by_sale_and_issue(sales, all.take(0).filter(keep)));
        }
        while i < self.tickets.len()
            invariant
                sales == self@.sales,
                all == self@.tickets,
                keep == (|r: TicketRowView| in_period(self@.sales, r.sale_id, from_ts, to_ts)),
                f == (|i: usize| self.tickets@[i as int]@),
                i <= self.tickets@.len(),
                with_items(keyed@, f) == by_sale_and_issue(
                    sales,
                    all.take(i as int).filter(keep),
                ),
                forall|k: int|
                    0 <= k < keyed@.len() ==> (#[trigger] keyed@[k]).item < self.tickets@.len(),
            decreases self.tickets@.len() - i,
        {
            proof {
                reveal(Seq::filter);
                assert(all.take(i + 1).drop_last() =~= all.take(i as int));
                assert(all.take(i + 1).last() == self.tickets@[i as int]@);
            }
            match sale_index(&self.sales, self.tickets[i].sale_id.as_str()) {
                Some(at) => {
                    let first = self.sales[at].created_at;
                    if from_ts <= first && first <= to_ts {
                        let ghost before = with_items(keyed@, f);
                        let second = self.tickets[i].ticket.issued_at;
                        keyed.push(Keyed { first, second, item: i });
                        assert(with_items(keyed@, f) =~= before.push(
                            Keyed { first, second, item: f(i) },
                        ));
                        assert(with_items(keyed@, f) =~= by_sale_and_issue(
                            sales,
                            all.take(i + 1).filter(keep),
                        ));
                    }
                },
                None => {},
            }
            i = i + 1;
        }
        assert(all.take(i as int) =~= all);
        keyed
    }

    /// The tickets of the sales that began within a period, as comma-separated lines.
    pub fn export_csv(&self, from_ts: i64, to_ts: i64) -> (r: KioskResult<String>)
        ensures
            r matches Ok(t) && t@ == export_text(exported(self@, from_ts, to_ts)),
    {
        let ghost f = |i: usize| self.tickets@[i as int]@;
        let ghost in_table = |k: Keyed<usize>| k.item < self.tickets@.len();
        let keyed = self.sold_rows(from_ts, to_ts);
        let ghost rows = exported(self@, from_ts, to_ts);
        proof {
            lemma_order_with_items(keyed@, f);
            lemma_order_all(keyed@, in_table);
        }
        let sorted = sort_keyed(keyed);
        proof {
            assert(with_items(sorted@, f).len() == sorted@.len());
            assert forall|k: int| 0 <= k < sorted@.len() implies (#[trigger] sorted@[k]).item
                < self.tickets@.len() && self.tickets@[sorted@[k].item as int]@ == rows[k] by {
                assert(in_table(sorted@[k]));
                assert(with_items(sorted@, f)[k].item == f(sorted@[k].item));
            }
        }
        let mut out =
            "sale_id,ticket_id,type_code,label,price_rsd,issued_at,qr_token,printed_at,redeemed_at\n".to_string();
        let mut k: usize = 0;
        assert(rows.take(0) =~= Seq::<TicketRowView>::empty());
        while k < sorted.len()
            invariant
                sorted@.len() == rows.len(),
                k <= sorted@.len(),
                forall|j: int|
                    0 <= j < sorted@.len() ==> (#[trigger] sorted@[j]).item < self.tickets@.len()
                        && self.tickets@[sorted@[j].item as int]@ == rows[j],
                out@ == export_text(rows.take(k as int)),
            decreases sorted@.len() - k,
        {
            proof {
                assert(sorted@[k as int].item < self.tickets@.len());
                assert(rows.take(k + 1).drop_last() =~= rows.take(k as int));
                assert(rows.take(k + 1).last() == rows[k as int]);
            }
            let at: usize = sorted[k].item;
            out.append(export_line(&self.tickets[at]).as_str());
            out.append("\n");
            k = k + 1;
        }
        assert(rows.take(k as int) =~= rows);
        Ok(out)
    }
}

// ---------------------------------------------------------------------------
// Totals of a period
// ---------------------------------------------------------------------------

/// The totals of a period. Sales count where they are paid; cash of abandoned sessions is
/// listed apart; tickets are listed by type.
#[derive(Debug, Clone)]
pub struct ZReport {
    pub from_ts: i64,
    pub to_ts: i64,
    pub count_sales: u32,
    pub count_tickets: u32,
    pub total_rsd: i64,
    pub abandoned_rsd: i64,
    pub by_type: Vec<(String, u32, i64)>,
}

pub struct ZReportView {
    pub from_ts: i64,
    pub to_ts: i64,
    pub count_sales: u32,
    pub count_tickets: u32,
    pub total_rsd: i64,
    pub abandoned_rsd: i64,
    pub by_type: Seq<(Seq<char>, u32, i64)>,
}

/// The views of the totals by type.
pub open spec fn type_total_views(v: Seq<(String, u32, i64)>) -> Seq<(Seq<char>, u32, i64)> {
    v.map_values(|t: (String, u32, i64)| (t.0@, t.1, t.2))
}

impl View for ZReport {
    type V = ZReportView;

    open spec fn view(&self) -> ZReportView {
        ZReportView {
            from_ts: self.from_ts,
            to_ts: self.to_ts,
            count_sales: self.count_sales,
            count_tickets: self.count_tickets,
            total_rsd: self.total_rsd,
            abandoned_rsd: self.abandoned_rsd,
            by_type: type_total_views(self.by_type@),
        }
    }
}

/// The sum of amounts.
pub open spec fn sum_of(s: Seq<i64>) -> int
    decreases s.len(),
{
    if s.len() == 0 {
        0
    } else {
        sum_of(s.drop_last()) + s.last()
    }
}

/// The sales of a period that have this status.
pub open spec fn with_status(d: DbView, from: i64, to: i64, status: Seq<char>) -> Seq<
    SaleRowView,
> {
    d.sales.filter(|r: SaleRowView| from <= r.created_at <= to && r.status == status)
}

pub open spec fn totals(rows: Seq<SaleRowView>) -> Seq<i64> {
    rows.map_values(|r: SaleRowView| r.total_rsd)
}

pub open spec fn inserted_amounts(rows: Seq<SaleRowView>) -> Seq<i64> {
    rows.map_values(|r: SaleRowView| r.inserted_rsd)
}

pub open spec fn prices(rows: Seq<TicketRowView>) -> Seq<i64> {
    rows.map_values(|r: TicketRowView| r.ticket.price_rsd)
}

pub open spec fn codes(rows: Seq<TicketRowView>) -> Seq<Seq<char>> {
    rows.map_values(|r: TicketRowView| r.ticket.type_code)
}

/// The rows of this ticket type.
pub open spec fn of_type(rows: Seq<TicketRowView>, code: Seq<char>) -> Seq<TicketRowView> {
    rows.filter(|r: TicketRowView| r.ticket.type_code == code)
}

/// How many tickets of a type were sold, and for how much.
pub open spec fn type_total(rows: Seq<TicketRowView>, code: Seq<char>) -> Result<
    (Seq<char>, u32, i64),
    ErrorView,
> {
    match sum_field(sum_of(prices(of_type(rows, code)))) {
        Err(e) => Err(e),
        Ok(sum) => match count_field(of_type(rows, code).len() as int, "ticket type count"@) {
            Err(e) => Err(e),
            Ok(count) => Ok((code, count, sum)),
        },
    }
}

/// The same for a list of types, or the first error.
pub open spec fn type_totals(rows: Seq<TicketRowView>, codes: Seq<Seq<char>>) -> Result<
    Seq<(Seq<char>, u32, i64)>,
    ErrorView,
>
    decreases codes.len(),
{
    if codes.len() == 0 {
        Ok(Seq::empty())
    } else {
        match type_totals(rows, codes.drop_last()) {
            Err(e) => Err(e),
            Ok(v) => match type_total(rows, codes.last()) {
                Err(e) => Err(e),
                Ok(x) => Ok(v.push(x)),
            },
        }
    }
}

/// The totals of a period, or the first number that does not fit.
pub open spec fn report_of(d: DbView, from: i64, to: i64) -> Result<ZReportView, ErrorView> {
    let paid = with_status(d, from, to, "paid"@);
    let abandoned = with_status(d, from, to, "abandoned"@);
    let sold = sold_between(d, from, to);
    match sum_field(sum_of(totals(paid))) {
        Err(e) => Err(e),
        Ok(total_rsd) => match sum_field(sum_of(inserted_amounts(abandoned))) {
            Err(e) => Err(e),
            Ok(abandoned_rsd) => match type_totals(sold, ordered_texts(codes(sold))) {
                Err(e) => Err(e),
                Ok(by_type) => match count_field(paid.len() as int, "sale count"@) {
                    Err(e) => Err(e),
                    Ok(count_sales) => match count_field(sold.len() as int, "ticket count"@) {
                        Err(e) => Err(e),
                        Ok(count_tickets) => Ok(
                            ZReportView {
                                from_ts: from,
                                to_ts: to,
                                count_sales,
                                count_tickets,
                                total_rsd,
                                abandoned_rsd,
                                by_type,
                            },
                        ),
                    },
                },
            },
        },
    }
}

proof fn lemma_sum_bound(s: Seq<i64>)
    ensures
        -(s.len() * 0x8000_0000_0000_0000) <= sum_of(s) <= s.len() * 0x8000_0000_0000_0000,
    decreases s.len(),
{
    if s.len() > 0 {
        lemma_sum_bound(s.drop_last());
    }
}

proof fn lemma_sum_fits(s: Seq<i64>)
    requires
        s.len() <= usize::MAX,
    ensures
        i128::MIN <= sum_of(s) <= i128::MAX,
{
    lemma_sum_bound(s);
}

proof fn lemma_first_type_error(rows: Seq<TicketRowView>, list: Seq<Seq<char>>, n: int)
    requires
        0 <= n <= list.len(),
        type_totals(rows, list.take(n)) is Err,
    ensures
        type_totals(rows, list) == type_totals(rows, list.take(n)),
    decreases list.len() - n,
{
    if n == list.len() {
        assert(list.take(n) =~= list);
    } else {
        assert(list.take(n + 1).drop_last() =~= list.take(n));
        lemma_first_type_error(rows, list, n + 1);
    }
}

impl Db {
    /// Counts the sales of a period that have this status and adds up one amount of each.
    fn sum_sales(&self, from_ts: i64, to_ts: i64, status: &str, paid: bool) -> (r: (
        usize,
        i128,
    ))
        ensures
            r.0 == with_status(self@, from_ts, to_ts, status@).len(),
            r.1 == sum_of(
                if paid {
                    totals(with_status(self@, from_ts, to_ts, status@))
                } else {
                    inserted_amounts(with_status(self@, from_ts, to_ts, status@))
                },
            ),
    {
        let ghost all = self@.sales;
        let ghost keep = |r: SaleRowView|
            from_ts <= r.created_at <= to_ts && r.status == status@;
        let ghost amounts = |rows: Seq<SaleRowView>|
            if paid {
                totals(rows)
            } else {
                inserted_amounts(rows)
            };
        let mut count: usize = 0;
        let mut sum: i128 = 0;
        let mut i: usize = 0;
        proof {
            reveal(Seq::filter);
            assert(all.take(0).filter(keep) =~= Seq::<SaleRowView>::empty());
            assert(amounts(all.take(0).filter(keep)) =~= Seq::<i64>::empty());
        }
        while i < self.sales.len()
            invariant
                all == self@.sales,
                keep == (|r: SaleRowView|
                    from_ts <= r.created_at <= to_ts && r.status == status@),
                amounts == (|rows: Seq<SaleRowView>|
                    if paid {
                        totals(rows)
                    } else {
                        inserted_amounts(rows)
                    }),
                i <= self.sales@.len(),
                count <= i,
                count == all.take(i as int).filter(keep).len(),
                sum == sum_of(amounts(all.take(i as int).filter(keep))),
            decreases self.sales@.len() - i,
        {
            let ghost now = all.take(i as int).filter(keep);
            let ghost next = all.take(i + 1).filter(keep);
            proof {
                reveal(Seq::filter);
                assert(all.take(i + 1).drop_last() =~= all.take(i as int));
                assert(all.take(i + 1).last() == self.sales@[i as int]@);
            }
            let at = self.sales[i].created_at;
            if from_ts <= at && at <= to_ts && same_text(self.sales[i].status.as_str(), status) {
                let amount: i64 = if paid {
                    self.sales[i].total_rsd
                } else {
                    self.sales[i].inserted_rsd
                };
                proof {
                    assert(amounts(next) =~= amounts(now).push(amount));
                    assert(amounts(next).drop_last() =~= amounts(now));
                    lemma_sum_fits(amounts(next));
                }
                count = count + 1;
                sum = sum + amount as i128;
            }
            i = i + 1;
        }
        assert(all.take(i as int) =~= all);
        (count, sum)
    }

    fn sum_type(&self, sold: &[Keyed<usize>], code: &str, Ghost(rows): Ghost<
        Seq<TicketRowView>,
    >) -> (r: (usize, i128))
        requires
            sold@.len() == rows.len(),
            forall|k: int|
                0 <= k < sold@.len() ==> (#[trigger] sold@[k]).item < self.tickets@.len()
                    && self.tickets@[sold@[k].item as int]@ == rows[k],
        ensures
            r.0 == of_type(rows, code@).len(),
            r.1 == sum_of(prices(of_type(rows, code@))),
    {
        let ghost keep = |r: TicketRowView| r.ticket.type_code == code@;
        let mut count: usize = 0;
        let mut sum: i128 = 0;
        let mut i: usize = 0;
        proof {
            reveal(Seq::filter);
            assert(rows.take(0).filter(keep) =~= Seq::<TicketRowView>::empty());
            assert(prices(rows.take(0).filter(keep)) =~= Seq::<i64>::empty());
        }
        while i < sold.len()
            invariant
                keep == (|r: TicketRowView| r.ticket.type_code == code@),
                sold@.len() == rows.len(),
                forall|k: int|
                    0 <= k < sold@.len() ==> (#[trigger] sold@[k]).item < self.tickets@.len()
                        && self.tickets@[sold@[k].item as int]@ == rows[k],
                i <= sold@.len(),
                count <= i,
                count == rows.take(i as int).filter(keep).len(),
                sum == sum_of(prices(rows.take(i as int).filter(keep))),
            decreases sold@.len() - i,
        {
            let ghost now = rows.take(i as int).filter(keep);
            let ghost next = rows.take(i + 1).filter(keep);
            proof {
                reveal(Seq::filter);
                assert(sold@[i as int].item < self.tickets@.len());
                assert(rows.take(i + 1).drop_last() =~= rows.take(i as int));
                assert(rows.take(i + 1).last() == rows[i as int]);
            }
            let at: usize = sold[i].item;
            if same_text(self.tickets[at].ticket.type_code.as_str(), code) {
                let amount: i64 = self.tickets[at].ticket.price_rsd;
                proof {
                    assert(prices(next) =~= prices(now).push(amount));
                    assert(prices(next).drop_last() =~= prices(now));
                    lemma_sum_fits(prices(next));
                }
                count = count + 1;
                sum = sum + amount as i128;
            }
            i = i + 1;
        }
        assert(rows.take(i as int) =~= rows);
        (count, sum)
    }

    fn sum_types(&self, sold: &[Keyed<usize>], Ghost(rows): Ghost<Seq<TicketRowView>>) -> (r:
        KioskResult<Vec<(String, u32, i64)>>)
        requires
            sold@.len() == rows.len(),
            forall|k: int|
                0 <= k < sold@.len() ==> (#[trigger] sold@[k]).item < self.tickets@.len()
                    && self.tickets@[sold@[k].item as int]@ == rows[k],
        ensures
            match type_totals(rows, ordered_texts(codes(rows))) {
                Ok(v) => r matches Ok(x) && type_total_views(x@) == v,
                Err(t) => r matches Err(e) && e@ == t,
            },
    {
        let mut names: Vec<String> = Vec::new();
        let mut i: usize = 0;
        assert(texts(names@) =~= codes(rows).take(0));
        while i < sold.len()
            invariant
                sold@.len() == rows.len(),
                forall|k: int|
                    0 <= k < sold@.len() ==> (#[trigger] sold@[k]).item < self.tickets@.len()
                        && self.tickets@[sold@[k].item as int]@ == rows[k],
                i <= sold@.len(),
                texts(names@) == codes(rows).take(i as int),
            decreases sold@.len() - i,
        {
            let ghost before = texts(names@);
            assert(sold@[i as int].item < self.tickets@.len());
            let at: usize = sold[i].item;
            let name = self.tickets[at].ticket.type_code.clone();
            names.push(name);
            assert(texts(names@) =~= before.push(name@));
            assert(codes(rows).take(i + 1) =~= codes(rows).take(i as int).push(
                codes(rows)[i as int],
            ));
            i = i + 1;
        }
        assert(codes(rows).take(i as int) =~= codes(rows));
        let ordered = distinct_in_order(&names);
        let ghost list = ordered_texts(codes(rows));
        let mut out: Vec<(String, u32, i64)> = Vec::new();
        let mut k: usize = 0;
        assert(list.take(0) =~= Seq::<Seq<char>>::empty());
        assert(type_total_views(out@) =~= Seq::<(Seq<char>, u32, i64)>::empty());
        while k < ordered.len()
            invariant
                sold@.len() == rows.len(),
                forall|k: int|
                    0 <= k < sold@.len() ==> (#[trigger] sold@[k]).item < self.tickets@.len()
                        && self.tickets@[sold@[k].item as int]@ == rows[k],
                list == texts(ordered@),
                list == ordered_texts(codes(rows)),
                k <= ordered@.len(),
                type_totals(rows, list.take(k as int)) == Ok::<
                    Seq<(Seq<char>, u32, i64)>,
                    ErrorView,
                >(type_total_views(out@)),
            decreases ordered@.len() - k,
        {
            let ghost before = type_total_views(out@);
            proof {
                assert(list.take(k + 1).drop_last() =~= list.take(k as int));
                assert(list.take(k + 1).last() == ordered@[k as int]@);
            }
            let (count, sum) = self.sum_type(sold, ordered[k].as_str(), Ghost(rows));
            let sum = match checked_sum(sum) {
                Ok(n) => n,
                Err(e) => {
                    proof {
                        lemma_first_type_error(rows, list, k + 1);
                    }
                    return Err(e);
                },
            };
            let count = match checked_count(count, "ticket type count") {
                Ok(n) => n,
                Err(e) => {
                    proof {
                        lemma_first_type_error(rows, list, k + 1);
                    }
                    return Err(e);
                },
            };
            let entry = (ordered[k].clone(), count, sum);
            out.push(entry);
            assert(type_total_views(out@) =~= before.push((entry.0@, entry.1, entry.2)));
            k = k + 1;
        }
        assert(list.take(k as int) =~= list);
        Ok(out)
    }

    /// The totals of a period.
    pub fn z_report(&self, from_ts: i64, to_ts: i64) -> (r: KioskResult<ZReport>)
        ensures
            match report_of(self@, from_ts, to_ts) {
                Ok(v) => r matches Ok(x) && x@ == v,
                Err(t) => r matches Err(e) && e@ == t,
            },
    {
        let (paid, paid_sum) = self.sum_sales(from_ts, to_ts, "paid", true);
        let total_rsd = match checked_sum(paid_sum) {
            Ok(n) => n,
            Err(e) => return Err(e),
        };
        let (_, abandoned_sum) = self.sum_sales(from_ts, to_ts, "abandoned", false);
        let abandoned_rsd = match checked_sum(abandoned_sum) {
            Ok(n) => n,
            Err(e) => return Err(e),
        };
        let sold = self.sold_rows(from_ts, to_ts);
        let ghost rows = sold_between(self@, from_ts, to_ts);
        proof {
            let f = |i: usize| self.tickets@[i as int]@;
            let joined = by_sale_and_issue(self@.sales, rows);
            assert(with_items(sold@, f) == joined);
            assert(joined.len() == rows.len());
            assert(with_items(sold@, f).len() == sold@.len());
            assert forall|k: int| 0 <= k < sold@.len() implies (#[trigger] sold@[k]).item
                < self.tickets@.len() && self.tickets@[sold@[k].item as int]@ == rows[k] by {
                assert(with_items(sold@, f)[k].item == f(sold@[k].item));
                assert(joined[k].item == rows[k]);
            }
        }
        let by_type = match self.sum_types(&sold, Ghost(rows)) {
            Ok(v) => v,
            Err(e) => return Err(e),
        };
        let count_sales = match checked_count(paid, "sale count") {
            Ok(n) => n,
            Err(e) => return Err(e),
        };
        let count_tickets = match checked_count(sold.len(), "ticket count") {
            Ok(n) => n,
            Err(e) => return Err(e),
        };
        Ok(
            ZReport {
                from_ts,
                to_ts,
                count_sales,
                count_tickets,
                total_rsd,
                abandoned_rsd,
                by_type,
            },
        )
    }
}

} // verus!
