//! What holds of a sale from its price to its end.

use vstd::prelude::*;

use crate::commands::{
    claims_of, close_result, find_type, line_units, may_start, minted, non_empty_text, price_of,
    printable, probe_detail, repeated, route_of, tally, ticket_for, units, with_line, Price,
    RouteView,
};
use crate::db::laws::{law_change_reads_back, law_paid_tickets_read_back};
use crate::db::reports::{find_sale, tickets_of};
use crate::db::{
    has_sale, new_ticket_rows, sold_in, with_change, DbView, SaleChange, SaleRowView,
};
use crate::ids::{is_random_id, law_id_is_a_plain_field};
use crate::models::{
    error_text, total_quantity, CartLineView, ErrorView, KioskError, OutcomeView, SaleRecordView,
    SettingsView, TicketTypeView, TicketView,
};
use crate::payment::{end_inserted, EndView};
use crate::printer::PrinterTarget;
use crate::text::{decimal, trimmed};
use crate::token::{law_signed_token_verifies, signed, verified, ClaimsView};

verus! {

// ---------------------------------------------------------------------------
// Price and tickets
// ---------------------------------------------------------------------------

/// What a list of tickets costs, by their types.
pub open spec fn cost(of: Seq<TicketTypeView>) -> int
    decreases of.len(),
{
    if of.len() == 0 {
        0
    } else {
        cost(of.drop_last()) + of.last().price_rsd
    }
}

/// What a list of tickets costs.
pub open spec fn ticket_cost(tickets: Seq<TicketView>) -> int
    decreases tickets.len(),
{
    if tickets.len() == 0 {
        0
    } else {
        ticket_cost(tickets.drop_last()) + tickets.last().price_rsd
    }
}

proof fn lemma_cost_repeated(ty: TicketTypeView, qty: nat)
    ensures
        cost(repeated(ty, qty)) == ty.price_rsd * qty,
    decreases qty,
{
    if qty > 0 {
        let less = (qty - 1) as nat;
        lemma_cost_repeated(ty, less);
        assert(repeated(ty, qty).drop_last() =~= repeated(ty, less));
        let p = ty.price_rsd as int;
        assert(p * qty == p * less + p) by (nonlinear_arith)
            requires
                qty == less + 1,
        ;
    } else {
        let p = ty.price_rsd as int;
        assert(p * 0 == 0);
    }
}

proof fn lemma_cost_add(a: Seq<TicketTypeView>, b: Seq<TicketTypeView>)
    ensures
        cost(a + b) == cost(a) + cost(b),
    decreases b.len(),
{
    if b.len() == 0 {
        assert(a + b =~= a);
    } else {
        lemma_cost_add(a, b.drop_last());
        assert((a + b).drop_last() =~= a + b.drop_last());
    }
}

/// The price of a cart is what its tickets cost, one by one, and its number of tickets is what
/// its lines ask for.
pub proof fn law_price_is_the_sum(types: Seq<TicketTypeView>, lines: Seq<CartLineView>)
    requires
        tally(types, lines) is Ok,
    ensures
        tally(types, lines)->Ok_0.total_rsd == cost(units(types, lines)),
        tally(types, lines)->Ok_0.qty == units(types, lines).len(),
        tally(types, lines)->Ok_0.qty == total_quantity(lines),
    decreases lines.len(),
{
    if lines.len() > 0 {
        let head = lines.drop_last();
        let line = lines.last();
        law_price_is_the_sum(types, head);
        let p = tally(types, head)->Ok_0;
        assert(with_line(types, p, line) is Ok);
        lemma_cost_add(units(types, head), line_units(types, line));
        match find_type(types, line.code) {
            Some(ty) => {
                lemma_cost_repeated(ty, line.qty as nat);
            },
            None => {},
        }
        if line.qty == 0 {
            assert(line_units(types, line) =~= Seq::<TicketTypeView>::empty());
        }
    }
}

/// The first ticket type with a code is the one at this place.
proof fn lemma_find_type(types: Seq<TicketTypeView>, code: Seq<char>, k: int)
    requires
        0 <= k < types.len(),
        types[k].code == code,
        forall|j: int| 0 <= j < k ==> (#[trigger] types[j]).code != code,
    ensures
        find_type(types, code) == Some(types[k]),
    decreases types.len(),
{
    if k > 0 {
        assert(types[0].code != code);
        let rest = types.skip(1);
        assert(rest[k - 1] == types[k]);
        assert forall|j: int| 0 <= j < k - 1 implies (#[trigger] rest[j]).code != code by {
            assert(rest[j] == types[j + 1]);
        }
        lemma_find_type(rest, code, k - 1);
    }
}

proof fn lemma_no_type(types: Seq<TicketTypeView>, code: Seq<char>)
    requires
        forall|j: int| 0 <= j < types.len() ==> (#[trigger] types[j]).code != code,
    ensures
        find_type(types, code) is None,
    decreases types.len(),
{
    if types.len() > 0 {
        assert(types[0].code != code);
        let rest = types.skip(1);
        assert forall|j: int| 0 <= j < rest.len() implies (#[trigger] rest[j]).code != code by {
            assert(rest[j] == types[j + 1]);
        }
        lemma_no_type(rest, code);
    }
}

proof fn lemma_priced_is_tallied(types: Seq<TicketTypeView>, max: u32, lines: Seq<CartLineView>)
    requires
        price_of(types, max, lines) is Ok,
    ensures
        tally(types, lines) == price_of(types, max, lines),
{
}

/// The price that a visitor is asked for is what the tickets of the cart cost, one by one, and
/// their number is what its lines ask for; it is positive, and within the limit.
pub proof fn law_the_price_is_what_the_tickets_cost(
    types: Seq<TicketTypeView>,
    max: u32,
    lines: Seq<CartLineView>,
)
    requires
        price_of(types, max, lines) is Ok,
    ensures
        price_of(types, max, lines)->Ok_0.total_rsd == cost(units(types, lines)),
        price_of(types, max, lines)->Ok_0.qty == units(types, lines).len(),
        price_of(types, max, lines)->Ok_0.qty == total_quantity(lines),
        price_of(types, max, lines)->Ok_0.total_rsd > 0,
        1 <= price_of(types, max, lines)->Ok_0.qty <= max,
{
    lemma_priced_is_tallied(types, max, lines);
    law_price_is_the_sum(types, lines);
}

/// One line of tickets of one type costs the price of the type times their number.
pub proof fn law_a_line_costs_price_times_number(
    types: Seq<TicketTypeView>,
    max: u32,
    line: CartLineView,
    k: int,
)
    requires
        0 <= k < types.len(),
        types[k].code == line.code,
        forall|j: int| 0 <= j < k ==> (#[trigger] types[j]).code != line.code,
        1 <= line.qty <= max,
        types[k].price_rsd > 0,
        types[k].price_rsd * line.qty <= i64::MAX,
    ensures
        price_of(types, max, seq![line]) matches Ok(p) && p.total_rsd == types[k].price_rsd
            * line.qty && p.qty == line.qty,
{
    lemma_find_type(types, line.code, k);
    assert(seq![line].drop_last() =~= Seq::<CartLineView>::empty());
    assert(tally(types, Seq::<CartLineView>::empty()) == Ok::<Price, ErrorView>(
        Price { total_rsd: 0, qty: 0 },
    ));
    let a = types[k].price_rsd as int;
    let n = line.qty as int;
    assert(a * n > 0) by (nonlinear_arith)
        requires
            a > 0,
            n > 0,
    ;
}

/// A line more raises the price by the price of its type times its number, and the number of
/// tickets by its own; a line without tickets changes nothing, wherever the cart stands.
pub proof fn law_a_line_more_raises_the_price(
    types: Seq<TicketTypeView>,
    max: u32,
    lines: Seq<CartLineView>,
    line: CartLineView,
    k: int,
)
    ensures
        line.qty == 0 ==> price_of(types, max, lines.push(line)) == price_of(types, max, lines),
        price_of(types, max, lines) is Ok && 0 <= k < types.len() && types[k].code == line.code && (
        forall|j: int| 0 <= j < k ==> (#[trigger] types[j]).code != line.code) && types[k].price_rsd
            > 0 && price_of(types, max, lines)->Ok_0.qty + line.qty <= max && price_of(
            types,
            max,
            lines,
        )->Ok_0.total_rsd + types[k].price_rsd * line.qty <= i64::MAX ==> {
            &&& price_of(types, max, lines.push(line)) matches Ok(p)
            &&& p.total_rsd == price_of(types, max, lines)->Ok_0.total_rsd + types[k].price_rsd
                * line.qty
            &&& p.qty == price_of(types, max, lines)->Ok_0.qty + line.qty
        },
{
    assert(lines.push(line).drop_last() =~= lines);
    if line.qty > 0 && 0 <= k < types.len() && types[k].code == line.code && (forall|j: int|
        0 <= j < k ==> (#[trigger] types[j]).code != line.code) && types[k].price_rsd > 0 {
        lemma_find_type(types, line.code, k);
        let a = types[k].price_rsd as int;
        let n = line.qty as int;
        assert(a * n > 0) by (nonlinear_arith)
            requires
                a > 0,
                n > 0,
        ;
    }
}

/// What is refused: a line of a type that there is not, an empty cart, and more tickets than are
/// allowed; each says so.
pub proof fn law_bad_carts_are_refused(
    types: Seq<TicketTypeView>,
    max: u32,
    lines: Seq<CartLineView>,
    line: CartLineView,
    k: int,
)
    ensures
        price_of(types, max, Seq::empty()) == Err::<Price, ErrorView>(
            ErrorView::Other("prazna korpa"@),
        ),
        price_of(types, max, lines) is Ok && line.qty > 0 && (forall|j: int|
            0 <= j < types.len() ==> (#[trigger] types[j]).code != line.code) ==> price_of(
            types,
            max,
            lines.push(line),
        ) == Err::<Price, ErrorView>(ErrorView::Other("nepoznat tip karte: "@ + line.code)),
        price_of(types, max, lines) is Ok && 0 <= k < types.len() && types[k].code == line.code && (
        forall|j: int| 0 <= j < k ==> (#[trigger] types[j]).code != line.code) && types[k].price_rsd
            > 0 && max < price_of(types, max, lines)->Ok_0.qty + line.qty <= u32::MAX && price_of(
            types,
            max,
            lines,
        )->Ok_0.total_rsd + types[k].price_rsd * line.qty <= i64::MAX ==> price_of(
            types,
            max,
            lines.push(line),
        ) == Err::<Price, ErrorView>(
            ErrorView::Other("najviše "@ + decimal(max as int) + " karata po transakciji"@),
        ),
        price_of(types, max, lines) is Ok && 0 <= k < types.len() && types[k].code == line.code && (
        forall|j: int| 0 <= j < k ==> (#[trigger] types[j]).code != line.code) && price_of(
            types,
            max,
            lines,
        )->Ok_0.qty + line.qty > u32::MAX ==> price_of(types, max, lines.push(line)) == Err::<
            Price,
            ErrorView,
        >(ErrorView::Other("previše karata"@)),
        price_of(types, max, lines) is Ok && 0 <= k < types.len() && types[k].code == line.code && (
        forall|j: int| 0 <= j < k ==> (#[trigger] types[j]).code != line.code) && price_of(
            types,
            max,
            lines,
        )->Ok_0.qty + line.qty <= u32::MAX && price_of(types, max, lines)->Ok_0.total_rsd
            + types[k].price_rsd * line.qty > i64::MAX ==> price_of(types, max, lines.push(line))
            == Err::<Price, ErrorView>(ErrorView::Other("iznos prekoračen"@)),
{
    assert(lines.push(line).drop_last() =~= lines);
    if forall|j: int| 0 <= j < types.len() ==> (#[trigger] types[j]).code != line.code {
        lemma_no_type(types, line.code);
    }
    if 0 <= k < types.len() && types[k].code == line.code && (forall|j: int|
        0 <= j < k ==> (#[trigger] types[j]).code != line.code) {
        lemma_find_type(types, line.code, k);
        let a = types[k].price_rsd as int;
        let n = line.qty as int;
        if a > 0 {
            assert(a * n >= 0) by (nonlinear_arith)
                requires
                    a > 0,
                    n >= 0,
            ;
        } else {
            assert(a * n <= 0) by (nonlinear_arith)
                requires
                    a <= 0,
                    n >= 0,
            ;
        }
    }
}

proof fn lemma_tally_skips_empty(
    types: Seq<TicketTypeView>,
    a: Seq<CartLineView>,
    line: CartLineView,
    b: Seq<CartLineView>,
)
    requires
        line.qty == 0,
    ensures
        tally(types, a + seq![line] + b) == tally(types, a + b),
    decreases b.len(),
{
    let with = a + seq![line] + b;
    if b.len() == 0 {
        assert(with.drop_last() =~= a);
        assert(with.last() == line);
        assert(a + b =~= a);
    } else {
        lemma_tally_skips_empty(types, a, line, b.drop_last());
        assert(with.drop_last() =~= a + seq![line] + b.drop_last());
        assert((a + b).drop_last() =~= a + b.drop_last());
    }
}

/// A line without tickets makes no difference, wherever in the cart it stands; and tickets that
/// cost nothing make no sale.
pub proof fn law_empty_lines_make_no_difference(
    types: Seq<TicketTypeView>,
    max: u32,
    a: Seq<CartLineView>,
    line: CartLineView,
    b: Seq<CartLineView>,
    k: int,
)
    ensures
        line.qty == 0 ==> price_of(types, max, a + seq![line] + b) == price_of(types, max, a + b),
        0 <= k < types.len() && types[k].code == line.code && (forall|j: int|
            0 <= j < k ==> (#[trigger] types[j]).code != line.code) && line.qty > 0 && i64::MIN
            <= types[k].price_rsd * line.qty <= 0 ==> price_of(types, max, seq![line]) == Err::<
            Price,
            ErrorView,
        >(ErrorView::Other("prazna korpa"@)),
{
    if line.qty == 0 {
        lemma_tally_skips_empty(types, a, line, b);
    } else if 0 <= k < types.len() && types[k].code == line.code && (forall|j: int|
        0 <= j < k ==> (#[trigger] types[j]).code != line.code) {
        lemma_find_type(types, line.code, k);
        assert(seq![line].drop_last() =~= Seq::<CartLineView>::empty());
        assert(tally(types, Seq::<CartLineView>::empty()) == Ok::<Price, ErrorView>(
            Price { total_rsd: 0, qty: 0 },
        ));
    }
}

/// A line of a type that there is not gives no ticket.
pub proof fn law_unknown_types_give_no_tickets(
    types: Seq<TicketTypeView>,
    lines: Seq<CartLineView>,
    line: CartLineView,
)
    requires
        forall|j: int| 0 <= j < types.len() ==> (#[trigger] types[j]).code != line.code,
    ensures
        units(types, lines.push(line)) == units(types, lines),
{
    assert(lines.push(line).drop_last() =~= lines);
    lemma_no_type(types, line.code);
    assert(units(types, lines) + Seq::<TicketTypeView>::empty() =~= units(types, lines));
}

/// A cart gives one ticket for each that is asked for, line by line, of the first type with the
/// code of the line.
pub proof fn law_a_line_gives_its_tickets(
    types: Seq<TicketTypeView>,
    lines: Seq<CartLineView>,
    line: CartLineView,
    k: int,
    i: int,
)
    requires
        0 <= k < types.len(),
        types[k].code == line.code,
        forall|j: int| 0 <= j < k ==> (#[trigger] types[j]).code != line.code,
    ensures
        units(types, Seq::empty()).len() == 0,
        units(types, lines.push(line)).len() == units(types, lines).len() + line.qty,
        0 <= i < units(types, lines).len() ==> units(types, lines.push(line))[i] == units(
            types,
            lines,
        )[i],
        units(types, lines).len() <= i < units(types, lines).len() + line.qty ==> units(
            types,
            lines.push(line),
        )[i] == types[k],
{
    assert(lines.push(line).drop_last() =~= lines);
    lemma_find_type(types, line.code, k);
}

/// A ticket carries the code, the label and the price of its type, the given id and time, and a
/// token signed over exactly these.
pub proof fn law_a_ticket_is_of_its_type(
    ty: TicketTypeView,
    id: Seq<char>,
    secret: Seq<u8>,
    issued_at: i64,
)
    ensures
        ({
            let t = ticket_for(ty, id, secret, issued_at);
            &&& t.id == id
            &&& t.type_code == ty.code
            &&& t.label == ty.label
            &&& t.price_rsd == ty.price_rsd
            &&& t.issued_at == issued_at
            &&& t.qr_token == signed(
                secret,
                ClaimsView {
                    id,
                    type_code: ty.code,
                    price_rsd: ty.price_rsd,
                    issued_at,
                },
            )
        }),
{
}

/// The tickets that are minted for a cart: one for each unit, in order, each of its type and
/// under an id of its own.
pub proof fn law_minted_tickets_are_the_units(
    tickets: Seq<TicketView>,
    of: Seq<TicketTypeView>,
    secret: Seq<u8>,
    issued_at: i64,
    i: int,
)
    requires
        minted(tickets, of, secret, issued_at),
        0 <= i < of.len(),
    ensures
        tickets.len() == of.len(),
        is_random_id(tickets[i].id),
        tickets[i].type_code == of[i].code,
        tickets[i].label == of[i].label,
        tickets[i].price_rsd == of[i].price_rsd,
        tickets[i].issued_at == issued_at,
        claims_of(tickets[i]) == (ClaimsView {
            id: tickets[i].id,
            type_code: of[i].code,
            price_rsd: of[i].price_rsd,
            issued_at,
        }),
        tickets[i].qr_token == signed(secret, claims_of(tickets[i])),
{
    assert(is_random_id(tickets[i].id));
}

/// The tickets of a paid cart cost exactly what the session asked for.
pub proof fn law_paid_tickets_cost_what_was_asked(
    types: Seq<TicketTypeView>,
    max: u32,
    lines: Seq<CartLineView>,
    tickets: Seq<TicketView>,
    secret: Seq<u8>,
    issued_at: i64,
)
    requires
        price_of(types, max, lines) is Ok,
        minted(tickets, units(types, lines), secret, issued_at),
    ensures
        tickets.len() == price_of(types, max, lines)->Ok_0.qty,
        ticket_cost(tickets) == price_of(types, max, lines)->Ok_0.total_rsd,
{
    lemma_priced_is_tallied(types, max, lines);
    law_minted_tickets_match_the_price(types, lines, tickets, secret, issued_at);
}

/// A list of tickets costs what its tickets cost together.
pub proof fn law_costs_add_up(tickets: Seq<TicketView>, t: TicketView, of: Seq<TicketTypeView>, ty:
    TicketTypeView)
    ensures
        ticket_cost(Seq::empty()) == 0,
        ticket_cost(tickets.push(t)) == ticket_cost(tickets) + t.price_rsd,
        cost(Seq::empty()) == 0,
        cost(of.push(ty)) == cost(of) + ty.price_rsd,
{
    assert(tickets.push(t).drop_last() =~= tickets);
    assert(of.push(ty).drop_last() =~= of);
}

/// What the visitor is told at the end: the outcome of a paid sale that is stored; that a paid
/// sale could not be stored, with the amount and the reason; the cancellation, unless storing the
/// cash taken failed; or the error that ended the session.
pub proof fn law_the_visitor_is_told_the_end(
    sale_id: Seq<char>,
    total: i64,
    n: i64,
    e: ErrorView,
    stored: Result<(), ErrorView>,
)
    ensures
        close_result(sale_id, total, EndView::Paid(n), Ok(())) == Ok::<OutcomeView, ErrorView>(
            OutcomeView { sale_id, inserted_rsd: n, total_rsd: total },
        ),
        close_result(sale_id, total, EndView::Paid(n), Err(e)) == Err::<OutcomeView, ErrorView>(
            ErrorView::Other(
                "naplaćeno "@ + decimal(n as int) + " RSD, ali upis karata nije uspeo: "@
                    + error_text(e) + ". Sačuvano u recovery — pozovite osoblje."@,
            ),
        ),
        close_result(sale_id, total, EndView::Cancelled(n), Err(e)) == Err::<
            OutcomeView,
            ErrorView,
        >(
            if n > 0 {
                e
            } else {
                ErrorView::Other("transakcija otkazana"@)
            },
        ),
        close_result(sale_id, total, EndView::Cancelled(n), Ok(())) == Err::<
            OutcomeView,
            ErrorView,
        >(ErrorView::Other("transakcija otkazana"@)),
        close_result(sale_id, total, EndView::Failed(e, n), stored) == Err::<
            OutcomeView,
            ErrorView,
        >(e),
        end_inserted(EndView::Paid(n)) == n,
        end_inserted(EndView::Cancelled(n)) == n,
        end_inserted(EndView::Failed(e, n)) == n,
{
}

/// Tickets are printed for a visitor exactly where the sale is there and paid, and then all of
/// them.
pub proof fn law_paid_sales_are_printable(s: SaleRecordView, sale_id: Seq<char>)
    ensures
        printable(None, sale_id) == Err::<Seq<TicketView>, ErrorView>(
            ErrorView::Other("prodaja nije pronađena: "@ + sale_id),
        ),
        s.status == "paid"@ ==> printable(Some(s), sale_id) == Ok::<Seq<TicketView>, ErrorView>(
            s.tickets,
        ),
        s.status != "paid"@ ==> printable(Some(s), sale_id) == Err::<Seq<TicketView>, ErrorView>(
            ErrorView::Other("karte se mogu štampati samo za plaćenu transakciju"@),
        ),
{
}

/// The way to the printer: the spooler where a printer is named, else the serial port where one
/// is, else USB. A name of white space alone is none.
pub proof fn law_the_spooler_comes_first(s: SettingsView, text: Seq<char>)
    ensures
        non_empty_text(None) is None,
        non_empty_text(Some(text)) == if trimmed(text).len() > 0 {
            Some(text)
        } else {
            None
        },
        s.printer_windows_name matches Some(name) && trimmed(name).len() > 0 ==> route_of(s)
            == RouteView::Windows(s.printer_windows_name->0),
        !(s.printer_windows_name matches Some(name) && trimmed(name).len() > 0) && (s.printer_port
            matches Some(port) && trimmed(port).len() > 0) ==> route_of(s) == RouteView::Serial(
            s.printer_port->0,
        ),
        !(s.printer_windows_name matches Some(name) && trimmed(name).len() > 0) && !(s.printer_port
            matches Some(port) && trimmed(port).len() > 0) ==> route_of(s) == RouteView::Usb(
            PrinterTarget {
                vendor_id: s.printer_vendor_id,
                product_id: s.printer_product_id,
            },
        ),
{
}

/// A session may start exactly where none is active, and a probe shows what it found or why it
/// failed.
pub proof fn law_probes_are_shown(active: bool, text: String, e: KioskError)
    ensures
        may_start(active) <==> !active,
        probe_detail(Ok(text)) == (true, text@),
        probe_detail(Err(e)) == (false, error_text(e@)),
{
}

proof fn lemma_minted_cost(
    tickets: Seq<TicketView>,
    of: Seq<TicketTypeView>,
    secret: Seq<u8>,
    issued_at: i64,
)
    requires
        minted(tickets, of, secret, issued_at),
    ensures
        ticket_cost(tickets) == cost(of),
    decreases tickets.len(),
{
    if tickets.len() > 0 {
        let head = tickets.drop_last();
        let rest = of.drop_last();
        assert forall|i: int| 0 <= i < head.len() implies is_random_id((#[trigger] head[i]).id)
            && head[i] == ticket_for(rest[i], head[i].id, secret, issued_at) by {
            assert(head[i] == tickets[i]);
            assert(rest[i] == of[i]);
        }
        lemma_minted_cost(head, rest, secret, issued_at);
        assert(tickets[tickets.len() - 1] == tickets.last());
    }
}

/// The visitor gets as many tickets as were asked for, and together they cost what was to be
/// paid.
pub proof fn law_minted_tickets_match_the_price(
    types: Seq<TicketTypeView>,
    lines: Seq<CartLineView>,
    tickets: Seq<TicketView>,
    secret: Seq<u8>,
    issued_at: i64,
)
    requires
        tally(types, lines) is Ok,
        minted(tickets, units(types, lines), secret, issued_at),
    ensures
        tickets.len() == tally(types, lines)->Ok_0.qty,
        ticket_cost(tickets) == tally(types, lines)->Ok_0.total_rsd,
{
    law_price_is_the_sum(types, lines);
    lemma_minted_cost(tickets, units(types, lines), secret, issued_at);
}

/// Every minted ticket is verified at the entrance, and claims what is printed on it. (The code
/// of its type must not be empty or have a bar in it.)
pub proof fn law_minted_tickets_verify(
    tickets: Seq<TicketView>,
    of: Seq<TicketTypeView>,
    secret: Seq<u8>,
    issued_at: i64,
    i: int,
)
    requires
        minted(tickets, of, secret, issued_at),
        0 <= i < tickets.len(),
        of[i].code.len() > 0,
        !of[i].code.contains('|'),
    ensures
        verified(secret, tickets[i].qr_token) == Ok::<ClaimsView, ErrorView>(
            claims_of(tickets[i]),
        ),
{
    law_id_is_a_plain_field(tickets[i].id);
    law_signed_token_verifies(secret, claims_of(tickets[i]));
}

// ---------------------------------------------------------------------------
// Money
// ---------------------------------------------------------------------------

/// The tables after the end of a payment was stored.
pub open spec fn closed(d: DbView, sale_id: Seq<char>, end: EndView, tickets: Seq<TicketView>) ->
    DbView {
    match end {
        EndView::Paid(n) => DbView {
            sales: with_change(d.sales, sale_id, SaleChange::Paid(n)),
            tickets: d.tickets + new_ticket_rows(sale_id, tickets),
            ..d
        },
        _ => if end_inserted(end) > 0 {
            DbView {
                sales: with_change(
                    d.sales,
                    sale_id,
                    SaleChange::Abandoned(end_inserted(end)),
                ),
                ..d
            }
        } else {
            DbView { sales: d.sales.filter(|r: SaleRowView| r.id != sale_id), ..d }
        },
    }
}

/// Every note that is credited is on record at once: what is read of the sale after a credit
/// was stored is the running total.
pub proof fn law_credit_is_on_record(d: DbView, sale_id: Seq<char>, inserted: i64)
    requires
        has_sale(d.sales, sale_id),
    ensures
        ({
            let r = find_sale(
                with_change(d.sales, sale_id, SaleChange::Inserted(inserted)),
                sale_id,
            );
            r is Some && r->0.inserted_rsd == inserted && r->0.status == find_sale(
                d.sales,
                sale_id,
            )->0.status
        }),
{
    law_change_reads_back(d.sales, sale_id, SaleChange::Inserted(inserted), sale_id);
}

/// Cash that was taken is on record after every kind of end: the sale stands there with the
/// amount, as paid or as abandoned.
pub proof fn law_taken_cash_is_on_record(
    d: DbView,
    sale_id: Seq<char>,
    end: EndView,
    tickets: Seq<TicketView>,
)
    requires
        has_sale(d.sales, sale_id),
        end_inserted(end) > 0,
    ensures
        ({
            let r = find_sale(closed(d, sale_id, end, tickets).sales, sale_id);
            &&& r is Some
            &&& r->0.inserted_rsd == end_inserted(end)
            &&& r->0.total_rsd == find_sale(d.sales, sale_id)->0.total_rsd
            &&& r->0.status == if end is Paid {
                "paid"@
            } else {
                "abandoned"@
            }
        }),
{
    let n = end_inserted(end);
    law_change_reads_back(d.sales, sale_id, SaleChange::Paid(n), sale_id);
    law_change_reads_back(d.sales, sale_id, SaleChange::Abandoned(n), sale_id);
}

/// A paid sale has its tickets, exactly those that were minted, in their order; an end that is
/// not paid issues none.
pub proof fn law_only_paid_sales_have_tickets(
    d: DbView,
    sale_id: Seq<char>,
    end: EndView,
    tickets: Seq<TicketView>,
    of: Seq<TicketTypeView>,
    secret: Seq<u8>,
    issued_at: i64,
)
    requires
        has_sale(d.sales, sale_id),
        !sold_in(d.tickets, sale_id),
        minted(tickets, of, secret, issued_at),
    ensures
        end is Paid ==> tickets_of(closed(d, sale_id, end, tickets).tickets, sale_id) == tickets,
        !(end is Paid) ==> closed(d, sale_id, end, tickets).tickets == d.tickets,
{
    if let EndView::Paid(n) = end {
        assert forall|i: int| 0 <= i < tickets.len() implies (#[trigger] tickets[i]).issued_at
            == issued_at by {
            assert(tickets[i] == ticket_for(of[i], tickets[i].id, secret, issued_at));
        }
        law_paid_tickets_read_back(d, sale_id, n, tickets, issued_at);
    }
}

// ---------------------------------------------------------------------------
// One session at a time
// ---------------------------------------------------------------------------

/// What happens to the reservation of the payment session: somebody asks for it, or a session
/// that has it ends.
pub enum SessionRequest {
    Start,
    End,
}

/// The reservation, and how many sessions are running.
pub struct Reservation {
    pub active: bool,
    pub running: int,
}

/// The reservation after a request. A start that may not be leaves it as it is; every end gives
/// it back.
pub open spec fn requested(r: Reservation, request: SessionRequest) -> Reservation {
    match request {
        SessionRequest::Start => if may_start(r.active) {
            Reservation { active: true, running: r.running + 1 }
        } else {
            r
        },
        SessionRequest::End => Reservation { active: false, running: r.running - 1 },
    }
}

/// The reservation after a list of requests, from no session at all.
pub open spec fn after_requests(requests: Seq<SessionRequest>) -> Reservation
    decreases requests.len(),
{
    if requests.len() == 0 {
        Reservation { active: false, running: 0 }
    } else {
        requested(after_requests(requests.drop_last()), requests.last())
    }
}

/// Whether only sessions that were running have ended.
pub open spec fn ends_were_running(requests: Seq<SessionRequest>) -> bool
    decreases requests.len(),
{
    requests.len() > 0 ==> ends_were_running(requests.drop_last()) && (requests.last() is End
        ==> after_requests(requests.drop_last()).running > 0)
}

/// At most one payment session runs at a time, whoever asks for one and however often: the
/// reservation is taken exactly while a session is running, so the next start is refused exactly
/// then, and granted again after its end.
pub proof fn law_one_session_at_a_time(requests: Seq<SessionRequest>)
    requires
        ends_were_running(requests),
    ensures
        0 <= after_requests(requests).running <= 1,
        after_requests(requests).active <==> after_requests(requests).running == 1,
        may_start(after_requests(requests).active) <==> after_requests(requests).running == 0,
        requested(after_requests(requests), SessionRequest::Start).running == 1,
    decreases requests.len(),
{
    if requests.len() > 0 {
        law_one_session_at_a_time(requests.drop_last());
    }
}

} // verus!
