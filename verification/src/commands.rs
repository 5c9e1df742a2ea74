//! What the kiosk does for a visitor: pricing, minting, closing a sale, printing.

pub mod laws;

use vstd::prelude::*;
use vstd::string::*;

use crate::db::{has_sale, pending_sale, Db, DbView};
use crate::ids::{is_random_id, new_id};
use crate::models::{
    copy_opt, error_text, opt_text, ticket_views, type_views, Cart, CartLineView, DeviceStatus,
    DeviceStatusView,
    ErrorView, KioskError, KioskResult, OutcomeView, PaymentOutcome, PrintedTicket, SaleRecord,
    SaleRecordView, Settings, SettingsView, TicketType, TicketTypeView, TicketView,
};
use crate::payment::{EndView, PaymentEnd};
use crate::printer::PrinterTarget;
use crate::text::{decimal, decimal_i64, decimal_u64, same_text, trim, trimmed};
use crate::token::{sign, signed, ClaimsView, TicketClaims};

verus! {

pub open spec fn other(message: Seq<char>) -> ErrorView {
    ErrorView::Other(message)
}

fn refuse(message: &str) -> (e: KioskError)
    ensures
        e@ == other(message@),
{
    KioskError::Other(message.to_string())
}

// ---------------------------------------------------------------------------
// Pricing
// ---------------------------------------------------------------------------

/// The first ticket type with this code.
pub open spec fn find_type(types: Seq<TicketTypeView>, code: Seq<char>) -> Option<TicketTypeView>
    decreases types.len(),
{
    if types.len() == 0 {
        None
    } else if types[0].code == code {
        Some(types[0])
    } else {
        find_type(types.skip(1), code)
    }
}

/// What a cart comes to.
#[derive(Debug, Clone, Copy, PartialEq, Eq, Structural)]
pub struct Price {
    pub total_rsd: i64,
    pub qty: u32,
}

/// A running price with one more line. A line without tickets counts for nothing.
pub open spec fn with_line(types: Seq<TicketTypeView>, p: Price, line: CartLineView) -> Result<
    Price,
    ErrorView,
> {
    if line.qty == 0 {
        Ok(p)
    } else {
        match find_type(types, line.code) {
            None => Err(other("nepoznat tip karte: "@ + line.code)),
            Some(ty) => {
                let line_total = ty.price_rsd * line.qty;
                if p.qty + line.qty > u32::MAX {
                    Err(other("previše karata"@))
                } else if !(i64::MIN <= line_total <= i64::MAX) {
                    Err(other("iznos prekoračen"@))
                } else if !(i64::MIN <= p.total_rsd + line_total <= i64::MAX) {
                    Err(other("iznos prekoračen"@))
                } else {
                    Ok(
                        Price {
                            total_rsd: (p.total_rsd + line_total) as i64,
                            qty: (p.qty + line.qty) as u32,
                        },
                    )
                }
            },
        }
    }
}

/// The price of the lines, or the error of the first line that has one.
pub open spec fn tally(types: Seq<TicketTypeView>, lines: Seq<CartLineView>) -> Result<
    Price,
    ErrorView,
>
    decreases lines.len(),
{
    if lines.len() == 0 {
        Ok(Price { total_rsd: 0, qty: 0 })
    } else {
        match tally(types, lines.drop_last()) {
            Err(e) => Err(e),
            Ok(p) => with_line(types, p, lines.last()),
        }
    }
}

/// The price of a cart: it must not be empty, and not hold more tickets than allowed.
pub open spec fn price_of(types: Seq<TicketTypeView>, max: u32, lines: Seq<CartLineView>) -> Result<
    Price,
    ErrorView,
> {
    match tally(types, lines) {
        Err(e) => Err(e),
        Ok(p) => if p.qty == 0 || p.total_rsd <= 0 {
            Err(other("prazna korpa"@))
        } else if p.qty > max {
            Err(other("najviše "@ + decimal(max as int) + " karata po transakciji"@))
        } else {
            Ok(p)
        },
    }
}

fn type_index(types: &[TicketType], code: &str) -> (r: Option<usize>)
    ensures
        match find_type(type_views(types@), code@) {
            Some(v) => r matches Some(i) && i < types@.len() && types@[i as int]@ == v,
            None => r is None,
        },
{
    let ghost all = type_views(types@);
    let mut i: usize = 0;
    assert(all.skip(0) =~= all);
    while i < types.len()
        invariant
            all == type_views(types@),
            i <= types@.len(),
            find_type(all, code@) == find_type(all.skip(i as int), code@),
        decreases types@.len() - i,
    {
        assert(all.skip(i as int)[0] == types@[i as int]@);
        assert(all.skip(i as int).skip(1) =~= all.skip(i + 1));
        if same_text(types[i].code.as_str(), code) {
            return Some(i);
        }
        i = i + 1;
    }
    None
}

fn add_line(types: &[TicketType], p: Price, code: &String, qty: u32) -> (r: KioskResult<Price>)
    ensures
        match with_line(type_views(types@), p, (CartLineView { code: code@, qty })) {
            Ok(v) => r matches Ok(x) && x == v,
            Err(t) => r matches Err(e) && e@ == t,
        },
{
    if qty == 0 {
        return Ok(p);
    }
    let price_rsd: i64 = match type_index(types, code.as_str()) {
        Some(i) => types[i].price_rsd,
        None => return Err(
            KioskError::Other("nepoznat tip karte: ".to_string().concat(code.as_str())),
        ),
    };
    let qty_total: u32 = match p.qty.checked_add(qty) {
        Some(n) => n,
        None => return Err(refuse("previše karata")),
    };
    let line_total: i64 = match price_rsd.checked_mul(qty as i64) {
        Some(n) => n,
        None => return Err(refuse("iznos prekoračen")),
    };
    let total_rsd: i64 = match p.total_rsd.checked_add(line_total) {
        Some(n) => n,
        None => return Err(refuse("iznos prekoračen")),
    };
    Ok(Price { total_rsd, qty: qty_total })
}

proof fn lemma_first_line_error(types: Seq<TicketTypeView>, lines: Seq<CartLineView>, n: int)
    requires
        0 <= n <= lines.len(),
        tally(types, lines.take(n)) is Err,
    ensures
        tally(types, lines) == tally(types, lines.take(n)),
    decreases lines.len() - n,
{
    if n == lines.len() {
        assert(lines.take(n) =~= lines);
    } else {
        assert(lines.take(n + 1).drop_last() =~= lines.take(n));
        lemma_first_line_error(types, lines, n + 1);
    }
}

/// Prices a cart.
pub fn price_cart(settings: &Settings, cart: &Cart) -> (r: KioskResult<Price>)
    ensures
        match price_of(settings@.ticket_types, settings@.max_total_tickets, cart@) {
            Ok(v) => r matches Ok(x) && x == v,
            Err(t) => r matches Err(e) && e@ == t,
        },
{
    let ghost types = settings@.ticket_types;
    let ghost lines = cart@;
    let mut p = Price { total_rsd: 0, qty: 0 };
    let mut i: usize = 0;
    assert(lines.take(0) =~= Seq::<CartLineView>::empty());
    while i < cart.lines.len()
        invariant
            types == type_views(settings.ticket_types@),
            lines == cart@,
            i <= cart.lines@.len(),
            tally(types, lines.take(i as int)) == Ok::<Price, ErrorView>(p),
        decreases cart.lines@.len() - i,
    {
        proof {
            assert(lines.take(i + 1).drop_last() =~= lines.take(i as int));
            assert(lines.take(i + 1).last() == cart.lines@[i as int]@);
        }
        match add_line(&settings.ticket_types, p, &cart.lines[i].code, cart.lines[i].qty) {
            Ok(next) => {
                p = next;
            },
            Err(e) => {
                proof {
                    lemma_first_line_error(types, lines, i + 1);
                }
                return Err(e);
            },
        }
        i = i + 1;
    }
    assert(lines.take(i as int) =~= lines);
    if p.qty == 0 || p.total_rsd <= 0 {
        return Err(refuse("prazna korpa"));
    }
    if p.qty > settings.max_total_tickets {
        return Err(
            KioskError::Other(
                "najviše ".to_string().concat(
                    decimal_u64(settings.max_total_tickets as u64).as_str(),
                ).concat(" karata po transakciji"),
            ),
        );
    }
    Ok(p)
}

// ---------------------------------------------------------------------------
// Minting
// ---------------------------------------------------------------------------

/// A number of tickets of one type.
pub open spec fn repeated(ty: TicketTypeView, qty: nat) -> Seq<TicketTypeView> {
    Seq::new(qty, |i: int| ty)
}

/// The tickets of one line. A line of an unknown type has none.
pub open spec fn line_units(types: Seq<TicketTypeView>, line: CartLineView) -> Seq<
    TicketTypeView,
> {
    match find_type(types, line.code) {
        Some(ty) => repeated(ty, line.qty as nat),
        None => Seq::empty(),
    }
}

/// The tickets of a cart, one by one, each by its type.
pub open spec fn units(types: Seq<TicketTypeView>, lines: Seq<CartLineView>) -> Seq<TicketTypeView>
    decreases lines.len(),
{
    if lines.len() == 0 {
        Seq::empty()
    } else {
        units(types, lines.drop_last()) + line_units(types, lines.last())
    }
}

/// What a ticket claims.
pub open spec fn claims_of(t: TicketView) -> ClaimsView {
    ClaimsView {
        id: t.id,
        type_code: t.type_code,
        price_rsd: t.price_rsd,
        issued_at: t.issued_at,
    }
}

/// A ticket of this type under this id.
pub open spec fn ticket_for(
    ty: TicketTypeView,
    id: Seq<char>,
    secret: Seq<u8>,
    issued_at: i64,
) -> TicketView {
    TicketView {
        id,
        type_code: ty.code,
        label: ty.label,
        price_rsd: ty.price_rsd,
        issued_at,
        qr_token: signed(
            secret,
            ClaimsView { id, type_code: ty.code, price_rsd: ty.price_rsd, issued_at },
        ),
    }
}

/// Whether these are the tickets for these units, each under a random id of its own.
pub open spec fn minted(
    tickets: Seq<TicketView>,
    of: Seq<TicketTypeView>,
    secret: Seq<u8>,
    issued_at: i64,
) -> bool {
    &&& tickets.len() == of.len()
    &&& forall|i: int|
        0 <= i < tickets.len() ==> is_random_id((#[trigger] tickets[i]).id) && tickets[i]
            == ticket_for(of[i], tickets[i].id, secret, issued_at)
}

/// Mints a ticket under a given id.
pub fn mint_ticket(ty: &TicketType, id: String, secret: &[u8], issued_at: i64) -> (r:
    PrintedTicket)
    ensures
        r@ == ticket_for(ty@, id@, secret@, issued_at),
{
    let claims = TicketClaims {
        id: id.clone(),
        type_code: ty.code.clone(),
        price_rsd: ty.price_rsd,
        issued_at,
    };
    let qr_token = sign(secret, &claims);
    PrintedTicket {
        id,
        type_code: ty.code.clone(),
        label: ty.label.clone(),
        price_rsd: ty.price_rsd,
        issued_at,
        qr_token,
    }
}

/// Mints the tickets of a cart, all with the same time of issue.
pub fn mint_tickets(settings: &Settings, cart: &Cart, secret: &[u8], issued_at: i64) -> (r: Vec<
    PrintedTicket,
>)
    ensures
        minted(
            ticket_views(r@),
            units(settings@.ticket_types, cart@),
            secret@,
            issued_at,
        ),
{
    let ghost types = settings@.ticket_types;
    let ghost lines = cart@;
    let mut out: Vec<PrintedTicket> = Vec::new();
    let mut i: usize = 0;
    assert(lines.take(0) =~= Seq::<CartLineView>::empty());
    while i < cart.lines.len()
        invariant
            types == type_views(settings.ticket_types@),
            lines == cart@,
            i <= cart.lines@.len(),
            minted(ticket_views(out@), units(types, lines.take(i as int)), secret@, issued_at),
        decreases cart.lines@.len() - i,
    {
        let ghost before = units(types, lines.take(i as int));
        let ghost line = cart.lines@[i as int]@;
        proof {
            assert(lines.take(i + 1).drop_last() =~= lines.take(i as int));
            assert(lines.take(i + 1).last() == line);
        }
        let qty: u32 = cart.lines[i].qty;
        match type_index(&settings.ticket_types, cart.lines[i].code.as_str()) {
            Some(at) => {
                let ghost ty = settings.ticket_types@[at as int]@;
                let mut k: u32 = 0;
                assert(before + repeated(ty, 0) =~= before);
                while k < qty
                    invariant
                        k <= qty,
                        at < settings.ticket_types@.len(),
                        ty == settings.ticket_types@[at as int]@,
                        minted(
                            ticket_views(out@),
                            before + repeated(ty, k as nat),
                            secret@,
                            issued_at,
                        ),
                    decreases qty - k,
                {
                    let ghost so_far = ticket_views(out@);
                    let t = mint_ticket(&settings.ticket_types[at], new_id(), secret, issued_at);
                    out.push(t);
                    proof {
                        assert(ticket_views(out@) =~= so_far.push(t@));
                        let more = before + repeated(ty, (k + 1) as nat);
                        assert(more =~= (before + repeated(ty, k as nat)).push(ty));
                        assert forall|j: int| 0 <= j < ticket_views(out@).len() implies
                            is_random_id((#[trigger] ticket_views(out@)[j]).id) && ticket_views(
                            out@,
                        )[j] == ticket_for(
                            more[j],
                            ticket_views(out@)[j].id,
                            secret@,
                            issued_at,
                        ) by {
                            if j < so_far.len() {
                                assert(ticket_views(out@)[j] == so_far[j]);
                            }
                        }
                    }
                    k = k + 1;
                }
            },
            None => {
                assert(before + Seq::<TicketTypeView>::empty() =~= before);
            },
        }
        i = i + 1;
    }
    assert(lines.take(i as int) =~= lines);
    out
}

// ---------------------------------------------------------------------------
// Closing a sale
// ---------------------------------------------------------------------------

/// A sale whose payment is under way.
pub struct OpenSale {
    pub sale_id: String,
    pub total_rsd: i64,
}

/// Opens a sale for a cart under a given id: prices it, and stores the pending row before any
/// cash is taken.
pub fn open_sale(
    db: &mut Db,
    settings: &Settings,
    cart: &Cart,
    sale_id: String,
    now: i64,
) -> (r: KioskResult<OpenSale>)
    ensures
        match price_of(settings@.ticket_types, settings@.max_total_tickets, cart@) {
            Err(t) => {
                &&& r matches Err(e)
                &&& e@ == t
                &&& final(db)@ == old(db)@
            },
            Ok(p) => if has_sale(old(db)@.sales, sale_id@) {
                &&& r matches Err(e)
                &&& e@ == ErrorView::Db("UNIQUE constraint failed: sales.id"@)
                &&& final(db)@ == old(db)@
            } else {
                &&& r matches Ok(sale)
                &&& sale.sale_id@ == sale_id@
                &&& sale.total_rsd == p.total_rsd
                &&& final(db)@ == (DbView {
                    sales: old(db)@.sales.push(
                        pending_sale(sale_id@, now, p.total_rsd, p.qty),
                    ),
                    ..old(db)@
                })
            },
        },
{
    let price = match price_cart(settings, cart) {
        Ok(p) => p,
        Err(e) => return Err(e),
    };
    match db.create_pending_sale(sale_id.as_str(), now, price.total_rsd, price.qty) {
        Ok(_) => Ok(OpenSale { sale_id, total_rsd: price.total_rsd }),
        Err(e) => Err(e),
    }
}

/// Opens a sale for a cart under a new random id.
pub fn start_payment(db: &mut Db, settings: &Settings, cart: &Cart, now: i64) -> (r: KioskResult<
    OpenSale,
>)
    ensures
        match price_of(settings@.ticket_types, settings@.max_total_tickets, cart@) {
            Err(t) => {
                &&& r matches Err(e)
                &&& e@ == t
                &&& final(db)@ == old(db)@
            },
            Ok(p) => match r {
                Ok(sale) => {
                    &&& is_random_id(sale.sale_id@)
                    &&& !has_sale(old(db)@.sales, sale.sale_id@)
                    &&& sale.total_rsd == p.total_rsd
                    &&& final(db)@ == (DbView {
                        sales: old(db)@.sales.push(
                            pending_sale(sale.sale_id@, now, p.total_rsd, p.qty),
                        ),
                        ..old(db)@
                    })
                },
                Err(e) => {
                    &&& e@ == ErrorView::Db("UNIQUE constraint failed: sales.id"@)
                    &&& exists|id: Seq<char>|
                        is_random_id(id) && #[trigger] has_sale(old(db)@.sales, id)
                    &&& final(db)@ == old(db)@
                },
            },
        },
{
    open_sale(db, settings, cart, new_id(), now)
}

/// What has to be stored when a payment has ended.
pub enum CloseAction {
    /// The sale is paid, with these tickets.
    Finalize { inserted: i64, tickets: Vec<PrintedTicket> },
    /// Cash was taken, but not enough.
    Abandon { inserted: i64 },
    /// No cash was taken.
    Delete,
}

/// A paid sale that could not be stored, for the recovery journal.
pub struct Recovery {
    pub sale_id: String,
    pub inserted_rsd: i64,
    pub total_rsd: i64,
    pub error: String,
    pub tickets: Vec<PrintedTicket>,
}

pub struct RecoveryView {
    pub sale_id: Seq<char>,
    pub inserted_rsd: i64,
    pub total_rsd: i64,
    pub error: Seq<char>,
    pub tickets: Seq<TicketView>,
}

impl View for Recovery {
    type V = RecoveryView;

    open spec fn view(&self) -> RecoveryView {
        RecoveryView {
            sale_id: self.sale_id@,
            inserted_rsd: self.inserted_rsd,
            total_rsd: self.total_rsd,
            error: self.error@,
            tickets: ticket_views(self.tickets@),
        }
    }
}

/// How a sale was closed: what the visitor is told, and what goes into the recovery journal.
pub struct Closing {
    pub result: KioskResult<PaymentOutcome>,
    pub recovery: Option<Recovery>,
}

/// What has to be stored when a payment has ended. Tickets are minted only now, and only
/// where the sale is paid.
pub fn plan_close(
    settings: &Settings,
    cart: &Cart,
    secret: &[u8],
    end: &PaymentEnd,
    issued_at: i64,
) -> (r: CloseAction)
    ensures
        match end@ {
            EndView::Paid(n) => r matches CloseAction::Finalize { inserted, tickets } && inserted
                == n && minted(
                ticket_views(tickets@),
                units(settings@.ticket_types, cart@),
                secret@,
                issued_at,
            ),
            EndView::Cancelled(n) => if n > 0 {
                r matches CloseAction::Abandon { inserted } && inserted == n
            } else {
                r is Delete
            },
            EndView::Failed(_, n) => if n > 0 {
                r matches CloseAction::Abandon { inserted } && inserted == n
            } else {
                r is Delete
            },
        },
{
    let inserted: i64 = match end {
        PaymentEnd::Paid(n) => {
            let tickets = mint_tickets(settings, cart, secret, issued_at);
            return CloseAction::Finalize { inserted: *n, tickets };
        },
        PaymentEnd::Cancelled(n) => *n,
        PaymentEnd::Failed(_, n) => *n,
    };
    if inserted > 0 {
        CloseAction::Abandon { inserted }
    } else {
        CloseAction::Delete
    }
}

/// The message on a paid sale that could not be stored.
pub open spec fn unsaved_text(inserted: i64, error: ErrorView) -> Seq<char> {
    "naplaćeno "@ + decimal(inserted as int) + " RSD, ali upis karata nije uspeo: "@ + error_text(
        error,
    ) + ". Sačuvano u recovery — pozovite osoblje."@
}

/// What the visitor is told, for each end and each outcome of storing it.
pub open spec fn close_result(
    sale_id: Seq<char>,
    total: i64,
    end: EndView,
    stored: Result<(), ErrorView>,
) -> Result<OutcomeView, ErrorView> {
    match end {
        EndView::Paid(inserted) => match stored {
            Ok(_) => Ok(OutcomeView { sale_id, inserted_rsd: inserted, total_rsd: total }),
            Err(e) => Err(other(unsaved_text(inserted, e))),
        },
        EndView::Cancelled(inserted) => match stored {
            Err(e) if inserted > 0 => Err(e),
            _ => Err(other("transakcija otkazana"@)),
        },
        EndView::Failed(e, _) => Err(e),
    }
}

pub open spec fn stored_view(stored: KioskResult<()>) -> Result<(), ErrorView> {
    match stored {
        Ok(_) => Ok(()),
        Err(e) => Err(e@),
    }
}

/// What a sale comes to once its end was stored, or could not be. A paid sale that could not
/// be stored goes into the recovery journal.
pub fn settle(
    sale: OpenSale,
    end: PaymentEnd,
    tickets: Vec<PrintedTicket>,
    stored: KioskResult<()>,
) -> (r: Closing)
    ensures
        match close_result(sale.sale_id@, sale.total_rsd, end@, stored_view(stored)) {
            Ok(v) => r.result matches Ok(x) && x@ == v,
            Err(t) => r.result matches Err(e) && e@ == t,
        },
        match (end@, stored_view(stored)) {
            (EndView::Paid(inserted), Err(e)) => r.recovery matches Some(x) && x@ == (
            RecoveryView {
                sale_id: sale.sale_id@,
                inserted_rsd: inserted,
                total_rsd: sale.total_rsd,
                error: error_text(e),
                tickets: ticket_views(tickets@),
            }),
            _ => r.recovery is None,
        },
{
    match end {
        PaymentEnd::Paid(inserted) => match stored {
            Ok(_) => Closing {
                result: Ok(
                    PaymentOutcome {
                        sale_id: sale.sale_id,
                        inserted_rsd: inserted,
                        total_rsd: sale.total_rsd,
                    },
                ),
                recovery: None,
            },
            Err(e) => {
                let message = "naplaćeno ".to_string().concat(
                    decimal_i64(inserted).as_str(),
                ).concat(" RSD, ali upis karata nije uspeo: ").concat(
                    e.message().as_str(),
                ).concat(". Sačuvano u recovery — pozovite osoblje.");
                let recovery = Recovery {
                    sale_id: sale.sale_id,
                    inserted_rsd: inserted,
                    total_rsd: sale.total_rsd,
                    error: e.message(),
                    tickets,
                };
                Closing { result: Err(KioskError::Other(message)), recovery: Some(recovery) }
            },
        },
        PaymentEnd::Cancelled(inserted) => {
            let result = match stored {
                Err(e) => if inserted > 0 {
                    Err(e)
                } else {
                    Err(refuse("transakcija otkazana"))
                },
                Ok(_) => Err(refuse("transakcija otkazana")),
            };
            Closing { result, recovery: None }
        },
        PaymentEnd::Failed(e, _) => Closing { result: Err(e), recovery: None },
    }
}

/// Whether a payment session may start: there is one serial port, so only where none is active.
pub open spec fn may_start(active: bool) -> bool {
    !active
}

/// Asks for the reservation of the one payment session, given whether it was taken before.
pub fn reserve(active: bool) -> (r: KioskResult<()>)
    ensures
        r is Ok <==> may_start(active),
        r matches Err(e) ==> e@ == other("transakcija je već u toku"@),
{
    if active {
        Err(refuse("transakcija je već u toku"))
    } else {
        Ok(())
    }
}

/// The session went away without an end.
pub fn payment_interrupted() -> (e: KioskError)
    ensures
        e@ == other("plaćanje prekinuto"@),
{
    refuse("plaćanje prekinuto")
}

// ---------------------------------------------------------------------------
// Printing and devices
// ---------------------------------------------------------------------------

/// Nothing for a text that is empty or blank.
pub open spec fn non_empty_text(value: Option<Seq<char>>) -> Option<Seq<char>> {
    match value {
        Some(s) => if trimmed(s).len() == 0 {
            None
        } else {
            Some(s)
        },
        None => None,
    }
}

/// Nothing for a text that is empty or blank.
pub fn non_empty(value: Option<String>) -> (r: Option<String>)
    ensures
        opt_text(r) == non_empty_text(opt_text(value)),
{
    match value {
        Some(s) => if trim(s.as_str()).as_str().unicode_len() == 0 {
            None
        } else {
            Some(s)
        },
        None => None,
    }
}

/// The tickets of a sale that may be printed for a visitor: a paid one.
pub open spec fn printable(sale: Option<SaleRecordView>, sale_id: Seq<char>) -> Result<
    Seq<TicketView>,
    ErrorView,
> {
    match sale {
        None => Err(other("prodaja nije pronađena: "@ + sale_id)),
        Some(s) => if s.status != "paid"@ {
            Err(other("karte se mogu štampati samo za plaćenu transakciju"@))
        } else {
            Ok(s.tickets)
        },
    }
}

pub open spec fn opt_sale(o: Option<SaleRecord>) -> Option<SaleRecordView> {
    match o {
        Some(s) => Some(s@),
        None => None,
    }
}

/// The tickets of a sale that may be printed for a visitor.
pub fn print_tickets(sale: Option<SaleRecord>, sale_id: &str) -> (r: KioskResult<
    Vec<PrintedTicket>,
>)
    ensures
        match printable(opt_sale(sale), sale_id@) {
            Ok(v) => r matches Ok(t) && ticket_views(t@) == v,
            Err(t) => r matches Err(e) && e@ == t,
        },
{
    match sale {
        None => Err(KioskError::Other("prodaja nije pronađena: ".to_string().concat(sale_id))),
        Some(s) => if !same_text(s.status.as_str(), "paid") {
            Err(refuse("karte se mogu štampati samo za plaćenu transakciju"))
        } else {
            Ok(s.tickets)
        },
    }
}

/// How tickets get to the printer.
pub enum PrintRoute {
    /// Through the Windows spooler, by the name of the printer.
    Windows(String),
    /// Through a serial port.
    Serial(String),
    /// Straight to the USB device.
    Usb(PrinterTarget),
}

pub enum RouteView {
    Windows(Seq<char>),
    Serial(Seq<char>),
    Usb(PrinterTarget),
}

impl View for PrintRoute {
    type V = RouteView;

    open spec fn view(&self) -> RouteView {
        match *self {
            PrintRoute::Windows(n) => RouteView::Windows(n@),
            PrintRoute::Serial(p) => RouteView::Serial(p@),
            PrintRoute::Usb(t) => RouteView::Usb(t),
        }
    }
}

/// The route that the settings ask for: the spooler before the serial port before USB.
pub open spec fn route_of(s: SettingsView) -> RouteView {
    match non_empty_text(s.printer_windows_name) {
        Some(name) => RouteView::Windows(name),
        None => match non_empty_text(s.printer_port) {
            Some(port) => RouteView::Serial(port),
            None => RouteView::Usb(
                PrinterTarget {
                    vendor_id: s.printer_vendor_id,
                    product_id: s.printer_product_id,
                },
            ),
        },
    }
}

/// The route that the settings ask for.
pub fn print_route(settings: &Settings) -> (r: PrintRoute)
    ensures
        r@ == route_of(settings@),
{
    match non_empty(copy_opt(&settings.printer_windows_name)) {
        Some(name) => PrintRoute::Windows(name),
        None => match non_empty(copy_opt(&settings.printer_port)) {
            Some(port) => PrintRoute::Serial(port),
            None => PrintRoute::Usb(
                PrinterTarget {
                    vendor_id: settings.printer_vendor_id,
                    product_id: settings.printer_product_id,
                },
            ),
        },
    }
}

/// The outcome of a probe, as it is shown.
pub open spec fn probe_detail(r: KioskResult<String>) -> (bool, Seq<char>) {
    match r {
        Ok(text) => (true, text@),
        Err(e) => (false, error_text(e@)),
    }
}

fn detail(r: KioskResult<String>) -> (d: (bool, String))
    ensures
        (d.0, d.1@) == probe_detail(r),
{
    match r {
        Ok(text) => (true, text),
        Err(e) => (false, e.message()),
    }
}

/// The status of the devices out of their probes.
pub fn device_status(validator: KioskResult<String>, printer: KioskResult<String>) -> (r:
    DeviceStatus)
    ensures
        r@ == (DeviceStatusView {
            validator_connected: probe_detail(validator).0,
            validator_detail: probe_detail(validator).1,
            printer_connected: probe_detail(printer).0,
            printer_detail: probe_detail(printer).1,
        }),
{
    let (validator_connected, validator_detail) = detail(validator);
    let (printer_connected, printer_detail) = detail(printer);
    DeviceStatus { validator_connected, validator_detail, printer_connected, printer_detail }
}

/// The status of the devices while a session is using them.
pub fn busy_status() -> (r: DeviceStatus)
    ensures
        r@ == (DeviceStatusView {
            validator_connected: true,
            validator_detail: "zauzeto (transakcija u toku)"@,
            printer_connected: true,
            printer_detail: "zauzeto (transakcija u toku)"@,
        }),
{
    DeviceStatus {
        validator_connected: true,
        validator_detail: "zauzeto (transakcija u toku)".to_string(),
        printer_connected: true,
        printer_detail: "zauzeto (transakcija u toku)".to_string(),
    }
}

} // verus!
