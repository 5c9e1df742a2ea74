//! Shared domain types. Money is always whole dinars (RSD).

use vstd::prelude::*;
use vstd::string::*;

verus! {

/// The text of an optional string.
pub open spec fn opt_text(o: Option<String>) -> Option<Seq<char>> {
    match o {
        Some(s) => Some(s@),
        None => None,
    }
}

/// A copy of an optional string.
pub fn copy_opt(o: &Option<String>) -> (r: Option<String>)
    ensures
        opt_text(r) == opt_text(*o),
{
    match o {
        Some(s) => Some(s.clone()),
        None => None,
    }
}

// ---------------------------------------------------------------------------
// Ticket types and the cart
// ---------------------------------------------------------------------------

/// A purchasable ticket category. `code` is the stable machine key (e.g. "odrasli"),
/// `label` the display name, `price_rsd` whole dinars.
#[derive(Debug, PartialEq, Eq)]
pub struct TicketType {
    pub code: String,
    pub label: String,
    pub price_rsd: i64,
}

pub struct TicketTypeView {
    pub code: Seq<char>,
    pub label: Seq<char>,
    pub price_rsd: i64,
}

impl View for TicketType {
    type V = TicketTypeView;

    open spec fn view(&self) -> TicketTypeView {
        TicketTypeView { code: self.code@, label: self.label@, price_rsd: self.price_rsd }
    }
}

impl Clone for TicketType {
    fn clone(&self) -> (r: Self)
        ensures
            r@ == self@,
    {
        TicketType {
            code: self.code.clone(),
            label: self.label.clone(),
            price_rsd: self.price_rsd,
        }
    }
}

/// The views of a list of ticket types.
pub open spec fn type_views(v: Seq<TicketType>) -> Seq<TicketTypeView> {
    v.map_values(|t: TicketType| t@)
}

/// A copy of a list of ticket types.
pub fn copy_types(v: &[TicketType]) -> (r: Vec<TicketType>)
    ensures
        type_views(r@) == type_views(v@),
{
    let mut out: Vec<TicketType> = Vec::new();
    let mut i: usize = 0;
    while i < v.len()
        invariant
            i <= v@.len(),
            type_views(out@) == type_views(v@).take(i as int),
        decreases v.len() - i,
    {
        let ghost before = type_views(out@);
        out.push(v[i].clone());
        assert(type_views(out@) =~= before.push(v@[i as int]@));
        assert(type_views(out@) =~= type_views(v@).take(i + 1));
        i = i + 1;
    }
    assert(type_views(v@).take(v@.len() as int) =~= type_views(v@));
    out
}

/// One line of the cart: how many of a given ticket type.
#[derive(Debug, Clone)]
pub struct CartLine {
    pub code: String,
    pub qty: u32,
}

pub struct CartLineView {
    pub code: Seq<char>,
    pub qty: u32,
}

impl View for CartLine {
    type V = CartLineView;

    open spec fn view(&self) -> CartLineView {
        CartLineView { code: self.code@, qty: self.qty }
    }
}

/// The cart that a visitor submits.
#[derive(Debug, Clone)]
pub struct Cart {
    pub lines: Vec<CartLine>,
}

impl View for Cart {
    type V = Seq<CartLineView>;

    open spec fn view(&self) -> Seq<CartLineView> {
        self.lines@.map_values(|l: CartLine| l@)
    }
}

/// How many tickets the lines ask for in all.
pub open spec fn total_quantity(lines: Seq<CartLineView>) -> nat
    decreases lines.len(),
{
    if lines.len() == 0 {
        0
    } else {
        total_quantity(lines.drop_last()) + lines.last().qty as nat
    }
}

pub(crate) proof fn lemma_quantity_monotone(lines: Seq<CartLineView>, i: int)
    requires
        0 <= i <= lines.len(),
    ensures
        total_quantity(lines.take(i)) <= total_quantity(lines),
    decreases lines.len(),
{
    if i < lines.len() {
        lemma_quantity_monotone(lines.drop_last(), i);
        assert(lines.drop_last().take(i) =~= lines.take(i));
    } else {
        assert(lines.take(i) =~= lines);
    }
}

impl Cart {
    /// Total number of individual tickets.
    pub fn total_qty(&self) -> (r: u32)
        requires
            total_quantity(self@) <= u32::MAX,
        ensures
            r == total_quantity(self@),
    {
        let mut sum: u32 = 0;
        let mut i: usize = 0;
        assert(self@.take(0) =~= Seq::<CartLineView>::empty());
        while i < self.lines.len()
            invariant
                i <= self.lines@.len(),
                total_quantity(self@) <= u32::MAX,
                sum == total_quantity(self@.take(i as int)),
            decreases self.lines.len() - i,
        {
            proof {
                lemma_quantity_monotone(self@, i + 1);
                assert(self@.take(i + 1).drop_last() =~= self@.take(i as int));
                assert(self@.take(i + 1).last() == self.lines@[i as int]@);
            }
            sum = sum + self.lines[i].qty;
            i = i + 1;
        }
        assert(self@.take(self.lines@.len() as int) =~= self@);
        sum
    }
}

// ---------------------------------------------------------------------------
// Tickets and sales
// ---------------------------------------------------------------------------

/// A ticket that has been sold. `qr_token` is the signed text encoded into its QR code.
#[derive(Debug)]
pub struct PrintedTicket {
    pub id: String,
    pub type_code: String,
    /// Display label at the time of sale.
    pub label: String,
    /// Price at the time of sale.
    pub price_rsd: i64,
    /// Unix seconds.
    pub issued_at: i64,
    pub qr_token: String,
}

pub struct TicketView {
    pub id: Seq<char>,
    pub type_code: Seq<char>,
    pub label: Seq<char>,
    pub price_rsd: i64,
    pub issued_at: i64,
    pub qr_token: Seq<char>,
}

impl View for PrintedTicket {
    type V = TicketView;

    open spec fn view(&self) -> TicketView {
        TicketView {
            id: self.id@,
            type_code: self.type_code@,
            label: self.label@,
            price_rsd: self.price_rsd,
            issued_at: self.issued_at,
            qr_token: self.qr_token@,
        }
    }
}

impl Clone for PrintedTicket {
    fn clone(&self) -> (r: Self)
        ensures
            r@ == self@,
    {
        PrintedTicket {
            id: self.id.clone(),
            type_code: self.type_code.clone(),
            label: self.label.clone(),
            price_rsd: self.price_rsd,
            issued_at: self.issued_at,
            qr_token: self.qr_token.clone(),
        }
    }
}

/// The views of a list of tickets.
pub open spec fn ticket_views(v: Seq<PrintedTicket>) -> Seq<TicketView> {
    v.map_values(|t: PrintedTicket| t@)
}

/// A sale. Lifecycle: `pending` (session started, money may be accumulating), then `paid`
/// (the full amount taken, tickets minted) or `abandoned` (cancelled, failed or timed out
/// with cash in the box; no tickets issued).
#[derive(Debug, Clone)]
pub struct SaleRecord {
    pub id: String,
    pub created_at: i64,
    pub total_rsd: i64,
    pub inserted_rsd: i64,
    pub num_tickets: u32,
    pub tickets: Vec<PrintedTicket>,
    pub reprinted_count: u32,
    /// "pending", "paid" or "abandoned".
    pub status: String,
    pub printed: bool,
}

pub struct SaleRecordView {
    pub id: Seq<char>,
    pub created_at: i64,
    pub total_rsd: i64,
    pub inserted_rsd: i64,
    pub num_tickets: u32,
    pub tickets: Seq<TicketView>,
    pub reprinted_count: u32,
    pub status: Seq<char>,
    pub printed: bool,
}

impl View for SaleRecord {
    type V = SaleRecordView;

    open spec fn view(&self) -> SaleRecordView {
        SaleRecordView {
            id: self.id@,
            created_at: self.created_at,
            total_rsd: self.total_rsd,
            inserted_rsd: self.inserted_rsd,
            num_tickets: self.num_tickets,
            tickets: ticket_views(self.tickets@),
            reprinted_count: self.reprinted_count,
            status: self.status@,
            printed: self.printed,
        }
    }
}

// ---------------------------------------------------------------------------
// Payment
// ---------------------------------------------------------------------------

/// What the validator reports to the payment session. `total_inserted_rsd` is the running
/// total of the session.
#[derive(Debug, Clone)]
pub enum PaymentEvent {
    /// Validator reachable and enabled.
    Connected,
    /// Validator link closed.
    Disconnected,
    /// A note is held in escrow; the session decides whether it is taken.
    NoteInEscrow { value_rsd: i64 },
    /// A note was stacked and its value credited.
    Credited { value_rsd: i64, total_inserted_rsd: i64 },
    /// A note was returned to the visitor.
    NoteReturned { value_rsd: i64 },
    /// Non-fatal validator message.
    Notice { message: String },
    /// Fatal error for this session.
    Error { message: String },
}

pub enum EventView {
    Connected,
    Disconnected,
    NoteInEscrow { value_rsd: i64 },
    Credited { value_rsd: i64, total_inserted_rsd: i64 },
    NoteReturned { value_rsd: i64 },
    Notice { message: Seq<char> },
    Error { message: Seq<char> },
}

impl View for PaymentEvent {
    type V = EventView;

    open spec fn view(&self) -> EventView {
        match *self {
            PaymentEvent::Connected => EventView::Connected,
            PaymentEvent::Disconnected => EventView::Disconnected,
            PaymentEvent::NoteInEscrow { value_rsd } => EventView::NoteInEscrow { value_rsd },
            PaymentEvent::Credited { value_rsd, total_inserted_rsd } => EventView::Credited {
                value_rsd,
                total_inserted_rsd,
            },
            PaymentEvent::NoteReturned { value_rsd } => EventView::NoteReturned { value_rsd },
            PaymentEvent::Notice { message } => EventView::Notice { message: message@ },
            PaymentEvent::Error { message } => EventView::Error { message: message@ },
        }
    }
}

/// The views of a list of events.
pub open spec fn event_views(v: Seq<PaymentEvent>) -> Seq<EventView> {
    v.map_values(|e: PaymentEvent| e@)
}

/// Progress shown to the visitor during a payment.
#[derive(Debug, Clone)]
pub struct PaymentProgress {
    pub inserted_rsd: i64,
    pub total_rsd: i64,
    pub complete: bool,
    pub note: Option<String>,
}

pub struct ProgressView {
    pub inserted_rsd: i64,
    pub total_rsd: i64,
    pub complete: bool,
    pub note: Option<Seq<char>>,
}

impl View for PaymentProgress {
    type V = ProgressView;

    open spec fn view(&self) -> ProgressView {
        ProgressView {
            inserted_rsd: self.inserted_rsd,
            total_rsd: self.total_rsd,
            complete: self.complete,
            note: opt_text(self.note),
        }
    }
}

/// Result of a payment session that was paid in full.
#[derive(Debug, Clone)]
pub struct PaymentOutcome {
    pub sale_id: String,
    pub inserted_rsd: i64,
    pub total_rsd: i64,
}

pub struct OutcomeView {
    pub sale_id: Seq<char>,
    pub inserted_rsd: i64,
    pub total_rsd: i64,
}

impl View for PaymentOutcome {
    type V = OutcomeView;

    open spec fn view(&self) -> OutcomeView {
        OutcomeView {
            sale_id: self.sale_id@,
            inserted_rsd: self.inserted_rsd,
            total_rsd: self.total_rsd,
        }
    }
}

/// Status of the attached devices, for the admin panel.
#[derive(Debug, Clone)]
pub struct DeviceStatus {
    pub validator_connected: bool,
    pub validator_detail: String,
    pub printer_connected: bool,
    pub printer_detail: String,
}

pub struct DeviceStatusView {
    pub validator_connected: bool,
    pub validator_detail: Seq<char>,
    pub printer_connected: bool,
    pub printer_detail: Seq<char>,
}

impl View for DeviceStatus {
    type V = DeviceStatusView;

    open spec fn view(&self) -> DeviceStatusView {
        DeviceStatusView {
            validator_connected: self.validator_connected,
            validator_detail: self.validator_detail@,
            printer_connected: self.printer_connected,
            printer_detail: self.printer_detail@,
        }
    }
}

impl Default for DeviceStatus {
    fn default() -> (r: Self)
        ensures
            !r.validator_connected && !r.printer_connected,
            r.validator_detail@.len() == 0 && r.printer_detail@.len() == 0,
    {
        DeviceStatus {
            validator_connected: false,
            validator_detail: String::new(),
            printer_connected: false,
            printer_detail: String::new(),
        }
    }
}

// ---------------------------------------------------------------------------
// Settings
// ---------------------------------------------------------------------------

/// Persisted, admin-editable configuration.
#[derive(Debug)]
pub struct Settings {
    pub ticket_types: Vec<TicketType>,
    pub max_total_tickets: u32,
    pub museum_name: String,
    /// Serial port of the validator (e.g. "COM3"); `None` = first port found.
    pub nv9_port: Option<String>,
    /// USB ids of the printer; `None` = first suitable device.
    pub printer_vendor_id: Option<u16>,
    pub printer_product_id: Option<u16>,
    /// Serial (virtual COM) port of the printer.
    pub printer_port: Option<String>,
    /// Name of the Windows printer; takes precedence over the other two when set.
    pub printer_windows_name: Option<String>,
    /// No touch screen: always one adult ticket.
    pub simple_mode: bool,
    /// Blank paper (mm) fed before the cut.
    pub feed_before_cut_mm: u32,
    /// Blank paper (mm) fed after the cut.
    pub feed_after_cut_mm: u32,
    /// Paper width (mm).
    pub paper_width_mm: u32,
}

pub struct SettingsView {
    pub ticket_types: Seq<TicketTypeView>,
    pub max_total_tickets: u32,
    pub museum_name: Seq<char>,
    pub nv9_port: Option<Seq<char>>,
    pub printer_vendor_id: Option<u16>,
    pub printer_product_id: Option<u16>,
    pub printer_port: Option<Seq<char>>,
    pub printer_windows_name: Option<Seq<char>>,
    pub simple_mode: bool,
    pub feed_before_cut_mm: u32,
    pub feed_after_cut_mm: u32,
    pub paper_width_mm: u32,
}

impl View for Settings {
    type V = SettingsView;

    open spec fn view(&self) -> SettingsView {
        SettingsView {
            ticket_types: type_views(self.ticket_types@),
            max_total_tickets: self.max_total_tickets,
            museum_name: self.museum_name@,
            nv9_port: opt_text(self.nv9_port),
            printer_vendor_id: self.printer_vendor_id,
            printer_product_id: self.printer_product_id,
            printer_port: opt_text(self.printer_port),
            printer_windows_name: opt_text(self.printer_windows_name),
            simple_mode: self.simple_mode,
            feed_before_cut_mm: self.feed_before_cut_mm,
            feed_after_cut_mm: self.feed_after_cut_mm,
            paper_width_mm: self.paper_width_mm,
        }
    }
}

impl Clone for Settings {
    fn clone(&self) -> (r: Self)
        ensures
            r@ == self@,
    {
        Settings {
            ticket_types: copy_types(&self.ticket_types),
            max_total_tickets: self.max_total_tickets,
            museum_name: self.museum_name.clone(),
            nv9_port: copy_opt(&self.nv9_port),
            printer_vendor_id: self.printer_vendor_id,
            printer_product_id: self.printer_product_id,
            printer_port: copy_opt(&self.printer_port),
            printer_windows_name: copy_opt(&self.printer_windows_name),
            simple_mode: self.simple_mode,
            feed_before_cut_mm: self.feed_before_cut_mm,
            feed_after_cut_mm: self.feed_after_cut_mm,
            paper_width_mm: self.paper_width_mm,
        }
    }
}

/// The settings of a fresh installation.
pub open spec fn default_settings() -> SettingsView {
    SettingsView {
        ticket_types: seq![
            TicketTypeView { code: "odrasli"@, label: "Odrasli"@, price_rsd: 400 },
            TicketTypeView { code: "deca"@, label: "Deca (do 12)"@, price_rsd: 200 },
            TicketTypeView { code: "studenti"@, label: "Studenti"@, price_rsd: 300 },
        ],
        max_total_tickets: 10,
        museum_name: "Muzej Mileve Marić"@,
        nv9_port: Some("COM3"@),
        printer_vendor_id: None,
        printer_product_id: None,
        printer_port: None,
        printer_windows_name: Some("BIXOLON SRP-Q300"@),
        simple_mode: false,
        feed_before_cut_mm: 48,
        feed_after_cut_mm: 50,
        paper_width_mm: 80,
    }
}

fn ticket_type(code: &str, label: &str, price_rsd: i64) -> (r: TicketType)
    ensures
        r@ == (TicketTypeView { code: code@, label: label@, price_rsd }),
{
    TicketType { code: code.to_string(), label: label.to_string(), price_rsd }
}

impl Default for Settings {
    fn default() -> (r: Self)
        ensures
            r@ == default_settings(),
    {
        let mut types: Vec<TicketType> = Vec::new();
        types.push(ticket_type("odrasli", "Odrasli", 400));
        types.push(ticket_type("deca", "Deca (do 12)", 200));
        types.push(ticket_type("studenti", "Studenti", 300));
        assert(type_views(types@) =~= default_settings().ticket_types);
        Settings {
            ticket_types: types,
            max_total_tickets: 10,
            museum_name: "Muzej Mileve Marić".to_string(),
            nv9_port: Some("COM3".to_string()),
            printer_vendor_id: None,
            printer_product_id: None,
            printer_port: None,
            printer_windows_name: Some("BIXOLON SRP-Q300".to_string()),
            simple_mode: false,
            feed_before_cut_mm: 48,
            feed_after_cut_mm: 50,
            paper_width_mm: 80,
        }
    }
}

// ---------------------------------------------------------------------------
// Errors
// ---------------------------------------------------------------------------

/// Central error type shared across modules.
#[derive(Debug)]
pub enum KioskError {
    Hardware(String),
    Db(String),
    Token(String),
    Print(String),
    Config(String),
    BadPin,
    Other(String),
}

pub enum ErrorView {
    Hardware(Seq<char>),
    Db(Seq<char>),
    Token(Seq<char>),
    Print(Seq<char>),
    Config(Seq<char>),
    BadPin,
    Other(Seq<char>),
}

impl View for KioskError {
    type V = ErrorView;

    open spec fn view(&self) -> ErrorView {
        match *self {
            KioskError::Hardware(m) => ErrorView::Hardware(m@),
            KioskError::Db(m) => ErrorView::Db(m@),
            KioskError::Token(m) => ErrorView::Token(m@),
            KioskError::Print(m) => ErrorView::Print(m@),
            KioskError::Config(m) => ErrorView::Config(m@),
            KioskError::BadPin => ErrorView::BadPin,
            KioskError::Other(m) => ErrorView::Other(m@),
        }
    }
}

/// The text that an error is shown as.
pub open spec fn error_text(e: ErrorView) -> Seq<char> {
    match e {
        ErrorView::Hardware(m) => "hardver: "@ + m,
        ErrorView::Db(m) => "baza: "@ + m,
        ErrorView::Token(m) => "token: "@ + m,
        ErrorView::Print(m) => "stampa: "@ + m,
        ErrorView::Config(m) => "konfiguracija: "@ + m,
        ErrorView::BadPin => "neispravan PIN"@,
        ErrorView::Other(m) => m,
    }
}

impl KioskError {
    /// The text shown to the visitor or to the staff.
    pub fn message(&self) -> (r: String)
        ensures
            r@ == error_text(self@),
    {
        match self {
            KioskError::Hardware(m) => "hardver: ".to_string().concat(m.as_str()),
            KioskError::Db(m) => "baza: ".to_string().concat(m.as_str()),
            KioskError::Token(m) => "token: ".to_string().concat(m.as_str()),
            KioskError::Print(m) => "stampa: ".to_string().concat(m.as_str()),
            KioskError::Config(m) => "konfiguracija: ".to_string().concat(m.as_str()),
            KioskError::BadPin => "neispravan PIN".to_string(),
            KioskError::Other(m) => m.clone(),
        }
    }
}

pub type KioskResult<T> = Result<T, KioskError>;

/// An error of the attached hardware.
pub fn hardware(message: String) -> (e: KioskError)
    ensures
        e@ == ErrorView::Hardware(message@),
{
    KioskError::Hardware(message)
}

/// A line more asks for so many tickets more.
pub proof fn law_quantities_add_up(lines: Seq<CartLineView>, line: CartLineView)
    ensures
        total_quantity(Seq::empty()) == 0,
        total_quantity(lines.push(line)) == total_quantity(lines) + line.qty,
{
    assert(lines.push(line).drop_last() =~= lines);
}

/// An error is shown behind the name of what it comes from.
pub proof fn law_errors_name_their_source(m: Seq<char>)
    ensures
        error_text(ErrorView::Hardware(m)) == "hardver: "@ + m,
        error_text(ErrorView::Db(m)) == "baza: "@ + m,
        error_text(ErrorView::Token(m)) == "token: "@ + m,
        error_text(ErrorView::Print(m)) == "stampa: "@ + m,
        error_text(ErrorView::Config(m)) == "konfiguracija: "@ + m,
        error_text(ErrorView::BadPin) == "neispravan PIN"@,
        error_text(ErrorView::Other(m)) == m,
{
}

/// A fresh installation sells three kinds of tickets, each at a positive multiple of a hundred
/// dinars, at most ten at a time, with paper of eighty millimetres.
pub proof fn law_a_fresh_installation_can_sell(i: int)
    requires
        0 <= i < default_settings().ticket_types.len(),
    ensures
        default_settings().ticket_types.len() == 3,
        default_settings().ticket_types[i].price_rsd > 0,
        default_settings().ticket_types[i].price_rsd % 100 == 0,
        default_settings().ticket_types[i].price_rsd == if i == 0 {
            400i64
        } else if i == 1 {
            200
        } else {
            300
        },
        default_settings().ticket_types[i].code == if i == 0 {
            "odrasli"@
        } else if i == 1 {
            "deca"@
        } else {
            "studenti"@
        },
        default_settings().ticket_types[i].label == if i == 0 {
            "Odrasli"@
        } else if i == 1 {
            "Deca (do 12)"@
        } else {
            "Studenti"@
        },
        default_settings().max_total_tickets == 10,
        default_settings().museum_name == "Muzej Mileve Marić"@,
        default_settings().nv9_port == Some("COM3"@),
        default_settings().printer_vendor_id is None,
        default_settings().printer_product_id is None,
        default_settings().printer_port is None,
        default_settings().printer_windows_name == Some("BIXOLON SRP-Q300"@),
        !default_settings().simple_mode,
        default_settings().feed_before_cut_mm == 48,
        default_settings().feed_after_cut_mm == 50,
        default_settings().paper_width_mm == 80,
{
}

} // verus!
