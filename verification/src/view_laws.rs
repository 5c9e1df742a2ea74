//! The values that contracts speak of are the values that are there: every view shows each field as
//! it is, and every list of views has a view for each item, in order.

use vstd::prelude::*;

use crate::commands::{opt_sale, stored_view, PrintRoute, Recovery, RouteView};
use crate::db::reports::{record_views, type_total_views, ZReport};
use crate::db::{sale_rows, secret_map, ticket_rows, Db, SaleRow, SecretRow, TicketRow};
use crate::models::{
    event_views, opt_text, ticket_views, type_views, Cart, CartLine, DeviceStatus, ErrorView,
    EventView, KioskError, KioskResult, PaymentEvent, PaymentOutcome, PaymentProgress,
    PrintedTicket, SaleRecord, Settings, TicketType,
};
use crate::nv9::driver::{
    opt_error, reply_view, Action, ActionView, Driver, InitStage, InitStageView, Phase, PhaseView,
    Step,
};
use crate::nv9::frame;
use crate::nv9::poll::{PollStep, PollStepView, ValidatorState};
use crate::payment::{opt_end, opt_progress, EndView, PaymentEnd, Response};
use crate::printer::job::job_view;
use crate::printer::usb::{
    chunk_views, device_views, Configuration, ConfigurationView, DeviceView, InterfaceSetting,
    UsbDevice,
};
use crate::text::texts;
use crate::token::{ParsedToken, TicketClaims};

verus! {

/// Tickets, their types and carts.
pub proof fn law_tickets_show_their_fields(
    ty: TicketType,
    line: CartLine,
    cart: Cart,
    t: PrintedTicket,
    i: int,
)
    ensures
        ty@.code == ty.code@ && ty@.label == ty.label@ && ty@.price_rsd == ty.price_rsd,
        line@.code == line.code@ && line@.qty == line.qty,
        cart@.len() == cart.lines@.len(),
        0 <= i < cart@.len() ==> cart@[i] == cart.lines@[i]@,
        t@.id == t.id@ && t@.type_code == t.type_code@ && t@.label == t.label@,
        t@.price_rsd == t.price_rsd && t@.issued_at == t.issued_at && t@.qr_token == t.qr_token@,
{
}

/// Sales, as they are read and as they are stored.
pub proof fn law_sales_show_their_fields(
    r: SaleRecord,
    s: SaleRow,
    t: TicketRow,
    sale: Option<SaleRecord>,
)
    ensures
        r@.id == r.id@ && r@.created_at == r.created_at && r@.total_rsd == r.total_rsd,
        r@.inserted_rsd == r.inserted_rsd && r@.num_tickets == r.num_tickets,
        r@.reprinted_count == r.reprinted_count && r@.status == r.status@ && r@.printed
            == r.printed,
        r@.tickets == ticket_views(r.tickets@),
        s@.id == s.id@ && s@.created_at == s.created_at && s@.total_rsd == s.total_rsd,
        s@.inserted_rsd == s.inserted_rsd && s@.num_tickets == s.num_tickets,
        s@.reprinted_count == s.reprinted_count && s@.status == s.status@ && s@.printed
            == s.printed,
        t@.ticket == t.ticket@ && t@.sale_id == t.sale_id@ && t@.printed_at == t.printed_at
            && t@.redeemed_at == t.redeemed_at,
        sale matches Some(x) ==> opt_sale(sale) == Some(x@),
        sale is None ==> opt_sale(sale) is None,
{
}

/// The tables, and the secrets in them: the last row of a name counts.
pub proof fn law_the_tables_show_their_rows(d: Db, rows: Seq<SecretRow>, row: SecretRow)
    ensures
        d@.sales == sale_rows(d.sales@),
        d@.tickets == ticket_rows(d.tickets@),
        d@.secrets == secret_map(d.secrets@),
        d.settings matches Some(s) ==> d@.settings == Some(s@),
        d.settings is None ==> d@.settings is None,
        secret_map(Seq::empty()) == Map::<Seq<char>, Seq<u8>>::empty(),
        secret_map(rows.push(row)) == secret_map(rows).insert(row.name@, row.value@),
{
    assert(rows.push(row).drop_last() =~= rows);
}

/// Settings and what the staff sees.
pub proof fn law_settings_show_their_fields(s: Settings, d: DeviceStatus, o: Option<String>)
    ensures
        s@.ticket_types == type_views(s.ticket_types@),
        s@.max_total_tickets == s.max_total_tickets,
        s@.museum_name == s.museum_name@,
        s@.nv9_port == opt_text(s.nv9_port),
        s@.printer_vendor_id == s.printer_vendor_id,
        s@.printer_product_id == s.printer_product_id,
        s@.printer_port == opt_text(s.printer_port),
        s@.printer_windows_name == opt_text(s.printer_windows_name),
        s@.simple_mode == s.simple_mode,
        s@.feed_before_cut_mm == s.feed_before_cut_mm,
        s@.feed_after_cut_mm == s.feed_after_cut_mm,
        s@.paper_width_mm == s.paper_width_mm,
        d@.validator_connected == d.validator_connected,
        d@.validator_detail == d.validator_detail@,
        d@.printer_connected == d.printer_connected,
        d@.printer_detail == d.printer_detail@,
        o matches Some(t) ==> opt_text(o) == Some(t@),
        o is None ==> opt_text(o) is None,
{
}

/// Every list of views has a view for each item.
pub proof fn law_lists_show_their_items(
    tickets: Seq<PrintedTicket>,
    types: Seq<TicketType>,
    events: Seq<PaymentEvent>,
    sales: Seq<SaleRow>,
    rows: Seq<TicketRow>,
    records: Seq<SaleRecord>,
    strings: Seq<String>,
    i: int,
)
    ensures
        ticket_views(tickets).len() == tickets.len(),
        0 <= i < tickets.len() ==> ticket_views(tickets)[i] == tickets[i]@,
        type_views(types).len() == types.len(),
        0 <= i < types.len() ==> type_views(types)[i] == types[i]@,
        event_views(events).len() == events.len(),
        0 <= i < events.len() ==> event_views(events)[i] == events[i]@,
        sale_rows(sales).len() == sales.len(),
        0 <= i < sales.len() ==> sale_rows(sales)[i] == sales[i]@,
        ticket_rows(rows).len() == rows.len(),
        0 <= i < rows.len() ==> ticket_rows(rows)[i] == rows[i]@,
        record_views(records).len() == records.len(),
        0 <= i < records.len() ==> record_views(records)[i] == records[i]@,
        texts(strings).len() == strings.len(),
        0 <= i < strings.len() ==> texts(strings)[i] == strings[i]@,
{
}

/// The totals of a period.
pub proof fn law_reports_show_their_fields(z: ZReport, i: int)
    ensures
        z@.from_ts == z.from_ts && z@.to_ts == z.to_ts,
        z@.count_sales == z.count_sales && z@.count_tickets == z.count_tickets,
        z@.total_rsd == z.total_rsd && z@.abandoned_rsd == z.abandoned_rsd,
        z@.by_type == type_total_views(z.by_type@),
        z@.by_type.len() == z.by_type@.len(),
        0 <= i < z.by_type@.len() ==> z@.by_type[i] == (
            z.by_type@[i].0@,
            z.by_type@[i].1,
            z.by_type@[i].2,
        ),
{
}

/// Events, errors and what is shown of a payment.
pub proof fn law_events_show_their_fields(
    value_rsd: i64,
    total_inserted_rsd: i64,
    message: String,
    p: PaymentProgress,
    o: PaymentOutcome,
)
    ensures
        PaymentEvent::Connected@ == EventView::Connected,
        PaymentEvent::Disconnected@ == EventView::Disconnected,
        (PaymentEvent::NoteInEscrow { value_rsd })@ == (EventView::NoteInEscrow { value_rsd }),
        (PaymentEvent::Credited { value_rsd, total_inserted_rsd })@ == (EventView::Credited {
            value_rsd,
            total_inserted_rsd,
        }),
        (PaymentEvent::NoteReturned { value_rsd })@ == (EventView::NoteReturned { value_rsd }),
        (PaymentEvent::Notice { message })@ == (EventView::Notice { message: message@ }),
        (PaymentEvent::Error { message })@ == (EventView::Error { message: message@ }),
        KioskError::Hardware(message)@ == ErrorView::Hardware(message@),
        KioskError::Db(message)@ == ErrorView::Db(message@),
        KioskError::Token(message)@ == ErrorView::Token(message@),
        KioskError::Print(message)@ == ErrorView::Print(message@),
        KioskError::Config(message)@ == ErrorView::Config(message@),
        KioskError::BadPin@ == ErrorView::BadPin,
        KioskError::Other(message)@ == ErrorView::Other(message@),
        p@.inserted_rsd == p.inserted_rsd && p@.total_rsd == p.total_rsd && p@.complete
            == p.complete && p@.note == opt_text(p.note),
        o@.sale_id == o.sale_id@ && o@.inserted_rsd == o.inserted_rsd && o@.total_rsd
            == o.total_rsd,
{
}

/// The end of a session and what it answers, the way to the printer, and the recovery journal.
pub proof fn law_ends_show_their_fields(
    n: i64,
    e: KioskError,
    r: Response,
    end: Option<PaymentEnd>,
    progress: Option<PaymentProgress>,
    route: PrintRoute,
    x: Recovery,
    stored: KioskResult<()>,
)
    ensures
        PaymentEnd::Paid(n)@ == EndView::Paid(n),
        PaymentEnd::Cancelled(n)@ == EndView::Cancelled(n),
        PaymentEnd::Failed(e, n)@ == EndView::Failed(e@, n),
        r@.decision == r.decision && r@.persist == r.persist && r@.progress == opt_progress(
            r.progress,
        ) && r@.end == opt_end(r.end),
        end matches Some(v) ==> opt_end(end) == Some(v@),
        end is None ==> opt_end(end) is None,
        progress matches Some(v) ==> opt_progress(progress) == Some(v@),
        progress is None ==> opt_progress(progress) is None,
        route matches PrintRoute::Windows(name) ==> route@ == RouteView::Windows(name@),
        route matches PrintRoute::Serial(port) ==> route@ == RouteView::Serial(port@),
        route matches PrintRoute::Usb(t) ==> route@ == RouteView::Usb(t),
        x@.sale_id == x.sale_id@ && x@.inserted_rsd == x.inserted_rsd && x@.total_rsd
            == x.total_rsd && x@.error == x.error@ && x@.tickets == ticket_views(x.tickets@),
        stored is Ok ==> stored_view(stored) is Ok,
        stored matches Err(f) ==> stored_view(stored) == Err::<(), ErrorView>(f@),
{
}

/// Tokens.
pub proof fn law_tokens_show_their_fields(c: TicketClaims, p: ParsedToken)
    ensures
        c@.id == c.id@ && c@.type_code == c.type_code@ && c@.price_rsd == c.price_rsd
            && c@.issued_at == c.issued_at,
        p@.claims == p.claims@ && p@.prefix == p.prefix@ && p@.mac == p.mac@,
{
}

/// The driver: the validator as tracked, what is awaited, and what is to be done.
pub proof fn law_the_driver_shows_its_fields(
    d: Driver,
    s: Step,
    v: ValidatorState,
    reply: KioskResult<Vec<u8>>,
    failure: Option<KioskError>,
)
    ensures
        d@.next_sequence == d.next_sequence && d@.validator == d.validator@ && d@.phase == d.phase@,
        s@.driver == s.driver@ && s@.events == event_views(s.events@) && s@.farewell == event_views(
            s.farewell@,
        ) && s@.action == s.action@,
        v@.channels == v.channel_values@ && v@.escrow == v.escrow_value && v@.inserted
            == v.total_inserted_rsd,
        reply matches Ok(r) ==> reply_view(reply) == Ok::<Seq<u8>, ErrorView>(r@),
        reply matches Err(e) ==> reply_view(reply) == Err::<Seq<u8>, ErrorView>(e@),
        failure matches Some(e) ==> opt_error(failure) == Some(e@),
        failure is None ==> opt_error(failure) is None,
{
}

/// What a driver waits for.
pub proof fn law_phases_show_their_fields(
    p: Phase,
    stage: InitStage,
    a: Action,
    step: PollStep,
)
    ensures
        p matches Phase::Init { stage: x, origin } ==> p@ == (PhaseView::Init { stage: x@, origin }),
        p is Connected ==> p@ is Connected,
        p is Ready ==> p@ is Ready,
        p is Polling ==> p@ is Polling,
        p matches Phase::Deciding { response, index } ==> p@ == (PhaseView::Deciding {
            response: response@,
            index: index as int,
        }),
        p matches Phase::Rejecting { response, index, stage: x } ==> p@ == (PhaseView::Rejecting {
            response: response@,
            index: index as int,
            stage: x,
        }),
        p is StopRejecting ==> p@ is StopRejecting,
        p matches Phase::Disabling { failure, recovery } ==> p@ == (PhaseView::Disabling {
            failure: opt_error(failure),
            recovery,
        }),
        p is Done ==> p@ is Done,
        stage is Sync ==> stage@ is Sync,
        stage is Setup ==> stage@ is Setup,
        stage matches InitStage::Inhibits(x) ==> stage@ == InitStageView::Inhibits(
            x.channel_values@,
        ),
        stage matches InitStage::Enable(x) ==> stage@ == InitStageView::Enable(x.channel_values@),
        a matches Action::Send { sequence, command, params } ==> a@ == (ActionView::Send {
            sequence,
            command,
            params: params@,
        }),
        a is AwaitDecision ==> a@ is AwaitDecision,
        a is Pause ==> a@ is Pause,
        a is Resume ==> a@ is Resume,
        a matches Action::Finish(Ok(_)) ==> a@ == ActionView::Finish(None),
        a matches Action::Finish(Err(e)) ==> a@ == ActionView::Finish(Some(e@)),
        step is Finished ==> step@ is Finished,
        step is Reinitialize ==> step@ is Reinitialize,
        step matches PollStep::AwaitDecision { resume } ==> step@ == (PollStepView::AwaitDecision {
            resume: resume as int,
        }),
        step matches PollStep::Failed(e) ==> step@ == PollStepView::Failed(e@),
{
}

/// What came back for a packet, with its sequence byte, and what became of a job.
pub proof fn law_replies_show_their_fields(
    reply: KioskResult<(u8, Vec<u8>)>,
    job: KioskResult<Vec<u8>>,
)
    ensures
        reply matches Ok(r) ==> frame::reply_view(reply) == Ok::<(u8, Seq<u8>), ErrorView>(
            (r.0, r.1@),
        ),
        reply matches Err(e) ==> frame::reply_view(reply) == Err::<(u8, Seq<u8>), ErrorView>(e@),
        job matches Ok(b) ==> job_view(job) == Ok::<Seq<u8>, ErrorView>(b@),
        job matches Err(e) ==> job_view(job) == Err::<Seq<u8>, ErrorView>(e@),
{
}

/// The devices on the bus, and the pieces of a job.
pub proof fn law_devices_show_their_fields(
    s: InterfaceSetting,
    c: Configuration,
    u: UsbDevice,
    devices: Seq<UsbDevice>,
    chunks: Seq<Vec<u8>>,
    i: int,
)
    ensures
        s@.interface == s.interface && s@.setting == s.setting && s@.class == s.class
            && s@.endpoints == s.endpoints@,
        c matches Configuration::Read { number, settings } ==> {
            &&& c@ matches ConfigurationView::Read { number: n, settings: v }
            &&& n == number
            &&& v.len() == settings@.len()
            &&& 0 <= i < v.len() ==> v[i] == settings@[i]@
        },
        c matches Configuration::Unread(t) ==> c@ == ConfigurationView::Unread(t@),
        u matches UsbDevice::Read { vendor_id, product_id, configurations } ==> {
            &&& u@ matches DeviceView::Read { vendor_id: a, product_id: b, configurations: v }
            &&& a == vendor_id
            &&& b == product_id
            &&& v.len() == configurations@.len()
            &&& 0 <= i < v.len() ==> v[i] == configurations@[i]@
        },
        u matches UsbDevice::Unread(t) ==> u@ == DeviceView::Unread(t@),
        device_views(devices).len() == devices.len(),
        0 <= i < devices.len() ==> device_views(devices)[i] == devices[i]@,
        chunk_views(chunks).len() == chunks.len(),
        0 <= i < chunks.len() ==> chunk_views(chunks)[i] == chunks[i]@,
{
}

} // verus!
