//! The tables of the kiosk: settings, secrets, sales and tickets.
//!
//! A `Db` holds the rows that an operation reads and writes, in the order in which they were
//! inserted. Every operation either succeeds or leaves all rows as they were.

pub mod laws;
pub mod report_laws;
pub mod reports;
pub mod scope;
pub mod write_laws;

use vstd::prelude::*;
use vstd::string::*;

use crate::models::{
    default_settings, ticket_views, ErrorView, KioskError, KioskResult, PrintedTicket, Settings,
    SettingsView, TicketView,
};
use crate::text::same_text;

verus! {

// ---------------------------------------------------------------------------
// Rows
// ---------------------------------------------------------------------------

/// A row of the sales table.
pub struct SaleRow {
    pub id: String,
    pub created_at: i64,
    pub total_rsd: i64,
    pub inserted_rsd: i64,
    pub num_tickets: i64,
    pub printed: bool,
    pub reprinted_count: i64,
    pub status: String,
}

pub struct SaleRowView {
    pub id: Seq<char>,
    pub created_at: i64,
    pub total_rsd: i64,
    pub inserted_rsd: i64,
    pub num_tickets: i64,
    pub printed: bool,
    pub reprinted_count: i64,
    pub status: Seq<char>,
}

impl View for SaleRow {
    type V = SaleRowView;

    open spec fn view(&self) -> SaleRowView {
        SaleRowView {
            id: self.id@,
            created_at: self.created_at,
            total_rsd: self.total_rsd,
            inserted_rsd: self.inserted_rsd,
            num_tickets: self.num_tickets,
            printed: self.printed,
            reprinted_count: self.reprinted_count,
            status: self.status@,
        }
    }
}

pub open spec fn sale_rows(v: Seq<SaleRow>) -> Seq<SaleRowView> {
    v.map_values(|r: SaleRow| r@)
}

/// A row of the tickets table: a ticket, the sale that it belongs to, and when it was printed
/// and redeemed.
pub struct TicketRow {
    pub ticket: PrintedTicket,
    pub sale_id: String,
    pub printed_at: Option<i64>,
    pub redeemed_at: Option<i64>,
}

pub struct TicketRowView {
    pub ticket: TicketView,
    pub sale_id: Seq<char>,
    pub printed_at: Option<i64>,
    pub redeemed_at: Option<i64>,
}

impl View for TicketRow {
    type V = TicketRowView;

    open spec fn view(&self) -> TicketRowView {
        TicketRowView {
            ticket: self.ticket@,
            sale_id: self.sale_id@,
            printed_at: self.printed_at,
            redeemed_at: self.redeemed_at,
        }
    }
}

pub open spec fn ticket_rows(v: Seq<TicketRow>) -> Seq<TicketRowView> {
    v.map_values(|r: TicketRow| r@)
}

/// A row of the secrets table.
pub struct SecretRow {
    pub name: String,
    pub value: Vec<u8>,
}

/// The secrets by name. A later row counts where a name occurs twice.
pub open spec fn secret_map(v: Seq<SecretRow>) -> Map<Seq<char>, Seq<u8>>
    decreases v.len(),
{
    if v.len() == 0 {
        Map::empty()
    } else {
        secret_map(v.drop_last()).insert(v.last().name@, v.last().value@)
    }
}

/// The tables.
pub struct Db {
    /// None where there is no row, or none that can be read.
    pub settings: Option<Settings>,
    pub secrets: Vec<SecretRow>,
    pub sales: Vec<SaleRow>,
    pub tickets: Vec<TicketRow>,
}

pub struct DbView {
    pub settings: Option<SettingsView>,
    pub secrets: Map<Seq<char>, Seq<u8>>,
    pub sales: Seq<SaleRowView>,
    pub tickets: Seq<TicketRowView>,
}

impl View for Db {
    type V = DbView;

    open spec fn view(&self) -> DbView {
        DbView {
            settings: match self.settings {
                Some(s) => Some(s@),
                None => None,
            },
            secrets: secret_map(self.secrets@),
            sales: sale_rows(self.sales@),
            tickets: ticket_rows(self.tickets@),
        }
    }
}

/// Whether there is a sale with this id.
pub open spec fn has_sale(sales: Seq<SaleRowView>, id: Seq<char>) -> bool {
    exists|i: int| 0 <= i < sales.len() && #[trigger] sales[i].id == id
}

/// Whether there is a ticket with this id.
pub open spec fn has_ticket(tickets: Seq<TicketRowView>, id: Seq<char>) -> bool {
    exists|i: int| 0 <= i < tickets.len() && #[trigger] tickets[i].ticket.id == id
}

/// Whether a ticket belongs to this sale.
pub open spec fn sold_in(tickets: Seq<TicketRowView>, sale_id: Seq<char>) -> bool {
    exists|i: int| 0 <= i < tickets.len() && #[trigger] tickets[i].sale_id == sale_id
}

/// What always holds of the tables: the ids of sales are distinct, so are those of tickets,
/// and every ticket belongs to a sale.
pub open spec fn consistent(d: DbView) -> bool {
    &&& forall|i: int, j: int|
        0 <= i < j < d.sales.len() ==> (#[trigger] d.sales[i]).id != (#[trigger] d.sales[j]).id
    &&& forall|i: int, j: int|
        0 <= i < j < d.tickets.len() ==> (#[trigger] d.tickets[i]).ticket.id != (
        #[trigger] d.tickets[j]).ticket.id
    &&& forall|i: int|
        0 <= i < d.tickets.len() ==> has_sale(d.sales, (#[trigger] d.tickets[i]).sale_id)
}

/// An error of the store.
pub fn db_error(message: &str) -> (e: KioskError)
    ensures
        e@ == ErrorView::Db(message@),
{
    KioskError::Db(message.to_string())
}

/// No sale has this id.
pub open spec fn missing_sale(id: Seq<char>) -> ErrorView {
    ErrorView::Db("prodaja nije pronađena: "@ + id)
}

fn missing(id: &str) -> (e: KioskError)
    ensures
        e@ == missing_sale(id@),
{
    KioskError::Db("prodaja nije pronađena: ".to_string().concat(id))
}

// ---------------------------------------------------------------------------
// Updates of the sales table
// ---------------------------------------------------------------------------

/// A change of a sale.
#[derive(Debug, Clone, Copy, PartialEq, Eq, Structural)]
pub enum SaleChange {
    Inserted(i64),
    Paid(i64),
    Abandoned(i64),
    Printed,
    Reprinted,
}

/// A sale after a change.
pub open spec fn changed(r: SaleRowView, c: SaleChange) -> SaleRowView {
    match c {
        SaleChange::Inserted(n) => SaleRowView { inserted_rsd: n, ..r },
        SaleChange::Paid(n) => SaleRowView { inserted_rsd: n, status: "paid"@, ..r },
        SaleChange::Abandoned(n) => SaleRowView { inserted_rsd: n, status: "abandoned"@, ..r },
        SaleChange::Printed => SaleRowView { printed: true, ..r },
        SaleChange::Reprinted => SaleRowView {
            reprinted_count: (r.reprinted_count + 1) as i64,
            ..r
        },
    }
}

/// The sales after a change of the one with this id; nothing changes where there is none.
pub open spec fn with_change(sales: Seq<SaleRowView>, id: Seq<char>, c: SaleChange) -> Seq<
    SaleRowView,
> {
    sales.map_values(
        |r: SaleRowView|
            if r.id == id {
                changed(r, c)
            } else {
                r
            },
    )
}

/// The number of reprints of this sale can still be counted up.
pub open spec fn can_count(sales: Seq<SaleRowView>, id: Seq<char>) -> bool {
    forall|i: int|
        0 <= i < sales.len() && sales[i].id == id ==> (#[trigger] sales[i]).reprinted_count
            < i64::MAX
}

fn change_row(row: &mut SaleRow, c: SaleChange)
    requires
        c == SaleChange::Reprinted ==> old(row).reprinted_count < i64::MAX,
    ensures
        final(row)@ == changed(old(row)@, c),
{
    match c {
        SaleChange::Inserted(n) => {
            row.inserted_rsd = n;
        },
        SaleChange::Paid(n) => {
            row.inserted_rsd = n;
            row.status = "paid".to_string();
        },
        SaleChange::Abandoned(n) => {
            row.inserted_rsd = n;
            row.status = "abandoned".to_string();
        },
        SaleChange::Printed => {
            row.printed = true;
        },
        SaleChange::Reprinted => {
            row.reprinted_count = row.reprinted_count + 1;
        },
    }
}

fn change_sales(sales: &mut Vec<SaleRow>, id: &str, c: SaleChange) -> (r: bool)
    requires
        c == SaleChange::Reprinted ==> can_count(sale_rows(old(sales)@), id@),
    ensures
        sale_rows(final(sales)@) == with_change(sale_rows(old(sales)@), id@, c),
        r == has_sale(sale_rows(old(sales)@), id@),
{
    let ghost before = sale_rows(sales@);
    let ghost after = with_change(before, id@, c);
    let mut found = false;
    let mut i: usize = 0;
    while i < sales.len()
        invariant
            before == sale_rows(old(sales)@),
            after == with_change(before, id@, c),
            i <= sales@.len(),
            sales@.len() == before.len(),
            c == SaleChange::Reprinted ==> can_count(before, id@),
            forall|k: int| 0 <= k < i ==> (#[trigger] sales@[k])@ == after[k],
            forall|k: int| i <= k < sales@.len() ==> (#[trigger] sales@[k])@ == before[k],
            found <==> exists|k: int| 0 <= k < i && #[trigger] before[k].id == id@,
        decreases sales@.len() - i,
    {
        assert(sales@[i as int]@ == before[i as int]);
        if same_text(sales[i].id.as_str(), id) {
            found = true;
            change_row(&mut sales[i], c);
        }
        i = i + 1;
    }
    assert(sale_rows(sales@) =~= after);
    found
}

// ---------------------------------------------------------------------------
// Operations
// ---------------------------------------------------------------------------

/// A ticket as it is first stored: neither printed nor redeemed.
pub open spec fn new_ticket_row(sale_id: Seq<char>, t: TicketView) -> TicketRowView {
    TicketRowView { ticket: t, sale_id, printed_at: None, redeemed_at: None }
}

/// Tickets as they are first stored.
pub open spec fn new_ticket_rows(sale_id: Seq<char>, tickets: Seq<TicketView>) -> Seq<
    TicketRowView,
> {
    tickets.map_values(|t: TicketView| new_ticket_row(sale_id, t))
}

/// Whether the ids of new tickets are distinct and none of them is taken.
pub open spec fn ids_free(tickets: Seq<TicketRowView>, new: Seq<TicketView>) -> bool {
    &&& forall|i: int| 0 <= i < new.len() ==> !has_ticket(tickets, (#[trigger] new[i]).id)
    &&& forall|i: int, j: int|
        0 <= i < j < new.len() ==> (#[trigger] new[i]).id != (#[trigger] new[j]).id
}

/// The tickets of a sale marked as printed now, unless they were before.
pub open spec fn with_print_time(tickets: Seq<TicketRowView>, sale_id: Seq<char>, now: i64) -> Seq<
    TicketRowView,
> {
    tickets.map_values(
        |r: TicketRowView|
            if r.sale_id == sale_id && r.printed_at is None {
                TicketRowView { printed_at: Some(now), ..r }
            } else {
                r
            },
    )
}

/// Whether there is a ticket with this id that was not redeemed.
pub open spec fn redeemable(tickets: Seq<TicketRowView>, id: Seq<char>) -> bool {
    exists|i: int|
        0 <= i < tickets.len() && #[trigger] tickets[i].ticket.id == id && tickets[i].redeemed_at
            is None
}

/// The ticket marked as redeemed now, unless it was before.
pub open spec fn with_redemption(tickets: Seq<TicketRowView>, id: Seq<char>, now: i64) -> Seq<
    TicketRowView,
> {
    tickets.map_values(
        |r: TicketRowView|
            if r.ticket.id == id && r.redeemed_at is None {
                TicketRowView { redeemed_at: Some(now), ..r }
            } else {
                r
            },
    )
}

/// A sale before any cash was taken.
pub open spec fn pending_sale(id: Seq<char>, created_at: i64, total: i64, num_tickets: u32) ->
    SaleRowView {
    SaleRowView {
        id,
        created_at,
        total_rsd: total,
        inserted_rsd: 0,
        num_tickets: num_tickets as i64,
        printed: false,
        reprinted_count: 0,
        status: "pending"@,
    }
}

// ---------------------------------------------------------------------------
// Reads and writes of the tables
// ---------------------------------------------------------------------------

/// The settings that count: the stored ones, or those of a fresh installation.
pub open spec fn settings_in_use(d: DbView) -> SettingsView {
    match d.settings {
        Some(s) => s,
        None => default_settings(),
    }
}

/// A write of the tables.
pub enum DbWrite {
    Settings(SettingsView),
    Secret { name: Seq<char>, value: Seq<u8> },
    NewSale { id: Seq<char>, created_at: i64, total: i64, num_tickets: u32 },
    Inserted { id: Seq<char>, inserted: i64 },
    Paid { id: Seq<char>, inserted: i64, tickets: Seq<TicketView> },
    Abandoned { id: Seq<char>, inserted: i64 },
    Deleted { id: Seq<char> },
    Printed { id: Seq<char>, now: i64 },
    Reprinted { id: Seq<char> },
    Redeemed { ticket_id: Seq<char>, now: i64 },
}

/// The tables after a write. One that is refused leaves them as they were.
pub open spec fn written(d: DbView, w: DbWrite) -> DbView {
    match w {
        DbWrite::Settings(s) => DbView { settings: Some(s), ..d },
        DbWrite::Secret { name, value } => DbView { secrets: d.secrets.insert(name, value), ..d },
        DbWrite::NewSale { id, created_at, total, num_tickets } => if has_sale(d.sales, id) {
            d
        } else {
            DbView { sales: d.sales.push(pending_sale(id, created_at, total, num_tickets)), ..d }
        },
        DbWrite::Inserted { id, inserted } => DbView {
            sales: with_change(d.sales, id, SaleChange::Inserted(inserted)),
            ..d
        },
        DbWrite::Paid { id, inserted, tickets } => if !has_sale(d.sales, id) || !ids_free(
            d.tickets,
            tickets,
        ) {
            d
        } else {
            DbView {
                sales: with_change(d.sales, id, SaleChange::Paid(inserted)),
                tickets: d.tickets + new_ticket_rows(id, tickets),
                ..d
            }
        },
        DbWrite::Abandoned { id, inserted } => DbView {
            sales: with_change(d.sales, id, SaleChange::Abandoned(inserted)),
            ..d
        },
        DbWrite::Deleted { id } => if has_sale(d.sales, id) && sold_in(d.tickets, id) {
            d
        } else {
            DbView { sales: d.sales.filter(|r: SaleRowView| r.id != id), ..d }
        },
        DbWrite::Printed { id, now } => if !has_sale(d.sales, id) {
            d
        } else {
            DbView {
                sales: with_change(d.sales, id, SaleChange::Printed),
                tickets: with_print_time(d.tickets, id, now),
                ..d
            }
        },
        DbWrite::Reprinted { id } => if !has_sale(d.sales, id) {
            d
        } else {
            DbView { sales: with_change(d.sales, id, SaleChange::Reprinted), ..d }
        },
        DbWrite::Redeemed { ticket_id, now } => DbView {
            tickets: with_redemption(d.tickets, ticket_id, now),
            ..d
        },
    }
}

fn sale_exists(sales: &[SaleRow], id: &str) -> (r: bool)
    ensures
        r == has_sale(sale_rows(sales@), id@),
{
    let ghost rows = sale_rows(sales@);
    let mut i: usize = 0;
    while i < sales.len()
        invariant
            rows == sale_rows(sales@),
            i <= sales@.len(),
            forall|k: int| 0 <= k < i ==> #[trigger] rows[k].id != id@,
        decreases sales@.len() - i,
    {
        assert(rows[i as int] == sales@[i as int]@);
        if same_text(sales[i].id.as_str(), id) {
            assert(rows[i as int].id == id@);
            return true;
        }
        i = i + 1;
    }
    false
}

fn ticket_exists(tickets: &[TicketRow], id: &str) -> (r: bool)
    ensures
        r == has_ticket(ticket_rows(tickets@), id@),
{
    let ghost rows = ticket_rows(tickets@);
    let mut i: usize = 0;
    while i < tickets.len()
        invariant
            rows == ticket_rows(tickets@),
            i <= tickets@.len(),
            forall|k: int| 0 <= k < i ==> #[trigger] rows[k].ticket.id != id@,
        decreases tickets@.len() - i,
    {
        assert(rows[i as int] == tickets@[i as int]@);
        if same_text(tickets[i].ticket.id.as_str(), id) {
            assert(rows[i as int].ticket.id == id@);
            return true;
        }
        i = i + 1;
    }
    false
}

fn sale_has_tickets(tickets: &[TicketRow], sale_id: &str) -> (r: bool)
    ensures
        r == sold_in(ticket_rows(tickets@), sale_id@),
{
    let ghost rows = ticket_rows(tickets@);
    let mut i: usize = 0;
    while i < tickets.len()
        invariant
            rows == ticket_rows(tickets@),
            i <= tickets@.len(),
            forall|k: int| 0 <= k < i ==> #[trigger] rows[k].sale_id != sale_id@,
        decreases tickets@.len() - i,
    {
        assert(rows[i as int] == tickets@[i as int]@);
        if same_text(tickets[i].sale_id.as_str(), sale_id) {
            assert(rows[i as int].sale_id == sale_id@);
            return true;
        }
        i = i + 1;
    }
    false
}

fn are_ids_free(tickets: &[TicketRow], new: &[PrintedTicket]) -> (r: bool)
    ensures
        r == ids_free(ticket_rows(tickets@), ticket_views(new@)),
{
    let ghost rows = ticket_rows(tickets@);
    let ghost fresh = ticket_views(new@);
    let mut i: usize = 0;
    while i < new.len()
        invariant
            rows == ticket_rows(tickets@),
            fresh == ticket_views(new@),
            i <= new@.len(),
            forall|k: int| 0 <= k < i ==> !has_ticket(rows, (#[trigger] fresh[k]).id),
            forall|k: int, j: int|
                0 <= k < j < i ==> (#[trigger] fresh[k]).id != (#[trigger] fresh[j]).id,
        decreases new@.len() - i,
    {
        assert(fresh[i as int] == new@[i as int]@);
        if ticket_exists(tickets, new[i].id.as_str()) {
            return false;
        }
        let mut j: usize = 0;
        while j < i
            invariant
                fresh == ticket_views(new@),
                j <= i < new@.len(),
                forall|k: int| 0 <= k < j ==> (#[trigger] fresh[k]).id != fresh[i as int].id,
            decreases i - j,
        {
            assert(fresh[j as int] == new@[j as int]@);
            assert(fresh[i as int] == new@[i as int]@);
            if same_text(new[j].id.as_str(), new[i].id.as_str()) {
                return false;
            }
            j = j + 1;
        }
        i = i + 1;
    }
    true
}

fn add_tickets(tickets: &mut Vec<TicketRow>, sale_id: &str, new: &[PrintedTicket])
    ensures
        ticket_rows(final(tickets)@) == ticket_rows(old(tickets)@) + new_ticket_rows(
            sale_id@,
            ticket_views(new@),
        ),
{
    let ghost before = ticket_rows(tickets@);
    let ghost fresh = new_ticket_rows(sale_id@, ticket_views(new@));
    let mut i: usize = 0;
    assert(ticket_rows(tickets@) =~= before + fresh.take(0));
    while i < new.len()
        invariant
            before == ticket_rows(old(tickets)@),
            fresh == new_ticket_rows(sale_id@, ticket_views(new@)),
            i <= new@.len(),
            ticket_rows(tickets@) == before + fresh.take(i as int),
        decreases new@.len() - i,
    {
        let row = TicketRow {
            ticket: new[i].clone(),
            sale_id: sale_id.to_string(),
            printed_at: None,
            redeemed_at: None,
        };
        let ghost so_far = ticket_rows(tickets@);
        tickets.push(row);
        assert(ticket_rows(tickets@) =~= so_far.push(row@));
        assert(row@ == fresh[i as int]);
        assert(fresh.take(i + 1) =~= fresh.take(i as int).push(fresh[i as int]));
        assert(ticket_rows(tickets@) =~= before + fresh.take(i + 1));
        i = i + 1;
    }
    assert(fresh.take(i as int) =~= fresh);
}

proof fn lemma_secret_replaced(rows: Seq<SecretRow>, i: int, row: SecretRow)
    requires
        0 <= i < rows.len(),
        rows[i].name@ == row.name@,
        forall|k: int| i < k < rows.len() ==> (#[trigger] rows[k]).name@ != row.name@,
    ensures
        secret_map(rows.update(i, row)) == secret_map(rows).insert(row.name@, row.value@),
    decreases rows.len(),
{
    let after = rows.update(i, row);
    if i == rows.len() - 1 {
        assert(after.drop_last() =~= rows.drop_last());
        assert(secret_map(after) =~= secret_map(rows).insert(row.name@, row.value@));
    } else {
        assert(rows[rows.len() - 1].name@ != row.name@);
        lemma_secret_replaced(rows.drop_last(), i, row);
        assert(after.drop_last() =~= rows.drop_last().update(i, row));
        assert(secret_map(after) =~= secret_map(rows).insert(row.name@, row.value@));
    }
}

/// A copy of some bytes.
pub fn copy_bytes(v: &[u8]) -> (r: Vec<u8>)
    ensures
        r@ == v@,
{
    let mut out: Vec<u8> = Vec::new();
    let mut i: usize = 0;
    while i < v.len()
        invariant
            i <= v@.len(),
            out@ == v@.take(i as int),
        decreases v@.len() - i,
    {
        out.push(v[i]);
        assert(v@.take(i + 1) =~= v@.take(i as int).push(v@[i as int]));
        i = i + 1;
    }
    assert(v@.take(i as int) =~= v@);
    out
}

impl Db {
    /// Empty tables.
    pub fn new() -> (r: Db)
        ensures
            r@ == (DbView {
                settings: None,
                secrets: Map::empty(),
                sales: Seq::empty(),
                tickets: Seq::empty(),
            }),
            consistent(r@),
    {
        let r = Db {
            settings: None,
            secrets: Vec::new(),
            sales: Vec::new(),
            tickets: Vec::new(),
        };
        assert(r@.sales =~= Seq::<SaleRowView>::empty());
        assert(r@.tickets =~= Seq::<TicketRowView>::empty());
        r
    }

    /// The stored settings; those of a fresh installation where there are none that can be
    /// read.
    pub fn load_settings(&self) -> (r: KioskResult<Settings>)
        ensures
            r matches Ok(v) && v@ == settings_in_use(self@),
    {
        match &self.settings {
            Some(s) => Ok(s.clone()),
            None => Ok(Settings::default()),
        }
    }

    /// Stores the settings in place of those stored before.
    pub fn save_settings(&mut self, s: &Settings) -> (r: KioskResult<()>)
        ensures
            r is Ok,
            final(self)@ == written(old(self)@, DbWrite::Settings(s@)),
    {
        self.settings = Some(s.clone());
        Ok(())
    }

    /// The secret of this name.
    pub fn get_secret(&self, name: &str) -> (r: KioskResult<Option<Vec<u8>>>)
        ensures
            r matches Ok(v) && match v {
                Some(value) => self@.secrets.contains_pair(name@, value@),
                None => !self@.secrets.contains_key(name@),
            },
    {
        let ghost rows = self.secrets@;
        let mut i: usize = self.secrets.len();
        assert(rows.take(i as int) =~= rows);
        while i > 0
            invariant
                rows == self.secrets@,
                i <= rows.len(),
                secret_map(rows).contains_key(name@) == secret_map(
                    rows.take(i as int),
                ).contains_key(name@),
                secret_map(rows).contains_key(name@) ==> secret_map(rows)[name@] == secret_map(
                    rows.take(i as int),
                )[name@],
            decreases i,
        {
            assert(rows.take(i as int).drop_last() =~= rows.take(i - 1));
            assert(rows.take(i as int).last() == rows[i - 1]);
            i = i - 1;
            if same_text(self.secrets[i].name.as_str(), name) {
                return Ok(Some(copy_bytes(&self.secrets[i].value)));
            }
        }
        assert(rows.take(0) =~= Seq::<SecretRow>::empty());
        Ok(None)
    }

    /// Stores a secret in place of the one stored under this name before.
    pub fn set_secret(&mut self, name: &str, val: &[u8]) -> (r: KioskResult<()>)
        ensures
            r is Ok,
            final(self)@ == written(
                old(self)@,
                DbWrite::Secret { name: name@, value: val@ },
            ),
    {
        let ghost rows = self.secrets@;
        let row = SecretRow { name: name.to_string(), value: copy_bytes(val) };
        let mut i: usize = self.secrets.len();
        while i > 0
            invariant
                rows == self.secrets@,
                rows == old(self).secrets@,
                self.sales == old(self).sales,
                self.tickets == old(self).tickets,
                self.settings == old(self).settings,
                row.name@ == name@,
                row.value@ == val@,
                i <= rows.len(),
                forall|k: int| i <= k < rows.len() ==> (#[trigger] rows[k]).name@ != name@,
            decreases i,
        {
            i = i - 1;
            if same_text(self.secrets[i].name.as_str(), name) {
                self.secrets.set(i, row);
                proof {
                    lemma_secret_replaced(rows, i as int, row);
                }
                return Ok(());
            }
        }
        self.secrets.push(row);
        assert(self.secrets@.drop_last() =~= rows);
        Ok(())
    }

    /// Inserts a sale before cash is taken, so that there is a row for every note to be
    /// attached to. Tickets follow only once the sale is paid.
    pub fn create_pending_sale(
        &mut self,
        sale_id: &str,
        created_at: i64,
        total_rsd: i64,
        num_tickets: u32,
    ) -> (r: KioskResult<()>)
        ensures
            if has_sale(old(self)@.sales, sale_id@) {
                r matches Err(e) && e@ == ErrorView::Db("UNIQUE constraint failed: sales.id"@)
            } else {
                r is Ok
            },
            final(self)@ == written(
                old(self)@,
                DbWrite::NewSale { id: sale_id@, created_at, total: total_rsd, num_tickets },
            ),
    {
        if sale_exists(&self.sales, sale_id) {
            return Err(db_error("UNIQUE constraint failed: sales.id"));
        }
        let row = SaleRow {
            id: sale_id.to_string(),
            created_at,
            total_rsd,
            inserted_rsd: 0,
            num_tickets: num_tickets as i64,
            printed: false,
            reprinted_count: 0,
            status: "pending".to_string(),
        };
        let ghost before = sale_rows(self.sales@);
        self.sales.push(row);
        assert(sale_rows(self.sales@) =~= before.push(row@));
        Ok(())
    }

    /// Stores the cash taken so far.
    pub fn update_inserted(&mut self, sale_id: &str, inserted_rsd: i64) -> (r: KioskResult<()>)
        ensures
            r is Ok,
            final(self)@ == written(
                old(self)@,
                DbWrite::Inserted { id: sale_id@, inserted: inserted_rsd },
            ),
    {
        change_sales(&mut self.sales, sale_id, SaleChange::Inserted(inserted_rsd));
        Ok(())
    }

    /// Marks a sale as paid and stores its tickets, both or neither.
    pub fn finalize_paid(
        &mut self,
        sale_id: &str,
        inserted_rsd: i64,
        tickets: &[PrintedTicket],
    ) -> (r: KioskResult<()>)
        ensures
            if !has_sale(old(self)@.sales, sale_id@) {
                &&& r matches Err(e)
                &&& e@ == ErrorView::Db("prodaja za finalizaciju nije pronađena: "@ + sale_id@)
            } else if !ids_free(old(self)@.tickets, ticket_views(tickets@)) {
                r matches Err(e) && e@ == ErrorView::Db("UNIQUE constraint failed: tickets.id"@)
            } else {
                r is Ok
            },
            final(self)@ == written(
                old(self)@,
                DbWrite::Paid {
                    id: sale_id@,
                    inserted: inserted_rsd,
                    tickets: ticket_views(tickets@),
                },
            ),
    {
        if !sale_exists(&self.sales, sale_id) {
            return Err(
                KioskError::Db(
                    "prodaja za finalizaciju nije pronađena: ".to_string().concat(sale_id),
                ),
            );
        }
        if !are_ids_free(&self.tickets, tickets) {
            return Err(db_error("UNIQUE constraint failed: tickets.id"));
        }
        change_sales(&mut self.sales, sale_id, SaleChange::Paid(inserted_rsd));
        add_tickets(&mut self.tickets, sale_id, tickets);
        Ok(())
    }

    /// Marks a sale as abandoned, with the cash that was taken. No tickets are issued.
    pub fn mark_abandoned(&mut self, sale_id: &str, inserted_rsd: i64) -> (r: KioskResult<()>)
        ensures
            r is Ok,
            final(self)@ == written(
                old(self)@,
                DbWrite::Abandoned { id: sale_id@, inserted: inserted_rsd },
            ),
    {
        change_sales(&mut self.sales, sale_id, SaleChange::Abandoned(inserted_rsd));
        Ok(())
    }

    /// Removes a sale. One with tickets stays.
    pub fn delete_sale(&mut self, sale_id: &str) -> (r: KioskResult<()>)
        ensures
            if has_sale(old(self)@.sales, sale_id@) && sold_in(old(self)@.tickets, sale_id@) {
                r matches Err(e) && e@ == ErrorView::Db("FOREIGN KEY constraint failed"@)
            } else {
                r is Ok
            },
            final(self)@ == written(old(self)@, DbWrite::Deleted { id: sale_id@ }),
    {
        if sale_exists(&self.sales, sale_id) && sale_has_tickets(&self.tickets, sale_id) {
            return Err(db_error("FOREIGN KEY constraint failed"));
        }
        let ghost all = sale_rows(self.sales@);
        let ghost keep = |r: SaleRowView| r.id != sale_id@;
        let mut i: usize = 0;
        let ghost mut done: int = 0;
        assert(all.take(0).filter(keep) =~= Seq::<SaleRowView>::empty()) by {
            reveal(Seq::filter);
        }
        assert(sale_rows(self.sales@) =~= all.take(0).filter(keep) + all.skip(0));
        while i < self.sales.len()
            invariant
                keep == (|r: SaleRowView| r.id != sale_id@),
                0 <= done <= all.len(),
                i <= self.sales@.len(),
                i == all.take(done).filter(keep).len(),
                sale_rows(self.sales@) == all.take(done).filter(keep) + all.skip(done),
                self.tickets == old(self).tickets,
                self.secrets == old(self).secrets,
                self.settings == old(self).settings,
            decreases all.len() - done,
        {
            proof {
                reveal(Seq::filter);
                assert(sale_rows(self.sales@)[i as int] == self.sales@[i as int]@);
                assert(sale_rows(self.sales@).len() == i + (all.len() - done));
                assert(sale_rows(self.sales@)[i as int] == all.skip(done)[0]);
                assert(all.take(done + 1).drop_last() =~= all.take(done));
                assert(all.take(done + 1).last() == all[done]);
            }
            let ghost rows = sale_rows(self.sales@);
            if same_text(self.sales[i].id.as_str(), sale_id) {
                self.sales.remove(i);
                assert(sale_rows(self.sales@) =~= rows.remove(i as int));
                assert(sale_rows(self.sales@) =~= all.take(done + 1).filter(keep) + all.skip(
                    done + 1,
                ));
            } else {
                i = i + 1;
                assert(rows =~= all.take(done + 1).filter(keep) + all.skip(done + 1));
            }
            proof {
                done = done + 1;
            }
        }
        assert(all.take(done) =~= all) by {
            assert(sale_rows(self.sales@).len() == self.sales@.len());
        }
        assert(sale_rows(self.sales@) =~= all.filter(keep));
        Ok(())
    }

    /// Marks a sale as printed, and with it the tickets that were not printed before.
    pub fn mark_printed(&mut self, sale_id: &str, now: i64) -> (r: KioskResult<()>)
        ensures
            if !has_sale(old(self)@.sales, sale_id@) {
                r matches Err(e) && e@ == missing_sale(sale_id@)
            } else {
                r is Ok
            },
            final(self)@ == written(old(self)@, DbWrite::Printed { id: sale_id@, now }),
    {
        if !sale_exists(&self.sales, sale_id) {
            return Err(missing(sale_id));
        }
        change_sales(&mut self.sales, sale_id, SaleChange::Printed);
        let ghost before = ticket_rows(self.tickets@);
        let ghost after = with_print_time(before, sale_id@, now);
        let ghost sales = self.sales@;
        let mut i: usize = 0;
        while i < self.tickets.len()
            invariant
                after == with_print_time(before, sale_id@, now),
                i <= self.tickets@.len(),
                self.tickets@.len() == before.len(),
                forall|k: int| 0 <= k < i ==> (#[trigger] self.tickets@[k])@ == after[k],
                forall|k: int|
                    i <= k < self.tickets@.len() ==> (#[trigger] self.tickets@[k])@ == before[k],
                self.sales@ == sales,
                self.secrets == old(self).secrets,
                self.settings == old(self).settings,
            decreases self.tickets@.len() - i,
        {
            assert(self.tickets@[i as int]@ == before[i as int]);
            if same_text(self.tickets[i].sale_id.as_str(), sale_id)
                && self.tickets[i].printed_at.is_none() {
                self.tickets[i].printed_at = Some(now);
            }
            i = i + 1;
        }
        assert(ticket_rows(self.tickets@) =~= after);
        Ok(())
    }

    /// Counts a reprint of a sale.
    pub fn inc_reprint(&mut self, sale_id: &str) -> (r: KioskResult<()>)
        requires
            can_count(old(self)@.sales, sale_id@),
        ensures
            if !has_sale(old(self)@.sales, sale_id@) {
                r matches Err(e) && e@ == missing_sale(sale_id@)
            } else {
                r is Ok
            },
            final(self)@ == written(old(self)@, DbWrite::Reprinted { id: sale_id@ }),
    {
        if !sale_exists(&self.sales, sale_id) {
            return Err(missing(sale_id));
        }
        change_sales(&mut self.sales, sale_id, SaleChange::Reprinted);
        Ok(())
    }

    /// Redeems a ticket at the entrance: `true` exactly once for each ticket.
    pub fn redeem_ticket(&mut self, ticket_id: &str, now: i64) -> (r: KioskResult<bool>)
        ensures
            r == Ok::<bool, KioskError>(redeemable(old(self)@.tickets, ticket_id@)),
            final(self)@ == written(
                old(self)@,
                DbWrite::Redeemed { ticket_id: ticket_id@, now },
            ),
    {
        let ghost before = ticket_rows(self.tickets@);
        let ghost after = with_redemption(before, ticket_id@, now);
        let mut found = false;
        let mut i: usize = 0;
        while i < self.tickets.len()
            invariant
                after == with_redemption(before, ticket_id@, now),
                i <= self.tickets@.len(),
                self.tickets@.len() == before.len(),
                forall|k: int| 0 <= k < i ==> (#[trigger] self.tickets@[k])@ == after[k],
                forall|k: int|
                    i <= k < self.tickets@.len() ==> (#[trigger] self.tickets@[k])@ == before[k],
                found <==> exists|k: int|
                    0 <= k < i && #[trigger] before[k].ticket.id == ticket_id@
                        && before[k].redeemed_at is None,
                self.sales == old(self).sales,
                self.secrets == old(self).secrets,
                self.settings == old(self).settings,
            decreases self.tickets@.len() - i,
        {
            assert(self.tickets@[i as int]@ == before[i as int]);
            if same_text(self.tickets[i].ticket.id.as_str(), ticket_id)
                && self.tickets[i].redeemed_at.is_none() {
                self.tickets[i].redeemed_at = Some(now);
                found = true;
                assert(before[i as int].ticket.id == ticket_id@);
            }
            i = i + 1;
        }
        assert(ticket_rows(self.tickets@) =~= after);
        Ok(found)
    }
}

} // verus!
