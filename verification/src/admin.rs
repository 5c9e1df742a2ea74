//! What the staff does: settings, the PIN, test prints and reprints.

use vstd::prelude::*;
use vstd::string::*;
use vstd::utf8::{
    encode_utf8, encode_utf8_decode_utf8, is_ascii_chars, is_ascii_chars_encode_utf8,
};

use crate::commands::{device_status, mint_ticket, opt_sale, probe_detail, ticket_for};
use crate::db::{Db, DbView};
use crate::ids::{is_random_id, new_id};
use crate::models::{
    opt_text, ticket_views, type_views, DeviceStatus, DeviceStatusView, ErrorView, KioskError,
    KioskResult, PrintedTicket, SaleRecord, Settings, SettingsView, TicketType, TicketTypeView,
};
use crate::text::{
    bytes_of, chars_of, decimal, decimal_i64, has_char, is_digit, same_text, trim, trimmed,
};

verus! {

// ---------------------------------------------------------------------------
// The PIN
// ---------------------------------------------------------------------------

/// The text that `String::from_utf8_lossy` makes of bytes.
pub uninterp spec fn utf8_lossy(bytes: Seq<u8>) -> Seq<char>;

/// `String::from_utf8_lossy`: bytes that are the UTF-8 form of a text give that text. What it
/// puts in the place of other bytes is named, not stated.
#[verifier::external_body]
fn lossy_text(bytes: &[u8]) -> (r: String)
    ensures
        r@ == utf8_lossy(bytes@),
        forall|t: Seq<char>| bytes@ == #[trigger] encode_utf8(t) ==> r@ == t,
{
    String::from_utf8_lossy(bytes).into_owned()
}

/// The PIN that is valid: the stored one, or the first one of a fresh installation.
pub open spec fn pin_in_use(d: DbView) -> Seq<char> {
    if d.secrets.contains_key("admin_pin"@) {
        utf8_lossy(d.secrets["admin_pin"@])
    } else {
        "1234"@
    }
}

/// The PIN that is valid.
pub fn get_pin(db: &Db) -> (r: KioskResult<String>)
    ensures
        r matches Ok(p) && p@ == pin_in_use(db@),
        forall|t: Seq<char>|
            db@.secrets.contains_pair("admin_pin"@, #[trigger] encode_utf8(t)) ==> (r matches Ok(p)
                && p@ == t),
{
    match db.get_secret("admin_pin") {
        Err(e) => Err(e),
        Ok(Some(bytes)) => Ok(lossy_text(&bytes)),
        Ok(None) => Ok("1234".to_string()),
    }
}

/// Stores a PIN.
pub fn set_pin(db: &mut Db, pin: &str) -> (r: KioskResult<()>)
    ensures
        r is Ok,
        final(db)@ == (DbView {
            secrets: old(db)@.secrets.insert("admin_pin"@, encode_utf8(pin@)),
            ..old(db)@
        }),
{
    db.set_secret("admin_pin", &bytes_of(pin))
}

/// A byte of a list; zero behind its end.
spec fn padded(v: Seq<u8>, i: int) -> u8 {
    if 0 <= i < v.len() {
        v[i]
    } else {
        0
    }
}

/// Compares two texts without stopping at the first difference.
pub fn ct_eq(a: &str, b: &str) -> (r: bool)
    ensures
        r == (a@ == b@),
{
    let x = bytes_of(a);
    let y = bytes_of(b);
    let n: usize = if x.len() > y.len() {
        x.len()
    } else {
        y.len()
    };
    let mut acc: u8 = if x.len() == y.len() {
        0
    } else {
        1
    };
    let mut i: usize = 0;
    while i < n
        invariant
            i <= n,
            n == if x@.len() > y@.len() {
                x@.len()
            } else {
                y@.len()
            },
            acc == 0 <==> x@.len() == y@.len() && forall|k: int|
                0 <= k < i ==> #[trigger] padded(x@, k) == padded(y@, k),
        decreases n - i,
    {
        let p: u8 = if i < x.len() {
            x[i]
        } else {
            0
        };
        let q: u8 = if i < y.len() {
            y[i]
        } else {
            0
        };
        assert(p == padded(x@, i as int));
        assert(q == padded(y@, i as int));
        assert(acc | (p ^ q) == 0 <==> acc == 0 && p == q) by (bit_vector);
        acc = acc | (p ^ q);
        i = i + 1;
    }
    proof {
        if acc == 0 {
            assert forall|k: int| 0 <= k < x@.len() implies x@[k] == y@[k] by {
                assert(padded(x@, k) == padded(y@, k));
            }
            assert(x@ =~= y@);
            encode_utf8_decode_utf8(a@);
            encode_utf8_decode_utf8(b@);
        }
    }
    acc == 0
}

/// Whether this is the PIN.
pub fn admin_login(db: &Db, pin: &str) -> (r: KioskResult<bool>)
    ensures
        r matches Ok(v) && v == (pin@ == pin_in_use(db@)),
        forall|t: Seq<char>|
            db@.secrets.contains_pair("admin_pin"@, #[trigger] encode_utf8(t)) ==> (r matches Ok(v)
                && v == (pin@ == t)),
{
    match get_pin(db) {
        Ok(stored) => Ok(ct_eq(pin, stored.as_str())),
        Err(e) => Err(e),
    }
}

/// Whether the application may be closed with this PIN.
pub fn admin_exit(db: &Db, pin: &str) -> (r: KioskResult<()>)
    ensures
        if pin@ == pin_in_use(db@) {
            r is Ok
        } else {
            r matches Err(e) && e@ == ErrorView::BadPin
        },
{
    match admin_login(db, pin) {
        Ok(true) => Ok(()),
        Ok(false) => Err(KioskError::BadPin),
        Err(e) => Err(e),
    }
}

/// Whether a text can be a PIN: at least four bytes, all of them digits.
pub open spec fn acceptable_pin(pin: Seq<char>) -> bool {
    encode_utf8(pin).len() >= 4 && forall|i: int| 0 <= i < pin.len() ==> is_digit(#[trigger] pin[i])
}

fn is_acceptable_pin(pin: &str) -> (r: bool)
    ensures
        r == acceptable_pin(pin@),
{
    if bytes_of(pin).len() < 4 {
        return false;
    }
    let chars = chars_of(pin);
    let mut i: usize = 0;
    while i < chars.len()
        invariant
            chars@ == pin@,
            i <= chars@.len(),
            forall|k: int| 0 <= k < i ==> is_digit(#[trigger] pin@[k]),
        decreases chars@.len() - i,
    {
        let c: char = chars[i];
        if !('0' <= c && c <= '9') {
            assert(!is_digit(pin@[i as int]));
            return false;
        }
        i = i + 1;
    }
    true
}

/// Changes the PIN, for who knows the old one.
pub fn admin_change_pin(db: &mut Db, old_pin: &str, new_pin: &str) -> (r: KioskResult<()>)
    ensures
        if old_pin@ != pin_in_use(old(db)@) {
            &&& r matches Err(e)
            &&& e@ == ErrorView::BadPin
            &&& final(db)@ == old(db)@
        } else if !acceptable_pin(new_pin@) {
            &&& r matches Err(e)
            &&& e@ == ErrorView::Config("PIN mora imati bar 4 cifre"@)
            &&& final(db)@ == old(db)@
        } else {
            &&& r is Ok
            &&& final(db)@ == (DbView {
                secrets: old(db)@.secrets.insert("admin_pin"@, encode_utf8(new_pin@)),
                ..old(db)@
            })
        },
{
    let stored = match get_pin(db) {
        Ok(p) => p,
        Err(e) => return Err(e),
    };
    if !ct_eq(old_pin, stored.as_str()) {
        return Err(KioskError::BadPin);
    }
    if !is_acceptable_pin(new_pin) {
        return Err(KioskError::Config("PIN mora imati bar 4 cifre".to_string()));
    }
    set_pin(db, new_pin)
}

// ---------------------------------------------------------------------------
// Prices
// ---------------------------------------------------------------------------

/// Whether an earlier type has the same code but for white space at its ends.
pub open spec fn code_taken(earlier: Seq<TicketTypeView>, code: Seq<char>) -> bool {
    exists|i: int| 0 <= i < earlier.len() && trimmed(#[trigger] earlier[i].code) == trimmed(code)
}

/// What is wrong with a ticket type, behind these others. A code is part of a token, so it
/// must not be blank or have a bar in it.
pub open spec fn type_error(earlier: Seq<TicketTypeView>, t: TicketTypeView) -> Option<ErrorView> {
    if trimmed(t.code).len() == 0 || t.code.contains('|') {
        Some(ErrorView::Config("neispravan kod tipa karte: '"@ + t.code + "'"@))
    } else if code_taken(earlier, t.code) {
        Some(ErrorView::Config("dupli kod tipa karte: '"@ + trimmed(t.code) + "'"@))
    } else if t.price_rsd <= 0 || t.price_rsd % 100 != 0 {
        Some(
            ErrorView::Config(
                "cena za '"@ + t.code + "' mora biti pozitivan umnožak 100 ("@ + decimal(
                    t.price_rsd as int,
                ) + ")"@,
            ),
        )
    } else {
        None
    }
}

/// The first thing wrong with a list of ticket types.
pub open spec fn first_type_error(types: Seq<TicketTypeView>) -> Option<ErrorView>
    decreases types.len(),
{
    if types.len() == 0 {
        None
    } else {
        match first_type_error(types.drop_last()) {
            Some(e) => Some(e),
            None => type_error(types.drop_last(), types.last()),
        }
    }
}

/// What is wrong with a list of ticket types, if anything is.
pub open spec fn price_list_error(types: Seq<TicketTypeView>) -> Option<ErrorView> {
    if types.len() == 0 {
        Some(ErrorView::Config("lista tipova karata je prazna"@))
    } else {
        first_type_error(types)
    }
}

fn is_code_taken(types: &[TicketType], n: usize, code: &str) -> (r: bool)
    requires
        n <= types@.len(),
    ensures
        r == code_taken(type_views(types@).take(n as int), code@),
{
    let ghost earlier = type_views(types@).take(n as int);
    let wanted = trim(code);
    let mut i: usize = 0;
    while i < n
        invariant
            n <= types@.len(),
            earlier == type_views(types@).take(n as int),
            wanted@ == trimmed(code@),
            i <= n,
            forall|k: int| 0 <= k < i ==> trimmed(#[trigger] earlier[k].code) != trimmed(code@),
        decreases n - i,
    {
        assert(earlier[i as int] == types@[i as int]@);
        if same_text(trim(types[i].code.as_str()).as_str(), wanted.as_str()) {
            assert(trimmed(earlier[i as int].code) == trimmed(code@));
            return true;
        }
        i = i + 1;
    }
    false
}

fn check_type(types: &[TicketType], n: usize) -> (r: KioskResult<()>)
    requires
        n < types@.len(),
    ensures
        match type_error(type_views(types@).take(n as int), type_views(types@)[n as int]) {
            None => r is Ok,
            Some(t) => r matches Err(e) && e@ == t,
        },
{
    let code = types[n].code.as_str();
    if trim(code).as_str().unicode_len() == 0 || has_char(code, '|') {
        return Err(
            KioskError::Config("neispravan kod tipa karte: '".to_string().concat(code).concat("'")),
        );
    }
    if is_code_taken(types, n, code) {
        return Err(
            KioskError::Config(
                "dupli kod tipa karte: '".to_string().concat(trim(code).as_str()).concat("'"),
            ),
        );
    }
    let price: i64 = types[n].price_rsd;
    if price <= 0 || price % 100 != 0 {
        return Err(
            KioskError::Config(
                "cena za '".to_string().concat(code).concat(
                    "' mora biti pozitivan umnožak 100 (",
                ).concat(decimal_i64(price).as_str()).concat(")"),
            ),
        );
    }
    Ok(())
}

proof fn lemma_first_type_error(types: Seq<TicketTypeView>, n: int)
    requires
        0 <= n <= types.len(),
        first_type_error(types.take(n)) is Some,
    ensures
        first_type_error(types) == first_type_error(types.take(n)),
    decreases types.len() - n,
{
    if n == types.len() {
        assert(types.take(n) =~= types);
    } else {
        assert(types.take(n + 1).drop_last() =~= types.take(n));
        lemma_first_type_error(types, n + 1);
    }
}

/// Sets the ticket types and their prices.
pub fn admin_set_prices(settings: &mut Settings, ticket_types: Vec<TicketType>) -> (r: KioskResult<
    (),
>)
    ensures
        match price_list_error(type_views(ticket_types@)) {
            Some(t) => {
                &&& r matches Err(e)
                &&& e@ == t
                &&& *final(settings) == *old(settings)
            },
            None => {
                &&& r is Ok
                &&& final(settings)@ == (SettingsView {
                    ticket_types: type_views(ticket_types@),
                    ..old(settings)@
                })
            },
        },
{
    let ghost types = type_views(ticket_types@);
    if ticket_types.len() == 0 {
        return Err(KioskError::Config("lista tipova karata je prazna".to_string()));
    }
    let mut i: usize = 0;
    assert(types.take(0) =~= Seq::<TicketTypeView>::empty());
    while i < ticket_types.len()
        invariant
            types == type_views(ticket_types@),
            ticket_types@.len() > 0,
            i <= ticket_types@.len(),
            first_type_error(types.take(i as int)) is None,
            *settings == *old(settings),
        decreases ticket_types@.len() - i,
    {
        proof {
            assert(types.take(i + 1).drop_last() =~= types.take(i as int));
            assert(types.take(i + 1).last() == types[i as int]);
        }
        match check_type(&ticket_types, i) {
            Ok(_) => {},
            Err(e) => {
                proof {
                    lemma_first_type_error(types, i + 1);
                }
                return Err(e);
            },
        }
        i = i + 1;
    }
    assert(types.take(i as int) =~= types);
    settings.ticket_types = ticket_types;
    Ok(())
}

/// In a list that is accepted every code fits into a token, every price is positive and whole
/// hundreds, and no two codes are the same.
pub proof fn law_accepted_prices_are_sound(types: Seq<TicketTypeView>, i: int, j: int)
    requires
        price_list_error(types) is None,
        0 <= i < types.len(),
        0 <= j < types.len(),
    ensures
        types[i].code.len() > 0,
        !types[i].code.contains('|'),
        types[i].price_rsd > 0,
        types[i].price_rsd % 100 == 0,
        i != j ==> types[i].code != types[j].code,
    decreases types.len(),
{
    let head = types.drop_last();
    let n = types.len() - 1;
    assert(type_error(head, types.last()) is None);
    assert(types[n] == types.last());
    if i < n && j < n {
        law_accepted_prices_are_sound(head, i, j);
        assert(head[i] == types[i] && head[j] == types[j]);
    } else if i == n && j < n {
        assert(head[j].code == types[j].code);
    } else if i < n && j == n {
        law_accepted_prices_are_sound(head, i, i);
        assert(head[i].code == types[i].code);
    }
}

// ---------------------------------------------------------------------------
// Devices
// ---------------------------------------------------------------------------

/// A text without the white space at its ends; nothing where that leaves nothing.
pub open spec fn normalized(value: Option<Seq<char>>) -> Option<Seq<char>> {
    match value {
        Some(s) => if trimmed(s).len() == 0 {
            None
        } else {
            Some(trimmed(s))
        },
        None => None,
    }
}

/// A text without the white space at its ends; nothing where that leaves nothing.
pub fn normalize_port(value: Option<String>) -> (r: Option<String>)
    ensures
        opt_text(r) == normalized(opt_text(value)),
{
    match value {
        Some(s) => {
            let t = trim(s.as_str());
            if t.as_str().unicode_len() == 0 {
                None
            } else {
                Some(t)
            }
        },
        None => None,
    }
}

pub open spec fn at_most(n: u32, limit: u32) -> u32 {
    if n > limit {
        limit
    } else {
        n
    }
}

fn limited(n: u32, limit: u32) -> (r: u32)
    ensures
        r == at_most(n, limit),
{
    if n > limit {
        limit
    } else {
        n
    }
}

/// The longest feed, in millimetres.
pub const MAX_FEED_MM: u32 = 200;

/// The widest paper, in millimetres.
pub const MAX_PAPER_WIDTH_MM: u32 = 120;

/// Sets the ports of the devices and the feeds; a blank port leaves the choice open, and a
/// paper width of zero stands for the usual one.
pub fn admin_set_devices(
    settings: &mut Settings,
    nv9_port: Option<String>,
    printer_port: Option<String>,
    printer_windows_name: Option<String>,
    feed_before_mm: u32,
    feed_after_mm: u32,
    paper_width_mm: u32,
)
    ensures
        final(settings)@ == (SettingsView {
            nv9_port: normalized(opt_text(nv9_port)),
            printer_port: normalized(opt_text(printer_port)),
            printer_windows_name: normalized(opt_text(printer_windows_name)),
            feed_before_cut_mm: at_most(feed_before_mm, MAX_FEED_MM),
            feed_after_cut_mm: at_most(feed_after_mm, MAX_FEED_MM),
            paper_width_mm: if paper_width_mm == 0 {
                80
            } else {
                at_most(paper_width_mm, MAX_PAPER_WIDTH_MM)
            },
            ..old(settings)@
        }),
{
    settings.nv9_port = normalize_port(nv9_port);
    settings.printer_port = normalize_port(printer_port);
    settings.printer_windows_name = normalize_port(printer_windows_name);
    settings.feed_before_cut_mm = limited(feed_before_mm, MAX_FEED_MM);
    settings.feed_after_cut_mm = limited(feed_after_mm, MAX_FEED_MM);
    settings.paper_width_mm = if paper_width_mm == 0 {
        80
    } else {
        limited(paper_width_mm, MAX_PAPER_WIDTH_MM)
    };
}

/// Switches the simple mode on or off.
pub fn admin_set_simple_mode(settings: &mut Settings, enabled: bool)
    ensures
        final(settings)@ == (SettingsView { simple_mode: enabled, ..old(settings)@ }),
{
    settings.simple_mode = enabled;
}

/// The status of the devices for the staff. The validator was not probed where there is no
/// port for it.
pub fn admin_device_status(validator: Option<KioskResult<String>>, printer: KioskResult<String>) ->
    (r: DeviceStatus)
    ensures
        r@ == (DeviceStatusView {
            validator_connected: validator matches Some(v) && probe_detail(v).0,
            validator_detail: match validator {
                Some(v) => probe_detail(v).1,
                None => "nijedan port nije pronađen"@,
            },
            printer_connected: probe_detail(printer).0,
            printer_detail: probe_detail(printer).1,
        }),
{
    match validator {
        Some(v) => device_status(v, printer),
        None => {
            let mut r = device_status(Ok("".to_string()), printer);
            r.validator_connected = false;
            r.validator_detail = "nijedan port nije pronađen".to_string();
            r
        },
    }
}

// ---------------------------------------------------------------------------
// Prints
// ---------------------------------------------------------------------------

/// The tickets of a sale that is printed once more, whatever its status.
pub fn admin_reprint(sale: Option<SaleRecord>, sale_id: &str) -> (r: KioskResult<
    Vec<PrintedTicket>,
>)
    ensures
        match opt_sale(sale) {
            Some(s) => r matches Ok(t) && ticket_views(t@) == s.tickets,
            None => r matches Err(e) && e@ == ErrorView::Other(
                "prodaja '"@ + sale_id@ + "' nije pronađena"@,
            ),
        },
{
    match sale {
        Some(s) => Ok(s.tickets),
        None => Err(
            KioskError::Other(
                "prodaja '".to_string().concat(sale_id).concat("' nije pronađena"),
            ),
        ),
    }
}

/// The type of a test ticket.
pub open spec fn test_type() -> TicketTypeView {
    TicketTypeView { code: "test"@, label: "TEST KARTA"@, price_rsd: 0 }
}

/// A ticket that tests the printer: signed like any other, but worth nothing.
pub fn test_ticket(id: String, secret: &[u8], now: i64) -> (r: PrintedTicket)
    ensures
        r@ == ticket_for(test_type(), id@, secret@, now),
{
    let ty = TicketType {
        code: "test".to_string(),
        label: "TEST KARTA".to_string(),
        price_rsd: 0,
    };
    mint_ticket(&ty, id, secret, now)
}

/// A test ticket under a new random id.
pub fn admin_test_print(secret: &[u8], now: i64) -> (r: PrintedTicket)
    ensures
        is_random_id(r@.id),
        r@ == ticket_for(test_type(), r@.id, secret@, now),
{
    test_ticket(new_id(), secret, now)
}

// ---------------------------------------------------------------------------
// What the staff can rely on
// ---------------------------------------------------------------------------

/// A PIN can be chosen exactly if it has four characters or more and all are digits.
pub proof fn law_a_pin_is_four_digits_or_more(pin: Seq<char>)
    ensures
        acceptable_pin(pin) <==> pin.len() >= 4 && forall|i: int|
            0 <= i < pin.len() ==> '0' <= #[trigger] pin[i] <= '9',
{
    if forall|i: int| 0 <= i < pin.len() ==> '0' <= #[trigger] pin[i] <= '9' {
        assert(is_ascii_chars(pin));
        is_ascii_chars_encode_utf8(pin);
        assert forall|i: int| 0 <= i < pin.len() implies is_digit(#[trigger] pin[i]) by {
            assert('0' <= pin[i] <= '9');
        }
    } else {
        let i = choose|i: int| 0 <= i < pin.len() && !('0' <= #[trigger] pin[i] <= '9');
        assert(!is_digit(pin[i]));
    }
}

/// The PIN in use is the one that is stored, and 1234 as long as none is.
pub proof fn law_the_pin_in_use(d: DbView)
    ensures
        d.secrets.contains_key("admin_pin"@) ==> pin_in_use(d) == utf8_lossy(
            d.secrets["admin_pin"@],
        ),
        !d.secrets.contains_key("admin_pin"@) ==> pin_in_use(d) == "1234"@,
{
}

/// What one more ticket type does to a list that is in order (or still empty): it is refused for
/// its code if that is blank or has a bar, or is taken but for white space; then for its price if
/// that is not a positive multiple of a hundred; and else the list stays in order.
pub proof fn law_each_type_is_checked(types: Seq<TicketTypeView>, t: TicketTypeView)
    requires
        types.len() == 0 || price_list_error(types) is None,
    ensures
        ({
            let r = price_list_error(types.push(t));
            let taken = exists|i: int|
                0 <= i < types.len() && trimmed(#[trigger] types[i].code) == trimmed(t.code);
            if trimmed(t.code).len() == 0 || t.code.contains('|') {
                r == Some(ErrorView::Config("neispravan kod tipa karte: '"@ + t.code + "'"@))
            } else if taken {
                r == Some(ErrorView::Config("dupli kod tipa karte: '"@ + trimmed(t.code) + "'"@))
            } else if t.price_rsd <= 0 || t.price_rsd % 100 != 0 {
                r == Some(
                    ErrorView::Config(
                        "cena za '"@ + t.code + "' mora biti pozitivan umnožak 100 ("@ + decimal(
                            t.price_rsd as int,
                        ) + ")"@,
                    ),
                )
            } else {
                r is None
            }
        }),
        price_list_error(Seq::empty()) == Some(
            ErrorView::Config("lista tipova karata je prazna"@),
        ),
{
    assert(types.push(t).drop_last() =~= types);
    if types.len() == 0 {
        assert(first_type_error(types) is None);
    }
}

/// A list that is not in order stays refused, for the same reason, whatever is added to it.
pub proof fn law_the_first_fault_is_reported(types: Seq<TicketTypeView>, t: TicketTypeView)
    requires
        types.len() > 0,
        price_list_error(types) is Some,
    ensures
        price_list_error(types.push(t)) == price_list_error(types),
{
    assert(types.push(t).drop_last() =~= types);
}

/// A name that is entered is stored without white space around it, and as none where that is all
/// there is; a length is stored up to its limit.
pub proof fn law_entries_are_cleaned(text: Seq<char>, n: u32, limit: u32)
    ensures
        normalized(None) is None,
        trimmed(text).len() == 0 ==> normalized(Some(text)) is None,
        trimmed(text).len() > 0 ==> normalized(Some(text)) == Some(trimmed(text)),
        n <= limit ==> at_most(n, limit) == n,
        n >= limit ==> at_most(n, limit) == limit,
        MAX_FEED_MM == 200,
        MAX_PAPER_WIDTH_MM == 120,
{
}

/// A test ticket says so and costs nothing.
pub proof fn law_a_test_ticket_costs_nothing(id: Seq<char>, secret: Seq<u8>, now: i64)
    ensures
        ({
            let t = ticket_for(test_type(), id, secret, now);
            &&& t.price_rsd == 0
            &&& t.type_code == "test"@
            &&& t.label == "TEST KARTA"@
            &&& t.id == id
            &&& t.issued_at == now
        }),
{
}

} // verus!
