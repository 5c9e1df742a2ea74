//! First start, and the hardware configuration that the settings ask for.

use vstd::prelude::*;
use vstd::utf8::encode_utf8;

use crate::db::{Db, DbView};
use crate::ids::is_random_uuid;
use crate::models::{default_settings, opt_text, KioskResult, Settings, SettingsView};
use crate::nv9::probe::list_ports;
use crate::nv9::Nv9Config;
use crate::order::{
    law_ordered_texts_are_the_same, law_ordered_texts_ascend, ordered_texts, text_less,
};
use crate::printer::PrinterTarget;
use crate::text::{bytes_of, texts};
use crate::token::{
    deobfuscate, law_deobfuscate_undoes_obfuscate, masked, new_secret, obfuscate,
};

verus! {

/// The baud rate of the validator.
pub const NV9_BAUD: u32 = 9600;

/// The tables after the first start with this secret: what is there already stays.
pub open spec fn bootstrapped(d: DbView, raw: Seq<u8>) -> DbView {
    let with_secret = if d.secrets.contains_key("qr_hmac"@) {
        d
    } else {
        DbView { secrets: d.secrets.insert("qr_hmac"@, masked(raw)), ..d }
    };
    let with_settings = if with_secret.secrets.contains_key("__bootstrapped"@) {
        with_secret
    } else {
        DbView {
            settings: Some(default_settings()),
            secrets: with_secret.secrets.insert("__bootstrapped"@, encode_utf8("1"@)),
            ..with_secret
        }
    };
    if with_settings.secrets.contains_key("admin_pin"@) {
        with_settings
    } else {
        DbView {
            secrets: with_settings.secrets.insert("admin_pin"@, encode_utf8("1234"@)),
            ..with_settings
        }
    }
}

/// The secret that is used: the stored one, or else a new one.
pub open spec fn secret_in_use(d: DbView, fresh: Seq<u8>) -> Seq<u8> {
    if d.secrets.contains_key("qr_hmac"@) {
        masked(d.secrets["qr_hmac"@])
    } else {
        fresh
    }
}

/// Makes sure that there are a secret, settings and a PIN, with the given secret where none is
/// stored; gives the secret that is used.
pub fn bootstrap_with(db: &mut Db, fresh: Vec<u8>) -> (r: KioskResult<Vec<u8>>)
    ensures
        r matches Ok(raw) && raw@ == secret_in_use(old(db)@, fresh@),
        final(db)@ == bootstrapped(old(db)@, fresh@),
{
    let raw = match db.get_secret("qr_hmac") {
        Err(e) => return Err(e),
        Ok(Some(stored)) => deobfuscate(&stored),
        Ok(None) => {
            match db.set_secret("qr_hmac", &obfuscate(&fresh)) {
                Err(e) => return Err(e),
                Ok(_) => fresh,
            }
        },
    };
    match db.get_secret("__bootstrapped") {
        Err(e) => return Err(e),
        Ok(Some(_)) => {},
        Ok(None) => {
            match db.save_settings(&Settings::default()) {
                Err(e) => return Err(e),
                Ok(_) => {},
            }
            match db.set_secret("__bootstrapped", &bytes_of("1")) {
                Err(e) => return Err(e),
                Ok(_) => {},
            }
        },
    }
    match db.get_secret("admin_pin") {
        Err(e) => return Err(e),
        Ok(Some(_)) => {},
        Ok(None) => {
            match db.set_secret("admin_pin", &bytes_of("1234")) {
                Err(e) => return Err(e),
                Ok(_) => {},
            }
        },
    }
    Ok(raw)
}

/// Makes sure that there are a secret, settings and a PIN; gives the secret.
pub fn bootstrap(db: &mut Db) -> (r: KioskResult<Vec<u8>>)
    ensures
        r matches Ok(raw) && final(db)@ == bootstrapped(old(db)@, raw@) && (if old(
            db,
        )@.secrets.contains_key("qr_hmac"@) {
            raw@ == masked(old(db)@.secrets["qr_hmac"@])
        } else {
            raw@.len() == 32 && is_random_uuid(raw@.take(16)) && is_random_uuid(raw@.skip(16))
        }),
{
    bootstrap_with(db, new_secret())
}

/// A second start changes nothing and uses the same secret, so tickets stay valid. What the
/// staff has changed in between stays too: see `law_bootstrap_keeps_what_is_there`.
pub proof fn law_bootstrap_is_stable(d: DbView, first: Seq<u8>, second: Seq<u8>)
    ensures
        bootstrapped(bootstrapped(d, first), second) == bootstrapped(d, first),
        secret_in_use(bootstrapped(d, first), second) == secret_in_use(d, first),
{
    reveal_strlit("qr_hmac");
    reveal_strlit("__bootstrapped");
    reveal_strlit("admin_pin");
    assert("qr_hmac"@.len() == 7);
    assert("__bootstrapped"@.len() == 14);
    assert("admin_pin"@.len() == 9);
    law_deobfuscate_undoes_obfuscate(first);
}

/// A start leaves every secret that is stored as it is, and the settings once they were
/// written.
pub proof fn law_bootstrap_keeps_what_is_there(d: DbView, fresh: Seq<u8>, name: Seq<char>)
    ensures
        d.secrets.contains_key(name) ==> bootstrapped(d, fresh).secrets.contains_pair(
            name,
            d.secrets[name],
        ),
        d.secrets.contains_key("__bootstrapped"@) ==> bootstrapped(d, fresh).settings
            == d.settings,
        bootstrapped(d, fresh).sales == d.sales,
        bootstrapped(d, fresh).tickets == d.tickets,
{
    reveal_strlit("qr_hmac");
    reveal_strlit("__bootstrapped");
    reveal_strlit("admin_pin");
    assert("qr_hmac"@.len() == 7);
    assert("__bootstrapped"@.len() == 14);
    assert("admin_pin"@.len() == 9);
}

/// The port of the validator: the one that is set, else the first that was found.
pub open spec fn chosen_port(s: SettingsView, names: Seq<Seq<char>>) -> Option<Seq<char>> {
    match s.nv9_port {
        Some(p) => Some(p),
        None => if ordered_texts(names).len() > 0 {
            Some(ordered_texts(names)[0])
        } else {
            None
        },
    }
}

/// The port of the validator, given the names of the ports that there are.
pub fn validator_port(settings: &Settings, names: &[String]) -> (r: Option<String>)
    ensures
        opt_text(r) == chosen_port(settings@, texts(names@)),
{
    match &settings.nv9_port {
        Some(p) => Some(p.clone()),
        None => {
            let ports = list_ports(names);
            assert(texts(ports@).len() == ports@.len());
            if ports.len() > 0 {
                assert(texts(ports@)[0] == ports@[0]@);
                Some(ports[0].clone())
            } else {
                None
            }
        },
    }
}

/// The serial link of the validator, given the names of the ports that there are. Where none
/// is set or found it is `COM3`.
pub fn nv9_cfg(settings: &Settings, names: &[String]) -> (r: Nv9Config)
    ensures
        r.port@ == match chosen_port(settings@, texts(names@)) {
            Some(p) => p,
            None => "COM3"@,
        },
        r.baud == NV9_BAUD,
{
    let port = match validator_port(settings, names) {
        Some(p) => p,
        None => "COM3".to_string(),
    };
    Nv9Config { port, baud: NV9_BAUD }
}

/// The USB device that the settings ask for.
pub fn printer_target(settings: &Settings) -> (r: PrinterTarget)
    ensures
        r == (PrinterTarget {
            vendor_id: settings@.printer_vendor_id,
            product_id: settings@.printer_product_id,
        }),
{
    PrinterTarget {
        vendor_id: settings.printer_vendor_id,
        product_id: settings.printer_product_id,
    }
}

/// After a start everything is there. What was missing is the masked secret, the PIN 1234, the
/// default settings with the mark that they were written; and no other secret comes or goes.
pub proof fn law_a_start_brings_what_is_missing(d: DbView, fresh: Seq<u8>, name: Seq<char>)
    ensures
        ({
            let after = bootstrapped(d, fresh);
            &&& !d.secrets.contains_key("qr_hmac"@) ==> after.secrets.contains_pair(
                "qr_hmac"@,
                masked(fresh),
            )
            &&& !d.secrets.contains_key("admin_pin"@) ==> after.secrets.contains_pair(
                "admin_pin"@,
                encode_utf8("1234"@),
            )
            &&& !d.secrets.contains_key("__bootstrapped"@) ==> after.secrets.contains_pair(
                "__bootstrapped"@,
                encode_utf8("1"@),
            ) && after.settings == Some(default_settings())
            &&& after.secrets.contains_key("qr_hmac"@)
            &&& after.secrets.contains_key("admin_pin"@)
            &&& after.secrets.contains_key("__bootstrapped"@)
            &&& name != "qr_hmac"@ && name != "admin_pin"@ && name != "__bootstrapped"@ ==> (
            after.secrets.contains_key(name) <==> d.secrets.contains_key(name))
        }),
        d.secrets.contains_key("qr_hmac"@) ==> secret_in_use(d, fresh) == masked(
            d.secrets["qr_hmac"@],
        ),
        !d.secrets.contains_key("qr_hmac"@) ==> secret_in_use(d, fresh) == fresh,
{
    reveal_strlit("qr_hmac");
    reveal_strlit("__bootstrapped");
    reveal_strlit("admin_pin");
    assert("qr_hmac"@.len() == 7);
    assert("__bootstrapped"@.len() == 14);
    assert("admin_pin"@.len() == 9);
}

/// The port of the validator is the one that is set; where none is, it is the first by name of
/// those that there are, and none only where there are none.
pub proof fn law_the_port_is_set_or_first(s: SettingsView, names: Seq<Seq<char>>, i: int)
    ensures
        s.nv9_port is Some ==> chosen_port(s, names) == s.nv9_port,
        s.nv9_port is None && names.len() == 0 ==> chosen_port(s, names) is None,
        s.nv9_port is None && 0 <= i < names.len() ==> {
            &&& chosen_port(s, names) is Some
            &&& names.contains(chosen_port(s, names)->0)
            &&& names[i] == chosen_port(s, names)->0 || text_less(
                chosen_port(s, names)->0,
                names[i],
            )
        },
        NV9_BAUD == 9600,
{
    if 0 <= i < names.len() {
        let list = ordered_texts(names);
        law_ordered_texts_are_the_same(names, names[i]);
        assert(names.contains(names[i]));
        let k = choose|k: int| 0 <= k < list.len() && list[k] == names[i];
        law_ordered_texts_ascend(names);
        law_ordered_texts_are_the_same(names, list[0]);
        assert(list.contains(list[0]));
        if k > 0 {
            assert(text_less(list[0], list[k]));
        }
    }
}

} // verus!
