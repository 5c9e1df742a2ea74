use kiosk_naplata::ids::new_id;
use kiosk_naplata::token::{
    accept, attach_mac, constant_time_eq, deobfuscate, new_secret, obfuscate, parse_token,
    secret_of, sign, signed_prefix, verify, xor_mask, TicketClaims,
};

const TOKEN: &str =
    "MMM|v1|abc|odrasli|400|1700000000|WjPlhmEwyzOEk_kLt3t-6pM7TOA3DmYUs44ixeyrhkY";

fn secret() -> Vec<u8> {
    b"kljuc".to_vec()
}

fn claims() -> TicketClaims {
    TicketClaims {
        id: "abc".to_string(),
        type_code: "odrasli".to_string(),
        price_rsd: 400,
        issued_at: 1_700_000_000,
    }
}

fn refusal(token: &str) -> String {
    verify(&secret(), token).unwrap_err().message()
}

#[test]
fn tokens_have_a_known_form() {
    assert_eq!(signed_prefix(&claims()), "MMM|v1|abc|odrasli|400|1700000000");
    assert_eq!(sign(&secret(), &claims()), TOKEN);
    assert_eq!(attach_mac("p", &vec![0xfb, 0xff, 0xbe]), "p|-_--");
    assert_eq!(attach_mac("p", &vec![0xff]), "p|_w");
    assert_eq!(attach_mac("p", &vec![]), "p|");
}

#[test]
fn signed_tokens_verify() {
    assert_eq!(verify(&secret(), TOKEN).unwrap(), claims());
    for (price_rsd, issued_at) in [(0, 0), (-5, i64::MAX), (i64::MIN, -1)] {
        let c = TicketClaims {
            id: "č ž".to_string(),
            type_code: "x".to_string(),
            price_rsd,
            issued_at,
        };
        assert_eq!(verify(&secret(), &sign(&secret(), &c)).unwrap(), c);
    }
}

#[test]
fn unfit_claims_are_refused() {
    for (id, type_code, text) in [
        ("a|b", "x", "token: neispravan format: očekivano 7 polja, dobijeno 8"),
        ("|", "x|y", "token: neispravan format: očekivano 7 polja, dobijeno 9"),
        ("", "x|y", "token: neispravan format: očekivano 7 polja, dobijeno 8"),
        ("", "", "token: identifikator tiketa je prazan"),
        ("a", "", "token: tip tiketa je prazan"),
    ] {
        let mut c = claims();
        c.id = id.to_string();
        c.type_code = type_code.to_string();
        let token = sign(&secret(), &c);
        assert_eq!(refusal(&token), text);
        assert_eq!(verify(&b"drugi".to_vec(), &token).unwrap_err().message(), text);
    }
}

#[test]
fn different_tickets_have_different_tokens() {
    let mut c = claims();
    c.id = "abd".to_string();
    assert_ne!(sign(&secret(), &c), TOKEN);
}

#[test]
fn other_secrets_and_altered_tokens_are_refused() {
    let text = "token: MAC provera nije uspela";
    assert_eq!(verify(&b"drugi".to_vec(), TOKEN).unwrap_err().message(), text);
    assert_eq!(refusal(&TOKEN.replace("|400|", "|100|")), text);
    assert_eq!(refusal(&TOKEN.replace("|400|", "|+400|")), text);
    assert_eq!(refusal("MMM|v1|abc|odrasli|400|1700000000|"), text);
}

#[test]
fn numbers_are_signed_as_they_are_written() {
    let t = "MMM|v1|abc|odrasli|+400|1700000000|IIxicwdujAAxUUu3rAPwzfDqya3aa5lyZEy0ie_8wpk";
    assert_eq!(verify(&secret(), t).unwrap(), claims());
}

#[test]
fn malformed_tokens_are_refused() {
    assert_eq!(refusal(""), "token: neispravan format: očekivano 7 polja, dobijeno 1");
    assert_eq!(
        refusal("MMM|v1|a|b|1|2|x|y"),
        "token: neispravan format: očekivano 7 polja, dobijeno 8"
    );
    assert_eq!(refusal("XXX|v1|a|b|1|2|x"), "token: neispravan prefiks tokena");
    assert_eq!(refusal("MMM|v2|a|b|1|2|x"), "token: nepodržana verzija tokena");
    assert_eq!(refusal("MMM|v1||b|1|2|x"), "token: identifikator tiketa je prazan");
    assert_eq!(refusal("MMM|v1|a||1|2|x"), "token: tip tiketa je prazan");
    assert_eq!(refusal("MMM|v1|a|b|1.5|2|x"), "token: cena nije ispravan i64 broj");
    assert_eq!(refusal("MMM|v1|a|b|1|kad|x"), "token: vreme izdavanja nije ispravan i64 broj");
    let text = "token: MAC nije ispravan base64url bez dopune";
    for mac in ["x", "ab=", "ab==", "a+b/", "ab\n", "_x", "čč"] {
        assert_eq!(refusal(&format!("MMM|v1|a|b|1|2|{}", mac)), text, "{}", mac);
    }
}

#[test]
fn a_token_is_accepted_by_its_code() {
    let p = parse_token(TOKEN).ok().unwrap();
    assert_eq!(p.prefix, "MMM|v1|abc|odrasli|400|1700000000");
    assert_eq!(p.mac.len(), 32);
    let mac = p.mac.clone();
    assert_eq!(accept(p, &mac).unwrap(), claims());
    let p = parse_token("MMM|v1|a|b|1|2|AAEC").ok().unwrap();
    assert_eq!(p.mac, vec![0, 1, 2]);
    assert!(accept(p, &vec![0, 1, 3]).is_err());
}

#[test]
fn a_bar_in_the_claims_spoils_the_token() {
    let mut c = claims();
    c.type_code = "a|b".to_string();
    assert_eq!(
        refusal(&sign(&secret(), &c)),
        "token: neispravan format: očekivano 7 polja, dobijeno 8"
    );
}

#[test]
fn bytes_are_compared() {
    assert!(constant_time_eq(&vec![], &vec![]));
    assert!(constant_time_eq(&vec![1, 2], &vec![1, 2]));
    assert!(!constant_time_eq(&vec![1, 2], &vec![1, 3]));
    assert!(!constant_time_eq(&vec![1], &vec![1, 0]));
}

#[test]
fn the_mask_undoes_itself() {
    let raw: Vec<u8> = (0..34).collect();
    let hidden = obfuscate(&raw);
    assert_eq!(hidden[..4], [0x6d, 0x20, 0xa5, 0x4f]);
    assert_eq!(hidden[31..], [0xd2, 0x4d, 0x00]);
    assert_eq!(xor_mask(&raw), hidden);
    assert_eq!(deobfuscate(&hidden), raw);
    assert!(obfuscate(&Vec::new()).is_empty());
}

#[test]
fn secrets_are_random() {
    let a = new_secret();
    let b = new_secret();
    assert_eq!((a.len(), b.len()), (32, 32));
    assert_ne!(a, b);
    assert_eq!((a[6] >> 4, a[22] >> 4), (4, 4));
    assert_eq!((a[8] >> 6, a[24] >> 6), (2, 2));
    assert_eq!(secret_of(&vec![1], &vec![2, 3]), vec![1, 2, 3]);
}

#[test]
fn ids_are_random_and_hyphenated() {
    let a = new_id();
    let b = new_id();
    assert_ne!(a, b);
    let parsed = uuid::Uuid::parse_str(&a).unwrap();
    assert_eq!(parsed.get_version_num(), 4);
    assert_eq!(parsed.to_string(), a);
    let groups: Vec<usize> = a.split('-').map(|g| g.len()).collect();
    assert_eq!(groups, vec![8, 4, 4, 4, 12]);
}
