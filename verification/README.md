# kiosk_naplata

A self-service kiosk that sells museum tickets for cash: an NV9 banknote validator takes the
notes, an ESC/POS printer prints the tickets, and each ticket carries a QR code that the
entrance checks offline.

The kiosk gives no change. Every note waits in escrow until the payment session has decided on
it; a note that would exceed the price is handed back, so a sale is paid with exactly its price.

## Layout

- `src/` is the library, verified with Verus. It holds the rules and computes on plain values;
  it opens no port and no file.
  - `nv9` — the validator's protocol: packets (`frame`), the setup reply (`setup`), poll replies
    (`poll`), the session as a state machine (`driver`), the availability check (`probe`) and a
    stand-in without hardware (`simulator`)
  - `payment` — which notes are taken, and how a session ends
  - `commands` — pricing, minting, closing a sale; `admin` — prices, devices, the PIN;
    `config` — the first start
  - `db` — the tables: sales and tickets, the list, the totals and the export
  - `token` — the signed text of the QR code; `base64url`, `ids` — its parts
  - `printer` — the print job (`job`, `codepage`, `stamp`, `raster`) and the USB device (`usb`)
  - `text`, `order`, `keyed`, `models` — what the rest is built on
- `app/` is the desktop application around it: Tauri commands, SQLite, the serial port, USB and
  the Windows spooler. It performs what the library decides.
- `tests/` runs the library on concrete values.

## What is proved

Each function states in its contract what it returns, and when. The proof functions whose names
begin with `law_` state what holds across functions, among them: a packet reads back as it was
sent; the running total of a session is what was reported as credited; a session never takes
more than the price, and ends as paid with exactly the price; cash that was taken is on record
after every kind of end; minted tickets match the price and verify at the entrance; a ticket is
redeemed once; a second start keeps the secret; at most one payment session runs at a time.

What other crates and the standard library do is not proved. It is stated above each function
marked `#[verifier::external_body]`: HMAC-SHA256, base64, UUIDs, QR codes, local time, upper
case and lossy UTF-8.
