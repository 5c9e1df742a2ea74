//! Text building blocks: decimal and hexadecimal numbers, fields, trimming.

use vstd::prelude::*;
use vstd::string::*;

verus! {

/// `String::push` of the standard library: appends one character at the end.
pub assume_specification[ String::push ](s: &mut String, c: char)
    ensures
        final(s)@ == old(s)@.push(c),
;

// ---------------------------------------------------------------------------
// Characters and strings
// ---------------------------------------------------------------------------

/// The characters of a string, in order.
pub fn chars_of(s: &str) -> (r: Vec<char>)
    ensures
        r@ == s@,
{
    let mut v: Vec<char> = Vec::new();
    for c in it: s.chars()
        invariant
            v@ == it.seq().take(it.index() as int),
    {
        v.push(c);
    }
    v
}

/// The string made of the characters `from..to` of `chars`.
pub fn string_of(chars: &[char], from: usize, to: usize) -> (r: String)
    requires
        from <= to <= chars@.len(),
    ensures
        r@ == chars@.subrange(from as int, to as int),
{
    let mut s = String::new();
    let mut i: usize = from;
    while i < to
        invariant
            from <= i <= to <= chars@.len(),
            s@ == chars@.subrange(from as int, i as int),
        decreases to - i,
    {
        s.push(chars[i]);
        i = i + 1;
    }
    s
}

/// Whether two strings hold the same characters.
pub fn same_text(a: &str, b: &str) -> (r: bool)
    ensures
        r == (a@ == b@),
{
    let x = chars_of(a);
    let y = chars_of(b);
    if x.len() != y.len() {
        return false;
    }
    let mut i: usize = 0;
    while i < x.len()
        invariant
            x@ == a@,
            y@ == b@,
            x@.len() == y@.len(),
            i <= x@.len(),
            forall|j: int| 0 <= j < i ==> x@[j] == y@[j],
        decreases x.len() - i,
    {
        if x[i] != y[i] {
            assert(a@[i as int] != b@[i as int]);
            return false;
        }
        i = i + 1;
    }
    assert(a@ =~= b@);
    true
}

/// The bytes of a string in UTF-8.
pub fn bytes_of(s: &str) -> (r: Vec<u8>)
    ensures
        r@ == vstd::utf8::encode_utf8(s@),
{
    let mut v: Vec<u8> = Vec::new();
    v.extend_from_slice(s.as_bytes());
    v
}

/// Whether `c` occurs in `s`.
pub fn has_char(s: &str, c: char) -> (r: bool)
    ensures
        r == s@.contains(c),
{
    let v = chars_of(s);
    let mut i: usize = 0;
    while i < v.len()
        invariant
            v@ == s@,
            i <= v@.len(),
            forall|j: int| 0 <= j < i ==> v@[j] != c,
        decreases v.len() - i,
    {
        if v[i] == c {
            assert(s@[i as int] == c);
            return true;
        }
        i = i + 1;
    }
    false
}

// ---------------------------------------------------------------------------
// Decimal numbers
// ---------------------------------------------------------------------------

/// The character of a decimal digit.
pub open spec fn digit_char(d: int) -> char {
    ('0' as int + d) as char
}

/// A natural number in decimal, without leading zeros.
pub open spec fn decimal_nat(n: nat) -> Seq<char>
    decreases n,
{
    if n < 10 {
        seq![digit_char(n as int)]
    } else {
        decimal_nat(n / 10).push(digit_char((n % 10) as int))
    }
}

/// An integer in decimal, with a leading `-` where it is negative.
pub open spec fn decimal(n: int) -> Seq<char> {
    if n < 0 {
        seq!['-'] + decimal_nat((-n) as nat)
    } else {
        decimal_nat(n as nat)
    }
}

fn digit(d: u8) -> (c: char)
    requires
        d < 10,
    ensures
        c == digit_char(d as int),
{
    (48u8 + d) as char
}

/// `n` in decimal.
pub fn decimal_u64(n: u64) -> (r: String)
    ensures
        r@ == decimal_nat(n as nat),
    decreases n,
{
    if n < 10 {
        let mut s = String::new();
        s.push(digit(n as u8));
        assert(s@ =~= seq![digit_char(n as int)]);
        s
    } else {
        let mut s = decimal_u64(n / 10);
        s.push(digit((n % 10) as u8));
        s
    }
}

/// `n` in decimal, as the standard formatting prints it.
pub fn decimal_i64(n: i64) -> (r: String)
    ensures
        r@ == decimal(n as int),
{
    if n < 0 {
        let magnitude: u64 = if n == i64::MIN {
            9_223_372_036_854_775_808u64
        } else {
            (-n) as u64
        };
        let mut s = String::new();
        s.push('-');
        assert(s@ =~= seq!['-']);
        s.concat(decimal_u64(magnitude).as_str())
    } else {
        decimal_u64(n as u64)
    }
}

/// Whether `c` is one of the ten decimal digits.
pub open spec fn is_digit(c: char) -> bool {
    '0' <= c && c <= '9'
}

/// The value of a sequence of decimal digits.
pub open spec fn digits_value(s: Seq<char>) -> nat
    decreases s.len(),
{
    if s.len() == 0 {
        0
    } else {
        (digits_value(s.drop_last()) * 10 + (s.last() as int - '0' as int)) as nat
    }
}

/// Whether every character is a decimal digit.
pub open spec fn all_digits(s: Seq<char>) -> bool {
    forall|i: int| 0 <= i < s.len() ==> is_digit(#[trigger] s[i])
}

/// The digits behind an optional sign.
pub open spec fn unsigned_part(s: Seq<char>) -> Seq<char> {
    if s.len() > 0 && (s[0] == '+' || s[0] == '-') {
        s.subrange(1, s.len() as int)
    } else {
        s
    }
}

/// The number that a text denotes: an optional sign, then at least one digit and nothing else.
pub open spec fn parsed_int(s: Seq<char>) -> Option<int> {
    let body = unsigned_part(s);
    if body.len() == 0 || !all_digits(body) {
        None
    } else if s[0] == '-' {
        Some(-(digits_value(body) as int))
    } else {
        Some(digits_value(body) as int)
    }
}

/// The number that a text denotes, where it fits in 64 bits.
pub open spec fn parsed_i64(s: Seq<char>) -> Option<i64> {
    match parsed_int(s) {
        Some(v) => if i64::MIN <= v <= i64::MAX {
            Some(v as i64)
        } else {
            None
        },
        None => None,
    }
}

/// Reads a signed 64-bit number: an optional sign followed by decimal digits.
pub fn parse_i64(s: &str) -> (r: Option<i64>)
    ensures
        r == parsed_i64(s@),
{
    let v = chars_of(s);
    let n = v.len();
    let ghost body = unsigned_part(s@);
    let start: usize = if n > 0 && (v[0] == '+' || v[0] == '-') {
        1
    } else {
        0
    };
    assert(body =~= s@.subrange(start as int, n as int));
    if start == n {
        return None;
    }
    let negative = v[0] == '-';
    let mut value: u128 = 0;
    let mut over = false;
    let mut i: usize = start;
    assert(body.take(0) =~= Seq::<char>::empty());
    while i < n
        invariant
            v@ == s@,
            n == v@.len(),
            start <= i <= n,
            start <= 1,
            body == s@.subrange(start as int, n as int),
            body == unsigned_part(s@),
            all_digits(body.take(i - start)),
            !over ==> value == digits_value(body.take(i - start)),
            !over ==> value <= 10_000_000_000_000_000_000_000,
            over ==> digits_value(body.take(i - start)) > 10_000_000_000_000_000_000_000,
        decreases n - i,
    {
        let c = v[i];
        assert(c == body[i - start]);
        if c < '0' || c > '9' {
            assert(!is_digit(body[i - start]));
            return None;
        }
        assert(body.take(i + 1 - start).drop_last() =~= body.take(i - start));
        let d: u128 = (c as u32 - 48) as u128;
        if !over {
            value = value * 10 + d;
            if value > 10_000_000_000_000_000_000_000 {
                over = true;
            }
        }
        i = i + 1;
        assert(all_digits(body.take(i - start))) by {
            assert forall|j: int| 0 <= j < i - start implies is_digit(
                #[trigger] body.take(i - start)[j],
            ) by {
                if j < i - start - 1 {
                    assert(body.take(i - start - 1)[j] == body[j]);
                }
            }
        }
    }
    assert(body.take(n - start) =~= body);
    if over {
        return None;
    }
    if negative {
        if value <= 9_223_372_036_854_775_807 {
            Some(-(value as i64))
        } else if value == 9_223_372_036_854_775_808 {
            Some(i64::MIN)
        } else {
            None
        }
    } else if value <= 9_223_372_036_854_775_807 {
        Some(value as i64)
    } else {
        None
    }
}

/// Decimal digits read back as the number that they were written for.
pub proof fn lemma_decimal_nat_digits(n: nat)
    ensures
        decimal_nat(n).len() > 0,
        all_digits(decimal_nat(n)),
        digits_value(decimal_nat(n)) == n,
    decreases n,
{
    if n < 10 {
        let s = decimal_nat(n);
        assert(s.drop_last() =~= Seq::<char>::empty());
        assert(digits_value(s.drop_last()) == 0);
    } else {
        lemma_decimal_nat_digits(n / 10);
        let p = decimal_nat(n / 10);
        let s = decimal_nat(n);
        assert(s.drop_last() =~= p);
        assert forall|i: int| 0 <= i < s.len() implies is_digit(#[trigger] s[i]) by {
            if i < p.len() {
                assert(s[i] == p[i]);
            }
        }
    }
}

/// What is printed in decimal reads back as the same number.
pub proof fn law_decimal_reads_back(n: i64)
    ensures
        parsed_i64(decimal(n as int)) == Some(n),
{
    if n < 0 {
        let d = decimal_nat((-n) as nat);
        lemma_decimal_nat_digits((-n) as nat);
        let s = decimal(n as int);
        assert(s[0] == '-');
        assert(unsigned_part(s) =~= d);
    } else {
        let s = decimal(n as int);
        lemma_decimal_nat_digits(n as nat);
        assert(is_digit(s[0]));
        assert(unsigned_part(s) =~= s);
    }
}

/// A decimal number holds only digits and a sign, so no separator of a record.
pub proof fn lemma_decimal_chars(n: int, c: char)
    requires
        !is_digit(c),
        c != '-',
    ensures
        !decimal(n).contains(c),
{
    let s = decimal(n);
    let m: nat = if n < 0 {
        (-n) as nat
    } else {
        n as nat
    };
    lemma_decimal_nat_digits(m);
    let d = decimal_nat(m);
    assert forall|i: int| 0 <= i < s.len() implies s[i] != c by {
        if n < 0 && i > 0 {
            assert(s[i] == d[i - 1]);
        } else if n >= 0 {
            assert(is_digit(d[i]));
        }
    }
}

// ---------------------------------------------------------------------------
// Hexadecimal numbers
// ---------------------------------------------------------------------------

/// The character of a hexadecimal digit.
pub open spec fn hex_char(d: int, upper: bool) -> char {
    if d < 10 {
        ('0' as int + d) as char
    } else if upper {
        ('A' as int + d - 10) as char
    } else {
        ('a' as int + d - 10) as char
    }
}

/// A byte as two hexadecimal digits.
pub open spec fn hex2(b: u8, upper: bool) -> Seq<char> {
    seq![hex_char(b as int / 16, upper), hex_char(b as int % 16, upper)]
}

/// A 16-bit number as four hexadecimal digits.
pub open spec fn hex4(w: u16, upper: bool) -> Seq<char> {
    hex2((w / 256) as u8, upper) + hex2((w % 256) as u8, upper)
}

fn hex_digit(d: u8, upper: bool) -> (c: char)
    requires
        d < 16,
    ensures
        c == hex_char(d as int, upper),
{
    if d < 10 {
        (48u8 + d) as char
    } else if upper {
        (55u8 + d) as char
    } else {
        (87u8 + d) as char
    }
}

/// A byte as two hexadecimal digits.
pub fn hex_byte(b: u8, upper: bool) -> (r: String)
    ensures
        r@ == hex2(b, upper),
{
    let mut s = String::new();
    s.push(hex_digit(b / 16, upper));
    s.push(hex_digit(b % 16, upper));
    assert(s@ =~= hex2(b, upper));
    s
}

/// A 16-bit number as four hexadecimal digits.
pub fn hex_word(w: u16, upper: bool) -> (r: String)
    ensures
        r@ == hex4(w, upper),
{
    hex_byte((w / 256) as u8, upper).concat(hex_byte((w % 256) as u8, upper).as_str())
}

// ---------------------------------------------------------------------------
// Fields
// ---------------------------------------------------------------------------

/// The fields of a text between the separators: one more than there are separators.
pub open spec fn split_fields(s: Seq<char>, sep: char) -> Seq<Seq<char>>
    decreases s.len(),
{
    if s.len() == 0 {
        seq![Seq::<char>::empty()]
    } else {
        let front = split_fields(s.drop_last(), sep);
        if s.last() == sep {
            front.push(Seq::<char>::empty())
        } else {
            front.drop_last().push(front.last().push(s.last()))
        }
    }
}

/// The fields put together, with the separator between each two.
pub open spec fn join_fields(parts: Seq<Seq<char>>, sep: Seq<char>) -> Seq<char>
    decreases parts.len(),
{
    if parts.len() == 0 {
        Seq::<char>::empty()
    } else if parts.len() == 1 {
        parts[0]
    } else {
        join_fields(parts.drop_last(), sep) + sep + parts.last()
    }
}

/// The views of a list of strings.
pub open spec fn texts(v: Seq<String>) -> Seq<Seq<char>> {
    v.map_values(|s: String| s@)
}

/// Splits a text at every occurrence of `sep`.
pub fn split(s: &str, sep: char) -> (r: Vec<String>)
    ensures
        texts(r@) == split_fields(s@, sep),
        r@.len() > 0,
{
    let v = chars_of(s);
    let mut out: Vec<String> = Vec::new();
    let mut current = String::new();
    let mut i: usize = 0;
    proof {
        assert(s@.take(0) =~= Seq::<char>::empty());
        assert(texts(out@).push(current@) =~= split_fields(s@.take(0), sep));
    }
    while i < v.len()
        invariant
            v@ == s@,
            i <= v@.len(),
            texts(out@).push(current@) == split_fields(s@.take(i as int), sep),
        decreases v.len() - i,
    {
        let c = v[i];
        let ghost done = texts(out@).push(current@);
        assert(s@.take(i + 1).drop_last() =~= s@.take(i as int));
        if c == sep {
            out.push(current);
            current = String::new();
            assert(texts(out@) =~= done);
        } else {
            assert(done.drop_last() =~= texts(out@));
            current.push(c);
        }
        i = i + 1;
    }
    assert(s@.take(v@.len() as int) =~= s@);
    let ghost done = texts(out@).push(current@);
    out.push(current);
    assert(texts(out@) =~= done);
    out
}

/// Puts the parts together, with `sep` between each two.
pub fn join(parts: &[String], sep: &str) -> (r: String)
    ensures
        r@ == join_fields(texts(parts@), sep@),
{
    let mut out = String::new();
    let mut i: usize = 0;
    proof {
        assert(texts(parts@).take(0) =~= Seq::<Seq<char>>::empty());
        assert(out@ =~= Seq::<char>::empty());
    }
    while i < parts.len()
        invariant
            i <= parts@.len(),
            out@ == join_fields(texts(parts@).take(i as int), sep@),
        decreases parts.len() - i,
    {
        let ghost t = texts(parts@).take(i + 1);
        assert(t.drop_last() =~= texts(parts@).take(i as int));
        assert(t.last() == parts@[i as int]@);
        if i > 0 {
            out.append(sep);
        }
        out.append(parts[i].as_str());
        assert(out@ =~= join_fields(t, sep@));
        i = i + 1;
    }
    assert(texts(parts@).take(parts@.len() as int) =~= texts(parts@));
    out
}

/// A text without the separator is one field.
pub proof fn lemma_split_plain(s: Seq<char>, sep: char)
    requires
        !s.contains(sep),
    ensures
        split_fields(s, sep) == seq![s],
    decreases s.len(),
{
    if s.len() > 0 {
        let f = s.drop_last();
        assert forall|i: int| 0 <= i < f.len() implies f[i] != sep by {
            assert(s[i] == f[i]);
            assert(s.contains(s[i]));
        }
        lemma_split_plain(f, sep);
        assert(s.contains(s.last()));
        assert(f.push(s.last()) =~= s);
        assert(split_fields(s, sep) =~= seq![s]);
    } else {
        assert(s =~= Seq::<char>::empty());
    }
}

/// There is always a field.
pub proof fn lemma_split_len(s: Seq<char>, sep: char)
    ensures
        split_fields(s, sep).len() > 0,
    decreases s.len(),
{
    if s.len() > 0 {
        lemma_split_len(s.drop_last(), sep);
    }
}

/// A field without the separator, put behind a separator, is the last field.
pub proof fn lemma_split_append(a: Seq<char>, b: Seq<char>, sep: char)
    requires
        !b.contains(sep),
    ensures
        split_fields(a + seq![sep] + b, sep) == split_fields(a, sep).push(b),
    decreases b.len(),
{
    let s = a + seq![sep] + b;
    lemma_split_len(a, sep);
    if b.len() == 0 {
        assert(s.drop_last() =~= a);
        assert(b =~= Seq::<char>::empty());
    } else {
        let f = b.drop_last();
        assert forall|i: int| 0 <= i < f.len() implies f[i] != sep by {
            assert(b[i] == f[i]);
            assert(b.contains(b[i]));
        }
        lemma_split_append(a, f, sep);
        assert(s.drop_last() =~= a + seq![sep] + f);
        assert(b.contains(b.last()));
        assert(f.push(b.last()) =~= b);
        let front = split_fields(a, sep).push(f);
        assert(front.drop_last() =~= split_fields(a, sep));
    }
}

/// Texts with a separator between them have the fields of both.
pub proof fn lemma_split_count(a: Seq<char>, b: Seq<char>, sep: char)
    ensures
        split_fields(a + seq![sep] + b, sep).len() == split_fields(a, sep).len() + split_fields(
            b,
            sep,
        ).len(),
    decreases b.len(),
{
    let s = a + seq![sep] + b;
    if b.len() == 0 {
        assert(s.drop_last() =~= a);
    } else {
        lemma_split_count(a, b.drop_last(), sep);
        lemma_split_len(b.drop_last(), sep);
        assert(s.drop_last() =~= a + seq![sep] + b.drop_last());
    }
}

/// A text with a separator in it has more than one field.
pub proof fn lemma_split_several(s: Seq<char>, sep: char)
    requires
        s.contains(sep),
    ensures
        split_fields(s, sep).len() > 1,
{
    let k = choose|k: int| 0 <= k < s.len() && s[k] == sep;
    lemma_split_count(s.take(k), s.skip(k + 1), sep);
    lemma_split_len(s.take(k), sep);
    lemma_split_len(s.skip(k + 1), sep);
    assert(s.take(k) + seq![sep] + s.skip(k + 1) =~= s);
}

/// The fields of a text, put together again, are the text.
pub proof fn law_fields_join_back(s: Seq<char>, sep: char)
    ensures
        join_fields(split_fields(s, sep), seq![sep]) == s,
    decreases s.len(),
{
    let f = split_fields(s, sep);
    if s.len() == 0 {
        assert(f[0] =~= s);
    } else {
        let head = s.drop_last();
        let front = split_fields(head, sep);
        lemma_split_len(head, sep);
        law_fields_join_back(head, sep);
        if s.last() == sep {
            assert(f.drop_last() =~= front);
            assert(join_fields(f, seq![sep]) =~= s);
        } else {
            assert(f.drop_last() =~= front.drop_last());
            assert(f.last() == front.last().push(s.last()));
            if front.len() == 1 {
                assert(f[0] == front[0].push(s.last()));
                assert(front[0] == head);
            } else {
                let start = join_fields(front.drop_last(), seq![sep]) + seq![sep];
                assert(head == start + front.last());
                assert(start + front.last().push(s.last()) =~= head.push(s.last()));
            }
            assert(head.push(s.last()) =~= s);
        }
    }
}

// ---------------------------------------------------------------------------
// White space
// ---------------------------------------------------------------------------

/// The characters that Unicode marks as white space.
#[verifier::opaque]
pub open spec fn is_white(c: char) -> bool {
    let u = c as int;
    ||| 0x9 <= u <= 0xd
    ||| u == 0x20
    ||| u == 0x85
    ||| u == 0xa0
    ||| u == 0x1680
    ||| 0x2000 <= u <= 0x200a
    ||| u == 0x2028
    ||| u == 0x2029
    ||| u == 0x202f
    ||| u == 0x205f
    ||| u == 0x3000
}

/// A text without the white space at its two ends.
pub open spec fn trimmed(s: Seq<char>) -> Seq<char>
    decreases s.len(),
{
    if s.len() == 0 {
        s
    } else if is_white(s[0]) {
        trimmed(s.subrange(1, s.len() as int))
    } else if is_white(s.last()) {
        trimmed(s.drop_last())
    } else {
        s
    }
}

fn white(c: char) -> (r: bool)
    ensures
        r == is_white(c),
{
    reveal(is_white);
    let u: u32 = c as u32;
    (0x9 <= u && u <= 0xd) || u == 0x20 || u == 0x85 || u == 0xa0 || u == 0x1680 || (0x2000 <= u
        && u <= 0x200a) || u == 0x2028 || u == 0x2029 || u == 0x202f || u == 0x205f || u == 0x3000
}

/// The text without leading and trailing white space.
#[verifier::rlimit(40)]
pub fn trim(s: &str) -> (r: String)
    ensures
        r@ == trimmed(s@),
{
    let v = chars_of(s);
    let mut a: usize = 0;
    let mut b: usize = v.len();
    assert(v@.subrange(0, v@.len() as int) =~= s@);
    while a < b && white(v[a])
        invariant
            a <= b == v@.len(),
            trimmed(v@.subrange(a as int, b as int)) == trimmed(s@),
        decreases b - a,
    {
        let ghost t = v@.subrange(a as int, b as int);
        assert(t[0] == v@[a as int]);
        assert(t.subrange(1, t.len() as int) =~= v@.subrange(a + 1, b as int));
        a = a + 1;
    }
    assert(a < b ==> !is_white(v@[a as int]));
    while a < b && white(v[b - 1])
        invariant
            a <= b <= v@.len(),
            a < b ==> !is_white(v@[a as int]),
            trimmed(v@.subrange(a as int, b as int)) == trimmed(s@),
        decreases b - a,
    {
        let ghost t = v@.subrange(a as int, b as int);
        assert(t[0] == v@[a as int]);
        assert(t.last() == v@[b - 1]);
        assert(t.drop_last() =~= v@.subrange(a as int, b - 1));
        b = b - 1;
    }
    proof {
        let t = v@.subrange(a as int, b as int);
        if a < b {
            assert(t[0] == v@[a as int]);
            assert(t.last() == v@[b - 1]);
        }
        assert(trimmed(t) == t);
    }
    string_of(&v, a, b)
}

/// What `trim` returns has no white space at its ends, so trimming it again changes nothing.
pub proof fn law_trim_is_stable(s: Seq<char>)
    ensures
        trimmed(trimmed(s)) == trimmed(s),
    decreases s.len(),
{
    if s.len() > 0 {
        if is_white(s[0]) {
            law_trim_is_stable(s.subrange(1, s.len() as int));
        } else if is_white(s.last()) {
            law_trim_is_stable(s.drop_last());
        }
    }
}

// ---------------------------------------------------------------------------
// What numbers and texts look like
// ---------------------------------------------------------------------------

/// A number is written digit by digit, the highest first and none in vain, and a negative one
/// behind a minus sign.
pub proof fn law_numbers_are_written_in_decimal(n: nat, d: nat)
    requires
        d < 10,
    ensures
        decimal_nat(d) == seq![(48 + d) as char],
        n > 0 ==> decimal_nat(10 * n + d) == decimal_nat(n).push((48 + d) as char),
        decimal(n as int) == decimal_nat(n),
        n > 0 ==> decimal(-(n as int)) == seq!['-'] + decimal_nat(n),
{
    assert((10 * n + d) / 10 == n);
    assert((10 * n + d) % 10 == d);
}

/// A byte is written as two hexadecimal digits, the higher first, and a word as its two bytes.
pub proof fn law_bytes_are_written_in_hexadecimal(b: u8, w: u16)
    ensures
        hex2(b, true) == seq!["0123456789ABCDEF"@[b as int / 16], "0123456789ABCDEF"@[b as int % 16]],
        hex2(b, false) == seq![
            "0123456789abcdef"@[b as int / 16],
            "0123456789abcdef"@[b as int % 16],
        ],
        hex4(w, true) == hex2((w / 256) as u8, true) + hex2((w % 256) as u8, true),
        hex4(w, false) == hex2((w / 256) as u8, false) + hex2((w % 256) as u8, false),
{
    reveal_strlit("0123456789ABCDEF");
    reveal_strlit("0123456789abcdef");
    let h = b as int / 16;
    let l = b as int % 16;
    assert(0 <= h < 16 && 0 <= l < 16);
    assert(hex2(b, true) =~= seq!["0123456789ABCDEF"@[h], "0123456789ABCDEF"@[l]]);
    assert(hex2(b, false) =~= seq!["0123456789abcdef"@[h], "0123456789abcdef"@[l]]);
}

/// A number is read digit by digit: a digit more makes it ten times as large and adds the digit,
/// away from zero behind a minus sign, as long as it fits.
pub proof fn law_numbers_are_read_digit_by_digit(s: Seq<char>, c: char, v: i64)
    requires
        '0' <= c <= '9',
        parsed_i64(s) == Some(v),
    ensures
        ({
            let d = c as int - 48;
            let next = if s[0] == '-' {
                10 * v - d
            } else {
                10 * v + d
            };
            parsed_i64(s.push(c)) == if i64::MIN <= next <= i64::MAX {
                Some(next as i64)
            } else {
                None
            }
        }),
{
    let body = unsigned_part(s);
    let longer = unsigned_part(s.push(c));
    assert(longer =~= body.push(c));
    assert(longer.drop_last() =~= body);
    assert(s.push(c)[0] == s[0]);
    assert forall|i: int| 0 <= i < longer.len() implies is_digit(#[trigger] longer[i]) by {
        if i < body.len() {
            assert(is_digit(body[i]));
        }
    }
}

/// A single digit is its own number, with a sign before it or not; and a text without a digit, or
/// with anything but digits behind an optional sign, is no number.
pub proof fn law_only_digits_are_numbers(s: Seq<char>, c: char, i: int)
    ensures
        '0' <= c <= '9' ==> parsed_i64(seq![c]) == Some((c as int - 48) as i64),
        '0' <= c <= '9' ==> parsed_i64(seq!['+', c]) == Some((c as int - 48) as i64),
        '0' <= c <= '9' ==> parsed_i64(seq!['-', c]) == Some((48 - c as int) as i64),
        s.len() == 0 ==> parsed_i64(s) is None,
        s.len() == 1 && (s[0] == '+' || s[0] == '-') ==> parsed_i64(s) is None,
        0 <= i < s.len() && !('0' <= s[i] <= '9') && (i > 0 || (s[0] != '+' && s[0] != '-'))
            ==> parsed_i64(s) is None,
{
    reveal_with_fuel(digits_value, 3);
    assert(unsigned_part(seq!['+', c]) =~= seq![c]);
    assert(unsigned_part(seq!['-', c]) =~= seq![c]);
    assert(seq![c].drop_last() =~= Seq::<char>::empty());
    if '0' <= c <= '9' {
        assert(unsigned_part(seq![c]) =~= seq![c]);
        assert(all_digits(seq![c]));
    }
    let body = unsigned_part(s);
    if 0 <= i < s.len() && !('0' <= s[i] <= '9') && (i > 0 || (s[0] != '+' && s[0] != '-')) {
        let k = i - (s.len() - body.len());
        assert(body[k] == s[i]);
        assert(!is_digit(body[k]));
    }
}

/// A text is taken apart at every separator and nowhere else: a separator begins a new field, and
/// any other character belongs to the last one. Put together, the fields have the separator
/// between each two.
pub proof fn law_fields_end_at_the_separator(
    s: Seq<char>,
    sep: char,
    c: char,
    parts: Seq<Seq<char>>,
    x: Seq<char>,
    glue: Seq<char>,
)
    ensures
        split_fields(Seq::empty(), sep) == seq![Seq::<char>::empty()],
        split_fields(s.push(sep), sep) == split_fields(s, sep).push(Seq::empty()),
        c != sep ==> split_fields(s.push(c), sep) == split_fields(s, sep).drop_last().push(
            split_fields(s, sep).last().push(c),
        ),
        join_fields(Seq::empty(), glue) == Seq::<char>::empty(),
        join_fields(seq![x], glue) == x,
        parts.len() > 0 ==> join_fields(parts.push(x), glue) == join_fields(parts, glue) + glue + x,
{
    assert(s.push(sep).drop_last() =~= s);
    assert(s.push(c).drop_last() =~= s);
    assert(parts.push(x).drop_last() =~= parts);
}

/// The stretch of a text from `a` to `b` is what stands between its white ends: everything before
/// it and behind it is white space, and it neither begins nor ends with any.
pub open spec fn between_white_ends(s: Seq<char>, a: int, b: int) -> bool {
    &&& 0 <= a <= b <= s.len()
    &&& forall|i: int| 0 <= i < a ==> is_white(#[trigger] s[i])
    &&& forall|i: int| b <= i < s.len() ==> is_white(#[trigger] s[i])
    &&& a < b ==> !is_white(s[a]) && !is_white(s[b - 1])
}

/// Trimming leaves what stands between the white ends of a text.
pub proof fn law_trimming_takes_the_white_ends(s: Seq<char>, a: int, b: int)
    requires
        between_white_ends(s, a, b),
    ensures
        trimmed(s) == s.subrange(a, b),
    decreases s.len(),
{
    if s.len() == 0 {
        assert(s =~= s.subrange(a, b));
    } else if is_white(s[0]) {
        let t = s.subrange(1, s.len() as int);
        if a == 0 {
            assert(a == b);
            assert(between_white_ends(t, 0, 0)) by {
                assert forall|i: int| 0 <= i < t.len() implies is_white(#[trigger] t[i]) by {
                    assert(t[i] == s[i + 1]);
                }
            }
            law_trimming_takes_the_white_ends(t, 0, 0);
            assert(t.subrange(0, 0) =~= s.subrange(a, b));
        } else {
            assert(between_white_ends(t, a - 1, b - 1)) by {
                assert forall|i: int| 0 <= i < a - 1 implies is_white(#[trigger] t[i]) by {
                    assert(t[i] == s[i + 1]);
                }
                assert forall|i: int| b - 1 <= i < t.len() implies is_white(#[trigger] t[i]) by {
                    assert(t[i] == s[i + 1]);
                }
            }
            law_trimming_takes_the_white_ends(t, a - 1, b - 1);
            assert(t.subrange(a - 1, b - 1) =~= s.subrange(a, b));
        }
    } else {
        assert(a == 0);
        if b == 0 {
            assert(is_white(s[0]));
        }
        if is_white(s.last()) {
            let t = s.drop_last();
            assert(b < s.len());
            assert(between_white_ends(t, a, b));
            law_trimming_takes_the_white_ends(t, a, b);
            assert(t.subrange(a, b) =~= s.subrange(a, b));
        } else {
            if b < s.len() {
                assert(is_white(s[s.len() - 1]));
            }
            assert(s.subrange(a, b) =~= s);
        }
    }
}

/// White space is what Unicode calls so: the controls from tab to carriage return, the space and
/// its fixed forms, and the separators of lines and paragraphs. Nothing else is.
pub proof fn law_white_space(c: char)
    ensures
        is_white('\t') && is_white('\n') && is_white('\u{b}') && is_white('\u{c}') && is_white('\r'),
        is_white(' ') && is_white('\u{85}') && is_white('\u{a0}') && is_white('\u{1680}'),
        '\u{2000}' <= c <= '\u{200a}' ==> is_white(c),
        is_white('\u{2028}') && is_white('\u{2029}') && is_white('\u{202f}'),
        is_white('\u{205f}') && is_white('\u{3000}'),
        is_white(c) ==> {
            ||| '\t' <= c <= '\r'
            ||| '\u{2000}' <= c <= '\u{200a}'
            ||| (c as int == 0x20 || c as int == 0x85 || c as int == 0xa0 || c as int == 0x1680)
            ||| (c as int == 0x2028 || c as int == 0x2029 || c as int == 0x202f)
            ||| (c as int == 0x205f || c as int == 0x3000)
        },
{
    reveal(is_white);
}

} // verus!
