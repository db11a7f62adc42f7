//! Plain-text building blocks: decimal and hexadecimal rendering and parsing,
//! ASCII case-insensitive comparison.
use vstd::prelude::*;

verus! {

/// The character of a decimal digit.
pub open spec fn digit_char(d: nat) -> char {
    ((48 + d) as u8) as char
}

/// Decimal rendering of a natural number, without leading zeros.
pub open spec fn decimal(n: nat) -> Seq<char>
    decreases n,
{
    if n < 10 {
        seq![digit_char(n)]
    } else {
        decimal(n / 10).push(digit_char(n % 10))
    }
}

/// Appends one character to a string.
#[verifier::external_body]
pub(crate) fn string_push(s: &mut String, c: char)
    ensures
        final(s)@ == old(s)@.push(c),
{
    s.push(c);
}

/// Appends the decimal rendering of `n` to `s`.
pub fn push_decimal(s: &mut String, n: u64)
    ensures
        final(s)@ == old(s)@ + decimal(n as nat),
    decreases n,
{
    if n >= 10 {
        push_decimal(s, n / 10);
    }
    let d: u8 = (n % 10) as u8;
    let c = (48u8 + d) as char;
    string_push(s, c);
    proof {
        assert(decimal(n as nat) == if n < 10 { seq![digit_char(n as nat)] } else { decimal((n / 10) as nat).push(digit_char((n % 10) as nat)) });
    }
}


/// The characters of a string slice, in order.
pub fn chars_of(s: &str) -> (v: Vec<char>)
    ensures
        v@ == s@,
{
    let mut v: Vec<char> = Vec::new();
    for c in it: s.chars()
        invariant
            v@ == it.seq().take(it.index() as int),
            it.seq() == s@,
    {
        v.push(c);
    }
    v
}


/// The value of `c` as a digit in base `radix`, as `char::to_digit` gives it.
pub open spec fn digit_value(c: char, radix: nat) -> Option<nat> {
    let u = c as u32;
    let v: nat = if 48 <= u && u <= 57 {
        (u - 48) as nat
    } else if 97 <= u && u <= 122 {
        (u - 87) as nat
    } else if 65 <= u && u <= 90 {
        (u - 55) as nat
    } else {
        36
    };
    if v < radix {
        Some(v)
    } else {
        None
    }
}

/// The value of a string of digits in base `radix` (`Some(0)` for the empty string),
/// or `None` when one of its characters is no digit.
pub open spec fn digits_value(s: Seq<char>, radix: nat) -> Option<nat>
    decreases s.len(),
{
    if s.len() == 0 {
        Some(0)
    } else {
        match (digits_value(s.drop_last(), radix), digit_value(s.last(), radix)) {
            (Some(h), Some(d)) => Some(h * radix + d),
            _ => None,
        }
    }
}

/// What `from_str_radix` gives for an unsigned integer type whose largest value is
/// `max`: an optional `+`, then at least one digit, and a value that fits.
pub open spec fn parse_unsigned(s: Seq<char>, radix: nat, max: nat) -> Option<nat> {
    let body = if s.len() > 0 && s[0] == '+' {
        s.drop_first()
    } else {
        s
    };
    if body.len() == 0 {
        None
    } else {
        match digits_value(body, radix) {
            Some(v) => if v <= max {
                Some(v)
            } else {
                None
            },
            None => None,
        }
    }
}

/// A digit's value never exceeds what one more digit adds.
proof fn lemma_digits_grow(h: nat, radix: nat, d: nat)
    requires
        radix >= 1,
    ensures
        h * radix + d >= h,
{
    assert(h * radix >= h) by (nonlinear_arith)
        requires
            radix >= 1,
    ;
}

/// Parses `s` as an unsigned integer in base `radix` (2 to 36) no larger than `max`,
/// as `from_str_radix` does for the unsigned type whose largest value is `max`.
pub fn parse_unsigned_text(s: &str, radix: u32, max: u64) -> (r: Option<u64>)
    requires
        2 <= radix <= 36,
    ensures
        match parse_unsigned(s@, radix as nat, max as nat) {
            Some(v) => r == Some(v as u64),
            None => r is None,
        },
{
    let cs = chars_of(s);
    let n = cs.len();
    let mut start: usize = 0;
    if n > 0 && cs[0] == '+' {
        start = 1;
    }
    let ghost body = if s@.len() > 0 && s@[0] == '+' { s@.drop_first() } else { s@ };
    assert(body == cs@.subrange(start as int, n as int));
    if start == n {
        return None;
    }
    let mut acc: u64 = 0;
    let mut over = false;
    let mut i = start;
    assert(cs@.subrange(start as int, start as int) =~= Seq::<char>::empty());
    while i < n
        invariant
            start <= i <= n,
            n == cs@.len(),
            cs@ == s@,
            body == cs@.subrange(start as int, n as int),
            body == (if s@.len() > 0 && s@[0] == '+' { s@.drop_first() } else { s@ }),
            digits_value(cs@.subrange(start as int, i as int), radix as nat) is Some,
            !over ==> digits_value(cs@.subrange(start as int, i as int), radix as nat) == Some(acc as nat),
            !over ==> acc <= max,
            over ==> digits_value(cs@.subrange(start as int, i as int), radix as nat).unwrap() > max,
            2 <= radix <= 36,
        decreases n - i,
    {
        let c = cs[i];
        let u = c as u32;
        let d: u32 = if 48 <= u && u <= 57 {
            u - 48
        } else if 97 <= u && u <= 122 {
            u - 87
        } else if 65 <= u && u <= 90 {
            u - 55
        } else {
            36
        };
        let ghost prefix = cs@.subrange(start as int, i as int);
        let ghost next = cs@.subrange(start as int, i + 1);
        assert(next.drop_last() =~= prefix);
        assert(next.last() == c);
        if d >= radix {
            assert(digit_value(c, radix as nat) is None);
            proof {
                assert(cs@.subrange(start as int, n as int).take((i - start) + 1) =~= next);
                assert(digits_value(next, radix as nat) is None);
                lemma_none_extends(cs@.subrange(start as int, n as int), (i - start) as nat + 1, radix as nat);
                assert(digits_value(body, radix as nat) is None);
            }
            return None;
        }
        assert(digit_value(c, radix as nat) == Some(d as nat));
        let ghost old_val = digits_value(prefix, radix as nat).unwrap();
        proof {
            lemma_digits_grow(old_val, radix as nat, d as nat);
        }
        if !over {
            assert((acc as u128) * (radix as u128) <= 0xffff_ffff_ffff_ffffu128 * 36) by (nonlinear_arith)
                requires
                    acc <= 0xffff_ffff_ffff_ffffu64,
                    radix <= 36,
            ;
            let wide: u128 = (acc as u128) * (radix as u128) + (d as u128);
            if wide > max as u128 {
                over = true;
            } else {
                acc = wide as u64;
            }
        }
        i = i + 1;
    }
    if over {
        None
    } else {
        Some(acc)
    }
}

/// What `i64::from_str` gives: an optional sign, `+` or `-`, then at least one
/// decimal digit, and a value between `i64::MIN` and `i64::MAX`.
pub open spec fn parse_signed(s: Seq<char>) -> Option<int> {
    if s.len() > 0 && s[0] == '-' {
        let body = s.drop_first();
        if body.len() > 0 && body[0] == '+' {
            None
        } else {
            match parse_unsigned(body, 10, 0x8000_0000_0000_0000) {
                Some(v) => Some(-v),
                None => None,
            }
        }
    } else {
        match parse_unsigned(s, 10, 0x7fff_ffff_ffff_ffff) {
            Some(v) => Some(v as int),
            None => None,
        }
    }
}

/// Parses `s` as a signed 64-bit decimal integer, as `i64::from_str` does.
pub fn parse_signed_text(s: &str) -> (r: Option<i64>)
    ensures
        match parse_signed(s@) {
            Some(v) => r == Some(v as i64),
            None => r is None,
        },
{
    let n = s.unicode_len();
    if n > 0 && s.get_char(0) == '-' {
        let body = s.substring_char(1, n);
        assert(body@ =~= s@.drop_first());
        if n > 1 && body.get_char(0) == '+' {
            return None;
        }
        match parse_unsigned_text(body, 10, 0x8000_0000_0000_0000) {
            Some(v) => {
                if v == 0x8000_0000_0000_0000 {
                    Some(i64::MIN)
                } else {
                    let w: i64 = v as i64;
                    Some(-w)
                }
            },
            None => None,
        }
    } else {
        match parse_unsigned_text(s, 10, 0x7fff_ffff_ffff_ffff) {
            Some(v) => Some(v as i64),
            None => None,
        }
    }
}

/// Once a prefix holds a non-digit, so does every longer prefix.
proof fn lemma_none_extends(s: Seq<char>, k: nat, radix: nat)
    requires
        k <= s.len(),
        digits_value(s.take(k as int), radix) is None,
    ensures
        digits_value(s, radix) is None,
    decreases s.len() - k,
{
    if k < s.len() {
        let t = s.take(k as int + 1);
        assert(t.drop_last() =~= s.take(k as int));
        lemma_none_extends(s, k + 1, radix);
    } else {
        assert(s.take(k as int) =~= s);
    }
}


/// Law: decimal text reads back, digit by digit, as its number, and parses as
/// it wherever the number fits; it holds no sign.
pub proof fn lemma_decimal_value(n: nat)
    ensures
        decimal(n).len() > 0,
        digits_value(decimal(n), 10) == Some(n),
        decimal(n)[0] != '+' && decimal(n)[0] != '-',
        forall|max: nat| n <= max ==> #[trigger] parse_unsigned(decimal(n), 10, max) == Some(n),
    decreases n,
{
    if n < 10 {
        let c = digit_char(n);
        assert(decimal(n) == seq![c]);
        assert(seq![c].drop_last() =~= Seq::<char>::empty());
        assert(digit_value(c, 10) == Some(n));
        assert(digits_value(Seq::<char>::empty(), 10) == Some(0nat));
        assert(digits_value(seq![c], 10) == Some(0nat * 10 + n));
    } else {
        lemma_decimal_value(n / 10);
        let c = digit_char(n % 10);
        let t = decimal(n / 10);
        assert(decimal(n) == t.push(c));
        assert(t.push(c).drop_last() =~= t);
        assert(digit_value(c, 10) == Some(n % 10));
        assert((n / 10) * 10 + n % 10 == n);
        assert(digits_value(t.push(c), 10) == Some((n / 10) * 10 + n % 10));
        assert(t.push(c)[0] == t[0]);
    }
}

/// The lowercase hexadecimal digit of a value below 16.
pub open spec fn lower_hex_digit(d: nat) -> char {
    if d < 10 {
        ((48 + d) as u8) as char
    } else {
        ((87 + d) as u8) as char
    }
}

/// Lowercase hexadecimal rendering of a natural number, without leading zeros.
pub open spec fn lower_hex(n: nat) -> Seq<char>
    decreases n,
{
    if n < 16 {
        seq![lower_hex_digit(n)]
    } else {
        lower_hex(n / 16).push(lower_hex_digit(n % 16))
    }
}

/// Lowercase hexadecimal text reads back, digit by digit, as its number; it
/// holds no `+` and no `/`.
pub proof fn lemma_lower_hex_value(n: nat)
    ensures
        lower_hex(n).len() > 0,
        digits_value(lower_hex(n), 16) == Some(n),
        lower_hex(n)[0] != '+',
        forall|i: int| 0 <= i < lower_hex(n).len() ==> lower_hex(n)[i] != '/',
    decreases n,
{
    if n < 16 {
        let c = lower_hex_digit(n);
        assert(lower_hex(n) == seq![c]);
        assert(seq![c].drop_last() =~= Seq::<char>::empty());
        assert(digit_value(c, 16) == Some(n));
        assert(digits_value(Seq::<char>::empty(), 16) == Some(0nat));
        assert(digits_value(seq![c], 16) == Some(0nat * 16 + n));
    } else {
        lemma_lower_hex_value(n / 16);
        let c = lower_hex_digit(n % 16);
        let t = lower_hex(n / 16);
        assert(lower_hex(n) == t.push(c));
        assert(t.push(c).drop_last() =~= t);
        assert(digit_value(c, 16) == Some(n % 16));
        assert((n / 16) * 16 + n % 16 == n);
        assert(digits_value(t.push(c), 16) == Some((n / 16) * 16 + n % 16));
        assert forall|i: int| 0 <= i < t.push(c).len() implies t.push(c)[i] != '/' by {
            if i < t.len() {
                assert(t.push(c)[i] == t[i]);
            }
        }
    }
}

/// The uppercase hexadecimal digit of a value below 16.
pub open spec fn upper_hex_digit(d: nat) -> char {
    if d < 10 {
        ((48 + d) as u8) as char
    } else {
        ((55 + d) as u8) as char
    }
}

/// Uppercase hexadecimal rendering of a natural number, without leading zeros.
pub open spec fn upper_hex(n: nat) -> Seq<char>
    decreases n,
{
    if n < 16 {
        seq![upper_hex_digit(n)]
    } else {
        upper_hex(n / 16).push(upper_hex_digit(n % 16))
    }
}

/// Appends the uppercase hexadecimal rendering of `n` to `s`.
pub fn push_upper_hex(s: &mut String, n: u64)
    ensures
        final(s)@ == old(s)@ + upper_hex(n as nat),
    decreases n,
{
    if n >= 16 {
        push_upper_hex(s, n / 16);
    }
    let d: u8 = (n % 16) as u8;
    let c = if d < 10 { (48u8 + d) as char } else { (55u8 + d) as char };
    string_push(s, c);
    proof {
        assert(upper_hex(n as nat) == if n < 16 {
            seq![upper_hex_digit(n as nat)]
        } else {
            upper_hex((n / 16) as nat).push(upper_hex_digit((n % 16) as nat))
        });
    }
}

/// Uppercase hexadecimal text reads back, digit by digit, as its number; it
/// holds no `+` and no `/`.
pub proof fn lemma_upper_hex_value(n: nat)
    ensures
        upper_hex(n).len() > 0,
        digits_value(upper_hex(n), 16) == Some(n),
        upper_hex(n)[0] != '+',
        forall|i: int| 0 <= i < upper_hex(n).len() ==> upper_hex(n)[i] != '/',
    decreases n,
{
    if n < 16 {
        let c = upper_hex_digit(n);
        assert(upper_hex(n) == seq![c]);
        assert(seq![c].drop_last() =~= Seq::<char>::empty());
        assert(digit_value(c, 16) == Some(n));
        assert(digits_value(Seq::<char>::empty(), 16) == Some(0nat));
        assert(digits_value(seq![c], 16) == Some(0nat * 16 + n));
    } else {
        lemma_upper_hex_value(n / 16);
        let c = upper_hex_digit(n % 16);
        let t = upper_hex(n / 16);
        assert(upper_hex(n) == t.push(c));
        assert(t.push(c).drop_last() =~= t);
        assert(digit_value(c, 16) == Some(n % 16));
        assert((n / 16) * 16 + n % 16 == n);
        assert(digits_value(t.push(c), 16) == Some((n / 16) * 16 + n % 16));
        assert forall|i: int| 0 <= i < t.push(c).len() implies t.push(c)[i] != '/' by {
            if i < t.len() {
                assert(t.push(c)[i] == t[i]);
            }
        }
    }
}

/// The lowercase hexadecimal digit of a value below 16.
pub open spec fn hex_digit(d: nat) -> char {
    if d < 10 {
        ((48 + d) as u8) as char
    } else {
        ((87 + d) as u8) as char
    }
}

/// Two lowercase hexadecimal digits per byte, most significant nibble first.
pub open spec fn hex_text(bytes: Seq<u8>) -> Seq<char>
    decreases bytes.len(),
{
    if bytes.len() == 0 {
        Seq::empty()
    } else {
        hex_text(bytes.drop_last()).push(hex_digit((bytes.last() / 16) as nat)).push(
            hex_digit((bytes.last() % 16) as nat),
        )
    }
}

fn hex_digit_char(d: u8) -> (c: char)
    requires
        d < 16,
    ensures
        c == hex_digit(d as nat),
{
    if d < 10 {
        (48u8 + d) as char
    } else {
        (87u8 + d) as char
    }
}

/// Renders bytes as lowercase hexadecimal, two digits per byte.
pub fn hex_encode(data: &[u8]) -> (r: String)
    ensures
        r@ == hex_text(data@),
{
    let mut out = String::new();
    let mut i: usize = 0;
    while i < data.len()
        invariant
            i <= data@.len(),
            out@ == hex_text(data@.take(i as int)),
        decreases data@.len() - i,
    {
        let b = data[i];
        string_push(&mut out, hex_digit_char(b / 16));
        string_push(&mut out, hex_digit_char(b % 16));
        assert(data@.take(i + 1).drop_last() =~= data@.take(i as int));
        i = i + 1;
    }
    assert(data@.take(data@.len() as int) =~= data@);
    out
}

/// A character with ASCII uppercase letters mapped to lowercase.
pub open spec fn ascii_lower(c: char) -> char {
    if 65 <= (c as u32) && (c as u32) <= 90 {
        ((c as u32) + 32) as char
    } else {
        c
    }
}

/// Equality of two strings up to ASCII case, as `str::eq_ignore_ascii_case`.
pub open spec fn eq_ignore_ascii_case(a: Seq<char>, b: Seq<char>) -> bool {
    a.len() == b.len() && forall|i: int| 0 <= i < a.len() ==> ascii_lower(#[trigger] a[i]) == ascii_lower(b[i])
}

fn lower_char(c: char) -> (r: char)
    ensures
        r == ascii_lower(c),
{
    let u = c as u32;
    if 65 <= u && u <= 90 {
        assert(u + 32 <= 122);
        ((u + 32) as u8) as char
    } else {
        c
    }
}

/// Compares two strings up to ASCII case.
pub fn equals_ignore_ascii_case(a: &str, b: &str) -> (r: bool)
    ensures
        r == eq_ignore_ascii_case(a@, b@),
{
    let x = chars_of(a);
    let y = chars_of(b);
    if x.len() != y.len() {
        return false;
    }
    let mut i: usize = 0;
    while i < x.len()
        invariant
            x@ == a@,
            y@ == b@,
            x@.len() == y@.len(),
            i <= x@.len(),
            forall|j: int| 0 <= j < i ==> ascii_lower(#[trigger] x@[j]) == ascii_lower(y@[j]),
        decreases x@.len() - i,
    {
        if lower_char(x[i]) != lower_char(y[i]) {
            return false;
        }
        i = i + 1;
    }
    true
}

/// Compares two string slices for equality.
#[verifier::external_body]
pub(crate) fn str_equal(a: &str, b: &str) -> (r: bool)
    ensures
        r == (a@ == b@),
{
    a == b
}

/// Law: the hexadecimal text of bytes has two lowercase digits per byte, in
/// order: the high nibble, then the low one.
pub proof fn lemma_hex_text_digits(bytes: Seq<u8>)
    ensures
        hex_text(bytes).len() == 2 * bytes.len(),
        forall|i: int|
            0 <= i < bytes.len() ==> digit_value(#[trigger] hex_text(bytes)[2 * i], 16) == Some((bytes[i] / 16) as nat)
                && digit_value(hex_text(bytes)[2 * i + 1], 16) == Some((bytes[i] % 16) as nat),
        forall|i: int|
            0 <= i < hex_text(bytes).len() ==> ('0' <= #[trigger] hex_text(bytes)[i] <= '9' || 'a' <= hex_text(bytes)[i]
                <= 'f'),
    decreases bytes.len(),
{
    if bytes.len() > 0 {
        let b = bytes.drop_last();
        lemma_hex_text_digits(b);
        let h = hex_text(b);
        let x = bytes.last();
        let hi = hex_digit((x / 16) as nat);
        let lo = hex_digit((x % 16) as nat);
        assert(hex_text(bytes) == h.push(hi).push(lo));
        assert(digit_value(hi, 16) == Some((x / 16) as nat));
        assert(digit_value(lo, 16) == Some((x % 16) as nat));
        assert forall|i: int| 0 <= i < bytes.len() implies digit_value(#[trigger] hex_text(bytes)[2 * i], 16) == Some(
            (bytes[i] / 16) as nat,
        ) && digit_value(hex_text(bytes)[2 * i + 1], 16) == Some((bytes[i] % 16) as nat) by {
            if i < b.len() {
                assert(hex_text(bytes)[2 * i] == h[2 * i]);
                assert(hex_text(bytes)[2 * i + 1] == h[2 * i + 1]);
                assert(bytes[i] == b[i]);
            }
        }
        assert forall|i: int| 0 <= i < hex_text(bytes).len() implies ('0' <= #[trigger] hex_text(bytes)[i] <= '9' || 'a'
            <= hex_text(bytes)[i] <= 'f') by {
            if i < h.len() {
                assert(hex_text(bytes)[i] == h[i]);
            }
        }
    }
}

/// Law: ASCII lowercasing maps `A`..`Z` to `a`..`z` and leaves every other
/// character; comparing up to ASCII case is reflexive and symmetric.
pub proof fn lemma_ascii_case(c: char, a: Seq<char>, b: Seq<char>)
    ensures
        'A' <= c <= 'Z' ==> ascii_lower(c) as u32 == c as u32 + 32,
        !('A' <= c <= 'Z') ==> ascii_lower(c) == c,
        !('A' <= ascii_lower(c) <= 'Z'),
        eq_ignore_ascii_case(a, a),
        eq_ignore_ascii_case(a, b) == eq_ignore_ascii_case(b, a),
{
}

/// `piece` occurs in `text` as a contiguous run of characters.
pub open spec fn contains_text(text: Seq<char>, piece: Seq<char>) -> bool {
    exists|i: int| 0 <= i && i + piece.len() <= text.len() && #[trigger] text.subrange(i, i + piece.len()) == piece
}

/// Occurrence in a text: every text holds itself, and a concatenation holds
/// what either part holds.
pub proof fn lemma_contains_text_rules()
    ensures
        forall|p: Seq<char>| #[trigger] contains_text(p, p),
        forall|a: Seq<char>, b: Seq<char>, p: Seq<char>|
            contains_text(a, p) || contains_text(b, p) ==> #[trigger] contains_text(a + b, p),
{
    assert forall|p: Seq<char>| #[trigger] contains_text(p, p) by {
        let z: int = 0;
        assert(p.subrange(z, z + p.len()) =~= p);
    }
    assert forall|a: Seq<char>, b: Seq<char>, p: Seq<char>|
        contains_text(a, p) || contains_text(b, p) implies #[trigger] contains_text(a + b, p) by {
        if contains_text(a, p) {
            let i = choose|i: int| 0 <= i && i + p.len() <= a.len() && #[trigger] a.subrange(i, i + p.len()) == p;
            assert((a + b).subrange(i, i + p.len()) =~= a.subrange(i, i + p.len()));
        } else {
            let i = choose|i: int| 0 <= i && i + p.len() <= b.len() && #[trigger] b.subrange(i, i + p.len()) == p;
            let j = i + a.len();
            assert((a + b).subrange(j, j + p.len()) =~= b.subrange(i, i + p.len()));
        }
    }
}

/// Law: a signed decimal integer written in decimal, with a leading `-` when
/// negative, parses back as itself.
pub proof fn lemma_signed_decimal_reads_back(n: i64)
    ensures
        n >= 0 ==> parse_signed(decimal(n as nat)) == Some(n as int),
        n < 0 ==> parse_signed(seq!['-'] + decimal((-(n as int)) as nat)) == Some(n as int),
{
    if n >= 0 {
        lemma_decimal_value(n as nat);
    } else {
        let m = (-(n as int)) as nat;
        lemma_decimal_value(m);
        let t = seq!['-'] + decimal(m);
        assert(t[0] == '-');
        assert(t.drop_first() =~= decimal(m));
        assert(m <= 0x8000_0000_0000_0000);
    }
}

} // verus!
