//! Textual log sequence numbers: the `hi/lo` form that is persisted and
//! read back when replication resumes.
use vstd::prelude::*;
use crate::text::{
    chars_of, digit_value, digits_value, lemma_lower_hex_value, lemma_upper_hex_value, lower_hex, parse_unsigned,
    parse_unsigned_text, push_upper_hex, string_push, upper_hex,
};

verus! {

/// `i` is the position of the only `/` in `s`.
pub open spec fn sole_slash_at(s: Seq<char>, i: int) -> bool {
    &&& 0 <= i < s.len()
    &&& s[i] == '/'
    &&& forall|j: int| 0 <= j < s.len() && j != i ==> s[j] != '/'
}

/// What `parse_lsn_hex` returns: two hexadecimal `u64` halves around a single `/`,
/// combined as `(hi << 32) | lo`.
pub open spec fn lsn_from_text(s: Seq<char>) -> Option<u64> {
    if exists|i: int| sole_slash_at(s, i) {
        let i = choose|i: int| sole_slash_at(s, i);
        match (
            parse_unsigned(s.take(i), 16, u64::MAX as nat),
            parse_unsigned(s.skip(i + 1), 16, u64::MAX as nat),
        ) {
            (Some(hi), Some(lo)) => Some(((hi as u64) << 32u64) | (lo as u64)),
            _ => None,
        }
    } else {
        None
    }
}

/// The text an LSN is persisted as, the way PostgreSQL writes it: the high and
/// low 32-bit halves in uppercase hexadecimal, separated by `/`.
pub open spec fn lsn_text_of(lsn: u64) -> Seq<char> {
    upper_hex((lsn >> 32u64) as nat).push('/') + upper_hex((lsn & 0xffff_ffffu64) as nat)
}

/// Parses an LSN written as `HI/LO` in hexadecimal.
pub fn parse_lsn_hex(lsn: &str) -> (r: Option<u64>)
    ensures
        r == lsn_from_text(lsn@),
{
    let cs = chars_of(lsn);
    let n = cs.len();
    let mut count: usize = 0;
    let mut pos: usize = 0;
    let mut i: usize = 0;
    while i < n
        invariant
            n == cs@.len(),
            cs@ == lsn@,
            i <= n,
            count <= i,
            count == 0 ==> forall|j: int| 0 <= j < i ==> cs@[j] != '/',
            count >= 1 ==> pos < i && cs@[pos as int] == '/',
            count == 1 ==> forall|j: int| 0 <= j < i && j != pos ==> cs@[j] != '/',
            count >= 2 ==> exists|j: int| 0 <= j < i && j != pos && cs@[j] == '/',
        decreases n - i,
    {
        if cs[i] == '/' {
            if count == 0 {
                pos = i;
            }
            count = count + 1;
        }
        i = i + 1;
    }
    if count != 1 {
        proof {
            if count == 0 {
                assert forall|k: int| !sole_slash_at(lsn@, k) by {}
            } else {
                assert forall|k: int| !sole_slash_at(lsn@, k) by {
                    if sole_slash_at(lsn@, k) {
                        let j = choose|j: int| 0 <= j < n && j != pos && cs@[j] == '/';
                        assert(j == k);
                        assert(pos == k);
                    }
                }
            }
        }
        return None;
    }
    assert(sole_slash_at(lsn@, pos as int));
    proof {
        let k = choose|k: int| sole_slash_at(lsn@, k);
        assert(k == pos);
    }
    let hi_text = lsn.substring_char(0, pos);
    let lo_text = lsn.substring_char(pos + 1, n);
    assert(hi_text@ =~= lsn@.take(pos as int));
    assert(lo_text@ =~= lsn@.skip(pos + 1));
    let hi = parse_unsigned_text(hi_text, 16, u64::MAX);
    let lo = parse_unsigned_text(lo_text, 16, u64::MAX);
    match (hi, lo) {
        (Some(h), Some(l)) => Some((h << 32u64) | l),
        _ => None,
    }
}

/// Renders an LSN as it is persisted: `{hi}/{lo}` with both halves in
/// uppercase hexadecimal.
pub fn lsn_text(lsn: u64) -> (r: String)
    ensures
        r@ == lsn_text_of(lsn),
{
    let mut out = String::new();
    push_upper_hex(&mut out, lsn >> 32u64);
    string_push(&mut out, '/');
    push_upper_hex(&mut out, lsn & 0xffff_ffffu64);
    out
}

proof fn lemma_halves_recombine(x: u64)
    ensures
        (((x >> 32u64) as u64) << 32u64) | ((x & 0xffff_ffffu64) as u64) == x,
{
    assert((((x >> 32u64) as u64) << 32u64) | ((x & 0xffff_ffffu64) as u64) == x) by (bit_vector);
}

/// Two hexadecimal halves around a `/` read back as the LSN they write.
proof fn lemma_halves_read_back(lsn: u64, h: Seq<char>, l: Seq<char>)
    requires
        h.len() > 0,
        l.len() > 0,
        h[0] != '+',
        l[0] != '+',
        digits_value(h, 16) == Some((lsn >> 32u64) as nat),
        digits_value(l, 16) == Some((lsn & 0xffff_ffffu64) as nat),
        forall|i: int| 0 <= i < h.len() ==> h[i] != '/',
        forall|i: int| 0 <= i < l.len() ==> l[i] != '/',
    ensures
        lsn_from_text(h.push('/') + l) == Some(lsn),
{
    let hi = (lsn >> 32u64) as nat;
    let lo = (lsn & 0xffff_ffffu64) as nat;
    let t = h.push('/') + l;
    let k = h.len() as int;
    assert(t =~= h + seq!['/'] + l);
    assert(t.take(k) =~= h);
    assert(t.skip(k + 1) =~= l);
    assert(sole_slash_at(t, k)) by {
        assert forall|j: int| 0 <= j < t.len() && j != k implies t[j] != '/' by {
            if j < k {
                assert(t[j] == h[j]);
            } else {
                assert(t[j] == l[j - k - 1]);
            }
        }
    }
    let c = choose|i: int| sole_slash_at(t, i);
    assert(c == k);
    assert(hi <= u64::MAX && lo <= u64::MAX);
    assert(parse_unsigned(h, 16, u64::MAX as nat) == Some(hi));
    assert(parse_unsigned(l, 16, u64::MAX as nat) == Some(lo));
    lemma_halves_recombine(lsn);
}

/// Law: every persisted LSN reads back as itself.
pub proof fn lemma_lsn_text_roundtrip(lsn: u64)
    ensures
        lsn_from_text(lsn_text_of(lsn)) == Some(lsn),
{
    lemma_upper_hex_value((lsn >> 32u64) as nat);
    lemma_upper_hex_value((lsn & 0xffff_ffffu64) as nat);
    lemma_halves_read_back(lsn, upper_hex((lsn >> 32u64) as nat), upper_hex((lsn & 0xffff_ffffu64) as nat));
}

/// Law: an LSN written with lowercase hexadecimal halves, `{hi:x}/{lo:x}`, also
/// reads back as itself.
pub proof fn lemma_lsn_lowercase_text_roundtrip(lsn: u64)
    ensures
        lsn_from_text(lower_hex((lsn >> 32u64) as nat).push('/') + lower_hex((lsn & 0xffff_ffffu64) as nat)) == Some(
            lsn,
        ),
{
    lemma_lower_hex_value((lsn >> 32u64) as nat);
    lemma_lower_hex_value((lsn & 0xffff_ffffu64) as nat);
    lemma_halves_read_back(lsn, lower_hex((lsn >> 32u64) as nat), lower_hex((lsn & 0xffff_ffffu64) as nat));
}

} // verus!
