//! Byte-level text helpers for the compact swap encoding and for proof
//! file keys: decimal numbers, hexadecimal strings, and colon-separated
//! fields, each with an exact mathematical description.

use vstd::prelude::*;

verus! {

/// The field separator of the compact swap encoding.
pub const COLON: u8 = 0x3a;

// ---------------------------------------------------------------------
// Decimal numbers
// ---------------------------------------------------------------------

pub open spec fn is_digit(b: u8) -> bool {
    0x30 <= b && b <= 0x39
}

pub open spec fn digit_val(b: u8) -> nat {
    if is_digit(b) {
        (b - 0x30) as nat
    } else {
        0
    }
}

pub open spec fn all_digits(s: Seq<u8>) -> bool {
    forall|i: int| 0 <= i < s.len() ==> is_digit(#[trigger] s[i])
}

/// The number a digit string stands for, most significant digit first.
pub open spec fn dec_value(s: Seq<u8>) -> nat
    decreases s.len(),
{
    if s.len() == 0 {
        0
    } else {
        dec_value(s.drop_last()) * 10 + digit_val(s.last())
    }
}

/// The canonical decimal text of a number: no sign, no leading zero
/// except for zero itself.
pub open spec fn dec_text(n: nat) -> Seq<u8>
    decreases n,
{
    if n < 10 {
        seq![(0x30 + n) as u8]
    } else {
        dec_text(n / 10).push((0x30 + n % 10) as u8)
    }
}

pub proof fn lemma_dec_value_take_succ(s: Seq<u8>, i: int)
    requires
        0 <= i < s.len(),
    ensures
        dec_value(s.take(i + 1)) == dec_value(s.take(i)) * 10 + digit_val(s[i]),
{
    assert(s.take(i + 1).drop_last() =~= s.take(i));
    assert(s.take(i + 1).last() == s[i]);
}

pub proof fn lemma_dec_value_prefix_le(s: Seq<u8>, i: int)
    requires
        0 <= i <= s.len(),
    ensures
        dec_value(s.take(i)) <= dec_value(s),
    decreases s.len() - i,
{
    if i < s.len() {
        lemma_dec_value_take_succ(s, i);
        lemma_dec_value_prefix_le(s, i + 1);
    } else {
        assert(s.take(i) =~= s);
    }
}

pub proof fn lemma_dec_text_props(n: nat)
    ensures
        dec_text(n).len() >= 1,
        all_digits(dec_text(n)),
        dec_value(dec_text(n)) == n,
    decreases n,
{
    if n < 10 {
        let t = dec_text(n);
        assert(t.len() == 1);
        assert(t.drop_last() =~= Seq::<u8>::empty());
        assert(dec_value(Seq::<u8>::empty()) == 0);
        assert(dec_value(t) == digit_val(t.last()));
    } else {
        lemma_dec_text_props(n / 10);
        let t = dec_text(n);
        let h = dec_text(n / 10);
        assert(t.drop_last() =~= h);
        assert(t.last() == (0x30 + n % 10) as u8);
        assert(digit_val((0x30 + n % 10) as u8) == n % 10);
        assert(dec_value(t) == (n / 10) * 10 + n % 10);
        assert(n == (n / 10) * 10 + n % 10) by {
            vstd::arithmetic::div_mod::lemma_fundamental_div_mod(n as int, 10);
        }
        assert forall|i: int| 0 <= i < t.len() implies is_digit(#[trigger] t[i]) by {
            if i < h.len() {
                assert(h[i] == t[i]);
            }
        }
    }
}

/// Parses an unsigned decimal number: defined exactly when the text is
/// non-empty, all digits, and the value fits.
pub fn parse_dec(s: &Vec<u8>) -> (r: Option<u64>)
    ensures
        ({
            let ok = s@.len() > 0 && all_digits(s@) && dec_value(s@) <= u64::MAX;
            match r {
                Some(v) => ok && v as nat == dec_value(s@),
                None => !ok,
            }
        }),
{
    let n = s.len();
    if n == 0 {
        return None;
    }
    let mut acc: u64 = 0;
    let mut i: usize = 0;
    while i < n
        invariant
            n == s@.len(),
            0 < n,
            i <= n,
            all_digits(s@.take(i as int)),
            acc as nat == dec_value(s@.take(i as int)),
        decreases n - i,
    {
        let b = s[i];
        if b < 0x30 || b > 0x39 {
            assert(!is_digit(s@[i as int]));
            return None;
        }
        let wide: u128 = acc as u128 * 10 + (b - 0x30) as u128;
        proof {
            lemma_dec_value_take_succ(s@, i as int);
            assert(digit_val(s@[i as int]) == (b - 0x30) as nat);
        }
        if wide > u64::MAX as u128 {
            proof {
                lemma_dec_value_prefix_le(s@, i as int + 1);
            }
            return None;
        }
        acc = wide as u64;
        proof {
            assert(s@.take(i as int + 1) =~= s@.take(i as int).push(s@[i as int]));
            assert forall|j: int| 0 <= j < i + 1 implies is_digit(
                #[trigger] s@.take(i as int + 1)[j],
            ) by {
                if j < i {
                    assert(is_digit(s@.take(i as int)[j]));
                }
            }
        }
        i += 1;
    }
    assert(s@.take(n as int) =~= s@);
    Some(acc)
}

/// Writes a number as its canonical decimal text.
pub fn dec_to_text(n: u64) -> (r: Vec<u8>)
    ensures
        r@ == dec_text(n as nat),
{
    if n < 10 {
        let mut out: Vec<u8> = Vec::new();
        out.push(0x30 + (n as u8));
        assert(out@ =~= dec_text(n as nat));
        return out;
    }
    let mut m: u64 = n;
    let mut acc: Vec<u8> = Vec::new();
    let ghost mut suffix: Seq<u8> = Seq::empty();
    while m >= 10
        invariant
            dec_text(n as nat) == dec_text(m as nat) + suffix,
            acc@.len() == suffix.len(),
            forall|j: int| 0 <= j < acc@.len() ==> acc@[j] == suffix[suffix.len() - 1 - j],
        decreases m,
    {
        let d: u8 = (m % 10) as u8;
        proof {
            assert(dec_text(m as nat) == dec_text((m as nat) / 10).push(
                (0x30 + (m as nat) % 10) as u8,
            ));
            assert(dec_text((m as nat) / 10) + (seq![(0x30 + (m as nat) % 10) as u8] + suffix)
                =~= (dec_text((m as nat) / 10).push((0x30 + (m as nat) % 10) as u8)) + suffix);
            suffix = seq![(0x30 + (m as nat) % 10) as u8] + suffix;
        }
        acc.push(0x30 + d);
        m = m / 10;
    }
    let d0: u8 = m as u8;
    let mut out: Vec<u8> = Vec::new();
    out.push(0x30 + d0);
    proof {
        assert(dec_text(m as nat) =~= seq![(0x30 + m as nat) as u8]);
    }
    let mut i: usize = acc.len();
    while i > 0
        invariant
            i <= acc@.len(),
            acc@.len() == suffix.len(),
            forall|j: int| 0 <= j < acc@.len() ==> acc@[j] == suffix[suffix.len() - 1 - j],
            out@ == seq![(0x30 + m as nat) as u8] + suffix.take(suffix.len() - i),
        decreases i,
    {
        i -= 1;
        out.push(acc[i]);
        proof {
            assert(acc@[i as int] == suffix[suffix.len() - 1 - i]);
            assert(out@ =~= seq![(0x30 + m as nat) as u8] + suffix.take(
                suffix.len() - i as int,
            ));
        }
    }
    proof {
        assert(suffix.take(suffix.len() as int) =~= suffix);
    }
    out
}

// ---------------------------------------------------------------------
// Hexadecimal strings
// ---------------------------------------------------------------------

pub open spec fn is_hex_digit(b: u8) -> bool {
    is_digit(b) || (0x61 <= b && b <= 0x66) || (0x41 <= b && b <= 0x46)
}

pub open spec fn hex_digit_val(b: u8) -> nat {
    if is_digit(b) {
        (b - 0x30) as nat
    } else if 0x61 <= b && b <= 0x66 {
        (b - 0x57) as nat
    } else if 0x41 <= b && b <= 0x46 {
        (b - 0x37) as nat
    } else {
        0
    }
}

pub open spec fn all_hex_digits(s: Seq<u8>) -> bool {
    forall|i: int| 0 <= i < s.len() ==> is_hex_digit(#[trigger] s[i])
}

/// The bytes an even-length hex string stands for.
pub open spec fn hex_bytes(s: Seq<u8>) -> Seq<u8> {
    Seq::new((s.len() / 2) as nat, |i: int| (16 * hex_digit_val(s[2 * i]) + hex_digit_val(s[2 * i + 1])) as u8)
}

/// One lowercase hex digit.
pub open spec fn hex_lo_digit(n: u8) -> u8 {
    if n < 10 {
        (0x30 + n) as u8
    } else {
        (0x57 + n) as u8
    }
}

/// The lowercase hex text of a byte string.
pub open spec fn hex_text(b: Seq<u8>) -> Seq<u8> {
    Seq::new(2 * b.len(), |i: int| if i % 2 == 0 {
        hex_lo_digit(b[i / 2] / 16)
    } else {
        hex_lo_digit(b[i / 2] % 16)
    })
}

/// The value of one hex digit, if it is one.
pub fn hex_val(b: u8) -> (r: Option<u8>)
    ensures
        ({
            match r {
                Some(v) => is_hex_digit(b) && v as nat == hex_digit_val(b) && v < 16,
                None => !is_hex_digit(b),
            }
        }),
{
    if 0x30 <= b && b <= 0x39 {
        Some(b - 0x30)
    } else if 0x61 <= b && b <= 0x66 {
        Some(b - 0x57)
    } else if 0x41 <= b && b <= 0x46 {
        Some(b - 0x37)
    } else {
        None
    }
}

/// Decodes a hex string: defined exactly when the length is even and
/// every byte is a hex digit.  Accepts both cases.
pub fn hex_decode(s: &Vec<u8>) -> (r: Option<Vec<u8>>)
    ensures
        ({
            let ok = s@.len() % 2 == 0 && all_hex_digits(s@);
            match r {
                Some(v) => ok && v@ == hex_bytes(s@),
                None => !ok,
            }
        }),
{
    let n = s.len();
    if n % 2 != 0 {
        return None;
    }
    let mut out: Vec<u8> = Vec::new();
    let mut i: usize = 0;
    while i < n
        invariant
            n == s@.len(),
            n % 2 == 0,
            i <= n,
            i % 2 == 0,
            out@.len() == i / 2,
            forall|j: int| 0 <= j < i ==> is_hex_digit(#[trigger] s@[j]),
            forall|j: int| 0 <= j < out@.len() ==> out@[j] == hex_bytes(s@)[j],
        decreases n - i,
    {
        let hi = match hex_val(s[i]) {
            Some(v) => v,
            None => {
                return None;
            },
        };
        let lo = match hex_val(s[i + 1]) {
            Some(v) => v,
            None => {
                return None;
            },
        };
        out.push(16 * hi + lo);
        proof {
            let j = i as int / 2;
            assert(2 * j == i as int);
            assert(out@[j] == (16 * hex_digit_val(s@[2 * j]) + hex_digit_val(
                s@[2 * j + 1],
            )) as u8);
        }
        i += 2;
    }
    proof {
        assert(out@ =~= hex_bytes(s@));
    }
    Some(out)
}

/// Encodes bytes as lowercase hex text.
pub fn hex_encode(b: &Vec<u8>) -> (r: Vec<u8>)
    ensures
        r@ == hex_text(b@),
{
    let n = b.len();
    let mut out: Vec<u8> = Vec::new();
    let mut i: usize = 0;
    while i < n
        invariant
            n == b@.len(),
            i <= n,
            out@.len() == 2 * i,
            forall|j: int| 0 <= j < out@.len() ==> out@[j] == hex_text(b@)[j],
        decreases n - i,
    {
        let byte = b[i];
        let hi = byte / 16;
        let lo = byte % 16;
        let hi_c = if hi < 10 {
            0x30 + hi
        } else {
            0x57 + hi
        };
        let lo_c = if lo < 10 {
            0x30 + lo
        } else {
            0x57 + lo
        };
        out.push(hi_c);
        out.push(lo_c);
        proof {
            let k = 2 * i as int;
            assert(k % 2 == 0 && k / 2 == i as int);
            assert((k + 1) % 2 == 1 && (k + 1) / 2 == i as int);
            assert(out@[k] == hex_text(b@)[k]);
            assert(out@[k + 1] == hex_text(b@)[k + 1]);
        }
        i += 1;
    }
    proof {
        assert(out@ =~= hex_text(b@));
    }
    out
}

pub proof fn lemma_hex_round_trip(b: Seq<u8>)
    ensures
        hex_text(b).len() == 2 * b.len(),
        all_hex_digits(hex_text(b)),
        hex_bytes(hex_text(b)) == b,
{
    let t = hex_text(b);
    assert forall|i: int| 0 <= i < t.len() implies is_hex_digit(#[trigger] t[i]) by {
        let x = if i % 2 == 0 {
            b[i / 2] / 16
        } else {
            b[i / 2] % 16
        };
        assert(x < 16);
    }
    assert forall|i: int| 0 <= i < b.len() implies hex_bytes(t)[i] == b[i] by {
        assert((2 * i) % 2 == 0 && (2 * i) / 2 == i);
        assert((2 * i + 1) % 2 == 1 && (2 * i + 1) / 2 == i);
        assert(t[2 * i] == hex_lo_digit(b[i] / 16));
        assert(t[2 * i + 1] == hex_lo_digit(b[i] % 16));
        assert(hex_digit_val(hex_lo_digit(b[i] / 16)) == (b[i] / 16) as nat);
        assert(hex_digit_val(hex_lo_digit(b[i] % 16)) == (b[i] % 16) as nat);
        assert(16 * (b[i] / 16) + b[i] % 16 == b[i]) by {
            vstd::arithmetic::div_mod::lemma_fundamental_div_mod(b[i] as int, 16);
        }
    }
    assert(hex_bytes(t) =~= b);
}

// ---------------------------------------------------------------------
// Colon-separated fields
// ---------------------------------------------------------------------

pub open spec fn no_colon(s: Seq<u8>) -> bool {
    forall|i: int| 0 <= i < s.len() ==> (#[trigger] s[i]) != COLON
}

/// The fields of a byte string split at every colon.  Splitting the
/// empty string gives one empty field, as the usual splitters do.
pub open spec fn split_colon(s: Seq<u8>) -> Seq<Seq<u8>>
    decreases s.len(),
{
    if s.len() == 0 {
        seq![Seq::<u8>::empty()]
    } else if s[0] == COLON {
        seq![Seq::<u8>::empty()] + split_colon(s.skip(1))
    } else {
        let rest = split_colon(s.skip(1));
        seq![seq![s[0]] + rest[0]] + rest.skip(1)
    }
}

pub proof fn lemma_split_len(s: Seq<u8>)
    ensures
        split_colon(s).len() >= 1,
    decreases s.len(),
{
    if s.len() != 0 {
        lemma_split_len(s.skip(1));
    }
}

pub proof fn lemma_split_no_colon(s: Seq<u8>)
    requires
        no_colon(s),
    ensures
        split_colon(s) == seq![s],
    decreases s.len(),
{
    if s.len() == 0 {
        assert(s =~= Seq::<u8>::empty());
        assert(split_colon(s) =~~= seq![s]);
    } else {
        assert(s[0] != COLON);
        assert(no_colon(s.skip(1))) by {
            assert forall|i: int| 0 <= i < s.skip(1).len() implies (#[trigger] s.skip(1)[i])
                != COLON by {
                assert(s.skip(1)[i] == s[i + 1]);
            }
        }
        lemma_split_no_colon(s.skip(1));
        let rest = split_colon(s.skip(1));
        assert(rest[0] == s.skip(1));
        assert(rest.skip(1) =~= Seq::<Seq<u8>>::empty());
        assert(seq![s[0]] + s.skip(1) =~= s);
        assert(split_colon(s) =~~= seq![s]);
    }
}

pub proof fn lemma_split_concat(a: Seq<u8>, r: Seq<u8>)
    requires
        no_colon(a),
    ensures
        split_colon(a + seq![COLON] + r) == seq![a] + split_colon(r),
    decreases a.len(),
{
    let s = a + seq![COLON] + r;
    if a.len() == 0 {
        assert(s[0] == COLON);
        assert(s.skip(1) =~= r);
        assert(a =~= Seq::<u8>::empty());
        assert(split_colon(s) =~~= seq![a] + split_colon(r));
    } else {
        assert(s[0] == a[0]);
        assert(a[0] != COLON);
        assert(no_colon(a.skip(1))) by {
            assert forall|i: int| 0 <= i < a.skip(1).len() implies (#[trigger] a.skip(1)[i])
                != COLON by {
                assert(a.skip(1)[i] == a[i + 1]);
            }
        }
        lemma_split_concat(a.skip(1), r);
        assert(s.skip(1) =~= a.skip(1) + seq![COLON] + r);
        let rest = split_colon(s.skip(1));
        assert(rest == seq![a.skip(1)] + split_colon(r));
        lemma_split_len(r);
        assert(rest[0] == a.skip(1));
        assert(rest.skip(1) =~= split_colon(r));
        assert(seq![s[0]] + rest[0] =~= a);
        assert(split_colon(s) =~~= seq![a] + split_colon(r));
    }
}

pub proof fn lemma_split_step(s: Seq<u8>, i: int)
    requires
        0 <= i < s.len(),
    ensures
        s[i] == COLON ==> split_colon(s.skip(i)) == seq![Seq::<u8>::empty()] + split_colon(
            s.skip(i + 1),
        ),
        s[i] != COLON ==> split_colon(s.skip(i)) == seq![seq![s[i]] + split_colon(s.skip(i + 1))[0]]
            + split_colon(s.skip(i + 1)).skip(1),
{
    assert(s.skip(i).len() > 0);
    assert(s.skip(i)[0] == s[i]);
    assert(s.skip(i).skip(1) =~= s.skip(i + 1));
}

/// Splits a byte string at every colon.
pub fn split_fields(s: &Vec<u8>) -> (r: Vec<Vec<u8>>)
    ensures
        r@.map_values(|f: Vec<u8>| f@) == split_colon(s@),
{
    let n = s.len();
    let mut fields: Vec<Vec<u8>> = Vec::new();
    let mut cur: Vec<u8> = Vec::new();
    let mut i: usize = 0;
    proof {
        lemma_split_len(s@);
        assert(s@.skip(0) =~= s@);
        assert(fields@.map_values(|f: Vec<u8>| f@) + seq![cur@ + split_colon(s@.skip(0))[0]]
            + split_colon(s@.skip(0)).skip(1) =~~= split_colon(s@));
    }
    while i < n
        invariant
            n == s@.len(),
            i <= n,
            split_colon(s@) == fields@.map_values(|f: Vec<u8>| f@) + seq![cur@ + split_colon(
                s@.skip(i as int),
            )[0]] + split_colon(s@.skip(i as int)).skip(1),
        decreases n - i,
    {
        let ghost old_fields = fields@;
        let ghost old_cur = cur@;
        proof {
            lemma_split_step(s@, i as int);
            lemma_split_len(s@.skip(i as int + 1));
        }
        if s[i] == COLON {
            fields.push(cur);
            cur = Vec::new();
            proof {
                let rest = split_colon(s@.skip(i as int + 1));
                assert(old_cur + split_colon(s@.skip(i as int))[0] =~= old_cur);
                assert(split_colon(s@.skip(i as int)).skip(1) =~= rest);
                assert(fields@.map_values(|f: Vec<u8>| f@) =~= old_fields.map_values(
                    |f: Vec<u8>| f@,
                ).push(old_cur));
                assert(old_fields.map_values(|f: Vec<u8>| f@) + seq![old_cur] + rest
                    =~= fields@.map_values(|f: Vec<u8>| f@) + seq![cur@ + rest[0]] + rest.skip(
                    1,
                ));
            }
        } else {
            cur.push(s[i]);
            proof {
                let rest = split_colon(s@.skip(i as int + 1));
                assert(split_colon(s@.skip(i as int))[0] == seq![s@[i as int]] + rest[0]);
                assert(split_colon(s@.skip(i as int)).skip(1) =~= rest.skip(1));
                assert(old_cur + (seq![s@[i as int]] + rest[0]) =~= cur@ + rest[0]);
            }
        }
        i += 1;
    }
    proof {
        assert(s@.skip(n as int) =~= Seq::<u8>::empty());
        assert(split_colon(s@.skip(n as int)) =~~= seq![Seq::<u8>::empty()]);
        assert(cur@ + Seq::<u8>::empty() =~= cur@);
        assert(split_colon(s@.skip(n as int)).skip(1) =~= Seq::<Seq<u8>>::empty());
    }
    let ghost pre_fields = fields@;
    let ghost last = cur@;
    fields.push(cur);
    proof {
        assert(fields@.map_values(|f: Vec<u8>| f@) =~= pre_fields.map_values(
            |f: Vec<u8>| f@,
        ).push(last));
        assert(pre_fields.map_values(|f: Vec<u8>| f@) + seq![last] + Seq::<Seq<u8>>::empty()
            =~= fields@.map_values(|f: Vec<u8>| f@));
    }
    fields
}

/// Appends one byte vector to another.
pub fn append_bytes(dst: &mut Vec<u8>, src: &Vec<u8>)
    ensures
        final(dst)@ == old(dst)@ + src@,
{
    let n = src.len();
    let mut i: usize = 0;
    while i < n
        invariant
            n == src@.len(),
            i <= n,
            dst@ == old(dst)@ + src@.take(i as int),
        decreases n - i,
    {
        dst.push(src[i]);
        proof {
            assert(old(dst)@ + src@.take(i as int + 1) =~= (old(dst)@ + src@.take(
                i as int,
            )).push(src@[i as int]));
        }
        i += 1;
    }
    proof {
        assert(src@.take(n as int) =~= src@);
    }
}

} // verus!
