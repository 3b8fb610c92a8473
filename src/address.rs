use vstd::prelude::*;
use vstd::utf8::*;

use crate::text::{bytes_equal, is_ascii_bytes, lemma_ascii_utf8, string_bytes, string_from_utf8};

verus! {

broadcast use vstd::utf8::group_utf8_lib;

/// An IPv4 address and a TCP port.
#[derive(Clone, Copy, Debug, PartialEq, Eq)]
pub struct Address {
    pub ip: [u8; 4],
    pub port: u16,
}

pub open spec fn is_digit(b: u8) -> bool {
    48 <= b <= 57
}

/// The decimal digits of `n`, most significant first, without leading zeros.
pub open spec fn decimal_bytes(n: nat) -> Seq<u8>
    decreases n,
{
    if n < 10 {
        seq![(n + 48) as u8]
    } else {
        decimal_bytes(n / 10).push((n % 10 + 48) as u8)
    }
}

/// The number that a sequence of decimal digits stands for.
pub open spec fn digits_value(s: Seq<u8>) -> nat
    decreases s.len(),
{
    if s.len() == 0 {
        0
    } else {
        digits_value(s.drop_last()) * 10 + (s.last() as int - 48) as nat
    }
}

pub open spec fn all_digits(s: Seq<u8>) -> bool {
    forall|i: int| 0 <= i < s.len() ==> is_digit(#[trigger] s[i])
}

/// `s` is empty or does not start with a digit.
pub open spec fn ends_number(s: Seq<u8>) -> bool {
    s.len() == 0 || !is_digit(s[0])
}

pub const DOT: u8 = 46;

pub const COLON: u8 = 58;

/// A separator byte, then the digits of `n`, then `rest`.
pub open spec fn field(sep: u8, n: nat, rest: Seq<u8>) -> Seq<u8> {
    seq![sep] + (decimal_bytes(n) + rest)
}

/// What follows the first number in the canonical form of an address.
pub open spec fn after_first(a: Address) -> Seq<u8> {
    let port_part = field(COLON, a.port as nat, Seq::empty());
    field(DOT, a.ip[1] as nat, field(DOT, a.ip[2] as nat, field(DOT, a.ip[3] as nat, port_part)))
}

/// The canonical form `a.b.c.d:port` of an address, as bytes.
pub open spec fn node_id_bytes(a: Address) -> Seq<u8> {
    decimal_bytes(a.ip[0] as nat) + after_first(a)
}

/// The node identifier of an address: its canonical form `a.b.c.d:port`.
pub open spec fn node_id_of(a: Address) -> Seq<char> {
    decode_utf8(node_id_bytes(a))
}

pub proof fn lemma_decimal(n: nat)
    ensures
        decimal_bytes(n).len() >= 1,
        all_digits(decimal_bytes(n)),
        digits_value(decimal_bytes(n)) == n,
    decreases n,
{
    let s = decimal_bytes(n);
    if n >= 10 {
        lemma_decimal(n / 10);
        assert(s.drop_last() =~= decimal_bytes(n / 10));
        assert(s.last() == (n % 10 + 48) as u8);
        assert(n == (n / 10) * 10 + n % 10);
        assert forall|i: int| 0 <= i < s.len() implies is_digit(#[trigger] s[i]) by {
            if i < s.len() - 1 {
                assert(s[i] == decimal_bytes(n / 10)[i]);
            }
        }
    } else {
        assert(s.drop_last() =~= Seq::<u8>::empty());
    }
    assert(digits_value(s) == digits_value(s.drop_last()) * 10 + (s.last() as int - 48) as nat);
}

pub proof fn lemma_decimal_len(n: nat)
    ensures
        decimal_bytes(n).len() <= n + 1,
    decreases n,
{
    if n >= 10 {
        lemma_decimal_len(n / 10);
    }
}

/// The canonical form of an address is short.
pub proof fn lemma_node_id_len(a: Address)
    ensures
        node_id_bytes(a).len() <= 66565,
{
    lemma_decimal_len(a.ip[0] as nat);
    lemma_decimal_len(a.ip[1] as nat);
    lemma_decimal_len(a.ip[2] as nat);
    lemma_decimal_len(a.ip[3] as nat);
    lemma_decimal_len(a.port as nat);
}

/// A prefix of a digit sequence stands for no larger number than the whole.
pub proof fn lemma_prefix_value(s: Seq<u8>, k: int)
    requires
        all_digits(s),
        0 <= k <= s.len(),
    ensures
        digits_value(s.subrange(0, k)) <= digits_value(s),
    decreases s.len() - k,
{
    if k < s.len() {
        let t = s.subrange(0, k + 1);
        assert(t.drop_last() =~= s.subrange(0, k));
        assert(is_digit(t.last()));
        lemma_prefix_value(s, k + 1);
        assert(s.subrange(0, s.len() as int) =~= s);
    } else {
        assert(s.subrange(0, k) =~= s);
    }
}

/// A number is read off the front of a byte sequence in only one way.
pub proof fn lemma_decimal_unique(n: nat, m: nat, t1: Seq<u8>, t2: Seq<u8>)
    requires
        decimal_bytes(n) + t1 == decimal_bytes(m) + t2,
        ends_number(t1),
        ends_number(t2),
    ensures
        n == m,
        t1 == t2,
{
    lemma_decimal(n);
    lemma_decimal(m);
    let dn = decimal_bytes(n);
    let dm = decimal_bytes(m);
    let s = dn + t1;
    if dn.len() < dm.len() {
        assert(s[dn.len() as int] == dm[dn.len() as int]);
        assert(s[dn.len() as int] == t1[0]);
    } else if dm.len() < dn.len() {
        assert(s[dm.len() as int] == dn[dm.len() as int]);
        assert(s[dm.len() as int] == t2[0]);
    }
    assert(dn =~= s.subrange(0, dn.len() as int));
    assert(dm =~= s.subrange(0, dm.len() as int));
    assert(t1 =~= s.subrange(dn.len() as int, s.len() as int));
    assert(t2 =~= s.subrange(dm.len() as int, s.len() as int));
}

/// The field after a separator is read in only one way.
proof fn lemma_field_unique(sep: u8, n: nat, m: nat, t1: Seq<u8>, t2: Seq<u8>)
    requires
        field(sep, n, t1) == field(sep, m, t2),
        ends_number(t1),
        ends_number(t2),
    ensures
        n == m,
        t1 == t2,
{
    assert(field(sep, n, t1).drop_first() =~= decimal_bytes(n) + t1);
    assert(field(sep, m, t2).drop_first() =~= decimal_bytes(m) + t2);
    lemma_decimal_unique(n, m, t1, t2);
}

/// Two addresses with the same canonical form are the same address.
pub proof fn lemma_node_id_bytes_injective(a: Address, b: Address)
    requires
        node_id_bytes(a) == node_id_bytes(b),
    ensures
        a == b,
{
    let e = Seq::<u8>::empty();
    let pa = field(COLON, a.port as nat, e);
    let pb = field(COLON, b.port as nat, e);
    let ta3 = field(DOT, a.ip[3] as nat, pa);
    let tb3 = field(DOT, b.ip[3] as nat, pb);
    let ta2 = field(DOT, a.ip[2] as nat, ta3);
    let tb2 = field(DOT, b.ip[2] as nat, tb3);
    lemma_decimal_unique(a.ip[0] as nat, b.ip[0] as nat, after_first(a), after_first(b));
    lemma_field_unique(DOT, a.ip[1] as nat, b.ip[1] as nat, ta2, tb2);
    lemma_field_unique(DOT, a.ip[2] as nat, b.ip[2] as nat, ta3, tb3);
    lemma_field_unique(DOT, a.ip[3] as nat, b.ip[3] as nat, pa, pb);
    lemma_field_unique(COLON, a.port as nat, b.port as nat, e, e);
    assert(a.ip =~= b.ip);
}

/// The canonical form of every address is ASCII.
pub proof fn lemma_node_id_ascii(a: Address)
    ensures
        is_ascii_bytes(node_id_bytes(a)),
        valid_utf8(node_id_bytes(a)),
        encode_utf8(node_id_of(a)) == node_id_bytes(a),
{
    lemma_decimal(a.ip[0] as nat);
    lemma_decimal(a.ip[1] as nat);
    lemma_decimal(a.ip[2] as nat);
    lemma_decimal(a.ip[3] as nat);
    lemma_decimal(a.port as nat);
    let e = Seq::<u8>::empty();
    let p = field(COLON, a.port as nat, e);
    let t3 = field(DOT, a.ip[3] as nat, p);
    let t2 = field(DOT, a.ip[2] as nat, t3);
    let t1 = field(DOT, a.ip[1] as nat, t2);
    lemma_field_ascii(COLON, a.port as nat, e);
    lemma_field_ascii(DOT, a.ip[3] as nat, p);
    lemma_field_ascii(DOT, a.ip[2] as nat, t3);
    lemma_field_ascii(DOT, a.ip[1] as nat, t2);
    lemma_concat_ascii(decimal_bytes(a.ip[0] as nat), t1);
    lemma_ascii_utf8(node_id_bytes(a));
}

proof fn lemma_concat_ascii(x: Seq<u8>, y: Seq<u8>)
    requires
        is_ascii_bytes(x),
        is_ascii_bytes(y),
    ensures
        is_ascii_bytes(x + y),
{
    assert forall|i: int| 0 <= i < (x + y).len() implies #[trigger] (x + y)[i] < 128 by {
        if i < x.len() {
            assert((x + y)[i] == x[i]);
        } else {
            assert((x + y)[i] == y[i - x.len()]);
        }
    }
}

proof fn lemma_field_ascii(sep: u8, n: nat, rest: Seq<u8>)
    requires
        sep < 128,
        is_ascii_bytes(rest),
    ensures
        is_ascii_bytes(field(sep, n, rest)),
{
    lemma_decimal(n);
    let d = decimal_bytes(n);
    assert forall|i: int| 0 <= i < d.len() implies #[trigger] d[i] < 128 by {
        assert(is_digit(d[i]));
    }
    lemma_concat_ascii(d, rest);
    lemma_concat_ascii(seq![sep], d + rest);
}

/// Appends the decimal digits of `n`.
fn push_decimal(out: &mut Vec<u8>, n: u16)
    ensures
        final(out)@ == old(out)@ + decimal_bytes(n as nat),
    decreases n,
{
    if n < 10 {
        out.push(n as u8 + 48);
    } else {
        push_decimal(out, n / 10);
        out.push((n % 10) as u8 + 48);
    }
    assert(final(out)@ =~= old(out)@ + decimal_bytes(n as nat));
}

/// The canonical form of an address, as bytes.
pub fn node_id_bytes_of(a: &Address) -> (r: Vec<u8>)
    ensures
        r@ == node_id_bytes(*a),
{
    let mut out: Vec<u8> = Vec::new();
    push_decimal(&mut out, a.ip[0] as u16);
    out.push(DOT);
    push_decimal(&mut out, a.ip[1] as u16);
    out.push(DOT);
    push_decimal(&mut out, a.ip[2] as u16);
    out.push(DOT);
    push_decimal(&mut out, a.ip[3] as u16);
    out.push(COLON);
    push_decimal(&mut out, a.port);
    assert(out@ =~= node_id_bytes(*a));
    out
}

/// The bytes from `start` on are the digits of `n`, then `rest`.
pub open spec fn number_at(b: Seq<u8>, start: int, n: nat, rest: Seq<u8>) -> bool {
    &&& 0 <= start <= b.len()
    &&& b.subrange(start, b.len() as int) == decimal_bytes(n) + rest
    &&& ends_number(rest)
}

/// Reads a number of at most `max` from `start` on, and returns it with the
/// index of the first byte after its digits.
fn read_number(b: &[u8], start: usize, max: u32, Ghost(n): Ghost<nat>, Ghost(rest): Ghost<Seq<u8>>) -> (r:
    Option<(u32, usize)>)
    requires
        start <= b@.len(),
        max <= 65535,
    ensures
        r matches Some((v, j)) ==> start < j <= b@.len() && v <= max,
        n <= max && number_at(b@, start as int, n, rest) ==> (r matches Some((v, j)) && v == n && j
            == start + decimal_bytes(n).len() && b@.subrange(j as int, b@.len() as int) == rest),
{
    let ghost hit = n <= max && number_at(b@, start as int, n, rest);
    let ghost d = decimal_bytes(n);
    proof {
        lemma_decimal(n);
    }
    assert(hit ==> b@.subrange(start + d.len(), b@.len() as int) == rest) by {
        if hit {
            let s = b@.subrange(start as int, b@.len() as int);
            assert(s.subrange(d.len() as int, s.len() as int) =~= rest);
            assert(b@.subrange(start + d.len(), b@.len() as int) =~= rest);
        }
    }
    let mut i: usize = start;
    let mut val: u32 = 0;
    assert(b@.subrange(start as int, i as int) =~= Seq::<u8>::empty());
    while i < b.len() && 48 <= b[i] && b[i] <= 57
        invariant
            start <= i <= b@.len(),
            max <= 65535,
            val <= max,
            val == digits_value(b@.subrange(start as int, i as int)),
            hit ==> i - start <= d.len() && b@.subrange(start as int, i as int) == d.subrange(
                0,
                i - start,
            ),
            hit ==> b@.subrange(start as int, b@.len() as int) == d + rest,
            hit ==> n <= max && digits_value(d) == n && all_digits(d) && ends_number(rest),
            hit == (n <= max && number_at(b@, start as int, n, rest)),
            d == decimal_bytes(n),
        decreases b@.len() - i,
    {
        let ghost prev = b@.subrange(start as int, i as int);
        let ghost next = b@.subrange(start as int, i + 1);
        assert(next.drop_last() =~= prev);
        assert(next.last() == b@[i as int]);
        assert(hit ==> digits_value(next) <= n) by {
            if hit {
                let s = b@.subrange(start as int, b@.len() as int);
                assert(s[i - start] == b@[i as int]);
                if i - start == d.len() {
                    assert(s[i - start] == rest[0]);
                }
                assert(i - start < d.len());
                assert(next =~= d.subrange(0, i - start + 1));
                lemma_prefix_value(d, i - start + 1);
            }
        }
        assert(hit ==> next == d.subrange(0, i - start + 1)) by {
            if hit {
                let s = b@.subrange(start as int, b@.len() as int);
                assert(s[i - start] == b@[i as int]);
                if i - start == d.len() {
                    assert(s[i - start] == rest[0]);
                }
                assert(next =~= d.subrange(0, i - start + 1));
            }
        }
        assert(digits_value(next) == digits_value(prev) * 10 + (b@[i as int] - 48));
        val = val * 10 + (b[i] - 48) as u32;
        assert(val == digits_value(next));
        if val > max {
            return None;
        }
        i += 1;
    }
    assert(hit ==> i - start == d.len()) by {
        if hit {
            let s = b@.subrange(start as int, b@.len() as int);
            if i - start < d.len() {
                assert(s[i - start] == d[i - start]);
                assert(s[i - start] == b@[i as int]);
            }
        }
    }
    assert(hit ==> val == n) by {
        if hit {
            assert(d.subrange(0, d.len() as int) =~= d);
        }
    }
    if i == start {
        return None;
    }
    Some((val, i))
}

/// Where the bytes from `j` on are a field, its separator stands at `j` and
/// its number starts right after.
proof fn lemma_field_step(b: Seq<u8>, j: int, sep: u8, n: nat, rest: Seq<u8>)
    requires
        0 <= j <= b.len(),
        b.subrange(j, b.len() as int) == field(sep, n, rest),
    ensures
        j < b.len(),
        b[j] == sep,
        b.subrange(j + 1, b.len() as int) == decimal_bytes(n) + rest,
{
    let s = b.subrange(j, b.len() as int);
    assert(s[0] == sep);
    assert(b.subrange(j + 1, b.len() as int) =~= s.drop_first());
    assert(s.drop_first() =~= decimal_bytes(n) + rest);
}

/// Reads a separator at `j`, then a number of at most `max`.
fn read_field(b: &[u8], j: usize, sep: u8, max: u32, Ghost(n): Ghost<nat>, Ghost(rest): Ghost<Seq<u8>>) -> (r:
    Option<(u32, usize)>)
    requires
        j <= b@.len(),
        max <= 65535,
    ensures
        r matches Some((v, k)) ==> j < k <= b@.len() && v <= max,
        n <= max && ends_number(rest) && b@.subrange(j as int, b@.len() as int) == field(sep, n, rest)
            ==> (r matches Some((v, k)) && v == n && b@.subrange(k as int, b@.len() as int) == rest),
{
    let ghost hit = n <= max && ends_number(rest) && b@.subrange(j as int, b@.len() as int) == field(
        sep,
        n,
        rest,
    );
    assert(hit ==> j < b@.len() && b@[j as int] == sep && number_at(b@, j + 1, n, rest)) by {
        if hit {
            lemma_field_step(b@, j as int, sep, n, rest);
        }
    }
    if j >= b.len() || b[j] != sep {
        return None;
    }
    read_number(b, j + 1, max, Ghost(n), Ghost(rest))
}

/// Reads the canonical form of an address; `None` for any other bytes.
#[verifier::rlimit(60)]
pub fn parse_node_id_bytes(b: &[u8]) -> (r: Option<Address>)
    ensures
        r matches Some(a) ==> b@ == node_id_bytes(a),
        forall|a: Address| #[trigger] node_id_bytes(a) == b@ ==> r == Some(a),
{
    let ghost hit = exists|a: Address| #[trigger] node_id_bytes(a) == b@;
    let ghost t = choose|a: Address| #[trigger] node_id_bytes(a) == b@;
    let ghost e = Seq::<u8>::empty();
    let ghost p = field(COLON, t.port as nat, e);
    let ghost t3 = field(DOT, t.ip[3] as nat, p);
    let ghost t2 = field(DOT, t.ip[2] as nat, t3);
    let ghost t1 = field(DOT, t.ip[1] as nat, t2);
    assert(hit ==> number_at(b@, 0, t.ip[0] as nat, t1)) by {
        if hit {
            assert(b@.subrange(0, b@.len() as int) =~= b@);
        }
    }
    assert(ends_number(t2) && ends_number(t3) && ends_number(p) && ends_number(e));
    let (v0, i0) = match read_number(b, 0, 255, Ghost(t.ip[0] as nat), Ghost(t1)) {
        Some(x) => x,
        None => return None,
    };
    let (v1, i1) = match read_field(b, i0, DOT, 255, Ghost(t.ip[1] as nat), Ghost(t2)) {
        Some(x) => x,
        None => return None,
    };
    let (v2, i2) = match read_field(b, i1, DOT, 255, Ghost(t.ip[2] as nat), Ghost(t3)) {
        Some(x) => x,
        None => return None,
    };
    let (v3, i3) = match read_field(b, i2, DOT, 255, Ghost(t.ip[3] as nat), Ghost(p)) {
        Some(x) => x,
        None => return None,
    };
    let (v4, i4) = match read_field(b, i3, COLON, 65535, Ghost(t.port as nat), Ghost(e)) {
        Some(x) => x,
        None => return None,
    };
    if i4 != b.len() {
        return None;
    }
    let cand = Address { ip: [v0 as u8, v1 as u8, v2 as u8, v3 as u8], port: v4 as u16 };
    assert(hit ==> cand == t) by {
        if hit {
            assert(cand.ip[0] == t.ip[0]);
            assert(cand.ip[1] == t.ip[1]);
            assert(cand.ip[2] == t.ip[2]);
            assert(cand.ip[3] == t.ip[3]);
            assert(cand.ip =~= t.ip);
        }
    }
    let bytes = node_id_bytes_of(&cand);
    if bytes_equal(bytes.as_slice(), b) {
        proof {
            assert forall|a: Address| #[trigger] node_id_bytes(a) == b@ implies Some(cand) == Some(
                a,
            ) by {
                lemma_node_id_bytes_injective(a, cand);
            }
        }
        Some(cand)
    } else {
        None
    }
}

/// The node identifier `a.b.c.d:port` of an address.
pub fn conv_addr2id(ip: &[u8; 4], port: u16) -> (r: String)
    ensures
        r@ == node_id_of(Address { ip: *ip, port }),
{
    let a = Address { ip: *ip, port };
    let bytes = node_id_bytes_of(&a);
    proof {
        lemma_node_id_ascii(a);
    }
    match string_from_utf8(bytes) {
        Some(s) => s,
        None => {
            proof {
                assert(false);
            }
            String::new()
        },
    }
}

/// The address whose node identifier is `node_id`; an error for a string
/// that is not the node identifier of any address.
pub fn conv_id2addr(node_id: String) -> (r: Result<Address, ()>)
    ensures
        r matches Ok(a) ==> node_id@ == node_id_of(a),
        forall|a: Address| #[trigger] node_id_of(a) == node_id@ ==> r == Ok::<Address, ()>(a),
{
    let bytes = string_bytes(&node_id);
    let r = parse_node_id_bytes(bytes.as_slice());
    proof {
        assert forall|a: Address| #[trigger] node_id_of(a) == node_id@ implies node_id_bytes(a)
            == bytes@ by {
            lemma_node_id_ascii(a);
        }
        if let Some(a) = r {
            lemma_node_id_ascii(a);
            encode_utf8_decode_utf8(node_id@);
        }
    }
    match r {
        Some(a) => Ok(a),
        None => Err(()),
    }
}

impl Address {
    pub fn new(ip: [u8; 4], port: u16) -> (r: Address)
        ensures
            r == (Address { ip, port }),
    {
        Address { ip, port }
    }

    /// The node identifier `a.b.c.d:port` of this address.
    pub fn to_str(self) -> (r: String)
        ensures
            r@ == node_id_of(self),
    {
        conv_addr2id(&self.ip, self.port)
    }
}

/// Two addresses with the same node identifier are the same address.
pub proof fn lemma_node_id_injective(a: Address, b: Address)
    requires
        node_id_of(a) == node_id_of(b),
    ensures
        a == b,
{
    lemma_node_id_ascii(a);
    lemma_node_id_ascii(b);
    lemma_node_id_bytes_injective(a, b);
}

} // verus!
