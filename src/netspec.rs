//! Parsing of IPv4 network specifications: an address together with a
//! CIDR prefix length or a dotted-quad netmask.

use vstd::prelude::*;
use ipnetwork::Ipv4Network;
use crate::error::MyToolsError;

verus! {

/// An ASCII decimal digit.
pub open spec fn is_digit(c: char) -> bool {
    '0' <= c && c <= '9'
}

/// The value of a decimal digit character.
pub open spec fn digit_value(c: char) -> nat {
    (c as int - '0' as int) as nat
}

/// The value of a sequence of decimal digits, most significant first.
pub open spec fn decimal_value(s: Seq<char>) -> nat
    decreases s.len(),
{
    if s.len() == 0 {
        0
    } else {
        decimal_value(s.drop_last()) * 10 + digit_value(s.last())
    }
}

/// How many decimal digits follow one another in `s` from position `pos` on.
pub open spec fn digit_run(s: Seq<char>, pos: int) -> nat
    decreases s.len() - pos,
{
    if 0 <= pos < s.len() && is_digit(s[pos]) {
        1 + digit_run(s, pos + 1)
    } else {
        0
    }
}

/// One field of a dotted quad: one to three digits, no leading zero unless
/// the field is `0` itself, and a value of at most 255.
pub open spec fn is_octet(f: Seq<char>) -> bool {
    &&& 1 <= f.len() <= 3
    &&& (f.len() > 1 ==> f[0] != '0')
    &&& decimal_value(f) <= 255
}

/// Reads `n` octets of `s` separated by dots from position `pos` to the end,
/// shifting each into `acc`.
pub open spec fn quad_from(s: Seq<char>, pos: int, n: nat, acc: nat) -> Option<u32>
    decreases n,
{
    let k = digit_run(s, pos);
    let f = s.subrange(pos, pos + k);
    if n == 0 || !is_octet(f) {
        None
    } else if n == 1 {
        if pos + k == s.len() {
            Some((acc * 256 + decimal_value(f)) as u32)
        } else {
            None
        }
    } else if pos + k < s.len() && s[pos + k] == '.' {
        quad_from(s, pos + k + 1, (n - 1) as nat, acc * 256 + decimal_value(f))
    } else {
        None
    }
}

/// The 32-bit value of a dotted-quad IPv4 address (`a.b.c.d`, first octet
/// most significant), or `None` where `s` is not one.
pub open spec fn dotted_quad(s: Seq<char>) -> Option<u32> {
    quad_from(s, 0, 4, 0)
}

proof fn lemma_digit_run(s: Seq<char>, pos: int, j: int)
    requires
        0 <= pos <= j <= s.len(),
        forall|t: int| pos <= t < j ==> is_digit(#[trigger] s[t]),
        j == s.len() || !is_digit(s[j]),
    ensures
        digit_run(s, pos) == j - pos,
    decreases j - pos,
{
    if pos < j {
        lemma_digit_run(s, pos + 1, j);
    }
}

/// Reads the run of digits at `pos` as one octet; `Some((value, end))` where
/// it is one.
fn parse_octet(s: &str, len: usize, pos: usize) -> (r: Option<(u32, usize)>)
    requires
        len == s@.len(),
        pos <= len,
    ensures
        ({
            let e = pos + digit_run(s@, pos as int);
            match r {
                Some((v, end)) => {
                    &&& end == e
                    &&& is_octet(s@.subrange(pos as int, e))
                    &&& v as nat == decimal_value(s@.subrange(pos as int, e))
                },
                None => !is_octet(s@.subrange(pos as int, e)),
            }
        }),
{
    let mut j: usize = pos;
    let mut v: u32 = 0;
    loop
        invariant
            len == s@.len(),
            pos <= j <= len,
            forall|t: int| pos <= t < j ==> is_digit(#[trigger] s@[t]),
            j - pos <= 3 ==> v as nat == decimal_value(s@.subrange(pos as int, j as int)),
            j - pos == 0 ==> v == 0,
            j - pos == 1 ==> v < 10,
            j - pos == 2 ==> v < 100,
            v < 1000,
        ensures
            pos <= j <= len,
            forall|t: int| pos <= t < j ==> is_digit(#[trigger] s@[t]),
            j - pos <= 3 ==> v as nat == decimal_value(s@.subrange(pos as int, j as int)),
            v < 1000,
            j == len || !is_digit(s@[j as int]),
        decreases len - j,
    {
        if j >= len {
            break;
        }
        let c = s.get_char(j);
        if !('0' <= c && c <= '9') {
            break;
        }
        if j - pos < 3 {
            proof {
                assert(s@.subrange(pos as int, j + 1).drop_last() =~= s@.subrange(pos as int, j as int));
            }
            v = v * 10 + (c as u32 - '0' as u32);
        }
        j = j + 1;
    }
    proof {
        lemma_digit_run(s@, pos as int, j as int);
    }
    let k = j - pos;
    if k == 0 || k > 3 {
        return None;
    }
    if k > 1 && s.get_char(pos) == '0' {
        return None;
    }
    if v > 255 {
        return None;
    }
    Some((v, j))
}

/// Parses a dotted-quad IPv4 address into its 32-bit value.
pub fn parse_dotted_quad(s: &str) -> (r: Option<u32>)
    ensures
        r == dotted_quad(s@),
{
    let len = s.unicode_len();
    let mut pos: usize = 0;
    let mut acc: u32 = 0;
    let mut n: usize = 4;
    loop
        invariant
            len == s@.len(),
            pos <= len,
            1 <= n <= 4,
            quad_from(s@, pos as int, n as nat, acc as nat) == dotted_quad(s@),
            n == 4 ==> acc == 0,
            n == 3 ==> acc < 0x100,
            n == 2 ==> acc < 0x1_0000,
            n == 1 ==> acc < 0x100_0000,
        decreases n,
    {
        match parse_octet(s, len, pos) {
            None => {
                return None;
            },
            Some((v, e)) => {
                if n == 1 {
                    if e == len {
                        return Some(acc * 256 + v);
                    } else {
                        return None;
                    }
                }
                if e < len && s.get_char(e) == '.' {
                    acc = acc * 256 + v;
                    pos = e + 1;
                    n = n - 1;
                } else {
                    return None;
                }
            },
        }
    }
}


/// Bit `k` of `m`, counting from the most significant bit (`k == 0`).
pub open spec fn msb_bit(m: u32, k: int) -> u32 {
    (m >> ((31 - k) as u32)) & 1
}

/// The bits of `m`, read from the most significant, are a run of ones
/// followed by a run of zeros: no one comes after the first zero.
pub open spec fn ones_then_zeros(m: u32) -> bool {
    forall|a: int, b: int|
        #![trigger msb_bit(m, a), msb_bit(m, b)]
        0 <= a < b < 32 && msb_bit(m, a) == 0 ==> msb_bit(m, b) == 0
}

/// The netmask of a prefix length: `p` leading ones, then zeros.
pub open spec fn prefix_mask(p: u8) -> u32 {
    if p == 0 {
        0
    } else {
        0xffff_ffffu32 << ((32 - p) as u32)
    }
}

/// The prefix length that a contiguous netmask stands for.
pub open spec fn mask_prefix(m: u32) -> u8 {
    choose|p: u8| p <= 32 && prefix_mask(p) == m
}

/// How many one bits follow one another in `m` from bit `k` on, counting
/// from the most significant.
pub open spec fn leading_ones_from(m: u32, k: int) -> nat
    decreases 32 - k,
{
    if 0 <= k < 32 && msb_bit(m, k) == 1 {
        1 + leading_ones_from(m, k + 1)
    } else {
        0
    }
}

proof fn lemma_leading_ones(m: u32, k: int)
    requires
        0 <= k <= 32,
    ensures
        k + leading_ones_from(m, k) <= 32,
        forall|t: int| k <= t < k + leading_ones_from(m, k) ==> #[trigger] msb_bit(m, t) == 1,
        k + leading_ones_from(m, k) < 32 ==> msb_bit(m, k + leading_ones_from(m, k)) != 1,
    decreases 32 - k,
{
    if k < 32 && msb_bit(m, k) == 1 {
        lemma_leading_ones(m, k + 1);
    }
}

proof fn lemma_msb_bit_is_bit(m: u32, k: int)
    requires
        0 <= k < 32,
    ensures
        msb_bit(m, k) == 0 || msb_bit(m, k) == 1,
{
    let s = (31 - k) as u32;
    assert((m >> s) & 1u32 == 0 || (m >> s) & 1u32 == 1) by (bit_vector);
}

proof fn lemma_prefix_mask_bit(p: u8, k: int)
    requires
        p <= 32,
        0 <= k < 32,
    ensures
        msb_bit(prefix_mask(p), k) == if k < p {
            1u32
        } else {
            0u32
        },
{
    let s = (31 - k) as u32;
    let q = p as u32;
    assert(prefix_mask(p) == if q == 0 {
        0u32
    } else {
        0xffff_ffffu32 << ((32u32 - q) as u32)
    });
    assert(((if q == 0 {
        0u32
    } else {
        0xffff_ffffu32 << ((32u32 - q) as u32)
    }) >> s) & 1u32 == if s + q >= 32 {
        1u32
    } else {
        0u32
    }) by (bit_vector)
        requires
            s < 32,
            q <= 32,
    ;
}

proof fn lemma_bits_equal(x: u32, y: u32)
    requires
        forall|k: int| 0 <= k < 32 ==> #[trigger] msb_bit(x, k) == msb_bit(y, k),
    ensures
        x == y,
{
    assert(msb_bit(x, 0) == msb_bit(y, 0));
    assert(msb_bit(x, 1) == msb_bit(y, 1));
    assert(msb_bit(x, 2) == msb_bit(y, 2));
    assert(msb_bit(x, 3) == msb_bit(y, 3));
    assert(msb_bit(x, 4) == msb_bit(y, 4));
    assert(msb_bit(x, 5) == msb_bit(y, 5));
    assert(msb_bit(x, 6) == msb_bit(y, 6));
    assert(msb_bit(x, 7) == msb_bit(y, 7));
    assert(msb_bit(x, 8) == msb_bit(y, 8));
    assert(msb_bit(x, 9) == msb_bit(y, 9));
    assert(msb_bit(x, 10) == msb_bit(y, 10));
    assert(msb_bit(x, 11) == msb_bit(y, 11));
    assert(msb_bit(x, 12) == msb_bit(y, 12));
    assert(msb_bit(x, 13) == msb_bit(y, 13));
    assert(msb_bit(x, 14) == msb_bit(y, 14));
    assert(msb_bit(x, 15) == msb_bit(y, 15));
    assert(msb_bit(x, 16) == msb_bit(y, 16));
    assert(msb_bit(x, 17) == msb_bit(y, 17));
    assert(msb_bit(x, 18) == msb_bit(y, 18));
    assert(msb_bit(x, 19) == msb_bit(y, 19));
    assert(msb_bit(x, 20) == msb_bit(y, 20));
    assert(msb_bit(x, 21) == msb_bit(y, 21));
    assert(msb_bit(x, 22) == msb_bit(y, 22));
    assert(msb_bit(x, 23) == msb_bit(y, 23));
    assert(msb_bit(x, 24) == msb_bit(y, 24));
    assert(msb_bit(x, 25) == msb_bit(y, 25));
    assert(msb_bit(x, 26) == msb_bit(y, 26));
    assert(msb_bit(x, 27) == msb_bit(y, 27));
    assert(msb_bit(x, 28) == msb_bit(y, 28));
    assert(msb_bit(x, 29) == msb_bit(y, 29));
    assert(msb_bit(x, 30) == msb_bit(y, 30));
    assert(msb_bit(x, 31) == msb_bit(y, 31));
    assert(x == y) by (bit_vector)
        requires
                (x >> 0u32) & 1u32 == (y >> 0u32) & 1u32,
                (x >> 1u32) & 1u32 == (y >> 1u32) & 1u32,
                (x >> 2u32) & 1u32 == (y >> 2u32) & 1u32,
                (x >> 3u32) & 1u32 == (y >> 3u32) & 1u32,
                (x >> 4u32) & 1u32 == (y >> 4u32) & 1u32,
                (x >> 5u32) & 1u32 == (y >> 5u32) & 1u32,
                (x >> 6u32) & 1u32 == (y >> 6u32) & 1u32,
                (x >> 7u32) & 1u32 == (y >> 7u32) & 1u32,
                (x >> 8u32) & 1u32 == (y >> 8u32) & 1u32,
                (x >> 9u32) & 1u32 == (y >> 9u32) & 1u32,
                (x >> 10u32) & 1u32 == (y >> 10u32) & 1u32,
                (x >> 11u32) & 1u32 == (y >> 11u32) & 1u32,
                (x >> 12u32) & 1u32 == (y >> 12u32) & 1u32,
                (x >> 13u32) & 1u32 == (y >> 13u32) & 1u32,
                (x >> 14u32) & 1u32 == (y >> 14u32) & 1u32,
                (x >> 15u32) & 1u32 == (y >> 15u32) & 1u32,
                (x >> 16u32) & 1u32 == (y >> 16u32) & 1u32,
                (x >> 17u32) & 1u32 == (y >> 17u32) & 1u32,
                (x >> 18u32) & 1u32 == (y >> 18u32) & 1u32,
                (x >> 19u32) & 1u32 == (y >> 19u32) & 1u32,
                (x >> 20u32) & 1u32 == (y >> 20u32) & 1u32,
                (x >> 21u32) & 1u32 == (y >> 21u32) & 1u32,
                (x >> 22u32) & 1u32 == (y >> 22u32) & 1u32,
                (x >> 23u32) & 1u32 == (y >> 23u32) & 1u32,
                (x >> 24u32) & 1u32 == (y >> 24u32) & 1u32,
                (x >> 25u32) & 1u32 == (y >> 25u32) & 1u32,
                (x >> 26u32) & 1u32 == (y >> 26u32) & 1u32,
                (x >> 27u32) & 1u32 == (y >> 27u32) & 1u32,
                (x >> 28u32) & 1u32 == (y >> 28u32) & 1u32,
                (x >> 29u32) & 1u32 == (y >> 29u32) & 1u32,
                (x >> 30u32) & 1u32 == (y >> 30u32) & 1u32,
                (x >> 31u32) & 1u32 == (y >> 31u32) & 1u32,
    ;
}

/// A netmask whose bits are ones then zeros stands for a prefix length of
/// at most 32 whose mask is that netmask.
pub proof fn lemma_mask_prefix(m: u32)
    requires
        ones_then_zeros(m),
    ensures
        mask_prefix(m) <= 32,
        prefix_mask(mask_prefix(m)) == m,
{
    lemma_leading_ones(m, 0);
    let n = leading_ones_from(m, 0);
    let p = n as u8;
    assert forall|k: int| 0 <= k < 32 implies #[trigger] msb_bit(prefix_mask(p), k) == msb_bit(
        m,
        k,
    ) by {
        lemma_prefix_mask_bit(p, k);
        lemma_msb_bit_is_bit(m, k);
        if k >= n {
            lemma_msb_bit_is_bit(m, n as int);
            assert(msb_bit(m, n as int) == 0);
            if k > n {
                assert(msb_bit(m, n as int) == 0 ==> msb_bit(m, k) == 0);
            }
        }
    }
    lemma_bits_equal(prefix_mask(p), m);
    assert(p <= 32 && prefix_mask(p) == m);
}

/// Tells whether `mask` is a valid netmask: ones, then zeros.
pub fn is_netmask(mask: u32) -> (r: bool)
    ensures
        r == ones_then_zeros(mask),
{
    let mut found_zero = false;
    let mut i: u32 = 0;
    while i < 32
        invariant
            i <= 32,
            found_zero == exists|k: int| 0 <= k < i && #[trigger] msb_bit(mask, k) == 0,
            forall|a: int, b: int|
                #![trigger msb_bit(mask, a), msb_bit(mask, b)]
                0 <= a < b < i && msb_bit(mask, a) == 0 ==> msb_bit(mask, b) == 0,
        decreases 32 - i,
    {
        let sh: u32 = 31 - i;
        assert((mask & (1u32 << sh) == 0) == ((mask >> sh) & 1 == 0)) by (bit_vector)
            requires
                sh < 32,
        ;
        assert((mask >> sh) & 1 == 0 || (mask >> sh) & 1 == 1) by (bit_vector);
        assert(msb_bit(mask, i as int) == (mask >> sh) & 1);
        if mask & (1u32 << sh) == 0 {
            found_zero = true;
        } else if found_zero {
            assert(msb_bit(mask, i as int) == 1);
            return false;
        }
        i = i + 1;
    }
    true
}

proof fn lemma_prefix_mask_injective(p: u8, q: u8)
    requires
        p <= 32,
        q <= 32,
        prefix_mask(p) == prefix_mask(q),
    ensures
        p == q,
{
    assert(p <= 32 && q <= 32 && (if p == 0 { 0u32 } else { 0xffff_ffffu32 << ((32 - p) as u32) })
        == (if q == 0 { 0u32 } else { 0xffff_ffffu32 << ((32 - q) as u32) }) ==> p == q)
        by (bit_vector);
}

/// Relies on ipnetwork's `ipv4_mask_to_prefix`: it counts the leading ones
/// of the mask and fails where a one follows them after a zero.
#[verifier::external_body]
fn mask_to_prefix(mask: u32) -> (r: Option<u8>)
    ensures
        r is Some <==> ones_then_zeros(mask),
        r matches Some(p) ==> p <= 32 && prefix_mask(p) == mask,
{
    ipnetwork::ipv4_mask_to_prefix(mask.into()).ok()
}

/// Relies on ipnetwork's `Ipv4Network::new` and `Ipv4Network::mask`: the
/// mask has `prefix` leading ones.
#[verifier::external_body]
fn network_mask(prefix: u8) -> (r: u32)
    requires
        prefix <= 32,
    ensures
        r == prefix_mask(prefix),
{
    u32::from(Ipv4Network::new(0u32.into(), prefix).unwrap().mask())
}

/// Relies on ipnetwork's `Ipv4Network::new` and `Ipv4Network::network`: the
/// network address keeps the bits of the address that the mask covers.
#[verifier::external_body]
fn network_base(address: u32, prefix: u8) -> (r: u32)
    requires
        prefix <= 32,
    ensures
        r == address & prefix_mask(prefix),
{
    u32::from(Ipv4Network::new(address.into(), prefix).unwrap().network())
}

/// What std's `u8::from_str` accepts: an optional `+`, then one or more
/// digits whose value is at most 255.
pub open spec fn decimal_u8(s: Seq<char>) -> Option<u8> {
    if s.len() > 0 && s[0] == '+' {
        digits_u8(s.drop_first())
    } else {
        digits_u8(s)
    }
}

/// One or more digits whose value is at most 255.
pub open spec fn digits_u8(d: Seq<char>) -> Option<u8> {
    if d.len() > 0 && (forall|i: int| 0 <= i < d.len() ==> is_digit(#[trigger] d[i]))
        && decimal_value(d) <= 255 {
        Some(decimal_value(d) as u8)
    } else {
        None
    }
}

/// Relies on std's `str::parse::<u8>`: an optional `+` followed by decimal
/// digits, nothing else, with a value that fits in a `u8`.
#[verifier::external_body]
fn parse_u8(s: &str) -> (r: Option<u8>)
    ensures
        r == decimal_u8(s@),
{
    s.parse::<u8>().ok()
}

/// The prefix length that a suffix gives: a decimal number up to 32, or
/// else a dotted-quad netmask.
pub open spec fn suffix_prefix(s: Seq<char>) -> Option<u8> {
    match decimal_u8(s) {
        Some(c) => if c <= 32 {
            Some(c)
        } else {
            None
        },
        None => match dotted_quad(s) {
            Some(m) => if ones_then_zeros(m) {
                Some(mask_prefix(m))
            } else {
                None
            },
            None => None,
        },
    }
}

/// Reads a CIDR prefix length, or failing that a netmask, from `s`.
pub fn parse_prefix_or_mask(s: &str) -> (r: Option<u8>)
    ensures
        r == suffix_prefix(s@),
        r matches Some(p) ==> p <= 32,
{
    match parse_u8(s) {
        Some(c) => {
            if c <= 32 {
                Some(c)
            } else {
                None
            }
        },
        None => match parse_dotted_quad(s) {
            Some(m) => {
                if is_netmask(m) {
                    match mask_to_prefix(m) {
                        Some(p) => {
                            proof {
                                let q = mask_prefix(m);
                                assert(q <= 32 && prefix_mask(q) == m);
                                lemma_prefix_mask_injective(p, q);
                            }
                            Some(p)
                        },
                        None => None,
                    }
                } else {
                    None
                }
            },
            None => None,
        },
    }
}


/// A validated IPv4 network: an address and a prefix length of at most 32.
#[derive(Clone, Copy, Debug, PartialEq, Eq, Structural)]
pub struct NetworkSpec {
    address: u32,
    prefix: u8,
}

impl View for NetworkSpec {
    type V = (u32, u8);

    /// The address and the prefix length.
    closed spec fn view(&self) -> (u32, u8) {
        (self.address, self.prefix)
    }
}

impl NetworkSpec {
    /// The prefix length is never over 32.
    #[verifier::type_invariant]
    spec fn inv(&self) -> bool {
        self.prefix <= 32
    }

    /// Builds a network from an address and a prefix length; `None` where
    /// the prefix length is over 32.
    pub fn new(address: u32, prefix: u8) -> (r: Option<NetworkSpec>)
        ensures
            r is Some <==> prefix <= 32,
            r matches Some(n) ==> n@ == (address, prefix),
    {
        if prefix <= 32 {
            Some(NetworkSpec { address, prefix })
        } else {
            None
        }
    }

    /// The address as it was given.
    pub fn address(&self) -> (r: u32)
        ensures
            r == self@.0,
    {
        self.address
    }

    /// The prefix length, at most 32.
    pub fn prefix(&self) -> (r: u8)
        ensures
            r == self@.1,
            r <= 32,
    {
        proof {
            use_type_invariant(self);
        }
        self.prefix
    }

    /// The netmask: `prefix` leading ones, then zeros.
    pub fn mask(&self) -> (r: u32)
        ensures
            r == prefix_mask(self@.1),
    {
        proof {
            use_type_invariant(self);
        }
        network_mask(self.prefix)
    }

    /// The network address: the address with the bits outside the mask
    /// cleared.
    pub fn network_address(&self) -> (r: u32)
        ensures
            r == self@.0 & prefix_mask(self@.1),
    {
        proof {
            use_type_invariant(self);
        }
        network_base(self.address, self.prefix)
    }
}

/// Why a network specification was refused.
#[derive(Debug, PartialEq, Eq)]
pub enum NetworkSpecError {
    /// A single argument holds no `/`.
    MissingSeparator,
    /// The address part is not a dotted-quad IPv4 address.
    InvalidAddress(String),
    /// The part after the address is empty.
    MissingPrefixOrMask,
    /// The part after the address is neither a prefix length up to 32 nor
    /// a valid netmask.
    InvalidPrefixOrMask(String),
}

/// What parsing a network specification comes to.
pub enum NetworkOutcome {
    /// The address and the prefix length of the network.
    Parsed(u32, u8),
    MissingSeparator,
    InvalidAddress(Seq<char>),
    MissingPrefixOrMask,
    InvalidPrefixOrMask(Seq<char>),
}

/// The abstract outcome of a parse result.
pub open spec fn outcome_of(r: Result<NetworkSpec, NetworkSpecError>) -> NetworkOutcome {
    match r {
        Ok(n) => NetworkOutcome::Parsed(n@.0, n@.1),
        Err(NetworkSpecError::MissingSeparator) => NetworkOutcome::MissingSeparator,
        Err(NetworkSpecError::InvalidAddress(s)) => NetworkOutcome::InvalidAddress(s@),
        Err(NetworkSpecError::MissingPrefixOrMask) => NetworkOutcome::MissingPrefixOrMask,
        Err(NetworkSpecError::InvalidPrefixOrMask(s)) => NetworkOutcome::InvalidPrefixOrMask(s@),
    }
}

/// The outcome for an address part and a prefix-or-mask part.
pub open spec fn pair_outcome(ip: Seq<char>, suffix: Seq<char>) -> NetworkOutcome {
    match dotted_quad(ip) {
        None => NetworkOutcome::InvalidAddress(ip),
        Some(a) => if suffix.len() == 0 {
            NetworkOutcome::MissingPrefixOrMask
        } else {
            match suffix_prefix(suffix) {
                Some(p) => NetworkOutcome::Parsed(a, p),
                None => NetworkOutcome::InvalidPrefixOrMask(suffix),
            }
        },
    }
}

/// The first index of `c` in `s` at or after `from`, or -1.
pub open spec fn index_from(s: Seq<char>, c: char, from: int) -> int
    decreases s.len() - from,
{
    if from < 0 || from >= s.len() {
        -1
    } else if s[from] == c {
        from
    } else {
        index_from(s, c, from + 1)
    }
}

/// The outcome for one argument `<ip>/<cidr-or-mask>` (`arg2` is `None`),
/// or for two arguments `<ip>` and `<cidr-or-mask>`. A single argument is
/// split at its first `/`.
pub open spec fn network_outcome(arg1: Seq<char>, arg2: Option<Seq<char>>) -> NetworkOutcome {
    match arg2 {
        Some(suffix) => pair_outcome(arg1, suffix),
        None => {
            let i = index_from(arg1, '/', 0);
            if i < 0 {
                NetworkOutcome::MissingSeparator
            } else {
                pair_outcome(arg1.take(i), arg1.skip(i + 1))
            }
        },
    }
}

/// The view of an optional string argument.
pub open spec fn opt_view(a: Option<&str>) -> Option<Seq<char>> {
    match a {
        Some(s) => Some(s@),
        None => None,
    }
}

/// Finds the first `c` in `s`.
fn find_char(s: &str, c: char) -> (r: Option<usize>)
    ensures
        match r {
            Some(i) => index_from(s@, c, 0) == i && i < s@.len(),
            None => index_from(s@, c, 0) == -1,
        },
{
    let len = s.unicode_len();
    let mut i: usize = 0;
    while i < len
        invariant
            len == s@.len(),
            i <= len,
            index_from(s@, c, 0) == index_from(s@, c, i as int),
        decreases len - i,
    {
        if s.get_char(i) == c {
            return Some(i);
        }
        i = i + 1;
    }
    None
}

/// Parses an address part and a prefix-or-mask part.
fn parse_pair(ip: &str, suffix: &str) -> (r: Result<NetworkSpec, NetworkSpecError>)
    ensures
        outcome_of(r) == pair_outcome(ip@, suffix@),
{
    match parse_dotted_quad(ip) {
        None => Err(NetworkSpecError::InvalidAddress(ip.to_owned())),
        Some(a) => {
            if suffix.unicode_len() == 0 {
                return Err(NetworkSpecError::MissingPrefixOrMask);
            }
            match parse_prefix_or_mask(suffix) {
                Some(p) => Ok(NetworkSpec { address: a, prefix: p }),
                None => Err(NetworkSpecError::InvalidPrefixOrMask(suffix.to_owned())),
            }
        },
    }
}

/// Parses a network specification given as `<ip>/<cidr-or-mask>` (`arg2`
/// is `None`) or as `<ip>` and `<cidr-or-mask>`. A prefix length is tried
/// before a netmask.
pub fn parse_network(arg1: &str, arg2: Option<&str>) -> (r: Result<NetworkSpec, NetworkSpecError>)
    ensures
        outcome_of(r) == network_outcome(arg1@, opt_view(arg2)),
{
    match arg2 {
        Some(suffix) => parse_pair(arg1, suffix),
        None => match find_char(arg1, '/') {
            None => Err(NetworkSpecError::MissingSeparator),
            Some(i) => {
                let len = arg1.unicode_len();
                let ip = arg1.substring_char(0, i);
                let suffix = arg1.substring_char(i + 1, len);
                proof {
                    assert(ip@ =~= arg1@.take(i as int));
                    assert(suffix@ =~= arg1@.skip(i + 1));
                }
                parse_pair(ip, suffix)
            },
        },
    }
}

/// The human-readable detail of a refused network specification.
pub open spec fn outcome_detail(o: NetworkOutcome) -> Seq<char> {
    match o {
        NetworkOutcome::Parsed(_, _) => Seq::empty(),
        NetworkOutcome::MissingSeparator => "Separator '/' is missing"@,
        NetworkOutcome::InvalidAddress(s) => "Invalid IP address: '"@ + s + "'"@,
        NetworkOutcome::MissingPrefixOrMask => "Argument is missing a CIDR or a netmask"@,
        NetworkOutcome::InvalidPrefixOrMask(s) => "Argument '"@ + s
            + "' is neither a valid CIDR nor a netmask"@,
    }
}

impl NetworkSpecError {
    /// Turns the refusal into the error that commands report, with a detail
    /// that names the offending part.
    pub fn to_error(&self) -> (r: MyToolsError)
        ensures
            r matches MyToolsError::ParseCommandError(m) && m@ == outcome_detail(
                outcome_of(Err(*self)),
            ),
    {
        match self {
            NetworkSpecError::MissingSeparator => MyToolsError::ParseCommandError(
                String::from_str("Separator '/' is missing"),
            ),
            NetworkSpecError::InvalidAddress(s) => MyToolsError::ParseCommandError(
                String::from_str("Invalid IP address: '").concat(s.as_str()).concat("'"),
            ),
            NetworkSpecError::MissingPrefixOrMask => MyToolsError::ParseCommandError(
                String::from_str("Argument is missing a CIDR or a netmask"),
            ),
            NetworkSpecError::InvalidPrefixOrMask(s) => MyToolsError::ParseCommandError(
                String::from_str("Argument '").concat(s.as_str()).concat(
                    "' is neither a valid CIDR nor a netmask",
                ),
            ),
        }
    }
}

/// Parses a network specification for a command, reporting a refusal as a
/// `ParseCommandError`.
pub fn arg_to_ipv4network(arg1: &str, arg2: Option<&str>) -> (r: Result<NetworkSpec, MyToolsError>)
    ensures
        match network_outcome(arg1@, opt_view(arg2)) {
            NetworkOutcome::Parsed(a, p) => r matches Ok(n) && n@ == (a, p),
            o => r matches Err(MyToolsError::ParseCommandError(m)) && m@ == outcome_detail(o),
        },
{
    match parse_network(arg1, arg2) {
        Ok(n) => Ok(n),
        Err(e) => Err(e.to_error()),
    }
}


/// The one-character text of a decimal digit.
fn digit_str(d: u8) -> (r: &'static str)
    requires
        d < 10,
    ensures
        r@.len() == 1,
        is_digit(r@[0]),
        digit_value(r@[0]) == d,
{
    proof {
        reveal_strlit("0");
        reveal_strlit("1");
        reveal_strlit("2");
        reveal_strlit("3");
        reveal_strlit("4");
        reveal_strlit("5");
        reveal_strlit("6");
        reveal_strlit("7");
        reveal_strlit("8");
        reveal_strlit("9");
    }
    match d {
        0 => "0",
        1 => "1",
        2 => "2",
        3 => "3",
        4 => "4",
        5 => "5",
        6 => "6",
        7 => "7",
        8 => "8",
        _ => "9",
    }
}

proof fn lemma_decimal_single(c: char)
    ensures
        decimal_value(seq![c]) == digit_value(c),
{
    assert(seq![c].drop_last() =~= Seq::<char>::empty());
    assert(decimal_value(Seq::<char>::empty()) == 0);
    assert(seq![c].last() == c);
}

/// The decimal text of an octet, without leading zeros.
fn octet_text(v: u8) -> (r: String)
    ensures
        is_octet(r@),
        decimal_value(r@) == v,
        forall|i: int| 0 <= i < r@.len() ==> is_digit(#[trigger] r@[i]),
{
    let units = digit_str(v % 10);
    if v >= 100 {
        let h = digit_str(v / 100);
        let m = digit_str((v / 10) % 10);
        let s = String::from_str(h).concat(m).concat(units);
        proof {
            let q = s@;
            assert(q.drop_last() =~= seq![h@[0], m@[0]]);
            assert(q.drop_last().drop_last() =~= seq![h@[0]]);
            assert(seq![h@[0]].drop_last() =~= Seq::<char>::empty());
            assert(q[0] == h@[0] && q[1] == m@[0] && q[2] == units@[0]);
            assert(digit_value('0') == 0);
            lemma_decimal_single(h@[0]);
            assert(decimal_value(seq![h@[0], m@[0]]) == digit_value(h@[0]) * 10 + digit_value(
                m@[0],
            ));
            assert(decimal_value(q) == (digit_value(h@[0]) * 10 + digit_value(m@[0])) * 10
                + digit_value(units@[0]));
            assert(v as int == (v / 100) as int * 100 + ((v / 10) % 10) as int * 10 + (v
                % 10) as int);
        }
        s
    } else if v >= 10 {
        let m = digit_str(v / 10);
        let s = String::from_str(m).concat(units);
        proof {
            let q = s@;
            assert(q.drop_last() =~= seq![m@[0]]);
            assert(seq![m@[0]].drop_last() =~= Seq::<char>::empty());
            assert(q[0] == m@[0] && q[1] == units@[0]);
            assert(digit_value('0') == 0);
            lemma_decimal_single(m@[0]);
            assert(decimal_value(q) == digit_value(m@[0]) * 10 + digit_value(units@[0]));
        }
        s
    } else {
        let s = String::from_str(units);
        proof {
            assert(s@.drop_last() =~= Seq::<char>::empty());
            assert(s@ =~= seq![units@[0]]);
            lemma_decimal_single(units@[0]);
        }
        s
    }
}

/// The fields of `s` from `pos` on are an octet `f` followed by a dot or by
/// the end.
proof fn lemma_field(s: Seq<char>, pos: int, f: Seq<char>)
    requires
        0 <= pos,
        pos + f.len() <= s.len(),
        s.subrange(pos, pos + f.len()) == f,
        forall|i: int| 0 <= i < f.len() ==> is_digit(#[trigger] f[i]),
        pos + f.len() == s.len() || s[pos + f.len()] == '.',
    ensures
        digit_run(s, pos) == f.len(),
{
    assert forall|t: int| pos <= t < pos + f.len() implies is_digit(#[trigger] s[t]) by {
        assert(s[t] == f[t - pos]);
    }
    lemma_digit_run(s, pos, pos + f.len());
}

/// Formats a 32-bit IPv4 address as a dotted quad.
pub fn format_ipv4(a: u32) -> (r: String)
    ensures
        dotted_quad(r@) == Some(a),
{
    let v0 = (a >> 24u32) as u8;
    let v1 = ((a >> 16u32) & 0xff) as u8;
    let v2 = ((a >> 8u32) & 0xff) as u8;
    let v3 = (a & 0xff) as u8;
    let t0 = octet_text(v0);
    let t1 = octet_text(v1);
    let t2 = octet_text(v2);
    let t3 = octet_text(v3);
    let r = t0.concat(".").concat(t1.as_str()).concat(".").concat(t2.as_str()).concat(".").concat(
        t3.as_str(),
    );
    proof {
        reveal_strlit(".");
        let s = r@;
        let p1: int = t0@.len() as int + 1;
        let p2: int = p1 + t1@.len() + 1;
        let p3: int = p2 + t2@.len() + 1;
        assert(s.subrange(0, t0@.len() as int) =~= t0@);
        assert(s.subrange(p1, p1 + t1@.len()) =~= t1@);
        assert(s.subrange(p2, p2 + t2@.len()) =~= t2@);
        assert(s.subrange(p3, p3 + t3@.len()) =~= t3@);
        assert(s[t0@.len() as int] == '.');
        assert(s[p1 + t1@.len()] == '.');
        assert(s[p2 + t2@.len()] == '.');
        assert(s.len() == p3 + t3@.len());
        lemma_field(s, 0, t0@);
        lemma_field(s, p1, t1@);
        lemma_field(s, p2, t2@);
        lemma_field(s, p3, t3@);
        assert(a == (((a >> 24u32) * 256 + ((a >> 16u32) & 0xff)) * 256 + ((a >> 8u32) & 0xff))
            * 256 + (a & 0xff)) by (bit_vector);
        assert((a >> 24u32) < 256 && ((a >> 16u32) & 0xff) < 256 && ((a >> 8u32) & 0xff) < 256
            && (a & 0xff) < 256) by (bit_vector);
        assert(quad_from(s, p3, 1, ((v0 as nat * 256 + v1 as nat) * 256 + v2 as nat))
            == Some(a));
        assert(quad_from(s, p2, 2, (v0 as nat * 256 + v1 as nat)) == Some(a));
        assert(quad_from(s, p1, 3, v0 as nat) == Some(a));
        assert(quad_from(s, 0, 4, 0) == Some(a));
    }
    r
}


proof fn lemma_digit_run_digits(s: Seq<char>, pos: int)
    requires
        0 <= pos <= s.len(),
    ensures
        pos + digit_run(s, pos) <= s.len(),
        forall|t: int| pos <= t < pos + digit_run(s, pos) ==> is_digit(#[trigger] s[t]),
    decreases s.len() - pos,
{
    if pos < s.len() && is_digit(s[pos]) {
        lemma_digit_run_digits(s, pos + 1);
    }
}

/// What a dotted quad is made of, from `pos` on: digits and dots only,
/// starting with a digit, with a dot somewhere when more than one octet
/// is read.
proof fn lemma_quad_chars(s: Seq<char>, pos: int, n: nat, acc: nat)
    requires
        0 <= pos <= s.len(),
        quad_from(s, pos, n, acc) is Some,
    ensures
        forall|i: int| pos <= i < s.len() ==> is_digit(#[trigger] s[i]) || s[i] == '.',
        pos < s.len() && is_digit(s[pos]),
        n >= 2 ==> exists|i: int| pos <= i < s.len() && #[trigger] s[i] == '.',
    decreases n,
{
    let k = digit_run(s, pos);
    lemma_digit_run_digits(s, pos);
    assert(is_digit(s[pos]));
    if n >= 2 {
        lemma_quad_chars(s, pos + k + 1, (n - 1) as nat, acc * 256 + decimal_value(
            s.subrange(pos, pos + k),
        ));
        assert(s[pos + k] == '.');
    }
}

/// Where `s[from..k]` holds no `c` and `s[k]` is `c`, the first `c` from
/// `from` on is at `k`; where `s[from..]` holds none, there is none.
proof fn lemma_index_from(s: Seq<char>, c: char, from: int, k: int)
    requires
        0 <= from <= k <= s.len(),
        forall|i: int| from <= i < k ==> s[i] != c,
        k == s.len() || s[k] == c,
    ensures
        index_from(s, c, from) == if k == s.len() {
            -1
        } else {
            k
        },
    decreases k - from,
{
    if from < k {
        lemma_index_from(s, c, from + 1, k);
    }
}

/// Where `ip` holds no `/`, `ip + "/" + suffix` splits back into `ip` and
/// `suffix`.
proof fn lemma_split_joined(ip: Seq<char>, suffix: Seq<char>)
    requires
        forall|i: int| 0 <= i < ip.len() ==> ip[i] != '/',
    ensures
        ({
            let s = ip + seq!['/'] + suffix;
            &&& index_from(s, '/', 0) == ip.len()
            &&& s.take(ip.len() as int) == ip
            &&& s.skip(ip.len() as int + 1) == suffix
        }),
{
    let s = ip + seq!['/'] + suffix;
    assert forall|i: int| 0 <= i < ip.len() implies s[i] != '/' by {
        assert(s[i] == ip[i]);
    }
    lemma_index_from(s, '/', 0, ip.len() as int);
    assert(s.take(ip.len() as int) =~= ip);
    assert(s.skip(ip.len() as int + 1) =~= suffix);
}

/// A valid IPv4 address holds no `/`.
proof fn lemma_address_has_no_slash(a: Seq<char>)
    requires
        dotted_quad(a) is Some,
    ensures
        forall|i: int| 0 <= i < a.len() ==> a[i] != '/',
{
    lemma_quad_chars(a, 0, 4, 0);
    assert forall|i: int| 0 <= i < a.len() implies a[i] != '/' by {
        assert(is_digit(a[i]) || a[i] == '.');
    }
}

/// A run of digits is never a dotted quad.
proof fn lemma_digits_not_quad(t: Seq<char>)
    requires
        forall|i: int| 0 <= i < t.len() ==> is_digit(#[trigger] t[i]),
    ensures
        dotted_quad(t) is None,
{
    if dotted_quad(t) is Some {
        lemma_quad_chars(t, 0, 4, 0);
        let i = choose|i: int| 0 <= i < t.len() && #[trigger] t[i] == '.';
        assert(is_digit(t[i]));
    }
}

/// A dotted quad is never a decimal number.
proof fn lemma_quad_not_decimal(s: Seq<char>)
    requires
        dotted_quad(s) is Some,
    ensures
        decimal_u8(s) is None,
{
    lemma_quad_chars(s, 0, 4, 0);
    let i = choose|i: int| 0 <= i < s.len() && #[trigger] s[i] == '.';
    assert(s[0] != '+');
    assert(!is_digit(s[i]));

}

/// A decimal numeral `t` (digits only) reads as its value when that value
/// fits in a `u8`.
proof fn lemma_numeral_u8(t: Seq<char>)
    requires
        t.len() > 0,
        forall|i: int| 0 <= i < t.len() ==> is_digit(#[trigger] t[i]),
    ensures
        decimal_value(t) <= 255 ==> decimal_u8(t) == Some(decimal_value(t) as u8),
        decimal_value(t) > 255 ==> decimal_u8(t) is None,
{
    assert(t[0] != '+');
}

/// For every valid IPv4 address `a` and every decimal numeral `t` whose
/// value `c` is at most 32, `a/t` parses to the network of `a` with prefix
/// length exactly `c`.
pub proof fn lemma_cidr_accepted(a: Seq<char>, t: Seq<char>)
    requires
        dotted_quad(a) is Some,
        t.len() > 0,
        forall|i: int| 0 <= i < t.len() ==> is_digit(#[trigger] t[i]),
        decimal_value(t) <= 32,
    ensures
        network_outcome(a + seq!['/'] + t, None) == NetworkOutcome::Parsed(
            dotted_quad(a)->0,
            decimal_value(t) as u8,
        ),
{
    lemma_address_has_no_slash(a);
    lemma_split_joined(a, t);
    lemma_numeral_u8(t);
}

/// For every valid IPv4 address `a` and every decimal numeral `t` whose
/// value is over 32, `a/t` is refused as an invalid prefix or mask.
pub proof fn lemma_cidr_over_32_refused(a: Seq<char>, t: Seq<char>)
    requires
        dotted_quad(a) is Some,
        t.len() > 0,
        forall|i: int| 0 <= i < t.len() ==> is_digit(#[trigger] t[i]),
        decimal_value(t) > 32,
    ensures
        network_outcome(a + seq!['/'] + t, None) == NetworkOutcome::InvalidPrefixOrMask(t),
{
    lemma_address_has_no_slash(a);
    lemma_split_joined(a, t);
    lemma_numeral_u8(t);
    lemma_digits_not_quad(t);
}

/// A dotted quad `m` given after a valid address is accepted as a netmask
/// exactly when its bits are ones then zeros, with no one after the first
/// zero.
pub proof fn lemma_mask_accepted_iff_contiguous(a: Seq<char>, m: Seq<char>)
    requires
        dotted_quad(a) is Some,
        dotted_quad(m) is Some,
    ensures
        pair_outcome(a, m) is Parsed <==> ones_then_zeros(dotted_quad(m)->0),
        !ones_then_zeros(dotted_quad(m)->0) ==> pair_outcome(a, m)
            == NetworkOutcome::InvalidPrefixOrMask(m),
        ones_then_zeros(dotted_quad(m)->0) ==> pair_outcome(a, m) == NetworkOutcome::Parsed(
            dotted_quad(a)->0,
            mask_prefix(dotted_quad(m)->0),
        ) && prefix_mask(mask_prefix(dotted_quad(m)->0)) == dotted_quad(m)->0,
{
    lemma_quad_not_decimal(m);
    lemma_quad_chars(m, 0, 4, 0);
    if ones_then_zeros(dotted_quad(m)->0) {
        lemma_mask_prefix(dotted_quad(m)->0);
    }
}

/// The one-argument form `ip/suffix` and the two-argument form `ip`,
/// `suffix` give the same outcome, whenever `ip` holds no `/` (as no valid
/// address does).
pub proof fn lemma_forms_agree(ip: Seq<char>, suffix: Seq<char>)
    requires
        forall|i: int| 0 <= i < ip.len() ==> ip[i] != '/',
    ensures
        network_outcome(ip + seq!['/'] + suffix, None) == network_outcome(ip, Some(suffix)),
{
    lemma_split_joined(ip, suffix);
}

/// A single argument without `/` is refused for its missing separator; a
/// valid address followed by `/` and nothing else is refused for its
/// missing prefix or mask.
pub proof fn lemma_missing_parts(arg: Seq<char>, a: Seq<char>)
    ensures
        (forall|i: int| 0 <= i < arg.len() ==> arg[i] != '/') ==> network_outcome(arg, None)
            == NetworkOutcome::MissingSeparator,
        dotted_quad(a) is Some ==> network_outcome(a + seq!['/'], None)
            == NetworkOutcome::MissingPrefixOrMask,
{
    if forall|i: int| 0 <= i < arg.len() ==> arg[i] != '/' {
        lemma_index_from(arg, '/', 0, arg.len() as int);
    }
    if dotted_quad(a) is Some {
        lemma_address_has_no_slash(a);
        lemma_split_joined(a, Seq::<char>::empty());
        assert(a + seq!['/'] + Seq::<char>::empty() =~= a + seq!['/']);
    }
}

} // verus!
