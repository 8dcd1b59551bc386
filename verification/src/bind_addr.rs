//! The bind address a service configuration carries, in two parts: the
//! platform's acceptance test for a textual socket address (IPv4 or IPv6),
//! taken on trust, and a verified parser for the common dotted-quad form —
//! four decimal octets (0..=255) separated by dots, then `':'` and a decimal
//! port (0..=65535), every number canonical (nonempty, no leading zeros).

use vstd::prelude::*;
use vstd::string::StrSliceExecFns;

use crate::chars::{all_digits, dec_value, is_digit, lemma_dec_value_take_le};

verus! {

/// A nonempty digit string with no leading zero.
pub open spec fn canonical_number(t: Seq<char>) -> bool {
    t.len() > 0 && all_digits(t) && (t.len() > 1 ==> t[0] != '0')
}

pub open spec fn valid_octet(t: Seq<char>) -> bool {
    canonical_number(t) && dec_value(t) <= 255
}

pub open spec fn valid_port(t: Seq<char>) -> bool {
    canonical_number(t) && dec_value(t) <= 65535
}

/// The decomposition of `s` as `A.B.C.D:PORT` with dots at `i < j < k`, the
/// colon at `l`, and every chunk a valid number.
pub open spec fn addr_split(s: Seq<char>, i: int, j: int, k: int, l: int) -> bool {
    &&& 0 <= i < j < k < l < s.len()
    &&& s[i] == '.' && s[j] == '.' && s[k] == '.' && s[l] == ':'
    &&& valid_octet(s.subrange(0, i))
    &&& valid_octet(s.subrange(i + 1, j))
    &&& valid_octet(s.subrange(j + 1, k))
    &&& valid_octet(s.subrange(k + 1, l))
    &&& valid_port(s.subrange(l + 1, s.len() as int))
}

/// Whether `s` is a well-formed dotted-quad `IPv4:port` bind address.
pub open spec fn valid_dotted_quad(s: Seq<char>) -> bool {
    exists|i: int, j: int, k: int, l: int| addr_split(s, i, j, k, l)
}

/// The set of strings the platform parser accepts as a socket address. The
/// result depends on the string alone; the grammar (IPv4 and IPv6 forms with
/// a port) is the platform's.
pub uninterp spec fn is_socket_addr(s: Seq<char>) -> bool;

/// Relies on `str::parse` for `core::net::SocketAddr`: accepts exactly the
/// textual IPv4/IPv6 socket addresses of the platform grammar.
#[verifier::external_body]
pub(crate) fn is_valid_socket_addr(s: &str) -> (r: bool)
    ensures
        r == is_socket_addr(s@),
{
    s.parse::<core::net::SocketAddr>().is_ok()
}

/// The parsed form of a dotted-quad bind address.
#[derive(Debug, Clone, Copy, PartialEq, Eq, Structural)]
pub struct BindAddress {
    pub octet_a: u8,
    pub octet_b: u8,
    pub octet_c: u8,
    pub octet_d: u8,
    pub port: u16,
}

/// The octets and port of `addr` are the decimal values of the chunks of the
/// decomposition of `s` at `(i, j, k, l)`.
pub open spec fn dec_value_of_split(
    s: Seq<char>,
    i: int,
    j: int,
    k: int,
    l: int,
    addr: BindAddress,
) -> bool {
    &&& addr.octet_a == dec_value(s.subrange(0, i))
    &&& addr.octet_b == dec_value(s.subrange(i + 1, j))
    &&& addr.octet_c == dec_value(s.subrange(j + 1, k))
    &&& addr.octet_d == dec_value(s.subrange(k + 1, l))
    &&& addr.port == dec_value(s.subrange(l + 1, s.len() as int))
}

/// In a decomposition, every dot of `s` stands at one of the three split
/// points and every colon at the fourth: all other characters are digits.
proof fn lemma_split_positions(s: Seq<char>, i: int, j: int, k: int, l: int, m: int)
    requires
        addr_split(s, i, j, k, l),
        0 <= m < s.len(),
    ensures
        s[m] == '.' ==> (m == i || m == j || m == k),
        s[m] == ':' ==> m == l,
{
    if m != i && m != j && m != k && m != l {
        if m < i {
            assert(s.subrange(0, i)[m] == s[m]);
            assert(is_digit(s[m]));
        } else if m < j {
            assert(s.subrange(i + 1, j)[m - (i + 1)] == s[m]);
            assert(is_digit(s[m]));
        } else if m < k {
            assert(s.subrange(j + 1, k)[m - (j + 1)] == s[m]);
            assert(is_digit(s[m]));
        } else if m < l {
            assert(s.subrange(k + 1, l)[m - (k + 1)] == s[m]);
            assert(is_digit(s[m]));
        } else {
            assert(s.subrange(l + 1, s.len() as int)[m - (l + 1)] == s[m]);
            assert(is_digit(s[m]));
        }
    }
}

/// If the scan found the dots at `d1 < d2 < d3` and the colon at `col`, any
/// decomposition must sit exactly there.
proof fn lemma_split_is_scan(
    s: Seq<char>,
    d1: int,
    d2: int,
    d3: int,
    col: int,
    i: int,
    j: int,
    k: int,
    l: int,
)
    requires
        addr_split(s, i, j, k, l),
        0 <= d1 < d2 < d3 < s.len(),
        0 <= col < s.len(),
        forall|m: int| 0 <= m < s.len() && s[m] == '.' ==> (m == d1 || m == d2 || m == d3),
        forall|m: int| 0 <= m < s.len() && s[m] == ':' ==> m == col,
    ensures
        i == d1 && j == d2 && k == d3 && l == col,
{
    assert(i == d1 || i == d2 || i == d3);
    assert(j == d1 || j == d2 || j == d3);
    assert(k == d1 || k == d2 || k == d3);
}

/// Parse `s[from..to]` as a canonical decimal number of value at most `max`.
fn parse_canonical(s: &str, from: usize, to: usize, max: u32) -> (r: Option<u32>)
    requires
        from <= to <= s@.len(),
    ensures
        r is Some <==> (canonical_number(s@.subrange(from as int, to as int)) && dec_value(
            s@.subrange(from as int, to as int),
        ) <= max),
        r matches Some(v) ==> v == dec_value(s@.subrange(from as int, to as int)),
{
    let ghost t = s@.subrange(from as int, to as int);
    if from >= to {
        return None;
    }
    if to - from > 1 && s.get_char(from) as u32 == 48 {
        proof {
            assert(t[0] == s@[from as int]);
        }
        return None;
    }
    let mut acc: u64 = 0;
    let mut i: usize = from;
    while i < to
        invariant
            from <= i <= to,
            to <= s@.len(),
            t == s@.subrange(from as int, to as int),
            all_digits(t.take(i - from)),
            acc == dec_value(t.take(i - from)),
            acc <= max,
        decreases to - i,
    {
        let c = s.get_char(i) as u32;
        if c < 48 || c > 57 {
            proof {
                assert(t[i - from] == s@[i as int]);
                assert(!is_digit(t[i - from]));
            }
            return None;
        }
        proof {
            assert(t.take(i + 1 - from).drop_last() =~= t.take(i - from));
            assert(t.take(i + 1 - from).last() == s@[i as int]);
        }
        acc = acc * 10 + (c - 48) as u64;
        if acc > max as u64 {
            proof {
                if all_digits(t) {
                    lemma_dec_value_take_le(t, i + 1 - from);
                }
            }
            return None;
        }
        i = i + 1;
    }
    proof {
        assert(t.take(to - from) =~= t);
        assert(t[0] == s@[from as int]);
    }
    Some(acc as u32)
}

/// Parse a bind address of the form `A.B.C.D:PORT`. Returns `None` exactly
/// when `s` is not a well-formed address of that grammar.
pub fn parse_bind_addr(s: &str) -> (r: Option<BindAddress>)
    ensures
        r is Some <==> valid_dotted_quad(s@),
        r matches Some(addr) ==> (exists|i: int, j: int, k: int, l: int|
            addr_split(s@, i, j, k, l) && dec_value_of_split(s@, i, j, k, l, addr)),
{
    let n = s.unicode_len();
    let mut dcount: usize = 0;
    let mut d1: usize = 0;
    let mut d2: usize = 0;
    let mut d3: usize = 0;
    let mut ccount: usize = 0;
    let mut col: usize = 0;
    let mut i: usize = 0;
    while i < n
        invariant
            i <= n,
            n == s@.len(),
            dcount <= 3,
            ccount <= 1,
            dcount >= 1 ==> d1 < i && s@[d1 as int] == '.',
            dcount >= 2 ==> d1 < d2 < i && s@[d2 as int] == '.',
            dcount >= 3 ==> d2 < d3 < i && s@[d3 as int] == '.',
            ccount == 1 ==> col < i && s@[col as int] == ':',
            forall|m: int|
                0 <= m < i && s@[m] == '.' ==> ((dcount >= 1 && m == d1) || (dcount >= 2 && m
                    == d2) || (dcount >= 3 && m == d3)),
            forall|m: int| 0 <= m < i && s@[m] == ':' ==> (ccount == 1 && m == col),
        decreases n - i,
    {
        let c = s.get_char(i) as u32;
        if c == 46 {
            if dcount == 0 {
                d1 = i;
            } else if dcount == 1 {
                d2 = i;
            } else if dcount == 2 {
                d3 = i;
            } else {
                proof {
                    if valid_dotted_quad(s@) {
                        let (si, sj, sk, sl) = choose|si: int, sj: int, sk: int, sl: int|
                            addr_split(s@, si, sj, sk, sl);
                        lemma_split_positions(s@, si, sj, sk, sl, d1 as int);
                        lemma_split_positions(s@, si, sj, sk, sl, d2 as int);
                        lemma_split_positions(s@, si, sj, sk, sl, d3 as int);
                        lemma_split_positions(s@, si, sj, sk, sl, i as int);
                    }
                }
                return None;
            }
            dcount = dcount + 1;
        } else if c == 58 {
            if ccount == 1 {
                proof {
                    if valid_dotted_quad(s@) {
                        let (si, sj, sk, sl) = choose|si: int, sj: int, sk: int, sl: int|
                            addr_split(s@, si, sj, sk, sl);
                        lemma_split_positions(s@, si, sj, sk, sl, col as int);
                        lemma_split_positions(s@, si, sj, sk, sl, i as int);
                    }
                }
                return None;
            }
            col = i;
            ccount = 1;
        }
        i = i + 1;
    }
    if dcount != 3 || ccount != 1 {
        proof {
            if valid_dotted_quad(s@) {
                let (si, sj, sk, sl) = choose|si: int, sj: int, sk: int, sl: int|
                    addr_split(s@, si, sj, sk, sl);
                assert(s@[si] == '.' && s@[sj] == '.' && s@[sk] == '.' && s@[sl] == ':');
            }
        }
        return None;
    }
    if d3 >= col {
        proof {
            if valid_dotted_quad(s@) {
                let (si, sj, sk, sl) = choose|si: int, sj: int, sk: int, sl: int|
                    addr_split(s@, si, sj, sk, sl);
                lemma_split_is_scan(s@, d1 as int, d2 as int, d3 as int, col as int, si, sj, sk, sl);
                assert(false);
            }
        }
        return None;
    }
    proof {
        if valid_dotted_quad(s@) {
            let (si, sj, sk, sl) = choose|si: int, sj: int, sk: int, sl: int|
                addr_split(s@, si, sj, sk, sl);
            lemma_split_is_scan(s@, d1 as int, d2 as int, d3 as int, col as int, si, sj, sk, sl);
            assert(addr_split(s@, d1 as int, d2 as int, d3 as int, col as int));
        }
    }
    let oa = match parse_canonical(s, 0, d1, 255) {
        Some(v) => v,
        None => {
            return None;
        },
    };
    let ob = match parse_canonical(s, d1 + 1, d2, 255) {
        Some(v) => v,
        None => {
            return None;
        },
    };
    let oc = match parse_canonical(s, d2 + 1, d3, 255) {
        Some(v) => v,
        None => {
            return None;
        },
    };
    let od = match parse_canonical(s, d3 + 1, col, 255) {
        Some(v) => v,
        None => {
            return None;
        },
    };
    let port = match parse_canonical(s, col + 1, n, 65535) {
        Some(v) => v,
        None => {
            return None;
        },
    };
    proof {
        assert(addr_split(s@, d1 as int, d2 as int, d3 as int, col as int));
    }
    Some(
        BindAddress {
            octet_a: oa as u8,
            octet_b: ob as u8,
            octet_c: oc as u8,
            octet_d: od as u8,
            port: port as u16,
        },
    )
}

} // verus!
