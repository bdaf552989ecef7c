//! Classifying a target host: an IPv4 literal, an IPv6 literal, or a name
//! that needs a DNS lookup. The grammar of IP literals is defined here as
//! spec functions over the host's bytes, and the parsers are proved against
//! it; the DNS lookup itself is a network call made outside this crate.

use vstd::prelude::*;

verus! {

/// A resolved network address: four IPv4 octets, or eight IPv6 groups of 16
/// bits each, most significant first.
#[derive(Clone, PartialEq, Eq, Debug)]
pub enum IpAddress {
    V4(u8, u8, u8, u8),
    V6(Vec<u16>),
}

impl IpAddress {
    /// An IPv6 address carries exactly eight groups.
    pub open spec fn wf(self) -> bool {
        match self {
            IpAddress::V4(_, _, _, _) => true,
            IpAddress::V6(groups) => groups@.len() == 8,
        }
    }
}

/// What a target host turned out to be: a literal address, usable without any
/// network call, or a name that only a DNS lookup can resolve.
#[derive(Clone, PartialEq, Eq, Debug)]
pub enum HostTarget {
    Literal(IpAddress),
    Hostname,
}

/// ASCII '0'.
pub const DIGIT_ZERO: u8 = 48;

/// ASCII '9'.
pub const DIGIT_NINE: u8 = 57;

/// ASCII '.'.
pub const DOT: u8 = 46;

pub open spec fn is_dec_digit(b: u8) -> bool {
    DIGIT_ZERO <= b <= DIGIT_NINE
}

pub open spec fn dec_val(b: u8) -> int {
    b - DIGIT_ZERO
}

/// Parses a decimal octet at `i`, bounded by `end`: one to three digits, no
/// leading zero, value at most 255. Returns the value and the index just past
/// the last digit consumed.
pub open spec fn spec_parse_octet(s: Seq<u8>, i: int, end: int) -> Option<(int, int)> {
    if i < end && is_dec_digit(s[i]) {
        if s[i] == DIGIT_ZERO {
            Some((0, i + 1))
        } else {
            let v1 = dec_val(s[i]);
            if i + 1 < end && is_dec_digit(s[i + 1]) {
                let v2 = 10 * v1 + dec_val(s[i + 1]);
                if i + 2 < end && is_dec_digit(s[i + 2]) {
                    let v3 = 10 * v2 + dec_val(s[i + 2]);
                    if v3 <= 255 {
                        Some((v3, i + 3))
                    } else {
                        None
                    }
                } else {
                    Some((v2, i + 2))
                }
            } else {
                Some((v1, i + 1))
            }
        }
    } else {
        None
    }
}

/// Parses a full dotted-quad IPv4 literal spanning `i..end` exactly: four
/// octets separated by single dots, nothing before or after.
pub open spec fn spec_parse_v4_at(s: Seq<u8>, i: int, end: int) -> Option<(u8, u8, u8, u8)> {
    match spec_parse_octet(s, i, end) {
        None => None,
        Some((a, j)) => if j < end && s[j] == DOT {
            match spec_parse_octet(s, j + 1, end) {
                None => None,
                Some((b, k)) => if k < end && s[k] == DOT {
                    match spec_parse_octet(s, k + 1, end) {
                        None => None,
                        Some((c, l)) => if l < end && s[l] == DOT {
                            match spec_parse_octet(s, l + 1, end) {
                                None => None,
                                Some((d, m)) => if m == end {
                                    Some((a as u8, b as u8, c as u8, d as u8))
                                } else {
                                    None
                                },
                            }
                        } else {
                            None
                        },
                    }
                } else {
                    None
                },
            }
        } else {
            None
        },
    }
}

/// The whole host string read as an IPv4 literal.
pub open spec fn spec_parse_ipv4(s: Seq<u8>) -> Option<(u8, u8, u8, u8)> {
    spec_parse_v4_at(s, 0, s.len() as int)
}

/// Parses a decimal octet at `i`; `None` exactly when the spec grammar
/// rejects one there.
fn parse_octet(s: &Vec<u8>, i: usize, end: usize) -> (r: Option<(u8, usize)>)
    requires
        end <= s.len(),
        i <= end,
    ensures
        match r {
            Option::Some((v, j)) => {
                &&& spec_parse_octet(s@, i as int, end as int) == Some((v as int, j as int))
                &&& i < j <= end
            },
            Option::None => spec_parse_octet(s@, i as int, end as int) is None,
        },
{
    if i < end && s[i] >= DIGIT_ZERO && s[i] <= DIGIT_NINE {
        if s[i] == DIGIT_ZERO {
            Some((0, i + 1))
        } else {
            let v1 = s[i] - DIGIT_ZERO;
            if i + 1 < end && s[i + 1] >= DIGIT_ZERO && s[i + 1] <= DIGIT_NINE {
                let v2 = 10 * v1 + (s[i + 1] - DIGIT_ZERO);
                if i + 2 < end && s[i + 2] >= DIGIT_ZERO && s[i + 2] <= DIGIT_NINE {
                    let v3 = 10 * (v2 as u16) + ((s[i + 2] - DIGIT_ZERO) as u16);
                    if v3 <= 255 {
                        Some(((v3 as u8), i + 3))
                    } else {
                        None
                    }
                } else {
                    Some((v2, i + 2))
                }
            } else {
                Some((v1, i + 1))
            }
        }
    } else {
        None
    }
}

/// Parses a dotted-quad IPv4 literal spanning `i..end`; agrees with the spec
/// grammar.
fn parse_v4_at(s: &Vec<u8>, i: usize, end: usize) -> (r: Option<(u8, u8, u8, u8)>)
    requires
        end <= s.len(),
        i <= end,
    ensures
        r == spec_parse_v4_at(s@, i as int, end as int),
{
    match parse_octet(s, i, end) {
        Option::None => None,
        Option::Some((a, j)) => {
            if j < end && s[j] == DOT {
                match parse_octet(s, j + 1, end) {
                    Option::None => None,
                    Option::Some((b, k)) => {
                        if k < end && s[k] == DOT {
                            match parse_octet(s, k + 1, end) {
                                Option::None => None,
                                Option::Some((c, l)) => {
                                    if l < end && s[l] == DOT {
                                        match parse_octet(s, l + 1, end) {
                                            Option::None => None,
                                            Option::Some((d, m)) => {
                                                if m == end {
                                                    Some((a, b, c, d))
                                                } else {
                                                    None
                                                }
                                            },
                                        }
                                    } else {
                                        None
                                    }
                                },
                            }
                        } else {
                            None
                        }
                    },
                }
            } else {
                None
            }
        },
    }
}

/// The whole host string read as an IPv4 literal.
pub fn parse_ipv4(s: &Vec<u8>) -> (r: Option<(u8, u8, u8, u8)>)
    ensures
        r == spec_parse_ipv4(s@),
{
    parse_v4_at(s, 0, s.len())
}

/// ASCII ':'.
pub const COLON: u8 = 58;

/// ASCII 'A'.
pub const UPPER_A: u8 = 65;

/// ASCII 'F'.
pub const UPPER_F: u8 = 70;

/// ASCII 'a'.
pub const LOWER_A: u8 = 97;

/// ASCII 'f'.
pub const LOWER_F: u8 = 102;

pub open spec fn is_hex_digit(b: u8) -> bool {
    is_dec_digit(b) || UPPER_A <= b <= UPPER_F || LOWER_A <= b <= LOWER_F
}

pub open spec fn hex_val(b: u8) -> int {
    if is_dec_digit(b) {
        b - DIGIT_ZERO
    } else if UPPER_A <= b <= UPPER_F {
        b - UPPER_A + 10
    } else {
        b - LOWER_A + 10
    }
}

/// Parses a group of one to four hexadecimal digits at `i`, bounded by `end`.
/// Returns the group's value and the index just past the last digit consumed.
pub open spec fn spec_parse_hex_group(s: Seq<u8>, i: int, end: int) -> Option<(int, int)> {
    if i < end && is_hex_digit(s[i]) {
        let v1 = hex_val(s[i]);
        if i + 1 < end && is_hex_digit(s[i + 1]) {
            let v2 = 16 * v1 + hex_val(s[i + 1]);
            if i + 2 < end && is_hex_digit(s[i + 2]) {
                let v3 = 16 * v2 + hex_val(s[i + 2]);
                if i + 3 < end && is_hex_digit(s[i + 3]) {
                    Some((16 * v3 + hex_val(s[i + 3]), i + 4))
                } else {
                    Some((v3, i + 3))
                }
            } else {
                Some((v2, i + 2))
            }
        } else {
            Some((v1, i + 1))
        }
    } else {
        None
    }
}

/// The first position in `i..end` where two colons stand side by side.
pub open spec fn spec_find_double_colon(s: Seq<u8>, i: int, end: int) -> Option<int>
    decreases end - i,
{
    if i + 1 >= end {
        None
    } else if s[i] == COLON && s[i + 1] == COLON {
        Some(i)
    } else {
        spec_find_double_colon(s, i + 1, end)
    }
}

/// Parses a colon-separated run of groups spanning `i..end` exactly: empty
/// only when `i == end`, otherwise one hexadecimal group per separator, with
/// an embedded dotted-quad (worth two groups) allowed in the final position
/// when `allow_v4` holds. No `::` may occur inside the run.
pub open spec fn spec_parse_groups(s: Seq<u8>, i: int, end: int, allow_v4: bool) -> Option<
    Seq<u16>,
>
    decreases end - i,
{
    if i == end {
        Some(Seq::empty())
    } else {
        match (if allow_v4 {
            spec_parse_v4_at(s, i, end)
        } else {
            None
        }) {
            Some((a, b, c, d)) => Some(
                seq![
                    (256 * (a as int) + (b as int)) as u16,
                    (256 * (c as int) + (d as int)) as u16,
                ],
            ),
            None => match spec_parse_hex_group(s, i, end) {
                None => None,
                Some((v, j)) => if j == end {
                    Some(seq![v as u16])
                } else if i < j && j + 1 < end && s[j] == COLON {
                    match spec_parse_groups(s, j + 1, end, allow_v4) {
                        None => None,
                        Some(rest) => Some(seq![v as u16] + rest),
                    }
                } else {
                    None
                },
            },
        }
    }
}

/// The whole host string read as an IPv6 literal: hexadecimal groups
/// separated by colons, at most one `::` standing for the elided zero groups
/// (at least one), an embedded dotted-quad allowed at the end, eight groups
/// in all.
pub open spec fn spec_parse_ipv6(s: Seq<u8>) -> Option<Seq<u16>> {
    let n = s.len() as int;
    match spec_find_double_colon(s, 0, n) {
        None => match spec_parse_groups(s, 0, n, true) {
            None => None,
            Some(gs) => if gs.len() == 8 {
                Some(gs)
            } else {
                None
            },
        },
        Some(j) => match (spec_parse_groups(s, 0, j, false), spec_parse_groups(
            s,
            j + 2,
            n,
            true,
        )) {
            (Some(left), Some(right)) => if left.len() + right.len() <= 7 {
                Some(
                    left + Seq::new((8 - left.len() - right.len()) as nat, |k: int| 0u16) + right,
                )
            } else {
                None
            },
            _ => None,
        },
    }
}

/// Parses a hexadecimal group at `i`; `None` exactly when the spec grammar
/// rejects one there.
fn parse_hex_group(s: &Vec<u8>, i: usize, end: usize) -> (r: Option<(u16, usize)>)
    requires
        end <= s.len(),
        i <= end,
    ensures
        match r {
            Option::Some((v, j)) => {
                &&& spec_parse_hex_group(s@, i as int, end as int) == Some((v as int, j as int))
                &&& i < j <= end
            },
            Option::None => spec_parse_hex_group(s@, i as int, end as int) is None,
        },
{
    match hex_digit_val(s, i, end) {
        Option::None => None,
        Option::Some(v1) => {
            match hex_digit_val(s, i + 1, end) {
                Option::None => Some((v1 as u16, i + 1)),
                Option::Some(d2) => {
                    let v2 = 16 * (v1 as u16) + (d2 as u16);
                    match hex_digit_val(s, i + 2, end) {
                        Option::None => Some((v2, i + 2)),
                        Option::Some(d3) => {
                            let v3 = 16 * v2 + (d3 as u16);
                            match hex_digit_val(s, i + 3, end) {
                                Option::None => Some((v3, i + 3)),
                                Option::Some(d4) => Some((16 * v3 + (d4 as u16), i + 4)),
                            }
                        },
                    }
                },
            }
        },
    }
}

/// The value of the hexadecimal digit at `i`, or `None` when `i` is out of
/// bounds or the byte there is no such digit.
fn hex_digit_val(s: &Vec<u8>, i: usize, end: usize) -> (r: Option<u8>)
    requires
        end <= s.len(),
    ensures
        match r {
            Option::Some(v) => i < end && is_hex_digit(s@[i as int]) && v == hex_val(
                s@[i as int],
            ),
            Option::None => !(i < end && is_hex_digit(s@[i as int])),
        },
{
    if i < end {
        let b = s[i];
        if b >= DIGIT_ZERO && b <= DIGIT_NINE {
            Some(b - DIGIT_ZERO)
        } else if b >= UPPER_A && b <= UPPER_F {
            Some(b - UPPER_A + 10)
        } else if b >= LOWER_A && b <= LOWER_F {
            Some(b - LOWER_A + 10)
        } else {
            None
        }
    } else {
        None
    }
}

/// The first position in `i..end` where two colons stand side by side;
/// agrees with the spec grammar.
fn find_double_colon(s: &Vec<u8>, i: usize, end: usize) -> (r: Option<usize>)
    requires
        end <= s.len(),
        i <= end,
    ensures
        match r {
            Option::Some(j) => {
                &&& spec_find_double_colon(s@, i as int, end as int) == Some(j as int)
                &&& i <= j
                &&& j + 1 < end
            },
            Option::None => spec_find_double_colon(s@, i as int, end as int) is None,
        },
    decreases end - i,
{
    if end < 2 || i >= end - 1 {
        None
    } else if s[i] == COLON && s[i + 1] == COLON {
        Some(i)
    } else {
        find_double_colon(s, i + 1, end)
    }
}

/// Parses a colon-separated run of groups spanning `i..end`; agrees with the
/// spec grammar.
fn parse_groups(s: &Vec<u8>, i: usize, end: usize, allow_v4: bool) -> (r: Option<Vec<u16>>)
    requires
        end <= s.len(),
        i <= end,
    ensures
        match r {
            Option::Some(gs) => spec_parse_groups(s@, i as int, end as int, allow_v4) == Some(gs@),
            Option::None => spec_parse_groups(s@, i as int, end as int, allow_v4) is None,
        },
    decreases end - i,
{
    if i == end {
        let gs: Vec<u16> = Vec::new();
        proof {
            assert(gs@ =~= Seq::<u16>::empty());
        }
        Some(gs)
    } else {
        let v4 = if allow_v4 {
            parse_v4_at(s, i, end)
        } else {
            None
        };
        match v4 {
            Option::Some((a, b, c, d)) => {
                let mut gs: Vec<u16> = Vec::new();
                gs.push(256 * (a as u16) + (b as u16));
                gs.push(256 * (c as u16) + (d as u16));
                proof {
                    assert(gs@ =~= seq![
                        (256 * (a as int) + (b as int)) as u16,
                        (256 * (c as int) + (d as int)) as u16,
                    ]);
                }
                Some(gs)
            },
            Option::None => {
                match parse_hex_group(s, i, end) {
                    Option::None => None,
                    Option::Some((v, j)) => {
                        if j == end {
                            let mut gs: Vec<u16> = Vec::new();
                            gs.push(v);
                            proof {
                                assert(gs@ =~= seq![v]);
                            }
                            Some(gs)
                        } else if j + 1 < end && s[j] == COLON {
                            match parse_groups(s, j + 1, end, allow_v4) {
                                Option::None => None,
                                Option::Some(mut rest) => {
                                    let mut gs: Vec<u16> = Vec::new();
                                    gs.push(v);
                                    let ghost rest_view = rest@;
                                    gs.append(&mut rest);
                                    proof {
                                        assert(gs@ =~= seq![v] + rest_view);
                                    }
                                    Some(gs)
                                },
                            }
                        } else {
                            None
                        }
                    },
                }
            },
        }
    }
}

/// The whole host string read as an IPv6 literal; agrees with the spec
/// grammar, and an accepted address always carries eight groups.
pub fn parse_ipv6(s: &Vec<u8>) -> (r: Option<Vec<u16>>)
    ensures
        match r {
            Option::Some(gs) => spec_parse_ipv6(s@) == Some(gs@) && gs@.len() == 8,
            Option::None => spec_parse_ipv6(s@) is None,
        },
{
    let n = s.len();
    match find_double_colon(s, 0, n) {
        Option::None => {
            match parse_groups(s, 0, n, true) {
                Option::None => None,
                Option::Some(gs) => {
                    if gs.len() == 8 {
                        Some(gs)
                    } else {
                        None
                    }
                },
            }
        },
        Option::Some(j) => {
            match parse_groups(s, 0, j, false) {
                Option::None => None,
                Option::Some(left) => {
                    match parse_groups(s, j + 2, n, true) {
                        Option::None => None,
                        Option::Some(mut right) => {
                            if left.len() <= 7 && right.len() <= 7 - left.len() {
                                let ghost left_view = left@;
                                let ghost right_view = right@;
                                let zeros: usize = 8 - left.len() - right.len();
                                let mut gs = left;
                                let mut k: usize = 0;
                                while k < zeros
                                    invariant
                                        k <= zeros,
                                        gs@ =~= left_view + Seq::new(
                                            k as nat,
                                            |q: int| 0u16,
                                        ),
                                    decreases zeros - k,
                                {
                                    gs.push(0u16);
                                    k = k + 1;
                                    proof {
                                        assert(gs@ =~= left_view + Seq::new(
                                            k as nat,
                                            |q: int| 0u16,
                                        ));
                                    }
                                }
                                gs.append(&mut right);
                                proof {
                                    assert(gs@ =~= left_view + Seq::new(
                                        (8 - left_view.len() - right_view.len()) as nat,
                                        |q: int| 0u16,
                                    ) + right_view);
                                }
                                Some(gs)
                            } else {
                                None
                            }
                        },
                    }
                },
            }
        },
    }
}

/// Classifies a target host. A host that reads as an IPv4 literal becomes
/// that address; failing that, one that reads as an IPv6 literal becomes that
/// address; anything else is a hostname, to be resolved by a DNS lookup
/// outside this crate. A literal is therefore never handed to DNS.
pub fn classify_target(host: &Vec<u8>) -> (r: HostTarget)
    ensures
        match spec_parse_ipv4(host@) {
            Some((a, b, c, d)) => r == (HostTarget::Literal(IpAddress::V4(a, b, c, d))),
            None => match spec_parse_ipv6(host@) {
                Some(gs) => r matches HostTarget::Literal(addr) && (addr matches IpAddress::V6(
                    groups,
                ) && groups@ == gs),
                None => r == HostTarget::Hostname,
            },
        },
        r matches HostTarget::Literal(addr) ==> addr.wf(),
{
    match parse_ipv4(host) {
        Option::Some((a, b, c, d)) => HostTarget::Literal(IpAddress::V4(a, b, c, d)),
        Option::None => {
            match parse_ipv6(host) {
                Option::Some(gs) => HostTarget::Literal(IpAddress::V6(gs)),
                Option::None => HostTarget::Hostname,
            }
        },
    }
}

} // verus!
