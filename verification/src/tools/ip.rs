//! IP address literals: their textual grammar (dotted decimal for IPv4,
//! colon-separated hex groups with at most one `::` and an optional trailing
//! dotted-decimal part for IPv6) and the address ranges a fetch may not reach.
use vstd::prelude::*;
use crate::chunks::char_views;

verus! {

/// An IP address by its octets, most significant first.
#[derive(Clone, Copy, Debug, PartialEq, Eq)]
pub enum IpAddress {
    V4([u8; 4]),
    V6([u8; 16]),
}

/// The pieces of `s` between occurrences of `c` (one empty piece for an
/// empty `s`), as `str::split` gives them.
pub open spec fn split_on(s: Seq<char>, c: char) -> Seq<Seq<char>>
    decreases s.len(),
{
    if s.len() == 0 {
        seq![Seq::empty()]
    } else {
        let p = split_on(s.drop_last(), c);
        if s.last() == c {
            p.push(Seq::empty())
        } else {
            p.update(p.len() - 1, p.last().push(s.last()))
        }
    }
}

/// Whether `c` is an ASCII decimal digit.
pub open spec fn is_dec_digit(c: char) -> bool {
    48 <= (c as u32) <= 57
}

/// The value of the decimal digits `s`.
pub open spec fn dec_value(s: Seq<char>) -> nat
    decreases s.len(),
{
    if s.len() == 0 {
        0
    } else {
        dec_value(s.drop_last()) * 10 + ((s.last() as u32) - 48) as nat
    }
}

/// Whether `s` is an octet of a dotted-decimal address: one to three digits,
/// no leading zero, at most 255.
pub open spec fn is_dec_octet(s: Seq<char>) -> bool {
    &&& 1 <= s.len() <= 3
    &&& forall|i: int| 0 <= i < s.len() ==> is_dec_digit(#[trigger] s[i])
    &&& (s.len() == 1 || s[0] != '0')
    &&& dec_value(s) <= 255
}

/// Whether `c` is an ASCII hex digit.
pub open spec fn is_hex_digit(c: char) -> bool {
    let u = c as u32;
    (48 <= u <= 57) || (97 <= u <= 102) || (65 <= u <= 70)
}

/// The value of the hex digit `c`.
pub open spec fn hex_digit_value(c: char) -> nat {
    let u = c as u32;
    if 48 <= u <= 57 {
        (u - 48) as nat
    } else if 97 <= u <= 102 {
        (u - 87) as nat
    } else {
        (u - 55) as nat
    }
}

/// The value of the hex digits `s`.
pub open spec fn hex_value(s: Seq<char>) -> nat
    decreases s.len(),
{
    if s.len() == 0 {
        0
    } else {
        hex_value(s.drop_last()) * 16 + hex_digit_value(s.last())
    }
}

/// Whether `s` is a group of an IPv6 address: one to four hex digits.
pub open spec fn is_hex_group(s: Seq<char>) -> bool {
    &&& 1 <= s.len() <= 4
    &&& forall|i: int| 0 <= i < s.len() ==> is_hex_digit(#[trigger] s[i])
}

/// The octets of the dotted-decimal address `s`.
pub open spec fn ipv4_octets(s: Seq<char>) -> Option<Seq<u8>> {
    let p = split_on(s, '.');
    if p.len() == 4 && is_dec_octet(p[0]) && is_dec_octet(p[1]) && is_dec_octet(p[2])
        && is_dec_octet(p[3]) {
        Some(
            seq![
                dec_value(p[0]) as u8,
                dec_value(p[1]) as u8,
                dec_value(p[2]) as u8,
                dec_value(p[3]) as u8,
            ],
        )
    } else {
        None
    }
}

/// The hex groups `ps` as 16-bit values, if each is a group.
pub open spec fn hex_groups(ps: Seq<Seq<char>>) -> Option<Seq<u16>>
    decreases ps.len(),
{
    if ps.len() == 0 {
        Some(Seq::empty())
    } else {
        match hex_groups(ps.drop_last()) {
            None => None,
            Some(g) => if is_hex_group(ps.last()) {
                Some(g.push(hex_value(ps.last()) as u16))
            } else {
                None
            },
        }
    }
}

/// The 16-bit groups written by the pieces `ps` of one side of an IPv6
/// address; the last piece may be a dotted-decimal address (two groups)
/// when `v4_last` allows it.
pub open spec fn side_groups(ps: Seq<Seq<char>>, v4_last: bool) -> Option<Seq<u16>> {
    if ps.len() == 0 {
        Some(Seq::empty())
    } else {
        match ipv4_octets(ps.last()) {
            Some(o) => if v4_last {
                match hex_groups(ps.drop_last()) {
                    Some(g) => Some(
                        g + seq![
                            (o[0] as int * 256 + o[1] as int) as u16,
                            (o[2] as int * 256 + o[3] as int) as u16,
                        ],
                    ),
                    None => None,
                }
            } else {
                None
            },
            None => hex_groups(ps),
        }
    }
}

/// The groups of the text `s` on one side of `::` (none for empty text).
pub open spec fn side(s: Seq<char>, v4_last: bool) -> Option<Seq<u16>> {
    if s.len() == 0 {
        Some(Seq::empty())
    } else {
        side_groups(split_on(s, ':'), v4_last)
    }
}

/// Whether `::` starts at position `i` of `s`.
pub open spec fn double_colon_at(s: Seq<char>, i: int) -> bool {
    0 <= i && i + 1 < s.len() && s[i] == ':' && s[i + 1] == ':'
}

/// The first position of `::` in `s`, if any.
pub open spec fn first_double_colon(s: Seq<char>) -> Option<int> {
    if exists|i: int| #[trigger] double_colon_at(s, i) {
        Some(
            choose|i: int|
                #[trigger] double_colon_at(s, i) && forall|j: int| 0 <= j < i ==> !double_colon_at(s, j),
        )
    } else {
        None
    }
}

/// The eight groups of the IPv6 address `s`.
pub open spec fn ipv6_groups(s: Seq<char>) -> Option<Seq<u16>> {
    match first_double_colon(s) {
        Some(i) => match (side(s.take(i), false), side(s.skip(i + 2), true)) {
            (Some(h), Some(t)) => if h.len() + t.len() <= 7 {
                Some(h + Seq::new((8 - h.len() - t.len()) as nat, |k: int| 0u16) + t)
            } else {
                None
            },
            _ => None,
        },
        None => match side(s, true) {
            Some(g) => if g.len() == 8 {
                Some(g)
            } else {
                None
            },
            None => None,
        },
    }
}

/// The high octet of a group.
pub open spec fn hi(x: u16) -> u8 {
    (x / 256) as u8
}

/// The low octet of a group.
pub open spec fn lo(x: u16) -> u8 {
    (x % 256) as u8
}

/// The sixteen octets of the eight groups `g`, most significant first.
pub open spec fn group_octets(g: Seq<u16>) -> Seq<u8> {
    seq![
        hi(g[0]), lo(g[0]), hi(g[1]), lo(g[1]), hi(g[2]), lo(g[2]), hi(g[3]), lo(g[3]),
        hi(g[4]), lo(g[4]), hi(g[5]), lo(g[5]), hi(g[6]), lo(g[6]), hi(g[7]), lo(g[7]),
    ]
}

/// The octets of the address written by `s` (four for dotted decimal,
/// else sixteen for IPv6 text).
pub open spec fn ip_literal(s: Seq<char>) -> Option<Seq<u8>> {
    match ipv4_octets(s) {
        Some(o) => Some(o),
        None => match ipv6_groups(s) {
            Some(g) => Some(group_octets(g)),
            None => None,
        },
    }
}

impl View for IpAddress {
    type V = Seq<u8>;

    /// The octets; four of them for IPv4, sixteen for IPv6.
    open spec fn view(&self) -> Seq<u8> {
        match self {
            IpAddress::V4(a) => a@,
            IpAddress::V6(a) => a@,
        }
    }
}

/// The pieces of `s` between occurrences of `c`.
pub fn split_chars(s: &[char], c: char) -> (out: Vec<Vec<char>>)
    ensures
        char_views(out@) == split_on(s@, c),
{
    let mut out: Vec<Vec<char>> = Vec::new();
    let mut cur: Vec<char> = Vec::new();
    let mut i: usize = 0;
    while i < s.len()
        invariant
            i <= s@.len(),
            split_on(s@.take(i as int), c) == char_views(out@).push(cur@),
        decreases s@.len() - i,
    {
        let ghost pre = s@.take(i as int);
        let ghost now = s@.take(i + 1 as int);
        assert(now.drop_last() =~= pre);
        let ghost old_out = out@;
        let ghost old_cur = cur@;
        if s[i] == c {
            let mut done: Vec<char> = Vec::new();
            std::mem::swap(&mut done, &mut cur);
            out.push(done);
            assert(char_views(out@) =~= char_views(old_out).push(old_cur));
            assert(char_views(out@).push(cur@) =~= split_on(now, c));
        } else {
            cur.push(s[i]);
            let ghost p = split_on(pre, c);
            assert(p.update(p.len() - 1, p.last().push(s@[i as int])) =~= char_views(out@).push(cur@));
        }
        i = i + 1;
    }
    assert(s@.take(i as int) =~= s@);
    let ghost old_out = out@;
    let ghost old_cur = cur@;
    out.push(cur);
    assert(char_views(out@) =~= char_views(old_out).push(old_cur));
    out
}

/// The value of a dotted-decimal octet, if `s` is one.
fn dec_octet(s: &[char]) -> (r: Option<u8>)
    ensures
        match r {
            Some(v) => is_dec_octet(s@) && v == dec_value(s@),
            None => !is_dec_octet(s@),
        },
{
    if s.len() < 1 || s.len() > 3 {
        return None;
    }
    if s.len() > 1 && s[0] == '0' {
        return None;
    }
    let mut v: u32 = 0;
    let mut i: usize = 0;
    while i < s.len()
        invariant
            i <= s@.len() <= 3,
            v == dec_value(s@.take(i as int)),
            forall|j: int| 0 <= j < i ==> is_dec_digit(#[trigger] s@[j]),
            i == 0 ==> v == 0,
            i <= 1 ==> v < 10,
            i <= 2 ==> v < 100,
            v < 1000,
        decreases s@.len() - i,
    {
        let d = s[i] as u32;
        if d < 48 || d > 57 {
            assert(!is_dec_digit(s@[i as int]));
            return None;
        }
        assert(s@.take(i + 1 as int).drop_last() =~= s@.take(i as int));
        v = v * 10 + (d - 48);
        i = i + 1;
    }
    assert(s@.take(i as int) =~= s@);
    if v > 255 {
        return None;
    }
    Some(v as u8)
}

/// The value of an IPv6 group, if `s` is one.
fn hex_group(s: &[char]) -> (r: Option<u16>)
    ensures
        match r {
            Some(v) => is_hex_group(s@) && v == hex_value(s@),
            None => !is_hex_group(s@),
        },
{
    if s.len() < 1 || s.len() > 4 {
        return None;
    }
    let mut v: u32 = 0;
    let mut i: usize = 0;
    while i < s.len()
        invariant
            i <= s@.len() <= 4,
            v == hex_value(s@.take(i as int)),
            forall|j: int| 0 <= j < i ==> is_hex_digit(#[trigger] s@[j]),
            i == 0 ==> v == 0,
            i <= 1 ==> v < 16,
            i <= 2 ==> v < 256,
            i <= 3 ==> v < 4096,
            v < 65536,
        decreases s@.len() - i,
    {
        let c = s[i] as u32;
        let d: u32 = if 48 <= c && c <= 57 {
            c - 48
        } else if 97 <= c && c <= 102 {
            c - 87
        } else if 65 <= c && c <= 70 {
            c - 55
        } else {
            assert(!is_hex_digit(s@[i as int]));
            return None;
        };
        assert(s@.take(i + 1 as int).drop_last() =~= s@.take(i as int));
        assert(d == hex_digit_value(s@[i as int]));
        v = v * 16 + d;
        i = i + 1;
    }
    assert(s@.take(i as int) =~= s@);
    Some(v as u16)
}

/// The octets of the dotted-decimal address `s`, if it is one.
pub fn parse_ipv4(s: &[char]) -> (r: Option<[u8; 4]>)
    ensures
        match r {
            Some(a) => ipv4_octets(s@) == Some(a@),
            None => ipv4_octets(s@) is None,
        },
{
    let p = split_chars(s, '.');
    proof {
        assert(p@.len() == split_on(s@, '.').len());
    }
    if p.len() != 4 {
        return None;
    }
    assert(p@[0]@ == split_on(s@, '.')[0]);
    assert(p@[1]@ == split_on(s@, '.')[1]);
    assert(p@[2]@ == split_on(s@, '.')[2]);
    assert(p@[3]@ == split_on(s@, '.')[3]);
    let a = match dec_octet(p[0].as_slice()) {
        Some(v) => v,
        None => return None,
    };
    let b = match dec_octet(p[1].as_slice()) {
        Some(v) => v,
        None => return None,
    };
    let c = match dec_octet(p[2].as_slice()) {
        Some(v) => v,
        None => return None,
    };
    let d = match dec_octet(p[3].as_slice()) {
        Some(v) => v,
        None => return None,
    };
    let r = [a, b, c, d];
    assert(r@ =~= seq![a, b, c, d]);
    Some(r)
}

proof fn lemma_hex_groups_none_extends(ps: Seq<Seq<char>>, n: int)
    requires
        0 <= n <= ps.len(),
        hex_groups(ps.take(n)) is None,
    ensures
        hex_groups(ps) is None,
    decreases ps.len() - n,
{
    if n < ps.len() {
        assert(ps.take(n + 1).drop_last() =~= ps.take(n));
        lemma_hex_groups_none_extends(ps, n + 1);
    } else {
        assert(ps.take(n) =~= ps);
    }
}

/// The groups of the first `n` pieces of `ps`, if each is a group.
fn hex_groups_prefix(ps: &Vec<Vec<char>>, n: usize) -> (r: Option<Vec<u16>>)
    requires
        n <= ps@.len(),
    ensures
        match r {
            Some(g) => hex_groups(char_views(ps@).take(n as int)) == Some(g@),
            None => hex_groups(char_views(ps@).take(n as int)) is None,
        },
{
    let ghost cv = char_views(ps@);
    let mut out: Vec<u16> = Vec::new();
    let mut i: usize = 0;
    while i < n
        invariant
            i <= n <= ps@.len(),
            cv == char_views(ps@),
            hex_groups(cv.take(i as int)) == Some(out@),
        decreases n - i,
    {
        assert(cv.take(i + 1 as int).drop_last() =~= cv.take(i as int));
        assert(cv.take(i + 1 as int).last() == ps@[i as int]@);
        match hex_group(ps[i].as_slice()) {
            Some(v) => {
                out.push(v);
            },
            None => {
                proof {
                    assert(cv.take(n as int).take(i + 1 as int) =~= cv.take(i + 1 as int));
                    lemma_hex_groups_none_extends(cv.take(n as int), i + 1 as int);
                }
                return None;
            },
        }
        i = i + 1;
    }
    Some(out)
}

/// The groups written by the pieces `ps` of one side of an address.
fn side_groups_exec(ps: &Vec<Vec<char>>, v4_last: bool) -> (r: Option<Vec<u16>>)
    ensures
        match r {
            Some(g) => side_groups(char_views(ps@), v4_last) == Some(g@),
            None => side_groups(char_views(ps@), v4_last) is None,
        },
{
    let ghost cv = char_views(ps@);
    let n = ps.len();
    if n == 0 {
        assert(cv.len() == 0);
        let e: Vec<u16> = Vec::new();
        assert(e@ =~= Seq::<u16>::empty());
        return Some(e);
    }
    assert(cv.drop_last() =~= cv.take(n - 1 as int));
    assert(cv.last() == ps@[n - 1]@);
    assert(cv.take(n as int) =~= cv);
    match parse_ipv4(ps[n - 1].as_slice()) {
        Some(o) => {
            if !v4_last {
                return None;
            }
            match hex_groups_prefix(ps, n - 1) {
                Some(g) => {
                    let ghost g0 = g@;
                    let mut g = g;
                    let x: u16 = o[0] as u16 * 256 + o[1] as u16;
                    let y: u16 = o[2] as u16 * 256 + o[3] as u16;
                    g.push(x);
                    g.push(y);
                    assert(g@ =~= g0 + seq![
                        (o@[0] as int * 256 + o@[1] as int) as u16,
                        (o@[2] as int * 256 + o@[3] as int) as u16,
                    ]);
                    Some(g)
                },
                None => None,
            }
        },
        None => hex_groups_prefix(ps, n),
    }
}

/// The groups written by the text `s` on one side of `::`.
fn side_exec(s: &[char], v4_last: bool) -> (r: Option<Vec<u16>>)
    ensures
        match r {
            Some(g) => side(s@, v4_last) == Some(g@),
            None => side(s@, v4_last) is None,
        },
{
    if s.len() == 0 {
        let e: Vec<u16> = Vec::new();
        assert(e@ =~= Seq::<u16>::empty());
        return Some(e);
    }
    let ps = split_chars(s, ':');
    side_groups_exec(&ps, v4_last)
}

/// The first position of `::` in `s`.
fn find_double_colon(s: &[char]) -> (r: Option<usize>)
    ensures
        match r {
            Some(i) => first_double_colon(s@) == Some(i as int) && i + 1 < s@.len(),
            None => first_double_colon(s@) is None,
        },
{
    let mut i: usize = 0;
    while i < s.len()
        invariant
            i <= s@.len(),
            forall|j: int| 0 <= j < i ==> !#[trigger] double_colon_at(s@, j),
        decreases s@.len() - i,
    {
        if i + 1 < s.len() && s[i] == ':' && s[i + 1] == ':' {
            proof {
                let k = i as int;
                assert(double_colon_at(s@, k));
                assert(double_colon_at(s@, k) && forall|j: int| 0 <= j < k ==> !double_colon_at(s@, j));
                let c = choose|c: int|
                    #[trigger] double_colon_at(s@, c) && forall|j: int| 0 <= j < c ==> !double_colon_at(s@, j);
                if c < k {
                    assert(!double_colon_at(s@, c));
                } else if c > k {
                    assert(!double_colon_at(s@, k));
                }
            }
            return Some(i);
        }
        i = i + 1;
    }
    assert forall|j: int| !#[trigger] double_colon_at(s@, j) by {
        if 0 <= j < i {
        }
    }
    None
}

/// The head groups, the zero groups that `::` stands for, and the tail
/// groups, eight in all.
fn fill_zero_groups(h: Vec<u16>, t: &Vec<u16>) -> (g: Vec<u16>)
    requires
        h@.len() + t@.len() <= 7,
    ensures
        g@ == h@ + Seq::new((8 - h@.len() - t@.len()) as nat, |q: int| 0u16) + t@,
{
    let z = 8 - h.len() - t.len();
    let mut g = h;
    let ghost hv = g@;
    let mut k: usize = 0;
    while k < z
        invariant
            k <= z,
            g@ == hv + Seq::new(k as nat, |q: int| 0u16),
        decreases z - k,
    {
        g.push(0);
        k = k + 1;
        assert(g@ =~= hv + Seq::new(k as nat, |q: int| 0u16));
    }
    let mut j: usize = 0;
    let ghost gz = g@;
    while j < t.len()
        invariant
            j <= t@.len(),
            g@ == gz + t@.take(j as int),
        decreases t@.len() - j,
    {
        g.push(t[j]);
        j = j + 1;
        assert(g@ =~= gz + t@.take(j as int));
    }
    assert(t@.take(j as int) =~= t@);
    g
}

/// The sixteen octets of eight groups.
fn octets_of_groups(g: &Vec<u16>) -> (a: [u8; 16])
    requires
        g@.len() == 8,
    ensures
        a@ == group_octets(g@),
{
    let a: [u8; 16] = [
        (g[0] / 256) as u8, (g[0] % 256) as u8, (g[1] / 256) as u8, (g[1] % 256) as u8,
        (g[2] / 256) as u8, (g[2] % 256) as u8, (g[3] / 256) as u8, (g[3] % 256) as u8,
        (g[4] / 256) as u8, (g[4] % 256) as u8, (g[5] / 256) as u8, (g[5] % 256) as u8,
        (g[6] / 256) as u8, (g[6] % 256) as u8, (g[7] / 256) as u8, (g[7] % 256) as u8,
    ];
    assert(a@ =~= group_octets(g@));
    a
}

/// The eight groups of the IPv6 address `s`, if it is one.
#[verifier::spinoff_prover]
#[verifier::rlimit(40)]
fn ipv6_groups_exec(s: &[char]) -> (r: Option<Vec<u16>>)
    ensures
        match r {
            Some(g) => ipv6_groups(s@) == Some(g@),
            None => ipv6_groups(s@) is None,
        },
{
    match find_double_colon(s) {
        Some(i) => {
            assert(i + 1 < s@.len());
            assert(i + 2 <= s.len());
            let head = crate::text::sub_chars(s, 0, i);
            let tail = crate::text::sub_chars(s, i + 2, s.len());
            assert(head@ =~= s@.take(i as int));
            assert(tail@ =~= s@.skip(i + 2));
            let h = match side_exec(head.as_slice(), false) {
                Some(h) => h,
                None => return None,
            };
            let t = match side_exec(tail.as_slice(), true) {
                Some(t) => t,
                None => return None,
            };
            if h.len() > 7 || t.len() > 7 - h.len() {
                return None;
            }
            Some(fill_zero_groups(h, &t))
        },
        None => {
            let g = match side_exec(s, true) {
                Some(g) => g,
                None => return None,
            };
            if g.len() != 8 {
                return None;
            }
            Some(g)
        },
    }
}

/// The octets of the IPv6 address `s`, if it is one.
pub fn parse_ipv6(s: &[char]) -> (r: Option<[u8; 16]>)
    ensures
        match r {
            Some(a) => ipv6_groups(s@) is Some && a@ == group_octets(ipv6_groups(s@)->0),
            None => ipv6_groups(s@) is None,
        },
{
    match ipv6_groups_exec(s) {
        Some(g) => {
            assert(g@.len() == 8) by {
                match first_double_colon(s@) {
                    Some(i) => {},
                    None => {},
                }
            }
            Some(octets_of_groups(&g))
        },
        None => None,
    }
}

/// The address written by `s`: dotted decimal first, else IPv6 text.
pub fn parse_ip_literal(s: &str) -> (r: Option<IpAddress>)
    ensures
        match r {
            Some(ip) => ip_literal(s@) == Some(ip@),
            None => ip_literal(s@) is None,
        },
{
    let v = crate::text::chars_of(s);
    match parse_ipv4(v.as_slice()) {
        Some(a) => Some(IpAddress::V4(a)),
        None => match parse_ipv6(v.as_slice()) {
            Some(a) => Some(IpAddress::V6(a)),
            None => None,
        },
    }
}

/// Whether an IPv4 address (four octets) is loopback, unspecified, private,
/// link-local, shared (carrier-grade NAT) or reserved for benchmarking.
pub open spec fn blocked_ipv4(o: Seq<u8>) -> bool {
    ||| o[0] == 127
    ||| (o[0] == 0 && o[1] == 0 && o[2] == 0 && o[3] == 0)
    ||| o[0] == 10
    ||| (o[0] == 172 && 16 <= o[1] <= 31)
    ||| (o[0] == 192 && o[1] == 168)
    ||| (o[0] == 169 && o[1] == 254)
    ||| (o[0] == 100 && 64 <= o[1] <= 127)
    ||| (o[0] == 198 && 18 <= o[1] <= 19)
}

/// Whether an IPv6 address (sixteen octets) is an IPv4-mapped one
/// (`::ffff:a.b.c.d`).
pub open spec fn ipv4_mapped(o: Seq<u8>) -> bool {
    &&& forall|k: int| 0 <= k < 10 ==> #[trigger] o[k] == 0
    &&& o[10] == 0xff
    &&& o[11] == 0xff
}

/// Whether an IPv6 address is blocked: an IPv4-mapped address by its IPv4
/// part, else loopback, unspecified, unique local, link-local or multicast.
pub open spec fn blocked_ipv6(o: Seq<u8>) -> bool {
    if ipv4_mapped(o) {
        blocked_ipv4(o.subrange(12, 16))
    } else {
        ||| ((forall|k: int| 0 <= k < 15 ==> #[trigger] o[k] == 0) && (o[15] == 0 || o[15] == 1))
        ||| (0xfc <= o[0] <= 0xfd)
        ||| (o[0] == 0xfe && 0x80 <= o[1] <= 0xbf)
        ||| o[0] == 0xff
    }
}

/// Whether the address with octets `o` may not be fetched.
pub open spec fn blocked_ip(o: Seq<u8>) -> bool {
    if o.len() == 4 {
        blocked_ipv4(o)
    } else {
        blocked_ipv6(o)
    }
}

/// A host name without the brackets around an IPv6 literal.
pub open spec fn unbracket(h: Seq<char>) -> Seq<char> {
    if h.len() >= 2 && h[0] == '[' && h.last() == ']' {
        h.subrange(1, h.len() - 1)
    } else {
        h
    }
}

/// Whether a URL host may not be fetched: `localhost` in any ASCII case, or
/// an IP literal in a blocked range.
pub open spec fn blocked_host(h: Seq<char>) -> bool {
    ||| crate::text::ascii_lower(h) == "localhost"@
    ||| match ip_literal(unbracket(h)) {
        Some(o) => blocked_ip(o),
        None => false,
    }
}

/// Whether the IPv4 address `a` is in a blocked range.
pub fn is_blocked_ipv4(a: [u8; 4]) -> (r: bool)
    ensures
        r == blocked_ipv4(a@),
{
    let (x, y) = (a[0], a[1]);
    x == 127 || (x == 0 && y == 0 && a[2] == 0 && a[3] == 0) || x == 10 || (x == 172 && 16 <= y
        && y <= 31) || (x == 192 && y == 168) || (x == 169 && y == 254) || (x == 100 && 64 <= y
        && y <= 127) || (x == 198 && 18 <= y && y <= 19)
}

/// Whether the IPv6 address `a` is in a blocked range.
pub fn is_blocked_ipv6(a: [u8; 16]) -> (r: bool)
    ensures
        r == blocked_ipv6(a@),
{
    let mut zeros: usize = 0;
    while zeros < 15 && a[zeros] == 0
        invariant
            zeros <= 15,
            forall|k: int| 0 <= k < zeros ==> #[trigger] a@[k] == 0,
        decreases 15 - zeros,
    {
        zeros = zeros + 1;
    }
    if zeros >= 10 && a[10] == 0xff && a[11] == 0xff {
        let v4 = [a[12], a[13], a[14], a[15]];
        assert(v4@ =~= a@.subrange(12, 16));
        return is_blocked_ipv4(v4);
    }
    proof {
        if ipv4_mapped(a@) {
            if zeros < 10 {
                assert(a@[zeros as int] == 0);
            }
        }
    }
    let low = zeros == 15 && (a[15] == 0 || a[15] == 1);
    proof {
        if zeros < 15 {
            assert(a@[zeros as int] != 0);
        }
    }
    low || (0xfc <= a[0] && a[0] <= 0xfd) || (a[0] == 0xfe && 0x80 <= a[1] && a[1] <= 0xbf)
        || a[0] == 0xff
}

/// Whether the address `ip` is in a blocked range.
pub fn is_blocked_ip(ip: IpAddress) -> (r: bool)
    ensures
        r == blocked_ip(ip@),
{
    match ip {
        IpAddress::V4(a) => is_blocked_ipv4(a),
        IpAddress::V6(a) => is_blocked_ipv6(a),
    }
}

/// The characters of a host without the brackets of an IPv6 literal.
fn unbracket_chars(h: &[char]) -> (r: Vec<char>)
    ensures
        r@ == unbracket(h@),
{
    let n = h.len();
    if n >= 2 && h[0] == '[' && h[n - 1] == ']' {
        crate::text::sub_chars(h, 1, n - 1)
    } else {
        let mut r: Vec<char> = Vec::new();
        crate::text::push_chars(&mut r, h);
        assert(r@ =~= h@);
        r
    }
}

/// Whether the URL host `host` is `localhost` or a blocked IP literal.
pub fn is_blocked_host(host: &str) -> (r: bool)
    ensures
        r == blocked_host(host@),
{
    let v = crate::text::chars_of(host);
    let lower = crate::text::ascii_lower_chars(v.as_slice());
    let local = crate::text::chars_of("localhost");
    proof {
        reveal_strlit("localhost");
    }
    if crate::text::seq_eq(lower.as_slice(), local.as_slice()) {
        return true;
    }
    let inner = unbracket_chars(v.as_slice());
    let text = crate::text::string_of(inner.as_slice());
    match parse_ip_literal(text.as_str()) {
        Some(ip) => is_blocked_ip(ip),
        None => false,
    }
}

/// Whether the URL host `host` is an IP literal (brackets allowed).
pub fn is_ip_literal(host: &str) -> (r: bool)
    ensures
        r == (ip_literal(unbracket(host@)) is Some),
{
    let v = crate::text::chars_of(host);
    let inner = unbracket_chars(v.as_slice());
    let text = crate::text::string_of(inner.as_slice());
    parse_ip_literal(text.as_str()).is_some()
}

} // verus!
