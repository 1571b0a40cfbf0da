//! Internet addresses and their textual forms.

use vstd::prelude::*;

use crate::text::{
    append, append_decimal, chars_of, decimal, hexadecimal, hexadecimal_text, law_decimal_digits,
    law_hexadecimal_digits, law_split_at_separators, lemma_split_nonempty, split, split_text,
    text_between, texts,
};

verus! {

/// An address of either family: four octets, or eight groups of sixteen bits.
#[derive(Clone, Copy, Debug, PartialEq, Eq)]
pub enum IpAddr {
    V4([u8; 4]),
    V6([u16; 8]),
}

/// An address with a port.
#[derive(Clone, Copy, Debug, PartialEq, Eq)]
pub enum SocketAddr {
    V4 { octets: [u8; 4], port: u16 },
    V6 { groups: [u16; 8], port: u16, flowinfo: u32, scope_id: u32 },
}

pub open spec fn digit_value(c: char, radix: nat) -> Option<nat> {
    let value: nat = if '0' <= c <= '9' {
        (c as u32 - '0' as u32) as nat
    } else if 'a' <= c <= 'f' {
        (c as u32 - 'a' as u32 + 10) as nat
    } else if 'A' <= c <= 'F' {
        (c as u32 - 'A' as u32 + 10) as nat
    } else {
        radix
    };
    if value < radix {
        Some(value)
    } else {
        None
    }
}

/// The number that a run of digits denotes, unless a character is no digit.
pub open spec fn digits_value(s: Seq<char>, radix: nat) -> Option<nat>
    decreases s.len(),
{
    if s.len() == 0 {
        Some(0)
    } else {
        match (digits_value(s.drop_last(), radix), digit_value(s.last(), radix)) {
            (Some(a), Some(d)) => Some(a * radix + d),
            _ => None,
        }
    }
}

/// One to three decimal digits for a number up to 255, without a leading zero.
pub open spec fn octet(s: Seq<char>) -> Option<nat> {
    if 1 <= s.len() <= 3 && (s.len() > 1 ==> s[0] != '0') {
        match digits_value(s, 10) {
            Some(n) => if n <= 255 {
                Some(n)
            } else {
                None
            },
            None => None,
        }
    } else {
        None
    }
}

/// One to four hexadecimal digits.
pub open spec fn hex_group(s: Seq<char>) -> Option<nat> {
    if 1 <= s.len() <= 4 {
        digits_value(s, 16)
    } else {
        None
    }
}

/// Four octets joined by dots.
pub open spec fn ipv4(s: Seq<char>) -> Option<Seq<nat>> {
    let parts = split(s, '.');
    if parts.len() == 4 && octet(parts[0]) is Some && octet(parts[1]) is Some && octet(
        parts[2],
    ) is Some && octet(parts[3]) is Some {
        Some(
            seq![
                octet(parts[0])->0,
                octet(parts[1])->0,
                octet(parts[2])->0,
                octet(parts[3])->0,
            ],
        )
    } else {
        None
    }
}

pub open spec fn hex_groups(parts: Seq<Seq<char>>) -> Option<Seq<nat>>
    decreases parts.len(),
{
    if parts.len() == 0 {
        Some(Seq::<nat>::empty())
    } else {
        match (hex_groups(parts.drop_last()), hex_group(parts.last())) {
            (Some(groups), Some(group)) => Some(groups.push(group)),
            _ => None,
        }
    }
}

/// Hexadecimal groups, of which the last two may be written as an IPv4 address.
pub open spec fn mixed_groups(parts: Seq<Seq<char>>) -> Option<Seq<nat>> {
    match hex_groups(parts) {
        Some(groups) => Some(groups),
        None => match (hex_groups(parts.drop_last()), ipv4(parts.last())) {
            (Some(groups), Some(o)) => Some(
                groups.push(o[0] * 256 + o[1]).push(o[2] * 256 + o[3]),
            ),
            _ => None,
        },
    }
}

/// Where the first `::` begins, from position `i` on.
pub open spec fn double_colon(s: Seq<char>, i: int) -> Option<int>
    decreases s.len() - i,
{
    if i < 0 || i + 1 >= s.len() {
        None
    } else if s[i] == ':' && s[i + 1] == ':' {
        Some(i)
    } else {
        double_colon(s, i + 1)
    }
}

pub open spec fn zeros(n: nat) -> Seq<nat> {
    Seq::new(n, |i: int| 0nat)
}

/// Eight groups joined by colons, or fewer around one `::` that stands for zeros.
pub open spec fn ipv6(s: Seq<char>) -> Option<Seq<nat>> {
    match double_colon(s, 0) {
        None => match mixed_groups(split(s, ':')) {
            Some(groups) => if groups.len() == 8 {
                Some(groups)
            } else {
                None
            },
            None => None,
        },
        Some(at) => {
            let head = if at == 0 {
                Some(Seq::<nat>::empty())
            } else {
                hex_groups(split(s.take(at), ':'))
            };
            let tail = if at + 2 == s.len() {
                Some(Seq::<nat>::empty())
            } else {
                mixed_groups(split(s.skip(at + 2), ':'))
            };
            match (head, tail) {
                (Some(h), Some(t)) => if h.len() + t.len() <= 7 {
                    Some(h + zeros((8 - h.len() - t.len()) as nat) + t)
                } else {
                    None
                },
                _ => None,
            }
        },
    }
}

/// The address that a text denotes.
pub enum IpModel {
    V4(Seq<nat>),
    V6(Seq<nat>),
}

pub open spec fn ip(s: Seq<char>) -> Option<IpModel> {
    match ipv4(s) {
        Some(octets) => Some(IpModel::V4(octets)),
        None => match ipv6(s) {
            Some(groups) => Some(IpModel::V6(groups)),
            None => None,
        },
    }
}

pub open spec fn bytes_as_nat(s: Seq<u8>) -> Seq<nat> {
    s.map_values(|b: u8| b as nat)
}

pub open spec fn groups_as_nat(s: Seq<u16>) -> Seq<nat> {
    s.map_values(|g: u16| g as nat)
}

impl IpModel {
    /// An address that stays within the host: `127.0.0.0/8` or `::1`.
    pub open spec fn is_loopback(self) -> bool {
        match self {
            IpModel::V4(octets) => octets[0] == 127,
            IpModel::V6(groups) => groups == zeros(7).push(1),
        }
    }
}

impl View for IpAddr {
    type V = IpModel;

    open spec fn view(&self) -> IpModel {
        match self {
            IpAddr::V4(octets) => IpModel::V4(bytes_as_nat(octets@)),
            IpAddr::V6(groups) => IpModel::V6(groups_as_nat(groups@)),
        }
    }
}

fn parse_digit(c: char, radix: u32) -> (r: Option<u32>)
    requires
        radix <= 16,
    ensures
        match r {
            Some(d) => digit_value(c, radix as nat) == Some(d as nat) && d < radix,
            None => digit_value(c, radix as nat) is None,
        },
{
    let value: u32 = if '0' <= c && c <= '9' {
        c as u32 - '0' as u32
    } else if 'a' <= c && c <= 'f' {
        c as u32 - 'a' as u32 + 10
    } else if 'A' <= c && c <= 'F' {
        c as u32 - 'A' as u32 + 10
    } else {
        radix
    };
    if value < radix {
        Some(value)
    } else {
        None
    }
}

/// A prefix with a character that is no digit spoils the whole run.
proof fn lemma_digits_prefix(s: Seq<char>, radix: nat, n: int)
    requires
        0 <= n <= s.len(),
        digits_value(s.take(n), radix) is None,
    ensures
        digits_value(s, radix) is None,
    decreases s.len() - n,
{
    if n == s.len() {
        assert(s.take(n) =~= s);
    } else {
        assert(s.take(n + 1).drop_last() =~= s.take(n));
        lemma_digits_prefix(s, radix, n + 1);
    }
}

fn parse_digits(s: &str, radix: u32) -> (r: Option<u32>)
    requires
        2 <= radix <= 16,
        s@.len() <= 4,
    ensures
        match r {
            Some(n) => digits_value(s@, radix as nat) == Some(n as nat) && n < 65536,
            None => digits_value(s@, radix as nat) is None,
        },
{
    let v = chars_of(s);
    let mut n: u32 = 0;
    let mut bound: u32 = 1;
    let mut i: usize = 0;
    while i < v.len()
        invariant
            i <= v@.len() <= 4,
            v@ == s@,
            2 <= radix <= 16,
            n < bound,
            i == 0 ==> bound == 1,
            i == 1 ==> bound <= 16,
            i == 2 ==> bound <= 256,
            i == 3 ==> bound <= 4096,
            i == 4 ==> bound <= 65536,
            digits_value(s@.take(i as int), radix as nat) == Some(n as nat),
        decreases v@.len() - i,
    {
        proof {
            assert(s@.take(i + 1).drop_last() =~= s@.take(i as int));
        }
        match parse_digit(v[i], radix) {
            None => {
                proof {
                    lemma_digits_prefix(s@, radix as nat, i + 1);
                }
                return None;
            },
            Some(d) => {
                assert(n * radix + d < bound * radix) by (nonlinear_arith)
                    requires
                        n + 1 <= bound,
                        d < radix,
                ;
                assert(bound * radix <= bound * 16) by (nonlinear_arith)
                    requires
                        radix <= 16,
                ;
                n = n * radix + d;
                bound = bound * radix;
            },
        }
        i += 1;
    }
    assert(s@.take(i as int) =~= s@);
    Some(n)
}

fn parse_octet(s: &str) -> (r: Option<u8>)
    ensures
        match r {
            Some(n) => octet(s@) == Some(n as nat),
            None => octet(s@) is None,
        },
{
    let v = chars_of(s);
    if v.len() == 0 || v.len() > 3 || (v.len() > 1 && v[0] == '0') {
        return None;
    }
    match parse_digits(s, 10) {
        Some(n) => if n <= 255 {
            Some(n as u8)
        } else {
            None
        },
        None => None,
    }
}

fn parse_hex_group(s: &str) -> (r: Option<u16>)
    ensures
        match r {
            Some(n) => hex_group(s@) == Some(n as nat),
            None => hex_group(s@) is None,
        },
{
    let v = chars_of(s);
    if v.len() == 0 || v.len() > 4 {
        return None;
    }
    match parse_digits(s, 16) {
        Some(n) => Some(n as u16),
        None => None,
    }
}

pub fn parse_ipv4(s: &str) -> (r: Option<[u8; 4]>)
    ensures
        match r {
            Some(o) => ipv4(s@) == Some(bytes_as_nat(o@)),
            None => ipv4(s@) is None,
        },
{
    let parts = split_text(s, '.');
    proof {
        assert(forall|i: int|
            0 <= i < parts@.len() ==> (#[trigger] parts@[i])@ == split(s@, '.')[i]) by {
            assert(forall|i: int| 0 <= i < parts@.len() ==> (#[trigger] parts@[i])@ == texts(parts@)[i]);
        }
        assert(parts@.len() == split(s@, '.').len());
    }
    if parts.len() != 4 {
        return None;
    }
    match (
        parse_octet(&parts[0]),
        parse_octet(&parts[1]),
        parse_octet(&parts[2]),
        parse_octet(&parts[3]),
    ) {
        (Some(a), Some(b), Some(c), Some(d)) => {
            let octets: [u8; 4] = [a, b, c, d];
            assert(bytes_as_nat(octets@) =~= seq![a as nat, b as nat, c as nat, d as nat]);
            Some(octets)
        },
        _ => None,
    }
}

proof fn lemma_hex_groups_prefix(parts: Seq<Seq<char>>, n: int)
    requires
        0 <= n <= parts.len(),
        hex_groups(parts.take(n)) is None,
    ensures
        hex_groups(parts) is None,
    decreases parts.len() - n,
{
    if n == parts.len() {
        assert(parts.take(n) =~= parts);
    } else {
        assert(parts.take(n + 1).drop_last() =~= parts.take(n));
        lemma_hex_groups_prefix(parts, n + 1);
    }
}

/// The groups of the first `count` parts.
fn parse_hex_groups(parts: &Vec<String>, count: usize) -> (r: Option<Vec<u16>>)
    requires
        count <= parts@.len(),
    ensures
        match r {
            Some(g) => hex_groups(texts(parts@).take(count as int)) == Some(groups_as_nat(g@)),
            None => hex_groups(texts(parts@).take(count as int)) is None,
        },
{
    let mut groups: Vec<u16> = Vec::new();
    let ghost all = texts(parts@).take(count as int);
    let mut i: usize = 0;
    assert(groups_as_nat(groups@) =~= Seq::<nat>::empty());
    while i < count
        invariant
            i <= count <= parts@.len(),
            all == texts(parts@).take(count as int),
            hex_groups(all.take(i as int)) == Some(groups_as_nat(groups@)),
        decreases count - i,
    {
        proof {
            assert(all.take(i + 1).drop_last() =~= all.take(i as int));
            assert(all.take(i + 1).last() == parts@[i as int]@);
        }
        match parse_hex_group(&parts[i]) {
            None => {
                proof {
                    lemma_hex_groups_prefix(all, i + 1);
                }
                return None;
            },
            Some(g) => {
                let ghost before = groups@;
                groups.push(g);
                assert(groups_as_nat(groups@) =~= groups_as_nat(before).push(g as nat));
            },
        }
        i += 1;
    }
    assert(all.take(i as int) =~= all);
    Some(groups)
}

fn parse_mixed_groups(s: &str) -> (r: Option<Vec<u16>>)
    ensures
        match r {
            Some(g) => mixed_groups(split(s@, ':')) == Some(groups_as_nat(g@)),
            None => mixed_groups(split(s@, ':')) is None,
        },
{
    let parts = split_text(s, ':');
    let n: usize = parts.len();
    proof {
        lemma_split_nonempty(s@, ':');
        assert(texts(parts@).take(n as int) =~= split(s@, ':'));
        assert(texts(parts@).take(n - 1) =~= split(s@, ':').drop_last());
        assert(split(s@, ':').last() == parts@[n - 1]@);
    }
    match parse_hex_groups(&parts, n) {
        Some(groups) => Some(groups),
        None => match (parse_hex_groups(&parts, n - 1), parse_ipv4(&parts[n - 1])) {
            (Some(groups), Some(o)) => {
                let mut g = groups;
                let ghost before = g@;
                proof {
                    assert(bytes_as_nat(o@)[0] == o@[0] as nat);
                    assert(bytes_as_nat(o@)[1] == o@[1] as nat);
                    assert(bytes_as_nat(o@)[2] == o@[2] as nat);
                    assert(bytes_as_nat(o@)[3] == o@[3] as nat);
                }
                let high: u16 = o[0] as u16 * 256 + o[1] as u16;
                let low: u16 = o[2] as u16 * 256 + o[3] as u16;
                g.push(high);
                g.push(low);
                assert(groups_as_nat(g@) =~= groups_as_nat(before).push(high as nat).push(
                    low as nat,
                ));
                Some(g)
            },
            _ => None,
        },
    }
}

fn find_double_colon(v: &Vec<char>) -> (r: Option<usize>)
    ensures
        match r {
            Some(i) => double_colon(v@, 0) == Some(i as int) && i + 2 <= v@.len(),
            None => double_colon(v@, 0) is None,
        },
{
    let n: usize = v.len();
    let mut i: usize = 0;
    while n > 1 && i < n - 1
        invariant
            n == v@.len(),
            i <= n,
            double_colon(v@, 0) == double_colon(v@, i as int),
        decreases n - i,
    {
        if v[i] == ':' && v[i + 1] == ':' {
            return Some(i);
        }
        i += 1;
    }
    None
}

pub fn parse_ipv6(s: &str) -> (r: Option<[u16; 8]>)
    ensures
        match r {
            Some(g) => ipv6(s@) == Some(groups_as_nat(g@)),
            None => ipv6(s@) is None,
        },
{
    let v = chars_of(s);
    let n: usize = v.len();
    let (head, tail) = match find_double_colon(&v) {
        None => {
            match parse_mixed_groups(s) {
                Some(g) => {
                    assert(groups_as_nat(g@).len() == g@.len());
                    if g.len() != 8 {
                        return None;
                    }
                    (g, Vec::new())
                },
                None => {
                    return None;
                },
            }
        },
        Some(at) => {
            let head_text = text_between(&v, 0, at);
            let tail_text = text_between(&v, at + 2, n);
            assert(head_text@ =~= s@.take(at as int));
            assert(tail_text@ =~= s@.skip(at + 2));
            let head: Option<Vec<u16>> = if at == 0 {
                let empty: Vec<u16> = Vec::new();
                assert(groups_as_nat(empty@) =~= Seq::<nat>::empty());
                Some(empty)
            } else {
                let parts = split_text(&head_text, ':');
                assert(texts(parts@).take(parts@.len() as int) =~= split(s@.take(at as int), ':'));
                parse_hex_groups(&parts, parts.len())
            };
            let tail: Option<Vec<u16>> = if at + 2 == n {
                let empty: Vec<u16> = Vec::new();
                assert(groups_as_nat(empty@) =~= Seq::<nat>::empty());
                Some(empty)
            } else {
                parse_mixed_groups(&tail_text)
            };
            match (head, tail) {
                (Some(h), Some(t)) => {
                    assert(groups_as_nat(h@).len() == h@.len());
                    assert(groups_as_nat(t@).len() == t@.len());
                    if h.len() > 7 || t.len() > 7 || h.len() + t.len() > 7 {
                        return None;
                    }
                    (h, t)
                },
                _ => {
                    return None;
                },
            }
        },
    };
    let mut groups: [u16; 8] = [0; 8];
    let h: usize = head.len();
    let t: usize = tail.len();
    let mut i: usize = 0;
    while i < 8
        invariant
            i <= 8,
            h == head@.len(),
            t == tail@.len(),
            h + t <= 8,
            groups@.len() == 8,
            forall|j: int|
                0 <= j < i ==> #[trigger] groups@[j] == (if j < h {
                    head@[j]
                } else if j < 8 - t {
                    0u16
                } else {
                    tail@[j - (8 - t)]
                }),
        decreases 8 - i,
    {
        groups[i] = if i < h {
            head[i]
        } else if i < 8 - t {
            0
        } else {
            tail[i - (8 - t)]
        };
        i += 1;
    }
    proof {
        let full = groups_as_nat(head@) + zeros((8 - h - t) as nat) + groups_as_nat(tail@);
        assert(groups_as_nat(groups@) =~= full);
        if double_colon(s@, 0) is None {
            assert(groups_as_nat(groups@) =~= groups_as_nat(head@));
        }
    }
    Some(groups)
}

/// The address that `s` denotes in either family's textual form.
pub fn parse_ip(s: &str) -> (r: Option<IpAddr>)
    ensures
        match r {
            Some(a) => ip(s@) == Some(a@),
            None => ip(s@) is None,
        },
{
    match parse_ipv4(s) {
        Some(octets) => Some(IpAddr::V4(octets)),
        None => match parse_ipv6(s) {
            Some(groups) => Some(IpAddr::V6(groups)),
            None => None,
        },
    }
}

/// The model of [`SocketAddr`].
pub struct SocketModel {
    pub ip: IpModel,
    pub port: nat,
    pub flowinfo: nat,
    pub scope_id: nat,
}

impl View for SocketAddr {
    type V = SocketModel;

    open spec fn view(&self) -> SocketModel {
        match self {
            SocketAddr::V4 { octets, port } => SocketModel {
                ip: IpModel::V4(bytes_as_nat(octets@)),
                port: *port as nat,
                flowinfo: 0,
                scope_id: 0,
            },
            SocketAddr::V6 { groups, port, flowinfo, scope_id } => SocketModel {
                ip: IpModel::V6(groups_as_nat(groups@)),
                port: *port as nat,
                flowinfo: *flowinfo as nat,
                scope_id: *scope_id as nat,
            },
        }
    }
}

/// An address with a port, without flow information or scope.
pub open spec fn socket(ip: IpModel, port: nat) -> SocketModel {
    SocketModel { ip, port, flowinfo: 0, scope_id: 0 }
}

/// The dotted form of four octets.
pub open spec fn ipv4_text(o: Seq<nat>) -> Seq<char> {
    decimal(o[0]) + "."@ + decimal(o[1]) + "."@ + decimal(o[2]) + "."@ + decimal(o[3])
}

/// Groups in hexadecimal, joined by colons.
pub open spec fn groups_text(g: Seq<nat>) -> Seq<char>
    decreases g.len(),
{
    if g.len() == 0 {
        Seq::<char>::empty()
    } else if g.len() == 1 {
        hexadecimal(g[0])
    } else {
        groups_text(g.drop_last()) + ":"@ + hexadecimal(g.last())
    }
}

/// How many zero groups stand from `i` on.
pub open spec fn zero_run(g: Seq<nat>, i: int) -> nat
    decreases g.len() - i,
{
    if 0 <= i < g.len() && g[i] == 0 {
        zero_run(g, i + 1) + 1
    } else {
        0
    }
}

/// Whether the run of zeros at `start` is the first of the longest ones.
pub open spec fn is_longest_run(g: Seq<nat>, start: int) -> bool {
    &&& 0 <= start < g.len()
    &&& forall|i: int| 0 <= i < g.len() ==> #[trigger] zero_run(g, i) <= zero_run(g, start)
    &&& forall|i: int| 0 <= i < start ==> #[trigger] zero_run(g, i) < zero_run(g, start)
}

/// The form of an IPv6 address with its first longest run of zeros written as `::`, and with an
/// address that stands for an IPv4 one written as such.
pub open spec fn is_ipv6_text(g: Seq<nat>, s: Seq<char>) -> bool {
    if zero_run(g, 0) == 5 && g[5] == 0xffff {
        s == "::ffff:"@ + ipv4_text(seq![g[6] / 256, g[6] % 256, g[7] / 256, g[7] % 256])
    } else {
        exists|start: int| #[trigger]
            is_longest_run(g, start) && s == (if zero_run(g, start) > 1 {
                groups_text(g.take(start)) + "::"@ + groups_text(
                    g.skip(start + zero_run(g, start)),
                )
            } else {
                groups_text(g)
            })
    }
}

fn append_ipv4(s: &mut String, a: u8, b: u8, c: u8, d: u8)
    ensures
        final(s)@ == old(s)@ + ipv4_text(seq![a as nat, b as nat, c as nat, d as nat]),
{
    append_decimal(s, a as u128);
    append(s, ".");
    append_decimal(s, b as u128);
    append(s, ".");
    append_decimal(s, c as u128);
    append(s, ".");
    append_decimal(s, d as u128);
    assert(s@ =~= old(s)@ + ipv4_text(seq![a as nat, b as nat, c as nat, d as nat]));
}

fn append_groups(s: &mut String, g: &[u16; 8], from: usize, to: usize)
    requires
        from <= to <= 8,
    ensures
        final(s)@ == old(s)@ + groups_text(groups_as_nat(g@).subrange(from as int, to as int)),
{
    let ghost all = groups_as_nat(g@);
    let mut i: usize = from;
    assert(s@ =~= old(s)@ + groups_text(all.subrange(from as int, from as int)));
    while i < to
        invariant
            from <= i <= to <= 8,
            all == groups_as_nat(g@),
            s@ == old(s)@ + groups_text(all.subrange(from as int, i as int)),
        decreases to - i,
    {
        let ghost before = s@;
        if i > from {
            append(s, ":");
        }
        let t = hexadecimal_text(g[i]);
        append(s, &t);
        proof {
            let next = all.subrange(from as int, i + 1);
            assert(next.drop_last() =~= all.subrange(from as int, i as int));
            assert(next.last() == g@[i as int] as nat);
            assert(s@ =~= old(s)@ + groups_text(next));
        }
        i += 1;
    }
}

fn zero_run_from(g: &[u16; 8], i: usize) -> (r: usize)
    requires
        i <= 8,
    ensures
        r == zero_run(groups_as_nat(g@), i as int),
        i + r <= 8,
    decreases 8 - i,
{
    if i < 8 && g[i] == 0 {
        zero_run_from(g, i + 1) + 1
    } else {
        0
    }
}

fn append_ipv6(s: &mut String, g: &[u16; 8])
    ensures
        exists|t: Seq<char>| #[trigger] is_ipv6_text(groups_as_nat(g@), t) && final(s)@ == old(s)@ + t,
{
    let ghost all = groups_as_nat(g@);
    if zero_run_from(g, 0) == 5 && g[5] == 0xffff {
        append(s, "::ffff:");
        append_ipv4(
            s,
            (g[6] / 256) as u8,
            (g[6] % 256) as u8,
            (g[7] / 256) as u8,
            (g[7] % 256) as u8,
        );
        proof {
            let t = "::ffff:"@ + ipv4_text(
                seq![all[6] / 256, all[6] % 256, all[7] / 256, all[7] % 256],
            );
            assert(s@ =~= old(s)@ + t);
            assert(is_ipv6_text(all, t));
        }
        return;
    }
    let mut start: usize = 0;
    let mut longest: usize = zero_run_from(g, 0);
    let mut i: usize = 1;
    while i < 8
        invariant
            1 <= i <= 8,
            start < i,
            all == groups_as_nat(g@),
            longest == zero_run(all, start as int),
            start + longest <= 8,
            forall|j: int| 0 <= j < i ==> #[trigger] zero_run(all, j) <= longest,
            forall|j: int| 0 <= j < start ==> #[trigger] zero_run(all, j) < longest,
        decreases 8 - i,
    {
        let run: usize = zero_run_from(g, i);
        if run > longest {
            start = i;
            longest = run;
        }
        i += 1;
    }
    assert(is_longest_run(all, start as int));
    if longest > 1 {
        append_groups(s, g, 0, start);
        append(s, "::");
        append_groups(s, g, start + longest, 8);
        proof {
            let t = groups_text(all.take(start as int)) + "::"@ + groups_text(
                all.skip(start + longest),
            );
            assert(all.take(start as int) =~= all.subrange(0, start as int));
            assert(all.skip(start + longest) =~= all.subrange(start + longest, 8));
            assert(s@ =~= old(s)@ + t);
            assert(is_ipv6_text(all, t));
        }
    } else {
        append_groups(s, g, 0, 8);
        proof {
            assert(all.subrange(0, 8) =~= all);
            assert(is_ipv6_text(all, groups_text(all)));
        }
    }
}

/// An IPv6 address in brackets, with its scope where it has one, and a port.
pub open spec fn bracketed(t: Seq<char>, scope_id: nat, port: nat) -> Seq<char> {
    if scope_id == 0 {
        "["@ + t + "]:"@ + decimal(port)
    } else {
        "["@ + t + "%"@ + decimal(scope_id) + "]:"@ + decimal(port)
    }
}

/// Whether `s` is the textual form of an address with a port.
pub open spec fn is_socket_text(a: SocketModel, s: Seq<char>) -> bool {
    match a.ip {
        IpModel::V4(octets) => s == ipv4_text(octets) + ":"@ + decimal(a.port),
        IpModel::V6(groups) => exists|t: Seq<char>| #[trigger]
            is_ipv6_text(groups, t) && s == bracketed(t, a.scope_id, a.port),
    }
}

/// An address has one textual form.
pub proof fn law_socket_text_is_unique(a: SocketModel, s: Seq<char>, t: Seq<char>)
    requires
        is_socket_text(a, s),
        is_socket_text(a, t),
    ensures
        s == t,
{
    match a.ip {
        IpModel::V4(_) => {},
        IpModel::V6(groups) => {
            let x = choose|x: Seq<char>| #[trigger]
                is_ipv6_text(groups, x) && s == bracketed(x, a.scope_id, a.port);
            let y = choose|y: Seq<char>| #[trigger]
                is_ipv6_text(groups, y) && t == bracketed(y, a.scope_id, a.port);
            lemma_ipv6_text_is_unique(groups, x, y);
        },
    }
}

proof fn lemma_ipv6_text_is_unique(g: Seq<nat>, s: Seq<char>, t: Seq<char>)
    requires
        is_ipv6_text(g, s),
        is_ipv6_text(g, t),
    ensures
        s == t,
{
    if !(zero_run(g, 0) == 5 && g[5] == 0xffff) {
        let text = |start: int|
            if zero_run(g, start) > 1 {
                groups_text(g.take(start)) + "::"@ + groups_text(
                    g.skip(start + zero_run(g, start)),
                )
            } else {
                groups_text(g)
            };
        let i = choose|start: int| #[trigger] is_longest_run(g, start) && s == text(start);
        let j = choose|start: int| #[trigger] is_longest_run(g, start) && t == text(start);
        assert(zero_run(g, i) <= zero_run(g, j) && zero_run(g, j) <= zero_run(g, i));
        assert(i == j);
    }
}

proof fn lemma_v6_socket_text(a: SocketModel, groups: Seq<nat>, t: Seq<char>, s: Seq<char>)
    requires
        a.ip == IpModel::V6(groups),
        is_ipv6_text(groups, t),
        s == bracketed(t, a.scope_id, a.port),
    ensures
        is_socket_text(a, s),
{
    assert(is_ipv6_text(a.ip->V6_0, t));
}

fn same_octets(a: &[u8; 4], b: &[u8; 4]) -> (r: bool)
    ensures
        r == (bytes_as_nat(a@) == bytes_as_nat(b@)),
{
    let r = a[0] == b[0] && a[1] == b[1] && a[2] == b[2] && a[3] == b[3];
    proof {
        let x = bytes_as_nat(a@);
        let y = bytes_as_nat(b@);
        assert(forall|i: int| 0 <= i < 4 ==> #[trigger] x[i] == a@[i] as nat);
        assert(forall|i: int| 0 <= i < 4 ==> #[trigger] y[i] == b@[i] as nat);
        if r {
            assert(x =~= y);
        } else if x == y {
            assert(x[0] == y[0] && x[1] == y[1] && x[2] == y[2] && x[3] == y[3]);
        }
    }
    r
}

fn same_groups(a: &[u16; 8], b: &[u16; 8]) -> (r: bool)
    ensures
        r == (groups_as_nat(a@) == groups_as_nat(b@)),
{
    let ghost x = groups_as_nat(a@);
    let ghost y = groups_as_nat(b@);
    let mut i: usize = 0;
    while i < 8
        invariant
            i <= 8,
            x == groups_as_nat(a@),
            y == groups_as_nat(b@),
            forall|j: int| 0 <= j < i ==> #[trigger] x[j] == y[j],
        decreases 8 - i,
    {
        assert(x[i as int] == a@[i as int] as nat);
        assert(y[i as int] == b@[i as int] as nat);
        if a[i] != b[i] {
            return false;
        }
        i += 1;
    }
    assert(x =~= y);
    true
}

/// Whether two addresses are the same, flow information and scope included.
pub fn same_address(a: &SocketAddr, b: &SocketAddr) -> (r: bool)
    ensures
        r == (a@ == b@),
{
    match (a, b) {
        (SocketAddr::V4 { octets: x, port: p }, SocketAddr::V4 { octets: y, port: q }) => {
            same_octets(x, y) && *p == *q
        },
        (
            SocketAddr::V6 { groups: x, port: p, flowinfo: f, scope_id: s },
            SocketAddr::V6 { groups: y, port: q, flowinfo: g, scope_id: t },
        ) => { same_groups(x, y) && *p == *q && *f == *g && *s == *t },
        _ => false,
    }
}

impl SocketAddr {
    pub fn new(ip: IpAddr, port: u16) -> (r: SocketAddr)
        ensures
            r@ == socket(ip@, port as nat),
    {
        match ip {
            IpAddr::V4(octets) => SocketAddr::V4 { octets, port },
            IpAddr::V6(groups) => SocketAddr::V6 { groups, port, flowinfo: 0, scope_id: 0 },
        }
    }

    pub fn to_string(&self) -> (r: String)
        ensures
            is_socket_text(self@, r@),
    {
        let mut s = String::new();
        match self {
            SocketAddr::V4 { octets, port } => {
                append_ipv4(&mut s, octets[0], octets[1], octets[2], octets[3]);
                append(&mut s, ":");
                append_decimal(&mut s, *port as u128);
                proof {
                    assert(bytes_as_nat(octets@) =~= seq![
                        octets@[0] as nat,
                        octets@[1] as nat,
                        octets@[2] as nat,
                        octets@[3] as nat,
                    ]);
                    assert(s@ =~= ipv4_text(bytes_as_nat(octets@)) + ":"@ + decimal(*port as nat));
                    assert(is_socket_text(self@, s@));
                }
            },
            SocketAddr::V6 { groups, port, flowinfo, scope_id } => {
                append(&mut s, "[");
                let ghost opened = s@;
                append_ipv6(&mut s, groups);
                let ghost t = choose|t: Seq<char>| #[trigger]
                    is_ipv6_text(groups_as_nat(groups@), t) && s@ == opened + t;
                if *scope_id != 0 {
                    append(&mut s, "%");
                    append_decimal(&mut s, *scope_id as u128);
                }
                append(&mut s, "]:");
                append_decimal(&mut s, *port as u128);
                proof {
                    assert(s@ =~= bracketed(t, *scope_id as nat, *port as nat));
                    assert(is_ipv6_text(groups_as_nat(groups@), t));
                    lemma_v6_socket_text(self@, groups_as_nat(groups@), t, s@);
                }
            },
        }
        s
    }
}

impl IpAddr {
    pub fn is_loopback(&self) -> (r: bool)
        ensures
            r == self@.is_loopback(),
    {
        match self {
            IpAddr::V4(octets) => {
                assert(bytes_as_nat(octets@)[0] == octets@[0] as nat);
                octets[0] == 127
            },
            IpAddr::V6(groups) => {
                let r = groups[0] == 0 && groups[1] == 0 && groups[2] == 0 && groups[3] == 0
                    && groups[4] == 0 && groups[5] == 0 && groups[6] == 0 && groups[7] == 1;
                proof {
                    let model = groups_as_nat(groups@);
                    assert(forall|i: int| 0 <= i < 8 ==> #[trigger] model[i] == groups@[i] as nat);
                    if r {
                        assert(model =~= zeros(7).push(1));
                    } else if model == zeros(7).push(1) {
                        assert(model[0] == 0 && model[1] == 0 && model[2] == 0 && model[3] == 0
                            && model[4] == 0 && model[5] == 0 && model[6] == 0 && model[7] == 1);
                    }
                }
                r
            },
        }
    }
}

/// Hexadecimal digits mean the same in either case, and their values are those of the decimal
/// digits and of ten to fifteen for a to f. Nothing else is a digit.
pub proof fn law_digit_values(c: char)
    ensures
        '0' <= c <= '9' ==> digit_value(c, 10) == Some((c as u32 - 48) as nat) && digit_value(c, 16)
            == Some((c as u32 - 48) as nat),
        'a' <= c <= 'f' ==> digit_value(c, 16) == Some((c as u32 - 87) as nat),
        'A' <= c <= 'F' ==> digit_value(c, 16) == Some((c as u32 - 55) as nat),
        digit_value(c, 10) is Some <==> '0' <= c <= '9',
        digit_value(c, 16) is Some <==> '0' <= c <= '9' || 'a' <= c <= 'f' || 'A' <= c <= 'F',
{
}

/// The decimal digits of a number denote it, and so do its hexadecimal digits.
pub proof fn law_digits_denote_their_number(n: nat)
    ensures
        digits_value(decimal(n), 10) == Some(n),
        digits_value(hexadecimal(n), 16) == Some(n),
    decreases n,
{
    law_decimal_digits(n);
    law_hexadecimal_digits(n);
    law_digit_values(decimal(n).last());
    law_digit_values(hexadecimal(n).last());
    reveal_with_fuel(digits_value, 2);
    if n >= 10 {
        law_digits_denote_their_number(n / 10);
        assert(n == n / 10 * 10 + n % 10);
    } else {
        assert(decimal(n).drop_last().len() == 0);
    }
    if n >= 16 {
        law_digits_denote_their_number(n / 16);
        assert(n == n / 16 * 16 + n % 16);
    } else {
        assert(hexadecimal(n).drop_last().len() == 0);
    }
}

proof fn lemma_digits_without_leading_zero(s: Seq<char>, n: nat)
    requires
        s.len() > 0,
        s.len() > 1 ==> s[0] != '0',
        digits_value(s, 10) == Some(n),
    ensures
        s == decimal(n),
    decreases s.len(),
{
    let rest = s.drop_last();
    law_digit_values(s.last());
    let d = digit_value(s.last(), 10)->0;
    let m = digits_value(rest, 10)->0;
    assert(n == m * 10 + d);
    if s.len() == 1 {
        assert(rest.len() == 0);
        assert(m == 0);
        assert(s =~= decimal(n));
    } else {
        lemma_digits_without_leading_zero(rest, m);
        law_decimal_digits(m);
        assert(rest[0] == s[0]);
        assert(m > 0);
        assert(n / 10 == m && n % 10 == d) by (nonlinear_arith)
            requires
                n == m * 10 + d,
                d < 10,
        ;
        assert(s =~= rest.push(s.last()));
    }
}

/// An octet is written in decimal in one way only.
pub proof fn law_octets(s: Seq<char>, n: nat)
    ensures
        octet(s) == Some(n) <==> n <= 255 && s == decimal(n),
{
    if octet(s) == Some(n) {
        lemma_digits_without_leading_zero(s, n);
    }
    if n <= 255 && s == decimal(n) {
        law_digits_denote_their_number(n);
        law_decimal_digits(n);
        reveal_with_fuel(decimal, 3);
        if n < 10 {
        } else if n < 100 {
            assert(decimal(n).len() == 2);
        } else {
            assert(n / 10 / 10 < 10);
            assert(decimal(n).len() == 3);
        }
    }
}

spec fn joined(parts: Seq<Seq<char>>, sep: char) -> Seq<char>
    decreases parts.len(),
{
    if parts.len() == 0 {
        Seq::empty()
    } else if parts.len() == 1 {
        parts[0]
    } else {
        joined(parts.drop_last(), sep) + seq![sep] + parts.last()
    }
}

proof fn lemma_split_is_undone(s: Seq<char>, sep: char)
    ensures
        joined(split(s, sep), sep) == s,
    decreases s.len(),
{
    lemma_split_nonempty(s, sep);
    if s.len() == 0 {
        assert(joined(split(s, sep), sep) =~= s);
    } else {
        let rest = s.drop_last();
        lemma_split_is_undone(rest, sep);
        lemma_split_nonempty(rest, sep);
        let before = split(rest, sep);
        let parts = split(s, sep);
        if s.last() == sep {
            assert(parts.drop_last() =~= before);
            assert(joined(parts, sep) =~= rest.push(sep));
        } else {
            assert(parts.drop_last() =~= before.drop_last());
            assert(parts.last() == before.last().push(s.last()));
            assert(joined(parts, sep) =~= rest.push(s.last()));
        }
        assert(rest.push(s.last()) =~= s);
    }
}

proof fn lemma_decimal_has_no_dot(n: nat)
    ensures
        !decimal(n).contains('.'),
        !decimal(n).contains(':'),
{
    law_decimal_digits(n);
}

/// The text of an IPv4 address is its four octets in decimal, joined by dots, and nothing else.
pub proof fn law_ipv4_texts(s: Seq<char>, o: Seq<nat>)
    ensures
        ipv4(s) == Some(o) <==> o.len() == 4 && o[0] <= 255 && o[1] <= 255 && o[2] <= 255 && o[3]
            <= 255 && s == decimal(o[0]) + seq!['.'] + decimal(o[1]) + seq!['.'] + decimal(o[2])
            + seq!['.'] + decimal(o[3]),
{
    let text = decimal(o[0]) + seq!['.'] + decimal(o[1]) + seq!['.'] + decimal(o[2]) + seq!['.']
        + decimal(o[3]);
    if ipv4(s) == Some(o) {
        let parts = split(s, '.');
        lemma_split_is_undone(s, '.');
        law_octets(parts[0], o[0]);
        law_octets(parts[1], o[1]);
        law_octets(parts[2], o[2]);
        law_octets(parts[3], o[3]);
        reveal_with_fuel(joined, 4);
        assert(parts.drop_last().drop_last().drop_last()[0] == parts[0]);
        assert(joined(parts, '.') =~= text);
    }
    if o.len() == 4 && o[0] <= 255 && o[1] <= 255 && o[2] <= 255 && o[3] <= 255 && s == text {
        lemma_decimal_has_no_dot(o[0]);
        lemma_decimal_has_no_dot(o[1]);
        lemma_decimal_has_no_dot(o[2]);
        lemma_decimal_has_no_dot(o[3]);
        let two = decimal(o[0]) + seq!['.'] + decimal(o[1]);
        let three = two + seq!['.'] + decimal(o[2]);
        law_split_at_separators(decimal(o[0]), decimal(o[1]), '.');
        law_split_at_separators(decimal(o[1]), decimal(o[1]), '.');
        law_split_at_separators(two, decimal(o[2]), '.');
        law_split_at_separators(decimal(o[2]), decimal(o[2]), '.');
        law_split_at_separators(three, decimal(o[3]), '.');
        law_split_at_separators(decimal(o[3]), decimal(o[3]), '.');
        let parts = split(s, '.');
        assert(parts =~= seq![decimal(o[0]), decimal(o[1]), decimal(o[2]), decimal(o[3])]);
        law_octets(parts[0], o[0]);
        law_octets(parts[1], o[1]);
        law_octets(parts[2], o[2]);
        law_octets(parts[3], o[3]);
        assert(ipv4(s)->0 =~= o);
    }
}

/// Up to four hexadecimal digits make a group.
pub proof fn law_hex_groups_are_short(n: nat)
    requires
        n < 65536,
    ensures
        hex_group(hexadecimal(n)) == Some(n),
{
    law_digits_denote_their_number(n);
    reveal_with_fuel(hexadecimal, 4);
    if n >= 16 {
        assert(n / 16 < 4096);
        if n / 16 >= 16 {
            assert(n / 16 / 16 < 256);
            if n / 16 / 16 >= 16 {
                assert(n / 16 / 16 / 16 < 16);
            }
        }
    }
}

proof fn lemma_groups_text_shape(g: Seq<nat>)
    ensures
        groups_text(g).len() > 0 <==> g.len() > 0,
        g.len() > 0 ==> groups_text(g)[0] != ':' && groups_text(g).last() != ':',
        forall|i: int|
            0 <= i < groups_text(g).len() - 1 ==> !(#[trigger] groups_text(g)[i] == ':'
                && groups_text(g)[i + 1] == ':'),
    decreases g.len(),
{
    if g.len() == 1 {
        law_hexadecimal_digits(g[0]);
    } else if g.len() > 1 {
        reveal_strlit(":");
        let head = groups_text(g.drop_last());
        let tail = hexadecimal(g.last());
        lemma_groups_text_shape(g.drop_last());
        law_hexadecimal_digits(g.last());
        let whole = groups_text(g);
        assert(whole == head + ":"@ + tail);
        assert(whole[0] == head[0]);
        assert(whole.last() == tail.last());
        assert forall|i: int| 0 <= i < whole.len() - 1 implies !(#[trigger] whole[i] == ':'
            && whole[i + 1] == ':') by {
            if i + 1 < head.len() {
                assert(head[i] == whole[i] && head[i + 1] == whole[i + 1]);
            } else if i + 1 == head.len() {
                assert(whole[i] == head.last());
            } else if i == head.len() {
                assert(whole[i + 1] == tail[0]);
            } else {
                assert(whole[i] == tail[i - head.len() - 1]);
            }
        }
    }
}

proof fn lemma_groups_of_text(g: Seq<nat>)
    requires
        g.len() > 0,
        forall|i: int| 0 <= i < g.len() ==> #[trigger] g[i] < 65536,
    ensures
        hex_groups(split(groups_text(g), ':')) == Some(g),
    decreases g.len(),
{
    let last = hexadecimal(g.last());
    law_hexadecimal_digits(g.last());
    law_hex_groups_are_short(g.last());
    assert(!last.contains(':'));
    law_split_at_separators(last, last, ':');
    if g.len() == 1 {
        assert(split(groups_text(g), ':') =~= seq![last]);
        reveal_with_fuel(hex_groups, 2);
        let parts = seq![last];
        assert(parts.drop_last().len() == 0);
        assert(hex_groups(parts)->0 =~= g);
    } else {
        reveal_strlit(":");
        let head = groups_text(g.drop_last());
        lemma_groups_of_text(g.drop_last());
        law_split_at_separators(head, last, ':');
        assert(":"@ =~= seq![':']);
        let parts = split(groups_text(g), ':');
        assert(parts =~= split(head, ':').push(last));
        assert(parts.drop_last() =~= split(head, ':'));
        assert(hex_groups(parts)->0 =~= g);
    }
}

proof fn lemma_double_colon(s: Seq<char>, i: int, at: int)
    requires
        0 <= i <= at,
        forall|j: int| i <= j < at && j + 1 < s.len() ==> !(#[trigger] s[j] == ':' && s[j + 1] == ':'),
    ensures
        at + 1 >= s.len() ==> double_colon(s, i) is None,
        at + 1 < s.len() && s[at] == ':' && s[at + 1] == ':' ==> double_colon(s, i) == Some(at),
    decreases at - i,
{
    if i < at && i + 1 < s.len() {
        lemma_double_colon(s, i + 1, at);
    }
}

/// Eight groups in hexadecimal, joined by colons, are an IPv6 address, and a double colon stands for
/// as many zero groups as are missing around it.
pub proof fn law_groups_make_an_address(g: Seq<nat>, h: Seq<nat>, t: Seq<nat>)
    requires
        g.len() == 8,
        h.len() + t.len() <= 7,
        forall|i: int| 0 <= i < g.len() ==> #[trigger] g[i] < 65536,
        forall|i: int| 0 <= i < h.len() ==> #[trigger] h[i] < 65536,
        forall|i: int| 0 <= i < t.len() ==> #[trigger] t[i] < 65536,
    ensures
        ipv6(groups_text(g)) == Some(g),
        ipv6(groups_text(h) + seq![':', ':'] + groups_text(t)) == Some(
            h + Seq::new((8 - h.len() - t.len()) as nat, |i: int| 0nat) + t,
        ),
{
    lemma_groups_text_shape(g);
    lemma_groups_of_text(g);
    lemma_double_colon(groups_text(g), 0, groups_text(g).len() as int);
    let head = groups_text(h);
    let tail = groups_text(t);
    let whole = head + seq![':', ':'] + tail;
    let at = head.len() as int;
    lemma_groups_text_shape(h);
    lemma_groups_text_shape(t);
    assert forall|j: int| 0 <= j < at && j + 1 < whole.len() implies !(#[trigger] whole[j] == ':'
        && whole[j + 1] == ':') by {
        assert(whole[j] == head[j]);
        if j + 1 < at {
            assert(whole[j + 1] == head[j + 1]);
        } else {
            assert(whole[j] == head.last());
        }
    }
    lemma_double_colon(whole, 0, at);
    assert(double_colon(whole, 0) == Some(at));
    assert(whole.take(at) =~= head);
    assert(whole.skip(at + 2) =~= tail);
    if h.len() > 0 {
        lemma_groups_of_text(h);
    } else {
        assert(h =~= Seq::<nat>::empty());
    }
    if t.len() > 0 {
        lemma_groups_of_text(t);
    } else {
        assert(t =~= Seq::<nat>::empty());
    }
    assert(zeros((8 - h.len() - t.len()) as nat) =~= Seq::new(
        (8 - h.len() - t.len()) as nat,
        |i: int| 0nat,
    ));
}

/// The last two groups may be written as an IPv4 address.
pub proof fn law_last_groups_may_be_dotted(t: Seq<nat>, o: Seq<nat>)
    requires
        1 <= t.len() <= 5,
        forall|i: int| 0 <= i < t.len() ==> #[trigger] t[i] < 65536,
        o.len() == 4,
        o[0] <= 255 && o[1] <= 255 && o[2] <= 255 && o[3] <= 255,
    ensures
        ipv6(seq![':', ':'] + (groups_text(t) + seq![':'] + ipv4_text(o))) == Some(
            Seq::new((6 - t.len()) as nat, |i: int| 0nat) + t.push(o[0] * 256 + o[1]).push(
                o[2] * 256 + o[3],
            ),
        ),
{
    reveal_strlit(".");
    assert("."@ =~= seq!['.']);
    let dotted = ipv4_text(o);
    law_ipv4_texts(dotted, o);
    lemma_decimal_has_no_dot(o[0]);
    lemma_decimal_has_no_dot(o[1]);
    lemma_decimal_has_no_dot(o[2]);
    lemma_decimal_has_no_dot(o[3]);
    assert(!dotted.contains(':')) by {
        if dotted.contains(':') {
            let k = choose|k: int| 0 <= k < dotted.len() && dotted[k] == ':';
            let a = decimal(o[0]);
            let b = decimal(o[1]);
            let c = decimal(o[2]);
            let d = decimal(o[3]);
            if k < a.len() {
                assert(dotted[k] == a[k]);
                assert(a.contains(':'));
            } else if k == a.len() {
            } else if k < a.len() + 1 + b.len() {
                assert(dotted[k] == b[k - a.len() - 1]);
                assert(b.contains(':'));
            } else if k == a.len() + 1 + b.len() {
            } else if k < a.len() + b.len() + c.len() + 2 {
                assert(dotted[k] == c[k - a.len() - b.len() - 2]);
                assert(c.contains(':'));
            } else if k == a.len() + b.len() + c.len() + 2 {
            } else {
                assert(dotted[k] == d[k - a.len() - b.len() - c.len() - 3]);
                assert(d.contains(':'));
            }
        }
    }
    let rest = groups_text(t) + seq![':'] + dotted;
    let whole = seq![':', ':'] + rest;
    lemma_double_colon(whole, 0, 0);
    assert(whole.skip(2) =~= rest);
    lemma_groups_of_text(t);
    law_split_at_separators(groups_text(t), dotted, ':');
    law_split_at_separators(dotted, dotted, ':');
    let parts = split(rest, ':');
    assert(parts =~= split(groups_text(t), ':').push(dotted));
    assert(parts.drop_last() =~= split(groups_text(t), ':'));
    assert(hex_group(dotted) is None) by {
        assert(dotted[decimal(o[0]).len() as int] == '.');
        if hex_group(dotted) is Some {
            lemma_all_digits(dotted, decimal(o[0]).len() as int);
        }
    }
    let groups = t.push(o[0] * 256 + o[1]).push(o[2] * 256 + o[3]);
    assert(mixed_groups(parts)->0 =~= groups);
    assert(ipv6(whole)->0 =~= Seq::new((6 - t.len()) as nat, |i: int| 0nat) + groups);
}

proof fn lemma_all_digits(s: Seq<char>, i: int)
    requires
        digits_value(s, 16) is Some,
        0 <= i < s.len(),
    ensures
        digit_value(s[i], 16) is Some,
    decreases s.len(),
{
    if i < s.len() - 1 {
        lemma_all_digits(s.drop_last(), i);
    }
}

/// A run of zeros reaches up to the next group that is not zero.
pub proof fn law_zero_runs(g: Seq<nat>, i: int)
    requires
        0 <= i <= g.len(),
    ensures
        ({
            let n = zero_run(g, i);
            &&& i + n <= g.len()
            &&& forall|j: int| i <= j < i + n ==> #[trigger] g[j] == 0
            &&& i + n < g.len() ==> g[i + n] != 0
        }),
    decreases g.len() - i,
{
    if i < g.len() && g[i] == 0 {
        law_zero_runs(g, i + 1);
    }
}

proof fn lemma_ffff()
    ensures
        hexadecimal(0xffff) == seq!['f', 'f', 'f', 'f'],
{
    reveal_with_fuel(hexadecimal, 4);
    assert(0xffffnat / 16 == 0xfff && 0xfffnat / 16 == 0xff && 0xffnat / 16 == 0xf);
    assert(hexadecimal(0xf) =~= seq!['f']);
    assert(hexadecimal(0xff) =~= seq!['f', 'f']);
    assert(hexadecimal(0xfff) =~= seq!['f', 'f', 'f']);
    assert(hexadecimal(0xffff) =~= seq!['f', 'f', 'f', 'f']);
}

proof fn lemma_mapped_text_denotes_its_address(g: Seq<nat>, s: Seq<char>)
    requires
        g.len() == 8,
        forall|i: int| 0 <= i < g.len() ==> #[trigger] g[i] < 65536,
        zero_run(g, 0) == 5,
        g[5] == 0xffff,
        is_ipv6_text(g, s),
    ensures
        ipv6(s) == Some(g),
{
    let o = seq![g[6] / 256, g[6] % 256, g[7] / 256, g[7] % 256];
    let t = seq![0xffffnat];
    law_last_groups_may_be_dotted(t, o);
    law_zero_runs(g, 0);
    lemma_ffff();
    reveal_strlit("::ffff:");
    let dotted = ipv4_text(o);
    assert(groups_text(t) == hexadecimal(0xffff));
    assert("::ffff:"@ =~= seq![':', ':'] + (groups_text(t) + seq![':']));
    assert(s =~= seq![':', ':'] + (groups_text(t) + seq![':'] + dotted));
    assert(g[6] / 256 * 256 + g[6] % 256 == g[6]);
    assert(g[7] / 256 * 256 + g[7] % 256 == g[7]);
    assert(Seq::new(5, |i: int| 0nat) + t.push(g[6]).push(g[7]) =~= g);
}

/// The textual form of an IPv6 address denotes the address.
pub proof fn law_ipv6_texts_denote_their_address(g: Seq<nat>, s: Seq<char>)
    requires
        g.len() == 8,
        forall|i: int| 0 <= i < g.len() ==> #[trigger] g[i] < 65536,
        is_ipv6_text(g, s),
    ensures
        ipv6(s) == Some(g),
{
    law_zero_runs(g, 0);
    if zero_run(g, 0) == 5 && g[5] == 0xffff {
        lemma_mapped_text_denotes_its_address(g, s);
    } else {
        let start = choose|start: int| #[trigger]
            is_longest_run(g, start) && s == (if zero_run(g, start) > 1 {
                groups_text(g.take(start)) + "::"@ + groups_text(
                    g.skip(start + zero_run(g, start)),
                )
            } else {
                groups_text(g)
            });
        law_zero_runs(g, start);
        let run = zero_run(g, start);
        if run > 1 {
            reveal_strlit("::");
            assert("::"@ =~= seq![':', ':']);
            let h = g.take(start);
            let t = g.skip(start + run);
            law_groups_make_an_address(g, h, t);
            assert(h + Seq::new((8 - h.len() - t.len()) as nat, |i: int| 0nat) + t =~= g);
        } else {
            law_groups_make_an_address(g, Seq::empty(), Seq::empty());
        }
    }
}

/// The textual form of an address with a port: an IPv4 address, a colon and the port, or an IPv6
/// address in brackets, with a percent sign and the scope where there is one, a colon and the port.
pub proof fn law_socket_texts(a: SocketModel, s: Seq<char>, t: Seq<char>)
    ensures
        a.ip matches IpModel::V4(o) ==> (is_socket_text(a, s) <==> s == decimal(o[0]) + "."@ + decimal(
            o[1],
        ) + "."@ + decimal(o[2]) + "."@ + decimal(o[3]) + ":"@ + decimal(a.port)),
        a.ip matches IpModel::V6(g) ==> (is_ipv6_text(g, t) ==> {
            &&& a.scope_id == 0 ==> is_socket_text(a, "["@ + t + "]:"@ + decimal(a.port))
            &&& a.scope_id != 0 ==> is_socket_text(
                a,
                "["@ + t + "%"@ + decimal(a.scope_id) + "]:"@ + decimal(a.port),
            )
        }),
{
    if let IpModel::V6(g) = a.ip {
        if is_ipv6_text(g, t) {
            lemma_v6_socket_text(a, g, t, bracketed(t, a.scope_id, a.port));
        }
    }
}

/// A text is read as an IPv4 address first and as an IPv6 address otherwise.
pub proof fn law_addresses_of_either_family(s: Seq<char>)
    ensures
        ipv4(s) matches Some(o) ==> ip(s) == Some(IpModel::V4(o)),
        ipv4(s) is None && ipv6(s) is Some ==> ip(s) == Some(IpModel::V6(ipv6(s)->0)),
        ipv4(s) is None && ipv6(s) is None ==> ip(s) is None,
{
}

/// The loopback addresses are those of 127.0.0.0/8 and the IPv6 address with all groups zero but
/// the last, which is one.
pub proof fn law_loopback_addresses(o: Seq<nat>, g: Seq<nat>)
    requires
        o.len() == 4,
        g.len() == 8,
    ensures
        IpModel::V4(o).is_loopback() <==> o[0] == 127,
        IpModel::V6(g).is_loopback() <==> g[7] == 1 && forall|i: int| 0 <= i < 7 ==> #[trigger] g[i] == 0,
{
    let one = zeros(7).push(1);
    if g[7] == 1 && forall|i: int| 0 <= i < 7 ==> #[trigger] g[i] == 0 {
        assert(g =~= one);
    }
    if g == one {
        assert forall|i: int| 0 <= i < 7 implies #[trigger] g[i] == 0 by {
            assert(one[i] == 0);
        }
    }
}

/// A group is one to four hexadecimal digits, and nothing else.
pub proof fn law_hex_groups_are_digits(s: Seq<char>)
    ensures
        hex_group(s) is Some <==> 1 <= s.len() <= 4 && forall|i: int|
            0 <= i < s.len() ==> digit_value(#[trigger] s[i], 16) is Some,
{
    lemma_digits(s);
}

proof fn lemma_digits(s: Seq<char>)
    ensures
        digits_value(s, 16) is Some <==> forall|i: int|
            0 <= i < s.len() ==> digit_value(#[trigger] s[i], 16) is Some,
    decreases s.len(),
{
    if s.len() > 0 {
        let rest = s.drop_last();
        lemma_digits(rest);
        if digits_value(s, 16) is Some {
            assert forall|i: int| 0 <= i < s.len() implies digit_value(#[trigger] s[i], 16) is Some by {
                if i < s.len() - 1 {
                    assert(rest[i] == s[i]);
                }
            }
        }
        if forall|i: int| 0 <= i < s.len() ==> digit_value(#[trigger] s[i], 16) is Some {
            assert forall|i: int| 0 <= i < rest.len() implies digit_value(
                #[trigger] rest[i],
                16,
            ) is Some by {
                assert(rest[i] == s[i]);
            }
            assert(digit_value(s[s.len() - 1], 16) is Some);
        }
    }
}

} // verus!
