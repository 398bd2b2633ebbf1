//! Internet addresses as numbers, and their text forms.

use crate::text;
use crate::text::{chars_of, decimal_text, split_on, string_of};
use vstd::arithmetic::power2::*;
use vstd::prelude::*;

verus! {

/// An internet address, as the number that its bits make up.
#[derive(Clone, Copy, Debug, PartialEq, Eq, Structural)]
pub enum IpAddr {
    /// A version 4 address.
    V4(u32),
    /// A version 6 address.
    V6(u128),
}

impl IpAddr {
    /// Creates a version 4 address from its four numbers.
    pub fn v4(a: u8, b: u8, c: u8, d: u8) -> (r: Self)
        ensures
            r == IpAddr::V4(
                (a * 0x100_0000 + b * 0x1_0000 + c * 0x100 + d) as u32,
            ),
    {
        IpAddr::V4(a as u32 * 0x100_0000 + b as u32 * 0x1_0000 + c as u32 * 0x100 + d as u32)
    }

    /// Whether the address has version 4.
    pub fn is_ipv4(&self) -> (r: bool)
        ensures
            r == (self is V4),
    {
        matches!(self, IpAddr::V4(_))
    }

    /// Whether all bits of the address are zero.
    pub open spec fn unspecified(self) -> bool {
        self == IpAddr::V4(0) || self == IpAddr::V6(0)
    }

    /// Returns whether all bits of the address are zero.
    pub fn is_unspecified(&self) -> (r: bool)
        ensures
            r == self.unspecified(),
    {
        match self {
            IpAddr::V4(n) => *n == 0,
            IpAddr::V6(n) => *n == 0,
        }
    }

    /// Whether the address has version 6.
    pub fn is_ipv6(&self) -> (r: bool)
        ensures
            r == (self is V6),
    {
        matches!(self, IpAddr::V6(_))
    }
}

// -------------------------------------------------------------------------------- version 4

/// A piece of a version 4 address: one to three digits without leading zeros, at most 255.
pub open spec fn octet(s: Seq<char>) -> Option<nat> {
    if 1 <= s.len() <= 3 && text::all_digits(s) && (s.len() > 1 ==> s[0] != '0')
        && text::digits_value(s) <= 255 {
        Some(text::digits_value(s))
    } else {
        None
    }
}

/// The number of a version 4 address in its text form: four pieces with dots between them.
pub open spec fn v4_value(s: Seq<char>) -> Option<nat> {
    let p = text::split(s, '.');
    if p.len() == 4 {
        match (octet(p[0]), octet(p[1]), octet(p[2]), octet(p[3])) {
            (Some(a), Some(b), Some(c), Some(d)) => Some(
                a * 0x100_0000 + b * 0x1_0000 + c * 0x100 + d,
            ),
            _ => None,
        }
    } else {
        None
    }
}

/// The text form of a version 4 address.
pub open spec fn v4_text(n: nat) -> Seq<char> {
    text::decimal(n / 0x100_0000) + "."@ + text::decimal(n / 0x1_0000 % 0x100) + "."@
        + text::decimal(n / 0x100 % 0x100) + "."@ + text::decimal(n % 0x100)
}

fn parse_octet(s: &str) -> (r: Option<u32>)
    ensures
        match r {
            Some(n) => octet(s@) == Some(n as nat) && n <= 255,
            None => octet(s@) is None,
        },
{
    let v = chars_of(s);
    if v.len() == 0 || v.len() > 3 {
        return None;
    }
    if v.len() > 1 && v[0] == '0' {
        return None;
    }
    let mut n: u32 = 0;
    let mut i: usize = 0;
    while i < v.len()
        invariant
            i <= v@.len() <= 3,
            v@ == s@,
            n == text::digits_value(v@.take(i as int)),
            i == 0 ==> n == 0,
            i == 1 ==> n <= 9,
            i == 2 ==> n <= 99,
            i == 3 ==> n <= 999,
            forall|j: int| 0 <= j < i ==> text::is_digit(#[trigger] v@[j]),
        decreases v@.len() - i,
    {
        proof {
            assert(v@.take(i + 1).drop_last() == v@.take(i as int));
            assert(v@.take(i + 1).last() == v@[i as int]);
        }
        if !text::digit(v[i]) {
            return None;
        }
        n = n * 10 + (v[i] as u32 - 0x30);
        i += 1;
    }
    proof {
        assert(v@.take(i as int) == v@);
    }
    if n <= 255 {
        Some(n)
    } else {
        None
    }
}

/// Reads the text form of a version 4 address.
pub fn parse_v4(s: &str) -> (r: Option<u32>)
    ensures
        match r {
            Some(n) => v4_value(s@) == Some(n as nat),
            None => v4_value(s@) is None,
        },
{
    let p = split_on(s, '.');
    proof {
        assert(text::texts(p@).len() == p@.len());
        if p@.len() == 4 {
            assert(text::texts(p@)[0] == p@[0]@);
            assert(text::texts(p@)[1] == p@[1]@);
            assert(text::texts(p@)[2] == p@[2]@);
            assert(text::texts(p@)[3] == p@[3]@);
        }
    }
    if p.len() != 4 {
        return None;
    }
    let a = parse_octet(p[0].as_str());
    let b = parse_octet(p[1].as_str());
    let c = parse_octet(p[2].as_str());
    let d = parse_octet(p[3].as_str());
    match (a, b, c, d) {
        (Some(a), Some(b), Some(c), Some(d)) => Some(
            a * 0x100_0000 + b * 0x1_0000 + c * 0x100 + d,
        ),
        _ => None,
    }
}

/// Writes a version 4 address.
pub fn format_v4(n: u32) -> (r: String)
    ensures
        r@ == v4_text(n as nat),
{
    let mut out = decimal_text((n / 0x100_0000) as u64);
    out.append(".");
    out.append(decimal_text((n / 0x1_0000 % 0x100) as u64).as_str());
    out.append(".");
    out.append(decimal_text((n / 0x100 % 0x100) as u64).as_str());
    out.append(".");
    out.append(decimal_text((n % 0x100) as u64).as_str());
    out
}

// -------------------------------------------------------------------------------- version 6

/// The value of a hexadecimal digit.
pub open spec fn hex_value(c: char) -> nat {
    if text::is_digit(c) {
        (c as u32 - 0x30) as nat
    } else if 0x41 <= c as u32 <= 0x46 {
        (c as u32 - 0x37) as nat
    } else {
        (c as u32 - 0x57) as nat
    }
}

/// The number that hexadecimal digits stand for.
pub open spec fn hex_number(s: Seq<char>) -> nat
    decreases s.len(),
{
    if s.len() == 0 {
        0
    } else {
        hex_number(s.drop_last()) * 16 + hex_value(s.last())
    }
}

/// A group of a version 6 address: one to four hexadecimal digits.
pub open spec fn group(s: Seq<char>) -> Option<nat> {
    if 1 <= s.len() <= 4 && (forall|i: int| 0 <= i < s.len() ==> text::is_hex_digit(
        #[trigger] s[i],
    )) {
        Some(hex_number(s))
    } else {
        None
    }
}

/// The groups that pieces stand for. The last piece may be a version 4 address, which stands
/// for two groups.
pub open spec fn groups(p: Seq<Seq<char>>, dotted: bool) -> Option<Seq<nat>>
    decreases p.len(),
{
    if p.len() == 0 {
        Some(Seq::empty())
    } else {
        match groups(p.drop_last(), false) {
            None => None,
            Some(before) => match group(p.last()) {
                Some(n) => Some(before.push(n)),
                None => match v4_value(p.last()) {
                    Some(n) if dotted => Some(before.push(n / 0x1_0000).push(n % 0x1_0000)),
                    _ => None,
                },
            },
        }
    }
}

/// The groups of one side of a version 6 address; a side may be empty.
pub open spec fn side(s: Seq<char>, dotted: bool) -> Option<Seq<nat>> {
    if s.len() == 0 {
        Some(Seq::empty())
    } else {
        groups(text::split(s, ':'), dotted)
    }
}

/// The number that groups of sixteen bits make up.
pub open spec fn number_of_groups(g: Seq<nat>) -> nat
    decreases g.len(),
{
    if g.len() == 0 {
        0
    } else {
        number_of_groups(g.drop_last()) * 0x1_0000 + g.last()
    }
}

/// The position of the first two colons in a row; the length where there are none.
pub open spec fn gap(s: Seq<char>) -> int
    decreases s.len(),
{
    if s.len() < 2 {
        s.len() as int
    } else if s[0] == ':' && s[1] == ':' {
        0
    } else {
        1 + gap(s.drop_first())
    }
}

/// The number of a version 6 address in its text form: eight groups, or fewer with two colons
/// in a row for one or more groups of zero.
pub open spec fn v6_value(s: Seq<char>) -> Option<nat> {
    let at = gap(s);
    if at < s.len() {
        match (side(s.take(at), false), side(s.skip(at + 2), true)) {
            (Some(left), Some(right)) if left.len() + right.len() <= 7 => Some(
                number_of_groups(
                    left + Seq::new((8 - left.len() - right.len()) as nat, |i: int| 0nat) + right,
                ),
            ),
            _ => None,
        }
    } else {
        match side(s, true) {
            Some(all) if all.len() == 8 => Some(number_of_groups(all)),
            _ => None,
        }
    }
}

/// The groups of a version 6 address.
pub open spec fn segments(n: u128) -> Seq<nat> {
    Seq::new(8, |i: int| segment(n as nat, i))
}

/// One of the eight groups of a version 6 address.
pub open spec fn segment(n: nat, i: int) -> nat {
    if i == 0 {
        n / 0x1_0000_0000_0000_0000_0000_0000_0000
    } else if i == 1 {
        n / 0x1_0000_0000_0000_0000_0000_0000 % 0x1_0000
    } else if i == 2 {
        n / 0x1_0000_0000_0000_0000_0000 % 0x1_0000
    } else if i == 3 {
        n / 0x1_0000_0000_0000_0000 % 0x1_0000
    } else if i == 4 {
        n / 0x1_0000_0000_0000 % 0x1_0000
    } else if i == 5 {
        n / 0x1_0000_0000 % 0x1_0000
    } else if i == 6 {
        n / 0x1_0000 % 0x1_0000
    } else {
        n % 0x1_0000
    }
}

/// Hexadecimal notation without leading zeros.
pub open spec fn hex_text(n: nat) -> Seq<char>
    decreases n,
{
    if n < 16 {
        seq![text::hex_char(n, false)]
    } else {
        hex_text(n / 16).push(text::hex_char(n % 16, false))
    }
}

/// How many groups of zero stand from a position on.
pub open spec fn zeros_at(g: Seq<nat>, i: int) -> nat
    decreases g.len() - i,
{
    if 0 <= i < g.len() && g[i] == 0 {
        1 + zeros_at(g, i + 1)
    } else {
        0
    }
}

/// The first position, among the first `n`, from which the most zeros stand.
pub open spec fn longest_zeros(g: Seq<nat>, n: nat) -> int
    decreases n,
{
    if n <= 1 {
        0
    } else {
        let best = longest_zeros(g, (n - 1) as nat);
        if zeros_at(g, n - 1) > zeros_at(g, best) {
            n - 1
        } else {
            best
        }
    }
}

/// Groups in hexadecimal notation with colons between them.
pub open spec fn groups_text(g: Seq<nat>) -> Seq<char> {
    text::joined(Seq::new(g.len(), |i: int| hex_text(g[i])), ":"@)
}

/// The text form of a version 6 address. A mapped version 4 address ends in its dotted form;
/// else the first longest run of at least two groups of zero is left out.
pub open spec fn v6_text(n: u128) -> Seq<char> {
    let g = segments(n);
    let at = longest_zeros(g, 8);
    let run = zeros_at(g, at);
    if n / 0x1_0000_0000 == 0xffff {
        "::ffff:"@ + v4_text((n % 0x1_0000_0000) as nat)
    } else if run > 1 {
        groups_text(g.take(at)) + "::"@ + groups_text(g.skip(at + run))
    } else {
        groups_text(g)
    }
}

/// The address that a text form stands for.
pub open spec fn address_value(s: Seq<char>) -> Option<IpAddr> {
    match v4_value(s) {
        Some(n) => Some(IpAddr::V4(n as u32)),
        None => match v6_value(s) {
            Some(n) => Some(IpAddr::V6(n as u128)),
            None => None,
        },
    }
}

impl IpAddr {
    /// The text form of the address.
    pub open spec fn text(self) -> Seq<char> {
        match self {
            IpAddr::V4(n) => v4_text(n as nat),
            IpAddr::V6(n) => v6_text(n),
        }
    }
}

fn parse_group(s: &str) -> (r: Option<u16>)
    ensures
        match r {
            Some(n) => group(s@) == Some(n as nat),
            None => group(s@) is None,
        },
{
    let v = chars_of(s);
    if v.len() == 0 || v.len() > 4 {
        return None;
    }
    let mut n: u32 = 0;
    let mut i: usize = 0;
    while i < v.len()
        invariant
            i <= v@.len() <= 4,
            v@ == s@,
            n == hex_number(v@.take(i as int)),
            i == 0 ==> n == 0,
            i == 1 ==> n <= 0xf,
            i == 2 ==> n <= 0xff,
            i == 3 ==> n <= 0xfff,
            i == 4 ==> n <= 0xffff,
            forall|j: int| 0 <= j < i ==> text::is_hex_digit(#[trigger] v@[j]),
        decreases v@.len() - i,
    {
        proof {
            assert(v@.take(i + 1).drop_last() == v@.take(i as int));
            assert(v@.take(i + 1).last() == v@[i as int]);
        }
        if !text::hex_digit(v[i]) {
            return None;
        }
        let c: u32 = v[i] as u32;
        let d: u32 = if c <= 0x39 {
            c - 0x30
        } else if c <= 0x46 {
            c - 0x37
        } else {
            c - 0x57
        };
        n = n * 16 + d;
        i += 1;
    }
    proof {
        assert(v@.take(i as int) == v@);
    }
    Some(n as u16)
}

/// The groups in a vector, as numbers.
pub open spec fn group_values(v: Seq<u16>) -> Seq<nat> {
    Seq::new(v.len(), |i: int| v[i] as nat)
}

fn parse_side(s: &str, dotted: bool) -> (r: Option<Vec<u16>>)
    ensures
        match r {
            Some(v) => side(s@, dotted) == Some(group_values(v@)),
            None => side(s@, dotted) is None,
        },
{
    let mut out: Vec<u16> = Vec::new();
    if s.is_empty() {
        proof {
            assert(group_values(out@) == Seq::<nat>::empty());
        }
        return Some(out);
    }
    let p = split_on(s, ':');
    let ghost all = text::texts(p@);
    proof {
        assert(group_values(out@) == Seq::<nat>::empty());
    }
    let mut i: usize = 0;
    let last: usize = p.len() - 1;
    while i < last
        invariant
            p@.len() == all.len(),
            all == text::texts(p@),
            i <= last,
            last + 1 == p@.len(),
            all == text::split(s@, ':'),
            s@.len() > 0,
            groups(all.take(i as int), false) == Some(group_values(out@)),
        decreases last - i,
    {
        let ghost before = group_values(out@);
        proof {
            assert(all.take(i + 1).drop_last() == all.take(i as int));
            assert(all.take(i + 1).last() == p@[i as int]@);
        }
        match parse_group(p[i].as_str()) {
            Some(n) => {
                out.push(n);
                proof {
                    assert(group_values(out@) == before.push(n as nat));
                }
            },
            None => {
                proof {
                    assert(groups(all.take(i + 1), false) is None);
                    lemma_groups_prefix(all, i + 1, dotted);
                }
                return None;
            },
        }
        i += 1;
    }
    let ghost before = group_values(out@);
    proof {
        assert(all.drop_last() == all.take(last as int));
        assert(all.last() == p@[last as int]@);
    }
    match parse_group(p[last].as_str()) {
        Some(n) => {
            out.push(n);
            proof {
                assert(group_values(out@) == before.push(n as nat));
            }
            Some(out)
        },
        None => {
            if !dotted {
                return None;
            }
            match parse_v4(p[last].as_str()) {
                Some(n) => {
                    out.push((n / 0x1_0000) as u16);
                    out.push((n % 0x1_0000) as u16);
                    proof {
                        assert(group_values(out@) == before.push((n / 0x1_0000) as nat).push(
                            (n % 0x1_0000) as nat,
                        ));
                    }
                    Some(out)
                },
                None => None,
            }
        },
    }
}

proof fn lemma_groups_prefix(p: Seq<Seq<char>>, n: int, dotted: bool)
    requires
        0 <= n < p.len(),
        groups(p.take(n), false) is None,
    ensures
        groups(p, dotted) is None,
    decreases p.len(),
{
    if n < p.len() - 1 {
        assert(p.drop_last().take(n) == p.take(n));
        lemma_groups_prefix(p.drop_last(), n, false);
    } else {
        assert(p.drop_last() == p.take(n));
    }
}

/// The gap is where two colons first stand in a row.
pub proof fn lemma_gap(s: Seq<char>, at: int)
    requires
        0 <= at <= s.len(),
        at < s.len() ==> at + 1 < s.len() && s[at] == ':' && s[at + 1] == ':',
        forall|j: int| 0 <= j < at && j + 1 < s.len() ==> !(#[trigger] s[j] == ':' && s[j + 1] == ':'),
    ensures
        gap(s) == at,
    decreases s.len(),
{
    if s.len() >= 2 && at > 0 {
        assert(!(s[0int] == ':' && s[0int + 1] == ':'));
        let t = s.drop_first();
        assert forall|j: int| 0 <= j < at - 1 && j + 1 < t.len() implies !(#[trigger] t[j] == ':'
            && t[j + 1] == ':') by {
            assert(s[j + 1] == t[j] && s[j + 1 + 1] == t[j + 1]);
        }
        lemma_gap(t, at - 1);
    }
}

fn number_from(v: &[u16]) -> (r: u128)
    requires
        v@.len() == 8,
    ensures
        r == number_of_groups(group_values(v@)),
{
    let mut n: u128 = 0;
    let mut i: usize = 0;
    while i < v.len()
        invariant
            v@.len() == 8,
            i <= 8,
            n == number_of_groups(group_values(v@).take(i as int)),
            i == 0 ==> n == 0,
            i == 1 ==> n <= 0xffff,
            i == 2 ==> n <= 0xffff_ffff,
            i == 3 ==> n <= 0xffff_ffff_ffff,
            i == 4 ==> n <= 0xffff_ffff_ffff_ffff,
            i == 5 ==> n <= 0xffff_ffff_ffff_ffff_ffff,
            i == 6 ==> n <= 0xffff_ffff_ffff_ffff_ffff_ffff,
            i == 7 ==> n <= 0xffff_ffff_ffff_ffff_ffff_ffff_ffff,
        decreases 8 - i,
    {
        proof {
            let t = group_values(v@).take(i + 1);
            assert(t.drop_last() == group_values(v@).take(i as int));
            assert(t.last() == v@[i as int] as nat);
        }
        n = n * 0x1_0000 + v[i] as u128;
        i += 1;
    }
    proof {
        assert(group_values(v@).take(8) == group_values(v@));
    }
    n
}

/// Reads the text form of a version 6 address.
pub fn parse_v6(s: &str) -> (r: Option<u128>)
    ensures
        match r {
            Some(n) => v6_value(s@) == Some(n as nat),
            None => v6_value(s@) is None,
        },
{
    let v = chars_of(s);
    let total: usize = v.len();
    let mut at: usize = 0;
    let mut found: bool = false;
    while at < total && !found
        invariant
            v@ == s@,
            total == v@.len(),
            at <= total,
            found ==> at + 1 < total && v@[at as int] == ':' && v@[at + 1] == ':',
            forall|j: int|
                0 <= j < at && j + 1 < total ==> !(#[trigger] v@[j] == ':' && v@[j + 1] == ':'),
        decreases total - at, (if found { 0int } else { 1int }),
    {
        if at < total - 1 && v[at] == ':' && v[at + 1] == ':' {
            found = true;
        } else {
            at += 1;
        }
    }
    proof {
        lemma_gap(s@, at as int);
    }
    if found {
        let left_chars = vstd::slice::slice_subrange(v.as_slice(), 0, at);
        let right_chars = vstd::slice::slice_subrange(v.as_slice(), at + 2, total);
        proof {
            assert(left_chars@ == s@.take(at as int));
            assert(right_chars@ == s@.skip(at + 2));
        }
        let left_text = string_of(left_chars);
        let right_text = string_of(right_chars);
        let left = parse_side(left_text.as_str(), false);
        let right = parse_side(right_text.as_str(), true);
        match (left, right) {
            (Some(left), Some(right)) => {
                if left.len() > 7 || right.len() > 7 - left.len() {
                    return None;
                }
                let ghost l = group_values(left@);
                let ghost r = group_values(right@);
                let ghost zeros = Seq::new((8 - l.len() - r.len()) as nat, |i: int| 0nat);
                let mut all = left;
                let missing: usize = 8 - all.len() - right.len();
                let mut k: usize = 0;
                proof {
                    assert(group_values(all@) == l + zeros.take(0));
                }
                while k < missing
                    invariant
                        k <= missing,
                        missing == zeros.len(),
                        zeros == Seq::new(missing as nat, |i: int| 0nat),
                        group_values(all@) == l + zeros.take(k as int),
                    decreases missing - k,
                {
                    let ghost before = group_values(all@);
                    all.push(0);
                    proof {
                        assert(group_values(all@) == before.push(0));
                        assert(zeros.take(k + 1) == zeros.take(k as int).push(0));
                    }
                    k += 1;
                }
                proof {
                    assert(zeros.take(k as int) == zeros);
                }
                let mut j: usize = 0;
                proof {
                    assert(r.take(0) == Seq::<nat>::empty());
                    assert(group_values(all@) == l + zeros + r.take(0));
                }
                while j < right.len()
                    invariant
                        j <= right@.len(),
                        r == group_values(right@),
                        group_values(all@) == l + zeros + r.take(j as int),
                    decreases right@.len() - j,
                {
                    let ghost before = group_values(all@);
                    all.push(right[j]);
                    proof {
                        assert(group_values(all@) == before.push(r[j as int]));
                        assert(r.take(j + 1) == r.take(j as int).push(r[j as int]));
                    }
                    j += 1;
                }
                proof {
                    assert(r.take(j as int) == r);
                    assert(group_values(all@).len() == 8);
                }
                Some(number_from(all.as_slice()))
            },
            _ => None,
        }
    } else {
        match parse_side(s, true) {
            Some(all) => {
                if all.len() == 8 {
                    Some(number_from(all.as_slice()))
                } else {
                    None
                }
            },
            None => None,
        }
    }
}

/// Reads the text form of an address.
pub fn parse_address(s: &str) -> (r: Option<IpAddr>)
    ensures
        r == address_value(s@),
{
    match parse_v4(s) {
        Some(n) => Some(IpAddr::V4(n)),
        None => match parse_v6(s) {
            Some(n) => Some(IpAddr::V6(n)),
            None => None,
        },
    }
}

fn hex_digits(n: u16) -> (r: String)
    ensures
        r@ == hex_text(n as nat),
    decreases n,
{
    let mut out = if n < 16 {
        String::new()
    } else {
        hex_digits(n / 16)
    };
    text::push_hex_digit(&mut out, (n % 16) as u8, false);
    proof {
        if n < 16 {
            assert(out@ == hex_text(n as nat));
        }
    }
    out
}

fn format_groups(v: &[u16]) -> (r: String)
    ensures
        r@ == groups_text(group_values(v@)),
{
    let ghost g = group_values(v@);
    let ghost pieces = Seq::new(g.len(), |i: int| hex_text(g[i]));
    let mut out = String::new();
    let mut i: usize = 0;
    while i < v.len()
        invariant
            i <= v@.len(),
            g == group_values(v@),
            pieces == Seq::new(g.len(), |i: int| hex_text(g[i])),
            out@ == text::joined(pieces.take(i as int), ":"@),
        decreases v@.len() - i,
    {
        proof {
            assert(pieces.take(i + 1).drop_last() == pieces.take(i as int));
            assert(pieces.take(i + 1).last() == hex_text(v@[i as int] as nat));
        }
        if i > 0 {
            out.append(":");
        }
        out.append(hex_digits(v[i]).as_str());
        proof {
            if i == 0 {
                assert(pieces.take(1)[0] == pieces[0]);
                assert(out@ == pieces[0]);
            }
        }
        i += 1;
    }
    proof {
        assert(pieces.take(i as int) == pieces);
    }
    out
}

fn count_zeros(v: &[u16], i: usize) -> (r: usize)
    requires
        i <= v@.len(),
    ensures
        r == zeros_at(group_values(v@), i as int),
        i + r <= v@.len(),
    decreases v@.len() - i,
{
    if i < v.len() && v[i] == 0 {
        1 + count_zeros(v, i + 1)
    } else {
        0
    }
}

/// Writes a version 6 address.
pub fn format_v6(n: u128) -> (r: String)
    ensures
        r@ == v6_text(n),
{
    if n / 0x1_0000_0000 == 0xffff {
        let mut out = "::ffff:".to_owned();
        out.append(format_v4((n % 0x1_0000_0000) as u32).as_str());
        return out;
    }
    let mut v: Vec<u16> = Vec::new();
    v.push((n / 0x1_0000_0000_0000_0000_0000_0000_0000) as u16);
    v.push((n / 0x1_0000_0000_0000_0000_0000_0000 % 0x1_0000) as u16);
    v.push((n / 0x1_0000_0000_0000_0000_0000 % 0x1_0000) as u16);
    v.push((n / 0x1_0000_0000_0000_0000 % 0x1_0000) as u16);
    v.push((n / 0x1_0000_0000_0000 % 0x1_0000) as u16);
    v.push((n / 0x1_0000_0000 % 0x1_0000) as u16);
    v.push((n / 0x1_0000 % 0x1_0000) as u16);
    v.push((n % 0x1_0000) as u16);
    let ghost g = segments(n);
    proof {
        assert(group_values(v@) =~= g);
    }
    let mut best: usize = 0;
    let mut run: usize = count_zeros(v.as_slice(), 0);
    let mut i: usize = 1;
    while i < 8
        invariant
            v@.len() == 8,
            g == group_values(v@),
            1 <= i <= 8,
            best < 8,
            best == longest_zeros(g, i as nat),
            run == zeros_at(g, best as int),
            best + run <= 8,
        decreases 8 - i,
    {
        let here: usize = count_zeros(v.as_slice(), i);
        if here > run {
            best = i;
            run = here;
        }
        i += 1;
    }
    if run > 1 {
        let left = vstd::slice::slice_subrange(v.as_slice(), 0, best);
        let right = vstd::slice::slice_subrange(v.as_slice(), best + run, 8);
        proof {
            assert(group_values(left@) == g.take(best as int));
            assert(group_values(right@) == g.skip(best + run));
        }
        let mut out = format_groups(left);
        out.append("::");
        out.append(format_groups(right).as_str());
        out
    } else {
        format_groups(v.as_slice())
    }
}

/// Writes an address.
pub fn format_address(a: &IpAddr) -> (r: String)
    ensures
        r@ == a.text(),
{
    match a {
        IpAddr::V4(n) => format_v4(*n),
        IpAddr::V6(n) => format_v6(*n),
    }
}

// ------------------------------------------------------------------------------ characters

/// The characters that the text of an address is made of.
pub open spec fn is_address_char(c: char) -> bool {
    '0' <= c <= '9' || 'a' <= c <= 'f' || c == '.' || c == ':'
}

/// Whether a text is made of the characters of addresses.
pub open spec fn address_chars(s: Seq<char>) -> bool {
    forall|i: int| 0 <= i < s.len() ==> is_address_char(#[trigger] s[i])
}

proof fn lemma_decimal_chars(n: nat)
    ensures
        address_chars(text::decimal(n)),
        text::decimal(n).len() > 0,
    decreases n,
{
    if n >= 10 {
        lemma_decimal_chars(n / 10);
    }
}

proof fn lemma_hex_chars(n: nat)
    ensures
        address_chars(hex_text(n)),
        hex_text(n).len() > 0,
    decreases n,
{
    if n >= 16 {
        lemma_hex_chars(n / 16);
    }
}

proof fn lemma_joined_chars(pieces: Seq<Seq<char>>, separator: Seq<char>)
    requires
        forall|i: int| 0 <= i < pieces.len() ==> address_chars(#[trigger] pieces[i]),
        address_chars(separator),
    ensures
        address_chars(text::joined(pieces, separator)),
    decreases pieces.len(),
{
    if pieces.len() == 1 {
        assert(address_chars(pieces[0]));
    } else if pieces.len() > 1 {
        let head = pieces.drop_last();
        assert forall|i: int| 0 <= i < head.len() implies address_chars(#[trigger] head[i]) by {
            assert(head[i] == pieces[i]);
        }
        lemma_joined_chars(head, separator);
        assert(address_chars(pieces.last()));
    }
}

proof fn lemma_groups_chars(g: Seq<nat>)
    ensures
        address_chars(groups_text(g)),
{
    reveal_strlit(":");
    let pieces = Seq::new(g.len(), |i: int| hex_text(g[i]));
    assert forall|i: int| 0 <= i < pieces.len() implies address_chars(#[trigger] pieces[i]) by {
        lemma_hex_chars(g[i]);
    }
    lemma_joined_chars(pieces, ":"@);
}

proof fn lemma_v4_chars(n: nat)
    ensures
        address_chars(v4_text(n)),
        v4_text(n).len() > 0,
{
    reveal_strlit(".");
    lemma_decimal_chars(n / 0x100_0000);
    lemma_decimal_chars(n / 0x1_0000 % 0x100);
    lemma_decimal_chars(n / 0x100 % 0x100);
    lemma_decimal_chars(n % 0x100);
}

/// The text of an address is not empty and holds nothing but digits, the letters `a` to `f`,
/// dots and colons.
pub proof fn law_address_text_is_plain(address: IpAddr)
    ensures
        address_chars(address.text()),
        address.text().len() > 0,
{
    match address {
        IpAddr::V4(n) => {
            lemma_v4_chars(n as nat);
        },
        IpAddr::V6(n) => {
            let g = segments(n);
            let at = longest_zeros(g, 8);
            let run = zeros_at(g, at);
            if n / 0x1_0000_0000 == 0xffff {
                reveal_strlit("::ffff:");
                lemma_v4_chars((n % 0x1_0000_0000) as nat);
            } else if run > 1 {
                reveal_strlit("::");
                lemma_groups_chars(g.take(at));
                lemma_groups_chars(g.skip(at + run));
            } else {
                lemma_groups_chars(g);
                let pieces = Seq::new(g.len(), |i: int| hex_text(g[i]));
                lemma_joined_filled(pieces, ":"@);
            }
        },
    }
}

proof fn lemma_joined_filled(pieces: Seq<Seq<char>>, separator: Seq<char>)
    requires
        pieces.len() > 1,
    ensures
        text::joined(pieces, separator).len() >= separator.len(),
        separator == ":"@ ==> text::joined(pieces, separator).len() > 0,
{
    reveal_strlit(":");
}

// ---------------------------------------------------------------------------------- masks

/// The mask of a prefix: ones for the length of the prefix, from the top, then zeros.
pub open spec fn netmask(prefix: nat) -> nat
    recommends
        prefix <= 32,
{
    (0x1_0000_0000 - pow2((32 - prefix) as nat)) as nat
}

proof fn lemma_halves(k: nat)
    requires
        k > 0,
    ensures
        pow2(k) == 2 * pow2((k - 1) as nat),
        pow2((k - 1) as nat) > 0,
{
    lemma_pow2_unfold(k);
    lemma_pow2_pos((k - 1) as nat);
}

/// Computes the mask of a prefix.
pub fn mask_of(prefix: u8) -> (r: u32)
    requires
        prefix <= 32,
    ensures
        r == netmask(prefix as nat),
{
    let mut block: u64 = 0x1_0000_0000;
    let mut i: u8 = 0;
    proof {
        lemma2_to64();
    }
    while i < prefix
        invariant
            i <= prefix <= 32,
            block == pow2((32 - i) as nat),
            block <= 0x1_0000_0000,
        decreases prefix - i,
    {
        proof {
            lemma_halves((32 - i) as nat);
        }
        block = block / 2;
        i += 1;
    }
    proof {
        lemma_pow2_pos((32 - prefix) as nat);
    }
    (0x1_0000_0000 - block) as u32
}

/// The masks of longer prefixes are larger.
pub proof fn law_netmask_increases(a: nat, b: nat)
    requires
        a < b <= 32,
    ensures
        netmask(a) < netmask(b) <= u32::MAX,
{
    lemma_pow2_strictly_increases((32 - b) as nat, (32 - a) as nat);
    lemma_pow2_pos((32 - b) as nat);
    lemma2_to64();
    if a > 0 {
        lemma_pow2_strictly_increases((32 - a) as nat, 32);
    }
}

/// The length of the prefix whose mask a number is, if it is one.
pub open spec fn is_mask_of(mask: nat, prefix: nat) -> bool {
    prefix <= 32 && netmask(prefix) == mask
}

/// Finds the length of the prefix whose mask a number is.
pub fn prefix_of_mask(mask: u32) -> (r: Option<u8>)
    ensures
        match r {
            Some(p) => is_mask_of(mask as nat, p as nat),
            None => forall|p: nat| !is_mask_of(mask as nat, p),
        },
{
    let mut p: u8 = 0;
    while p <= 32
        invariant
            p <= 33,
            forall|q: nat| q < p ==> !is_mask_of(mask as nat, q),
        decreases 33 - p,
    {
        if mask_of(p) == mask {
            return Some(p);
        }
        p += 1;
    }
    None
}

/// A mask determines its prefix: the one that is found for the mask of a prefix is that
/// prefix.
pub proof fn law_mask_determines_prefix(a: nat, b: nat)
    requires
        a <= 32,
        is_mask_of(netmask(a), b),
    ensures
        a == b,
{
    if a < b {
        law_netmask_increases(a, b);
    } else if b < a {
        law_netmask_increases(b, a);
    }
}

} // verus!
