//! Addresses are read back as they were written.

use crate::net;
use crate::net::IpAddr;
use crate::text;
use crate::text_laws;
use vstd::arithmetic::div_mod::{lemma_div_denominator, lemma_fundamental_div_mod_converse};
use vstd::arithmetic::power2::*;
use vstd::prelude::*;

verus! {

// ----------------------------------------------------------------------------------- version 4

proof fn lemma_octet(k: nat)
    requires
        k < 256,
    ensures
        net::octet(text::decimal(k)) == Some(k),
        !text::decimal(k).contains('.'),
        !text::decimal(k).contains(':'),
        1 <= text::decimal(k).len() <= 3,
{
    text::lemma_decimal_value(k);
    text_laws::law_numbers_are_read_back(k, k);
    reveal_with_fuel(text::decimal, 3);
    lemma_no_sign(text::decimal(k), '.');
    lemma_no_sign(text::decimal(k), ':');
}

proof fn lemma_no_sign(s: Seq<char>, c: char)
    requires
        c == '.' || c == ':',
        forall|i: int| 0 <= i < s.len() ==> text::is_hex_digit(#[trigger] s[i]) || text::is_digit(
            s[i],
        ),
    ensures
        !s.contains(c),
{
    if s.contains(c) {
        let i = choose|i: int| 0 <= i < s.len() && s[i] == c;
        assert(text::is_hex_digit(s[i]) || text::is_digit(s[i]));
    }
}

/// The four numbers of a version 4 address.
pub open spec fn octets_of(n: nat) -> Seq<nat> {
    seq![n / 0x100_0000, n / 0x1_0000 % 0x100, n / 0x100 % 0x100, n % 0x100]
}

proof fn lemma_v4_pieces(n: nat)
    requires
        n < 0x1_0000_0000,
    ensures
        text::split(net::v4_text(n), '.') == seq![
            text::decimal(n / 0x100_0000),
            text::decimal(n / 0x1_0000 % 0x100),
            text::decimal(n / 0x100 % 0x100),
            text::decimal(n % 0x100),
        ],
{
    reveal_strlit(".");
    assert("."@ =~= seq!['.']);
    let a = text::decimal(n / 0x100_0000);
    let b = text::decimal(n / 0x1_0000 % 0x100);
    let c = text::decimal(n / 0x100 % 0x100);
    let d = text::decimal(n % 0x100);
    lemma_octet(n / 0x100_0000);
    lemma_octet(n / 0x1_0000 % 0x100);
    lemma_octet(n / 0x100 % 0x100);
    lemma_octet(n % 0x100);
    text_laws::lemma_split_one(a, '.');
    text_laws::lemma_split_behind(a, b, '.');
    let ab = a + "."@ + b;
    text_laws::lemma_split_behind(ab, c, '.');
    let abc = ab + "."@ + c;
    text_laws::lemma_split_behind(abc, d, '.');
    assert(seq![a].push(b).push(c).push(d) =~= seq![a, b, c, d]);
}

/// A version 4 address is written as four numbers of eight bits with dots between them, the
/// highest first, and is read back as it was written.
pub proof fn law_version_4_is_read_back(n: u32)
    ensures
        net::v4_value(net::v4_text(n as nat)) == Some(n as nat),
        net::address_value(net::v4_text(n as nat)) == Some(IpAddr::V4(n)),
        text::split(net::v4_text(n as nat), '.') == seq![
            text::decimal((n / 0x100_0000) as nat),
            text::decimal((n / 0x1_0000 % 0x100) as nat),
            text::decimal((n / 0x100 % 0x100) as nat),
            text::decimal((n % 0x100) as nat),
        ],
{
    let m = n as nat;
    lemma_v4_pieces(m);
    lemma_octet(m / 0x100_0000);
    lemma_octet(m / 0x1_0000 % 0x100);
    lemma_octet(m / 0x100 % 0x100);
    lemma_octet(m % 0x100);
    lemma_sum(m);
}

proof fn lemma_sum(m: nat)
    ensures
        m == m / 0x100_0000 * 0x100_0000 + m / 0x1_0000 % 0x100 * 0x1_0000 + m / 0x100 % 0x100
            * 0x100 + m % 0x100,
{
    lemma_div_denominator(m as int, 0x100, 0x100);
    lemma_div_denominator(m as int, 0x1_0000, 0x100);
    let h1 = m / 0x100;
    let h2 = m / 0x1_0000;
    let h3 = m / 0x100_0000;
    assert(h1 / 0x100 == h2);
    assert(h2 / 0x100 == h3);
    assert(m == h1 * 0x100 + m % 0x100);
    assert(h1 == h2 * 0x100 + h1 % 0x100);
    assert(h2 == h3 * 0x100 + h2 % 0x100);
}

/// What is read as a version 4 address has four numbers of at most 255 without leading zeros,
/// and is what that address is written as.
pub proof fn law_version_4_has_one_form(s: Seq<char>)
    ensures
        net::v4_value(s) matches Some(n) ==> n < 0x1_0000_0000 && net::v4_text(n) == s,
{
    if let Some(n) = net::v4_value(s) {
        let p = text::split(s, '.');
        let a = net::octet(p[0])->0;
        let b = net::octet(p[1])->0;
        let c = net::octet(p[2])->0;
        let d = net::octet(p[3])->0;
        lemma_digits_are_written(p[0]);
        lemma_digits_are_written(p[1]);
        lemma_digits_are_written(p[2]);
        lemma_digits_are_written(p[3]);
        lemma_parts(n, a, b, c, d);
        text_laws::law_pieces_are_put_together_again(s, '.');
        reveal_strlit(".");
        assert("."@ =~= seq!['.']);
        lemma_four(p, "."@);
    }
}

proof fn lemma_parts(n: nat, a: nat, b: nat, c: nat, d: nat)
    requires
        a <= 255 && b <= 255 && c <= 255 && d <= 255,
        n == a * 0x100_0000 + b * 0x1_0000 + c * 0x100 + d,
    ensures
        n / 0x100_0000 == a,
        n / 0x1_0000 % 0x100 == b,
        n / 0x100 % 0x100 == c,
        n % 0x100 == d,
        n < 0x1_0000_0000,
{
    let x = n as int;
    let ab = a * 0x100 + b;
    let abc = ab * 0x100 + c;
    lemma_fundamental_div_mod_converse(x, 0x100_0000, a as int, (b * 0x1_0000 + c * 0x100 + d) as int);
    lemma_fundamental_div_mod_converse(x, 0x1_0000, ab as int, (c * 0x100 + d) as int);
    lemma_fundamental_div_mod_converse(x, 0x100, abc as int, d as int);
    lemma_fundamental_div_mod_converse(ab as int, 0x100, a as int, b as int);
    lemma_fundamental_div_mod_converse(abc as int, 0x100, ab as int, c as int);
}

proof fn lemma_four(p: Seq<Seq<char>>, separator: Seq<char>)
    requires
        p.len() == 4,
    ensures
        text::joined(p, separator) == p[0] + separator + p[1] + separator + p[2] + separator + p[3],
{
    let p3 = p.drop_last();
    let p2 = p3.drop_last();
    let p1 = p2.drop_last();
    assert(text::joined(p1, separator) == p1[0]);
    assert(text::joined(p2, separator) == p1[0] + separator + p2.last());
    assert(text::joined(p3, separator) == text::joined(p2, separator) + separator + p3.last());
}

proof fn lemma_digits_are_written(s: Seq<char>)
    requires
        s.len() > 0,
        text::all_digits(s),
        s.len() > 1 ==> s[0] != '0',
    ensures
        text::decimal(text::digits_value(s)) == s,
        s[0] != '0' ==> text::digits_value(s) > 0,
    decreases s.len(),
{
    let t = s.drop_last();
    let d = (s.last() as u32 - 0x30) as nat;
    assert(text::is_digit(s[s.len() - 1]));
    lemma_digit(s.last());
    lemma_zero(s[0]);
    if s.len() == 1 {
        reveal_with_fuel(text::digits_value, 2);
        assert(t =~= Seq::<char>::empty());
        assert(text::decimal(d) =~= s);
    } else {
        assert(t[0] == s[0]);
        assert forall|i: int| 0 <= i < t.len() implies text::is_digit(#[trigger] t[i]) by {
            assert(t[i] == s[i]);
        }
        lemma_digits_are_written(t);
        assert(text::decimal(text::digits_value(s)) =~= s);
    }
}

proof fn lemma_digit(c: char)
    requires
        text::is_digit(c),
    ensures
        text::digit_char((c as u32 - 0x30) as nat) == c,
        c as u32 - 0x30 <= 9,
{
}

proof fn lemma_zero(c: char)
    ensures
        c as u32 == 0x30 <==> c == '0',
{
}

// ----------------------------------------------------------------------------------- version 6

proof fn lemma_hex_char(n: nat)
    requires
        n < 16,
    ensures
        text::is_hex_digit(text::hex_char(n, false)),
        net::hex_value(text::hex_char(n, false)) == n,
{
}

proof fn lemma_hex_text(k: nat)
    ensures
        net::hex_number(net::hex_text(k)) == k,
        net::hex_text(k).len() >= 1,
        forall|i: int|
            0 <= i < net::hex_text(k).len() ==> text::is_hex_digit(#[trigger] net::hex_text(k)[i]),
    decreases k,
{
    let s = net::hex_text(k);
    if k < 16 {
        lemma_hex_char(k);
        reveal_with_fuel(net::hex_number, 2);
        assert(s.drop_last() =~= Seq::<char>::empty());
    } else {
        lemma_hex_text(k / 16);
        lemma_hex_char(k % 16);
        assert(s.drop_last() =~= net::hex_text(k / 16));
        assert forall|i: int| 0 <= i < s.len() implies text::is_hex_digit(#[trigger] s[i]) by {
            if i < s.len() - 1 {
                assert(s[i] == net::hex_text(k / 16)[i]);
            }
        }
    }
}

proof fn lemma_group(k: nat)
    requires
        k < 0x1_0000,
    ensures
        net::group(net::hex_text(k)) == Some(k),
        !net::hex_text(k).contains(':'),
        !net::hex_text(k).contains('.'),
        net::hex_text(k).len() >= 1,
{
    lemma_hex_text(k);
    reveal_with_fuel(net::hex_text, 4);
    lemma_no_sign(net::hex_text(k), ':');
    lemma_no_sign(net::hex_text(k), '.');
}

/// Whether groups have sixteen bits each.
spec fn narrow(g: Seq<nat>) -> bool {
    forall|i: int| 0 <= i < g.len() ==> #[trigger] g[i] < 0x1_0000
}

spec fn pieces_of(g: Seq<nat>) -> Seq<Seq<char>> {
    Seq::new(g.len(), |i: int| net::hex_text(g[i]))
}

proof fn lemma_groups(g: Seq<nat>, dotted: bool)
    requires
        narrow(g),
    ensures
        net::groups(pieces_of(g), dotted) == Some(g),
    decreases g.len(),
{
    let p = pieces_of(g);
    if g.len() > 0 {
        let h = g.drop_last();
        assert forall|i: int| 0 <= i < h.len() implies #[trigger] h[i] < 0x1_0000 by {
            assert(h[i] == g[i]);
        }
        lemma_groups(h, false);
        assert(p.drop_last() =~= pieces_of(h));
        assert(g[g.len() - 1] < 0x1_0000);
        lemma_group(g.last());
        assert(h.push(g.last()) =~= g);
    } else {
        assert(g =~= Seq::<nat>::empty());
    }
}

/// A text of groups has no two colons in a row, none at its ends, and no dot.
proof fn lemma_groups_text(g: Seq<nat>)
    requires
        narrow(g),
    ensures
        ({
            let s = net::groups_text(g);
            &&& s.len() == 0 <==> g.len() == 0
            &&& s.len() > 0 ==> s[0] != ':' && s.last() != ':'
            &&& forall|i: int|
                0 <= i && i + 1 < s.len() ==> !(#[trigger] s[i] == ':' && s[i + 1] == ':')
            &&& !s.contains('.')
        }),
    decreases g.len(),
{
    reveal_strlit(":");
    assert(":"@ =~= seq![':']);
    let p = pieces_of(g);
    let s = net::groups_text(g);
    assert(s == text::joined(p, ":"@));
    if g.len() > 0 {
        let last = net::hex_text(g.last());
        assert(g[g.len() - 1] < 0x1_0000);
        lemma_group(g.last());
        assert(p.last() == last);
        assert forall|i: int| 0 <= i < last.len() implies #[trigger] last[i] != ':' && last[i]
            != '.' by {
            assert(last.contains(last[i]));
        }
        if g.len() == 1 {
            assert(s == last);
        } else {
            let h = g.drop_last();
            assert forall|i: int| 0 <= i < h.len() implies #[trigger] h[i] < 0x1_0000 by {
                assert(h[i] == g[i]);
            }
            lemma_groups_text(h);
            let t = net::groups_text(h);
            assert(p.drop_last() =~= pieces_of(h));
            assert(s == t + ":"@ + last);
            assert forall|i: int| 0 <= i && i + 1 < s.len() implies !(#[trigger] s[i] == ':' && s[i
                + 1] == ':') by {
                if i + 1 < t.len() {
                    assert(t[i] == s[i] && t[i + 1] == s[i + 1]);
                } else if i < t.len() {
                    assert(s[i] == t.last());
                } else if i > t.len() {
                    assert(s[i] == last[i - t.len() - 1]);
                } else {
                    assert(s[i + 1] == last[0]);
                }
            }
            assert(s[0] == t[0]);
            assert(s.last() == last[last.len() - 1]);
            if s.contains('.') {
                let i = choose|i: int| 0 <= i < s.len() && s[i] == '.';
                if i < t.len() {
                    assert(t.contains(t[i]));
                } else if i > t.len() {
                    assert(s[i] == last[i - t.len() - 1]);
                }
            }
        }
    }
}

proof fn lemma_side(g: Seq<nat>, dotted: bool)
    requires
        narrow(g),
    ensures
        net::side(net::groups_text(g), dotted) == Some(g),
{
    lemma_groups_text(g);
    if g.len() > 0 {
        reveal_strlit(":");
        assert(":"@ =~= seq![':']);
        let p = pieces_of(g);
        assert forall|i: int| 0 <= i < p.len() implies !(#[trigger] p[i]).contains(':') by {
            assert(g[i] < 0x1_0000);
            lemma_group(g[i]);
        }
        text_laws::law_joined_texts_are_cut_apart_again(p, ':');
        lemma_groups(g, dotted);
    } else {
        assert(g =~= Seq::<nat>::empty());
    }
}

proof fn lemma_segments(n: u128)
    ensures
        narrow(net::segments(n)),
        net::segments(n).len() == 8,
        net::number_of_groups(net::segments(n)) == n,
{
    let m = n as nat;
    let g = net::segments(n);
    let m1 = m / 0x1_0000;
    let m2 = m / 0x1_0000_0000;
    let m3 = m / 0x1_0000_0000_0000;
    let m4 = m / 0x1_0000_0000_0000_0000;
    let m5 = m / 0x1_0000_0000_0000_0000_0000;
    let m6 = m / 0x1_0000_0000_0000_0000_0000_0000;
    let m7 = m / 0x1_0000_0000_0000_0000_0000_0000_0000;
    assert(m7 < 0x1_0000);
    assert(m == m1 * 0x1_0000 + g[7]);
    assert(m1 == m2 * 0x1_0000 + g[6]);
    assert(m2 == m3 * 0x1_0000 + g[5]);
    assert(m3 == m4 * 0x1_0000 + g[4]);
    assert(m4 == m5 * 0x1_0000 + g[3]);
    assert(m5 == m6 * 0x1_0000 + g[2]);
    assert(m6 == m7 * 0x1_0000 + g[1]);
    assert(m7 == g[0]);
    lemma_eight(g);
}

proof fn lemma_eight(g: Seq<nat>)
    requires
        g.len() == 8,
    ensures
        net::number_of_groups(g) == ((((((g[0] * 0x1_0000 + g[1]) * 0x1_0000 + g[2]) * 0x1_0000
            + g[3]) * 0x1_0000 + g[4]) * 0x1_0000 + g[5]) * 0x1_0000 + g[6]) * 0x1_0000 + g[7],
{
    reveal_with_fuel(net::number_of_groups, 9);
    let g7 = g.drop_last();
    let g6 = g7.drop_last();
    let g5 = g6.drop_last();
    let g4 = g5.drop_last();
    let g3 = g4.drop_last();
    let g2 = g3.drop_last();
    let g1 = g2.drop_last();
    assert(g.last() == g[7] && g7.last() == g[6] && g6.last() == g[5] && g5.last() == g[4]
        && g4.last() == g[3] && g3.last() == g[2] && g2.last() == g[1] && g1.last() == g[0]);
    assert(net::number_of_groups(g1) == g[0]);
}

/// Whether a stretch of groups is zero.
pub open spec fn zero_between(g: Seq<nat>, from: int, to: int) -> bool {
    forall|i: int| from <= i < to ==> #[trigger] g[i] == 0
}

proof fn lemma_zeros(g: Seq<nat>, at: int)
    requires
        0 <= at <= g.len(),
    ensures
        at + net::zeros_at(g, at) <= g.len(),
        zero_between(g, at, at + net::zeros_at(g, at)),
        at + net::zeros_at(g, at) < g.len() ==> g[at + net::zeros_at(g, at)] != 0,
    decreases g.len() - at,
{
    if at < g.len() && g[at] == 0 {
        lemma_zeros(g, at + 1);
    }
}

proof fn lemma_longest(g: Seq<nat>, n: nat)
    requires
        1 <= n <= g.len(),
    ensures
        ({
            let at = net::longest_zeros(g, n);
            &&& 0 <= at < n
            &&& forall|i: int|
                0 <= i < n ==> #[trigger] net::zeros_at(g, i) <= net::zeros_at(g, at)
            &&& forall|i: int|
                0 <= i < at ==> #[trigger] net::zeros_at(g, i) < net::zeros_at(g, at)
        }),
    decreases n,
{
    if n > 1 {
        lemma_longest(g, (n - 1) as nat);
    }
}

/// Which zeros the text form of a version 6 address leaves out: of an address that is not a
/// mapped version 4 address, the first of the longest stretches of two groups or more. The
/// other groups are written out in hexadecimal notation with colons between them.
pub proof fn law_first_longest_zeros_are_left_out(n: u128, from: int, to: int)
    requires
        !(0xffff_0000_0000 <= n <= 0xffff_ffff_ffff),
        0 <= from <= to <= 8,
        zero_between(net::segments(n), from, to),
    ensures
        ({
            let g = net::segments(n);
            ||| {
                &&& net::v6_text(n) == net::groups_text(g)
                &&& to - from <= 1
            }
            ||| exists|at: int, end: int|
                {
                    &&& 0 <= at && at + 2 <= end && end <= 8
                    &&& #[trigger] zero_between(g, at, end)
                    &&& net::v6_text(n) == net::groups_text(g.take(at)) + "::"@ + net::groups_text(
                        g.skip(end),
                    )
                    &&& to - from <= end - at
                    &&& from < at ==> to - from < end - at
                }
        }),
{
    let g = net::segments(n);
    let at = net::longest_zeros(g, 8);
    let run = net::zeros_at(g, at);
    lemma_longest(g, 8);
    lemma_zeros(g, at);
    lemma_zeros(g, from);
    assert(n / 0x1_0000_0000 != 0xffff);
    if from < 8 {
        let z = net::zeros_at(g, from);
        if from + z < to {
            assert(g[from + z] == 0);
        }
        assert(to - from <= z);
        assert(z <= run);
    }
    if run > 1 {
        assert(zero_between(g, at, at + run));
    }
}

/// A version 6 address is read back as it was written.
pub proof fn law_version_6_is_read_back(n: u128)
    ensures
        net::v6_value(net::v6_text(n)) == Some(n as nat),
        net::address_value(net::v6_text(n)) == Some(IpAddr::V6(n)),
{
    let g = net::segments(n);
    let at = net::longest_zeros(g, 8);
    let run = net::zeros_at(g, at);
    lemma_segments(n);
    lemma_longest(g, 8);
    lemma_zeros(g, at);
    let s = net::v6_text(n);
    if n / 0x1_0000_0000 == 0xffff {
        lemma_mapped(n);
    } else if run > 1 {
        reveal_strlit("::");
        let left = g.take(at);
        let right = g.skip(at + run);
        assert forall|i: int| 0 <= i < left.len() implies #[trigger] left[i] < 0x1_0000 by {
            assert(left[i] == g[i]);
        }
        assert forall|i: int| 0 <= i < right.len() implies #[trigger] right[i] < 0x1_0000 by {
            assert(right[i] == g[at + run + i]);
        }
        lemma_groups_text(left);
        lemma_groups_text(right);
        let l = net::groups_text(left);
        let r = net::groups_text(right);
        let k = l.len() as int;
        assert(s == l + "::"@ + r);
        assert(s[k] == ':' && s[k + 1] == ':');
        assert forall|j: int| 0 <= j < k && j + 1 < s.len() implies !(#[trigger] s[j] == ':' && s[j
            + 1] == ':') by {
            if j + 1 < k {
                assert(l[j] == s[j] && l[j + 1] == s[j + 1]);
            } else {
                assert(s[j] == l.last());
            }
        }
        net::lemma_gap(s, k);
        assert(s.take(k) =~= l);
        assert(s.skip(k + 2) =~= r);
        lemma_side(left, false);
        lemma_side(right, true);
        let zeros = Seq::new((8 - left.len() - right.len()) as nat, |i: int| 0nat);
        assert(left + zeros + right =~= g);
        assert(!s.contains('.')) by {
            if s.contains('.') {
                let i = choose|i: int| 0 <= i < s.len() && s[i] == '.';
                if i < k {
                    assert(l.contains(l[i]));
                } else if i >= k + 2 {
                    assert(r.contains(r[i - k - 2]));
                }
            }
        }
        lemma_not_v4(s);
    } else {
        lemma_groups_text(g);
        net::lemma_gap(s, s.len() as int);
        lemma_side(g, true);
        lemma_not_v4(s);
    }
}

proof fn lemma_not_v4(s: Seq<char>)
    requires
        !s.contains('.'),
    ensures
        net::v4_value(s) is None,
{
    text_laws::lemma_split_one(s, '.');
}

#[verifier::rlimit(30)]
proof fn lemma_mapped(n: u128)
    requires
        n / 0x1_0000_0000 == 0xffff,
    ensures
        net::v6_value(net::v6_text(n)) == Some(n as nat),
        net::v4_value(net::v6_text(n)) is None,
{
    reveal_strlit("::ffff:");
    reveal_strlit(".");
    let low = (n % 0x1_0000_0000) as nat;
    let v = net::v4_text(low);
    let s = net::v6_text(n);
    assert(s == "::ffff:"@ + v);
    let f = seq!['f', 'f', 'f', 'f'];
    assert(s[0] == ':' && s[1] == ':');
    net::lemma_gap(s, 0);
    assert(s.take(0) =~= Seq::<char>::empty());
    let rest = s.skip(2);
    assert(rest =~= f + seq![':'] + v);
    lemma_v4_pieces(low);
    let a = text::decimal(low / 0x100_0000);
    let b = text::decimal(low / 0x1_0000 % 0x100);
    let c = text::decimal(low / 0x100 % 0x100);
    let d = text::decimal(low % 0x100);
    lemma_octet(low / 0x100_0000);
    lemma_octet(low / 0x1_0000 % 0x100);
    lemma_octet(low / 0x100 % 0x100);
    lemma_octet(low % 0x100);
    assert(v == a + "."@ + b + "."@ + c + "."@ + d);
    lemma_no_colon(v, a, b, c, d);
    lemma_no_sign(f, ':');
    text_laws::lemma_split_one(f, ':');
    text_laws::lemma_split_behind(f, v, ':');
    let p = seq![f].push(v);
    assert(text::split(rest, ':') == p);
    lemma_ffff(f);
    assert(p.drop_last() =~= seq![f]);
    assert(seq![f].drop_last() =~= Seq::<Seq<char>>::empty());
    assert(net::groups(Seq::<Seq<char>>::empty(), false) == Some(Seq::<nat>::empty()));
    assert(net::groups(seq![f], false) == Some(Seq::<nat>::empty().push(0xffff)));
    assert(net::group(v) is None);
    law_version_4_is_read_back(low as u32);
    let right = Seq::<nat>::empty().push(0xffff).push(low / 0x1_0000).push(low % 0x1_0000);
    assert(net::side(rest, true) == Some(right));
    let left = Seq::<nat>::empty();
    let zeros = Seq::new((8 - left.len() - right.len()) as nat, |i: int| 0nat);
    let all = left + zeros + right;
    lemma_eight(all);
    assert(all[0] == 0 && all[1] == 0 && all[2] == 0 && all[3] == 0 && all[4] == 0 && all[5]
        == 0xffff && all[6] == low / 0x1_0000 && all[7] == low % 0x1_0000);
    assert(net::number_of_groups(all) == n);
    // the dots cut the text into four pieces, the first of which is no number
    let front = "::ffff:"@ + a;
    lemma_no_dot_in_front(front, a);
    text_laws::lemma_split_one(front, '.');
    assert("."@ =~= seq!['.']);
    text_laws::lemma_split_behind(front, b, '.');
    text_laws::lemma_split_behind(front + "."@ + b, c, '.');
    text_laws::lemma_split_behind(front + "."@ + b + "."@ + c, d, '.');
    assert(s =~= front + "."@ + b + "."@ + c + "."@ + d);
    assert(text::split(s, '.')[0] == front);
    assert(net::octet(front) is None);
}

proof fn lemma_no_dot_in_front(front: Seq<char>, a: Seq<char>)
    requires
        front == "::ffff:"@ + a,
        !a.contains('.'),
    ensures
        !front.contains('.'),
        front.len() == 7 + a.len(),
{
    reveal_strlit("::ffff:");
    if front.contains('.') {
        let i = choose|i: int| 0 <= i < front.len() && front[i] == '.';
        if i >= 7 {
            assert(a[i - 7] == '.');
        }
    }
}

proof fn lemma_no_colon(v: Seq<char>, a: Seq<char>, b: Seq<char>, c: Seq<char>, d: Seq<char>)
    requires
        v == a + "."@ + b + "."@ + c + "."@ + d,
        !a.contains(':') && !b.contains(':') && !c.contains(':') && !d.contains(':'),
        a.len() > 0 && b.len() > 0 && c.len() > 0 && d.len() > 0,
    ensures
        !v.contains(':'),
        v.len() >= 7,
{
    reveal_strlit(".");
    if v.contains(':') {
        let i = choose|i: int| 0 <= i < v.len() && v[i] == ':';
        let x = a.len() as int;
        let y = x + 1 + b.len();
        let z = y + 1 + c.len();
        if i < x {
            assert(a[i] == ':');
        } else if x < i < y {
            assert(b[i - x - 1] == ':');
        } else if y < i < z {
            assert(c[i - y - 1] == ':');
        } else if i > z {
            assert(d[i - z - 1] == ':');
        }
    }
}

proof fn lemma_ffff(f: Seq<char>)
    requires
        f == seq!['f', 'f', 'f', 'f'],
    ensures
        net::group(f) == Some(0xffffnat),
{
    reveal_with_fuel(net::hex_number, 5);
    let f3 = f.drop_last();
    let f2 = f3.drop_last();
    let f1 = f2.drop_last();
    assert(f.last() == 'f' && f3.last() == 'f' && f2.last() == 'f' && f1.last() == 'f');
    assert(net::hex_value('f') == 15);
    assert(f1.drop_last() =~= Seq::<char>::empty());
    assert(net::hex_number(f1) == 15);
    assert(net::hex_number(f2) == 255);
    assert(net::hex_number(f3) == 4095);
}

/// The text of every address is read back as that address, so no two addresses have the same
/// text.
pub proof fn law_addresses_are_read_back(a: IpAddr, b: IpAddr)
    ensures
        net::address_value(a.text()) == Some(a),
        a.text() == b.text() ==> a == b,
{
    match a {
        IpAddr::V4(n) => law_version_4_is_read_back(n),
        IpAddr::V6(n) => law_version_6_is_read_back(n),
    }
    match b {
        IpAddr::V4(n) => law_version_4_is_read_back(n),
        IpAddr::V6(n) => law_version_6_is_read_back(n),
    }
}

// --------------------------------------------------------------------------------------- masks

/// The mask of a prefix and the addresses that the prefix leaves open make up all addresses.
pub proof fn law_masks(prefix: nat)
    requires
        prefix <= 32,
    ensures
        net::netmask(prefix) + pow2((32 - prefix) as nat) == 0x1_0000_0000,
        net::netmask(0) == 0,
        net::netmask(32) == 0xffff_ffff,
{
    lemma2_to64();
    if prefix > 0 {
        lemma_pow2_strictly_increases((32 - prefix) as nat, 32);
    }
}

} // verus!
