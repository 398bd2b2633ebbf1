//! What holds of cutting texts apart, putting them together and writing numbers.

use crate::text;
use vstd::prelude::*;

verus! {

// --------------------------------------------------------------------- cutting and joining

proof fn lemma_split_longer(a: Seq<char>, b: Seq<char>, c: char)
    requires
        !b.contains(c),
    ensures
        text::split(a, c).len() > 0,
        text::split(a + b, c) == text::split(a, c).drop_last().push(text::split(a, c).last() + b),
    decreases b.len(),
{
    text::lemma_split_not_empty(a, c);
    let pieces = text::split(a, c);
    if b.len() == 0 {
        assert(a + b =~= a);
        assert(pieces.last() + b =~= pieces.last());
        assert(pieces.drop_last().push(pieces.last()) =~= pieces);
    } else {
        let shorter = b.drop_last();
        assert(b[b.len() - 1] != c);
        assert(!shorter.contains(c)) by {
            if shorter.contains(c) {
                let k = choose|k: int| 0 <= k < shorter.len() && shorter[k] == c;
                assert(b[k] == c);
            }
        }
        lemma_split_longer(a, shorter, c);
        assert((a + b).drop_last() =~= a + shorter);
        let before = text::split(a + shorter, c);
        assert(before.drop_last() =~= pieces.drop_last());
        assert(before.last().push(b.last()) =~= pieces.last() + b);
    }
}

/// A piece behind a separator is a piece more.
pub proof fn lemma_split_behind(a: Seq<char>, b: Seq<char>, c: char)
    requires
        !b.contains(c),
    ensures
        text::split(a + seq![c] + b, c) == text::split(a, c).push(b),
{
    let d = a + seq![c];
    assert(d.drop_last() =~= a);
    lemma_split_longer(d, b, c);
    let pieces = text::split(d, c);
    assert(pieces =~= text::split(a, c).push(Seq::<char>::empty()));
    assert(pieces.drop_last() =~= text::split(a, c));
    assert(pieces.last() + b =~= b);
}

/// A text without the separator is one piece.
pub proof fn lemma_split_one(b: Seq<char>, c: char)
    requires
        !b.contains(c),
    ensures
        text::split(b, c) == seq![b],
{
    let empty = Seq::<char>::empty();
    lemma_split_longer(empty, b, c);
    assert(empty + b =~= b);
    assert(text::split(empty, c) =~= seq![empty]);
    assert(seq![empty].drop_last().push(seq![empty].last() + b) =~= seq![b]);
}

/// Texts that are joined with a character are cut apart at it into the same texts, where none of
/// them holds it.
pub proof fn law_joined_texts_are_cut_apart_again(pieces: Seq<Seq<char>>, c: char)
    requires
        pieces.len() > 0,
        forall|i: int| 0 <= i < pieces.len() ==> !(#[trigger] pieces[i]).contains(c),
    ensures
        text::split(text::joined(pieces, seq![c]), c) == pieces,
    decreases pieces.len(),
{
    if pieces.len() == 1 {
        assert(!pieces[0].contains(c));
        lemma_split_one(pieces[0], c);
        assert(pieces =~= seq![pieces[0]]);
    } else {
        let head = pieces.drop_last();
        assert forall|i: int| 0 <= i < head.len() implies !(#[trigger] head[i]).contains(c) by {
            assert(head[i] == pieces[i]);
        }
        law_joined_texts_are_cut_apart_again(head, c);
        let last = pieces[pieces.len() - 1];
        assert(!last.contains(c));
        lemma_split_behind(text::joined(head, seq![c]), last, c);
        assert(head.push(last) =~= pieces);
    }
}

/// A text that is cut apart at a character is put together again by joining the pieces with it,
/// and no piece holds it.
pub proof fn law_pieces_are_put_together_again(s: Seq<char>, c: char)
    ensures
        text::split(s, c).len() > 0,
        text::joined(text::split(s, c), seq![c]) == s,
        forall|i: int|
            0 <= i < text::split(s, c).len() ==> !(#[trigger] text::split(s, c)[i]).contains(c),
    decreases s.len(),
{
    let nl = seq![c];
    text::lemma_split_not_empty(s, c);
    if s.len() > 0 {
        let shorter = s.drop_last();
        law_pieces_are_put_together_again(shorter, c);
        let before = text::split(shorter, c);
        let pieces = text::split(s, c);
        if s.last() == c {
            assert(pieces.drop_last() =~= before);
            assert(shorter + nl + Seq::<char>::empty() =~= s);
            assert forall|i: int| 0 <= i < pieces.len() implies !(#[trigger] pieces[i]).contains(
                c,
            ) by {
                if i < before.len() {
                    assert(pieces[i] == before[i]);
                }
            }
        } else {
            assert(pieces.drop_last() =~= before.drop_last());
            if before.len() == 1 {
                assert(before[0] == shorter);
                assert(pieces[0] =~= s);
            } else {
                let head = text::joined(before.drop_last(), nl) + nl;
                assert(head + before.last() == shorter);
                assert(head + before.last().push(s.last()) =~= (head + before.last()).push(
                    s.last(),
                ));
                assert(shorter.push(s.last()) =~= s);
            }
            assert forall|i: int| 0 <= i < pieces.len() implies !(#[trigger] pieces[i]).contains(
                c,
            ) by {
                if i < before.len() - 1 {
                    assert(pieces[i] == before[i]);
                } else {
                    let last = before[before.len() - 1];
                    assert(!last.contains(c));
                    if pieces[i].contains(c) {
                        let k = choose|k: int| 0 <= k < pieces[i].len() && pieces[i][k] == c;
                        if k < last.len() {
                            assert(last[k] == c);
                        }
                    }
                }
            }
        }
    }
}

// -------------------------------------------------------------------------------- white space

/// Whether a text holds nothing but white space.
pub open spec fn all_white(s: Seq<char>) -> bool {
    forall|i: int| 0 <= i < s.len() ==> text::is_whitespace(#[trigger] s[i])
}

proof fn lemma_trim_start(s: Seq<char>) -> (before: Seq<char>)
    ensures
        all_white(before),
        s == before + text::trim_start(s),
        text::trim_start(s).len() > 0 ==> !text::is_whitespace(text::trim_start(s)[0]),
    decreases s.len(),
{
    if s.len() > 0 && text::is_whitespace(s[0]) {
        let rest = lemma_trim_start(s.drop_first());
        let before = seq![s[0]] + rest;
        let t = text::trim_start(s);
        assert(s =~= seq![s[0]] + s.drop_first());
        assert(s.drop_first() == rest + t);
        assert(before + t =~= seq![s[0]] + (rest + t));
        assert forall|i: int| 0 <= i < before.len() implies text::is_whitespace(
            #[trigger] before[i],
        ) by {
            if i > 0 {
                assert(before[i] == rest[i - 1]);
            }
        }
        before
    } else {
        assert(s =~= Seq::<char>::empty() + s);
        Seq::empty()
    }
}

proof fn lemma_trim_end(s: Seq<char>) -> (behind: Seq<char>)
    ensures
        all_white(behind),
        s == text::trim_end(s) + behind,
        text::trim_end(s).len() > 0 ==> !text::is_whitespace(text::trim_end(s).last()),
    decreases s.len(),
{
    if s.len() > 0 && text::is_whitespace(s.last()) {
        let rest = lemma_trim_end(s.drop_last());
        let behind = rest.push(s.last());
        let t = text::trim_end(s);
        assert(s =~= s.drop_last().push(s.last()));
        assert(s.drop_last() == t + rest);
        assert(t + behind =~= (t + rest).push(s.last()));
        behind
    } else {
        assert(s =~= s + Seq::<char>::empty());
        Seq::empty()
    }
}

/// Trimming takes white space away at both ends, all of it, and nothing else.
pub proof fn law_trimming_takes_white_space_away(s: Seq<char>)
    ensures
        exists|before: Seq<char>, behind: Seq<char>|
            s == #[trigger] (before + text::trimmed(s) + behind) && all_white(before) && all_white(
                behind,
            ),
        text::trimmed(s).len() > 0 ==> !text::is_whitespace(text::trimmed(s)[0])
            && !text::is_whitespace(text::trimmed(s).last()),
        text::blank(s) <==> all_white(s),
{
    let before = lemma_trim_start(s);
    let t = text::trim_start(s);
    let behind = lemma_trim_end(t);
    let m = text::trimmed(s);
    assert(s =~= before + m + behind);
    if m.len() > 0 {
        assert(m[0] == t[0]);
        assert(s[before.len() as int] == m[0]);
        assert(!all_white(s));
    } else {
        assert forall|i: int| 0 <= i < s.len() implies text::is_whitespace(#[trigger] s[i]) by {
            if i < before.len() {
                assert(s[i] == before[i]);
            } else {
                assert(s[i] == behind[i - before.len()]);
            }
        }
    }
}

/// The white space that is met most, and what is none.
pub proof fn law_blanks_are_white_space(c: char)
    ensures
        c == ' ' || c == '\t' || c == '\n' || c == '\r' ==> text::is_whitespace(c),
        0x21 <= c as u32 <= 0x7e ==> !text::is_whitespace(c),
{
}

/// Words hold no white space and are not empty; one that stands behind white space, or alone, is
/// a word of its own.
pub proof fn law_words_are_apart(s: Seq<char>, blank: char, word: Seq<char>)
    requires
        text::is_whitespace(blank),
        word.len() > 0,
        forall|i: int| 0 <= i < word.len() ==> !text::is_whitespace(#[trigger] word[i]),
    ensures
        text::words(word) == seq![word],
        text::words(s.push(blank)) == text::words(s),
        text::words(s.push(blank) + word) == text::words(s).push(word),
    decreases word.len(),
{
    let t = s.push(blank);
    assert(t.drop_last() =~= s);
    lemma_word_grows(t, word);
    let empty = Seq::<char>::empty();
    assert(text::words(empty) =~= Seq::<Seq<char>>::empty());
    lemma_word_grows(empty, word);
    assert(empty + word =~= word);
    assert(text::words(empty).push(word) =~= seq![word]);
}

proof fn lemma_word_grows(t: Seq<char>, word: Seq<char>)
    requires
        t.len() == 0 || text::is_whitespace(t.last()),
        word.len() > 0,
        forall|i: int| 0 <= i < word.len() ==> !text::is_whitespace(#[trigger] word[i]),
    ensures
        text::words(t + word) == text::words(t).push(word),
    decreases word.len(),
{
    let all = t + word;
    assert(all.last() == word[word.len() - 1]);
    if word.len() == 1 {
        assert(all.drop_last() =~= t);
        assert(word =~= seq![all.last()]);
        if t.len() > 0 {
            assert(all[all.len() - 2] == t.last());
        }
    } else {
        let shorter = word.drop_last();
        assert forall|i: int| 0 <= i < shorter.len() implies !text::is_whitespace(
            #[trigger] shorter[i],
        ) by {
            assert(shorter[i] == word[i]);
        }
        lemma_word_grows(t, shorter);
        assert(all.drop_last() =~= t + shorter);
        assert(all[all.len() - 2] == word[word.len() - 2]);
        let before = text::words(t + shorter);
        assert(before.drop_last() =~= text::words(t));
        assert(before.last().push(all.last()) =~= word);
    }
}

// ------------------------------------------------------------------------------------ numbers

/// A number is written with the digits zero to nine, without leading zeros, and is read back as
/// it was written.
pub proof fn law_numbers_are_read_back(n: nat, max: nat)
    ensures
        text::unsigned_value(text::decimal(n), max) == if n <= max {
            Some(n)
        } else {
            None
        },
        text::decimal(n).len() > 1 ==> text::decimal(n)[0] != '0',
        forall|i: int|
            0 <= i < text::decimal(n).len() ==> '0' as u32 <= #[trigger] text::decimal(n)[i] as u32
                <= '9' as u32,
    decreases n,
{
    text::lemma_decimal_value(n);
    let s = text::decimal(n);
    assert(text::is_digit(s[0]));
    if n >= 10 {
        law_numbers_are_read_back(n / 10, max);
        assert(s[0] == text::decimal(n / 10)[0]);
        if n / 10 < 10 {
            assert(text::decimal(n / 10) == seq![text::digit_char(n / 10)]);
            assert(text::digit_char(n / 10) as int == 0x30 + n / 10);
        } else {
            text::lemma_decimal_value(n / 10 / 10);
            assert(text::decimal(n / 10).len() > 1);
        }
    }
    assert forall|i: int| 0 <= i < s.len() implies '0' as u32 <= #[trigger] s[i] as u32
        <= '9' as u32 by {
        assert(text::is_digit(s[i]));
    }
}

/// What is no number is not read as one: an empty text, and one that holds anything but digits
/// behind a plus sign that may stand first.
pub proof fn law_other_texts_are_no_numbers(s: Seq<char>, max: nat, at: int)
    ensures
        s.len() == 0 ==> text::unsigned_value(s, max) is None,
        s == seq!['+'] ==> text::unsigned_value(s, max) is None,
        0 <= at < s.len() && !('0' as u32 <= s[at] as u32 <= '9' as u32) && !(at == 0 && s[at] == '+')
            ==> text::unsigned_value(s, max) is None,
        text::unsigned_value(s, max) matches Some(n) ==> n <= max,
{
    if 0 <= at < s.len() && !('0' as u32 <= s[at] as u32 <= '9' as u32) && !(at == 0 && s[at] == '+') {
        let digits = if s[0] == '+' {
            s.skip(1)
        } else {
            s
        };
        if s[0] == '+' {
            assert(digits[at - 1] == s[at]);
        }
        let k = if s[0] == '+' {
            at - 1
        } else {
            at
        };
        assert(digits[k] == s[at]);
        assert(!text::is_digit(s[at]));
        assert(!text::all_digits(digits));
    }
}

/// A number with its sign is read back as it was written.
pub proof fn law_signed_numbers_are_read_back(n: i32)
    ensures
        text::signed_value(text::signed_decimal(n as int)) == Some(n as int),
{
    reveal_strlit("-");
    let s = text::signed_decimal(n as int);
    let magnitude = if n < 0 {
        (-n) as nat
    } else {
        n as nat
    };
    text::lemma_decimal_value(magnitude);
    assert(text::is_digit(text::decimal(magnitude)[0]));
    if n < 0 {
        assert(s[0] == '-');
        assert(s.skip(1) =~= text::decimal(magnitude));
    }
}

/// Bytes in hexadecimal notation take two digits each, and different bytes have different
/// notations.
pub proof fn law_hexadecimal_notation(a: Seq<u8>, b: Seq<u8>, upper: bool)
    ensures
        text::hex(a, upper).len() == 2 * a.len(),
        text::hex(a, upper) == text::hex(b, upper) ==> a == b,
        forall|i: int|
            0 <= i < a.len() ==> {
                &&& #[trigger] digit_value(text::hex(a, upper)[2 * i]) * 16 + digit_value(
                    text::hex(a, upper)[2 * i + 1],
                ) == a[i]
            },
{
    lemma_hex(a, upper);
    lemma_hex(b, upper);
    if text::hex(a, upper) == text::hex(b, upper) {
        assert forall|i: int| 0 <= i < a.len() implies a[i] == b[i] by {
            assert(digit_value(text::hex(a, upper)[2 * i]) * 16 + digit_value(
                text::hex(a, upper)[2 * i + 1],
            ) == a[i]);
            assert(digit_value(text::hex(b, upper)[2 * i]) * 16 + digit_value(
                text::hex(b, upper)[2 * i + 1],
            ) == b[i]);
        }
        assert(a =~= b);
    }
}

/// The value of a hexadecimal digit.
pub open spec fn digit_value(c: char) -> int {
    if '0' as u32 <= c as u32 <= '9' as u32 {
        c as int - '0' as int
    } else if 'a' as u32 <= c as u32 <= 'f' as u32 {
        c as int - 'a' as int + 10
    } else {
        c as int - 'A' as int + 10
    }
}

proof fn lemma_hex(a: Seq<u8>, upper: bool)
    ensures
        text::hex(a, upper).len() == 2 * a.len(),
        forall|i: int|
            0 <= i < a.len() ==> #[trigger] digit_value(text::hex(a, upper)[2 * i]) * 16
                + digit_value(text::hex(a, upper)[2 * i + 1]) == a[i],
    decreases a.len(),
{
    if a.len() > 0 {
        let before = a.drop_last();
        lemma_hex(before, upper);
        let n = before.len() as int;
        let h = text::hex(a, upper);
        assert(h == text::hex(before, upper) + text::hex_pair(a.last(), upper));
        assert forall|i: int| 0 <= i < a.len() implies #[trigger] digit_value(h[2 * i]) * 16
            + digit_value(h[2 * i + 1]) == a[i] by {
            if i < n {
                assert(h[2 * i] == text::hex(before, upper)[2 * i]);
                assert(h[2 * i + 1] == text::hex(before, upper)[2 * i + 1]);
                assert(digit_value(text::hex(before, upper)[2 * i]) * 16 + digit_value(
                    text::hex(before, upper)[2 * i + 1],
                ) == before[i]);
            } else {
                let v = a.last();
                assert(h[2 * i] == text::hex_char((v / 16) as nat, upper));
                assert(h[2 * i + 1] == text::hex_char((v % 16) as nat, upper));
            }
        }
    }
}

// --------------------------------------------------------------------------- lines and places

/// Lines that end in a line feed are read back, without one carriage return that stands before
/// it; a text without a line feed at its end is a last line of its own.
pub proof fn law_lines_are_read_back(pieces: Seq<Seq<char>>, last: Seq<char>, i: int)
    requires
        forall|k: int| 0 <= k < pieces.len() ==> !(#[trigger] pieces[k]).contains('\n'),
        !last.contains('\n'),
        0 <= i < pieces.len(),
    ensures
        ({
            let ls = text::lines(text::joined(pieces.push(last), seq!['\n']));
            &&& last.len() == 0 ==> ls.len() == pieces.len()
            &&& last.len() > 0 ==> ls.len() == pieces.len() + 1 && ls.last() == last
            &&& pieces[i].len() > 0 && pieces[i].last() == '\r' ==> ls[i] == pieces[i].drop_last()
            &&& !(pieces[i].len() > 0 && pieces[i].last() == '\r') ==> ls[i] == pieces[i]
        }),
{
    let all = pieces.push(last);
    assert forall|k: int| 0 <= k < all.len() implies !(#[trigger] all[k]).contains('\n') by {
        if k < pieces.len() {
            assert(all[k] == pieces[k]);
        }
    }
    law_joined_texts_are_cut_apart_again(all, '\n');
}

/// A text begins with a prefix exactly where it is the prefix and something behind it, and ends
/// with a suffix exactly where it is something and the suffix behind it.
pub proof fn law_prefixes_and_suffixes(part: Seq<char>, rest: Seq<char>, s: Seq<char>)
    ensures
        text::has_prefix(part + rest, part),
        text::has_suffix(rest + part, part),
        text::has_prefix(s, part) ==> s == part + s.skip(part.len() as int),
        text::has_suffix(s, part) ==> s == s.take(s.len() - part.len()) + part,
{
    assert((part + rest).take(part.len() as int) =~= part);
    assert((rest + part).skip(rest.len() as int) =~= part);
    if text::has_prefix(s, part) {
        assert(s =~= s.take(part.len() as int) + s.skip(part.len() as int));
    }
    if text::has_suffix(s, part) {
        assert(s =~= s.take(s.len() - part.len()) + s.skip(s.len() - part.len()));
    }
}

/// A text occurs in another exactly where that is something, the text and something more.
pub proof fn law_occurrences(a: Seq<char>, part: Seq<char>, b: Seq<char>, s: Seq<char>)
    ensures
        text::occurs(a + part + b, part),
        text::occurs(s, part) ==> exists|x: Seq<char>, y: Seq<char>| s == #[trigger] (x + part + y),
{
    let all = a + part + b;
    assert(all.subrange(a.len() as int, (a.len() + part.len()) as int) =~= part);
    assert(text::occurs_at(all, part, a.len() as int));
    if text::occurs(s, part) {
        let at = choose|at: int| text::occurs_at(s, part, at);
        let x = s.take(at);
        let y = s.skip(at + part.len());
        assert(s =~= x + part + y);
    }
}

/// A text is searched from the front: it is found where it first occurs, and not found where it
/// does not occur.
pub proof fn law_first_occurrences(s: Seq<char>, part: Seq<char>, at: int, k: int)
    requires
        0 <= at,
    ensures
        text::find_from(s, part, at) matches Some(i) ==> {
            &&& at <= i
            &&& text::occurs_at(s, part, i)
            &&& at <= k < i ==> !text::occurs_at(s, part, k)
        },
        text::find_from(s, part, at) is None && at <= k ==> !text::occurs_at(s, part, k),
    decreases s.len() + 1 - at,
{
    if at + part.len() <= s.len() && !text::occurs_at(s, part, at) {
        law_first_occurrences(s, part, at + 1, k);
    }
}

/// The capital letters become small ones, and nothing else changes.
pub proof fn law_small_letters(s: Seq<char>, i: int)
    requires
        0 <= i < s.len(),
    ensures
        text::lowercase(s).len() == s.len(),
        0x41 <= s[i] as u32 <= 0x5a ==> text::lowercase(s)[i] as u32 == s[i] as u32 + 0x20,
        !(0x41 <= s[i] as u32 <= 0x5a) ==> text::lowercase(s)[i] == s[i],
{
    lemma_small(s[i]);
}

proof fn lemma_small(c: char)
    ensures
        0x41 <= c as u32 <= 0x5a ==> text::lower(c) as u32 == c as u32 + 0x20,
        !(0x41 <= c as u32 <= 0x5a) ==> text::lower(c) == c,
{
}

/// What stands at an end is taken away as often as it stands there, and nothing else.
pub proof fn law_ends_are_taken_away(s: Seq<char>, c: char)
    ensures
        ({
            let t = text::without_trailing(s, c);
            &&& t.len() <= s.len()
            &&& t == s.take(t.len() as int)
            &&& forall|i: int| t.len() <= i < s.len() ==> #[trigger] s[i] == c
            &&& t.len() > 0 ==> t.last() != c
        }),
        ({
            let t = text::without_leading(s, c);
            &&& t.len() <= s.len()
            &&& t == s.skip(s.len() - t.len())
            &&& forall|i: int| 0 <= i < s.len() - t.len() ==> #[trigger] s[i] == c
            &&& t.len() > 0 ==> t[0] != c
        }),
    decreases s.len(),
{
    if s.len() > 0 && s.last() == c {
        let before = s.drop_last();
        law_ends_are_taken_away(before, c);
        let t = text::without_trailing(s, c);
        assert(before.take(t.len() as int) =~= s.take(t.len() as int));
        assert forall|i: int| t.len() <= i < s.len() implies #[trigger] s[i] == c by {
            if i < before.len() {
                assert(before[i] == s[i]);
            }
        }
    } else {
        assert(s.take(s.len() as int) =~= s);
    }
    if s.len() > 0 && s[0] == c {
        let rest = s.drop_first();
        law_ends_are_taken_away(rest, c);
        let t = text::without_leading(s, c);
        assert(rest.skip(rest.len() - t.len()) =~= s.skip(s.len() - t.len()));
        assert forall|i: int| 0 <= i < s.len() - t.len() implies #[trigger] s[i] == c by {
            if i > 0 {
                assert(rest[i - 1] == s[i]);
            }
        }
    } else {
        assert(s.skip(0) =~= s);
    }
}

/// The order of a dictionary: two texts of bytes are compared where they first differ, and one
/// that ends there comes first.
pub proof fn law_order_of_a_dictionary(common: Seq<u8>, a: Seq<u8>, b: Seq<u8>)
    ensures
        text::not_after(common, common + b),
        b.len() > 0 ==> !text::not_after(common + b, common),
        a.len() > 0 && b.len() > 0 && a[0] != b[0] ==> (text::not_after(common + a, common + b)
            <==> a[0] < b[0]),
    decreases common.len(),
{
    if common.len() == 0 {
        assert(common + b =~= b);
        assert(common + a =~= a);
    } else {
        let rest = common.drop_first();
        law_order_of_a_dictionary(rest, a, b);
        assert((common + b).drop_first() =~= rest + b);
        assert((common + a).drop_first() =~= rest + a);
        assert((common + b)[0] == common[0]);
        assert((common + a)[0] == common[0]);
    }
}

} // verus!
