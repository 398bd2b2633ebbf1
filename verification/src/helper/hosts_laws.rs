//! What the replacement of the managed section keeps of the hosts file.

use crate::helper::hosts;
use crate::helper::hosts::ManagedHostsEntry;
use crate::net;
use crate::net::IpAddr;
use crate::text;
use vstd::prelude::*;

verus! {

/// Whether a text holds no line break, not even half of one.
pub open spec fn plain(s: Seq<char>) -> bool {
    forall|i: int| 0 <= i < s.len() ==> #[trigger] s[i] != '\n' && s[i] != '\r'
}

/// Whether a text holds no line feed.
pub open spec fn one_line(s: Seq<char>) -> bool {
    forall|i: int| 0 <= i < s.len() ==> #[trigger] s[i] != '\n'
}

/// Pieces with an ending behind each but the last.
spec fn ended_pieces(ls: Seq<Seq<char>>, ending: Seq<char>) -> Seq<Seq<char>> {
    Seq::new(
        ls.len(),
        |i: int|
            if i < ls.len() - 1 {
                ls[i] + ending
            } else {
                ls[i]
            },
    )
}

// -------------------------------------------------------------------- splitting and joining

proof fn lemma_split_extends(a: Seq<char>, b: Seq<char>)
    requires
        one_line(b),
    ensures
        text::split(a, '\n').len() > 0,
        text::split(a + b, '\n') == text::split(a, '\n').drop_last().push(
            text::split(a, '\n').last() + b,
        ),
    decreases b.len(),
{
    text::lemma_split_not_empty(a, '\n');
    let pieces = text::split(a, '\n');
    if b.len() == 0 {
        assert(a + b == a);
        assert(pieces.last() + b == pieces.last());
        assert(pieces.drop_last().push(pieces.last()) == pieces);
    } else {
        let shorter = b.drop_last();
        lemma_split_extends(a, shorter);
        assert((a + b).drop_last() == a + shorter);
        assert((a + b).last() == b.last());
        let before = text::split(a + shorter, '\n');
        assert(before.drop_last() == pieces.drop_last());
        assert(before.last().push(b.last()) == pieces.last() + b);
    }
}

proof fn lemma_split_at_feed(a: Seq<char>, b: Seq<char>)
    requires
        one_line(b),
    ensures
        text::split(a + seq!['\n'] + b, '\n') == text::split(a, '\n').push(b),
{
    let c = a + seq!['\n'];
    assert(c.drop_last() == a);
    assert(c.last() == '\n');
    lemma_split_extends(c, b);
    let pieces = text::split(c, '\n');
    assert(pieces == text::split(a, '\n').push(Seq::<char>::empty()));
    assert(pieces.drop_last() == text::split(a, '\n'));
    assert(pieces.last() + b == b);
}

proof fn lemma_split_one_line(b: Seq<char>)
    requires
        one_line(b),
    ensures
        text::split(b, '\n') == seq![b],
{
    let empty = Seq::<char>::empty();
    lemma_split_extends(empty, b);
    assert(text::split(empty, '\n') == seq![empty]);
    assert(empty + b == b);
    assert(seq![empty].drop_last().push(seq![empty].last() + b) == seq![b]);
}

proof fn lemma_split_joined(ls: Seq<Seq<char>>, ending: Seq<char>)
    requires
        ls.len() > 0,
        forall|i: int| 0 <= i < ls.len() ==> one_line(#[trigger] ls[i]),
        one_line(ending),
    ensures
        text::split(text::joined(ls, ending + seq!['\n']), '\n') == ended_pieces(ls, ending),
    decreases ls.len(),
{
    let nl = ending + seq!['\n'];
    if ls.len() == 1 {
        assert(one_line(ls[0]));
        lemma_split_one_line(ls[0]);
        assert(ended_pieces(ls, ending) == seq![ls[0]]);
    } else {
        let head = ls.drop_last();
        assert forall|i: int| 0 <= i < head.len() implies one_line(#[trigger] head[i]) by {
            assert(head[i] == ls[i]);
        }
        lemma_split_joined(head, ending);
        let body = text::joined(head, nl);
        lemma_split_extends(body, ending);
        assert(one_line(ls.last()));
        lemma_split_at_feed(body + ending, ls.last());
        assert(text::joined(ls, nl) == body + ending + seq!['\n'] + ls.last());
        let p = ended_pieces(head, ending);
        assert(p.drop_last().push(p.last() + ending).push(ls.last()) =~= ended_pieces(ls, ending));
    }
}

proof fn lemma_pieces_are_lines(s: Seq<char>)
    ensures
        forall|i: int|
            0 <= i < text::split(s, '\n').len() ==> one_line(#[trigger] text::split(s, '\n')[i]),
    decreases s.len(),
{
    text::lemma_split_not_empty(s, '\n');
    if s.len() > 0 {
        lemma_pieces_are_lines(s.drop_last());
        text::lemma_split_not_empty(s.drop_last(), '\n');
        let before = text::split(s.drop_last(), '\n');
        let pieces = text::split(s, '\n');
        assert forall|i: int| 0 <= i < pieces.len() implies one_line(#[trigger] pieces[i]) by {
            if s.last() == '\n' {
                if i < before.len() {
                    assert(pieces[i] == before[i]);
                }
            } else {
                if i < before.len() - 1 {
                    assert(pieces[i] == before[i]);
                } else {
                    assert(one_line(before[before.len() - 1]));
                }
            }
        }
    }
}

/// Whether a piece that a line feed ends has a carriage return at its end.
spec fn has_returned_piece(s: Seq<char>) -> bool {
    exists|i: int|
        0 <= i < text::split(s, '\n').len() - 1 && (#[trigger] text::split(s, '\n')[i]).len() > 0
            && text::split(s, '\n')[i].last() == '\r'
}

proof fn lemma_last_piece(s: Seq<char>)
    ensures
        text::split(s, '\n').len() > 0,
        text::split(s, '\n').last().len() <= s.len(),
        text::split(s, '\n').last().len() == 0 <==> (s.len() == 0 || s.last() == '\n'),
        text::split(s, '\n').last().len() > 0 ==> text::split(s, '\n').last().last() == s.last(),
    decreases s.len(),
{
    text::lemma_split_not_empty(s, '\n');
    if s.len() > 0 {
        lemma_last_piece(s.drop_last());
    }
}

proof fn lemma_break_is_a_returned_piece(s: Seq<char>)
    ensures
        text::occurs(s, "\r\n"@) == has_returned_piece(s),
    decreases s.len(),
{
    reveal_strlit("\r\n");
    let crlf = "\r\n"@;
    assert(crlf.len() == 2 && crlf[0] == '\r' && crlf[1] == '\n');
    text::lemma_split_not_empty(s, '\n');
    let pieces = text::split(s, '\n');
    if s.len() == 0 {
        if text::occurs(s, crlf) {
            let at = choose|at: int| text::occurs_at(s, crlf, at);
            assert(text::occurs_at(s, crlf, at));
        }
        assert(!has_returned_piece(s));
    } else {
        let shorter = s.drop_last();
        lemma_break_is_a_returned_piece(shorter);
        lemma_last_piece(shorter);
        let before = text::split(shorter, '\n');
        assert(text::occurs(shorter, crlf) ==> text::occurs(s, crlf)) by {
            if text::occurs(shorter, crlf) {
                let at = choose|at: int| text::occurs_at(shorter, crlf, at);
                assert(s.subrange(at, at + 2) == shorter.subrange(at, at + 2));
                assert(text::occurs_at(s, crlf, at));
            }
        }
        assert(text::occurs(s, crlf) ==> text::occurs(shorter, crlf) || (s.last() == '\n'
            && shorter.len() > 0 && shorter.last() == '\r')) by {
            if text::occurs(s, crlf) {
                let at = choose|at: int| text::occurs_at(s, crlf, at);
                assert(text::occurs_at(s, crlf, at));
                let found = s.subrange(at, at + 2);
                assert(found[0] == s[at] && found[1] == s[at + 1]);
                if at + 2 < s.len() {
                    assert(s.subrange(at, at + 2) == shorter.subrange(at, at + 2));
                    assert(text::occurs_at(shorter, crlf, at));
                } else {
                    assert(shorter.last() == s[at]);
                }
            }
        }
        assert((s.last() == '\n' && shorter.len() > 0 && shorter.last() == '\r') ==> text::occurs(
            s,
            crlf,
        )) by {
            if s.last() == '\n' && shorter.len() > 0 && shorter.last() == '\r' {
                assert(s.subrange(s.len() - 2, s.len() as int) == crlf);
                assert(text::occurs_at(s, crlf, s.len() - 2));
            }
        }
        if s.last() == '\n' {
            assert(pieces == before.push(Seq::<char>::empty()));
            if has_returned_piece(shorter) {
                let i = choose|i: int|
                    0 <= i < before.len() - 1 && (#[trigger] before[i]).len() > 0
                        && before[i].last() == '\r';
                assert(pieces[i] == before[i]);
                assert(has_returned_piece(s));
            }
            if shorter.len() > 0 && shorter.last() == '\r' {
                assert(pieces[before.len() - 1] == before.last());
                assert(has_returned_piece(s));
            }
            if has_returned_piece(s) {
                let i = choose|i: int|
                    0 <= i < pieces.len() - 1 && (#[trigger] pieces[i]).len() > 0
                        && pieces[i].last() == '\r';
                assert(pieces[i] == before[i]);
                if i < before.len() - 1 {
                    assert(has_returned_piece(shorter));
                }
            }
        } else {
            assert(pieces.len() == before.len());
            assert(forall|i: int| 0 <= i < pieces.len() - 1 ==> #[trigger] pieces[i] == before[i]);
            assert(forall|i: int| 0 <= i < pieces.len() - 1 ==> pieces[i] == #[trigger] before[i]);
            assert(has_returned_piece(s) == has_returned_piece(shorter));
        }
    }
}

// ---------------------------------------------------------------------------- joined lines

/// What a line break holds before its line feed.
spec fn return_part(nl: Seq<char>) -> Seq<char> {
    nl.drop_last()
}

proof fn lemma_line_break(existing: Seq<char>)
    ensures
        ({
            let nl = hosts::line_break(existing);
            let part = return_part(nl);
            &&& nl == part + seq!['\n']
            &&& one_line(part)
            &&& text::occurs(existing, "\r\n"@) ==> part == seq!['\r']
            &&& !text::occurs(existing, "\r\n"@) ==> part == Seq::<char>::empty()
        }),
{
    reveal_strlit("\r\n");
    reveal_strlit("\n");
    let nl = hosts::line_break(existing);
    assert(nl == return_part(nl) + seq!['\n']);
    if text::occurs(existing, "\r\n"@) {
        assert(return_part(nl) == seq!['\r']);
    } else {
        assert(return_part(nl) == Seq::<char>::empty());
    }
}

/// Whether lines keep apart when they are joined: none holds a line feed, and without
/// carriage returns between them none but the last may end with one.
spec fn joinable(ls: Seq<Seq<char>>, part: Seq<char>) -> bool {
    &&& ls.len() > 0
    &&& forall|i: int| 0 <= i < ls.len() ==> one_line(#[trigger] ls[i])
    &&& part == seq!['\r'] || part == Seq::<char>::empty()
    &&& part == Seq::<char>::empty() ==> forall|i: int|
        0 <= i < ls.len() - 1 && (#[trigger] ls[i]).len() > 0 ==> ls[i].last() != '\r'
}

proof fn lemma_without_return(line: Seq<char>, part: Seq<char>)
    requires
        part == seq!['\r'] || (part == Seq::<char>::empty() && (line.len() > 0 ==> line.last()
            != '\r')),
    ensures
        text::without_carriage_return(line + part) == line,
{
    if part == seq!['\r'] {
        assert((line + part).drop_last() == line);
    } else {
        assert(line + part == line);
    }
}

proof fn lemma_lines_of_joined(ls: Seq<Seq<char>>, part: Seq<char>)
    requires
        joinable(ls, part),
        ls.last().len() > 0,
    ensures
        text::lines(text::joined(ls, part + seq!['\n'])) == ls,
{
    lemma_split_joined(ls, part);
    let pieces = ended_pieces(ls, part);
    let ended = Seq::new(
        (pieces.len() - 1) as nat,
        |i: int| text::without_carriage_return(pieces[i]),
    );
    assert forall|i: int| 0 <= i < ls.len() - 1 implies #[trigger] ended[i] == ls[i] by {
        lemma_without_return(ls[i], part);
    }
    assert(ended.push(pieces.last()) =~= ls);
}

proof fn lemma_lines_of_ended(ls: Seq<Seq<char>>, part: Seq<char>)
    requires
        joinable(ls, part),
        part == Seq::<char>::empty() ==> (ls.last().len() > 0 ==> ls.last().last() != '\r'),
    ensures
        text::lines(text::joined(ls, part + seq!['\n']) + (part + seq!['\n'])) == ls,
        text::split(text::joined(ls, part + seq!['\n']) + (part + seq!['\n']), '\n')
            == ended_pieces(ls.push(Seq::empty()), part),
{
    let nl = part + seq!['\n'];
    let longer = ls.push(Seq::<char>::empty());
    assert(longer.drop_last() == ls);
    assert(text::joined(longer, nl) == text::joined(ls, nl) + nl) by {
        assert(text::joined(ls, nl) + nl + Seq::<char>::empty() == text::joined(ls, nl) + nl);
    }
    assert forall|i: int| 0 <= i < longer.len() implies one_line(#[trigger] longer[i]) by {
        if i < ls.len() {
            assert(longer[i] == ls[i]);
        }
    }
    lemma_split_joined(longer, part);
    let pieces = ended_pieces(longer, part);
    let ended = Seq::new(
        (pieces.len() - 1) as nat,
        |i: int| text::without_carriage_return(pieces[i]),
    );
    assert forall|i: int| 0 <= i < ls.len() implies #[trigger] ended[i] == ls[i] by {
        assert(longer[i] == ls[i]);
        lemma_without_return(ls[i], part);
    }
    assert(ended =~= ls);
    assert(pieces.last().len() == 0);
}

// ------------------------------------------------------------------------- plain section

proof fn lemma_plain_address(address: IpAddr)
    ensures
        plain(address.text()),
        address.text().len() > 0,
        address.text()[0] != '#',
        !text::is_whitespace(address.text()[0]),
{
    net::law_address_text_is_plain(address);
    let t = address.text();
    assert forall|i: int| 0 <= i < t.len() implies #[trigger] t[i] != '\n' && t[i] != '\r' by {
        assert(net::is_address_char(t[i]));
    }
    assert(net::is_address_char(t[0]));
}

proof fn lemma_plain_name(s: Seq<char>, others: Seq<char>)
    requires
        text::only_alphanumeric_or(s, others),
        others == "-_"@ || others == "-._"@,
    ensures
        plain(s),
        s.len() > 0 ==> !text::is_whitespace(s.last()),
{
    reveal_strlit("-_");
    reveal_strlit("-._");
    assert forall|i: int| 0 <= i < s.len() implies #[trigger] s[i] != '\n' && s[i] != '\r'
        && !text::is_whitespace(s[i]) by {
        if !text::is_alphanumeric(s[i]) {
            assert(others.contains(s[i]));
        }
    }
}

proof fn lemma_plain_entry(entry: ManagedHostsEntry)
    requires
        hosts::entry_fault(entry) is None,
    ensures
        plain(hosts::entry_line(entry)),
        hosts::entry_line(entry).len() > 2,
        !text::is_whitespace(hosts::entry_line(entry)[0]),
        hosts::entry_line(entry)[0] != '#' || (hosts::entry_line(entry)[2] == 'N'),
{
    reveal_strlit(" # ");
    reveal_strlit("");
    reveal_strlit(" ");
    reveal_strlit("# NETTOOL DISABLED ");
    lemma_plain_address(entry.address);
    lemma_plain_name(entry.hostname@, "-._"@);
    let comment = match entry.comment {
        Some(c) => " # "@ + c@,
        None => ""@,
    };
    assert(plain(comment)) by {
        if let Some(c) = entry.comment {
            assert forall|i: int| 0 <= i < c@.len() implies #[trigger] c@[i] != '\n' && c@[i]
                != '\r' by {
                assert(c@.contains(c@[i]));
            }
        }
    }
    let mapping = entry.address.text() + " "@ + entry.hostname@ + comment;
    assert(plain(mapping));
    assert(mapping[0] == entry.address.text()[0]);
}

proof fn lemma_entries_pass(entries: Seq<ManagedHostsEntry>, n: nat)
    requires
        n <= entries.len(),
        hosts::first_entry_fault(entries, n) is None,
    ensures
        forall|i: int| 0 <= i < n ==> hosts::entry_fault(#[trigger] entries[i]) is None,
    decreases n,
{
    if n > 0 {
        lemma_entries_pass(entries, (n - 1) as nat);
    }
}

// ------------------------------------------------------------------------------- trimming

proof fn lemma_trim_keeps_start(s: Seq<char>, j: int)
    requires
        0 <= j < s.len(),
        !text::is_whitespace(s[0]),
        !text::is_whitespace(s[j]),
    ensures
        text::trimmed(s).len() > j,
        forall|i: int| 0 <= i < text::trimmed(s).len() ==> #[trigger] text::trimmed(s)[i] == s[i],
{
    assert(text::trim_start(s) == s);
    lemma_trim_end_keeps(s, j);
}

proof fn lemma_trim_end_keeps(s: Seq<char>, j: int)
    requires
        0 <= j < s.len(),
        !text::is_whitespace(s[j]),
    ensures
        j < text::trim_end(s).len() <= s.len(),
        forall|i: int|
            0 <= i < text::trim_end(s).len() ==> #[trigger] text::trim_end(s)[i] == s[i],
    decreases s.len(),
{
    if text::is_whitespace(s.last()) {
        let shorter = s.drop_last();
        assert(shorter[j] == s[j]);
        lemma_trim_end_keeps(shorter, j);
        assert(forall|i: int| 0 <= i < shorter.len() ==> shorter[i] == s[i]);
    }
}

proof fn lemma_markers(profile_id: Seq<char>)
    requires
        hosts::profile_valid(profile_id),
    ensures
        ({
            let begin = hosts::begin_marker(profile_id);
            let end = hosts::end_marker(profile_id);
            &&& text::trimmed(begin) == begin
            &&& text::trimmed(end) == end
            &&& plain(begin)
            &&& plain(end)
            &&& begin.len() > 2
            &&& end.len() > 2
            &&& begin[0] == '#'
            &&& end[0] == '#'
            &&& begin[2] == 'B'
            &&& end[2] == 'E'
        }),
{
    reveal_strlit("# BEGIN NETTOOL PROFILE ");
    reveal_strlit("# END NETTOOL PROFILE ");
    lemma_plain_name(profile_id, "-_"@);
    let begin = hosts::begin_marker(profile_id);
    let end = hosts::end_marker(profile_id);
    assert(begin.last() == profile_id.last());
    assert(end.last() == profile_id.last());
    assert(text::trim_start(begin) == begin);
    assert(text::trim_end(begin) == begin);
    assert(text::trim_start(end) == end);
    assert(text::trim_end(end) == end);
}

proof fn lemma_entry_is_no_marker(entry: ManagedHostsEntry, profile_id: Seq<char>)
    requires
        hosts::entry_fault(entry) is None,
        hosts::profile_valid(profile_id),
    ensures
        text::trimmed(hosts::entry_line(entry)) != hosts::begin_marker(profile_id),
        text::trimmed(hosts::entry_line(entry)) != hosts::end_marker(profile_id),
        !hosts::opens_section(hosts::entry_line(entry)),
{
    lemma_plain_entry(entry);
    lemma_markers(profile_id);
    reveal_strlit("# BEGIN NETTOOL PROFILE ");
    let line = hosts::entry_line(entry);
    let t = text::trimmed(line);
    let prefix = "# BEGIN NETTOOL PROFILE "@;
    if line[0] == '#' {
        lemma_trim_keeps_start(line, 2);
        assert(t[2] == 'N');
        if text::has_prefix(t, prefix) {
            assert(t.take(prefix.len() as int)[2] == prefix[2]);
        }
    } else {
        lemma_trim_keeps_start(line, 0);
        assert(t[0] != '#');
        if text::has_prefix(t, prefix) {
            assert(t.take(prefix.len() as int)[0] == prefix[0]);
        }
    }
}

// ------------------------------------------------------------------------------- positions

proof fn lemma_positions(ls: Seq<Seq<char>>, marker: Seq<char>)
    ensures
        forall|k: int|
            0 <= k < hosts::positions(ls, marker).len() ==> {
                let at = #[trigger] hosts::positions(ls, marker)[k];
                0 <= at < ls.len() && text::trimmed(ls[at]) == marker
            },
        forall|i: int|
            0 <= i < ls.len() && text::trimmed(#[trigger] ls[i]) == marker
                ==> hosts::positions(ls, marker).contains(i),
    decreases ls.len(),
{
    if ls.len() > 0 {
        let shorter = ls.drop_last();
        lemma_positions(shorter, marker);
        let before = hosts::positions(shorter, marker);
        let all = hosts::positions(ls, marker);
        assert forall|k: int| 0 <= k < all.len() implies {
            let at = #[trigger] all[k];
            0 <= at < ls.len() && text::trimmed(ls[at]) == marker
        } by {
            if k < before.len() {
                assert(all[k] == before[k]);
                assert(shorter[before[k]] == ls[before[k]]);
            }
        }
        assert forall|i: int| 0 <= i < ls.len() && text::trimmed(#[trigger] ls[i])
            == marker implies all.contains(i) by {
            if i < ls.len() - 1 {
                assert(shorter[i] == ls[i]);
                assert(before.contains(i));
                let k = choose|k: int| 0 <= k < before.len() && before[k] == i;
                assert(all[k] == i);
            } else {
                assert(all[all.len() - 1] == i);
            }
        }
    }
}

proof fn lemma_no_positions(ls: Seq<Seq<char>>, marker: Seq<char>)
    requires
        forall|i: int| 0 <= i < ls.len() ==> text::trimmed(#[trigger] ls[i]) != marker,
    ensures
        hosts::positions(ls, marker) == Seq::<int>::empty(),
    decreases ls.len(),
{
    if ls.len() > 0 {
        let shorter = ls.drop_last();
        assert forall|i: int| 0 <= i < shorter.len() implies text::trimmed(#[trigger] shorter[i])
            != marker by {
            assert(shorter[i] == ls[i]);
        }
        lemma_no_positions(shorter, marker);
        assert(text::trimmed(ls[ls.len() - 1]) != marker);
    }
}

proof fn lemma_single_position(ls: Seq<Seq<char>>, marker: Seq<char>, at: int)
    requires
        0 <= at < ls.len(),
        text::trimmed(ls[at]) == marker,
        forall|i: int|
            0 <= i < ls.len() && i != at ==> text::trimmed(#[trigger] ls[i]) != marker,
    ensures
        hosts::positions(ls, marker) == seq![at],
    decreases ls.len(),
{
    let shorter = ls.drop_last();
    assert forall|i: int| 0 <= i < shorter.len() && i != at implies text::trimmed(
        #[trigger] shorter[i],
    ) != marker by {
        assert(shorter[i] == ls[i]);
    }
    if at == ls.len() - 1 {
        lemma_no_positions(shorter, marker);
        assert(Seq::<int>::empty().push(at) == seq![at]);
    } else {
        assert(shorter[at] == ls[at]);
        lemma_single_position(shorter, marker, at);
        assert(text::trimmed(ls[ls.len() - 1]) != marker);
    }
}

proof fn lemma_only_position(ls: Seq<Seq<char>>, marker: Seq<char>)
    requires
        hosts::positions(ls, marker).len() == 1,
    ensures
        ({
            let at = hosts::positions(ls, marker)[0];
            &&& 0 <= at < ls.len()
            &&& text::trimmed(ls[at]) == marker
            &&& forall|i: int|
                0 <= i < ls.len() && i != at ==> text::trimmed(#[trigger] ls[i]) != marker
        }),
{
    lemma_positions(ls, marker);
    let all = hosts::positions(ls, marker);
    let at = all[0];
    assert forall|i: int| 0 <= i < ls.len() && i != at implies text::trimmed(#[trigger] ls[i])
        != marker by {
        if text::trimmed(ls[i]) == marker {
            assert(all.contains(i));
            let k = choose|k: int| 0 <= k < all.len() && all[k] == i;
            assert(k == 0);
        }
    }
}

// ----------------------------------------------------------------------------- the new lines

proof fn lemma_existing_lines(existing: Seq<char>)
    ensures
        ({
            let ls = text::lines(existing);
            let feed = existing.len() > 0 && existing.last() == '\n';
            &&& forall|i: int| 0 <= i < ls.len() ==> one_line(#[trigger] ls[i])
            &&& !text::occurs(existing, "\r\n"@) ==> forall|i: int|
                0 <= i < ls.len() && (feed || i < ls.len() - 1) && (#[trigger] ls[i]).len() > 0
                    ==> ls[i].last() != '\r'
            &&& ls.len() > 0 && !feed ==> ls.last().len() > 0
        }),
{
    lemma_pieces_are_lines(existing);
    lemma_last_piece(existing);
    lemma_break_is_a_returned_piece(existing);
    let pieces = text::split(existing, '\n');
    let ls = text::lines(existing);
    assert forall|i: int| 0 <= i < ls.len() implies one_line(#[trigger] ls[i]) by {
        assert(one_line(pieces[i]));
    }
    if !text::occurs(existing, "\r\n"@) {
        let feed = existing.len() > 0 && existing.last() == '\n';
        assert forall|i: int|
            0 <= i < ls.len() && (feed || i < ls.len() - 1) && (#[trigger] ls[i]).len()
                > 0 implies ls[i].last() != '\r' by {
            assert(i < pieces.len() - 1);
            assert(!(pieces[i].len() > 0 && pieces[i].last() == '\r'));
        }
    }
}

/// The place of the section: its first line, and the line behind it.
spec fn place(existing: Seq<char>, profile_id: Seq<char>) -> (int, int) {
    let ls = text::lines(existing);
    (
        hosts::positions(ls, hosts::begin_marker(profile_id))[0],
        hosts::positions(ls, hosts::end_marker(profile_id))[0] + 1,
    )
}

proof fn lemma_section(profile_id: Seq<char>, entries: Seq<ManagedHostsEntry>)
    requires
        hosts::profile_valid(profile_id),
        hosts::first_entry_fault(entries, entries.len()) is None,
    ensures
        ({
            let section = hosts::section_lines(profile_id, entries);
            let n = entries.len() as int;
            &&& section.len() == n + 2
            &&& section[0] == hosts::begin_marker(profile_id)
            &&& section[n + 1] == hosts::end_marker(profile_id)
            &&& forall|i: int|
                0 <= i < section.len() ==> plain(#[trigger] section[i]) && section[i].len() > 0
            &&& forall|i: int|
                1 <= i <= n ==> text::trimmed(#[trigger] section[i]) != hosts::begin_marker(
                    profile_id,
                ) && text::trimmed(section[i]) != hosts::end_marker(profile_id)
                    && !hosts::opens_section(section[i])
        }),
{
    lemma_markers(profile_id);
    lemma_entries_pass(entries, entries.len());
    let section = hosts::section_lines(profile_id, entries);
    let n = entries.len() as int;
    assert forall|i: int| 1 <= i <= n implies text::trimmed(#[trigger] section[i])
        != hosts::begin_marker(profile_id) && text::trimmed(section[i]) != hosts::end_marker(
        profile_id,
    ) && !hosts::opens_section(section[i]) && plain(section[i]) && section[i].len() > 0 by {
        assert(section[i] == hosts::entry_line(entries[i - 1]));
        lemma_plain_entry(entries[i - 1]);
        lemma_entry_is_no_marker(entries[i - 1], profile_id);
    }
}

proof fn lemma_replaced_is_joinable(
    existing: Seq<char>,
    profile_id: Seq<char>,
    entries: Seq<ManagedHostsEntry>,
)
    requires
        hosts::replacement_fault(existing, profile_id, entries) is None,
        hosts::holds_section(existing, profile_id),
    ensures
        ({
            let ls = hosts::replaced_lines(existing, profile_id, entries);
            let part = return_part(hosts::line_break(existing));
            let feed = existing.len() > 0 && existing.last() == '\n';
            &&& joinable(ls, part)
            &&& part == Seq::<char>::empty() && feed && ls.last().len() > 0 ==> ls.last().last()
                != '\r'
            &&& !feed ==> ls.last().len() > 0
        }),
{
    let old_lines = text::lines(existing);
    let ls = hosts::replaced_lines(existing, profile_id, entries);
    let section = hosts::section_lines(profile_id, entries);
    let part = return_part(hosts::line_break(existing));
    let feed = existing.len() > 0 && existing.last() == '\n';
    let (start, after) = place(existing, profile_id);
    lemma_line_break(existing);
    lemma_existing_lines(existing);
    lemma_section(profile_id, entries);
    lemma_only_position(old_lines, hosts::begin_marker(profile_id));
    lemma_only_position(old_lines, hosts::end_marker(profile_id));
    assert forall|i: int| 0 <= i < ls.len() implies one_line(#[trigger] ls[i]) && (part == Seq::<
        char,
    >::empty() && (feed || i < ls.len() - 1) && ls[i].len() > 0 ==> ls[i].last() != '\r') by {
        if i < start {
            assert(ls[i] == old_lines[i]);
        } else if i < start + section.len() {
            assert(ls[i] == section[i - start]);
            assert(plain(section[i - start]));
        } else {
            assert(ls[i] == old_lines[after + (i - start - section.len())]);
        }
    }
    if !feed {
        if after < old_lines.len() {
            assert(ls.last() == old_lines.last());
        } else {
            assert(ls.last() == section[section.len() - 1]);
        }
    }
}

// -------------------------------------------------------------------------------- the laws

/// Where a file has no section of a profile yet, the new file begins with all that the old
/// one held, character by character.
pub proof fn law_appending_keeps_the_file(
    existing: Seq<char>,
    profile_id: Seq<char>,
    entries: Seq<ManagedHostsEntry>,
)
    requires
        !hosts::holds_section(existing, profile_id),
    ensures
        text::has_prefix(hosts::with_section(existing, profile_id, entries), existing),
{
    let r = hosts::with_section(existing, profile_id, entries);
    assert(r.take(existing.len() as int) == existing);
}

/// Where a file has a section of a profile, the lines of the new file are those of the old
/// one before and behind the section, with the new section between them.
pub proof fn law_replacing_keeps_all_other_lines(
    existing: Seq<char>,
    profile_id: Seq<char>,
    entries: Seq<ManagedHostsEntry>,
)
    requires
        hosts::replacement_fault(existing, profile_id, entries) is None,
        hosts::holds_section(existing, profile_id),
    ensures
        ({
            let before = text::lines(existing);
            let after = text::lines(hosts::with_section(existing, profile_id, entries));
            let start = hosts::positions(before, hosts::begin_marker(profile_id))[0];
            let finish = hosts::positions(before, hosts::end_marker(profile_id))[0];
            after == before.take(start) + hosts::section_lines(profile_id, entries) + before.skip(
                finish + 1,
            )
        }),
{
    let ls = hosts::replaced_lines(existing, profile_id, entries);
    let part = return_part(hosts::line_break(existing));
    lemma_line_break(existing);
    lemma_replaced_is_joinable(existing, profile_id, entries);
    if existing.len() > 0 && existing.last() == '\n' {
        lemma_lines_of_ended(ls, part);
    } else {
        lemma_lines_of_joined(ls, part);
    }
}

proof fn lemma_replaced_shape(
    existing: Seq<char>,
    profile_id: Seq<char>,
    entries: Seq<ManagedHostsEntry>,
)
    requires
        hosts::replacement_fault(existing, profile_id, entries) is None,
        hosts::holds_section(existing, profile_id),
    ensures
        hosts::line_break(hosts::replaced(existing, profile_id, entries)) == hosts::line_break(
            existing,
        ),
        ({
            let r = hosts::replaced(existing, profile_id, entries);
            (r.len() > 0 && r.last() == '\n') == (existing.len() > 0 && existing.last() == '\n')
        }),
{
    let ls = hosts::replaced_lines(existing, profile_id, entries);
    let r = hosts::replaced(existing, profile_id, entries);
    let part = return_part(hosts::line_break(existing));
    lemma_line_break(existing);
    lemma_line_break(r);
    lemma_replaced_is_joinable(existing, profile_id, entries);
    lemma_section(profile_id, entries);
    lemma_break_is_a_returned_piece(r);
    lemma_last_piece(r);
    let feed = existing.len() > 0 && existing.last() == '\n';
    assert(ls.len() >= 2) by {
        lemma_only_position(text::lines(existing), hosts::begin_marker(profile_id));
        lemma_only_position(text::lines(existing), hosts::end_marker(profile_id));
    }
    let longer = if feed {
        ls.push(Seq::<char>::empty())
    } else {
        ls
    };
    if feed {
        lemma_lines_of_ended(ls, part);
        assert(r.last() == '\n');
    } else {
        lemma_split_joined(ls, part);
        assert(text::split(r, '\n').last() == ls.last());
    }
    let pieces = text::split(r, '\n');
    assert(pieces == ended_pieces(longer, part));
    if part == seq!['\r'] {
        assert(pieces[0] == longer[0] + part);
        assert(pieces[0].last() == '\r');
        assert(has_returned_piece(r));
    } else {
        if has_returned_piece(r) {
            let i = choose|i: int|
                0 <= i < pieces.len() - 1 && (#[trigger] pieces[i]).len() > 0 && pieces[i].last()
                    == '\r';
            assert(pieces[i] == longer[i] + part);
            assert(longer[i] + part == longer[i]);
            assert(longer[i] == ls[i]);
        }
        assert(!has_returned_piece(r));
    }
}

/// The second replacement in a file that held a section succeeds and returns the file as it is.
proof fn lemma_replacing_held_again(
    existing: Seq<char>,
    profile_id: Seq<char>,
    entries: Seq<ManagedHostsEntry>,
)
    requires
        hosts::replacement_fault(existing, profile_id, entries) is None,
        hosts::holds_section(existing, profile_id),
    ensures
        ({
            let once = hosts::with_section(existing, profile_id, entries);
            &&& hosts::replacement_fault(once, profile_id, entries) is None
            &&& hosts::holds_section(once, profile_id)
            &&& hosts::with_section(once, profile_id, entries) == once
            &&& hosts::replaced_lines(once, profile_id, entries) == text::lines(once)
        }),
{
    let begin = hosts::begin_marker(profile_id);
    let end = hosts::end_marker(profile_id);
    let old_lines = text::lines(existing);
    let section = hosts::section_lines(profile_id, entries);
    let once = hosts::with_section(existing, profile_id, entries);
    let ls = hosts::replaced_lines(existing, profile_id, entries);
    let n = entries.len() as int;
    let (start, after) = place(existing, profile_id);
    law_replacing_keeps_all_other_lines(existing, profile_id, entries);
    lemma_replaced_shape(existing, profile_id, entries);
    lemma_section(profile_id, entries);
    lemma_markers(profile_id);
    lemma_only_position(old_lines, begin);
    lemma_only_position(old_lines, end);
    assert(text::lines(once) == ls);
    assert forall|i: int| 0 <= i < ls.len() && i != start implies text::trimmed(#[trigger] ls[i])
        != begin by {
        if i < start {
            assert(ls[i] == old_lines[i]);
        } else if i < start + section.len() {
            assert(ls[i] == section[i - start]);
        } else {
            assert(ls[i] == old_lines[after + (i - start - section.len())]);
        }
    }
    assert(ls[start] == section[0]);
    lemma_single_position(ls, begin, start);
    let last = start + n + 1;
    assert forall|i: int| 0 <= i < ls.len() && i != last implies text::trimmed(#[trigger] ls[i])
        != end by {
        if i < start {
            assert(ls[i] == old_lines[i]);
        } else if i < start + section.len() {
            assert(ls[i] == section[i - start]);
        } else {
            assert(ls[i] == old_lines[after + (i - start - section.len())]);
        }
    }
    assert(ls[last] == section[n + 1]);
    lemma_single_position(ls, end, last);
    assert forall|i: int| start < i < last implies !hosts::opens_section(#[trigger] ls[i]) by {
        assert(ls[i] == section[i - start]);
    }
    assert(ls.take(start) + section + ls.skip(last + 1) =~= ls);
}

/// Whether no line is a marker.
spec fn unmarked(ls: Seq<Seq<char>>, marker: Seq<char>) -> bool {
    forall|i: int| 0 <= i < ls.len() ==> text::trimmed(#[trigger] ls[i]) != marker
}

proof fn lemma_split_behind_feed(a: Seq<char>, b: Seq<char>)
    requires
        a.len() == 0 || a.last() == '\n',
    ensures
        text::split(a, '\n').len() > 0,
        text::split(b, '\n').len() > 0,
        text::split(a + b, '\n') == text::split(a, '\n').drop_last() + text::split(b, '\n'),
    decreases b.len(),
{
    text::lemma_split_not_empty(a, '\n');
    text::lemma_split_not_empty(b, '\n');
    let head = text::split(a, '\n');
    if b.len() == 0 {
        assert(a + b =~= a);
        lemma_last_piece(a);
        assert(head.last() =~= Seq::<char>::empty());
        assert(head.drop_last() + text::split(b, '\n') =~= head);
    } else {
        let shorter = b.drop_last();
        lemma_split_behind_feed(a, shorter);
        assert((a + b).drop_last() =~= a + shorter);
        assert((a + b).last() == b.last());
        assert(text::split(a + b, '\n') =~= head.drop_last() + text::split(b, '\n'));
    }
}

proof fn lemma_trimmed_without_return(q: Seq<char>)
    requires
        q.len() > 0,
        q.last() == '\r',
    ensures
        text::trimmed(q.drop_last()) == text::trimmed(q),
    decreases q.len(),
{
    let x = q.drop_last();
    if x.len() == 0 {
        assert(q[0] == '\r');
        assert(q.drop_first() =~= Seq::<char>::empty());
        assert(x =~= Seq::<char>::empty());
    } else if text::is_whitespace(x[0]) {
        let rest = q.drop_first();
        assert(rest.drop_last() =~= x.drop_first());
        lemma_trimmed_without_return(rest);
    } else {
        assert(text::trim_start(q) == q);
    }
}

proof fn lemma_line_added(s: Seq<char>, part: Seq<char>, marker: Seq<char>)
    requires
        part == seq!['\r'] || part == Seq::<char>::empty(),
        marker.len() > 0,
        unmarked(text::lines(s), marker),
    ensures
        unmarked(text::lines(s + (part + seq!['\n'])), marker),
{
    let t = s + (part + seq!['\n']);
    let empty = Seq::<char>::empty();
    text::lemma_split_not_empty(s, '\n');
    lemma_split_extends(s, part);
    lemma_split_at_feed(s + part, empty);
    assert(t =~= s + part + seq!['\n'] + empty);
    let p = text::split(s, '\n');
    let q = p.last();
    let pieces = text::split(t, '\n');
    assert(pieces.last() == empty);
    let ls = text::lines(t);
    assert forall|i: int| 0 <= i < ls.len() implies text::trimmed(#[trigger] ls[i]) != marker by {
        assert(ls[i] == text::without_carriage_return(pieces[i]));
        if i < p.len() - 1 {
            assert(pieces[i] == p[i]);
            assert(text::lines(s)[i] == text::without_carriage_return(p[i]));
        } else {
            assert(pieces[i] == q + part);
            if q.len() == 0 {
                assert(ls[i] =~= empty);
                assert(text::trimmed(empty) == empty);
            } else {
                assert(text::lines(s)[p.len() - 1] == q);
                if part == seq!['\r'] {
                    lemma_without_return(q, part);
                } else {
                    assert(q + part =~= q);
                    if q.last() == '\r' {
                        lemma_trimmed_without_return(q);
                    }
                }
            }
        }
    }
}

proof fn lemma_set_apart(existing: Seq<char>, marker: Seq<char>)
    requires
        marker.len() > 0,
        unmarked(text::lines(existing), marker),
    ensures
        ({
            let a = hosts::set_apart(existing);
            &&& a.len() == 0 || a.last() == '\n'
            &&& unmarked(text::lines(a), marker)
        }),
{
    let nl = hosts::line_break(existing);
    let part = return_part(nl);
    lemma_line_break(existing);
    let ended = hosts::line_ended(existing);
    if existing.len() > 0 && !hosts::ends_line(existing) {
        lemma_line_added(existing, part, marker);
    }
    if ended.len() > 0 && !text::has_suffix(ended, nl + nl) {
        lemma_line_added(ended, part, marker);
    } else if ended.len() > 0 {
        let twice = nl + nl;
        assert(twice[twice.len() - 1] == '\n');
        assert(ended.skip(ended.len() - twice.len()) == twice);
        assert(ended[ended.len() - 1] == twice[twice.len() - 1]);
    }
}

proof fn lemma_appended_lines(
    existing: Seq<char>,
    profile_id: Seq<char>,
    entries: Seq<ManagedHostsEntry>,
)
    requires
        hosts::replacement_fault(existing, profile_id, entries) is None,
        hosts::set_apart(existing).len() == 0 || hosts::set_apart(existing).last() == '\n',
    ensures
        text::lines(hosts::appended(existing, profile_id, entries)) == text::lines(
            hosts::set_apart(existing),
        ) + hosts::section_lines(profile_id, entries),
{
    let nl = hosts::line_break(existing);
    let part = return_part(nl);
    let section = hosts::section_lines(profile_id, entries);
    let a = hosts::set_apart(existing);
    let b = text::joined(section, nl) + nl;
    lemma_line_break(existing);
    lemma_section(profile_id, entries);
    assert forall|i: int| 0 <= i < section.len() implies one_line(#[trigger] section[i]) && (
    section[i].len() > 0 ==> section[i].last() != '\r') by {
        assert(plain(section[i]));
    }
    assert(joinable(section, part));
    lemma_lines_of_ended(section, part);
    lemma_split_behind_feed(a, b);
    lemma_last_piece(a);
    let first = text::split(a, '\n');
    let second = text::split(b, '\n');
    let pieces = first.drop_last() + second;
    assert(second.last() == Seq::<char>::empty());
    assert(pieces.last() == second.last());
    let ls = text::lines(a + b);
    assert(ls.len() == pieces.len() - 1);
    assert(text::lines(a).len() == first.len() - 1);
    assert(text::lines(b) == section);
    assert(section.len() == second.len() - 1);
    assert forall|i: int| 0 <= i < ls.len() implies #[trigger] ls[i] == (text::lines(a)
        + section)[i] by {
        assert(ls[i] == text::without_carriage_return(pieces[i]));
        if i < first.len() - 1 {
            assert(pieces[i] == first[i]);
        } else {
            let k = i - (first.len() - 1);
            assert(pieces[i] == second[k]);
            assert(text::lines(b)[k] == text::without_carriage_return(second[k]));
        }
    }
    assert(ls =~= text::lines(a) + section);
}

proof fn lemma_is_unmarked(ls: Seq<Seq<char>>, marker: Seq<char>)
    requires
        hosts::positions(ls, marker).len() == 0,
    ensures
        unmarked(ls, marker),
{
    lemma_positions(ls, marker);
}

proof fn lemma_replacing_again(
    existing: Seq<char>,
    profile_id: Seq<char>,
    entries: Seq<ManagedHostsEntry>,
)
    requires
        hosts::replacement_fault(existing, profile_id, entries) is None,
    ensures
        ({
            let once = hosts::with_section(existing, profile_id, entries);
            &&& hosts::replacement_fault(once, profile_id, entries) is None
            &&& hosts::holds_section(once, profile_id)
            &&& text::lines(hosts::with_section(once, profile_id, entries)) == text::lines(once)
            &&& hosts::replaced_lines(once, profile_id, entries) == text::lines(once)
        }),
{
    if hosts::holds_section(existing, profile_id) {
        lemma_replacing_held_again(existing, profile_id, entries);
    } else {
        let begin = hosts::begin_marker(profile_id);
        let end = hosts::end_marker(profile_id);
        let section = hosts::section_lines(profile_id, entries);
        let once = hosts::appended(existing, profile_id, entries);
        let kept = text::lines(hosts::set_apart(existing));
        let n = entries.len() as int;
        let start = kept.len() as int;
        let last = start + n + 1;
        lemma_markers(profile_id);
        lemma_section(profile_id, entries);
        lemma_is_unmarked(text::lines(existing), begin);
        lemma_is_unmarked(text::lines(existing), end);
        lemma_set_apart(existing, begin);
        lemma_set_apart(existing, end);
        lemma_appended_lines(existing, profile_id, entries);
        let ls = text::lines(once);
        assert(ls == kept + section);
        assert forall|i: int| 0 <= i < ls.len() && i != start implies text::trimmed(
            #[trigger] ls[i],
        ) != begin by {
            if i < start {
                assert(ls[i] == kept[i]);
            } else {
                assert(ls[i] == section[i - start]);
            }
        }
        assert(ls[start] == section[0]);
        lemma_single_position(ls, begin, start);
        assert forall|i: int| 0 <= i < ls.len() && i != last implies text::trimmed(
            #[trigger] ls[i],
        ) != end by {
            if i < start {
                assert(ls[i] == kept[i]);
            } else {
                assert(ls[i] == section[i - start]);
            }
        }
        assert(ls[last] == section[n + 1]);
        lemma_single_position(ls, end, last);
        assert forall|i: int| start < i < last implies !hosts::opens_section(
            #[trigger] ls[i],
        ) by {
            assert(ls[i] == section[i - start]);
        }
        law_replacing_keeps_all_other_lines(once, profile_id, entries);
        assert(ls.take(start) + section + ls.skip(last + 1) =~= ls);
    }
}

/// Putting the same section into a file again, whether it held one before or not, changes no
/// line: the second replacement succeeds, and the lines of the file stay as they are.
pub proof fn law_replacing_again_changes_no_line(
    existing: Seq<char>,
    profile_id: Seq<char>,
    entries: Seq<ManagedHostsEntry>,
)
    requires
        hosts::replacement_fault(existing, profile_id, entries) is None,
    ensures
        ({
            let once = hosts::with_section(existing, profile_id, entries);
            &&& hosts::replacement_fault(once, profile_id, entries) is None
            &&& hosts::holds_section(once, profile_id)
            &&& text::lines(hosts::with_section(once, profile_id, entries)) == text::lines(once)
        }),
{
    lemma_replacing_again(existing, profile_id, entries);
}

// ------------------------------------------------------------------------ texts put together

/// Whether a text ends with a carriage return.
pub open spec fn returned(s: Seq<char>) -> bool {
    s.len() > 0 && s.last() == '\r'
}

/// Whether a file has line breaks of one kind: a carriage return is before each line feed, and
/// there is one; or there is none before any of them, nor at the end of the file.
pub open spec fn one_kind_of_break(s: Seq<char>) -> bool {
    let pieces = text::split(s, '\n');
    ||| pieces.len() > 1 && forall|i: int|
        0 <= i < pieces.len() - 1 ==> returned(#[trigger] pieces[i])
    ||| forall|i: int| 0 <= i < pieces.len() ==> !returned(#[trigger] pieces[i])
}

/// Whether a text is made of lines that all end with the same line break.
spec fn evenly_ended(s: Seq<char>, part: Seq<char>) -> bool {
    &&& s.len() == 0 || s.last() == '\n'
    &&& part == seq!['\r'] || part == Seq::<char>::empty()
    &&& forall|i: int|
        0 <= i < text::split(s, '\n').len() - 1 ==> returned(#[trigger] text::split(s, '\n')[i])
            == (part == seq!['\r'])
}

proof fn lemma_split_joins_again(s: Seq<char>)
    ensures
        text::split(s, '\n').len() > 0,
        text::joined(text::split(s, '\n'), seq!['\n']) == s,
    decreases s.len(),
{
    let nl = seq!['\n'];
    text::lemma_split_not_empty(s, '\n');
    if s.len() > 0 {
        let shorter = s.drop_last();
        lemma_split_joins_again(shorter);
        let before = text::split(shorter, '\n');
        let pieces = text::split(s, '\n');
        if s.last() == '\n' {
            assert(pieces.drop_last() =~= before);
            assert(shorter + nl + Seq::<char>::empty() =~= s);
        } else {
            assert(pieces.drop_last() =~= before.drop_last());
            if before.len() == 1 {
                assert(before[0] == shorter);
                assert(pieces[0] =~= s);
            } else {
                let head = text::joined(before.drop_last(), nl) + nl;
                assert(head + before.last() == shorter);
                assert(head + before.last().push(s.last()) =~= (head + before.last()).push(
                    s.last(),
                ));
                assert(shorter.push(s.last()) =~= s);
            }
        }
    }
}

/// Lines that each end with a part, joined by line feeds, are the lines joined by that part and
/// a line feed.
proof fn lemma_joined_with_parts(pieces: Seq<Seq<char>>, ls: Seq<Seq<char>>, part: Seq<char>)
    requires
        pieces.len() == ls.len(),
        ls.len() > 0,
        forall|i: int| 0 <= i < ls.len() ==> #[trigger] pieces[i] == ls[i] + part,
    ensures
        text::joined(pieces, seq!['\n']) == text::joined(ls, part + seq!['\n']) + part,
    decreases ls.len(),
{
    let nl = seq!['\n'];
    assert(pieces[ls.len() - 1] == ls[ls.len() - 1] + part);
    if ls.len() > 1 {
        let p = pieces.drop_last();
        let l = ls.drop_last();
        assert forall|i: int| 0 <= i < l.len() implies #[trigger] p[i] == l[i] + part by {
            assert(pieces[i] == ls[i] + part);
        }
        lemma_joined_with_parts(p, l, part);
        let head = text::joined(l, part + nl);
        assert(head + part + nl + (ls.last() + part) =~= head + (part + nl) + ls.last() + part);
    }
}

/// A text of evenly ended lines is its lines put together again.
proof fn lemma_put_together(s: Seq<char>, part: Seq<char>)
    requires
        evenly_ended(s, part),
        s.len() > 0,
    ensures
        text::joined(text::lines(s), part + seq!['\n']) + (part + seq!['\n']) == s,
{
    let nl = seq!['\n'];
    let pieces = text::split(s, '\n');
    let ls = text::lines(s);
    lemma_split_joins_again(s);
    lemma_last_piece(s);
    let full = pieces.drop_last();
    assert(pieces.len() > 1) by {
        if pieces.len() == 1 {
            assert(text::joined(pieces, nl) == pieces[0]);
        }
    }
    assert forall|i: int| 0 <= i < ls.len() implies #[trigger] full[i] == ls[i] + part by {
        assert(full[i] == pieces[i]);
        assert(ls[i] == text::without_carriage_return(pieces[i]));
        assert(returned(pieces[i]) == (part == seq!['\r']));
        if part == seq!['\r'] {
            assert(pieces[i].drop_last() + part =~= pieces[i]);
        } else {
            assert(ls[i] + part =~= pieces[i]);
        }
    }
    lemma_joined_with_parts(full, ls, part);
    let body = text::joined(ls, part + nl);
    assert(pieces.last() =~= Seq::<char>::empty());
    assert(s == text::joined(full, nl) + nl + pieces.last());
    assert(body + part + nl + Seq::<char>::empty() =~= body + (part + nl));
}

/// Ending the last line of a text keeps its lines evenly ended.
proof fn lemma_evenly_ended_further(s: Seq<char>, part: Seq<char>)
    requires
        part == seq!['\r'] || part == Seq::<char>::empty(),
        forall|i: int|
            0 <= i < text::split(s, '\n').len() - 1 ==> returned(
                #[trigger] text::split(s, '\n')[i],
            ) == (part == seq!['\r']),
        part == Seq::<char>::empty() ==> !returned(text::split(s, '\n').last()),
    ensures
        evenly_ended(s + (part + seq!['\n']), part),
{
    let t = s + (part + seq!['\n']);
    let empty = Seq::<char>::empty();
    text::lemma_split_not_empty(s, '\n');
    lemma_split_extends(s, part);
    lemma_split_at_feed(s + part, empty);
    assert(t =~= s + part + seq!['\n'] + empty);
    let p = text::split(s, '\n');
    let pieces = text::split(t, '\n');
    assert(pieces == p.drop_last().push(p.last() + part).push(empty));
    assert(t.last() == '\n');
    assert forall|i: int| 0 <= i < pieces.len() - 1 implies returned(#[trigger] pieces[i]) == (part
        == seq!['\r']) by {
        if i < p.len() - 1 {
            assert(pieces[i] == p[i]);
        } else {
            assert(pieces[i] == p.last() + part);
            if part == seq!['\r'] {
                assert((p.last() + part).last() == '\r');
            } else {
                assert(p.last() + part =~= p.last());
            }
        }
    }
}

proof fn lemma_set_apart_evenly(existing: Seq<char>)
    requires
        one_kind_of_break(existing),
    ensures
        evenly_ended(
            hosts::set_apart(existing),
            return_part(hosts::line_break(existing)),
        ),
{
    let nl = hosts::line_break(existing);
    let part = return_part(nl);
    let pieces = text::split(existing, '\n');
    lemma_line_break(existing);
    lemma_break_is_a_returned_piece(existing);
    lemma_last_piece(existing);
    if pieces.len() > 1 && returned(pieces[0]) {
        assert(has_returned_piece(existing));
        assert(part == seq!['\r']);
    } else {
        assert forall|i: int| 0 <= i < pieces.len() implies !returned(#[trigger] pieces[i]) by {
            if pieces.len() > 1 {
                assert(!returned(pieces[0]));
            }
        }
        assert(!has_returned_piece(existing));
        assert(part == Seq::<char>::empty());
        assert(part != seq!['\r']);
    }
    let ended = hosts::line_ended(existing);
    if existing.len() > 0 && !hosts::ends_line(existing) {
        lemma_evenly_ended_further(existing, part);
        lemma_last_piece(ended);
        lemma_evenly_ended_further(ended, part);
    } else if existing.len() > 0 {
        lemma_evenly_ended_further(existing, part);
        if text::has_suffix(ended, nl + nl) {
            let twice = nl + nl;
            assert(twice[twice.len() - 1] == '\n');
            assert(ended.skip(ended.len() - twice.len()) == twice);
            assert(ended[ended.len() - 1] == twice[twice.len() - 1]);
        }
    }
}

proof fn lemma_appended_evenly(
    existing: Seq<char>,
    profile_id: Seq<char>,
    entries: Seq<ManagedHostsEntry>,
)
    requires
        hosts::replacement_fault(existing, profile_id, entries) is None,
        one_kind_of_break(existing),
    ensures
        ({
            let once = hosts::appended(existing, profile_id, entries);
            &&& once.len() > 0
            &&& evenly_ended(once, return_part(hosts::line_break(existing)))
            &&& hosts::line_break(once) == hosts::line_break(existing)
        }),
{
    let nl = hosts::line_break(existing);
    let part = return_part(nl);
    let section = hosts::section_lines(profile_id, entries);
    let a = hosts::set_apart(existing);
    let b = text::joined(section, nl) + nl;
    let once = hosts::appended(existing, profile_id, entries);
    lemma_line_break(existing);
    lemma_line_break(once);
    lemma_set_apart_evenly(existing);
    lemma_section(profile_id, entries);
    assert forall|i: int| 0 <= i < section.len() implies one_line(#[trigger] section[i]) && (
    section[i].len() > 0 ==> section[i].last() != '\r') by {
        assert(plain(section[i]));
    }
    assert(joinable(section, part));
    lemma_lines_of_ended(section, part);
    lemma_split_behind_feed(a, b);
    let first = text::split(a, '\n');
    let second = text::split(b, '\n');
    let pieces = text::split(once, '\n');
    let longer = section.push(Seq::<char>::empty());
    assert(second == ended_pieces(longer, part));
    assert(pieces == first.drop_last() + second);
    assert(once.last() == '\n');
    assert forall|i: int| 0 <= i < pieces.len() - 1 implies returned(#[trigger] pieces[i]) == (part
        == seq!['\r']) by {
        if i < first.len() - 1 {
            assert(pieces[i] == first[i]);
        } else {
            let k = i - (first.len() - 1);
            assert(pieces[i] == second[k]);
            assert(longer[k] == section[k]);
            assert(second[k] == section[k] + part);
            if part == seq!['\r'] {
                assert((section[k] + part).last() == '\r');
            } else {
                assert(section[k] + part =~= section[k]);
            }
        }
    }
    lemma_break_is_a_returned_piece(once);
    if part == seq!['\r'] {
        let at = first.len() - 1;
        assert(returned(pieces[at]));
        assert(has_returned_piece(once));
    } else {
        assert(!has_returned_piece(once)) by {
            if has_returned_piece(once) {
                let i = choose|i: int|
                    0 <= i < pieces.len() - 1 && (#[trigger] pieces[i]).len() > 0
                        && pieces[i].last() == '\r';
                assert(returned(pieces[i]));
            }
        }
    }
}

/// Putting the same section into a file again changes nothing: the second replacement succeeds
/// and returns the file as it is, character by character. A file that held no section of the
/// profile before has to have line breaks of one kind.
pub proof fn law_replacing_again_changes_nothing(
    existing: Seq<char>,
    profile_id: Seq<char>,
    entries: Seq<ManagedHostsEntry>,
)
    requires
        hosts::replacement_fault(existing, profile_id, entries) is None,
        hosts::holds_section(existing, profile_id) || one_kind_of_break(existing),
    ensures
        ({
            let once = hosts::with_section(existing, profile_id, entries);
            &&& hosts::replacement_fault(once, profile_id, entries) is None
            &&& hosts::holds_section(once, profile_id)
            &&& hosts::with_section(once, profile_id, entries) == once
        }),
{
    if hosts::holds_section(existing, profile_id) {
        lemma_replacing_held_again(existing, profile_id, entries);
    } else {
        let once = hosts::appended(existing, profile_id, entries);
        let part = return_part(hosts::line_break(existing));
        lemma_replacing_again(existing, profile_id, entries);
        lemma_appended_evenly(existing, profile_id, entries);
        lemma_line_break(existing);
        lemma_put_together(once, part);
    }
}

proof fn lemma_pieces_without(s: Seq<char>, c: char)
    requires
        !s.contains(c),
    ensures
        forall|i: int|
            0 <= i < text::split(s, '\n').len() ==> !(#[trigger] text::split(s, '\n')[i]).contains(
                c,
            ),
    decreases s.len(),
{
    text::lemma_split_not_empty(s, '\n');
    if s.len() > 0 {
        let shorter = s.drop_last();
        let before = text::split(shorter, '\n');
        let pieces = text::split(s, '\n');
        assert(s[s.len() - 1] != c);
        assert(!shorter.contains(c)) by {
            if shorter.contains(c) {
                let k = choose|k: int| 0 <= k < shorter.len() && shorter[k] == c;
                assert(s[k] == c);
            }
        }
        lemma_pieces_without(shorter, c);
        text::lemma_split_not_empty(shorter, '\n');
        assert forall|i: int| 0 <= i < pieces.len() implies !(#[trigger] pieces[i]).contains(c) by {
            if i < before.len() - 1 || (s.last() == '\n' && i < before.len()) {
                assert(pieces[i] == before[i]);
            } else if s.last() != '\n' {
                let last = before[before.len() - 1];
                assert(!last.contains(c));
                assert(pieces[i] == last.push(s.last()));
                if pieces[i].contains(c) {
                    let k = choose|k: int| 0 <= k < pieces[i].len() && pieces[i][k] == c;
                    if k < last.len() {
                        assert(last[k] == c);
                    }
                }
            }
        }
    }
}

/// What the replacement makes of a file without carriage returns. Where the file held no
/// section of the profile, the new file begins with all that the old one held and ends with the
/// section. Otherwise the section is in place of the old one, and nothing else is changed: the
/// other lines stay, in their order, and so does the line feed at the end, or that there is
/// none. Putting the same section in again returns the very same file.
pub proof fn law_replacing_in_a_file_without_returns(
    existing: Seq<char>,
    profile_id: Seq<char>,
    entries: Seq<ManagedHostsEntry>,
)
    requires
        hosts::replacement_fault(existing, profile_id, entries) is None,
        !existing.contains('\r'),
    ensures
        ({
            let once = hosts::with_section(existing, profile_id, entries);
            let section = hosts::section_lines(profile_id, entries);
            let ls = text::lines(existing);
            let start = hosts::positions(ls, hosts::begin_marker(profile_id))[0];
            let finish = hosts::positions(ls, hosts::end_marker(profile_id))[0];
            &&& if hosts::holds_section(existing, profile_id) {
                &&& text::lines(once) == ls.take(start) + section + ls.skip(finish + 1)
                &&& (once.len() > 0 && once.last() == '\n') == (existing.len() > 0
                    && existing.last() == '\n')
                &&& once == text::joined(ls.take(start) + section + ls.skip(finish + 1), "\n"@) + (
                if existing.last() == '\n' {
                    "\n"@
                } else {
                    Seq::empty()
                })
            } else {
                &&& text::has_prefix(once, existing)
                &&& text::has_suffix(once, text::joined(section, "\n"@) + "\n"@)
            }
            &&& hosts::replacement_fault(once, profile_id, entries) is None
            &&& hosts::holds_section(once, profile_id)
            &&& hosts::with_section(once, profile_id, entries) == once
        }),
{
    let once = hosts::with_section(existing, profile_id, entries);
    let pieces = text::split(existing, '\n');
    lemma_pieces_without(existing, '\r');
    assert forall|i: int| 0 <= i < pieces.len() implies !returned(#[trigger] pieces[i]) by {
        if returned(pieces[i]) {
            assert(pieces[i][pieces[i].len() - 1] == '\r');
            assert(pieces[i].contains('\r'));
        }
    }
    assert(one_kind_of_break(existing));
    law_replacing_again_changes_nothing(existing, profile_id, entries);
    lemma_break_is_a_returned_piece(existing);
    assert(!has_returned_piece(existing)) by {
        if has_returned_piece(existing) {
            let i = choose|i: int|
                0 <= i < pieces.len() - 1 && (#[trigger] pieces[i]).len() > 0 && pieces[i].last()
                    == '\r';
            assert(returned(pieces[i]));
        }
    }
    if hosts::holds_section(existing, profile_id) {
        law_replacing_keeps_all_other_lines(existing, profile_id, entries);
        lemma_replaced_shape(existing, profile_id, entries);
        assert(existing.len() > 0) by {
            if existing.len() == 0 {
                assert(text::lines(existing) =~= Seq::<Seq<char>>::empty());
            }
        }
        let body = text::joined(hosts::replaced_lines(existing, profile_id, entries), "\n"@);
        assert(body + Seq::<char>::empty() =~= body);
    } else {
        law_appending_keeps_the_file(existing, profile_id, entries);
        let tail = text::joined(hosts::section_lines(profile_id, entries), "\n"@) + "\n"@;
        assert(once.skip(once.len() - tail.len()) =~= tail);
    }
}

} // verus!
