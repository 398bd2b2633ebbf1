//! The managed section of the hosts file, and its replacement without loss.

use crate::error::{ErrorCode, NetToolError};
use crate::net::{format_address, IpAddr};
use crate::text;
use crate::text::{
    byte_len, chars_of, contains, contains_char, ends_with, has_only_alphanumeric_or, join,
    lines_of, same, starts_with, trim,
};
use vstd::prelude::*;
use vstd::utf8::encode_utf8;

verus! {

/// An entry of the managed section.
#[derive(Clone, Debug, PartialEq, Eq)]
pub struct ManagedHostsEntry {
    /// The address.
    pub address: IpAddr,
    /// The host name.
    pub hostname: String,
    /// A comment without line breaks.
    pub comment: Option<String>,
    /// Whether the entry is in force.
    pub enabled: bool,
}

/// The line that opens the section of a profile.
pub open spec fn begin_marker(profile_id: Seq<char>) -> Seq<char> {
    "# BEGIN NETTOOL PROFILE "@ + profile_id
}

/// The line that closes the section of a profile.
pub open spec fn end_marker(profile_id: Seq<char>) -> Seq<char> {
    "# END NETTOOL PROFILE "@ + profile_id
}

/// Whether a text can name a profile: ASCII letters, digits, hyphens and underscores.
pub open spec fn profile_valid(profile_id: Seq<char>) -> bool {
    profile_id.len() > 0 && text::only_alphanumeric_or(profile_id, "-_"@)
}

/// What is wrong with an entry, if something is.
pub open spec fn entry_fault(entry: ManagedHostsEntry) -> Option<Seq<char>> {
    if entry.hostname@.len() == 0 || encode_utf8(entry.hostname@).len() > 253
        || !text::only_alphanumeric_or(entry.hostname@, "-._"@) {
        Some("hosts entry hostname is invalid"@)
    } else if entry.comment matches Some(c) && (c@.contains('\r') || c@.contains('\n')) {
        Some("hosts entry comment contains a newline"@)
    } else {
        None
    }
}

/// What is wrong with the first entries, if something is.
pub open spec fn first_entry_fault(entries: Seq<ManagedHostsEntry>, n: nat) -> Option<Seq<char>>
    decreases n,
{
    if n == 0 {
        None
    } else {
        match first_entry_fault(entries, (n - 1) as nat) {
            Some(fault) => Some(fault),
            None => entry_fault(entries[n - 1]),
        }
    }
}

/// The line break that a file uses.
pub open spec fn line_break(existing: Seq<char>) -> Seq<char> {
    if text::occurs(existing, "\r\n"@) {
        "\r\n"@
    } else {
        "\n"@
    }
}

/// The line of an entry.
pub open spec fn entry_line(entry: ManagedHostsEntry) -> Seq<char> {
    let comment = match entry.comment {
        Some(c) => " # "@ + c@,
        None => ""@,
    };
    let mapping = entry.address.text() + " "@ + entry.hostname@ + comment;
    if entry.enabled {
        mapping
    } else {
        "# NETTOOL DISABLED "@ + mapping
    }
}

/// The lines of the section of a profile.
pub open spec fn section_lines(
    profile_id: Seq<char>,
    entries: Seq<ManagedHostsEntry>,
) -> Seq<Seq<char>> {
    seq![begin_marker(profile_id)] + Seq::new(
        entries.len(),
        |i: int| entry_line(entries[i]),
    ) + seq![end_marker(profile_id)]
}

/// Where a marker stands among lines.
pub open spec fn positions(ls: Seq<Seq<char>>, marker: Seq<char>) -> Seq<int>
    decreases ls.len(),
{
    if ls.len() == 0 {
        Seq::empty()
    } else {
        let head = positions(ls.drop_last(), marker);
        if text::trimmed(ls.last()) == marker {
            head.push(ls.len() - 1)
        } else {
            head
        }
    }
}

/// Whether a line opens the section of some profile.
pub open spec fn opens_section(line: Seq<char>) -> bool {
    text::has_prefix(text::trimmed(line), "# BEGIN NETTOOL PROFILE "@)
}

/// Why the section cannot be replaced, if it cannot.
pub open spec fn replacement_fault(
    existing: Seq<char>,
    profile_id: Seq<char>,
    entries: Seq<ManagedHostsEntry>,
) -> Option<Seq<char>> {
    let ls = text::lines(existing);
    let begins = positions(ls, begin_marker(profile_id));
    let ends = positions(ls, end_marker(profile_id));
    if !profile_valid(profile_id) {
        Some("hosts profile ID contains unsupported characters"@)
    } else if first_entry_fault(entries, entries.len()) is Some {
        first_entry_fault(entries, entries.len())
    } else if begins.len() > 1 || ends.len() > 1 || begins.len() != ends.len() {
        Some("managed hosts markers are missing or duplicated"@)
    } else if begins.len() == 1 && (ends[0] < begins[0] || exists|i: int|
        begins[0] < i < ends[0] && opens_section(#[trigger] ls[i])) {
        Some("managed hosts markers are nested or out of order"@)
    } else {
        None
    }
}

/// Whether a text ends with a line feed or a carriage return.
pub open spec fn ends_line(s: Seq<char>) -> bool {
    s.len() > 0 && (s.last() == '\n' || s.last() == '\r')
}

/// A text with its last line ended.
pub open spec fn line_ended(existing: Seq<char>) -> Seq<char> {
    if existing.len() > 0 && !ends_line(existing) {
        existing + line_break(existing)
    } else {
        existing
    }
}

/// A text, with an empty line at the end unless it is empty.
pub open spec fn set_apart(existing: Seq<char>) -> Seq<char> {
    let nl = line_break(existing);
    let ended = line_ended(existing);
    if ended.len() > 0 && !text::has_suffix(ended, nl + nl) {
        ended + nl
    } else {
        ended
    }
}

/// The file with the section behind all it held.
pub open spec fn appended(
    existing: Seq<char>,
    profile_id: Seq<char>,
    entries: Seq<ManagedHostsEntry>,
) -> Seq<char> {
    let nl = line_break(existing);
    set_apart(existing) + (text::joined(section_lines(profile_id, entries), nl) + nl)
}

/// The lines of the file with the section in place of the old one.
pub open spec fn replaced_lines(
    existing: Seq<char>,
    profile_id: Seq<char>,
    entries: Seq<ManagedHostsEntry>,
) -> Seq<Seq<char>> {
    let ls = text::lines(existing);
    let start = positions(ls, begin_marker(profile_id))[0];
    let finish = positions(ls, end_marker(profile_id))[0];
    ls.take(start) + section_lines(profile_id, entries) + ls.skip(finish + 1)
}

/// The file with the section in place of the old one.
pub open spec fn replaced(
    existing: Seq<char>,
    profile_id: Seq<char>,
    entries: Seq<ManagedHostsEntry>,
) -> Seq<char> {
    let nl = line_break(existing);
    let body = text::joined(replaced_lines(existing, profile_id, entries), nl);
    if existing.len() > 0 && existing.last() == '\n' {
        body + nl
    } else {
        body
    }
}

/// Whether a file holds the section of a profile.
pub open spec fn holds_section(existing: Seq<char>, profile_id: Seq<char>) -> bool {
    positions(text::lines(existing), begin_marker(profile_id)).len() > 0
}

/// The file after the replacement.
pub open spec fn with_section(
    existing: Seq<char>,
    profile_id: Seq<char>,
    entries: Seq<ManagedHostsEntry>,
) -> Seq<char> {
    if holds_section(existing, profile_id) {
        replaced(existing, profile_id, entries)
    } else {
        appended(existing, profile_id, entries)
    }
}

// ------------------------------------------------------------------------------ replacement

fn find_positions(ls: &Vec<String>, marker: &str) -> (r: Vec<usize>)
    ensures
        r@.len() == positions(text::texts(ls@), marker@).len(),
        forall|i: int|
            0 <= i < r@.len() ==> #[trigger] r@[i] == positions(text::texts(ls@), marker@)[i],
        forall|i: int| 0 <= i < r@.len() ==> #[trigger] r@[i] < ls@.len(),
{
    let ghost all = text::texts(ls@);
    let mut out: Vec<usize> = Vec::new();
    let mut i: usize = 0;
    while i < ls.len()
        invariant
            i <= ls@.len(),
            all == text::texts(ls@),
            out@.len() == positions(all.take(i as int), marker@).len(),
            forall|j: int|
                0 <= j < out@.len() ==> #[trigger] out@[j] == positions(
                    all.take(i as int),
                    marker@,
                )[j],
            forall|j: int| 0 <= j < out@.len() ==> #[trigger] out@[j] < ls@.len(),
        decreases ls@.len() - i,
    {
        proof {
            assert(all.take(i + 1).drop_last() == all.take(i as int));
            assert(all.take(i + 1).last() == ls@[i as int]@);
        }
        let line = trim(ls[i].as_str());
        if same(line.as_str(), marker) {
            out.push(i);
        }
        i += 1;
    }
    proof {
        assert(all.take(all.len() as int) == all);
    }
    out
}

fn render_entry(entry: &ManagedHostsEntry) -> (r: String)
    ensures
        r@ == entry_line(*entry),
{
    let mut mapping = format_address(&entry.address);
    mapping.append(" ");
    mapping.append(entry.hostname.as_str());
    let mut comment = "".to_owned();
    if let Some(c) = &entry.comment {
        comment = " # ".to_owned();
        comment.append(c.as_str());
    }
    mapping.append(comment.as_str());
    if entry.enabled {
        mapping
    } else {
        let mut line = "# NETTOOL DISABLED ".to_owned();
        line.append(mapping.as_str());
        line
    }
}

fn render_section(begin: &str, end: &str, entries: &[ManagedHostsEntry]) -> (r: Vec<String>)
    ensures
        text::texts(r@) == seq![begin@] + Seq::new(
            entries@.len(),
            |i: int| entry_line(entries@[i]),
        ) + seq![end@],
{
    let mut out: Vec<String> = Vec::new();
    out.push(begin.to_owned());
    let mut i: usize = 0;
    while i < entries.len()
        invariant
            i <= entries@.len(),
            out@.len() == i + 1,
            out@[0]@ == begin@,
            forall|j: int| 1 <= j <= i ==> (#[trigger] out@[j])@ == entry_line(entries@[j - 1]),
        decreases entries@.len() - i,
    {
        out.push(render_entry(&entries[i]));
        i += 1;
    }
    out.push(end.to_owned());
    proof {
        assert(text::texts(out@) =~= seq![begin@] + Seq::new(
            entries@.len(),
            |k: int| entry_line(entries@[k]),
        ) + seq![end@]);
    }
    out
}

fn validate_entry(entry: &ManagedHostsEntry) -> (r: Result<(), NetToolError>)
    ensures
        match r {
            Ok(_) => entry_fault(*entry) is None,
            Err(e) => entry_fault(*entry) is Some && e.is(
                ErrorCode::InvalidArgument,
                entry_fault(*entry)->0,
                false,
            ),
        },
{
    if entry.hostname.as_str().is_empty() || byte_len(entry.hostname.as_str()) > 253
        || !has_only_alphanumeric_or(entry.hostname.as_str(), "-._") {
        return Err(hosts_error("hosts entry hostname is invalid"));
    }
    if let Some(comment) = &entry.comment {
        if contains_char(comment.as_str(), '\r') || contains_char(comment.as_str(), '\n') {
            return Err(hosts_error("hosts entry comment contains a newline"));
        }
    }
    Ok(())
}

proof fn lemma_entry_fault_stays(entries: Seq<ManagedHostsEntry>, n: nat, m: nat)
    requires
        n <= m,
        first_entry_fault(entries, n) is Some,
    ensures
        first_entry_fault(entries, m) == first_entry_fault(entries, n),
    decreases m,
{
    if n < m {
        lemma_entry_fault_stays(entries, n, (m - 1) as nat);
    }
}

fn validate_entries(entries: &[ManagedHostsEntry]) -> (r: Result<(), NetToolError>)
    ensures
        match r {
            Ok(_) => first_entry_fault(entries@, entries@.len()) is None,
            Err(e) => first_entry_fault(entries@, entries@.len()) is Some && e.is(
                ErrorCode::InvalidArgument,
                first_entry_fault(entries@, entries@.len())->0,
                false,
            ),
        },
{
    let mut i: usize = 0;
    while i < entries.len()
        invariant
            i <= entries@.len(),
            first_entry_fault(entries@, i as nat) is None,
        decreases entries@.len() - i,
    {
        match validate_entry(&entries[i]) {
            Ok(_) => {},
            Err(e) => {
                proof {
                    lemma_entry_fault_stays(entries@, (i + 1) as nat, entries@.len());
                }
                return Err(e);
            },
        }
        i += 1;
    }
    Ok(())
}

fn ends_with_line_end(s: &str) -> (r: bool)
    ensures
        r == ends_line(s@),
{
    let v = chars_of(s);
    v.len() > 0 && (v[v.len() - 1] == '\n' || v[v.len() - 1] == '\r')
}

fn ends_with_line_feed(s: &str) -> (r: bool)
    ensures
        r == (s@.len() > 0 && s@.last() == '\n'),
{
    let v = chars_of(s);
    v.len() > 0 && v[v.len() - 1] == '\n'
}

fn append_section(existing: &str, section: &[String], newline: &str) -> (r: String)
    requires
        newline@ == line_break(existing@),
    ensures
        r@ == set_apart(existing@) + (text::joined(text::texts(section@), newline@) + newline@),
{
    let mut result = existing.to_owned();
    if !existing.is_empty() && !ends_with_line_end(existing) {
        result.append(newline);
    }
    let mut empty_line = newline.to_owned();
    empty_line.append(newline);
    if !result.as_str().is_empty() && !ends_with(result.as_str(), empty_line.as_str()) {
        result.append(newline);
    }
    let mut rendered = join(section, newline);
    rendered.append(newline);
    result.append(rendered.as_str());
    result
}

fn copy_lines(out: &mut Vec<String>, from: &[String], start: usize, end: usize)
    requires
        start <= end <= from@.len(),
    ensures
        text::texts(final(out)@) == text::texts(old(out)@) + text::texts(from@).subrange(
            start as int,
            end as int,
        ),
{
    let ghost before = text::texts(out@);
    let ghost all = text::texts(from@);
    let mut i: usize = start;
    proof {
        assert(before + all.subrange(start as int, start as int) =~= before);
    }
    while i < end
        invariant
            start <= i <= end <= from@.len(),
            all == text::texts(from@),
            text::texts(out@) == before + all.subrange(start as int, i as int),
        decreases end - i,
    {
        let ghost sofar = text::texts(out@);
        out.push(from[i].as_str().to_owned());
        proof {
            assert(text::texts(out@) =~= sofar.push(from@[i as int]@));
            assert(all.subrange(start as int, i + 1) =~= all.subrange(start as int, i as int).push(
                all[i as int],
            ));
            assert(before + all.subrange(start as int, i + 1) =~= (before + all.subrange(
                start as int,
                i as int,
            )).push(all[i as int]));
        }
        i += 1;
    }
}

fn has_nested_section(ls: &Vec<String>, start: usize, finish: usize) -> (r: bool)
    requires
        finish < ls@.len(),
    ensures
        r == exists|i: int|
            start < i < finish && opens_section(#[trigger] text::texts(ls@)[i]),
{
    let ghost all = text::texts(ls@);
    let mut i: usize = finish;
    while i > start
        invariant
            all == text::texts(ls@),
            i <= finish < ls@.len(),
            forall|j: int| start < j && i < j < finish ==> !opens_section(#[trigger] all[j]),
            i < finish && i > start ==> !opens_section(all[i as int]),
        decreases i,
    {
        i -= 1;
        if i > start {
            let line = trim(ls[i].as_str());
            proof {
                assert(all[i as int] == ls@[i as int]@);
            }
            if starts_with(line.as_str(), "# BEGIN NETTOOL PROFILE ") {
                proof {
                    assert(opens_section(all[i as int]));
                }
                return true;
            }
        }
    }
    false
}

/// Puts the section of a profile into the hosts file, in place of the old one or behind all
/// that the file holds.
///
/// # Errors
///
/// Fails when the profile identifier or an entry is not valid, and when the markers of the
/// profile are doubled, unmatched, nested or out of order.
pub fn replace_managed_section(
    existing: &str,
    profile_id: &str,
    entries: &[ManagedHostsEntry],
) -> (r: Result<String, NetToolError>)
    ensures
        match r {
            Ok(updated) => {
                &&& replacement_fault(existing@, profile_id@, entries@) is None
                &&& updated@ == with_section(existing@, profile_id@, entries@)
            },
            Err(e) => {
                &&& replacement_fault(existing@, profile_id@, entries@) is Some
                &&& e.is(
                    ErrorCode::InvalidArgument,
                    replacement_fault(existing@, profile_id@, entries@)->0,
                    false,
                )
            },
        },
{
    if profile_id.is_empty() || !has_only_alphanumeric_or(profile_id, "-_") {
        return Err(hosts_error("hosts profile ID contains unsupported characters"));
    }
    match validate_entries(entries) {
        Ok(_) => {},
        Err(e) => {
            return Err(e);
        },
    }
    let mut begin = "# BEGIN NETTOOL PROFILE ".to_owned();
    begin.append(profile_id);
    let mut end = "# END NETTOOL PROFILE ".to_owned();
    end.append(profile_id);
    let newline = if contains(existing, "\r\n") {
        "\r\n"
    } else {
        "\n"
    };
    let lines = lines_of(existing);
    let begins = find_positions(&lines, begin.as_str());
    let ends = find_positions(&lines, end.as_str());
    if begins.len() > 1 || ends.len() > 1 || begins.len() != ends.len() {
        return Err(hosts_error("managed hosts markers are missing or duplicated"));
    }
    let section = render_section(begin.as_str(), end.as_str(), entries);
    if begins.len() == 0 {
        return Ok(append_section(existing, section.as_slice(), newline));
    }
    let start: usize = begins[0];
    let finish: usize = ends[0];
    if finish < start || has_nested_section(&lines, start, finish) {
        return Err(hosts_error("managed hosts markers are nested or out of order"));
    }
    let mut output: Vec<String> = Vec::new();
    copy_lines(&mut output, lines.as_slice(), 0, start);
    copy_lines(&mut output, section.as_slice(), 0, section.len());
    let total: usize = lines.len();
    copy_lines(&mut output, lines.as_slice(), finish + 1, total);
    let mut result = join(output.as_slice(), newline);
    proof {
        assert(text::texts(output@) =~= replaced_lines(existing@, profile_id@, entries@));
    }
    if ends_with_line_feed(existing) {
        result.append(newline);
    }
    Ok(result)
}

fn hosts_error(message: &str) -> (r: NetToolError)
    ensures
        r.is(ErrorCode::InvalidArgument, message@, false),
{
    NetToolError::new(ErrorCode::InvalidArgument, message, false)
}

} // verus!
