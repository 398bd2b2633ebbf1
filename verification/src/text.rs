//! Text as sequences of characters: building, comparing, trimming, splitting and numbers.

use vstd::prelude::*;

verus! {

/// `String::push` appends one character to the end of the string.
pub assume_specification[ String::push ](s: &mut String, c: char)
    ensures
        final(s)@ == old(s)@.push(c),
;

/// Copies a text into a vector of its characters.
pub fn chars_of(s: &str) -> (r: Vec<char>)
    ensures
        r@ == s@,
{
    let mut out: Vec<char> = Vec::new();
    for c in it: s.chars()
        invariant
            it.seq() == s@,
            out@ == s@.take(it.index() as int),
    {
        proof {
            assert(s@.take(it.index() + 1) == s@.take(it.index() as int).push(s@[it.index() as int]));
        }
        out.push(c);
    }
    proof {
        assert(s@.take(s@.len() as int) == s@);
    }
    out
}

/// Builds a text from characters.
pub fn string_of(chars: &[char]) -> (r: String)
    ensures
        r@ == chars@,
{
    let mut out = String::new();
    let mut i: usize = 0;
    while i < chars.len()
        invariant
            i <= chars@.len(),
            out@ == chars@.take(i as int),
        decreases chars@.len() - i,
    {
        proof {
            assert(chars@.take(i + 1) == chars@.take(i as int).push(chars@[i as int]));
        }
        out.push(chars[i]);
        i += 1;
    }
    proof {
        assert(chars@.take(chars@.len() as int) == chars@);
    }
    out
}

/// Whether two texts hold the same characters.
pub fn same(a: &str, b: &str) -> (r: bool)
    ensures
        r == (a@ == b@),
{
    let x = chars_of(a);
    let y = chars_of(b);
    if x.len() != y.len() {
        return false;
    }
    let mut i: usize = 0;
    while i < x.len()
        invariant
            i <= x@.len(),
            x@ == a@,
            y@ == b@,
            x@.len() == y@.len(),
            x@.take(i as int) == y@.take(i as int),
        decreases x@.len() - i,
    {
        if x[i] != y[i] {
            return false;
        }
        proof {
            assert(x@.take(i + 1) == x@.take(i as int).push(x@[i as int]));
            assert(y@.take(i + 1) == y@.take(i as int).push(y@[i as int]));
        }
        i += 1;
    }
    proof {
        assert(x@.take(x@.len() as int) == x@);
        assert(y@.take(y@.len() as int) == y@);
    }
    true
}


/// The characters of each text in a sequence of texts.
pub open spec fn texts(v: Seq<String>) -> Seq<Seq<char>> {
    Seq::new(v.len(), |i: int| v[i]@)
}

/// The characters with the Unicode property `White_Space`.
pub open spec fn is_whitespace(c: char) -> bool {
    let n = c as u32;
    ||| 0x09 <= n <= 0x0d
    ||| n == 0x20
    ||| n == 0x85
    ||| n == 0xa0
    ||| n == 0x1680
    ||| 0x2000 <= n <= 0x200a
    ||| n == 0x2028
    ||| n == 0x2029
    ||| n == 0x202f
    ||| n == 0x205f
    ||| n == 0x3000
}

/// Decides whether a character is white space.
pub fn whitespace(c: char) -> (r: bool)
    ensures
        r == is_whitespace(c),
{
    let n: u32 = c as u32;
    (0x09 <= n && n <= 0x0d) || n == 0x20 || n == 0x85 || n == 0xa0 || n == 0x1680 || (0x2000 <= n
        && n <= 0x200a) || n == 0x2028 || n == 0x2029 || n == 0x202f || n == 0x205f || n == 0x3000
}

/// The text without leading white space.
pub open spec fn trim_start(s: Seq<char>) -> Seq<char>
    decreases s.len(),
{
    if s.len() > 0 && is_whitespace(s[0]) {
        trim_start(s.drop_first())
    } else {
        s
    }
}

/// The text without trailing white space.
pub open spec fn trim_end(s: Seq<char>) -> Seq<char>
    decreases s.len(),
{
    if s.len() > 0 && is_whitespace(s.last()) {
        trim_end(s.drop_last())
    } else {
        s
    }
}

/// The text without white space at either end.
pub open spec fn trimmed(s: Seq<char>) -> Seq<char> {
    trim_end(trim_start(s))
}

/// Removes white space at both ends.
pub fn trim(s: &str) -> (r: String)
    ensures
        r@ == trimmed(s@),
{
    let v = chars_of(s);
    let mut start: usize = 0;
    proof {
        assert(v@.skip(0) == v@);
    }
    while start < v.len() && whitespace(v[start])
        invariant
            start <= v@.len(),
            trim_start(v@) == trim_start(v@.skip(start as int)),
        decreases v@.len() - start,
    {
        proof {
            assert(v@.skip(start as int).drop_first() == v@.skip(start + 1));
        }
        start += 1;
    }
    let ghost left = v@.skip(start as int);
    proof {
        assert(trim_start(v@) == left);
    }
    let mut end: usize = v.len();
    proof {
        assert(v@.subrange(start as int, end as int) == left);
    }
    while end > start && whitespace(v[end - 1])
        invariant
            start <= end <= v@.len(),
            trim_end(left) == trim_end(v@.subrange(start as int, end as int)),
        decreases end,
    {
        proof {
            assert(v@.subrange(start as int, end as int).drop_last() == v@.subrange(
                start as int,
                end - 1,
            ));
        }
        end -= 1;
    }
    let cut = vstd::slice::slice_subrange(v.as_slice(), start, end);
    string_of(cut)
}

/// The pieces of a text between the occurrences of a separator; one more than there are
/// occurrences.
pub open spec fn split(s: Seq<char>, separator: char) -> Seq<Seq<char>>
    decreases s.len(),
{
    if s.len() == 0 {
        seq![Seq::<char>::empty()]
    } else {
        let before = split(s.drop_last(), separator);
        if s.last() == separator {
            before.push(Seq::empty())
        } else {
            before.drop_last().push(before.last().push(s.last()))
        }
    }
}

/// A text is never split into no pieces.
pub proof fn lemma_split_not_empty(s: Seq<char>, separator: char)
    ensures
        split(s, separator).len() >= 1,
    decreases s.len(),
{
    if s.len() > 0 {
        lemma_split_not_empty(s.drop_last(), separator);
    }
}

/// Splits a text at every occurrence of a separator.
pub fn split_on(s: &str, separator: char) -> (r: Vec<String>)
    ensures
        texts(r@) == split(s@, separator),
        r@.len() >= 1,
{
    let v = chars_of(s);
    let mut done: Vec<String> = Vec::new();
    let mut current = String::new();
    let mut i: usize = 0;
    while i < v.len()
        invariant
            i <= v@.len(),
            texts(done@).push(current@) == split(v@.take(i as int), separator),
        decreases v@.len() - i,
    {
        let ghost old_done = texts(done@);
        let ghost old_current = current@;
        proof {
            assert(v@.take(i + 1).drop_last() == v@.take(i as int));
            assert(v@.take(i + 1).last() == v@[i as int]);
        }
        if v[i] == separator {
            let ghost piece = current@;
            done.push(current);
            current = String::new();
            proof {
                assert(texts(done@) == old_done.push(piece));
            }
        } else {
            current.push(v[i]);
            proof {
                assert(old_done.push(old_current).drop_last() == old_done);
            }
        }
        i += 1;
    }
    let ghost last = current@;
    let ghost all = texts(done@);
    proof {
        assert(v@.take(v@.len() as int) == v@);
    }
    done.push(current);
    proof {
        assert(texts(done@) == all.push(last));
    }
    done
}

/// The text without one trailing carriage return.
pub open spec fn without_carriage_return(s: Seq<char>) -> Seq<char> {
    if s.len() > 0 && s.last() == '\r' {
        s.drop_last()
    } else {
        s
    }
}

/// The lines of a text. A line ends in a line feed, which may follow a carriage return;
/// the last line may lack its end.
pub open spec fn lines(s: Seq<char>) -> Seq<Seq<char>> {
    let pieces = split(s, '\n');
    let ended = Seq::new(
        (pieces.len() - 1) as nat,
        |i: int| without_carriage_return(pieces[i]),
    );
    if pieces.last().len() == 0 {
        ended
    } else {
        ended.push(pieces.last())
    }
}

/// Splits a text into its lines.
pub fn lines_of(s: &str) -> (r: Vec<String>)
    ensures
        texts(r@) == lines(s@),
{
    let mut pieces = split_on(s, '\n');
    let ghost all = split(s@, '\n');
    let mut out: Vec<String> = Vec::new();
    let mut i: usize = 0;
    proof {
        assert(texts(pieces@)[pieces@.len() - 1] == pieces@[pieces@.len() - 1]@);
    }
    while i < pieces.len() - 1
        invariant
            pieces@.len() >= 1,
            texts(pieces@) == all,
            i + 1 <= pieces@.len(),
            texts(out@) == Seq::new(i as nat, |j: int| without_carriage_return(all[j])),
        decreases pieces@.len() - i,
    {
        let ghost before = texts(out@);
        proof {
            assert(texts(pieces@)[i as int] == pieces@[i as int]@);
        }
        let line = drop_carriage_return(pieces[i].as_str());
        out.push(line);
        proof {
            assert(texts(out@) == before.push(without_carriage_return(all[i as int])));
        }
        i += 1;
    }
    let ghost before = texts(out@);
    let last = pieces.pop();
    match last {
        Some(line) => {
            if line.as_str().is_empty() {
                out
            } else {
                out.push(line);
                proof {
                    assert(texts(out@) == before.push(line@));
                }
                out
            }
        },
        None => out,
    }
}

/// Removes one trailing carriage return.
pub fn drop_carriage_return(s: &str) -> (r: String)
    ensures
        r@ == without_carriage_return(s@),
{
    let mut v = chars_of(s);
    if v.len() > 0 && v[v.len() - 1] == '\r' {
        v.pop();
    }
    string_of(v.as_slice())
}

/// The maximal runs of characters that are not white space.
pub open spec fn words(s: Seq<char>) -> Seq<Seq<char>>
    decreases s.len(),
{
    if s.len() == 0 {
        Seq::empty()
    } else {
        let before = words(s.drop_last());
        if is_whitespace(s.last()) {
            before
        } else if s.len() == 1 || is_whitespace(s[s.len() - 2]) {
            before.push(seq![s.last()])
        } else {
            before.drop_last().push(before.last().push(s.last()))
        }
    }
}

/// Splits a text into its words.
pub fn words_of(s: &str) -> (r: Vec<String>)
    ensures
        texts(r@) == words(s@),
{
    let v = chars_of(s);
    let mut done: Vec<String> = Vec::new();
    let mut current = String::new();
    let mut open: bool = false;
    let mut i: usize = 0;
    while i < v.len()
        invariant
            i <= v@.len(),
            open == (i > 0 && !is_whitespace(v@[i - 1])),
            open ==> texts(done@).push(current@) == words(v@.take(i as int)),
            !open ==> texts(done@) == words(v@.take(i as int)),
            !open ==> current@.len() == 0,
        decreases v@.len() - i,
    {
        let ghost old_done = texts(done@);
        let ghost old_current = current@;
        proof {
            assert(v@.take(i + 1).drop_last() == v@.take(i as int));
            assert(v@.take(i + 1).last() == v@[i as int]);
            if i > 0 {
                assert(v@.take(i + 1)[v@.take(i + 1).len() - 2] == v@[i - 1]);
            }
            assert(old_done.push(old_current).drop_last() == old_done);
        }
        if whitespace(v[i]) {
            if open {
                let ghost piece = current@;
                done.push(current);
                current = String::new();
                open = false;
                proof {
                    assert(texts(done@) == old_done.push(piece));
                }
            }
        } else {
            current.push(v[i]);
            proof {
                if !open {
                    assert(current@ == seq![v@[i as int]]);
                }
            }
            open = true;
        }
        i += 1;
    }
    proof {
        assert(v@.take(v@.len() as int) == v@);
    }
    if open {
        let ghost piece = current@;
        let ghost old_done = texts(done@);
        done.push(current);
        proof {
            assert(texts(done@) == old_done.push(piece));
        }
    }
    done
}

/// Whether a text begins with a prefix.
pub open spec fn has_prefix(s: Seq<char>, prefix: Seq<char>) -> bool {
    prefix.len() <= s.len() && s.take(prefix.len() as int) == prefix
}

/// Two texts in a row begin with the first.
pub proof fn lemma_begins_with(prefix: Seq<char>, rest: Seq<char>)
    ensures
        has_prefix(prefix + rest, prefix),
{
    assert((prefix + rest).take(prefix.len() as int) =~= prefix);
}

/// Whether a text ends with a suffix.
pub open spec fn has_suffix(s: Seq<char>, suffix: Seq<char>) -> bool {
    suffix.len() <= s.len() && s.skip(s.len() - suffix.len()) == suffix
}

/// Whether the characters at a position are those of a pattern.
pub open spec fn occurs_at(s: Seq<char>, pattern: Seq<char>, at: int) -> bool {
    0 <= at && at + pattern.len() <= s.len() && s.subrange(at, at + pattern.len()) == pattern
}

/// Whether a pattern occurs anywhere in a text.
pub open spec fn occurs(s: Seq<char>, pattern: Seq<char>) -> bool {
    exists|at: int| occurs_at(s, pattern, at)
}

/// Decides whether the characters at a position are those of a pattern.
pub fn matches_at(s: &[char], pattern: &[char], at: usize) -> (r: bool)
    ensures
        r == occurs_at(s@, pattern@, at as int),
{
    if at > s.len() || pattern.len() > s.len() - at {
        return false;
    }
    let total: usize = s.len();
    let mut i: usize = 0;
    while i < pattern.len()
        invariant
            at + pattern@.len() <= s@.len() == total,
            i <= pattern@.len(),
            forall|j: int| 0 <= j < i ==> s@[at + j] == pattern@[j],
        decreases pattern@.len() - i,
    {
        if s[at + i] != pattern[i] {
            proof {
                assert(s@.subrange(at as int, at + pattern@.len())[i as int] == s@[at + i]);
            }
            return false;
        }
        i += 1;
    }
    proof {
        assert(s@.subrange(at as int, at + pattern@.len()) == pattern@);
    }
    true
}

/// Decides whether a text begins with a prefix.
pub fn starts_with(s: &str, prefix: &str) -> (r: bool)
    ensures
        r == has_prefix(s@, prefix@),
{
    let v = chars_of(s);
    let p = chars_of(prefix);
    let r = matches_at(v.as_slice(), p.as_slice(), 0);
    proof {
        if prefix@.len() <= s@.len() {
            assert(s@.subrange(0, prefix@.len() as int) == s@.take(prefix@.len() as int));
        }
    }
    r
}

/// Decides whether a text ends with a suffix.
pub fn ends_with(s: &str, suffix: &str) -> (r: bool)
    ensures
        r == has_suffix(s@, suffix@),
{
    let v = chars_of(s);
    let p = chars_of(suffix);
    if p.len() > v.len() {
        return false;
    }
    let r = matches_at(v.as_slice(), p.as_slice(), v.len() - p.len());
    proof {
        assert(s@.subrange(s@.len() - suffix@.len(), s@.len() as int) == s@.skip(
            s@.len() - suffix@.len(),
        ));
    }
    r
}

/// Removes a prefix, if the text begins with it.
pub fn strip_prefix(s: &str, prefix: &str) -> (r: Option<String>)
    ensures
        r is Some <==> has_prefix(s@, prefix@),
        r matches Some(rest) ==> rest@ == s@.skip(prefix@.len() as int),
{
    if starts_with(s, prefix) {
        let v = chars_of(s);
        let p = chars_of(prefix);
        let cut = vstd::slice::slice_subrange(v.as_slice(), p.len(), v.len());
        proof {
            assert(cut@ == s@.skip(prefix@.len() as int));
        }
        Some(string_of(cut))
    } else {
        None
    }
}

/// Removes a suffix, if the text ends with it.
pub fn strip_suffix(s: &str, suffix: &str) -> (r: Option<String>)
    ensures
        r is Some <==> has_suffix(s@, suffix@),
        r matches Some(rest) ==> rest@ == s@.take(s@.len() - suffix@.len()),
{
    if ends_with(s, suffix) {
        let v = chars_of(s);
        let p = chars_of(suffix);
        let cut = vstd::slice::slice_subrange(v.as_slice(), 0, v.len() - p.len());
        proof {
            assert(cut@ == s@.take(s@.len() - suffix@.len()));
        }
        Some(string_of(cut))
    } else {
        None
    }
}

/// Decides whether a pattern occurs in a text.
pub fn contains(s: &str, pattern: &str) -> (r: bool)
    ensures
        r == occurs(s@, pattern@),
{
    let v = chars_of(s);
    let p = chars_of(pattern);
    let mut i: usize = 0;
    while i < v.len()
        invariant
            v@ == s@,
            p@ == pattern@,
            i <= v@.len(),
            forall|at: int| 0 <= at < i ==> !occurs_at(s@, pattern@, at),
        decreases v@.len() - i,
    {
        if matches_at(v.as_slice(), p.as_slice(), i) {
            return true;
        }
        i += 1;
    }
    matches_at(v.as_slice(), p.as_slice(), v.len())
}

/// Decides whether a character occurs in a text.
pub fn contains_char(s: &str, c: char) -> (r: bool)
    ensures
        r == s@.contains(c),
{
    let v = chars_of(s);
    let mut i: usize = 0;
    while i < v.len()
        invariant
            v@ == s@,
            i <= v@.len(),
            forall|j: int| 0 <= j < i ==> v@[j] != c,
        decreases v@.len() - i,
    {
        if v[i] == c {
            return true;
        }
        i += 1;
    }
    false
}


/// The position of the first occurrence of a character; the length where there is none.
pub open spec fn first_index(s: Seq<char>, c: char) -> int
    decreases s.len(),
{
    if s.len() == 0 || s[0] == c {
        0
    } else {
        1 + first_index(s.drop_first(), c)
    }
}

/// The first index is that of the character, and none before it is.
pub proof fn lemma_first_index(s: Seq<char>, c: char)
    ensures
        0 <= first_index(s, c) <= s.len(),
        first_index(s, c) < s.len() ==> s[first_index(s, c)] == c,
        forall|j: int| 0 <= j < first_index(s, c) ==> s[j] != c,
        s.contains(c) <==> first_index(s, c) < s.len(),
    decreases s.len(),
{
    if s.len() > 0 && s[0] != c {
        let t = s.drop_first();
        lemma_first_index(t, c);
        assert forall|j: int| 0 <= j < first_index(s, c) implies s[j] != c by {
            if j > 0 {
                assert(s[j] == t[j - 1]);
            }
        }
        if s.contains(c) {
            let k = choose|k: int| 0 <= k < s.len() && s[k] == c;
            assert(t[k - 1] == c);
            assert(t.contains(c));
        }
    } else if s.len() > 0 {
        assert(s.contains(s[0]));
    }
}

/// A position of the character with no occurrence before it is the first index.
pub proof fn lemma_first_index_is(s: Seq<char>, c: char, at: int)
    requires
        0 <= at <= s.len(),
        at < s.len() ==> s[at] == c,
        forall|j: int| 0 <= j < at ==> s[j] != c,
    ensures
        first_index(s, c) == at,
{
    lemma_first_index(s, c);
    let f = first_index(s, c);
    if f < at {
        assert(s[f] != c);
    }
    if at < f {
        assert(s[at] != c);
    }
}

/// Splits a text at the first occurrence of a separator.
pub fn split_once(s: &str, separator: char) -> (r: Option<(String, String)>)
    ensures
        r is Some <==> s@.contains(separator),
        r matches Some((left, right)) ==> {
            let at = first_index(s@, separator);
            left@ == s@.take(at) && right@ == s@.skip(at + 1)
        },
{
    let v = chars_of(s);
    let mut i: usize = 0;
    while i < v.len()
        invariant
            v@ == s@,
            i <= v@.len(),
            forall|j: int| 0 <= j < i ==> v@[j] != separator,
        decreases v@.len() - i,
    {
        if v[i] == separator {
            proof {
                lemma_first_index_is(s@, separator, i as int);
            }
            let left = vstd::slice::slice_subrange(v.as_slice(), 0, i);
            let right = vstd::slice::slice_subrange(v.as_slice(), i + 1, v.len());
            proof {
                assert(left@ == s@.take(i as int));
                assert(right@ == s@.skip(i + 1));
            }
            return Some((string_of(left), string_of(right)));
        }
        i += 1;
    }
    None
}

/// The characters `0` to `9`.
pub open spec fn is_digit(c: char) -> bool {
    0x30 <= c as u32 <= 0x39
}

/// The ASCII letters.
pub open spec fn is_letter(c: char) -> bool {
    0x41 <= c as u32 <= 0x5a || 0x61 <= c as u32 <= 0x7a
}

/// The ASCII letters and digits.
pub open spec fn is_alphanumeric(c: char) -> bool {
    is_digit(c) || is_letter(c)
}

/// The hexadecimal digits, in either case.
pub open spec fn is_hex_digit(c: char) -> bool {
    is_digit(c) || 0x41 <= c as u32 <= 0x46 || 0x61 <= c as u32 <= 0x66
}

/// Decides whether a character is a decimal digit.
pub fn digit(c: char) -> (r: bool)
    ensures
        r == is_digit(c),
{
    let n: u32 = c as u32;
    0x30 <= n && n <= 0x39
}

/// Decides whether a character is an ASCII letter or digit.
pub fn alphanumeric(c: char) -> (r: bool)
    ensures
        r == is_alphanumeric(c),
{
    let n: u32 = c as u32;
    (0x30 <= n && n <= 0x39) || (0x41 <= n && n <= 0x5a) || (0x61 <= n && n <= 0x7a)
}

/// Decides whether a character is a hexadecimal digit.
pub fn hex_digit(c: char) -> (r: bool)
    ensures
        r == is_hex_digit(c),
{
    let n: u32 = c as u32;
    (0x30 <= n && n <= 0x39) || (0x41 <= n && n <= 0x46) || (0x61 <= n && n <= 0x66)
}

/// The ASCII lower case form of a character.
pub open spec fn lower(c: char) -> char {
    if 0x41 <= c as u32 <= 0x5a {
        ((c as u32 + 0x20) as u32) as char
    } else {
        c
    }
}

/// The ASCII lower case form of a text.
pub open spec fn lowercase(s: Seq<char>) -> Seq<char> {
    Seq::new(s.len(), |i: int| lower(s[i]))
}

/// Returns the ASCII lower case form of a character.
pub fn to_lower(c: char) -> (r: char)
    ensures
        r == lower(c),
{
    let n: u32 = c as u32;
    if 0x41 <= n && n <= 0x5a {
        let small: u8 = n as u8 + 0x20;
        small as char
    } else {
        c
    }
}

/// Decides whether two texts are equal but for the case of ASCII letters.
pub fn same_ignoring_case(a: &str, b: &str) -> (r: bool)
    ensures
        r == (lowercase(a@) == lowercase(b@)),
{
    let x = chars_of(a);
    let y = chars_of(b);
    if x.len() != y.len() {
        proof {
            assert(lowercase(a@).len() != lowercase(b@).len());
        }
        return false;
    }
    let mut i: usize = 0;
    while i < x.len()
        invariant
            i <= x@.len(),
            x@ == a@,
            y@ == b@,
            x@.len() == y@.len(),
            forall|j: int| 0 <= j < i ==> lower(x@[j]) == lower(y@[j]),
        decreases x@.len() - i,
    {
        if to_lower(x[i]) != to_lower(y[i]) {
            proof {
                assert(lowercase(a@)[i as int] != lowercase(b@)[i as int]);
            }
            return false;
        }
        i += 1;
    }
    proof {
        assert(lowercase(a@) == lowercase(b@));
    }
    true
}

/// The decimal digit of a number below ten.
pub open spec fn digit_char(n: nat) -> char {
    ((0x30 + n) as u8) as char
}

/// The decimal notation of a number.
pub open spec fn decimal(n: nat) -> Seq<char>
    decreases n,
{
    if n < 10 {
        seq![digit_char(n)]
    } else {
        decimal(n / 10).push(digit_char(n % 10))
    }
}

/// The number that a sequence of decimal digits stands for.
pub open spec fn digits_value(s: Seq<char>) -> nat
    decreases s.len(),
{
    if s.len() == 0 {
        0
    } else {
        digits_value(s.drop_last()) * 10 + (s.last() as u32 - 0x30) as nat
    }
}

/// Whether every character is a decimal digit.
pub open spec fn all_digits(s: Seq<char>) -> bool {
    forall|i: int| 0 <= i < s.len() ==> is_digit(#[trigger] s[i])
}

/// What decimal notation reads as: an optional plus sign and at least one digit, with a
/// value of at most `max`.
pub open spec fn unsigned_value(s: Seq<char>, max: nat) -> Option<nat> {
    let digits = if s.len() > 0 && s[0] == '+' {
        s.skip(1)
    } else {
        s
    };
    if digits.len() > 0 && all_digits(digits) && digits_value(digits) <= max {
        Some(digits_value(digits))
    } else {
        None
    }
}

/// Decimal notation reads back as the number.
pub proof fn lemma_decimal_value(n: nat)
    ensures
        digits_value(decimal(n)) == n,
        all_digits(decimal(n)),
        decimal(n).len() >= 1,
    decreases n,
{
    let s = decimal(n);
    if n < 10 {
        reveal_with_fuel(digits_value, 2);
        assert(s.drop_last() == Seq::<char>::empty());
        assert(s.last() == digit_char(n));
    } else {
        lemma_decimal_value(n / 10);
        assert(s.drop_last() == decimal(n / 10));
        assert(s.last() == digit_char(n % 10));
        assert forall|i: int| 0 <= i < s.len() implies is_digit(#[trigger] s[i]) by {
            if i < s.len() - 1 {
                assert(s[i] == decimal(n / 10)[i]);
            }
        }
    }
}

/// Reading what was written gives the number back.
pub proof fn lemma_decimal_round_trip(n: nat, max: nat)
    requires
        n <= max,
    ensures
        unsigned_value(decimal(n), max) == Some(n),
{
    lemma_decimal_value(n);
    assert(is_digit(decimal(n)[0]));
}

/// Longer digit sequences stand for no smaller numbers.
pub proof fn lemma_digits_value_monotonic(s: Seq<char>, i: int)
    requires
        0 <= i <= s.len(),
        all_digits(s),
    ensures
        digits_value(s.take(i)) <= digits_value(s),
    decreases s.len(),
{
    if i < s.len() {
        let t = s.drop_last();
        assert forall|k: int| 0 <= k < t.len() implies is_digit(#[trigger] t[k]) by {
            assert(s[k] == t[k]);
        }
        lemma_digits_value_monotonic(t, i);
        assert(t.take(i) == s.take(i));
        assert(is_digit(s[s.len() - 1]));
    } else {
        assert(s.take(i) == s);
    }
}

/// Writes a number in decimal notation.
pub fn decimal_text(n: u64) -> (r: String)
    ensures
        r@ == decimal(n as nat),
    decreases n,
{
    let last: u8 = 0x30 + (n % 10) as u8;
    if n < 10 {
        let mut out = String::new();
        out.push(last as char);
        proof {
            assert(out@ == decimal(n as nat));
        }
        out
    } else {
        let mut out = decimal_text(n / 10);
        out.push(last as char);
        out
    }
}

/// Reads decimal notation with an optional plus sign, up to a largest value.
pub fn parse_unsigned(s: &str, max: u64) -> (r: Option<u64>)
    ensures
        r is Some <==> unsigned_value(s@, max as nat) is Some,
        r matches Some(n) ==> unsigned_value(s@, max as nat) == Some(n as nat),
{
    let v = chars_of(s);
    let start: usize = if v.len() > 0 && v[0] == '+' {
        1
    } else {
        0
    };
    let ghost digits = v@.skip(start as int);
    proof {
        if start == 0 {
            assert(digits == v@);
        }
    }
    if start == v.len() {
        return None;
    }
    let mut value: u64 = 0;
    let mut i: usize = start;
    while i < v.len()
        invariant
            start <= i <= v@.len(),
            digits == v@.skip(start as int),
            value <= max,
            value == digits_value(digits.take(i - start)),
            forall|j: int| 0 <= j < i - start ==> is_digit(#[trigger] digits[j]),
            unsigned_value(s@, max as nat) == (if digits.len() > 0 && all_digits(digits)
                && digits_value(digits) <= max {
                Some(digits_value(digits))
            } else {
                None
            }),
        decreases v@.len() - i,
    {
        proof {
            assert(digits[i - start] == v@[i as int]);
            assert(digits.take(i - start + 1).drop_last() == digits.take(i - start));
            assert(digits.take(i - start + 1).last() == v@[i as int]);
        }
        if !digit(v[i]) {
            return None;
        }
        let d: u64 = (v[i] as u32 - 0x30) as u64;
        let wide: u128 = value as u128 * 10 + d as u128;
        if wide > max as u128 {
            proof {
                if all_digits(digits) {
                    lemma_digits_value_monotonic(digits, i - start + 1);
                }
            }
            return None;
        }
        value = wide as u64;
        i += 1;
    }
    proof {
        assert(digits.take(i - start) == digits);
    }
    Some(value)
}

/// The texts joined with a separator between each two.
pub open spec fn joined(pieces: Seq<Seq<char>>, separator: Seq<char>) -> Seq<char>
    decreases pieces.len(),
{
    if pieces.len() == 0 {
        Seq::empty()
    } else if pieces.len() == 1 {
        pieces[0]
    } else {
        joined(pieces.drop_last(), separator) + separator + pieces.last()
    }
}

/// Joins texts with a separator between each two.
pub fn join(pieces: &[String], separator: &str) -> (r: String)
    ensures
        r@ == joined(texts(pieces@), separator@),
{
    let mut out = String::new();
    let mut i: usize = 0;
    while i < pieces.len()
        invariant
            i <= pieces@.len(),
            out@ == joined(texts(pieces@).take(i as int), separator@),
        decreases pieces@.len() - i,
    {
        proof {
            let t = texts(pieces@);
            assert(t.take(i + 1).drop_last() == t.take(i as int));
            assert(t.take(i + 1).last() == pieces@[i as int]@);
        }
        if i > 0 {
            out.append(separator);
        }
        out.append(pieces[i].as_str());
        i += 1;
    }
    proof {
        assert(texts(pieces@).take(i as int) == texts(pieces@));
    }
    out
}

/// The hexadecimal digit of a number below sixteen.
pub open spec fn hex_char(n: nat, upper: bool) -> char {
    if n < 10 {
        ((0x30 + n) as u8) as char
    } else if upper {
        ((0x37 + n) as u8) as char
    } else {
        ((0x57 + n) as u8) as char
    }
}

/// The two hexadecimal digits of a byte.
pub open spec fn hex_pair(b: u8, upper: bool) -> Seq<char> {
    seq![hex_char((b / 16) as nat, upper), hex_char((b % 16) as nat, upper)]
}

/// The hexadecimal notation of bytes, two digits each.
pub open spec fn hex(bytes: Seq<u8>, upper: bool) -> Seq<char>
    decreases bytes.len(),
{
    if bytes.len() == 0 {
        Seq::empty()
    } else {
        hex(bytes.drop_last(), upper) + hex_pair(bytes.last(), upper)
    }
}

/// Appends the hexadecimal digit of a number below sixteen.
pub fn push_hex_digit(out: &mut String, n: u8, upper: bool)
    requires
        n < 16,
    ensures
        final(out)@ == old(out)@.push(hex_char(n as nat, upper)),
{
    let c: u8 = if n < 10 {
        0x30 + n
    } else if upper {
        0x37 + n
    } else {
        0x57 + n
    };
    out.push(c as char);
}

/// Appends the two hexadecimal digits of a byte.
pub fn push_hex_pair(out: &mut String, b: u8, upper: bool)
    ensures
        final(out)@ == old(out)@ + hex_pair(b, upper),
{
    push_hex_digit(out, b / 16, upper);
    push_hex_digit(out, b % 16, upper);
    proof {
        assert(out@ == old(out)@ + hex_pair(b, upper));
    }
}

/// Writes bytes in hexadecimal notation.
pub fn hex_text(bytes: &[u8], upper: bool) -> (r: String)
    ensures
        r@ == hex(bytes@, upper),
{
    let mut out = String::new();
    let mut i: usize = 0;
    while i < bytes.len()
        invariant
            i <= bytes@.len(),
            out@ == hex(bytes@.take(i as int), upper),
        decreases bytes@.len() - i,
    {
        proof {
            assert(bytes@.take(i + 1).drop_last() == bytes@.take(i as int));
            assert(bytes@.take(i + 1).last() == bytes@[i as int]);
        }
        push_hex_pair(&mut out, bytes[i], upper);
        i += 1;
    }
    proof {
        assert(bytes@.take(i as int) == bytes@);
    }
    out
}


/// Whether a text holds nothing but white space.
pub open spec fn blank(s: Seq<char>) -> bool {
    trimmed(s).len() == 0
}

/// Decides whether a text holds nothing but white space.
pub fn is_blank(s: &str) -> (r: bool)
    ensures
        r == blank(s@),
{
    let t = trim(s);
    t.as_str().is_empty()
}

/// Returns the number of bytes of a text in UTF-8.
pub fn byte_len(s: &str) -> (r: usize)
    ensures
        r == vstd::utf8::encode_utf8(s@).len(),
{
    s.as_bytes().len()
}

/// The characters of each text in a sequence of texts.
pub open spec fn names(v: Seq<&str>) -> Seq<Seq<char>> {
    Seq::new(v.len(), |i: int| v[i]@)
}

/// Joins texts with a separator between each two.
pub fn join_names(pieces: &[&str], separator: &str) -> (r: String)
    ensures
        r@ == joined(names(pieces@), separator@),
{
    let mut out = String::new();
    let mut i: usize = 0;
    while i < pieces.len()
        invariant
            i <= pieces@.len(),
            out@ == joined(names(pieces@).take(i as int), separator@),
        decreases pieces@.len() - i,
    {
        proof {
            let t = names(pieces@);
            assert(t.take(i + 1).drop_last() == t.take(i as int));
            assert(t.take(i + 1).last() == pieces@[i as int]@);
        }
        if i > 0 {
            out.append(separator);
        }
        out.append(pieces[i]);
        i += 1;
    }
    proof {
        assert(names(pieces@).take(i as int) == names(pieces@));
    }
    out
}


/// The text without a character at its beginning.
pub open spec fn without_leading(s: Seq<char>, c: char) -> Seq<char>
    decreases s.len(),
{
    if s.len() > 0 && s[0] == c {
        without_leading(s.drop_first(), c)
    } else {
        s
    }
}

/// The text without a character at its end.
pub open spec fn without_trailing(s: Seq<char>, c: char) -> Seq<char>
    decreases s.len(),
{
    if s.len() > 0 && s.last() == c {
        without_trailing(s.drop_last(), c)
    } else {
        s
    }
}

/// Removes a character at the end, as often as it stands there.
pub fn trim_end_char(s: &str, c: char) -> (r: String)
    ensures
        r@ == without_trailing(s@, c),
{
    let v = chars_of(s);
    let mut end: usize = v.len();
    proof {
        assert(v@.take(end as int) == v@);
    }
    while end > 0 && v[end - 1] == c
        invariant
            v@ == s@,
            end <= v@.len(),
            without_trailing(s@, c) == without_trailing(v@.take(end as int), c),
        decreases end,
    {
        proof {
            assert(v@.take(end as int).drop_last() == v@.take(end - 1));
        }
        end -= 1;
    }
    let cut = vstd::slice::slice_subrange(v.as_slice(), 0, end);
    proof {
        assert(cut@ == v@.take(end as int));
    }
    string_of(cut)
}

/// Removes a character at the beginning, as often as it stands there.
pub fn trim_start_char(s: &str, c: char) -> (r: String)
    ensures
        r@ == without_leading(s@, c),
{
    let v = chars_of(s);
    let mut start: usize = 0;
    proof {
        assert(v@.skip(0) == v@);
    }
    while start < v.len() && v[start] == c
        invariant
            v@ == s@,
            start <= v@.len(),
            without_leading(s@, c) == without_leading(v@.skip(start as int), c),
        decreases v@.len() - start,
    {
        proof {
            assert(v@.skip(start as int).drop_first() == v@.skip(start + 1));
        }
        start += 1;
    }
    let cut = vstd::slice::slice_subrange(v.as_slice(), start, v.len());
    proof {
        assert(cut@ == v@.skip(start as int));
    }
    string_of(cut)
}

/// The characters of an optional text.
pub open spec fn optional(s: Option<String>) -> Option<Seq<char>> {
    match s {
        Some(t) => Some(t@),
        None => None,
    }
}


/// What signed decimal notation reads as: an optional sign and at least one digit, within 32
/// bits.
pub open spec fn signed_value(s: Seq<char>) -> Option<int> {
    let negative = s.len() > 0 && s[0] == '-';
    let digits = if s.len() > 0 && (s[0] == '+' || s[0] == '-') {
        s.skip(1)
    } else {
        s
    };
    let value = if negative {
        -(digits_value(digits) as int)
    } else {
        digits_value(digits) as int
    };
    if digits.len() > 0 && all_digits(digits) && i32::MIN <= value <= i32::MAX {
        Some(value)
    } else {
        None
    }
}

/// Reads signed decimal notation within 32 bits.
pub fn parse_signed(s: &str) -> (r: Option<i32>)
    ensures
        match r {
            Some(n) => signed_value(s@) == Some(n as int),
            None => signed_value(s@) is None,
        },
{
    let v = chars_of(s);
    let negative: bool = v.len() > 0 && v[0] == '-';
    if negative {
        let rest = string_of(vstd::slice::slice_subrange(v.as_slice(), 1, v.len()));
        proof {
            assert(rest@ == s@.skip(1));
        }
        let rest_chars = chars_of(rest.as_str());
        if rest_chars.len() > 0 && rest_chars[0] == '+' {
            proof {
                assert(!is_digit(rest@[0]));
            }
            return None;
        }
        match parse_unsigned(rest.as_str(), 0x8000_0000) {
            Some(n) => {
                if n == 0x8000_0000 {
                    Some(i32::MIN)
                } else {
                    Some(-(n as i32))
                }
            },
            None => None,
        }
    } else {
        match parse_unsigned(s, 0x7fff_ffff) {
            Some(n) => Some(n as i32),
            None => None,
        }
    }
}

/// The decimal notation of a number with its sign.
pub open spec fn signed_decimal(n: int) -> Seq<char> {
    if n < 0 {
        "-"@ + decimal((-n) as nat)
    } else {
        decimal(n as nat)
    }
}

/// Writes a number with its sign in decimal notation.
pub fn signed_text(n: i32) -> (r: String)
    ensures
        r@ == signed_decimal(n as int),
{
    if n < 0 {
        let mut out = "-".to_owned();
        let magnitude: u64 = (-(n as i64)) as u64;
        out.append(decimal_text(magnitude).as_str());
        out
    } else {
        decimal_text(n as u64)
    }
}

/// Whether one byte sequence comes before another, or is equal to it, in dictionary order.
pub open spec fn not_after(a: Seq<u8>, b: Seq<u8>) -> bool
    decreases a.len(),
{
    if a.len() == 0 {
        true
    } else if b.len() == 0 {
        false
    } else if a[0] != b[0] {
        a[0] < b[0]
    } else {
        not_after(a.drop_first(), b.drop_first())
    }
}

/// Dictionary order is total.
pub proof fn lemma_not_after_total(a: Seq<u8>, b: Seq<u8>)
    ensures
        not_after(a, b) || not_after(b, a),
    decreases a.len(),
{
    if a.len() > 0 && b.len() > 0 && a[0] == b[0] {
        lemma_not_after_total(a.drop_first(), b.drop_first());
    }
}

/// Dictionary order is transitive.
pub proof fn lemma_not_after_transitive(a: Seq<u8>, b: Seq<u8>, c: Seq<u8>)
    requires
        not_after(a, b),
        not_after(b, c),
    ensures
        not_after(a, c),
    decreases a.len(),
{
    if a.len() > 0 && b.len() > 0 && c.len() > 0 && a[0] == b[0] && b[0] == c[0] {
        lemma_not_after_transitive(a.drop_first(), b.drop_first(), c.drop_first());
    }
}

/// Decides dictionary order.
pub fn precedes_or_equals(a: &[u8], b: &[u8]) -> (r: bool)
    ensures
        r == not_after(a@, b@),
{
    let mut i: usize = 0;
    proof {
        assert(a@.skip(0) == a@);
        assert(b@.skip(0) == b@);
    }
    while i < a.len()
        invariant
            i <= a@.len(),
            i <= b@.len(),
            not_after(a@, b@) == not_after(a@.skip(i as int), b@.skip(i as int)),
        decreases a@.len() - i,
    {
        if i >= b.len() {
            return false;
        }
        if a[i] != b[i] {
            return a[i] < b[i];
        }
        proof {
            assert(a@.skip(i as int).drop_first() == a@.skip(i + 1));
            assert(b@.skip(i as int).drop_first() == b@.skip(i + 1));
        }
        i += 1;
    }
    true
}

/// The characters of the Unicode category of control characters.
pub open spec fn is_control(c: char) -> bool {
    let n = c as u32;
    n < 0x20 || 0x7f <= n < 0xa0
}

/// Decides whether a character is a control character.
pub fn control(c: char) -> (r: bool)
    ensures
        r == is_control(c),
{
    let n: u32 = c as u32;
    n < 0x20 || (0x7f <= n && n < 0xa0)
}

/// Whether a text holds a control character.
pub open spec fn has_control(s: Seq<char>) -> bool {
    exists|i: int| 0 <= i < s.len() && is_control(#[trigger] s[i])
}

/// Decides whether a text holds a control character.
pub fn contains_control(s: &str) -> (r: bool)
    ensures
        r == has_control(s@),
{
    let v = chars_of(s);
    let mut i: usize = 0;
    while i < v.len()
        invariant
            v@ == s@,
            i <= v@.len(),
            forall|j: int| 0 <= j < i ==> !is_control(#[trigger] v@[j]),
        decreases v@.len() - i,
    {
        if control(v[i]) {
            return true;
        }
        i += 1;
    }
    false
}

/// Whether every character is an ASCII letter or digit or one of the given ones.
pub open spec fn only_alphanumeric_or(s: Seq<char>, others: Seq<char>) -> bool {
    forall|i: int|
        0 <= i < s.len() ==> is_alphanumeric(#[trigger] s[i]) || others.contains(s[i])
}

/// Decides whether every character is an ASCII letter or digit or one of the given ones.
pub fn has_only_alphanumeric_or(s: &str, others: &str) -> (r: bool)
    ensures
        r == only_alphanumeric_or(s@, others@),
{
    let v = chars_of(s);
    let mut i: usize = 0;
    while i < v.len()
        invariant
            v@ == s@,
            i <= v@.len(),
            forall|j: int|
                0 <= j < i ==> is_alphanumeric(#[trigger] v@[j]) || others@.contains(v@[j]),
        decreases v@.len() - i,
    {
        if !alphanumeric(v[i]) && !contains_char(others, v[i]) {
            return false;
        }
        i += 1;
    }
    true
}

/// The trimmed texts that are not empty, in their order.
pub open spec fn filled(ls: Seq<Seq<char>>) -> Seq<Seq<char>>
    decreases ls.len(),
{
    if ls.len() == 0 {
        Seq::empty()
    } else {
        let head = filled(ls.drop_last());
        let last = trimmed(ls.last());
        if last.len() > 0 {
            head.push(last)
        } else {
            head
        }
    }
}

/// The first place at or after a given one where a pattern stands.
pub open spec fn find_from(s: Seq<char>, pattern: Seq<char>, at: int) -> Option<int>
    decreases s.len() - at,
{
    if at < 0 || at + pattern.len() > s.len() {
        None
    } else if occurs_at(s, pattern, at) {
        Some(at)
    } else if at == s.len() {
        None
    } else {
        find_from(s, pattern, at + 1)
    }
}

/// What stands behind the first place of a separator, up to its next place.
pub open spec fn second_piece(s: Seq<char>, separator: Seq<char>) -> Option<Seq<char>> {
    match find_from(s, separator, 0) {
        None => None,
        Some(at) => {
            let rest = s.skip(at + separator.len());
            match find_from(rest, separator, 0) {
                None => Some(rest),
                Some(end) => Some(rest.take(end)),
            }
        },
    }
}

fn find_place(s: &[char], pattern: &[char]) -> (r: Option<usize>)
    ensures
        match r {
            Some(at) => find_from(s@, pattern@, 0) == Some(at as int) && at + pattern@.len()
                <= s@.len(),
            None => find_from(s@, pattern@, 0) is None,
        },
{
    if pattern.len() > s.len() {
        return None;
    }
    let last: usize = s.len() - pattern.len();
    let mut at: usize = 0;
    while at < last
        invariant
            last == s@.len() - pattern@.len(),
            at <= last,
            find_from(s@, pattern@, 0) == find_from(s@, pattern@, at as int),
        decreases last - at,
    {
        if matches_at(s, pattern, at) {
            return Some(at);
        }
        at += 1;
    }
    if matches_at(s, pattern, at) {
        return Some(at);
    }
    proof {
        if at < s@.len() {
            assert(find_from(s@, pattern@, at + 1) is None);
        }
    }
    None
}

/// Returns what stands behind the first place of a separator, up to its next place.
pub fn piece_behind(s: &str, separator: &str) -> (r: Option<String>)
    ensures
        optional(r) == second_piece(s@, separator@),
{
    let v = chars_of(s);
    let p = chars_of(separator);
    let total: usize = v.len();
    match find_place(v.as_slice(), p.as_slice()) {
        None => None,
        Some(at) => {
            let rest = vstd::slice::slice_subrange(v.as_slice(), at + p.len(), total);
            proof {
                assert(rest@ == s@.skip(at + separator@.len()));
            }
            match find_place(rest, p.as_slice()) {
                None => Some(string_of(rest)),
                Some(end) => {
                    let piece = vstd::slice::slice_subrange(rest, 0, end);
                    proof {
                        assert(piece@ == rest@.take(end as int));
                    }
                    Some(string_of(piece))
                },
            }
        },
    }
}

/// Copies borrowed texts.
pub fn owned(pieces: &[&str]) -> (r: Vec<String>)
    ensures
        texts(r@) == names(pieces@),
{
    let mut out: Vec<String> = Vec::new();
    let mut i: usize = 0;
    while i < pieces.len()
        invariant
            i <= pieces@.len(),
            out@.len() == i,
            forall|j: int| 0 <= j < i ==> (#[trigger] out@[j])@ == pieces@[j]@,
        decreases pieces@.len() - i,
    {
        out.push(pieces[i].to_owned());
        i += 1;
    }
    proof {
        assert(texts(out@) =~= names(pieces@));
    }
    out
}

/// Puts one text behind another.
pub fn concat(a: &str, b: &str) -> (r: String)
    ensures
        r@ == a@ + b@,
{
    let mut out = a.to_owned();
    out.append(b);
    out
}

} // verus!
