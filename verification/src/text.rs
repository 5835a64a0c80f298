//! Character-level helpers on which the detection engine is built.
//!
//! Text is modelled as `Seq<char>`, the view of `str` and `String`.  Every
//! function here says exactly which sequence it returns.

use vstd::prelude::*;
use vstd::utf8::{decode_utf8, encode_utf8, encode_utf8_decode_utf8, is_char_boundary};

verus! {

/// `String::push` appends the character to the end of the string.
pub assume_specification[ String::push ](s: &mut String, c: char)
    ensures
        final(s)@ == old(s)@.push(c),
;

/// The characters of a string slice, in order.
pub fn to_chars(s: &str) -> (out: Vec<char>)
    ensures
        out@ == s@,
{
    let mut out: Vec<char> = Vec::new();
    for c in it: s.chars()
        invariant
            out@ == it.seq().take(it.index()),
    {
        out.push(c);
    }
    out
}

/// The string spelled by `cs[from..to]`.
pub(crate) fn from_chars(cs: &Vec<char>, from: usize, to: usize) -> (out: String)
    requires
        from <= to <= cs.len(),
    ensures
        out@ == cs@.subrange(from as int, to as int),
{
    let mut out = String::new();
    let mut i: usize = from;
    while i < to
        invariant
            from <= i <= to <= cs.len(),
            out@ == cs@.subrange(from as int, i as int),
        decreases to - i,
    {
        out.push(cs[i]);
        assert(cs@.subrange(from as int, i as int + 1) =~= cs@.subrange(from as int, i as int).push(
            cs@[i as int],
        ));
        i += 1;
    }
    out
}

/// The string spelled by all of `cs`.
pub(crate) fn string_of(cs: &Vec<char>) -> (out: String)
    ensures
        out@ == cs@,
{
    let out = from_chars(cs, 0, cs.len());
    assert(cs@.subrange(0, cs@.len() as int) =~= cs@);
    out
}

/// An owned copy of each string, in order.
pub(crate) fn clone_strings(v: &Vec<String>) -> (out: Vec<String>)
    ensures
        out.deep_view() == v.deep_view(),
{
    let mut out: Vec<String> = Vec::new();
    let mut i: usize = 0;
    while i < v.len()
        invariant
            i <= v.len(),
            out.len() == i,
            forall|j: int| 0 <= j < i ==> out[j]@ == v[j]@,
        decreases v.len() - i,
    {
        out.push(v[i].clone());
        i += 1;
    }
    assert(out.deep_view() =~= v.deep_view());
    out
}

/// An owned copy of an optional string.
pub(crate) fn clone_opt_string(s: &Option<String>) -> (out: Option<String>)
    ensures
        out.deep_view() == s.deep_view(),
{
    match s {
        Some(t) => Some(t.clone()),
        None => None,
    }
}

/// Whether two character runs are the same.
pub(crate) fn chars_eq(a: &Vec<char>, b: &Vec<char>) -> (r: bool)
    ensures
        r == (a@ == b@),
{
    if a.len() != b.len() {
        return false;
    }
    let mut i: usize = 0;
    while i < a.len()
        invariant
            i <= a.len(),
            a.len() == b.len(),
            forall|j: int| 0 <= j < i ==> a[j] == b[j],
        decreases a.len() - i,
    {
        if a[i] != b[i] {
            return false;
        }
        i += 1;
    }
    assert(a@ =~= b@);
    true
}

/// Whether two string slices spell the same text.
pub fn str_eq(a: &str, b: &str) -> (r: bool)
    ensures
        r == (a@ == b@),
{
    let x = to_chars(a);
    let y = to_chars(b);
    chars_eq(&x, &y)
}

/// Whether some string of `items` spells `wanted`.
pub open spec fn has_string(items: Seq<Seq<char>>, wanted: Seq<char>) -> bool {
    exists|i: int| 0 <= i < items.len() && items[i] == wanted
}

/// Whether `wanted` occurs among `items`.
pub fn contains_string(items: &Vec<String>, wanted: &str) -> (r: bool)
    ensures
        r == has_string(items.deep_view(), wanted@),
{
    let w = to_chars(wanted);
    let mut i: usize = 0;
    while i < items.len()
        invariant
            i <= items.len(),
            w@ == wanted@,
            forall|j: int| 0 <= j < i ==> items[j]@ != wanted@,
        decreases items.len() - i,
    {
        let x = to_chars(items[i].as_str());
        if chars_eq(&x, &w) {
            assert(items.deep_view()[i as int] == wanted@);
            return true;
        }
        i += 1;
    }
    assert forall|j: int| 0 <= j < items.deep_view().len() implies items.deep_view()[j]
        != wanted@ by {
        assert(items.deep_view()[j] == items[j]@);
    }
    false
}

/// ASCII lower-casing of one character.
pub open spec fn lower_char(c: char) -> char {
    if 'A' <= c && c <= 'Z' {
        ((c as u8) + 32) as char
    } else {
        c
    }
}

/// ASCII lower-casing of a text, character by character.
pub open spec fn lower_ascii(s: Seq<char>) -> Seq<char> {
    Seq::new(s.len(), |i: int| lower_char(s[i]))
}

/// Lower-cases the ASCII letters of `cs` and keeps every other character.
pub(crate) fn to_lower_ascii(cs: &Vec<char>) -> (out: Vec<char>)
    ensures
        out@ == lower_ascii(cs@),
{
    let mut out: Vec<char> = Vec::new();
    let mut i: usize = 0;
    while i < cs.len()
        invariant
            i <= cs.len(),
            out.len() == i,
            forall|j: int| 0 <= j < i ==> out[j] == lower_char(cs[j]),
        decreases cs.len() - i,
    {
        let c = cs[i];
        if 'A' <= c && c <= 'Z' {
            out.push(((c as u8) + 32) as char);
        } else {
            out.push(c);
        }
        i += 1;
    }
    assert(out@ =~= lower_ascii(cs@));
    out
}

/// Unicode `White_Space`: the characters that trimming removes.
pub open spec fn is_space(c: char) -> bool {
    let n = c as u32;
    ||| (0x09 <= n && n <= 0x0D)
    ||| n == 0x20
    ||| n == 0x85
    ||| n == 0xA0
    ||| n == 0x1680
    ||| (0x2000 <= n && n <= 0x200A)
    ||| n == 0x2028
    ||| n == 0x2029
    ||| n == 0x202F
    ||| n == 0x205F
    ||| n == 0x3000
}

/// Whether `c` is a Unicode white-space character.
pub(crate) fn is_whitespace(c: char) -> (r: bool)
    ensures
        r == is_space(c),
{
    let n: u32 = c as u32;
    (0x09 <= n && n <= 0x0D) || n == 0x20 || n == 0x85 || n == 0xA0 || n == 0x1680 || (0x2000 <= n
        && n <= 0x200A) || n == 0x2028 || n == 0x2029 || n == 0x202F || n == 0x205F || n == 0x3000
}

/// How many characters at the start of `s` satisfy `keep`.
pub open spec fn lead(s: Seq<char>, keep: spec_fn(char) -> bool) -> nat
    decreases s.len(),
{
    if s.len() == 0 || !keep(s[0]) {
        0
    } else {
        1 + lead(s.drop_first(), keep)
    }
}

/// How many characters at the end of `s` satisfy `keep`.
pub open spec fn trail(s: Seq<char>, keep: spec_fn(char) -> bool) -> nat
    decreases s.len(),
{
    if s.len() == 0 || !keep(s.last()) {
        0
    } else {
        1 + trail(s.drop_last(), keep)
    }
}

/// `lead` is the first position whose character fails `keep`.
pub proof fn lemma_lead_is(s: Seq<char>, keep: spec_fn(char) -> bool, i: int)
    requires
        0 <= i <= s.len(),
        forall|j: int| 0 <= j < i ==> keep(#[trigger] s[j]),
        i == s.len() || !keep(s[i]),
    ensures
        lead(s, keep) == i,
    decreases i,
{
    if i > 0 {
        let t = s.drop_first();
        assert forall|j: int| 0 <= j < i - 1 implies keep(#[trigger] t[j]) by {
            assert(t[j] == s[j + 1]);
        }
        lemma_lead_is(t, keep, i - 1);
    }
}

/// `trail` counts back to the last position whose character fails `keep`.
pub proof fn lemma_trail_is(s: Seq<char>, keep: spec_fn(char) -> bool, k: int)
    requires
        0 <= k <= s.len(),
        forall|j: int| s.len() - k <= j < s.len() ==> keep(#[trigger] s[j]),
        k == s.len() || !keep(s[s.len() - k - 1]),
    ensures
        trail(s, keep) == k,
    decreases k,
{
    if k > 0 {
        let t = s.drop_last();
        assert forall|j: int| t.len() - (k - 1) <= j < t.len() implies keep(#[trigger] t[j]) by {
            assert(t[j] == s[j]);
        }
        lemma_trail_is(t, keep, k - 1);
    }
}

/// `s` without its leading white space.
pub open spec fn trim_start_of(s: Seq<char>) -> Seq<char> {
    s.skip(lead(s, |c: char| is_space(c)) as int)
}

/// `s` without its trailing white space.
pub open spec fn trim_end_of(s: Seq<char>) -> Seq<char> {
    s.take(s.len() - trail(s, |c: char| is_space(c)))
}

/// `s` without the white space at either end.
pub open spec fn trim_of(s: Seq<char>) -> Seq<char> {
    trim_end_of(trim_start_of(s))
}

/// `s` without its leading characters drawn from `set`.
pub open spec fn strip_leading(s: Seq<char>, set: Seq<char>) -> Seq<char> {
    s.skip(lead(s, |c: char| set.contains(c)) as int)
}

/// Whether `c` occurs in `set`.
pub(crate) fn char_in(c: char, set: &Vec<char>) -> (r: bool)
    ensures
        r == set@.contains(c),
{
    let mut i: usize = 0;
    while i < set.len()
        invariant
            i <= set.len(),
            forall|j: int| 0 <= j < i ==> set[j] != c,
        decreases set.len() - i,
    {
        if set[i] == c {
            return true;
        }
        i += 1;
    }
    false
}

/// The position in `cs[from..to]` after its leading white space.
pub(crate) fn skip_space(cs: &Vec<char>, from: usize, to: usize) -> (i: usize)
    requires
        from <= to <= cs.len(),
    ensures
        from <= i <= to,
        i - from == lead(cs@.subrange(from as int, to as int), |c: char| is_space(c)),
{
    let ghost s = cs@.subrange(from as int, to as int);
    let mut i: usize = from;
    while i < to && is_whitespace(cs[i])
        invariant
            from <= i <= to <= cs.len(),
            s == cs@.subrange(from as int, to as int),
            forall|j: int| 0 <= j < i - from ==> is_space(#[trigger] s[j]),
        decreases to - i,
    {
        i += 1;
    }
    proof {
        lemma_lead_is(s, |c: char| is_space(c), i - from);
    }
    i
}

/// The position in `cs[from..to]` before its trailing white space.
pub(crate) fn skip_space_back(cs: &Vec<char>, from: usize, to: usize) -> (k: usize)
    requires
        from <= to <= cs.len(),
    ensures
        from <= k <= to,
        to - k == trail(cs@.subrange(from as int, to as int), |c: char| is_space(c)),
{
    let ghost s = cs@.subrange(from as int, to as int);
    let mut k: usize = to;
    while k > from && is_whitespace(cs[k - 1])
        invariant
            from <= k <= to <= cs.len(),
            s == cs@.subrange(from as int, to as int),
            forall|j: int| k - from <= j < s.len() ==> is_space(#[trigger] s[j]),
        decreases k - from,
    {
        k -= 1;
    }
    proof {
        lemma_trail_is(s, |c: char| is_space(c), to - k);
    }
    k
}

/// The position in `cs[from..to]` after its leading characters drawn from `set`.
pub(crate) fn skip_any(cs: &Vec<char>, from: usize, to: usize, set: &Vec<char>) -> (i: usize)
    requires
        from <= to <= cs.len(),
    ensures
        from <= i <= to,
        i - from == lead(cs@.subrange(from as int, to as int), |c: char| set@.contains(c)),
{
    let ghost s = cs@.subrange(from as int, to as int);
    let mut i: usize = from;
    while i < to && char_in(cs[i], set)
        invariant
            from <= i <= to <= cs.len(),
            s == cs@.subrange(from as int, to as int),
            forall|j: int| 0 <= j < i - from ==> set@.contains(#[trigger] s[j]),
        decreases to - i,
    {
        i += 1;
    }
    proof {
        lemma_lead_is(s, |c: char| set@.contains(c), i - from);
    }
    i
}

/// The position in `cs[from..to]` at which its last run without `ch` starts.
pub(crate) fn skip_back_until(cs: &Vec<char>, from: usize, to: usize, ch: char) -> (k: usize)
    requires
        from <= to <= cs.len(),
    ensures
        from <= k <= to,
        to - k == trail(cs@.subrange(from as int, to as int), |c: char| c != ch),
{
    let ghost s = cs@.subrange(from as int, to as int);
    let mut k: usize = to;
    while k > from && cs[k - 1] != ch
        invariant
            from <= k <= to <= cs.len(),
            s == cs@.subrange(from as int, to as int),
            forall|j: int| k - from <= j < s.len() ==> #[trigger] s[j] != ch,
        decreases k - from,
    {
        k -= 1;
    }
    proof {
        lemma_trail_is(s, |c: char| c != ch, to - k);
    }
    k
}

/// Removes the white space at both ends of `s`.
pub fn trim(s: &str) -> (out: String)
    ensures
        out@ == trim_of(s@),
{
    let cs = to_chars(s);
    let a = skip_space(&cs, 0, cs.len());
    let b = skip_space_back(&cs, a, cs.len());
    let out = from_chars(&cs, a, b);
    proof {
        assert(cs@.subrange(0, cs@.len() as int) =~= cs@);
        assert(cs@.subrange(a as int, cs@.len() as int) =~= cs@.skip(a as int));
        assert(cs@.skip(a as int).take(b - a) =~= cs@.subrange(a as int, b as int));
    }
    out
}

/// Removes the white space at the start of `s`.
pub fn trim_start(s: &str) -> (out: String)
    ensures
        out@ == trim_start_of(s@),
{
    let cs = to_chars(s);
    let a = skip_space(&cs, 0, cs.len());
    let out = from_chars(&cs, a, cs.len());
    proof {
        assert(cs@.subrange(0, cs@.len() as int) =~= cs@);
        assert(cs@.subrange(a as int, cs@.len() as int) =~= cs@.skip(a as int));
    }
    out
}

/// The text that the bytes `start..end` of the UTF-8 encoding of `s` spell.
/// Empty where the two offsets do not delimit a run of whole characters.
pub open spec fn byte_slice_of(s: Seq<char>, start: nat, end: nat) -> Seq<char> {
    let bytes = encode_utf8(s);
    if start <= end && end <= bytes.len() && is_char_boundary(bytes, end as int)
        && is_char_boundary(bytes.subrange(0, end as int), start as int) {
        decode_utf8(bytes.subrange(start as int, end as int))
    } else {
        Seq::empty()
    }
}

/// The text between two byte offsets of `s`.
pub fn byte_slice(s: &str, start: usize, end: usize) -> (out: String)
    ensures
        out@ == byte_slice_of(s@, start as nat, end as nat),
{
    if start <= end && end <= s.as_bytes().len() && s.is_char_boundary(end) {
        let (head, _) = s.split_at(end);
        if head.is_char_boundary(start) {
            let (_, mid) = head.split_at(start);
            proof {
                let bytes = encode_utf8(s@);
                assert(bytes.subrange(0, end as int).subrange(start as int, end as int)
                    =~= bytes.subrange(start as int, end as int));
                encode_utf8_decode_utf8(mid@);
            }
            return mid.to_owned();
        }
    }
    String::new()
}

/// Whether `s` begins with `prefix`.
pub open spec fn starts_with(s: Seq<char>, prefix: Seq<char>) -> bool {
    prefix.len() <= s.len() && s.take(prefix.len() as int) == prefix
}

/// Whether `s` ends with `suffix`.
pub open spec fn ends_with(s: Seq<char>, suffix: Seq<char>) -> bool {
    suffix.len() <= s.len() && s.skip(s.len() - suffix.len()) == suffix
}

/// Whether `needle` occurs in `s` at position `i`.
pub open spec fn occurs_at(s: Seq<char>, needle: Seq<char>, i: int) -> bool {
    0 <= i && i + needle.len() <= s.len() && s.subrange(i, i + needle.len()) == needle
}

/// Whether `needle` occurs somewhere in `s`.
pub open spec fn contains_sub(s: Seq<char>, needle: Seq<char>) -> bool {
    exists|i: int| occurs_at(s, needle, i)
}

/// Whether `needle` occurs in `cs` at position `i`.
pub(crate) fn matches_at(cs: &Vec<char>, needle: &Vec<char>, i: usize) -> (r: bool)
    ensures
        r == occurs_at(cs@, needle@, i as int),
{
    if needle.len() > cs.len() || i > cs.len() - needle.len() {
        return false;
    }
    let mut k: usize = 0;
    while k < needle.len()
        invariant
            k <= needle.len(),
            i + needle.len() <= cs.len(),
            forall|j: int| 0 <= j < k ==> cs[i + j] == needle[j],
        decreases needle.len() - k,
    {
        if cs[i + k] != needle[k] {
            assert(cs@.subrange(i as int, i + needle.len())[k as int] == cs[i + k]);
            return false;
        }
        k += 1;
    }
    assert(cs@.subrange(i as int, i + needle.len()) =~= needle@);
    true
}

/// Whether `cs` begins with `prefix`.
pub(crate) fn has_prefix(cs: &Vec<char>, prefix: &Vec<char>) -> (r: bool)
    ensures
        r == starts_with(cs@, prefix@),
{
    let r = matches_at(cs, prefix, 0);
    proof {
        if prefix.len() <= cs.len() {
            assert(cs@.subrange(0, prefix@.len() as int) =~= cs@.take(prefix@.len() as int));
        }
    }
    r
}

/// Whether `cs` ends with `suffix`.
pub(crate) fn has_suffix(cs: &Vec<char>, suffix: &Vec<char>) -> (r: bool)
    ensures
        r == ends_with(cs@, suffix@),
{
    if suffix.len() > cs.len() {
        return false;
    }
    let r = matches_at(cs, suffix, cs.len() - suffix.len());
    proof {
        assert(cs@.subrange(cs@.len() - suffix@.len(), cs@.len() as int) =~= cs@.skip(
            cs@.len() - suffix@.len(),
        ));
    }
    r
}

/// Whether `needle` occurs somewhere in `cs`.
pub(crate) fn has_sub(cs: &Vec<char>, needle: &Vec<char>) -> (r: bool)
    ensures
        r == contains_sub(cs@, needle@),
{
    if needle.len() > cs.len() {
        return false;
    }
    let last: usize = cs.len() - needle.len();
    let mut i: usize = 0;
    loop
        invariant
            i <= last,
            last == cs.len() - needle.len(),
            forall|j: int| 0 <= j < i ==> !occurs_at(cs@, needle@, j),
        decreases last - i,
    {
        if matches_at(cs, needle, i) {
            return true;
        }
        if i == last {
            return false;
        }
        i += 1;
    }
}

/// Whether the text `s` contains the text `needle`.
pub fn str_contains(s: &str, needle: &str) -> (r: bool)
    ensures
        r == contains_sub(s@, needle@),
{
    let a = to_chars(s);
    let b = to_chars(needle);
    has_sub(&a, &b)
}

/// The text without a terminating carriage return, if it has one.
pub open spec fn strip_cr(line: Seq<char>) -> Seq<char> {
    if line.len() > 0 && line.last() == '\r' {
        line.drop_last()
    } else {
        line
    }
}

/// The lines of a text.  A line ends at a line feed; the line feed, and a
/// carriage return just before it, are not part of the line.  A text that
/// ends in a line feed has no empty last line.
pub open spec fn lines_of(s: Seq<char>) -> Seq<Seq<char>>
    decreases s.len(),
{
    if s.len() == 0 {
        Seq::empty()
    } else {
        let n = lead(s, |c: char| c != '\n');
        if n < s.len() {
            seq![strip_cr(s.take(n as int))] + lines_of(s.skip(n as int + 1))
        } else {
            seq![s]
        }
    }
}

/// Splits a text into its lines.
pub fn split_lines(s: &str) -> (out: Vec<String>)
    ensures
        out.deep_view() == lines_of(s@),
{
    let cs = to_chars(s);
    let mut out: Vec<String> = Vec::new();
    let mut start: usize = 0;
    let mut i: usize = 0;
    assert(cs@.skip(0) =~= cs@);
    while i < cs.len()
        invariant
            start <= i <= cs.len(),
            cs@ == s@,
            forall|j: int| start <= j < i ==> cs[j] != '\n',
            lines_of(cs@) == out.deep_view() + lines_of(cs@.skip(start as int)),
        decreases cs.len() - i,
    {
        if cs[i] == '\n' {
            let ghost rest = cs@.skip(start as int);
            let ghost old_lines = out.deep_view();
            proof {
                assert forall|j: int| 0 <= j < i - start implies (|c: char| c != '\n')(
                    #[trigger] rest[j],
                ) by {
                    assert(rest[j] == cs[start + j]);
                }
                lemma_lead_is(rest, |c: char| c != '\n', i - start);
                assert(rest.skip(i - start + 1) =~= cs@.skip(i + 1));
                assert(rest.take(i - start) =~= cs@.subrange(start as int, i as int));
            }
            let end: usize = if i > start && cs[i - 1] == '\r' {
                (i - 1) as usize
            } else {
                i
            };
            let line = from_chars(&cs, start, end);
            proof {
                let raw = cs@.subrange(start as int, i as int);
                if i > start && cs[i - 1] == '\r' {
                    assert(raw.last() == '\r');
                    assert(raw.drop_last() =~= cs@.subrange(start as int, end as int));
                } else {
                    assert(strip_cr(raw) == raw);
                }
                assert(line@ == strip_cr(raw));
            }
            out.push(line);
            proof {
                assert(out.deep_view() =~= old_lines.push(line@));
                assert(old_lines.push(line@) + lines_of(cs@.skip(i + 1)) =~= old_lines + (seq![
                    line@,
                ] + lines_of(cs@.skip(i + 1))));
            }
            start = i + 1;
        }
        i += 1;
    }
    if start < cs.len() {
        let ghost rest = cs@.skip(start as int);
        let ghost old_lines = out.deep_view();
        proof {
            assert forall|j: int| 0 <= j < rest.len() implies (|c: char| c != '\n')(
                #[trigger] rest[j],
            ) by {
                assert(rest[j] == cs[start + j]);
            }
            lemma_lead_is(rest, |c: char| c != '\n', rest.len() as int);
            assert(rest =~= cs@.subrange(start as int, cs@.len() as int));
        }
        let line = from_chars(&cs, start, cs.len());
        out.push(line);
        proof {
            assert(out.deep_view() =~= old_lines.push(line@));
            assert(old_lines.push(line@) =~= old_lines + seq![rest]);
        }
    } else {
        assert(cs@.skip(start as int).len() == 0);
        assert(out.deep_view() + Seq::<Seq<char>>::empty() =~= out.deep_view());
    }
    out
}

/// The texts of `parts[from..to]` with `sep` between neighbours.
pub open spec fn join_of(parts: Seq<Seq<char>>, sep: Seq<char>) -> Seq<char>
    decreases parts.len(),
{
    if parts.len() == 0 {
        Seq::empty()
    } else if parts.len() == 1 {
        parts[0]
    } else {
        join_of(parts.drop_last(), sep) + sep + parts.last()
    }
}

/// Joins `parts[from..=last]` with a line feed between neighbours.
pub fn join_lines(parts: &Vec<String>, from: usize, last: usize) -> (out: String)
    requires
        from <= last < parts.len(),
    ensures
        out@ == join_of(parts.deep_view().subrange(from as int, last + 1), seq!['\n']),
{
    let mut out = parts[from].clone();
    let mut i: usize = from;
    let ghost all = parts.deep_view();
    proof {
        assert(all.subrange(from as int, from + 1)[0] == parts[from as int]@);
    }
    while i < last
        invariant
            from <= i <= last < parts.len(),
            all == parts.deep_view(),
            out@ == join_of(all.subrange(from as int, i + 1), seq!['\n']),
        decreases last - i,
    {
        i += 1;
        let ghost before = out@;
        out.push('\n');
        out.push_str(parts[i].as_str());
        proof {
            let cur = all.subrange(from as int, i + 1);
            assert(cur.drop_last() =~= all.subrange(from as int, i as int));
            assert(cur.last() == parts[i as int]@);
            assert(before.push('\n') =~= before + seq!['\n']);
        }
    }
    out
}

/// `s` with every occurrence of `pat` replaced by `with`, reading from the
/// left and past each occurrence replaced.  An empty `pat` occurs nowhere.
pub open spec fn replaced(s: Seq<char>, pat: Seq<char>, with: Seq<char>) -> Seq<char>
    decreases s.len(),
{
    if s.len() == 0 || pat.len() == 0 {
        s
    } else if occurs_at(s, pat, 0) {
        with + replaced(s.skip(pat.len() as int), pat, with)
    } else {
        seq![s[0]] + replaced(s.skip(1), pat, with)
    }
}

/// Replaces every occurrence of `pat` in `s` by `with`.
pub fn replace_all(s: &str, pat: &str, with: &str) -> (out: String)
    ensures
        out@ == replaced(s@, pat@, with@),
{
    let cs = to_chars(s);
    let p = to_chars(pat);
    if p.len() == 0 {
        return s.to_owned();
    }
    let mut out = String::new();
    let mut i: usize = 0;
    assert(cs@.skip(0) =~= cs@);
    assert(out@ + replaced(cs@, p@, with@) =~= replaced(cs@, p@, with@));
    while i < cs.len()
        invariant
            i <= cs.len(),
            p.len() > 0,
            cs@ == s@,
            p@ == pat@,
            replaced(cs@, p@, with@) == out@ + replaced(cs@.skip(i as int), p@, with@),
        decreases cs.len() - i,
    {
        let ghost before = out@;
        let ghost rest = cs@.skip(i as int);
        let hit = matches_at(&cs, &p, i);
        proof {
            if i + p.len() <= cs.len() {
                assert(rest.subrange(0, p@.len() as int) =~= cs@.subrange(
                    i as int,
                    i + p@.len(),
                ));
            }
            assert(hit == occurs_at(rest, p@, 0));
        }
        if hit {
            out.push_str(with);
            proof {
                assert(rest.skip(p@.len() as int) =~= cs@.skip(i + p@.len()));
                assert(before + (with@ + replaced(cs@.skip(i + p@.len()), p@, with@)) =~= (before
                    + with@) + replaced(cs@.skip(i + p@.len()), p@, with@));
            }
            i += p.len();
        } else {
            out.push(cs[i]);
            proof {
                assert(rest.skip(1) =~= cs@.skip(i + 1));
                assert(before + (seq![rest[0]] + replaced(cs@.skip(i + 1), p@, with@))
                    =~= before.push(cs@[i as int]) + replaced(cs@.skip(i + 1), p@, with@));
            }
            i += 1;
        }
    }
    assert(out@ + Seq::<char>::empty() =~= out@);
    out
}

/// The position of the first `ch` in `cs[from..]`, or the length of `cs`.
pub(crate) fn find_char(cs: &Vec<char>, from: usize, ch: char) -> (i: usize)
    requires
        from <= cs.len(),
    ensures
        from <= i <= cs.len(),
        i - from == lead(cs@.skip(from as int), |c: char| c != ch),
{
    let ghost s = cs@.skip(from as int);
    let mut i: usize = from;
    while i < cs.len() && cs[i] != ch
        invariant
            from <= i <= cs.len(),
            s == cs@.skip(from as int),
            forall|j: int| 0 <= j < i - from ==> #[trigger] s[j] != ch,
        decreases cs.len() - i,
    {
        i += 1;
    }
    proof {
        lemma_lead_is(s, |c: char| c != ch, i - from);
    }
    i
}

/// Whether a longer prefix holds `c`: it does where the shorter one did or
/// the character added is `c`.
pub proof fn lemma_contains_step(s: Seq<char>, i: int, c: char)
    requires
        0 <= i < s.len(),
    ensures
        s.take(i + 1).contains(c) == (s.take(i).contains(c) || s[i] == c),
{
    let head = s.take(i);
    let next = s.take(i + 1);
    if head.contains(c) {
        let k = choose|k: int| 0 <= k < head.len() && head[k] == c;
        assert(next[k] == c);
    }
    if s[i] == c {
        assert(next[i] == c);
    }
    if next.contains(c) && s[i] != c {
        let k = choose|k: int| 0 <= k < next.len() && next[k] == c;
        assert(head[k] == c);
    }
}

/// The first position of `ch` lies inside the text exactly where the text
/// holds `ch`.
pub proof fn lemma_lead_contains(s: Seq<char>, ch: char)
    ensures
        lead(s, |c: char| c != ch) <= s.len(),
        (lead(s, |c: char| c != ch) < s.len()) == s.contains(ch),
    decreases s.len(),
{
    if s.len() > 0 {
        if s[0] == ch {
            assert(s.contains(ch));
        } else {
            let t = s.drop_first();
            lemma_lead_contains(t, ch);
            if t.contains(ch) {
                let k = choose|k: int| 0 <= k < t.len() && t[k] == ch;
                assert(s[k + 1] == ch);
            }
            if s.contains(ch) {
                let k = choose|k: int| 0 <= k < s.len() && s[k] == ch;
                assert(t[k - 1] == ch);
            }
        }
    }
}

/// What `char::is_alphanumeric` returns: whether the character is a letter
/// or a number in Unicode's sense.
pub uninterp spec fn alphanumeric(c: char) -> bool;

/// What `char::is_lowercase` returns: Unicode's property `Lowercase`.
pub uninterp spec fn lowercase_letter(c: char) -> bool;

/// What `char::is_uppercase` returns: Unicode's property `Uppercase`.
pub uninterp spec fn uppercase_letter(c: char) -> bool;

/// What `str::to_lowercase` returns: the text in lower case, by Unicode's
/// rules.
pub uninterp spec fn lowercase_of(s: Seq<char>) -> Seq<char>;

/// `char::is_alphanumeric` is a function of the character, named
/// [`alphanumeric`].
pub assume_specification[ char::is_alphanumeric ](c: char) -> (r: bool)
    ensures
        r == alphanumeric(c),
;

/// `char::is_lowercase` is a function of the character, named
/// [`lowercase_letter`].
pub assume_specification[ char::is_lowercase ](c: char) -> (r: bool)
    ensures
        r == lowercase_letter(c),
;

/// `char::is_uppercase` is a function of the character, named
/// [`uppercase_letter`].
pub assume_specification[ char::is_uppercase ](c: char) -> (r: bool)
    ensures
        r == uppercase_letter(c),
;

/// `str::to_lowercase` is a function of the text, named [`lowercase_of`].
pub assume_specification[ str::to_lowercase ](s: &str) -> (r: String)
    ensures
        r@ == lowercase_of(s@),
;

/// The character of a decimal digit.
pub open spec fn digit_char(d: nat) -> char {
    if d == 0 {
        '0'
    } else if d == 1 {
        '1'
    } else if d == 2 {
        '2'
    } else if d == 3 {
        '3'
    } else if d == 4 {
        '4'
    } else if d == 5 {
        '5'
    } else if d == 6 {
        '6'
    } else if d == 7 {
        '7'
    } else if d == 8 {
        '8'
    } else {
        '9'
    }
}

/// A number in decimal digits, without leading zeros.
pub open spec fn decimal_of(n: nat) -> Seq<char>
    decreases n,
{
    if n < 10 {
        seq![digit_char(n)]
    } else {
        decimal_of(n / 10).push(digit_char(n % 10))
    }
}

/// The character of the decimal digit `d`.
fn digit(d: usize) -> (c: char)
    requires
        d < 10,
    ensures
        c == digit_char(d as nat),
{
    if d == 0 {
        '0'
    } else if d == 1 {
        '1'
    } else if d == 2 {
        '2'
    } else if d == 3 {
        '3'
    } else if d == 4 {
        '4'
    } else if d == 5 {
        '5'
    } else if d == 6 {
        '6'
    } else if d == 7 {
        '7'
    } else if d == 8 {
        '8'
    } else {
        '9'
    }
}

/// Writes a number in decimal digits.
pub fn decimal(n: usize) -> (s: String)
    ensures
        s@ == decimal_of(n as nat),
{
    let mut tail: Vec<char> = Vec::new();
    let mut rest: usize = n;
    assert(decimal_of(n as nat) + tail@.reverse() =~= decimal_of(n as nat));
    while rest >= 10
        invariant
            decimal_of(n as nat) == decimal_of(rest as nat) + tail@.reverse(),
        decreases rest,
    {
        let ghost before = tail@;
        let d = digit(rest % 10);
        tail.push(d);
        proof {
            assert(tail@.reverse() =~= seq![d] + before.reverse());
            assert(decimal_of((rest / 10) as nat).push(d) + before.reverse() =~= decimal_of(
                (rest / 10) as nat,
            ) + tail@.reverse());
        }
        rest = rest / 10;
    }
    let ghost before = tail@;
    let d = digit(rest);
    tail.push(d);
    proof {
        assert(tail@.reverse() =~= seq![d] + before.reverse());
    }
    let mut s = String::new();
    let mut k: usize = tail.len();
    while k > 0
        invariant
            k <= tail.len(),
            s@ == tail@.reverse().take(tail.len() - k),
        decreases k,
    {
        k -= 1;
        s.push(tail[k]);
        assert(tail@.reverse().take(tail.len() - k) =~= tail@.reverse().take(
            tail.len() - (k + 1),
        ).push(tail@[k as int]));
    }
    assert(tail@.reverse().take(tail.len() as int) =~= tail@.reverse());
    s
}

/// What `str::to_uppercase` returns: the text in upper case, by Unicode's
/// rules.
pub uninterp spec fn uppercase_of(s: Seq<char>) -> Seq<char>;

/// `str::to_uppercase` is a function of the text, named [`uppercase_of`].
pub assume_specification[ str::to_uppercase ](s: &str) -> (r: String)
    ensures
        r@ == uppercase_of(s@),
;

/// A text written `n` times over.
pub open spec fn repeated(s: Seq<char>, n: nat) -> Seq<char>
    decreases n,
{
    if n == 0 {
        Seq::empty()
    } else {
        repeated(s, (n - 1) as nat) + s
    }
}

/// Writes a text `n` times over.
pub fn repeat(s: &str, n: usize) -> (out: String)
    ensures
        out@ == repeated(s@, n as nat),
{
    let mut out = String::new();
    let mut i: usize = 0;
    while i < n
        invariant
            i <= n,
            out@ == repeated(s@, i as nat),
        decreases n - i,
    {
        out.push_str(s);
        i += 1;
    }
    out
}

/// How many bytes the UTF-8 encoding of a text has.
pub open spec fn byte_len_of(s: Seq<char>) -> nat {
    encode_utf8(s).len()
}

/// The length of a text in bytes.
pub fn byte_len(s: &str) -> (n: usize)
    ensures
        n == byte_len_of(s@),
{
    s.as_bytes().len()
}

/// A directory and a file name as one path.  A name that starts at the root
/// stands alone, as does a name under the empty directory.
pub open spec fn joined_path(dir: Seq<char>, name: Seq<char>) -> Seq<char> {
    if dir.len() == 0 || (name.len() > 0 && name[0] == '/') {
        name
    } else if dir.last() == '/' {
        dir + name
    } else {
        dir + seq!['/'] + name
    }
}

/// Joins a directory and a file name.
pub fn join_path(dir: &str, name: &str) -> (path: String)
    ensures
        path@ == joined_path(dir@, name@),
{
    let d = to_chars(dir);
    let n = to_chars(name);
    if d.len() == 0 || (n.len() > 0 && n[0] == '/') {
        return name.to_owned();
    }
    let mut path = dir.to_owned();
    if d[d.len() - 1] != '/' {
        path.push('/');
        assert(dir@.push('/') =~= dir@ + seq!['/']);
    }
    path.push_str(name);
    path
}

/// `String::push_str` appends the string slice to the end of the string.
pub assume_specification[ String::push_str ](s: &mut String, other: &str)
    ensures
        final(s)@ == old(s)@ + other@,
;

} // verus!
