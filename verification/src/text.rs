//! Text as a sequence of characters.
//!
//! The passes work on `Vec<char>`, whose indices are character offsets. This
//! module holds the conversions from and to `String`, the scans over a class
//! of characters in both directions, and the small text operations (trimming,
//! joining, escaping, decimal numbers) that the passes are stated with.

use vstd::prelude::*;
use crate::chars::CharClass;

verus! {

/// `String::push` of the standard library appends one character.
pub assume_specification[ String::push ](s: &mut String, c: char)
    ensures
        final(s)@ == old(s)@.push(c),
;

/// An offset into an input together with the output written before it.
pub struct Step {
    pub pos: int,
    pub out: Seq<char>,
}

/// `st` continues a pass from `pos` with the characters in between copied to
/// the output as they stand.
pub open spec fn copied(input: Seq<char>, pos: int, out: Seq<char>, st: Step) -> bool {
    pos <= st.pos <= input.len() && st.out == out + input.subrange(pos, st.pos)
}

/// Copying goes on: what is copied from `pos + n` after `pos..pos + n` was
/// appended is copied from `pos`.
pub proof fn lemma_copied_push(input: Seq<char>, pos: int, out: Seq<char>, st: Step, n: int)
    requires
        0 <= pos,
        0 <= n,
        pos + n <= input.len(),
        copied(input, pos + n, out + input.subrange(pos, pos + n), st),
    ensures
        copied(input, pos, out, st),
{
    assert(out + input.subrange(pos, pos + n) + input.subrange(pos + n, st.pos) =~= out
        + input.subrange(pos, st.pos));
}

/// The character at offset `i`, if there is one.
pub open spec fn char_at(s: Seq<char>, i: int) -> Option<char> {
    if 0 <= i < s.len() {
        Some(s[i])
    } else {
        None
    }
}

/// Whether `lit` stands in `s` at offset `pos`.
pub open spec fn has_prefix_at(s: Seq<char>, pos: int, lit: Seq<char>) -> bool {
    0 <= pos && pos + lit.len() <= s.len() && s.subrange(pos, pos + lit.len()) == lit
}

/// Whether `lit` stands somewhere in `s`.
pub open spec fn contains_text(s: Seq<char>, lit: Seq<char>) -> bool {
    exists|i: int| has_prefix_at(s, i, lit)
}

/// The first offset at or after `pos` whose character is not in `class`; the
/// length of `s` if there is none.
pub open spec fn scan_end(s: Seq<char>, pos: int, class: CharClass) -> int
    decreases s.len() - pos,
{
    if 0 <= pos < s.len() && class.holds(s[pos]) {
        scan_end(s, pos + 1, class)
    } else {
        pos
    }
}

/// The least offset `start <= end` such that all characters in
/// `start..end` are in `class`.
pub open spec fn scan_back(s: Seq<char>, end: int, class: CharClass) -> int
    decreases end,
{
    if 0 < end <= s.len() && class.holds(s[end - 1]) {
        scan_back(s, end - 1, class)
    } else {
        end
    }
}

pub proof fn lemma_scan_end(s: Seq<char>, pos: int, class: CharClass)
    ensures
        pos <= scan_end(s, pos, class),
        pos <= s.len() ==> scan_end(s, pos, class) <= s.len(),
        forall|i: int| 0 <= pos <= i < scan_end(s, pos, class) ==> class.holds(#[trigger] s[i]),
        0 <= scan_end(s, pos, class) < s.len() ==> !class.holds(s[scan_end(s, pos, class)]),
    decreases s.len() - pos,
{
    if 0 <= pos < s.len() && class.holds(s[pos]) {
        lemma_scan_end(s, pos + 1, class);
    }
}

/// A scan that begins at a character of its class passes it.
pub proof fn lemma_scan_end_moves(s: Seq<char>, pos: int, class: CharClass)
    ensures
        0 <= pos < s.len() && class.holds(s[pos]) ==> pos < scan_end(s, pos, class),
{
    if 0 <= pos < s.len() && class.holds(s[pos]) {
        lemma_scan_end(s, pos + 1, class);
    }
}

/// `s` without its trailing white space.
pub open spec fn trim_end(s: Seq<char>) -> Seq<char> {
    s.subrange(0, scan_back(s, s.len() as int, CharClass::Whitespace))
}

/// `s` without its leading white space.
pub open spec fn trim_start(s: Seq<char>) -> Seq<char> {
    s.subrange(scan_end(s, 0, CharClass::Whitespace), s.len() as int)
}

/// `s` without its leading and trailing white space.
pub open spec fn trim(s: Seq<char>) -> Seq<char> {
    trim_start(trim_end(s))
}

/// The parts in order, with `sep` between neighbours.
pub open spec fn join(parts: Seq<Seq<char>>, sep: Seq<char>) -> Seq<char>
    decreases parts.len(),
{
    if parts.len() == 0 {
        Seq::empty()
    } else if parts.len() == 1 {
        parts[0]
    } else {
        join(parts.drop_last(), sep) + sep + parts.last()
    }
}

/// What a character becomes inside a double-quoted literal of the output.
pub open spec fn escape_char(c: char) -> Seq<char> {
    if c == '\\' {
        seq!['\\', '\\']
    } else if c == '"' {
        seq!['\\', '"']
    } else if c == '\n' {
        seq!['\\', 'n']
    } else if c == '\r' {
        seq!['\\', 'r']
    } else if c == '\t' {
        seq!['\\', 't']
    } else {
        seq![c]
    }
}

/// `s` with backslash, double quote, line feed, carriage return and tab
/// escaped.
pub open spec fn escape(s: Seq<char>) -> Seq<char>
    decreases s.len(),
{
    if s.len() == 0 {
        Seq::empty()
    } else {
        escape(s.drop_last()) + escape_char(s.last())
    }
}

pub open spec fn digit_char(d: int) -> char {
    if d == 0 {
        '0'
    } else if d == 1 {
        '1'
    } else if d == 2 {
        '2'
    } else if d == 3 {
        '3'
    } else if d == 4 {
        '4'
    } else if d == 5 {
        '5'
    } else if d == 6 {
        '6'
    } else if d == 7 {
        '7'
    } else if d == 8 {
        '8'
    } else {
        '9'
    }
}

/// The decimal numeral of `n`, without leading zeros.
pub open spec fn decimal(n: nat) -> Seq<char>
    decreases n,
{
    if n < 10 {
        seq![digit_char(n as int)]
    } else {
        decimal(n / 10).push(digit_char((n % 10) as int))
    }
}

/// The characters of `s`.
pub fn chars_of(s: &str) -> (v: Vec<char>)
    ensures
        v@ == s@,
{
    let mut v: Vec<char> = Vec::new();
    for c in it: s.chars()
        invariant
            v@ == it.seq().subrange(0, it.index() as int),
            it.seq() == s@,
    {
        v.push(c);
    }
    v
}

/// The string made of the characters of `v`.
pub fn string_of(v: &Vec<char>) -> (s: String)
    ensures
        s@ == v@,
{
    let mut s = String::new();
    let mut i: usize = 0;
    while i < v.len()
        invariant
            i <= v.len(),
            s@ == v@.subrange(0, i as int),
        decreases v.len() - i,
    {
        s.push(v[i]);
        i += 1;
    }
    s
}

/// Appends the characters `start..end` of `src` to `out`.
pub fn push_range(out: &mut Vec<char>, src: &Vec<char>, start: usize, end: usize)
    requires
        start <= end <= src.len(),
    ensures
        final(out)@ == old(out)@ + src@.subrange(start as int, end as int),
{
    let mut i: usize = start;
    while i < end
        invariant
            start <= i <= end <= src.len(),
            out@ == old(out)@ + src@.subrange(start as int, i as int),
        decreases end - i,
    {
        out.push(src[i]);
        i += 1;
    }
}

/// Appends all of `v` to `out`.
pub fn push_all(out: &mut Vec<char>, v: &Vec<char>)
    ensures
        final(out)@ == old(out)@ + v@,
{
    push_range(out, v, 0, v.len());
}

/// Appends the characters of `s` to `out`.
pub fn push_str(out: &mut Vec<char>, s: &str)
    ensures
        final(out)@ == old(out)@ + s@,
{
    let v = chars_of(s);
    push_all(out, &v);
}

/// The characters `start..end` of `src`.
pub fn slice_of(src: &Vec<char>, start: usize, end: usize) -> (v: Vec<char>)
    requires
        start <= end <= src.len(),
    ensures
        v@ == src@.subrange(start as int, end as int),
{
    let mut v: Vec<char> = Vec::new();
    push_range(&mut v, src, start, end);
    v
}

/// Whether the characters `l` stand in `src` at offset `pos`.
pub fn has_chars_at(src: &Vec<char>, pos: usize, l: &Vec<char>) -> (r: bool)
    ensures
        r == has_prefix_at(src@, pos as int, l@),
{
    if pos > src.len() || l.len() > src.len() - pos {
        return false;
    }
    let mut i: usize = 0;
    while i < l.len()
        invariant
            i <= l.len(),
            pos + l.len() <= src.len(),
            forall|j: int| 0 <= j < i ==> src@[pos + j] == l@[j],
        decreases l.len() - i,
    {
        if src[pos + i] != l[i] {
            return false;
        }
        i += 1;
    }
    assert(src@.subrange(pos as int, pos + l.len()) =~= l@);
    true
}

/// Whether the characters of `lit` stand in `src` at offset `pos`.
pub fn starts_with_at(src: &Vec<char>, pos: usize, lit: &str) -> (r: bool)
    ensures
        r == has_prefix_at(src@, pos as int, lit@),
{
    has_chars_at(src, pos, &chars_of(lit))
}

/// The offset of the first place at or after `pos` where `lit` stands in
/// `s`; the length of `s` if there is none.
pub open spec fn text_index(s: Seq<char>, pos: int, lit: Seq<char>) -> int
    decreases s.len() - pos,
{
    if pos < 0 || pos >= s.len() || pos + lit.len() > s.len() {
        s.len() as int
    } else if has_prefix_at(s, pos, lit) {
        pos
    } else {
        text_index(s, pos + 1, lit)
    }
}

pub proof fn lemma_text_index(s: Seq<char>, pos: int, lit: Seq<char>)
    requires
        0 <= pos,
    ensures
        pos <= text_index(s, pos, lit) || text_index(s, pos, lit) == s.len(),
        text_index(s, pos, lit) <= s.len(),
        text_index(s, pos, lit) < s.len() ==> has_prefix_at(s, text_index(s, pos, lit), lit),
        forall|i: int| pos <= i < text_index(s, pos, lit) ==> !has_prefix_at(s, i, lit),
        lit.len() > 0 && text_index(s, pos, lit) == s.len() ==> forall|i: int|
            pos <= i ==> !has_prefix_at(s, i, lit),
    decreases s.len() - pos,
{
    if pos >= s.len() || pos + lit.len() > s.len() {
    } else if has_prefix_at(s, pos, lit) {
    } else {
        lemma_text_index(s, pos + 1, lit);
    }
}

/// Whether `lit` stands somewhere in `s`. `lit` is not empty.
pub open spec fn includes(s: Seq<char>, lit: Seq<char>) -> bool {
    text_index(s, 0, lit) < s.len()
}

/// The offset of the first place at or after `pos` where `lit` stands in
/// `src`; the length of `src` if there is none.
pub fn find_text(src: &Vec<char>, pos: usize, lit: &str) -> (r: usize)
    ensures
        r == text_index(src@, pos as int, lit@),
        r <= src.len(),
{
    let l = chars_of(lit);
    let mut i: usize = pos;
    while i < src.len() && l.len() <= src.len() - i
        invariant
            pos <= i,
            l@ == lit@,
            text_index(src@, i as int, lit@) == text_index(src@, pos as int, lit@),
        decreases src.len() - i,
    {
        if has_chars_at(src, i, &l) {
            return i;
        }
        i += 1;
    }
    src.len()
}

/// Whether `lit` stands somewhere in `src`.
pub fn has_text(src: &Vec<char>, lit: &str) -> (r: bool)
    ensures
        r == includes(src@, lit@),
{
    find_text(src, 0, lit) < src.len()
}

/// Whether `v` is the text `lit`.
pub fn is_text(v: &Vec<char>, lit: &str) -> (r: bool)
    ensures
        r == (v@ == lit@),
{
    let l = chars_of(lit);
    if l.len() != v.len() {
        return false;
    }
    let r = starts_with_at(v, 0, lit);
    assert(v@.subrange(0, v.len() as int) == v@);
    r
}

/// Whether two texts are equal.
pub fn same_text(a: &Vec<char>, b: &Vec<char>) -> (r: bool)
    ensures
        r == (a@ == b@),
{
    if a.len() != b.len() {
        return false;
    }
    let mut i: usize = 0;
    while i < a.len()
        invariant
            i <= a.len(),
            a.len() == b.len(),
            forall|j: int| 0 <= j < i ==> a@[j] == b@[j],
        decreases a.len() - i,
    {
        if a[i] != b[i] {
            return false;
        }
        i += 1;
    }
    assert(a@ =~= b@);
    true
}

/// Scans forward from `pos` over the characters in `class`.
pub fn scan(src: &Vec<char>, pos: usize, class: CharClass) -> (end: usize)
    ensures
        end == scan_end(src@, pos as int, class),
        pos <= end,
        pos <= src.len() ==> end <= src.len(),
{
    let mut i: usize = pos;
    while i < src.len() && class.test(src[i])
        invariant
            pos <= i,
            pos <= src.len() ==> i <= src.len(),
            scan_end(src@, pos as int, class) == scan_end(src@, i as int, class),
        decreases src.len() - i,
    {
        i += 1;
    }
    i
}

/// Scans backward from `end` over the characters in `class`.
pub fn scan_backward(src: &Vec<char>, end: usize, class: CharClass) -> (start: usize)
    ensures
        start == scan_back(src@, end as int, class),
        start <= end,
{
    let mut i: usize = end;
    while 0 < i && i <= src.len() && class.test(src[i - 1])
        invariant
            i <= end,
            scan_back(src@, end as int, class) == scan_back(src@, i as int, class),
        decreases i,
    {
        i -= 1;
    }
    i
}

/// `v` without its trailing white space.
pub fn trimmed_end(v: &Vec<char>) -> (r: Vec<char>)
    ensures
        r@ == trim_end(v@),
{
    let e = scan_backward(v, v.len(), CharClass::Whitespace);
    slice_of(v, 0, e)
}

/// `v` without its leading white space.
pub fn trimmed_start(v: &Vec<char>) -> (r: Vec<char>)
    ensures
        r@ == trim_start(v@),
{
    let b = scan(v, 0, CharClass::Whitespace);
    slice_of(v, b, v.len())
}

/// `v` without its leading and trailing white space.
pub fn trimmed(v: &Vec<char>) -> (r: Vec<char>)
    ensures
        r@ == trim(v@),
{
    let t = trimmed_end(v);
    trimmed_start(&t)
}

/// The views of the texts of a list.
pub open spec fn texts(parts: Seq<Vec<char>>) -> Seq<Seq<char>> {
    Seq::new(parts.len(), |i: int| parts[i]@)
}

/// The views of a list with one more text.
pub proof fn lemma_texts_push(parts: Seq<Vec<char>>, part: Vec<char>)
    ensures
        texts(parts.push(part)) == texts(parts).push(part@),
{
}

/// Appends the parts to `out`, with `sep` between neighbours.
pub fn push_joined(out: &mut Vec<char>, parts: &Vec<Vec<char>>, sep: &str)
    ensures
        final(out)@ == old(out)@ + join(texts(parts@), sep@),
{
    let mut i: usize = 0;
    while i < parts.len()
        invariant
            i <= parts.len(),
            out@ == old(out)@ + join(texts(parts@).subrange(0, i as int), sep@),
        decreases parts.len() - i,
    {
        let ghost before = texts(parts@).subrange(0, i as int);
        let ghost after = texts(parts@).subrange(0, i + 1);
        assert(after.drop_last() == before);
        if i > 0 {
            push_str(out, sep);
        }
        push_all(out, &parts[i]);
        assert(out@ == old(out)@ + join(after, sep@));
        i += 1;
    }
    assert(texts(parts@).subrange(0, parts.len() as int) == texts(parts@));
}

/// Appends the escaped form of `v` to `out`.
pub fn push_escaped(out: &mut Vec<char>, v: &Vec<char>)
    ensures
        final(out)@ == old(out)@ + escape(v@),
{
    let mut i: usize = 0;
    while i < v.len()
        invariant
            i <= v.len(),
            out@ == old(out)@ + escape(v@.subrange(0, i as int)),
        decreases v.len() - i,
    {
        let c = v[i];
        assert(v@.subrange(0, i + 1).drop_last() == v@.subrange(0, i as int));
        if c == '\\' {
            out.push('\\');
            out.push('\\');
        } else if c == '"' {
            out.push('\\');
            out.push('"');
        } else if c == '\n' {
            out.push('\\');
            out.push('n');
        } else if c == '\r' {
            out.push('\\');
            out.push('r');
        } else if c == '\t' {
            out.push('\\');
            out.push('t');
        } else {
            out.push(c);
        }
        i += 1;
    }
    assert(v@.subrange(0, v.len() as int) == v@);
}

/// The character of a decimal digit.
pub fn digit_of(d: usize) -> (c: char)
    requires
        d < 10,
    ensures
        c == digit_char(d as int),
{
    if d == 0 {
        '0'
    } else if d == 1 {
        '1'
    } else if d == 2 {
        '2'
    } else if d == 3 {
        '3'
    } else if d == 4 {
        '4'
    } else if d == 5 {
        '5'
    } else if d == 6 {
        '6'
    } else if d == 7 {
        '7'
    } else if d == 8 {
        '8'
    } else {
        '9'
    }
}

/// Appends the decimal numeral of `n` to `out`.
pub fn push_decimal(out: &mut Vec<char>, n: usize)
    ensures
        final(out)@ == old(out)@ + decimal(n as nat),
    decreases n,
{
    if n < 10 {
        out.push(digit_of(n));
    } else {
        push_decimal(out, n / 10);
        out.push(digit_of(n % 10));
    }
}

} // verus!
