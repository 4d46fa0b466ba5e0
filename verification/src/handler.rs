//! Request logic of the CENTRA-NF language server: the store of open
//! documents and the answer to each request, computed from plain values.
//! Reading and writing JSON-RPC messages, and turning the answers into
//! JSON, is the caller's part.

use vstd::prelude::*;
use vstd::utf8::{encode_scalar, encode_utf8};

use crate::pairs::{find_pair, insert_pair, keys_distinct, keys_sorted, pairs_map, pairs_view, remove_pair};
use crate::text::{chars_of, decimal, eq_str, owned, push_chars, push_decimal, push_str, string_of};

verus! {

// ---------------------------------------------------------------------------
// Text measures
// ---------------------------------------------------------------------------

/// The length in bytes of the UTF-8 encoding of `s`: what `str::len` gives.
pub open spec fn byte_len(s: Seq<char>) -> nat {
    encode_utf8(s).len()
}

/// Whether a text is short enough that its length in bytes fits in a `usize`.
pub open spec fn text_fits(s: Seq<char>) -> bool {
    s.len() < usize::MAX && byte_len(s) < usize::MAX
}

proof fn lemma_encode_push(a: Seq<char>, c: char)
    ensures
        encode_utf8(a.push(c)) == encode_utf8(a) + encode_scalar(c as u32),
    decreases a.len(),
{
    if a.len() == 0 {
        assert(a.push(c).drop_first() =~= Seq::<char>::empty());
        assert(encode_utf8(a.push(c)) =~= encode_scalar(c as u32) + encode_utf8(Seq::<char>::empty()));
        assert(encode_utf8(a.push(c)) =~= encode_utf8(a) + encode_scalar(c as u32));
    } else {
        assert(a.push(c).drop_first() =~= a.drop_first().push(c));
        lemma_encode_push(a.drop_first(), c);
        assert(encode_utf8(a.push(c)) =~= encode_utf8(a) + encode_scalar(c as u32));
    }
}

proof fn lemma_byte_len_prefix(s: Seq<char>, i: int)
    requires
        0 <= i < s.len(),
    ensures
        byte_len(s.take(i + 1)) == byte_len(s.take(i)) + encode_scalar(s[i] as u32).len(),
        1 <= encode_scalar(s[i] as u32).len() <= 4,
{
    assert(s.take(i + 1) =~= s.take(i).push(s[i]));
    lemma_encode_push(s.take(i), s[i]);
}

proof fn lemma_byte_len_monotone(s: Seq<char>, i: int, j: int)
    requires
        0 <= i <= j <= s.len(),
    ensures
        byte_len(s.take(i)) + (j - i) <= byte_len(s.take(j)),
    decreases j - i,
{
    if i < j {
        lemma_byte_len_monotone(s, i, j - 1);
        lemma_byte_len_prefix(s, j - 1);
    }
}

fn char_width(c: char) -> (w: usize)
    ensures
        w == encode_scalar(c as u32).len(),
{
    let u = c as u32;
    if u < 0x80 {
        1
    } else if u < 0x800 {
        2
    } else if u < 0x10000 {
        3
    } else {
        4
    }
}

/// The length in bytes of the UTF-8 encoding of `s`.
pub fn byte_length(s: &Vec<char>) -> (n: usize)
    requires
        byte_len(s@) < usize::MAX,
    ensures
        n == byte_len(s@),
{
    let len = s.len();
    let mut i: usize = 0;
    let mut n: usize = 0;
    proof {
        lemma_byte_len_monotone(s@, 0, s@.len() as int);
        assert(s@.take(0) =~= Seq::<char>::empty());
        assert(s@.take(s@.len() as int) =~= s@);
    }
    while i < len
        invariant
            len == s@.len(),
            i <= len,
            n == byte_len(s@.take(i as int)),
            byte_len(s@.take(len as int)) < usize::MAX,
        decreases len - i,
    {
        proof {
            lemma_byte_len_prefix(s@, i as int);
            lemma_byte_len_monotone(s@, (i + 1) as int, len as int);
        }
        n = n + char_width(s[i]);
        i = i + 1;
    }
    assert(s@.take(len as int) =~= s@);
    n
}

// ---------------------------------------------------------------------------
// Lines
// ---------------------------------------------------------------------------

/// The index of the first line feed at or after `i`, or the length of `s`.
pub open spec fn newline_at_or_after(s: Seq<char>, i: nat) -> nat
    decreases s.len() - i,
{
    if i >= s.len() {
        s.len()
    } else if s[i as int] == '\n' {
        i
    } else {
        newline_at_or_after(s, i + 1)
    }
}

pub proof fn lemma_newline_bounds(s: Seq<char>, i: nat)
    requires
        i <= s.len(),
    ensures
        i <= newline_at_or_after(s, i) <= s.len(),
        newline_at_or_after(s, i) < s.len() ==> s[newline_at_or_after(s, i) as int] == '\n',
    decreases s.len() - i,
{
    if i < s.len() && s[i as int] != '\n' {
        lemma_newline_bounds(s, i + 1);
    }
}

/// A line without the carriage return that ends it, if any.
pub open spec fn strip_cr(l: Seq<char>) -> Seq<char> {
    if l.len() > 0 && l.last() == '\r' {
        l.drop_last()
    } else {
        l
    }
}

/// The lines of `s` from index `i` on, as `str::lines` gives them: split at
/// each line feed, a carriage return just before a line feed dropped, and no
/// empty line after a final line feed.
pub open spec fn lines_from(s: Seq<char>, i: nat) -> Seq<Seq<char>>
    decreases s.len() - i,
{
    if i >= s.len() {
        Seq::empty()
    } else {
        let k = newline_at_or_after(s, i);
        if k >= s.len() {
            seq![s.subrange(i as int, s.len() as int)]
        } else {
            proof {
                lemma_newline_bounds(s, i);
            }
            seq![strip_cr(s.subrange(i as int, k as int))] + lines_from(s, k + 1)
        }
    }
}

/// The lines of a document.
pub open spec fn lines_of(s: Seq<char>) -> Seq<Seq<char>> {
    lines_from(s, 0)
}

/// The views of a sequence of character vectors.
pub open spec fn char_vecs_view(v: Seq<Vec<char>>) -> Seq<Seq<char>> {
    v.map_values(|l: Vec<char>| l@)
}

/// Splits a document into its lines (see `lines_of`).
pub fn split_lines(s: &Vec<char>) -> (lines: Vec<Vec<char>>)
    ensures
        char_vecs_view(lines@) == lines_of(s@),
{
    let n = s.len();
    let mut lines: Vec<Vec<char>> = Vec::new();
    let mut i: usize = 0;
    assert(char_vecs_view(lines@) =~= Seq::<Seq<char>>::empty());
    while i < n
        invariant
            n == s@.len(),
            i <= n,
            lines_of(s@) == char_vecs_view(lines@) + lines_from(s@, i as nat),
        decreases n - i,
    {
        let mut j: usize = i;
        let mut line: Vec<char> = Vec::new();
        while j < n && s[j] != '\n'
            invariant
                n == s@.len(),
                i <= j <= n,
                line@ == s@.subrange(i as int, j as int),
                newline_at_or_after(s@, i as nat) == newline_at_or_after(s@, j as nat),
            decreases n - j,
        {
            line.push(s[j]);
            j = j + 1;
            assert(line@ =~= s@.subrange(i as int, j as int));
        }
        let ghost before = char_vecs_view(lines@);
        if j >= n {
            lines.push(line);
            assert(char_vecs_view(lines@) =~= before.push(s@.subrange(i as int, n as int)));
            assert(lines_from(s@, n as nat) =~= Seq::<Seq<char>>::empty());
            assert(lines_of(s@) =~= char_vecs_view(lines@) + lines_from(s@, n as nat));
            i = n;
        } else {
            let len = line.len();
            if len > 0 && line[len - 1] == '\r' {
                line.pop();
            }
            assert(line@ == strip_cr(s@.subrange(i as int, j as int)));
            lines.push(line);
            assert(char_vecs_view(lines@) =~= before.push(strip_cr(s@.subrange(i as int, j as int))));
            assert(lines_of(s@) =~= char_vecs_view(lines@) + lines_from(s@, (j + 1) as nat));
            i = j + 1;
        }
    }
    assert(lines_from(s@, i as nat) =~= Seq::<Seq<char>>::empty());
    assert(lines_of(s@) =~= char_vecs_view(lines@));
    lines
}

proof fn lemma_encode_concat(a: Seq<char>, b: Seq<char>)
    ensures
        encode_utf8(a + b) == encode_utf8(a) + encode_utf8(b),
    decreases b.len(),
{
    if b.len() == 0 {
        assert(a + b =~= a);
        assert(encode_utf8(b) =~= Seq::<u8>::empty());
        assert(encode_utf8(a) + encode_utf8(b) =~= encode_utf8(a));
    } else {
        let b0 = b.drop_last();
        let c = b.last();
        assert(a + b =~= (a + b0).push(c));
        assert(b =~= b0.push(c));
        lemma_encode_concat(a, b0);
        lemma_encode_push(a + b0, c);
        lemma_encode_push(b0, c);
        assert(encode_utf8(a + b) =~= encode_utf8(a) + encode_utf8(b));
    }
}

/// The bytes of a piece of a text are no more than those of the text.
proof fn lemma_byte_len_subrange(s: Seq<char>, i: int, j: int)
    requires
        0 <= i <= j <= s.len(),
    ensures
        byte_len(s.subrange(i, j)) <= byte_len(s),
{
    let a = s.subrange(0, i);
    let b = s.subrange(i, j);
    let c = s.subrange(j, s.len() as int);
    assert(s =~= a + b + c);
    lemma_encode_concat(a + b, c);
    lemma_encode_concat(a, b);
}

proof fn lemma_lines_from_pieces(s: Seq<char>, i: nat)
    ensures
        forall|k: int| 0 <= k < lines_from(s, i).len() ==> byte_len(#[trigger] lines_from(s, i)[k]) <= byte_len(s),
    decreases s.len() - i,
{
    if i < s.len() {
        let k = newline_at_or_after(s, i);
        lemma_newline_bounds(s, i);
        if k >= s.len() {
            lemma_byte_len_subrange(s, i as int, s.len() as int);
        } else {
            let l = s.subrange(i as int, k as int);
            lemma_byte_len_subrange(s, i as int, k as int);
            if l.len() > 0 && l.last() == '\r' {
                lemma_byte_len_subrange(s, i as int, k - 1);
                assert(l.drop_last() =~= s.subrange(i as int, k - 1));
            }
            lemma_lines_from_pieces(s, k + 1);
            let rest = lines_from(s, k + 1);
            assert forall|m: int| 0 <= m < lines_from(s, i).len() implies byte_len(#[trigger] lines_from(s, i)[m]) <= byte_len(s) by {
                if m > 0 {
                    assert(lines_from(s, i)[m] == rest[m - 1]);
                }
            }
        }
    }
}

/// No line of a document has more bytes than the document.
pub proof fn lemma_lines_fit(s: Seq<char>)
    ensures
        forall|k: int| 0 <= k < lines_of(s).len() ==> byte_len(#[trigger] lines_of(s)[k]) <= byte_len(s),
{
    lemma_lines_from_pieces(s, 0);
}

// ---------------------------------------------------------------------------
// Searching
// ---------------------------------------------------------------------------

/// Whether `needle` occurs in `hay` at index `i`.
pub open spec fn occurs_at(hay: Seq<char>, needle: Seq<char>, i: int) -> bool {
    0 <= i && i + needle.len() <= hay.len() && hay.subrange(i, i + needle.len()) == needle
}

/// Whether `needle` occurs in `hay`.
pub open spec fn contains_text(hay: Seq<char>, needle: Seq<char>) -> bool {
    exists|i: int| #[trigger] occurs_at(hay, needle, i)
}

fn occurs_at_exec(hay: &Vec<char>, needle: &Vec<char>, i: usize) -> (b: bool)
    requires
        i + needle@.len() <= hay@.len(),
    ensures
        b == occurs_at(hay@, needle@, i as int),
{
    let m = needle.len();
    let n = hay.len();
    let mut k: usize = 0;
    while k < m
        invariant
            m == needle@.len(),
            n == hay@.len(),
            i + m <= n,
            k <= m,
            forall|q: int| 0 <= q < k ==> hay@[i + q] == needle@[q],
        decreases m - k,
    {
        if hay[i + k] != needle[k] {
            assert(hay@.subrange(i as int, i + m)[k as int] != needle@[k as int]);
            return false;
        }
        k = k + 1;
    }
    assert(hay@.subrange(i as int, i + m) =~= needle@);
    true
}

/// Whether `needle` occurs in `hay`.
pub fn contains(hay: &Vec<char>, needle: &Vec<char>) -> (b: bool)
    ensures
        b == contains_text(hay@, needle@),
{
    let n = hay.len();
    let m = needle.len();
    if m > n {
        assert forall|i: int| !#[trigger] occurs_at(hay@, needle@, i) by {}
        return false;
    }
    let last = n - m;
    let mut i: usize = 0;
    while i < last
        invariant
            n == hay@.len(),
            m == needle@.len(),
            last == n - m,
            i <= last,
            forall|q: int| 0 <= q < i ==> !#[trigger] occurs_at(hay@, needle@, q),
        decreases last - i,
    {
        if occurs_at_exec(hay, needle, i) {
            return true;
        }
        i = i + 1;
    }
    if occurs_at_exec(hay, needle, last) {
        return true;
    }
    assert forall|q: int| !#[trigger] occurs_at(hay@, needle@, q) by {
        if 0 <= q < i {
        }
    }
    false
}

// ---------------------------------------------------------------------------
// Hover and document symbols
// ---------------------------------------------------------------------------

/// The hover text at `line` and `character` of a document: the line quoted
/// with its number counted from 1, or a note that the line or the position
/// is out of range; `character` counts bytes, as the line's length does.
pub open spec fn hover_text(doc: Seq<char>, line: nat, character: nat) -> Seq<char> {
    let ls = lines_of(doc);
    if line < ls.len() {
        if character <= byte_len(ls[line as int]) {
            "Line "@ + decimal(line + 1) + ": `"@ + ls[line as int]
                + "`\n\n**CENTRA-NF Language**\nHover support available."@
        } else {
            "Position out of bounds"@
        }
    } else {
        "Line not found"@
    }
}

/// The hover text at a position of a document (see `hover_text`).
pub fn hover(doc: &Vec<char>, line: usize, character: usize) -> (t: String)
    requires
        text_fits(doc@),
    ensures
        t@ == hover_text(doc@, line as nat, character as nat),
{
    let lines = split_lines(doc);
    proof {
        lemma_lines_fit(doc@);
    }
    if line < lines.len() {
        let content = &lines[line];
        assert(content@ == lines_of(doc@)[line as int]);
        if character <= byte_length(content) {
            let mut v: Vec<char> = Vec::new();
            push_str(&mut v, "Line ");
            push_decimal(&mut v, line + 1);
            push_str(&mut v, ": `");
            push_chars(&mut v, content);
            push_str(&mut v, "`\n\n**CENTRA-NF Language**\nHover support available.");
            string_of(&v)
        } else {
            owned("Position out of bounds")
        }
    } else {
        owned("Line not found")
    }
}

/// A division heading that a line holds, the first of the four in
/// division order, if any.
pub open spec fn line_symbol(l: Seq<char>) -> Option<Seq<char>> {
    if contains_text(l, "IDENTIFICATION DIVISION"@) {
        Some("IDENTIFICATION DIVISION"@)
    } else if contains_text(l, "ENVIRONMENT DIVISION"@) {
        Some("ENVIRONMENT DIVISION"@)
    } else if contains_text(l, "DATA DIVISION"@) {
        Some("DATA DIVISION"@)
    } else if contains_text(l, "PROCEDURE DIVISION"@) {
        Some("PROCEDURE DIVISION"@)
    } else {
        None
    }
}

/// A symbol of a document: a division heading, the line that holds it and
/// that line's length in bytes.
pub struct SymbolView {
    pub name: Seq<char>,
    pub line: nat,
    pub length: nat,
}

/// The symbols of a document's lines, in line order: one for each line that
/// holds a division heading.
pub open spec fn line_symbols(ls: Seq<Seq<char>>) -> Seq<SymbolView>
    decreases ls.len(),
{
    if ls.len() == 0 {
        Seq::empty()
    } else {
        let before = line_symbols(ls.drop_last());
        match line_symbol(ls.last()) {
            Some(name) => before.push(SymbolView { name, line: (ls.len() - 1) as nat, length: byte_len(ls.last()) }),
            None => before,
        }
    }
}

/// A symbol of a document (see `SymbolView`).
#[derive(Debug, Clone, PartialEq)]
pub struct DocumentSymbol {
    pub name: String,
    pub line: usize,
    pub length: usize,
}

impl View for DocumentSymbol {
    type V = SymbolView;

    open spec fn view(&self) -> SymbolView {
        SymbolView { name: self.name@, line: self.line as nat, length: self.length as nat }
    }
}

fn heading_of(l: &Vec<char>) -> (r: Option<String>)
    ensures
        crate::ast::opt_view(r) == line_symbol(l@),
{
    let id = chars_of("IDENTIFICATION DIVISION");
    let env = chars_of("ENVIRONMENT DIVISION");
    let data = chars_of("DATA DIVISION");
    let proc = chars_of("PROCEDURE DIVISION");
    if contains(l, &id) {
        Some(owned("IDENTIFICATION DIVISION"))
    } else if contains(l, &env) {
        Some(owned("ENVIRONMENT DIVISION"))
    } else if contains(l, &data) {
        Some(owned("DATA DIVISION"))
    } else if contains(l, &proc) {
        Some(owned("PROCEDURE DIVISION"))
    } else {
        None
    }
}

/// The division headings of a document, one for each line that holds one
/// (see `line_symbols`).
pub fn document_symbols(doc: &Vec<char>) -> (r: Vec<DocumentSymbol>)
    requires
        text_fits(doc@),
    ensures
        r@.map_values(|d: DocumentSymbol| d@) == line_symbols(lines_of(doc@)),
{
    let lines = split_lines(doc);
    let ghost ls = lines_of(doc@);
    proof {
        lemma_lines_fit(doc@);
    }
    let mut symbols: Vec<DocumentSymbol> = Vec::new();
    let n = lines.len();
    let mut k: usize = 0;
    assert(ls.take(0) =~= Seq::<Seq<char>>::empty());
    assert(symbols@.map_values(|d: DocumentSymbol| d@) =~= Seq::<SymbolView>::empty());
    while k < n
        invariant
            n == lines@.len(),
            ls == char_vecs_view(lines@),
            byte_len(doc@) < usize::MAX,
            forall|q: int| 0 <= q < ls.len() ==> byte_len(#[trigger] ls[q]) <= byte_len(doc@),
            k <= n,
            symbols@.map_values(|d: DocumentSymbol| d@) == line_symbols(ls.take(k as int)),
        decreases n - k,
    {
        let l = &lines[k];
        assert(l@ == ls[k as int]);
        assert(ls.take(k + 1).drop_last() =~= ls.take(k as int));
        assert(ls.take(k + 1).last() == ls[k as int]);
        let ghost before = symbols@.map_values(|d: DocumentSymbol| d@);
        match heading_of(l) {
            Some(name) => {
                let length = byte_length(l);
                let sym = DocumentSymbol { name, line: k, length };
                symbols.push(sym);
                assert(symbols@.map_values(|d: DocumentSymbol| d@) =~= before.push(sym@));
            },
            None => {},
        }
        k = k + 1;
    }
    assert(ls.take(n as int) =~= ls);
    symbols
}

// ---------------------------------------------------------------------------
// The word at a position, and its occurrences
// ---------------------------------------------------------------------------

/// Whether a character is alphabetic or numeric, as std's
/// `char::is_alphanumeric` decides it from Unicode's tables.
pub uninterp spec fn alphanumeric(c: char) -> bool;

/// Calls std's `char::is_alphanumeric`. The contract names the result as a
/// function of the character alone; Unicode's tables decide it, and nothing
/// more is stated of it.
#[verifier::external_body]
fn is_alphanumeric(c: char) -> (b: bool)
    ensures
        b == alphanumeric(c),
{
    c.is_alphanumeric()
}

/// Whether a character can be part of a word under the cursor.
pub open spec fn is_name_char(c: char) -> bool {
    alphanumeric(c) || c == '_'
}

fn name_char(c: char) -> (b: bool)
    ensures
        b == is_name_char(c),
{
    is_alphanumeric(c) || c == '_'
}

/// Moves `start` left while the character just before it (counted in
/// characters) can be part of a word.
pub open spec fn word_left(l: Seq<char>, start: nat) -> nat
    decreases start,
{
    if start > 0 && start - 1 < l.len() && is_name_char(l[start - 1]) {
        word_left(l, (start - 1) as nat)
    } else {
        start
    }
}

/// Moves `end` right, up to `limit`, while the character at it (counted in
/// characters) can be part of a word.
pub open spec fn word_right(l: Seq<char>, end: nat, limit: nat) -> nat
    decreases limit - end,
{
    if end < limit && end < l.len() && is_name_char(l[end as int]) {
        word_right(l, end + 1, limit)
    } else {
        end
    }
}

/// Whether `b` bytes into the UTF-8 encoding of `l` is a character boundary.
pub open spec fn is_byte_boundary(l: Seq<char>, b: nat) -> bool {
    exists|k: int| 0 <= k <= l.len() && #[trigger] byte_len(l.take(k)) == b
}

/// The number of characters in the first `b` bytes of `l`, where `b` is a
/// character boundary.
pub open spec fn chars_before_byte(l: Seq<char>, b: nat) -> int {
    choose|k: int| 0 <= k <= l.len() && #[trigger] byte_len(l.take(k)) == b
}

/// The byte range of the word around `character` in a line: the cursor
/// moves left and right over characters that can be part of a word, where
/// the cursor's position is read as a character index, and the end stops at
/// the line's length in bytes.
pub open spec fn word_bounds(l: Seq<char>, character: nat) -> (nat, nat) {
    (word_left(l, character), word_right(l, character, byte_len(l)))
}

/// Whether the word's byte range can be cut from the line: both ends are
/// character boundaries. Cutting it elsewhere would panic.
pub open spec fn word_cut_ok(l: Seq<char>, character: nat) -> bool {
    is_byte_boundary(l, word_bounds(l, character).0) && is_byte_boundary(l, word_bounds(l, character).1)
}

/// The word around `character` in a line (see `word_bounds`).
pub open spec fn word_at(l: Seq<char>, character: nat) -> Seq<char> {
    l.subrange(
        chars_before_byte(l, word_bounds(l, character).0),
        chars_before_byte(l, word_bounds(l, character).1),
    )
}

/// The indices, from `i` on, at which `w` occurs in `r` without overlap,
/// leftmost first, as `str::match_indices` finds them (an empty `w` occurs
/// at every index up to the length).
pub open spec fn occurrences_from(r: Seq<char>, w: Seq<char>, i: nat) -> Seq<nat>
    decreases r.len() + 1 - i,
{
    if i > r.len() {
        Seq::empty()
    } else if w.len() == 0 {
        seq![i] + occurrences_from(r, w, i + 1)
    } else if occurs_at(r, w, i as int) {
        seq![i] + occurrences_from(r, w, i + w.len())
    } else {
        occurrences_from(r, w, i + 1)
    }
}

/// A range of a line, in bytes.
pub struct RangeView {
    pub line: nat,
    pub start: nat,
    pub end: nat,
}

/// The byte ranges of the occurrences of `w` in line `r`, numbered `ln`.
pub open spec fn ranges_in_line(r: Seq<char>, ln: nat, w: Seq<char>) -> Seq<RangeView> {
    occurrences_from(r, w, 0).map_values(
        |p: nat| RangeView { line: ln, start: byte_len(r.take(p as int)), end: byte_len(r.take(p as int)) + byte_len(w) },
    )
}

/// The byte ranges of the occurrences of `w` in each line, in line order.
pub open spec fn ranges_in_lines(ls: Seq<Seq<char>>, w: Seq<char>) -> Seq<RangeView>
    decreases ls.len(),
{
    if ls.len() == 0 {
        Seq::empty()
    } else {
        ranges_in_lines(ls.drop_last(), w) + ranges_in_line(ls.last(), (ls.len() - 1) as nat, w)
    }
}

/// The references of the word at a position of a document: every
/// occurrence of the word in every line, or none when the line or the
/// position is out of range.
pub open spec fn references_of(doc: Seq<char>, line: nat, character: nat) -> Seq<RangeView> {
    let ls = lines_of(doc);
    if line < ls.len() && character <= byte_len(ls[line as int]) {
        ranges_in_lines(ls, word_at(ls[line as int], character))
    } else {
        Seq::empty()
    }
}

/// Whether finding the word at a position of a document can cut it from its
/// line without a panic.
pub open spec fn position_cut_ok(doc: Seq<char>, line: nat, character: nat) -> bool {
    let ls = lines_of(doc);
    line < ls.len() && character <= byte_len(ls[line as int]) ==> word_cut_ok(ls[line as int], character)
}

/// A range of a line, in bytes (see `RangeView`).
#[derive(Debug, Clone, Copy, PartialEq, Eq)]
pub struct TextRange {
    pub line: usize,
    pub start: usize,
    pub end: usize,
}

impl View for TextRange {
    type V = RangeView;

    open spec fn view(&self) -> RangeView {
        RangeView { line: self.line as nat, start: self.start as nat, end: self.end as nat }
    }
}

/// The views of ranges.
pub open spec fn ranges_view(v: Seq<TextRange>) -> Seq<RangeView> {
    v.map_values(|r: TextRange| r@)
}

proof fn lemma_byte_len_strict(s: Seq<char>, i: int, j: int)
    requires
        0 <= i < j <= s.len(),
    ensures
        byte_len(s.take(i)) < byte_len(s.take(j)),
{
    lemma_byte_len_monotone(s, i, j);
}

/// The byte offsets of the character boundaries of `r`: entry `k` is the
/// length in bytes of the first `k` characters.
fn prefix_bytes(r: &Vec<char>) -> (t: Vec<usize>)
    requires
        byte_len(r@) < usize::MAX,
    ensures
        t@.len() == r@.len() + 1,
        forall|k: int| 0 <= k <= r@.len() ==> #[trigger] t@[k] == byte_len(r@.take(k)),
{
    let n = r.len();
    let mut t: Vec<usize> = Vec::new();
    t.push(0);
    assert(r@.take(0) =~= Seq::<char>::empty());
    let mut acc: usize = 0;
    let mut i: usize = 0;
    proof {
        lemma_byte_len_monotone(r@, 0, n as int);
        assert(r@.take(n as int) =~= r@);
    }
    while i < n
        invariant
            n == r@.len(),
            i <= n,
            t@.len() == i + 1,
            acc == byte_len(r@.take(i as int)),
            forall|k: int| 0 <= k <= i ==> #[trigger] t@[k] == byte_len(r@.take(k)),
            byte_len(r@.take(n as int)) < usize::MAX,
        decreases n - i,
    {
        proof {
            lemma_byte_len_prefix(r@, i as int);
            lemma_byte_len_monotone(r@, (i + 1) as int, n as int);
        }
        acc = acc + char_width(r[i]);
        i = i + 1;
        t.push(acc);
    }
    t
}

fn scan_left(l: &Vec<char>, character: usize) -> (s: usize)
    ensures
        s == word_left(l@, character as nat),
{
    let mut start = character;
    while start > 0 && start - 1 < l.len() && name_char(l[start - 1])
        invariant
            word_left(l@, character as nat) == word_left(l@, start as nat),
        decreases start,
    {
        start = start - 1;
    }
    start
}

fn scan_right(l: &Vec<char>, character: usize, limit: usize) -> (e: usize)
    ensures
        e == word_right(l@, character as nat, limit as nat),
{
    let mut end = character;
    while end < limit && end < l.len() && name_char(l[end])
        invariant
            word_right(l@, character as nat, limit as nat) == word_right(l@, end as nat, limit as nat),
        decreases limit - end,
    {
        end = end + 1;
    }
    end
}

fn char_index_of_byte(t: &Vec<usize>, l: &Vec<char>, b: usize) -> (k: usize)
    requires
        t@.len() == l@.len() + 1,
        forall|q: int| 0 <= q <= l@.len() ==> #[trigger] t@[q] == byte_len(l@.take(q)),
        is_byte_boundary(l@, b as nat),
    ensures
        k as int == chars_before_byte(l@, b as nat),
        k <= l@.len(),
{
    let ghost want = chars_before_byte(l@, b as nat);
    assert(0 <= want <= l@.len() && byte_len(l@.take(want)) == b);
    let n = t.len();
    let mut k: usize = 0;
    while k < n && t[k] != b
        invariant
            n == t@.len(),
            n == l@.len() + 1,
            k <= n,
            0 <= want <= l@.len(),
            byte_len(l@.take(want)) == b,
            forall|q: int| 0 <= q <= l@.len() ==> #[trigger] t@[q] == byte_len(l@.take(q)),
            forall|q: int| 0 <= q < k ==> t@[q] != b,
        decreases n - k,
    {
        k = k + 1;
    }
    if k >= n {
        assert(t@[want] == b);
        assert(false);
    }
    assert(t@[k as int] == b);
    proof {
        if (k as int) < want {
            lemma_byte_len_strict(l@, k as int, want);
        } else if (k as int) > want {
            lemma_byte_len_strict(l@, want, k as int);
        }
    }
    k
}

fn copy_range(l: &Vec<char>, from: usize, to: usize) -> (w: Vec<char>)
    requires
        from <= to <= l@.len(),
    ensures
        w@ == l@.subrange(from as int, to as int),
{
    let mut w: Vec<char> = Vec::new();
    let mut i = from;
    while i < to
        invariant
            from <= i <= to <= l@.len(),
            w@ == l@.subrange(from as int, i as int),
        decreases to - i,
    {
        w.push(l[i]);
        i = i + 1;
        assert(w@ =~= l@.subrange(from as int, i as int));
    }
    w
}

proof fn lemma_word_left_le(l: Seq<char>, start: nat)
    ensures
        word_left(l, start) <= start,
    decreases start,
{
    if start > 0 && start - 1 < l.len() && is_name_char(l[start - 1]) {
        lemma_word_left_le(l, (start - 1) as nat);
    }
}

proof fn lemma_word_right_ge(l: Seq<char>, end: nat, limit: nat)
    ensures
        end <= word_right(l, end, limit),
    decreases limit - end,
{
    if end < limit && end < l.len() && is_name_char(l[end as int]) {
        lemma_word_right_ge(l, end + 1, limit);
    }
}

/// The word around a byte position of a line (see `word_at`).
pub fn word_around(l: &Vec<char>, character: usize) -> (w: Vec<char>)
    requires
        byte_len(l@) < usize::MAX,
        word_cut_ok(l@, character as nat),
    ensures
        w@ == word_at(l@, character as nat),
{
    let limit = byte_length(l);
    let start = scan_left(l, character);
    let end = scan_right(l, character, limit);
    let t = prefix_bytes(l);
    let ks = char_index_of_byte(&t, l, start);
    let ke = char_index_of_byte(&t, l, end);
    proof {
        lemma_word_left_le(l@, character as nat);
        lemma_word_right_ge(l@, character as nat, limit as nat);
        if ks > ke {
            lemma_byte_len_strict(l@, ke as int, ks as int);
        }
    }
    copy_range(l, ks, ke)
}

pub proof fn lemma_occurrence_bytes(r: Seq<char>, w: Seq<char>, p: int)
    requires
        0 <= p <= r.len(),
        w.len() == 0 || occurs_at(r, w, p),
    ensures
        byte_len(r.take(p)) + byte_len(w) == byte_len(r.take(p + w.len())),
        byte_len(r.take(p + w.len())) <= byte_len(r),
{
    if w.len() == 0 {
        assert(encode_utf8(w) =~= Seq::<u8>::empty());
        assert(p + w.len() == p);
    } else {
        assert(r.take(p + w.len()) =~= r.take(p) + w);
        lemma_encode_concat(r.take(p), w);
    }
    lemma_byte_len_subrange(r, 0, p + w.len());
    assert(r.subrange(0, p + w.len()) =~= r.take(p + w.len()));
}

/// Appends to `out` the byte ranges of the occurrences of `w` in line `r`,
/// numbered `ln` (see `ranges_in_line`).
fn push_ranges_in_line(out: &mut Vec<TextRange>, r: &Vec<char>, ln: usize, w: &Vec<char>)
    requires
        byte_len(r@) < usize::MAX,
        byte_len(w@) < usize::MAX,
    ensures
        ranges_view(final(out)@) == ranges_view(old(out)@) + ranges_in_line(r@, ln as nat, w@),
{
    let n = r.len();
    let m = w.len();
    let t = prefix_bytes(r);
    let ghost f = |p: nat| RangeView { line: ln as nat, start: byte_len(r@.take(p as int)), end: byte_len(r@.take(p as int)) + byte_len(w@) };
    let ghost done: Seq<nat> = Seq::empty();
    proof {
        lemma_byte_len_monotone(r@, 0, n as int);
        assert(r@.take(n as int) =~= r@);
        assert(r@.take(0) =~= Seq::<char>::empty());
    }
    let wbytes = byte_length(w);
    let mut i: usize = 0;
    assert(ranges_view(out@) =~= ranges_view(old(out)@) + done.map_values(f));
    while i <= n
        invariant
            n == r@.len(),
            m == w@.len(),
            n < usize::MAX,
            i <= n + 1,
            t@.len() == n + 1,
            forall|k: int| 0 <= k <= n ==> #[trigger] t@[k] == byte_len(r@.take(k)),
            byte_len(r@) < usize::MAX,
            wbytes == byte_len(w@),
            occurrences_from(r@, w@, 0) == done + occurrences_from(r@, w@, i as nat),
            ranges_view(out@) == ranges_view(old(out)@) + done.map_values(f),
            f == (|p: nat| RangeView { line: ln as nat, start: byte_len(r@.take(p as int)), end: byte_len(r@.take(p as int)) + byte_len(w@) }),
        decreases n + 1 - i,
    {
        let hit = if m == 0 {
            true
        } else if m <= n - i {
            occurs_at_exec(r, w, i)
        } else {
            false
        };
        if hit {
            proof {
                lemma_occurrence_bytes(r@, w@, i as int);
                if m == 0 {
                    assert(encode_utf8(w@) =~= Seq::<u8>::empty());
                }
            }
            let start = t[i];
            let range = TextRange { line: ln, start, end: start + wbytes };
            let ghost before = ranges_view(out@);
            out.push(range);
            proof {
                assert(ranges_view(out@) =~= before.push(range@));
                assert(range@ == f(i as nat));
                assert((done + seq![i as nat]).map_values(f) =~= done.map_values(f).push(f(i as nat)));
                assert(done + occurrences_from(r@, w@, i as nat) =~= (done + seq![i as nat]) + occurrences_from(
                    r@,
                    w@,
                    (i + m) as nat + if m == 0 { 1nat } else { 0nat },
                ));
                done = done + seq![i as nat];
            }
            if m == 0 {
                i = i + 1;
            } else {
                i = i + m;
            }
        } else {
            i = i + 1;
        }
    }
    assert(occurrences_from(r@, w@, i as nat) =~= Seq::<nat>::empty());
    assert(done =~= occurrences_from(r@, w@, 0));
}

/// The byte ranges of the occurrences of `w` in each line, in line order
/// (see `ranges_in_lines`).
fn ranges_in_all_lines(lines: &Vec<Vec<char>>, w: &Vec<char>) -> (out: Vec<TextRange>)
    requires
        byte_len(w@) < usize::MAX,
        forall|k: int| 0 <= k < lines@.len() ==> byte_len(#[trigger] lines@[k]@) < usize::MAX,
    ensures
        ranges_view(out@) == ranges_in_lines(char_vecs_view(lines@), w@),
{
    let ghost ls = char_vecs_view(lines@);
    let n = lines.len();
    let mut out: Vec<TextRange> = Vec::new();
    let mut k: usize = 0;
    assert(ls.take(0) =~= Seq::<Seq<char>>::empty());
    assert(ranges_view(out@) =~= Seq::<RangeView>::empty());
    while k < n
        invariant
            n == lines@.len(),
            ls == char_vecs_view(lines@),
            k <= n,
            forall|q: int| 0 <= q < lines@.len() ==> byte_len(#[trigger] lines@[q]@) < usize::MAX,
            byte_len(w@) < usize::MAX,
            ranges_view(out@) == ranges_in_lines(ls.take(k as int), w@),
        decreases n - k,
    {
        assert(ls[k as int] == lines@[k as int]@);
        assert(ls.take(k + 1).drop_last() =~= ls.take(k as int));
        assert(ls.take(k + 1).last() == ls[k as int]);
        push_ranges_in_line(&mut out, &lines[k], k, w);
        k = k + 1;
    }
    assert(ls.take(n as int) =~= ls);
    out
}

/// The references of the word at a position of a document (see `references_of`).
pub fn references(doc: &Vec<char>, line: usize, character: usize) -> (out: Vec<TextRange>)
    requires
        text_fits(doc@),
        position_cut_ok(doc@, line as nat, character as nat),
    ensures
        ranges_view(out@) == references_of(doc@, line as nat, character as nat),
{
    let lines = split_lines(doc);
    proof {
        lemma_lines_fit(doc@);
        assert forall|k: int| 0 <= k < lines@.len() implies byte_len(#[trigger] lines@[k]@) < usize::MAX by {
            assert(lines@[k]@ == lines_of(doc@)[k]);
        }
    }
    if line < lines.len() {
        assert(lines@[line as int]@ == lines_of(doc@)[line as int]);
        if character <= byte_length(&lines[line]) {
            let word = word_around(&lines[line], character);
            proof {
                lemma_word_within(lines@[line as int]@, character as nat);
            }
            return ranges_in_all_lines(&lines, &word);
        }
    }
    let out: Vec<TextRange> = Vec::new();
    assert(ranges_view(out@) =~= Seq::<RangeView>::empty());
    out
}

proof fn lemma_word_within(l: Seq<char>, character: nat)
    requires
        word_cut_ok(l, character),
    ensures
        byte_len(word_at(l, character)) <= byte_len(l),
{
    let (b0, b1) = word_bounds(l, character);
    let k0 = chars_before_byte(l, b0);
    let k1 = chars_before_byte(l, b1);
    lemma_word_left_le(l, character);
    lemma_word_right_ge(l, character, byte_len(l));
    assert(0 <= k0 <= l.len() && byte_len(l.take(k0)) == b0);
    assert(0 <= k1 <= l.len() && byte_len(l.take(k1)) == b1);
    if k0 > k1 {
        lemma_byte_len_strict(l, k1, k0);
    }
    lemma_byte_len_subrange(l, k0, k1);
}

// ---------------------------------------------------------------------------
// Workspace symbols and completions
// ---------------------------------------------------------------------------

/// The lower-case form of a text, as std's `str::to_lowercase` maps it by
/// Unicode's case tables.
pub uninterp spec fn lowercase(s: Seq<char>) -> Seq<char>;

/// Calls std's `str::to_lowercase`. The contract names the result as a
/// function of the text alone; Unicode's case tables decide it, and nothing
/// more is stated of it.
#[verifier::external_body]
fn to_lowercase(s: &str) -> (r: String)
    ensures
        r@ == lowercase(s@),
{
    s.to_lowercase()
}

/// The symbols that a workspace search looks through: the division
/// headings and two operations, each with its symbol kind.
pub open spec fn predefined_symbols() -> Seq<(Seq<char>, nat)> {
    seq![
        ("IDENTIFICATION DIVISION"@, 11nat),
        ("ENVIRONMENT DIVISION"@, 11nat),
        ("DATA DIVISION"@, 11nat),
        ("PROCEDURE DIVISION"@, 11nat),
        ("COMPRESS"@, 12nat),
        ("VERIFY-INTEGRITY"@, 12nat),
    ]
}

/// The symbols, in order, whose lower-case name holds `query_lower`.
pub open spec fn matching_symbols(symbols: Seq<(Seq<char>, nat)>, query_lower: Seq<char>) -> Seq<(Seq<char>, nat)>
    decreases symbols.len(),
{
    if symbols.len() == 0 {
        Seq::empty()
    } else {
        let before = matching_symbols(symbols.drop_last(), query_lower);
        if contains_text(lowercase(symbols.last().0), query_lower) {
            before.push(symbols.last())
        } else {
            before
        }
    }
}

/// A symbol found by a workspace search: its name and kind.
#[derive(Debug, Clone, PartialEq)]
pub struct WorkspaceSymbol {
    pub name: String,
    pub kind: usize,
}

/// The views of workspace symbols.
pub open spec fn workspace_symbols_view(v: Seq<WorkspaceSymbol>) -> Seq<(Seq<char>, nat)> {
    v.map_values(|w: WorkspaceSymbol| (w.name@, w.kind as nat))
}

fn consider_symbol(out: &mut Vec<WorkspaceSymbol>, name: &str, kind: usize, query_lower: &Vec<char>)
    ensures
        workspace_symbols_view(final(out)@) == workspace_symbols_view(old(out)@) + if contains_text(
            lowercase(name@),
            query_lower@,
        ) {
            seq![(name@, kind as nat)]
        } else {
            Seq::empty()
        },
{
    let lower = to_lowercase(name);
    let ghost before = workspace_symbols_view(out@);
    if contains(&chars_of(lower.as_str()), query_lower) {
        let sym = WorkspaceSymbol { name: owned(name), kind };
        out.push(sym);
        assert(workspace_symbols_view(out@) =~= before + seq![(name@, kind as nat)]);
    } else {
        assert(workspace_symbols_view(out@) =~= before + Seq::<(Seq<char>, nat)>::empty());
    }
}

/// The predefined symbols whose lower-case name holds the lower-case query
/// (see `matching_symbols`).
pub fn workspace_symbols(query: &str) -> (out: Vec<WorkspaceSymbol>)
    ensures
        workspace_symbols_view(out@) == matching_symbols(predefined_symbols(), lowercase(query@)),
{
    let q = to_lowercase(query);
    let ql = chars_of(q.as_str());
    let mut out: Vec<WorkspaceSymbol> = Vec::new();
    let ghost ps = predefined_symbols();
    let ghost ql_v = ql@;
    assert(workspace_symbols_view(out@) =~= Seq::<(Seq<char>, nat)>::empty());
    proof {
        assert(ps.take(0) =~= Seq::<(Seq<char>, nat)>::empty());
        assert(matching_symbols(ps.take(0), ql_v) =~= Seq::<(Seq<char>, nat)>::empty());
    }
    consider_symbol(&mut out, "IDENTIFICATION DIVISION", 11, &ql);
    proof {
        assert(ps.take(1).drop_last() =~= ps.take(0));
        assert(ps.take(1).last() == ("IDENTIFICATION DIVISION"@, 11nat));
        assert(workspace_symbols_view(out@) =~= matching_symbols(ps.take(1), ql_v));
    }
    consider_symbol(&mut out, "ENVIRONMENT DIVISION", 11, &ql);
    proof {
        assert(ps.take(2).drop_last() =~= ps.take(1));
        assert(ps.take(2).last() == ("ENVIRONMENT DIVISION"@, 11nat));
        assert(workspace_symbols_view(out@) =~= matching_symbols(ps.take(2), ql_v));
    }
    consider_symbol(&mut out, "DATA DIVISION", 11, &ql);
    proof {
        assert(ps.take(3).drop_last() =~= ps.take(2));
        assert(ps.take(3).last() == ("DATA DIVISION"@, 11nat));
        assert(workspace_symbols_view(out@) =~= matching_symbols(ps.take(3), ql_v));
    }
    consider_symbol(&mut out, "PROCEDURE DIVISION", 11, &ql);
    proof {
        assert(ps.take(4).drop_last() =~= ps.take(3));
        assert(ps.take(4).last() == ("PROCEDURE DIVISION"@, 11nat));
        assert(workspace_symbols_view(out@) =~= matching_symbols(ps.take(4), ql_v));
    }
    consider_symbol(&mut out, "COMPRESS", 12, &ql);
    proof {
        assert(ps.take(5).drop_last() =~= ps.take(4));
        assert(ps.take(5).last() == ("COMPRESS"@, 12nat));
        assert(workspace_symbols_view(out@) =~= matching_symbols(ps.take(5), ql_v));
    }
    consider_symbol(&mut out, "VERIFY-INTEGRITY", 12, &ql);
    proof {
        assert(ps.take(6).drop_last() =~= ps.take(5));
        assert(ps.take(6).last() == ("VERIFY-INTEGRITY"@, 12nat));
        assert(workspace_symbols_view(out@) =~= matching_symbols(ps.take(6), ql_v));
    }
    assert(ps.take(6) =~= ps);
    out
}

/// A completion offered to the client.
#[derive(Debug, Clone, PartialEq)]
pub struct CompletionItem {
    pub label: String,
    pub kind: usize,
    pub detail: String,
    pub documentation: String,
}

/// The completions offered at any position: the four division headings and
/// two operations, each with its kind, a detail and a documentation line.
pub open spec fn completion_list() -> Seq<(Seq<char>, nat, Seq<char>, Seq<char>)> {
    seq![
        ("IDENTIFICATION DIVISION"@, 14nat, "Required first division"@, "Declares the program name and structure"@),
        ("ENVIRONMENT DIVISION"@, 14nat, "Required second division"@, "Configures program environment and OS details"@),
        ("DATA DIVISION"@, 14nat, "Required third division"@, "Declares data structures and variables"@),
        ("PROCEDURE DIVISION"@, 14nat, "Required fourth division"@, "Contains program logic and operations"@),
        ("COMPRESS"@, 6nat, "Operation"@, "Compress data using configured protocol"@),
        ("VERIFY-INTEGRITY"@, 6nat, "Operation"@, "Verify data integrity with SHA-256"@),
    ]
}

/// The views of completions.
pub open spec fn completions_view(v: Seq<CompletionItem>) -> Seq<(Seq<char>, nat, Seq<char>, Seq<char>)> {
    v.map_values(|c: CompletionItem| (c.label@, c.kind as nat, c.detail@, c.documentation@))
}

fn completion(label: &str, kind: usize, detail: &str, documentation: &str) -> (c: CompletionItem)
    ensures
        (c.label@, c.kind as nat, c.detail@, c.documentation@) == (label@, kind as nat, detail@, documentation@),
{
    CompletionItem { label: owned(label), kind, detail: owned(detail), documentation: owned(documentation) }
}

/// The completions offered at any position (see `completion_list`).
pub fn completions() -> (v: Vec<CompletionItem>)
    ensures
        completions_view(v@) == completion_list(),
{
    let v = vec![
        completion("IDENTIFICATION DIVISION", 14, "Required first division", "Declares the program name and structure"),
        completion("ENVIRONMENT DIVISION", 14, "Required second division", "Configures program environment and OS details"),
        completion("DATA DIVISION", 14, "Required third division", "Declares data structures and variables"),
        completion("PROCEDURE DIVISION", 14, "Required fourth division", "Contains program logic and operations"),
        completion("COMPRESS", 6, "Operation", "Compress data using configured protocol"),
        completion("VERIFY-INTEGRITY", 6, "Operation", "Verify data integrity with SHA-256"),
    ];
    assert(completions_view(v@) =~= completion_list());
    v
}

// ---------------------------------------------------------------------------
// Requests
// ---------------------------------------------------------------------------

/// What the request handlers read from a request's parameters: the
/// document's URI and text, the cursor's line and character, the new name
/// of a rename, the query of a workspace search, and the text of each
/// content change. A field is `None` where the parameter is absent or not
/// of the expected kind.
#[derive(Debug, Clone)]
pub struct RequestParams {
    pub uri: Option<String>,
    pub text: Option<String>,
    pub line: Option<usize>,
    pub character: Option<usize>,
    pub new_name: Option<String>,
    pub query: Option<String>,
    pub content_changes: Option<Vec<Option<String>>>,
}

/// The view of request parameters.
pub struct ParamsView {
    pub uri: Option<Seq<char>>,
    pub text: Option<Seq<char>>,
    pub line: Option<nat>,
    pub character: Option<nat>,
    pub new_name: Option<Seq<char>>,
    pub query: Option<Seq<char>>,
    pub content_changes: Option<Seq<Option<Seq<char>>>>,
}

/// The view of an optional position.
pub open spec fn opt_nat(o: Option<usize>) -> Option<nat> {
    match o {
        Some(n) => Some(n as nat),
        None => None,
    }
}

impl View for RequestParams {
    type V = ParamsView;

    open spec fn view(&self) -> ParamsView {
        ParamsView {
            uri: crate::ast::opt_view(self.uri),
            text: crate::ast::opt_view(self.text),
            line: opt_nat(self.line),
            character: opt_nat(self.character),
            new_name: crate::ast::opt_view(self.new_name),
            query: crate::ast::opt_view(self.query),
            content_changes: match self.content_changes {
                Some(cs) => Some(cs@.map_values(|c: Option<String>| crate::ast::opt_view(c))),
                None => None,
            },
        }
    }
}

/// The view of optional request parameters.
pub open spec fn params_view(p: Option<RequestParams>) -> Option<ParamsView> {
    match p {
        Some(q) => Some(q@),
        None => None,
    }
}

/// The answer to a request.
#[derive(Debug, Clone)]
pub enum Reply {
    /// The server's capabilities, answering `initialize`.
    Capabilities,
    /// An empty object.
    Empty,
    Hover(String),
    Completions(Vec<CompletionItem>),
    Definition { uri: String, line: usize, character: usize },
    DocumentSymbols { uri: String, symbols: Vec<DocumentSymbol> },
    References { uri: String, ranges: Vec<TextRange> },
    Rename { uri: String, new_name: String, ranges: Vec<TextRange> },
    /// A rename whose position is out of range: no changes at all.
    RenameNoChanges,
    WorkspaceSymbols(Vec<WorkspaceSymbol>),
    /// `null`, answering `shutdown`.
    Null,
}

/// The view of an answer.
pub enum ReplyView {
    Capabilities,
    Empty,
    Hover(Seq<char>),
    Completions(Seq<(Seq<char>, nat, Seq<char>, Seq<char>)>),
    Definition { uri: Seq<char>, line: nat, character: nat },
    DocumentSymbols { uri: Seq<char>, symbols: Seq<SymbolView> },
    References { uri: Seq<char>, ranges: Seq<RangeView> },
    Rename { uri: Seq<char>, new_name: Seq<char>, ranges: Seq<RangeView> },
    RenameNoChanges,
    WorkspaceSymbols(Seq<(Seq<char>, nat)>),
    Null,
}

impl View for Reply {
    type V = ReplyView;

    open spec fn view(&self) -> ReplyView {
        match self {
            Reply::Capabilities => ReplyView::Capabilities,
            Reply::Empty => ReplyView::Empty,
            Reply::Hover(t) => ReplyView::Hover(t@),
            Reply::Completions(v) => ReplyView::Completions(completions_view(v@)),
            Reply::Definition { uri, line, character } => ReplyView::Definition {
                uri: uri@,
                line: *line as nat,
                character: *character as nat,
            },
            Reply::DocumentSymbols { uri, symbols } => ReplyView::DocumentSymbols {
                uri: uri@,
                symbols: symbols@.map_values(|d: DocumentSymbol| d@),
            },
            Reply::References { uri, ranges } => ReplyView::References { uri: uri@, ranges: ranges_view(ranges@) },
            Reply::Rename { uri, new_name, ranges } => ReplyView::Rename {
                uri: uri@,
                new_name: new_name@,
                ranges: ranges_view(ranges@),
            },
            Reply::RenameNoChanges => ReplyView::RenameNoChanges,
            Reply::WorkspaceSymbols(v) => ReplyView::WorkspaceSymbols(workspace_symbols_view(v@)),
            Reply::Null => ReplyView::Null,
        }
    }
}

/// Diagnostics to publish for a document: its URI and the messages.
#[derive(Debug, Clone, PartialEq)]
pub struct Publication {
    pub uri: String,
    pub diagnostics: Vec<String>,
}

/// What handling a request gives: the answer or the handler's error, and
/// the diagnostics to publish before answering, if any.
#[derive(Debug)]
pub struct Handled {
    pub result: Result<Reply, String>,
    pub publish: Option<Publication>,
}

/// The mathematical outcome of a request: the answer or the error, the
/// open documents afterwards, and the diagnostics to publish.
pub struct Outcome {
    pub result: Result<ReplyView, Seq<char>>,
    pub documents: Map<Seq<char>, Seq<char>>,
    pub publish: Option<(Seq<char>, Seq<Seq<char>>)>,
}

/// The messages that compiling a document gives: none when it compiles,
/// else the compiler's error.
pub open spec fn diagnostics_of(text: Seq<char>) -> Seq<Seq<char>> {
    match crate::ir::compile_source(text) {
        Ok(_) => Seq::empty(),
        Err(e) => seq![e],
    }
}

/// The document URI of a request, or the error for its absence.
pub open spec fn uri_of(p: Option<ParamsView>) -> Result<Seq<char>, Seq<char>> {
    match p {
        None => Err("Missing params"@),
        Some(q) => match q.uri {
            None => Err("Missing uri"@),
            Some(u) => Ok(u),
        },
    }
}

/// An outcome that leaves the documents unchanged and publishes nothing.
pub open spec fn answer(docs: Map<Seq<char>, Seq<char>>, result: Result<ReplyView, Seq<char>>) -> Outcome {
    Outcome { result, documents: docs, publish: None }
}

/// An outcome that stores a document's new text and publishes its diagnostics.
pub open spec fn store(docs: Map<Seq<char>, Seq<char>>, uri: Seq<char>, text: Seq<char>) -> Outcome {
    Outcome {
        result: Ok(ReplyView::Empty),
        documents: docs.insert(uri, text),
        publish: Some((uri, diagnostics_of(text))),
    }
}

/// `textDocument/didOpen`: stores the opened document.
pub open spec fn did_open_outcome(docs: Map<Seq<char>, Seq<char>>, p: Option<ParamsView>) -> Outcome {
    match uri_of(p) {
        Err(e) => answer(docs, Err(e)),
        Ok(u) => match p->Some_0.text {
            None => answer(docs, Err("Missing text"@)),
            Some(t) => store(docs, u, t),
        },
    }
}

/// `textDocument/didChange`: stores the text of the last content change;
/// no change at all leaves the document as it was.
pub open spec fn did_change_outcome(docs: Map<Seq<char>, Seq<char>>, p: Option<ParamsView>) -> Outcome {
    match uri_of(p) {
        Err(e) => answer(docs, Err(e)),
        Ok(u) => match p->Some_0.content_changes {
            None => answer(docs, Err("Missing contentChanges"@)),
            Some(cs) => if cs.len() == 0 {
                answer(docs, Ok(ReplyView::Empty))
            } else {
                match cs.last() {
                    None => answer(docs, Err("Missing new text"@)),
                    Some(t) => store(docs, u, t),
                }
            },
        },
    }
}

/// `textDocument/didClose`: forgets the document.
pub open spec fn did_close_outcome(docs: Map<Seq<char>, Seq<char>>, p: Option<ParamsView>) -> Outcome {
    match uri_of(p) {
        Err(e) => answer(docs, Err(e)),
        Ok(u) => Outcome { result: Ok(ReplyView::Empty), documents: docs.remove(u), publish: None },
    }
}

/// `textDocument/hover`: the hover text at the position.
pub open spec fn hover_outcome(docs: Map<Seq<char>, Seq<char>>, p: Option<ParamsView>) -> Outcome {
    match uri_of(p) {
        Err(e) => answer(docs, Err(e)),
        Ok(u) => if !docs.contains_key(u) {
            answer(docs, Err("Document not found"@))
        } else {
            match p->Some_0.line {
                None => answer(docs, Err("Missing line"@)),
                Some(l) => match p->Some_0.character {
                    None => answer(docs, Err("Missing character"@)),
                    Some(c) => answer(docs, Ok(ReplyView::Hover(hover_text(docs[u], l, c)))),
                },
            }
        },
    }
}

/// `textDocument/completion`: the fixed completions.
pub open spec fn completion_outcome(docs: Map<Seq<char>, Seq<char>>, p: Option<ParamsView>) -> Outcome {
    match uri_of(p) {
        Err(e) => answer(docs, Err(e)),
        Ok(u) => answer(docs, Ok(ReplyView::Completions(completion_list()))),
    }
}

/// `textDocument/definition`: the position itself.
pub open spec fn definition_outcome(docs: Map<Seq<char>, Seq<char>>, p: Option<ParamsView>) -> Outcome {
    match uri_of(p) {
        Err(e) => answer(docs, Err(e)),
        Ok(u) => match p->Some_0.line {
            None => answer(docs, Err("Missing line"@)),
            Some(l) => match p->Some_0.character {
                None => answer(docs, Err("Missing character"@)),
                Some(c) => answer(docs, Ok(ReplyView::Definition { uri: u, line: l, character: c })),
            },
        },
    }
}

/// `textDocument/documentSymbol`: the division headings of the document.
pub open spec fn document_symbol_outcome(docs: Map<Seq<char>, Seq<char>>, p: Option<ParamsView>) -> Outcome {
    match uri_of(p) {
        Err(e) => answer(docs, Err(e)),
        Ok(u) => if !docs.contains_key(u) {
            answer(docs, Err("Document not found"@))
        } else {
            answer(docs, Ok(ReplyView::DocumentSymbols { uri: u, symbols: line_symbols(lines_of(docs[u])) }))
        },
    }
}

/// `textDocument/references`: the occurrences of the word at the position.
pub open spec fn references_outcome(docs: Map<Seq<char>, Seq<char>>, p: Option<ParamsView>) -> Outcome {
    match uri_of(p) {
        Err(e) => answer(docs, Err(e)),
        Ok(u) => match p->Some_0.line {
            None => answer(docs, Err("Missing line"@)),
            Some(l) => match p->Some_0.character {
                None => answer(docs, Err("Missing character"@)),
                Some(c) => if !docs.contains_key(u) {
                    answer(docs, Err("Document not found"@))
                } else {
                    answer(docs, Ok(ReplyView::References { uri: u, ranges: references_of(docs[u], l, c) }))
                },
            },
        },
    }
}

/// The answer to a rename in a document: no changes when the line or the
/// position is out of range, else an edit at each occurrence of the word at
/// the position.
pub open spec fn rename_reply(doc: Seq<char>, u: Seq<char>, new_name: Seq<char>, l: nat, c: nat) -> ReplyView {
    let ls = lines_of(doc);
    if l >= ls.len() || c > byte_len(ls[l as int]) {
        ReplyView::RenameNoChanges
    } else {
        ReplyView::Rename { uri: u, new_name, ranges: ranges_in_lines(ls, word_at(ls[l as int], c)) }
    }
}

/// `textDocument/rename`: see `rename_reply`.
pub open spec fn rename_outcome(docs: Map<Seq<char>, Seq<char>>, p: Option<ParamsView>) -> Outcome {
    match uri_of(p) {
        Err(e) => answer(docs, Err(e)),
        Ok(u) => match p->Some_0.new_name {
            None => answer(docs, Err("Missing newName"@)),
            Some(n) => match p->Some_0.line {
                None => answer(docs, Err("Missing line"@)),
                Some(l) => match p->Some_0.character {
                    None => answer(docs, Err("Missing character"@)),
                    Some(c) => if !docs.contains_key(u) {
                        answer(docs, Err("Document not found"@))
                    } else {
                        answer(docs, Ok(rename_reply(docs[u], u, n, l, c)))
                    },
                },
            },
        },
    }
}

/// `workspace/symbol`: the predefined symbols that match the query.
pub open spec fn workspace_symbol_outcome(docs: Map<Seq<char>, Seq<char>>, p: Option<ParamsView>) -> Outcome {
    match p {
        None => answer(docs, Err("Missing params"@)),
        Some(q) => match q.query {
            None => answer(docs, Err("Missing query"@)),
            Some(query) => answer(
                docs,
                Ok(ReplyView::WorkspaceSymbols(matching_symbols(predefined_symbols(), lowercase(query)))),
            ),
        },
    }
}

/// The outcome of a request by its method; an unknown method is an error.
pub open spec fn request_outcome(docs: Map<Seq<char>, Seq<char>>, method: Seq<char>, p: Option<ParamsView>) -> Outcome {
    if method == "initialize"@ {
        answer(docs, Ok(ReplyView::Capabilities))
    } else if method == "textDocument/didOpen"@ {
        did_open_outcome(docs, p)
    } else if method == "textDocument/didChange"@ {
        did_change_outcome(docs, p)
    } else if method == "textDocument/didClose"@ {
        did_close_outcome(docs, p)
    } else if method == "textDocument/hover"@ {
        hover_outcome(docs, p)
    } else if method == "textDocument/completion"@ {
        completion_outcome(docs, p)
    } else if method == "textDocument/definition"@ {
        definition_outcome(docs, p)
    } else if method == "textDocument/references"@ {
        references_outcome(docs, p)
    } else if method == "textDocument/rename"@ {
        rename_outcome(docs, p)
    } else if method == "textDocument/documentSymbol"@ {
        document_symbol_outcome(docs, p)
    } else if method == "workspace/symbol"@ {
        workspace_symbol_outcome(docs, p)
    } else if method == "shutdown"@ {
        answer(docs, Ok(ReplyView::Null))
    } else {
        answer(docs, Err("Unknown method: "@ + method))
    }
}

/// Whether the text that a request would store is short enough to measure.
pub open spec fn stored_text_fits(method: Seq<char>, p: Option<ParamsView>) -> bool {
    &&& method == "textDocument/didOpen"@ ==> (p matches Some(q) ==> (q.text matches Some(t) ==> text_fits(t)))
    &&& method == "textDocument/didChange"@ ==> (p matches Some(q) ==> (q.content_changes matches Some(cs) ==> (
        cs.len() > 0 ==> (cs.last() matches Some(t) ==> text_fits(t)))))
}

/// Whether a references or rename request can cut the word at its position
/// from its line; where it cannot, the word's ends fall inside a character
/// and cutting there would panic.
pub open spec fn request_cut_ok(docs: Map<Seq<char>, Seq<char>>, method: Seq<char>, p: Option<ParamsView>) -> bool {
    (method == "textDocument/references"@ || (method == "textDocument/rename"@ && (p matches Some(q)
        && q.new_name is Some))) ==> (uri_of(p) matches Ok(u) ==> (docs.contains_key(u) ==> (
        p->Some_0.line matches Some(l) ==> (p->Some_0.character matches Some(c) ==> position_cut_ok(
            docs[u],
            l,
            c,
        )))))
}

/// The view of the optional publication.
pub open spec fn publication_view(p: Option<Publication>) -> Option<(Seq<char>, Seq<Seq<char>>)> {
    match p {
        Some(q) => Some((q.uri@, crate::ast::strings_view(q.diagnostics@))),
        None => None,
    }
}

/// The view of a handler's result.
pub open spec fn result_view(r: Result<Reply, String>) -> Result<ReplyView, Seq<char>> {
    match r {
        Ok(x) => Ok(x@),
        Err(e) => Err(e@),
    }
}

// ---------------------------------------------------------------------------
// The handler
// ---------------------------------------------------------------------------

/// The language server's request handler, with the open documents.
pub struct MessageHandler {
    documents: Vec<(String, String)>,
}

impl View for MessageHandler {
    type V = Map<Seq<char>, Seq<char>>;

    /// The open documents, from URI to text.
    closed spec fn view(&self) -> Map<Seq<char>, Seq<char>> {
        pairs_map(pairs_view(self.documents@))
    }
}

fn uri_param(p: &Option<RequestParams>) -> (r: Result<String, String>)
    ensures
        match uri_of(params_view(*p)) {
            Ok(u) => r is Ok && r->Ok_0@ == u,
            Err(e) => r is Err && r->Err_0@ == e,
        },
{
    match p {
        None => Err(owned("Missing params")),
        Some(q) => match &q.uri {
            None => Err(owned("Missing uri")),
            Some(u) => Ok(u.clone()),
        },
    }
}

impl Default for MessageHandler {
    /// A handler with no open documents, as `new` makes it.
    fn default() -> (h: MessageHandler)
        ensures
            h@ == Map::<Seq<char>, Seq<char>>::empty(),
    {
        MessageHandler::new()
    }
}

/// The messages that compiling a document gives (see `diagnostics_of`).
pub fn diagnostics(text: &String) -> (d: Vec<String>)
    requires
        text@.len() < usize::MAX,
    ensures
        crate::ast::strings_view(d@) == diagnostics_of(text@),
{
    let mut d: Vec<String> = Vec::new();
    match crate::ir::compile(text.as_str()) {
        Ok(_) => {},
        Err(e) => {
            d.push(e);
        },
    }
    assert(crate::ast::strings_view(d@) =~= diagnostics_of(text@));
    d
}

impl MessageHandler {
    #[verifier::type_invariant]
    closed spec fn documents_wf(&self) -> bool {
        &&& keys_distinct(pairs_view(self.documents@))
        &&& keys_sorted(pairs_view(self.documents@))
        &&& forall|k: Seq<char>| #[trigger] self@.contains_key(k) ==> text_fits(self@[k])
    }

    /// A handler with no open documents.
    pub fn new() -> (h: MessageHandler)
        ensures
            h@ == Map::<Seq<char>, Seq<char>>::empty(),
    {
        let h = MessageHandler { documents: Vec::new() };
        assert(h@ =~= Map::<Seq<char>, Seq<char>>::empty());
        h
    }

    /// The text of the open document with this URI, if there is one.
    pub fn get_document(&self, uri: &str) -> (r: Option<String>)
        ensures
            crate::ast::opt_view(r) == (if self@.contains_key(uri@) {
                Some(self@[uri@])
            } else {
                None
            }),
    {
        proof {
            use_type_invariant(self);
        }
        match find_pair(&self.documents, uri) {
            Some(i) => Some(self.documents[i].1.clone()),
            None => None,
        }
    }

    /// Opens or replaces the document with this URI.
    pub fn set_document(&mut self, uri: String, text: String)
        requires
            text_fits(text@),
        ensures
            final(self)@ == old(self)@.insert(uri@, text@),
    {
        proof {
            use_type_invariant(&*self);
        }
        let ghost old_map = self@;
        let mut docs: Vec<(String, String)> = Vec::new();
        std::mem::swap(&mut docs, &mut self.documents);
        insert_pair(&mut docs, uri, text);
        assert forall|k: Seq<char>| #[trigger] pairs_map(pairs_view(docs@)).contains_key(k) implies text_fits(
            pairs_map(pairs_view(docs@))[k],
        ) by {
            if k != uri@ {
                assert(old_map.contains_key(k));
            }
        }
        self.documents = docs;
    }

    /// Closes the document with this URI, if it is open.
    pub fn remove_document(&mut self, uri: &str)
        ensures
            final(self)@ == old(self)@.remove(uri@),
    {
        proof {
            use_type_invariant(&*self);
        }
        let ghost old_map = self@;
        let mut docs: Vec<(String, String)> = Vec::new();
        std::mem::swap(&mut docs, &mut self.documents);
        remove_pair(&mut docs, uri);
        assert forall|k: Seq<char>| #[trigger] pairs_map(pairs_view(docs@)).contains_key(k) implies text_fits(
            pairs_map(pairs_view(docs@))[k],
        ) by {
            assert(old_map.contains_key(k));
        }
        self.documents = docs;
    }
}

/// Whether what a handler gave is the outcome's answer and publication.
pub open spec fn handled_as(h: Handled, o: Outcome) -> bool {
    &&& result_view(h.result) == o.result
    &&& publication_view(h.publish) == o.publish
}

fn fail(e: String) -> (h: Handled)
    ensures
        result_view(h.result) == Err::<ReplyView, Seq<char>>(e@),
        h.publish is None,
{
    Handled { result: Err(e), publish: None }
}

fn fail_with(e: &str) -> (h: Handled)
    ensures
        result_view(h.result) == Err::<ReplyView, Seq<char>>(e@),
        h.publish is None,
{
    fail(owned(e))
}

fn reply(r: Reply) -> (h: Handled)
    ensures
        result_view(h.result) == Ok::<ReplyView, Seq<char>>(r@),
        h.publish is None,
{
    Handled { result: Ok(r), publish: None }
}

impl MessageHandler {
    /// The text of an open document, shown to fit.
    fn document_chars(&self, uri: &String) -> (r: Option<Vec<char>>)
        ensures
            match r {
                Some(v) => self@.contains_key(uri@) && v@ == self@[uri@] && text_fits(v@),
                None => !self@.contains_key(uri@),
            },
    {
        proof {
            use_type_invariant(self);
        }
        match self.get_document(uri.as_str()) {
            Some(d) => Some(chars_of(d.as_str())),
            None => None,
        }
    }

    fn store_text(&mut self, uri: String, text: String) -> (h: Handled)
        requires
            text_fits(text@),
        ensures
            handled_as(h, store(old(self)@, uri@, text@)),
            final(self)@ == store(old(self)@, uri@, text@).documents,
    {
        let d = diagnostics(&text);
        let publish_uri = uri.clone();
        self.set_document(uri, text);
        Handled { result: Ok(Reply::Empty), publish: Some(Publication { uri: publish_uri, diagnostics: d }) }
    }

    fn did_open(&mut self, p: &Option<RequestParams>) -> (h: Handled)
        requires
            stored_text_fits("textDocument/didOpen"@, params_view(*p)),
        ensures
            handled_as(h, did_open_outcome(old(self)@, params_view(*p))),
            final(self)@ == did_open_outcome(old(self)@, params_view(*p)).documents,
    {
        let uri = match uri_param(p) {
            Ok(u) => u,
            Err(e) => return fail(e),
        };
        match p {
            None => fail_with("Missing params"),
            Some(q) => match &q.text {
                None => fail_with("Missing text"),
                Some(t) => self.store_text(uri, t.clone()),
            },
        }
    }

    fn did_change(&mut self, p: &Option<RequestParams>) -> (h: Handled)
        requires
            stored_text_fits("textDocument/didChange"@, params_view(*p)),
        ensures
            handled_as(h, did_change_outcome(old(self)@, params_view(*p))),
            final(self)@ == did_change_outcome(old(self)@, params_view(*p)).documents,
    {
        let uri = match uri_param(p) {
            Ok(u) => u,
            Err(e) => return fail(e),
        };
        match p {
            None => fail_with("Missing params"),
            Some(q) => match &q.content_changes {
                None => fail_with("Missing contentChanges"),
                Some(cs) => {
                    let n = cs.len();
                    if n == 0 {
                        return reply(Reply::Empty);
                    }
                    let ghost csv = cs@.map_values(|c: Option<String>| crate::ast::opt_view(c));
                    assert(csv.last() == crate::ast::opt_view(cs@[n - 1]));
                    match &cs[n - 1] {
                        None => fail_with("Missing new text"),
                        Some(t) => self.store_text(uri, t.clone()),
                    }
                },
            },
        }
    }

    fn did_close(&mut self, p: &Option<RequestParams>) -> (h: Handled)
        ensures
            handled_as(h, did_close_outcome(old(self)@, params_view(*p))),
            final(self)@ == did_close_outcome(old(self)@, params_view(*p)).documents,
    {
        let uri = match uri_param(p) {
            Ok(u) => u,
            Err(e) => return fail(e),
        };
        self.remove_document(uri.as_str());
        reply(Reply::Empty)
    }

    fn hover_request(&self, p: &Option<RequestParams>) -> (h: Handled)
        ensures
            handled_as(h, hover_outcome(self@, params_view(*p))),
    {
        let uri = match uri_param(p) {
            Ok(u) => u,
            Err(e) => return fail(e),
        };
        let doc = match self.document_chars(&uri) {
            Some(d) => d,
            None => return fail_with("Document not found"),
        };
        match p {
            None => fail_with("Missing params"),
            Some(q) => match q.line {
                None => fail_with("Missing line"),
                Some(line) => match q.character {
                    None => fail_with("Missing character"),
                    Some(character) => reply(Reply::Hover(hover(&doc, line, character))),
                },
            },
        }
    }

    fn completion_request(&self, p: &Option<RequestParams>) -> (h: Handled)
        ensures
            handled_as(h, completion_outcome(self@, params_view(*p))),
    {
        match uri_param(p) {
            Ok(_) => reply(Reply::Completions(completions())),
            Err(e) => fail(e),
        }
    }

    fn definition_request(&self, p: &Option<RequestParams>) -> (h: Handled)
        ensures
            handled_as(h, definition_outcome(self@, params_view(*p))),
    {
        let uri = match uri_param(p) {
            Ok(u) => u,
            Err(e) => return fail(e),
        };
        match p {
            None => fail_with("Missing params"),
            Some(q) => match q.line {
                None => fail_with("Missing line"),
                Some(line) => match q.character {
                    None => fail_with("Missing character"),
                    Some(character) => reply(Reply::Definition { uri, line, character }),
                },
            },
        }
    }

    fn document_symbol_request(&self, p: &Option<RequestParams>) -> (h: Handled)
        ensures
            handled_as(h, document_symbol_outcome(self@, params_view(*p))),
    {
        let uri = match uri_param(p) {
            Ok(u) => u,
            Err(e) => return fail(e),
        };
        let doc = match self.document_chars(&uri) {
            Some(d) => d,
            None => return fail_with("Document not found"),
        };
        let symbols = document_symbols(&doc);
        reply(Reply::DocumentSymbols { uri, symbols })
    }

    fn references_request(&self, p: &Option<RequestParams>) -> (h: Handled)
        requires
            request_cut_ok(self@, "textDocument/references"@, params_view(*p)),
        ensures
            handled_as(h, references_outcome(self@, params_view(*p))),
    {
        let uri = match uri_param(p) {
            Ok(u) => u,
            Err(e) => return fail(e),
        };
        match p {
            None => fail_with("Missing params"),
            Some(q) => match q.line {
                None => fail_with("Missing line"),
                Some(line) => match q.character {
                    None => fail_with("Missing character"),
                    Some(character) => {
                        let doc = match self.document_chars(&uri) {
                            Some(d) => d,
                            None => return fail_with("Document not found"),
                        };
                        let ranges = references(&doc, line, character);
                        reply(Reply::References { uri, ranges })
                    },
                },
            },
        }
    }

    fn rename_request(&self, p: &Option<RequestParams>) -> (h: Handled)
        requires
            request_cut_ok(self@, "textDocument/rename"@, params_view(*p)),
        ensures
            handled_as(h, rename_outcome(self@, params_view(*p))),
    {
        let uri = match uri_param(p) {
            Ok(u) => u,
            Err(e) => return fail(e),
        };
        match p {
            None => fail_with("Missing params"),
            Some(q) => match &q.new_name {
                None => fail_with("Missing newName"),
                Some(new_name) => match q.line {
                    None => fail_with("Missing line"),
                    Some(line) => match q.character {
                        None => fail_with("Missing character"),
                        Some(character) => {
                            let doc = match self.document_chars(&uri) {
                                Some(d) => d,
                                None => return fail_with("Document not found"),
                            };
                            let lines = split_lines(&doc);
                            proof {
                                lemma_lines_fit(doc@);
                            }
                            if line >= lines.len() {
                                return reply(Reply::RenameNoChanges);
                            }
                            assert(lines@[line as int]@ == lines_of(doc@)[line as int]);
                            if character > byte_length(&lines[line]) {
                                return reply(Reply::RenameNoChanges);
                            }
                            let ranges = references(&doc, line, character);
                            reply(Reply::Rename { uri, new_name: new_name.clone(), ranges })
                        },
                    },
                },
            },
        }
    }

    fn workspace_symbol_request(&self, p: &Option<RequestParams>) -> (h: Handled)
        ensures
            handled_as(h, workspace_symbol_outcome(self@, params_view(*p))),
    {
        match p {
            None => fail_with("Missing params"),
            Some(q) => match &q.query {
                None => fail_with("Missing query"),
                Some(query) => reply(Reply::WorkspaceSymbols(workspace_symbols(query.as_str()))),
            },
        }
    }

    /// Handles a request by its method (see `request_outcome`): gives the
    /// answer or the handler's error, and the diagnostics to publish before
    /// answering; opening, changing and closing a document update the open
    /// documents.
    pub fn handle_request(&mut self, method: &str, params: Option<RequestParams>) -> (h: Handled)
        requires
            stored_text_fits(method@, params_view(params)),
            request_cut_ok(old(self)@, method@, params_view(params)),
        ensures
            handled_as(h, request_outcome(old(self)@, method@, params_view(params))),
            final(self)@ == request_outcome(old(self)@, method@, params_view(params)).documents,
    {
        let m = chars_of(method);
        let p = &params;
        if eq_str(&m, "initialize") {
            reply(Reply::Capabilities)
        } else if eq_str(&m, "textDocument/didOpen") {
            self.did_open(p)
        } else if eq_str(&m, "textDocument/didChange") {
            self.did_change(p)
        } else if eq_str(&m, "textDocument/didClose") {
            self.did_close(p)
        } else if eq_str(&m, "textDocument/hover") {
            self.hover_request(p)
        } else if eq_str(&m, "textDocument/completion") {
            self.completion_request(p)
        } else if eq_str(&m, "textDocument/definition") {
            self.definition_request(p)
        } else if eq_str(&m, "textDocument/references") {
            self.references_request(p)
        } else if eq_str(&m, "textDocument/rename") {
            self.rename_request(p)
        } else if eq_str(&m, "textDocument/documentSymbol") {
            self.document_symbol_request(p)
        } else if eq_str(&m, "workspace/symbol") {
            self.workspace_symbol_request(p)
        } else if eq_str(&m, "shutdown") {
            reply(Reply::Null)
        } else {
            let mut v: Vec<char> = Vec::new();
            push_str(&mut v, "Unknown method: ");
            push_chars(&mut v, &m);
            fail(string_of(&v))
        }
    }
}

/// The error of a response: its code and message.
#[derive(Debug, Clone, PartialEq)]
pub struct ResponseError {
    pub code: i64,
    pub message: String,
}

/// A response to the request with the same id: its answer, or an error.
#[derive(Debug, Clone)]
pub struct Response {
    pub id: u64,
    pub result: Option<Reply>,
    pub error: Option<ResponseError>,
}

/// The JSON-RPC code of an internal error.
pub const INTERNAL_ERROR: i64 = -32603;

impl Response {
    /// A response that answers the request `id` with `result`.
    pub fn success(id: u64, result: Reply) -> (r: Response)
        ensures
            r.id == id,
            r.result matches Some(x) && x@ == result@,
            r.error is None,
    {
        Response { id, result: Some(result), error: None }
    }

    /// A response that reports an error for the request `id`.
    pub fn error(id: u64, code: i64, message: &str) -> (r: Response)
        ensures
            r.id == id,
            r.result is None,
            r.error matches Some(e) && e.code == code && e.message@ == message@,
    {
        Response { id, result: None, error: Some(ResponseError { code, message: owned(message) }) }
    }
}

/// The response to the request `id` from a handler's result: its answer,
/// or an internal error whose message is `Internal error: ` followed by the
/// handler's error.
pub fn respond(id: u64, result: Result<Reply, String>) -> (r: Response)
    ensures
        r.id == id,
        match result {
            Ok(x) => r.error is None && (r.result matches Some(y) && y@ == x@),
            Err(e) => r.result is None && (r.error matches Some(err) && err.code == INTERNAL_ERROR
                && err.message@ == "Internal error: "@ + e@),
        },
{
    match result {
        Ok(x) => Response::success(id, x),
        Err(e) => {
            let mut v: Vec<char> = Vec::new();
            push_str(&mut v, "Internal error: ");
            push_str(&mut v, e.as_str());
            let message = string_of(&v);
            Response::error(id, INTERNAL_ERROR, message.as_str())
        },
    }
}

/// What to do on a notification.
#[derive(Debug, Clone, Copy, PartialEq, Eq)]
pub enum NotificationAction {
    /// End the server.
    Exit,
    /// Ignore it, reporting it as unknown.
    Ignore,
}

/// The action for a notification: `exit` ends the server, any other is ignored.
pub fn notification_action(method: &str) -> (a: NotificationAction)
    ensures
        a == (if method@ == "exit"@ {
            NotificationAction::Exit
        } else {
            NotificationAction::Ignore
        }),
{
    if eq_str(&chars_of(method), "exit") {
        NotificationAction::Exit
    } else {
        NotificationAction::Ignore
    }
}

// ---------------------------------------------------------------------------
// Checking that a request can be handled
// ---------------------------------------------------------------------------

/// Whether a text fits (see `text_fits`).
pub fn fits(s: &String) -> (b: bool)
    ensures
        b == text_fits(s@),
{
    let v = chars_of(s.as_str());
    let n = v.len();
    if n == usize::MAX {
        return false;
    }
    let mut i: usize = 0;
    let mut acc: usize = 0;
    assert(v@.take(0) =~= Seq::<char>::empty());
    while i < n
        invariant
            n == v@.len(),
            v@ == s@,
            n < usize::MAX,
            i <= n,
            acc == byte_len(v@.take(i as int)),
            acc < usize::MAX,
        decreases n - i,
    {
        proof {
            lemma_byte_len_prefix(v@, i as int);
        }
        let w = char_width(v[i]);
        if acc >= usize::MAX - w {
            proof {
                lemma_byte_len_monotone(v@, (i + 1) as int, n as int);
                assert(v@.take(n as int) =~= v@);
                assert(byte_len(v@.take(i + 1)) >= usize::MAX);
                assert(byte_len(v@) >= usize::MAX);
            }
            return false;
        }
        acc = acc + w;
        i = i + 1;
    }
    assert(v@.take(n as int) =~= v@);
    true
}

fn is_boundary(t: &Vec<usize>, l: &Vec<char>, b: usize) -> (r: bool)
    requires
        t@.len() == l@.len() + 1,
        forall|q: int| 0 <= q <= l@.len() ==> #[trigger] t@[q] == byte_len(l@.take(q)),
    ensures
        r == is_byte_boundary(l@, b as nat),
{
    let n = t.len();
    let mut k: usize = 0;
    while k < n
        invariant
            n == t@.len(),
            n == l@.len() + 1,
            k <= n,
            forall|q: int| 0 <= q <= l@.len() ==> #[trigger] t@[q] == byte_len(l@.take(q)),
            forall|q: int| 0 <= q < k ==> t@[q] != b,
        decreases n - k,
    {
        if t[k] == b {
            assert(byte_len(l@.take(k as int)) == b);
            return true;
        }
        k = k + 1;
    }
    assert forall|q: int| 0 <= q <= l@.len() implies #[trigger] byte_len(l@.take(q)) != b by {
        assert(t@[q] != b);
    }
    false
}

/// Whether the word at a position of a document can be cut from its line
/// (see `position_cut_ok`).
pub fn cut_ok(doc: &Vec<char>, line: usize, character: usize) -> (b: bool)
    requires
        text_fits(doc@),
    ensures
        b == position_cut_ok(doc@, line as nat, character as nat),
{
    let lines = split_lines(doc);
    proof {
        lemma_lines_fit(doc@);
    }
    if line >= lines.len() {
        return true;
    }
    let l = &lines[line];
    assert(l@ == lines_of(doc@)[line as int]);
    let limit = byte_length(l);
    if character > limit {
        return true;
    }
    let start = scan_left(l, character);
    let end = scan_right(l, character, limit);
    let t = prefix_bytes(l);
    is_boundary(&t, l, start) && is_boundary(&t, l, end)
}

impl MessageHandler {
    /// Whether `handle_request` can take this request: the text it would
    /// store fits, and a references or rename request can cut the word at
    /// its position from its line.
    pub fn accepts(&self, method: &str, params: &Option<RequestParams>) -> (b: bool)
        ensures
            b == (stored_text_fits(method@, params_view(*params)) && request_cut_ok(
                self@,
                method@,
                params_view(*params),
            )),
    {
        let m = chars_of(method);
        let is_open = eq_str(&m, "textDocument/didOpen");
        let is_change = eq_str(&m, "textDocument/didChange");
        let is_references = eq_str(&m, "textDocument/references");
        let is_rename = eq_str(&m, "textDocument/rename");
        proof {
            reveal_strlit("textDocument/didOpen");
            reveal_strlit("textDocument/didChange");
            reveal_strlit("textDocument/references");
            reveal_strlit("textDocument/rename");
            assert(("textDocument/didOpen"@).len() == 20);
            assert(("textDocument/didChange"@).len() == 22);
            assert(("textDocument/references"@).len() == 23);
            assert(("textDocument/rename"@).len() == 19);
        }
        let q = match params {
            None => {
                return true;
            },
            Some(q) => q,
        };
        if is_open {
            match &q.text {
                Some(t) => {
                    return fits(t);
                },
                None => {
                    return true;
                },
            }
        }
        if is_change {
            match &q.content_changes {
                Some(cs) => {
                    let n = cs.len();
                    if n == 0 {
                        return true;
                    }
                    let ghost csv = cs@.map_values(|c: Option<String>| crate::ast::opt_view(c));
                    assert(csv.last() == crate::ast::opt_view(cs@[n - 1]));
                    match &cs[n - 1] {
                        Some(t) => {
                            return fits(t);
                        },
                        None => {
                            return true;
                        },
                    }
                },
                None => {
                    return true;
                },
            }
        }
        if !(is_references || (is_rename && q.new_name.is_some())) {
            return true;
        }
        let uri = match &q.uri {
            None => {
                return true;
            },
            Some(u) => u,
        };
        let doc = match self.document_chars(uri) {
            None => {
                return true;
            },
            Some(d) => d,
        };
        match q.line {
            None => true,
            Some(line) => match q.character {
                None => true,
                Some(character) => cut_ok(&doc, line, character),
            },
        }
    }

    /// Handles a request as `handle_request` does where `accepts` takes it;
    /// else gives `None` and leaves the open documents as they were.
    pub fn handle_accepted(&mut self, method: &str, params: Option<RequestParams>) -> (h: Option<Handled>)
        ensures
            match h {
                Some(x) => {
                    &&& stored_text_fits(method@, params_view(params))
                    &&& request_cut_ok(old(self)@, method@, params_view(params))
                    &&& handled_as(x, request_outcome(old(self)@, method@, params_view(params)))
                    &&& final(self)@ == request_outcome(old(self)@, method@, params_view(params)).documents
                },
                None => {
                    &&& !(stored_text_fits(method@, params_view(params)) && request_cut_ok(
                        old(self)@,
                        method@,
                        params_view(params),
                    ))
                    &&& final(self)@ == old(self)@
                },
            },
    {
        if self.accepts(method, &params) {
            Some(self.handle_request(method, params))
        } else {
            None
        }
    }
}

} // verus!
