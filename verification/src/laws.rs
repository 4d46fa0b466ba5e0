//! Properties of the lexer, the parser and the pipeline that hold for every
//! input, stated over the spec functions that the executable functions'
//! contracts use.

use vstd::prelude::*;

use crate::ast::{data_type_name, DataType, EnvironmentDivision, IdentificationView, StatementView, VariableView};
use crate::pairs::{lemma_sorted_pairs_unique, pairs_view};
use crate::ir::{compile_source, first_undeclared, first_undeclared_name, is_declared, lower_statement, statement_targets};
use crate::lexer::{
    is_word_char, is_word_start, keyword_for_upper, keyword_token, lex, upper_form, lex_from, prepend, quote_end, variant_index, word_end, TokenView,
};
use crate::handler::{
    did_close_outcome, did_open_outcome, hover_outcome, byte_len, contains_text, hover_text, line_symbol, line_symbols, lines_of, lowercase, matching_symbols, occurrences_from,
    occurs_at, predefined_symbols, ranges_in_line, ranges_in_lines, references_of, request_outcome, word_at,
    ParamsView, RangeView, ReplyView,
};
use crate::parser::{
    cur, data_at, data_body, data_type_at, declaration, division_order_message, environment_at, environment_body,
    expect_at, expect_division_at, header_entry, ident_at, identification_at, identification_body, is_heading, next_pos,
    parse_tokens, procedure_at, procedure_body, setting_key, setting_value, statement_at, string_at, var_or_type_at,
};

verus! {

// ---------------------------------------------------------------------------
// Lexer
// ---------------------------------------------------------------------------

/// Whether a token sequence ends with `Eof` and holds no other `Eof`.
pub open spec fn ends_with_single_eof(ts: Seq<TokenView>) -> bool {
    &&& ts.len() >= 1
    &&& ts.last() is Eof
    &&& forall|k: int| 0 <= k < ts.len() - 1 ==> !(#[trigger] ts[k] is Eof)
}

proof fn lemma_lex_from_eof(s: Seq<char>, i: nat, line: nat, col: nat)
    ensures
        lex_from(s, i, line, col) matches Ok(ts) ==> ends_with_single_eof(ts),
    decreases s.len() - i,
{
    if i < s.len() {
        let c = s[i as int];
        if c == ' ' || c == '\t' {
            lemma_lex_from_eof(s, i + 1, line, col + 1);
        } else if c == '\n' {
            lemma_lex_from_eof(s, i + 1, line + 1, 1);
        } else if c == '\r' {
            lemma_lex_from_eof(s, i + 1, line, col);
        } else if c == '.' {
            lemma_lex_from_eof(s, i + 1, line, col + 1);
            lemma_prepend_keeps_single_eof(TokenView::Period, lex_from(s, i + 1, line, col + 1));
        } else if c == '"' {
            let j = quote_end(s, i + 1);
            if j < s.len() {
                crate::lexer::lemma_quote_end_bounds(s, i + 1);
                let rest = lex_from(s, j + 1, line, (col + (j - i) + 1) as nat);
                lemma_lex_from_eof(s, j + 1, line, (col + (j - i) + 1) as nat);
                lemma_prepend_keeps_single_eof(TokenView::String(s.subrange((i + 1) as int, j as int)), rest);
            }
        } else if is_word_start(c) {
            let j = word_end(s, i);
            crate::lexer::lemma_word_end_bounds(s, i + 1);
            let rest = lex_from(s, j, line, (col + (j - i)) as nat);
            lemma_lex_from_eof(s, j, line, (col + (j - i)) as nat);
            lemma_keyword_not_eof(s.subrange(i as int, j as int));
            lemma_prepend_keeps_single_eof(keyword_token(s.subrange(i as int, j as int)), rest);
        }
    }
}

proof fn lemma_keyword_not_eof(w: Seq<char>)
    ensures
        !(keyword_token(w) is Eof),
{
}

proof fn lemma_prepend_keeps_single_eof(t: TokenView, r: Result<Seq<TokenView>, Seq<char>>)
    requires
        !(t is Eof),
        r matches Ok(ts) ==> ends_with_single_eof(ts),
    ensures
        prepend(t, r) matches Ok(ts) ==> ends_with_single_eof(ts),
{
    if let Ok(ts) = r {
        let us = seq![t] + ts;
        assert forall|k: int| 0 <= k < us.len() - 1 implies !(#[trigger] us[k] is Eof) by {
            if k > 0 {
                assert(us[k] == ts[k - 1]);
            }
        }
        assert(us.last() == ts.last());
    }
}

/// Every successful tokenization ends with exactly one `Eof` token, as its
/// last token.
pub proof fn law_tokens_end_with_eof(s: Seq<char>)
    ensures
        lex(s) matches Ok(ts) ==> ends_with_single_eof(ts),
{
    lemma_lex_from_eof(s, 0, 1, 1);
}

proof fn lemma_lex_position_free(s: Seq<char>, i: nat, l1: nat, c1: nat, l2: nat, c2: nat)
    ensures
        lex_from(s, i, l1, c1) is Ok ==> lex_from(s, i, l2, c2) == lex_from(s, i, l1, c1),
    decreases s.len() - i,
{
    if i < s.len() {
        let c = s[i as int];
        if c == ' ' || c == '\t' {
            lemma_lex_position_free(s, i + 1, l1, c1 + 1, l2, c2 + 1);
        } else if c == '\n' {
            lemma_lex_position_free(s, i + 1, l1 + 1, 1, l2 + 1, 1);
        } else if c == '\r' {
            lemma_lex_position_free(s, i + 1, l1, c1, l2, c2);
        } else if c == '.' {
            lemma_lex_position_free(s, i + 1, l1, c1 + 1, l2, c2 + 1);
        } else if c == '"' {
            let j = quote_end(s, i + 1);
            if j < s.len() {
                crate::lexer::lemma_quote_end_bounds(s, i + 1);
                lemma_lex_position_free(s, j + 1, l1, (c1 + (j - i) + 1) as nat, l2, (c2 + (j - i) + 1) as nat);
            }
        } else if is_word_start(c) {
            let j = word_end(s, i);
            crate::lexer::lemma_word_end_bounds(s, i + 1);
            lemma_lex_position_free(s, j, l1, (c1 + (j - i)) as nat, l2, (c2 + (j - i)) as nat);
        }
    }
}

proof fn lemma_quote_end_prefix(a: Seq<char>, s: Seq<char>, k: nat)
    requires
        a.len() <= s.len(),
        forall|i: int| 0 <= i < a.len() ==> #[trigger] s[i] == a[i],
    ensures
        quote_end(a, k) < a.len() ==> quote_end(s, k) == quote_end(a, k),
    decreases a.len() - k,
{
    if k < a.len() && a[k as int] != '"' {
        lemma_quote_end_prefix(a, s, k + 1);
    }
}

proof fn lemma_word_end_prefix(a: Seq<char>, s: Seq<char>, k: nat)
    requires
        a.len() < s.len(),
        forall|i: int| 0 <= i < a.len() ==> #[trigger] s[i] == a[i],
        s[a.len() as int] == ' ',
        k <= a.len(),
    ensures
        word_end(s, k) == word_end(a, k),
    decreases a.len() - k,
{
    if k < a.len() {
        assert(s[k as int] == a[k as int]);
        if is_word_char(a[k as int]) {
            lemma_word_end_prefix(a, s, k + 1);
        }
    }
}

proof fn lemma_quote_end_shift(p: Seq<char>, b: Seq<char>, k: nat)
    requires
        k <= b.len(),
    ensures
        quote_end(p + b, p.len() + k) == p.len() + quote_end(b, k),
    decreases b.len() - k,
{
    if k < b.len() {
        assert((p + b)[(p.len() + k) as int] == b[k as int]);
        if b[k as int] != '"' {
            lemma_quote_end_shift(p, b, k + 1);
        }
    }
}

proof fn lemma_word_end_shift(p: Seq<char>, b: Seq<char>, k: nat)
    requires
        k <= b.len(),
    ensures
        word_end(p + b, p.len() + k) == p.len() + word_end(b, k),
    decreases b.len() - k,
{
    if k < b.len() {
        assert((p + b)[(p.len() + k) as int] == b[k as int]);
        if is_word_char(b[k as int]) {
            lemma_word_end_shift(p, b, k + 1);
        }
    }
}

proof fn lemma_lex_suffix(p: Seq<char>, b: Seq<char>, k: nat, line: nat, col: nat)
    requires
        k <= b.len(),
    ensures
        lex_from(p + b, p.len() + k, line, col) == lex_from(b, k, line, col),
    decreases b.len() - k,
{
    let s = p + b;
    let i = p.len() + k;
    if k < b.len() {
        let c = b[k as int];
        assert(s[i as int] == c);
        if c == ' ' || c == '\t' {
            lemma_lex_suffix(p, b, k + 1, line, col + 1);
        } else if c == '\n' {
            lemma_lex_suffix(p, b, k + 1, line + 1, 1);
        } else if c == '\r' {
            lemma_lex_suffix(p, b, k + 1, line, col);
        } else if c == '.' {
            lemma_lex_suffix(p, b, k + 1, line, col + 1);
        } else if c == '"' {
            lemma_quote_end_shift(p, b, k + 1);
            crate::lexer::lemma_quote_end_bounds(b, k + 1);
            let j = quote_end(b, k + 1);
            if j < b.len() {
                assert(s.subrange((i + 1) as int, (p.len() + j) as int) =~= b.subrange((k + 1) as int, j as int));
                lemma_lex_suffix(p, b, j + 1, line, (col + (j - k) + 1) as nat);
            }
        } else if is_word_start(c) {
            lemma_word_end_shift(p, b, k);
            crate::lexer::lemma_word_end_bounds(b, k + 1);
            let j = word_end(b, k);
            assert(s.subrange(i as int, (p.len() + j) as int) =~= b.subrange(k as int, j as int));
            lemma_lex_suffix(p, b, j, line, (col + (j - k)) as nat);
        }
    }
}

proof fn lemma_lex_prefix(a: Seq<char>, b: Seq<char>, i: nat, line: nat, col: nat)
    requires
        i <= a.len(),
    ensures
        lex_from(a, i, line, col) matches Ok(ta) ==> (lex_from(a + seq![' '] + b, a.len(), 1, 1) matches Ok(r)
            ==> lex_from(a + seq![' '] + b, i, line, col) == Ok::<Seq<TokenView>, Seq<char>>(ta.drop_last() + r)),
    decreases a.len() - i,
{
    let s = a + seq![' '] + b;
    assert forall|k: int| 0 <= k < a.len() implies #[trigger] s[k] == a[k] by {}
    assert(s[a.len() as int] == ' ');
    if i == a.len() {
        lemma_lex_position_free(s, i, 1, 1, line, col);
        if let Ok(ta) = lex_from(a, i, line, col) {
            assert(ta.drop_last() =~= Seq::<TokenView>::empty());
            if let Ok(r) = lex_from(s, i, 1, 1) {
                assert(ta.drop_last() + r =~= r);
            }
        }
    } else {
        let c = a[i as int];
        assert(s[i as int] == c);
        if c == ' ' || c == '\t' {
            lemma_lex_prefix(a, b, i + 1, line, col + 1);
        } else if c == '\n' {
            lemma_lex_prefix(a, b, i + 1, line + 1, 1);
        } else if c == '\r' {
            lemma_lex_prefix(a, b, i + 1, line, col);
        } else if c == '.' {
            lemma_lex_prefix(a, b, i + 1, line, col + 1);
            lemma_lex_from_eof(a, i + 1, line, col + 1);
            if let Ok(rest) = lex_from(a, i + 1, line, col + 1) {
                assert((seq![TokenView::Period] + rest).drop_last() =~= seq![TokenView::Period] + rest.drop_last());
                if let Ok(r) = lex_from(s, a.len(), 1, 1) {
                    assert(seq![TokenView::Period] + (rest.drop_last() + r) =~= (seq![TokenView::Period]
                        + rest.drop_last()) + r);
                }
            }
        } else if c == '"' {
            let j = quote_end(a, i + 1);
            lemma_quote_end_prefix(a, s, i + 1);
            if j < a.len() {
                crate::lexer::lemma_quote_end_bounds(a, i + 1);
                let t = TokenView::String(a.subrange((i + 1) as int, j as int));
                assert(s.subrange((i + 1) as int, j as int) =~= a.subrange((i + 1) as int, j as int));
                let c2 = (col + (j - i) + 1) as nat;
                lemma_lex_prefix(a, b, j + 1, line, c2);
                lemma_lex_from_eof(a, j + 1, line, c2);
                if let Ok(rest) = lex_from(a, j + 1, line, c2) {
                    assert((seq![t] + rest).drop_last() =~= seq![t] + rest.drop_last());
                    if let Ok(r) = lex_from(s, a.len(), 1, 1) {
                        assert(seq![t] + (rest.drop_last() + r) =~= (seq![t] + rest.drop_last()) + r);
                    }
                }
            }
        } else if is_word_start(c) {
            let j = word_end(a, i);
            lemma_word_end_prefix(a, s, i);
            crate::lexer::lemma_word_end_bounds(a, i + 1);
            let w = a.subrange(i as int, j as int);
            assert(s.subrange(i as int, j as int) =~= w);
            let t = keyword_token(w);
            let c2 = (col + (j - i)) as nat;
            lemma_lex_prefix(a, b, j, line, c2);
            lemma_lex_from_eof(a, j, line, c2);
            if let Ok(rest) = lex_from(a, j, line, c2) {
                assert((seq![t] + rest).drop_last() =~= seq![t] + rest.drop_last());
                if let Ok(r) = lex_from(s, a.len(), 1, 1) {
                    assert(seq![t] + (rest.drop_last() + r) =~= (seq![t] + rest.drop_last()) + r);
                }
            }
        }
    }
}

/// Tokenizing two texts joined by a space gives the tokens of the first
/// without its `Eof`, followed by the tokens of the second: no state carries
/// across a separator, and line and column only shape error messages.
pub proof fn law_lex_concatenation(a: Seq<char>, b: Seq<char>)
    requires
        lex(a) is Ok,
        lex(b) is Ok,
    ensures
        lex(a + seq![' '] + b) == Ok::<Seq<TokenView>, Seq<char>>(lex(a)->Ok_0.drop_last() + lex(b)->Ok_0),
{
    let s = a + seq![' '] + b;
    let p = a + seq![' '];
    assert(s =~= p + b);
    assert(s[a.len() as int] == ' ');
    lemma_lex_suffix(p, b, 0, 1, 2);
    assert(p.len() + 0 == a.len() + 1);
    lemma_lex_position_free(b, 0, 1, 1, 1, 2);
    assert(lex_from(s, a.len(), 1, 1) == lex_from(s, a.len() + 1, 1, 2));
    lemma_lex_prefix(a, b, 0, 1, 1);
}

/// Whether a character can stand outside a string literal: whitespace, a
/// period, a quote or a character of a word.
pub open spec fn is_recognized(c: char) -> bool {
    c == ' ' || c == '\t' || c == '\n' || c == '\r' || c == '.' || c == '"' || is_word_char(c)
}

proof fn lemma_word_end_chars(s: Seq<char>, i: nat, k: int)
    requires
        i <= k < word_end(s, i),
        k < s.len(),
    ensures
        is_word_char(s[k]),
    decreases s.len() - i,
{
    if i < s.len() && is_word_char(s[i as int]) && k > i {
        lemma_word_end_chars(s, i + 1, k);
    }
}

proof fn lemma_lex_from_rejects(s: Seq<char>, i: nat, line: nat, col: nat, k: int)
    requires
        forall|m: int| 0 <= m < s.len() ==> s[m] != '"',
        i <= k < s.len(),
        !is_recognized(s[k]),
    ensures
        lex_from(s, i, line, col) is Err,
    decreases s.len() - i,
{
    let c = s[i as int];
    if c == ' ' || c == '\t' {
        lemma_lex_from_rejects(s, i + 1, line, col + 1, k);
    } else if c == '\n' {
        lemma_lex_from_rejects(s, i + 1, line + 1, 1, k);
    } else if c == '\r' {
        lemma_lex_from_rejects(s, i + 1, line, col, k);
    } else if c == '.' {
        lemma_lex_from_rejects(s, i + 1, line, col + 1, k);
    } else if is_word_start(c) {
        let j = word_end(s, i);
        crate::lexer::lemma_word_end_bounds(s, i + 1);
        if k < j {
            lemma_word_end_chars(s, i, k);
        }
        lemma_lex_from_rejects(s, j, line, (col + (j - i)) as nat, k);
    }
}

/// Fail fast: a source text without string literals that holds a character
/// which is neither whitespace, a period nor a character of a word is rejected.
pub proof fn law_unrecognized_character_rejected(s: Seq<char>, k: int)
    requires
        forall|m: int| 0 <= m < s.len() ==> s[m] != '"',
        0 <= k < s.len(),
        !is_recognized(s[k]),
    ensures
        lex(s) is Err,
{
    lemma_lex_from_rejects(s, 0, 1, 1, k);
}

// ---------------------------------------------------------------------------
// Parser
// ---------------------------------------------------------------------------

proof fn lemma_identification_body_stops(toks: Seq<TokenView>, pos: nat, id: IdentificationView)
    ensures
        identification_body(toks, pos, id) matches Ok((_, q)) ==> pos <= q && cur(toks, q) is EnvironmentDiv,
    decreases toks.len() - pos,
{
    let c = cur(toks, pos);
    if c is EnvironmentDiv {
    } else if c is ProgramId || c is Author || c is Version {
        if let Ok((name, p)) = crate::parser::header_entry(toks, pos) {
            crate::parser::lemma_header_entry(toks, pos);
            let id2 = if c is ProgramId {
                IdentificationView { program_id: name, author: id.author, version: id.version }
            } else if c is Author {
                IdentificationView { program_id: id.program_id, author: Some(name), version: id.version }
            } else {
                IdentificationView { program_id: id.program_id, author: id.author, version: Some(name) }
            };
            lemma_identification_body_stops(toks, p, id2);
        }
    } else if !(c is Eof) {
        lemma_identification_body_stops(toks, pos + 1, id);
    }
}

/// Whether every key of a configuration is one of the three setting names.
pub open spec fn known_keys(config: Map<Seq<char>, Seq<char>>) -> bool {
    forall|k: Seq<char>| #[trigger] config.contains_key(k) ==> k == "OS"@ || k == "ARCH"@ || k == "RUNTIME-VERSION"@
}

proof fn lemma_environment_body_stops(toks: Seq<TokenView>, pos: nat, config: Map<Seq<char>, Seq<char>>)
    requires
        known_keys(config),
    ensures
        environment_body(toks, pos, config) matches Ok((m, q)) ==> pos <= q && cur(toks, q) is DataDiv
            && known_keys(m),
    decreases toks.len() - pos,
{
    let c = cur(toks, pos);
    if !(c is DataDiv) && crate::parser::setting_key(c) is Some {
        if let Ok((value, p)) = crate::parser::setting_value(toks, pos) {
            crate::parser::lemma_setting_value(toks, pos);
            let m2 = config.insert(crate::parser::setting_key(c)->0, value);
            assert(known_keys(m2));
            lemma_environment_body_stops(toks, p, m2);
        }
    }
}

/// The setting that a keyword token names.
pub open spec fn setting_named(t: TokenView) -> Option<Seq<char>> {
    match t {
        TokenView::Os => Some("OS"@),
        TokenView::Arch => Some("ARCH"@),
        TokenView::RuntimeVersion => Some("RUNTIME-VERSION"@),
        _ => None,
    }
}

/// Whether every setting of a configuration is written among the tokens as
/// its key's keyword directly followed by its value as a quoted string.
pub open spec fn values_quoted(toks: Seq<TokenView>, config: Map<Seq<char>, Seq<char>>) -> bool {
    forall|k: Seq<char>|
        #[trigger] config.contains_key(k) ==> exists|i: int|
            1 <= i < toks.len() && setting_named(toks[i - 1]) == Some(k) && #[trigger] toks[i]
                == TokenView::String(config[k])
}

proof fn lemma_environment_values_quoted(toks: Seq<TokenView>, pos: nat, config: Map<Seq<char>, Seq<char>>)
    requires
        values_quoted(toks, config),
    ensures
        environment_body(toks, pos, config) matches Ok((m, _)) ==> values_quoted(toks, m),
    decreases toks.len() - pos,
{
    let c = cur(toks, pos);
    if !(c is DataDiv) && crate::parser::setting_key(c) is Some {
        if let Ok((value, p)) = crate::parser::setting_value(toks, pos) {
            crate::parser::lemma_setting_value(toks, pos);
            let key = crate::parser::setting_key(c)->0;
            let m2 = config.insert(key, value);
            assert(toks[(pos + 1) as int] == TokenView::String(value));
            assert forall|k: Seq<char>| #[trigger] m2.contains_key(k) implies exists|i: int|
                1 <= i < toks.len() && setting_named(toks[i - 1]) == Some(k) && #[trigger] toks[i]
                    == TokenView::String(m2[k]) by {
                if k == key {
                    let i: int = (pos + 1) as int;
                    assert(toks[i - 1] == c);
                    assert(toks[i] == TokenView::String(m2[k]));
                } else {
                    assert(config.contains_key(k));
                }
            }
            lemma_environment_values_quoted(toks, p, m2);
        }
    }
}

/// Values are quoted: every setting of a parsed program's ENVIRONMENT
/// DIVISION is written as its keyword directly followed by its value as a
/// quoted string.
pub proof fn law_settings_are_quoted(toks: Seq<TokenView>)
    requires
        parse_tokens(toks) is Ok,
    ensures
        values_quoted(toks, parse_tokens(toks)->Ok_0.environment),
{
    let empty = IdentificationView { program_id: Seq::empty(), author: None, version: None };
    let (_, q1) = identification_at(toks, 0)->Ok_0;
    lemma_identification_body_stops(toks, 3, empty);
    lemma_environment_values_quoted(toks, q1 + 3, Map::empty());
}

/// Settings compare as maps: two well-formed ENVIRONMENT DIVISIONs with
/// the same settings hold the same pairs, whatever order the settings were
/// written in.
pub proof fn law_same_settings_same_pairs(a: EnvironmentDivision, b: EnvironmentDivision)
    requires
        a.config_wf(),
        b.config_wf(),
        a@ == b@,
    ensures
        pairs_view(a.config@) == pairs_view(b.config@),
{
    lemma_sorted_pairs_unique(pairs_view(a.config@), pairs_view(b.config@));
}

/// Whether every variable is named by the spelling of its type.
pub open spec fn named_by_type(vars: Seq<VariableView>) -> bool {
    forall|i: int| 0 <= i < vars.len() ==> #[trigger] vars[i].name == data_type_name(vars[i].data_type)
}

proof fn lemma_data_body_stops(toks: Seq<TokenView>, pos: nat, vars: Seq<VariableView>)
    requires
        named_by_type(vars),
    ensures
        data_body(toks, pos, vars) matches Ok((vs, q)) ==> pos <= q && cur(toks, q) is ProcedureDiv
            && named_by_type(vs),
    decreases toks.len() - pos,
{
    let c = cur(toks, pos);
    if !(c is ProcedureDiv) && (c is Input || c is Output) {
        if let Ok((t, p)) = crate::parser::declaration(toks, pos) {
            crate::parser::lemma_declaration(toks, pos);
            let vs2 = vars.push(VariableView { name: data_type_name(t), data_type: t });
            assert(named_by_type(vs2));
            lemma_data_body_stops(toks, p, vs2);
        }
    }
}

/// Whether a token is neither a division heading nor `Eof`.
pub open spec fn plain(t: TokenView) -> bool {
    4 <= variant_index(t) && variant_index(t) < 35
}

/// Whether the tokens at indices `a` up to `b` are all plain.
pub open spec fn plain_range(toks: Seq<TokenView>, a: nat, b: nat) -> bool {
    &&& a <= b <= toks.len()
    &&& forall|i: int| a <= i < b ==> plain(#[trigger] toks[i])
}

proof fn lemma_plain_join(toks: Seq<TokenView>, a: nat, b: nat, c: nat)
    requires
        plain_range(toks, a, b),
        plain_range(toks, b, c),
    ensures
        plain_range(toks, a, c),
{
    assert forall|i: int| a <= i < c implies plain(#[trigger] toks[i]) by {
        if i < b {
            assert(plain(toks[i]));
        } else {
            assert(plain(toks[i]));
        }
    }
}

proof fn lemma_plain_is_not_heading(t: TokenView)
    ensures
        plain(t) <==> !(t is Eof) && !is_heading(t),
{
}

proof fn lemma_expect_plain(toks: Seq<TokenView>, pos: nat, e: TokenView)
    requires
        plain(e),
    ensures
        expect_at(toks, pos, e) matches Ok(p) ==> p == pos + 1 && plain_range(toks, pos, p),
{
}

proof fn lemma_heading_at(toks: Seq<TokenView>, pos: nat, h: TokenView, name: Seq<char>)
    requires
        is_heading(h),
    ensures
        expect_division_at(toks, pos, h, name) matches Ok(p) ==> p == pos + 1 && pos < toks.len()
            && variant_index(toks[pos as int]) == variant_index(h),
{
}

proof fn lemma_word_plain(toks: Seq<TokenView>, pos: nat)
    ensures
        ident_at(toks, pos) matches Ok((_, p)) ==> p == pos + 1 && plain_range(toks, pos, p),
        string_at(toks, pos) matches Ok((_, p)) ==> p == pos + 1 && plain_range(toks, pos, p),
        data_type_at(toks, pos) matches Ok((_, p)) ==> p == pos + 1 && plain_range(toks, pos, p),
        var_or_type_at(toks, pos) matches Ok((_, p)) ==> p == pos + 1 && plain_range(toks, pos, p),
{
}

proof fn lemma_identification_plain(toks: Seq<TokenView>, pos: nat, id: IdentificationView)
    requires
        pos <= toks.len(),
    ensures
        identification_body(toks, pos, id) matches Ok((_, q)) ==> plain_range(toks, pos, q)
            && q < toks.len() && toks[q as int] is EnvironmentDiv,
    decreases toks.len() - pos,
{
    let c = cur(toks, pos);
    if c is EnvironmentDiv {
    } else if c is ProgramId || c is Author || c is Version {
        if let Ok((name, p)) = header_entry(toks, pos) {
            lemma_expect_plain(toks, pos + 1, TokenView::Period);
            let p1 = expect_at(toks, pos + 1, TokenView::Period)->Ok_0;
            lemma_word_plain(toks, p1);
            let p2 = ident_at(toks, p1)->Ok_0.1;
            lemma_expect_plain(toks, p2, TokenView::Period);
            assert(plain_range(toks, pos, pos + 1));
            lemma_plain_join(toks, pos, pos + 1, p1);
            lemma_plain_join(toks, pos, p1, p2);
            lemma_plain_join(toks, pos, p2, p);
            let id2 = if c is ProgramId {
                IdentificationView { program_id: name, author: id.author, version: id.version }
            } else if c is Author {
                IdentificationView { program_id: id.program_id, author: Some(name), version: id.version }
            } else {
                IdentificationView { program_id: id.program_id, author: id.author, version: Some(name) }
            };
            lemma_identification_plain(toks, p, id2);
            if let Ok((_, q)) = identification_body(toks, p, id2) {
                lemma_plain_join(toks, pos, p, q);
            }
        }
    } else if !(c is Eof) && !is_heading(c) {
        lemma_plain_is_not_heading(c);
        assert(plain_range(toks, pos, pos + 1));
        lemma_identification_plain(toks, pos + 1, id);
        if let Ok((_, q)) = identification_body(toks, pos + 1, id) {
            lemma_plain_join(toks, pos, pos + 1, q);
        }
    }
}

proof fn lemma_environment_plain(toks: Seq<TokenView>, pos: nat, config: Map<Seq<char>, Seq<char>>)
    requires
        pos <= toks.len(),
    ensures
        environment_body(toks, pos, config) matches Ok((_, q)) ==> plain_range(toks, pos, q)
            && q < toks.len() && toks[q as int] is DataDiv,
    decreases toks.len() - pos,
{
    let c = cur(toks, pos);
    if !(c is DataDiv) && setting_key(c) is Some {
        if let Ok((value, p)) = setting_value(toks, pos) {
            lemma_word_plain(toks, pos + 1);
            lemma_expect_plain(toks, pos + 2, TokenView::Period);
            assert(plain_range(toks, pos, pos + 1));
            lemma_plain_join(toks, pos, pos + 1, pos + 2);
            lemma_plain_join(toks, pos, pos + 2, p);
            let m2 = config.insert(setting_key(c)->0, value);
            lemma_environment_plain(toks, p, m2);
            if let Ok((_, q)) = environment_body(toks, p, m2) {
                lemma_plain_join(toks, pos, p, q);
            }
        }
    }
}

proof fn lemma_data_plain(toks: Seq<TokenView>, pos: nat, vars: Seq<VariableView>)
    requires
        pos <= toks.len(),
    ensures
        data_body(toks, pos, vars) matches Ok((_, q)) ==> plain_range(toks, pos, q)
            && q < toks.len() && toks[q as int] is ProcedureDiv,
    decreases toks.len() - pos,
{
    let c = cur(toks, pos);
    if !(c is ProcedureDiv) && (c is Input || c is Output) {
        if let Ok((t, p)) = declaration(toks, pos) {
            lemma_word_plain(toks, pos + 1);
            lemma_expect_plain(toks, pos + 2, TokenView::Period);
            assert(plain_range(toks, pos, pos + 1));
            lemma_plain_join(toks, pos, pos + 1, pos + 2);
            lemma_plain_join(toks, pos, pos + 2, p);
            let vs2 = vars.push(VariableView { name: data_type_name(t), data_type: t });
            lemma_data_plain(toks, p, vs2);
            if let Ok((_, q)) = data_body(toks, p, vs2) {
                lemma_plain_join(toks, pos, p, q);
            }
        }
    }
}

proof fn lemma_statement_plain(toks: Seq<TokenView>, pos: nat)
    requires
        pos <= toks.len(),
    ensures
        statement_at(toks, pos) matches Ok((_, q)) ==> plain_range(toks, pos, q),
{
    if statement_at(toks, pos) is Ok {
        let p = pos + 1;
        assert(pos < toks.len());
        assert(plain_range(toks, pos, p));
        lemma_word_plain(toks, p);
        lemma_word_plain(toks, p + 1);
        lemma_expect_plain(toks, p + 1, TokenView::Period);
        lemma_expect_plain(toks, p + 2, TokenView::Period);
        lemma_plain_join(toks, pos, p, p + 1);
        lemma_plain_join(toks, pos, p + 1, p + 2);
        let q = statement_at(toks, pos)->Ok_0.1;
        if q == p + 3 {
            lemma_plain_join(toks, pos, p + 2, p + 3);
        }
    }
}

proof fn lemma_procedure_plain(toks: Seq<TokenView>, pos: nat, stmts: Seq<StatementView>)
    requires
        pos <= toks.len(),
    ensures
        procedure_body(toks, pos, stmts) matches Ok((_, q)) ==> plain_range(toks, pos, q) && (q
            == toks.len() || toks[q as int] is Eof),
    decreases toks.len() - pos,
{
    if !(cur(toks, pos) is Eof) {
        if let Ok((st, p)) = statement_at(toks, pos) {
            crate::parser::lemma_statement_at(toks, pos);
            lemma_statement_plain(toks, pos);
            lemma_procedure_plain(toks, p, stmts.push(st));
            if let Ok((_, q)) = procedure_body(toks, p, stmts.push(st)) {
                lemma_plain_join(toks, pos, p, q);
            }
        }
    }
}

/// The layout of a program's tokens up to index `f`, the first `Eof` or the
/// end: the IDENTIFICATION heading at 0 and the ENVIRONMENT, DATA and
/// PROCEDURE headings at `e`, `d` and `p`, in this order, and no other
/// heading and no `Eof` before `f`.
pub open spec fn strict_layout(toks: Seq<TokenView>, e: int, d: int, p: int, f: int) -> bool {
    &&& 0 < e < d < p < f <= toks.len()
    &&& toks[0] is IdentificationDiv
    &&& toks[e] is EnvironmentDiv
    &&& toks[d] is DataDiv
    &&& toks[p] is ProcedureDiv
    &&& (f == toks.len() || toks[f] is Eof)
    &&& forall|i: int|
        0 <= i < f ==> !(#[trigger] toks[i] is Eof) && (is_heading(toks[i]) ==> (i == 0 || i == e || i == d
            || i == p))
}

/// Strict division order: in a token sequence that parses, each of the four
/// division headings occurs exactly once before the first `Eof`, in the
/// order IDENTIFICATION, ENVIRONMENT, DATA, PROCEDURE.
#[verifier::spinoff_prover]
#[verifier::rlimit(40)]
pub proof fn law_each_division_once_in_order(toks: Seq<TokenView>)
    requires
        parse_tokens(toks) is Ok,
    ensures
        exists|e: int, d: int, p: int, f: int| #[trigger] strict_layout(toks, e, d, p, f),
{
    let empty = IdentificationView { program_id: Seq::empty(), author: None, version: None };
    lemma_heading_at(toks, 0, TokenView::IdentificationDiv, "IDENTIFICATION DIVISION"@);
    lemma_expect_plain(toks, 1, TokenView::Division);
    lemma_expect_plain(toks, 2, TokenView::Period);
    lemma_identification_plain(toks, 3, empty);
    let (_, e) = identification_at(toks, 0)->Ok_0;
    lemma_heading_at(toks, e, TokenView::EnvironmentDiv, "ENVIRONMENT DIVISION"@);
    lemma_expect_plain(toks, e + 1, TokenView::Division);
    lemma_expect_plain(toks, e + 2, TokenView::Period);
    lemma_environment_plain(toks, e + 3, Map::empty());
    let (_, d) = environment_at(toks, e)->Ok_0;
    lemma_heading_at(toks, d, TokenView::DataDiv, "DATA DIVISION"@);
    lemma_expect_plain(toks, d + 1, TokenView::Division);
    lemma_expect_plain(toks, d + 2, TokenView::Period);
    lemma_data_plain(toks, d + 3, Seq::empty());
    let (_, p) = data_at(toks, d)->Ok_0;
    lemma_heading_at(toks, p, TokenView::ProcedureDiv, "PROCEDURE DIVISION"@);
    lemma_expect_plain(toks, p + 1, TokenView::Division);
    lemma_expect_plain(toks, p + 2, TokenView::Period);
    lemma_procedure_plain(toks, p + 3, Seq::empty());
    let (_, f) = procedure_at(toks, p)->Ok_0;
    lemma_plain_join(toks, 1, 2, 3);
    lemma_plain_join(toks, e + 1, e + 2, e + 3);
    lemma_plain_join(toks, d + 1, d + 2, d + 3);
    lemma_plain_join(toks, p + 1, p + 2, p + 3);
    let (e, d, p, f) = (e as int, d as int, p as int, f as int);
    assert forall|i: int|
        0 <= i < f implies !(#[trigger] toks[i] is Eof) && (is_heading(toks[i]) ==> (i == 0 || i == e || i == d
            || i == p)) by {
        if i == 0 || i == e || i == d || i == p {
        } else {
            if i < 3 {
                assert(plain(toks[i]));
            } else if i < e {
                assert(plain(toks[i]));
            } else if i < e + 3 {
                assert(plain(toks[i]));
            } else if i < d {
                assert(plain(toks[i]));
            } else if i < d + 3 {
                assert(plain(toks[i]));
            } else if i < p {
                assert(plain(toks[i]));
            } else if i < p + 3 {
                assert(plain(toks[i]));
            } else {
                assert(plain(toks[i]));
            }
            lemma_plain_is_not_heading(toks[i]);
        }
    }
    assert(strict_layout(toks, e, d, p, f));
}

// ---------------------------------------------------------------------------
// Tokens after the first `Eof`
// ---------------------------------------------------------------------------

/// Whether `t2` holds the tokens of `t`, then `Eof`, then any tokens.
pub open spec fn extends_past_eof(t: Seq<TokenView>, t2: Seq<TokenView>) -> bool {
    &&& t2.len() > t.len()
    &&& t2[t.len() as int] is Eof
    &&& forall|i: int| 0 <= i < t.len() ==> #[trigger] t2[i] == t[i]
}

proof fn lemma_cur_agree(t: Seq<TokenView>, t2: Seq<TokenView>)
    requires
        extends_past_eof(t, t2),
    ensures
        forall|p: nat| p <= t.len() ==> #[trigger] cur(t2, p) == cur(t, p),
        forall|p: nat| p < t.len() ==> #[trigger] next_pos(t2, p) == next_pos(t, p),
{
    assert forall|p: nat| p <= t.len() implies #[trigger] cur(t2, p) == cur(t, p) by {
        if p < t.len() {
            assert(t2[p as int] == t[p as int]);
        }
    }
}

proof fn lemma_token_steps_agree(t: Seq<TokenView>, t2: Seq<TokenView>, pos: nat)
    requires
        extends_past_eof(t, t2),
        pos <= t.len(),
    ensures
        forall|e: TokenView| !(e is Eof) ==> #[trigger] expect_at(t2, pos, e) == expect_at(t, pos, e),
        forall|h: TokenView, name: Seq<char>|
            !(h is Eof) ==> #[trigger] expect_division_at(t2, pos, h, name) == expect_division_at(t, pos, h, name),
        ident_at(t2, pos) == ident_at(t, pos),
        string_at(t2, pos) == string_at(t, pos),
        data_type_at(t2, pos) == data_type_at(t, pos),
        var_or_type_at(t2, pos) == var_or_type_at(t, pos),
        ident_at(t, pos) is Ok ==> pos < t.len(),
        string_at(t, pos) is Ok ==> pos < t.len(),
        data_type_at(t, pos) is Ok ==> pos < t.len(),
        var_or_type_at(t, pos) is Ok ==> pos < t.len(),
        forall|e: TokenView| !(e is Eof) && #[trigger] expect_at(t, pos, e) is Ok ==> pos < t.len(),
{
    lemma_cur_agree(t, t2);
    assert(cur(t2, pos) == cur(t, pos));
}

proof fn lemma_entries_agree(t: Seq<TokenView>, t2: Seq<TokenView>, pos: nat)
    requires
        extends_past_eof(t, t2),
        pos < t.len(),
    ensures
        header_entry(t2, pos) == header_entry(t, pos),
        setting_value(t2, pos) == setting_value(t, pos),
        declaration(t2, pos) == declaration(t, pos),
{
    lemma_token_steps_agree(t, t2, pos + 1);
    assert(expect_at(t2, pos + 1, TokenView::Period) == expect_at(t, pos + 1, TokenView::Period));
    if pos + 1 < t.len() {
        lemma_token_steps_agree(t, t2, pos + 2);
        if pos + 2 < t.len() {
            lemma_token_steps_agree(t, t2, pos + 3);
            assert(expect_at(t2, pos + 3, TokenView::Period) == expect_at(t, pos + 3, TokenView::Period));
        }
    }
}

proof fn lemma_statement_agrees(t: Seq<TokenView>, t2: Seq<TokenView>, pos: nat)
    requires
        extends_past_eof(t, t2),
        pos <= t.len(),
    ensures
        statement_at(t2, pos) == statement_at(t, pos),
{
    lemma_cur_agree(t, t2);
    assert(cur(t2, pos) == cur(t, pos));
    if pos < t.len() {
        lemma_token_steps_agree(t, t2, pos + 1);
        if pos + 2 <= t.len() {
            lemma_token_steps_agree(t, t2, pos + 2);
            assert(expect_at(t2, pos + 2, TokenView::Period) == expect_at(t, pos + 2, TokenView::Period));
        }
        if pos + 3 <= t.len() {
            lemma_token_steps_agree(t, t2, pos + 3);
            assert(expect_at(t2, pos + 3, TokenView::Period) == expect_at(t, pos + 3, TokenView::Period));
        }
    }
}

proof fn lemma_identification_agrees(t: Seq<TokenView>, t2: Seq<TokenView>, pos: nat, id: IdentificationView)
    requires
        extends_past_eof(t, t2),
        pos <= t.len(),
    ensures
        identification_body(t2, pos, id) == identification_body(t, pos, id),
    decreases t.len() - pos,
{
    lemma_cur_agree(t, t2);
    let c = cur(t, pos);
    assert(cur(t2, pos) == c);
    if c is EnvironmentDiv {
    } else if c is ProgramId || c is Author || c is Version {
        lemma_entries_agree(t, t2, pos);
        crate::parser::lemma_header_entry(t, pos);
        if let Ok((name, p)) = header_entry(t, pos) {
            let id2 = if c is ProgramId {
                IdentificationView { program_id: name, author: id.author, version: id.version }
            } else if c is Author {
                IdentificationView { program_id: id.program_id, author: Some(name), version: id.version }
            } else {
                IdentificationView { program_id: id.program_id, author: id.author, version: Some(name) }
            };
            lemma_identification_agrees(t, t2, p, id2);
        }
    } else if !(c is Eof) && !is_heading(c) {
        lemma_identification_agrees(t, t2, pos + 1, id);
    }
}

proof fn lemma_environment_agrees(t: Seq<TokenView>, t2: Seq<TokenView>, pos: nat, config: Map<Seq<char>, Seq<char>>)
    requires
        extends_past_eof(t, t2),
        pos <= t.len(),
    ensures
        environment_body(t2, pos, config) == environment_body(t, pos, config),
    decreases t.len() - pos,
{
    lemma_cur_agree(t, t2);
    let c = cur(t, pos);
    assert(cur(t2, pos) == c);
    if !(c is DataDiv) && setting_key(c) is Some {
        lemma_entries_agree(t, t2, pos);
        crate::parser::lemma_setting_value(t, pos);
        if let Ok((value, p)) = setting_value(t, pos) {
            lemma_environment_agrees(t, t2, p, config.insert(setting_key(c)->0, value));
        }
    }
}

proof fn lemma_data_agrees(t: Seq<TokenView>, t2: Seq<TokenView>, pos: nat, vars: Seq<VariableView>)
    requires
        extends_past_eof(t, t2),
        pos <= t.len(),
    ensures
        data_body(t2, pos, vars) == data_body(t, pos, vars),
    decreases t.len() - pos,
{
    lemma_cur_agree(t, t2);
    let c = cur(t, pos);
    assert(cur(t2, pos) == c);
    if !(c is ProcedureDiv) && (c is Input || c is Output) {
        lemma_entries_agree(t, t2, pos);
        crate::parser::lemma_declaration(t, pos);
        if let Ok((ty, p)) = declaration(t, pos) {
            lemma_data_agrees(t, t2, p, vars.push(VariableView { name: data_type_name(ty), data_type: ty }));
        }
    }
}

proof fn lemma_procedure_agrees(t: Seq<TokenView>, t2: Seq<TokenView>, pos: nat, stmts: Seq<StatementView>)
    requires
        extends_past_eof(t, t2),
        pos <= t.len(),
    ensures
        procedure_body(t2, pos, stmts) == procedure_body(t, pos, stmts),
    decreases t.len() - pos,
{
    lemma_cur_agree(t, t2);
    assert(cur(t2, pos) == cur(t, pos));
    if !(cur(t, pos) is Eof) {
        lemma_statement_agrees(t, t2, pos);
        crate::parser::lemma_statement_at(t, pos);
        if let Ok((st, p)) = statement_at(t, pos) {
            lemma_procedure_agrees(t, t2, p, stmts.push(st));
        }
    }
}

proof fn lemma_heading_agrees(t: Seq<TokenView>, t2: Seq<TokenView>, pos: nat)
    requires
        extends_past_eof(t, t2),
        pos <= t.len(),
    ensures
        identification_at(t2, pos) == identification_at(t, pos),
        environment_at(t2, pos) == environment_at(t, pos),
        data_at(t2, pos) == data_at(t, pos),
        procedure_at(t2, pos) == procedure_at(t, pos),
{
    lemma_token_steps_agree(t, t2, pos);
    if pos < t.len() {
        lemma_token_steps_agree(t, t2, pos + 1);
        assert(expect_at(t2, pos + 1, TokenView::Division) == expect_at(t, pos + 1, TokenView::Division));
        if pos + 1 < t.len() {
            lemma_token_steps_agree(t, t2, pos + 2);
            assert(expect_at(t2, pos + 2, TokenView::Period) == expect_at(t, pos + 2, TokenView::Period));
            if pos + 2 < t.len() {
                let empty = IdentificationView { program_id: Seq::empty(), author: None, version: None };
                lemma_identification_agrees(t, t2, pos + 3, empty);
                lemma_environment_agrees(t, t2, pos + 3, Map::empty());
                lemma_data_agrees(t, t2, pos + 3, Seq::empty());
                lemma_procedure_agrees(t, t2, pos + 3, Seq::empty());
            }
        }
    }
    assert(expect_division_at(t2, pos, TokenView::IdentificationDiv, "IDENTIFICATION DIVISION"@)
        == expect_division_at(t, pos, TokenView::IdentificationDiv, "IDENTIFICATION DIVISION"@));
    assert(expect_division_at(t2, pos, TokenView::EnvironmentDiv, "ENVIRONMENT DIVISION"@)
        == expect_division_at(t, pos, TokenView::EnvironmentDiv, "ENVIRONMENT DIVISION"@));
    assert(expect_division_at(t2, pos, TokenView::DataDiv, "DATA DIVISION"@)
        == expect_division_at(t, pos, TokenView::DataDiv, "DATA DIVISION"@));
    assert(expect_division_at(t2, pos, TokenView::ProcedureDiv, "PROCEDURE DIVISION"@)
        == expect_division_at(t, pos, TokenView::ProcedureDiv, "PROCEDURE DIVISION"@));
}

/// Parsing stops at the first `Eof`: appending `Eof`, and any tokens after
/// it, to a token sequence leaves the result of parsing it unchanged.
pub proof fn law_parse_stops_at_eof(t: Seq<TokenView>, u: Seq<TokenView>)
    ensures
        parse_tokens(t + seq![TokenView::Eof] + u) == parse_tokens(t),
        parse_tokens(t + seq![TokenView::Eof]) == parse_tokens(t),
{
    let t2 = t + seq![TokenView::Eof] + u;
    let t3 = t + seq![TokenView::Eof];
    assert(extends_past_eof(t, t2));
    assert(extends_past_eof(t, t3));
    lemma_parse_agrees(t, t2);
    lemma_parse_agrees(t, t3);
}

proof fn lemma_division_ends(t: Seq<TokenView>, pos: nat)
    requires
        pos <= t.len(),
    ensures
        identification_at(t, pos) matches Ok((_, q)) ==> q <= t.len(),
        environment_at(t, pos) matches Ok((_, q)) ==> q <= t.len(),
        data_at(t, pos) matches Ok((_, q)) ==> q <= t.len(),
        procedure_at(t, pos) matches Ok((_, q)) ==> q <= t.len(),
{
    lemma_expect_plain(t, pos + 1, TokenView::Division);
    lemma_expect_plain(t, pos + 2, TokenView::Period);
    if expect_at(t, pos + 1, TokenView::Division) is Ok && expect_at(t, pos + 2, TokenView::Period) is Ok {
        let empty = IdentificationView { program_id: Seq::empty(), author: None, version: None };
        lemma_identification_plain(t, pos + 3, empty);
        lemma_environment_plain(t, pos + 3, Map::empty());
        lemma_data_plain(t, pos + 3, Seq::empty());
        lemma_procedure_plain(t, pos + 3, Seq::empty());
    }
}

proof fn lemma_parse_agrees(t: Seq<TokenView>, t2: Seq<TokenView>)
    requires
        extends_past_eof(t, t2),
    ensures
        parse_tokens(t2) == parse_tokens(t),
{
    lemma_heading_agrees(t, t2, 0);
    lemma_division_ends(t, 0);
    if let Ok((_, p1)) = identification_at(t, 0) {
        lemma_heading_agrees(t, t2, p1);
        lemma_division_ends(t, p1);
        if let Ok((_, p2)) = environment_at(t, p1) {
            lemma_heading_agrees(t, t2, p2);
            lemma_division_ends(t, p2);
            if let Ok((_, p3)) = data_at(t, p2) {
                lemma_heading_agrees(t, t2, p3);
                lemma_division_ends(t, p3);
                if let Ok((_, p4)) = procedure_at(t, p3) {
                    assert(cur(t2, p4) == cur(t, p4)) by {
                        lemma_cur_agree(t, t2);
                    }
                }
            }
        }
    }
}

/// The nine data types round-trip through their spelling: the spelling of
/// a data type is lexed as that type's keyword; reading a data type at that
/// keyword gives the type back, and reading a variable there gives the
/// spelling back, each moving past the keyword.
pub proof fn law_data_type_round_trip(d: DataType, toks: Seq<TokenView>, pos: nat)
    requires
        pos < toks.len(),
        toks[pos as int] == keyword_token(data_type_name(d)),
    ensures
        data_type_at(toks, pos) == Ok::<(DataType, nat), Seq<char>>((d, pos + 1)),
        var_or_type_at(toks, pos) == Ok::<(Seq<char>, nat), Seq<char>>((data_type_name(d), pos + 1)),
{
    reveal_strlit("IDENTIFICATION");
    reveal_strlit("ENVIRONMENT");
    reveal_strlit("DATA");
    reveal_strlit("PROCEDURE");
    reveal_strlit("DIVISION");
    reveal_strlit("PROGRAM-ID");
    reveal_strlit("AUTHOR");
    reveal_strlit("VERSION");
    reveal_strlit("OS");
    reveal_strlit("ARCH");
    reveal_strlit("RUNTIME-VERSION");
    reveal_strlit("INPUT");
    reveal_strlit("OUTPUT");
    reveal_strlit("COMPRESS");
    reveal_strlit("VERIFY-INTEGRITY");
    reveal_strlit("TRANSCODE");
    reveal_strlit("FILTER");
    reveal_strlit("AGGREGATE");
    reveal_strlit("CONVERT");
    reveal_strlit("MERGE");
    reveal_strlit("SPLIT");
    reveal_strlit("VALIDATE");
    reveal_strlit("EXTRACT");
    reveal_strlit("VIDEO-MP4");
    reveal_strlit("IMAGE-JPG");
    reveal_strlit("FINANCIAL-DECIMAL");
    reveal_strlit("AUDIO-WAV");
    reveal_strlit("CSV-TABLE");
    reveal_strlit("BINARY-BLOB");
    reveal_strlit("JSON-OBJECT");
    reveal_strlit("XML-DOCUMENT");
    reveal_strlit("PARQUET-TABLE");
    let name = data_type_name(d);
    assert(crate::lexer::is_ascii_text(name));
    assert(crate::lexer::ascii_capitals(name) =~= name);
    assert(keyword_token(name) == keyword_for_upper(name, name));
    match d {
        DataType::VideoMp4 => {
            assert(("VIDEO-MP4"@).len() != ("IDENTIFICATION"@).len());
            assert(("VIDEO-MP4"@).len() != ("ENVIRONMENT"@).len());
            assert(("VIDEO-MP4"@).len() != ("DATA"@).len());
            assert(("VIDEO-MP4"@)[0] != ("PROCEDURE"@)[0]);
            assert(("VIDEO-MP4"@).len() != ("DIVISION"@).len());
            assert(("VIDEO-MP4"@).len() != ("PROGRAM-ID"@).len());
            assert(("VIDEO-MP4"@).len() != ("AUTHOR"@).len());
            assert(("VIDEO-MP4"@).len() != ("VERSION"@).len());
            assert(("VIDEO-MP4"@).len() != ("OS"@).len());
            assert(("VIDEO-MP4"@).len() != ("ARCH"@).len());
            assert(("VIDEO-MP4"@).len() != ("RUNTIME-VERSION"@).len());
            assert(("VIDEO-MP4"@).len() != ("INPUT"@).len());
            assert(("VIDEO-MP4"@).len() != ("OUTPUT"@).len());
            assert(("VIDEO-MP4"@).len() != ("COMPRESS"@).len());
            assert(("VIDEO-MP4"@).len() != ("VERIFY-INTEGRITY"@).len());
            assert(("VIDEO-MP4"@)[0] != ("TRANSCODE"@)[0]);
            assert(("VIDEO-MP4"@).len() != ("FILTER"@).len());
            assert(("VIDEO-MP4"@)[0] != ("AGGREGATE"@)[0]);
            assert(("VIDEO-MP4"@).len() != ("CONVERT"@).len());
            assert(("VIDEO-MP4"@).len() != ("MERGE"@).len());
            assert(("VIDEO-MP4"@).len() != ("SPLIT"@).len());
            assert(("VIDEO-MP4"@).len() != ("VALIDATE"@).len());
            assert(("VIDEO-MP4"@).len() != ("EXTRACT"@).len());
            assert(keyword_for_upper(data_type_name(d), data_type_name(d)) == TokenView::VideoMp4);
        },
        DataType::ImageJpg => {
            assert(("IMAGE-JPG"@).len() != ("IDENTIFICATION"@).len());
            assert(("IMAGE-JPG"@).len() != ("ENVIRONMENT"@).len());
            assert(("IMAGE-JPG"@).len() != ("DATA"@).len());
            assert(("IMAGE-JPG"@)[0] != ("PROCEDURE"@)[0]);
            assert(("IMAGE-JPG"@).len() != ("DIVISION"@).len());
            assert(("IMAGE-JPG"@).len() != ("PROGRAM-ID"@).len());
            assert(("IMAGE-JPG"@).len() != ("AUTHOR"@).len());
            assert(("IMAGE-JPG"@).len() != ("VERSION"@).len());
            assert(("IMAGE-JPG"@).len() != ("OS"@).len());
            assert(("IMAGE-JPG"@).len() != ("ARCH"@).len());
            assert(("IMAGE-JPG"@).len() != ("RUNTIME-VERSION"@).len());
            assert(("IMAGE-JPG"@).len() != ("INPUT"@).len());
            assert(("IMAGE-JPG"@).len() != ("OUTPUT"@).len());
            assert(("IMAGE-JPG"@).len() != ("COMPRESS"@).len());
            assert(("IMAGE-JPG"@).len() != ("VERIFY-INTEGRITY"@).len());
            assert(("IMAGE-JPG"@)[0] != ("TRANSCODE"@)[0]);
            assert(("IMAGE-JPG"@).len() != ("FILTER"@).len());
            assert(("IMAGE-JPG"@)[0] != ("AGGREGATE"@)[0]);
            assert(("IMAGE-JPG"@).len() != ("CONVERT"@).len());
            assert(("IMAGE-JPG"@).len() != ("MERGE"@).len());
            assert(("IMAGE-JPG"@).len() != ("SPLIT"@).len());
            assert(("IMAGE-JPG"@).len() != ("VALIDATE"@).len());
            assert(("IMAGE-JPG"@).len() != ("EXTRACT"@).len());
            assert(("IMAGE-JPG"@)[0] != ("VIDEO-MP4"@)[0]);
            assert(keyword_for_upper(data_type_name(d), data_type_name(d)) == TokenView::ImageJpg);
        },
        DataType::FinancialDecimal => {
            assert(("FINANCIAL-DECIMAL"@).len() != ("IDENTIFICATION"@).len());
            assert(("FINANCIAL-DECIMAL"@).len() != ("ENVIRONMENT"@).len());
            assert(("FINANCIAL-DECIMAL"@).len() != ("DATA"@).len());
            assert(("FINANCIAL-DECIMAL"@).len() != ("PROCEDURE"@).len());
            assert(("FINANCIAL-DECIMAL"@).len() != ("DIVISION"@).len());
            assert(("FINANCIAL-DECIMAL"@).len() != ("PROGRAM-ID"@).len());
            assert(("FINANCIAL-DECIMAL"@).len() != ("AUTHOR"@).len());
            assert(("FINANCIAL-DECIMAL"@).len() != ("VERSION"@).len());
            assert(("FINANCIAL-DECIMAL"@).len() != ("OS"@).len());
            assert(("FINANCIAL-DECIMAL"@).len() != ("ARCH"@).len());
            assert(("FINANCIAL-DECIMAL"@).len() != ("RUNTIME-VERSION"@).len());
            assert(("FINANCIAL-DECIMAL"@).len() != ("INPUT"@).len());
            assert(("FINANCIAL-DECIMAL"@).len() != ("OUTPUT"@).len());
            assert(("FINANCIAL-DECIMAL"@).len() != ("COMPRESS"@).len());
            assert(("FINANCIAL-DECIMAL"@).len() != ("VERIFY-INTEGRITY"@).len());
            assert(("FINANCIAL-DECIMAL"@).len() != ("TRANSCODE"@).len());
            assert(("FINANCIAL-DECIMAL"@).len() != ("FILTER"@).len());
            assert(("FINANCIAL-DECIMAL"@).len() != ("AGGREGATE"@).len());
            assert(("FINANCIAL-DECIMAL"@).len() != ("CONVERT"@).len());
            assert(("FINANCIAL-DECIMAL"@).len() != ("MERGE"@).len());
            assert(("FINANCIAL-DECIMAL"@).len() != ("SPLIT"@).len());
            assert(("FINANCIAL-DECIMAL"@).len() != ("VALIDATE"@).len());
            assert(("FINANCIAL-DECIMAL"@).len() != ("EXTRACT"@).len());
            assert(("FINANCIAL-DECIMAL"@).len() != ("VIDEO-MP4"@).len());
            assert(("FINANCIAL-DECIMAL"@).len() != ("IMAGE-JPG"@).len());
            assert(keyword_for_upper(data_type_name(d), data_type_name(d)) == TokenView::FinancialDecimal);
        },
        DataType::AudioWav => {
            assert(("AUDIO-WAV"@).len() != ("IDENTIFICATION"@).len());
            assert(("AUDIO-WAV"@).len() != ("ENVIRONMENT"@).len());
            assert(("AUDIO-WAV"@).len() != ("DATA"@).len());
            assert(("AUDIO-WAV"@)[0] != ("PROCEDURE"@)[0]);
            assert(("AUDIO-WAV"@).len() != ("DIVISION"@).len());
            assert(("AUDIO-WAV"@).len() != ("PROGRAM-ID"@).len());
            assert(("AUDIO-WAV"@).len() != ("AUTHOR"@).len());
            assert(("AUDIO-WAV"@).len() != ("VERSION"@).len());
            assert(("AUDIO-WAV"@).len() != ("OS"@).len());
            assert(("AUDIO-WAV"@).len() != ("ARCH"@).len());
            assert(("AUDIO-WAV"@).len() != ("RUNTIME-VERSION"@).len());
            assert(("AUDIO-WAV"@).len() != ("INPUT"@).len());
            assert(("AUDIO-WAV"@).len() != ("OUTPUT"@).len());
            assert(("AUDIO-WAV"@).len() != ("COMPRESS"@).len());
            assert(("AUDIO-WAV"@).len() != ("VERIFY-INTEGRITY"@).len());
            assert(("AUDIO-WAV"@)[0] != ("TRANSCODE"@)[0]);
            assert(("AUDIO-WAV"@).len() != ("FILTER"@).len());
            assert(("AUDIO-WAV"@)[1] != ("AGGREGATE"@)[1]);
            assert(("AUDIO-WAV"@).len() != ("CONVERT"@).len());
            assert(("AUDIO-WAV"@).len() != ("MERGE"@).len());
            assert(("AUDIO-WAV"@).len() != ("SPLIT"@).len());
            assert(("AUDIO-WAV"@).len() != ("VALIDATE"@).len());
            assert(("AUDIO-WAV"@).len() != ("EXTRACT"@).len());
            assert(("AUDIO-WAV"@)[0] != ("VIDEO-MP4"@)[0]);
            assert(("AUDIO-WAV"@)[0] != ("IMAGE-JPG"@)[0]);
            assert(("AUDIO-WAV"@).len() != ("FINANCIAL-DECIMAL"@).len());
            assert(keyword_for_upper(data_type_name(d), data_type_name(d)) == TokenView::AudioWav);
        },
        DataType::CsvTable => {
            assert(("CSV-TABLE"@).len() != ("IDENTIFICATION"@).len());
            assert(("CSV-TABLE"@).len() != ("ENVIRONMENT"@).len());
            assert(("CSV-TABLE"@).len() != ("DATA"@).len());
            assert(("CSV-TABLE"@)[0] != ("PROCEDURE"@)[0]);
            assert(("CSV-TABLE"@).len() != ("DIVISION"@).len());
            assert(("CSV-TABLE"@).len() != ("PROGRAM-ID"@).len());
            assert(("CSV-TABLE"@).len() != ("AUTHOR"@).len());
            assert(("CSV-TABLE"@).len() != ("VERSION"@).len());
            assert(("CSV-TABLE"@).len() != ("OS"@).len());
            assert(("CSV-TABLE"@).len() != ("ARCH"@).len());
            assert(("CSV-TABLE"@).len() != ("RUNTIME-VERSION"@).len());
            assert(("CSV-TABLE"@).len() != ("INPUT"@).len());
            assert(("CSV-TABLE"@).len() != ("OUTPUT"@).len());
            assert(("CSV-TABLE"@).len() != ("COMPRESS"@).len());
            assert(("CSV-TABLE"@).len() != ("VERIFY-INTEGRITY"@).len());
            assert(("CSV-TABLE"@)[0] != ("TRANSCODE"@)[0]);
            assert(("CSV-TABLE"@).len() != ("FILTER"@).len());
            assert(("CSV-TABLE"@)[0] != ("AGGREGATE"@)[0]);
            assert(("CSV-TABLE"@).len() != ("CONVERT"@).len());
            assert(("CSV-TABLE"@).len() != ("MERGE"@).len());
            assert(("CSV-TABLE"@).len() != ("SPLIT"@).len());
            assert(("CSV-TABLE"@).len() != ("VALIDATE"@).len());
            assert(("CSV-TABLE"@).len() != ("EXTRACT"@).len());
            assert(("CSV-TABLE"@)[0] != ("VIDEO-MP4"@)[0]);
            assert(("CSV-TABLE"@)[0] != ("IMAGE-JPG"@)[0]);
            assert(("CSV-TABLE"@).len() != ("FINANCIAL-DECIMAL"@).len());
            assert(("CSV-TABLE"@)[0] != ("AUDIO-WAV"@)[0]);
            assert(keyword_for_upper(data_type_name(d), data_type_name(d)) == TokenView::CsvTable);
        },
        DataType::BinaryBlob => {
            assert(("BINARY-BLOB"@).len() != ("IDENTIFICATION"@).len());
            assert(("BINARY-BLOB"@)[0] != ("ENVIRONMENT"@)[0]);
            assert(("BINARY-BLOB"@).len() != ("DATA"@).len());
            assert(("BINARY-BLOB"@).len() != ("PROCEDURE"@).len());
            assert(("BINARY-BLOB"@).len() != ("DIVISION"@).len());
            assert(("BINARY-BLOB"@).len() != ("PROGRAM-ID"@).len());
            assert(("BINARY-BLOB"@).len() != ("AUTHOR"@).len());
            assert(("BINARY-BLOB"@).len() != ("VERSION"@).len());
            assert(("BINARY-BLOB"@).len() != ("OS"@).len());
            assert(("BINARY-BLOB"@).len() != ("ARCH"@).len());
            assert(("BINARY-BLOB"@).len() != ("RUNTIME-VERSION"@).len());
            assert(("BINARY-BLOB"@).len() != ("INPUT"@).len());
            assert(("BINARY-BLOB"@).len() != ("OUTPUT"@).len());
            assert(("BINARY-BLOB"@).len() != ("COMPRESS"@).len());
            assert(("BINARY-BLOB"@).len() != ("VERIFY-INTEGRITY"@).len());
            assert(("BINARY-BLOB"@).len() != ("TRANSCODE"@).len());
            assert(("BINARY-BLOB"@).len() != ("FILTER"@).len());
            assert(("BINARY-BLOB"@).len() != ("AGGREGATE"@).len());
            assert(("BINARY-BLOB"@).len() != ("CONVERT"@).len());
            assert(("BINARY-BLOB"@).len() != ("MERGE"@).len());
            assert(("BINARY-BLOB"@).len() != ("SPLIT"@).len());
            assert(("BINARY-BLOB"@).len() != ("VALIDATE"@).len());
            assert(("BINARY-BLOB"@).len() != ("EXTRACT"@).len());
            assert(("BINARY-BLOB"@).len() != ("VIDEO-MP4"@).len());
            assert(("BINARY-BLOB"@).len() != ("IMAGE-JPG"@).len());
            assert(("BINARY-BLOB"@).len() != ("FINANCIAL-DECIMAL"@).len());
            assert(("BINARY-BLOB"@).len() != ("AUDIO-WAV"@).len());
            assert(("BINARY-BLOB"@).len() != ("CSV-TABLE"@).len());
            assert(keyword_for_upper(data_type_name(d), data_type_name(d)) == TokenView::BinaryBlob);
        },
        DataType::JsonObject => {
            assert(("JSON-OBJECT"@).len() != ("IDENTIFICATION"@).len());
            assert(("JSON-OBJECT"@)[0] != ("ENVIRONMENT"@)[0]);
            assert(("JSON-OBJECT"@).len() != ("DATA"@).len());
            assert(("JSON-OBJECT"@).len() != ("PROCEDURE"@).len());
            assert(("JSON-OBJECT"@).len() != ("DIVISION"@).len());
            assert(("JSON-OBJECT"@).len() != ("PROGRAM-ID"@).len());
            assert(("JSON-OBJECT"@).len() != ("AUTHOR"@).len());
            assert(("JSON-OBJECT"@).len() != ("VERSION"@).len());
            assert(("JSON-OBJECT"@).len() != ("OS"@).len());
            assert(("JSON-OBJECT"@).len() != ("ARCH"@).len());
            assert(("JSON-OBJECT"@).len() != ("RUNTIME-VERSION"@).len());
            assert(("JSON-OBJECT"@).len() != ("INPUT"@).len());
            assert(("JSON-OBJECT"@).len() != ("OUTPUT"@).len());
            assert(("JSON-OBJECT"@).len() != ("COMPRESS"@).len());
            assert(("JSON-OBJECT"@).len() != ("VERIFY-INTEGRITY"@).len());
            assert(("JSON-OBJECT"@).len() != ("TRANSCODE"@).len());
            assert(("JSON-OBJECT"@).len() != ("FILTER"@).len());
            assert(("JSON-OBJECT"@).len() != ("AGGREGATE"@).len());
            assert(("JSON-OBJECT"@).len() != ("CONVERT"@).len());
            assert(("JSON-OBJECT"@).len() != ("MERGE"@).len());
            assert(("JSON-OBJECT"@).len() != ("SPLIT"@).len());
            assert(("JSON-OBJECT"@).len() != ("VALIDATE"@).len());
            assert(("JSON-OBJECT"@).len() != ("EXTRACT"@).len());
            assert(("JSON-OBJECT"@).len() != ("VIDEO-MP4"@).len());
            assert(("JSON-OBJECT"@).len() != ("IMAGE-JPG"@).len());
            assert(("JSON-OBJECT"@).len() != ("FINANCIAL-DECIMAL"@).len());
            assert(("JSON-OBJECT"@).len() != ("AUDIO-WAV"@).len());
            assert(("JSON-OBJECT"@).len() != ("CSV-TABLE"@).len());
            assert(("JSON-OBJECT"@)[0] != ("BINARY-BLOB"@)[0]);
            assert(keyword_for_upper(data_type_name(d), data_type_name(d)) == TokenView::JsonObject);
        },
        DataType::XmlDocument => {
            assert(("XML-DOCUMENT"@).len() != ("IDENTIFICATION"@).len());
            assert(("XML-DOCUMENT"@).len() != ("ENVIRONMENT"@).len());
            assert(("XML-DOCUMENT"@).len() != ("DATA"@).len());
            assert(("XML-DOCUMENT"@).len() != ("PROCEDURE"@).len());
            assert(("XML-DOCUMENT"@).len() != ("DIVISION"@).len());
            assert(("XML-DOCUMENT"@).len() != ("PROGRAM-ID"@).len());
            assert(("XML-DOCUMENT"@).len() != ("AUTHOR"@).len());
            assert(("XML-DOCUMENT"@).len() != ("VERSION"@).len());
            assert(("XML-DOCUMENT"@).len() != ("OS"@).len());
            assert(("XML-DOCUMENT"@).len() != ("ARCH"@).len());
            assert(("XML-DOCUMENT"@).len() != ("RUNTIME-VERSION"@).len());
            assert(("XML-DOCUMENT"@).len() != ("INPUT"@).len());
            assert(("XML-DOCUMENT"@).len() != ("OUTPUT"@).len());
            assert(("XML-DOCUMENT"@).len() != ("COMPRESS"@).len());
            assert(("XML-DOCUMENT"@).len() != ("VERIFY-INTEGRITY"@).len());
            assert(("XML-DOCUMENT"@).len() != ("TRANSCODE"@).len());
            assert(("XML-DOCUMENT"@).len() != ("FILTER"@).len());
            assert(("XML-DOCUMENT"@).len() != ("AGGREGATE"@).len());
            assert(("XML-DOCUMENT"@).len() != ("CONVERT"@).len());
            assert(("XML-DOCUMENT"@).len() != ("MERGE"@).len());
            assert(("XML-DOCUMENT"@).len() != ("SPLIT"@).len());
            assert(("XML-DOCUMENT"@).len() != ("VALIDATE"@).len());
            assert(("XML-DOCUMENT"@).len() != ("EXTRACT"@).len());
            assert(("XML-DOCUMENT"@).len() != ("VIDEO-MP4"@).len());
            assert(("XML-DOCUMENT"@).len() != ("IMAGE-JPG"@).len());
            assert(("XML-DOCUMENT"@).len() != ("FINANCIAL-DECIMAL"@).len());
            assert(("XML-DOCUMENT"@).len() != ("AUDIO-WAV"@).len());
            assert(("XML-DOCUMENT"@).len() != ("CSV-TABLE"@).len());
            assert(("XML-DOCUMENT"@).len() != ("BINARY-BLOB"@).len());
            assert(("XML-DOCUMENT"@).len() != ("JSON-OBJECT"@).len());
            assert(keyword_for_upper(data_type_name(d), data_type_name(d)) == TokenView::XmlDocument);
        },
        DataType::ParquetTable => {
            assert(("PARQUET-TABLE"@).len() != ("IDENTIFICATION"@).len());
            assert(("PARQUET-TABLE"@).len() != ("ENVIRONMENT"@).len());
            assert(("PARQUET-TABLE"@).len() != ("DATA"@).len());
            assert(("PARQUET-TABLE"@).len() != ("PROCEDURE"@).len());
            assert(("PARQUET-TABLE"@).len() != ("DIVISION"@).len());
            assert(("PARQUET-TABLE"@).len() != ("PROGRAM-ID"@).len());
            assert(("PARQUET-TABLE"@).len() != ("AUTHOR"@).len());
            assert(("PARQUET-TABLE"@).len() != ("VERSION"@).len());
            assert(("PARQUET-TABLE"@).len() != ("OS"@).len());
            assert(("PARQUET-TABLE"@).len() != ("ARCH"@).len());
            assert(("PARQUET-TABLE"@).len() != ("RUNTIME-VERSION"@).len());
            assert(("PARQUET-TABLE"@).len() != ("INPUT"@).len());
            assert(("PARQUET-TABLE"@).len() != ("OUTPUT"@).len());
            assert(("PARQUET-TABLE"@).len() != ("COMPRESS"@).len());
            assert(("PARQUET-TABLE"@).len() != ("VERIFY-INTEGRITY"@).len());
            assert(("PARQUET-TABLE"@).len() != ("TRANSCODE"@).len());
            assert(("PARQUET-TABLE"@).len() != ("FILTER"@).len());
            assert(("PARQUET-TABLE"@).len() != ("AGGREGATE"@).len());
            assert(("PARQUET-TABLE"@).len() != ("CONVERT"@).len());
            assert(("PARQUET-TABLE"@).len() != ("MERGE"@).len());
            assert(("PARQUET-TABLE"@).len() != ("SPLIT"@).len());
            assert(("PARQUET-TABLE"@).len() != ("VALIDATE"@).len());
            assert(("PARQUET-TABLE"@).len() != ("EXTRACT"@).len());
            assert(("PARQUET-TABLE"@).len() != ("VIDEO-MP4"@).len());
            assert(("PARQUET-TABLE"@).len() != ("IMAGE-JPG"@).len());
            assert(("PARQUET-TABLE"@).len() != ("FINANCIAL-DECIMAL"@).len());
            assert(("PARQUET-TABLE"@).len() != ("AUDIO-WAV"@).len());
            assert(("PARQUET-TABLE"@).len() != ("CSV-TABLE"@).len());
            assert(("PARQUET-TABLE"@).len() != ("BINARY-BLOB"@).len());
            assert(("PARQUET-TABLE"@).len() != ("JSON-OBJECT"@).len());
            assert(("PARQUET-TABLE"@).len() != ("XML-DOCUMENT"@).len());
            assert(keyword_for_upper(data_type_name(d), data_type_name(d)) == TokenView::ParquetTable);
        },
    }
}

/// A token sequence whose first token is not the IDENTIFICATION heading is
/// rejected with the division order message, which names the heading that
/// was expected, the token that was found and the required order.
pub proof fn law_first_division_must_be_identification(toks: Seq<TokenView>)
    requires
        toks.len() > 0,
        !(toks[0] is IdentificationDiv),
    ensures
        parse_tokens(toks) == Err::<crate::ast::ProgramView, Seq<char>>(
            division_order_message("IDENTIFICATION DIVISION"@, toks[0]),
        ),
{
}

/// Every variable that a parsed program declares is named by the spelling
/// of its type, and every setting of its ENVIRONMENT DIVISION is `OS`,
/// `ARCH` or `RUNTIME-VERSION`.
pub proof fn law_parsed_declarations(toks: Seq<TokenView>)
    requires
        parse_tokens(toks) is Ok,
    ensures
        named_by_type(parse_tokens(toks)->Ok_0.data),
        known_keys(parse_tokens(toks)->Ok_0.environment),
{
    let empty = IdentificationView { program_id: Seq::empty(), author: None, version: None };
    let (_, q1) = identification_at(toks, 0)->Ok_0;
    lemma_identification_body_stops(toks, 3, empty);
    lemma_environment_body_stops(toks, q1 + 3, Map::empty());
    let (_, q2) = environment_at(toks, q1)->Ok_0;
    lemma_data_body_stops(toks, q2 + 3, Seq::empty());
}

// ---------------------------------------------------------------------------
// Pipeline
// ---------------------------------------------------------------------------

proof fn lemma_first_undeclared_name_none(vars: Seq<VariableView>, names: Seq<Seq<char>>)
    requires
        first_undeclared_name(vars, names) is None,
    ensures
        forall|j: int| 0 <= j < names.len() ==> is_declared(vars, #[trigger] names[j]),
    decreases names.len(),
{
    if names.len() > 0 {
        lemma_first_undeclared_name_none(vars, names.drop_first());
        assert forall|j: int| 0 <= j < names.len() implies is_declared(vars, #[trigger] names[j]) by {
            if j > 0 {
                assert(names[j] == names.drop_first()[j - 1]);
            }
        }
    }
}

proof fn lemma_first_undeclared_none(vars: Seq<VariableView>, stmts: Seq<StatementView>)
    requires
        first_undeclared(vars, stmts) is None,
    ensures
        forall|i: int, j: int|
            0 <= i < stmts.len() && 0 <= j < statement_targets(stmts[i]).len() ==> is_declared(
                vars,
                #[trigger] statement_targets(#[trigger] stmts[i])[j],
            ),
    decreases stmts.len(),
{
    if stmts.len() > 0 {
        lemma_first_undeclared_name_none(vars, statement_targets(stmts[0]));
        lemma_first_undeclared_none(vars, stmts.drop_first());
        assert forall|i: int, j: int|
            0 <= i < stmts.len() && 0 <= j < statement_targets(stmts[i]).len() implies is_declared(
                vars,
                #[trigger] statement_targets(#[trigger] stmts[i])[j],
            ) by {
            if i > 0 {
                assert(stmts[i] == stmts.drop_first()[i - 1]);
            }
        }
    }
}

/// A successful compilation yields one instruction per statement, in
/// statement order, and every variable that a statement reads is declared
/// in the DATA DIVISION.
pub proof fn law_compiled_program_is_checked(s: Seq<char>)
    requires
        compile_source(s) is Ok,
    ensures
        ({
            let prog = parse_tokens(lex(s)->Ok_0)->Ok_0;
            let is = compile_source(s)->Ok_0;
            &&& lex(s) is Ok
            &&& parse_tokens(lex(s)->Ok_0) is Ok
            &&& is.len() == prog.procedure.len()
            &&& forall|i: int| 0 <= i < is.len() ==> #[trigger] is[i] == lower_statement(prog.procedure[i])
            &&& forall|i: int, j: int|
                0 <= i < prog.procedure.len() && 0 <= j < statement_targets(prog.procedure[i]).len()
                    ==> is_declared(prog.data, #[trigger] statement_targets(#[trigger] prog.procedure[i])[j])
        }),
{
    let prog = parse_tokens(lex(s)->Ok_0)->Ok_0;
    lemma_first_undeclared_none(prog.data, prog.procedure);
}

/// Determinism: identical source texts compile to identical results.
pub proof fn law_compile_deterministic(s1: Seq<char>, s2: Seq<char>)
    requires
        s1 == s2,
    ensures
        compile_source(s1) == compile_source(s2),
{
}

// ---------------------------------------------------------------------------
// Language server
// ---------------------------------------------------------------------------

proof fn lemma_dispatch_did_open(docs: Map<Seq<char>, Seq<char>>, p: Option<ParamsView>)
    ensures
        request_outcome(docs, "textDocument/didOpen"@, p) == did_open_outcome(docs, p),
{
    reveal_strlit("initialize");
    reveal_strlit("textDocument/didOpen");
    assert(("initialize"@).len() == 10);
    assert(("textDocument/didOpen"@).len() == 20);
}

proof fn lemma_dispatch_did_change(docs: Map<Seq<char>, Seq<char>>, p: Option<ParamsView>)
    ensures
        request_outcome(docs, "textDocument/didChange"@, p) == crate::handler::did_change_outcome(docs, p),
{
    reveal_strlit("initialize");
    reveal_strlit("textDocument/didOpen");
    reveal_strlit("textDocument/didChange");
    assert(("initialize"@).len() == 10);
    assert(("textDocument/didOpen"@).len() == 20);
    assert(("textDocument/didChange"@).len() == 22);
}

proof fn lemma_dispatch_did_close(docs: Map<Seq<char>, Seq<char>>, p: Option<ParamsView>)
    ensures
        request_outcome(docs, "textDocument/didClose"@, p) == did_close_outcome(docs, p),
{
    reveal_strlit("initialize");
    reveal_strlit("textDocument/didOpen");
    reveal_strlit("textDocument/didChange");
    reveal_strlit("textDocument/didClose");
    assert(("initialize"@).len() == 10);
    assert(("textDocument/didOpen"@).len() == 20);
    assert(("textDocument/didChange"@).len() == 22);
    assert(("textDocument/didClose"@).len() == 21);
}

proof fn lemma_dispatch_hover(docs: Map<Seq<char>, Seq<char>>, p: Option<ParamsView>)
    ensures
        request_outcome(docs, "textDocument/hover"@, p) == hover_outcome(docs, p),
{
    reveal_strlit("initialize");
    reveal_strlit("textDocument/didOpen");
    reveal_strlit("textDocument/didChange");
    reveal_strlit("textDocument/didClose");
    reveal_strlit("textDocument/hover");
    assert(("initialize"@).len() == 10);
    assert(("textDocument/didOpen"@).len() == 20);
    assert(("textDocument/didChange"@).len() == 22);
    assert(("textDocument/didClose"@).len() == 21);
    assert(("textDocument/hover"@).len() == 18);
}

/// A hover on a document answers from the text that the last `didOpen` of
/// that document stored.
pub proof fn law_hover_reads_opened_text(
    docs: Map<Seq<char>, Seq<char>>,
    open: ParamsView,
    hover: ParamsView,
)
    requires
        open.uri is Some,
        open.text is Some,
        hover.uri == open.uri,
        hover.line is Some,
        hover.character is Some,
    ensures
        request_outcome(
            request_outcome(docs, "textDocument/didOpen"@, Some(open)).documents,
            "textDocument/hover"@,
            Some(hover),
        ).result == Ok::<ReplyView, Seq<char>>(
            ReplyView::Hover(hover_text(open.text->Some_0, hover.line->Some_0, hover.character->Some_0)),
        ),
{
    lemma_dispatch_did_open(docs, Some(open));
    let d2 = request_outcome(docs, "textDocument/didOpen"@, Some(open)).documents;
    lemma_dispatch_hover(d2, Some(hover));
}

/// Full synchronisation: after a `didChange` whose last content change
/// holds a text, a hover on the document answers from that text, whatever
/// the document held before.
pub proof fn law_hover_reads_changed_text(
    docs: Map<Seq<char>, Seq<char>>,
    change: ParamsView,
    hover: ParamsView,
)
    requires
        change.uri is Some,
        change.content_changes matches Some(cs) && cs.len() > 0 && cs.last() is Some,
        hover.uri == change.uri,
        hover.line is Some,
        hover.character is Some,
    ensures
        request_outcome(
            request_outcome(docs, "textDocument/didChange"@, Some(change)).documents,
            "textDocument/hover"@,
            Some(hover),
        ).result == Ok::<ReplyView, Seq<char>>(
            ReplyView::Hover(
                hover_text(
                    change.content_changes->Some_0.last()->Some_0,
                    hover.line->Some_0,
                    hover.character->Some_0,
                ),
            ),
        ),
{
    lemma_dispatch_did_change(docs, Some(change));
    let d2 = request_outcome(docs, "textDocument/didChange"@, Some(change)).documents;
    lemma_dispatch_hover(d2, Some(hover));
}

/// After `didClose` of a document, a hover on it reports that the document
/// is not found.
pub proof fn law_closed_document_not_found(
    docs: Map<Seq<char>, Seq<char>>,
    close: ParamsView,
    hover: ParamsView,
)
    requires
        close.uri is Some,
        hover.uri == close.uri,
    ensures
        request_outcome(
            request_outcome(docs, "textDocument/didClose"@, Some(close)).documents,
            "textDocument/hover"@,
            Some(hover),
        ).result == Err::<ReplyView, Seq<char>>("Document not found"@),
{
    lemma_dispatch_did_close(docs, Some(close));
    let d2 = request_outcome(docs, "textDocument/didClose"@, Some(close)).documents;
    lemma_dispatch_hover(d2, Some(hover));
}

/// Only `didOpen`, `didChange` and `didClose` change the open documents or
/// publish diagnostics; every other request leaves them as they were.
pub proof fn law_other_requests_keep_documents(
    docs: Map<Seq<char>, Seq<char>>,
    method: Seq<char>,
    p: Option<ParamsView>,
)
    requires
        method != "textDocument/didOpen"@,
        method != "textDocument/didChange"@,
        method != "textDocument/didClose"@,
    ensures
        request_outcome(docs, method, p).documents == docs,
        request_outcome(docs, method, p).publish is None,
{
}

proof fn lemma_occurrences_valid(r: Seq<char>, w: Seq<char>, i: nat)
    ensures
        forall|k: int| 0 <= k < occurrences_from(r, w, i).len() ==> {
            let q = #[trigger] occurrences_from(r, w, i)[k];
            &&& i <= q <= r.len()
            &&& (w.len() == 0 || occurs_at(r, w, q as int))
        },
    decreases r.len() + 1 - i,
{
    if i <= r.len() {
        if w.len() == 0 {
            lemma_occurrences_valid(r, w, i + 1);
            let o = occurrences_from(r, w, i);
            assert forall|k: int| 0 <= k < o.len() implies {
                let q = #[trigger] o[k];
                &&& i <= q <= r.len()
                &&& (w.len() == 0 || occurs_at(r, w, q as int))
            } by {
                if k > 0 {
                    assert(o[k] == occurrences_from(r, w, i + 1)[k - 1]);
                }
            }
        } else if occurs_at(r, w, i as int) {
            lemma_occurrences_valid(r, w, i + w.len());
            let o = occurrences_from(r, w, i);
            assert forall|k: int| 0 <= k < o.len() implies {
                let q = #[trigger] o[k];
                &&& i <= q <= r.len()
                &&& (w.len() == 0 || occurs_at(r, w, q as int))
            } by {
                if k > 0 {
                    assert(o[k] == occurrences_from(r, w, i + w.len())[k - 1]);
                }
            }
        } else {
            lemma_occurrences_valid(r, w, i + 1);
        }
    }
}

/// Whether a byte range lies within its line of `ls` and spans `width` bytes.
pub open spec fn range_in_line(ls: Seq<Seq<char>>, r: RangeView, width: nat) -> bool {
    &&& r.line < ls.len()
    &&& r.start <= r.end <= byte_len(ls[r.line as int])
    &&& r.end - r.start == width
}

proof fn lemma_ranges_in_lines_valid(ls: Seq<Seq<char>>, w: Seq<char>)
    ensures
        forall|k: int| 0 <= k < ranges_in_lines(ls, w).len() ==> range_in_line(
            ls,
            #[trigger] ranges_in_lines(ls, w)[k],
            byte_len(w),
        ),
    decreases ls.len(),
{
    if ls.len() > 0 {
        let before = ls.drop_last();
        let ln = (ls.len() - 1) as nat;
        let r = ls.last();
        lemma_ranges_in_lines_valid(before, w);
        lemma_occurrences_valid(r, w, 0);
        let first = ranges_in_lines(before, w);
        let last = ranges_in_line(r, ln, w);
        let all = ranges_in_lines(ls, w);
        assert(all == first + last);
        assert forall|k: int| 0 <= k < all.len() implies range_in_line(ls, #[trigger] all[k], byte_len(w)) by {
            if k < first.len() {
                assert(all[k] == first[k]);
                assert(range_in_line(before, first[k], byte_len(w)));
                assert(ls[first[k].line as int] == before[first[k].line as int]);
            } else {
                let j = k - first.len();
                assert(all[k] == last[j]);
                let q = occurrences_from(r, w, 0)[j];
                assert(last[j] == RangeView {
                    line: ln,
                    start: byte_len(r.take(q as int)),
                    end: byte_len(r.take(q as int)) + byte_len(w),
                });
                crate::handler::lemma_occurrence_bytes(r, w, q as int);
                assert(ls[ln as int] == r);
            }
        }
    }
}

/// Every reference found lies within its line of the document and spans
/// exactly the bytes of the word at the requested position.
pub proof fn law_references_within_lines(doc: Seq<char>, line: nat, character: nat)
    ensures
        forall|k: int| 0 <= k < references_of(doc, line, character).len() ==> range_in_line(
            lines_of(doc),
            #[trigger] references_of(doc, line, character)[k],
            byte_len(word_at(lines_of(doc)[line as int], character)),
        ),
{
    let ls = lines_of(doc);
    if line < ls.len() && character <= byte_len(ls[line as int]) {
        lemma_ranges_in_lines_valid(ls, word_at(ls[line as int], character));
    }
}

proof fn lemma_matching_symbols(symbols: Seq<(Seq<char>, nat)>, q: Seq<char>)
    ensures
        forall|k: int| 0 <= k < matching_symbols(symbols, q).len() ==> {
            let found = #[trigger] matching_symbols(symbols, q)[k];
            &&& symbols.contains(found)
            &&& contains_text(lowercase(found.0), q)
        },
    decreases symbols.len(),
{
    if symbols.len() > 0 {
        let before = symbols.drop_last();
        lemma_matching_symbols(before, q);
        let m = matching_symbols(symbols, q);
        assert forall|k: int| 0 <= k < m.len() implies {
            let found = #[trigger] m[k];
            &&& symbols.contains(found)
            &&& contains_text(lowercase(found.0), q)
        } by {
            let mb = matching_symbols(before, q);
            if k < mb.len() {
                assert(m[k] == mb[k]);
                let j = choose|j: int| 0 <= j < before.len() && before[j] == mb[k];
                assert(symbols[j] == before[j]);
            } else {
                assert(m[k] == symbols.last());
                assert(symbols[symbols.len() - 1] == symbols.last());
            }
        }
    }
}

/// A workspace search finds only predefined symbols, and each one's
/// lower-case name holds the lower-case query.
pub proof fn law_workspace_symbols_match(query: Seq<char>)
    ensures
        forall|k: int| 0 <= k < matching_symbols(predefined_symbols(), lowercase(query)).len() ==> {
            let found = #[trigger] matching_symbols(predefined_symbols(), lowercase(query))[k];
            &&& predefined_symbols().contains(found)
            &&& contains_text(lowercase(found.0), lowercase(query))
        },
{
    lemma_matching_symbols(predefined_symbols(), lowercase(query));
}

proof fn lemma_line_symbols(ls: Seq<Seq<char>>)
    ensures
        forall|k: int| 0 <= k < line_symbols(ls).len() ==> {
            let sym = #[trigger] line_symbols(ls)[k];
            &&& sym.line < ls.len()
            &&& contains_text(ls[sym.line as int], sym.name)
            &&& sym.length == byte_len(ls[sym.line as int])
        },
        forall|a: int, b: int| 0 <= a < b < line_symbols(ls).len() ==> #[trigger] line_symbols(ls)[a].line
            < #[trigger] line_symbols(ls)[b].line,
    decreases ls.len(),
{
    if ls.len() > 0 {
        let before = ls.drop_last();
        lemma_line_symbols(before);
        let sb = line_symbols(before);
        let all = line_symbols(ls);
        assert forall|k: int| 0 <= k < all.len() implies {
            let sym = #[trigger] all[k];
            &&& sym.line < ls.len()
            &&& contains_text(ls[sym.line as int], sym.name)
            &&& sym.length == byte_len(ls[sym.line as int])
        } by {
            if k < sb.len() {
                assert(all[k] == sb[k]);
                assert(ls[sb[k].line as int] == before[sb[k].line as int]);
            } else {
                assert(ls[ls.len() - 1] == ls.last());
            }
        }
        assert forall|a: int, b: int| 0 <= a < b < all.len() implies #[trigger] all[a].line < #[trigger] all[b].line by {
            if b < sb.len() {
                assert(all[a] == sb[a] && all[b] == sb[b]);
            } else {
                assert(all[a] == sb[a]);
            }
        }
    }
}

/// Each document symbol names a division heading that its line holds, gives
/// that line's length in bytes, and the symbols come in line order.
pub proof fn law_document_symbols_in_order(doc: Seq<char>)
    ensures
        forall|k: int| 0 <= k < line_symbols(lines_of(doc)).len() ==> {
            let sym = #[trigger] line_symbols(lines_of(doc))[k];
            &&& sym.line < lines_of(doc).len()
            &&& contains_text(lines_of(doc)[sym.line as int], sym.name)
            &&& sym.length == byte_len(lines_of(doc)[sym.line as int])
        },
        forall|a: int, b: int| 0 <= a < b < line_symbols(lines_of(doc)).len() ==> #[trigger] line_symbols(
            lines_of(doc),
        )[a].line < #[trigger] line_symbols(lines_of(doc))[b].line,
{
    lemma_line_symbols(lines_of(doc));
}

// ---------------------------------------------------------------------------
// Statements follow their keywords
// ---------------------------------------------------------------------------

/// The keyword that opens a statement of each kind.
pub open spec fn statement_keyword(s: StatementView) -> TokenView {
    match s {
        StatementView::Compress { .. } => TokenView::Compress,
        StatementView::VerifyIntegrity { .. } => TokenView::VerifyIntegrity,
        StatementView::Transcode { .. } => TokenView::Transcode,
        StatementView::Filter { .. } => TokenView::Filter,
        StatementView::Aggregate { .. } => TokenView::Aggregate,
        StatementView::Convert { .. } => TokenView::Convert,
        StatementView::Merge { .. } => TokenView::Merge,
        StatementView::Split { .. } => TokenView::Split,
        StatementView::Validate { .. } => TokenView::Validate,
        StatementView::Extract { .. } => TokenView::Extract,
    }
}

/// The kind of a parsed statement is the one its keyword names: a statement
/// read at a position is of the kind opened by the token there.
pub proof fn law_statement_kind_follows_keyword(toks: Seq<TokenView>, pos: nat)
    ensures
        statement_at(toks, pos) matches Ok((st, _)) ==> pos < toks.len() && toks[pos as int] == statement_keyword(st),
{
}

/// Every statement of a parsed program is of the kind its keyword names:
/// the keywords of the statements, in order, are the keyword tokens of the
/// PROCEDURE DIVISION read from where its statements begin.
pub proof fn law_procedure_statements_follow_keywords(toks: Seq<TokenView>, pos: nat, stmts: Seq<StatementView>)
    requires
        pos <= toks.len(),
    ensures
        procedure_body(toks, pos, stmts) matches Ok((all, _)) ==> all.len() >= stmts.len() && (forall|k: int|
            0 <= k < stmts.len() ==> #[trigger] all[k] == stmts[k]) && forall|k: int|
            stmts.len() <= k < all.len() ==> exists|p: int|
                pos <= p < toks.len() && #[trigger] toks[p] == statement_keyword(#[trigger] all[k]),
    decreases toks.len() - pos,
{
    if !(cur(toks, pos) is Eof) {
        if let Ok((st, p)) = statement_at(toks, pos) {
            crate::parser::lemma_statement_at(toks, pos);
            law_statement_kind_follows_keyword(toks, pos);
            law_procedure_statements_follow_keywords(toks, p, stmts.push(st));
            if let Ok((all, _)) = procedure_body(toks, p, stmts.push(st)) {
                assert forall|k: int| stmts.len() <= k < all.len() implies exists|q: int|
                    pos <= q < toks.len() && #[trigger] toks[q] == statement_keyword(#[trigger] all[k]) by {
                    if k == stmts.len() {
                        assert(all[k] == stmts.push(st)[k]);
                        assert(stmts.push(st)[k] == st);
                        assert(toks[pos as int] == statement_keyword(all[k]));
                    }
                }
            }
        }
    }
}

// ---------------------------------------------------------------------------
// Occurrences, references and rename
// ---------------------------------------------------------------------------

/// Whether index `q` lies within one of the occurrences that start at the
/// indices `o`, each `n` long.
pub open spec fn covered_by(o: Seq<nat>, q: int, n: nat) -> bool {
    exists|k: int| 0 <= k < o.len() && #[trigger] o[k] <= q && q < o[k] + n
}

proof fn lemma_occurrences_complete(r: Seq<char>, w: Seq<char>, i: nat)
    requires
        w.len() > 0,
    ensures
        forall|k: int| 0 <= k < occurrences_from(r, w, i).len() - 1 ==> #[trigger] occurrences_from(r, w, i)[k] + w.len()
            <= occurrences_from(r, w, i)[k + 1],
        forall|q: int| i <= q && #[trigger] occurs_at(r, w, q) ==> covered_by(occurrences_from(r, w, i), q, w.len()),
    decreases r.len() + 1 - i,
{
    let o = occurrences_from(r, w, i);
    if i <= r.len() {
        if occurs_at(r, w, i as int) {
            let j = i + w.len();
            lemma_occurrences_complete(r, w, j);
            lemma_occurrences_valid(r, w, j);
            let o2 = occurrences_from(r, w, j);
            assert(o == seq![i] + o2);
            assert forall|k: int| 0 <= k < o.len() - 1 implies #[trigger] o[k] + w.len() <= o[k + 1] by {
                assert(o[k + 1] == o2[k]);
                if k > 0 {
                    assert(o[k] == o2[k - 1]);
                }
            }
            assert forall|q: int| i <= q && #[trigger] occurs_at(r, w, q) implies covered_by(o, q, w.len()) by {
                if q < j {
                    assert(o[0] == i);
                } else {
                    let k = choose|k: int| 0 <= k < o2.len() && #[trigger] o2[k] <= q && q < o2[k] + w.len();
                    assert(o[k + 1] == o2[k]);
                }
            }
        } else {
            lemma_occurrences_complete(r, w, i + 1);
            assert(o == occurrences_from(r, w, i + 1));
            assert forall|q: int| i <= q && #[trigger] occurs_at(r, w, q) implies covered_by(o, q, w.len()) by {
                assert(q != i);
            }
        }
    }
}

/// The occurrences of a non-empty word in a line are found as
/// `str::match_indices` finds them: each reported index starts an
/// occurrence, each starts after the previous one ends, and every
/// occurrence in the line is reported or lies within a reported one that
/// starts before it.
pub proof fn law_occurrences_are_leftmost_matches(r: Seq<char>, w: Seq<char>)
    requires
        w.len() > 0,
    ensures
        forall|k: int| 0 <= k < occurrences_from(r, w, 0).len() ==> occurs_at(r, w, #[trigger] occurrences_from(r, w, 0)[k] as int),
        forall|k: int| 0 <= k < occurrences_from(r, w, 0).len() - 1 ==> #[trigger] occurrences_from(r, w, 0)[k] + w.len()
            <= occurrences_from(r, w, 0)[k + 1],
        forall|q: int| #[trigger] occurs_at(r, w, q) ==> covered_by(occurrences_from(r, w, 0), q, w.len()),
{
    lemma_occurrences_valid(r, w, 0);
    lemma_occurrences_complete(r, w, 0);
}

/// Whether the ranges report, on line `k`, an occurrence of `w` that starts
/// at or before index `q` and reaches past it.
pub open spec fn reports(refs: Seq<RangeView>, ls: Seq<Seq<char>>, w: Seq<char>, k: int, q: int) -> bool {
    exists|j: int, p: int|
        0 <= j < refs.len() && p <= q < p + w.len() && #[trigger] occurs_at(ls[k], w, p) && #[trigger] refs[j]
            == RangeView { line: k as nat, start: byte_len(ls[k].take(p)), end: byte_len(ls[k].take(p)) + byte_len(w) }
}

proof fn lemma_ranges_in_lines_complete(ls: Seq<Seq<char>>, w: Seq<char>)
    requires
        w.len() > 0,
    ensures
        forall|k: int, q: int|
            0 <= k < ls.len() && #[trigger] occurs_at(ls[k], w, q) ==> reports(ranges_in_lines(ls, w), ls, w, k, q),
    decreases ls.len(),
{
    if ls.len() > 0 {
        let before = ls.drop_last();
        let ln = (ls.len() - 1) as nat;
        let r = ls.last();
        lemma_ranges_in_lines_complete(before, w);
        law_occurrences_are_leftmost_matches(r, w);
        let first = ranges_in_lines(before, w);
        let last = ranges_in_line(r, ln, w);
        let all = ranges_in_lines(ls, w);
        let o = occurrences_from(r, w, 0);
        assert(all == first + last);
        assert forall|k: int, q: int| 0 <= k < ls.len() && #[trigger] occurs_at(ls[k], w, q) implies reports(
            all,
            ls,
            w,
            k,
            q,
        ) by {
            if k < before.len() {
                assert(ls[k] == before[k]);
                assert(reports(first, before, w, k, q));
                let (j, p) = choose|j: int, p: int|
                    0 <= j < first.len() && p <= q < p + w.len() && #[trigger] occurs_at(before[k], w, p)
                        && #[trigger] first[j] == RangeView {
                        line: k as nat,
                        start: byte_len(before[k].take(p)),
                        end: byte_len(before[k].take(p)) + byte_len(w),
                    };
                assert(all[j] == first[j]);
            } else {
                assert(ls[k] == r);
                assert(covered_by(o, q, w.len()));
                let kk = choose|kk: int| 0 <= kk < o.len() && #[trigger] o[kk] <= q && q < o[kk] + w.len();
                let p = o[kk] as int;
                assert(occurs_at(r, w, p));
                assert(all[first.len() + kk] == last[kk]);
            }
        }
    }
}

/// References cover every line: for a non-empty word at the requested
/// position, every occurrence of it on any line of the document is
/// reported, or lies within a reported occurrence on that line.
pub proof fn law_references_cover_every_line(doc: Seq<char>, line: nat, character: nat)
    requires
        line < lines_of(doc).len(),
        character <= byte_len(lines_of(doc)[line as int]),
        word_at(lines_of(doc)[line as int], character).len() > 0,
    ensures
        forall|k: int, q: int|
            0 <= k < lines_of(doc).len() && #[trigger] occurs_at(
                lines_of(doc)[k],
                word_at(lines_of(doc)[line as int], character),
                q,
            ) ==> reports(
                references_of(doc, line, character),
                lines_of(doc),
                word_at(lines_of(doc)[line as int], character),
                k,
                q,
            ),
{
    let ls = lines_of(doc);
    let w = word_at(ls[line as int], character);
    assert(references_of(doc, line, character) == ranges_in_lines(ls, w));
    lemma_ranges_in_lines_complete(ls, w);
}

proof fn lemma_dispatch_references(docs: Map<Seq<char>, Seq<char>>, p: Option<ParamsView>)
    ensures
        request_outcome(docs, "textDocument/references"@, p) == crate::handler::references_outcome(docs, p),
        request_outcome(docs, "textDocument/rename"@, p) == crate::handler::rename_outcome(docs, p),
{
    reveal_strlit("initialize");
    reveal_strlit("textDocument/didOpen");
    reveal_strlit("textDocument/didChange");
    reveal_strlit("textDocument/didClose");
    reveal_strlit("textDocument/hover");
    reveal_strlit("textDocument/completion");
    reveal_strlit("textDocument/definition");
    reveal_strlit("textDocument/references");
    reveal_strlit("textDocument/rename");
    assert(("textDocument/references"@).len() == 23);
    assert(("textDocument/rename"@).len() == 19);
    assert(("initialize"@).len() == 10);
    assert(("textDocument/didOpen"@).len() == 20);
    assert(("textDocument/didChange"@).len() == 22);
    assert(("textDocument/didClose"@).len() == 21);
    assert(("textDocument/hover"@).len() == 18);
    assert(("textDocument/completion"@).len() == 23);
    assert(("textDocument/definition"@).len() == 23);
    assert(("textDocument/references"@)[13] != ("textDocument/completion"@)[13]);
    assert(("textDocument/references"@)[13] != ("textDocument/definition"@)[13]);
}

/// A rename edits exactly the references: where a rename at a position of a
/// document gives edits, a references request with the same parameters
/// gives the same ranges, and where the position is out of range the rename
/// changes nothing and no references are found.
pub proof fn law_rename_edits_every_reference(docs: Map<Seq<char>, Seq<char>>, p: ParamsView)
    requires
        p.new_name is Some,
    ensures
        request_outcome(docs, "textDocument/rename"@, Some(p)).result matches Ok(ReplyView::Rename { uri, new_name, ranges })
            ==> new_name == p.new_name->Some_0 && request_outcome(docs, "textDocument/references"@, Some(p)).result
            == Ok::<ReplyView, Seq<char>>(ReplyView::References { uri, ranges }),
        request_outcome(docs, "textDocument/rename"@, Some(p)).result matches Ok(ReplyView::RenameNoChanges)
            ==> request_outcome(docs, "textDocument/references"@, Some(p)).result matches Ok(
            ReplyView::References { ranges, .. },
        ) && ranges.len() == 0,
{
    lemma_dispatch_references(docs, Some(p));
}

// ---------------------------------------------------------------------------
// Document symbols are complete
// ---------------------------------------------------------------------------

/// The four division headings.
pub open spec fn division_headings() -> Seq<Seq<char>> {
    seq!["IDENTIFICATION DIVISION"@, "ENVIRONMENT DIVISION"@, "DATA DIVISION"@, "PROCEDURE DIVISION"@]
}

proof fn lemma_line_symbols_complete(ls: Seq<Seq<char>>)
    ensures
        forall|k: int, h: int|
            0 <= k < ls.len() && 0 <= h < 4 && #[trigger] contains_text(ls[k], #[trigger] division_headings()[h])
                ==> exists|j: int| 0 <= j < line_symbols(ls).len() && #[trigger] line_symbols(ls)[j].line == k,
        forall|j: int| 0 <= j < line_symbols(ls).len() ==> division_headings().contains(#[trigger] line_symbols(ls)[j].name),
    decreases ls.len(),
{
    if ls.len() > 0 {
        let before = ls.drop_last();
        lemma_line_symbols_complete(before);
        let sb = line_symbols(before);
        let all = line_symbols(ls);
        let hs = division_headings();
        assert forall|k: int, h: int|
            0 <= k < ls.len() && 0 <= h < 4 && #[trigger] contains_text(ls[k], #[trigger] hs[h]) implies exists|j: int|
                0 <= j < all.len() && #[trigger] all[j].line == k by {
            if k < before.len() {
                assert(ls[k] == before[k]);
                let j = choose|j: int| 0 <= j < sb.len() && #[trigger] sb[j].line == k;
                assert(all[j] == sb[j]);
            } else {
                assert(ls[k] == ls.last());
                assert(line_symbol(ls.last()) is Some);
                assert(all[sb.len() as int].line == k);
            }
        }
        assert forall|j: int| 0 <= j < all.len() implies hs.contains(#[trigger] all[j].name) by {
            if j < sb.len() {
                assert(all[j] == sb[j]);
            } else {
                let n = line_symbol(ls.last())->Some_0;
                assert(all[j].name == n);
                if n == hs[0] {
                } else if n == hs[1] {
                    assert(hs[1] == n);
                } else if n == hs[2] {
                    assert(hs[2] == n);
                } else {
                    assert(hs[3] == n);
                }
            }
        }
    }
}

/// Document symbols are complete: every line of a document that holds one
/// of the four division headings has a symbol, and every symbol names one
/// of the four headings.
pub proof fn law_document_symbols_complete(doc: Seq<char>)
    ensures
        forall|k: int, h: int|
            0 <= k < lines_of(doc).len() && 0 <= h < 4 && #[trigger] contains_text(
                lines_of(doc)[k],
                #[trigger] division_headings()[h],
            ) ==> exists|j: int|
                0 <= j < line_symbols(lines_of(doc)).len() && #[trigger] line_symbols(lines_of(doc))[j].line == k,
        forall|j: int|
            0 <= j < line_symbols(lines_of(doc)).len() ==> division_headings().contains(
                #[trigger] line_symbols(lines_of(doc))[j].name,
            ),
{
    lemma_line_symbols_complete(lines_of(doc));
}

// ---------------------------------------------------------------------------
// The keyword table
// ---------------------------------------------------------------------------

/// The keywords of the language: each spelling with its token.
pub open spec fn keyword_spellings() -> Seq<(Seq<char>, TokenView)> {
    seq![
        ("IDENTIFICATION"@, TokenView::IdentificationDiv),
        ("ENVIRONMENT"@, TokenView::EnvironmentDiv),
        ("DATA"@, TokenView::DataDiv),
        ("PROCEDURE"@, TokenView::ProcedureDiv),
        ("DIVISION"@, TokenView::Division),
        ("PROGRAM-ID"@, TokenView::ProgramId),
        ("AUTHOR"@, TokenView::Author),
        ("VERSION"@, TokenView::Version),
        ("OS"@, TokenView::Os),
        ("ARCH"@, TokenView::Arch),
        ("RUNTIME-VERSION"@, TokenView::RuntimeVersion),
        ("INPUT"@, TokenView::Input),
        ("OUTPUT"@, TokenView::Output),
        ("COMPRESS"@, TokenView::Compress),
        ("VERIFY-INTEGRITY"@, TokenView::VerifyIntegrity),
        ("TRANSCODE"@, TokenView::Transcode),
        ("FILTER"@, TokenView::Filter),
        ("AGGREGATE"@, TokenView::Aggregate),
        ("CONVERT"@, TokenView::Convert),
        ("MERGE"@, TokenView::Merge),
        ("SPLIT"@, TokenView::Split),
        ("VALIDATE"@, TokenView::Validate),
        ("EXTRACT"@, TokenView::Extract),
        ("VIDEO-MP4"@, TokenView::VideoMp4),
        ("IMAGE-JPG"@, TokenView::ImageJpg),
        ("FINANCIAL-DECIMAL"@, TokenView::FinancialDecimal),
        ("AUDIO-WAV"@, TokenView::AudioWav),
        ("CSV-TABLE"@, TokenView::CsvTable),
        ("BINARY-BLOB"@, TokenView::BinaryBlob),
        ("JSON-OBJECT"@, TokenView::JsonObject),
        ("XML-DOCUMENT"@, TokenView::XmlDocument),
        ("PARQUET-TABLE"@, TokenView::ParquetTable),
    ]
}

/// Whether a text is one word of the lexer: it starts with a letter, digit
/// or `_`, and goes on with letters, digits, `_` and `-`.
pub open spec fn is_word_text(s: Seq<char>) -> bool {
    &&& s.len() > 0
    &&& is_word_start(s[0])
    &&& forall|i: int| 0 <= i < s.len() ==> is_word_char(#[trigger] s[i])
}

proof fn lemma_word_end_whole(s: Seq<char>, i: nat)
    requires
        is_word_text(s),
        i <= s.len(),
    ensures
        word_end(s, i) == s.len(),
    decreases s.len() - i,
{
    if i < s.len() {
        lemma_word_end_whole(s, i + 1);
    }
}

/// A text that is one word lexes to that word's token followed by `Eof`.
pub proof fn law_word_lexes_to_its_token(w: Seq<char>)
    requires
        is_word_text(w),
    ensures
        lex(w) == Ok::<Seq<TokenView>, Seq<char>>(seq![keyword_token(w), TokenView::Eof]),
{
    lemma_word_end_whole(w, 0);
    assert(w.subrange(0, w.len() as int) =~= w);
    assert(lex_from(w, w.len(), 1, (1 + w.len()) as nat) == Ok::<Seq<TokenView>, Seq<char>>(seq![TokenView::Eof]));
    assert(is_word_start(w[0]));
    assert(lex_from(w, 0, 1, 1) == prepend(keyword_token(w), lex_from(w, w.len(), 1, (1 + w.len()) as nat)));
    assert(seq![keyword_token(w)] + seq![TokenView::Eof] =~= seq![keyword_token(w), TokenView::Eof]);
}

proof fn lemma_keyword_0()
    ensures
        forall|w: Seq<char>| #[trigger] keyword_for_upper("IDENTIFICATION"@, w) == TokenView::IdentificationDiv,
        upper_form("IDENTIFICATION"@) == "IDENTIFICATION"@,
        is_word_text("IDENTIFICATION"@),
{
    reveal_strlit("IDENTIFICATION");
    assert(crate::lexer::is_ascii_text("IDENTIFICATION"@));
    assert(crate::lexer::ascii_capitals("IDENTIFICATION"@) =~= "IDENTIFICATION"@);
}

proof fn lemma_keyword_1()
    ensures
        forall|w: Seq<char>| #[trigger] keyword_for_upper("ENVIRONMENT"@, w) == TokenView::EnvironmentDiv,
        upper_form("ENVIRONMENT"@) == "ENVIRONMENT"@,
        is_word_text("ENVIRONMENT"@),
{
    reveal_strlit("ENVIRONMENT");
    reveal_strlit("IDENTIFICATION");
    assert(("ENVIRONMENT"@).len() != ("IDENTIFICATION"@).len());
    assert(crate::lexer::is_ascii_text("ENVIRONMENT"@));
    assert(crate::lexer::ascii_capitals("ENVIRONMENT"@) =~= "ENVIRONMENT"@);
}

proof fn lemma_keyword_2()
    ensures
        forall|w: Seq<char>| #[trigger] keyword_for_upper("DATA"@, w) == TokenView::DataDiv,
        upper_form("DATA"@) == "DATA"@,
        is_word_text("DATA"@),
{
    reveal_strlit("DATA");
    reveal_strlit("IDENTIFICATION");
    reveal_strlit("ENVIRONMENT");
    assert(("DATA"@).len() != ("IDENTIFICATION"@).len());
    assert(("DATA"@).len() != ("ENVIRONMENT"@).len());
    assert(crate::lexer::is_ascii_text("DATA"@));
    assert(crate::lexer::ascii_capitals("DATA"@) =~= "DATA"@);
}

proof fn lemma_keyword_3()
    ensures
        forall|w: Seq<char>| #[trigger] keyword_for_upper("PROCEDURE"@, w) == TokenView::ProcedureDiv,
        upper_form("PROCEDURE"@) == "PROCEDURE"@,
        is_word_text("PROCEDURE"@),
{
    reveal_strlit("PROCEDURE");
    reveal_strlit("IDENTIFICATION");
    reveal_strlit("ENVIRONMENT");
    reveal_strlit("DATA");
    assert(("PROCEDURE"@).len() != ("IDENTIFICATION"@).len());
    assert(("PROCEDURE"@).len() != ("ENVIRONMENT"@).len());
    assert(("PROCEDURE"@).len() != ("DATA"@).len());
    assert(crate::lexer::is_ascii_text("PROCEDURE"@));
    assert(crate::lexer::ascii_capitals("PROCEDURE"@) =~= "PROCEDURE"@);
}

proof fn lemma_keyword_4()
    ensures
        forall|w: Seq<char>| #[trigger] keyword_for_upper("DIVISION"@, w) == TokenView::Division,
        upper_form("DIVISION"@) == "DIVISION"@,
        is_word_text("DIVISION"@),
{
    reveal_strlit("DIVISION");
    reveal_strlit("IDENTIFICATION");
    reveal_strlit("ENVIRONMENT");
    reveal_strlit("DATA");
    reveal_strlit("PROCEDURE");
    assert(("DIVISION"@).len() != ("IDENTIFICATION"@).len());
    assert(("DIVISION"@).len() != ("ENVIRONMENT"@).len());
    assert(("DIVISION"@).len() != ("DATA"@).len());
    assert(("DIVISION"@).len() != ("PROCEDURE"@).len());
    assert(crate::lexer::is_ascii_text("DIVISION"@));
    assert(crate::lexer::ascii_capitals("DIVISION"@) =~= "DIVISION"@);
}

proof fn lemma_keyword_5()
    ensures
        forall|w: Seq<char>| #[trigger] keyword_for_upper("PROGRAM-ID"@, w) == TokenView::ProgramId,
        upper_form("PROGRAM-ID"@) == "PROGRAM-ID"@,
        is_word_text("PROGRAM-ID"@),
{
    reveal_strlit("PROGRAM-ID");
    reveal_strlit("IDENTIFICATION");
    reveal_strlit("ENVIRONMENT");
    reveal_strlit("DATA");
    reveal_strlit("PROCEDURE");
    reveal_strlit("DIVISION");
    assert(("PROGRAM-ID"@).len() != ("IDENTIFICATION"@).len());
    assert(("PROGRAM-ID"@).len() != ("ENVIRONMENT"@).len());
    assert(("PROGRAM-ID"@).len() != ("DATA"@).len());
    assert(("PROGRAM-ID"@).len() != ("PROCEDURE"@).len());
    assert(("PROGRAM-ID"@).len() != ("DIVISION"@).len());
    assert(crate::lexer::is_ascii_text("PROGRAM-ID"@));
    assert(crate::lexer::ascii_capitals("PROGRAM-ID"@) =~= "PROGRAM-ID"@);
}

proof fn lemma_keyword_6()
    ensures
        forall|w: Seq<char>| #[trigger] keyword_for_upper("AUTHOR"@, w) == TokenView::Author,
        upper_form("AUTHOR"@) == "AUTHOR"@,
        is_word_text("AUTHOR"@),
{
    reveal_strlit("AUTHOR");
    reveal_strlit("IDENTIFICATION");
    reveal_strlit("ENVIRONMENT");
    reveal_strlit("DATA");
    reveal_strlit("PROCEDURE");
    reveal_strlit("DIVISION");
    reveal_strlit("PROGRAM-ID");
    assert(("AUTHOR"@).len() != ("IDENTIFICATION"@).len());
    assert(("AUTHOR"@).len() != ("ENVIRONMENT"@).len());
    assert(("AUTHOR"@).len() != ("DATA"@).len());
    assert(("AUTHOR"@).len() != ("PROCEDURE"@).len());
    assert(("AUTHOR"@).len() != ("DIVISION"@).len());
    assert(("AUTHOR"@).len() != ("PROGRAM-ID"@).len());
    assert(crate::lexer::is_ascii_text("AUTHOR"@));
    assert(crate::lexer::ascii_capitals("AUTHOR"@) =~= "AUTHOR"@);
}

proof fn lemma_keyword_7()
    ensures
        forall|w: Seq<char>| #[trigger] keyword_for_upper("VERSION"@, w) == TokenView::Version,
        upper_form("VERSION"@) == "VERSION"@,
        is_word_text("VERSION"@),
{
    reveal_strlit("VERSION");
    reveal_strlit("IDENTIFICATION");
    reveal_strlit("ENVIRONMENT");
    reveal_strlit("DATA");
    reveal_strlit("PROCEDURE");
    reveal_strlit("DIVISION");
    reveal_strlit("PROGRAM-ID");
    reveal_strlit("AUTHOR");
    assert(("VERSION"@).len() != ("IDENTIFICATION"@).len());
    assert(("VERSION"@).len() != ("ENVIRONMENT"@).len());
    assert(("VERSION"@).len() != ("DATA"@).len());
    assert(("VERSION"@).len() != ("PROCEDURE"@).len());
    assert(("VERSION"@).len() != ("DIVISION"@).len());
    assert(("VERSION"@).len() != ("PROGRAM-ID"@).len());
    assert(("VERSION"@).len() != ("AUTHOR"@).len());
    assert(crate::lexer::is_ascii_text("VERSION"@));
    assert(crate::lexer::ascii_capitals("VERSION"@) =~= "VERSION"@);
}

proof fn lemma_keyword_8()
    ensures
        forall|w: Seq<char>| #[trigger] keyword_for_upper("OS"@, w) == TokenView::Os,
        upper_form("OS"@) == "OS"@,
        is_word_text("OS"@),
{
    reveal_strlit("OS");
    reveal_strlit("IDENTIFICATION");
    reveal_strlit("ENVIRONMENT");
    reveal_strlit("DATA");
    reveal_strlit("PROCEDURE");
    reveal_strlit("DIVISION");
    reveal_strlit("PROGRAM-ID");
    reveal_strlit("AUTHOR");
    reveal_strlit("VERSION");
    assert(("OS"@).len() != ("IDENTIFICATION"@).len());
    assert(("OS"@).len() != ("ENVIRONMENT"@).len());
    assert(("OS"@).len() != ("DATA"@).len());
    assert(("OS"@).len() != ("PROCEDURE"@).len());
    assert(("OS"@).len() != ("DIVISION"@).len());
    assert(("OS"@).len() != ("PROGRAM-ID"@).len());
    assert(("OS"@).len() != ("AUTHOR"@).len());
    assert(("OS"@).len() != ("VERSION"@).len());
    assert(crate::lexer::is_ascii_text("OS"@));
    assert(crate::lexer::ascii_capitals("OS"@) =~= "OS"@);
}

proof fn lemma_keyword_9()
    ensures
        forall|w: Seq<char>| #[trigger] keyword_for_upper("ARCH"@, w) == TokenView::Arch,
        upper_form("ARCH"@) == "ARCH"@,
        is_word_text("ARCH"@),
{
    reveal_strlit("ARCH");
    reveal_strlit("IDENTIFICATION");
    reveal_strlit("ENVIRONMENT");
    reveal_strlit("DATA");
    reveal_strlit("PROCEDURE");
    reveal_strlit("DIVISION");
    reveal_strlit("PROGRAM-ID");
    reveal_strlit("AUTHOR");
    reveal_strlit("VERSION");
    reveal_strlit("OS");
    assert(("ARCH"@).len() != ("IDENTIFICATION"@).len());
    assert(("ARCH"@).len() != ("ENVIRONMENT"@).len());
    assert(("ARCH"@)[0] != ("DATA"@)[0]);
    assert(("ARCH"@).len() != ("PROCEDURE"@).len());
    assert(("ARCH"@).len() != ("DIVISION"@).len());
    assert(("ARCH"@).len() != ("PROGRAM-ID"@).len());
    assert(("ARCH"@).len() != ("AUTHOR"@).len());
    assert(("ARCH"@).len() != ("VERSION"@).len());
    assert(("ARCH"@).len() != ("OS"@).len());
    assert(crate::lexer::is_ascii_text("ARCH"@));
    assert(crate::lexer::ascii_capitals("ARCH"@) =~= "ARCH"@);
}

proof fn lemma_keyword_10()
    ensures
        forall|w: Seq<char>| #[trigger] keyword_for_upper("RUNTIME-VERSION"@, w) == TokenView::RuntimeVersion,
        upper_form("RUNTIME-VERSION"@) == "RUNTIME-VERSION"@,
        is_word_text("RUNTIME-VERSION"@),
{
    reveal_strlit("RUNTIME-VERSION");
    reveal_strlit("IDENTIFICATION");
    reveal_strlit("ENVIRONMENT");
    reveal_strlit("DATA");
    reveal_strlit("PROCEDURE");
    reveal_strlit("DIVISION");
    reveal_strlit("PROGRAM-ID");
    reveal_strlit("AUTHOR");
    reveal_strlit("VERSION");
    reveal_strlit("OS");
    reveal_strlit("ARCH");
    assert(("RUNTIME-VERSION"@).len() != ("IDENTIFICATION"@).len());
    assert(("RUNTIME-VERSION"@).len() != ("ENVIRONMENT"@).len());
    assert(("RUNTIME-VERSION"@).len() != ("DATA"@).len());
    assert(("RUNTIME-VERSION"@).len() != ("PROCEDURE"@).len());
    assert(("RUNTIME-VERSION"@).len() != ("DIVISION"@).len());
    assert(("RUNTIME-VERSION"@).len() != ("PROGRAM-ID"@).len());
    assert(("RUNTIME-VERSION"@).len() != ("AUTHOR"@).len());
    assert(("RUNTIME-VERSION"@).len() != ("VERSION"@).len());
    assert(("RUNTIME-VERSION"@).len() != ("OS"@).len());
    assert(("RUNTIME-VERSION"@).len() != ("ARCH"@).len());
    assert(crate::lexer::is_ascii_text("RUNTIME-VERSION"@));
    assert(crate::lexer::ascii_capitals("RUNTIME-VERSION"@) =~= "RUNTIME-VERSION"@);
}

proof fn lemma_keyword_11()
    ensures
        forall|w: Seq<char>| #[trigger] keyword_for_upper("INPUT"@, w) == TokenView::Input,
        upper_form("INPUT"@) == "INPUT"@,
        is_word_text("INPUT"@),
{
    reveal_strlit("INPUT");
    reveal_strlit("IDENTIFICATION");
    reveal_strlit("ENVIRONMENT");
    reveal_strlit("DATA");
    reveal_strlit("PROCEDURE");
    reveal_strlit("DIVISION");
    reveal_strlit("PROGRAM-ID");
    reveal_strlit("AUTHOR");
    reveal_strlit("VERSION");
    reveal_strlit("OS");
    reveal_strlit("ARCH");
    reveal_strlit("RUNTIME-VERSION");
    assert(("INPUT"@).len() != ("IDENTIFICATION"@).len());
    assert(("INPUT"@).len() != ("ENVIRONMENT"@).len());
    assert(("INPUT"@).len() != ("DATA"@).len());
    assert(("INPUT"@).len() != ("PROCEDURE"@).len());
    assert(("INPUT"@).len() != ("DIVISION"@).len());
    assert(("INPUT"@).len() != ("PROGRAM-ID"@).len());
    assert(("INPUT"@).len() != ("AUTHOR"@).len());
    assert(("INPUT"@).len() != ("VERSION"@).len());
    assert(("INPUT"@).len() != ("OS"@).len());
    assert(("INPUT"@).len() != ("ARCH"@).len());
    assert(("INPUT"@).len() != ("RUNTIME-VERSION"@).len());
    assert(crate::lexer::is_ascii_text("INPUT"@));
    assert(crate::lexer::ascii_capitals("INPUT"@) =~= "INPUT"@);
}

proof fn lemma_keyword_12()
    ensures
        forall|w: Seq<char>| #[trigger] keyword_for_upper("OUTPUT"@, w) == TokenView::Output,
        upper_form("OUTPUT"@) == "OUTPUT"@,
        is_word_text("OUTPUT"@),
{
    reveal_strlit("OUTPUT");
    reveal_strlit("IDENTIFICATION");
    reveal_strlit("ENVIRONMENT");
    reveal_strlit("DATA");
    reveal_strlit("PROCEDURE");
    reveal_strlit("DIVISION");
    reveal_strlit("PROGRAM-ID");
    reveal_strlit("AUTHOR");
    reveal_strlit("VERSION");
    reveal_strlit("OS");
    reveal_strlit("ARCH");
    reveal_strlit("RUNTIME-VERSION");
    reveal_strlit("INPUT");
    assert(("OUTPUT"@).len() != ("IDENTIFICATION"@).len());
    assert(("OUTPUT"@).len() != ("ENVIRONMENT"@).len());
    assert(("OUTPUT"@).len() != ("DATA"@).len());
    assert(("OUTPUT"@).len() != ("PROCEDURE"@).len());
    assert(("OUTPUT"@).len() != ("DIVISION"@).len());
    assert(("OUTPUT"@).len() != ("PROGRAM-ID"@).len());
    assert(("OUTPUT"@)[0] != ("AUTHOR"@)[0]);
    assert(("OUTPUT"@).len() != ("VERSION"@).len());
    assert(("OUTPUT"@).len() != ("OS"@).len());
    assert(("OUTPUT"@).len() != ("ARCH"@).len());
    assert(("OUTPUT"@).len() != ("RUNTIME-VERSION"@).len());
    assert(("OUTPUT"@).len() != ("INPUT"@).len());
    assert(crate::lexer::is_ascii_text("OUTPUT"@));
    assert(crate::lexer::ascii_capitals("OUTPUT"@) =~= "OUTPUT"@);
}

proof fn lemma_keyword_13()
    ensures
        forall|w: Seq<char>| #[trigger] keyword_for_upper("COMPRESS"@, w) == TokenView::Compress,
        upper_form("COMPRESS"@) == "COMPRESS"@,
        is_word_text("COMPRESS"@),
{
    reveal_strlit("COMPRESS");
    reveal_strlit("IDENTIFICATION");
    reveal_strlit("ENVIRONMENT");
    reveal_strlit("DATA");
    reveal_strlit("PROCEDURE");
    reveal_strlit("DIVISION");
    reveal_strlit("PROGRAM-ID");
    reveal_strlit("AUTHOR");
    reveal_strlit("VERSION");
    reveal_strlit("OS");
    reveal_strlit("ARCH");
    reveal_strlit("RUNTIME-VERSION");
    reveal_strlit("INPUT");
    reveal_strlit("OUTPUT");
    assert(("COMPRESS"@).len() != ("IDENTIFICATION"@).len());
    assert(("COMPRESS"@).len() != ("ENVIRONMENT"@).len());
    assert(("COMPRESS"@).len() != ("DATA"@).len());
    assert(("COMPRESS"@).len() != ("PROCEDURE"@).len());
    assert(("COMPRESS"@)[0] != ("DIVISION"@)[0]);
    assert(("COMPRESS"@).len() != ("PROGRAM-ID"@).len());
    assert(("COMPRESS"@).len() != ("AUTHOR"@).len());
    assert(("COMPRESS"@).len() != ("VERSION"@).len());
    assert(("COMPRESS"@).len() != ("OS"@).len());
    assert(("COMPRESS"@).len() != ("ARCH"@).len());
    assert(("COMPRESS"@).len() != ("RUNTIME-VERSION"@).len());
    assert(("COMPRESS"@).len() != ("INPUT"@).len());
    assert(("COMPRESS"@).len() != ("OUTPUT"@).len());
    assert(crate::lexer::is_ascii_text("COMPRESS"@));
    assert(crate::lexer::ascii_capitals("COMPRESS"@) =~= "COMPRESS"@);
}

proof fn lemma_keyword_14()
    ensures
        forall|w: Seq<char>| #[trigger] keyword_for_upper("VERIFY-INTEGRITY"@, w) == TokenView::VerifyIntegrity,
        upper_form("VERIFY-INTEGRITY"@) == "VERIFY-INTEGRITY"@,
        is_word_text("VERIFY-INTEGRITY"@),
{
    reveal_strlit("VERIFY-INTEGRITY");
    reveal_strlit("IDENTIFICATION");
    reveal_strlit("ENVIRONMENT");
    reveal_strlit("DATA");
    reveal_strlit("PROCEDURE");
    reveal_strlit("DIVISION");
    reveal_strlit("PROGRAM-ID");
    reveal_strlit("AUTHOR");
    reveal_strlit("VERSION");
    reveal_strlit("OS");
    reveal_strlit("ARCH");
    reveal_strlit("RUNTIME-VERSION");
    reveal_strlit("INPUT");
    reveal_strlit("OUTPUT");
    reveal_strlit("COMPRESS");
    assert(("VERIFY-INTEGRITY"@).len() != ("IDENTIFICATION"@).len());
    assert(("VERIFY-INTEGRITY"@).len() != ("ENVIRONMENT"@).len());
    assert(("VERIFY-INTEGRITY"@).len() != ("DATA"@).len());
    assert(("VERIFY-INTEGRITY"@).len() != ("PROCEDURE"@).len());
    assert(("VERIFY-INTEGRITY"@).len() != ("DIVISION"@).len());
    assert(("VERIFY-INTEGRITY"@).len() != ("PROGRAM-ID"@).len());
    assert(("VERIFY-INTEGRITY"@).len() != ("AUTHOR"@).len());
    assert(("VERIFY-INTEGRITY"@).len() != ("VERSION"@).len());
    assert(("VERIFY-INTEGRITY"@).len() != ("OS"@).len());
    assert(("VERIFY-INTEGRITY"@).len() != ("ARCH"@).len());
    assert(("VERIFY-INTEGRITY"@).len() != ("RUNTIME-VERSION"@).len());
    assert(("VERIFY-INTEGRITY"@).len() != ("INPUT"@).len());
    assert(("VERIFY-INTEGRITY"@).len() != ("OUTPUT"@).len());
    assert(("VERIFY-INTEGRITY"@).len() != ("COMPRESS"@).len());
    assert(crate::lexer::is_ascii_text("VERIFY-INTEGRITY"@));
    assert(crate::lexer::ascii_capitals("VERIFY-INTEGRITY"@) =~= "VERIFY-INTEGRITY"@);
}

proof fn lemma_keyword_15()
    ensures
        forall|w: Seq<char>| #[trigger] keyword_for_upper("TRANSCODE"@, w) == TokenView::Transcode,
        upper_form("TRANSCODE"@) == "TRANSCODE"@,
        is_word_text("TRANSCODE"@),
{
    reveal_strlit("TRANSCODE");
    reveal_strlit("IDENTIFICATION");
    reveal_strlit("ENVIRONMENT");
    reveal_strlit("DATA");
    reveal_strlit("PROCEDURE");
    reveal_strlit("DIVISION");
    reveal_strlit("PROGRAM-ID");
    reveal_strlit("AUTHOR");
    reveal_strlit("VERSION");
    reveal_strlit("OS");
    reveal_strlit("ARCH");
    reveal_strlit("RUNTIME-VERSION");
    reveal_strlit("INPUT");
    reveal_strlit("OUTPUT");
    reveal_strlit("COMPRESS");
    reveal_strlit("VERIFY-INTEGRITY");
    assert(("TRANSCODE"@).len() != ("IDENTIFICATION"@).len());
    assert(("TRANSCODE"@).len() != ("ENVIRONMENT"@).len());
    assert(("TRANSCODE"@).len() != ("DATA"@).len());
    assert(("TRANSCODE"@)[0] != ("PROCEDURE"@)[0]);
    assert(("TRANSCODE"@).len() != ("DIVISION"@).len());
    assert(("TRANSCODE"@).len() != ("PROGRAM-ID"@).len());
    assert(("TRANSCODE"@).len() != ("AUTHOR"@).len());
    assert(("TRANSCODE"@).len() != ("VERSION"@).len());
    assert(("TRANSCODE"@).len() != ("OS"@).len());
    assert(("TRANSCODE"@).len() != ("ARCH"@).len());
    assert(("TRANSCODE"@).len() != ("RUNTIME-VERSION"@).len());
    assert(("TRANSCODE"@).len() != ("INPUT"@).len());
    assert(("TRANSCODE"@).len() != ("OUTPUT"@).len());
    assert(("TRANSCODE"@).len() != ("COMPRESS"@).len());
    assert(("TRANSCODE"@).len() != ("VERIFY-INTEGRITY"@).len());
    assert(crate::lexer::is_ascii_text("TRANSCODE"@));
    assert(crate::lexer::ascii_capitals("TRANSCODE"@) =~= "TRANSCODE"@);
}

proof fn lemma_keyword_16()
    ensures
        forall|w: Seq<char>| #[trigger] keyword_for_upper("FILTER"@, w) == TokenView::Filter,
        upper_form("FILTER"@) == "FILTER"@,
        is_word_text("FILTER"@),
{
    reveal_strlit("FILTER");
    reveal_strlit("IDENTIFICATION");
    reveal_strlit("ENVIRONMENT");
    reveal_strlit("DATA");
    reveal_strlit("PROCEDURE");
    reveal_strlit("DIVISION");
    reveal_strlit("PROGRAM-ID");
    reveal_strlit("AUTHOR");
    reveal_strlit("VERSION");
    reveal_strlit("OS");
    reveal_strlit("ARCH");
    reveal_strlit("RUNTIME-VERSION");
    reveal_strlit("INPUT");
    reveal_strlit("OUTPUT");
    reveal_strlit("COMPRESS");
    reveal_strlit("VERIFY-INTEGRITY");
    reveal_strlit("TRANSCODE");
    assert(("FILTER"@).len() != ("IDENTIFICATION"@).len());
    assert(("FILTER"@).len() != ("ENVIRONMENT"@).len());
    assert(("FILTER"@).len() != ("DATA"@).len());
    assert(("FILTER"@).len() != ("PROCEDURE"@).len());
    assert(("FILTER"@).len() != ("DIVISION"@).len());
    assert(("FILTER"@).len() != ("PROGRAM-ID"@).len());
    assert(("FILTER"@)[0] != ("AUTHOR"@)[0]);
    assert(("FILTER"@).len() != ("VERSION"@).len());
    assert(("FILTER"@).len() != ("OS"@).len());
    assert(("FILTER"@).len() != ("ARCH"@).len());
    assert(("FILTER"@).len() != ("RUNTIME-VERSION"@).len());
    assert(("FILTER"@).len() != ("INPUT"@).len());
    assert(("FILTER"@)[0] != ("OUTPUT"@)[0]);
    assert(("FILTER"@).len() != ("COMPRESS"@).len());
    assert(("FILTER"@).len() != ("VERIFY-INTEGRITY"@).len());
    assert(("FILTER"@).len() != ("TRANSCODE"@).len());
    assert(crate::lexer::is_ascii_text("FILTER"@));
    assert(crate::lexer::ascii_capitals("FILTER"@) =~= "FILTER"@);
}

proof fn lemma_keyword_17()
    ensures
        forall|w: Seq<char>| #[trigger] keyword_for_upper("AGGREGATE"@, w) == TokenView::Aggregate,
        upper_form("AGGREGATE"@) == "AGGREGATE"@,
        is_word_text("AGGREGATE"@),
{
    reveal_strlit("AGGREGATE");
    reveal_strlit("IDENTIFICATION");
    reveal_strlit("ENVIRONMENT");
    reveal_strlit("DATA");
    reveal_strlit("PROCEDURE");
    reveal_strlit("DIVISION");
    reveal_strlit("PROGRAM-ID");
    reveal_strlit("AUTHOR");
    reveal_strlit("VERSION");
    reveal_strlit("OS");
    reveal_strlit("ARCH");
    reveal_strlit("RUNTIME-VERSION");
    reveal_strlit("INPUT");
    reveal_strlit("OUTPUT");
    reveal_strlit("COMPRESS");
    reveal_strlit("VERIFY-INTEGRITY");
    reveal_strlit("TRANSCODE");
    reveal_strlit("FILTER");
    assert(("AGGREGATE"@).len() != ("IDENTIFICATION"@).len());
    assert(("AGGREGATE"@).len() != ("ENVIRONMENT"@).len());
    assert(("AGGREGATE"@).len() != ("DATA"@).len());
    assert(("AGGREGATE"@)[0] != ("PROCEDURE"@)[0]);
    assert(("AGGREGATE"@).len() != ("DIVISION"@).len());
    assert(("AGGREGATE"@).len() != ("PROGRAM-ID"@).len());
    assert(("AGGREGATE"@).len() != ("AUTHOR"@).len());
    assert(("AGGREGATE"@).len() != ("VERSION"@).len());
    assert(("AGGREGATE"@).len() != ("OS"@).len());
    assert(("AGGREGATE"@).len() != ("ARCH"@).len());
    assert(("AGGREGATE"@).len() != ("RUNTIME-VERSION"@).len());
    assert(("AGGREGATE"@).len() != ("INPUT"@).len());
    assert(("AGGREGATE"@).len() != ("OUTPUT"@).len());
    assert(("AGGREGATE"@).len() != ("COMPRESS"@).len());
    assert(("AGGREGATE"@).len() != ("VERIFY-INTEGRITY"@).len());
    assert(("AGGREGATE"@)[0] != ("TRANSCODE"@)[0]);
    assert(("AGGREGATE"@).len() != ("FILTER"@).len());
    assert(crate::lexer::is_ascii_text("AGGREGATE"@));
    assert(crate::lexer::ascii_capitals("AGGREGATE"@) =~= "AGGREGATE"@);
}

proof fn lemma_keyword_18()
    ensures
        forall|w: Seq<char>| #[trigger] keyword_for_upper("CONVERT"@, w) == TokenView::Convert,
        upper_form("CONVERT"@) == "CONVERT"@,
        is_word_text("CONVERT"@),
{
    reveal_strlit("CONVERT");
    reveal_strlit("IDENTIFICATION");
    reveal_strlit("ENVIRONMENT");
    reveal_strlit("DATA");
    reveal_strlit("PROCEDURE");
    reveal_strlit("DIVISION");
    reveal_strlit("PROGRAM-ID");
    reveal_strlit("AUTHOR");
    reveal_strlit("VERSION");
    reveal_strlit("OS");
    reveal_strlit("ARCH");
    reveal_strlit("RUNTIME-VERSION");
    reveal_strlit("INPUT");
    reveal_strlit("OUTPUT");
    reveal_strlit("COMPRESS");
    reveal_strlit("VERIFY-INTEGRITY");
    reveal_strlit("TRANSCODE");
    reveal_strlit("FILTER");
    reveal_strlit("AGGREGATE");
    assert(("CONVERT"@).len() != ("IDENTIFICATION"@).len());
    assert(("CONVERT"@).len() != ("ENVIRONMENT"@).len());
    assert(("CONVERT"@).len() != ("DATA"@).len());
    assert(("CONVERT"@).len() != ("PROCEDURE"@).len());
    assert(("CONVERT"@).len() != ("DIVISION"@).len());
    assert(("CONVERT"@).len() != ("PROGRAM-ID"@).len());
    assert(("CONVERT"@).len() != ("AUTHOR"@).len());
    assert(("CONVERT"@)[0] != ("VERSION"@)[0]);
    assert(("CONVERT"@).len() != ("OS"@).len());
    assert(("CONVERT"@).len() != ("ARCH"@).len());
    assert(("CONVERT"@).len() != ("RUNTIME-VERSION"@).len());
    assert(("CONVERT"@).len() != ("INPUT"@).len());
    assert(("CONVERT"@).len() != ("OUTPUT"@).len());
    assert(("CONVERT"@).len() != ("COMPRESS"@).len());
    assert(("CONVERT"@).len() != ("VERIFY-INTEGRITY"@).len());
    assert(("CONVERT"@).len() != ("TRANSCODE"@).len());
    assert(("CONVERT"@).len() != ("FILTER"@).len());
    assert(("CONVERT"@).len() != ("AGGREGATE"@).len());
    assert(crate::lexer::is_ascii_text("CONVERT"@));
    assert(crate::lexer::ascii_capitals("CONVERT"@) =~= "CONVERT"@);
}

proof fn lemma_keyword_19()
    ensures
        forall|w: Seq<char>| #[trigger] keyword_for_upper("MERGE"@, w) == TokenView::Merge,
        upper_form("MERGE"@) == "MERGE"@,
        is_word_text("MERGE"@),
{
    reveal_strlit("MERGE");
    reveal_strlit("IDENTIFICATION");
    reveal_strlit("ENVIRONMENT");
    reveal_strlit("DATA");
    reveal_strlit("PROCEDURE");
    reveal_strlit("DIVISION");
    reveal_strlit("PROGRAM-ID");
    reveal_strlit("AUTHOR");
    reveal_strlit("VERSION");
    reveal_strlit("OS");
    reveal_strlit("ARCH");
    reveal_strlit("RUNTIME-VERSION");
    reveal_strlit("INPUT");
    reveal_strlit("OUTPUT");
    reveal_strlit("COMPRESS");
    reveal_strlit("VERIFY-INTEGRITY");
    reveal_strlit("TRANSCODE");
    reveal_strlit("FILTER");
    reveal_strlit("AGGREGATE");
    reveal_strlit("CONVERT");
    assert(("MERGE"@).len() != ("IDENTIFICATION"@).len());
    assert(("MERGE"@).len() != ("ENVIRONMENT"@).len());
    assert(("MERGE"@).len() != ("DATA"@).len());
    assert(("MERGE"@).len() != ("PROCEDURE"@).len());
    assert(("MERGE"@).len() != ("DIVISION"@).len());
    assert(("MERGE"@).len() != ("PROGRAM-ID"@).len());
    assert(("MERGE"@).len() != ("AUTHOR"@).len());
    assert(("MERGE"@).len() != ("VERSION"@).len());
    assert(("MERGE"@).len() != ("OS"@).len());
    assert(("MERGE"@).len() != ("ARCH"@).len());
    assert(("MERGE"@).len() != ("RUNTIME-VERSION"@).len());
    assert(("MERGE"@)[0] != ("INPUT"@)[0]);
    assert(("MERGE"@).len() != ("OUTPUT"@).len());
    assert(("MERGE"@).len() != ("COMPRESS"@).len());
    assert(("MERGE"@).len() != ("VERIFY-INTEGRITY"@).len());
    assert(("MERGE"@).len() != ("TRANSCODE"@).len());
    assert(("MERGE"@).len() != ("FILTER"@).len());
    assert(("MERGE"@).len() != ("AGGREGATE"@).len());
    assert(("MERGE"@).len() != ("CONVERT"@).len());
    assert(crate::lexer::is_ascii_text("MERGE"@));
    assert(crate::lexer::ascii_capitals("MERGE"@) =~= "MERGE"@);
}

proof fn lemma_keyword_20()
    ensures
        forall|w: Seq<char>| #[trigger] keyword_for_upper("SPLIT"@, w) == TokenView::Split,
        upper_form("SPLIT"@) == "SPLIT"@,
        is_word_text("SPLIT"@),
{
    reveal_strlit("SPLIT");
    reveal_strlit("IDENTIFICATION");
    reveal_strlit("ENVIRONMENT");
    reveal_strlit("DATA");
    reveal_strlit("PROCEDURE");
    reveal_strlit("DIVISION");
    reveal_strlit("PROGRAM-ID");
    reveal_strlit("AUTHOR");
    reveal_strlit("VERSION");
    reveal_strlit("OS");
    reveal_strlit("ARCH");
    reveal_strlit("RUNTIME-VERSION");
    reveal_strlit("INPUT");
    reveal_strlit("OUTPUT");
    reveal_strlit("COMPRESS");
    reveal_strlit("VERIFY-INTEGRITY");
    reveal_strlit("TRANSCODE");
    reveal_strlit("FILTER");
    reveal_strlit("AGGREGATE");
    reveal_strlit("CONVERT");
    reveal_strlit("MERGE");
    assert(("SPLIT"@).len() != ("IDENTIFICATION"@).len());
    assert(("SPLIT"@).len() != ("ENVIRONMENT"@).len());
    assert(("SPLIT"@).len() != ("DATA"@).len());
    assert(("SPLIT"@).len() != ("PROCEDURE"@).len());
    assert(("SPLIT"@).len() != ("DIVISION"@).len());
    assert(("SPLIT"@).len() != ("PROGRAM-ID"@).len());
    assert(("SPLIT"@).len() != ("AUTHOR"@).len());
    assert(("SPLIT"@).len() != ("VERSION"@).len());
    assert(("SPLIT"@).len() != ("OS"@).len());
    assert(("SPLIT"@).len() != ("ARCH"@).len());
    assert(("SPLIT"@).len() != ("RUNTIME-VERSION"@).len());
    assert(("SPLIT"@)[0] != ("INPUT"@)[0]);
    assert(("SPLIT"@).len() != ("OUTPUT"@).len());
    assert(("SPLIT"@).len() != ("COMPRESS"@).len());
    assert(("SPLIT"@).len() != ("VERIFY-INTEGRITY"@).len());
    assert(("SPLIT"@).len() != ("TRANSCODE"@).len());
    assert(("SPLIT"@).len() != ("FILTER"@).len());
    assert(("SPLIT"@).len() != ("AGGREGATE"@).len());
    assert(("SPLIT"@).len() != ("CONVERT"@).len());
    assert(("SPLIT"@)[0] != ("MERGE"@)[0]);
    assert(crate::lexer::is_ascii_text("SPLIT"@));
    assert(crate::lexer::ascii_capitals("SPLIT"@) =~= "SPLIT"@);
}

proof fn lemma_keyword_21()
    ensures
        forall|w: Seq<char>| #[trigger] keyword_for_upper("VALIDATE"@, w) == TokenView::Validate,
        upper_form("VALIDATE"@) == "VALIDATE"@,
        is_word_text("VALIDATE"@),
{
    reveal_strlit("VALIDATE");
    reveal_strlit("IDENTIFICATION");
    reveal_strlit("ENVIRONMENT");
    reveal_strlit("DATA");
    reveal_strlit("PROCEDURE");
    reveal_strlit("DIVISION");
    reveal_strlit("PROGRAM-ID");
    reveal_strlit("AUTHOR");
    reveal_strlit("VERSION");
    reveal_strlit("OS");
    reveal_strlit("ARCH");
    reveal_strlit("RUNTIME-VERSION");
    reveal_strlit("INPUT");
    reveal_strlit("OUTPUT");
    reveal_strlit("COMPRESS");
    reveal_strlit("VERIFY-INTEGRITY");
    reveal_strlit("TRANSCODE");
    reveal_strlit("FILTER");
    reveal_strlit("AGGREGATE");
    reveal_strlit("CONVERT");
    reveal_strlit("MERGE");
    reveal_strlit("SPLIT");
    assert(("VALIDATE"@).len() != ("IDENTIFICATION"@).len());
    assert(("VALIDATE"@).len() != ("ENVIRONMENT"@).len());
    assert(("VALIDATE"@).len() != ("DATA"@).len());
    assert(("VALIDATE"@).len() != ("PROCEDURE"@).len());
    assert(("VALIDATE"@)[0] != ("DIVISION"@)[0]);
    assert(("VALIDATE"@).len() != ("PROGRAM-ID"@).len());
    assert(("VALIDATE"@).len() != ("AUTHOR"@).len());
    assert(("VALIDATE"@).len() != ("VERSION"@).len());
    assert(("VALIDATE"@).len() != ("OS"@).len());
    assert(("VALIDATE"@).len() != ("ARCH"@).len());
    assert(("VALIDATE"@).len() != ("RUNTIME-VERSION"@).len());
    assert(("VALIDATE"@).len() != ("INPUT"@).len());
    assert(("VALIDATE"@).len() != ("OUTPUT"@).len());
    assert(("VALIDATE"@)[0] != ("COMPRESS"@)[0]);
    assert(("VALIDATE"@).len() != ("VERIFY-INTEGRITY"@).len());
    assert(("VALIDATE"@).len() != ("TRANSCODE"@).len());
    assert(("VALIDATE"@).len() != ("FILTER"@).len());
    assert(("VALIDATE"@).len() != ("AGGREGATE"@).len());
    assert(("VALIDATE"@).len() != ("CONVERT"@).len());
    assert(("VALIDATE"@).len() != ("MERGE"@).len());
    assert(("VALIDATE"@).len() != ("SPLIT"@).len());
    assert(crate::lexer::is_ascii_text("VALIDATE"@));
    assert(crate::lexer::ascii_capitals("VALIDATE"@) =~= "VALIDATE"@);
}

proof fn lemma_keyword_22()
    ensures
        forall|w: Seq<char>| #[trigger] keyword_for_upper("EXTRACT"@, w) == TokenView::Extract,
        upper_form("EXTRACT"@) == "EXTRACT"@,
        is_word_text("EXTRACT"@),
{
    reveal_strlit("EXTRACT");
    reveal_strlit("IDENTIFICATION");
    reveal_strlit("ENVIRONMENT");
    reveal_strlit("DATA");
    reveal_strlit("PROCEDURE");
    reveal_strlit("DIVISION");
    reveal_strlit("PROGRAM-ID");
    reveal_strlit("AUTHOR");
    reveal_strlit("VERSION");
    reveal_strlit("OS");
    reveal_strlit("ARCH");
    reveal_strlit("RUNTIME-VERSION");
    reveal_strlit("INPUT");
    reveal_strlit("OUTPUT");
    reveal_strlit("COMPRESS");
    reveal_strlit("VERIFY-INTEGRITY");
    reveal_strlit("TRANSCODE");
    reveal_strlit("FILTER");
    reveal_strlit("AGGREGATE");
    reveal_strlit("CONVERT");
    reveal_strlit("MERGE");
    reveal_strlit("SPLIT");
    reveal_strlit("VALIDATE");
    assert(("EXTRACT"@).len() != ("IDENTIFICATION"@).len());
    assert(("EXTRACT"@).len() != ("ENVIRONMENT"@).len());
    assert(("EXTRACT"@).len() != ("DATA"@).len());
    assert(("EXTRACT"@).len() != ("PROCEDURE"@).len());
    assert(("EXTRACT"@).len() != ("DIVISION"@).len());
    assert(("EXTRACT"@).len() != ("PROGRAM-ID"@).len());
    assert(("EXTRACT"@).len() != ("AUTHOR"@).len());
    assert(("EXTRACT"@)[0] != ("VERSION"@)[0]);
    assert(("EXTRACT"@).len() != ("OS"@).len());
    assert(("EXTRACT"@).len() != ("ARCH"@).len());
    assert(("EXTRACT"@).len() != ("RUNTIME-VERSION"@).len());
    assert(("EXTRACT"@).len() != ("INPUT"@).len());
    assert(("EXTRACT"@).len() != ("OUTPUT"@).len());
    assert(("EXTRACT"@).len() != ("COMPRESS"@).len());
    assert(("EXTRACT"@).len() != ("VERIFY-INTEGRITY"@).len());
    assert(("EXTRACT"@).len() != ("TRANSCODE"@).len());
    assert(("EXTRACT"@).len() != ("FILTER"@).len());
    assert(("EXTRACT"@).len() != ("AGGREGATE"@).len());
    assert(("EXTRACT"@)[0] != ("CONVERT"@)[0]);
    assert(("EXTRACT"@).len() != ("MERGE"@).len());
    assert(("EXTRACT"@).len() != ("SPLIT"@).len());
    assert(("EXTRACT"@).len() != ("VALIDATE"@).len());
    assert(crate::lexer::is_ascii_text("EXTRACT"@));
    assert(crate::lexer::ascii_capitals("EXTRACT"@) =~= "EXTRACT"@);
}

proof fn lemma_keyword_23()
    ensures
        forall|w: Seq<char>| #[trigger] keyword_for_upper("VIDEO-MP4"@, w) == TokenView::VideoMp4,
        upper_form("VIDEO-MP4"@) == "VIDEO-MP4"@,
        is_word_text("VIDEO-MP4"@),
{
    reveal_strlit("VIDEO-MP4");
    reveal_strlit("IDENTIFICATION");
    reveal_strlit("ENVIRONMENT");
    reveal_strlit("DATA");
    reveal_strlit("PROCEDURE");
    reveal_strlit("DIVISION");
    reveal_strlit("PROGRAM-ID");
    reveal_strlit("AUTHOR");
    reveal_strlit("VERSION");
    reveal_strlit("OS");
    reveal_strlit("ARCH");
    reveal_strlit("RUNTIME-VERSION");
    reveal_strlit("INPUT");
    reveal_strlit("OUTPUT");
    reveal_strlit("COMPRESS");
    reveal_strlit("VERIFY-INTEGRITY");
    reveal_strlit("TRANSCODE");
    reveal_strlit("FILTER");
    reveal_strlit("AGGREGATE");
    reveal_strlit("CONVERT");
    reveal_strlit("MERGE");
    reveal_strlit("SPLIT");
    reveal_strlit("VALIDATE");
    reveal_strlit("EXTRACT");
    assert(("VIDEO-MP4"@).len() != ("IDENTIFICATION"@).len());
    assert(("VIDEO-MP4"@).len() != ("ENVIRONMENT"@).len());
    assert(("VIDEO-MP4"@).len() != ("DATA"@).len());
    assert(("VIDEO-MP4"@)[0] != ("PROCEDURE"@)[0]);
    assert(("VIDEO-MP4"@).len() != ("DIVISION"@).len());
    assert(("VIDEO-MP4"@).len() != ("PROGRAM-ID"@).len());
    assert(("VIDEO-MP4"@).len() != ("AUTHOR"@).len());
    assert(("VIDEO-MP4"@).len() != ("VERSION"@).len());
    assert(("VIDEO-MP4"@).len() != ("OS"@).len());
    assert(("VIDEO-MP4"@).len() != ("ARCH"@).len());
    assert(("VIDEO-MP4"@).len() != ("RUNTIME-VERSION"@).len());
    assert(("VIDEO-MP4"@).len() != ("INPUT"@).len());
    assert(("VIDEO-MP4"@).len() != ("OUTPUT"@).len());
    assert(("VIDEO-MP4"@).len() != ("COMPRESS"@).len());
    assert(("VIDEO-MP4"@).len() != ("VERIFY-INTEGRITY"@).len());
    assert(("VIDEO-MP4"@)[0] != ("TRANSCODE"@)[0]);
    assert(("VIDEO-MP4"@).len() != ("FILTER"@).len());
    assert(("VIDEO-MP4"@)[0] != ("AGGREGATE"@)[0]);
    assert(("VIDEO-MP4"@).len() != ("CONVERT"@).len());
    assert(("VIDEO-MP4"@).len() != ("MERGE"@).len());
    assert(("VIDEO-MP4"@).len() != ("SPLIT"@).len());
    assert(("VIDEO-MP4"@).len() != ("VALIDATE"@).len());
    assert(("VIDEO-MP4"@).len() != ("EXTRACT"@).len());
    assert(crate::lexer::is_ascii_text("VIDEO-MP4"@));
    assert(crate::lexer::ascii_capitals("VIDEO-MP4"@) =~= "VIDEO-MP4"@);
}

proof fn lemma_keyword_24()
    ensures
        forall|w: Seq<char>| #[trigger] keyword_for_upper("IMAGE-JPG"@, w) == TokenView::ImageJpg,
        upper_form("IMAGE-JPG"@) == "IMAGE-JPG"@,
        is_word_text("IMAGE-JPG"@),
{
    reveal_strlit("IMAGE-JPG");
    reveal_strlit("IDENTIFICATION");
    reveal_strlit("ENVIRONMENT");
    reveal_strlit("DATA");
    reveal_strlit("PROCEDURE");
    reveal_strlit("DIVISION");
    reveal_strlit("PROGRAM-ID");
    reveal_strlit("AUTHOR");
    reveal_strlit("VERSION");
    reveal_strlit("OS");
    reveal_strlit("ARCH");
    reveal_strlit("RUNTIME-VERSION");
    reveal_strlit("INPUT");
    reveal_strlit("OUTPUT");
    reveal_strlit("COMPRESS");
    reveal_strlit("VERIFY-INTEGRITY");
    reveal_strlit("TRANSCODE");
    reveal_strlit("FILTER");
    reveal_strlit("AGGREGATE");
    reveal_strlit("CONVERT");
    reveal_strlit("MERGE");
    reveal_strlit("SPLIT");
    reveal_strlit("VALIDATE");
    reveal_strlit("EXTRACT");
    reveal_strlit("VIDEO-MP4");
    assert(("IMAGE-JPG"@).len() != ("IDENTIFICATION"@).len());
    assert(("IMAGE-JPG"@).len() != ("ENVIRONMENT"@).len());
    assert(("IMAGE-JPG"@).len() != ("DATA"@).len());
    assert(("IMAGE-JPG"@)[0] != ("PROCEDURE"@)[0]);
    assert(("IMAGE-JPG"@).len() != ("DIVISION"@).len());
    assert(("IMAGE-JPG"@).len() != ("PROGRAM-ID"@).len());
    assert(("IMAGE-JPG"@).len() != ("AUTHOR"@).len());
    assert(("IMAGE-JPG"@).len() != ("VERSION"@).len());
    assert(("IMAGE-JPG"@).len() != ("OS"@).len());
    assert(("IMAGE-JPG"@).len() != ("ARCH"@).len());
    assert(("IMAGE-JPG"@).len() != ("RUNTIME-VERSION"@).len());
    assert(("IMAGE-JPG"@).len() != ("INPUT"@).len());
    assert(("IMAGE-JPG"@).len() != ("OUTPUT"@).len());
    assert(("IMAGE-JPG"@).len() != ("COMPRESS"@).len());
    assert(("IMAGE-JPG"@).len() != ("VERIFY-INTEGRITY"@).len());
    assert(("IMAGE-JPG"@)[0] != ("TRANSCODE"@)[0]);
    assert(("IMAGE-JPG"@).len() != ("FILTER"@).len());
    assert(("IMAGE-JPG"@)[0] != ("AGGREGATE"@)[0]);
    assert(("IMAGE-JPG"@).len() != ("CONVERT"@).len());
    assert(("IMAGE-JPG"@).len() != ("MERGE"@).len());
    assert(("IMAGE-JPG"@).len() != ("SPLIT"@).len());
    assert(("IMAGE-JPG"@).len() != ("VALIDATE"@).len());
    assert(("IMAGE-JPG"@).len() != ("EXTRACT"@).len());
    assert(("IMAGE-JPG"@)[0] != ("VIDEO-MP4"@)[0]);
    assert(crate::lexer::is_ascii_text("IMAGE-JPG"@));
    assert(crate::lexer::ascii_capitals("IMAGE-JPG"@) =~= "IMAGE-JPG"@);
}

proof fn lemma_keyword_25()
    ensures
        forall|w: Seq<char>| #[trigger] keyword_for_upper("FINANCIAL-DECIMAL"@, w) == TokenView::FinancialDecimal,
        upper_form("FINANCIAL-DECIMAL"@) == "FINANCIAL-DECIMAL"@,
        is_word_text("FINANCIAL-DECIMAL"@),
{
    reveal_strlit("FINANCIAL-DECIMAL");
    reveal_strlit("IDENTIFICATION");
    reveal_strlit("ENVIRONMENT");
    reveal_strlit("DATA");
    reveal_strlit("PROCEDURE");
    reveal_strlit("DIVISION");
    reveal_strlit("PROGRAM-ID");
    reveal_strlit("AUTHOR");
    reveal_strlit("VERSION");
    reveal_strlit("OS");
    reveal_strlit("ARCH");
    reveal_strlit("RUNTIME-VERSION");
    reveal_strlit("INPUT");
    reveal_strlit("OUTPUT");
    reveal_strlit("COMPRESS");
    reveal_strlit("VERIFY-INTEGRITY");
    reveal_strlit("TRANSCODE");
    reveal_strlit("FILTER");
    reveal_strlit("AGGREGATE");
    reveal_strlit("CONVERT");
    reveal_strlit("MERGE");
    reveal_strlit("SPLIT");
    reveal_strlit("VALIDATE");
    reveal_strlit("EXTRACT");
    reveal_strlit("VIDEO-MP4");
    reveal_strlit("IMAGE-JPG");
    assert(("FINANCIAL-DECIMAL"@).len() != ("IDENTIFICATION"@).len());
    assert(("FINANCIAL-DECIMAL"@).len() != ("ENVIRONMENT"@).len());
    assert(("FINANCIAL-DECIMAL"@).len() != ("DATA"@).len());
    assert(("FINANCIAL-DECIMAL"@).len() != ("PROCEDURE"@).len());
    assert(("FINANCIAL-DECIMAL"@).len() != ("DIVISION"@).len());
    assert(("FINANCIAL-DECIMAL"@).len() != ("PROGRAM-ID"@).len());
    assert(("FINANCIAL-DECIMAL"@).len() != ("AUTHOR"@).len());
    assert(("FINANCIAL-DECIMAL"@).len() != ("VERSION"@).len());
    assert(("FINANCIAL-DECIMAL"@).len() != ("OS"@).len());
    assert(("FINANCIAL-DECIMAL"@).len() != ("ARCH"@).len());
    assert(("FINANCIAL-DECIMAL"@).len() != ("RUNTIME-VERSION"@).len());
    assert(("FINANCIAL-DECIMAL"@).len() != ("INPUT"@).len());
    assert(("FINANCIAL-DECIMAL"@).len() != ("OUTPUT"@).len());
    assert(("FINANCIAL-DECIMAL"@).len() != ("COMPRESS"@).len());
    assert(("FINANCIAL-DECIMAL"@).len() != ("VERIFY-INTEGRITY"@).len());
    assert(("FINANCIAL-DECIMAL"@).len() != ("TRANSCODE"@).len());
    assert(("FINANCIAL-DECIMAL"@).len() != ("FILTER"@).len());
    assert(("FINANCIAL-DECIMAL"@).len() != ("AGGREGATE"@).len());
    assert(("FINANCIAL-DECIMAL"@).len() != ("CONVERT"@).len());
    assert(("FINANCIAL-DECIMAL"@).len() != ("MERGE"@).len());
    assert(("FINANCIAL-DECIMAL"@).len() != ("SPLIT"@).len());
    assert(("FINANCIAL-DECIMAL"@).len() != ("VALIDATE"@).len());
    assert(("FINANCIAL-DECIMAL"@).len() != ("EXTRACT"@).len());
    assert(("FINANCIAL-DECIMAL"@).len() != ("VIDEO-MP4"@).len());
    assert(("FINANCIAL-DECIMAL"@).len() != ("IMAGE-JPG"@).len());
    assert(crate::lexer::is_ascii_text("FINANCIAL-DECIMAL"@));
    assert(crate::lexer::ascii_capitals("FINANCIAL-DECIMAL"@) =~= "FINANCIAL-DECIMAL"@);
}

proof fn lemma_keyword_26()
    ensures
        forall|w: Seq<char>| #[trigger] keyword_for_upper("AUDIO-WAV"@, w) == TokenView::AudioWav,
        upper_form("AUDIO-WAV"@) == "AUDIO-WAV"@,
        is_word_text("AUDIO-WAV"@),
{
    reveal_strlit("AUDIO-WAV");
    reveal_strlit("IDENTIFICATION");
    reveal_strlit("ENVIRONMENT");
    reveal_strlit("DATA");
    reveal_strlit("PROCEDURE");
    reveal_strlit("DIVISION");
    reveal_strlit("PROGRAM-ID");
    reveal_strlit("AUTHOR");
    reveal_strlit("VERSION");
    reveal_strlit("OS");
    reveal_strlit("ARCH");
    reveal_strlit("RUNTIME-VERSION");
    reveal_strlit("INPUT");
    reveal_strlit("OUTPUT");
    reveal_strlit("COMPRESS");
    reveal_strlit("VERIFY-INTEGRITY");
    reveal_strlit("TRANSCODE");
    reveal_strlit("FILTER");
    reveal_strlit("AGGREGATE");
    reveal_strlit("CONVERT");
    reveal_strlit("MERGE");
    reveal_strlit("SPLIT");
    reveal_strlit("VALIDATE");
    reveal_strlit("EXTRACT");
    reveal_strlit("VIDEO-MP4");
    reveal_strlit("IMAGE-JPG");
    reveal_strlit("FINANCIAL-DECIMAL");
    assert(("AUDIO-WAV"@).len() != ("IDENTIFICATION"@).len());
    assert(("AUDIO-WAV"@).len() != ("ENVIRONMENT"@).len());
    assert(("AUDIO-WAV"@).len() != ("DATA"@).len());
    assert(("AUDIO-WAV"@)[0] != ("PROCEDURE"@)[0]);
    assert(("AUDIO-WAV"@).len() != ("DIVISION"@).len());
    assert(("AUDIO-WAV"@).len() != ("PROGRAM-ID"@).len());
    assert(("AUDIO-WAV"@).len() != ("AUTHOR"@).len());
    assert(("AUDIO-WAV"@).len() != ("VERSION"@).len());
    assert(("AUDIO-WAV"@).len() != ("OS"@).len());
    assert(("AUDIO-WAV"@).len() != ("ARCH"@).len());
    assert(("AUDIO-WAV"@).len() != ("RUNTIME-VERSION"@).len());
    assert(("AUDIO-WAV"@).len() != ("INPUT"@).len());
    assert(("AUDIO-WAV"@).len() != ("OUTPUT"@).len());
    assert(("AUDIO-WAV"@).len() != ("COMPRESS"@).len());
    assert(("AUDIO-WAV"@).len() != ("VERIFY-INTEGRITY"@).len());
    assert(("AUDIO-WAV"@)[0] != ("TRANSCODE"@)[0]);
    assert(("AUDIO-WAV"@).len() != ("FILTER"@).len());
    assert(("AUDIO-WAV"@)[1] != ("AGGREGATE"@)[1]);
    assert(("AUDIO-WAV"@).len() != ("CONVERT"@).len());
    assert(("AUDIO-WAV"@).len() != ("MERGE"@).len());
    assert(("AUDIO-WAV"@).len() != ("SPLIT"@).len());
    assert(("AUDIO-WAV"@).len() != ("VALIDATE"@).len());
    assert(("AUDIO-WAV"@).len() != ("EXTRACT"@).len());
    assert(("AUDIO-WAV"@)[0] != ("VIDEO-MP4"@)[0]);
    assert(("AUDIO-WAV"@)[0] != ("IMAGE-JPG"@)[0]);
    assert(("AUDIO-WAV"@).len() != ("FINANCIAL-DECIMAL"@).len());
    assert(crate::lexer::is_ascii_text("AUDIO-WAV"@));
    assert(crate::lexer::ascii_capitals("AUDIO-WAV"@) =~= "AUDIO-WAV"@);
}

proof fn lemma_keyword_27()
    ensures
        forall|w: Seq<char>| #[trigger] keyword_for_upper("CSV-TABLE"@, w) == TokenView::CsvTable,
        upper_form("CSV-TABLE"@) == "CSV-TABLE"@,
        is_word_text("CSV-TABLE"@),
{
    reveal_strlit("CSV-TABLE");
    reveal_strlit("IDENTIFICATION");
    reveal_strlit("ENVIRONMENT");
    reveal_strlit("DATA");
    reveal_strlit("PROCEDURE");
    reveal_strlit("DIVISION");
    reveal_strlit("PROGRAM-ID");
    reveal_strlit("AUTHOR");
    reveal_strlit("VERSION");
    reveal_strlit("OS");
    reveal_strlit("ARCH");
    reveal_strlit("RUNTIME-VERSION");
    reveal_strlit("INPUT");
    reveal_strlit("OUTPUT");
    reveal_strlit("COMPRESS");
    reveal_strlit("VERIFY-INTEGRITY");
    reveal_strlit("TRANSCODE");
    reveal_strlit("FILTER");
    reveal_strlit("AGGREGATE");
    reveal_strlit("CONVERT");
    reveal_strlit("MERGE");
    reveal_strlit("SPLIT");
    reveal_strlit("VALIDATE");
    reveal_strlit("EXTRACT");
    reveal_strlit("VIDEO-MP4");
    reveal_strlit("IMAGE-JPG");
    reveal_strlit("FINANCIAL-DECIMAL");
    reveal_strlit("AUDIO-WAV");
    assert(("CSV-TABLE"@).len() != ("IDENTIFICATION"@).len());
    assert(("CSV-TABLE"@).len() != ("ENVIRONMENT"@).len());
    assert(("CSV-TABLE"@).len() != ("DATA"@).len());
    assert(("CSV-TABLE"@)[0] != ("PROCEDURE"@)[0]);
    assert(("CSV-TABLE"@).len() != ("DIVISION"@).len());
    assert(("CSV-TABLE"@).len() != ("PROGRAM-ID"@).len());
    assert(("CSV-TABLE"@).len() != ("AUTHOR"@).len());
    assert(("CSV-TABLE"@).len() != ("VERSION"@).len());
    assert(("CSV-TABLE"@).len() != ("OS"@).len());
    assert(("CSV-TABLE"@).len() != ("ARCH"@).len());
    assert(("CSV-TABLE"@).len() != ("RUNTIME-VERSION"@).len());
    assert(("CSV-TABLE"@).len() != ("INPUT"@).len());
    assert(("CSV-TABLE"@).len() != ("OUTPUT"@).len());
    assert(("CSV-TABLE"@).len() != ("COMPRESS"@).len());
    assert(("CSV-TABLE"@).len() != ("VERIFY-INTEGRITY"@).len());
    assert(("CSV-TABLE"@)[0] != ("TRANSCODE"@)[0]);
    assert(("CSV-TABLE"@).len() != ("FILTER"@).len());
    assert(("CSV-TABLE"@)[0] != ("AGGREGATE"@)[0]);
    assert(("CSV-TABLE"@).len() != ("CONVERT"@).len());
    assert(("CSV-TABLE"@).len() != ("MERGE"@).len());
    assert(("CSV-TABLE"@).len() != ("SPLIT"@).len());
    assert(("CSV-TABLE"@).len() != ("VALIDATE"@).len());
    assert(("CSV-TABLE"@).len() != ("EXTRACT"@).len());
    assert(("CSV-TABLE"@)[0] != ("VIDEO-MP4"@)[0]);
    assert(("CSV-TABLE"@)[0] != ("IMAGE-JPG"@)[0]);
    assert(("CSV-TABLE"@).len() != ("FINANCIAL-DECIMAL"@).len());
    assert(("CSV-TABLE"@)[0] != ("AUDIO-WAV"@)[0]);
    assert(crate::lexer::is_ascii_text("CSV-TABLE"@));
    assert(crate::lexer::ascii_capitals("CSV-TABLE"@) =~= "CSV-TABLE"@);
}

proof fn lemma_keyword_28()
    ensures
        forall|w: Seq<char>| #[trigger] keyword_for_upper("BINARY-BLOB"@, w) == TokenView::BinaryBlob,
        upper_form("BINARY-BLOB"@) == "BINARY-BLOB"@,
        is_word_text("BINARY-BLOB"@),
{
    reveal_strlit("BINARY-BLOB");
    reveal_strlit("IDENTIFICATION");
    reveal_strlit("ENVIRONMENT");
    reveal_strlit("DATA");
    reveal_strlit("PROCEDURE");
    reveal_strlit("DIVISION");
    reveal_strlit("PROGRAM-ID");
    reveal_strlit("AUTHOR");
    reveal_strlit("VERSION");
    reveal_strlit("OS");
    reveal_strlit("ARCH");
    reveal_strlit("RUNTIME-VERSION");
    reveal_strlit("INPUT");
    reveal_strlit("OUTPUT");
    reveal_strlit("COMPRESS");
    reveal_strlit("VERIFY-INTEGRITY");
    reveal_strlit("TRANSCODE");
    reveal_strlit("FILTER");
    reveal_strlit("AGGREGATE");
    reveal_strlit("CONVERT");
    reveal_strlit("MERGE");
    reveal_strlit("SPLIT");
    reveal_strlit("VALIDATE");
    reveal_strlit("EXTRACT");
    reveal_strlit("VIDEO-MP4");
    reveal_strlit("IMAGE-JPG");
    reveal_strlit("FINANCIAL-DECIMAL");
    reveal_strlit("AUDIO-WAV");
    reveal_strlit("CSV-TABLE");
    assert(("BINARY-BLOB"@).len() != ("IDENTIFICATION"@).len());
    assert(("BINARY-BLOB"@)[0] != ("ENVIRONMENT"@)[0]);
    assert(("BINARY-BLOB"@).len() != ("DATA"@).len());
    assert(("BINARY-BLOB"@).len() != ("PROCEDURE"@).len());
    assert(("BINARY-BLOB"@).len() != ("DIVISION"@).len());
    assert(("BINARY-BLOB"@).len() != ("PROGRAM-ID"@).len());
    assert(("BINARY-BLOB"@).len() != ("AUTHOR"@).len());
    assert(("BINARY-BLOB"@).len() != ("VERSION"@).len());
    assert(("BINARY-BLOB"@).len() != ("OS"@).len());
    assert(("BINARY-BLOB"@).len() != ("ARCH"@).len());
    assert(("BINARY-BLOB"@).len() != ("RUNTIME-VERSION"@).len());
    assert(("BINARY-BLOB"@).len() != ("INPUT"@).len());
    assert(("BINARY-BLOB"@).len() != ("OUTPUT"@).len());
    assert(("BINARY-BLOB"@).len() != ("COMPRESS"@).len());
    assert(("BINARY-BLOB"@).len() != ("VERIFY-INTEGRITY"@).len());
    assert(("BINARY-BLOB"@).len() != ("TRANSCODE"@).len());
    assert(("BINARY-BLOB"@).len() != ("FILTER"@).len());
    assert(("BINARY-BLOB"@).len() != ("AGGREGATE"@).len());
    assert(("BINARY-BLOB"@).len() != ("CONVERT"@).len());
    assert(("BINARY-BLOB"@).len() != ("MERGE"@).len());
    assert(("BINARY-BLOB"@).len() != ("SPLIT"@).len());
    assert(("BINARY-BLOB"@).len() != ("VALIDATE"@).len());
    assert(("BINARY-BLOB"@).len() != ("EXTRACT"@).len());
    assert(("BINARY-BLOB"@).len() != ("VIDEO-MP4"@).len());
    assert(("BINARY-BLOB"@).len() != ("IMAGE-JPG"@).len());
    assert(("BINARY-BLOB"@).len() != ("FINANCIAL-DECIMAL"@).len());
    assert(("BINARY-BLOB"@).len() != ("AUDIO-WAV"@).len());
    assert(("BINARY-BLOB"@).len() != ("CSV-TABLE"@).len());
    assert(crate::lexer::is_ascii_text("BINARY-BLOB"@));
    assert(crate::lexer::ascii_capitals("BINARY-BLOB"@) =~= "BINARY-BLOB"@);
}

proof fn lemma_keyword_29()
    ensures
        forall|w: Seq<char>| #[trigger] keyword_for_upper("JSON-OBJECT"@, w) == TokenView::JsonObject,
        upper_form("JSON-OBJECT"@) == "JSON-OBJECT"@,
        is_word_text("JSON-OBJECT"@),
{
    reveal_strlit("JSON-OBJECT");
    reveal_strlit("IDENTIFICATION");
    reveal_strlit("ENVIRONMENT");
    reveal_strlit("DATA");
    reveal_strlit("PROCEDURE");
    reveal_strlit("DIVISION");
    reveal_strlit("PROGRAM-ID");
    reveal_strlit("AUTHOR");
    reveal_strlit("VERSION");
    reveal_strlit("OS");
    reveal_strlit("ARCH");
    reveal_strlit("RUNTIME-VERSION");
    reveal_strlit("INPUT");
    reveal_strlit("OUTPUT");
    reveal_strlit("COMPRESS");
    reveal_strlit("VERIFY-INTEGRITY");
    reveal_strlit("TRANSCODE");
    reveal_strlit("FILTER");
    reveal_strlit("AGGREGATE");
    reveal_strlit("CONVERT");
    reveal_strlit("MERGE");
    reveal_strlit("SPLIT");
    reveal_strlit("VALIDATE");
    reveal_strlit("EXTRACT");
    reveal_strlit("VIDEO-MP4");
    reveal_strlit("IMAGE-JPG");
    reveal_strlit("FINANCIAL-DECIMAL");
    reveal_strlit("AUDIO-WAV");
    reveal_strlit("CSV-TABLE");
    reveal_strlit("BINARY-BLOB");
    assert(("JSON-OBJECT"@).len() != ("IDENTIFICATION"@).len());
    assert(("JSON-OBJECT"@)[0] != ("ENVIRONMENT"@)[0]);
    assert(("JSON-OBJECT"@).len() != ("DATA"@).len());
    assert(("JSON-OBJECT"@).len() != ("PROCEDURE"@).len());
    assert(("JSON-OBJECT"@).len() != ("DIVISION"@).len());
    assert(("JSON-OBJECT"@).len() != ("PROGRAM-ID"@).len());
    assert(("JSON-OBJECT"@).len() != ("AUTHOR"@).len());
    assert(("JSON-OBJECT"@).len() != ("VERSION"@).len());
    assert(("JSON-OBJECT"@).len() != ("OS"@).len());
    assert(("JSON-OBJECT"@).len() != ("ARCH"@).len());
    assert(("JSON-OBJECT"@).len() != ("RUNTIME-VERSION"@).len());
    assert(("JSON-OBJECT"@).len() != ("INPUT"@).len());
    assert(("JSON-OBJECT"@).len() != ("OUTPUT"@).len());
    assert(("JSON-OBJECT"@).len() != ("COMPRESS"@).len());
    assert(("JSON-OBJECT"@).len() != ("VERIFY-INTEGRITY"@).len());
    assert(("JSON-OBJECT"@).len() != ("TRANSCODE"@).len());
    assert(("JSON-OBJECT"@).len() != ("FILTER"@).len());
    assert(("JSON-OBJECT"@).len() != ("AGGREGATE"@).len());
    assert(("JSON-OBJECT"@).len() != ("CONVERT"@).len());
    assert(("JSON-OBJECT"@).len() != ("MERGE"@).len());
    assert(("JSON-OBJECT"@).len() != ("SPLIT"@).len());
    assert(("JSON-OBJECT"@).len() != ("VALIDATE"@).len());
    assert(("JSON-OBJECT"@).len() != ("EXTRACT"@).len());
    assert(("JSON-OBJECT"@).len() != ("VIDEO-MP4"@).len());
    assert(("JSON-OBJECT"@).len() != ("IMAGE-JPG"@).len());
    assert(("JSON-OBJECT"@).len() != ("FINANCIAL-DECIMAL"@).len());
    assert(("JSON-OBJECT"@).len() != ("AUDIO-WAV"@).len());
    assert(("JSON-OBJECT"@).len() != ("CSV-TABLE"@).len());
    assert(("JSON-OBJECT"@)[0] != ("BINARY-BLOB"@)[0]);
    assert(crate::lexer::is_ascii_text("JSON-OBJECT"@));
    assert(crate::lexer::ascii_capitals("JSON-OBJECT"@) =~= "JSON-OBJECT"@);
}

proof fn lemma_keyword_30()
    ensures
        forall|w: Seq<char>| #[trigger] keyword_for_upper("XML-DOCUMENT"@, w) == TokenView::XmlDocument,
        upper_form("XML-DOCUMENT"@) == "XML-DOCUMENT"@,
        is_word_text("XML-DOCUMENT"@),
{
    reveal_strlit("XML-DOCUMENT");
    reveal_strlit("IDENTIFICATION");
    reveal_strlit("ENVIRONMENT");
    reveal_strlit("DATA");
    reveal_strlit("PROCEDURE");
    reveal_strlit("DIVISION");
    reveal_strlit("PROGRAM-ID");
    reveal_strlit("AUTHOR");
    reveal_strlit("VERSION");
    reveal_strlit("OS");
    reveal_strlit("ARCH");
    reveal_strlit("RUNTIME-VERSION");
    reveal_strlit("INPUT");
    reveal_strlit("OUTPUT");
    reveal_strlit("COMPRESS");
    reveal_strlit("VERIFY-INTEGRITY");
    reveal_strlit("TRANSCODE");
    reveal_strlit("FILTER");
    reveal_strlit("AGGREGATE");
    reveal_strlit("CONVERT");
    reveal_strlit("MERGE");
    reveal_strlit("SPLIT");
    reveal_strlit("VALIDATE");
    reveal_strlit("EXTRACT");
    reveal_strlit("VIDEO-MP4");
    reveal_strlit("IMAGE-JPG");
    reveal_strlit("FINANCIAL-DECIMAL");
    reveal_strlit("AUDIO-WAV");
    reveal_strlit("CSV-TABLE");
    reveal_strlit("BINARY-BLOB");
    reveal_strlit("JSON-OBJECT");
    assert(("XML-DOCUMENT"@).len() != ("IDENTIFICATION"@).len());
    assert(("XML-DOCUMENT"@).len() != ("ENVIRONMENT"@).len());
    assert(("XML-DOCUMENT"@).len() != ("DATA"@).len());
    assert(("XML-DOCUMENT"@).len() != ("PROCEDURE"@).len());
    assert(("XML-DOCUMENT"@).len() != ("DIVISION"@).len());
    assert(("XML-DOCUMENT"@).len() != ("PROGRAM-ID"@).len());
    assert(("XML-DOCUMENT"@).len() != ("AUTHOR"@).len());
    assert(("XML-DOCUMENT"@).len() != ("VERSION"@).len());
    assert(("XML-DOCUMENT"@).len() != ("OS"@).len());
    assert(("XML-DOCUMENT"@).len() != ("ARCH"@).len());
    assert(("XML-DOCUMENT"@).len() != ("RUNTIME-VERSION"@).len());
    assert(("XML-DOCUMENT"@).len() != ("INPUT"@).len());
    assert(("XML-DOCUMENT"@).len() != ("OUTPUT"@).len());
    assert(("XML-DOCUMENT"@).len() != ("COMPRESS"@).len());
    assert(("XML-DOCUMENT"@).len() != ("VERIFY-INTEGRITY"@).len());
    assert(("XML-DOCUMENT"@).len() != ("TRANSCODE"@).len());
    assert(("XML-DOCUMENT"@).len() != ("FILTER"@).len());
    assert(("XML-DOCUMENT"@).len() != ("AGGREGATE"@).len());
    assert(("XML-DOCUMENT"@).len() != ("CONVERT"@).len());
    assert(("XML-DOCUMENT"@).len() != ("MERGE"@).len());
    assert(("XML-DOCUMENT"@).len() != ("SPLIT"@).len());
    assert(("XML-DOCUMENT"@).len() != ("VALIDATE"@).len());
    assert(("XML-DOCUMENT"@).len() != ("EXTRACT"@).len());
    assert(("XML-DOCUMENT"@).len() != ("VIDEO-MP4"@).len());
    assert(("XML-DOCUMENT"@).len() != ("IMAGE-JPG"@).len());
    assert(("XML-DOCUMENT"@).len() != ("FINANCIAL-DECIMAL"@).len());
    assert(("XML-DOCUMENT"@).len() != ("AUDIO-WAV"@).len());
    assert(("XML-DOCUMENT"@).len() != ("CSV-TABLE"@).len());
    assert(("XML-DOCUMENT"@).len() != ("BINARY-BLOB"@).len());
    assert(("XML-DOCUMENT"@).len() != ("JSON-OBJECT"@).len());
    assert(crate::lexer::is_ascii_text("XML-DOCUMENT"@));
    assert(crate::lexer::ascii_capitals("XML-DOCUMENT"@) =~= "XML-DOCUMENT"@);
}

proof fn lemma_keyword_31()
    ensures
        forall|w: Seq<char>| #[trigger] keyword_for_upper("PARQUET-TABLE"@, w) == TokenView::ParquetTable,
        upper_form("PARQUET-TABLE"@) == "PARQUET-TABLE"@,
        is_word_text("PARQUET-TABLE"@),
{
    reveal_strlit("PARQUET-TABLE");
    reveal_strlit("IDENTIFICATION");
    reveal_strlit("ENVIRONMENT");
    reveal_strlit("DATA");
    reveal_strlit("PROCEDURE");
    reveal_strlit("DIVISION");
    reveal_strlit("PROGRAM-ID");
    reveal_strlit("AUTHOR");
    reveal_strlit("VERSION");
    reveal_strlit("OS");
    reveal_strlit("ARCH");
    reveal_strlit("RUNTIME-VERSION");
    reveal_strlit("INPUT");
    reveal_strlit("OUTPUT");
    reveal_strlit("COMPRESS");
    reveal_strlit("VERIFY-INTEGRITY");
    reveal_strlit("TRANSCODE");
    reveal_strlit("FILTER");
    reveal_strlit("AGGREGATE");
    reveal_strlit("CONVERT");
    reveal_strlit("MERGE");
    reveal_strlit("SPLIT");
    reveal_strlit("VALIDATE");
    reveal_strlit("EXTRACT");
    reveal_strlit("VIDEO-MP4");
    reveal_strlit("IMAGE-JPG");
    reveal_strlit("FINANCIAL-DECIMAL");
    reveal_strlit("AUDIO-WAV");
    reveal_strlit("CSV-TABLE");
    reveal_strlit("BINARY-BLOB");
    reveal_strlit("JSON-OBJECT");
    reveal_strlit("XML-DOCUMENT");
    assert(("PARQUET-TABLE"@).len() != ("IDENTIFICATION"@).len());
    assert(("PARQUET-TABLE"@).len() != ("ENVIRONMENT"@).len());
    assert(("PARQUET-TABLE"@).len() != ("DATA"@).len());
    assert(("PARQUET-TABLE"@).len() != ("PROCEDURE"@).len());
    assert(("PARQUET-TABLE"@).len() != ("DIVISION"@).len());
    assert(("PARQUET-TABLE"@).len() != ("PROGRAM-ID"@).len());
    assert(("PARQUET-TABLE"@).len() != ("AUTHOR"@).len());
    assert(("PARQUET-TABLE"@).len() != ("VERSION"@).len());
    assert(("PARQUET-TABLE"@).len() != ("OS"@).len());
    assert(("PARQUET-TABLE"@).len() != ("ARCH"@).len());
    assert(("PARQUET-TABLE"@).len() != ("RUNTIME-VERSION"@).len());
    assert(("PARQUET-TABLE"@).len() != ("INPUT"@).len());
    assert(("PARQUET-TABLE"@).len() != ("OUTPUT"@).len());
    assert(("PARQUET-TABLE"@).len() != ("COMPRESS"@).len());
    assert(("PARQUET-TABLE"@).len() != ("VERIFY-INTEGRITY"@).len());
    assert(("PARQUET-TABLE"@).len() != ("TRANSCODE"@).len());
    assert(("PARQUET-TABLE"@).len() != ("FILTER"@).len());
    assert(("PARQUET-TABLE"@).len() != ("AGGREGATE"@).len());
    assert(("PARQUET-TABLE"@).len() != ("CONVERT"@).len());
    assert(("PARQUET-TABLE"@).len() != ("MERGE"@).len());
    assert(("PARQUET-TABLE"@).len() != ("SPLIT"@).len());
    assert(("PARQUET-TABLE"@).len() != ("VALIDATE"@).len());
    assert(("PARQUET-TABLE"@).len() != ("EXTRACT"@).len());
    assert(("PARQUET-TABLE"@).len() != ("VIDEO-MP4"@).len());
    assert(("PARQUET-TABLE"@).len() != ("IMAGE-JPG"@).len());
    assert(("PARQUET-TABLE"@).len() != ("FINANCIAL-DECIMAL"@).len());
    assert(("PARQUET-TABLE"@).len() != ("AUDIO-WAV"@).len());
    assert(("PARQUET-TABLE"@).len() != ("CSV-TABLE"@).len());
    assert(("PARQUET-TABLE"@).len() != ("BINARY-BLOB"@).len());
    assert(("PARQUET-TABLE"@).len() != ("JSON-OBJECT"@).len());
    assert(("PARQUET-TABLE"@).len() != ("XML-DOCUMENT"@).len());
    assert(crate::lexer::is_ascii_text("PARQUET-TABLE"@));
    assert(crate::lexer::ascii_capitals("PARQUET-TABLE"@) =~= "PARQUET-TABLE"@);
}

/// Every keyword of the language is lexed as its own token: a word whose
/// upper-case form is a keyword's spelling becomes that keyword's token, and
/// the spelling itself lexes to that token followed by `Eof`.
pub proof fn law_keywords_lex_to_their_tokens(i: int, w: Seq<char>)
    requires
        0 <= i < keyword_spellings().len(),
    ensures
        upper_form(w) == keyword_spellings()[i].0 ==> keyword_token(w) == keyword_spellings()[i].1,
        lex(keyword_spellings()[i].0) == Ok::<Seq<TokenView>, Seq<char>>(
            seq![keyword_spellings()[i].1, TokenView::Eof],
        ),
{
    let sp = keyword_spellings()[i].0;
    if i == 0 {
        lemma_keyword_0();
        assert(keyword_for_upper(sp, w) == TokenView::IdentificationDiv);
        assert(keyword_for_upper(sp, sp) == TokenView::IdentificationDiv);
    } else if i == 1 {
        lemma_keyword_1();
        assert(keyword_for_upper(sp, w) == TokenView::EnvironmentDiv);
        assert(keyword_for_upper(sp, sp) == TokenView::EnvironmentDiv);
    } else if i == 2 {
        lemma_keyword_2();
        assert(keyword_for_upper(sp, w) == TokenView::DataDiv);
        assert(keyword_for_upper(sp, sp) == TokenView::DataDiv);
    } else if i == 3 {
        lemma_keyword_3();
        assert(keyword_for_upper(sp, w) == TokenView::ProcedureDiv);
        assert(keyword_for_upper(sp, sp) == TokenView::ProcedureDiv);
    } else if i == 4 {
        lemma_keyword_4();
        assert(keyword_for_upper(sp, w) == TokenView::Division);
        assert(keyword_for_upper(sp, sp) == TokenView::Division);
    } else if i == 5 {
        lemma_keyword_5();
        assert(keyword_for_upper(sp, w) == TokenView::ProgramId);
        assert(keyword_for_upper(sp, sp) == TokenView::ProgramId);
    } else if i == 6 {
        lemma_keyword_6();
        assert(keyword_for_upper(sp, w) == TokenView::Author);
        assert(keyword_for_upper(sp, sp) == TokenView::Author);
    } else if i == 7 {
        lemma_keyword_7();
        assert(keyword_for_upper(sp, w) == TokenView::Version);
        assert(keyword_for_upper(sp, sp) == TokenView::Version);
    } else if i == 8 {
        lemma_keyword_8();
        assert(keyword_for_upper(sp, w) == TokenView::Os);
        assert(keyword_for_upper(sp, sp) == TokenView::Os);
    } else if i == 9 {
        lemma_keyword_9();
        assert(keyword_for_upper(sp, w) == TokenView::Arch);
        assert(keyword_for_upper(sp, sp) == TokenView::Arch);
    } else if i == 10 {
        lemma_keyword_10();
        assert(keyword_for_upper(sp, w) == TokenView::RuntimeVersion);
        assert(keyword_for_upper(sp, sp) == TokenView::RuntimeVersion);
    } else if i == 11 {
        lemma_keyword_11();
        assert(keyword_for_upper(sp, w) == TokenView::Input);
        assert(keyword_for_upper(sp, sp) == TokenView::Input);
    } else if i == 12 {
        lemma_keyword_12();
        assert(keyword_for_upper(sp, w) == TokenView::Output);
        assert(keyword_for_upper(sp, sp) == TokenView::Output);
    } else if i == 13 {
        lemma_keyword_13();
        assert(keyword_for_upper(sp, w) == TokenView::Compress);
        assert(keyword_for_upper(sp, sp) == TokenView::Compress);
    } else if i == 14 {
        lemma_keyword_14();
        assert(keyword_for_upper(sp, w) == TokenView::VerifyIntegrity);
        assert(keyword_for_upper(sp, sp) == TokenView::VerifyIntegrity);
    } else if i == 15 {
        lemma_keyword_15();
        assert(keyword_for_upper(sp, w) == TokenView::Transcode);
        assert(keyword_for_upper(sp, sp) == TokenView::Transcode);
    } else if i == 16 {
        lemma_keyword_16();
        assert(keyword_for_upper(sp, w) == TokenView::Filter);
        assert(keyword_for_upper(sp, sp) == TokenView::Filter);
    } else if i == 17 {
        lemma_keyword_17();
        assert(keyword_for_upper(sp, w) == TokenView::Aggregate);
        assert(keyword_for_upper(sp, sp) == TokenView::Aggregate);
    } else if i == 18 {
        lemma_keyword_18();
        assert(keyword_for_upper(sp, w) == TokenView::Convert);
        assert(keyword_for_upper(sp, sp) == TokenView::Convert);
    } else if i == 19 {
        lemma_keyword_19();
        assert(keyword_for_upper(sp, w) == TokenView::Merge);
        assert(keyword_for_upper(sp, sp) == TokenView::Merge);
    } else if i == 20 {
        lemma_keyword_20();
        assert(keyword_for_upper(sp, w) == TokenView::Split);
        assert(keyword_for_upper(sp, sp) == TokenView::Split);
    } else if i == 21 {
        lemma_keyword_21();
        assert(keyword_for_upper(sp, w) == TokenView::Validate);
        assert(keyword_for_upper(sp, sp) == TokenView::Validate);
    } else if i == 22 {
        lemma_keyword_22();
        assert(keyword_for_upper(sp, w) == TokenView::Extract);
        assert(keyword_for_upper(sp, sp) == TokenView::Extract);
    } else if i == 23 {
        lemma_keyword_23();
        assert(keyword_for_upper(sp, w) == TokenView::VideoMp4);
        assert(keyword_for_upper(sp, sp) == TokenView::VideoMp4);
    } else if i == 24 {
        lemma_keyword_24();
        assert(keyword_for_upper(sp, w) == TokenView::ImageJpg);
        assert(keyword_for_upper(sp, sp) == TokenView::ImageJpg);
    } else if i == 25 {
        lemma_keyword_25();
        assert(keyword_for_upper(sp, w) == TokenView::FinancialDecimal);
        assert(keyword_for_upper(sp, sp) == TokenView::FinancialDecimal);
    } else if i == 26 {
        lemma_keyword_26();
        assert(keyword_for_upper(sp, w) == TokenView::AudioWav);
        assert(keyword_for_upper(sp, sp) == TokenView::AudioWav);
    } else if i == 27 {
        lemma_keyword_27();
        assert(keyword_for_upper(sp, w) == TokenView::CsvTable);
        assert(keyword_for_upper(sp, sp) == TokenView::CsvTable);
    } else if i == 28 {
        lemma_keyword_28();
        assert(keyword_for_upper(sp, w) == TokenView::BinaryBlob);
        assert(keyword_for_upper(sp, sp) == TokenView::BinaryBlob);
    } else if i == 29 {
        lemma_keyword_29();
        assert(keyword_for_upper(sp, w) == TokenView::JsonObject);
        assert(keyword_for_upper(sp, sp) == TokenView::JsonObject);
    } else if i == 30 {
        lemma_keyword_30();
        assert(keyword_for_upper(sp, w) == TokenView::XmlDocument);
        assert(keyword_for_upper(sp, sp) == TokenView::XmlDocument);
    } else if i == 31 {
        lemma_keyword_31();
        assert(keyword_for_upper(sp, w) == TokenView::ParquetTable);
        assert(keyword_for_upper(sp, sp) == TokenView::ParquetTable);
    }
    law_word_lexes_to_its_token(sp);
}

// ---------------------------------------------------------------------------
// Statement fields, declarations and lowering follow the tokens
// ---------------------------------------------------------------------------

/// The keyword token of each data type.
pub open spec fn data_type_keyword(d: DataType) -> TokenView {
    match d {
        DataType::VideoMp4 => TokenView::VideoMp4,
        DataType::ImageJpg => TokenView::ImageJpg,
        DataType::FinancialDecimal => TokenView::FinancialDecimal,
        DataType::AudioWav => TokenView::AudioWav,
        DataType::CsvTable => TokenView::CsvTable,
        DataType::BinaryBlob => TokenView::BinaryBlob,
        DataType::JsonObject => TokenView::JsonObject,
        DataType::XmlDocument => TokenView::XmlDocument,
        DataType::ParquetTable => TokenView::ParquetTable,
    }
}

/// The variable that a token names: an identifier's text, or the spelling
/// of a data type keyword.
pub open spec fn variable_named(t: TokenView) -> Option<Seq<char>> {
    match t {
        TokenView::Identifier(n) => Some(n),
        TokenView::VideoMp4 => Some("VIDEO-MP4"@),
        TokenView::ImageJpg => Some("IMAGE-JPG"@),
        TokenView::FinancialDecimal => Some("FINANCIAL-DECIMAL"@),
        TokenView::AudioWav => Some("AUDIO-WAV"@),
        TokenView::CsvTable => Some("CSV-TABLE"@),
        TokenView::BinaryBlob => Some("BINARY-BLOB"@),
        TokenView::JsonObject => Some("JSON-OBJECT"@),
        TokenView::XmlDocument => Some("XML-DOCUMENT"@),
        TokenView::ParquetTable => Some("PARQUET-TABLE"@),
        _ => None,
    }
}

/// Whether statement `st`, read from `pos` up to `q`, is spelled by the
/// tokens there: its keyword, then its operands in the order the language
/// writes them, then a period.
pub open spec fn spelled_by(toks: Seq<TokenView>, pos: int, st: StatementView, q: int) -> bool {
    &&& 0 <= pos
    &&& q <= toks.len()
    &&& toks[pos] == statement_keyword(st)
    &&& toks[q - 1] is Period
    &&& match st {
        StatementView::Compress { target } => q == pos + 3 && variable_named(toks[pos + 1]) == Some(target),
        StatementView::VerifyIntegrity { target } => q == pos + 3 && variable_named(toks[pos + 1]) == Some(target),
        StatementView::Transcode { target, output_type } => q == pos + 4 && variable_named(toks[pos + 1]) == Some(
            target,
        ) && toks[pos + 2] == data_type_keyword(output_type),
        StatementView::Convert { target, output_type } => q == pos + 4 && variable_named(toks[pos + 1]) == Some(target)
            && toks[pos + 2] == data_type_keyword(output_type),
        StatementView::Filter { target, condition } => q == pos + 4 && variable_named(toks[pos + 1]) == Some(target)
            && toks[pos + 2] == TokenView::Identifier(condition),
        StatementView::Split { target, parts } => q == pos + 4 && variable_named(toks[pos + 1]) == Some(target)
            && toks[pos + 2] == TokenView::Identifier(parts),
        StatementView::Validate { target, schema } => q == pos + 4 && variable_named(toks[pos + 1]) == Some(target)
            && toks[pos + 2] == TokenView::Identifier(schema),
        StatementView::Aggregate { targets, operation } => q == pos + 4 && targets.len() == 1 && variable_named(
            toks[pos + 1],
        ) == Some(targets[0]) && toks[pos + 2] == TokenView::Identifier(operation),
        StatementView::Merge { targets, output_name } => q == pos + 4 && targets.len() == 1 && variable_named(
            toks[pos + 1],
        ) == Some(targets[0]) && toks[pos + 2] == TokenView::Identifier(output_name),
        StatementView::Extract { target, path } => q == pos + 4 && toks[pos + 1] == TokenView::Identifier(path)
            && variable_named(toks[pos + 2]) == Some(target),
    }
}

/// A statement that is read is spelled by the tokens it was read from: its
/// keyword, its operands in the language's order, and a closing period.
pub proof fn law_statement_fields_follow_tokens(toks: Seq<TokenView>, pos: nat)
    ensures
        statement_at(toks, pos) matches Ok((st, q)) ==> spelled_by(toks, pos as int, st, q as int),
{
    if let Ok((st, q)) = statement_at(toks, pos) {
        assert(pos < toks.len());
        assert(cur(toks, pos) == toks[pos as int]);
        if pos + 1 < toks.len() {
            assert(cur(toks, pos + 1) == toks[(pos + 1) as int]);
        }
        if pos + 2 < toks.len() {
            assert(cur(toks, pos + 2) == toks[(pos + 2) as int]);
        }
        if pos + 3 < toks.len() {
            assert(cur(toks, pos + 3) == toks[(pos + 3) as int]);
        }
    }
}

/// Every variable that the DATA DIVISION declares is read from an `INPUT`
/// or `OUTPUT` keyword followed by the keyword of the variable's type: the
/// declared types follow the tokens.
pub proof fn law_declarations_follow_tokens(toks: Seq<TokenView>, pos: nat, vars: Seq<VariableView>)
    requires
        pos <= toks.len(),
    ensures
        data_body(toks, pos, vars) matches Ok((all, _)) ==> all.len() >= vars.len() && (forall|k: int|
            0 <= k < vars.len() ==> #[trigger] all[k] == vars[k]) && forall|k: int|
            vars.len() <= k < all.len() ==> exists|p: int|
                pos <= p && p + 1 < toks.len() && (toks[p] is Input || toks[p] is Output) && #[trigger] toks[p + 1]
                    == data_type_keyword(#[trigger] all[k].data_type),
    decreases toks.len() - pos,
{
    let c = cur(toks, pos);
    if !(c is ProcedureDiv) && (c is Input || c is Output) {
        if let Ok((t, p)) = declaration(toks, pos) {
            crate::parser::lemma_declaration(toks, pos);
            let v = VariableView { name: data_type_name(t), data_type: t };
            law_declarations_follow_tokens(toks, p, vars.push(v));
            assert(toks[(pos + 1) as int] == data_type_keyword(t));
            if let Ok((all, _)) = data_body(toks, p, vars.push(v)) {
                assert forall|k: int| vars.len() <= k < all.len() implies exists|q: int|
                    pos <= q && q + 1 < toks.len() && (toks[q] is Input || toks[q] is Output) && #[trigger] toks[q + 1]
                        == data_type_keyword(#[trigger] all[k].data_type) by {
                    if k == vars.len() {
                        assert(all[k] == vars.push(v)[k]);
                        assert(toks[pos as int] == c);
                    }
                }
            }
        }
    }
}

/// The operation of the instruction that a statement of each kind lowers to.
pub open spec fn statement_opcode(s: StatementView) -> crate::ir::Opcode {
    match s {
        StatementView::Compress { .. } => crate::ir::Opcode::Compress,
        StatementView::VerifyIntegrity { .. } => crate::ir::Opcode::VerifyIntegrity,
        StatementView::Transcode { .. } => crate::ir::Opcode::Transcode,
        StatementView::Filter { .. } => crate::ir::Opcode::Filter,
        StatementView::Aggregate { .. } => crate::ir::Opcode::Aggregate,
        StatementView::Convert { .. } => crate::ir::Opcode::Convert,
        StatementView::Merge { .. } => crate::ir::Opcode::Merge,
        StatementView::Split { .. } => crate::ir::Opcode::Split,
        StatementView::Validate { .. } => crate::ir::Opcode::Validate,
        StatementView::Extract { .. } => crate::ir::Opcode::Extract,
    }
}

/// Lowering keeps what a statement says: the instruction's operation is the
/// statement's kind, its mnemonic is the statement keyword's spelling, and
/// its operands begin with the variables that the declaration check reads,
/// followed by one more operand (none for `COMPRESS` and `VERIFY-INTEGRITY`).
pub proof fn law_lowering_keeps_the_statement(s: StatementView, i: int)
    requires
        0 <= i < keyword_spellings().len(),
        keyword_spellings()[i].1 == statement_keyword(s),
    ensures
        lower_statement(s).opcode == statement_opcode(s),
        crate::ir::opcode_name(lower_statement(s).opcode) == keyword_spellings()[i].0,
        lower_statement(s).operands.take(statement_targets(s).len() as int) == statement_targets(s),
        lower_statement(s).operands.len() == statement_targets(s).len() + (if s is Compress || s is VerifyIntegrity {
            0int
        } else {
            1int
        }),
{
    assert(lower_statement(s).operands.take(statement_targets(s).len() as int) =~= statement_targets(s));
}

// ---------------------------------------------------------------------------
// Workspace search is complete; string literals and periods
// ---------------------------------------------------------------------------

proof fn lemma_matching_symbols_complete(symbols: Seq<(Seq<char>, nat)>, q: Seq<char>)
    ensures
        forall|k: int| 0 <= k < symbols.len() && contains_text(lowercase(#[trigger] symbols[k].0), q) ==> matching_symbols(
            symbols,
            q,
        ).contains(symbols[k]),
    decreases symbols.len(),
{
    if symbols.len() > 0 {
        let before = symbols.drop_last();
        lemma_matching_symbols_complete(before, q);
        let m = matching_symbols(symbols, q);
        let mb = matching_symbols(before, q);
        assert forall|k: int| 0 <= k < symbols.len() && contains_text(lowercase(#[trigger] symbols[k].0), q) implies m.contains(
            symbols[k],
        ) by {
            if k < before.len() {
                assert(symbols[k] == before[k]);
                assert(mb.contains(before[k]));
                let j = choose|j: int| 0 <= j < mb.len() && mb[j] == before[k];
                assert(m[j] == mb[j]);
            } else {
                assert(symbols[k] == symbols.last());
                assert(m[m.len() - 1] == symbols.last());
            }
        }
    }
}

/// A workspace search is complete: every predefined symbol whose lower-case
/// name holds the lower-case query is found.
pub proof fn law_workspace_symbols_complete(query: Seq<char>)
    ensures
        forall|k: int|
            0 <= k < predefined_symbols().len() && contains_text(lowercase(#[trigger] predefined_symbols()[k].0), lowercase(query))
                ==> matching_symbols(predefined_symbols(), lowercase(query)).contains(predefined_symbols()[k]),
{
    lemma_matching_symbols_complete(predefined_symbols(), lowercase(query));
}

/// A string literal lexes to one string token holding exactly the text
/// between its quotes, followed by `Eof`.
pub proof fn law_string_literal_lexes_to_its_text(x: Seq<char>)
    requires
        !x.contains('"'),
    ensures
        lex(seq!['"'] + x + seq!['"']) == Ok::<Seq<TokenView>, Seq<char>>(seq![TokenView::String(x), TokenView::Eof]),
{
    let s = seq!['"'] + x + seq!['"'];
    assert forall|k: nat| 1 <= k <= x.len() implies quote_end(s, k) == x.len() + 1 by {
        lemma_quote_end_inside(s, x, k);
    }
    assert(quote_end(s, 1) == x.len() + 1) by {
        lemma_quote_end_inside(s, x, 1);
    }
    assert(s.subrange(1, (x.len() + 1) as int) =~= x);
    assert(s.len() == x.len() + 2);
    assert(s[0] == '"');
    let n = (x.len() + 2) as nat;
    assert(lex_from(s, n, 1, (1 + n) as nat) == Ok::<Seq<TokenView>, Seq<char>>(seq![TokenView::Eof]));
    assert(lex_from(s, 0, 1, 1) == prepend(TokenView::String(x), lex_from(s, n, 1, (1 + n) as nat)));
    assert(seq![TokenView::String(x)] + seq![TokenView::Eof] =~= seq![TokenView::String(x), TokenView::Eof]);
}

proof fn lemma_quote_end_inside(s: Seq<char>, x: Seq<char>, k: nat)
    requires
        s == seq!['"'] + x + seq!['"'],
        !x.contains('"'),
        1 <= k <= x.len() + 1,
    ensures
        quote_end(s, k) == x.len() + 1,
    decreases x.len() + 1 - k,
{
    if k <= x.len() {
        assert(s[k as int] == x[k - 1]);
        assert(s[k as int] != '"');
        lemma_quote_end_inside(s, x, k + 1);
    } else {
        assert(s[k as int] == '"');
    }
}

/// A period lexes to the period token, and whitespace alone to nothing but
/// `Eof`.
pub proof fn law_period_and_whitespace()
    ensures
        lex(seq!['.']) == Ok::<Seq<TokenView>, Seq<char>>(seq![TokenView::Period, TokenView::Eof]),
        lex(seq![' ', '\t', '\r', '\n']) == Ok::<Seq<TokenView>, Seq<char>>(seq![TokenView::Eof]),
{
    let p = seq!['.'];
    assert(p.len() == 1 && p[0] == '.');
    assert(lex_from(p, 1, 1, 2) == Ok::<Seq<TokenView>, Seq<char>>(seq![TokenView::Eof]));
    assert(seq![TokenView::Period] + seq![TokenView::Eof] =~= seq![TokenView::Period, TokenView::Eof]);
    let w = seq![' ', '\t', '\r', '\n'];
    assert(w.len() == 4 && w[0] == ' ' && w[1] == '\t' && w[2] == '\r' && w[3] == '\n');
    assert(lex_from(w, 4, 2, 1) == Ok::<Seq<TokenView>, Seq<char>>(seq![TokenView::Eof]));
    assert(lex_from(w, 3, 1, 3) == lex_from(w, 4, 2, 1));
    assert(lex_from(w, 2, 1, 3) == lex_from(w, 3, 1, 3));
    assert(lex_from(w, 1, 1, 2) == lex_from(w, 2, 1, 3));
    assert(lex_from(w, 0, 1, 1) == lex_from(w, 1, 1, 2));
}

/// The data type operand of a lowered `TRANSCODE` or `CONVERT` is the
/// spelling of the output type's keyword.
pub proof fn law_lowered_type_is_its_spelling(target: Seq<char>, d: DataType, i: int)
    requires
        0 <= i < keyword_spellings().len(),
        keyword_spellings()[i].1 == data_type_keyword(d),
    ensures
        lower_statement(StatementView::Transcode { target, output_type: d }).operands == seq![target, keyword_spellings()[i].0],
        lower_statement(StatementView::Convert { target, output_type: d }).operands == seq![target, keyword_spellings()[i].0],
{
}

} // verus!
