//! Lexer: turns CENTRA-NF source text into a token sequence, failing fast
//! on the first character that no token can start with.

use vstd::prelude::*;

use crate::text::{chars_of, decimal, eq_str, owned, push_decimal, push_str, string_of};

verus! {

/// A token of CENTRA-NF source.
#[derive(Debug, Clone, PartialEq)]
pub enum Token {
    IdentificationDiv,
    EnvironmentDiv,
    DataDiv,
    ProcedureDiv,
    Division,
    ProgramId,
    Author,
    Version,
    Os,
    Arch,
    RuntimeVersion,
    Input,
    Output,
    Compress,
    VerifyIntegrity,
    Transcode,
    Filter,
    Aggregate,
    Convert,
    Merge,
    Split,
    Validate,
    Extract,
    VideoMp4,
    ImageJpg,
    FinancialDecimal,
    AudioWav,
    CsvTable,
    BinaryBlob,
    JsonObject,
    XmlDocument,
    ParquetTable,
    Identifier(String),
    String(String),
    Period,
    Eof,
}

/// The mathematical value of a token: its text payloads as character sequences.
pub enum TokenView {
    IdentificationDiv,
    EnvironmentDiv,
    DataDiv,
    ProcedureDiv,
    Division,
    ProgramId,
    Author,
    Version,
    Os,
    Arch,
    RuntimeVersion,
    Input,
    Output,
    Compress,
    VerifyIntegrity,
    Transcode,
    Filter,
    Aggregate,
    Convert,
    Merge,
    Split,
    Validate,
    Extract,
    VideoMp4,
    ImageJpg,
    FinancialDecimal,
    AudioWav,
    CsvTable,
    BinaryBlob,
    JsonObject,
    XmlDocument,
    ParquetTable,
    Identifier(Seq<char>),
    String(Seq<char>),
    Period,
    Eof,
}

impl View for Token {
    type V = TokenView;

    open spec fn view(&self) -> TokenView {
        match self {
            Token::IdentificationDiv => TokenView::IdentificationDiv,
            Token::EnvironmentDiv => TokenView::EnvironmentDiv,
            Token::DataDiv => TokenView::DataDiv,
            Token::ProcedureDiv => TokenView::ProcedureDiv,
            Token::Division => TokenView::Division,
            Token::ProgramId => TokenView::ProgramId,
            Token::Author => TokenView::Author,
            Token::Version => TokenView::Version,
            Token::Os => TokenView::Os,
            Token::Arch => TokenView::Arch,
            Token::RuntimeVersion => TokenView::RuntimeVersion,
            Token::Input => TokenView::Input,
            Token::Output => TokenView::Output,
            Token::Compress => TokenView::Compress,
            Token::VerifyIntegrity => TokenView::VerifyIntegrity,
            Token::Transcode => TokenView::Transcode,
            Token::Filter => TokenView::Filter,
            Token::Aggregate => TokenView::Aggregate,
            Token::Convert => TokenView::Convert,
            Token::Merge => TokenView::Merge,
            Token::Split => TokenView::Split,
            Token::Validate => TokenView::Validate,
            Token::Extract => TokenView::Extract,
            Token::VideoMp4 => TokenView::VideoMp4,
            Token::ImageJpg => TokenView::ImageJpg,
            Token::FinancialDecimal => TokenView::FinancialDecimal,
            Token::AudioWav => TokenView::AudioWav,
            Token::CsvTable => TokenView::CsvTable,
            Token::BinaryBlob => TokenView::BinaryBlob,
            Token::JsonObject => TokenView::JsonObject,
            Token::XmlDocument => TokenView::XmlDocument,
            Token::ParquetTable => TokenView::ParquetTable,
            Token::Identifier(s) => TokenView::Identifier(s@),
            Token::String(s) => TokenView::String(s@),
            Token::Period => TokenView::Period,
            Token::Eof => TokenView::Eof,
        }
    }
}

/// The views of a token sequence.
pub open spec fn token_views(ts: Seq<Token>) -> Seq<TokenView> {
    ts.map_values(|t: Token| t@)
}

/// How a token is written in messages: division tokens by their heading,
/// identifiers and strings with their text, and the other tokens by the name
/// of their variant.
pub open spec fn token_text(t: TokenView) -> Seq<char> {
    match t {
        TokenView::IdentificationDiv => "IDENTIFICATION DIVISION"@,
        TokenView::EnvironmentDiv => "ENVIRONMENT DIVISION"@,
        TokenView::DataDiv => "DATA DIVISION"@,
        TokenView::ProcedureDiv => "PROCEDURE DIVISION"@,
        TokenView::Division => "Division"@,
        TokenView::ProgramId => "ProgramId"@,
        TokenView::Author => "Author"@,
        TokenView::Version => "Version"@,
        TokenView::Os => "Os"@,
        TokenView::Arch => "Arch"@,
        TokenView::RuntimeVersion => "RuntimeVersion"@,
        TokenView::Input => "Input"@,
        TokenView::Output => "Output"@,
        TokenView::Compress => "Compress"@,
        TokenView::VerifyIntegrity => "VerifyIntegrity"@,
        TokenView::Transcode => "Transcode"@,
        TokenView::Filter => "Filter"@,
        TokenView::Aggregate => "Aggregate"@,
        TokenView::Convert => "Convert"@,
        TokenView::Merge => "Merge"@,
        TokenView::Split => "Split"@,
        TokenView::Validate => "Validate"@,
        TokenView::Extract => "Extract"@,
        TokenView::VideoMp4 => "VideoMp4"@,
        TokenView::ImageJpg => "ImageJpg"@,
        TokenView::FinancialDecimal => "FinancialDecimal"@,
        TokenView::AudioWav => "AudioWav"@,
        TokenView::CsvTable => "CsvTable"@,
        TokenView::BinaryBlob => "BinaryBlob"@,
        TokenView::JsonObject => "JsonObject"@,
        TokenView::XmlDocument => "XmlDocument"@,
        TokenView::ParquetTable => "ParquetTable"@,
        TokenView::Identifier(s) => "IDENTIFIER("@ + s + ")"@,
        TokenView::String(s) => "STRING("@ + s + ")"@,
        TokenView::Period => "."@,
        TokenView::Eof => "Eof"@,
    }
}

impl Token {
    /// How the token is written in messages (see `token_text`).
    pub fn to_string(&self) -> (s: String)
        ensures
            s@ == token_text(self@),
    {
        match self {
            Token::IdentificationDiv => owned("IDENTIFICATION DIVISION"),
            Token::EnvironmentDiv => owned("ENVIRONMENT DIVISION"),
            Token::DataDiv => owned("DATA DIVISION"),
            Token::ProcedureDiv => owned("PROCEDURE DIVISION"),
            Token::Division => owned("Division"),
            Token::ProgramId => owned("ProgramId"),
            Token::Author => owned("Author"),
            Token::Version => owned("Version"),
            Token::Os => owned("Os"),
            Token::Arch => owned("Arch"),
            Token::RuntimeVersion => owned("RuntimeVersion"),
            Token::Input => owned("Input"),
            Token::Output => owned("Output"),
            Token::Compress => owned("Compress"),
            Token::VerifyIntegrity => owned("VerifyIntegrity"),
            Token::Transcode => owned("Transcode"),
            Token::Filter => owned("Filter"),
            Token::Aggregate => owned("Aggregate"),
            Token::Convert => owned("Convert"),
            Token::Merge => owned("Merge"),
            Token::Split => owned("Split"),
            Token::Validate => owned("Validate"),
            Token::Extract => owned("Extract"),
            Token::VideoMp4 => owned("VideoMp4"),
            Token::ImageJpg => owned("ImageJpg"),
            Token::FinancialDecimal => owned("FinancialDecimal"),
            Token::AudioWav => owned("AudioWav"),
            Token::CsvTable => owned("CsvTable"),
            Token::BinaryBlob => owned("BinaryBlob"),
            Token::JsonObject => owned("JsonObject"),
            Token::XmlDocument => owned("XmlDocument"),
            Token::ParquetTable => owned("ParquetTable"),
            Token::Identifier(s) => {
                let mut v: Vec<char> = Vec::new();
                push_str(&mut v, "IDENTIFIER(");
                push_str(&mut v, s.as_str());
                push_str(&mut v, ")");
                string_of(&v)
            },
            Token::String(s) => {
                let mut v: Vec<char> = Vec::new();
                push_str(&mut v, "STRING(");
                push_str(&mut v, s.as_str());
                push_str(&mut v, ")");
                string_of(&v)
            },
            Token::Period => owned("."),
            Token::Eof => owned("Eof"),
        }
    }
}

/// The upper-case form of a text, as std's `str::to_uppercase` maps it by
/// Unicode's case tables.
pub uninterp spec fn uppercase(s: Seq<char>) -> Seq<char>;

/// Whether every character of a text is ASCII.
pub open spec fn is_ascii_text(s: Seq<char>) -> bool {
    forall|i: int| 0 <= i < s.len() ==> #[trigger] s[i] < '\u{80}'
}

/// A character with an ASCII lower-case letter replaced by its capital.
pub open spec fn ascii_capital(c: char) -> char {
    if 'a' <= c && c <= 'z' {
        ((c as int) - 32) as char
    } else {
        c
    }
}

/// A text with each ASCII lower-case letter replaced by its capital.
pub open spec fn ascii_capitals(s: Seq<char>) -> Seq<char> {
    s.map_values(|c: char| ascii_capital(c))
}

/// Calls std's `str::to_uppercase`. The contract names the result as a
/// function of the text alone, which Unicode's case tables decide, and
/// states what std documents for an ASCII text: each lower-case letter
/// becomes its capital and every other character stays.
#[verifier::external_body]
fn to_uppercase(s: &str) -> (r: String)
    ensures
        r@ == uppercase(s@),
        is_ascii_text(s@) ==> r@ == ascii_capitals(s@),
{
    s.to_uppercase()
}

/// The token for a word whose upper-case form is `upper`: the keyword
/// spelled `upper`, or else an identifier holding the word as written.
pub open spec fn keyword_for_upper(upper: Seq<char>, word: Seq<char>) -> TokenView {
    if upper == "IDENTIFICATION"@ {
        TokenView::IdentificationDiv
    } else if upper == "ENVIRONMENT"@ {
        TokenView::EnvironmentDiv
    } else if upper == "DATA"@ {
        TokenView::DataDiv
    } else if upper == "PROCEDURE"@ {
        TokenView::ProcedureDiv
    } else if upper == "DIVISION"@ {
        TokenView::Division
    } else if upper == "PROGRAM-ID"@ {
        TokenView::ProgramId
    } else if upper == "AUTHOR"@ {
        TokenView::Author
    } else if upper == "VERSION"@ {
        TokenView::Version
    } else if upper == "OS"@ {
        TokenView::Os
    } else if upper == "ARCH"@ {
        TokenView::Arch
    } else if upper == "RUNTIME-VERSION"@ {
        TokenView::RuntimeVersion
    } else if upper == "INPUT"@ {
        TokenView::Input
    } else if upper == "OUTPUT"@ {
        TokenView::Output
    } else if upper == "COMPRESS"@ {
        TokenView::Compress
    } else if upper == "VERIFY-INTEGRITY"@ {
        TokenView::VerifyIntegrity
    } else if upper == "TRANSCODE"@ {
        TokenView::Transcode
    } else if upper == "FILTER"@ {
        TokenView::Filter
    } else if upper == "AGGREGATE"@ {
        TokenView::Aggregate
    } else if upper == "CONVERT"@ {
        TokenView::Convert
    } else if upper == "MERGE"@ {
        TokenView::Merge
    } else if upper == "SPLIT"@ {
        TokenView::Split
    } else if upper == "VALIDATE"@ {
        TokenView::Validate
    } else if upper == "EXTRACT"@ {
        TokenView::Extract
    } else if upper == "VIDEO-MP4"@ {
        TokenView::VideoMp4
    } else if upper == "IMAGE-JPG"@ {
        TokenView::ImageJpg
    } else if upper == "FINANCIAL-DECIMAL"@ {
        TokenView::FinancialDecimal
    } else if upper == "AUDIO-WAV"@ {
        TokenView::AudioWav
    } else if upper == "CSV-TABLE"@ {
        TokenView::CsvTable
    } else if upper == "BINARY-BLOB"@ {
        TokenView::BinaryBlob
    } else if upper == "JSON-OBJECT"@ {
        TokenView::JsonObject
    } else if upper == "XML-DOCUMENT"@ {
        TokenView::XmlDocument
    } else if upper == "PARQUET-TABLE"@ {
        TokenView::ParquetTable
    } else {
        TokenView::Identifier(word)
    }
}

/// The upper-case form of a word: for an ASCII word its letters made
/// capitals, for any other word what `str::to_uppercase` gives.
pub open spec fn upper_form(word: Seq<char>) -> Seq<char> {
    if is_ascii_text(word) {
        ascii_capitals(word)
    } else {
        uppercase(word)
    }
}

/// The token for a word: the keyword spelled by the word's upper-case form,
/// or else an identifier holding the word as written.
pub open spec fn keyword_token(word: Seq<char>) -> TokenView {
    keyword_for_upper(upper_form(word), word)
}

/// The token for `word`, given its upper-case form `upper` (see
/// `keyword_for_upper`).
pub fn keyword_for(upper: &str, word: &str) -> (t: Token)
    ensures
        t@ == keyword_for_upper(upper@, word@),
{
    let u = chars_of(upper);
    if eq_str(&u, "IDENTIFICATION") {
        Token::IdentificationDiv
    } else if eq_str(&u, "ENVIRONMENT") {
        Token::EnvironmentDiv
    } else if eq_str(&u, "DATA") {
        Token::DataDiv
    } else if eq_str(&u, "PROCEDURE") {
        Token::ProcedureDiv
    } else if eq_str(&u, "DIVISION") {
        Token::Division
    } else if eq_str(&u, "PROGRAM-ID") {
        Token::ProgramId
    } else if eq_str(&u, "AUTHOR") {
        Token::Author
    } else if eq_str(&u, "VERSION") {
        Token::Version
    } else if eq_str(&u, "OS") {
        Token::Os
    } else if eq_str(&u, "ARCH") {
        Token::Arch
    } else if eq_str(&u, "RUNTIME-VERSION") {
        Token::RuntimeVersion
    } else if eq_str(&u, "INPUT") {
        Token::Input
    } else if eq_str(&u, "OUTPUT") {
        Token::Output
    } else if eq_str(&u, "COMPRESS") {
        Token::Compress
    } else if eq_str(&u, "VERIFY-INTEGRITY") {
        Token::VerifyIntegrity
    } else if eq_str(&u, "TRANSCODE") {
        Token::Transcode
    } else if eq_str(&u, "FILTER") {
        Token::Filter
    } else if eq_str(&u, "AGGREGATE") {
        Token::Aggregate
    } else if eq_str(&u, "CONVERT") {
        Token::Convert
    } else if eq_str(&u, "MERGE") {
        Token::Merge
    } else if eq_str(&u, "SPLIT") {
        Token::Split
    } else if eq_str(&u, "VALIDATE") {
        Token::Validate
    } else if eq_str(&u, "EXTRACT") {
        Token::Extract
    } else if eq_str(&u, "VIDEO-MP4") {
        Token::VideoMp4
    } else if eq_str(&u, "IMAGE-JPG") {
        Token::ImageJpg
    } else if eq_str(&u, "FINANCIAL-DECIMAL") {
        Token::FinancialDecimal
    } else if eq_str(&u, "AUDIO-WAV") {
        Token::AudioWav
    } else if eq_str(&u, "CSV-TABLE") {
        Token::CsvTable
    } else if eq_str(&u, "BINARY-BLOB") {
        Token::BinaryBlob
    } else if eq_str(&u, "JSON-OBJECT") {
        Token::JsonObject
    } else if eq_str(&u, "XML-DOCUMENT") {
        Token::XmlDocument
    } else if eq_str(&u, "PARQUET-TABLE") {
        Token::ParquetTable
    } else {
        Token::Identifier(owned(word))
    }
}

/// The token for a word (see `keyword_token`).
fn keyword_to_token(s: &str) -> (t: Token)
    ensures
        t@ == keyword_token(s@),
{
    let upper = to_uppercase(s);
    keyword_for(upper.as_str(), s)
}

/// Whether `c` can start an identifier or keyword.
pub open spec fn is_word_start(c: char) -> bool {
    ('A' <= c && c <= 'Z') || ('a' <= c && c <= 'z') || c == '_' || ('0' <= c && c <= '9')
}

/// Whether `c` can continue an identifier or keyword.
pub open spec fn is_word_char(c: char) -> bool {
    is_word_start(c) || c == '-'
}

/// The index of the first `"` at or after `i`, or the length of `s` if there is none.
pub open spec fn quote_end(s: Seq<char>, i: nat) -> nat
    decreases s.len() - i,
{
    if i >= s.len() {
        s.len()
    } else if s[i as int] == '"' {
        i
    } else {
        quote_end(s, i + 1)
    }
}

/// The index of the first character at or after `i` that cannot continue a
/// word, or the length of `s` if there is none.
pub open spec fn word_end(s: Seq<char>, i: nat) -> nat
    decreases s.len() - i,
{
    if i >= s.len() {
        s.len()
    } else if !is_word_char(s[i as int]) {
        i
    } else {
        word_end(s, i + 1)
    }
}

pub proof fn lemma_quote_end_bounds(s: Seq<char>, i: nat)
    ensures
        i <= quote_end(s, i) || (i > s.len() && quote_end(s, i) == s.len()),
        quote_end(s, i) <= s.len() || quote_end(s, i) == i,
        quote_end(s, i) < s.len() ==> s[quote_end(s, i) as int] == '"',
    decreases s.len() - i,
{
    if i < s.len() && s[i as int] != '"' {
        lemma_quote_end_bounds(s, i + 1);
    }
}

pub proof fn lemma_word_end_bounds(s: Seq<char>, i: nat)
    requires
        i <= s.len(),
    ensures
        i <= word_end(s, i) <= s.len(),
    decreases s.len() - i,
{
    if i < s.len() && is_word_char(s[i as int]) {
        lemma_word_end_bounds(s, i + 1);
    }
}

/// A token in front of a lexing result.
pub open spec fn prepend(t: TokenView, r: Result<Seq<TokenView>, Seq<char>>) -> Result<Seq<TokenView>, Seq<char>> {
    prepend_all(seq![t], r)
}

/// Tokens in front of a lexing result.
pub open spec fn prepend_all(pre: Seq<TokenView>, r: Result<Seq<TokenView>, Seq<char>>) -> Result<Seq<TokenView>, Seq<char>> {
    match r {
        Ok(ts) => Ok(pre + ts),
        Err(e) => Err(e),
    }
}

/// The message for a string literal that is not closed; `col` is the column
/// just past the end of the source.
pub open spec fn unterminated_message(line: nat, col: nat) -> Seq<char> {
    "Unterminated string at line "@ + decimal(line) + ":"@ + decimal(col)
}

/// The message for a character that cannot start a token.
pub open spec fn unrecognized_message(c: char, line: nat, col: nat) -> Seq<char> {
    "Unrecognized character '"@ + seq![c] + "' at line "@ + decimal(line) + ":"@ + decimal(col)
}

/// The tokens of `s` from index `i` on, where the character at `i` stands at
/// `line` and `col` (both counted from 1): spaces and tabs advance the column,
/// a line feed starts a new line, a carriage return is skipped, `.` is a
/// period, a `"` opens a string literal that runs to the next `"`, a letter,
/// digit or `_` opens a word of letters, digits, `_` and `-` that becomes a
/// keyword or an identifier, and any other character is an error. The
/// sequence always ends with `Eof`.
pub open spec fn lex_from(s: Seq<char>, i: nat, line: nat, col: nat) -> Result<Seq<TokenView>, Seq<char>>
    decreases s.len() - i,
{
    if i >= s.len() {
        Ok(seq![TokenView::Eof])
    } else {
        let c = s[i as int];
        if c == ' ' || c == '\t' {
            lex_from(s, i + 1, line, col + 1)
        } else if c == '\n' {
            lex_from(s, i + 1, line + 1, 1)
        } else if c == '\r' {
            lex_from(s, i + 1, line, col)
        } else if c == '.' {
            prepend(TokenView::Period, lex_from(s, i + 1, line, col + 1))
        } else if c == '"' {
            let j = quote_end(s, i + 1);
            if j >= s.len() {
                Err(unterminated_message(line, (col + (s.len() - i)) as nat))
            } else {
                proof {
                    lemma_quote_end_bounds(s, i + 1);
                }
                prepend(
                    TokenView::String(s.subrange((i + 1) as int, j as int)),
                    lex_from(s, j + 1, line, (col + (j - i) + 1) as nat),
                )
            }
        } else if is_word_start(c) {
            let j = word_end(s, i);
            proof {
                lemma_word_end_bounds(s, i + 1);
            }
            prepend(keyword_token(s.subrange(i as int, j as int)), lex_from(s, j, line, (col + (j - i)) as nat))
        } else {
            Err(unrecognized_message(c, line, col))
        }
    }
}

/// The tokens of a whole source text, or the message of the first error.
pub open spec fn lex(s: Seq<char>) -> Result<Seq<TokenView>, Seq<char>> {
    lex_from(s, 0, 1, 1)
}

/// Tokenizes CENTRA-NF source code, rejecting an unrecognized character or
/// an unterminated string literal with a message that names its position.
pub fn tokenize(source: &str) -> (r: Result<Vec<Token>, String>)
    requires
        source@.len() < usize::MAX,
    ensures
        match lex(source@) {
            Ok(ts) => r is Ok && token_views(r->Ok_0@) == ts,
            Err(e) => r is Err && r->Err_0@ == e,
        },
{
    let s = chars_of(source);
    let n = s.len();
    let mut tokens: Vec<Token> = Vec::new();
    let mut i: usize = 0;
    let mut line: usize = 1;
    let mut col: usize = 1;
    while i < n
        invariant
            n == s@.len(),
            s@ == source@,
            n < usize::MAX,
            i <= n,
            1 <= line <= i + 1,
            1 <= col <= i + 1,
            lex(s@) == prepend_all(token_views(tokens@), lex_from(s@, i as nat, line as nat, col as nat)),
        decreases n - i,
    {
        let ghost pre = token_views(tokens@);
        let c = s[i];
        if c == ' ' || c == '\t' {
            i = i + 1;
            col = col + 1;
        } else if c == '\n' {
            i = i + 1;
            line = line + 1;
            col = 1;
        } else if c == '\r' {
            i = i + 1;
        } else if c == '.' {
            tokens.push(Token::Period);
            proof {
                assert(token_views(tokens@) =~= pre + seq![TokenView::Period]);
                lemma_prepend_assoc(pre, TokenView::Period, lex_from(s@, (i + 1) as nat, line as nat, (col + 1) as nat));
            }
            i = i + 1;
            col = col + 1;
        } else if c == '"' {
            let mut j: usize = i + 1;
            let mut val: Vec<char> = Vec::new();
            while j < n && s[j] != '"'
                invariant
                    n == s@.len(),
                    i < j <= n,
                    s@[i as int] == '"',
                    val@ == s@.subrange(i + 1, j as int),
                    quote_end(s@, (i + 1) as nat) == quote_end(s@, j as nat),
                decreases n - j,
            {
                val.push(s[j]);
                j = j + 1;
                assert(val@ =~= s@.subrange(i + 1, j as int));
            }
            if j >= n {
                let mut msg: Vec<char> = Vec::new();
                push_str(&mut msg, "Unterminated string at line ");
                push_decimal(&mut msg, line);
                push_str(&mut msg, ":");
                push_decimal(&mut msg, col + (n - i));
                assert(msg@ =~= unterminated_message(line as nat, (col + (n - i)) as nat));
                return Err(string_of(&msg));
            }
            let t = Token::String(string_of(&val));
            tokens.push(t);
            proof {
                assert(token_views(tokens@) =~= pre + seq![t@]);
                lemma_prepend_assoc(pre, t@, lex_from(s@, (j + 1) as nat, line as nat, (col + (j - i) + 1) as nat));
            }
            col = col + (j - i) + 1;
            i = j + 1;
        } else if ('A' <= c && c <= 'Z') || ('a' <= c && c <= 'z') || c == '_' || ('0' <= c && c <= '9') {
            let mut j: usize = i;
            let mut word: Vec<char> = Vec::new();
            while j < n && is_word(s[j])
                invariant
                    n == s@.len(),
                    i <= j <= n,
                    word@ == s@.subrange(i as int, j as int),
                    word_end(s@, i as nat) == word_end(s@, j as nat),
                decreases n - j,
            {
                word.push(s[j]);
                j = j + 1;
                assert(word@ =~= s@.subrange(i as int, j as int));
            }
            let w = string_of(&word);
            let t = keyword_to_token(w.as_str());
            tokens.push(t);
            proof {
                assert(j > i);
                assert(token_views(tokens@) =~= pre + seq![t@]);
                lemma_prepend_assoc(pre, t@, lex_from(s@, j as nat, line as nat, (col + (j - i)) as nat));
            }
            col = col + (j - i);
            i = j;
        } else {
            let mut msg: Vec<char> = Vec::new();
            push_str(&mut msg, "Unrecognized character '");
            msg.push(c);
            push_str(&mut msg, "' at line ");
            push_decimal(&mut msg, line);
            push_str(&mut msg, ":");
            push_decimal(&mut msg, col);
            assert(msg@ =~= unrecognized_message(c, line as nat, col as nat));
            return Err(string_of(&msg));
        }
    }
    let ghost pre = token_views(tokens@);
    tokens.push(Token::Eof);
    assert(token_views(tokens@) =~= pre + seq![TokenView::Eof]);
    Ok(tokens)
}

fn is_word(c: char) -> (b: bool)
    ensures
        b == is_word_char(c),
{
    ('A' <= c && c <= 'Z') || ('a' <= c && c <= 'z') || c == '_' || ('0' <= c && c <= '9') || c == '-'
}

proof fn lemma_prepend_assoc(pre: Seq<TokenView>, t: TokenView, r: Result<Seq<TokenView>, Seq<char>>)
    ensures
        prepend_all(pre, prepend(t, r)) == prepend_all(pre + seq![t], r),
{
    if let Ok(ts) = r {
        assert(pre + (seq![t] + ts) =~= (pre + seq![t]) + ts);
    }
}

/// The position of a token's variant in the declaration of `Token`; two
/// tokens have the same variant exactly when their indices are equal.
pub open spec fn variant_index(t: TokenView) -> nat {
    match t {
        TokenView::IdentificationDiv => 0,
        TokenView::EnvironmentDiv => 1,
        TokenView::DataDiv => 2,
        TokenView::ProcedureDiv => 3,
        TokenView::Division => 4,
        TokenView::ProgramId => 5,
        TokenView::Author => 6,
        TokenView::Version => 7,
        TokenView::Os => 8,
        TokenView::Arch => 9,
        TokenView::RuntimeVersion => 10,
        TokenView::Input => 11,
        TokenView::Output => 12,
        TokenView::Compress => 13,
        TokenView::VerifyIntegrity => 14,
        TokenView::Transcode => 15,
        TokenView::Filter => 16,
        TokenView::Aggregate => 17,
        TokenView::Convert => 18,
        TokenView::Merge => 19,
        TokenView::Split => 20,
        TokenView::Validate => 21,
        TokenView::Extract => 22,
        TokenView::VideoMp4 => 23,
        TokenView::ImageJpg => 24,
        TokenView::FinancialDecimal => 25,
        TokenView::AudioWav => 26,
        TokenView::CsvTable => 27,
        TokenView::BinaryBlob => 28,
        TokenView::JsonObject => 29,
        TokenView::XmlDocument => 30,
        TokenView::ParquetTable => 31,
        TokenView::Identifier(_) => 32,
        TokenView::String(_) => 33,
        TokenView::Period => 34,
        TokenView::Eof => 35,
    }
}

impl Token {
    /// Whether two tokens are of the same variant, whatever their text.
    pub fn same_variant(&self, other: &Token) -> (b: bool)
        ensures
            b == (variant_index(self@) == variant_index(other@)),
    {
        self.index() == other.index()
    }

    fn index(&self) -> (i: usize)
        ensures
            i == variant_index(self@),
    {
        match self {
            Token::IdentificationDiv => 0,
            Token::EnvironmentDiv => 1,
            Token::DataDiv => 2,
            Token::ProcedureDiv => 3,
            Token::Division => 4,
            Token::ProgramId => 5,
            Token::Author => 6,
            Token::Version => 7,
            Token::Os => 8,
            Token::Arch => 9,
            Token::RuntimeVersion => 10,
            Token::Input => 11,
            Token::Output => 12,
            Token::Compress => 13,
            Token::VerifyIntegrity => 14,
            Token::Transcode => 15,
            Token::Filter => 16,
            Token::Aggregate => 17,
            Token::Convert => 18,
            Token::Merge => 19,
            Token::Split => 20,
            Token::Validate => 21,
            Token::Extract => 22,
            Token::VideoMp4 => 23,
            Token::ImageJpg => 24,
            Token::FinancialDecimal => 25,
            Token::AudioWav => 26,
            Token::CsvTable => 27,
            Token::BinaryBlob => 28,
            Token::JsonObject => 29,
            Token::XmlDocument => 30,
            Token::ParquetTable => 31,
            Token::Identifier(_) => 32,
            Token::String(_) => 33,
            Token::Period => 34,
            Token::Eof => 35,
        }
    }
}

} // verus!
