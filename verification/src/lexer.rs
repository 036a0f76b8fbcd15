//! The lexer: splits LDPL source into lines of tokens, with `#` comments
//! removed and `STORE QUOTE … END QUOTE` blocks kept raw.
use vstd::prelude::*;
use crate::error::LDPLError;
use crate::text::{upper, chars_string, exec_is_alnum, exec_is_digit, exec_is_letter, streq, str_chars, to_upper};

verus! {

/// What shape a token has.
#[derive(PartialEq, Eq, Structural, Clone, Copy, Debug)]
pub enum TokKind {
    /// A number literal.
    Number,
    /// A quoted text literal, quotes included.
    Text,
    /// A word: an identifier, keyword, or lookup chain.
    Word,
    /// One of the arithmetic operators `+ - * / %`.
    Op,
    /// `(` or `)`.
    Paren,
    /// The raw body of a `STORE QUOTE` block.
    Raw,
}

/// One token, with its original spelling, its uppercased spelling, and its
/// 1-based position.
pub struct Token {
    pub kind: TokKind,
    pub text: String,
    pub up: String,
    pub line: usize,
    pub col: usize,
}

/// Every token carries its own uppercased spelling.
pub open spec fn wf_token(t: Token) -> bool {
    t.up@ == upper(t.text@)
}

/// One source line holding at least one token.
pub struct Line {
    pub no: usize,
    pub toks: Vec<Token>,
}

pub open spec fn wf_line(l: Line) -> bool {
    &&& l.toks@.len() >= 1
    &&& forall|i: int| 0 <= i < l.toks@.len() ==> wf_token(#[trigger] l.toks@[i])
}

/// A word character: what identifiers and multi-word keywords are made of.
fn is_word_char(c: char) -> bool {
    exec_is_alnum(c) || c == '_' || c == '-' || c == '.'
}

/// Build a token over `cs[a..b]`.
fn mk_token(kind: TokKind, cs: &Vec<char>, a: usize, b: usize, line: usize, col: usize) -> (t:
    Token)
    requires
        a <= b <= cs@.len(),
    ensures
        wf_token(t),
        t.kind == kind,
        t.line == line,
        t.col == col,
        t.text@ == cs@.subrange(a as int, b as int),
{
    let mut piece: Vec<char> = Vec::new();
    let mut j: usize = a;
    while j < b
        invariant
            a <= j <= b <= cs@.len(),
            piece@ == cs@.subrange(a as int, j as int),
        decreases b - j,
    {
        piece.push(cs[j]);
        j = j + 1;
        proof {
            assert(piece@ =~= cs@.subrange(a as int, j as int));
        }
    }
    let text = chars_string(&piece);
    let up = to_upper(text.as_str());
    Token { kind, text, up, line, col }
}

/// Skip past a quoted text literal starting at the `"` at index `i`.
/// Returns the index one past the closing quote, or an error when the
/// string never closes before the end of the line.
fn scan_text(cs: &Vec<char>, i: usize, line: usize, col: usize) -> (r: Result<usize, LDPLError>)
    requires
        i < cs@.len(),
    ensures
        r is Ok ==> i < r.unwrap() <= cs@.len(),
{
    let n = cs.len();
    let mut j: usize = i + 1;
    while j < n
        invariant
            i < j <= n,
            n == cs@.len(),
        decreases n - j,
    {
        let c = cs[j];
        if c == '\\' {
            if j + 1 < n && cs[j + 1] != '\n' {
                j = j + 2;
            } else {
                j = j + 1;
            }
        } else if c == '"' {
            return Ok(j + 1);
        } else if c == '\n' {
            break;
        } else {
            j = j + 1;
        }
    }
    let mut msg = String::new();
    msg.append("unterminated text literal");
    Err(LDPLError::new(msg, line, col, 1))
}

/// Does the line lexed so far open a `STORE QUOTE` block?
fn opens_quote(toks: &Vec<Token>) -> (r: bool) {
    if toks.len() < 2 {
        return false;
    }
    streq(toks[0].up.as_str(), "STORE") && streq(toks[1].up.as_str(), "QUOTE")
}

/// Is `cs[a..b]`, once trimmed of blanks and uppercased, `END QUOTE`?
fn is_end_quote(cs: &Vec<char>, a: usize, b: usize) -> (r: bool)
    requires
        a <= b <= cs@.len(),
{
    let mut lo: usize = a;
    let mut hi: usize = b;
    while lo < hi && (cs[lo] == ' ' || cs[lo] == '\t' || cs[lo] == '\r')
        invariant
            a <= lo <= hi <= b <= cs@.len(),
        decreases hi - lo,
    {
        lo = lo + 1;
    }
    while hi > lo && (cs[hi - 1] == ' ' || cs[hi - 1] == '\t' || cs[hi - 1] == '\r')
        invariant
            a <= lo <= hi <= b <= cs@.len(),
        decreases hi,
    {
        hi = hi - 1;
    }
    let t = mk_token(TokKind::Word, cs, lo, hi, 0, 0);
    streq(t.up.as_str(), "END QUOTE")
}

/// Consume the raw body of a `STORE QUOTE` block. On entry `*i` sits on the
/// newline that ends the `STORE QUOTE` line; on success `*i` sits on the
/// newline (or end) after the `END QUOTE` line.
fn lex_raw(cs: &Vec<char>, i: &mut usize, line_no: &mut usize) -> (r: Result<String, LDPLError>)
    requires
        *old(i) < cs@.len(),
    ensures
        *old(i) < *final(i) <= cs@.len(),
{
    let n = cs.len();
    let mut j: usize = *i + 1;
    let mut ln: usize = *line_no;
    if ln < usize::MAX {
        ln = ln + 1;
    }
    let mut content: Vec<char> = Vec::new();
    let mut first = true;
    loop
        invariant
            *old(i) < j <= n,
            n == cs@.len(),
        decreases n - j,
    {
        if j >= n {
            *i = j;
            *line_no = ln;
            let mut msg = String::new();
            msg.append("STORE QUOTE without END QUOTE");
            return Err(LDPLError::new(msg, ln, 1, 1));
        }
        // scan one raw line
        let start: usize = j;
        while j < n && cs[j] != '\n'
            invariant
                start <= j <= n,
                n == cs@.len(),
            decreases n - j,
        {
            j = j + 1;
        }
        if is_end_quote(cs, start, j) {
            *i = j;
            *line_no = ln;
            return Ok(chars_string(&content));
        }
        if first {
            first = false;
        } else {
            content.push('\n');
        }
        let mut k: usize = start;
        while k < j
            invariant
                start <= k <= j <= n,
                n == cs@.len(),
            decreases j - k,
        {
            content.push(cs[k]);
            k = k + 1;
        }
        if j >= n {
            *i = j;
            *line_no = ln;
            let mut msg = String::new();
            msg.append("STORE QUOTE without END QUOTE");
            return Err(LDPLError::new(msg, ln, 1, 1));
        }
        j = j + 1;  // consume the newline
        if ln < usize::MAX {
            ln = ln + 1;
        }
    }
}

/// Split LDPL source into lines of tokens.
pub fn lex(source: &str) -> (r: Result<Vec<Line>, LDPLError>)
    ensures
        r is Ok ==> forall|k: int| 0 <= k < r.unwrap()@.len() ==> wf_line(#[trigger] r.unwrap()@[k]),
        source@.len() == 0 ==> r is Ok && r.unwrap()@.len() == 0,
{
    let cs = str_chars(source);
    let n = cs.len();
    let mut lines: Vec<Line> = Vec::new();
    let mut cur: Vec<Token> = Vec::new();
    let mut cur_no: usize = 1;
    let mut line_no: usize = 1;
    let mut col: usize = 1;
    let mut i: usize = 0;
    while i < n
        invariant
            i <= n,
            n == cs@.len(),
            cs@ == source@,
            n > 0 || (cur@.len() == 0 && lines@.len() == 0),
            forall|k: int| 0 <= k < lines@.len() ==> wf_line(#[trigger] lines@[k]),
            forall|k: int| 0 <= k < cur@.len() ==> wf_token(#[trigger] cur@[k]),
        decreases n - i,
    {
        let c = cs[i];
        if c == '\n' {
            if cur.len() > 0 {
                if opens_quote(&cur) {
                    let raw = match lex_raw(&cs, &mut i, &mut line_no) {
                        Ok(s) => s,
                        Err(e) => {
                            return Err(e);
                        },
                    };
                    let up = to_upper(raw.as_str());
                    cur.push(Token { kind: TokKind::Raw, text: raw, up, line: cur_no, col: 1 });
                    lines.push(Line { no: cur_no, toks: cur });
                    cur = Vec::new();
                    col = 1;
                    continue;
                }
                lines.push(Line { no: cur_no, toks: cur });
                cur = Vec::new();
            }
            i = i + 1;
            if line_no < usize::MAX {
                line_no = line_no + 1;
            }
            cur_no = line_no;
            col = 1;
        } else if c == ' ' || c == '\t' || c == '\r' {
            i = i + 1;
            if col < usize::MAX {
                col = col + 1;
            }
        } else if c == '#' {
            let hash_at = i;
            i = i + 1;
            while i < n && cs[i] != '\n'
                invariant
                    hash_at < i <= n,
                    n == cs@.len(),
                decreases n - i,
            {
                i = i + 1;
            }
        } else {
            // a token starts here
            if cur.len() == 0 {
                cur_no = line_no;
            }
            let tok_col = col;
            let start = i;
            let kind: TokKind;
            if c == '(' || c == ')' {
                i = i + 1;
                kind = TokKind::Paren;
            } else if c == '*' || c == '/' || c == '%' {
                i = i + 1;
                kind = TokKind::Op;
            } else if (c == '+' || c == '-') && !(i + 1 < n && exec_is_digit(cs[i + 1])) {
                i = i + 1;
                kind = TokKind::Op;
            } else if c == '+' || c == '-' || exec_is_digit(c) {
                i = i + 1;
                while i < n && exec_is_digit(cs[i])
                    invariant
                        start < i <= n,
                        n == cs@.len(),
                    decreases n - i,
                {
                    i = i + 1;
                }
                if i < n && cs[i] == '.' && i + 1 < n && exec_is_digit(cs[i + 1]) {
                    i = i + 2;
                    while i < n && exec_is_digit(cs[i])
                        invariant
                            start < i <= n,
                            n == cs@.len(),
                        decreases n - i,
                    {
                        i = i + 1;
                    }
                }
                kind = TokKind::Number;
            } else if c == '"' {
                i = match scan_text(&cs, i, line_no, tok_col) {
                    Ok(j) => j,
                    Err(e) => {
                        return Err(e);
                    },
                };
                kind = TokKind::Text;
            } else {
                // a word: identifier characters, with `:`-separated
                // subscripts whose quoted segments are kept whole
                i = i + 1;
                while i < n
                    invariant
                        start < i <= n,
                        n == cs@.len(),
                        cs@ == source@,
                    decreases n - i,
                {
                    let w = cs[i];
                    if is_word_char(w) || w == ':' {
                        if w == ':' && i + 1 < n && cs[i + 1] == '"' {
                            i = match scan_text(&cs, i + 1, line_no, tok_col) {
                                Ok(j) => j,
                                Err(e) => {
                                    return Err(e);
                                },
                            };
                        } else {
                            i = i + 1;
                        }
                    } else {
                        break;
                    }
                }
                kind = TokKind::Word;
            }
            let t = mk_token(kind, &cs, start, i, line_no, tok_col);
            cur.push(t);
            let width = i - start;
            if col <= usize::MAX - width {
                col = col + width;
            }
        }
    }
    if cur.len() > 0 {
        if opens_quote(&cur) {
            let mut msg = String::new();
            msg.append("STORE QUOTE without END QUOTE");
            return Err(LDPLError::new(msg, cur_no, 1, 1));
        }
        lines.push(Line { no: cur_no, toks: cur });
    }
    Ok(lines)
}

} // verus!
