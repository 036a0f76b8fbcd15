//! The parser: from lexed lines to the labeled parse tree.
use vstd::prelude::*;
use crate::ast::{is_leaf, wf_expr, wf_lookup, Node, Rule};
use crate::error::LDPLError;
use crate::lexer::{lex, wf_line, Line, TokKind, Token};
use crate::mangle::{is_ident, is_ident_char};
use crate::text::{str_chars, streq};

verus! {

/// Does this token spell the given (already uppercase) keyword?
fn kw(t: &Token, s: &str) -> (r: bool)
    ensures
        r == (t.up@ == s@),
{
    streq(t.up.as_str(), s)
}

/// A parse error at a token.
fn perr(line: usize, col: usize, msg: &str) -> (r: LDPLError)
    ensures
        r.details@ == msg@,
        r.line == line,
        r.col == col,
{
    let mut details = String::new();
    details.append(msg);
    LDPLError::new(details, line, col, 1)
}

/// Is this string a well-formed identifier?
pub fn ident_ok(s: &str) -> (r: bool)
    ensures
        r == is_ident(s@),
{
    let cs = str_chars(s);
    if cs.len() == 0 {
        return false;
    }
    let c0 = cs[0];
    if !(crate::text::exec_is_letter(c0) || c0 == '_') {
        return false;
    }
    let mut i: usize = 0;
    while i < cs.len()
        invariant
            i <= cs@.len(),
            cs@ == s@,
            forall|j: int| 0 <= j < i ==> is_ident_char(#[trigger] s@[j]),
        decreases cs@.len() - i,
    {
        let c = cs[i];
        if !(crate::text::exec_is_alnum(c) || c == '_' || c == '-' || c == '.') {
            return false;
        }
        i = i + 1;
    }
    true
}

/// Is this string shaped like a number literal?
fn number_ok(s: &str) -> (r: bool)
    ensures
        r == crate::numbers::is_num_lit(s@),
{
    matches!(crate::numbers::canon_number(s), Some(_))
}

/// Split the text of a word token at the `:` separators that stand outside
/// its quoted segments; each piece keeps its spelling.
fn split_lookup(t: &Token) -> (parts: Vec<String>)
    ensures
        parts@.len() >= 1,
{
    let cs = str_chars(t.text.as_str());
    let n = cs.len();
    let mut parts: Vec<String> = Vec::new();
    let mut piece: Vec<char> = Vec::new();
    let mut i: usize = 0;
    while i < n
        invariant
            i <= n,
            n == cs@.len(),
        decreases n - i,
    {
        let c = cs[i];
        if c == ':' {
            parts.push(crate::text::chars_string(&piece));
            piece = Vec::new();
            i = i + 1;
        } else if c == '"' {
            piece.push(c);
            let q0 = i;
            i = i + 1;
            while i < n
                invariant
                    q0 < i <= n,
                    n == cs@.len(),
                decreases n - i,
            {
                let d = cs[i];
                piece.push(d);
                if d == '\\' && i + 1 < n {
                    piece.push(cs[i + 1]);
                    i = i + 2;
                } else {
                    i = i + 1;
                    if d == '"' {
                        break;
                    }
                }
            }
        } else {
            piece.push(c);
            i = i + 1;
        }
    }
    parts.push(crate::text::chars_string(&piece));
    parts
}

/// Classify one piece of a lookup chain.
fn lookup_part(text: &String, line: usize, col: usize) -> (r: Result<Node, LDPLError>)
    ensures
        r is Ok ==> is_leaf(r.unwrap(), Rule::Ident) && is_ident(r.unwrap().text@) || is_leaf(
            r.unwrap(),
            Rule::Number,
        ) || is_leaf(r.unwrap(), Rule::Text),
{
    let s = text.as_str();
    if s.unicode_len() > 0 && s.get_char(0) == '"' {
        let mut copy = String::new();
        copy.append(s);
        Ok(Node::leaf(Rule::Text, copy, line, col))
    } else if number_ok(s) {
        let mut copy = String::new();
        copy.append(s);
        Ok(Node::leaf(Rule::Number, copy, line, col))
    } else if ident_ok(s) {
        let mut copy = String::new();
        copy.append(s);
        Ok(Node::leaf(Rule::Ident, copy, line, col))
    } else {
        Err(perr(line, col, "expected an index: a number, text, or variable"))
    }
}

/// Turn a word token into a variable reference: a bare identifier, or a
/// lookup chain when `:` separators are present.
fn parse_var_word(t: &Token) -> (r: Result<Node, LDPLError>)
    ensures
        r is Ok ==> wf_expr(r.unwrap()) && r.unwrap().rule == Rule::Var && r.unwrap().text@
            == t.text@,
{
    let parts = split_lookup(t);
    if parts.len() == 1 {
        if ident_ok(parts[0].as_str()) && streq(parts[0].as_str(), t.text.as_str()) {
            let ident = Node::leaf(Rule::Ident, parts[0].clone(), t.line, t.col);
            let mut kids: Vec<Node> = Vec::new();
            kids.push(ident);
            let text = parts[0].clone();
            proof {
                assert(text@ == t.text@);
            }
            return Ok(Node::branch(Rule::Var, text, t.line, t.col, kids));
        }
        return Err(perr(t.line, t.col, "expected number, text, linefeed, or var"));
    }
    // a lookup chain
    if !ident_ok(parts[0].as_str()) {
        return Err(perr(t.line, t.col, "expected number, text, linefeed, or var"));
    }
    let base = Node::leaf(Rule::Ident, parts[0].clone(), t.line, t.col);
    let mut kids: Vec<Node> = Vec::new();
    kids.push(base);
    let mut i: usize = 1;
    while i < parts.len()
        invariant
            1 <= i <= parts@.len(),
            kids@.len() == i,
            is_leaf(kids@[0], Rule::Ident) && is_ident(kids@[0].text@),
            forall|j: int|
                1 <= j < i ==> (is_leaf(#[trigger] kids@[j], Rule::Ident) && is_ident(
                    kids@[j].text@,
                ) || is_leaf(kids@[j], Rule::Number) || is_leaf(kids@[j], Rule::Text)),
        decreases parts@.len() - i,
    {
        let part = match lookup_part(&parts[i], t.line, t.col) {
            Ok(p) => p,
            Err(e) => {
                return Err(e);
            },
        };
        kids.push(part);
        i = i + 1;
    }
    let mut text = String::new();
    text.append(t.text.as_str());
    let lookup = Node::branch(Rule::Lookup, text, t.line, t.col, kids);
    proof {
        assert(wf_lookup(lookup));
    }
    let mut vkids: Vec<Node> = Vec::new();
    vkids.push(lookup);
    let mut vtext = String::new();
    vtext.append(t.text.as_str());
    Ok(Node::branch(Rule::Var, vtext, t.line, t.col, vkids))
}

/// Turn one token into an expression node.
fn tok_expr(t: &Token) -> (r: Result<Node, LDPLError>)
    ensures
        r is Ok ==> wf_expr(r.unwrap()) && r.unwrap().text@ == t.text@,
{
    match t.kind {
        TokKind::Number => {
            let mut text = String::new();
            text.append(t.text.as_str());
            Ok(Node::leaf(Rule::Number, text, t.line, t.col))
        },
        TokKind::Text => {
            let mut text = String::new();
            text.append(t.text.as_str());
            Ok(Node::leaf(Rule::Text, text, t.line, t.col))
        },
        TokKind::Word => {
            if kw(t, "CRLF") || kw(t, "LF") {
                let mut text = String::new();
                text.append(t.text.as_str());
                Ok(Node::leaf(Rule::Linefeed, text, t.line, t.col))
            } else {
                parse_var_word(t)
            }
        },
        _ => Err(perr(t.line, t.col, "expected number, text, linefeed, or var")),
    }
}

/// Parse a single expression, as `3.14`, `"hi"`, or `xs:5`.
pub fn parse_expr(source: &str) -> (r: Result<Node, LDPLError>)
    ensures
        r is Ok ==> wf_expr(r.unwrap()),
{
    let lines = match lex(source) {
        Ok(l) => l,
        Err(e) => {
            return Err(e);
        },
    };
    if lines.len() != 1 {
        return Err(perr(1, 1, "expected number, text, linefeed, or var"));
    }
    if lines[0].toks.len() != 1 {
        return Err(perr(1, 1, "expected number, text, linefeed, or var"));
    }
    tok_expr(&lines[0].toks[0])
}


/// The lines handed to the statement parser all hold at least one token.
pub open spec fn wf_lines(lines: Seq<Line>) -> bool {
    forall|k: int| 0 <= k < lines.len() ==> wf_line(#[trigger] lines[k])
}

/// The rules a parsed statement node may carry.
pub open spec fn is_stmt_rule(r: Rule) -> bool {
    ||| r == Rule::CallStmt
    ||| r == Rule::IfStmt
    ||| r == Rule::ElseStmt
    ||| r == Rule::WhileStmt
    ||| r == Rule::ForStmt
    ||| r == Rule::ForEachStmt
    ||| r == Rule::LoopKwStmt
    ||| r == Rule::ReturnStmt
    ||| r == Rule::GotoStmt
    ||| r == Rule::LabelStmt
    ||| r == Rule::ExitStmt
    ||| r == Rule::WaitStmt
    ||| r == Rule::StoreQuoteStmt
    ||| r == Rule::StoreStmt
    ||| r == Rule::SolveStmt
    ||| r == Rule::FloorStmt
    ||| r == Rule::ModuloStmt
    ||| r == Rule::JoinStmt
    ||| r == Rule::OldJoinStmt
    ||| r == Rule::ReplaceStmt
    ||| r == Rule::SplitStmt
    ||| r == Rule::GetCharStmt
    ||| r == Rule::GetAsciiStmt
    ||| r == Rule::GetCharCodeStmt
    ||| r == Rule::GetIndexStmt
    ||| r == Rule::CountStmt
    ||| r == Rule::SubstrStmt
    ||| r == Rule::TrimStmt
    ||| r == Rule::PushStmt
    ||| r == Rule::DeleteStmt
    ||| r == Rule::GetKeysCountStmt
    ||| r == Rule::GetKeysStmt
    ||| r == Rule::ClearStmt
    ||| r == Rule::CopyStmt
    ||| r == Rule::GetLengthStmt
    ||| r == Rule::DisplayStmt
    ||| r == Rule::AcceptStmt
    ||| r == Rule::LoadStmt
    ||| r == Rule::WriteStmt
    ||| r == Rule::AppendStmt
    ||| r == Rule::ExecuteStmt
    ||| r == Rule::UserStmt
    ||| r == Rule::SubDefStmt
    ||| r == Rule::CreateStmtStmt
}

/// The block a statement list is parsed inside, which decides its
/// terminator.
#[derive(PartialEq, Eq, Structural, Clone, Copy, Debug)]
enum Ctx {
    Top,
    IfBlock,
    LoopBlock,
    SubBlock,
}

/// The token at position `i` of the line, or a positioned error.
fn tok_at<'a>(line: &'a Line, i: usize) -> (r: Result<&'a Token, LDPLError>)
    ensures
        r is Ok <==> i < line.toks@.len(),
        r is Ok ==> r.unwrap() == &line.toks@[i as int],
{
    if i < line.toks.len() {
        Ok(&line.toks[i])
    } else {
        Err(perr(line.no, 1, "unexpected end of statement"))
    }
}

/// The expression at position `i` of the line.
fn expr_at(line: &Line, i: usize) -> (r: Result<Node, LDPLError>)
    ensures
        r is Ok ==> wf_expr(r.unwrap()),
{
    let t = match tok_at(line, i) {
        Ok(t) => t,
        Err(e) => {
            return Err(e);
        },
    };
    tok_expr(t)
}

/// The variable reference at position `i` of the line.
fn var_at(line: &Line, i: usize) -> (r: Result<Node, LDPLError>)
    ensures
        r is Ok ==> wf_expr(r.unwrap()) && r.unwrap().rule == Rule::Var,
{
    let e = match expr_at(line, i) {
        Ok(e) => e,
        Err(e) => {
            return Err(e);
        },
    };
    if matches!(e.rule, Rule::Var) {
        Ok(e)
    } else {
        Err(perr(e.line, e.col, "expected a variable"))
    }
}

/// The bare identifier at position `i` of the line.
fn ident_at(line: &Line, i: usize) -> (r: Result<Node, LDPLError>)
    ensures
        r is Ok ==> is_leaf(r.unwrap(), Rule::Ident) && is_ident(r.unwrap().text@),
{
    let t = match tok_at(line, i) {
        Ok(t) => t,
        Err(e) => {
            return Err(e);
        },
    };
    if matches!(t.kind, TokKind::Word) && ident_ok(t.text.as_str()) {
        let mut text = String::new();
        text.append(t.text.as_str());
        Ok(Node::leaf(Rule::Ident, text, t.line, t.col))
    } else {
        Err(perr(t.line, t.col, "expected an identifier"))
    }
}

/// Demand the (uppercase) keyword `s` at position `i`.
fn expect_kw(line: &Line, i: usize, s: &str) -> (r: Result<(), LDPLError>) {
    let t = match tok_at(line, i) {
        Ok(t) => t,
        Err(e) => {
            return Err(e);
        },
    };
    if kw(t, s) {
        Ok(())
    } else {
        let mut msg = String::new();
        msg.append("expected the keyword ");
        msg.append(s);
        Err(LDPLError::new(msg, t.line, t.col, 1))
    }
}

/// Demand that the line ends at position `i`.
fn expect_end(line: &Line, i: usize) -> (r: Result<(), LDPLError>) {
    if i < line.toks.len() {
        let t = &line.toks[i];
        Err(perr(t.line, t.col, "unexpected trailing words in statement"))
    } else {
        Ok(())
    }
}

/// The texts of tokens `a..b`, joined with single blanks.
fn join_tok_texts(line: &Line, a: usize, b: usize) -> (r: String)
    requires
        b <= line.toks@.len(),
{
    let mut out = String::new();
    let mut i: usize = a;
    while i < b
        invariant
            a <= i,
            b <= line.toks@.len(),
        decreases b - i,
    {
        if i > a {
            out.append(" ");
        }
        out.append(line.toks[i].text.as_str());
        i = i + 1;
    }
    out
}

/// An empty-texted node of the given rule at the position of token `a`.
fn marker(line: &Line, a: usize, rule: Rule, kids: Vec<Node>) -> (r: Node)
    requires
        a < line.toks@.len(),
    ensures
        r.rule == rule,
        r.children == kids,
{
    let t = &line.toks[a];
    Node::branch(rule, String::new(), t.line, t.col, kids)
}

/// Saturating addition for token positions; a position past the end of the
/// line reads as "missing".
fn padd(x: usize, d: usize) -> (r: usize)
    ensures
        x + d <= usize::MAX ==> r == x + d,
        r >= x,
{
    if x > usize::MAX - d {
        usize::MAX
    } else {
        x + d
    }
}

/// One comparison: `<expr> IS <relation> <expr>`, spanning tokens `a..b`.
fn parse_one_test(line: &Line, a: usize, b: usize) -> (r: Result<Node, LDPLError>)
    requires
        a < b <= line.toks@.len(),
{
    let left = match expr_at(line, a) {
        Ok(e) => e,
        Err(e) => {
            return Err(e);
        },
    };
    let p1 = padd(a, 1);
    let p2 = padd(a, 2);
    let p3 = padd(a, 3);
    let p4 = padd(a, 4);
    let p5 = padd(a, 5);
    let p6 = padd(a, 6);
    let p7 = padd(a, 7);
    if p1 >= b {
        return Err(perr(line.no, 1, "expected a comparison"));
    }
    match expect_kw(line, p1, "IS") {
        Ok(()) => {},
        Err(e) => {
            return Err(e);
        },
    }
    if p2 >= b {
        return Err(perr(line.no, 1, "expected a comparison"));
    }
    let t2 = match tok_at(line, p2) {
        Ok(t) => t,
        Err(e) => {
            return Err(e);
        },
    };
    let rel: Rule;
    let ei: usize;
    if kw(t2, "EQUAL") {
        match expect_kw(line, p3, "TO") {
            Ok(()) => {},
            Err(e) => {
                return Err(e);
            },
        }
        rel = Rule::EqualExpr;
        ei = p4;
    } else if kw(t2, "NOT") {
        match expect_kw(line, p3, "EQUAL") {
            Ok(()) => {},
            Err(e) => {
                return Err(e);
            },
        }
        match expect_kw(line, p4, "TO") {
            Ok(()) => {},
            Err(e) => {
                return Err(e);
            },
        }
        rel = Rule::NotEqualExpr;
        ei = p5;
    } else if kw(t2, "GREATER") || kw(t2, "LESS") {
        let greater = kw(t2, "GREATER");
        match expect_kw(line, p3, "THAN") {
            Ok(()) => {},
            Err(e) => {
                return Err(e);
            },
        }
        let mut wide = false;
        if p6 < b {
            let t4 = match tok_at(line, p4) {
                Ok(t) => t,
                Err(e) => {
                    return Err(e);
                },
            };
            let t5 = match tok_at(line, p5) {
                Ok(t) => t,
                Err(e) => {
                    return Err(e);
                },
            };
            let t6 = match tok_at(line, p6) {
                Ok(t) => t,
                Err(e) => {
                    return Err(e);
                },
            };
            if kw(t4, "OR") && kw(t5, "EQUAL") && kw(t6, "TO") {
                wide = true;
            }
        }
        if wide {
            rel = if greater {
                Rule::GteExpr
            } else {
                Rule::LteExpr
            };
            ei = p7;
        } else {
            rel = if greater {
                Rule::GtExpr
            } else {
                Rule::LtExpr
            };
            ei = p4;
        }
    } else {
        return Err(perr(t2.line, t2.col, "expected a comparison word"));
    }
    if ei >= b {
        return Err(perr(line.no, 1, "expected the right side of a comparison"));
    }
    let right = match expr_at(line, ei) {
        Ok(e) => e,
        Err(e) => {
            return Err(e);
        },
    };
    if padd(ei, 1) != b {
        return Err(perr(line.no, 1, "unexpected words after a comparison"));
    }
    let relnode = Node::leaf(rel, String::new(), line.no, 1);
    let mut kids: Vec<Node> = Vec::new();
    kids.push(left);
    kids.push(relnode);
    kids.push(right);
    Ok(marker(line, a, Rule::OneTestExpr, kids))
}

/// Is the token at `i` a connector (`OR`/`AND`) in connector position?
/// The `OR` inside `GREATER THAN OR EQUAL TO` is no connector.
fn is_connector(line: &Line, i: usize, which: &str) -> (r: bool)
    requires
        i < line.toks@.len(),
{
    let n = line.toks.len();
    let t = &line.toks[i];
    if !kw(t, which) {
        return false;
    }
    if i > 0 && i + 1 < n {
        let prev = &line.toks[i - 1];
        let next = &line.toks[i + 1];
        if kw(prev, "THAN") && kw(next, "EQUAL") {
            return false;
        }
    }
    true
}

/// A chain of comparisons joined by `AND`, spanning tokens `a..b`.
fn parse_and_test(line: &Line, a: usize, b: usize) -> (r: Result<Node, LDPLError>)
    requires
        a < b <= line.toks@.len(),
{
    let mut acc: Option<Node> = None;
    let mut seg: usize = a;
    let mut i: usize = a;
    while i < b
        invariant
            a <= seg <= i <= b <= line.toks@.len(),
        decreases b - i,
    {
        if is_connector(line, i, "AND") {
            if seg >= i {
                return Err(perr(line.no, 1, "expected a comparison before AND"));
            }
            let one = match parse_one_test(line, seg, i) {
                Ok(n) => n,
                Err(e) => {
                    return Err(e);
                },
            };
            acc = match acc {
                None => Some(one),
                Some(prev) => {
                    let mut kids: Vec<Node> = Vec::new();
                    kids.push(prev);
                    kids.push(one);
                    Some(marker(line, a, Rule::AndTestExpr, kids))
                },
            };
            seg = i + 1;
        }
        i = i + 1;
    }
    if seg >= b {
        return Err(perr(line.no, 1, "expected a comparison after AND"));
    }
    let last = match parse_one_test(line, seg, b) {
        Ok(n) => n,
        Err(e) => {
            return Err(e);
        },
    };
    match acc {
        None => Ok(last),
        Some(prev) => {
            let mut kids: Vec<Node> = Vec::new();
            kids.push(prev);
            kids.push(last);
            Ok(marker(line, a, Rule::AndTestExpr, kids))
        },
    }
}

/// A full test: comparisons joined by `AND`, then by `OR`, spanning `a..b`;
/// wrapped in a `TestExpr` node.
fn parse_test(line: &Line, a: usize, b: usize) -> (r: Result<Node, LDPLError>)
    requires
        b <= line.toks@.len(),
{
    if a >= b {
        return Err(perr(line.no, 1, "expected a test"));
    }
    let mut acc: Option<Node> = None;
    let mut seg: usize = a;
    let mut i: usize = a;
    while i < b
        invariant
            a <= seg <= i <= b <= line.toks@.len(),
        decreases b - i,
    {
        if is_connector(line, i, "OR") {
            if seg >= i {
                return Err(perr(line.no, 1, "expected a comparison before OR"));
            }
            let part = match parse_and_test(line, seg, i) {
                Ok(n) => n,
                Err(e) => {
                    return Err(e);
                },
            };
            acc = match acc {
                None => Some(part),
                Some(prev) => {
                    let mut kids: Vec<Node> = Vec::new();
                    kids.push(prev);
                    kids.push(part);
                    Some(marker(line, a, Rule::OrTestExpr, kids))
                },
            };
            seg = i + 1;
        }
        i = i + 1;
    }
    if seg >= b {
        return Err(perr(line.no, 1, "expected a comparison after OR"));
    }
    let last = match parse_and_test(line, seg, b) {
        Ok(n) => n,
        Err(e) => {
            return Err(e);
        },
    };
    let joined = match acc {
        None => last,
        Some(prev) => {
            let mut kids: Vec<Node> = Vec::new();
            kids.push(prev);
            kids.push(last);
            marker(line, a, Rule::OrTestExpr, kids)
        },
    };
    let mut kids: Vec<Node> = Vec::new();
    kids.push(joined);
    Ok(marker(line, a, Rule::TestExpr, kids))
}

/// A math expression of a `SOLVE` statement, spanning tokens `a..b`:
/// operands, infix operators, and parenthesized sub-expressions.
fn parse_solve(line: &Line, a: usize, b: usize) -> (r: Result<Node, LDPLError>)
    requires
        a < b <= line.toks@.len(),
    decreases b - a,
{
    let mut kids: Vec<Node> = Vec::new();
    let mut i: usize = a;
    while i < b
        invariant
            a <= i <= b <= line.toks@.len(),
        decreases b - i,
    {
        let t = &line.toks[i];
        match t.kind {
            TokKind::Op => {
                let mut text = String::new();
                text.append(t.text.as_str());
                kids.push(Node::leaf(Rule::MathOp, text, t.line, t.col));
                i = i + 1;
            },
            TokKind::Paren => {
                if !streq(t.text.as_str(), "(") {
                    return Err(perr(t.line, t.col, "unmatched closing parenthesis"));
                }
                // find the matching parenthesis
                let mut depth: usize = 0;
                let mut j: usize = i + 1;
                let mut found: bool = false;
                while j < b
                    invariant_except_break
                        !found,
                    invariant
                        i < j <= b <= line.toks@.len(),
                        depth <= j,
                    ensures
                        found ==> i < j < b,
                    decreases b - j,
                {
                    let u = &line.toks[j];
                    if matches!(u.kind, TokKind::Paren) {
                        if streq(u.text.as_str(), "(") {
                            depth = depth + 1;
                        } else {
                            if depth == 0 {
                                found = true;
                                break;
                            } else {
                                depth = depth - 1;
                            }
                        }
                    }
                    j = j + 1;
                }
                if !found {
                    return Err(perr(t.line, t.col, "unmatched opening parenthesis"));
                }
                if i + 1 >= j {
                    return Err(perr(t.line, t.col, "empty parentheses"));
                }
                let inner = match parse_solve(line, i + 1, j) {
                    Ok(n) => n,
                    Err(e) => {
                        return Err(e);
                    },
                };
                kids.push(inner);
                i = j + 1;
            },
            _ => {
                let e = match tok_expr(t) {
                    Ok(n) => n,
                    Err(e) => {
                        return Err(e);
                    },
                };
                kids.push(e);
                i = i + 1;
            },
        }
    }
    if kids.len() == 0 {
        return Err(perr(line.no, 1, "expected a math expression"));
    }
    let t = &line.toks[a];
    Ok(Node::branch(Rule::SolveExpr, String::new(), t.line, t.col, kids))
}

/// One `name IS [EXTERNAL] <type>` line of a data section.
fn parse_data_line(line: &Line) -> (r: Result<Node, LDPLError>) {
    let ident = match ident_at(line, 0) {
        Ok(n) => n,
        Err(e) => {
            return Err(e);
        },
    };
    match expect_kw(line, 1, "IS") {
        Ok(()) => {},
        Err(e) => {
            return Err(e);
        },
    }
    let mut i: usize = 2;
    let mut ext = false;
    if i < line.toks.len() && kw(&line.toks[i], "EXTERNAL") {
        ext = true;
        i = i + 1;
    }
    if i >= line.toks.len() {
        return Err(perr(line.no, 1, "expected a type name"));
    }
    let t = &line.toks[i];
    let typename = join_tok_texts(line, i, line.toks.len());
    let tnode = Node::leaf(Rule::TypeName, typename, t.line, t.col);
    let mut kids: Vec<Node> = Vec::new();
    kids.push(ident);
    kids.push(tnode);
    let rule = if ext {
        Rule::ExternalTypeDef
    } else {
        Rule::TypeDef
    };
    Ok(marker(line, 0, rule, kids))
}

/// A line made of the single keyword `s` (which may be two words, as
/// `LOCAL DATA:`).
fn line_is(line: &Line, s0: &str, s1: &str) -> (r: bool) {
    if streq(s1, "") {
        line.toks.len() == 1 && kw(&line.toks[0], s0)
    } else {
        line.toks.len() == 2 && kw(&line.toks[0], s0) && kw(&line.toks[1], s1)
    }
}

/// One single-line statement.
#[verifier::rlimit(100)]
fn parse_simple(line: &Line) -> (r: Result<Node, LDPLError>)
    ensures
        r is Ok ==> is_stmt_rule(r.unwrap().rule),
{
    let n = line.toks.len();
    if n == 0 {
        return Err(perr(line.no, 1, "empty statement"));
    }
    let t0 = &line.toks[0];
    if kw(t0, "STORE") {
        if n >= 2 && kw(&line.toks[1], "QUOTE") {
            // STORE QUOTE IN var <raw>
            match expect_kw(line, 2, "IN") {
                Ok(()) => {},
                Err(e) => {
                    return Err(e);
                },
            }
            let var = match var_at(line, 3) {
                Ok(v) => v,
                Err(e) => {
                    return Err(e);
                },
            };
            let raw = match tok_at(line, 4) {
                Ok(t) => t,
                Err(e) => {
                    return Err(e);
                },
            };
            if !matches!(raw.kind, TokKind::Raw) {
                return Err(perr(raw.line, raw.col, "expected the quoted block"));
            }
            let mut text = String::new();
            text.append(raw.text.as_str());
            let qt = Node::leaf(Rule::QuoteText, text, raw.line, raw.col);
            let mut kids: Vec<Node> = Vec::new();
            kids.push(var);
            kids.push(qt);
            return Ok(marker(line, 0, Rule::StoreQuoteStmt, kids));
        }
        let e = match expr_at(line, 1) {
            Ok(e) => e,
            Err(e) => {
                return Err(e);
            },
        };
        match expect_kw(line, 2, "IN") {
            Ok(()) => {},
            Err(e) => {
                return Err(e);
            },
        }
        let var = match var_at(line, 3) {
            Ok(v) => v,
            Err(e) => {
                return Err(e);
            },
        };
        match expect_end(line, 4) {
            Ok(()) => {},
            Err(e) => {
                return Err(e);
            },
        }
        let mut kids: Vec<Node> = Vec::new();
        kids.push(e);
        kids.push(var);
        return Ok(marker(line, 0, Rule::StoreStmt, kids));
    }
    if kw(t0, "RETURN") {
        match expect_end(line, 1) {
            Ok(()) => {},
            Err(e) => {
                return Err(e);
            },
        }
        return Ok(marker(line, 0, Rule::ReturnStmt, Vec::new()));
    }
    if kw(t0, "BREAK") || kw(t0, "CONTINUE") {
        match expect_end(line, 1) {
            Ok(()) => {},
            Err(e) => {
                return Err(e);
            },
        }
        let mut text = String::new();
        text.append(t0.text.as_str());
        return Ok(Node::leaf(Rule::LoopKwStmt, text, t0.line, t0.col));
    }
    if kw(t0, "EXIT") {
        match expect_end(line, 1) {
            Ok(()) => {},
            Err(e) => {
                return Err(e);
            },
        }
        return Ok(marker(line, 0, Rule::ExitStmt, Vec::new()));
    }
    if kw(t0, "GOTO") || kw(t0, "LABEL") {
        let ident = match ident_at(line, 1) {
            Ok(n) => n,
            Err(e) => {
                return Err(e);
            },
        };
        match expect_end(line, 2) {
            Ok(()) => {},
            Err(e) => {
                return Err(e);
            },
        }
        let mut kids: Vec<Node> = Vec::new();
        kids.push(ident);
        let rule = if kw(t0, "GOTO") {
            Rule::GotoStmt
        } else {
            Rule::LabelStmt
        };
        return Ok(marker(line, 0, rule, kids));
    }
    if kw(t0, "WAIT") {
        let e = match expr_at(line, 1) {
            Ok(e) => e,
            Err(e) => {
                return Err(e);
            },
        };
        match expect_kw(line, 2, "MILLISECONDS") {
            Ok(()) => {},
            Err(e) => {
                return Err(e);
            },
        }
        match expect_end(line, 3) {
            Ok(()) => {},
            Err(e) => {
                return Err(e);
            },
        }
        let mut kids: Vec<Node> = Vec::new();
        kids.push(e);
        return Ok(marker(line, 0, Rule::WaitStmt, kids));
    }
    if kw(t0, "CALL") {
        let mut i: usize = 1;
        let mut ext = false;
        if n >= 2 && kw(&line.toks[1], "EXTERNAL") {
            ext = true;
            i = 2;
        }
        let ident = match ident_at(line, i) {
            Ok(id) => id,
            Err(e) => {
                return Err(e);
            },
        };
        i = i + 1;
        let mut kids: Vec<Node> = Vec::new();
        kids.push(ident);
        if i < n {
            match expect_kw(line, i, "WITH") {
                Ok(()) => {},
                Err(e) => {
                    return Err(e);
                },
            }
            i = i + 1;
            if i >= n {
                return Err(perr(line.no, 1, "expected arguments after WITH"));
            }
            while i < n
                invariant
                    i <= n,
                    n == line.toks@.len(),
                decreases n - i,
            {
                let e = match expr_at(line, i) {
                    Ok(e) => e,
                    Err(e) => {
                        return Err(e);
                    },
                };
                kids.push(e);
                i = i + 1;
            }
        }
        let inner_rule = if ext {
            Rule::CallExternalStmt
        } else {
            Rule::CallSubStmt
        };
        let inner = marker(line, 0, inner_rule, kids);
        let mut outer: Vec<Node> = Vec::new();
        outer.push(inner);
        return Ok(marker(line, 0, Rule::CallStmt, outer));
    }
    if kw(t0, "DISPLAY") {
        if n < 2 {
            return Err(perr(line.no, 1, "expected something to display"));
        }
        let mut kids: Vec<Node> = Vec::new();
        let mut i: usize = 1;
        while i < n
            invariant
                i <= n,
                n == line.toks@.len(),
            decreases n - i,
        {
            let e = match expr_at(line, i) {
                Ok(e) => e,
                Err(e) => {
                    return Err(e);
                },
            };
            kids.push(e);
            i = i + 1;
        }
        return Ok(marker(line, 0, Rule::DisplayStmt, kids));
    }
    if kw(t0, "ACCEPT") {
        let var = match var_at(line, 1) {
            Ok(v) => v,
            Err(e) => {
                return Err(e);
            },
        };
        let mut kids: Vec<Node> = Vec::new();
        kids.push(var);
        if n == 2 {
            let inner = marker(line, 0, Rule::AcceptVarStmt, kids);
            let mut outer: Vec<Node> = Vec::new();
            outer.push(inner);
            return Ok(marker(line, 0, Rule::AcceptStmt, outer));
        }
        match expect_kw(line, 2, "UNTIL") {
            Ok(()) => {},
            Err(e) => {
                return Err(e);
            },
        }
        match expect_kw(line, 3, "EOF") {
            Ok(()) => {},
            Err(e) => {
                return Err(e);
            },
        }
        match expect_end(line, 4) {
            Ok(()) => {},
            Err(e) => {
                return Err(e);
            },
        }
        let inner = marker(line, 0, Rule::AcceptEofStmt, kids);
        let mut outer: Vec<Node> = Vec::new();
        outer.push(inner);
        return Ok(marker(line, 0, Rule::AcceptStmt, outer));
    }
    if kw(t0, "IN") {
        let var = match var_at(line, 1) {
            Ok(v) => v,
            Err(e) => {
                return Err(e);
            },
        };
        let t2 = match tok_at(line, 2) {
            Ok(t) => t,
            Err(e) => {
                return Err(e);
            },
        };
        if kw(t2, "SOLVE") {
            if n <= 3 {
                return Err(perr(line.no, 1, "expected a math expression"));
            }
            let math = match parse_solve(line, 3, n) {
                Ok(m) => m,
                Err(e) => {
                    return Err(e);
                },
            };
            let mut kids: Vec<Node> = Vec::new();
            kids.push(var);
            kids.push(math);
            return Ok(marker(line, 0, Rule::SolveStmt, kids));
        }
        if kw(t2, "JOIN") {
            if n <= 3 {
                return Err(perr(line.no, 1, "expected values to join"));
            }
            let mut kids: Vec<Node> = Vec::new();
            kids.push(var);
            let mut i: usize = 3;
            while i < n
                invariant
                    i <= n,
                    n == line.toks@.len(),
                decreases n - i,
            {
                let e = match expr_at(line, i) {
                    Ok(e) => e,
                    Err(e) => {
                        return Err(e);
                    },
                };
                kids.push(e);
                i = i + 1;
            }
            return Ok(marker(line, 0, Rule::JoinStmt, kids));
        }
        return Err(perr(t2.line, t2.col, "expected SOLVE or JOIN"));
    }
    if kw(t0, "FLOOR") {
        let e = match expr_at(line, 1) {
            Ok(e) => e,
            Err(e) => {
                return Err(e);
            },
        };
        if n == 2 {
            let mut ikids: Vec<Node> = Vec::new();
            ikids.push(e);
            let inner = marker(line, 0, Rule::FloorMutStmt, ikids);
            let mut outer: Vec<Node> = Vec::new();
            outer.push(inner);
            return Ok(marker(line, 0, Rule::FloorStmt, outer));
        }
        match expect_kw(line, 2, "IN") {
            Ok(()) => {},
            Err(e) => {
                return Err(e);
            },
        }
        let var = match var_at(line, 3) {
            Ok(v) => v,
            Err(e) => {
                return Err(e);
            },
        };
        match expect_end(line, 4) {
            Ok(()) => {},
            Err(e) => {
                return Err(e);
            },
        }
        let mut ikids: Vec<Node> = Vec::new();
        ikids.push(e);
        ikids.push(var);
        let inner = marker(line, 0, Rule::FloorInStmt, ikids);
        let mut outer: Vec<Node> = Vec::new();
        outer.push(inner);
        return Ok(marker(line, 0, Rule::FloorStmt, outer));
    }
    if kw(t0, "MODULO") {
        // MODULO a BY b IN v
        let a = match expr_at(line, 1) {
            Ok(e) => e,
            Err(e) => {
                return Err(e);
            },
        };
        match expect_kw(line, 2, "BY") {
            Ok(()) => {},
            Err(e) => {
                return Err(e);
            },
        }
        let bexp = match expr_at(line, 3) {
            Ok(e) => e,
            Err(e) => {
                return Err(e);
            },
        };
        match expect_kw(line, 4, "IN") {
            Ok(()) => {},
            Err(e) => {
                return Err(e);
            },
        }
        let var = match var_at(line, 5) {
            Ok(v) => v,
            Err(e) => {
                return Err(e);
            },
        };
        match expect_end(line, 6) {
            Ok(()) => {},
            Err(e) => {
                return Err(e);
            },
        }
        let mut kids: Vec<Node> = Vec::new();
        kids.push(a);
        kids.push(bexp);
        kids.push(var);
        return Ok(marker(line, 0, Rule::ModuloStmt, kids));
    }
    if kw(t0, "JOIN") {
        // JOIN a AND b IN v
        let a = match expr_at(line, 1) {
            Ok(e) => e,
            Err(e) => {
                return Err(e);
            },
        };
        match expect_kw(line, 2, "AND") {
            Ok(()) => {},
            Err(e) => {
                return Err(e);
            },
        }
        let bexp = match expr_at(line, 3) {
            Ok(e) => e,
            Err(e) => {
                return Err(e);
            },
        };
        match expect_kw(line, 4, "IN") {
            Ok(()) => {},
            Err(e) => {
                return Err(e);
            },
        }
        let var = match var_at(line, 5) {
            Ok(v) => v,
            Err(e) => {
                return Err(e);
            },
        };
        match expect_end(line, 6) {
            Ok(()) => {},
            Err(e) => {
                return Err(e);
            },
        }
        let mut kids: Vec<Node> = Vec::new();
        kids.push(a);
        kids.push(bexp);
        kids.push(var);
        return Ok(marker(line, 0, Rule::OldJoinStmt, kids));
    }
    if kw(t0, "REPLACE") {
        // REPLACE a FROM b WITH c IN v
        let a = match expr_at(line, 1) {
            Ok(e) => e,
            Err(e) => {
                return Err(e);
            },
        };
        match expect_kw(line, 2, "FROM") {
            Ok(()) => {},
            Err(e) => {
                return Err(e);
            },
        }
        let bexp = match expr_at(line, 3) {
            Ok(e) => e,
            Err(e) => {
                return Err(e);
            },
        };
        match expect_kw(line, 4, "WITH") {
            Ok(()) => {},
            Err(e) => {
                return Err(e);
            },
        }
        let c = match expr_at(line, 5) {
            Ok(e) => e,
            Err(e) => {
                return Err(e);
            },
        };
        match expect_kw(line, 6, "IN") {
            Ok(()) => {},
            Err(e) => {
                return Err(e);
            },
        }
        let var = match var_at(line, 7) {
            Ok(v) => v,
            Err(e) => {
                return Err(e);
            },
        };
        match expect_end(line, 8) {
            Ok(()) => {},
            Err(e) => {
                return Err(e);
            },
        }
        let mut kids: Vec<Node> = Vec::new();
        kids.push(a);
        kids.push(bexp);
        kids.push(c);
        kids.push(var);
        return Ok(marker(line, 0, Rule::ReplaceStmt, kids));
    }
    if kw(t0, "SPLIT") {
        // SPLIT a BY b IN v
        let a = match expr_at(line, 1) {
            Ok(e) => e,
            Err(e) => {
                return Err(e);
            },
        };
        match expect_kw(line, 2, "BY") {
            Ok(()) => {},
            Err(e) => {
                return Err(e);
            },
        }
        let bexp = match expr_at(line, 3) {
            Ok(e) => e,
            Err(e) => {
                return Err(e);
            },
        };
        match expect_kw(line, 4, "IN") {
            Ok(()) => {},
            Err(e) => {
                return Err(e);
            },
        }
        let var = match var_at(line, 5) {
            Ok(v) => v,
            Err(e) => {
                return Err(e);
            },
        };
        match expect_end(line, 6) {
            Ok(()) => {},
            Err(e) => {
                return Err(e);
            },
        }
        let mut kids: Vec<Node> = Vec::new();
        kids.push(a);
        kids.push(bexp);
        kids.push(var);
        return Ok(marker(line, 0, Rule::SplitStmt, kids));
    }
    if kw(t0, "TRIM") {
        let a = match expr_at(line, 1) {
            Ok(e) => e,
            Err(e) => {
                return Err(e);
            },
        };
        match expect_kw(line, 2, "IN") {
            Ok(()) => {},
            Err(e) => {
                return Err(e);
            },
        }
        let var = match var_at(line, 3) {
            Ok(v) => v,
            Err(e) => {
                return Err(e);
            },
        };
        match expect_end(line, 4) {
            Ok(()) => {},
            Err(e) => {
                return Err(e);
            },
        }
        let mut kids: Vec<Node> = Vec::new();
        kids.push(a);
        kids.push(var);
        return Ok(marker(line, 0, Rule::TrimStmt, kids));
    }
    if kw(t0, "COUNT") {
        // COUNT a FROM b IN v
        let a = match expr_at(line, 1) {
            Ok(e) => e,
            Err(e) => {
                return Err(e);
            },
        };
        match expect_kw(line, 2, "FROM") {
            Ok(()) => {},
            Err(e) => {
                return Err(e);
            },
        }
        let bexp = match expr_at(line, 3) {
            Ok(e) => e,
            Err(e) => {
                return Err(e);
            },
        };
        match expect_kw(line, 4, "IN") {
            Ok(()) => {},
            Err(e) => {
                return Err(e);
            },
        }
        let var = match var_at(line, 5) {
            Ok(v) => v,
            Err(e) => {
                return Err(e);
            },
        };
        match expect_end(line, 6) {
            Ok(()) => {},
            Err(e) => {
                return Err(e);
            },
        }
        let mut kids: Vec<Node> = Vec::new();
        kids.push(a);
        kids.push(bexp);
        kids.push(var);
        return Ok(marker(line, 0, Rule::CountStmt, kids));
    }
    if kw(t0, "SUBSTRING") {
        // SUBSTRING a FROM b LENGTH c IN v
        let a = match expr_at(line, 1) {
            Ok(e) => e,
            Err(e) => {
                return Err(e);
            },
        };
        match expect_kw(line, 2, "FROM") {
            Ok(()) => {},
            Err(e) => {
                return Err(e);
            },
        }
        let bexp = match expr_at(line, 3) {
            Ok(e) => e,
            Err(e) => {
                return Err(e);
            },
        };
        match expect_kw(line, 4, "LENGTH") {
            Ok(()) => {},
            Err(e) => {
                return Err(e);
            },
        }
        let c = match expr_at(line, 5) {
            Ok(e) => e,
            Err(e) => {
                return Err(e);
            },
        };
        match expect_kw(line, 6, "IN") {
            Ok(()) => {},
            Err(e) => {
                return Err(e);
            },
        }
        let var = match var_at(line, 7) {
            Ok(v) => v,
            Err(e) => {
                return Err(e);
            },
        };
        match expect_end(line, 8) {
            Ok(()) => {},
            Err(e) => {
                return Err(e);
            },
        }
        let mut kids: Vec<Node> = Vec::new();
        kids.push(a);
        kids.push(bexp);
        kids.push(c);
        kids.push(var);
        return Ok(marker(line, 0, Rule::SubstrStmt, kids));
    }
    if kw(t0, "PUSH") {
        let a = match expr_at(line, 1) {
            Ok(e) => e,
            Err(e) => {
                return Err(e);
            },
        };
        match expect_kw(line, 2, "TO") {
            Ok(()) => {},
            Err(e) => {
                return Err(e);
            },
        }
        let var = match var_at(line, 3) {
            Ok(v) => v,
            Err(e) => {
                return Err(e);
            },
        };
        match expect_end(line, 4) {
            Ok(()) => {},
            Err(e) => {
                return Err(e);
            },
        }
        let mut kids: Vec<Node> = Vec::new();
        kids.push(a);
        kids.push(var);
        return Ok(marker(line, 0, Rule::PushStmt, kids));
    }
    if kw(t0, "DELETE") {
        // DELETE LAST ELEMENT OF v
        match expect_kw(line, 1, "LAST") {
            Ok(()) => {},
            Err(e) => {
                return Err(e);
            },
        }
        match expect_kw(line, 2, "ELEMENT") {
            Ok(()) => {},
            Err(e) => {
                return Err(e);
            },
        }
        match expect_kw(line, 3, "OF") {
            Ok(()) => {},
            Err(e) => {
                return Err(e);
            },
        }
        let var = match var_at(line, 4) {
            Ok(v) => v,
            Err(e) => {
                return Err(e);
            },
        };
        match expect_end(line, 5) {
            Ok(()) => {},
            Err(e) => {
                return Err(e);
            },
        }
        let mut kids: Vec<Node> = Vec::new();
        kids.push(var);
        return Ok(marker(line, 0, Rule::DeleteStmt, kids));
    }
    if kw(t0, "CLEAR") {
        let var = match var_at(line, 1) {
            Ok(v) => v,
            Err(e) => {
                return Err(e);
            },
        };
        match expect_end(line, 2) {
            Ok(()) => {},
            Err(e) => {
                return Err(e);
            },
        }
        let mut kids: Vec<Node> = Vec::new();
        kids.push(var);
        return Ok(marker(line, 0, Rule::ClearStmt, kids));
    }
    if kw(t0, "COPY") {
        let a = match expr_at(line, 1) {
            Ok(e) => e,
            Err(e) => {
                return Err(e);
            },
        };
        match expect_kw(line, 2, "TO") {
            Ok(()) => {},
            Err(e) => {
                return Err(e);
            },
        }
        let var = match var_at(line, 3) {
            Ok(v) => v,
            Err(e) => {
                return Err(e);
            },
        };
        match expect_end(line, 4) {
            Ok(()) => {},
            Err(e) => {
                return Err(e);
            },
        }
        let mut kids: Vec<Node> = Vec::new();
        kids.push(a);
        kids.push(var);
        return Ok(marker(line, 0, Rule::CopyStmt, kids));
    }
    if kw(t0, "LOAD") {
        // LOAD FILE p IN v
        match expect_kw(line, 1, "FILE") {
            Ok(()) => {},
            Err(e) => {
                return Err(e);
            },
        }
        let a = match expr_at(line, 2) {
            Ok(e) => e,
            Err(e) => {
                return Err(e);
            },
        };
        match expect_kw(line, 3, "IN") {
            Ok(()) => {},
            Err(e) => {
                return Err(e);
            },
        }
        let var = match var_at(line, 4) {
            Ok(v) => v,
            Err(e) => {
                return Err(e);
            },
        };
        match expect_end(line, 5) {
            Ok(()) => {},
            Err(e) => {
                return Err(e);
            },
        }
        let mut kids: Vec<Node> = Vec::new();
        kids.push(a);
        kids.push(var);
        return Ok(marker(line, 0, Rule::LoadStmt, kids));
    }
    if kw(t0, "WRITE") || kw(t0, "APPEND") {
        // WRITE e TO FILE p / APPEND e TO FILE p
        let a = match expr_at(line, 1) {
            Ok(e) => e,
            Err(e) => {
                return Err(e);
            },
        };
        match expect_kw(line, 2, "TO") {
            Ok(()) => {},
            Err(e) => {
                return Err(e);
            },
        }
        match expect_kw(line, 3, "FILE") {
            Ok(()) => {},
            Err(e) => {
                return Err(e);
            },
        }
        let p = match expr_at(line, 4) {
            Ok(e) => e,
            Err(e) => {
                return Err(e);
            },
        };
        match expect_end(line, 5) {
            Ok(()) => {},
            Err(e) => {
                return Err(e);
            },
        }
        let mut kids: Vec<Node> = Vec::new();
        kids.push(a);
        kids.push(p);
        let rule = if kw(t0, "WRITE") {
            Rule::WriteStmt
        } else {
            Rule::AppendStmt
        };
        return Ok(marker(line, 0, rule, kids));
    }
    if kw(t0, "EXECUTE") {
        let a = match expr_at(line, 1) {
            Ok(e) => e,
            Err(e) => {
                return Err(e);
            },
        };
        if n == 2 {
            let mut ikids: Vec<Node> = Vec::new();
            ikids.push(a);
            let inner = marker(line, 0, Rule::ExecuteExprStmt, ikids);
            let mut outer: Vec<Node> = Vec::new();
            outer.push(inner);
            return Ok(marker(line, 0, Rule::ExecuteStmt, outer));
        }
        match expect_kw(line, 2, "AND") {
            Ok(()) => {},
            Err(e) => {
                return Err(e);
            },
        }
        match expect_kw(line, 3, "STORE") {
            Ok(()) => {},
            Err(e) => {
                return Err(e);
            },
        }
        let t4 = match tok_at(line, 4) {
            Ok(t) => t,
            Err(e) => {
                return Err(e);
            },
        };
        if kw(t4, "OUTPUT") {
            match expect_kw(line, 5, "IN") {
                Ok(()) => {},
                Err(e) => {
                    return Err(e);
                },
            }
            let var = match var_at(line, 6) {
                Ok(v) => v,
                Err(e) => {
                    return Err(e);
                },
            };
            match expect_end(line, 7) {
                Ok(()) => {},
                Err(e) => {
                    return Err(e);
                },
            }
            let mut ikids: Vec<Node> = Vec::new();
            ikids.push(a);
            ikids.push(var);
            let inner = marker(line, 0, Rule::ExecuteOutputStmt, ikids);
            let mut outer: Vec<Node> = Vec::new();
            outer.push(inner);
            return Ok(marker(line, 0, Rule::ExecuteStmt, outer));
        }
        if kw(t4, "EXIT") {
            match expect_kw(line, 5, "CODE") {
                Ok(()) => {},
                Err(e) => {
                    return Err(e);
                },
            }
            match expect_kw(line, 6, "IN") {
                Ok(()) => {},
                Err(e) => {
                    return Err(e);
                },
            }
            let var = match var_at(line, 7) {
                Ok(v) => v,
                Err(e) => {
                    return Err(e);
                },
            };
            match expect_end(line, 8) {
                Ok(()) => {},
                Err(e) => {
                    return Err(e);
                },
            }
            let mut ikids: Vec<Node> = Vec::new();
            ikids.push(a);
            ikids.push(var);
            let inner = marker(line, 0, Rule::ExecuteExitCodeStmt, ikids);
            let mut outer: Vec<Node> = Vec::new();
            outer.push(inner);
            return Ok(marker(line, 0, Rule::ExecuteStmt, outer));
        }
        return Err(perr(t4.line, t4.col, "expected OUTPUT or EXIT CODE"));
    }
    if kw(t0, "GET") {
        let t1 = match tok_at(line, 1) {
            Ok(t) => t,
            Err(e) => {
                return Err(e);
            },
        };
        if kw(t1, "INDEX") {
            // GET INDEX OF a FROM b IN v
            match expect_kw(line, 2, "OF") {
                Ok(()) => {},
                Err(e) => {
                    return Err(e);
                },
            }
            let a = match expr_at(line, 3) {
                Ok(e) => e,
                Err(e) => {
                    return Err(e);
                },
            };
            match expect_kw(line, 4, "FROM") {
                Ok(()) => {},
                Err(e) => {
                    return Err(e);
                },
            }
            let bexp = match expr_at(line, 5) {
                Ok(e) => e,
                Err(e) => {
                    return Err(e);
                },
            };
            match expect_kw(line, 6, "IN") {
                Ok(()) => {},
                Err(e) => {
                    return Err(e);
                },
            }
            let var = match var_at(line, 7) {
                Ok(v) => v,
                Err(e) => {
                    return Err(e);
                },
            };
            match expect_end(line, 8) {
                Ok(()) => {},
                Err(e) => {
                    return Err(e);
                },
            }
            let mut kids: Vec<Node> = Vec::new();
            kids.push(a);
            kids.push(bexp);
            kids.push(var);
            return Ok(marker(line, 0, Rule::GetIndexStmt, kids));
        }
        if kw(t1, "CHARACTER") {
            let t2 = match tok_at(line, 2) {
                Ok(t) => t,
                Err(e) => {
                    return Err(e);
                },
            };
            if kw(t2, "CODE") {
                // GET CHARACTER CODE OF a IN v
                match expect_kw(line, 3, "OF") {
                    Ok(()) => {},
                    Err(e) => {
                        return Err(e);
                    },
                }
                let a = match expr_at(line, 4) {
                    Ok(e) => e,
                    Err(e) => {
                        return Err(e);
                    },
                };
                match expect_kw(line, 5, "IN") {
                    Ok(()) => {},
                    Err(e) => {
                        return Err(e);
                    },
                }
                let var = match var_at(line, 6) {
                    Ok(v) => v,
                    Err(e) => {
                        return Err(e);
                    },
                };
                match expect_end(line, 7) {
                    Ok(()) => {},
                    Err(e) => {
                        return Err(e);
                    },
                }
                let mut kids: Vec<Node> = Vec::new();
                kids.push(a);
                kids.push(var);
                return Ok(marker(line, 0, Rule::GetCharCodeStmt, kids));
            }
            // GET CHARACTER AT a FROM b IN v
            match expect_kw(line, 2, "AT") {
                Ok(()) => {},
                Err(e) => {
                    return Err(e);
                },
            }
            let a = match expr_at(line, 3) {
                Ok(e) => e,
                Err(e) => {
                    return Err(e);
                },
            };
            match expect_kw(line, 4, "FROM") {
                Ok(()) => {},
                Err(e) => {
                    return Err(e);
                },
            }
            let bexp = match expr_at(line, 5) {
                Ok(e) => e,
                Err(e) => {
                    return Err(e);
                },
            };
            match expect_kw(line, 6, "IN") {
                Ok(()) => {},
                Err(e) => {
                    return Err(e);
                },
            }
            let var = match var_at(line, 7) {
                Ok(v) => v,
                Err(e) => {
                    return Err(e);
                },
            };
            match expect_end(line, 8) {
                Ok(()) => {},
                Err(e) => {
                    return Err(e);
                },
            }
            let mut kids: Vec<Node> = Vec::new();
            kids.push(a);
            kids.push(bexp);
            kids.push(var);
            return Ok(marker(line, 0, Rule::GetCharStmt, kids));
        }
        if kw(t1, "ASCII") {
            // GET ASCII CHARACTER a IN v
            match expect_kw(line, 2, "CHARACTER") {
                Ok(()) => {},
                Err(e) => {
                    return Err(e);
                },
            }
            let a = match expr_at(line, 3) {
                Ok(e) => e,
                Err(e) => {
                    return Err(e);
                },
            };
            match expect_kw(line, 4, "IN") {
                Ok(()) => {},
                Err(e) => {
                    return Err(e);
                },
            }
            let var = match var_at(line, 5) {
                Ok(v) => v,
                Err(e) => {
                    return Err(e);
                },
            };
            match expect_end(line, 6) {
                Ok(()) => {},
                Err(e) => {
                    return Err(e);
                },
            }
            let mut kids: Vec<Node> = Vec::new();
            kids.push(a);
            kids.push(var);
            return Ok(marker(line, 0, Rule::GetAsciiStmt, kids));
        }
        if kw(t1, "LENGTH") {
            // GET LENGTH OF a IN v
            match expect_kw(line, 2, "OF") {
                Ok(()) => {},
                Err(e) => {
                    return Err(e);
                },
            }
            let a = match expr_at(line, 3) {
                Ok(e) => e,
                Err(e) => {
                    return Err(e);
                },
            };
            match expect_kw(line, 4, "IN") {
                Ok(()) => {},
                Err(e) => {
                    return Err(e);
                },
            }
            let var = match var_at(line, 5) {
                Ok(v) => v,
                Err(e) => {
                    return Err(e);
                },
            };
            match expect_end(line, 6) {
                Ok(()) => {},
                Err(e) => {
                    return Err(e);
                },
            }
            let mut kids: Vec<Node> = Vec::new();
            kids.push(a);
            kids.push(var);
            return Ok(marker(line, 0, Rule::GetLengthStmt, kids));
        }
        if kw(t1, "KEYS") {
            let t2 = match tok_at(line, 2) {
                Ok(t) => t,
                Err(e) => {
                    return Err(e);
                },
            };
            if kw(t2, "COUNT") {
                // GET KEYS COUNT OF m IN v
                match expect_kw(line, 3, "OF") {
                    Ok(()) => {},
                    Err(e) => {
                        return Err(e);
                    },
                }
                let a = match expr_at(line, 4) {
                    Ok(e) => e,
                    Err(e) => {
                        return Err(e);
                    },
                };
                match expect_kw(line, 5, "IN") {
                    Ok(()) => {},
                    Err(e) => {
                        return Err(e);
                    },
                }
                let var = match var_at(line, 6) {
                    Ok(v) => v,
                    Err(e) => {
                        return Err(e);
                    },
                };
                match expect_end(line, 7) {
                    Ok(()) => {},
                    Err(e) => {
                        return Err(e);
                    },
                }
                let mut kids: Vec<Node> = Vec::new();
                kids.push(a);
                kids.push(var);
                return Ok(marker(line, 0, Rule::GetKeysCountStmt, kids));
            }
            // GET KEYS OF m IN v
            match expect_kw(line, 2, "OF") {
                Ok(()) => {},
                Err(e) => {
                    return Err(e);
                },
            }
            let a = match expr_at(line, 3) {
                Ok(e) => e,
                Err(e) => {
                    return Err(e);
                },
            };
            match expect_kw(line, 4, "IN") {
                Ok(()) => {},
                Err(e) => {
                    return Err(e);
                },
            }
            let var = match var_at(line, 5) {
                Ok(v) => v,
                Err(e) => {
                    return Err(e);
                },
            };
            match expect_end(line, 6) {
                Ok(()) => {},
                Err(e) => {
                    return Err(e);
                },
            }
            let mut kids: Vec<Node> = Vec::new();
            kids.push(a);
            kids.push(var);
            return Ok(marker(line, 0, Rule::GetKeysStmt, kids));
        }
        if kw(t1, "KEY") {
            // GET KEY COUNT OF m IN v
            match expect_kw(line, 2, "COUNT") {
                Ok(()) => {},
                Err(e) => {
                    return Err(e);
                },
            }
            match expect_kw(line, 3, "OF") {
                Ok(()) => {},
                Err(e) => {
                    return Err(e);
                },
            }
            let a = match expr_at(line, 4) {
                Ok(e) => e,
                Err(e) => {
                    return Err(e);
                },
            };
            match expect_kw(line, 5, "IN") {
                Ok(()) => {},
                Err(e) => {
                    return Err(e);
                },
            }
            let var = match var_at(line, 6) {
                Ok(v) => v,
                Err(e) => {
                    return Err(e);
                },
            };
            match expect_end(line, 7) {
                Ok(()) => {},
                Err(e) => {
                    return Err(e);
                },
            }
            let mut kids: Vec<Node> = Vec::new();
            kids.push(a);
            kids.push(var);
            return Ok(marker(line, 0, Rule::GetKeysCountStmt, kids));
        }
        return Err(perr(t1.line, t1.col, "unknown GET statement"));
    }
    // anything else: a user-defined statement, whose parts must all be
    // expressions or keyword words
    let mut kids: Vec<Node> = Vec::new();
    let mut i: usize = 0;
    while i < n
        invariant
            i <= n,
            n == line.toks@.len(),
        decreases n - i,
    {
        let e = match expr_at(line, i) {
            Ok(e) => e,
            Err(e) => {
                return Err(e);
            },
        };
        kids.push(e);
        i = i + 1;
    }
    Ok(marker(line, 0, Rule::UserStmt, kids))
}



/// The `ELSE` / `ELSE IF <test> THEN` line of an `IF` block.
fn parse_else(line: &Line) -> (r: Result<Node, LDPLError>)
    requires
        wf_line(*line),
    ensures
        r is Ok ==> r.unwrap().rule == Rule::ElseStmt,
{
    let n = line.toks.len();
    if n == 1 {
        return Ok(marker(line, 0, Rule::ElseStmt, Vec::new()));
    }
    match expect_kw(line, 1, "IF") {
        Ok(()) => {},
        Err(e) => {
            return Err(e);
        },
    }
    if !kw(&line.toks[n - 1], "THEN") {
        return Err(perr(line.no, 1, "expected THEN at the end of ELSE IF"));
    }
    let test = match parse_test(line, 2, n - 1) {
        Ok(t) => t,
        Err(e) => {
            return Err(e);
        },
    };
    let mut kids: Vec<Node> = Vec::new();
    kids.push(test);
    Ok(marker(line, 0, Rule::ElseStmt, kids))
}

/// Consecutive `name IS <type>` lines, as in a data section.
fn parse_defs(lines: &Vec<Line>, idx: usize) -> (r: Result<(Vec<Node>, usize), LDPLError>)
    requires
        wf_lines(lines@),
        idx <= lines@.len(),
    ensures
        r is Ok ==> idx <= r.unwrap().1 <= lines@.len(),
{
    let n = lines.len();
    let mut out: Vec<Node> = Vec::new();
    let mut i: usize = idx;
    while i < n
        invariant
            idx <= i <= n,
            n == lines@.len(),
            wf_lines(lines@),
        decreases n - i,
    {
        let line = &lines[i];
        if !(line.toks.len() >= 2 && kw(&line.toks[1], "IS")) {
            break;
        }
        let def = match parse_data_line(line) {
            Ok(d) => d,
            Err(e) => {
                return Err(e);
            },
        };
        out.push(def);
        i = i + 1;
    }
    Ok((out, i))
}

/// Is this line exactly the one or two given (uppercase) words?
fn line_at_is(lines: &Vec<Line>, i: usize, s0: &str, s1: &str) -> (r: bool)
    requires
        wf_lines(lines@),
    ensures
        r ==> i < lines@.len(),
{
    if i >= lines.len() {
        return false;
    }
    line_is(&lines[i], s0, s1)
}

/// Statements from line `idx` until the terminator the context demands;
/// the terminator line is consumed. Returns the statements and the index
/// of the first unconsumed line.
fn parse_stmts(lines: &Vec<Line>, idx: usize, ctx: Ctx) -> (r: Result<
    (Vec<Node>, usize),
    LDPLError,
>)
    requires
        wf_lines(lines@),
        idx <= lines@.len(),
    ensures
        r is Ok ==> idx <= r.unwrap().1 <= lines@.len(),
    decreases lines@.len() - idx, 2int,
{
    let n = lines.len();
    let mut out: Vec<Node> = Vec::new();
    let mut i: usize = idx;
    loop
        invariant
            idx <= i <= n,
            n == lines@.len(),
            wf_lines(lines@),
        decreases n - i,
    {
        if i >= n {
            if matches!(ctx, Ctx::Top) {
                return Ok((out, i));
            }
            let what: &str = match ctx {
                Ctx::IfBlock => "missing END IF",
                Ctx::LoopBlock => "missing REPEAT",
                _ => "missing END SUB-PROCEDURE",
            };
            return Err(perr(if n > 0 {
                lines[n - 1].no
            } else {
                1
            }, 1, what));
        }
        let line = &lines[i];
        let t0 = &line.toks[0];
        match ctx {
            Ctx::IfBlock => {
                if kw(t0, "END") && line.toks.len() >= 2 && kw(&line.toks[1], "IF") {
                    return Ok((out, i + 1));
                }
                if kw(t0, "ELSE") {
                    let e = match parse_else(line) {
                        Ok(e) => e,
                        Err(err) => {
                            return Err(err);
                        },
                    };
                    out.push(e);
                    i = i + 1;
                    continue;
                }
            },
            Ctx::LoopBlock => {
                if kw(t0, "REPEAT") && line.toks.len() == 1 {
                    return Ok((out, i + 1));
                }
            },
            Ctx::SubBlock => {
                if kw(t0, "END") && line.toks.len() >= 2 && (kw(&line.toks[1], "SUB-PROCEDURE")
                    || kw(&line.toks[1], "SUB")) {
                    return Ok((out, i + 1));
                }
            },
            Ctx::Top => {},
        }
        let (node, nxt) = match parse_one_stmt(lines, i, matches!(ctx, Ctx::Top)) {
            Ok(p) => p,
            Err(e) => {
                return Err(e);
            },
        };
        out.push(node);
        i = nxt;
    }
}

/// A whole `SUB-PROCEDURE … END SUB-PROCEDURE` definition starting at line
/// `idx`.
fn parse_sub(lines: &Vec<Line>, idx: usize) -> (r: Result<(Node, usize), LDPLError>)
    requires
        wf_lines(lines@),
        idx < lines@.len(),
    ensures
        r is Ok ==> idx < r.unwrap().1 <= lines@.len(),
        r is Ok ==> r.unwrap().0.rule == Rule::SubDefStmt,
    decreases lines@.len() - idx, 0int,
{
    let nl = lines.len();
    let line = &lines[idx];
    let n = line.toks.len();
    let mut i: usize = 1;
    let mut ext = false;
    if n >= 2 && kw(&line.toks[1], "EXTERNAL") {
        ext = true;
        i = 2;
    }
    let ident = match ident_at(line, i) {
        Ok(id) => id,
        Err(e) => {
            return Err(e);
        },
    };
    match expect_end(line, i + 1) {
        Ok(()) => {},
        Err(e) => {
            return Err(e);
        },
    }
    let mut kids: Vec<Node> = Vec::new();
    if ext {
        kids.push(Node::leaf(Rule::External, String::new(), line.no, 1));
    }
    kids.push(ident);
    let mut j: usize = idx + 1;
    if line_at_is(lines, j, "PARAMETERS:", "") {
        let (defs, j2) = match parse_defs(lines, j + 1) {
            Ok(p) => p,
            Err(e) => {
                return Err(e);
            },
        };
        kids.push(marker(line, 0, Rule::SubParamSection, defs));
        j = j2;
    }
    if line_at_is(lines, j, "LOCAL", "DATA:") {
        let (defs, j2) = match parse_defs(lines, j + 1) {
            Ok(p) => p,
            Err(e) => {
                return Err(e);
            },
        };
        kids.push(marker(line, 0, Rule::SubDataSection, defs));
        j = j2;
    }
    if line_at_is(lines, j, "PROCEDURE:", "") {
        j = j + 1;
    }
    let (mut body, j3) = match parse_stmts(lines, j, Ctx::SubBlock) {
        Ok(p) => p,
        Err(e) => {
            return Err(e);
        },
    };
    kids.append(&mut body);
    let mut text = String::new();
    text.append(line.toks[0].text.as_str());
    let node = Node::branch(Rule::SubDefStmt, text, line.no, 1, kids);
    if j3 > idx {
        Ok((node, j3))
    } else {
        Err(perr(line.no, 1, "empty SUB-PROCEDURE"))
    }
}

/// `CREATE STATEMENT "<skeleton>" EXECUTING <sub>`.
fn parse_create(line: &Line) -> (r: Result<Node, LDPLError>)
    requires
        wf_line(*line),
    ensures
        r is Ok ==> r.unwrap().rule == Rule::CreateStmtStmt,
{
    match expect_kw(line, 1, "STATEMENT") {
        Ok(()) => {},
        Err(e) => {
            return Err(e);
        },
    }
    let t2 = match tok_at(line, 2) {
        Ok(t) => t,
        Err(e) => {
            return Err(e);
        },
    };
    if !matches!(t2.kind, TokKind::Text) {
        return Err(perr(t2.line, t2.col, "expected the statement pattern as text"));
    }
    let mut text = String::new();
    text.append(t2.text.as_str());
    let pattern = Node::leaf(Rule::Text, text, t2.line, t2.col);
    match expect_kw(line, 3, "EXECUTING") {
        Ok(()) => {},
        Err(e) => {
            return Err(e);
        },
    }
    let ident = match ident_at(line, 4) {
        Ok(id) => id,
        Err(e) => {
            return Err(e);
        },
    };
    match expect_end(line, 5) {
        Ok(()) => {},
        Err(e) => {
            return Err(e);
        },
    }
    let mut kids: Vec<Node> = Vec::new();
    kids.push(pattern);
    kids.push(ident);
    Ok(marker(line, 0, Rule::CreateStmtStmt, kids))
}

/// The statement starting at line `idx`; a block consumes its body and its
/// terminator. Returns the node and the index of the first unconsumed line.
fn parse_one_stmt(lines: &Vec<Line>, idx: usize, top: bool) -> (r: Result<
    (Node, usize),
    LDPLError,
>)
    requires
        wf_lines(lines@),
        idx < lines@.len(),
    ensures
        r is Ok ==> idx < r.unwrap().1 <= lines@.len(),
        r is Ok ==> is_stmt_rule(r.unwrap().0.rule),
    decreases lines@.len() - idx, 1int,
{
    let nl = lines.len();
    let line = &lines[idx];
    let n = line.toks.len();
    let t0 = &line.toks[0];
    if kw(t0, "IF") {
        if n < 3 || !kw(&line.toks[n - 1], "THEN") {
            return Err(perr(line.no, 1, "expected IF <test> THEN"));
        }
        let test = match parse_test(line, 1, n - 1) {
            Ok(t) => t,
            Err(e) => {
                return Err(e);
            },
        };
        let (mut body, nxt) = match parse_stmts(lines, idx + 1, Ctx::IfBlock) {
            Ok(p) => p,
            Err(e) => {
                return Err(e);
            },
        };
        let mut kids: Vec<Node> = Vec::new();
        kids.push(test);
        kids.append(&mut body);
        return Ok((marker(line, 0, Rule::IfStmt, kids), nxt));
    }
    if kw(t0, "WHILE") {
        if n < 3 || !kw(&line.toks[n - 1], "DO") {
            return Err(perr(line.no, 1, "expected WHILE <test> DO"));
        }
        let test = match parse_test(line, 1, n - 1) {
            Ok(t) => t,
            Err(e) => {
                return Err(e);
            },
        };
        let (mut body, nxt) = match parse_stmts(lines, idx + 1, Ctx::LoopBlock) {
            Ok(p) => p,
            Err(e) => {
                return Err(e);
            },
        };
        let mut kids: Vec<Node> = Vec::new();
        kids.push(test);
        kids.append(&mut body);
        return Ok((marker(line, 0, Rule::WhileStmt, kids), nxt));
    }
    if kw(t0, "FOR") {
        if n >= 2 && kw(&line.toks[1], "EACH") {
            // FOR EACH v IN c DO
            let ident = match ident_at(line, 2) {
                Ok(id) => id,
                Err(e) => {
                    return Err(e);
                },
            };
            match expect_kw(line, 3, "IN") {
                Ok(()) => {},
                Err(e) => {
                    return Err(e);
                },
            }
            let coll = match expr_at(line, 4) {
                Ok(c) => c,
                Err(e) => {
                    return Err(e);
                },
            };
            match expect_kw(line, 5, "DO") {
                Ok(()) => {},
                Err(e) => {
                    return Err(e);
                },
            }
            match expect_end(line, 6) {
                Ok(()) => {},
                Err(e) => {
                    return Err(e);
                },
            }
            let (mut body, nxt) = match parse_stmts(lines, idx + 1, Ctx::LoopBlock) {
                Ok(p) => p,
                Err(e) => {
                    return Err(e);
                },
            };
            let mut kids: Vec<Node> = Vec::new();
            kids.push(ident);
            kids.push(coll);
            kids.append(&mut body);
            return Ok((marker(line, 0, Rule::ForEachStmt, kids), nxt));
        }
        // FOR v FROM a TO b STEP s DO
        let ident = match ident_at(line, 1) {
            Ok(id) => id,
            Err(e) => {
                return Err(e);
            },
        };
        match expect_kw(line, 2, "FROM") {
            Ok(()) => {},
            Err(e) => {
                return Err(e);
            },
        }
        let from = match expr_at(line, 3) {
            Ok(x) => x,
            Err(e) => {
                return Err(e);
            },
        };
        match expect_kw(line, 4, "TO") {
            Ok(()) => {},
            Err(e) => {
                return Err(e);
            },
        }
        let to = match expr_at(line, 5) {
            Ok(x) => x,
            Err(e) => {
                return Err(e);
            },
        };
        match expect_kw(line, 6, "STEP") {
            Ok(()) => {},
            Err(e) => {
                return Err(e);
            },
        }
        let step = match expr_at(line, 7) {
            Ok(x) => x,
            Err(e) => {
                return Err(e);
            },
        };
        match expect_kw(line, 8, "DO") {
            Ok(()) => {},
            Err(e) => {
                return Err(e);
            },
        }
        match expect_end(line, 9) {
            Ok(()) => {},
            Err(e) => {
                return Err(e);
            },
        }
        let (mut body, nxt) = match parse_stmts(lines, idx + 1, Ctx::LoopBlock) {
            Ok(p) => p,
            Err(e) => {
                return Err(e);
            },
        };
        let mut kids: Vec<Node> = Vec::new();
        kids.push(ident);
        kids.push(from);
        kids.push(to);
        kids.push(step);
        kids.append(&mut body);
        return Ok((marker(line, 0, Rule::ForStmt, kids), nxt));
    }
    if kw(t0, "SUB-PROCEDURE") {
        if !top {
            return Err(perr(line.no, 1, "SUB-PROCEDURE cannot stand inside a block"));
        }
        return parse_sub(lines, idx);
    }
    if kw(t0, "CREATE") {
        let node = match parse_create(line) {
            Ok(c) => c,
            Err(e) => {
                return Err(e);
            },
        };
        return Ok((node, idx + 1));
    }
    if kw(t0, "ELSE") {
        let node = match parse_else(line) {
            Ok(c) => c,
            Err(e) => {
                return Err(e);
            },
        };
        return Ok((node, idx + 1));
    }
    let node = match parse_simple(line) {
        Ok(s) => s,
        Err(e) => {
            return Err(e);
        },
    };
    Ok((node, idx + 1))
}

/// Parse one `PROCEDURE:`-section statement (which may span lines).
pub fn parse_stmt(source: &str) -> (r: Result<Node, LDPLError>)
    ensures
        r is Ok ==> is_stmt_rule(r.unwrap().rule),
{
    let lines = match lex(source) {
        Ok(l) => l,
        Err(e) => {
            return Err(e);
        },
    };
    if lines.len() == 0 {
        return Err(perr(1, 1, "expected a statement"));
    }
    let (node, nxt) = match parse_one_stmt(&lines, 0, true) {
        Ok(p) => p,
        Err(e) => {
            return Err(e);
        },
    };
    if nxt != lines.len() {
        return Err(perr(lines[nxt].no, 1, "unexpected lines after the statement"));
    }
    Ok(node)
}

/// Parse a whole program: header directives, an optional `DATA:` section,
/// and an optional `PROCEDURE:` section.
pub fn parse_program(source: &str) -> (r: Result<Vec<Node>, LDPLError>)
    ensures
        source@.len() == 0 ==> r is Ok && r.unwrap()@.len() == 0,
        r is Ok ==> forall|k: int|
            0 <= k < r.unwrap()@.len() ==> (#[trigger] r.unwrap()@[k].rule == Rule::HeaderStmt
                || r.unwrap()@[k].rule == Rule::DataSection || r.unwrap()@[k].rule
                == Rule::ProcedureSection),
{
    let lines = match lex(source) {
        Ok(l) => l,
        Err(e) => {
            return Err(e);
        },
    };
    let n = lines.len();
    let mut out: Vec<Node> = Vec::new();
    let mut i: usize = 0;
    while i < n
        invariant
            i <= n,
            n == lines@.len(),
            source@.len() == 0 ==> n == 0 && out@.len() == 0,
            wf_lines(lines@),
            forall|k: int|
                0 <= k < out@.len() ==> #[trigger] out@[k].rule == Rule::HeaderStmt,
        decreases n - i,
    {
        let line = &lines[i];
        let t0 = &line.toks[0];
        let inner: Node;
        if kw(t0, "INCLUDE") || kw(t0, "EXTENSION") || kw(t0, "FLAG") {
            let t1 = match tok_at(line, 1) {
                Ok(t) => t,
                Err(e) => {
                    return Err(e);
                },
            };
            if !matches!(t1.kind, TokKind::Text) {
                return Err(perr(t1.line, t1.col, "expected a quoted file name"));
            }
            match expect_end(line, 2) {
                Ok(()) => {},
                Err(e) => {
                    return Err(e);
                },
            }
            let mut text = String::new();
            text.append(t1.text.as_str());
            let lit = Node::leaf(Rule::Text, text, t1.line, t1.col);
            let rule = if kw(t0, "INCLUDE") {
                Rule::IncludeStmt
            } else if kw(t0, "EXTENSION") {
                Rule::ExtensionStmt
            } else {
                Rule::FlagStmt
            };
            let mut kids: Vec<Node> = Vec::new();
            kids.push(lit);
            inner = marker(line, 0, rule, kids);
        } else if kw(t0, "USING") {
            let ident = match ident_at(line, 1) {
                Ok(id) => id,
                Err(e) => {
                    return Err(e);
                },
            };
            match expect_end(line, 2) {
                Ok(()) => {},
                Err(e) => {
                    return Err(e);
                },
            }
            let mut kids: Vec<Node> = Vec::new();
            kids.push(ident);
            inner = marker(line, 0, Rule::UsingStmt, kids);
        } else {
            break;
        }
        let mut kids: Vec<Node> = Vec::new();
        kids.push(inner);
        out.push(marker(line, 0, Rule::HeaderStmt, kids));
        i = i + 1;
    }
    if line_at_is(&lines, i, "DATA:", "") {
        let (defs, i2) = match parse_defs(&lines, i + 1) {
            Ok(p) => p,
            Err(e) => {
                return Err(e);
            },
        };
        let node = Node::branch(Rule::DataSection, String::new(), lines[i].no, 1, defs);
        out.push(node);
        i = i2;
    }
    if line_at_is(&lines, i, "PROCEDURE:", "") {
        let at = lines[i].no;
        let (stmts, i2) = match parse_stmts(&lines, i + 1, Ctx::Top) {
            Ok(p) => p,
            Err(e) => {
                return Err(e);
            },
        };
        let node = Node::branch(Rule::ProcedureSection, String::new(), at, 1, stmts);
        out.push(node);
        i = i2;
    }
    if i < n {
        return Err(perr(lines[i].no, 1, "expected a DATA: or PROCEDURE: section"));
    }
    Ok(out)
}


} // verus!
