//! The parse tree: labeled nodes with a rule tag, the source text of the
//! span, a position, and child nodes.
use vstd::prelude::*;
use crate::error::LDPLError;

verus! {

/// The rule a parse node was produced by.
#[derive(PartialEq, Eq, Structural, Clone, Copy, Debug)]
pub enum Rule {
    // header directives
    HeaderStmt,
    IncludeStmt,
    UsingStmt,
    ExtensionStmt,
    FlagStmt,
    // data sections
    DataSection,
    TypeDef,
    ExternalTypeDef,
    TypeName,
    // procedure section and sub-procedures
    ProcedureSection,
    SubDefStmt,
    External,
    SubParamSection,
    SubDataSection,
    CreateStmtStmt,
    // statements
    CallStmt,
    CallSubStmt,
    CallExternalStmt,
    IfStmt,
    ElseStmt,
    WhileStmt,
    ForStmt,
    ForEachStmt,
    LoopKwStmt,
    ReturnStmt,
    GotoStmt,
    LabelStmt,
    ExitStmt,
    WaitStmt,
    StoreQuoteStmt,
    QuoteText,
    StoreStmt,
    SolveStmt,
    SolveExpr,
    MathOp,
    FloorStmt,
    FloorMutStmt,
    FloorInStmt,
    ModuloStmt,
    JoinStmt,
    OldJoinStmt,
    ReplaceStmt,
    SplitStmt,
    GetCharStmt,
    GetAsciiStmt,
    GetCharCodeStmt,
    GetIndexStmt,
    CountStmt,
    SubstrStmt,
    TrimStmt,
    PushStmt,
    DeleteStmt,
    GetKeysCountStmt,
    GetKeysStmt,
    ClearStmt,
    CopyStmt,
    GetLengthStmt,
    DisplayStmt,
    AcceptStmt,
    AcceptVarStmt,
    AcceptEofStmt,
    LoadStmt,
    WriteStmt,
    AppendStmt,
    ExecuteStmt,
    ExecuteExprStmt,
    ExecuteOutputStmt,
    ExecuteExitCodeStmt,
    UserStmt,
    // test expressions
    TestExpr,
    OrTestExpr,
    AndTestExpr,
    OneTestExpr,
    EqualExpr,
    NotEqualExpr,
    GtExpr,
    LtExpr,
    GteExpr,
    LteExpr,
    // expressions
    Number,
    Text,
    Linefeed,
    Var,
    Ident,
    Lookup,
}

/// A leaf node of the given rule.
pub open spec fn is_leaf(n: Node, r: Rule) -> bool {
    n.rule == r && n.children@.len() == 0
}

/// A well-formed lookup chain: a base identifier followed by one or more
/// subscripts, each an identifier, number, or text literal.
pub open spec fn wf_lookup(n: Node) -> bool {
    &&& n.rule == Rule::Lookup
    &&& n.children@.len() >= 2
    &&& is_leaf(n.children@[0], Rule::Ident)
    &&& crate::mangle::is_ident(n.children@[0].text@)
    &&& forall|i: int|
        1 <= i < n.children@.len() ==> (is_leaf(#[trigger] n.children@[i], Rule::Ident)
            || is_leaf(n.children@[i], Rule::Number) || is_leaf(n.children@[i], Rule::Text))
}

/// A well-formed expression node: a literal, the linefeed keyword, or a
/// variable reference (a bare identifier or a lookup chain).
pub open spec fn wf_expr(n: Node) -> bool {
    ||| is_leaf(n, Rule::Number)
    ||| is_leaf(n, Rule::Text)
    ||| is_leaf(n, Rule::Linefeed)
    ||| (n.rule == Rule::Var && n.children@.len() == 1 && (is_leaf(n.children@[0], Rule::Ident)
        && crate::mangle::is_ident(n.children@[0].text@) || wf_lookup(n.children@[0])))
}

/// A parse node: a rule tag, the matched source text, the 1-based position
/// of its first character, and its children.
#[derive(Debug)]
pub struct Node {
    pub rule: Rule,
    pub text: String,
    pub line: usize,
    pub col: usize,
    pub children: Vec<Node>,
}

impl Node {
    /// A node with no children.
    pub fn leaf(rule: Rule, text: String, line: usize, col: usize) -> (r: Node)
        ensures
            r.rule == rule,
            r.text == text,
            r.line == line,
            r.col == col,
            r.children@ == Seq::<Node>::empty(),
    {
        Node { rule, text, line, col, children: Vec::new() }
    }

    /// A node with children.
    pub fn branch(rule: Rule, text: String, line: usize, col: usize, kids: Vec<Node>) -> (r: Node)
        ensures
            r.rule == rule,
            r.text == text,
            r.line == line,
            r.col == col,
            r.children == kids,
    {
        Node { rule, text, line, col, children: kids }
    }

    /// The `i`-th child, or a positioned error when the node is too short
    /// for the rule it claims.
    pub fn child(&self, i: usize) -> (r: Result<&Node, LDPLError>)
        ensures
            r is Ok <==> i < self.children@.len(),
            r is Ok ==> r.unwrap() == &self.children@[i as int],
    {
        if i < self.children.len() {
            Ok(&self.children[i])
        } else {
            let mut msg = String::new();
            msg.append("malformed parse node: missing part of ");
            msg.append(self.text.as_str());
            Err(LDPLError::new(msg, self.line, self.col, 1))
        }
    }
}

} // verus!
