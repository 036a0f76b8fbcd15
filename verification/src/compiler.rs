//! The lowering engine: walks the parse tree and emits a C++ translation
//! unit, keeping scoped symbol tables, a sub-procedure registry, and the
//! user-statement registry.
use vstd::prelude::*;
use crate::ast::{Node, Rule};
use crate::error::LDPLError;
use crate::mangle::{
    mangle, mangle_extern, mangle_sub, mangle_var, spec_mangle, spec_mangle_ext, spec_mangle_sub,
    spec_mangle_var,
};
use crate::numbers::{canon_num, canon_number, is_num_lit};
use crate::text::{dec_str, lower, streq, to_upper, upper, usize_string};
use crate::types::{type_from_name, LDPLType};

verus! {

/// State of the compilation: emitted pieces, symbol tables, and the
/// registries the lowering rules consult.
#[derive(Debug)]
pub struct Compiler {
    /// Body of the emitted `main` function.
    pub main: Vec<String>,
    /// Emitted sub-procedure definitions.
    pub subs: Vec<String>,
    /// Emitted global variable declarations.
    pub vars: Vec<String>,
    /// C++ files to hand to the external build step.
    pub exts: Vec<String>,
    /// Compiler flags to hand to the external build step.
    pub flags: Vec<String>,
    /// Forward function declarations.
    pub forwards: Vec<String>,
    /// Uppercased names declared EXTERNAL.
    pub ext_vars: Vec<String>,
    /// Global variables: uppercased name to type, first declaration wins.
    pub globals: Vec<(String, LDPLType)>,
    /// Local variables of the sub-procedure being lowered.
    pub locals: Vec<(String, LDPLType)>,
    /// Sub-procedure signatures: uppercased name to parameter types.
    pub defs: Vec<(String, Vec<LDPLType>)>,
    /// Sub-procedures called before their definition was seen.
    pub expected_defs: Vec<String>,
    /// User statements: skeleton to the subs that implement it, in
    /// registration order.
    pub user_stmts: Vec<(String, Vec<String>)>,
    /// Inside a sub-procedure? RETURN is refused outside one.
    pub in_sub: bool,
    /// Loop nesting depth; BREAK/CONTINUE are refused at zero.
    pub in_loop: usize,
    /// Counter for fresh temporaries.
    pub tmp_id: usize,
    /// Indentation depth of emitted lines.
    pub depth: usize,
    /// Path of the file being compiled, if known; used to resolve
    /// relative inclusions.
    pub path: Option<String>,
}

/// First match in an association list of uppercased names to types.
pub open spec fn alist_get(s: Seq<(String, LDPLType)>, key: Seq<char>) -> Option<LDPLType>
    decreases s.len(),
{
    if s.len() == 0 {
        None
    } else if s[0].0@ == key {
        Some(s[0].1)
    } else {
        alist_get(s.skip(1), key)
    }
}

/// Is the name in the list?
pub open spec fn names_has(s: Seq<String>, key: Seq<char>) -> bool
    decreases s.len(),
{
    if s.len() == 0 {
        false
    } else if s[0]@ == key {
        true
    } else {
        names_has(s.skip(1), key)
    }
}

/// The list with every occurrence of the name removed, order kept.
pub open spec fn names_remove(s: Seq<String>, key: Seq<char>) -> Seq<String>
    decreases s.len(),
{
    if s.len() == 0 {
        s
    } else if s[0]@ == key {
        names_remove(s.skip(1), key)
    } else {
        seq![s[0]] + names_remove(s.skip(1), key)
    }
}

/// Removal leaves no entry carrying the removed name.
proof fn lemma_names_remove_no_key(s: Seq<String>, key: Seq<char>)
    ensures
        forall|k: int|
            0 <= k < names_remove(s, key).len() ==> (#[trigger] names_remove(s, key)[k])@
                != key,
    decreases s.len(),
{
    if s.len() > 0 {
        lemma_names_remove_no_key(s.skip(1), key);
        if s[0]@ == key {
            assert forall|k: int|
                0 <= k < names_remove(s, key).len() implies (#[trigger] names_remove(
                s,
                key,
            )[k])@ != key by {
                assert(names_remove(s, key)[k] == names_remove(s.skip(1), key)[k]);
            }
        } else {
            let rest = names_remove(s.skip(1), key);
            assert(names_remove(s, key) == seq![s[0]] + rest);
            assert forall|k: int|
                0 <= k < names_remove(s, key).len() implies (#[trigger] names_remove(
                s,
                key,
            )[k])@ != key by {
                if k == 0 {
                    assert((seq![s[0]] + rest)[0] == s[0]);
                } else {
                    assert((seq![s[0]] + rest)[k] == rest[k - 1]);
                }
            }
        }
    }
}


/// The index of the first registered skeleton equal to `key`, or the
/// registry's length when none is.
pub open spec fn skel_index(s: Seq<(String, Vec<String>)>, key: Seq<char>) -> int
    decreases s.len(),
{
    if s.len() == 0 {
        0
    } else if s[0].0@ == key {
        0
    } else {
        1 + skel_index(s.skip(1), key)
    }
}

/// The first-match index is pinned by any witness of its properties.
proof fn lemma_skel_index_exact(s: Seq<(String, Vec<String>)>, key: Seq<char>, p: int)
    requires
        0 <= p <= s.len(),
        forall|q: int| 0 <= q < p ==> (#[trigger] s[q]).0@ != key,
        p < s.len() ==> s[p].0@ == key,
        p == s.len() ==> forall|q: int| 0 <= q < s.len() ==> (#[trigger] s[q]).0@ != key,
    ensures
        skel_index(s, key) == p,
    decreases s.len(),
{
    if s.len() > 0 && s[0].0@ != key {
        assert forall|q: int| 0 <= q < p - 1 implies (#[trigger] s.skip(1)[q]).0@ != key by {
            assert(s.skip(1)[q] == s[q + 1]);
        }
        if p - 1 < s.skip(1).len() {
            assert(s.skip(1)[p - 1] == s[p]);
        }
        if p == s.len() {
            assert forall|q: int| 0 <= q < s.skip(1).len() implies (#[trigger] s.skip(
                1,
            )[q]).0@ != key by {
                assert(s.skip(1)[q] == s[q + 1]);
            }
        }
        lemma_skel_index_exact(s.skip(1), key, p - 1);
    }
}

/// First match in the sub-procedure registry.
pub open spec fn defs_get(s: Seq<(String, Vec<LDPLType>)>, key: Seq<char>) -> Option<
    Seq<LDPLType>,
>
    decreases s.len(),
{
    if s.len() == 0 {
        None
    } else if s[0].0@ == key {
        Some(s[0].1@)
    } else {
        defs_get(s.skip(1), key)
    }
}

/// `4 * d` blanks.
pub open spec fn spec_indent(d: nat) -> Seq<char>
    decreases d,
{
    if d == 0 {
        Seq::<char>::empty()
    } else {
        spec_indent((d - 1) as nat) + "    "@
    }
}

impl Compiler {
    /// The type a name (already uppercased) has: locals shadow globals.
    pub open spec fn spec_type_of_name(&self, up: Seq<char>) -> Option<LDPLType> {
        match alist_get(self.locals@, up) {
            Some(t) => Some(t),
            None => alist_get(self.globals@, up),
        }
    }

    /// Was the name declared EXTERNAL?
    pub open spec fn spec_is_ext(&self, up: Seq<char>) -> bool {
        names_has(self.ext_vars@, up)
    }

    /// How a variable identifier is written out: EXTERNAL names use the
    /// simplified mangling.
    pub open spec fn spec_var_name(&self, id: Seq<char>) -> Seq<char> {
        if self.spec_is_ext(upper(id)) {
            spec_mangle_ext(id)
        } else {
            spec_mangle_var(id)
        }
    }
}

/// Exec lookup in an association list; first match, as `alist_get`.
fn table_get(table: &Vec<(String, LDPLType)>, key: &str) -> (r: Option<LDPLType>)
    ensures
        r == alist_get(table@, key@),
{
    let n = table.len();
    proof {
        assert(table@.skip(0) =~= table@);
    }
    let mut i: usize = 0;
    while i < n
        invariant
            i <= n,
            n == table@.len(),
            alist_get(table@, key@) == alist_get(table@.skip(i as int), key@),
        decreases n - i,
    {
        if streq(table[i].0.as_str(), key) {
            proof {
                assert(table@.skip(i as int)[0] == table@[i as int]);
            }
            return Some(table[i].1.clone());
        }
        proof {
            assert(table@.skip(i as int)[0] == table@[i as int]);
            assert(table@.skip(i as int).skip(1) =~= table@.skip(i as int + 1));
        }
        i = i + 1;
    }
    proof {
        assert(table@.skip(n as int).len() == 0);
    }
    None
}

/// Exec membership in a name list, as `names_has`.
fn names_contains(names: &Vec<String>, key: &str) -> (r: bool)
    ensures
        r == names_has(names@, key@),
{
    let n = names.len();
    proof {
        assert(names@.skip(0) =~= names@);
    }
    let mut i: usize = 0;
    while i < n
        invariant
            i <= n,
            n == names@.len(),
            names_has(names@, key@) == names_has(names@.skip(i as int), key@),
        decreases n - i,
    {
        if streq(names[i].as_str(), key) {
            proof {
                assert(names@.skip(i as int)[0] == names@[i as int]);
            }
            return true;
        }
        proof {
            assert(names@.skip(i as int)[0] == names@[i as int]);
            assert(names@.skip(i as int).skip(1) =~= names@.skip(i as int + 1));
        }
        i = i + 1;
    }
    proof {
        assert(names@.skip(n as int).len() == 0);
    }
    false
}

/// Exec lookup in the sub-procedure registry, as `defs_get`.
fn defs_lookup<'a>(defs: &'a Vec<(String, Vec<LDPLType>)>, key: &str) -> (r: Option<
    &'a Vec<LDPLType>,
>)
    ensures
        r is Some <==> defs_get(defs@, key@) is Some,
        r is Some ==> r.unwrap()@ == defs_get(defs@, key@).unwrap(),
{
    let n = defs.len();
    proof {
        assert(defs@.skip(0) =~= defs@);
    }
    let mut i: usize = 0;
    while i < n
        invariant
            i <= n,
            n == defs@.len(),
            defs_get(defs@, key@) == defs_get(defs@.skip(i as int), key@),
        decreases n - i,
    {
        if streq(defs[i].0.as_str(), key) {
            proof {
                assert(defs@.skip(i as int)[0] == defs@[i as int]);
            }
            return Some(&defs[i].1);
        }
        proof {
            assert(defs@.skip(i as int)[0] == defs@[i as int]);
            assert(defs@.skip(i as int).skip(1) =~= defs@.skip(i as int + 1));
        }
        i = i + 1;
    }
    proof {
        assert(defs@.skip(n as int).len() == 0);
    }
    None
}

/// The C++ spelling of an LDPL surface type name; an unknown name maps to
/// the sentinel `UNKNOWN_TYPE`, which valid programs never reach.
pub open spec fn spec_cpp_type(name: Seq<char>) -> Seq<char> {
    let l = lower(name);
    if l == "number"@ {
        "ldpl_number"@
    } else if l == "number list"@ {
        "ldpl_list<ldpl_number>"@
    } else if l == "number map"@ || l == "number vector"@ {
        "ldpl_map<ldpl_number>"@
    } else if l == "text"@ {
        "chText"@
    } else if l == "text list"@ {
        "ldpl_list<chText>"@
    } else if l == "text map"@ || l == "text vector"@ {
        "ldpl_map<chText>"@
    } else {
        "UNKNOWN_TYPE"@
    }
}

/// LDPL surface type name to C++ type.
pub fn compile_type(ldpl_type: &str) -> (r: &'static str)
    ensures
        r@ == spec_cpp_type(ldpl_type@),
{
    proof {
        reveal_strlit("number");
        reveal_strlit("number list");
        reveal_strlit("number map");
        reveal_strlit("number vector");
        reveal_strlit("text");
        reveal_strlit("text list");
        reveal_strlit("text map");
        reveal_strlit("text vector");
    }
    let l = crate::text::to_lower(ldpl_type);
    let ls = l.as_str();
    if streq(ls, "number") {
        "ldpl_number"
    } else if streq(ls, "number list") {
        "ldpl_list<ldpl_number>"
    } else if streq(ls, "number map") || streq(ls, "number vector") {
        "ldpl_map<ldpl_number>"
    } else if streq(ls, "text") {
        "chText"
    } else if streq(ls, "text list") {
        "ldpl_list<chText>"
    } else if streq(ls, "text map") || streq(ls, "text vector") {
        "ldpl_map<chText>"
    } else {
        "UNKNOWN_TYPE"
    }
}

/// A name that denotes a type is never written out as `UNKNOWN_TYPE`: the
/// sentinel can only reach the output through a name no valid data
/// definition holds.
pub proof fn lemma_valid_type_never_unknown(name: Seq<char>)
    requires
        type_from_name(name) is Some,
    ensures
        spec_cpp_type(name) != "UNKNOWN_TYPE"@,
{
    reveal_strlit("number");
    reveal_strlit("number list");
    reveal_strlit("number map");
    reveal_strlit("number vector");
    reveal_strlit("text");
    reveal_strlit("text list");
    reveal_strlit("text map");
    reveal_strlit("text vector");
    reveal_strlit("ldpl_number");
    reveal_strlit("ldpl_list<ldpl_number>");
    reveal_strlit("ldpl_map<ldpl_number>");
    reveal_strlit("chText");
    reveal_strlit("ldpl_list<chText>");
    reveal_strlit("ldpl_map<chText>");
    reveal_strlit("UNKNOWN_TYPE");
    assert("UNKNOWN_TYPE"@.len() == 12);
    assert("ldpl_number"@.len() == 11);
    assert("ldpl_list<ldpl_number>"@.len() == 22);
    assert("ldpl_map<ldpl_number>"@.len() == 21);
    assert("chText"@.len() == 6);
    assert("ldpl_list<chText>"@.len() == 17);
    assert("ldpl_map<chText>"@.len() == 16);
}


impl Compiler {
    /// The type of a variable node: a `Var` or `Lookup` is typed by its
    /// base identifier; locals shadow globals.
    pub open spec fn spec_type_of_node(&self, n: Node) -> Option<LDPLType>
        decreases n,
    {
        if n.rule == Rule::Ident {
            self.spec_type_of_name(upper(n.text@))
        } else if (n.rule == Rule::Var || n.rule == Rule::Lookup) && n.children@.len() >= 1 {
            self.spec_type_of_node(n.children@[0])
        } else {
            None
        }
    }

    /// The type of an expression node: literals have the obvious type, a
    /// variable reference the type of its base identifier.
    pub open spec fn spec_type_of_expr(&self, n: Node) -> Option<LDPLType> {
        if n.rule == Rule::Number {
            Some(LDPLType::Number)
        } else if n.rule == Rule::Text || n.rule == Rule::Linefeed {
            Some(LDPLType::Text)
        } else if n.rule == Rule::Var || n.rule == Rule::Ident {
            self.spec_type_of_node(n)
        } else {
            None
        }
    }

    /// Find the type of a variable node, local or global.
    pub fn type_of_var(&self, n: &Node) -> (r: Result<LDPLType, LDPLError>)
        ensures
            r is Ok <==> self.spec_type_of_node(*n) is Some,
            r is Ok ==> Some(r.unwrap()) == self.spec_type_of_node(*n),
        decreases *n,
    {
        match n.rule {
            Rule::Ident => {
                let up = to_upper(n.text.as_str());
                match table_get(&self.locals, up.as_str()) {
                    Some(t) => Ok(t),
                    None => match table_get(&self.globals, up.as_str()) {
                        Some(t) => Ok(t),
                        None => {
                            let mut msg = String::new();
                            msg.append("No type found for ");
                            msg.append(n.text.as_str());
                            Err(LDPLError::new(msg, n.line, n.col, 1))
                        },
                    },
                }
            },
            Rule::Var | Rule::Lookup => {
                if n.children.len() >= 1 {
                    proof {
                        assert(decreases_to!(*n => n.children));
                        assert(decreases_to!(n.children => n.children@));
                        assert(decreases_to!(n.children@ => n.children@[0]));
                    }
                    self.type_of_var(&n.children[0])
                } else {
                    let mut msg = String::new();
                    msg.append("malformed variable reference");
                    Err(LDPLError::new(msg, n.line, n.col, 1))
                }
            },
            _ => {
                let mut msg = String::new();
                msg.append("expected a variable");
                Err(LDPLError::new(msg, n.line, n.col, 1))
            },
        }
    }

    /// Find the type of an expression node.
    pub fn type_of_expr(&self, n: &Node) -> (r: Result<LDPLType, LDPLError>)
        ensures
            r is Ok <==> self.spec_type_of_expr(*n) is Some,
            r is Ok ==> Some(r.unwrap()) == self.spec_type_of_expr(*n),
    {
        match n.rule {
            Rule::Number => Ok(LDPLType::Number),
            Rule::Text | Rule::Linefeed => Ok(LDPLType::Text),
            Rule::Var | Rule::Ident => self.type_of_var(n),
            _ => {
                let mut msg = String::new();
                msg.append("expected an expression");
                Err(LDPLError::new(msg, n.line, n.col, 1))
            },
        }
    }

    /// How one leaf expression is written out: a normalized number, a text
    /// literal verbatim, the linefeed string, or a mangled identifier.
    pub open spec fn spec_leaf_expr(&self, n: Node) -> Option<Seq<char>> {
        if n.rule == Rule::Number {
            if is_num_lit(n.text@) {
                Some(canon_num(n.text@))
            } else {
                None
            }
        } else if n.rule == Rule::Text {
            Some(n.text@)
        } else if n.rule == Rule::Linefeed {
            Some("\"\\n\""@)
        } else if n.rule == Rule::Ident {
            Some(self.spec_var_name(n.text@))
        } else {
            None
        }
    }

    /// How a lookup chain from part `i` on is written out; `spec_lookup_tail`
    /// carries the text built so far.
    pub open spec fn spec_lookup(&self, parts: Seq<Node>, i: int) -> Option<Seq<char>>
        decreases parts.len() - i, 0int,
    {
        if 0 <= i < parts.len() {
            match self.spec_leaf_expr(parts[i]) {
                None => None,
                Some(base) => self.spec_lookup_tail(parts, i + 1, base),
            }
        } else {
            None
        }
    }

    /// Subscripts are written as successive `[…]` operations, except that a
    /// subscript naming a collection variable starts a nested lookup that
    /// swallows the remaining parts.
    pub open spec fn spec_lookup_tail(&self, parts: Seq<Node>, j: int, acc: Seq<char>) -> Option<
        Seq<char>,
    >
        decreases parts.len() - j, 1int,
    {
        if j >= parts.len() {
            Some(acc)
        } else if j < 0 {
            None
        } else {
            let p = parts[j];
            if p.rule == Rule::Ident && (match self.spec_type_of_node(p) {
                Some(t) => t is List || t is Vector,
                None => false,
            }) {
                match self.spec_lookup(parts, j) {
                    None => None,
                    Some(inner) => Some(acc + "["@ + inner + "]"@),
                }
            } else {
                match self.spec_leaf_expr(p) {
                    None => None,
                    Some(e) => self.spec_lookup_tail(parts, j + 1, acc + "["@ + e + "]"@),
                }
            }
        }
    }

    /// How an expression is written out.
    pub open spec fn spec_expr(&self, n: Node) -> Option<Seq<char>> {
        if n.rule == Rule::Var {
            if n.children@.len() == 1 {
                let c = n.children@[0];
                if c.rule == Rule::Ident {
                    Some(self.spec_var_name(c.text@))
                } else if c.rule == Rule::Lookup {
                    self.spec_lookup(c.children@, 0)
                } else {
                    None
                }
            } else {
                None
            }
        } else {
            self.spec_leaf_expr(n)
        }
    }

    /// Mangle a variable name, using the simplified EXTERNAL scheme for
    /// names declared EXTERNAL.
    pub fn mangle_var(&self, ident: &str) -> (r: String)
        ensures
            r@ == self.spec_var_name(ident@),
    {
        let up = to_upper(ident);
        proof {
            crate::text::lemma_upper_idempotent(ident@);
        }
        if names_contains(&self.ext_vars, up.as_str()) {
            let r = mangle_extern(up.as_str());
            proof {
                assert(spec_mangle_ext(upper(ident@)) =~= spec_mangle_ext(ident@));
            }
            r
        } else {
            let r = mangle_var(up.as_str());
            proof {
                assert(r@ =~= self.spec_var_name(ident@));
            }
            r
        }
    }

    /// Lower one leaf expression.
    fn compile_leaf_expr(&self, n: &Node) -> (r: Result<String, LDPLError>)
        ensures
            r is Ok <==> self.spec_leaf_expr(*n) is Some,
            r is Ok ==> Some(r.unwrap()@) == self.spec_leaf_expr(*n),
    {
        match n.rule {
            Rule::Number => match canon_number(n.text.as_str()) {
                Some(c) => Ok(c),
                None => {
                    let mut msg = String::new();
                    msg.append("Can't parse number: ");
                    msg.append(n.text.as_str());
                    Err(LDPLError::new(msg, n.line, n.col, 1))
                },
            },
            Rule::Text => {
                let mut out = String::new();
                out.append(n.text.as_str());
                Ok(out)
            },
            Rule::Linefeed => {
                let mut out = String::new();
                out.append("\"\\n\"");
                Ok(out)
            },
            Rule::Ident => Ok(self.mangle_var(n.text.as_str())),
            _ => {
                let mut msg = String::new();
                msg.append("UNIMPLEMENTED expression");
                Err(LDPLError::new(msg, n.line, n.col, 1))
            },
        }
    }

    /// Lower a lookup chain from part `i` on. Knows the difference between
    /// `a:b:1` where `b` is a collection (`A[B[1]]`) and where `b` is a
    /// scalar (`A[B][1]`).
    fn compile_lookup(&self, parts: &Vec<Node>, i: usize) -> (r: Result<String, LDPLError>)
        requires
            i < parts@.len(),
        ensures
            r is Ok <==> self.spec_lookup(parts@, i as int) is Some,
            r is Ok ==> Some(r.unwrap()@) == self.spec_lookup(parts@, i as int),
        decreases parts@.len() - i, 0int,
    {
        let n = parts.len();
        let base = match self.compile_leaf_expr(&parts[i]) {
            Ok(b) => b,
            Err(e) => {
                return Err(e);
            },
        };
        proof {
            assert(i < n);
        }
        self.compile_lookup_tail(parts, i + 1, base)
    }

    /// Lower the subscripts of a lookup chain onto `acc`.
    fn compile_lookup_tail(&self, parts: &Vec<Node>, j: usize, acc: String) -> (r: Result<
        String,
        LDPLError,
    >)
        ensures
            r is Ok <==> self.spec_lookup_tail(parts@, j as int, acc@) is Some,
            r is Ok ==> Some(r.unwrap()@) == self.spec_lookup_tail(parts@, j as int, acc@),
        decreases parts@.len() - j, 1int,
    {
        let n = parts.len();
        if j >= n {
            return Ok(acc);
        }
        let p = &parts[j];
        let mut nested = false;
        if matches!(p.rule, Rule::Ident) {
            match self.type_of_var(p) {
                Ok(t) => {
                    if t.is_collection() {
                        nested = true;
                    }
                },
                Err(_) => {},
            }
        }
        if nested {
            let inner = match self.compile_lookup(parts, j) {
                Ok(s) => s,
                Err(e) => {
                    return Err(e);
                },
            };
            let mut out = acc;
            out.append("[");
            out.append(inner.as_str());
            out.append("]");
            proof {
                assert(out@ =~= acc@ + "["@ + self.spec_lookup(parts@, j as int).unwrap()
                    + "]"@);
            }
            Ok(out)
        } else {
            let e = match self.compile_leaf_expr(p) {
                Ok(s) => s,
                Err(e) => {
                    return Err(e);
                },
            };
            let mut out = acc;
            out.append("[");
            out.append(e.as_str());
            out.append("]");
            proof {
                assert(out@ =~= acc@ + "["@ + self.spec_leaf_expr(parts@[j as int]).unwrap()
                    + "]"@);
            }
            self.compile_lookup_tail(parts, j + 1, out)
        }
    }

    /// Lower an expression: a variable, number, text, or linefeed.
    pub fn compile_expr(&self, n: &Node) -> (r: Result<String, LDPLError>)
        ensures
            r is Ok <==> self.spec_expr(*n) is Some,
            r is Ok ==> Some(r.unwrap()@) == self.spec_expr(*n),
    {
        if matches!(n.rule, Rule::Var) {
            if n.children.len() != 1 {
                let mut msg = String::new();
                msg.append("malformed variable reference");
                return Err(LDPLError::new(msg, n.line, n.col, 1));
            }
            let c = &n.children[0];
            match c.rule {
                Rule::Ident => Ok(self.mangle_var(c.text.as_str())),
                Rule::Lookup => {
                    if c.children.len() == 0 {
                        let mut msg = String::new();
                        msg.append("malformed lookup");
                        return Err(LDPLError::new(msg, n.line, n.col, 1));
                    }
                    self.compile_lookup(&c.children, 0)
                },
                _ => {
                    let mut msg = String::new();
                    msg.append("malformed variable reference");
                    Err(LDPLError::new(msg, n.line, n.col, 1))
                },
            }
        } else {
            self.compile_leaf_expr(n)
        }
    }

    /// Lower a node that must be a variable reference.
    pub fn compile_var(&self, n: &Node) -> (r: Result<String, LDPLError>)
        ensures
            r is Ok ==> n.rule == Rule::Var && Some(r.unwrap()@) == self.spec_expr(*n),
            n.rule == Rule::Var ==> (r is Ok <==> self.spec_expr(*n) is Some),
    {
        if matches!(n.rule, Rule::Var) {
            self.compile_expr(n)
        } else {
            let mut msg = String::new();
            msg.append("expected a variable");
            Err(LDPLError::new(msg, n.line, n.col, 1))
        }
    }
}



/// One emitted line: indentation, the content, a newline.
pub open spec fn ln(d: nat, c: Seq<char>) -> Seq<char> {
    spec_indent(d) + c + "\n"@
}

/// Escaping of a `STORE QUOTE` body: a newline becomes a backslash, a
/// newline, a backslash and `n`; a double quote is backslash-escaped.
pub open spec fn quote_escape(s: Seq<char>) -> Seq<char>
    decreases s.len(),
{
    if s.len() == 0 {
        Seq::<char>::empty()
    } else {
        let head: Seq<char> = if s[0] == '\n' {
            seq!['\\', '\n', '\\', 'n']
        } else if s[0] == '"' {
            seq!['\\', '"']
        } else {
            seq![s[0]]
        };
        head + quote_escape(s.skip(1))
    }
}

/// `quote_escape` distributes over appending one character.
proof fn lemma_quote_escape_snoc(s: Seq<char>, c: char)
    ensures
        quote_escape(s.push(c)) == quote_escape(s) + (if c == '\n' {
            seq!['\\', '\n', '\\', 'n']
        } else if c == '"' {
            seq!['\\', '"']
        } else {
            seq![c]
        }),
    decreases s.len(),
{
    let tail: Seq<char> = if c == '\n' {
        seq!['\\', '\n', '\\', 'n']
    } else if c == '"' {
        seq!['\\', '"']
    } else {
        seq![c]
    };
    if s.len() == 0 {
        assert(s.push(c)[0] == c);
        assert(s.push(c).skip(1) =~= Seq::<char>::empty());
        assert(quote_escape(s.push(c).skip(1)) == Seq::<char>::empty());
        assert(quote_escape(s.push(c)) == tail + quote_escape(s.push(c).skip(1)));
        assert(tail + Seq::<char>::empty() =~= tail);
        assert(quote_escape(s) + tail =~= tail);
    } else {
        assert(s.push(c)[0] == s[0]);
        assert(s.push(c).skip(1) =~= s.skip(1).push(c));
        lemma_quote_escape_snoc(s.skip(1), c);
        let head: Seq<char> = if s[0] == '\n' {
            seq!['\\', '\n', '\\', 'n']
        } else if s[0] == '"' {
            seq!['\\', '"']
        } else {
            seq![s[0]]
        };
        assert(quote_escape(s.push(c)) == head + (quote_escape(s.skip(1)) + tail));
        assert(head + (quote_escape(s.skip(1)) + tail) =~= (head + quote_escape(s.skip(1)))
            + tail);
    }
}

/// Escape a `STORE QUOTE` body for a C++ string literal.
fn quote_escape_exec(s: &str) -> (r: String)
    ensures
        r@ == quote_escape(s@),
{
    let cs = crate::text::str_chars(s);
    let mut out: Vec<char> = Vec::new();
    let mut i: usize = 0;
    while i < cs.len()
        invariant
            i <= cs@.len(),
            cs@ == s@,
            out@ == quote_escape(s@.subrange(0, i as int)),
        decreases cs@.len() - i,
    {
        let ghost prefix = s@.subrange(0, i as int);
        let c = cs[i];
        proof {
            lemma_quote_escape_snoc(prefix, c);
            assert(prefix.push(c) =~= s@.subrange(0, i as int + 1));
        }
        if c == '\n' {
            out.push('\\');
            out.push('\n');
            out.push('\\');
            out.push('n');
            proof {
                assert(out@ =~= quote_escape(prefix) + seq!['\\', '\n', '\\', 'n']);
            }
        } else if c == '"' {
            out.push('\\');
            out.push('"');
            proof {
                assert(out@ =~= quote_escape(prefix) + seq!['\\', '"']);
            }
        } else {
            out.push(c);
            proof {
                assert(out@ =~= quote_escape(prefix) + seq![c]);
            }
        }
        i = i + 1;
    }
    proof {
        assert(s@.subrange(0, s@.len() as int) =~= s@);
    }
    crate::text::chars_string(&out)
}

impl Compiler {
    /// The current indentation, four blanks per level.
    pub fn indent_str(&self) -> (r: String)
        ensures
            r@ == spec_indent(self.depth as nat),
    {
        let mut out = String::new();
        let mut i: usize = 0;
        while i < self.depth
            invariant
                i <= self.depth,
                out@ == spec_indent(i as nat),
            decreases self.depth - i,
        {
            out.append("    ");
            i = i + 1;
        }
        out
    }

    /// Indent the content and end the line.
    fn line1(&self, content: String) -> (r: String)
        ensures
            r@ == ln(self.depth as nat, content@),
    {
        let mut out = self.indent_str();
        out.append(content.as_str());
        out.append("\n");
        out
    }

    /// How an expression is written out when it is assigned or passed to a
    /// place of the given type: numbers and texts coerce.
    pub open spec fn spec_expr_for_type(&self, e: Node, t: LDPLType) -> Option<Seq<char>> {
        match self.spec_expr(e) {
            None => None,
            Some(s) => match self.spec_type_of_expr(e) {
                None => None,
                Some(et) => if t == LDPLType::Text && e.rule == Rule::Number {
                    Some("\""@ + s + "\""@)
                } else if t == LDPLType::Number && (et == LDPLType::Text
                    || crate::types::spec_is_text_collection(et)) {
                    Some("to_number("@ + s + ")"@)
                } else if t == LDPLType::Text && (et == LDPLType::Number
                    || crate::types::spec_is_number_collection(et)) {
                    Some("to_ldpl_string("@ + s + ")"@)
                } else {
                    Some(s)
                },
            },
        }
    }

    /// Lower an expression with coercion to the given target type.
    pub fn compile_expr_for_type(&self, e: &Node, t: &LDPLType) -> (r: Result<String, LDPLError>)
        ensures
            r is Ok <==> self.spec_expr_for_type(*e, *t) is Some,
            r is Ok ==> Some(r.unwrap()@) == self.spec_expr_for_type(*e, *t),
    {
        let et = match self.type_of_expr(e) {
            Ok(t) => t,
            Err(err) => {
                return Err(err);
            },
        };
        let s = match self.compile_expr(e) {
            Ok(s) => s,
            Err(err) => {
                return Err(err);
            },
        };
        if t.is_text() && matches!(e.rule, Rule::Number) {
            let mut out = String::new();
            out.append("\"");
            out.append(s.as_str());
            out.append("\"");
            Ok(out)
        } else if t.is_number() && (et.is_text() || et.is_text_collection()) {
            let mut out = String::new();
            out.append("to_number(");
            out.append(s.as_str());
            out.append(")");
            Ok(out)
        } else if t.is_text() && (et.is_number() || et.is_number_collection()) {
            let mut out = String::new();
            out.append("to_ldpl_string(");
            out.append(s.as_str());
            out.append(")");
            Ok(out)
        } else {
            Ok(s)
        }
    }

    /// `STORE e IN v`: the value, coerced to the target's declared type, is
    /// assigned to the target.
    pub open spec fn spec_store(&self, n: Node) -> Option<Seq<char>> {
        if n.children@.len() == 2 {
            let e = n.children@[0];
            let v = n.children@[1];
            if v.rule == Rule::Var {
                match self.spec_type_of_node(v) {
                    None => None,
                    Some(t) => match self.spec_expr_for_type(e, t) {
                        None => None,
                        Some(val) => match self.spec_expr(v) {
                            None => None,
                            Some(vs) => Some(
                                ln(self.depth as nat, vs + " = "@ + val + ";"@),
                            ),
                        },
                    },
                }
            } else {
                None
            }
        } else {
            None
        }
    }

    /// STORE _ IN _
    pub fn compile_store_stmt(&self, n: &Node) -> (r: Result<String, LDPLError>)
        ensures
            r is Ok <==> self.spec_store(*n) is Some,
            r is Ok ==> Some(r.unwrap()@) == self.spec_store(*n),
    {
        let e = match n.child(0) {
            Ok(c) => c,
            Err(err) => {
                return Err(err);
            },
        };
        let v = match n.child(1) {
            Ok(c) => c,
            Err(err) => {
                return Err(err);
            },
        };
        if n.children.len() != 2 {
            let mut msg = String::new();
            msg.append("malformed STORE statement");
            return Err(LDPLError::new(msg, n.line, n.col, 1));
        }
        if !matches!(v.rule, Rule::Var) {
            let mut msg = String::new();
            msg.append("expected a variable");
            return Err(LDPLError::new(msg, n.line, n.col, 1));
        }
        let t = match self.type_of_var(v) {
            Ok(t) => t,
            Err(err) => {
                return Err(err);
            },
        };
        let val = match self.compile_expr_for_type(e, &t) {
            Ok(s) => s,
            Err(err) => {
                return Err(err);
            },
        };
        let vs = match self.compile_var(v) {
            Ok(s) => s,
            Err(err) => {
                return Err(err);
            },
        };
        let mut content = vs;
        content.append(" = ");
        content.append(val.as_str());
        content.append(";");
        let out = self.line1(content);
        proof {
            assert(out@ =~= self.spec_store(*n).unwrap());
        }
        Ok(out)
    }

    /// `STORE QUOTE IN v`: the raw block, escaped, is assigned as one text
    /// literal.
    pub open spec fn spec_store_quote(&self, n: Node) -> Option<Seq<char>> {
        if n.children@.len() == 2 {
            let v = n.children@[0];
            let q = n.children@[1];
            if v.rule == Rule::Var && q.rule == Rule::QuoteText {
                match self.spec_expr(v) {
                    None => None,
                    Some(vs) => Some(
                        ln(
                            self.depth as nat,
                            vs + " = \""@ + quote_escape(q.text@) + "\";"@,
                        ),
                    ),
                }
            } else {
                None
            }
        } else {
            None
        }
    }

    /// STORE QUOTE _ IN _ … END QUOTE
    pub fn compile_store_quote_stmt(&self, n: &Node) -> (r: Result<String, LDPLError>)
        ensures
            r is Ok <==> self.spec_store_quote(*n) is Some,
            r is Ok ==> Some(r.unwrap()@) == self.spec_store_quote(*n),
    {
        let v = match n.child(0) {
            Ok(c) => c,
            Err(err) => {
                return Err(err);
            },
        };
        let q = match n.child(1) {
            Ok(c) => c,
            Err(err) => {
                return Err(err);
            },
        };
        if n.children.len() != 2 || !matches!(q.rule, Rule::QuoteText) {
            let mut msg = String::new();
            msg.append("malformed STORE QUOTE statement");
            return Err(LDPLError::new(msg, n.line, n.col, 1));
        }
        let vs = match self.compile_var(v) {
            Ok(s) => s,
            Err(err) => {
                return Err(err);
            },
        };
        let escaped = quote_escape_exec(q.text.as_str());
        let mut content = vs;
        content.append(" = \"");
        content.append(escaped.as_str());
        content.append("\";");
        let out = self.line1(content);
        proof {
            assert(out@ =~= self.spec_store_quote(*n).unwrap());
        }
        Ok(out)
    }

    /// RETURN: only inside a sub-procedure.
    pub fn compile_return_stmt(&self, n: &Node) -> (r: Result<String, LDPLError>)
        ensures
            r is Ok <==> self.in_sub,
            r is Ok ==> r.unwrap()@ == ln(self.depth as nat, "return;"@),
    {
        if !self.in_sub {
            let mut msg = String::new();
            msg.append("RETURN can't be used outside of SUB-PROCEDURE");
            return Err(LDPLError::new(msg, n.line, n.col, 1));
        }
        let mut content = String::new();
        content.append("return;");
        Ok(self.line1(content))
    }

    /// BREAK / CONTINUE: only inside a loop; written out in lowercase.
    pub fn compile_loop_kw_stmt(&self, n: &Node) -> (r: Result<String, LDPLError>)
        ensures
            r is Ok <==> self.in_loop > 0,
            r is Ok ==> r.unwrap()@ == ln(self.depth as nat, lower(n.text@) + ";"@),
    {
        if self.in_loop == 0 {
            let mut msg = String::new();
            msg.append(n.text.as_str());
            msg.append(" can't be used without FOR/WHILE loop");
            return Err(LDPLError::new(msg, n.line, n.col, 1));
        }
        let mut content = crate::text::to_lower(n.text.as_str());
        content.append(";");
        Ok(self.line1(content))
    }

    /// `GOTO x`: jump to a mangled label.
    pub fn compile_goto_stmt(&self, n: &Node) -> (r: Result<String, LDPLError>)
        ensures
            r is Ok <==> n.children@.len() >= 1,
            r is Ok ==> r.unwrap()@ == ln(
                self.depth as nat,
                "goto label_"@ + spec_mangle(n.children@[0].text@) + ";"@,
            ),
    {
        let label = match n.child(0) {
            Ok(c) => c,
            Err(err) => {
                return Err(err);
            },
        };
        let mut content = String::new();
        content.append("goto label_");
        let m = mangle(label.text.as_str());
        content.append(m.as_str());
        content.append(";");
        Ok(self.line1(content))
    }

    /// `LABEL x`: a mangled label at column zero, whatever the indentation.
    pub fn compile_label_stmt(&self, n: &Node) -> (r: Result<String, LDPLError>)
        ensures
            r is Ok <==> n.children@.len() >= 1,
            r is Ok ==> r.unwrap()@ == "label_"@ + spec_mangle(n.children@[0].text@) + ":\n"@,
    {
        let label = match n.child(0) {
            Ok(c) => c,
            Err(err) => {
                return Err(err);
            },
        };
        let mut out = String::new();
        out.append("label_");
        let m = mangle(label.text.as_str());
        out.append(m.as_str());
        out.append(":\n");
        Ok(out)
    }

    /// EXIT: leave the program.
    pub fn compile_exit_stmt(&self, _n: &Node) -> (r: String)
        ensures
            r@ == ln(self.depth as nat, "exit(0);"@),
    {
        let mut content = String::new();
        content.append("exit(0);");
        self.line1(content)
    }

    /// `WAIT e MILLISECONDS`: sleep for the given span.
    pub open spec fn spec_wait(&self, n: Node) -> Option<Seq<char>> {
        if n.children@.len() >= 1 {
            match self.spec_expr(n.children@[0]) {
                None => None,
                Some(e) => Some(
                    ln(
                        self.depth as nat,
                        "std::this_thread::sleep_for(std::chrono::milliseconds((long int)"@ + e
                            + "));"@,
                    ),
                ),
            }
        } else {
            None
        }
    }

    /// WAIT _ MILLISECONDS
    pub fn compile_wait_stmt(&self, n: &Node) -> (r: Result<String, LDPLError>)
        ensures
            r is Ok <==> self.spec_wait(*n) is Some,
            r is Ok ==> Some(r.unwrap()@) == self.spec_wait(*n),
    {
        let c = match n.child(0) {
            Ok(c) => c,
            Err(err) => {
                return Err(err);
            },
        };
        let e = match self.compile_expr(c) {
            Ok(s) => s,
            Err(err) => {
                return Err(err);
            },
        };
        let mut content = String::new();
        content.append("std::this_thread::sleep_for(std::chrono::milliseconds((long int)");
        content.append(e.as_str());
        content.append("));");
        let out = self.line1(content);
        proof {
            assert(out@ =~= self.spec_wait(*n).unwrap());
        }
        Ok(out)
    }
}



impl Compiler {
    /// Output of one lowered statement, as the handler writes it.
    pub open spec fn spec_modulo(&self, n: Node) -> Option<Seq<char>> {
        if n.children@.len() == 3 && n.children@[2].rule == Rule::Var {
            match self.spec_expr(n.children@[0]) { None => None, Some(e0) => match self.spec_expr(n.children@[1]) { None => None, Some(e1) => match self.spec_expr(n.children@[2]) { None => None, Some(v2) => Some(ln(self.depth as nat, v2 + " = modulo("@ + e0 + ", "@ + e1 + ");"@)) } } }
        } else {
            None
        }
    }

    /// Lower one statement; the output is exactly `spec_modulo`.
    pub fn compile_modulo_stmt(&self, n: &Node) -> (r: Result<String, LDPLError>)
        ensures
            r is Ok <==> self.spec_modulo(*n) is Some,
            r is Ok ==> Some(r.unwrap()@) == self.spec_modulo(*n),
    {
        if n.children.len() != 3 {
            let mut msg = String::new();
            msg.append("malformed statement");
            return Err(LDPLError::new(msg, n.line, n.col, 1));
        }
        let c0 = match n.child(0) { Ok(c) => c, Err(err) => { return Err(err); } };
        let e0 = match self.compile_expr(c0) { Ok(s) => s, Err(err) => { return Err(err); } };
        let c1 = match n.child(1) { Ok(c) => c, Err(err) => { return Err(err); } };
        let e1 = match self.compile_expr(c1) { Ok(s) => s, Err(err) => { return Err(err); } };
        let c2 = match n.child(2) { Ok(c) => c, Err(err) => { return Err(err); } };
        if !matches!(c2.rule, Rule::Var) {
            let mut msg = String::new();
            msg.append("expected a variable");
            return Err(LDPLError::new(msg, c2.line, c2.col, 1));
        }
        let v2 = match self.compile_var(c2) { Ok(s) => s, Err(err) => { return Err(err); } };
        let mut content = String::new();
        content.append(v2.as_str());
        content.append(" = modulo(");
        content.append(e0.as_str());
        content.append(", ");
        content.append(e1.as_str());
        content.append(");");
        let out = self.line1(content);
        proof {
            assert(out@ =~= self.spec_modulo(*n).unwrap());
        }
        Ok(out)
    }

    /// Output of one lowered statement, as the handler writes it.
    pub open spec fn spec_split(&self, n: Node) -> Option<Seq<char>> {
        if n.children@.len() == 3 && n.children@[2].rule == Rule::Var {
            match self.spec_expr(n.children@[0]) { None => None, Some(e0) => match self.spec_expr(n.children@[1]) { None => None, Some(e1) => match self.spec_expr(n.children@[2]) { None => None, Some(v2) => Some(ln(self.depth as nat, v2 + " = utf8_split_list("@ + e0 + ", "@ + e1 + ");"@)) } } }
        } else {
            None
        }
    }

    /// Lower one statement; the output is exactly `spec_split`.
    pub fn compile_split_stmt(&self, n: &Node) -> (r: Result<String, LDPLError>)
        ensures
            r is Ok <==> self.spec_split(*n) is Some,
            r is Ok ==> Some(r.unwrap()@) == self.spec_split(*n),
    {
        if n.children.len() != 3 {
            let mut msg = String::new();
            msg.append("malformed statement");
            return Err(LDPLError::new(msg, n.line, n.col, 1));
        }
        let c0 = match n.child(0) { Ok(c) => c, Err(err) => { return Err(err); } };
        let e0 = match self.compile_expr(c0) { Ok(s) => s, Err(err) => { return Err(err); } };
        let c1 = match n.child(1) { Ok(c) => c, Err(err) => { return Err(err); } };
        let e1 = match self.compile_expr(c1) { Ok(s) => s, Err(err) => { return Err(err); } };
        let c2 = match n.child(2) { Ok(c) => c, Err(err) => { return Err(err); } };
        if !matches!(c2.rule, Rule::Var) {
            let mut msg = String::new();
            msg.append("expected a variable");
            return Err(LDPLError::new(msg, c2.line, c2.col, 1));
        }
        let v2 = match self.compile_var(c2) { Ok(s) => s, Err(err) => { return Err(err); } };
        let mut content = String::new();
        content.append(v2.as_str());
        content.append(" = utf8_split_list(");
        content.append(e0.as_str());
        content.append(", ");
        content.append(e1.as_str());
        content.append(");");
        let out = self.line1(content);
        proof {
            assert(out@ =~= self.spec_split(*n).unwrap());
        }
        Ok(out)
    }

    /// Output of one lowered statement, as the handler writes it.
    pub open spec fn spec_replace(&self, n: Node) -> Option<Seq<char>> {
        if n.children@.len() == 4 && n.children@[3].rule == Rule::Var {
            match self.spec_expr(n.children@[0]) { None => None, Some(e0) => match self.spec_expr(n.children@[1]) { None => None, Some(e1) => match self.spec_expr(n.children@[2]) { None => None, Some(e2) => match self.spec_expr(n.children@[3]) { None => None, Some(v3) => Some(ln(self.depth as nat, v3 + " = str_replace(((chText)"@ + e1 + ").str_rep(), ((chText)"@ + e0 + ").str_rep(), ((chText)"@ + e2 + ").str_rep());"@)) } } } }
        } else {
            None
        }
    }

    /// Lower one statement; the output is exactly `spec_replace`.
    pub fn compile_replace_stmt(&self, n: &Node) -> (r: Result<String, LDPLError>)
        ensures
            r is Ok <==> self.spec_replace(*n) is Some,
            r is Ok ==> Some(r.unwrap()@) == self.spec_replace(*n),
    {
        if n.children.len() != 4 {
            let mut msg = String::new();
            msg.append("malformed statement");
            return Err(LDPLError::new(msg, n.line, n.col, 1));
        }
        let c0 = match n.child(0) { Ok(c) => c, Err(err) => { return Err(err); } };
        let e0 = match self.compile_expr(c0) { Ok(s) => s, Err(err) => { return Err(err); } };
        let c1 = match n.child(1) { Ok(c) => c, Err(err) => { return Err(err); } };
        let e1 = match self.compile_expr(c1) { Ok(s) => s, Err(err) => { return Err(err); } };
        let c2 = match n.child(2) { Ok(c) => c, Err(err) => { return Err(err); } };
        let e2 = match self.compile_expr(c2) { Ok(s) => s, Err(err) => { return Err(err); } };
        let c3 = match n.child(3) { Ok(c) => c, Err(err) => { return Err(err); } };
        if !matches!(c3.rule, Rule::Var) {
            let mut msg = String::new();
            msg.append("expected a variable");
            return Err(LDPLError::new(msg, c3.line, c3.col, 1));
        }
        let v3 = match self.compile_var(c3) { Ok(s) => s, Err(err) => { return Err(err); } };
        let mut content = String::new();
        content.append(v3.as_str());
        content.append(" = str_replace(((chText)");
        content.append(e1.as_str());
        content.append(").str_rep(), ((chText)");
        content.append(e0.as_str());
        content.append(").str_rep(), ((chText)");
        content.append(e2.as_str());
        content.append(").str_rep());");
        let out = self.line1(content);
        proof {
            assert(out@ =~= self.spec_replace(*n).unwrap());
        }
        Ok(out)
    }

    /// Output of one lowered statement, as the handler writes it.
    pub open spec fn spec_old_join(&self, n: Node) -> Option<Seq<char>> {
        if n.children@.len() == 3 && n.children@[2].rule == Rule::Var {
            match self.spec_expr_for_type(n.children@[0], LDPLType::Text) { None => None, Some(t0) => match self.spec_expr_for_type(n.children@[1], LDPLType::Text) { None => None, Some(t1) => match self.spec_expr(n.children@[2]) { None => None, Some(v2) => Some(ln(self.depth as nat, "join("@ + t0 + ", "@ + t1 + ", "@ + v2 + ");"@)) } } }
        } else {
            None
        }
    }

    /// Lower one statement; the output is exactly `spec_old_join`.
    pub fn compile_old_join_stmt(&self, n: &Node) -> (r: Result<String, LDPLError>)
        ensures
            r is Ok <==> self.spec_old_join(*n) is Some,
            r is Ok ==> Some(r.unwrap()@) == self.spec_old_join(*n),
    {
        if n.children.len() != 3 {
            let mut msg = String::new();
            msg.append("malformed statement");
            return Err(LDPLError::new(msg, n.line, n.col, 1));
        }
        let c0 = match n.child(0) { Ok(c) => c, Err(err) => { return Err(err); } };
        let t0 = match self.compile_expr_for_type(c0, &LDPLType::Text) { Ok(s) => s, Err(err) => { return Err(err); } };
        let c1 = match n.child(1) { Ok(c) => c, Err(err) => { return Err(err); } };
        let t1 = match self.compile_expr_for_type(c1, &LDPLType::Text) { Ok(s) => s, Err(err) => { return Err(err); } };
        let c2 = match n.child(2) { Ok(c) => c, Err(err) => { return Err(err); } };
        if !matches!(c2.rule, Rule::Var) {
            let mut msg = String::new();
            msg.append("expected a variable");
            return Err(LDPLError::new(msg, c2.line, c2.col, 1));
        }
        let v2 = match self.compile_var(c2) { Ok(s) => s, Err(err) => { return Err(err); } };
        let mut content = String::new();
        content.append("join(");
        content.append(t0.as_str());
        content.append(", ");
        content.append(t1.as_str());
        content.append(", ");
        content.append(v2.as_str());
        content.append(");");
        let out = self.line1(content);
        proof {
            assert(out@ =~= self.spec_old_join(*n).unwrap());
        }
        Ok(out)
    }

    /// Output of one lowered statement, as the handler writes it.
    pub open spec fn spec_trim(&self, n: Node) -> Option<Seq<char>> {
        if n.children@.len() == 2 && n.children@[1].rule == Rule::Var {
            match self.spec_expr(n.children@[0]) { None => None, Some(e0) => match self.spec_expr(n.children@[1]) { None => None, Some(v1) => Some(ln(self.depth as nat, v1 + " = trimCopy("@ + e0 + ");"@)) } }
        } else {
            None
        }
    }

    /// Lower one statement; the output is exactly `spec_trim`.
    pub fn compile_trim_stmt(&self, n: &Node) -> (r: Result<String, LDPLError>)
        ensures
            r is Ok <==> self.spec_trim(*n) is Some,
            r is Ok ==> Some(r.unwrap()@) == self.spec_trim(*n),
    {
        if n.children.len() != 2 {
            let mut msg = String::new();
            msg.append("malformed statement");
            return Err(LDPLError::new(msg, n.line, n.col, 1));
        }
        let c0 = match n.child(0) { Ok(c) => c, Err(err) => { return Err(err); } };
        let e0 = match self.compile_expr(c0) { Ok(s) => s, Err(err) => { return Err(err); } };
        let c1 = match n.child(1) { Ok(c) => c, Err(err) => { return Err(err); } };
        if !matches!(c1.rule, Rule::Var) {
            let mut msg = String::new();
            msg.append("expected a variable");
            return Err(LDPLError::new(msg, c1.line, c1.col, 1));
        }
        let v1 = match self.compile_var(c1) { Ok(s) => s, Err(err) => { return Err(err); } };
        let mut content = String::new();
        content.append(v1.as_str());
        content.append(" = trimCopy(");
        content.append(e0.as_str());
        content.append(");");
        let out = self.line1(content);
        proof {
            assert(out@ =~= self.spec_trim(*n).unwrap());
        }
        Ok(out)
    }

    /// Output of one lowered statement, as the handler writes it.
    pub open spec fn spec_count(&self, n: Node) -> Option<Seq<char>> {
        if n.children@.len() == 3 && n.children@[2].rule == Rule::Var {
            match self.spec_expr(n.children@[0]) { None => None, Some(e0) => match self.spec_expr(n.children@[1]) { None => None, Some(e1) => match self.spec_expr(n.children@[2]) { None => None, Some(v2) => Some(ln(self.depth as nat, v2 + " = utf8Count("@ + e1 + ", "@ + e0 + ");"@)) } } }
        } else {
            None
        }
    }

    /// Lower one statement; the output is exactly `spec_count`.
    pub fn compile_count_stmt(&self, n: &Node) -> (r: Result<String, LDPLError>)
        ensures
            r is Ok <==> self.spec_count(*n) is Some,
            r is Ok ==> Some(r.unwrap()@) == self.spec_count(*n),
    {
        if n.children.len() != 3 {
            let mut msg = String::new();
            msg.append("malformed statement");
            return Err(LDPLError::new(msg, n.line, n.col, 1));
        }
        let c0 = match n.child(0) { Ok(c) => c, Err(err) => { return Err(err); } };
        let e0 = match self.compile_expr(c0) { Ok(s) => s, Err(err) => { return Err(err); } };
        let c1 = match n.child(1) { Ok(c) => c, Err(err) => { return Err(err); } };
        let e1 = match self.compile_expr(c1) { Ok(s) => s, Err(err) => { return Err(err); } };
        let c2 = match n.child(2) { Ok(c) => c, Err(err) => { return Err(err); } };
        if !matches!(c2.rule, Rule::Var) {
            let mut msg = String::new();
            msg.append("expected a variable");
            return Err(LDPLError::new(msg, c2.line, c2.col, 1));
        }
        let v2 = match self.compile_var(c2) { Ok(s) => s, Err(err) => { return Err(err); } };
        let mut content = String::new();
        content.append(v2.as_str());
        content.append(" = utf8Count(");
        content.append(e1.as_str());
        content.append(", ");
        content.append(e0.as_str());
        content.append(");");
        let out = self.line1(content);
        proof {
            assert(out@ =~= self.spec_count(*n).unwrap());
        }
        Ok(out)
    }

    /// Output of one lowered statement, as the handler writes it.
    pub open spec fn spec_get_index(&self, n: Node) -> Option<Seq<char>> {
        if n.children@.len() == 3 && n.children@[2].rule == Rule::Var {
            match self.spec_expr(n.children@[0]) { None => None, Some(e0) => match self.spec_expr(n.children@[1]) { None => None, Some(e1) => match self.spec_expr(n.children@[2]) { None => None, Some(v2) => Some(ln(self.depth as nat, v2 + " = utf8GetIndexOf("@ + e1 + ", "@ + e0 + ");"@)) } } }
        } else {
            None
        }
    }

    /// Lower one statement; the output is exactly `spec_get_index`.
    pub fn compile_get_index_stmt(&self, n: &Node) -> (r: Result<String, LDPLError>)
        ensures
            r is Ok <==> self.spec_get_index(*n) is Some,
            r is Ok ==> Some(r.unwrap()@) == self.spec_get_index(*n),
    {
        if n.children.len() != 3 {
            let mut msg = String::new();
            msg.append("malformed statement");
            return Err(LDPLError::new(msg, n.line, n.col, 1));
        }
        let c0 = match n.child(0) { Ok(c) => c, Err(err) => { return Err(err); } };
        let e0 = match self.compile_expr(c0) { Ok(s) => s, Err(err) => { return Err(err); } };
        let c1 = match n.child(1) { Ok(c) => c, Err(err) => { return Err(err); } };
        let e1 = match self.compile_expr(c1) { Ok(s) => s, Err(err) => { return Err(err); } };
        let c2 = match n.child(2) { Ok(c) => c, Err(err) => { return Err(err); } };
        if !matches!(c2.rule, Rule::Var) {
            let mut msg = String::new();
            msg.append("expected a variable");
            return Err(LDPLError::new(msg, c2.line, c2.col, 1));
        }
        let v2 = match self.compile_var(c2) { Ok(s) => s, Err(err) => { return Err(err); } };
        let mut content = String::new();
        content.append(v2.as_str());
        content.append(" = utf8GetIndexOf(");
        content.append(e1.as_str());
        content.append(", ");
        content.append(e0.as_str());
        content.append(");");
        let out = self.line1(content);
        proof {
            assert(out@ =~= self.spec_get_index(*n).unwrap());
        }
        Ok(out)
    }

    /// Output of one lowered statement, as the handler writes it.
    pub open spec fn spec_get_char_code(&self, n: Node) -> Option<Seq<char>> {
        if n.children@.len() == 2 && n.children@[1].rule == Rule::Var {
            match self.spec_expr(n.children@[0]) { None => None, Some(e0) => match self.spec_expr(n.children@[1]) { None => None, Some(v1) => Some(ln(self.depth as nat, v1 + " = get_char_num("@ + e0 + ");"@)) } }
        } else {
            None
        }
    }

    /// Lower one statement; the output is exactly `spec_get_char_code`.
    pub fn compile_get_char_code_stmt(&self, n: &Node) -> (r: Result<String, LDPLError>)
        ensures
            r is Ok <==> self.spec_get_char_code(*n) is Some,
            r is Ok ==> Some(r.unwrap()@) == self.spec_get_char_code(*n),
    {
        if n.children.len() != 2 {
            let mut msg = String::new();
            msg.append("malformed statement");
            return Err(LDPLError::new(msg, n.line, n.col, 1));
        }
        let c0 = match n.child(0) { Ok(c) => c, Err(err) => { return Err(err); } };
        let e0 = match self.compile_expr(c0) { Ok(s) => s, Err(err) => { return Err(err); } };
        let c1 = match n.child(1) { Ok(c) => c, Err(err) => { return Err(err); } };
        if !matches!(c1.rule, Rule::Var) {
            let mut msg = String::new();
            msg.append("expected a variable");
            return Err(LDPLError::new(msg, c1.line, c1.col, 1));
        }
        let v1 = match self.compile_var(c1) { Ok(s) => s, Err(err) => { return Err(err); } };
        let mut content = String::new();
        content.append(v1.as_str());
        content.append(" = get_char_num(");
        content.append(e0.as_str());
        content.append(");");
        let out = self.line1(content);
        proof {
            assert(out@ =~= self.spec_get_char_code(*n).unwrap());
        }
        Ok(out)
    }

    /// Output of one lowered statement, as the handler writes it.
    pub open spec fn spec_get_ascii(&self, n: Node) -> Option<Seq<char>> {
        if n.children@.len() == 2 && n.children@[1].rule == Rule::Var {
            match self.spec_expr(n.children@[0]) { None => None, Some(e0) => match self.spec_expr(n.children@[1]) { None => None, Some(v1) => Some(ln(self.depth as nat, v1 + " = (char)("@ + e0 + ");"@)) } }
        } else {
            None
        }
    }

    /// Lower one statement; the output is exactly `spec_get_ascii`.
    pub fn compile_get_ascii_stmt(&self, n: &Node) -> (r: Result<String, LDPLError>)
        ensures
            r is Ok <==> self.spec_get_ascii(*n) is Some,
            r is Ok ==> Some(r.unwrap()@) == self.spec_get_ascii(*n),
    {
        if n.children.len() != 2 {
            let mut msg = String::new();
            msg.append("malformed statement");
            return Err(LDPLError::new(msg, n.line, n.col, 1));
        }
        let c0 = match n.child(0) { Ok(c) => c, Err(err) => { return Err(err); } };
        let e0 = match self.compile_expr(c0) { Ok(s) => s, Err(err) => { return Err(err); } };
        let c1 = match n.child(1) { Ok(c) => c, Err(err) => { return Err(err); } };
        if !matches!(c1.rule, Rule::Var) {
            let mut msg = String::new();
            msg.append("expected a variable");
            return Err(LDPLError::new(msg, c1.line, c1.col, 1));
        }
        let v1 = match self.compile_var(c1) { Ok(s) => s, Err(err) => { return Err(err); } };
        let mut content = String::new();
        content.append(v1.as_str());
        content.append(" = (char)(");
        content.append(e0.as_str());
        content.append(");");
        let out = self.line1(content);
        proof {
            assert(out@ =~= self.spec_get_ascii(*n).unwrap());
        }
        Ok(out)
    }

    /// Output of one lowered statement, as the handler writes it.
    pub open spec fn spec_get_char(&self, n: Node) -> Option<Seq<char>> {
        if n.children@.len() == 3 && n.children@[2].rule == Rule::Var {
            match self.spec_expr(n.children@[0]) { None => None, Some(e0) => match self.spec_expr(n.children@[1]) { None => None, Some(e1) => match self.spec_expr(n.children@[2]) { None => None, Some(v2) => Some(ln(self.depth as nat, v2 + " = charat("@ + e1 + ", "@ + e0 + ");"@)) } } }
        } else {
            None
        }
    }

    /// Lower one statement; the output is exactly `spec_get_char`.
    pub fn compile_get_char_stmt(&self, n: &Node) -> (r: Result<String, LDPLError>)
        ensures
            r is Ok <==> self.spec_get_char(*n) is Some,
            r is Ok ==> Some(r.unwrap()@) == self.spec_get_char(*n),
    {
        if n.children.len() != 3 {
            let mut msg = String::new();
            msg.append("malformed statement");
            return Err(LDPLError::new(msg, n.line, n.col, 1));
        }
        let c0 = match n.child(0) { Ok(c) => c, Err(err) => { return Err(err); } };
        let e0 = match self.compile_expr(c0) { Ok(s) => s, Err(err) => { return Err(err); } };
        let c1 = match n.child(1) { Ok(c) => c, Err(err) => { return Err(err); } };
        let e1 = match self.compile_expr(c1) { Ok(s) => s, Err(err) => { return Err(err); } };
        let c2 = match n.child(2) { Ok(c) => c, Err(err) => { return Err(err); } };
        if !matches!(c2.rule, Rule::Var) {
            let mut msg = String::new();
            msg.append("expected a variable");
            return Err(LDPLError::new(msg, c2.line, c2.col, 1));
        }
        let v2 = match self.compile_var(c2) { Ok(s) => s, Err(err) => { return Err(err); } };
        let mut content = String::new();
        content.append(v2.as_str());
        content.append(" = charat(");
        content.append(e1.as_str());
        content.append(", ");
        content.append(e0.as_str());
        content.append(");");
        let out = self.line1(content);
        proof {
            assert(out@ =~= self.spec_get_char(*n).unwrap());
        }
        Ok(out)
    }

    /// Output of one lowered statement, as the handler writes it.
    pub open spec fn spec_push(&self, n: Node) -> Option<Seq<char>> {
        if n.children@.len() == 2 && n.children@[1].rule == Rule::Var {
            match self.spec_expr(n.children@[0]) { None => None, Some(e0) => match self.spec_expr(n.children@[1]) { None => None, Some(v1) => Some(ln(self.depth as nat, v1 + ".inner_collection.push_back("@ + e0 + ");"@)) } }
        } else {
            None
        }
    }

    /// Lower one statement; the output is exactly `spec_push`.
    pub fn compile_push_stmt(&self, n: &Node) -> (r: Result<String, LDPLError>)
        ensures
            r is Ok <==> self.spec_push(*n) is Some,
            r is Ok ==> Some(r.unwrap()@) == self.spec_push(*n),
    {
        if n.children.len() != 2 {
            let mut msg = String::new();
            msg.append("malformed statement");
            return Err(LDPLError::new(msg, n.line, n.col, 1));
        }
        let c0 = match n.child(0) { Ok(c) => c, Err(err) => { return Err(err); } };
        let e0 = match self.compile_expr(c0) { Ok(s) => s, Err(err) => { return Err(err); } };
        let c1 = match n.child(1) { Ok(c) => c, Err(err) => { return Err(err); } };
        if !matches!(c1.rule, Rule::Var) {
            let mut msg = String::new();
            msg.append("expected a variable");
            return Err(LDPLError::new(msg, c1.line, c1.col, 1));
        }
        let v1 = match self.compile_var(c1) { Ok(s) => s, Err(err) => { return Err(err); } };
        let mut content = String::new();
        content.append(v1.as_str());
        content.append(".inner_collection.push_back(");
        content.append(e0.as_str());
        content.append(");");
        let out = self.line1(content);
        proof {
            assert(out@ =~= self.spec_push(*n).unwrap());
        }
        Ok(out)
    }

    /// Output of one lowered statement, as the handler writes it.
    pub open spec fn spec_delete(&self, n: Node) -> Option<Seq<char>> {
        if n.children@.len() == 1 && n.children@[0].rule == Rule::Var {
            match self.spec_expr(n.children@[0]) { None => None, Some(v0) => Some(ln(self.depth as nat, "if("@ + v0 + ".inner_collection.size() > 0) "@ + v0 + ".inner_collection.pop_back();"@)) }
        } else {
            None
        }
    }

    /// Lower one statement; the output is exactly `spec_delete`.
    pub fn compile_delete_stmt(&self, n: &Node) -> (r: Result<String, LDPLError>)
        ensures
            r is Ok <==> self.spec_delete(*n) is Some,
            r is Ok ==> Some(r.unwrap()@) == self.spec_delete(*n),
    {
        if n.children.len() != 1 {
            let mut msg = String::new();
            msg.append("malformed statement");
            return Err(LDPLError::new(msg, n.line, n.col, 1));
        }
        let c0 = match n.child(0) { Ok(c) => c, Err(err) => { return Err(err); } };
        if !matches!(c0.rule, Rule::Var) {
            let mut msg = String::new();
            msg.append("expected a variable");
            return Err(LDPLError::new(msg, c0.line, c0.col, 1));
        }
        let v0 = match self.compile_var(c0) { Ok(s) => s, Err(err) => { return Err(err); } };
        let mut content = String::new();
        content.append("if(");
        content.append(v0.as_str());
        content.append(".inner_collection.size() > 0) ");
        content.append(v0.as_str());
        content.append(".inner_collection.pop_back();");
        let out = self.line1(content);
        proof {
            assert(out@ =~= self.spec_delete(*n).unwrap());
        }
        Ok(out)
    }

    /// Output of one lowered statement, as the handler writes it.
    pub open spec fn spec_get_keys_count(&self, n: Node) -> Option<Seq<char>> {
        if n.children@.len() == 2 && n.children@[1].rule == Rule::Var {
            match self.spec_expr(n.children@[0]) { None => None, Some(e0) => match self.spec_expr(n.children@[1]) { None => None, Some(v1) => Some(ln(self.depth as nat, v1 + " = "@ + e0 + ".inner_collection.size();"@)) } }
        } else {
            None
        }
    }

    /// Lower one statement; the output is exactly `spec_get_keys_count`.
    pub fn compile_get_keys_count_stmt(&self, n: &Node) -> (r: Result<String, LDPLError>)
        ensures
            r is Ok <==> self.spec_get_keys_count(*n) is Some,
            r is Ok ==> Some(r.unwrap()@) == self.spec_get_keys_count(*n),
    {
        if n.children.len() != 2 {
            let mut msg = String::new();
            msg.append("malformed statement");
            return Err(LDPLError::new(msg, n.line, n.col, 1));
        }
        let c0 = match n.child(0) { Ok(c) => c, Err(err) => { return Err(err); } };
        let e0 = match self.compile_expr(c0) { Ok(s) => s, Err(err) => { return Err(err); } };
        let c1 = match n.child(1) { Ok(c) => c, Err(err) => { return Err(err); } };
        if !matches!(c1.rule, Rule::Var) {
            let mut msg = String::new();
            msg.append("expected a variable");
            return Err(LDPLError::new(msg, c1.line, c1.col, 1));
        }
        let v1 = match self.compile_var(c1) { Ok(s) => s, Err(err) => { return Err(err); } };
        let mut content = String::new();
        content.append(v1.as_str());
        content.append(" = ");
        content.append(e0.as_str());
        content.append(".inner_collection.size();");
        let out = self.line1(content);
        proof {
            assert(out@ =~= self.spec_get_keys_count(*n).unwrap());
        }
        Ok(out)
    }

    /// Output of one lowered statement, as the handler writes it.
    pub open spec fn spec_get_keys(&self, n: Node) -> Option<Seq<char>> {
        if n.children@.len() == 2 && n.children@[1].rule == Rule::Var {
            match self.spec_expr(n.children@[0]) { None => None, Some(e0) => match self.spec_expr(n.children@[1]) { None => None, Some(v1) => Some(ln(self.depth as nat, "get_indices("@ + v1 + ", "@ + e0 + ");"@)) } }
        } else {
            None
        }
    }

    /// Lower one statement; the output is exactly `spec_get_keys`.
    pub fn compile_get_keys_stmt(&self, n: &Node) -> (r: Result<String, LDPLError>)
        ensures
            r is Ok <==> self.spec_get_keys(*n) is Some,
            r is Ok ==> Some(r.unwrap()@) == self.spec_get_keys(*n),
    {
        if n.children.len() != 2 {
            let mut msg = String::new();
            msg.append("malformed statement");
            return Err(LDPLError::new(msg, n.line, n.col, 1));
        }
        let c0 = match n.child(0) { Ok(c) => c, Err(err) => { return Err(err); } };
        let e0 = match self.compile_expr(c0) { Ok(s) => s, Err(err) => { return Err(err); } };
        let c1 = match n.child(1) { Ok(c) => c, Err(err) => { return Err(err); } };
        if !matches!(c1.rule, Rule::Var) {
            let mut msg = String::new();
            msg.append("expected a variable");
            return Err(LDPLError::new(msg, c1.line, c1.col, 1));
        }
        let v1 = match self.compile_var(c1) { Ok(s) => s, Err(err) => { return Err(err); } };
        let mut content = String::new();
        content.append("get_indices(");
        content.append(v1.as_str());
        content.append(", ");
        content.append(e0.as_str());
        content.append(");");
        let out = self.line1(content);
        proof {
            assert(out@ =~= self.spec_get_keys(*n).unwrap());
        }
        Ok(out)
    }

    /// Output of one lowered statement, as the handler writes it.
    pub open spec fn spec_copy(&self, n: Node) -> Option<Seq<char>> {
        if n.children@.len() == 2 && n.children@[1].rule == Rule::Var {
            match self.spec_expr(n.children@[0]) { None => None, Some(e0) => match self.spec_expr(n.children@[1]) { None => None, Some(v1) => Some(ln(self.depth as nat, v1 + ".inner_collection = "@ + e0 + ".inner_collection;"@)) } }
        } else {
            None
        }
    }

    /// Lower one statement; the output is exactly `spec_copy`.
    pub fn compile_copy_stmt(&self, n: &Node) -> (r: Result<String, LDPLError>)
        ensures
            r is Ok <==> self.spec_copy(*n) is Some,
            r is Ok ==> Some(r.unwrap()@) == self.spec_copy(*n),
    {
        if n.children.len() != 2 {
            let mut msg = String::new();
            msg.append("malformed statement");
            return Err(LDPLError::new(msg, n.line, n.col, 1));
        }
        let c0 = match n.child(0) { Ok(c) => c, Err(err) => { return Err(err); } };
        let e0 = match self.compile_expr(c0) { Ok(s) => s, Err(err) => { return Err(err); } };
        let c1 = match n.child(1) { Ok(c) => c, Err(err) => { return Err(err); } };
        if !matches!(c1.rule, Rule::Var) {
            let mut msg = String::new();
            msg.append("expected a variable");
            return Err(LDPLError::new(msg, c1.line, c1.col, 1));
        }
        let v1 = match self.compile_var(c1) { Ok(s) => s, Err(err) => { return Err(err); } };
        let mut content = String::new();
        content.append(v1.as_str());
        content.append(".inner_collection = ");
        content.append(e0.as_str());
        content.append(".inner_collection;");
        let out = self.line1(content);
        proof {
            assert(out@ =~= self.spec_copy(*n).unwrap());
        }
        Ok(out)
    }

    /// Output of one lowered statement, as the handler writes it.
    pub open spec fn spec_clear(&self, n: Node) -> Option<Seq<char>> {
        if n.children@.len() == 1 && n.children@[0].rule == Rule::Var {
            match self.spec_expr(n.children@[0]) { None => None, Some(v0) => Some(ln(self.depth as nat, v0 + ".inner_collection.clear();"@)) }
        } else {
            None
        }
    }

    /// Lower one statement; the output is exactly `spec_clear`.
    pub fn compile_clear_stmt(&self, n: &Node) -> (r: Result<String, LDPLError>)
        ensures
            r is Ok <==> self.spec_clear(*n) is Some,
            r is Ok ==> Some(r.unwrap()@) == self.spec_clear(*n),
    {
        if n.children.len() != 1 {
            let mut msg = String::new();
            msg.append("malformed statement");
            return Err(LDPLError::new(msg, n.line, n.col, 1));
        }
        let c0 = match n.child(0) { Ok(c) => c, Err(err) => { return Err(err); } };
        if !matches!(c0.rule, Rule::Var) {
            let mut msg = String::new();
            msg.append("expected a variable");
            return Err(LDPLError::new(msg, c0.line, c0.col, 1));
        }
        let v0 = match self.compile_var(c0) { Ok(s) => s, Err(err) => { return Err(err); } };
        let mut content = String::new();
        content.append(v0.as_str());
        content.append(".inner_collection.clear();");
        let out = self.line1(content);
        proof {
            assert(out@ =~= self.spec_clear(*n).unwrap());
        }
        Ok(out)
    }

    /// Output of one lowered statement, as the handler writes it.
    pub open spec fn spec_load(&self, n: Node) -> Option<Seq<char>> {
        if n.children@.len() == 2 && n.children@[1].rule == Rule::Var {
            match self.spec_expr(n.children@[0]) { None => None, Some(e0) => match self.spec_expr(n.children@[1]) { None => None, Some(v1) => Some(ln(self.depth as nat, "load_file("@ + e0 + ", "@ + v1 + ");"@)) } }
        } else {
            None
        }
    }

    /// Lower one statement; the output is exactly `spec_load`.
    pub fn compile_load_stmt(&self, n: &Node) -> (r: Result<String, LDPLError>)
        ensures
            r is Ok <==> self.spec_load(*n) is Some,
            r is Ok ==> Some(r.unwrap()@) == self.spec_load(*n),
    {
        if n.children.len() != 2 {
            let mut msg = String::new();
            msg.append("malformed statement");
            return Err(LDPLError::new(msg, n.line, n.col, 1));
        }
        let c0 = match n.child(0) { Ok(c) => c, Err(err) => { return Err(err); } };
        let e0 = match self.compile_expr(c0) { Ok(s) => s, Err(err) => { return Err(err); } };
        let c1 = match n.child(1) { Ok(c) => c, Err(err) => { return Err(err); } };
        if !matches!(c1.rule, Rule::Var) {
            let mut msg = String::new();
            msg.append("expected a variable");
            return Err(LDPLError::new(msg, c1.line, c1.col, 1));
        }
        let v1 = match self.compile_var(c1) { Ok(s) => s, Err(err) => { return Err(err); } };
        let mut content = String::new();
        content.append("load_file(");
        content.append(e0.as_str());
        content.append(", ");
        content.append(v1.as_str());
        content.append(");");
        let out = self.line1(content);
        proof {
            assert(out@ =~= self.spec_load(*n).unwrap());
        }
        Ok(out)
    }
}


impl Compiler {
    /// `FLOOR x` floors in place; `FLOOR x IN y` stores `floor(y)` in `x`.
    pub open spec fn spec_floor(&self, n: Node) -> Option<Seq<char>> {
        if n.children@.len() >= 1 {
            let inner = n.children@[0];
            if inner.rule == Rule::FloorMutStmt && inner.children@.len() == 1 {
                match self.spec_expr(inner.children@[0]) {
                    None => None,
                    Some(e) => Some(
                        ln(self.depth as nat, e + " = floor("@ + e + ");"@),
                    ),
                }
            } else if inner.rule == Rule::FloorInStmt && inner.children@.len() == 2
                && inner.children@[1].rule == Rule::Var {
                match self.spec_expr(inner.children@[0]) {
                    None => None,
                    Some(e) => match self.spec_expr(inner.children@[1]) {
                        None => None,
                        Some(v) => Some(
                            ln(self.depth as nat, e + " = floor("@ + v + ");"@),
                        ),
                    },
                }
            } else {
                None
            }
        } else {
            None
        }
    }

    /// FLOOR _ / FLOOR _ IN _
    pub fn compile_floor_stmt(&self, n: &Node) -> (r: Result<String, LDPLError>)
        ensures
            r is Ok <==> self.spec_floor(*n) is Some,
            r is Ok ==> Some(r.unwrap()@) == self.spec_floor(*n),
    {
        let inner = match n.child(0) {
            Ok(c) => c,
            Err(err) => {
                return Err(err);
            },
        };
        if matches!(inner.rule, Rule::FloorMutStmt) && inner.children.len() == 1 {
            let e = match self.compile_expr(&inner.children[0]) {
                Ok(s) => s,
                Err(err) => {
                    return Err(err);
                },
            };
            let mut content = String::new();
            content.append(e.as_str());
            content.append(" = floor(");
            content.append(e.as_str());
            content.append(");");
            let out = self.line1(content);
            proof {
                assert(out@ =~= self.spec_floor(*n).unwrap());
            }
            Ok(out)
        } else if matches!(inner.rule, Rule::FloorInStmt) && inner.children.len() == 2 && matches!(
            inner.children[1].rule,
            Rule::Var,
        ) {
            let e = match self.compile_expr(&inner.children[0]) {
                Ok(s) => s,
                Err(err) => {
                    return Err(err);
                },
            };
            let v = match self.compile_var(&inner.children[1]) {
                Ok(s) => s,
                Err(err) => {
                    return Err(err);
                },
            };
            let mut content = String::new();
            content.append(e.as_str());
            content.append(" = floor(");
            content.append(v.as_str());
            content.append(");");
            let out = self.line1(content);
            proof {
                assert(out@ =~= self.spec_floor(*n).unwrap());
            }
            Ok(out)
        } else {
            let mut msg = String::new();
            msg.append("malformed FLOOR statement");
            Err(LDPLError::new(msg, n.line, n.col, 1))
        }
    }

    /// `SUBSTRING t FROM f LENGTH l IN v`: two lines, via the shared
    /// `joinvar` of the runtime.
    pub open spec fn spec_substring(&self, n: Node) -> Option<Seq<char>> {
        if n.children@.len() == 4 && n.children@[3].rule == Rule::Var {
            match self.spec_expr(n.children@[0]) {
                None => None,
                Some(t) => match self.spec_expr(n.children@[1]) {
                    None => None,
                    Some(f) => match self.spec_expr(n.children@[2]) {
                        None => None,
                        Some(l) => match self.spec_expr(n.children@[3]) {
                            None => None,
                            Some(v) => Some(
                                ln(self.depth as nat, "joinvar = "@ + t + ";"@) + ln(
                                    self.depth as nat,
                                    v + " = joinvar.substr("@ + f + ", "@ + l + ");"@,
                                ),
                            ),
                        },
                    },
                },
            }
        } else {
            None
        }
    }

    /// SUBSTRING _ FROM _ LENGTH _ IN _
    pub fn compile_substring_stmt(&self, n: &Node) -> (r: Result<String, LDPLError>)
        ensures
            r is Ok <==> self.spec_substring(*n) is Some,
            r is Ok ==> Some(r.unwrap()@) == self.spec_substring(*n),
    {
        if n.children.len() != 4 {
            let mut msg = String::new();
            msg.append("malformed SUBSTRING statement");
            return Err(LDPLError::new(msg, n.line, n.col, 1));
        }
        let c3 = match n.child(3) {
            Ok(c) => c,
            Err(err) => {
                return Err(err);
            },
        };
        if !matches!(c3.rule, Rule::Var) {
            let mut msg = String::new();
            msg.append("expected a variable");
            return Err(LDPLError::new(msg, c3.line, c3.col, 1));
        }
        let t = match self.compile_expr(&n.children[0]) {
            Ok(s) => s,
            Err(err) => {
                return Err(err);
            },
        };
        let f = match self.compile_expr(&n.children[1]) {
            Ok(s) => s,
            Err(err) => {
                return Err(err);
            },
        };
        let l = match self.compile_expr(&n.children[2]) {
            Ok(s) => s,
            Err(err) => {
                return Err(err);
            },
        };
        let v = match self.compile_var(c3) {
            Ok(s) => s,
            Err(err) => {
                return Err(err);
            },
        };
        let mut c1 = String::new();
        c1.append("joinvar = ");
        c1.append(t.as_str());
        c1.append(";");
        let mut out = self.line1(c1);
        let mut c2 = v;
        c2.append(" = joinvar.substr(");
        c2.append(f.as_str());
        c2.append(", ");
        c2.append(l.as_str());
        c2.append(");");
        let second = self.line1(c2);
        out.append(second.as_str());
        proof {
            assert(out@ =~= self.spec_substring(*n).unwrap());
        }
        Ok(out)
    }

    /// `GET LENGTH OF e IN v`: character count for texts, element count for
    /// lists; anything else is refused.
    pub open spec fn spec_get_length(&self, n: Node) -> Option<Seq<char>> {
        if n.children@.len() == 2 && n.children@[1].rule == Rule::Var {
            match self.spec_type_of_expr(n.children@[0]) {
                None => None,
                Some(t) => match self.spec_expr(n.children@[0]) {
                    None => None,
                    Some(e) => match self.spec_expr(n.children@[1]) {
                        None => None,
                        Some(v) => if t == LDPLType::Text {
                            Some(
                                ln(
                                    self.depth as nat,
                                    v + " = ((chText)"@ + e + ").size();"@,
                                ),
                            )
                        } else if t is List {
                            Some(
                                ln(
                                    self.depth as nat,
                                    v + " = "@ + e + ".inner_collection.size();"@,
                                ),
                            )
                        } else {
                            None
                        },
                    },
                },
            }
        } else {
            None
        }
    }

    /// GET LENGTH OF _ IN _
    pub fn compile_get_length_stmt(&self, n: &Node) -> (r: Result<String, LDPLError>)
        ensures
            r is Ok <==> self.spec_get_length(*n) is Some,
            r is Ok ==> Some(r.unwrap()@) == self.spec_get_length(*n),
    {
        if n.children.len() != 2 {
            let mut msg = String::new();
            msg.append("malformed GET LENGTH statement");
            return Err(LDPLError::new(msg, n.line, n.col, 1));
        }
        let c1 = match n.child(1) {
            Ok(c) => c,
            Err(err) => {
                return Err(err);
            },
        };
        if !matches!(c1.rule, Rule::Var) {
            let mut msg = String::new();
            msg.append("expected a variable");
            return Err(LDPLError::new(msg, c1.line, c1.col, 1));
        }
        let t = match self.type_of_expr(&n.children[0]) {
            Ok(t) => t,
            Err(err) => {
                return Err(err);
            },
        };
        let e = match self.compile_expr(&n.children[0]) {
            Ok(s) => s,
            Err(err) => {
                return Err(err);
            },
        };
        let v = match self.compile_var(c1) {
            Ok(s) => s,
            Err(err) => {
                return Err(err);
            },
        };
        if t.is_text() {
            let mut content = v;
            content.append(" = ((chText)");
            content.append(e.as_str());
            content.append(").size();");
            let out = self.line1(content);
            proof {
                assert(out@ =~= self.spec_get_length(*n).unwrap());
            }
            Ok(out)
        } else if t.is_list() {
            let mut content = v;
            content.append(" = ");
            content.append(e.as_str());
            content.append(".inner_collection.size();");
            let out = self.line1(content);
            proof {
                assert(out@ =~= self.spec_get_length(*n).unwrap());
            }
            Ok(out)
        } else {
            let mut msg = String::new();
            msg.append("GET LENGTH OF expects a text or a list");
            Err(LDPLError::new(msg, n.line, n.col, 1))
        }
    }

    /// The `<< …` chain of the first `i` operands of a DISPLAY statement.
    pub open spec fn spec_display_prefix(&self, kids: Seq<Node>, i: int) -> Option<Seq<char>>
        decreases i,
    {
        if i <= 0 {
            Some(Seq::<char>::empty())
        } else if i > kids.len() {
            None
        } else {
            match self.spec_display_prefix(kids, i - 1) {
                None => None,
                Some(prev) => match self.spec_expr(kids[i - 1]) {
                    None => None,
                    Some(e) => Some(prev + " << "@ + e),
                },
            }
        }
    }

    /// Once a prefix fails, every longer prefix fails.
    proof fn lemma_display_prefix_none(&self, kids: Seq<Node>, i: int, j: int)
        requires
            self.spec_display_prefix(kids, i) is None,
            i <= j,
        ensures
            self.spec_display_prefix(kids, j) is None,
        decreases j - i,
    {
        if i < j {
            self.lemma_display_prefix_none(kids, i, j - 1);
        }
    }

    /// `DISPLAY e…`: one `cout` chain ending in `flush`.
    pub open spec fn spec_display(&self, n: Node) -> Option<Seq<char>> {
        match self.spec_display_prefix(n.children@, n.children@.len() as int) {
            None => None,
            Some(parts) => Some(
                ln(self.depth as nat, "cout"@ + parts + " << flush;"@),
            ),
        }
    }

    /// DISPLAY _…
    pub fn compile_display_stmt(&self, n: &Node) -> (r: Result<String, LDPLError>)
        ensures
            r is Ok <==> self.spec_display(*n) is Some,
            r is Ok ==> Some(r.unwrap()@) == self.spec_display(*n),
    {
        let mut content = String::new();
        content.append("cout");
        let m = n.children.len();
        let mut i: usize = 0;
        while i < m
            invariant
                i <= m,
                m == n.children@.len(),
                self.spec_display_prefix(n.children@, i as int) is Some,
                content@ == "cout"@ + self.spec_display_prefix(n.children@, i as int).unwrap(),
            decreases m - i,
        {
            let e = match self.compile_expr(&n.children[i]) {
                Ok(s) => s,
                Err(err) => {
                    proof {
                        assert(self.spec_display_prefix(n.children@, i as int + 1) is None);
                        self.lemma_display_prefix_none(n.children@, i as int + 1, m as int);
                    }
                    return Err(err);
                },
            };
            content.append(" << ");
            content.append(e.as_str());
            i = i + 1;
            proof {
                assert(content@ =~= "cout"@ + self.spec_display_prefix(
                    n.children@,
                    i as int,
                ).unwrap());
            }
        }
        content.append(" << flush;");
        let out = self.line1(content);
        proof {
            assert(out@ =~= self.spec_display(*n).unwrap());
        }
        Ok(out)
    }
}


impl Compiler {
    /// `ACCEPT v` reads a number or a text by the target's type;
    /// `ACCEPT v UNTIL EOF` reads everything.
    pub open spec fn spec_accept(&self, n: Node) -> Option<Seq<char>> {
        if n.children@.len() >= 1 {
            let inner = n.children@[0];
            if inner.children@.len() >= 1 && inner.children@[0].rule == Rule::Var {
                let v = inner.children@[0];
                match self.spec_type_of_node(v) {
                    None => None,
                    Some(t) => match self.spec_expr(v) {
                        None => None,
                        Some(vs) => if inner.rule == Rule::AcceptEofStmt {
                            Some(
                                ln(self.depth as nat, vs + " = input_until_eof();"@),
                            )
                        } else if inner.rule == Rule::AcceptVarStmt {
                            if t == LDPLType::Text {
                                Some(
                                    ln(self.depth as nat, vs + " = input_string();"@),
                                )
                            } else if t == LDPLType::Number {
                                Some(
                                    ln(self.depth as nat, vs + " = input_number();"@),
                                )
                            } else {
                                None
                            }
                        } else {
                            None
                        },
                    },
                }
            } else {
                None
            }
        } else {
            None
        }
    }

    /// ACCEPT _ / ACCEPT _ UNTIL EOF
    pub fn compile_accept_stmt(&self, n: &Node) -> (r: Result<String, LDPLError>)
        ensures
            r is Ok <==> self.spec_accept(*n) is Some,
            r is Ok ==> Some(r.unwrap()@) == self.spec_accept(*n),
    {
        let inner = match n.child(0) {
            Ok(c) => c,
            Err(err) => {
                return Err(err);
            },
        };
        let v = match inner.child(0) {
            Ok(c) => c,
            Err(err) => {
                return Err(err);
            },
        };
        if !matches!(v.rule, Rule::Var) {
            let mut msg = String::new();
            msg.append("expected a variable");
            return Err(LDPLError::new(msg, n.line, n.col, 1));
        }
        let t = match self.type_of_var(v) {
            Ok(t) => t,
            Err(err) => {
                return Err(err);
            },
        };
        let vs = match self.compile_var(v) {
            Ok(s) => s,
            Err(err) => {
                return Err(err);
            },
        };
        if matches!(inner.rule, Rule::AcceptEofStmt) {
            let mut content = vs;
            content.append(" = input_until_eof();");
            let out = self.line1(content);
            proof {
                assert(out@ =~= self.spec_accept(*n).unwrap());
            }
            Ok(out)
        } else if matches!(inner.rule, Rule::AcceptVarStmt) {
            if t.is_text() {
                let mut content = vs;
                content.append(" = input_string();");
                let out = self.line1(content);
                proof {
                    assert(out@ =~= self.spec_accept(*n).unwrap());
                }
                Ok(out)
            } else if t.is_number() {
                let mut content = vs;
                content.append(" = input_number();");
                let out = self.line1(content);
                proof {
                    assert(out@ =~= self.spec_accept(*n).unwrap());
                }
                Ok(out)
            } else {
                let mut msg = String::new();
                msg.append("ACCEPT expects a number or text variable");
                Err(LDPLError::new(msg, n.line, n.col, 1))
            }
        } else {
            let mut msg = String::new();
            msg.append("malformed ACCEPT statement");
            Err(LDPLError::new(msg, n.line, n.col, 1))
        }
    }

    /// `WRITE e TO FILE p` / `APPEND e TO FILE p`: open, write, close.
    pub open spec fn spec_file_write(&self, n: Node, mode: Seq<char>) -> Option<Seq<char>> {
        if n.children@.len() == 2 {
            match self.spec_expr(n.children@[0]) {
                None => None,
                Some(e) => match self.spec_expr(n.children@[1]) {
                    None => None,
                    Some(p) => Some(
                        ln(
                            self.depth as nat,
                            "file_writing_stream.open(expandHomeDirectory(((chText)"@ + p
                                + ").str_rep()), ios_base::"@ + mode + ");"@,
                        ) + ln(self.depth as nat, "file_writing_stream << "@ + e + ";"@) + ln(
                            self.depth as nat,
                            "file_writing_stream.close();"@,
                        ),
                    ),
                },
            }
        } else {
            None
        }
    }

    /// WRITE _ TO FILE _
    pub fn compile_write_stmt(&self, n: &Node) -> (r: Result<String, LDPLError>)
        ensures
            r is Ok <==> self.spec_file_write(*n, "out"@) is Some,
            r is Ok ==> Some(r.unwrap()@) == self.spec_file_write(*n, "out"@),
    {
        self.compile_file_write(n, true)
    }

    /// APPEND _ TO FILE _
    pub fn compile_append_stmt(&self, n: &Node) -> (r: Result<String, LDPLError>)
        ensures
            r is Ok <==> self.spec_file_write(*n, "app"@) is Some,
            r is Ok ==> Some(r.unwrap()@) == self.spec_file_write(*n, "app"@),
    {
        self.compile_file_write(n, false)
    }

    /// Shared body of WRITE and APPEND.
    fn compile_file_write(&self, n: &Node, truncate: bool) -> (r: Result<String, LDPLError>)
        ensures
            r is Ok <==> self.spec_file_write(*n, if truncate {
                "out"@
            } else {
                "app"@
            }) is Some,
            r is Ok ==> Some(r.unwrap()@) == self.spec_file_write(*n, if truncate {
                "out"@
            } else {
                "app"@
            }),
    {
        if n.children.len() != 2 {
            let mut msg = String::new();
            msg.append("malformed file statement");
            return Err(LDPLError::new(msg, n.line, n.col, 1));
        }
        let e = match self.compile_expr(&n.children[0]) {
            Ok(s) => s,
            Err(err) => {
                return Err(err);
            },
        };
        let p = match self.compile_expr(&n.children[1]) {
            Ok(s) => s,
            Err(err) => {
                return Err(err);
            },
        };
        let mut c1 = String::new();
        c1.append("file_writing_stream.open(expandHomeDirectory(((chText)");
        c1.append(p.as_str());
        c1.append(").str_rep()), ios_base::");
        if truncate {
            c1.append("out");
        } else {
            c1.append("app");
        }
        c1.append(");");
        let mut out = self.line1(c1);
        let mut c2 = String::new();
        c2.append("file_writing_stream << ");
        c2.append(e.as_str());
        c2.append(";");
        let l2 = self.line1(c2);
        out.append(l2.as_str());
        let mut c3 = String::new();
        c3.append("file_writing_stream.close();");
        let l3 = self.line1(c3);
        out.append(l3.as_str());
        proof {
            let mode: Seq<char> = if truncate {
                "out"@
            } else {
                "app"@
            };
            assert(out@ =~= self.spec_file_write(*n, mode).unwrap());
        }
        Ok(out)
    }

    /// How a text is written out as a C character pointer, for EXECUTE and
    /// friends: a variable goes through `str_rep()`, a literal is passed
    /// verbatim.
    pub open spec fn spec_c_char(&self, n: Node) -> Option<Seq<char>> {
        if n.rule == Rule::Var {
            Some(spec_mangle_var(n.text@) + ".str_rep().c_str()"@)
        } else if n.rule == Rule::Text {
            Some(n.text@)
        } else {
            None
        }
    }

    /// Lower a text as a C character array.
    fn compile_c_char_array(&self, n: &Node) -> (r: Result<String, LDPLError>)
        ensures
            r is Ok <==> self.spec_c_char(*n) is Some,
            r is Ok ==> Some(r.unwrap()@) == self.spec_c_char(*n),
    {
        if matches!(n.rule, Rule::Var) {
            let mut out = mangle_var(n.text.as_str());
            out.append(".str_rep().c_str()");
            Ok(out)
        } else if matches!(n.rule, Rule::Text) {
            let mut out = String::new();
            out.append(n.text.as_str());
            Ok(out)
        } else {
            let mut msg = String::new();
            msg.append("expected a text or variable");
            Err(LDPLError::new(msg, n.line, n.col, 1))
        }
    }

    /// `EXECUTE e`, alone or storing the output or the exit code.
    pub open spec fn spec_execute(&self, n: Node) -> Option<Seq<char>> {
        if n.children@.len() >= 1 {
            let inner = n.children@[0];
            if inner.rule == Rule::ExecuteExprStmt && inner.children@.len() == 1 {
                match self.spec_c_char(inner.children@[0]) {
                    None => None,
                    Some(e) => Some(
                        ln(self.depth as nat, "system("@ + e + ");"@),
                    ),
                }
            } else if inner.rule == Rule::ExecuteOutputStmt && inner.children@.len() == 2
                && inner.children@[1].rule == Rule::Var {
                match self.spec_c_char(inner.children@[0]) {
                    None => None,
                    Some(e) => match self.spec_expr(inner.children@[1]) {
                        None => None,
                        Some(v) => Some(
                            ln(self.depth as nat, v + " = exec("@ + e + ");"@),
                        ),
                    },
                }
            } else if inner.rule == Rule::ExecuteExitCodeStmt && inner.children@.len() == 2
                && inner.children@[1].rule == Rule::Var {
                match self.spec_c_char(inner.children@[0]) {
                    None => None,
                    Some(e) => match self.spec_expr(inner.children@[1]) {
                        None => None,
                        Some(v) => Some(
                            ln(
                                self.depth as nat,
                                v + " = (system("@ + e + ") >> 8) & 0xff;"@,
                            ),
                        ),
                    },
                }
            } else {
                None
            }
        } else {
            None
        }
    }

    /// EXECUTE _ [AND STORE OUTPUT IN _ | AND STORE EXIT CODE IN _]
    pub fn compile_execute_stmt(&self, n: &Node) -> (r: Result<String, LDPLError>)
        ensures
            r is Ok <==> self.spec_execute(*n) is Some,
            r is Ok ==> Some(r.unwrap()@) == self.spec_execute(*n),
    {
        let inner = match n.child(0) {
            Ok(c) => c,
            Err(err) => {
                return Err(err);
            },
        };
        if matches!(inner.rule, Rule::ExecuteExprStmt) && inner.children.len() == 1 {
            let e = match self.compile_c_char_array(&inner.children[0]) {
                Ok(s) => s,
                Err(err) => {
                    return Err(err);
                },
            };
            let mut content = String::new();
            content.append("system(");
            content.append(e.as_str());
            content.append(");");
            let out = self.line1(content);
            proof {
                assert(out@ =~= self.spec_execute(*n).unwrap());
            }
            Ok(out)
        } else if matches!(inner.rule, Rule::ExecuteOutputStmt) && inner.children.len() == 2
            && matches!(inner.children[1].rule, Rule::Var) {
            let e = match self.compile_c_char_array(&inner.children[0]) {
                Ok(s) => s,
                Err(err) => {
                    return Err(err);
                },
            };
            let v = match self.compile_var(&inner.children[1]) {
                Ok(s) => s,
                Err(err) => {
                    return Err(err);
                },
            };
            let mut content = v;
            content.append(" = exec(");
            content.append(e.as_str());
            content.append(");");
            let out = self.line1(content);
            proof {
                assert(out@ =~= self.spec_execute(*n).unwrap());
            }
            Ok(out)
        } else if matches!(inner.rule, Rule::ExecuteExitCodeStmt) && inner.children.len() == 2
            && matches!(inner.children[1].rule, Rule::Var) {
            let e = match self.compile_c_char_array(&inner.children[0]) {
                Ok(s) => s,
                Err(err) => {
                    return Err(err);
                },
            };
            let v = match self.compile_var(&inner.children[1]) {
                Ok(s) => s,
                Err(err) => {
                    return Err(err);
                },
            };
            let mut content = v;
            content.append(" = (system(");
            content.append(e.as_str());
            content.append(") >> 8) & 0xff;");
            let out = self.line1(content);
            proof {
                assert(out@ =~= self.spec_execute(*n).unwrap());
            }
            Ok(out)
        } else {
            let mut msg = String::new();
            msg.append("malformed EXECUTE statement");
            Err(LDPLError::new(msg, n.line, n.col, 1))
        }
    }
}


impl Compiler {
    /// A lowered math expression: its parts joined by blanks.
    pub open spec fn spec_solve_expr(&self, n: Node) -> Option<Seq<char>>
        decreases n, 0int, 0int,
    {
        if n.rule == Rule::SolveExpr && n.children@.len() >= 1 {
            self.spec_solve_parts(n.children@, 0)
        } else {
            None
        }
    }

    /// The parts of a math expression from index `i` on, joined by blanks.
    pub open spec fn spec_solve_parts(&self, kids: Seq<Node>, i: int) -> Option<Seq<char>>
        decreases kids, 1int, kids.len() - i,
    {
        if 0 <= i < kids.len() {
            match self.spec_solve_part(kids[i]) {
                None => None,
                Some(p) => if i == kids.len() - 1 {
                    Some(p)
                } else {
                    match self.spec_solve_parts(kids, i + 1) {
                        None => None,
                        Some(rest) => Some(p + " "@ + rest),
                    }
                },
            }
        } else {
            None
        }
    }

    /// One part of a math expression: an operand, an operator, or a
    /// parenthesized sub-expression (parentheses are preserved).
    pub open spec fn spec_solve_part(&self, p: Node) -> Option<Seq<char>>
        decreases p, 2int, 0int,
    {
        if p.rule == Rule::MathOp {
            Some(p.text@)
        } else if p.rule == Rule::SolveExpr {
            match self.spec_solve_expr(p) {
                None => None,
                Some(inner) => Some("("@ + inner + ")"@),
            }
        } else if p.rule == Rule::Var || p.rule == Rule::Number || p.rule == Rule::Text {
            self.spec_expr(p)
        } else {
            None
        }
    }

    /// Lower a math expression node.
    pub fn compile_solve_expr(&self, n: &Node) -> (r: Result<String, LDPLError>)
        ensures
            r is Ok <==> self.spec_solve_expr(*n) is Some,
            r is Ok ==> Some(r.unwrap()@) == self.spec_solve_expr(*n),
        decreases *n, 0int, 0int,
    {
        if matches!(n.rule, Rule::SolveExpr) && n.children.len() >= 1 {
            proof {
                assert(decreases_to!(*n => n.children));
                assert(decreases_to!(n.children => n.children@));
            }
            self.compile_solve_parts(&n.children, 0)
        } else {
            let mut msg = String::new();
            msg.append("malformed math expression");
            Err(LDPLError::new(msg, n.line, n.col, 1))
        }
    }

    /// Lower the parts of a math expression from index `i` on.
    fn compile_solve_parts(&self, kids: &Vec<Node>, i: usize) -> (r: Result<String, LDPLError>)
        requires
            i < kids@.len(),
        ensures
            r is Ok <==> self.spec_solve_parts(kids@, i as int) is Some,
            r is Ok ==> Some(r.unwrap()@) == self.spec_solve_parts(kids@, i as int),
        decreases kids@, 1int, kids@.len() - i,
    {
        proof {
            assert(decreases_to!(kids@ => kids@[i as int]));
        }
        let p = match self.compile_solve_part(&kids[i]) {
            Ok(p) => p,
            Err(e) => {
                return Err(e);
            },
        };
        if i == kids.len() - 1 {
            Ok(p)
        } else {
            let rest = match self.compile_solve_parts(kids, i + 1) {
                Ok(rp) => rp,
                Err(e) => {
                    return Err(e);
                },
            };
            let mut out = p;
            out.append(" ");
            out.append(rest.as_str());
            proof {
                assert(out@ =~= self.spec_solve_parts(kids@, i as int).unwrap());
            }
            Ok(out)
        }
    }

    /// Lower one part of a math expression.
    fn compile_solve_part(&self, p: &Node) -> (r: Result<String, LDPLError>)
        ensures
            r is Ok <==> self.spec_solve_part(*p) is Some,
            r is Ok ==> Some(r.unwrap()@) == self.spec_solve_part(*p),
        decreases *p, 2int, 0int,
    {
        if matches!(p.rule, Rule::MathOp) {
            let mut out = String::new();
            out.append(p.text.as_str());
            Ok(out)
        } else if matches!(p.rule, Rule::SolveExpr) {
            let inner = match self.compile_solve_expr(p) {
                Ok(s) => s,
                Err(e) => {
                    return Err(e);
                },
            };
            let mut out = String::new();
            out.append("(");
            out.append(inner.as_str());
            out.append(")");
            proof {
                assert(out@ =~= self.spec_solve_part(*p).unwrap());
            }
            Ok(out)
        } else if matches!(p.rule, Rule::Var | Rule::Number | Rule::Text) {
            self.compile_expr(p)
        } else {
            let mut msg = String::new();
            msg.append("unexpected word in a math expression");
            Err(LDPLError::new(msg, p.line, p.col, 1))
        }
    }

    /// `IN v SOLVE <math>`: assign the math expression.
    pub open spec fn spec_solve(&self, n: Node) -> Option<Seq<char>> {
        if n.children@.len() == 2 && n.children@[0].rule == Rule::Var {
            match self.spec_expr(n.children@[0]) {
                None => None,
                Some(v) => match self.spec_solve_expr(n.children@[1]) {
                    None => None,
                    Some(m) => Some(ln(self.depth as nat, v + " = "@ + m + ";"@)),
                },
            }
        } else {
            None
        }
    }

    /// IN _ SOLVE _
    pub fn compile_solve_stmt(&self, n: &Node) -> (r: Result<String, LDPLError>)
        ensures
            r is Ok <==> self.spec_solve(*n) is Some,
            r is Ok ==> Some(r.unwrap()@) == self.spec_solve(*n),
    {
        if n.children.len() != 2 {
            let mut msg = String::new();
            msg.append("malformed SOLVE statement");
            return Err(LDPLError::new(msg, n.line, n.col, 1));
        }
        let c0 = match n.child(0) {
            Ok(c) => c,
            Err(err) => {
                return Err(err);
            },
        };
        if !matches!(c0.rule, Rule::Var) {
            let mut msg = String::new();
            msg.append("expected a variable");
            return Err(LDPLError::new(msg, c0.line, c0.col, 1));
        }
        let v = match self.compile_var(c0) {
            Ok(s) => s,
            Err(err) => {
                return Err(err);
            },
        };
        let m = match self.compile_solve_expr(&n.children[1]) {
            Ok(s) => s,
            Err(err) => {
                return Err(err);
            },
        };
        let mut content = v;
        content.append(" = ");
        content.append(m.as_str());
        content.append(";");
        let out = self.line1(content);
        proof {
            assert(out@ =~= self.spec_solve(*n).unwrap());
        }
        Ok(out)
    }

    /// The C++ comparison operator of a relation node.
    pub open spec fn spec_rel_sign(r: Rule) -> Option<Seq<char>> {
        if r == Rule::EqualExpr {
            Some("=="@)
        } else if r == Rule::NotEqualExpr {
            Some("!="@)
        } else if r == Rule::GtExpr {
            Some(">"@)
        } else if r == Rule::LtExpr {
            Some("<"@)
        } else if r == Rule::GteExpr {
            Some(">="@)
        } else if r == Rule::LteExpr {
            Some("<="@)
        } else {
            None
        }
    }

    /// A lowered test: each comparison in parentheses, `AND`/`OR` chains
    /// parenthesized pairwise.
    pub open spec fn spec_test_node(&self, n: Node) -> Option<Seq<char>>
        decreases n, 0int, 0int,
    {
        if n.rule == Rule::TestExpr {
            self.spec_test_list(n.children@, 0)
        } else if (n.rule == Rule::OrTestExpr || n.rule == Rule::AndTestExpr)
            && n.children@.len() == 2 {
            let opname: Seq<char> = if n.rule == Rule::OrTestExpr {
                "||"@
            } else {
                "&&"@
            };
            match self.spec_test_node(n.children@[0]) {
                None => None,
                Some(l) => match self.spec_test_node(n.children@[1]) {
                    None => None,
                    Some(r) => Some("("@ + l + " "@ + opname + " "@ + r + ")"@),
                },
            }
        } else if n.rule == Rule::OneTestExpr && n.children@.len() == 3 {
            match self.spec_expr(n.children@[0]) {
                None => None,
                Some(l) => match Self::spec_rel_sign(n.children@[1].rule) {
                    None => None,
                    Some(sign) => match self.spec_expr(n.children@[2]) {
                        None => None,
                        Some(r) => Some("("@ + l + " "@ + sign + " "@ + r + ")"@),
                    },
                },
            }
        } else {
            None
        }
    }

    /// The children of a `TestExpr`, joined by blanks.
    pub open spec fn spec_test_list(&self, kids: Seq<Node>, i: int) -> Option<Seq<char>>
        decreases kids, 1int, kids.len() - i,
    {
        if 0 <= i < kids.len() {
            match self.spec_test_node(kids[i]) {
                None => None,
                Some(p) => if i == kids.len() - 1 {
                    Some(p)
                } else {
                    match self.spec_test_list(kids, i + 1) {
                        None => None,
                        Some(rest) => Some(p + " "@ + rest),
                    }
                },
            }
        } else {
            None
        }
    }

    /// Lower an IF/WHILE test.
    pub fn compile_test_stmt(&self, n: &Node) -> (r: Result<String, LDPLError>)
        ensures
            r is Ok <==> self.spec_test_node(*n) is Some,
            r is Ok ==> Some(r.unwrap()@) == self.spec_test_node(*n),
        decreases *n, 0int, 0int,
    {
        if matches!(n.rule, Rule::TestExpr) {
            if n.children.len() == 0 {
                proof {
                    assert(self.spec_test_list(n.children@, 0) is None);
                }
                let mut msg = String::new();
                msg.append("empty test");
                return Err(LDPLError::new(msg, n.line, n.col, 1));
            }
            proof {
                assert(decreases_to!(*n => n.children));
                assert(decreases_to!(n.children => n.children@));
            }
            self.compile_test_list(&n.children, 0)
        } else if matches!(n.rule, Rule::OrTestExpr | Rule::AndTestExpr) && n.children.len()
            == 2 {
            proof {
                assert(decreases_to!(*n => n.children));
                assert(decreases_to!(n.children => n.children@));
                assert(decreases_to!(n.children@ => n.children@[0]));
                assert(decreases_to!(n.children@ => n.children@[1]));
            }
            let l = match self.compile_test_stmt(&n.children[0]) {
                Ok(s) => s,
                Err(e) => {
                    return Err(e);
                },
            };
            let r2 = match self.compile_test_stmt(&n.children[1]) {
                Ok(s) => s,
                Err(e) => {
                    return Err(e);
                },
            };
            let mut out = String::new();
            out.append("(");
            out.append(l.as_str());
            if matches!(n.rule, Rule::OrTestExpr) {
                out.append(" || ");
            } else {
                out.append(" && ");
            }
            out.append(r2.as_str());
            out.append(")");
            proof {
                reveal_strlit(" || ");
                reveal_strlit(" && ");
                reveal_strlit(" ");
                reveal_strlit("||");
                reveal_strlit("&&");
                assert(" || "@ =~= " "@ + "||"@ + " "@);
                assert(" && "@ =~= " "@ + "&&"@ + " "@);
                assert(out@ =~= self.spec_test_node(*n).unwrap());
            }
            Ok(out)
        } else if matches!(n.rule, Rule::OneTestExpr) && n.children.len() == 3 {
            self.compile_test_expr(n)
        } else {
            let mut msg = String::new();
            msg.append("malformed test");
            Err(LDPLError::new(msg, n.line, n.col, 1))
        }
    }

    /// Lower one comparison.
    pub fn compile_test_expr(&self, n: &Node) -> (r: Result<String, LDPLError>)
        requires
            n.rule == Rule::OneTestExpr,
            n.children@.len() == 3,
        ensures
            r is Ok <==> self.spec_test_node(*n) is Some,
            r is Ok ==> Some(r.unwrap()@) == self.spec_test_node(*n),
    {
        let l = match self.compile_expr(&n.children[0]) {
            Ok(s) => s,
            Err(e) => {
                return Err(e);
            },
        };
        let relrule = n.children[1].rule;
        let sign: &str = if matches!(relrule, Rule::EqualExpr) {
            "=="
        } else if matches!(relrule, Rule::NotEqualExpr) {
            "!="
        } else if matches!(relrule, Rule::GtExpr) {
            ">"
        } else if matches!(relrule, Rule::LtExpr) {
            "<"
        } else if matches!(relrule, Rule::GteExpr) {
            ">="
        } else if matches!(relrule, Rule::LteExpr) {
            "<="
        } else {
            let mut msg = String::new();
            msg.append("malformed comparison");
            return Err(LDPLError::new(msg, n.line, n.col, 1));
        };
        let r2 = match self.compile_expr(&n.children[2]) {
            Ok(s) => s,
            Err(e) => {
                return Err(e);
            },
        };
        let mut out = String::new();
        out.append("(");
        out.append(l.as_str());
        out.append(" ");
        out.append(sign);
        out.append(" ");
        out.append(r2.as_str());
        out.append(")");
        proof {
            assert(out@ =~= self.spec_test_node(*n).unwrap());
        }
        Ok(out)
    }

    /// Lower the children of a `TestExpr` from index `i` on.
    fn compile_test_list(&self, kids: &Vec<Node>, i: usize) -> (r: Result<String, LDPLError>)
        requires
            i < kids@.len(),
        ensures
            r is Ok <==> self.spec_test_list(kids@, i as int) is Some,
            r is Ok ==> Some(r.unwrap()@) == self.spec_test_list(kids@, i as int),
        decreases kids@, 1int, kids@.len() - i,
    {
        proof {
            assert(decreases_to!(kids@ => kids@[i as int]));
        }
        let p = match self.compile_test_stmt(&kids[i]) {
            Ok(p) => p,
            Err(e) => {
                return Err(e);
            },
        };
        if i == kids.len() - 1 {
            Ok(p)
        } else {
            let rest = match self.compile_test_list(kids, i + 1) {
                Ok(rp) => rp,
                Err(e) => {
                    return Err(e);
                },
            };
            let mut out = p;
            out.append(" ");
            out.append(rest.as_str());
            proof {
                assert(out@ =~= self.spec_test_list(kids@, i as int).unwrap());
            }
            Ok(out)
        }
    }
}


/// What lowering one statement may touch: the symbol tables, the scope
/// flags, the indentation, and the collected output pieces stay as they
/// were; the temporary counter may grow, and forward declarations and
/// expected definitions may be appended to — an appended expected
/// definition always names a sub the registry does not know yet.
pub open spec fn stmt_frame(pre: Compiler, post: Compiler) -> bool {
    &&& post.globals@ == pre.globals@
    &&& post.locals@ == pre.locals@
    &&& post.defs@ == pre.defs@
    &&& post.user_stmts@ == pre.user_stmts@
    &&& post.ext_vars@ == pre.ext_vars@
    &&& post.depth == pre.depth
    &&& post.in_sub == pre.in_sub
    &&& post.in_loop == pre.in_loop
    &&& post.main@ == pre.main@
    &&& post.subs@ == pre.subs@
    &&& post.vars@ == pre.vars@
    &&& post.exts@ == pre.exts@
    &&& post.flags@ == pre.flags@
    &&& post.tmp_id >= pre.tmp_id
    &&& post.path == pre.path
    &&& pre.forwards@.is_prefix_of(post.forwards@)
    &&& pre.expected_defs@.is_prefix_of(post.expected_defs@)
    &&& forall|k: int|
        pre.expected_defs@.len() <= k < post.expected_defs@.len() ==> defs_get(
            pre.defs@,
            (#[trigger] post.expected_defs@[k])@,
        ) is None
}

/// The statement frame composes.
pub proof fn lemma_stmt_frame_trans(a: Compiler, b: Compiler, c: Compiler)
    requires
        stmt_frame(a, b),
        stmt_frame(b, c),
    ensures
        stmt_frame(a, c),
{
    assert(a.forwards@.is_prefix_of(c.forwards@)) by {
        assert(a.forwards@ =~= c.forwards@.subrange(0, a.forwards@.len() as int)) by {
            assert(forall|i: int|
                0 <= i < a.forwards@.len() ==> a.forwards@[i] == b.forwards@[i]
                    && b.forwards@[i] == c.forwards@[i]);
        }
    }
    assert(a.expected_defs@.is_prefix_of(c.expected_defs@)) by {
        assert(a.expected_defs@ =~= c.expected_defs@.subrange(
            0,
            a.expected_defs@.len() as int,
        )) by {
            assert(forall|i: int|
                0 <= i < a.expected_defs@.len() ==> a.expected_defs@[i] == b.expected_defs@[i]
                    && b.expected_defs@[i] == c.expected_defs@[i]);
        }
    }
    assert forall|k: int|
        a.expected_defs@.len() <= k < c.expected_defs@.len() implies defs_get(
        a.defs@,
        (#[trigger] c.expected_defs@[k])@,
    ) is None by {
        if k < b.expected_defs@.len() {
            assert(b.expected_defs@[k] == c.expected_defs@[k]);
        }
    }
}

/// The text so far starts with the given prefix.
pub open spec fn starts_with(s: Seq<char>, p: Seq<char>) -> bool {
    p.len() <= s.len() && s.subrange(0, p.len() as int) == p
}

/// The text ends with the given suffix.
pub open spec fn ends_with(s: Seq<char>, p: Seq<char>) -> bool {
    p.len() <= s.len() && s.subrange((s.len() - p.len()) as int, s.len() as int) == p
}

/// A lowered user statement resolved against the registry: the emitted
/// text ends in a call of the sub registered as overload `q` of skeleton
/// `p`, a sub the registry also knows a signature for.
pub open spec fn user_stmt_resolves(c: Compiler, outseq: Seq<char>, p: int, q: int, args: Seq<char>) -> bool {
    &&& 0 <= p < c.user_stmts@.len()
    &&& 0 <= q < c.user_stmts@[p].1@.len()
    &&& defs_get(c.defs@, c.user_stmts@[p].1@[q]@) is Some
    &&& ends_with(
        outseq,
        ln(
            c.depth as nat,
            spec_mangle_sub(c.user_stmts@[p].1@[q]@) + "("@ + args + ");"@,
        ),
    )
}

/// Some registered overload resolves the statement.
pub open spec fn user_stmt_resolved(c: Compiler, outseq: Seq<char>) -> bool {
    exists|p: int, q: int, args: Seq<char>|
        #[trigger] user_stmt_resolves(c, outseq, p, q, args)
}

/// Comma-joining of call arguments.
pub open spec fn spec_args_join(a: Seq<char>, b: Seq<char>) -> Seq<char> {
    if a.len() == 0 {
        b
    } else {
        a + ", "@ + b
    }
}

impl Compiler {
    /// How the arguments `start..i` of a call are prepared, beginning at
    /// temporary counter `tmp0`: each literal argument is hoisted into a
    /// fresh typed temporary (so references pass correctly) while variables
    /// pass through. Yields the setup text, the comma-joined argument list,
    /// and the next temporary counter.
    pub open spec fn spec_arg_prefix(&self, kids: Seq<Node>, start: int, i: int, tmp0: nat)
        -> Option<(Seq<char>, Seq<char>, nat)>
        decreases i - start,
    {
        if i <= start {
            Some((Seq::<char>::empty(), Seq::<char>::empty(), tmp0))
        } else if i > kids.len() {
            None
        } else {
            match self.spec_arg_prefix(kids, start, i - 1, tmp0) {
                None => None,
                Some(acc) => {
                    let a = kids[i - 1];
                    if a.rule == Rule::Number || a.rule == Rule::Text || a.rule
                        == Rule::Linefeed {
                        match self.spec_expr(a) {
                            None => None,
                            Some(e) => {
                                let var = "LPVAR_"@ + dec_str(acc.2);
                                let ty: Seq<char> = if a.rule == Rule::Number {
                                    "ldpl_number "@
                                } else {
                                    "chText "@
                                };
                                Some(
                                    (
                                        acc.0 + ln(
                                            self.depth as nat,
                                            ty + var + " = "@ + e + ";"@,
                                        ),
                                        spec_args_join(acc.1, var),
                                        acc.2 + 1,
                                    ),
                                )
                            },
                        }
                    } else if a.rule == Rule::Var {
                        match self.spec_expr(a) {
                            None => None,
                            Some(e) => Some((acc.0, spec_args_join(acc.1, e), acc.2)),
                        }
                    } else {
                        None
                    }
                },
            }
        }
    }

    /// The whole argument list of a call.
    pub open spec fn spec_arg_list(&self, kids: Seq<Node>, start: int, tmp0: nat) -> Option<
        (Seq<char>, Seq<char>, nat),
    > {
        self.spec_arg_prefix(kids, start, kids.len() as int, tmp0)
    }

    /// Once an argument fails, the whole list fails.
    proof fn lemma_arg_prefix_none(&self, kids: Seq<Node>, start: int, i: int, j: int, tmp0: nat)
        requires
            self.spec_arg_prefix(kids, start, i, tmp0) is None,
            i <= j,
        ensures
            self.spec_arg_prefix(kids, start, j, tmp0) is None,
        decreases j - i,
    {
        if i < j {
            self.lemma_arg_prefix_none(kids, start, i, j - 1, tmp0);
        }
    }

    /// Prepare a call argument list from child `start` on: returns the
    /// setup text and the argument list; bumps the temporary counter.
    pub fn compile_arg_list(&mut self, kids: &Vec<Node>, start: usize) -> (r: Result<
        (String, String),
        LDPLError,
    >)
        ensures
            final(self).globals@ == old(self).globals@,
            final(self).locals@ == old(self).locals@,
            final(self).defs@ == old(self).defs@,
            final(self).user_stmts@ == old(self).user_stmts@,
            final(self).ext_vars@ == old(self).ext_vars@,
            final(self).depth == old(self).depth,
            final(self).in_sub == old(self).in_sub,
            final(self).in_loop == old(self).in_loop,
            final(self).main@ == old(self).main@,
            final(self).subs@ == old(self).subs@,
            final(self).vars@ == old(self).vars@,
            final(self).exts@ == old(self).exts@,
            final(self).flags@ == old(self).flags@,
            final(self).forwards@ == old(self).forwards@,
            final(self).expected_defs@ == old(self).expected_defs@,
            final(self).path == old(self).path,
            final(self).tmp_id >= old(self).tmp_id,
            old(self).spec_arg_list(kids@, start as int, old(self).tmp_id as nat) is None
                ==> r is Err,
            r is Err ==> old(self).spec_arg_list(kids@, start as int, old(self).tmp_id as nat)
                is None || old(self).tmp_id + kids@.len() - start > usize::MAX,
            r is Ok ==> old(self).spec_arg_list(kids@, start as int, old(self).tmp_id as nat)
                is Some,
            r is Ok ==> ({
                let sp = old(self).spec_arg_list(
                    kids@,
                    start as int,
                    old(self).tmp_id as nat,
                ).unwrap();
                r.unwrap().0@ == sp.0 && r.unwrap().1@ == sp.1 && final(self).tmp_id as nat
                    == sp.2
            }),
    {
        let ghost orig = *self;
        let m = kids.len();
        let mut tmp: usize = self.tmp_id;
        let mut prefix = String::new();
        let mut args = String::new();
        let mut i: usize = start;
        if start >= m {
            return Ok((prefix, args));
        }
        while i < m
            invariant
                start <= i <= m,
                m == kids@.len(),
                *self == orig,
                tmp >= orig.tmp_id,
                tmp <= orig.tmp_id + (i - start),
                orig.spec_arg_prefix(kids@, start as int, i as int, orig.tmp_id as nat)
                    is Some,
                ({
                    let acc = orig.spec_arg_prefix(
                        kids@,
                        start as int,
                        i as int,
                        orig.tmp_id as nat,
                    ).unwrap();
                    acc.0 == prefix@ && acc.1 == args@ && acc.2 == tmp as nat
                }),
            decreases m - i,
        {
            let ghost acc = orig.spec_arg_prefix(
                kids@,
                start as int,
                i as int,
                orig.tmp_id as nat,
            ).unwrap();
            let a = &kids[i];
            if matches!(a.rule, Rule::Number | Rule::Text | Rule::Linefeed) {
                let e = match self.compile_expr(a) {
                    Ok(s) => s,
                    Err(err) => {
                        proof {
                            self.lemma_arg_prefix_none(
                                kids@,
                                start as int,
                                i as int + 1,
                                m as int,
                                orig.tmp_id as nat,
                            );
                        }
                        return Err(err);
                    },
                };
                if tmp == usize::MAX {
                    let mut msg = String::new();
                    msg.append("too many temporaries");
                    return Err(LDPLError::new(msg, a.line, a.col, 1));
                }
                let mut var = String::new();
                var.append("LPVAR_");
                let num = usize_string(tmp);
                var.append(num.as_str());
                let mut content = String::new();
                if matches!(a.rule, Rule::Number) {
                    content.append("ldpl_number ");
                } else {
                    content.append("chText ");
                }
                content.append(var.as_str());
                content.append(" = ");
                content.append(e.as_str());
                content.append(";");
                let lnout = self.line1(content);
                prefix.append(lnout.as_str());
                if args.unicode_len() > 0 {
                    args.append(", ");
                }
                args.append(var.as_str());
                tmp = tmp + 1;
                i = i + 1;
                proof {
                    let acc2 = orig.spec_arg_prefix(
                        kids@,
                        start as int,
                        i as int,
                        orig.tmp_id as nat,
                    ).unwrap();
                    assert(prefix@ =~= acc2.0);
                    assert(args@ =~= acc2.1);
                }
            } else if matches!(a.rule, Rule::Var) {
                let e = match self.compile_expr(a) {
                    Ok(s) => s,
                    Err(err) => {
                        proof {
                            self.lemma_arg_prefix_none(
                                kids@,
                                start as int,
                                i as int + 1,
                                m as int,
                                orig.tmp_id as nat,
                            );
                        }
                        return Err(err);
                    },
                };
                if args.unicode_len() > 0 {
                    args.append(", ");
                }
                args.append(e.as_str());
                i = i + 1;
                proof {
                    let acc2 = orig.spec_arg_prefix(
                        kids@,
                        start as int,
                        i as int,
                        orig.tmp_id as nat,
                    ).unwrap();
                    assert(prefix@ =~= acc2.0);
                    assert(args@ =~= acc2.1);
                }
            } else {
                proof {
                    self.lemma_arg_prefix_none(
                        kids@,
                        start as int,
                        i as int + 1,
                        m as int,
                        orig.tmp_id as nat,
                    );
                }
                let mut msg = String::new();
                msg.append("unexpected call argument");
                return Err(LDPLError::new(msg, a.line, a.col, 1));
            }
        }
        self.tmp_id = tmp;
        Ok((prefix, args))
    }
}


/// Prefix chains.
proof fn lemma_str_prefix_trans(a: Seq<String>, b: Seq<String>, c: Seq<String>)
    requires
        a.is_prefix_of(b),
        b.is_prefix_of(c),
    ensures
        a.is_prefix_of(c),
{
    assert(a =~= c.subrange(0, a.len() as int)) by {
        assert(forall|i: int|
            0 <= i < a.len() ==> a[i] == b.subrange(0, a.len() as int)[i] && b[i]
                == c.subrange(0, b.len() as int)[i]);
    }
}

/// A list is a prefix of itself extended.
proof fn lemma_str_prefix_push(b: Seq<String>, x: String)
    ensures
        b.is_prefix_of(b.push(x)),
{
    assert(b =~= b.push(x).subrange(0, b.len() as int));
}

/// The statement frame is reflexive.
pub proof fn lemma_stmt_frame_refl(c: Compiler)
    ensures
        stmt_frame(c, c),
{
    assert(c.forwards@.subrange(0, c.forwards@.len() as int) =~= c.forwards@);
    assert(c.expected_defs@.subrange(0, c.expected_defs@.len() as int) =~= c.expected_defs@);
}

impl Compiler {
    /// A line emitted one level left of the current indentation, as the
    /// `ELSE` of an `IF` block is.
    pub open spec fn outdent(&self) -> nat {
        if self.depth > 0 {
            (self.depth - 1) as nat
        } else {
            0
        }
    }

    /// `ELSE` / `ELSE IF t THEN`: close the running block and open the
    /// next, one level left of the body indentation.
    pub open spec fn spec_else(&self, n: Node) -> Option<Seq<char>> {
        if n.rule == Rule::ElseStmt {
            if n.children@.len() == 0 {
                Some(ln(self.outdent(), "} else {"@))
            } else if n.children@.len() == 1 {
                match self.spec_test_node(n.children@[0]) {
                    None => None,
                    Some(t) => Some(ln(self.outdent(), "} else if "@ + t + " {"@)),
                }
            } else {
                None
            }
        } else {
            None
        }
    }

    /// ELSE / ELSE IF _ THEN
    pub fn compile_else_stmt(&self, n: &Node) -> (r: Result<String, LDPLError>)
        ensures
            r is Ok <==> self.spec_else(*n) is Some,
            r is Ok ==> Some(r.unwrap()@) == self.spec_else(*n),
    {
        if !matches!(n.rule, Rule::ElseStmt) {
            let mut msg = String::new();
            msg.append("unexpected ELSE statement");
            return Err(LDPLError::new(msg, n.line, n.col, 1));
        }
        let d: usize = if self.depth > 0 {
            self.depth - 1
        } else {
            0
        };
        if n.children.len() == 0 {
            let mut out = String::new();
            let mut i: usize = 0;
            while i < d
                invariant
                    i <= d,
                    out@ == spec_indent(i as nat),
                decreases d - i,
            {
                out.append("    ");
                i = i + 1;
            }
            out.append("} else {");
            out.append("\n");
            proof {
                assert(out@ =~= self.spec_else(*n).unwrap());
            }
            Ok(out)
        } else if n.children.len() == 1 {
            let t = match self.compile_test_stmt(&n.children[0]) {
                Ok(t) => t,
                Err(e) => {
                    return Err(e);
                },
            };
            let mut out = String::new();
            let mut i: usize = 0;
            while i < d
                invariant
                    i <= d,
                    out@ == spec_indent(i as nat),
                decreases d - i,
            {
                out.append("    ");
                i = i + 1;
            }
            out.append("} else if ");
            out.append(t.as_str());
            out.append(" {");
            out.append("\n");
            proof {
                assert(out@ =~= self.spec_else(*n).unwrap());
            }
            Ok(out)
        } else {
            let mut msg = String::new();
            msg.append("malformed ELSE statement");
            Err(LDPLError::new(msg, n.line, n.col, 1))
        }
    }

    /// Lower the body statements `n.children[k..]` with depth and loop
    /// nesting already adjusted by the caller.
    fn compile_body(&mut self, n: &Node, k: usize, allow_else: bool) -> (r: Result<
        String,
        LDPLError,
    >)
        ensures
            stmt_frame(*old(self), *final(self)),
            k >= n.children@.len() ==> r is Ok,
        decreases *n, 0int,
    {
        let ghost orig = *self;
        proof {
            lemma_stmt_frame_refl(orig);
        }
        let mut body = String::new();
        let m = n.children.len();
        let mut i: usize = k;
        while i < m
            invariant
                k <= i,
                m == n.children@.len(),
                orig == *old(self),
                stmt_frame(orig, *self),
            decreases m - i,
        {
            let ghost pre = *self;
            proof {
                assert(decreases_to!(*n => n.children));
                assert(decreases_to!(n.children => n.children@));
                assert(decreases_to!(n.children@ => n.children@[i as int]));
            }
            let child = &n.children[i];
            let piece: String;
            if allow_else && matches!(child.rule, Rule::ElseStmt) {
                piece = match self.compile_else_stmt(child) {
                    Ok(s) => s,
                    Err(e) => {
                        return Err(e);
                    },
                };
            } else {
                piece = match self.compile_subproc_stmt(child) {
                    Ok(s) => s,
                    Err(e) => {
                        proof {
                            lemma_stmt_frame_trans(orig, pre, *self);
                        }
                        return Err(e);
                    },
                };
            }
            body.append(piece.as_str());
            i = i + 1;
            proof {
                lemma_stmt_frame_trans(orig, pre, *self);
            }
        }
        Ok(body)
    }

    /// `WHILE t DO … REPEAT`: a `while` block.
    pub fn compile_while_stmt(&mut self, n: &Node) -> (r: Result<String, LDPLError>)
        ensures
            stmt_frame(*old(self), *final(self)),
            r is Ok ==> n.children@.len() >= 1 && old(self).spec_test_node(n.children@[0])
                is Some && starts_with(
                r.unwrap()@,
                ln(
                    old(self).depth as nat,
                    "while "@ + old(self).spec_test_node(n.children@[0]).unwrap() + " {"@,
                ),
            ) && ends_with(r.unwrap()@, ln(old(self).depth as nat, "}"@)),
            n.children@.len() == 1 && old(self).spec_test_node(n.children@[0]) is Some && old(
                self,
            ).depth < usize::MAX && old(self).in_loop < usize::MAX ==> r is Ok,
        decreases *n, 1int,
    {
        let ghost orig = *self;
        proof {
            lemma_stmt_frame_refl(orig);
        }
        let c0 = match n.child(0) {
            Ok(c) => c,
            Err(err) => {
                return Err(err);
            },
        };
        let test = match self.compile_test_stmt(c0) {
            Ok(t) => t,
            Err(e) => {
                return Err(e);
            },
        };
        if self.in_loop == usize::MAX || self.depth == usize::MAX {
            let mut msg = String::new();
            msg.append("block nesting too deep");
            return Err(LDPLError::new(msg, n.line, n.col, 1));
        }
        let mut head = String::new();
        head.append("while ");
        head.append(test.as_str());
        head.append(" {");
        let mut out = self.line1(head);
        let ghost headline = out@;
        self.in_loop = self.in_loop + 1;
        self.depth = self.depth + 1;
        let body = match self.compile_body(n, 1, false) {
            Ok(b) => b,
            Err(e) => {
                self.depth = self.depth - 1;
                self.in_loop = self.in_loop - 1;
                return Err(e);
            },
        };
        self.depth = self.depth - 1;
        self.in_loop = self.in_loop - 1;
        out.append(body.as_str());
        let mut closing = String::new();
        closing.append("}");
        let close = self.line1(closing);
        out.append(close.as_str());
        proof {
            assert(out@.subrange(0, headline.len() as int) =~= headline);
            assert(out@.subrange(
                out@.len() - close@.len(),
                out@.len() as int,
            ) =~= close@);
        }
        Ok(out)
    }

    /// `IF t THEN … [ELSE …] END IF`: an `if` block; `ELSE` arms close and
    /// reopen it.
    pub fn compile_if_stmt(&mut self, n: &Node) -> (r: Result<String, LDPLError>)
        ensures
            stmt_frame(*old(self), *final(self)),
            r is Ok ==> n.children@.len() >= 1 && old(self).spec_test_node(n.children@[0])
                is Some && starts_with(
                r.unwrap()@,
                ln(
                    old(self).depth as nat,
                    "if "@ + old(self).spec_test_node(n.children@[0]).unwrap() + " {"@,
                ),
            ) && ends_with(r.unwrap()@, ln(old(self).depth as nat, "}"@)),
            n.children@.len() == 1 && old(self).spec_test_node(n.children@[0]) is Some && old(
                self,
            ).depth < usize::MAX ==> r is Ok,
        decreases *n, 1int,
    {
        let ghost orig = *self;
        proof {
            lemma_stmt_frame_refl(orig);
        }
        let c0 = match n.child(0) {
            Ok(c) => c,
            Err(err) => {
                return Err(err);
            },
        };
        let test = match self.compile_test_stmt(c0) {
            Ok(t) => t,
            Err(e) => {
                return Err(e);
            },
        };
        if self.depth == usize::MAX {
            let mut msg = String::new();
            msg.append("block nesting too deep");
            return Err(LDPLError::new(msg, n.line, n.col, 1));
        }
        let mut head = String::new();
        head.append("if ");
        head.append(test.as_str());
        head.append(" {");
        let mut out = self.line1(head);
        let ghost headline = out@;
        self.depth = self.depth + 1;
        let body = match self.compile_body(n, 1, true) {
            Ok(b) => b,
            Err(e) => {
                self.depth = self.depth - 1;
                return Err(e);
            },
        };
        self.depth = self.depth - 1;
        out.append(body.as_str());
        let mut closing = String::new();
        closing.append("}");
        let close = self.line1(closing);
        out.append(close.as_str());
        proof {
            assert(out@.subrange(0, headline.len() as int) =~= headline);
            assert(out@.subrange(
                out@.len() - close@.len(),
                out@.len() as int,
            ) =~= close@);
        }
        Ok(out)
    }

    /// The opening line of a lowered `FOR`: the loop runs ascending or
    /// descending by the sign of the step, testing `v < to` when the step
    /// is non-negative and `v > to` otherwise.
    pub open spec fn spec_for_head(&self, n: Node) -> Option<Seq<char>> {
        if n.children@.len() >= 4 {
            let v = spec_mangle_var(n.children@[0].text@);
            match self.spec_expr(n.children@[1]) {
                None => None,
                Some(from) => match self.spec_expr(n.children@[2]) {
                    None => None,
                    Some(to) => match self.spec_expr(n.children@[3]) {
                        None => None,
                        Some(step) => Some(
                            ln(
                                self.depth as nat,
                                "for("@ + v + " = "@ + from + "; "@ + step + " >= 0 ? "@ + v
                                    + " < "@ + to + " : "@ + v + " > "@ + to + "; "@ + v
                                    + " += "@ + step + ") {"@,
                            ),
                        ),
                    },
                },
            }
        } else {
            None
        }
    }

    /// `FOR v FROM a TO b STEP s DO … REPEAT`: ascending or descending by
    /// the sign of the step.
    pub fn compile_for_stmt(&mut self, n: &Node) -> (r: Result<String, LDPLError>)
        ensures
            stmt_frame(*old(self), *final(self)),
            r is Ok ==> old(self).spec_for_head(*n) is Some && starts_with(
                r.unwrap()@,
                old(self).spec_for_head(*n).unwrap(),
            ) && ends_with(r.unwrap()@, ln(old(self).depth as nat, "}"@)),
            n.children@.len() == 4 && old(self).spec_for_head(*n) is Some && old(self).depth
                < usize::MAX && old(self).in_loop < usize::MAX ==> r is Ok,
        decreases *n, 1int,
    {
        let ghost orig = *self;
        proof {
            lemma_stmt_frame_refl(orig);
        }
        if n.children.len() < 4 {
            let mut msg = String::new();
            msg.append("malformed FOR statement");
            return Err(LDPLError::new(msg, n.line, n.col, 1));
        }
        let var = mangle_var(n.children[0].text.as_str());
        let from = match self.compile_expr(&n.children[1]) {
            Ok(s) => s,
            Err(e) => {
                return Err(e);
            },
        };
        let to = match self.compile_expr(&n.children[2]) {
            Ok(s) => s,
            Err(e) => {
                return Err(e);
            },
        };
        let step = match self.compile_expr(&n.children[3]) {
            Ok(s) => s,
            Err(e) => {
                return Err(e);
            },
        };
        if self.in_loop == usize::MAX || self.depth == usize::MAX {
            let mut msg = String::new();
            msg.append("block nesting too deep");
            return Err(LDPLError::new(msg, n.line, n.col, 1));
        }
        let mut head = String::new();
        head.append("for(");
        head.append(var.as_str());
        head.append(" = ");
        head.append(from.as_str());
        head.append("; ");
        head.append(step.as_str());
        head.append(" >= 0 ? ");
        head.append(var.as_str());
        head.append(" < ");
        head.append(to.as_str());
        head.append(" : ");
        head.append(var.as_str());
        head.append(" > ");
        head.append(to.as_str());
        head.append("; ");
        head.append(var.as_str());
        head.append(" += ");
        head.append(step.as_str());
        head.append(") {");
        let mut out = self.line1(head);
        let ghost headline = out@;
        proof {
            assert(headline =~= orig.spec_for_head(*n).unwrap());
        }
        self.in_loop = self.in_loop + 1;
        self.depth = self.depth + 1;
        let body = match self.compile_body(n, 4, false) {
            Ok(b) => b,
            Err(e) => {
                self.depth = self.depth - 1;
                self.in_loop = self.in_loop - 1;
                return Err(e);
            },
        };
        self.depth = self.depth - 1;
        self.in_loop = self.in_loop - 1;
        out.append(body.as_str());
        let mut closing = String::new();
        closing.append("}");
        let close = self.line1(closing);
        out.append(close.as_str());
        proof {
            assert(out@.subrange(0, headline.len() as int) =~= headline);
            assert(out@.subrange(
                out@.len() - close@.len(),
                out@.len() as int,
            ) =~= close@);
        }
        Ok(out)
    }

    /// The two opening lines of a lowered `FOR EACH`: the range loop over
    /// the inner collection, and the assignment of the range variable to
    /// the loop variable — through `.second` when the collection is a map,
    /// so that iteration yields values, never key-value pairs.
    pub open spec fn spec_for_each_head(&self, n: Node) -> Option<Seq<char>> {
        if n.children@.len() >= 2 {
            match self.spec_expr(n.children@[1]) {
                None => None,
                Some(coll) => match self.spec_type_of_expr(n.children@[1]) {
                    None => None,
                    Some(t) => {
                        let rv = "RVAR_"@ + dec_str(self.tmp_id as nat);
                        let second: Seq<char> = if t is Vector {
                            ".second"@
                        } else {
                            Seq::<char>::empty()
                        };
                        Some(
                            ln(
                                self.depth as nat,
                                "for (auto& "@ + rv + " : "@ + coll
                                    + ".inner_collection) {"@,
                            ) + ln(
                                (self.depth + 1) as nat,
                                spec_mangle_var(n.children@[0].text@) + " = "@ + rv + second
                                    + ";"@,
                            ),
                        )
                    },
                },
            }
        } else {
            None
        }
    }

    /// FOR EACH _ IN _ DO … REPEAT
    pub fn compile_for_each_stmt(&mut self, n: &Node) -> (r: Result<String, LDPLError>)
        ensures
            stmt_frame(*old(self), *final(self)),
            r is Ok ==> old(self).spec_for_each_head(*n) is Some && starts_with(
                r.unwrap()@,
                old(self).spec_for_each_head(*n).unwrap(),
            ) && ends_with(r.unwrap()@, ln(old(self).depth as nat, "}"@)),
            r is Ok ==> final(self).tmp_id > old(self).tmp_id,
            n.children@.len() == 2 && old(self).spec_for_each_head(*n) is Some && old(
                self,
            ).depth < usize::MAX && old(self).in_loop < usize::MAX && old(self).tmp_id
                < usize::MAX ==> r is Ok,
        decreases *n, 1int,
    {
        let ghost orig = *self;
        proof {
            lemma_stmt_frame_refl(orig);
        }
        if n.children.len() < 2 {
            let mut msg = String::new();
            msg.append("malformed FOR EACH statement");
            return Err(LDPLError::new(msg, n.line, n.col, 1));
        }
        let ident = mangle_var(n.children[0].text.as_str());
        let coll = match self.compile_expr(&n.children[1]) {
            Ok(s) => s,
            Err(e) => {
                return Err(e);
            },
        };
        let t = match self.type_of_expr(&n.children[1]) {
            Ok(t) => t,
            Err(e) => {
                return Err(e);
            },
        };
        if self.in_loop == usize::MAX || self.depth == usize::MAX || self.tmp_id == usize::MAX {
            let mut msg = String::new();
            msg.append("block nesting too deep");
            return Err(LDPLError::new(msg, n.line, n.col, 1));
        }
        let mut rv = String::new();
        rv.append("RVAR_");
        let num = usize_string(self.tmp_id);
        rv.append(num.as_str());
        let mut head = String::new();
        head.append("for (auto& ");
        head.append(rv.as_str());
        head.append(" : ");
        head.append(coll.as_str());
        head.append(".inner_collection) {");
        let mut out = self.line1(head);
        let mut assign = String::new();
        assign.append(ident.as_str());
        assign.append(" = ");
        assign.append(rv.as_str());
        if t.is_map() {
            assign.append(".second");
        }
        assign.append(";");
        self.tmp_id = self.tmp_id + 1;
        self.in_loop = self.in_loop + 1;
        self.depth = self.depth + 1;
        let aline = self.line1(assign);
        out.append(aline.as_str());
        let ghost headpart = out@;
        let body = match self.compile_body(n, 2, false) {
            Ok(b) => b,
            Err(e) => {
                self.depth = self.depth - 1;
                self.in_loop = self.in_loop - 1;
                return Err(e);
            },
        };
        self.depth = self.depth - 1;
        self.in_loop = self.in_loop - 1;
        out.append(body.as_str());
        let mut closing = String::new();
        closing.append("}");
        let close = self.line1(closing);
        out.append(close.as_str());
        proof {
            assert(headpart =~= orig.spec_for_each_head(*n).unwrap());
            assert(out@.subrange(0, headpart.len() as int) =~= headpart);
            assert(out@.subrange(
                out@.len() - close@.len(),
                out@.len() as int,
            ) =~= close@);
        }
        Ok(out)
    }

    /// `CALL f [WITH a…]`: literal arguments are hoisted into typed
    /// temporaries; a not-yet-defined plain callee is recorded in
    /// `expected_defs`, and a forward declaration is emitted at first
    /// sight.
    pub fn compile_call_stmt(&mut self, n: &Node) -> (r: Result<String, LDPLError>)
        ensures
            stmt_frame(*old(self), *final(self)),
            r is Ok ==> n.children@.len() >= 1 && n.children@[0].children@.len() >= 1 && ({
                let inner = n.children@[0];
                let ident = inner.children@[0];
                let ext = inner.rule == Rule::CallExternalStmt;
                let mangled: Seq<char> = if ext {
                    spec_mangle_ext(ident.text@)
                } else {
                    spec_mangle_sub(ident.text@)
                };
                let sp = old(self).spec_arg_list(
                    inner.children@,
                    1,
                    old(self).tmp_id as nat,
                );
                &&& sp is Some
                &&& r.unwrap()@ == sp.unwrap().0 + ln(
                    old(self).depth as nat,
                    mangled + "("@ + sp.unwrap().1 + ");"@,
                )
                &&& (ext || defs_get(old(self).defs@, upper(ident.text@)) is Some
                    ==> final(self).expected_defs@ == old(self).expected_defs@)
                &&& (!ext && defs_get(old(self).defs@, upper(ident.text@)) is None
                    ==> final(self).expected_defs@.len() == old(self).expected_defs@.len() + 1
                        && final(self).expected_defs@.last()@ == upper(ident.text@))
                &&& ({
                    let fwd = "void "@ + mangled + "();
"@;
                    &&& (names_has(old(self).forwards@, fwd) ==> final(self).forwards@ == old(
                        self,
                    ).forwards@)
                    &&& (!names_has(old(self).forwards@, fwd) ==> final(self).forwards@.len()
                        == old(self).forwards@.len() + 1 && final(self).forwards@.last()@
                        == fwd)
                })
            }),
            n.children@.len() >= 1 && n.children@[0].children@.len() >= 1 && old(
                self,
            ).spec_arg_list(n.children@[0].children@, 1, old(self).tmp_id as nat) is Some
                && old(self).tmp_id + n.children@[0].children@.len() - 1 <= usize::MAX ==> r
                is Ok,
        decreases *n, 1int,
    {
        let ghost orig = *self;
        proof {
            lemma_stmt_frame_refl(orig);
        }
        let inner = match n.child(0) {
            Ok(c) => c,
            Err(err) => {
                return Err(err);
            },
        };
        let ident = match inner.child(0) {
            Ok(c) => c,
            Err(err) => {
                return Err(err);
            },
        };
        let ext = matches!(inner.rule, Rule::CallExternalStmt);
        let (prefix, params) = match self.compile_arg_list(&inner.children, 1) {
            Ok(p) => p,
            Err(e) => {
                return Err(e);
            },
        };
        let up = to_upper(ident.text.as_str());
        if !ext {
            if matches!(defs_lookup(&self.defs, up.as_str()), Option::None) {
                proof {
                    assert(defs_get(orig.defs@, up@) is None);
                }
                self.expected_defs.push(up);
            }
        }
        let mangled = if ext {
            mangle_extern(ident.text.as_str())
        } else {
            mangle_sub(ident.text.as_str())
        };
        let mut fwd = String::new();
        fwd.append("void ");
        fwd.append(mangled.as_str());
        fwd.append("();\n");
        proof {
            assert(fwd@ =~= "void "@ + (if ext {
                spec_mangle_ext(ident.text@)
            } else {
                spec_mangle_sub(ident.text@)
            }) + "();\n"@);
        }
        if !names_contains(&self.forwards, fwd.as_str()) {
            self.forwards.push(fwd);
        }
        let mut content = mangled;
        content.append("(");
        content.append(params.as_str());
        content.append(");");
        let callline = self.line1(content);
        let mut out = prefix;
        out.append(callline.as_str());
        proof {
            assert(orig.expected_defs@.is_prefix_of(self.expected_defs@)) by {
                if self.expected_defs@.len() > orig.expected_defs@.len() {
                    assert(orig.expected_defs@ =~= self.expected_defs@.subrange(
                        0,
                        orig.expected_defs@.len() as int,
                    ));
                }
            }
            assert(orig.forwards@.is_prefix_of(self.forwards@)) by {
                if self.forwards@.len() > orig.forwards@.len() {
                    assert(orig.forwards@ =~= self.forwards@.subrange(
                        0,
                        orig.forwards@.len() as int,
                    ));
                }
            }
            assert(out@ =~= orig.spec_arg_list(
                inner.children@,
                1,
                orig.tmp_id as nat,
            ).unwrap().0 + ln(
                orig.depth as nat,
                (if ext {
                    spec_mangle_ext(ident.text@)
                } else {
                    spec_mangle_sub(ident.text@)
                }) + "("@ + orig.spec_arg_list(
                    inner.children@,
                    1,
                    orig.tmp_id as nat,
                ).unwrap().1 + ");"@,
            ));
        }
        Ok(out)
    }

    /// Lower one statement of a procedure body.
    pub fn compile_subproc_stmt(&mut self, n: &Node) -> (r: Result<String, LDPLError>)
        ensures
            stmt_frame(*old(self), *final(self)),
            n.rule == Rule::ExitStmt ==> r is Ok,
            n.rule == Rule::ReturnStmt ==> (r is Ok <==> old(self).in_sub),
            n.rule == Rule::LoopKwStmt ==> (r is Ok <==> old(self).in_loop > 0),
            n.rule == Rule::StoreStmt ==> (r is Ok <==> old(self).spec_store(*n) is Some)
                && (r is Ok ==> Some(r.unwrap()@) == old(self).spec_store(*n)),
            n.rule == Rule::PushStmt ==> (r is Ok <==> old(self).spec_push(*n) is Some) && (
            r is Ok ==> Some(r.unwrap()@) == old(self).spec_push(*n)),
            n.rule == Rule::DisplayStmt ==> (r is Ok <==> old(self).spec_display(*n) is Some)
                && (r is Ok ==> Some(r.unwrap()@) == old(self).spec_display(*n)),
        decreases *n, 2int,
    {
        proof {
            lemma_stmt_frame_refl(*self);
        }
        match n.rule {
            Rule::CallStmt => self.compile_call_stmt(n),
            Rule::IfStmt => self.compile_if_stmt(n),
            Rule::ElseStmt => {
                let mut msg = String::new();
                msg.append("unexpected ELSE statement");
                Err(LDPLError::new(msg, n.line, n.col, 1))
            },
            Rule::WhileStmt => self.compile_while_stmt(n),
            Rule::ForEachStmt => self.compile_for_each_stmt(n),
            Rule::ForStmt => self.compile_for_stmt(n),
            Rule::LoopKwStmt => self.compile_loop_kw_stmt(n),
            Rule::ReturnStmt => self.compile_return_stmt(n),
            Rule::GotoStmt => self.compile_goto_stmt(n),
            Rule::LabelStmt => self.compile_label_stmt(n),
            Rule::ExitStmt => Ok(self.compile_exit_stmt(n)),
            Rule::WaitStmt => self.compile_wait_stmt(n),
            Rule::StoreQuoteStmt => self.compile_store_quote_stmt(n),
            Rule::StoreStmt => self.compile_store_stmt(n),
            Rule::SolveStmt => self.compile_solve_stmt(n),
            Rule::FloorStmt => self.compile_floor_stmt(n),
            Rule::ModuloStmt => self.compile_modulo_stmt(n),
            Rule::JoinStmt => self.compile_join_stmt(n),
            Rule::OldJoinStmt => self.compile_old_join_stmt(n),
            Rule::ReplaceStmt => self.compile_replace_stmt(n),
            Rule::SplitStmt => self.compile_split_stmt(n),
            Rule::GetCharStmt => self.compile_get_char_stmt(n),
            Rule::GetAsciiStmt => self.compile_get_ascii_stmt(n),
            Rule::GetCharCodeStmt => self.compile_get_char_code_stmt(n),
            Rule::GetIndexStmt => self.compile_get_index_stmt(n),
            Rule::CountStmt => self.compile_count_stmt(n),
            Rule::SubstrStmt => self.compile_substring_stmt(n),
            Rule::TrimStmt => self.compile_trim_stmt(n),
            Rule::PushStmt => self.compile_push_stmt(n),
            Rule::DeleteStmt => self.compile_delete_stmt(n),
            Rule::GetKeysCountStmt => self.compile_get_keys_count_stmt(n),
            Rule::GetKeysStmt => self.compile_get_keys_stmt(n),
            Rule::ClearStmt => self.compile_clear_stmt(n),
            Rule::CopyStmt => self.compile_copy_stmt(n),
            Rule::GetLengthStmt => self.compile_get_length_stmt(n),
            Rule::DisplayStmt => self.compile_display_stmt(n),
            Rule::LoadStmt => self.compile_load_stmt(n),
            Rule::WriteStmt => self.compile_write_stmt(n),
            Rule::AppendStmt => self.compile_append_stmt(n),
            Rule::AcceptStmt => self.compile_accept_stmt(n),
            Rule::ExecuteStmt => self.compile_execute_stmt(n),
            Rule::UserStmt => self.compile_user_stmt(n),
            _ => {
                let mut msg = String::new();
                msg.append("unexpected statement");
                Err(LDPLError::new(msg, n.line, n.col, 1))
            },
        }
    }
}


/// Remove the outer quotes from a text literal.
pub fn unquote(text: &str) -> (r: String)
    requires
        text@.len() >= 2,
    ensures
        r@ == text@.subrange(1, text@.len() - 1),
{
    let cs = crate::text::str_chars(text);
    let mut out: Vec<char> = Vec::new();
    let mut i: usize = 1;
    let stop = cs.len() - 1;
    while i < stop
        invariant
            1 <= i <= stop,
            stop == cs@.len() - 1,
            cs@ == text@,
            out@ == text@.subrange(1, i as int),
        decreases stop - i,
    {
        out.push(cs[i]);
        i = i + 1;
        proof {
            assert(out@ =~= text@.subrange(1, i as int));
        }
    }
    crate::text::chars_string(&out)
}

/// Split a string at single blanks.
fn split_spaces(s: &str) -> (r: Vec<String>) {
    let cs = crate::text::str_chars(s);
    let n = cs.len();
    let mut parts: Vec<String> = Vec::new();
    let mut piece: Vec<char> = Vec::new();
    let mut i: usize = 0;
    while i < n
        invariant
            i <= n,
            n == cs@.len(),
        decreases n - i,
    {
        let c = cs[i];
        if c == ' ' {
            parts.push(crate::text::chars_string(&piece));
            piece = Vec::new();
        } else {
            piece.push(c);
        }
        i = i + 1;
    }
    parts.push(crate::text::chars_string(&piece));
    parts
}

impl Compiler {
    /// The scalar at the bottom of a type: `Map(List(Text))` yields `Text`.
    pub fn scalar_type_of_collection(&self, t: LDPLType) -> (r: Result<LDPLType, LDPLError>)
        ensures
            r is Ok,
            r is Ok ==> Some(r.unwrap()) == Some(crate::types::spec_scalar_of(t)),
    {
        Ok(t.scalar())
    }

    /// The scalar type of an expression, for typing user-statement
    /// arguments.
    pub fn scalar_type_of_expr(&self, n: &Node) -> (r: Result<LDPLType, LDPLError>)
        ensures
            r is Ok <==> self.spec_type_of_expr(*n) is Some,
            r is Ok ==> Some(r.unwrap()) == Some(
                crate::types::spec_scalar_of(self.spec_type_of_expr(*n).unwrap()),
            ),
    {
        let t = match self.type_of_expr(n) {
            Ok(t) => t,
            Err(e) => {
                return Err(e);
            },
        };
        Ok(t.scalar())
    }

    /// Translate a user-defined statement into a sub-procedure call.
    /// Resolution is deterministic: registered skeletons are tried in
    /// registration order; a call that fits two of them (with matching
    /// argument types) is ambiguous and refused, as is one that fits none.
    pub fn compile_user_stmt(&mut self, n: &Node) -> (r: Result<String, LDPLError>)
        ensures
            stmt_frame(*old(self), *final(self)),
            old(self).user_stmts@.len() == 0 ==> r is Err,
            r is Ok ==> user_stmt_resolved(*old(self), r.unwrap()@),
        decreases *n, 0int,
    {
        let ghost orig = *self;
        proof {
            lemma_stmt_frame_refl(orig);
        }
        // the uppercased words of the statement
        let m = n.children.len();
        let mut call_parts: Vec<String> = Vec::new();
        let mut i: usize = 0;
        while i < m
            invariant
                i <= m,
                m == n.children@.len(),
                call_parts@.len() == i,
                *self == orig,
            decreases m - i,
        {
            call_parts.push(to_upper(n.children[i].text.as_str()));
            i = i + 1;
        }
        // find every registered skeleton and overload the call fits
        let ghost mut wp: int = 0;
        let ghost mut wq: int = 0;
        let mut matched_sub: Option<String> = None;
        let mut matched_args: Vec<usize> = Vec::new();
        let mut matches_found: usize = 0;
        let mut keyword_matched = false;
        let regs = self.user_stmts.len();
        let mut p: usize = 0;
        while p < regs
            invariant
                p <= regs,
                regs == self.user_stmts@.len(),
                m == n.children@.len(),
                call_parts@.len() == n.children@.len(),
                orig == *old(self),
                *self == orig,
                matches_found > 0 ==> matched_sub is Some,
                matches_found > 0 ==> regs > 0,
                matches_found > 0 ==> 0 <= wp < orig.user_stmts@.len() && 0 <= wq
                    < orig.user_stmts@[wp].1@.len() && defs_get(
                    orig.defs@,
                    orig.user_stmts@[wp].1@[wq]@,
                ) is Some && matched_sub.unwrap()@ == upper(orig.user_stmts@[wp].1@[wq]@),
                forall|j: int|
                    0 <= j < matched_args@.len() ==> #[trigger] matched_args@[j]
                        < n.children@.len(),
            decreases regs - p,
        {
            let pattern_parts = split_spaces(self.user_stmts[p].0.as_str());
            if pattern_parts.len() == call_parts.len() {
                let mut arg_idx: Vec<usize> = Vec::new();
                let mut fits = true;
                let mut k: usize = 0;
                let plen = pattern_parts.len();
                while k < plen
                    invariant
                        k <= plen,
                        plen == pattern_parts@.len(),
                        plen == call_parts@.len(),
                        call_parts@.len() == n.children@.len(),
                        m == n.children@.len(),
                        *self == orig,
                        forall|j: int|
                            0 <= j < arg_idx@.len() ==> #[trigger] arg_idx@[j] < m,
                    decreases plen - k,
                {
                    if streq(pattern_parts[k].as_str(), "$") {
                        arg_idx.push(k);
                    } else if !streq(pattern_parts[k].as_str(), call_parts[k].as_str()) {
                        fits = false;
                        break;
                    }
                    k = k + 1;
                }
                if fits {
                    keyword_matched = true;
                    // the scalar types of the argument positions
                    let mut arg_types: Vec<LDPLType> = Vec::new();
                    let mut ok_types = true;
                    let mut k2: usize = 0;
                    while k2 < arg_idx.len()
                        invariant
                            k2 <= arg_idx@.len(),
                            m == n.children@.len(),
                            *self == orig,
                            forall|j: int|
                                0 <= j < arg_idx@.len() ==> #[trigger] arg_idx@[j] < m,
                        decreases arg_idx@.len() - k2,
                    {
                        match self.scalar_type_of_expr(&n.children[arg_idx[k2]]) {
                            Ok(t) => {
                                arg_types.push(t);
                            },
                            Err(_) => {
                                ok_types = false;
                                break;
                            },
                        }
                        k2 = k2 + 1;
                    }
                    if ok_types {
                        // an overload with exactly these parameter types?
                        let subs = &self.user_stmts[p].1;
                        let mut q: usize = 0;
                        while q < subs.len()
                            invariant
                                q <= subs@.len(),
                                m == n.children@.len(),
                                *self == orig,
                                subs == &self.user_stmts@[p as int].1,
                                p < self.user_stmts@.len(),
                                matches_found > 0 ==> matched_sub is Some,
                                matches_found > 0 ==> regs > 0,
                                matches_found > 0 ==> 0 <= wp < orig.user_stmts@.len() && 0
                                    <= wq < orig.user_stmts@[wp].1@.len() && defs_get(
                                    orig.defs@,
                                    orig.user_stmts@[wp].1@[wq]@,
                                ) is Some && matched_sub.unwrap()@ == upper(
                                    orig.user_stmts@[wp].1@[wq]@,
                                ),
                                regs == self.user_stmts@.len(),
                                forall|j: int|
                                    0 <= j < arg_idx@.len() ==> #[trigger] arg_idx@[j] < m,
                                forall|j: int|
                                    0 <= j < matched_args@.len()
                                        ==> #[trigger] matched_args@[j] < m,
                            decreases subs@.len() - q,
                        {
                            match defs_lookup(&self.defs, subs[q].as_str()) {
                                Some(params) => {
                                    let mut same_types = params.len() == arg_types.len();
                                    let mut w: usize = 0;
                                    while w < arg_types.len() && same_types
                                        invariant
                                            w <= arg_types@.len(),
                                            same_types ==> arg_types@.len() == params@.len(),
                                        decreases arg_types@.len() - w,
                                    {
                                        if !params[w].same(&arg_types[w]) {
                                            same_types = false;
                                        }
                                        w = w + 1;
                                    }
                                    if same_types {
                                        matched_sub = Some(
                                            crate::text::to_upper(subs[q].as_str()),
                                        );
                                        matched_args = arg_idx;
                                        arg_idx = Vec::new();
                                        if matches_found < usize::MAX {
                                            matches_found = matches_found + 1;
                                        }
                                        proof {
                                            wp = p as int;
                                            wq = q as int;
                                        }
                                        break;
                                    }
                                },
                                None => {},
                            }
                            q = q + 1;
                        }
                    }
                }
            }
            p = p + 1;
        }
        if matches_found == 0 {
            let mut msg = String::new();
            if keyword_matched {
                msg.append("Statement arguments didn't match any sub-procedures");
            } else {
                msg.append("Unknown statement");
            }
            return Err(LDPLError::new(msg, n.line, n.col, 1));
        }
        if matches_found > 1 {
            let mut msg = String::new();
            msg.append("Ambiguous statement: more than one CREATE STATEMENT pattern fits");
            return Err(LDPLError::new(msg, n.line, n.col, 1));
        }
        let sub_name = match matched_sub {
            Some(s) => s,
            None => {
                let mut msg = String::new();
                msg.append("Unknown statement");
                return Err(LDPLError::new(msg, n.line, n.col, 1));
            },
        };
        // hoist literal arguments into typed temporaries, as CALL does
        let mut tmp: usize = self.tmp_id;
        let mut prefix = String::new();
        let mut args = String::new();
        let mut ai: usize = 0;
        while ai < matched_args.len()
            invariant
                ai <= matched_args@.len(),
                m == n.children@.len(),
                forall|j: int|
                    0 <= j < matched_args@.len() ==> #[trigger] matched_args@[j] < m,
                orig == *old(self),
                *self == orig,
                tmp >= orig.tmp_id,
                0 <= wp < orig.user_stmts@.len(),
                0 <= wq < orig.user_stmts@[wp].1@.len(),
                defs_get(orig.defs@, orig.user_stmts@[wp].1@[wq]@) is Some,
                sub_name@ == upper(orig.user_stmts@[wp].1@[wq]@),
            decreases matched_args@.len() - ai,
        {
            let a = &n.children[matched_args[ai]];
            if matches!(a.rule, Rule::Number | Rule::Text | Rule::Linefeed) {
                let e = match self.compile_expr(a) {
                    Ok(s) => s,
                    Err(err) => {
                        return Err(err);
                    },
                };
                if tmp == usize::MAX {
                    let mut msg = String::new();
                    msg.append("too many temporaries");
                    return Err(LDPLError::new(msg, a.line, a.col, 1));
                }
                let mut var = String::new();
                var.append("LPVAR_");
                let num = usize_string(tmp);
                var.append(num.as_str());
                tmp = tmp + 1;
                let mut content = String::new();
                if matches!(a.rule, Rule::Number) {
                    content.append("ldpl_number ");
                } else {
                    content.append("chText ");
                }
                content.append(var.as_str());
                content.append(" = ");
                content.append(e.as_str());
                content.append(";");
                let lnout = self.line1(content);
                prefix.append(lnout.as_str());
                if args.unicode_len() > 0 {
                    args.append(", ");
                }
                args.append(var.as_str());
            } else if matches!(a.rule, Rule::Var) {
                let e = match self.compile_expr(a) {
                    Ok(s) => s,
                    Err(err) => {
                        return Err(err);
                    },
                };
                if args.unicode_len() > 0 {
                    args.append(", ");
                }
                args.append(e.as_str());
            } else {
                let mut msg = String::new();
                msg.append("unexpected statement argument");
                return Err(LDPLError::new(msg, a.line, a.col, 1));
            }
            ai = ai + 1;
        }
        self.tmp_id = tmp;
        let mangled = mangle_sub(sub_name.as_str());
        let mut content = mangled;
        content.append("(");
        content.append(args.as_str());
        content.append(");");
        let callline = self.line1(content);
        let mut out = prefix;
        out.append(callline.as_str());
        proof {
            let subref = orig.user_stmts@[wp].1@[wq]@;
            crate::mangle::lemma_mangle_case_insensitive(subref);
            assert(callline@ =~= ln(
                orig.depth as nat,
                spec_mangle_sub(subref) + "("@ + args@ + ");"@,
            ));
            assert(out@.subrange(
                out@.len() - callline@.len(),
                out@.len() as int,
            ) =~= callline@);
            assert(ends_with(out@, callline@));
            assert(user_stmt_resolves(*old(self), out@, wp, wq, args@));
            assert(user_stmt_resolved(*old(self), out@));
        }
        Ok(out)
    }

    /// Register a `CREATE STATEMENT "<skeleton>" EXECUTING <sub>`; the sub
    /// must already be defined. The skeleton, uppercased, keys the entry:
    /// the sub is appended to the first entry with that skeleton, or a new
    /// entry is appended — registration order is kept.
    pub fn add_user_stmt(&mut self, n: &Node) -> (r: Result<(), LDPLError>)
        ensures
            final(self).globals@ == old(self).globals@,
            final(self).locals@ == old(self).locals@,
            final(self).defs@ == old(self).defs@,
            final(self).expected_defs@ == old(self).expected_defs@,
            *final(self) == (Compiler { user_stmts: final(self).user_stmts, ..*old(self) }),
            r is Ok <==> n.children@.len() >= 2 && n.children@[0].text@.len() >= 2 && defs_get(
                old(self).defs@,
                upper(n.children@[1].text@),
            ) is Some,
            r is Err ==> *final(self) == *old(self),
            r is Ok ==> ({
                let t = n.children@[0].text@;
                let skel = upper(t.subrange(1, t.len() - 1));
                let upn = upper(n.children@[1].text@);
                let p = skel_index(old(self).user_stmts@, skel);
                if p < old(self).user_stmts@.len() {
                    &&& final(self).user_stmts@.len() == old(self).user_stmts@.len()
                    &&& (forall|q: int|
                        0 <= q < old(self).user_stmts@.len() && q != p
                            ==> #[trigger] final(self).user_stmts@[q] == old(
                            self,
                        ).user_stmts@[q])
                    &&& final(self).user_stmts@[p].0 == old(self).user_stmts@[p].0
                    &&& final(self).user_stmts@[p].1@.len() == old(
                        self,
                    ).user_stmts@[p].1@.len() + 1
                    &&& old(self).user_stmts@[p].1@.is_prefix_of(
                        final(self).user_stmts@[p].1@,
                    )
                    &&& final(self).user_stmts@[p].1@.last()@ == upn
                } else {
                    &&& final(self).user_stmts@.len() == old(self).user_stmts@.len() + 1
                    &&& old(self).user_stmts@.is_prefix_of(final(self).user_stmts@)
                    &&& final(self).user_stmts@.last().0@ == skel
                    &&& final(self).user_stmts@.last().1@.len() == 1
                    &&& final(self).user_stmts@.last().1@[0]@ == upn
                }
            }),
    {
        let pat = match n.child(0) {
            Ok(c) => c,
            Err(err) => {
                return Err(err);
            },
        };
        let ident = match n.child(1) {
            Ok(c) => c,
            Err(err) => {
                return Err(err);
            },
        };
        if pat.text.unicode_len() < 2 {
            let mut msg = String::new();
            msg.append("CREATE STATEMENT expects a quoted pattern");
            return Err(LDPLError::new(msg, n.line, n.col, 1));
        }
        let bare = unquote(pat.text.as_str());
        let skeleton = to_upper(bare.as_str());
        let up = to_upper(ident.text.as_str());
        let ghost skel = skeleton@;
        let ghost upn = up@;
        if matches!(defs_lookup(&self.defs, up.as_str()), Option::None) {
            let mut msg = String::new();
            msg.append("CREATE STATEMENT used with unknown sub-procedure: ");
            msg.append(ident.text.as_str());
            return Err(LDPLError::new(msg, n.line, n.col, 1));
        }
        let ghost orig = *self;
        let regs = self.user_stmts.len();
        let mut p: usize = 0;
        while p < regs
            invariant
                p <= regs,
                regs == self.user_stmts@.len(),
                orig == *old(self),
                *self == orig,
                skel == skeleton@,
                upn == up@,
                skel == upper(n.children@[0].text@.subrange(
                    1,
                    n.children@[0].text@.len() - 1,
                )),
                upn == upper(n.children@[1].text@),
                n.children@.len() >= 2,
                n.children@[0].text@.len() >= 2,
                defs_get(old(self).defs@, upper(n.children@[1].text@)) is Some,
                forall|q: int| 0 <= q < p ==> (#[trigger] self.user_stmts@[q]).0@ != skel,
            decreases regs - p,
        {
            let hit = streq(self.user_stmts[p].0.as_str(), skeleton.as_str());
            proof {
                assert(hit == (self.user_stmts@[p as int].0@ == skel));
            }
            if hit {
                proof {
                    assert(orig.user_stmts@[p as int].0@ == skel);
                    lemma_skel_index_exact(orig.user_stmts@, skel, p as int);
                }
                self.user_stmts[p].1.push(up);
                proof {
                    assert(orig.user_stmts@[p as int].1@.is_prefix_of(
                        self.user_stmts@[p as int].1@,
                    )) by {
                        assert(orig.user_stmts@[p as int].1@ =~= self.user_stmts@[p as int]
                            .1@.subrange(0, orig.user_stmts@[p as int].1@.len() as int));
                    }
                }
                return Ok(());
            }
            p = p + 1;
        }
        proof {
            lemma_skel_index_exact(orig.user_stmts@, skel, regs as int);
        }
        let mut subs: Vec<String> = Vec::new();
        subs.push(up);
        self.user_stmts.push((skeleton, subs));
        proof {
            assert(orig.user_stmts@.is_prefix_of(self.user_stmts@)) by {
                assert(orig.user_stmts@ =~= self.user_stmts@.subrange(
                    0,
                    orig.user_stmts@.len() as int,
                ));
            }
        }
        Ok(())
    }
}


impl Compiler {
    /// The `join(joinvar, …, joinvar);` lines for operands `1..i` of an
    /// `IN v JOIN e…` statement, each coerced to text.
    pub open spec fn spec_join_lines(&self, kids: Seq<Node>, i: int) -> Option<Seq<char>>
        decreases i,
    {
        if i <= 1 {
            Some(Seq::<char>::empty())
        } else if i > kids.len() {
            None
        } else {
            match self.spec_join_lines(kids, i - 1) {
                None => None,
                Some(prev) => match self.spec_expr_for_type(kids[i - 1], LDPLType::Text) {
                    None => None,
                    Some(e) => Some(
                        prev + ln(
                            self.depth as nat,
                            "join(joinvar, "@ + e + ", joinvar);"@,
                        ),
                    ),
                },
            }
        }
    }

    /// Once an operand fails, the whole chain fails.
    proof fn lemma_join_lines_none(&self, kids: Seq<Node>, i: int, j: int)
        requires
            self.spec_join_lines(kids, i) is None,
            i <= j,
        ensures
            self.spec_join_lines(kids, j) is None,
        decreases j - i,
    {
        if i < j {
            self.lemma_join_lines_none(kids, i, j - 1);
        }
    }

    /// `IN v JOIN e…`: concatenate the operands into `joinvar`, then assign.
    pub open spec fn spec_join(&self, n: Node) -> Option<Seq<char>> {
        if n.children@.len() >= 2 && n.children@[0].rule == Rule::Var {
            match self.spec_expr(n.children@[0]) {
                None => None,
                Some(v) => match self.spec_join_lines(n.children@, n.children@.len() as int) {
                    None => None,
                    Some(mid) => Some(
                        ln(self.depth as nat, "joinvar = \"\";"@) + mid + ln(
                            self.depth as nat,
                            v + " = joinvar;"@,
                        ),
                    ),
                },
            }
        } else {
            None
        }
    }

    /// IN _ JOIN _ …
    pub fn compile_join_stmt(&self, n: &Node) -> (r: Result<String, LDPLError>)
        ensures
            r is Ok <==> self.spec_join(*n) is Some,
            r is Ok ==> Some(r.unwrap()@) == self.spec_join(*n),
    {
        let m = n.children.len();
        if m < 2 {
            let mut msg = String::new();
            msg.append("malformed JOIN statement");
            return Err(LDPLError::new(msg, n.line, n.col, 1));
        }
        let c0 = match n.child(0) {
            Ok(c) => c,
            Err(err) => {
                return Err(err);
            },
        };
        if !matches!(c0.rule, Rule::Var) {
            let mut msg = String::new();
            msg.append("expected a variable");
            return Err(LDPLError::new(msg, c0.line, c0.col, 1));
        }
        let v = match self.compile_var(c0) {
            Ok(s) => s,
            Err(err) => {
                return Err(err);
            },
        };
        let mut first = String::new();
        first.append("joinvar = \"\";");
        let mut out = self.line1(first);
        let ghost opening = out@;
        let mut i: usize = 1;
        while i < m
            invariant
                1 <= i <= m,
                m == n.children@.len(),
                self.spec_join_lines(n.children@, i as int) is Some,
                out@ == opening + self.spec_join_lines(n.children@, i as int).unwrap(),
            decreases m - i,
        {
            let e = match self.compile_expr_for_type(&n.children[i], &LDPLType::Text) {
                Ok(s) => s,
                Err(err) => {
                    proof {
                        self.lemma_join_lines_none(n.children@, i as int + 1, m as int);
                    }
                    return Err(err);
                },
            };
            let mut content = String::new();
            content.append("join(joinvar, ");
            content.append(e.as_str());
            content.append(", joinvar);");
            let lnout = self.line1(content);
            out.append(lnout.as_str());
            i = i + 1;
            proof {
                assert(out@ =~= opening + self.spec_join_lines(
                    n.children@,
                    i as int,
                ).unwrap());
            }
        }
        let mut last = v;
        last.append(" = joinvar;");
        let lline = self.line1(last);
        out.append(lline.as_str());
        proof {
            assert(out@ =~= self.spec_join(*n).unwrap());
        }
        Ok(out)
    }
}


/// `alist_get` over a concatenation searches the front first.
proof fn lemma_alist_get_append(a: Seq<(String, LDPLType)>, b: Seq<(String, LDPLType)>, key: Seq<char>)
    ensures
        alist_get(a + b, key) == (if alist_get(a, key) is Some {
            alist_get(a, key)
        } else {
            alist_get(b, key)
        }),
    decreases a.len(),
{
    if a.len() == 0 {
        assert(a + b =~= b);
    } else {
        assert((a + b)[0] == a[0]);
        assert((a + b).skip(1) =~= a.skip(1) + b);
        lemma_alist_get_append(a.skip(1), b, key);
    }
}

/// A lookup hits exactly when some entry carries the key.
proof fn lemma_alist_get_key(s: Seq<(String, LDPLType)>, key: Seq<char>)
    ensures
        (alist_get(s, key) is Some) <==> (exists|j: int|
            0 <= j < s.len() && (#[trigger] s[j]).0@ == key),
    decreases s.len(),
{
    if s.len() > 0 {
        lemma_alist_get_key(s.skip(1), key);
        if s[0].0@ == key {
            assert(s[0].0@ == key);
        } else {
            if alist_get(s.skip(1), key) is Some {
                let j = choose|j: int|
                    0 <= j < s.skip(1).len() && (#[trigger] s.skip(1)[j]).0@ == key;
                assert(s[j + 1].0@ == key);
            }
            if exists|j: int| 0 <= j < s.len() && (#[trigger] s[j]).0@ == key {
                let j = choose|j: int| 0 <= j < s.len() && (#[trigger] s[j]).0@ == key;
                assert(s.skip(1)[j - 1].0@ == key);
            }
        }
    }
}

/// `defs_get` over a concatenation searches the front first.
proof fn lemma_defs_get_append(
    a: Seq<(String, Vec<LDPLType>)>,
    b: Seq<(String, Vec<LDPLType>)>,
    key: Seq<char>,
)
    ensures
        defs_get(a + b, key) == (if defs_get(a, key) is Some {
            defs_get(a, key)
        } else {
            defs_get(b, key)
        }),
    decreases a.len(),
{
    if a.len() == 0 {
        assert(a + b =~= b);
    } else {
        assert((a + b)[0] == a[0]);
        assert((a + b).skip(1) =~= a.skip(1) + b);
        lemma_defs_get_append(a.skip(1), b, key);
    }
}

/// The scope a data definition lands in.
pub open spec fn scope_table(c: Compiler, local: bool) -> Seq<(String, LDPLType)> {
    if local {
        c.locals@
    } else {
        c.globals@
    }
}

/// The identifier of a data definition node.
pub open spec fn def_ident(def: Node) -> Seq<char> {
    def.children@[0].text@
}

/// The surface type name of a data definition node.
pub open spec fn def_tyname(def: Node) -> Seq<char> {
    def.children@[1].text@
}

/// A data definition node of the right shape.
pub open spec fn wf_def(def: Node) -> bool {
    (def.rule == Rule::TypeDef || def.rule == Rule::ExternalTypeDef) && def.children@.len() == 2
}

impl Compiler {
    /// The declaration line of one data definition: scalars are
    /// initialized, EXTERNAL names are declared with C linkage naming.
    pub open spec fn spec_data_line(&self, def: Node) -> Option<Seq<char>> {
        if wf_def(def) && type_from_name(def_tyname(def)) is Some {
            let cpp = spec_cpp_type(def_tyname(def));
            if def.rule == Rule::ExternalTypeDef {
                Some(
                    ln(
                        self.depth as nat,
                        "extern "@ + cpp + " "@ + spec_mangle_ext(def_ident(def)) + ";"@,
                    ),
                )
            } else {
                let init: Seq<char> = if lower(def_tyname(def)) == "number"@ {
                    " = 0"@
                } else if lower(def_tyname(def)) == "text"@ {
                    " = \"\""@
                } else {
                    Seq::<char>::empty()
                };
                Some(
                    ln(
                        self.depth as nat,
                        cpp + " "@ + spec_mangle_var(def_ident(def)) + init + ";"@,
                    ),
                )
            }
        } else {
            None
        }
    }

    /// The declaration lines of the first `i` definitions.
    pub open spec fn spec_data_lines(&self, defs: Seq<Node>, i: int) -> Option<Seq<char>>
        decreases i,
    {
        if i <= 0 {
            Some(Seq::<char>::empty())
        } else if i > defs.len() {
            None
        } else {
            match self.spec_data_lines(defs, i - 1) {
                None => None,
                Some(prev) => match self.spec_data_line(defs[i - 1]) {
                    None => None,
                    Some(l) => Some(prev + l),
                },
            }
        }
    }

    /// Once a definition fails, the whole section fails.
    proof fn lemma_data_lines_none(&self, defs: Seq<Node>, i: int, j: int)
        requires
            self.spec_data_lines(defs, i) is None,
            i <= j,
        ensures
            self.spec_data_lines(defs, j) is None,
        decreases j - i,
    {
        if i < j {
            self.lemma_data_lines_none(defs, i, j - 1);
        }
    }

    /// The first `i` definitions of a data section are acceptable: each is
    /// well-formed with a valid type name, collides with nothing already
    /// declared in the target scope (nor, for locals, with a global — a
    /// name never sits in both tables of one sub scope), and repeats no
    /// earlier name of the same section.
    pub open spec fn spec_data_ok(c: Compiler, defs: Seq<Node>, i: int, local: bool) -> bool {
        forall|j: int|
            0 <= j < i ==> {
                &&& wf_def(#[trigger] defs[j])
                &&& type_from_name(def_tyname(defs[j])) is Some
                &&& alist_get(scope_table(c, local), upper(def_ident(defs[j]))) is None
                &&& (local ==> alist_get(c.globals@, upper(def_ident(defs[j]))) is None)
                &&& (forall|k: int|
                    0 <= k < j ==> upper(def_ident(#[trigger] defs[k])) != upper(
                        def_ident(defs[j]),
                    ))
            }
    }

    /// Lower a `DATA:` (or `LOCAL DATA:`) section: emit one declaration per
    /// definition and record each name in the right table, refusing a
    /// duplicate in the same scope and a local that shadows a global.
    pub fn compile_data(&mut self, n: &Node, local: bool) -> (r: Result<String, LDPLError>)
        ensures
            final(self).defs@ == old(self).defs@,
            final(self).user_stmts@ == old(self).user_stmts@,
            final(self).main@ == old(self).main@,
            final(self).subs@ == old(self).subs@,
            final(self).vars@ == old(self).vars@,
            final(self).exts@ == old(self).exts@,
            final(self).flags@ == old(self).flags@,
            final(self).forwards@ == old(self).forwards@,
            final(self).expected_defs@ == old(self).expected_defs@,
            final(self).depth == old(self).depth,
            final(self).in_sub == old(self).in_sub,
            final(self).in_loop == old(self).in_loop,
            final(self).tmp_id == old(self).tmp_id,
            final(self).path == old(self).path,
            local ==> final(self).globals@ == old(self).globals@,
            !local ==> final(self).locals@ == old(self).locals@,
            local ==> old(self).locals@.is_prefix_of(final(self).locals@),
            !local ==> old(self).globals@.is_prefix_of(final(self).globals@),
            old(self).ext_vars@.is_prefix_of(final(self).ext_vars@),
            r is Ok ==> old(self).spec_data_lines(n.children@, n.children@.len() as int)
                is Some && r.unwrap()@ == old(self).spec_data_lines(
                n.children@,
                n.children@.len() as int,
            ).unwrap() + "\n"@,
            r is Ok ==> forall|j: int|
                0 <= j < n.children@.len() ==> wf_def(#[trigger] n.children@[j])
                    && type_from_name(def_tyname(n.children@[j])) is Some,
            r is Ok ==> ({
                let pre = scope_table(*old(self), local);
                let post = scope_table(*final(self), local);
                post.len() == pre.len() + n.children@.len() && forall|j: int|
                    0 <= j < n.children@.len() ==> (#[trigger] post[pre.len() + j]).0@ == upper(
                        def_ident(n.children@[j]),
                    ) && post[pre.len() + j].1 == type_from_name(
                        def_tyname(n.children@[j]),
                    ).unwrap()
            }),
            r is Ok <==> Self::spec_data_ok(
                *old(self),
                n.children@,
                n.children@.len() as int,
                local,
            ),
    {
        let ghost orig = *self;
        let m = n.children.len();
        let mut out = String::new();
        let mut i: usize = 0;
        while i < m
            invariant
                i <= m,
                m == n.children@.len(),
                orig == *old(self),
                self.defs@ == orig.defs@,
                self.user_stmts@ == orig.user_stmts@,
                self.main@ == orig.main@,
                self.subs@ == orig.subs@,
                self.vars@ == orig.vars@,
                self.exts@ == orig.exts@,
                self.flags@ == orig.flags@,
                self.forwards@ == orig.forwards@,
                self.expected_defs@ == orig.expected_defs@,
                self.depth == orig.depth,
                self.in_sub == orig.in_sub,
                self.in_loop == orig.in_loop,
                self.tmp_id == orig.tmp_id,
                self.path == orig.path,
                local ==> self.globals@ == orig.globals@,
                !local ==> self.locals@ == orig.locals@,
                local ==> orig.locals@.is_prefix_of(self.locals@),
                !local ==> orig.globals@.is_prefix_of(self.globals@),
                orig.ext_vars@.is_prefix_of(self.ext_vars@),
                orig.spec_data_lines(n.children@, i as int) is Some,
                out@ == orig.spec_data_lines(n.children@, i as int).unwrap(),
                forall|j: int|
                    0 <= j < i ==> wf_def(#[trigger] n.children@[j]) && type_from_name(
                        def_tyname(n.children@[j]),
                    ) is Some,
                ({
                    let pre = scope_table(orig, local);
                    let cur = scope_table(*self, local);
                    cur.len() == pre.len() + i && forall|j: int|
                        0 <= j < i ==> (#[trigger] cur[pre.len() + j]).0@ == upper(
                            def_ident(n.children@[j]),
                        ) && cur[pre.len() + j].1 == type_from_name(
                            def_tyname(n.children@[j]),
                        ).unwrap()
                }),
                Self::spec_data_ok(orig, n.children@, i as int, local),
            decreases m - i,
        {
            let ghost before = scope_table(*self, local);
            let def = &n.children[i];
            if !(matches!(def.rule, Rule::TypeDef | Rule::ExternalTypeDef) && def.children.len()
                == 2) {
                proof {
                    self.lemma_data_lines_none(n.children@, i as int + 1, m as int);
                    assert(!Self::spec_data_ok(orig, n.children@, m as int, local)) by {
                        assert(!wf_def(n.children@[i as int]));
                    }
                }
                let mut msg = String::new();
                msg.append("malformed data definition");
                return Err(LDPLError::new(msg, def.line, def.col, 1));
            }
            let is_extern = matches!(def.rule, Rule::ExternalTypeDef);
            let ident = &def.children[0];
            let tyname = &def.children[1];
            let ldpltype = match LDPLType::from_name(tyname.text.as_str()) {
                Some(t) => t,
                None => {
                    proof {
                        self.lemma_data_lines_none(n.children@, i as int + 1, m as int);
                        assert(!Self::spec_data_ok(orig, n.children@, m as int, local)) by {
                            assert(type_from_name(def_tyname(n.children@[i as int])) is None);
                        }
                    }
                    let mut msg = String::new();
                    msg.append("unknown type: ");
                    msg.append(tyname.text.as_str());
                    return Err(LDPLError::new(msg, tyname.line, tyname.col, 1));
                },
            };
            let varname = to_upper(ident.text.as_str());
            let ghost key = upper(def_ident(n.children@[i as int]));
            let ghost pre = scope_table(orig, local);
            let ghost cur = scope_table(*self, local);
            let ghost added = cur.skip(pre.len() as int);
            proof {
                assert(varname@ == key);
                assert(cur =~= pre + added);
                lemma_alist_get_append(pre, added, key);
                lemma_alist_get_key(added, key);
                assert forall|k: int| 0 <= k < i implies (#[trigger] added[k]).0@ == upper(
                    def_ident(n.children@[k]),
                ) by {
                    assert(added[k] == cur[pre.len() + k]);
                }
            }
            // duplicate check: the target scope, and for a local also the
            // globals, so a name never sits in both tables of one scope
            let scope_hit = if local {
                matches!(table_get(&self.locals, varname.as_str()), Option::Some(_))
            } else {
                matches!(table_get(&self.globals, varname.as_str()), Option::Some(_))
            };
            let cross_hit = local && matches!(
                table_get(&self.globals, varname.as_str()),
                Option::Some(_),
            );
            if scope_hit || cross_hit {
                proof {
                    assert(!Self::spec_data_ok(orig, n.children@, m as int, local)) by {
                        if cross_hit {
                            assert(alist_get(orig.globals@, key) is Some);
                        } else {
                            assert(alist_get(cur, key) is Some);
                            if alist_get(pre, key) is None {
                                assert(alist_get(added, key) is Some);
                                let k = choose|k: int|
                                    0 <= k < added.len() && (#[trigger] added[k]).0@ == key;
                                assert(upper(def_ident(n.children@[k])) == key);
                            }
                        }
                    }
                }
                let mut msg = String::new();
                msg.append("Duplicate declaration for variable: ");
                msg.append(ident.text.as_str());
                return Err(LDPLError::new(msg, ident.line, ident.col, 1));
            }
            proof {
                // nothing collides: this definition is acceptable
                assert(alist_get(pre, key) is None && alist_get(added, key) is None);
                assert forall|k: int| 0 <= k < i implies upper(
                    def_ident(#[trigger] n.children@[k]),
                ) != key by {
                    assert(added[k].0@ == upper(def_ident(n.children@[k])));
                }
                assert(Self::spec_data_ok(orig, n.children@, i as int + 1, local));
            }
            let lowerty = crate::text::to_lower(tyname.text.as_str());
            let cpp = compile_type(tyname.text.as_str());
            let mut content = String::new();
            if is_extern {
                let mangled = mangle_extern(ident.text.as_str());
                content.append("extern ");
                content.append(cpp);
                content.append(" ");
                content.append(mangled.as_str());
                let up2 = to_upper(ident.text.as_str());
                self.ext_vars.push(up2);
                proof {
                    assert(orig.ext_vars@.is_prefix_of(self.ext_vars@)) by {
                        assert(orig.ext_vars@ =~= self.ext_vars@.subrange(
                            0,
                            orig.ext_vars@.len() as int,
                        ));
                    }
                }
            } else {
                let mangled = mangle_var(ident.text.as_str());
                content.append(cpp);
                content.append(" ");
                content.append(mangled.as_str());
                if streq(lowerty.as_str(), "number") {
                    content.append(" = 0");
                } else if streq(lowerty.as_str(), "text") {
                    content.append(" = \"\"");
                }
            }
            content.append(";");
            let lnout = self.line1(content);
            out.append(lnout.as_str());
            if local {
                self.locals.push((varname, ldpltype));
                proof {
                    assert(orig.locals@.is_prefix_of(self.locals@)) by {
                        assert(orig.locals@ =~= self.locals@.subrange(
                            0,
                            orig.locals@.len() as int,
                        ));
                    }
                }
            } else {
                self.globals.push((varname, ldpltype));
                proof {
                    assert(orig.globals@.is_prefix_of(self.globals@)) by {
                        assert(orig.globals@ =~= self.globals@.subrange(
                            0,
                            orig.globals@.len() as int,
                        ));
                    }
                }
            }
            let ghost pre = scope_table(orig, local);
            let ghost cur = scope_table(*self, local);
            proof {
                assert(cur == before.push(cur.last()));
                assert(cur.last().0@ == upper(def_ident(n.children@[i as int])));
                assert(cur.last().1 == type_from_name(def_tyname(n.children@[i as int])).unwrap());
                assert(cur.len() == pre.len() + i + 1);
            }
            i = i + 1;
            proof {
                assert(out@ =~= orig.spec_data_lines(n.children@, i as int).unwrap());
                assert forall|j: int| 0 <= j < i implies (#[trigger] cur[pre.len() + j]).0@
                    == upper(def_ident(n.children@[j])) && cur[pre.len() + j].1
                    == type_from_name(def_tyname(n.children@[j])).unwrap() by {
                    if j == i - 1 {
                        assert(cur[pre.len() + j] == cur.last());
                    } else {
                        assert(cur[pre.len() + j] == before[pre.len() + j]);
                    }
                }
            }
        }
        out.append("\n");
        Ok(out)
    }

    /// The C++ signature text of the first `i` parameter definitions:
    /// `<type>& <name>` pieces joined with commas.
    pub open spec fn spec_params_sig(defs: Seq<Node>, i: int) -> Option<Seq<char>>
        decreases i,
    {
        if i <= 0 {
            Some(Seq::<char>::empty())
        } else if i > defs.len() {
            None
        } else {
            match Self::spec_params_sig(defs, i - 1) {
                None => None,
                Some(prev) => {
                    let def = defs[i - 1];
                    if def.rule == Rule::TypeDef && def.children@.len() == 2 && type_from_name(
                        def_tyname(def),
                    ) is Some {
                        let piece = spec_cpp_type(def_tyname(def)) + "& "@ + spec_mangle_var(
                            def_ident(def),
                        );
                        if i == 1 {
                            Some(piece)
                        } else {
                            Some(prev + ", "@ + piece)
                        }
                    } else {
                        None
                    }
                },
            }
        }
    }

    /// Once a parameter fails, the whole section fails.
    proof fn lemma_params_sig_none(defs: Seq<Node>, i: int, j: int)
        requires
            Self::spec_params_sig(defs, i) is None,
            i <= j,
        ensures
            Self::spec_params_sig(defs, j) is None,
        decreases j - i,
    {
        if i < j {
            Self::lemma_params_sig_none(defs, i, j - 1);
        }
    }

    /// Convert a `PARAMETERS:` section into the parameter types and the
    /// C++ signature text; parameters become locals.
    pub fn compile_params(&mut self, n: &Node) -> (r: Result<(Vec<LDPLType>, String), LDPLError>)
        ensures
            final(self).globals@ == old(self).globals@,
            final(self).defs@ == old(self).defs@,
            final(self).user_stmts@ == old(self).user_stmts@,
            final(self).ext_vars@ == old(self).ext_vars@,
            final(self).expected_defs@ == old(self).expected_defs@,
            final(self).forwards@ == old(self).forwards@,
            final(self).depth == old(self).depth,
            final(self).in_sub == old(self).in_sub,
            final(self).in_loop == old(self).in_loop,
            final(self).tmp_id == old(self).tmp_id,
            final(self).path == old(self).path,
            final(self).main@ == old(self).main@,
            final(self).subs@ == old(self).subs@,
            final(self).vars@ == old(self).vars@,
            final(self).exts@ == old(self).exts@,
            final(self).flags@ == old(self).flags@,
            old(self).locals@.is_prefix_of(final(self).locals@),
            r is Ok <==> Self::spec_params_sig(n.children@, n.children@.len() as int)
                is Some,
            r is Ok ==> r.unwrap().1@ == Self::spec_params_sig(
                n.children@,
                n.children@.len() as int,
            ).unwrap(),
            r is Ok ==> r.unwrap().0@.len() == n.children@.len() && forall|j: int|
                0 <= j < n.children@.len() ==> #[trigger] r.unwrap().0@[j] == type_from_name(
                    def_tyname(n.children@[j]),
                ).unwrap(),
            r is Ok ==> final(self).locals@.len() == old(self).locals@.len()
                + n.children@.len() && forall|j: int|
                0 <= j < n.children@.len()
                    ==> (#[trigger] final(self).locals@[old(self).locals@.len() + j]).0@
                    == upper(def_ident(n.children@[j]))
                    && final(self).locals@[old(self).locals@.len() + j].1 == type_from_name(
                    def_tyname(n.children@[j]),
                ).unwrap(),
    {
        let ghost orig = *self;
        proof {
            assert(orig.locals@.subrange(0, orig.locals@.len() as int) =~= orig.locals@);
        }
        let m = n.children.len();
        let mut types: Vec<LDPLType> = Vec::new();
        let mut sig = String::new();
        let mut i: usize = 0;
        while i < m
            invariant
                i <= m,
                m == n.children@.len(),
                orig == *old(self),
                self.globals@ == orig.globals@,
                self.defs@ == orig.defs@,
                self.user_stmts@ == orig.user_stmts@,
                self.ext_vars@ == orig.ext_vars@,
                self.expected_defs@ == orig.expected_defs@,
                self.forwards@ == orig.forwards@,
                self.depth == orig.depth,
                self.in_sub == orig.in_sub,
                self.in_loop == orig.in_loop,
                self.tmp_id == orig.tmp_id,
                self.path == orig.path,
                self.main@ == orig.main@,
                self.subs@ == orig.subs@,
                self.vars@ == orig.vars@,
                self.exts@ == orig.exts@,
                self.flags@ == orig.flags@,
                orig.locals@.is_prefix_of(self.locals@),
                types@.len() == i,
                Self::spec_params_sig(n.children@, i as int) is Some,
                sig@ == Self::spec_params_sig(n.children@, i as int).unwrap(),
                forall|j: int|
                    0 <= j < i ==> #[trigger] types@[j] == type_from_name(
                        def_tyname(n.children@[j]),
                    ).unwrap(),
                self.locals@.len() == orig.locals@.len() + i,
                forall|j: int|
                    0 <= j < i ==> (#[trigger] self.locals@[orig.locals@.len() + j]).0@
                        == upper(def_ident(n.children@[j])) && self.locals@[orig.locals@.len()
                        + j].1 == type_from_name(def_tyname(n.children@[j])).unwrap(),
            decreases m - i,
        {
            let ghost locals_before = self.locals@;
            let def = &n.children[i];
            if !(matches!(def.rule, Rule::TypeDef) && def.children.len() == 2) {
                proof {
                    Self::lemma_params_sig_none(n.children@, i as int + 1, m as int);
                }
                let mut msg = String::new();
                msg.append("malformed parameter definition");
                return Err(LDPLError::new(msg, def.line, def.col, 1));
            }
            let ident = &def.children[0];
            let tyname = &def.children[1];
            let t = match LDPLType::from_name(tyname.text.as_str()) {
                Some(t) => t,
                None => {
                    proof {
                        Self::lemma_params_sig_none(n.children@, i as int + 1, m as int);
                    }
                    let mut msg = String::new();
                    msg.append("unknown type: ");
                    msg.append(tyname.text.as_str());
                    return Err(LDPLError::new(msg, tyname.line, tyname.col, 1));
                },
            };
            types.push(t.clone());
            let up = to_upper(ident.text.as_str());
            self.locals.push((up, t));
            if i > 0 {
                sig.append(", ");
            }
            sig.append(compile_type(tyname.text.as_str()));
            sig.append("& ");
            let mangled = mangle_var(ident.text.as_str());
            sig.append(mangled.as_str());
            i = i + 1;
            proof {
                assert(orig.locals@.is_prefix_of(self.locals@)) by {
                    assert(orig.locals@ =~= self.locals@.subrange(
                        0,
                        orig.locals@.len() as int,
                    ));
                }
                assert(sig@ =~= Self::spec_params_sig(n.children@, i as int).unwrap());
                assert forall|j: int|
                    0 <= j < i implies (#[trigger] self.locals@[orig.locals@.len() + j]).0@
                    == upper(def_ident(n.children@[j])) && self.locals@[orig.locals@.len()
                    + j].1 == type_from_name(def_tyname(n.children@[j])).unwrap() by {
                    if j < i - 1 {
                        assert(self.locals@[orig.locals@.len() + j] == locals_before[orig
                            .locals@.len() + j]);
                    } else {
                        assert(self.locals@[orig.locals@.len() + j] == self.locals@.last());
                    }
                }
            }
        }
        Ok((types, sig))
    }
}

/// All the pieces, concatenated.
pub open spec fn cat_upto(s: Seq<String>, i: int) -> Seq<char>
    decreases i,
{
    if i <= 0 || i > s.len() {
        Seq::<char>::empty()
    } else {
        cat_upto(s, i - 1) + s[i - 1]@
    }
}

/// All the pieces, joined with line breaks.
pub open spec fn cat_nl_upto(s: Seq<String>, i: int) -> Seq<char>
    decreases i,
{
    if i <= 0 || i > s.len() {
        Seq::<char>::empty()
    } else if i == 1 {
        s[0]@
    } else {
        cat_nl_upto(s, i - 1) + "\n"@ + s[i - 1]@
    }
}

/// Concatenate a list of pieces.
fn cat_all(s: &Vec<String>) -> (r: String)
    ensures
        r@ == cat_upto(s@, s@.len() as int),
{
    let mut out = String::new();
    let n = s.len();
    let mut i: usize = 0;
    while i < n
        invariant
            i <= n,
            n == s@.len(),
            out@ == cat_upto(s@, i as int),
        decreases n - i,
    {
        out.append(s[i].as_str());
        i = i + 1;
    }
    out
}

/// Join a list of pieces with line breaks.
fn cat_all_nl(s: &Vec<String>) -> (r: String)
    ensures
        r@ == cat_nl_upto(s@, s@.len() as int),
{
    let mut out = String::new();
    let n = s.len();
    let mut i: usize = 0;
    while i < n
        invariant
            i <= n,
            n == s@.len(),
            out@ == cat_nl_upto(s@, i as int),
        decreases n - i,
    {
        if i > 0 {
            out.append("\n");
        }
        out.append(s[i].as_str());
        i = i + 1;
    }
    out
}

impl Default for Compiler {
    /// A fresh compiler: everything empty, nothing declared yet.
    fn default() -> (r: Self)
        ensures
            r.main@.len() == 0,
            r.subs@.len() == 0,
            r.vars@.len() == 0,
            r.exts@.len() == 0,
            r.flags@.len() == 0,
            r.forwards@.len() == 0,
            r.ext_vars@.len() == 0,
            r.globals@.len() == 0,
            r.locals@.len() == 0,
            r.defs@.len() == 0,
            r.expected_defs@.len() == 0,
            r.user_stmts@.len() == 0,
            !r.in_sub,
            r.in_loop == 0,
            r.tmp_id == 0,
            r.depth == 0,
            r.path is None,
    {
        Compiler {
            main: Vec::new(),
            subs: Vec::new(),
            vars: Vec::new(),
            exts: Vec::new(),
            flags: Vec::new(),
            forwards: Vec::new(),
            ext_vars: Vec::new(),
            globals: Vec::new(),
            locals: Vec::new(),
            defs: Vec::new(),
            expected_defs: Vec::new(),
            user_stmts: Vec::new(),
            in_sub: false,
            in_loop: 0,
            tmp_id: 0,
            depth: 0,
            path: None,
        }
    }
}

/// Create a fresh compiler.
pub fn new() -> (r: Compiler)
    ensures
        r.main@.len() == 0,
        r.subs@.len() == 0,
        r.vars@.len() == 0,
        r.exts@.len() == 0,
        r.flags@.len() == 0,
        r.forwards@.len() == 0,
        r.ext_vars@.len() == 0,
        r.globals@.len() == 0,
        r.locals@.len() == 0,
        r.defs@.len() == 0,
        r.expected_defs@.len() == 0,
        r.user_stmts@.len() == 0,
        !r.in_sub,
        r.in_loop == 0,
        r.tmp_id == 0,
        r.depth == 0,
        r.path is None,
{
    Compiler::default()
}

/// Turn a string of LDPL code into C++ code; the program must be closed:
/// every called sub-procedure must be defined by the end.
pub fn compile(code: &str) -> (r: Result<Compiler, LDPLError>)
    ensures
        r is Ok ==> r.unwrap().expected_defs@.len() == 0,
        r is Ok ==> r.unwrap().globals@.len() >= 3,
        code@.len() == 0 ==> r is Ok,
{
    let mut compiler = Compiler::default();
    match compiler.compile(code) {
        Ok(()) => {},
        Err(e) => {
            return Err(e);
        },
    }
    if compiler.expected_defs.len() > 0 {
        let mut msg = String::new();
        msg.append("CALL of sub-procedure that is never defined: ");
        msg.append(compiler.expected_defs[0].as_str());
        return Err(LDPLError::new(msg, 0, 0, 1));
    }
    Ok(compiler)
}

/// Turn a parsed LDPL program into C++ code.
pub fn compile_ast(ast: &Vec<Node>) -> (r: Result<Compiler, LDPLError>)
    ensures
        ast@.len() == 0 ==> r is Ok,
{
    let mut compiler = Compiler::default();
    match compiler.compile_ast(ast) {
        Ok(()) => Ok(compiler),
        Err(e) => Err(e),
    }
}

impl Compiler {
    /// Add a C++ file to hand to the build step.
    pub fn add_extension(&mut self, ext_file: String) -> (r: Result<(), LDPLError>)
        ensures
            r is Ok,
            final(self).exts@ == old(self).exts@.push(ext_file),
            *final(self) == (Compiler { exts: final(self).exts, ..*old(self) }),
    {
        self.exts.push(ext_file);
        Ok(())
    }

    /// Add a compiler flag to hand to the build step.
    pub fn add_flag(&mut self, flag: String) -> (r: Result<(), LDPLError>)
        ensures
            r is Ok,
            final(self).flags@ == old(self).flags@.push(flag),
            *final(self) == (Compiler { flags: final(self).flags, ..*old(self) }),
    {
        self.flags.push(flag);
        Ok(())
    }

    /// The index one past the last `/` in `s[0..j)`, or 0 when there is
    /// none.
    pub open spec fn spec_after_last_slash(s: Seq<char>, j: int) -> int
        decreases j,
    {
        if 0 < j <= s.len() && s[j - 1] != '/' {
            Self::spec_after_last_slash(s, j - 1)
        } else {
            j
        }
    }

    /// How a relative file reference is expanded against the path of the
    /// file being compiled: the current file's directory, a slash, then
    /// the reference; unchanged when no path or no directory is known.
    pub open spec fn spec_expand_path(&self, file: Seq<char>) -> Seq<char> {
        match self.path {
            Option::None => file,
            Option::Some(cur) => {
                let k = Self::spec_after_last_slash(cur@, cur@.len() as int);
                if k == 0 {
                    file
                } else {
                    let root_end: int = if k == 1 {
                        1
                    } else {
                        k - 1
                    };
                    cur@.subrange(0, root_end) + "/"@ + file
                }
            },
        }
    }

    /// Expand a relative file reference against the directory of the file
    /// being compiled.
    pub fn expand_path(&self, file: &str) -> (r: String)
        ensures
            r@ == self.spec_expand_path(file@),
    {
        match &self.path {
            Some(current) => {
                // the directory part of the current path
                let cs = crate::text::str_chars(current.as_str());
                let n = cs.len();
                let mut k: usize = n;
                while k > 0 && cs[k - 1] != '/'
                    invariant
                        k <= n,
                        n == cs@.len(),
                        Self::spec_after_last_slash(cs@, n as int)
                            == Self::spec_after_last_slash(cs@, k as int),
                    decreases k,
                {
                    k = k - 1;
                }
                proof {
                    assert(Self::spec_after_last_slash(cs@, k as int) == k as int);
                }
                if k == 0 {
                    // no directory part
                    let mut out = String::new();
                    out.append(file);
                    return out;
                }
                let root_end = if k == 1 {
                    1
                } else {
                    k - 1
                };
                let mut out: Vec<char> = Vec::new();
                let mut i: usize = 0;
                while i < root_end
                    invariant
                        i <= root_end <= n,
                        n == cs@.len(),
                        out@ == cs@.subrange(0, i as int),
                    decreases root_end - i,
                {
                    out.push(cs[i]);
                    i = i + 1;
                    proof {
                        assert(out@ =~= cs@.subrange(0, i as int));
                    }
                }
                let mut path = crate::text::chars_string(&out);
                path.append("/");
                path.append(file);
                path
            },
            None => {
                let mut out = String::new();
                out.append(file);
                out
            },
        }
    }

    /// Whether a header directive node is one this stage records, and is
    /// well-formed: EXTENSION or FLAG with a quoted payload.
    pub open spec fn spec_header_ok(n: Node) -> bool {
        &&& n.children@.len() >= 1
        &&& (n.children@[0].rule == Rule::ExtensionStmt || n.children@[0].rule
            == Rule::FlagStmt)
        &&& n.children@[0].children@.len() >= 1
        &&& n.children@[0].children@[0].text@.len() >= 2
    }

    /// The quoted payload of a header directive, bare.
    pub open spec fn spec_header_payload(n: Node) -> Seq<char> {
        let t = n.children@[0].children@[0].text@;
        t.subrange(1, t.len() - 1)
    }

    /// Process one header directive node: EXTENSION and FLAG are recorded
    /// in declaration order — an EXTENSION path is expanded against the
    /// current file first. INCLUDE and USING need the embedding driver to
    /// read a file, so they are refused here and resolved by the caller
    /// before lowering.
    pub fn compile_header(&mut self, n: &Node) -> (r: Result<(), LDPLError>)
        ensures
            r is Ok <==> Self::spec_header_ok(*n),
            r is Ok && n.children@[0].rule == Rule::ExtensionStmt ==> final(self).exts@.len()
                == old(self).exts@.len() + 1 && final(self).exts@.last()@ == old(
                self,
            ).spec_expand_path(Self::spec_header_payload(*n)) && old(
                self,
            ).exts@.is_prefix_of(final(self).exts@) && *final(self) == (Compiler {
                exts: final(self).exts,
                ..*old(self)
            }),
            r is Ok && n.children@[0].rule == Rule::FlagStmt ==> final(self).flags@.len()
                == old(self).flags@.len() + 1 && final(self).flags@.last()@
                == Self::spec_header_payload(*n) && old(self).flags@.is_prefix_of(
                final(self).flags@,
            ) && *final(self) == (Compiler {
                flags: final(self).flags,
                ..*old(self)
            }),
            r is Err ==> *final(self) == *old(self),
    {
        let inner = match n.child(0) {
            Ok(c) => c,
            Err(err) => {
                return Err(err);
            },
        };
        match inner.rule {
            Rule::ExtensionStmt => {
                let lit = match inner.child(0) {
                    Ok(c) => c,
                    Err(err) => {
                        return Err(err);
                    },
                };
                if lit.text.unicode_len() < 2 {
                    let mut msg = String::new();
                    msg.append("EXTENSION expects a quoted file name");
                    return Err(LDPLError::new(msg, inner.line, inner.col, 1));
                }
                let bare = unquote(lit.text.as_str());
                let expanded = self.expand_path(bare.as_str());
                let out = self.add_extension(expanded);
                proof {
                    lemma_str_prefix_push(old(self).exts@, self.exts@.last());
                    assert(self.exts@ =~= old(self).exts@.push(self.exts@.last()));
                }
                out
            },
            Rule::FlagStmt => {
                let lit = match inner.child(0) {
                    Ok(c) => c,
                    Err(err) => {
                        return Err(err);
                    },
                };
                if lit.text.unicode_len() < 2 {
                    let mut msg = String::new();
                    msg.append("FLAG expects quoted text");
                    return Err(LDPLError::new(msg, inner.line, inner.col, 1));
                }
                let bare = unquote(lit.text.as_str());
                let out = self.add_flag(bare);
                proof {
                    lemma_str_prefix_push(old(self).flags@, self.flags@.last());
                    assert(self.flags@ =~= old(self).flags@.push(self.flags@.last()));
                }
                out
            },
            Rule::IncludeStmt | Rule::UsingStmt => {
                let mut msg = String::new();
                msg.append(
                    "INCLUDE and USING need a file system: resolve them before lowering",
                );
                Err(LDPLError::new(msg, n.line, n.col, 1))
            },
            _ => {
                let mut msg = String::new();
                msg.append("unexpected header directive");
                Err(LDPLError::new(msg, n.line, n.col, 1))
            },
        }
    }
}

impl Compiler {
    /// Lower a `SUB-PROCEDURE … END SUB-PROCEDURE` definition: clear the
    /// local scope, take in parameters and local data, register the
    /// signature (before the body, so recursion resolves), lower the body,
    /// and emit one C++ function.
    pub fn compile_sub_def_stmt(&mut self, n: &Node) -> (r: Result<String, LDPLError>)
        ensures
            final(self).user_stmts@ == old(self).user_stmts@,
            final(self).globals@ == old(self).globals@,
            final(self).main@ == old(self).main@,
            final(self).subs@ == old(self).subs@,
            final(self).vars@ == old(self).vars@,
            final(self).exts@ == old(self).exts@,
            final(self).flags@ == old(self).flags@,
            final(self).depth == old(self).depth,
            final(self).path == old(self).path,
            !final(self).in_sub,
            old(self).defs@.is_prefix_of(final(self).defs@),
            r is Ok ==> final(self).defs@.len() == old(self).defs@.len() + 1,
            r is Err ==> final(self).defs@.len() <= old(self).defs@.len() + 1,
            ({
                let idx: int = if n.children@[0].rule == Rule::External {
                    1
                } else {
                    0
                };
                n.children@.len() > idx && n.children@[idx].rule == Rule::Ident && defs_get(
                    old(self).defs@,
                    upper(n.children@[idx].text@),
                ) is Some
            }) ==> r is Err,
            n.children@.len() == 1 && n.children@[0].rule == Rule::Ident && defs_get(
                old(self).defs@,
                upper(n.children@[0].text@),
            ) is None && old(self).depth < usize::MAX ==> r is Ok,
            r is Ok ==> ({
                let idx: int = if n.children@[0].rule == Rule::External {
                    1
                } else {
                    0
                };
                let ident = n.children@[idx].text@;
                let mangled: Seq<char> = if n.children@[0].rule == Rule::External {
                    spec_mangle_ext(ident)
                } else {
                    spec_mangle_sub(ident)
                };
                let pidx = idx + 1;
                let has_params = pidx < n.children@.len() && n.children@[pidx].rule
                    == Rule::SubParamSection;
                let pdefs = n.children@[pidx].children@;
                let psig: Seq<char> = if has_params {
                    Self::spec_params_sig(pdefs, pdefs.len() as int).unwrap()
                } else {
                    Seq::<char>::empty()
                };
                &&& final(self).defs@.last().0@ == upper(ident)
                &&& (has_params ==> Self::spec_params_sig(pdefs, pdefs.len() as int)
                    is Some && final(self).defs@.last().1@.len() == pdefs.len() && forall|
                    j: int,
                |
                    0 <= j < pdefs.len() ==> #[trigger] final(self).defs@.last().1@[j]
                        == type_from_name(def_tyname(pdefs[j])).unwrap())
                &&& (!has_params ==> final(self).defs@.last().1@.len() == 0)
                &&& starts_with(
                    r.unwrap()@,
                    spec_indent(old(self).depth as nat) + "void "@ + mangled + "("@ + psig
                        + ") {"@ + "\n"@,
                )
                &&& names_remove(old(self).expected_defs@, upper(ident)).is_prefix_of(
                    final(self).expected_defs@,
                )
                &&& forall|k: int|
                    0 <= k < final(self).expected_defs@.len()
                        ==> (#[trigger] final(self).expected_defs@[k])@ != upper(ident)
            }),
        decreases *n, 1int,
    {
        let ghost orig = *self;
        self.locals = Vec::new();
        self.in_sub = false;
        proof {
            assert(orig.defs@.subrange(0, orig.defs@.len() as int) =~= orig.defs@);
        }
        let m = n.children.len();
        let mut i: usize = 0;
        let mut is_extern = false;
        if i < m && matches!(n.children[i].rule, Rule::External) {
            is_extern = true;
            i = i + 1;
        }
        if i >= m || !matches!(n.children[i].rule, Rule::Ident) {
            let mut msg = String::new();
            msg.append("malformed SUB-PROCEDURE definition");
            return Err(LDPLError::new(msg, n.line, n.col, 1));
        }
        let ident_text = {
            let mut t = String::new();
            t.append(n.children[i].text.as_str());
            t
        };
        i = i + 1;
        let up = to_upper(ident_text.as_str());
        if matches!(defs_lookup(&self.defs, up.as_str()), Option::Some(_)) {
            let mut msg = String::new();
            msg.append("Redefining existing SUB-PROCEDURE: ");
            msg.append(ident_text.as_str());
            return Err(LDPLError::new(msg, n.line, n.col, 1));
        }
        // an expected definition is now being supplied
        let ghost full = self.expected_defs@;
        let mut keep: Vec<String> = Vec::new();
        let total = self.expected_defs.len();
        let mut j: usize = 0;
        proof {
            assert(full.skip(0) =~= full);
        }
        while j < total
            invariant
                j <= total,
                total == self.expected_defs@.len(),
                full == self.expected_defs@,
                up@ == upper(ident_text@),
                names_remove(full, up@) == keep@ + names_remove(full.skip(j as int), up@),
            decreases total - j,
        {
            let ghost rest = full.skip(j as int);
            let ghost entry = full[j as int];
            proof {
                assert(rest[0] == entry);
                assert(rest.skip(1) =~= full.skip(j as int + 1));
            }
            if !streq(self.expected_defs[j].as_str(), up.as_str()) {
                keep.push(self.expected_defs[j].clone());
                proof {
                    assert(names_remove(rest, up@) == seq![entry] + names_remove(
                        full.skip(j as int + 1),
                        up@,
                    ));
                    assert(keep@ + names_remove(full.skip(j as int + 1), up@) =~= keep@
                        .drop_last() + (seq![entry] + names_remove(
                        full.skip(j as int + 1),
                        up@,
                    )));
                }
            } else {
                proof {
                    assert(names_remove(rest, up@) == names_remove(
                        full.skip(j as int + 1),
                        up@,
                    ));
                }
            }
            j = j + 1;
        }
        proof {
            assert(full.skip(total as int).len() == 0);
            assert(keep@ + names_remove(full.skip(total as int), up@) =~= keep@);
        }
        self.expected_defs = keep;
        self.in_sub = true;
        if self.depth == usize::MAX {
            self.in_sub = false;
            let mut msg = String::new();
            msg.append("block nesting too deep");
            return Err(LDPLError::new(msg, n.line, n.col, 1));
        }
        self.depth = self.depth + 1;
        let mut params = String::new();
        let mut param_types: Vec<LDPLType> = Vec::new();
        let ghost pidx = i as int;
        let mut has_params = false;
        if i < m && matches!(n.children[i].rule, Rule::SubParamSection) {
            has_params = true;
            match self.compile_params(&n.children[i]) {
                Ok((ts, sig)) => {
                    param_types = ts;
                    params = sig;
                },
                Err(e) => {
                    self.depth = self.depth - 1;
                    self.in_sub = false;
                    return Err(e);
                },
            }
            i = i + 1;
        }
        let mut vars_out = String::new();
        if i < m && matches!(n.children[i].rule, Rule::SubDataSection) {
            match self.compile_data(&n.children[i], true) {
                Ok(v) => {
                    vars_out = v;
                },
                Err(e) => {
                    self.depth = self.depth - 1;
                    self.in_sub = false;
                    return Err(e);
                },
            }
            i = i + 1;
        }
        // register the signature before lowering the body, so the sub can
        // call itself
        let ghost up_view = up@;
        let ghost pre_reg_defs = self.defs@;
        self.defs.push((up, param_types));
        proof {
            assert(orig.defs@.is_prefix_of(self.defs@)) by {
                assert(orig.defs@ =~= self.defs@.subrange(0, orig.defs@.len() as int));
            }
            assert(self.defs@ =~= pre_reg_defs + seq![self.defs@.last()]);
            lemma_defs_get_append(pre_reg_defs, seq![self.defs@.last()], up_view);
            assert(defs_get(seq![self.defs@.last()], up_view) is Some);
            assert(defs_get(self.defs@, up_view) is Some);
        }
        let ghost reg = *self;
        let body = match self.compile_body(n, i, false) {
            Ok(b) => b,
            Err(e) => {
                self.depth = self.depth - 1;
                self.in_sub = false;
                return Err(e);
            },
        };
        self.depth = self.depth - 1;
        self.in_sub = false;
        let mangled = if is_extern {
            mangle_extern(ident_text.as_str())
        } else {
            mangle_sub(ident_text.as_str())
        };
        let mut out = self.indent_str();
        out.append("void ");
        out.append(mangled.as_str());
        out.append("(");
        out.append(params.as_str());
        out.append(") {");
        out.append("\n");
        let ghost head = out@;
        out.append(vars_out.as_str());
        out.append(body.as_str());
        out.append("}");
        out.append("\n");
        out.append("\n");
        proof {
            let idx: int = if n.children@[0].rule == Rule::External {
                1
            } else {
                0
            };
            assert(ident_text@ =~= n.children@[idx].text@);
            assert(out@.subrange(0, head.len() as int) =~= head);
            // the defined name is expected nowhere: the removal left no
            // entry with it, and the body only records names the registry
            // (which now holds this one) does not know
            lemma_names_remove_no_key(orig.expected_defs@, up_view);
            assert forall|k: int|
                0 <= k < self.expected_defs@.len() implies (#[trigger] self
                .expected_defs@[k])@ != up_view by {
                if k < reg.expected_defs@.len() {
                    assert(self.expected_defs@[k] == reg.expected_defs@[k]);
                    assert(reg.expected_defs@[k] == names_remove(
                        orig.expected_defs@,
                        up_view,
                    )[k]);
                } else {
                    assert(defs_get(reg.defs@, self.expected_defs@[k]@) is None);
                }
            }
        }
        Ok(out)
    }

    /// Lower a whole parsed program into the compiler's collected pieces.
    /// The predeclared variables are seeded once.
    pub fn compile_ast(&mut self, ast: &Vec<Node>) -> (r: Result<(), LDPLError>)
        ensures
            old(self).globals@.len() == 0 && r is Ok ==> final(self).globals@.len() >= 3,
            ast@.len() == 0 ==> r is Ok,
            old(self).vars@.is_prefix_of(final(self).vars@),
            old(self).subs@.is_prefix_of(final(self).subs@),
            old(self).main@.is_prefix_of(final(self).main@),
            old(self).exts@.is_prefix_of(final(self).exts@),
            old(self).flags@.is_prefix_of(final(self).flags@),
            ast@.len() == 0 ==> final(self).expected_defs@ == old(self).expected_defs@,
    {
        if self.globals.len() == 0 {
            let mut argv_decl = String::new();
            argv_decl.append("ldpl_list<chText> VAR_ARGV;");
            self.vars.push(argv_decl);
            let mut argv_name = String::new();
            argv_name.append("ARGV");
            self.globals.push((argv_name, LDPLType::List(Box::new(LDPLType::Text))));
            let mut errorcode = String::new();
            errorcode.append("ERRORCODE");
            self.globals.push((errorcode, LDPLType::Number));
            let mut errortext = String::new();
            errortext.append("ERRORTEXT");
            self.globals.push((errortext, LDPLType::Text));
        }
        let ghost seeded = *self;
        let n = ast.len();
        let mut i: usize = 0;
        while i < n
            invariant
                i <= n,
                n == ast@.len(),
                self.globals@.len() >= seeded.globals@.len(),
                old(self).globals@.len() == 0 ==> seeded.globals@.len() >= 3,
                old(self).vars@.is_prefix_of(self.vars@),
                old(self).subs@.is_prefix_of(self.subs@),
                old(self).main@.is_prefix_of(self.main@),
                old(self).exts@.is_prefix_of(self.exts@),
                old(self).flags@.is_prefix_of(self.flags@),
                n == 0 ==> self.expected_defs@ == old(self).expected_defs@,
            decreases n - i,
        {
            let ghost pre_iter = *self;
            let node = &ast[i];
            match node.rule {
                Rule::HeaderStmt => {
                    match self.compile_header(node) {
                        Ok(()) => {},
                        Err(e) => {
                            return Err(e);
                        },
                    }
                    proof {
                        lemma_str_prefix_trans(old(self).exts@, pre_iter.exts@, self.exts@);
                        lemma_str_prefix_trans(
                            old(self).flags@,
                            pre_iter.flags@,
                            self.flags@,
                        );
                    }
                },
                Rule::DataSection => {
                    let data = match self.compile_data(node, false) {
                        Ok(d) => d,
                        Err(e) => {
                            return Err(e);
                        },
                    };
                    self.vars.push(data);
                    proof {
                        lemma_str_prefix_push(pre_iter.vars@, self.vars@.last());
                        assert(self.vars@ =~= pre_iter.vars@.push(self.vars@.last()));
                        lemma_str_prefix_trans(old(self).vars@, pre_iter.vars@, self.vars@);
                    }
                },
                Rule::ProcedureSection => {
                    let pm = node.children.len();
                    let mut p: usize = 0;
                    while p < pm
                        invariant
                            p <= pm,
                            pm == node.children@.len(),
                            i < n,
                            n == ast@.len(),
                            self.globals@.len() >= seeded.globals@.len(),
                            old(self).globals@.len() == 0 ==> seeded.globals@.len() >= 3,
                            old(self).vars@.is_prefix_of(self.vars@),
                            old(self).subs@.is_prefix_of(self.subs@),
                            old(self).main@.is_prefix_of(self.main@),
                            old(self).exts@.is_prefix_of(self.exts@),
                            old(self).flags@.is_prefix_of(self.flags@),
                        decreases pm - p,
                    {
                        let ghost pre_stmt = *self;
                        let stmt = &node.children[p];
                        match stmt.rule {
                            Rule::CreateStmtStmt => {
                                match self.add_user_stmt(stmt) {
                                    Ok(()) => {},
                                    Err(e) => {
                                        return Err(e);
                                    },
                                }
                            },
                            Rule::SubDefStmt => {
                                let sub = match self.compile_sub_def_stmt(stmt) {
                                    Ok(s) => s,
                                    Err(e) => {
                                        return Err(e);
                                    },
                                };
                                self.subs.push(sub);
                                proof {
                                    lemma_str_prefix_push(pre_stmt.subs@, self.subs@.last());
                                    assert(self.subs@ =~= pre_stmt.subs@.push(
                                        self.subs@.last(),
                                    ));
                                    lemma_str_prefix_trans(
                                        old(self).subs@,
                                        pre_stmt.subs@,
                                        self.subs@,
                                    );
                                }
                            },
                            _ => {
                                if self.depth == usize::MAX {
                                    let mut msg = String::new();
                                    msg.append("block nesting too deep");
                                    return Err(LDPLError::new(msg, stmt.line, stmt.col, 1));
                                }
                                self.depth = self.depth + 1;
                                let lowered = match self.compile_subproc_stmt(stmt) {
                                    Ok(s) => s,
                                    Err(e) => {
                                        self.depth = self.depth - 1;
                                        return Err(e);
                                    },
                                };
                                self.depth = self.depth - 1;
                                self.main.push(lowered);
                                proof {
                                    lemma_str_prefix_push(pre_stmt.main@, self.main@.last());
                                    assert(self.main@ =~= pre_stmt.main@.push(
                                        self.main@.last(),
                                    ));
                                    lemma_str_prefix_trans(
                                        old(self).main@,
                                        pre_stmt.main@,
                                        self.main@,
                                    );
                                }
                            },
                        }
                        p = p + 1;
                    }
                },
                _ => {
                    let mut msg = String::new();
                    msg.append("unexpected section");
                    return Err(LDPLError::new(msg, node.line, node.col, 1));
                },
            }
            i = i + 1;
        }
        Ok(())
    }

    /// Turn a string of LDPL code into C++ code.
    pub fn compile(&mut self, source: &str) -> (r: Result<(), LDPLError>)
        ensures
            old(self).globals@.len() == 0 && r is Ok ==> final(self).globals@.len() >= 3,
            source@.len() == 0 ==> r is Ok && final(self).expected_defs@ == old(
                self,
            ).expected_defs@,
            old(self).vars@.is_prefix_of(final(self).vars@),
            old(self).subs@.is_prefix_of(final(self).subs@),
            old(self).main@.is_prefix_of(final(self).main@),
            old(self).exts@.is_prefix_of(final(self).exts@),
            old(self).flags@.is_prefix_of(final(self).flags@),
    {
        let ast = match crate::parser::parse_program(source) {
            Ok(a) => a,
            Err(e) => {
                return Err(e);
            },
        };
        self.compile_ast(&ast)
    }

    /// The emitted translation unit, without the fixed runtime header that
    /// the build step prepends: forward declarations, globals, sub
    /// bodies, and the `main` wrapper. A program that still expects
    /// definitions is refused — partial output is never returned.
    pub fn to_cpp(&self) -> (r: Result<String, LDPLError>)
        ensures
            r is Ok <==> self.expected_defs@.len() == 0,
            r is Ok ==> r.unwrap()@ == cat_upto(self.forwards@, self.forwards@.len() as int)
                + cat_nl_upto(self.vars@, self.vars@.len() as int) + cat_upto(
                self.subs@,
                self.subs@.len() as int,
            ) + spec_main_header() + cat_upto(self.main@, self.main@.len() as int)
                + spec_main_footer(),
    {
        if self.expected_defs.len() > 0 {
            let mut msg = String::new();
            msg.append("CALL of sub-procedure that is never defined: ");
            msg.append(self.expected_defs[0].as_str());
            return Err(LDPLError::new(msg, 0, 0, 1));
        }
        let mut out = cat_all(&self.forwards);
        let vars = cat_all_nl(&self.vars);
        out.append(vars.as_str());
        let subs = cat_all(&self.subs);
        out.append(subs.as_str());
        out.append(main_header_text());
        let main = cat_all(&self.main);
        out.append(main.as_str());
        out.append(main_footer_text());
        Ok(out)
    }
}

/// The fixed opening of the emitted `main` function.
pub open spec fn spec_main_header() -> Seq<char> {
    "\nint main(int argc, char* argv[]) {\n    cout.precision(numeric_limits<ldpl_number>::digits10);\n    for(int i = 1; i < argc; ++i) VAR_ARGV.inner_collection.push_back(argv[i]);\n\n"@
}

/// The fixed closing of the emitted `main` function.
pub open spec fn spec_main_footer() -> Seq<char> {
    "\n    return 0;\n}\n"@
}

/// The fixed opening of the emitted `main` function.
pub fn main_header_text() -> (r: &'static str)
    ensures
        r@ == spec_main_header(),
{
    "\nint main(int argc, char* argv[]) {\n    cout.precision(numeric_limits<ldpl_number>::digits10);\n    for(int i = 1; i < argc; ++i) VAR_ARGV.inner_collection.push_back(argv[i]);\n\n"
}

/// The fixed closing of the emitted `main` function.
pub fn main_footer_text() -> (r: &'static str)
    ensures
        r@ == spec_main_footer(),
{
    "\n    return 0;\n}\n"
}


impl Compiler {
    /// Iterating `FOR EACH` over a map assigns the loop variable from the
    /// value half of each pair, never the pair itself: the assignment line
    /// of the lowered loop goes through `.second` exactly when the
    /// collection's type is a map, and is a plain copy of the range
    /// variable otherwise.
    pub proof fn lemma_for_each_map_uses_value(&self, n: Node)
        requires
            self.spec_for_each_head(n) is Some,
        ensures
            ({
                let rv = "RVAR_"@ + dec_str(self.tmp_id as nat);
                let second: Seq<char> = if self.spec_type_of_expr(n.children@[1]).unwrap()
                    is Vector {
                    ".second"@
                } else {
                    Seq::<char>::empty()
                };
                self.spec_for_each_head(n).unwrap() == ln(
                    self.depth as nat,
                    "for (auto& "@ + rv + " : "@ + self.spec_expr(n.children@[1]).unwrap()
                        + ".inner_collection) {"@,
                ) + ln(
                    (self.depth + 1) as nat,
                    spec_mangle_var(n.children@[0].text@) + " = "@ + rv + second + ";"@,
                )
            }),
    {
    }
}

} // verus!
