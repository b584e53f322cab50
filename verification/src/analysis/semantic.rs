//! Syntax-aware analysis of one file.
//!
//! The analyzer works on a small structural model of a Rust source
//! file: the items, function bodies and `use` trees it actually reads.
//! The caller parses real source text into this model; everything
//! derived from it here — imports, function complexity, type listings —
//! is specified exactly.

use vstd::prelude::*;

verus! {

broadcast use vstd::std_specs::vec::group_vec_axioms;

/// Error of the semantic analyzer.
#[derive(Debug)]
pub enum SemanticError {
    ParseError(String),
    FileError(String),
    UnsupportedLanguage(String),
    InvalidPath(String),
}

/// The description [`SemanticError::message`] reports.
pub open spec fn semantic_message_spec(e: SemanticError) -> Seq<char> {
    match e {
        SemanticError::ParseError(s) => "Failed to parse file: "@ + s@,
        SemanticError::FileError(s) => "Failed to read file: "@ + s@,
        SemanticError::UnsupportedLanguage(s) => "Language not supported: "@ + s@,
        SemanticError::InvalidPath(s) => "Invalid path: "@ + s@,
    }
}

impl SemanticError {
    /// A readable description of the error.
    pub fn message(&self) -> (r: String)
        ensures
            r@ == semantic_message_spec(*self),
    {
        match self {
            SemanticError::ParseError(s) => {
                let mut m = "Failed to parse file: ".to_owned();
                m.append(s.as_str());
                m
            },
            SemanticError::FileError(s) => {
                let mut m = "Failed to read file: ".to_owned();
                m.append(s.as_str());
                m
            },
            SemanticError::UnsupportedLanguage(s) => {
                let mut m = "Language not supported: ".to_owned();
                m.append(s.as_str());
                m
            },
            SemanticError::InvalidPath(s) => {
                let mut m = "Invalid path: ".to_owned();
                m.append(s.as_str());
                m
            },
        }
    }
}

// ---------------------------------------------------------------------
// The structural model of a source file
// ---------------------------------------------------------------------

/// A `use` tree: nested paths, plain names, globs, groups and renames.
#[derive(Debug)]
pub enum UseTreeNode {
    Path(Box<UseTreeNode>),
    Name(String),
    Glob,
    Group(Vec<UseTreeNode>),
    Rename(String, String),
}

/// A statement, reduced to its branching structure.
#[derive(Debug)]
pub enum RustStmt {
    /// `if` with its then- and else-blocks.
    If(Vec<RustStmt>, Vec<RustStmt>),
    While(Vec<RustStmt>),
    For(Vec<RustStmt>),
    Loop(Vec<RustStmt>),
    /// `match`, one block per arm.
    Match(Vec<Vec<RustStmt>>),
    Block(Vec<RustStmt>),
    Closure(Vec<RustStmt>),
    /// Any statement without control flow of its own.
    Other,
}

/// A function or method: name, parameter types, body.
#[derive(Debug)]
pub struct RustFn {
    pub name: String,
    pub parameters: Vec<String>,
    pub body: Vec<RustStmt>,
}

/// A top-level item of a source file.
#[derive(Debug)]
pub enum RustItem {
    Use(UseTreeNode),
    Fn(RustFn),
    Impl(Vec<RustFn>),
    Struct { name: String, fields: Vec<String> },
    Other,
}

/// A parsed source file.
#[derive(Debug)]
pub struct RustFile {
    pub items: Vec<RustItem>,
}

// ---------------------------------------------------------------------
// Complexity
// ---------------------------------------------------------------------

/// Branch weight of one statement: one per `if`, `while`, `for` or
/// `loop`, one per `match` arm, recursing into every nested block.
pub open spec fn stmt_weight(s: RustStmt) -> nat
    decreases s,
{
    match s {
        RustStmt::If(t, e) => 1 + body_weight(t@) + body_weight(e@),
        RustStmt::While(b) => 1 + body_weight(b@),
        RustStmt::For(b) => 1 + body_weight(b@),
        RustStmt::Loop(b) => 1 + body_weight(b@),
        RustStmt::Match(arms) => arms_weight(arms@),
        RustStmt::Block(b) => body_weight(b@),
        RustStmt::Closure(b) => body_weight(b@),
        RustStmt::Other => 0,
    }
}

/// Branch weight of a block.
pub open spec fn body_weight(b: Seq<RustStmt>) -> nat
    decreases b,
{
    if b.len() == 0 {
        0
    } else {
        body_weight(b.drop_last()) + stmt_weight(b.last())
    }
}

/// Branch weight of the arms of a `match`: one per arm plus the weight
/// of each arm's block.
pub open spec fn arms_weight(a: Seq<Vec<RustStmt>>) -> nat
    decreases a,
{
    if a.len() == 0 {
        0
    } else {
        arms_weight(a.drop_last()) + 1 + body_weight(a.last()@)
    }
}

/// A value capped at `u64::MAX`, as reported by the executable
/// calculator.
pub open spec fn cap_weight(n: nat) -> u64 {
    crate::cap64(n)
}

/// Saturating addition.
fn cap_add(a: u64, b: u64) -> (r: u64)
    ensures
        r as nat == if a + b > u64::MAX {
            u64::MAX as nat
        } else {
            (a + b) as nat
        },
{
    if a > u64::MAX - b {
        u64::MAX
    } else {
        a + b
    }
}

proof fn lemma_cap_add(x: nat, y: nat)
    ensures
        crate::cap64(x + y) as nat == if crate::cap64(x) + crate::cap64(y) > u64::MAX {
            u64::MAX as nat
        } else {
            (crate::cap64(x) + crate::cap64(y)) as nat
        },
{
}

/// Computes the branch weight of one statement, capped at `u64::MAX`.
#[verifier::loop_isolation(false)]
pub fn stmt_complexity(s: &RustStmt) -> (r: u64)
    ensures
        r == cap_weight(stmt_weight(*s)),
    decreases *s,
{
    match s {
        RustStmt::If(t, e) => {
            let wt = block_complexity(t);
            let we = block_complexity(e);
            proof {
                lemma_cap_add(body_weight(t@), body_weight(e@));
                lemma_cap_add(1, body_weight(t@) + body_weight(e@));
            }
            cap_add(1, cap_add(wt, we))
        },
        RustStmt::While(b) => {
            let w = block_complexity(b);
            proof {
                lemma_cap_add(1, body_weight(b@));
            }
            cap_add(1, w)
        },
        RustStmt::For(b) => {
            let w = block_complexity(b);
            proof {
                lemma_cap_add(1, body_weight(b@));
            }
            cap_add(1, w)
        },
        RustStmt::Loop(b) => {
            let w = block_complexity(b);
            proof {
                lemma_cap_add(1, body_weight(b@));
            }
            cap_add(1, w)
        },
        RustStmt::Match(arms) => {
            let mut r: u64 = 0;
            let mut i: usize = 0;
            proof {
                assert(arms@.take(0) =~= Seq::<Vec<RustStmt>>::empty());
            }
            while i < arms.len()
                invariant
                    i <= arms@.len(),
                    r == cap_weight(arms_weight(arms@.take(i as int))),
                decreases arms@.len() - i,
            {
                proof {
                    assert(s->Match_0 == *arms);
                    assert(decreases_to!(*s => s->Match_0));
                    assert(decreases_to!(*arms => arms@[i as int]));
                    assert(decreases_to!(arms@[i as int] => arms@[i as int]@));
                }
                let w = block_complexity(&arms[i]);
                proof {
                    assert(arms@.take(i + 1).drop_last() =~= arms@.take(i as int));
                    assert(arms@.take(i + 1).last() == arms@[i as int]);
                    lemma_cap_add(1, body_weight(arms@[i as int]@));
                    lemma_cap_add(
                        arms_weight(arms@.take(i as int)),
                        1 + body_weight(arms@[i as int]@),
                    );
                }
                r = cap_add(r, cap_add(1, w));
                i = i + 1;
            }
            proof {
                assert(arms@.take(arms@.len() as int) =~= arms@);
            }
            r
        },
        RustStmt::Block(b) => block_complexity(b),
        RustStmt::Closure(b) => block_complexity(b),
        RustStmt::Other => 0,
    }
}

/// Computes the branch weight of a block, capped at `u64::MAX`.
pub fn block_complexity(b: &Vec<RustStmt>) -> (r: u64)
    ensures
        r == cap_weight(body_weight(b@)),
    decreases b@,
{
    let mut r: u64 = 0;
    let mut i: usize = 0;
    proof {
        assert(b@.take(0) =~= Seq::<RustStmt>::empty());
    }
    while i < b.len()
        invariant
            i <= b@.len(),
            r == cap_weight(body_weight(b@.take(i as int))),
        decreases b@.len() - i,
    {
        let w = stmt_complexity(&b[i]);
        proof {
            assert(b@.take(i + 1).drop_last() =~= b@.take(i as int));
            assert(b@.take(i + 1).last() == b@[i as int]);
            lemma_cap_add(body_weight(b@.take(i as int)), stmt_weight(b@[i as int]));
        }
        r = cap_add(r, w);
        i = i + 1;
    }
    proof {
        assert(b@.take(b@.len() as int) =~= b@);
    }
    r
}

/// A statement that introduces a branch of its own.
pub open spec fn is_branch_stmt(s: RustStmt) -> bool {
    match s {
        RustStmt::If(_, _) => true,
        RustStmt::While(_) => true,
        RustStmt::For(_) => true,
        RustStmt::Loop(_) => true,
        RustStmt::Match(_) => true,
        _ => false,
    }
}

/// Complexity is monotone in the body: appending a statement never
/// lowers the branch weight, and appending an `if`, `while`, `for`,
/// `loop` or non-empty `match` strictly raises it. The capped, reported
/// value therefore never decreases either.
pub proof fn lemma_complexity_monotone(body: Seq<RustStmt>, s: RustStmt)
    ensures
        body_weight(body.push(s)) == body_weight(body) + stmt_weight(s),
        cap_weight(body_weight(body.push(s))) >= cap_weight(body_weight(body)),
        is_branch_stmt(s) && !(s is Match) ==> body_weight(body.push(s)) > body_weight(body),
{
    assert(body.push(s).drop_last() =~= body);
    assert(body.push(s).last() == s);
}

/// A block's branch weight is the sum over its two halves.
pub proof fn lemma_body_weight_concat(x: Seq<RustStmt>, y: Seq<RustStmt>)
    ensures
        body_weight(x + y) == body_weight(x) + body_weight(y),
    decreases y.len(),
{
    if y.len() == 0 {
        assert(x + y =~= x);
    } else {
        lemma_body_weight_concat(x, y.drop_last());
        assert((x + y).drop_last() =~= x + y.drop_last());
        assert((x + y).last() == y.last());
    }
}

/// Complexity is monotone under insertion anywhere in the body: a
/// statement inserted between any two halves adds exactly its own
/// weight, so the branch weight never decreases, and an inserted `if`,
/// `while`, `for` or `loop` strictly raises it. The capped, reported
/// value never decreases either.
pub proof fn lemma_complexity_insert(before: Seq<RustStmt>, after: Seq<RustStmt>, s: RustStmt)
    ensures
        body_weight(before + seq![s] + after) == body_weight(before + after) + stmt_weight(s),
        cap_weight(body_weight(before + seq![s] + after)) >= cap_weight(
            body_weight(before + after),
        ),
        is_branch_stmt(s) && !(s is Match) ==> body_weight(before + seq![s] + after)
            > body_weight(before + after),
{
    lemma_body_weight_concat(before, after);
    lemma_body_weight_concat(before + seq![s], after);
    lemma_body_weight_concat(before, seq![s]);
    let single = seq![s];
    assert(single.drop_last() =~= Seq::<RustStmt>::empty());
    assert(single.last() == s);
    assert(body_weight(Seq::<RustStmt>::empty()) == 0);
    assert(body_weight(single) == stmt_weight(s));
}

// ---------------------------------------------------------------------
// Imports
// ---------------------------------------------------------------------

/// The leaf names of a `use` tree, in source order. Globs and renames
/// contribute nothing.
pub open spec fn tree_imports(t: UseTreeNode) -> Seq<Seq<char>>
    decreases t,
{
    match t {
        UseTreeNode::Path(b) => tree_imports(*b),
        UseTreeNode::Name(n) => seq![n@],
        UseTreeNode::Glob => Seq::empty(),
        UseTreeNode::Group(g) => group_imports(g@),
        UseTreeNode::Rename(_, _) => Seq::empty(),
    }
}

/// The leaf names of a group of `use` trees.
pub open spec fn group_imports(g: Seq<UseTreeNode>) -> Seq<Seq<char>>
    decreases g,
{
    if g.len() == 0 {
        Seq::empty()
    } else {
        group_imports(g.drop_last()) + tree_imports(g.last())
    }
}

/// Appends the leaf names of a `use` tree to `imports`.
#[verifier::loop_isolation(false)]
fn extract_imports(item_use: &UseTreeNode, imports: &mut Vec<String>)
    ensures
        final(imports)@.map_values(|s: String| s@) == old(imports)@.map_values(|s: String| s@)
            + tree_imports(*item_use),
    decreases *item_use,
{
    match item_use {
        UseTreeNode::Path(b) => {
            extract_imports(b, imports);
        },
        UseTreeNode::Name(n) => {
            let ghost before = imports@.map_values(|s: String| s@);
            imports.push(n.clone());
            proof {
                assert(imports@.map_values(|s: String| s@) =~= before + seq![n@]);
            }
        },
        UseTreeNode::Glob => {
            proof {
                assert(imports@.map_values(|s: String| s@) =~= imports@.map_values(
                    |s: String| s@,
                ) + Seq::<Seq<char>>::empty());
            }
        },
        UseTreeNode::Group(g) => {
            let ghost start = imports@.map_values(|s: String| s@);
            let mut i: usize = 0;
            proof {
                assert(g@.take(0) =~= Seq::<UseTreeNode>::empty());
                assert(start + group_imports(g@.take(0)) =~= start);
            }
            while i < g.len()
                invariant
                    i <= g@.len(),
                    imports@.map_values(|s: String| s@) == start + group_imports(
                        g@.take(i as int),
                    ),
                decreases g@.len() - i,
            {
                proof {
                    assert(item_use->Group_0 == *g);
                    assert(decreases_to!(*item_use => item_use->Group_0));
                    assert(decreases_to!(*g => g@[i as int]));
                }
                extract_imports(&g[i], imports);
                proof {
                    assert(g@.take(i + 1).drop_last() =~= g@.take(i as int));
                    assert(g@.take(i + 1).last() == g@[i as int]);
                }
                i = i + 1;
            }
            proof {
                assert(g@.take(g@.len() as int) =~= g@);
            }
        },
        UseTreeNode::Rename(_, _) => {
            proof {
                assert(imports@.map_values(|s: String| s@) =~= imports@.map_values(
                    |s: String| s@,
                ) + Seq::<Seq<char>>::empty());
            }
        },
    }
}

// ---------------------------------------------------------------------
// The semantic context
// ---------------------------------------------------------------------

/// What the analyzer records about one function.
#[derive(Debug)]
pub struct FunctionInfo {
    pub name: String,
    pub parameters: Vec<String>,
    pub return_type: Option<String>,
    pub complexity: u64,
    pub dependencies: Vec<String>,
}

/// Spec-level value of a [`FunctionInfo`].
pub struct FunctionInfoView {
    pub name: Seq<char>,
    pub parameters: Seq<Seq<char>>,
    pub return_type: Option<Seq<char>>,
    pub complexity: u64,
    pub dependencies: Seq<Seq<char>>,
}

impl View for FunctionInfo {
    type V = FunctionInfoView;

    open spec fn view(&self) -> FunctionInfoView {
        FunctionInfoView {
            name: self.name@,
            parameters: self.parameters@.map_values(|p: String| p@),
            return_type: match self.return_type {
                Some(t) => Some(t@),
                None => None,
            },
            complexity: self.complexity,
            dependencies: self.dependencies@.map_values(|d: String| d@),
        }
    }
}

impl Clone for FunctionInfo {
    fn clone(&self) -> (r: Self)
        ensures
            r@ == self@,
    {
        let r = FunctionInfo {
            name: self.name.clone(),
            parameters: crate::clone_strings(&self.parameters),
            return_type: match &self.return_type {
                Some(t) => Some(t.clone()),
                None => None,
            },
            complexity: self.complexity,
            dependencies: crate::clone_strings(&self.dependencies),
        };
        proof {
            assert(r@.parameters =~= self@.parameters);
            assert(r@.dependencies =~= self@.dependencies);
        }
        r
    }
}

/// The kind of a recorded type.
#[derive(Debug, Clone, Copy, PartialEq, Eq, Structural)]
pub enum TypeKind {
    Struct,
    Enum,
    Trait,
    Interface,
}

/// What the analyzer records about one type.
#[derive(Debug)]
pub struct TypeInfo {
    pub name: String,
    pub kind: TypeKind,
    pub fields: Vec<String>,
}

/// Spec-level value of a [`TypeInfo`].
pub struct TypeInfoView {
    pub name: Seq<char>,
    pub kind: TypeKind,
    pub fields: Seq<Seq<char>>,
}

impl View for TypeInfo {
    type V = TypeInfoView;

    open spec fn view(&self) -> TypeInfoView {
        TypeInfoView {
            name: self.name@,
            kind: self.kind,
            fields: self.fields@.map_values(|f: String| f@),
        }
    }
}

impl Clone for TypeInfo {
    fn clone(&self) -> (r: Self)
        ensures
            r@ == self@,
    {
        let r = TypeInfo {
            name: self.name.clone(),
            kind: self.kind,
            fields: crate::clone_strings(&self.fields),
        };
        proof {
            assert(r@.fields =~= self@.fields);
        }
        r
    }
}

/// Everything the analyzer derives from one file.
#[derive(Debug)]
pub struct SemanticContext {
    pub imports: Vec<String>,
    pub functions: Vec<FunctionInfo>,
    pub types: Vec<TypeInfo>,
    pub dependencies: Vec<String>,
}

/// Spec-level value of a [`SemanticContext`].
pub struct SemanticContextView {
    pub imports: Seq<Seq<char>>,
    pub functions: Seq<FunctionInfoView>,
    pub types: Seq<TypeInfoView>,
    pub dependencies: Seq<Seq<char>>,
}

impl View for SemanticContext {
    type V = SemanticContextView;

    open spec fn view(&self) -> SemanticContextView {
        SemanticContextView {
            imports: self.imports@.map_values(|s: String| s@),
            functions: self.functions@.map_values(|f: FunctionInfo| f@),
            types: self.types@.map_values(|t: TypeInfo| t@),
            dependencies: self.dependencies@.map_values(|d: String| d@),
        }
    }
}

impl Clone for SemanticContext {
    fn clone(&self) -> (r: Self)
        ensures
            r@ == self@,
    {
        let r = SemanticContext {
            imports: crate::clone_strings(&self.imports),
            functions: clone_functions(&self.functions),
            types: clone_types(&self.types),
            dependencies: crate::clone_strings(&self.dependencies),
        };
        proof {
            assert(r@.imports =~= self@.imports);
            assert(r@.functions =~= self@.functions);
            assert(r@.types =~= self@.types);
            assert(r@.dependencies =~= self@.dependencies);
        }
        r
    }
}

fn clone_functions(v: &Vec<FunctionInfo>) -> (r: Vec<FunctionInfo>)
    ensures
        r@.map_values(|f: FunctionInfo| f@) == v@.map_values(|f: FunctionInfo| f@),
{
    let mut r: Vec<FunctionInfo> = Vec::new();
    let mut i: usize = 0;
    while i < v.len()
        invariant
            i <= v@.len(),
            r@.len() == i,
            forall|j: int| 0 <= j < i ==> r@[j]@ == v@[j]@,
        decreases v@.len() - i,
    {
        r.push(v[i].clone());
        i = i + 1;
    }
    proof {
        assert(r@.map_values(|f: FunctionInfo| f@) =~= v@.map_values(|f: FunctionInfo| f@));
    }
    r
}

fn clone_types(v: &Vec<TypeInfo>) -> (r: Vec<TypeInfo>)
    ensures
        r@.map_values(|t: TypeInfo| t@) == v@.map_values(|t: TypeInfo| t@),
{
    let mut r: Vec<TypeInfo> = Vec::new();
    let mut i: usize = 0;
    while i < v.len()
        invariant
            i <= v@.len(),
            r@.len() == i,
            forall|j: int| 0 <= j < i ==> r@[j]@ == v@[j]@,
        decreases v@.len() - i,
    {
        r.push(v[i].clone());
        i = i + 1;
    }
    proof {
        assert(r@.map_values(|t: TypeInfo| t@) =~= v@.map_values(|t: TypeInfo| t@));
    }
    r
}

/// What the analyzer records for one function definition.
pub open spec fn fn_info_of(f: RustFn) -> FunctionInfoView {
    FunctionInfoView {
        name: f.name@,
        parameters: f.parameters@.map_values(|p: String| p@),
        return_type: None,
        complexity: cap_weight(body_weight(f.body@)),
        dependencies: Seq::empty(),
    }
}

/// The records of the methods of an `impl` block, in order.
pub open spec fn impl_fn_infos(fs: Seq<RustFn>) -> Seq<FunctionInfoView>
    decreases fs,
{
    if fs.len() == 0 {
        Seq::empty()
    } else {
        impl_fn_infos(fs.drop_last()).push(fn_info_of(fs.last()))
    }
}

/// All leaf names imported by a file's `use` items, in order.
pub open spec fn file_imports(items: Seq<RustItem>) -> Seq<Seq<char>>
    decreases items,
{
    if items.len() == 0 {
        Seq::empty()
    } else {
        file_imports(items.drop_last()) + match items.last() {
            RustItem::Use(t) => tree_imports(t),
            _ => Seq::<Seq<char>>::empty(),
        }
    }
}

/// The records of all functions and methods of a file, in order.
pub open spec fn file_functions(items: Seq<RustItem>) -> Seq<FunctionInfoView>
    decreases items,
{
    if items.len() == 0 {
        Seq::empty()
    } else {
        file_functions(items.drop_last()) + match items.last() {
            RustItem::Fn(f) => seq![fn_info_of(f)],
            RustItem::Impl(fs) => impl_fn_infos(fs@),
            _ => Seq::<FunctionInfoView>::empty(),
        }
    }
}

/// The records of all struct definitions of a file, in order.
pub open spec fn file_types(items: Seq<RustItem>) -> Seq<TypeInfoView>
    decreases items,
{
    if items.len() == 0 {
        Seq::empty()
    } else {
        file_types(items.drop_last()) + match items.last() {
            RustItem::Struct { name, fields } => seq![
                TypeInfoView {
                    name: name@,
                    kind: TypeKind::Struct,
                    fields: fields@.map_values(|f: String| f@),
                },
            ],
            _ => Seq::<TypeInfoView>::empty(),
        }
    }
}

/// Some optimization suggestion's description names this function.
pub open spec fn opts_mention(
    opts: Seq<crate::ai_enhanced::OptimizationSuggestionView>,
    name: Seq<char>,
) -> bool {
    exists|i: int|
        0 <= i < opts.len() && crate::text::has_sub((#[trigger] opts[i]).description, name)
}

/// A function record after the AI merge: one extra complexity point
/// (saturating) when a suggestion names it.
pub open spec fn merged_fn(
    f: FunctionInfoView,
    opts: Seq<crate::ai_enhanced::OptimizationSuggestionView>,
) -> FunctionInfoView {
    if opts_mention(opts, f.name) {
        FunctionInfoView {
            complexity: if f.complexity == u64::MAX {
                u64::MAX
            } else {
                (f.complexity + 1) as u64
            },
            ..f
        }
    } else {
        f
    }
}

/// The descriptions of the recommendations that speak of a dependency.
pub open spec fn dependency_mentions(
    recs: Seq<crate::ai_enhanced::SecurityRecommendationView>,
) -> Seq<Seq<char>>
    decreases recs.len(),
{
    if recs.len() == 0 {
        Seq::empty()
    } else {
        dependency_mentions(recs.drop_last()) + if crate::text::has_sub(
            recs.last().description,
            "dependency"@,
        ) {
            seq![recs.last().description]
        } else {
            Seq::<Seq<char>>::empty()
        }
    }
}

/// Tests whether any suggestion's description names the function.
fn suggestion_mentions(
    opts: &Vec<crate::ai_enhanced::OptimizationSuggestion>,
    name: &String,
) -> (r: bool)
    ensures
        r == opts_mention(
            opts@.map_values(|o: crate::ai_enhanced::OptimizationSuggestion| o@),
            name@,
        ),
{
    let nm = crate::text::str_chars(name.as_str());
    let ghost ov = opts@.map_values(|o: crate::ai_enhanced::OptimizationSuggestion| o@);
    let mut i: usize = 0;
    while i < opts.len()
        invariant
            i <= opts@.len(),
            nm@ == name@,
            ov == opts@.map_values(|o: crate::ai_enhanced::OptimizationSuggestion| o@),
            forall|j: int|
                0 <= j < i ==> !crate::text::has_sub((#[trigger] ov[j]).description, name@),
        decreases opts@.len() - i,
    {
        let desc = crate::text::str_chars(opts[i].description.as_str());
        proof {
            assert(ov[i as int] == opts@[i as int]@);
        }
        if crate::text::contains_sub(&desc, &nm) {
            return true;
        }
        i = i + 1;
    }
    false
}

/// The syntax-aware analyzer. It is stateless; one value can analyze
/// any number of files.
#[derive(Debug)]
pub struct SemanticAnalyzer {
    queries: Vec<String>,
}

impl Default for SemanticAnalyzer {
    fn default() -> (r: Self) {
        Self::new()
    }
}

impl SemanticAnalyzer {
    /// Creates a new semantic analyzer.
    pub fn new() -> (r: Self) {
        SemanticAnalyzer { queries: Vec::new() }
    }

    /// Analyzes the items of a parsed Rust file: collects the imported
    /// names, every function and method with its branch complexity, and
    /// every struct definition.
    #[verifier::loop_isolation(false)]
    pub fn analyze_rust(file: &RustFile) -> (ctx: SemanticContext)
        ensures
            ctx@.imports == file_imports(file.items@),
            ctx@.functions == file_functions(file.items@),
            ctx@.types == file_types(file.items@),
            ctx@.dependencies == Seq::<Seq<char>>::empty(),
    {
        let mut imports: Vec<String> = Vec::new();
        let mut functions: Vec<FunctionInfo> = Vec::new();
        let mut types: Vec<TypeInfo> = Vec::new();
        let items = &file.items;
        let mut i: usize = 0;
        proof {
            assert(items@.take(0) =~= Seq::<RustItem>::empty());
            assert(imports@.map_values(|s: String| s@) =~= file_imports(items@.take(0)));
            assert(functions@.map_values(|f: FunctionInfo| f@) =~= file_functions(
                items@.take(0),
            ));
            assert(types@.map_values(|t: TypeInfo| t@) =~= file_types(items@.take(0)));
        }
        while i < items.len()
            invariant
                i <= items@.len(),
                imports@.map_values(|s: String| s@) == file_imports(items@.take(i as int)),
                functions@.map_values(|f: FunctionInfo| f@) == file_functions(
                    items@.take(i as int),
                ),
                types@.map_values(|t: TypeInfo| t@) == file_types(items@.take(i as int)),
            decreases items@.len() - i,
        {
            let ghost imports_before = imports@.map_values(|s: String| s@);
            let ghost functions_before = functions@.map_values(|f: FunctionInfo| f@);
            let ghost types_before = types@.map_values(|t: TypeInfo| t@);
            proof {
                assert(items@.take(i + 1).drop_last() =~= items@.take(i as int));
                assert(items@.take(i + 1).last() == items@[i as int]);
            }
            match &items[i] {
                RustItem::Use(t) => {
                    extract_imports(t, &mut imports);
                },
                RustItem::Fn(f) => {
                    let info = FunctionInfo {
                        name: f.name.clone(),
                        parameters: crate::clone_strings(&f.parameters),
                        return_type: None,
                        complexity: block_complexity(&f.body),
                        dependencies: Vec::new(),
                    };
                    proof {
                        assert(info@.parameters =~= fn_info_of(*f).parameters);
                        assert(info@.dependencies =~= fn_info_of(*f).dependencies);
                        assert(info@ == fn_info_of(*f));
                    }
                    functions.push(info);
                    proof {
                        assert(functions@.map_values(|x: FunctionInfo| x@) =~= functions_before
                            + seq![fn_info_of(items@[i as int]->Fn_0)]);
                    }
                },
                RustItem::Impl(fs) => {
                    let mut j: usize = 0;
                    proof {
                        assert(fs@.take(0) =~= Seq::<RustFn>::empty());
                        assert(functions_before + impl_fn_infos(fs@.take(0)) =~= functions_before);
                    }
                    while j < fs.len()
                        invariant
                            j <= fs@.len(),
                            functions@.map_values(|x: FunctionInfo| x@) == functions_before
                                + impl_fn_infos(fs@.take(j as int)),
                        decreases fs@.len() - j,
                    {
                        let f = &fs[j];
                        let info = FunctionInfo {
                            name: f.name.clone(),
                            parameters: crate::clone_strings(&f.parameters),
                            return_type: None,
                            complexity: block_complexity(&f.body),
                            dependencies: Vec::new(),
                        };
                        proof {
                            assert(info@.parameters =~= fn_info_of(*f).parameters);
                            assert(info@.dependencies =~= fn_info_of(*f).dependencies);
                            assert(info@ == fn_info_of(*f));
                            assert(fs@.take(j + 1).drop_last() =~= fs@.take(j as int));
                            assert(fs@.take(j + 1).last() == fs@[j as int]);
                        }
                        let ghost fns_mid = functions@.map_values(|x: FunctionInfo| x@);
                        functions.push(info);
                        proof {
                            assert(impl_fn_infos(fs@.take(j + 1)) == impl_fn_infos(
                                fs@.take(j as int),
                            ).push(fn_info_of(fs@[j as int])));
                            assert(functions@.map_values(|x: FunctionInfo| x@) =~= fns_mid.push(
                                fn_info_of(fs@[j as int]),
                            ));
                            assert(fns_mid.push(fn_info_of(fs@[j as int])) =~= functions_before
                                + impl_fn_infos(fs@.take(j + 1)));
                        }
                        j = j + 1;
                    }
                    proof {
                        assert(fs@.take(fs@.len() as int) =~= fs@);
                    }
                },
                RustItem::Struct { name, fields } => {
                    let info = TypeInfo {
                        name: name.clone(),
                        kind: TypeKind::Struct,
                        fields: crate::clone_strings(fields),
                    };
                    types.push(info);
                    proof {
                        assert(types@.map_values(|t: TypeInfo| t@) =~= file_types(
                            items@.take(i + 1),
                        ));
                    }
                },
                RustItem::Other => {},
            }
            proof {
                assert(imports@.map_values(|s: String| s@) =~= file_imports(items@.take(i + 1)));
                assert(functions@.map_values(|f: FunctionInfo| f@) =~= file_functions(
                    items@.take(i + 1),
                ));
                assert(types@.map_values(|t: TypeInfo| t@) =~= file_types(items@.take(i + 1)));
            }
            i = i + 1;
        }
        proof {
            assert(items@.take(items@.len() as int) =~= items@);
        }
        let ctx = SemanticContext { imports, functions, types, dependencies: Vec::new() };
        proof {
            assert(ctx@.dependencies =~= Seq::<Seq<char>>::empty());
        }
        ctx
    }

    /// Merges a semantic context with an AI answer: a function named in
    /// an optimization suggestion gains one complexity point (saturating),
    /// and recommendations that speak of a dependency are appended to the
    /// dependency list.
    #[verifier::loop_isolation(false)]
    pub fn merge_with_ai_analysis(
        &self,
        semantic: &SemanticContext,
        ai: &crate::ai_enhanced::AIAnalysisResult,
    ) -> (r: SemanticContext)
        ensures
            r@.imports == semantic@.imports,
            r@.types == semantic@.types,
            r@.functions.len() == semantic@.functions.len(),
            forall|i: int|
                0 <= i < r@.functions.len() ==> #[trigger] r@.functions[i] == merged_fn(
                    semantic@.functions[i],
                    ai@.optimization_suggestions,
                ),
            r@.dependencies == semantic@.dependencies + dependency_mentions(
                ai@.security_recommendations,
            ),
    {
        let mut functions: Vec<FunctionInfo> = Vec::new();
        let mut i: usize = 0;
        while i < semantic.functions.len()
            invariant
                i <= semantic@.functions.len(),
                functions@.len() == i,
                forall|j: int|
                    0 <= j < i ==> #[trigger] functions@[j]@ == merged_fn(
                        semantic@.functions[j],
                        ai@.optimization_suggestions,
                    ),
            decreases semantic@.functions.len() - i,
        {
            let f = &semantic.functions[i];
            let mut merged = f.clone();
            if suggestion_mentions(&ai.optimization_suggestions, &f.name) {
                if merged.complexity < u64::MAX {
                    merged.complexity = merged.complexity + 1;
                }
            }
            proof {
                assert(semantic@.functions[i as int] == semantic.functions@[i as int]@);
            }
            functions.push(merged);
            i = i + 1;
        }
        let mut dependencies = crate::clone_strings(&semantic.dependencies);
        let mut j: usize = 0;
        let ghost base = semantic@.dependencies;
        proof {
            assert(dependencies@.map_values(|s: String| s@) =~= base);
            assert(ai@.security_recommendations.take(0) =~= Seq::<
                crate::ai_enhanced::SecurityRecommendationView,
            >::empty());
            assert(base + dependency_mentions(ai@.security_recommendations.take(0)) =~= base);
        }
        while j < ai.security_recommendations.len()
            invariant
                j <= ai@.security_recommendations.len(),
                dependencies@.map_values(|s: String| s@) == base + dependency_mentions(
                    ai@.security_recommendations.take(j as int),
                ),
            decreases ai@.security_recommendations.len() - j,
        {
            let ghost before = dependencies@.map_values(|s: String| s@);
            proof {
                let rs = ai@.security_recommendations;
                assert(rs.take(j + 1).drop_last() =~= rs.take(j as int));
                assert(rs.take(j + 1).last() == rs[j as int]);
                assert(rs[j as int] == ai.security_recommendations@[j as int]@);
            }
            let rec = &ai.security_recommendations[j];
            let desc = crate::text::str_chars(rec.description.as_str());
            let pat = crate::text::str_chars("dependency");
            if crate::text::contains_sub(&desc, &pat) {
                dependencies.push(rec.description.clone());
                proof {
                    assert(dependencies@.map_values(|s: String| s@) =~= before + seq![
                        rec.description@,
                    ]);
                }
            }
            j = j + 1;
        }
        proof {
            assert(ai@.security_recommendations.take(ai@.security_recommendations.len() as int)
                =~= ai@.security_recommendations);
        }
        let r = SemanticContext {
            imports: crate::clone_strings(&semantic.imports),
            functions,
            types: clone_types(&semantic.types),
            dependencies,
        };
        proof {
            assert(r@.imports =~= semantic@.imports);
            assert(r@.types =~= semantic@.types);
        }
        r
    }

    /// Analyzes a parsed file under its path: Rust sources are analyzed,
    /// a path without an extension is invalid, and any other extension
    /// is an unsupported language.
    pub fn analyze_file(&self, path: &String, file: &RustFile) -> (r: Result<
        SemanticContext,
        SemanticError,
    >)
        ensures
            match r {
                Ok(ctx) => crate::ext_of_spec(path@) == Some("rs"@) && ctx@.imports
                    == file_imports(file.items@) && ctx@.functions == file_functions(file.items@)
                    && ctx@.types == file_types(file.items@) && ctx@.dependencies == Seq::<
                    Seq<char>,
                >::empty(),
                Err(SemanticError::InvalidPath(m)) => crate::ext_of_spec(path@) is None && m@
                    == "Failed to get file extension"@,
                Err(SemanticError::UnsupportedLanguage(e)) => crate::ext_of_spec(path@) == Some(
                    e@,
                ) && e@ != "rs"@,
                _ => false,
            },
    {
        let chars = crate::text::str_chars(path.as_str());
        match crate::ext_of(&chars) {
            None => Err(SemanticError::InvalidPath("Failed to get file extension".to_owned())),
            Some(e) => {
                let rs = crate::text::str_chars("rs");
                let es = crate::text::chars_to_string(&e);
                if crate::eq_chars(&e, &rs) {
                    Ok(Self::analyze_rust(file))
                } else {
                    Err(SemanticError::UnsupportedLanguage(es))
                }
            },
        }
    }
}

} // verus!
