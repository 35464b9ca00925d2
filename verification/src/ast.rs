//! Abstract syntax tree node definitions.
//!
//! All text (identifiers, literal bodies) is held as bytes; the grammar in
//! `parser` produces these nodes and the resolver in `ltype` consumes them.
//! Every node owns its children exclusively: the tree has no sharing.

use vstd::prelude::*;

verus! {

/// A parameter: its name and its surface type annotation.
pub type NameType = (Vec<u8>, TypeExpr);

/// A surface (syntactic) type annotation as written in source text.
#[derive(Debug, PartialEq)]
pub enum TypeExpr {
    /// A named primitive type, e.g. `i32`.
    Ident(Vec<u8>),
    /// An array shape `[element; size]`. The size slot holds an expression
    /// node, constrained by the resolver to be an integer literal.
    Array(Box<TypeExpr>, Box<Expr>),
    /// The void marker (an omitted return type).
    Void,
}

/// The AST node for expressions and statements.
#[derive(Debug, PartialEq)]
pub enum Expr {
    /// An integer literal: a non-empty digit sequence, kept as text.
    Literal(Vec<u8>),
    /// A character literal body, escapes already decoded. The grammar does
    /// not enforce single-character length: it is a short string.
    Char(Vec<u8>),
    /// A string literal body, escapes already decoded.
    String(Vec<u8>),
    /// An array literal: element type and the ordered element expressions.
    Array(TypeExpr, Vec<Expr>),
    /// Array indexing: base, index, and an optional element-type override
    /// that reinterprets the element stride.
    ArrayAccess(Box<Expr>, Box<Expr>, Option<TypeExpr>),
    /// A reference to a name.
    Identifier(Vec<u8>),
    /// A variable declaration `name: Type = init`.
    DefVar(NameType, Box<Expr>),
    /// An assignment to an addressable expression.
    Assign(Box<Expr>, Box<Expr>),
    Eq(Box<Expr>, Box<Expr>),
    Ne(Box<Expr>, Box<Expr>),
    Lt(Box<Expr>, Box<Expr>),
    Le(Box<Expr>, Box<Expr>),
    Gt(Box<Expr>, Box<Expr>),
    Ge(Box<Expr>, Box<Expr>),
    And(Box<Expr>, Box<Expr>),
    Or(Box<Expr>, Box<Expr>),
    Add(Box<Expr>, Box<Expr>),
    Sub(Box<Expr>, Box<Expr>),
    Mul(Box<Expr>, Box<Expr>),
    Div(Box<Expr>, Box<Expr>),
    /// `if cond { then } else { else }`; the else-less form carries an
    /// empty else-sequence.
    IfElse(Box<Expr>, Vec<Expr>, Vec<Expr>),
    /// `while cond { body }`.
    WhileLoop(Box<Expr>, Vec<Expr>),
    /// A call: callee name and ordered arguments.
    Call(Vec<u8>, Vec<Expr>),
    /// The `&identifier` marker form; its semantic role belongs to a
    /// downstream consumer.
    TestVal(Vec<u8>),
    /// A forward function declaration (prototype only).
    DefFunc(DefFuncExpr),
    /// A full function definition.
    Function(FunctionExpr),
    /// `return value;` or bare `return;`.
    Return(Option<Box<Expr>>),
}

/// A function attribute. The only current member marks a function as having
/// fixed (unmangled) external linkage.
#[derive(Debug, Clone, Copy, PartialEq, Eq, Hash)]
pub enum FunctionModifier {
    NoMangle,
}

/// A set (unordered, unique) over [`FunctionModifier`]. The enumeration has
/// a single member, so one flag represents the whole set.
#[derive(Debug, Clone, Copy, PartialEq)]
pub struct ModifierSet {
    pub no_mangle: bool,
}

impl ModifierSet {
    /// The mathematical set this value stands for.
    pub open spec fn to_set(self) -> Set<FunctionModifier> {
        if self.no_mangle {
            set![FunctionModifier::NoMangle]
        } else {
            Set::<FunctionModifier>::empty()
        }
    }

    pub fn empty() -> (r: ModifierSet)
        ensures
            !r.no_mangle,
            r.to_set() == Set::<FunctionModifier>::empty(),
    {
        ModifierSet { no_mangle: false }
    }

    pub fn with_no_mangle() -> (r: ModifierSet)
        ensures
            r.no_mangle,
            r.to_set() == set![FunctionModifier::NoMangle],
    {
        ModifierSet { no_mangle: true }
    }

    pub fn insert(&mut self, m: FunctionModifier)
        ensures
            final(self).to_set() == old(self).to_set().insert(m),
            final(self).no_mangle,
    {
        match m {
            FunctionModifier::NoMangle => {
                self.no_mangle = true;
            },
        }
        proof {
            assert(self.to_set() =~= old(self).to_set().insert(m));
        }
    }

    pub fn contains(&self, m: FunctionModifier) -> (r: bool)
        ensures
            r == self.to_set().contains(m),
    {
        match m {
            FunctionModifier::NoMangle => self.no_mangle,
        }
    }
}

/// A forward function declaration: a head without a body.
#[derive(Debug, PartialEq)]
pub struct DefFuncExpr {
    pub name: Vec<u8>,
    pub params: Vec<NameType>,
    pub return_type: TypeExpr,
    pub modifiers: ModifierSet,
}

/// A full function definition.
#[derive(Debug, PartialEq)]
pub struct FunctionExpr {
    pub name: Vec<u8>,
    pub params: Vec<NameType>,
    pub return_type: TypeExpr,
    pub stmts: Vec<Expr>,
    pub modifiers: ModifierSet,
}

} // verus!
