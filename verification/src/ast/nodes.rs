//! The kinds of nodes of the syntax tree.  Nodes refer to one another by
//! identifiers into the arenas of a `Module`.
use vstd::prelude::*;

use crate::ast::operators::{BinaryOperator, ComprehensionKind, TypeSpecifier, UnaryOperator};
use crate::ast::module::{BodyId, ExprId, FunctionClauseId, GuardSeqId, PatternId};
use crate::bigint::IntLiteral;

verus! {

pub type VarNum = u32;

pub type ASTSize = usize;

pub type Arity = u32;

pub type Atom = String;

/// A clause of a `case`, `try` or `maybe ... else`: pattern, guard, body.
pub type CaseClause = (PatternId, GuardSeqId, BodyId);

/// A segment of a bitstring construction: value, optional size, type.
pub type BitstringElement = (ExprId, Option<ExprId>, TypeSpecifier);

/// A segment of a bitstring pattern: pattern, optional size, type.
pub type BitstringPatternElement = (PatternId, Option<ExprId>, TypeSpecifier);

/// An Erlang expression.
#[derive(Clone, Debug)]
pub enum Expr {
    Var(VarNum),
    Nil(),
    Atom(Atom),
    Integer(IntLiteral),
    /// A float literal, held as the text that Erlang reads it from.
    Float(String),
    String(String),
    LocalCall(String, Vec<ExprId>),
    RemoteCall(String, String, Vec<ExprId>),
    Tuple(Vec<ExprId>),
    Catch(ExprId),
    BinaryOperation(BinaryOperator, ExprId, ExprId),
    UnaryOperation(UnaryOperator, ExprId),
    Case(ExprId, Vec<CaseClause>),
    Assignment(PatternId, ExprId),
    MapLiteral(Vec<(ExprId, ExprId)>),
    MapInsertion(ExprId, ExprId, ExprId),
    MapUpdate(ExprId, ExprId, ExprId),
    BitstringConstruction(Vec<BitstringElement>),
    Fun(Option<VarNum>, Vec<FunctionClauseId>),
    Comprehension(ComprehensionKind, ExprId, Vec<ComprehensionElement>),
    MapComprehension(ExprId, ExprId, Vec<ComprehensionElement>),
    /// Exprs, the "of" section, the "catch" section, the "after" section.
    Try(BodyId, Option<Vec<CaseClause>>, Option<Vec<CaseClause>>, Option<BodyId>),
    /// The expressions and the "else" section.
    Maybe(Vec<MaybeExpr>, Option<Vec<CaseClause>>),
    Block(BodyId),
}

/// A generator or filter of a comprehension.
#[derive(Clone, Debug, Copy)]
pub enum ComprehensionElement {
    ListGenerator(PatternId, ExprId),
    BitstringGenerator(PatternId, ExprId),
    MapGenerator(PatternId, PatternId, ExprId),
    Filter(ExprId),
}

/// An expression of a `maybe` block: plain, or a `?=` match.
#[derive(Copy, Clone, Debug)]
pub enum MaybeExpr {
    Normal(ExprId),
    MaybeAssignment(PatternId, ExprId),
}

/// A sequence of expressions, separated by commas.
#[derive(Debug, Clone)]
pub struct Body {
    pub exprs: Vec<ExprId>,
}

/// An Erlang pattern.
#[derive(Clone, Debug)]
pub enum Pattern {
    Nil(),
    Atom(Atom),
    Integer(IntLiteral),
    Underscore(),
    NamedVar(VarNum),
    /// p1 = p2
    EqualPatterns(PatternId, PatternId),
    Tuple(Vec<PatternId>),
    /// [H | T]
    List(PatternId, PatternId),
    Bitstring(Vec<BitstringPatternElement>),
    MapPattern(Vec<(ExprId, PatternId)>),
}

/// The guards of a clause; none means no `when` part.
#[derive(Debug, Default)]
pub struct GuardSeq {
    pub guards: Vec<ExprId>,
}

/// A clause of a function: name, argument patterns, guard and body.
#[derive(Debug)]
pub struct FunctionClause {
    pub name: String,
    pub args: Vec<PatternId>,
    pub guard: GuardSeqId,
    pub body: BodyId,
}

/// A function: its clauses (at least one, each with the declaration's name
/// and arity), name and arity.
#[derive(Debug)]
pub struct FunctionDeclaration {
    pub clauses: Vec<FunctionClauseId>,
    pub name: String,
    pub arity: Arity,
}

} // verus!
