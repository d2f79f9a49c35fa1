//! The module: its header, its function declarations, and the arenas that
//! hold its nodes.
use vstd::prelude::*;

use crate::ast::nodes::{Body, Expr, FunctionClause, FunctionDeclaration, GuardSeq, Pattern};
use crate::ast::traits::NodeId;
use crate::ast::wf::{
    body_refs, clause_refs, expr_refs, extends_by, guard_refs, lemma_extend_wf, pattern_refs, NodeKey, NodeRef,
};

verus! {

/// A reference to an expression of a module.
#[derive(Debug, Clone, Copy)]
pub struct ExprId(u32);

/// A reference to a pattern of a module.
#[derive(Debug, Clone, Copy)]
pub struct PatternId(u32);

/// A reference to a function clause of a module.
#[derive(Debug, Clone, Copy)]
pub struct FunctionClauseId(u32);

/// A reference to a body of a module.
#[derive(Debug, Clone, Copy)]
pub struct BodyId(u32);

/// A reference to a guard sequence of a module.
#[derive(Debug, Clone, Copy)]
pub struct GuardSeqId(u32);

impl ExprId {
    /// The node the identifier refers to, as a key.
    pub fn key(&self) -> (r: NodeKey)
        ensures
            r@ == NodeRef::Expr(self.index()),
    {
        NodeKey::Expr(self.0)
    }

    /// The position of the expression in its module.
    pub closed spec fn index(self) -> nat {
        self.0 as nat
    }
}

impl PatternId {
    /// The node the identifier refers to, as a key.
    pub fn key(&self) -> (r: NodeKey)
        ensures
            r@ == NodeRef::Pattern(self.index()),
    {
        NodeKey::Pattern(self.0)
    }

    /// The position of the pattern in its module.
    pub closed spec fn index(self) -> nat {
        self.0 as nat
    }
}

impl FunctionClauseId {
    /// The node the identifier refers to, as a key.
    pub fn key(&self) -> (r: NodeKey)
        ensures
            r@ == NodeRef::Clause(self.index()),
    {
        NodeKey::Clause(self.0)
    }

    /// Whether the identifier refers to one of the first `n` function clauses.
    pub(crate) fn in_range(&self, n: usize) -> (r: bool)
        ensures
            r == (self.index() < n),
    {
        (self.0 as usize) < n
    }

    /// The position of the function clause in its module.
    pub closed spec fn index(self) -> nat {
        self.0 as nat
    }
}

impl BodyId {
    /// The node the identifier refers to, as a key.
    pub fn key(&self) -> (r: NodeKey)
        ensures
            r@ == NodeRef::Body(self.index()),
    {
        NodeKey::Body(self.0)
    }

    /// The position of the body in its module.
    pub closed spec fn index(self) -> nat {
        self.0 as nat
    }
}

impl GuardSeqId {
    /// The node the identifier refers to, as a key.
    pub fn key(&self) -> (r: NodeKey)
        ensures
            r@ == NodeRef::Guard(self.index()),
    {
        NodeKey::Guard(self.0)
    }

    /// The position of the guard sequence in its module.
    pub closed spec fn index(self) -> nat {
        self.0 as nat
    }
}


/// The settings a module was generated with, written in its header.
#[derive(Debug)]
pub struct Config {
    pub max_size: usize,
    pub max_recursion_depth: usize,
    pub disable_shadowing: bool,
    pub disable_maybe: bool,
    pub deterministic: bool,
    pub wrapper_mode: String,
}

/// A generated Erlang module: its header, its function declarations and
/// the arenas of its nodes, which refer to one another by position.
#[derive(Debug)]
pub struct Module<'a> {
    pub module_name: &'a str,
    pub initial_seed: u64,
    pub functions: Vec<FunctionDeclaration>,
    config: Config,
    patterns: Vec<Pattern>,
    exprs: Vec<Expr>,
    function_clauses: Vec<FunctionClause>,
    bodies: Vec<Body>,
    guard_seqs: Vec<GuardSeq>,
}

impl<'a> Module<'a> {
    /// The settings the module was made with.
    pub closed spec fn spec_config(&self) -> Config {
        self.config
    }

    /// The module's name.
    pub closed spec fn spec_module_name(&self) -> &'a str {
        self.module_name
    }

    /// The seed the module was generated from.
    pub closed spec fn spec_initial_seed(&self) -> u64 {
        self.initial_seed
    }

    /// The module's function declarations.
    pub closed spec fn spec_functions(&self) -> Seq<FunctionDeclaration> {
        self.functions@
    }

    /// The patterns of the module, in the order they were added.
    pub closed spec fn spec_patterns(&self) -> Seq<Pattern> {
        self.patterns@
    }

    /// The exprs of the module, in the order they were added.
    pub closed spec fn spec_exprs(&self) -> Seq<Expr> {
        self.exprs@
    }

    /// The function clauses of the module, in the order they were added.
    pub closed spec fn spec_function_clauses(&self) -> Seq<FunctionClause> {
        self.function_clauses@
    }

    /// The bodies of the module, in the order they were added.
    pub closed spec fn spec_bodies(&self) -> Seq<Body> {
        self.bodies@
    }

    /// The guard seqs of the module, in the order they were added.
    pub closed spec fn spec_guard_seqs(&self) -> Seq<GuardSeq> {
        self.guard_seqs@
    }

    /// `self` and `other` agree on everything but their patterns.
    pub open spec fn same_except_patterns(&self, other: &Self) -> bool {
            self.spec_module_name() == other.spec_module_name()
            && self.spec_initial_seed() == other.spec_initial_seed()
            && self.spec_functions() == other.spec_functions()
            && self.spec_config() == other.spec_config()
            && self.spec_exprs() == other.spec_exprs()
            && self.spec_function_clauses() == other.spec_function_clauses()
            && self.spec_bodies() == other.spec_bodies()
            && self.spec_guard_seqs() == other.spec_guard_seqs()
    }

    /// `self` and `other` agree on everything but their exprs.
    pub open spec fn same_except_exprs(&self, other: &Self) -> bool {
            self.spec_module_name() == other.spec_module_name()
            && self.spec_initial_seed() == other.spec_initial_seed()
            && self.spec_functions() == other.spec_functions()
            && self.spec_config() == other.spec_config()
            && self.spec_patterns() == other.spec_patterns()
            && self.spec_function_clauses() == other.spec_function_clauses()
            && self.spec_bodies() == other.spec_bodies()
            && self.spec_guard_seqs() == other.spec_guard_seqs()
    }

    /// `self` and `other` agree on everything but their function clauses.
    pub open spec fn same_except_function_clauses(&self, other: &Self) -> bool {
            self.spec_module_name() == other.spec_module_name()
            && self.spec_initial_seed() == other.spec_initial_seed()
            && self.spec_functions() == other.spec_functions()
            && self.spec_config() == other.spec_config()
            && self.spec_patterns() == other.spec_patterns()
            && self.spec_exprs() == other.spec_exprs()
            && self.spec_bodies() == other.spec_bodies()
            && self.spec_guard_seqs() == other.spec_guard_seqs()
    }

    /// `self` and `other` agree on everything but their bodies.
    pub open spec fn same_except_bodies(&self, other: &Self) -> bool {
            self.spec_module_name() == other.spec_module_name()
            && self.spec_initial_seed() == other.spec_initial_seed()
            && self.spec_functions() == other.spec_functions()
            && self.spec_config() == other.spec_config()
            && self.spec_patterns() == other.spec_patterns()
            && self.spec_exprs() == other.spec_exprs()
            && self.spec_function_clauses() == other.spec_function_clauses()
            && self.spec_guard_seqs() == other.spec_guard_seqs()
    }

    /// `self` and `other` agree on everything but their guard seqs.
    pub open spec fn same_except_guard_seqs(&self, other: &Self) -> bool {
            self.spec_module_name() == other.spec_module_name()
            && self.spec_initial_seed() == other.spec_initial_seed()
            && self.spec_functions() == other.spec_functions()
            && self.spec_config() == other.spec_config()
            && self.spec_patterns() == other.spec_patterns()
            && self.spec_exprs() == other.spec_exprs()
            && self.spec_function_clauses() == other.spec_function_clauses()
            && self.spec_bodies() == other.spec_bodies()
    }

    /// The number of patterns of the module.
    pub fn patterns_len(&self) -> (r: usize)
        ensures
            r == self.spec_patterns().len(),
    {
        self.patterns.len()
    }

    /// The pattern at position `i`.
    pub(crate) fn pattern_at(&self, i: usize) -> (r: &Pattern)
        requires
            i < self.spec_patterns().len(),
        ensures
            *r == self.spec_patterns()[i as int],
    {
        &self.patterns[i]
    }

    /// The number of exprs of the module.
    pub fn exprs_len(&self) -> (r: usize)
        ensures
            r == self.spec_exprs().len(),
    {
        self.exprs.len()
    }

    /// The expr at position `i`.
    pub(crate) fn expr_at(&self, i: usize) -> (r: &Expr)
        requires
            i < self.spec_exprs().len(),
        ensures
            *r == self.spec_exprs()[i as int],
    {
        &self.exprs[i]
    }

    /// The number of function clauses of the module.
    pub fn function_clauses_len(&self) -> (r: usize)
        ensures
            r == self.spec_function_clauses().len(),
    {
        self.function_clauses.len()
    }

    /// The function clause at position `i`.
    pub(crate) fn function_clause_at(&self, i: usize) -> (r: &FunctionClause)
        requires
            i < self.spec_function_clauses().len(),
        ensures
            *r == self.spec_function_clauses()[i as int],
    {
        &self.function_clauses[i]
    }

    /// The number of bodies of the module.
    pub fn bodies_len(&self) -> (r: usize)
        ensures
            r == self.spec_bodies().len(),
    {
        self.bodies.len()
    }

    /// The body at position `i`.
    pub(crate) fn body_at(&self, i: usize) -> (r: &Body)
        requires
            i < self.spec_bodies().len(),
        ensures
            *r == self.spec_bodies()[i as int],
    {
        &self.bodies[i]
    }

    /// The number of guard seqs of the module.
    pub fn guard_seqs_len(&self) -> (r: usize)
        ensures
            r == self.spec_guard_seqs().len(),
    {
        self.guard_seqs.len()
    }

    /// The guard seq at position `i`.
    pub(crate) fn guard_seq_at(&self, i: usize) -> (r: &GuardSeq)
        requires
            i < self.spec_guard_seqs().len(),
        ensures
            *r == self.spec_guard_seqs()[i as int],
    {
        &self.guard_seqs[i]
    }

    /// A module with the given header and function declarations and no nodes.
    pub fn new(
        module_name: &'a str,
        initial_seed: u64,
        config: Config,
        functions: Vec<FunctionDeclaration>,
    ) -> (r: Self)
        ensures
            r.spec_module_name() == module_name,
            r.spec_initial_seed() == initial_seed,
            r.spec_config() == config,
            r.spec_functions() == functions@,
            r.spec_patterns().len() == 0,
            r.spec_exprs().len() == 0,
            r.spec_function_clauses().len() == 0,
            r.spec_bodies().len() == 0,
            r.spec_guard_seqs().len() == 0,
            r.wf(),
    {
        let r = Self {
            module_name,
            initial_seed,
            config,
            functions,
            patterns: Vec::new(),
            exprs: Vec::new(),
            function_clauses: Vec::new(),
            bodies: Vec::new(),
            guard_seqs: Vec::new(),
        };
        proof {
            let rb = (|n: NodeRef| 0nat, 0nat);
            assert(r.ranked_by(rb.0, rb.1));
        }
        r
    }

    /// The module's name.
    pub fn module_name(&self) -> (r: &'a str)
        ensures
            r == self.spec_module_name(),
    {
        self.module_name
    }

    /// The seed the module was generated from.
    pub fn initial_seed(&self) -> (r: u64)
        ensures
            r == self.spec_initial_seed(),
    {
        self.initial_seed
    }

    /// The module's function declarations.
    pub fn functions(&self) -> (r: &Vec<FunctionDeclaration>)
        ensures
            r@ == self.spec_functions(),
    {
        &self.functions
    }

    /// The settings the module was made with.
    pub fn config(&self) -> (r: &Config)
        ensures
            *r == self.spec_config(),
    {
        &self.config
    }

    /// The pattern that `id` refers to.
    pub fn pattern(&self, id: PatternId) -> (r: &Pattern)
        requires
            id.index() < self.spec_patterns().len(),
        ensures
            *r == self.spec_patterns()[id.index() as int],
    {
        &self.patterns[id.0 as usize]
    }

    /// The pattern that `id` refers to, to change in place.
    pub fn pattern_mut(&mut self, id: PatternId) -> (r: &mut Pattern)
        requires
            id.index() < old(self).spec_patterns().len(),
        ensures
            *r == old(self).spec_patterns()[id.index() as int],
            final(self).spec_patterns() == old(self).spec_patterns().update(id.index() as int, *final(r)),
            final(self).same_except_patterns(&*old(self)),
    {
        &mut self.patterns[id.0 as usize]
    }

    /// Adds a pattern to the module; the result refers to it.
    pub fn add_pattern(&mut self, p: Pattern) -> (r: PatternId)
        requires
            old(self).spec_patterns().len() <= u32::MAX,
        ensures
            final(self).spec_patterns() == old(self).spec_patterns().push(p),
            r.index() == old(self).spec_patterns().len(),
            final(self).same_except_patterns(&*old(self)),
            old(self).wf() && pattern_refs(p, old(self).present()) ==> final(self).wf(),
    {
        let ghost before = *old(self);
        self.patterns.push(p);
        proof {
            if before.wf() && pattern_refs(p, before.present()) {
                let added = NodeRef::Pattern(before.spec_patterns().len());
                assert forall|n: NodeRef| #[trigger] self.has_node(n) implies before.has_node(n) || n == added by {
                }
                assert(extends_by(&before, &*self, added));
                lemma_extend_wf(&before, &*self, added);
            }
        }
        PatternId((self.patterns.len() - 1) as u32)
    }

    /// The expr that `id` refers to.
    pub fn expr(&self, id: ExprId) -> (r: &Expr)
        requires
            id.index() < self.spec_exprs().len(),
        ensures
            *r == self.spec_exprs()[id.index() as int],
    {
        &self.exprs[id.0 as usize]
    }

    /// The expr that `id` refers to, to change in place.
    pub fn expr_mut(&mut self, id: ExprId) -> (r: &mut Expr)
        requires
            id.index() < old(self).spec_exprs().len(),
        ensures
            *r == old(self).spec_exprs()[id.index() as int],
            final(self).spec_exprs() == old(self).spec_exprs().update(id.index() as int, *final(r)),
            final(self).same_except_exprs(&*old(self)),
    {
        &mut self.exprs[id.0 as usize]
    }

    /// Adds a expr to the module; the result refers to it.
    pub fn add_expr(&mut self, p: Expr) -> (r: ExprId)
        requires
            old(self).spec_exprs().len() <= u32::MAX,
        ensures
            final(self).spec_exprs() == old(self).spec_exprs().push(p),
            r.index() == old(self).spec_exprs().len(),
            final(self).same_except_exprs(&*old(self)),
            old(self).wf() && expr_refs(p, old(self).present()) ==> final(self).wf(),
    {
        let ghost before = *old(self);
        self.exprs.push(p);
        proof {
            if before.wf() && expr_refs(p, before.present()) {
                let added = NodeRef::Expr(before.spec_exprs().len());
                assert forall|n: NodeRef| #[trigger] self.has_node(n) implies before.has_node(n) || n == added by {
                }
                assert(extends_by(&before, &*self, added));
                lemma_extend_wf(&before, &*self, added);
            }
        }
        ExprId((self.exprs.len() - 1) as u32)
    }

    /// The function clause that `id` refers to.
    pub fn function_clause(&self, id: FunctionClauseId) -> (r: &FunctionClause)
        requires
            id.index() < self.spec_function_clauses().len(),
        ensures
            *r == self.spec_function_clauses()[id.index() as int],
    {
        &self.function_clauses[id.0 as usize]
    }

    /// The function clause that `id` refers to, to change in place.
    pub fn function_clause_mut(&mut self, id: FunctionClauseId) -> (r: &mut FunctionClause)
        requires
            id.index() < old(self).spec_function_clauses().len(),
        ensures
            *r == old(self).spec_function_clauses()[id.index() as int],
            final(self).spec_function_clauses() == old(self).spec_function_clauses().update(id.index() as int, *final(r)),
            final(self).same_except_function_clauses(&*old(self)),
    {
        &mut self.function_clauses[id.0 as usize]
    }

    /// Adds a function clause to the module; the result refers to it.
    pub fn add_function_clause(&mut self, p: FunctionClause) -> (r: FunctionClauseId)
        requires
            old(self).spec_function_clauses().len() <= u32::MAX,
        ensures
            final(self).spec_function_clauses() == old(self).spec_function_clauses().push(p),
            r.index() == old(self).spec_function_clauses().len(),
            final(self).same_except_function_clauses(&*old(self)),
            old(self).wf() && clause_refs(p, old(self).present()) ==> final(self).wf(),
    {
        let ghost before = *old(self);
        self.function_clauses.push(p);
        proof {
            if before.wf() && clause_refs(p, before.present()) {
                let added = NodeRef::Clause(before.spec_function_clauses().len());
                assert forall|n: NodeRef| #[trigger] self.has_node(n) implies before.has_node(n) || n == added by {
                }
                assert(extends_by(&before, &*self, added));
                lemma_extend_wf(&before, &*self, added);
            }
        }
        FunctionClauseId((self.function_clauses.len() - 1) as u32)
    }

    /// The body that `id` refers to.
    pub fn body(&self, id: BodyId) -> (r: &Body)
        requires
            id.index() < self.spec_bodies().len(),
        ensures
            *r == self.spec_bodies()[id.index() as int],
    {
        &self.bodies[id.0 as usize]
    }

    /// The body that `id` refers to, to change in place.
    pub fn body_mut(&mut self, id: BodyId) -> (r: &mut Body)
        requires
            id.index() < old(self).spec_bodies().len(),
        ensures
            *r == old(self).spec_bodies()[id.index() as int],
            final(self).spec_bodies() == old(self).spec_bodies().update(id.index() as int, *final(r)),
            final(self).same_except_bodies(&*old(self)),
    {
        &mut self.bodies[id.0 as usize]
    }

    /// Adds a body to the module; the result refers to it.
    pub fn add_body(&mut self, p: Body) -> (r: BodyId)
        requires
            old(self).spec_bodies().len() <= u32::MAX,
        ensures
            final(self).spec_bodies() == old(self).spec_bodies().push(p),
            r.index() == old(self).spec_bodies().len(),
            final(self).same_except_bodies(&*old(self)),
            old(self).wf() && body_refs(p, old(self).present()) ==> final(self).wf(),
    {
        let ghost before = *old(self);
        self.bodies.push(p);
        proof {
            if before.wf() && body_refs(p, before.present()) {
                let added = NodeRef::Body(before.spec_bodies().len());
                assert forall|n: NodeRef| #[trigger] self.has_node(n) implies before.has_node(n) || n == added by {
                }
                assert(extends_by(&before, &*self, added));
                lemma_extend_wf(&before, &*self, added);
            }
        }
        BodyId((self.bodies.len() - 1) as u32)
    }

    /// The guard seq that `id` refers to.
    pub fn guard_seq(&self, id: GuardSeqId) -> (r: &GuardSeq)
        requires
            id.index() < self.spec_guard_seqs().len(),
        ensures
            *r == self.spec_guard_seqs()[id.index() as int],
    {
        &self.guard_seqs[id.0 as usize]
    }

    /// The guard seq that `id` refers to, to change in place.
    pub fn guard_seq_mut(&mut self, id: GuardSeqId) -> (r: &mut GuardSeq)
        requires
            id.index() < old(self).spec_guard_seqs().len(),
        ensures
            *r == old(self).spec_guard_seqs()[id.index() as int],
            final(self).spec_guard_seqs() == old(self).spec_guard_seqs().update(id.index() as int, *final(r)),
            final(self).same_except_guard_seqs(&*old(self)),
    {
        &mut self.guard_seqs[id.0 as usize]
    }

    /// Adds a guard seq to the module; the result refers to it.
    pub fn add_guard_seq(&mut self, p: GuardSeq) -> (r: GuardSeqId)
        requires
            old(self).spec_guard_seqs().len() <= u32::MAX,
        ensures
            final(self).spec_guard_seqs() == old(self).spec_guard_seqs().push(p),
            r.index() == old(self).spec_guard_seqs().len(),
            final(self).same_except_guard_seqs(&*old(self)),
            old(self).wf() && guard_refs(p, old(self).present()) ==> final(self).wf(),
    {
        let ghost before = *old(self);
        self.guard_seqs.push(p);
        proof {
            if before.wf() && guard_refs(p, before.present()) {
                let added = NodeRef::Guard(before.spec_guard_seqs().len());
                assert forall|n: NodeRef| #[trigger] self.has_node(n) implies before.has_node(n) || n == added by {
                }
                assert(extends_by(&before, &*self, added));
                lemma_extend_wf(&before, &*self, added);
            }
        }
        GuardSeqId((self.guard_seqs.len() - 1) as u32)
    }
}

impl NodeId for PatternId {
    type Node = Pattern;

    open spec fn in_module(&self, module: &Module) -> bool {
        self.index() < module.spec_patterns().len()
    }

    open spec fn node(&self, module: &Module) -> Pattern {
        module.spec_patterns()[self.index() as int]
    }

    fn get<'b>(&self, module: &'b Module<'_>) -> (r: &'b Pattern) {
        module.pattern(*self)
    }
}

impl NodeId for ExprId {
    type Node = Expr;

    open spec fn in_module(&self, module: &Module) -> bool {
        self.index() < module.spec_exprs().len()
    }

    open spec fn node(&self, module: &Module) -> Expr {
        module.spec_exprs()[self.index() as int]
    }

    fn get<'b>(&self, module: &'b Module<'_>) -> (r: &'b Expr) {
        module.expr(*self)
    }
}

impl NodeId for FunctionClauseId {
    type Node = FunctionClause;

    open spec fn in_module(&self, module: &Module) -> bool {
        self.index() < module.spec_function_clauses().len()
    }

    open spec fn node(&self, module: &Module) -> FunctionClause {
        module.spec_function_clauses()[self.index() as int]
    }

    fn get<'b>(&self, module: &'b Module<'_>) -> (r: &'b FunctionClause) {
        module.function_clause(*self)
    }
}

impl NodeId for BodyId {
    type Node = Body;

    open spec fn in_module(&self, module: &Module) -> bool {
        self.index() < module.spec_bodies().len()
    }

    open spec fn node(&self, module: &Module) -> Body {
        module.spec_bodies()[self.index() as int]
    }

    fn get<'b>(&self, module: &'b Module<'_>) -> (r: &'b Body) {
        module.body(*self)
    }
}

impl NodeId for GuardSeqId {
    type Node = GuardSeq;

    open spec fn in_module(&self, module: &Module) -> bool {
        self.index() < module.spec_guard_seqs().len()
    }

    open spec fn node(&self, module: &Module) -> GuardSeq {
        module.spec_guard_seqs()[self.index() as int]
    }

    fn get<'b>(&self, module: &'b Module<'_>) -> (r: &'b GuardSeq) {
        module.guard_seq(*self)
    }
}

} // verus!
