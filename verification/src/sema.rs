//! The analyser: a walker over the syntax tree that keeps the table of
//! scopes and the handle of the scope that is current.

use vstd::prelude::*;
use vstd::string::*;
use crate::ast::{
    ArrayNumNode,
    AssignNode,
    BinOpNode,
    BlockNode,
    CallNode,
    CompoundNode,
    CondStatNode,
    ContextIdentNode,
    EntryBlockNode,
    EntryNode,
    FeltNumNode,
    FunctionNode,
    IdentDeclarationNode,
    IdentIndexNode,
    IdentNode,
    Identifier,
    IdentifierView,
    IntegerNumNode,
    LoopStatNode,
    MallocNode,
    MultiAssignNode,
    Node,
    NodeView,
    PrintfNode,
    ReturnNode,
    SqrtNode,
    TypeNode,
    TypeToken,
    UnaryOpNode,
    declarations_view,
    identifier_name,
    node_view,
    nodes_view,
    nodes_view_is_pointwise,
};
use crate::error::{ErrorView, SemaError};
use crate::model::{
    ListOutcome,
    Outcome,
    ParamChecked,
    Visit,
    agrees,
    argument_error,
    bind,
    check,
    check_list,
    check_list_unfolds,
    declared_type,
    first_param_error,
    function_scope,
    function_symbol,
    params_checked,
    params_marked,
    result_view,
    variable_symbol,
    visit,
};
use crate::prophet::{OlaProphet, context_variable, seeded_variable, seeds};
use crate::symbol::{
    Param,
    ScopeView,
    Symbol,
    SymbolTable,
    bound_all,
    fresh_scope,
    is_array_variable,
    params_view,
    resolve,
    symbol_option_view,
    symbols_view,
    well_formed,
};
use crate::types::{BuiltinType, ScalarType, TraversalResult, TypeValue};

verus! {

/// The label of the root scope.
pub open spec fn global_label() -> Seq<char> {
    "Global Scope"@
}

/// The variables that the root scope is seeded with, as symbols.
pub fn seed_symbols(prophet: &OlaProphet) -> (syms: Vec<Symbol>)
    ensures
        symbols_view(syms@) == seeds(prophet@),
{
    let mut syms: Vec<Symbol> = Vec::new();
    let n_in: usize = prophet.inputs.len();
    let n_ctx: usize = prophet.ctx.len();
    let mut i: usize = 0;
    while i < n_in
        invariant
            i <= n_in,
            n_in == prophet.inputs@.len(),
            syms@.len() == i,
            forall|j: int| 0 <= j < i ==> syms@[j]@ == seeded_variable(prophet.inputs@[j]@),
        decreases n_in - i,
    {
        let v = &prophet.inputs[i];
        let array_len: Option<usize> = if v.length == 1 {
            None
        } else {
            Some(v.length)
        };
        syms.push(Symbol::Variable { name: v.name.clone(), ty: ScalarType::Felt, array_len });
        i = i + 1;
    }
    let mut k: usize = 0;
    while k < n_ctx
        invariant
            k <= n_ctx,
            n_in == prophet.inputs@.len(),
            n_ctx == prophet.ctx@.len(),
            syms@.len() == n_in + k,
            forall|j: int| 0 <= j < n_in ==> syms@[j]@ == seeded_variable(prophet.inputs@[j]@),
            forall|j: int| 0 <= j < k ==> syms@[n_in + j]@ == context_variable(prophet.ctx@[j]@),
        decreases n_ctx - k,
    {
        syms.push(
            Symbol::Variable { name: prophet.ctx[k].clone(), ty: ScalarType::Felt, array_len: None },
        );
        k = k + 1;
    }
    let n_out: usize = prophet.outputs.len();
    let mut m: usize = 0;
    while m < n_out
        invariant
            m <= n_out,
            n_in == prophet.inputs@.len(),
            n_ctx == prophet.ctx@.len(),
            n_out == prophet.outputs@.len(),
            syms@.len() == n_in + n_ctx + m,
            forall|j: int| 0 <= j < n_in ==> syms@[j]@ == seeded_variable(prophet.inputs@[j]@),
            forall|j: int| 0 <= j < n_ctx ==> syms@[n_in + j]@ == context_variable(prophet.ctx@[j]@),
            forall|j: int|
                0 <= j < m ==> syms@[n_in + n_ctx + j]@ == seeded_variable(prophet.outputs@[j]@),
        decreases n_out - m,
    {
        let v = &prophet.outputs[m];
        let array_len: Option<usize> = if v.length == 1 {
            None
        } else {
            Some(v.length)
        };
        syms.push(Symbol::Variable { name: v.name.clone(), ty: ScalarType::Felt, array_len });
        m = m + 1;
    }
    proof {
        let want = seeds(prophet@);
        assert(symbols_view(syms@).len() == want.len());
        assert forall|j: int| 0 <= j < want.len() implies symbols_view(syms@)[j] == want[j] by {
            if j < n_in {
            } else if j < n_in + n_ctx {
                assert(syms@[n_in + (j - n_in)]@ == context_variable(prophet.ctx@[j - n_in]@));
            } else {
                assert(syms@[n_in + n_ctx + (j - n_in - n_ctx)]@ == seeded_variable(
                    prophet.outputs@[j - n_in - n_ctx]@,
                ));
            }
        }
        assert(symbols_view(syms@) =~= want);
    }
    syms
}

/// The variable that a declaration of `name` with type `b` binds.
pub fn variable(name: String, b: BuiltinType) -> (s: Symbol)
    ensures
        s@ == variable_symbol(name@, b),
{
    match b {
        BuiltinType::Scalar(ty) => Symbol::Variable { name, ty, array_len: None },
        BuiltinType::Array(ty, len) => Symbol::Variable { name, ty, array_len: Some(len) },
    }
}

/// Marks an identifier as a reference to an array; its name stays.
pub fn mark_array(id: &mut Identifier)
    ensures
        final(id)@ == IdentifierView::ArrayId(identifier_name(old(id)@)),
{
    let name = id.name().clone();
    *id = Identifier::ArrayId(name);
}

/// Whether a node is a bare identifier: a reference to a variable or to a
/// name bound by the execution context.
pub fn is_bare_identifier(node: &Node) -> (b: bool)
    ensures
        b == (node is Ident || node is ContextIdent),
        b == (node@ is Ident || node@ is ContextIdent),
{
    proof {
        reveal(node_view);
    }
    match node {
        Node::Ident(_) => true,
        Node::ContextIdent(_) => true,
        _ => false,
    }
}

/// The analyser.
#[derive(Clone, Debug)]
pub struct SymTableGen {
    table: SymbolTable,
    current_scope: usize,
}

impl SymTableGen {
    /// The model of the table of scopes.
    pub closed spec fn scopes(&self) -> Seq<ScopeView> {
        self.table@
    }

    /// The handle of the current scope.
    pub closed spec fn current(&self) -> int {
        self.current_scope as int
    }

    /// The analyser's invariant: the table is well formed and the current
    /// scope is one of its scopes.
    pub open spec fn wf(&self) -> bool {
        &&& well_formed(self.scopes())
        &&& 0 <= self.current() < self.scopes().len()
    }

    /// Whether `after` is this analyser after a visit of the node `n` that
    /// ended in `r` and left the node `n_after` behind: the invariant holds
    /// again, the current scope is the same, no scope has left the table,
    /// and the outcome is the one that `check` gives.
    pub open spec fn visited(
        &self,
        n: NodeView,
        r: Result<TraversalResult, SemaError>,
        after: &SymTableGen,
        n_after: NodeView,
    ) -> bool {
        &&& after.wf()
        &&& after.current() == self.current()
        &&& after.scopes().len() >= self.scopes().len()
        &&& agrees(self.scopes(), self.current(), n, r, after.scopes(), n_after)
    }

    /// An analyser whose only scope is the root scope, labelled
    /// "Global Scope", of depth 1, holding the builtin type names and the
    /// variables that `prophet` declares.
    pub fn new(prophet: &OlaProphet) -> (gen: SymTableGen)
        ensures
            gen.wf(),
            gen.current() == 0,
            gen.scopes() == seq![
                bound_all(
                    fresh_scope(Seq::empty(), global_label(), None),
                    seeds(prophet@),
                ),
            ],
    {
        let mut table = SymbolTable::new();
        let root = table.open_scope(String::from_str("Global Scope"), None);
        let syms = seed_symbols(prophet);
        table.insert_all(root, &syms);
        let gen = SymTableGen { table, current_scope: root };
        assert(gen.scopes() =~= seq![
            bound_all(fresh_scope(Seq::empty(), global_label(), None), seeds(prophet@)),
        ]);
        gen
    }

    /// The table of scopes.
    pub fn table(&self) -> (t: &SymbolTable)
        ensures
            t@ == self.scopes(),
    {
        &self.table
    }

    /// The handle of the current scope.
    pub fn current_scope(&self) -> (c: usize)
        ensures
            c == self.current(),
    {
        self.current_scope
    }

    /// The builtin type that the annotation `token` denotes in the current
    /// scope.
    pub fn declared(&self, token: &TypeToken) -> (r: Result<BuiltinType, SemaError>)
        ensures
            match r {
                Ok(b) => declared_type(self.scopes(), self.current(), token@) == Ok::<
                    BuiltinType,
                    ErrorView,
                >(b),
                Err(e) => declared_type(self.scopes(), self.current(), token@) == Err::<
                    BuiltinType,
                    ErrorView,
                >(e@),
            },
    {
        match token {
            TypeToken::Named(t) => match self.table.resolve_builtin(self.current_scope, t) {
                Ok(s) => Ok(BuiltinType::Scalar(s)),
                Err(e) => Err(e),
            },
            TypeToken::Array(t, len) => match self.table.resolve_builtin(self.current_scope, t) {
                Ok(s) => Ok(BuiltinType::Array(s, *len)),
                Err(e) => Err(e),
            },
        }
    }

    /// Visits a declaration `name : type`. A name that already resolves, in
    /// the current scope or in one that encloses it, is a duplicate; any
    /// other is bound in the current scope to a variable of the declared
    /// type.
    pub fn travel_declaration(&mut self, node: &mut IdentDeclarationNode) -> (r: Result<
        TraversalResult,
        SemaError,
    >)
        requires
            old(self).wf(),
        ensures
            old(self).visited(
                NodeView::Declaration(old(node)@),
                r,
                final(self),
                NodeView::Declaration(final(node)@),
            ),
    {
        proof {
            reveal(check);
            reveal(check_list);
            reveal(node_view);
            reveal(nodes_view);
        }
        match &node.ident_node.identifier {
            Identifier::Id(name) => {
                if self.table.is_declared(self.current_scope, name) {
                    return Err(SemaError::DuplicateDeclaration(name.clone()));
                }
                match self.declared(&node.type_node.token) {
                    Err(e) => Err(e),
                    Ok(b) => {
                        self.table.insert(self.current_scope, variable(name.clone(), b));
                        Ok(TraversalResult::Single(TypeValue::Nil))
                    },
                }
            },
            _ => Ok(TraversalResult::Single(TypeValue::Nil)),
        }
    }

    /// Visits a type annotation: its type value is that of the builtin type
    /// it denotes.
    pub fn travel_type(&mut self, node: &mut TypeNode) -> (r: Result<TraversalResult, SemaError>)
        requires
            old(self).wf(),
        ensures
            old(self).visited(old(node)@, r, final(self), final(node)@),
    {
        proof {
            reveal(check);
            reveal(check_list);
            reveal(node_view);
            reveal(nodes_view);
        }
        match self.declared(&node.token) {
            Err(e) => Err(e),
            Ok(b) => Ok(TraversalResult::Single(TypeValue::of_builtin(b))),
        }
    }

    /// Visits an integer literal: its type value is `I32`.
    pub fn travel_integer(&mut self, node: &mut IntegerNumNode) -> (r: Result<
        TraversalResult,
        SemaError,
    >)
        requires
            old(self).wf(),
        ensures
            old(self).visited(old(node)@, r, final(self), final(node)@),
    {
        proof {
            reveal(check);
            reveal(check_list);
            reveal(node_view);
            reveal(nodes_view);
        }
        Ok(TraversalResult::Single(TypeValue::I32))
    }

    /// Visits a field-element literal: its type value is `Felt`.
    pub fn travel_felt(&mut self, node: &mut FeltNumNode) -> (r: Result<TraversalResult, SemaError>)
        requires
            old(self).wf(),
        ensures
            old(self).visited(old(node)@, r, final(self), final(node)@),
    {
        proof {
            reveal(check);
            reveal(check_list);
            reveal(node_view);
            reveal(nodes_view);
        }
        Ok(TraversalResult::Single(TypeValue::Felt))
    }

    /// Visits an array literal: its type value is that of its first element.
    pub fn travel_array(&mut self, node: &mut ArrayNumNode) -> (r: Result<TraversalResult, SemaError>)
        requires
            old(self).wf(),
        ensures
            old(self).visited(old(node)@, r, final(self), final(node)@),
    {
        proof {
            reveal(check);
            reveal(check_list);
            reveal(node_view);
            reveal(nodes_view);
        }
        Ok(TraversalResult::Single(TypeValue::of_literal(node.first)))
    }

    /// Visits a reference to a variable. A name that resolves nowhere is
    /// undeclared. Where the name resolves to an array the identifier is
    /// marked as an array reference and the type value is the array's; where
    /// it resolves to a scalar the type value is the scalar's.
    pub fn travel_ident(&mut self, node: &mut IdentNode) -> (r: Result<TraversalResult, SemaError>)
        requires
            old(self).wf(),
        ensures
            old(self).visited(old(node)@, r, final(self), final(node)@),
    {
        proof {
            reveal(check);
            reveal(check_list);
            reveal(node_view);
            reveal(nodes_view);
        }
        match &node.identifier {
            Identifier::Cid(n) => {
                return Err(SemaError::InvalidIdentifier(n.clone()));
            },
            _ => {},
        }
        let found: Option<(ScalarType, Option<usize>)> = match self.table.find(
            self.current_scope,
            node.identifier.name(),
        ) {
            None => {
                return Err(SemaError::UndeclaredVariable(node.identifier.name().clone()));
            },
            Some(Symbol::Variable { ty, array_len, .. }) => Some((*ty, *array_len)),
            Some(_) => None,
        };
        match found {
            None => Err(SemaError::UnexpectedSymbol(node.identifier.name().clone())),
            Some((ty, array_len)) => {
                if array_len.is_some() {
                    mark_array(&mut node.identifier);
                }
                Ok(TraversalResult::Single(TypeValue::of_variable(ty, array_len)))
            },
        }
    }

    /// Visits a reference to a name bound by the execution context: the name
    /// must resolve; the reference has no type value of its own.
    pub fn travel_context_ident(&mut self, node: &mut ContextIdentNode) -> (r: Result<
        TraversalResult,
        SemaError,
    >)
        requires
            old(self).wf(),
        ensures
            old(self).visited(old(node)@, r, final(self), final(node)@),
    {
        proof {
            reveal(check);
            reveal(check_list);
            reveal(node_view);
            reveal(nodes_view);
        }
        match &node.identifier {
            Identifier::Cid(name) => {
                if self.table.is_declared(self.current_scope, name) {
                    Ok(TraversalResult::Single(TypeValue::Nil))
                } else {
                    Err(SemaError::UndeclaredVariable(name.clone()))
                }
            },
            other => Err(SemaError::InvalidIdentifier(other.name().clone())),
        }
    }

    /// Whether the name of `id` resolves from the current scope, and if so
    /// whether it resolves to an array variable; an error where it does not
    /// resolve.
    pub fn require_declared(&self, id: &Identifier) -> (r: Result<bool, SemaError>)
        ensures
            match r {
                Ok(array) => resolve(self.scopes(), self.current(), identifier_name(id@)) is Some
                    && array == is_array_variable(
                    resolve(self.scopes(), self.current(), identifier_name(id@))->Some_0,
                ),
                Err(e) => resolve(self.scopes(), self.current(), identifier_name(id@)) is None
                    && e@ == ErrorView::UndeclaredVariable(identifier_name(id@)),
            },
    {
        match self.table.find(self.current_scope, id.name()) {
            Some(sym) => Ok(sym.is_array()),
            None => Err(SemaError::UndeclaredVariable(id.name().clone())),
        }
    }

    /// Visits a node, whatever its kind.
    pub fn travel(&mut self, node: &mut Node) -> (r: Result<TraversalResult, SemaError>)
        requires
            old(self).wf(),
        ensures
            old(self).visited(old(node)@, r, final(self), final(node)@),
        decreases *old(node), 0nat,
    {
        proof {
            reveal(check);
            reveal(check_list);
            reveal(node_view);
            reveal(nodes_view);
        }
        match node {
            Node::Entry(n) => self.travel_entry(n),
            Node::Block(n) => self.travel_block(n),
            Node::EntryBlock(n) => self.travel_entry_block(n),
            Node::Declaration(n) => self.travel_declaration(n),
            Node::Type(n) => self.travel_type(n),
            Node::Integer(n) => self.travel_integer(n),
            Node::Felt(n) => self.travel_felt(n),
            Node::Array(n) => self.travel_array(n),
            Node::Ident(n) => self.travel_ident(n),
            Node::ContextIdent(n) => self.travel_context_ident(n),
            Node::IdentIndex(n) => self.travel_ident_index(n),
            Node::BinOp(n) => self.travel_binop(n),
            Node::UnaryOp(n) => self.travel_unary_op(n),
            Node::Compound(n) => self.travel_compound(n),
            Node::Assign(n) => self.travel_assign(n),
            Node::MultiAssign(n) => self.travel_multi_assign(n),
            Node::Cond(n) => self.travel_cond(n),
            Node::Loop(n) => self.travel_loop(n),
            Node::Function(n) => self.travel_function(n),
            Node::Call(n) => self.travel_call(n),
            Node::Return(n) => self.travel_return(n),
            Node::Sqrt(n) => self.travel_sqrt(n),
            Node::Malloc(n) => self.travel_malloc(n),
            Node::Printf(n) => self.travel_printf(n),
        }
    }

    /// Visits a binary operation: both operands, left first; its type value
    /// is the promotion of the operands' types.
    pub fn travel_binop(&mut self, node: &mut BinOpNode) -> (r: Result<TraversalResult, SemaError>)
        requires
            old(self).wf(),
        ensures
            old(self).visited(old(node)@, r, final(self), final(node)@),
        decreases *old(node), 0nat,
    {
        proof {
            reveal(check);
            reveal(check_list);
            reveal(node_view);
            reveal(nodes_view);
        }
        let left = match self.travel(&mut *node.left) {
            Err(e) => {
                return Err(e);
            },
            Ok(t) => t,
        };
        let right = match self.travel(&mut *node.right) {
            Err(e) => {
                return Err(e);
            },
            Ok(t) => t,
        };
        Ok(TraversalResult::Single(left.representative().promote(right.representative())))
    }

    /// Visits a unary operation: its type value is its operand's.
    pub fn travel_unary_op(&mut self, node: &mut UnaryOpNode) -> (r: Result<
        TraversalResult,
        SemaError,
    >)
        requires
            old(self).wf(),
        ensures
            old(self).visited(old(node)@, r, final(self), final(node)@),
        decreases *old(node), 0nat,
    {
        proof {
            reveal(check);
            reveal(check_list);
            reveal(node_view);
            reveal(nodes_view);
        }
        self.travel(&mut *node.expr)
    }

    /// Visits a square root: its type value is its operand's.
    pub fn travel_sqrt(&mut self, node: &mut SqrtNode) -> (r: Result<TraversalResult, SemaError>)
        requires
            old(self).wf(),
        ensures
            old(self).visited(old(node)@, r, final(self), final(node)@),
        decreases *old(node), 0nat,
    {
        proof {
            reveal(check);
            reveal(check_list);
            reveal(node_view);
            reveal(nodes_view);
        }
        self.travel(&mut *node.sqrt_value)
    }

    /// Visits a memory allocation: its type value is that of its size.
    pub fn travel_malloc(&mut self, node: &mut MallocNode) -> (r: Result<TraversalResult, SemaError>)
        requires
            old(self).wf(),
        ensures
            old(self).visited(old(node)@, r, final(self), final(node)@),
        decreases *old(node), 0nat,
    {
        proof {
            reveal(check);
            reveal(check_list);
            reveal(node_view);
            reveal(nodes_view);
        }
        self.travel(&mut *node.num_bytes)
    }

    /// Visits a print statement: its flag, then its address, whose type
    /// value is the statement's.
    pub fn travel_printf(&mut self, node: &mut PrintfNode) -> (r: Result<TraversalResult, SemaError>)
        requires
            old(self).wf(),
        ensures
            old(self).visited(old(node)@, r, final(self), final(node)@),
        decreases *old(node), 0nat,
    {
        proof {
            reveal(check);
            reveal(check_list);
            reveal(node_view);
            reveal(nodes_view);
        }
        match self.travel(&mut *node.flag) {
            Err(e) => {
                return Err(e);
            },
            Ok(_) => {},
        }
        self.travel(&mut *node.val_addr)
    }

    /// Visits an indexed access `name[index]`: the name must resolve; the
    /// type value is that of the index expression.
    pub fn travel_ident_index(&mut self, node: &mut IdentIndexNode) -> (r: Result<
        TraversalResult,
        SemaError,
    >)
        requires
            old(self).wf(),
        ensures
            old(self).visited(old(node)@, r, final(self), final(node)@),
        decreases *old(node), 0nat,
    {
        proof {
            reveal(check);
            reveal(check_list);
            reveal(node_view);
            reveal(nodes_view);
        }
        match &node.identifier {
            Identifier::Id(_) => {},
            other => {
                return Err(SemaError::InvalidIdentifier(other.name().clone()));
            },
        }
        match self.require_declared(&node.identifier) {
            Err(e) => {
                return Err(e);
            },
            Ok(_) => {},
        }
        self.travel(&mut *node.index)
    }

    /// Visits an assignment: the target must resolve, and is marked as an
    /// array reference where it names an array; then the assigned
    /// expression, whose type value is the assignment's. The two types are
    /// not compared.
    pub fn travel_assign(&mut self, node: &mut AssignNode) -> (r: Result<TraversalResult, SemaError>)
        requires
            old(self).wf(),
        ensures
            old(self).visited(old(node)@, r, final(self), final(node)@),
        decreases *old(node), 0nat,
    {
        proof {
            reveal(check);
            reveal(check_list);
            reveal(node_view);
            reveal(nodes_view);
        }
        let array = match self.require_declared(&node.identifier) {
            Err(e) => {
                return Err(e);
            },
            Ok(a) => a,
        };
        let context = match &node.identifier {
            Identifier::Cid(_) => true,
            _ => false,
        };
        if array && !context {
            mark_array(&mut node.identifier);
        }
        self.travel(&mut *node.expr)
    }

    /// Visits the elements of a list in order, each as `how` says, and
    /// returns the argument type of each element's result. The first error
    /// ends the visit.
    pub fn travel_list(&mut self, nodes: &mut Vec<Node>, how: Visit) -> (r: Result<
        Vec<TypeValue>,
        SemaError,
    >)
        requires
            old(self).wf(),
        ensures
            final(self).wf(),
            final(self).current() == old(self).current(),
            final(self).scopes().len() >= old(self).scopes().len(),
            match r {
                Ok(types) => check_list(
                    old(self).scopes(),
                    old(self).current(),
                    nodes_view(old(nodes)@),
                    0,
                    Seq::empty(),
                    Seq::empty(),
                    how,
                ) == (ListOutcome {
                    scopes: final(self).scopes(),
                    nodes: nodes_view(final(nodes)@),
                    types: types@,
                    error: None,
                }),
                Err(e) => {
                    let l = check_list(
                        old(self).scopes(),
                        old(self).current(),
                        nodes_view(old(nodes)@),
                        0,
                        Seq::empty(),
                        Seq::empty(),
                        how,
                    );
                    &&& l.scopes == final(self).scopes()
                    &&& l.nodes == nodes_view(final(nodes)@)
                    &&& l.error == Some(e@)
                },
            },
        decreases *old(nodes), 0nat,
    {
        proof {
            nodes_view_is_pointwise(nodes@);
        }
        let ghost initial: Vec<Node> = *nodes;
        let ghost given = nodes_view(nodes@);
        let ghost cur = self.current();
        let ghost whole = check_list(
            self.scopes(),
            cur,
            given,
            0,
            Seq::empty(),
            Seq::empty(),
            how,
        );
        let ghost mut done: Seq<NodeView> = Seq::empty();
        let mut types: Vec<TypeValue> = Vec::new();
        let mut i: usize = 0;
        while i < nodes.len()
            invariant
                self.wf(),
                self.current() == cur,
                cur == old(self).current(),
                self.scopes().len() >= old(self).scopes().len(),
                initial == *old(nodes),
                given == nodes_view(initial@),
                given.len() == initial@.len(),
                whole == check_list(
                    old(self).scopes(),
                    cur,
                    given,
                    0,
                    Seq::empty(),
                    Seq::empty(),
                    how,
                ),
                i <= nodes.len(),
                nodes@.len() == initial@.len(),
                forall|j: int| i <= j < nodes@.len() ==> nodes@[j] == initial@[j],
                done.len() == i,
                forall|j: int| 0 <= j < i ==> done[j] == nodes@[j]@,
                types@.len() == i,
                whole == check_list(self.scopes(), cur, given, i as int, done, types@, how),
            decreases nodes.len() - i,
        {
            proof {
                vstd::std_specs::vec::axiom_vec_index_decreases(initial, i as int);
                nodes_view_is_pointwise(initial@);
                assert(given[i as int] == nodes@[i as int]@);
                check_list_unfolds(self.scopes(), cur, given, i as int, done, types@, how);
            }
            match self.travel_as(&mut nodes[i], how) {
                Err(e) => {
                    proof {
                        nodes_view_is_pointwise(nodes@);
                        assert(nodes_view(nodes@) =~= done.push(nodes@[i as int]@) + given.subrange(
                            i + 1,
                            given.len() as int,
                        ));
                    }
                    return Err(e);
                },
                Ok(t) => {
                    types.push(t.argument_type());
                    proof {
                        done = done.push(nodes@[i as int]@);
                    }
                },
            }
            i = i + 1;
        }
        proof {
            check_list_unfolds(self.scopes(), cur, given, i as int, done, types@, how);
            nodes_view_is_pointwise(nodes@);
            assert(done =~= nodes_view(nodes@));
        }
        Ok(types)
    }

    /// Visits one element of a list as `how` says.
    pub fn travel_as(&mut self, node: &mut Node, how: Visit) -> (r: Result<
        TraversalResult,
        SemaError,
    >)
        requires
            old(self).wf(),
        ensures
            final(self).wf(),
            final(self).current() == old(self).current(),
            final(self).scopes().len() >= old(self).scopes().len(),
            visit(old(self).scopes(), old(self).current(), old(node)@, how) == (Outcome {
                scopes: final(self).scopes(),
                node: final(node)@,
                result: result_view(r),
            }),
        decreases *old(node), 1nat,
    {
        proof {
            reveal(visit);
            reveal(check);
        }
        match how {
            Visit::Statement => self.travel(node),
            Visit::Returned => self.visit_returned(node),
            Visit::Target => {
                if is_bare_identifier(node) {
                    self.visit_target(node)
                } else {
                    self.travel(node)
                }
            },
        }
    }

    /// Visits a value of a return statement: a bare identifier must resolve,
    /// and is marked as an array reference where it names an array; any
    /// other node is left alone.
    pub fn visit_returned(&mut self, node: &mut Node) -> (r: Result<TraversalResult, SemaError>)
        requires
            old(self).wf(),
        ensures
            final(self).wf(),
            final(self).current() == old(self).current(),
            final(self).scopes() == old(self).scopes(),
            visit(old(self).scopes(), old(self).current(), old(node)@, Visit::Returned) == (Outcome {
                scopes: final(self).scopes(),
                node: final(node)@,
                result: result_view(r),
            }),
    {
        proof {
            reveal(visit);
            reveal(node_view);
        }
        match node {
            Node::Ident(n) => {
                match self.require_declared(&n.identifier) {
                    Err(e) => Err(e),
                    Ok(array) => {
                        if array {
                            mark_array(&mut n.identifier);
                        }
                        Ok(TraversalResult::Single(TypeValue::Nil))
                    },
                }
            },
            _ => Ok(TraversalResult::Single(TypeValue::Nil)),
        }
    }

    /// Visits a bare identifier that is the target of a multi-assignment: it
    /// must resolve, and is left as it is.
    pub fn visit_target(&self, node: &Node) -> (r: Result<TraversalResult, SemaError>)
        requires
            self.wf(),
            node is Ident || node is ContextIdent,
        ensures
            visit(self.scopes(), self.current(), node@, Visit::Target) == (Outcome {
                scopes: self.scopes(),
                node: node@,
                result: result_view(r),
            }),
    {
        proof {
            reveal(visit);
            reveal(node_view);
        }
        let declared = match node {
            Node::Ident(n) => self.require_declared(&n.identifier),
            Node::ContextIdent(n) => self.require_declared(&n.identifier),
            _ => Ok(false),
        };
        match declared {
            Err(e) => Err(e),
            Ok(_) => Ok(TraversalResult::Single(TypeValue::Nil)),
        }
    }

    /// Visits a list of statements in order; the first error ends the visit.
    pub fn travel_compound(&mut self, node: &mut CompoundNode) -> (r: Result<
        TraversalResult,
        SemaError,
    >)
        requires
            old(self).wf(),
        ensures
            old(self).visited(old(node)@, r, final(self), final(node)@),
        decreases *old(node), 0nat,
    {
        proof {
            reveal(check);
            reveal(check_list);
            reveal(node_view);
            reveal(nodes_view);
        }
        match self.travel_list(&mut node.children, Visit::Statement) {
            Err(e) => Err(e),
            Ok(_) => Ok(TraversalResult::Single(TypeValue::Nil)),
        }
    }

    /// Visits a return statement: each returned value that is a bare
    /// identifier must resolve, and is marked as an array reference where it
    /// names an array.
    pub fn travel_return(&mut self, node: &mut ReturnNode) -> (r: Result<TraversalResult, SemaError>)
        requires
            old(self).wf(),
        ensures
            old(self).visited(old(node)@, r, final(self), final(node)@),
        decreases *old(node), 0nat,
    {
        proof {
            reveal(check);
            reveal(check_list);
            reveal(node_view);
            reveal(nodes_view);
        }
        match self.travel_list(&mut node.returns, Visit::Returned) {
            Err(e) => Err(e),
            Ok(_) => Ok(TraversalResult::Single(TypeValue::Nil)),
        }
    }

    /// Visits a multi-assignment: each target that is a bare identifier must
    /// resolve, any other target is visited as a node; then the call.
    pub fn travel_multi_assign(&mut self, node: &mut MultiAssignNode) -> (r: Result<
        TraversalResult,
        SemaError,
    >)
        requires
            old(self).wf(),
        ensures
            old(self).visited(old(node)@, r, final(self), final(node)@),
        decreases *old(node), 0nat,
    {
        proof {
            reveal(check);
            reveal(check_list);
            reveal(node_view);
            reveal(nodes_view);
        }
        match self.travel_list(&mut node.identifier, Visit::Target) {
            Err(e) => {
                return Err(e);
            },
            Ok(_) => {},
        }
        match self.travel(&mut *node.call) {
            Err(e) => Err(e),
            Ok(_) => Ok(TraversalResult::Single(TypeValue::Nil)),
        }
    }

    /// Visits a conditional: the condition, the consequences, then the
    /// alternatives, all in the current scope.
    pub fn travel_cond(&mut self, node: &mut CondStatNode) -> (r: Result<TraversalResult, SemaError>)
        requires
            old(self).wf(),
        ensures
            old(self).visited(old(node)@, r, final(self), final(node)@),
        decreases *old(node), 0nat,
    {
        proof {
            reveal(check);
            reveal(check_list);
            reveal(node_view);
            reveal(nodes_view);
        }
        match self.travel(&mut *node.condition) {
            Err(e) => {
                return Err(e);
            },
            Ok(_) => {},
        }
        match self.travel_list(&mut node.consequences, Visit::Statement) {
            Err(e) => {
                return Err(e);
            },
            Ok(_) => {},
        }
        match self.travel_list(&mut node.alternatives, Visit::Statement) {
            Err(e) => Err(e),
            Ok(_) => Ok(TraversalResult::Single(TypeValue::Nil)),
        }
    }

    /// Visits a loop: the condition, then the body, in the current scope.
    pub fn travel_loop(&mut self, node: &mut LoopStatNode) -> (r: Result<TraversalResult, SemaError>)
        requires
            old(self).wf(),
        ensures
            old(self).visited(old(node)@, r, final(self), final(node)@),
        decreases *old(node), 0nat,
    {
        proof {
            reveal(check);
            reveal(check_list);
            reveal(node_view);
            reveal(nodes_view);
        }
        match self.travel(&mut *node.condition) {
            Err(e) => {
                return Err(e);
            },
            Ok(_) => {},
        }
        match self.travel_list(&mut node.consequences, Visit::Statement) {
            Err(e) => Err(e),
            Ok(_) => Ok(TraversalResult::Single(TypeValue::Nil)),
        }
    }

    /// Visits the program: its top-level declarations, then its entry block.
    pub fn travel_entry(&mut self, node: &mut EntryNode) -> (r: Result<TraversalResult, SemaError>)
        requires
            old(self).wf(),
        ensures
            old(self).visited(old(node)@, r, final(self), final(node)@),
        decreases *old(node), 0nat,
    {
        proof {
            reveal(check);
            reveal(check_list);
            reveal(node_view);
            reveal(nodes_view);
        }
        match self.travel_list(&mut node.global_declarations, Visit::Statement) {
            Err(e) => {
                return Err(e);
            },
            Ok(_) => {},
        }
        self.travel(&mut *node.entry_block)
    }

    /// Visits the body of a function in the current scope: its
    /// declarations, then its statement.
    pub fn travel_block(&mut self, node: &mut BlockNode) -> (r: Result<TraversalResult, SemaError>)
        requires
            old(self).wf(),
        ensures
            old(self).visited(old(node)@, r, final(self), final(node)@),
        decreases *old(node), 0nat,
    {
        proof {
            reveal(check);
            reveal(check_list);
            reveal(node_view);
            reveal(nodes_view);
        }
        match self.travel_list(&mut node.declarations, Visit::Statement) {
            Err(e) => {
                return Err(e);
            },
            Ok(_) => {},
        }
        self.travel(&mut *node.compound_statement)
    }

    /// Visits the entry block in a scope of its own, opened under the
    /// current scope and labelled "entry": its declarations, then its
    /// statement. The current scope is the same after the visit as before.
    pub fn travel_entry_block(&mut self, node: &mut EntryBlockNode) -> (r: Result<
        TraversalResult,
        SemaError,
    >)
        requires
            old(self).wf(),
        ensures
            old(self).visited(old(node)@, r, final(self), final(node)@),
        decreases *old(node), 0nat,
    {
        proof {
            reveal(check);
            reveal(check_list);
            reveal(node_view);
            reveal(nodes_view);
        }
        let enclosing: usize = self.current_scope;
        let inner = self.table.open_scope(String::from_str("entry"), Some(enclosing));
        self.current_scope = inner;
        match self.travel_list(&mut node.declarations, Visit::Statement) {
            Err(e) => {
                self.current_scope = enclosing;
                return Err(e);
            },
            Ok(_) => {},
        }
        let r = self.travel(&mut *node.compound_statement);
        self.current_scope = enclosing;
        r
    }

    /// Visits the parameters of a function definition in order: resolves
    /// each declared type in the current scope, marks the identifier of an
    /// array parameter as an array reference, and returns the function's
    /// signature and the variables that its scope binds.
    pub fn travel_params(&self, params: &mut Vec<IdentDeclarationNode>) -> (r: Result<
        (Vec<Param>, Vec<Symbol>),
        SemaError,
    >)
        requires
            self.wf(),
        ensures
            match r {
                Ok((signature, variables)) => {
                    let ps = params_checked(
                        self.scopes(),
                        self.current(),
                        declarations_view(old(params)@),
                    );
                    &&& first_param_error(
                        self.scopes(),
                        self.current(),
                        declarations_view(old(params)@),
                        0,
                    ) is None
                    &&& declarations_view(final(params)@) == ps.map_values(
                        |p: ParamChecked| p.declaration,
                    )
                    &&& params_view(signature@) == ps.map_values(|p: ParamChecked| p.param)
                    &&& symbols_view(variables@) == ps.map_values(|p: ParamChecked| p.symbol)
                },
                Err(e) => first_param_error(
                    self.scopes(),
                    self.current(),
                    declarations_view(old(params)@),
                    0,
                ) matches Some((k, found)) && found == e@ && declarations_view(final(params)@)
                    == params_marked(
                    self.scopes(),
                    self.current(),
                    declarations_view(old(params)@),
                    k,
                ),
            },
    {
        let ghost given = declarations_view(params@);
        let ghost ps = params_checked(self.scopes(), self.current(), given);
        let mut signature: Vec<Param> = Vec::new();
        let mut variables: Vec<Symbol> = Vec::new();
        let mut i: usize = 0;
        while i < params.len()
            invariant
                i <= params.len(),
                params@.len() == old(params)@.len(),
                given == declarations_view(old(params)@),
                ps == params_checked(self.scopes(), self.current(), given),
                forall|j: int| i <= j < params@.len() ==> params@[j]@ == given[j],
                forall|j: int| 0 <= j < i ==> params@[j]@ == ps[j].declaration,
                signature@.len() == i,
                variables@.len() == i,
                forall|j: int| 0 <= j < i ==> signature@[j]@ == ps[j].param,
                forall|j: int| 0 <= j < i ==> variables@[j]@ == ps[j].symbol,
                first_param_error(self.scopes(), self.current(), given, 0) == first_param_error(
                    self.scopes(),
                    self.current(),
                    given,
                    i as int,
                ),
            decreases params.len() - i,
        {
            let b = match self.declared(&params[i].type_node.token) {
                Err(e) => {
                    proof {
                        let marked = params_marked(self.scopes(), self.current(), given, i as int);
                        assert forall|j: int| 0 <= j < params@.len() implies declarations_view(
                            params@,
                        )[j] == marked[j] by {
                            if j < i {
                                assert(params@[j]@ == ps[j].declaration);
                            } else {
                                assert(params@[j]@ == given[j]);
                            }
                        }
                        assert(declarations_view(params@) =~= marked);
                    }
                    return Err(e);
                },
                Ok(b) => b,
            };
            let name: String = params[i].ident_node.identifier.name().clone();
            match b {
                BuiltinType::Array(_, _) => {
                    mark_array(&mut params[i].ident_node.identifier);
                },
                BuiltinType::Scalar(_) => {},
            }
            signature.push(Param { name: name.clone(), ty: b });
            variables.push(variable(name, b));
            i = i + 1;
        }
        proof {
            assert(declarations_view(params@) =~= ps.map_values(|p: ParamChecked| p.declaration));
            assert(params_view(signature@) =~= ps.map_values(|p: ParamChecked| p.param));
            assert(symbols_view(variables@) =~= ps.map_values(|p: ParamChecked| p.symbol));
        }
        Ok((signature, variables))
    }

    /// Visits a function definition. The function is recorded in the current
    /// scope under its name, with its parameters and the handle of its body,
    /// before the body is visited, so that the body may call it. The body is
    /// visited in a scope of its own, opened under the current scope,
    /// labelled with the function's name and holding the parameters only.
    /// The current scope is the same after the visit as before.
    pub fn travel_function(&mut self, node: &mut FunctionNode) -> (r: Result<
        TraversalResult,
        SemaError,
    >)
        requires
            old(self).wf(),
        ensures
            old(self).visited(old(node)@, r, final(self), final(node)@),
        decreases *old(node), 0nat,
    {
        proof {
            reveal(check);
            reveal(check_list);
            reveal(node_view);
            reveal(nodes_view);
        }
        let name: String = match &node.func_name {
            Identifier::Id(n) => n.clone(),
            _ => {
                return Ok(TraversalResult::Single(TypeValue::Nil));
            },
        };
        let (signature, variables) = match self.travel_params(&mut node.params) {
            Err(e) => {
                return Err(e);
            },
            Ok(p) => p,
        };
        let enclosing: usize = self.current_scope;
        let ghost ps = params_checked(
            old(self).scopes(),
            old(self).current(),
            declarations_view(old(node).params@),
        );
        let ghost registered = bind(
            old(self).scopes(),
            old(self).current(),
            function_symbol(name@, ps, node.body),
        );
        self.table.insert(
            enclosing,
            Symbol::Function { name: name.clone(), params: signature, body: node.body },
        );
        assert(self.scopes() == registered);
        let inner = self.table.open_scope(name, Some(enclosing));
        self.table.clear(inner);
        self.table.insert_all(inner, &variables);
        assert(self.scopes() =~= registered.push(
            function_scope(registered, old(self).current(), name@, ps),
        ));
        self.current_scope = inner;
        let visited = self.travel(&mut *node.block);
        self.current_scope = enclosing;
        match visited {
            Err(e) => Err(e),
            Ok(_) => Ok(TraversalResult::Single(TypeValue::Nil)),
        }
    }

    /// The first fault of a call of `function` with arguments of the types
    /// `actual` against the declared parameters `params`, if there is one.
    pub fn check_arguments(function: &String, params: &Vec<Param>, actual: &Vec<TypeValue>) -> (r:
        Option<SemaError>)
        ensures
            match r {
                Some(e) => argument_error(function@, params_view(params@), actual@, 0) == Some(e@),
                None => argument_error(function@, params_view(params@), actual@, 0) is None,
            },
    {
        let mut i: usize = 0;
        while i < params.len()
            invariant
                i <= params.len(),
                argument_error(function@, params_view(params@), actual@, 0) == argument_error(
                    function@,
                    params_view(params@),
                    actual@,
                    i as int,
                ),
            decreases params.len() - i,
        {
            if i >= actual.len() {
                return Some(
                    SemaError::ArgumentCountMismatch {
                        function: function.clone(),
                        expected: params.len(),
                        found: actual.len(),
                    },
                );
            }
            if TypeValue::of_builtin(params[i].ty) != actual[i] {
                return Some(
                    SemaError::ArgumentTypeMismatch { function: function.clone(), position: i },
                );
            }
            i = i + 1;
        }
        if actual.len() != params.len() {
            Some(
                SemaError::ArgumentCountMismatch {
                    function: function.clone(),
                    expected: params.len(),
                    found: actual.len(),
                },
            )
        } else {
            None
        }
    }

    /// Visits a call. The callee is resolved from the current scope as it
    /// stands before the arguments are visited. The arguments are visited in
    /// order; then each parameter's declared type is compared with the type
    /// of the argument at its position, and the two must be equal. On
    /// success the resolved function symbol is attached to the node.
    pub fn travel_call(&mut self, node: &mut CallNode) -> (r: Result<TraversalResult, SemaError>)
        requires
            old(self).wf(),
        ensures
            old(self).visited(old(node)@, r, final(self), final(node)@),
        decreases *old(node), 0nat,
    {
        proof {
            reveal(check);
            reveal(check_list);
            reveal(node_view);
            reveal(nodes_view);
        }
        let symbol = self.table.lookup(self.current_scope, node.func_name.name());
        let actual = match self.travel_list(&mut node.actual_params, Visit::Statement) {
            Err(e) => {
                return Err(e);
            },
            Ok(types) => types,
        };
        match symbol {
            None => Err(SemaError::FunctionNotFound(node.func_name.name().clone())),
            Some(Symbol::Function { name, params, body }) => {
                match Self::check_arguments(node.func_name.name(), &params, &actual) {
                    Some(e) => Err(e),
                    None => {
                        node.func_symbol = Some(Symbol::Function { name, params, body });
                        Ok(TraversalResult::Single(TypeValue::Nil))
                    },
                }
            },
            Some(_) => Err(SemaError::UnexpectedSymbol(node.func_name.name().clone())),
        }
    }

    /// A copy of the symbol that `name` resolves to from the current scope.
    pub fn lookup(&self, name: &String) -> (r: Option<Symbol>)
        ensures
            symbol_option_view(r) == resolve(self.scopes(), self.current(), name@),
    {
        self.table.lookup(self.current_scope, name)
    }
}

} // verus!
