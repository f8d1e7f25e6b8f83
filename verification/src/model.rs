//! What the analysis computes, stated over the models of the tree and of the
//! scope table.
//!
//! `check` gives, for a table of scopes, the handle of the current scope and
//! a node, the table and the node that a visit leaves behind, and the type
//! value or the error that the visit ends in. The first error in visiting
//! order ends the visit.

use vstd::prelude::*;
use crate::ast::{DeclarationView, IdentifierView, NodeView, TypeTokenView, identifier_name};
use crate::error::{ErrorView, SemaError};
use crate::symbol::{
    BodyHandle,
    ParamView,
    ScopeView,
    SymbolView,
    bound_all,
    fresh_scope,
    is_array_variable,
    resolve,
    resolved_builtin,
    with_symbol,
    without_symbols,
};
use crate::types::{
    BuiltinType,
    ResultView,
    TraversalResult,
    TypeValue,
    argument_type_of,
    builtin_value,
    literal_value,
    promoted,
    representative_of,
    variable_value,
};

verus! {

/// What a visit of a node leaves behind and ends in: the table, the node,
/// and the type value of the node or the error that ended the visit.
pub struct Outcome {
    pub scopes: Seq<ScopeView>,
    pub node: NodeView,
    pub result: Result<ResultView, ErrorView>,
}

/// What a visit of a list of nodes leaves behind and ends in: the table,
/// the nodes, the argument type of the result of each node that was visited
/// without error, and the error that ended the visit, if any.
pub struct ListOutcome {
    pub scopes: Seq<ScopeView>,
    pub nodes: Seq<NodeView>,
    pub types: Seq<TypeValue>,
    pub error: Option<ErrorView>,
}

/// How the elements of a list are visited.
#[derive(Clone, Copy, Debug, PartialEq, Eq, Structural)]
pub enum Visit {
    /// As nodes of their own.
    Statement,
    /// As values of a return statement: only bare identifiers are looked at.
    Returned,
    /// As targets of a multi-assignment: bare identifiers are only tested
    /// for being declared.
    Target,
}

/// What a parameter of a function definition gives: its declaration after
/// the visit, its entry in the function's signature, and the variable that
/// the function's scope binds.
pub struct ParamChecked {
    pub declaration: DeclarationView,
    pub param: ParamView,
    pub symbol: SymbolView,
}

/// The label of the scope of the entry block.
pub open spec fn entry_label() -> Seq<char> {
    "entry"@
}

/// The table after `sym` was recorded in scope `cur`.
pub open spec fn bind(scopes: Seq<ScopeView>, cur: int, sym: SymbolView) -> Seq<ScopeView> {
    scopes.update(cur, with_symbol(scopes[cur], sym))
}

/// An identifier after it was resolved to `sym`: marked as an array
/// reference where `sym` is an array variable, unchanged otherwise.
pub open spec fn retagged(sym: SymbolView, id: IdentifierView) -> IdentifierView {
    if is_array_variable(sym) {
        IdentifierView::ArrayId(identifier_name(id))
    } else {
        id
    }
}

/// The builtin type that a type annotation denotes in scope `cur`.
pub open spec fn declared_type(scopes: Seq<ScopeView>, cur: int, token: TypeTokenView) -> Result<
    BuiltinType,
    ErrorView,
> {
    match token {
        TypeTokenView::Named(t) => match resolved_builtin(scopes, cur, t) {
            Ok(s) => Ok(BuiltinType::Scalar(s)),
            Err(e) => Err(e),
        },
        TypeTokenView::Array(t, len) => match resolved_builtin(scopes, cur, t) {
            Ok(s) => Ok(BuiltinType::Array(s, len)),
            Err(e) => Err(e),
        },
    }
}

/// The variable that a declaration of `name` with type `b` binds.
pub open spec fn variable_symbol(name: Seq<char>, b: BuiltinType) -> SymbolView {
    match b {
        BuiltinType::Scalar(s) => SymbolView::Variable { name, ty: s, array_len: None },
        BuiltinType::Array(s, len) => SymbolView::Variable { name, ty: s, array_len: Some(len) },
    }
}

/// A reference to a variable: the identifier after the visit and the type
/// value of the variable.
pub open spec fn check_reference(scopes: Seq<ScopeView>, cur: int, id: IdentifierView) -> Result<
    (IdentifierView, TypeValue),
    ErrorView,
> {
    match id {
        IdentifierView::Cid(n) => Err(ErrorView::InvalidIdentifier(n)),
        _ => match resolve(scopes, cur, identifier_name(id)) {
            None => Err(ErrorView::UndeclaredVariable(identifier_name(id))),
            Some(SymbolView::Variable { name, ty, array_len }) => Ok(
                (
                    retagged(SymbolView::Variable { name, ty, array_len }, id),
                    variable_value(ty, array_len),
                ),
            ),
            Some(_) => Err(ErrorView::UnexpectedSymbol(identifier_name(id))),
        },
    }
}

/// A name that must be declared: the identifier after the visit, marked as
/// an array reference where it resolves to an array variable and `mark` is
/// set.
pub open spec fn check_declared(
    scopes: Seq<ScopeView>,
    cur: int,
    id: IdentifierView,
    mark: bool,
) -> Result<IdentifierView, ErrorView> {
    match resolve(scopes, cur, identifier_name(id)) {
        None => Err(ErrorView::UndeclaredVariable(identifier_name(id))),
        Some(sym) => Ok(
            if mark {
                retagged(sym, id)
            } else {
                id
            },
        ),
    }
}

/// The target of an assignment: a context identifier is only tested for
/// being declared; any other is also marked where it names an array.
pub open spec fn check_assigned(scopes: Seq<ScopeView>, cur: int, id: IdentifierView) -> Result<
    IdentifierView,
    ErrorView,
> {
    check_declared(scopes, cur, id, !(id is Cid))
}

/// A parameter of a function defined in scope `cur`.
pub open spec fn check_param(scopes: Seq<ScopeView>, cur: int, d: DeclarationView) -> Result<
    ParamChecked,
    ErrorView,
> {
    match declared_type(scopes, cur, d.token) {
        Err(e) => Err(e),
        Ok(b) => Ok(
            ParamChecked {
                declaration: DeclarationView {
                    identifier: if b is Array {
                        IdentifierView::ArrayId(identifier_name(d.identifier))
                    } else {
                        d.identifier
                    },
                    token: d.token,
                },
                param: ParamView { name: identifier_name(d.identifier), ty: b },
                symbol: variable_symbol(identifier_name(d.identifier), b),
            },
        ),
    }
}

/// The first parameter from position `i` on whose type does not resolve, if
/// there is one: its position and the error.
pub open spec fn first_param_error(
    scopes: Seq<ScopeView>,
    cur: int,
    ds: Seq<DeclarationView>,
    i: int,
) -> Option<(int, ErrorView)>
    decreases ds.len() - i,
{
    if i < 0 || i >= ds.len() {
        None
    } else {
        match check_param(scopes, cur, ds[i]) {
            Err(e) => Some((i, e)),
            Ok(_) => first_param_error(scopes, cur, ds, i + 1),
        }
    }
}

/// The parameters of a function after the visit of those before position
/// `k`: these are as the visit leaves them, the others as they were.
pub open spec fn params_marked(
    scopes: Seq<ScopeView>,
    cur: int,
    ds: Seq<DeclarationView>,
    k: int,
) -> Seq<DeclarationView> {
    Seq::new(
        ds.len(),
        |j: int|
            if j < k {
                check_param(scopes, cur, ds[j])->Ok_0.declaration
            } else {
                ds[j]
            },
    )
}

/// The parameters of a function after the visit, where all of them resolve.
pub open spec fn params_checked(scopes: Seq<ScopeView>, cur: int, ds: Seq<DeclarationView>) -> Seq<
    ParamChecked,
> {
    Seq::new(ds.len(), |j: int| check_param(scopes, cur, ds[j])->Ok_0)
}

/// The symbol that a definition of the function `name` records.
pub open spec fn function_symbol(
    name: Seq<char>,
    ps: Seq<ParamChecked>,
    body: BodyHandle,
) -> SymbolView {
    SymbolView::Function { name, params: ps.map_values(|p: ParamChecked| p.param), body }
}

/// The scope of a function's body as it is opened: labelled with the
/// function's name, under scope `cur`, and holding the parameters only.
pub open spec fn function_scope(
    scopes: Seq<ScopeView>,
    cur: int,
    name: Seq<char>,
    ps: Seq<ParamChecked>,
) -> ScopeView {
    bound_all(
        without_symbols(fresh_scope(scopes, name, Some(cur as usize))),
        ps.map_values(|p: ParamChecked| p.symbol),
    )
}

/// The first fault of a call of `function`, comparing from position `i` on
/// the declared parameter types with the types of the arguments: a missing
/// argument, an argument of another type, or an argument too many.
pub open spec fn argument_error(
    function: Seq<char>,
    params: Seq<ParamView>,
    actual: Seq<TypeValue>,
    i: int,
) -> Option<ErrorView>
    decreases params.len() - i,
{
    if i < 0 || i >= params.len() {
        if actual.len() != params.len() {
            Some(
                ErrorView::ArgumentCountMismatch {
                    function,
                    expected: params.len() as usize,
                    found: actual.len() as usize,
                },
            )
        } else {
            None
        }
    } else if i >= actual.len() {
        Some(
            ErrorView::ArgumentCountMismatch {
                function,
                expected: params.len() as usize,
                found: actual.len() as usize,
            },
        )
    } else if builtin_value(params[i].ty) != actual[i] {
        Some(ErrorView::ArgumentTypeMismatch { function, position: i as usize })
    } else {
        argument_error(function, params, actual, i + 1)
    }
}

/// A visit that yields `result` and leaves the table and the node behind.
pub open spec fn yields(scopes: Seq<ScopeView>, node: NodeView, result: ResultView) -> Outcome {
    Outcome { scopes, node, result: Ok(result) }
}

/// A visit that yields no value.
pub open spec fn nil(scopes: Seq<ScopeView>, node: NodeView) -> Outcome {
    yields(scopes, node, ResultView::Single(TypeValue::Nil))
}

/// A visit that ends in the error `e` and leaves the table and the node
/// behind as they were when the error was found.
pub open spec fn fails(scopes: Seq<ScopeView>, node: NodeView, e: ErrorView) -> Outcome {
    Outcome { scopes, node, result: Err(e) }
}

/// The result of a statement whose parts were visited with the error
/// `error`, if any: the error, or no value.
pub open spec fn statement_result(error: Option<ErrorView>) -> Result<ResultView, ErrorView> {
    match error {
        Some(e) => Err(e),
        None => Ok(ResultView::Single(TypeValue::Nil)),
    }
}

/// The error of a result, if it is one.
pub open spec fn error_of(result: Result<ResultView, ErrorView>) -> Option<ErrorView> {
    match result {
        Ok(_) => None,
        Err(e) => Some(e),
    }
}

/// The visit of `n` with `cur` as the current scope: the table and the node
/// that it leaves behind, and the type value or the error that it ends in.
/// The first error ends the visit; what was visited before it stays as the
/// visit left it, what comes after it stays as it was.
#[verifier::opaque]
pub open spec fn check(scopes: Seq<ScopeView>, cur: int, n: NodeView) -> Outcome
    decreases n, 0nat,
{
    match n {
        NodeView::Entry { global_declarations, entry_block } => {
            let ds = check_list(
                scopes,
                cur,
                global_declarations,
                0,
                Seq::empty(),
                Seq::empty(),
                Visit::Statement,
            );
            match ds.error {
                Some(e) => fails(
                    ds.scopes,
                    NodeView::Entry { global_declarations: ds.nodes, entry_block },
                    e,
                ),
                None => {
                    let b = check(ds.scopes, cur, *entry_block);
                    Outcome {
                        scopes: b.scopes,
                        node: NodeView::Entry {
                            global_declarations: ds.nodes,
                            entry_block: Box::new(b.node),
                        },
                        result: b.result,
                    }
                },
            }
        },
        NodeView::Block { declarations, compound_statement } => {
            let ds = check_list(
                scopes,
                cur,
                declarations,
                0,
                Seq::empty(),
                Seq::empty(),
                Visit::Statement,
            );
            match ds.error {
                Some(e) => fails(
                    ds.scopes,
                    NodeView::Block { declarations: ds.nodes, compound_statement },
                    e,
                ),
                None => {
                    let b = check(ds.scopes, cur, *compound_statement);
                    Outcome {
                        scopes: b.scopes,
                        node: NodeView::Block {
                            declarations: ds.nodes,
                            compound_statement: Box::new(b.node),
                        },
                        result: b.result,
                    }
                },
            }
        },
        NodeView::EntryBlock { declarations, compound_statement } => {
            let opened = scopes.push(fresh_scope(scopes, entry_label(), Some(cur as usize)));
            let inner = scopes.len() as int;
            let ds = check_list(
                opened,
                inner,
                declarations,
                0,
                Seq::empty(),
                Seq::empty(),
                Visit::Statement,
            );
            match ds.error {
                Some(e) => fails(
                    ds.scopes,
                    NodeView::EntryBlock { declarations: ds.nodes, compound_statement },
                    e,
                ),
                None => {
                    let b = check(ds.scopes, inner, *compound_statement);
                    Outcome {
                        scopes: b.scopes,
                        node: NodeView::EntryBlock {
                            declarations: ds.nodes,
                            compound_statement: Box::new(b.node),
                        },
                        result: b.result,
                    }
                },
            }
        },
        NodeView::Declaration(d) => match d.identifier {
            IdentifierView::Id(name) => if resolve(scopes, cur, name) is Some {
                fails(scopes, n, ErrorView::DuplicateDeclaration(name))
            } else {
                match declared_type(scopes, cur, d.token) {
                    Err(e) => fails(scopes, n, e),
                    Ok(b) => nil(bind(scopes, cur, variable_symbol(name, b)), n),
                }
            },
            _ => nil(scopes, n),
        },
        NodeView::Type(token) => match declared_type(scopes, cur, token) {
            Err(e) => fails(scopes, n, e),
            Ok(b) => yields(scopes, n, ResultView::Single(builtin_value(b))),
        },
        NodeView::Integer(_) => yields(scopes, n, ResultView::Single(TypeValue::I32)),
        NodeView::Felt(_) => yields(scopes, n, ResultView::Single(TypeValue::Felt)),
        NodeView::Array { first, rest } => yields(
            scopes,
            n,
            ResultView::Single(literal_value(first)),
        ),
        NodeView::Ident(id) => match check_reference(scopes, cur, id) {
            Err(e) => fails(scopes, n, e),
            Ok((marked, t)) => yields(scopes, NodeView::Ident(marked), ResultView::Single(t)),
        },
        NodeView::ContextIdent(id) => match id {
            IdentifierView::Cid(name) => match check_declared(scopes, cur, id, false) {
                Err(e) => fails(scopes, n, e),
                Ok(_) => nil(scopes, n),
            },
            _ => fails(scopes, n, ErrorView::InvalidIdentifier(identifier_name(id))),
        },
        NodeView::IdentIndex { identifier, index } => match identifier {
            IdentifierView::Id(name) => match check_declared(scopes, cur, identifier, false) {
                Err(e) => fails(scopes, n, e),
                Ok(_) => {
                    let i = check(scopes, cur, *index);
                    Outcome {
                        scopes: i.scopes,
                        node: NodeView::IdentIndex { identifier, index: Box::new(i.node) },
                        result: i.result,
                    }
                },
            },
            _ => fails(scopes, n, ErrorView::InvalidIdentifier(identifier_name(identifier))),
        },
        NodeView::BinOp { left, operator, right } => {
            let l = check(scopes, cur, *left);
            match l.result {
                Err(e) => fails(
                    l.scopes,
                    NodeView::BinOp { left: Box::new(l.node), operator, right },
                    e,
                ),
                Ok(lt) => {
                    let r = check(l.scopes, cur, *right);
                    Outcome {
                        scopes: r.scopes,
                        node: NodeView::BinOp {
                            left: Box::new(l.node),
                            operator,
                            right: Box::new(r.node),
                        },
                        result: match r.result {
                            Err(e) => Err(e),
                            Ok(rt) => Ok(
                                ResultView::Single(
                                    promoted(representative_of(lt), representative_of(rt)),
                                ),
                            ),
                        },
                    }
                },
            }
        },
        NodeView::UnaryOp { operator, expr } => {
            let x = check(scopes, cur, *expr);
            Outcome {
                scopes: x.scopes,
                node: NodeView::UnaryOp { operator, expr: Box::new(x.node) },
                result: x.result,
            }
        },
        NodeView::Compound(children) => {
            let cs = check_list(
                scopes,
                cur,
                children,
                0,
                Seq::empty(),
                Seq::empty(),
                Visit::Statement,
            );
            Outcome {
                scopes: cs.scopes,
                node: NodeView::Compound(cs.nodes),
                result: statement_result(cs.error),
            }
        },
        NodeView::Assign { identifier, expr } => match check_assigned(scopes, cur, identifier) {
            Err(e) => fails(scopes, n, e),
            Ok(target) => {
                let x = check(scopes, cur, *expr);
                Outcome {
                    scopes: x.scopes,
                    node: NodeView::Assign { identifier: target, expr: Box::new(x.node) },
                    result: x.result,
                }
            },
        },
        NodeView::MultiAssign { identifier, call } => {
            let ts = check_list(
                scopes,
                cur,
                identifier,
                0,
                Seq::empty(),
                Seq::empty(),
                Visit::Target,
            );
            match ts.error {
                Some(e) => fails(
                    ts.scopes,
                    NodeView::MultiAssign { identifier: ts.nodes, call },
                    e,
                ),
                None => {
                    let c = check(ts.scopes, cur, *call);
                    Outcome {
                        scopes: c.scopes,
                        node: NodeView::MultiAssign { identifier: ts.nodes, call: Box::new(c.node) },
                        result: statement_result(error_of(c.result)),
                    }
                },
            }
        },
        NodeView::Cond { condition, consequences, alternatives } => {
            let c = check(scopes, cur, *condition);
            match c.result {
                Err(e) => fails(
                    c.scopes,
                    NodeView::Cond { condition: Box::new(c.node), consequences, alternatives },
                    e,
                ),
                Ok(_) => {
                    let yes = check_list(
                        c.scopes,
                        cur,
                        consequences,
                        0,
                        Seq::empty(),
                        Seq::empty(),
                        Visit::Statement,
                    );
                    match yes.error {
                        Some(e) => fails(
                            yes.scopes,
                            NodeView::Cond {
                                condition: Box::new(c.node),
                                consequences: yes.nodes,
                                alternatives,
                            },
                            e,
                        ),
                        None => {
                            let no = check_list(
                                yes.scopes,
                                cur,
                                alternatives,
                                0,
                                Seq::empty(),
                                Seq::empty(),
                                Visit::Statement,
                            );
                            Outcome {
                                scopes: no.scopes,
                                node: NodeView::Cond {
                                    condition: Box::new(c.node),
                                    consequences: yes.nodes,
                                    alternatives: no.nodes,
                                },
                                result: statement_result(no.error),
                            }
                        },
                    }
                },
            }
        },
        NodeView::Loop { condition, consequences } => {
            let c = check(scopes, cur, *condition);
            match c.result {
                Err(e) => fails(
                    c.scopes,
                    NodeView::Loop { condition: Box::new(c.node), consequences },
                    e,
                ),
                Ok(_) => {
                    let body = check_list(
                        c.scopes,
                        cur,
                        consequences,
                        0,
                        Seq::empty(),
                        Seq::empty(),
                        Visit::Statement,
                    );
                    Outcome {
                        scopes: body.scopes,
                        node: NodeView::Loop {
                            condition: Box::new(c.node),
                            consequences: body.nodes,
                        },
                        result: statement_result(body.error),
                    }
                },
            }
        },
        NodeView::Function { func_name, params, block, body } => match func_name {
            IdentifierView::Id(name) => match first_param_error(scopes, cur, params, 0) {
                Some((k, e)) => fails(
                    scopes,
                    NodeView::Function {
                        func_name,
                        params: params_marked(scopes, cur, params, k),
                        block,
                        body,
                    },
                    e,
                ),
                None => {
                    let ps = params_checked(scopes, cur, params);
                    let registered = bind(scopes, cur, function_symbol(name, ps, body));
                    let opened = registered.push(function_scope(registered, cur, name, ps));
                    let inner = scopes.len() as int;
                    let b = check(opened, inner, *block);
                    Outcome {
                        scopes: b.scopes,
                        node: NodeView::Function {
                            func_name,
                            params: ps.map_values(|p: ParamChecked| p.declaration),
                            block: Box::new(b.node),
                            body,
                        },
                        result: statement_result(error_of(b.result)),
                    }
                },
            },
            _ => nil(scopes, n),
        },
        NodeView::Call { func_name, actual_params, func_symbol } => {
            let args = check_list(
                scopes,
                cur,
                actual_params,
                0,
                Seq::empty(),
                Seq::empty(),
                Visit::Statement,
            );
            let visited = NodeView::Call { func_name, actual_params: args.nodes, func_symbol };
            match args.error {
                Some(e) => fails(args.scopes, visited, e),
                None => match resolve(scopes, cur, identifier_name(func_name)) {
                    None => fails(
                        args.scopes,
                        visited,
                        ErrorView::FunctionNotFound(identifier_name(func_name)),
                    ),
                    Some(SymbolView::Function { name, params, body }) => match argument_error(
                        identifier_name(func_name),
                        params,
                        args.types,
                        0,
                    ) {
                        Some(e) => fails(args.scopes, visited, e),
                        None => nil(
                            args.scopes,
                            NodeView::Call {
                                func_name,
                                actual_params: args.nodes,
                                func_symbol: Some(SymbolView::Function { name, params, body }),
                            },
                        ),
                    },
                    Some(_) => fails(
                        args.scopes,
                        visited,
                        ErrorView::UnexpectedSymbol(identifier_name(func_name)),
                    ),
                },
            }
        },
        NodeView::Return(values) => {
            let rs = check_list(
                scopes,
                cur,
                values,
                0,
                Seq::empty(),
                Seq::empty(),
                Visit::Returned,
            );
            Outcome {
                scopes: rs.scopes,
                node: NodeView::Return(rs.nodes),
                result: statement_result(rs.error),
            }
        },
        NodeView::Sqrt(value) => {
            let x = check(scopes, cur, *value);
            Outcome { scopes: x.scopes, node: NodeView::Sqrt(Box::new(x.node)), result: x.result }
        },
        NodeView::Malloc(size) => {
            let x = check(scopes, cur, *size);
            Outcome { scopes: x.scopes, node: NodeView::Malloc(Box::new(x.node)), result: x.result }
        },
        NodeView::Printf { flag, val_addr } => {
            let f = check(scopes, cur, *flag);
            match f.result {
                Err(e) => fails(
                    f.scopes,
                    NodeView::Printf { flag: Box::new(f.node), val_addr },
                    e,
                ),
                Ok(_) => {
                    let v = check(f.scopes, cur, *val_addr);
                    Outcome {
                        scopes: v.scopes,
                        node: NodeView::Printf {
                            flag: Box::new(f.node),
                            val_addr: Box::new(v.node),
                        },
                        result: v.result,
                    }
                },
            }
        },
    }
}

/// The model of what a visit returns.
pub open spec fn result_view(r: Result<TraversalResult, SemaError>) -> Result<
    ResultView,
    ErrorView,
> {
    match r {
        Ok(t) => Ok(t@),
        Err(e) => Err(e@),
    }
}

/// Whether a visit of `n` that returned `r` and left the table
/// `scopes_after` and the node `n_after` behind did what `check` says.
pub open spec fn agrees(
    scopes: Seq<ScopeView>,
    cur: int,
    n: NodeView,
    r: Result<TraversalResult, SemaError>,
    scopes_after: Seq<ScopeView>,
    n_after: NodeView,
) -> bool {
    check(scopes, cur, n) == (Outcome {
        scopes: scopes_after,
        node: n_after,
        result: result_view(r),
    })
}

/// The visit of one element of a list.
#[verifier::opaque]
pub open spec fn visit(scopes: Seq<ScopeView>, cur: int, n: NodeView, how: Visit) -> Outcome
    decreases n, 1nat,
{
    match how {
        Visit::Statement => check(scopes, cur, n),
        Visit::Returned => match n {
            NodeView::Ident(id) => match check_declared(scopes, cur, id, true) {
                Err(e) => fails(scopes, n, e),
                Ok(marked) => nil(scopes, NodeView::Ident(marked)),
            },
            _ => nil(scopes, n),
        },
        Visit::Target => match n {
            NodeView::Ident(id) => match check_declared(scopes, cur, id, false) {
                Err(e) => fails(scopes, n, e),
                Ok(_) => nil(scopes, n),
            },
            NodeView::ContextIdent(id) => match check_declared(scopes, cur, id, false) {
                Err(e) => fails(scopes, n, e),
                Ok(_) => nil(scopes, n),
            },
            _ => check(scopes, cur, n),
        },
    }
}

/// The visit of the elements of `ns` from position `i` on, in order, where
/// the elements before `i` have left `done` and `types` behind. An error
/// ends the visit: the elements after the failing one stay as they are.
#[verifier::opaque]
pub open spec fn check_list(
    scopes: Seq<ScopeView>,
    cur: int,
    ns: Seq<NodeView>,
    i: int,
    done: Seq<NodeView>,
    types: Seq<TypeValue>,
    how: Visit,
) -> ListOutcome
    decreases ns, ns.len() - i,
{
    if i < 0 || i >= ns.len() {
        ListOutcome { scopes, nodes: done, types, error: None }
    } else {
        let c = visit(scopes, cur, ns[i], how);
        match c.result {
            Err(e) => ListOutcome {
                scopes: c.scopes,
                nodes: done.push(c.node) + ns.subrange(i + 1, ns.len() as int),
                types,
                error: Some(e),
            },
            Ok(t) => check_list(
                c.scopes,
                cur,
                ns,
                i + 1,
                done.push(c.node),
                types.push(argument_type_of(t)),
                how,
            ),
        }
    }
}

/// One step of `check_list`: the element at position `i` is visited, and
/// the rest of the list after it unless the visit failed.
pub proof fn check_list_unfolds(
    scopes: Seq<ScopeView>,
    cur: int,
    ns: Seq<NodeView>,
    i: int,
    done: Seq<NodeView>,
    types: Seq<TypeValue>,
    how: Visit,
)
    ensures
        !(0 <= i < ns.len()) ==> check_list(scopes, cur, ns, i, done, types, how) == (ListOutcome {
            scopes,
            nodes: done,
            types,
            error: None,
        }),
        0 <= i < ns.len() ==> check_list(scopes, cur, ns, i, done, types, how) == match visit(
            scopes,
            cur,
            ns[i],
            how,
        ).result {
            Err(e) => ListOutcome {
                scopes: visit(scopes, cur, ns[i], how).scopes,
                nodes: done.push(visit(scopes, cur, ns[i], how).node) + ns.subrange(
                    i + 1,
                    ns.len() as int,
                ),
                types,
                error: Some(e),
            },
            Ok(t) => check_list(
                visit(scopes, cur, ns[i], how).scopes,
                cur,
                ns,
                i + 1,
                done.push(visit(scopes, cur, ns[i], how).node),
                types.push(argument_type_of(t)),
                how,
            ),
        },
{
    reveal(check_list);
    reveal(visit);
}

} // verus!
