//! Laws of the analysis, stated over its model and proved from it.

use vstd::prelude::*;
use crate::ast::{DeclarationView, IdentifierView, NodeView, TypeTokenView, identifier_name};
use crate::error::ErrorView;
use crate::model::{
    ListOutcome,
    Outcome,
    Visit,
    argument_error,
    bind,
    check,
    check_assigned,
    check_list,
    declared_type,
    fails,
    nil,
    yields,
    retagged,
    variable_symbol,
    visit,
};
use crate::symbol::{
    ParamView,
    ScopeView,
    SymbolView,
    is_array_variable,
    resolve,
    symbol_name,
};
use crate::types::{ResultView, TypeValue, argument_type_of, builtin_value, variable_value};

verus! {

/// A symbol recorded in a scope resolves from that scope, under its name, to
/// itself.
pub proof fn bound_symbol_resolves(scopes: Seq<ScopeView>, cur: int, sym: SymbolView)
    requires
        0 <= cur < scopes.len(),
    ensures
        resolve(bind(scopes, cur, sym), cur, symbol_name(sym)) == Some(sym),
{
}

/// A name that a scope binds resolves from it to that binding, whatever the
/// scopes that enclose it hold.
pub proof fn nearest_binding_wins(scopes: Seq<ScopeView>, scope: int, name: Seq<char>)
    requires
        0 <= scope < scopes.len(),
        scopes[scope].symbols.contains_key(name),
    ensures
        resolve(scopes, scope, name) == Some(scopes[scope].symbols[name]),
{
}

/// A name that a scope does not bind resolves from it as it does from the
/// scope that encloses it: resolution walks the chain of enclosing scopes.
pub proof fn resolution_walks_the_chain(scopes: Seq<ScopeView>, scope: int, name: Seq<char>)
    requires
        0 <= scope < scopes.len(),
        !scopes[scope].symbols.contains_key(name),
        scopes[scope].enclosing matches Some(p) && p < scope,
    ensures
        resolve(scopes, scope, name) == resolve(
            scopes,
            scopes[scope].enclosing->Some_0 as int,
            name,
        ),
{
}

/// A name that neither a root scope nor anything else binds resolves to
/// nothing from that root.
pub proof fn unbound_name_of_root_is_unresolved(scopes: Seq<ScopeView>, scope: int, name: Seq<char>)
    requires
        0 <= scope < scopes.len(),
        !scopes[scope].symbols.contains_key(name),
        scopes[scope].enclosing is None,
    ensures
        resolve(scopes, scope, name) is None,
{
}

/// Declaring a name that was declared before in the same scope fails as a
/// duplicate, whatever the types of the two declarations.
pub proof fn second_declaration_is_duplicate(
    scopes: Seq<ScopeView>,
    cur: int,
    name: Seq<char>,
    first: TypeTokenView,
    second: TypeTokenView,
)
    requires
        0 <= cur < scopes.len(),
        check(
            scopes,
            cur,
            NodeView::Declaration(DeclarationView { identifier: IdentifierView::Id(name), token: first }),
        ).result is Ok,
    ensures
        check(
            check(
                scopes,
                cur,
                NodeView::Declaration(
                    DeclarationView { identifier: IdentifierView::Id(name), token: first },
                ),
            ).scopes,
            cur,
            NodeView::Declaration(
                DeclarationView { identifier: IdentifierView::Id(name), token: second },
            ),
        ).result == Err::<ResultView, ErrorView>(ErrorView::DuplicateDeclaration(name)),
{
    reveal(check);
    let b = declared_type(scopes, cur, first)->Ok_0;
    bound_symbol_resolves(scopes, cur, variable_symbol(name, b));
}

/// Declaring a name that resolves from the current scope, in that scope or
/// in one that encloses it, fails as a duplicate.
pub proof fn declaration_of_resolving_name_is_duplicate(
    scopes: Seq<ScopeView>,
    cur: int,
    name: Seq<char>,
    token: TypeTokenView,
)
    requires
        resolve(scopes, cur, name) is Some,
    ensures
        check(
            scopes,
            cur,
            NodeView::Declaration(DeclarationView { identifier: IdentifierView::Id(name), token }),
        ) == fails(
            scopes,
            NodeView::Declaration(DeclarationView { identifier: IdentifierView::Id(name), token }),
            ErrorView::DuplicateDeclaration(name),
        ),
{
    reveal(check);
}

/// A reference to a name that resolves nowhere in the scope chain fails as
/// undeclared: as a plain identifier, as an indexed identifier, as a context
/// identifier and as the target of an assignment alike.
pub proof fn unresolved_reference_is_undeclared(
    scopes: Seq<ScopeView>,
    cur: int,
    name: Seq<char>,
    index: NodeView,
    expr: NodeView,
)
    requires
        resolve(scopes, cur, name) is None,
    ensures
        check(scopes, cur, NodeView::Ident(IdentifierView::Id(name))) == fails(
            scopes,
            NodeView::Ident(IdentifierView::Id(name)),
            ErrorView::UndeclaredVariable(name),
        ),
        check(scopes, cur, NodeView::Ident(IdentifierView::ArrayId(name))) == fails(
            scopes,
            NodeView::Ident(IdentifierView::ArrayId(name)),
            ErrorView::UndeclaredVariable(name),
        ),
        check(
            scopes,
            cur,
            NodeView::IdentIndex { identifier: IdentifierView::Id(name), index: Box::new(index) },
        ) == fails(
            scopes,
            NodeView::IdentIndex { identifier: IdentifierView::Id(name), index: Box::new(index) },
            ErrorView::UndeclaredVariable(name),
        ),
        check(scopes, cur, NodeView::ContextIdent(IdentifierView::Cid(name))) == fails(
            scopes,
            NodeView::ContextIdent(IdentifierView::Cid(name)),
            ErrorView::UndeclaredVariable(name),
        ),
        check(
            scopes,
            cur,
            NodeView::Assign { identifier: IdentifierView::Id(name), expr: Box::new(expr) },
        ) == fails(
            scopes,
            NodeView::Assign { identifier: IdentifierView::Id(name), expr: Box::new(expr) },
            ErrorView::UndeclaredVariable(name),
        ),
        check(
            scopes,
            cur,
            NodeView::Assign { identifier: IdentifierView::Cid(name), expr: Box::new(expr) },
        ) == fails(
            scopes,
            NodeView::Assign { identifier: IdentifierView::Cid(name), expr: Box::new(expr) },
            ErrorView::UndeclaredVariable(name),
        ),
{
    reveal(check);
}

/// Whether every bare identifier among the first `k` of `values` resolves.
pub open spec fn resolve_before(
    scopes: Seq<ScopeView>,
    cur: int,
    values: Seq<NodeView>,
    k: int,
) -> bool {
    forall|j: int|
        0 <= j < k ==> (#[trigger] values[j] matches NodeView::Ident(id) ==> resolve(
            scopes,
            cur,
            identifier_name(id),
        ) is Some)
}

proof fn returned_list_stops_at_unresolved(
    scopes: Seq<ScopeView>,
    cur: int,
    values: Seq<NodeView>,
    k: int,
    id: IdentifierView,
    i: int,
    done: Seq<NodeView>,
    types: Seq<TypeValue>,
)
    requires
        0 <= i <= k < values.len(),
        values[k] == NodeView::Ident(id),
        resolve(scopes, cur, identifier_name(id)) is None,
        resolve_before(scopes, cur, values, k),
    ensures
        check_list(scopes, cur, values, i, done, types, Visit::Returned).error == Some(
            ErrorView::UndeclaredVariable(identifier_name(id)),
        ),
        check_list(scopes, cur, values, i, done, types, Visit::Returned).scopes == scopes,
    decreases k - i,
{
    reveal(check_list);
    reveal(visit);
    if i < k {
        let c = visit(scopes, cur, values[i], Visit::Returned);
        assert(c.result is Ok && c.scopes == scopes) by {
            match values[i] {
                NodeView::Ident(other) => {
                    assert(resolve(scopes, cur, identifier_name(other)) is Some);
                },
                _ => {},
            }
        }
        returned_list_stops_at_unresolved(
            scopes,
            cur,
            values,
            k,
            id,
            i + 1,
            done.push(c.node),
            types.push(argument_type_of(c.result->Ok_0)),
        );
    }
}

/// A return statement fails as undeclared at its first bare identifier that
/// resolves nowhere in the scope chain.
pub proof fn unresolved_return_is_undeclared(
    scopes: Seq<ScopeView>,
    cur: int,
    values: Seq<NodeView>,
    k: int,
    id: IdentifierView,
)
    requires
        0 <= k < values.len(),
        values[k] == NodeView::Ident(id),
        resolve(scopes, cur, identifier_name(id)) is None,
        resolve_before(scopes, cur, values, k),
    ensures
        check(scopes, cur, NodeView::Return(values)).result == Err::<ResultView, ErrorView>(
            ErrorView::UndeclaredVariable(identifier_name(id)),
        ),
        check(scopes, cur, NodeView::Return(values)).scopes == scopes,
{
    reveal(check);
    reveal(check_list);
    returned_list_stops_at_unresolved(
        scopes,
        cur,
        values,
        k,
        id,
        0,
        Seq::empty(),
        Seq::empty(),
    );
}

/// A reference to a name that resolves to an array variable is marked as an
/// array reference, and its type value is the array's: as a plain
/// identifier, whether marked before or not, and as the only value of a
/// return statement. The table is left as it was.
pub proof fn array_reference_is_marked(
    scopes: Seq<ScopeView>,
    cur: int,
    name: Seq<char>,
    sym: SymbolView,
)
    requires
        resolve(scopes, cur, name) == Some(sym),
        is_array_variable(sym),
    ensures
        check(scopes, cur, NodeView::Ident(IdentifierView::Id(name))) == yields(
            scopes,
            NodeView::Ident(IdentifierView::ArrayId(name)),
            ResultView::Single(variable_value(sym->Variable_ty, sym->Variable_array_len)),
        ),
        check(scopes, cur, NodeView::Ident(IdentifierView::ArrayId(name))) == check(
            scopes,
            cur,
            NodeView::Ident(IdentifierView::Id(name)),
        ),
        check(scopes, cur, NodeView::Return(seq![NodeView::Ident(IdentifierView::Id(name))]))
            == nil(scopes, NodeView::Return(seq![NodeView::Ident(IdentifierView::ArrayId(name))])),
{
    reveal(check);
    reveal(check_list);
    reveal(visit);
    let values = seq![NodeView::Ident(IdentifierView::Id(name))];
    let marked = NodeView::Ident(IdentifierView::ArrayId(name));
    assert(check_list(scopes, cur, values, 0, Seq::empty(), Seq::empty(), Visit::Returned)
        == (ListOutcome {
        scopes,
        nodes: seq![marked],
        types: seq![TypeValue::Nil],
        error: None,
    })) by {
        reveal_with_fuel(check_list, 3);
        assert(Seq::<NodeView>::empty().push(marked) =~= seq![marked]);
        assert(Seq::<TypeValue>::empty().push(TypeValue::Nil) =~= seq![TypeValue::Nil]);
    }
}

/// The target of an assignment that resolves to an array variable is marked
/// as an array reference, whatever is assigned and however its visit ends.
pub proof fn array_target_is_marked(
    scopes: Seq<ScopeView>,
    cur: int,
    name: Seq<char>,
    sym: SymbolView,
    expr: NodeView,
)
    requires
        resolve(scopes, cur, name) == Some(sym),
        is_array_variable(sym),
    ensures
        check(
            scopes,
            cur,
            NodeView::Assign { identifier: IdentifierView::Id(name), expr: Box::new(expr) },
        ) == (Outcome {
            scopes: check(scopes, cur, expr).scopes,
            node: NodeView::Assign {
                identifier: IdentifierView::ArrayId(name),
                expr: Box::new(check(scopes, cur, expr).node),
            },
            result: check(scopes, cur, expr).result,
        }),
{
    reveal(check);
}

/// Marking is idempotent: an identifier that was resolved and marked is
/// left as it is when it is resolved again.
pub proof fn marking_is_idempotent(sym: SymbolView, id: IdentifierView)
    ensures
        retagged(sym, retagged(sym, id)) == retagged(sym, id),
        identifier_name(retagged(sym, id)) == identifier_name(id),
{
}

/// Visiting a reference a second time, in the same table, changes nothing
/// further: the node that the first visit left is left as it is, and the
/// type value is the same.
pub proof fn second_visit_of_reference_changes_nothing(
    scopes: Seq<ScopeView>,
    cur: int,
    id: IdentifierView,
)
    ensures
        check(scopes, cur, check(scopes, cur, NodeView::Ident(id)).node) == check(
            scopes,
            cur,
            NodeView::Ident(id),
        ),
        check(scopes, cur, NodeView::Ident(id)).scopes == scopes,
{
    reveal(check);
}

/// Visiting the target of an assignment a second time, in the same table,
/// leaves the target as the first visit left it.
pub proof fn second_visit_of_target_changes_nothing(
    scopes: Seq<ScopeView>,
    cur: int,
    id: IdentifierView,
)
    requires
        check_assigned(scopes, cur, id) is Ok,
    ensures
        check_assigned(scopes, cur, check_assigned(scopes, cur, id)->Ok_0) == check_assigned(
            scopes,
            cur,
            id,
        ),
{
}

/// Visiting a returned value a second time, in the same table, leaves it as
/// the first visit left it.
pub proof fn second_visit_of_returned_changes_nothing(scopes: Seq<ScopeView>, cur: int, n: NodeView)
    ensures
        visit(scopes, cur, visit(scopes, cur, n, Visit::Returned).node, Visit::Returned) == visit(
            scopes,
            cur,
            n,
            Visit::Returned,
        ),
{
    reveal(visit);
}

/// The arguments of a call are faultless exactly where there are as many
/// as the function has parameters and each has the type declared at its
/// position.
pub proof fn arguments_match_exactly(
    function: Seq<char>,
    params: Seq<ParamView>,
    actual: Seq<TypeValue>,
    i: int,
)
    requires
        0 <= i <= params.len(),
    ensures
        argument_error(function, params, actual, i) is None <==> (actual.len() == params.len()
            && forall|j: int| i <= j < params.len() ==> builtin_value(params[j].ty) == actual[j]),
    decreases params.len() - i,
{
    if i < params.len() {
        arguments_match_exactly(function, params, actual, i + 1);
        if i < actual.len() && builtin_value(params[i].ty) == actual[i] {
            assert(argument_error(function, params, actual, i) == argument_error(
                function,
                params,
                actual,
                i + 1,
            ));
        }
    }
}

/// An argument of another type than the parameter declared at its position
/// is reported at the first such position.
pub proof fn first_mismatch_is_reported(
    function: Seq<char>,
    params: Seq<ParamView>,
    actual: Seq<TypeValue>,
    i: int,
    k: int,
)
    requires
        0 <= i <= k < params.len(),
        k < actual.len(),
        builtin_value(params[k].ty) != actual[k],
        forall|j: int| i <= j < k ==> builtin_value(params[j].ty) == actual[j],
    ensures
        argument_error(function, params, actual, i) == Some(
            ErrorView::ArgumentTypeMismatch { function, position: k as usize },
        ),
    decreases k - i,
{
    if i < k {
        first_mismatch_is_reported(function, params, actual, i + 1, k);
    }
}

/// A call whose arguments visit without error, but one of which has another
/// type than the parameter declared at its position, fails with an argument
/// type mismatch at the first such position.
pub proof fn mismatched_call_fails(
    scopes: Seq<ScopeView>,
    cur: int,
    func_name: IdentifierView,
    actual_params: Seq<NodeView>,
    func_symbol: Option<SymbolView>,
    k: int,
)
    requires
        resolve(scopes, cur, identifier_name(func_name)) matches Some(
            SymbolView::Function { params, .. },
        ) && check_list(
            scopes,
            cur,
            actual_params,
            0,
            Seq::empty(),
            Seq::empty(),
            Visit::Statement,
        ) matches ListOutcome { types, error: None, .. } && 0 <= k < params.len() && k
            < types.len() && builtin_value(params[k].ty) != types[k] && forall|j: int|
            0 <= j < k ==> builtin_value(params[j].ty) == types[j],
    ensures
        check(scopes, cur, NodeView::Call { func_name, actual_params, func_symbol }).result == Err::<
            ResultView,
            ErrorView,
        >(
            ErrorView::ArgumentTypeMismatch {
                function: identifier_name(func_name),
                position: k as usize,
            },
        ),
{
    reveal(check);
    reveal(check_list);
    let params = resolve(scopes, cur, identifier_name(func_name))->Some_0->Function_params;
    let args = check_list(
        scopes,
        cur,
        actual_params,
        0,
        Seq::empty(),
        Seq::empty(),
        Visit::Statement,
    );
    first_mismatch_is_reported(identifier_name(func_name), params, args.types, 0, k);
}

/// A call whose arguments visit without error, are as many as the function
/// has parameters, and each have the type declared at their position,
/// succeeds, and the resolved function symbol is attached to the call.
pub proof fn matching_call_is_annotated(
    scopes: Seq<ScopeView>,
    cur: int,
    func_name: IdentifierView,
    actual_params: Seq<NodeView>,
    func_symbol: Option<SymbolView>,
)
    requires
        resolve(scopes, cur, identifier_name(func_name)) matches Some(
            SymbolView::Function { params, .. },
        ) && check_list(
            scopes,
            cur,
            actual_params,
            0,
            Seq::empty(),
            Seq::empty(),
            Visit::Statement,
        ) matches ListOutcome { types, error: None, .. } && types.len() == params.len()
            && forall|j: int| 0 <= j < params.len() ==> builtin_value(params[j].ty) == types[j],
    ensures
        check(scopes, cur, NodeView::Call { func_name, actual_params, func_symbol }).result == Ok::<
            ResultView,
            ErrorView,
        >(ResultView::Single(TypeValue::Nil)),
        check(scopes, cur, NodeView::Call { func_name, actual_params, func_symbol }).node
            matches NodeView::Call { func_symbol: attached, .. } && attached == resolve(
            scopes,
            cur,
            identifier_name(func_name),
        ),
{
    reveal(check);
    reveal(check_list);
    let params = resolve(scopes, cur, identifier_name(func_name))->Some_0->Function_params;
    let args = check_list(
        scopes,
        cur,
        actual_params,
        0,
        Seq::empty(),
        Seq::empty(),
        Visit::Statement,
    );
    arguments_match_exactly(identifier_name(func_name), params, args.types, 0);
}

} // verus!
