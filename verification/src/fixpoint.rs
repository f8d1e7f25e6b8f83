//! The tree that a visit leaves is a fixed point of the analysis: visiting
//! it again, in the table in which the first visit began, changes nothing
//! further and ends as the first visit did, whether in a type value or in
//! an error.

use vstd::prelude::*;
use crate::ast::{DeclarationView, IdentifierView, NodeView};
use crate::error::ErrorView;
use crate::model::{
    ListOutcome,
    ParamChecked,
    Visit,
    bind,
    check,
    check_list,
    check_list_unfolds,
    check_param,
    entry_label,
    first_param_error,
    function_scope,
    params_marked,
    function_symbol,
    params_checked,
    visit,
};
use crate::symbol::{ScopeView, fresh_scope};
use crate::types::{TypeValue, argument_type_of};

verus! {

/// A parameter that was visited is left as it is by a second visit, which
/// gives the same signature entry and the same variable.
pub proof fn param_again(scopes: Seq<ScopeView>, cur: int, d: DeclarationView)
    requires
        check_param(scopes, cur, d) is Ok,
    ensures
        check_param(scopes, cur, check_param(scopes, cur, d)->Ok_0.declaration) == check_param(
            scopes,
            cur,
            d,
        ),
{
}

/// The parameters that a first visit left all resolve again.
pub proof fn params_again(scopes: Seq<ScopeView>, cur: int, ds: Seq<DeclarationView>, i: int)
    requires
        0 <= i <= ds.len(),
        first_param_error(scopes, cur, ds, i) is None,
    ensures
        forall|j: int| i <= j < ds.len() ==> (#[trigger] check_param(scopes, cur, ds[j])) is Ok,
        first_param_error(
            scopes,
            cur,
            params_checked(scopes, cur, ds).map_values(|p: ParamChecked| p.declaration),
            i,
        ) is None,
    decreases ds.len() - i,
{
    let after = params_checked(scopes, cur, ds).map_values(|p: ParamChecked| p.declaration);
    if i < ds.len() {
        params_again(scopes, cur, ds, i + 1);
        param_again(scopes, cur, ds[i]);
        assert(after[i] == check_param(scopes, cur, ds[i])->Ok_0.declaration);
    }
}

/// Where the first parameter from position `i` on that does not resolve is
/// the one at `k`, those between resolve, and the one at `k` gives the error.
pub proof fn first_param_error_is_first(
    scopes: Seq<ScopeView>,
    cur: int,
    ds: Seq<DeclarationView>,
    i: int,
)
    requires
        0 <= i,
        first_param_error(scopes, cur, ds, i) is Some,
    ensures
        i <= first_param_error(scopes, cur, ds, i)->Some_0.0 < ds.len(),
        forall|j: int|
            i <= j < first_param_error(scopes, cur, ds, i)->Some_0.0 ==> (#[trigger] check_param(
                scopes,
                cur,
                ds[j],
            )) is Ok,
        check_param(scopes, cur, ds[first_param_error(scopes, cur, ds, i)->Some_0.0]) == Err::<
            ParamChecked,
            ErrorView,
        >(first_param_error(scopes, cur, ds, i)->Some_0.1),
    decreases ds.len() - i,
{
    if i < ds.len() && check_param(scopes, cur, ds[i]) is Ok {
        first_param_error_is_first(scopes, cur, ds, i + 1);
    }
}

/// Where the parameters from position `i` up to `k` resolve and the one at
/// `k` does not, the first error from `i` on is the one at `k`.
pub proof fn first_param_error_is_found(
    scopes: Seq<ScopeView>,
    cur: int,
    ds: Seq<DeclarationView>,
    i: int,
    k: int,
)
    requires
        0 <= i <= k < ds.len(),
        forall|j: int| i <= j < k ==> (#[trigger] check_param(scopes, cur, ds[j])) is Ok,
        check_param(scopes, cur, ds[k]) is Err,
    ensures
        first_param_error(scopes, cur, ds, i) == Some((k, check_param(scopes, cur, ds[k])->Err_0)),
    decreases k - i,
{
    if i < k {
        assert(check_param(scopes, cur, ds[i]) is Ok);
        first_param_error_is_found(scopes, cur, ds, i + 1, k);
    }
}

/// The parameters that a failed visit left fail again at the same
/// position with the same error, and are left as they are.
pub proof fn params_fail_again(scopes: Seq<ScopeView>, cur: int, ds: Seq<DeclarationView>)
    requires
        first_param_error(scopes, cur, ds, 0) is Some,
    ensures
        first_param_error(
            scopes,
            cur,
            params_marked(scopes, cur, ds, first_param_error(scopes, cur, ds, 0)->Some_0.0),
            0,
        ) == first_param_error(scopes, cur, ds, 0),
        params_marked(
            scopes,
            cur,
            params_marked(scopes, cur, ds, first_param_error(scopes, cur, ds, 0)->Some_0.0),
            first_param_error(scopes, cur, ds, 0)->Some_0.0,
        ) == params_marked(scopes, cur, ds, first_param_error(scopes, cur, ds, 0)->Some_0.0),
{
    let k = first_param_error(scopes, cur, ds, 0)->Some_0.0;
    let after = params_marked(scopes, cur, ds, k);
    first_param_error_is_first(scopes, cur, ds, 0);
    assert forall|j: int| 0 <= j < k implies (#[trigger] check_param(scopes, cur, after[j])) is Ok
        && check_param(scopes, cur, after[j])->Ok_0.declaration == after[j] by {
        assert(check_param(scopes, cur, ds[j]) is Ok);
        param_again(scopes, cur, ds[j]);
    }
    assert(after[k] == ds[k]);
    first_param_error_is_found(scopes, cur, after, 0, k);
    assert(params_marked(scopes, cur, after, k) =~= after);
}

/// What a visit of a list leaves behind begins with what was done before,
/// and has one node for each element that was still to visit.
pub proof fn list_keeps_what_is_done(
    scopes: Seq<ScopeView>,
    cur: int,
    ns: Seq<NodeView>,
    i: int,
    done: Seq<NodeView>,
    types: Seq<TypeValue>,
    how: Visit,
)
    requires
        0 <= i <= ns.len(),
    ensures
        check_list(scopes, cur, ns, i, done, types, how).nodes.len() == done.len() + ns.len() - i,
        forall|k: int|
            0 <= k < done.len() ==> check_list(scopes, cur, ns, i, done, types, how).nodes[k]
                == done[k],
    decreases ns.len() - i,
{
    check_list_unfolds(scopes, cur, ns, i, done, types, how);
    if i < ns.len() {
        let c = visit(scopes, cur, ns[i], how);
        let l = check_list(scopes, cur, ns, i, done, types, how);
        match c.result {
            Ok(t) => {
                list_keeps_what_is_done(
                    c.scopes,
                    cur,
                    ns,
                    i + 1,
                    done.push(c.node),
                    types.push(argument_type_of(t)),
                    how,
                );
            },
            Err(_) => {},
        }
        assert forall|k: int| 0 <= k < done.len() implies l.nodes[k] == done[k] by {
            assert(done.push(c.node)[k] == done[k]);
        }
    }
}

/// The node that a visit left is left as it is by a second visit in the
/// same table, which ends as the first did.
pub proof fn check_again(scopes: Seq<ScopeView>, cur: int, n: NodeView)
    ensures
        check(scopes, cur, check(scopes, cur, n).node) == check(scopes, cur, n),
    decreases n, 0nat,
{
    reveal(check);
    reveal(check_list);
    match n {
        NodeView::Entry { global_declarations, entry_block } => {
            let ds = list_first(scopes, cur, global_declarations, Visit::Statement);
            list_again(
                scopes,
                cur,
                global_declarations,
                ds.nodes,
                0,
                Seq::empty(),
                Seq::empty(),
                Visit::Statement,
            );
            check_again(ds.scopes, cur, *entry_block);
        },
        NodeView::Block { declarations, compound_statement } => {
            let ds = list_first(scopes, cur, declarations, Visit::Statement);
            list_again(
                scopes,
                cur,
                declarations,
                ds.nodes,
                0,
                Seq::empty(),
                Seq::empty(),
                Visit::Statement,
            );
            check_again(ds.scopes, cur, *compound_statement);
        },
        NodeView::EntryBlock { declarations, compound_statement } => {
            let opened = scopes.push(fresh_scope(scopes, entry_label(), Some(cur as usize)));
            let inner = scopes.len() as int;
            let ds = list_first(opened, inner, declarations, Visit::Statement);
            list_again(
                opened,
                inner,
                declarations,
                ds.nodes,
                0,
                Seq::empty(),
                Seq::empty(),
                Visit::Statement,
            );
            check_again(ds.scopes, inner, *compound_statement);
        },
        NodeView::IdentIndex { identifier, index } => {
            check_again(scopes, cur, *index);
        },
        NodeView::BinOp { left, operator, right } => {
            check_again(scopes, cur, *left);
            let l = check(scopes, cur, *left);
            check_again(l.scopes, cur, *right);
        },
        NodeView::UnaryOp { operator, expr } => {
            check_again(scopes, cur, *expr);
        },
        NodeView::Compound(children) => {
            let cs = list_first(scopes, cur, children, Visit::Statement);
            list_again(
                scopes,
                cur,
                children,
                cs.nodes,
                0,
                Seq::empty(),
                Seq::empty(),
                Visit::Statement,
            );
        },
        NodeView::Assign { identifier, expr } => {
            check_again(scopes, cur, *expr);
        },
        NodeView::MultiAssign { identifier, call } => {
            let ts = list_first(scopes, cur, identifier, Visit::Target);
            list_again(
                scopes,
                cur,
                identifier,
                ts.nodes,
                0,
                Seq::empty(),
                Seq::empty(),
                Visit::Target,
            );
            check_again(ts.scopes, cur, *call);
        },
        NodeView::Cond { condition, consequences, alternatives } => {
            check_again(scopes, cur, *condition);
            let c = check(scopes, cur, *condition);
            let yes = list_first(c.scopes, cur, consequences, Visit::Statement);
            list_again(
                c.scopes,
                cur,
                consequences,
                yes.nodes,
                0,
                Seq::empty(),
                Seq::empty(),
                Visit::Statement,
            );
            let no = list_first(yes.scopes, cur, alternatives, Visit::Statement);
            list_again(
                yes.scopes,
                cur,
                alternatives,
                no.nodes,
                0,
                Seq::empty(),
                Seq::empty(),
                Visit::Statement,
            );
        },
        NodeView::Loop { condition, consequences } => {
            check_again(scopes, cur, *condition);
            let c = check(scopes, cur, *condition);
            let body = list_first(c.scopes, cur, consequences, Visit::Statement);
            list_again(
                c.scopes,
                cur,
                consequences,
                body.nodes,
                0,
                Seq::empty(),
                Seq::empty(),
                Visit::Statement,
            );
        },
        NodeView::Function { func_name, params, block, body } => {
            match func_name {
                IdentifierView::Id(name) => {
                    if first_param_error(scopes, cur, params, 0) is Some {
                        params_fail_again(scopes, cur, params);
                    } else {
                        let ps = params_checked(scopes, cur, params);
                        let after = ps.map_values(|p: ParamChecked| p.declaration);
                        params_again(scopes, cur, params, 0);
                        assert(params_checked(scopes, cur, after) =~= ps) by {
                            assert forall|j: int| 0 <= j < ps.len() implies params_checked(
                                scopes,
                                cur,
                                after,
                            )[j] == ps[j] by {
                                assert(check_param(scopes, cur, params[j]) is Ok);
                                param_again(scopes, cur, params[j]);
                            }
                        }
                        let registered = bind(scopes, cur, function_symbol(name, ps, body));
                        let opened = registered.push(function_scope(registered, cur, name, ps));
                        check_again(opened, scopes.len() as int, *block);
                    }
                },
                _ => {},
            }
        },
        NodeView::Call { func_name, actual_params, func_symbol } => {
            let args = list_first(scopes, cur, actual_params, Visit::Statement);
            list_again(
                scopes,
                cur,
                actual_params,
                args.nodes,
                0,
                Seq::empty(),
                Seq::empty(),
                Visit::Statement,
            );
        },
        NodeView::Return(values) => {
            let rs = list_first(scopes, cur, values, Visit::Returned);
            list_again(
                scopes,
                cur,
                values,
                rs.nodes,
                0,
                Seq::empty(),
                Seq::empty(),
                Visit::Returned,
            );
        },
        NodeView::Sqrt(value) => {
            check_again(scopes, cur, *value);
        },
        NodeView::Malloc(size) => {
            check_again(scopes, cur, *size);
        },
        NodeView::Printf { flag, val_addr } => {
            check_again(scopes, cur, *flag);
            let f = check(scopes, cur, *flag);
            check_again(f.scopes, cur, *val_addr);
        },
        _ => {},
    }
}

/// What a visit of a whole list leaves behind, with the facts about it
/// that a second visit needs.
proof fn list_first(scopes: Seq<ScopeView>, cur: int, ns: Seq<NodeView>, how: Visit) -> (l:
    ListOutcome)
    ensures
        l == check_list(scopes, cur, ns, 0, Seq::empty(), Seq::empty(), how),
        l.nodes.len() == ns.len(),
{
    list_keeps_what_is_done(scopes, cur, ns, 0, Seq::empty(), Seq::empty(), how);
    check_list(scopes, cur, ns, 0, Seq::empty(), Seq::empty(), how)
}

/// The element of a list that a visit left is left as it is by a second
/// visit in the same table, which ends as the first did.
pub proof fn visit_again(scopes: Seq<ScopeView>, cur: int, n: NodeView, how: Visit)
    ensures
        visit(scopes, cur, visit(scopes, cur, n, how).node, how) == visit(scopes, cur, n, how),
    decreases n, 1nat,
{
    reveal(visit);
    reveal(check);
    match how {
        Visit::Returned => {},
        Visit::Statement => {
            check_again(scopes, cur, n);
        },
        Visit::Target => {
            match n {
                NodeView::Ident(_) => {},
                NodeView::ContextIdent(_) => {},
                _ => {
                    check_again(scopes, cur, n);
                },
            }
        },
    }
}

/// A list whose elements from position `i` on are what a first visit left
/// of them is visited from `i` on as the first visit was.
pub proof fn list_again(
    scopes: Seq<ScopeView>,
    cur: int,
    ns: Seq<NodeView>,
    ms: Seq<NodeView>,
    i: int,
    done: Seq<NodeView>,
    types: Seq<TypeValue>,
    how: Visit,
)
    requires
        0 <= i <= ns.len(),
        ms.len() == ns.len(),
        forall|j: int|
            i <= j < ns.len() ==> #[trigger] ms[j] == check_list(
                scopes,
                cur,
                ns,
                i,
                done,
                types,
                how,
            ).nodes[done.len() + j - i],
    ensures
        check_list(scopes, cur, ms, i, done, types, how) == check_list(
            scopes,
            cur,
            ns,
            i,
            done,
            types,
            how,
        ),
    decreases ns, ns.len() - i,
{
    check_list_unfolds(scopes, cur, ns, i, done, types, how);
    check_list_unfolds(scopes, cur, ms, i, done, types, how);
    if i < ns.len() {
        let c = visit(scopes, cur, ns[i], how);
        let l = check_list(scopes, cur, ns, i, done, types, how);
        visit_again(scopes, cur, ns[i], how);
        match c.result {
            Ok(t) => {
                list_keeps_what_is_done(
                    c.scopes,
                    cur,
                    ns,
                    i + 1,
                    done.push(c.node),
                    types.push(argument_type_of(t)),
                    how,
                );
                assert(l.nodes[done.len() as int] == done.push(c.node)[done.len() as int]);
                assert(ms[i] == c.node);
                list_again(
                    c.scopes,
                    cur,
                    ns,
                    ms,
                    i + 1,
                    done.push(c.node),
                    types.push(argument_type_of(t)),
                    how,
                );
            },
            Err(_) => {
                assert(ms[i] == c.node);
                assert(ms.subrange(i + 1, ms.len() as int) =~= ns.subrange(i + 1, ns.len() as int))
                    by {
                    assert forall|j: int| i + 1 <= j < ns.len() implies ms[j] == ns[j] by {
                        assert(ms[j] == l.nodes[done.len() + j - i]);
                    }
                }
            },
        }
    }
}

} // verus!
