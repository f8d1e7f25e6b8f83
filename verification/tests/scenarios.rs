use ola_sema::ast::{
    ArrayNumNode, MallocNode, PrintfNode, SqrtNode, UnaryOpNode,
    AssignNode, BinOpNode, BlockNode, CallNode, CompoundNode, CondStatNode, ContextIdentNode,
    EntryBlockNode, EntryNode, FeltNumNode, FunctionNode, IdentDeclarationNode, IdentIndexNode,
    IdentNode, Identifier, IntegerNumNode, LoopStatNode, MultiAssignNode, Node, Operator,
    ReturnNode, TypeNode, TypeToken,
};
use ola_sema::error::SemaError;
use ola_sema::prophet::{OlaProphet, ProphetVariable};
use ola_sema::sema::SymTableGen;
use ola_sema::symbol::{BodyHandle, Param, Symbol};
use ola_sema::types::{BuiltinType, Literal, ScalarType, TraversalResult, TypeValue};

fn s(text: &str) -> String {
    text.to_string()
}

fn prophet_with_input(name: &str, length: usize) -> OlaProphet {
    OlaProphet {
        inputs: vec![ProphetVariable { name: s(name), length }],
        ctx: vec![],
        outputs: vec![],
    }
}

fn empty_prophet() -> OlaProphet {
    OlaProphet { inputs: vec![], ctx: vec![], outputs: vec![] }
}

fn ident(name: &str) -> Node {
    Node::Ident(IdentNode { identifier: Identifier::Id(s(name)) })
}

fn array_ident(name: &str) -> Node {
    Node::Ident(IdentNode { identifier: Identifier::ArrayId(s(name)) })
}

fn felt(value: u64) -> Node {
    Node::Felt(FeltNumNode { value })
}

fn integer(value: i32) -> Node {
    Node::Integer(IntegerNumNode { value })
}

fn declaration(name: &str, token: TypeToken) -> IdentDeclarationNode {
    IdentDeclarationNode {
        ident_node: IdentNode { identifier: Identifier::Id(s(name)) },
        type_node: TypeNode { token },
    }
}

fn named(name: &str) -> TypeToken {
    TypeToken::Named(s(name))
}

fn array_of(name: &str, len: usize) -> TypeToken {
    TypeToken::Array(s(name), len)
}

fn compound(children: Vec<Node>) -> Node {
    Node::Compound(CompoundNode { children })
}

fn return_of(values: Vec<Node>) -> Node {
    Node::Return(ReturnNode { returns: values })
}

fn assign(name: &str, expr: Node) -> Node {
    Node::Assign(AssignNode { identifier: Identifier::Id(s(name)), expr: Box::new(expr) })
}

fn call(name: &str, args: Vec<Node>) -> Node {
    Node::Call(CallNode {
        func_name: Identifier::Id(s(name)),
        actual_params: args,
        func_symbol: None,
    })
}

fn block(declarations: Vec<Node>, statements: Vec<Node>) -> Node {
    Node::Block(BlockNode { declarations, compound_statement: Box::new(compound(statements)) })
}

fn function(
    name: &str,
    params: Vec<IdentDeclarationNode>,
    declarations: Vec<Node>,
    statements: Vec<Node>,
    handle: usize,
) -> Node {
    Node::Function(FunctionNode {
        func_name: Identifier::Id(s(name)),
        params,
        block: Box::new(block(declarations, statements)),
        body: BodyHandle(handle),
    })
}

fn program(globals: Vec<Node>, declarations: Vec<Node>, statements: Vec<Node>) -> Node {
    Node::Entry(EntryNode {
        global_declarations: globals,
        entry_block: Box::new(Node::EntryBlock(EntryBlockNode {
            declarations,
            compound_statement: Box::new(compound(statements)),
        })),
    })
}

fn entry_statements(node: &Node) -> &Vec<Node> {
    match node {
        Node::Entry(e) => match &*e.entry_block {
            Node::EntryBlock(b) => match &*b.compound_statement {
                Node::Compound(c) => &c.children,
                other => panic!("no statement list: {:?}", other),
            },
            other => panic!("no entry block: {:?}", other),
        },
        other => panic!("no program: {:?}", other),
    }
}

fn nil() -> Result<TraversalResult, SemaError> {
    Ok(TraversalResult::Single(TypeValue::Nil))
}

#[test]
fn return_of_scalar_input_succeeds() {
    let mut gen = SymTableGen::new(&prophet_with_input("x", 1));
    let mut tree = program(vec![], vec![], vec![return_of(vec![ident("x")])]);
    assert_eq!(gen.travel(&mut tree), nil());
    assert_eq!(entry_statements(&tree)[0], return_of(vec![ident("x")]));
    assert_eq!(
        gen.lookup(&s("x")),
        Some(Symbol::Variable { name: s("x"), ty: ScalarType::Felt, array_len: None })
    );
    let mut reference = ident("x");
    assert_eq!(gen.travel(&mut reference), Ok(TraversalResult::Single(TypeValue::Felt)));
    assert_eq!(reference, ident("x"));
}

#[test]
fn assignment_to_undeclared_name_fails() {
    let mut gen = SymTableGen::new(&prophet_with_input("x", 1));
    let mut tree =
        program(vec![], vec![], vec![assign("y", integer(1)), return_of(vec![ident("y")])]);
    assert_eq!(gen.travel(&mut tree), Err(SemaError::UndeclaredVariable(s("y"))));
}

#[test]
fn array_argument_for_scalar_parameter_fails() {
    let mut gen = SymTableGen::new(&empty_prophet());
    let mut tree = program(
        vec![
            Node::Declaration(declaration("arr", array_of("felt", 4))),
            function("f", vec![declaration("p", named("felt"))], vec![], vec![], 0),
        ],
        vec![],
        vec![call("f", vec![ident("arr")])],
    );
    assert_eq!(
        gen.travel(&mut tree),
        Err(SemaError::ArgumentTypeMismatch { function: s("f"), position: 0 })
    );
}

#[test]
fn two_matching_calls_are_both_annotated() {
    let mut gen = SymTableGen::new(&prophet_with_input("x", 1));
    let mut tree = program(
        vec![function(
            "g",
            vec![declaration("a", named("felt"))],
            vec![],
            vec![return_of(vec![ident("a")])],
            7,
        )],
        vec![],
        vec![call("g", vec![ident("x")]), call("g", vec![felt(3)])],
    );
    assert_eq!(gen.travel(&mut tree), nil());
    let resolved = Symbol::Function {
        name: s("g"),
        params: vec![Param { name: s("a"), ty: BuiltinType::Scalar(ScalarType::Felt) }],
        body: BodyHandle(7),
    };
    let statements = entry_statements(&tree);
    for statement in statements.iter() {
        match statement {
            Node::Call(c) => assert_eq!(c.func_symbol, Some(resolved.clone())),
            other => panic!("no call: {:?}", other),
        }
    }
    assert_eq!(statements.len(), 2);
}

#[test]
fn nested_function_sees_outer_parameter() {
    let mut gen = SymTableGen::new(&empty_prophet());
    let inner = function("inner", vec![], vec![], vec![return_of(vec![ident("v")])], 2);
    let outer = function(
        "outer",
        vec![declaration("v", named("felt"))],
        vec![inner],
        vec![call("inner", vec![])],
        1,
    );
    let mut tree = program(vec![outer], vec![], vec![]);
    assert_eq!(gen.travel(&mut tree), nil());
    // root, outer's scope, inner's scope, the entry block's scope
    assert_eq!(gen.table().len(), 4);
    assert_eq!(gen.table().scope_name(1), s("outer"));
    assert_eq!(gen.table().scope_name(2), s("inner"));
    assert_eq!(gen.table().enclosing_scope(2), Some(1));
    assert_eq!(gen.table().enclosing_scope(1), Some(0));
    assert_eq!(gen.table().scope_level(2), 3);
    assert_eq!(
        gen.table().lookup(2, &s("v")),
        Some(Symbol::Variable { name: s("v"), ty: ScalarType::Felt, array_len: None })
    );
    // outside of `outer` the parameter and the nested function are unknown
    assert_eq!(gen.lookup(&s("v")), None);
    assert_eq!(gen.lookup(&s("inner")), None);
    assert!(gen.lookup(&s("outer")).is_some());
}

#[test]
fn declaring_a_name_twice_in_one_scope_fails() {
    let mut gen = SymTableGen::new(&empty_prophet());
    let mut first = declaration("a", named("felt"));
    let mut second = declaration("a", named("i32"));
    assert_eq!(gen.travel_declaration(&mut first), nil());
    assert_eq!(
        gen.travel_declaration(&mut second),
        Err(SemaError::DuplicateDeclaration(s("a")))
    );
    let mut third = declaration("a", array_of("felt", 2));
    assert_eq!(gen.travel_declaration(&mut third), Err(SemaError::DuplicateDeclaration(s("a"))));
}

#[test]
fn declaring_a_name_of_an_outer_scope_fails() {
    let mut gen = SymTableGen::new(&prophet_with_input("x", 1));
    let mut tree =
        program(vec![], vec![Node::Declaration(declaration("x", named("i32")))], vec![]);
    assert_eq!(gen.travel(&mut tree), Err(SemaError::DuplicateDeclaration(s("x"))));
}

#[test]
fn declaring_a_builtin_type_name_fails() {
    let mut gen = SymTableGen::new(&empty_prophet());
    let mut d = declaration("felt", named("felt"));
    assert_eq!(gen.travel_declaration(&mut d), Err(SemaError::DuplicateDeclaration(s("felt"))));
}

#[test]
fn undeclared_names_fail_in_every_position() {
    let mut gen = SymTableGen::new(&empty_prophet());
    let undeclared = Err(SemaError::UndeclaredVariable(s("n")));
    assert_eq!(gen.travel(&mut ident("n")), undeclared);
    assert_eq!(gen.travel(&mut array_ident("n")), undeclared);
    let mut indexed = Node::IdentIndex(IdentIndexNode {
        identifier: Identifier::Id(s("n")),
        index: Box::new(integer(0)),
    });
    assert_eq!(gen.travel(&mut indexed), undeclared);
    let mut context = Node::ContextIdent(ContextIdentNode { identifier: Identifier::Cid(s("n")) });
    assert_eq!(gen.travel(&mut context), undeclared);
    assert_eq!(gen.travel(&mut return_of(vec![felt(1), ident("n")])), undeclared);
    assert_eq!(gen.travel(&mut assign("n", felt(1))), undeclared);
    let mut context_target = Node::Assign(AssignNode {
        identifier: Identifier::Cid(s("n")),
        expr: Box::new(felt(1)),
    });
    assert_eq!(gen.travel(&mut context_target), undeclared);
    let mut multi = Node::MultiAssign(MultiAssignNode {
        identifier: vec![ident("n")],
        call: Box::new(call("f", vec![])),
    });
    assert_eq!(gen.travel(&mut multi), undeclared);
}

#[test]
fn array_references_are_marked_everywhere() {
    let mut gen = SymTableGen::new(&prophet_with_input("data", 3));
    let array = TypeValue::Array(ScalarType::Felt, 3);
    let mut plain = ident("data");
    assert_eq!(gen.travel(&mut plain), Ok(TraversalResult::Single(array)));
    assert_eq!(plain, array_ident("data"));
    let mut again = ident("data");
    assert_eq!(gen.travel(&mut again), Ok(TraversalResult::Single(array)));
    assert_eq!(again, array_ident("data"));
    let mut target = assign("data", felt(0));
    assert_eq!(gen.travel(&mut target), Ok(TraversalResult::Single(TypeValue::Felt)));
    assert_eq!(
        target,
        Node::Assign(AssignNode {
            identifier: Identifier::ArrayId(s("data")),
            expr: Box::new(felt(0)),
        })
    );
    let mut returned = return_of(vec![ident("data"), felt(2)]);
    assert_eq!(gen.travel(&mut returned), nil());
    assert_eq!(returned, return_of(vec![array_ident("data"), felt(2)]));
}

#[test]
fn marking_twice_changes_nothing_further() {
    let mut gen = SymTableGen::new(&prophet_with_input("data", 3));
    let mut node = ident("data");
    let first = gen.travel(&mut node);
    let after_first = array_ident("data");
    assert_eq!(node, after_first);
    let second = gen.travel(&mut node);
    assert_eq!(first, second);
    assert_eq!(node, after_first);
    let mut returned = return_of(vec![ident("data")]);
    assert_eq!(gen.travel(&mut returned), nil());
    assert_eq!(gen.travel(&mut returned), nil());
    assert_eq!(returned, return_of(vec![array_ident("data")]));
}

#[test]
fn declared_array_has_element_type_and_length() {
    let mut gen = SymTableGen::new(&empty_prophet());
    let mut d = declaration("a", array_of("i32", 5));
    assert_eq!(gen.travel_declaration(&mut d), nil());
    assert_eq!(
        gen.lookup(&s("a")),
        Some(Symbol::Variable { name: s("a"), ty: ScalarType::I32, array_len: Some(5) })
    );
    assert_eq!(
        gen.travel(&mut ident("a")),
        Ok(TraversalResult::Single(TypeValue::Array(ScalarType::I32, 5)))
    );
}

#[test]
fn matching_array_argument_is_accepted() {
    let mut gen = SymTableGen::new(&prophet_with_input("data", 4));
    let mut tree = program(
        vec![function("f", vec![declaration("p", array_of("felt", 4))], vec![], vec![], 0)],
        vec![],
        vec![call("f", vec![ident("data")])],
    );
    assert_eq!(gen.travel(&mut tree), nil());
    match &entry_statements(&tree)[0] {
        Node::Call(c) => {
            assert_eq!(c.actual_params[0], array_ident("data"));
            assert_eq!(
                c.func_symbol,
                Some(Symbol::Function {
                    name: s("f"),
                    params: vec![Param {
                        name: s("p"),
                        ty: BuiltinType::Array(ScalarType::Felt, 4),
                    }],
                    body: BodyHandle(0),
                })
            );
        }
        other => panic!("no call: {:?}", other),
    }
    // the array parameter of the definition is marked
    match &tree {
        Node::Entry(e) => match &e.global_declarations[0] {
            Node::Function(f) => {
                assert_eq!(f.params[0].ident_node.identifier, Identifier::ArrayId(s("p")))
            }
            other => panic!("no function: {:?}", other),
        },
        other => panic!("no program: {:?}", other),
    }
}

#[test]
fn array_of_other_length_is_a_mismatch() {
    let mut gen = SymTableGen::new(&prophet_with_input("data", 3));
    let mut tree = program(
        vec![function("f", vec![declaration("p", array_of("felt", 4))], vec![], vec![], 0)],
        vec![],
        vec![call("f", vec![ident("data")])],
    );
    assert_eq!(
        gen.travel(&mut tree),
        Err(SemaError::ArgumentTypeMismatch { function: s("f"), position: 0 })
    );
}

#[test]
fn integer_argument_for_felt_parameter_is_a_mismatch_at_its_position() {
    let mut gen = SymTableGen::new(&empty_prophet());
    let mut tree = program(
        vec![function(
            "f",
            vec![declaration("p", named("felt")), declaration("q", named("felt"))],
            vec![],
            vec![],
            0,
        )],
        vec![],
        vec![call("f", vec![felt(1), integer(2)])],
    );
    assert_eq!(
        gen.travel(&mut tree),
        Err(SemaError::ArgumentTypeMismatch { function: s("f"), position: 1 })
    );
}

#[test]
fn wrong_number_of_arguments_is_a_count_mismatch() {
    let definition =
        || function("f", vec![declaration("p", named("felt"))], vec![], vec![], 0);
    let mut gen = SymTableGen::new(&empty_prophet());
    let mut few = program(vec![definition()], vec![], vec![call("f", vec![])]);
    assert_eq!(
        gen.travel(&mut few),
        Err(SemaError::ArgumentCountMismatch { function: s("f"), expected: 1, found: 0 })
    );
    let mut gen = SymTableGen::new(&empty_prophet());
    let mut many = program(vec![definition()], vec![], vec![call("f", vec![felt(1), felt(2)])]);
    assert_eq!(
        gen.travel(&mut many),
        Err(SemaError::ArgumentCountMismatch { function: s("f"), expected: 1, found: 2 })
    );
}

#[test]
fn call_of_unknown_function_fails() {
    let mut gen = SymTableGen::new(&empty_prophet());
    assert_eq!(
        gen.travel(&mut call("nowhere", vec![])),
        Err(SemaError::FunctionNotFound(s("nowhere")))
    );
}

#[test]
fn call_of_a_variable_is_an_internal_error() {
    let mut gen = SymTableGen::new(&prophet_with_input("x", 1));
    let r = gen.travel(&mut call("x", vec![]));
    assert_eq!(r, Err(SemaError::UnexpectedSymbol(s("x"))));
    assert!(r.unwrap_err().is_internal());
}

#[test]
fn errors_in_arguments_come_before_the_callee() {
    let mut gen = SymTableGen::new(&empty_prophet());
    assert_eq!(
        gen.travel(&mut call("nowhere", vec![ident("missing")])),
        Err(SemaError::UndeclaredVariable(s("missing")))
    );
}

#[test]
fn function_may_call_itself() {
    let mut gen = SymTableGen::new(&empty_prophet());
    let mut tree = program(
        vec![function(
            "loop_forever",
            vec![declaration("n", named("i32"))],
            vec![],
            vec![call("loop_forever", vec![ident("n")])],
            0,
        )],
        vec![],
        vec![],
    );
    assert_eq!(gen.travel(&mut tree), nil());
}

#[test]
fn function_scope_holds_only_its_parameters() {
    let mut gen = SymTableGen::new(&empty_prophet());
    let mut f = function("f", vec![declaration("p", named("i32"))], vec![], vec![], 0);
    assert_eq!(gen.travel(&mut f), nil());
    assert_eq!(gen.current_scope(), 0);
    assert_eq!(gen.table().len(), 2);
    assert_eq!(gen.table().scope_name(1), s("f"));
    assert_eq!(gen.table().scope_level(1), 2);
    assert!(gen.table().find(1, &s("p")).is_some());
    // the builtin names are found through the enclosing scope
    assert_eq!(gen.table().resolve_builtin(1, &s("felt")), Ok(ScalarType::Felt));
    assert!(gen.table().find(1, &s("f")).is_some());
}

#[test]
fn later_parameter_of_the_same_name_wins() {
    let mut gen = SymTableGen::new(&empty_prophet());
    let mut f = function(
        "f",
        vec![declaration("p", named("i32")), declaration("p", named("felt"))],
        vec![],
        vec![],
        0,
    );
    assert_eq!(gen.travel(&mut f), nil());
    assert_eq!(
        gen.table().lookup(1, &s("p")),
        Some(Symbol::Variable { name: s("p"), ty: ScalarType::Felt, array_len: None })
    );
}

#[test]
fn cursor_is_restored_after_an_error_in_a_body() {
    let mut gen = SymTableGen::new(&empty_prophet());
    let mut f = function("f", vec![], vec![], vec![return_of(vec![ident("missing")])], 0);
    assert_eq!(gen.travel(&mut f), Err(SemaError::UndeclaredVariable(s("missing"))));
    assert_eq!(gen.current_scope(), 0);
    let mut tree = program(vec![], vec![], vec![ident("missing")]);
    assert_eq!(gen.travel(&mut tree), Err(SemaError::UndeclaredVariable(s("missing"))));
    assert_eq!(gen.current_scope(), 0);
}

#[test]
fn entry_block_has_a_scope_of_its_own() {
    let mut gen = SymTableGen::new(&empty_prophet());
    let mut tree =
        program(vec![], vec![Node::Declaration(declaration("local", named("i32")))], vec![]);
    assert_eq!(gen.travel(&mut tree), nil());
    assert_eq!(gen.current_scope(), 0);
    assert_eq!(gen.table().len(), 2);
    assert_eq!(gen.table().scope_name(0), s("Global Scope"));
    assert_eq!(gen.table().scope_level(0), 1);
    assert_eq!(gen.table().enclosing_scope(0), None);
    assert_eq!(gen.table().scope_name(1), s("entry"));
    assert_eq!(gen.table().scope_level(1), 2);
    assert_eq!(gen.table().enclosing_scope(1), Some(0));
    assert!(gen.table().is_declared(1, &s("local")));
    assert!(!gen.table().is_declared(0, &s("local")));
}

#[test]
fn unknown_type_name_is_an_internal_error() {
    let mut gen = SymTableGen::new(&empty_prophet());
    let mut d = declaration("a", named("u256"));
    let r = gen.travel_declaration(&mut d);
    assert_eq!(r, Err(SemaError::UnknownBuiltin(s("u256"))));
    assert!(r.unwrap_err().is_internal());
    let mut e = declaration("b", array_of("u256", 2));
    assert_eq!(gen.travel_declaration(&mut e), Err(SemaError::UnknownBuiltin(s("u256"))));
    let mut f = function("f", vec![declaration("p", named("u256"))], vec![], vec![], 0);
    assert_eq!(gen.travel(&mut f), Err(SemaError::UnknownBuiltin(s("u256"))));
    assert_eq!(gen.lookup(&s("f")), None);
}

#[test]
fn variable_used_as_type_is_an_internal_error() {
    let mut gen = SymTableGen::new(&prophet_with_input("x", 1));
    let mut d = declaration("a", named("x"));
    assert_eq!(gen.travel_declaration(&mut d), Err(SemaError::UnexpectedSymbol(s("x"))));
}

#[test]
fn identifier_of_the_wrong_kind_is_invalid() {
    let mut gen = SymTableGen::new(&prophet_with_input("x", 1));
    let mut plain = Node::Ident(IdentNode { identifier: Identifier::Cid(s("x")) });
    assert_eq!(gen.travel(&mut plain), Err(SemaError::InvalidIdentifier(s("x"))));
    let mut context = Node::ContextIdent(ContextIdentNode { identifier: Identifier::Id(s("x")) });
    assert_eq!(gen.travel(&mut context), Err(SemaError::InvalidIdentifier(s("x"))));
    let mut indexed = Node::IdentIndex(IdentIndexNode {
        identifier: Identifier::ArrayId(s("x")),
        index: Box::new(integer(0)),
    });
    assert_eq!(gen.travel(&mut indexed), Err(SemaError::InvalidIdentifier(s("x"))));
    assert!(!SemaError::InvalidIdentifier(s("x")).is_internal());
}

#[test]
fn function_name_used_as_variable_is_an_internal_error() {
    let mut gen = SymTableGen::new(&empty_prophet());
    let mut f = function("f", vec![], vec![], vec![], 0);
    assert_eq!(gen.travel(&mut f), nil());
    assert_eq!(gen.travel(&mut ident("f")), Err(SemaError::UnexpectedSymbol(s("f"))));
}

#[test]
fn context_variable_is_a_scalar_felt_without_type_of_its_own() {
    let prophet = OlaProphet { inputs: vec![], ctx: vec![s("caller")], outputs: vec![] };
    let mut gen = SymTableGen::new(&prophet);
    let mut context =
        Node::ContextIdent(ContextIdentNode { identifier: Identifier::Cid(s("caller")) });
    assert_eq!(gen.travel(&mut context), nil());
    assert_eq!(
        gen.lookup(&s("caller")),
        Some(Symbol::Variable { name: s("caller"), ty: ScalarType::Felt, array_len: None })
    );
}

#[test]
fn seeds_are_scalar_or_array_by_length() {
    let prophet = OlaProphet {
        inputs: vec![
            ProphetVariable { name: s("one"), length: 1 },
            ProphetVariable { name: s("many"), length: 8 },
            ProphetVariable { name: s("none"), length: 0 },
        ],
        ctx: vec![s("many")],
        outputs: vec![ProphetVariable { name: s("out"), length: 2 }],
    };
    let gen = SymTableGen::new(&prophet);
    assert_eq!(gen.current_scope(), 0);
    assert_eq!(gen.table().len(), 1);
    assert_eq!(
        gen.lookup(&s("one")),
        Some(Symbol::Variable { name: s("one"), ty: ScalarType::Felt, array_len: None })
    );
    assert_eq!(
        gen.lookup(&s("none")),
        Some(Symbol::Variable { name: s("none"), ty: ScalarType::Felt, array_len: Some(0) })
    );
    assert_eq!(
        gen.lookup(&s("out")),
        Some(Symbol::Variable { name: s("out"), ty: ScalarType::Felt, array_len: Some(2) })
    );
    // the context variable was recorded after the input of the same name
    assert_eq!(
        gen.lookup(&s("many")),
        Some(Symbol::Variable { name: s("many"), ty: ScalarType::Felt, array_len: None })
    );
    assert_eq!(gen.lookup(&s("felt")), Some(Symbol::Builtin(ScalarType::Felt)));
    assert_eq!(gen.lookup(&s("i32")), Some(Symbol::Builtin(ScalarType::I32)));
}

#[test]
fn binary_operation_promotes_its_operands() {
    let mut gen = SymTableGen::new(&prophet_with_input("data", 3));
    let binop = |left: Node, right: Node| {
        Node::BinOp(BinOpNode {
            left: Box::new(left),
            operator: Operator::Plus,
            right: Box::new(right),
        })
    };
    assert_eq!(
        gen.travel(&mut binop(integer(1), integer(2))),
        Ok(TraversalResult::Single(TypeValue::I32))
    );
    assert_eq!(
        gen.travel(&mut binop(integer(1), felt(2))),
        Ok(TraversalResult::Single(TypeValue::Felt))
    );
    assert_eq!(
        gen.travel(&mut binop(ident("data"), integer(2))),
        Ok(TraversalResult::Single(TypeValue::Felt))
    );
    let mut marked = binop(integer(2), ident("data"));
    assert_eq!(gen.travel(&mut marked), Ok(TraversalResult::Single(TypeValue::Felt)));
    assert_eq!(marked, binop(integer(2), array_ident("data")));
    assert_eq!(
        gen.travel(&mut binop(ident("missing"), ident("also_missing"))),
        Err(SemaError::UndeclaredVariable(s("missing")))
    );
}

#[test]
fn indexed_access_has_the_type_of_its_index() {
    let mut gen = SymTableGen::new(&prophet_with_input("data", 3));
    let mut indexed = Node::IdentIndex(IdentIndexNode {
        identifier: Identifier::Id(s("data")),
        index: Box::new(integer(7)),
    });
    assert_eq!(gen.travel(&mut indexed), Ok(TraversalResult::Single(TypeValue::I32)));
    // the indexed name itself is not marked
    assert_eq!(
        indexed,
        Node::IdentIndex(IdentIndexNode {
            identifier: Identifier::Id(s("data")),
            index: Box::new(integer(7)),
        })
    );
}

#[test]
fn conditional_and_loop_share_the_enclosing_scope() {
    let mut gen = SymTableGen::new(&empty_prophet());
    let mut cond = Node::Cond(CondStatNode {
        condition: Box::new(integer(1)),
        consequences: vec![Node::Declaration(declaration("a", named("felt")))],
        alternatives: vec![Node::Declaration(declaration("b", named("felt")))],
    });
    assert_eq!(gen.travel(&mut cond), nil());
    assert_eq!(gen.table().len(), 1);
    assert!(gen.lookup(&s("a")).is_some());
    assert!(gen.lookup(&s("b")).is_some());
    let mut looped = Node::Loop(LoopStatNode {
        condition: Box::new(ident("a")),
        consequences: vec![Node::Declaration(declaration("a", named("felt")))],
    });
    assert_eq!(gen.travel(&mut looped), Err(SemaError::DuplicateDeclaration(s("a"))));
}

#[test]
fn multi_assignment_checks_targets_then_call() {
    let mut gen = SymTableGen::new(&prophet_with_input("data", 3));
    let mut f = function("f", vec![], vec![], vec![], 0);
    assert_eq!(gen.travel(&mut f), nil());
    let mut multi = Node::MultiAssign(MultiAssignNode {
        identifier: vec![ident("data")],
        call: Box::new(call("f", vec![])),
    });
    assert_eq!(gen.travel(&mut multi), nil());
    match &multi {
        Node::MultiAssign(m) => {
            // a target is not marked, the call is annotated
            assert_eq!(m.identifier[0], ident("data"));
            match &*m.call {
                Node::Call(c) => assert!(c.func_symbol.is_some()),
                other => panic!("no call: {:?}", other),
            }
        }
        other => panic!("no multi-assignment: {:?}", other),
    }
}

#[test]
fn declared_names_stay_declared_through_later_visits() {
    let mut gen = SymTableGen::new(&empty_prophet());
    let mut first = declaration("a", named("felt"));
    assert_eq!(gen.travel_declaration(&mut first), nil());
    let mut between = compound(vec![
        function("f", vec![declaration("p", named("i32"))], vec![], vec![], 0),
        assign("a", felt(1)),
        Node::Declaration(declaration("b", named("i32"))),
    ]);
    assert_eq!(gen.travel(&mut between), nil());
    assert!(gen.lookup(&s("a")).is_some());
    let mut second = declaration("a", named("i32"));
    assert_eq!(gen.travel_declaration(&mut second), Err(SemaError::DuplicateDeclaration(s("a"))));
    // the table only grew: the root scope is where it was, with its label and depth
    assert_eq!(gen.table().len(), 2);
    assert_eq!(gen.table().scope_name(0), s("Global Scope"));
    assert_eq!(gen.table().scope_level(0), 1);
}

#[test]
fn function_definition_replaces_a_variable_of_its_name() {
    let mut gen = SymTableGen::new(&prophet_with_input("x", 1));
    let mut f = function("x", vec![], vec![], vec![], 5);
    assert_eq!(gen.travel(&mut f), nil());
    assert_eq!(
        gen.lookup(&s("x")),
        Some(Symbol::Function { name: s("x"), params: vec![], body: BodyHandle(5) })
    );
}

#[test]
fn definition_without_plain_name_is_left_alone() {
    let mut gen = SymTableGen::new(&empty_prophet());
    let mut f = Node::Function(FunctionNode {
        func_name: Identifier::Cid(s("f")),
        params: vec![declaration("p", named("nothing"))],
        block: Box::new(block(vec![], vec![ident("missing")])),
        body: BodyHandle(0),
    });
    assert_eq!(gen.travel(&mut f), nil());
    assert_eq!(gen.table().len(), 1);
    assert_eq!(gen.lookup(&s("f")), None);
    let mut d = IdentDeclarationNode {
        ident_node: IdentNode { identifier: Identifier::ArrayId(s("a")) },
        type_node: TypeNode { token: named("nothing") },
    };
    assert_eq!(gen.travel_declaration(&mut d), nil());
    assert_eq!(gen.lookup(&s("a")), None);
}

#[test]
fn statements_without_value_and_pass_through_forms() {
    let mut gen = SymTableGen::new(&empty_prophet());
    let mut array = Node::Array(ArrayNumNode { first: Literal::I32(1), rest: vec![Literal::Felt(2)] });
    assert_eq!(gen.travel(&mut array), Ok(TraversalResult::Single(TypeValue::I32)));
    let mut sqrt = Node::Sqrt(SqrtNode { sqrt_value: Box::new(felt(4)) });
    assert_eq!(gen.travel(&mut sqrt), Ok(TraversalResult::Single(TypeValue::Felt)));
    let mut malloc = Node::Malloc(MallocNode { num_bytes: Box::new(integer(4)) });
    assert_eq!(gen.travel(&mut malloc), Ok(TraversalResult::Single(TypeValue::I32)));
    let mut unary = Node::UnaryOp(UnaryOpNode { operator: Operator::Minus, expr: Box::new(integer(4)) });
    assert_eq!(gen.travel(&mut unary), Ok(TraversalResult::Single(TypeValue::I32)));
    let mut printf = Node::Printf(PrintfNode {
        flag: Box::new(integer(1)),
        val_addr: Box::new(felt(9)),
    });
    assert_eq!(gen.travel(&mut printf), Ok(TraversalResult::Single(TypeValue::Felt)));
    let mut failing = Node::Printf(PrintfNode {
        flag: Box::new(ident("missing")),
        val_addr: Box::new(ident("also_missing")),
    });
    assert_eq!(gen.travel(&mut failing), Err(SemaError::UndeclaredVariable(s("missing"))));
    let mut ty = Node::Type(TypeNode { token: array_of("i32", 3) });
    assert_eq!(
        gen.travel(&mut ty),
        Ok(TraversalResult::Single(TypeValue::Array(ScalarType::I32, 3)))
    );
    assert_eq!(gen.travel(&mut compound(vec![felt(1), integer(2)])), nil());
    assert_eq!(gen.travel(&mut assign("missing", ident("also_missing"))),
        Err(SemaError::UndeclaredVariable(s("missing"))));
}

fn program_with_arrays() -> Node {
    program(
        vec![
            Node::Declaration(declaration("buffer", array_of("felt", 4))),
            function(
                "f",
                vec![declaration("p", array_of("felt", 4)), declaration("q", named("i32"))],
                vec![Node::Declaration(declaration("local", named("felt")))],
                vec![
                    assign("local", ident("q")),
                    call("f", vec![ident("p"), ident("q")]),
                    return_of(vec![ident("p")]),
                ],
                1,
            ),
        ],
        vec![Node::Declaration(declaration("n", named("i32")))],
        vec![
            assign("buffer", ident("data")),
            call("f", vec![ident("data"), ident("n")]),
            call("f", vec![ident("buffer"), integer(3)]),
            return_of(vec![ident("buffer"), ident("n")]),
        ],
    )
}

#[test]
fn second_pass_over_an_analysed_program_changes_nothing_further() {
    let prophet = prophet_with_input("data", 4);
    let mut analysed = program_with_arrays();
    assert_eq!(SymTableGen::new(&prophet).travel(&mut analysed), nil());
    assert_ne!(analysed, program_with_arrays());
    let mut tree = program_with_arrays();
    let mut first = SymTableGen::new(&prophet);
    assert_eq!(first.travel(&mut tree), nil());
    let mut second = SymTableGen::new(&prophet);
    assert_eq!(second.travel(&mut tree), nil());
    assert_eq!(tree, analysed);
    assert_eq!(second.table().len(), first.table().len());
    assert_eq!(second.lookup(&s("f")), first.lookup(&s("f")));
}

#[test]
fn failed_visit_keeps_what_was_visited_before_the_error() {
    let mut gen = SymTableGen::new(&prophet_with_input("data", 3));
    let mut tree = compound(vec![
        Node::Declaration(declaration("a", named("felt"))),
        assign("data", ident("data")),
        call("nowhere", vec![ident("data")]),
        return_of(vec![ident("data")]),
    ]);
    assert_eq!(gen.travel(&mut tree), Err(SemaError::FunctionNotFound(s("nowhere"))));
    assert_eq!(
        tree,
        compound(vec![
            Node::Declaration(declaration("a", named("felt"))),
            Node::Assign(AssignNode {
                identifier: Identifier::ArrayId(s("data")),
                expr: Box::new(array_ident("data")),
            }),
            call("nowhere", vec![array_ident("data")]),
            return_of(vec![ident("data")]),
        ])
    );
    assert!(gen.lookup(&s("a")).is_some());
    assert_eq!(gen.current_scope(), 0);

    let mut f = function(
        "f",
        vec![
            declaration("p", array_of("felt", 2)),
            declaration("q", named("nothing")),
            declaration("r", array_of("felt", 2)),
        ],
        vec![],
        vec![],
        0,
    );
    assert_eq!(gen.travel(&mut f), Err(SemaError::UnknownBuiltin(s("nothing"))));
    match &f {
        Node::Function(node) => {
            assert_eq!(node.params[0].ident_node.identifier, Identifier::ArrayId(s("p")));
            assert_eq!(node.params[1].ident_node.identifier, Identifier::Id(s("q")));
            assert_eq!(node.params[2].ident_node.identifier, Identifier::Id(s("r")));
        }
        other => panic!("no function: {:?}", other),
    }
    assert_eq!(gen.lookup(&s("f")), None);
    assert_eq!(gen.table().len(), 1);

    let mut g = function("g", vec![], vec![], vec![ident("missing")], 1);
    assert_eq!(gen.travel(&mut g), Err(SemaError::UndeclaredVariable(s("missing"))));
    // the function was recorded and its scope opened before its body failed
    assert!(gen.lookup(&s("g")).is_some());
    assert_eq!(gen.table().len(), 2);
    assert_eq!(gen.current_scope(), 0);
}
