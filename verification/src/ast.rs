//! The syntax tree that the analysis walks and annotates.
//!
//! Every node kind is a struct of its own, and `Node` is their union. The
//! mathematical model of a tree is a `NodeView`, in which names are sequences
//! of characters and child lists are sequences of models.

use vstd::prelude::*;
use crate::symbol::{BodyHandle, Symbol, SymbolView, symbol_option_view};
use crate::types::Literal;

verus! {

/// An identifier as it stands in a node: a plain name, a name marked as
/// referring to an array, or a name bound by the execution context.
#[derive(Clone, Debug, PartialEq, Eq)]
pub enum Identifier {
    Id(String),
    ArrayId(String),
    Cid(String),
}

/// The mathematical model of an `Identifier`.
pub enum IdentifierView {
    Id(Seq<char>),
    ArrayId(Seq<char>),
    Cid(Seq<char>),
}

impl View for Identifier {
    type V = IdentifierView;

    open spec fn view(&self) -> IdentifierView {
        match self {
            Identifier::Id(n) => IdentifierView::Id(n@),
            Identifier::ArrayId(n) => IdentifierView::ArrayId(n@),
            Identifier::Cid(n) => IdentifierView::Cid(n@),
        }
    }
}

/// The name that an identifier holds, whatever its kind.
pub open spec fn identifier_name(i: IdentifierView) -> Seq<char> {
    match i {
        IdentifierView::Id(n) => n,
        IdentifierView::ArrayId(n) => n,
        IdentifierView::Cid(n) => n,
    }
}

impl Identifier {
    /// The name that this identifier holds, whatever its kind.
    pub fn name(&self) -> (r: &String)
        ensures
            r@ == identifier_name(self@),
    {
        match self {
            Identifier::Id(n) => n,
            Identifier::ArrayId(n) => n,
            Identifier::Cid(n) => n,
        }
    }
}

/// A type annotation as written: the name of a type, or an array of a named
/// element type with its length.
#[derive(Clone, Debug, PartialEq, Eq)]
pub enum TypeToken {
    Named(String),
    Array(String, usize),
}

/// The mathematical model of a `TypeToken`.
pub enum TypeTokenView {
    Named(Seq<char>),
    Array(Seq<char>, usize),
}

impl View for TypeToken {
    type V = TypeTokenView;

    open spec fn view(&self) -> TypeTokenView {
        match self {
            TypeToken::Named(n) => TypeTokenView::Named(n@),
            TypeToken::Array(n, len) => TypeTokenView::Array(n@, *len),
        }
    }
}

/// An operator of a unary or binary expression.
#[derive(Clone, Copy, Debug, PartialEq, Eq, Structural)]
pub enum Operator {
    Plus,
    Minus,
    Multiply,
    Divide,
    Modulo,
    Equal,
    NotEqual,
    Less,
    Greater,
    LessEqual,
    GreaterEqual,
    And,
    Or,
    Not,
}

/// The program: its top-level declarations and its entry block.
#[derive(Debug, PartialEq, Eq)]
pub struct EntryNode {
    pub global_declarations: Vec<Node>,
    pub entry_block: Box<Node>,
}

/// The body of a function: declarations, then a statement.
#[derive(Debug, PartialEq, Eq)]
pub struct BlockNode {
    pub declarations: Vec<Node>,
    pub compound_statement: Box<Node>,
}

/// The entry block of the program: declarations, then a statement.
#[derive(Debug, PartialEq, Eq)]
pub struct EntryBlockNode {
    pub declarations: Vec<Node>,
    pub compound_statement: Box<Node>,
}

/// A type annotation.
#[derive(Debug, PartialEq, Eq)]
pub struct TypeNode {
    pub token: TypeToken,
}

/// A reference to a variable.
#[derive(Debug, PartialEq, Eq)]
pub struct IdentNode {
    pub identifier: Identifier,
}

/// A declaration `name : type`.
#[derive(Debug, PartialEq, Eq)]
pub struct IdentDeclarationNode {
    pub ident_node: IdentNode,
    pub type_node: TypeNode,
}

/// An integer literal.
#[derive(Debug, PartialEq, Eq)]
pub struct IntegerNumNode {
    pub value: i32,
}

/// A field-element literal.
#[derive(Debug, PartialEq, Eq)]
pub struct FeltNumNode {
    pub value: u64,
}

/// An array literal; it has at least one element.
#[derive(Debug, PartialEq, Eq)]
pub struct ArrayNumNode {
    pub first: Literal,
    pub rest: Vec<Literal>,
}

/// An indexed access `name[index]`.
#[derive(Debug, PartialEq, Eq)]
pub struct IdentIndexNode {
    pub identifier: Identifier,
    pub index: Box<Node>,
}

/// A binary operation.
#[derive(Debug, PartialEq, Eq)]
pub struct BinOpNode {
    pub left: Box<Node>,
    pub operator: Operator,
    pub right: Box<Node>,
}

/// A unary operation.
#[derive(Debug, PartialEq, Eq)]
pub struct UnaryOpNode {
    pub operator: Operator,
    pub expr: Box<Node>,
}

/// A list of statements.
#[derive(Debug, PartialEq, Eq)]
pub struct CompoundNode {
    pub children: Vec<Node>,
}

/// An assignment `identifier = expr`.
#[derive(Debug, PartialEq, Eq)]
pub struct AssignNode {
    pub identifier: Identifier,
    pub expr: Box<Node>,
}

/// A reference to a name bound by the execution context.
#[derive(Debug, PartialEq, Eq)]
pub struct ContextIdentNode {
    pub identifier: Identifier,
}

/// A conditional statement.
#[derive(Debug, PartialEq, Eq)]
pub struct CondStatNode {
    pub condition: Box<Node>,
    pub consequences: Vec<Node>,
    pub alternatives: Vec<Node>,
}

/// A loop statement.
#[derive(Debug, PartialEq, Eq)]
pub struct LoopStatNode {
    pub condition: Box<Node>,
    pub consequences: Vec<Node>,
}

/// A function definition. `body` is the handle under which later stages
/// know the function's body.
#[derive(Debug, PartialEq, Eq)]
pub struct FunctionNode {
    pub func_name: Identifier,
    pub params: Vec<IdentDeclarationNode>,
    pub block: Box<Node>,
    pub body: BodyHandle,
}

/// A call. `func_symbol` is empty until the analysis has resolved the callee.
#[derive(Debug, PartialEq, Eq)]
pub struct CallNode {
    pub func_name: Identifier,
    pub actual_params: Vec<Node>,
    pub func_symbol: Option<Symbol>,
}

/// A square root.
#[derive(Debug, PartialEq, Eq)]
pub struct SqrtNode {
    pub sqrt_value: Box<Node>,
}

/// A return statement.
#[derive(Debug, PartialEq, Eq)]
pub struct ReturnNode {
    pub returns: Vec<Node>,
}

/// A multi-assignment `a, b = call(..)`.
#[derive(Debug, PartialEq, Eq)]
pub struct MultiAssignNode {
    pub identifier: Vec<Node>,
    pub call: Box<Node>,
}

/// A memory allocation of `num_bytes`.
#[derive(Debug, PartialEq, Eq)]
pub struct MallocNode {
    pub num_bytes: Box<Node>,
}

/// A print statement.
#[derive(Debug, PartialEq, Eq)]
pub struct PrintfNode {
    pub flag: Box<Node>,
    pub val_addr: Box<Node>,
}

/// A node of the syntax tree.
#[derive(Debug, PartialEq, Eq)]
pub enum Node {
    Entry(EntryNode),
    Block(BlockNode),
    EntryBlock(EntryBlockNode),
    Declaration(IdentDeclarationNode),
    Type(TypeNode),
    Integer(IntegerNumNode),
    Felt(FeltNumNode),
    Array(ArrayNumNode),
    Ident(IdentNode),
    ContextIdent(ContextIdentNode),
    IdentIndex(IdentIndexNode),
    BinOp(BinOpNode),
    UnaryOp(UnaryOpNode),
    Compound(CompoundNode),
    Assign(AssignNode),
    MultiAssign(MultiAssignNode),
    Cond(CondStatNode),
    Loop(LoopStatNode),
    Function(FunctionNode),
    Call(CallNode),
    Return(ReturnNode),
    Sqrt(SqrtNode),
    Malloc(MallocNode),
    Printf(PrintfNode),
}

/// The mathematical model of a declaration.
pub struct DeclarationView {
    pub identifier: IdentifierView,
    pub token: TypeTokenView,
}

/// The mathematical model of a `Node`.
#[allow(inconsistent_fields)]
pub enum NodeView {
    Entry { global_declarations: Seq<NodeView>, entry_block: Box<NodeView> },
    Block { declarations: Seq<NodeView>, compound_statement: Box<NodeView> },
    EntryBlock { declarations: Seq<NodeView>, compound_statement: Box<NodeView> },
    Declaration(DeclarationView),
    Type(TypeTokenView),
    Integer(i32),
    Felt(u64),
    Array { first: Literal, rest: Seq<Literal> },
    Ident(IdentifierView),
    ContextIdent(IdentifierView),
    IdentIndex { identifier: IdentifierView, index: Box<NodeView> },
    BinOp { left: Box<NodeView>, operator: Operator, right: Box<NodeView> },
    UnaryOp { operator: Operator, expr: Box<NodeView> },
    Compound(Seq<NodeView>),
    Assign { identifier: IdentifierView, expr: Box<NodeView> },
    MultiAssign { identifier: Seq<NodeView>, call: Box<NodeView> },
    Cond { condition: Box<NodeView>, consequences: Seq<NodeView>, alternatives: Seq<NodeView> },
    Loop { condition: Box<NodeView>, consequences: Seq<NodeView> },
    Function {
        func_name: IdentifierView,
        params: Seq<DeclarationView>,
        block: Box<NodeView>,
        body: BodyHandle,
    },
    Call { func_name: IdentifierView, actual_params: Seq<NodeView>, func_symbol: Option<SymbolView> },
    Return(Seq<NodeView>),
    Sqrt(Box<NodeView>),
    Malloc(Box<NodeView>),
    Printf { flag: Box<NodeView>, val_addr: Box<NodeView> },
}

impl View for IdentDeclarationNode {
    type V = DeclarationView;

    open spec fn view(&self) -> DeclarationView {
        DeclarationView { identifier: self.ident_node.identifier@, token: self.type_node.token@ }
    }
}

/// The models of a sequence of declarations, in order.
pub open spec fn declarations_view(ds: Seq<IdentDeclarationNode>) -> Seq<DeclarationView> {
    ds.map_values(|d: IdentDeclarationNode| d@)
}

/// The model of a node.
#[verifier::opaque]
pub open spec fn node_view(n: Node) -> NodeView
    decreases n,
{
    match n {
        Node::Entry(e) => NodeView::Entry {
            global_declarations: nodes_view(e.global_declarations@),
            entry_block: Box::new(node_view(*e.entry_block)),
        },
        Node::Block(b) => NodeView::Block {
            declarations: nodes_view(b.declarations@),
            compound_statement: Box::new(node_view(*b.compound_statement)),
        },
        Node::EntryBlock(b) => NodeView::EntryBlock {
            declarations: nodes_view(b.declarations@),
            compound_statement: Box::new(node_view(*b.compound_statement)),
        },
        Node::Declaration(d) => NodeView::Declaration(d@),
        Node::Type(t) => NodeView::Type(t.token@),
        Node::Integer(i) => NodeView::Integer(i.value),
        Node::Felt(f) => NodeView::Felt(f.value),
        Node::Array(a) => NodeView::Array { first: a.first, rest: a.rest@ },
        Node::Ident(i) => NodeView::Ident(i.identifier@),
        Node::ContextIdent(i) => NodeView::ContextIdent(i.identifier@),
        Node::IdentIndex(i) => NodeView::IdentIndex {
            identifier: i.identifier@,
            index: Box::new(node_view(*i.index)),
        },
        Node::BinOp(b) => NodeView::BinOp {
            left: Box::new(node_view(*b.left)),
            operator: b.operator,
            right: Box::new(node_view(*b.right)),
        },
        Node::UnaryOp(u) => NodeView::UnaryOp {
            operator: u.operator,
            expr: Box::new(node_view(*u.expr)),
        },
        Node::Compound(c) => NodeView::Compound(nodes_view(c.children@)),
        Node::Assign(a) => NodeView::Assign {
            identifier: a.identifier@,
            expr: Box::new(node_view(*a.expr)),
        },
        Node::MultiAssign(m) => NodeView::MultiAssign {
            identifier: nodes_view(m.identifier@),
            call: Box::new(node_view(*m.call)),
        },
        Node::Cond(c) => NodeView::Cond {
            condition: Box::new(node_view(*c.condition)),
            consequences: nodes_view(c.consequences@),
            alternatives: nodes_view(c.alternatives@),
        },
        Node::Loop(l) => NodeView::Loop {
            condition: Box::new(node_view(*l.condition)),
            consequences: nodes_view(l.consequences@),
        },
        Node::Function(f) => NodeView::Function {
            func_name: f.func_name@,
            params: declarations_view(f.params@),
            block: Box::new(node_view(*f.block)),
            body: f.body,
        },
        Node::Call(c) => NodeView::Call {
            func_name: c.func_name@,
            actual_params: nodes_view(c.actual_params@),
            func_symbol: symbol_option_view(c.func_symbol),
        },
        Node::Return(r) => NodeView::Return(nodes_view(r.returns@)),
        Node::Sqrt(s) => NodeView::Sqrt(Box::new(node_view(*s.sqrt_value))),
        Node::Malloc(m) => NodeView::Malloc(Box::new(node_view(*m.num_bytes))),
        Node::Printf(p) => NodeView::Printf {
            flag: Box::new(node_view(*p.flag)),
            val_addr: Box::new(node_view(*p.val_addr)),
        },
    }
}

/// The models of a sequence of nodes, in order.
#[verifier::opaque]
pub open spec fn nodes_view(ns: Seq<Node>) -> Seq<NodeView>
    decreases ns,
{
    Seq::new(
        ns.len(),
        |i: int|
            if 0 <= i < ns.len() {
                node_view(ns[i])
            } else {
                arbitrary()
            },
    )
}

/// The model of a sequence of nodes has the model of each node at the
/// node's position.
pub proof fn nodes_view_is_pointwise(ns: Seq<Node>)
    ensures
        nodes_view(ns).len() == ns.len(),
        forall|i: int| 0 <= i < ns.len() ==> #[trigger] nodes_view(ns)[i] == node_view(ns[i]),
{
    reveal(nodes_view);
    reveal(node_view);
}

impl View for Node {
    type V = NodeView;

    open spec fn view(&self) -> NodeView {
        node_view(*self)
    }
}

impl View for EntryNode {
    type V = NodeView;

    open spec fn view(&self) -> NodeView {
        node_view(Node::Entry(*self))
    }
}

impl View for BlockNode {
    type V = NodeView;

    open spec fn view(&self) -> NodeView {
        node_view(Node::Block(*self))
    }
}

impl View for EntryBlockNode {
    type V = NodeView;

    open spec fn view(&self) -> NodeView {
        node_view(Node::EntryBlock(*self))
    }
}

impl View for TypeNode {
    type V = NodeView;

    open spec fn view(&self) -> NodeView {
        node_view(Node::Type(*self))
    }
}

impl View for IntegerNumNode {
    type V = NodeView;

    open spec fn view(&self) -> NodeView {
        node_view(Node::Integer(*self))
    }
}

impl View for FeltNumNode {
    type V = NodeView;

    open spec fn view(&self) -> NodeView {
        node_view(Node::Felt(*self))
    }
}

impl View for ArrayNumNode {
    type V = NodeView;

    open spec fn view(&self) -> NodeView {
        node_view(Node::Array(*self))
    }
}

impl View for IdentNode {
    type V = NodeView;

    open spec fn view(&self) -> NodeView {
        node_view(Node::Ident(*self))
    }
}

impl View for ContextIdentNode {
    type V = NodeView;

    open spec fn view(&self) -> NodeView {
        node_view(Node::ContextIdent(*self))
    }
}

impl View for IdentIndexNode {
    type V = NodeView;

    open spec fn view(&self) -> NodeView {
        node_view(Node::IdentIndex(*self))
    }
}

impl View for BinOpNode {
    type V = NodeView;

    open spec fn view(&self) -> NodeView {
        node_view(Node::BinOp(*self))
    }
}

impl View for UnaryOpNode {
    type V = NodeView;

    open spec fn view(&self) -> NodeView {
        node_view(Node::UnaryOp(*self))
    }
}

impl View for CompoundNode {
    type V = NodeView;

    open spec fn view(&self) -> NodeView {
        node_view(Node::Compound(*self))
    }
}

impl View for AssignNode {
    type V = NodeView;

    open spec fn view(&self) -> NodeView {
        node_view(Node::Assign(*self))
    }
}

impl View for MultiAssignNode {
    type V = NodeView;

    open spec fn view(&self) -> NodeView {
        node_view(Node::MultiAssign(*self))
    }
}

impl View for CondStatNode {
    type V = NodeView;

    open spec fn view(&self) -> NodeView {
        node_view(Node::Cond(*self))
    }
}

impl View for LoopStatNode {
    type V = NodeView;

    open spec fn view(&self) -> NodeView {
        node_view(Node::Loop(*self))
    }
}

impl View for FunctionNode {
    type V = NodeView;

    open spec fn view(&self) -> NodeView {
        node_view(Node::Function(*self))
    }
}

impl View for CallNode {
    type V = NodeView;

    open spec fn view(&self) -> NodeView {
        node_view(Node::Call(*self))
    }
}

impl View for ReturnNode {
    type V = NodeView;

    open spec fn view(&self) -> NodeView {
        node_view(Node::Return(*self))
    }
}

impl View for SqrtNode {
    type V = NodeView;

    open spec fn view(&self) -> NodeView {
        node_view(Node::Sqrt(*self))
    }
}

impl View for MallocNode {
    type V = NodeView;

    open spec fn view(&self) -> NodeView {
        node_view(Node::Malloc(*self))
    }
}

impl View for PrintfNode {
    type V = NodeView;

    open spec fn view(&self) -> NodeView {
        node_view(Node::Printf(*self))
    }
}

} // verus!
