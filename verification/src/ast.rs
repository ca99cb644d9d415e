use vstd::prelude::*;
use crate::float::Float;
use crate::token::Token;
use crate::token::TokenView;

verus! {

/// The target of a `for` binding: one name, or a bracketed list of targets.
#[derive(Debug, PartialEq, Eq)]
pub enum Var {
    Single(String),
    Multi(Vec<Var>),
}

/// The target of an assignment: one expression, or a bracketed list of targets.
#[derive(Debug, PartialEq, Eq)]
pub enum Place {
    Single(Box<Node>),
    Multi(Vec<Place>),
}

/// A node of the syntax tree.
#[allow(inconsistent_fields)]
#[derive(Debug, PartialEq, Eq)]
pub enum Node {
    /// An expression used as a statement.
    Expr(Box<Node>),
    Block(Vec<Node>),
    Return(Option<Box<Node>>),
    Break,
    Continue,
    Pass,
    Assn { lhs: Place, rhs: Box<Node> },
    Catch { body: Box<Node> },
    If { cond: Box<Node>, body: Box<Node>, els: Option<Box<Node>> },
    /// An `else if` that has not yet been attached to its `if`.
    ElseIf { cond: Box<Node>, body: Box<Node> },
    /// An `else` that has not yet been attached to its `if`.
    Else { body: Box<Node> },
    For { decl: Var, expr: Box<Node>, body: Box<Node> },
    While { expr: Box<Node>, body: Box<Node> },
    Loop { body: Box<Node> },
    FuncDef { params: Vec<String>, body: Box<Node> },
    Index { lhs: Box<Node>, rhs: Box<Node> },
    MethodCall { owner: Box<Node>, method: Box<Node>, args: Vec<Node> },
    FuncCall { func: Box<Node>, args: Vec<Node> },
    BinExpr { lhs: Box<Node>, op: Token, rhs: Box<Node> },
    /// A chain of comparisons: `nodes[0] ops[0] nodes[1] ops[1] ...`.
    CmpExpr { nodes: Vec<Node>, ops: Vec<Token> },
    /// A chain of `and` / `or`: `nodes[0] ops[0] nodes[1] ops[1] ...`.
    LogicExpr { nodes: Vec<Node>, ops: Vec<Token> },
    UnExpr { val: Box<Node>, op: Token },
    /// A name looked up the given number of links up the scope chain.
    Super(usize, Box<Node>),
    Null,
    Bool(bool),
    Float(Float),
    Int(i64),
    Str(String),
    Name(String),
    /// The current scope table.
    Local,
}

/// The mathematical value of a [`Var`].
pub enum VarView {
    Single(Seq<char>),
    Multi(Seq<VarView>),
}

/// The mathematical value of a [`Place`].
pub enum PlaceView {
    Single(Box<NodeView>),
    Multi(Seq<PlaceView>),
}

/// The mathematical value of a [`Node`].
#[allow(inconsistent_fields)]
pub enum NodeView {
    Expr(Box<NodeView>),
    Block(Seq<NodeView>),
    Return(Option<Box<NodeView>>),
    Break,
    Continue,
    Pass,
    Assn { lhs: PlaceView, rhs: Box<NodeView> },
    Catch { body: Box<NodeView> },
    If { cond: Box<NodeView>, body: Box<NodeView>, els: Option<Box<NodeView>> },
    ElseIf { cond: Box<NodeView>, body: Box<NodeView> },
    Else { body: Box<NodeView> },
    For { decl: VarView, expr: Box<NodeView>, body: Box<NodeView> },
    While { expr: Box<NodeView>, body: Box<NodeView> },
    Loop { body: Box<NodeView> },
    FuncDef { params: Seq<Seq<char>>, body: Box<NodeView> },
    Index { lhs: Box<NodeView>, rhs: Box<NodeView> },
    MethodCall { owner: Box<NodeView>, method: Box<NodeView>, args: Seq<NodeView> },
    FuncCall { func: Box<NodeView>, args: Seq<NodeView> },
    BinExpr { lhs: Box<NodeView>, op: TokenView, rhs: Box<NodeView> },
    CmpExpr { nodes: Seq<NodeView>, ops: Seq<TokenView> },
    LogicExpr { nodes: Seq<NodeView>, ops: Seq<TokenView> },
    UnExpr { val: Box<NodeView>, op: TokenView },
    Super(usize, Box<NodeView>),
    Null,
    Bool(bool),
    Float(Float),
    Int(i64),
    Str(Seq<char>),
    Name(Seq<char>),
    Local,
}

/// The values of a sequence of strings.
pub open spec fn string_views(v: Seq<String>) -> Seq<Seq<char>> {
    Seq::new(v.len(), |i: int| v[i]@)
}

/// The values of a sequence of tokens.
pub open spec fn token_views(v: Seq<Token>) -> Seq<TokenView> {
    Seq::new(v.len(), |i: int| v[i]@)
}

impl Clone for Var {
    fn clone(&self) -> (r: Var)
        ensures
            r@ == self@,
    {
        self.copy()
    }
}

impl Var {
    /// A deep copy.
    #[verifier::loop_isolation(false)]
    pub fn copy(&self) -> (r: Var)
        ensures
            r@ == self@,
        decreases self,
    {
        match self {
            Var::Single(s) => Var::Single(s.clone()),
            Var::Multi(v) => {
                let mut out: Vec<Var> = Vec::new();
                let mut i: usize = 0;
                while i < v.len()
                    invariant
                        i <= v.len(),
                        out@.len() == i,
                        forall|j: int| 0 <= j < i ==> out@[j]@ == v@[j]@,
                    decreases v.len() - i,
                {
                    out.push(v[i].copy());
                    i = i + 1;
                }
                let r = Var::Multi(out);
                assert(var_views(out) =~= var_views(*v));
                r
            },
        }
    }

    pub open spec fn view(&self) -> VarView
        decreases self,
    {
        match self {
            Var::Single(s) => VarView::Single(s@),
            Var::Multi(v) => VarView::Multi(var_views(*v)),
        }
    }
}

impl Clone for Place {
    fn clone(&self) -> (r: Place)
        ensures
            r@ == self@,
    {
        self.copy()
    }
}

impl Clone for Node {
    fn clone(&self) -> (r: Node)
        ensures
            r@ == self@,
    {
        self.copy()
    }
}

/// A copy of a vector of strings.
pub fn copy_strings(v: &Vec<String>) -> (r: Vec<String>)
    ensures
        string_views(r@) == string_views(v@),
{
    let mut out: Vec<String> = Vec::new();
    let mut i: usize = 0;
    while i < v.len()
        invariant
            i <= v.len(),
            out@.len() == i,
            forall|j: int| 0 <= j < i ==> out@[j]@ == v@[j]@,
        decreases v.len() - i,
    {
        out.push(v[i].clone());
        i = i + 1;
    }
    assert(string_views(out@) =~= string_views(v@));
    out
}

/// A copy of a vector of tokens.
pub fn copy_tokens(v: &Vec<Token>) -> (r: Vec<Token>)
    ensures
        token_views(r@) == token_views(v@),
{
    let mut out: Vec<Token> = Vec::new();
    let mut i: usize = 0;
    while i < v.len()
        invariant
            i <= v.len(),
            out@.len() == i,
            forall|j: int| 0 <= j < i ==> out@[j]@ == v@[j]@,
        decreases v.len() - i,
    {
        out.push(v[i].copy());
        i = i + 1;
    }
    assert(token_views(out@) =~= token_views(v@));
    out
}

/// A deep copy of a vector of nodes.
#[verifier::loop_isolation(false)]
pub fn copy_nodes(v: &Vec<Node>) -> (r: Vec<Node>)
    ensures
        node_views(r) == node_views(*v),
    decreases v,
{
    let mut out: Vec<Node> = Vec::new();
    let mut i: usize = 0;
    while i < v.len()
        invariant
            i <= v.len(),
            out@.len() == i,
            forall|j: int| 0 <= j < i ==> out@[j]@ == v@[j]@,
        decreases v.len() - i,
    {
        out.push(v[i].copy());
        i = i + 1;
    }
    assert(node_views(out) =~= node_views(*v));
    out
}

impl Place {
    /// A deep copy.
    #[verifier::loop_isolation(false)]
    pub fn copy(&self) -> (r: Place)
        ensures
            r@ == self@,
        decreases self,
    {
        match self {
            Place::Single(n) => Place::Single(Box::new(n.copy())),
            Place::Multi(v) => {
                let mut out: Vec<Place> = Vec::new();
                let mut i: usize = 0;
                while i < v.len()
                    invariant
                        i <= v.len(),
                        out@.len() == i,
                        forall|j: int| 0 <= j < i ==> out@[j]@ == v@[j]@,
                    decreases v.len() - i,
                {
                    out.push(v[i].copy());
                    i = i + 1;
                }
                let r = Place::Multi(out);
                assert(place_views(out) =~= place_views(*v));
                r
            },
        }
    }

    pub open spec fn view(&self) -> PlaceView
        decreases self,
    {
        match self {
            Place::Single(n) => PlaceView::Single(Box::new(n.view())),
            Place::Multi(v) => PlaceView::Multi(place_views(*v)),
        }
    }
}

/// The values of the bindings of a vector.
pub open spec fn var_views(v: Vec<Var>) -> Seq<VarView>
    decreases v,
{
    Seq::new(
        v.len() as nat,
        |i: int|
            if 0 <= i < v.len() {
                v[i].view()
            } else {
                arbitrary()
            },
    )
}

/// The values of the targets of a vector.
pub open spec fn place_views(v: Vec<Place>) -> Seq<PlaceView>
    decreases v,
{
    Seq::new(
        v.len() as nat,
        |i: int|
            if 0 <= i < v.len() {
                v[i].view()
            } else {
                arbitrary()
            },
    )
}

/// The values of the nodes of a vector.
pub open spec fn node_views(v: Vec<Node>) -> Seq<NodeView>
    decreases v,
{
    Seq::new(
        v.len() as nat,
        |i: int|
            if 0 <= i < v.len() {
                v[i].view()
            } else {
                arbitrary()
            },
    )
}

impl Node {
    /// A deep copy.
    pub fn copy(&self) -> (r: Node)
        ensures
            r@ == self@,
        decreases self,
    {
        match self {
            Node::Expr(n) => Node::Expr(Box::new(n.copy())),
            Node::Block(v) => Node::Block(copy_nodes(v)),
            Node::Return(o) => match o {
                Some(n) => Node::Return(Some(Box::new(n.copy()))),
                None => Node::Return(None),
            },
            Node::Break => Node::Break,
            Node::Continue => Node::Continue,
            Node::Pass => Node::Pass,
            Node::Assn { lhs, rhs } => Node::Assn { lhs: lhs.copy(), rhs: Box::new(rhs.copy()) },
            Node::Catch { body } => Node::Catch { body: Box::new(body.copy()) },
            Node::If { cond, body, els } => Node::If {
                cond: Box::new(cond.copy()),
                body: Box::new(body.copy()),
                els: match els {
                    Some(n) => Some(Box::new(n.copy())),
                    None => None,
                },
            },
            Node::ElseIf { cond, body } => Node::ElseIf {
                cond: Box::new(cond.copy()),
                body: Box::new(body.copy()),
            },
            Node::Else { body } => Node::Else { body: Box::new(body.copy()) },
            Node::For { decl, expr, body } => Node::For {
                decl: decl.copy(),
                expr: Box::new(expr.copy()),
                body: Box::new(body.copy()),
            },
            Node::While { expr, body } => Node::While {
                expr: Box::new(expr.copy()),
                body: Box::new(body.copy()),
            },
            Node::Loop { body } => Node::Loop { body: Box::new(body.copy()) },
            Node::FuncDef { params, body } => Node::FuncDef {
                params: copy_strings(params),
                body: Box::new(body.copy()),
            },
            Node::Index { lhs, rhs } => Node::Index {
                lhs: Box::new(lhs.copy()),
                rhs: Box::new(rhs.copy()),
            },
            Node::MethodCall { owner, method, args } => Node::MethodCall {
                owner: Box::new(owner.copy()),
                method: Box::new(method.copy()),
                args: copy_nodes(args),
            },
            Node::FuncCall { func, args } => Node::FuncCall {
                func: Box::new(func.copy()),
                args: copy_nodes(args),
            },
            Node::BinExpr { lhs, op, rhs } => Node::BinExpr {
                lhs: Box::new(lhs.copy()),
                op: op.copy(),
                rhs: Box::new(rhs.copy()),
            },
            Node::CmpExpr { nodes, ops } => Node::CmpExpr {
                nodes: copy_nodes(nodes),
                ops: copy_tokens(ops),
            },
            Node::LogicExpr { nodes, ops } => Node::LogicExpr {
                nodes: copy_nodes(nodes),
                ops: copy_tokens(ops),
            },
            Node::UnExpr { val, op } => Node::UnExpr { val: Box::new(val.copy()), op: op.copy() },
            Node::Super(n, x) => Node::Super(*n, Box::new(x.copy())),
            Node::Null => Node::Null,
            Node::Bool(b) => Node::Bool(*b),
            Node::Float(x) => Node::Float(*x),
            Node::Int(x) => Node::Int(*x),
            Node::Str(s) => Node::Str(s.clone()),
            Node::Name(s) => Node::Name(s.clone()),
            Node::Local => Node::Local,
        }
    }

    pub open spec fn view(&self) -> NodeView
        decreases self,
    {
        match self {
            Node::Expr(n) => NodeView::Expr(Box::new(n.view())),
            Node::Block(v) => NodeView::Block(node_views(*v)),
            Node::Return(o) => match o {
                Some(n) => NodeView::Return(Some(Box::new(n.view()))),
                None => NodeView::Return(None),
            },
            Node::Break => NodeView::Break,
            Node::Continue => NodeView::Continue,
            Node::Pass => NodeView::Pass,
            Node::Assn { lhs, rhs } => NodeView::Assn {
                lhs: lhs.view(),
                rhs: Box::new(rhs.view()),
            },
            Node::Catch { body } => NodeView::Catch { body: Box::new(body.view()) },
            Node::If { cond, body, els } => NodeView::If {
                cond: Box::new(cond.view()),
                body: Box::new(body.view()),
                els: match els {
                    Some(n) => Some(Box::new(n.view())),
                    None => None,
                },
            },
            Node::ElseIf { cond, body } => NodeView::ElseIf {
                cond: Box::new(cond.view()),
                body: Box::new(body.view()),
            },
            Node::Else { body } => NodeView::Else { body: Box::new(body.view()) },
            Node::For { decl, expr, body } => NodeView::For {
                decl: decl.view(),
                expr: Box::new(expr.view()),
                body: Box::new(body.view()),
            },
            Node::While { expr, body } => NodeView::While {
                expr: Box::new(expr.view()),
                body: Box::new(body.view()),
            },
            Node::Loop { body } => NodeView::Loop { body: Box::new(body.view()) },
            Node::FuncDef { params, body } => NodeView::FuncDef {
                params: string_views(params@),
                body: Box::new(body.view()),
            },
            Node::Index { lhs, rhs } => NodeView::Index {
                lhs: Box::new(lhs.view()),
                rhs: Box::new(rhs.view()),
            },
            Node::MethodCall { owner, method, args } => NodeView::MethodCall {
                owner: Box::new(owner.view()),
                method: Box::new(method.view()),
                args: node_views(*args),
            },
            Node::FuncCall { func, args } => NodeView::FuncCall {
                func: Box::new(func.view()),
                args: node_views(*args),
            },
            Node::BinExpr { lhs, op, rhs } => NodeView::BinExpr {
                lhs: Box::new(lhs.view()),
                op: op@,
                rhs: Box::new(rhs.view()),
            },
            Node::CmpExpr { nodes, ops } => NodeView::CmpExpr {
                nodes: node_views(*nodes),
                ops: token_views(ops@),
            },
            Node::LogicExpr { nodes, ops } => NodeView::LogicExpr {
                nodes: node_views(*nodes),
                ops: token_views(ops@),
            },
            Node::UnExpr { val, op } => NodeView::UnExpr { val: Box::new(val.view()), op: op@ },
            Node::Super(n, x) => NodeView::Super(*n, Box::new(x.view())),
            Node::Null => NodeView::Null,
            Node::Bool(b) => NodeView::Bool(*b),
            Node::Float(x) => NodeView::Float(*x),
            Node::Int(x) => NodeView::Int(*x),
            Node::Str(s) => NodeView::Str(s@),
            Node::Name(s) => NodeView::Name(s@),
            Node::Local => NodeView::Local,
        }
    }
}

} // verus!
