//! The syntax tree that the parser builds, and what it means for one to stand
//! for a tree of the grammar.
//!
//! Every node carries the locations of its first and last token. A node
//! `models` a tree of the grammar over a token sequence where it has the
//! shape of the tree, its names and operators, and the locations of the
//! tokens that the tree spans.

use crate::error::Location;
use crate::grammar::{Level, Span, Tree};
use crate::number::{literal_value, Number};
use crate::tokens::{Token, TokenType};
use vstd::prelude::*;

verus! {

/// A repetition: none, one or more of `T`.
#[derive(Debug)]
pub struct Rep<T>(pub Option<Vec<T>>);

impl<T> Rep<T> {
    /// The items, in order.
    pub open spec fn view(&self) -> Seq<T> {
        match self.0 {
            Some(items) => items@,
            None => Seq::empty(),
        }
    }

    /// The repetition of `items`; an empty one holds no vector.
    pub fn collect(items: Vec<T>) -> (r: Rep<T>)
        ensures
            r@ == items@,
            items.len() == 0 <==> r.0 is None,
    {
        if items.len() == 0 {
            Rep(None)
        } else {
            Rep(Some(items))
        }
    }

    /// The count of items.
    pub fn len(&self) -> (n: usize)
        ensures
            n == self@.len(),
    {
        match &self.0 {
            Some(items) => items.len(),
            None => 0,
        }
    }

    /// The item at `i`.
    pub fn get(&self, i: usize) -> (item: &T)
        requires
            i < self@.len(),
        ensures
            *item == self@[i as int],
    {
        match &self.0 {
            Some(items) => &items[i],
            None => vstd::pervasive::unreached(),
        }
    }
}

impl<T> From<Option<Vec<T>>> for Rep<T> {
    fn from(val: Option<Vec<T>>) -> (r: Self) {
        Rep(val)
    }
}

impl<T> vstd::std_specs::convert::FromSpecImpl<Option<Vec<T>>> for Rep<T> {
    open spec fn obeys_from_spec() -> bool {
        true
    }

    open spec fn from_spec(val: Option<Vec<T>>) -> Self {
        Rep(val)
    }
}

impl<T> core::ops::Deref for Rep<T> {
    type Target = [T];

    /// The items as a slice; the empty slice where there are none.
    fn deref(&self) -> (r: &[T])
        ensures
            r@ == self@,
    {
        match &self.0 {
            Some(items) => items.as_slice(),
            None => &[],
        }
    }
}

impl<'a, T> IntoIterator for &'a Rep<T> {
    type Item = &'a T;

    type IntoIter = core::slice::Iter<'a, T>;

    /// An iterator over the items, in order.
    fn into_iter(self) -> (r: Self::IntoIter)
        ensures
            vstd::std_specs::slice::into_iter_elts(r) == self@,
    {
        broadcast use vstd::std_specs::slice::axiom_spec_slice_iter;

        let items: &'a [T] = match &self.0 {
            Some(items) => items.as_slice(),
            None => &[],
        };
        items.iter()
    }
}

pub type Identifier = String;

pub type Statements<'f> = Rep<Statement<'f>>;

pub type Expression<'f> = RangeExpr<'f>;

pub type Args<'f> = Rep<Expression<'f>>;

pub type ArgNames = Rep<Identifier>;

/// The node from `start` to `end` covers the tokens of `span`.
pub open spec fn covers<'f>(
    start: Location<'f>,
    end: Location<'f>,
    span: Span,
    tokens: Seq<Token<'f>>,
) -> bool {
    &&& 0 <= span.first <= span.last < tokens.len()
    &&& start == tokens[span.first].start
    &&& end == tokens[span.last].end
}

/// The names are the given texts, one for one.
pub open spec fn spell(names: Seq<Identifier>, texts: Seq<Seq<char>>) -> bool {
    &&& names.len() == texts.len()
    &&& forall|i: int| 0 <= i < names.len() ==> (#[trigger] names[i])@ == texts[i]
}

/// What stands where a body is wanted.
#[derive(Debug)]
pub enum Block<'f> {
    Single(Box<Statement<'f>>),
    Multiple(BlockExpr<'f>),
}

#[derive(Debug)]
pub enum Statement<'f> {
    Var(VarStmt<'f>),
    Function(FunctionDecl<'f>),
    Class(ClassDecl<'f>),
    Break(BreakStmt<'f>),
    Continue(ContinueStmt<'f>),
    Return(ReturnStmt<'f>),
    Expr(Expression<'f>),
}

#[derive(Debug)]
pub struct VarStmt<'f> {
    pub start: Location<'f>,
    pub end: Location<'f>,
    pub ident: Identifier,
    pub expr: Expression<'f>,
}

#[derive(Debug)]
pub struct FunctionDecl<'f> {
    pub start: Location<'f>,
    pub end: Location<'f>,
    pub ident: Identifier,
    pub args: ArgNames,
    pub block: Block<'f>,
}

#[derive(Debug)]
pub struct ClassDecl<'f> {
    pub start: Location<'f>,
    pub end: Location<'f>,
    pub ident: Identifier,
    pub block: MemberBlock<'f>,
}

#[derive(Debug)]
pub struct BreakStmt<'f> {
    pub start: Location<'f>,
    pub end: Location<'f>,
    pub expr: Option<Expression<'f>>,
}

#[derive(Debug)]
pub struct ContinueStmt<'f> {
    pub start: Location<'f>,
    pub end: Location<'f>,
}

#[derive(Debug)]
pub struct ReturnStmt<'f> {
    pub start: Location<'f>,
    pub end: Location<'f>,
    pub expr: Option<Expression<'f>>,
}

#[derive(Debug)]
pub struct Member<'f> {
    pub start: Location<'f>,
    pub end: Location<'f>,
    pub is_static: bool,
    pub member_type: MemberType<'f>,
}

#[derive(Debug)]
pub enum MemberType<'f> {
    Attribute(VarStmt<'f>),
    Method(FunctionDecl<'f>),
}

#[derive(Debug)]
pub struct MemberBlock<'f> {
    pub start: Location<'f>,
    pub end: Location<'f>,
    pub members: Rep<Member<'f>>,
}

#[derive(Debug)]
pub struct RangeExpr<'f> {
    pub start: Location<'f>,
    pub end: Location<'f>,
    pub base: Box<OrExpr<'f>>,
    pub range: Option<(TokenType, Box<OrExpr<'f>>)>,
}

#[derive(Debug)]
pub struct OrExpr<'f> {
    pub start: Location<'f>,
    pub end: Location<'f>,
    pub base: AndExpr<'f>,
    pub following: Rep<AndExpr<'f>>,
}

#[derive(Debug)]
pub struct AndExpr<'f> {
    pub start: Location<'f>,
    pub end: Location<'f>,
    pub base: BitOrExpr<'f>,
    pub following: Rep<BitOrExpr<'f>>,
}

#[derive(Debug)]
pub struct BitOrExpr<'f> {
    pub start: Location<'f>,
    pub end: Location<'f>,
    pub base: BitXorExpr<'f>,
    pub following: Rep<BitXorExpr<'f>>,
}

#[derive(Debug)]
pub struct BitXorExpr<'f> {
    pub start: Location<'f>,
    pub end: Location<'f>,
    pub base: BitAndExpr<'f>,
    pub following: Rep<BitAndExpr<'f>>,
}

#[derive(Debug)]
pub struct BitAndExpr<'f> {
    pub start: Location<'f>,
    pub end: Location<'f>,
    pub base: EqExpr<'f>,
    pub following: Rep<EqExpr<'f>>,
}

#[derive(Debug)]
pub struct EqExpr<'f> {
    pub start: Location<'f>,
    pub end: Location<'f>,
    pub left: RelExpr<'f>,
    pub right: Option<(TokenType, RelExpr<'f>)>,
}

#[derive(Debug)]
pub struct RelExpr<'f> {
    pub start: Location<'f>,
    pub end: Location<'f>,
    pub left: ShiftExpr<'f>,
    pub right: Option<(TokenType, ShiftExpr<'f>)>,
}

#[derive(Debug)]
pub struct ShiftExpr<'f> {
    pub start: Location<'f>,
    pub end: Location<'f>,
    pub base: AddExpr<'f>,
    pub following: Rep<(TokenType, AddExpr<'f>)>,
}

#[derive(Debug)]
pub struct AddExpr<'f> {
    pub start: Location<'f>,
    pub end: Location<'f>,
    pub base: MulExpr<'f>,
    pub following: Rep<(TokenType, MulExpr<'f>)>,
}

#[derive(Debug)]
pub struct MulExpr<'f> {
    pub start: Location<'f>,
    pub end: Location<'f>,
    pub base: UnaryExpr<'f>,
    pub following: Rep<(TokenType, UnaryExpr<'f>)>,
}

#[derive(Debug)]
pub enum UnaryExpr<'f> {
    Unary { start: Location<'f>, end: Location<'f>, operator: TokenType, expr: Box<UnaryExpr<'f>> },
    Done(Box<ExpExpr<'f>>),
}

#[derive(Debug)]
pub struct ExpExpr<'f> {
    pub start: Location<'f>,
    pub end: Location<'f>,
    pub base: AssignExpr<'f>,
    pub exponent: Option<UnaryExpr<'f>>,
}

#[derive(Debug)]
pub struct AssignExpr<'f> {
    pub start: Location<'f>,
    pub end: Location<'f>,
    pub left: CallExpr<'f>,
    pub right: Option<(TokenType, Expression<'f>)>,
}

#[derive(Debug)]
pub struct CallExpr<'f> {
    pub start: Location<'f>,
    pub end: Location<'f>,
    pub base: MemberExpr<'f>,
    pub following: Option<(Args<'f>, Rep<CallPart<'f>>)>,
}

#[derive(Debug)]
pub struct MemberExpr<'f> {
    pub start: Location<'f>,
    pub end: Location<'f>,
    pub base: Atom<'f>,
    pub following: Rep<MemberPart>,
}

#[derive(Debug)]
pub enum Atom<'f> {
    Number(Number),
    Bool(bool),
    String(String),
    Null,
    Identifier { start: Location<'f>, end: Location<'f>, name: Identifier },
    Expr(Expression<'f>),
    IfExpr(IfExpr<'f>),
    ForExpr(ForExpr<'f>),
    WhileExpr(WhileExpr<'f>),
    LoopExpr(LoopExpr<'f>),
    FunExpr(FunExpr<'f>),
    ClassExpr(ClassExpr<'f>),
    TryExpr(TryExpr<'f>),
    BlockExpr(BlockExpr<'f>),
}

#[derive(Debug)]
pub struct IfExpr<'f> {
    pub start: Location<'f>,
    pub end: Location<'f>,
    pub condition: Expression<'f>,
    pub block: Block<'f>,
    pub else_block: Option<Block<'f>>,
}

#[derive(Debug)]
pub struct ForExpr<'f> {
    pub start: Location<'f>,
    pub end: Location<'f>,
    pub ident: Identifier,
    pub iter: Expression<'f>,
    pub block: Block<'f>,
}

#[derive(Debug)]
pub struct WhileExpr<'f> {
    pub start: Location<'f>,
    pub end: Location<'f>,
    pub condition: Expression<'f>,
    pub block: Block<'f>,
}

#[derive(Debug)]
pub struct LoopExpr<'f> {
    pub start: Location<'f>,
    pub end: Location<'f>,
    pub block: Block<'f>,
}

#[derive(Debug)]
pub struct FunExpr<'f> {
    pub start: Location<'f>,
    pub end: Location<'f>,
    pub args: ArgNames,
    pub block: Block<'f>,
}

#[derive(Debug)]
pub struct ClassExpr<'f> {
    pub start: Location<'f>,
    pub end: Location<'f>,
    pub block: MemberBlock<'f>,
}

#[derive(Debug)]
pub struct TryExpr<'f> {
    pub start: Location<'f>,
    pub end: Location<'f>,
    pub try_block: Block<'f>,
    pub ident: Identifier,
    pub catch_block: Block<'f>,
}

#[derive(Debug)]
pub struct BlockExpr<'f> {
    pub start: Location<'f>,
    pub end: Location<'f>,
    pub stmts: Statements<'f>,
    pub expr: Option<Expression<'f>>,
}

#[derive(Debug)]
pub enum MemberPart {
    Field(Identifier),
}

#[derive(Debug)]
pub enum CallPart<'f> {
    Member(MemberPart),
    Args(Args<'f>),
}

impl<'f> Block<'f> {
    #[verifier::opaque]
    pub open spec fn models(&self, tree: Tree, tokens: Seq<Token<'_>>) -> bool
        decreases self,
    {
        match self {
            Block::Single(statement) => !(tree is Braces) && statement.models(tree, tokens),
            Block::Multiple(block) => tree is Braces && block.models(tree, tokens),
        }
    }
}

impl<'f> Statement<'f> {
    #[verifier::opaque]
    pub open spec fn models(&self, tree: Tree, tokens: Seq<Token<'_>>) -> bool
        decreases self,
    {
        match self {
            Statement::Var(s) => tree is Var && s.models(tree, tokens),
            Statement::Function(s) => tree is Function && s.models(tree, tokens),
            Statement::Class(s) => tree is Class && s.models(tree, tokens),
            Statement::Break(s) => tree is Break && s.models(tree, tokens),
            Statement::Continue(s) => tree is Continue && s.models(tree, tokens),
            Statement::Return(s) => tree is Return && s.models(tree, tokens),
            Statement::Expr(e) => tree matches Tree::Expr { expr } && e.models(*expr, tokens),
        }
    }
}

impl<'f> VarStmt<'f> {
    #[verifier::opaque]
    pub open spec fn models(&self, tree: Tree, tokens: Seq<Token<'_>>) -> bool
        decreases self,
    {
        match tree {
            Tree::Var { span, name, value } => {
                &&& covers(self.start, self.end, span, tokens)
                &&& self.ident@ == name
                &&& self.expr.models(*value, tokens)
            },
            _ => false,
        }
    }
}

impl<'f> FunctionDecl<'f> {
    #[verifier::opaque]
    pub open spec fn models(&self, tree: Tree, tokens: Seq<Token<'_>>) -> bool
        decreases self,
    {
        match tree {
            Tree::Function { span, name, params, body } => {
                &&& covers(self.start, self.end, span, tokens)
                &&& self.ident@ == name
                &&& spell(self.args@, params)
                &&& self.block.models(*body, tokens)
            },
            _ => false,
        }
    }
}

impl<'f> ClassDecl<'f> {
    #[verifier::opaque]
    pub open spec fn models(&self, tree: Tree, tokens: Seq<Token<'_>>) -> bool
        decreases self,
    {
        match tree {
            Tree::Class { span, name, body } => {
                &&& covers(self.start, self.end, span, tokens)
                &&& self.ident@ == name
                &&& self.block.models(*body, tokens)
            },
            _ => false,
        }
    }
}

impl<'f> BreakStmt<'f> {
    #[verifier::opaque]
    pub open spec fn models(&self, tree: Tree, tokens: Seq<Token<'_>>) -> bool
        decreases self,
    {
        match tree {
            Tree::Break { span, value } => {
                &&& covers(self.start, self.end, span, tokens)
                &&& match (self.expr, value) {
                    (Some(e), Some(t)) => e.models(*t, tokens),
                    (None, None) => true,
                    _ => false,
                }
            },
            _ => false,
        }
    }
}

impl<'f> ContinueStmt<'f> {
    #[verifier::opaque]
    pub open spec fn models(&self, tree: Tree, tokens: Seq<Token<'_>>) -> bool
        decreases self,
    {
        match tree {
            Tree::Continue { span } => {
                &&& covers(self.start, self.end, span, tokens)
            },
            _ => false,
        }
    }
}

impl<'f> ReturnStmt<'f> {
    #[verifier::opaque]
    pub open spec fn models(&self, tree: Tree, tokens: Seq<Token<'_>>) -> bool
        decreases self,
    {
        match tree {
            Tree::Return { span, value } => {
                &&& covers(self.start, self.end, span, tokens)
                &&& match (self.expr, value) {
                    (Some(e), Some(t)) => e.models(*t, tokens),
                    (None, None) => true,
                    _ => false,
                }
            },
            _ => false,
        }
    }
}

impl<'f> Member<'f> {
    #[verifier::opaque]
    pub open spec fn models(&self, tree: Tree, tokens: Seq<Token<'_>>) -> bool
        decreases self,
    {
        match tree {
            Tree::Member { span, is_static, item } => {
                &&& covers(self.start, self.end, span, tokens)
                &&& self.is_static == is_static
                &&& match self.member_type {
                    MemberType::Attribute(v) => *item is Var && v.models(*item, tokens),
                    MemberType::Method(f) => *item is Function && f.models(*item, tokens),
                }
            },
            _ => false,
        }
    }
}

impl<'f> MemberBlock<'f> {
    #[verifier::opaque]
    pub open spec fn models(&self, tree: Tree, tokens: Seq<Token<'_>>) -> bool
        decreases self,
    {
        match tree {
            Tree::Members { span, members } => {
                &&& covers(self.start, self.end, span, tokens)
                &&& self.members@.len() == members.len()
                &&& forall|i: int| 0 <= i < members.len() ==> (#[trigger] self.members@[i]).models(members[i], tokens)
            },
            _ => false,
        }
    }
}

impl<'f> RangeExpr<'f> {
    #[verifier::opaque]
    pub open spec fn models(&self, tree: Tree, tokens: Seq<Token<'_>>) -> bool
        decreases self,
    {
        match tree {
            Tree::Pair { level: Level::Range, span, left, right } => {
                &&& covers(self.start, self.end, span, tokens)
                &&& self.base.models(*left, tokens)
                &&& match (self.range, right) {
                    (Some((operator, e)), Some((o, t))) => operator == o && e.models(*t, tokens),
                    (None, None) => true,
                    _ => false,
                }
            },
            _ => false,
        }
    }
}

impl<'f> OrExpr<'f> {
    #[verifier::opaque]
    pub open spec fn models(&self, tree: Tree, tokens: Seq<Token<'_>>) -> bool
        decreases self,
    {
        match tree {
            Tree::Chain { level: Level::Or, span, base, following } => {
                &&& covers(self.start, self.end, span, tokens)
                &&& self.base.models(*base, tokens)
                &&& self.following@.len() == following.len()
                &&& forall|i: int| 0 <= i < following.len() ==> (#[trigger] self.following@[i]).models(following[i].1, tokens)
            },
            _ => false,
        }
    }
}

impl<'f> AndExpr<'f> {
    #[verifier::opaque]
    pub open spec fn models(&self, tree: Tree, tokens: Seq<Token<'_>>) -> bool
        decreases self,
    {
        match tree {
            Tree::Chain { level: Level::And, span, base, following } => {
                &&& covers(self.start, self.end, span, tokens)
                &&& self.base.models(*base, tokens)
                &&& self.following@.len() == following.len()
                &&& forall|i: int| 0 <= i < following.len() ==> (#[trigger] self.following@[i]).models(following[i].1, tokens)
            },
            _ => false,
        }
    }
}

impl<'f> BitOrExpr<'f> {
    #[verifier::opaque]
    pub open spec fn models(&self, tree: Tree, tokens: Seq<Token<'_>>) -> bool
        decreases self,
    {
        match tree {
            Tree::Chain { level: Level::BitOr, span, base, following } => {
                &&& covers(self.start, self.end, span, tokens)
                &&& self.base.models(*base, tokens)
                &&& self.following@.len() == following.len()
                &&& forall|i: int| 0 <= i < following.len() ==> (#[trigger] self.following@[i]).models(following[i].1, tokens)
            },
            _ => false,
        }
    }
}

impl<'f> BitXorExpr<'f> {
    #[verifier::opaque]
    pub open spec fn models(&self, tree: Tree, tokens: Seq<Token<'_>>) -> bool
        decreases self,
    {
        match tree {
            Tree::Chain { level: Level::BitXor, span, base, following } => {
                &&& covers(self.start, self.end, span, tokens)
                &&& self.base.models(*base, tokens)
                &&& self.following@.len() == following.len()
                &&& forall|i: int| 0 <= i < following.len() ==> (#[trigger] self.following@[i]).models(following[i].1, tokens)
            },
            _ => false,
        }
    }
}

impl<'f> BitAndExpr<'f> {
    #[verifier::opaque]
    pub open spec fn models(&self, tree: Tree, tokens: Seq<Token<'_>>) -> bool
        decreases self,
    {
        match tree {
            Tree::Chain { level: Level::BitAnd, span, base, following } => {
                &&& covers(self.start, self.end, span, tokens)
                &&& self.base.models(*base, tokens)
                &&& self.following@.len() == following.len()
                &&& forall|i: int| 0 <= i < following.len() ==> (#[trigger] self.following@[i]).models(following[i].1, tokens)
            },
            _ => false,
        }
    }
}

impl<'f> EqExpr<'f> {
    #[verifier::opaque]
    pub open spec fn models(&self, tree: Tree, tokens: Seq<Token<'_>>) -> bool
        decreases self,
    {
        match tree {
            Tree::Pair { level: Level::Equality, span, left, right } => {
                &&& covers(self.start, self.end, span, tokens)
                &&& self.left.models(*left, tokens)
                &&& match (self.right, right) {
                    (Some((operator, e)), Some((o, t))) => operator == o && e.models(*t, tokens),
                    (None, None) => true,
                    _ => false,
                }
            },
            _ => false,
        }
    }
}

impl<'f> RelExpr<'f> {
    #[verifier::opaque]
    pub open spec fn models(&self, tree: Tree, tokens: Seq<Token<'_>>) -> bool
        decreases self,
    {
        match tree {
            Tree::Pair { level: Level::Relational, span, left, right } => {
                &&& covers(self.start, self.end, span, tokens)
                &&& self.left.models(*left, tokens)
                &&& match (self.right, right) {
                    (Some((operator, e)), Some((o, t))) => operator == o && e.models(*t, tokens),
                    (None, None) => true,
                    _ => false,
                }
            },
            _ => false,
        }
    }
}

impl<'f> ShiftExpr<'f> {
    #[verifier::opaque]
    pub open spec fn models(&self, tree: Tree, tokens: Seq<Token<'_>>) -> bool
        decreases self,
    {
        match tree {
            Tree::Chain { level: Level::Shift, span, base, following } => {
                &&& covers(self.start, self.end, span, tokens)
                &&& self.base.models(*base, tokens)
                &&& self.following@.len() == following.len()
                &&& forall|i: int| 0 <= i < following.len() ==> (#[trigger] self.following@[i]).0 == following[i].0 && self.following@[i].1.models(
                    following[i].1,
                    tokens,
                )
            },
            _ => false,
        }
    }
}

impl<'f> AddExpr<'f> {
    #[verifier::opaque]
    pub open spec fn models(&self, tree: Tree, tokens: Seq<Token<'_>>) -> bool
        decreases self,
    {
        match tree {
            Tree::Chain { level: Level::Additive, span, base, following } => {
                &&& covers(self.start, self.end, span, tokens)
                &&& self.base.models(*base, tokens)
                &&& self.following@.len() == following.len()
                &&& forall|i: int| 0 <= i < following.len() ==> (#[trigger] self.following@[i]).0 == following[i].0 && self.following@[i].1.models(
                    following[i].1,
                    tokens,
                )
            },
            _ => false,
        }
    }
}

impl<'f> MulExpr<'f> {
    #[verifier::opaque]
    pub open spec fn models(&self, tree: Tree, tokens: Seq<Token<'_>>) -> bool
        decreases self,
    {
        match tree {
            Tree::Chain { level: Level::Multiplicative, span, base, following } => {
                &&& covers(self.start, self.end, span, tokens)
                &&& self.base.models(*base, tokens)
                &&& self.following@.len() == following.len()
                &&& forall|i: int| 0 <= i < following.len() ==> (#[trigger] self.following@[i]).0 == following[i].0 && self.following@[i].1.models(
                    following[i].1,
                    tokens,
                )
            },
            _ => false,
        }
    }
}

impl<'f> UnaryExpr<'f> {
    #[verifier::opaque]
    pub open spec fn models(&self, tree: Tree, tokens: Seq<Token<'_>>) -> bool
        decreases self,
    {
        match self {
            UnaryExpr::Unary { start, end, operator, expr } => {
                &&& tree matches Tree::Prefix { span, operator: o, operand }
                &&& covers(*start, *end, span, tokens)
                &&& *operator == o
                &&& expr.models(*operand, tokens)
            },
            UnaryExpr::Done(power) => tree is Power && power.models(tree, tokens),
        }
    }
}

impl<'f> ExpExpr<'f> {
    #[verifier::opaque]
    pub open spec fn models(&self, tree: Tree, tokens: Seq<Token<'_>>) -> bool
        decreases self,
    {
        match tree {
            Tree::Power { span, base, exponent } => {
                &&& covers(self.start, self.end, span, tokens)
                &&& self.base.models(*base, tokens)
                &&& match (self.exponent, exponent) {
                    (Some(e), Some(t)) => e.models(*t, tokens),
                    (None, None) => true,
                    _ => false,
                }
            },
            _ => false,
        }
    }
}

impl<'f> AssignExpr<'f> {
    #[verifier::opaque]
    pub open spec fn models(&self, tree: Tree, tokens: Seq<Token<'_>>) -> bool
        decreases self,
    {
        match tree {
            Tree::Assign { span, target, value } => {
                &&& covers(self.start, self.end, span, tokens)
                &&& self.left.models(*target, tokens)
                &&& match (self.right, value) {
                    (Some((operator, e)), Some((o, t))) => operator == o && e.models(*t, tokens),
                    (None, None) => true,
                    _ => false,
                }
            },
            _ => false,
        }
    }
}

impl<'f> CallExpr<'f> {
    #[verifier::opaque]
    pub open spec fn models(&self, tree: Tree, tokens: Seq<Token<'_>>) -> bool
        decreases self,
    {
        match tree {
            Tree::Call { span, base, following } => {
                &&& covers(self.start, self.end, span, tokens)
                &&& self.base.models(*base, tokens)
                &&& match (self.following, following) {
                    (Some((arguments, parts)), Some((items, rest))) => {
                        &&& arguments@.len() == items.len()
                        &&& forall|i: int|
                            0 <= i < items.len() ==> (#[trigger] arguments@[i]).models(
                                items[i],
                                tokens,
                            )
                        &&& parts@.len() == rest.len()
                        &&& forall|i: int|
                            0 <= i < rest.len() ==> (#[trigger] parts@[i]).models(rest[i], tokens)
                    },
                    (None, None) => true,
                    _ => false,
                }
            },
            _ => false,
        }
    }
}

impl<'f> MemberExpr<'f> {
    #[verifier::opaque]
    pub open spec fn models(&self, tree: Tree, tokens: Seq<Token<'_>>) -> bool
        decreases self,
    {
        match tree {
            Tree::Access { span, base, fields } => {
                &&& covers(self.start, self.end, span, tokens)
                &&& self.base.models(*base, tokens)
                &&& self.following@.len() == fields.len()
                &&& forall|i: int|
                    0 <= i < fields.len() ==> (#[trigger] self.following@[i]).names(fields[i])
            },
            _ => false,
        }
    }
}

impl MemberPart {
    /// The part is the field called `name`.
    pub open spec fn names(&self, name: Seq<char>) -> bool {
        match self {
            MemberPart::Field(field) => field@ == name,
        }
    }
}

impl<'f> CallPart<'f> {
    #[verifier::opaque]
    pub open spec fn models(&self, tree: Tree, tokens: Seq<Token<'_>>) -> bool
        decreases self,
    {
        match self {
            CallPart::Member(part) => tree matches Tree::Field { name } && part.names(name),
            CallPart::Args(arguments) => {
                &&& tree matches Tree::Arguments { items }
                &&& arguments@.len() == items.len()
                &&& forall|i: int|
                    0 <= i < items.len() ==> (#[trigger] arguments@[i]).models(items[i], tokens)
            },
        }
    }
}

impl<'f> Atom<'f> {
    #[verifier::opaque]
    pub open spec fn models(&self, tree: Tree, tokens: Seq<Token<'_>>) -> bool
        decreases self,
    {
        match self {
            Atom::Number(n) => tree matches Tree::Number { text } && literal_value(text) == Some(
                n@,
            ),
            Atom::Bool(b) => tree == (Tree::Truth { value: *b }),
            Atom::String(s) => tree == (Tree::Text { text: s@ }),
            Atom::Null => tree is Null,
            Atom::Identifier { start, end, name } => {
                &&& tree matches Tree::Name { span, name: text }
                &&& covers(*start, *end, span, tokens)
                &&& name@ == text
            },
            Atom::Expr(e) => tree matches Tree::Paren { inner } && e.models(*inner, tokens),
            Atom::IfExpr(e) => tree is If && e.models(tree, tokens),
            Atom::ForExpr(e) => tree is For && e.models(tree, tokens),
            Atom::WhileExpr(e) => tree is While && e.models(tree, tokens),
            Atom::LoopExpr(e) => tree is Loop && e.models(tree, tokens),
            Atom::FunExpr(e) => tree is Lambda && e.models(tree, tokens),
            Atom::ClassExpr(e) => tree is ClassLiteral && e.models(tree, tokens),
            Atom::TryExpr(e) => tree is Try && e.models(tree, tokens),
            Atom::BlockExpr(e) => tree is Braces && e.models(tree, tokens),
        }
    }
}

impl<'f> IfExpr<'f> {
    #[verifier::opaque]
    pub open spec fn models(&self, tree: Tree, tokens: Seq<Token<'_>>) -> bool
        decreases self,
    {
        match tree {
            Tree::If { span, condition, then, otherwise } => {
                &&& covers(self.start, self.end, span, tokens)
                &&& self.condition.models(*condition, tokens)
                &&& self.block.models(*then, tokens)
                &&& match (self.else_block, otherwise) {
                    (Some(e), Some(t)) => e.models(*t, tokens),
                    (None, None) => true,
                    _ => false,
                }
            },
            _ => false,
        }
    }
}

impl<'f> ForExpr<'f> {
    #[verifier::opaque]
    pub open spec fn models(&self, tree: Tree, tokens: Seq<Token<'_>>) -> bool
        decreases self,
    {
        match tree {
            Tree::For { span, name, iter, body } => {
                &&& covers(self.start, self.end, span, tokens)
                &&& self.ident@ == name
                &&& self.iter.models(*iter, tokens)
                &&& self.block.models(*body, tokens)
            },
            _ => false,
        }
    }
}

impl<'f> WhileExpr<'f> {
    #[verifier::opaque]
    pub open spec fn models(&self, tree: Tree, tokens: Seq<Token<'_>>) -> bool
        decreases self,
    {
        match tree {
            Tree::While { span, condition, body } => {
                &&& covers(self.start, self.end, span, tokens)
                &&& self.condition.models(*condition, tokens)
                &&& self.block.models(*body, tokens)
            },
            _ => false,
        }
    }
}

impl<'f> LoopExpr<'f> {
    #[verifier::opaque]
    pub open spec fn models(&self, tree: Tree, tokens: Seq<Token<'_>>) -> bool
        decreases self,
    {
        match tree {
            Tree::Loop { span, body } => {
                &&& covers(self.start, self.end, span, tokens)
                &&& self.block.models(*body, tokens)
            },
            _ => false,
        }
    }
}

impl<'f> FunExpr<'f> {
    #[verifier::opaque]
    pub open spec fn models(&self, tree: Tree, tokens: Seq<Token<'_>>) -> bool
        decreases self,
    {
        match tree {
            Tree::Lambda { span, params, body } => {
                &&& covers(self.start, self.end, span, tokens)
                &&& spell(self.args@, params)
                &&& self.block.models(*body, tokens)
            },
            _ => false,
        }
    }
}

impl<'f> ClassExpr<'f> {
    #[verifier::opaque]
    pub open spec fn models(&self, tree: Tree, tokens: Seq<Token<'_>>) -> bool
        decreases self,
    {
        match tree {
            Tree::ClassLiteral { span, body } => {
                &&& covers(self.start, self.end, span, tokens)
                &&& self.block.models(*body, tokens)
            },
            _ => false,
        }
    }
}

impl<'f> TryExpr<'f> {
    #[verifier::opaque]
    pub open spec fn models(&self, tree: Tree, tokens: Seq<Token<'_>>) -> bool
        decreases self,
    {
        match tree {
            Tree::Try { span, body, name, handler } => {
                &&& covers(self.start, self.end, span, tokens)
                &&& self.try_block.models(*body, tokens)
                &&& self.ident@ == name
                &&& self.catch_block.models(*handler, tokens)
            },
            _ => false,
        }
    }
}

impl<'f> BlockExpr<'f> {
    #[verifier::opaque]
    pub open spec fn models(&self, tree: Tree, tokens: Seq<Token<'_>>) -> bool
        decreases self,
    {
        match tree {
            Tree::Braces { span, statements, value } => {
                &&& covers(self.start, self.end, span, tokens)
                &&& self.stmts@.len() == statements.len()
                &&& forall|i: int| 0 <= i < statements.len() ==> (#[trigger] self.stmts@[i]).models(statements[i], tokens)
                &&& match (self.expr, value) {
                    (Some(e), Some(t)) => e.models(*t, tokens),
                    (None, None) => true,
                    _ => false,
                }
            },
            _ => false,
        }
    }
}

/// A node of the syntax tree: something that can stand for a tree of the
/// grammar.
pub trait Node {
    /// Whether the node stands for `tree` over `tokens`.
    spec fn stands_for(&self, tree: Tree, tokens: Seq<Token<'_>>) -> bool;
}

impl<'f> Node for Block<'f> {
    open spec fn stands_for(&self, tree: Tree, tokens: Seq<Token<'_>>) -> bool {
        self.models(tree, tokens)
    }
}

impl<'f> Node for Statement<'f> {
    open spec fn stands_for(&self, tree: Tree, tokens: Seq<Token<'_>>) -> bool {
        self.models(tree, tokens)
    }
}

impl<'f> Node for VarStmt<'f> {
    open spec fn stands_for(&self, tree: Tree, tokens: Seq<Token<'_>>) -> bool {
        self.models(tree, tokens)
    }
}

impl<'f> Node for FunctionDecl<'f> {
    open spec fn stands_for(&self, tree: Tree, tokens: Seq<Token<'_>>) -> bool {
        self.models(tree, tokens)
    }
}

impl<'f> Node for ClassDecl<'f> {
    open spec fn stands_for(&self, tree: Tree, tokens: Seq<Token<'_>>) -> bool {
        self.models(tree, tokens)
    }
}

impl<'f> Node for BreakStmt<'f> {
    open spec fn stands_for(&self, tree: Tree, tokens: Seq<Token<'_>>) -> bool {
        self.models(tree, tokens)
    }
}

impl<'f> Node for ContinueStmt<'f> {
    open spec fn stands_for(&self, tree: Tree, tokens: Seq<Token<'_>>) -> bool {
        self.models(tree, tokens)
    }
}

impl<'f> Node for ReturnStmt<'f> {
    open spec fn stands_for(&self, tree: Tree, tokens: Seq<Token<'_>>) -> bool {
        self.models(tree, tokens)
    }
}

impl<'f> Node for Member<'f> {
    open spec fn stands_for(&self, tree: Tree, tokens: Seq<Token<'_>>) -> bool {
        self.models(tree, tokens)
    }
}

impl<'f> Node for MemberBlock<'f> {
    open spec fn stands_for(&self, tree: Tree, tokens: Seq<Token<'_>>) -> bool {
        self.models(tree, tokens)
    }
}

impl<'f> Node for RangeExpr<'f> {
    open spec fn stands_for(&self, tree: Tree, tokens: Seq<Token<'_>>) -> bool {
        self.models(tree, tokens)
    }
}

impl<'f> Node for OrExpr<'f> {
    open spec fn stands_for(&self, tree: Tree, tokens: Seq<Token<'_>>) -> bool {
        self.models(tree, tokens)
    }
}

impl<'f> Node for AndExpr<'f> {
    open spec fn stands_for(&self, tree: Tree, tokens: Seq<Token<'_>>) -> bool {
        self.models(tree, tokens)
    }
}

impl<'f> Node for BitOrExpr<'f> {
    open spec fn stands_for(&self, tree: Tree, tokens: Seq<Token<'_>>) -> bool {
        self.models(tree, tokens)
    }
}

impl<'f> Node for BitXorExpr<'f> {
    open spec fn stands_for(&self, tree: Tree, tokens: Seq<Token<'_>>) -> bool {
        self.models(tree, tokens)
    }
}

impl<'f> Node for BitAndExpr<'f> {
    open spec fn stands_for(&self, tree: Tree, tokens: Seq<Token<'_>>) -> bool {
        self.models(tree, tokens)
    }
}

impl<'f> Node for EqExpr<'f> {
    open spec fn stands_for(&self, tree: Tree, tokens: Seq<Token<'_>>) -> bool {
        self.models(tree, tokens)
    }
}

impl<'f> Node for RelExpr<'f> {
    open spec fn stands_for(&self, tree: Tree, tokens: Seq<Token<'_>>) -> bool {
        self.models(tree, tokens)
    }
}

impl<'f> Node for ShiftExpr<'f> {
    open spec fn stands_for(&self, tree: Tree, tokens: Seq<Token<'_>>) -> bool {
        self.models(tree, tokens)
    }
}

impl<'f> Node for AddExpr<'f> {
    open spec fn stands_for(&self, tree: Tree, tokens: Seq<Token<'_>>) -> bool {
        self.models(tree, tokens)
    }
}

impl<'f> Node for MulExpr<'f> {
    open spec fn stands_for(&self, tree: Tree, tokens: Seq<Token<'_>>) -> bool {
        self.models(tree, tokens)
    }
}

impl<'f> Node for UnaryExpr<'f> {
    open spec fn stands_for(&self, tree: Tree, tokens: Seq<Token<'_>>) -> bool {
        self.models(tree, tokens)
    }
}

impl<'f> Node for ExpExpr<'f> {
    open spec fn stands_for(&self, tree: Tree, tokens: Seq<Token<'_>>) -> bool {
        self.models(tree, tokens)
    }
}

impl<'f> Node for AssignExpr<'f> {
    open spec fn stands_for(&self, tree: Tree, tokens: Seq<Token<'_>>) -> bool {
        self.models(tree, tokens)
    }
}

impl<'f> Node for CallExpr<'f> {
    open spec fn stands_for(&self, tree: Tree, tokens: Seq<Token<'_>>) -> bool {
        self.models(tree, tokens)
    }
}

impl<'f> Node for MemberExpr<'f> {
    open spec fn stands_for(&self, tree: Tree, tokens: Seq<Token<'_>>) -> bool {
        self.models(tree, tokens)
    }
}

impl<'f> Node for Atom<'f> {
    open spec fn stands_for(&self, tree: Tree, tokens: Seq<Token<'_>>) -> bool {
        self.models(tree, tokens)
    }
}

impl<'f> Node for IfExpr<'f> {
    open spec fn stands_for(&self, tree: Tree, tokens: Seq<Token<'_>>) -> bool {
        self.models(tree, tokens)
    }
}

impl<'f> Node for ForExpr<'f> {
    open spec fn stands_for(&self, tree: Tree, tokens: Seq<Token<'_>>) -> bool {
        self.models(tree, tokens)
    }
}

impl<'f> Node for WhileExpr<'f> {
    open spec fn stands_for(&self, tree: Tree, tokens: Seq<Token<'_>>) -> bool {
        self.models(tree, tokens)
    }
}

impl<'f> Node for LoopExpr<'f> {
    open spec fn stands_for(&self, tree: Tree, tokens: Seq<Token<'_>>) -> bool {
        self.models(tree, tokens)
    }
}

impl<'f> Node for FunExpr<'f> {
    open spec fn stands_for(&self, tree: Tree, tokens: Seq<Token<'_>>) -> bool {
        self.models(tree, tokens)
    }
}

impl<'f> Node for ClassExpr<'f> {
    open spec fn stands_for(&self, tree: Tree, tokens: Seq<Token<'_>>) -> bool {
        self.models(tree, tokens)
    }
}

impl<'f> Node for TryExpr<'f> {
    open spec fn stands_for(&self, tree: Tree, tokens: Seq<Token<'_>>) -> bool {
        self.models(tree, tokens)
    }
}

impl<'f> Node for BlockExpr<'f> {
    open spec fn stands_for(&self, tree: Tree, tokens: Seq<Token<'_>>) -> bool {
        self.models(tree, tokens)
    }
}

impl<'f> Node for CallPart<'f> {
    open spec fn stands_for(&self, tree: Tree, tokens: Seq<Token<'_>>) -> bool {
        self.models(tree, tokens)
    }
}

/// The statements stand for the trees, one for one.
pub open spec fn model_all<'f>(
    statements: Seq<Statement<'f>>,
    trees: Seq<Tree>,
    tokens: Seq<Token<'_>>,
) -> bool {
    &&& statements.len() == trees.len()
    &&& forall|i: int|
        0 <= i < trees.len() ==> (#[trigger] statements[i]).models(trees[i], tokens)
}

} // verus!
