//! The typed specification language that crosses the boundary to the engine:
//! types, literals, expressions, predicates, specifications, results and the
//! message envelopes, each with the text the engine reads or writes for it.

use crate::ipc_assertion::{AssertionType, AssertionTypeView, SpecKind};
use crate::text::{
    concat, decimal, join, joined, numerals, render_bool, render_int, render_ints, render_nat,
    same_text, signed_decimal, texts, truth,
};
use vstd::prelude::*;
use vstd::string::*;

verus! {

/// A value that the engine reports in a counterexample.
#[derive(PartialEq, Debug)]
pub enum ElrondValue {
    L(Vec<i64>),
    I(i64),
    B(bool),
    NotADt,
}

/// Mathematical value of an [`ElrondValue`].
pub enum ElrondValueView {
    L(Seq<i64>),
    I(i64),
    B(bool),
    NotADt,
}

impl View for ElrondValue {
    type V = ElrondValueView;

    open spec fn view(&self) -> ElrondValueView {
        match self {
            ElrondValue::L(items) => ElrondValueView::L(items@),
            ElrondValue::I(i) => ElrondValueView::I(*i),
            ElrondValue::B(b) => ElrondValueView::B(*b),
            ElrondValue::NotADt => ElrondValueView::NotADt,
        }
    }
}

/// A list of integers between square brackets, separated by a comma and a space.
pub open spec fn render_int_list(items: Seq<i64>) -> Seq<char> {
    "["@ + joined(numerals(items), ", "@) + "]"@
}

fn int_list_to_string(items: &Vec<i64>) -> (text: String)
    ensures
        text@ == render_int_list(items@),
{
    let parts = render_ints(items);
    let mut text = String::from_str("[");
    proof {
        reveal_strlit(", ");
    }
    text.append(join(&parts, ", ").as_str());
    text.append("]");
    text
}

impl ElrondValueView {
    /// A bracketed list, a decimal numeral, `true` or `false`, or `NotADt`.
    pub open spec fn render(self) -> Seq<char> {
        match self {
            ElrondValueView::L(items) => render_int_list(items),
            ElrondValueView::I(i) => signed_decimal(i as int),
            ElrondValueView::B(b) => truth(b),
            ElrondValueView::NotADt => "NotADt"@,
        }
    }
}

impl ElrondValue {
    /// The value as text.
    pub fn to_string(&self) -> (text: String)
        ensures
            text@ == self@.render(),
    {
        match self {
            ElrondValue::L(items) => int_list_to_string(items),
            ElrondValue::I(i) => render_int(*i),
            ElrondValue::B(b) => render_bool(*b),
            ElrondValue::NotADt => String::from_str("NotADt"),
        }
    }
}

/// A literal of the specification language.
#[derive(PartialEq, Debug)]
pub enum ElrondLiteral {
    Int(i64),
    Bool(bool),
    IntList(Vec<i64>),
}

/// Mathematical value of an [`ElrondLiteral`].
pub enum ElrondLiteralView {
    Int(i64),
    Bool(bool),
    IntList(Seq<i64>),
}

impl View for ElrondLiteral {
    type V = ElrondLiteralView;

    open spec fn view(&self) -> ElrondLiteralView {
        match self {
            ElrondLiteral::Int(i) => ElrondLiteralView::Int(*i),
            ElrondLiteral::Bool(b) => ElrondLiteralView::Bool(*b),
            ElrondLiteral::IntList(items) => ElrondLiteralView::IntList(items@),
        }
    }
}

impl ElrondLiteralView {
    /// A decimal numeral, `true` or `false`, or a bracketed list.
    pub open spec fn render(self) -> Seq<char> {
        match self {
            ElrondLiteralView::Int(i) => signed_decimal(i as int),
            ElrondLiteralView::Bool(b) => truth(b),
            ElrondLiteralView::IntList(items) => render_int_list(items),
        }
    }
}

impl ElrondLiteral {
    /// The literal as text.
    pub fn to_string(&self) -> (text: String)
        ensures
            text@ == self@.render(),
    {
        match self {
            ElrondLiteral::Int(i) => render_int(*i),
            ElrondLiteral::Bool(b) => render_bool(*b),
            ElrondLiteral::IntList(items) => int_list_to_string(items),
        }
    }
}

/// A type of the specification language.
#[derive(PartialEq, Debug)]
pub enum ElrondType {
    Bool,
    Int,
    IntList,
    IntTree,
    IntTreeI,
    IntTreeB,
    Tuple(Vec<ElrondType>),
    Generic(String),
    Arrow(Box<ElrondType>, Box<ElrondType>),
}

/// Mathematical value of an [`ElrondType`].
pub enum ElrondTypeView {
    Bool,
    Int,
    IntList,
    IntTree,
    IntTreeI,
    IntTreeB,
    Tuple(Seq<ElrondTypeView>),
    Generic(Seq<char>),
    Arrow(Box<ElrondTypeView>, Box<ElrondTypeView>),
}

impl ElrondType {
    /// The type as a mathematical tree.
    pub open spec fn model(&self) -> ElrondTypeView
        decreases self,
    {
        match self {
            ElrondType::Bool => ElrondTypeView::Bool,
            ElrondType::Int => ElrondTypeView::Int,
            ElrondType::IntList => ElrondTypeView::IntList,
            ElrondType::IntTree => ElrondTypeView::IntTree,
            ElrondType::IntTreeI => ElrondTypeView::IntTreeI,
            ElrondType::IntTreeB => ElrondTypeView::IntTreeB,
            ElrondType::Tuple(items) => ElrondTypeView::Tuple(Self::models(items@)),
            ElrondType::Generic(name) => ElrondTypeView::Generic(name@),
            ElrondType::Arrow(from, to) => ElrondTypeView::Arrow(
                Box::new(from.model()),
                Box::new(to.model()),
            ),
        }
    }

    /// The trees of a sequence of types, in order.
    pub open spec fn models(items: Seq<ElrondType>) -> Seq<ElrondTypeView>
        decreases items,
    {
        Seq::new(
            items.len(),
            |i: int|
                if 0 <= i < items.len() {
                    items[i].model()
                } else {
                    ElrondTypeView::Bool
                },
        )
    }
}

impl View for ElrondType {
    type V = ElrondTypeView;

    open spec fn view(&self) -> ElrondTypeView {
        self.model()
    }
}

impl Clone for ElrondType {
    fn clone(&self) -> (copy: Self)
        ensures
            copy@ == self@,
    {
        self.duplicate()
    }
}

impl ElrondType {
    fn duplicate(&self) -> (copy: Self)
        ensures
            copy@ == self@,
        decreases self,
    {
        match self {
            ElrondType::Bool => ElrondType::Bool,
            ElrondType::Int => ElrondType::Int,
            ElrondType::IntList => ElrondType::IntList,
            ElrondType::IntTree => ElrondType::IntTree,
            ElrondType::IntTreeI => ElrondType::IntTreeI,
            ElrondType::IntTreeB => ElrondType::IntTreeB,
            ElrondType::Tuple(items) => {
                let mut copies: Vec<ElrondType> = Vec::new();
                let mut i: usize = 0;
                while i < items.len()
                    invariant
                        i <= items.len(),
                        copies.len() == i,
                        self->Tuple_0 == *items,
                        self is Tuple,
                        forall|j: int| 0 <= j < i ==> (#[trigger] copies@[j]).model() == items@[j].model(),
                    decreases items.len() - i,
                {
                    proof {
                        assert(decreases_to!(self => self->Tuple_0));
                        assert(decreases_to!(self->Tuple_0 => self->Tuple_0[i as int]));
                    }
                    let copy = items[i].duplicate();
                    copies.push(copy);
                    i = i + 1;
                }
                assert(Self::models(copies@) =~= Self::models(items@));
                ElrondType::Tuple(copies)
            },
            ElrondType::Generic(name) => ElrondType::Generic(name.clone()),
            ElrondType::Arrow(from, to) => ElrondType::Arrow(
                Box::new(from.duplicate()),
                Box::new(to.duplicate()),
            ),
        }
    }
}

impl ElrondTypeView {
    /// The type in the engine's syntax: a keyword for each built-in type, the
    /// name of a generic type, the members of a tuple between parentheses and
    /// separated by a comma and a space, and a parenthesised `a -> b` for a
    /// function type.
    pub open spec fn render(self) -> Seq<char>
        decreases self,
    {
        match self {
            ElrondTypeView::Bool => "bool"@,
            ElrondTypeView::Int => "int"@,
            ElrondTypeView::IntList => "int list"@,
            ElrondTypeView::IntTree => "int tree"@,
            ElrondTypeView::IntTreeI => "int treei"@,
            ElrondTypeView::IntTreeB => "int treeb"@,
            ElrondTypeView::Generic(name) => name,
            ElrondTypeView::Tuple(items) => "("@ + joined(Self::renders(items), ", "@) + ")"@,
            ElrondTypeView::Arrow(from, to) => "("@ + from.render() + " -> "@ + to.render() + ")"@,
        }
    }

    /// The renderings of a sequence of types, in order.
    pub open spec fn renders(items: Seq<ElrondTypeView>) -> Seq<Seq<char>>
        decreases items,
    {
        Seq::new(
            items.len(),
            |i: int|
                if 0 <= i < items.len() {
                    items[i].render()
                } else {
                    Seq::empty()
                },
        )
    }
}

impl ElrondType {
    /// The type in the engine's syntax.
    pub fn to_string(&self) -> (text: String)
        ensures
            text@ == self@.render(),
        decreases self,
    {
        match self {
            ElrondType::Bool => String::from_str("bool"),
            ElrondType::Int => String::from_str("int"),
            ElrondType::IntList => String::from_str("int list"),
            ElrondType::IntTree => String::from_str("int tree"),
            ElrondType::IntTreeI => String::from_str("int treei"),
            ElrondType::IntTreeB => String::from_str("int treeb"),
            ElrondType::Generic(name) => name.clone(),
            ElrondType::Tuple(items) => {
                proof {
                    assert(decreases_to!(self => self->Tuple_0));
                }
                let parts = Self::render_all(items);
                let mut text = String::from_str("(");
                proof {
                    reveal_strlit(", ");
                }
                text.append(join(&parts, ", ").as_str());
                text.append(")");
                text
            },
            ElrondType::Arrow(from, to) => {
                let mut text = String::from_str("(");
                text.append(from.to_string().as_str());
                text.append(" -> ");
                text.append(to.to_string().as_str());
                text.append(")");
                text
            },
        }
    }

    fn render_all(items: &Vec<ElrondType>) -> (parts: Vec<String>)
        ensures
            texts(parts@) == ElrondTypeView::renders(Self::models(items@)),
        decreases items,
    {
        let mut parts: Vec<String> = Vec::new();
        let mut i: usize = 0;
        while i < items.len()
            invariant
                i <= items.len(),
                parts.len() == i,
                forall|j: int| 0 <= j < i ==> (#[trigger] parts@[j])@ == items@[j].model().render(),
            decreases items.len() - i,
        {
            proof {
                assert(decreases_to!(items => items[i as int]));
            }
            let part = items[i].to_string();
            parts.push(part);
            i = i + 1;
        }
        assert(texts(parts@) =~= ElrondTypeView::renders(Self::models(items@)));
        parts
    }
}

/// An expression: a literal, a variable, an operator applied to arguments, or
/// a tuple. All but the tuple carry their type.
#[derive(PartialEq, Debug)]
pub enum ElrondSimpleExpr {
    Literal(ElrondType, ElrondLiteral),
    Var(ElrondType, String),
    Op(ElrondType, String, Vec<ElrondSimpleExpr>),
    Tuple(Vec<ElrondSimpleExpr>),
}

/// Mathematical value of an [`ElrondSimpleExpr`].
pub enum ElrondSimpleExprView {
    Literal(ElrondTypeView, ElrondLiteralView),
    Var(ElrondTypeView, Seq<char>),
    Op(ElrondTypeView, Seq<char>, Seq<ElrondSimpleExprView>),
    Tuple(Seq<ElrondSimpleExprView>),
}

impl ElrondSimpleExpr {
    /// The expression as a mathematical tree.
    pub open spec fn model(&self) -> ElrondSimpleExprView
        decreases self,
    {
        match self {
            ElrondSimpleExpr::Literal(ty, lit) => ElrondSimpleExprView::Literal(ty@, lit@),
            ElrondSimpleExpr::Var(ty, name) => ElrondSimpleExprView::Var(ty@, name@),
            ElrondSimpleExpr::Op(ty, op, args) => ElrondSimpleExprView::Op(
                ty@,
                op@,
                Self::models(args@),
            ),
            ElrondSimpleExpr::Tuple(items) => ElrondSimpleExprView::Tuple(Self::models(items@)),
        }
    }

    /// The trees of a sequence of expressions, in order.
    pub open spec fn models(items: Seq<ElrondSimpleExpr>) -> Seq<ElrondSimpleExprView>
        decreases items,
    {
        Seq::new(
            items.len(),
            |i: int|
                if 0 <= i < items.len() {
                    items[i].model()
                } else {
                    ElrondSimpleExprView::Tuple(Seq::empty())
                },
        )
    }
}

impl View for ElrondSimpleExpr {
    type V = ElrondSimpleExprView;

    open spec fn view(&self) -> ElrondSimpleExprView {
        self.model()
    }
}

/// Whether `op` is one of the six comparisons, which are written between
/// their arguments: `=`, `!=`, `<=`, `>=`, `<` and `>`.
pub open spec fn is_infix(op: Seq<char>) -> bool {
    op == "="@ || op == "!="@ || op == "<="@ || op == ">="@ || op == "<"@ || op == ">"@
}

impl ElrondSimpleExprView {
    /// The expression in the engine's syntax. A literal and a variable stand
    /// for themselves, without their type. A comparison with two arguments or
    /// more stands between the first two, in parentheses. Any other operator
    /// stands in front of its arguments, separated from them and they from
    /// each other by a space. A tuple is its members between parentheses,
    /// separated by a comma and a space.
    pub open spec fn render(self) -> Seq<char>
        decreases self,
    {
        match self {
            ElrondSimpleExprView::Literal(_, lit) => lit.render(),
            ElrondSimpleExprView::Var(_, name) => name,
            ElrondSimpleExprView::Op(_, op, args) => if is_infix(op) && args.len() >= 2 {
                "("@ + args[0].render() + " "@ + op + " "@ + args[1].render() + ")"@
            } else {
                op + " "@ + joined(Self::renders(args), " "@)
            },
            ElrondSimpleExprView::Tuple(items) => "("@ + joined(Self::renders(items), ", "@) + ")"@,
        }
    }

    /// The renderings of a sequence of expressions, in order.
    pub open spec fn renders(items: Seq<ElrondSimpleExprView>) -> Seq<Seq<char>>
        decreases items,
    {
        Seq::new(
            items.len(),
            |i: int|
                if 0 <= i < items.len() {
                    items[i].render()
                } else {
                    Seq::empty()
                },
        )
    }
}

impl ElrondSimpleExpr {
    /// The expression in the engine's syntax.
    pub fn to_string(&self) -> (text: String)
        ensures
            text@ == self@.render(),
        decreases self,
    {
        match self {
            ElrondSimpleExpr::Literal(_, lit) => lit.to_string(),
            ElrondSimpleExpr::Var(_, name) => name.clone(),
            ElrondSimpleExpr::Op(_, op, args) => {
                proof {
                    assert(decreases_to!(self => self->Op_2));
                }
                let infix = same_text(op.as_str(), "=") || same_text(op.as_str(), "!=")
                    || same_text(op.as_str(), "<=") || same_text(op.as_str(), ">=")
                    || same_text(op.as_str(), "<") || same_text(op.as_str(), ">");
                if infix && args.len() >= 2 {
                    proof {
                        assert(decreases_to!(args => args[0]));
                        assert(decreases_to!(args => args[1]));
                    }
                    let mut text = String::from_str("(");
                    text.append(args[0].to_string().as_str());
                    text.append(" ");
                    text.append(op.as_str());
                    text.append(" ");
                    text.append(args[1].to_string().as_str());
                    text.append(")");
                    text
                } else {
                    let parts = Self::render_all(args);
                    let mut text = op.clone();
                    text.append(" ");
                    proof {
                        reveal_strlit(" ");
                    }
                    text.append(join(&parts, " ").as_str());
                    text
                }
            },
            ElrondSimpleExpr::Tuple(items) => {
                proof {
                    assert(decreases_to!(self => self->Tuple_0));
                }
                let parts = Self::render_all(items);
                let mut text = String::from_str("(");
                proof {
                    reveal_strlit(", ");
                }
                text.append(join(&parts, ", ").as_str());
                text.append(")");
                text
            },
        }
    }

    fn render_all(items: &Vec<ElrondSimpleExpr>) -> (parts: Vec<String>)
        ensures
            texts(parts@) == ElrondSimpleExprView::renders(Self::models(items@)),
        decreases items,
    {
        let mut parts: Vec<String> = Vec::new();
        let mut i: usize = 0;
        while i < items.len()
            invariant
                i <= items.len(),
                parts.len() == i,
                forall|j: int| 0 <= j < i ==> (#[trigger] parts@[j])@ == items@[j].model().render(),
            decreases items.len() - i,
        {
            proof {
                assert(decreases_to!(items => items[i as int]));
            }
            let part = items[i].to_string();
            parts.push(part);
            i = i + 1;
        }
        assert(texts(parts@) =~= ElrondSimpleExprView::renders(Self::models(items@)));
        parts
    }
}

/// A quantifier-free formula over expressions.
#[derive(PartialEq, Debug)]
pub enum ElrondPred {
    True,
    Atom(ElrondSimpleExpr),
    Implies(Box<ElrondPred>, Box<ElrondPred>),
    Ite(Box<ElrondPred>, Box<ElrondPred>, Box<ElrondPred>),
    Not(Box<ElrondPred>),
    And(Vec<ElrondPred>),
    Or(Vec<ElrondPred>),
    Iff(Box<ElrondPred>, Box<ElrondPred>),
}

/// Mathematical value of an [`ElrondPred`].
pub enum ElrondPredView {
    True,
    Atom(ElrondSimpleExprView),
    Implies(Box<ElrondPredView>, Box<ElrondPredView>),
    Ite(Box<ElrondPredView>, Box<ElrondPredView>, Box<ElrondPredView>),
    Not(Box<ElrondPredView>),
    And(Seq<ElrondPredView>),
    Or(Seq<ElrondPredView>),
    Iff(Box<ElrondPredView>, Box<ElrondPredView>),
}

impl ElrondPred {
    /// The formula as a mathematical tree.
    pub open spec fn model(&self) -> ElrondPredView
        decreases self,
    {
        match self {
            ElrondPred::True => ElrondPredView::True,
            ElrondPred::Atom(expr) => ElrondPredView::Atom(expr@),
            ElrondPred::Implies(lhs, rhs) => ElrondPredView::Implies(
                Box::new(lhs.model()),
                Box::new(rhs.model()),
            ),
            ElrondPred::Ite(cond, lhs, rhs) => ElrondPredView::Ite(
                Box::new(cond.model()),
                Box::new(lhs.model()),
                Box::new(rhs.model()),
            ),
            ElrondPred::Not(inner) => ElrondPredView::Not(Box::new(inner.model())),
            ElrondPred::And(items) => ElrondPredView::And(Self::models(items@)),
            ElrondPred::Or(items) => ElrondPredView::Or(Self::models(items@)),
            ElrondPred::Iff(lhs, rhs) => ElrondPredView::Iff(
                Box::new(lhs.model()),
                Box::new(rhs.model()),
            ),
        }
    }

    /// The trees of a sequence of formulas, in order.
    pub open spec fn models(items: Seq<ElrondPred>) -> Seq<ElrondPredView>
        decreases items,
    {
        Seq::new(
            items.len(),
            |i: int|
                if 0 <= i < items.len() {
                    items[i].model()
                } else {
                    ElrondPredView::True
                },
        )
    }
}

impl View for ElrondPred {
    type V = ElrondPredView;

    open spec fn view(&self) -> ElrondPredView {
        self.model()
    }
}

/// `n` as a count that a `u32` holds, if it does.
pub open spec fn counted(n: int) -> Option<u32> {
    if 0 <= n <= u32::MAX {
        Some(n as u32)
    } else {
        None
    }
}

impl ElrondPredView {
    /// The number of nodes of the formula: one for the node itself and the
    /// sizes of the formulas directly below it. An atom counts as one node,
    /// whatever its expression.
    pub open spec fn size(self) -> nat
        decreases self,
    {
        match self {
            ElrondPredView::True => 1,
            ElrondPredView::Atom(_) => 1,
            ElrondPredView::Implies(lhs, rhs) => 1 + lhs.size() + rhs.size(),
            ElrondPredView::Ite(cond, lhs, rhs) => 1 + cond.size() + lhs.size() + rhs.size(),
            ElrondPredView::Not(inner) => 1 + inner.size(),
            ElrondPredView::And(items) => 1 + Self::total_size(items),
            ElrondPredView::Or(items) => 1 + Self::total_size(items),
            ElrondPredView::Iff(lhs, rhs) => 1 + lhs.size() + rhs.size(),
        }
    }

    /// The sum of the sizes of `items`.
    pub open spec fn total_size(items: Seq<ElrondPredView>) -> nat
        decreases items,
    {
        if items.len() == 0 {
            0
        } else {
            Self::total_size(items.drop_last()) + items.last().size()
        }
    }

    /// The sizes of the first `i` formulas add up to no more than the sizes of
    /// all of them.
    pub proof fn lemma_total_size_of_prefix(items: Seq<ElrondPredView>, i: int)
        requires
            0 <= i <= items.len(),
        ensures
            Self::total_size(items.take(i)) <= Self::total_size(items),
        decreases items.len() - i,
    {
        if i < items.len() {
            Self::lemma_total_size_of_prefix(items, i + 1);
            assert(items.take(i + 1).drop_last() =~= items.take(i));
        } else {
            assert(items.take(i) =~= items);
        }
    }

    /// The formula in the engine's syntax: `implies` and `iff` in front of
    /// their two parenthesised arguments, a conjunction or disjunction as its
    /// members between parentheses with `&&` or `||` between neighbours, a
    /// negation as `(!p)`, a conditional as `(if c then t else e)`.
    pub open spec fn render(self) -> Seq<char>
        decreases self,
    {
        match self {
            ElrondPredView::True => "true"@,
            ElrondPredView::Atom(expr) => expr.render(),
            ElrondPredView::Implies(lhs, rhs) => "implies ("@ + lhs.render() + ") ("@
                + rhs.render() + ")"@,
            ElrondPredView::Ite(cond, lhs, rhs) => "(if "@ + cond.render() + " then "@
                + lhs.render() + " else "@ + rhs.render() + ")"@,
            ElrondPredView::Not(inner) => "(!"@ + inner.render() + ")"@,
            ElrondPredView::And(items) => "("@ + joined(Self::renders(items), " && "@) + ")"@,
            ElrondPredView::Or(items) => "("@ + joined(Self::renders(items), " || "@) + ")"@,
            ElrondPredView::Iff(lhs, rhs) => "iff ("@ + lhs.render() + ") ("@ + rhs.render()
                + ")"@,
        }
    }

    /// The renderings of a sequence of formulas, in order.
    pub open spec fn renders(items: Seq<ElrondPredView>) -> Seq<Seq<char>>
        decreases items,
    {
        Seq::new(
            items.len(),
            |i: int|
                if 0 <= i < items.len() {
                    items[i].render()
                } else {
                    Seq::empty()
                },
        )
    }
}

impl ElrondPred {
    /// The number of nodes of the formula.
    pub fn size(&self) -> (n: u32)
        requires
            self@.size() <= u32::MAX,
        ensures
            n == self@.size(),
        decreases self,
    {
        match self {
            ElrondPred::True => 1,
            ElrondPred::Atom(_) => 1,
            ElrondPred::Iff(lhs, rhs) => 1 + lhs.size() + rhs.size(),
            ElrondPred::Implies(lhs, rhs) => 1 + lhs.size() + rhs.size(),
            ElrondPred::Ite(cond, lhs, rhs) => 1 + cond.size() + lhs.size() + rhs.size(),
            ElrondPred::Not(inner) => 1 + inner.size(),
            ElrondPred::And(items) => {
                proof {
                    assert(decreases_to!(self => self->And_0));
                }
                1 + Self::size_of_all(items)
            },
            ElrondPred::Or(items) => {
                proof {
                    assert(decreases_to!(self => self->Or_0));
                }
                1 + Self::size_of_all(items)
            },
        }
    }

    /// The number of nodes of the formula, or nothing when there are more of
    /// them than a `u32` holds.
    pub fn checked_size(&self) -> (n: Option<u32>)
        ensures
            match n {
                Some(count) => count == self@.size(),
                None => self@.size() > u32::MAX,
            },
        decreases self,
    {
        match self {
            ElrondPred::True => Some(1),
            ElrondPred::Atom(_) => Some(1),
            ElrondPred::Iff(lhs, rhs) => Self::one_more(
                Self::both(lhs.checked_size(), rhs.checked_size()),
            ),
            ElrondPred::Implies(lhs, rhs) => Self::one_more(
                Self::both(lhs.checked_size(), rhs.checked_size()),
            ),
            ElrondPred::Ite(cond, lhs, rhs) => Self::one_more(
                Self::both(
                    Self::both(cond.checked_size(), lhs.checked_size()),
                    rhs.checked_size(),
                ),
            ),
            ElrondPred::Not(inner) => Self::one_more(inner.checked_size()),
            ElrondPred::And(items) => {
                proof {
                    assert(decreases_to!(self => self->And_0));
                }
                Self::one_more(Self::checked_size_of_all(items))
            },
            ElrondPred::Or(items) => {
                proof {
                    assert(decreases_to!(self => self->Or_0));
                }
                Self::one_more(Self::checked_size_of_all(items))
            },
        }
    }

    fn one_more(n: Option<u32>) -> (sum: Option<u32>)
        ensures
            sum == counted(
                match n {
                    Some(count) => count + 1,
                    None => u32::MAX + 1,
                },
            ),
    {
        match n {
            Some(count) => if count < u32::MAX {
                Some(count + 1)
            } else {
                None
            },
            None => None,
        }
    }

    fn both(a: Option<u32>, b: Option<u32>) -> (sum: Option<u32>)
        ensures
            sum == (match (a, b) {
                (Some(m), Some(n)) => counted(m + n),
                _ => None,
            }),
    {
        match (a, b) {
            (Some(m), Some(n)) => if m <= u32::MAX - n {
                Some(m + n)
            } else {
                None
            },
            _ => None,
        }
    }

    fn checked_size_of_all(items: &Vec<ElrondPred>) -> (n: Option<u32>)
        ensures
            match n {
                Some(count) => count == ElrondPredView::total_size(Self::models(items@)),
                None => ElrondPredView::total_size(Self::models(items@)) > u32::MAX,
            },
        decreases items,
    {
        let ghost trees = Self::models(items@);
        let mut total: u32 = 0;
        let mut i: usize = 0;
        while i < items.len()
            invariant
                i <= items.len(),
                trees == Self::models(items@),
                total == ElrondPredView::total_size(trees.take(i as int)),
            decreases items.len() - i,
        {
            proof {
                ElrondPredView::lemma_total_size_of_prefix(trees, i + 1);
                assert(trees.take(i + 1).drop_last() =~= trees.take(i as int));
                assert(decreases_to!(items => items[i as int]));
            }
            match items[i].checked_size() {
                Some(n) => {
                    if total > u32::MAX - n {
                        return None;
                    }
                    total = total + n;
                },
                None => {
                    return None;
                },
            }
            i = i + 1;
        }
        assert(trees.take(i as int) =~= trees);
        Some(total)
    }

    fn size_of_all(items: &Vec<ElrondPred>) -> (n: u32)
        requires
            ElrondPredView::total_size(Self::models(items@)) <= u32::MAX,
        ensures
            n == ElrondPredView::total_size(Self::models(items@)),
        decreases items,
    {
        let ghost trees = Self::models(items@);
        let mut total: u32 = 0;
        let mut i: usize = 0;
        while i < items.len()
            invariant
                i <= items.len(),
                trees == Self::models(items@),
                ElrondPredView::total_size(trees) <= u32::MAX,
                total == ElrondPredView::total_size(trees.take(i as int)),
            decreases items.len() - i,
        {
            proof {
                ElrondPredView::lemma_total_size_of_prefix(trees, i + 1);
                assert(trees.take(i + 1).drop_last() =~= trees.take(i as int));
                assert(decreases_to!(items => items[i as int]));
            }
            let n = items[i].size();
            total = total + n;
            i = i + 1;
        }
        assert(trees.take(i as int) =~= trees);
        total
    }

    /// The formula in the engine's syntax.
    pub fn to_string(&self) -> (text: String)
        ensures
            text@ == self@.render(),
        decreases self,
    {
        match self {
            ElrondPred::True => String::from_str("true"),
            ElrondPred::Atom(expr) => expr.to_string(),
            ElrondPred::Implies(lhs, rhs) => {
                let mut text = String::from_str("implies (");
                text.append(lhs.to_string().as_str());
                text.append(") (");
                text.append(rhs.to_string().as_str());
                text.append(")");
                text
            },
            ElrondPred::Ite(cond, lhs, rhs) => {
                let mut text = String::from_str("(if ");
                text.append(cond.to_string().as_str());
                text.append(" then ");
                text.append(lhs.to_string().as_str());
                text.append(" else ");
                text.append(rhs.to_string().as_str());
                text.append(")");
                text
            },
            ElrondPred::Not(inner) => {
                let mut text = String::from_str("(!");
                text.append(inner.to_string().as_str());
                text.append(")");
                text
            },
            ElrondPred::And(items) => {
                proof {
                    assert(decreases_to!(self => self->And_0));
                }
                let parts = Self::render_all(items);
                let mut text = String::from_str("(");
                proof {
                    reveal_strlit(" && ");
                }
                text.append(join(&parts, " && ").as_str());
                text.append(")");
                text
            },
            ElrondPred::Or(items) => {
                proof {
                    assert(decreases_to!(self => self->Or_0));
                }
                let parts = Self::render_all(items);
                let mut text = String::from_str("(");
                proof {
                    reveal_strlit(" || ");
                }
                text.append(join(&parts, " || ").as_str());
                text.append(")");
                text
            },
            ElrondPred::Iff(lhs, rhs) => {
                let mut text = String::from_str("iff (");
                text.append(lhs.to_string().as_str());
                text.append(") (");
                text.append(rhs.to_string().as_str());
                text.append(")");
                text
            },
        }
    }

    fn render_all(items: &Vec<ElrondPred>) -> (parts: Vec<String>)
        ensures
            texts(parts@) == ElrondPredView::renders(Self::models(items@)),
        decreases items,
    {
        let mut parts: Vec<String> = Vec::new();
        let mut i: usize = 0;
        while i < items.len()
            invariant
                i <= items.len(),
                parts.len() == i,
                forall|j: int| 0 <= j < i ==> (#[trigger] parts@[j])@ == items@[j].model().render(),
            decreases items.len() - i,
        {
            proof {
                assert(decreases_to!(items => items[i as int]));
            }
            let part = items[i].to_string();
            parts.push(part);
            i = i + 1;
        }
        assert(texts(parts@) =~= ElrondPredView::renders(Self::models(items@)));
        parts
    }
}

/// A comparison operator.
pub enum ElrondOp {
    Eq,
    Le,
    Ge,
    Ne,
    Lt,
    Gt,
}

/// A quantified variable with its type.
#[derive(PartialEq, Debug)]
pub struct FreeVar(pub ElrondType, pub String);

/// Mathematical value of a [`FreeVar`].
pub struct FreeVarView(pub ElrondTypeView, pub Seq<char>);

impl View for FreeVar {
    type V = FreeVarView;

    open spec fn view(&self) -> FreeVarView {
        FreeVarView(self.0@, self.1@)
    }
}

impl FreeVarView {
    /// The name, a colon between spaces, and the type.
    pub open spec fn render(self) -> Seq<char> {
        self.1 + " : "@ + self.0.render()
    }

    /// The renderings of a sequence of variables, in order.
    pub open spec fn renders(items: Seq<FreeVarView>) -> Seq<Seq<char>> {
        Seq::new(items.len(), |i: int| items[i].render())
    }
}

impl FreeVar {
    /// The mathematical values of a sequence of variables, in order.
    pub open spec fn models(items: Seq<FreeVar>) -> Seq<FreeVarView> {
        Seq::new(items.len(), |i: int| items[i]@)
    }

    /// The variable as `name : type`.
    pub fn to_string(&self) -> (text: String)
        ensures
            text@ == self@.render(),
    {
        let mut text = self.1.clone();
        text.append(" : ");
        text.append(self.0.to_string().as_str());
        text
    }

    fn render_all(items: &Vec<FreeVar>) -> (parts: Vec<String>)
        ensures
            texts(parts@) == FreeVarView::renders(Self::models(items@)),
    {
        let mut parts: Vec<String> = Vec::new();
        let mut i: usize = 0;
        while i < items.len()
            invariant
                i <= items.len(),
                parts.len() == i,
                forall|j: int| 0 <= j < i ==> (#[trigger] parts@[j])@ == items@[j]@.render(),
            decreases items.len() - i,
        {
            let part = items[i].to_string();
            parts.push(part);
            i = i + 1;
        }
        assert(texts(parts@) =~= FreeVarView::renders(Self::models(items@)));
        parts
    }
}

/// An argument of a specification with its type.
#[derive(PartialEq, Debug)]
pub struct ElrondTpedvar(pub AssertionType, pub String);

/// Mathematical value of an [`ElrondTpedvar`].
pub struct ElrondTpedvarView(pub AssertionTypeView, pub Seq<char>);

impl View for ElrondTpedvar {
    type V = ElrondTpedvarView;

    open spec fn view(&self) -> ElrondTpedvarView {
        ElrondTpedvarView(self.0@, self.1@)
    }
}

impl ElrondTpedvarView {
    /// The name, a colon between spaces, and the type.
    pub open spec fn render(self) -> Seq<char> {
        self.1 + " : "@ + self.0.render()
    }

    /// The renderings of a sequence of arguments, in order.
    pub open spec fn renders(items: Seq<ElrondTpedvarView>) -> Seq<Seq<char>> {
        Seq::new(items.len(), |i: int| items[i].render())
    }

    /// The renderings of a sequence of arguments, each between parentheses.
    pub open spec fn bracketed(items: Seq<ElrondTpedvarView>) -> Seq<Seq<char>> {
        Seq::new(items.len(), |i: int| "("@ + items[i].render() + ")"@)
    }
}

impl ElrondTpedvar {
    /// The mathematical values of a sequence of arguments, in order.
    pub open spec fn models(items: Seq<ElrondTpedvar>) -> Seq<ElrondTpedvarView> {
        Seq::new(items.len(), |i: int| items[i]@)
    }

    /// The argument as `name : type`.
    pub fn to_string(&self) -> (text: String)
        ensures
            text@ == self@.render(),
    {
        let mut text = self.1.clone();
        text.append(" : ");
        text.append(self.0.to_string().as_str());
        text
    }

    fn render_all(items: &Vec<ElrondTpedvar>) -> (parts: Vec<String>)
        ensures
            texts(parts@) == ElrondTpedvarView::renders(Self::models(items@)),
    {
        let mut parts: Vec<String> = Vec::new();
        let mut i: usize = 0;
        while i < items.len()
            invariant
                i <= items.len(),
                parts.len() == i,
                forall|j: int| 0 <= j < i ==> (#[trigger] parts@[j])@ == items@[j]@.render(),
            decreases items.len() - i,
        {
            let part = items[i].to_string();
            parts.push(part);
            i = i + 1;
        }
        assert(texts(parts@) =~= ElrondTpedvarView::renders(Self::models(items@)));
        parts
    }

    fn bracket_all(items: &Vec<ElrondTpedvar>) -> (parts: Vec<String>)
        ensures
            texts(parts@) == ElrondTpedvarView::bracketed(Self::models(items@)),
    {
        let mut parts: Vec<String> = Vec::new();
        let mut i: usize = 0;
        while i < items.len()
            invariant
                i <= items.len(),
                parts.len() == i,
                forall|j: int|
                    0 <= j < i ==> (#[trigger] parts@[j])@ == "("@ + items@[j]@.render() + ")"@,
            decreases items.len() - i,
        {
            let mut part = String::from_str("(");
            part.append(items[i].to_string().as_str());
            part.append(")");
            parts.push(part);
            i = i + 1;
        }
        assert(texts(parts@) =~= ElrondTpedvarView::bracketed(Self::models(items@)));
        parts
    }
}

/// A formula under a prefix of universally quantified variables; without
/// variables it is the formula alone.
#[derive(PartialEq, Debug)]
pub struct ElrondForallFormula(pub Vec<FreeVar>, pub ElrondPred);

/// Mathematical value of an [`ElrondForallFormula`].
pub struct ElrondForallFormulaView(pub Seq<FreeVarView>, pub ElrondPredView);

impl View for ElrondForallFormula {
    type V = ElrondForallFormulaView;

    open spec fn view(&self) -> ElrondForallFormulaView {
        ElrondForallFormulaView(FreeVar::models(self.0@), self.1@)
    }
}

impl ElrondForallFormulaView {
    /// The bare formula when no variable is quantified; otherwise `forall`,
    /// the variables separated by commas, a dot between spaces, and the
    /// formula.
    pub open spec fn render(self) -> Seq<char> {
        if self.0.len() == 0 {
            self.1.render()
        } else {
            "forall "@ + joined(FreeVarView::renders(self.0), ","@) + " . "@ + self.1.render()
        }
    }
}

impl ElrondForallFormula {
    /// The quantified formula in the engine's syntax.
    pub fn to_string(&self) -> (text: String)
        ensures
            text@ == self@.render(),
    {
        if self.0.len() == 0 {
            self.1.to_string()
        } else {
            let parts = FreeVar::render_all(&self.0);
            let mut text = String::from_str("forall ");
            proof {
                reveal_strlit(",");
            }
            text.append(join(&parts, ",").as_str());
            text.append(" . ");
            text.append(self.1.to_string().as_str());
            text
        }
    }
}

/// A pre- or postcondition: typed arguments and a quantified formula.
#[derive(PartialEq, Debug)]
pub struct ElrondSpec(pub Vec<ElrondTpedvar>, pub ElrondForallFormula);

/// Mathematical value of an [`ElrondSpec`].
pub struct ElrondSpecView(pub Seq<ElrondTpedvarView>, pub ElrondForallFormulaView);

impl View for ElrondSpec {
    type V = ElrondSpecView;

    open spec fn view(&self) -> ElrondSpecView {
        ElrondSpecView(ElrondTpedvar::models(self.0@), self.1@)
    }
}

impl ElrondSpecView {
    /// The bare formula when there is no argument; otherwise the arguments
    /// separated by commas, a turnstile between spaces, and the formula.
    pub open spec fn render(self) -> Seq<char> {
        if self.0.len() == 0 {
            self.1.render()
        } else {
            joined(ElrondTpedvarView::renders(self.0), ","@) + " \u{22a2} "@ + self.1.render()
        }
    }

    /// The specification as a `let` of an annotation file: `let`, the kind,
    /// the parenthesised arguments separated by spaces, `=`, and on the next
    /// line the formula behind two spaces.
    pub open spec fn render_for_file(self, kind: SpecKind) -> Seq<char> {
        "let "@ + kind.render() + " "@ + joined(ElrondTpedvarView::bracketed(self.0), " "@)
            + " =\n  "@ + self.1.render() + "\n"@
    }
}

impl ElrondSpec {
    /// The specification on one line.
    pub fn to_string(&self) -> (text: String)
        ensures
            text@ == self@.render(),
    {
        if self.0.len() == 0 {
            self.1.to_string()
        } else {
            let parts = ElrondTpedvar::render_all(&self.0);
            proof {
                reveal_strlit(",");
            }
            let mut text = join(&parts, ",");
            text.append(" \u{22a2} ");
            text.append(self.1.to_string().as_str());
            text
        }
    }

    /// The specification as the `let` that an annotation file holds for it.
    pub fn spec_writer_for_file(&self, kind: SpecKind) -> (text: String)
        ensures
            text@ == self@.render_for_file(kind),
    {
        let parts = ElrondTpedvar::bracket_all(&self.0);
        let mut text = String::from_str("let ");
        text.append(kind.to_string().as_str());
        text.append(" ");
        proof {
            reveal_strlit(" ");
        }
        text.append(join(&parts, " ").as_str());
        text.append(" =\n  ");
        text.append(self.1.to_string().as_str());
        text.append("\n");
        text
    }
}

/// A predicate symbol that the engine knows.
#[allow(non_camel_case_types)]
#[derive(PartialEq, Eq, Debug, Clone, Copy)]
pub enum ElrondKnownPredicate {
    length,
    sorted,
    member,
    head,
    order,
    once,
    left,
    right,
    para,
    ance,
    root,
}

impl ElrondKnownPredicate {
    /// The symbol as the engine spells it, between double quotes.
    pub open spec fn render(self) -> Seq<char> {
        match self {
            ElrondKnownPredicate::length => "\"len\""@,
            ElrondKnownPredicate::member => "\"mem\""@,
            ElrondKnownPredicate::head => "\"hd\""@,
            ElrondKnownPredicate::order => "\"ord\""@,
            ElrondKnownPredicate::left => "\"left\""@,
            ElrondKnownPredicate::right => "\"right\""@,
            ElrondKnownPredicate::sorted => "\"sorted\""@,
            ElrondKnownPredicate::once => "\"once\""@,
            ElrondKnownPredicate::para => "\"para\""@,
            ElrondKnownPredicate::ance => "\"ance\""@,
            ElrondKnownPredicate::root => "\"root\""@,
        }
    }

    /// The symbol as the engine spells it, between double quotes.
    pub fn to_string(&self) -> (text: String)
        ensures
            text@ == self.render(),
    {
        match self {
            ElrondKnownPredicate::length => String::from_str("\"len\""),
            ElrondKnownPredicate::member => String::from_str("\"mem\""),
            ElrondKnownPredicate::head => String::from_str("\"hd\""),
            ElrondKnownPredicate::order => String::from_str("\"ord\""),
            ElrondKnownPredicate::left => String::from_str("\"left\""),
            ElrondKnownPredicate::right => String::from_str("\"right\""),
            ElrondKnownPredicate::sorted => String::from_str("\"sorted\""),
            ElrondKnownPredicate::once => String::from_str("\"once\""),
            ElrondKnownPredicate::para => String::from_str("\"para\""),
            ElrondKnownPredicate::ance => String::from_str("\"ance\""),
            ElrondKnownPredicate::root => String::from_str("\"root\""),
        }
    }
}

/// The predicate symbols handed to the engine, in the order it is to take them.
#[derive(PartialEq, Debug)]
pub struct ElrondPredicates(pub Vec<ElrondKnownPredicate>);

impl View for ElrondPredicates {
    type V = Seq<ElrondKnownPredicate>;

    open spec fn view(&self) -> Seq<ElrondKnownPredicate> {
        self.0@
    }
}

/// The renderings of a sequence of predicate symbols, in order.
pub open spec fn quoted_symbols(preds: Seq<ElrondKnownPredicate>) -> Seq<Seq<char>> {
    Seq::new(preds.len(), |i: int| preds[i].render())
}

/// The declaration of the predicate symbols: `let preds = [| ... |]` with the
/// quoted symbols separated by a semicolon and a space.
pub open spec fn render_predicates(preds: Seq<ElrondKnownPredicate>) -> Seq<char> {
    "let preds = [| "@ + joined(quoted_symbols(preds), "; "@) + " |]"@
}

impl ElrondPredicates {
    /// The declaration of the predicate symbols.
    pub fn to_string(&self) -> (text: String)
        ensures
            text@ == render_predicates(self@),
    {
        let mut parts: Vec<String> = Vec::new();
        let mut i: usize = 0;
        while i < self.0.len()
            invariant
                i <= self.0.len(),
                parts.len() == i,
                forall|j: int| 0 <= j < i ==> (#[trigger] parts@[j])@ == self.0@[j].render(),
            decreases self.0.len() - i,
        {
            let part = self.0[i].to_string();
            parts.push(part);
            i = i + 1;
        }
        assert(texts(parts@) =~= quoted_symbols(self@));
        let mut text = String::from_str("let preds = [| ");
        proof {
            reveal_strlit("; ");
        }
        text.append(join(&parts, "; ").as_str());
        text.append(" |]");
        text
    }
}

/// What one annotation file holds, in the engine's own terms.
#[derive(Debug)]
pub struct ElrondAssertion {
    pub preds: ElrondPredicates,
    pub pre_spec: Option<ElrondSpec>,
    pub post_spec: ElrondSpec,
}

/// Mathematical value of an [`ElrondAssertion`].
pub struct ElrondAssertionView {
    pub preds: Seq<ElrondKnownPredicate>,
    pub pre_spec: Option<ElrondSpecView>,
    pub post_spec: ElrondSpecView,
}

impl View for ElrondAssertion {
    type V = ElrondAssertionView;

    open spec fn view(&self) -> ElrondAssertionView {
        ElrondAssertionView {
            preds: self.preds@,
            pre_spec: match self.pre_spec {
                Some(spec) => Some(spec@),
                None => None,
            },
            post_spec: self.post_spec@,
        }
    }
}

impl ElrondAssertionView {
    /// The file's text: the predicate declaration on a line of its own, the
    /// precondition's `let` if there is one, an empty line, and the
    /// postcondition's `let`.
    pub open spec fn render(self) -> Seq<char> {
        render_predicates(self.preds) + "\n"@ + (match self.pre_spec {
            Some(spec) => spec.render_for_file(SpecKind::Pre),
            None => Seq::empty(),
        }) + "\n"@ + self.post_spec.render_for_file(SpecKind::Post)
    }
}

impl ElrondAssertion {
    /// The file's text.
    pub fn to_string(&self) -> (text: String)
        ensures
            text@ == self@.render(),
    {
        let mut text = self.preds.to_string();
        text.append("\n");
        if let Some(pre_spec) = &self.pre_spec {
            text.append(pre_spec.spec_writer_for_file(SpecKind::Pre).as_str());
        }
        text.append("\n");
        text.append(self.post_spec.spec_writer_for_file(SpecKind::Post).as_str());
        text
    }
}

/// What the engine found: counterexamples, each a list of named values, or
/// named specifications.
#[derive(PartialEq, Debug)]
pub enum ElrondResult {
    Cex(Vec<Vec<(ElrondValue, String)>>),
    Result(Vec<(ElrondSpec, String)>),
}

/// Mathematical value of an [`ElrondResult`].
pub enum ElrondResultView {
    Cex(Seq<Seq<(ElrondValueView, Seq<char>)>>),
    Result(Seq<(ElrondSpecView, Seq<char>)>),
}

/// The mathematical values of the bindings of one counterexample, in order.
pub open spec fn bindings(items: Seq<(ElrondValue, String)>) -> Seq<(ElrondValueView, Seq<char>)> {
    Seq::new(items.len(), |i: int| (items[i].0@, items[i].1@))
}

/// The mathematical values of a sequence of counterexamples, in order.
pub open spec fn counterexamples(items: Seq<Vec<(ElrondValue, String)>>) -> Seq<
    Seq<(ElrondValueView, Seq<char>)>,
> {
    Seq::new(items.len(), |i: int| bindings(items[i]@))
}

/// The mathematical values of a sequence of named specifications, in order.
pub open spec fn named_specs(items: Seq<(ElrondSpec, String)>) -> Seq<(ElrondSpecView, Seq<char>)> {
    Seq::new(items.len(), |i: int| (items[i].0@, items[i].1@))
}

impl View for ElrondResult {
    type V = ElrondResultView;

    open spec fn view(&self) -> ElrondResultView {
        match self {
            ElrondResult::Cex(items) => ElrondResultView::Cex(counterexamples(items@)),
            ElrondResult::Result(items) => ElrondResultView::Result(named_specs(items@)),
        }
    }
}

/// One line of a counterexample: a tab, the name, an arrow between spaces,
/// and the value.
pub open spec fn render_binding(binding: (ElrondValueView, Seq<char>)) -> Seq<char> {
    "\t"@ + binding.1 + " -> "@ + binding.0.render() + "\n"@
}

/// The lines of the bindings of one counterexample, in order.
pub open spec fn binding_lines(items: Seq<(ElrondValueView, Seq<char>)>) -> Seq<Seq<char>> {
    Seq::new(items.len(), |i: int| render_binding(items[i]))
}

/// A counterexample: a heading with its number, then one line for each binding.
pub open spec fn render_counterexample(
    number: nat,
    items: Seq<(ElrondValueView, Seq<char>)>,
) -> Seq<char> {
    "Cex "@ + decimal(number) + ":\n"@ + concat(binding_lines(items))
}

/// The counterexamples as text, each numbered by its place, from zero.
pub open spec fn counterexample_blocks(items: Seq<Seq<(ElrondValueView, Seq<char>)>>) -> Seq<
    Seq<char>,
> {
    Seq::new(items.len(), |i: int| render_counterexample(i as nat, items[i]))
}

/// One line of a list of specifications: a tab, the name, a colon between
/// spaces, and the specification.
pub open spec fn render_named_spec(item: (ElrondSpecView, Seq<char>)) -> Seq<char> {
    "\t"@ + item.1 + " : "@ + item.0.render() + "\n"@
}

/// The lines of a list of named specifications, in order.
pub open spec fn named_spec_lines(items: Seq<(ElrondSpecView, Seq<char>)>) -> Seq<Seq<char>> {
    Seq::new(items.len(), |i: int| render_named_spec(items[i]))
}

impl ElrondResultView {
    /// The counterexamples one after another, or one line for each named
    /// specification.
    pub open spec fn render(self) -> Seq<char> {
        match self {
            ElrondResultView::Cex(items) => concat(counterexample_blocks(items)),
            ElrondResultView::Result(items) => concat(named_spec_lines(items)),
        }
    }
}

fn counterexample_to_string(number: usize, items: &Vec<(ElrondValue, String)>) -> (text: String)
    ensures
        text@ == render_counterexample(number as nat, bindings(items@)),
{
    let ghost lines = binding_lines(bindings(items@));
    let mut body = String::new();
    let mut i: usize = 0;
    while i < items.len()
        invariant
            i <= items.len(),
            lines == binding_lines(bindings(items@)),
            body@ == concat(lines.take(i as int)),
        decreases items.len() - i,
    {
        let mut line = String::from_str("\t");
        line.append(items[i].1.as_str());
        line.append(" -> ");
        line.append(items[i].0.to_string().as_str());
        line.append("\n");
        body.append(line.as_str());
        i = i + 1;
        assert(lines.take(i as int).drop_last() =~= lines.take(i - 1));
    }
    assert(lines.take(i as int) =~= lines);
    let mut text = String::from_str("Cex ");
    text.append(render_nat(number as u64).as_str());
    text.append(":\n");
    text.append(body.as_str());
    text
}

impl ElrondResult {
    /// The result as text.
    pub fn to_string(&self) -> (text: String)
        ensures
            text@ == self@.render(),
    {
        match self {
            ElrondResult::Cex(items) => {
                let ghost blocks = counterexample_blocks(counterexamples(items@));
                let mut text = String::new();
                let mut i: usize = 0;
                while i < items.len()
                    invariant
                        i <= items.len(),
                        blocks == counterexample_blocks(counterexamples(items@)),
                        text@ == concat(blocks.take(i as int)),
                    decreases items.len() - i,
                {
                    let block = counterexample_to_string(i, &items[i]);
                    text.append(block.as_str());
                    i = i + 1;
                    assert(blocks.take(i as int).drop_last() =~= blocks.take(i - 1));
                }
                assert(blocks.take(i as int) =~= blocks);
                text
            },
            ElrondResult::Result(items) => {
                let ghost lines = named_spec_lines(named_specs(items@));
                let mut text = String::new();
                let mut i: usize = 0;
                while i < items.len()
                    invariant
                        i <= items.len(),
                        lines == named_spec_lines(named_specs(items@)),
                        text@ == concat(lines.take(i as int)),
                    decreases items.len() - i,
                {
                    let mut line = String::from_str("\t");
                    line.append(items[i].1.as_str());
                    line.append(" : ");
                    line.append(items[i].0.to_string().as_str());
                    line.append("\n");
                    text.append(line.as_str());
                    i = i + 1;
                    assert(lines.take(i as int).drop_last() =~= lines.take(i - 1));
                }
                assert(lines.take(i as int) =~= lines);
                text
            },
        }
    }
}

/// What the host asks the engine to work on.
#[derive(Debug)]
pub struct ArwenSetup {
    pub sourcefile: String,
    pub assertionfile: String,
    pub outputdir: String,
    pub client_name: String,
    pub predicates: ElrondPredicates,
}

/// A message from the host to the engine.
#[derive(Debug)]
pub enum ArwenMessage {
    Start,
    Test,
    Setup(ArwenSetup),
    Message(String),
}

/// A message from the engine to the host.
#[derive(PartialEq, Debug)]
pub enum ElrondMessage {
    Message(String),
    Result(ElrondResult),
}

/// Mathematical value of an [`ElrondMessage`].
pub enum ElrondMessageView {
    Message(Seq<char>),
    Result(ElrondResultView),
}

impl View for ElrondMessage {
    type V = ElrondMessageView;

    open spec fn view(&self) -> ElrondMessageView {
        match self {
            ElrondMessage::Message(text) => ElrondMessageView::Message(text@),
            ElrondMessage::Result(result) => ElrondMessageView::Result(result@),
        }
    }
}

impl ElrondMessageView {
    /// `Message: ` and the text, or `Result:` and on the next line the result.
    pub open spec fn render(self) -> Seq<char> {
        match self {
            ElrondMessageView::Message(text) => "Message: "@ + text,
            ElrondMessageView::Result(result) => "Result:\n"@ + result.render(),
        }
    }
}

impl ElrondMessage {
    /// The message as text.
    pub fn to_string(&self) -> (text: String)
        ensures
            text@ == self@.render(),
    {
        match self {
            ElrondMessage::Message(msg) => {
                let mut text = String::from_str("Message: ");
                text.append(msg.as_str());
                text
            },
            ElrondMessage::Result(result) => {
                let mut text = String::from_str("Result:\n");
                text.append(result.to_string().as_str());
                text
            },
        }
    }
}

} // verus!
