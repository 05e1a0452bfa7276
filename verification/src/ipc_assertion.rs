//! The assertion language of annotation files: untyped formulas over named
//! variables, typed argument lists, and the file that bundles them.

use crate::text::{join, joined, texts};
use vstd::prelude::*;
use vstd::string::*;

verus! {

/// The type of an argument in an annotation file.
#[derive(PartialEq, Debug)]
pub enum AssertionType {
    Bool,
    Int,
    Generic(String),
}

/// Mathematical value of an [`AssertionType`].
pub enum AssertionTypeView {
    Bool,
    Int,
    Generic(Seq<char>),
}

impl View for AssertionType {
    type V = AssertionTypeView;

    open spec fn view(&self) -> AssertionTypeView {
        match self {
            AssertionType::Bool => AssertionTypeView::Bool,
            AssertionType::Int => AssertionTypeView::Int,
            AssertionType::Generic(name) => AssertionTypeView::Generic(name@),
        }
    }
}

impl Clone for AssertionType {
    fn clone(&self) -> (copy: Self)
        ensures
            copy@ == self@,
    {
        match self {
            AssertionType::Bool => AssertionType::Bool,
            AssertionType::Int => AssertionType::Int,
            AssertionType::Generic(name) => AssertionType::Generic(name.clone()),
        }
    }
}

impl AssertionTypeView {
    /// `bool`, `int`, or the name of the generic type.
    pub open spec fn render(self) -> Seq<char> {
        match self {
            AssertionTypeView::Bool => "bool"@,
            AssertionTypeView::Int => "int"@,
            AssertionTypeView::Generic(name) => name,
        }
    }
}

impl AssertionType {
    /// The type as it is written in an annotation file.
    pub fn to_string(&self) -> (text: String)
        ensures
            text@ == self@.render(),
    {
        match self {
            AssertionType::Bool => String::from_str("bool"),
            AssertionType::Int => String::from_str("int"),
            AssertionType::Generic(name) => name.clone(),
        }
    }
}

/// A comparison between two variables.
#[derive(PartialEq, Debug, Clone, Copy)]
pub enum AssertionOp {
    Eq,
    Le,
    Ge,
    Ne,
    Lt,
    Gt,
}

impl AssertionOp {
    /// The operator's symbol.
    pub open spec fn render(self) -> Seq<char> {
        match self {
            AssertionOp::Eq => "="@,
            AssertionOp::Le => "<="@,
            AssertionOp::Ge => ">="@,
            AssertionOp::Ne => "!="@,
            AssertionOp::Lt => "<"@,
            AssertionOp::Gt => ">"@,
        }
    }

    /// The operator's symbol.
    pub fn to_string(&self) -> (text: String)
        ensures
            text@ == self.render(),
    {
        match self {
            AssertionOp::Eq => String::from_str("="),
            AssertionOp::Le => String::from_str("<="),
            AssertionOp::Ge => String::from_str(">="),
            AssertionOp::Ne => String::from_str("!="),
            AssertionOp::Lt => String::from_str("<"),
            AssertionOp::Gt => String::from_str(">"),
        }
    }
}

/// A predicate symbol that the engine knows.
#[allow(non_camel_case_types)]
#[derive(PartialEq, Eq, Debug, Clone, Copy)]
pub enum Pred {
    length,
    sorted,
    member,
    head,
    order,
    once,
    left,
    right,
    para,
    ance,
    root,
}

impl Pred {
    /// The symbol as the engine spells it.
    pub open spec fn render(self) -> Seq<char> {
        match self {
            Pred::length => "len"@,
            Pred::member => "mem"@,
            Pred::head => "hd"@,
            Pred::order => "ord"@,
            Pred::left => "left"@,
            Pred::right => "right"@,
            Pred::sorted => "sorted"@,
            Pred::once => "once"@,
            Pred::para => "para"@,
            Pred::ance => "ance"@,
            Pred::root => "root"@,
        }
    }

    /// The symbol as the engine spells it.
    pub fn to_string(&self) -> (text: String)
        ensures
            text@ == self.render(),
    {
        match self {
            Pred::length => String::from_str("len"),
            Pred::member => String::from_str("mem"),
            Pred::head => String::from_str("hd"),
            Pred::order => String::from_str("ord"),
            Pred::left => String::from_str("left"),
            Pred::right => String::from_str("right"),
            Pred::sorted => String::from_str("sorted"),
            Pred::once => String::from_str("once"),
            Pred::para => String::from_str("para"),
            Pred::ance => String::from_str("ance"),
            Pred::root => String::from_str("root"),
        }
    }
}

/// A quantifier-free formula over named variables.
#[derive(PartialEq, Debug)]
pub enum Assertion {
    True,
    Predicate(Pred, Vec<String>),
    Op(AssertionOp, String, String),
    Implies(Box<Assertion>, Box<Assertion>),
    Not(Box<Assertion>),
    And(Vec<Assertion>),
    Or(Vec<Assertion>),
    Iff(Box<Assertion>, Box<Assertion>),
}

/// Mathematical value of an [`Assertion`].
pub enum AssertionView {
    True,
    Predicate(Pred, Seq<Seq<char>>),
    Op(AssertionOp, Seq<char>, Seq<char>),
    Implies(Box<AssertionView>, Box<AssertionView>),
    Not(Box<AssertionView>),
    And(Seq<AssertionView>),
    Or(Seq<AssertionView>),
    Iff(Box<AssertionView>, Box<AssertionView>),
}

impl Assertion {
    /// The formula as a mathematical tree.
    pub open spec fn model(&self) -> AssertionView
        decreases self,
    {
        match self {
            Assertion::True => AssertionView::True,
            Assertion::Predicate(pred, args) => AssertionView::Predicate(*pred, texts(args@)),
            Assertion::Op(op, lhs, rhs) => AssertionView::Op(*op, lhs@, rhs@),
            Assertion::Implies(lhs, rhs) => AssertionView::Implies(
                Box::new(lhs.model()),
                Box::new(rhs.model()),
            ),
            Assertion::Not(inner) => AssertionView::Not(Box::new(inner.model())),
            Assertion::And(items) => AssertionView::And(Self::models(items@)),
            Assertion::Or(items) => AssertionView::Or(Self::models(items@)),
            Assertion::Iff(lhs, rhs) => AssertionView::Iff(
                Box::new(lhs.model()),
                Box::new(rhs.model()),
            ),
        }
    }

    /// The trees of a sequence of formulas, in order.
    pub open spec fn models(items: Seq<Assertion>) -> Seq<AssertionView>
        decreases items,
    {
        Seq::new(
            items.len(),
            |i: int|
                if 0 <= i < items.len() {
                    items[i].model()
                } else {
                    AssertionView::True
                },
        )
    }
}

impl View for Assertion {
    type V = AssertionView;

    open spec fn view(&self) -> AssertionView {
        self.model()
    }
}

impl AssertionView {
    /// Whether the formula, as a member of a conjunction (`conj`) or of a
    /// disjunction, needs parentheses to stay one member. In a conjunction a
    /// disjunction does, and so does a conjunction that is not the first
    /// member; in a disjunction a disjunction that is not the first member
    /// does.
    pub open spec fn needs_group(self, conj: bool, first: bool) -> bool {
        if conj {
            self is Or || (!first && self is And)
        } else {
            !first && self is Or
        }
    }

    /// The formula in annotation-file syntax: `&&` and `||` between the members
    /// of a conjunction or disjunction, `!` in front of a negated formula,
    /// `implies` and `iff` in front of their two parenthesised arguments.
    /// Parentheses stand where the formula would read otherwise without them,
    /// and nowhere else: around a conjunction or disjunction that is negated,
    /// and around a member that needs them.
    pub open spec fn render(self) -> Seq<char>
        decreases self, 0nat,
    {
        match self {
            AssertionView::True => "true"@,
            AssertionView::Predicate(pred, args) => pred.render() + " "@ + joined(args, " "@),
            AssertionView::Op(op, lhs, rhs) => lhs + " "@ + op.render() + " "@ + rhs,
            AssertionView::Implies(lhs, rhs) => "implies ("@ + lhs.render() + ") ("@ + rhs.render()
                + ")"@,
            AssertionView::Not(inner) => "!"@ + inner.member(true, false),
            AssertionView::And(items) => joined(Self::members(items, true), " && "@),
            AssertionView::Or(items) => joined(Self::members(items, false), " || "@),
            AssertionView::Iff(lhs, rhs) => "iff ("@ + lhs.render() + ") ("@ + rhs.render() + ")"@,
        }
    }

    /// The formula between parentheses.
    pub open spec fn grouped(self) -> Seq<char>
        decreases self, 1nat,
    {
        "("@ + self.render() + ")"@
    }

    /// The formula as a member of a conjunction (`conj`) or of a disjunction:
    /// between parentheses where it needs them, bare where it does not. What
    /// is negated is written as a later member of a conjunction is.
    pub open spec fn member(self, conj: bool, first: bool) -> Seq<char>
        decreases self, 2nat,
    {
        if self.needs_group(conj, first) {
            self.grouped()
        } else {
            self.render()
        }
    }

    /// The members of a conjunction (`conj`) or of a disjunction as they are
    /// written, in order.
    pub open spec fn members(items: Seq<AssertionView>, conj: bool) -> Seq<Seq<char>>
        decreases items, 0nat,
    {
        Seq::new(
            items.len(),
            |i: int|
                if 0 <= i < items.len() {
                    items[i].member(conj, i == 0)
                } else {
                    Seq::empty()
                },
        )
    }
}

impl Assertion {
    /// The formula in annotation-file syntax.
    pub fn to_string(&self) -> (text: String)
        ensures
            text@ == self@.render(),
        decreases self, 0nat,
    {
        match self {
            Assertion::True => String::from_str("true"),
            Assertion::Predicate(pred, args) => {
                let mut text = pred.to_string();
                text.append(" ");
                proof {
                    reveal_strlit(" ");
                }
                text.append(join(args, " ").as_str());
                text
            },
            Assertion::Op(op, lhs, rhs) => {
                let mut text = lhs.clone();
                text.append(" ");
                text.append(op.to_string().as_str());
                text.append(" ");
                text.append(rhs.as_str());
                text
            },
            Assertion::Implies(lhs, rhs) => {
                let mut text = String::from_str("implies (");
                text.append(lhs.to_string().as_str());
                text.append(") (");
                text.append(rhs.to_string().as_str());
                text.append(")");
                text
            },
            Assertion::Not(inner) => {
                let mut text = String::from_str("!");
                text.append(inner.member_to_string(true, false).as_str());
                text
            },
            Assertion::And(items) => {
                proof {
                    assert(decreases_to!(self => self->And_0));
                }
                let parts = Self::render_members(items, true);
                proof {
                    reveal_strlit(" && ");
                }
                join(&parts, " && ")
            },
            Assertion::Or(items) => {
                proof {
                    assert(decreases_to!(self => self->Or_0));
                }
                let parts = Self::render_members(items, false);
                proof {
                    reveal_strlit(" || ");
                }
                join(&parts, " || ")
            },
            Assertion::Iff(lhs, rhs) => {
                let mut text = String::from_str("iff (");
                text.append(lhs.to_string().as_str());
                text.append(") (");
                text.append(rhs.to_string().as_str());
                text.append(")");
                text
            },
        }
    }

    /// Whether the formula, as a member of a conjunction (`conj`) or of a
    /// disjunction, needs parentheses.
    fn member_needs_group(&self, conj: bool, first: bool) -> (needed: bool)
        ensures
            needed == self@.needs_group(conj, first),
    {
        let disjunction = matches!(self, Assertion::Or(_));
        let conjunction = matches!(self, Assertion::And(_));
        if conj {
            disjunction || (!first && conjunction)
        } else {
            !first && disjunction
        }
    }

    /// The formula as a member of a conjunction (`conj`) or of a disjunction.
    fn member_to_string(&self, conj: bool, first: bool) -> (text: String)
        ensures
            text@ == self@.member(conj, first),
        decreases self, 2nat,
    {
        if self.member_needs_group(conj, first) {
            let mut text = String::from_str("(");
            text.append(self.to_string().as_str());
            text.append(")");
            text
        } else {
            self.to_string()
        }
    }

    /// The members of a conjunction (`conj`) or of a disjunction as they are
    /// written, in order.
    fn render_members(items: &Vec<Assertion>, conj: bool) -> (parts: Vec<String>)
        ensures
            texts(parts@) == AssertionView::members(Self::models(items@), conj),
        decreases items, 0nat,
    {
        let mut parts: Vec<String> = Vec::new();
        let mut i: usize = 0;
        while i < items.len()
            invariant
                i <= items.len(),
                parts.len() == i,
                forall|j: int|
                    0 <= j < i ==> (#[trigger] parts@[j])@ == items@[j].model().member(
                        conj,
                        j == 0,
                    ),
            decreases items.len() - i,
        {
            proof {
                assert(decreases_to!(items => items[i as int]));
            }
            let part = items[i].member_to_string(conj, i == 0);
            parts.push(part);
            i = i + 1;
        }
        assert(texts(parts@) =~= AssertionView::members(Self::models(items@), conj));
        parts
    }
}

/// A quantified variable with its type.
#[derive(PartialEq, Debug)]
pub struct FreeVar(pub AssertionType, pub String);

/// Mathematical value of a [`FreeVar`].
pub struct FreeVarView(pub AssertionTypeView, pub Seq<char>);

impl View for FreeVar {
    type V = FreeVarView;

    open spec fn view(&self) -> FreeVarView {
        FreeVarView(self.0@, self.1@)
    }
}

impl FreeVarView {
    /// The name, a colon between spaces, and the type.
    pub open spec fn render(self) -> Seq<char> {
        self.1 + " : "@ + self.0.render()
    }
}

impl FreeVar {
    /// The variable as `name : type`.
    pub fn to_string(&self) -> (text: String)
        ensures
            text@ == self@.render(),
    {
        let mut text = self.1.clone();
        text.append(" : ");
        text.append(self.0.to_string().as_str());
        text
    }
}

/// An argument of a specification with its type.
#[derive(PartialEq, Debug)]
pub struct Tpedvar(pub AssertionType, pub String);

/// Mathematical value of a [`Tpedvar`].
pub struct TpedvarView(pub AssertionTypeView, pub Seq<char>);

impl View for Tpedvar {
    type V = TpedvarView;

    open spec fn view(&self) -> TpedvarView {
        TpedvarView(self.0@, self.1@)
    }
}

impl TpedvarView {
    /// The argument as it stands in a `let` header: `(name : type)`.
    pub open spec fn render(self) -> Seq<char> {
        "("@ + self.1 + " : "@ + self.0.render() + ")"@
    }

    /// The renderings of a sequence of arguments, in order.
    pub open spec fn renders(items: Seq<TpedvarView>) -> Seq<Seq<char>> {
        Seq::new(items.len(), |i: int| items[i].render())
    }
}

impl Tpedvar {
    /// The mathematical values of a sequence of arguments, in order.
    pub open spec fn models(items: Seq<Tpedvar>) -> Seq<TpedvarView> {
        Seq::new(items.len(), |i: int| items[i]@)
    }

    /// The argument as `(name : type)`.
    pub fn to_string(&self) -> (text: String)
        ensures
            text@ == self@.render(),
    {
        let mut text = String::from_str("(");
        text.append(self.1.as_str());
        text.append(" : ");
        text.append(self.0.to_string().as_str());
        text.append(")");
        text
    }

    fn render_all(items: &Vec<Tpedvar>) -> (parts: Vec<String>)
        ensures
            texts(parts@) == TpedvarView::renders(Self::models(items@)),
    {
        let mut parts: Vec<String> = Vec::new();
        let mut i: usize = 0;
        while i < items.len()
            invariant
                i <= items.len(),
                parts.len() == i,
                forall|j: int| 0 <= j < i ==> (#[trigger] parts@[j])@ == items@[j]@.render(),
            decreases items.len() - i,
        {
            let part = items[i].to_string();
            parts.push(part);
            i = i + 1;
        }
        assert(texts(parts@) =~= TpedvarView::renders(Self::models(items@)));
        parts
    }
}

/// Which of the two specifications of a file a `let` introduces.
#[derive(PartialEq, Eq, Debug, Clone, Copy)]
pub enum SpecKind {
    Pre,
    Post,
}

impl SpecKind {
    /// `pre` or `post`.
    pub open spec fn render(self) -> Seq<char> {
        match self {
            SpecKind::Pre => "pre"@,
            SpecKind::Post => "post"@,
        }
    }

    /// `pre` or `post`.
    pub fn to_string(&self) -> (text: String)
        ensures
            text@ == self.render(),
    {
        match self {
            SpecKind::Pre => String::from_str("pre"),
            SpecKind::Post => String::from_str("post"),
        }
    }
}

/// A pre- or postcondition: typed arguments and a formula over them.
#[derive(PartialEq, Debug)]
pub struct Spec(pub Vec<Tpedvar>, pub Assertion);

/// Mathematical value of a [`Spec`].
pub struct SpecView(pub Seq<TpedvarView>, pub AssertionView);

impl View for Spec {
    type V = SpecView;

    open spec fn view(&self) -> SpecView {
        SpecView(Tpedvar::models(self.0@), self.1@)
    }
}

impl SpecView {
    /// The bare formula when there is no argument; otherwise the arguments
    /// separated by spaces, a turnstile between spaces, and the formula.
    pub open spec fn render(self) -> Seq<char> {
        if self.0.len() == 0 {
            self.1.render()
        } else {
            joined(TpedvarView::renders(self.0), " "@) + " \u{22a2} "@ + self.1.render()
        }
    }

    /// The specification as a `let` of an annotation file: `let`, the kind, the
    /// arguments, `=`, and on the next line the formula behind two spaces.
    pub open spec fn render_for_file(self, kind: SpecKind) -> Seq<char> {
        "let "@ + kind.render() + " "@ + joined(TpedvarView::renders(self.0), " "@) + " =\n  "@
            + self.1.render() + "\n"@
    }
}

impl Spec {
    /// The specification on one line.
    pub fn to_string(&self) -> (text: String)
        ensures
            text@ == self@.render(),
    {
        if self.0.len() == 0 {
            self.1.to_string()
        } else {
            let parts = Tpedvar::render_all(&self.0);
            proof {
                reveal_strlit(" ");
            }
            let mut text = join(&parts, " ");
            text.append(" \u{22a2} ");
            text.append(self.1.to_string().as_str());
            text
        }
    }

    /// The specification as the `let` that an annotation file holds for it.
    pub fn spec_writer_for_file(&self, kind: SpecKind) -> (text: String)
        ensures
            text@ == self@.render_for_file(kind),
    {
        let parts = Tpedvar::render_all(&self.0);
        let mut text = String::from_str("let ");
        text.append(kind.to_string().as_str());
        text.append(" ");
        proof {
            reveal_strlit(" ");
        }
        text.append(join(&parts, " ").as_str());
        text.append(" =\n  ");
        text.append(self.1.to_string().as_str());
        text.append("\n");
        text
    }
}

/// The predicate symbols that a file declares, in the order it lists them.
#[derive(PartialEq, Debug)]
pub struct AssertionPredicates(pub Vec<Pred>);

impl View for AssertionPredicates {
    type V = Seq<Pred>;

    open spec fn view(&self) -> Seq<Pred> {
        self.0@
    }
}

/// The predicate symbols as a file lists them, each between double quotes, in
/// order.
pub open spec fn symbols(preds: Seq<Pred>) -> Seq<Seq<char>> {
    Seq::new(preds.len(), |i: int| "\""@ + preds[i].render() + "\""@)
}

/// The declaration of the predicate symbols: `let preds = [| ... |]` with the
/// quoted symbols separated by a semicolon and a space.
pub open spec fn render_predicates(preds: Seq<Pred>) -> Seq<char> {
    "let preds = [| "@ + joined(symbols(preds), "; "@) + " |]"@
}

impl AssertionPredicates {
    /// The declaration of the predicate symbols.
    pub fn to_string(&self) -> (text: String)
        ensures
            text@ == render_predicates(self@),
    {
        let mut parts: Vec<String> = Vec::new();
        let mut i: usize = 0;
        while i < self.0.len()
            invariant
                i <= self.0.len(),
                parts.len() == i,
                forall|j: int|
                    0 <= j < i ==> (#[trigger] parts@[j])@ == "\""@ + self.0@[j].render()
                        + "\""@,
            decreases self.0.len() - i,
        {
            let mut part = String::from_str("\"");
            part.append(self.0[i].to_string().as_str());
            part.append("\"");
            parts.push(part);
            i = i + 1;
        }
        assert(texts(parts@) =~= symbols(self@));
        let mut text = String::from_str("let preds = [| ");
        proof {
            reveal_strlit("; ");
        }
        text.append(join(&parts, "; ").as_str());
        text.append(" |]");
        text
    }
}

/// What one annotation file holds.
#[derive(Debug)]
pub struct AssertionFile {
    pub preds: AssertionPredicates,
    pub pre_spec: Option<Spec>,
    pub post_spec: Spec,
}

/// Mathematical value of an [`AssertionFile`].
pub struct AssertionFileView {
    pub preds: Seq<Pred>,
    pub pre_spec: Option<SpecView>,
    pub post_spec: SpecView,
}

impl View for AssertionFile {
    type V = AssertionFileView;

    open spec fn view(&self) -> AssertionFileView {
        AssertionFileView {
            preds: self.preds@,
            pre_spec: match self.pre_spec {
                Some(spec) => Some(spec@),
                None => None,
            },
            post_spec: self.post_spec@,
        }
    }
}

impl AssertionFileView {
    /// The file's text: the predicate declaration on a line of its own, the
    /// precondition's `let` if there is one, an empty line, and the
    /// postcondition's `let`.
    pub open spec fn render(self) -> Seq<char> {
        render_predicates(self.preds) + "\n"@ + (match self.pre_spec {
            Some(spec) => spec.render_for_file(SpecKind::Pre),
            None => Seq::empty(),
        }) + "\n"@ + self.post_spec.render_for_file(SpecKind::Post)
    }
}

impl AssertionFile {
    /// The file's text.
    pub fn to_string(&self) -> (text: String)
        ensures
            text@ == self@.render(),
    {
        let mut text = self.preds.to_string();
        text.append("\n");
        if let Some(pre_spec) = &self.pre_spec {
            text.append(pre_spec.spec_writer_for_file(SpecKind::Pre).as_str());
        }
        text.append("\n");
        text.append(self.post_spec.spec_writer_for_file(SpecKind::Post).as_str());
        text
    }
}

} // verus!
