//! From the assertion language of annotation files to the typed model of the
//! engine: each variable gets the type that the arguments declare for it, a
//! predicate or comparison becomes an atom over an operator, and a formula
//! stands under an empty quantifier prefix.

use crate::ipc::{
    ElrondAssertion, ElrondAssertionView, ElrondForallFormula, ElrondForallFormulaView,
    ElrondKnownPredicate, ElrondPred, ElrondPredView, ElrondPredicates, ElrondSimpleExpr,
    ElrondSimpleExprView, ElrondSpec, ElrondSpecView, ElrondTpedvar, ElrondTpedvarView, ElrondType,
    ElrondTypeView, FreeVar, FreeVarView,
};
use crate::ipc_assertion::{
    Assertion, AssertionFile, AssertionFileView, AssertionType, AssertionTypeView, AssertionView,
    Pred, Spec, SpecView, Tpedvar, TpedvarView,
};
use crate::text::same_text;
use vstd::prelude::*;
use vstd::string::*;

verus! {

/// The engine's own type for a type of an annotation file.
pub open spec fn typed_as(ty: AssertionTypeView) -> ElrondTypeView {
    match ty {
        AssertionTypeView::Bool => ElrondTypeView::Bool,
        AssertionTypeView::Int => ElrondTypeView::Int,
        AssertionTypeView::Generic(name) => ElrondTypeView::Generic(name),
    }
}

/// The engine's own symbol for a predicate symbol of an annotation file.
pub open spec fn known_as(pred: Pred) -> ElrondKnownPredicate {
    match pred {
        Pred::length => ElrondKnownPredicate::length,
        Pred::sorted => ElrondKnownPredicate::sorted,
        Pred::member => ElrondKnownPredicate::member,
        Pred::head => ElrondKnownPredicate::head,
        Pred::order => ElrondKnownPredicate::order,
        Pred::once => ElrondKnownPredicate::once,
        Pred::left => ElrondKnownPredicate::left,
        Pred::right => ElrondKnownPredicate::right,
        Pred::para => ElrondKnownPredicate::para,
        Pred::ance => ElrondKnownPredicate::ance,
        Pred::root => ElrondKnownPredicate::root,
    }
}

/// The type that the first argument named `name` declares, if there is one.
pub open spec fn declared_type(args: Seq<TpedvarView>, name: Seq<char>) -> Option<
    AssertionTypeView,
>
    decreases args.len(),
{
    if args.len() == 0 {
        None
    } else if args[0].1 == name {
        Some(args[0].0)
    } else {
        declared_type(args.drop_first(), name)
    }
}

/// The variable `name` with the type that `args` declare for it (meant for a
/// name that they declare).
pub open spec fn variable(args: Seq<TpedvarView>, name: Seq<char>) -> ElrondSimpleExprView {
    ElrondSimpleExprView::Var(typed_as(declared_type(args, name)->0), name)
}

/// The variables `names`, each with its declared type, in order.
pub open spec fn variables(args: Seq<TpedvarView>, names: Seq<Seq<char>>) -> Seq<
    ElrondSimpleExprView,
> {
    Seq::new(names.len(), |i: int| variable(args, names[i]))
}

/// Whether `args` declare every variable of `formula`.
pub open spec fn declares_all(args: Seq<TpedvarView>, formula: AssertionView) -> bool
    decreases formula,
{
    match formula {
        AssertionView::True => true,
        AssertionView::Predicate(_, names) => forall|i: int|
            0 <= i < names.len() ==> declared_type(args, #[trigger] names[i]) is Some,
        AssertionView::Op(_, lhs, rhs) => declared_type(args, lhs) is Some && declared_type(
            args,
            rhs,
        ) is Some,
        AssertionView::Implies(lhs, rhs) => declares_all(args, *lhs) && declares_all(args, *rhs),
        AssertionView::Iff(lhs, rhs) => declares_all(args, *lhs) && declares_all(args, *rhs),
        AssertionView::Not(inner) => declares_all(args, *inner),
        AssertionView::And(items) => forall|i: int|
            0 <= i < items.len() ==> declares_all(args, #[trigger] items[i]),
        AssertionView::Or(items) => forall|i: int|
            0 <= i < items.len() ==> declares_all(args, #[trigger] items[i]),
    }
}

/// The formula in the engine's model: a predicate with its arguments, and a
/// comparison of two variables, are atoms over a Boolean operator that is
/// named by the symbol and applied to the typed variables; the connectives
/// stay as they are.
pub open spec fn typed_formula(args: Seq<TpedvarView>, formula: AssertionView) -> ElrondPredView
    decreases formula,
{
    match formula {
        AssertionView::True => ElrondPredView::True,
        AssertionView::Predicate(pred, names) => ElrondPredView::Atom(
            ElrondSimpleExprView::Op(ElrondTypeView::Bool, pred.render(), variables(args, names)),
        ),
        AssertionView::Op(op, lhs, rhs) => ElrondPredView::Atom(
            ElrondSimpleExprView::Op(
                ElrondTypeView::Bool,
                op.render(),
                seq![variable(args, lhs), variable(args, rhs)],
            ),
        ),
        AssertionView::Implies(lhs, rhs) => ElrondPredView::Implies(
            Box::new(typed_formula(args, *lhs)),
            Box::new(typed_formula(args, *rhs)),
        ),
        AssertionView::Iff(lhs, rhs) => ElrondPredView::Iff(
            Box::new(typed_formula(args, *lhs)),
            Box::new(typed_formula(args, *rhs)),
        ),
        AssertionView::Not(inner) => ElrondPredView::Not(Box::new(typed_formula(args, *inner))),
        AssertionView::And(items) => ElrondPredView::And(typed_formulas(args, items)),
        AssertionView::Or(items) => ElrondPredView::Or(typed_formulas(args, items)),
    }
}

/// The formulas `items` in the engine's model, in order.
pub open spec fn typed_formulas(args: Seq<TpedvarView>, items: Seq<AssertionView>) -> Seq<
    ElrondPredView,
>
    decreases items,
{
    Seq::new(
        items.len(),
        |i: int|
            if 0 <= i < items.len() {
                typed_formula(args, items[i])
            } else {
                ElrondPredView::True
            },
    )
}

/// The arguments as the engine's model holds them: the same types and names.
pub open spec fn typed_args(args: Seq<TpedvarView>) -> Seq<ElrondTpedvarView> {
    Seq::new(args.len(), |i: int| ElrondTpedvarView(args[i].0, args[i].1))
}

/// The specification in the engine's model: its arguments, and its formula,
/// typed by these arguments, under an empty quantifier prefix.
pub open spec fn typed_spec(spec: SpecView) -> ElrondSpecView {
    ElrondSpecView(
        typed_args(spec.0),
        ElrondForallFormulaView(Seq::empty(), typed_formula(spec.0, spec.1)),
    )
}

/// Whether the arguments of `spec` declare every variable of its formula.
pub open spec fn spec_is_closed(spec: SpecView) -> bool {
    declares_all(spec.0, spec.1)
}

/// The predicate symbols as the engine's model holds them, in order.
pub open spec fn known_preds(preds: Seq<Pred>) -> Seq<ElrondKnownPredicate> {
    Seq::new(preds.len(), |i: int| known_as(preds[i]))
}

/// Whether each specification of `file` declares the variables of its
/// formula.
pub open spec fn file_is_closed(file: AssertionFileView) -> bool {
    &&& file.pre_spec matches Some(spec) ==> spec_is_closed(spec)
    &&& spec_is_closed(file.post_spec)
}

/// The file in the engine's model.
pub open spec fn typed_file(file: AssertionFileView) -> ElrondAssertionView {
    ElrondAssertionView {
        preds: known_preds(file.preds),
        pre_spec: match file.pre_spec {
            Some(spec) => Some(typed_spec(spec)),
            None => None,
        },
        post_spec: typed_spec(file.post_spec),
    }
}

impl AssertionType {
    /// The engine's own type for this type.
    pub fn to_elrond(&self) -> (ty: ElrondType)
        ensures
            ty@ == typed_as(self@),
    {
        match self {
            AssertionType::Bool => ElrondType::Bool,
            AssertionType::Int => ElrondType::Int,
            AssertionType::Generic(name) => ElrondType::Generic(name.clone()),
        }
    }
}

impl Pred {
    /// The engine's own symbol for this predicate symbol.
    pub fn to_elrond(&self) -> (pred: ElrondKnownPredicate)
        ensures
            pred == known_as(*self),
    {
        match self {
            Pred::length => ElrondKnownPredicate::length,
            Pred::sorted => ElrondKnownPredicate::sorted,
            Pred::member => ElrondKnownPredicate::member,
            Pred::head => ElrondKnownPredicate::head,
            Pred::order => ElrondKnownPredicate::order,
            Pred::once => ElrondKnownPredicate::once,
            Pred::left => ElrondKnownPredicate::left,
            Pred::right => ElrondKnownPredicate::right,
            Pred::para => ElrondKnownPredicate::para,
            Pred::ance => ElrondKnownPredicate::ance,
            Pred::root => ElrondKnownPredicate::root,
        }
    }
}

/// The variable `name` with its declared type, if `args` declare it.
fn typed_variable(args: &Vec<Tpedvar>, name: &String) -> (var: Option<ElrondSimpleExpr>)
    ensures
        match var {
            Some(expr) => declared_type(Tpedvar::models(args@), name@) is Some && expr@
                == variable(Tpedvar::models(args@), name@),
            None => declared_type(Tpedvar::models(args@), name@) is None,
        },
{
    let ghost all = Tpedvar::models(args@);
    let mut i: usize = 0;
    assert(all.skip(0) =~= all);
    while i < args.len()
        invariant
            i <= args.len(),
            all == Tpedvar::models(args@),
            declared_type(all, name@) == declared_type(all.skip(i as int), name@),
        decreases args.len() - i,
    {
        assert(all.skip(i as int).drop_first() =~= all.skip(i + 1));
        if same_text(args[i].1.as_str(), name.as_str()) {
            return Some(ElrondSimpleExpr::Var(args[i].0.to_elrond(), name.clone()));
        }
        i = i + 1;
    }
    None
}

fn typed_variables(args: &Vec<Tpedvar>, names: &Vec<String>) -> (vars: Option<
    Vec<ElrondSimpleExpr>,
>)
    ensures
        match vars {
            Some(exprs) => (forall|i: int|
                0 <= i < names.len() ==> declared_type(
                    Tpedvar::models(args@),
                    #[trigger] crate::text::texts(names@)[i],
                ) is Some) && ElrondSimpleExpr::models(exprs@) == variables(
                Tpedvar::models(args@),
                crate::text::texts(names@),
            ),
            None => exists|i: int|
                0 <= i < names.len() && declared_type(
                    Tpedvar::models(args@),
                    #[trigger] crate::text::texts(names@)[i],
                ) is None,
        },
{
    let ghost all = Tpedvar::models(args@);
    let ghost wanted = crate::text::texts(names@);
    let mut exprs: Vec<ElrondSimpleExpr> = Vec::new();
    let mut i: usize = 0;
    while i < names.len()
        invariant
            i <= names.len(),
            exprs.len() == i,
            all == Tpedvar::models(args@),
            wanted == crate::text::texts(names@),
            forall|j: int| 0 <= j < i ==> declared_type(all, #[trigger] wanted[j]) is Some,
            forall|j: int| 0 <= j < i ==> (#[trigger] exprs@[j]).model() == variable(all, wanted[j]),
        decreases names.len() - i,
    {
        match typed_variable(args, &names[i]) {
            Some(expr) => {
                exprs.push(expr);
            },
            None => {
                assert(declared_type(all, wanted[i as int]) is None);
                return None;
            },
        }
        i = i + 1;
    }
    assert(ElrondSimpleExpr::models(exprs@) =~= variables(all, wanted));
    Some(exprs)
}

impl Assertion {
    /// The formula in the engine's model, with each variable typed as `args`
    /// declare it; `None` when some variable is not declared.
    pub fn to_elrond(&self, args: &Vec<Tpedvar>) -> (typed: Option<ElrondPred>)
        ensures
            match typed {
                Some(pred) => declares_all(Tpedvar::models(args@), self@) && pred@
                    == typed_formula(Tpedvar::models(args@), self@),
                None => !declares_all(Tpedvar::models(args@), self@),
            },
        decreases self,
    {
        match self {
            Assertion::True => Some(ElrondPred::True),
            Assertion::Predicate(pred, names) => match typed_variables(args, names) {
                Some(vars) => Some(
                    ElrondPred::Atom(ElrondSimpleExpr::Op(ElrondType::Bool, pred.to_string(), vars)),
                ),
                None => None,
            },
            Assertion::Op(op, lhs, rhs) => {
                let left = match typed_variable(args, lhs) {
                    Some(var) => var,
                    None => {
                        return None;
                    },
                };
                let right = match typed_variable(args, rhs) {
                    Some(var) => var,
                    None => {
                        return None;
                    },
                };
                let ghost both = seq![left@, right@];
                let mut vars: Vec<ElrondSimpleExpr> = Vec::new();
                vars.push(left);
                vars.push(right);
                assert(ElrondSimpleExpr::models(vars@) =~= both);
                Some(ElrondPred::Atom(ElrondSimpleExpr::Op(ElrondType::Bool, op.to_string(), vars)))
            },
            Assertion::Implies(lhs, rhs) => match (lhs.to_elrond(args), rhs.to_elrond(args)) {
                (Some(left), Some(right)) => Some(
                    ElrondPred::Implies(Box::new(left), Box::new(right)),
                ),
                _ => None,
            },
            Assertion::Iff(lhs, rhs) => match (lhs.to_elrond(args), rhs.to_elrond(args)) {
                (Some(left), Some(right)) => Some(ElrondPred::Iff(Box::new(left), Box::new(right))),
                _ => None,
            },
            Assertion::Not(inner) => match inner.to_elrond(args) {
                Some(pred) => Some(ElrondPred::Not(Box::new(pred))),
                None => None,
            },
            Assertion::And(items) => {
                proof {
                    assert(decreases_to!(self => self->And_0));
                }
                match Self::all_to_elrond(items, args) {
                    Some(preds) => Some(ElrondPred::And(preds)),
                    None => None,
                }
            },
            Assertion::Or(items) => {
                proof {
                    assert(decreases_to!(self => self->Or_0));
                }
                match Self::all_to_elrond(items, args) {
                    Some(preds) => Some(ElrondPred::Or(preds)),
                    None => None,
                }
            },
        }
    }

    fn all_to_elrond(items: &Vec<Assertion>, args: &Vec<Tpedvar>) -> (typed: Option<
        Vec<ElrondPred>,
    >)
        ensures
            match typed {
                Some(preds) => (forall|i: int|
                    0 <= i < items.len() ==> declares_all(
                        Tpedvar::models(args@),
                        #[trigger] Self::models(items@)[i],
                    )) && ElrondPred::models(preds@) == typed_formulas(
                    Tpedvar::models(args@),
                    Self::models(items@),
                ),
                None => exists|i: int|
                    0 <= i < items.len() && !declares_all(
                        Tpedvar::models(args@),
                        #[trigger] Self::models(items@)[i],
                    ),
            },
        decreases items,
    {
        let ghost all = Tpedvar::models(args@);
        let ghost formulas = Self::models(items@);
        let mut preds: Vec<ElrondPred> = Vec::new();
        let mut i: usize = 0;
        while i < items.len()
            invariant
                i <= items.len(),
                preds.len() == i,
                all == Tpedvar::models(args@),
                formulas == Self::models(items@),
                forall|j: int| 0 <= j < i ==> declares_all(all, #[trigger] formulas[j]),
                forall|j: int|
                    0 <= j < i ==> (#[trigger] preds@[j]).model() == typed_formula(
                        all,
                        formulas[j],
                    ),
            decreases items.len() - i,
        {
            proof {
                assert(decreases_to!(items => items[i as int]));
            }
            match items[i].to_elrond(args) {
                Some(pred) => {
                    preds.push(pred);
                },
                None => {
                    assert(!declares_all(all, formulas[i as int]));
                    return None;
                },
            }
            i = i + 1;
        }
        assert(ElrondPred::models(preds@) =~= typed_formulas(all, formulas));
        Some(preds)
    }
}

impl Spec {
    /// The specification in the engine's model; `None` when its formula has a
    /// variable that its arguments do not declare.
    pub fn to_elrond(&self) -> (typed: Option<ElrondSpec>)
        ensures
            match typed {
                Some(spec) => spec_is_closed(self@) && spec@ == typed_spec(self@),
                None => !spec_is_closed(self@),
            },
    {
        let body = match self.1.to_elrond(&self.0) {
            Some(pred) => pred,
            None => {
                return None;
            },
        };
        let mut args: Vec<ElrondTpedvar> = Vec::new();
        let mut i: usize = 0;
        while i < self.0.len()
            invariant
                i <= self.0.len(),
                args.len() == i,
                forall|j: int|
                    0 <= j < i ==> (#[trigger] args@[j])@ == ElrondTpedvarView(
                        self.0@[j]@.0,
                        self.0@[j]@.1,
                    ),
            decreases self.0.len() - i,
        {
            args.push(ElrondTpedvar(self.0[i].0.clone(), self.0[i].1.clone()));
            i = i + 1;
        }
        assert(ElrondTpedvar::models(args@) =~= typed_args(Tpedvar::models(self.0@)));
        let free: Vec<FreeVar> = Vec::new();
        assert(FreeVar::models(free@) =~= Seq::<FreeVarView>::empty());
        Some(ElrondSpec(args, ElrondForallFormula(free, body)))
    }
}

impl AssertionFile {
    /// The file in the engine's model; `None` when a formula of the file has
    /// a variable that the arguments of its specification do not declare.
    pub fn to_elrond(&self) -> (typed: Option<ElrondAssertion>)
        ensures
            match typed {
                Some(file) => file_is_closed(self@) && file@ == typed_file(self@),
                None => !file_is_closed(self@),
            },
    {
        let pre_spec = match &self.pre_spec {
            Some(spec) => match spec.to_elrond() {
                Some(typed) => Some(typed),
                None => {
                    return None;
                },
            },
            None => None,
        };
        let post_spec = match self.post_spec.to_elrond() {
            Some(typed) => typed,
            None => {
                return None;
            },
        };
        let mut preds: Vec<ElrondKnownPredicate> = Vec::new();
        let mut i: usize = 0;
        while i < self.preds.0.len()
            invariant
                i <= self.preds.0.len(),
                preds.len() == i,
                forall|j: int| 0 <= j < i ==> #[trigger] preds@[j] == known_as(self.preds.0@[j]),
            decreases self.preds.0.len() - i,
        {
            preds.push(self.preds.0[i].to_elrond());
            i = i + 1;
        }
        assert(preds@ =~= known_preds(self.preds.0@));
        Some(ElrondAssertion { preds: ElrondPredicates(preds), pre_spec, post_spec })
    }
}

} // verus!
