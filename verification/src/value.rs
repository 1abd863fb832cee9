//! Runtime values of the machine and their mathematical model.

use vstd::prelude::*;

verus! {

/// Type tags for runtime values, used in function parameter signatures
/// and in type-mismatch diagnostics.
#[derive(Clone, Copy, PartialEq, Eq, Structural, Debug)]
pub enum CalxType {
    Nil,
    Bool,
    I64,
    F64,
    Str,
    List,
    Link,
}

/// A runtime value: the tagged union the machine computes over.
///
/// The `F64` variant stores the IEEE-754 bit pattern of the number as a
/// `u64`; arithmetic on such values goes through the bit-level helpers in
/// the `float` module. The `Link` variant is a three-slot node (a held
/// value plus two further owned values) for hand-built linked structures.
#[derive(Debug, PartialEq)]
pub enum Calx {
    Nil,
    Bool(bool),
    I64(i64),
    F64(u64),
    Str(String),
    List(Vec<Calx>),
    Link(Box<Calx>, Box<Calx>, Box<Calx>),
}

/// The mathematical model of a runtime value: strings become sequences of
/// characters and lists become sequences of models, so that contracts can
/// state deep structural equality.
pub enum CalxModel {
    Nil,
    Bool(bool),
    I64(i64),
    F64(u64),
    Str(Seq<char>),
    List(Seq<CalxModel>),
    Link(Box<CalxModel>, Box<CalxModel>, Box<CalxModel>),
}

/// The model of a runtime value, defined structurally.
pub open spec fn calx_model(v: Calx) -> CalxModel
    decreases v,
{
    match v {
        Calx::Nil => CalxModel::Nil,
        Calx::Bool(b) => CalxModel::Bool(b),
        Calx::I64(n) => CalxModel::I64(n),
        Calx::F64(bits) => CalxModel::F64(bits),
        Calx::Str(s) => CalxModel::Str(s@),
        Calx::List(xs) => CalxModel::List(models(xs@)),
        Calx::Link(a, b, c) => CalxModel::Link(
            Box::new(calx_model(*a)),
            Box::new(calx_model(*b)),
            Box::new(calx_model(*c)),
        ),
    }
}

/// The models of a sequence of runtime values, element by element.
pub open spec fn models(s: Seq<Calx>) -> Seq<CalxModel>
    decreases s,
{
    if s.len() == 0 {
        Seq::empty()
    } else {
        models(s.drop_last()).push(calx_model(s.last()))
    }
}

/// Appending a value appends its model.
pub proof fn lemma_models_push(s: Seq<Calx>, v: Calx)
    ensures
        models(s.push(v)) == models(s).push(calx_model(v)),
{
    assert(s.push(v).drop_last() =~= s);
    assert(s.push(v).last() == v);
}

/// Taking a prefix of the values takes the same prefix of the models.
pub proof fn lemma_models_take(s: Seq<Calx>, k: int)
    requires
        0 <= k <= s.len(),
    ensures
        models(s.take(k)) == models(s).take(k),
{
    lemma_models_index(s);
    lemma_models_index(s.take(k));
    assert(models(s.take(k)) =~= models(s).take(k));
}

/// Updating one value updates its model and no other.
pub proof fn lemma_models_update(s: Seq<Calx>, i: int, v: Calx)
    requires
        0 <= i < s.len(),
    ensures
        models(s.update(i, v)) == models(s).update(i, calx_model(v)),
{
    lemma_models_index(s);
    lemma_models_index(s.update(i, v));
    assert(models(s.update(i, v)) =~= models(s).update(i, calx_model(v)));
}

/// `models` maps `calx_model` over the sequence, index by index.
pub proof fn lemma_models_index(s: Seq<Calx>)
    ensures
        models(s).len() == s.len(),
        forall|i: int| 0 <= i < s.len() ==> models(s)[i] == calx_model(s[i]),
    decreases s,
{
    if s.len() > 0 {
        lemma_models_index(s.drop_last());
    }
}

impl DeepView for Calx {
    type V = CalxModel;

    open spec fn deep_view(&self) -> CalxModel {
        calx_model(*self)
    }
}

impl CalxModel {
    /// The type tag a model value carries.
    pub open spec fn tag(self) -> CalxType {
        match self {
            CalxModel::Nil => CalxType::Nil,
            CalxModel::Bool(_) => CalxType::Bool,
            CalxModel::I64(_) => CalxType::I64,
            CalxModel::F64(_) => CalxType::F64,
            CalxModel::Str(_) => CalxType::Str,
            CalxModel::List(_) => CalxType::List,
            CalxModel::Link(_, _, _) => CalxType::Link,
        }
    }
}

impl Calx {
    /// The type tag of a runtime value.
    pub fn tag(&self) -> (t: CalxType)
        ensures
            t == self.deep_view().tag(),
    {
        match self {
            Calx::Nil => CalxType::Nil,
            Calx::Bool(_) => CalxType::Bool,
            Calx::I64(_) => CalxType::I64,
            Calx::F64(_) => CalxType::F64,
            Calx::Str(_) => CalxType::Str,
            Calx::List(_) => CalxType::List,
            Calx::Link(_, _, _) => CalxType::Link,
        }
    }

    /// A deep copy: the copy's model is exactly this value's model.
    #[verifier::loop_isolation(false)]
    pub fn duplicate(&self) -> (r: Calx)
        ensures
            r.deep_view() == self.deep_view(),
        decreases self,
    {
        match self {
            Calx::Nil => Calx::Nil,
            Calx::Bool(b) => Calx::Bool(*b),
            Calx::I64(n) => Calx::I64(*n),
            Calx::F64(bits) => Calx::F64(*bits),
            Calx::Str(s) => Calx::Str(s.clone()),
            Calx::List(xs) => {
                let mut ys: Vec<Calx> = Vec::new();
                let mut i: usize = 0;
                while i < xs.len()
                    invariant
                        i <= xs.len(),
                        ys@.len() == i,
                        forall|j: int| 0 <= j < i ==> calx_model(ys@[j]) == calx_model(xs@[j]),
                    decreases xs.len() - i,
                {
                    let y = xs[i].duplicate();
                    ys.push(y);
                    i = i + 1;
                }
                proof {
                    lemma_models_index(ys@);
                    lemma_models_index(xs@);
                    assert(models(ys@) =~= models(xs@));
                }
                Calx::List(ys)
            }
            Calx::Link(a, b, c) => Calx::Link(
                Box::new(a.duplicate()),
                Box::new(b.duplicate()),
                Box::new(c.duplicate()),
            ),
        }
    }
}

} // verus!
