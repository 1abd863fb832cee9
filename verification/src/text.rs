//! Deterministic text rendering of runtime values.
//!
//! A list renders as a parenthesized, space-separated sequence of its
//! rendered elements; the three-slot node renders as a parenthesized
//! `link` form. The decimal rendering of an integer leaf is stated
//! exactly; the float leaf's rendering is computed by the soft-float
//! library on the bit pattern and named, never re-stated.

use vstd::prelude::*;
use rustc_apfloat::Float;

use crate::value::calx_model;
use crate::value::models;
use crate::value::Calx;
use crate::value::CalxModel;

verus! {

/// The character of a single decimal digit.
pub open spec fn digit_char(d: nat) -> char {
    if d == 0 {
        '0'
    } else if d == 1 {
        '1'
    } else if d == 2 {
        '2'
    } else if d == 3 {
        '3'
    } else if d == 4 {
        '4'
    } else if d == 5 {
        '5'
    } else if d == 6 {
        '6'
    } else if d == 7 {
        '7'
    } else if d == 8 {
        '8'
    } else {
        '9'
    }
}

/// The decimal digits of a natural number, most significant first, with no
/// leading zero except for zero itself.
pub open spec fn dec_digits(n: nat) -> Seq<char>
    decreases n,
{
    if n < 10 {
        seq![digit_char(n)]
    } else {
        dec_digits(n / 10).push(digit_char(n % 10))
    }
}

/// The decimal rendering of a 64-bit integer: the digits of its absolute
/// value, preceded by a minus sign when it is negative.
pub open spec fn i64_text(n: i64) -> Seq<char> {
    if n < 0 {
        seq!['-'] + dec_digits((-(n as int)) as nat)
    } else {
        dec_digits(n as nat)
    }
}

/// The decimal rendering of the IEEE-754 double with the given bits.
pub uninterp spec fn f64_text(bits: u64) -> Seq<char>;

/// Relies on i64's `Display` through `ToString::to_string`: the decimal
/// digits of the absolute value, preceded by a minus sign when the value
/// is negative.
#[verifier::external_body]
fn i64_chars(n: i64) -> (r: Vec<char>)
    ensures
        r@ == i64_text(n),
{
    n.to_string().chars().collect()
}

/// Relies on `rustc_apfloat::ieee::Double`'s `Display`: a decimal
/// rendering computed from the bit pattern alone.
#[verifier::external_body]
fn f64_chars(bits: u64) -> (r: Vec<char>)
    ensures
        r@ == f64_text(bits),
{
    format!("{}", rustc_apfloat::ieee::Double::from_bits(bits as u128)).chars().collect()
}

/// Relies on `str::chars`: the characters of the text, in order.
#[verifier::external_body]
fn str_chars(s: &str) -> (r: Vec<char>)
    ensures
        r@ == s@,
{
    s.chars().collect()
}

/// Relies on `String`'s `FromIterator<char>`: the collected characters, in
/// order.
#[verifier::external_body]
fn chars_string(v: &Vec<char>) -> (r: String)
    ensures
        r@ == v@,
{
    v.iter().collect()
}

/// The rendering of a value model.
pub open spec fn text_of(m: CalxModel) -> Seq<char>
    decreases m,
{
    match m {
        CalxModel::Nil => "nil"@,
        CalxModel::Bool(b) => if b {
            "true"@
        } else {
            "false"@
        },
        CalxModel::I64(n) => i64_text(n),
        CalxModel::F64(bits) => f64_text(bits),
        CalxModel::Str(s) => s,
        CalxModel::List(ms) => seq!['('] + texts_of(ms) + seq![')'],
        CalxModel::Link(a, b, c) => "(link "@ + text_of(*a) + " "@ + text_of(*b) + " "@ + text_of(
            *c,
        ) + ")"@,
    }
}

/// The renderings of a sequence of value models, separated by spaces.
pub open spec fn texts_of(ms: Seq<CalxModel>) -> Seq<char>
    decreases ms,
{
    if ms.len() == 0 {
        Seq::empty()
    } else if ms.len() == 1 {
        text_of(ms[0])
    } else {
        texts_of(ms.drop_last()) + seq![' '] + text_of(ms.last())
    }
}

impl Calx {
    /// The characters of this value's rendering.
    #[verifier::loop_isolation(false)]
    pub fn render(&self) -> (out: Vec<char>)
        ensures
            out@ == text_of(calx_model(*self)),
        decreases self,
    {
        match self {
            Calx::Nil => str_chars("nil"),
            Calx::Bool(b) => if *b {
                str_chars("true")
            } else {
                str_chars("false")
            },
            Calx::I64(n) => i64_chars(*n),
            Calx::F64(bits) => f64_chars(*bits),
            Calx::Str(s) => str_chars(s.as_str()),
            Calx::List(xs) => {
                let ghost ms = models(xs@);
                proof {
                    crate::value::lemma_models_index(xs@);
                }
                let mut out: Vec<char> = Vec::new();
                out.push('(');
                let mut i: usize = 0;
                while i < xs.len()
                    invariant
                        i <= xs@.len(),
                        out@ == seq!['('] + texts_of(ms.take(i as int)),
                    decreases xs@.len() - i,
                {
                    if i > 0 {
                        out.push(' ');
                    }
                    let mut sub = xs[i].render();
                    out.append(&mut sub);
                    proof {
                        assert(ms.take(i + 1).drop_last() =~= ms.take(i as int));
                        assert(ms.take(i + 1).last() == calx_model(xs@[i as int]));
                        if i == 0 {
                            assert(texts_of(ms.take(1)) == text_of(ms[0]));
                            assert(out@ =~= seq!['('] + texts_of(ms.take(i + 1)));
                        } else {
                            assert(texts_of(ms.take(i + 1)) == texts_of(ms.take(i as int)) + seq![
                                ' ',
                            ] + text_of(ms[i as int]));
                            assert(out@ =~= seq!['('] + texts_of(ms.take(i + 1)));
                        }
                    }
                    i = i + 1;
                }
                out.push(')');
                proof {
                    assert(ms.take(xs@.len() as int) =~= ms);
                    assert(out@ =~= seq!['('] + texts_of(ms) + seq![')']);
                }
                out
            },
            Calx::Link(a, b, c) => {
                let mut out = str_chars("(link ");
                let mut ra = a.render();
                out.append(&mut ra);
                let mut sp1 = str_chars(" ");
                out.append(&mut sp1);
                let mut rb = b.render();
                out.append(&mut rb);
                let mut sp2 = str_chars(" ");
                out.append(&mut sp2);
                let mut rc = c.render();
                out.append(&mut rc);
                let mut close = str_chars(")");
                out.append(&mut close);
                proof {
                    assert(out@ =~= "(link "@ + text_of(calx_model(**a)) + " "@ + text_of(
                        calx_model(**b),
                    ) + " "@ + text_of(calx_model(**c)) + ")"@);
                }
                out
            },
        }
    }

    /// This value's rendering as text.
    pub fn to_text(&self) -> (r: String)
        ensures
            r@ == text_of(calx_model(*self)),
    {
        let chars = self.render();
        chars_string(&chars)
    }
}

} // verus!
