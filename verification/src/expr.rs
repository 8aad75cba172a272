//! Polynomial expressions over column-at-relative-row queries.
//!
//! An expression is an immutable tree over constants, column queries, sums,
//! products and negations.  Its meaning is a field value under an
//! environment that gives every query a value; the contracts on the
//! identity builders quantify over all environments.

use vstd::prelude::*;
use crate::field::{Fp, fadd, fmul, fneg, modulus};

verus! {

/// Whether a column carries per-row witness values or per-row constants.
#[derive(Clone, Copy, PartialEq, Eq, Structural, Debug)]
pub enum ColumnKind {
    Advice,
    Fixed,
}

/// A handle to a registered column.
#[derive(Clone, Copy, PartialEq, Eq, Structural, Debug)]
pub struct Column {
    pub kind: ColumnKind,
    pub index: usize,
}

/// A column read at a relative row offset.
#[derive(Clone, Copy, PartialEq, Eq, Structural, Debug)]
pub struct ColumnQuery {
    pub column: Column,
    pub rotation: i32,
}

/// A polynomial expression tree.
pub enum Expression {
    Constant(Fp),
    Query(ColumnQuery),
    Sum(Box<Expression>, Box<Expression>),
    Product(Box<Expression>, Box<Expression>),
    Negated(Box<Expression>),
}

impl Expression {
    /// The field value of this expression once every query is given a value
    /// by `env`.  The result is always a canonical representative.
    pub open spec fn eval(self, env: Map<ColumnQuery, int>) -> int
        decreases self,
    {
        match self {
            Expression::Constant(f) => f.as_int() % modulus(),
            Expression::Query(q) => env[q] % modulus(),
            Expression::Sum(a, b) => fadd(a.eval(env), b.eval(env)),
            Expression::Product(a, b) => fmul(a.eval(env), b.eval(env)),
            Expression::Negated(a) => fneg(a.eval(env)),
        }
    }

    /// Holds when the expression contains no column query, so that its value
    /// does not depend on the environment.
    pub open spec fn is_closed(self) -> bool
        decreases self,
    {
        match self {
            Expression::Constant(_) => true,
            Expression::Query(_) => false,
            Expression::Sum(a, b) => a.is_closed() && b.is_closed(),
            Expression::Product(a, b) => a.is_closed() && b.is_closed(),
            Expression::Negated(a) => a.is_closed(),
        }
    }

    /// A constant expression embedding a small integer.
    pub fn constant(c: u64) -> (r: Expression)
        ensures
            forall|env: Map<ColumnQuery, int>| #[trigger] r.eval(env) == c as int % modulus(),
            c < 0xFFFF_FFFF_0000_0001 ==> forall|env: Map<ColumnQuery, int>| #[trigger] r.eval(
                env,
            ) == c as int,
            r.is_closed(),
    {
        proof {
            if c < 0xFFFF_FFFF_0000_0001 {
                vstd::arithmetic::div_mod::lemma_small_mod(c as nat, modulus() as nat);
            }
        }
        Expression::Constant(Fp::from_small(c))
    }

    /// A query expression reading `column` at row offset `rotation`.
    pub fn query(column: Column, rotation: i32) -> (r: Expression)
        ensures
            forall|env: Map<ColumnQuery, int>| #[trigger] r.eval(env) == env[ColumnQuery {
                column,
                rotation,
            }] % modulus(),
    {
        Expression::Query(ColumnQuery { column, rotation })
    }

    /// The sum of two expressions.
    pub fn plus(self, other: Expression) -> (r: Expression)
        ensures
            forall|env: Map<ColumnQuery, int>| #[trigger] r.eval(env) == fadd(
                self.eval(env),
                other.eval(env),
            ),
            r.is_closed() == (self.is_closed() && other.is_closed()),
    {
        Expression::Sum(Box::new(self), Box::new(other))
    }

    /// The product of two expressions.
    pub fn times(self, other: Expression) -> (r: Expression)
        ensures
            forall|env: Map<ColumnQuery, int>| #[trigger] r.eval(env) == fmul(
                self.eval(env),
                other.eval(env),
            ),
            r.is_closed() == (self.is_closed() && other.is_closed()),
    {
        Expression::Product(Box::new(self), Box::new(other))
    }

    /// The negation of an expression.
    pub fn negated(self) -> (r: Expression)
        ensures
            forall|env: Map<ColumnQuery, int>| #[trigger] r.eval(env) == fneg(self.eval(env)),
            r.is_closed() == self.is_closed(),
    {
        Expression::Negated(Box::new(self))
    }

    /// The expression scaled by a small-integer constant.
    pub fn scaled(self, c: u64) -> (r: Expression)
        ensures
            forall|env: Map<ColumnQuery, int>| #[trigger] r.eval(env) == fmul(
                self.eval(env),
                c as int % modulus(),
            ),
            c < 0xFFFF_FFFF_0000_0001 ==> forall|env: Map<ColumnQuery, int>| #[trigger] r.eval(
                env,
            ) == fmul(self.eval(env), c as int),
            r.is_closed() == self.is_closed(),
    {
        proof {
            if c < 0xFFFF_FFFF_0000_0001 {
                vstd::arithmetic::div_mod::lemma_small_mod(c as nat, modulus() as nat);
            }
        }
        let k = Expression::constant(c);
        self.times(k)
    }

    /// A structurally equal copy of this expression.
    pub fn dup(&self) -> (r: Expression)
        ensures
            r == *self,
        decreases *self,
    {
        match self {
            Expression::Constant(f) => Expression::Constant(*f),
            Expression::Query(q) => Expression::Query(*q),
            Expression::Sum(a, b) => Expression::Sum(Box::new(a.dup()), Box::new(b.dup())),
            Expression::Product(a, b) => Expression::Product(Box::new(a.dup()), Box::new(b.dup())),
            Expression::Negated(a) => Expression::Negated(Box::new(a.dup())),
        }
    }

    /// Evaluates a closed expression; the result is its value under every
    /// environment.
    pub fn eval_closed(&self) -> (r: Fp)
        requires
            self.is_closed(),
        ensures
            r.inv(),
            forall|env: Map<ColumnQuery, int>| #[trigger] self.eval(env) == r.as_int(),
        decreases *self,
    {
        match self {
            Expression::Constant(f) => {
                let r = Fp::from_small(f.rep);
                proof {
                    assert forall|env: Map<ColumnQuery, int>| #[trigger] self.eval(env)
                        == r.as_int() by {
                        assert(self.eval(env) == f.as_int() % modulus());
                    }
                }
                r
            },
            Expression::Query(_) => {
                proof {
                    assert(false);
                }
                Fp::zero()
            },
            Expression::Sum(a, b) => {
                let ra = a.eval_closed();
                let rb = b.eval_closed();
                let r = ra.plus(rb);
                proof {
                    assert forall|env: Map<ColumnQuery, int>| #[trigger] self.eval(env)
                        == r.as_int() by {
                        assert(self.eval(env) == fadd(a.eval(env), b.eval(env)));
                    }
                }
                r
            },
            Expression::Product(a, b) => {
                let ra = a.eval_closed();
                let rb = b.eval_closed();
                let r = ra.times(rb);
                proof {
                    assert forall|env: Map<ColumnQuery, int>| #[trigger] self.eval(env)
                        == r.as_int() by {
                        assert(self.eval(env) == fmul(a.eval(env), b.eval(env)));
                    }
                }
                r
            },
            Expression::Negated(a) => {
                let ra = a.eval_closed();
                let r = ra.negate();
                proof {
                    assert forall|env: Map<ColumnQuery, int>| #[trigger] self.eval(env)
                        == r.as_int() by {
                        assert(self.eval(env) == fneg(a.eval(env)));
                    }
                }
                r
            },
        }
    }
}

} // verus!
