use vstd::prelude::*;
use vstd::arithmetic::div_mod::lemma_fundamental_div_mod;
use vstd::string::StringExecFns;
use vstd::string::StrSliceExecFns;
use crate::ast::{AST, SpecAST, sp_ast_eq, ast_equals, view_names, view_ast_seq, lemma_view_ast_seq};
use crate::errors::{Error, SpecError};
use crate::lexer::{OpKind, sp_classify_op, classify_op};
use crate::environment::{Environment, sp_env_lookup};

verus! {

/// Resolves a value one last time before an operator consumes it: a value
/// that is still a variable reference is looked up (failing fatally when
/// unbound); anything else stands for itself.
pub open spec fn sp_lookup_value(env: Seq<Map<Seq<char>, SpecAST>>, v: SpecAST) -> Result<
    SpecAST,
    SpecError,
> {
    match v {
        SpecAST::Variable(name) => match sp_env_lookup(env, name) {
            Some(x) => Ok(x),
            None => Err(SpecError::UndefinedVariable(name)),
        },
        _ => Ok(v),
    }
}

/// `s` repeated `n` times.
pub open spec fn sp_repeat(s: Seq<char>, n: nat) -> Seq<char>
    decreases n,
{
    if n == 0 {
        Seq::empty()
    } else {
        sp_repeat(s, (n - 1) as nat) + s
    }
}

pub open spec fn sp_abs(a: int) -> int {
    if a < 0 {
        -a
    } else {
        a
    }
}

/// Integer division truncating toward zero, as the number type divides.
pub open spec fn sp_div_trunc(a: int, b: int) -> int {
    if (a < 0) == (b < 0) {
        sp_abs(a) / sp_abs(b)
    } else {
        -(sp_abs(a) / sp_abs(b))
    }
}

/// The remainder matching [`sp_div_trunc`]: it carries the dividend's sign.
pub open spec fn sp_rem_trunc(a: int, b: int) -> int {
    a - b * sp_div_trunc(a, b)
}

/// The truncating remainder is the remainder of the magnitudes, negated for
/// a negative dividend.
proof fn lemma_trunc_rem(a: int, b: int)
    requires
        b != 0,
    ensures
        sp_rem_trunc(a, b) == if a < 0 {
            -(sp_abs(a) % sp_abs(b))
        } else {
            sp_abs(a) % sp_abs(b)
        },
{
    let ua = sp_abs(a);
    let ub = sp_abs(b);
    let q0 = ua / ub;
    lemma_fundamental_div_mod(ua, ub);
    if a >= 0 && b > 0 {
        assert(sp_rem_trunc(a, b) == ua - ub * q0);
    } else if a >= 0 && b < 0 {
        assert(b * sp_div_trunc(a, b) == (-ub) * (-q0));
        assert((-ub) * (-q0) == ub * q0) by (nonlinear_arith);
    } else if a < 0 && b > 0 {
        assert(b * sp_div_trunc(a, b) == ub * (-q0));
        assert(ub * (-q0) == -(ub * q0)) by (nonlinear_arith);
    } else {
        assert(b * sp_div_trunc(a, b) == (-ub) * q0);
        assert((-ub) * q0 == -(ub * q0)) by (nonlinear_arith);
    }
}

/// The magnitude of `a`, exactly.
fn abs_u64(a: i64) -> (r: u64)
    ensures
        r as int == sp_abs(a as int),
{
    if a >= 0 {
        a as u64
    } else {
        (-(a as i128)) as u64
    }
}

/// Division truncating toward zero; the one unrepresentable quotient is
/// ruled out by the caller.
fn div_trunc(a: i64, b: i64) -> (q: i64)
    requires
        b != 0,
        !(a == i64::MIN && b == -1),
    ensures
        q as int == sp_div_trunc(a as int, b as int),
{
    let ua = abs_u64(a);
    let ub = abs_u64(b);
    let uq: u64 = ua / ub;
    proof {
        lemma_fundamental_div_mod(ua as int, ub as int);
        assert(uq as int <= (ub as int) * (uq as int)) by (nonlinear_arith)
            requires
                ub >= 1,
                uq >= 0,
        ;
        assert(uq <= ua);
        if ua == 0x8000_0000_0000_0000u64 && ub >= 2 {
            assert((ub as int) * (uq as int) >= 2 * (uq as int)) by (nonlinear_arith)
                requires
                    ub >= 2,
                    uq >= 0,
            ;
            assert(uq <= 0x4000_0000_0000_0000u64);
        }
    }
    if (a < 0) != (b < 0) {
        if uq == 0x8000_0000_0000_0000u64 {
            i64::MIN
        } else {
            -(uq as i64)
        }
    } else {
        uq as i64
    }
}

/// Remainder truncating toward zero (sign of the dividend). Defined for
/// every non-zero divisor: even the dividend `i64::MIN` with divisor `-1`
/// has remainder zero.
fn rem_trunc(a: i64, b: i64) -> (r: i64)
    requires
        b != 0,
    ensures
        r as int == sp_rem_trunc(a as int, b as int),
{
    let ua = abs_u64(a);
    let ub = abs_u64(b);
    let ur: u64 = ua % ub;
    proof {
        lemma_trunc_rem(a as int, b as int);
        lemma_fundamental_div_mod(ua as int, ub as int);
    }
    if a < 0 {
        -(ur as i64)
    } else {
        ur as i64
    }
}

/// `s` repeated `n` times, built by appending.
#[verifier::loop_isolation(false)]
fn repeat_str(s: &String, n: u64) -> (r: String)
    ensures
        r@ == sp_repeat(s@, n as nat),
{
    let mut r = String::new();
    let mut i: u64 = 0;
    while i < n
        invariant
            i <= n,
            r@ == sp_repeat(s@, i as nat),
        decreases n - i,
    {
        r.append(s.as_str());
        i = i + 1;
    }
    r
}

/// What a binary operator yields on two resolved operand values (every
/// operator except the short-circuiting `||` and `&&`, which resolve their
/// right operand only when it is reached).
pub open spec fn sp_apply_resolved(op: OpKind, lv: SpecAST, rv: SpecAST) -> Result<
    SpecAST,
    SpecError,
> {
    match op {
        OpKind::Add => match (lv, rv) {
            (SpecAST::Number(a), SpecAST::Number(b)) => if i64::MIN <= a + b <= i64::MAX {
                Ok(SpecAST::Number(a + b))
            } else {
                Err(SpecError::Overflow)
            },
            (SpecAST::StringLit(a), SpecAST::StringLit(b)) => Ok(SpecAST::StringLit(a + b)),
            _ => Err(SpecError::TypeMismatch),
        },
        OpKind::Sub => match (lv, rv) {
            (SpecAST::Number(a), SpecAST::Number(b)) => if i64::MIN <= a - b <= i64::MAX {
                Ok(SpecAST::Number(a - b))
            } else {
                Err(SpecError::Overflow)
            },
            _ => Err(SpecError::TypeMismatch),
        },
        OpKind::Mul => match (lv, rv) {
            (SpecAST::Number(a), SpecAST::Number(b)) => if i64::MIN <= a * b <= i64::MAX {
                Ok(SpecAST::Number(a * b))
            } else {
                Err(SpecError::Overflow)
            },
            (SpecAST::StringLit(a), SpecAST::Number(b)) => if b < 0 {
                Err(SpecError::NegativeRepeat)
            } else if a.len() * b > u64::MAX {
                Err(SpecError::Overflow)
            } else {
                Ok(SpecAST::StringLit(sp_repeat(a, b as nat)))
            },
            _ => Err(SpecError::TypeMismatch),
        },
        OpKind::Div => match (lv, rv) {
            (SpecAST::Number(a), SpecAST::Number(b)) => if b == 0 {
                Err(SpecError::DivisionByZero)
            } else if a == i64::MIN && b == -1 {
                Err(SpecError::Overflow)
            } else {
                Ok(SpecAST::Number(sp_div_trunc(a, b)))
            },
            _ => Err(SpecError::TypeMismatch),
        },
        OpKind::Mod => match (lv, rv) {
            (SpecAST::Number(a), SpecAST::Number(b)) => if b == 0 {
                Err(SpecError::DivisionByZero)
            } else {
                Ok(SpecAST::Number(sp_rem_trunc(a, b)))
            },
            _ => Err(SpecError::TypeMismatch),
        },
        OpKind::EqEq => Ok(SpecAST::Boolean(sp_ast_eq(lv, rv))),
        OpKind::Lt => match (lv, rv) {
            (SpecAST::Number(a), SpecAST::Number(b)) => Ok(SpecAST::Boolean(a < b)),
            _ => Err(SpecError::TypeMismatch),
        },
        OpKind::Gt => match (lv, rv) {
            (SpecAST::Number(a), SpecAST::Number(b)) => Ok(SpecAST::Boolean(a > b)),
            _ => Err(SpecError::TypeMismatch),
        },
        OpKind::Le => match (lv, rv) {
            (SpecAST::Number(a), SpecAST::Number(b)) => Ok(SpecAST::Boolean(a <= b)),
            _ => Err(SpecError::TypeMismatch),
        },
        OpKind::Ge => match (lv, rv) {
            (SpecAST::Number(a), SpecAST::Number(b)) => Ok(SpecAST::Boolean(a >= b)),
            _ => Err(SpecError::TypeMismatch),
        },
        _ => Err(SpecError::UnknownOperator),
    }
}

/// What a binary operator yields on two evaluated operands, resolving
/// variable references against `env` as it goes. `||` yields true on a true
/// left operand without even resolving the right one, and `&&` yields false
/// on a false left operand likewise; in every other case both operands are
/// resolved, left first.
pub open spec fn sp_apply_binary(
    env: Seq<Map<Seq<char>, SpecAST>>,
    op: OpKind,
    l: SpecAST,
    r: SpecAST,
) -> Result<SpecAST, SpecError> {
    match op {
        OpKind::Or => match sp_lookup_value(env, l) {
            Err(e) => Err(e),
            Ok(lv) => match lv {
                SpecAST::Boolean(true) => Ok(SpecAST::Boolean(true)),
                SpecAST::Boolean(false) => match sp_lookup_value(env, r) {
                    Err(e) => Err(e),
                    Ok(rv) => match rv {
                        SpecAST::Boolean(b) => Ok(SpecAST::Boolean(b)),
                        _ => Err(SpecError::TypeMismatch),
                    },
                },
                _ => Err(SpecError::TypeMismatch),
            },
        },
        OpKind::And => match sp_lookup_value(env, l) {
            Err(e) => Err(e),
            Ok(lv) => match lv {
                SpecAST::Boolean(false) => Ok(SpecAST::Boolean(false)),
                SpecAST::Boolean(true) => match sp_lookup_value(env, r) {
                    Err(e) => Err(e),
                    Ok(rv) => match rv {
                        SpecAST::Boolean(b) => Ok(SpecAST::Boolean(b)),
                        _ => Err(SpecError::TypeMismatch),
                    },
                },
                _ => Err(SpecError::TypeMismatch),
            },
        },
        OpKind::Assign => Err(SpecError::UnknownOperator),
        OpKind::NotEq => Err(SpecError::UnknownOperator),
        OpKind::Unknown => Err(SpecError::UnknownOperator),
        _ => match sp_lookup_value(env, l) {
            Err(e) => Err(e),
            Ok(lv) => match sp_lookup_value(env, r) {
                Err(e) => Err(e),
                Ok(rv) => sp_apply_resolved(op, lv, rv),
            },
        },
    }
}

/// Resolves an evaluated operand: a variable reference is looked up in the
/// scope chain (unbound is fatal), any other value stands for itself.
pub fn lookup_or_self(ast: &AST, env: &Environment) -> (r: Result<AST, Error>)
    ensures
        match sp_lookup_value(env@, ast@) {
            Ok(v) => r matches Ok(rv) && rv@ == v,
            Err(e) => r matches Err(re) && re@ == e,
        },
{
    match ast {
        AST::Variable(name) => match env.get(name) {
            Some(v) => Ok(v),
            None => Err(Error::UndefinedVariable(name.clone())),
        },
        _ => Ok(ast.duplicate()),
    }
}

/// How each binary helper's result must relate to the operator's
/// specification.
pub open spec fn binary_matches(
    env: Seq<Map<Seq<char>, SpecAST>>,
    op: OpKind,
    l: SpecAST,
    r: SpecAST,
    res: Result<AST, Error>,
) -> bool {
    match sp_apply_binary(env, op, l, r) {
        Ok(v) => res matches Ok(rv) && rv@ == v,
        Err(e) => res matches Err(re) && re@ == e,
    }
}

/// `+`: adds two numbers, or concatenates two strings.
pub fn add(left: AST, right: AST, env: &Environment) -> (res: Result<AST, Error>)
    ensures
        binary_matches(env@, OpKind::Add, left@, right@, res),
{
    let l = match lookup_or_self(&left, env) {
        Ok(v) => v,
        Err(e) => return Err(e),
    };
    let r = match lookup_or_self(&right, env) {
        Ok(v) => v,
        Err(e) => return Err(e),
    };
    match (l, r) {
        (AST::Number(a), AST::Number(b)) => match a.checked_add(b) {
            Some(v) => Ok(AST::Number(v)),
            None => Err(Error::Overflow),
        },
        (AST::String_(a), AST::String_(b)) => Ok(AST::String_(a.concat(b.as_str()))),
        _ => Err(Error::TypeMismatch),
    }
}

/// `-`: subtracts two numbers.
pub fn subtract(left: AST, right: AST, env: &Environment) -> (res: Result<AST, Error>)
    ensures
        binary_matches(env@, OpKind::Sub, left@, right@, res),
{
    let l = match lookup_or_self(&left, env) {
        Ok(v) => v,
        Err(e) => return Err(e),
    };
    let r = match lookup_or_self(&right, env) {
        Ok(v) => v,
        Err(e) => return Err(e),
    };
    match (l, r) {
        (AST::Number(a), AST::Number(b)) => match a.checked_sub(b) {
            Some(v) => Ok(AST::Number(v)),
            None => Err(Error::Overflow),
        },
        _ => Err(Error::TypeMismatch),
    }
}

/// `*`: multiplies two numbers, or repeats a string a non-negative number
/// of times.
pub fn multiply(left: AST, right: AST, env: &Environment) -> (res: Result<AST, Error>)
    ensures
        binary_matches(env@, OpKind::Mul, left@, right@, res),
{
    let l = match lookup_or_self(&left, env) {
        Ok(v) => v,
        Err(e) => return Err(e),
    };
    let r = match lookup_or_self(&right, env) {
        Ok(v) => v,
        Err(e) => return Err(e),
    };
    match (l, r) {
        (AST::Number(a), AST::Number(b)) => match a.checked_mul(b) {
            Some(v) => Ok(AST::Number(v)),
            None => Err(Error::Overflow),
        },
        (AST::String_(a), AST::Number(b)) => {
            if b < 0 {
                Err(Error::NegativeRepeat)
            } else {
                let len = a.as_str().unicode_len();
                match (len as u64).checked_mul(b as u64) {
                    None => Err(Error::Overflow),
                    Some(_) => Ok(AST::String_(repeat_str(&a, b as u64))),
                }
            }
        },
        _ => Err(Error::TypeMismatch),
    }
}

/// `/`: divides two numbers, truncating toward zero.
pub fn divide(left: AST, right: AST, env: &Environment) -> (res: Result<AST, Error>)
    ensures
        binary_matches(env@, OpKind::Div, left@, right@, res),
{
    let l = match lookup_or_self(&left, env) {
        Ok(v) => v,
        Err(e) => return Err(e),
    };
    let r = match lookup_or_self(&right, env) {
        Ok(v) => v,
        Err(e) => return Err(e),
    };
    match (l, r) {
        (AST::Number(a), AST::Number(b)) => {
            if b == 0 {
                Err(Error::DivisionByZero)
            } else if a == i64::MIN && b == -1 {
                Err(Error::Overflow)
            } else {
                Ok(AST::Number(div_trunc(a, b)))
            }
        },
        _ => Err(Error::TypeMismatch),
    }
}

/// `%`: the remainder of two numbers, with the dividend's sign.
pub fn modulus(left: AST, right: AST, env: &Environment) -> (res: Result<AST, Error>)
    ensures
        binary_matches(env@, OpKind::Mod, left@, right@, res),
{
    let l = match lookup_or_self(&left, env) {
        Ok(v) => v,
        Err(e) => return Err(e),
    };
    let r = match lookup_or_self(&right, env) {
        Ok(v) => v,
        Err(e) => return Err(e),
    };
    match (l, r) {
        (AST::Number(a), AST::Number(b)) => {
            if b == 0 {
                Err(Error::DivisionByZero)
            } else {
                Ok(AST::Number(rem_trunc(a, b)))
            }
        },
        _ => Err(Error::TypeMismatch),
    }
}

/// `||`: boolean disjunction; a true left operand decides without the right
/// operand even being resolved.
pub fn or(left: AST, right: AST, env: &Environment) -> (res: Result<AST, Error>)
    ensures
        binary_matches(env@, OpKind::Or, left@, right@, res),
{
    let l = match lookup_or_self(&left, env) {
        Ok(v) => v,
        Err(e) => return Err(e),
    };
    match l {
        AST::Boolean(b) => {
            if b {
                Ok(AST::Boolean(true))
            } else {
                let r = match lookup_or_self(&right, env) {
                    Ok(v) => v,
                    Err(e) => return Err(e),
                };
                match r {
                    AST::Boolean(b2) => Ok(AST::Boolean(b2)),
                    _ => Err(Error::TypeMismatch),
                }
            }
        },
        _ => Err(Error::TypeMismatch),
    }
}

/// `&&`: boolean conjunction; a false left operand decides without the
/// right operand even being resolved.
pub fn and(left: AST, right: AST, env: &Environment) -> (res: Result<AST, Error>)
    ensures
        binary_matches(env@, OpKind::And, left@, right@, res),
{
    let l = match lookup_or_self(&left, env) {
        Ok(v) => v,
        Err(e) => return Err(e),
    };
    match l {
        AST::Boolean(b) => {
            if !b {
                Ok(AST::Boolean(false))
            } else {
                let r = match lookup_or_self(&right, env) {
                    Ok(v) => v,
                    Err(e) => return Err(e),
                };
                match r {
                    AST::Boolean(b2) => Ok(AST::Boolean(b2)),
                    _ => Err(Error::TypeMismatch),
                }
            }
        },
        _ => Err(Error::TypeMismatch),
    }
}

/// `==`: structural equality across any two values; values of different
/// kinds are simply unequal, never an error.
pub fn equals(left: AST, right: AST, env: &Environment) -> (res: Result<AST, Error>)
    ensures
        binary_matches(env@, OpKind::EqEq, left@, right@, res),
{
    let l = match lookup_or_self(&left, env) {
        Ok(v) => v,
        Err(e) => return Err(e),
    };
    let r = match lookup_or_self(&right, env) {
        Ok(v) => v,
        Err(e) => return Err(e),
    };
    Ok(AST::Boolean(ast_equals(&l, &r)))
}

/// `<` on two numbers.
pub fn less_than(left: AST, right: AST, env: &Environment) -> (res: Result<AST, Error>)
    ensures
        binary_matches(env@, OpKind::Lt, left@, right@, res),
{
    let l = match lookup_or_self(&left, env) {
        Ok(v) => v,
        Err(e) => return Err(e),
    };
    let r = match lookup_or_self(&right, env) {
        Ok(v) => v,
        Err(e) => return Err(e),
    };
    match (l, r) {
        (AST::Number(a), AST::Number(b)) => Ok(AST::Boolean(a < b)),
        _ => Err(Error::TypeMismatch),
    }
}

/// `<=` on two numbers.
pub fn less_than_or_equals(left: AST, right: AST, env: &Environment) -> (res: Result<AST, Error>)
    ensures
        binary_matches(env@, OpKind::Le, left@, right@, res),
{
    let l = match lookup_or_self(&left, env) {
        Ok(v) => v,
        Err(e) => return Err(e),
    };
    let r = match lookup_or_self(&right, env) {
        Ok(v) => v,
        Err(e) => return Err(e),
    };
    match (l, r) {
        (AST::Number(a), AST::Number(b)) => Ok(AST::Boolean(a <= b)),
        _ => Err(Error::TypeMismatch),
    }
}

/// `>` on two numbers.
pub fn greater_than(left: AST, right: AST, env: &Environment) -> (res: Result<AST, Error>)
    ensures
        binary_matches(env@, OpKind::Gt, left@, right@, res),
{
    let l = match lookup_or_self(&left, env) {
        Ok(v) => v,
        Err(e) => return Err(e),
    };
    let r = match lookup_or_self(&right, env) {
        Ok(v) => v,
        Err(e) => return Err(e),
    };
    match (l, r) {
        (AST::Number(a), AST::Number(b)) => Ok(AST::Boolean(a > b)),
        _ => Err(Error::TypeMismatch),
    }
}

/// `>=` on two numbers.
pub fn greater_than_or_equals(left: AST, right: AST, env: &Environment) -> (res: Result<
    AST,
    Error,
>)
    ensures
        binary_matches(env@, OpKind::Ge, left@, right@, res),
{
    let l = match lookup_or_self(&left, env) {
        Ok(v) => v,
        Err(e) => return Err(e),
    };
    let r = match lookup_or_self(&right, env) {
        Ok(v) => v,
        Err(e) => return Err(e),
    };
    match (l, r) {
        (AST::Number(a), AST::Number(b)) => Ok(AST::Boolean(a >= b)),
        _ => Err(Error::TypeMismatch),
    }
}


// ---------------------------------------------------------------------------
// The specification interpreter.
// ---------------------------------------------------------------------------

/// How one evaluation ends.
pub ghost enum Outcome {
    /// A value was produced.
    Val(SpecAST),
    /// The node is a statement and produced no value.
    NoVal,
    /// A fatal error aborted the run.
    Fail(SpecError),
    /// A native (host-supplied) function was reached: from here on the
    /// result depends on the host and nothing further is claimed.
    Native,
}

/// One evaluation's end and the scope chain it leaves behind.
pub ghost struct EvalStep {
    pub outcome: Outcome,
    pub env: Seq<Map<Seq<char>, SpecAST>>,
}

/// How evaluating the arguments of a native call ends: on success, the
/// evaluated values in order (arguments that produced no value are skipped).
pub ghost enum ArgsOut {
    Done(Seq<SpecAST>),
    Fail(SpecError),
    Native,
}

pub ghost struct ArgsStep {
    pub res: ArgsOut,
    pub env: Seq<Map<Seq<char>, SpecAST>>,
}

/// How evaluating a user call's parameter values ends.
pub ghost enum ParamsOut {
    Vals(Seq<SpecAST>),
    Fail(SpecError),
    Native,
}

pub ghost struct ParamsStep {
    pub res: ParamsOut,
    pub env: Seq<Map<Seq<char>, SpecAST>>,
}

/// The activation frame of a call: each parameter bound in order to its
/// value (a duplicated name keeps the later binding).
pub open spec fn sp_bind(params: Seq<Seq<char>>, vals: Seq<SpecAST>) -> Map<Seq<char>, SpecAST>
    decreases params,
{
    if params.len() == 0 {
        Map::empty()
    } else {
        sp_bind(params.drop_last(), vals.drop_last()).insert(
            params.last(),
            vals[params.len() - 1],
        )
    }
}

/// The specification evaluator. `fuel` bounds the depth of nested
/// evaluations; exhausting it is the fatal recursion-limit error. Every
/// transient scope (the right side of an assignment, an `if` condition or
/// branch, each binary operand, each call argument) is evaluated in a fresh
/// innermost frame that is discarded afterwards; a `Program` runs its
/// statements directly in the caller's frame, so bindings made by one
/// statement stay visible to the later ones.
pub open spec fn sp_eval(node: SpecAST, env: Seq<Map<Seq<char>, SpecAST>>, fuel: nat) -> EvalStep
    decreases fuel, 1int, 0int,
{
    if fuel == 0 {
        EvalStep { outcome: Outcome::Fail(SpecError::RecursionLimit), env }
    } else {
        match node {
            SpecAST::Number(n) => EvalStep { outcome: Outcome::Val(SpecAST::Number(n)), env },
            SpecAST::StringLit(s) => EvalStep {
                outcome: Outcome::Val(SpecAST::StringLit(s)),
                env,
            },
            SpecAST::Boolean(b) => EvalStep { outcome: Outcome::Val(SpecAST::Boolean(b)), env },
            SpecAST::Function { parameters, body, native } => EvalStep {
                outcome: Outcome::Val(SpecAST::Function { parameters, body, native }),
                env,
            },
            SpecAST::Variable(name) => match sp_env_lookup(env, name) {
                Some(v) => EvalStep { outcome: Outcome::Val(v), env },
                None => EvalStep {
                    outcome: Outcome::Fail(SpecError::UndefinedVariable(name)),
                    env,
                },
            },
            SpecAST::Program(stmts) => {
                let st = sp_eval_stmts(stmts, env, fuel);
                match st.outcome {
                    Outcome::Fail(e) => st,
                    Outcome::Native => st,
                    _ => EvalStep { outcome: Outcome::NoVal, env: st.env },
                }
            },
            SpecAST::Assign { operator, left, right } => match *left {
                SpecAST::Variable(name) => {
                    let st = sp_eval(
                        *right,
                        env.push(Map::empty()),
                        (fuel - 1) as nat,
                    );
                    match st.outcome {
                        Outcome::Fail(e) => st,
                        Outcome::Native => st,
                        Outcome::Val(v) => {
                            let env1 = st.env.drop_last();
                            EvalStep {
                                outcome: Outcome::NoVal,
                                env: env1.update(
                                    env1.len() - 1,
                                    env1.last().insert(name, v),
                                ),
                            }
                        },
                        Outcome::NoVal => EvalStep {
                            outcome: Outcome::NoVal,
                            env: st.env.drop_last(),
                        },
                    }
                },
                _ => EvalStep { outcome: Outcome::Fail(SpecError::AssignToNonVariable), env },
            },
            SpecAST::Call { function, arguments } => match *function {
                SpecAST::Variable(name) => match sp_env_lookup(env, name) {
                    None => EvalStep {
                        outcome: Outcome::Fail(SpecError::UndefinedVariable(name)),
                        env,
                    },
                    Some(f) => match f {
                        SpecAST::Function { parameters, body, native } => if native is Some {
                            let ar = sp_eval_args_native(arguments, env, fuel);
                            match ar.res {
                                ArgsOut::Fail(e) => EvalStep {
                                    outcome: Outcome::Fail(e),
                                    env: ar.env,
                                },
                                _ => EvalStep { outcome: Outcome::Native, env: ar.env },
                            }
                        } else {
                            let pr = sp_eval_params(parameters, arguments, env, fuel);
                            match pr.res {
                                ParamsOut::Fail(e) => EvalStep {
                                    outcome: Outcome::Fail(e),
                                    env: pr.env,
                                },
                                ParamsOut::Native => EvalStep {
                                    outcome: Outcome::Native,
                                    env: pr.env,
                                },
                                ParamsOut::Vals(vals) => {
                                    let st = sp_eval(
                                        *body,
                                        pr.env.push(sp_bind(parameters, vals)),
                                        (fuel - 1) as nat,
                                    );
                                    match st.outcome {
                                        Outcome::Fail(e) => st,
                                        Outcome::Native => st,
                                        _ => EvalStep {
                                            outcome: st.outcome,
                                            env: st.env.drop_last(),
                                        },
                                    }
                                },
                            }
                        },
                        _ => EvalStep { outcome: Outcome::Fail(SpecError::NotAFunction), env },
                    },
                },
                _ => EvalStep { outcome: Outcome::Fail(SpecError::NotAFunction), env },
            },
            SpecAST::If { condition, then_branch, otherwise } => {
                let st = sp_eval(*condition, env.push(Map::empty()), (fuel - 1) as nat);
                match st.outcome {
                    Outcome::Fail(e) => st,
                    Outcome::Native => st,
                    Outcome::Val(cv) => match cv {
                        SpecAST::Boolean(b) => {
                            let env1 = st.env.drop_last();
                            if b {
                                let st2 = sp_eval(
                                    *then_branch,
                                    env1.push(Map::empty()),
                                    (fuel - 1) as nat,
                                );
                                match st2.outcome {
                                    Outcome::Fail(e) => st2,
                                    Outcome::Native => st2,
                                    _ => EvalStep {
                                        outcome: st2.outcome,
                                        env: st2.env.drop_last(),
                                    },
                                }
                            } else {
                                match otherwise {
                                    Some(other) => {
                                        let st2 = sp_eval(
                                            *other,
                                            env1.push(Map::empty()),
                                            (fuel - 1) as nat,
                                        );
                                        match st2.outcome {
                                            Outcome::Fail(e) => st2,
                                            Outcome::Native => st2,
                                            _ => EvalStep {
                                                outcome: st2.outcome,
                                                env: st2.env.drop_last(),
                                            },
                                        }
                                    },
                                    None => EvalStep {
                                        outcome: Outcome::Val(SpecAST::Boolean(false)),
                                        env: env1,
                                    },
                                }
                            }
                        },
                        _ => EvalStep {
                            outcome: Outcome::Fail(SpecError::ConditionNotBoolean),
                            env: st.env.drop_last(),
                        },
                    },
                    Outcome::NoVal => EvalStep {
                        outcome: Outcome::Fail(SpecError::ConditionNotBoolean),
                        env: st.env.drop_last(),
                    },
                }
            },
            SpecAST::Binary { operator, left, right } => {
                let st1 = sp_eval(*left, env.push(Map::empty()), (fuel - 1) as nat);
                match st1.outcome {
                    Outcome::Fail(e) => st1,
                    Outcome::Native => st1,
                    Outcome::NoVal => EvalStep {
                        outcome: Outcome::Fail(SpecError::MissingOperandValue),
                        env: st1.env.drop_last(),
                    },
                    Outcome::Val(lv) => {
                        let env1 = st1.env.drop_last();
                        let st2 = sp_eval(*right, env1.push(Map::empty()), (fuel - 1) as nat);
                        match st2.outcome {
                            Outcome::Fail(e) => st2,
                            Outcome::Native => st2,
                            Outcome::NoVal => EvalStep {
                                outcome: Outcome::Fail(SpecError::MissingOperandValue),
                                env: st2.env.drop_last(),
                            },
                            Outcome::Val(rv) => {
                                let env2 = st2.env.drop_last();
                                match sp_apply_binary(env2, sp_classify_op(operator), lv, rv) {
                                    Ok(v) => EvalStep { outcome: Outcome::Val(v), env: env2 },
                                    Err(e) => EvalStep { outcome: Outcome::Fail(e), env: env2 },
                                }
                            },
                        }
                    },
                }
            },
        }
    }
}

/// Evaluates statements in order, directly in the caller's scope chain,
/// discarding their values. Statements produce no value overall.
pub open spec fn sp_eval_stmts(
    stmts: Seq<SpecAST>,
    env: Seq<Map<Seq<char>, SpecAST>>,
    fuel: nat,
) -> EvalStep
    decreases fuel, 0int, stmts.len(),
{
    if fuel == 0 {
        EvalStep { outcome: Outcome::Fail(SpecError::RecursionLimit), env }
    } else if stmts.len() == 0 {
        EvalStep { outcome: Outcome::NoVal, env }
    } else {
        let st = sp_eval(stmts[0], env, (fuel - 1) as nat);
        match st.outcome {
            Outcome::Fail(e) => st,
            Outcome::Native => st,
            _ => sp_eval_stmts(stmts.drop_first(), st.env, fuel),
        }
    }
}

/// Evaluates a native call's arguments in order, directly in the calling
/// scope (an argument that produces no value is skipped).
pub open spec fn sp_eval_args_native(
    args: Seq<SpecAST>,
    env: Seq<Map<Seq<char>, SpecAST>>,
    fuel: nat,
) -> ArgsStep
    decreases fuel, 0int, args.len(),
{
    if fuel == 0 {
        ArgsStep { res: ArgsOut::Fail(SpecError::RecursionLimit), env }
    } else if args.len() == 0 {
        ArgsStep { res: ArgsOut::Done(Seq::empty()), env }
    } else {
        let st = sp_eval(args[0], env, (fuel - 1) as nat);
        match st.outcome {
            Outcome::Fail(e) => ArgsStep { res: ArgsOut::Fail(e), env: st.env },
            Outcome::Native => ArgsStep { res: ArgsOut::Native, env: st.env },
            Outcome::Val(v) => {
                let rest = sp_eval_args_native(args.drop_first(), st.env, fuel);
                match rest.res {
                    ArgsOut::Done(vs) => ArgsStep {
                        res: ArgsOut::Done(seq![v] + vs),
                        env: rest.env,
                    },
                    _ => rest,
                }
            },
            Outcome::NoVal => sp_eval_args_native(args.drop_first(), st.env, fuel),
        }
    }
}

/// The values a user call binds its parameters to, in order: an argument is
/// evaluated in a transient child of the calling scope; a missing argument,
/// or one producing no value, binds false; arguments beyond the parameter
/// list are never evaluated at all.
pub open spec fn sp_eval_params(
    params: Seq<Seq<char>>,
    args: Seq<SpecAST>,
    env: Seq<Map<Seq<char>, SpecAST>>,
    fuel: nat,
) -> ParamsStep
    decreases fuel, 0int, params.len(),
{
    if fuel == 0 {
        ParamsStep { res: ParamsOut::Fail(SpecError::RecursionLimit), env }
    } else if params.len() == 0 {
        ParamsStep { res: ParamsOut::Vals(Seq::empty()), env }
    } else if args.len() == 0 {
        let rest = sp_eval_params(params.drop_first(), args, env, fuel);
        match rest.res {
            ParamsOut::Vals(vs) => ParamsStep {
                res: ParamsOut::Vals(seq![SpecAST::Boolean(false)] + vs),
                env: rest.env,
            },
            _ => rest,
        }
    } else {
        let st = sp_eval(args[0], env.push(Map::empty()), (fuel - 1) as nat);
        match st.outcome {
            Outcome::Fail(e) => ParamsStep { res: ParamsOut::Fail(e), env: st.env },
            Outcome::Native => ParamsStep { res: ParamsOut::Native, env: st.env },
            Outcome::Val(v) => {
                let rest = sp_eval_params(
                    params.drop_first(),
                    args.drop_first(),
                    st.env.drop_last(),
                    fuel,
                );
                match rest.res {
                    ParamsOut::Vals(vs) => ParamsStep {
                        res: ParamsOut::Vals(seq![v] + vs),
                        env: rest.env,
                    },
                    _ => rest,
                }
            },
            Outcome::NoVal => {
                let rest = sp_eval_params(
                    params.drop_first(),
                    args.drop_first(),
                    st.env.drop_last(),
                    fuel,
                );
                match rest.res {
                    ParamsOut::Vals(vs) => ParamsStep {
                        res: ParamsOut::Vals(seq![SpecAST::Boolean(false)] + vs),
                        env: rest.env,
                    },
                    _ => rest,
                }
            },
        }
    }
}


// ---------------------------------------------------------------------------
// The executable evaluator.
// ---------------------------------------------------------------------------

/// The host's side of a native call: `name` is the tag carried by the
/// `Function` value, `args` are the already-evaluated argument values in
/// order. The host returns the call's result value, or an error that aborts
/// the run. Nothing is specified of a host's behaviour: evaluation results
/// that pass through a native call are outside every contract here.
pub trait NativeHost {
    fn call(&mut self, name: &String, args: Vec<AST>) -> Result<AST, Error>;
}

/// A host with no native functions at all; calling any native through it is
/// a fatal error.
pub struct NoNatives;

impl NativeHost for NoNatives {
    fn call(&mut self, name: &String, args: Vec<AST>) -> Result<AST, Error> {
        Err(Error::HostFailure)
    }
}

/// The scope chain keeps its length and every frame below the top (frames an
/// evaluation opened for itself are closed again before it returns).
pub open spec fn frames_kept(
    env0: Seq<Map<Seq<char>, SpecAST>>,
    env1: Seq<Map<Seq<char>, SpecAST>>,
) -> bool {
    env1.len() == env0.len() && forall|i: int| 0 <= i < env0.len() - 1 ==> env1[i] == env0[i]
}

/// How `evaluate`'s result and final scope chain must relate to the
/// specification evaluator, except behind a native call. On a fatal error
/// the chain is the one the specification evaluator stopped with, so what
/// a diagnostic dump shows afterwards is pinned down too.
pub open spec fn eval_matches(
    node: SpecAST,
    env0: Seq<Map<Seq<char>, SpecAST>>,
    fuel: nat,
    r: Result<Option<AST>, Error>,
    env1: Seq<Map<Seq<char>, SpecAST>>,
) -> bool {
    let st = sp_eval(node, env0, fuel);
    !(st.outcome is Native) ==> match r {
        Ok(Some(v)) => st.outcome == Outcome::Val(v@) && env1 == st.env,
        Ok(None) => st.outcome is NoVal && env1 == st.env,
        Err(e) => st.outcome == Outcome::Fail(e@) && env1 == st.env,
    }
}

/// When `node` is a call to a native-tagged function whose argument
/// evaluation completes, the scope chain that evaluation leaves behind —
/// the one the host call then runs against; nothing for any other node or
/// outcome.
pub open spec fn sp_native_call_env(
    node: SpecAST,
    env0: Seq<Map<Seq<char>, SpecAST>>,
    fuel: nat,
) -> Option<Seq<Map<Seq<char>, SpecAST>>> {
    match node {
        SpecAST::Call { function, arguments } => match *function {
            SpecAST::Variable(name) => match sp_env_lookup(env0, name) {
                Some(SpecAST::Function { parameters, body, native }) => if fuel != 0
                    && native is Some {
                    let ar = sp_eval_args_native(arguments, env0, fuel);
                    match ar.res {
                        ArgsOut::Done(vs) => Some(ar.env),
                        _ => None,
                    }
                } else {
                    None
                },
                _ => None,
            },
            _ => None,
        },
        _ => None,
    }
}

/// Opens the activation frame of a call: a fresh scope holding each
/// parameter bound in order to its value.
#[verifier::loop_isolation(false)]
fn bind_params(env: &mut Environment, parameters: &Vec<String>, vals: &Vec<AST>)
    requires
        old(env).wf(),
        vals@.len() == parameters@.len(),
    ensures
        final(env).wf(),
        final(env)@ == old(env)@.push(
            sp_bind(view_names(parameters@), view_ast_seq(vals@)),
        ),
{
    env.push_scope();
    proof {
        lemma_view_ast_seq(vals@);
        assert(sp_bind(
            view_names(parameters@).take(0),
            view_ast_seq(vals@).take(0),
        ) =~= Map::<Seq<char>, SpecAST>::empty());
    }
    let mut j: usize = 0;
    while j < parameters.len()
        invariant
            j <= parameters@.len(),
            env.wf(),
            env@ == old(env)@.push(
                sp_bind(
                    view_names(parameters@).take(j as int),
                    view_ast_seq(vals@).take(j as int),
                ),
            ),
        decreases parameters@.len() - j,
    {
        env.def(&parameters[j], vals[j].duplicate());
        proof {
            let pv = view_names(parameters@);
            let vv = view_ast_seq(vals@);
            assert(pv.take(j + 1).drop_last() =~= pv.take(j as int));
            assert(vv.take(j + 1).drop_last() =~= vv.take(j as int));
            assert(pv.take(j + 1).last() == parameters@[j as int]@);
            assert(vv.take(j + 1)[pv.take(j + 1).len() - 1] == vals@[j as int]@);
            assert(env@ =~= old(env)@.push(sp_bind(pv.take(j + 1), vv.take(j + 1))));
        }
        j += 1;
    }
    proof {
        assert(view_names(parameters@).take(parameters@.len() as int) =~= view_names(
            parameters@,
        ));
        assert(view_ast_seq(vals@).take(parameters@.len() as int) =~= view_ast_seq(vals@));
    }
}

/// Recursively interprets `ast` against the scope chain `env`, exactly as
/// the specification evaluator [`sp_eval`] says: a value for value-producing
/// nodes, nothing for statements (`Program`, `Assign`), or the fatal error.
/// `host` answers native calls; `fuel` bounds the depth of nested
/// evaluations, and exhausting it is the fatal recursion-limit error.
#[verifier::rlimit(100)]
pub fn evaluate<H: NativeHost>(
    ast: &AST,
    env: &mut Environment,
    host: &mut H,
    fuel: u64,
) -> (r: Result<Option<AST>, Error>)
    requires
        old(env).wf(),
    ensures
        final(env).wf(),
        r is Ok ==> frames_kept(old(env)@, final(env)@),
        eval_matches(ast@, old(env)@, fuel as nat, r, final(env)@),
        ast@ is Program && r is Ok ==> r == Ok::<Option<AST>, Error>(None),
        match sp_native_call_env(ast@, old(env)@, fuel as nat) {
            Some(after_args) => r is Ok ==> final(env)@ == after_args,
            None => true,
        },
    decreases fuel, 1int, 0int,
{
    if fuel == 0 {
        return Err(Error::RecursionLimit);
    }
    match ast {
        AST::Number(_) => Ok(Some(ast.duplicate())),
        AST::String_(_) => Ok(Some(ast.duplicate())),
        AST::Boolean(_) => Ok(Some(ast.duplicate())),
        AST::Function { .. } => Ok(Some(ast.duplicate())),
        AST::Variable(name) => match env.get(name) {
            Some(v) => Ok(Some(v)),
            None => Err(Error::UndefinedVariable(name.clone())),
        },
        AST::Program(stmts) => {
            proof {
                assert(view_ast_seq(stmts@).skip(0) =~= view_ast_seq(stmts@));
            }
            match eval_stmts(stmts, 0, env, host, fuel) {
                Ok(_) => Ok(None),
                Err(e) => Err(e),
            }
        },
        AST::Assign { operator, left, right } => match &**left {
            AST::Variable(name) => {
                proof {
                    assert((**left)@ == SpecAST::Variable(name@));
                }
                env.push_scope();
                match evaluate(right, env, host, fuel - 1) {
                    Err(e) => Err(e),
                    Ok(opt) => {
                        env.pop_scope();
                        match opt {
                            Some(v) => {
                                env.def(name, v);
                                Ok(None)
                            },
                            None => Ok(None),
                        }
                    },
                }
            },
            _ => Err(Error::AssignToNonVariable),
        },
        AST::Call { function, arguments } => match &**function {
            AST::Variable(name) => {
                proof {
                    assert((**function)@ == SpecAST::Variable(name@));
                }
                match env.get(name) {
                None => Err(Error::UndefinedVariable(name.clone())),
                Some(f) => match f {
                    AST::Function { parameters, body, native } => match native {
                        Some(tag) => {
                            proof {
                                assert(view_ast_seq(arguments@).skip(0) =~= view_ast_seq(
                                    arguments@,
                                ));
                            }
                            let args = match eval_native_args(arguments, 0, env, host, fuel) {
                                Ok(a) => a,
                                Err(e) => return Err(e),
                            };
                            match host.call(&tag, args) {
                                Ok(v) => Ok(Some(v)),
                                Err(e) => Err(e),
                            }
                        },
                        None => {
                            proof {
                                assert(view_names(parameters@).skip(0) =~= view_names(
                                    parameters@,
                                ));
                                assert(view_ast_seq(arguments@).skip(0) =~= view_ast_seq(
                                    arguments@,
                                ));
                            }
                            let vals = match eval_params(
                                &parameters,
                                arguments,
                                0,
                                env,
                                host,
                                fuel,
                            ) {
                                Ok(v) => v,
                                Err(e) => return Err(e),
                            };
                            bind_params(env, &parameters, &vals);
                            match evaluate(&body, env, host, fuel - 1) {
                                Err(e) => Err(e),
                                Ok(opt) => {
                                    env.pop_scope();
                                    Ok(opt)
                                },
                            }
                        },
                    },
                    _ => Err(Error::NotAFunction),
                },
            }
            },
            _ => Err(Error::NotAFunction),
        },
        AST::If { condition, then_branch, otherwise } => {
            env.push_scope();
            match evaluate(condition, env, host, fuel - 1) {
                Err(e) => Err(e),
                Ok(copt) => {
                    env.pop_scope();
                    match copt {
                        Some(AST::Boolean(b)) => {
                            if b {
                                env.push_scope();
                                match evaluate(then_branch, env, host, fuel - 1) {
                                    Err(e) => Err(e),
                                    Ok(o) => {
                                        env.pop_scope();
                                        Ok(o)
                                    },
                                }
                            } else {
                                match otherwise {
                                    Some(other) => {
                                        env.push_scope();
                                        match evaluate(other, env, host, fuel - 1) {
                                            Err(e) => Err(e),
                                            Ok(o) => {
                                                env.pop_scope();
                                                Ok(o)
                                            },
                                        }
                                    },
                                    None => Ok(Some(AST::Boolean(false))),
                                }
                            }
                        },
                        _ => Err(Error::ConditionNotBoolean),
                    }
                },
            }
        },
        AST::Binary { operator, left, right } => {
            env.push_scope();
            match evaluate(left, env, host, fuel - 1) {
                Err(e) => Err(e),
                Ok(lopt) => {
                    env.pop_scope();
                    match lopt {
                        None => Err(Error::MissingOperandValue),
                        Some(lv) => {
                            env.push_scope();
                            match evaluate(right, env, host, fuel - 1) {
                                Err(e) => Err(e),
                                Ok(ropt) => {
                                    env.pop_scope();
                                    match ropt {
                                        None => Err(Error::MissingOperandValue),
                                        Some(rv) => {
                                            let out = match classify_op(operator) {
                                                OpKind::Add => crate::evaluate::add(lv, rv, env),
                                                OpKind::Sub => subtract(lv, rv, env),
                                                OpKind::Mul => multiply(lv, rv, env),
                                                OpKind::Div => divide(lv, rv, env),
                                                OpKind::Mod => modulus(lv, rv, env),
                                                OpKind::Or => or(lv, rv, env),
                                                OpKind::And => and(lv, rv, env),
                                                OpKind::EqEq => equals(lv, rv, env),
                                                OpKind::Lt => less_than(lv, rv, env),
                                                OpKind::Le => less_than_or_equals(lv, rv, env),
                                                OpKind::Gt => greater_than(lv, rv, env),
                                                OpKind::Ge => greater_than_or_equals(
                                                    lv,
                                                    rv,
                                                    env,
                                                ),
                                                _ => Err(Error::UnknownOperator),
                                            };
                                            match out {
                                                Ok(v) => Ok(Some(v)),
                                                Err(e) => Err(e),
                                            }
                                        },
                                    }
                                },
                            }
                        },
                    }
                },
            }
        },
    }
}

/// Evaluates `stmts[i..]` in order, directly in `env`, per
/// [`sp_eval_stmts`].
fn eval_stmts<H: NativeHost>(
    stmts: &Vec<AST>,
    i: usize,
    env: &mut Environment,
    host: &mut H,
    fuel: u64,
) -> (r: Result<(), Error>)
    requires
        old(env).wf(),
        fuel >= 1,
        i <= stmts@.len(),
    ensures
        final(env).wf(),
        r is Ok ==> frames_kept(old(env)@, final(env)@),
        ({
            let st = sp_eval_stmts(view_ast_seq(stmts@).skip(i as int), old(env)@, fuel as nat);
            !(st.outcome is Native) ==> match r {
                Ok(_) => st.outcome is NoVal && final(env)@ == st.env,
                Err(e) => st.outcome == Outcome::Fail(e@) && final(env)@ == st.env,
            }
        }),
    decreases fuel, 0int, stmts@.len() - i,
{
    proof {
        lemma_view_ast_seq(stmts@);
    }
    let ghost sv = view_ast_seq(stmts@);
    if i == stmts.len() {
        proof {
            assert(sv.skip(i as int) =~= Seq::<SpecAST>::empty());
        }
        Ok(())
    } else {
        proof {
            assert(sv.skip(i as int)[0] == stmts@[i as int]@);
            assert(sv.skip(i as int).drop_first() =~= sv.skip(i + 1));
        }
        match evaluate(&stmts[i], env, host, fuel - 1) {
            Err(e) => Err(e),
            Ok(_) => eval_stmts(stmts, i + 1, env, host, fuel),
        }
    }
}

/// Evaluates `args[i..]` for a native call, directly in `env`, collecting
/// the values in order and skipping arguments that produce none, per
/// [`sp_eval_args_native`].
fn eval_native_args<H: NativeHost>(
    args: &Vec<AST>,
    i: usize,
    env: &mut Environment,
    host: &mut H,
    fuel: u64,
) -> (r: Result<Vec<AST>, Error>)
    requires
        old(env).wf(),
        fuel >= 1,
        i <= args@.len(),
    ensures
        final(env).wf(),
        r is Ok ==> frames_kept(old(env)@, final(env)@),
        ({
            let st = sp_eval_args_native(
                view_ast_seq(args@).skip(i as int),
                old(env)@,
                fuel as nat,
            );
            match st.res {
                ArgsOut::Done(vs) => match r {
                    Ok(out) => view_ast_seq(out@) == vs && final(env)@ == st.env,
                    Err(_) => false,
                },
                ArgsOut::Fail(e) => match r {
                    Err(err) => err@ == e && final(env)@ == st.env,
                    Ok(_) => false,
                },
                ArgsOut::Native => true,
            }
        }),
    decreases fuel, 0int, args@.len() - i,
{
    proof {
        lemma_view_ast_seq(args@);
    }
    let ghost sv = view_ast_seq(args@);
    if i == args.len() {
        proof {
            assert(sv.skip(i as int) =~= Seq::<SpecAST>::empty());
            assert(view_ast_seq(Seq::<AST>::empty()) =~= Seq::<SpecAST>::empty());
        }
        Ok(Vec::new())
    } else {
        proof {
            assert(sv.skip(i as int)[0] == args@[i as int]@);
            assert(sv.skip(i as int).drop_first() =~= sv.skip(i + 1));
        }
        match evaluate(&args[i], env, host, fuel - 1) {
            Err(e) => Err(e),
            Ok(opt) => {
                let mut rest = match eval_native_args(args, i + 1, env, host, fuel) {
                    Ok(v) => v,
                    Err(e) => return Err(e),
                };
                match opt {
                    Some(v) => {
                        let ghost rest_elems = rest@;
                        let ghost rest_view = view_ast_seq(rest@);
                        proof {
                            lemma_view_ast_seq(rest@);
                        }
                        let ghost value_view = v@;
                        let mut out: Vec<AST> = Vec::new();
                        out.push(v);
                        out.append(&mut rest);
                        proof {
                            lemma_view_ast_seq(out@);
                            assert forall|k: int|
                                0 <= k < out@.len() implies view_ast_seq(out@)[k] == (
                            seq![value_view] + rest_view)[k] by {
                                assert(view_ast_seq(out@)[k] == out@[k]@);
                                if k > 0 {
                                    assert(rest_view[k - 1] == rest_elems[k - 1]@);
                                }
                            }
                            assert(view_ast_seq(out@) =~= seq![value_view] + rest_view);
                        }
                        Ok(out)
                    },
                    None => Ok(rest),
                }
            },
        }
    }
}

/// Evaluates the values that `params[i..]` are bound to in a user call, per
/// [`sp_eval_params`]: each present argument in a transient child of `env`,
/// a missing argument or one producing no value giving false, arguments
/// beyond the parameter list never evaluated.
fn eval_params<H: NativeHost>(
    params: &Vec<String>,
    args: &Vec<AST>,
    i: usize,
    env: &mut Environment,
    host: &mut H,
    fuel: u64,
) -> (r: Result<Vec<AST>, Error>)
    requires
        old(env).wf(),
        fuel >= 1,
        i <= params@.len(),
    ensures
        final(env).wf(),
        r is Ok ==> frames_kept(old(env)@, final(env)@),
        r matches Ok(vals) ==> vals@.len() == params@.len() - i,
        ({
            let st = sp_eval_params(
                view_names(params@).skip(i as int),
                view_ast_seq(args@).skip(if i < args@.len() {
                    i as int
                } else {
                    args@.len() as int
                }),
                old(env)@,
                fuel as nat,
            );
            match st.res {
                ParamsOut::Vals(vs) => match r {
                    Ok(vals) => view_ast_seq(vals@) == vs && vals@.len() == params@.len() - i
                        && final(env)@ == st.env,
                    Err(_) => false,
                },
                ParamsOut::Fail(e) => match r {
                    Err(err) => err@ == e && final(env)@ == st.env,
                    Ok(_) => false,
                },
                ParamsOut::Native => true,
            }
        }),
    decreases fuel, 0int, params@.len() - i,
{
    proof {
        lemma_view_ast_seq(args@);
    }
    let ghost pv = view_names(params@);
    let ghost av = view_ast_seq(args@);
    if i == params.len() {
        proof {
            assert(pv.skip(i as int) =~= Seq::<Seq<char>>::empty());
            assert(view_ast_seq(Seq::<AST>::empty()) =~= Seq::<SpecAST>::empty());
        }
        Ok(Vec::new())
    } else if i >= args.len() {
        proof {
            assert(av.skip(args@.len() as int) =~= Seq::<SpecAST>::empty());
            assert(pv.skip(i as int).drop_first() =~= pv.skip(i + 1));
        }
        let mut rest = match eval_params(params, args, i + 1, env, host, fuel) {
            Ok(v) => v,
            Err(e) => return Err(e),
        };
        let ghost rest_elems = rest@;
        let ghost rest_view = view_ast_seq(rest@);
        proof {
            lemma_view_ast_seq(rest@);
        }
        let mut out: Vec<AST> = Vec::new();
        out.push(AST::Boolean(false));
        out.append(&mut rest);
        proof {
            lemma_view_ast_seq(out@);
            assert(out@ =~= seq![AST::Boolean(false)] + rest_elems);
            assert forall|k: int| 0 <= k < out@.len() implies view_ast_seq(out@)[k] == (
            seq![SpecAST::Boolean(false)] + rest_view)[k] by {
                assert(view_ast_seq(out@)[k] == out@[k]@);
                if k > 0 {
                    assert(rest_view[k - 1] == rest_elems[k - 1]@);
                }
            }
            assert(view_ast_seq(out@) =~= seq![SpecAST::Boolean(false)] + rest_view);
        }
        Ok(out)
    } else {
        proof {
            assert(av.skip(i as int)[0] == args@[i as int]@);
            assert(av.skip(i as int).drop_first() =~= av.skip(i + 1));
            assert(pv.skip(i as int).drop_first() =~= pv.skip(i + 1));
        }
        env.push_scope();
        match evaluate(&args[i], env, host, fuel - 1) {
            Err(e) => Err(e),
            Ok(opt) => {
                env.pop_scope();
                let value = match opt {
                    Some(v) => v,
                    None => AST::Boolean(false),
                };
                let mut rest = match eval_params(params, args, i + 1, env, host, fuel) {
                    Ok(v) => v,
                    Err(e) => return Err(e),
                };
                let ghost rest_elems = rest@;
                let ghost rest_view = view_ast_seq(rest@);
                proof {
                    lemma_view_ast_seq(rest@);
                }
                let ghost value_snapshot = value;
                let ghost value_view = value@;
                let mut out: Vec<AST> = Vec::new();
                out.push(value);
                out.append(&mut rest);
                proof {
                    lemma_view_ast_seq(out@);
                    assert(out@ =~= seq![value_snapshot] + rest_elems);
                    assert forall|k: int| 0 <= k < out@.len() implies view_ast_seq(out@)[k] == (
                    seq![value_view] + rest_view)[k] by {
                        assert(view_ast_seq(out@)[k] == out@[k]@);
                        if k > 0 {
                            assert(rest_view[k - 1] == rest_elems[k - 1]@);
                        }
                    }
                    assert(view_ast_seq(out@) =~= seq![value_view] + rest_view);
                }
                Ok(out)
            },
        }
    }
}

} // verus!
