use vstd::prelude::*;
use crate::ast::SpecAST;
use crate::errors::SpecError;
use crate::environment::sp_env_lookup;
use crate::evaluate::{sp_eval, sp_eval_params, Outcome, ParamsOut};

verus! {

/// Law: referencing a variable that is bound in no reachable scope is the
/// fatal "undefined variable" error — never a silent default value.
pub proof fn lemma_undefined_variable(
    name: Seq<char>,
    env: Seq<Map<Seq<char>, SpecAST>>,
    fuel: nat,
)
    requires
        fuel >= 1,
        sp_env_lookup(env, name) is None,
    ensures
        sp_eval(SpecAST::Variable(name), env, fuel).outcome == Outcome::Fail(
            SpecError::UndefinedVariable(name),
        ),
{
}

/// Law: an `if` with no `else` whose condition evaluates to false yields
/// the value false.
pub proof fn lemma_if_no_else_false(
    condition: SpecAST,
    then_branch: SpecAST,
    env: Seq<Map<Seq<char>, SpecAST>>,
    fuel: nat,
)
    requires
        fuel >= 1,
        sp_eval(
            condition,
            env.push(Map::empty()),
            (fuel - 1) as nat,
        ).outcome == Outcome::Val(SpecAST::Boolean(false)),
    ensures
        sp_eval(
            SpecAST::If {
                condition: Box::new(condition),
                then_branch: Box::new(then_branch),
                otherwise: None,
            },
            env,
            fuel,
        ).outcome == Outcome::Val(SpecAST::Boolean(false)),
{
}

/// Law: a call with fewer arguments than parameters binds every parameter
/// beyond the argument list to false (and a parameter list always receives
/// exactly one value per parameter).
pub proof fn lemma_missing_args_bind_false(
    params: Seq<Seq<char>>,
    args: Seq<SpecAST>,
    env: Seq<Map<Seq<char>, SpecAST>>,
    fuel: nat,
)
    ensures
        ({
            let pr = sp_eval_params(params, args, env, fuel);
            pr.res matches ParamsOut::Vals(vs) ==> vs.len() == params.len() && forall|i: int|
                args.len() <= i < params.len() ==> vs[i] == SpecAST::Boolean(false)
        }),
    decreases fuel, 0int, params.len(),
{
    let pr = sp_eval_params(params, args, env, fuel);
    if fuel == 0 || params.len() == 0 {
    } else if args.len() == 0 {
        lemma_missing_args_bind_false(params.drop_first(), args, env, fuel);
        match sp_eval_params(params.drop_first(), args, env, fuel).res {
            ParamsOut::Vals(vs) => {
                let out = seq![SpecAST::Boolean(false)] + vs;
                assert forall|i: int| args.len() <= i < params.len() implies #[trigger] out[i]
                    == SpecAST::Boolean(false) by {
                    if i > 0 {
                        assert(out[i] == vs[i - 1]);
                    }
                }
            },
            _ => {},
        }
    } else {
        let st = sp_eval(args[0], env.push(Map::empty()), (fuel - 1) as nat);
        match st.outcome {
            Outcome::Val(v) => {
                lemma_missing_args_bind_false(
                    params.drop_first(),
                    args.drop_first(),
                    st.env.drop_last(),
                    fuel,
                );
            },
            Outcome::NoVal => {
                lemma_missing_args_bind_false(
                    params.drop_first(),
                    args.drop_first(),
                    st.env.drop_last(),
                    fuel,
                );
            },
            _ => {},
        }
    }
}

/// Law: arguments beyond the parameter list are ignored entirely — they are
/// never even evaluated, so the call behaves exactly as if they had been
/// cut off at the parameter count.
pub proof fn lemma_extra_args_ignored(
    params: Seq<Seq<char>>,
    args: Seq<SpecAST>,
    env: Seq<Map<Seq<char>, SpecAST>>,
    fuel: nat,
)
    requires
        args.len() >= params.len(),
    ensures
        sp_eval_params(params, args, env, fuel) == sp_eval_params(
            params,
            args.take(params.len() as int),
            env,
            fuel,
        ),
    decreases fuel, 0int, params.len(),
{
    let cut = args.take(params.len() as int);
    if params.len() == 0 {
        assert(cut =~= Seq::<SpecAST>::empty());
    } else if fuel == 0 {
    } else {
        assert(cut.len() == params.len());
        assert(cut[0] == args[0]);
        let st = sp_eval(args[0], env.push(Map::empty()), (fuel - 1) as nat);
        assert(cut.drop_first() =~= args.drop_first().take(params.drop_first().len() as int));
        match st.outcome {
            Outcome::Val(v) => {
                lemma_extra_args_ignored(
                    params.drop_first(),
                    args.drop_first(),
                    st.env.drop_last(),
                    fuel,
                );
            },
            Outcome::NoVal => {
                lemma_extra_args_ignored(
                    params.drop_first(),
                    args.drop_first(),
                    st.env.drop_last(),
                    fuel,
                );
            },
            _ => {},
        }
    }
}

} // verus!
