use crate::environment::{FrameModel, bind, lookup, new_scope};
use crate::error::{Error, ErrorKind};
use crate::expression::Expression;
use crate::interpreter::{
    Machine, eval, eval_binary, eval_call, eval_forced, eval_if, eval_lambda, force,
};
use crate::location::{Located, Location};
use crate::operators::{binary_op, fail, fits_i128, unary_op};
use crate::token::{Token, TokenKind};
use crate::value::ValueModel;
use vstd::prelude::*;

verus! {

/// Integer division and remainder by zero fail with `DivisionByZero`.
pub proof fn law_division_by_zero(op: Located<Token>, a: i128)
    requires
        op.node.kind == TokenKind::Slash || op.node.kind == TokenKind::Percent,
    ensures
        binary_op(op, ValueModel::Integer(a), ValueModel::Integer(0)) == Err::<ValueModel, Error>(
            fail(ErrorKind::DivisionByZero, op.location),
        ),
{
}

/// Evaluating `left / right` or `left % right` where the right operand comes
/// out as zero fails with `DivisionByZero`, once both operands have run.
pub proof fn law_division_by_zero_evaluated(
    m: Machine,
    env: nat,
    left: Located<Expression>,
    op: Located<Token>,
    right: Located<Expression>,
    fuel: nat,
    a: i128,
)
    requires
        op.node.kind == TokenKind::Slash || op.node.kind == TokenKind::Percent,
        eval(m, env, left, fuel).1 == Ok::<ValueModel, Error>(ValueModel::Integer(a)),
        eval(eval(m, env, left, fuel).0, env, right, fuel).1 == Ok::<ValueModel, Error>(
            ValueModel::Integer(0),
        ),
    ensures
        eval_binary(m, env, left, op, right, fuel) == (
            eval(eval(m, env, left, fuel).0, env, right, fuel).0,
            Err::<ValueModel, Error>(fail(ErrorKind::DivisionByZero, op.location)),
        ),
{
}

/// `+`, `-` and `*` on integers fail with `Overflow` exactly when the true
/// result leaves the 128-bit range; otherwise they give that result.
pub proof fn law_checked_arithmetic(op: Located<Token>, a: i128, b: i128)
    requires
        op.node.kind == TokenKind::Plus || op.node.kind == TokenKind::Minus || op.node.kind
            == TokenKind::Star,
    ensures
        ({
            let v = if op.node.kind == TokenKind::Plus {
                a + b
            } else if op.node.kind == TokenKind::Minus {
                a - b
            } else {
                a * b
            };
            binary_op(op, ValueModel::Integer(a), ValueModel::Integer(b)) == if fits_i128(v) {
                Ok::<ValueModel, Error>(ValueModel::Integer(v as i128))
            } else {
                Err::<ValueModel, Error>(fail(ErrorKind::Overflow, op.location))
            }
        }),
{
}

/// Adding one to the largest 128-bit integer overflows.
pub proof fn law_max_plus_one_overflows(op: Located<Token>)
    requires
        op.node.kind == TokenKind::Plus,
    ensures
        binary_op(op, ValueModel::Integer(i128::MAX), ValueModel::Integer(1)) == Err::<
            ValueModel,
            Error,
        >(fail(ErrorKind::Overflow, op.location)),
{
}

/// When the condition comes out `true`, the `otherwise` part is never
/// evaluated: the outcome does not depend on it.
pub proof fn law_untaken_otherwise(
    m: Machine,
    env: nat,
    condition: Located<Expression>,
    body: Located<Expression>,
    otherwise1: Located<Expression>,
    otherwise2: Located<Expression>,
    fuel: nat,
)
    requires
        eval_forced(m, env, condition, fuel).1 == Ok::<ValueModel, Error>(ValueModel::Boolean(true)),
    ensures
        eval_if(m, env, condition, body, otherwise1, fuel) == eval_if(
            m,
            env,
            condition,
            body,
            otherwise2,
            fuel,
        ),
        eval_if(m, env, condition, body, otherwise1, fuel) == eval(
            eval_forced(m, env, condition, fuel).0,
            env,
            body,
            fuel,
        ),
{
}

/// When the condition comes out as anything but `true`, the body is never
/// evaluated: the outcome does not depend on it.
pub proof fn law_untaken_body(
    m: Machine,
    env: nat,
    condition: Located<Expression>,
    body1: Located<Expression>,
    body2: Located<Expression>,
    otherwise: Located<Expression>,
    fuel: nat,
    v: ValueModel,
)
    requires
        eval_forced(m, env, condition, fuel).1 == Ok::<ValueModel, Error>(v),
        v != ValueModel::Boolean(true),
    ensures
        eval_if(m, env, condition, body1, otherwise, fuel) == eval_if(
            m,
            env,
            condition,
            body2,
            otherwise,
            fuel,
        ),
{
}

/// Adding scopes leaves every lookup from an existing scope as it was.
proof fn lemma_lookup_extended(frames: Seq<FrameModel>, ext: Seq<FrameModel>, p: nat, key: Seq<char>)
    requires
        frames.len() <= ext.len(),
        forall|i: int| 0 <= i < frames.len() ==> ext[i] == frames[i],
        p < frames.len(),
    ensures
        lookup(ext, p, key) == lookup(frames, p, key),
    decreases p,
{
    match frames[p as int].parent {
        Some(q) => if q < p {
            lemma_lookup_extended(frames, ext, q, key);
        },
        None => {},
    }
}

/// A closure's body runs in a new scope whose only own binding is the
/// parameter: every other name resolves there exactly as in the scope the
/// closure captured, whatever the caller's scope `env` binds.
pub proof fn law_call_scope_is_lexical(
    frames: Seq<FrameModel>,
    captured: nat,
    env: nat,
    name: Seq<char>,
    argument: Located<Expression>,
    key: Seq<char>,
)
    requires
        captured < frames.len(),
        key != name,
    ensures
        ({
            let scope = frames.len();
            let called = bind(
                new_scope(frames, captured),
                scope,
                name,
                ValueModel::Thunk { expression: argument, environment: env },
            );
            lookup(called, scope, key) == lookup(frames, captured, key)
        }),
{
    let scope = frames.len();
    let called = bind(
        new_scope(frames, captured),
        scope,
        name,
        ValueModel::Thunk { expression: argument, environment: env },
    );
    let own = called[scope as int].bindings;
    assert(own.len() == 1 && own.last().0 == name);
    assert(own.drop_last() =~= Seq::<(Seq<char>, ValueModel)>::empty());
    assert(crate::environment::local_lookup(own.drop_last(), key) is None);
    assert(crate::environment::local_lookup(own, key) is None);
    assert(called[scope as int].parent == Some(captured));
    assert forall|i: int| 0 <= i < frames.len() implies called[i] == frames[i] by {}
    lemma_lookup_extended(frames, called, captured, key);
}

/// A lambda captures the scope it was created in: from its new scope every
/// name resolves as in that scope.
pub proof fn law_lambda_captures_scope(
    m: Machine,
    env: nat,
    parameter: Located<Token>,
    body: Located<Expression>,
    key: Seq<char>,
)
    requires
        env < m.frames.len(),
        parameter.node.kind == TokenKind::Identifier,
    ensures
        eval_lambda(m, env, parameter, body).1 == Ok::<ValueModel, Error>(
            ValueModel::Function { parameter, body, environment: m.frames.len() },
        ),
        lookup(eval_lambda(m, env, parameter, body).0.frames, m.frames.len(), key) == lookup(
            m.frames,
            env,
            key,
        ),
{
    let frames2 = new_scope(m.frames, env);
    lemma_lookup_extended(m.frames, frames2, env, key);
}

/// Call by need: calling a closure does not evaluate the argument. The body
/// runs in a new child of the captured scope, right after the callee was
/// evaluated, with the parameter bound to a thunk of the argument
/// expression over the caller's scope.
pub proof fn law_call_defers_argument(
    m: Machine,
    env: nat,
    function: Located<Expression>,
    argument: Located<Expression>,
    fuel: nat,
    parameter: Located<Token>,
    body: Located<Expression>,
    environment: nat,
    name: Seq<char>,
)
    requires
        eval_forced(m, env, function, fuel).1 == Ok::<ValueModel, Error>(
            ValueModel::Function { parameter, body, environment },
        ),
        crate::token::identifier_name(parameter.node) == Some(name),
    ensures
        ({
            let m1 = eval_forced(m, env, function, fuel).0;
            let scope = m1.frames.len();
            eval_call(m, env, function, argument, fuel) == eval(
                crate::interpreter::with_frames(
                    m1,
                    bind(
                        new_scope(m1.frames, environment),
                        scope,
                        name,
                        ValueModel::Thunk { expression: argument, environment: env },
                    ),
                ),
                scope,
                body,
                fuel,
            )
        }),
{
}

/// The conditional with the `(condition, body)` pairs `branches`, in order,
/// and `otherwise`, as the parser builds it: each `elif` is an `If` in the
/// `otherwise` place of the one before, all located at `at`.
pub open spec fn if_chain(
    branches: Seq<(Located<Expression>, Located<Expression>)>,
    otherwise: Located<Expression>,
    at: Location,
) -> Located<Expression>
    decreases branches.len(),
{
    if branches.len() == 0 {
        otherwise
    } else {
        Located {
            node: Expression::If {
                condition: Box::new(branches[0].0),
                body: Box::new(branches[0].1),
                otherwise: Box::new(if_chain(branches.drop_first(), otherwise, at)),
            },
            location: at,
        }
    }
}

/// Choosing a branch: the conditions are evaluated and forced in order; the
/// first that comes out `true` has its body evaluated and nothing after it
/// runs; an error from a condition ends the choice; when no condition is
/// `true`, `otherwise` is evaluated. Each branch takes one level of nesting.
pub open spec fn select_branch(
    m: Machine,
    env: nat,
    branches: Seq<(Located<Expression>, Located<Expression>)>,
    otherwise: Located<Expression>,
    at: Location,
    fuel: nat,
) -> (Machine, Result<ValueModel, Error>)
    decreases branches.len(),
{
    if branches.len() == 0 {
        eval(m, env, otherwise, fuel)
    } else if fuel == 0 {
        (m, Err(fail(ErrorKind::RecursionLimit, at)))
    } else {
        let d = (fuel - 1) as nat;
        let (m1, r1) = eval_forced(m, env, branches[0].0, d);
        match r1 {
            Err(x) => (m1, Err(x)),
            Ok(ValueModel::Boolean(true)) => eval(m1, env, branches[0].1, d),
            Ok(_) => select_branch(m1, env, branches.drop_first(), otherwise, at, d),
        }
    }
}

/// The index of the branch whose body `select_branch` evaluates, if any.
pub open spec fn taken_branch(
    m: Machine,
    env: nat,
    branches: Seq<(Located<Expression>, Located<Expression>)>,
    fuel: nat,
) -> Option<nat>
    decreases branches.len(),
{
    if branches.len() == 0 || fuel == 0 {
        None
    } else {
        let d = (fuel - 1) as nat;
        let (m1, r1) = eval_forced(m, env, branches[0].0, d);
        match r1 {
            Err(_) => None,
            Ok(ValueModel::Boolean(true)) => Some(0),
            Ok(_) => match taken_branch(m1, env, branches.drop_first(), d) {
                Some(k) => Some(k + 1),
                None => None,
            },
        }
    }
}

/// A conditional with any number of `elif`s evaluates as `select_branch`
/// says: conditions in order, the first `true` one's body, else `otherwise`.
pub proof fn law_if_chain_selects_first_true_branch(
    m: Machine,
    env: nat,
    branches: Seq<(Located<Expression>, Located<Expression>)>,
    otherwise: Located<Expression>,
    at: Location,
    fuel: nat,
)
    ensures
        eval(m, env, if_chain(branches, otherwise, at), fuel) == select_branch(
            m,
            env,
            branches,
            otherwise,
            at,
            fuel,
        ),
    decreases branches.len(),
{
    if branches.len() > 0 && fuel > 0 {
        let d = (fuel - 1) as nat;
        let (m1, r1) = eval_forced(m, env, branches[0].0, d);
        law_if_chain_selects_first_true_branch(m1, env, branches.drop_first(), otherwise, at, d);
    }
}

/// The branch taken is one of the branches.
proof fn lemma_taken_branch_in_range(
    m: Machine,
    env: nat,
    branches: Seq<(Located<Expression>, Located<Expression>)>,
    fuel: nat,
    k: nat,
)
    requires
        taken_branch(m, env, branches, fuel) == Some(k),
    ensures
        k < branches.len(),
    decreases branches.len(),
{
    if k > 0 {
        let d = (fuel - 1) as nat;
        let (m1, r1) = eval_forced(m, env, branches[0].0, d);
        lemma_taken_branch_in_range(m1, env, branches.drop_first(), d, (k - 1) as nat);
    }
}

/// Once branch `k` is taken, no later condition, no later body and not
/// `otherwise` is evaluated: two conditionals that agree up to branch `k`
/// give the same outcome, whatever follows.
pub proof fn law_branches_after_the_taken_one_do_not_run(
    m: Machine,
    env: nat,
    branches1: Seq<(Located<Expression>, Located<Expression>)>,
    branches2: Seq<(Located<Expression>, Located<Expression>)>,
    otherwise1: Located<Expression>,
    otherwise2: Located<Expression>,
    at: Location,
    fuel: nat,
    k: nat,
)
    requires
        taken_branch(m, env, branches1, fuel) == Some(k),
        k < branches2.len(),
        branches1.take(k + 1 as int) == branches2.take(k + 1 as int),
    ensures
        select_branch(m, env, branches1, otherwise1, at, fuel) == select_branch(
            m,
            env,
            branches2,
            otherwise2,
            at,
            fuel,
        ),
        taken_branch(m, env, branches2, fuel) == Some(k),
    decreases branches1.len(),
{
    lemma_taken_branch_in_range(m, env, branches1, fuel, k);
    assert(branches1[0] == branches1.take(k + 1 as int)[0]);
    assert(branches2[0] == branches2.take(k + 1 as int)[0]);
    if k > 0 {
        let d = (fuel - 1) as nat;
        let (m1, r1) = eval_forced(m, env, branches1[0].0, d);
        assert(branches1.drop_first().take(k as int) =~= branches1.take(k + 1 as int).drop_first());
        assert(branches2.drop_first().take(k as int) =~= branches2.take(k + 1 as int).drop_first());
        law_branches_after_the_taken_one_do_not_run(
            m1,
            env,
            branches1.drop_first(),
            branches2.drop_first(),
            otherwise1,
            otherwise2,
            at,
            d,
            (k - 1) as nat,
        );
    }
}

/// Whether a value is a thunk.
pub open spec fn is_thunk(v: ValueModel) -> bool {
    v is Thunk
}

/// Forcing never yields a thunk, and evaluation never yields one either:
/// thunks stay inside scopes and are resolved whenever they are read.
pub proof fn law_results_are_forced(m: Machine, env: nat, e: Located<Expression>, v: ValueModel, fuel: nat)
    ensures
        eval(m, env, e, fuel).1 matches Ok(w) ==> !is_thunk(w),
        force(m, v, fuel).1 matches Ok(w) ==> !is_thunk(w),
    decreases fuel, 3nat,
{
    lemma_eval_not_thunk(m, env, e, fuel);
    lemma_force_not_thunk(m, v, fuel);
}

proof fn lemma_force_not_thunk(m: Machine, v: ValueModel, fuel: nat)
    ensures
        force(m, v, fuel).1 matches Ok(w) ==> !is_thunk(w),
    decreases fuel, 0nat,
{
    match v {
        ValueModel::Thunk { expression, environment } => {
            if fuel > 0 {
                let (m1, r1) = eval(m, environment, expression, (fuel - 1) as nat);
                if let Ok(w) = r1 {
                    lemma_force_not_thunk(m1, w, (fuel - 1) as nat);
                }
            }
        },
        _ => {},
    }
}

proof fn lemma_forced_not_thunk(m: Machine, env: nat, e: Located<Expression>, fuel: nat)
    ensures
        eval_forced(m, env, e, fuel).1 matches Ok(w) ==> !is_thunk(w),
    decreases fuel, 1nat,
{
    let (m1, r1) = eval(m, env, e, fuel);
    if let Ok(v) = r1 {
        lemma_force_not_thunk(m1, v, fuel);
    }
}

proof fn lemma_unary_not_thunk(op: Located<Token>, v: ValueModel)
    ensures
        unary_op(op, v) matches Ok(w) ==> !is_thunk(w),
{
}

proof fn lemma_binary_not_thunk(op: Located<Token>, l: ValueModel, r: ValueModel)
    ensures
        binary_op(op, l, r) matches Ok(w) ==> !is_thunk(w),
{
}

proof fn lemma_eval_not_thunk(m: Machine, env: nat, e: Located<Expression>, fuel: nat)
    ensures
        eval(m, env, e, fuel).1 matches Ok(w) ==> !is_thunk(w),
    decreases fuel, 2nat,
{
    if fuel > 0 {
        let d = (fuel - 1) as nat;
        match e.node {
            Expression::Unary { operator, expression } => {
                let (m1, r1) = eval_forced(m, env, *expression, d);
                if let Ok(v) = r1 {
                    lemma_unary_not_thunk(operator, v);
                }
                lemma_unary_not_thunk(operator, ValueModel::Null);
            },
            Expression::Binary { left, operator, right } => {
                let (m1, r1) = eval(m, env, *left, d);
                if let Ok(lv) = r1 {
                    let (m2, r2) = eval(m1, env, *right, d);
                    if let Ok(rv) = r2 {
                        let (m3, r3) = force(m2, lv, d);
                        if let Ok(l) = r3 {
                            let (m4, r4) = force(m3, rv, d);
                            if let Ok(r) = r4 {
                                lemma_binary_not_thunk(operator, l, r);
                            }
                        }
                    }
                }
            },
            Expression::Call { function, argument } => {
                let (m1, r1) = eval_forced(m, env, *function, d);
                match r1 {
                    Ok(ValueModel::Function { parameter, body, environment }) => {
                        match crate::token::identifier_name(parameter.node) {
                            Some(name) => {
                                let scope = m1.frames.len();
                                let frames = bind(
                                    new_scope(m1.frames, environment),
                                    scope,
                                    name,
                                    ValueModel::Thunk { expression: *argument, environment: env },
                                );
                                lemma_eval_not_thunk(
                                    crate::interpreter::with_frames(m1, frames),
                                    scope,
                                    body,
                                    d,
                                );
                            },
                            None => {},
                        }
                    },
                    Ok(ValueModel::BuiltinFunction { function: b }) => {
                        lemma_eval_not_thunk(m1, env, *argument, d);
                    },
                    _ => {},
                }
            },
            Expression::Identifier { token } => {
                match crate::token::identifier_name(token.node) {
                    Some(name) => match lookup(m.frames, env, name) {
                        Some(v) => lemma_force_not_thunk(m, v, d),
                        None => {},
                    },
                    None => {},
                }
            },
            Expression::If { condition, body, otherwise } => {
                let (m1, r1) = eval_forced(m, env, *condition, d);
                lemma_eval_not_thunk(m1, env, *body, d);
                lemma_eval_not_thunk(m1, env, *otherwise, d);
            },
            Expression::Lambda { parameter, body } => {},
            Expression::Literal { token } => {},
        }
    }
}

/// Forcing is idempotent: forcing what forcing returned changes nothing.
pub proof fn law_force_idempotent(m: Machine, v: ValueModel, fuel: nat, fuel2: nat)
    requires
        force(m, v, fuel).1 is Ok,
    ensures
        force(force(m, v, fuel).0, force(m, v, fuel).1->Ok_0, fuel2) == (
            force(m, v, fuel).0,
            force(m, v, fuel).1,
        ),
{
    lemma_force_not_thunk(m, v, fuel);
}

/// Every scope's parent is an older scope: the scopes form a tree whose links
/// point only towards ancestors.
pub open spec fn parents_are_older(frames: Seq<FrameModel>) -> bool {
    forall|i: int| 0 <= i < frames.len() ==> (#[trigger] frames[i].parent matches Some(p) ==> p < i)
}

/// Making a scope and binding a name keep scopes pointing to older ones.
pub proof fn law_scope_links_point_back(
    frames: Seq<FrameModel>,
    parent: nat,
    frame: nat,
    key: Seq<char>,
    value: ValueModel,
)
    requires
        parents_are_older(frames),
    ensures
        parents_are_older(new_scope(frames, parent)),
        parents_are_older(bind(frames, frame, key, value)),
{
    let n = new_scope(frames, parent);
    assert forall|i: int| 0 <= i < n.len() implies (#[trigger] n[i].parent matches Some(p) ==> p < i) by {
        if i < frames.len() {
            assert(n[i] == frames[i]);
        }
    }
    let b = bind(frames, frame, key, value);
    assert forall|i: int| 0 <= i < b.len() implies (#[trigger] b[i].parent matches Some(p) ==> p < i) by {
        assert(b[i].parent == frames[i].parent);
    }
}

/// Evaluation keeps every scope's parent older than the scope itself.
pub proof fn law_evaluation_keeps_scopes_a_tree(
    m: Machine,
    env: nat,
    e: Located<Expression>,
    v: ValueModel,
    fuel: nat,
)
    requires
        parents_are_older(m.frames),
    ensures
        parents_are_older(eval(m, env, e, fuel).0.frames),
        parents_are_older(force(m, v, fuel).0.frames),
{
    lemma_eval_keeps_tree(m, env, e, fuel);
    lemma_force_keeps_tree(m, v, fuel);
}

proof fn lemma_force_keeps_tree(m: Machine, v: ValueModel, fuel: nat)
    requires
        parents_are_older(m.frames),
    ensures
        parents_are_older(force(m, v, fuel).0.frames),
    decreases fuel, 0nat,
{
    if let ValueModel::Thunk { expression, environment } = v {
        if fuel > 0 {
            lemma_eval_keeps_tree(m, environment, expression, (fuel - 1) as nat);
            let (m1, r1) = eval(m, environment, expression, (fuel - 1) as nat);
            if let Ok(w) = r1 {
                lemma_force_keeps_tree(m1, w, (fuel - 1) as nat);
            }
        }
    }
}

proof fn lemma_forced_keeps_tree(m: Machine, env: nat, e: Located<Expression>, fuel: nat)
    requires
        parents_are_older(m.frames),
    ensures
        parents_are_older(eval_forced(m, env, e, fuel).0.frames),
    decreases fuel, 3nat,
{
    lemma_eval_keeps_tree(m, env, e, fuel);
    let (m1, r1) = eval(m, env, e, fuel);
    if let Ok(v) = r1 {
        lemma_force_keeps_tree(m1, v, fuel);
    }
}

proof fn lemma_eval_keeps_tree(m: Machine, env: nat, e: Located<Expression>, fuel: nat)
    requires
        parents_are_older(m.frames),
    ensures
        parents_are_older(eval(m, env, e, fuel).0.frames),
    decreases fuel, 2nat,
{
    if fuel > 0 {
        let d = (fuel - 1) as nat;
        match e.node {
            Expression::Unary { operator, expression } => {
                lemma_forced_keeps_tree(m, env, *expression, d);
            },
            Expression::Binary { left, operator, right } => {
                lemma_eval_keeps_tree(m, env, *left, d);
                let (m1, r1) = eval(m, env, *left, d);
                if let Ok(lv) = r1 {
                    lemma_eval_keeps_tree(m1, env, *right, d);
                    let (m2, r2) = eval(m1, env, *right, d);
                    if let Ok(rv) = r2 {
                        lemma_force_keeps_tree(m2, lv, d);
                        let (m3, r3) = force(m2, lv, d);
                        if let Ok(l) = r3 {
                            lemma_force_keeps_tree(m3, rv, d);
                        }
                    }
                }
            },
            Expression::Call { function, argument } => {
                lemma_forced_keeps_tree(m, env, *function, d);
                let (m1, r1) = eval_forced(m, env, *function, d);
                match r1 {
                    Ok(ValueModel::Function { parameter, body, environment }) => {
                        match crate::token::identifier_name(parameter.node) {
                            Some(name) => {
                                let scope = m1.frames.len();
                                let thunk = ValueModel::Thunk { expression: *argument, environment: env };
                                law_scope_links_point_back(m1.frames, environment, scope, name, thunk);
                                let grown = new_scope(m1.frames, environment);
                                law_scope_links_point_back(grown, environment, scope, name, thunk);
                                let frames = bind(grown, scope, name, thunk);
                                lemma_eval_keeps_tree(
                                    crate::interpreter::with_frames(m1, frames),
                                    scope,
                                    body,
                                    d,
                                );
                            },
                            None => {},
                        }
                    },
                    Ok(ValueModel::BuiltinFunction { function: b }) => {
                        lemma_eval_keeps_tree(m1, env, *argument, d);
                    },
                    _ => {},
                }
            },
            Expression::Identifier { token } => {
                match crate::token::identifier_name(token.node) {
                    Some(name) => match lookup(m.frames, env, name) {
                        Some(v) => lemma_force_keeps_tree(m, v, d),
                        None => {},
                    },
                    None => {},
                }
            },
            Expression::If { condition, body, otherwise } => {
                lemma_forced_keeps_tree(m, env, *condition, d);
                let (m1, r1) = eval_forced(m, env, *condition, d);
                lemma_eval_keeps_tree(m1, env, *body, d);
                lemma_eval_keeps_tree(m1, env, *otherwise, d);
            },
            Expression::Lambda { parameter, body } => {
                law_scope_links_point_back(m.frames, env, 0, Seq::empty(), ValueModel::Null);
            },
            Expression::Literal { token } => {},
        }
    }
}

} // verus!
