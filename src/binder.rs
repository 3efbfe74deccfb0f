//! Binding the tokens of a line to the parameters of a command.
use vstd::prelude::*;
use crate::error::{Error, ErrorView};
use crate::parameter::{Parameter, ParameterView};
use crate::value::{Arguments, Value};

verus! {

/// The first index from `j` on of a required parameter, or the length of `ps`.
pub open spec fn first_required_from(ps: Seq<ParameterView>, j: int) -> int
    decreases ps.len() - j,
{
    if j < 0 || j >= ps.len() {
        ps.len() as int
    } else if ps[j].required {
        j
    } else {
        first_required_from(ps, j + 1)
    }
}

/// The binding, if any, that parameter `p` at index `i` gets from `args`:
/// its argument, else its default, else none.
pub open spec fn binding_of(p: ParameterView, args: Seq<Seq<char>>, i: int) -> Seq<
    (Seq<char>, Seq<char>),
> {
    if i < args.len() {
        seq![(p.name, args[i])]
    } else {
        match p.default {
            Some(d) => seq![(p.name, d)],
            None => Seq::empty(),
        }
    }
}

/// The bindings of the first `n` parameters, in parameter order.
pub open spec fn bindings_upto(ps: Seq<ParameterView>, args: Seq<Seq<char>>, n: int) -> Seq<
    (Seq<char>, Seq<char>),
>
    decreases n,
{
    if n <= 0 {
        Seq::empty()
    } else {
        bindings_upto(ps, args, n - 1) + binding_of(ps[n - 1], args, n - 1)
    }
}

/// What binding `args` to the parameters `ps` of `command` gives: too many
/// arguments, else the first required parameter left without one, else the
/// bindings of all parameters.
pub open spec fn bind(command: Seq<char>, ps: Seq<ParameterView>, args: Seq<Seq<char>>) -> Result<
    Seq<(Seq<char>, Seq<char>)>,
    ErrorView,
> {
    if args.len() > ps.len() {
        Err(ErrorView::TooManyArguments(command, ps.len()))
    } else if first_required_from(ps, args.len() as int) < ps.len() {
        Err(ErrorView::MissingRequiredArgument(command, ps[first_required_from(ps, args.len() as int)].name))
    } else {
        Ok(bindings_upto(ps, args, ps.len() as int))
    }
}

pub open spec fn params_view(ps: Seq<Parameter>) -> Seq<ParameterView> {
    ps.map_values(|p: Parameter| p@)
}

pub open spec fn strings_view(ss: Seq<String>) -> Seq<Seq<char>> {
    ss.map_values(|s: String| s@)
}

pub open spec fn bind_result_view(r: Result<Arguments, Error>) -> Result<
    Seq<(Seq<char>, Seq<char>)>,
    ErrorView,
> {
    match r {
        Ok(a) => Ok(a@),
        Err(e) => Err(e@),
    }
}

/// Binds the arguments of one call of `command` to its parameters, by
/// position. Fails with `TooManyArguments` when there are more arguments than
/// parameters, and with `MissingRequiredArgument` for the first required
/// parameter that gets no argument; a parameter without argument takes its
/// default, or stays unbound.
pub fn validate_arguments(command: &str, parameters: &[Parameter], args: &[String]) -> (r: Result<
    Arguments,
    Error,
>)
    ensures
        bind_result_view(r) == bind(command@, params_view(parameters@), strings_view(args@)),
{
    let ghost ps = params_view(parameters@);
    let ghost av = strings_view(args@);
    if args.len() > parameters.len() {
        return Err(Error::TooManyArguments(String::from_str(command), parameters.len()));
    }
    let mut validated = Arguments::new();
    let mut index: usize = 0;
    while index < parameters.len()
        invariant
            ps == params_view(parameters@),
            av == strings_view(args@),
            args.len() <= parameters.len(),
            index <= parameters.len(),
            validated@ == bindings_upto(ps, av, index as int),
            index >= args.len() ==> first_required_from(ps, args.len() as int)
                == first_required_from(ps, index as int),
        decreases parameters.len() - index,
    {
        let parameter = &parameters[index];
        if index < args.len() {
            validated.insert(parameter.name().clone(), Value::new(args[index].as_str()));
        } else if parameter.required() {
            return Err(
                Error::MissingRequiredArgument(String::from_str(command), parameter.name().clone()),
            );
        } else {
            match parameter.default() {
                Some(d) => {
                    validated.insert(parameter.name().clone(), Value::new(d.as_str()));
                },
                None => {},
            }
        }
        assert(validated@ =~= bindings_upto(ps, av, index + 1));
        index = index + 1;
    }
    Ok(validated)
}

proof fn lemma_first_required_from(ps: Seq<ParameterView>, j: int)
    requires
        0 <= j <= ps.len(),
    ensures
        j <= first_required_from(ps, j) <= ps.len(),
        first_required_from(ps, j) < ps.len() ==> ps[first_required_from(ps, j)].required,
        forall|k: int| j <= k < first_required_from(ps, j) ==> !#[trigger] ps[k].required,
    decreases ps.len() - j,
{
    if j < ps.len() && !ps[j].required {
        lemma_first_required_from(ps, j + 1);
    }
}

/// Binding is a function of the command name, its parameters and the
/// arguments: equal inputs give equal binding maps, or equal errors.
pub proof fn lemma_bind_deterministic(
    c1: Seq<char>,
    ps1: Seq<ParameterView>,
    args1: Seq<Seq<char>>,
    c2: Seq<char>,
    ps2: Seq<ParameterView>,
    args2: Seq<Seq<char>>,
)
    requires
        c1 == c2,
        ps1 == ps2,
        args1 == args2,
    ensures
        bind(c1, ps1, args1) == bind(c2, ps2, args2),
{
}

/// `TooManyArguments` comes exactly when there are more arguments than
/// parameters. `MissingRequiredArgument` comes exactly when, the count being
/// within bounds, some required parameter gets no argument, and it names the
/// first such parameter.
pub proof fn lemma_bind_errors(command: Seq<char>, ps: Seq<ParameterView>, args: Seq<Seq<char>>)
    ensures
        bind(command, ps, args) matches Err(ErrorView::TooManyArguments(c, n)) <==> args.len() > ps.len(),
        bind(command, ps, args) matches Err(ErrorView::MissingRequiredArgument(c, p)) <==> (
        args.len() <= ps.len() && exists|j: int|
            args.len() <= j < ps.len() && #[trigger] ps[j].required),
        forall|j: int|
            args.len() <= j < ps.len() && #[trigger] ps[j].required && args.len() <= ps.len() && (
            forall|k: int| args.len() <= k < j ==> !#[trigger] ps[k].required) ==> bind(
                command,
                ps,
                args,
            ) == Err::<Seq<(Seq<char>, Seq<char>)>, ErrorView>(
                ErrorView::MissingRequiredArgument(command, ps[j].name),
            ),
        bind(command, ps, args) matches Err(e) ==> (e is TooManyArguments
            || e is MissingRequiredArgument),
{
    if args.len() <= ps.len() {
        lemma_first_required_from(ps, args.len() as int);
        let f = first_required_from(ps, args.len() as int);
        assert forall|j: int|
            args.len() <= j < ps.len() && #[trigger] ps[j].required && (forall|k: int|
                args.len() <= k < j ==> !#[trigger] ps[k].required) implies f == j by {
            if f < j {
                assert(!ps[f].required);
            }
        }
        if f < ps.len() {
            assert(ps[f].required);
        }
    }
}

} // verus!
