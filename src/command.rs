//! Commands: a name, ordered parameters, a callback and an optional summary.
use vstd::prelude::*;
use crate::error::{Error, ErrorView};
use crate::parameter::{opt_view, Parameter, ParameterView};
use crate::text::str_eq;
use crate::value::Arguments;

verus! {

/// The signature of a command's callback: it gets the bound arguments and
/// the shell's context, and returns the text to print, if any.
pub type Callback<Context, E> = fn(Arguments, &mut Context) -> std::result::Result<
    Option<String>,
    E,
>;

/// No required parameter comes after an optional one.
pub open spec fn params_ordered(ps: Seq<ParameterView>) -> bool {
    forall|i: int, j: int| 0 <= i < j < ps.len() && #[trigger] ps[j].required ==> #[trigger] ps[i].required
}

/// Each parameter is valid and the list is ordered.
pub open spec fn params_valid(ps: Seq<ParameterView>) -> bool {
    &&& forall|i: int| 0 <= i < ps.len() ==> #[trigger] ps[i].valid()
    &&& params_ordered(ps)
}

/// Whether `ps` holds an optional parameter.
pub open spec fn has_optional(ps: Seq<ParameterView>) -> bool {
    exists|i: int| 0 <= i < ps.len() && !#[trigger] ps[i].required
}

/// What appending `p` to the parameter list `ps` gives: a required parameter
/// after an optional one is refused, naming the new parameter.
pub open spec fn append_spec(ps: Seq<ParameterView>, p: ParameterView) -> std::result::Result<
    Seq<ParameterView>,
    ErrorView,
> {
    if p.required && has_optional(ps) {
        Err(ErrorView::IllegalRequired(p.name))
    } else {
        Ok(ps.push(p))
    }
}

/// The content of a [`Command`], without its callback.
pub struct CommandView {
    pub name: Seq<char>,
    pub parameters: Seq<ParameterView>,
    pub help_summary: Option<Seq<char>>,
}

/// A command of the shell, with a callback of type `F`, most often a
/// [`Callback`].
#[derive(Debug)]
pub struct Command<F> {
    name: String,
    parameters: Vec<Parameter>,
    callback: F,
    help_summary: Option<String>,
}

impl<F> View for Command<F> {
    type V = CommandView;

    closed spec fn view(&self) -> CommandView {
        CommandView {
            name: self.name@,
            parameters: self.parameters@.map_values(|p: Parameter| p@),
            help_summary: opt_view(self.help_summary),
        }
    }
}

pub open spec fn command_result_view<F>(r: std::result::Result<Command<F>, Error>) -> std::result::Result<
    CommandView,
    ErrorView,
> {
    match r {
        Ok(c) => Ok(c@),
        Err(e) => Err(e@),
    }
}

impl<F> Command<F> {
    /// The parameters are valid and ordered; every constructor and mutator
    /// of this type keeps it so.
    pub open spec fn wf(&self) -> bool {
        params_valid(self@.parameters)
    }

    /// A command with the given name and callback, no parameters and no summary.
    pub fn new(name: &str, callback: F) -> (r: Command<F>)
        ensures
            r@ == (CommandView { name: name@, parameters: Seq::empty(), help_summary: None }),
            r.callback() == callback,
            r.wf(),
    {
        let r = Command { name: String::from_str(name), parameters: Vec::new(), callback, help_summary: None };
        assert(r@.parameters =~= Seq::<ParameterView>::empty());
        r
    }

    /// Appends a parameter, after those already declared. A required
    /// parameter after an optional one is refused and the list stays as it was.
    pub fn add_parameter(&mut self, parameter: Parameter) -> (r: Result<(), Error>)
        ensures
            match append_spec(old(self)@.parameters, parameter@) {
                Ok(ps) => r is Ok && final(self)@ == (CommandView { parameters: ps, ..old(self)@ }),
                Err(e) => r matches Err(x) && x@ == e && final(self)@ == old(self)@,
            },
            final(self).callback() == old(self).callback(),
            old(self).wf() ==> final(self).wf(),
    {
        proof {
            use_type_invariant(&parameter);
        }
        if parameter.required() {
            let mut i: usize = 0;
            while i < self.parameters.len()
                invariant
                    i <= self.parameters.len(),
                    *self == *old(self),
                    parameter@.required,
                    forall|j: int| 0 <= j < i ==> #[trigger] self@.parameters[j].required,
                decreases self.parameters.len() - i,
            {
                if !self.parameters[i].required() {
                    assert(!self@.parameters[i as int].required);
                    let name = parameter.name().clone();
                    assert(has_optional(self@.parameters));
                    return Err(Error::IllegalRequiredError(name));
                }
                i = i + 1;
            }
        }
        proof {
            if parameter@.required {
                assert(!has_optional(self@.parameters));
            }
        }
        let ghost pre = self@;
        self.parameters.push(parameter);
        assert(self@.parameters =~= pre.parameters.push(parameter@));
        proof {
            if params_valid(pre.parameters) {
                lemma_append_keeps_valid(pre.parameters, parameter@);
            }
        }
        Ok(())
    }

    /// Adds a parameter to the command, after those already declared. A
    /// required parameter after an optional one is refused.
    pub fn with_parameter(self, parameter: Parameter) -> (r: Result<Command<F>, Error>)
        ensures
            command_result_view(r) == match append_spec(self@.parameters, parameter@) {
                Ok(ps) => Ok(CommandView { parameters: ps, ..self@ }),
                Err(e) => Err(e),
            },
            r matches Ok(c) ==> c.callback() == self.callback() && (self.wf() ==> c.wf()),
    {
        let mut c = self;
        match c.add_parameter(parameter) {
            Ok(()) => Ok(c),
            Err(e) => Err(e),
        }
    }

    /// Sets the command's help summary.
    pub fn with_help(self, help: &str) -> (r: Command<F>)
        ensures
            r@ == (CommandView { help_summary: Some(help@), ..self@ }),
            r.callback() == self.callback(),
            self.wf() ==> r.wf(),
    {
        Command { help_summary: Some(String::from_str(help)), ..self }
    }

    pub fn name(&self) -> (r: &String)
        ensures
            r@ == self@.name,
    {
        &self.name
    }

    pub fn parameters(&self) -> (r: &Vec<Parameter>)
        ensures
            r@.map_values(|p: Parameter| p@) == self@.parameters,
    {
        &self.parameters
    }

    pub fn help_summary(&self) -> (r: &Option<String>)
        ensures
            opt_view(*r) == self@.help_summary,
    {
        &self.help_summary
    }

    pub closed spec fn callback(&self) -> F {
        self.callback
    }

    /// The command's callback.
    pub fn get_callback(&self) -> (r: &F)
        ensures
            *r == self.callback(),
    {
        &self.callback
    }
}

fn opt_eq(a: &Option<String>, b: &Option<String>) -> (r: bool)
    ensures
        r == (opt_view(*a) == opt_view(*b)),
{
    match (a, b) {
        (Some(x), Some(y)) => str_eq(x.as_str(), y.as_str()),
        (None, None) => true,
        _ => false,
    }
}

/// Two commands are equal when their names, parameters and summaries are;
/// callbacks are not compared.
impl<F> PartialEq for Command<F> {
    fn eq(&self, other: &Command<F>) -> (r: bool) {
        if !str_eq(self.name.as_str(), other.name.as_str()) || !opt_eq(&self.help_summary, &other.help_summary)
            || self.parameters.len() != other.parameters.len() {
            return false;
        }
        let mut i: usize = 0;
        while i < self.parameters.len()
            invariant
                i <= self.parameters.len(),
                self.parameters.len() == other.parameters.len(),
                self@.parameters.take(i as int) == other@.parameters.take(i as int),
            decreases self.parameters.len() - i,
        {
            let (p, q) = (&self.parameters[i], &other.parameters[i]);
            if !str_eq(p.name().as_str(), q.name().as_str()) || p.required() != q.required() || !opt_eq(p.default(), q.default()) {
                assert(self@.parameters[i as int] != other@.parameters[i as int]);
                return false;
            }
            assert(self@.parameters.take(i + 1) =~= self@.parameters.take(i as int).push(p@));
            assert(other@.parameters.take(i + 1) =~= other@.parameters.take(i as int).push(q@));
            i = i + 1;
        }
        assert(self@.parameters =~= self@.parameters.take(i as int));
        assert(other@.parameters =~= other@.parameters.take(i as int));
        true
    }
}

impl<F> vstd::std_specs::cmp::PartialEqSpecImpl for Command<F> {
    open spec fn obeys_eq_spec() -> bool {
        true
    }

    open spec fn eq_spec(&self, other: &Command<F>) -> bool {
        self@ == other@
    }
}

/// The list after appending each of `qs` in turn, where a refused append
/// leaves the list as it was.
pub open spec fn append_each(ps: Seq<ParameterView>, qs: Seq<ParameterView>) -> Seq<ParameterView>
    decreases qs.len(),
{
    if qs.len() == 0 {
        ps
    } else {
        let prev = append_each(ps, qs.drop_last());
        match append_spec(prev, qs.last()) {
            Ok(next) => next,
            Err(_) => prev,
        }
    }
}

/// Appending keeps what was there: the earlier list is a prefix of the later.
pub proof fn lemma_append_each_keeps_prefix(ps: Seq<ParameterView>, qs: Seq<ParameterView>)
    ensures
        ps.len() <= append_each(ps, qs).len(),
        append_each(ps, qs).take(ps.len() as int) == ps,
    decreases qs.len(),
{
    if qs.len() > 0 {
        lemma_append_each_keeps_prefix(ps, qs.drop_last());
        let prev = append_each(ps, qs.drop_last());
        if append_spec(prev, qs.last()) is Ok {
            assert(prev.push(qs.last()).take(ps.len() as int) =~= prev.take(ps.len() as int));
        }
    }
}

/// Once an optional parameter has been appended to any list, whatever is
/// appended after it, appending a required parameter fails with
/// `IllegalRequired` naming that parameter.
pub proof fn lemma_no_required_after_optional(
    ps: Seq<ParameterView>,
    optional: ParameterView,
    later: Seq<ParameterView>,
    required: ParameterView,
)
    requires
        !optional.required,
        required.required,
    ensures
        append_spec(ps, optional) == Ok::<Seq<ParameterView>, ErrorView>(ps.push(optional)),
        append_spec(append_each(ps.push(optional), later), required) == Err::<
            Seq<ParameterView>,
            ErrorView,
        >(ErrorView::IllegalRequired(required.name)),
{
    let start = ps.push(optional);
    let list = append_each(start, later);
    lemma_append_each_keeps_prefix(start, later);
    assert(list.take(start.len() as int)[ps.len() as int] == optional);
    assert(!list[ps.len() as int].required);
    assert(has_optional(list));
}

/// Appending to a valid list gives a valid list.
pub proof fn lemma_append_keeps_valid(ps: Seq<ParameterView>, p: ParameterView)
    requires
        params_valid(ps),
        p.valid(),
    ensures
        append_spec(ps, p) is Ok ==> params_valid(append_spec(ps, p)->Ok_0),
{
    if append_spec(ps, p) is Ok {
        let qs = ps.push(p);
        assert forall|i: int, j: int| 0 <= i < j < qs.len() && #[trigger] qs[j].required implies #[trigger] qs[i].required by {
            if j == ps.len() {
                if !qs[i].required {
                    assert(!ps[i].required);
                }
            } else {
                assert(ps[j].required);
            }
        }
    }
}

} // verus!
