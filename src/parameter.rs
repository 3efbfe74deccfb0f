//! The contract of one named positional argument of a command.
use vstd::prelude::*;
use crate::error::{Error, ErrorView};

verus! {

/// One positional parameter of a command: a name, whether an argument must
/// be supplied for it, and the text used when none is.
#[derive(Debug, PartialEq, Eq)]
pub struct Parameter {
    name: String,
    required: bool,
    default: Option<String>,
}

/// The content of a [`Parameter`].
pub struct ParameterView {
    pub name: Seq<char>,
    pub required: bool,
    pub default: Option<Seq<char>>,
}

impl ParameterView {
    /// A parameter is never both required and defaulted.
    pub open spec fn valid(self) -> bool {
        !(self.required && self.default is Some)
    }
}

pub open spec fn opt_view(o: Option<String>) -> Option<Seq<char>> {
    match o {
        Some(s) => Some(s@),
        None => None,
    }
}

/// What `set_required` makes of a parameter.
pub open spec fn set_required_spec(p: ParameterView, required: bool) -> std::result::Result<
    ParameterView,
    ErrorView,
> {
    if required && p.default is Some {
        Err(ErrorView::IllegalRequired(p.name))
    } else {
        Ok(ParameterView { required, ..p })
    }
}

/// What `set_default` makes of a parameter.
pub open spec fn set_default_spec(p: ParameterView, default: Seq<char>) -> std::result::Result<
    ParameterView,
    ErrorView,
> {
    if p.required {
        Err(ErrorView::IllegalDefault(p.name))
    } else {
        Ok(ParameterView { default: Some(default), ..p })
    }
}

impl View for Parameter {
    type V = ParameterView;

    closed spec fn view(&self) -> ParameterView {
        ParameterView { name: self.name@, required: self.required, default: opt_view(self.default) }
    }
}

pub open spec fn result_view(r: std::result::Result<Parameter, Error>) -> std::result::Result<
    ParameterView,
    ErrorView,
> {
    match r {
        Ok(p) => Ok(p@),
        Err(e) => Err(e@),
    }
}

impl Parameter {
    #[verifier::type_invariant]
    pub open spec fn inv(self) -> bool {
        self@.valid()
    }

    /// A new optional parameter with no default.
    pub fn new(name: &str) -> (r: Parameter)
        ensures
            r@ == (ParameterView { name: name@, required: false, default: None }),
    {
        Parameter { name: String::from_str(name), required: false, default: None }
    }

    /// Marks the parameter required or optional. Making a defaulted parameter
    /// required is refused.
    pub fn set_required(self, required: bool) -> (r: Result<Parameter, Error>)
        ensures
            result_view(r) == set_required_spec(self@, required),
    {
        proof {
            use_type_invariant(&self);
        }
        if required && self.default.is_some() {
            return Err(Error::IllegalRequiredError(self.name));
        }
        Ok(Parameter { required, ..self })
    }

    /// Gives the parameter a default value. A required parameter cannot have one.
    pub fn set_default(self, default: &str) -> (r: Result<Parameter, Error>)
        ensures
            result_view(r) == set_default_spec(self@, default@),
    {
        proof {
            use_type_invariant(&self);
        }
        if self.required {
            return Err(Error::IllegalDefaultError(self.name));
        }
        Ok(Parameter { default: Some(String::from_str(default)), ..self })
    }

    pub fn name(&self) -> (r: &String)
        ensures
            r@ == self@.name,
    {
        &self.name
    }

    pub fn required(&self) -> (r: bool)
        ensures
            r == self@.required,
            self@.valid(),
    {
        proof {
            use_type_invariant(self);
        }
        self.required
    }

    pub fn default(&self) -> (r: &Option<String>)
        ensures
            opt_view(*r) == self@.default,
            self@.valid(),
    {
        proof {
            use_type_invariant(self);
        }
        &self.default
    }
}

/// The two ways of giving a valid parameter both a required mark and a
/// default, in either order, both fail; and each step keeps it valid.
pub proof fn lemma_required_excludes_default(p: ParameterView, default: Seq<char>)
    requires
        p.valid(),
    ensures
        set_required_spec(p, true) is Ok ==> set_default_spec(
            set_required_spec(p, true)->Ok_0,
            default,
        ) == Err::<ParameterView, ErrorView>(ErrorView::IllegalDefault(p.name)),
        set_default_spec(p, default) is Ok ==> set_required_spec(
            set_default_spec(p, default)->Ok_0,
            true,
        ) == Err::<ParameterView, ErrorView>(ErrorView::IllegalRequired(p.name)),
        forall|r: bool| #[trigger] set_required_spec(p, r) is Ok ==> set_required_spec(p, r)->Ok_0.valid(),
        set_default_spec(p, default) is Ok ==> set_default_spec(p, default)->Ok_0.valid(),
{
}

/// A change made to a parameter.
pub enum ParameterChange {
    Required(bool),
    Default(Seq<char>),
}

/// What a change makes of a parameter.
pub open spec fn change_spec(p: ParameterView, c: ParameterChange) -> std::result::Result<
    ParameterView,
    ErrorView,
> {
    match c {
        ParameterChange::Required(r) => set_required_spec(p, r),
        ParameterChange::Default(d) => set_default_spec(p, d),
    }
}

/// The parameter after the changes in turn, where a refused change leaves it
/// as it was.
pub open spec fn change_each(p: ParameterView, cs: Seq<ParameterChange>) -> ParameterView
    decreases cs.len(),
{
    if cs.len() == 0 {
        p
    } else {
        let prev = change_each(p, cs.drop_last());
        match change_spec(prev, cs.last()) {
            Ok(next) => next,
            Err(_) => prev,
        }
    }
}

/// In whatever order changes are made to a new parameter, it is never both
/// required and defaulted.
pub proof fn lemma_never_required_and_defaulted(name: Seq<char>, cs: Seq<ParameterChange>)
    ensures
        change_each(ParameterView { name, required: false, default: None }, cs).valid(),
    decreases cs.len(),
{
    if cs.len() > 0 {
        lemma_never_required_and_defaulted(name, cs.drop_last());
    }
}

} // verus!
