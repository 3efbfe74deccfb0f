//! Argument values and the name-to-value map built for one dispatch.
use vstd::prelude::*;
use crate::error::{Error, ErrorView};
use crate::text::{chars_of, str_eq};

verus! {

/// The text of one argument, as supplied on the line or as a default.
#[derive(Debug, PartialEq, Eq)]
pub struct Value {
    text: String,
}

impl View for Value {
    type V = Seq<char>;

    closed spec fn view(&self) -> Seq<char> {
        self.text@
    }
}

impl Value {
    pub fn new(text: &str) -> (r: Value)
        ensures
            r@ == text@,
    {
        Value { text: String::from_str(text) }
    }

    /// The argument as a 64-bit integer. Text that writes no integer, or
    /// one out of range, is refused with a `CommandError`.
    pub fn to_integer(&self) -> (r: Result<i64, Error>)
        ensures
            match integer_of(self@) {
                Some(n) if fits_i64(n) => r == Ok::<i64, Error>(n as i64),
                _ => r matches Err(e) && e@ == ErrorView::Command(conversion_failure(self@, "integer"@)),
            },
    {
        let cs = chars_of(self.text.as_str());
        let ghost s = self@;
        let n = cs.len();
        let mut start: usize = 0;
        if n > 0 && (cs[0] == '-' || cs[0] == '+') {
            start = 1;
        }
        let ghost d = s.subrange(start as int, n as int);
        assert(start == 1 ==> d =~= s.drop_first());
        assert(start == 0 ==> d =~= s);
        if start == n {
            return Err(Error::CommandError(self.not_an("integer")));
        }
        let limit: u128 = 9223372036854775808;
        let mut acc: u128 = 0;
        let mut big = false;
        let mut i: usize = start;
        while i < n
            invariant
                cs@ == s,
                s == self@,
                n == cs.len(),
                start <= i <= n,
                d == s.subrange(start as int, n as int),
                start == 1 ==> d == s.drop_first(),
                start == 0 ==> d == s,
                (start == 1) == (s.len() > 0 && (s[0] == '-' || s[0] == '+')),
                all_digits(s.subrange(start as int, i as int)),
                !big ==> acc == digits_value(s.subrange(start as int, i as int)) && acc <= limit,
                big ==> digits_value(s.subrange(start as int, i as int)) > limit,
                limit == 9223372036854775808,
            decreases n - i,
        {
            let ghost pre = s.subrange(start as int, i as int);
            let ghost next = s.subrange(start as int, i + 1);
            assert(next.drop_last() =~= pre);
            match char_digit(cs[i]) {
                None => {
                    assert(d[i - start] == s[i as int]);
                    assert(digit_value(d[i - start]) is None);

                    return Err(Error::CommandError(self.not_an("integer")));
                },
                Some(v) => {
                    assert forall|j: int| 0 <= j < next.len() implies #[trigger] digit_value(next[j]) is Some by {
                        if j < pre.len() {
                            assert(next[j] == pre[j]);
                        }
                    }
                    if !big {
                        acc = acc * 10 + v as u128;
                        if acc > limit {
                            big = true;
                        }
                    }
                },
            }
            i = i + 1;
        }
        assert(s.subrange(start as int, i as int) =~= d);
        if n > 0 && cs[0] == '-' {
            if big {
                Err(Error::CommandError(self.not_an("integer")))
            } else if acc == limit {
                Ok(i64::MIN)
            } else {
                Ok(-(acc as i64))
            }
        } else {
            if big || acc == limit {
                Err(Error::CommandError(self.not_an("integer")))
            } else {
                Ok(acc as i64)
            }
        }
    }

    /// The argument as a boolean: `true` or `false`, nothing else.
    pub fn to_bool(&self) -> (r: Result<bool, Error>)
        ensures
            self@ == "true"@ ==> r == Ok::<bool, Error>(true),
            self@ == "false"@ ==> r == Ok::<bool, Error>(false),
            self@ != "true"@ && self@ != "false"@ ==> (r matches Err(e) && e@ == ErrorView::Command(
                conversion_failure(self@, "boolean"@),
            )),
    {
        proof {
            reveal_strlit("true");
            reveal_strlit("false");
            assert("true"@.len() != "false"@.len());
        }
        if str_eq(self.text.as_str(), "true") {
            Ok(true)
        } else if str_eq(self.text.as_str(), "false") {
            Ok(false)
        } else {
            Err(Error::CommandError(self.not_an("boolean")))
        }
    }

    /// The message of a failed conversion of this value to `kind`.
    fn not_an(&self, kind: &str) -> (r: String)
        ensures
            r@ == conversion_failure(self@, kind@),
    {
        let mut m = String::from_str("'");
        m.append(self.text.as_str());
        m.append("' is not a valid ");
        m.append(kind);
        m
    }

    /// The argument's text.
    pub fn as_str(&self) -> (r: &str)
        ensures
            r@ == self@,
    {
        self.text.as_str()
    }
}

/// The value of a decimal digit character, if it is one.
pub open spec fn digit_value(c: char) -> Option<nat> {
    if c == '0' { Some(0) }
    else if c == '1' { Some(1) }
    else if c == '2' { Some(2) }
    else if c == '3' { Some(3) }
    else if c == '4' { Some(4) }
    else if c == '5' { Some(5) }
    else if c == '6' { Some(6) }
    else if c == '7' { Some(7) }
    else if c == '8' { Some(8) }
    else if c == '9' { Some(9) }
    else { None }
}

fn char_digit(c: char) -> (r: Option<u8>)
    ensures
        match digit_value(c) {
            Some(d) => r == Some(d as u8),
            None => r is None,
        },
{
    if c == '0' { Some(0) }
    else if c == '1' { Some(1) }
    else if c == '2' { Some(2) }
    else if c == '3' { Some(3) }
    else if c == '4' { Some(4) }
    else if c == '5' { Some(5) }
    else if c == '6' { Some(6) }
    else if c == '7' { Some(7) }
    else if c == '8' { Some(8) }
    else if c == '9' { Some(9) }
    else { None }
}

pub open spec fn all_digits(d: Seq<char>) -> bool {
    forall|i: int| 0 <= i < d.len() ==> #[trigger] digit_value(d[i]) is Some
}

/// The number that a run of decimal digits denotes.
pub open spec fn digits_value(d: Seq<char>) -> nat
    decreases d.len(),
{
    if d.len() == 0 {
        0
    } else {
        digits_value(d.drop_last()) * 10 + match digit_value(d.last()) {
            Some(v) => v,
            None => 0,
        }
    }
}

/// The integer that `s` writes: an optional `+` or `-`, then one or more
/// decimal digits.
pub open spec fn integer_of(s: Seq<char>) -> Option<int> {
    let signed = s.len() > 0 && (s[0] == '-' || s[0] == '+');
    let d = if signed { s.drop_first() } else { s };
    if d.len() > 0 && all_digits(d) {
        Some(if s[0] == '-' { -(digits_value(d) as int) } else { digits_value(d) as int })
    } else {
        None
    }
}

pub open spec fn fits_i64(n: int) -> bool {
    i64::MIN <= n <= i64::MAX
}

/// The message of a failed conversion of `text` to `kind`.
pub open spec fn conversion_failure(text: Seq<char>, kind: Seq<char>) -> Seq<char> {
    "'"@ + text + "' is not a valid "@ + kind
}

/// The message of a failed conversion of the argument of `parameter` for
/// `command`, with the reason.
pub open spec fn argument_failure(command: Seq<char>, parameter: Seq<char>, reason: Seq<char>) -> Seq<
    char,
> {
    "Invalid argument '"@ + parameter + "' for command '"@ + command + "': "@ + reason
}

/// The message for an argument that is not bound.
pub open spec fn argument_missing(command: Seq<char>, parameter: Seq<char>) -> Seq<char> {
    "No argument '"@ + parameter + "' for command '"@ + command + "'"@
}

fn wrap_failure(command: &str, parameter: &str, e: Error) -> (r: Error)
    ensures
        e@ matches ErrorView::Command(m) ==> r@ == ErrorView::Command(argument_failure(command@, parameter@, m)),
        !(e@ is Command) ==> r == e,
{
    match e {
        Error::CommandError(reason) => {
            let mut m = String::from_str("Invalid argument '");
            m.append(parameter);
            m.append("' for command '");
            m.append(command);
            m.append("': ");
            m.append(reason.as_str());
            Error::CommandError(m)
        },
        other => other,
    }
}

fn missing(command: &str, parameter: &str) -> (r: Error)
    ensures
        r@ == ErrorView::Command(argument_missing(command@, parameter@)),
{
    let mut m = String::from_str("No argument '");
    m.append(parameter);
    m.append("' for command '");
    m.append(command);
    m.append("'");
    Error::CommandError(m)
}

/// The value bound to `name` in `entries`: that of the last entry of that name.
pub open spec fn lookup(entries: Seq<(Seq<char>, Seq<char>)>, name: Seq<char>) -> Option<Seq<char>>
    decreases entries.len(),
{
    if entries.len() == 0 {
        None
    } else if entries.last().0 == name {
        Some(entries.last().1)
    } else {
        lookup(entries.drop_last(), name)
    }
}

/// The arguments bound for one call of a command, by parameter name, in the
/// order of the command's parameters.
#[derive(Debug, PartialEq, Eq)]
pub struct Arguments {
    entries: Vec<(String, Value)>,
}

impl View for Arguments {
    type V = Seq<(Seq<char>, Seq<char>)>;

    closed spec fn view(&self) -> Seq<(Seq<char>, Seq<char>)> {
        self.entries@.map_values(|e: (String, Value)| (e.0@, e.1@))
    }
}

impl Arguments {
    /// An empty binding map.
    pub fn new() -> (r: Arguments)
        ensures
            r@ == Seq::<(Seq<char>, Seq<char>)>::empty(),
    {
        Arguments { entries: Vec::new() }
    }

    /// Binds `name` to `value`, after the bindings already made.
    pub fn insert(&mut self, name: String, value: Value)
        ensures
            final(self)@ == old(self)@.push((name@, value@)),
    {
        self.entries.push((name, value));
        assert(self@ =~= old(self)@.push((name@, value@)));
    }

    /// The number of bindings.
    pub fn len(&self) -> (r: usize)
        ensures
            r == self@.len(),
    {
        self.entries.len()
    }

    /// The argument of `parameter` as a 64-bit integer. An unbound argument,
    /// or one that writes no integer in range, is refused with a
    /// `CommandError` naming the parameter and `command`.
    pub fn integer(&self, command: &str, parameter: &str) -> (r: Result<i64, Error>)
        ensures
            match lookup(self@, parameter@) {
                None => r matches Err(e) && e@ == ErrorView::Command(argument_missing(command@, parameter@)),
                Some(t) => match integer_of(t) {
                    Some(n) if fits_i64(n) => r == Ok::<i64, Error>(n as i64),
                    _ => r matches Err(e) && e@ == ErrorView::Command(
                        argument_failure(command@, parameter@, conversion_failure(t, "integer"@)),
                    ),
                },
            },
    {
        match self.get(parameter) {
            None => Err(missing(command, parameter)),
            Some(v) => match v.to_integer() {
                Ok(n) => Ok(n),
                Err(e) => Err(wrap_failure(command, parameter, e)),
            },
        }
    }

    /// The argument of `parameter` as a boolean. An unbound argument, or one
    /// other than `true` and `false`, is refused with a `CommandError` naming
    /// the parameter and `command`.
    pub fn boolean(&self, command: &str, parameter: &str) -> (r: Result<bool, Error>)
        ensures
            match lookup(self@, parameter@) {
                None => r matches Err(e) && e@ == ErrorView::Command(argument_missing(command@, parameter@)),
                Some(t) => {
                    &&& t == "true"@ ==> r == Ok::<bool, Error>(true)
                    &&& t == "false"@ ==> r == Ok::<bool, Error>(false)
                    &&& t != "true"@ && t != "false"@ ==> (r matches Err(e) && e@ == ErrorView::Command(
                        argument_failure(command@, parameter@, conversion_failure(t, "boolean"@)),
                    ))
                },
            },
    {
        match self.get(parameter) {
            None => Err(missing(command, parameter)),
            Some(v) => match v.to_bool() {
                Ok(b) => Ok(b),
                Err(e) => Err(wrap_failure(command, parameter, e)),
            },
        }
    }

    /// The value bound to `name`, if any.
    pub fn get(&self, name: &str) -> (r: Option<&Value>)
        ensures
            match r {
                Some(v) => lookup(self@, name@) == Some(v@),
                None => lookup(self@, name@) is None,
            },
    {
        let mut i: usize = self.entries.len();
        assert(self@.take(i as int) =~= self@);
        while i > 0
            invariant
                i <= self.entries.len(),
                lookup(self@, name@) == lookup(self@.take(i as int), name@),
            decreases i,
        {
            let e = &self.entries[i - 1];
            assert(self@.take(i as int).drop_last() =~= self@.take(i - 1));
            if str_eq(e.0.as_str(), name) {
                return Some(&e.1);
            }
            i = i - 1;
        }
        None
    }
}

} // verus!
