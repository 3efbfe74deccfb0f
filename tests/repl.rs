use repl_rs::{Action, Arguments, Callback, Command, Error, Parameter, Repl, Result};
use repl_rs::DefaultHelpViewer;

fn foo<T>(args: Arguments, _context: &mut T) -> Result<Option<String>> {
    Ok(Some(format!("foo {:?}", args)))
}

type TestRepl = Repl<(), Callback<(), Error>, DefaultHelpViewer>;

fn foo_repl() -> Result<TestRepl> {
    Ok(Repl::new(())
        .with_name("test")
        .with_version("v0.1.0")
        .with_description("Testing 1, 2, 3...")
        .add_command(
            Command::new("foo", foo as Callback<(), Error>)
                .with_parameter(Parameter::new("bar").set_required(true)?)?
                .with_parameter(Parameter::new("baz").set_required(true)?)?
                .with_help("Do foo when you can"),
        ))
}

/// Runs a line through the shell and, where a command is to be called,
/// calls it as the run loop does.
fn run_line(repl: &mut TestRepl, line: &str) -> Result<Option<String>> {
    match repl.process_line(line)? {
        Action::Invoke(index, args) => {
            let callback = *repl.command_at(index).get_callback();
            callback(args, repl.context_mut())
        }
        Action::GeneralHelp => repl.general_help().map(Some),
        Action::CommandHelp(index) => repl.command_help(index).map(Some),
        Action::Nothing | Action::HelpNotFound(_) => Ok(None),
    }
}

fn bound(args: &Arguments, name: &str) -> Option<String> {
    args.get(name).map(|v| v.as_str().to_string())
}

#[test]
fn test_empty_line_does_nothing() -> Result<()> {
    let mut repl = foo_repl()?;
    assert!(matches!(repl.process_line("\n"), Ok(Action::Nothing)));
    assert_eq!(run_line(&mut repl, "\n"), Ok(None));

    Ok(())
}

#[test]
fn test_missing_required_arg_fails() -> Result<()> {
    let mut repl = foo_repl()?;
    assert_eq!(
        run_line(&mut repl, "foo bar\n"),
        Err(Error::MissingRequiredArgument("foo".into(), "baz".into()))
    );

    Ok(())
}

#[test]
fn test_unknown_command_fails() -> Result<()> {
    let mut repl = foo_repl()?;
    assert_eq!(
        run_line(&mut repl, "bar baz\n"),
        Err(Error::UnknownCommand("bar".to_string()))
    );

    Ok(())
}

#[test]
fn test_no_required_after_optional() -> Result<()> {
    assert_eq!(
        Err(Error::IllegalRequiredError("bar".into())),
        Command::<Callback<(), Error>>::new("foo", foo)
            .with_parameter(Parameter::new("baz").set_default("20")?)?
            .with_parameter(Parameter::new("bar").set_required(true)?)
    );

    Ok(())
}

#[test]
fn test_required_cannot_be_defaulted() -> Result<()> {
    assert_eq!(
        Err(Error::IllegalDefaultError("bar".into())),
        Parameter::new("bar").set_required(true)?.set_default("foo")
    );

    Ok(())
}

#[test]
fn test_string_with_spaces_for_argument() -> Result<()> {
    let mut repl = foo_repl()?;
    match repl.process_line("foo \"baz test 123\" foo\n")? {
        Action::Invoke(_, args) => {
            assert_eq!(bound(&args, "bar"), Some("baz test 123".to_string()));
            assert_eq!(bound(&args, "baz"), Some("foo".to_string()));
        }
        other => panic!("unexpected action {:?}", other),
    }
    assert!(run_line(&mut repl, "foo \"baz test 123\" foo\n").is_ok());

    Ok(())
}

#[test]
fn test_string_with_spaces_for_argument_last() -> Result<()> {
    let mut repl = foo_repl()?;
    match repl.process_line("foo foo \"baz test 123\"\n")? {
        Action::Invoke(_, args) => {
            assert_eq!(bound(&args, "bar"), Some("foo".to_string()));
            assert_eq!(bound(&args, "baz"), Some("baz test 123".to_string()));
        }
        other => panic!("unexpected action {:?}", other),
    }
    assert!(run_line(&mut repl, "foo foo \"baz test 123\"\n").is_ok());

    Ok(())
}
