use repl_rs::{after_handler, on_read, route_result, LoopStep, Outcome, ReadEvent};
use repl_rs::{completion_candidates, tokenize, validate_arguments};
use repl_rs::{Action, Arguments, Callback, Command, DefaultHelpViewer, Error, HelpContext};
use repl_rs::{HelpEntry, HelpViewer, Parameter, Repl, Result, Value};

type Shell = Repl<(), Callback<(), Error>, DefaultHelpViewer>;

fn add<T>(args: Arguments, _context: &mut T) -> Result<Option<String>> {
    let first: i32 = args.get("first").unwrap().as_str().parse().unwrap();
    let second: i32 = args.get("second").unwrap().as_str().parse().unwrap();
    Ok(Some((first + second).to_string()))
}

fn nothing<T>(_args: Arguments, _context: &mut T) -> Result<Option<String>> {
    Ok(None)
}

fn strings(v: &[&str]) -> Vec<String> {
    v.iter().map(|s| s.to_string()).collect()
}

fn pairs(args: &Arguments, names: &[&str]) -> Vec<(String, Option<String>)> {
    names
        .iter()
        .map(|n| (n.to_string(), args.get(n).map(|v| v.as_str().to_string())))
        .collect()
}

fn shell() -> Result<Shell> {
    Ok(Repl::new(())
        .with_name("MyApp")
        .with_version("v0.1.0")
        .with_description("My very cool app")
        .add_command(
            Command::new("add", add as Callback<(), Error>)
                .with_parameter(Parameter::new("first").set_required(true)?)?
                .with_parameter(Parameter::new("second").set_required(true)?)?
                .with_help("Add two numbers together"),
        )
        .add_command(
            Command::new("foo", nothing as Callback<(), Error>)
                .with_parameter(Parameter::new("bar").set_required(true)?)?
                .with_parameter(Parameter::new("baz").set_default("20")?)?,
        ))
}

#[test]
fn tokenize_quoted_run_is_one_token() {
    assert_eq!(tokenize("foo \"hello world\" bar"), strings(&["foo", "hello world", "bar"]));
}

#[test]
fn tokenize_blank_lines_give_no_token() {
    assert_eq!(tokenize(""), Vec::<String>::new());
    assert_eq!(tokenize("  \t \n"), Vec::<String>::new());
}

#[test]
fn tokenize_stray_quotes_are_dropped() {
    assert_eq!(tokenize("ab\"cd ef\""), strings(&["abcd", "ef"]));
    assert_eq!(tokenize("\"\""), strings(&[""]));
    assert_eq!(tokenize("\"a b"), strings(&["a", "b"]));
}

#[test]
fn tokenize_quoted_token_ends_at_closing_quote() {
    assert_eq!(tokenize("\"a b\"c"), strings(&["a b", "c"]));
    assert_eq!(tokenize("x\t\"a\nb\" y"), strings(&["x", "a", "b", "y"]));
}

#[test]
fn add_two_numbers_prints_sum() -> Result<()> {
    let mut repl = shell()?;
    match repl.process_line("add 2 3")? {
        Action::Invoke(index, args) => {
            assert_eq!(
                pairs(&args, &["first", "second"]),
                vec![
                    ("first".to_string(), Some("2".to_string())),
                    ("second".to_string(), Some("3".to_string()))
                ]
            );
            let callback = *repl.command_at(index).get_callback();
            assert_eq!(callback(args, repl.context_mut()), Ok(Some("5".to_string())));
        }
        other => panic!("unexpected action {:?}", other),
    }
    Ok(())
}

#[test]
fn missing_second_of_two_required() -> Result<()> {
    let mut repl = Repl::new(()).add_command(
        Command::new("foo", nothing as Callback<(), Error>)
            .with_parameter(Parameter::new("bar").set_required(true)?)?
            .with_parameter(Parameter::new("baz").set_required(true)?)?,
    );
    assert_eq!(
        repl.process_line("foo onlyone").unwrap_err(),
        Error::MissingRequiredArgument("foo".to_string(), "baz".to_string())
    );
    Ok(())
}

#[test]
fn unknown_command_is_reported() -> Result<()> {
    let mut repl = shell()?;
    assert_eq!(repl.process_line("xyz").unwrap_err(), Error::UnknownCommand("xyz".to_string()));
    Ok(())
}

#[test]
fn help_for_unknown_command_is_a_soft_miss() -> Result<()> {
    let mut repl = shell()?;
    match repl.process_line("help frobnicate")? {
        Action::HelpNotFound(name) => assert_eq!(name, "frobnicate"),
        other => panic!("unexpected action {:?}", other),
    }
    Ok(())
}

#[test]
fn default_fills_missing_optional() -> Result<()> {
    let mut repl = shell()?;
    match repl.process_line("foo x")? {
        Action::Invoke(_, args) => {
            assert_eq!(args.len(), 2);
            assert_eq!(
                pairs(&args, &["bar", "baz"]),
                vec![
                    ("bar".to_string(), Some("x".to_string())),
                    ("baz".to_string(), Some("20".to_string()))
                ]
            );
        }
        other => panic!("unexpected action {:?}", other),
    }
    Ok(())
}

#[test]
fn too_many_arguments_names_the_limit() -> Result<()> {
    let mut repl = shell()?;
    assert_eq!(
        repl.process_line("add 1 2 3").unwrap_err(),
        Error::TooManyArguments("add".to_string(), 2)
    );
    Ok(())
}

#[test]
fn optional_without_default_stays_unbound() -> Result<()> {
    let params = vec![Parameter::new("a").set_required(true)?, Parameter::new("b")];
    let args = validate_arguments("cmd", &params, &strings(&["1"]))?;
    assert_eq!(args.len(), 1);
    assert_eq!(args.get("a").map(|v| v.as_str().to_string()), Some("1".to_string()));
    assert!(args.get("b").is_none());
    Ok(())
}

#[test]
fn binding_is_deterministic() -> Result<()> {
    let params = vec![
        Parameter::new("a").set_required(true)?,
        Parameter::new("b").set_default("d")?,
    ];
    let first = validate_arguments("cmd", &params, &strings(&["1"]));
    let second = validate_arguments("cmd", &params, &strings(&["1"]));
    assert_eq!(first, second);
    Ok(())
}

#[test]
fn binder_errors_follow_counts() -> Result<()> {
    let params = vec![
        Parameter::new("a").set_required(true)?,
        Parameter::new("b").set_required(true)?,
        Parameter::new("c"),
    ];
    assert_eq!(
        validate_arguments("cmd", &params, &strings(&["1", "2", "3", "4"])),
        Err(Error::TooManyArguments("cmd".to_string(), 3))
    );
    assert_eq!(
        validate_arguments("cmd", &params, &strings(&[])),
        Err(Error::MissingRequiredArgument("cmd".to_string(), "a".to_string()))
    );
    assert!(validate_arguments("cmd", &params, &strings(&["1", "2", "3"])).is_ok());
    Ok(())
}

#[test]
fn help_word_is_reserved() -> Result<()> {
    let mut repl = shell()?.add_command(Command::new("help", nothing as Callback<(), Error>));
    match repl.process_line("help add")? {
        Action::CommandHelp(index) => {
            let text = repl.command_help(index)?;
            assert_eq!(text, "add: Add two numbers together\nUsage:\n\tadd first second")
        }
        other => panic!("unexpected action {:?}", other),
    }
    Ok(())
}

#[test]
fn usage_marks_optional_parameters() -> Result<()> {
    let mut repl = shell()?;
    match repl.process_line("help foo")? {
        Action::CommandHelp(index) => {
            assert_eq!(repl.command_help(index)?, "foo:\nUsage:\n\tfoo bar [baz]")
        }
        other => panic!("unexpected action {:?}", other),
    }
    Ok(())
}

#[test]
fn general_help_lists_commands_in_name_order() -> Result<()> {
    let mut repl = Repl::new(())
        .with_name("MyApp")
        .with_version("v0.1.0")
        .with_description("My very cool app")
        .add_command(
            Command::new("prepend", nothing as Callback<(), Error>)
                .with_help("Prepend name to front of list"),
        )
        .add_command(
            Command::new("append", nothing as Callback<(), Error>)
                .with_help("Append name to end of list"),
        );
    let header = "MyApp v0.1.0: My very cool app";
    let blank = " ".repeat(header.len());
    let tail = "\nappend - Append name to end of list\nprepend - Prepend name to front of list";
    match repl.process_line("help")? {
        Action::GeneralHelp => {
            let text = repl.general_help()?;
            let plain = format!("{}\n{}{}", header, blank, tail);
            let struck = format!("{}\n\x1b[9m{}\x1b[0m{}", header, blank, tail);
            assert!(text == plain || text == struck, "got {:?}", text);
        }
        other => panic!("unexpected action {:?}", other),
    }
    Ok(())
}

#[test]
fn general_help_underline_is_struck_through() {
    let context = HelpContext::new("a", "b", "c", vec![]);
    let text = DefaultHelpViewer::new().help_general(&context).unwrap();
    assert_eq!(text, "a b: c\n\x1b[9m      \x1b[0m");
}

#[test]
fn help_entry_lists_parameters() -> Result<()> {
    let params = vec![Parameter::new("x").set_required(true)?, Parameter::new("y")];
    let entry = HelpEntry::new("cmd", &params, &Some("does it".to_string()));
    assert_eq!(entry.command, "cmd");
    assert_eq!(entry.parameters, vec![("x".to_string(), true), ("y".to_string(), false)]);
    assert_eq!(entry.summary, Some("does it".to_string()));
    let text = DefaultHelpViewer::new().help_command(&entry)?;
    assert_eq!(text, "cmd: does it\nUsage:\n\tcmd x [y]");
    Ok(())
}

#[test]
fn later_registration_replaces_earlier() -> Result<()> {
    let repl: Shell = Repl::new(())
        .add_command(Command::new("b", nothing as Callback<(), Error>))
        .add_command(Command::new("a", nothing as Callback<(), Error>).with_help("first"))
        .add_command(Command::new("c", nothing as Callback<(), Error>))
        .add_command(Command::new("a", nothing as Callback<(), Error>).with_help("second"));
    assert_eq!(repl.command_names(), strings(&["a", "b", "c"]));
    assert_eq!(repl.command_at(0).help_summary(), &Some("second".to_string()));
    Ok(())
}

#[test]
fn completion_matches_substrings() {
    let names = strings(&["append", "prepend", "list"]);
    assert_eq!(completion_candidates(&names, "pen"), strings(&["append", "prepend"]));
    assert_eq!(completion_candidates(&names, "is"), strings(&["list"]));
    assert_eq!(completion_candidates(&names, ""), names);
    assert_eq!(completion_candidates(&names, "zz"), Vec::<String>::new());
}

#[test]
fn optional_then_required_is_refused_and_list_kept() -> Result<()> {
    let mut command = Command::new("cmd", nothing as Callback<(), Error>);
    command.add_parameter(Parameter::new("opt"))?;
    let refused = command.add_parameter(Parameter::new("req").set_required(true)?);
    assert_eq!(refused, Err(Error::IllegalRequiredError("req".to_string())));
    assert_eq!(command.parameters().len(), 1);
    assert_eq!(command.parameters()[0].name(), "opt");
    assert!(command.add_parameter(Parameter::new("opt2")).is_ok());
    Ok(())
}

#[test]
fn defaulted_parameter_cannot_become_required() -> Result<()> {
    assert_eq!(
        Parameter::new("p").set_default("1")?.set_required(true),
        Err(Error::IllegalRequiredError("p".to_string()))
    );
    let p = Parameter::new("p").set_default("1")?.set_required(false)?;
    assert!(!p.required());
    assert_eq!(p.default(), &Some("1".to_string()));
    Ok(())
}

#[test]
fn error_messages() {
    assert_eq!(
        Error::IllegalDefaultError("p".into()).message(),
        "Error: Parameter 'p' cannot have a default"
    );
    assert_eq!(
        Error::IllegalRequiredError("p".into()).message(),
        "Error: Parameter 'p' cannot be required"
    );
    assert_eq!(
        Error::MissingRequiredArgument("c".into(), "p".into()).message(),
        "Error: Missing required argument 'p' for command 'c'"
    );
    assert_eq!(
        Error::TooManyArguments("c".into(), 12).message(),
        "Error: Command 'c' can have no more than 12 arguments"
    );
    assert_eq!(
        Error::TooManyArguments("c".into(), 0).message(),
        "Error: Command 'c' can have no more than 0 arguments"
    );
    assert_eq!(Error::CommandError("boom".into()).message(), "Error: boom");
    assert_eq!(Error::UnknownCommand("x".into()).message(), "Error: Unknown command 'x'");
}

#[test]
fn arguments_lookup_takes_last_binding() {
    let mut args = Arguments::new();
    args.insert("a".to_string(), Value::new("1"));
    args.insert("a".to_string(), Value::new("2"));
    assert_eq!(args.get("a").map(|v| v.as_str().to_string()), Some("2".to_string()));
    assert!(args.get("b").is_none());
}

#[test]
fn prompt_follows_name_unless_set() {
    let repl: Shell = Repl::new(()).with_name("app");
    assert_eq!(repl.prompt(), "app> ");
    assert_eq!(repl.styled_prompt(), "\x1b[1;32mapp> \x1b[0m");
    let repl: Shell = Repl::new(()).with_prompt("$ ").with_name("app");
    assert_eq!(repl.prompt(), "$ ");
    assert_eq!(repl.styled_prompt(), "$ ");
    assert_eq!(repl.name(), "app");
}

#[test]
fn value_converts_to_integer() {
    assert_eq!(Value::new("42").to_integer(), Ok(42));
    assert_eq!(Value::new("+7").to_integer(), Ok(7));
    assert_eq!(Value::new("-15").to_integer(), Ok(-15));
    assert_eq!(Value::new("9223372036854775807").to_integer(), Ok(i64::MAX));
    assert_eq!(Value::new("-9223372036854775808").to_integer(), Ok(i64::MIN));
    assert_eq!(Value::new("007").to_integer(), Ok(7));
}

#[test]
fn value_integer_failures_are_command_errors() {
    for text in ["", "-", "+", "12a", " 1", "9223372036854775808", "-9223372036854775809", "1e3"] {
        match Value::new(text).to_integer() {
            Err(Error::CommandError(message)) => {
                assert_eq!(message, format!("'{}' is not a valid integer", text))
            }
            other => panic!("unexpected result {:?} for {:?}", other, text),
        }
    }
}

#[test]
fn value_converts_to_bool() {
    assert_eq!(Value::new("true").to_bool(), Ok(true));
    assert_eq!(Value::new("false").to_bool(), Ok(false));
    assert_eq!(
        Value::new("yes").to_bool(),
        Err(Error::CommandError("'yes' is not a valid boolean".to_string()))
    );
}

#[test]
fn read_events_decide_the_next_step() {
    assert!(matches!(on_read(ReadEvent::EndOfInput), LoopStep::Stop));
    match on_read(ReadEvent::Line("add 1 2".to_string())) {
        LoopStep::Process(line) => assert_eq!(line, "add 1 2"),
        other => panic!("unexpected step {:?}", other),
    }
    match on_read(ReadEvent::ReadFailed("interrupted".to_string())) {
        LoopStep::Report(notice) => assert_eq!(notice, "Error reading line: interrupted"),
        other => panic!("unexpected step {:?}", other),
    }
}

#[test]
fn failing_handler_ends_the_run() {
    assert_eq!(after_handler(Ok(())), None);
    assert_eq!(
        after_handler(Err(Error::UnknownCommand("x".to_string()))),
        Some(Error::UnknownCommand("x".to_string()))
    );
}

#[test]
fn callback_results_are_routed() {
    match route_result::<Error>(Ok(Some("5".to_string()))) {
        Outcome::Print(text) => assert_eq!(text, "5"),
        other => panic!("unexpected outcome {:?}", other),
    }
    assert!(matches!(route_result::<Error>(Ok(None)), Outcome::Silent));
    match route_result(Err(Error::CommandError("boom".to_string()))) {
        Outcome::Route(e) => assert_eq!(e, Error::CommandError("boom".to_string())),
        other => panic!("unexpected outcome {:?}", other),
    }
}

#[test]
fn help_miss_notice_names_the_command() {
    assert_eq!(repl_rs::help_not_found("frobnicate"), "Help not found for command 'frobnicate'");
}

#[test]
fn argument_conversions_name_parameter_and_command() {
    let mut args = Arguments::new();
    args.insert("n".to_string(), Value::new("12"));
    args.insert("flag".to_string(), Value::new("true"));
    args.insert("bad".to_string(), Value::new("x1"));
    assert_eq!(args.integer("add", "n"), Ok(12));
    assert_eq!(args.boolean("add", "flag"), Ok(true));
    assert_eq!(
        args.integer("add", "bad"),
        Err(Error::CommandError(
            "Invalid argument 'bad' for command 'add': 'x1' is not a valid integer".to_string()
        ))
    );
    assert_eq!(
        args.boolean("add", "bad"),
        Err(Error::CommandError(
            "Invalid argument 'bad' for command 'add': 'x1' is not a valid boolean".to_string()
        ))
    );
    assert_eq!(
        args.integer("add", "none"),
        Err(Error::CommandError("No argument 'none' for command 'add'".to_string()))
    );
}

#[test]
fn general_help_underline_counts_header_bytes() {
    let context = HelpContext::new("é", "1", "x", vec![]);
    let text = DefaultHelpViewer::new().help_general(&context).unwrap();
    let header = "é 1: x";
    let blank = " ".repeat(header.len());
    assert_eq!(blank.len(), 7);
    assert!(
        text == format!("{}\n{}", header, blank)
            || text == format!("{}\n\x1b[9m{}\x1b[0m", header, blank),
        "got {:?}",
        text
    );
}
