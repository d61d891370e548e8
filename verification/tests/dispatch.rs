use clik::Command;
use clik::FnType;
use clik::HandleError;
use clik::Handler;
use clik::CLI;

/// A callback that records its own tag and the residual tokens it was
/// invoked with into the shared state.
struct Recorder {
    tag: String,
}

impl Handler for Recorder {
    type State = Vec<(String, Vec<String>)>;
    type Error = String;

    fn call(&self, state: &mut Self::State, args: Vec<String>) -> Result<(), String> {
        state.push((self.tag.clone(), args));
        Ok(())
    }
}

/// A callback that always fails with a fixed error.
struct Failing;

impl Handler for Failing {
    type State = u64;
    type Error = String;

    fn call(&self, state: &mut Self::State, _args: Vec<String>) -> Result<(), String> {
        *state += 1;
        Err("boom".to_string())
    }
}

fn recorder_cli() -> CLI<Recorder> {
    let mut cli = CLI::new(Vec::new());
    let mut a = Command::new("a", "top-level", Recorder { tag: "a".to_string() });
    a.add_subcommand(Command::new("b", "nested", Recorder { tag: "b".to_string() }));
    cli.add_command(a);
    cli
}

#[test]
fn test_subcommand_gets_residual() {
    let mut cli = recorder_cli();
    assert!(cli.handle("a b x").is_ok());
    assert_eq!(
        cli.state,
        vec![("b".to_string(), vec!["x".to_string()])]
    );
}

#[test]
fn test_unmatched_token_stays_residual() {
    let mut cli = recorder_cli();
    assert!(cli.handle("a c").is_ok());
    assert_eq!(
        cli.state,
        vec![("a".to_string(), vec!["c".to_string()])]
    );
}

#[test]
fn test_bare_command_gets_no_residual() {
    let mut cli = recorder_cli();
    assert!(cli.handle("a").is_ok());
    assert_eq!(cli.state, vec![("a".to_string(), Vec::new())]);
}

#[test]
fn test_three_level_walk() {
    let mut cli = CLI::new(Vec::new());
    let mut a = Command::new("a", "top", Recorder { tag: "a".to_string() });
    let mut b = Command::new("b", "middle", Recorder { tag: "b".to_string() });
    b.add_subcommand(Command::new("c", "leaf", Recorder { tag: "c".to_string() }));
    a.add_subcommand(b);
    cli.add_command(a);
    assert!(cli.handle("a b c d e").is_ok());
    assert_eq!(
        cli.state,
        vec![("c".to_string(), vec!["d".to_string(), "e".to_string()])]
    );
    cli.state.clear();
    assert!(cli.handle("a b x").is_ok());
    assert_eq!(cli.state, vec![("b".to_string(), vec!["x".to_string()])]);
}

#[test]
fn test_unrecognized_command_is_ok() {
    let mut cli: CLI<Recorder> = CLI::new(Vec::new());
    assert!(cli.handle("nope").is_ok());
    assert!(cli.state.is_empty());
}

#[test]
fn test_empty_line_is_ok() {
    let mut cli = recorder_cli();
    assert!(cli.handle("").is_ok());
    assert!(cli.state.is_empty());
}

#[test]
fn test_register_twice_returns_first() {
    let mut cli = CLI::new(Vec::new());
    let first = cli.add_command(Command::new("x", "first", Recorder { tag: "1".to_string() }));
    assert!(first.is_none());
    let displaced = cli.add_command(Command::new("x", "second", Recorder { tag: "2".to_string() }));
    let displaced = displaced.expect("the first registration must be displaced");
    assert_eq!(displaced.help, "first".to_string());
    assert_eq!(cli.commands.len(), 1);
    assert_eq!(cli.commands[0].help, "second".to_string());
}

#[test]
fn test_add_subcommand_twice_returns_first() {
    let mut c = Command::new("top", "root", Recorder { tag: "t".to_string() });
    assert!(c
        .add_subcommand(Command::new("s", "one", Recorder { tag: "s1".to_string() }))
        .is_none());
    let displaced = c
        .add_subcommand(Command::new("s", "two", Recorder { tag: "s2".to_string() }))
        .expect("the first subcommand must be displaced");
    assert_eq!(displaced.help, "one".to_string());
    assert_eq!(c.subcommands.len(), 1);
    assert_eq!(c.subcommands[0].help, "two".to_string());
}

#[test]
fn test_async_callback_through_sync_path() {
    let mut cli = CLI::new(Vec::new());
    cli.add_command(Command::new_async("x", "async only", Recorder { tag: "x".to_string() }));
    let r = cli.handle("x");
    assert!(matches!(r, Err(HandleError::AsyncCallbackMisuse)));
    assert!(cli.state.is_empty());
}

#[test]
fn test_sync_callback_constructor_tag() {
    let c = Command::new("x", "h", Recorder { tag: "x".to_string() });
    assert!(matches!(c.callback, FnType::Sync(_)));
    let c = Command::new_async("x", "h", Recorder { tag: "x".to_string() });
    assert!(matches!(c.callback, FnType::Async(_)));
}

#[test]
fn test_callback_error_is_propagated() {
    let mut cli: CLI<Failing> = CLI::new(0);
    cli.add_command(Command::new("fail", "always fails", Failing));
    let r = cli.handle("fail now");
    match r {
        Err(HandleError::Callback(e)) => assert_eq!(e, "boom".to_string()),
        _ => panic!("the callback error must come through verbatim"),
    }
    assert_eq!(cli.state, 1);
}

#[test]
fn test_info_rendering() {
    let c = Command::new("greet", "say hello", Recorder { tag: "g".to_string() });
    assert_eq!(
        c.info(0),
        "|-- greet ......................... say hello\n".to_string()
    );
}

#[test]
fn test_info_rendering_nested() {
    let mut c = Command::new("greet", "say hello", Recorder { tag: "g".to_string() });
    c.add_subcommand(Command::new("loud", "shout it", Recorder { tag: "l".to_string() }));
    assert_eq!(
        c.info(0),
        "|-- greet ......................... say hello\n\
         |  |-- loud ....................... shout it\n"
            .to_string()
    );
}

#[test]
fn test_cli_rendering() {
    let mut cli = CLI::new(Vec::new());
    cli.add_command(Command::new("greet", "say hello", Recorder { tag: "g".to_string() }));
    assert_eq!(
        cli.render(),
        "Available commands: \n\n|-- greet ......................... say hello\n".to_string()
    );
}
