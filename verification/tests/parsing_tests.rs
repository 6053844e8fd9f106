use taskmaster::strutil::{split_ws, str_eq, parse_umask};
use taskmaster::commands::{parse_command, Command, VerbKind};
use taskmaster::launcher::{prepare_spawn, SpawnErrorKind};
use taskmaster::program::{AutoRestart, EnvVar, Program};
use taskmaster::signals::catchable_signals;

fn sample_program() -> Program {
    Program {
        cmd: String::from("/bin/echo hi"),
        numprocs: 1,
        umask: String::from("022"),
        workingdir: String::from("/tmp"),
        autostart: true,
        autorestart: AutoRestart::Never,
        exitcodes: vec![0],
        startretries: 3,
        starttime: 0,
        stopsignal: 15,
        stoptime: 2,
        stdout: String::from("/tmp/out.log"),
        stderr: String::from("/tmp/err.log"),
        env: Vec::new(),
    }
}

#[test]
fn split_ws_basic() {
    let toks = split_ws("/bin/echo hi");
    assert_eq!(toks.len(), 2);
    assert_eq!(toks[0], "/bin/echo");
    assert_eq!(toks[1], "hi");
}

#[test]
fn split_ws_extra_blanks() {
    let toks = split_ws("  a \t b\n  c  ");
    assert_eq!(toks, vec!["a".to_string(), "b".to_string(), "c".to_string()]);
}

#[test]
fn split_ws_empty_and_blank() {
    assert_eq!(split_ws("").len(), 0);
    assert_eq!(split_ws(" \t \n").len(), 0);
}

#[test]
fn str_eq_basics() {
    assert!(str_eq("abc", "abc"));
    assert!(!str_eq("abc", "abd"));
    assert!(!str_eq("abc", "ab"));
    assert!(str_eq("", ""));
}

#[test]
fn umask_parses_octal() {
    assert_eq!(parse_umask("022"), Some(0o022));
    assert_eq!(parse_umask("777"), Some(0o777));
    assert_eq!(parse_umask("0"), Some(0));
    assert_eq!(parse_umask("177777"), Some(0o177777));
}

#[test]
fn umask_rejects_bad_input() {
    assert_eq!(parse_umask(""), None);
    assert_eq!(parse_umask("8"), None);
    assert_eq!(parse_umask("02x"), None);
    assert_eq!(parse_umask("200000"), None);
}

#[test]
fn parse_command_verbs() {
    assert!(matches!(parse_command(""), Command::Empty));
    assert!(matches!(parse_command("   "), Command::Empty));
    assert!(matches!(parse_command("exit"), Command::Exit));
    assert!(matches!(parse_command("quit"), Command::Exit));
    assert!(matches!(parse_command("status"), Command::Status));
    assert!(matches!(parse_command("bogus thing"), Command::Unknown));
}

#[test]
fn parse_command_with_names() {
    match parse_command("start web") {
        Command::Start { name } => assert_eq!(name, "web"),
        _ => panic!("expected start"),
    }
    match parse_command("stop web") {
        Command::Stop { name } => assert_eq!(name, "web"),
        _ => panic!("expected stop"),
    }
    match parse_command("restart web extra") {
        Command::Restart { name } => assert_eq!(name, "web"),
        _ => panic!("expected restart"),
    }
}

#[test]
fn parse_command_missing_names() {
    assert!(matches!(
        parse_command("start"),
        Command::MissingArg { verb: VerbKind::Start }
    ));
    assert!(matches!(
        parse_command("stop  "),
        Command::MissingArg { verb: VerbKind::Stop }
    ));
    assert!(matches!(
        parse_command("restart"),
        Command::MissingArg { verb: VerbKind::Restart }
    ));
}

#[test]
fn prepare_spawn_splits_cmd() {
    let def = sample_program();
    let plan = prepare_spawn(&def).unwrap();
    assert_eq!(plan.exe, "/bin/echo");
    assert_eq!(plan.args, vec!["hi".to_string()]);
    assert_eq!(plan.umask, 0o022);
    assert_eq!(plan.workingdir, "/tmp");
    assert_eq!(plan.stdout_path, "/tmp/out.log");
    assert_eq!(plan.stderr_path, "/tmp/err.log");
}

#[test]
fn prepare_spawn_rejects_blank_cmd() {
    let mut def = sample_program();
    def.cmd = String::from("   ");
    assert_eq!(prepare_spawn(&def).unwrap_err(), SpawnErrorKind::BadCommand);
}

#[test]
fn prepare_spawn_rejects_bad_umask() {
    let mut def = sample_program();
    def.umask = String::from("99");
    assert_eq!(prepare_spawn(&def).unwrap_err(), SpawnErrorKind::BadUmask);
}

#[test]
fn prepare_spawn_keeps_env() {
    let mut def = sample_program();
    def.env = vec![EnvVar { name: String::from("K"), value: String::from("V") }];
    let plan = prepare_spawn(&def).unwrap();
    assert_eq!(plan.env.len(), 1);
    assert_eq!(plan.env[0].name, "K");
    assert_eq!(plan.env[0].value, "V");
}

#[test]
fn catchable_signals_shape() {
    let v = catchable_signals();
    assert_eq!(v.len(), 26);
    assert!(v.contains(&1));
    assert!(v.contains(&10));
    assert!(v.contains(&15));
    assert!(!v.contains(&4));
    assert!(!v.contains(&8));
    assert!(!v.contains(&9));
    assert!(!v.contains(&11));
    assert!(!v.contains(&19));
    for w in v.windows(2) {
        assert!(w[0] < w[1]);
    }
}

#[test]
fn same_def_structural() {
    let a = sample_program();
    let mut b = sample_program();
    assert!(a.same_def(&b));
    b.numprocs = 2;
    assert!(!a.same_def(&b));
    let mut c = sample_program();
    c.exitcodes = vec![0, 1];
    assert!(!a.same_def(&c));
    let mut d = sample_program();
    d.env = vec![EnvVar { name: String::from("K"), value: String::from("V") }];
    assert!(!a.same_def(&d));
}
