use h3x::command::{parse_command, parse_color, Color, Command, Fault, Service};
use h3x::kernel::{Kernel, Response};

fn show(bytes: &[u8]) -> Response {
    Response::Show(bytes.to_vec())
}

#[test]
fn touch_touch_ls_rm_scenario() {
    let mut k = Kernel::new();
    assert_eq!(k.execute(b"touch apple\n"), Response::Silent);
    assert_eq!(k.execute(b"touch banana\n"), Response::Silent);
    assert_eq!(k.execute(b"ls\n"), show(b"apple banana "));
    assert_eq!(k.execute(b"rm apple\n"), Response::Silent);
    assert_eq!(k.execute(b"ls\n"), show(b"banana "));
    assert!(!k.error());
    assert_eq!(k.execute(b"rm pear\n"), Response::Report(vec![Fault::NotFound]));
    assert!(k.error());
    assert_eq!(k.execute(b"ls\n"), show(b"banana "));
    assert!(!k.error());
}

#[test]
fn error_flag_resets_each_command() {
    let mut k = Kernel::new();
    k.execute(b"bogus\n");
    assert!(k.error());
    assert_eq!(k.execute(b"\n"), Response::Silent);
    assert!(!k.error());
}

#[test]
fn unknown_command_reports() {
    let mut k = Kernel::new();
    assert_eq!(k.execute(b"frobnicate\n"), Response::Report(vec![Fault::InvalidCommand]));
    assert_eq!(k.execute(b"delay\n"), Response::Report(vec![Fault::InvalidCommand]));
    assert_eq!(k.execute(b" touch x\n"), Response::Report(vec![Fault::InvalidCommand]));
}

#[test]
fn exact_commands_match_trimmed_line() {
    assert_eq!(parse_command(b"  help \n"), Command::Run(Service::Help));
    assert_eq!(parse_command(b"version\n"), Command::Run(Service::Version));
    assert_eq!(parse_command(b"ls"), Command::Ls);
    assert_eq!(parse_command(b"purge\n"), Command::Purge);
    assert_eq!(parse_command(b"halt\n"), Command::Run(Service::Halt));
    assert_eq!(parse_command(b"\t \n"), Command::Empty);
    assert_eq!(parse_command(b"helpme\n"), Command::Invalid);
}

#[test]
fn prefix_commands_take_trimmed_argument() {
    assert_eq!(parse_command(b"echo  hi there \n"), Command::Echo(b"hi there".to_vec()));
    assert_eq!(parse_command(b"rm x\n"), Command::Rm(b"x".to_vec()));
    assert_eq!(parse_command(b"touch \n"), Command::Touch(Vec::new()));
    assert_eq!(parse_command(b"mv a b\n"), Command::Mv(b"a b".to_vec()));
    assert_eq!(parse_command(b"color red\n"), Command::Color(b"red".to_vec()));
    assert_eq!(parse_command(b"delay 5\n"), Command::Run(Service::Delay));
}

#[test]
fn echo_shows_argument() {
    let mut k = Kernel::new();
    assert_eq!(k.execute(b"echo hello world\n"), show(b"hello world"));
}

#[test]
fn touch_without_text_does_nothing() {
    let mut k = Kernel::new();
    assert_eq!(k.execute(b"touch \n"), Response::Silent);
    assert_eq!(k.ls(), b"");
    assert!(!k.error());
}

#[test]
fn touch_overflow_reports() {
    let mut k = Kernel::new();
    let filler = vec![b'q'; 1916];
    assert_eq!(k.touch(&filler), None);
    assert_eq!(k.touch(b"wxyz"), Some(Fault::StoreFull));
    assert!(k.error());
    assert_eq!(k.ls().len(), 1920);
    assert_eq!(&k.ls()[1917..], b"wxy");
}

#[test]
fn purge_empties_store() {
    let mut k = Kernel::new();
    k.execute(b"touch a\n");
    assert_eq!(k.execute(b"purge\n"), Response::Silent);
    assert_eq!(k.execute(b"ls\n"), show(b""));
}

#[test]
fn system_call_by_number() {
    let mut k = Kernel::new();
    assert_eq!(k.system_call(3, b"one"), Response::Silent);
    assert_eq!(k.system_call(0, b""), show(b"one "));
    assert_eq!(k.system_call(2, b"two"), Response::Report(vec![Fault::NotFound]));
    assert!(k.error());
    assert_eq!(k.system_call(7, b"one"), Response::Silent);
    assert!(k.error());
    assert_eq!(k.system_call(1, b""), Response::Silent);
    assert_eq!(k.system_call(0, b""), show(b""));
}

#[test]
fn mv_replaces_token() {
    let mut k = Kernel::new();
    k.execute(b"touch apple\n");
    k.execute(b"touch banana\n");
    assert_eq!(k.execute(b"mv apple cherry\n"), Response::Silent);
    assert_eq!(k.ls(), b"banana cherry ");
    assert!(!k.error());
}

#[test]
fn mv_usage_errors() {
    let mut k = Kernel::new();
    k.execute(b"touch apple\n");
    assert_eq!(k.execute(b"mv apple\n"), Response::Report(vec![Fault::MoveUsage]));
    assert!(k.error());
    assert_eq!(k.mv(b" x"), vec![Fault::MoveUsage]);
    assert_eq!(k.mv(b"apple  "), vec![Fault::MoveUsage]);
    assert_eq!(k.ls(), b"apple ");
}

#[test]
fn mv_missing_token_changes_nothing() {
    let mut k = Kernel::new();
    k.execute(b"touch apple\n");
    assert_eq!(k.execute(b"mv pear plum\n"), Response::Report(vec![Fault::NotFound]));
    assert_eq!(k.ls(), b"apple ");
}

#[test]
fn mv_overflow_appends_previous_again() {
    let mut k = Kernel::new();
    k.touch(b"old");
    k.touch(&vec![b'f'; 1910]);
    assert_eq!(k.ls().len(), 1915);
    let mut arg = b"old ".to_vec();
    arg.extend_from_slice(&vec![b'n'; 20]);
    assert_eq!(k.mv(&arg), vec![Fault::StoreFull, Fault::StoreFull]);
    assert!(k.error());
    assert_eq!(k.ls().len(), 1920);
}

#[test]
fn color_names() {
    assert_eq!(parse_color(b"red"), Ok(Color::Red));
    assert_eq!(parse_color(b"lightcyan"), Ok(Color::LightCyan));
    assert_eq!(parse_color(b""), Err(Fault::NoColor));
    assert_eq!(parse_color(b"purple"), Err(Fault::InvalidColor));
    let mut k = Kernel::new();
    assert_eq!(k.execute(b"color pink\n"), Response::SetColor(Color::Pink));
    assert!(!k.error());
    assert_eq!(k.execute(b"color \n"), Response::Report(vec![Fault::NoColor]));
    assert!(k.error());
    assert_eq!(k.execute(b"color teal\n"), Response::Report(vec![Fault::InvalidColor]));
}

#[test]
fn services_pass_through() {
    let mut k = Kernel::new();
    assert_eq!(k.execute(b"time\n"), Response::Run(Service::Time));
    assert_eq!(k.execute(b"clear\n"), Response::Run(Service::Clear));
    assert_eq!(k.execute(b"vendor"), Response::Run(Service::Vendor));
    assert!(!k.error());
}
