use iridium::repl::{ReplAction, REPL};

#[test]
fn repl_records_lines_and_gathers_bytecode() {
    let mut repl = REPL::new();
    assert_eq!(repl.handle_line("load $0 #100"), ReplAction::Appended);
    assert_eq!(repl.handle_line("$$$"), ReplAction::ParseFailed);
    assert_eq!(repl.handle_line("hlt"), ReplAction::Appended);
    assert_eq!(repl.handle_line(".history"), ReplAction::ShowHistory);
    assert_eq!(repl.handle_line(".quit"), ReplAction::Quit);
    assert_eq!(repl.program(), &vec![0, 0, 0, 100, 5]);
    let history: Vec<&str> = repl.command_buffer().iter().map(|s| s.as_str()).collect();
    assert_eq!(history, vec!["load $0 #100", "$$$", "hlt", ".history", ".quit"]);
}

#[test]
fn repl_trims_each_line() {
    let mut repl = REPL::new();
    assert_eq!(repl.handle_line("  hlt \n"), ReplAction::Appended);
    assert_eq!(repl.handle_line("\t.quit\r\n"), ReplAction::Quit);
    assert_eq!(repl.handle_line("\u{3000}.history\u{a0}"), ReplAction::ShowHistory);
    assert_eq!(repl.program(), &vec![5]);
    let history: Vec<&str> = repl.command_buffer().iter().map(|s| s.as_str()).collect();
    assert_eq!(history, vec!["hlt", ".quit", ".history"]);
}
