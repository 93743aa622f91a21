use mp_game_net::cmds::{parse_usize, CommandArgs};

#[test]
fn line_is_split_at_spaces() {
    let args = CommandArgs::from_line("kick 12 too slow");
    assert_eq!(args.name(), "kick");
    assert_eq!(args.args(), 3);
    assert_eq!(args.get_arg_str(0), Some("12"));
    assert_eq!(args.get_arg_str(1), Some("too"));
    assert_eq!(args.get_arg_str(2), Some("slow"));
    assert_eq!(args.get_arg_str(3), None);
    assert_eq!(args.get_arg_int(0), Some(12));
    assert_eq!(args.get_arg_int(1), None);
    assert_eq!(args.get_arg_int(3), None);
}

#[test]
fn command_without_arguments() {
    let args = CommandArgs::from_line("help");
    assert_eq!(args.name(), "help");
    assert_eq!(args.args(), 0);
    assert_eq!(args.get_arg_str(0), None);
}

#[test]
fn empty_line_is_an_empty_name() {
    let args = CommandArgs::from_line("");
    assert_eq!(args.name(), "");
    assert_eq!(args.args(), 0);
}

#[test]
fn neighbouring_spaces_enclose_empty_arguments() {
    let args = CommandArgs::from_line(" a  b ");
    assert_eq!(args.name(), "");
    assert_eq!(args.args(), 4);
    assert_eq!(args.get_arg_str(0), Some("a"));
    assert_eq!(args.get_arg_str(1), Some(""));
    assert_eq!(args.get_arg_str(2), Some("b"));
    assert_eq!(args.get_arg_str(3), Some(""));
    assert_eq!(args.get_arg_int(1), None);
}

#[test]
fn only_spaces_split_a_line() {
    let args = CommandArgs::from_line("say héllo\tworld");
    assert_eq!(args.args(), 1);
    assert_eq!(args.get_arg_str(0), Some("héllo\tworld"));
}

#[test]
fn numbers_are_read_as_the_standard_library_reads_them() {
    let max = usize::MAX.to_string();
    let cases = [
        "0", "7", "007", "+5", "+", "", "-5", "-0", "5 ", " 5", "12a", "a12", "++5", "5+", "١٢",
        "18446744073709551615", "18446744073709551616", "99999999999999999999999",
        "4294967295", "4294967296", max.as_str(),
    ];
    for text in cases {
        assert_eq!(parse_usize(text), text.parse::<usize>().ok(), "{:?}", text);
    }
    assert_eq!(parse_usize("42"), Some(42));
    assert_eq!(parse_usize("+42"), Some(42));
    assert_eq!(parse_usize("4x"), None);
}
