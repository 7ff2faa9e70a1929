use velvetio::prompt::{
    ask, ask_with_default, ask_with_validation, choose_one, choose_prompt, confirm,
    confirm_prompt, default_prompt, menu, multi_select, prompt_line, selection_menu,
    selection_prompt, try_ask,
    Attempt, Reply, Selection,
};
use velvetio::validators::{in_range, min_length};

fn line(text: &str) -> Reply {
    Reply::Line(text.to_string())
}

fn failed(text: &str) -> Reply {
    Reply::Failed(text.to_string())
}

fn options(n: usize) -> Vec<String> {
    (1..=n).map(|i| format!("option_{}", i)).collect()
}

#[test]
fn prompt_texts() {
    assert_eq!(prompt_line("Name"), "Name: ");
    assert_eq!(default_prompt("Port", "8080"), "Port [8080]: ");
    assert_eq!(confirm_prompt("Proceed?"), "Proceed? (y/n)");
    assert_eq!(choose_prompt(3), "Choose (1-3)");
    assert_eq!(choose_prompt(12), "Choose (1-12)");
}

#[test]
fn menus() {
    let labels = vec!["red".to_string(), "green".to_string()];
    assert_eq!(menu("Colour", &labels), "Colour:\n  1. red\n  2. green\n");
    assert_eq!(menu("Empty", &Vec::new()), "Empty:\n");
    assert_eq!(
        selection_menu("Colours", &labels),
        Some(
            "Colours:\n  1. red\n  2. green\nEnter numbers separated by commas (e.g., 1,3,5) or 'all' or 'none':\n"
                .to_string()
        )
    );
    assert_eq!(selection_menu("Colours", &Vec::new()), None);
    assert_eq!(selection_prompt(), "Selection: ");
    let many: Vec<String> = (1..=11).map(|i| i.to_string()).collect();
    assert!(menu("N", &many).ends_with("  10. 10\n  11. 11\n"));
}

#[test]
fn ask_takes_a_value_or_asks_again() {
    assert_eq!(ask::<u8>(&line(" 42\n")), Attempt::Done(42));
    assert_eq!(ask::<String>(&line("  hello \n")), Attempt::Done("hello".to_string()));
    assert_eq!(
        ask::<u8>(&line("abc\n")),
        Attempt::Retry("❌ Cannot parse 'abc' as positive integer (0 to 255)".to_string())
    );
    assert_eq!(
        ask::<u8>(&failed("broken pipe")),
        Attempt::Retry("❌ Input error: broken pipe".to_string())
    );
}

#[test]
fn try_ask_returns_the_failure() {
    assert_eq!(try_ask::<i32>(&line("-7\n")).unwrap(), -7);
    let e = try_ask::<i32>(&line(" x \n")).unwrap_err();
    assert_eq!(e.message, "Cannot parse 'x' as integer");
    assert_eq!(e.input, "x");
    assert_eq!(e.expected, "integer");
    let e = try_ask::<i32>(&failed("end of stream")).unwrap_err();
    assert_eq!(e.message, "Input error: end of stream");
    assert_eq!(e.input, "");
    assert_eq!(e.expected, "valid input");
}

#[test]
fn ask_with_validation_checks_the_parsed_value() {
    assert_eq!(
        ask_with_validation::<String, _>(&line("hello\n"), min_length(3), None),
        Attempt::Done("hello".to_string())
    );
    assert_eq!(
        ask_with_validation::<String, _>(&line("hi\n"), min_length(3), None),
        Attempt::Retry("❌ Invalid input, please try again".to_string())
    );
    assert_eq!(
        ask_with_validation::<String, _>(&line("hi\n"), min_length(3), Some("Too short")),
        Attempt::Retry("❌ Too short".to_string())
    );
    assert_eq!(
        ask_with_validation::<u16, _>(&line("80\n"), in_range(1024u16, 65535u16), Some("bad port")),
        Attempt::Retry("❌ bad port".to_string())
    );
    assert_eq!(
        ask_with_validation::<u16, _>(&line("8080\n"), in_range(1024u16, 65535u16), Some("bad port")),
        Attempt::Done(8080)
    );
    assert_eq!(
        ask_with_validation::<u16, _>(&line("x\n"), in_range(1024u16, 65535u16), Some("bad port")),
        Attempt::Retry("❌ Cannot parse 'x' as positive integer (0 to 65,535)".to_string())
    );
    assert_eq!(
        ask_with_validation::<u16, _>(&failed("gone"), |_: &u16| true, Some("bad port")),
        Attempt::Retry("❌ Input error: gone".to_string())
    );
}

#[test]
fn ask_with_default_falls_back() {
    assert_eq!(ask_with_default::<u16>(&line("\n"), 8080), 8080);
    assert_eq!(ask_with_default::<u16>(&line("   \n"), 8080), 8080);
    assert_eq!(ask_with_default::<u16>(&line("9000\n"), 8080), 9000);
    assert_eq!(ask_with_default::<u16>(&line("nine\n"), 8080), 8080);
    assert_eq!(ask_with_default::<u16>(&failed("gone"), 8080), 8080);
    assert_eq!(ask_with_default::<String>(&line(" x \n"), "d".to_string()), "x");
}

#[test]
fn confirm_is_a_boolean_question() {
    assert_eq!(confirm(&line("y\n")), Attempt::Done(true));
    assert_eq!(confirm(&line("NO\n")), Attempt::Done(false));
    assert_eq!(
        confirm(&line("perhaps\n")),
        Attempt::Retry(
            "❌ Cannot parse 'perhaps' as boolean (yes/no, true/false, y/n, 1/0)".to_string()
        )
    );
    assert_eq!(confirm(&failed("gone")), Attempt::Retry("❌ Input error: gone".to_string()));
}

#[test]
fn choose_among_three() {
    let opts = options(3);
    assert_eq!(choose_one(&opts, &line("2\n")), Attempt::Done(&opts[1]));
    assert_eq!(choose_one(&opts, &line("1\n")), Attempt::Done(&opts[0]));
    assert_eq!(choose_one(&opts, &line(" 3 \n")), Attempt::Done(&opts[2]));
    assert_eq!(
        choose_one(&opts, &line("0\n")),
        Attempt::Retry("❌ Please choose between 1 and 3".to_string())
    );
    assert_eq!(
        choose_one(&opts, &line("4\n")),
        Attempt::Retry("❌ Please choose between 1 and 3".to_string())
    );
    assert_eq!(
        choose_one(&opts, &line("two\n")),
        Attempt::Retry("❌ Cannot parse 'two' as positive integer".to_string())
    );
    assert_eq!(
        choose_one(&opts, &line("-1\n")),
        Attempt::Retry("❌ Cannot parse '-1' as positive integer".to_string())
    );
    assert_eq!(
        choose_one(&opts, &line("99999999999999999999999999\n")),
        Attempt::Retry("❌ Cannot parse '99999999999999999999999999' as positive integer".to_string())
    );
    assert_eq!(
        choose_one(&opts, &failed("gone")),
        Attempt::Retry("❌ Input error: gone".to_string())
    );
}

#[test]
fn multi_select_among_five() {
    let opts = options(5);
    let all: Vec<&String> = opts.iter().collect();
    assert_eq!(multi_select(&opts, &line("all\n")), Selection::Chosen(all.clone()));
    assert_eq!(multi_select(&opts, &line(" ALL \n")), Selection::Chosen(all));
    assert_eq!(multi_select(&opts, &line("none\n")), Selection::Chosen(vec![]));
    assert_eq!(multi_select(&opts, &line("None\n")), Selection::Chosen(vec![]));
    assert_eq!(multi_select(&opts, &line("")), Selection::Chosen(vec![]));
    assert_eq!(multi_select(&opts, &line("  \n")), Selection::Chosen(vec![]));
    assert_eq!(multi_select(&opts, &line("3,1\n")), Selection::Chosen(vec![&opts[2], &opts[0]]));
    assert_eq!(
        multi_select(&opts, &line(" 5 , 5,2 \n")),
        Selection::Chosen(vec![&opts[4], &opts[4], &opts[1]])
    );
    assert_eq!(multi_select(&opts, &line("4\n")), Selection::Chosen(vec![&opts[3]]));
}

#[test]
fn multi_select_reports_the_first_bad_token() {
    let opts = options(5);
    assert_eq!(
        multi_select(&opts, &line("1,6,x\n")),
        Selection::Restart("❌ 6 is not a valid option (1-5)".to_string())
    );
    assert_eq!(
        multi_select(&opts, &line("0\n")),
        Selection::Restart("❌ 0 is not a valid option (1-5)".to_string())
    );
    assert_eq!(
        multi_select(&opts, &line("1,x,6\n")),
        Selection::Restart("❌ Please enter numbers separated by commas".to_string())
    );
    assert_eq!(
        multi_select(&opts, &line("1,,2\n")),
        Selection::Restart("❌ Please enter numbers separated by commas".to_string())
    );
    assert_eq!(
        multi_select(&opts, &line("1 2\n")),
        Selection::Restart("❌ Please enter numbers separated by commas".to_string())
    );
    assert_eq!(
        multi_select(&opts, &failed("gone")),
        Selection::Reread("❌ Input error: gone".to_string())
    );
}

#[test]
fn multi_select_without_options_selects_nothing() {
    let opts: Vec<String> = Vec::new();
    assert_eq!(multi_select(&opts, &line("1\n")), Selection::Chosen(vec![]));
    assert_eq!(multi_select(&opts, &failed("gone")), Selection::Chosen(vec![]));
}
