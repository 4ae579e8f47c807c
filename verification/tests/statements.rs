use rookdb::shell::{
    banner_lines, echo_enabled, execute, feed, finish, prompt, read_parsed, sql_banner, Reading,
    ShellStep,
};
use rookdb::statements::{final_mode, split_complete_statements, Mode};
use rookdb::vetting::parser_takes;

fn split(input: &str) -> (Vec<String>, String) {
    split_complete_statements(input)
}

#[test]
fn a_semicolon_ends_a_statement() {
    let (done, rest) = split("SELECT 1; SELECT 2 ;  SELECT 3");
    assert_eq!(done, vec!["SELECT 1", "SELECT 2"]);
    assert_eq!(rest, "SELECT 3");
}

#[test]
fn a_semicolon_in_quotes_does_not() {
    for q in ["'", "\"", "`"] {
        let text = format!("SELECT {}a;b{}", q, q);
        let (done, rest) = split(&text);
        assert!(done.is_empty());
        assert_eq!(rest, text);
    }
}

#[test]
fn a_doubled_quote_stays_inside() {
    let (done, rest) = split("SELECT 'it''s; here'; x");
    assert_eq!(done, vec!["SELECT 'it''s; here'"]);
    assert_eq!(rest, "x");
    let (done, rest) = split("SELECT ''''; y");
    assert_eq!(done, vec!["SELECT ''''"]);
    assert_eq!(rest, "y");
}

#[test]
fn an_open_quote_keeps_the_rest_pending() {
    let (done, rest) = split("SELECT 'a; b;");
    assert!(done.is_empty());
    assert_eq!(rest, "SELECT 'a; b;");
}

#[test]
fn comments_are_left_out() {
    let (done, rest) = split("SELECT 1 -- one; two\n; SELECT 2 -- tail;");
    assert_eq!(done, vec!["SELECT 1"]);
    assert_eq!(rest, "SELECT 2");
    let (done, rest) = split("-- only a comment; really\nSELECT 3;");
    assert_eq!(done, vec!["SELECT 3"]);
    assert_eq!(rest, "");
}

#[test]
fn a_comment_mark_in_quotes_is_text() {
    let (done, _) = split("SELECT '--not a comment'; ");
    assert_eq!(done, vec!["SELECT '--not a comment'"]);
}

#[test]
fn a_single_dash_is_kept() {
    let (done, _) = split("SELECT 3 - 1;");
    assert_eq!(done, vec!["SELECT 3 - 1"]);
}

#[test]
fn empty_statements_are_given_as_empty_texts() {
    let (done, rest) = split(";;");
    assert_eq!(done, vec!["", ""]);
    assert_eq!(rest, "");
    let (done, rest) = split("");
    assert!(done.is_empty());
    assert_eq!(rest, "");
}

#[test]
fn more_input_adds_statements_behind_those_already_there() {
    let input = "INSERT INTO t VALUES ('a;b'); SELECT 1; SEL";
    let more = "ECT 2; -- done\n";
    let (first, _) = split(input);
    let (all, _) = split(&format!("{}{}", input, more));
    assert_eq!(first, vec!["INSERT INTO t VALUES ('a;b')", "SELECT 1"]);
    assert_eq!(all, vec!["INSERT INTO t VALUES ('a;b')", "SELECT 1", "SELECT 2"]);
}

#[test]
fn reading_starts_afresh_behind_a_terminator() {
    let input = "SELECT 'x;y'; SELECT \"a;\"; tail 'open";
    let k = input.find("; ").unwrap();
    let (all, rest) = split(input);
    let (head, _) = split(&input[..k + 1]);
    let (tail, tail_rest) = split(&input[k + 1..]);
    let mut both = head.clone();
    both.extend(tail);
    assert_eq!(all, both);
    assert_eq!(rest, tail_rest);
}

fn feed_all(lines: &[&str]) -> Vec<String> {
    let mut pending = String::new();
    let mut done = Vec::new();
    for line in lines {
        match feed(&mut pending, &format!("{}\n", line)) {
            ShellStep::Wait => {}
            ShellStep::Exit(_) => break,
            ShellStep::Run(list) => done.extend(list),
        }
    }
    if let Some(last) = finish(&pending) {
        done.push(last);
    }
    done
}

#[test]
fn multiline_input_yields_exact_results() {
    let done = feed_all(&[
        "CREATE DATABASE ml;",
        "USE ml;",
        "CREATE TABLE notes (",
        "  id INT,",
        "  note VARCHAR(40)",
        ");",
        "INSERT INTO notes VALUES (1, 'first'); INSERT INTO notes VALUES (2, 'second');",
        "-- fetching everything",
        "SELECT * FROM notes ORDER BY id;",
        "INSERT INTO notes VALUES (3, 'semi;colon');",
        "SELECT note FROM notes WHERE id = 3;",
    ]);
    assert_eq!(
        done,
        vec![
            "CREATE DATABASE ml",
            "USE ml",
            "CREATE TABLE notes (   id INT,   note VARCHAR(40) )",
            "INSERT INTO notes VALUES (1, 'first')",
            "INSERT INTO notes VALUES (2, 'second')",
            "SELECT * FROM notes ORDER BY id",
            "INSERT INTO notes VALUES (3, 'semi;colon')",
            "SELECT note FROM notes WHERE id = 3",
        ]
    );
}

#[test]
fn session_survives_errors() {
    let done = feed_all(&[
        "USE shop;",
        "SELECT * FROM missing_table;",
        "SELEC bogus;",
        "SELECT id FROM items WHERE id = 1;",
    ]);
    assert_eq!(done.len(), 4);
    assert!(matches!(execute(&done[1]), Reading::Parsed(_)));
    assert!(matches!(execute(&done[2]), Reading::Refused(line) if line.starts_with("Parse error: ")));
    assert!(matches!(execute(&done[3]), Reading::Parsed(_)));
}

#[test]
fn a_blank_line_waits() {
    let mut pending = String::new();
    assert_eq!(feed(&mut pending, "\n"), ShellStep::Wait);
    assert_eq!(pending, "\n");
    assert_eq!(feed(&mut pending, "   \n"), ShellStep::Wait);
    assert_eq!(feed(&mut pending, "SELECT 1;\n"), ShellStep::Run(vec!["SELECT 1".to_string()]));
    assert_eq!(pending, "");
}

#[test]
fn exit_and_quit_leave_when_alone_on_a_line() {
    for word in ["exit", "QUIT", "  Exit  "] {
        let mut pending = String::new();
        assert_eq!(
            feed(&mut pending, &format!("{}\n", word)),
            ShellStep::Exit("Exiting RookDB..!".to_string())
        );
    }
}

#[test]
fn exit_leaves_whatever_is_pending() {
    let mut pending = String::new();
    assert_eq!(feed(&mut pending, "SELECT 1\n"), ShellStep::Run(vec![]));
    assert_eq!(pending, "SELECT 1");
    assert_eq!(feed(&mut pending, "quit\n"), ShellStep::Exit("Exiting RookDB..!".to_string()));
}

#[test]
fn exit_inside_a_quote_is_part_of_it() {
    let mut pending = String::new();
    assert_eq!(feed(&mut pending, "INSERT INTO t VALUES ('a\n"), ShellStep::Run(vec![]));
    assert_eq!(feed(&mut pending, "exit\n"), ShellStep::Run(vec![]));
    assert_eq!(pending, "INSERT INTO t VALUES ('a exit");
    assert_eq!(
        feed(&mut pending, "b');\n"),
        ShellStep::Run(vec!["INSERT INTO t VALUES ('a exit b')".to_string()])
    );
    assert_eq!(final_mode("SELECT \"a`"), Mode::Quoted('"'));
    assert_eq!(final_mode("SELECT 'it''s' -- '"), Mode::Comment);
    assert_eq!(final_mode("SELECT 'it''s' -- '\n"), Mode::Plain);
}

#[test]
fn pieces_are_read_again_as_they_are() {
    let (done, rest) = split("SELECT 'a;b' -- c;\n FROM t - ; -- d\n SELECT \"x -- y");
    assert_eq!(done, vec!["SELECT 'a;b' \n FROM t -".to_string()]);
    assert_eq!(split(&rest), (vec![], rest.clone()));
    assert_eq!(split(&format!("{};", done[0])), (done, String::new()));
}

#[test]
fn a_limit_needs_a_number_before_by() {
    for sql in [
        "SELECT (SELECT 1 LIMIT ALL BY 1)",
        "select 1 where exists (select 1 limit -- x\n all  by a)",
        "SELECT $1, (SELECT 1 LIMIT /* */ ALL BY 1)",
    ] {
        assert_eq!(execute(sql), Reading::Withheld, "{}", sql);
    }
    for sql in [
        "SELECT (SELECT 1 LIMIT ALL)",
        "SELECT (SELECT 1 LIMIT 2 BY 1)",
        "SELECT a FROM t ORDER BY a LIMIT ALL",
        "SELECT 'limit all by'",
    ] {
        assert!(matches!(execute(sql), Reading::Parsed(_)), "{}", sql);
    }
}

#[test]
fn exit_with_something_beside_it_stays() {
    let mut pending = String::new();
    assert_eq!(feed(&mut pending, "exit now\n"), ShellStep::Run(vec![]));
    assert_eq!(pending, "exit now");
    assert_eq!(feed(&mut pending, "\n"), ShellStep::Run(vec![]));
    assert_eq!(feed(&mut pending, "exit;\n"), ShellStep::Run(vec!["exit now exit".to_string()]));
    let mut pending = String::new();
    assert_eq!(feed(&mut pending, "exit -- not yet\n"), ShellStep::Run(vec![]));
    assert_eq!(pending, "exit");
    assert_eq!(feed(&mut pending, "\n"), ShellStep::Run(vec![]));
}

#[test]
fn nothing_is_left_at_the_end_of_blank_input() {
    assert_eq!(finish(" \n\t"), None);
    assert_eq!(finish(" SELECT 1 "), Some("SELECT 1".to_string()));
}

#[test]
fn prompts() {
    assert_eq!(prompt(&None, ""), "rookdb> ");
    assert_eq!(prompt(&Some("shop".to_string()), ""), "rookdb (shop)> ");
    assert_eq!(prompt(&Some("shop".to_string()), "SELECT"), "... ");
}

#[test]
fn echo_is_asked_for_by_argument_or_variable() {
    let args = |list: &[&str]| list.iter().map(|s| s.to_string()).collect::<Vec<String>>();
    assert!(echo_enabled(&args(&["rookdb", "--echo"]), &None));
    assert!(echo_enabled(&args(&["rookdb", "-e"]), &Some("0".to_string())));
    assert!(echo_enabled(&args(&["rookdb"]), &Some("1".to_string())));
    assert!(!echo_enabled(&args(&["rookdb"]), &Some("0".to_string())));
    assert!(!echo_enabled(&args(&["rookdb"]), &None));
    assert!(!echo_enabled(&args(&["rookdb", "--Echo"]), &None));
}

#[test]
fn a_banner_for_use_is_one_line() {
    assert_eq!(
        sql_banner("  use shop "),
        vec!["\n\x1b[1;36m▶\x1b[0m \x1b[1;37muse shop\x1b[0m".to_string()]
    );
}

#[test]
fn a_banner_boxes_every_line_that_is_not_blank() {
    let lines = sql_banner("SELECT 1,\n\n   2\r\n FROM t");
    assert_eq!(lines.len(), 5);
    assert_eq!(
        lines[0],
        format!("\n\x1b[1;36m╔══ \x1b[1;97;44m SQL ❯ \x1b[0;1;36m{}\x1b[0m", "═".repeat(69))
    );
    assert_eq!(lines[1], "\x1b[1;36m║\x1b[0m  \x1b[1;37mSELECT 1,\x1b[0m");
    assert_eq!(lines[2], "\x1b[1;36m║\x1b[0m  \x1b[1;37m2\x1b[0m");
    assert_eq!(lines[3], "\x1b[1;36m║\x1b[0m  \x1b[1;37mFROM t\x1b[0m");
    assert_eq!(lines[4], format!("\x1b[1;36m╚{}\x1b[0m", "═".repeat(78)));
    assert!(sql_banner(" \n ").is_empty());
    assert_eq!(banner_lines("x", "USE X").len(), 1);
}

#[test]
fn blank_and_comment_statements_read_as_nothing() {
    assert_eq!(execute("   "), Reading::Nothing);
    assert_eq!(execute(" -- SELECT 1"), Reading::Nothing);
    assert_eq!(read_parsed("", Ok("{}".to_string())), Reading::Nothing);
}

#[test]
fn the_parser_decides_the_rest() {
    match execute("CREATE DATABASE shop") {
        Reading::Parsed(json) => {
            assert!(json.contains("CreateDatabase"), "{}", json);
            assert!(json.contains("shop"), "{}", json);
        }
        other => panic!("{:?}", other),
    }
    assert_eq!(
        read_parsed("SELECT", Err("expected an expression".to_string())),
        Reading::Refused("Parse error: expected an expression".to_string())
    );
    assert_eq!(
        read_parsed("SELECT 1", Ok("plan".to_string())),
        Reading::Parsed("plan".to_string())
    );
}

#[test]
fn lines_lead_to_the_statements_of_the_whole_input() {
    let lines = [
        "CREATE TABLE t ( -- the columns; all of them",
        "  id INT,",
        "",
        "  note VARCHAR(40)); INSERT INTO t VALUES (1, 'two",
        "  lines; still one'); -- done",
        "SELECT 4 -",
        "-2; SELECT",
    ];
    let solid = |list: Vec<String>| -> Vec<String> {
        list.iter().map(|s| s.chars().filter(|c| !c.is_whitespace()).collect()).collect()
    };
    let (mut all, rest) = split(&format!("{}\n", lines.join("\n")));
    assert_eq!(all.len(), 3);
    all.push(rest);
    assert_eq!(solid(feed_all(&lines)), solid(all));
}

#[test]
fn an_authorization_needs_a_scope() {
    for sql in [
        "SET AUTHORIZATION joe",
        "set  authorization default",
        "SET AUTHORIZATION 'joe'",
        "SET\nAUTHORIZATION\t\"joe\"",
        "SET -- for now\n AUTHORIZATION joe",
        "SET hivevar : authorization joe",
        "BEGIN; SET AUTHORIZATION joe",
        "SET /* for now */ AUTHORIZATION joe",
        "\u{17f}et authorization joe",
    ] {
        assert_eq!(execute(sql), Reading::Withheld, "{}", sql);
    }
    assert!(!matches!(execute("SET SESSION AUTHORIZATION joe"), Reading::Withheld));
    assert!(matches!(execute("SET AUTHORIZATION"), Reading::Refused(_)));
    assert!(matches!(execute("UPDATE t SET authorization = 1"), Reading::Parsed(_)));
    assert!(matches!(execute("UPDATE t SET authorization=1, a = 2"), Reading::Parsed(_)));
    assert!(matches!(execute("SELECT 'set authorization joe'"), Reading::Parsed(_)));
    assert!(matches!(execute("SELECT 1 -- set authorization joe"), Reading::Parsed(_)));
    assert!(matches!(execute("SELECT a FROM t OFFSET authorization ROWS"), Reading::Parsed(_)));
    assert!(matches!(execute("SELECT /* E'x' */ $1"), Reading::Parsed(_)));
}

#[test]
fn a_channel_needs_a_name() {
    for sql in [
        "FLUSH RELAY LOGS FOR CHANNEL",
        "flush local relay logs for channel ;",
        "FLUSH RELAY LOGS FOR CHANNEL a.",
        "FLUSH RELAY LOGS FOR CHANNEL 1",
        "FLUSH RELAY LOGS FOR CHANNEL #",
    ] {
        assert_eq!(execute(sql), Reading::Withheld, "{}", sql);
    }
    for sql in [
        "FLUSH RELAY LOGS",
        "FLUSH RELAY LOGS FOR CHANNEL a_1",
        "FLUSH RELAY LOGS FOR CHANNEL 'a' ;",
        "SELECT 'relay logs for channel'",
    ] {
        assert!(!matches!(execute(sql), Reading::Withheld), "{}", sql);
    }
}

#[test]
fn texts_that_the_parser_takes() {
    assert!(parser_takes(""));
    assert!(parser_takes("SELECT CHANNEL FROM RELAY"));
    assert!(parser_takes("SELECT AUTHORIZATION X"));
    assert!(!parser_takes("SELECT A[SET AUTHORIZATION X"));
    assert!(parser_takes("X(CHARSET AUTHORIZATION X"));
    assert!(parser_takes("SET AUTHORIZATIONS X"));
    assert!(parser_takes("SELECT E'\\' , 'CHANNEL'"));
    assert!(!parser_takes("SELECT E'\\' , 'SET' , 'AUTHORIZATION'"));
}
