use infinigit::dotenv::{dotenv_quote, parse_dotenv, render_values, shell_quote};
use infinigit::names::valid_secret_name;

fn entry(k: &str, v: &str) -> (String, String) {
    (k.to_string(), v.to_string())
}

#[test]
fn validates_and_quotes_environment_values() {
    assert!(valid_secret_name("DATABASE_URL"));
    assert!(valid_secret_name("_TOKEN_2"));
    assert!(!valid_secret_name("2_TOKEN"));
    assert!(!valid_secret_name("mixedCase"));
    assert_eq!(dotenv_quote("a\"b\n"), "\"a\\\"b\\n\"");
    assert_eq!(shell_quote("it's safe"), "'it'\\''s safe'");
}

#[test]
fn parses_dotenv_and_rejects_ambiguous_input() {
    assert_eq!(
        parse_dotenv("# deployment\nexport API_TOKEN='abc'\nEMPTY=\"\"\n").unwrap(),
        vec![
            ("API_TOKEN".into(), "abc".into()),
            ("EMPTY".into(), "".into())
        ]
    );
    assert!(parse_dotenv("bad=value").is_err());
    assert!(parse_dotenv("TOKEN=one\nTOKEN=two").is_err());
    assert!(parse_dotenv("not-an-assignment").is_err());
}

#[test]
fn dotenv_errors_name_the_line_or_the_key() {
    assert_eq!(parse_dotenv("A=1\n\nnot-an-assignment"), Err("invalid dotenv line 3".to_string()));
    assert_eq!(
        parse_dotenv("TOKEN=one\r\nTOKEN=two"),
        Err("invalid or duplicate secret key TOKEN".to_string())
    );
    assert_eq!(parse_dotenv("bad=value"), Err("invalid or duplicate secret key bad".to_string()));
}

#[test]
fn dotenv_values_are_trimmed_and_unquoted_once() {
    assert_eq!(
        parse_dotenv("  KEY = \" spaced \"  \r\nOTHER='x'\nSINGLE=\"\nMIXED=\"a'\n").unwrap(),
        vec![
            entry("KEY", " spaced "),
            entry("OTHER", "x"),
            entry("SINGLE", "\""),
            entry("MIXED", "\"a'"),
        ]
    );
    assert_eq!(parse_dotenv("URL=a=b=c").unwrap(), vec![entry("URL", "a=b=c")]);
    assert_eq!(parse_dotenv("").unwrap(), Vec::<(String, String)>::new());
    assert_eq!(parse_dotenv("# only\n\n   \n").unwrap(), Vec::<(String, String)>::new());
}

#[test]
fn secret_names_follow_the_key_rules() {
    assert!(valid_secret_name("A"));
    assert!(valid_secret_name("_"));
    assert!(!valid_secret_name(""));
    assert!(!valid_secret_name("A-B"));
    assert!(valid_secret_name(&"A".repeat(128)));
    assert!(!valid_secret_name(&"A".repeat(129)));
}

#[test]
fn quoting_escapes_every_special_character() {
    assert_eq!(dotenv_quote(""), "\"\"");
    assert_eq!(dotenv_quote("a\\b\r\n\"c"), "\"a\\\\b\\r\\n\\\"c\"");
    assert_eq!(shell_quote(""), "''");
    assert_eq!(shell_quote("''"), "''\\'''\\'''");
    assert_eq!(shell_quote("$HOME \"x\""), "'$HOME \"x\"'");
}

#[test]
fn rendered_values_end_each_line() {
    let values = vec![entry("A", "one"), entry("B", "it's\n")];
    assert_eq!(render_values(&values, false), "A=\"one\"\nB=\"it's\\n\"\n");
    assert_eq!(render_values(&values, true), "export A='one'\nexport B='it'\\''s\n'\n");
    assert_eq!(render_values(&Vec::new(), false), "\n");
    assert_eq!(render_values(&Vec::new(), true), "\n");
    assert_eq!(parse_dotenv(&render_values(&Vec::new(), false)).unwrap(), Vec::<(String, String)>::new());
}

#[test]
fn plain_values_survive_a_pull_and_a_put() {
    let values = vec![entry("API_TOKEN", "abc"), entry("EMPTY", ""), entry("URL", "https://x/y?a=b")];
    let text = render_values(&values, false);
    assert_eq!(parse_dotenv(&text).unwrap(), values);
    let shell = render_values(&values, true);
    assert_eq!(parse_dotenv(&shell).unwrap(), values);
}

#[test]
fn apostrophes_and_quotes_survive_in_their_own_form() {
    let dotenv = vec![entry("NOTE", "it's fine")];
    assert_eq!(parse_dotenv(&render_values(&dotenv, false)).unwrap(), dotenv);
    let shell = vec![entry("NOTE", "say \"hi\" \\ now")];
    assert_eq!(parse_dotenv(&render_values(&shell, true)).unwrap(), shell);
}
