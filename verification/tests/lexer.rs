use vvvv::{OwnToken, Token};
use vvvv::tr::IntoOwned;

fn lex<'a>(args: &'a [&'a str]) -> Vec<Token<'a>> {
    let mut parser = Token::parse(args);
    let mut tokens = Vec::new();
    while let Some(token) = parser.next() {
        tokens.push(token);
    }
    assert_eq!(parser.next(), None);
    tokens
}

fn short(key: char) -> Token<'static> {
    Token::Short { key, value: None }
}

#[test]
fn ast_parse() {
    let args = [
        "unparsed",
        "-",
        "-vvvv",
        "-v",
        "val",
        "-xx",
        "1",
        "unp",
        "--python",
        "48",
        "--loooong",
        "-",
        "-okk",
        "--",
        "--option",
        "-x",
    ];
    let expected = [
        Token::Positional("unparsed"),
        Token::Positional("-"),
        Token::Short {
            key: 'v',
            value: None,
        },
        Token::Short {
            key: 'v',
            value: None,
        },
        Token::Short {
            key: 'v',
            value: None,
        },
        Token::Short {
            key: 'v',
            value: None,
        },
        Token::Short {
            key: 'v',
            value: Some("val"),
        },
        Token::Short {
            key: 'x',
            value: None,
        },
        Token::Short {
            key: 'x',
            value: None,
        },
        Token::Positional("1"),
        Token::Positional("unp"),
        Token::Long {
            key: "python",
            value: Some("48"),
        },
        Token::Long {
            key: "loooong",
            value: Some("-"),
        },
        Token::Short {
            key: 'o',
            value: None,
        },
        Token::Short {
            key: 'k',
            value: None,
        },
        Token::Short {
            key: 'k',
            value: None,
        },
        Token::DashDash,
        Token::Positional("--option"),
        Token::Positional("-x"),
    ];

    assert_eq!(Token::parse(&args).collect(), &expected);
}

#[test]
fn cluster_of_four() {
    assert_eq!(lex(&["-vvvv"]), vec![short('v'), short('v'), short('v'), short('v')]);
}

#[test]
fn short_with_value() {
    assert_eq!(lex(&["-v", "val"]), vec![Token::Short { key: 'v', value: Some("val") }]);
}

#[test]
fn cluster_takes_no_value() {
    assert_eq!(
        lex(&["-xyz", "value"]),
        vec![short('x'), short('y'), short('z'), Token::Positional("value")]
    );
}

#[test]
fn option_takes_no_option_as_value() {
    assert_eq!(lex(&["-x", "-y"]), vec![short('x'), short('y')]);
    assert_eq!(
        lex(&["--long", "--other"]),
        vec![
            Token::Long { key: "long", value: None },
            Token::Long { key: "other", value: None }
        ]
    );
    assert_eq!(lex(&["-x", "--"]), vec![short('x'), Token::DashDash]);
    assert_eq!(
        lex(&["--long", "-abc"]),
        vec![Token::Long { key: "long", value: None }, short('a'), short('b'), short('c')]
    );
}

#[test]
fn option_takes_lone_dash_and_empty_text_as_value() {
    assert_eq!(lex(&["-x", "-"]), vec![Token::Short { key: 'x', value: Some("-") }]);
    assert_eq!(lex(&["--x", ""]), vec![Token::Long { key: "x", value: Some("") }]);
}

#[test]
fn dash_dash_makes_the_rest_positional() {
    assert_eq!(
        lex(&["-a", "--", "--opt", "-x", "--", "-", "plain", "-xyz"]),
        vec![
            short('a'),
            Token::DashDash,
            Token::Positional("--opt"),
            Token::Positional("-x"),
            Token::Positional("--"),
            Token::Positional("-"),
            Token::Positional("plain"),
            Token::Positional("-xyz"),
        ]
    );
    assert_eq!(lex(&["--"]), vec![Token::DashDash]);
}

#[test]
fn lone_dash_is_positional() {
    assert_eq!(lex(&["-"]), vec![Token::Positional("-")]);
    assert_eq!(lex(&["-", "-"]), vec![Token::Positional("-"), Token::Positional("-")]);
    assert_eq!(lex(&["a", "-", "-b"]), vec![Token::Positional("a"), Token::Positional("-"), short('b')]);
    assert_eq!(lex(&["--", "-"]), vec![Token::DashDash, Token::Positional("-")]);
}

#[test]
fn empty_arguments() {
    assert_eq!(lex(&[]), Vec::<Token>::new());
    assert_eq!(lex(&[""]), vec![Token::Positional("")]);
}

#[test]
fn keys_of_more_than_one_byte() {
    assert_eq!(lex(&["-é"]), vec![short('é')]);
    assert_eq!(lex(&["-éü", "x"]), vec![short('é'), short('ü'), Token::Positional("x")]);
    assert_eq!(lex(&["--é", "ü"]), vec![Token::Long { key: "é", value: Some("ü") }]);
    assert_eq!(lex(&["---"]), vec![Token::Long { key: "-", value: None }]);
}

#[test]
fn lexer_collect_gives_what_next_gives() {
    let args = ["a", "-bc", "--d", "e", "--", "-f"];
    assert_eq!(Token::parse(&args).collect(), lex(&args));
    let mut parser = Token::parse(&args);
    parser.next();
    parser.next();
    assert_eq!(parser.collect(), lex(&args)[2..].to_vec());
}

#[test]
fn size_hint_is_half_of_what_is_left() {
    let args = ["a", "-bc", "--d", "e", "f"];
    let mut parser = Token::parse(&args);
    assert_eq!(parser.size_hint(), (2, None));
    parser.next();
    assert_eq!(parser.size_hint(), (2, None));
    parser.next();
    assert_eq!(parser.size_hint(), (1, None));
    parser.next();
    assert_eq!(parser.size_hint(), (1, None));
    parser.next();
    assert_eq!(parser.size_hint(), (0, None));
}

/// The raw text that a token was read from, where it stands for whole arguments.
fn raw(token: &Token<'_>) -> Vec<String> {
    match token {
        Token::Positional(s) => vec![s.to_string()],
        Token::Short { key, value } => {
            let mut raw = vec![format!("-{}", key)];
            raw.extend(value.iter().map(|v| v.to_string()));
            raw
        }
        Token::Long { key, value } => {
            let mut raw = vec![format!("--{}", key)];
            raw.extend(value.iter().map(|v| v.to_string()));
            raw
        }
        Token::DashDash => vec!["--".to_string()],
    }
}

#[test]
fn tokens_account_for_every_argument_once() {
    // Without a cluster every token stands for whole arguments.
    let args = ["a", "-", "-b", "c", "--d", "-", "--e", "-f", "--", "--g", "-hi", ""];
    let mut read = Vec::new();
    for token in lex(&args) {
        read.extend(raw(&token));
    }
    assert_eq!(read, args);
}

#[test]
fn clusters_account_for_every_character_once() {
    let args = ["-abc", "d", "-ef"];
    let keys: String = lex(&args)
        .iter()
        .map(|t| match t {
            Token::Short { key, value: None } => key.to_string(),
            Token::Positional(s) => format!(" {} ", s),
            _ => unreachable!(),
        })
        .collect();
    assert_eq!(keys, "abc d ef");
}

#[test]
fn token_text() {
    assert_eq!(Token::Positional("some thing").to_string(), "some thing");
    assert_eq!(short('x').to_string(), "-x");
    assert_eq!(Token::Short { key: 'x', value: Some("val") }.to_string(), "-x val");
    assert_eq!(Token::Long { key: "opt", value: None }.to_string(), "--opt");
    assert_eq!(Token::Long { key: "opt", value: Some("value") }.to_string(), "--opt value");
    assert_eq!(Token::DashDash.to_string(), "--");
    let mut out = String::from("> ");
    Token::Short { key: 'é', value: Some("") }.write(&mut out);
    assert_eq!(out, "> -é ");
}

#[test]
fn owned_token_holds_the_same() {
    let tokens = [
        Token::Positional("pos"),
        short('s'),
        Token::Short { key: 's', value: Some("v") },
        Token::Long { key: "long", value: None },
        Token::Long { key: "long", value: Some("v") },
        Token::DashDash,
    ];
    for token in tokens {
        let owned: OwnToken = token.into_owned();
        assert_eq!(owned.borrow(), token);
        assert_eq!(owned.to_string(), token.to_string());
        assert_eq!(owned.clone(), owned);
    }
    assert_eq!(
        Token::Long { key: "k", value: Some("v") }.into_owned(),
        OwnToken::Long { key: "k".into(), value: Some("v".into()) }
    );
    assert_eq!(Token::Positional("p").into_owned(), OwnToken::Positional("p".into()));
}
