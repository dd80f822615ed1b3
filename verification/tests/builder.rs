use std::str::FromStr;

use vvvv::own::{collect_owned, FromArgsOwned};
use vvvv::tr::{Counter, Switch};
use vvvv::{
    collect_from_args, from_args, from_args_iter, sum_up, try_insert, Error, FromArgs, OwnError,
    OwnToken, PollInit, Token,
};

#[derive(Debug, Eq, PartialEq)]
struct Test {
    a: String,         // raw
    b: i32,            // parse
    c: bool,           // switch
    d: u32,            // count
    x: Option<String>, // default+wrap(Some)
}

impl<'a> FromArgs<'a> for Test {
    type Init = TestInit;

    fn initializer() -> Self::Init {
        TestInit {
            term: false,
            a: None,
            b: None,
            c: false,
            d: 0,
            x: Default::default(),
        }
    }
}

impl FromArgsOwned for Test {
    type OwnInit = TestInit;
}

#[derive(Debug)]
struct TestInit {
    // only used if there is no need in things after --
    term: bool,
    a: Option<String>,         // raw
    b: Option<i32>,            // parse
    c: bool,                   // switch
    d: u32,                    // count
    x: Option<Option<String>>, // default+wrap(Some)
}

#[allow(non_camel_case_types)]
#[allow(dead_code)]
#[derive(Debug)]
enum TestParseError {
    a(<String as FromStr>::Err),
    b(<i32 as FromStr>::Err),
    x(<String as FromStr>::Err),
}

impl<'a> PollInit<'a> for TestInit {
    type Output = Test;

    type Err = TestParseError;

    fn poll_init(&mut self, token: Token<'a>) -> Result<(), Error<'a, Self::Err>> {
        if self.term {
            return Ok(());
        }

        match token {
            t @ Token::Positional(_) => Err(Error::UnexpectedPositional(t)),
            Token::Short {
                key: 'a',
                value: Some(v),
            } => try_insert(
                &mut self.a,
                || {
                    v.parse()
                        .map_err(|err| Error::Custom(TestParseError::a(err)))
                },
                || {
                    Error::UnexpectedMulti(Token::Short {
                        key: 'a',
                        value: Some(v),
                    })
                },
            ),
            t @ Token::Short { key: 'a', value: _ } => Err(Error::ExpectedValue(t)),
            Token::Short {
                key: 'b',
                value: Some(v),
            } => try_insert(
                &mut self.b,
                || {
                    v.parse()
                        .map_err(|err| Error::Custom(TestParseError::b(err)))
                },
                || {
                    Error::UnexpectedMulti(Token::Short {
                        key: 'b',
                        value: Some(v),
                    })
                },
            ),
            t @ Token::Short { key: 'b', value: _ } => Err(Error::ExpectedValue(t)),

            t @ Token::Short {
                key: 'c',
                value: None,
            } => Switch::set(&mut self.c).map_err(|_| Error::UnexpectedMulti(t)),
            t @ Token::Short {
                key: 'c',
                value: Some(_),
            } => Err(Error::UnexpectedValue(t)),

            t @ Token::Short {
                key: 'd',
                value: None,
            } => self.d.inc().map_err(|_| Error::TooManyOptions(t)),
            t @ Token::Short {
                key: 'd',
                value: Some(_),
            } => Err(Error::UnexpectedValue(t)),

            t @ Token::Short {
                key: 'x',
                value: None,
            } => Err(Error::ExpectedValue(t)),
            Token::Short {
                key: 'x',
                value: Some(v),
            } => try_insert(
                &mut self.x,
                || {
                    v.parse()
                        .map(Some)
                        .map_err(|err| Error::Custom(TestParseError::x(err)))
                },
                || {
                    Error::UnexpectedMulti(Token::Short {
                        key: 'x',
                        value: Some(v),
                    })
                },
            ),

            t @ Token::Short { .. } => Err(Error::UnknownOption(t)),
            t @ Token::Long { .. } => Err(Error::UnknownOption(t)),

            Token::DashDash => {
                self.term = true;
                Ok(())
            }
        }
    }

    fn finish(self) -> Result<Self::Output, Error<'a, Self::Err>> {
        match self {
            Self { a: None, .. } => Err(Error::RequiredOption("a")),
            Self { b: None, .. } => Err(Error::RequiredOption("b")),
            Self {
                a: Some(a),
                b: Some(b),
                c,
                d,
                x,
                term: _,
            } => Ok(Test {
                a,
                b,
                c,
                d,
                x: x.unwrap_or_default(),
            }),
        }
    }
}

fn messages<C: std::fmt::Display>(errors: &[Error<'_, C>]) -> Vec<String> {
    errors.iter().map(|e| e.to_string()).collect()
}

impl std::fmt::Display for TestParseError {
    fn fmt(&self, f: &mut std::fmt::Formatter<'_>) -> std::fmt::Result {
        match self {
            TestParseError::a(e) => f.write_str(&format!("a: {}", e)),
            TestParseError::b(e) => f.write_str(&format!("b: {}", e)),
            TestParseError::x(e) => f.write_str(&format!("x: {}", e)),
        }
    }
}

#[test]
fn expanded() {
    let args = ["-a", "a_val", "-c", "-ddd", "-d", "-b", "42"];
    let res: Test = collect_from_args(&args).unwrap();
    assert_eq!(
        res,
        Test {
            a: String::from("a_val"),
            b: 42,
            c: true,
            d: 4,
            x: None,
        }
    )
}

#[test]
fn first_error_driver_gives_the_value() {
    let args = ["-a", "a_val", "-c", "-ddd", "-d", "-b", "42", "-x", "y"];
    let res: Test = from_args(&args).unwrap();
    assert_eq!(
        res,
        Test {
            a: String::from("a_val"),
            b: 42,
            c: true,
            d: 4,
            x: Some(String::from("y")),
        }
    )
}

#[test]
fn accumulating_driver_collects_duplicate_and_missing() {
    let args = ["-a", "1", "-a", "2"];
    let errors = collect_from_args::<Test>(&args).unwrap_err();
    assert_eq!(errors.len(), 2);
    assert!(matches!(
        errors[0],
        Error::UnexpectedMulti(Token::Short { key: 'a', value: Some("2") })
    ));
    assert!(matches!(errors[1], Error::RequiredOption("b")));
    assert_eq!(
        messages(&errors),
        vec![
            "Unexpected multiple options: `-a 2`".to_string(),
            "Required option `b` was not provided".to_string(),
        ]
    );
}

#[test]
fn first_error_driver_stops_at_the_duplicate() {
    let args = ["-a", "1", "-a", "2"];
    let error = from_args::<Test>(&args).unwrap_err();
    assert!(matches!(
        error,
        Error::UnexpectedMulti(Token::Short { key: 'a', value: Some("2") })
    ));
}

#[test]
fn accumulating_driver_gives_every_error_in_order() {
    let args = ["pos", "-q", "--long", "v", "-c", "-c", "-b", "x1", "-d", "v", "-a"];
    let errors = collect_from_args::<Test>(&args).unwrap_err();
    assert_eq!(
        messages(&errors),
        vec![
            "Unexpected possitional argument: `pos`".to_string(),
            "Unknown option: `-q`".to_string(),
            "Unknown option: `--long v`".to_string(),
            "Unexpected multiple options: `-c`".to_string(),
            "b: invalid digit found in string".to_string(),
            "Unexpected option with value: `-d v`".to_string(),
            "Expected option with value: `-a`".to_string(),
            "Required option `a` was not provided".to_string(),
        ]
    );
    let first = from_args::<Test>(&args).unwrap_err();
    assert_eq!(first.to_string(), messages(&errors)[0]);
}

#[test]
fn accumulating_driver_gives_errors_though_finish_succeeds() {
    let args = ["-a", "1", "-b", "2", "-z"];
    let errors = collect_from_args::<Test>(&args).unwrap_err();
    assert_eq!(messages(&errors), vec!["Unknown option: `-z`".to_string()]);
}

#[test]
fn drivers_on_no_arguments_finish_the_initializer() {
    let args: [&str; 0] = [];
    let errors = collect_from_args::<Test>(&args).unwrap_err();
    assert_eq!(messages(&errors), vec!["Required option `a` was not provided".to_string()]);
    let error = from_args::<Test>(&args).unwrap_err();
    assert!(matches!(error, Error::RequiredOption("a")));
    let mut iter = from_args_iter::<Test>(&args);
    assert_eq!(iter.size_hint(), (1, None));
    assert!(matches!(iter.next(), Some(Err(Error::RequiredOption("a")))));
    assert!(iter.next().is_none());
    assert!(iter.next().is_none());
}

#[test]
fn lazy_driver_yields_errors_and_then_the_value() {
    let args = ["-a", "1", "-z", "-b", "2", "--y", "-c"];
    let mut iter = from_args_iter::<Test>(&args);
    assert!(matches!(
        iter.next(),
        Some(Err(Error::UnknownOption(Token::Short { key: 'z', value: None })))
    ));
    assert!(matches!(
        iter.next(),
        Some(Err(Error::UnknownOption(Token::Long { key: "y", value: None })))
    ));
    assert_eq!(
        iter.next().map(|r| r.ok()),
        Some(Some(Test { a: "1".to_string(), b: 2, c: true, d: 0, x: None }))
    );
    assert!(iter.next().is_none());
}

#[test]
fn tokens_behind_dash_dash_reach_the_initializer_as_positionals() {
    let args = ["-a", "1", "-b", "2", "--", "-z", "pos"];
    let res: Test = collect_from_args(&args).unwrap();
    assert_eq!(res, Test { a: "1".to_string(), b: 2, c: false, d: 0, x: None });
}

#[test]
fn try_insert_fills_an_empty_place() {
    let mut place: Option<u8> = None;
    let r: Result<(), &str> = try_insert(&mut place, || Ok(7), || "twice");
    assert_eq!(r, Ok(()));
    assert_eq!(place, Some(7));
}

#[test]
fn try_insert_keeps_what_is_there() {
    let mut place: Option<u8> = Some(1);
    let r: Result<(), &str> = try_insert(&mut place, || Ok(7), || "twice");
    assert_eq!(r, Err("twice"));
    assert_eq!(place, Some(1));
}

#[test]
fn try_insert_hands_the_error_of_the_value_on() {
    let mut place: Option<u8> = None;
    let r: Result<(), &str> = try_insert(&mut place, || Err("no value"), || "twice");
    assert_eq!(r, Err("no value"));
    assert_eq!(place, None);
}

fn owned_from(args: Vec<String>) -> Result<Test, Vec<OwnError<TestParseError>>> {
    let args: Vec<&str> = args.iter().map(String::as_str).collect();
    collect_owned(&args)
}

#[test]
fn owning_driver_gives_the_value() {
    let args = vec!["-a".to_string(), "x".to_string(), "-b".to_string(), "7".to_string()];
    assert_eq!(
        owned_from(args).unwrap(),
        Test { a: "x".to_string(), b: 7, c: false, d: 0, x: None }
    );
}

#[test]
fn owning_driver_gives_errors_that_outlive_the_arguments() {
    let args = vec!["-a".to_string(), "1".to_string(), "-a".to_string(), "2".to_string()];
    let errors = owned_from(args).unwrap_err();
    assert_eq!(errors.len(), 2);
    match &errors[0] {
        OwnError::UnexpectedMulti(t) => {
            assert_eq!(*t, OwnToken::Short { key: 'a', value: Some("2".into()) })
        }
        other => panic!("{:?}", other),
    }
    assert!(matches!(errors[1], OwnError::RequiredOption("b")));
}

#[test]
fn counter_overflow_is_an_error_of_the_token() {
    struct Small(u8);
    struct SmallInit(u8);
    impl<'a> FromArgs<'a> for Small {
        type Init = SmallInit;
        fn initializer() -> SmallInit {
            SmallInit(253)
        }
    }
    impl<'a> PollInit<'a> for SmallInit {
        type Output = Small;
        type Err = std::convert::Infallible;
        fn poll_init(&mut self, token: Token<'a>) -> Result<(), Error<'a>> {
            self.0.inc().map_err(|_| Error::TooManyOptions(token))
        }
        fn finish(self) -> Result<Small, Error<'a>> {
            Ok(Small(self.0))
        }
    }
    assert_eq!(collect_from_args::<Small>(&["-vv"]).ok().map(|s| s.0), Some(255));
    let errors = collect_from_args::<Small>(&["-vvvv"]).err().unwrap();
    assert_eq!(errors.len(), 2);
    assert_eq!(errors[0].to_string(), "Too many options: `-v`");
    assert_eq!(errors[1].to_string(), "Too many options: `-v`");
}

#[test]
fn sum_up_gives_the_value_only_without_errors() {
    let none: Vec<Error<'static, String>> = Vec::new();
    assert_eq!(sum_up(none, Ok(7)).ok(), Some(7));

    let met = vec![Error::<String>::UnknownOption(Token::DashDash)];
    let errors = sum_up(met, Ok(7)).unwrap_err();
    assert_eq!(messages(&errors), vec!["Unknown option: `--`".to_string()]);

    let none: Vec<Error<'static, String>> = Vec::new();
    let errors = sum_up::<u8, String>(none, Err(Error::RequiredOption("a"))).unwrap_err();
    assert_eq!(messages(&errors), vec!["Required option `a` was not provided".to_string()]);

    let met = vec![
        Error::<String>::UnknownOption(Token::DashDash),
        Error::Custom("custom".to_string()),
    ];
    let errors = sum_up::<u8, String>(met, Err(Error::RequiredOption("a"))).unwrap_err();
    assert_eq!(
        messages(&errors),
        vec![
            "Unknown option: `--`".to_string(),
            "custom".to_string(),
            "Required option `a` was not provided".to_string(),
        ]
    );
}
