use vvvv::help::{Description, Kind, Opt, Pos, Required};

fn positionals() -> [Pos<'static>; 1] {
    [Pos { name: "input", descr: "The input file" }]
}

fn options() -> [Opt<'static>; 2] {
    [
        Opt {
            short: Some('v'),
            long: Some("verbose"),
            kind: Kind::Flag,
            descr: "Say more",
            required: Required::Optional,
        },
        Opt {
            short: None,
            long: Some("out"),
            kind: Kind::Value { name: Some("file"), default: Some("a.out") },
            descr: "Where to write",
            required: Required::If("input"),
        },
    ]
}

fn label(opt: &Opt<'_>) -> String {
    let mut out = String::new();
    opt.write(&mut out);
    out
}

#[test]
fn empty_description_renders_nothing() {
    assert_eq!(Description::Empty.render(None, 4), Some(String::new()));
    assert_eq!(Description::Empty.render(Some(0), 400), Some(String::new()));
}

#[test]
fn raw_description_renders_as_it_is() {
    let text = "just this,    on one line however long it is";
    assert_eq!(Description::Raw(text).render(Some(5), 4), Some(text.to_string()));
    assert!(Description::Raw(text).can_lay_out(Some(0), 4));
}

#[test]
fn typed_description_without_limit() {
    let positionals = positionals();
    let options = options();
    let d = Description::Typed {
        descr: "Does things.",
        usage: "prog [OPTIONS] <input>",
        positionals: &positionals,
        options: &options,
    };
    let expected = "Does things.\n\
        \n\
        Usage:\n\
        \x20 prog [OPTIONS] <input>\n\
        \n\
        Positional arguments:\n\
        \x20   input    The input file\n\
        \n\
        \n\
        Options:\n\
        \x20   -v, --verbose    Say more\n\
        \x20   --out <file>     Where to write [default: a.out]\n";
    assert_eq!(d.render(None, 4).as_deref(), Some(expected));
}

#[test]
fn typed_description_wrapped_to_thirty_columns() {
    let positionals = positionals();
    let options = options();
    let d = Description::Typed {
        descr: "Does things.",
        usage: "prog [OPTIONS] <input>",
        positionals: &positionals,
        options: &options,
    };
    let pad = " ".repeat(21);
    let expected = format!(
        "Does things.\n\
        \n\
        Usage:\n\
        \x20 prog [OPTIONS] <input>\n\
        \n\
        Positional arguments:\n\
        \x20   input    The input file\n\
        \n\
        \n\
        Options:\n\
        \x20   -v, --verbose    Say more\n\
        \x20   --out <file>     Where to\n\
        {pad}write\n\
        {pad}[default: \n\
        {pad}a.out]\n",
        pad = pad
    );
    assert_eq!(d.render(Some(30), 4), Some(expected));
}

#[test]
fn usage_is_indented_on_every_line() {
    let d = Description::Typed {
        descr: "A tool that does a thing",
        usage: "tool [-a] [-b] <x>",
        positionals: &[],
        options: &[],
    };
    // The last line of the usage fills its eight columns, and so ends with a line break.
    let expected = "A tool\n\
        that does\n\
        a thing\n\
        \n\
        Usage:\n\
        \x20 tool\n\
        \x20 [-a]\n\
        \x20 [-b] <x>\n\
        \x20 ";
    assert_eq!(d.render(Some(10), 4).as_deref(), Some(expected));
}

#[test]
fn description_without_arguments_has_no_blocks() {
    let d = Description::Typed { descr: "d", usage: "u", positionals: &[], options: &[] };
    assert_eq!(d.render(None, 4).as_deref(), Some("d\n\nUsage:\n  u"));
    // Without arguments only the two columns before the usage are needed.
    assert_eq!(d.render(Some(2), 1000).as_deref(), Some("d\n\nUsage:\n  u\n  "));
    assert_eq!(d.render(Some(1), 0), None);
    assert_eq!(d.render(Some(0), 0), None);
}

#[test]
fn description_that_does_not_fit_is_not_rendered() {
    let positionals = positionals();
    let options = options();
    let d = Description::Typed {
        descr: "Does things.",
        usage: "prog",
        positionals: &positionals,
        options: &options,
    };
    // The descriptions of the options start in column 4 + 13 + 4.
    assert!(d.can_lay_out(Some(21), 4));
    assert!(d.render(Some(21), 4).is_some());
    assert!(!d.can_lay_out(Some(20), 4));
    assert_eq!(d.render(Some(20), 4), None);
    assert!(d.can_lay_out(Some(13), 0));
    assert!(!d.can_lay_out(Some(12), 0));
    assert!(!d.can_lay_out(None, usize::MAX));
    assert!(!d.can_lay_out(None, usize::MAX / 2));
    let only_positionals = Description::Typed {
        descr: "Does things.",
        usage: "prog",
        positionals: &positionals,
        options: &[],
    };
    // The descriptions of the positional arguments start in column 4 + 5 + 4.
    assert!(only_positionals.can_lay_out(Some(13), 4));
    assert!(!only_positionals.can_lay_out(Some(12), 4));
}

#[test]
fn write_i_appends_to_what_is_there() {
    let d = Description::Typed { descr: "d", usage: "u", positionals: &[], options: &[] };
    let mut out = String::from("help: ");
    d.write_i(&mut out, None, 4);
    assert_eq!(out, "help: d\n\nUsage:\n  u");
}

#[test]
fn labels_of_options() {
    let mut opt = Opt {
        short: None,
        long: None,
        kind: Kind::Flag,
        descr: "",
        required: Required::Required,
    };
    assert_eq!(label(&opt), "");
    opt.long = Some("long");
    assert_eq!(label(&opt), "--long");
    opt.short = Some('s');
    assert_eq!(label(&opt), "-s, --long");
    opt.long = None;
    assert_eq!(label(&opt), "-s");
    opt.kind = Kind::Count;
    assert_eq!(label(&opt), "-s");
    opt.kind = Kind::Value { name: None, default: None };
    assert_eq!(label(&opt), "-s <val>");
    opt.kind = Kind::Value { name: Some("n"), default: Some("1") };
    assert_eq!(label(&opt), "-s <n>");
    let mut out = String::from("[");
    opt.write(&mut out);
    assert_eq!(out, "[-s <n>");
}

#[test]
fn rows_are_aligned_by_display_width() {
    // The name of the first argument takes four columns, that of the second three.
    let positionals = [Pos { name: "日本", descr: "x" }, Pos { name: "abc", descr: "y" }];
    let d = Description::Typed { descr: "d", usage: "u", positionals: &positionals, options: &[] };
    assert_eq!(
        d.render(None, 1).as_deref(),
        Some("d\n\nUsage:\n  u\n\nPositional arguments:\n 日本 x\n abc  y\n")
    );
}

#[test]
fn row_without_description_ends_its_line() {
    let positionals = [Pos { name: "a", descr: "" }, Pos { name: "b", descr: "y" }];
    let d = Description::Typed { descr: "", usage: "u", positionals: &positionals, options: &[] };
    assert_eq!(
        d.render(None, 2).as_deref(),
        Some("\n\nUsage:\n  u\n\nPositional arguments:\n  a  \n  b  y\n")
    );
}

#[test]
fn label_of_a_named_value_takes_the_columns_of_its_name() {
    let options = [
        Opt {
            short: Some('o'),
            long: None,
            kind: Kind::Value { name: Some("FILE"), default: None },
            descr: "x",
            required: Required::Required,
        },
        Opt {
            short: Some('n'),
            long: None,
            kind: Kind::Value { name: None, default: None },
            descr: "y",
            required: Required::Optional,
        },
        Opt {
            short: Some('v'),
            long: None,
            kind: Kind::Count,
            descr: "z",
            required: Required::Optional,
        },
        Opt {
            short: None,
            long: Some("日本"),
            kind: Kind::Value { name: Some("語"), default: None },
            descr: "w",
            required: Required::Optional,
        },
    ];
    let d = Description::Typed { descr: "d", usage: "u", positionals: &[], options: &options };
    // The widest label, `--日本 <語>`, takes 2 + 4 + 3 + 2 columns; `-o <FILE>` takes 9.
    assert_eq!(
        d.render(None, 1).as_deref(),
        Some(
            "d\n\nUsage:\n  u\n\nOptions:\n -o <FILE>   x\n -n <val>    y\n -v          z\n --日本 <語> w\n"
        )
    );
    assert!(d.can_lay_out(Some(13), 1));
    assert!(!d.can_lay_out(Some(12), 1));
}

#[test]
fn every_description_of_a_block_starts_in_the_same_column() {
    let options = options();
    let d = Description::Typed { descr: "d", usage: "u", positionals: &[], options: &options };
    let text = d.render(None, 4).unwrap();
    let rows: Vec<&str> = text.lines().skip_while(|l| *l != "Options:").skip(1).collect();
    assert_eq!(rows.len(), 2);
    assert_eq!(rows[0].find("Say more"), Some(21));
    assert_eq!(rows[1].find("Where to write"), Some(21));
}
