use parg::{Arg, CliArguments, Type, Value};

fn names(cli: &CliArguments) -> Vec<String> {
    (0..cli.len()).map(|i| cli.arg_at(i).get_name()).collect()
}

#[test]
fn arguments_stand_in_the_order_of_their_names() {
    let config = Arg::with_value("config", Type::ReadAsString, true);
    let thread = Arg::with_value("thread", Type::ReadAsU8, false);
    let verbose = Arg::without_value("verbose", false);
    let all = Arg::without_value("all", false);
    let cli = CliArguments::new(vec![thread, verbose, all, config]);
    assert_eq!(names(&cli), vec!["all", "config", "thread", "verbose"]);
    assert_eq!(cli.find("all"), Some(0));
    assert_eq!(cli.find("thread"), Some(2));
    assert_eq!(cli.find("threads"), None);
    assert_eq!(cli.find(""), None);
}

#[test]
fn later_registration_of_a_name_wins() {
    let first = Arg::with_value("level", Type::ReadAsU8, true);
    let other = Arg::without_value("quiet", false);
    let second = Arg::with_default_value("level", Type::ReadAsI32, Value::I32(-3), false);
    let mut cli = CliArguments::new(vec![first, other, second]);
    assert_eq!(names(&cli), vec!["level", "quiet"]);
    assert_eq!(cli.arg_at(0).kind(), Some(Type::ReadAsI32));
    assert!(!cli.arg_at(0).is_required());
    assert!(cli.parse_subset(Vec::new()).is_ok());
    assert_eq!(cli.get_value::<i32>("level"), Ok(-3));
}

#[test]
fn add_registers_one_more_argument() {
    let mut cli = CliArguments::new(Vec::new());
    assert_eq!(cli.len(), 0);
    cli.add(Arg::without_value("m", false));
    cli.add(Arg::without_value("a", false));
    cli.add(Arg::without_value("z", false));
    cli.add(Arg::without_value("ma", false));
    cli.add(Arg::with_value("m", Type::ReadAsU8, false));
    assert_eq!(names(&cli), vec!["a", "m", "ma", "z"]);
    assert!(cli.arg_at(1).takes_value());
}

#[test]
fn arguments_are_declared_as_constructed() {
    let mut a = Arg::with_default_value("foo", Type::ReadAsI32, Value::I32(42), false);
    assert_eq!(a.get_name(), String::from("foo"));
    assert_eq!(a.name(), "foo");
    assert_eq!(a.kind(), Some(Type::ReadAsI32));
    assert!(a.takes_value());
    assert!(!a.is_required());
    assert!(!a.was_found());
    assert!(a.has_default_value());
    assert!(a.value().is_none());
    assert!(matches!(a.default_value(), Some(Value::I32(42))));
    assert_eq!(a.description(), "");
    a.set_description("a little description");
    assert_eq!(a.description(), "a little description");
    assert_eq!(a.format_value(), "");
    assert_eq!(a.format_default_value(), "42");
    assert_eq!(a.to_text(), "--foo=None");

    let b = Arg::with_value("bar", Type::ReadAsString, true);
    assert_eq!(b.get_name(), "bar");
    assert_eq!(b.kind(), Some(Type::ReadAsString));
    assert!(b.is_required());
    assert!(!b.has_default_value());
    assert_eq!(b.format_default_value(), "");

    let c = Arg::without_value("baz", true);
    assert_eq!(c.get_name(), "baz");
    assert_eq!(c.kind(), None);
    assert!(!c.takes_value());
    assert!(c.is_required());
    assert!(!c.has_default_value());
    assert_eq!(c.to_text(), "--baz");
}

#[test]
fn usage_text_is_laid_out_exactly() {
    let mut threshold = Arg::with_value("threshold", Type::ReadAsU8, true);
    threshold.set_description("a little description for the argument");
    let path = Arg::with_default_value(
        "path",
        Type::ReadAsString,
        Value::Str("/tmp".to_string()),
        false,
    );
    let mut cli = CliArguments::new(vec![threshold, path]);
    cli.set_info("my_command", "The description");

    let mut params = String::new();
    let mut params_descr = format!("{:23}Print this help\n", "--help");
    for (name, description, default) in [
        ("path", "", "\"/tmp\""),
        ("threshold", "a little description for the argument", ""),
    ] {
        params = format!("{} --{} <value>", params, name);
        params_descr = format!(
            "{}--{} {:10}    {} (default: {})\n",
            params_descr, name, "<value>", description, default
        );
    }
    let expected = format!(
        "{}\nUsage:\n{}{}\n\nArguments:\n{}",
        "The description", "my_command", params, params_descr
    );
    assert_eq!(cli.generate_usage(), expected);
    assert_eq!(
        cli.generate_usage(),
        "The description\nUsage:\nmy_command --path <value> --threshold <value>\n\nArguments:\n\
         --help                 Print this help\n\
         --path <value>        (default: \"/tmp\")\n\
         --threshold <value>       a little description for the argument (default: )\n"
    );
}

#[test]
fn usage_text_of_an_empty_registry() {
    let cli = CliArguments::new(Vec::new());
    assert_eq!(
        cli.generate_usage(),
        format!("\nUsage:\n\n\nArguments:\n{:23}Print this help\n", "--help")
    );
}

#[test]
fn registry_is_displayed_one_argument_to_a_line() {
    let config = Arg::with_value("config", Type::ReadAsString, false);
    let thread = Arg::with_value("thread", Type::ReadAsU8, false);
    let letter = Arg::with_value("letter", Type::ReadAsChar, false);
    let verbose = Arg::without_value("verbose", false);
    let mut cli = CliArguments::new(vec![config, thread, verbose, letter]);
    assert_eq!(cli.to_text(), "--config=None\n--letter=None\n--thread=None\n--verbose\n");
    let tokens: Vec<String> = ["--config", "a b", "--thread", "4", "--verbose", "--letter", "x"]
        .iter()
        .map(|t| t.to_string())
        .collect();
    assert!(cli.parse_subset(tokens).is_ok());
    assert_eq!(cli.to_text(), "--config=\"a b\"\n--letter='x'\n--thread=4\n--verbose\n");
    assert_eq!(cli.arg_at(2).format_value(), "4");
    assert_eq!(cli.arg_at(3).format_value(), "");
    assert!(cli.check_type(Type::ReadAsU8, Type::ReadAsU8));
    assert!(!cli.check_type(Type::ReadAsU8, Type::ReadAsU16));
}

#[test]
fn every_argument_of_a_large_registry_is_found() {
    let mut list = Vec::new();
    for i in 0..64u32 {
        // Registered in an order that is not the order of names.
        let n = (i * 37) % 64;
        list.push(Arg::with_default_value(
            &format!("arg{:02}", n),
            Type::ReadAsU32,
            Value::U32(n),
            false,
        ));
    }
    let mut cli = CliArguments::new(list);
    assert_eq!(cli.len(), 64);
    for i in 0..64usize {
        assert_eq!(cli.arg_at(i).get_name(), format!("arg{:02}", i));
        assert_eq!(cli.find(&format!("arg{:02}", i)), Some(i));
    }
    assert_eq!(cli.find("arg"), None);
    assert_eq!(cli.find("arg64"), None);
    assert_eq!(cli.find("arg0"), None);
    assert_eq!(cli.find("arg000"), None);
    assert_eq!(cli.find("zzz"), None);
    assert_eq!(cli.find("a"), None);
    assert!(cli.parse_subset(vec!["--arg07".to_string(), "700".to_string()]).is_ok());
    for i in 0..64u32 {
        let expected = if i == 7 { 700 } else { i };
        assert_eq!(cli.get_value::<u32>(&format!("arg{:02}", i)), Ok(expected));
        assert_eq!(cli.is_present(&format!("arg{:02}", i)), i == 7);
    }
}
