use configure_me::layer::PartialLayer;
use configure_me::names::{param_flag_name, pascal_case, switch_flag_name, underscore_to_hypen};
use configure_me::resolve::{merge_sources, resolve, Error, LayerSource};
use configure_me::schema::{Optionality, ParamSpec, Schema, SwitchKind, SwitchSpec, Value, ValueType};
use configure_me::tokenize::{parse_value, Arg, ArgParseError, ValueError};
use configure_me::validate::ValidationError;

fn param(name: &str, ty: ValueType, optionality: Optionality) -> ParamSpec {
    ParamSpec { name: name.to_string(), ty, optionality, argument: true }
}

fn switch(name: &str, kind: SwitchKind) -> SwitchSpec {
    SwitchSpec { name: name.to_string(), kind }
}

fn args(tokens: &[&str]) -> Vec<Arg> {
    tokens.iter().map(|t| Arg::Text(t.to_string())).collect()
}

fn text_of(a: &Arg) -> &str {
    match a {
        Arg::Text(s) => s.as_str(),
        Arg::Raw(_) => panic!("not text"),
    }
}

fn int_of(v: &Option<Value>) -> i64 {
    match v {
        Some(Value::Integer(n)) => *n,
        other => panic!("not an integer: {:?}", other),
    }
}

fn count_verbose_schema() -> Schema {
    Schema {
        params: vec![param("count", ValueType::Integer, Optionality::Optional)],
        switches: vec![switch("verbose", SwitchKind::Normal)],
    }
}

#[test]
fn hyphenates_underscores() {
    assert_eq!(underscore_to_hypen("max_line_len"), "max-line-len");
    assert_eq!(underscore_to_hypen(""), "");
    assert_eq!(underscore_to_hypen("plain"), "plain");
}

#[test]
fn pascal_cases_identifiers() {
    assert_eq!(pascal_case("max_line_len"), "MaxLineLen");
    assert_eq!(pascal_case("foo"), "Foo");
    assert_eq!(pascal_case("_a__b9"), "AB9");
    assert_eq!(pascal_case(""), "");
}

#[test]
fn flag_names() {
    assert_eq!(param_flag_name("max_len"), "--max-len");
    assert_eq!(switch_flag_name(&switch("color", SwitchKind::Inverted)), "--no-color");
    assert_eq!(switch_flag_name(&switch("verbose", SwitchKind::Normal)), "--verbose");
}

#[test]
fn parses_values_by_type() {
    match parse_value(ValueType::Integer, &"-42".to_string()) {
        Ok(Value::Integer(n)) => assert_eq!(n, -42),
        other => panic!("{:?}", other),
    }
    assert!(matches!(parse_value(ValueType::Integer, &"x".to_string()), Err(ValueError::NotAnInteger)));
    assert!(matches!(
        parse_value(ValueType::Integer, &"9223372036854775808".to_string()),
        Err(ValueError::NotAnInteger)
    ));
    match parse_value(ValueType::Text, &"x".to_string()) {
        Ok(Value::Text(s)) => assert_eq!(s, "x"),
        other => panic!("{:?}", other),
    }
}

#[test]
fn tokenizes_flags_and_stops_at_positional() {
    let schema = count_verbose_schema();
    let layer = PartialLayer::empty(&schema);
    let m = layer
        .merge_args(&schema, args(&["prog", "--count", "3", "--verbose", "input.txt"]))
        .unwrap();
    assert_eq!(int_of(&m.layer.params[0]), 3);
    assert_eq!(m.layer.switches, vec![Some(true)]);
    assert_eq!(text_of(m.program.as_ref().unwrap()), "prog");
    assert_eq!(m.remainder.len(), 1);
    assert_eq!(text_of(&m.remainder[0]), "input.txt");
}

#[test]
fn double_dash_ends_flags_verbatim() {
    let schema = Schema {
        params: vec![param("count", ValueType::Integer, Optionality::Optional)],
        switches: vec![switch("color", SwitchKind::Inverted)],
    };
    let m = PartialLayer::empty(&schema)
        .merge_args(&schema, args(&["prog", "--no-color", "--", "--count", "x"]))
        .unwrap();
    assert!(m.layer.params[0].is_none());
    assert_eq!(m.layer.switches, vec![Some(false)]);
    let rest: Vec<&str> = m.remainder.iter().map(text_of).collect();
    assert_eq!(rest, vec!["--count", "x"]);
}

#[test]
fn unknown_flag_fails() {
    let schema = count_verbose_schema();
    let r = PartialLayer::empty(&schema).merge_args(&schema, args(&["prog", "--bogus"]));
    assert!(matches!(r, Err(ArgParseError::UnknownArgument)));
}

#[test]
fn flag_without_value_fails() {
    let schema = count_verbose_schema();
    let r = PartialLayer::empty(&schema).merge_args(&schema, args(&["prog", "--count"]));
    match r {
        Err(ArgParseError::MissingArgument(n)) => assert_eq!(n, "count"),
        other => panic!("{:?}", other),
    }
}

#[test]
fn bad_utf8_value_fails() {
    let schema = count_verbose_schema();
    let tokens = vec![Arg::Text("prog".to_string()), Arg::Text("--count".to_string()), Arg::Raw(vec![0xff, 0xfe])];
    match PartialLayer::empty(&schema).merge_args(&schema, tokens) {
        Err(ArgParseError::BadUtf8(n)) => assert_eq!(n, "count"),
        other => panic!("{:?}", other),
    }
}

#[test]
fn unparsable_value_fails() {
    let schema = count_verbose_schema();
    match PartialLayer::empty(&schema).merge_args(&schema, args(&["prog", "--count", "three"])) {
        Err(ArgParseError::FieldParse(n, ValueError::NotAnInteger)) => assert_eq!(n, "count"),
        other => panic!("{:?}", other),
    }
}

#[test]
fn raw_token_ends_flags_and_is_kept() {
    let schema = count_verbose_schema();
    let tokens = vec![Arg::Text("prog".to_string()), Arg::Raw(vec![0xff]), Arg::Text("--verbose".to_string())];
    let m = PartialLayer::empty(&schema).merge_args(&schema, tokens).unwrap();
    assert_eq!(m.layer.switches, vec![None]);
    assert_eq!(m.remainder.len(), 2);
    assert!(matches!(&m.remainder[0], Arg::Raw(b) if b == &vec![0xff]));
}

#[test]
fn empty_and_program_only_streams() {
    let schema = count_verbose_schema();
    let m = PartialLayer::empty(&schema).merge_args(&schema, Vec::new()).unwrap();
    assert!(m.program.is_none());
    assert!(m.remainder.is_empty());
    let m = PartialLayer::empty(&schema).merge_args(&schema, args(&["prog"])).unwrap();
    assert_eq!(text_of(m.program.as_ref().unwrap()), "prog");
    assert!(m.remainder.is_empty());
}

#[test]
fn argument_false_param_has_no_flag() {
    let mut p = param("secret", ValueType::Text, Optionality::Optional);
    p.argument = false;
    let schema = Schema { params: vec![p], switches: vec![] };
    let r = PartialLayer::empty(&schema).merge_args(&schema, args(&["prog", "--secret", "x"]));
    assert!(matches!(r, Err(ArgParseError::UnknownArgument)));
}

#[test]
fn empty_layer_names_first_mandatory_field() {
    let schema = Schema {
        params: vec![
            param("a", ValueType::Integer, Optionality::Optional),
            param("b", ValueType::Integer, Optionality::Mandatory),
            param("c", ValueType::Text, Optionality::Mandatory),
        ],
        switches: vec![],
    };
    match PartialLayer::empty(&schema).validate(&schema) {
        Err(ValidationError::MissingField(n)) => assert_eq!(n, "b"),
        other => panic!("{:?}", other),
    }
}

#[test]
fn validation_applies_optionality_and_switch_defaults() {
    let schema = Schema {
        params: vec![
            param("opt", ValueType::Integer, Optionality::Optional),
            param("def", ValueType::Integer, Optionality::DefaultValue(Value::Integer(7))),
            param("man", ValueType::Text, Optionality::Mandatory),
        ],
        switches: vec![switch("verbose", SwitchKind::Normal), switch("color", SwitchKind::Inverted)],
    };
    let mut layer = PartialLayer::empty(&schema);
    layer.overwrite_param(2, Value::Text("x".to_string()));
    let c = layer.validate(&schema).unwrap();
    assert!(c.params[0].is_none());
    assert_eq!(int_of(&c.params[1]), 7);
    assert!(matches!(&c.params[2], Some(Value::Text(s)) if s == "x"));
    assert_eq!(c.switches, vec![false, true]);
}

#[test]
fn set_values_override_defaults() {
    let schema = Schema {
        params: vec![param("def", ValueType::Integer, Optionality::DefaultValue(Value::Integer(7)))],
        switches: vec![switch("color", SwitchKind::Inverted)],
    };
    let mut layer = PartialLayer::empty(&schema);
    layer.overwrite_param(0, Value::Integer(1));
    layer.overwrite_switch(0, false);
    let c = layer.validate(&schema).unwrap();
    assert_eq!(int_of(&c.params[0]), 1);
    assert_eq!(c.switches, vec![false]);
}

fn int_layer(schema: &Schema, values: &[Option<i64>]) -> PartialLayer {
    let mut l = PartialLayer::empty(schema);
    for (i, v) in values.iter().enumerate() {
        if let Some(n) = v {
            l.overwrite_param(i, Value::Integer(*n));
        }
    }
    l
}

fn three_ints() -> Schema {
    Schema {
        params: vec![
            param("x", ValueType::Integer, Optionality::Optional),
            param("y", ValueType::Integer, Optionality::Optional),
            param("z", ValueType::Integer, Optionality::Optional),
        ],
        switches: vec![],
    }
}

#[test]
fn earlier_layers_win_whatever_the_grouping() {
    let schema = three_ints();
    let a = int_layer(&schema, &[Some(1), None, None]);
    let b = int_layer(&schema, &[Some(2), Some(20), None]);
    let c = int_layer(&schema, &[Some(3), Some(30), Some(300)]);
    let mut left = int_layer(&schema, &[Some(1), None, None]);
    left.set_if_absent(&b);
    left.set_if_absent(&c);
    let mut bc = int_layer(&schema, &[Some(2), Some(20), None]);
    bc.set_if_absent(&c);
    let mut right = a;
    right.set_if_absent(&bc);
    for l in [&left, &right] {
        assert_eq!(int_of(&l.params[0]), 1);
        assert_eq!(int_of(&l.params[1]), 20);
        assert_eq!(int_of(&l.params[2]), 300);
    }
}

#[test]
fn overwrite_beats_file_values() {
    let schema = three_ints();
    let mut l = int_layer(&schema, &[Some(1), None, None]);
    l.set_if_absent(&int_layer(&schema, &[Some(2), Some(2), None]));
    l.overwrite_param(0, Value::Integer(9));
    l.set_if_absent(&int_layer(&schema, &[Some(5), Some(5), Some(5)]));
    assert_eq!(int_of(&l.params[0]), 9);
    assert_eq!(int_of(&l.params[1]), 2);
    assert_eq!(int_of(&l.params[2]), 5);
}

#[test]
fn resolved_config_round_trips() {
    let schema = Schema {
        params: vec![
            param("opt", ValueType::Integer, Optionality::Optional),
            param("man", ValueType::Text, Optionality::Mandatory),
        ],
        switches: vec![switch("color", SwitchKind::Inverted)],
    };
    let mut layer = PartialLayer::empty(&schema);
    layer.overwrite_param(1, Value::Text("m".to_string()));
    layer.overwrite_switch(0, false);
    let c = layer.validate(&schema).unwrap();
    let again = c.to_layer().validate(&schema).unwrap();
    assert!(again.params[0].is_none());
    assert!(matches!(&again.params[1], Some(Value::Text(s)) if s == "m"));
    assert_eq!(again.switches, c.switches);
}

#[test]
fn sources_fold_in_priority_order() {
    let schema = three_ints();
    let sources = vec![
        LayerSource::Loaded(int_layer(&schema, &[Some(1), None, None])),
        LayerSource::Missing,
        LayerSource::Loaded(int_layer(&schema, &[Some(2), Some(2), None])),
    ];
    let l = merge_sources(&schema, &sources).unwrap();
    assert_eq!(int_of(&l.params[0]), 1);
    assert_eq!(int_of(&l.params[1]), 2);
    assert!(l.params[2].is_none());
}

#[test]
fn failing_source_aborts() {
    let schema = three_ints();
    let sources = vec![
        LayerSource::Missing,
        LayerSource::ReadFailed("denied".to_string()),
        LayerSource::ParseFailed("later".to_string()),
    ];
    match merge_sources(&schema, &sources) {
        Err(Error::SourceRead(m)) => assert_eq!(m, "denied"),
        other => panic!("{:?}", other),
    }
    let sources = vec![LayerSource::ParseFailed("bad".to_string())];
    match resolve(&schema, &sources, args(&["prog"])) {
        Err(Error::SourceParse(m)) => assert_eq!(m, "bad"),
        other => panic!("{:?}", other),
    }
}

#[test]
fn resolve_layers_files_then_command_line() {
    let schema = Schema {
        params: vec![
            param("count", ValueType::Integer, Optionality::Mandatory),
            param("depth", ValueType::Integer, Optionality::DefaultValue(Value::Integer(4))),
        ],
        switches: vec![switch("verbose", SwitchKind::Normal)],
    };
    let sources = vec![LayerSource::Loaded(int_layer(&schema, &[Some(1), None]))];
    let r = resolve(&schema, &sources, args(&["prog", "--count", "5", "rest"])).unwrap();
    assert_eq!(int_of(&r.config.params[0]), 5);
    assert_eq!(int_of(&r.config.params[1]), 4);
    assert_eq!(r.config.switches, vec![false]);
    assert_eq!(r.remainder.len(), 1);
    assert_eq!(text_of(&r.remainder[0]), "rest");

    match resolve(&schema, &vec![LayerSource::Missing], args(&["prog"])) {
        Err(Error::Validation(ValidationError::MissingField(n))) => assert_eq!(n, "count"),
        other => panic!("{:?}", other),
    }
    match resolve(&schema, &vec![], args(&["prog", "--nope"])) {
        Err(Error::Arguments(ArgParseError::UnknownArgument)) => {},
        other => panic!("{:?}", other),
    }
}
