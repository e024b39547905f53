use rust_sitter_tool::compile::{compile_record, decimal_text, generate_grammar, qualify, Grammar};
use rust_sitter_tool::table::RuleTable;
use rust_sitter_tool::json::generate_grammar_json;
use rust_sitter_tool::rule::Rule;
use rust_sitter_tool::schema::{
    Definition, DefinitionKind, Delimiter, FieldSpec, LeafMeta, Record, SchemaError, TypeExpr,
    Variant,
};

fn ty(name: &str) -> TypeExpr {
    TypeExpr::Path(vec![name.to_string()], None)
}

fn wrap(wrapper: &str, inner: TypeExpr) -> TypeExpr {
    TypeExpr::Path(vec![wrapper.to_string()], Some(Box::new(inner)))
}

fn pattern(p: &str) -> Option<LeafMeta> {
    Some(LeafMeta::Pattern(p.to_string()))
}

fn text(t: &str) -> Option<LeafMeta> {
    Some(LeafMeta::Literal(t.to_string()))
}

fn field(ident: Option<&str>, ty: TypeExpr, leaf: Option<LeafMeta>) -> FieldSpec {
    FieldSpec {
        ident: ident.map(|s| s.to_string()),
        ty,
        leaf,
        delimiter: None,
        non_empty: false,
    }
}

fn list_field(ident: &str, item: &str, delimiter: Option<&str>, non_empty: bool) -> FieldSpec {
    FieldSpec {
        ident: Some(ident.to_string()),
        ty: wrap("Vec", ty(item)),
        leaf: None,
        delimiter: delimiter.map(|d| Delimiter { leaf: text(d), ty: TypeExpr::Other }),
        non_empty,
    }
}

fn record(fields: Vec<FieldSpec>, prec_left: Option<u32>) -> Record {
    Record { fields, prec_left }
}

fn def_record(name: &str, fields: Vec<FieldSpec>, root: bool, extra: bool) -> Definition {
    Definition {
        name: name.to_string(),
        kind: DefinitionKind::Record(record(fields, None)),
        root,
        extra,
    }
}

fn def_union(name: &str, variants: Vec<(&str, Record)>, root: bool) -> Definition {
    Definition {
        name: name.to_string(),
        kind: DefinitionKind::TaggedUnion(
            variants
                .into_iter()
                .map(|(n, body)| Variant { name: n.to_string(), body })
                .collect(),
        ),
        root,
        extra: false,
    }
}

fn number_variant() -> (&'static str, Record) {
    ("Number", record(vec![field(None, ty("i32"), pattern(r"\d+"))], None))
}

fn whitespace() -> Definition {
    def_record(
        "Whitespace",
        vec![field(Some("_whitespace"), TypeExpr::Other, pattern(r"\s"))],
        false,
        true,
    )
}

fn sym(n: &str) -> Rule {
    Rule::Symbol(n.to_string())
}

fn fld(n: &str, r: Rule) -> Rule {
    Rule::Field(n.to_string(), Box::new(r))
}

fn seq(v: Vec<Rule>) -> Rule {
    Rule::Sequence(v)
}

fn choice(v: Vec<Rule>) -> Rule {
    Rule::Choice(v)
}

fn compile(defs: Vec<Definition>) -> Grammar {
    generate_grammar(&Some("test".to_string()), &defs).unwrap()
}

fn names(g: &Grammar) -> Vec<&str> {
    g.rules.entries.iter().map(|e| e.0.as_str()).collect()
}

fn rule<'a>(g: &'a Grammar, name: &str) -> &'a Rule {
    &g.rules.entries.iter().find(|e| e.0 == name).unwrap().1
}

fn numbers_item() -> Rule {
    fld("numbers", sym("Number"))
}

fn number_list(list: FieldSpec) -> Vec<Definition> {
    vec![
        def_record("NumberList", vec![list], true, false),
        def_record("Number", vec![field(Some("v"), ty("i32"), pattern(r"\d+"))], false, false),
        whitespace(),
    ]
}

#[test]
fn enum_transformed_fields() {
    let g = compile(vec![def_union("Expression", vec![number_variant()], true)]);
    assert_eq!(g.name, "test");
    assert_eq!(
        names(&g),
        vec!["source_file", "Expression_Number_0", "Expression_Number", "Expression"]
    );
    assert_eq!(*rule(&g, "Expression_Number_0"), Rule::Pattern(r"\d+".to_string()));
    assert_eq!(
        *rule(&g, "Expression_Number"),
        seq(vec![fld("0", sym("Expression_Number_0"))])
    );
    assert_eq!(*rule(&g, "Expression"), choice(vec![sym("Expression_Number")]));
    assert_eq!(*rule(&g, "source_file"), choice(vec![sym("Expression_Number")]));
    assert!(g.extras.is_empty());
}

#[test]
fn enum_recursive() {
    let neg = record(
        vec![
            field(None, TypeExpr::Other, text("-")),
            field(None, wrap("Box", ty("Expression")), None),
        ],
        None,
    );
    let g = compile(vec![def_union("Expression", vec![number_variant(), ("Neg", neg)], true)]);
    assert_eq!(
        names(&g),
        vec![
            "source_file",
            "Expression_Number_0",
            "Expression_Number",
            "Expression_Neg_0",
            "Expression_Neg",
            "Expression"
        ]
    );
    assert_eq!(*rule(&g, "Expression_Neg_0"), Rule::StringLiteral("-".to_string()));
    assert_eq!(
        *rule(&g, "Expression_Neg"),
        seq(vec![fld("0", sym("Expression_Neg_0")), fld("1", sym("Expression"))])
    );
    let union = choice(vec![sym("Expression_Number"), sym("Expression_Neg")]);
    assert_eq!(*rule(&g, "Expression"), union);
    assert_eq!(*rule(&g, "source_file"), union);
}

#[test]
fn enum_prec_left() {
    let sub = record(
        vec![
            field(None, wrap("Box", ty("Expression")), None),
            field(None, TypeExpr::Other, text("-")),
            field(None, wrap("Box", ty("Expression")), None),
        ],
        Some(1),
    );
    let g = compile(vec![def_union("Expression", vec![number_variant(), ("Sub", sub)], true)]);
    assert_eq!(*rule(&g, "Expression_Sub_1"), Rule::StringLiteral("-".to_string()));
    assert_eq!(
        *rule(&g, "Expression_Sub"),
        Rule::PrecLeft(
            1,
            Box::new(seq(vec![
                fld("0", sym("Expression")),
                fld("1", sym("Expression_Sub_1")),
                fld("2", sym("Expression")),
            ]))
        )
    );
    assert_eq!(
        *rule(&g, "Expression"),
        choice(vec![sym("Expression_Number"), sym("Expression_Sub")])
    );
}

#[test]
fn grammar_with_extras() {
    let g = compile(vec![def_union("Expression", vec![number_variant()], true), whitespace()]);
    assert_eq!(g.extras, vec!["Whitespace".to_string()]);
    assert_eq!(*rule(&g, "Whitespace__whitespace"), Rule::Pattern(r"\s".to_string()));
    assert_eq!(
        *rule(&g, "Whitespace"),
        seq(vec![fld("_whitespace", sym("Whitespace__whitespace"))])
    );
    assert_eq!(
        names(&g),
        vec![
            "source_file",
            "Expression_Number_0",
            "Expression_Number",
            "Expression",
            "Whitespace__whitespace",
            "Whitespace"
        ]
    );
}

#[test]
fn grammar_unboxed_field() {
    let g = compile(vec![
        def_record("Language", vec![field(Some("e"), ty("Expression"), None)], true, false),
        def_union("Expression", vec![number_variant()], false),
    ]);
    let language = seq(vec![fld("e", sym("Expression"))]);
    assert_eq!(*rule(&g, "Language"), language);
    assert_eq!(*rule(&g, "source_file"), language);
    assert_eq!(
        names(&g),
        vec!["source_file", "Language", "Expression_Number_0", "Expression_Number", "Expression"]
    );
}

#[test]
fn grammar_repeat() {
    let g = compile(number_list(list_field("numbers", "Number", Some(","), false)));
    assert_eq!(
        *rule(&g, "NumberList_numbers_delimiter"),
        Rule::StringLiteral(",".to_string())
    );
    let list = choice(vec![
        Rule::Blank,
        seq(vec![
            numbers_item(),
            Rule::Repeat(Box::new(seq(vec![sym("NumberList_numbers_delimiter"), numbers_item()]))),
        ]),
    ]);
    assert_eq!(*rule(&g, "NumberList"), seq(vec![list]));
    assert_eq!(*rule(&g, "Number"), seq(vec![fld("v", sym("Number_v"))]));
    assert_eq!(g.extras, vec!["Whitespace".to_string()]);
    assert_eq!(
        names(&g),
        vec![
            "source_file",
            "NumberList_numbers_delimiter",
            "NumberList",
            "Number_v",
            "Number",
            "Whitespace__whitespace",
            "Whitespace"
        ]
    );
}

#[test]
fn grammar_repeat1() {
    let g = compile(number_list(list_field("numbers", "Number", Some(","), true)));
    let list = seq(vec![
        numbers_item(),
        Rule::Repeat(Box::new(seq(vec![sym("NumberList_numbers_delimiter"), numbers_item()]))),
    ]);
    assert_eq!(*rule(&g, "NumberList"), seq(vec![list]));
    assert_eq!(*rule(&g, "source_file"), *rule(&g, "NumberList"));
}

#[test]
fn struct_optional() {
    let g = compile(vec![
        def_record(
            "Language",
            vec![
                field(Some("v"), wrap("Option", ty("i32")), pattern(r"\d+")),
                field(Some("t"), wrap("Option", ty("Number")), None),
            ],
            true,
            false,
        ),
        def_record("Number", vec![field(Some("v"), ty("i32"), pattern(r"\d+"))], false, false),
    ]);
    assert_eq!(*rule(&g, "Language_v"), Rule::Pattern(r"\d+".to_string()));
    assert_eq!(
        *rule(&g, "Language"),
        seq(vec![
            choice(vec![Rule::Blank, fld("v", sym("Language_v"))]),
            choice(vec![Rule::Blank, fld("t", sym("Number"))]),
        ])
    );
    assert_eq!(
        names(&g),
        vec!["source_file", "Language_v", "Language", "Number_v", "Number"]
    );
}

#[test]
fn scenario_number_pattern_json() {
    let defs = vec![def_record("Number", vec![field(Some("v"), ty("i32"), pattern(r"\d+"))], true, false)];
    let json = generate_grammar_json(&Some("test".to_string()), &defs).unwrap();
    let number = r#"{"type":"SEQ","members":[{"type":"FIELD","name":"v","content":{"type":"SYMBOL","name":"Number_v"}}]}"#;
    let expected = format!(
        r#"{{"name":"test","rules":{{"source_file":{},"Number_v":{{"type":"PATTERN","value":"\\d+"}},"Number":{}}},"extras":[]}}"#,
        number, number
    );
    assert_eq!(json, expected);
}

#[test]
fn json_quotes_and_escapes_text() {
    let defs = vec![def_record("Q", vec![field(Some("q"), TypeExpr::Other, text("\"\n"))], true, true)];
    let json = generate_grammar_json(&Some("a\"b".to_string()), &defs).unwrap();
    assert!(json.starts_with(r#"{"name":"a\"b","rules":{"source_file":"#));
    assert!(json.contains(r#""Q_q":{"type":"STRING","value":"\"\n"}"#));
    assert!(json.ends_with(r#""extras":[{"type":"SYMBOL","name":"Q"}]}"#));
}

#[test]
fn json_prec_left_value() {
    let defs = vec![Definition {
        name: "E".to_string(),
        kind: DefinitionKind::Record(record(vec![field(Some("x"), ty("E"), None)], Some(12))),
        root: true,
        extra: false,
    }];
    let json = generate_grammar_json(&Some("g".to_string()), &defs).unwrap();
    assert!(json.contains(
        r#""E":{"type":"PREC_LEFT","value":12,"content":{"type":"SEQ","members":[{"type":"FIELD","name":"x","content":{"type":"SYMBOL","name":"E"}}]}}"#
    ));
}

#[test]
fn compile_is_deterministic() {
    let a = generate_grammar_json(&Some("test".to_string()), &number_list(list_field("numbers", "Number", Some(","), false)));
    let b = generate_grammar_json(&Some("test".to_string()), &number_list(list_field("numbers", "Number", Some(","), false)));
    assert_eq!(a, b);
    assert!(a.is_ok());
}

#[test]
fn source_file_is_first_and_copies_root() {
    let g = compile(vec![
        def_record("Number", vec![field(Some("v"), ty("i32"), pattern(r"\d+"))], false, false),
        def_record("Language", vec![field(Some("n"), ty("Number"), None)], true, false),
    ]);
    assert_eq!(names(&g)[0], "source_file");
    assert_eq!(*rule(&g, "source_file"), *rule(&g, "Language"));
}

#[test]
fn colliding_names_are_registered_once() {
    let g = compile(vec![
        def_record("A", vec![field(Some("b"), TypeExpr::Other, pattern("x"))], true, false),
        def_record("A_b", vec![field(Some("c"), TypeExpr::Other, pattern("y"))], false, false),
    ]);
    assert_eq!(names(&g), vec!["source_file", "A_b", "A", "A_b_c"]);
    assert_eq!(*rule(&g, "A_b"), seq(vec![fld("c", sym("A_b_c"))]));
}

#[test]
fn extras_follow_declaration_order() {
    let g = compile(vec![
        def_record("S", vec![field(Some("x"), TypeExpr::Other, text("s"))], false, true),
        def_record("R", vec![field(Some("x"), TypeExpr::Other, text("r"))], true, false),
        def_record("C", vec![field(Some("x"), TypeExpr::Other, text("c"))], false, true),
    ]);
    assert_eq!(g.extras, vec!["S".to_string(), "C".to_string()]);
}

#[test]
fn list_without_delimiter_repeats() {
    let g = compile(number_list(list_field("numbers", "Number", None, false)));
    assert_eq!(*rule(&g, "NumberList"), seq(vec![Rule::Repeat(Box::new(numbers_item()))]));
    let g1 = compile(number_list(list_field("numbers", "Number", None, true)));
    assert_eq!(*rule(&g1, "NumberList"), seq(vec![Rule::Repeat1(Box::new(numbers_item()))]));
}

#[test]
fn nested_boxes_are_transparent() {
    let g = compile(vec![def_record(
        "L",
        vec![
            field(Some("a"), wrap("Box", wrap("Box", ty("L"))), None),
            field(Some("b"), wrap("Option", wrap("Box", ty("L"))), None),
        ],
        true,
        false,
    )]);
    assert_eq!(
        *rule(&g, "L"),
        seq(vec![fld("a", sym("L")), choice(vec![Rule::Blank, fld("b", sym("L"))])])
    );
}

#[test]
fn positional_identity_is_decimal() {
    let fields: Vec<FieldSpec> = (0..11).map(|_| field(None, ty("T"), None)).collect();
    let g = compile(vec![def_record("T", fields, true, false)]);
    if let Rule::Sequence(members) = rule(&g, "T") {
        assert_eq!(members[10], fld("10", sym("T")));
    } else {
        panic!("expected a sequence");
    }
    assert_eq!(decimal_text(0), "0");
    assert_eq!(decimal_text(1234), "1234");
    assert_eq!(qualify(&"a".to_string(), &"b".to_string()), "a_b");
}

#[test]
fn missing_grammar_name_fails() {
    let defs = vec![def_record("A", vec![], true, false)];
    assert_eq!(generate_grammar(&None, &defs).err(), Some(SchemaError::MissingGrammarName));
}

#[test]
fn missing_root_fails() {
    let defs = vec![def_record("A", vec![], false, false)];
    assert_eq!(
        generate_grammar(&Some("g".to_string()), &defs).err(),
        Some(SchemaError::MissingRoot)
    );
}

#[test]
fn multiple_roots_fail() {
    let defs = vec![def_record("A", vec![], true, false), def_record("B", vec![], true, false)];
    assert_eq!(
        generate_grammar(&Some("g".to_string()), &defs).err(),
        Some(SchemaError::MultipleRoots)
    );
}

#[test]
fn optional_list_fails() {
    let defs = vec![def_record(
        "A",
        vec![field(Some("x"), wrap("Option", wrap("Vec", ty("B"))), None)],
        true,
        false,
    )];
    assert_eq!(
        generate_grammar(&Some("g".to_string()), &defs).err(),
        Some(SchemaError::OptionalList)
    );
}

#[test]
fn unsupported_types_fail() {
    let qualified = TypeExpr::Path(vec!["std".to_string(), "string".to_string(), "String".to_string()], None);
    for t in [qualified, TypeExpr::Other, ty("Box"), wrap("Vec", TypeExpr::Other)] {
        let defs = vec![def_record("A", vec![field(Some("x"), t, None)], true, false)];
        assert_eq!(
            generate_grammar(&Some("g".to_string()), &defs).err(),
            Some(SchemaError::UnsupportedType)
        );
    }
}

#[test]
fn optional_list_with_leaf_fails() {
    for leaf in [pattern(r"\d+"), text(",")] {
        let defs = vec![def_record(
            "A",
            vec![field(Some("x"), wrap("Option", wrap("Vec", ty("B"))), leaf)],
            true,
            false,
        )];
        assert_eq!(
            generate_grammar(&Some("g".to_string()), &defs).err(),
            Some(SchemaError::OptionalList)
        );
    }
}

fn table_names(t: &RuleTable) -> Vec<&str> {
    t.entries.iter().map(|e| e.0.as_str()).collect()
}

#[test]
fn optional_record_registers_one_rule() {
    let mut table = RuleTable::new();
    table.insert("source_file".to_string(), Rule::Blank);
    let rec = record(vec![field(Some("t"), wrap("Option", ty("Number")), None)], None);
    assert!(compile_record(&"Language".to_string(), &rec, &mut table).is_ok());
    assert_eq!(table_names(&table), vec!["source_file", "Language"]);
    assert_eq!(table.entries[0].1, Rule::Blank);
    assert_eq!(
        table.entries[1].1,
        seq(vec![choice(vec![Rule::Blank, fld("t", sym("Number"))])])
    );
}

#[test]
fn prec_left_wraps_the_plain_sequence() {
    let fields = || {
        vec![
            field(None, wrap("Box", ty("E")), None),
            field(None, TypeExpr::Other, text("-")),
            field(None, wrap("Box", ty("E")), None),
        ]
    };
    let mut plain = RuleTable::new();
    compile_record(&"E_Sub".to_string(), &record(fields(), None), &mut plain).unwrap();
    let mut wrapped = RuleTable::new();
    compile_record(&"E_Sub".to_string(), &record(fields(), Some(3)), &mut wrapped).unwrap();
    assert_eq!(table_names(&plain), table_names(&wrapped));
    for (p, w) in plain.entries.iter().zip(wrapped.entries.iter()) {
        if p.0 == "E_Sub" {
            assert_eq!(w.1, Rule::PrecLeft(3, Box::new(seq(vec![
                fld("0", sym("E")),
                fld("1", sym("E_Sub_1")),
                fld("2", sym("E")),
            ]))));
            assert_eq!(Rule::PrecLeft(3, Box::new(p.1.copy())), w.1);
        } else {
            assert_eq!(p.1, w.1);
        }
    }
}

#[test]
fn json_escapes_control_characters() {
    let defs = vec![def_record("Q", vec![field(Some("q"), TypeExpr::Other, text("a\u{1}\t\\/\u{1f}é"))], true, false)];
    let json = generate_grammar_json(&Some("g".to_string()), &defs).unwrap();
    assert!(json.contains(r#""Q_q":{"type":"STRING","value":"a\u0001\t\\/\u001fé"}"#));
}
