use indexmap::IndexMap;
use tree_sitter_struct::{
    can_generate, generate, is_option, pluralize, without_leading_underscore, Choice, CodeToken,
    Delimiter, Error, Field, NameOverrideStep, NameOverrideStepChoiceMember,
    NameOverrideStepRuleName, NameOverrideStepSeqMember, Pattern, Prec, Repeat, Root, Rule,
    Sequence, StringHashMap, String_, Symbol, get_enum_variant_and_struct_or_enum,
    get_struct_or_enum, try_generate,
};

fn symbol(name: &str) -> Rule {
    Rule::Symbol(Symbol { name: name.to_string() })
}

fn string(value: &str) -> Rule {
    Rule::String(String_ { value: value.to_string() })
}

fn seq(members: Vec<Rule>) -> Rule {
    Rule::Sequence(Sequence { members })
}

fn choice(members: Vec<Rule>) -> Rule {
    Rule::Choice(Choice { members })
}

fn repeat(content: Rule) -> Rule {
    Rule::Repeat(Repeat { content: Box::new(content) })
}

fn field(name: &str, content: Rule) -> Rule {
    Rule::Field(Field { name: name.to_string(), content: Box::new(content) })
}

fn prec(content: Rule) -> Rule {
    Rule::Prec(Prec { value: 1, content: Box::new(content) })
}

fn root(rules: Vec<(&str, Rule)>) -> Root {
    let mut map = IndexMap::new();
    for (name, rule) in rules {
        map.insert(name.to_string(), rule);
    }
    Root { rules: map }
}

fn literals(pairs: &[(&str, &str)]) -> StringHashMap<String> {
    let mut map = StringHashMap::new();
    for (literal, name) in pairs {
        map.insert(literal.to_string(), name.to_string());
    }
    map
}

fn text(tokens: &[CodeToken]) -> String {
    tokens
        .iter()
        .map(|t| match t {
            CodeToken::Ident(s) => s.clone(),
            CodeToken::Punct(c) => c.to_string(),
            CodeToken::Open(Delimiter::Brace) => "{".to_string(),
            CodeToken::Close(Delimiter::Brace) => "}".to_string(),
            CodeToken::Open(Delimiter::Parenthesis) => "(".to_string(),
            CodeToken::Close(Delimiter::Parenthesis) => ")".to_string(),
        })
        .collect::<Vec<_>>()
        .join(" ")
}

fn rule_name_override(rule_name: &str, steps: Vec<NameOverrideStep>) -> NameOverrideStep {
    NameOverrideStep::from(NameOverrideStepRuleName { rule_name: rule_name.to_string(), steps })
}

fn seq_member_override(index: usize, steps: Vec<NameOverrideStep>) -> NameOverrideStep {
    NameOverrideStep::from(NameOverrideStepSeqMember { index, steps })
}

fn sample_grammar() -> Root {
    root(vec![
        (
            "source_file",
            seq(vec![
                symbol("_expression"),
                repeat(symbol("item")),
                choice(vec![symbol("trailing_comment"), Rule::Blank]),
                string(";"),
                field(
                    "operator",
                    choice(vec![
                        symbol("plus"),
                        prec(symbol("minus")),
                        seq(vec![symbol("_unary"), string("!")]),
                    ]),
                ),
            ]),
        ),
        ("_statement", choice(vec![symbol("expression_statement"), symbol("return_statement")])),
        ("semicolon_rule", string(";")),
    ])
}

#[test]
fn without_leading_underscore_strips_one_underscore() {
    assert_eq!(without_leading_underscore("_expression"), "expression");
    assert_eq!(without_leading_underscore("__x"), "_x");
    assert_eq!(without_leading_underscore("plain"), "plain");
    assert_eq!(without_leading_underscore(""), "");
    assert_eq!(without_leading_underscore("_"), "");
}

#[test]
fn without_leading_underscore_undoes_adding_one() {
    for name in ["expression", "_x", "", "a_b"] {
        assert_eq!(without_leading_underscore(&format!("_{name}")), name);
    }
}

#[test]
fn pluralize_appends_s() {
    assert_eq!(pluralize("item"), "items");
    assert_eq!(pluralize(""), "s");
}

#[test]
fn is_option_recognises_choice_with_blank() {
    assert!(is_option(&Choice { members: vec![symbol("a"), Rule::Blank] }));
    assert!(!is_option(&Choice { members: vec![Rule::Blank, symbol("a")] }));
    assert!(!is_option(&Choice { members: vec![Rule::Blank, Rule::Blank] }));
    assert!(!is_option(&Choice { members: vec![symbol("a"), symbol("b")] }));
    assert!(!is_option(&Choice { members: vec![symbol("a"), Rule::Blank, Rule::Blank] }));
    assert!(!is_option(&Choice { members: vec![] }));
}

#[test]
fn rule_is_blank_and_as_field() {
    assert!(Rule::Blank.is_blank());
    assert!(!symbol("a").is_blank());
    let f = field("name", symbol("a"));
    assert_eq!(f.as_field().name, "name");
    assert!(matches!(&*f.as_field().content, Rule::Symbol(s) if s.name == "a"));
}

#[test]
fn rule_name_step_round_trip() {
    let step = rule_name_override("expr", vec![]);
    let back = step.as_rule_name();
    assert_eq!(back.rule_name, "expr");
    assert!(back.steps.is_empty());
}

#[test]
fn as_override_gives_the_name() {
    let step = NameOverrideStep::Override("kind".to_string());
    assert_eq!(step.as_override(), "kind");
}

#[test]
fn choice_member_step_from() {
    let step = NameOverrideStep::from(NameOverrideStepChoiceMember { index: 3, steps: vec![] });
    assert!(matches!(step, NameOverrideStep::ChoiceMember(m) if m.index == 3));
}

#[test]
fn error_message_names_grammar_json() {
    let err = Error::GrammarJson("missing field `rules`".to_string());
    assert_eq!(err.message(), "grammar.json: missing field `rules`");
}

#[test]
fn generate_sample_grammar() {
    let grammar = sample_grammar();
    let lits = literals(&[(";", "semicolon"), ("!", "bang")]);
    assert!(can_generate(&grammar, &lits, &[]));
    let code = generate(&grammar, "rust", &lits, &[]);
    assert_eq!(
        text(&code),
        "pub struct SourceFile { \
         pub expression : Expression , \
         pub items : Vec < Item > , \
         pub trailing_comment : Option < TrailingComment > , \
         pub semicolon : Semicolon , \
         pub operator : SourceFileOperator } \
         pub enum SourceFileOperator { Plus ( Plus ) , Minus ( Minus ) , Unary ( SourceFileOperatorUnary ) } \
         pub struct SourceFileOperatorUnary { pub unary : Unary , pub bang : Bang } \
         pub enum Statement { ExpressionStatement ( ExpressionStatement ) , ReturnStatement ( ReturnStatement ) } \
         pub struct SemicolonRule { pub semicolon : Semicolon }"
    );
}

#[test]
fn generate_converts_names_to_pascal_case() {
    let grammar = root(vec![("if_statement", seq(vec![symbol("condition_expr")]))]);
    let code = generate(&grammar, "rust", &literals(&[]), &[]);
    assert_eq!(text(&code), "pub struct IfStatement { pub condition_expr : ConditionExpr }");
}

#[test]
fn generate_empty_grammar_is_empty() {
    let grammar = root(vec![]);
    assert!(can_generate(&grammar, &literals(&[]), &[]));
    assert!(generate(&grammar, "rust", &literals(&[]), &[]).is_empty());
}

#[test]
fn generate_uses_override_for_seq_member_choice() {
    let grammar = root(vec![(
        "binary",
        seq(vec![symbol("left"), choice(vec![symbol("plus"), symbol("minus")]), symbol("right")]),
    )]);
    let overrides = vec![rule_name_override(
        "binary",
        vec![seq_member_override(1, vec![NameOverrideStep::Override("operator".to_string())])],
    )];
    assert!(can_generate(&grammar, &literals(&[]), &overrides));
    let code = generate(&grammar, "rust", &literals(&[]), &overrides);
    assert_eq!(
        text(&code),
        "pub struct Binary { pub left : Left , pub operator : BinaryOperator , pub right : Right } \
         pub enum BinaryOperator { Plus ( Plus ) , Minus ( Minus ) }"
    );
}

#[test]
fn overrides_of_other_rules_are_ignored() {
    let grammar = root(vec![("unit", seq(vec![symbol("a")]))]);
    let overrides = vec![rule_name_override(
        "other",
        vec![seq_member_override(0, vec![NameOverrideStep::Override("x".to_string())])],
    )];
    let with = generate(&grammar, "rust", &literals(&[]), &overrides);
    let without = generate(&grammar, "rust", &literals(&[]), &[]);
    assert_eq!(with, without);
}

#[test]
fn choice_in_seq_without_override_is_refused() {
    let grammar = root(vec![(
        "binary",
        seq(vec![symbol("left"), choice(vec![symbol("plus"), symbol("minus")])]),
    )]);
    assert!(!can_generate(&grammar, &literals(&[]), &[]));
}

#[test]
fn override_step_that_is_not_rule_name_is_refused() {
    let grammar = root(vec![]);
    let overrides = vec![NameOverrideStep::Override("x".to_string())];
    assert!(!can_generate(&grammar, &literals(&[]), &overrides));
}

#[test]
fn unsupported_rule_kind_is_refused() {
    let grammar = root(vec![("number", Rule::Pattern(Pattern { value: "\\d+".to_string() }))]);
    assert!(!can_generate(&grammar, &literals(&[]), &[]));
}

#[test]
fn missing_string_literal_is_refused() {
    let grammar = root(vec![("semi", string(";"))]);
    assert!(!can_generate(&grammar, &literals(&[]), &[]));
    assert!(can_generate(&grammar, &literals(&[(";", "semicolon")]), &[]));
}

#[test]
fn seq_without_symbol_as_variant_is_refused() {
    let grammar = root(vec![("op", choice(vec![seq(vec![string("+")])]))]);
    assert!(!can_generate(&grammar, &literals(&[("+", "plus")]), &[]));
}

#[test]
fn generated_code_is_balanced() {
    let grammar = sample_grammar();
    let lits = literals(&[(";", "semicolon"), ("!", "bang")]);
    let code = generate(&grammar, "rust", &lits, &[]);
    let mut open: Vec<Delimiter> = Vec::new();
    for t in &code {
        match t {
            CodeToken::Open(d) => open.push(*d),
            CodeToken::Close(d) => assert_eq!(open.pop(), Some(*d)),
            _ => {}
        }
    }
    assert!(open.is_empty());
}

#[test]
fn nested_names_start_with_parent_name() {
    let grammar = root(vec![("expr", seq(vec![field("kind", choice(vec![seq(vec![symbol("lit")])]))]))]);
    let code = generate(&grammar, "rust", &literals(&[]), &[]);
    assert_eq!(
        text(&code),
        "pub struct Expr { pub kind : ExprKind } pub enum ExprKind { Lit ( ExprKindLit ) } \
         pub struct ExprKindLit { pub lit : Lit }"
    );
}

#[test]
fn one_field_per_member() {
    let grammar = root(vec![("triple", seq(vec![symbol("a"), symbol("b"), symbol("c")]))]);
    let code = generate(&grammar, "rust", &literals(&[]), &[]);
    let colons = code.iter().filter(|t| **t == CodeToken::Punct(':')).count();
    assert_eq!(colons, 3);
}

#[test]
fn try_generate_matches_generate() {
    let grammar = sample_grammar();
    let lits = literals(&[(";", "semicolon"), ("!", "bang")]);
    let expected = generate(&grammar, "rust", &lits, &[]);
    assert_eq!(try_generate(&grammar, "rust", &lits, &[]), Some(expected));
    assert_eq!(try_generate(&grammar, "rust", &literals(&[]), &[]), None);
}

#[test]
fn seq_variant_with_empty_name_is_refused() {
    let grammar = root(vec![("op", choice(vec![seq(vec![symbol("_")])]))]);
    assert!(!can_generate(&grammar, &literals(&[]), &[]));
    assert_eq!(try_generate(&grammar, "rust", &literals(&[]), &[]), None);
}

#[test]
fn later_seq_member_steps_are_ignored() {
    let grammar = root(vec![(
        "binary",
        seq(vec![symbol("left"), choice(vec![symbol("plus"), symbol("minus")])]),
    )]);
    let first = vec![rule_name_override(
        "binary",
        vec![seq_member_override(1, vec![NameOverrideStep::Override("operator".to_string())])],
    )];
    let more = vec![rule_name_override(
        "binary",
        vec![
            seq_member_override(1, vec![NameOverrideStep::Override("operator".to_string())]),
            seq_member_override(1, vec![NameOverrideStep::Override("other".to_string())]),
            seq_member_override(7, vec![NameOverrideStep::Override("far".to_string())]),
        ],
    )];
    assert_eq!(
        generate(&grammar, "rust", &literals(&[]), &first),
        generate(&grammar, "rust", &literals(&[]), &more)
    );
}

#[test]
fn field_ignores_given_steps() {
    let grammar = root(vec![("kind", field("variant", choice(vec![symbol("a"), symbol("b")])))]);
    let with_steps = vec![rule_name_override(
        "kind",
        vec![seq_member_override(0, vec![NameOverrideStep::Override("x".to_string())])],
    )];
    let code = generate(&grammar, "rust", &literals(&[]), &with_steps);
    assert_eq!(code, generate(&grammar, "rust", &literals(&[]), &[]));
    assert_eq!(text(&code), "pub enum Variant { A ( A ) , B ( B ) }");
}

#[test]
fn prec_is_transparent_in_enum() {
    let plain = root(vec![("e", choice(vec![symbol("x")]))]);
    let wrapped = root(vec![("e", choice(vec![prec(prec(symbol("x")))]))]);
    assert_eq!(
        generate(&plain, "rust", &literals(&[]), &[]),
        generate(&wrapped, "rust", &literals(&[]), &[])
    );
}

#[test]
fn empty_field_name_is_refused() {
    let grammar = root(vec![("unit", seq(vec![symbol("_")]))]);
    assert!(!can_generate(&grammar, &literals(&[]), &[]));
    assert_eq!(try_generate(&grammar, "rust", &literals(&[]), &[]), None);
}

#[test]
fn digit_only_field_name_is_refused() {
    let grammar = root(vec![("unit", seq(vec![symbol("_12")]))]);
    assert!(!can_generate(&grammar, &literals(&[]), &[]));
    let grammar = root(vec![("unit", seq(vec![symbol("_1a")]))]);
    assert!(can_generate(&grammar, &literals(&[]), &[]));
}

#[test]
fn field_rule_ignores_given_name() {
    let rule = field("kind", choice(vec![symbol("a")]));
    let content = choice(vec![symbol("a")]);
    let lits = literals(&[]);
    let other = NameOverrideStep::Override("ignored".to_string());
    let steps = vec![&other];
    let (code, name) = get_struct_or_enum(&rule, Some("given".to_string()), Some("P"), &lits, &steps);
    let (expected_code, expected_name) =
        get_struct_or_enum(&content, Some("kind".to_string()), Some("P"), &lits, &[]);
    assert_eq!(code, expected_code);
    assert_eq!(name, expected_name);
    assert_eq!(name, "PKind");
}

#[test]
fn prec_variant_is_its_content() {
    let lits = literals(&[]);
    let wrapped = prec(symbol("_item"));
    assert_eq!(
        get_enum_variant_and_struct_or_enum(&wrapped, "Parent", &lits),
        get_enum_variant_and_struct_or_enum(&symbol("_item"), "Parent", &lits)
    );
    let (variant, definition) = get_enum_variant_and_struct_or_enum(&wrapped, "Parent", &lits);
    assert_eq!(text(&variant), "Item ( Item )");
    assert!(definition.is_empty());
}
