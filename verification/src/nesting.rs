//! Generated code is well nested: every group it opens, it closes with the
//! same kind of bracket.
use crate::definitions::{
    firsts, kw_enum, kw_option, kw_pub, kw_struct, kw_vec, seconds, spec_enum_variant,
    spec_enum_variants, spec_field_type, spec_generate, spec_generate_rules, spec_generic,
    spec_is_option, spec_print_enum, spec_print_struct, spec_print_struct_field,
    spec_struct_field, spec_struct_fields, spec_struct_or_enum, spec_tuple_variant, spec_type,
};
use crate::grammar_json::{rule_entries, Root, Rule};
use crate::names::{pascal_case, spec_struct_field_name, spec_without_leading_underscore};
use crate::overrides::{spec_rule_steps, spec_seq_member_steps, NameOverrideStep};
use crate::tokens::{
    balanced, bracket_free, comma_separated, concat_parts, lemma_balanced_add,
    lemma_balanced_group, lemma_bracket_free_balanced, lemma_comma_separated_balanced,
    lemma_concat_parts_balanced, Delimiter, TokenModel,
};
use vstd::prelude::*;

verus! {

proof fn lemma_keywords_balanced(s: Seq<TokenModel>)
    requires
        forall|i: int| 0 <= i < s.len() ==> (#[trigger] s[i]) is Ident || s[i] is Punct,
    ensures
        balanced(s),
{
    assert(bracket_free(s));
    lemma_bracket_free_balanced(s);
}

proof fn lemma_item_balanced(keyword: Seq<char>, name: Seq<char>, items: Seq<Seq<TokenModel>>)
    requires
        forall|i: int| 0 <= i < items.len() ==> balanced(#[trigger] items[i]),
    ensures
        balanced(
            seq![
                TokenModel::Ident(kw_pub()),
                TokenModel::Ident(keyword),
                TokenModel::Ident(name),
                TokenModel::Open(Delimiter::Brace),
            ] + comma_separated(items) + seq![TokenModel::Close(Delimiter::Brace)],
        ),
{
    let head = seq![TokenModel::Ident(kw_pub()), TokenModel::Ident(keyword), TokenModel::Ident(name)];
    lemma_keywords_balanced(head);
    lemma_comma_separated_balanced(items);
    lemma_balanced_group(Delimiter::Brace, comma_separated(items));
    let group = seq![TokenModel::Open(Delimiter::Brace)] + comma_separated(items) + seq![
        TokenModel::Close(Delimiter::Brace),
    ];
    lemma_balanced_add(head, group);
    assert(head + group =~= seq![
        TokenModel::Ident(kw_pub()),
        TokenModel::Ident(keyword),
        TokenModel::Ident(name),
        TokenModel::Open(Delimiter::Brace),
    ] + comma_separated(items) + seq![TokenModel::Close(Delimiter::Brace)]);
}

proof fn lemma_struct_field_tokens_balanced(name: Seq<char>, ty: Seq<TokenModel>)
    requires
        balanced(ty),
    ensures
        balanced(spec_print_struct_field(name, ty)),
{
    let head = seq![TokenModel::Ident(kw_pub()), TokenModel::Ident(name), TokenModel::Punct(':')];
    lemma_keywords_balanced(head);
    lemma_balanced_add(head, ty);
}

proof fn lemma_generic_balanced(wrapper: Seq<char>, inner: Seq<TokenModel>)
    requires
        balanced(inner),
    ensures
        balanced(spec_generic(wrapper, inner)),
{
    let head = seq![TokenModel::Ident(wrapper), TokenModel::Punct('<')];
    let tail = seq![TokenModel::Punct('>')];
    lemma_keywords_balanced(head);
    lemma_keywords_balanced(tail);
    lemma_balanced_add(head, inner);
    lemma_balanced_add(head + inner, tail);
}

proof fn lemma_tuple_variant_balanced(variant: Seq<char>, payload: Seq<char>)
    ensures
        balanced(spec_tuple_variant(variant, payload)),
{
    let head = seq![TokenModel::Ident(variant)];
    let inner = seq![TokenModel::Ident(payload)];
    lemma_keywords_balanced(head);
    lemma_keywords_balanced(inner);
    lemma_balanced_group(Delimiter::Parenthesis, inner);
    let group = seq![TokenModel::Open(Delimiter::Parenthesis)] + inner + seq![
        TokenModel::Close(Delimiter::Parenthesis),
    ];
    lemma_balanced_add(head, group);
    assert(head + group =~= spec_tuple_variant(variant, payload));
}

proof fn lemma_type_balanced(rule: Rule)
    ensures
        spec_type(rule) matches Some(ty) ==> balanced(ty),
{
    if let Some(ty) = spec_type(rule) {
        lemma_keywords_balanced(ty);
    }
}

proof fn lemma_pairs_balanced(pairs: Seq<(Seq<TokenModel>, Seq<TokenModel>)>)
    requires
        forall|i: int|
            0 <= i < pairs.len() ==> balanced((#[trigger] pairs[i]).0) && balanced(pairs[i].1),
    ensures
        forall|i: int| 0 <= i < pairs.len() ==> balanced(#[trigger] firsts(pairs)[i]),
        forall|i: int| 0 <= i < pairs.len() ==> balanced(#[trigger] seconds(pairs)[i]),
        balanced(concat_parts(seconds(pairs))),
{
    assert forall|i: int| 0 <= i < pairs.len() implies balanced(#[trigger] firsts(pairs)[i]) by {
        assert(balanced(pairs[i].0));
    }
    assert forall|i: int| 0 <= i < pairs.len() implies balanced(#[trigger] seconds(pairs)[i]) by {
        assert(balanced(pairs[i].1));
    }
    assert forall|i: int| 0 <= i < seconds(pairs).len() implies balanced(#[trigger] seconds(pairs)[i]) by {
        assert(balanced(pairs[i].1));
    }
    lemma_concat_parts_balanced(seconds(pairs));
}

proof fn lemma_struct_or_enum_balanced(
    rule: Rule,
    rule_name: Option<Seq<char>>,
    prefix: Seq<char>,
    string_literals: Map<Seq<char>, String>,
    overrides: Seq<NameOverrideStep>,
)
    ensures
        spec_struct_or_enum(rule, rule_name, prefix, string_literals, overrides) matches Some(
            (code, _),
        ) ==> balanced(code),
    decreases rule, 1int,
{
    if let Some((code, _)) = spec_struct_or_enum(rule, rule_name, prefix, string_literals, overrides) {
        let name = match rule_name {
            Some(n) => n,
            None => pascal_case(spec_struct_field_name(rule).unwrap()),
        };
        match rule {
            Rule::Sequence(s) => {
                let struct_name = prefix + pascal_case(name);
                let n = s.members@.len() as int;
                lemma_struct_fields_balanced(s.members@, n, struct_name, string_literals, overrides);
                let fields = spec_struct_fields(s.members@, n, struct_name, string_literals, overrides).unwrap();
                lemma_pairs_balanced(fields);
                lemma_item_balanced(kw_struct(), struct_name, firsts(fields));
                lemma_balanced_add(spec_print_struct(struct_name, firsts(fields)), concat_parts(seconds(fields)));
            },
            Rule::String(st) => {
                let struct_name = prefix + pascal_case(name);
                let field = string_literals[st.value@]@;
                let ty = seq![TokenModel::Ident(pascal_case(field))];
                lemma_keywords_balanced(ty);
                lemma_struct_field_tokens_balanced(field, ty);
                let items = seq![spec_print_struct_field(field, ty)];
                assert forall|i: int| 0 <= i < items.len() implies balanced(#[trigger] items[i]) by {}
                lemma_item_balanced(kw_struct(), struct_name, items);
            },
            Rule::Choice(c) => {
                let enum_name = prefix + pascal_case(name);
                let n = c.members@.len() as int;
                lemma_enum_variants_balanced(c.members@, n, enum_name, string_literals);
                let variants = spec_enum_variants(c.members@, n, enum_name, string_literals).unwrap();
                lemma_pairs_balanced(variants);
                lemma_item_balanced(kw_enum(), enum_name, firsts(variants));
                lemma_balanced_add(spec_print_enum(enum_name, firsts(variants)), concat_parts(seconds(variants)));
            },
            Rule::Field(f) => {
                lemma_struct_or_enum_balanced(*f.content, Some(f.name@), prefix, string_literals, seq![]);
            },
            _ => {},
        }
    }
}

proof fn lemma_struct_fields_balanced(
    members: Seq<Rule>,
    n: int,
    struct_name: Seq<char>,
    string_literals: Map<Seq<char>, String>,
    overrides: Seq<NameOverrideStep>,
)
    ensures
        spec_struct_fields(members, n, struct_name, string_literals, overrides) matches Some(pairs)
            ==> forall|i: int|
            0 <= i < pairs.len() ==> balanced((#[trigger] pairs[i]).0) && balanced(pairs[i].1),
    decreases members, n,
{
    if 0 < n <= members.len() {
        lemma_struct_fields_balanced(members, n - 1, struct_name, string_literals, overrides);
        lemma_struct_field_balanced(
            members[n - 1],
            struct_name,
            string_literals,
            spec_seq_member_steps(overrides, n - 1),
        );
    }
}

proof fn lemma_struct_field_balanced(
    rule: Rule,
    parent: Seq<char>,
    string_literals: Map<Seq<char>, String>,
    overrides: Seq<NameOverrideStep>,
)
    ensures
        spec_struct_field(rule, parent, string_literals, overrides) matches Some((field, definition))
            ==> balanced(field) && balanced(definition),
    decreases rule, 3int,
{
    if let Some((field, definition)) = spec_struct_field(rule, parent, string_literals, overrides) {
        lemma_keywords_balanced(Seq::<TokenModel>::empty());
        match rule {
            Rule::Choice(c) => {
                if spec_is_option(c) {
                    lemma_type_balanced(c.members@[0]);
                    let ty = spec_type(c.members@[0]).unwrap();
                    lemma_generic_balanced(kw_option(), ty);
                    lemma_struct_field_tokens_balanced(
                        spec_struct_field_name(c.members@[0]).unwrap(),
                        spec_generic(kw_option(), ty),
                    );
                } else {
                    let name_override = overrides[0]->Override_0@;
                    lemma_struct_or_enum_balanced(
                        rule,
                        Some(name_override),
                        parent,
                        string_literals,
                        overrides.drop_first(),
                    );
                    let enum_name = spec_struct_or_enum(
                        rule,
                        Some(name_override),
                        parent,
                        string_literals,
                        overrides.drop_first(),
                    ).unwrap().1;
                    lemma_keywords_balanced(seq![TokenModel::Ident(enum_name)]);
                    lemma_struct_field_tokens_balanced(name_override, seq![TokenModel::Ident(enum_name)]);
                }
            },
            Rule::Repeat(r) => {
                lemma_type_balanced(*r.content);
                let ty = spec_type(*r.content).unwrap();
                lemma_generic_balanced(kw_vec(), ty);
                lemma_struct_field_tokens_balanced(
                    spec_struct_field_name(rule).unwrap(),
                    spec_generic(kw_vec(), ty),
                );
            },
            Rule::Symbol(sym) => {
                lemma_type_balanced(rule);
                lemma_struct_field_tokens_balanced(
                    spec_without_leading_underscore(sym.name@),
                    spec_type(rule).unwrap(),
                );
            },
            Rule::String(st) => {
                let name = string_literals[st.value@]@;
                lemma_keywords_balanced(seq![TokenModel::Ident(pascal_case(name))]);
                lemma_struct_field_tokens_balanced(name, seq![TokenModel::Ident(pascal_case(name))]);
            },
            Rule::Field(f) => {
                lemma_field_type_balanced(parent, rule, string_literals);
                let ty = spec_field_type(parent, rule, string_literals).unwrap().0;
                lemma_struct_field_tokens_balanced(f.name@, ty);
            },
            _ => {},
        }
    }
}

proof fn lemma_field_type_balanced(
    parent: Seq<char>,
    rule: Rule,
    string_literals: Map<Seq<char>, String>,
)
    ensures
        spec_field_type(parent, rule, string_literals) matches Some((ty, definition)) ==> balanced(ty)
            && balanced(definition),
    decreases rule, 2int,
{
    if let Some((ty, definition)) = spec_field_type(parent, rule, string_literals) {
        lemma_struct_or_enum_balanced(rule, None, parent, string_literals, seq![]);
        lemma_keywords_balanced(ty);
    }
}

proof fn lemma_enum_variants_balanced(
    members: Seq<Rule>,
    n: int,
    enum_name: Seq<char>,
    string_literals: Map<Seq<char>, String>,
)
    ensures
        spec_enum_variants(members, n, enum_name, string_literals) matches Some(pairs)
            ==> forall|i: int|
            0 <= i < pairs.len() ==> balanced((#[trigger] pairs[i]).0) && balanced(pairs[i].1),
    decreases members, n,
{
    if 0 < n <= members.len() {
        lemma_enum_variants_balanced(members, n - 1, enum_name, string_literals);
        lemma_enum_variant_balanced(members[n - 1], enum_name, string_literals);
    }
}

proof fn lemma_enum_variant_balanced(
    rule: Rule,
    parent: Seq<char>,
    string_literals: Map<Seq<char>, String>,
)
    ensures
        spec_enum_variant(rule, parent, string_literals) matches Some((variant, definition))
            ==> balanced(variant) && balanced(definition),
    decreases rule, 2int,
{
    if let Some((variant, definition)) = spec_enum_variant(rule, parent, string_literals) {
        match rule {
            Rule::Sequence(_) => {
                lemma_struct_or_enum_balanced(rule, None, parent, string_literals, seq![]);
                let name = spec_struct_or_enum(rule, None, parent, string_literals, seq![]).unwrap().1;
                lemma_tuple_variant_balanced(name.skip(parent.len() as int), name);
            },
            Rule::Prec(p) => {
                lemma_enum_variant_balanced(*p.content, parent, string_literals);
            },
            Rule::Symbol(sym) => {
                let name = pascal_case(spec_without_leading_underscore(sym.name@));
                lemma_tuple_variant_balanced(name, name);
                lemma_keywords_balanced(Seq::<TokenModel>::empty());
            },
            _ => {},
        }
    }
}

proof fn lemma_generate_rules_balanced(
    entries: Seq<(String, Rule)>,
    n: int,
    string_literals: Map<Seq<char>, String>,
    name_overrides: Seq<NameOverrideStep>,
)
    ensures
        spec_generate_rules(entries, n, string_literals, name_overrides) matches Some(code)
            ==> balanced(code),
    decreases n,
{
    if n <= 0 {
        lemma_keywords_balanced(Seq::<TokenModel>::empty());
    } else if n <= entries.len() {
        lemma_generate_rules_balanced(entries, n - 1, string_literals, name_overrides);
        let (rule_name, rule) = entries[n - 1];
        lemma_struct_or_enum_balanced(
            rule,
            Some(rule_name@),
            seq![],
            string_literals,
            spec_rule_steps(name_overrides, rule_name@),
        );
        if let Some(code) = spec_generate_rules(entries, n, string_literals, name_overrides) {
            let before = spec_generate_rules(entries, n - 1, string_literals, name_overrides).unwrap();
            let last = spec_struct_or_enum(
                rule,
                Some(rule_name@),
                seq![],
                string_literals,
                spec_rule_steps(name_overrides, rule_name@),
            ).unwrap().0;
            lemma_balanced_add(before, last);
        }
    }
}

/// The generated code is well nested: every closing bracket closes the
/// innermost group still open, which was opened by a bracket of the same kind,
/// and every group opened is closed.
pub proof fn law_generated_code_is_balanced(
    root: Root,
    string_literals: Map<Seq<char>, String>,
    name_overrides: Seq<NameOverrideStep>,
)
    ensures
        spec_generate(root, string_literals, name_overrides) matches Some(code) ==> balanced(code),
{
    lemma_generate_rules_balanced(
        rule_entries(root.rules),
        rule_entries(root.rules).len() as int,
        string_literals,
        name_overrides,
    );
}

} // verus!
