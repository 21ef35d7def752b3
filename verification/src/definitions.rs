//! What the generated code is: the token sequences for each kind of rule,
//! defined over the grammar, the string-literal names and the name overrides.
use crate::grammar_json::{rule_entries, Choice, Root, Rule};
use crate::names::{pascal_case, spec_struct_field_name, spec_without_leading_underscore};
use crate::overrides::{spec_all_rule_names, spec_rule_steps, spec_seq_member_steps, NameOverrideStep};
use crate::tokens::{comma_separated, concat_parts, idents_shape_ok, Delimiter, TokenModel};
use vstd::prelude::*;

verus! {

pub open spec fn kw_pub() -> Seq<char> {
    seq!['p', 'u', 'b']
}

pub open spec fn kw_struct() -> Seq<char> {
    seq!['s', 't', 'r', 'u', 'c', 't']
}

pub open spec fn kw_enum() -> Seq<char> {
    seq!['e', 'n', 'u', 'm']
}

pub open spec fn kw_option() -> Seq<char> {
    seq!['O', 'p', 't', 'i', 'o', 'n']
}

pub open spec fn kw_vec() -> Seq<char> {
    seq!['V', 'e', 'c']
}

/// `pub name: ty`
pub open spec fn spec_print_struct_field(name: Seq<char>, ty: Seq<TokenModel>) -> Seq<TokenModel> {
    seq![TokenModel::Ident(kw_pub()), TokenModel::Ident(name), TokenModel::Punct(':')] + ty
}

/// `pub struct name { field, field, ... }`
pub open spec fn spec_print_struct(name: Seq<char>, fields: Seq<Seq<TokenModel>>) -> Seq<TokenModel> {
    seq![
        TokenModel::Ident(kw_pub()),
        TokenModel::Ident(kw_struct()),
        TokenModel::Ident(name),
        TokenModel::Open(Delimiter::Brace),
    ] + comma_separated(fields) + seq![TokenModel::Close(Delimiter::Brace)]
}

/// `pub enum name { variant, variant, ... }`
pub open spec fn spec_print_enum(name: Seq<char>, variants: Seq<Seq<TokenModel>>) -> Seq<TokenModel> {
    seq![
        TokenModel::Ident(kw_pub()),
        TokenModel::Ident(kw_enum()),
        TokenModel::Ident(name),
        TokenModel::Open(Delimiter::Brace),
    ] + comma_separated(variants) + seq![TokenModel::Close(Delimiter::Brace)]
}

/// `wrapper<inner>`
pub open spec fn spec_generic(wrapper: Seq<char>, inner: Seq<TokenModel>) -> Seq<TokenModel> {
    seq![TokenModel::Ident(wrapper), TokenModel::Punct('<')] + inner + seq![TokenModel::Punct('>')]
}

/// `variant(payload)`
pub open spec fn spec_tuple_variant(variant: Seq<char>, payload: Seq<char>) -> Seq<TokenModel> {
    seq![
        TokenModel::Ident(variant),
        TokenModel::Open(Delimiter::Parenthesis),
        TokenModel::Ident(payload),
        TokenModel::Close(Delimiter::Parenthesis),
    ]
}

/// The type named by a `SYMBOL` rule; `None` for other rules.
pub open spec fn spec_type(rule: Rule) -> Option<Seq<TokenModel>> {
    match rule {
        Rule::Symbol(s) => Some(
            seq![TokenModel::Ident(pascal_case(spec_without_leading_underscore(s.name@)))],
        ),
        _ => None,
    }
}

/// A `CHOICE` between one non-blank rule and `BLANK`, which becomes an `Option`.
pub open spec fn spec_is_option(choice: Choice) -> bool {
    &&& choice.members@.len() == 2
    &&& choice.members@[1] is Blank
    &&& !(choice.members@[0] is Blank)
}

/// The definitions generated for `rule` and the name of the struct or enum
/// that holds it, or `None` where generation does not support the rule.
///
/// `rule_name` is the name to give it (by default the rule's field name in
/// upper camel case), `prefix` goes before that name.
pub open spec fn spec_struct_or_enum(
    rule: Rule,
    rule_name: Option<Seq<char>>,
    prefix: Seq<char>,
    string_literals: Map<Seq<char>, String>,
    overrides: Seq<NameOverrideStep>,
) -> Option<(Seq<TokenModel>, Seq<char>)>
    decreases rule, 1int,
{
    let name = match rule_name {
        Some(n) => Some(n),
        None => match spec_struct_field_name(rule) {
            Some(f) => Some(pascal_case(f)),
            None => None,
        },
    };
    match name {
        None => None,
        Some(name) => match rule {
            Rule::Sequence(s) => {
                let struct_name = prefix + pascal_case(name);
                match spec_struct_fields(
                    s.members@,
                    s.members@.len() as int,
                    struct_name,
                    string_literals,
                    overrides,
                ) {
                    Some(fields) => Some(
                        (
                            spec_print_struct(struct_name, firsts(fields)) + concat_parts(seconds(fields)),
                            struct_name,
                        ),
                    ),
                    None => None,
                }
            },
            Rule::String(s) => {
                let struct_name = prefix + pascal_case(name);
                if string_literals.contains_key(s.value@) {
                    let field = string_literals[s.value@]@;
                    Some(
                        (
                            spec_print_struct(
                                struct_name,
                                seq![spec_print_struct_field(field, seq![TokenModel::Ident(pascal_case(field))])],
                            ),
                            struct_name,
                        ),
                    )
                } else {
                    None
                }
            },
            Rule::Choice(c) => {
                let enum_name = prefix + pascal_case(name);
                match spec_enum_variants(c.members@, c.members@.len() as int, enum_name, string_literals) {
                    Some(variants) => Some(
                        (
                            spec_print_enum(enum_name, firsts(variants)) + concat_parts(seconds(variants)),
                            enum_name,
                        ),
                    ),
                    None => None,
                }
            },
            Rule::Field(f) => match *f.content {
                Rule::Choice(_) => spec_struct_or_enum(
                    *f.content,
                    Some(f.name@),
                    prefix,
                    string_literals,
                    seq![],
                ),
                _ => None,
            },
            _ => None,
        },
    }
}

/// The struct fields and nested definitions for the first `n` members of a `SEQ`.
pub open spec fn spec_struct_fields(
    members: Seq<Rule>,
    n: int,
    struct_name: Seq<char>,
    string_literals: Map<Seq<char>, String>,
    overrides: Seq<NameOverrideStep>,
) -> Option<Seq<(Seq<TokenModel>, Seq<TokenModel>)>>
    decreases members, n,
{
    if n <= 0 || n > members.len() {
        if n <= 0 { Some(seq![]) } else { None }
    } else {
        match spec_struct_fields(members, n - 1, struct_name, string_literals, overrides) {
            Some(prev) => match spec_struct_field(
                members[n - 1],
                struct_name,
                string_literals,
                spec_seq_member_steps(overrides, n - 1),
            ) {
                Some(p) => Some(prev.push(p)),
                None => None,
            },
            None => None,
        }
    }
}

/// The field that holds `rule` in the struct `parent`, and any definition
/// that field's type needs.
pub open spec fn spec_struct_field(
    rule: Rule,
    parent: Seq<char>,
    string_literals: Map<Seq<char>, String>,
    overrides: Seq<NameOverrideStep>,
) -> Option<(Seq<TokenModel>, Seq<TokenModel>)>
    decreases rule, 3int,
{
    match rule {
        Rule::Choice(c) => if spec_is_option(c) {
            if overrides.len() == 0 {
                match (spec_type(c.members@[0]), spec_struct_field_name(c.members@[0])) {
                    (Some(ty), Some(name)) => Some(
                        (spec_print_struct_field(name, spec_generic(kw_option(), ty)), seq![]),
                    ),
                    _ => None,
                }
            } else {
                None
            }
        } else if overrides.len() > 0 && overrides[0] is Override {
            let name_override = overrides[0]->Override_0@;
            match spec_struct_or_enum(
                rule,
                Some(name_override),
                parent,
                string_literals,
                overrides.drop_first(),
            ) {
                Some((definition, enum_name)) => Some(
                    (
                        spec_print_struct_field(name_override, seq![TokenModel::Ident(enum_name)]),
                        definition,
                    ),
                ),
                None => None,
            }
        } else {
            None
        },
        Rule::Repeat(r) => if overrides.len() == 0 {
            match (spec_type(*r.content), spec_struct_field_name(rule)) {
                (Some(ty), Some(name)) => Some(
                    (spec_print_struct_field(name, spec_generic(kw_vec(), ty)), seq![]),
                ),
                _ => None,
            }
        } else {
            None
        },
        Rule::Symbol(s) => if overrides.len() == 0 {
            match spec_type(rule) {
                Some(ty) => Some(
                    (spec_print_struct_field(spec_without_leading_underscore(s.name@), ty), seq![]),
                ),
                None => None,
            }
        } else {
            None
        },
        Rule::String(s) => if overrides.len() == 0 && string_literals.contains_key(s.value@) {
            let name = string_literals[s.value@]@;
            Some(
                (
                    spec_print_struct_field(name, seq![TokenModel::Ident(pascal_case(name))]),
                    seq![],
                ),
            )
        } else {
            None
        },
        Rule::Field(f) => if overrides.len() == 0 {
            match spec_field_type(parent, rule, string_literals) {
                Some((ty, definition)) => Some((spec_print_struct_field(f.name@, ty), definition)),
                None => None,
            }
        } else {
            None
        },
        _ => None,
    }
}

/// The type of the struct field that holds a `FIELD` rule of `parent`, and the
/// definition of that type.
pub open spec fn spec_field_type(
    parent: Seq<char>,
    rule: Rule,
    string_literals: Map<Seq<char>, String>,
) -> Option<(Seq<TokenModel>, Seq<TokenModel>)>
    decreases rule, 2int,
{
    match rule {
        Rule::Field(f) => match *f.content {
            Rule::Choice(_) => match spec_struct_or_enum(
                rule,
                None,
                parent,
                string_literals,
                seq![],
            ) {
                Some((definition, enum_name)) => Some(
                    (seq![TokenModel::Ident(enum_name)], definition),
                ),
                None => None,
            },
            _ => None,
        },
        _ => None,
    }
}

/// The enum variants and nested definitions for the first `n` members of a `CHOICE`.
pub open spec fn spec_enum_variants(
    members: Seq<Rule>,
    n: int,
    enum_name: Seq<char>,
    string_literals: Map<Seq<char>, String>,
) -> Option<Seq<(Seq<TokenModel>, Seq<TokenModel>)>>
    decreases members, n,
{
    if n <= 0 || n > members.len() {
        if n <= 0 { Some(seq![]) } else { None }
    } else {
        match spec_enum_variants(members, n - 1, enum_name, string_literals) {
            Some(prev) => match spec_enum_variant(members[n - 1], enum_name, string_literals) {
                Some(p) => Some(prev.push(p)),
                None => None,
            },
            None => None,
        }
    }
}

/// The variant that holds `rule` in the enum `parent`, and any definition
/// that variant's payload needs.
pub open spec fn spec_enum_variant(
    rule: Rule,
    parent: Seq<char>,
    string_literals: Map<Seq<char>, String>,
) -> Option<(Seq<TokenModel>, Seq<TokenModel>)>
    decreases rule, 2int,
{
    match rule {
        Rule::Sequence(_) => match spec_struct_or_enum(rule, None, parent, string_literals, seq![]) {
            Some((definition, struct_name)) => if struct_name.len() > parent.len() {
                Some(
                    (
                        spec_tuple_variant(struct_name.skip(parent.len() as int), struct_name),
                        definition,
                    ),
                )
            } else {
                None
            },
            None => None,
        },
        Rule::Prec(p) => spec_enum_variant(*p.content, parent, string_literals),
        Rule::Symbol(s) => {
            let name = pascal_case(spec_without_leading_underscore(s.name@));
            Some((spec_tuple_variant(name, name), seq![]))
        },
        _ => None,
    }
}

/// The first parts of a sequence of pairs of token sequences.
pub open spec fn firsts(pairs: Seq<(Seq<TokenModel>, Seq<TokenModel>)>) -> Seq<Seq<TokenModel>> {
    pairs.map_values(|p: (Seq<TokenModel>, Seq<TokenModel>)| p.0)
}

/// The second parts of a sequence of pairs of token sequences.
pub open spec fn seconds(pairs: Seq<(Seq<TokenModel>, Seq<TokenModel>)>) -> Seq<Seq<TokenModel>> {
    pairs.map_values(|p: (Seq<TokenModel>, Seq<TokenModel>)| p.1)
}

/// The code generated for the first `n` rules of `entries`, one rule after the other.
pub open spec fn spec_generate_rules(
    entries: Seq<(String, Rule)>,
    n: int,
    string_literals: Map<Seq<char>, String>,
    name_overrides: Seq<NameOverrideStep>,
) -> Option<Seq<TokenModel>>
    decreases n,
{
    if n <= 0 || n > entries.len() {
        if n <= 0 {
            Some(seq![])
        } else {
            None
        }
    } else {
        let (rule_name, rule) = entries[n - 1];
        match (
            spec_generate_rules(entries, n - 1, string_literals, name_overrides),
            spec_struct_or_enum(
                rule,
                Some(rule_name@),
                seq![],
                string_literals,
                spec_rule_steps(name_overrides, rule_name@),
            ),
        ) {
            (Some(before), Some((code, _))) => Some(before + code),
            _ => None,
        }
    }
}

/// The code generated for a grammar: the definitions for each rule, in the
/// order of the rules, each rule named by its key and given the steps of the
/// `RuleName` overrides for that key. `None` where a step is not a `RuleName`
/// step or where some rule is not supported.
pub open spec fn spec_generate(
    root: Root,
    string_literals: Map<Seq<char>, String>,
    name_overrides: Seq<NameOverrideStep>,
) -> Option<Seq<TokenModel>> {
    if spec_all_rule_names(name_overrides) {
        spec_generate_rules(
            rule_entries(root.rules),
            rule_entries(root.rules).len() as int,
            string_literals,
            name_overrides,
        )
    } else {
        None
    }
}

/// The inputs that `generate` accepts: every rule and override is supported,
/// and every identifier of the generated code has the shape of one.
pub open spec fn spec_accepts(
    root: Root,
    string_literals: Map<Seq<char>, String>,
    name_overrides: Seq<NameOverrideStep>,
) -> bool {
    &&& spec_generate(root, string_literals, name_overrides) is Some
    &&& idents_shape_ok(spec_generate(root, string_literals, name_overrides).unwrap())
}

} // verus!
