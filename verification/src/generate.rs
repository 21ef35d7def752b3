//! Generating struct and enum definitions from a grammar.
use crate::definitions::{
    firsts, kw_enum, kw_option, kw_pub, kw_struct, kw_vec, seconds, spec_enum_variant,
    spec_enum_variants, spec_field_type, spec_generate, spec_generate_rules, spec_generic,
    spec_is_option, spec_print_enum, spec_print_struct, spec_print_struct_field,
    spec_struct_field, spec_struct_fields, spec_struct_or_enum, spec_tuple_variant, spec_type,
    spec_accepts,
};
use crate::overrides::spec_all_rule_names;
use crate::grammar_json::{
    rule_entries, rules_get_index, rules_len, Choice, Field, Prec, Repeat, Root, Rule, Sequence,
    String_, Symbol,
};
use crate::names::{
    get_struct_field_name, has_struct_field_name, join_names, law_seq_field_name_is_first_symbol,
    spec_struct_field_name, spec_without_leading_underscore, pascal_case, to_pascal_case, without_leading_underscore,
};
use crate::overrides::{
    find_seq_member_steps, refs_model, rule_steps, spec_rule_steps, spec_seq_member_steps,
    step_refs, NameOverrideStep, NameOverrideStepRuleName,
};
use crate::tokens::{
    comma_separated, concat_parts, model, part_models, push_all, push_close,
    push_comma_separated, push_concatenated, push_ident, push_keyword, push_open, push_punct,
    tokens_have_ident_shape, idents_shape_ok, CodeToken, Delimiter, TokenModel,
};
use vstd::hash_map::StringHashMap;
use vstd::prelude::*;

verus! {

/// A name in snake case, as given for a string literal of the grammar.
pub type SnakeCaseName = String;

/// An empty token sequence.
fn no_tokens() -> (res: Vec<CodeToken>)
    ensures
        model(res@) == Seq::<TokenModel>::empty(),
{
    let res: Vec<CodeToken> = Vec::new();
    assert(model(res@) =~= Seq::<TokenModel>::empty());
    res
}

/// Whether a `CHOICE` is between one non-blank rule and `BLANK`.
pub fn is_option(choice: &Choice) -> (res: bool)
    ensures
        res == spec_is_option(*choice),
{
    choice.members.len() == 2 && choice.members[1].is_blank() && !choice.members[0].is_blank()
}

/// `pub <keyword> <name> { <items separated by commas> }`
fn print_item(keyword: &str, name: &str, items: &Vec<Vec<CodeToken>>) -> (res: Vec<CodeToken>)
    ensures
        model(res@) == seq![
            TokenModel::Ident(kw_pub()),
            TokenModel::Ident(keyword@),
            TokenModel::Ident(name@),
            TokenModel::Open(Delimiter::Brace),
        ] + comma_separated(part_models(items@)) + seq![TokenModel::Close(Delimiter::Brace)],
{
    let mut res: Vec<CodeToken> = Vec::new();
    push_keyword(&mut res, "pub");
    push_keyword(&mut res, keyword);
    push_keyword(&mut res, name);
    push_open(&mut res, Delimiter::Brace);
    push_comma_separated(&mut res, items);
    push_close(&mut res, Delimiter::Brace);
    proof {
        reveal_strlit("pub");
        assert("pub"@ =~= kw_pub());
        assert(model(res@) =~= seq![
            TokenModel::Ident(kw_pub()),
            TokenModel::Ident(keyword@),
            TokenModel::Ident(name@),
            TokenModel::Open(Delimiter::Brace),
        ] + comma_separated(part_models(items@)) + seq![TokenModel::Close(Delimiter::Brace)]);
    }
    res
}

/// `pub enum <enum_name> { <variants separated by commas> }`
fn print_enum(enum_name: &str, enum_variants: &Vec<Vec<CodeToken>>) -> (res: Vec<CodeToken>)
    ensures
        model(res@) == spec_print_enum(enum_name@, part_models(enum_variants@)),
{
    let res = print_item("enum", enum_name, enum_variants);
    proof {
        reveal_strlit("enum");
        assert("enum"@ =~= kw_enum());
    }
    res
}

/// `pub struct <struct_name> { <fields separated by commas> }`
fn print_struct(struct_name: &str, struct_fields: &Vec<Vec<CodeToken>>) -> (res: Vec<CodeToken>)
    ensures
        model(res@) == spec_print_struct(struct_name@, part_models(struct_fields@)),
{
    let res = print_item("struct", struct_name, struct_fields);
    proof {
        reveal_strlit("struct");
        assert("struct"@ =~= kw_struct());
    }
    res
}

/// `pub <struct_field_name>: <struct_field_type>`
fn print_struct_field(struct_field_name: &str, struct_field_type: Vec<CodeToken>) -> (res: Vec<
    CodeToken,
>)
    ensures
        model(res@) == spec_print_struct_field(struct_field_name@, model(struct_field_type@)),
{
    let mut res: Vec<CodeToken> = Vec::new();
    push_keyword(&mut res, "pub");
    push_keyword(&mut res, struct_field_name);
    push_punct(&mut res, ':');
    push_all(&mut res, struct_field_type);
    proof {
        reveal_strlit("pub");
        assert("pub"@ =~= kw_pub());
        assert(model(res@) =~= spec_print_struct_field(struct_field_name@, model(struct_field_type@)));
    }
    res
}

/// `<wrapper><<inner>>`, such as `Option<Expression>`.
fn print_generic(wrapper: &str, inner: Vec<CodeToken>) -> (res: Vec<CodeToken>)
    ensures
        model(res@) == spec_generic(wrapper@, model(inner@)),
{
    let mut res: Vec<CodeToken> = Vec::new();
    push_keyword(&mut res, wrapper);
    push_punct(&mut res, '<');
    push_all(&mut res, inner);
    push_punct(&mut res, '>');
    proof {
        assert(model(res@) =~= spec_generic(wrapper@, model(inner@)));
    }
    res
}

/// `<variant>(<payload>)`
fn print_tuple_variant(variant: &str, payload: &str) -> (res: Vec<CodeToken>)
    ensures
        model(res@) == spec_tuple_variant(variant@, payload@),
{
    let mut res: Vec<CodeToken> = Vec::new();
    push_keyword(&mut res, variant);
    push_open(&mut res, Delimiter::Parenthesis);
    push_keyword(&mut res, payload);
    push_close(&mut res, Delimiter::Parenthesis);
    proof {
        assert(model(res@) =~= spec_tuple_variant(variant@, payload@));
    }
    res
}

/// The type named by a `SYMBOL` rule: its name without a leading underscore,
/// in upper camel case. Other rules name no type.
fn get_type(rule: &Rule) -> (res: Vec<CodeToken>)
    requires
        *rule is Symbol,
    ensures
        spec_type(*rule) == Some(model(res@)),
{
    match rule {
        Rule::Symbol(symbol) => {
            let type_ = to_pascal_case(without_leading_underscore(symbol.name.as_str()).as_str());
            let mut res: Vec<CodeToken> = Vec::new();
            push_ident(&mut res, type_);
            proof {
                assert(model(res@) =~= seq![TokenModel::Ident(type_@)]);
            }
            res
        },
        _ => vstd::pervasive::unreached(),
    }
}

/// The name given as an optional `String`, by value.
pub open spec fn optional_name(name: Option<String>) -> Option<Seq<char>> {
    match name {
        Some(n) => Some(n@),
        None => None,
    }
}

/// The prefix given as an optional `&str`; no prefix is the empty one.
pub open spec fn optional_prefix(prefix: Option<&str>) -> Seq<char> {
    match prefix {
        Some(p) => p@,
        None => seq![],
    }
}

/// The name of the generated struct or enum always begins with the prefix it
/// was given.
pub proof fn law_generated_name_has_prefix(
    rule: Rule,
    rule_name: Option<Seq<char>>,
    prefix: Seq<char>,
    string_literals: Map<Seq<char>, String>,
    overrides: Seq<NameOverrideStep>,
)
    ensures
        spec_struct_or_enum(rule, rule_name, prefix, string_literals, overrides) matches Some(
            (_, name),
        ) ==> prefix.is_prefix_of(name),
    decreases rule,
{
    match rule {
        Rule::Field(f) => {
            law_generated_name_has_prefix(*f.content, Some(f.name@), prefix, string_literals, seq![]);
        },
        _ => {},
    }
    if let Some((_, name)) = spec_struct_or_enum(rule, rule_name, prefix, string_literals, overrides) {
        match rule {
            Rule::Sequence(_) | Rule::String(_) | Rule::Choice(_) => {
                assert(name.subrange(0, prefix.len() as int) =~= prefix);
            },
            _ => {},
        }
    }
}

proof fn lemma_struct_fields_stay_none(
    members: Seq<Rule>,
    i: int,
    n: int,
    struct_name: Seq<char>,
    string_literals: Map<Seq<char>, String>,
    overrides: Seq<NameOverrideStep>,
)
    requires
        0 <= i <= n <= members.len(),
        spec_struct_fields(members, i, struct_name, string_literals, overrides) is None,
    ensures
        spec_struct_fields(members, n, struct_name, string_literals, overrides) is None,
    decreases n - i,
{
    if n > i {
        lemma_struct_fields_stay_none(members, i, n - 1, struct_name, string_literals, overrides);
    }
}

proof fn lemma_enum_variants_stay_none(
    members: Seq<Rule>,
    i: int,
    n: int,
    enum_name: Seq<char>,
    string_literals: Map<Seq<char>, String>,
)
    requires
        0 <= i <= n <= members.len(),
        spec_enum_variants(members, i, enum_name, string_literals) is None,
    ensures
        spec_enum_variants(members, n, enum_name, string_literals) is None,
    decreases n - i,
{
    if n > i {
        lemma_enum_variants_stay_none(members, i, n - 1, enum_name, string_literals);
    }
}

/// The pairs made of the models of `a[j]` and `b[j]`.
pub open spec fn zip_models(a: Seq<Vec<CodeToken>>, b: Seq<Vec<CodeToken>>) -> Seq<
    (Seq<TokenModel>, Seq<TokenModel>),
> {
    Seq::new(a.len(), |j: int| (model(a[j]@), model(b[j]@)))
}

/// The steps that apply to member `member_index` of a `SEQ`: those of the
/// first `SeqMember` step for that index, or none.
fn member_overrides<'a>(
    name_overrides: &[&'a NameOverrideStep],
    member_index: usize,
    no_steps: &'a Vec<NameOverrideStep>,
) -> (res: &'a [NameOverrideStep])
    requires
        no_steps@.len() == 0,
    ensures
        res@ == spec_seq_member_steps(refs_model(name_overrides@), member_index as int),
{
    match find_seq_member_steps(name_overrides, member_index) {
        Some(steps) => steps.as_slice(),
        None => {
            assert(no_steps@ =~= Seq::<NameOverrideStep>::empty());
            no_steps.as_slice()
        },
    }
}

// ---------------------------------------------------------------------------
// Which inputs are supported
// ---------------------------------------------------------------------------

/// Whether `spec_struct_or_enum` has a result for `rule`, given whether a
/// name is given (the value of the name and of the prefix do not matter).
#[verifier::loop_isolation(false)]
fn struct_or_enum_supported(
    rule: &Rule,
    has_name: bool,
    string_literals: &StringHashMap<SnakeCaseName>,
    name_overrides: &[&NameOverrideStep],
    rule_name: Ghost<Option<Seq<char>>>,
    prefix: Ghost<Seq<char>>,
) -> (res: bool)
    requires
        has_name == rule_name@ is Some,
    ensures
        res == spec_struct_or_enum(
            *rule,
            rule_name@,
            prefix@,
            string_literals@,
            refs_model(name_overrides@),
        ) is Some,
    decreases rule, 1int,
{
    let ghost overrides = refs_model(name_overrides@);
    if !has_name && !has_struct_field_name(rule) {
        return false;
    }
    let ghost name = match rule_name@ {
        Some(n) => n,
        None => pascal_case(spec_struct_field_name(*rule).unwrap()),
    };
    match rule {
        Rule::Sequence(seq) => {
            let ghost struct_name = prefix@ + pascal_case(name);
            let no_steps: Vec<NameOverrideStep> = Vec::new();
            let mut member_index: usize = 0;
            while member_index < seq.members.len()
                invariant
                    member_index <= seq.members@.len(),
                    spec_struct_fields(
                        seq.members@,
                        member_index as int,
                        struct_name,
                        string_literals@,
                        overrides,
                    ) is Some,
                decreases seq.members@.len() - member_index,
            {
                let steps = member_overrides(name_overrides, member_index, &no_steps);
                if !struct_field_supported(
                    &seq.members[member_index],
                    string_literals,
                    steps,
                    Ghost(struct_name),
                ) {
                    proof {
                        lemma_struct_fields_stay_none(
                            seq.members@,
                            member_index + 1,
                            seq.members@.len() as int,
                            struct_name,
                            string_literals@,
                            overrides,
                        );
                    }
                    return false;
                }
                member_index = member_index + 1;
            }
            true
        },
        Rule::String(string) => string_literals.contains_key(string.value.as_str()),
        Rule::Choice(choice) => {
            let ghost enum_name = prefix@ + pascal_case(name);
            let mut member_index: usize = 0;
            while member_index < choice.members.len()
                invariant
                    member_index <= choice.members@.len(),
                    spec_enum_variants(
                        choice.members@,
                        member_index as int,
                        enum_name,
                        string_literals@,
                    ) is Some,
                decreases choice.members@.len() - member_index,
            {
                if !enum_variant_supported(
                    &choice.members[member_index],
                    string_literals,
                    Ghost(enum_name),
                ) {
                    proof {
                        lemma_enum_variants_stay_none(
                            choice.members@,
                            member_index + 1,
                            choice.members@.len() as int,
                            enum_name,
                            string_literals@,
                        );
                    }
                    return false;
                }
                member_index = member_index + 1;
            }
            true
        },
        Rule::Field(field) => match &*field.content {
            Rule::Choice(_) => {
                let no_overrides: Vec<&NameOverrideStep> = Vec::new();
                assert(refs_model(no_overrides@) =~= Seq::<NameOverrideStep>::empty());
                struct_or_enum_supported(
                    &field.content,
                    true,
                    string_literals,
                    no_overrides.as_slice(),
                    Ghost(Some(field.name@)),
                    prefix,
                )
            },
            _ => false,
        },
        _ => false,
    }
}

/// Whether `spec_struct_field` has a result for `rule` in the struct `parent`.
fn struct_field_supported(
    rule: &Rule,
    string_literals: &StringHashMap<SnakeCaseName>,
    name_overrides: &[NameOverrideStep],
    parent: Ghost<Seq<char>>,
) -> (res: bool)
    ensures
        res == spec_struct_field(*rule, parent@, string_literals@, name_overrides@) is Some,
    decreases rule, 3int,
{
    match rule {
        Rule::Choice(choice) => {
            if is_option(choice) {
                if name_overrides.len() != 0 {
                    return false;
                }
                let first = &choice.members[0];
                assert(*first == choice.members@[0]);
                match first {
                    Rule::Symbol(_) => {
                        assert(spec_struct_field_name(*first) is Some);
                        assert(spec_type(*first) is Some);
                        true
                    },
                    _ => false,
                }
            } else if name_overrides.len() == 0 {
                false
            } else {
                match &name_overrides[0] {
                    NameOverrideStep::Override(name_override) => {
                        let remaining_name_overrides = step_refs(name_overrides, 1);
                        assert(name_overrides@.skip(1) =~= name_overrides@.drop_first());
                        struct_or_enum_supported(
                            rule,
                            true,
                            string_literals,
                            remaining_name_overrides.as_slice(),
                            Ghost(Some(name_override@)),
                            parent,
                        )
                    },
                    _ => false,
                }
            }
        },
        Rule::Repeat(repeat) => {
            if name_overrides.len() != 0 {
                return false;
            }
            match &*repeat.content {
                Rule::Symbol(_) => {
                    assert(spec_struct_field_name(*repeat.content) is Some);
                    assert(spec_struct_field_name(*rule) is Some);
                    true
                },
                _ => false,
            }
        },
        Rule::Symbol(_) => name_overrides.len() == 0,
        Rule::String(string) => name_overrides.len() == 0 && string_literals.contains_key(
            string.value.as_str(),
        ),
        Rule::Field(_) => name_overrides.len() == 0 && field_type_supported(
            rule,
            string_literals,
            parent,
        ),
        _ => false,
    }
}

/// Whether `spec_field_type` has a result for `rule` in the struct `parent`.
fn field_type_supported(
    rule: &Rule,
    string_literals: &StringHashMap<SnakeCaseName>,
    parent: Ghost<Seq<char>>,
) -> (res: bool)
    ensures
        res == spec_field_type(parent@, *rule, string_literals@) is Some,
    decreases rule, 2int,
{
    match rule {
        Rule::Field(field) => match &*field.content {
            Rule::Choice(_) => {
                let no_overrides: Vec<&NameOverrideStep> = Vec::new();
                assert(refs_model(no_overrides@) =~= Seq::<NameOverrideStep>::empty());
                struct_or_enum_supported(
                    rule,
                    false,
                    string_literals,
                    no_overrides.as_slice(),
                    Ghost(None),
                    parent,
                )
            },
            _ => false,
        },
        _ => false,
    }
}

/// Whether `spec_enum_variant` has a result for `rule` in the enum `parent`.
fn enum_variant_supported(
    rule: &Rule,
    string_literals: &StringHashMap<SnakeCaseName>,
    parent: Ghost<Seq<char>>,
) -> (res: bool)
    ensures
        res == spec_enum_variant(*rule, parent@, string_literals@) is Some,
    decreases rule, 2int,
{
    match rule {
        Rule::Sequence(_) => {
            let no_overrides: Vec<&NameOverrideStep> = Vec::new();
            assert(refs_model(no_overrides@) =~= Seq::<NameOverrideStep>::empty());
            if !struct_or_enum_supported(
                rule,
                false,
                string_literals,
                no_overrides.as_slice(),
                Ghost(None),
                parent,
            ) {
                return false;
            }
            let field_name = get_struct_field_name(rule);
            let variant_name = to_pascal_case(to_pascal_case(field_name.as_str()).as_str());
            variant_name.unicode_len() > 0
        },
        Rule::Prec(prec) => enum_variant_supported(&prec.content, string_literals, parent),
        Rule::Symbol(_) => true,
        _ => false,
    }
}

// ---------------------------------------------------------------------------
// Generation
// ---------------------------------------------------------------------------

/// The definitions generated for `rule` (structs and enums, in order) and the
/// name of the outermost one. `requires` leaves out the rules that are not
/// supported where they stand and string literals missing from
/// `string_literals`.
#[verifier::loop_isolation(false)]
pub fn get_struct_or_enum(
    rule: &Rule,
    rule_name: Option<String>,
    struct_or_enum_prefix: Option<&str>,
    string_literals: &StringHashMap<SnakeCaseName>,
    name_overrides: &[&NameOverrideStep],
) -> (res: (Vec<CodeToken>, String))
    requires
        spec_struct_or_enum(
            *rule,
            optional_name(rule_name),
            optional_prefix(struct_or_enum_prefix),
            string_literals@,
            refs_model(name_overrides@),
        ) is Some,
    ensures
        spec_struct_or_enum(
            *rule,
            optional_name(rule_name),
            optional_prefix(struct_or_enum_prefix),
            string_literals@,
            refs_model(name_overrides@),
        ) == Some((model(res.0@), res.1@)),
    decreases rule, 1int,
{
    let ghost spec_prefix = optional_prefix(struct_or_enum_prefix);
    let ghost overrides = refs_model(name_overrides@);
    let ghost expected = spec_struct_or_enum(
        *rule,
        optional_name(rule_name),
        spec_prefix,
        string_literals@,
        overrides,
    );
    let rule_name = match rule_name {
        Some(n) => n,
        None => to_pascal_case(get_struct_field_name(rule).as_str()),
    };
    let struct_or_enum_prefix: &str = match struct_or_enum_prefix {
        Some(p) => p,
        None => "",
    };
    proof {
        reveal_strlit("");
        assert(struct_or_enum_prefix@ =~= spec_prefix);
    }
    match rule {
        Rule::Sequence(seq) => {
            let struct_name = join_names(
                struct_or_enum_prefix,
                to_pascal_case(rule_name.as_str()).as_str(),
            );
            let no_steps: Vec<NameOverrideStep> = Vec::new();
            let mut struct_fields: Vec<Vec<CodeToken>> = Vec::new();
            let mut sub_struct_and_enum_types: Vec<Vec<CodeToken>> = Vec::new();
            let mut member_index: usize = 0;
            while member_index < seq.members.len()
                invariant
                    *rule == Rule::Sequence(*seq),
                    member_index <= seq.members@.len(),
                    struct_fields@.len() == member_index,
                    sub_struct_and_enum_types@.len() == member_index,
                    overrides == refs_model(name_overrides@),
                    expected == match spec_struct_fields(
                        seq.members@,
                        seq.members@.len() as int,
                        struct_name@,
                        string_literals@,
                        overrides,
                    ) {
                        Some(fields) => Some(
                            (
                                spec_print_struct(struct_name@, firsts(fields)) + concat_parts(
                                    seconds(fields),
                                ),
                                struct_name@,
                            ),
                        ),
                        None => None,
                    },
                    spec_struct_fields(
                        seq.members@,
                        member_index as int,
                        struct_name@,
                        string_literals@,
                        overrides,
                    ) == Some(zip_models(struct_fields@, sub_struct_and_enum_types@)),
                decreases seq.members@.len() - member_index,
            {
                let steps = member_overrides(name_overrides, member_index, &no_steps);
                proof {
                    if spec_struct_fields(
                        seq.members@,
                        member_index + 1,
                        struct_name@,
                        string_literals@,
                        overrides,
                    ) is None {
                        lemma_struct_fields_stay_none(
                            seq.members@,
                            member_index + 1,
                            seq.members@.len() as int,
                            struct_name@,
                            string_literals@,
                            overrides,
                        );
                    }
                }
                let (struct_field, struct_or_enum_type) = get_struct_field_and_struct_or_enum(
                    &seq.members[member_index],
                    struct_name.as_str(),
                    string_literals,
                    steps,
                );
                let ghost prev = zip_models(struct_fields@, sub_struct_and_enum_types@);
                let ghost pair = (model(struct_field@), model(struct_or_enum_type@));
                struct_fields.push(struct_field);
                sub_struct_and_enum_types.push(struct_or_enum_type);
                assert(zip_models(struct_fields@, sub_struct_and_enum_types@) =~= prev.push(pair));
                member_index = member_index + 1;
            }
            let mut code = print_struct(struct_name.as_str(), &struct_fields);
            push_concatenated(&mut code, &sub_struct_and_enum_types);
            proof {
                let fields = zip_models(struct_fields@, sub_struct_and_enum_types@);
                assert(firsts(fields) =~= part_models(struct_fields@));
                assert(seconds(fields) =~= part_models(sub_struct_and_enum_types@));
            }
            (code, struct_name)
        },
        Rule::String(string) => {
            let struct_name = join_names(
                struct_or_enum_prefix,
                to_pascal_case(rule_name.as_str()).as_str(),
            );
            let struct_field_name = match string_literals.get(string.value.as_str()) {
                Some(name) => name,
                None => vstd::pervasive::unreached(),
            };
            let struct_field_type = to_pascal_case(struct_field_name.as_str());
            let mut field_type: Vec<CodeToken> = Vec::new();
            push_ident(&mut field_type, struct_field_type);
            assert(model(field_type@) =~= seq![TokenModel::Ident(struct_field_type@)]);
            let mut struct_fields: Vec<Vec<CodeToken>> = Vec::new();
            struct_fields.push(print_struct_field(struct_field_name.as_str(), field_type));
            let code = print_struct(struct_name.as_str(), &struct_fields);
            proof {
                assert(part_models(struct_fields@) =~= seq![
                    spec_print_struct_field(
                        struct_field_name@,
                        seq![TokenModel::Ident(pascal_case(struct_field_name@))],
                    ),
                ]);
            }
            (code, struct_name)
        },
        Rule::Choice(choice) => {
            let enum_name = join_names(
                struct_or_enum_prefix,
                to_pascal_case(rule_name.as_str()).as_str(),
            );
            let mut enum_variants: Vec<Vec<CodeToken>> = Vec::new();
            let mut enum_variant_struct_or_enums: Vec<Vec<CodeToken>> = Vec::new();
            let mut member_index: usize = 0;
            while member_index < choice.members.len()
                invariant
                    *rule == Rule::Choice(*choice),
                    member_index <= choice.members@.len(),
                    enum_variants@.len() == member_index,
                    enum_variant_struct_or_enums@.len() == member_index,
                    expected == match spec_enum_variants(
                        choice.members@,
                        choice.members@.len() as int,
                        enum_name@,
                        string_literals@,
                    ) {
                        Some(variants) => Some(
                            (
                                spec_print_enum(enum_name@, firsts(variants)) + concat_parts(
                                    seconds(variants),
                                ),
                                enum_name@,
                            ),
                        ),
                        None => None,
                    },
                    spec_enum_variants(
                        choice.members@,
                        member_index as int,
                        enum_name@,
                        string_literals@,
                    ) == Some(zip_models(enum_variants@, enum_variant_struct_or_enums@)),
                decreases choice.members@.len() - member_index,
            {
                proof {
                    if spec_enum_variants(
                        choice.members@,
                        member_index + 1,
                        enum_name@,
                        string_literals@,
                    ) is None {
                        lemma_enum_variants_stay_none(
                            choice.members@,
                            member_index + 1,
                            choice.members@.len() as int,
                            enum_name@,
                            string_literals@,
                        );
                    }
                }
                let (variant, struct_or_enum) = get_enum_variant_and_struct_or_enum(
                    &choice.members[member_index],
                    enum_name.as_str(),
                    string_literals,
                );
                let ghost prev = zip_models(enum_variants@, enum_variant_struct_or_enums@);
                let ghost pair = (model(variant@), model(struct_or_enum@));
                enum_variants.push(variant);
                enum_variant_struct_or_enums.push(struct_or_enum);
                assert(zip_models(enum_variants@, enum_variant_struct_or_enums@) =~= prev.push(pair));
                member_index = member_index + 1;
            }
            let mut code = print_enum(enum_name.as_str(), &enum_variants);
            push_concatenated(&mut code, &enum_variant_struct_or_enums);
            proof {
                let variants = zip_models(enum_variants@, enum_variant_struct_or_enums@);
                assert(firsts(variants) =~= part_models(enum_variants@));
                assert(seconds(variants) =~= part_models(enum_variant_struct_or_enums@));
            }
            (code, enum_name)
        },
        Rule::Field(field) => match &*field.content {
            Rule::Choice(_) => {
                let no_overrides: Vec<&NameOverrideStep> = Vec::new();
                assert(refs_model(no_overrides@) =~= Seq::<NameOverrideStep>::empty());
                get_struct_or_enum(
                    &field.content,
                    Some(field.name.clone()),
                    Some(struct_or_enum_prefix),
                    string_literals,
                    no_overrides.as_slice(),
                )
            },
            _ => vstd::pervasive::unreached(),
        },
        _ => vstd::pervasive::unreached(),
    }
}

/// The struct field that holds `rule` in the struct `parent_struct_name`, and
/// any definition its type needs. `requires` leaves out the rules that are
/// not supported there, steps given for a kind of rule that takes none, and a
/// non-optional `CHOICE` without an `Override` step.
fn get_struct_field_and_struct_or_enum(
    rule: &Rule,
    parent_struct_name: &str,
    string_literals: &StringHashMap<SnakeCaseName>,
    name_overrides: &[NameOverrideStep],
) -> (res: (Vec<CodeToken>, Vec<CodeToken>))
    requires
        spec_struct_field(*rule, parent_struct_name@, string_literals@, name_overrides@) is Some,
    ensures
        spec_struct_field(*rule, parent_struct_name@, string_literals@, name_overrides@) == Some(
            (model(res.0@), model(res.1@)),
        ),
    decreases rule, 3int,
{
    match rule {
        Rule::Choice(choice) => {
            if is_option(choice) {
                let struct_field_type = get_type(&choice.members[0]);
                let struct_field_name = get_struct_field_name(&choice.members[0]);
                let field_type = print_generic("Option", struct_field_type);
                proof {
                    reveal_strlit("Option");
                    assert("Option"@ =~= kw_option());
                }
                (print_struct_field(struct_field_name.as_str(), field_type), no_tokens())
            } else {
                let name_override = name_overrides[0].as_override();
                let remaining_name_overrides = step_refs(name_overrides, 1);
                assert(name_overrides@.skip(1) =~= name_overrides@.drop_first());
                let (enum_definition, enum_name) = get_struct_or_enum(
                    rule,
                    Some(name_override.to_owned()),
                    Some(parent_struct_name),
                    string_literals,
                    remaining_name_overrides.as_slice(),
                );
                let mut field_type: Vec<CodeToken> = Vec::new();
                push_ident(&mut field_type, enum_name);
                assert(model(field_type@) =~= seq![TokenModel::Ident(enum_name@)]);
                (print_struct_field(name_override, field_type), enum_definition)
            }
        },
        Rule::Repeat(repeat) => {
            let item_type = get_type(&repeat.content);
            let struct_field_name = get_struct_field_name(rule);
            let field_type = print_generic("Vec", item_type);
            proof {
                reveal_strlit("Vec");
                assert("Vec"@ =~= kw_vec());
            }
            (print_struct_field(struct_field_name.as_str(), field_type), no_tokens())
        },
        Rule::Symbol(symbol) => {
            let item_type = get_type(rule);
            let struct_field_name = without_leading_underscore(symbol.name.as_str());
            (print_struct_field(struct_field_name.as_str(), item_type), no_tokens())
        },
        Rule::String(string) => {
            let struct_field_name = match string_literals.get(string.value.as_str()) {
                Some(name) => name,
                None => vstd::pervasive::unreached(),
            };
            let struct_field_type = to_pascal_case(struct_field_name.as_str());
            let mut field_type: Vec<CodeToken> = Vec::new();
            push_ident(&mut field_type, struct_field_type);
            assert(model(field_type@) =~= seq![TokenModel::Ident(struct_field_type@)]);
            (print_struct_field(struct_field_name.as_str(), field_type), no_tokens())
        },
        Rule::Field(field) => {
            let (struct_field_type, struct_field_struct_or_enum) =
                get_struct_field_field_type_and_struct_or_enum(
                parent_struct_name,
                rule,
                string_literals,
            );
            (print_struct_field(field.name.as_str(), struct_field_type), struct_field_struct_or_enum)
        },
        _ => vstd::pervasive::unreached(),
    }
}

/// The type of the struct field for a `FIELD` rule whose content is a
/// `CHOICE` (an enum named after the field), and that enum's definition.
fn get_struct_field_field_type_and_struct_or_enum(
    parent_struct_name: &str,
    rule: &Rule,
    string_literals: &StringHashMap<SnakeCaseName>,
) -> (res: (Vec<CodeToken>, Vec<CodeToken>))
    requires
        spec_field_type(parent_struct_name@, *rule, string_literals@) is Some,
    ensures
        spec_field_type(parent_struct_name@, *rule, string_literals@) == Some(
            (model(res.0@), model(res.1@)),
        ),
    decreases rule, 2int,
{
    match &*rule.as_field().content {
        Rule::Choice(_) => {
            let no_overrides: Vec<&NameOverrideStep> = Vec::new();
            assert(refs_model(no_overrides@) =~= Seq::<NameOverrideStep>::empty());
            let (enum_, enum_name) = get_struct_or_enum(
                rule,
                None,
                Some(parent_struct_name),
                string_literals,
                no_overrides.as_slice(),
            );
            let mut field_type: Vec<CodeToken> = Vec::new();
            push_ident(&mut field_type, enum_name);
            assert(model(field_type@) =~= seq![TokenModel::Ident(enum_name@)]);
            (field_type, enum_)
        },
        _ => vstd::pervasive::unreached(),
    }
}

/// The enum variant that holds `rule` in the enum `parent_enum_name`, and any
/// definition its payload needs. `requires` leaves out the rules that are not
/// supported there, and a `SEQ` whose variant name would be empty.
pub fn get_enum_variant_and_struct_or_enum(
    rule: &Rule,
    parent_enum_name: &str,
    string_literals: &StringHashMap<SnakeCaseName>,
) -> (res: (Vec<CodeToken>, Vec<CodeToken>))
    requires
        spec_enum_variant(*rule, parent_enum_name@, string_literals@) is Some,
    ensures
        spec_enum_variant(*rule, parent_enum_name@, string_literals@) == Some(
            (model(res.0@), model(res.1@)),
        ),
    decreases rule, 2int,
{
    match rule {
        Rule::Sequence(_) => {
            let no_overrides: Vec<&NameOverrideStep> = Vec::new();
            assert(refs_model(no_overrides@) =~= Seq::<NameOverrideStep>::empty());
            let (enum_variant_struct_or_enum, enum_variant_struct_or_enum_name) =
                get_struct_or_enum(
                rule,
                None,
                Some(parent_enum_name),
                string_literals,
                no_overrides.as_slice(),
            );
            proof {
                law_generated_name_has_prefix(*rule, None, parent_enum_name@, string_literals@, seq![]);
            }
            enum_variant_and_struct_or_enum(
                enum_variant_struct_or_enum_name.as_str(),
                parent_enum_name,
                enum_variant_struct_or_enum,
            )
        },
        Rule::Prec(prec) => get_enum_variant_and_struct_or_enum(
            &prec.content,
            parent_enum_name,
            string_literals,
        ),
        Rule::Symbol(symbol) => {
            let enum_variant_name = to_pascal_case(
                without_leading_underscore(symbol.name.as_str()).as_str(),
            );
            (
                print_tuple_variant(enum_variant_name.as_str(), enum_variant_name.as_str()),
                no_tokens(),
            )
        },
        _ => vstd::pervasive::unreached(),
    }
}

/// The variant `<name without the parent's prefix>(<name>)` for a struct or
/// enum named `<parent><rest>`, with `rest` not empty, paired with that struct
/// or enum's definition.
fn enum_variant_and_struct_or_enum(
    enum_variant_struct_or_enum_name: &str,
    parent_enum_name: &str,
    enum_variant_struct_or_enum: Vec<CodeToken>,
) -> (res: (Vec<CodeToken>, Vec<CodeToken>))
    requires
        parent_enum_name@.is_prefix_of(enum_variant_struct_or_enum_name@),
        parent_enum_name@.len() < enum_variant_struct_or_enum_name@.len(),
    ensures
        model(res.0@) == spec_tuple_variant(
            enum_variant_struct_or_enum_name@.skip(parent_enum_name@.len() as int),
            enum_variant_struct_or_enum_name@,
        ),
        model(res.1@) == model(enum_variant_struct_or_enum@),
{
    let enum_variant_name = enum_variant_struct_or_enum_name.substring_char(
        parent_enum_name.unicode_len(),
        enum_variant_struct_or_enum_name.unicode_len(),
    ).to_owned();
    assert(enum_variant_name@ =~= enum_variant_struct_or_enum_name@.skip(
        parent_enum_name@.len() as int,
    ));
    (
        print_tuple_variant(enum_variant_name.as_str(), enum_variant_struct_or_enum_name),
        enum_variant_struct_or_enum,
    )
}

proof fn lemma_generate_rules_stay_none(
    entries: Seq<(String, Rule)>,
    i: int,
    n: int,
    string_literals: Map<Seq<char>, String>,
    name_overrides: Seq<NameOverrideStep>,
)
    requires
        0 <= i <= n <= entries.len(),
        spec_generate_rules(entries, i, string_literals, name_overrides) is None,
    ensures
        spec_generate_rules(entries, n, string_literals, name_overrides) is None,
    decreases n - i,
{
    if n > i {
        lemma_generate_rules_stay_none(entries, i, n - 1, string_literals, name_overrides);
    }
}

/// The `RuleName` steps, when every step is one; `None` otherwise.
fn rule_name_steps(name_overrides: &[NameOverrideStep]) -> (res: Option<
    Vec<&NameOverrideStepRuleName>,
>)
    ensures
        match res {
            Some(steps) => {
                &&& spec_all_rule_names(name_overrides@)
                &&& steps@.len() == name_overrides@.len()
                &&& forall|i: int|
                    0 <= i < name_overrides@.len() ==> name_overrides@[i]->RuleName_0
                        == *#[trigger] steps@[i]
            },
            None => !spec_all_rule_names(name_overrides@),
        },
{
    let mut rule_name_overrides: Vec<&NameOverrideStepRuleName> = Vec::new();
    let mut k: usize = 0;
    while k < name_overrides.len()
        invariant
            k <= name_overrides@.len(),
            rule_name_overrides@.len() == k,
            forall|i: int|
                0 <= i < k ==> (#[trigger] name_overrides@[i]) is RuleName
                    && name_overrides@[i]->RuleName_0 == *rule_name_overrides@[i],
        decreases name_overrides@.len() - k,
    {
        match &name_overrides[k] {
            NameOverrideStep::RuleName(_) => {},
            _ => {
                return None;
            },
        }
        rule_name_overrides.push(name_overrides[k].as_rule_name());
        k = k + 1;
    }
    Some(rule_name_overrides)
}

/// The code for a grammar whose rules and overrides are all supported.
#[verifier::loop_isolation(false)]
fn generate_code(
    root: &Root,
    string_literals: &StringHashMap<SnakeCaseName>,
    name_overrides: &[NameOverrideStep],
) -> (code: Vec<CodeToken>)
    requires
        spec_generate(*root, string_literals@, name_overrides@) is Some,
    ensures
        spec_generate(*root, string_literals@, name_overrides@) == Some(model(code@)),
{
    let rule_name_overrides = match rule_name_steps(name_overrides) {
        Some(steps) => steps,
        None => vstd::pervasive::unreached(),
    };
    let ghost entries = rule_entries(root.rules);
    let rules_count = rules_len(&root.rules);
    let mut code: Vec<CodeToken> = Vec::new();
    let mut index: usize = 0;
    assert(model(code@) =~= Seq::<TokenModel>::empty());
    while index < rules_count
        invariant
            index <= rules_count,
            rules_count == entries.len(),
            entries == rule_entries(root.rules),
            spec_generate_rules(entries, entries.len() as int, string_literals@, name_overrides@)
                is Some,
            spec_generate_rules(entries, index as int, string_literals@, name_overrides@) == Some(
                model(code@),
            ),
        decreases rules_count - index,
    {
        let (rule_name, rule) = match rules_get_index(&root.rules, index) {
            Some(entry) => entry,
            None => vstd::pervasive::unreached(),
        };
        let steps = rule_steps(&rule_name_overrides, rule_name, Ghost(name_overrides@));
        proof {
            assert(entries[index as int] == (*rule_name, *rule));
            if spec_generate_rules(entries, index + 1, string_literals@, name_overrides@) is None {
                lemma_generate_rules_stay_none(
                    entries,
                    index + 1,
                    entries.len() as int,
                    string_literals@,
                    name_overrides@,
                );
            }
        }
        let (rule_code, _) = get_struct_or_enum(
            rule,
            Some(rule_name.clone()),
            None,
            string_literals,
            steps.as_slice(),
        );
        push_all(&mut code, rule_code);
        index = index + 1;
    }
    code
}

/// Whether every override step is a `RuleName` step and every rule is
/// supported where it stands.
#[verifier::loop_isolation(false)]
fn rules_supported(
    root: &Root,
    string_literals: &StringHashMap<SnakeCaseName>,
    name_overrides: &[NameOverrideStep],
) -> (res: bool)
    ensures
        res == spec_generate(*root, string_literals@, name_overrides@) is Some,
{
    let rule_name_overrides = match rule_name_steps(name_overrides) {
        Some(steps) => steps,
        None => {
            return false;
        },
    };
    let ghost entries = rule_entries(root.rules);
    let rules_count = rules_len(&root.rules);
    let mut index: usize = 0;
    while index < rules_count
        invariant
            index <= rules_count,
            rules_count == entries.len(),
            entries == rule_entries(root.rules),
            spec_generate_rules(entries, index as int, string_literals@, name_overrides@) is Some,
        decreases rules_count - index,
    {
        let (rule_name, rule) = match rules_get_index(&root.rules, index) {
            Some(entry) => entry,
            None => vstd::pervasive::unreached(),
        };
        let steps = rule_steps(&rule_name_overrides, rule_name, Ghost(name_overrides@));
        assert(entries[index as int] == (*rule_name, *rule));
        if !struct_or_enum_supported(
            rule,
            true,
            string_literals,
            steps.as_slice(),
            Ghost(Some(rule_name@)),
            Ghost(Seq::<char>::empty()),
        ) {
            proof {
                lemma_generate_rules_stay_none(
                    entries,
                    index + 1,
                    entries.len() as int,
                    string_literals@,
                    name_overrides@,
                );
            }
            return false;
        }
        index = index + 1;
    }
    true
}

/// The code generated for a grammar: for each rule, in order, the struct or
/// enum definitions for it (see `spec_generate`). `language` is not used.
///
/// Inputs outside `requires` are refused: an override step that is not a
/// `RuleName` step, a kind of rule not supported where it stands, a string
/// literal missing from `string_literals`, and code in which some identifier
/// is empty or made of ASCII digits only. `can_generate` tells them apart,
/// and `try_generate` returns `None` for them. The rest of what makes a valid
/// Rust identifier (its Unicode character classes) is not checked here;
/// rendering the tokens through `proc_macro2` rejects such names.
pub fn generate(
    root: &Root,
    language: &str,
    string_literals: &StringHashMap<SnakeCaseName>,
    name_overrides: &[NameOverrideStep],
) -> (code: Vec<CodeToken>)
    requires
        spec_accepts(*root, string_literals@, name_overrides@),
    ensures
        spec_generate(*root, string_literals@, name_overrides@) == Some(model(code@)),
        idents_shape_ok(model(code@)),
{
    generate_code(root, string_literals, name_overrides)
}

/// The code generated for a grammar, as `generate` gives it, or `None` on
/// exactly the inputs that `generate` refuses.
pub fn try_generate(
    root: &Root,
    language: &str,
    string_literals: &StringHashMap<SnakeCaseName>,
    name_overrides: &[NameOverrideStep],
) -> (res: Option<Vec<CodeToken>>)
    ensures
        match res {
            Some(code) => spec_generate(*root, string_literals@, name_overrides@) == Some(
                model(code@),
            ) && spec_accepts(*root, string_literals@, name_overrides@),
            None => !spec_accepts(*root, string_literals@, name_overrides@),
        },
{
    if !rules_supported(root, string_literals, name_overrides) {
        return None;
    }
    let code = generate_code(root, string_literals, name_overrides);
    if tokens_have_ident_shape(&code) {
        Some(code)
    } else {
        None
    }
}

/// Whether `generate` accepts these inputs.
pub fn can_generate(
    root: &Root,
    string_literals: &StringHashMap<SnakeCaseName>,
    name_overrides: &[NameOverrideStep],
) -> (res: bool)
    ensures
        res == spec_accepts(*root, string_literals@, name_overrides@),
{
    try_generate(root, "", string_literals, name_overrides).is_some()
}

/// The struct generated for a `SEQ` has one field for each member, in order.
pub proof fn law_one_field_per_member(
    members: Seq<Rule>,
    n: int,
    struct_name: Seq<char>,
    string_literals: Map<Seq<char>, String>,
    overrides: Seq<NameOverrideStep>,
)
    requires
        0 <= n <= members.len(),
    ensures
        spec_struct_fields(members, n, struct_name, string_literals, overrides) matches Some(fields)
            ==> fields.len() == n && forall|i: int|
            0 <= i < n ==> Some(#[trigger] fields[i]) == spec_struct_field(
                members[i],
                struct_name,
                string_literals,
                spec_seq_member_steps(overrides, i),
            ),
    decreases n,
{
    if n > 0 {
        law_one_field_per_member(members, n - 1, struct_name, string_literals, overrides);
    }
}

/// The code for a grammar is the code for its rules but the last, followed by
/// the code for the last rule.
pub proof fn law_rules_generated_in_order(
    entries: Seq<(String, Rule)>,
    string_literals: Map<Seq<char>, String>,
    name_overrides: Seq<NameOverrideStep>,
)
    requires
        entries.len() > 0,
    ensures
        spec_generate_rules(entries, entries.len() as int, string_literals, name_overrides)
            matches Some(code) ==> {
            let (rule_name, rule) = entries.last();
            &&& spec_generate_rules(entries, entries.len() - 1, string_literals, name_overrides)
                matches Some(before)
            &&& spec_struct_or_enum(
                rule,
                Some(rule_name@),
                seq![],
                string_literals,
                spec_rule_steps(name_overrides, rule_name@),
            ) matches Some((last, _))
            &&& code == before + last
        },
{
}

/// A `FIELD` whose content is a `CHOICE` ignores the name and the steps it is
/// given: it generates what its content does, named after the field, with no
/// steps.
pub proof fn law_field_ignores_name_and_steps(
    field: Field,
    rule_name: Option<Seq<char>>,
    prefix: Seq<char>,
    string_literals: Map<Seq<char>, String>,
    overrides: Seq<NameOverrideStep>,
)
    requires
        *field.content is Choice,
    ensures
        spec_struct_or_enum(Rule::Field(field), rule_name, prefix, string_literals, overrides)
            == spec_struct_or_enum(*field.content, Some(field.name@), prefix, string_literals, seq![]),
{
}

/// A `PREC` rule in a `CHOICE` gives the same enum variant as its content.
pub proof fn law_prec_transparent_in_enum(
    prec: Prec,
    parent: Seq<char>,
    string_literals: Map<Seq<char>, String>,
)
    ensures
        spec_enum_variant(Rule::Prec(prec), parent, string_literals) == spec_enum_variant(
            *prec.content,
            parent,
            string_literals,
        ),
{
}

/// Some step of `overrides` is a `SeqMember` step for member `index`.
pub open spec fn has_seq_member_step(overrides: Seq<NameOverrideStep>, index: int) -> bool {
    exists|j: int|
        0 <= j < overrides.len() && (#[trigger] overrides[j]) is SeqMember
            && overrides[j]->SeqMember_0.index == index
}

proof fn lemma_seq_member_steps_push(
    overrides: Seq<NameOverrideStep>,
    extra: NameOverrideStep,
    index: int,
)
    requires
        !(extra is SeqMember && extra->SeqMember_0.index == index) || has_seq_member_step(
            overrides,
            index,
        ),
    ensures
        spec_seq_member_steps(overrides.push(extra), index) == spec_seq_member_steps(
            overrides,
            index,
        ),
    decreases overrides.len(),
{
    let pushed = overrides.push(extra);
    if overrides.len() == 0 {
        assert(!has_seq_member_step(overrides, index));
        assert(pushed.drop_first() =~= Seq::<NameOverrideStep>::empty());
        assert(spec_seq_member_steps(pushed.drop_first(), index) == Seq::<NameOverrideStep>::empty());
        assert(pushed[0] == extra);
        assert(spec_seq_member_steps(pushed, index) == Seq::<NameOverrideStep>::empty());
    } else {
        assert(pushed[0] == overrides[0]);
        assert(pushed.drop_first() =~= overrides.drop_first().push(extra));
        if !(overrides[0] is SeqMember && overrides[0]->SeqMember_0.index == index) {
            if has_seq_member_step(overrides, index) {
                let j = choose|j: int|
                    0 <= j < overrides.len() && (#[trigger] overrides[j]) is SeqMember
                        && overrides[j]->SeqMember_0.index == index;
                assert(overrides.drop_first()[j - 1] == overrides[j]);
                assert(has_seq_member_step(overrides.drop_first(), index));
            }
            lemma_seq_member_steps_push(overrides.drop_first(), extra, index);
        }
    }
}

proof fn lemma_struct_fields_same_steps(
    members: Seq<Rule>,
    n: int,
    struct_name: Seq<char>,
    string_literals: Map<Seq<char>, String>,
    overrides: Seq<NameOverrideStep>,
    other: Seq<NameOverrideStep>,
)
    requires
        forall|i: int|
            0 <= i < n ==> spec_seq_member_steps(overrides, i) == #[trigger] spec_seq_member_steps(
                other,
                i,
            ),
    ensures
        spec_struct_fields(members, n, struct_name, string_literals, overrides)
            == spec_struct_fields(members, n, struct_name, string_literals, other),
    decreases n,
{
    if 0 < n <= members.len() {
        lemma_struct_fields_same_steps(members, n - 1, struct_name, string_literals, overrides, other);
        assert(spec_seq_member_steps(overrides, n - 1) == spec_seq_member_steps(other, n - 1));
    }
}

/// Only the first `SeqMember` step for each member of a `SEQ` is used: adding
/// a step that is not a `SeqMember` step, one for an index past the last
/// member, or one for an index that already has a step changes nothing.
pub proof fn law_later_seq_member_steps_ignored(
    seq: Sequence,
    rule_name: Option<Seq<char>>,
    prefix: Seq<char>,
    string_literals: Map<Seq<char>, String>,
    overrides: Seq<NameOverrideStep>,
    extra: NameOverrideStep,
)
    requires
        !(extra is SeqMember) || extra->SeqMember_0.index >= seq.members@.len()
            || has_seq_member_step(overrides, extra->SeqMember_0.index as int),
    ensures
        spec_struct_or_enum(
            Rule::Sequence(seq),
            rule_name,
            prefix,
            string_literals,
            overrides.push(extra),
        ) == spec_struct_or_enum(Rule::Sequence(seq), rule_name, prefix, string_literals, overrides),
{
    let n = seq.members@.len() as int;
    assert forall|i: int| 0 <= i < n implies spec_seq_member_steps(overrides.push(extra), i)
        == #[trigger] spec_seq_member_steps(overrides, i) by {
        lemma_seq_member_steps_push(overrides, extra, i);
    }
    let name = match rule_name {
        Some(nm) => nm,
        None => pascal_case(spec_struct_field_name(Rule::Sequence(seq)).unwrap()),
    };
    lemma_struct_fields_same_steps(
        seq.members@,
        n,
        prefix + pascal_case(name),
        string_literals,
        overrides.push(extra),
        overrides,
    );
}

/// A `SEQ` member of a `CHOICE` becomes a variant named after the `SEQ`'s
/// first `SYMBOL` member (at the least index `k` holding one), whose payload is
/// the struct of that name with the enum's name in front.
pub proof fn law_seq_variant_named_after_first_symbol(
    seq: Sequence,
    k: int,
    parent: Seq<char>,
    string_literals: Map<Seq<char>, String>,
)
    requires
        0 <= k < seq.members@.len(),
        seq.members@[k] is Symbol,
        forall|j: int| 0 <= j < k ==> !(#[trigger] seq.members@[j] is Symbol),
    ensures
        spec_enum_variant(Rule::Sequence(seq), parent, string_literals) matches Some((variant, _))
            ==> {
            let name = pascal_case(
                pascal_case(spec_without_leading_underscore(seq.members@[k]->Symbol_0.name@)),
            );
            variant == seq![
                TokenModel::Ident(name),
                TokenModel::Open(Delimiter::Parenthesis),
                TokenModel::Ident(parent + name),
                TokenModel::Close(Delimiter::Parenthesis),
            ]
        },
{
    law_seq_field_name_is_first_symbol(seq, k);
    let field_name = spec_without_leading_underscore(seq.members@[k]->Symbol_0.name@);
    let name = pascal_case(pascal_case(field_name));
    assert((parent + name).skip(parent.len() as int) =~= name);
    let rule = Rule::Sequence(seq);
    assert(spec_struct_field_name(rule) == Some(field_name));
    if let Some((definition, struct_name)) = spec_struct_or_enum(
        rule,
        None,
        parent,
        string_literals,
        seq![],
    ) {
        assert(struct_name == parent + name);
    }
}

/// A `REPEAT` of a `SYMBOL` member, without steps, becomes `pub names: Vec<Name>`:
/// the field is the symbol's name without its leading underscore followed by
/// `s`, and its type the symbol's type.
pub proof fn law_repeat_member_is_vec_field(
    repeat: Repeat,
    parent: Seq<char>,
    string_literals: Map<Seq<char>, String>,
)
    requires
        *repeat.content is Symbol,
    ensures
        ({
            let name = spec_without_leading_underscore(repeat.content->Symbol_0.name@);
            spec_struct_field(Rule::Repeat(repeat), parent, string_literals, seq![]) == Some(
                (
                    seq![
                        TokenModel::Ident(seq!['p', 'u', 'b']),
                        TokenModel::Ident(name + seq!['s']),
                        TokenModel::Punct(':'),
                        TokenModel::Ident(seq!['V', 'e', 'c']),
                        TokenModel::Punct('<'),
                        TokenModel::Ident(pascal_case(name)),
                        TokenModel::Punct('>'),
                    ],
                    Seq::<TokenModel>::empty(),
                ),
            )
        }),
{
    let name = spec_without_leading_underscore(repeat.content->Symbol_0.name@);
    let ty = seq![TokenModel::Ident(pascal_case(name))];
    assert(spec_struct_field_name(*repeat.content) == Some(name));
    assert(spec_struct_field_name(Rule::Repeat(repeat)) == Some(name + seq!['s']));
    assert(spec_type(*repeat.content) == Some(ty));
    assert(spec_print_struct_field(name + seq!['s'], spec_generic(kw_vec(), ty)) =~= seq![
        TokenModel::Ident(seq!['p', 'u', 'b']),
        TokenModel::Ident(name + seq!['s']),
        TokenModel::Punct(':'),
        TokenModel::Ident(seq!['V', 'e', 'c']),
        TokenModel::Punct('<'),
        TokenModel::Ident(pascal_case(name)),
        TokenModel::Punct('>'),
    ]);
}

/// An optional member, a `CHOICE` of a `SYMBOL` and `BLANK` without steps,
/// becomes `pub name: Option<Name>`, with the field name that the `SYMBOL` alone
/// would get: its name without the leading underscore.
pub proof fn law_optional_member_is_option_field(
    choice: Choice,
    parent: Seq<char>,
    string_literals: Map<Seq<char>, String>,
)
    requires
        spec_is_option(choice),
        choice.members@[0] is Symbol,
    ensures
        ({
            let symbol = choice.members@[0];
            let name = spec_without_leading_underscore(symbol->Symbol_0.name@);
            &&& spec_struct_field(Rule::Choice(choice), parent, string_literals, seq![]) == Some(
                (
                    seq![
                        TokenModel::Ident(seq!['p', 'u', 'b']),
                        TokenModel::Ident(name),
                        TokenModel::Punct(':'),
                        TokenModel::Ident(seq!['O', 'p', 't', 'i', 'o', 'n']),
                        TokenModel::Punct('<'),
                        TokenModel::Ident(pascal_case(name)),
                        TokenModel::Punct('>'),
                    ],
                    Seq::<TokenModel>::empty(),
                ),
            )
            &&& spec_struct_field(symbol, parent, string_literals, seq![]) == Some(
                (
                    seq![
                        TokenModel::Ident(seq!['p', 'u', 'b']),
                        TokenModel::Ident(name),
                        TokenModel::Punct(':'),
                        TokenModel::Ident(pascal_case(name)),
                    ],
                    Seq::<TokenModel>::empty(),
                ),
            )
        }),
{
    let symbol = choice.members@[0];
    let name = spec_without_leading_underscore(symbol->Symbol_0.name@);
    let ty = seq![TokenModel::Ident(pascal_case(name))];
    assert(spec_print_struct_field(name, spec_generic(kw_option(), ty)) =~= seq![
        TokenModel::Ident(seq!['p', 'u', 'b']),
        TokenModel::Ident(name),
        TokenModel::Punct(':'),
        TokenModel::Ident(seq!['O', 'p', 't', 'i', 'o', 'n']),
        TokenModel::Punct('<'),
        TokenModel::Ident(pascal_case(name)),
        TokenModel::Punct('>'),
    ]);
    assert(spec_print_struct_field(name, ty) =~= seq![
        TokenModel::Ident(seq!['p', 'u', 'b']),
        TokenModel::Ident(name),
        TokenModel::Punct(':'),
        TokenModel::Ident(pascal_case(name)),
    ]);
}

/// A `SYMBOL` member becomes `pub name: Name`, the field named by the symbol
/// without its leading underscore and typed by that name in upper camel case;
/// in an enum it becomes the variant `Name(Name)`. A `SYMBOL` takes no steps.
pub proof fn law_symbol_member_is_field_and_variant(
    symbol: Symbol,
    parent: Seq<char>,
    string_literals: Map<Seq<char>, String>,
    overrides: Seq<NameOverrideStep>,
)
    ensures
        ({
            let name = spec_without_leading_underscore(symbol.name@);
            let ty_name = pascal_case(name);
            &&& spec_struct_field(Rule::Symbol(symbol), parent, string_literals, overrides) == if overrides.len() == 0 {
                Some(
                    (
                        seq![
                            TokenModel::Ident(seq!['p', 'u', 'b']),
                            TokenModel::Ident(name),
                            TokenModel::Punct(':'),
                            TokenModel::Ident(ty_name),
                        ],
                        Seq::<TokenModel>::empty(),
                    ),
                )
            } else {
                None
            }
            &&& spec_enum_variant(Rule::Symbol(symbol), parent, string_literals) == Some(
                (
                    seq![
                        TokenModel::Ident(ty_name),
                        TokenModel::Open(Delimiter::Parenthesis),
                        TokenModel::Ident(ty_name),
                        TokenModel::Close(Delimiter::Parenthesis),
                    ],
                    Seq::<TokenModel>::empty(),
                ),
            )
        }),
{
    let name = spec_without_leading_underscore(symbol.name@);
    assert(spec_print_struct_field(name, seq![TokenModel::Ident(pascal_case(name))]) =~= seq![
        TokenModel::Ident(seq!['p', 'u', 'b']),
        TokenModel::Ident(name),
        TokenModel::Punct(':'),
        TokenModel::Ident(pascal_case(name)),
    ]);
}

/// A `STRING` member becomes `pub name: Name`, where `name` is the name given
/// for its value among the string literals; a value without a name, or any
/// steps, and there is no field.
pub proof fn law_string_member_is_named_field(
    string: String_,
    parent: Seq<char>,
    string_literals: Map<Seq<char>, String>,
    overrides: Seq<NameOverrideStep>,
)
    ensures
        spec_struct_field(Rule::String(string), parent, string_literals, overrides) == if overrides.len()
            == 0 && string_literals.contains_key(string.value@) {
            let name = string_literals[string.value@]@;
            Some(
                (
                    seq![
                        TokenModel::Ident(seq!['p', 'u', 'b']),
                        TokenModel::Ident(name),
                        TokenModel::Punct(':'),
                        TokenModel::Ident(pascal_case(name)),
                    ],
                    Seq::<TokenModel>::empty(),
                ),
            )
        } else {
            None
        },
{
    if string_literals.contains_key(string.value@) {
        let name = string_literals[string.value@]@;
        assert(spec_print_struct_field(name, seq![TokenModel::Ident(pascal_case(name))]) =~= seq![
            TokenModel::Ident(seq!['p', 'u', 'b']),
            TokenModel::Ident(name),
            TokenModel::Punct(':'),
            TokenModel::Ident(pascal_case(name)),
        ]);
    }
}

/// A `CHOICE` member that is not optional, with the steps `Override(name)`
/// and then `rest`, becomes the field `pub name: ParentName` holding an enum
/// named by the parent struct's name followed by `name` in upper camel case,
/// defined with the steps `rest`.
pub proof fn law_choice_member_takes_override(
    choice: Choice,
    parent: Seq<char>,
    string_literals: Map<Seq<char>, String>,
    name: String,
    rest: Seq<NameOverrideStep>,
)
    requires
        !spec_is_option(choice),
    ensures
        ({
            let field = spec_struct_field(
                Rule::Choice(choice),
                parent,
                string_literals,
                seq![NameOverrideStep::Override(name)] + rest,
            );
            let enum_name = parent + pascal_case(name@);
            &&& field is Some <==> spec_struct_or_enum(
                Rule::Choice(choice),
                Some(name@),
                parent,
                string_literals,
                rest,
            ) is Some
            &&& field matches Some((tokens, definition)) ==> {
                &&& tokens == seq![
                    TokenModel::Ident(seq!['p', 'u', 'b']),
                    TokenModel::Ident(name@),
                    TokenModel::Punct(':'),
                    TokenModel::Ident(enum_name),
                ]
                &&& spec_struct_or_enum(
                    Rule::Choice(choice),
                    Some(name@),
                    parent,
                    string_literals,
                    rest,
                ) == Some((definition, enum_name))
            }
        }),
{
    let steps = seq![NameOverrideStep::Override(name)] + rest;
    assert(steps.drop_first() =~= rest);
    assert(steps[0] == NameOverrideStep::Override(name));
    let enum_name = parent + pascal_case(name@);
    assert(spec_print_struct_field(name@, seq![TokenModel::Ident(enum_name)]) =~= seq![
        TokenModel::Ident(seq!['p', 'u', 'b']),
        TokenModel::Ident(name@),
        TokenModel::Punct(':'),
        TokenModel::Ident(enum_name),
    ]);
}

} // verus!
