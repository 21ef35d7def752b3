//! Turns a tree-sitter `grammar.json` into Rust struct and enum definitions.
//!
//! The grammar is held as [`Root`]; [`generate`] walks its rules in order and
//! produces the definitions as a flat sequence of [`CodeToken`]s, which a
//! caller renders through `proc_macro2`.
mod definitions;
mod error;
mod generate;
mod grammar_json;
mod names;
mod nesting;
mod overrides;
mod tokens;

pub use vstd::hash_map::StringHashMap;

pub use definitions::{
    firsts, spec_accepts, kw_enum, kw_option, kw_pub, kw_struct, kw_vec, seconds, spec_enum_variant,
    spec_enum_variants, spec_field_type, spec_generate, spec_generate_rules, spec_generic,
    spec_is_option, spec_print_enum, spec_print_struct, spec_print_struct_field,
    spec_struct_field, spec_struct_fields, spec_struct_or_enum, spec_tuple_variant, spec_type,
};
pub use error::{spec_error_message, Error};
pub use generate::{
    can_generate, generate, get_enum_variant_and_struct_or_enum, get_struct_or_enum,
    has_seq_member_step, is_option, law_field_ignores_name_and_steps,
    law_generated_name_has_prefix, law_later_seq_member_steps_ignored, law_one_field_per_member,
    law_choice_member_takes_override, law_optional_member_is_option_field,
    law_prec_transparent_in_enum, law_repeat_member_is_vec_field, law_rules_generated_in_order,
    law_seq_variant_named_after_first_symbol, law_string_member_is_named_field,
    law_symbol_member_is_field_and_variant, optional_name, optional_prefix, try_generate, zip_models,
    SnakeCaseName,
};
pub use grammar_json::{
    rule_entries, Alias, Choice, Field, ImmediateToken, Pattern, Prec, PrecLeft, PrecRight,
    Precision, Repeat, Repeat1, Root, Rule, Sequence, String_, Symbol, Token,
};
pub use names::{
    law_first_symbol_name_is_first, law_first_symbol_name_none, law_repeat_field_name_is_plural,
    law_repeat_of_symbol_drops_underscore, law_seq_field_name_is_first_symbol,
    law_without_leading_underscore_undoes_one, pascal_case, pluralize, spec_first_symbol_name,
    spec_pluralize, spec_struct_field_name, spec_without_leading_underscore,
    without_leading_underscore,
};
pub use nesting::law_generated_code_is_balanced;
pub use overrides::{
    law_overrides_of_other_rules_ignored, law_rule_name_step_round_trip, law_rule_steps_appends,
    law_rule_steps_empty, law_seq_member_steps_first_match, law_seq_member_steps_none,
    law_seq_member_steps_skip_other, refs_model, same_step,
    same_steps, spec_all_rule_names, spec_rule_steps, spec_seq_member_steps, NameOverrideStep,
    NameOverrideStepChoiceMember, NameOverrideStepRuleName, NameOverrideStepSeqMember, RuleName,
};
pub use tokens::{
    balanced, bracket_free, comma_separated, concat_parts, ident_shape_ok, idents_shape_ok,
    is_ascii_digit, model, name_has_ident_shape, open_groups_after, CodeToken, Delimiter, TokenModel,
};
