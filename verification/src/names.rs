//! Names of generated types and fields.
use crate::grammar_json::{Repeat, Rule, Sequence};
use vstd::prelude::*;

verus! {

/// `heck`'s upper-camel-case form of a name.
pub uninterp spec fn pascal_case(s: Seq<char>) -> Seq<char>;

/// `heck::ToPascalCase::to_pascal_case`: the name in upper camel case
/// (`foo_bar` becomes `FooBar`). The conversion itself is named, not stated.
#[verifier::external_body]
pub(crate) fn to_pascal_case(s: &str) -> (res: String)
    ensures
        res@ == pascal_case(s@),
{
    heck::ToPascalCase::to_pascal_case(s)
}

/// `name` without one leading underscore, if it has one.
pub open spec fn spec_without_leading_underscore(name: Seq<char>) -> Seq<char> {
    if name.len() > 0 && name[0] == '_' {
        name.drop_first()
    } else {
        name
    }
}

/// The plural of a field name: the name followed by `s`.
pub open spec fn spec_pluralize(name: Seq<char>) -> Seq<char> {
    name + seq!['s']
}

/// The field name of the first `SYMBOL` among `members`, if there is one.
pub open spec fn spec_first_symbol_name(members: Seq<Rule>) -> Option<Seq<char>>
    decreases members.len(),
{
    if members.len() == 0 {
        None
    } else {
        match members[0] {
            Rule::Symbol(s) => Some(spec_without_leading_underscore(s.name@)),
            _ => spec_first_symbol_name(members.drop_first()),
        }
    }
}

/// The name of the struct field that holds a rule; `None` for the kinds of
/// rule that have no such name.
pub open spec fn spec_struct_field_name(rule: Rule) -> Option<Seq<char>>
    decreases rule,
{
    match rule {
        Rule::Symbol(s) => Some(spec_without_leading_underscore(s.name@)),
        Rule::Repeat(r) => match spec_struct_field_name(*r.content) {
            Some(n) => Some(spec_pluralize(n)),
            None => None,
        },
        Rule::Sequence(s) => spec_first_symbol_name(s.members@),
        Rule::Field(f) => Some(f.name@),
        _ => None,
    }
}

/// `a` followed by `b`.
pub(crate) fn join_names(a: &str, b: &str) -> (res: String)
    ensures
        res@ == a@ + b@,
{
    let mut res = a.to_owned();
    res.append(b);
    res
}

/// `name` without one leading underscore: `_expression` becomes `expression`,
/// `__x` becomes `_x`, and a name that does not start with `_` is kept.
pub fn without_leading_underscore(name: &str) -> (res: String)
    ensures
        res@ == spec_without_leading_underscore(name@),
{
    let len = name.unicode_len();
    if len > 0 && name.get_char(0) == '_' {
        name.substring_char(1, len).to_owned()
    } else {
        name.to_owned()
    }
}

/// The plural of a field name: `name` followed by `s`.
pub fn pluralize(name: &str) -> (res: String)
    ensures
        res@ == spec_pluralize(name@),
{
    let res = join_names(name, "s");
    proof {
        reveal_strlit("s");
    }
    res
}

/// Whether some member of `members` is a `SYMBOL`.
pub(crate) fn has_symbol_member(members: &Vec<Rule>) -> (res: bool)
    ensures
        res == spec_first_symbol_name(members@) is Some,
{
    let mut i: usize = 0;
    assert(members@.skip(0) =~= members@);
    while i < members.len()
        invariant
            i <= members@.len(),
            spec_first_symbol_name(members@) == spec_first_symbol_name(members@.skip(i as int)),
        decreases members@.len() - i,
    {
        assert(members@.skip(i as int).drop_first() =~= members@.skip(i + 1));
        if let Rule::Symbol(_) = &members[i] {
            return true;
        }
        i = i + 1;
    }
    assert(members@.skip(i as int) =~= Seq::<Rule>::empty());
    false
}

/// The field name of the first `SYMBOL` among `members`, which must have one.
pub(crate) fn first_symbol_name(members: &Vec<Rule>) -> (res: String)
    requires
        spec_first_symbol_name(members@) is Some,
    ensures
        spec_first_symbol_name(members@) == Some(res@),
{
    let mut i: usize = 0;
    assert(members@.skip(0) =~= members@);
    while i < members.len()
        invariant
            i <= members@.len(),
            spec_first_symbol_name(members@) is Some,
            spec_first_symbol_name(members@) == spec_first_symbol_name(members@.skip(i as int)),
        decreases members@.len() - i,
    {
        assert(members@.skip(i as int).drop_first() =~= members@.skip(i + 1));
        if let Rule::Symbol(symbol) = &members[i] {
            return without_leading_underscore(symbol.name.as_str());
        }
        i = i + 1;
    }
    assert(members@.skip(i as int) =~= Seq::<Rule>::empty());
    vstd::pervasive::unreached()
}

/// Whether `rule` has a struct field name: a `SYMBOL`, a `REPEAT` of a rule
/// that has one, a `SEQ` with a `SYMBOL` member, or a `FIELD`.
pub(crate) fn has_struct_field_name(rule: &Rule) -> (res: bool)
    ensures
        res == spec_struct_field_name(*rule) is Some,
    decreases rule,
{
    match rule {
        Rule::Symbol(_) => true,
        Rule::Repeat(repeat) => has_struct_field_name(&repeat.content),
        Rule::Sequence(seq) => has_symbol_member(&seq.members),
        Rule::Field(_) => true,
        _ => false,
    }
}

/// The name of the struct field that holds `rule`: a `SYMBOL`'s name without
/// its leading underscore, the plural of a `REPEAT`'s content's name, the name
/// of a `SEQ`'s first `SYMBOL`, or a `FIELD`'s name. Other rules have none.
pub(crate) fn get_struct_field_name(rule: &Rule) -> (res: String)
    requires
        spec_struct_field_name(*rule) is Some,
    ensures
        spec_struct_field_name(*rule) == Some(res@),
    decreases rule,
{
    match rule {
        Rule::Symbol(symbol) => without_leading_underscore(symbol.name.as_str()),
        Rule::Repeat(repeat) => pluralize(get_struct_field_name(&repeat.content).as_str()),
        Rule::Sequence(seq) => first_symbol_name(&seq.members),
        Rule::Field(field) => field.name.clone(),
        _ => vstd::pervasive::unreached(),
    }
}

/// Removing the leading underscore undoes adding one, and a name that does not
/// start with an underscore is kept as it is.
pub proof fn law_without_leading_underscore_undoes_one(name: Seq<char>)
    ensures
        spec_without_leading_underscore(seq!['_'] + name) == name,
        (name.len() == 0 || name[0] != '_') ==> spec_without_leading_underscore(name) == name,
{
    assert((seq!['_'] + name).drop_first() =~= name);
}

/// The field name of a list of members is that of its first `SYMBOL`: the
/// member at the least index `k` that is a `SYMBOL`, without its leading
/// underscore, whatever follows it.
pub proof fn law_first_symbol_name_is_first(members: Seq<Rule>, k: int)
    requires
        0 <= k < members.len(),
        members[k] is Symbol,
        forall|j: int| 0 <= j < k ==> !(#[trigger] members[j] is Symbol),
    ensures
        spec_first_symbol_name(members) == Some(
            spec_without_leading_underscore(members[k]->Symbol_0.name@),
        ),
        spec_first_symbol_name(members) == spec_first_symbol_name(members.take(k + 1)),
    decreases k,
{
    if k > 0 {
        let rest = members.drop_first();
        assert forall|j: int| 0 <= j < k - 1 implies !(#[trigger] rest[j] is Symbol) by {
            assert(rest[j] == members[j + 1]);
        }
        law_first_symbol_name_is_first(rest, k - 1);
        assert(rest[k - 1] == members[k]);
        assert(members.take(k + 1).drop_first() =~= rest.take(k));
    }
}

/// Members without a `SYMBOL` give no field name.
pub proof fn law_first_symbol_name_none(members: Seq<Rule>)
    requires
        forall|j: int| 0 <= j < members.len() ==> !(#[trigger] members[j] is Symbol),
    ensures
        spec_first_symbol_name(members) is None,
    decreases members.len(),
{
    if members.len() > 0 {
        let rest = members.drop_first();
        assert forall|j: int| 0 <= j < rest.len() implies !(#[trigger] rest[j] is Symbol) by {
            assert(rest[j] == members[j + 1]);
        }
        law_first_symbol_name_none(rest);
    }
}

/// A `SEQ` is named after its first `SYMBOL` member (the one at the least
/// index `k`), without that symbol's leading underscore.
pub proof fn law_seq_field_name_is_first_symbol(s: Sequence, k: int)
    requires
        0 <= k < s.members@.len(),
        s.members@[k] is Symbol,
        forall|j: int| 0 <= j < k ==> !(#[trigger] s.members@[j] is Symbol),
    ensures
        spec_struct_field_name(Rule::Sequence(s)) == Some(
            spec_without_leading_underscore(s.members@[k]->Symbol_0.name@),
        ),
{
    law_first_symbol_name_is_first(s.members@, k);
}

/// The field of a `REPEAT` is named by the plural (a trailing `s`) of its
/// content's own field name, and a `REPEAT` whose content has none has none.
pub proof fn law_repeat_field_name_is_plural(r: Repeat)
    ensures
        spec_struct_field_name(Rule::Repeat(r)) == match spec_struct_field_name(*r.content) {
            Some(n) => Some(n + seq!['s']),
            None => None::<Seq<char>>,
        },
{
}

/// The `REPEAT` of a `SYMBOL` named `_` followed by `name` holds a field named
/// `name` followed by `s`: the leading underscore is dropped, like that of a
/// plain `SYMBOL`.
pub proof fn law_repeat_of_symbol_drops_underscore(r: Repeat, name: Seq<char>)
    requires
        *r.content is Symbol,
        r.content->Symbol_0.name@ == seq!['_'] + name,
    ensures
        spec_struct_field_name(Rule::Repeat(r)) == Some(name + seq!['s']),
        spec_struct_field_name(*r.content) == Some(name),
{
    assert((seq!['_'] + name).drop_first() =~= name);
}

} // verus!
