use indexmap::IndexMap;
use vstd::prelude::*;

verus! {

/// A `grammar.json` document: its rules, by name, in the order they appear.
#[derive(Debug)]
pub struct Root {
    pub rules: IndexMap<String, Rule>,
}

#[verifier::external_type_specification]
#[verifier::external_body]
#[verifier::reject_recursive_types(K)]
#[verifier::reject_recursive_types(V)]
#[verifier::reject_recursive_types(S)]
pub struct ExIndexMap<K, V, S>(IndexMap<K, V, S>);

/// The entries of a rule map, in insertion order.
pub uninterp spec fn rule_entries(rules: IndexMap<String, Rule>) -> Seq<(String, Rule)>;

/// Number of entries, by `IndexMap::len`.
#[verifier::external_body]
pub(crate) fn rules_len(rules: &IndexMap<String, Rule>) -> (n: usize)
    ensures
        n == rule_entries(*rules).len(),
{
    rules.len()
}

/// The entry at position `index`, by `IndexMap::get_index`: the key and value
/// at that position in insertion order, or `None` past the end.
#[verifier::external_body]
pub(crate) fn rules_get_index(rules: &IndexMap<String, Rule>, index: usize) -> (entry: Option<
    (&String, &Rule),
>)
    ensures
        index < rule_entries(*rules).len() ==> entry == Some(
            (&rule_entries(*rules)[index as int].0, &rule_entries(*rules)[index as int].1),
        ),
        index >= rule_entries(*rules).len() ==> entry is None,
{
    rules.get_index(index)
}

/// One rule of a grammar; the variant is the rule's `type`.
#[derive(Debug)]
pub enum Rule {
    Prec(Prec),
    Sequence(Sequence),
    String(String_),
    Blank,
    Choice(Choice),
    Repeat(Repeat),
    Symbol(Symbol),
    Field(Field),
    Pattern(Pattern),
    Alias(Alias),
    PrecRight(PrecRight),
    Repeat1(Repeat1),
    PrecLeft(PrecLeft),
    Token(Token),
    ImmediateToken(ImmediateToken),
}

impl Rule {
    /// Whether this is the `BLANK` rule.
    pub fn is_blank(&self) -> (res: bool)
        ensures
            res == (*self is Blank),
    {
        match self {
            Rule::Blank => true,
            _ => false,
        }
    }

    /// The `FIELD` rule held here; only a `FIELD` rule has one.
    pub fn as_field(&self) -> (res: &Field)
        requires
            *self is Field,
        ensures
            *res == self->Field_0,
    {
        match self {
            Rule::Field(field) => field,
            _ => vstd::pervasive::unreached(),
        }
    }
}

/// Precedence value of a `PREC`, `PREC_LEFT` or `PREC_RIGHT` rule.
pub type Precision = i32;

#[derive(Debug)]
pub struct Prec {
    pub value: Precision,
    pub content: Box<Rule>,
}

/// A `SEQ` rule: its members in order.
#[derive(Debug)]
pub struct Sequence {
    pub members: Vec<Rule>,
}

#[derive(Debug)]
pub struct Choice {
    pub members: Vec<Rule>,
}

#[derive(Debug)]
pub struct Repeat {
    pub content: Box<Rule>,
}

#[derive(Debug)]
pub struct Symbol {
    pub name: String,
}

#[derive(Debug)]
pub struct String_ {
    pub value: String,
}

#[derive(Debug)]
pub struct Field {
    pub name: String,
    pub content: Box<Rule>,
}

#[derive(Debug)]
pub struct Pattern {
    pub value: String,
}

#[derive(Debug)]
pub struct Alias {
    pub content: Box<Rule>,
    pub named: bool,
    pub value: String,
}

#[derive(Debug)]
pub struct PrecRight {
    pub value: Precision,
    pub content: Box<Rule>,
}

#[derive(Debug)]
pub struct Repeat1 {
    pub content: Box<Rule>,
}

#[derive(Debug)]
pub struct PrecLeft {
    pub value: Precision,
    pub content: Box<Rule>,
}

#[derive(Debug)]
pub struct Token {
    pub content: Box<Rule>,
}

#[derive(Debug)]
pub struct ImmediateToken {
    pub content: Box<Rule>,
}

} // verus!
