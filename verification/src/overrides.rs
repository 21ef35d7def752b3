//! Name overrides: paths of steps, from a rule down through `SEQ` and
//! `CHOICE` members, to the name a generated struct field or enum should get.
use vstd::prelude::*;

verus! {

/// The name of a grammar rule.
pub type RuleName = String;

/// One step of a path that overrides a generated name.
///
/// A path starts at a rule (`RuleName`), may go into members of `SEQ` and
/// `CHOICE` rules, and ends with the name to use (`Override`).
pub enum NameOverrideStep {
    RuleName(NameOverrideStepRuleName),
    SeqMember(NameOverrideStepSeqMember),
    ChoiceMember(NameOverrideStepChoiceMember),
    Override(String),
}

pub struct NameOverrideStepRuleName {
    pub rule_name: String,
    pub steps: Vec<NameOverrideStep>,
}

pub struct NameOverrideStepSeqMember {
    pub index: usize,
    pub steps: Vec<NameOverrideStep>,
}

pub struct NameOverrideStepChoiceMember {
    pub index: usize,
    pub steps: Vec<NameOverrideStep>,
}

/// `a` and `b` hold the same steps: same kinds, names and indices, and the
/// same steps below them.
pub open spec fn same_step(a: NameOverrideStep, b: NameOverrideStep) -> bool
    decreases a,
{
    match (a, b) {
        (NameOverrideStep::RuleName(x), NameOverrideStep::RuleName(y)) => x.rule_name@
            == y.rule_name@ && same_steps(x.steps@, y.steps@),
        (NameOverrideStep::SeqMember(x), NameOverrideStep::SeqMember(y)) => x.index == y.index
            && same_steps(x.steps@, y.steps@),
        (NameOverrideStep::ChoiceMember(x), NameOverrideStep::ChoiceMember(y)) => x.index
            == y.index && same_steps(x.steps@, y.steps@),
        (NameOverrideStep::Override(x), NameOverrideStep::Override(y)) => x@ == y@,
        _ => false,
    }
}

/// `a` and `b` hold the same steps, in the same order.
pub open spec fn same_steps(a: Seq<NameOverrideStep>, b: Seq<NameOverrideStep>) -> bool
    decreases a,
{
    a.len() == b.len() && forall|i: int| 0 <= i < a.len() ==> same_step(#[trigger] a[i], b[i])
}

impl Clone for NameOverrideStep {
    /// A copy holding the same steps.
    fn clone(&self) -> (res: Self)
        ensures
            same_step(*self, res),
        decreases self,
    {
        match self {
            NameOverrideStep::RuleName(r) => NameOverrideStep::RuleName(r.clone()),
            NameOverrideStep::SeqMember(m) => NameOverrideStep::SeqMember(m.clone()),
            NameOverrideStep::ChoiceMember(m) => NameOverrideStep::ChoiceMember(m.clone()),
            NameOverrideStep::Override(s) => NameOverrideStep::Override(s.clone()),
        }
    }
}

impl Clone for NameOverrideStepRuleName {
    /// A copy with the same rule name and steps.
    fn clone(&self) -> (res: Self)
        ensures
            res.rule_name@ == self.rule_name@,
            same_steps(self.steps@, res.steps@),
        decreases self,
    {
        NameOverrideStepRuleName { rule_name: self.rule_name.clone(), steps: clone_steps(&self.steps) }
    }
}

impl Clone for NameOverrideStepSeqMember {
    /// A copy with the same index and steps.
    fn clone(&self) -> (res: Self)
        ensures
            res.index == self.index,
            same_steps(self.steps@, res.steps@),
        decreases self,
    {
        NameOverrideStepSeqMember { index: self.index, steps: clone_steps(&self.steps) }
    }
}

impl Clone for NameOverrideStepChoiceMember {
    /// A copy with the same index and steps.
    fn clone(&self) -> (res: Self)
        ensures
            res.index == self.index,
            same_steps(self.steps@, res.steps@),
        decreases self,
    {
        NameOverrideStepChoiceMember { index: self.index, steps: clone_steps(&self.steps) }
    }
}

/// Copies of `steps`, in order.
fn clone_steps(steps: &Vec<NameOverrideStep>) -> (res: Vec<NameOverrideStep>)
    ensures
        same_steps(steps@, res@),
    decreases steps,
{
    let mut res: Vec<NameOverrideStep> = Vec::new();
    let mut i: usize = 0;
    while i < steps.len()
        invariant
            i <= steps@.len(),
            res@.len() == i,
            forall|k: int| 0 <= k < i ==> same_step(#[trigger] steps@[k], res@[k]),
        decreases steps@.len() - i,
    {
        res.push(steps[i].clone());
        i = i + 1;
    }
    res
}

/// The steps that follow the first `SeqMember` step for member `index`, or no
/// steps if there is none.
pub open spec fn spec_seq_member_steps(overrides: Seq<NameOverrideStep>, index: int) -> Seq<
    NameOverrideStep,
>
    decreases overrides.len(),
{
    if overrides.len() == 0 {
        seq![]
    } else if overrides[0] is SeqMember && overrides[0]->SeqMember_0.index == index {
        overrides[0]->SeqMember_0.steps@
    } else {
        spec_seq_member_steps(overrides.drop_first(), index)
    }
}

impl NameOverrideStep {
    /// The `RuleName` step held here; only a `RuleName` step has one.
    pub fn as_rule_name(&self) -> (res: &NameOverrideStepRuleName)
        requires
            *self is RuleName,
        ensures
            *res == self->RuleName_0,
    {
        match self {
            NameOverrideStep::RuleName(rule_name) => rule_name,
            _ => vstd::pervasive::unreached(),
        }
    }

    /// The overriding name held here; only an `Override` step has one.
    pub fn as_override(&self) -> (res: &str)
        requires
            *self is Override,
        ensures
            res@ == self->Override_0@,
    {
        match self {
            NameOverrideStep::Override(override_) => override_.as_str(),
            _ => vstd::pervasive::unreached(),
        }
    }
}

impl From<NameOverrideStepRuleName> for NameOverrideStep {
    fn from(value: NameOverrideStepRuleName) -> (res: Self) {
        NameOverrideStep::RuleName(value)
    }
}

impl vstd::std_specs::convert::FromSpecImpl<NameOverrideStepRuleName> for NameOverrideStep {
    open spec fn obeys_from_spec() -> bool {
        true
    }

    open spec fn from_spec(value: NameOverrideStepRuleName) -> Self {
        NameOverrideStep::RuleName(value)
    }
}

impl From<NameOverrideStepSeqMember> for NameOverrideStep {
    fn from(value: NameOverrideStepSeqMember) -> (res: Self) {
        NameOverrideStep::SeqMember(value)
    }
}

impl vstd::std_specs::convert::FromSpecImpl<NameOverrideStepSeqMember> for NameOverrideStep {
    open spec fn obeys_from_spec() -> bool {
        true
    }

    open spec fn from_spec(value: NameOverrideStepSeqMember) -> Self {
        NameOverrideStep::SeqMember(value)
    }
}

impl From<NameOverrideStepChoiceMember> for NameOverrideStep {
    fn from(value: NameOverrideStepChoiceMember) -> (res: Self) {
        NameOverrideStep::ChoiceMember(value)
    }
}

impl vstd::std_specs::convert::FromSpecImpl<NameOverrideStepChoiceMember> for NameOverrideStep {
    open spec fn obeys_from_spec() -> bool {
        true
    }

    open spec fn from_spec(value: NameOverrideStepChoiceMember) -> Self {
        NameOverrideStep::ChoiceMember(value)
    }
}

/// The steps that `refs` point to.
pub open spec fn refs_model(refs: Seq<&NameOverrideStep>) -> Seq<NameOverrideStep> {
    Seq::new(refs.len(), |i: int| *refs[i])
}

/// References to the steps of `steps` from position `start` on.
pub(crate) fn step_refs(steps: &[NameOverrideStep], start: usize) -> (res: Vec<&NameOverrideStep>)
    requires
        start <= steps@.len(),
    ensures
        refs_model(res@) == steps@.skip(start as int),
{
    let mut res: Vec<&NameOverrideStep> = Vec::new();
    let mut i: usize = start;
    while i < steps.len()
        invariant
            start <= i <= steps@.len(),
            refs_model(res@) == steps@.subrange(start as int, i as int),
        decreases steps@.len() - i,
    {
        let ghost prev = res@;
        let r = &steps[i];
        res.push(r);
        proof {
            assert(res@ == prev.push(r));
            assert(*r == steps@[i as int]);
            assert(refs_model(res@) =~= refs_model(prev).push(steps@[i as int]));
            assert(steps@.subrange(start as int, i + 1) =~= steps@.subrange(start as int, i as int).push(steps@[i as int]));
        }
        i = i + 1;
    }
    assert(steps@.subrange(start as int, steps@.len() as int) =~= steps@.skip(start as int));
    res
}

/// The steps of the first `SeqMember` step for member `index`, if there is one.
pub(crate) fn find_seq_member_steps<'a>(name_overrides: &[&'a NameOverrideStep], index: usize) -> (res:
    Option<&'a Vec<NameOverrideStep>>)
    ensures
        match res {
            Some(steps) => steps@ == spec_seq_member_steps(
                refs_model(name_overrides@),
                index as int,
            ),
            None => spec_seq_member_steps(refs_model(name_overrides@), index as int) == Seq::<
                NameOverrideStep,
            >::empty(),
        },
{
    let ghost all = refs_model(name_overrides@);
    let mut i: usize = 0;
    assert(all.skip(0) =~= all);
    while i < name_overrides.len()
        invariant
            i <= name_overrides@.len(),
            all == refs_model(name_overrides@),
            spec_seq_member_steps(all, index as int) == spec_seq_member_steps(
                all.skip(i as int),
                index as int,
            ),
        decreases name_overrides@.len() - i,
    {
        assert(all.skip(i as int).drop_first() =~= all.skip(i + 1));
        assert(all.skip(i as int)[0] == *name_overrides@[i as int]);
        match name_overrides[i] {
            NameOverrideStep::SeqMember(seq_member) => {
                if seq_member.index == index {
                    return Some(&seq_member.steps);
                }
            },
            _ => {},
        }
        i = i + 1;
    }
    None
}

/// Every step is a `RuleName` step.
pub open spec fn spec_all_rule_names(name_overrides: Seq<NameOverrideStep>) -> bool {
    forall|i: int| 0 <= i < name_overrides.len() ==> (#[trigger] name_overrides[i]) is RuleName
}

/// The steps of all `RuleName` steps for `rule_name`, in order, one after the other.
pub open spec fn spec_rule_steps(name_overrides: Seq<NameOverrideStep>, rule_name: Seq<char>) -> Seq<
    NameOverrideStep,
>
    decreases name_overrides.len(),
{
    if name_overrides.len() == 0 {
        seq![]
    } else {
        let last = name_overrides.last();
        spec_rule_steps(name_overrides.drop_last(), rule_name) + if last is RuleName
            && last->RuleName_0.rule_name@ == rule_name {
            last->RuleName_0.steps@
        } else {
            seq![]
        }
    }
}

/// References to the steps of every override (each a `RuleName` step) whose
/// rule name is `rule_name`, in order.
pub(crate) fn rule_steps<'a>(
    rule_name_overrides: &Vec<&'a NameOverrideStepRuleName>,
    rule_name: &String,
    name_overrides: Ghost<Seq<NameOverrideStep>>,
) -> (res: Vec<&'a NameOverrideStep>)
    requires
        rule_name_overrides@.len() == name_overrides@.len(),
        forall|i: int|
            0 <= i < name_overrides@.len() ==> (#[trigger] name_overrides@[i]) is RuleName
                && name_overrides@[i]->RuleName_0 == *rule_name_overrides@[i],
    ensures
        refs_model(res@) == spec_rule_steps(name_overrides@, rule_name@),
{
    let mut res: Vec<&'a NameOverrideStep> = Vec::new();
    let mut i: usize = 0;
    while i < rule_name_overrides.len()
        invariant
            i <= rule_name_overrides@.len(),
            rule_name_overrides@.len() == name_overrides@.len(),
            forall|k: int|
                0 <= k < name_overrides@.len() ==> (#[trigger] name_overrides@[k]) is RuleName
                    && name_overrides@[k]->RuleName_0 == *rule_name_overrides@[k],
            refs_model(res@) == spec_rule_steps(name_overrides@.take(i as int), rule_name@),
        decreases rule_name_overrides@.len() - i,
    {
        let name_override: &'a NameOverrideStepRuleName = rule_name_overrides[i];
        let ghost before = refs_model(res@);
        if name_override.rule_name == *rule_name {
            let mut j: usize = 0;
            while j < name_override.steps.len()
                invariant
                    j <= name_override.steps@.len(),
                    refs_model(res@) == before + name_override.steps@.take(j as int),
                decreases name_override.steps@.len() - j,
            {
                let step: &'a NameOverrideStep = &name_override.steps[j];
                let ghost prev = res@;
                res.push(step);
                proof {
                    assert(refs_model(res@) =~= refs_model(prev).push(name_override.steps@[j as int]));
                    assert(name_override.steps@.take(j + 1) =~= name_override.steps@.take(j as int).push(name_override.steps@[j as int]));
                }
                j = j + 1;
            }
            assert(name_override.steps@.take(name_override.steps@.len() as int) =~= name_override.steps@);
        }
        proof {
            let taken = name_overrides@.take(i + 1);
            assert(taken.drop_last() =~= name_overrides@.take(i as int));
            assert(taken.last() == name_overrides@[i as int]);
            assert(refs_model(res@) =~= spec_rule_steps(taken, rule_name@));
        }
        i = i + 1;
    }
    assert(name_overrides@.take(name_overrides@.len() as int) =~= name_overrides@);
    res
}

/// A `RuleName` step made with `From` gives back, through `as_rule_name`,
/// the value it was made from.
pub proof fn law_rule_name_step_round_trip(value: NameOverrideStepRuleName)
    ensures
        <NameOverrideStep as vstd::std_specs::convert::FromSpec<
            NameOverrideStepRuleName,
        >>::from_spec(value) is RuleName,
        <NameOverrideStep as vstd::std_specs::convert::FromSpec<
            NameOverrideStepRuleName,
        >>::from_spec(value)->RuleName_0 == value,
{
}

/// Overrides for other rules do not change the steps given to a rule.
pub proof fn law_overrides_of_other_rules_ignored(
    name_overrides: Seq<NameOverrideStep>,
    other: NameOverrideStepRuleName,
    rule_name: Seq<char>,
)
    requires
        other.rule_name@ != rule_name,
    ensures
        spec_rule_steps(name_overrides.push(NameOverrideStep::RuleName(other)), rule_name)
            == spec_rule_steps(name_overrides, rule_name),
{
    let pushed = name_overrides.push(NameOverrideStep::RuleName(other));
    assert(pushed.drop_last() =~= name_overrides);
    assert(spec_rule_steps(name_overrides, rule_name) + Seq::<NameOverrideStep>::empty()
        =~= spec_rule_steps(name_overrides, rule_name));
}

/// No overrides give a rule no steps.
pub proof fn law_rule_steps_empty(rule_name: Seq<char>)
    ensures
        spec_rule_steps(seq![], rule_name) == Seq::<NameOverrideStep>::empty(),
{
}

/// A further `RuleName` override for a rule adds its steps after those of the
/// earlier ones: it does not replace them.
pub proof fn law_rule_steps_appends(
    name_overrides: Seq<NameOverrideStep>,
    rule_name_override: NameOverrideStepRuleName,
)
    ensures
        spec_rule_steps(
            name_overrides.push(NameOverrideStep::RuleName(rule_name_override)),
            rule_name_override.rule_name@,
        ) == spec_rule_steps(name_overrides, rule_name_override.rule_name@)
            + rule_name_override.steps@,
{
    let pushed = name_overrides.push(NameOverrideStep::RuleName(rule_name_override));
    assert(pushed.drop_last() =~= name_overrides);
}

/// The steps for member `index` are those of the first `SeqMember` step for
/// that index, at position `k`: steps before it for other members, or of other
/// kinds, are passed over, and steps after it do not count.
pub proof fn law_seq_member_steps_first_match(overrides: Seq<NameOverrideStep>, index: int, k: int)
    requires
        0 <= k < overrides.len(),
        overrides[k] is SeqMember,
        overrides[k]->SeqMember_0.index == index,
        forall|j: int|
            0 <= j < k ==> !(#[trigger] overrides[j] is SeqMember && overrides[j]->SeqMember_0.index
                == index),
    ensures
        spec_seq_member_steps(overrides, index) == overrides[k]->SeqMember_0.steps@,
    decreases k,
{
    if k > 0 {
        let rest = overrides.drop_first();
        assert forall|j: int| 0 <= j < k - 1 implies !(#[trigger] rest[j] is SeqMember
            && rest[j]->SeqMember_0.index == index) by {
            assert(rest[j] == overrides[j + 1]);
        }
        assert(!(overrides[0] is SeqMember && overrides[0]->SeqMember_0.index == index));
        law_seq_member_steps_first_match(rest, index, k - 1);
        assert(rest[k - 1] == overrides[k]);
    }
}

/// Without a `SeqMember` step for member `index`, that member has no steps.
pub proof fn law_seq_member_steps_none(overrides: Seq<NameOverrideStep>, index: int)
    requires
        forall|j: int|
            0 <= j < overrides.len() ==> !(#[trigger] overrides[j] is SeqMember
                && overrides[j]->SeqMember_0.index == index),
    ensures
        spec_seq_member_steps(overrides, index) == Seq::<NameOverrideStep>::empty(),
    decreases overrides.len(),
{
    if overrides.len() > 0 {
        let rest = overrides.drop_first();
        assert forall|j: int| 0 <= j < rest.len() implies !(#[trigger] rest[j] is SeqMember
            && rest[j]->SeqMember_0.index == index) by {
            assert(rest[j] == overrides[j + 1]);
        }
        assert(!(overrides[0] is SeqMember && overrides[0]->SeqMember_0.index == index));
        law_seq_member_steps_none(rest, index);
    }
}

/// A `SeqMember` step for another member is passed over.
pub proof fn law_seq_member_steps_skip_other(
    member: NameOverrideStepSeqMember,
    overrides: Seq<NameOverrideStep>,
    index: int,
)
    requires
        member.index != index,
    ensures
        spec_seq_member_steps(seq![NameOverrideStep::SeqMember(member)] + overrides, index)
            == spec_seq_member_steps(overrides, index),
{
    assert((seq![NameOverrideStep::SeqMember(member)] + overrides).drop_first() =~= overrides);
}

} // verus!
