//! What a model makes of a message: choices with their probabilities, checked
//! and summed up. A probability is held by the bits of its IEEE double.

use vstd::prelude::*;

use crate::text::{
    before, join_texts, joined, lemma_text_order_is_total, lemma_text_order_is_transitive, listed,
    same, shown, text_before, texts,
};

verus! {

/// Whether the bits are those of a double from 0 to 1: zero, of either sign, or
/// a positive double up to one.
pub open spec fn is_probability(bits: u64) -> bool {
    bits <= 0x3ff0_0000_0000_0000 || bits == 0x8000_0000_0000_0000
}

/// Whether entries are in the order of their names, no name twice.
pub open spec fn in_name_order(entries: Seq<(Seq<char>, u64)>) -> bool {
    forall|i: int, j: int|
        0 <= i < j < entries.len() ==> text_before(#[trigger] entries[i].0, #[trigger] entries[j].0)
}

/// Entries in the order of their names, with one more: in the place of the entry
/// with its name, or where its name belongs.
pub open spec fn with_entry(entries: Seq<(Seq<char>, u64)>, name: Seq<char>, value: u64) -> Seq<
    (Seq<char>, u64),
>
    decreases entries.len(),
{
    if entries.len() == 0 {
        seq![(name, value)]
    } else if entries[0].0 == name {
        seq![(name, value)] + entries.drop_first()
    } else if text_before(name, entries[0].0) {
        seq![(name, value)] + entries
    } else {
        seq![entries[0]] + with_entry(entries.drop_first(), name, value)
    }
}

/// The value of the entry with a name.
pub open spec fn entry_of(entries: Seq<(Seq<char>, u64)>, name: Seq<char>) -> Option<u64>
    decreases entries.len(),
{
    if entries.len() == 0 {
        None
    } else if entries[0].0 == name {
        Some(entries[0].1)
    } else {
        entry_of(entries.drop_first(), name)
    }
}

/// The names and values of a list, in the order of the names, of each name the
/// last value.
pub open spec fn gathered(list: Seq<(Seq<char>, u64)>) -> Seq<(Seq<char>, u64)>
    decreases list.len(),
{
    if list.len() == 0 {
        Seq::empty()
    } else {
        with_entry(gathered(list.drop_last()), list.last().0, list.last().1)
    }
}

/// The entries of a list, with their names as characters.
pub open spec fn named_values(list: Seq<(String, u64)>) -> Seq<(Seq<char>, u64)> {
    list.map_values(|entry: (String, u64)| (entry.0@, entry.1))
}

/// Adding an entry keeps the order of the names.
pub proof fn lemma_with_entry_keeps_order(
    entries: Seq<(Seq<char>, u64)>,
    name: Seq<char>,
    value: u64,
)
    requires
        in_name_order(entries),
    ensures
        in_name_order(with_entry(entries, name, value)),
        forall|i: int|
            0 <= i < with_entry(entries, name, value).len() ==> (#[trigger] with_entry(
                entries,
                name,
                value,
            )[i]).0 == name || exists|j: int|
                0 <= j < entries.len() && (#[trigger] entries[j]).0 == with_entry(
                    entries,
                    name,
                    value,
                )[i].0,
    decreases entries.len(),
{
    let after = with_entry(entries, name, value);
    if entries.len() > 0 {
        let rest = entries.drop_first();
        assert forall|i: int, j: int| 0 <= i < j < rest.len() implies text_before(
            #[trigger] rest[i].0,
            #[trigger] rest[j].0,
        ) by {
            assert(rest[i] == entries[i + 1]);
            assert(rest[j] == entries[j + 1]);
        }
        if entries[0].0 == name {
            assert(after =~= entries.update(0, (name, value)));
        } else if text_before(name, entries[0].0) {
            assert forall|i: int, j: int| 0 <= i < j < after.len() implies text_before(
                #[trigger] after[i].0,
                #[trigger] after[j].0,
            ) by {
                assert(after[j] == entries[j - 1]);
                if i > 0 {
                    assert(after[i] == entries[i - 1]);
                } else if j > 1 {
                    lemma_text_order_is_transitive(name, entries[0].0, entries[j - 1].0);
                }
            }
            assert forall|i: int| 0 <= i < after.len() && after[i].0 != name implies exists|j: int|
                0 <= j < entries.len() && (#[trigger] entries[j]).0 == (#[trigger] after[i]).0 by {
                assert(after[i] == entries[i - 1]);
            }
        } else {
            lemma_with_entry_keeps_order(rest, name, value);
            let tail = with_entry(rest, name, value);
            lemma_text_order_is_total(name, entries[0].0);
            assert forall|i: int| 0 <= i < tail.len() implies text_before(
                entries[0].0,
                (#[trigger] tail[i]).0,
            ) by {
                if tail[i].0 != name {
                    let j = choose|j: int|
                        0 <= j < rest.len() && (#[trigger] rest[j]).0 == tail[i].0;
                    assert(rest[j] == entries[j + 1]);
                }
            }
            assert forall|i: int, j: int| 0 <= i < j < after.len() implies text_before(
                #[trigger] after[i].0,
                #[trigger] after[j].0,
            ) by {
                assert(after[j] == tail[j - 1]);
                if i > 0 {
                    assert(after[i] == tail[i - 1]);
                }
            }
            assert forall|i: int| 0 <= i < after.len() && after[i].0 != name implies exists|j: int|
                0 <= j < entries.len() && (#[trigger] entries[j]).0 == (#[trigger] after[i]).0 by {
                if i > 0 {
                    assert(after[i] == tail[i - 1]);
                    let j = choose|j: int|
                        0 <= j < rest.len() && (#[trigger] rest[j]).0 == tail[i - 1].0;
                    assert(entries[j + 1].0 == after[i].0);
                } else {
                    assert(entries[0].0 == after[i].0);
                }
            }
        }
    }
}

/// What is gathered of a list is in the order of the names, no name twice, and
/// has of each name the value that came last.
pub proof fn law_gathered_values_are_found(list: Seq<(Seq<char>, u64)>, name: Seq<char>)
    ensures
        in_name_order(gathered(list)),
        entry_of(gathered(list), name) == last_value(list, name),
    decreases list.len(),
{
    if list.len() > 0 {
        let earlier = list.drop_last();
        law_gathered_values_are_found(earlier, name);
        lemma_with_entry_keeps_order(gathered(earlier), list.last().0, list.last().1);
        lemma_entry_is_found(gathered(earlier), list.last().0, list.last().1, name);
    }
}

/// The last value of a list under a name.
pub open spec fn last_value(list: Seq<(Seq<char>, u64)>, name: Seq<char>) -> Option<u64>
    decreases list.len(),
{
    if list.len() == 0 {
        None
    } else if list.last().0 == name {
        Some(list.last().1)
    } else {
        last_value(list.drop_last(), name)
    }
}

proof fn lemma_entry_is_found(
    entries: Seq<(Seq<char>, u64)>,
    name: Seq<char>,
    value: u64,
    other: Seq<char>,
)
    requires
        in_name_order(entries),
    ensures
        entry_of(with_entry(entries, name, value), other) == if other == name {
            Some(value)
        } else {
            entry_of(entries, other)
        },
    decreases entries.len(),
{
    let after = with_entry(entries, name, value);
    if entries.len() == 0 {
        assert(after.drop_first() =~= entries);
    } else {
        let rest = entries.drop_first();
        assert forall|i: int, j: int| 0 <= i < j < rest.len() implies text_before(
            #[trigger] rest[i].0,
            #[trigger] rest[j].0,
        ) by {
            assert(rest[i] == entries[i + 1]);
            assert(rest[j] == entries[j + 1]);
        }
        if entries[0].0 == name {
            assert(after.drop_first() =~= rest);
        } else if text_before(name, entries[0].0) {
            assert(after.drop_first() =~= entries);
        } else {
            lemma_entry_is_found(rest, name, value, other);
            assert(after.drop_first() =~= with_entry(rest, name, value));
        }
    }
}

proof fn lemma_entry_skip(entries: Seq<(Seq<char>, u64)>, name: Seq<char>, n: int)
    requires
        0 <= n <= entries.len(),
        forall|i: int| 0 <= i < n ==> (#[trigger] entries[i]).0 != name,
    ensures
        entry_of(entries, name) == entry_of(entries.skip(n), name),
    decreases n,
{
    if n > 0 {
        lemma_entry_skip(entries.drop_first(), name, n - 1);
        assert(entries.drop_first().skip(n - 1) =~= entries.skip(n));
    } else {
        assert(entries.skip(0) =~= entries);
    }
}

proof fn lemma_with_entry_skip(
    entries: Seq<(Seq<char>, u64)>,
    name: Seq<char>,
    value: u64,
    n: int,
)
    requires
        0 <= n <= entries.len(),
        forall|i: int|
            0 <= i < n ==> (#[trigger] entries[i]).0 != name && !text_before(name, entries[i].0),
    ensures
        with_entry(entries, name, value) == entries.take(n) + with_entry(
            entries.skip(n),
            name,
            value,
        ),
    decreases n,
{
    if n > 0 {
        lemma_with_entry_skip(entries.drop_first(), name, value, n - 1);
        assert(entries.drop_first().skip(n - 1) =~= entries.skip(n));
        assert(seq![entries[0]] + entries.drop_first().take(n - 1) =~= entries.take(n));
        assert(with_entry(entries, name, value) =~= entries.take(n) + with_entry(
            entries.skip(n),
            name,
            value,
        ));
    } else {
        assert(entries.skip(0) =~= entries);
        assert(entries.take(0) + with_entry(entries, name, value) =~= with_entry(
            entries,
            name,
            value,
        ));
    }
}

/// Puts an entry among entries that are in the order of their names.
fn put_entry(entries: &mut Vec<(String, u64)>, name: &str, value: u64)
    ensures
        named_values(final(entries)@) == with_entry(named_values(old(entries)@), name@, value),
{
    let ghost start = named_values(entries@);
    let mut index: usize = 0;
    while index < entries.len()
        invariant
            index <= entries@.len(),
            start == named_values(entries@),
            named_values(old(entries)@) == start,
            forall|i: int|
                0 <= i < index ==> (#[trigger] start[i]).0 != name@ && !text_before(
                    name@,
                    start[i].0,
                ),
        decreases entries@.len() - index,
    {
        assert(start[index as int].0 == entries@[index as int].0@);
        assert(start.skip(index as int)[0] == start[index as int]);
        if same(entries[index].0.as_str(), name) {
            let entry = (name.to_owned(), value);
            entries.set(index, entry);
            proof {
                lemma_with_entry_skip(start, name@, value, index as int);
                assert(start.skip(index as int).drop_first() =~= start.skip(index + 1));
                assert(named_values(entries@) =~= start.update(index as int, (name@, value)));
                assert(named_values(entries@) =~= start.take(index as int) + (seq![(name@, value)]
                    + start.skip(index as int).drop_first()));
            }
            return;
        }
        if before(name, entries[index].0.as_str()) {
            let entry = (name.to_owned(), value);
            entries.insert(index, entry);
            proof {
                lemma_with_entry_skip(start, name@, value, index as int);
                assert(named_values(entries@) =~= start.take(index as int) + (seq![(name@, value)]
                    + start.skip(index as int)));
            }
            return;
        }
        index = index + 1;
    }
    let entry = (name.to_owned(), value);
    entries.push(entry);
    proof {
        lemma_with_entry_skip(start, name@, value, start.len() as int);
        assert(start.skip(start.len() as int) =~= Seq::empty());
        assert(named_values(entries@) =~= start.take(start.len() as int) + seq![(name@, value)]);
    }
}

/// The names and values of a list, in the order of the names, of each name the
/// last value.
pub fn gather(list: &Vec<(String, u64)>) -> (result: Vec<(String, u64)>)
    ensures
        named_values(result@) == gathered(named_values(list@)),
{
    let ghost all = named_values(list@);
    let mut entries: Vec<(String, u64)> = Vec::new();
    assert(named_values(entries@) =~= gathered(all.take(0)));
    let mut index: usize = 0;
    while index < list.len()
        invariant
            index <= list@.len(),
            all == named_values(list@),
            named_values(entries@) == gathered(all.take(index as int)),
        decreases list@.len() - index,
    {
        assert(all.take(index + 1).drop_last() =~= all.take(index as int));
        assert(all.take(index + 1).last() == all[index as int]);
        put_entry(&mut entries, list[index].0.as_str(), list[index].1);
        index = index + 1;
    }
    assert(all.take(index as int) =~= all);
    entries
}

fn find_entry(entries: &Vec<(String, u64)>, name: &str) -> (result: Option<u64>)
    ensures
        result == entry_of(named_values(entries@), name@),
{
    let ghost all = named_values(entries@);
    let mut index: usize = 0;
    while index < entries.len()
        invariant
            index <= entries@.len(),
            all == named_values(entries@),
            forall|i: int| 0 <= i < index ==> (#[trigger] all[i]).0 != name@,
        decreases entries@.len() - index,
    {
        assert(all[index as int].0 == entries@[index as int].0@);
        if same(entries[index].0.as_str(), name) {
            proof {
                lemma_entry_skip(all, name@, index as int);
                assert(all.skip(index as int)[0] == all[index as int]);
            }
            return Some(entries[index].1);
        }
        index = index + 1;
    }
    proof {
        lemma_entry_skip(all, name@, index as int);
    }
    None
}

/// The answer to a choice, as the model gave it.
pub struct ChoiceAnswer {
    pub choice: String,
    pub confidence: u64,
    pub probabilities: Vec<(String, u64)>,
}

/// A choice with its confidence, and the probabilities of all choices in the
/// order of their names.
pub struct ChoiceBreakdown {
    pub choice: String,
    pub confidence: u64,
    pub probabilities: Vec<(String, u64)>,
}

/// What a choice is.
#[verifier::ext_equal]
pub struct BreakdownView {
    pub choice: Seq<char>,
    pub confidence: u64,
    pub probabilities: Seq<(Seq<char>, u64)>,
}

impl View for ChoiceBreakdown {
    type V = BreakdownView;

    open spec fn view(&self) -> BreakdownView {
        BreakdownView {
            choice: self.choice@,
            confidence: self.confidence,
            probabilities: named_values(self.probabilities@),
        }
    }
}

/// The names of the choices that are allowed.
pub open spec fn names(allowed: Seq<&str>) -> Seq<Seq<char>> {
    allowed.map_values(|name: &str| name@)
}

/// Whether an answer chooses one of the allowed choices, with a confidence, and
/// gives each of them, and no other, a probability.
pub open spec fn is_valid_answer(answer: ChoiceAnswer, allowed: Seq<Seq<char>>) -> bool {
    let probabilities = gathered(named_values(answer.probabilities@));
    &&& allowed.contains(answer.choice@)
    &&& is_probability(answer.confidence)
    &&& probabilities.len() == allowed.len()
    &&& forall|i: int|
        0 <= i < allowed.len() ==> (entry_of(probabilities, #[trigger] allowed[i]) matches Some(
            value,
        ) && is_probability(value))
}

/// What an answer comes to.
pub open spec fn breakdown_of(answer: ChoiceAnswer, allowed: Seq<Seq<char>>) -> Result<
    BreakdownView,
    Seq<char>,
> {
    if is_valid_answer(answer, allowed) {
        Ok(
            BreakdownView {
                choice: answer.choice@,
                confidence: answer.confidence,
                probabilities: gathered(named_values(answer.probabilities@)),
            },
        )
    } else {
        Err("Invalid Jev response"@)
    }
}

pub(crate) fn in_unit_range(bits: u64) -> (result: bool)
    ensures
        result == is_probability(bits),
{
    bits <= 0x3ff0_0000_0000_0000 || bits == 0x8000_0000_0000_0000
}

/// Checks an answer against the choices that are allowed.
pub fn choice_breakdown(answer: &ChoiceAnswer, allowed: &[&str]) -> (result: Result<
    ChoiceBreakdown,
    String,
>)
    ensures
        shown(result) == breakdown_of(*answer, names(allowed@)),
{
    let ghost all = names(allowed@);
    let probabilities = gather(&answer.probabilities);
    let mut known = false;
    let mut complete = true;
    let mut index: usize = 0;
    while index < allowed.len()
        invariant
            index <= allowed@.len(),
            all == names(allowed@),
            named_values(probabilities@) == gathered(named_values(answer.probabilities@)),
            known <==> exists|i: int| 0 <= i < index && #[trigger] all[i] == answer.choice@,
            complete <==> forall|i: int|
                0 <= i < index ==> (entry_of(
                    named_values(probabilities@),
                    #[trigger] all[i],
                ) matches Some(value) && is_probability(value)),
        decreases allowed@.len() - index,
    {
        let name: &str = allowed[index];
        assert(all[index as int] == name@);
        if same(name, answer.choice.as_str()) {
            known = true;
        }
        let probable = match find_entry(&probabilities, name) {
            Some(value) => in_unit_range(value),
            None => false,
        };
        if !probable {
            complete = false;
        }
        index = index + 1;
    }
    assert(known <==> all.contains(answer.choice@));
    if !known || !in_unit_range(answer.confidence) || probabilities.len() != allowed.len()
        || !complete {
        return Err("Invalid Jev response".to_owned());
    }
    Ok(
        ChoiceBreakdown {
            choice: answer.choice.clone(),
            confidence: answer.confidence,
            probabilities,
        },
    )
}

/// What a model makes of a message: whether it is a job opportunity, and of what
/// type and seniority the role is.
pub struct Assessment {
    pub choice: String,
    pub confidence: u64,
    pub probabilities: Vec<(String, u64)>,
    pub role_type: Option<ChoiceBreakdown>,
    pub seniority: Option<ChoiceBreakdown>,
    pub model: String,
}

/// What an assessment is.
#[verifier::ext_equal]
pub struct AssessmentView {
    pub opportunity: BreakdownView,
    pub role_type: Option<BreakdownView>,
    pub seniority: Option<BreakdownView>,
    pub model: Seq<char>,
}

/// What an optional choice is.
pub open spec fn breakdown_at(breakdown: Option<ChoiceBreakdown>) -> Option<BreakdownView> {
    match breakdown {
        Some(breakdown) => Some(breakdown@),
        None => None,
    }
}

impl View for Assessment {
    type V = AssessmentView;

    open spec fn view(&self) -> AssessmentView {
        AssessmentView {
            opportunity: BreakdownView {
                choice: self.choice@,
                confidence: self.confidence,
                probabilities: named_values(self.probabilities@),
            },
            role_type: breakdown_at(self.role_type),
            seniority: breakdown_at(self.seniority),
            model: self.model@,
        }
    }
}

/// The model that messages are put to.
pub const JEV_MODEL: &'static str = "jev-1.13.0";

/// The choices of whether a message is a job opportunity.
pub open spec fn opportunity_choices() -> Seq<Seq<char>> {
    seq!["yes"@, "no"@, "uncertain"@]
}

/// The choices of a role's type.
pub open spec fn role_choices() -> Seq<Seq<char>> {
    seq![
        "backend"@,
        "frontend"@,
        "fullstack"@,
        "platform_devops"@,
        "data_ai"@,
        "mobile"@,
        "engineering_management"@,
        "other_unknown"@,
    ]
}

/// The choices of a role's seniority.
pub open spec fn seniority_choices() -> Seq<Seq<char>> {
    seq![
        "intern_junior"@,
        "middle"@,
        "senior"@,
        "staff_principal"@,
        "lead_manager"@,
        "unknown"@,
    ]
}

/// What an answer comes to, where the model gave one.
pub open spec fn answered(
    answer: Option<ChoiceAnswer>,
    allowed: Seq<Seq<char>>,
    missed: Seq<char>,
) -> Result<BreakdownView, Seq<char>> {
    match answer {
        Some(answer) => breakdown_of(answer, allowed),
        None => Err(missed),
    }
}

/// What the answers of the model come to; or the first that is missing or not
/// valid.
pub open spec fn assessment_of(
    opportunity: Option<ChoiceAnswer>,
    role_type: Option<ChoiceAnswer>,
    seniority: Option<ChoiceAnswer>,
) -> Result<AssessmentView, Seq<char>> {
    match answered(opportunity, opportunity_choices(), "Jev response missed job_opportunity"@) {
        Err(error) => Err(error),
        Ok(opportunity) => match answered(
            role_type,
            role_choices(),
            "Jev response missed role_type"@,
        ) {
            Err(error) => Err(error),
            Ok(role_type) => match answered(
                seniority,
                seniority_choices(),
                "Jev response missed seniority"@,
            ) {
                Err(error) => Err(error),
                Ok(seniority) => Ok(
                    AssessmentView {
                        opportunity,
                        role_type: Some(role_type),
                        seniority: Some(seniority),
                        model: JEV_MODEL@,
                    },
                ),
            },
        },
    }
}

fn check_answer(answer: &Option<ChoiceAnswer>, allowed: &[&str], missed: &str) -> (result: Result<
    ChoiceBreakdown,
    String,
>)
    ensures
        shown(result) == answered(*answer, names(allowed@), missed@),
{
    match answer {
        Some(answer) => choice_breakdown(answer, allowed),
        None => Err(missed.to_owned()),
    }
}

/// Makes an assessment of the answers of the model.
pub fn assess(
    opportunity: &Option<ChoiceAnswer>,
    role_type: &Option<ChoiceAnswer>,
    seniority: &Option<ChoiceAnswer>,
) -> (result: Result<Assessment, String>)
    ensures
        shown(result) == assessment_of(*opportunity, *role_type, *seniority),
        result matches Ok(assessment) ==> is_in_order(assessment@),
{
    proof {
        if assessment_of(*opportunity, *role_type, *seniority) is Ok {
            law_assessment_is_in_order(*opportunity, *role_type, *seniority);
        }
    }
    let opportunities: [&str; 3] = ["yes", "no", "uncertain"];
    assert(names(opportunities@) =~= opportunity_choices());
    let opportunity = match check_answer(
        opportunity,
        &opportunities,
        "Jev response missed job_opportunity",
    ) {
        Ok(breakdown) => breakdown,
        Err(error) => return Err(error),
    };
    let roles: [&str; 8] = [
        "backend",
        "frontend",
        "fullstack",
        "platform_devops",
        "data_ai",
        "mobile",
        "engineering_management",
        "other_unknown",
    ];
    assert(names(roles@) =~= role_choices());
    let role_type = match check_answer(role_type, &roles, "Jev response missed role_type") {
        Ok(breakdown) => breakdown,
        Err(error) => return Err(error),
    };
    let levels: [&str; 6] = [
        "intern_junior",
        "middle",
        "senior",
        "staff_principal",
        "lead_manager",
        "unknown",
    ];
    assert(names(levels@) =~= seniority_choices());
    let seniority = match check_answer(seniority, &levels, "Jev response missed seniority") {
        Ok(breakdown) => breakdown,
        Err(error) => return Err(error),
    };
    Ok(
        Assessment {
            choice: opportunity.choice,
            confidence: opportunity.confidence,
            probabilities: opportunity.probabilities,
            role_type: Some(role_type),
            seniority: Some(seniority),
            model: JEV_MODEL.to_owned(),
        },
    )
}

/// Whether every choice of an assessment has its probabilities in the order of their
/// names, no name twice.
pub open spec fn is_in_order(assessment: AssessmentView) -> bool {
    &&& in_name_order(assessment.opportunity.probabilities)
    &&& assessment.role_type matches Some(role) ==> in_name_order(role.probabilities)
    &&& assessment.seniority matches Some(seniority) ==> in_name_order(seniority.probabilities)
}

/// What the answers of the model come to has its probabilities in the order of their
/// names, in whatever order the model gave them.
pub proof fn law_assessment_is_in_order(
    opportunity: Option<ChoiceAnswer>,
    role_type: Option<ChoiceAnswer>,
    seniority: Option<ChoiceAnswer>,
)
    requires
        assessment_of(opportunity, role_type, seniority) is Ok,
    ensures
        is_in_order(assessment_of(opportunity, role_type, seniority)->Ok_0),
{
    let name = Seq::<char>::empty();
    law_gathered_values_are_found(named_values(opportunity->0.probabilities@), name);
    law_gathered_values_are_found(named_values(role_type->0.probabilities@), name);
    law_gathered_values_are_found(named_values(seniority->0.probabilities@), name);
}

proof fn lemma_entry_is_there(entries: Seq<(Seq<char>, u64)>, name: Seq<char>)
    requires
        entry_of(entries, name) is Some,
    ensures
        exists|i: int| 0 <= i < entries.len() && (#[trigger] entries[i]).0 == name,
    decreases entries.len(),
{
    if entries[0].0 != name {
        let rest = entries.drop_first();
        lemma_entry_is_there(rest, name);
        let i = choose|i: int| 0 <= i < rest.len() && (#[trigger] rest[i]).0 == name;
        assert(entries[i + 1].0 == name);
    }
}

/// A valid answer speaks of the allowed choices and of no other.
pub proof fn law_valid_answer_names_no_other_choice(
    answer: ChoiceAnswer,
    allowed: Seq<Seq<char>>,
    i: int,
)
    requires
        is_valid_answer(answer, allowed),
        allowed.no_duplicates(),
        0 <= i < gathered(named_values(answer.probabilities@)).len(),
    ensures
        allowed.contains(gathered(named_values(answer.probabilities@))[i].0),
{
    let entries = gathered(named_values(answer.probabilities@));
    let found = entries.map_values(|entry: (Seq<char>, u64)| entry.0);
    law_gathered_values_are_found(named_values(answer.probabilities@), answer.choice@);
    assert(found.no_duplicates()) by {
        assert forall|a: int, b: int|
            0 <= a < found.len() && 0 <= b < found.len() && a != b implies found[a] != found[b] by {
            lemma_text_order_is_total(entries[a].0, entries[b].0);
            if a < b {
                assert(text_before(entries[a].0, entries[b].0));
            } else {
                assert(text_before(entries[b].0, entries[a].0));
            }
        }
    }
    allowed.unique_seq_to_set();
    found.unique_seq_to_set();
    assert forall|name: Seq<char>| allowed.to_set().contains(name) implies found.to_set().contains(
        name,
    ) by {
        let k = choose|k: int| 0 <= k < allowed.len() && allowed[k] == name;
        assert(entry_of(entries, allowed[k]) is Some);
        lemma_entry_is_there(entries, name);
        let j = choose|j: int| 0 <= j < entries.len() && (#[trigger] entries[j]).0 == name;
        assert(found[j] == name);
    }
    vstd::set_lib::lemma_subset_equality(allowed.to_set(), found.to_set());
    assert(found.to_set().contains(found[i]));
    assert(allowed.to_set().contains(found[i]));
}

/// The place of a double in the total order of doubles, by its bits: doubles
/// with a negative sign come first, the larger bits before the smaller, then the
/// others, the smaller bits before the larger.
pub open spec fn place(bits: u64) -> int {
    if bits < 0x8000_0000_0000_0000 {
        bits as int
    } else {
        0x7fff_ffff_ffff_ffff - bits
    }
}

pub(crate) fn place_of(bits: u64) -> (result: i128)
    ensures
        result == place(bits),
{
    if bits < 0x8000_0000_0000_0000 {
        bits as i128
    } else {
        0x7fff_ffff_ffff_ffff_i128 - bits as i128
    }
}

/// One choice's share of the probability, and its percentage as it is shown.
pub struct Share {
    pub name: String,
    pub value: u64,
    pub percent: String,
}

/// What a share is.
#[verifier::ext_equal]
pub struct ShareView {
    pub name: Seq<char>,
    pub value: u64,
    pub percent: Seq<char>,
}

impl View for Share {
    type V = ShareView;

    open spec fn view(&self) -> ShareView {
        ShareView { name: self.name@, value: self.value, percent: self.percent@ }
    }
}

/// What the shares of a list are.
pub open spec fn share_views(shares: Seq<Share>) -> Seq<ShareView> {
    shares.map_values(|share: Share| share@)
}

/// Ranked shares with one more, behind those that are at least as large.
pub open spec fn ranked_with(ranked: Seq<ShareView>, share: ShareView) -> Seq<ShareView>
    decreases ranked.len(),
{
    if ranked.len() == 0 {
        seq![share]
    } else if place(ranked.last().value) >= place(share.value) {
        ranked.push(share)
    } else {
        ranked_with(ranked.drop_last(), share).push(ranked.last())
    }
}

/// Shares from the largest to the smallest, equal ones in their order.
pub open spec fn ranked(shares: Seq<ShareView>) -> Seq<ShareView>
    decreases shares.len(),
{
    if shares.len() == 0 {
        Seq::empty()
    } else {
        ranked_with(ranked(shares.drop_last()), shares.last())
    }
}

/// Whether no share is larger than one before it.
pub open spec fn is_ranked(shares: Seq<ShareView>) -> bool {
    forall|i: int, j: int|
        0 <= i < j < shares.len() ==> place(#[trigger] shares[i].value) >= place(
            #[trigger] shares[j].value,
        )
}

proof fn lemma_ranked_with(before: Seq<ShareView>, share: ShareView)
    requires
        is_ranked(before),
    ensures
        is_ranked(ranked_with(before, share)),
        ranked_with(before, share).to_multiset() == before.to_multiset().insert(share),
        forall|i: int|
            0 <= i < ranked_with(before, share).len() ==> (#[trigger] ranked_with(
                before,
                share,
            )[i]) == share || exists|j: int|
                0 <= j < before.len() && #[trigger] before[j] == ranked_with(before, share)[i],
    decreases before.len(),
{
    broadcast use vstd::seq_lib::group_to_multiset_ensures;

    let after = ranked_with(before, share);
    if before.len() == 0 {
        assert(before =~= Seq::<ShareView>::empty());
        assert(seq![share] =~= Seq::<ShareView>::empty().push(share));
    } else if place(before.last().value) >= place(share.value) {
        assert(after =~= before.push(share));
        assert forall|i: int| 0 <= i < after.len() && after[i] != share implies exists|j: int|
            0 <= j < before.len() && #[trigger] before[j] == #[trigger] after[i] by {
            assert(before[i] == after[i]);
        }
    } else {
        let shorter = before.drop_last();
        let tail = ranked_with(shorter, share);
        assert(is_ranked(shorter)) by {
            assert forall|i: int, j: int| 0 <= i < j < shorter.len() implies place(
                #[trigger] shorter[i].value,
            ) >= place(#[trigger] shorter[j].value) by {
                assert(shorter[i] == before[i]);
                assert(shorter[j] == before[j]);
            }
        }
        lemma_ranked_with(shorter, share);
        assert(shorter.push(before.last()) =~= before);
        assert(after =~= tail.push(before.last()));
        assert forall|i: int, j: int| 0 <= i < j < after.len() implies place(
            #[trigger] after[i].value,
        ) >= place(#[trigger] after[j].value) by {
            assert(after[i] == tail[i]);
            if j < tail.len() {
                assert(after[j] == tail[j]);
            } else if tail[i] != share {
                let k = choose|k: int| 0 <= k < shorter.len() && #[trigger] shorter[k] == tail[i];
                assert(before[k] == tail[i]);
                assert(before[before.len() - 1] == before.last());
            }
        }
        assert forall|i: int| 0 <= i < after.len() && after[i] != share implies exists|j: int|
            0 <= j < before.len() && #[trigger] before[j] == #[trigger] after[i] by {
            if i < tail.len() {
                assert(after[i] == tail[i]);
                let k = choose|k: int| 0 <= k < shorter.len() && #[trigger] shorter[k] == tail[i];
                assert(before[k] == after[i]);
            } else {
                assert(before[before.len() - 1] == after[i]);
            }
        }
        assert(after.to_multiset() =~= before.to_multiset().insert(share));
    }
}

/// Ranking keeps every share and puts none before a larger one.
pub proof fn law_ranking_keeps_the_shares(shares: Seq<ShareView>)
    ensures
        is_ranked(ranked(shares)),
        ranked(shares).to_multiset() == shares.to_multiset(),
    decreases shares.len(),
{
    broadcast use vstd::seq_lib::group_to_multiset_ensures;

    if shares.len() > 0 {
        let earlier = shares.drop_last();
        law_ranking_keeps_the_shares(earlier);
        lemma_ranked_with(ranked(earlier), shares.last());
        assert(earlier.push(shares.last()) =~= shares);
    } else {
        assert(shares =~= Seq::empty());
    }
}

/// Whether a share is at a place in the order of doubles.
pub open spec fn is_at(at: int) -> spec_fn(ShareView) -> bool {
    |share: ShareView| place(share.value) == at
}

proof fn lemma_ranked_with_is_stable(before: Seq<ShareView>, share: ShareView, at: int)
    ensures
        ranked_with(before, share).filter(is_at(at)) == before.push(share).filter(is_at(at)),
    decreases before.len(),
{
    reveal(Seq::filter);
    let wanted = is_at(at);
    let after = ranked_with(before, share);
    assert(before.push(share).drop_last() =~= before);
    if before.len() == 0 {
        assert(before.push(share) =~= seq![share]);
    } else if place(before.last().value) < place(share.value) {
        let shorter = before.drop_last();
        lemma_ranked_with_is_stable(shorter, share, at);
        assert(after.drop_last() =~= ranked_with(shorter, share));
        assert(after.last() == before.last());
        assert(shorter.push(share).drop_last() =~= shorter);
        let kept = shorter.filter(wanted);
        assert(before.filter(wanted) == if wanted(before.last()) {
            kept.push(before.last())
        } else {
            kept
        });
        assert(shorter.push(share).filter(wanted) == if wanted(share) {
            kept.push(share)
        } else {
            kept
        });
        assert(after.filter(wanted) == if wanted(before.last()) {
            shorter.push(share).filter(wanted).push(before.last())
        } else {
            shorter.push(share).filter(wanted)
        });
    }
}

/// Ranking keeps equal shares in their order.
pub proof fn law_ranking_is_stable(shares: Seq<ShareView>, at: int)
    ensures
        ranked(shares).filter(is_at(at)) == shares.filter(is_at(at)),
    decreases shares.len(),
{
    reveal(Seq::filter);
    if shares.len() > 0 {
        let earlier = shares.drop_last();
        law_ranking_is_stable(earlier, at);
        lemma_ranked_with_is_stable(ranked(earlier), shares.last(), at);
        assert(ranked(earlier).push(shares.last()).drop_last() =~= ranked(earlier));
    }
}

/// Whether `first` is listed before `second`: it is larger, or as large and before it
/// by name.
pub open spec fn is_listed_before(first: ShareView, second: ShareView) -> bool {
    place(first.value) > place(second.value) || (place(first.value) == place(second.value)
        && text_before(first.name, second.name))
}

/// Whether shares are listed from the largest to the smallest, equal ones by name.
pub open spec fn is_listed(shares: Seq<ShareView>) -> bool {
    forall|i: int, j: int|
        0 <= i < j < shares.len() ==> is_listed_before(#[trigger] shares[i], #[trigger] shares[j])
}

proof fn lemma_ranked_with_is_listed(before: Seq<ShareView>, share: ShareView)
    requires
        is_listed(before),
        forall|i: int| 0 <= i < before.len() ==> text_before((#[trigger] before[i]).name, share.name),
    ensures
        is_listed(ranked_with(before, share)),
        forall|i: int|
            0 <= i < ranked_with(before, share).len() ==> (#[trigger] ranked_with(
                before,
                share,
            )[i]) == share || before.contains(ranked_with(before, share)[i]),
    decreases before.len(),
{
    let after = ranked_with(before, share);
    if before.len() > 0 {
        assert(before[before.len() - 1] == before.last());
        if place(before.last().value) >= place(share.value) {
            assert forall|i: int| 0 <= i < before.len() implies is_listed_before(
                #[trigger] before[i],
                share,
            ) by {
                if i < before.len() - 1 {
                    assert(is_listed_before(before[i], before[before.len() - 1]));
                }
            }
            assert forall|i: int| 0 <= i < after.len() && after[i] != share implies before.contains(
                #[trigger] after[i],
            ) by {
                assert(before[i] == after[i]);
            }
        } else {
            let shorter = before.drop_last();
            let tail = ranked_with(shorter, share);
            assert forall|i: int, j: int| 0 <= i < j < shorter.len() implies is_listed_before(
                #[trigger] shorter[i],
                #[trigger] shorter[j],
            ) by {
                assert(shorter[i] == before[i] && shorter[j] == before[j]);
            }
            lemma_ranked_with_is_listed(shorter, share);
            assert forall|i: int| 0 <= i < tail.len() implies is_listed_before(
                #[trigger] tail[i],
                before.last(),
            ) && (tail[i] == share || before.contains(tail[i])) by {
                if tail[i] != share {
                    let k = choose|k: int| 0 <= k < shorter.len() && shorter[k] == tail[i];
                    assert(before[k] == tail[i]);
                    assert(is_listed_before(before[k], before[before.len() - 1]));
                }
            }
            assert forall|i: int, j: int| 0 <= i < j < after.len() implies is_listed_before(
                #[trigger] after[i],
                #[trigger] after[j],
            ) by {
                assert(after[i] == tail[i]);
                if j < tail.len() {
                    assert(after[j] == tail[j]);
                }
            }
        }
    }
}

proof fn lemma_ranked_by_name(shares: Seq<ShareView>)
    requires
        forall|i: int, j: int|
            0 <= i < j < shares.len() ==> text_before(
                (#[trigger] shares[i]).name,
                (#[trigger] shares[j]).name,
            ),
    ensures
        is_listed(ranked(shares)),
        forall|i: int|
            0 <= i < ranked(shares).len() ==> shares.contains(#[trigger] ranked(shares)[i]),
    decreases shares.len(),
{
    if shares.len() > 0 {
        let earlier = shares.drop_last();
        let before = ranked(earlier);
        let share = shares.last();
        assert forall|i: int, j: int| 0 <= i < j < earlier.len() implies text_before(
            (#[trigger] earlier[i]).name,
            (#[trigger] earlier[j]).name,
        ) by {
            assert(earlier[i] == shares[i] && earlier[j] == shares[j]);
        }
        lemma_ranked_by_name(earlier);
        assert(shares[shares.len() - 1] == share);
        assert forall|i: int| 0 <= i < before.len() implies text_before(
            (#[trigger] before[i]).name,
            share.name,
        ) && shares.contains(before[i]) by {
            let k = choose|k: int| 0 <= k < earlier.len() && earlier[k] == before[i];
            assert(shares[k] == before[i]);
        }
        lemma_ranked_with_is_listed(before, share);
        let after = ranked(shares);
        assert forall|i: int| 0 <= i < after.len() implies shares.contains(#[trigger] after[i]) by {
            if after[i] != share {
                let k = choose|k: int| 0 <= k < before.len() && before[k] == after[i];
                assert(shares.contains(before[k]));
            }
        }
    }
}

/// A choice whose probabilities are in the order of their names is summed up with
/// the largest share first, and equal shares by name.
pub proof fn law_equal_shares_are_listed_by_name(
    breakdown: BreakdownView,
    percents: Seq<(u64, Seq<char>)>,
)
    requires
        in_name_order(breakdown.probabilities),
    ensures
        is_listed(ranked(judged(breakdown, percents).shares)),
{
    let entries = breakdown.probabilities;
    let shares = judged(breakdown, percents).shares;
    assert forall|i: int, j: int| 0 <= i < j < shares.len() implies text_before(
        (#[trigger] shares[i]).name,
        (#[trigger] shares[j]).name,
    ) by {
        assert(shares[i].name == entries[i].0 && shares[j].name == entries[j].0);
    }
    lemma_ranked_by_name(shares);
}

proof fn lemma_ranked_with_at(before: Seq<ShareView>, share: ShareView, n: int)
    requires
        0 <= n <= before.len(),
        n > 0 ==> place(before[n - 1].value) >= place(share.value),
        forall|i: int|
            n <= i < before.len() ==> place(#[trigger] before[i].value) < place(share.value),
    ensures
        ranked_with(before, share) == before.insert(n, share),
    decreases before.len(),
{
    if n < before.len() {
        let shorter = before.drop_last();
        lemma_ranked_with_at(shorter, share, n);
        assert(before[before.len() - 1] == before.last());
        assert(shorter.insert(n, share).push(before.last()) =~= before.insert(n, share));
    } else {
        assert(before.insert(n, share) =~= before.push(share));
        assert(before.len() == 0 ==> seq![share] =~= before.push(share));
    }
}

/// How a share is shown.
pub open spec fn share_text(share: ShareView) -> Seq<char> {
    share.name + " "@ + share.percent + "%"@
}

/// How ranked shares are shown.
pub open spec fn shares_text(shares: Seq<ShareView>) -> Seq<char> {
    listed(ranked(shares).map_values(|share: ShareView| share_text(share)), ", "@)
}

/// A choice as it is summed up: its name, its confidence in percent, and the
/// shares of all choices.
pub struct Verdict {
    pub choice: String,
    pub percent: String,
    pub shares: Vec<Share>,
}

/// What a choice, as it is summed up, is.
#[verifier::ext_equal]
pub struct VerdictView {
    pub choice: Seq<char>,
    pub percent: Seq<char>,
    pub shares: Seq<ShareView>,
}

impl View for Verdict {
    type V = VerdictView;

    open spec fn view(&self) -> VerdictView {
        VerdictView {
            choice: self.choice@,
            percent: self.percent@,
            shares: share_views(self.shares@),
        }
    }
}

/// How a choice is summed up.
pub open spec fn verdict_text(label: Seq<char>, verdict: VerdictView) -> Seq<char> {
    label + ": "@ + verdict.choice + " ("@ + verdict.percent + "% confidence"@ + (
    if verdict.shares.len() == 0 {
        Seq::empty()
    } else {
        "; "@ + shares_text(verdict.shares)
    }) + ")"@
}

/// How choices are summed up, a line for each that there is.
pub open spec fn summary_of(
    opportunity: VerdictView,
    role: Option<VerdictView>,
    seniority: Option<VerdictView>,
) -> Seq<char> {
    let first = seq![verdict_text("Opportunity"@, opportunity)];
    let second = match role {
        Some(role) => first.push(verdict_text("Role"@, role)),
        None => first,
    };
    let third = match seniority {
        Some(seniority) => second.push(verdict_text("Seniority"@, seniority)),
        None => second,
    };
    listed(third, "\n"@)
}

/// The shares that a list of indices picks.
spec fn picked(shares: Seq<ShareView>, order: Seq<usize>) -> Seq<ShareView> {
    order.map_values(|k: usize| shares[k as int])
}

fn rank(shares: &Vec<Share>) -> (result: Vec<usize>)
    ensures
        picked(share_views(shares@), result@) == ranked(share_views(shares@)),
        forall|i: int| 0 <= i < result@.len() ==> (#[trigger] result@[i]) < shares@.len(),
{
    let ghost views = share_views(shares@);
    let mut order: Vec<usize> = Vec::new();
    assert(picked(views, order@) =~= ranked(views.take(0)));
    let mut index: usize = 0;
    while index < shares.len()
        invariant
            index <= shares@.len(),
            views == share_views(shares@),
            order@.len() == index,
            picked(views, order@) == ranked(views.take(index as int)),
            forall|i: int| 0 <= i < order@.len() ==> (#[trigger] order@[i]) < shares@.len(),
        decreases shares@.len() - index,
    {
        let ghost before = picked(views, order@);
        let ghost share = views[index as int];
        let here = place_of(shares[index].value);
        let mut position: usize = order.len();
        while position > 0 && place_of(shares[order[position - 1]].value) < here
            invariant
                position <= order@.len(),
                index < shares@.len(),
                here == place(share.value),
                views == share_views(shares@),
                before == picked(views, order@),
                forall|i: int| 0 <= i < order@.len() ==> (#[trigger] order@[i]) < shares@.len(),
                forall|i: int|
                    position <= i < before.len() ==> place(#[trigger] before[i].value) < place(
                        share.value,
                    ),
            decreases position,
        {
            assert(before[position - 1] == shares@[order@[position - 1] as int]@);
            position = position - 1;
        }
        proof {
            if position > 0 {
                assert(before[position - 1] == shares@[order@[position - 1] as int]@);
            }
            lemma_ranked_with_at(before, share, position as int);
            assert(views.take(index + 1).drop_last() =~= views.take(index as int));
            assert(views.take(index + 1).last() == share);
        }
        order.insert(position, index);
        assert(picked(views, order@) =~= before.insert(position as int, share));
        index = index + 1;
    }
    assert(views.take(index as int) =~= views);
    order
}

fn show_shares(shares: &Vec<Share>) -> (result: String)
    ensures
        result@ == shares_text(share_views(shares@)),
{
    let order = rank(shares);
    let ghost views = share_views(shares@);
    let ghost shown_texts = ranked(views).map_values(|share: ShareView| share_text(share));
    let mut list: Vec<String> = Vec::new();
    let mut index: usize = 0;
    while index < order.len()
        invariant
            index <= order@.len(),
            views == share_views(shares@),
            picked(views, order@) == ranked(views),
            shown_texts == ranked(views).map_values(|share: ShareView| share_text(share)),
            forall|i: int| 0 <= i < order@.len() ==> (#[trigger] order@[i]) < shares@.len(),
            list@.len() == index,
            forall|i: int| 0 <= i < index ==> (#[trigger] list@[i])@ == shown_texts[i],
        decreases order@.len() - index,
    {
        let share = &shares[order[index]];
        assert(ranked(views)[index as int] == picked(views, order@)[index as int]);
        let named = joined(share.name.as_str(), " ");
        list.push(joined(joined(named.as_str(), share.percent.as_str()).as_str(), "%"));
        index = index + 1;
    }
    assert(order@.len() == picked(views, order@).len());
    assert(texts(list@) =~= shown_texts);
    join_texts(&list, ", ")
}

fn show_verdict(label: &str, verdict: &Verdict) -> (result: String)
    ensures
        result@ == verdict_text(label@, verdict@),
{
    let mut text = joined(label, ": ");
    text.append(verdict.choice.as_str());
    text.append(" (");
    text.append(verdict.percent.as_str());
    text.append("% confidence");
    let ghost head = text@;
    if verdict.shares.len() > 0 {
        text.append("; ");
        text.append(show_shares(&verdict.shares).as_str());
        assert(text@ =~= head + ("; "@ + shares_text(share_views(verdict.shares@))));
    } else {
        assert(text@ =~= head + Seq::empty());
    }
    text.append(")");
    text
}

/// What an optional choice, as it is summed up, is.
pub open spec fn verdict_at(verdict: Option<Verdict>) -> Option<VerdictView> {
    match verdict {
        Some(verdict) => Some(verdict@),
        None => None,
    }
}

/// Sums choices up, a line for each that there is.
pub fn sum_up(opportunity: &Verdict, role: &Option<Verdict>, seniority: &Option<Verdict>) -> (result:
    String)
    ensures
        result@ == summary_of(opportunity@, verdict_at(*role), verdict_at(*seniority)),
{
    let mut lines: Vec<String> = Vec::new();
    lines.push(show_verdict("Opportunity", opportunity));
    let ghost first = seq![verdict_text("Opportunity"@, opportunity@)];
    assert(texts(lines@) =~= first);
    if let Some(role) = role {
        lines.push(show_verdict("Role", role));
        assert(texts(lines@) =~= first.push(verdict_text("Role"@, role@)));
    }
    let ghost second = texts(lines@);
    if let Some(seniority) = seniority {
        lines.push(show_verdict("Seniority", seniority));
        assert(texts(lines@) =~= second.push(verdict_text("Seniority"@, seniority@)));
    }
    join_texts(&lines, "\n")
}

/// How doubles are shown in percent, by their bits.
pub open spec fn percent_views(percents: Seq<(u64, String)>) -> Seq<(u64, Seq<char>)> {
    percents.map_values(|entry: (u64, String)| (entry.0, entry.1@))
}

/// How a double is shown in percent, where that is known.
pub open spec fn percent_of(percents: Seq<(u64, Seq<char>)>, bits: u64) -> Seq<char>
    decreases percents.len(),
{
    if percents.len() == 0 {
        Seq::empty()
    } else if percents[0].0 == bits {
        percents[0].1
    } else {
        percent_of(percents.drop_first(), bits)
    }
}

proof fn lemma_percent_skip(percents: Seq<(u64, Seq<char>)>, bits: u64, n: int)
    requires
        0 <= n <= percents.len(),
        forall|i: int| 0 <= i < n ==> (#[trigger] percents[i]).0 != bits,
    ensures
        percent_of(percents, bits) == percent_of(percents.skip(n), bits),
    decreases n,
{
    if n > 0 {
        lemma_percent_skip(percents.drop_first(), bits, n - 1);
        assert(percents.drop_first().skip(n - 1) =~= percents.skip(n));
    } else {
        assert(percents.skip(0) =~= percents);
    }
}

fn find_percent(percents: &Vec<(u64, String)>, bits: u64) -> (result: String)
    ensures
        result@ == percent_of(percent_views(percents@), bits),
{
    let ghost all = percent_views(percents@);
    let mut index: usize = 0;
    while index < percents.len()
        invariant
            index <= percents@.len(),
            all == percent_views(percents@),
            forall|i: int| 0 <= i < index ==> (#[trigger] all[i]).0 != bits,
        decreases percents@.len() - index,
    {
        assert(all[index as int].0 == percents@[index as int].0);
        if percents[index].0 == bits {
            proof {
                lemma_percent_skip(all, bits, index as int);
                assert(all.skip(index as int)[0] == all[index as int]);
            }
            return percents[index].1.clone();
        }
        index = index + 1;
    }
    proof {
        lemma_percent_skip(all, bits, index as int);
    }
    String::new()
}

/// A choice as it is summed up, with its doubles in percent.
pub open spec fn judged(breakdown: BreakdownView, percents: Seq<(u64, Seq<char>)>) -> VerdictView {
    VerdictView {
        choice: breakdown.choice,
        percent: percent_of(percents, breakdown.confidence),
        shares: breakdown.probabilities.map_values(
            |entry: (Seq<char>, u64)|
                ShareView {
                    name: entry.0,
                    value: entry.1,
                    percent: percent_of(percents, entry.1),
                },
        ),
    }
}

/// An optional choice as it is summed up.
pub open spec fn judged_at(
    breakdown: Option<BreakdownView>,
    percents: Seq<(u64, Seq<char>)>,
) -> Option<VerdictView> {
    match breakdown {
        Some(breakdown) => Some(judged(breakdown, percents)),
        None => None,
    }
}

fn judge(
    choice: &str,
    confidence: u64,
    probabilities: &Vec<(String, u64)>,
    percents: &Vec<(u64, String)>,
) -> (result: Verdict)
    ensures
        result@ == judged(
            (BreakdownView {
                choice: choice@,
                confidence,
                probabilities: named_values(probabilities@),
            }),
            percent_views(percents@),
        ),
{
    let ghost table = percent_views(percents@);
    let mut shares: Vec<Share> = Vec::new();
    let mut index: usize = 0;
    while index < probabilities.len()
        invariant
            index <= probabilities@.len(),
            table == percent_views(percents@),
            shares@.len() == index,
            forall|i: int|
                0 <= i < index ==> (#[trigger] shares@[i])@ == (ShareView {
                    name: probabilities@[i].0@,
                    value: probabilities@[i].1,
                    percent: percent_of(table, probabilities@[i].1),
                }),
        decreases probabilities@.len() - index,
    {
        let value = probabilities[index].1;
        shares.push(
            Share {
                name: probabilities[index].0.clone(),
                value,
                percent: find_percent(percents, value),
            },
        );
        index = index + 1;
    }
    let verdict = Verdict {
        choice: choice.to_owned(),
        percent: find_percent(percents, confidence),
        shares,
    };
    assert(verdict@.shares =~= judged(
        (BreakdownView {
            choice: choice@,
            confidence,
            probabilities: named_values(probabilities@),
        }),
        table,
    ).shares);
    verdict
}

fn judge_at(breakdown: &Option<ChoiceBreakdown>, percents: &Vec<(u64, String)>) -> (result: Option<
    Verdict,
>)
    ensures
        verdict_at(result) == judged_at(breakdown_at(*breakdown), percent_views(percents@)),
{
    match breakdown {
        Some(breakdown) => Some(
            judge(
                breakdown.choice.as_str(),
                breakdown.confidence,
                &breakdown.probabilities,
                percents,
            ),
        ),
        None => None,
    }
}

/// Sums an assessment up, a line for each choice that it has. How its doubles are
/// shown in percent is told by `percents`; one that is not told is left out.
pub fn assessment_summary(assessment: &Assessment, percents: &Vec<(u64, String)>) -> (result: String)
    ensures
        result@ == summary_of(
            judged(assessment@.opportunity, percent_views(percents@)),
            judged_at(assessment@.role_type, percent_views(percents@)),
            judged_at(assessment@.seniority, percent_views(percents@)),
        ),
{
    let opportunity = judge(
        assessment.choice.as_str(),
        assessment.confidence,
        &assessment.probabilities,
        percents,
    );
    let role = judge_at(&assessment.role_type, percents);
    let seniority = judge_at(&assessment.seniority, percents);
    sum_up(&opportunity, &role, &seniority)
}

/// The summary of an assessment has the opportunity's line, then the role's where there
/// is a role type, then the seniority's where there is a seniority, in this order with
/// line breaks between them. Whether there is one does not depend on the other.
pub proof fn law_summary_has_a_line_for_each_choice(
    opportunity: VerdictView,
    role: VerdictView,
    seniority: VerdictView,
)
    ensures
        summary_of(opportunity, Some(role), Some(seniority)) == verdict_text(
            "Opportunity"@,
            opportunity,
        ) + "\n"@ + verdict_text("Role"@, role) + "\n"@ + verdict_text("Seniority"@, seniority),
        summary_of(opportunity, Some(role), None) == verdict_text("Opportunity"@, opportunity)
            + "\n"@ + verdict_text("Role"@, role),
        summary_of(opportunity, None, Some(seniority)) == verdict_text("Opportunity"@, opportunity)
            + "\n"@ + verdict_text("Seniority"@, seniority),
        summary_of(opportunity, None, None) == verdict_text("Opportunity"@, opportunity),
{
    let first = seq![verdict_text("Opportunity"@, opportunity)];
    let second = first.push(verdict_text("Role"@, role));
    let third = second.push(verdict_text("Seniority"@, seniority));
    let other = first.push(verdict_text("Seniority"@, seniority));
    assert(second.drop_last() =~= first);
    assert(third.drop_last() =~= second);
    assert(other.drop_last() =~= first);
    reveal_with_fuel(listed, 4);
}

/// The line of a choice: the label, the choice, its confidence in percent, and the
/// shares of all choices where there are any.
pub proof fn law_line_names_choice_and_confidence(label: Seq<char>, verdict: VerdictView)
    ensures
        verdict.shares.len() == 0 ==> verdict_text(label, verdict) == label + ": "@ + verdict.choice
            + " ("@ + verdict.percent + "% confidence)"@,
        verdict.shares.len() > 0 ==> verdict_text(label, verdict) == label + ": "@ + verdict.choice
            + " ("@ + verdict.percent + "% confidence; "@ + shares_text(verdict.shares) + ")"@,
{
    reveal_strlit("% confidence");
    reveal_strlit("% confidence)");
    reveal_strlit("% confidence; ");
    reveal_strlit("; ");
    reveal_strlit(")");
    assert("% confidence)"@ =~= "% confidence"@ + ")"@);
    assert("% confidence; "@ =~= "% confidence"@ + "; "@);
    let head = label + ": "@ + verdict.choice + " ("@ + verdict.percent;
    assert(head + "% confidence"@ + Seq::<char>::empty() + ")"@ =~= head + "% confidence)"@);
    assert(head + "% confidence"@ + ("; "@ + shares_text(verdict.shares)) + ")"@ =~= head
        + "% confidence; "@ + shares_text(verdict.shares) + ")"@);
}

proof fn lemma_listed_from_first(first: Seq<char>, rest: Seq<Seq<char>>, separator: Seq<char>)
    requires
        rest.len() > 0,
    ensures
        listed(seq![first] + rest, separator) == first + separator + listed(rest, separator),
    decreases rest.len(),
{
    let all = seq![first] + rest;
    assert(all.last() == rest.last());
    assert(all.drop_last() =~= seq![first] + rest.drop_last());
    if rest.len() == 1 {
        assert(rest.drop_last() =~= Seq::<Seq<char>>::empty());
        assert(all.drop_last() =~= seq![first]);
        assert(listed(seq![first], separator) == first);
        assert(rest.last() == rest[0]);
    } else {
        lemma_listed_from_first(first, rest.drop_last(), separator);
        assert(listed(all, separator) =~= first + separator + listed(rest, separator));
    }
}

proof fn lemma_ranked_are_the_shares(shares: Seq<ShareView>, i: int)
    requires
        0 <= i < ranked(shares).len(),
    ensures
        shares.contains(ranked(shares)[i]),
        ranked(shares).len() == shares.len(),
{
    broadcast use vstd::seq_lib::group_to_multiset_ensures;

    law_ranking_keeps_the_shares(shares);
    assert(ranked(shares).to_multiset().count(ranked(shares)[i]) > 0);
    assert(ranked(shares).to_multiset().len() == shares.to_multiset().len());
}

/// Shares are listed one by one, each by its name and its percentage: one that is no
/// larger than any before it comes last, and one that is larger than all comes first.
pub proof fn law_shares_are_listed_by_size(shares: Seq<ShareView>, share: ShareView)
    ensures
        shares_text(seq![share]) == share.name + " "@ + share.percent + "%"@,
        shares.len() > 0 && (forall|i: int|
            0 <= i < shares.len() ==> place((#[trigger] shares[i]).value) >= place(share.value))
            ==> shares_text(shares.push(share)) == shares_text(shares) + ", "@ + share.name + " "@
            + share.percent + "%"@,
        shares.len() > 0 && (forall|i: int|
            0 <= i < shares.len() ==> place((#[trigger] shares[i]).value) < place(share.value))
            ==> shares_text(shares.push(share)) == share.name + " "@ + share.percent + "%"@ + ", "@
            + shares_text(shares),
{
    let show = |share: ShareView| share_text(share);
    let one = seq![share];
    assert(one.drop_last() =~= Seq::<ShareView>::empty());
    assert(one.last() == share);
    assert(ranked(one.drop_last()) =~= Seq::<ShareView>::empty());
    assert(ranked(one) =~= one);
    assert(one.map_values(show) =~= seq![share_text(share)]);
    assert(listed(seq![share_text(share)], ", "@) == share_text(share));
    let before = ranked(shares);
    let after = ranked(shares.push(share));
    assert(shares.push(share).drop_last() =~= shares);
    assert(shares.push(share).last() == share);
    assert(after == ranked_with(before, share));
    if shares.len() > 0 {
        law_ranking_keeps_the_shares(shares);
        lemma_ranked_length(shares);
        let last = before.len() - 1;
        lemma_ranked_are_the_shares(shares, last);
        if forall|i: int|
            0 <= i < shares.len() ==> place((#[trigger] shares[i]).value) >= place(share.value) {
            let k = choose|k: int| 0 <= k < shares.len() && shares[k] == before[last];
            assert(place(shares[k].value) >= place(share.value));
            assert(after =~= before.push(share));
            assert(after.map_values(show) =~= before.map_values(show).push(share_text(share)));
            let list = before.map_values(show).push(share_text(share));
            assert(list.drop_last() =~= before.map_values(show));
            assert(shares_text(shares.push(share)) =~= shares_text(shares) + ", "@ + share.name
                + " "@ + share.percent + "%"@);
        }
        if forall|i: int|
            0 <= i < shares.len() ==> place((#[trigger] shares[i]).value) < place(share.value) {
            assert forall|i: int| 0 <= i < before.len() implies place(#[trigger] before[i].value)
                < place(share.value) by {
                lemma_ranked_are_the_shares(shares, i);
                let k = choose|k: int| 0 <= k < shares.len() && shares[k] == before[i];
                assert(place(shares[k].value) < place(share.value));
            }
            lemma_ranked_with_at(before, share, 0);
            assert(after.map_values(show) =~= seq![share_text(share)] + before.map_values(show));
            lemma_listed_from_first(share_text(share), before.map_values(show), ", "@);
            assert(shares_text(shares.push(share)) =~= share.name + " "@ + share.percent + "%"@
                + ", "@ + shares_text(shares));
        }
    }
}

proof fn lemma_ranked_length(shares: Seq<ShareView>)
    ensures
        ranked(shares).len() == shares.len(),
{
    broadcast use vstd::seq_lib::group_to_multiset_ensures;

    law_ranking_keeps_the_shares(shares);
    assert(ranked(shares).to_multiset().len() == shares.to_multiset().len());
}

/// Doubles are ordered as numbers: of two without a sign the one with the smaller bits
/// is smaller; one with a sign is smaller than one without; and of two with a sign the
/// one with the larger bits is smaller.
pub proof fn law_doubles_are_ordered_by_their_bits(a: u64, b: u64)
    ensures
        a < 0x8000_0000_0000_0000 && b < 0x8000_0000_0000_0000 ==> (place(a) < place(b) <==> a < b),
        a >= 0x8000_0000_0000_0000 && b < 0x8000_0000_0000_0000 ==> place(a) < place(b),
        a >= 0x8000_0000_0000_0000 && b >= 0x8000_0000_0000_0000 ==> (place(a) < place(b) <==> a
            > b),
{
}

/// A double is shown in percent as the first entry for it says; one without an entry is
/// left out.
pub proof fn law_percent_is_the_first_entry(percents: Seq<(u64, Seq<char>)>, bits: u64, k: int)
    ensures
        0 <= k < percents.len() && percents[k].0 == bits && (forall|i: int|
            0 <= i < k ==> (#[trigger] percents[i]).0 != bits) ==> percent_of(percents, bits)
            == percents[k].1,
        (forall|i: int| 0 <= i < percents.len() ==> (#[trigger] percents[i]).0 != bits)
            ==> percent_of(percents, bits).len() == 0,
{
    if 0 <= k < percents.len() && percents[k].0 == bits && (forall|i: int|
        0 <= i < k ==> (#[trigger] percents[i]).0 != bits) {
        lemma_percent_skip(percents, bits, k);
        assert(percents.skip(k)[0] == percents[k]);
    }
    if forall|i: int| 0 <= i < percents.len() ==> (#[trigger] percents[i]).0 != bits {
        lemma_percent_skip(percents, bits, percents.len() as int);
    }
}

/// A choice is summed up as it is: its own name, its confidence in percent, and a share
/// for each probability, in their order, with its name, its value and its percentage.
pub proof fn law_choice_is_summed_up_as_it_is(
    breakdown: BreakdownView,
    percents: Seq<(u64, Seq<char>)>,
    i: int,
)
    ensures
        judged(breakdown, percents).choice == breakdown.choice,
        judged(breakdown, percents).percent == percent_of(percents, breakdown.confidence),
        judged(breakdown, percents).shares.len() == breakdown.probabilities.len(),
        0 <= i < breakdown.probabilities.len() ==> {
            let share = judged(breakdown, percents).shares[i];
            share.name == breakdown.probabilities[i].0 && share.value
                == breakdown.probabilities[i].1 && share.percent == percent_of(
                percents,
                breakdown.probabilities[i].1,
            )
        },
        judged_at(Some(breakdown), percents) == Some(judged(breakdown, percents)),
        judged_at(None, percents) is None,
{
}

proof fn lemma_gathered_names(list: Seq<(Seq<char>, u64)>, i: int)
    requires
        0 <= i < gathered(list).len(),
    ensures
        exists|k: int| 0 <= k < list.len() && (#[trigger] list[k]).0 == gathered(list)[i].0,
    decreases list.len(),
{
    let earlier = list.drop_last();
    let before = gathered(earlier);
    law_gathered_values_are_found(earlier, list.last().0);
    lemma_with_entry_keeps_order(before, list.last().0, list.last().1);
    if gathered(list)[i].0 == list.last().0 {
        assert(list[list.len() - 1].0 == gathered(list)[i].0);
    } else {
        let j = choose|j: int|
            0 <= j < before.len() && (#[trigger] before[j]).0 == gathered(list)[i].0;
        lemma_gathered_names(earlier, j);
        let k = choose|k: int| 0 <= k < earlier.len() && (#[trigger] earlier[k]).0 == before[j].0;
        assert(list[k].0 == gathered(list)[i].0);
    }
}

/// An answer is taken exactly where it chooses one of the choices, its confidence is a
/// double from 0 to 1, and its probabilities are for these choices and no other, each
/// of which has one from 0 to 1; of a choice that is there twice the last one counts.
/// It is taken as it is; any other answer is told to be invalid.
pub proof fn law_answer_is_taken_as_it_is(answer: ChoiceAnswer, allowed: Seq<Seq<char>>)
    requires
        allowed.no_duplicates(),
    ensures
        breakdown_of(answer, allowed) is Ok <==> {
            let list = named_values(answer.probabilities@);
            &&& allowed.contains(answer.choice@)
            &&& answer.confidence <= 0x3ff0_0000_0000_0000 || answer.confidence
                == 0x8000_0000_0000_0000
            &&& forall|k: int| 0 <= k < list.len() ==> allowed.contains((#[trigger] list[k]).0)
            &&& forall|i: int|
                0 <= i < allowed.len() ==> (last_value(list, #[trigger] allowed[i]) matches Some(
                    value,
                ) && (value <= 0x3ff0_0000_0000_0000 || value == 0x8000_0000_0000_0000))
        },
        breakdown_of(answer, allowed) matches Ok(breakdown) ==> breakdown.choice == answer.choice@
            && breakdown.confidence == answer.confidence && breakdown.probabilities == gathered(
            named_values(answer.probabilities@),
        ),
        breakdown_of(answer, allowed) matches Err(error) ==> error == "Invalid Jev response"@,
{
    let list = named_values(answer.probabilities@);
    let entries = gathered(list);
    assert forall|i: int| 0 <= i < allowed.len() implies entry_of(entries, #[trigger] allowed[i])
        == last_value(list, allowed[i]) by {
        law_gathered_values_are_found(list, allowed[i]);
    }
    law_gathered_values_are_found(list, answer.choice@);
    if is_valid_answer(answer, allowed) {
        assert forall|k: int| 0 <= k < list.len() implies allowed.contains(
            (#[trigger] list[k]).0,
        ) by {
            lemma_last_value_is_there(list, k);
            law_gathered_values_are_found(list, list[k].0);
            lemma_entry_is_there(entries, list[k].0);
            let i = choose|i: int| 0 <= i < entries.len() && (#[trigger] entries[i]).0 == list[k].0;
            law_valid_answer_names_no_other_choice(answer, allowed, i);
        }
        assert forall|i: int| 0 <= i < allowed.len() implies (last_value(
            list,
            #[trigger] allowed[i],
        ) matches Some(value) && (value <= 0x3ff0_0000_0000_0000 || value
            == 0x8000_0000_0000_0000)) by {
            assert(entry_of(entries, allowed[i]) is Some);
        }
    }
    if (forall|k: int| 0 <= k < list.len() ==> allowed.contains((#[trigger] list[k]).0)) && (
    forall|i: int|
        0 <= i < allowed.len() ==> (last_value(list, #[trigger] allowed[i]) matches Some(value)
            && (value <= 0x3ff0_0000_0000_0000 || value == 0x8000_0000_0000_0000))) {
        let found = entries.map_values(|entry: (Seq<char>, u64)| entry.0);
        assert(found.no_duplicates()) by {
            assert forall|a: int, b: int|
                0 <= a < found.len() && 0 <= b < found.len() && a != b implies found[a]
                != found[b] by {
                lemma_text_order_is_total(entries[a].0, entries[b].0);
                if a < b {
                    assert(text_before(entries[a].0, entries[b].0));
                } else {
                    assert(text_before(entries[b].0, entries[a].0));
                }
            }
        }
        allowed.unique_seq_to_set();
        found.unique_seq_to_set();
        assert(found.to_set() =~= allowed.to_set()) by {
            assert forall|name: Seq<char>| found.to_set().contains(name)
                <==> allowed.to_set().contains(name) by {
                if found.to_set().contains(name) {
                    let i = choose|i: int| 0 <= i < found.len() && found[i] == name;
                    lemma_gathered_names(list, i);
                    let k = choose|k: int|
                        0 <= k < list.len() && (#[trigger] list[k]).0 == entries[i].0;
                    assert(allowed.contains(list[k].0));
                }
                if allowed.to_set().contains(name) {
                    let i = choose|i: int| 0 <= i < allowed.len() && allowed[i] == name;
                    assert(entry_of(entries, allowed[i]) is Some);
                    lemma_entry_is_there(entries, name);
                    let j = choose|j: int|
                        0 <= j < entries.len() && (#[trigger] entries[j]).0 == name;
                    assert(found[j] == name);
                }
            }
        }
        assert(entries.len() == allowed.len());
        assert forall|i: int| 0 <= i < allowed.len() implies (entry_of(
            entries,
            #[trigger] allowed[i],
        ) matches Some(value) && is_probability(value)) by {
            assert(last_value(list, allowed[i]) is Some);
        }
    }
}

proof fn lemma_last_value_is_there(list: Seq<(Seq<char>, u64)>, k: int)
    requires
        0 <= k < list.len(),
    ensures
        last_value(list, list[k].0) is Some,
    decreases list.len(),
{
    if list.last().0 != list[k].0 {
        assert(list.drop_last()[k] == list[k]);
        lemma_last_value_is_there(list.drop_last(), k);
    }
}

/// A message that was classified has an answer to each of the three questions: whether
/// it is a job opportunity, of what type the role is and of what seniority, each by one
/// of its choices with its confidence, from the model that was asked.
pub proof fn law_classified_message_has_three_answers(
    opportunity: Option<ChoiceAnswer>,
    role_type: Option<ChoiceAnswer>,
    seniority: Option<ChoiceAnswer>,
    assessment: AssessmentView,
)
    requires
        assessment_of(opportunity, role_type, seniority) == Ok::<AssessmentView, Seq<char>>(
            assessment,
        ),
    ensures
        opportunity is Some && assessment.opportunity.choice == opportunity->0.choice@
            && assessment.opportunity.confidence == opportunity->0.confidence
            && assessment.opportunity.probabilities == gathered(
            named_values(opportunity->0.probabilities@),
        ),
        assessment.opportunity.choice == "yes"@ || assessment.opportunity.choice == "no"@
            || assessment.opportunity.choice == "uncertain"@,
        role_type is Some && (assessment.role_type matches Some(role) && role.choice
            == role_type->0.choice@ && role.confidence == role_type->0.confidence
            && role.probabilities == gathered(named_values(role_type->0.probabilities@)) && (
        role.choice == "backend"@ || role.choice == "frontend"@ || role.choice == "fullstack"@
            || role.choice == "platform_devops"@ || role.choice == "data_ai"@ || role.choice
            == "mobile"@ || role.choice == "engineering_management"@ || role.choice
            == "other_unknown"@)),
        seniority is Some && (assessment.seniority matches Some(level) && level.choice
            == seniority->0.choice@ && level.confidence == seniority->0.confidence
            && level.probabilities == gathered(named_values(seniority->0.probabilities@)) && (
        level.choice == "intern_junior"@ || level.choice == "middle"@ || level.choice == "senior"@
            || level.choice == "staff_principal"@ || level.choice == "lead_manager"@ || level.choice
            == "unknown"@)),
        assessment.model == "jev-1.13.0"@,
{
    let a = assessment.opportunity.choice;
    let i = choose|i: int| 0 <= i < opportunity_choices().len() && opportunity_choices()[i] == a;
    let b = assessment.role_type->0.choice;
    let j = choose|j: int| 0 <= j < role_choices().len() && role_choices()[j] == b;
    let c = assessment.seniority->0.choice;
    let k = choose|k: int| 0 <= k < seniority_choices().len() && seniority_choices()[k] == c;
}

/// What stands in the way of an assessment is told in the order of the questions: an
/// answer that is missing, by its question, or one that is not valid.
pub proof fn law_missing_answers_are_told(
    opportunity: Option<ChoiceAnswer>,
    role_type: Option<ChoiceAnswer>,
    seniority: Option<ChoiceAnswer>,
)
    ensures
        ({
            let result = assessment_of(opportunity, role_type, seniority);
            let opportunities = seq!["yes"@, "no"@, "uncertain"@];
            let roles = seq![
                "backend"@,
                "frontend"@,
                "fullstack"@,
                "platform_devops"@,
                "data_ai"@,
                "mobile"@,
                "engineering_management"@,
                "other_unknown"@,
            ];
            let levels = seq![
                "intern_junior"@,
                "middle"@,
                "senior"@,
                "staff_principal"@,
                "lead_manager"@,
                "unknown"@,
            ];
            if opportunity is None {
                result == Err::<AssessmentView, Seq<char>>("Jev response missed job_opportunity"@)
            } else if !is_valid_answer(opportunity->0, opportunities) {
                result == Err::<AssessmentView, Seq<char>>("Invalid Jev response"@)
            } else if role_type is None {
                result == Err::<AssessmentView, Seq<char>>("Jev response missed role_type"@)
            } else if !is_valid_answer(role_type->0, roles) {
                result == Err::<AssessmentView, Seq<char>>("Invalid Jev response"@)
            } else if seniority is None {
                result == Err::<AssessmentView, Seq<char>>("Jev response missed seniority"@)
            } else if !is_valid_answer(seniority->0, levels) {
                result == Err::<AssessmentView, Seq<char>>("Invalid Jev response"@)
            } else {
                result is Ok
            }
        }),
{
}

/// An assessment is known by its parts: the choice of its opportunity with the confidence
/// and the probabilities, its role and its seniority, where it has them, and its model.
pub proof fn law_assessment_is_known_by_its_parts(assessment: Assessment, share: Share, i: int)
    ensures
        assessment@.opportunity.choice == assessment.choice@,
        assessment@.opportunity.confidence == assessment.confidence,
        assessment@.opportunity.probabilities.len() == assessment.probabilities@.len(),
        0 <= i < assessment.probabilities@.len() ==> assessment@.opportunity.probabilities[i] == (
            assessment.probabilities@[i].0@,
            assessment.probabilities@[i].1,
        ),
        assessment.role_type matches Some(role) ==> (assessment@.role_type matches Some(shown)
            && shown.choice == role.choice@ && shown.confidence == role.confidence
            && shown.probabilities.len() == role.probabilities@.len()),
        assessment.role_type is None ==> assessment@.role_type is None,
        assessment.seniority matches Some(seniority) ==> (assessment@.seniority matches Some(shown)
            && shown.choice == seniority.choice@ && shown.confidence == seniority.confidence
            && shown.probabilities.len() == seniority.probabilities@.len()),
        assessment.seniority is None ==> assessment@.seniority is None,
        assessment@.model == assessment.model@,
        share@.name == share.name@,
        share@.value == share.value,
        share@.percent == share.percent@,
{
}

/// An optional verdict is shown where it is there, with its choice, its percent and every
/// share of it, and nothing where it is not.
pub proof fn law_optional_verdicts_are_shown(verdict: Option<Verdict>, i: int)
    ensures
        verdict matches Some(given) ==> (verdict_at(verdict) matches Some(shown) && shown.choice
            == given.choice@ && shown.percent == given.percent@ && shown.shares.len()
            == given.shares@.len() && (0 <= i < given.shares@.len() ==> shown.shares[i]
            == given.shares@[i]@)),
        verdict is None ==> verdict_at(verdict) is None,
{
}

} // verus!
