//! What a request to a model offers, and what its answers decide.
use crate::api::{
    ActionModel, AppStateModel, RepeatRequestModel, SkillModel, ToolCallModel, ToolResultModel,
};
use crate::jev::{
    action_key, answer, base_offer, callable_skills, candidate_index, common_questions, context_of,
    continuation_choices, continuation_of, count_choices, decoded, described, descriptor,
    directory_tags, future_offer, instructions, judged, keys_choose_their_candidates,
    keys_tell_candidates_apart, load_name, load_tag, members, next_choices, next_offer, offers,
    options_of, pending_name, question, repeats, replacing_calls, replacing_skills, request_body,
    request_of, selected_action, sequences, single, slot_actions, slot_choices, slot_count,
    slot_flaw, slot_name, some_execute, some_repeat, tags_placed, with_calls, with_directory,
    with_replacement_slots, with_sequence_slots, with_skills, with_tags, OfferModel,
    ReplacementModel, Take,
};
use crate::json::{begins, JsonModel};
use crate::kernel::{Continuation, DecisionModel, ErrorModel};
use crate::skills::{SkillSummaryModel, SkillViewModel};
use crate::text;
use crate::wire;
use crate::text::Text;
use vstd::prelude::*;

verus! {

/// Whether the choices of a question are the numerals of the numbers from one to a bound, all of
/// them and nothing else.
pub open spec fn counts_to(criteria: JsonModel, bound: nat) -> bool {
    &&& criteria is Object
    &&& forall|n: nat| 1 <= n <= bound ==> criteria.has(#[trigger] text::decimal(n))
    &&& forall|key: Text| #[trigger]
        criteria.has(key) ==> exists|n: nat| 1 <= n <= bound && key == #[trigger] text::decimal(n)
}

proof fn lemma_counts(bound: nat)
    ensures
        counts_to(count_choices(bound), bound),
    decreases bound,
{
    if bound > 0 {
        let less = (bound - 1) as nat;
        lemma_counts(less);
        let all = count_choices(bound);
        assert forall|key: Text| #[trigger] all.has(key) implies exists|n: nat|
            1 <= n <= bound && key == #[trigger] text::decimal(n) by {
            if count_choices(less).has(key) {
                let n = choose|n: nat| 1 <= n <= less && key == #[trigger] text::decimal(n);
                assert(1 <= n <= bound && key == text::decimal(n));
            } else {
                assert(key == text::decimal(bound));
            }
        }
    }
}

/// Whether a name is that of a question that is asked in every request, whatever its slots.
spec fn lasting(name: Text) -> bool {
    ||| name == "repeat_count"@
    ||| name == "next_action"@
    ||| name == "continuation"@
    ||| name == "replacement_continuation"@
}

proof fn lemma_lasting_names(name: Text, slot: nat)
    requires
        lasting(name),
    ensures
        name != slot_name("sequence"@, "_action_"@, slot),
        name != slot_name("sequence"@, "_count_"@, slot),
        name != slot_name("replacement"@, "_action_"@, slot),
        name != slot_name("replacement"@, "_count_"@, slot),
{
    reveal_strlit("repeat_count");
    reveal_strlit("next_action");
    reveal_strlit("continuation");
    reveal_strlit("replacement_continuation");
    reveal_strlit("sequence");
    reveal_strlit("replacement");
    reveal_strlit("_action_");
    reveal_strlit("_count_");
    let a = slot_name("sequence"@, "_action_"@, slot);
    let b = slot_name("sequence"@, "_count_"@, slot);
    let c = slot_name("replacement"@, "_action_"@, slot);
    let d = slot_name("replacement"@, "_count_"@, slot);
    assert(a[0] == 's' && b[0] == 's');
    assert(c[0] == 'r' && c[3] == 'l' && c[12] == 'a');
    assert(d[0] == 'r' && d[3] == 'l' && d[14] == 'u');
    assert("repeat_count"@[3] == 'e' && "repeat_count"@[0] == 'r');
    assert("next_action"@[0] == 'n');
    assert("continuation"@[0] == 'c');
    assert("replacement_continuation"@[0] == 'r' && "replacement_continuation"@[12] == 'c'
        && "replacement_continuation"@[14] == 'n');
}

proof fn lemma_slot_names(prefix: Text, i: nat, j: nat)
    requires
        prefix == "sequence"@ || prefix == "replacement"@,
    ensures
        slot_name(prefix, "_action_"@, i) != slot_name(prefix, "_count_"@, j),
        slot_name(prefix, "_action_"@, i) == slot_name(prefix, "_action_"@, j) ==> i == j,
        slot_name(prefix, "_count_"@, i) == slot_name(prefix, "_count_"@, j) ==> i == j,
{
    reveal_strlit("_action_");
    reveal_strlit("_count_");
    let n = prefix.len() as int;
    assert(slot_name(prefix, "_action_"@, i)[n + 1] == 'a');
    assert(slot_name(prefix, "_count_"@, j)[n + 1] == 'c');
    assert forall|middle: Text| #![trigger slot_name(prefix, middle, i)]
        slot_name(prefix, middle, i) == slot_name(prefix, middle, j) implies i == j by {
        let m = n + middle.len();
        assert(slot_name(prefix, middle, i).skip(m) =~= text::decimal(i));
        assert(slot_name(prefix, middle, j).skip(m) =~= text::decimal(j));
        text::decimal_is_injective(i, j);
    }
}

#[verifier::spinoff_prover]
proof fn lemma_sequence_slots(
    questions: JsonModel,
    first: JsonModel,
    later: JsonModel,
    counts: Option<JsonModel>,
    slots: nat,
)
    requires
        questions is Object,
    ensures
        ({
            let all = with_sequence_slots(questions, first, later, counts, slots);
            &&& all is Object
            &&& forall|name: Text|
                lasting(name) ==> (#[trigger] all.has(name)) == questions.has(name) && all.at(name)
                    == questions.at(name)
            &&& forall|k: nat|
                1 <= k <= slots ==> {
                    let asked = #[trigger] slot_name("sequence"@, "_action_"@, k);
                    all.has(asked) && all.at(asked).at("criteria"@) == if k == 1 {
                        first
                    } else {
                        later
                    }
                }
            &&& counts matches Some(counts) ==> forall|k: nat|
                1 <= k <= slots ==> {
                    let asked = #[trigger] slot_name("sequence"@, "_count_"@, k);
                    all.has(asked) && all.at(asked).at("criteria"@) == counts
                }
        }),
    decreases slots,
{
    if slots > 0 {
        let n = (slots - 1) as nat;
        let less = with_sequence_slots(questions, first, later, counts, n);
        let all = with_sequence_slots(questions, first, later, counts, slots);
        lemma_sequence_slots(questions, first, later, counts, n);
        assert(less is Object);
        assert(all is Object);
        assert forall|name: Text| lasting(name) implies (#[trigger] all.has(name))
            == questions.has(name) && all.at(name) == questions.at(name) by {
            lemma_lasting_names(name, slots);
            assert(less.has(name) == questions.has(name));
        }
        assert forall|k: nat| 1 <= k <= slots implies {
            let asked = #[trigger] slot_name("sequence"@, "_action_"@, k);
            all.has(asked) && all.at(asked).at("criteria"@) == if k == 1 {
                first
            } else {
                later
            }
        } by {
            lemma_slot_names("sequence"@, k, slots);
        }
        if counts is Some {
            assert forall|k: nat| 1 <= k <= slots implies {
                let asked = #[trigger] slot_name("sequence"@, "_count_"@, k);
                all.has(asked) && all.at(asked).at("criteria"@) == counts->0
            } by {
                lemma_slot_names("sequence"@, k, slots);
                lemma_slot_names("sequence"@, slots, k);
            }
        }
    }
}

#[verifier::spinoff_prover]
proof fn lemma_replacement_slots(
    questions: JsonModel,
    choices: JsonModel,
    counts: Option<JsonModel>,
    slots: nat,
)
    requires
        questions is Object,
    ensures
        ({
            let all = with_replacement_slots(questions, choices, counts, slots);
            &&& all is Object
            &&& forall|name: Text|
                lasting(name) ==> (#[trigger] all.has(name)) == questions.has(name) && all.at(name)
                    == questions.at(name)
            &&& forall|k: nat|
                1 <= k <= slots ==> {
                    let asked = #[trigger] slot_name("replacement"@, "_action_"@, k);
                    all.has(asked) && all.at(asked).at("criteria"@) == choices
                }
            &&& counts matches Some(counts) ==> forall|k: nat|
                1 <= k <= slots ==> {
                    let asked = #[trigger] slot_name("replacement"@, "_count_"@, k);
                    all.has(asked) && all.at(asked).at("criteria"@) == counts
                }
        }),
    decreases slots,
{
    if slots > 0 {
        let n = (slots - 1) as nat;
        let less = with_replacement_slots(questions, choices, counts, n);
        let all = with_replacement_slots(questions, choices, counts, slots);
        lemma_replacement_slots(questions, choices, counts, n);
        assert(less is Object);
        assert(all is Object);
        assert forall|name: Text| lasting(name) implies (#[trigger] all.has(name))
            == questions.has(name) && all.at(name) == questions.at(name) by {
            lemma_lasting_names(name, slots);
            assert(less.has(name) == questions.has(name));
        }
        assert forall|k: nat| 1 <= k <= slots implies {
            let asked = #[trigger] slot_name("replacement"@, "_action_"@, k);
            all.has(asked) && all.at(asked).at("criteria"@) == choices
        } by {
            lemma_slot_names("replacement"@, k, slots);
        }
        if counts is Some {
            assert forall|k: nat| 1 <= k <= slots implies {
                let asked = #[trigger] slot_name("replacement"@, "_count_"@, k);
                all.has(asked) && all.at(asked).at("criteria"@) == counts->0
            } by {
                lemma_slot_names("replacement"@, k, slots);
                lemma_slot_names("replacement"@, slots, k);
            }
        }
    }
}

/// The choices that a request offers to a question.
pub open spec fn choices(request: JsonModel, name: Text) -> JsonModel {
    request.at("questions"@).at(name).at("criteria"@)
}

/// Whether a request asks a question.
pub open spec fn asks(request: JsonModel, name: Text) -> bool {
    request.at("questions"@).has(name)
}

/// Whether a decision is to repeat one call.
pub open spec fn is_repeat(decision: DecisionModel) -> bool {
    decision matches DecisionModel::Execute { actions, .. } && actions.len() > 0
        && actions[0] is Repeat
}

/// Whether a decision is to execute something.
pub open spec fn is_execution(decision: DecisionModel) -> bool {
    decision is Execute
}

proof fn lemma_body(model: Text, context: JsonModel, questions: JsonModel)
    ensures
        request_body(model, context, questions).at("questions"@) == questions,
        request_body(model, context, questions).at("state"@) == context,
        request_body(model, context, questions).at("model"@) == JsonModel::Text(model),
{
    reveal_strlit("questions");
    reveal_strlit("state");
    reveal_strlit("model");
    assert("questions"@.len() == 9 && "state"@.len() == 5 && "model"@.len() == 5);
    assert("state"@[0] == 's' && "model"@[0] == 'm');
}

proof fn lemma_common(view: SkillViewModel, candidates: Seq<DecisionModel>, counts: JsonModel)
    ensures
        ({
            let q = common_questions(view, candidates, counts);
            &&& q is Object
            &&& !q.has("next_action"@)
            &&& !q.has("replacement_continuation"@)
            &&& q.has("repeat_count"@) == (exists|i: int|
                0 <= i < candidates.len() && is_repeat(#[trigger] candidates[i]))
            &&& q.has("continuation"@) == (exists|i: int|
                0 <= i < candidates.len() && is_execution(#[trigger] candidates[i]))
            &&& q.has("repeat_count"@) ==> q.at("repeat_count"@).at("criteria"@) == counts
            &&& q.has("continuation"@) ==> q.at("continuation"@).at("criteria"@)
                == continuation_choices(view.execution is Some)
        }),
{
    reveal_strlit("repeat_count");
    reveal_strlit("next_action");
    reveal_strlit("continuation");
    reveal_strlit("replacement_continuation");
    assert("repeat_count"@[0] == 'r' && "next_action"@[0] == 'n' && "continuation"@[0] == 'c');
    assert("repeat_count"@.len() == 12 && "replacement_continuation"@.len() == 24);
    lemma_some(candidates);
}

/// What is done by a call that a skill suggests: a loop where the skill loops, repeats where it
/// can be repeated, and otherwise the plain call.
pub open spec fn suggestion(skill: SkillModel, call: ToolCallModel, max_repeat: u32) -> ActionModel {
    if skill.loopable {
        ActionModel::UntilDone(call)
    } else if skill.repeatable {
        ActionModel::Repeat(RepeatRequestModel { call, times: max_repeat })
    } else {
        ActionModel::Call(call)
    }
}

/// One action, after which the model is asked again.
pub open spec fn alone(action: ActionModel) -> DecisionModel {
    DecisionModel::Execute { actions: seq![action], then: Continuation::Decide }
}

/// An offer that has more candidates than another: those of the other come first, and each of the
/// new ones can be chosen by its key, which is all that can be chosen in addition.
pub open spec fn grows(before: OfferModel, after: OfferModel) -> bool {
    let n = before.candidates.len() as int;
    &&& before.criteria is Object ==> after.criteria is Object
    &&& n <= after.candidates.len()
    &&& after.candidates.take(n) == before.candidates
    &&& forall|i: int|
        n <= i < after.candidates.len() ==> after.criteria.has(
            #[trigger] action_key(i, after.candidates[i]),
        )
    &&& forall|key: Text| #[trigger]
        after.criteria.has(key) ==> before.criteria.has(key) || exists|i: int|
            n <= i < after.candidates.len() && key == #[trigger] action_key(i, after.candidates[i])
    &&& forall|key: Text| before.criteria.has(key) ==> #[trigger] after.criteria.has(key)
}

proof fn lemma_grows_refl(offer: OfferModel)
    ensures
        grows(offer, offer),
{
    assert(offer.candidates.take(offer.candidates.len() as int) =~= offer.candidates);
}

proof fn lemma_grows_by_one(before: OfferModel, decision: DecisionModel, description: JsonModel)
    requires
        before.criteria is Object,
    ensures
        grows(before, before.and(decision, description)),
{
    let after = before.and(decision, description);
    let n = before.candidates.len() as int;
    assert(after.candidates.take(n) =~= before.candidates);
    assert forall|key: Text| #[trigger] after.criteria.has(key) implies before.criteria.has(key)
        || exists|i: int|
        n <= i < after.candidates.len() && key == #[trigger] action_key(
            i,
            after.candidates[i],
        ) by {
        if !before.criteria.has(key) {
            assert(key == action_key(n, after.candidates[n]));
        }
    }
}

proof fn lemma_grows_trans(a: OfferModel, b: OfferModel, c: OfferModel)
    requires
        a.criteria is Object,
        grows(a, b),
        grows(b, c),
    ensures
        grows(a, c),
{
    let n = a.candidates.len() as int;
    let m = b.candidates.len() as int;
    assert(c.candidates.take(n) =~= a.candidates) by {
        assert(c.candidates.take(m).take(n) =~= c.candidates.take(n));
    }
    assert forall|i: int| n <= i < c.candidates.len() implies c.criteria.has(
        #[trigger] action_key(i, c.candidates[i]),
    ) by {
        if i < m {
            assert(c.candidates.take(m)[i] == b.candidates[i]);
            assert(b.criteria.has(action_key(i, b.candidates[i])));
        }
    }
    assert forall|key: Text| #[trigger] c.criteria.has(key) implies a.criteria.has(key) || exists|
        i: int,
    | n <= i < c.candidates.len() && key == #[trigger] action_key(i, c.candidates[i]) by {
        if b.criteria.has(key) && !a.criteria.has(key) {
            let i = choose|i: int|
                n <= i < b.candidates.len() && key == #[trigger] action_key(i, b.candidates[i]);
            assert(c.candidates.take(m)[i] == b.candidates[i]);
            assert(key == action_key(i, c.candidates[i]));
        }
    }
}

/// What a step of an offer makes of a call that a skill suggests.
spec fn taken(skill: SkillModel, call: ToolCallModel, max_repeat: u32, take: Take) -> DecisionModel {
    if take == Take::Callable {
        alone(ActionModel::Call(call))
    } else {
        alone(suggestion(skill, call, max_repeat))
    }
}

proof fn lemma_calls(
    offer: OfferModel,
    skill: SkillModel,
    calls: Seq<ToolCallModel>,
    max_repeat: u32,
    take: Take,
)
    requires
        offer.criteria is Object,
        with_calls(offer, skill, calls, max_repeat, take) is Ok,
    ensures
        ({
            let after = with_calls(offer, skill, calls, max_repeat, take)->Ok_0;
            &&& grows(offer, after)
            &&& after.candidates =~= offer.candidates + Seq::new(
                calls.len(),
                |c: int| taken(skill, calls[c], max_repeat, take),
            )
            &&& forall|c: int| 0 <= c < calls.len() ==> (#[trigger] calls[c]).name == skill.name
        }),
    decreases calls.len(),
{
    if calls.len() == 0 {
        lemma_grows_refl(offer);
    } else {
        let less = calls.drop_last();
        lemma_calls(offer, skill, less, max_repeat, take);
        let before = with_calls(offer, skill, less, max_repeat, take)->Ok_0;
        let after = with_calls(offer, skill, calls, max_repeat, take)->Ok_0;
        let decision = after.candidates.last();
        assert(after.candidates =~= before.candidates.push(decision));
        assert(decision == taken(skill, calls.last(), max_repeat, take));
        let description = described(skill, decision, take == Take::Future);
        assert(after == before.and(decision, description));
        lemma_grows_by_one(before, decision, description);
        lemma_grows_trans(offer, before, after);
        assert forall|c: int| 0 <= c < calls.len() implies (#[trigger] calls[c]).name
            == skill.name by {
            if c < calls.len() - 1 {
                assert(less[c] == calls[c]);
            }
        }
    }
}

/// Whether a decision is what a step of an offer makes of a call that one of the skills suggests.
spec fn drawn(decision: DecisionModel, skills: Seq<SkillModel>, max_repeat: u32, take: Take) -> bool {
    exists|k: int, c: int|
        #![trigger skills[k].calls[c]]
        #![trigger skills[k].calls[c]]
        {
            &&& 0 <= k < skills.len()
            &&& 0 <= c < skills[k].calls.len()
            &&& take.takes(skills[k])
            &&& skills[k].calls[c].name == skills[k].name
            &&& decision == taken(skills[k], skills[k].calls[c], max_repeat, take)
        }
}

proof fn lemma_drawn_more(
    decision: DecisionModel,
    less: Seq<SkillModel>,
    skills: Seq<SkillModel>,
    max_repeat: u32,
    take: Take,
)
    requires
        skills.len() > 0,
        less == skills.drop_last(),
        drawn(decision, less, max_repeat, take),
    ensures
        drawn(decision, skills, max_repeat, take),
{
    let (k, c) = choose|k: int, c: int|
        #![trigger less[k].calls[c]]
        {
            &&& 0 <= k < less.len()
            &&& 0 <= c < less[k].calls.len()
            &&& take.takes(less[k])
            &&& less[k].calls[c].name == less[k].name
            &&& decision == taken(less[k], less[k].calls[c], max_repeat, take)
        };
    assert(skills[k] == less[k]);
    assert(skills[k].calls[c] == less[k].calls[c]);
}

proof fn lemma_skills(offer: OfferModel, skills: Seq<SkillModel>, max_repeat: u32, take: Take)
    requires
        offer.criteria is Object,
        with_skills(offer, skills, max_repeat, take) is Ok,
    ensures
        ({
            let after = with_skills(offer, skills, max_repeat, take)->Ok_0;
            let n = offer.candidates.len() as int;
            &&& grows(offer, after)
            &&& forall|i: int|
                n <= i < after.candidates.len() ==> drawn(
                    #[trigger] after.candidates[i],
                    skills,
                    max_repeat,
                    take,
                )
            &&& forall|k: int, c: int|
                #![trigger skills[k].calls[c]]
                0 <= k < skills.len() && 0 <= c < skills[k].calls.len() && take.takes(skills[k])
                    ==> exists|i: int|
                    n <= i < after.candidates.len() && #[trigger] after.candidates[i] == taken(
                        skills[k],
                        skills[k].calls[c],
                        max_repeat,
                        take,
                    )
        }),
    decreases skills.len(),
{
    if skills.len() == 0 {
        lemma_grows_refl(offer);
    } else {
        let less = skills.drop_last();
        let skill = skills.last();
        let last = less.len() as int;
        assert(skills[last] == skill);
        lemma_skills(offer, less, max_repeat, take);
        let before = with_skills(offer, less, max_repeat, take)->Ok_0;
        let after = with_skills(offer, skills, max_repeat, take)->Ok_0;
        let n = offer.candidates.len() as int;
        let m = before.candidates.len() as int;
        if take.takes(skill) {
            lemma_calls(before, skill, skill.calls, max_repeat, take);
        } else {
            lemma_grows_refl(before);
        }
        lemma_grows_trans(offer, before, after);
        assert forall|i: int| n <= i < after.candidates.len() implies drawn(
            #[trigger] after.candidates[i],
            skills,
            max_repeat,
            take,
        ) by {
            if i < m {
                assert(after.candidates.take(m)[i] == before.candidates[i]);
                lemma_drawn_more(before.candidates[i], less, skills, max_repeat, take);
            } else {
                assert(skills[last].calls[i - m].name == skill.name);
            }
        }
        assert forall|k: int, c: int|
            #![trigger skills[k].calls[c]]
            0 <= k < skills.len() && 0 <= c < skills[k].calls.len() && take.takes(
                skills[k],
            ) implies exists|i: int|
            n <= i < after.candidates.len() && #[trigger] after.candidates[i] == taken(
                skills[k],
                skills[k].calls[c],
                max_repeat,
                take,
            ) by {
            if k < last {
                assert(less[k].calls[c] == skills[k].calls[c]);
                let i = choose|i: int|
                    n <= i < m && #[trigger] before.candidates[i] == taken(
                        less[k],
                        less[k].calls[c],
                        max_repeat,
                        take,
                    );
                assert(after.candidates.take(m)[i] == before.candidates[i]);
                assert(after.candidates[i] == before.candidates[i]);
            } else {
                assert(after.candidates[m + c] == taken(skill, skill.calls[c], max_repeat, take));
            }
        }
    }
}

proof fn lemma_directory(offer: OfferModel, directory: Seq<SkillSummaryModel>)
    requires
        offer.criteria is Object,
    ensures
        grows(offer, with_directory(offer, directory)),
        with_directory(offer, directory).candidates =~= offer.candidates + Seq::new(
            directory.len(),
            |j: int| load_name(directory[j].name),
        ),
    decreases directory.len(),
{
    if directory.len() == 0 {
        lemma_grows_refl(offer);
    } else {
        let less = directory.drop_last();
        let before = with_directory(offer, less);
        let after = with_directory(offer, directory);
        lemma_directory(offer, less);
        let name = directory.last().name;
        let described = single("load_skill"@, JsonModel::Text(name));
        assert(after == before.and(load_name(name), described));
        lemma_grows_by_one(before, load_name(name), described);
        lemma_grows_trans(offer, before, after);
    }
}

proof fn lemma_tags(offer: OfferModel, tags: Seq<Text>)
    requires
        offer.criteria is Object,
    ensures
        grows(offer, with_tags(offer, tags)),
        with_tags(offer, tags).candidates =~= offer.candidates + Seq::new(
            tags.len(),
            |j: int| load_tag(tags[j]),
        ),
    decreases tags.len(),
{
    if tags.len() == 0 {
        lemma_grows_refl(offer);
    } else {
        let less = tags.drop_last();
        let before = with_tags(offer, less);
        let after = with_tags(offer, tags);
        lemma_tags(offer, less);
        let described = single("load_tag"@, JsonModel::Text(tags.last()));
        assert(after == before.and(load_tag(tags.last()), described));
        lemma_grows_by_one(before, load_tag(tags.last()), described);
        lemma_grows_trans(offer, before, after);
    }
}

proof fn lemma_placed_tags(tags: Seq<Text>, more: Seq<Text>, tag: Text)
    requires
        text::ordered(tags),
    ensures
        text::ordered(tags_placed(tags, more)),
        tags_placed(tags, more).contains(tag) == (tags.contains(tag) || more.contains(tag)),
    decreases more.len(),
{
    if more.len() > 0 {
        lemma_placed_tags(tags, more.drop_last(), tag);
        text::placed_is_ordered_insertion(tags_placed(tags, more.drop_last()), more.last());
        assert(more =~= more.drop_last().push(more.last()));
        if more.contains(tag) && !more.drop_last().contains(tag) {
            let i = choose|i: int| 0 <= i < more.len() && more[i] == tag;
            if i < more.len() - 1 {
                assert(more.drop_last()[i] == tag);
            }
        }
        if more.drop_last().contains(tag) {
            let i = choose|i: int| 0 <= i < more.len() - 1 && more.drop_last()[i] == tag;
            assert(more[i] == tag);
        }
        assert(more[more.len() - 1] == more.last());
    }
}

/// Whether some entry of a directory has a tag.
pub open spec fn tagged(directory: Seq<SkillSummaryModel>, tag: Text) -> bool {
    exists|j: int| 0 <= j < directory.len() && (#[trigger] directory[j]).tags.contains(tag)
}

proof fn lemma_directory_tags(directory: Seq<SkillSummaryModel>, tag: Text)
    ensures
        text::ordered(directory_tags(directory)),
        directory_tags(directory).contains(tag) == tagged(directory, tag),
    decreases directory.len(),
{
    if directory.len() > 0 {
        let less = directory.drop_last();
        lemma_directory_tags(less, tag);
        lemma_placed_tags(directory_tags(less), directory.last().tags, tag);
        if tagged(less, tag) {
            let j = choose|j: int| 0 <= j < less.len() && (#[trigger] less[j]).tags.contains(tag);
            assert(directory[j].tags.contains(tag));
        }
        if directory.last().tags.contains(tag) {
            assert(directory[directory.len() - 1].tags.contains(tag));
        }
        if tagged(directory, tag) && !directory.last().tags.contains(tag) {
            let j = choose|j: int|
                0 <= j < directory.len() && (#[trigger] directory[j]).tags.contains(tag);
            assert(less[j].tags.contains(tag));
        }
    }
}

proof fn lemma_callable(skills: Seq<SkillModel>, pending: Option<Text>)
    ensures
        forall|skill: SkillModel| #[trigger]
            callable_skills(skills, pending).contains(skill) == (skills.contains(skill)
                && !skill.repeatable && !skill.loopable && pending != Some(skill.name)),
    decreases skills.len(),
{
    if skills.len() > 0 {
        let less = skills.drop_last();
        let last = skills.last();
        lemma_callable(less, pending);
        assert(skills =~= less.push(last));
        let found = callable_skills(less, pending);
        assert forall|skill: SkillModel| #[trigger]
            callable_skills(skills, pending).contains(skill) == (skills.contains(skill)
                && !skill.repeatable && !skill.loopable && pending != Some(skill.name)) by {
            assert(skills.contains(skill) == (less.contains(skill) || skill == last)) by {
                if less.contains(skill) {
                    let i = choose|i: int| 0 <= i < less.len() && less[i] == skill;
                    assert(skills[i] == skill);
                }
                assert(skills[skills.len() - 1] == last);
            }
            assert(found.push(last).contains(skill) == (found.contains(skill) || skill == last)) by {
                if found.contains(skill) {
                    let i = choose|i: int| 0 <= i < found.len() && found[i] == skill;
                    assert(found.push(last)[i] == skill);
                }
                assert(found.push(last)[found.len() as int] == last);
            }
            assert(found.contains(skill) == (less.contains(skill) && !skill.repeatable
                && !skill.loopable && pending != Some(skill.name)));
        }
    }
}

/// The call that an interrupted execution makes next.
pub open spec fn pending_call(view: SkillViewModel) -> Option<ToolCallModel> {
    match view.execution {
        None => None,
        Some(progress) => if progress.completed < progress.actions.len() {
            Some(progress.actions[progress.completed as int].call())
        } else {
            None
        },
    }
}

/// Whether a decision is a plain call of a loaded skill that can be used and neither loops nor
/// repeats. While an execution is interrupted, it is not the call that is pending.
pub open spec fn plain_choice(view: SkillViewModel, decision: DecisionModel) -> bool {
    exists|k: int, c: int|
        #![trigger view.loaded[k].calls[c]]
        #![trigger view.loaded[k].calls[c]]
        {
            &&& 0 <= k < view.loaded.len()
            &&& 0 <= c < view.loaded[k].calls.len()
            &&& view.loaded[k].availability is Available
            &&& !view.loaded[k].repeatable
            &&& !view.loaded[k].loopable
            &&& pending_call(view) matches Some(call) ==> call.name != view.loaded[k].name
            &&& decision == alone(ActionModel::Call(view.loaded[k].calls[c]))
        }
}

/// Whether a decision is to start a loop or repeats of a loaded skill.
pub open spec fn repeating_choice(view: SkillViewModel, decision: DecisionModel) -> bool {
    exists|k: int, c: int|
        #![trigger view.loaded[k].calls[c]]
        #![trigger view.loaded[k].calls[c]]
        {
            &&& 0 <= k < view.loaded.len()
            &&& 0 <= c < view.loaded[k].calls.len()
            &&& view.loaded[k].repeatable || view.loaded[k].loopable
            &&& decision == alone(
                suggestion(view.loaded[k], view.loaded[k].calls[c], view.max_repeat),
            )
        }
}

/// Whether a decision is to load one entry of the directory, or those with one of its tags.
pub open spec fn loading_choice(view: SkillViewModel, decision: DecisionModel) -> bool {
    decision matches DecisionModel::LoadSkills(request) && {
        ||| request.tags.len() == 0 && request.names.len() == 1 && exists|j: int|
            0 <= j < view.directory.len() && (#[trigger] view.directory[j]).name == request.names[0]
        ||| request.names.len() == 0 && request.tags.len() == 1 && tagged(
            view.directory,
            request.tags[0],
        )
    }
}

/// Whether a decision can be made next: a plain call; a loop or repeats, unless an execution is
/// interrupted, which can be resumed instead; and loading skills where they can be discovered.
pub open spec fn next_choice(view: SkillViewModel, decision: DecisionModel) -> bool {
    ||| plain_choice(view, decision)
    ||| view.execution is None && repeating_choice(view, decision)
    ||| view.execution is Some && decision == DecisionModel::Resume
    ||| view.discovery_enabled && loading_choice(view, decision)
}

proof fn lemma_options(skills: Seq<SkillModel>)
    requires
        options_of(skills) is Ok,
    ensures
        ({
            let offer = options_of(skills)->Ok_0;
            &&& offer.criteria is Object
            &&& offer.criteria.has("completed"@)
            &&& offer.criteria.has("failed"@)
            &&& forall|i: int|
                0 <= i < offer.candidates.len() ==> drawn(
                    #[trigger] offer.candidates[i],
                    skills,
                    0,
                    Take::Callable,
                )
            &&& forall|k: int, c: int|
                #![trigger skills[k].calls[c]]
                0 <= k < skills.len() && 0 <= c < skills[k].calls.len()
                    && skills[k].availability is Available ==> offer.candidates.contains(
                    alone(ActionModel::Call(skills[k].calls[c])),
                )
            &&& keyed(offer)
        }),
{
    let base = base_offer();
    lemma_skills(base, skills, 0, Take::Callable);
    let offer = options_of(skills)->Ok_0;
    assert(grows(base, offer));
    assert(base.criteria.has("completed"@) && base.criteria.has("failed"@));
    assert(keyed(offer)) by {
        assert forall|key: Text| #[trigger] offer.criteria.has(key) implies key == "completed"@
            || key == "failed"@ || exists|i: int|
            0 <= i < offer.candidates.len() && key == #[trigger] action_key(
                i,
                offer.candidates[i],
            ) by {
            if base.criteria.has(key) {
                assert(key == "completed"@ || key == "failed"@);
            }
        }
    }
    assert forall|k: int, c: int|
        #![trigger skills[k].calls[c]]
        0 <= k < skills.len() && 0 <= c < skills[k].calls.len()
            && skills[k].availability is Available implies offer.candidates.contains(
        alone(ActionModel::Call(skills[k].calls[c])),
    ) by {
        assert(Take::Callable.takes(skills[k]));
    }
}

/// Each candidate of an offer can be chosen by its key, and nothing else can be but the two ends.
pub open spec fn keyed(offer: OfferModel) -> bool {
    &&& forall|i: int|
        0 <= i < offer.candidates.len() ==> offer.criteria.has(
            #[trigger] action_key(i, offer.candidates[i]),
        )
    &&& forall|key: Text| #[trigger]
        offer.criteria.has(key) ==> key == "completed"@ || key == "failed"@ || exists|i: int|
            0 <= i < offer.candidates.len() && key == #[trigger] action_key(
                i,
                offer.candidates[i],
            )
}

proof fn lemma_keyed_grows(before: OfferModel, after: OfferModel)
    requires
        before.criteria is Object,
        keyed(before),
        grows(before, after),
    ensures
        keyed(after),
{
    let n = before.candidates.len() as int;
    assert forall|i: int| 0 <= i < after.candidates.len() implies after.criteria.has(
        #[trigger] action_key(i, after.candidates[i]),
    ) by {
        if i < n {
            assert(after.candidates.take(n)[i] == before.candidates[i]);
            assert(before.criteria.has(action_key(i, before.candidates[i])));
        }
    }
    assert forall|key: Text| #[trigger] after.criteria.has(key) implies key == "completed"@ || key
        == "failed"@ || exists|i: int|
        0 <= i < after.candidates.len() && key == #[trigger] action_key(
            i,
            after.candidates[i],
        ) by {
        if before.criteria.has(key) && key != "completed"@ && key != "failed"@ {
            let i = choose|i: int|
                0 <= i < n && key == #[trigger] action_key(i, before.candidates[i]);
            assert(after.candidates.take(n)[i] == before.candidates[i]);
            assert(key == action_key(i, after.candidates[i]));
        }
    }
}

proof fn lemma_plain_choices(view: SkillViewModel, offer: OfferModel)
    requires
        options_of(callable_skills(view.loaded, pending_name(view))) == Ok::<
            OfferModel,
            ErrorModel,
        >(offer),
    ensures
        offer.criteria is Object,
        offer.criteria.has("completed"@),
        offer.criteria.has("failed"@),
        keyed(offer),
        forall|i: int|
            0 <= i < offer.candidates.len() ==> plain_choice(view, #[trigger] offer.candidates[i]),
        forall|decision: DecisionModel| #[trigger]
            plain_choice(view, decision) ==> offer.candidates.contains(decision),
{
    let pending = pending_name(view);
    let skills = callable_skills(view.loaded, pending);
    lemma_callable(view.loaded, pending);
    lemma_options(skills);
    assert forall|i: int| 0 <= i < offer.candidates.len() implies plain_choice(
        view,
        #[trigger] offer.candidates[i],
    ) by {
        let decision = offer.candidates[i];
        assert(drawn(decision, skills, 0, Take::Callable));
        let (k, c) = choose|k: int, c: int|
            #![trigger skills[k].calls[c]]
            {
                &&& 0 <= k < skills.len()
                &&& 0 <= c < skills[k].calls.len()
                &&& Take::Callable.takes(skills[k])
                &&& skills[k].calls[c].name == skills[k].name
                &&& decision == taken(skills[k], skills[k].calls[c], 0, Take::Callable)
            };
        assert(skills.contains(skills[k]));
        let j = choose|j: int| 0 <= j < view.loaded.len() && view.loaded[j] == skills[k];
        assert(view.loaded[j].calls[c] == skills[k].calls[c]);
    }
    assert forall|decision: DecisionModel| #[trigger] plain_choice(
        view,
        decision,
    ) implies offer.candidates.contains(decision) by {
        let (k, c) = choose|k: int, c: int|
            #![trigger view.loaded[k].calls[c]]
            {
                &&& 0 <= k < view.loaded.len()
                &&& 0 <= c < view.loaded[k].calls.len()
                &&& view.loaded[k].availability is Available
                &&& !view.loaded[k].repeatable
                &&& !view.loaded[k].loopable
                &&& pending_call(view) matches Some(call) ==> call.name != view.loaded[k].name
                &&& decision == alone(ActionModel::Call(view.loaded[k].calls[c]))
            };
        assert(view.loaded.contains(view.loaded[k]));
        assert(skills.contains(view.loaded[k]));
        let j = choose|j: int| 0 <= j < skills.len() && skills[j] == view.loaded[k];
        assert(skills[j].calls[c] == view.loaded[k].calls[c]);
    }
}

proof fn lemma_contains_after(before: OfferModel, after: OfferModel, decision: DecisionModel)
    requires
        grows(before, after),
        before.candidates.contains(decision),
    ensures
        after.candidates.contains(decision),
{
    let n = before.candidates.len() as int;
    let i = choose|i: int| 0 <= i < n && before.candidates[i] == decision;
    assert(after.candidates.take(n)[i] == before.candidates[i]);
}

proof fn lemma_loads(view: SkillViewModel, offer: OfferModel)
    requires
        offer.criteria is Object,
    ensures
        ({
            let after = with_tags(
                with_directory(offer, view.directory),
                directory_tags(view.directory),
            );
            let n = offer.candidates.len() as int;
            &&& grows(offer, after)
            &&& forall|i: int|
                n <= i < after.candidates.len() ==> loading_choice(
                    view,
                    #[trigger] after.candidates[i],
                )
            &&& forall|decision: DecisionModel| #[trigger]
                loading_choice(view, decision) ==> after.candidates.contains(decision)
        }),
{
    let named = with_directory(offer, view.directory);
    let tags = directory_tags(view.directory);
    let after = with_tags(named, tags);
    let n = offer.candidates.len() as int;
    let m = named.candidates.len() as int;
    lemma_directory(offer, view.directory);
    lemma_tags(named, tags);
    lemma_grows_trans(offer, named, after);
    assert forall|i: int| n <= i < after.candidates.len() implies loading_choice(
        view,
        #[trigger] after.candidates[i],
    ) by {
        if i < m {
            assert(after.candidates[i] == load_name(view.directory[i - n].name));
        } else {
            assert(tags.contains(tags[i - m]));
            lemma_directory_tags(view.directory, tags[i - m]);
            assert(after.candidates[i] == load_tag(tags[i - m]));
        }
    }
    assert forall|decision: DecisionModel| #[trigger] loading_choice(
        view,
        decision,
    ) implies after.candidates.contains(decision) by {
        let request = decision->LoadSkills_0;
        if request.tags.len() == 0 {
            let j = choose|j: int|
                0 <= j < view.directory.len() && (#[trigger] view.directory[j]).name
                    == request.names[0];
            assert(request.names =~= seq![request.names[0]]);
            assert(request.tags =~= Seq::<Text>::empty());
            assert(after.candidates[n + j] == decision);
        } else {
            lemma_directory_tags(view.directory, request.tags[0]);
            let j = choose|j: int| 0 <= j < tags.len() && tags[j] == request.tags[0];
            assert(request.tags =~= seq![request.tags[0]]);
            assert(request.names =~= Seq::<Text>::empty());
            assert(after.candidates[m + j] == decision);
        }
    }
}

proof fn lemma_next_offer(view: SkillViewModel)
    requires
        next_offer(view) is Ok,
    ensures
        ({
            let offer = next_offer(view)->Ok_0;
            &&& offer.criteria is Object
            &&& offer.criteria.has("completed"@)
            &&& offer.criteria.has("failed"@)
            &&& keyed(offer)
            &&& forall|i: int|
                0 <= i < offer.candidates.len() ==> next_choice(
                    view,
                    #[trigger] offer.candidates[i],
                )
            &&& forall|decision: DecisionModel| #[trigger]
                next_choice(view, decision) ==> offer.candidates.contains(decision)
        }),
{
    let plain = options_of(callable_skills(view.loaded, pending_name(view)))->Ok_0;
    lemma_plain_choices(view, plain);
    let resume = single("resume"@, JsonModel::Bool(true));
    let grown = if view.execution is Some {
        plain.and(DecisionModel::Resume, resume)
    } else {
        with_skills(plain, view.loaded, view.max_repeat, Take::Repeating)->Ok_0
    };
    let n = plain.candidates.len() as int;
    if view.execution is Some {
        lemma_grows_by_one(plain, DecisionModel::Resume, resume);
        assert(grown.candidates[n] == DecisionModel::Resume);
    } else {
        lemma_skills(plain, view.loaded, view.max_repeat, Take::Repeating);
    }
    lemma_keyed_grows(plain, grown);
    assert forall|i: int| 0 <= i < grown.candidates.len() implies next_choice(
        view,
        #[trigger] grown.candidates[i],
    ) by {
        let decision = grown.candidates[i];
        if i < n {
            assert(grown.candidates.take(n)[i] == plain.candidates[i]);
        } else if view.execution is None {
            assert(drawn(decision, view.loaded, view.max_repeat, Take::Repeating));
            let (k, c) = choose|k: int, c: int|
                #![trigger view.loaded[k].calls[c]]
                {
                    &&& 0 <= k < view.loaded.len()
                    &&& 0 <= c < view.loaded[k].calls.len()
                    &&& Take::Repeating.takes(view.loaded[k])
                    &&& view.loaded[k].calls[c].name == view.loaded[k].name
                    &&& decision == taken(
                        view.loaded[k],
                        view.loaded[k].calls[c],
                        view.max_repeat,
                        Take::Repeating,
                    )
                };
            assert(repeating_choice(view, decision)) by {
                assert(view.loaded[k].calls[c].name == view.loaded[k].name);
            }
        }
    }
    assert forall|decision: DecisionModel| plain_choice(view, decision) || (view.execution is None
        && repeating_choice(view, decision)) || (view.execution is Some && decision
        == DecisionModel::Resume) implies #[trigger] grown.candidates.contains(decision) by {
        if plain_choice(view, decision) {
            lemma_contains_after(plain, grown, decision);
        } else if view.execution is None {
            let (k, c) = choose|k: int, c: int|
                #![trigger view.loaded[k].calls[c]]
                {
                    &&& 0 <= k < view.loaded.len()
                    &&& 0 <= c < view.loaded[k].calls.len()
                    &&& view.loaded[k].repeatable || view.loaded[k].loopable
                    &&& decision == alone(
                        suggestion(view.loaded[k], view.loaded[k].calls[c], view.max_repeat),
                    )
                };
            assert(Take::Repeating.takes(view.loaded[k]));
            let call = view.loaded[k].calls[c];
            assert(taken(view.loaded[k], call, view.max_repeat, Take::Repeating) == decision);
        }
    }
    let offer = next_offer(view)->Ok_0;
    if view.discovery_enabled {
        lemma_loads(view, grown);
        lemma_keyed_grows(grown, offer);
        let m = grown.candidates.len() as int;
        assert forall|i: int| 0 <= i < offer.candidates.len() implies next_choice(
            view,
            #[trigger] offer.candidates[i],
        ) by {
            if i < m {
                assert(offer.candidates.take(m)[i] == grown.candidates[i]);
            }
        }
        assert forall|decision: DecisionModel| #[trigger] next_choice(
            view,
            decision,
        ) implies offer.candidates.contains(decision) by {
            if !loading_choice(view, decision) {
                assert(grown.candidates.contains(decision));
                lemma_contains_after(grown, offer, decision);
            }
        }
    }
}

proof fn lemma_slot_choices(candidates: Seq<DecisionModel>, n: int, excluded: JsonModel)
    requires
        0 <= n <= candidates.len(),
    ensures
        ({
            let offered = slot_choices(candidates, n, excluded);
            &&& offered is Object
            &&& offered.has("end"@)
            &&& forall|i: int|
                0 <= i < n && is_execution(candidates[i]) && !excluded.has(
                    #[trigger] action_key(i, candidates[i]),
                ) ==> offered.has(action_key(i, candidates[i]))
            &&& forall|key: Text| #[trigger]
                offered.has(key) ==> key == "end"@ || exists|i: int|
                    {
                        &&& 0 <= i < n
                        &&& is_execution(candidates[i])
                        &&& !excluded.has(key)
                        &&& key == #[trigger] action_key(i, candidates[i])
                    }
        }),
    decreases n,
{
    if n > 0 {
        lemma_slot_choices(candidates, n - 1, excluded);
        let less = slot_choices(candidates, n - 1, excluded);
        let offered = slot_choices(candidates, n, excluded);
        assert forall|key: Text| #[trigger] offered.has(key) implies key == "end"@ || exists|i: int|
            {
                &&& 0 <= i < n
                &&& is_execution(candidates[i])
                &&& !excluded.has(key)
                &&& key == #[trigger] action_key(i, candidates[i])
            } by {
            if less.has(key) && key != "end"@ {
                let i = choose|i: int|
                    {
                        &&& 0 <= i < n - 1
                        &&& is_execution(candidates[i])
                        &&& !excluded.has(key)
                        &&& key == #[trigger] action_key(i, candidates[i])
                    };
                assert(key == action_key(i, candidates[i]));
            } else if key != "end"@ {
                assert(key == action_key(n - 1, candidates[n - 1]));
            }
        }
    }
}

/// The keys of candidates are no words of their own.
proof fn lemma_keys_are_no_words(i: int, decision: DecisionModel)
    requires
        i >= 0,
    ensures
        action_key(i, decision) != "end"@,
        action_key(i, decision) != "completed"@,
        action_key(i, decision) != "failed"@,
        action_key(i, decision) != "sequence"@,
        action_key(i, decision) != "replace_remaining"@,
{
    let number = text::decimal(i as nat);
    let key = action_key(i, decision);
    text::decimal_is_digits(i as nat);
    assert(key.last() == number.last());
    assert(text::is_digit(number[number.len() - 1]));
    reveal_strlit("end");
    reveal_strlit("completed");
    reveal_strlit("failed");
    reveal_strlit("sequence");
    reveal_strlit("replace_remaining");
    assert("end"@.last() == 'd' && "completed"@.last() == 'd' && "failed"@.last() == 'd');
    assert("sequence"@.last() == 'e' && "replace_remaining"@.last() == 'g');
}

proof fn lemma_words()
    ensures
        "completed"@ != "sequence"@,
        "failed"@ != "sequence"@,
        "completed"@ != "replace_remaining"@,
        "failed"@ != "replace_remaining"@,
        "sequence"@ != "replace_remaining"@,
        "completed"@ != "failed"@,
{
    reveal_strlit("completed");
    reveal_strlit("failed");
    reveal_strlit("sequence");
    reveal_strlit("replace_remaining");
    assert("completed"@.len() == 9 && "failed"@.len() == 6 && "sequence"@.len() == 8);
    assert("replace_remaining"@.len() == 17);
}

proof fn lemma_own_key(offer: OfferModel, candidates: Seq<DecisionModel>, i: int)
    requires
        keyed(offer),
        offer.candidates.len() <= candidates.len(),
        candidates.take(offer.candidates.len() as int) == offer.candidates,
        0 <= i < candidates.len(),
    ensures
        offer.criteria.has(action_key(i, candidates[i])) == (i < offer.candidates.len()),
{
    let n = offer.candidates.len() as int;
    let key = action_key(i, candidates[i]);
    lemma_keys_are_no_words(i, candidates[i]);
    if i < n {
        assert(candidates.take(n)[i] == offer.candidates[i]);
        assert(offer.criteria.has(action_key(i, offer.candidates[i])));
    } else if offer.criteria.has(key) {
        let j = choose|j: int| 0 <= j < n && key == #[trigger] action_key(j, offer.candidates[j]);
        keys_tell_candidates_apart(i, candidates[i], j, offer.candidates[j]);
    }
}

/// What a request of a run that is not interrupted holds.
proof fn lemma_plain_request(
    model: Text,
    goal: Text,
    state: AppStateModel,
    view: SkillViewModel,
    previous: Option<ToolResultModel>,
)
    requires
        view.execution is None,
        request_of(model, goal, state, view, previous) is Ok,
    ensures
        ({
            let (request, candidates) = request_of(model, goal, state, view, previous)->Ok_0;
            let offer = next_offer(view)->Ok_0;
            let future = future_offer(view, offer)->Ok_0;
            let questions = request.at("questions"@);
            &&& next_offer(view) is Ok
            &&& future_offer(view, offer) is Ok
            &&& candidates == future.candidates
            &&& questions is Object
            &&& choices(request, "next_action"@) == next_choices(view, offer)
            &&& sequences(view, offer) ==> {
                &&& forall|k: nat|
                    1 <= k <= view.max_actions ==> asks(
                        request,
                        #[trigger] slot_name("sequence"@, "_action_"@, k),
                    ) && choices(request, slot_name("sequence"@, "_action_"@, k)) == slot_choices(
                        candidates,
                        candidates.len() as int,
                        if k == 1 {
                            future.criteria
                        } else {
                            JsonModel::empty()
                        },
                    )
                &&& some_repeat(candidates) ==> forall|k: nat|
                    1 <= k <= view.max_actions ==> asks(
                        request,
                        #[trigger] slot_name("sequence"@, "_count_"@, k),
                    ) && choices(request, slot_name("sequence"@, "_count_"@, k)) == count_choices(
                        view.max_repeat as nat,
                    )
            }
            &&& asks(request, "repeat_count"@) == some_repeat(candidates)
            &&& some_repeat(candidates) ==> choices(request, "repeat_count"@) == count_choices(
                view.max_repeat as nat,
            )
            &&& asks(request, "continuation"@) == some_execute(candidates)
            &&& some_execute(candidates) ==> choices(request, "continuation"@)
                == continuation_choices(false)
        }),
{
    let (request, candidates) = request_of(model, goal, state, view, previous)->Ok_0;
    let offer = next_offer(view)->Ok_0;
    let future = future_offer(view, offer)->Ok_0;
    let counts = count_choices(view.max_repeat as nat);
    let asked = common_questions(view, candidates, counts);
    lemma_common(view, candidates, counts);
    lemma_some(candidates);
    let common = asked.with(
        "next_action"@,
        question(instructions(), next_choices(view, offer)),
    );
    reveal_strlit("next_action");
    reveal_strlit("repeat_count");
    reveal_strlit("continuation");
    assert("next_action"@[0] == 'n' && "repeat_count"@[0] == 'r' && "continuation"@[0] == 'c');
    let first = slot_choices(candidates, candidates.len() as int, future.criteria);
    let later = slot_choices(candidates, candidates.len() as int, JsonModel::empty());
    let repeated = if some_repeat(candidates) {
        Some(counts)
    } else {
        None
    };
    lemma_sequence_slots(common, first, later, repeated, view.max_actions as nat);
    let questions = if sequences(view, offer) {
        with_sequence_slots(common, first, later, repeated, view.max_actions as nat)
    } else {
        common
    };
    let context = context_of(goal, state, view, previous);
    lemma_body(model, context, questions);
    lemma_body(model, context.with("future_actions"@, future.criteria), questions);
    assert(request.at("questions"@) == questions);
    assert(questions.has("next_action"@) == common.has("next_action"@));
    assert(questions.has("repeat_count"@) == common.has("repeat_count"@));
    assert(questions.has("continuation"@) == common.has("continuation"@));
}

proof fn lemma_some(candidates: Seq<DecisionModel>)
    ensures
        some_repeat(candidates) == (exists|i: int|
            0 <= i < candidates.len() && is_repeat(#[trigger] candidates[i])),
        some_execute(candidates) == (exists|i: int|
            0 <= i < candidates.len() && is_execution(#[trigger] candidates[i])),
{
    if some_repeat(candidates) {
        let i = choose|i: int| 0 <= i < candidates.len() && repeats(#[trigger] candidates[i]);
        assert(is_repeat(candidates[i]));
    }
    if exists|i: int| 0 <= i < candidates.len() && is_repeat(#[trigger] candidates[i]) {
        let i = choose|i: int| 0 <= i < candidates.len() && is_repeat(#[trigger] candidates[i]);
        assert(repeats(candidates[i]));
    }
    if exists|i: int| 0 <= i < candidates.len() && is_execution(#[trigger] candidates[i]) {
        let i = choose|i: int| 0 <= i < candidates.len() && is_execution(#[trigger] candidates[i]);
        assert(candidates[i] is Execute);
    }
    if some_execute(candidates) {
        let i = choose|i: int| 0 <= i < candidates.len() && (#[trigger] candidates[i]) is Execute;
        assert(is_execution(candidates[i]));
    }
}

proof fn lemma_replacing_calls(
    r: ReplacementModel,
    skill: SkillModel,
    calls: Seq<ToolCallModel>,
    max_repeat: u32,
)
    requires
        r.offer.criteria is Object,
        r.choices is Object,
        replacing_calls(r, skill, calls, max_repeat) is Ok,
    ensures
        ({
            let after = replacing_calls(r, skill, calls, max_repeat)->Ok_0;
            &&& grows(r.offer, after.offer)
            &&& grows(
                OfferModel { criteria: r.choices, ..r.offer },
                OfferModel { criteria: after.choices, ..after.offer },
            )
            &&& after.offer.candidates =~= r.offer.candidates + Seq::new(
                calls.len(),
                |c: int| alone(suggestion(skill, calls[c], max_repeat)),
            )
            &&& after.repeats == (r.repeats || exists|i: int|
                r.offer.candidates.len() <= i < after.offer.candidates.len() && is_repeat(
                    #[trigger] after.offer.candidates[i],
                ))
        }),
    decreases calls.len(),
{
    let n = r.offer.candidates.len() as int;
    if calls.len() == 0 {
        lemma_grows_refl(r.offer);
        lemma_grows_refl(OfferModel { criteria: r.choices, ..r.offer });
    } else {
        let less = calls.drop_last();
        lemma_replacing_calls(r, skill, less, max_repeat);
        let before = replacing_calls(r, skill, less, max_repeat)->Ok_0;
        let after = replacing_calls(r, skill, calls, max_repeat)->Ok_0;
        let m = before.offer.candidates.len() as int;
        let decision = after.offer.candidates.last();
        assert(after.offer.candidates =~= before.offer.candidates.push(decision));
        assert(decision == alone(suggestion(skill, calls.last(), max_repeat)));
        lemma_grows_by_one(before.offer, decision, descriptor(decision));
        lemma_grows_trans(r.offer, before.offer, after.offer);
        let chosen = OfferModel { criteria: before.choices, ..before.offer };
        lemma_grows_by_one(chosen, decision, JsonModel::Null);
        assert(chosen.and(decision, JsonModel::Null) == (OfferModel {
            criteria: after.choices,
            ..after.offer
        }));
        lemma_grows_trans(
            OfferModel { criteria: r.choices, ..r.offer },
            chosen,
            OfferModel { criteria: after.choices, ..after.offer },
        );
        assert(after.repeats == (before.repeats || is_repeat(decision)));
        assert(after.offer.candidates[m] == decision);
        if before.repeats && !r.repeats {
            let i = choose|i: int|
                n <= i < m && is_repeat(#[trigger] before.offer.candidates[i]);
            assert(is_repeat(after.offer.candidates[i]));
        }
        if !before.repeats && !is_repeat(decision) {
            assert forall|i: int| n <= i <= m implies !is_repeat(
                #[trigger] after.offer.candidates[i],
            ) by {
                if i < m {
                    assert(after.offer.candidates[i] == before.offer.candidates[i]);
                }
            }
        }
    }
}

/// Whether a decision is one of a call that one of the skills suggests.
pub open spec fn some_suggestion(
    skills: Seq<SkillModel>,
    max_repeat: u32,
    decision: DecisionModel,
) -> bool {
    exists|k: int, c: int|
        #![trigger skills[k].calls[c]]
        #![trigger skills[k].calls[c]]
        {
            &&& 0 <= k < skills.len()
            &&& 0 <= c < skills[k].calls.len()
            &&& decision == alone(suggestion(skills[k], skills[k].calls[c], max_repeat))
        }
}

proof fn lemma_replacing_skills(r: ReplacementModel, skills: Seq<SkillModel>, max_repeat: u32)
    requires
        r.offer.criteria is Object,
        r.choices is Object,
        replacing_skills(r, skills, max_repeat) is Ok,
    ensures
        ({
            let after = replacing_skills(r, skills, max_repeat)->Ok_0;
            let n = r.offer.candidates.len() as int;
            &&& grows(r.offer, after.offer)
            &&& grows(
                OfferModel { criteria: r.choices, ..r.offer },
                OfferModel { criteria: after.choices, ..after.offer },
            )
            &&& after.repeats == (r.repeats || exists|i: int|
                n <= i < after.offer.candidates.len() && is_repeat(
                    #[trigger] after.offer.candidates[i],
                ))
            &&& forall|i: int|
                n <= i < after.offer.candidates.len() ==> some_suggestion(
                    skills,
                    max_repeat,
                    #[trigger] after.offer.candidates[i],
                )
            &&& forall|k: int, c: int|
                #![trigger skills[k].calls[c]]
                0 <= k < skills.len() && 0 <= c < skills[k].calls.len() ==> exists|i: int|
                    n <= i < after.offer.candidates.len() && #[trigger] after.offer.candidates[i]
                        == alone(suggestion(skills[k], skills[k].calls[c], max_repeat))
        }),
    decreases skills.len(),
{
    let n = r.offer.candidates.len() as int;
    if skills.len() == 0 {
        lemma_grows_refl(r.offer);
        lemma_grows_refl(OfferModel { criteria: r.choices, ..r.offer });
    } else {
        let less = skills.drop_last();
        let skill = skills.last();
        let last = less.len() as int;
        lemma_replacing_skills(r, less, max_repeat);
        let before = replacing_skills(r, less, max_repeat)->Ok_0;
        let after = replacing_skills(r, skills, max_repeat)->Ok_0;
        let m = before.offer.candidates.len() as int;
        lemma_replacing_calls(before, skill, skill.calls, max_repeat);
        lemma_grows_trans(r.offer, before.offer, after.offer);
        lemma_grows_trans(
            OfferModel { criteria: r.choices, ..r.offer },
            OfferModel { criteria: before.choices, ..before.offer },
            OfferModel { criteria: after.choices, ..after.offer },
        );
        assert forall|i: int| n <= i < after.offer.candidates.len() implies some_suggestion(
            skills,
            max_repeat,
            #[trigger] after.offer.candidates[i],
        ) by {
            if i < m {
                let decision = before.offer.candidates[i];
                assert(after.offer.candidates[i] == decision);
                let (k, c) = choose|k: int, c: int|
                    #![trigger less[k].calls[c]]
                    {
                        &&& 0 <= k < less.len()
                        &&& 0 <= c < less[k].calls.len()
                        &&& decision == alone(suggestion(less[k], less[k].calls[c], max_repeat))
                    };
                assert(skills[k].calls[c] == less[k].calls[c]);
            } else {
                assert(after.offer.candidates[i] == alone(
                    suggestion(skills[last], skills[last].calls[i - m], max_repeat),
                ));
            }
        }
        assert forall|k: int, c: int|
            #![trigger skills[k].calls[c]]
            0 <= k < skills.len() && 0 <= c < skills[k].calls.len() implies exists|i: int|
            n <= i < after.offer.candidates.len() && #[trigger] after.offer.candidates[i] == alone(
                suggestion(skills[k], skills[k].calls[c], max_repeat),
            ) by {
            if k < last {
                assert(less[k].calls[c] == skills[k].calls[c]);
                let i = choose|i: int|
                    n <= i < m && #[trigger] before.offer.candidates[i] == alone(
                        suggestion(less[k], less[k].calls[c], max_repeat),
                    );
                assert(after.offer.candidates[i] == before.offer.candidates[i]);
            } else {
                assert(after.offer.candidates[m + c] == alone(
                    suggestion(skill, skill.calls[c], max_repeat),
                ));
            }
        }
        if before.repeats && !r.repeats {
            let i = choose|i: int| n <= i < m && is_repeat(#[trigger] before.offer.candidates[i]);
            assert(is_repeat(after.offer.candidates[i]));
        }
        if !after.repeats {
            assert forall|i: int| n <= i < after.offer.candidates.len() implies !is_repeat(
                #[trigger] after.offer.candidates[i],
            ) by {
                if i < m {
                    assert(after.offer.candidates[i] == before.offer.candidates[i]);
                }
            }
        }
    }
}

/// What a request of an interrupted run holds.
proof fn lemma_interrupted_request(
    model: Text,
    goal: Text,
    state: AppStateModel,
    view: SkillViewModel,
    previous: Option<ToolResultModel>,
)
    requires
        view.execution is Some,
        request_of(model, goal, state, view, previous) is Ok,
    ensures
        ({
            let (request, candidates) = request_of(model, goal, state, view, previous)->Ok_0;
            let offer = next_offer(view)->Ok_0;
            let none = ReplacementModel {
                offer: OfferModel { criteria: JsonModel::empty(), candidates: offer.candidates },
                choices: single("end"@, JsonModel::Null),
                repeats: false,
            };
            let replacement = replacing_skills(none, view.catalog, view.max_repeat)->Ok_0;
            let questions = request.at("questions"@);
            &&& next_offer(view) is Ok
            &&& replacing_skills(none, view.catalog, view.max_repeat) is Ok
            &&& candidates == replacement.offer.candidates
            &&& questions is Object
            &&& choices(request, "next_action"@).has("replace_remaining"@)
            &&& forall|key: Text|
                key != "replace_remaining"@ ==> (#[trigger] choices(
                    request,
                    "next_action"@,
                ).has(key)) == offer.criteria.has(key)
            &&& forall|k: nat|
                1 <= k <= view.max_actions ==> asks(
                    request,
                    #[trigger] slot_name("replacement"@, "_action_"@, k),
                ) && choices(request, slot_name("replacement"@, "_action_"@, k))
                    == replacement.choices
            &&& replacement.repeats ==> forall|k: nat|
                1 <= k <= view.max_actions ==> asks(
                    request,
                    #[trigger] slot_name("replacement"@, "_count_"@, k),
                ) && choices(request, slot_name("replacement"@, "_count_"@, k)) == count_choices(
                    view.max_repeat as nat,
                )
            &&& asks(request, "continuation"@) == some_execute(offer.candidates)
            &&& some_execute(offer.candidates) ==> choices(request, "continuation"@)
                == continuation_choices(true)
            &&& choices(request, "replacement_continuation"@).has("decide"@)
            &&& choices(request, "replacement_continuation"@).has("finish"@)
            &&& forall|key: Text| #[trigger]
                choices(request, "replacement_continuation"@).has(key) ==> key == "decide"@ || key
                    == "finish"@
        }),
{
    let (request, candidates) = request_of(model, goal, state, view, previous)->Ok_0;
    let offer = next_offer(view)->Ok_0;
    lemma_next_offer(view);
    let none = ReplacementModel {
        offer: OfferModel { criteria: JsonModel::empty(), candidates: offer.candidates },
        choices: single("end"@, JsonModel::Null),
        repeats: false,
    };
    let replacement = replacing_skills(none, view.catalog, view.max_repeat)->Ok_0;
    let counts = count_choices(view.max_repeat as nat);
    let asked = common_questions(view, offer.candidates, counts);
    lemma_common(view, offer.candidates, counts);
    lemma_some(offer.candidates);
    let criteria = next_choices(view, offer).with(
        "replace_remaining"@,
        JsonModel::Text("Replace only unfinished actions using replacement slots. Preserve completed work. First carry forward any unfinished pending batch: the identical repeat call with exactly remaining count, or identical until_done call. Repair separately if needed. Original budgets remain in force."@),
    );
    let both = JsonModel::empty().with("decide"@, JsonModel::Null).with("finish"@, JsonModel::Null);
    let common = asked.with("next_action"@, question(instructions(), criteria)).with(
        "replacement_continuation"@,
        question("After replacement completes normally. Otherwise choose decide."@, both),
    );
    reveal_strlit("next_action");
    reveal_strlit("repeat_count");
    reveal_strlit("continuation");
    reveal_strlit("replacement_continuation");
    assert("next_action"@[0] == 'n' && "repeat_count"@[0] == 'r' && "continuation"@[0] == 'c');
    assert("repeat_count"@.len() == 12 && "replacement_continuation"@.len() == 24);
    assert("replacement_continuation"@[0] == 'r');
    let repeated = if replacement.repeats {
        Some(counts)
    } else {
        None
    };
    lemma_replacement_slots(common, replacement.choices, repeated, view.max_actions as nat);
    let questions = with_replacement_slots(
        common,
        replacement.choices,
        repeated,
        view.max_actions as nat,
    );
    let context = context_of(goal, state, view, previous);
    lemma_body(
        model,
        context.with("replacement_actions"@, replacement.offer.criteria),
        questions,
    );
    let future = future_offer(view, offer)->Ok_0;
    assert(!sequences(view, offer));
    assert(members(future.criteria) == 0);
    assert(request.at("questions"@) == questions);
    assert(questions.has("next_action"@) == common.has("next_action"@));
    assert(questions.has("replacement_continuation"@) == common.has("replacement_continuation"@));
    assert(questions.has("continuation"@) == common.has("continuation"@));
    assert(choices(request, "next_action"@) == criteria);
    assert(choices(request, "replacement_continuation"@) == both);
    reveal_strlit("decide");
    reveal_strlit("finish");
    assert("decide"@[0] == 'd' && "finish"@[0] == 'f');
}

/// Wherever something can be repeated, the model can answer every count from one to the largest
/// that is allowed, and nothing else, for a single action as for every slot of a plan.
pub proof fn every_count_can_be_chosen(
    model: Text,
    goal: Text,
    state: AppStateModel,
    view: SkillViewModel,
    previous: Option<ToolResultModel>,
)
    requires
        request_of(model, goal, state, view, previous) is Ok,
        exists|i: int|
            0 <= i < request_of(model, goal, state, view, previous)->Ok_0.1.len() && is_repeat(
                #[trigger] request_of(model, goal, state, view, previous)->Ok_0.1[i],
            ),
    ensures
        ({
            let request = request_of(model, goal, state, view, previous)->Ok_0.0;
            let bound = view.max_repeat as nat;
            &&& view.execution is None ==> asks(request, "repeat_count"@) && counts_to(
                choices(request, "repeat_count"@),
                bound,
            )
            &&& view.execution is None && view.max_actions > 1 ==> forall|k: nat|
                1 <= k <= view.max_actions ==> asks(
                    request,
                    #[trigger] slot_name("sequence"@, "_count_"@, k),
                ) && counts_to(choices(request, slot_name("sequence"@, "_count_"@, k)), bound)
            &&& view.execution is Some ==> forall|k: nat|
                1 <= k <= view.max_actions ==> asks(
                    request,
                    #[trigger] slot_name("replacement"@, "_count_"@, k),
                ) && counts_to(choices(request, slot_name("replacement"@, "_count_"@, k)), bound)
        }),
{
    let (request, candidates) = request_of(model, goal, state, view, previous)->Ok_0;
    let offer = next_offer(view)->Ok_0;
    let i = choose|i: int| 0 <= i < candidates.len() && is_repeat(#[trigger] candidates[i]);
    lemma_counts(view.max_repeat as nat);
    lemma_some(candidates);
    lemma_next_offer(view);
    if view.execution is None {
        lemma_plain_request(model, goal, state, view, previous);
        lemma_planned(view, candidates, i);
    } else {
        lemma_interrupted_request(model, goal, state, view, previous);
        let none = ReplacementModel {
            offer: OfferModel { criteria: JsonModel::empty(), candidates: offer.candidates },
            choices: single("end"@, JsonModel::Null),
            repeats: false,
        };
        lemma_replacing_skills(none, view.catalog, view.max_repeat);
        let n = offer.candidates.len() as int;
        if i < n {
            assert(candidates.take(n)[i] == offer.candidates[i]);
            assert(next_choice(view, offer.candidates[i]));
        }
    }
}

/// Where something can be executed, plans of several actions can be made.
proof fn lemma_planned(view: SkillViewModel, candidates: Seq<DecisionModel>, i: int)
    requires
        view.execution is None,
        next_offer(view) is Ok,
        future_offer(view, next_offer(view)->Ok_0) is Ok,
        candidates == future_offer(view, next_offer(view)->Ok_0)->Ok_0.candidates,
        0 <= i < candidates.len(),
        is_execution(candidates[i]),
    ensures
        sequences(view, next_offer(view)->Ok_0) == (view.max_actions > 1),
{
    let offer = next_offer(view)->Ok_0;
    if view.max_actions > 1 && !some_execute(offer.candidates) {
        assert(candidates == offer.candidates);
        assert(offer.candidates[i] is Execute);
    }
}

/// The model can choose next exactly what can be done next, each by its key, besides the two ends
/// of the task. A plan of several actions can be chosen where it may have several and something
/// can be executed, and a replacement of unfinished actions while an execution is interrupted.
pub proof fn exactly_the_next_choices_are_offered(
    model: Text,
    goal: Text,
    state: AppStateModel,
    view: SkillViewModel,
    previous: Option<ToolResultModel>,
)
    requires
        request_of(model, goal, state, view, previous) is Ok,
    ensures
        ({
            let (request, candidates) = request_of(model, goal, state, view, previous)->Ok_0;
            let next = choices(request, "next_action"@);
            &&& next.has("completed"@)
            &&& next.has("failed"@)
            &&& next.has("replace_remaining"@) == (view.execution is Some)
            &&& next.has("sequence"@) == (view.execution is None && view.max_actions > 1 && exists|
                i: int,
            | 0 <= i < candidates.len() && is_execution(#[trigger] candidates[i]))
            &&& forall|i: int|
                0 <= i < candidates.len() && next.has(#[trigger] action_key(i, candidates[i]))
                    ==> next_choice(view, candidates[i])
            &&& forall|decision: DecisionModel| #[trigger]
                next_choice(view, decision) ==> exists|i: int|
                    {
                        &&& 0 <= i < candidates.len()
                        &&& candidates[i] == decision
                        &&& next.has(#[trigger] action_key(i, candidates[i]))
                    }
        }),
{
    let (request, candidates) = request_of(model, goal, state, view, previous)->Ok_0;
    let next = choices(request, "next_action"@);
    let offer = next_offer(view)->Ok_0;
    let n = offer.candidates.len() as int;
    lemma_next_offer(view);
    lemma_words();
    lemma_some(candidates);
    lemma_some(offer.candidates);
    if view.execution is None {
        lemma_plain_request(model, goal, state, view, previous);
        lemma_future(view, offer);
        if exists|i: int| 0 <= i < candidates.len() && is_execution(#[trigger] candidates[i]) {
            let i = choose|i: int| 0 <= i < candidates.len() && is_execution(#[trigger] candidates[i]);
            lemma_planned(view, candidates, i);
        } else if sequences(view, offer) {
            let i = choose|i: int|
                0 <= i < offer.candidates.len() && is_execution(#[trigger] offer.candidates[i]);
            assert(candidates.take(n)[i] == offer.candidates[i]);
            assert(is_execution(candidates[i]));
        }
    } else {
        lemma_interrupted_request(model, goal, state, view, previous);
        let none = ReplacementModel {
            offer: OfferModel { criteria: JsonModel::empty(), candidates: offer.candidates },
            choices: single("end"@, JsonModel::Null),
            repeats: false,
        };
        lemma_replacing_skills(none, view.catalog, view.max_repeat);
    }
    assert(!offer.criteria.has("sequence"@)) by {
        if offer.criteria.has("sequence"@) {
            let i = choose|i: int|
                0 <= i < n && "sequence"@ == #[trigger] action_key(i, offer.candidates[i]);
            lemma_keys_are_no_words(i, offer.candidates[i]);
        }
    }
    assert(!offer.criteria.has("replace_remaining"@)) by {
        if offer.criteria.has("replace_remaining"@) {
            let i = choose|i: int|
                0 <= i < n && "replace_remaining"@ == #[trigger] action_key(
                    i,
                    offer.candidates[i],
                );
            lemma_keys_are_no_words(i, offer.candidates[i]);
        }
    }
    assert forall|i: int| 0 <= i < candidates.len() implies (next.has(
        #[trigger] action_key(i, candidates[i]),
    ) == (i < n)) && (i < n ==> candidates[i] == offer.candidates[i]) by {
        lemma_keys_are_no_words(i, candidates[i]);
        lemma_own_key(offer, candidates, i);
        if i < n {
            assert(candidates.take(n)[i] == offer.candidates[i]);
        }
    }
    assert forall|decision: DecisionModel| #[trigger] next_choice(view, decision) implies exists|
        i: int,
    | {
        &&& 0 <= i < candidates.len()
        &&& candidates[i] == decision
        &&& next.has(#[trigger] action_key(i, candidates[i]))
    } by {
        assert(offer.candidates.contains(decision));
        let i = choose|i: int| 0 <= i < n && offer.candidates[i] == decision;
        assert(next.has(action_key(i, candidates[i])));
    }
}

proof fn lemma_future(view: SkillViewModel, offer: OfferModel)
    requires
        future_offer(view, offer) is Ok,
    ensures
        ({
            let future = future_offer(view, offer)->Ok_0;
            let n = offer.candidates.len() as int;
            &&& n <= future.candidates.len()
            &&& future.candidates.take(n) == offer.candidates
            &&& future.criteria is Object
            &&& forall|i: int|
                n <= i < future.candidates.len() ==> future.criteria.has(
                    #[trigger] action_key(i, future.candidates[i]),
                )
            &&& forall|key: Text| #[trigger]
                future.criteria.has(key) ==> exists|i: int|
                    n <= i < future.candidates.len() && key == #[trigger] action_key(
                        i,
                        future.candidates[i],
                    )
            &&& sequences(view, offer) ==> {
                &&& forall|i: int|
                    n <= i < future.candidates.len() ==> drawn(
                        #[trigger] future.candidates[i],
                        view.catalog,
                        view.max_repeat,
                        Take::Future,
                    )
                &&& forall|k: int, c: int|
                    #![trigger view.catalog[k].calls[c]]
                    0 <= k < view.catalog.len() && 0 <= c < view.catalog[k].calls.len()
                        && !(view.catalog[k].availability is Available) ==> exists|i: int|
                        n <= i < future.candidates.len() && #[trigger] future.candidates[i]
                            == alone(
                            suggestion(
                                view.catalog[k],
                                view.catalog[k].calls[c],
                                view.max_repeat,
                            ),
                        )
            }
        }),
{
    let none = OfferModel { criteria: JsonModel::empty(), candidates: offer.candidates };
    let future = future_offer(view, offer)->Ok_0;
    if sequences(view, offer) {
        lemma_skills(none, view.catalog, view.max_repeat, Take::Future);
        assert forall|k: int, c: int|
            #![trigger view.catalog[k].calls[c]]
            0 <= k < view.catalog.len() && 0 <= c < view.catalog[k].calls.len()
                && !(view.catalog[k].availability is Available) implies exists|i: int|
            offer.candidates.len() <= i < future.candidates.len() && #[trigger] future.candidates[i]
                == alone(
                suggestion(view.catalog[k], view.catalog[k].calls[c], view.max_repeat),
            ) by {
            assert(Take::Future.takes(view.catalog[k]));
            let call = view.catalog[k].calls[c];
            assert(taken(view.catalog[k], call, view.max_repeat, Take::Future) == alone(
                suggestion(view.catalog[k], call, view.max_repeat),
            ));
        }
    } else {
        lemma_grows_refl(none);
    }
}

/// A plan can hold, in every slot but the first, every action that can be done next and every
/// action that a skill of the catalog suggests and that cannot be used yet; in the first slot
/// only what can be done next. Every slot can be left empty.
pub proof fn plans_can_hold_every_action(
    model: Text,
    goal: Text,
    state: AppStateModel,
    view: SkillViewModel,
    previous: Option<ToolResultModel>,
)
    requires
        request_of(model, goal, state, view, previous) is Ok,
        view.execution is None,
        view.max_actions > 1,
        exists|i: int|
            0 <= i < request_of(model, goal, state, view, previous)->Ok_0.1.len() && is_execution(
                #[trigger] request_of(model, goal, state, view, previous)->Ok_0.1[i],
            ),
    ensures
        ({
            let (request, candidates) = request_of(model, goal, state, view, previous)->Ok_0;
            let next = choices(request, "next_action"@);
            &&& forall|k: nat|
                1 <= k <= view.max_actions ==> asks(
                    request,
                    #[trigger] slot_name("sequence"@, "_action_"@, k),
                ) && choices(request, slot_name("sequence"@, "_action_"@, k)).has("end"@)
            &&& forall|k: nat, i: int|
                1 <= k <= view.max_actions && 0 <= i < candidates.len() ==> (choices(
                    request,
                    #[trigger] slot_name("sequence"@, "_action_"@, k),
                ).has(#[trigger] action_key(i, candidates[i])) <==> is_execution(candidates[i])
                    && (k > 1 || next.has(action_key(i, candidates[i]))))
            &&& forall|s: int, c: int|
                #![trigger view.catalog[s].calls[c]]
                0 <= s < view.catalog.len() && 0 <= c < view.catalog[s].calls.len()
                    && !(view.catalog[s].availability is Available) ==> candidates.contains(
                    alone(
                        suggestion(view.catalog[s], view.catalog[s].calls[c], view.max_repeat),
                    ),
                )
        }),
{
    let (request, candidates) = request_of(model, goal, state, view, previous)->Ok_0;
    let next = choices(request, "next_action"@);
    let offer = next_offer(view)->Ok_0;
    let future = future_offer(view, offer)->Ok_0;
    let n = offer.candidates.len() as int;
    let any = choose|i: int| 0 <= i < candidates.len() && is_execution(#[trigger] candidates[i]);
    lemma_next_offer(view);
    lemma_plain_request(model, goal, state, view, previous);
    lemma_future(view, offer);
    lemma_planned(view, candidates, any);
    lemma_slot_choices(candidates, candidates.len() as int, future.criteria);
    lemma_slot_choices(candidates, candidates.len() as int, JsonModel::empty());
    let first = slot_choices(candidates, candidates.len() as int, future.criteria);
    let later = slot_choices(candidates, candidates.len() as int, JsonModel::empty());
    assert forall|i: int| 0 <= i < candidates.len() implies {
        let key = #[trigger] action_key(i, candidates[i]);
        &&& next.has(key) == (i < n)
        &&& first.has(key) == (is_execution(candidates[i]) && i < n)
        &&& later.has(key) == is_execution(candidates[i])
    } by {
        let key = action_key(i, candidates[i]);
        lemma_keys_are_no_words(i, candidates[i]);
        lemma_own_key(offer, candidates, i);
        if future.criteria.has(key) {
            let j = choose|j: int|
                n <= j < candidates.len() && key == #[trigger] action_key(j, candidates[j]);
            keys_tell_candidates_apart(i, candidates[i], j, candidates[j]);
        }
        if first.has(key) {
            let j = choose|j: int|
                {
                    &&& 0 <= j < candidates.len()
                    &&& is_execution(candidates[j])
                    &&& !future.criteria.has(key)
                    &&& key == #[trigger] action_key(j, candidates[j])
                };
            keys_tell_candidates_apart(i, candidates[i], j, candidates[j]);
        }
        if later.has(key) {
            let j = choose|j: int|
                {
                    &&& 0 <= j < candidates.len()
                    &&& is_execution(candidates[j])
                    &&& !JsonModel::empty().has(key)
                    &&& key == #[trigger] action_key(j, candidates[j])
                };
            keys_tell_candidates_apart(i, candidates[i], j, candidates[j]);
        }
    }
}

/// While an execution is interrupted, a replacement can hold in every slot the action of every
/// call that a skill of the catalog suggests, whether it can be used now or not, and it can
/// return for a decision or finish the task. Beside it only single calls can be executed, after
/// which the model is asked again.
pub proof fn replacements_can_hold_every_action(
    model: Text,
    goal: Text,
    state: AppStateModel,
    view: SkillViewModel,
    previous: Option<ToolResultModel>,
)
    requires
        request_of(model, goal, state, view, previous) is Ok,
        view.execution is Some,
    ensures
        ({
            let (request, candidates) = request_of(model, goal, state, view, previous)->Ok_0;
            let then = choices(request, "replacement_continuation"@);
            &&& forall|s: int, c: int|
                #![trigger view.catalog[s].calls[c]]
                0 <= s < view.catalog.len() && 0 <= c < view.catalog[s].calls.len() ==> exists|
                    i: int,
                |
                    {
                        &&& 0 <= i < candidates.len()
                        &&& candidates[i] == alone(
                            suggestion(view.catalog[s], view.catalog[s].calls[c], view.max_repeat),
                        )
                        &&& forall|k: nat|
                            1 <= k <= view.max_actions ==> choices(
                                request,
                                #[trigger] slot_name("replacement"@, "_action_"@, k),
                            ).has(#[trigger] action_key(i, candidates[i]))
                    }
            &&& forall|k: nat|
                1 <= k <= view.max_actions ==> asks(
                    request,
                    #[trigger] slot_name("replacement"@, "_action_"@, k),
                ) && choices(request, slot_name("replacement"@, "_action_"@, k)).has("end"@)
            &&& then.has("decide"@) && then.has("finish"@)
            &&& forall|key: Text| #[trigger]
                then.has(key) ==> key == "decide"@ || key == "finish"@
        }),
{
    let (request, candidates) = request_of(model, goal, state, view, previous)->Ok_0;
    let offer = next_offer(view)->Ok_0;
    let n = offer.candidates.len() as int;
    lemma_next_offer(view);
    lemma_interrupted_request(model, goal, state, view, previous);
    let none = ReplacementModel {
        offer: OfferModel { criteria: JsonModel::empty(), candidates: offer.candidates },
        choices: single("end"@, JsonModel::Null),
        repeats: false,
    };
    lemma_replacing_skills(none, view.catalog, view.max_repeat);
    let offered = replacing_skills(none, view.catalog, view.max_repeat)->Ok_0.choices;
    assert(none.choices.has("end"@));
    assert(offered.has("end"@));
    assert forall|i: int| n <= i < candidates.len() implies offered.has(
        #[trigger] action_key(i, candidates[i]),
    ) by {}
    assert forall|s: int, c: int|
        #![trigger view.catalog[s].calls[c]]
        0 <= s < view.catalog.len() && 0 <= c < view.catalog[s].calls.len() implies exists|i: int|
        {
            &&& 0 <= i < candidates.len()
            &&& candidates[i] == alone(
                suggestion(view.catalog[s], view.catalog[s].calls[c], view.max_repeat),
            )
            &&& forall|k: nat|
                1 <= k <= view.max_actions ==> choices(
                    request,
                    #[trigger] slot_name("replacement"@, "_action_"@, k),
                ).has(#[trigger] action_key(i, candidates[i]))
        } by {
        let i = choose|i: int|
            n <= i < candidates.len() && #[trigger] candidates[i] == alone(
                suggestion(view.catalog[s], view.catalog[s].calls[c], view.max_repeat),
            );
        assert(offered.has(action_key(i, candidates[i])));
    }
}

/// What follows an execution is asked for wherever one can be chosen: to decide again, or, unless
/// an execution is interrupted, to finish the task.
pub proof fn what_follows_is_asked_for(
    model: Text,
    goal: Text,
    state: AppStateModel,
    view: SkillViewModel,
    previous: Option<ToolResultModel>,
)
    requires
        request_of(model, goal, state, view, previous) is Ok,
    ensures
        ({
            let (request, candidates) = request_of(model, goal, state, view, previous)->Ok_0;
            let then = choices(request, "continuation"@);
            (exists|i: int|
                {
                    &&& 0 <= i < candidates.len()
                    &&& is_execution(candidates[i])
                    &&& choices(request, "next_action"@).has(
                        #[trigger] action_key(i, candidates[i]),
                    )
                }) ==> {
                &&& asks(request, "continuation"@)
                &&& then.has("decide"@)
                &&& then.has("finish"@) == (view.execution is None)
                &&& forall|key: Text| #[trigger]
                    then.has(key) ==> key == "decide"@ || key == "finish"@
            }
        }),
{
    let (request, candidates) = request_of(model, goal, state, view, previous)->Ok_0;
    let next = choices(request, "next_action"@);
    let offer = next_offer(view)->Ok_0;
    let n = offer.candidates.len() as int;
    lemma_next_offer(view);
    reveal_strlit("decide");
    reveal_strlit("finish");
    assert("decide"@[0] == 'd' && "finish"@[0] == 'f');
    if exists|i: int|
        {
            &&& 0 <= i < candidates.len()
            &&& is_execution(candidates[i])
            &&& next.has(#[trigger] action_key(i, candidates[i]))
        } {
        let i = choose|i: int|
            {
                &&& 0 <= i < candidates.len()
                &&& is_execution(candidates[i])
                &&& next.has(#[trigger] action_key(i, candidates[i]))
            };
        if view.execution is None {
            lemma_plain_request(model, goal, state, view, previous);
            assert(candidates[i] is Execute);
            assert(some_execute(candidates));
        } else {
            lemma_interrupted_request(model, goal, state, view, previous);
            let none = ReplacementModel {
                offer: OfferModel { criteria: JsonModel::empty(), candidates: offer.candidates },
                choices: single("end"@, JsonModel::Null),
                repeats: false,
            };
            lemma_replacing_skills(none, view.catalog, view.max_repeat);
            lemma_keys_are_no_words(i, candidates[i]);
            lemma_own_key(offer, candidates, i);
            assert(candidates.take(n)[i] == offer.candidates[i]);
            assert(offer.candidates[i] is Execute);
            assert(some_execute(offer.candidates));
        }
    }
}

/// Whether a response answers a question with a choice.
pub open spec fn says(body: JsonModel, name: Text, choice: Text) -> bool {
    let given = body.at("answers"@).at(name);
    given.at("type"@) == JsonModel::Text("choice"@) && given.at("choice"@) == JsonModel::Text(
        choice,
    )
}

/// How a continuation is chosen.
pub open spec fn word(then: Continuation) -> Text {
    match then {
        Continuation::Decide => "decide"@,
        Continuation::Finish => "finish"@,
    }
}

/// The action of a candidate, a repeat as often as it is answered.
pub open spec fn counted(candidate: DecisionModel, count: u32) -> ActionModel {
    match candidate->Execute_actions[0] {
        ActionModel::Repeat(request) => ActionModel::Repeat(
            RepeatRequestModel { times: count, ..request },
        ),
        action => action,
    }
}

/// Whether a candidate can be chosen with a count: it executes one action, and a repeat is done
/// at least once and no more often than it is offered.
pub open spec fn countable(candidate: DecisionModel, count: u32) -> bool {
    &&& candidate is Execute
    &&& candidate->Execute_actions.len() == 1
    &&& candidate->Execute_actions[0] matches ActionModel::Repeat(request) ==> 0 < count
        <= request.times
}

proof fn lemma_says(body: JsonModel, name: Text, choice: Text)
    requires
        says(body, name, choice),
    ensures
        answer(body, name) == Ok::<Text, ErrorModel>(choice),
{
}

proof fn lemma_selected(body: JsonModel, candidate: DecisionModel, count: u32, question: Text)
    requires
        countable(candidate, count),
        candidate->Execute_actions[0] is Repeat ==> says(body, question, text::decimal(count as nat)),
    ensures
        selected_action(body, candidate, question) == Ok::<ActionModel, ErrorModel>(
            counted(candidate, count),
        ),
{
    text::read_undoes_numeral(count);
}

proof fn lemma_continuation(body: JsonModel, question: Text, then: Continuation, flaw: Text)
    requires
        says(body, question, word(then)),
    ensures
        continuation_of(body, question, flaw) == Ok::<Continuation, ErrorModel>(then),
{
    reveal_strlit("decide");
    reveal_strlit("finish");
    assert("decide"@[0] == 'd' && "finish"@[0] == 'f');
}

/// A response that chooses an action gets that action and what it says follows; a repeat is done
/// as often as the response says.
pub proof fn single_choices_are_understood(
    body: JsonModel,
    candidates: Seq<DecisionModel>,
    i: int,
    count: u32,
    then: Continuation,
    max_actions: nat,
)
    requires
        0 <= i < candidates.len(),
        countable(candidates[i], count),
        says(body, "next_action"@, action_key(i, candidates[i])),
        candidates[i]->Execute_actions[0] is Repeat ==> says(
            body,
            "repeat_count"@,
            text::decimal(count as nat),
        ),
        says(body, "continuation"@, word(then)),
    ensures
        decoded(body, candidates, max_actions) == Ok::<DecisionModel, ErrorModel>(
            DecisionModel::Execute { actions: seq![counted(candidates[i], count)], then },
        ),
{
    keys_choose_their_candidates(candidates, i);
    lemma_selected(body, candidates[i], count, "repeat_count"@);
    lemma_continuation(body, "continuation"@, then, "invalid continuation choice"@);
}

/// A response that ends the task, resumes it or loads skills is taken at its word.
pub proof fn other_choices_are_understood(
    body: JsonModel,
    candidates: Seq<DecisionModel>,
    max_actions: nat,
)
    ensures
        says(body, "next_action"@, "completed"@) ==> (decoded(body, candidates, max_actions)
            matches Ok(decision) && decision is Completed),
        says(body, "next_action"@, "failed"@) ==> (decoded(body, candidates, max_actions)
            matches Ok(decision) && decision is Failed),
        forall|i: int|
            0 <= i < candidates.len() && !(candidates[i] is Execute) && says(
                body,
                "next_action"@,
                #[trigger] action_key(i, candidates[i]),
            ) ==> decoded(body, candidates, max_actions) == Ok::<DecisionModel, ErrorModel>(
                candidates[i],
            ),
{
    lemma_words();
    assert forall|i: int|
        0 <= i < candidates.len() && !(candidates[i] is Execute) && says(
            body,
            "next_action"@,
            #[trigger] action_key(i, candidates[i]),
        ) implies decoded(body, candidates, max_actions) == Ok::<DecisionModel, ErrorModel>(
        candidates[i],
    ) by {
        keys_choose_their_candidates(candidates, i);
    }
}

/// Whether a response fills slots with candidates, in order, and leaves the others empty.
pub open spec fn fills(
    body: JsonModel,
    candidates: Seq<DecisionModel>,
    prefix: Text,
    picks: Seq<(int, u32)>,
    slots: nat,
) -> bool {
    &&& picks.len() <= slots
    &&& forall|k: nat|
        1 <= k <= picks.len() ==> {
            let (i, count) = picks[k - 1];
            &&& 0 <= i < candidates.len()
            &&& countable(candidates[i], count)
            &&& says(
                body,
                #[trigger] slot_name(prefix, "_action_"@, k),
                action_key(i, candidates[i]),
            )
            &&& candidates[i]->Execute_actions[0] is Repeat ==> says(
                body,
                slot_name(prefix, "_count_"@, k),
                text::decimal(count as nat),
            )
        }
    &&& forall|k: nat|
        picks.len() < k <= slots ==> says(
            body,
            #[trigger] slot_name(prefix, "_action_"@, k),
            "end"@,
        )
}

/// The actions that are picked.
pub open spec fn picked(
    candidates: Seq<DecisionModel>,
    picks: Seq<(int, u32)>,
) -> Seq<ActionModel> {
    Seq::new(picks.len(), |k: int| counted(candidates[picks[k].0], picks[k].1))
}

proof fn lemma_filled(
    body: JsonModel,
    candidates: Seq<DecisionModel>,
    prefix: Text,
    picks: Seq<(int, u32)>,
    slots: nat,
    n: nat,
)
    requires
        n <= slots,
        fills(body, candidates, prefix, picks, slots),
    ensures
        slot_actions(body, candidates, prefix, n) == Ok::<(Seq<ActionModel>, bool), ErrorModel>(
            (
                picked(candidates, picks).take(
                    if n < picks.len() {
                        n as int
                    } else {
                        picks.len() as int
                    },
                ),
                n > picks.len(),
            ),
        ),
    decreases n,
{
    let all = picked(candidates, picks);
    if n == 0 {
        assert(all.take(0) =~= Seq::<ActionModel>::empty());
    } else {
        lemma_filled(body, candidates, prefix, picks, slots, (n - 1) as nat);
        let name = slot_name(prefix, "_action_"@, n);
        if n <= picks.len() {
            let (i, count) = picks[n - 1];
            let key = action_key(i, candidates[i]);
            assert(says(body, name, key));
            keys_choose_their_candidates(candidates, i);
            lemma_keys_are_no_words(i, candidates[i]);
            lemma_selected(body, candidates[i], count, slot_name(prefix, "_count_"@, n));
            assert(all.take(n - 1).push(all[n - 1]) =~= all.take(n as int));
        } else {
            assert(says(body, name, "end"@));
        }
    }
}

/// A response that chooses a plan and fills its slots gets those actions, in that order and each
/// as often as it says, and what it says follows.
pub proof fn plans_are_understood(
    body: JsonModel,
    candidates: Seq<DecisionModel>,
    picks: Seq<(int, u32)>,
    then: Continuation,
    max_actions: nat,
)
    requires
        says(body, "next_action"@, "sequence"@),
        fills(body, candidates, "sequence"@, picks, max_actions),
        says(body, "continuation"@, word(then)),
    ensures
        picks.len() >= 2 ==> decoded(body, candidates, max_actions) == Ok::<
            DecisionModel,
            ErrorModel,
        >(DecisionModel::Execute { actions: picked(candidates, picks), then }),
        picks.len() < 2 ==> decoded(body, candidates, max_actions) is Err,
{
    lemma_words();
    lemma_filled(body, candidates, "sequence"@, picks, max_actions, max_actions);
    lemma_continuation(body, "continuation"@, then, "invalid continuation choice"@);
    let all = picked(candidates, picks);
    assert(all.take(picks.len() as int) =~= all);
}

/// So does one that replaces the unfinished actions, by one action or more.
pub proof fn replacements_are_understood(
    body: JsonModel,
    candidates: Seq<DecisionModel>,
    picks: Seq<(int, u32)>,
    then: Continuation,
    max_actions: nat,
)
    requires
        says(body, "next_action"@, "replace_remaining"@),
        fills(body, candidates, "replacement"@, picks, max_actions),
        says(body, "replacement_continuation"@, word(then)),
    ensures
        picks.len() >= 1 ==> decoded(body, candidates, max_actions) == Ok::<
            DecisionModel,
            ErrorModel,
        >(DecisionModel::ReplaceRemaining { actions: picked(candidates, picks), then }),
        picks.len() == 0 ==> decoded(body, candidates, max_actions) is Err,
{
    lemma_words();
    lemma_filled(body, candidates, "replacement"@, picks, max_actions, max_actions);
    lemma_continuation(
        body,
        "replacement_continuation"@,
        then,
        "invalid replacement continuation"@,
    );
    let all = picked(candidates, picks);
    assert(all.take(picks.len() as int) =~= all);
}

/// Only what the request offered is accepted: a response whose next action, or what follows it,
/// is not among the choices of the request is refused, whatever it would decide.
pub proof fn only_offered_choices_are_accepted(
    request: JsonModel,
    body: JsonModel,
    candidates: Seq<DecisionModel>,
    next: Text,
)
    requires
        says(body, "next_action"@, next),
    ensures
        !choices(request, "next_action"@).has(next) ==> judged(request, body, candidates) is Err,
        judged(request, body, candidates) matches Ok(DecisionModel::Execute { then, .. })
            ==> next == "replace_remaining"@ || choices(request, "continuation"@).has(word(then)),
        judged(request, body, candidates) matches Ok(DecisionModel::ReplaceRemaining { then, .. })
            ==> next == "replace_remaining"@ ==> choices(request, "replacement_continuation"@).has(
            word(then),
        ),
        judged(request, body, candidates) is Ok ==> judged(request, body, candidates) == decoded(
            body,
            candidates,
            slot_count(
                request,
                if next == "replace_remaining"@ {
                    "replacement"@
                } else {
                    "sequence"@
                },
            ),
        ),
{
}

/// A response that chooses one of the actions that a request offers, with an offered continuation,
/// is accepted and gets that action.
pub proof fn offered_actions_are_accepted(
    request: JsonModel,
    body: JsonModel,
    candidates: Seq<DecisionModel>,
    i: int,
    count: u32,
    then: Continuation,
)
    requires
        0 <= i < candidates.len(),
        countable(candidates[i], count),
        choices(request, "next_action"@).has(action_key(i, candidates[i])),
        choices(request, "continuation"@).has(word(then)),
        says(body, "next_action"@, action_key(i, candidates[i])),
        candidates[i]->Execute_actions[0] is Repeat ==> says(
            body,
            "repeat_count"@,
            text::decimal(count as nat),
        ),
        says(body, "continuation"@, word(then)),
    ensures
        judged(request, body, candidates) == Ok::<DecisionModel, ErrorModel>(
            DecisionModel::Execute { actions: seq![counted(candidates[i], count)], then },
        ),
{
    single_choices_are_understood(
        body,
        candidates,
        i,
        count,
        then,
        slot_count(request, "sequence"@),
    );
    keys_choose_their_candidates(candidates, i);
}

proof fn lemma_slot_flaws(
    request: JsonModel,
    body: JsonModel,
    prefix: Text,
    slots: nat,
)
    ensures
        slot_flaw(request, body, prefix, slots) is None <==> forall|k: nat|
            1 <= k <= slots ==> answer(body, #[trigger] slot_name(prefix, "_action_"@, k)) is Ok
                && choices(request, slot_name(prefix, "_action_"@, k)).has(
                answer(body, slot_name(prefix, "_action_"@, k))->Ok_0,
            ),
    decreases slots,
{
    if slots > 0 {
        lemma_slot_flaws(request, body, prefix, (slots - 1) as nat);
        let name = slot_name(prefix, "_action_"@, slots);
        if slot_flaw(request, body, prefix, slots) is None {
            assert forall|k: nat| 1 <= k <= slots implies answer(
                body,
                #[trigger] slot_name(prefix, "_action_"@, k),
            ) is Ok && choices(request, slot_name(prefix, "_action_"@, k)).has(
                answer(body, slot_name(prefix, "_action_"@, k))->Ok_0,
            ) by {
                if k == slots {
                    assert(offers(request, name, answer(body, name)->Ok_0));
                }
            }
        }
    }
}

/// A plan is accepted if and only if every slot of it is filled with something that the request
/// offered in that slot: one action that was not offered refuses the whole plan.
pub proof fn plans_are_accepted_as_offered(
    request: JsonModel,
    body: JsonModel,
    candidates: Seq<DecisionModel>,
    picks: Seq<(int, u32)>,
    then: Continuation,
)
    requires
        says(body, "next_action"@, "sequence"@),
        choices(request, "next_action"@).has("sequence"@),
        fills(body, candidates, "sequence"@, picks, slot_count(request, "sequence"@)),
        picks.len() >= 2,
        says(body, "continuation"@, word(then)),
        choices(request, "continuation"@).has(word(then)),
    ensures
        ({
            let slots = slot_count(request, "sequence"@);
            let offered = forall|k: nat, choice: Text|
                1 <= k <= slots && says(
                    body,
                    #[trigger] slot_name("sequence"@, "_action_"@, k),
                    choice,
                ) ==> (#[trigger] choices(request, slot_name("sequence"@, "_action_"@, k)).has(
                    choice,
                ));
            if offered {
                judged(request, body, candidates) == Ok::<DecisionModel, ErrorModel>(
                    DecisionModel::Execute { actions: picked(candidates, picks), then },
                )
            } else {
                judged(request, body, candidates) is Err
            }
        }),
{
    let slots = slot_count(request, "sequence"@);
    lemma_words();
    plans_are_understood(body, candidates, picks, then, slots);
    lemma_slot_flaws(request, body, "sequence"@, slots);
    assert forall|k: nat| 1 <= k <= slots implies ({
        let name = #[trigger] slot_name("sequence"@, "_action_"@, k);
        answer(body, name) is Ok && says(body, name, answer(body, name)->Ok_0)
    }) by {
        let name = slot_name("sequence"@, "_action_"@, k);
        if k <= picks.len() {
            let (i, count) = picks[k - 1];
            lemma_says(body, name, action_key(i, candidates[i]));
        } else {
            lemma_says(body, name, "end"@);
        }
    }
}

/// A member that an object has where a value is there, and lacks where none is.
pub open spec fn tells(object: JsonModel, key: Text, value: Option<JsonModel>) -> bool {
    match value {
        Some(value) => object.has(key) && object.at(key) == value,
        None => !object.has(key),
    }
}

proof fn lemma_context(
    goal: Text,
    state: AppStateModel,
    view: SkillViewModel,
    previous: Option<ToolResultModel>,
    future: JsonModel,
    replacement: JsonModel,
)
    ensures
        ({
            let plain = context_of(goal, state, view, previous);
            let planned = plain.with("future_actions"@, future);
            let replaced = plain.with("replacement_actions"@, replacement);
            &&& informed(plain, goal, state, view, previous)
            &&& informed(planned, goal, state, view, previous)
            &&& informed(replaced, goal, state, view, previous)
        }),
{
    reveal_strlit("name");
    reveal_strlit("description");
    assert("name"@.len() == 4 && "description"@.len() == 11);
    reveal_strlit("task");
    reveal_strlit("app_state");
    reveal_strlit("available_skills");
    reveal_strlit("adapter_guidance");
    reveal_strlit("latest_failure");
    reveal_strlit("skill_directory");
    reveal_strlit("previous_tool_result");
    reveal_strlit("last_load");
    reveal_strlit("pending_batch");
    reveal_strlit("pending_execution");
    reveal_strlit("future_actions");
    reveal_strlit("replacement_actions");
    assert("task"@.len() == 4 && "task"@[1] == 'a' && "task"@[0] == 't');
    assert("app_state"@.len() == 9 && "app_state"@[1] == 'p' && "app_state"@[0] == 'a');
    assert("available_skills"@.len() == 16 && "available_skills"@[1] == 'v' && "available_skills"@[0] == 'a');
    assert("adapter_guidance"@.len() == 16 && "adapter_guidance"@[1] == 'd' && "adapter_guidance"@[0] == 'a');
    assert("latest_failure"@.len() == 14 && "latest_failure"@[1] == 'a' && "latest_failure"@[0] == 'l');
    assert("skill_directory"@.len() == 15 && "skill_directory"@[1] == 'k' && "skill_directory"@[0] == 's');
    assert("previous_tool_result"@.len() == 20 && "previous_tool_result"@[1] == 'r' && "previous_tool_result"@[0] == 'p');
    assert("last_load"@.len() == 9 && "last_load"@[1] == 'a' && "last_load"@[0] == 'l');
    assert("pending_batch"@.len() == 13 && "pending_batch"@[1] == 'e' && "pending_batch"@[0] == 'p');
    assert("pending_execution"@.len() == 17 && "pending_execution"@[1] == 'e' && "pending_execution"@[0] == 'p');
    assert("future_actions"@.len() == 14 && "future_actions"@[1] == 'u' && "future_actions"@[0] == 'f');
    assert("replacement_actions"@.len() == 19 && "replacement_actions"@[1] == 'e' && "replacement_actions"@[0] == 'r');
}

/// Whether the model is told what the task is, what was observed, which skills it has, what the
/// adapter advises, and whatever failed, was done last, was loaded or is pending.
pub open spec fn informed(
    context: JsonModel,
    goal: Text,
    state: AppStateModel,
    view: SkillViewModel,
    previous: Option<ToolResultModel>,
) -> bool {
    &&& context.at("task"@).at("goal"@) == JsonModel::Text(goal)
    &&& context.at("app_state"@) == wire::state_json(state)
    &&& context.at("available_skills"@) matches JsonModel::Array(skills) && skills.len()
        == view.loaded.len() && forall|i: int|
        0 <= i < skills.len() ==> (#[trigger] skills[i]).at("name"@) == JsonModel::Text(
            view.loaded[i].name,
        ) && skills[i].at("description"@) == JsonModel::Text(view.loaded[i].description)
    &&& tells(
        context,
        "adapter_guidance"@,
        if view.guidance.len() == 0 {
            None
        } else {
            Some(JsonModel::Text(view.guidance))
        },
    )
    &&& tells(
        context,
        "latest_failure"@,
        match view.failure {
            Some(failure) => Some(wire::failure_json(failure)),
            None => None,
        },
    )
    &&& tells(
        context,
        "skill_directory"@,
        if view.directory.len() == 0 {
            None
        } else {
            Some(wire::summaries_json(view.directory))
        },
    )
    &&& tells(
        context,
        "previous_tool_result"@,
        match previous {
            Some(result) => Some(wire::result_json(result)),
            None => None,
        },
    )
    &&& tells(
        context,
        "last_load"@,
        match view.last_load {
            Some(result) => Some(wire::loaded_json(result)),
            None => None,
        },
    )
    &&& tells(
        context,
        "pending_batch"@,
        match view.batch {
            Some(progress) => Some(wire::batch_json(progress)),
            None => None,
        },
    )
    &&& tells(
        context,
        "pending_execution"@,
        match view.execution {
            Some(progress) => Some(wire::execution_json(progress)),
            None => None,
        },
    )
}

/// Every request names the model and tells it everything that it is to decide by.
pub proof fn requests_inform_the_model(
    model: Text,
    goal: Text,
    state: AppStateModel,
    view: SkillViewModel,
    previous: Option<ToolResultModel>,
)
    requires
        request_of(model, goal, state, view, previous) is Ok,
    ensures
        ({
            let request = request_of(model, goal, state, view, previous)->Ok_0.0;
            &&& request.at("model"@) == JsonModel::Text(model)
            &&& informed(request.at("state"@), goal, state, view, previous)
        }),
{
    let request = request_of(model, goal, state, view, previous)->Ok_0.0;
    let offer = next_offer(view)->Ok_0;
    let future = future_offer(view, offer)->Ok_0;
    let context = context_of(goal, state, view, previous);
    let none = ReplacementModel {
        offer: OfferModel { criteria: JsonModel::empty(), candidates: offer.candidates },
        choices: single("end"@, JsonModel::Null),
        repeats: false,
    };
    let replacement = replacing_skills(none, view.catalog, view.max_repeat)->Ok_0;
    lemma_context(goal, state, view, previous, future.criteria, replacement.offer.criteria);
    let questions = request.at("questions"@);
    let told = context.with("future_actions"@, future.criteria);
    let replaced = context.with("replacement_actions"@, replacement.offer.criteria);
    lemma_words_of_requests();
    if view.execution is Some {
        assert(!sequences(view, offer));
        assert(members(future.criteria) == 0);
    }
}

proof fn lemma_words_of_requests()
    ensures
        "questions"@ != "state"@,
        "questions"@ != "model"@,
        "state"@ != "model"@,
{
    reveal_strlit("questions");
    reveal_strlit("state");
    reveal_strlit("model");
    assert("questions"@.len() == 9 && "state"@.len() == 5 && "model"@.len() == 5);
    assert("state"@[0] == 's' && "model"@[0] == 'm');
}

/// How many questions of an object have names that begin with a text.
spec fn begun_with(questions: JsonModel, prefix: Text) -> nat {
    questions->Object_0.dom().filter(|key: Text| begins(key, prefix)).len()
}

proof fn lemma_begun_with(questions: JsonModel, key: Text, value: JsonModel, prefix: Text)
    requires
        questions is Object,
        questions->Object_0.dom().finite(),
        !questions.has(key),
    ensures
        questions.with(key, value)->Object_0.dom().finite(),
        begun_with(questions.with(key, value), prefix) == begun_with(questions, prefix) + if begins(
            key,
            prefix,
        ) {
            1nat
        } else {
            0nat
        },
{
    let p = |key: Text| begins(key, prefix);
    let before = questions->Object_0.dom();
    let after = questions.with(key, value)->Object_0.dom();
    assert(after =~= before.insert(key));
    if begins(key, prefix) {
        assert(after.filter(p) =~= before.filter(p).insert(key));
    } else {
        assert(after.filter(p) =~= before.filter(p));
    }
    before.lemma_len_filter(p);
}

#[verifier::spinoff_prover]
proof fn lemma_sequence_count(
    questions: JsonModel,
    first: JsonModel,
    later: JsonModel,
    counts: Option<JsonModel>,
    slots: nat,
)
    requires
        questions is Object,
        questions->Object_0.dom().finite(),
        forall|name: Text| #[trigger] questions.has(name) ==> lasting(name),
    ensures
        ({
            let all = with_sequence_slots(questions, first, later, counts, slots);
            &&& all is Object
            &&& all->Object_0.dom().finite()
            &&& begun_with(all, "sequence"@ + "_action_"@) == begun_with(
                questions,
                "sequence"@ + "_action_"@,
            ) + slots
            &&& forall|name: Text| #[trigger]
                all.has(name) ==> lasting(name) || exists|k: nat|
                    1 <= k <= slots && (name == #[trigger] slot_name("sequence"@, "_action_"@, k)
                        || name == slot_name("sequence"@, "_count_"@, k))
        }),
    decreases slots,
{
    if slots > 0 {
        let n = (slots - 1) as nat;
        let less = with_sequence_slots(questions, first, later, counts, n);
        let all = with_sequence_slots(questions, first, later, counts, slots);
        lemma_sequence_count(questions, first, later, counts, n);
        let action = slot_name("sequence"@, "_action_"@, slots);
        let count = slot_name("sequence"@, "_count_"@, slots);
        let prefix = "sequence"@ + "_action_"@;
        assert(!less.has(action) && !less.has(count) && action != count) by {
            lemma_slot_names("sequence"@, slots, slots);
            assert forall|name: Text| #[trigger] less.has(name) implies name != action && name
                != count by {
                if lasting(name) {
                    lemma_lasting_names(name, slots);
                } else {
                    let k = choose|k: nat|
                        1 <= k <= n && (name == #[trigger] slot_name("sequence"@, "_action_"@, k)
                            || name == slot_name("sequence"@, "_count_"@, k));
                    lemma_slot_names("sequence"@, k, slots);
                    lemma_slot_names("sequence"@, slots, k);
                }
            }
        }
        let asked = all.at(action);
        let half = less.with(action, asked);
        lemma_begun_with(less, action, asked, prefix);
        lemma_begun_with(half, count, all.at(count), prefix);
        assert(begins(action, prefix)) by {
            assert(action.take(prefix.len() as int) =~= prefix);
        }
        assert(!begins(count, prefix)) by {
            reveal_strlit("_action_");
            reveal_strlit("_count_");
            let m = "sequence"@.len() as int;
            assert(count[m + 1] == 'c' && prefix[m + 1] == 'a');
            if begins(count, prefix) {
                assert(count.take(prefix.len() as int)[m + 1] == prefix[m + 1]);
            }
        }
        assert(all == if counts is Some {
            half.with(count, all.at(count))
        } else {
            half
        });
        assert forall|name: Text| #[trigger] all.has(name) implies lasting(name) || exists|k: nat|
            1 <= k <= slots && (name == #[trigger] slot_name("sequence"@, "_action_"@, k) || name
                == slot_name("sequence"@, "_count_"@, k)) by {
            if less.has(name) {
                if !lasting(name) {
                    let k = choose|k: nat|
                        1 <= k <= n && (name == #[trigger] slot_name("sequence"@, "_action_"@, k)
                            || name == slot_name("sequence"@, "_count_"@, k));
                    assert(name == slot_name("sequence"@, "_action_"@, k) || name == slot_name(
                        "sequence"@,
                        "_count_"@,
                        k,
                    ));
                }
            } else {
                assert(name == slot_name("sequence"@, "_action_"@, slots) || name == count);
            }
        }
    }
}

#[verifier::spinoff_prover]
proof fn lemma_replacement_count(
    questions: JsonModel,
    choices: JsonModel,
    counts: Option<JsonModel>,
    slots: nat,
)
    requires
        questions is Object,
        questions->Object_0.dom().finite(),
        forall|name: Text| #[trigger] questions.has(name) ==> lasting(name),
    ensures
        ({
            let all = with_replacement_slots(questions, choices, counts, slots);
            &&& all is Object
            &&& all->Object_0.dom().finite()
            &&& begun_with(all, "replacement"@ + "_action_"@) == begun_with(
                questions,
                "replacement"@ + "_action_"@,
            ) + slots
            &&& forall|name: Text| #[trigger]
                all.has(name) ==> lasting(name) || exists|k: nat|
                    1 <= k <= slots && (name == #[trigger] slot_name("replacement"@, "_action_"@, k)
                        || name == slot_name("replacement"@, "_count_"@, k))
        }),
    decreases slots,
{
    if slots > 0 {
        let n = (slots - 1) as nat;
        let less = with_replacement_slots(questions, choices, counts, n);
        let all = with_replacement_slots(questions, choices, counts, slots);
        lemma_replacement_count(questions, choices, counts, n);
        let action = slot_name("replacement"@, "_action_"@, slots);
        let count = slot_name("replacement"@, "_count_"@, slots);
        let prefix = "replacement"@ + "_action_"@;
        assert(!less.has(action) && !less.has(count) && action != count) by {
            lemma_slot_names("replacement"@, slots, slots);
            assert forall|name: Text| #[trigger] less.has(name) implies name != action && name
                != count by {
                if lasting(name) {
                    lemma_lasting_names(name, slots);
                } else {
                    let k = choose|k: nat|
                        1 <= k <= n && (name == #[trigger] slot_name("replacement"@, "_action_"@, k)
                            || name == slot_name("replacement"@, "_count_"@, k));
                    lemma_slot_names("replacement"@, k, slots);
                    lemma_slot_names("replacement"@, slots, k);
                }
            }
        }
        let asked = all.at(action);
        let half = less.with(action, asked);
        lemma_begun_with(less, action, asked, prefix);
        lemma_begun_with(half, count, all.at(count), prefix);
        assert(begins(action, prefix)) by {
            assert(action.take(prefix.len() as int) =~= prefix);
        }
        assert(!begins(count, prefix)) by {
            reveal_strlit("_action_");
            reveal_strlit("_count_");
            let m = "replacement"@.len() as int;
            assert(count[m + 1] == 'c' && prefix[m + 1] == 'a');
            if begins(count, prefix) {
                assert(count.take(prefix.len() as int)[m + 1] == prefix[m + 1]);
            }
        }
        assert(all == if counts is Some {
            half.with(count, all.at(count))
        } else {
            half
        });
        assert forall|name: Text| #[trigger] all.has(name) implies lasting(name) || exists|k: nat|
            1 <= k <= slots && (name == #[trigger] slot_name("replacement"@, "_action_"@, k) || name
                == slot_name("replacement"@, "_count_"@, k)) by {
            if less.has(name) {
                if !lasting(name) {
                    let k = choose|k: nat|
                        1 <= k <= n && (name == #[trigger] slot_name("replacement"@, "_action_"@, k)
                            || name == slot_name("replacement"@, "_count_"@, k));
                    assert(name == slot_name("replacement"@, "_action_"@, k) || name == slot_name(
                        "replacement"@,
                        "_count_"@,
                        k,
                    ));
                }
            } else {
                assert(name == slot_name("replacement"@, "_action_"@, slots) || name == count);
            }
        }
    }
}

proof fn lemma_no_slots(questions: JsonModel, prefix: Text)
    requires
        questions is Object,
        forall|name: Text| #[trigger] questions.has(name) ==> lasting(name),
        prefix == "sequence"@ || prefix == "replacement"@,
    ensures
        begun_with(questions, prefix + "_action_"@) == 0,
{
    let beginning = prefix + "_action_"@;
    let p = |key: Text| begins(key, beginning);
    reveal_strlit("repeat_count");
    reveal_strlit("next_action");
    reveal_strlit("continuation");
    reveal_strlit("replacement_continuation");
    reveal_strlit("sequence");
    reveal_strlit("replacement");
    reveal_strlit("_action_");
    assert forall|name: Text| lasting(name) implies !begins(name, beginning) by {
        if begins(name, beginning) {
            let head = name.take(beginning.len() as int);
            assert(head[0] == beginning[0]);
            assert(head[3] == beginning[3]);
            assert(head[12] == beginning[12]);
        }
    }
    assert(questions->Object_0.dom().filter(p) =~= Set::empty()) by {
        assert forall|name: Text| !questions->Object_0.dom().filter(p).contains(name) by {
            if questions.has(name) {
                assert(lasting(name));
            }
        }
    }
}

/// A request has as many slots as a plan may have actions, and all of them are read.
pub proof fn every_slot_is_read(
    model: Text,
    goal: Text,
    state: AppStateModel,
    view: SkillViewModel,
    previous: Option<ToolResultModel>,
)
    requires
        request_of(model, goal, state, view, previous) is Ok,
    ensures
        ({
            let request = request_of(model, goal, state, view, previous)->Ok_0.0;
            let next = choices(request, "next_action"@);
            &&& next.has("sequence"@) ==> slot_count(request, "sequence"@) == view.max_actions
            &&& next.has("replace_remaining"@) ==> slot_count(request, "replacement"@)
                == view.max_actions
        }),
{
    exactly_the_next_choices_are_offered(model, goal, state, view, previous);
    let (request, candidates) = request_of(model, goal, state, view, previous)->Ok_0;
    let offer = next_offer(view)->Ok_0;
    let future = future_offer(view, offer)->Ok_0;
    let counts = count_choices(view.max_repeat as nat);
    lemma_next_offer(view);
    lemma_words_of_requests();
    if view.execution is None {
        lemma_plain_request(model, goal, state, view, previous);
        let common = common_questions(view, candidates, counts).with(
            "next_action"@,
            question(instructions(), next_choices(view, offer)),
        );
        let first = slot_choices(candidates, candidates.len() as int, future.criteria);
        let later = slot_choices(candidates, candidates.len() as int, JsonModel::empty());
        let repeated = if some_repeat(candidates) {
            Some(counts)
        } else {
            None
        };
        if choices(request, "next_action"@).has("sequence"@) {
            let i = choose|i: int| 0 <= i < candidates.len() && is_execution(#[trigger] candidates[i]);
            lemma_planned(view, candidates, i);
            lemma_sequence_count(common, first, later, repeated, view.max_actions as nat);
            lemma_no_slots(common, "sequence"@);
        }
    } else {
        let none = ReplacementModel {
            offer: OfferModel { criteria: JsonModel::empty(), candidates: offer.candidates },
            choices: single("end"@, JsonModel::Null),
            repeats: false,
        };
        let replacement = replacing_skills(none, view.catalog, view.max_repeat)->Ok_0;
        let criteria = next_choices(view, offer).with(
            "replace_remaining"@,
            JsonModel::Text("Replace only unfinished actions using replacement slots. Preserve completed work. First carry forward any unfinished pending batch: the identical repeat call with exactly remaining count, or identical until_done call. Repair separately if needed. Original budgets remain in force."@),
        );
        let common = common_questions(view, offer.candidates, counts).with(
            "next_action"@,
            question(instructions(), criteria),
        ).with(
            "replacement_continuation"@,
            question(
                "After replacement completes normally. Otherwise choose decide."@,
                JsonModel::empty().with("decide"@, JsonModel::Null).with(
                    "finish"@,
                    JsonModel::Null,
                ),
            ),
        );
        let repeated = if replacement.repeats {
            Some(counts)
        } else {
            None
        };
        assert(members(future.criteria) == 0);
        lemma_replacement_count(
            common,
            replacement.choices,
            repeated,
            view.max_actions as nat,
        );
        lemma_no_slots(common, "replacement"@);
    }
}

/// A response is refused that repeats something never or more often than offered, chooses what is no
/// candidate, or does not say what follows.
pub proof fn doubtful_answers_are_refused(
    body: JsonModel,
    candidates: Seq<DecisionModel>,
    i: int,
    count: u32,
    key: Text,
    max_actions: nat,
)
    requires
        0 <= i < candidates.len(),
    ensures
        says(body, "next_action"@, action_key(i, candidates[i])) && candidates[i] is Execute
            && candidates[i]->Execute_actions.len() > 0 && (candidates[i]->Execute_actions[0]
            matches ActionModel::Repeat(request) && (count == 0 || count > request.times)) && says(
            body,
            "repeat_count"@,
            text::decimal(count as nat),
        ) ==> decoded(body, candidates, max_actions) is Err,
        says(body, "next_action"@, key) && key != "completed"@ && key != "failed"@ && key
            != "sequence"@ && key != "replace_remaining"@ && (forall|k: int|
            0 <= k < candidates.len() ==> #[trigger] action_key(k, candidates[k]) != key)
            ==> decoded(body, candidates, max_actions) is Err,
        says(body, "next_action"@, action_key(i, candidates[i])) && candidates[i] is Execute && !(
        says(body, "continuation"@, "decide"@) || says(body, "continuation"@, "finish"@))
            ==> decoded(body, candidates, max_actions) is Err,
        answer(body, "next_action"@) is Err ==> decoded(body, candidates, max_actions) is Err,
{
    keys_choose_their_candidates(candidates, i);
    text::read_undoes_numeral(count);
    if says(body, "next_action"@, key) && (forall|k: int|
        0 <= k < candidates.len() ==> #[trigger] action_key(k, candidates[k]) != key) {
        lemma_no_candidate(key, candidates, 0);
    }
}

proof fn lemma_no_candidate(key: Text, candidates: Seq<DecisionModel>, from: int)
    requires
        0 <= from,
        forall|k: int|
            0 <= k < candidates.len() ==> #[trigger] action_key(k, candidates[k]) != key,
    ensures
        candidate_index(key, candidates, from) is None,
    decreases candidates.len() - from,
{
    if from < candidates.len() {
        lemma_no_candidate(key, candidates, from + 1);
    }
}

proof fn lemma_gap(
    body: JsonModel,
    candidates: Seq<DecisionModel>,
    prefix: Text,
    slot: nat,
    slots: nat,
)
    requires
        1 <= slot < slots,
        says(body, slot_name(prefix, "_action_"@, slot), "end"@),
        !says(body, slot_name(prefix, "_action_"@, slot + 1), "end"@),
    ensures
        slot_actions(body, candidates, prefix, slots) is Err,
    decreases slots,
{
    if slots > slot + 1 {
        lemma_gap(body, candidates, prefix, slot, (slots - 1) as nat);
    } else {
        let before = slot_actions(body, candidates, prefix, slot);
        if before is Ok {
            assert(before->Ok_0.1);
        }
    }
}

/// A plan has no gaps: an action behind an empty slot refuses it.
pub proof fn plans_have_no_gaps(
    body: JsonModel,
    candidates: Seq<DecisionModel>,
    slot: nat,
    max_actions: nat,
)
    requires
        1 <= slot < max_actions,
    ensures
        says(body, "next_action"@, "sequence"@) && says(
            body,
            slot_name("sequence"@, "_action_"@, slot),
            "end"@,
        ) && !says(body, slot_name("sequence"@, "_action_"@, slot + 1), "end"@) ==> decoded(
            body,
            candidates,
            max_actions,
        ) is Err,
        says(body, "next_action"@, "replace_remaining"@) && says(
            body,
            slot_name("replacement"@, "_action_"@, slot),
            "end"@,
        ) && !says(body, slot_name("replacement"@, "_action_"@, slot + 1), "end"@) ==> decoded(
            body,
            candidates,
            max_actions,
        ) is Err,
{
    lemma_words();
    if says(body, slot_name("sequence"@, "_action_"@, slot), "end"@) && !says(
        body,
        slot_name("sequence"@, "_action_"@, slot + 1),
        "end"@,
    ) {
        lemma_gap(body, candidates, "sequence"@, slot, max_actions);
    }
    if says(body, slot_name("replacement"@, "_action_"@, slot), "end"@) && !says(
        body,
        slot_name("replacement"@, "_action_"@, slot + 1),
        "end"@,
    ) {
        lemma_gap(body, candidates, "replacement"@, slot, max_actions);
    }
}

/// A request is made only within the budgets, and never offers more than two hundred and fifty-five
/// choices for what to do next.
pub proof fn requests_keep_to_their_bounds(
    model: Text,
    goal: Text,
    state: AppStateModel,
    view: SkillViewModel,
    previous: Option<ToolResultModel>,
)
    ensures
        request_of(model, goal, state, view, previous) is Ok ==> {
            &&& 1 <= view.max_actions <= 16
            &&& 1 <= view.max_repeat <= 100
            &&& choices(
                request_of(model, goal, state, view, previous)->Ok_0.0,
                "next_action"@,
            ) matches JsonModel::Object(offered) && offered.dom().len() <= 255
        },
{
    if request_of(model, goal, state, view, previous) is Ok {
        let request = request_of(model, goal, state, view, previous)->Ok_0.0;
        let offer = next_offer(view)->Ok_0;
        lemma_next_offer(view);
        if view.execution is None {
            lemma_plain_request(model, goal, state, view, previous);
        } else {
            lemma_interrupted_choices(model, goal, state, view, previous);
        }
    }
}

proof fn lemma_interrupted_choices(
    model: Text,
    goal: Text,
    state: AppStateModel,
    view: SkillViewModel,
    previous: Option<ToolResultModel>,
)
    requires
        view.execution is Some,
        request_of(model, goal, state, view, previous) is Ok,
    ensures
        choices(
            request_of(model, goal, state, view, previous)->Ok_0.0,
            "next_action"@,
        ) matches JsonModel::Object(offered) && offered.dom().len() <= 255,
{
    let request = request_of(model, goal, state, view, previous)->Ok_0.0;
    let offer = next_offer(view)->Ok_0;
    lemma_next_offer(view);
    let none = ReplacementModel {
        offer: OfferModel { criteria: JsonModel::empty(), candidates: offer.candidates },
        choices: single("end"@, JsonModel::Null),
        repeats: false,
    };
    let replacement = replacing_skills(none, view.catalog, view.max_repeat)->Ok_0;
    let counts = count_choices(view.max_repeat as nat);
    lemma_common(view, offer.candidates, counts);
    let criteria = next_choices(view, offer).with(
        "replace_remaining"@,
        JsonModel::Text("Replace only unfinished actions using replacement slots. Preserve completed work. First carry forward any unfinished pending batch: the identical repeat call with exactly remaining count, or identical until_done call. Repair separately if needed. Original budgets remain in force."@),
    );
    let both = JsonModel::empty().with("decide"@, JsonModel::Null).with("finish"@, JsonModel::Null);
    let common = common_questions(view, offer.candidates, counts).with(
        "next_action"@,
        question(instructions(), criteria),
    ).with(
        "replacement_continuation"@,
        question("After replacement completes normally. Otherwise choose decide."@, both),
    );
    let repeated = if replacement.repeats {
        Some(counts)
    } else {
        None
    };
    reveal_strlit("next_action");
    reveal_strlit("replacement_continuation");
    assert("next_action"@.len() == 11 && "replacement_continuation"@.len() == 24);
    lemma_replacement_slots(common, replacement.choices, repeated, view.max_actions as nat);
    let questions = with_replacement_slots(
        common,
        replacement.choices,
        repeated,
        view.max_actions as nat,
    );
    lemma_body(
        model,
        context_of(goal, state, view, previous).with(
            "replacement_actions"@,
            replacement.offer.criteria,
        ),
        questions,
    );
    let future = future_offer(view, offer)->Ok_0;
    assert(!sequences(view, offer));
    assert(members(future.criteria) == 0);
    assert(questions.has("next_action"@) == common.has("next_action"@));
    assert(choices(request, "next_action"@) == criteria);
}

/// A skill that can be used but suggests no call cannot be offered, and the request says so rather
/// than hide it.
pub proof fn skills_without_calls_are_reported(view: SkillViewModel, k: int)
    requires
        0 <= k < view.loaded.len(),
        view.loaded[k].availability is Available,
        view.loaded[k].calls.len() == 0,
        !view.loaded[k].repeatable,
        !view.loaded[k].loopable,
        pending_call(view) matches Some(call) ==> call.name != view.loaded[k].name,
    ensures
        next_offer(view) is Err,
{
    let pending = pending_name(view);
    let skills = callable_skills(view.loaded, pending);
    lemma_callable(view.loaded, pending);
    assert(view.loaded.contains(view.loaded[k]));
    assert(skills.contains(view.loaded[k]));
    let j = choose|j: int| 0 <= j < skills.len() && skills[j] == view.loaded[k];
    lemma_silent_skill(base_offer(), skills, j);
}

proof fn lemma_silent_skill(offer: OfferModel, skills: Seq<SkillModel>, j: int)
    requires
        0 <= j < skills.len(),
        skills[j].availability is Available,
        skills[j].calls.len() == 0,
    ensures
        with_skills(offer, skills, 0, Take::Callable) is Err,
    decreases skills.len(),
{
    if j < skills.len() - 1 {
        lemma_silent_skill(offer, skills.drop_last(), j);
    }
}

} // verus!
