//! Task-local skill exposure. Selection comes from the agent; availability comes from adapters.
use crate::api::{
    Availability, AvailabilityModel, ExecutionFailure, ExecutionFailureModel, Skill, SkillModel,
};
use crate::batch::{BatchProgress, BatchProgressModel, MAX_REPEAT};
use crate::copy::{Dup, Same};
use crate::execution::{ExecutionProgress, ExecutionProgressModel};
use crate::kernel::{Error, ErrorModel};
use crate::text;
use crate::text::Text;
use vstd::prelude::*;

verus! {

/// Whether all skills are injected or those that the agent asks for.
#[derive(Debug, Clone, Copy, PartialEq, Eq, Structural)]
pub enum SkillMode {
    All,
    OnDemand,
}

impl DeepView for SkillMode {
    type V = SkillMode;

    open spec fn deep_view(&self) -> SkillMode {
        *self
    }
}

impl Dup for SkillMode {
    fn dup(&self) -> (r: Self) {
        *self
    }
}

/// Exact names and tags are combined with OR. Each successful request replaces the selection.
#[derive(Debug)]
pub struct LoadSkills {
    pub names: Vec<String>,
    pub tags: Vec<String>,
}

#[verifier::ext_equal]
pub struct LoadSkillsModel {
    pub names: Seq<Text>,
    pub tags: Seq<Text>,
}

impl View for LoadSkills {
    type V = LoadSkillsModel;

    open spec fn view(&self) -> LoadSkillsModel {
        LoadSkillsModel {
            names: self.names.deep_view(),
            tags: self.tags.deep_view(),
        }
    }
}

impl DeepView for LoadSkills {
    type V = LoadSkillsModel;

    open spec fn deep_view(&self) -> LoadSkillsModel {
        self@
    }
}

impl Dup for LoadSkills {
    fn dup(&self) -> (r: Self) {
        LoadSkills {
            names: self.names.dup(),
            tags: self.tags.dup(),
        }
    }
}

impl Same for LoadSkills {
    open spec fn plain_of(value: LoadSkillsModel) -> LoadSkillsModel {
        value
    }

    fn same(&self, other: &Self) -> (r: bool) {
        proof {
            assert(Vec::<String>::plain_of(self@.names) =~= self@.names);
            assert(Vec::<String>::plain_of(other@.names) =~= other@.names);
            assert(Vec::<String>::plain_of(self@.tags) =~= self@.tags);
            assert(Vec::<String>::plain_of(other@.tags) =~= other@.tags);
        }
        let names: bool = self.names.same(&other.names);
        let tags: bool = self.tags.same(&other.tags);
        assert(names == (self@.names == other@.names));
        assert(tags == (self@.tags == other@.tags));
        assert(Self::plain_of(self.deep_view()) == self@);
        assert(Self::plain_of(other.deep_view()) == other@);
        assert((names && tags) == (self@ == other@));
        names && tags
    }
}

/// What the directory tells of a skill whose definition is not injected.
#[derive(Debug)]
pub struct SkillSummary {
    pub name: String,
    pub description: String,
    pub tags: Vec<String>,
    pub availability: Availability,
}

#[verifier::ext_equal]
pub struct SkillSummaryModel {
    pub name: Text,
    pub description: Text,
    pub tags: Seq<Text>,
    pub availability: AvailabilityModel,
}

impl View for SkillSummary {
    type V = SkillSummaryModel;

    open spec fn view(&self) -> SkillSummaryModel {
        SkillSummaryModel {
            name: self.name@,
            description: self.description@,
            tags: self.tags.deep_view(),
            availability: self.availability@,
        }
    }
}

impl DeepView for SkillSummary {
    type V = SkillSummaryModel;

    open spec fn deep_view(&self) -> SkillSummaryModel {
        self@
    }
}

impl Dup for SkillSummary {
    fn dup(&self) -> (r: Self) {
        SkillSummary {
            name: self.name.dup(),
            description: self.description.dup(),
            tags: self.tags.dup(),
            availability: self.availability.dup(),
        }
    }
}

/// The answer to a load request.
#[derive(Debug)]
pub struct LoadResult {
    pub request: LoadSkills,
    pub success: bool,
    pub selected: Vec<String>,
    pub message: String,
}

#[verifier::ext_equal]
pub struct LoadResultModel {
    pub request: LoadSkillsModel,
    pub success: bool,
    pub selected: Seq<Text>,
    pub message: Text,
}

impl View for LoadResult {
    type V = LoadResultModel;

    open spec fn view(&self) -> LoadResultModel {
        LoadResultModel {
            request: self.request@,
            success: self.success,
            selected: self.selected.deep_view(),
            message: self.message@,
        }
    }
}

impl DeepView for LoadResult {
    type V = LoadResultModel;

    open spec fn deep_view(&self) -> LoadResultModel {
        self@
    }
}

impl Dup for LoadResult {
    fn dup(&self) -> (r: Self) {
        LoadResult {
            request: self.request.dup(),
            success: self.success,
            selected: self.selected.dup(),
            message: self.message.dup(),
        }
    }
}

/// What an agent sees. The directory holds only skills whose definition is not injected.
#[derive(Debug)]
pub struct SkillView {
    pub guidance: String,
    pub failure: Option<ExecutionFailure>,
    pub execution: Option<ExecutionProgress>,
    pub max_actions: usize,
    /// Definitions selected for planning, including currently unavailable skills.
    pub catalog: Vec<Skill>,
    pub batch: Option<BatchProgress>,
    pub max_repeat: u32,
    pub discovery_enabled: bool,
    pub directory: Vec<SkillSummary>,
    pub loaded: Vec<Skill>,
    pub last_load: Option<LoadResult>,
}

#[verifier::ext_equal]
pub struct SkillViewModel {
    pub guidance: Text,
    pub failure: Option<ExecutionFailureModel>,
    pub execution: Option<ExecutionProgressModel>,
    pub max_actions: usize,
    pub catalog: Seq<SkillModel>,
    pub batch: Option<BatchProgressModel>,
    pub max_repeat: u32,
    pub discovery_enabled: bool,
    pub directory: Seq<SkillSummaryModel>,
    pub loaded: Seq<SkillModel>,
    pub last_load: Option<LoadResultModel>,
}

impl View for SkillView {
    type V = SkillViewModel;

    open spec fn view(&self) -> SkillViewModel {
        SkillViewModel {
            guidance: self.guidance@,
            failure: self.failure.deep_view(),
            execution: self.execution.deep_view(),
            max_actions: self.max_actions,
            catalog: self.catalog.deep_view(),
            batch: self.batch.deep_view(),
            max_repeat: self.max_repeat,
            discovery_enabled: self.discovery_enabled,
            directory: self.directory.deep_view(),
            loaded: self.loaded.deep_view(),
            last_load: self.last_load.deep_view(),
        }
    }
}

impl DeepView for SkillView {
    type V = SkillViewModel;

    open spec fn deep_view(&self) -> SkillViewModel {
        self@
    }
}

impl Dup for SkillView {
    fn dup(&self) -> (r: Self) {
        SkillView {
            guidance: self.guidance.dup(),
            failure: self.failure.dup(),
            execution: self.execution.dup(),
            max_actions: self.max_actions,
            catalog: self.catalog.dup(),
            batch: self.batch.dup(),
            max_repeat: self.max_repeat,
            discovery_enabled: self.discovery_enabled,
            directory: self.directory.dup(),
            loaded: self.loaded.dup(),
            last_load: self.last_load.dup(),
        }
    }
}

impl Default for SkillMode {
    fn default() -> (r: Self)
        ensures
            r == SkillMode::All,
    {
        SkillMode::All
    }
}

/// Whether the definition of a skill may be seen.
pub open spec fn exposed(skill: SkillModel, mode: SkillMode, selected: Seq<Text>) -> bool {
    mode == SkillMode::All || selected.contains(skill.name)
}

/// Whether a skill is injected: it can be used now, and its definition may be seen.
pub open spec fn injected(skill: SkillModel, mode: SkillMode, selected: Seq<Text>) -> bool {
    skill.availability is Available && exposed(skill, mode, selected)
}

/// What the directory tells of a skill.
pub open spec fn summary_of(skill: SkillModel) -> SkillSummaryModel {
    SkillSummaryModel {
        name: skill.name,
        description: skill.description,
        tags: skill.tags,
        availability: skill.availability,
    }
}

/// The injected skills, in order.
pub open spec fn loaded_skills(
    skills: Seq<SkillModel>,
    mode: SkillMode,
    selected: Seq<Text>,
) -> Seq<SkillModel>
    decreases skills.len(),
{
    if skills.len() == 0 {
        Seq::empty()
    } else {
        let init = loaded_skills(skills.drop_last(), mode, selected);
        if injected(skills.last(), mode, selected) {
            init.push(skills.last())
        } else {
            init
        }
    }
}

/// The skills that are not injected, in order.
pub open spec fn directory_of(
    skills: Seq<SkillModel>,
    mode: SkillMode,
    selected: Seq<Text>,
) -> Seq<SkillSummaryModel>
    decreases skills.len(),
{
    if skills.len() == 0 {
        Seq::empty()
    } else {
        let init = directory_of(skills.drop_last(), mode, selected);
        if injected(skills.last(), mode, selected) {
            init
        } else {
            init.push(summary_of(skills.last()))
        }
    }
}

/// The skills whose definition may be seen, in order.
pub open spec fn catalog_of(
    skills: Seq<SkillModel>,
    mode: SkillMode,
    selected: Seq<Text>,
) -> Seq<SkillModel>
    decreases skills.len(),
{
    if skills.len() == 0 {
        Seq::empty()
    } else {
        let init = catalog_of(skills.drop_last(), mode, selected);
        if exposed(skills.last(), mode, selected) {
            init.push(skills.last())
        } else {
            init
        }
    }
}

/// No name is blank, and none occurs twice.
pub open spec fn names_sound(skills: Seq<SkillModel>) -> bool {
    &&& forall|i: int| 0 <= i < skills.len() ==> !text::blank((#[trigger] skills[i]).name)
    &&& forall|i: int, j: int|
        0 <= i < j < skills.len() ==> (#[trigger] skills[i]).name != (#[trigger] skills[j]).name
}

/// What an agent sees of the skills before a run adds its own state.
pub open spec fn skill_view(
    skills: Seq<SkillModel>,
    mode: SkillMode,
    selected: Seq<Text>,
    last_load: Option<LoadResultModel>,
) -> SkillViewModel {
    SkillViewModel {
        guidance: Seq::empty(),
        failure: None,
        execution: None,
        max_actions: 4,
        catalog: catalog_of(skills, mode, selected),
        batch: None,
        max_repeat: MAX_REPEAT,
        discovery_enabled: mode == SkillMode::OnDemand,
        directory: directory_of(skills, mode, selected),
        loaded: loaded_skills(skills, mode, selected),
        last_load,
    }
}

/// Sorts the skills into those that are injected and those that the directory names.
pub fn view(
    skills: &Vec<Skill>,
    mode: SkillMode,
    selected: &Vec<String>,
    last_load: Option<LoadResult>,
) -> (r: Result<SkillView, Error>)
    ensures
        match r {
            Ok(view) => names_sound(skills.deep_view()) && view@ == skill_view(
                skills.deep_view(),
                mode,
                selected.deep_view(),
                last_load.deep_view(),
            ),
            Err(error) => !names_sound(skills.deep_view()) && error@ == ErrorModel::Invalid(
                "skill names must be nonempty and unique"@,
            ),
        },
{
    let ghost all = skills.deep_view();
    let mut directory: Vec<SkillSummary> = Vec::new();
    let mut loaded: Vec<Skill> = Vec::new();
    let mut catalog: Vec<Skill> = Vec::new();
    let mut i: usize = 0;
    assert(all.take(0) =~= Seq::empty());
    while i < skills.len()
        invariant
            i <= skills@.len(),
            all == skills.deep_view(),
            names_sound(all.take(i as int)),
            loaded.deep_view() == loaded_skills(all.take(i as int), mode, selected.deep_view()),
            directory.deep_view() == directory_of(all.take(i as int), mode, selected.deep_view()),
            catalog.deep_view() == catalog_of(all.take(i as int), mode, selected.deep_view()),
        decreases skills@.len() - i,
    {
        let skill: &Skill = &skills[i];
        let ghost head = all.take(i as int);
        assert(all[i as int] == skill@);
        if text::is_blank(skill.name.as_str()) {
            return Err(Error::Invalid("skill names must be nonempty and unique".to_owned()));
        }
        let mut k: usize = 0;
        while k < i
            invariant
                k <= i < skills@.len(),
                all == skills.deep_view(),
                skill == &skills@[i as int],
                forall|j: int| 0 <= j < k ==> (#[trigger] all[j]).name != skill@.name,
            decreases i - k,
        {
            assert(all[k as int] == skills@[k as int]@);
            if skills[k].name == skill.name {
                assert(all[k as int].name == all[i as int].name);
                return Err(Error::Invalid("skill names must be nonempty and unique".to_owned()));
            }
            k += 1;
        }
        assert(all.take(i + 1).drop_last() =~= head);
        assert(all.take(i + 1).last() == skill@);
        let seen: bool = mode == SkillMode::All || text::holds(selected, skill.name.as_str());
        if skill.availability.is_available() && seen {
            loaded.push(skill.dup());
            assert(loaded.deep_view() =~= loaded_skills(head, mode, selected.deep_view()).push(skill@));
        } else {
            directory.push(
                SkillSummary {
                    name: skill.name.dup(),
                    description: skill.description.dup(),
                    tags: skill.tags.dup(),
                    availability: skill.availability.dup(),
                },
            );
            assert(directory.deep_view() =~= directory_of(head, mode, selected.deep_view()).push(
                summary_of(skill@),
            ));
        }
        if seen {
            catalog.push(skill.dup());
            assert(catalog.deep_view() =~= catalog_of(head, mode, selected.deep_view()).push(skill@));
        }
        assert forall|a: int, b: int| 0 <= a < b < i + 1 implies (#[trigger] all.take(
            i + 1,
        )[a]).name != (#[trigger] all.take(i + 1)[b]).name by {
            if b < i {
                assert(head[a].name != head[b].name);
            } else {
                assert(all[a].name != skill@.name);
            }
        }
        assert forall|a: int| 0 <= a < i + 1 implies !text::blank(
            (#[trigger] all.take(i + 1)[a]).name,
        ) by {
            if a < i {
                assert(!text::blank(head[a].name));
            }
        }
        i += 1;
    }
    assert(all.take(all.len() as int) =~= all);
    Ok(
        SkillView {
            guidance: String::new(),
            failure: None,
            execution: None,
            max_actions: 4,
            catalog,
            batch: None,
            max_repeat: MAX_REPEAT,
            discovery_enabled: mode == SkillMode::OnDemand,
            directory,
            loaded,
            last_load,
        },
    )
}

/// Every skill is either injected or named by the directory, and what is injected can be used.
pub proof fn view_partitions_skills(
    skills: Seq<SkillModel>,
    mode: SkillMode,
    selected: Seq<Text>,
)
    ensures
        loaded_skills(skills, mode, selected).len() + directory_of(skills, mode, selected).len()
            == skills.len(),
        forall|i: int|
            0 <= i < skills.len() ==> if injected(#[trigger] skills[i], mode, selected) {
                loaded_skills(skills, mode, selected).contains(skills[i])
            } else {
                directory_of(skills, mode, selected).contains(summary_of(skills[i]))
            },
        forall|s: SkillModel| #[trigger]
            loaded_skills(skills, mode, selected).contains(s) ==> skills.contains(s) && injected(
                s,
                mode,
                selected,
            ) && catalog_of(skills, mode, selected).contains(s),
    decreases skills.len(),
{
    if skills.len() > 0 {
        let init = skills.drop_last();
        let last = skills.last();
        view_partitions_skills(init, mode, selected);
        let (l, d, c) = (
            loaded_skills(init, mode, selected),
            directory_of(init, mode, selected),
            catalog_of(init, mode, selected),
        );
        assert forall|i: int| 0 <= i < skills.len() implies if injected(
            #[trigger] skills[i],
            mode,
            selected,
        ) {
            loaded_skills(skills, mode, selected).contains(skills[i])
        } else {
            directory_of(skills, mode, selected).contains(summary_of(skills[i]))
        } by {
            if i < init.len() {
                assert(init[i] == skills[i]);
                if injected(skills[i], mode, selected) {
                    let k = l.index_of(skills[i]);
                    assert(loaded_skills(skills, mode, selected)[k] == skills[i]);
                } else {
                    let k = d.index_of(summary_of(skills[i]));
                    assert(directory_of(skills, mode, selected)[k] == summary_of(skills[i]));
                }
            } else {
                if injected(last, mode, selected) {
                    assert(loaded_skills(skills, mode, selected).last() == last);
                } else {
                    assert(directory_of(skills, mode, selected).last() == summary_of(last));
                }
            }
        }
        assert forall|s: SkillModel| #[trigger]
            loaded_skills(skills, mode, selected).contains(s) implies skills.contains(s) && injected(
            s,
            mode,
            selected,
        ) && catalog_of(skills, mode, selected).contains(s) by {
            let k = loaded_skills(skills, mode, selected).index_of(s);
            if k < l.len() {
                assert(l[k] == s);
                assert(l.contains(s));
                assert(skills[init.index_of(s)] == s);
                assert(catalog_of(skills, mode, selected)[c.index_of(s)] == s);
            } else {
                assert(skills[skills.len() - 1] == s);
                assert(catalog_of(skills, mode, selected).last() == s);
            }
        }
    }
}

/// Whether a skill of that name exists.
pub open spec fn name_known(skills: Seq<SkillModel>, name: Text) -> bool {
    exists|i: int| 0 <= i < skills.len() && (#[trigger] skills[i]).name == name
}

/// Whether a skill with that tag exists.
pub open spec fn tag_known(skills: Seq<SkillModel>, tag: Text) -> bool {
    exists|i: int| 0 <= i < skills.len() && (#[trigger] skills[i]).tags.contains(tag)
}

/// The first name that no skill has.
pub open spec fn unknown_name(skills: Seq<SkillModel>, names: Seq<Text>) -> Option<Text>
    decreases names.len(),
{
    if names.len() == 0 {
        None
    } else if !name_known(skills, names[0]) {
        Some(names[0])
    } else {
        unknown_name(skills, names.skip(1))
    }
}

/// The first tag that no skill has.
pub open spec fn unknown_tag(skills: Seq<SkillModel>, tags: Seq<Text>) -> Option<Text>
    decreases tags.len(),
{
    if tags.len() == 0 {
        None
    } else if !tag_known(skills, tags[0]) {
        Some(tags[0])
    } else {
        unknown_tag(skills, tags.skip(1))
    }
}

/// Whether a request asks for a skill, by its name or by one of its tags.
pub open spec fn requested(request: LoadSkillsModel, skill: SkillModel) -> bool {
    request.names.contains(skill.name) || exists|i: int|
        0 <= i < request.tags.len() && skill.tags.contains(#[trigger] request.tags[i])
}

/// The names of the skills that a request asks for, ordered.
pub open spec fn requested_names(request: LoadSkillsModel, skills: Seq<SkillModel>) -> Seq<Text>
    decreases skills.len(),
{
    if skills.len() == 0 {
        Seq::empty()
    } else {
        let init = requested_names(request, skills.drop_last());
        if requested(request, skills.last()) {
            text::placed(init, skills.last().name)
        } else {
            init
        }
    }
}

/// The selection that a request makes, or why it makes none.
pub open spec fn selection(request: LoadSkillsModel, skills: Seq<SkillModel>) -> Result<
    Seq<Text>,
    Text,
> {
    if request.names.len() == 0 && request.tags.len() == 0 {
        Err("specify at least one skill name or tag"@)
    } else if unknown_name(skills, request.names) is Some {
        Err("unknown skill name: "@ + unknown_name(skills, request.names)->0)
    } else if unknown_tag(skills, request.tags) is Some {
        Err("unknown skill tag: "@ + unknown_tag(skills, request.tags)->0)
    } else {
        Ok(requested_names(request, skills))
    }
}

fn has_name(skills: &Vec<Skill>, name: &str) -> (r: bool)
    ensures
        r == name_known(skills.deep_view(), name@),
{
    let ghost all = skills.deep_view();
    let mut i: usize = 0;
    while i < skills.len()
        invariant
            i <= skills@.len(),
            all == skills.deep_view(),
            forall|j: int| 0 <= j < i ==> (#[trigger] all[j]).name != name@,
        decreases skills@.len() - i,
    {
        assert(all[i as int] == skills@[i as int]@);
        if text::same(skills[i].name.as_str(), name) {
            return true;
        }
        i += 1;
    }
    false
}

fn has_tag(skills: &Vec<Skill>, tag: &str) -> (r: bool)
    ensures
        r == tag_known(skills.deep_view(), tag@),
{
    let ghost all = skills.deep_view();
    let mut i: usize = 0;
    while i < skills.len()
        invariant
            i <= skills@.len(),
            all == skills.deep_view(),
            forall|j: int| 0 <= j < i ==> !(#[trigger] all[j]).tags.contains(tag@),
        decreases skills@.len() - i,
    {
        assert(all[i as int] == skills@[i as int]@);
        if text::holds(&skills[i].tags, tag) {
            return true;
        }
        i += 1;
    }
    false
}

fn find_unknown_name<'a>(skills: &Vec<Skill>, names: &'a Vec<String>) -> (r: Option<&'a String>)
    ensures
        match r {
            Some(name) => unknown_name(skills.deep_view(), names.deep_view()) == Some(name@),
            None => unknown_name(skills.deep_view(), names.deep_view()) is None,
        },
{
    let ghost known = skills.deep_view();
    let ghost all = names.deep_view();
    let mut i: usize = 0;
    assert(all.skip(0) =~= all);
    while i < names.len()
        invariant
            i <= names@.len(),
            all == names.deep_view(),
            known == skills.deep_view(),
            unknown_name(known, all) == unknown_name(known, all.skip(i as int)),
        decreases names@.len() - i,
    {
        assert(all.skip(i as int)[0] == names@[i as int]@);
        assert(all.skip(i as int).skip(1) =~= all.skip(i + 1));
        if !has_name(skills, names[i].as_str()) {
            return Some(&names[i]);
        }
        i += 1;
    }
    None
}

fn find_unknown_tag<'a>(skills: &Vec<Skill>, tags: &'a Vec<String>) -> (r: Option<&'a String>)
    ensures
        match r {
            Some(tag) => unknown_tag(skills.deep_view(), tags.deep_view()) == Some(tag@),
            None => unknown_tag(skills.deep_view(), tags.deep_view()) is None,
        },
{
    let ghost known = skills.deep_view();
    let ghost all = tags.deep_view();
    let mut i: usize = 0;
    assert(all.skip(0) =~= all);
    while i < tags.len()
        invariant
            i <= tags@.len(),
            all == tags.deep_view(),
            known == skills.deep_view(),
            unknown_tag(known, all) == unknown_tag(known, all.skip(i as int)),
        decreases tags@.len() - i,
    {
        assert(all.skip(i as int)[0] == tags@[i as int]@);
        assert(all.skip(i as int).skip(1) =~= all.skip(i + 1));
        if !has_tag(skills, tags[i].as_str()) {
            return Some(&tags[i]);
        }
        i += 1;
    }
    None
}

fn is_requested(request: &LoadSkills, skill: &Skill) -> (r: bool)
    ensures
        r == requested(request@, skill@),
{
    if text::holds(&request.names, skill.name.as_str()) {
        return true;
    }
    let ghost tags = request.tags.deep_view();
    let mut i: usize = 0;
    while i < request.tags.len()
        invariant
            i <= request.tags@.len(),
            tags == request.tags.deep_view(),
            forall|j: int| 0 <= j < i ==> !skill@.tags.contains(#[trigger] tags[j]),
        decreases request.tags@.len() - i,
    {
        assert(tags[i as int] == request.tags@[i as int]@);
        if text::holds(&skill.tags, request.tags[i].as_str()) {
            assert(skill@.tags.contains(request@.tags[i as int]));
            return true;
        }
        i += 1;
    }
    false
}

/// The ordered names of the skills that a request asks for. A request that asks for nothing,
/// or for a name or a tag that no skill has, is refused.
pub fn select(request: &LoadSkills, skills: &Vec<Skill>) -> (r: Result<Vec<String>, String>)
    ensures
        match r {
            Ok(names) => selection(request@, skills.deep_view()) == Ok::<Seq<Text>, Text>(
                names.deep_view(),
            ),
            Err(message) => selection(request@, skills.deep_view()) == Err::<Seq<Text>, Text>(
                message@,
            ),
        },
{
    if request.names.len() == 0 && request.tags.len() == 0 {
        return Err("specify at least one skill name or tag".to_owned());
    }
    if let Some(name) = find_unknown_name(skills, &request.names) {
        return Err(text::cat2("unknown skill name: ", name.as_str()));
    }
    if let Some(tag) = find_unknown_tag(skills, &request.tags) {
        return Err(text::cat2("unknown skill tag: ", tag.as_str()));
    }
    let ghost all = skills.deep_view();
    let mut names: Vec<String> = Vec::new();
    let mut i: usize = 0;
    assert(all.take(0) =~= Seq::empty());
    while i < skills.len()
        invariant
            i <= skills@.len(),
            all == skills.deep_view(),
            names.deep_view() == requested_names(request@, all.take(i as int)),
        decreases skills@.len() - i,
    {
        assert(all.take(i + 1).drop_last() =~= all.take(i as int));
        assert(all.take(i + 1).last() == skills@[i as int]@);
        if is_requested(request, &skills[i]) {
            text::place(&mut names, skills[i].name.dup());
        }
        i += 1;
    }
    assert(all.take(all.len() as int) =~= all);
    Ok(names)
}

/// A selection is ordered, and holds exactly the names of the skills that were asked for.
pub proof fn selection_is_what_was_asked_for(request: LoadSkillsModel, skills: Seq<SkillModel>)
    ensures
        text::ordered(requested_names(request, skills)),
        forall|name: Text| #[trigger]
            requested_names(request, skills).contains(name) <==> exists|i: int|
                0 <= i < skills.len() && (#[trigger] skills[i]).name == name && requested(
                    request,
                    skills[i],
                ),
    decreases skills.len(),
{
    if skills.len() > 0 {
        let init = skills.drop_last();
        let last = skills.last();
        selection_is_what_was_asked_for(request, init);
        let names = requested_names(request, init);
        text::placed_is_ordered_insertion(names, last.name);
        assert forall|name: Text| #[trigger]
            requested_names(request, skills).contains(name) <==> exists|i: int|
                0 <= i < skills.len() && (#[trigger] skills[i]).name == name && requested(
                    request,
                    skills[i],
                ) by {
            if names.contains(name) {
                let i = choose|i: int|
                    0 <= i < init.len() && (#[trigger] init[i]).name == name && requested(
                        request,
                        init[i],
                    );
                assert(skills[i].name == name && requested(request, skills[i]));
            }
            if requested(request, last) && name == last.name {
                assert(skills[skills.len() - 1].name == name);
            }
            if exists|i: int|
                0 <= i < skills.len() && (#[trigger] skills[i]).name == name && requested(
                    request,
                    skills[i],
                ) {
                let i = choose|i: int|
                    0 <= i < skills.len() && (#[trigger] skills[i]).name == name && requested(
                        request,
                        skills[i],
                    );
                if i < init.len() {
                    assert(init[i].name == name && requested(request, init[i]));
                    assert(names.contains(name));
                }
            }
        }
    }
}

proof fn lemma_unknown_name(skills: Seq<SkillModel>, names: Seq<Text>)
    ensures
        unknown_name(skills, names) is None <==> forall|k: int|
            0 <= k < names.len() ==> exists|i: int|
                0 <= i < skills.len() && (#[trigger] skills[i]).name == #[trigger] names[k],
    decreases names.len(),
{
    if names.len() > 0 {
        let rest = names.skip(1);
        lemma_unknown_name(skills, rest);
        if unknown_name(skills, names) is None {
            assert forall|k: int| 0 <= k < names.len() implies exists|i: int|
                0 <= i < skills.len() && (#[trigger] skills[i]).name == #[trigger] names[k] by {
                if k > 0 {
                    assert(rest[k - 1] == names[k]);
                } else {
                    assert(name_known(skills, names[0]));
                }
            }
        }
        if forall|k: int|
            0 <= k < names.len() ==> exists|i: int|
                0 <= i < skills.len() && (#[trigger] skills[i]).name == #[trigger] names[k] {
            let i = choose|i: int| 0 <= i < skills.len() && (#[trigger] skills[i]).name == names[0];
            assert(name_known(skills, names[0]));
            assert forall|k: int| 0 <= k < rest.len() implies exists|i: int|
                0 <= i < skills.len() && (#[trigger] skills[i]).name == #[trigger] rest[k] by {
                assert(rest[k] == names[k + 1]);
            }
        }
    }
}

proof fn lemma_unknown_tag(skills: Seq<SkillModel>, tags: Seq<Text>)
    ensures
        unknown_tag(skills, tags) is None <==> forall|k: int|
            0 <= k < tags.len() ==> exists|i: int|
                0 <= i < skills.len() && (#[trigger] skills[i]).tags.contains(#[trigger] tags[k]),
    decreases tags.len(),
{
    if tags.len() > 0 {
        let rest = tags.skip(1);
        lemma_unknown_tag(skills, rest);
        if unknown_tag(skills, tags) is None {
            assert forall|k: int| 0 <= k < tags.len() implies exists|i: int|
                0 <= i < skills.len() && (#[trigger] skills[i]).tags.contains(
                    #[trigger] tags[k],
                ) by {
                if k > 0 {
                    assert(rest[k - 1] == tags[k]);
                } else {
                    assert(tag_known(skills, tags[0]));
                }
            }
        }
        if forall|k: int|
            0 <= k < tags.len() ==> exists|i: int|
                0 <= i < skills.len() && (#[trigger] skills[i]).tags.contains(#[trigger] tags[k]) {
            let i = choose|i: int|
                0 <= i < skills.len() && (#[trigger] skills[i]).tags.contains(tags[0]);
            assert(tag_known(skills, tags[0]));
            assert forall|k: int| 0 <= k < rest.len() implies exists|i: int|
                0 <= i < skills.len() && (#[trigger] skills[i]).tags.contains(
                    #[trigger] rest[k],
                ) by {
                assert(rest[k] == tags[k + 1]);
            }
        }
    }
}

/// A request is served exactly if it asks for something and every name and every tag that it asks
/// for is that of some skill.
pub proof fn requests_for_known_skills_are_served(
    request: LoadSkillsModel,
    skills: Seq<SkillModel>,
)
    ensures
        selection(request, skills) is Ok <==> {
            &&& request.names.len() > 0 || request.tags.len() > 0
            &&& forall|k: int|
                0 <= k < request.names.len() ==> exists|i: int|
                    0 <= i < skills.len() && (#[trigger] skills[i]).name
                        == #[trigger] request.names[k]
            &&& forall|k: int|
                0 <= k < request.tags.len() ==> exists|i: int|
                    0 <= i < skills.len() && (#[trigger] skills[i]).tags.contains(
                        #[trigger] request.tags[k],
                    )
        },
{
    lemma_unknown_name(skills, request.names);
    lemma_unknown_tag(skills, request.tags);
}

/// Names and tags are combined with or: a selection holds the name of every skill that was asked
/// for by its name or that has one of the tags that were asked for, and no other name, in order.
pub proof fn names_and_tags_are_combined_with_or(
    request: LoadSkillsModel,
    skills: Seq<SkillModel>,
)
    requires
        selection(request, skills) is Ok,
    ensures
        ({
            let selected = selection(request, skills)->Ok_0;
            &&& forall|i: int|
                0 <= i < skills.len() && request.names.contains((#[trigger] skills[i]).name)
                    ==> selected.contains(skills[i].name)
            &&& forall|i: int, tag: Text|
                0 <= i < skills.len() && (#[trigger] skills[i]).tags.contains(tag)
                    && #[trigger] request.tags.contains(tag) ==> selected.contains(skills[i].name)
            &&& forall|name: Text| #[trigger]
                selected.contains(name) ==> exists|i: int|
                    {
                        &&& 0 <= i < skills.len()
                        &&& (#[trigger] skills[i]).name == name
                        &&& request.names.contains(name) || exists|tag: Text|
                            request.tags.contains(tag) && #[trigger] skills[i].tags.contains(tag)
                    }
            &&& text::ordered(selected)
        }),
{
    let selected = selection(request, skills)->Ok_0;
    selection_is_what_was_asked_for(request, skills);
    assert forall|i: int, tag: Text|
        0 <= i < skills.len() && (#[trigger] skills[i]).tags.contains(tag)
            && #[trigger] request.tags.contains(tag) implies selected.contains(skills[i].name) by {
        let k = choose|k: int| 0 <= k < request.tags.len() && request.tags[k] == tag;
        assert(skills[i].tags.contains(request.tags[k]));
        assert(requested(request, skills[i]));
    }
    assert forall|i: int|
        0 <= i < skills.len() && request.names.contains(
            (#[trigger] skills[i]).name,
        ) implies selected.contains(skills[i].name) by {
        assert(requested(request, skills[i]));
    }
    assert forall|name: Text| #[trigger] selected.contains(name) implies exists|i: int|
        {
            &&& 0 <= i < skills.len()
            &&& (#[trigger] skills[i]).name == name
            &&& request.names.contains(name) || exists|tag: Text|
                request.tags.contains(tag) && #[trigger] skills[i].tags.contains(tag)
        } by {
        let i = choose|i: int|
            0 <= i < skills.len() && (#[trigger] skills[i]).name == name && requested(
                request,
                skills[i],
            );
        if !request.names.contains(name) {
            let k = choose|k: int|
                0 <= k < request.tags.len() && skills[i].tags.contains(#[trigger] request.tags[k]);
            assert(request.tags.contains(request.tags[k]));
        }
        assert(skills[i].name == name);
    }
}

/// Asking for more tags, or for more names, adds to a selection what they select alone.
pub proof fn selections_add_up(
    first: LoadSkillsModel,
    second: LoadSkillsModel,
    skills: Seq<SkillModel>,
    name: Text,
)
    requires
        selection(first, skills) is Ok,
        selection(second, skills) is Ok,
    ensures
        ({
            let both = LoadSkillsModel {
                names: first.names + second.names,
                tags: first.tags + second.tags,
            };
            &&& selection(both, skills) is Ok
            &&& selection(both, skills)->Ok_0.contains(name) <==> selection(
                first,
                skills,
            )->Ok_0.contains(name) || selection(second, skills)->Ok_0.contains(name)
        }),
{
    let both = LoadSkillsModel {
        names: first.names + second.names,
        tags: first.tags + second.tags,
    };
    let n = first.names.len() as int;
    let m = first.tags.len() as int;
    requests_for_known_skills_are_served(first, skills);
    requests_for_known_skills_are_served(second, skills);
    assert forall|k: int| 0 <= k < both.names.len() implies exists|i: int|
        0 <= i < skills.len() && (#[trigger] skills[i]).name == #[trigger] both.names[k] by {
        if k < n {
            assert(both.names[k] == first.names[k]);
        } else {
            assert(both.names[k] == second.names[k - n]);
        }
    }
    assert forall|k: int| 0 <= k < both.tags.len() implies exists|i: int|
        0 <= i < skills.len() && (#[trigger] skills[i]).tags.contains(#[trigger] both.tags[k]) by {
        if k < m {
            assert(both.tags[k] == first.tags[k]);
        } else {
            assert(both.tags[k] == second.tags[k - m]);
        }
    }
    requests_for_known_skills_are_served(both, skills);
    assert forall|t: Text| #[trigger] both.names.contains(t) == (first.names.contains(t)
        || second.names.contains(t)) by {
        lemma_concat_contains(first.names, second.names, t);
    }
    assert forall|t: Text| #[trigger] both.tags.contains(t) == (first.tags.contains(t)
        || second.tags.contains(t)) by {
        lemma_concat_contains(first.tags, second.tags, t);
    }
    names_and_tags_are_combined_with_or(both, skills);
    names_and_tags_are_combined_with_or(first, skills);
    names_and_tags_are_combined_with_or(second, skills);
    if selection(both, skills)->Ok_0.contains(name) {
        let i = choose|i: int|
            {
                &&& 0 <= i < skills.len()
                &&& (#[trigger] skills[i]).name == name
                &&& both.names.contains(name) || exists|tag: Text|
                    both.tags.contains(tag) && #[trigger] skills[i].tags.contains(tag)
            };
        if !both.names.contains(name) {
            let tag = choose|tag: Text|
                both.tags.contains(tag) && #[trigger] skills[i].tags.contains(tag);
            assert(first.tags.contains(tag) || second.tags.contains(tag));
        }
    }
    if selection(first, skills)->Ok_0.contains(name) {
        let i = choose|i: int|
            {
                &&& 0 <= i < skills.len()
                &&& (#[trigger] skills[i]).name == name
                &&& first.names.contains(name) || exists|tag: Text|
                    first.tags.contains(tag) && #[trigger] skills[i].tags.contains(tag)
            };
        if !first.names.contains(name) {
            let tag = choose|tag: Text|
                first.tags.contains(tag) && #[trigger] skills[i].tags.contains(tag);
            assert(both.tags.contains(tag));
        } else {
            assert(both.names.contains(name));
        }
    }
    if selection(second, skills)->Ok_0.contains(name) {
        let i = choose|i: int|
            {
                &&& 0 <= i < skills.len()
                &&& (#[trigger] skills[i]).name == name
                &&& second.names.contains(name) || exists|tag: Text|
                    second.tags.contains(tag) && #[trigger] skills[i].tags.contains(tag)
            };
        if !second.names.contains(name) {
            let tag = choose|tag: Text|
                second.tags.contains(tag) && #[trigger] skills[i].tags.contains(tag);
            assert(both.tags.contains(tag));
        } else {
            assert(both.names.contains(name));
        }
    }
}

proof fn lemma_concat_contains(a: Seq<Text>, b: Seq<Text>, t: Text)
    ensures
        (a + b).contains(t) == (a.contains(t) || b.contains(t)),
{
    if a.contains(t) {
        let i = choose|i: int| 0 <= i < a.len() && a[i] == t;
        assert((a + b)[i] == t);
    }
    if b.contains(t) {
        let i = choose|i: int| 0 <= i < b.len() && b[i] == t;
        assert((a + b)[a.len() + i] == t);
    }
    if (a + b).contains(t) {
        let i = choose|i: int| 0 <= i < (a + b).len() && (a + b)[i] == t;
        if i < a.len() {
            assert(a[i] == t);
        } else {
            assert(b[i - a.len()] == t);
        }
    }
}

/// An agent is given every skill that can be used, in the adapter's order; where skills are
/// loaded on demand, only those among them that were selected. It finds the others in the
/// directory, with their name, description, tags and whether they can be used, and may know the
/// definition of every skill that was selected, whether it can be used or not.
pub proof fn views_show_every_skill(
    skills: Seq<SkillModel>,
    mode: SkillMode,
    selected: Seq<Text>,
    last_load: Option<LoadResultModel>,
)
    ensures
        ({
            let view = skill_view(skills, mode, selected, last_load);
            let chosen = |skill: SkillModel|
                mode == SkillMode::All || selected.contains(skill.name);
            let usable = |skill: SkillModel|
                skill.availability is Available && (mode == SkillMode::All || selected.contains(
                    skill.name,
                ));
            let others = |skill: SkillModel|
                !(skill.availability is Available && (mode == SkillMode::All || selected.contains(
                    skill.name,
                )));
            &&& view.loaded == skills.filter(usable)
            &&& view.catalog == skills.filter(chosen)
            &&& view.directory.len() == skills.filter(others).len()
            &&& forall|i: int|
                0 <= i < view.directory.len() ==> {
                    let skill = skills.filter(others)[i];
                    &&& (#[trigger] view.directory[i]).name == skill.name
                    &&& view.directory[i].description == skill.description
                    &&& view.directory[i].tags == skill.tags
                    &&& view.directory[i].availability == skill.availability
                }
            &&& view.discovery_enabled == (mode == SkillMode::OnDemand)
            &&& view.last_load == last_load
        }),
    decreases skills.len(),
{
    reveal(Seq::filter);
    if skills.len() > 0 {
        views_show_every_skill(skills.drop_last(), mode, selected, last_load);
    }
}

/// Skills are accepted exactly if every name has a character that is not white space and no two
/// names are the same.
pub proof fn names_are_there_and_unique(skills: Seq<SkillModel>)
    ensures
        names_sound(skills) <==> {
            &&& forall|i: int|
                0 <= i < skills.len() ==> exists|k: int|
                    0 <= k < (#[trigger] skills[i]).name.len() && !text::white(
                        #[trigger] skills[i].name[k],
                    )
            &&& forall|i: int, j: int|
                0 <= i < skills.len() && 0 <= j < skills.len() && (#[trigger] skills[i]).name == (
                #[trigger] skills[j]).name ==> i == j
        },
{
    if names_sound(skills) {
        assert forall|i: int| 0 <= i < skills.len() implies exists|k: int|
            0 <= k < (#[trigger] skills[i]).name.len() && !text::white(
                #[trigger] skills[i].name[k],
            ) by {
            assert(!text::blank(skills[i].name));
        }
        assert forall|i: int, j: int|
            0 <= i < skills.len() && 0 <= j < skills.len() && (#[trigger] skills[i]).name == (
            #[trigger] skills[j]).name implies i == j by {
            if i < j {
                assert(skills[i].name != skills[j].name);
            } else if j < i {
                assert(skills[j].name != skills[i].name);
            }
        }
    }
    if forall|i: int|
        0 <= i < skills.len() ==> exists|k: int|
            0 <= k < (#[trigger] skills[i]).name.len() && !text::white(
                #[trigger] skills[i].name[k],
            ) {
        assert forall|i: int| 0 <= i < skills.len() implies !text::blank(
            (#[trigger] skills[i]).name,
        ) by {
            let k = choose|k: int|
                0 <= k < skills[i].name.len() && !text::white(#[trigger] skills[i].name[k]);
            assert(!text::white(skills[i].name[k]));
        }
    }
}

} // verus!
