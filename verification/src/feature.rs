//! User-facing features and validated inputs, independent of model decisions.
use crate::api::{AdapterError, AdapterErrorModel};
use crate::copy::Dup;
use crate::json::{parsed, Json, JsonModel};
use crate::text;
use crate::text::Text;
use vstd::prelude::*;

verus! {

/// One option of an enumeration.
#[derive(Debug)]
pub struct Choice {
    pub value: String,
    pub label: String,
}

#[verifier::ext_equal]
pub struct ChoiceModel {
    pub value: Text,
    pub label: Text,
}

impl View for Choice {
    type V = ChoiceModel;

    open spec fn view(&self) -> ChoiceModel {
        ChoiceModel {
            value: self.value@,
            label: self.label@,
        }
    }
}

impl DeepView for Choice {
    type V = ChoiceModel;

    open spec fn deep_view(&self) -> ChoiceModel {
        self@
    }
}

impl Dup for Choice {
    fn dup(&self) -> (r: Self) {
        Choice {
            value: self.value.dup(),
            label: self.label.dup(),
        }
    }
}

/// What a parameter accepts.
#[derive(Debug)]
pub enum ParameterKind {
    String,
    Integer { min: i64, max: i64 },
    Boolean,
    Enum { choices: Vec<Choice> },
}

#[verifier::ext_equal]
pub enum ParameterKindModel {
    String,
    Integer { min: i64, max: i64 },
    Boolean,
    Enum { choices: Seq<ChoiceModel> },
}

impl View for ParameterKind {
    type V = ParameterKindModel;

    open spec fn view(&self) -> ParameterKindModel {
        match self {
            ParameterKind::String => ParameterKindModel::String,
            ParameterKind::Integer { min, max } => ParameterKindModel::Integer { min: *min, max: *max },
            ParameterKind::Boolean => ParameterKindModel::Boolean,
            ParameterKind::Enum { choices } => ParameterKindModel::Enum { choices: choices.deep_view() },
        }
    }
}

impl DeepView for ParameterKind {
    type V = ParameterKindModel;

    open spec fn deep_view(&self) -> ParameterKindModel {
        self@
    }
}

impl Dup for ParameterKind {
    fn dup(&self) -> (r: Self) {
        match self {
            ParameterKind::String => ParameterKind::String,
            ParameterKind::Integer { min, max } => ParameterKind::Integer { min: *min, max: *max },
            ParameterKind::Boolean => ParameterKind::Boolean,
            ParameterKind::Enum { choices } => ParameterKind::Enum { choices: choices.dup() },
        }
    }
}

/// A named input of a feature.
#[derive(Debug)]
pub struct Parameter {
    pub id: String,
    pub name: String,
    pub kind: ParameterKind,
    pub default: Option<Json>,
}

#[verifier::ext_equal]
pub struct ParameterModel {
    pub id: Text,
    pub name: Text,
    pub kind: ParameterKindModel,
    pub default: Option<JsonModel>,
}

impl View for Parameter {
    type V = ParameterModel;

    open spec fn view(&self) -> ParameterModel {
        ParameterModel {
            id: self.id@,
            name: self.name@,
            kind: self.kind@,
            default: self.default.deep_view(),
        }
    }
}

impl DeepView for Parameter {
    type V = ParameterModel;

    open spec fn deep_view(&self) -> ParameterModel {
        self@
    }
}

impl Dup for Parameter {
    fn dup(&self) -> (r: Self) {
        Parameter {
            id: self.id.dup(),
            name: self.name.dup(),
            kind: self.kind.dup(),
            default: self.default.dup(),
        }
    }
}

/// Something a user can ask for without a model.
#[derive(Debug)]
pub struct Feature {
    pub id: String,
    pub name: String,
    pub description: String,
    pub parameters: Vec<Parameter>,
}

#[verifier::ext_equal]
pub struct FeatureModel {
    pub id: Text,
    pub name: Text,
    pub description: Text,
    pub parameters: Seq<ParameterModel>,
}

impl View for Feature {
    type V = FeatureModel;

    open spec fn view(&self) -> FeatureModel {
        FeatureModel {
            id: self.id@,
            name: self.name@,
            description: self.description@,
            parameters: self.parameters.deep_view(),
        }
    }
}

impl DeepView for Feature {
    type V = FeatureModel;

    open spec fn deep_view(&self) -> FeatureModel {
        self@
    }
}

impl Dup for Feature {
    fn dup(&self) -> (r: Self) {
        Feature {
            id: self.id.dup(),
            name: self.name.dup(),
            description: self.description.dup(),
            parameters: self.parameters.dup(),
        }
    }
}

/// The 64-bit integer that a value is, if it is one.
pub open spec fn integer_of(value: JsonModel) -> Option<int> {
    match value {
        JsonModel::Unsigned(n) => if n <= i64::MAX {
            Some(n as int)
        } else {
            None
        },
        JsonModel::Negative(n) => Some(n as int),
        _ => None,
    }
}

/// Whether a choice of that value exists.
pub open spec fn has_choice(choices: Seq<ChoiceModel>, value: Text) -> bool {
    exists|i: int| 0 <= i < choices.len() && (#[trigger] choices[i]).value == value
}

impl ParameterKindModel {
    /// Whether a value is of this kind.
    pub open spec fn accepts(self, value: JsonModel) -> bool {
        match self {
            ParameterKindModel::String => value is Text,
            ParameterKindModel::Integer { min, max } => integer_of(value) matches Some(n) && min
                <= n <= max,
            ParameterKindModel::Boolean => value is Bool,
            ParameterKindModel::Enum { choices } => value matches JsonModel::Text(s)
                && has_choice(choices, s),
        }
    }

    /// Whether arguments of this kind are given as they are rather than as JSON.
    pub open spec fn textual(self) -> bool {
        self is String || self is Enum
    }
}

fn find_choice(choices: &Vec<Choice>, value: &str) -> (r: bool)
    ensures
        r == has_choice(choices.deep_view(), value@),
{
    let ghost all = choices.deep_view();
    let mut i: usize = 0;
    while i < choices.len()
        invariant
            i <= choices@.len(),
            all == choices.deep_view(),
            forall|j: int| 0 <= j < i ==> (#[trigger] all[j]).value != value@,
        decreases choices@.len() - i,
    {
        assert(all[i as int] == choices@[i as int]@);
        if text::same(choices[i].value.as_str(), value) {
            return true;
        }
        i += 1;
    }
    false
}

impl Parameter {
    /// Whether a value is of the parameter's kind.
    pub fn accepts(&self, value: &Json) -> (r: bool)
        ensures
            r == self@.kind.accepts(value@),
    {
        match &self.kind {
            ParameterKind::String => matches!(value, Json::Text(_)),
            ParameterKind::Integer { min, max } => match value {
                Json::Unsigned(n) => *n <= i64::MAX as u64 && *min <= *n as i64 && *n as i64 <= *max,
                Json::Negative(n) => *min <= *n && *n <= *max,
                _ => false,
            },
            ParameterKind::Boolean => matches!(value, Json::Bool(_)),
            ParameterKind::Enum { choices } => match value.as_text() {
                Some(s) => find_choice(choices, s),
                None => false,
            },
        }
    }
}

/// Choices that can be told apart: some, none empty, none twice.
pub open spec fn choices_sound(choices: Seq<ChoiceModel>) -> bool {
    &&& choices.len() > 0
    &&& forall|i: int| 0 <= i < choices.len() ==> (#[trigger] choices[i]).value.len() > 0
    &&& forall|i: int, j: int|
        0 <= i < j < choices.len() ==> (#[trigger] choices[i]).value != (
        #[trigger] choices[j]).value
}

/// Whether one of the first parameters has that id.
pub open spec fn id_taken(parameters: Seq<ParameterModel>, n: int, id: Text) -> bool {
    exists|i: int| 0 <= i < n && (#[trigger] parameters[i]).id == id
}

/// What is wrong with the parameter at an index, if anything is.
pub open spec fn parameter_flaw(parameters: Seq<ParameterModel>, i: int) -> Option<Text> {
    let parameter = parameters[i];
    if text::blank(parameter.id) || id_taken(parameters, i, parameter.id) {
        Some("duplicate or empty parameter"@)
    } else if parameter.kind matches ParameterKindModel::Integer { min, max } && min > max {
        Some("invalid integer range"@)
    } else if parameter.kind matches ParameterKindModel::Enum { choices } && !choices_sound(choices) {
        Some("invalid enum choices"@)
    } else if parameter.default matches Some(value) && !parameter.kind.accepts(value) {
        Some("invalid default"@)
    } else {
        None
    }
}

/// What is wrong with the first parameter, from an index on, with which something is wrong.
pub open spec fn parameters_flaw(parameters: Seq<ParameterModel>, i: int) -> Option<Text>
    decreases parameters.len() - i,
{
    if i >= parameters.len() {
        None
    } else {
        match parameter_flaw(parameters, i) {
            Some(flaw) => Some(flaw),
            None => parameters_flaw(parameters, i + 1),
        }
    }
}

impl FeatureModel {
    /// What is wrong with the feature itself, if anything is.
    pub open spec fn flaw(self) -> Option<Text> {
        if text::blank(self.id) || text::blank(self.name) {
            Some("empty id or name"@)
        } else {
            parameters_flaw(self.parameters, 0)
        }
    }

    /// The error that reports what is wrong with the feature.
    pub open spec fn flaw_error(self) -> Option<AdapterErrorModel> {
        match self.flaw() {
            Some(flaw) => Some(
                AdapterErrorModel::Invalid("feature "@ + self.id + ": "@ + flaw),
            ),
            None => None,
        }
    }

    /// A key that no parameter has.
    pub open spec fn unknown(self, key: Text) -> bool {
        !id_taken(self.parameters, self.parameters.len() as int, key)
    }

    /// The first key, in order, that no parameter has.
    pub open spec fn first_unknown(self, input: Map<Text, JsonModel>, key: Text) -> bool {
        &&& input.contains_key(key) && self.unknown(key)
        &&& forall|other: Text| #[trigger]
            input.contains_key(other) && self.unknown(other) ==> other == key || text::before(
                key,
                other,
            )
    }

    /// What resolving arguments gives.
    pub open spec fn resolution(self, input: JsonModel) -> Result<JsonModel, AdapterErrorModel> {
        if self.flaw_error() is Some {
            Err(self.flaw_error()->0)
        } else {
            match input {
                JsonModel::Object(given) => if exists|key: Text| self.first_unknown(given, key) {
                    Err(
                        AdapterErrorModel::Invalid(
                            "unknown parameter: "@ + choose|key: Text|
                                self.first_unknown(given, key),
                        ),
                    )
                } else {
                    match argument_flaw(given, self.parameters, 0) {
                        Some(flaw) => Err(AdapterErrorModel::Invalid(flaw)),
                        None => Ok(
                            JsonModel::Object(
                                resolved(given, self.parameters, self.parameters.len() as int),
                            ),
                        ),
                    }
                },
                _ => Err(AdapterErrorModel::Invalid("feature arguments must be an object"@)),
            }
        }
    }

    /// The object that command-line arguments write, or what is wrong with the first wrong one.
    pub open spec fn written(self, arguments: Seq<Text>) -> Result<Map<Text, JsonModel>, Text>
        decreases arguments.len(),
    {
        if arguments.len() == 0 {
            Ok(Map::empty())
        } else {
            match self.written(arguments.drop_last()) {
                Err(flaw) => Err(flaw),
                Ok(input) => self.written_one(input, arguments.last()),
            }
        }
    }

    /// The object with one more command-line argument.
    pub open spec fn written_one(self, input: Map<Text, JsonModel>, argument: Text) -> Result<
        Map<Text, JsonModel>,
        Text,
    > {
        match equals_sign(argument) {
            None => Err("expected key=value"@),
            Some(i) => {
                let key = argument.take(i);
                let raw = argument.skip(i + 1);
                match parameter_index(self.parameters, key, 0) {
                    None => Err("unknown parameter: "@ + key),
                    Some(p) => {
                        let value = if self.parameters[p].kind.textual() {
                            Some(JsonModel::Text(raw))
                        } else {
                            parsed(raw)
                        };
                        match value {
                            None => Err("invalid parameter: "@ + key),
                            Some(value) => if input.contains_key(key) {
                                Err("duplicate parameter: "@ + key)
                            } else {
                                Ok(input.insert(key, value))
                            },
                        }
                    },
                }
            },
        }
    }

    /// What parsing command-line arguments gives.
    pub open spec fn parsing(self, arguments: Seq<Text>) -> Result<JsonModel, AdapterErrorModel> {
        match self.written(arguments) {
            Err(flaw) => Err(AdapterErrorModel::Invalid(flaw)),
            Ok(input) => self.resolution(JsonModel::Object(input)),
        }
    }
}

/// The index of the first equals sign.
pub open spec fn equals_sign(s: Text) -> Option<int>
    decreases s.len(),
{
    if s.len() == 0 {
        None
    } else if s[0] == '=' {
        Some(0)
    } else {
        match equals_sign(s.skip(1)) {
            Some(i) => Some(i + 1),
            None => None,
        }
    }
}

/// The index, from one on, of the first parameter of an id.
pub open spec fn parameter_index(
    parameters: Seq<ParameterModel>,
    id: Text,
    i: int,
) -> Option<int>
    decreases parameters.len() - i,
{
    if i >= parameters.len() {
        None
    } else if parameters[i].id == id {
        Some(i)
    } else {
        parameter_index(parameters, id, i + 1)
    }
}

/// The value of a parameter: the one given, or its default.
pub open spec fn value_of(
    input: Map<Text, JsonModel>,
    parameter: ParameterModel,
) -> Option<JsonModel> {
    if input.contains_key(parameter.id) {
        Some(input[parameter.id])
    } else {
        parameter.default
    }
}

/// What is wrong with the argument of the first parameter, from an index on, that has a wrong one.
pub open spec fn argument_flaw(
    input: Map<Text, JsonModel>,
    parameters: Seq<ParameterModel>,
    i: int,
) -> Option<Text>
    decreases parameters.len() - i,
{
    if i >= parameters.len() {
        None
    } else {
        match value_of(input, parameters[i]) {
            None => Some("missing parameter: "@ + parameters[i].id),
            Some(value) => if !parameters[i].kind.accepts(value) {
                Some("invalid parameter: "@ + parameters[i].id)
            } else {
                argument_flaw(input, parameters, i + 1)
            },
        }
    }
}

/// The values of the first parameters by their ids.
pub open spec fn resolved(
    input: Map<Text, JsonModel>,
    parameters: Seq<ParameterModel>,
    n: int,
) -> Map<Text, JsonModel>
    decreases n,
{
    if n <= 0 {
        Map::empty()
    } else {
        resolved(input, parameters, n - 1).insert(
            parameters[n - 1].id,
            value_of(input, parameters[n - 1])->0,
        )
    }
}

fn invalid(id: &str, flaw: &str) -> (r: AdapterError)
    ensures
        r@ == AdapterErrorModel::Invalid("feature "@ + id@ + ": "@ + flaw@),
{
    let mut message: String = text::cat3("feature ", id, ": ");
    message.append(flaw);
    AdapterError::Invalid(message)
}

fn are_choices_sound(choices: &Vec<Choice>) -> (r: bool)
    ensures
        r == choices_sound(choices.deep_view()),
{
    let ghost all = choices.deep_view();
    let mut i: usize = 0;
    while i < choices.len()
        invariant
            i <= choices@.len(),
            all == choices.deep_view(),
            forall|j: int| 0 <= j < i ==> (#[trigger] all[j]).value.len() > 0,
            forall|j: int, k: int|
                0 <= j < k < i ==> (#[trigger] all[j]).value != (#[trigger] all[k]).value,
        decreases choices@.len() - i,
    {
        assert(all[i as int] == choices@[i as int]@);
        if choices[i].value.as_str().is_empty() {
            return false;
        }
        let mut k: usize = 0;
        while k < i
            invariant
                k <= i < choices@.len(),
                all == choices.deep_view(),
                forall|j: int| 0 <= j < k ==> (#[trigger] all[j]).value != all[i as int].value,
            decreases i - k,
        {
            assert(all[k as int] == choices@[k as int]@);
            assert(all[i as int] == choices@[i as int]@);
            if choices[k].value == choices[i].value {
                return false;
            }
            k += 1;
        }
        i += 1;
    }
    choices.len() > 0
}

impl Feature {
    fn find_parameter_flaw(&self, i: usize) -> (r: Option<&'static str>)
        requires
            i < self.parameters@.len(),
        ensures
            match r {
                Some(flaw) => parameter_flaw(self@.parameters, i as int) == Some(flaw@),
                None => parameter_flaw(self@.parameters, i as int) is None,
            },
    {
        let ghost all = self@.parameters;
        let parameter: &Parameter = &self.parameters[i];
        assert(all[i as int] == parameter@);
        if text::is_blank(parameter.id.as_str()) {
            return Some("duplicate or empty parameter");
        }
        let mut k: usize = 0;
        while k < i
            invariant
                k <= i < self.parameters@.len(),
                all == self@.parameters,
                parameter == &self.parameters@[i as int],
                all[i as int] == parameter@,
                forall|j: int| 0 <= j < k ==> (#[trigger] all[j]).id != parameter@.id,
            decreases i - k,
        {
            assert(all[k as int] == self.parameters@[k as int]@);
            if self.parameters[k].id == parameter.id {
                return Some("duplicate or empty parameter");
            }
            k += 1;
        }
        match &parameter.kind {
            ParameterKind::Integer { min, max } => if *min > *max {
                return Some("invalid integer range");
            },
            ParameterKind::Enum { choices } => if !are_choices_sound(choices) {
                return Some("invalid enum choices");
            },
            _ => {},
        }
        match &parameter.default {
            Some(value) => if !parameter.accepts(value) {
                return Some("invalid default");
            },
            None => {},
        }
        None
    }

    /// Accepts a feature whose names are not blank and whose parameters can be told apart and
    /// filled in, and says what is wrong with any other.
    pub fn validate(&self) -> (r: Result<(), AdapterError>)
        ensures
            match r {
                Ok(()) => self@.flaw_error() is None,
                Err(error) => self@.flaw_error() == Some(error@),
            },
    {
        if text::is_blank(self.id.as_str()) || text::is_blank(self.name.as_str()) {
            return Err(invalid(self.id.as_str(), "empty id or name"));
        }
        let mut i: usize = 0;
        while i < self.parameters.len()
            invariant
                i <= self.parameters@.len(),
                !text::blank(self@.id) && !text::blank(self@.name),
                parameters_flaw(self@.parameters, 0) == parameters_flaw(
                    self@.parameters,
                    i as int,
                ),
            decreases self.parameters@.len() - i,
        {
            if let Some(flaw) = self.find_parameter_flaw(i) {
                return Err(invalid(self.id.as_str(), flaw));
            }
            i += 1;
        }
        Ok(())
    }

    fn is_unknown(&self, key: &str) -> (r: bool)
        ensures
            r == self@.unknown(key@),
    {
        let ghost all = self@.parameters;
        let mut i: usize = 0;
        while i < self.parameters.len()
            invariant
                i <= self.parameters@.len(),
                all == self@.parameters,
                forall|j: int| 0 <= j < i ==> (#[trigger] all[j]).id != key@,
            decreases self.parameters@.len() - i,
        {
            assert(all[i as int] == self.parameters@[i as int]@);
            if text::same(self.parameters[i].id.as_str(), key) {
                return false;
            }
            i += 1;
        }
        true
    }

    /// The first key, in order, that no parameter has.
    fn find_unknown<'a>(&self, entries: &'a Vec<(String, Json)>) -> (r: Option<&'a String>)
        ensures
            match r {
                Some(key) => self@.first_unknown(crate::json::entries_model(entries@), key@),
                None => forall|key: Text|
                    !#[trigger] self@.first_unknown(crate::json::entries_model(entries@), key),
            },
    {
        let ghost given = crate::json::entries_model(entries@);
        let mut found: Option<usize> = None;
        let mut i: usize = 0;
        while i < entries.len()
            invariant
                i <= entries@.len(),
                given == crate::json::entries_model(entries@),
                match found {
                    None => forall|j: int|
                        0 <= j < i ==> !self@.unknown((#[trigger] entries@[j]).0@),
                    Some(f) => f < i && self@.unknown(entries@[f as int].0@) && forall|j: int|
                        0 <= j < i && self@.unknown((#[trigger] entries@[j]).0@) ==> entries@[j].0@
                            == entries@[f as int].0@ || text::before(
                            entries@[f as int].0@,
                            entries@[j].0@,
                        ),
                },
            decreases entries@.len() - i,
        {
            if self.is_unknown(entries[i].0.as_str()) {
                let better: bool = match found {
                    None => true,
                    Some(f) => text::is_before(entries[i].0.as_str(), entries[f].0.as_str()),
                };
                proof {
                    if let Some(f) = found {
                        let (a, b) = (entries@[f as int].0@, entries@[i as int].0@);
                        text::before_is_total(a, b);
                        if better {
                            assert forall|j: int|
                                0 <= j < i && self@.unknown((#[trigger] entries@[j]).0@) implies text::before(
                                b,
                                entries@[j].0@,
                            ) by {
                                if entries@[j].0@ != a {
                                    text::before_is_transitive(b, a, entries@[j].0@);
                                }
                            }
                        }
                    }
                }
                if better {
                    found = Some(i);
                }
            }
            i += 1;
        }
        proof {
            crate::json::keys_are_entries(entries@);
        }
        match found {
            Some(f) => {
                proof {
                    let key = entries@[f as int].0@;
                    assert(given.contains_key(key));
                    assert forall|other: Text| #[trigger]
                        given.contains_key(other) && self@.unknown(other) implies other == key
                        || text::before(key, other) by {
                        let j = choose|j: int|
                            0 <= j < entries@.len() && (#[trigger] entries@[j]).0@ == other;
                        assert(entries@[j].0@ == other);
                    }
                }
                Some(&entries[f].0)
            },
            None => {
                assert forall|key: Text| !#[trigger] self@.first_unknown(given, key) by {
                    if given.contains_key(key) {
                        let j = choose|j: int|
                            0 <= j < entries@.len() && (#[trigger] entries@[j]).0@ == key;
                        assert(entries@[j].0@ == key);
                    }
                }
                None
            },
        }
    }

    /// Applies defaults and rejects unknown, missing or ill-typed fields before any effect.
    pub fn resolve(&self, input: &Json) -> (r: Result<Json, AdapterError>)
        ensures
            match r {
                Ok(value) => self@.resolution(input@) == Ok::<JsonModel, AdapterErrorModel>(value@),
                Err(error) => self@.resolution(input@) == Err::<JsonModel, AdapterErrorModel>(
                    error@,
                ),
            },
    {
        match self.validate() {
            Ok(()) => {},
            Err(error) => {
                return Err(error);
            },
        }
        let entries: &Vec<(String, Json)> = match input {
            Json::Object(entries) => entries,
            _ => {
                return Err(
                    AdapterError::Invalid("feature arguments must be an object".to_owned()),
                );
            },
        };
        let ghost given = crate::json::entries_model(entries@);
        assert(input@ == JsonModel::Object(given));
        match self.find_unknown(entries) {
            Some(key) => {
                proof {
                    let chosen = choose|k: Text| self@.first_unknown(given, k);
                    assert(self@.first_unknown(given, key@));
                    assert(self@.first_unknown(given, chosen));
                    if chosen != key@ {
                        assert(given.contains_key(chosen) && given.contains_key(key@));
                        text::before_is_transitive(key@, chosen, key@);
                        text::before_is_irreflexive(key@);
                    }
                }
                return Err(
                    AdapterError::Invalid(text::cat2("unknown parameter: ", key.as_str())),
                );
            },
            None => {},
        }
        let mut output: Json = Json::object();
        let mut i: usize = 0;
        while i < self.parameters.len()
            invariant
                i <= self.parameters@.len(),
                input@ == JsonModel::Object(given),
                self@.flaw_error() is None,
                !exists|key: Text| self@.first_unknown(given, key),
                argument_flaw(given, self@.parameters, 0) == argument_flaw(
                    given,
                    self@.parameters,
                    i as int,
                ),
                output@ == JsonModel::Object(resolved(given, self@.parameters, i as int)),
            decreases self.parameters@.len() - i,
        {
            let parameter: &Parameter = &self.parameters[i];
            assert(self@.parameters[i as int] == parameter@);
            let value: &Json = match input.get(parameter.id.as_str()) {
                Some(value) => value,
                None => match &parameter.default {
                    Some(value) => value,
                    None => {
                        return Err(
                            AdapterError::Invalid(
                                text::cat2("missing parameter: ", parameter.id.as_str()),
                            ),
                        );
                    },
                },
            };
            assert(value_of(given, parameter@) == Some(value@));
            if !parameter.accepts(value) {
                return Err(
                    AdapterError::Invalid(
                        text::cat2("invalid parameter: ", parameter.id.as_str()),
                    ),
                );
            }
            output.set(parameter.id.as_str(), value.dup());
            i += 1;
        }
        Ok(output)
    }

    fn find_parameter(&self, key: &str) -> (r: Option<usize>)
        ensures
            match r {
                Some(i) => i < self.parameters@.len() && parameter_index(
                    self@.parameters,
                    key@,
                    0,
                ) == Some(i as int),
                None => parameter_index(self@.parameters, key@, 0) is None,
            },
    {
        let mut i: usize = 0;
        while i < self.parameters.len()
            invariant
                i <= self.parameters@.len(),
                parameter_index(self@.parameters, key@, 0) == parameter_index(
                    self@.parameters,
                    key@,
                    i as int,
                ),
            decreases self.parameters@.len() - i,
        {
            assert(self@.parameters[i as int] == self.parameters@[i as int]@);
            if text::same(self.parameters[i].id.as_str(), key) {
                return Some(i);
            }
            i += 1;
        }
        None
    }

    /// One more command-line argument.
    fn write_one(&self, input: &mut Json, argument: &str) -> (r: Result<(), AdapterError>)
        requires
            old(input)@ is Object,
        ensures
            match r {
                Ok(()) => final(input)@ is Object && self@.written_one(
                    old(input)@->Object_0,
                    argument@,
                ) == Ok::<Map<Text, JsonModel>, Text>(final(input)@->Object_0),
                Err(error) => error@ is Invalid && self@.written_one(
                    old(input)@->Object_0,
                    argument@,
                ) == Err::<Map<Text, JsonModel>, Text>(error@->Invalid_0),
            },
    {
        let characters: Vec<char> = text::characters(argument);
        let mut i: usize = 0;
        assert(argument@.skip(0) =~= argument@);
        while i < characters.len() && characters[i] != '='
            invariant
                characters@ == argument@,
                i <= argument@.len(),
                equals_sign(argument@) == (match equals_sign(argument@.skip(i as int)) {
                    Some(k) => Some(k + i),
                    None => None,
                }),
            decreases argument@.len() - i,
        {
            assert(argument@.skip(i as int)[0] == argument@[i as int]);
            assert(argument@.skip(i as int).skip(1) =~= argument@.skip(i + 1));
            i += 1;
        }
        if i == characters.len() {
            return Err(AdapterError::Invalid("expected key=value".to_owned()));
        }
        assert(argument@.skip(i as int)[0] == argument@[i as int]);
        let key: &str = argument.substring_char(0, i);
        let raw: &str = argument.substring_char(i + 1, characters.len());
        assert(key@ =~= argument@.take(i as int));
        assert(raw@ =~= argument@.skip(i + 1));
        let p: usize = match self.find_parameter(key) {
            Some(p) => p,
            None => {
                return Err(AdapterError::Invalid(text::cat2("unknown parameter: ", key)));
            },
        };
        assert(self@.parameters[p as int] == self.parameters@[p as int]@);
        let value: Json = match &self.parameters[p].kind {
            ParameterKind::String | ParameterKind::Enum { .. } => Json::text(raw),
            _ => match Json::parse(raw) {
                Some(value) => value,
                None => {
                    return Err(AdapterError::Invalid(text::cat2("invalid parameter: ", key)));
                },
            },
        };
        if input.get(key).is_some() {
            return Err(AdapterError::Invalid(text::cat2("duplicate parameter: ", key)));
        }
        input.set(key, value);
        Ok(())
    }

    /// Reads command-line arguments `key=value`: texts and choices stay as they are, numbers and
    /// truth values are parsed.
    pub fn parse_arguments(&self, arguments: &Vec<String>) -> (r: Result<Json, AdapterError>)
        ensures
            match r {
                Ok(value) => self@.parsing(arguments.deep_view()) == Ok::<
                    JsonModel,
                    AdapterErrorModel,
                >(value@),
                Err(error) => self@.parsing(arguments.deep_view()) == Err::<
                    JsonModel,
                    AdapterErrorModel,
                >(error@),
            },
    {
        let ghost all = arguments.deep_view();
        let mut input: Json = Json::object();
        let mut i: usize = 0;
        assert(all.take(0) =~= Seq::empty());
        while i < arguments.len()
            invariant
                i <= arguments@.len(),
                all == arguments.deep_view(),
                input@ is Object,
                self@.written(all.take(i as int)) == Ok::<Map<Text, JsonModel>, Text>(
                    input@->Object_0,
                ),
            decreases arguments@.len() - i,
        {
            assert(all.take(i + 1).drop_last() =~= all.take(i as int));
            assert(all.take(i + 1).last() == arguments@[i as int]@);
            match self.write_one(&mut input, arguments[i].as_str()) {
                Ok(()) => {},
                Err(error) => {
                    proof {
                        lemma_flaw_stays(self@, all, i + 1);
                    }
                    return Err(error);
                },
            }
            i += 1;
        }
        assert(all.take(all.len() as int) =~= all);
        self.resolve(&input)
    }
}

proof fn lemma_flaw_stays(feature: FeatureModel, arguments: Seq<Text>, n: int)
    requires
        0 <= n <= arguments.len(),
        feature.written(arguments.take(n)) is Err,
    ensures
        feature.written(arguments) == feature.written(arguments.take(n)),
    decreases arguments.len(),
{
    if n == arguments.len() {
        assert(arguments.take(n) =~= arguments);
    } else {
        assert(arguments.drop_last().take(n) =~= arguments.take(n));
        lemma_flaw_stays(feature, arguments.drop_last(), n);
    }
}

proof fn lemma_resolved(
    input: Map<Text, JsonModel>,
    parameters: Seq<ParameterModel>,
    n: int,
)
    requires
        0 <= n <= parameters.len(),
        forall|i: int, j: int|
            0 <= i < j < parameters.len() ==> (#[trigger] parameters[i]).id != (
            #[trigger] parameters[j]).id,
    ensures
        forall|key: Text| #[trigger]
            resolved(input, parameters, n).contains_key(key) <==> id_taken(parameters, n, key),
        forall|i: int|
            0 <= i < n ==> resolved(input, parameters, n)[(#[trigger] parameters[i]).id]
                == value_of(input, parameters[i])->0,
    decreases n,
{
    if n > 0 {
        lemma_resolved(input, parameters, n - 1);
        let before = resolved(input, parameters, n - 1);
        let after = resolved(input, parameters, n);
        let last = parameters[n - 1];
        assert(after == before.insert(last.id, value_of(input, last)->0));
        assert forall|key: Text| #[trigger] after.contains_key(key) <==> id_taken(
            parameters,
            n,
            key,
        ) by {
            assert(after.contains_key(key) == (before.contains_key(key) || key == last.id));
            assert(before.contains_key(key) == id_taken(parameters, n - 1, key));
            if id_taken(parameters, n - 1, key) {
                let i = choose|i: int| 0 <= i < n - 1 && (#[trigger] parameters[i]).id == key;
                assert(parameters[i].id == key);
                assert(id_taken(parameters, n, key));
            }
            if key == last.id {
                assert(parameters[n - 1].id == key);
                assert(id_taken(parameters, n, key));
            }
            if id_taken(parameters, n, key) {
                let i = choose|i: int| 0 <= i < n && (#[trigger] parameters[i]).id == key;
                assert(parameters[i].id == key);
                if i < n - 1 {
                    assert(id_taken(parameters, n - 1, key));
                }
            }
        }
    }
}

proof fn lemma_parameters_sound(parameters: Seq<ParameterModel>, n: int)
    requires
        0 <= n <= parameters.len(),
        parameters_flaw(parameters, n) is None,
    ensures
        forall|i: int| n <= i < parameters.len() ==> #[trigger] parameter_flaw(parameters, i) is None,
    decreases parameters.len() - n,
{
    if n < parameters.len() {
        lemma_parameters_sound(parameters, n + 1);
    }
}

proof fn lemma_arguments_sound(
    input: Map<Text, JsonModel>,
    parameters: Seq<ParameterModel>,
    n: int,
)
    requires
        0 <= n <= parameters.len(),
    ensures
        argument_flaw(input, parameters, n) is None <==> forall|i: int|
            n <= i < parameters.len() ==> (value_of(input, #[trigger] parameters[i]) matches Some(value)
                && parameters[i].kind.accepts(value)),
    decreases parameters.len() - n,
{
    if n < parameters.len() {
        lemma_arguments_sound(input, parameters, n + 1);
    }
}

/// Resolved arguments hold exactly the declared parameters, each with a value of its kind, and
/// resolving them again changes nothing.
pub proof fn resolution_is_complete_and_stable(feature: FeatureModel, input: JsonModel)
    requires
        feature.resolution(input) is Ok,
    ensures
        feature.resolution(input)->Ok_0 is Object,
        forall|key: Text| #[trigger]
            feature.resolution(input)->Ok_0->Object_0.contains_key(key) <==> !feature.unknown(key),
        forall|i: int|
            0 <= i < feature.parameters.len() ==> (
            #[trigger] feature.parameters[i]).kind.accepts(
                feature.resolution(input)->Ok_0->Object_0[feature.parameters[i].id],
            ),
        feature.resolution(feature.resolution(input)->Ok_0) == feature.resolution(input),
{
    let given = input->Object_0;
    let ps = feature.parameters;
    let n = ps.len() as int;
    let out = resolved(given, ps, n);
    lemma_parameters_sound(ps, 0);
    assert forall|i: int, j: int| 0 <= i < j < n implies (#[trigger] ps[i]).id != (
    #[trigger] ps[j]).id by {
        assert(parameter_flaw(ps, j) is None);
    }
    lemma_resolved(given, ps, n);
    lemma_arguments_sound(given, ps, 0);
    lemma_resolved(out, ps, n);
    assert forall|i: int| 0 <= i < n implies (value_of(out, #[trigger] ps[i]) matches Some(value)
        && ps[i].kind.accepts(value)) && value_of(out, ps[i]) == value_of(given, ps[i]) by {
        assert(id_taken(ps, n, ps[i].id));
        assert(out.contains_key(ps[i].id));
    }
    lemma_arguments_sound(out, ps, 0);
    assert(!exists|key: Text| feature.first_unknown(out, key));
    let again = resolved(out, ps, n);
    assert forall|key: Text| again.dom().contains(key) == #[trigger] out.dom().contains(key) && (
    out.dom().contains(key) ==> again[key] == out[key]) by {
        assert(again.contains_key(key) <==> id_taken(ps, n, key));
        assert(out.contains_key(key) <==> id_taken(ps, n, key));
        if id_taken(ps, n, key) {
            let i = choose|i: int| 0 <= i < n && (#[trigger] ps[i]).id == key;
            assert(ps[i].id == key);
            assert(value_of(out, ps[i]) == value_of(given, ps[i]));
        }
    }
    assert(again =~= out);
}

/// A parameter of an enumeration accepts the value of each of its choices and nothing else.
pub proof fn enumerations_accept_their_choices(choices: Seq<ChoiceModel>, value: JsonModel)
    ensures
        forall|i: int|
            0 <= i < choices.len() ==> (ParameterKindModel::Enum { choices }).accepts(
                JsonModel::Text((#[trigger] choices[i]).value),
            ),
        (ParameterKindModel::Enum { choices }).accepts(value) ==> exists|i: int|
            0 <= i < choices.len() && value == JsonModel::Text((#[trigger] choices[i]).value),
{
}

/// A parameter of a range accepts the whole numbers from its least to its greatest, both included,
/// and nothing else.
pub proof fn ranges_accept_their_numbers(
    min: i64,
    max: i64,
    count: u64,
    number: i64,
    value: JsonModel,
)
    ensures
        (ParameterKindModel::Integer { min, max }).accepts(JsonModel::Unsigned(count)) <==> min
            <= count <= max,
        (ParameterKindModel::Integer { min, max }).accepts(JsonModel::Negative(number)) <==> min
            <= number <= max,
        (ParameterKindModel::Integer { min, max }).accepts(value) ==> value is Unsigned || value
            is Negative,
{
}

/// Texts and truth values are accepted as they are, and nothing else in their place.
pub proof fn plain_kinds_accept_their_values(value: JsonModel)
    ensures
        ParameterKindModel::String.accepts(value) <==> value is Text,
        ParameterKindModel::Boolean.accepts(value) <==> value == JsonModel::Bool(true) || value
            == JsonModel::Bool(false),
{
}

/// What a feature must be for it to be offered: it has an id and a name, every parameter an id of
/// its own, ranges are not empty, choices are there, distinct and not empty, and defaults are
/// accepted.
pub open spec fn well_made(feature: FeatureModel) -> bool {
    let parameters = feature.parameters;
    &&& exists|i: int| 0 <= i < feature.id.len() && !text::white(#[trigger] feature.id[i])
    &&& exists|i: int| 0 <= i < feature.name.len() && !text::white(#[trigger] feature.name[i])
    &&& forall|p: int|
        0 <= p < parameters.len() ==> {
            let parameter = #[trigger] parameters[p];
            &&& exists|i: int|
                0 <= i < parameter.id.len() && !text::white(#[trigger] parameter.id[i])
            &&& match parameter.kind {
                ParameterKindModel::Integer { min, max } => min <= max,
                ParameterKindModel::Enum { choices } => {
                    &&& choices.len() > 0
                    &&& forall|c: int|
                        0 <= c < choices.len() ==> (#[trigger] choices[c]).value.len() > 0
                    &&& forall|c: int, d: int|
                        0 <= c < d < choices.len() ==> (#[trigger] choices[c]).value != (
                        #[trigger] choices[d]).value
                },
                _ => true,
            }
            &&& parameter.default matches Some(value) ==> parameter.kind.accepts(value)
        }
    &&& forall|p: int, q: int|
        0 <= p < q < parameters.len() ==> (#[trigger] parameters[p]).id != (
        #[trigger] parameters[q]).id
}

proof fn lemma_parameters_flaw(parameters: Seq<ParameterModel>, i: int)
    requires
        0 <= i,
    ensures
        parameters_flaw(parameters, i) is None <==> forall|p: int|
            i <= p < parameters.len() ==> #[trigger] parameter_flaw(parameters, p) is None,
    decreases parameters.len() - i,
{
    if i < parameters.len() {
        lemma_parameters_flaw(parameters, i + 1);
        if parameters_flaw(parameters, i) is None {
            assert forall|p: int| i <= p < parameters.len() implies #[trigger] parameter_flaw(
                parameters,
                p,
            ) is None by {
                if p > i {
                    assert(i + 1 <= p);
                }
            }
        }
    }
}

/// Features are accepted exactly if they are well made.
pub proof fn well_made_features_have_no_flaw(feature: FeatureModel)
    ensures
        feature.flaw() is None <==> well_made(feature),
{
    let parameters = feature.parameters;
    lemma_parameters_flaw(parameters, 0);
    if feature.flaw() is None {
        assert forall|p: int, q: int| 0 <= p < q < parameters.len() implies (
        #[trigger] parameters[p]).id != (#[trigger] parameters[q]).id by {
            assert(parameter_flaw(parameters, q) is None);
            if parameters[p].id == parameters[q].id {
                assert(id_taken(parameters, q, parameters[q].id));
            }
        }
        assert forall|p: int| 0 <= p < parameters.len() implies {
            let parameter = #[trigger] parameters[p];
            &&& exists|i: int|
                0 <= i < parameter.id.len() && !text::white(#[trigger] parameter.id[i])
            &&& match parameter.kind {
                ParameterKindModel::Integer { min, max } => min <= max,
                ParameterKindModel::Enum { choices } => {
                    &&& choices.len() > 0
                    &&& forall|c: int|
                        0 <= c < choices.len() ==> (#[trigger] choices[c]).value.len() > 0
                    &&& forall|c: int, d: int|
                        0 <= c < d < choices.len() ==> (#[trigger] choices[c]).value != (
                        #[trigger] choices[d]).value
                },
                _ => true,
            }
            &&& parameter.default matches Some(value) ==> parameter.kind.accepts(value)
        } by {
            assert(parameter_flaw(parameters, p) is None);
        }
    }
    if well_made(feature) {
        assert forall|p: int| 0 <= p < parameters.len() implies #[trigger] parameter_flaw(
            parameters,
            p,
        ) is None by {
            let parameter = parameters[p];
            assert(!id_taken(parameters, p, parameter.id)) by {
                if id_taken(parameters, p, parameter.id) {
                    let q = choose|q: int|
                        0 <= q < p && (#[trigger] parameters[q]).id == parameter.id;
                    assert(parameters[q].id != parameters[p].id);
                }
            }
        }
    }
}

/// The value that a parameter gets: the one that is given, or else its default.
pub open spec fn filled(given: Map<Text, JsonModel>, parameter: ParameterModel) -> Option<JsonModel> {
    if given.contains_key(parameter.id) {
        Some(given[parameter.id])
    } else {
        parameter.default
    }
}

proof fn lemma_argument_flaw(given: Map<Text, JsonModel>, parameters: Seq<ParameterModel>, i: int)
    requires
        0 <= i,
    ensures
        argument_flaw(given, parameters, i) is None <==> forall|p: int|
            i <= p < parameters.len() ==> (filled(given, #[trigger] parameters[p]) matches Some(
                value,
            ) && parameters[p].kind.accepts(value)),
    decreases parameters.len() - i,
{
    if i < parameters.len() {
        lemma_argument_flaw(given, parameters, i + 1);
        if argument_flaw(given, parameters, i) is None {
            assert forall|p: int| i <= p < parameters.len() implies (filled(
                given,
                #[trigger] parameters[p],
            ) matches Some(value) && parameters[p].kind.accepts(value)) by {
                if p > i {
                    assert(i + 1 <= p);
                }
            }
        }
    }
}

proof fn lemma_filled(given: Map<Text, JsonModel>, parameters: Seq<ParameterModel>, n: int)
    requires
        0 <= n <= parameters.len(),
        forall|p: int, q: int|
            0 <= p < q < parameters.len() ==> (#[trigger] parameters[p]).id != (
            #[trigger] parameters[q]).id,
    ensures
        forall|p: int|
            0 <= p < n ==> resolved(given, parameters, n).contains_key(
                (#[trigger] parameters[p]).id,
            ) && resolved(given, parameters, n)[parameters[p].id] == filled(
                given,
                parameters[p],
            )->0,
        forall|key: Text| #[trigger]
            resolved(given, parameters, n).contains_key(key) ==> exists|p: int|
                0 <= p < n && (#[trigger] parameters[p]).id == key,
    decreases n,
{
    if n > 0 {
        lemma_filled(given, parameters, n - 1);
        assert forall|key: Text| #[trigger]
            resolved(given, parameters, n).contains_key(key) implies exists|p: int|
            0 <= p < n && (#[trigger] parameters[p]).id == key by {
            if key == parameters[n - 1].id {
                assert(parameters[n - 1].id == key);
            } else {
                assert(resolved(given, parameters, n - 1).contains_key(key));
            }
        }
    }
}

proof fn lemma_no_unknown(feature: FeatureModel, given: Map<Text, JsonModel>)
    requires
        given.dom().finite(),
        exists|key: Text| #[trigger] given.contains_key(key) && feature.unknown(key),
    ensures
        exists|key: Text| feature.first_unknown(given, key),
    decreases given.dom().len(),
{
    let key = choose|key: Text| #[trigger] given.contains_key(key) && feature.unknown(key);
    let less = given.remove(key);
    assert(less.dom() =~= given.dom().remove(key));
    if exists|other: Text| #[trigger] less.contains_key(other) && feature.unknown(other) {
        lemma_no_unknown(feature, less);
        let first = choose|first: Text| feature.first_unknown(less, first);
        text::before_is_total(key, first);
        if text::before(key, first) {
            assert forall|other: Text| #[trigger]
                given.contains_key(other) && feature.unknown(other) implies other == key
                || text::before(key, other) by {
                if other != key {
                    assert(less.contains_key(other));
                    if other != first {
                        text::before_is_transitive(key, first, other);
                    }
                }
            }
            assert(feature.first_unknown(given, key));
        } else {
            assert(less.contains_key(first));
            assert forall|other: Text| #[trigger]
                given.contains_key(other) && feature.unknown(other) implies other == first
                || text::before(first, other) by {
                if other != key {
                    assert(less.contains_key(other));
                }
            }
            assert(feature.first_unknown(given, first));
        }
    } else {
        assert forall|other: Text| #[trigger]
            given.contains_key(other) && feature.unknown(other) implies other == key || text::before(
            key,
            other,
        ) by {
            if other != key {
                assert(less.contains_key(other));
            }
        }
        assert(feature.first_unknown(given, key));
    }
}

/// Arguments are accepted exactly if every one of them is that of a parameter, and every parameter
/// gets a value that it accepts, given or by default. The result gives every parameter that value
/// and holds nothing else.
pub proof fn arguments_are_completed(feature: FeatureModel, given: Map<Text, JsonModel>)
    requires
        feature.flaw() is None,
        given.dom().finite(),
    ensures
        ({
            let parameters = feature.parameters;
            let result = feature.resolution(JsonModel::Object(given));
            &&& result is Ok <==> {
                &&& forall|key: Text| #[trigger]
                    given.contains_key(key) ==> exists|p: int|
                        0 <= p < parameters.len() && (#[trigger] parameters[p]).id == key
                &&& forall|p: int|
                    0 <= p < parameters.len() ==> (filled(given, #[trigger] parameters[p])
                        matches Some(value) && parameters[p].kind.accepts(value))
            }
            &&& result matches Ok(JsonModel::Object(values)) ==> {
                &&& forall|p: int|
                    0 <= p < parameters.len() ==> values.contains_key((#[trigger] parameters[p]).id)
                        && filled(given, parameters[p]) == Some(values[parameters[p].id])
                &&& forall|key: Text| #[trigger]
                    values.contains_key(key) ==> exists|p: int|
                        0 <= p < parameters.len() && (#[trigger] parameters[p]).id == key
            }
            &&& result is Ok ==> result->Ok_0 is Object
        }),
{
    let parameters = feature.parameters;
    well_made_features_have_no_flaw(feature);
    lemma_argument_flaw(given, parameters, 0);
    lemma_filled(given, parameters, parameters.len() as int);
    if exists|key: Text| #[trigger] given.contains_key(key) && feature.unknown(key) {
        lemma_no_unknown(feature, given);
        let key = choose|key: Text| #[trigger] given.contains_key(key) && feature.unknown(key);
        assert(!exists|p: int| 0 <= p < parameters.len() && (#[trigger] parameters[p]).id == key);
    } else {
        assert forall|key: Text| #[trigger] given.contains_key(key) implies exists|p: int|
            0 <= p < parameters.len() && (#[trigger] parameters[p]).id == key by {
            assert(!feature.unknown(key));
        }
        assert(!exists|key: Text| feature.first_unknown(given, key)) by {
            if exists|key: Text| feature.first_unknown(given, key) {
                let key = choose|key: Text| feature.first_unknown(given, key);
                assert(given.contains_key(key) && feature.unknown(key));
            }
        }
    }
}

proof fn lemma_equals_sign(key: Text, raw: Text)
    requires
        !key.contains('='),
    ensures
        equals_sign(key + seq!['='] + raw) == Some(key.len() as int),
    decreases key.len(),
{
    let s = key + seq!['='] + raw;
    if key.len() == 0 {
        assert(s[0] == '=');
    } else {
        assert(s[0] == key[0]);
        assert(key.contains(key[0]));
        assert(s.skip(1) =~= key.skip(1) + seq!['='] + raw);
        assert forall|i: int| 0 <= i < key.skip(1).len() implies key.skip(1)[i] != '=' by {
            assert(key[i + 1] == key.skip(1)[i]);
            assert(key.contains(key[i + 1]));
        }
        lemma_equals_sign(key.skip(1), raw);
    }
}

proof fn lemma_no_equals_sign(s: Text)
    ensures
        equals_sign(s) is None <==> !s.contains('='),
    decreases s.len(),
{
    if s.len() > 0 {
        lemma_no_equals_sign(s.skip(1));
        if s.skip(1).contains('=') {
            let i = choose|i: int| 0 <= i < s.len() - 1 && s.skip(1)[i] == '=';
            assert(s[i + 1] == '=');
        }
        if s.contains('=') {
            let i = choose|i: int| 0 <= i < s.len() && s[i] == '=';
            if i > 0 {
                assert(s.skip(1)[i - 1] == '=');
            }
        }
        if s[0] == '=' {
            assert(s.contains('='));
        }
    }
}

proof fn lemma_parameter_index(parameters: Seq<ParameterModel>, p: int, i: int)
    requires
        0 <= i <= p < parameters.len(),
        forall|q: int| i <= q < p ==> (#[trigger] parameters[q]).id != parameters[p].id,
    ensures
        parameter_index(parameters, parameters[p].id, i) == Some(p),
    decreases p - i,
{
    if i < p {
        lemma_parameter_index(parameters, p, i + 1);
    }
}

/// An argument on the command line is the id of a parameter, an equals sign and the value: as it
/// stands for texts and choices, however many equals signs it has, and as JSON for the others. A
/// parameter that was given already is refused, and so is an argument without an equals sign.
pub proof fn command_line_arguments_are_read(
    feature: FeatureModel,
    input: Map<Text, JsonModel>,
    p: int,
    raw: Text,
)
    requires
        feature.flaw() is None,
        0 <= p < feature.parameters.len(),
        !feature.parameters[p].id.contains('='),
    ensures
        ({
            let parameter = feature.parameters[p];
            let argument = parameter.id + seq!['='] + raw;
            let value = if parameter.kind is String || parameter.kind is Enum {
                Some(JsonModel::Text(raw))
            } else {
                parsed(raw)
            };
            let result = feature.written_one(input, argument);
            if input.contains_key(parameter.id) || value is None {
                result is Err
            } else {
                result == Ok::<Map<Text, JsonModel>, Text>(input.insert(parameter.id, value->0))
            }
        }),
        !raw.contains('=') ==> feature.written_one(input, raw) is Err,
{
    let parameter = feature.parameters[p];
    let argument = parameter.id + seq!['='] + raw;
    lemma_equals_sign(parameter.id, raw);
    lemma_no_equals_sign(raw);
    well_made_features_have_no_flaw(feature);
    lemma_parameter_index(feature.parameters, p, 0);
    assert(argument.take(parameter.id.len() as int) =~= parameter.id);
    assert(argument.skip(parameter.id.len() as int + 1) =~= raw);
}

/// Every argument on the command line is read, from the first to the last, before the parameters
/// are completed.
pub proof fn command_lines_are_read_in_order(
    feature: FeatureModel,
    arguments: Seq<Text>,
    argument: Text,
)
    ensures
        feature.written(Seq::empty()) == Ok::<Map<Text, JsonModel>, Text>(Map::empty()),
        match feature.written(arguments) {
            Ok(input) => feature.written(arguments.push(argument)) == feature.written_one(
                input,
                argument,
            ),
            Err(flaw) => feature.written(arguments.push(argument)) == feature.written(arguments),
        },
        match feature.written(arguments) {
            Ok(input) => feature.parsing(arguments) == feature.resolution(JsonModel::Object(input)),
            Err(_) => feature.parsing(arguments) is Err,
        },
{
    assert(arguments.push(argument).drop_last() =~= arguments);
}

} // verus!
