//! The features of the driver: listing and setting them.
use crate::api::{ApiError, Failure};
use crate::http::{HttpRequest, RequestView};
use crate::json::Json;
use crate::{api, json, text};
use serde_json::Value;
use std::collections::HashMap;
use vstd::prelude::*;

verus! {

broadcast use vstd::std_specs::hash::group_hash_axioms;

/// The features: the name, the number and the description of each.
pub open spec fn features() -> Seq<(Seq<char>, u32, Seq<char>)> {
    seq![
        ("su_compat"@, 0u32, "SU compatibility mode"@),
        ("kernel_umount"@, 1u32, "Kernel umount"@),
        ("sulog"@, 2u32, "SU log"@),
        ("adb_root"@, 3u32, "ADB root"@),
        ("selinux_hide"@, 4u32, "SELinux hide"@),
        ("web_su_prompt"@, 5u32, "Local web SU prompt"@),
    ]
}

/// The features: the name, the number and the description of each.
pub fn feature_names() -> (r: [(&'static str, u32, &'static str); 6])
    ensures
        r@.map_values(|f: (&'static str, u32, &'static str)| (f.0@, f.1, f.2@)) == features(),
{
    let r = [
        ("su_compat", 0, "SU compatibility mode"),
        ("kernel_umount", 1, "Kernel umount"),
        ("sulog", 2, "SU log"),
        ("adb_root", 3, "ADB root"),
        ("selinux_hide", 4, "SELinux hide"),
        ("web_su_prompt", 5, "Local web SU prompt"),
    ];
    assert(r@.map_values(|f: (&'static str, u32, &'static str)| (f.0@, f.1, f.2@)) =~= features());
    r
}

/// The number of the first feature from `from` on that has the name `name`.
pub open spec fn feature_id_from(name: Seq<char>, from: int) -> Option<u32>
    decreases features().len() - from,
{
    if from < 0 || from >= features().len() {
        None
    } else if features()[from].0 == name {
        Some(features()[from].1)
    } else {
        feature_id_from(name, from + 1)
    }
}

/// The number of the feature with the name `name`.
pub open spec fn feature_id(name: Seq<char>) -> Option<u32> {
    feature_id_from(name, 0)
}

/// Finds the number of the feature with the name `name`.
#[verifier::allow_in_spec]
pub fn feature_id_by_name(name: &str) -> (r: Option<u32>)
    ensures
        r == feature_id(name@),
    returns
        feature_id(name@),
{
    let names = feature_names();
    let ghost all = names@.map_values(|f: (&'static str, u32, &'static str)| (f.0@, f.1, f.2@));
    for i in 0..6
        invariant
            all == features(),
            all == names@.map_values(
                |f: (&'static str, u32, &'static str)| (f.0@, f.1, f.2@),
            ),
            feature_id(name@) == feature_id_from(name@, i as int),
    {
        assert(all[i as int] == (names@[i as int].0@, names@[i as int].1, names@[i as int].2@));
        if text::str_eq(names[i].0, name) {
            return Some(names[i].1);
        }
    }
    None
}

/// Each feature has a name and a number of its own, and is found by its name.
pub proof fn law_features_are_distinct(i: int, j: int)
    requires
        0 <= i < features().len(),
        0 <= j < features().len(),
    ensures
        features()[i].0 == features()[j].0 <==> i == j,
        features()[i].1 == features()[j].1 <==> i == j,
        feature_id(features()[i].0) == Some(features()[i].1),
{
    reveal_strlit("su_compat");
    reveal_strlit("kernel_umount");
    reveal_strlit("sulog");
    reveal_strlit("adb_root");
    reveal_strlit("selinux_hide");
    reveal_strlit("web_su_prompt");
    assert(features()[0].0.len() == 9 && features()[1].0.len() == 13 && features()[2].0.len() == 5
        && features()[3].0.len() == 8 && features()[4].0.len() == 12 && features()[5].0.len()
        == 13);
    assert(features()[1].0[0] == 'k' && features()[5].0[0] == 'w');
    reveal_with_fuel(feature_id_from, 7);
}

/// The value of a feature and whether the driver supports it, as the driver
/// told them, or 0 and not where it did not tell.
pub open spec fn reading(readings: Seq<Option<(u64, bool)>>, i: int) -> (u64, bool) {
    if 0 <= i < readings.len() {
        match readings[i] {
            Some(told) => told,
            None => (0, false),
        }
    } else {
        (0, false)
    }
}

/// A feature with its value, as a JSON object.
pub open spec fn feature_json(feature: (Seq<char>, u32, Seq<char>), told: (u64, bool)) -> Json {
    json::object_of(
        seq![
            ("name"@, Json::Str(feature.0)),
            ("id"@, Json::Unsigned(feature.1 as u64)),
            ("description"@, Json::Str(feature.2)),
            ("value"@, Json::Unsigned(told.0)),
            ("enabled"@, Json::Bool(told.0 != 0)),
            ("supported"@, Json::Bool(told.1)),
        ],
    )
}

/// The features with their values, as a JSON object.
pub open spec fn features_json(readings: Seq<Option<(u64, bool)>>) -> Json {
    json::object_of(
        seq![
            (
                "features"@,
                Json::Array(
                    Seq::new(
                        features().len(),
                        |i: int| feature_json(features()[i], reading(readings, i)),
                    ),
                ),
            ),
        ],
    )
}

fn feature_to_json(name: &str, id: u32, description: &str, value: u64, supported: bool) -> (r:
    Value)
    ensures
        json::json(r) == feature_json((name@, id, description@), (value, supported)),
{
    let fields = vec![
        ("name".to_string(), json::json_string(name)),
        ("id".to_string(), json::json_number(id as u64)),
        ("description".to_string(), json::json_string(description)),
        ("value".to_string(), json::json_number(value)),
        ("enabled".to_string(), json::json_bool(value != 0)),
        ("supported".to_string(), json::json_bool(supported)),
    ];
    assert(json::field_views(fields@) =~= seq![
        ("name"@, Json::Str(name@)),
        ("id"@, Json::Unsigned(id as u64)),
        ("description"@, Json::Str(description@)),
        ("value"@, Json::Unsigned(value)),
        ("enabled"@, Json::Bool(value != 0)),
        ("supported"@, Json::Bool(supported)),
    ]);
    proof {
        reveal_strlit("name");
        reveal_strlit("id");
        reveal_strlit("description");
        reveal_strlit("value");
        reveal_strlit("enabled");
        reveal_strlit("supported");
        let views = json::field_views(fields@);
        assert(views[0].0.len() == 4 && views[1].0.len() == 2 && views[2].0.len() == 11
            && views[3].0.len() == 5 && views[4].0.len() == 7 && views[5].0.len() == 9);
    }
    json::json_object(fields)
}

/// Answers with the features, given what the driver told of each, in the order
/// of `feature_names`.
pub fn handle_features(readings: &[Option<(u64, bool)>]) -> (r: Value)
    ensures
        json::json(r) == features_json(readings@),
{
    let names = feature_names();
    let ghost all = names@.map_values(|f: (&'static str, u32, &'static str)| (f.0@, f.1, f.2@));
    let mut items: Vec<Value> = Vec::new();
    for i in 0..6
        invariant
            all == features(),
            all == names@.map_values(|f: (&'static str, u32, &'static str)| (f.0@, f.1, f.2@)),
            items@.len() == i,
            forall|j: int|
                0 <= j < i ==> json::json(#[trigger] items@[j]) == feature_json(
                    features()[j],
                    reading(readings@, j),
                ),
    {
        let (value, supported) = if i < readings.len() {
            match readings[i] {
                Some(told) => told,
                None => (0, false),
            }
        } else {
            (0, false)
        };
        let (name, id, description) = names[i];
        assert(all[i as int] == (name@, id, description@));
        items.push(feature_to_json(name, id, description, value, supported));
    }
    assert(json::jsons(items@) =~= Seq::new(
        features().len(),
        |i: int| feature_json(features()[i], reading(readings@, i)),
    ));
    let listed = json::json_array(items);
    let fields = vec![("features".to_string(), listed)];
    assert(json::field_views(fields@) =~= seq![("features"@, json::json(listed))]);
    json::json_object(fields)
}

/// A request to set a feature.
pub struct FeaturePatch {
    pub name: String,
    pub id: u32,
    pub value: u64,
}

/// What a request to set a feature holds.
pub struct FeaturePatchView {
    pub name: Seq<char>,
    pub id: u32,
    pub value: u64,
}

impl View for FeaturePatch {
    type V = FeaturePatchView;

    open spec fn view(&self) -> FeaturePatchView {
        FeaturePatchView { name: self.name@, id: self.id, value: self.value }
    }
}

/// What a request to set the feature `name` asks for.
pub open spec fn feature_patch(req: RequestView, name: Seq<char>) -> Result<
    FeaturePatchView,
    Failure,
> {
    match feature_id(name) {
        None => Err(Failure::UnknownFeature),
        Some(id) => match api::json_body(req) {
            Err(e) => Err(e),
            Ok(body) => match json::field(body, "value"@) {
                Some(Json::Unsigned(value)) => Ok(FeaturePatchView { name, id, value }),
                _ => Err(Failure::MissingValue),
            },
        },
    }
}

/// Reads a request to set the feature `name`.
pub fn read_feature_patch(req: &HttpRequest, name: &str) -> (r: Result<FeaturePatch, ApiError>)
    ensures
        match r {
            Ok(patch) => feature_patch(req@, name@) == Ok::<FeaturePatchView, Failure>(patch@),
            Err(e) => feature_patch(req@, name@) == Err::<FeaturePatchView, Failure>(e@),
        },
{
    let id = match feature_id_by_name(name) {
        Some(id) => id,
        None => return Err(ApiError::UnknownFeature),
    };
    let body = match api::parse_json_body(req) {
        Ok(body) => body,
        Err(e) => return Err(e),
    };
    match json::json_get(&body, "value") {
        Some(value) => match json::json_as_u64(value) {
            Some(value) => Ok(FeaturePatch { name: name.to_string(), id, value }),
            None => Err(ApiError::MissingValue),
        },
        None => Err(ApiError::MissingValue),
    }
}

/// What came of setting a feature so far.
pub enum PatchEvent {
    /// The request was read.
    Start,
    /// The driver was asked to set the feature; whether it did.
    FeatureSet(bool),
    /// The stored features were read, or could not be.
    ConfigLoaded(Option<HashMap<u32, u64>>),
    /// The features were stored, or could not be.
    ConfigSaved(bool),
}

/// What to do next about setting a feature.
pub enum PatchStep {
    /// Ask the driver to set the feature.
    SetFeature { id: u32, value: u64 },
    /// Read the stored features.
    LoadConfig,
    /// Store these features.
    SaveConfig(HashMap<u32, u64>),
    /// Answer.
    Done(Result<Value, ApiError>),
}

/// What came of setting a feature.
pub enum PatchEventView {
    Start,
    FeatureSet(bool),
    ConfigLoaded(Map<u32, u64>),
    ConfigSaved(bool),
}

impl View for PatchEvent {
    type V = PatchEventView;

    open spec fn view(&self) -> PatchEventView {
        match *self {
            PatchEvent::Start => PatchEventView::Start,
            PatchEvent::FeatureSet(ok) => PatchEventView::FeatureSet(ok),
            PatchEvent::ConfigLoaded(config) => PatchEventView::ConfigLoaded(stored(config)),
            PatchEvent::ConfigSaved(ok) => PatchEventView::ConfigSaved(ok),
        }
    }
}

/// What is to be done next about setting a feature.
pub enum PatchStepView {
    SetFeature { id: u32, value: u64 },
    LoadConfig,
    SaveConfig(Map<u32, u64>),
    Done(Result<Json, Failure>),
}

impl View for PatchStep {
    type V = PatchStepView;

    open spec fn view(&self) -> PatchStepView {
        match *self {
            PatchStep::SetFeature { id, value } => PatchStepView::SetFeature { id, value },
            PatchStep::LoadConfig => PatchStepView::LoadConfig,
            PatchStep::SaveConfig(config) => PatchStepView::SaveConfig(config@),
            PatchStep::Done(r) => PatchStepView::Done(api::answer(r)),
        }
    }
}

/// The answer once a feature is set and stored.
pub open spec fn patched_json(patch: FeaturePatchView) -> Json {
    json::object_of(
        seq![
            ("ok"@, Json::Bool(true)),
            ("name"@, Json::Str(patch.name)),
            ("value"@, Json::Unsigned(patch.value)),
        ],
    )
}

/// The features that were stored: none where they could not be read.
pub open spec fn stored(config: Option<HashMap<u32, u64>>) -> Map<u32, u64> {
    match config {
        Some(config) => config@,
        None => Map::empty(),
    }
}

/// What to do next about setting a feature, after what came of it so far.
pub open spec fn patch_step(patch: FeaturePatchView, event: PatchEventView) -> PatchStepView {
    match event {
        PatchEventView::Start => PatchStepView::SetFeature { id: patch.id, value: patch.value },
        PatchEventView::FeatureSet(ok) => if ok {
            PatchStepView::LoadConfig
        } else {
            PatchStepView::Done(Err(Failure::SetFeature))
        },
        PatchEventView::ConfigLoaded(config) => PatchStepView::SaveConfig(
            config.insert(patch.id, patch.value),
        ),
        PatchEventView::ConfigSaved(ok) => PatchStepView::Done(
            if ok {
                Ok(patched_json(patch))
            } else {
                Err(Failure::SaveConfig)
            },
        ),
    }
}

/// Sets a feature: first in the driver, then, where that succeeded, among the
/// stored features, of which the others are kept.
pub fn handle_feature_patch(patch: &FeaturePatch, event: PatchEvent) -> (step: PatchStep)
    ensures
        step@ == patch_step(patch@, event@),
{
    match event {
        PatchEvent::Start => PatchStep::SetFeature { id: patch.id, value: patch.value },
        PatchEvent::FeatureSet(ok) => if ok {
            PatchStep::LoadConfig
        } else {
            PatchStep::Done(Err(ApiError::SetFeature))
        },
        PatchEvent::ConfigLoaded(config) => {
            let mut config = match config {
                Some(config) => config,
                None => HashMap::new(),
            };
            config.insert(patch.id, patch.value);
            PatchStep::SaveConfig(config)
        },
        PatchEvent::ConfigSaved(ok) => {
            if !ok {
                return PatchStep::Done(Err(ApiError::SaveConfig));
            }
            let fields = vec![
                ("ok".to_string(), json::json_bool(true)),
                ("name".to_string(), json::json_string(patch.name.as_str())),
                ("value".to_string(), json::json_number(patch.value)),
            ];
            assert(json::field_views(fields@) =~= seq![
                ("ok"@, Json::Bool(true)),
                ("name"@, Json::Str(patch.name@)),
                ("value"@, Json::Unsigned(patch.value)),
            ]);
            proof {
                reveal_strlit("ok");
                reveal_strlit("name");
                reveal_strlit("value");
                let views = json::field_views(fields@);
                assert(views[0].0.len() == 2 && views[1].0.len() == 4 && views[2].0.len() == 5);
            }
            PatchStep::Done(Ok(json::json_object(fields)))
        },
    }
}

/// What comes of setting a feature from `event` on, where `set` says whether the
/// driver sets it, `config` is what is stored, and `saved` says whether it can be
/// stored anew: the answer, and what is handed over to be stored.
pub open spec fn patch_run(
    patch: FeaturePatchView,
    event: PatchEventView,
    set: bool,
    config: Map<u32, u64>,
    saved: bool,
) -> (Result<Json, Failure>, Option<Map<u32, u64>>)
    decreases
            match event {
                PatchEventView::Start => 3int,
                PatchEventView::FeatureSet(_) => 2int,
                PatchEventView::ConfigLoaded(_) => 1int,
                PatchEventView::ConfigSaved(_) => 0int,
            },
{
    match (patch_step(patch, event), event) {
        (PatchStepView::Done(answer), _) => (answer, None),
        (PatchStepView::SetFeature { .. }, PatchEventView::Start) => patch_run(
            patch,
            PatchEventView::FeatureSet(set),
            set,
            config,
            saved,
        ),
        (PatchStepView::LoadConfig, PatchEventView::FeatureSet(_)) => patch_run(
            patch,
            PatchEventView::ConfigLoaded(config),
            set,
            config,
            saved,
        ),
        (PatchStepView::SaveConfig(new), PatchEventView::ConfigLoaded(_)) => (
            patch_run(patch, PatchEventView::ConfigSaved(saved), set, config, saved).0,
            Some(new),
        ),
        _ => arbitrary(),
    }
}

/// A feature that the driver does not set is not stored either. One that it sets
/// is stored with its new value, and the other stored features are kept.
pub proof fn law_feature_is_stored_where_it_is_set(
    patch: FeaturePatchView,
    set: bool,
    config: Map<u32, u64>,
    saved: bool,
)
    ensures
        patch_run(patch, PatchEventView::Start, set, config, saved) == if !set {
            (Err::<Json, Failure>(Failure::SetFeature), None::<Map<u32, u64>>)
        } else {
            (
                if saved {
                    Ok::<Json, Failure>(patched_json(patch))
                } else {
                    Err::<Json, Failure>(Failure::SaveConfig)
                },
                Some(config.insert(patch.id, patch.value)),
            )
        },
{
    reveal_with_fuel(patch_run, 4);
}

/// Only the name of a feature has a number, and it is that of the feature.
pub proof fn law_only_features_have_numbers(name: Seq<char>)
    ensures
        match feature_id(name) {
            Some(id) => id < 6 && features()[id as int].0 == name && features()[id as int].1 == id,
            None => forall|i: int|
                0 <= i < features().len() ==> (#[trigger] features()[i]).0 != name,
        },
        features().len() == 6,
        feature_id("su_compat"@) == Some(0u32),
        feature_id("kernel_umount"@) == Some(1u32),
        feature_id("sulog"@) == Some(2u32),
        feature_id("adb_root"@) == Some(3u32),
        feature_id("selinux_hide"@) == Some(4u32),
        feature_id("web_su_prompt"@) == Some(5u32),
{
    law_features_are_distinct(0, 0);
    law_features_are_distinct(1, 1);
    law_features_are_distinct(2, 2);
    law_features_are_distinct(3, 3);
    law_features_are_distinct(4, 4);
    law_features_are_distinct(5, 5);
    reveal_with_fuel(feature_id_from, 7);
}

/// A request to set a feature asks for exactly the value in its body, any number
/// from 0 up, and for the number of the feature with its name. It is refused
/// where there is no such feature, no JSON body, or no such value, in that order.
pub proof fn law_patch_asks_for_the_value_in_its_body(req: RequestView, name: Seq<char>, n: u64)
    ensures
        match feature_patch(req, name) {
            Ok(p) => {
                &&& p.name == name
                &&& feature_id(name) == Some(p.id)
                &&& api::json_body(req) matches Ok(body) && json::field(body, "value"@) == Some(
                    Json::Unsigned(p.value),
                )
            },
            Err(e) => if feature_id(name) is None {
                e == Failure::UnknownFeature
            } else {
                match api::json_body(req) {
                    Err(f) => e == f,
                    Ok(body) => e == Failure::MissingValue && !(json::field(body, "value"@) matches
                        Some(Json::Unsigned(_))),
                }
            },
        },
        feature_id(name) is Some && (api::json_body(req) matches Ok(body) && json::field(
            body,
            "value"@,
        ) == Some(Json::Unsigned(n))) ==> (feature_patch(req, name) matches Ok(p) && p.value == n),
{
}

/// What is asked for is what the driver is told, what is stored, and what is
/// answered; a driver or a store that fails is answered as such, and where the
/// driver fails nothing is read or stored.
pub proof fn law_patch_is_told_stored_and_answered(
    p: FeaturePatchView,
    config: Map<u32, u64>,
    other: u32,
)
    requires
        other != p.id,
    ensures
        patch_step(p, PatchEventView::Start) == (PatchStepView::SetFeature {
            id: p.id,
            value: p.value,
        }),
        patch_step(p, PatchEventView::FeatureSet(true)) == PatchStepView::LoadConfig,
        patch_step(p, PatchEventView::FeatureSet(false)) == PatchStepView::Done(
            Err(Failure::SetFeature),
        ),
        patch_step(p, PatchEventView::ConfigLoaded(config)) matches PatchStepView::SaveConfig(new)
            && {
            &&& new.contains_key(p.id) && new[p.id] == p.value
            &&& new.contains_key(other) <==> config.contains_key(other)
            &&& config.contains_key(other) ==> new[other] == config[other]
        },
        patch_step(p, PatchEventView::ConfigSaved(false)) == PatchStepView::Done(
            Err(Failure::SaveConfig),
        ),
        patch_step(p, PatchEventView::ConfigSaved(true)) matches PatchStepView::Done(Ok(answer))
            && {
            &&& json::field(answer, "ok"@) == Some(Json::Bool(true))
            &&& json::field(answer, "name"@) == Some(Json::Str(p.name))
            &&& json::field(answer, "value"@) == Some(Json::Unsigned(p.value))
            &&& forall|name: Seq<char>| #[trigger]
                json::field(answer, name) is Some ==> (name == "ok"@ || name == "name"@ || name
                    == "value"@)
        },
{
    reveal_strlit("ok");
    reveal_strlit("name");
    reveal_strlit("value");
    let f = seq![
        ("ok"@, Json::Bool(true)),
        ("name"@, Json::Str(p.name)),
        ("value"@, Json::Unsigned(p.value)),
    ];
    assert(f[0].0.len() == 2 && f[1].0.len() == 4 && f[2].0.len() == 5);
    assert(patched_json(p) == json::object_of(f));
    json::law_object_has_its_fields(f, Seq::empty());
    assert forall|name: Seq<char>| #[trigger] json::field(patched_json(p), name) is Some implies (
    name == "ok"@ || name == "name"@ || name == "value"@) by {
        json::law_object_has_its_fields(f, name);
    }
}

/// Stored features that were read are taken as they were read, and as none where
/// they could not be read.
pub proof fn law_unread_config_is_empty(config: HashMap<u32, u64>)
    ensures
        stored(Some(config)) == config@,
        stored(None) == Map::<u32, u64>::empty(),
{
}

/// The list of features holds, for each feature in order, its name, its number,
/// its description, and what the driver told of it: its value, whether that is
/// not 0, and whether it is supported; and where the driver did not tell, 0 and
/// not.
pub proof fn law_features_are_listed_as_told(
    readings: Seq<Option<(u64, bool)>>,
    i: int,
    name: Seq<char>,
)
    requires
        0 <= i < 6,
    ensures
        json::field(features_json(readings), name) is Some ==> name == "features"@,
        json::field(features_json(readings), "features"@) matches Some(Json::Array(listed)) && {
            &&& listed.len() == 6
            &&& json::field(listed[i], "name"@) == Some(Json::Str(features()[i].0))
            &&& json::field(listed[i], "id"@) == Some(Json::Unsigned(i as u64))
            &&& json::field(listed[i], "description"@) == Some(Json::Str(features()[i].2))
            &&& i < readings.len() ==> (readings[i] matches Some((value, supported)) ==> {
                &&& json::field(listed[i], "value"@) == Some(Json::Unsigned(value))
                &&& json::field(listed[i], "enabled"@) == Some(Json::Bool(value != 0))
                &&& json::field(listed[i], "supported"@) == Some(Json::Bool(supported))
            })
            &&& i >= readings.len() || readings[i] is None ==> {
                &&& json::field(listed[i], "value"@) == Some(Json::Unsigned(0))
                &&& json::field(listed[i], "enabled"@) == Some(Json::Bool(false))
                &&& json::field(listed[i], "supported"@) == Some(Json::Bool(false))
            }
            &&& json::field(listed[i], name) is Some ==> (name == "name"@ || name == "id"@ || name
                == "description"@ || name == "value"@ || name == "enabled"@ || name
                == "supported"@)
        },
{
    reveal_strlit("name");
    reveal_strlit("id");
    reveal_strlit("description");
    reveal_strlit("value");
    reveal_strlit("enabled");
    reveal_strlit("supported");
    let told = reading(readings, i);
    let f = seq![
        ("name"@, Json::Str(features()[i].0)),
        ("id"@, Json::Unsigned(features()[i].1 as u64)),
        ("description"@, Json::Str(features()[i].2)),
        ("value"@, Json::Unsigned(told.0)),
        ("enabled"@, Json::Bool(told.0 != 0)),
        ("supported"@, Json::Bool(told.1)),
    ];
    assert(f[0].0.len() == 4 && f[1].0.len() == 2 && f[2].0.len() == 11 && f[3].0.len() == 5
        && f[4].0.len() == 7 && f[5].0.len() == 9);
    assert(feature_json(features()[i], told) == json::object_of(f));
    json::law_object_has_its_fields(f, name);
    let all = Seq::new(
        features().len(),
        |k: int| feature_json(features()[k], reading(readings, k)),
    );
    let g = seq![("features"@, Json::Array(all))];
    assert(features_json(readings) == json::object_of(g));
    json::law_object_has_its_fields(g, name);
    assert(g[0].0 == "features"@);
    assert(all[i] == feature_json(features()[i], told));
    assert(features()[0].1 == 0 && features()[1].1 == 1 && features()[2].1 == 2 && features()[3].1
        == 3 && features()[4].1 == 4 && features()[5].1 == 5);
}

/// A name is that of a feature exactly where the table has it, and then its number
/// is the one that stands there.
pub proof fn law_names_are_looked_up_in_the_table(name: &str, i: int)
    requires
        0 <= i < 6,
    ensures
        features()[i].0 == name@ <==> feature_id_by_name(name) == Some(i as u32),
{
    law_only_features_have_numbers(name@);
    law_features_are_distinct(i, i);
    assert(features()[0].1 == 0 && features()[1].1 == 1 && features()[2].1 == 2 && features()[3].1
        == 3 && features()[4].1 == 4 && features()[5].1 == 5);
}

} // verus!
