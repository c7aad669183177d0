//! Modules: listing them and doing something with them.
use crate::api::{ApiError, Failure};
use crate::json::Json;
use crate::{api, json, text};
use serde_json::Value;
use vstd::prelude::*;

verus! {

/// The modules, as a JSON object.
pub open spec fn modules_json(listed: Json) -> Json {
    json::object_of(seq![("modules"@, listed)])
}

/// Answers with the modules, given the JSON array of them.
pub fn handle_modules(modules: Value) -> (r: Value)
    ensures
        json::json(r) == modules_json(json::json(modules)),
{
    let ghost listed = json::json(modules);
    let fields = vec![("modules".to_string(), modules)];
    assert(json::field_views(fields@) =~= seq![("modules"@, listed)]);
    json::json_object(fields)
}

/// A request to do something with a module.
pub struct ModuleAction {
    pub id: String,
    pub action: String,
}

/// What a request to do something with a module holds.
pub struct ModuleActionView {
    pub id: Seq<char>,
    pub action: Seq<char>,
}

impl View for ModuleAction {
    type V = ModuleActionView;

    open spec fn view(&self) -> ModuleActionView {
        ModuleActionView { id: self.id@, action: self.action@ }
    }
}

/// What can be done with a module.
#[derive(Clone, Copy, Debug, PartialEq, Eq, Structural)]
pub enum ModuleOperation {
    Enable,
    Disable,
    Uninstall,
}

/// What came of a request to do something with a module so far.
pub enum ModuleEvent {
    /// The request was read.
    Start,
    /// The id was checked: it is one of a module, or not, for this reason.
    Validated(Result<(), String>),
    /// The global mount namespace was to be entered; whether it was.
    NamespaceSwitched(bool),
    /// The operation was performed, or failed with this message.
    Performed(Result<(), String>),
}

/// What to do next about a module.
pub enum ModuleStep {
    /// Check the id.
    Validate,
    /// Enter the global mount namespace.
    SwitchNamespace,
    /// Perform this operation on the module.
    Perform(ModuleOperation),
    /// Answer.
    Done(Result<Value, ApiError>),
}

/// Success, or the text of a failure.
pub open spec fn outcome_text(r: Result<(), String>) -> Result<(), Seq<char>> {
    match r {
        Ok(_) => Ok(()),
        Err(e) => Err(e@),
    }
}

/// What came of a request to do something with a module.
pub enum ModuleEventView {
    Start,
    Validated(Result<(), Seq<char>>),
    NamespaceSwitched(bool),
    Performed(Result<(), Seq<char>>),
}

impl View for ModuleEvent {
    type V = ModuleEventView;

    open spec fn view(&self) -> ModuleEventView {
        match *self {
            ModuleEvent::Start => ModuleEventView::Start,
            ModuleEvent::Validated(r) => ModuleEventView::Validated(outcome_text(r)),
            ModuleEvent::NamespaceSwitched(ok) => ModuleEventView::NamespaceSwitched(ok),
            ModuleEvent::Performed(r) => ModuleEventView::Performed(outcome_text(r)),
        }
    }
}

/// What is to be done next about a module.
pub enum ModuleStepView {
    Validate,
    SwitchNamespace,
    Perform(ModuleOperation),
    Done(Result<Json, Failure>),
}

impl View for ModuleStep {
    type V = ModuleStepView;

    open spec fn view(&self) -> ModuleStepView {
        match *self {
            ModuleStep::Validate => ModuleStepView::Validate,
            ModuleStep::SwitchNamespace => ModuleStepView::SwitchNamespace,
            ModuleStep::Perform(op) => ModuleStepView::Perform(op),
            ModuleStep::Done(r) => ModuleStepView::Done(api::answer(r)),
        }
    }
}

/// The operation that an action names.
pub open spec fn operation(action: Seq<char>) -> Option<ModuleOperation> {
    if action == "enable"@ {
        Some(ModuleOperation::Enable)
    } else if action == "disable"@ {
        Some(ModuleOperation::Disable)
    } else if action == "uninstall"@ {
        Some(ModuleOperation::Uninstall)
    } else {
        None
    }
}

/// The answer once something was done with a module.
pub open spec fn module_json(task: ModuleActionView) -> Json {
    json::object_of(
        seq![
            ("ok"@, Json::Bool(true)),
            ("id"@, Json::Str(task.id)),
            ("action"@, Json::Str(task.action)),
        ],
    )
}

/// What to do next about a module, after what came of it so far.
pub open spec fn module_step(task: ModuleActionView, event: ModuleEventView) -> ModuleStepView {
    match event {
        ModuleEventView::Start => ModuleStepView::Validate,
        ModuleEventView::Validated(Ok(_)) => ModuleStepView::SwitchNamespace,
        ModuleEventView::Validated(Err(e)) => ModuleStepView::Done(Err(Failure::Module(e))),
        ModuleEventView::NamespaceSwitched(ok) => if !ok {
            ModuleStepView::Done(Err(Failure::SwitchNamespace))
        } else {
            match operation(task.action) {
                Some(op) => ModuleStepView::Perform(op),
                None => ModuleStepView::Done(Err(Failure::UnknownModuleAction)),
            }
        },
        ModuleEventView::Performed(Ok(_)) => ModuleStepView::Done(Ok(module_json(task))),
        ModuleEventView::Performed(Err(e)) => ModuleStepView::Done(Err(Failure::Module(e))),
    }
}

/// Does something with a module: the id is checked first, then the global
/// mount namespace entered, and only then is it asked what the action names.
pub fn handle_module_action(task: &ModuleAction, event: ModuleEvent) -> (step: ModuleStep)
    ensures
        step@ == module_step(task@, event@),
{
    match event {
        ModuleEvent::Start => ModuleStep::Validate,
        ModuleEvent::Validated(Ok(_)) => ModuleStep::SwitchNamespace,
        ModuleEvent::Validated(Err(e)) => ModuleStep::Done(Err(ApiError::Module(e))),
        ModuleEvent::NamespaceSwitched(ok) => {
            let action = task.action.as_str();
            if !ok {
                ModuleStep::Done(Err(ApiError::SwitchNamespace))
            } else if text::str_eq(action, "enable") {
                ModuleStep::Perform(ModuleOperation::Enable)
            } else if text::str_eq(action, "disable") {
                ModuleStep::Perform(ModuleOperation::Disable)
            } else if text::str_eq(action, "uninstall") {
                ModuleStep::Perform(ModuleOperation::Uninstall)
            } else {
                ModuleStep::Done(Err(ApiError::UnknownModuleAction))
            }
        },
        ModuleEvent::Performed(Ok(_)) => {
            let fields = vec![
                ("ok".to_string(), json::json_bool(true)),
                ("id".to_string(), json::json_string(task.id.as_str())),
                ("action".to_string(), json::json_string(task.action.as_str())),
            ];
            assert(json::field_views(fields@) =~= seq![
                ("ok"@, Json::Bool(true)),
                ("id"@, Json::Str(task.id@)),
                ("action"@, Json::Str(task.action@)),
            ]);
            proof {
                reveal_strlit("ok");
                reveal_strlit("id");
                reveal_strlit("action");
                let views = json::field_views(fields@);
                assert(views[0].0.len() == 2 && views[1].0.len() == 2 && views[2].0.len() == 6
                    && views[0].0[0] == 'o' && views[1].0[0] == 'i');
            }
            ModuleStep::Done(Ok(json::json_object(fields)))
        },
        ModuleEvent::Performed(Err(e)) => ModuleStep::Done(Err(ApiError::Module(e))),
    }
}

/// What comes of a request to do something with a module from `event` on, given
/// what comes of the check of the id, of the change of the namespace, and of the
/// operation: the answer, and the operation that is performed.
pub open spec fn module_run(
    task: ModuleActionView,
    event: ModuleEventView,
    validated: Result<(), Seq<char>>,
    switched: bool,
    performed: Result<(), Seq<char>>,
) -> (Result<Json, Failure>, Option<ModuleOperation>)
    decreases
            match event {
                ModuleEventView::Start => 3int,
                ModuleEventView::Validated(_) => 2int,
                ModuleEventView::NamespaceSwitched(_) => 1int,
                ModuleEventView::Performed(_) => 0int,
            },
{
    match (module_step(task, event), event) {
        (ModuleStepView::Done(answer), _) => (answer, None),
        (ModuleStepView::Validate, ModuleEventView::Start) => module_run(
            task,
            ModuleEventView::Validated(validated),
            validated,
            switched,
            performed,
        ),
        (ModuleStepView::SwitchNamespace, ModuleEventView::Validated(_)) => module_run(
            task,
            ModuleEventView::NamespaceSwitched(switched),
            validated,
            switched,
            performed,
        ),
        (ModuleStepView::Perform(op), ModuleEventView::NamespaceSwitched(_)) => (
            module_run(
                task,
                ModuleEventView::Performed(performed),
                validated,
                switched,
                performed,
            ).0,
            Some(op),
        ),
        _ => arbitrary(),
    }
}

/// An operation is performed on a module only where its id is one of a module,
/// the global mount namespace could be entered, and the action names the
/// operation; then the answer is that of the operation.
pub proof fn law_operation_follows_the_checks(
    task: ModuleActionView,
    validated: Result<(), Seq<char>>,
    switched: bool,
    performed: Result<(), Seq<char>>,
)
    ensures
        module_run(task, ModuleEventView::Start, validated, switched, performed) == match
            validated {
            Err(e) => (Err::<Json, Failure>(Failure::Module(e)), None::<ModuleOperation>),
            Ok(_) => if !switched {
                (Err(Failure::SwitchNamespace), None)
            } else {
                match operation(task.action) {
                    None => (Err(Failure::UnknownModuleAction), None),
                    Some(op) => (
                        match performed {
                            Ok(_) => Ok(module_json(task)),
                            Err(e) => Err(Failure::Module(e)),
                        },
                        Some(op),
                    ),
                }
            },
        },
{
    reveal_with_fuel(module_run, 4);
}

/// The list of modules is answered as it is, and nothing else.
pub proof fn law_modules_are_listed_as_they_are(listed: Json, name: Seq<char>)
    ensures
        json::field(modules_json(listed), "modules"@) == Some(listed),
        json::field(modules_json(listed), name) is Some ==> name == "modules"@,
{
    let f = seq![("modules"@, listed)];
    json::law_object_has_its_fields(f, name);
    assert(f[0].0 == "modules"@);
}

/// What is to be performed is what the action names, by one of three words.
pub proof fn law_actions_are_three_words(action: Seq<char>)
    ensures
        operation(action) == Some(ModuleOperation::Enable) <==> action == "enable"@,
        operation(action) == Some(ModuleOperation::Disable) <==> action == "disable"@,
        operation(action) == Some(ModuleOperation::Uninstall) <==> action == "uninstall"@,
{
    reveal_strlit("enable");
    reveal_strlit("disable");
    reveal_strlit("uninstall");
    assert("enable"@.len() == 6 && "disable"@.len() == 7 && "uninstall"@.len() == 9);
}

/// The id is checked first and the namespace entered next; then the operation
/// that the action names is performed; and each failure is answered with its own
/// words, success with the id and the action.
pub proof fn law_module_action_is_answered(task: ModuleActionView, e: Seq<char>)
    ensures
        module_step(task, ModuleEventView::Start) == ModuleStepView::Validate,
        module_step(task, ModuleEventView::Validated(Ok(()))) == ModuleStepView::SwitchNamespace,
        module_step(task, ModuleEventView::Validated(Err(e))) == ModuleStepView::Done(
            Err(Failure::Module(e)),
        ),
        module_step(task, ModuleEventView::NamespaceSwitched(false)) == ModuleStepView::Done(
            Err(Failure::SwitchNamespace),
        ),
        module_step(task, ModuleEventView::NamespaceSwitched(true)) == if task.action
            == "enable"@ {
            ModuleStepView::Perform(ModuleOperation::Enable)
        } else if task.action == "disable"@ {
            ModuleStepView::Perform(ModuleOperation::Disable)
        } else if task.action == "uninstall"@ {
            ModuleStepView::Perform(ModuleOperation::Uninstall)
        } else {
            ModuleStepView::Done(Err(Failure::UnknownModuleAction))
        },
        module_step(task, ModuleEventView::Performed(Err(e))) == ModuleStepView::Done(
            Err(Failure::Module(e)),
        ),
        module_step(task, ModuleEventView::Performed(Ok(()))) matches ModuleStepView::Done(
            Ok(answer),
        ) && {
            &&& json::field(answer, "ok"@) == Some(Json::Bool(true))
            &&& json::field(answer, "id"@) == Some(Json::Str(task.id))
            &&& json::field(answer, "action"@) == Some(Json::Str(task.action))
            &&& forall|name: Seq<char>| #[trigger]
                json::field(answer, name) is Some ==> (name == "ok"@ || name == "id"@ || name
                    == "action"@)
        },
{
    reveal_strlit("ok");
    reveal_strlit("id");
    reveal_strlit("action");
    let f = seq![
        ("ok"@, Json::Bool(true)),
        ("id"@, Json::Str(task.id)),
        ("action"@, Json::Str(task.action)),
    ];
    assert(f[0].0.len() == 2 && f[1].0.len() == 2 && f[2].0.len() == 6);
    assert(f[0].0[0] == 'o' && f[1].0[0] == 'i');
    assert(module_json(task) == json::object_of(f));
    json::law_object_has_its_fields(f, Seq::empty());
    assert forall|name: Seq<char>| #[trigger] json::field(module_json(task), name) is Some implies (
    name == "ok"@ || name == "id"@ || name == "action"@) by {
        json::law_object_has_its_fields(f, name);
    }
    law_actions_are_three_words(task.action);
}

/// The text of a failure is kept as it is.
pub proof fn law_failures_keep_their_text(e: String)
    ensures
        outcome_text(Ok(())) is Ok,
        outcome_text(Err(e)) == Err::<(), Seq<char>>(e@),
{
}

} // verus!
