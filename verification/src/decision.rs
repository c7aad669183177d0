//! Decisions on requests for root.
use crate::api::{ApiError, Failure};
use crate::http::{HttpRequest, RequestView};
use crate::json::Json;
use crate::su::{SuRequestView, WebState};
use crate::{api, json, text};
use serde_json::Value;
use vstd::prelude::*;

verus! {

/// A decision on a request for root that waits for one.
pub struct SuDecision {
    pub request_id: u64,
    pub allow: bool,
    pub remember: bool,
    /// The first package of the user who asked.
    pub package: Option<String>,
    /// The user who asked.
    pub uid: u32,
}

/// What a decision holds.
pub struct SuDecisionView {
    pub request_id: u64,
    pub allow: bool,
    pub remember: bool,
    pub package: Option<Seq<char>>,
    pub uid: u32,
}

impl View for SuDecision {
    type V = SuDecisionView;

    open spec fn view(&self) -> SuDecisionView {
        SuDecisionView {
            request_id: self.request_id,
            allow: self.allow,
            remember: self.remember,
            package: match self.package {
                Some(package) => Some(package@),
                None => None,
            },
            uid: self.uid,
        }
    }
}

/// What the body of a decision says: whether to allow, and whether to remember
/// that.
pub open spec fn decision_of(body: Json) -> Result<(bool, bool), Failure> {
    let remember = json::field(body, "remember"@) == Some(Json::Bool(true));
    match json::field(body, "decision"@) {
        Some(Json::Str(decision)) => if decision == "allow"@ {
            Ok((true, remember))
        } else if decision == "deny"@ {
            Ok((false, remember))
        } else {
            Err(Failure::UnknownDecision)
        },
        _ => Err(Failure::MissingDecision),
    }
}

/// What a decision on the request with the id `request_id` asks for.
pub open spec fn su_decision(
    req: RequestView,
    pending: Map<u64, SuRequestView>,
    request_id: u64,
) -> Result<SuDecisionView, Failure> {
    match api::json_body(req) {
        Err(e) => Err(e),
        Ok(body) => match decision_of(body) {
            Err(e) => Err(e),
            Ok((allow, remember)) => if pending.contains_key(request_id) {
                let packages = pending[request_id].packages;
                Ok(
                    SuDecisionView {
                        request_id,
                        allow,
                        remember,
                        package: if packages.len() > 0 {
                            Some(packages[0])
                        } else {
                            None
                        },
                        uid: pending[request_id].uid,
                    },
                )
            } else {
                Err(Failure::RequestNotFound)
            },
        },
    }
}

fn read_decision(body: &Value) -> (r: Result<(bool, bool), ApiError>)
    ensures
        match r {
            Ok(said) => decision_of(json::json(*body)) == Ok::<(bool, bool), Failure>(said),
            Err(e) => decision_of(json::json(*body)) == Err::<(bool, bool), Failure>(e@),
        },
{
    proof {
        reveal_strlit("allow");
        reveal_strlit("deny");
    }
    let decision = match json::json_get(body, "decision") {
        Some(decision) => match json::json_as_str(decision) {
            Some(decision) => decision,
            None => return Err(ApiError::MissingDecision),
        },
        None => return Err(ApiError::MissingDecision),
    };
    let allow = if text::str_eq(decision, "allow") {
        true
    } else if text::str_eq(decision, "deny") {
        false
    } else {
        return Err(ApiError::UnknownDecision);
    };
    let remember = match json::json_get(body, "remember") {
        Some(remember) => match json::json_as_bool(remember) {
            Some(remember) => remember,
            None => false,
        },
        None => false,
    };
    Ok((allow, remember))
}

/// Reads a decision on the request with the id `request_id`.
pub fn read_su_decision(req: &HttpRequest, state: &WebState, request_id: u64) -> (r: Result<
    SuDecision,
    ApiError,
>)
    ensures
        match r {
            Ok(decision) => su_decision(req@, state@, request_id) == Ok::<SuDecisionView, Failure>(
                decision@,
            ),
            Err(e) => su_decision(req@, state@, request_id) == Err::<SuDecisionView, Failure>(e@),
        },
{
    let body = match api::parse_json_body(req) {
        Ok(body) => body,
        Err(e) => return Err(e),
    };
    let (allow, remember) = match read_decision(&body) {
        Ok(said) => said,
        Err(e) => return Err(e),
    };
    let request = match state.get(request_id) {
        Some(request) => request,
        None => return Err(ApiError::RequestNotFound),
    };
    assert(request@.packages.len() == request.packages@.len());
    let package = if request.packages.len() > 0 {
        Some(request.packages[0].clone())
    } else {
        None
    };
    Ok(SuDecision { request_id, allow, remember, package, uid: request.uid })
}

/// What came of a decision so far.
#[derive(Clone, Copy, Debug, PartialEq, Eq, Structural)]
pub enum DecisionEvent {
    /// The decision was read.
    Start,
    /// The profile of the package was to be set; whether it was.
    Remembered(bool),
    /// The driver was told the decision; whether it took it.
    Responded(bool),
}

/// What to do next about a decision.
pub enum DecisionStep {
    /// Let this package of this user have root from now on.
    Remember { package: String, uid: u32 },
    /// Tell the driver the decision.
    Respond { request_id: u64, allow: bool },
    /// Answer.
    Done(Result<Value, ApiError>),
}

/// What is to be done next about a decision.
pub enum DecisionStepView {
    Remember { package: Seq<char>, uid: u32 },
    Respond { request_id: u64, allow: bool },
    Done(Result<Json, Failure>),
}

impl View for DecisionStep {
    type V = DecisionStepView;

    open spec fn view(&self) -> DecisionStepView {
        match *self {
            DecisionStep::Remember { package, uid } => DecisionStepView::Remember {
                package: package@,
                uid,
            },
            DecisionStep::Respond { request_id, allow } => DecisionStepView::Respond {
                request_id,
                allow,
            },
            DecisionStep::Done(r) => DecisionStepView::Done(api::answer(r)),
        }
    }
}

/// The answer once the driver has taken a decision.
pub open spec fn decided_json(decision: SuDecisionView) -> Json {
    json::object_of(
        seq![
            ("ok"@, Json::Bool(true)),
            ("request_id"@, Json::Unsigned(decision.request_id)),
            ("allow"@, Json::Bool(decision.allow)),
            ("remember"@, Json::Bool(decision.remember)),
        ],
    )
}

/// Whether a decision is to be remembered: one that allows, for a user who has
/// a package.
pub open spec fn to_be_remembered(decision: SuDecisionView) -> bool {
    decision.allow && decision.remember && decision.package is Some
}

/// What to do next about a decision, after what came of it so far.
pub open spec fn decision_step(decision: SuDecisionView, event: DecisionEvent) -> DecisionStepView {
    let respond = DecisionStepView::Respond {
        request_id: decision.request_id,
        allow: decision.allow,
    };
    match event {
        DecisionEvent::Start => if to_be_remembered(decision) {
            DecisionStepView::Remember { package: decision.package->0, uid: decision.uid }
        } else {
            respond
        },
        DecisionEvent::Remembered(ok) => if !ok && decision.package is Some {
            DecisionStepView::Done(Err(Failure::Remember(decision.package->0)))
        } else {
            respond
        },
        DecisionEvent::Responded(ok) => DecisionStepView::Done(
            if ok {
                Ok(decided_json(decision))
            } else {
                Err(Failure::Respond)
            },
        ),
    }
}

/// The requests that wait after what came of a decision.
pub open spec fn pending_after_event(
    pending: Map<u64, SuRequestView>,
    decision: SuDecisionView,
    event: DecisionEvent,
) -> Map<u64, SuRequestView> {
    match event {
        DecisionEvent::Responded(_) => pending.remove(decision.request_id),
        _ => pending,
    }
}

/// Carries out a decision: where it is to be remembered and the user has a
/// package, that is done first; then the driver is told; then, whether or not
/// the driver took it, the request no longer waits.
pub fn handle_su_decision(
    decision: &SuDecision,
    state: &mut WebState,
    event: DecisionEvent,
) -> (step: DecisionStep)
    ensures
        step@ == decision_step(decision@, event),
        final(state)@ == pending_after_event(old(state)@, decision@, event),
{
    match event {
        DecisionEvent::Start => {
            if decision.allow && decision.remember {
                if let Some(package) = &decision.package {
                    return DecisionStep::Remember { package: package.clone(), uid: decision.uid };
                }
            }
            DecisionStep::Respond { request_id: decision.request_id, allow: decision.allow }
        },
        DecisionEvent::Remembered(ok) => {
            if !ok {
                if let Some(package) = &decision.package {
                    return DecisionStep::Done(Err(ApiError::Remember(package.clone())));
                }
            }
            DecisionStep::Respond { request_id: decision.request_id, allow: decision.allow }
        },
        DecisionEvent::Responded(ok) => {
            state.remove(decision.request_id);
            if !ok {
                return DecisionStep::Done(Err(ApiError::Respond));
            }
            let fields = vec![
                ("ok".to_string(), json::json_bool(true)),
                ("request_id".to_string(), json::json_number(decision.request_id)),
                ("allow".to_string(), json::json_bool(decision.allow)),
                ("remember".to_string(), json::json_bool(decision.remember)),
            ];
            assert(json::field_views(fields@) =~= seq![
                ("ok"@, Json::Bool(true)),
                ("request_id"@, Json::Unsigned(decision.request_id)),
                ("allow"@, Json::Bool(decision.allow)),
                ("remember"@, Json::Bool(decision.remember)),
            ]);
            proof {
                reveal_strlit("ok");
                reveal_strlit("request_id");
                reveal_strlit("allow");
                reveal_strlit("remember");
                let views = json::field_views(fields@);
                assert(views[0].0.len() == 2 && views[1].0.len() == 10 && views[2].0.len() == 5
                    && views[3].0.len() == 8);
            }
            DecisionStep::Done(Ok(json::json_object(fields)))
        },
    }
}

/// What comes of a decision from `event` on, where `remembered` says whether the
/// profile can be set and `responded` whether the driver takes the decision: the
/// answer, the requests that wait then, and what the driver was told.
pub open spec fn decision_run(
    decision: SuDecisionView,
    pending: Map<u64, SuRequestView>,
    event: DecisionEvent,
    remembered: bool,
    responded: bool,
) -> (Result<Json, Failure>, Map<u64, SuRequestView>, Seq<(u64, bool)>)
    decreases
            match event {
                DecisionEvent::Start => 2int,
                DecisionEvent::Remembered(_) => 1int,
                DecisionEvent::Responded(_) => 0int,
            },
{
    let after = pending_after_event(pending, decision, event);
    match (decision_step(decision, event), event) {
        (DecisionStepView::Done(answer), _) => (answer, after, seq![]),
        (DecisionStepView::Remember { .. }, DecisionEvent::Start) => decision_run(
            decision,
            after,
            DecisionEvent::Remembered(remembered),
            remembered,
            responded,
        ),
        (DecisionStepView::Respond { request_id, allow }, DecisionEvent::Start) | (
            DecisionStepView::Respond { request_id, allow },
            DecisionEvent::Remembered(_),
        ) => {
            let (answer, rest, told) = decision_run(
                decision,
                after,
                DecisionEvent::Responded(responded),
                remembered,
                responded,
            );
            (answer, rest, seq![(request_id, allow)] + told)
        },
        _ => arbitrary(),
    }
}

/// A decision that is to be remembered and cannot be goes no further: the driver
/// is told nothing and the request waits on. Any other is told to the driver
/// once, and then the request no longer waits, whether or not the driver took
/// the decision.
pub proof fn law_decision_is_told_once(
    decision: SuDecisionView,
    pending: Map<u64, SuRequestView>,
    remembered: bool,
    responded: bool,
)
    ensures
        decision_run(decision, pending, DecisionEvent::Start, remembered, responded) == if
            to_be_remembered(decision) && !remembered {
            (
                Err::<Json, Failure>(Failure::Remember(decision.package->0)),
                pending,
                Seq::<(u64, bool)>::empty(),
            )
        } else {
            (
                if responded {
                    Ok::<Json, Failure>(decided_json(decision))
                } else {
                    Err::<Json, Failure>(Failure::Respond)
                },
                pending.remove(decision.request_id),
                seq![(decision.request_id, decision.allow)],
            )
        },
{
    reveal_with_fuel(decision_run, 3);
    let one = seq![(decision.request_id, decision.allow)];
    assert(one + Seq::<(u64, bool)>::empty() =~= one);
}

/// A request for root that has been decided no longer waits: a further decision
/// on it finds none, and the others wait as before.
pub proof fn law_decided_once(
    req: RequestView,
    pending: Map<u64, SuRequestView>,
    request_id: u64,
    other: u64,
)
    requires
        su_decision(req, pending, request_id) is Ok,
        other != request_id,
    ensures
        su_decision(req, pending.remove(request_id), request_id) == Err::<SuDecisionView, Failure>(
            Failure::RequestNotFound,
        ),
        su_decision(req, pending.remove(request_id), other) == su_decision(req, pending, other),
{
}

/// A decision says what its body says: it allows or denies by the word, and is
/// to be remembered only where the body says so with a truth value. Any other
/// word, and anything that is not a word, is refused.
pub proof fn law_decision_is_what_the_body_says(body: Json)
    ensures
        decision_of(body) is Ok <==> (json::field(body, "decision"@) == Some(Json::Str("allow"@))
            || json::field(body, "decision"@) == Some(Json::Str("deny"@))),
        decision_of(body) matches Ok((allow, remember)) ==> {
            &&& allow <==> json::field(body, "decision"@) == Some(Json::Str("allow"@))
            &&& json::field(body, "remember"@) matches Some(Json::Bool(b)) ==> remember == b
            &&& !(json::field(body, "remember"@) matches Some(Json::Bool(_))) ==> !remember
        },
        decision_of(body) matches Err(e) ==> {
            &&& e == Failure::UnknownDecision || e == Failure::MissingDecision
            &&& e == Failure::UnknownDecision <==> json::field(body, "decision"@) matches Some(
                Json::Str(_),
            )
        },
{
    reveal_strlit("allow");
    reveal_strlit("deny");
    assert("allow"@.len() == 5 && "deny"@.len() == 4);
}

/// A decision is about the request with its id, which waits, and about the user
/// and the first package of that request; it says what the body of its request
/// says, and what cannot be read or found is refused in that order.
pub proof fn law_decision_is_about_its_request(
    req: RequestView,
    pending: Map<u64, SuRequestView>,
    request_id: u64,
)
    ensures
        match su_decision(req, pending, request_id) {
            Ok(d) => {
                &&& api::json_body(req) is Ok
                &&& pending.contains_key(request_id)
                &&& d.request_id == request_id
                &&& d.uid == pending[request_id].uid
                &&& pending[request_id].packages.len() == 0 ==> d.package is None
                &&& pending[request_id].packages.len() > 0 ==> d.package == Some(
                    pending[request_id].packages[0],
                )
                &&& json::field(api::json_body(req)->Ok_0, "decision"@) == Some(
                    Json::Str(
                        if d.allow {
                            "allow"@
                        } else {
                            "deny"@
                        },
                    ),
                )
                &&& d.remember <==> json::field(api::json_body(req)->Ok_0, "remember"@) == Some(
                    Json::Bool(true),
                )
            },
            Err(e) => match api::json_body(req) {
                Err(f) => e == f,
                Ok(body) => if json::field(body, "decision"@) == Some(Json::Str("allow"@))
                    || json::field(body, "decision"@) == Some(Json::Str("deny"@)) {
                    e == Failure::RequestNotFound && !pending.contains_key(request_id)
                } else {
                    e == Failure::UnknownDecision || e == Failure::MissingDecision
                },
            },
        },
{
    if let Ok(body) = api::json_body(req) {
        law_decision_is_what_the_body_says(body);
    }
}

/// A profile is set only for a decision that allows and whose body says that it
/// is to be remembered, and then for the first package of the user who asked;
/// any other decision goes to the driver at once.
pub proof fn law_only_remembered_decisions_set_a_profile(
    req: RequestView,
    pending: Map<u64, SuRequestView>,
    request_id: u64,
)
    requires
        su_decision(req, pending, request_id) is Ok,
    ensures
        ({
            let body = api::json_body(req)->Ok_0;
            let asked = pending[request_id];
            let allow = json::field(body, "decision"@) == Some(Json::Str("allow"@));
            let step = decision_step(
                su_decision(req, pending, request_id)->Ok_0,
                DecisionEvent::Start,
            );
            if allow && json::field(body, "remember"@) == Some(Json::Bool(true))
                && asked.packages.len() > 0 {
                step == (DecisionStepView::Remember { package: asked.packages[0], uid: asked.uid })
            } else {
                step == (DecisionStepView::Respond { request_id, allow })
            }
        }),
{
    law_decision_is_about_its_request(req, pending, request_id);
    reveal_strlit("allow");
    reveal_strlit("deny");
    assert("allow"@.len() == 5 && "deny"@.len() == 4);
}

/// The driver is told the id and the word of the decision once the profile is
/// set, an error names the package whose profile could not be set, and what the
/// driver makes of it is answered.
pub proof fn law_decision_is_answered_as_it_was_taken(d: SuDecisionView)
    ensures
        decision_step(d, DecisionEvent::Remembered(true)) == (DecisionStepView::Respond {
            request_id: d.request_id,
            allow: d.allow,
        }),
        d.package matches Some(package) ==> decision_step(d, DecisionEvent::Remembered(false))
            == DecisionStepView::Done(Err(Failure::Remember(package))),
        d.package is None ==> decision_step(d, DecisionEvent::Remembered(false)) == (
        DecisionStepView::Respond { request_id: d.request_id, allow: d.allow }),
        decision_step(d, DecisionEvent::Responded(false)) == DecisionStepView::Done(
            Err(Failure::Respond),
        ),
        decision_step(d, DecisionEvent::Responded(true)) matches DecisionStepView::Done(Ok(answer))
            && {
            &&& json::field(answer, "ok"@) == Some(Json::Bool(true))
            &&& json::field(answer, "request_id"@) == Some(Json::Unsigned(d.request_id))
            &&& json::field(answer, "allow"@) == Some(Json::Bool(d.allow))
            &&& json::field(answer, "remember"@) == Some(Json::Bool(d.remember))
            &&& forall|name: Seq<char>| #[trigger]
                json::field(answer, name) is Some ==> (name == "ok"@ || name == "request_id"@
                    || name == "allow"@ || name == "remember"@)
        },
{
    reveal_strlit("ok");
    reveal_strlit("request_id");
    reveal_strlit("allow");
    reveal_strlit("remember");
    let f = seq![
        ("ok"@, Json::Bool(true)),
        ("request_id"@, Json::Unsigned(d.request_id)),
        ("allow"@, Json::Bool(d.allow)),
        ("remember"@, Json::Bool(d.remember)),
    ];
    assert(f[0].0.len() == 2 && f[1].0.len() == 10 && f[2].0.len() == 5 && f[3].0.len() == 8);
    assert(decided_json(d) == json::object_of(f));
    json::law_object_has_its_fields(f, Seq::empty());
    assert forall|name: Seq<char>| #[trigger] json::field(decided_json(d), name) is Some implies (
    name == "ok"@ || name == "request_id"@ || name == "allow"@ || name == "remember"@) by {
        json::law_object_has_its_fields(f, name);
    }
}

/// Only the answer of the driver takes a request off those that wait, and only
/// the request that was decided.
pub proof fn law_only_the_answer_ends_the_wait(
    pending: Map<u64, SuRequestView>,
    d: SuDecisionView,
    ok: bool,
    other: u64,
)
    requires
        other != d.request_id,
    ensures
        pending_after_event(pending, d, DecisionEvent::Start) == pending,
        pending_after_event(pending, d, DecisionEvent::Remembered(ok)) == pending,
        !pending_after_event(pending, d, DecisionEvent::Responded(ok)).contains_key(d.request_id),
        pending_after_event(pending, d, DecisionEvent::Responded(ok)).contains_key(other)
            <==> pending.contains_key(other),
        pending.contains_key(other) ==> pending_after_event(
            pending,
            d,
            DecisionEvent::Responded(ok),
        )[other] == pending[other],
{
}

} // verus!
