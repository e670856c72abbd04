//! Adding a source to a scene.
//!
//! The kind must be one that OBS knows. If a source of that name exists, it is added to the scene,
//! provided it is of the kind that was asked for: to be given another kind under the same name
//! without a word would mislead someone who cannot see the result.
use vstd::prelude::*;
use crate::api;
use crate::api::{ApiError, Refusal};
use crate::donations;
use crate::donations::ObsReply;
use crate::json;
use crate::json::{Fields, Json};
use crate::oauth;
use crate::obs;
use crate::text;

verus! {

/// Whether OBS knows a kind of input, from its list of kinds.
pub open spec fn knows_kind(kinds: json::JsonV, kind: Seq<char>) -> bool {
    kinds.items_at("inputKinds"@).contains(json::JsonV::Str(kind))
}

/// Whether OBS knows a kind of input, from its list of kinds.
pub fn input_kind_exists(kinds: &Json, input_kind: &str) -> (r: bool)
    ensures
        r == knows_kind(kinds@, input_kind@),
{
    let items = match kinds.get_array("inputKinds") {
        Some(items) => items,
        None => {
            return false;
        },
    };
    let ghost all = json::items_view(items@);
    let mut i: usize = 0;
    while i < items.len()
        invariant
            i <= items.len(),
            all == json::items_view(items@),
            kinds@.items_at("inputKinds"@) == all,
            forall|k: int| 0 <= k < i ==> (#[trigger] all[k]) != json::JsonV::Str(input_kind@),
        decreases items.len() - i,
    {
        assert(all[i as int] == items@[i as int]@);
        if let Some(s) = items[i].as_str() {
            if text::same(s, input_kind) {
                assert(all[i as int] == json::JsonV::Str(input_kind@));
                return true;
            }
        }
        i = i + 1;
    }
    false
}

/// The kind of an input, from the list of inputs.
pub open spec fn kind_of_input(inputs: json::JsonV, name: Seq<char>) -> Option<Seq<char>> {
    match json::first_with_text(inputs.items_at("inputs"@), "inputName"@, name) {
        Some(input) => input.text_at("inputKind"@),
        None => None,
    }
}

/// The kind of an input, from the list of inputs.
pub fn existing_input_kind(inputs: &Json, input_name: &str) -> (r: Option<String>)
    ensures
        text::opt_view(r) == kind_of_input(inputs@, input_name@),
{
    match inputs.find_with_text("inputs", "inputName", input_name) {
        Some(input) => input.get_text("inputKind"),
        None => None,
    }
}

/// What is to be added, and where.
#[derive(Debug)]
pub struct SourceRequest {
    pub scene: String,
    pub source: String,
    pub kind: String,
}

/// Why a request to add a source is refused at once, if it is.
pub open spec fn create_refusal(body: json::JsonV) -> Option<Seq<char>> {
    if oauth::required(body, "sceneName"@) is None {
        Some("sceneName обязателен"@)
    } else if oauth::required(body, "sourceName"@) is None {
        Some("Название источника обязательно"@)
    } else if oauth::required(body, "inputKind"@) is None {
        Some("Тип источника обязателен"@)
    } else {
        None
    }
}

/// Where the work stands: what is being waited for.
#[derive(Debug, Clone, Copy, PartialEq, Eq, Structural)]
pub enum CreateStage {
    /// The kinds that OBS knows.
    Kinds,
    /// The inputs that exist.
    Inputs,
    /// The items of the scene.
    Items,
    /// The existing source being added.
    AddItem,
    /// The source being created.
    Create,
}

/// What is to be done next.
pub enum CreateStep {
    /// Send this request and go on at the stage.
    Ask { request_type: &'static str, data: Json, next: CreateStage },
    /// This is the answer.
    Done(Result<Json, Refusal>),
}

/// What is to be done next.
#[verifier::ext_equal]
pub enum CreateV {
    Ask(Seq<char>, json::JsonV, CreateStage),
    Done(Result<json::JsonV, api::RefusalV>),
}

impl View for CreateStep {
    type V = CreateV;

    open spec fn view(&self) -> CreateV {
        match *self {
            CreateStep::Ask { request_type, data, next } => CreateV::Ask(
                request_type@,
                data@,
                next,
            ),
            CreateStep::Done(r) => CreateV::Done(api::answer_view(r)),
        }
    }
}

/// What to say when the name is taken by a source of another kind.
pub open spec fn name_conflict(source: Seq<char>, existing: Seq<char>, kind: Seq<char>) -> Seq<
    char,
> {
    "Имя «"@ + source + "» уже занято источником типа "@ + existing + ", а вы создаёте "@ + kind
        + ". Выберите другое имя или добавьте существующий источник в сцену."@
}

/// The answer when an existing source was added, or lay in the scene already.
pub open spec fn existing_answer(req: SourceRequest, id: i64, created: bool) -> json::JsonV {
    json::JsonV::Object(
        map![
            "inputKind"@ => json::JsonV::Str(req.kind@),
            "inputName"@ => json::JsonV::Str(req.source@),
            "sceneItemId"@ => json::JsonV::Int(id),
            "createdInput"@ => json::JsonV::Bool(false),
            "createdSceneItem"@ => json::JsonV::Bool(created),
            "alreadyExisted"@ => json::JsonV::Bool(true),
        ],
    )
}

/// The answer when the source was created.
pub open spec fn created_answer(req: SourceRequest, response: json::JsonV) -> json::JsonV {
    json::JsonV::Object(
        map![
            "inputKind"@ => json::JsonV::Str(req.kind@),
            "inputName"@ => json::JsonV::Str(req.source@),
            "sceneItemId"@ => match response.int_at("sceneItemId"@) {
                Some(id) => json::JsonV::Int(id),
                None => json::JsonV::Null,
            },
            "createdInput"@ => json::JsonV::Bool(true),
            "createdSceneItem"@ => json::JsonV::Bool(true),
            "alreadyExisted"@ => json::JsonV::Bool(false),
            "obs"@ => response,
        ],
    )
}

/// The data of the request that creates the source.
pub open spec fn creation_data(req: SourceRequest) -> json::JsonV {
    json::JsonV::Object(
        map![
            "sceneName"@ => json::JsonV::Str(req.scene@),
            "inputName"@ => json::JsonV::Str(req.source@),
            "inputKind"@ => json::JsonV::Str(req.kind@),
            "inputSettings"@ => obs::empty_object(),
            "sceneItemEnabled"@ => json::JsonV::Bool(true),
        ],
    )
}

/// What to say when an existing source could not be added.
pub open spec fn not_added() -> Seq<char> {
    "Не удалось добавить существующий источник в сцену"@
}

/// The first request: which kinds does OBS know?
pub open spec fn first_question() -> CreateV {
    CreateV::Ask(
        "GetInputKindList"@,
        json::JsonV::Object(map!["unversioned"@ => json::JsonV::Bool(false)]),
        CreateStage::Kinds,
    )
}

/// What follows a reply.
pub open spec fn create_meaning(
    req: SourceRequest,
    stage: CreateStage,
    reply: donations::ReplyV,
) -> CreateV {
    match (stage, reply) {
        (CreateStage::Kinds, Err(e)) => CreateV::Done(
            Err(api::failure("Не удалось получить типы источников OBS"@, e)),
        ),
        (CreateStage::Kinds, Ok(kinds)) => if knows_kind(kinds, req.kind@) {
            CreateV::Ask("GetInputList"@, obs::empty_object(), CreateStage::Inputs)
        } else {
            CreateV::Done(
                Err(
                    api::bad_request(
                        "OBS не вернул тип источника `"@ + req.kind@
                            + "`. Обновите список типов и выберите источник из него."@,
                    ),
                ),
            )
        },
        (CreateStage::Inputs, Err(e)) => CreateV::Done(
            Err(api::failure("Не удалось проверить существующие источники"@, e)),
        ),
        (CreateStage::Inputs, Ok(inputs)) => match kind_of_input(inputs, req.source@) {
            Some(existing) => if existing == req.kind@ {
                CreateV::Ask(
                    "GetSceneItemList"@,
                    json::JsonV::Object(map!["sceneName"@ => json::JsonV::Str(req.scene@)]),
                    CreateStage::Items,
                )
            } else {
                CreateV::Done(
                    Err(
                        api::RefusalV {
                            status: 409,
                            error: api::ErrorV {
                                message: name_conflict(req.source@, existing, req.kind@),
                                detail: None,
                            },
                        },
                    ),
                )
            },
            None => CreateV::Ask("CreateInput"@, creation_data(req), CreateStage::Create),
        },
        (CreateStage::Items, Err(e)) => CreateV::Done(Err(api::failure(not_added(), e))),
        (CreateStage::Items, Ok(items)) => match donations::item_id(items, req.source@) {
            Some(id) => CreateV::Done(Ok(existing_answer(req, id, false))),
            None => CreateV::Ask(
                "CreateSceneItem"@,
                json::JsonV::Object(
                    map![
                        "sceneName"@ => json::JsonV::Str(req.scene@),
                        "sourceName"@ => json::JsonV::Str(req.source@),
                        "sceneItemEnabled"@ => json::JsonV::Bool(true),
                    ],
                ),
                CreateStage::AddItem,
            ),
        },
        (CreateStage::AddItem, Err(e)) => CreateV::Done(Err(api::failure(not_added(), e))),
        (CreateStage::AddItem, Ok(v)) => match v.int_at("sceneItemId"@) {
            Some(id) => CreateV::Done(Ok(existing_answer(req, id, true))),
            None => CreateV::Done(
                Err(
                    api::failure(not_added(), "OBS не вернул id созданного элемента сцены"@),
                ),
            ),
        },
        (CreateStage::Create, Err(e)) => CreateV::Done(
            Err(api::failure("Не удалось создать источник"@, e)),
        ),
        (CreateStage::Create, Ok(v)) => CreateV::Done(Ok(created_answer(req, v))),
    }
}

fn existing_json(req: &SourceRequest, id: i64, created: bool) -> (r: Json)
    ensures
        r@ == existing_answer(*req, id, created),
{
    Fields::new().put("inputKind", Json::text(req.kind.as_str())).put(
        "inputName",
        Json::text(req.source.as_str()),
    ).put("sceneItemId", Json::Int(id)).put("createdInput", Json::Bool(false)).put(
        "createdSceneItem",
        Json::Bool(created),
    ).put("alreadyExisted", Json::Bool(true)).json()
}

fn created_json(req: &SourceRequest, response: &Json) -> (r: Json)
    ensures
        r@ == created_answer(*req, response@),
{
    let id = match response.get_int("sceneItemId") {
        Some(id) => Json::Int(id),
        None => Json::Null,
    };
    Fields::new().put("inputKind", Json::text(req.kind.as_str())).put(
        "inputName",
        Json::text(req.source.as_str()),
    ).put("sceneItemId", id).put("createdInput", Json::Bool(true)).put(
        "createdSceneItem",
        Json::Bool(true),
    ).put("alreadyExisted", Json::Bool(false)).put("obs", response.copy()).json()
}

fn done(r: Result<Json, Refusal>) -> (s: CreateStep)
    ensures
        s@ == CreateV::Done(api::answer_view(r)),
{
    CreateStep::Done(r)
}

/// Takes a request to add a source.
pub fn obs_source_create(body: &Json) -> (r: Result<(SourceRequest, CreateStep), Refusal>)
    ensures
        match r {
            Ok(p) => {
                &&& create_refusal(body@) is None
                &&& oauth::required(body@, "sceneName"@) == Some(p.0.scene@)
                &&& oauth::required(body@, "sourceName"@) == Some(p.0.source@)
                &&& oauth::required(body@, "inputKind"@) == Some(p.0.kind@)
                &&& p.1@ == first_question()
            },
            Err(e) => create_refusal(body@) is Some && e@ == api::bad_request(
                create_refusal(body@)->0,
            ),
        },
{
    let scene = match oauth::required_trimmed(body, "sceneName", "sceneName обязателен") {
        Ok(s) => s,
        Err(e) => {
            return Err(api::bad(e.as_str()));
        },
    };
    let source = match oauth::required_trimmed(
        body,
        "sourceName",
        "Название источника обязательно",
    ) {
        Ok(s) => s,
        Err(e) => {
            return Err(api::bad(e.as_str()));
        },
    };
    let kind = match oauth::required_trimmed(body, "inputKind", "Тип источника обязателен") {
        Ok(s) => s,
        Err(e) => {
            return Err(api::bad(e.as_str()));
        },
    };
    let step = CreateStep::Ask {
        request_type: "GetInputKindList",
        data: Fields::new().put("unversioned", Json::Bool(false)).json(),
        next: CreateStage::Kinds,
    };
    Ok((SourceRequest { scene, source, kind }, step))
}

fn after_kinds(req: &SourceRequest, reply: &ObsReply) -> (r: CreateStep)
    ensures
        r@ == create_meaning(*req, CreateStage::Kinds, donations::reply_view(*reply)),
{
    match reply {
        Err(e) => done(Err(api::err("Не удалось получить типы источников OBS", e.as_str()))),
        Ok(kinds) => if input_kind_exists(kinds, req.kind.as_str()) {
            CreateStep::Ask {
                request_type: "GetInputList",
                data: obs::no_fields(),
                next: CreateStage::Inputs,
            }
        } else {
            let message = text::join3(
                "OBS не вернул тип источника `",
                req.kind.as_str(),
                "`. Обновите список типов и выберите источник из него.",
            );
            done(Err(api::bad(message.as_str())))
        },
    }
}

fn after_inputs(req: &SourceRequest, reply: &ObsReply) -> (r: CreateStep)
    ensures
        r@ == create_meaning(*req, CreateStage::Inputs, donations::reply_view(*reply)),
{
    let inputs = match reply {
        Ok(v) => v,
        Err(e) => {
            return done(
                Err(api::err("Не удалось проверить существующие источники", e.as_str())),
            );
        },
    };
    match existing_input_kind(inputs, req.source.as_str()) {
        Some(existing) => if text::same(existing.as_str(), req.kind.as_str()) {
            CreateStep::Ask {
                request_type: "GetSceneItemList",
                data: Fields::new().put("sceneName", Json::text(req.scene.as_str())).json(),
                next: CreateStage::Items,
            }
        } else {
            let head = text::join5(
                "Имя «",
                req.source.as_str(),
                "» уже занято источником типа ",
                existing.as_str(),
                ", а вы создаёте ",
            );
            let message = text::join3(
                head.as_str(),
                req.kind.as_str(),
                ". Выберите другое имя или добавьте существующий источник в сцену.",
            );
            done(Err(Refusal { status: 409, error: ApiError::new(message.as_str()) }))
        },
        None => CreateStep::Ask {
            request_type: "CreateInput",
            data: Fields::new().put("sceneName", Json::text(req.scene.as_str())).put(
                "inputName",
                Json::text(req.source.as_str()),
            ).put("inputKind", Json::text(req.kind.as_str())).put(
                "inputSettings",
                obs::no_fields(),
            ).put("sceneItemEnabled", Json::Bool(true)).json(),
            next: CreateStage::Create,
        },
    }
}

fn after_items(req: &SourceRequest, reply: &ObsReply) -> (r: CreateStep)
    ensures
        r@ == create_meaning(*req, CreateStage::Items, donations::reply_view(*reply)),
{
    match reply {
        Err(e) => done(
            Err(api::err("Не удалось добавить существующий источник в сцену", e.as_str())),
        ),
        Ok(items) => match donations::find_item_id(items, req.source.as_str()) {
            Some(id) => done(Ok(existing_json(req, id, false))),
            None => CreateStep::Ask {
                request_type: "CreateSceneItem",
                data: Fields::new().put("sceneName", Json::text(req.scene.as_str())).put(
                    "sourceName",
                    Json::text(req.source.as_str()),
                ).put("sceneItemEnabled", Json::Bool(true)).json(),
                next: CreateStage::AddItem,
            },
        },
    }
}

fn after_item_added(req: &SourceRequest, reply: &ObsReply) -> (r: CreateStep)
    ensures
        r@ == create_meaning(*req, CreateStage::AddItem, donations::reply_view(*reply)),
{
    match reply {
        Err(e) => done(
            Err(api::err("Не удалось добавить существующий источник в сцену", e.as_str())),
        ),
        Ok(v) => match v.get_int("sceneItemId") {
            Some(id) => done(Ok(existing_json(req, id, true))),
            None => done(
                Err(
                    api::err(
                        "Не удалось добавить существующий источник в сцену",
                        "OBS не вернул id созданного элемента сцены",
                    ),
                ),
            ),
        },
    }
}

/// Takes a reply and says what to do next.
pub fn create_advance(req: &SourceRequest, stage: CreateStage, reply: &ObsReply) -> (r: CreateStep)
    ensures
        r@ == create_meaning(*req, stage, donations::reply_view(*reply)),
{
    match stage {
        CreateStage::Kinds => after_kinds(req, reply),
        CreateStage::Inputs => after_inputs(req, reply),
        CreateStage::Items => after_items(req, reply),
        CreateStage::AddItem => after_item_added(req, reply),
        CreateStage::Create => match reply {
            Err(e) => done(Err(api::err("Не удалось создать источник", e.as_str()))),
            Ok(v) => done(Ok(created_json(req, v))),
        },
    }
}

// ---------------------------------------------------------------------------------------------
// Laws
// ---------------------------------------------------------------------------------------------
/// The order of the stages.
pub open spec fn rank(stage: CreateStage) -> nat {
    match stage {
        CreateStage::Kinds => 3,
        CreateStage::Inputs => 2,
        CreateStage::Items => 1,
        CreateStage::AddItem => 0,
        CreateStage::Create => 0,
    }
}

/// Whatever OBS replies, the work comes to an end.
pub proof fn law_adding_ends(req: SourceRequest, stage: CreateStage, reply: donations::ReplyV)
    ensures
        create_meaning(req, stage, reply) matches CreateV::Ask(_, _, next) ==> rank(next) < rank(
            stage,
        ),
{
}

/// No source is created, and none added, of a kind that OBS does not know.
pub proof fn law_unknown_kind_goes_no_further(req: SourceRequest, kinds: json::JsonV)
    requires
        !knows_kind(kinds, req.kind@),
    ensures
        create_meaning(req, CreateStage::Kinds, Ok(kinds)) matches CreateV::Done(answer)
            && answer is Err && answer->Err_0.status == 400,
{
}

/// An existing source is added only if it is of the kind that was asked for; of another kind, the
/// request ends in a conflict.
pub proof fn law_kind_is_never_swapped(req: SourceRequest, inputs: json::JsonV)
    requires
        kind_of_input(inputs, req.source@) is Some,
    ensures
        create_meaning(req, CreateStage::Inputs, Ok(inputs)) is Ask <==> kind_of_input(
            inputs,
            req.source@,
        ) == Some(req.kind@),
        create_meaning(req, CreateStage::Inputs, Ok(inputs)) matches CreateV::Done(answer)
            ==> answer is Err && answer->Err_0.status == 409,
{
}


/// A kind is known if it stands anywhere in the list of kinds, and the kind of an input is that of the
/// first one of its name.
pub proof fn law_kinds_are_looked_up(
    kinds: json::JsonV,
    kind: Seq<char>,
    inputs: json::JsonV,
    name: Seq<char>,
    i: int,
)
    ensures
        0 <= i < kinds.items_at("inputKinds"@).len() && kinds.items_at("inputKinds"@)[i].text()
            == Some(kind) ==> knows_kind(kinds, kind),
        knows_kind(kinds, kind) ==> exists|j: int|
            0 <= j < kinds.items_at("inputKinds"@).len() && (#[trigger] kinds.items_at(
                "inputKinds"@,
            )[j]).text() == Some(kind),
        0 <= i < inputs.items_at("inputs"@).len() && inputs.items_at("inputs"@)[i].text_at(
            "inputName"@,
        ) == Some(name) && (forall|j: int|
            0 <= j < i ==> (#[trigger] inputs.items_at("inputs"@)[j]).text_at("inputName"@) != Some(
                name,
            )) ==> kind_of_input(inputs, name) == inputs.items_at("inputs"@)[i].text_at("inputKind"@),
        (forall|j: int|
            0 <= j < inputs.items_at("inputs"@).len() ==> (#[trigger] inputs.items_at(
                "inputs"@,
            )[j]).text_at("inputName"@) != Some(name)) ==> kind_of_input(inputs, name) is None,
{
    let list = kinds.items_at("inputKinds"@);
    if 0 <= i < list.len() && list[i].text() == Some(kind) {
        assert(list[i] == json::JsonV::Str(kind));
    }
    if knows_kind(kinds, kind) {
        let j = choose|j: int| 0 <= j < list.len() && list[j] == json::JsonV::Str(kind);
        assert(list[j].text() == Some(kind));
    }
    json::law_the_first_with_a_text_is_found(inputs.items_at("inputs"@), "inputName"@, name, i);
}

/// A request without a scene, a name or a kind is refused, and the panel is told which is missing.
pub proof fn law_an_incomplete_request_is_refused(body: json::JsonV)
    ensures
        oauth::required(body, "sceneName"@) is None ==> create_refusal(body) == Some(
            "sceneName обязателен"@,
        ),
        oauth::required(body, "sceneName"@) is Some && oauth::required(body, "sourceName"@) is None
            ==> create_refusal(body) == Some("Название источника обязательно"@),
        oauth::required(body, "sceneName"@) is Some && oauth::required(body, "sourceName"@) is Some
            && oauth::required(body, "inputKind"@) is None ==> create_refusal(body) == Some(
            "Тип источника обязателен"@,
        ),
        create_refusal(body) is None <==> oauth::required(body, "sceneName"@) is Some
            && oauth::required(body, "sourceName"@) is Some && oauth::required(body, "inputKind"@)
            is Some,
{
}

/// First the kinds are asked for, with their versions; then the inputs.
pub proof fn law_kinds_are_asked_for_first(req: SourceRequest, kinds: json::JsonV)
    ensures
        first_question() matches CreateV::Ask(question, data, next) && question
            == "GetInputKindList"@ && data.bool_at("unversioned"@) == Some(false) && next
            == CreateStage::Kinds,
        knows_kind(kinds, req.kind@) ==> (create_meaning(
            req,
            CreateStage::Kinds,
            Ok(kinds),
        ) matches CreateV::Ask(question, _, next) && question == "GetInputList"@ && next
            == CreateStage::Inputs),
{
}

/// A new source is created in the scene, under the name and of the kind that were asked for, and it
/// is shown.
pub proof fn law_a_new_source_is_created_as_asked(req: SourceRequest, inputs: json::JsonV)
    requires
        kind_of_input(inputs, req.source@) is None,
    ensures
        create_meaning(req, CreateStage::Inputs, Ok(inputs)) matches CreateV::Ask(question, data, next)
            && question == "CreateInput"@ && next == CreateStage::Create && data.text_at("sceneName"@)
            == Some(req.scene@) && data.text_at("inputName"@) == Some(req.source@) && data.text_at(
            "inputKind"@,
        ) == Some(req.kind@) && data.bool_at("sceneItemEnabled"@) == Some(true) && data.field(
            "inputSettings"@,
        ) == Some(json::JsonV::Object(Map::empty())),
{
    reveal_strlit("sceneName");
    reveal_strlit("inputName");
    reveal_strlit("inputKind");
    reveal_strlit("inputSettings");
    reveal_strlit("sceneItemEnabled");
    assert("sceneName"@.len() == 9);
    assert("inputName"@.len() == 9);
    assert("inputKind"@.len() == 9);
    assert("inputSettings"@.len() == 13);
    assert("sceneItemEnabled"@.len() == 16);
    assert("sceneName"@[0] != "inputName"@[0]);
    assert("sceneName"@[0] != "inputKind"@[0]);
    assert("inputName"@[5] != "inputKind"@[5]);
}

/// An existing source of the kind is looked for in the scene that was asked for, and added to it,
/// shown, if it is not there.
pub proof fn law_an_existing_source_is_added_once(
    req: SourceRequest,
    inputs: json::JsonV,
    items: json::JsonV,
    id: i64,
)
    requires
        kind_of_input(inputs, req.source@) == Some(req.kind@),
    ensures
        create_meaning(req, CreateStage::Inputs, Ok(inputs)) matches CreateV::Ask(question, data, next)
            && question == "GetSceneItemList"@ && next == CreateStage::Items && data.text_at(
            "sceneName"@,
        ) == Some(req.scene@),
        donations::item_id(items, req.source@) is None ==> (create_meaning(
            req,
            CreateStage::Items,
            Ok(items),
        ) matches CreateV::Ask(question, data, next) && question == "CreateSceneItem"@ && next
            == CreateStage::AddItem && data.text_at("sceneName"@) == Some(req.scene@) && data.text_at(
            "sourceName"@,
        ) == Some(req.source@) && data.bool_at("sceneItemEnabled"@) == Some(true)),
        donations::item_id(items, req.source@) == Some(id) ==> (create_meaning(
            req,
            CreateStage::Items,
            Ok(items),
        ) matches CreateV::Done(Ok(v)) && v.int_at("sceneItemId"@) == Some(id) && v.bool_at(
            "createdSceneItem"@,
        ) == Some(false)),
{
    reveal_strlit("sceneName");
    reveal_strlit("sourceName");
    reveal_strlit("sceneItemEnabled");
    assert("sceneName"@.len() == 9);
    assert("sourceName"@.len() == 10);
    assert("sceneItemEnabled"@.len() == 16);
    lemma_existing_answer(req, id, false);
}

proof fn lemma_existing_answer(req: SourceRequest, id: i64, created: bool)
    ensures
        ({
            let v = existing_answer(req, id, created);
            &&& v.text_at("inputKind"@) == Some(req.kind@)
            &&& v.text_at("inputName"@) == Some(req.source@)
            &&& v.int_at("sceneItemId"@) == Some(id)
            &&& v.bool_at("createdInput"@) == Some(false)
            &&& v.bool_at("createdSceneItem"@) == Some(created)
            &&& v.bool_at("alreadyExisted"@) == Some(true)
        }),
{
    reveal_strlit("inputKind");
    reveal_strlit("inputName");
    reveal_strlit("sceneItemId");
    reveal_strlit("createdInput");
    reveal_strlit("createdSceneItem");
    reveal_strlit("alreadyExisted");
    assert("inputKind"@.len() == 9);
    assert("inputName"@.len() == 9);
    assert("sceneItemId"@.len() == 11);
    assert("createdInput"@.len() == 12);
    assert("createdSceneItem"@.len() == 16);
    assert("alreadyExisted"@.len() == 14);
    assert("inputKind"@[5] != "inputName"@[5]);
}

/// The answer says what came about: whether a source was created, whether it was added to the scene,
/// whether it existed, and the number that OBS gave the item.
pub proof fn law_the_answer_says_what_came_about(
    req: SourceRequest,
    response: json::JsonV,
    id: i64,
    created: bool,
)
    ensures
        ({
            let v = existing_answer(req, id, created);
            &&& v.text_at("inputKind"@) == Some(req.kind@)
            &&& v.text_at("inputName"@) == Some(req.source@)
            &&& v.int_at("sceneItemId"@) == Some(id)
            &&& v.bool_at("createdInput"@) == Some(false)
            &&& v.bool_at("createdSceneItem"@) == Some(created)
            &&& v.bool_at("alreadyExisted"@) == Some(true)
        }),
        ({
            let v = created_answer(req, response);
            &&& v.text_at("inputKind"@) == Some(req.kind@)
            &&& v.text_at("inputName"@) == Some(req.source@)
            &&& v.int_at("sceneItemId"@) == response.int_at("sceneItemId"@)
            &&& v.bool_at("createdInput"@) == Some(true)
            &&& v.bool_at("createdSceneItem"@) == Some(true)
            &&& v.bool_at("alreadyExisted"@) == Some(false)
            &&& v.field("obs"@) == Some(response)
        }),
        create_meaning(req, CreateStage::Create, Ok(response)) == CreateV::Done(
            Ok(created_answer(req, response)),
        ),
        response.int_at("sceneItemId"@) == Some(id) ==> (create_meaning(
            req,
            CreateStage::AddItem,
            Ok(response),
        ) matches CreateV::Done(Ok(v)) && v.int_at("sceneItemId"@) == Some(id) && v.bool_at(
            "createdSceneItem"@,
        ) == Some(true)),
        response.int_at("sceneItemId"@) is None ==> (create_meaning(
            req,
            CreateStage::AddItem,
            Ok(response),
        ) matches CreateV::Done(Err(r)) && r.status == 500),
{
    lemma_existing_answer(req, id, created);
    lemma_existing_answer(req, id, true);
    reveal_strlit("inputKind");
    reveal_strlit("inputName");
    reveal_strlit("sceneItemId");
    reveal_strlit("createdInput");
    reveal_strlit("createdSceneItem");
    reveal_strlit("alreadyExisted");
    reveal_strlit("obs");
    assert("inputKind"@.len() == 9);
    assert("inputName"@.len() == 9);
    assert("sceneItemId"@.len() == 11);
    assert("createdInput"@.len() == 12);
    assert("createdSceneItem"@.len() == 16);
    assert("alreadyExisted"@.len() == 14);
    assert("obs"@.len() == 3);
    assert("inputKind"@[5] != "inputName"@[5]);
}

/// Whatever step fails, the panel is told which one, and what OBS said.
pub proof fn law_a_failed_step_is_named(req: SourceRequest, e: Seq<char>)
    ensures
        create_meaning(req, CreateStage::Kinds, Err(e)) matches CreateV::Done(Err(r)) && r.status
            == 500 && r.error.message == "Не удалось получить типы источников OBS"@ && r.error.detail
            == Some(e),
        create_meaning(req, CreateStage::Inputs, Err(e)) matches CreateV::Done(Err(r)) && r.status
            == 500 && r.error.message == "Не удалось проверить существующие источники"@
            && r.error.detail == Some(e),
        create_meaning(req, CreateStage::Items, Err(e)) matches CreateV::Done(Err(r)) && r.status
            == 500 && r.error.message == "Не удалось добавить существующий источник в сцену"@
            && r.error.detail == Some(e),
        create_meaning(req, CreateStage::AddItem, Err(e)) matches CreateV::Done(Err(r)) && r.status
            == 500 && r.error.message == "Не удалось добавить существующий источник в сцену"@
            && r.error.detail == Some(e),
        create_meaning(req, CreateStage::Create, Err(e)) matches CreateV::Done(Err(r)) && r.status
            == 500 && r.error.message == "Не удалось создать источник"@ && r.error.detail == Some(e),
{
}

/// In a conflict the panel is told the name, the kind that has it and the kind that was asked for; of
/// an unknown kind, which one it is.
pub proof fn law_a_conflict_names_both_kinds(
    req: SourceRequest,
    inputs: json::JsonV,
    kinds: json::JsonV,
    existing: Seq<char>,
)
    ensures
        kind_of_input(inputs, req.source@) == Some(existing) && existing != req.kind@ ==> (
        create_meaning(req, CreateStage::Inputs, Ok(inputs)) matches CreateV::Done(Err(r)) && r.status
            == 409 && text::holds_text(r.error.message, req.source@) && text::holds_text(
            r.error.message,
            existing,
        ) && text::holds_text(r.error.message, req.kind@)),
        !knows_kind(kinds, req.kind@) ==> (create_meaning(
            req,
            CreateStage::Kinds,
            Ok(kinds),
        ) matches CreateV::Done(Err(r)) && r.status == 400 && text::holds_text(
            r.error.message,
            req.kind@,
        )),
{
    let a = "Имя «"@;
    let b = "» уже занято источником типа "@;
    let c = ", а вы создаёте "@;
    let d = ". Выберите другое имя или добавьте существующий источник в сцену."@;
    let whole = name_conflict(req.source@, existing, req.kind@);
    text::lemma_part_is_held(a, req.source@, b + existing + c + req.kind@ + d);
    assert(a + req.source@ + (b + existing + c + req.kind@ + d) =~= whole);
    text::lemma_part_is_held(a + req.source@ + b, existing, c + req.kind@ + d);
    assert(a + req.source@ + b + existing + (c + req.kind@ + d) =~= whole);
    text::lemma_part_is_held(a + req.source@ + b + existing + c, req.kind@, d);
    text::lemma_part_is_held(
        "OBS не вернул тип источника `"@,
        req.kind@,
        "`. Обновите список типов и выберите источник из него."@,
    );
}

} // verus!
