//! Twitch: connecting the channel, and what its replies mean.
//!
//! Twitch answers a refused request with a body that is valid JSON. To take such a body for a
//! success would tell the operator that a marker was set when nothing happened; they would learn
//! the truth from the audience. So the status is looked at before the body.
use vstd::prelude::*;
use crate::api;
use crate::api::{ApiError, Refusal};
use crate::config;
use crate::config::TwitchConfig;
use crate::json;
use crate::json::{Fields, Json};
use crate::oauth;
use crate::obs;
use crate::text;

verus! {

// ---------------------------------------------------------------------------------------------
// Replies of Twitch
// ---------------------------------------------------------------------------------------------
/// Whether an HTTP status is one of success.
pub open spec fn is_success(status: u16) -> bool {
    200 <= status < 300
}

/// Advice for a status.
pub open spec fn hint(status: u16) -> Seq<char> {
    if status == 401 {
        " Токен Twitch истёк — подключите Twitch заново."@
    } else if status == 403 {
        " Не хватает прав. Проверьте scope приложения Twitch."@
    } else if status == 429 {
        " Twitch временно ограничил частоту запросов, повторите позже."@
    } else {
        ""@
    }
}

fn hint_for(status: u16) -> (r: &'static str)
    ensures
        r@ == hint(status),
{
    if status == 401 {
        " Токен Twitch истёк — подключите Twitch заново."
    } else if status == 403 {
        " Не хватает прав. Проверьте scope приложения Twitch."
    } else if status == 429 {
        " Twitch временно ограничил частоту запросов, повторите позже."
    } else {
        ""
    }
}

/// What Twitch says about a refusal: its message, or the whole body where there is none.
pub open spec fn refusal_detail(parsed: json::JsonV, body: Seq<char>) -> Seq<char> {
    match parsed.text_at("message"@) {
        Some(m) => if text::trimmed(m).len() > 0 {
            m
        } else {
            text::trimmed(body)
        },
        None => text::trimmed(body),
    }
}

/// What a reply means. A success may have no body.
pub open spec fn reply_meaning(
    status: u16,
    parsed: json::JsonV,
    body: Seq<char>,
    what: Seq<char>,
) -> Result<json::JsonV, api::RefusalV> {
    if !is_success(status) {
        Err(
            api::RefusalV {
                status: 502,
                error: api::ErrorV {
                    message: what + ": Twitch ответил "@ + text::decimal(status as nat) + "."@
                        + hint(status),
                    detail: Some(refusal_detail(parsed, body)),
                },
            },
        )
    } else if text::trimmed(body).len() == 0 {
        Ok(json::JsonV::Object(map!["ok"@ => json::JsonV::Bool(true)]))
    } else {
        Ok(parsed)
    }
}

/// What a reply means, once its body was read.
pub fn twitch_reply(status: u16, parsed: Json, body: &str, what: &str) -> (r: Result<Json, Refusal>)
    ensures
        api::answer_view(r) == reply_meaning(status, parsed@, body@, what@),
{
    if status < 200 || status >= 300 {
        let number = text::number(status as u128);
        let message = text::join5(
            what,
            ": Twitch ответил ",
            number.as_str(),
            ".",
            hint_for(status),
        );
        let trimmed = text::trim(body);
        let detail = match parsed.get_str("message") {
            Some(m) => if text::is_blank(m) {
                trimmed.as_str()
            } else {
                m
            },
            None => trimmed.as_str(),
        };
        return Err(
            Refusal { status: 502, error: ApiError::detail(message.as_str(), detail) },
        );
    }
    if text::is_blank(body) {
        Ok(Fields::new().put("ok", Json::Bool(true)).json())
    } else {
        Ok(parsed)
    }
}

/// What a reply means: its status and its body.
pub fn twitch_json(status: u16, body: &str, what: &str) -> (r: Result<Json, Refusal>)
    ensures
        api::answer_view(r) == reply_meaning(status, json::parsed_or_null(body@), body@, what@),
{
    twitch_reply(status, Json::parse_or_null(body), body, what)
}

// ---------------------------------------------------------------------------------------------
// Settings
// ---------------------------------------------------------------------------------------------
/// The texts of a list as a value.
pub open spec fn texts_value(list: Seq<Seq<char>>) -> json::JsonV {
    json::JsonV::Array(list.map_values(|s: Seq<char>| json::JsonV::Str(s)))
}

/// The settings as the panel gets them.
pub fn twitch_config_get(cfg: &TwitchConfig) -> (r: Json)
    ensures
        r@ == json::JsonV::Object(
            map![
                "client_id"@ => json::JsonV::Str(cfg.client_id@),
                "scopes"@ => texts_value(text::views(cfg.scopes@)),
            ],
        ),
{
    Fields::new().put("client_id", Json::text(cfg.client_id.as_str())).put(
        "scopes",
        Json::texts(&cfg.scopes),
    ).json()
}

/// New settings.
#[derive(Debug)]
pub struct TwitchUpdate {
    pub client_id: String,
    pub scopes: Vec<String>,
    /// Whether the stored tokens and the code on its way are to be dropped: they belong to another
    /// application.
    pub forget_tokens: bool,
}

/// Takes new settings.
pub fn twitch_config_set(body: &Json, current: &TwitchConfig) -> (r: Result<TwitchUpdate, Refusal>)
    ensures
        match r {
            Ok(u) => {
                &&& oauth::required(body@, "clientId"@) == Some(u.client_id@)
                &&& text::views(u.scopes@) == config::requested_scopes(
                    body@,
                    "scopes"@,
                    text::views(current.scopes@),
                )
                &&& u.forget_tokens == (current.client_id@ != u.client_id@)
            },
            Err(e) => oauth::required(body@, "clientId"@) is None && e@ == api::bad_request(
                "Twitch client_id обязателен"@,
            ),
        },
{
    match oauth::required_trimmed(body, "clientId", "Twitch client_id обязателен") {
        Ok(client_id) => {
            let scopes = config::scopes_from_body(body, "scopes", &current.scopes);
            let forget_tokens = !text::same(current.client_id.as_str(), client_id.as_str());
            Ok(TwitchUpdate { client_id, scopes, forget_tokens })
        },
        Err(e) => Err(api::bad(e.as_str())),
    }
}

/// Enters new settings into the configuration.
pub fn apply_update(cfg: &mut TwitchConfig, update: &TwitchUpdate)
    ensures
        final(cfg).enabled == old(cfg).enabled,
        final(cfg).client_id@ == update.client_id@,
        text::views(final(cfg).scopes@) == text::views(update.scopes@),
{
    cfg.client_id = update.client_id.as_str().to_owned();
    cfg.scopes = text::copy_list(&update.scopes);
}

/// The answer to new settings.
pub fn update_answer(update: &TwitchUpdate) -> (r: Json)
    ensures
        r@ == json::JsonV::Object(
            map![
                "ok"@ => json::JsonV::Bool(true),
                "client_id"@ => json::JsonV::Str(update.client_id@),
                "scopes"@ => texts_value(text::views(update.scopes@)),
            ],
        ),
{
    Fields::new().put("ok", Json::Bool(true)).put(
        "client_id",
        Json::text(update.client_id.as_str()),
    ).put("scopes", Json::texts(&update.scopes)).json()
}

// ---------------------------------------------------------------------------------------------
// The state of the connection
// ---------------------------------------------------------------------------------------------
/// The state as the panel gets it. The outcome of using the tokens is known only where there are
/// tokens.
pub open spec fn status_value(
    cfg: TwitchConfig,
    tokens: Option<Result<(), Seq<char>>>,
) -> json::JsonV {
    if cfg.client_id@.len() == 0 {
        json::JsonV::Object(
            map![
                "enabled"@ => json::JsonV::Bool(cfg.enabled),
                "configured"@ => json::JsonV::Bool(false),
                "connected"@ => json::JsonV::Bool(false),
                "message"@ => json::JsonV::Str("Сохраните Twitch client_id в веб-панели"@),
            ],
        )
    } else {
        let base = map![
            "enabled"@ => json::JsonV::Bool(true),
            "configured"@ => json::JsonV::Bool(true),
            "connected"@ => json::JsonV::Bool(tokens is Some && tokens->0 is Ok),
        ];
        match tokens {
            Some(Err(e)) => json::JsonV::Object(base.insert("message"@, json::JsonV::Str(e))),
            _ => json::JsonV::Object(base),
        }
    }
}

/// The outcome of using the tokens, as far as it is known.
pub open spec fn use_view(tokens: Option<Result<(), String>>) -> Option<Result<(), Seq<char>>> {
    match tokens {
        Some(Ok(u)) => Some(Ok(u)),
        Some(Err(e)) => Some(Err(e@)),
        None => None,
    }
}

/// The state as the panel gets it. No token is part of it.
pub fn twitch_status_value(cfg: &TwitchConfig, tokens: Option<Result<(), String>>) -> (r: Json)
    ensures
        r@ == status_value(*cfg, use_view(tokens)),
{
    if cfg.client_id.as_str().is_empty() {
        return Fields::new().put("enabled", Json::Bool(cfg.enabled)).put(
            "configured",
            Json::Bool(false),
        ).put("connected", Json::Bool(false)).put(
            "message",
            Json::text("Сохраните Twitch client_id в веб-панели"),
        ).json();
    }
    let connected = match &tokens {
        Some(Ok(_)) => true,
        _ => false,
    };
    let fields = Fields::new().put("enabled", Json::Bool(true)).put(
        "configured",
        Json::Bool(true),
    ).put("connected", Json::Bool(connected));
    match tokens {
        Some(Err(e)) => fields.put("message", Json::Str(e)).json(),
        _ => fields.json(),
    }
}

// ---------------------------------------------------------------------------------------------
// Connecting by a code
// ---------------------------------------------------------------------------------------------
/// The form by which a code is asked for.
pub fn twitch_device_start(cfg: &TwitchConfig) -> (r: Result<Vec<(String, String)>, Refusal>)
    ensures
        match r {
            Ok(form) => cfg.client_id@.len() > 0 && oauth::form_view(form@) == seq![
                ("client_id"@, cfg.client_id@),
                ("scopes"@, text::joined(text::views(cfg.scopes@), " "@)),
            ],
            Err(e) => cfg.client_id@.len() == 0 && e@ == api::bad_request(
                "Сначала сохраните Twitch client_id в веб-панели"@,
            ),
        },
{
    if cfg.client_id.as_str().is_empty() {
        return Err(api::bad("Сначала сохраните Twitch client_id в веб-панели"));
    }
    let scopes = text::join(&cfg.scopes, " ");
    let mut form: Vec<(String, String)> = Vec::new();
    oauth::add_form_field(&mut form, "client_id", cfg.client_id.as_str());
    oauth::add_form_field(&mut form, "scopes", scopes.as_str());
    assert(oauth::form_view(form@) =~= seq![
        ("client_id"@, cfg.client_id@),
        ("scopes"@, text::joined(text::views(cfg.scopes@), " "@)),
    ]);
    Ok(form)
}

/// The code that is to be kept, out of the reply.
pub fn device_code(reply: &Json) -> (r: Option<String>)
    ensures
        text::opt_view(r) == reply@.text_at("device_code"@),
{
    reply.get_text("device_code")
}

/// The form by which the owner's consent is asked for.
pub fn device_form(cfg: &TwitchConfig, code: Option<&str>) -> (r: Result<
    Vec<(String, String)>,
    Refusal,
>)
    ensures
        match (code, r) {
            (Some(dc), Ok(form)) => oauth::form_view(form@) == seq![
                ("client_id"@, cfg.client_id@),
                ("device_code"@, dc@),
                ("grant_type"@, "urn:ietf:params:oauth:grant-type:device_code"@),
            ],
            (None, Err(e)) => e@ == api::bad_request("Сначала нажмите «Подключить Twitch»"@),
            _ => false,
        },
{
    match code {
        Some(dc) => {
            let mut form: Vec<(String, String)> = Vec::new();
            oauth::add_form_field(&mut form, "client_id", cfg.client_id.as_str());
            oauth::add_form_field(&mut form, "device_code", dc);
            oauth::add_form_field(
                &mut form,
                "grant_type",
                "urn:ietf:params:oauth:grant-type:device_code",
            );
            assert(oauth::form_view(form@) =~= seq![
                ("client_id"@, cfg.client_id@),
                ("device_code"@, dc@),
                ("grant_type"@, "urn:ietf:params:oauth:grant-type:device_code"@),
            ]);
            Ok(form)
        },
        None => Err(api::bad("Сначала нажмите «Подключить Twitch»")),
    }
}

/// What the reply about the owner's consent means.
pub enum DeviceCheck {
    /// Store these tokens, forget the code, and answer that the channel is connected.
    Connected(Json),
    /// Answer this: the consent is still missing, or came too late.
    Waiting(Json),
    /// Refused.
    Refused(Refusal),
}

/// What the reply about the owner's consent means.
#[verifier::ext_equal]
pub enum DeviceV {
    Connected(json::JsonV),
    Waiting(json::JsonV),
    Refused(api::RefusalV),
}

impl View for DeviceCheck {
    type V = DeviceV;

    open spec fn view(&self) -> DeviceV {
        match *self {
            DeviceCheck::Connected(v) => DeviceV::Connected(v@),
            DeviceCheck::Waiting(v) => DeviceV::Waiting(v@),
            DeviceCheck::Refused(e) => DeviceV::Refused(e@),
        }
    }
}

/// A state of waiting as the panel gets it.
pub open spec fn waiting_value(status: Seq<char>, message: Seq<char>) -> json::JsonV {
    json::JsonV::Object(
        map!["status"@ => json::JsonV::Str(status), "message"@ => json::JsonV::Str(message)],
    )
}

/// What the reply about the owner's consent means. Before the owner entered the code Twitch answers
/// with an error, yet that is plain waiting.
pub open spec fn consent(v: json::JsonV, body: Seq<char>) -> DeviceV {
    let message = obs::or_empty(v.text_at("message"@));
    if v.field("access_token"@) is Some {
        DeviceV::Connected(v)
    } else if text::holds_text(message, "authorization_pending"@) {
        DeviceV::Waiting(
            waiting_value("pending"@, "Код ещё не подтверждён на сайте Twitch."@),
        )
    } else if text::holds_text(message, "expired"@) {
        DeviceV::Waiting(
            waiting_value("expired"@, "Код устарел. Нажмите «Подключить Twitch» заново."@),
        )
    } else {
        DeviceV::Refused(
            api::RefusalV {
                status: 502,
                error: api::ErrorV {
                    message: "Twitch отклонил проверку авторизации."@,
                    detail: Some(
                        if message.len() == 0 {
                            text::trimmed(body)
                        } else {
                            message
                        },
                    ),
                },
            },
        )
    }
}

fn waiting(status: &str, message: &str) -> (r: DeviceCheck)
    ensures
        r@ == DeviceV::Waiting(waiting_value(status@, message@)),
{
    DeviceCheck::Waiting(
        Fields::new().put("status", Json::text(status)).put("message", Json::text(message)).json(),
    )
}

/// What the reply about the owner's consent means, once its body was read.
pub fn judge_consent(v: Json, body: &str) -> (r: DeviceCheck)
    ensures
        r@ == consent(v@, body@),
{
    if v.get("access_token").is_some() {
        return DeviceCheck::Connected(v);
    }
    let message = match v.get_text("message") {
        Some(m) => m,
        None => String::new(),
    };
    let m = message.as_str();
    if text::contains(m, "authorization_pending") {
        return waiting("pending", "Код ещё не подтверждён на сайте Twitch.");
    }
    if text::contains(m, "expired") {
        return waiting("expired", "Код устарел. Нажмите «Подключить Twitch» заново.");
    }
    let trimmed = text::trim(body);
    let detail = if m.is_empty() {
        trimmed.as_str()
    } else {
        m
    };
    DeviceCheck::Refused(
        Refusal {
            status: 502,
            error: ApiError::detail("Twitch отклонил проверку авторизации.", detail),
        },
    )
}

/// What the reply about the owner's consent means.
pub fn twitch_device_check(body: &str) -> (r: DeviceCheck)
    ensures
        r@ == consent(json::parsed_or_null(body@), body@),
{
    judge_consent(Json::parse_or_null(body), body)
}

/// The answer once the channel is connected.
pub fn connected_answer() -> (r: Json)
    ensures
        r@ == obs::one_text("status"@, "connected"@),
{
    obs::with_text("status", "connected")
}

// ---------------------------------------------------------------------------------------------
// Using the tokens
// ---------------------------------------------------------------------------------------------
/// The tokens that are stored.
pub fn stored_tokens(raw: Option<&str>) -> (r: Result<Json, String>)
    ensures
        match (raw, r) {
            (None, Err(e)) => e@ == "Twitch не подключён"@,
            (None, Ok(_)) => false,
            (Some(s), Ok(v)) => json::reads_as(s@, v@),
            (Some(s), Err(e)) => json::is_refused(s@, e@),
        },
{
    match raw {
        None => Err("Twitch не подключён".to_owned()),
        Some(s) => Json::parse(s),
    }
}

/// The access token among the stored tokens.
pub fn held_access(tokens: &Json) -> (r: Result<String, String>)
    ensures
        match r {
            Ok(s) => tokens@.text_at("access_token"@) == Some(s@),
            Err(e) => tokens@.text_at("access_token"@) is None && e@
                == "access_token отсутствует"@,
        },
{
    match tokens.get_text("access_token") {
        Some(s) => Ok(s),
        None => Err("access_token отсутствует".to_owned()),
    }
}

/// What Twitch says about tokens: its message, or the whole body.
pub open spec fn token_detail(v: json::JsonV, body: Seq<char>) -> Seq<char> {
    match v.text_at("message"@) {
        Some(m) => m,
        None => text::trimmed(body),
    }
}

fn detail_about(v: &Json, body: &str) -> (r: String)
    ensures
        r@ == token_detail(v@, body@),
{
    match v.get_text("message") {
        Some(m) => m,
        None => text::trim(body),
    }
}

/// To whom a token belongs, by the reply about it.
pub open spec fn owner_of(success: bool, status: Seq<char>, v: json::JsonV, body: Seq<char>) -> Result<
    Seq<char>,
    Seq<char>,
> {
    if !success {
        Err("Twitch token не прошёл validate: "@ + status + " "@ + token_detail(v, body))
    } else {
        match v.text_at("user_id"@) {
            Some(id) => Ok(id),
            None => Err("Twitch не вернул user_id"@),
        }
    }
}

/// To whom a token belongs, by the reply about it, once its body was read.
pub fn judge_owner(success: bool, status: &str, v: &Json, body: &str) -> (r: Result<String, String>)
    ensures
        crate::donationalerts::words_of(r) == owner_of(success, status@, v@, body@),
{
    if !success {
        let detail = detail_about(v, body);
        return Err(
            text::join4("Twitch token не прошёл validate: ", status, " ", detail.as_str()),
        );
    }
    match v.get_text("user_id") {
        Some(id) => Ok(id),
        None => Err("Twitch не вернул user_id".to_owned()),
    }
}

/// To whom a token belongs, by the status of the reply, in words, and its body.
pub fn validate_twitch_access(success: bool, status: &str, body: &str) -> (r: Result<
    String,
    String,
>)
    ensures
        crate::donationalerts::words_of(r) == owner_of(
            success,
            status@,
            json::parsed_or_null(body@),
            body@,
        ),
{
    let v = Json::parse_or_null(body);
    judge_owner(success, status, &v, body)
}

/// The form by which new tokens are asked for.
pub fn refresh_form(cfg: &TwitchConfig, refresh: &str) -> (r: Vec<(String, String)>)
    ensures
        oauth::form_view(r@) == seq![
            ("client_id"@, cfg.client_id@),
            ("grant_type"@, "refresh_token"@),
            ("refresh_token"@, refresh@),
        ],
{
    let mut form: Vec<(String, String)> = Vec::new();
    oauth::add_form_field(&mut form, "client_id", cfg.client_id.as_str());
    oauth::add_form_field(&mut form, "grant_type", "refresh_token");
    oauth::add_form_field(&mut form, "refresh_token", refresh);
    assert(oauth::form_view(form@) =~= seq![
        ("client_id"@, cfg.client_id@),
        ("grant_type"@, "refresh_token"@),
        ("refresh_token"@, refresh@),
    ]);
    form
}

/// New tokens, by the reply.
pub open spec fn new_tokens(success: bool, status: Seq<char>, v: json::JsonV, body: Seq<char>) -> Result<
    json::JsonV,
    Seq<char>,
> {
    if !success {
        Err("Twitch refresh_token отклонён: "@ + status + " "@ + token_detail(v, body))
    } else if v.field("access_token"@) is None {
        Err("Twitch не вернул access_token при обновлении"@)
    } else {
        Ok(v)
    }
}

/// New tokens, by the reply, once its body was read.
pub fn judge_tokens(success: bool, status: &str, v: Json, body: &str) -> (r: Result<Json, String>)
    ensures
        obs::outcome_view(r) == new_tokens(success, status@, v@, body@),
{
    if !success {
        let detail = detail_about(&v, body);
        return Err(
            text::join4("Twitch refresh_token отклонён: ", status, " ", detail.as_str()),
        );
    }
    if v.get("access_token").is_none() {
        return Err("Twitch не вернул access_token при обновлении".to_owned());
    }
    Ok(v)
}

/// New tokens, by the status of the reply, in words, and its body.
pub fn refresh_twitch_tokens(success: bool, status: &str, body: &str) -> (r: Result<Json, String>)
    ensures
        obs::outcome_view(r) == new_tokens(success, status@, json::parsed_or_null(body@), body@),
{
    judge_tokens(success, status, Json::parse_or_null(body), body)
}

/// What comes next once it is known whether the stored token serves.
pub enum UserStep {
    /// The token serves: it belongs to this user.
    Use(String),
    /// Ask for new tokens with this one.
    Refresh(String),
    /// There is no way.
    Fail(String),
}

/// What comes next once it is known whether the stored token serves.
#[verifier::ext_equal]
pub enum UserV {
    Use(Seq<char>),
    Refresh(Seq<char>),
    Fail(Seq<char>),
}

impl View for UserStep {
    type V = UserV;

    open spec fn view(&self) -> UserV {
        match *self {
            UserStep::Use(s) => UserV::Use(s@),
            UserStep::Refresh(s) => UserV::Refresh(s@),
            UserStep::Fail(s) => UserV::Fail(s@),
        }
    }
}

/// What comes next once it is known whether the stored token serves: a token that does not is
/// refreshed; where it cannot be, the first error stands.
pub open spec fn user_meaning(
    tokens: json::JsonV,
    validated: Result<Seq<char>, Seq<char>>,
) -> UserV {
    match validated {
        Ok(uid) => UserV::Use(uid),
        Err(first) => match tokens.text_at("refresh_token"@) {
            Some(refresh) => UserV::Refresh(refresh),
            None => UserV::Fail(first),
        },
    }
}

/// What comes next once it is known whether the stored token serves.
pub fn twitch_user_refreshed(tokens: &Json, validated: Result<String, String>) -> (r: UserStep)
    ensures
        r@ == user_meaning(tokens@, crate::donationalerts::words_of(validated)),
{
    match validated {
        Ok(uid) => UserStep::Use(uid),
        Err(first) => match tokens.get_text("refresh_token") {
            Some(refresh) => UserStep::Refresh(refresh),
            None => UserStep::Fail(first),
        },
    }
}

/// The access token among new tokens, which are then stored.
pub fn refreshed_access(refreshed: &Json) -> (r: Result<String, String>)
    ensures
        match r {
            Ok(s) => refreshed@.text_at("access_token"@) == Some(s@),
            Err(e) => refreshed@.text_at("access_token"@) is None && e@
                == "Twitch не вернул новый access_token"@,
        },
{
    match refreshed.get_text("access_token") {
        Some(s) => Ok(s),
        None => Err("Twitch не вернул новый access_token".to_owned()),
    }
}

/// What is sent to set a marker.
pub fn twitch_marker(uid: &str, body: &Json) -> (r: Json)
    ensures
        r@ == json::JsonV::Object(
            map![
                "user_id"@ => json::JsonV::Str(uid@),
                "description"@ => json::JsonV::Str(
                    obs::or_empty(body@.text_at("description"@)),
                ),
            ],
        ),
{
    let description = match body.get_text("description") {
        Some(d) => d,
        None => String::new(),
    };
    Fields::new().put("user_id", Json::text(uid)).put("description", Json::Str(description)).json()
}

// ---------------------------------------------------------------------------------------------
// Laws
// ---------------------------------------------------------------------------------------------
/// A status other than success is never reported as a success, whatever the body holds; the reason
/// is passed on.
pub proof fn law_refusal_is_never_a_success(
    status: u16,
    parsed: json::JsonV,
    body: Seq<char>,
    what: Seq<char>,
)
    ensures
        reply_meaning(status, parsed, body, what) is Ok <==> is_success(status),
        !is_success(status) ==> reply_meaning(status, parsed, body, what)->Err_0.error.detail
            == Some(refusal_detail(parsed, body)),
{
}

/// Only tokens with an access token connect the channel.
pub proof fn law_only_tokens_connect(v: json::JsonV, body: Seq<char>)
    ensures
        consent(v, body) is Connected <==> v.field("access_token"@) is Some,
        consent(v, body) is Connected ==> consent(v, body) == DeviceV::Connected(v),
{
}

/// A token that does not serve is refreshed wherever that is possible; one that serves is used.
pub proof fn law_a_dead_token_is_refreshed_first(tokens: json::JsonV, error: Seq<char>)
    ensures
        user_meaning(tokens, Err(error)) is Fail <==> tokens.text_at("refresh_token"@) is None,
        forall|uid: Seq<char>| #[trigger]
            user_meaning(tokens, Ok(uid)) == UserV::Use(uid),
{
}


/// A refusal tells the status, what was asked for, what Twitch said and, for the three statuses that
/// the owner can do something about, what to do. It is answered with 502.
pub proof fn law_a_refusal_tells_status_and_advice(
    status: u16,
    parsed: json::JsonV,
    body: Seq<char>,
    what: Seq<char>,
)
    requires
        status < 200 || status >= 300,
    ensures
        reply_meaning(status, parsed, body, what) matches Err(r) && r.status == 502
            && text::holds_text(r.error.message, text::decimal(status as nat)) && what.is_prefix_of(
            r.error.message,
        ) && text::holds_text(r.error.message, hint(status)) && (parsed.text_at("message"@) matches Some(
            m,
        ) ==> (text::trimmed(m).len() > 0 ==> r.error.detail == Some(m))) && (parsed.text_at(
            "message"@,
        ) is None ==> r.error.detail == Some(text::trimmed(body))),
        hint(401) == " Токен Twitch истёк — подключите Twitch заново."@,
        hint(403) == " Не хватает прав. Проверьте scope приложения Twitch."@,
        hint(429) == " Twitch временно ограничил частоту запросов, повторите позже."@,
{
    let mid = ": Twitch ответил "@;
    let code = text::decimal(status as nat);
    let dot = "."@;
    let advice = hint(status);
    let none = Seq::<char>::empty();
    let whole = what + mid + code + dot + advice;
    text::lemma_part_is_held(what + mid, code, dot + advice);
    assert(what + mid + code + (dot + advice) =~= whole);
    text::lemma_part_is_held(what + mid + code + dot, advice, none);
    assert(what + mid + code + dot + advice + none =~= whole);
    assert(whole.take(what.len() as int) =~= what);
}

/// A success is handed on as it came, and one without a body as a plain yes.
pub proof fn law_a_success_is_handed_on(
    status: u16,
    parsed: json::JsonV,
    body: Seq<char>,
    what: Seq<char>,
)
    requires
        200 <= status < 300,
    ensures
        text::trimmed(body).len() > 0 ==> reply_meaning(status, parsed, body, what) == Ok::<
            json::JsonV,
            api::RefusalV,
        >(parsed),
        text::trimmed(body).len() == 0 ==> (reply_meaning(status, parsed, body, what) matches Ok(v)
            && v.bool_at("ok"@) == Some(true)),
{
}

/// The channel counts as connected only if an application is set up and its tokens served; why they
/// did not is told.
pub proof fn law_connected_means_tokens_served(
    cfg: TwitchConfig,
    tokens: Option<Result<(), Seq<char>>>,
    e: Seq<char>,
)
    ensures
        ({
            let v = status_value(cfg, tokens);
            &&& v.bool_at("configured"@) == Some(cfg.client_id@.len() > 0)
            &&& v.bool_at("connected"@) == Some(
                cfg.client_id@.len() > 0 && tokens is Some && tokens->0 is Ok,
            )
            &&& cfg.client_id@.len() > 0 && tokens == Some(Err::<(), Seq<char>>(e)) ==> v.text_at(
                "message"@,
            ) == Some(e)
            &&& cfg.client_id@.len() == 0 ==> v.bool_at("enabled"@) == Some(cfg.enabled)
            &&& cfg.client_id@.len() > 0 ==> v.bool_at("enabled"@) == Some(true)
        }),
{
    reveal_strlit("enabled");
    reveal_strlit("configured");
    reveal_strlit("connected");
    reveal_strlit("message");
    assert("enabled"@.len() == 7);
    assert("configured"@.len() == 10);
    assert("connected"@.len() == 9);
    assert("message"@.len() == 7);
    assert("enabled"@[0] != "message"@[0]);
}

/// Waiting for the owner is told apart from a code that is too old and from a refusal, which says
/// what Twitch said.
pub proof fn law_waiting_is_told_apart(v: json::JsonV, body: Seq<char>, said: Seq<char>)
    requires
        v.field("access_token"@) is None,
        v.text_at("message"@) == Some(said),
    ensures
        text::holds_text(said, "authorization_pending"@) ==> (consent(v, body) matches DeviceV::Waiting(
            w,
        ) && w.text_at("status"@) == Some("pending"@)),
        !text::holds_text(said, "authorization_pending"@) && text::holds_text(said, "expired"@) ==> (
        consent(v, body) matches DeviceV::Waiting(w) && w.text_at("status"@) == Some("expired"@)),
        !text::holds_text(said, "authorization_pending"@) && !text::holds_text(said, "expired"@) ==> (
        consent(v, body) matches DeviceV::Refused(r) && r.status == 502 && (said.len() > 0
            ==> r.error.detail == Some(said)) && (said.len() == 0 ==> r.error.detail == Some(
            text::trimmed(body),
        ))),
{
    reveal_strlit("status");
    reveal_strlit("message");
    assert("status"@.len() == 6);
    assert("message"@.len() == 7);
}

/// A token belongs to whom Twitch names, and only a successful reply names anyone; why not is told.
pub proof fn law_the_owner_is_whom_twitch_names(
    status: Seq<char>,
    v: json::JsonV,
    body: Seq<char>,
    id: Seq<char>,
    said: Seq<char>,
)
    ensures
        v.text_at("user_id"@) == Some(id) ==> owner_of(true, status, v, body) == Ok::<
            Seq<char>,
            Seq<char>,
        >(id),
        v.text_at("user_id"@) is None ==> owner_of(true, status, v, body) is Err,
        owner_of(false, status, v, body) is Err,
        v.text_at("message"@) == Some(said) ==> (owner_of(false, status, v, body) matches Err(e)
            && text::holds_text(e, said)),
        new_tokens(true, status, v, body) is Ok <==> v.field("access_token"@) is Some,
        new_tokens(true, status, v, body) matches Ok(w) ==> w == v,
        new_tokens(false, status, v, body) is Err,
        v.text_at("message"@) == Some(said) ==> (new_tokens(false, status, v, body) matches Err(e)
            && text::holds_text(e, said)),
{
    let none = Seq::<char>::empty();
    let a = "Twitch token не прошёл validate: "@ + status + " "@;
    let b = "Twitch refresh_token отклонён: "@ + status + " "@;
    text::lemma_part_is_held(a, said, none);
    assert(a + said + none =~= a + said);
    text::lemma_part_is_held(b, said, none);
    assert(b + said + none =~= b + said);
}

/// A token that does not serve is refreshed with the refresh token that is stored; without one the
/// first error stands.
pub proof fn law_the_stored_refresh_token_is_used(
    tokens: json::JsonV,
    error: Seq<char>,
    refresh: Seq<char>,
)
    ensures
        tokens.text_at("refresh_token"@) == Some(refresh) ==> user_meaning(tokens, Err(error))
            == UserV::Refresh(refresh),
        tokens.text_at("refresh_token"@) is None ==> user_meaning(tokens, Err(error)) == UserV::Fail(
            error,
        ),
{
}

/// A list of texts is told text by text.
pub proof fn law_texts_are_told_one_by_one(list: Seq<Seq<char>>, i: int)
    requires
        0 <= i < list.len(),
    ensures
        texts_value(list) matches json::JsonV::Array(items) && items.len() == list.len()
            && items[i].text() == Some(list[i]),
{
}

} // verus!
