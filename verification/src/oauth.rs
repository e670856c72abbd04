//! Connecting to DonationAlerts.
//!
//! The owner is sent to DonationAlerts and comes back with a code, which is exchanged for tokens.
//! Whatever goes wrong is told in words: in the log, in the panel, and on the page in the browser.
use vstd::prelude::*;
use crate::config;
use crate::config::DonationAlertsConfig;
use crate::json;
use crate::json::{Fields, Json};
use crate::obs;
use crate::secrets;
use crate::text;

verus! {

// ---------------------------------------------------------------------------------------------
// Text for pages
// ---------------------------------------------------------------------------------------------
/// A text in which nothing can be taken for markup.
pub open spec fn escaped_text(s: Seq<char>) -> Seq<char> {
    text::replaced(
        text::replaced(text::replaced(s, '&', "&amp;"@), '<', "&lt;"@),
        '>',
        "&gt;"@,
    )
}

/// A text in which nothing can be taken for markup.
pub fn html_escape_text(value: &str) -> (r: String)
    ensures
        r@ == escaped_text(value@),
{
    let a = text::replace_char(value, '&', "&amp;");
    let b = text::replace_char(a.as_str(), '<', "&lt;");
    text::replace_char(b.as_str(), '>', "&gt;")
}

/// No text from the network can bring markup onto a page: neither bracket is left.
pub proof fn law_escaped_text_has_no_brackets(s: Seq<char>)
    ensures
        !escaped_text(s).contains('<'),
        !escaped_text(s).contains('>'),
{
    reveal_strlit("&amp;");
    reveal_strlit("&lt;");
    reveal_strlit("&gt;");
    let a = text::replaced(s, '&', "&amp;"@);
    let b = text::replaced(a, '<', "&lt;"@);
    text::lemma_replaced_free(a, '<', "&lt;"@);
    text::lemma_replaced_free(b, '>', "&gt;"@);
    text::lemma_replaced_keeps_out(b, '>', "&gt;"@, '<');
}

// ---------------------------------------------------------------------------------------------
// Going to DonationAlerts
// ---------------------------------------------------------------------------------------------
/// The address to which the owner is sent.
pub open spec fn authorize_address(
    client_id: Seq<char>,
    redirect_uri: Seq<char>,
    scopes: Seq<Seq<char>>,
    state: Seq<char>,
) -> Seq<char> {
    "https://www.donationalerts.com/oauth/authorize?client_id="@ + secrets::percent_encoded(
        secrets::bytes_of(client_id),
    ) + "&redirect_uri="@ + secrets::percent_encoded(secrets::bytes_of(redirect_uri))
        + "&response_type=code&scope="@ + secrets::percent_encoded(
        secrets::bytes_of(text::joined(scopes, " "@)),
    ) + "&state="@ + secrets::percent_encoded(secrets::bytes_of(state))
}

/// The address to which the owner is sent, for a given state token.
pub fn authorize_url(cfg: &DonationAlertsConfig, state: &str) -> (r: String)
    ensures
        r@ == authorize_address(
            cfg.client_id@,
            cfg.redirect_uri@,
            text::views(cfg.oauth_scopes@),
            state@,
        ),
{
    let id = secrets::url_encode(cfg.client_id.as_str());
    let uri = secrets::url_encode(cfg.redirect_uri.as_str());
    let joined = text::join(&cfg.oauth_scopes, " ");
    let scope = secrets::url_encode(joined.as_str());
    let token = secrets::url_encode(state);
    let head = text::join4(
        "https://www.donationalerts.com/oauth/authorize?client_id=",
        id.as_str(),
        "&redirect_uri=",
        uri.as_str(),
    );
    text::join5(
        head.as_str(),
        "&response_type=code&scope=",
        scope.as_str(),
        "&state=",
        token.as_str(),
    )
}

/// Where to send the owner, and the state token to expect back.
#[derive(Debug)]
pub struct Departure {
    pub state: String,
    pub authorize_url: String,
}

/// Whether all that is needed to connect is configured.
pub open spec fn can_connect(cfg: DonationAlertsConfig) -> bool {
    cfg.client_id@.len() > 0 && cfg.client_secret@.len() > 0 && cfg.redirect_uri@.len() > 0
}

/// Starts the connection with a given state token.
pub fn start_with_state(cfg: &DonationAlertsConfig, state: String) -> (r: Result<Departure, String>)
    ensures
        match r {
            Ok(d) => can_connect(*cfg) && d.state@ == state@ && d.authorize_url@
                == authorize_address(
                cfg.client_id@,
                cfg.redirect_uri@,
                text::views(cfg.oauth_scopes@),
                state@,
            ),
            Err(e) => !can_connect(*cfg) && e@
                == "Сначала сохраните DonationAlerts client_id, client_secret и redirect URI в веб-панели."@,
        },
{
    if cfg.client_id.as_str().is_empty() || cfg.client_secret.as_str().is_empty()
        || cfg.redirect_uri.as_str().is_empty() {
        return Err(
            "Сначала сохраните DonationAlerts client_id, client_secret и redirect URI в веб-панели.".to_owned(),
        );
    }
    let authorize_url = authorize_url(cfg, state.as_str());
    Ok(Departure { state, authorize_url })
}

/// Starts the connection with a random state token.
pub fn da_oauth_start(cfg: &DonationAlertsConfig) -> (r: Result<Departure, String>)
    ensures
        r is Ok <==> can_connect(*cfg),
        r matches Ok(d) ==> d.authorize_url@ == authorize_address(
            cfg.client_id@,
            cfg.redirect_uri@,
            text::views(cfg.oauth_scopes@),
            d.state@,
        ) && d.state@.len() == 22 && (exists|b: Seq<u8>|
            b.len() == 16 && d.state@ == #[trigger] secrets::base64_url_of(b)),
        r matches Err(e) ==> e@
            == "Сначала сохраните DonationAlerts client_id, client_secret и redirect URI в веб-панели."@,
{
    let state = secrets::random_secret_b64(16);
    start_with_state(cfg, state)
}

/// What the panel is told of where to go.
pub fn departure_answer(departure: &Departure) -> (r: Json)
    ensures
        r@ == obs::one_text("authorize_url"@, departure.authorize_url@),
{
    obs::with_text("authorize_url", departure.authorize_url.as_str())
}

// ---------------------------------------------------------------------------------------------
// Coming back
// ---------------------------------------------------------------------------------------------
/// The parameters with which the owner comes back.
#[derive(Debug)]
pub struct CallbackQuery {
    pub error: Option<String>,
    pub error_description: Option<String>,
    pub code: Option<String>,
    pub state: Option<String>,
}

/// What follows from the parameters.
#[derive(Debug)]
pub enum CallbackStep {
    /// The connection failed, for this reason.
    Refused(String),
    /// Exchange this code for tokens.
    Exchange { code: String },
}

/// What follows from the parameters.
#[verifier::ext_equal]
pub enum CallbackV {
    Refused(Seq<char>),
    Exchange(Seq<char>),
}

impl View for CallbackStep {
    type V = CallbackV;

    open spec fn view(&self) -> CallbackV {
        match *self {
            CallbackStep::Refused(note) => CallbackV::Refused(note@),
            CallbackStep::Exchange { code } => CallbackV::Exchange(code@),
        }
    }
}

/// What follows from the parameters, given the state token that is expected. The token makes sure
/// that the code belongs to the connection that was started here: without it anyone in the tailnet
/// could slip in a code of their own.
pub open spec fn callback_meaning(q: CallbackQuery, expected: Option<Seq<char>>) -> CallbackV {
    if q.error is Some {
        let detail = match q.error_description {
            Some(d) => d@,
            None => q.error->0@,
        };
        CallbackV::Refused(
            "DonationAlerts отказал: "@ + detail
                + ". Проверьте, что Redirect URI в настройках приложения DonationAlerts совпадает с указанным в панели буква в букву."@,
        )
    } else if q.code is None {
        CallbackV::Refused(
            "В ответе нет authorization code. Начните подключение заново из панели."@,
        )
    } else if expected is None {
        CallbackV::Refused(
            "Ответ пришёл, но подключение не начиналось или уже было завершено. Нажмите «Подключить DonationAlerts» и пройдите вход заново."@,
        )
    } else if text::opt_view(q.state) != expected {
        CallbackV::Refused(
            "Проверка state не пройдена: ответ не относится к начатому подключению. Начните заново из панели."@,
        )
    } else {
        CallbackV::Exchange(q.code->0@)
    }
}

/// Takes the parameters and says what follows. Once a code has come, the expected token is used up,
/// whether it matched or not.
pub fn begin_callback(q: &CallbackQuery, expected: &mut Option<String>) -> (r: CallbackStep)
    ensures
        r@ == callback_meaning(*q, text::opt_view(*old(expected))),
        *final(expected) == (if q.error is None && q.code is Some {
            None
        } else {
            *old(expected)
        }),
{
    if let Some(error) = &q.error {
        let detail = match &q.error_description {
            Some(d) => d.as_str(),
            None => error.as_str(),
        };
        return CallbackStep::Refused(
            text::join3(
                "DonationAlerts отказал: ",
                detail,
                ". Проверьте, что Redirect URI в настройках приложения DonationAlerts совпадает с указанным в панели буква в букву.",
            ),
        );
    }
    let code = match &q.code {
        Some(code) => code,
        None => {
            return CallbackStep::Refused(
                "В ответе нет authorization code. Начните подключение заново из панели.".to_owned(),
            );
        },
    };
    match expected.take() {
        None => CallbackStep::Refused(
            "Ответ пришёл, но подключение не начиналось или уже было завершено. Нажмите «Подключить DonationAlerts» и пройдите вход заново.".to_owned(),
        ),
        Some(token) => {
            let matches_token = match &q.state {
                Some(got) => secrets::secret_eq(token.as_str(), got.as_str()),
                None => false,
            };
            if matches_token {
                CallbackStep::Exchange { code: code.clone() }
            } else {
                CallbackStep::Refused(
                    "Проверка state не пройдена: ответ не относится к начатому подключению. Начните заново из панели.".to_owned(),
                )
            }
        },
    }
}

/// The form by which a code is exchanged for tokens.
pub open spec fn exchange_form_view(cfg: DonationAlertsConfig, code: Seq<char>) -> Seq<
    (Seq<char>, Seq<char>),
> {
    seq![
        ("grant_type"@, "authorization_code"@),
        ("client_id"@, cfg.client_id@),
        ("client_secret"@, cfg.client_secret@),
        ("redirect_uri"@, cfg.redirect_uri@),
        ("code"@, code),
    ]
}

/// What the fields of a form are.
pub open spec fn form_view(form: Seq<(String, String)>) -> Seq<(Seq<char>, Seq<char>)> {
    form.map_values(|p: (String, String)| (p.0@, p.1@))
}

/// Adds a field to a form.
pub fn add_form_field(form: &mut Vec<(String, String)>, key: &str, value: &str)
    ensures
        form_view(final(form)@) == form_view(old(form)@).push((key@, value@)),
{
    let ghost before = form@;
    form.push((key.to_owned(), value.to_owned()));
    assert(form_view(form@) =~= form_view(before).push((key@, value@)));
}

/// The form by which a code is exchanged for tokens.
pub fn exchange_form(cfg: &DonationAlertsConfig, code: &str) -> (r: Vec<(String, String)>)
    ensures
        form_view(r@) == exchange_form_view(*cfg, code@),
{
    let mut form: Vec<(String, String)> = Vec::new();
    add_form_field(&mut form, "grant_type", "authorization_code");
    add_form_field(&mut form, "client_id", cfg.client_id.as_str());
    add_form_field(&mut form, "client_secret", cfg.client_secret.as_str());
    add_form_field(&mut form, "redirect_uri", cfg.redirect_uri.as_str());
    add_form_field(&mut form, "code", code);
    assert(form_view(form@) =~= exchange_form_view(*cfg, code@));
    form
}

/// The form by which tokens are refreshed.
pub open spec fn refresh_form_view(cfg: DonationAlertsConfig, refresh: Seq<char>) -> Seq<
    (Seq<char>, Seq<char>),
> {
    seq![
        ("grant_type"@, "refresh_token"@),
        ("refresh_token"@, refresh),
        ("client_id"@, cfg.client_id@),
        ("client_secret"@, cfg.client_secret@),
        ("scope"@, text::joined(text::views(cfg.oauth_scopes@), " "@)),
    ]
}

/// The form by which tokens are refreshed; it takes a client id and a client secret.
pub fn refresh_form(cfg: &DonationAlertsConfig, refresh: &str) -> (r: Result<
    Vec<(String, String)>,
    String,
>)
    ensures
        match r {
            Ok(form) => cfg.client_id@.len() > 0 && cfg.client_secret@.len() > 0 && form_view(
                form@,
            ) == refresh_form_view(*cfg, refresh@),
            Err(e) => (cfg.client_id@.len() == 0 || cfg.client_secret@.len() == 0) && e@
                == "для обновления токена нужны donationalerts.client_id и client_secret в config/host.json"@,
        },
{
    if cfg.client_id.as_str().is_empty() || cfg.client_secret.as_str().is_empty() {
        return Err(
            "для обновления токена нужны donationalerts.client_id и client_secret в config/host.json".to_owned(),
        );
    }
    let scope = text::join(&cfg.oauth_scopes, " ");
    let mut form: Vec<(String, String)> = Vec::new();
    add_form_field(&mut form, "grant_type", "refresh_token");
    add_form_field(&mut form, "refresh_token", refresh);
    add_form_field(&mut form, "client_id", cfg.client_id.as_str());
    add_form_field(&mut form, "client_secret", cfg.client_secret.as_str());
    add_form_field(&mut form, "scope", scope.as_str());
    assert(form_view(form@) =~= refresh_form_view(*cfg, refresh@));
    Ok(form)
}

/// The first of some texts that is not blank, trimmed.
pub open spec fn first_meaningful(list: Seq<Option<Seq<char>>>) -> Option<Seq<char>>
    decreases list.len(),
{
    if list.len() == 0 {
        None
    } else {
        match list[0] {
            Some(s) => if text::trimmed(s).len() > 0 {
                Some(text::trimmed(s))
            } else {
                first_meaningful(list.skip(1))
            },
            None => first_meaningful(list.skip(1)),
        }
    }
}

/// What a refusal of tokens says, for a human: the explanation in the reply, else its short code,
/// else the beginning of the reply itself.
pub open spec fn detail_of(parsed: json::JsonV, body: Seq<char>) -> Seq<char> {
    match first_meaningful(
        seq![
            parsed.text_at("message"@),
            parsed.text_at("error_description"@),
            parsed.text_at("error"@),
        ],
    ) {
        Some(t) => t,
        None => {
            let t = text::trimmed(body);
            if t.len() == 0 {
                "пустой ответ"@
            } else if t.len() <= 300 {
                t
            } else {
                t.take(300)
            }
        },
    }
}

fn trimmed_field(v: &Json, key: &str) -> (r: Option<String>)
    ensures
        text::opt_view(r) == (match v@.text_at(key@) {
            Some(s) => if text::trimmed(s).len() > 0 {
                Some(text::trimmed(s))
            } else {
                None
            },
            None => None,
        }),
{
    match v.get_str(key) {
        Some(s) => {
            let t = text::trim(s);
            if t.as_str().is_empty() {
                None
            } else {
                Some(t)
            }
        },
        None => None,
    }
}

/// What a refusal of tokens says, from the reply and what it reads as.
pub fn error_detail_of(parsed: &Json, body: &str) -> (r: String)
    ensures
        r@ == detail_of(parsed@, body@),
{
    let ghost list = seq![
        parsed@.text_at("message"@),
        parsed@.text_at("error_description"@),
        parsed@.text_at("error"@),
    ];
    proof {
        reveal_with_fuel(first_meaningful, 4);
        assert(list.skip(1) =~= seq![
            parsed@.text_at("error_description"@),
            parsed@.text_at("error"@),
        ]);
        assert(list.skip(1).skip(1) =~= seq![parsed@.text_at("error"@)]);
        assert(list.skip(1).skip(1).skip(1) =~= Seq::empty());
    }
    if let Some(t) = trimmed_field(parsed, "message") {
        return t;
    }
    if let Some(t) = trimmed_field(parsed, "error_description") {
        return t;
    }
    if let Some(t) = trimmed_field(parsed, "error") {
        return t;
    }
    let t = text::trim(body);
    if t.as_str().is_empty() {
        "пустой ответ".to_owned()
    } else {
        text::take_chars(t.as_str(), 300)
    }
}

/// What a refusal of tokens says, for a human.
pub fn token_error_detail(body: &str) -> (r: String)
    ensures
        r@ == detail_of(json::parsed_or_null(body@), body@),
{
    error_detail_of(&Json::parse_or_null(body), body)
}

/// What became of the exchange.
#[derive(Debug)]
pub enum TokenOutcome {
    /// No tokens were given, for this reason.
    Refused(String),
    /// Store this.
    Store(Json),
}

/// What became of the exchange, by the status of the reply, what it reads as, and the reply.
pub open spec fn exchange_meaning(status: u16, parsed: json::JsonV, body: Seq<char>) -> Result<
    json::JsonV,
    Seq<char>,
> {
    if parsed.field("access_token"@) is Some {
        Ok(parsed)
    } else {
        Err(
            "DonationAlerts вернул "@ + text::decimal(status as nat) + " и не выдал токен: "@
                + detail_of(parsed, body),
        )
    }
}

impl TokenOutcome {
    /// What became of the exchange: what to store, or why there is nothing.
    pub open spec fn meaning(self) -> Result<json::JsonV, Seq<char>> {
        match self {
            TokenOutcome::Store(v) => Ok(v@),
            TokenOutcome::Refused(note) => Err(note@),
        }
    }
}

/// What became of the exchange, from what the reply reads as.
pub fn exchange_outcome_of(status: u16, parsed: Json, body: &str) -> (r: TokenOutcome)
    ensures
        r.meaning() == exchange_meaning(status, parsed@, body@),
{
    if parsed.get("access_token").is_some() {
        TokenOutcome::Store(parsed)
    } else {
        let code = text::number(status as u128);
        let detail = error_detail_of(&parsed, body);
        TokenOutcome::Refused(
            text::join4(
                "DonationAlerts вернул ",
                code.as_str(),
                " и не выдал токен: ",
                detail.as_str(),
            ),
        )
    }
}

/// What became of the exchange.
pub fn exchange_outcome(status: u16, body: &str) -> (r: TokenOutcome)
    ensures
        r.meaning() == exchange_meaning(status, json::parsed_or_null(body@), body@),
{
    exchange_outcome_of(status, Json::parse_or_null(body), body)
}

/// What to say when the server of tokens cannot be reached.
pub fn exchange_unreachable(error: &str) -> (r: String)
    ensures
        r@ == "Сервер токенов DonationAlerts недоступен: "@ + error@,
{
    text::join2("Сервер токенов DonationAlerts недоступен: ", error)
}

/// What to say once the tokens were stored, or could not be.
pub fn stored_note(saved: &Result<(), String>) -> (r: (bool, String))
    ensures
        r.0 == (saved is Ok),
        r.1@ == (match saved {
            Ok(_) => "Подключение выполнено, токен сохранён."@,
            Err(e) => "Токен получен, но сохранить не удалось: "@ + e@,
        }),
{
    match saved {
        Ok(_) => (true, "Подключение выполнено, токен сохранён.".to_owned()),
        Err(e) => (
            false,
            text::join2("Токен получен, но сохранить не удалось: ", e.as_str()),
        ),
    }
}

/// The title of the page.
pub open spec fn page_title(ok: bool) -> Seq<char> {
    if ok {
        "DonationAlerts подключён"@
    } else {
        "DonationAlerts: подключиться не удалось"@
    }
}

/// The page that the browser shows at the end.
pub open spec fn page(ok: bool, note: Seq<char>) -> Seq<char> {
    "<!doctype html><html lang=\"ru\"><head><meta charset=\"utf-8\"><title>"@ + page_title(ok)
        + "</title></head><body><h1>"@ + page_title(ok) + "</h1><p role=\"status\">"@
        + escaped_text(note)
        + "</p><p>Эту вкладку можно закрыть: то же сообщение показано в панели.</p></body></html>"@
}

/// The event that tells the panel of the outcome.
pub open spec fn outcome_event(ok: bool, note: Seq<char>) -> json::JsonV {
    json::JsonV::Object(
        map![
            "type"@ => json::JsonV::Str("donationalerts_status"@),
            "oauth_ok"@ => json::JsonV::Bool(ok),
            "message"@ => json::JsonV::Str(note),
        ],
    )
}

/// The outcome of a connection: where it is shown.
#[derive(Debug)]
pub struct Outcome {
    /// For everyone who listens.
    pub event: Json,
    /// For the browser.
    pub page: String,
}

/// The outcome as an event and as a page.
pub fn finish_oauth(ok: bool, note: &str) -> (r: Outcome)
    ensures
        r.event@ == outcome_event(ok, note@),
        r.page@ == page(ok, note@),
{
    let event = Fields::new().put("type", Json::text("donationalerts_status")).put(
        "oauth_ok",
        Json::Bool(ok),
    ).put("message", Json::text(note)).json();
    let title = if ok {
        "DonationAlerts подключён"
    } else {
        "DonationAlerts: подключиться не удалось"
    };
    let shown = html_escape_text(note);
    let head = text::join5(
        "<!doctype html><html lang=\"ru\"><head><meta charset=\"utf-8\"><title>",
        title,
        "</title></head><body><h1>",
        title,
        "</h1><p role=\"status\">",
    );
    let page = text::join3(
        head.as_str(),
        shown.as_str(),
        "</p><p>Эту вкладку можно закрыть: то же сообщение показано в панели.</p></body></html>",
    );
    Outcome { event, page }
}

// ---------------------------------------------------------------------------------------------
// Configuration from the panel
// ---------------------------------------------------------------------------------------------
/// A text field of a form, without the white space around it. A blank one is missing.
pub open spec fn required(body: json::JsonV, field: Seq<char>) -> Option<Seq<char>> {
    match body.text_at(field) {
        Some(s) => if text::trimmed(s).len() > 0 {
            Some(text::trimmed(s))
        } else {
            None
        },
        None => None,
    }
}

/// A text field of a form that must be there; without it the message is the error.
pub fn required_trimmed(body: &Json, field: &str, message: &str) -> (r: Result<String, String>)
    ensures
        match r {
            Ok(s) => required(body@, field@) == Some(s@),
            Err(e) => required(body@, field@) is None && e@ == message@,
        },
{
    match trimmed_field(body, field) {
        Some(s) => Ok(s),
        None => Err(message.to_owned()),
    }
}

/// What the panel sets for DonationAlerts.
#[derive(Debug)]
pub struct DonationAlertsUpdate {
    pub client_id: String,
    pub redirect_uri: String,
    pub scopes: Vec<String>,
    /// A new secret, if one was given; the old one stays otherwise.
    pub client_secret: Option<String>,
}

/// Why the panel's settings for DonationAlerts are refused, if they are.
pub open spec fn da_refusal(body: json::JsonV, current: DonationAlertsConfig) -> Option<Seq<char>> {
    if required(body, "clientId"@) is None {
        Some("DonationAlerts client_id обязателен"@)
    } else if required(body, "redirectUri"@) is None {
        Some("DonationAlerts redirect URI обязателен"@)
    } else if required(body, "clientSecret"@) is None && current.client_secret@.len() == 0 {
        Some("DonationAlerts client_secret обязателен при первой настройке."@)
    } else {
        None
    }
}

/// Takes the panel's settings for DonationAlerts.
pub fn da_config_set(body: &Json, current: &DonationAlertsConfig) -> (r: Result<
    DonationAlertsUpdate,
    String,
>)
    ensures
        match r {
            Ok(u) => {
                &&& da_refusal(body@, *current) is None
                &&& required(body@, "clientId"@) == Some(u.client_id@)
                &&& required(body@, "redirectUri"@) == Some(u.redirect_uri@)
                &&& text::views(u.scopes@) == config::requested_scopes(
                    body@,
                    "scopes"@,
                    text::views(current.oauth_scopes@),
                )
                &&& text::opt_view(u.client_secret) == required(body@, "clientSecret"@)
            },
            Err(e) => da_refusal(body@, *current) == Some(e@),
        },
{
    let client_id = match required_trimmed(
        body,
        "clientId",
        "DonationAlerts client_id обязателен",
    ) {
        Ok(s) => s,
        Err(e) => {
            return Err(e);
        },
    };
    let redirect_uri = match required_trimmed(
        body,
        "redirectUri",
        "DonationAlerts redirect URI обязателен",
    ) {
        Ok(s) => s,
        Err(e) => {
            return Err(e);
        },
    };
    let scopes = config::scopes_from_body(body, "scopes", &current.oauth_scopes);
    let client_secret = trimmed_field(body, "clientSecret");
    if client_secret.is_none() && current.client_secret.as_str().is_empty() {
        return Err("DonationAlerts client_secret обязателен при первой настройке.".to_owned());
    }
    Ok(DonationAlertsUpdate { client_id, redirect_uri, scopes, client_secret })
}

/// Writes the panel's settings into the configuration. The secret goes to the store and never into
/// the file.
pub fn apply_update(cfg: &mut DonationAlertsConfig, update: &DonationAlertsUpdate)
    ensures
        final(cfg).client_id@ == update.client_id@,
        final(cfg).client_secret@.len() == 0,
        final(cfg).redirect_uri@ == update.redirect_uri@,
        text::views(final(cfg).oauth_scopes@) == text::views(update.scopes@),
        final(cfg).oauth_enabled,
        final(cfg).enabled == old(cfg).enabled,
        final(cfg).overlay_scene_name == old(cfg).overlay_scene_name,
        final(cfg).input_name == old(cfg).input_name,
        final(cfg).enforce_overlays == old(cfg).enforce_overlays,
        final(cfg).browser_width == old(cfg).browser_width,
        final(cfg).browser_height == old(cfg).browser_height,
        final(cfg).reroute_audio == old(cfg).reroute_audio,
        final(cfg).initial_volume_db == old(cfg).initial_volume_db,
        final(cfg).monitoring == old(cfg).monitoring,
        final(cfg).announce_new_donations_to_nvda == old(cfg).announce_new_donations_to_nvda,
{
    cfg.client_id = update.client_id.clone();
    cfg.client_secret = String::new();
    cfg.redirect_uri = update.redirect_uri.clone();
    cfg.oauth_scopes = text::copy_list(&update.scopes);
    cfg.oauth_enabled = true;
}

/// What the panel is told after its settings were saved. The secret itself is not repeated.
pub open spec fn update_reply(
    client_id: Seq<char>,
    redirect_uri: Seq<char>,
    scopes: Seq<Seq<char>>,
    secret_configured: bool,
) -> json::JsonV {
    json::JsonV::Object(
        map![
            "ok"@ => json::JsonV::Bool(true),
            "client_id"@ => json::JsonV::Str(client_id),
            "client_secret_configured"@ => json::JsonV::Bool(secret_configured),
            "redirect_uri"@ => json::JsonV::Str(redirect_uri),
            "oauth_scopes"@ => json::JsonV::Array(scopes.map_values(|s: Seq<char>| json::JsonV::Str(s))),
        ],
    )
}

/// What the panel is told after its settings were saved.
pub fn update_response(update: &DonationAlertsUpdate, current: &DonationAlertsConfig) -> (r: Json)
    ensures
        r@ == update_reply(
            update.client_id@,
            update.redirect_uri@,
            text::views(update.scopes@),
            update.client_secret is Some || current.client_secret@.len() > 0,
        ),
{
    let configured = update.client_secret.is_some() || !current.client_secret.as_str().is_empty();
    Fields::new().put("ok", Json::Bool(true)).put(
        "client_id",
        Json::text(update.client_id.as_str()),
    ).put("client_secret_configured", Json::Bool(configured)).put(
        "redirect_uri",
        Json::text(update.redirect_uri.as_str()),
    ).put("oauth_scopes", Json::texts(&update.scopes)).json()
}

/// The configuration of DonationAlerts as the panel shows it: of the secret, only whether there is
/// one.
pub open spec fn shown_config(cfg: DonationAlertsConfig) -> json::JsonV {
    json::JsonV::Object(
        map![
            "client_id"@ => json::JsonV::Str(cfg.client_id@),
            "client_secret_configured"@ => json::JsonV::Bool(cfg.client_secret@.len() > 0),
            "redirect_uri"@ => json::JsonV::Str(cfg.redirect_uri@),
            "oauth_enabled"@ => json::JsonV::Bool(cfg.oauth_enabled),
            "oauth_scopes"@ => json::JsonV::Array(
                text::views(cfg.oauth_scopes@).map_values(|s: Seq<char>| json::JsonV::Str(s)),
            ),
        ],
    )
}

/// The configuration of DonationAlerts as the panel shows it.
pub fn da_config_get(cfg: &DonationAlertsConfig) -> (r: Json)
    ensures
        r@ == shown_config(*cfg),
{
    Fields::new().put("client_id", Json::text(cfg.client_id.as_str())).put(
        "client_secret_configured",
        Json::Bool(!cfg.client_secret.as_str().is_empty()),
    ).put("redirect_uri", Json::text(cfg.redirect_uri.as_str())).put(
        "oauth_enabled",
        Json::Bool(cfg.oauth_enabled),
    ).put("oauth_scopes", Json::texts(&cfg.oauth_scopes)).json()
}

/// The address of a widget, if it is one: the widget is always served over https.
pub fn da_widget_url(body: &Json) -> (r: Result<String, String>)
    ensures
        match r {
            Ok(url) => url@ == text::trimmed(obs::or_empty(body@.text_at("url"@)))
                && "https://"@.is_prefix_of(url@),
            Err(e) => !"https://"@.is_prefix_of(
                text::trimmed(obs::or_empty(body@.text_at("url"@))),
            ) && e@ == "Введите https-ссылку Alerts Widget со страницы DonationAlerts."@,
        },
{
    let url = match body.get_str("url") {
        Some(s) => text::trim(s),
        None => {
            assert(text::trimmed(Seq::<char>::empty()) =~= Seq::empty());
            String::new()
        },
    };
    if text::starts_with(url.as_str(), "https://") {
        Ok(url)
    } else {
        Err("Введите https-ссылку Alerts Widget со страницы DonationAlerts.".to_owned())
    }
}

// ---------------------------------------------------------------------------------------------
// Laws
// ---------------------------------------------------------------------------------------------
/// A code is exchanged only if the owner came back without an error, with a code, and with the very
/// state token that was handed out.
pub proof fn law_only_the_started_connection_is_exchanged(
    q: CallbackQuery,
    expected: Option<Seq<char>>,
)
    ensures
        callback_meaning(q, expected) is Exchange <==> q.error is None && q.code is Some
            && expected is Some && text::opt_view(q.state) == expected,
{
}

/// After a code has come, coming back once more with the same code leads nowhere: the state token
/// was used up.
pub proof fn law_state_is_used_once(q: CallbackQuery)
    ensures
        callback_meaning(q, None) is Refused,
{
}

/// The secret is not shown: another one in its place would not change what the panel gets.
pub proof fn law_secret_is_not_shown(cfg: DonationAlertsConfig, other: String)
    requires
        (cfg.client_secret@.len() > 0) == (other@.len() > 0),
    ensures
        shown_config(DonationAlertsConfig { client_secret: other, ..cfg }) == shown_config(cfg),
{
}


/// Escaping changes the three characters of markup and no other, each to its own name.
pub proof fn law_only_markup_is_escaped(c: char)
    ensures
        c != '&' && c != '<' && c != '>' ==> escaped_text(seq![c]) == seq![c],
        escaped_text(seq!['&']) == "&amp;"@,
        escaped_text(seq!['<']) == "&lt;"@,
        escaped_text(seq!['>']) == "&gt;"@,
        escaped_text(Seq::empty()).len() == 0,
{
    reveal_with_fuel(text::replaced, 7);
    reveal_strlit("&amp;");
    reveal_strlit("&lt;");
    reveal_strlit("&gt;");
    assert(seq![c].drop_last() =~= Seq::empty());
    assert(seq!['&'].drop_last() =~= Seq::empty());
    assert(seq!['<'].drop_last() =~= Seq::empty());
    assert(seq!['>'].drop_last() =~= Seq::empty());
    text::law_a_replacement_changes_one_character('&', "&amp;"@, c);
    text::law_a_replacement_changes_one_character('<', "&lt;"@, c);
    text::law_a_replacement_changes_one_character('>', "&gt;"@, c);
    text::law_a_replacement_changes_one_character('&', "&amp;"@, '<');
    text::law_a_replacement_changes_one_character('&', "&amp;"@, '>');
    text::law_a_replacement_changes_one_character('<', "&lt;"@, '>');
}

/// Escaping goes character by character: a text of two parts is escaped part by part.
pub proof fn law_escaping_goes_part_by_part(a: Seq<char>, b: Seq<char>)
    ensures
        escaped_text(a + b) == escaped_text(a) + escaped_text(b),
{
    text::lemma_replaced_concat(a, b, '&', "&amp;"@);
    let a1 = text::replaced(a, '&', "&amp;"@);
    let b1 = text::replaced(b, '&', "&amp;"@);
    text::lemma_replaced_concat(a1, b1, '<', "&lt;"@);
    text::lemma_replaced_concat(
        text::replaced(a1, '<', "&lt;"@),
        text::replaced(b1, '<', "&lt;"@),
        '>',
        "&gt;"@,
    );
}

/// The owner is sent to DonationAlerts with the id of the application, the address to come back to,
/// all scopes and the state token, each encoded, and a code is asked for.
pub proof fn law_the_address_holds_what_is_needed(
    client_id: Seq<char>,
    redirect_uri: Seq<char>,
    scopes: Seq<Seq<char>>,
    state: Seq<char>,
)
    ensures
        ({
            let url = authorize_address(client_id, redirect_uri, scopes, state);
            let id = secrets::percent_encoded(secrets::bytes_of(client_id));
            let back = secrets::percent_encoded(secrets::bytes_of(redirect_uri));
            let wanted = secrets::percent_encoded(secrets::bytes_of(text::joined(scopes, " "@)));
            let token = secrets::percent_encoded(secrets::bytes_of(state));
            &&& "https://www.donationalerts.com/oauth/authorize?"@.is_prefix_of(url)
            &&& text::holds_text(url, "client_id="@ + id)
            &&& text::holds_text(url, "&redirect_uri="@ + back)
            &&& text::holds_text(url, "&response_type=code"@)
            &&& text::holds_text(url, "&scope="@ + wanted)
            &&& text::holds_text(url, "&state="@ + token)
        }),
{
    let url = authorize_address(client_id, redirect_uri, scopes, state);
    let id = secrets::percent_encoded(secrets::bytes_of(client_id));
    let back = secrets::percent_encoded(secrets::bytes_of(redirect_uri));
    let wanted = secrets::percent_encoded(secrets::bytes_of(text::joined(scopes, " "@)));
    let token = secrets::percent_encoded(secrets::bytes_of(state));
    let base = "https://www.donationalerts.com/oauth/authorize?"@;
    let none = Seq::<char>::empty();
    reveal_strlit("https://www.donationalerts.com/oauth/authorize?client_id=");
    reveal_strlit("https://www.donationalerts.com/oauth/authorize?");
    reveal_strlit("client_id=");
    reveal_strlit("&response_type=code&scope=");
    reveal_strlit("&response_type=code");
    reveal_strlit("&scope=");
    assert("https://www.donationalerts.com/oauth/authorize?client_id="@ =~= base + "client_id="@);
    assert("&response_type=code&scope="@ =~= "&response_type=code"@ + "&scope="@);
    let t1 = "&redirect_uri="@ + back;
    let t2 = "&scope="@ + wanted;
    let t3 = "&state="@ + token;
    let code = "&response_type=code"@;
    assert(url =~= base + ("client_id="@ + id) + (t1 + code + t2 + t3));
    assert(url.take(base.len() as int) =~= base);
    text::lemma_part_is_held(base, "client_id="@ + id, t1 + code + t2 + t3);
    assert(url =~= (base + ("client_id="@ + id)) + t1 + (code + t2 + t3));
    text::lemma_part_is_held(base + ("client_id="@ + id), t1, code + t2 + t3);
    assert(url =~= (base + ("client_id="@ + id) + t1) + code + (t2 + t3));
    text::lemma_part_is_held(base + ("client_id="@ + id) + t1, code, t2 + t3);
    assert(url =~= (base + ("client_id="@ + id) + t1 + code) + t2 + t3);
    text::lemma_part_is_held(base + ("client_id="@ + id) + t1 + code, t2, t3);
    assert(url =~= (base + ("client_id="@ + id) + t1 + code + t2) + t3 + none);
    text::lemma_part_is_held(base + ("client_id="@ + id) + t1 + code + t2, t3, none);
}

/// A connection is started only with an id, a secret and an address to come back to.
pub proof fn law_all_three_are_needed_to_connect(cfg: DonationAlertsConfig)
    ensures
        can_connect(cfg) <==> cfg.client_id@.len() > 0 && cfg.client_secret@.len() > 0
            && cfg.redirect_uri@.len() > 0,
{
}

/// The code that came is the one that is exchanged, and a refusal says what DonationAlerts said: its
/// description, or its error where there is none.
pub proof fn law_the_code_that_came_is_exchanged(
    q: CallbackQuery,
    expected: Option<Seq<char>>,
    said: Seq<char>,
)
    ensures
        callback_meaning(q, expected) matches CallbackV::Exchange(code) ==> text::opt_view(q.code)
            == Some(code),
        q.error is Some && text::opt_view(q.error_description) == Some(said) ==> (callback_meaning(
            q,
            expected,
        ) matches CallbackV::Refused(note) && text::holds_text(note, said)),
        text::opt_view(q.error) == Some(said) && q.error_description is None ==> (callback_meaning(
            q,
            expected,
        ) matches CallbackV::Refused(note) && text::holds_text(note, said)),
{
    text::lemma_part_is_held(
        "DonationAlerts отказал: "@,
        said,
        ". Проверьте, что Redirect URI в настройках приложения DonationAlerts совпадает с указанным в панели буква в букву."@,
    );
}

/// The form that exchanges a code, and the one that refreshes tokens, hold what DonationAlerts asks
/// for: each value under its name.
pub proof fn law_the_forms_hold_their_values(
    cfg: DonationAlertsConfig,
    code: Seq<char>,
    refresh: Seq<char>,
)
    ensures
        exchange_form_view(cfg, code).contains(("grant_type"@, "authorization_code"@)),
        exchange_form_view(cfg, code).contains(("client_id"@, cfg.client_id@)),
        exchange_form_view(cfg, code).contains(("client_secret"@, cfg.client_secret@)),
        exchange_form_view(cfg, code).contains(("redirect_uri"@, cfg.redirect_uri@)),
        exchange_form_view(cfg, code).contains(("code"@, code)),
        exchange_form_view(cfg, code).len() == 5,
        refresh_form_view(cfg, refresh).contains(("grant_type"@, "refresh_token"@)),
        refresh_form_view(cfg, refresh).contains(("refresh_token"@, refresh)),
        refresh_form_view(cfg, refresh).contains(("client_id"@, cfg.client_id@)),
        refresh_form_view(cfg, refresh).contains(("client_secret"@, cfg.client_secret@)),
        refresh_form_view(cfg, refresh).contains(
            ("scope"@, text::joined(text::views(cfg.oauth_scopes@), " "@)),
        ),
        refresh_form_view(cfg, refresh).len() == 5,
{
    let a = exchange_form_view(cfg, code);
    let b = refresh_form_view(cfg, refresh);
    assert(a[0] == ("grant_type"@, "authorization_code"@));
    assert(a[1] == ("client_id"@, cfg.client_id@));
    assert(a[2] == ("client_secret"@, cfg.client_secret@));
    assert(a[3] == ("redirect_uri"@, cfg.redirect_uri@));
    assert(a[4] == ("code"@, code));
    assert(b[0] == ("grant_type"@, "refresh_token"@));
    assert(b[1] == ("refresh_token"@, refresh));
    assert(b[2] == ("client_id"@, cfg.client_id@));
    assert(b[3] == ("client_secret"@, cfg.client_secret@));
    assert(b[4] == ("scope"@, text::joined(text::views(cfg.oauth_scopes@), " "@)));
}

/// A refusal is explained by the message, else by the description, else by the error, else by the
/// beginning of the reply, of which at most three hundred characters are told.
pub proof fn law_a_refusal_is_explained(parsed: json::JsonV, body: Seq<char>, said: Seq<char>)
    requires
        text::trimmed(said).len() > 0,
    ensures
        parsed.text_at("message"@) == Some(said) ==> detail_of(parsed, body) == text::trimmed(said),
        parsed.text_at("message"@) is None && parsed.text_at("error_description"@) == Some(said)
            ==> detail_of(parsed, body) == text::trimmed(said),
        parsed.text_at("message"@) is None && parsed.text_at("error_description"@) is None
            && parsed.text_at("error"@) == Some(said) ==> detail_of(parsed, body) == text::trimmed(
            said,
        ),
        parsed.text_at("message"@) is None && parsed.text_at("error_description"@) is None
            && parsed.text_at("error"@) is None ==> {
            &&& text::trimmed(body).len() == 0 ==> detail_of(parsed, body) == "пустой ответ"@
            &&& 0 < text::trimmed(body).len() <= 300 ==> detail_of(parsed, body) == text::trimmed(body)
            &&& text::trimmed(body).len() > 300 ==> detail_of(parsed, body).len() == 300 && detail_of(
                parsed,
                body,
            ).is_prefix_of(text::trimmed(body))
        },
{
    reveal_with_fuel(first_meaningful, 4);
    let a = parsed.text_at("message"@);
    let b = parsed.text_at("error_description"@);
    let c = parsed.text_at("error"@);
    let list = seq![a, b, c];
    assert(list.skip(1) =~= seq![b, c]);
    assert(seq![b, c].skip(1) =~= seq![c]);
    assert(seq![c].skip(1) =~= Seq::empty());
}

/// Tokens are stored exactly if the reply has an access token, and then as they came; otherwise the
/// owner learns the status and the reason.
pub proof fn law_only_tokens_are_stored(status: u16, parsed: json::JsonV, body: Seq<char>)
    ensures
        parsed.field("access_token"@) is Some <==> exchange_meaning(status, parsed, body) is Ok,
        exchange_meaning(status, parsed, body) matches Ok(v) ==> v == parsed,
        exchange_meaning(status, parsed, body) matches Err(note) ==> text::holds_text(
            note,
            text::decimal(status as nat),
        ) && text::holds_text(note, detail_of(parsed, body)),
{
    let head = "DonationAlerts вернул "@;
    let code = text::decimal(status as nat);
    let mid = " и не выдал токен: "@;
    let detail = detail_of(parsed, body);
    let none = Seq::<char>::empty();
    text::lemma_part_is_held(head, code, mid + detail);
    assert(head + code + (mid + detail) =~= head + code + mid + detail);
    text::lemma_part_is_held(head + code + mid, detail, none);
    assert(head + code + mid + detail + none =~= head + code + mid + detail);
}

/// The panel and the browser learn the same: whether it worked, and the note, which on the page holds
/// no markup.
pub proof fn law_the_outcome_is_shown_twice(ok: bool, note: Seq<char>)
    ensures
        outcome_event(ok, note).text_at("type"@) == Some("donationalerts_status"@),
        outcome_event(ok, note).bool_at("oauth_ok"@) == Some(ok),
        outcome_event(ok, note).text_at("message"@) == Some(note),
        text::holds_text(page(ok, note), escaped_text(note)),
        text::holds_text(page(true, note), "DonationAlerts подключён"@),
        text::holds_text(page(false, note), "DonationAlerts: подключиться не удалось"@),
{
    reveal_strlit("type");
    reveal_strlit("oauth_ok");
    reveal_strlit("message");
    assert("type"@.len() == 4);
    assert("oauth_ok"@.len() == 8);
    assert("message"@.len() == 7);
    lemma_page_shows(ok, note);
    lemma_page_shows(true, note);
    lemma_page_shows(false, note);
}

proof fn lemma_page_shows(ok: bool, note: Seq<char>)
    ensures
        text::holds_text(page(ok, note), escaped_text(note)),
        text::holds_text(page(ok, note), page_title(ok)),
{
    let a = "<!doctype html><html lang=\"ru\"><head><meta charset=\"utf-8\"><title>"@;
    let t = page_title(ok);
    let b = "</title></head><body><h1>"@;
    let c = "</h1><p role=\"status\">"@;
    let e = escaped_text(note);
    let d = "</p><p>Эту вкладку можно закрыть: то же сообщение показано в панели.</p></body></html>"@;
    text::lemma_part_is_held(a, t, b + t + c + e + d);
    assert(a + t + (b + t + c + e + d) =~= page(ok, note));
    text::lemma_part_is_held(a + t + b + t + c, e, d);
}

/// A field of a form counts without the white space around it; a blank or missing one is missing.
pub proof fn law_blank_fields_are_missing(body: json::JsonV, field: Seq<char>, s: Seq<char>)
    ensures
        body.text_at(field) == Some(s) && text::trimmed(s).len() > 0 ==> required(body, field) == Some(
            text::trimmed(s),
        ),
        body.text_at(field) == Some(s) && text::trimmed(s).len() == 0 ==> required(body, field) is None,
        body.text_at(field) is None ==> required(body, field) is None,
{
}

/// Settings are taken only with an id, an address to come back to and, unless one is known, a secret;
/// the panel is told what is missing.
pub proof fn law_missing_settings_are_named(body: json::JsonV, current: DonationAlertsConfig)
    ensures
        da_refusal(body, current) is None <==> required(body, "clientId"@) is Some && required(
            body,
            "redirectUri"@,
        ) is Some && (required(body, "clientSecret"@) is Some || current.client_secret@.len() > 0),
        required(body, "clientId"@) is None ==> da_refusal(body, current) == Some(
            "DonationAlerts client_id обязателен"@,
        ),
        required(body, "clientId"@) is Some && required(body, "redirectUri"@) is None ==> da_refusal(
            body,
            current,
        ) == Some("DonationAlerts redirect URI обязателен"@),
{
}

/// The panel gets the settings as they are, and of the secret only whether there is one.
pub proof fn law_the_panel_gets_the_settings(
    cfg: DonationAlertsConfig,
    client_id: Seq<char>,
    redirect_uri: Seq<char>,
    scopes: Seq<Seq<char>>,
    known: bool,
    i: int,
)
    ensures
        shown_config(cfg).text_at("client_id"@) == Some(cfg.client_id@),
        shown_config(cfg).bool_at("client_secret_configured"@) == Some(cfg.client_secret@.len() > 0),
        shown_config(cfg).text_at("redirect_uri"@) == Some(cfg.redirect_uri@),
        shown_config(cfg).bool_at("oauth_enabled"@) == Some(cfg.oauth_enabled),
        shown_config(cfg).items_at("oauth_scopes"@).len() == cfg.oauth_scopes@.len(),
        0 <= i < cfg.oauth_scopes@.len() ==> shown_config(cfg).items_at("oauth_scopes"@)[i].text()
            == Some(cfg.oauth_scopes@[i]@),
        update_reply(client_id, redirect_uri, scopes, known).bool_at("ok"@) == Some(true),
        update_reply(client_id, redirect_uri, scopes, known).text_at("client_id"@) == Some(client_id),
        update_reply(client_id, redirect_uri, scopes, known).text_at("redirect_uri"@) == Some(
            redirect_uri,
        ),
        update_reply(client_id, redirect_uri, scopes, known).bool_at("client_secret_configured"@)
            == Some(known),
        update_reply(client_id, redirect_uri, scopes, known).items_at("oauth_scopes"@).len()
            == scopes.len(),
        0 <= i < scopes.len() ==> update_reply(client_id, redirect_uri, scopes, known).items_at(
            "oauth_scopes"@,
        )[i].text() == Some(scopes[i]),
{
    reveal_strlit("ok");
    reveal_strlit("client_id");
    reveal_strlit("client_secret_configured");
    reveal_strlit("redirect_uri");
    reveal_strlit("oauth_enabled");
    reveal_strlit("oauth_scopes");
    assert("ok"@.len() == 2);
    assert("client_id"@.len() == 9);
    assert("client_secret_configured"@.len() == 24);
    assert("redirect_uri"@.len() == 12);
    assert("oauth_enabled"@.len() == 13);
    assert("oauth_scopes"@.len() == 12);
    assert("redirect_uri"@[0] != "oauth_scopes"@[0]);
}

} // verus!
