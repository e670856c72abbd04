//! The start page, and finding the agent from the operator's side.
//!
//! The start page can start programs and end the start at logon, so it obeys only itself: a request
//! has to come from a page of this computer and carry the secret that only the page was given.
use vstd::prelude::*;
use crate::auth;
use crate::config;
use crate::config::{ControllerConfig, InterfaceMode};
use crate::json;
use crate::json::Json;
use crate::obs;
use crate::oauth;
use crate::secrets;
use crate::text;
use crate::text::Class;

verus! {

/// The port of the start page.
pub const LAUNCHER_PORT: u16 = 8786;

/// The style of the pages.
pub const LAUNCHER_CSS: &'static str = r#"
:root { color-scheme: light dark; }
body {
  margin: 0;
  font-family: system-ui, "Segoe UI", sans-serif;
  line-height: 1.5;
  background: Canvas;
  color: CanvasText;
}
main {
  max-width: 760px;
  margin: 0 auto;
  padding: 24px;
}
h1 { font-size: 1.8rem; margin: 0 0 12px; }
p { margin: 0 0 18px; }
form { margin: 16px 0; }
button, a {
  font: inherit;
  min-height: 48px;
}
button {
  width: 100%;
  text-align: left;
  border: 2px solid ButtonText;
  background: ButtonFace;
  color: ButtonText;
  padding: 14px 16px;
  border-radius: 6px;
  cursor: pointer;
}
button:focus-visible, a:focus-visible {
  outline: 3px solid Highlight;
  outline-offset: 3px;
}
.hint {
  display: block;
  margin-top: 4px;
  font-size: 0.95rem;
}
"#;

/// The start page up to the name of the mode.
pub const PAGE_TOP: &'static str = r#"<!doctype html>
<html lang="ru">
<head>
  <meta charset="utf-8">
  <meta name="viewport" content="width=device-width, initial-scale=1">
  <title>Accessible OBS</title>
  <style>
:root { color-scheme: light dark; }
body {
  margin: 0;
  font-family: system-ui, "Segoe UI", sans-serif;
  line-height: 1.5;
  background: Canvas;
  color: CanvasText;
}
main {
  max-width: 760px;
  margin: 0 auto;
  padding: 24px;
}
h1 { font-size: 1.8rem; margin: 0 0 12px; }
p { margin: 0 0 18px; }
form { margin: 16px 0; }
button {
  width: 100%;
  min-height: 56px;
  text-align: left;
  border: 2px solid ButtonText;
  background: ButtonFace;
  color: ButtonText;
  padding: 14px 16px;
  border-radius: 6px;
  font: inherit;
  cursor: pointer;
}
button:focus-visible {
  outline: 3px solid Highlight;
  outline-offset: 3px;
}
.hint {
  display: block;
  margin-top: 4px;
  font-size: 0.95rem;
}
  </style>
</head>
<body>
  <main>
    <h1>Accessible OBS</h1>
    <p>Выберите, как использовать этот компьютер.</p>

    <h2>Режим интерфейса</h2>
    <p>
      От него зависит, что панель показывает и что произносит вслух.
      Сейчас выбран: <strong>"#;

/// From there to the first form.
pub const PAGE_ACCESSIBLE: &'static str = r#"</strong>
    </p>

    <form method="post" action="/interface-mode/accessible">
      <input type="hidden" name="nonce" value=""#;

/// From the first form to the second.
pub const PAGE_STANDARD: &'static str = r#"">
      <button type="submit">
        Доступный: для незрячего
        <span class="hint">Чат, донаты и тревоги зачитываются вслух. Вывод на второй монитор скрыт: окно проектора OBS экранный диктор прочитать не может в принципе.</span>
      </button>
    </form>

    <form method="post" action="/interface-mode/standard">
      <input type="hidden" name="nonce" value=""#;

/// From the second form to the third.
pub const PAGE_ACTOR: &'static str = r#"">
      <button type="submit">
        Обычный: для зрячего
        <span class="hint">Доступен вывод чата и донатов на второй монитор через проектор OBS. Вслух ничего не зачитывается.</span>
      </button>
    </form>

    <h2>Что запустить</h2>

    <form method="post" action="/actor">
      <input type="hidden" name="nonce" value=""#;

/// From the third form to the fourth.
pub const PAGE_OPERATOR: &'static str = r#"">
      <button type="submit">
        Актёр: настроить компьютер для стрима
        <span class="hint">Установит или скачает OBS и Tailscale, включит агент, покажет pairing-код.</span>
      </button>
    </form>

    <form method="post" action="/operator">
      <input type="hidden" name="nonce" value=""#;

/// From the fourth form to the fifth.
pub const PAGE_LOCAL: &'static str = r#"">
      <button type="submit">
        Оператор: открыть панель управления
        <span class="hint">Откроет удалённую панель через Tailscale и попросит pairing-код.</span>
      </button>
    </form>

    <form method="post" action="/local">
      <input type="hidden" name="nonce" value=""#;

/// From the fifth form to the sixth.
pub const PAGE_AUTOSTART: &'static str = r#"">
      <button type="submit">
        Локальный доступный режим
        <span class="hint">Для незрячего стримера на этом же компьютере, без Tailscale и pairing-кода.</span>
      </button>
    </form>

    <form method="post" action="/remove-autostart">
      <input type="hidden" name="nonce" value=""#;

/// The end of the start page.
pub const PAGE_END: &'static str = r#"">
      <button type="submit">
        Убрать автозапуск удалённого агента
        <span class="hint">Полезно, если локальный режим конфликтует с remote-режимом на порту 8787.</span>
      </button>
    </form>
  </main>
</body>
</html>"#;

// ---------------------------------------------------------------------------------------------
// Pages
// ---------------------------------------------------------------------------------------------
/// A text for a page or the value of an attribute.
pub open spec fn escaped(s: Seq<char>) -> Seq<char> {
    text::replaced(oauth::escaped_text(s), '"', "&quot;"@)
}

/// A text for a page or the value of an attribute.
pub fn html_escape(value: &str) -> (r: String)
    ensures
        r@ == escaped(value@),
{
    let plain = oauth::html_escape_text(value);
    text::replace_char(plain.as_str(), '"', "&quot;")
}

/// The address of the start page.
pub open spec fn start_address() -> Seq<char> {
    "http://127.0.0.1:"@ + text::decimal(LAUNCHER_PORT as nat) + "/"@
}

/// The address of the start page.
pub fn launcher_url() -> (r: String)
    ensures
        r@ == start_address(),
{
    let port = text::number(LAUNCHER_PORT as u128);
    text::join3("http://127.0.0.1:", port.as_str(), "/")
}

/// The link back.
pub open spec fn back_link(back: Option<Seq<char>>) -> Seq<char> {
    match back {
        Some(url) => "<p><a href=\""@ + url + "\">Back to launcher</a></p>"@,
        None => Seq::empty(),
    }
}

/// A page with a result: a title, a message that is read aloud, and a link back.
pub open spec fn result_words(title: Seq<char>, message: Seq<char>, back: Option<Seq<char>>) -> Seq<
    char,
> {
    "<!doctype html>\n<html lang=\"ru\">\n<head>\n  <meta charset=\"utf-8\">\n  <meta name=\"viewport\" content=\"width=device-width, initial-scale=1\">\n  <title>"@
        + escaped(title) + "</title>\n  <style>"@ + LAUNCHER_CSS@
        + "</style>\n</head>\n<body>\n  <main>\n    <h1>"@ + escaped(title)
        + "</h1>\n    <p role=\"status\">"@ + escaped(message) + "</p>\n    "@ + back_link(back)
        + "\n  </main>\n</body>\n</html>"@
}

/// A page with a result: a title, a message that is read aloud, and a link back.
pub fn result_page(title: &str, message: &str, back: Option<&str>) -> (r: String)
    ensures
        r@ == result_words(title@, message@, text::opt_str(back)),
{
    let link = match back {
        Some(url) => text::join3("<p><a href=\"", url, "\">Back to launcher</a></p>"),
        None => String::new(),
    };
    let title = html_escape(title);
    let message = html_escape(message);
    let head = text::join5(
        "<!doctype html>\n<html lang=\"ru\">\n<head>\n  <meta charset=\"utf-8\">\n  <meta name=\"viewport\" content=\"width=device-width, initial-scale=1\">\n  <title>",
        title.as_str(),
        "</title>\n  <style>",
        LAUNCHER_CSS,
        "</style>\n</head>\n<body>\n  <main>\n    <h1>",
    );
    let body = text::join5(
        head.as_str(),
        title.as_str(),
        "</h1>\n    <p role=\"status\">",
        message.as_str(),
        "</p>\n    ",
    );
    text::join3(body.as_str(), link.as_str(), "\n  </main>\n</body>\n</html>")
}

/// The name of a mode of the interface.
pub open spec fn mode_words(mode: InterfaceMode) -> Seq<char> {
    match mode {
        InterfaceMode::Accessible => "доступный, для незрячего"@,
        InterfaceMode::Standard => "обычный, для зрячего"@,
    }
}

/// The start page. It names the current mode: someone who cannot see would else not know it before
/// the panel runs.
pub open spec fn start_page(mode: InterfaceMode, nonce: Seq<char>) -> Seq<char> {
    let n = escaped(nonce);
    PAGE_TOP@ + mode_words(mode) + PAGE_ACCESSIBLE@ + n + PAGE_STANDARD@ + n + PAGE_ACTOR@ + n
        + PAGE_OPERATOR@ + n + PAGE_LOCAL@ + n + PAGE_AUTOSTART@ + n + PAGE_END@
}

/// The start page.
pub fn launcher_page(mode: &InterfaceMode, nonce: &str) -> (r: String)
    ensures
        r@ == start_page(*mode, nonce@),
{
    let label = match mode {
        InterfaceMode::Accessible => "доступный, для незрячего",
        InterfaceMode::Standard => "обычный, для зрячего",
    };
    let secret = html_escape(nonce);
    let n = secret.as_str();
    let a = text::join5(PAGE_TOP, label, PAGE_ACCESSIBLE, n, PAGE_STANDARD);
    let b = text::join5(a.as_str(), n, PAGE_ACTOR, n, PAGE_OPERATOR);
    let c = text::join5(b.as_str(), n, PAGE_LOCAL, n, PAGE_AUTOSTART);
    text::join3(c.as_str(), n, PAGE_END)
}

// ---------------------------------------------------------------------------------------------
// Who may act
// ---------------------------------------------------------------------------------------------
/// Whether an action of the start page may go on: it comes from this computer, and carries the
/// secret of the page.
pub open spec fn may_act(
    nonce: Seq<char>,
    origin: Option<Seq<char>>,
    host: Option<Seq<char>>,
    given: Seq<char>,
) -> bool {
    &&& given == nonce
    &&& match origin {
        Some(_) => auth::from_this_computer(origin, None),
        None => auth::from_this_computer(None, host),
    }
}

/// Whether an action of the start page may go on.
pub fn launcher_allowed(nonce: &str, origin: Option<&str>, host: Option<&str>, given: &str) -> (r:
    bool)
    ensures
        r == may_act(nonce@, text::opt_str(origin), text::opt_str(host), given@),
{
    let from_us = match origin {
        Some(o) => auth::loopback_request_ok(Some(o), None),
        None => auth::loopback_request_ok(None, host),
    };
    from_us && secrets::secret_eq(given, nonce)
}

/// The answer to an action that may not go on.
pub fn launcher_refused() -> (r: String)
    ensures
        r@ == result_words(
            "Действие отклонено"@,
            "Запрос пришёл не со страницы запуска. Откройте её заново и повторите."@,
            Some(start_address()),
        ),
{
    let url = launcher_url();
    result_page(
        "Действие отклонено",
        "Запрос пришёл не со страницы запуска. Откройте её заново и повторите.",
        Some(url.as_str()),
    )
}

/// The answer to a choice of the mode.
pub fn mode_page(mode: &InterfaceMode, saved: &Result<(), String>) -> (r: String)
    ensures
        r@ == (match *saved {
            Ok(_) => result_words(
                "Режим сохранён"@,
                match *mode {
                    InterfaceMode::Accessible => "Выбран доступный режим: важное зачитывается вслух, вывод на второй монитор скрыт."@,
                    InterfaceMode::Standard => "Выбран обычный режим: доступен вывод на второй монитор, вслух ничего не зачитывается."@,
                },
                Some(start_address()),
            ),
            Err(e) => result_words("Не удалось сохранить режим"@, e@, Some(start_address())),
        }),
{
    let url = launcher_url();
    match saved {
        Ok(_) => {
            let message = match mode {
                InterfaceMode::Accessible => "Выбран доступный режим: важное зачитывается вслух, вывод на второй монитор скрыт.",
                InterfaceMode::Standard => "Выбран обычный режим: доступен вывод на второй монитор, вслух ничего не зачитывается.",
            };
            result_page("Режим сохранён", message, Some(url.as_str()))
        },
        Err(e) => result_page("Не удалось сохранить режим", e.as_str(), Some(url.as_str())),
    }
}

/// The answer to a command that starts a program.
pub fn command_page(title: &str, started: &Result<(), String>) -> (r: String)
    ensures
        r@ == result_words(
            title@,
            match *started {
                Ok(_) => "A separate setup window was opened. Follow the spoken or on-screen instructions there."@,
                Err(e) => "Could not start command: "@ + e@,
            },
            Some(start_address()),
        ),
{
    let url = launcher_url();
    let message = match started {
        Ok(_) => "A separate setup window was opened. Follow the spoken or on-screen instructions there.".to_owned(),
        Err(e) => text::join2("Could not start command: ", e.as_str()),
    };
    result_page(title, message.as_str(), Some(url.as_str()))
}

/// The answer to the end of the start at logon.
pub fn autostart_page(removed: &Result<(), String>) -> (r: String)
    ensures
        r@ == (match *removed {
            Ok(_) => result_words(
                "Autostart removed"@,
                "Remote actor autostart shortcut was removed."@,
                Some(start_address()),
            ),
            Err(e) => result_words("Autostart error"@, e@, Some(start_address())),
        }),
{
    let url = launcher_url();
    match removed {
        Ok(_) => result_page(
            "Autostart removed",
            "Remote actor autostart shortcut was removed.",
            Some(url.as_str()),
        ),
        Err(e) => result_page("Autostart error", e.as_str(), Some(url.as_str())),
    }
}

// ---------------------------------------------------------------------------------------------
// What the program is asked to do
// ---------------------------------------------------------------------------------------------
/// What the program is asked to do.
#[derive(Debug, Clone, Copy, PartialEq, Eq, Structural)]
pub enum Task {
    Launcher,
    Host,
    Controller,
    Local,
    RemoveAutostart,
    Help,
}

/// What the program is asked to do, by its first argument.
pub open spec fn task_of(arg: Option<Seq<char>>) -> Task {
    match arg {
        None => Task::Launcher,
        Some(a) => if a == "--launcher"@ || a == "--install"@ {
            Task::Launcher
        } else if a == "--host"@ {
            Task::Host
        } else if a == "--controller"@ {
            Task::Controller
        } else if a == "--local"@ {
            Task::Local
        } else if a == "--remove-autostart"@ {
            Task::RemoveAutostart
        } else {
            Task::Help
        },
    }
}

/// What the program is asked to do, by its first argument.
pub fn task(arg: Option<&str>) -> (r: Task)
    ensures
        r == task_of(text::opt_str(arg)),
{
    match arg {
        None => Task::Launcher,
        Some(a) => if text::same(a, "--launcher") || text::same(a, "--install") {
            Task::Launcher
        } else if text::same(a, "--host") {
            Task::Host
        } else if text::same(a, "--controller") {
            Task::Controller
        } else if text::same(a, "--local") {
            Task::Local
        } else if text::same(a, "--remove-autostart") {
            Task::RemoveAutostart
        } else {
            Task::Help
        },
    }
}

/// Whether one of the arguments after the first is a given one.
pub fn arg_present(args: &Vec<String>, name: &str) -> (r: bool)
    ensures
        r == text::views(args@).contains(name@),
{
    text::list_has(args, name)
}

// ---------------------------------------------------------------------------------------------
// Finding the agent
// ---------------------------------------------------------------------------------------------
/// The address of a machine and a port.
pub open spec fn machine_url(name: Seq<char>, suffix: Seq<char>, port: u16) -> Seq<char> {
    "http://"@ + name + suffix + ":"@ + text::decimal(port as nat)
}

/// The addresses to try: the name of the machine, the same name in the local network unless it is a
/// full name of Tailscale, and the address that was written down, if any.
pub open spec fn addresses_to_try(cfg: ControllerConfig) -> Seq<Seq<char>> {
    let name = cfg.friend_machine_name@;
    let fallback = text::trimmed(cfg.friend_tailscale_ip_fallback@);
    let by_name = seq![machine_url(name, ""@, cfg.web_port)];
    let local = if ".ts.net"@.is_suffix_of(name) {
        by_name
    } else {
        by_name.push(machine_url(name, ".local"@, cfg.web_port))
    };
    if fallback.len() > 0 {
        local.push(machine_url(fallback, ""@, cfg.web_port))
    } else {
        local
    }
}

fn make_url(name: &str, suffix: &str, port: u16) -> (r: String)
    ensures
        r@ == machine_url(name@, suffix@, port),
{
    let number = text::number(port as u128);
    text::join5("http://", name, suffix, ":", number.as_str())
}

/// The addresses to try.
pub fn candidate_urls(cfg: &ControllerConfig) -> (r: Vec<String>)
    ensures
        text::views(r@) == addresses_to_try(*cfg),
{
    let name = cfg.friend_machine_name.as_str();
    let fallback = text::trim(cfg.friend_tailscale_ip_fallback.as_str());
    let mut out: Vec<String> = Vec::new();
    out.push(make_url(name, "", cfg.web_port));
    if !text::ends_with(name, ".ts.net") {
        out.push(make_url(name, ".local", cfg.web_port));
    }
    if !fallback.as_str().is_empty() {
        out.push(make_url(fallback.as_str(), "", cfg.web_port));
    }
    assert(text::views(out@) =~= addresses_to_try(*cfg));
    out
}

/// Where an agent answers the question who it is.
pub fn ping_url(url: &str) -> (r: String)
    ensures
        r@ == text::skip_back(url@, Class::Is('/')) + "/api/public/ping"@,
{
    let base = text::trim_back(url, &Class::Is('/'));
    text::join2(base.as_str(), "/api/public/ping")
}

/// What an answer at an address tells.
pub enum Ping {
    /// It is the agent, in this mode.
    Ours(String),
    /// It is another program.
    Foreign,
    /// The answer could not be read.
    Garbled,
    /// There is no answer, or one without success.
    Silent,
}

/// What an answer at an address tells.
#[verifier::ext_equal]
pub enum PingV {
    Ours(Seq<char>),
    Foreign,
    Garbled,
    Silent,
}

impl View for Ping {
    type V = PingV;

    open spec fn view(&self) -> PingV {
        match *self {
            Ping::Ours(mode) => PingV::Ours(mode@),
            Ping::Foreign => PingV::Foreign,
            Ping::Garbled => PingV::Garbled,
            Ping::Silent => PingV::Silent,
        }
    }
}

/// Who answered. Success alone is not enough: anything may listen there, and nobody is to be led
/// into another program's panel.
pub open spec fn answerer(v: json::JsonV) -> PingV {
    if v.text_at("app"@) == Some(config::APP_NAME@) {
        PingV::Ours(obs::or_empty(v.text_at("mode"@)))
    } else {
        PingV::Foreign
    }
}

/// Who answered, once the answer was read.
pub fn who_answered(v: &Json) -> (r: Ping)
    ensures
        r@ == answerer(v@),
{
    let ours = match v.get_str("app") {
        Some(app) => text::same(app, config::APP_NAME),
        None => false,
    };
    if !ours {
        return Ping::Foreign;
    }
    match v.get_text("mode") {
        Some(mode) => Ping::Ours(mode),
        None => Ping::Ours(String::new()),
    }
}

/// What an answer at an address tells: whether it was a success, and its body.
pub fn judge_ping(answer: Option<(bool, &str)>) -> (r: Ping)
    ensures
        r@ == (match answer {
            Some((true, body)) => match json::parsed(body@) {
                Ok(v) => answerer(v),
                Err(_) => PingV::Garbled,
            },
            _ => PingV::Silent,
        }),
{
    match answer {
        Some((true, body)) => match Json::parse(body) {
            Ok(v) => who_answered(&v),
            Err(_) => Ping::Garbled,
        },
        _ => Ping::Silent,
    }
}

/// What to do when the local mode is wanted, by the mode of an agent that may already be there.
#[derive(Debug, Clone, Copy, PartialEq, Eq, Structural)]
pub enum LocalStart {
    /// It is there: open the panel.
    AlreadyRunning,
    /// A remote agent holds the port: explain how to end it.
    BlockedByRemote,
    /// Start it.
    Start,
}

/// What to do when the local mode is wanted.
pub open spec fn local_decision(mode: Option<Seq<char>>) -> LocalStart {
    if mode == Some("local"@) {
        LocalStart::AlreadyRunning
    } else if mode == Some("remote"@) {
        LocalStart::BlockedByRemote
    } else {
        LocalStart::Start
    }
}

/// What to do when the local mode is wanted.
pub fn local_start(mode: Option<&str>) -> (r: LocalStart)
    ensures
        r == local_decision(text::opt_str(mode)),
{
    match mode {
        Some(m) => if text::same(m, "local") {
            LocalStart::AlreadyRunning
        } else if text::same(m, "remote") {
            proof {
                reveal_strlit("local");
                reveal_strlit("remote");
                assert("local"@.len() == 5 && "remote"@.len() == 6);
            }
            LocalStart::BlockedByRemote
        } else {
            LocalStart::Start
        },
        None => LocalStart::Start,
    }
}

// ---------------------------------------------------------------------------------------------
// Logging in to Tailscale
// ---------------------------------------------------------------------------------------------
/// The arguments by which Tailscale is brought up. Unattended, the tunnel outlives the session of
/// the user.
pub fn tailscale_up_args(unattended: bool) -> (r: Vec<String>)
    ensures
        text::views(r@) == if unattended {
            seq!["up"@, "--unattended=true"@]
        } else {
            seq!["up"@]
        },
{
    let mut out: Vec<String> = Vec::new();
    out.push("up".to_owned());
    if unattended {
        out.push("--unattended=true".to_owned());
    }
    assert(text::views(out@) =~= if unattended {
        seq!["up"@, "--unattended=true"@]
    } else {
        seq!["up"@]
    });
    out
}

/// Whether a word is an address.
pub open spec fn is_url(word: Seq<char>) -> bool {
    "http://"@.is_prefix_of(word) || "https://"@.is_prefix_of(word)
}

/// The first address among words.
pub open spec fn first_url(words: Seq<Seq<char>>) -> Option<Seq<char>>
    decreases words.len(),
{
    if words.len() == 0 {
        None
    } else {
        match first_url(words.drop_last()) {
            Some(u) => Some(u),
            None => if is_url(words.last()) {
                Some(words.last())
            } else {
                None
            },
        }
    }
}

/// A text without full stops and commas at its ends.
pub open spec fn unpunctuated(s: Seq<char>) -> Seq<char> {
    text::skip_back(text::skip_front(s, Class::Either('.', ',')), Class::Either('.', ','))
}

/// The page on which the user logs in, from what Tailscale printed.
pub open spec fn login_page(output: Seq<char>) -> Option<Seq<char>> {
    match first_url(text::nonempty(text::pieces(output, Class::Space))) {
        Some(u) => Some(unpunctuated(u)),
        None => None,
    }
}

proof fn lemma_first_url_stays(words: Seq<Seq<char>>, i: int)
    requires
        0 <= i <= words.len(),
        first_url(words.take(i)) is Some,
    ensures
        first_url(words) == first_url(words.take(i)),
    decreases words.len(),
{
    if i == words.len() {
        assert(words.take(i) =~= words);
    } else {
        assert(words.drop_last().take(i) =~= words.take(i));
        lemma_first_url_stays(words.drop_last(), i);
    }
}

/// The page on which the user logs in, from what Tailscale printed.
pub fn login_url(output: &str) -> (r: Option<String>)
    ensures
        text::opt_view(r) == login_page(output@),
{
    let words = text::words(output, &Class::Space);
    let ghost all = text::views(words@);
    let mut i: usize = 0;
    while i < words.len()
        invariant
            i <= words@.len(),
            all == text::views(words@),
            all == text::nonempty(text::pieces(output@, Class::Space)),
            first_url(all.take(i as int)) is None,
        decreases words.len() - i,
    {
        proof {
            assert(all.take(i + 1).drop_last() =~= all.take(i as int));
            assert(all.take(i + 1).last() == words@[i as int]@);
        }
        let word = words[i].as_str();
        if text::starts_with(word, "http://") || text::starts_with(word, "https://") {
            proof {
                lemma_first_url_stays(all, i + 1);
            }
            let front = text::trim_front(word, &Class::Either('.', ','));
            return Some(text::trim_back(front.as_str(), &Class::Either('.', ',')));
        }
        i = i + 1;
    }
    assert(all.take(i as int) =~= all);
    None
}

// ---------------------------------------------------------------------------------------------
// Laws
// ---------------------------------------------------------------------------------------------
/// Without the secret of the page nothing is done, wherever the request comes from; nor is anything
/// done for a page of another computer, whatever it carries.
pub proof fn law_only_the_own_page_acts(
    nonce: Seq<char>,
    origin: Option<Seq<char>>,
    host: Option<Seq<char>>,
    given: Seq<char>,
)
    ensures
        given != nonce ==> !may_act(nonce, origin, host, given),
        origin is Some && !auth::from_this_computer(origin, None) ==> !may_act(
            nonce,
            origin,
            host,
            given,
        ),
        origin is None && host is None ==> !may_act(nonce, origin, host, given),
{
}

/// The escaped form of a text holds no bracket and no quotation mark: it can neither open a tag nor
/// leave an attribute.
pub proof fn law_escaped_text_stays_text(s: Seq<char>)
    ensures
        !escaped(s).contains('<'),
        !escaped(s).contains('>'),
        !escaped(s).contains('"'),
{
    oauth::law_escaped_text_has_no_brackets(s);
    reveal_strlit("&quot;");
    let q = "&quot;"@;
    assert(q =~= seq!['&', 'q', 'u', 'o', 't', ';']);
    assert(!q.contains('"') && !q.contains('<') && !q.contains('>')) by {
        assert forall|i: int| 0 <= i < q.len() implies q[i] != '"' && q[i] != '<' && q[i] != '>' by {
            assert(q[i] == seq!['&', 'q', 'u', 'o', 't', ';'][i]);
        }
    }
    text::lemma_replaced_free(oauth::escaped_text(s), '"', q);
    text::lemma_replaced_keeps_out(oauth::escaped_text(s), '"', q, '<');
    text::lemma_replaced_keeps_out(oauth::escaped_text(s), '"', q, '>');
}

/// The name of the machine is tried first, and the address that was written down last.
pub proof fn law_names_come_before_addresses(cfg: ControllerConfig)
    ensures
        addresses_to_try(cfg).len() >= 1,
        addresses_to_try(cfg)[0] == machine_url(cfg.friend_machine_name@, ""@, cfg.web_port),
        text::trimmed(cfg.friend_tailscale_ip_fallback@).len() > 0 ==> addresses_to_try(cfg).last()
            == machine_url(
            text::trimmed(cfg.friend_tailscale_ip_fallback@),
            ""@,
            cfg.web_port,
        ),
{
}


/// The start page names the mode, and each of its six forms goes to its own address with the secret of
/// the page.
pub proof fn law_each_form_carries_the_secret(mode: InterfaceMode, nonce: Seq<char>)
    ensures
        text::holds_text(start_page(mode, nonce), mode_words(mode)),
        text::holds_text(
            start_page(mode, nonce),
            "<form method=\"post\" action=\"/interface-mode/accessible\">\n      <input type=\"hidden\" name=\"nonce\" value=\""@ + escaped(nonce) + "\">"@,
        ),
        text::holds_text(
            start_page(mode, nonce),
            "<form method=\"post\" action=\"/interface-mode/standard\">\n      <input type=\"hidden\" name=\"nonce\" value=\""@ + escaped(nonce) + "\">"@,
        ),
        text::holds_text(
            start_page(mode, nonce),
            "<form method=\"post\" action=\"/actor\">\n      <input type=\"hidden\" name=\"nonce\" value=\""@ + escaped(nonce) + "\">"@,
        ),
        text::holds_text(
            start_page(mode, nonce),
            "<form method=\"post\" action=\"/operator\">\n      <input type=\"hidden\" name=\"nonce\" value=\""@ + escaped(nonce) + "\">"@,
        ),
        text::holds_text(
            start_page(mode, nonce),
            "<form method=\"post\" action=\"/local\">\n      <input type=\"hidden\" name=\"nonce\" value=\""@ + escaped(nonce) + "\">"@,
        ),
        text::holds_text(
            start_page(mode, nonce),
            "<form method=\"post\" action=\"/remove-autostart\">\n      <input type=\"hidden\" name=\"nonce\" value=\""@ + escaped(nonce) + "\">"@,
        ),
{
    let n = escaped(nonce);
    let rest = PAGE_ACCESSIBLE@ + n + PAGE_STANDARD@ + n + PAGE_ACTOR@ + n + PAGE_OPERATOR@ + n
        + PAGE_LOCAL@ + n + PAGE_AUTOSTART@ + n + PAGE_END@;
    text::lemma_part_is_held(PAGE_TOP@, mode_words(mode), rest);
    assert(start_page(mode, nonce) =~= PAGE_TOP@ + mode_words(mode) + rest);
    lemma_form_0(mode, nonce);
    lemma_form_1(mode, nonce);
    lemma_form_2(mode, nonce);
    lemma_form_3(mode, nonce);
    lemma_form_4(mode, nonce);
    lemma_form_5(mode, nonce);
}

/// A form that ends one piece of a page and goes on in the next one, around a value, stands in the
/// page.
proof fn lemma_form_in_page(
    before: Seq<char>,
    piece: Seq<char>,
    n: Seq<char>,
    next: Seq<char>,
    after: Seq<char>,
    form: Seq<char>,
    k: int,
)
    requires
        0 <= k <= piece.len(),
        piece.skip(k) == form,
        next.len() >= 2,
    ensures
        text::holds_text(before + piece + n + next + after, form + n + next.take(2)),
{
    let part = form + n + next.take(2);
    let front = before + piece.take(k);
    let back = next.skip(2) + after;
    text::lemma_part_is_held(front, part, back);
    assert(piece =~= piece.take(k) + piece.skip(k));
    assert(next =~= next.take(2) + next.skip(2));
    assert(before + piece + n + next + after =~= front + part + back);
}

proof fn lemma_form_0(mode: InterfaceMode, nonce: Seq<char>)
    ensures
        text::holds_text(
            start_page(mode, nonce),
            "<form method=\"post\" action=\"/interface-mode/accessible\">\n      <input type=\"hidden\" name=\"nonce\" value=\""@ + escaped(nonce) + "\">"@,
        ),
{
    let n = escaped(nonce);
    let before = PAGE_TOP@ + mode_words(mode);
    let after = n + PAGE_ACTOR@ + n + PAGE_OPERATOR@ + n + PAGE_LOCAL@ + n + PAGE_AUTOSTART@ + n + PAGE_END@;
    let piece = PAGE_ACCESSIBLE@;
    let next = PAGE_STANDARD@;
    lemma_pieces_0();
    lemma_form_in_page(before, piece, n, next, after, "<form method=\"post\" action=\"/interface-mode/accessible\">\n      <input type=\"hidden\" name=\"nonce\" value=\""@, 24);
    assert(start_page(mode, nonce) =~= before + piece + n + next + after);
}

proof fn lemma_pieces_0()
    ensures
        PAGE_ACCESSIBLE@.len() >= 24,
        PAGE_ACCESSIBLE@.skip(24) == "<form method=\"post\" action=\"/interface-mode/accessible\">\n      <input type=\"hidden\" name=\"nonce\" value=\""@,
        PAGE_STANDARD@.len() >= 2,
        PAGE_STANDARD@.take(2) == "\">"@,
{
    reveal_strlit(r#"</strong>
    </p>

    <form method="post" action="/interface-mode/accessible">
      <input type="hidden" name="nonce" value=""#);
    reveal_strlit(r#"">
      <button type="submit">
        Доступный: для незрячего
        <span class="hint">Чат, донаты и тревоги зачитываются вслух. Вывод на второй монитор скрыт: окно проектора OBS экранный диктор прочитать не может в принципе.</span>
      </button>
    </form>

    <form method="post" action="/interface-mode/standard">
      <input type="hidden" name="nonce" value=""#);
    reveal_strlit("<form method=\"post\" action=\"/interface-mode/accessible\">\n      <input type=\"hidden\" name=\"nonce\" value=\"");
    reveal_strlit("\">");
    assert(PAGE_ACCESSIBLE@.skip(24) =~= "<form method=\"post\" action=\"/interface-mode/accessible\">\n      <input type=\"hidden\" name=\"nonce\" value=\""@);
    assert(PAGE_STANDARD@.take(2) =~= "\">"@);
}

proof fn lemma_form_1(mode: InterfaceMode, nonce: Seq<char>)
    ensures
        text::holds_text(
            start_page(mode, nonce),
            "<form method=\"post\" action=\"/interface-mode/standard\">\n      <input type=\"hidden\" name=\"nonce\" value=\""@ + escaped(nonce) + "\">"@,
        ),
{
    let n = escaped(nonce);
    let before = PAGE_TOP@ + mode_words(mode) + PAGE_ACCESSIBLE@ + n;
    let after = n + PAGE_OPERATOR@ + n + PAGE_LOCAL@ + n + PAGE_AUTOSTART@ + n + PAGE_END@;
    let piece = PAGE_STANDARD@;
    let next = PAGE_ACTOR@;
    lemma_pieces_1();
    lemma_form_in_page(before, piece, n, next, after, "<form method=\"post\" action=\"/interface-mode/standard\">\n      <input type=\"hidden\" name=\"nonce\" value=\""@, 271);
    assert(start_page(mode, nonce) =~= before + piece + n + next + after);
}

proof fn lemma_pieces_1()
    ensures
        PAGE_STANDARD@.len() >= 271,
        PAGE_STANDARD@.skip(271) == "<form method=\"post\" action=\"/interface-mode/standard\">\n      <input type=\"hidden\" name=\"nonce\" value=\""@,
        PAGE_ACTOR@.len() >= 2,
        PAGE_ACTOR@.take(2) == "\">"@,
{
    reveal_strlit(r#"">
      <button type="submit">
        Доступный: для незрячего
        <span class="hint">Чат, донаты и тревоги зачитываются вслух. Вывод на второй монитор скрыт: окно проектора OBS экранный диктор прочитать не может в принципе.</span>
      </button>
    </form>

    <form method="post" action="/interface-mode/standard">
      <input type="hidden" name="nonce" value=""#);
    reveal_strlit(r#"">
      <button type="submit">
        Обычный: для зрячего
        <span class="hint">Доступен вывод чата и донатов на второй монитор через проектор OBS. Вслух ничего не зачитывается.</span>
      </button>
    </form>

    <h2>Что запустить</h2>

    <form method="post" action="/actor">
      <input type="hidden" name="nonce" value=""#);
    reveal_strlit("<form method=\"post\" action=\"/interface-mode/standard\">\n      <input type=\"hidden\" name=\"nonce\" value=\"");
    reveal_strlit("\">");
    assert(PAGE_STANDARD@.skip(271) =~= "<form method=\"post\" action=\"/interface-mode/standard\">\n      <input type=\"hidden\" name=\"nonce\" value=\""@);
    assert(PAGE_ACTOR@.take(2) =~= "\">"@);
}

proof fn lemma_form_2(mode: InterfaceMode, nonce: Seq<char>)
    ensures
        text::holds_text(
            start_page(mode, nonce),
            "<form method=\"post\" action=\"/actor\">\n      <input type=\"hidden\" name=\"nonce\" value=\""@ + escaped(nonce) + "\">"@,
        ),
{
    let n = escaped(nonce);
    let before = PAGE_TOP@ + mode_words(mode) + PAGE_ACCESSIBLE@ + n + PAGE_STANDARD@ + n;
    let after = n + PAGE_LOCAL@ + n + PAGE_AUTOSTART@ + n + PAGE_END@;
    let piece = PAGE_ACTOR@;
    let next = PAGE_OPERATOR@;
    lemma_pieces_2();
    lemma_form_in_page(before, piece, n, next, after, "<form method=\"post\" action=\"/actor\">\n      <input type=\"hidden\" name=\"nonce\" value=\""@, 254);
    assert(start_page(mode, nonce) =~= before + piece + n + next + after);
}

proof fn lemma_pieces_2()
    ensures
        PAGE_ACTOR@.len() >= 254,
        PAGE_ACTOR@.skip(254) == "<form method=\"post\" action=\"/actor\">\n      <input type=\"hidden\" name=\"nonce\" value=\""@,
        PAGE_OPERATOR@.len() >= 2,
        PAGE_OPERATOR@.take(2) == "\">"@,
{
    reveal_strlit(r#"">
      <button type="submit">
        Обычный: для зрячего
        <span class="hint">Доступен вывод чата и донатов на второй монитор через проектор OBS. Вслух ничего не зачитывается.</span>
      </button>
    </form>

    <h2>Что запустить</h2>

    <form method="post" action="/actor">
      <input type="hidden" name="nonce" value=""#);
    reveal_strlit(r#"">
      <button type="submit">
        Актёр: настроить компьютер для стрима
        <span class="hint">Установит или скачает OBS и Tailscale, включит агент, покажет pairing-код.</span>
      </button>
    </form>

    <form method="post" action="/operator">
      <input type="hidden" name="nonce" value=""#);
    reveal_strlit("<form method=\"post\" action=\"/actor\">\n      <input type=\"hidden\" name=\"nonce\" value=\"");
    reveal_strlit("\">");
    assert(PAGE_ACTOR@.skip(254) =~= "<form method=\"post\" action=\"/actor\">\n      <input type=\"hidden\" name=\"nonce\" value=\""@);
    assert(PAGE_OPERATOR@.take(2) =~= "\">"@);
}

proof fn lemma_form_3(mode: InterfaceMode, nonce: Seq<char>)
    ensures
        text::holds_text(
            start_page(mode, nonce),
            "<form method=\"post\" action=\"/operator\">\n      <input type=\"hidden\" name=\"nonce\" value=\""@ + escaped(nonce) + "\">"@,
        ),
{
    let n = escaped(nonce);
    let before = PAGE_TOP@ + mode_words(mode) + PAGE_ACCESSIBLE@ + n + PAGE_STANDARD@ + n + PAGE_ACTOR@ + n;
    let after = n + PAGE_AUTOSTART@ + n + PAGE_END@;
    let piece = PAGE_OPERATOR@;
    let next = PAGE_LOCAL@;
    lemma_pieces_3();
    lemma_form_in_page(before, piece, n, next, after, "<form method=\"post\" action=\"/operator\">\n      <input type=\"hidden\" name=\"nonce\" value=\""@, 220);
    assert(start_page(mode, nonce) =~= before + piece + n + next + after);
}

proof fn lemma_pieces_3()
    ensures
        PAGE_OPERATOR@.len() >= 220,
        PAGE_OPERATOR@.skip(220) == "<form method=\"post\" action=\"/operator\">\n      <input type=\"hidden\" name=\"nonce\" value=\""@,
        PAGE_LOCAL@.len() >= 2,
        PAGE_LOCAL@.take(2) == "\">"@,
{
    reveal_strlit(r#"">
      <button type="submit">
        Актёр: настроить компьютер для стрима
        <span class="hint">Установит или скачает OBS и Tailscale, включит агент, покажет pairing-код.</span>
      </button>
    </form>

    <form method="post" action="/operator">
      <input type="hidden" name="nonce" value=""#);
    reveal_strlit(r#"">
      <button type="submit">
        Оператор: открыть панель управления
        <span class="hint">Откроет удалённую панель через Tailscale и попросит pairing-код.</span>
      </button>
    </form>

    <form method="post" action="/local">
      <input type="hidden" name="nonce" value=""#);
    reveal_strlit("<form method=\"post\" action=\"/operator\">\n      <input type=\"hidden\" name=\"nonce\" value=\"");
    reveal_strlit("\">");
    assert(PAGE_OPERATOR@.skip(220) =~= "<form method=\"post\" action=\"/operator\">\n      <input type=\"hidden\" name=\"nonce\" value=\""@);
    assert(PAGE_LOCAL@.take(2) =~= "\">"@);
}

proof fn lemma_form_4(mode: InterfaceMode, nonce: Seq<char>)
    ensures
        text::holds_text(
            start_page(mode, nonce),
            "<form method=\"post\" action=\"/local\">\n      <input type=\"hidden\" name=\"nonce\" value=\""@ + escaped(nonce) + "\">"@,
        ),
{
    let n = escaped(nonce);
    let before = PAGE_TOP@ + mode_words(mode) + PAGE_ACCESSIBLE@ + n + PAGE_STANDARD@ + n + PAGE_ACTOR@ + n + PAGE_OPERATOR@ + n;
    let after = n + PAGE_END@;
    let piece = PAGE_LOCAL@;
    let next = PAGE_AUTOSTART@;
    lemma_pieces_4();
    lemma_form_in_page(before, piece, n, next, after, "<form method=\"post\" action=\"/local\">\n      <input type=\"hidden\" name=\"nonce\" value=\""@, 208);
    assert(start_page(mode, nonce) =~= before + piece + n + next + after);
}

proof fn lemma_pieces_4()
    ensures
        PAGE_LOCAL@.len() >= 208,
        PAGE_LOCAL@.skip(208) == "<form method=\"post\" action=\"/local\">\n      <input type=\"hidden\" name=\"nonce\" value=\""@,
        PAGE_AUTOSTART@.len() >= 2,
        PAGE_AUTOSTART@.take(2) == "\">"@,
{
    reveal_strlit(r#"">
      <button type="submit">
        Оператор: открыть панель управления
        <span class="hint">Откроет удалённую панель через Tailscale и попросит pairing-код.</span>
      </button>
    </form>

    <form method="post" action="/local">
      <input type="hidden" name="nonce" value=""#);
    reveal_strlit(r#"">
      <button type="submit">
        Локальный доступный режим
        <span class="hint">Для незрячего стримера на этом же компьютере, без Tailscale и pairing-кода.</span>
      </button>
    </form>

    <form method="post" action="/remove-autostart">
      <input type="hidden" name="nonce" value=""#);
    reveal_strlit("<form method=\"post\" action=\"/local\">\n      <input type=\"hidden\" name=\"nonce\" value=\"");
    reveal_strlit("\">");
    assert(PAGE_LOCAL@.skip(208) =~= "<form method=\"post\" action=\"/local\">\n      <input type=\"hidden\" name=\"nonce\" value=\""@);
    assert(PAGE_AUTOSTART@.take(2) =~= "\">"@);
}

proof fn lemma_form_5(mode: InterfaceMode, nonce: Seq<char>)
    ensures
        text::holds_text(
            start_page(mode, nonce),
            "<form method=\"post\" action=\"/remove-autostart\">\n      <input type=\"hidden\" name=\"nonce\" value=\""@ + escaped(nonce) + "\">"@,
        ),
{
    let n = escaped(nonce);
    let before = PAGE_TOP@ + mode_words(mode) + PAGE_ACCESSIBLE@ + n + PAGE_STANDARD@ + n + PAGE_ACTOR@ + n + PAGE_OPERATOR@ + n + PAGE_LOCAL@ + n;
    let after = Seq::<char>::empty();
    let piece = PAGE_AUTOSTART@;
    let next = PAGE_END@;
    lemma_pieces_5();
    lemma_form_in_page(before, piece, n, next, after, "<form method=\"post\" action=\"/remove-autostart\">\n      <input type=\"hidden\" name=\"nonce\" value=\""@, 209);
    assert(start_page(mode, nonce) =~= before + piece + n + next + after);
}

proof fn lemma_pieces_5()
    ensures
        PAGE_AUTOSTART@.len() >= 209,
        PAGE_AUTOSTART@.skip(209) == "<form method=\"post\" action=\"/remove-autostart\">\n      <input type=\"hidden\" name=\"nonce\" value=\""@,
        PAGE_END@.len() >= 2,
        PAGE_END@.take(2) == "\">"@,
{
    reveal_strlit(r#"">
      <button type="submit">
        Локальный доступный режим
        <span class="hint">Для незрячего стримера на этом же компьютере, без Tailscale и pairing-кода.</span>
      </button>
    </form>

    <form method="post" action="/remove-autostart">
      <input type="hidden" name="nonce" value=""#);
    reveal_strlit(r#"">
      <button type="submit">
        Убрать автозапуск удалённого агента
        <span class="hint">Полезно, если локальный режим конфликтует с remote-режимом на порту 8787.</span>
      </button>
    </form>
  </main>
</body>
</html>"#);
    reveal_strlit("<form method=\"post\" action=\"/remove-autostart\">\n      <input type=\"hidden\" name=\"nonce\" value=\"");
    reveal_strlit("\">");
    assert(PAGE_AUTOSTART@.skip(209) =~= "<form method=\"post\" action=\"/remove-autostart\">\n      <input type=\"hidden\" name=\"nonce\" value=\""@);
    assert(PAGE_END@.take(2) =~= "\">"@);
}

/// The modes have names of their own.
pub proof fn law_modes_are_named_apart()
    ensures
        mode_words(InterfaceMode::Accessible) == "доступный, для незрячего"@,
        mode_words(InterfaceMode::Standard) == "обычный, для зрячего"@,
{
}

/// A quotation mark is escaped too, and what holds none of the four characters of markup is shown as
/// it is.
pub proof fn law_plain_text_is_shown_as_it_is(s: Seq<char>)
    requires
        forall|i: int|
            0 <= i < s.len() ==> #[trigger] s[i] != '&' && s[i] != '<' && s[i] != '>' && s[i] != '"',
    ensures
        escaped(s) == s,
{
    lemma_nothing_to_replace(s, '&', "&amp;"@);
    lemma_nothing_to_replace(s, '<', "&lt;"@);
    lemma_nothing_to_replace(s, '>', "&gt;"@);
    lemma_nothing_to_replace(s, '"', "&quot;"@);
}

proof fn lemma_nothing_to_replace(s: Seq<char>, c: char, with: Seq<char>)
    requires
        forall|i: int| 0 <= i < s.len() ==> #[trigger] s[i] != c,
    ensures
        text::replaced(s, c, with) == s,
    decreases s.len(),
{
    if s.len() > 0 {
        let front = s.drop_last();
        assert forall|i: int| 0 <= i < front.len() implies #[trigger] front[i] != c by {
            assert(s[i] != c);
        }
        lemma_nothing_to_replace(front, c, with);
        assert(s[s.len() - 1] != c);
        assert(s =~= front.push(s.last()));
    }
}

/// A page with a result shows its title, its message and, where there is one, the link back.
pub proof fn law_a_page_shows_its_message(title: Seq<char>, message: Seq<char>, back: Option<Seq<char>>)
    ensures
        text::holds_text(result_words(title, message, back), escaped(title)),
        text::holds_text(result_words(title, message, back), escaped(message)),
        back matches Some(url) ==> text::holds_text(
            result_words(title, message, back),
            "<a href=\""@ + url + "\">"@,
        ),
{
    let a = "<!doctype html>\n<html lang=\"ru\">\n<head>\n  <meta charset=\"utf-8\">\n  <meta name=\"viewport\" content=\"width=device-width, initial-scale=1\">\n  <title>"@;
    let t = escaped(title);
    let b = "</title>\n  <style>"@;
    let css = LAUNCHER_CSS@;
    let c = "</style>\n</head>\n<body>\n  <main>\n    <h1>"@;
    let d = "</h1>\n    <p role=\"status\">"@;
    let m = escaped(message);
    let e = "</p>\n    "@;
    let l = back_link(back);
    let f = "\n  </main>\n</body>\n</html>"@;
    let whole = result_words(title, message, back);
    text::lemma_part_is_held(a, t, b + css + c + t + d + m + e + l + f);
    assert(a + t + (b + css + c + t + d + m + e + l + f) =~= whole);
    text::lemma_part_is_held(a + t + b + css + c + t + d, m, e + l + f);
    assert(a + t + b + css + c + t + d + m + (e + l + f) =~= whole);
    if back is Some {
        let url = back->0;
        reveal_strlit("<p><a href=\"");
        reveal_strlit("<p>");
        reveal_strlit("<a href=\"");
        reveal_strlit("\">Back to launcher</a></p>");
        reveal_strlit("\">");
        reveal_strlit("Back to launcher</a></p>");
        assert("<p><a href=\""@ =~= "<p>"@ + "<a href=\""@);
        assert("\">Back to launcher</a></p>"@ =~= "\">"@ + "Back to launcher</a></p>"@);
        let link = "<a href=\""@ + url + "\">"@;
        text::lemma_part_is_held("<p>"@, link, "Back to launcher</a></p>"@);
        assert("<p>"@ + link + "Back to launcher</a></p>"@ =~= l);
        text::lemma_holds_inside(a + t + b + css + c + t + d + m + e, l, f, link);
    }
}

/// The start page has its address on this computer, at the port 8786.
pub proof fn law_the_start_page_is_local()
    ensures
        start_address() == "http://127.0.0.1:"@ + text::decimal(8786) + "/"@,
        config::APP_NAME@ == "Accessible OBS"@,
{
}

/// An action goes on exactly if it carries the secret of the page and comes from this computer, by its
/// origin or, without one, by the host it asked for.
pub proof fn law_the_own_page_may_act(
    nonce: Seq<char>,
    origin: Seq<char>,
    host: Option<Seq<char>>,
    own: Seq<char>,
)
    ensures
        may_act(nonce, Some(origin), host, nonce) <==> auth::is_own_origin(origin),
        may_act(nonce, None, Some(own), nonce) <==> auth::is_own_host(own),
{
}

/// Every argument asks for its own task; without one the start page is opened, and an unknown one is
/// answered with help.
pub proof fn law_each_argument_asks_its_task(a: Seq<char>)
    ensures
        task_of(None) == Task::Launcher,
        a == "--launcher"@ || a == "--install"@ ==> task_of(Some(a)) == Task::Launcher,
        task_of(Some("--host"@)) == Task::Host,
        task_of(Some("--controller"@)) == Task::Controller,
        task_of(Some("--local"@)) == Task::Local,
        task_of(Some("--remove-autostart"@)) == Task::RemoveAutostart,
        a != "--launcher"@ && a != "--install"@ && a != "--host"@ && a != "--controller"@ && a
            != "--local"@ && a != "--remove-autostart"@ <==> task_of(Some(a)) == Task::Help,
{
    reveal_strlit("--launcher");
    reveal_strlit("--install");
    reveal_strlit("--host");
    reveal_strlit("--controller");
    reveal_strlit("--local");
    reveal_strlit("--remove-autostart");
    assert("--launcher"@.len() == 10);
    assert("--install"@.len() == 9);
    assert("--host"@.len() == 6);
    assert("--controller"@.len() == 12);
    assert("--local"@.len() == 7);
    assert("--remove-autostart"@.len() == 18);
}

/// An address to try is that of the machine at the port. A name of the tailnet is not looked for in
/// the local network; any other is. The address that was written down counts if it is not blank.
pub proof fn law_the_right_addresses_are_tried(cfg: ControllerConfig)
    ensures
        ({
            let name = cfg.friend_machine_name@;
            let fallback = text::trimmed(cfg.friend_tailscale_ip_fallback@);
            let local = "http://"@ + name + ".local"@ + ":"@ + text::decimal(cfg.web_port as nat);
            let written = "http://"@ + fallback + ":"@ + text::decimal(cfg.web_port as nat);
            let all = addresses_to_try(cfg);
            &&& all[0] == "http://"@ + name + ":"@ + text::decimal(cfg.web_port as nat)
            &&& !".ts.net"@.is_suffix_of(name) ==> all.len() >= 2 && all[1] == local
            &&& ".ts.net"@.is_suffix_of(name) && fallback.len() == 0 ==> all.len() == 1
            &&& ".ts.net"@.is_suffix_of(name) && fallback.len() > 0 ==> all.len() == 2
            &&& !".ts.net"@.is_suffix_of(name) && fallback.len() == 0 ==> all.len() == 2
            &&& !".ts.net"@.is_suffix_of(name) && fallback.len() > 0 ==> all.len() == 3
            &&& fallback.len() > 0 ==> all.last() == written
        }),
{
    reveal_strlit("");
    let name = cfg.friend_machine_name@;
    let fallback = text::trimmed(cfg.friend_tailscale_ip_fallback@);
    assert("http://"@ + name + ""@ =~= "http://"@ + name);
    assert("http://"@ + fallback + ""@ =~= "http://"@ + fallback);
}

/// Only the program that calls itself by our name is ours, and its mode is the one it tells.
pub proof fn law_only_our_program_is_ours(v: json::JsonV, mode: Seq<char>)
    ensures
        answerer(v) is Ours <==> v.text_at("app"@) == Some("Accessible OBS"@),
        v.text_at("app"@) == Some("Accessible OBS"@) && v.text_at("mode"@) == Some(mode) ==> answerer(v)
            == PingV::Ours(mode),
        answerer(v) is Ours || answerer(v) is Foreign,
{
}

/// A local agent that is there is used, a remote one is in the way, and otherwise one is started.
pub proof fn law_the_local_start_goes_by_the_mode(mode: Option<Seq<char>>)
    ensures
        mode == Some("local"@) <==> local_decision(mode) == LocalStart::AlreadyRunning,
        mode == Some("remote"@) <==> local_decision(mode) == LocalStart::BlockedByRemote,
        mode is None ==> local_decision(mode) == LocalStart::Start,
{
    reveal_strlit("local");
    reveal_strlit("remote");
    assert("local"@.len() == 5);
    assert("remote"@.len() == 6);
}

/// The page to log in is the first word that is an address, wherever it stands, without the stops and
/// commas around it.
pub proof fn law_the_first_address_is_found(words: Seq<Seq<char>>, i: int, rest: Seq<char>)
    ensures
        0 <= i < words.len() && is_url(words[i]) && (forall|j: int|
            0 <= j < i ==> !is_url(#[trigger] words[j])) ==> first_url(words) == Some(words[i]),
        (forall|j: int| 0 <= j < words.len() ==> !is_url(#[trigger] words[j])) ==> first_url(words)
            is None,
        is_url("http://"@ + rest) && is_url("https://"@ + rest),
    decreases words.len(),
{
    assert(("http://"@ + rest).take("http://"@.len() as int) =~= "http://"@);
    assert(("https://"@ + rest).take("https://"@.len() as int) =~= "https://"@);
    if words.len() > 0 {
        let front = words.drop_last();
        law_the_first_address_is_found(front, i, rest);
        law_the_first_address_is_found(front, -1, rest);
        assert(forall|j: int| 0 <= j < front.len() ==> #[trigger] front[j] == words[j]);
        assert(words.last() == words[words.len() - 1]);
        if forall|j: int| 0 <= j < words.len() ==> !is_url(#[trigger] words[j]) {
            assert forall|j: int| 0 <= j < front.len() implies !is_url(#[trigger] front[j]) by {
                assert(!is_url(words[j]));
            }
        }
        if 0 <= i < words.len() && is_url(words[i]) && (forall|j: int|
            0 <= j < i ==> !is_url(#[trigger] words[j])) {
            assert forall|j: int| 0 <= j < i implies !is_url(#[trigger] front[j]) by {
                assert(!is_url(words[j]));
            }
            if i < front.len() {
                assert(front[i] == words[i]);
            }
        }
    }
}


/// What Tailscale printed is searched word by word: an address among its words is the page to log in,
/// without the full stops and commas around it, which alone are taken away.
pub proof fn law_the_login_page_is_found(output: Seq<char>, url: Seq<char>, stop: char)
    requires
        url.len() > 0,
        url[0] != '.' && url[0] != ',',
        url.last() != '.' && url.last() != ',',
        stop == '.' || stop == ',',
    ensures
        unpunctuated(url) == url,
        unpunctuated(url.push(stop)) == url,
        first_url(text::nonempty(text::pieces(output, Class::Space))) == Some(url.push(stop))
            ==> login_page(output) == Some(url),
        first_url(text::nonempty(text::pieces(output, Class::Space))) is None ==> login_page(output)
            is None,
{
    let s = url.push(stop);
    assert(s[0] == url[0]);
    assert(text::skip_front(s, Class::Either('.', ',')) == s);
    assert(s.drop_last() =~= url);
    assert(text::skip_back(url, Class::Either('.', ',')) == url);
    assert(text::skip_back(s, Class::Either('.', ',')) == url);
}

} // verus!
