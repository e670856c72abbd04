//! The configuration of both sides, and how stored secrets complete it.
use vstd::prelude::*;
use crate::json;
use crate::json::Json;
use crate::number;
use crate::number::Reading;
use crate::secrets;
use crate::text;

verus! {

pub const APP_NAME: &'static str = "Accessible OBS";

/// The scene that holds what lies over every other scene.
pub const OVERLAY_SCENE: &'static str = "RSC_OVERLAYS";

/// The source that shows donations.
pub const DA_INPUT: &'static str = "RSC_DonationAlerts";

/// Whether the panel is reached through the tailnet or on this very computer.
#[derive(Debug, Clone, Copy, PartialEq, Eq, Structural)]
pub enum RuntimeMode {
    Remote,
    Local,
}

/// Whom the interface is for. "Accessible" and "convenient to look at" are different things, and
/// not degrees of one.
#[derive(Debug, Clone, Copy, PartialEq, Eq, Structural)]
pub enum InterfaceMode {
    /// For a blind person: whatever matters is said aloud, what is only to be looked at is hidden.
    Accessible,
    /// For a sighted person.
    Standard,
}

/// A number of decibels, carried as the bits of a double-precision number.
#[derive(Debug, Clone, Copy, PartialEq, Eq, Structural)]
pub struct Decibels {
    pub bits: u64,
}

/// The configuration of the actor's computer.
#[derive(Debug, Clone)]
pub struct HostConfig {
    pub runtime_mode: RuntimeMode,
    pub interface_mode: InterfaceMode,
    pub obs_path: String,
    pub obs_websocket_host: String,
    pub obs_websocket_port: u16,
    pub obs_websocket_password: String,
    pub listen_mode: String,
    pub web_port: u16,
    pub auto_start_obs: bool,
    pub enable_tailscale_unattended_after_login: bool,
    pub twitch: TwitchConfig,
    pub donationalerts: DonationAlertsConfig,
}

/// The configuration of the owner's computer.
#[derive(Debug, Clone)]
pub struct ControllerConfig {
    pub friend_machine_name: String,
    pub friend_tailscale_ip_fallback: String,
    pub web_port: u16,
    pub auto_open_browser: bool,
}

#[derive(Debug, Clone)]
pub struct TwitchConfig {
    pub enabled: bool,
    pub client_id: String,
    pub scopes: Vec<String>,
}

#[derive(Debug, Clone)]
pub struct DonationAlertsConfig {
    pub enabled: bool,
    pub client_id: String,
    pub client_secret: String,
    pub redirect_uri: String,
    pub overlay_scene_name: String,
    pub input_name: String,
    pub enforce_overlays: bool,
    pub browser_width: String,
    pub browser_height: String,
    pub reroute_audio: bool,
    pub initial_volume_db: Decibels,
    pub monitoring: String,
    pub oauth_enabled: bool,
    pub oauth_scopes: Vec<String>,
    pub announce_new_donations_to_nvda: bool,
}

// ---------------------------------------------------------------------------------------------
// Defaults
// ---------------------------------------------------------------------------------------------
pub fn default_runtime_mode() -> (r: RuntimeMode)
    ensures
        r == RuntimeMode::Remote,
{
    RuntimeMode::Remote
}

/// Accessible: the program exists for that, and it is better to show a sighted person one setting
/// too many than a blind one a useless button.
pub fn default_interface_mode() -> (r: InterfaceMode)
    ensures
        r == InterfaceMode::Accessible,
{
    InterfaceMode::Accessible
}

pub fn default_obs_host() -> (r: String)
    ensures
        r@ == "127.0.0.1"@,
{
    "127.0.0.1".to_owned()
}

pub fn default_obs_port() -> (r: u16)
    ensures
        r == 4455,
{
    4455
}

pub fn default_web_port() -> (r: u16)
    ensures
        r == 8787,
{
    8787
}

pub fn default_true() -> (r: bool)
    ensures
        r,
{
    true
}

pub fn default_listen_mode() -> (r: String)
    ensures
        r@ == "tailscale_only"@,
{
    "tailscale_only".to_owned()
}

pub fn default_friend_name() -> (r: String)
    ensures
        r@ == "friend-pc"@,
{
    "friend-pc".to_owned()
}

pub fn default_twitch_scopes() -> (r: Vec<String>)
    ensures
        text::views(r@) == seq!["channel:manage:broadcast"@],
{
    let mut out: Vec<String> = Vec::new();
    out.push("channel:manage:broadcast".to_owned());
    assert(text::views(out@) =~= seq!["channel:manage:broadcast"@]);
    out
}

pub fn default_da_scopes() -> (r: Vec<String>)
    ensures
        text::views(r@) == seq![
            "oauth-user-show"@,
            "oauth-donation-subscribe"@,
            "oauth-donation-index"@,
        ],
{
    let mut out: Vec<String> = Vec::new();
    out.push("oauth-user-show".to_owned());
    out.push("oauth-donation-subscribe".to_owned());
    out.push("oauth-donation-index".to_owned());
    assert(text::views(out@) =~= seq![
        "oauth-user-show"@,
        "oauth-donation-subscribe"@,
        "oauth-donation-index"@,
    ]);
    out
}

pub fn default_overlay_scene() -> (r: String)
    ensures
        r@ == OVERLAY_SCENE@,
{
    OVERLAY_SCENE.to_owned()
}

pub fn default_da_input() -> (r: String)
    ensures
        r@ == DA_INPUT@,
{
    DA_INPUT.to_owned()
}

pub fn default_browser_size() -> (r: String)
    ensures
        r@ == "obs_canvas"@,
{
    "obs_canvas".to_owned()
}

/// Eight decibels below full.
pub fn default_da_volume() -> (r: Decibels)
    ensures
        (Reading { bits: r.bits }).counted() == -8 * number::one(),
        r.bits == 0xC020_0000_0000_0000,
{
    let r = Decibels { bits: 0xC020_0000_0000_0000 };
    proof {
        assert(number::float_mantissa(r.bits) == 0x10_0000_0000_0000);
        assert(number::float_exponent(r.bits) == 1025);
        vstd::arithmetic::power2::lemma2_to64();
        vstd::arithmetic::power2::lemma2_to64_rest();
        vstd::arithmetic::power2::lemma_pow2_adds(52, 1025);
        vstd::arithmetic::power2::lemma_pow2_adds(3, 1074);
        assert(0x10_0000_0000_0000 * vstd::arithmetic::power2::pow2(1025) == 8 * number::one());
    }
    r
}

/// The audience and the owner both hear a donation: for a blind owner the sound is the only way to
/// learn of it.
pub fn default_monitoring() -> (r: String)
    ensures
        r@ == "both"@,
{
    "both".to_owned()
}

impl Default for TwitchConfig {
    fn default() -> (r: TwitchConfig)
        ensures
            r.enabled,
            r.client_id@.len() == 0,
            text::views(r.scopes@) == seq!["channel:manage:broadcast"@],
    {
        TwitchConfig { enabled: true, client_id: String::new(), scopes: default_twitch_scopes() }
    }
}

impl Default for DonationAlertsConfig {
    fn default() -> (r: DonationAlertsConfig)
        ensures
            r.enabled,
            r.client_id@.len() == 0,
            r.client_secret@.len() == 0,
            r.redirect_uri@.len() == 0,
            r.overlay_scene_name@ == OVERLAY_SCENE@,
            r.input_name@ == DA_INPUT@,
            r.enforce_overlays,
            r.browser_width@ == "obs_canvas"@,
            r.browser_height@ == "obs_canvas"@,
            r.reroute_audio,
            r.initial_volume_db.bits == 0xC020_0000_0000_0000,
            r.monitoring@ == "both"@,
            r.oauth_enabled,
            text::views(r.oauth_scopes@) == seq![
                "oauth-user-show"@,
                "oauth-donation-subscribe"@,
                "oauth-donation-index"@,
            ],
            !r.announce_new_donations_to_nvda,
    {
        DonationAlertsConfig {
            enabled: true,
            client_id: String::new(),
            client_secret: String::new(),
            redirect_uri: String::new(),
            overlay_scene_name: default_overlay_scene(),
            input_name: default_da_input(),
            enforce_overlays: true,
            browser_width: default_browser_size(),
            browser_height: default_browser_size(),
            reroute_audio: true,
            initial_volume_db: default_da_volume(),
            monitoring: default_monitoring(),
            oauth_enabled: true,
            oauth_scopes: default_da_scopes(),
            announce_new_donations_to_nvda: false,
        }
    }
}

impl Default for HostConfig {
    fn default() -> (r: HostConfig)
        ensures
            r.runtime_mode == RuntimeMode::Remote,
            r.interface_mode == InterfaceMode::Accessible,
            r.obs_path@.len() == 0,
            r.obs_websocket_host@ == "127.0.0.1"@,
            r.obs_websocket_port == 4455,
            r.obs_websocket_password@.len() == 0,
            r.listen_mode@ == "tailscale_only"@,
            r.web_port == 8787,
            r.auto_start_obs,
            r.enable_tailscale_unattended_after_login,
            r.twitch.enabled,
            r.twitch.client_id@.len() == 0,
            text::views(r.twitch.scopes@) == seq!["channel:manage:broadcast"@],
            r.donationalerts.enabled,
            r.donationalerts.client_secret@.len() == 0,
            r.donationalerts.overlay_scene_name@ == OVERLAY_SCENE@,
            r.donationalerts.input_name@ == DA_INPUT@,
            r.donationalerts.reroute_audio,
            r.donationalerts.enforce_overlays,
            r.donationalerts.monitoring@ == "both"@,
    {
        HostConfig {
            runtime_mode: default_runtime_mode(),
            interface_mode: default_interface_mode(),
            obs_path: String::new(),
            obs_websocket_host: default_obs_host(),
            obs_websocket_port: default_obs_port(),
            obs_websocket_password: String::new(),
            listen_mode: default_listen_mode(),
            web_port: default_web_port(),
            auto_start_obs: true,
            enable_tailscale_unattended_after_login: true,
            twitch: TwitchConfig::default(),
            donationalerts: DonationAlertsConfig::default(),
        }
    }
}

impl Default for ControllerConfig {
    fn default() -> (r: ControllerConfig)
        ensures
            r.friend_machine_name@ == "friend-pc"@,
            r.friend_tailscale_ip_fallback@.len() == 0,
            r.web_port == 8787,
            r.auto_open_browser,
    {
        ControllerConfig {
            friend_machine_name: default_friend_name(),
            friend_tailscale_ip_fallback: String::new(),
            web_port: default_web_port(),
            auto_open_browser: true,
        }
    }
}

// ---------------------------------------------------------------------------------------------
// Reading configuration files
// ---------------------------------------------------------------------------------------------
/// A text without the byte-order marks at its front, which some editors leave there.
pub fn strip_bom(s: &str) -> (r: String)
    ensures
        r@ == text::skip_front(s@, text::Class::Is('\u{feff}')),
{
    text::trim_front(s, &text::Class::Is('\u{feff}'))
}

// ---------------------------------------------------------------------------------------------
// Scopes
// ---------------------------------------------------------------------------------------------
/// The scopes named in a text: separated by commas or white space.
pub open spec fn scopes_in(s: Seq<char>) -> Seq<Seq<char>> {
    text::nonempty(text::pieces(s, text::Class::SpaceOr(',')))
}

/// The scopes named in a text.
pub fn split_scopes(value: &str) -> (r: Vec<String>)
    ensures
        text::views(r@) == scopes_in(value@),
{
    text::words(value, &text::Class::SpaceOr(','))
}

/// No scope is empty, and none holds a comma or white space.
pub proof fn law_scopes_are_clean(s: Seq<char>, i: int)
    requires
        0 <= i < scopes_in(s).len(),
    ensures
        scopes_in(s)[i].len() > 0,
        forall|j: int|
            0 <= j < scopes_in(s)[i].len() ==> (#[trigger] scopes_in(s)[i][j]) != ','
                && !text::is_space(scopes_in(s)[i][j]),
{
    let class = text::Class::SpaceOr(',');
    let all = text::pieces(s, class);
    let keep = |p: Seq<char>| p.len() > 0;
    text::lemma_pieces_free_of_separators(s, class);
    all.lemma_filter_pred(keep, i);
    assert(all.filter(keep)[i] == scopes_in(s)[i]);
    assert(all.filter(keep).contains(scopes_in(s)[i]));
    all.lemma_filter_contains_rev(keep, scopes_in(s)[i]);
    let k = choose|k: int| 0 <= k < all.len() && all[k] == scopes_in(s)[i];
    assert forall|j: int| 0 <= j < scopes_in(s)[i].len() implies (#[trigger] scopes_in(s)[i][j])
        != ',' && !text::is_space(scopes_in(s)[i][j]) by {
        assert(!class.has(all[k][j]));
    }
}

/// The scopes named in the strings of an array.
pub open spec fn scopes_in_items(items: Seq<json::JsonV>) -> Seq<Seq<char>>
    decreases items.len(),
{
    if items.len() == 0 {
        Seq::empty()
    } else {
        scopes_in_items(items.drop_last()) + (match items.last().text() {
            Some(s) => scopes_in(s),
            None => Seq::empty(),
        })
    }
}

/// The scopes that a form asks for: a text or an array of texts. Where it names none, the scopes
/// stay as they are.
pub open spec fn requested_scopes(
    body: json::JsonV,
    field: Seq<char>,
    fallback: Seq<Seq<char>>,
) -> Seq<Seq<char>> {
    match body.field(field) {
        Some(json::JsonV::Str(raw)) => if scopes_in(raw).len() > 0 {
            scopes_in(raw)
        } else {
            fallback
        },
        Some(json::JsonV::Array(items)) => if scopes_in_items(items).len() > 0 {
            scopes_in_items(items)
        } else {
            fallback
        },
        _ => fallback,
    }
}

/// The scopes that a form asks for.
pub fn scopes_from_body(body: &Json, field: &str, fallback: &Vec<String>) -> (r: Vec<String>)
    ensures
        text::views(r@) == requested_scopes(body@, field@, text::views(fallback@)),
{
    match body.get(field) {
        Some(Json::Str(raw)) => {
            let scopes = split_scopes(raw.as_str());
            proof {
                assert(text::views(scopes@).len() == scopes@.len());
            }
            if scopes.len() > 0 {
                return scopes;
            }
        },
        Some(Json::Array(items)) => {
            proof {
                json::lemma_array_model(*items);
            }
            let ghost all = json::items_view(items@);
            let mut scopes: Vec<String> = Vec::new();
            let mut i: usize = 0;
            assert(text::views(scopes@) =~= Seq::empty());
            while i < items.len()
                invariant
                    i <= items.len(),
                    all == json::items_view(items@),
                    text::views(scopes@) == scopes_in_items(all.take(i as int)),
                decreases items.len() - i,
            {
                proof {
                    assert(all.take(i + 1).drop_last() =~= all.take(i as int));
                    assert(all.take(i + 1).last() == items@[i as int]@);
                }
                let ghost before = scopes@;
                if let Some(s) = items[i].as_str() {
                    let mut more = split_scopes(s);
                    let ghost added = more@;
                    scopes.append(&mut more);
                    assert(text::views(scopes@) =~= text::views(before) + text::views(added));
                } else {
                    assert(text::views(scopes@) + Seq::<Seq<char>>::empty() =~= text::views(
                        scopes@,
                    ));
                }
                i = i + 1;
            }
            proof {
                assert(all.take(i as int) =~= all);
                assert(text::views(scopes@).len() == scopes@.len());
            }
            if scopes.len() > 0 {
                return scopes;
            }
        },
        _ => {},
    }
    text::copy_list(fallback)
}

/// The scopes in the store, where it holds some, else the given ones.
pub open spec fn stored_scopes(
    stored: Option<Seq<char>>,
    fallback: Seq<Seq<char>>,
) -> Seq<Seq<char>> {
    match secrets::meaningful(stored) {
        Some(raw) => scopes_or(json::text_list(raw), fallback),
        None => fallback,
    }
}

/// The scopes that were read, if any, else the given ones.
pub open spec fn scopes_or(
    read: Option<Seq<Seq<char>>>,
    fallback: Seq<Seq<char>>,
) -> Seq<Seq<char>> {
    match read {
        Some(scopes) => if scopes.len() > 0 {
            scopes
        } else {
            fallback
        },
        None => fallback,
    }
}

/// The scopes that were read, if any, else the given ones.
pub fn read_scopes(read: Option<Vec<String>>, fallback: &Vec<String>) -> (r: Vec<String>)
    ensures
        text::views(r@) == scopes_or(
            match read {
                Some(list) => Some(text::views(list@)),
                None => None,
            },
            text::views(fallback@),
        ),
{
    match read {
        Some(scopes) => {
            assert(text::views(scopes@).len() == scopes@.len());
            if scopes.len() > 0 {
                scopes
            } else {
                text::copy_list(fallback)
            }
        },
        None => text::copy_list(fallback),
    }
}

/// The scopes in the store, where it holds some, else the given ones.
pub fn secret_scopes(stored: Option<String>, fallback: &Vec<String>) -> (r: Vec<String>)
    ensures
        text::views(r@) == stored_scopes(text::opt_view(stored), text::views(fallback@)),
{
    match secrets::secret_string(stored) {
        Some(raw) => read_scopes(json::read_texts(raw.as_str()), fallback),
        None => text::copy_list(fallback),
    }
}

// ---------------------------------------------------------------------------------------------
// Secrets over the configuration
// ---------------------------------------------------------------------------------------------
/// What the store holds for DonationAlerts.
pub struct StoredDonationAlerts {
    pub client_id: Option<String>,
    pub client_secret: Option<String>,
    pub redirect_uri: Option<String>,
    pub oauth_scopes: Option<String>,
}

/// A stored text where there is a meaningful one, else the configured one.
pub open spec fn overlaid(stored: Option<String>, configured: Seq<char>) -> Seq<char> {
    match secrets::meaningful(text::opt_view(stored)) {
        Some(v) => v,
        None => configured,
    }
}

fn overlay_text(stored: Option<String>, configured: &str) -> (r: String)
    ensures
        r@ == overlaid(stored, configured@),
{
    match secrets::secret_string(stored) {
        Some(v) => v,
        None => configured.to_owned(),
    }
}

/// The configuration with what the store holds laid over it.
pub fn resolve_donationalerts_config(
    base: &DonationAlertsConfig,
    stored: StoredDonationAlerts,
) -> (r: DonationAlertsConfig)
    ensures
        r.client_id@ == overlaid(stored.client_id, base.client_id@),
        r.client_secret@ == overlaid(stored.client_secret, base.client_secret@),
        r.redirect_uri@ == overlaid(stored.redirect_uri, base.redirect_uri@),
        text::views(r.oauth_scopes@) == stored_scopes(
            text::opt_view(stored.oauth_scopes),
            text::views(base.oauth_scopes@),
        ),
        r.enabled == base.enabled,
        r.overlay_scene_name@ == base.overlay_scene_name@,
        r.input_name@ == base.input_name@,
        r.enforce_overlays == base.enforce_overlays,
        r.browser_width@ == base.browser_width@,
        r.browser_height@ == base.browser_height@,
        r.reroute_audio == base.reroute_audio,
        r.initial_volume_db == base.initial_volume_db,
        r.monitoring@ == base.monitoring@,
        r.oauth_enabled == base.oauth_enabled,
        r.announce_new_donations_to_nvda == base.announce_new_donations_to_nvda,
{
    DonationAlertsConfig {
        enabled: base.enabled,
        client_id: overlay_text(stored.client_id, base.client_id.as_str()),
        client_secret: overlay_text(stored.client_secret, base.client_secret.as_str()),
        redirect_uri: overlay_text(stored.redirect_uri, base.redirect_uri.as_str()),
        overlay_scene_name: base.overlay_scene_name.clone(),
        input_name: base.input_name.clone(),
        enforce_overlays: base.enforce_overlays,
        browser_width: base.browser_width.clone(),
        browser_height: base.browser_height.clone(),
        reroute_audio: base.reroute_audio,
        initial_volume_db: base.initial_volume_db,
        monitoring: base.monitoring.clone(),
        oauth_enabled: base.oauth_enabled,
        oauth_scopes: secret_scopes(stored.oauth_scopes, &base.oauth_scopes),
        announce_new_donations_to_nvda: base.announce_new_donations_to_nvda,
    }
}

/// The configuration of Twitch with what the store holds laid over it.
pub fn effective_twitch_config(
    base: &TwitchConfig,
    client_id: Option<String>,
    scopes: Option<String>,
) -> (r: TwitchConfig)
    ensures
        r.enabled == base.enabled,
        r.client_id@ == overlaid(client_id, base.client_id@),
        text::views(r.scopes@) == stored_scopes(
            text::opt_view(scopes),
            text::views(base.scopes@),
        ),
{
    TwitchConfig {
        enabled: base.enabled,
        client_id: overlay_text(client_id, base.client_id.as_str()),
        scopes: secret_scopes(scopes, &base.scopes),
    }
}

/// How a client secret that stands in the configuration file is moved into the store.
pub struct SecretMigration {
    /// The secret to work with.
    pub client_secret: String,
    /// Save this in the store and write the configuration file without it.
    pub save: Option<String>,
}

/// Moves a client secret out of the configuration file into the store. Without one in the file the
/// stored one is used.
pub fn load_runtime_donationalerts_secret(configured: &str, stored: Option<String>) -> (r:
    SecretMigration)
    ensures
        text::trimmed(configured@).len() > 0 ==> r.client_secret@ == text::trimmed(configured@)
            && text::opt_view(r.save) == Some(text::trimmed(configured@)),
        text::trimmed(configured@).len() == 0 ==> r.save is None && r.client_secret@ == (
        match text::opt_view(stored) {
            Some(s) => s,
            None => configured@,
        }),
{
    let own = text::trim(configured);
    if !own.as_str().is_empty() {
        return SecretMigration { client_secret: own.clone(), save: Some(own) };
    }
    match stored {
        Some(s) => SecretMigration { client_secret: s, save: None },
        None => SecretMigration { client_secret: configured.to_owned(), save: None },
    }
}

/// The password for OBS, and whether it is new to the store.
#[derive(Debug)]
pub struct PasswordChoice {
    pub password: String,
    pub save: bool,
}

/// The password for OBS: the stored one, else the configured one unless it is blank, else the one
/// that OBS already uses, else the given last resort. A password that other programs rely on is
/// taken over rather than replaced.
pub open spec fn chosen_password(
    stored: Option<Seq<char>>,
    configured: Seq<char>,
    existing: Option<Seq<char>>,
    last_resort: Seq<char>,
) -> Seq<char> {
    match stored {
        Some(s) => s,
        None => if text::trimmed(configured).len() > 0 {
            configured
        } else {
            match existing {
                Some(e) => e,
                None => last_resort,
            }
        },
    }
}

/// The password for OBS when the agent runs: without any, the empty one, which is not stored.
pub fn runtime_obs_password(
    stored: Option<String>,
    configured: &str,
    existing: Option<String>,
) -> (r: PasswordChoice)
    ensures
        r.password@ == chosen_password(
            text::opt_view(stored),
            configured@,
            text::opt_view(existing),
            Seq::empty(),
        ),
        r.save == (stored is None && (text::trimmed(configured@).len() > 0 || existing is Some)),
{
    if let Some(secret) = stored {
        return PasswordChoice { password: secret, save: false };
    }
    if !text::is_blank(configured) {
        return PasswordChoice { password: configured.to_owned(), save: true };
    }
    match existing {
        Some(e) => PasswordChoice { password: e, save: true },
        None => PasswordChoice { password: String::new(), save: false },
    }
}

/// The password for OBS when a computer is set up: without any, the generated one. What was not
/// stored before is to be stored.
pub fn password_or_generated(
    stored: Option<String>,
    configured: &str,
    existing: Option<String>,
    generated: String,
) -> (r: PasswordChoice)
    ensures
        r.password@ == chosen_password(
            text::opt_view(stored),
            configured@,
            text::opt_view(existing),
            generated@,
        ),
        r.save == (stored is None),
{
    if let Some(secret) = stored {
        return PasswordChoice { password: secret, save: false };
    }
    if !text::is_blank(configured) {
        return PasswordChoice { password: configured.to_owned(), save: true };
    }
    match existing {
        Some(e) => PasswordChoice { password: e, save: true },
        None => PasswordChoice { password: generated, save: true },
    }
}

/// The password for OBS when the local mode is set up: without any, a random one of 24 bytes.
pub fn runtime_or_existing_obs_password(
    stored: Option<String>,
    configured: &str,
    existing: Option<String>,
) -> (r: PasswordChoice)
    ensures
        exists|b: Seq<u8>|
            b.len() == 24 && r.password@ == chosen_password(
                text::opt_view(stored),
                configured@,
                text::opt_view(existing),
                #[trigger] secrets::base64_url_of(b),
            ),
        r.save == (stored is None),
{
    let generated = secrets::random_secret_b64(24);
    let ghost made = generated@;
    let r = password_or_generated(stored, configured, existing, generated);
    proof {
        let b = choose|b: Seq<u8>| b.len() == 24 && made == secrets::base64_url_of(b);
        assert(r.password@ == chosen_password(
            text::opt_view(stored),
            configured@,
            text::opt_view(existing),
            secrets::base64_url_of(b),
        ));
    }
    r
}

/// The code by which the operator's panel is let in: the stored one, else a random one of ten
/// bytes, which is to be stored.
pub fn ensure_pairing_secret(stored: Option<String>) -> (r: PasswordChoice)
    ensures
        r.save == (stored is None),
        match stored {
            Some(s) => r.password@ == s@,
            None => exists|b: Seq<u8>|
                b.len() == 10 && r.password@ == #[trigger] secrets::base64_url_of(b),
        },
{
    match stored {
        Some(s) => PasswordChoice { password: s, save: false },
        None => PasswordChoice { password: secrets::random_secret_b64(10), save: true },
    }
}

/// A password that OBS already uses is never replaced by a generated one.
pub proof fn law_existing_password_is_adopted(
    stored: Option<Seq<char>>,
    configured: Seq<char>,
    existing: Seq<char>,
    generated: Seq<char>,
)
    requires
        stored is None,
        text::trimmed(configured).len() == 0,
    ensures
        chosen_password(stored, configured, Some(existing), generated) == existing,
{
}


/// Every scope that stands between separators is named, wherever it stands, and nothing else is: what
/// stands on either side of a separator is named as it would be alone.
pub proof fn law_every_scope_is_named(a: Seq<char>, c: char, b: Seq<char>)
    requires
        c == ',' || text::is_space(c),
    ensures
        scopes_in(a.push(c) + b) == scopes_in(a) + scopes_in(b),
{
    let class = text::Class::SpaceOr(',');
    text::law_a_separator_parts_a_text(a, c, b, class);
    let kept = |p: Seq<char>| p.len() > 0;
    Seq::filter_distributes_over_add(text::pieces(a, class), text::pieces(b, class), kept);
}

/// A text without separators names itself; an empty one names nothing.
pub proof fn law_a_single_scope_is_named(s: Seq<char>)
    requires
        forall|i: int| 0 <= i < s.len() ==> #[trigger] s[i] != ',' && !text::is_space(s[i]),
    ensures
        s.len() > 0 ==> scopes_in(s) == seq![s],
        s.len() == 0 ==> scopes_in(s).len() == 0,
{
    let class = text::Class::SpaceOr(',');
    assert forall|i: int| 0 <= i < s.len() implies !class.has(#[trigger] s[i]) by {
        assert(s[i] != ',' && !text::is_space(s[i]));
    }
    text::law_one_piece(s, class);
    reveal(Seq::filter);
    reveal_with_fuel(Seq::filter, 2);
    let kept = |p: Seq<char>| p.len() > 0;
    assert(seq![s].drop_last() =~= Seq::empty());
    assert(Seq::<Seq<char>>::empty().filter(kept) =~= Seq::empty());
    if s.len() > 0 {
        assert(seq![s].filter(kept) =~= seq![s]);
    } else {
        assert(seq![s].filter(kept) =~= Seq::empty());
    }
}

/// The scopes that a form names are taken, from a text or from each text of a list in order; a form
/// that names none leaves the scopes as they are.
pub proof fn law_named_scopes_are_taken(
    body: json::JsonV,
    field: Seq<char>,
    fallback: Seq<Seq<char>>,
    raw: Seq<char>,
    items: Seq<json::JsonV>,
    item: json::JsonV,
)
    ensures
        body.field(field) == Some(json::JsonV::Str(raw)) && scopes_in(raw).len() > 0
            ==> requested_scopes(body, field, fallback) == scopes_in(raw),
        body.field(field) == Some(json::JsonV::Str(raw)) && scopes_in(raw).len() == 0
            ==> requested_scopes(body, field, fallback) == fallback,
        body.field(field) == Some(json::JsonV::Array(items)) && scopes_in_items(items).len() > 0
            ==> requested_scopes(body, field, fallback) == scopes_in_items(items),
        body.field(field) is None ==> requested_scopes(body, field, fallback) == fallback,
        item == json::JsonV::Str(raw) ==> scopes_in_items(items.push(item)) == scopes_in_items(items)
            + scopes_in(raw),
        item.text() is None ==> scopes_in_items(items.push(item)) == scopes_in_items(items),
        scopes_in_items(Seq::empty()).len() == 0,
{
    assert(items.push(item).drop_last() =~= items);
    assert(scopes_in_items(items) + Seq::<Seq<char>>::empty() =~= scopes_in_items(items));
}

/// What the store holds goes before what is configured; what is blank or empty does not count.
pub proof fn law_the_store_goes_first(
    stored: Option<String>,
    configured: Seq<char>,
    read: Option<Seq<Seq<char>>>,
    fallback: Seq<Seq<char>>,
)
    ensures
        stored matches Some(v) ==> (text::trimmed(v@).len() > 0 ==> overlaid(stored, configured)
            == v@),
        stored matches Some(v) ==> (text::trimmed(v@).len() == 0 ==> overlaid(stored, configured)
            == configured),
        stored is None ==> overlaid(stored, configured) == configured,
        read matches Some(list) ==> (list.len() > 0 ==> scopes_or(read, fallback) == list),
        read matches Some(list) ==> (list.len() == 0 ==> scopes_or(read, fallback) == fallback),
        read is None ==> scopes_or(read, fallback) == fallback,
        stored_scopes(None, fallback) == fallback,
{
}

/// A password is looked for in order: in the store, in the configuration, in OBS; only without any
/// of them the last resort is used.
pub proof fn law_passwords_are_looked_for_in_order(
    stored: Option<Seq<char>>,
    configured: Seq<char>,
    existing: Option<Seq<char>>,
    last_resort: Seq<char>,
)
    ensures
        stored matches Some(s) ==> chosen_password(stored, configured, existing, last_resort) == s,
        stored is None && text::trimmed(configured).len() > 0 ==> chosen_password(
            stored,
            configured,
            existing,
            last_resort,
        ) == configured,
        stored is None && text::trimmed(configured).len() == 0 && existing is None
            ==> chosen_password(stored, configured, existing, last_resort) == last_resort,
{
}

/// The names by which the program knows itself, its scene and its source.
pub proof fn law_names_are_fixed()
    ensures
        APP_NAME@ == "Accessible OBS"@,
        OVERLAY_SCENE@ == "RSC_OVERLAYS"@,
        DA_INPUT@ == "RSC_DonationAlerts"@,
{
}

} // verus!
