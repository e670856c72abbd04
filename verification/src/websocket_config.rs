//! The settings of obs-websocket, the plugin through which OBS is controlled.
//!
//! The settings that are needed are merged into those that are there: the rest belongs to the user.
//! A password that OBS already uses is taken over, because other programs may rely on it.
use vstd::prelude::*;
use crate::config;
use crate::json;
use crate::json::{Fields, Json};
use crate::obs;
use crate::text;

verus! {

/// The settings that are needed. Without `first_load` OBS would show the wizard of the plugin.
pub open spec fn needed(password: Seq<char>, port: u16) -> Map<Seq<char>, json::JsonV> {
    map![
        "server_enabled"@ => json::JsonV::Bool(true),
        "auth_required"@ => json::JsonV::Bool(true),
        "server_port"@ => json::JsonV::Int(port as i64),
        "server_password"@ => json::JsonV::Str(password),
        "first_load"@ => json::JsonV::Bool(false),
    ]
}

/// The settings that are needed.
pub fn desired_obs_websocket_config(password: &str, port: u16) -> (r: Json)
    ensures
        r@ == json::JsonV::Object(needed(password@, port)),
{
    Fields::new().put("server_enabled", Json::Bool(true)).put(
        "auth_required",
        Json::Bool(true),
    ).put("server_port", Json::Int(port as i64)).put("server_password", Json::text(password)).put(
        "first_load",
        Json::Bool(false),
    ).json()
}

/// The settings in a value; anything but an object has none.
pub open spec fn settings_in(v: json::JsonV) -> Map<Seq<char>, json::JsonV> {
    match v {
        json::JsonV::Object(m) => m,
        _ => Map::empty(),
    }
}

/// Whether all wanted settings are there with their values.
pub open spec fn agrees(
    current: Map<Seq<char>, json::JsonV>,
    wanted: Map<Seq<char>, json::JsonV>,
) -> bool {
    forall|k: Seq<char>| #[trigger]
        wanted.dom().contains(k) ==> current.dom().contains(k) && current[k] == wanted[k]
}

/// The current settings with the wanted ones in place.
pub open spec fn merged(
    current: Map<Seq<char>, json::JsonV>,
    wanted: Map<Seq<char>, json::JsonV>,
) -> Map<Seq<char>, json::JsonV> {
    current.union_prefer_right(wanted)
}

fn is_set(current: &Json, key: &str, value: &Json) -> (r: bool)
    requires
        current@ is Object,
    ensures
        r == (settings_in(current@).dom().contains(key@) && settings_in(current@)[key@]
            == value@),
{
    match current.get(key) {
        Some(v) => v.equals(value),
        None => false,
    }
}

/// Merges wanted settings into the current ones and says whether that changed anything. Settings
/// that are no object are replaced.
pub fn merge_config(current: Json, desired: &Json) -> (r: (Json, bool))
    requires
        desired@ is Object,
    ensures
        r.0@ == json::JsonV::Object(merged(settings_in(current@), settings_in(desired@))),
        r.1 == !agrees(settings_in(current@), settings_in(desired@)),
{
    let base = match current {
        Json::Object(pairs) => Json::Object(pairs),
        _ => obs::no_fields(),
    };
    let ghost before = settings_in(current@);
    let ghost wanted = settings_in(desired@);
    assert(base@ == json::JsonV::Object(before));
    let pairs = match desired {
        Json::Object(pairs) => pairs,
        _ => {
            return (base, false);
        },
    };
    let mut out = Fields::new();
    if let Json::Object(own) = base.copy() {
        out = Fields { pairs: own };
    }
    assert(out@ == before);
    let mut changed = false;
    let mut i: usize = 0;
    while i < pairs.len()
        invariant
            i <= pairs@.len(),
            base@ == json::JsonV::Object(before),
            desired@ == json::JsonV::Object(wanted),
            wanted == json::fields_view(pairs@),
            forall|k: Seq<char>| #[trigger] before.dom().contains(k) ==> out@.dom().contains(k),
            forall|k: Seq<char>| #[trigger]
                out@.dom().contains(k) ==> before.dom().contains(k) || wanted.dom().contains(k),
            forall|k: Seq<char>| #[trigger]
                out@.dom().contains(k) ==> (out@[k] == before[k] && before.dom().contains(k)) || (
                wanted.dom().contains(k) && out@[k] == wanted[k]),
            forall|j: int|
                0 <= j < i ==> out@.dom().contains((#[trigger] pairs@[j]).0@)
                    && out@[pairs@[j].0@] == wanted[pairs@[j].0@],
            changed ==> !agrees(before, wanted),
            !changed ==> forall|j: int|
                0 <= j < i ==> before.dom().contains((#[trigger] pairs@[j]).0@)
                    && before[pairs@[j].0@] == wanted[pairs@[j].0@],
        decreases pairs.len() - i,
    {
        let key = pairs[i].0.as_str();
        proof {
            json::lemma_pair_is_field(pairs@, i as int);
        }
        if let Some(value) = desired.get(key) {
            assert(value@ == wanted[key@]);
            let ghost held = out@;
            if !is_set(&base, key, value) {
                out = out.put(key, value.copy());
                changed = true;
                assert(wanted.dom().contains(key@));
                assert(out@ == held.insert(key@, wanted[key@]));
            } else {
                assert(before.dom().contains(key@));
                assert(out@.dom().contains(key@));
            }
        }
        i = i + 1;
    }
    proof {
        assert forall|k: Seq<char>| #[trigger] wanted.dom().contains(k) implies
            out@.dom().contains(k) && out@[k] == wanted[k] && (!changed ==> before.dom().contains(k)
            && before[k] == wanted[k]) by {
            let at = json::lemma_from_pair(pairs@, k);
            assert(pairs@[at].0@ == k);
        }
        assert(out@ =~= merged(before, wanted));
        if !changed {
            assert(agrees(before, wanted));
        }
    }
    (out.json(), changed)
}

/// The settings in the file: none if there is no file, or if it holds no object.
pub open spec fn stored_settings(raw: Option<Seq<char>>) -> Map<Seq<char>, json::JsonV> {
    match raw {
        Some(s) => match json::parsed(text::skip_front(s, text::Class::Is('\u{feff}'))) {
            Ok(v) => settings_in(v),
            Err(_) => Map::empty(),
        },
        None => Map::empty(),
    }
}

/// The settings in a value that was read.
pub fn object_or_empty(v: Json) -> (r: Json)
    ensures
        r@ == json::JsonV::Object(settings_in(v@)),
        json::settled(v@) ==> json::settled(r@),
        v@.legible(127) ==> r@.legible(127),
{
    match v {
        Json::Object(pairs) => Json::Object(pairs),
        _ => obs::no_fields(),
    }
}

/// Whether the file is an ordinary one: there is none, or its text cannot spell the name by which
/// `serde_json` marks raw text.
pub open spec fn is_ordinary(raw: Option<Seq<char>>) -> bool {
    match raw {
        Some(s) => !json::may_mark_raw(text::skip_front(s, text::Class::Is('\u{feff}'))),
        None => true,
    }
}

/// The settings in the file.
pub fn read_obs_websocket_config(raw: Option<&str>) -> (r: Json)
    ensures
        r@ == json::JsonV::Object(stored_settings(text::opt_str(raw))),
        json::settled(r@),
        is_ordinary(text::opt_str(raw)) ==> r@.legible(127),
{
    match raw {
        Some(s) => {
            let clean = config::strip_bom(s);
            match Json::parse(clean.as_str()) {
                Ok(v) => object_or_empty(v),
                Err(_) => obs::no_fields(),
            }
        },
        None => obs::no_fields(),
    }
}

/// The password in settings, unless it is empty.
pub open spec fn password_in(settings: Map<Seq<char>, json::JsonV>) -> Option<Seq<char>> {
    match json::JsonV::Object(settings).text_at("server_password"@) {
        Some(s) => if s.len() > 0 {
            Some(s)
        } else {
            None
        },
        None => None,
    }
}

/// The password in settings that were read.
pub fn password_of(settings: &Json) -> (r: Option<String>)
    requires
        settings@ is Object,
    ensures
        text::opt_view(r) == password_in(settings_in(settings@)),
{
    match settings.get_text("server_password") {
        Some(s) => if s.as_str().is_empty() {
            None
        } else {
            Some(s)
        },
        None => None,
    }
}

/// The password that OBS already uses, if it has one.
pub fn existing_obs_websocket_password(raw: Option<&str>) -> (r: Option<String>)
    ensures
        text::opt_view(r) == password_in(stored_settings(text::opt_str(raw))),
{
    password_of(&read_obs_websocket_config(raw))
}

/// Whether settings that were read are the needed ones.
pub fn settings_match(current: Json, password: &str, port: u16) -> (r: bool)
    ensures
        r == agrees(settings_in(current@), needed(password@, port)),
{
    let desired = desired_obs_websocket_config(password, port);
    let (_, changed) = merge_config(current, &desired);
    !changed
}

/// Whether the settings of OBS are the needed ones. OBS writes its settings when it ends, so they
/// can be changed only while it is not running: hence this question.
pub fn obs_websocket_config_matches(raw: Option<&str>, password: &str, port: u16) -> (r: bool)
    ensures
        r == agrees(stored_settings(text::opt_str(raw)), needed(password@, port)),
{
    settings_match(read_obs_websocket_config(raw), password, port)
}

/// The settings as they are to be: those in the file with the needed ones in place.
pub open spec fn target(raw: Option<Seq<char>>, password: Seq<char>, port: u16) -> Map<
    Seq<char>,
    json::JsonV,
> {
    merged(stored_settings(raw), needed(password, port))
}

/// What the file holds once it was written, if it was.
pub open spec fn file_after(raw: Option<Seq<char>>, written: Option<Seq<char>>) -> Option<
    Seq<char>,
> {
    match written {
        Some(s) => Some(s),
        None => raw,
    }
}

/// The text to write so that the settings become the needed ones; none if they already are. In the
/// file as it is then they are the needed ones, so that a second run finds nothing to write: this
/// holds of every ordinary file, and of any other whose settings are legible. Plain settings are
/// read out of the text again as they are to be.
pub fn ensure_obs_websocket_config(raw: Option<&str>, password: &str, port: u16) -> (r: Option<
    String,
>)
    ensures
        match r {
            Some(s) => !agrees(stored_settings(text::opt_str(raw)), needed(password@, port)) && s@
                == json::printed_pretty(
                json::JsonV::Object(target(text::opt_str(raw), password@, port)),
            ),
            None => agrees(stored_settings(text::opt_str(raw)), needed(password@, port)),
        },
        is_ordinary(text::opt_str(raw)) || json::JsonV::Object(
            target(text::opt_str(raw), password@, port),
        ).legible(127) ==> agrees(
            stored_settings(file_after(text::opt_str(raw), text::opt_view(r))),
            needed(password@, port),
        ),
        r is Some && json::JsonV::Object(target(text::opt_str(raw), password@, port)).plain(127)
            ==> stored_settings(text::opt_view(r)) == target(text::opt_str(raw), password@, port),
{
    let desired = desired_obs_websocket_config(password, port);
    let current = read_obs_websocket_config(raw);
    let ghost before = stored_settings(text::opt_str(raw));
    let ghost wanted = needed(password@, port);
    let ghost held = current@;
    let (cfg, changed) = merge_config(current, &desired);
    if changed {
        proof {
            lemma_needed_is_plain(password@, port);
            assert(json::settled(cfg@)) by {
                assert forall|k: Seq<char>|
                    merged(before, wanted).dom().contains(k) implies json::settled(
                    #[trigger] merged(before, wanted)[k],
                ) by {
                    if wanted.dom().contains(k) {
                        json::lemma_plain_is_settled(wanted[k], 126);
                    } else {
                        assert(before.dom().contains(k));
                        assert(json::settled(before[k]));
                    }
                }
            }
            if held.legible(127) {
                assert(cfg@.legible(127)) by {
                    assert forall|k: Seq<char>|
                        merged(before, wanted).dom().contains(k) implies (#[trigger] merged(
                        before,
                        wanted,
                    )[k]).legible(126) by {
                        if !wanted.dom().contains(k) {
                            assert(before.dom().contains(k));
                            assert(before[k].legible(126));
                        }
                    }
                }
            }
        }
        let s = cfg.to_pretty_text();
        assert(text::skip_front(s@, text::Class::Is('\u{feff}')) == s@);
        Some(s)
    } else {
        None
    }
}

/// The needed settings are plain, and none of them is the name by which `serde_json` marks raw text.
proof fn lemma_needed_is_plain(password: Seq<char>, port: u16)
    ensures
        !needed(password, port).dom().contains(json::raw_marker()),
        forall|k: Seq<char>| #[trigger]
            needed(password, port).dom().contains(k) ==> needed(password, port)[k].plain(126)
                && needed(password, port)[k].legible(126),
{
    reveal_strlit("$serde_json::private::RawValue");
    reveal_strlit("server_enabled");
    reveal_strlit("auth_required");
    reveal_strlit("server_port");
    reveal_strlit("server_password");
    reveal_strlit("first_load");
    assert(json::raw_marker().len() == 30);
}

/// Whether OBS has to be closed before its settings are changed: it would overwrite them when it
/// ends.
pub fn must_close_obs(matches: bool, running: bool) -> (r: bool)
    ensures
        r == (!matches && running),
{
    !matches && running
}

// ---------------------------------------------------------------------------------------------
// Laws
// ---------------------------------------------------------------------------------------------
/// Settings that are not asked for stay as they are.
pub proof fn law_unrelated_settings_are_kept(
    current: Map<Seq<char>, json::JsonV>,
    wanted: Map<Seq<char>, json::JsonV>,
    key: Seq<char>,
)
    requires
        !wanted.dom().contains(key),
    ensures
        merged(current, wanted).dom().contains(key) == current.dom().contains(key),
        current.dom().contains(key) ==> merged(current, wanted)[key] == current[key],
{
}

/// After a merge the wanted settings are in place, and a second merge changes nothing.
pub proof fn law_merging_settles(
    current: Map<Seq<char>, json::JsonV>,
    wanted: Map<Seq<char>, json::JsonV>,
)
    ensures
        agrees(merged(current, wanted), wanted),
        merged(merged(current, wanted), wanted) == merged(current, wanted),
{
    assert(merged(merged(current, wanted), wanted) =~= merged(current, wanted));
}

/// Where the wanted settings are already in place, nothing is changed.
pub proof fn law_agreement_changes_nothing(
    current: Map<Seq<char>, json::JsonV>,
    wanted: Map<Seq<char>, json::JsonV>,
)
    requires
        agrees(current, wanted),
    ensures
        merged(current, wanted) == current,
{
    assert(merged(current, wanted) =~= current);
}


/// The server is switched on and asks for the password, on the port that was given, and the wizard of
/// the plugin is not shown.
pub proof fn law_the_server_is_set_up(
    current: Map<Seq<char>, json::JsonV>,
    password: Seq<char>,
    port: u16,
)
    ensures
        ({
            let v = json::JsonV::Object(merged(current, needed(password, port)));
            &&& v.bool_at("server_enabled"@) == Some(true)
            &&& v.bool_at("auth_required"@) == Some(true)
            &&& v.int_at("server_port"@) == Some(port as i64)
            &&& v.text_at("server_password"@) == Some(password)
            &&& v.bool_at("first_load"@) == Some(false)
        }),
{
    reveal_strlit("server_enabled");
    reveal_strlit("auth_required");
    reveal_strlit("server_port");
    reveal_strlit("server_password");
    reveal_strlit("first_load");
    assert("server_enabled"@.len() == 14);
    assert("auth_required"@.len() == 13);
    assert("server_port"@.len() == 11);
    assert("server_password"@.len() == 15);
    assert("first_load"@.len() == 10);
}

/// Settings are the needed ones exactly if all five are in place: the server, the password asked for,
/// the port, the password and the wizard.
pub proof fn law_one_wrong_setting_is_noticed(v: json::JsonV, password: Seq<char>, port: u16)
    requires
        v is Object,
    ensures
        agrees(settings_in(v), needed(password, port)) <==> {
            &&& v.bool_at("server_enabled"@) == Some(true)
            &&& v.bool_at("auth_required"@) == Some(true)
            &&& v.int_at("server_port"@) == Some(port as i64)
            &&& v.text_at("server_password"@) == Some(password)
            &&& v.bool_at("first_load"@) == Some(false)
        },
{
    reveal_strlit("server_enabled");
    reveal_strlit("auth_required");
    reveal_strlit("server_port");
    reveal_strlit("server_password");
    reveal_strlit("first_load");
    assert("server_enabled"@.len() == 14);
    assert("auth_required"@.len() == 13);
    assert("server_port"@.len() == 11);
    assert("server_password"@.len() == 15);
    assert("first_load"@.len() == 10);
    let m = settings_in(v);
    let w = needed(password, port);
    assert(w.dom().contains("server_enabled"@));
    assert(w.dom().contains("auth_required"@));
    assert(w.dom().contains("server_port"@));
    assert(w.dom().contains("server_password"@));
    assert(w.dom().contains("first_load"@));
}

/// The password of OBS is the one in its settings; an empty one is none.
pub proof fn law_the_password_of_obs_is_found(settings: Map<Seq<char>, json::JsonV>, s: Seq<char>)
    ensures
        json::JsonV::Object(settings).text_at("server_password"@) == Some(s) && s.len() > 0
            ==> password_in(settings) == Some(s),
        json::JsonV::Object(settings).text_at("server_password"@) == Some(s) && s.len() == 0
            ==> password_in(settings) is None,
        json::JsonV::Object(settings).text_at("server_password"@) is None ==> password_in(settings)
            is None,
{
}

/// A file without an object has no settings, and where there is no file there are none.
pub proof fn law_only_an_object_has_settings(v: json::JsonV, m: Map<Seq<char>, json::JsonV>)
    ensures
        v == json::JsonV::Object(m) ==> settings_in(v) == m,
        !(v is Object) ==> settings_in(v).dom() =~= Set::empty(),
        stored_settings(None).dom() =~= Set::empty(),
        file_after(None, None) is None,
{
}

} // verus!
