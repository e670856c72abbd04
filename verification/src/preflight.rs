//! Readiness for going on air.
//!
//! "OBS is connected" is not the same as "we may start": the scene can be empty, the microphone
//! muted, the disk full, the donation overlay covered by the game. A sighted streamer sees that in
//! the window of OBS at a glance; a blind operator would hear of it from the audience.
//!
//! The input is a snapshot of the state, the output a list of checks to read aloud. What could not
//! be found out is never reported as being in order.
use vstd::prelude::*;
use crate::number;
use crate::number::Reading;
use crate::text;

verus! {

/// How serious a finding is.
#[derive(Debug, Clone, Copy, PartialEq, Eq, Structural)]
pub enum Severity {
    /// In order.
    Good,
    /// The broadcast is possible, but most likely not what the operator wanted.
    Warning,
    /// Do not start: the audience would get a broken broadcast.
    Critical,
}

/// One finding.
#[derive(Debug, Clone)]
pub struct Check {
    pub title: String,
    pub severity: Severity,
    pub detail: String,
    /// What to do about it; nothing when there is nothing to do.
    pub fix: Option<String>,
}

/// What a finding says.
#[verifier::ext_equal]
pub struct CheckV {
    pub title: Seq<char>,
    pub severity: Severity,
    pub detail: Seq<char>,
    pub fix: Option<Seq<char>>,
}

impl View for Check {
    type V = CheckV;

    open spec fn view(&self) -> CheckV {
        CheckV {
            title: self.title@,
            severity: self.severity,
            detail: self.detail@,
            fix: text::opt_view(self.fix),
        }
    }
}

/// What a list of findings says.
pub open spec fn check_views(list: Seq<Check>) -> Seq<CheckV> {
    list.map_values(|c: Check| c@)
}

/// A finding that all is well.
pub open spec fn ok_check(title: Seq<char>, detail: Seq<char>) -> CheckV {
    CheckV { title, severity: Severity::Good, detail, fix: None }
}

/// A finding that is likely unwanted, with advice.
pub open spec fn warn_check(title: Seq<char>, detail: Seq<char>, fix: Seq<char>) -> CheckV {
    CheckV { title, severity: Severity::Warning, detail, fix: Some(fix) }
}

/// A finding that forbids to start, with advice.
pub open spec fn critical_check(title: Seq<char>, detail: Seq<char>, fix: Seq<char>) -> CheckV {
    CheckV { title, severity: Severity::Critical, detail, fix: Some(fix) }
}

impl Check {
    /// A finding that all is well.
    pub fn ok(title: &str, detail: String) -> (r: Check)
        ensures
            r@ == ok_check(title@, detail@),
    {
        Check { title: title.to_owned(), severity: Severity::Good, detail, fix: None }
    }

    /// A finding that is likely unwanted, with advice.
    pub fn warn(title: &str, detail: String, fix: &str) -> (r: Check)
        ensures
            r@ == warn_check(title@, detail@, fix@),
    {
        Check {
            title: title.to_owned(),
            severity: Severity::Warning,
            detail,
            fix: Some(fix.to_owned()),
        }
    }

    /// A finding that forbids to start, with advice.
    pub fn critical(title: &str, detail: String, fix: &str) -> (r: Check)
        ensures
            r@ == critical_check(title@, detail@, fix@),
    {
        Check {
            title: title.to_owned(),
            severity: Severity::Critical,
            detail,
            fix: Some(fix.to_owned()),
        }
    }
}

// ---------------------------------------------------------------------------------------------
// The snapshot
// ---------------------------------------------------------------------------------------------
/// The outcome of a question that may also stay open.
///
/// A plain "yes or no" would lie here: the request to OBS may have failed, and that is not the
/// same as all being well.
#[derive(Debug, Clone, Copy, PartialEq, Eq, Structural)]
pub enum Verdict {
    /// Looked at, in order.
    Good,
    /// Looked at, not in order.
    Broken,
    /// Could not be looked at.
    Unknown,
}

impl Default for Verdict {
    fn default() -> (r: Verdict)
        ensures
            r == Verdict::Unknown,
    {
        Verdict::Unknown
    }
}

impl Verdict {
    /// The worse of two outcomes: broken outweighs unknown, unknown outweighs being in order.
    pub open spec fn worse(self, other: Verdict) -> Verdict {
        if self == Verdict::Broken || other == Verdict::Broken {
            Verdict::Broken
        } else if self == Verdict::Unknown || other == Verdict::Unknown {
            Verdict::Unknown
        } else {
            Verdict::Good
        }
    }

    /// The worse of two outcomes.
    pub fn min_known(self, other: Verdict) -> (r: Verdict)
        ensures
            r == self.worse(other),
    {
        match (self, other) {
            (Verdict::Broken, _) | (_, Verdict::Broken) => Verdict::Broken,
            (Verdict::Unknown, _) | (_, Verdict::Unknown) => Verdict::Unknown,
            _ => Verdict::Good,
        }
    }
}

/// An audio input as OBS describes it.
#[derive(Debug, Clone)]
pub struct AudioInput {
    pub name: String,
    /// The role that OBS itself gives: "mic" or "desktop".
    pub role: Option<String>,
    /// The kind of input, such as `wasapi_output_capture`.
    ///
    /// Only the slots desktop1/2 and mic1..4 have a role. A plain output capture added to a scene
    /// has none, yet records the sound of the system just as well, and with it the screen reader.
    pub kind: Option<String>,
    pub muted: bool,
    /// Whether the input takes part in the current program output.
    pub in_program_output: bool,
    /// The last measured peak in decibels, if there was a measurement.
    pub level_db: Option<Reading>,
}

/// A source of a scene, with what a nested scene or group holds.
#[derive(Debug)]
pub struct SceneSource {
    pub name: String,
    pub enabled: bool,
    /// The kind of source; nested scenes and groups have none.
    pub kind: Option<String>,
    /// A nested scene or a group. It is no picture in itself: its children are.
    pub is_scene_or_group: bool,
    /// Whether OBS says that the source is active or shown in the program output.
    pub active: Verdict,
    /// What the nested scene or group holds.
    pub children: Vec<SceneSource>,
}

/// A source with a picture, found in the tree of a scene.
pub struct VisualSource<'a> {
    pub name: &'a str,
    /// Whether it and everything around it is enabled.
    pub enabled: bool,
    pub active: Verdict,
}

/// What a source with a picture is.
#[verifier::ext_equal]
pub struct VisualV {
    pub name: Seq<char>,
    pub enabled: bool,
    pub active: Verdict,
}

impl<'a> View for VisualSource<'a> {
    type V = VisualV;

    open spec fn view(&self) -> VisualV {
        VisualV { name: self.name@, enabled: self.enabled, active: self.active }
    }
}

/// What a list of sources with a picture is.
pub open spec fn visual_views(list: Seq<VisualSource>) -> Seq<VisualV> {
    list.map_values(|v: VisualSource| v@)
}

/// What is known of the donation overlay.
#[derive(Debug, Clone, Copy)]
pub struct OverlayState {
    pub present_in_scenes: Verdict,
    pub on_top: Verdict,
    /// Whether the overlay can be heard.
    pub audible: Verdict,
}

impl Default for OverlayState {
    fn default() -> (r: OverlayState)
        ensures
            r.present_in_scenes == Verdict::Unknown,
            r.on_top == Verdict::Unknown,
            r.audible == Verdict::Unknown,
    {
        OverlayState {
            present_in_scenes: Verdict::Unknown,
            on_top: Verdict::Unknown,
            audible: Verdict::Unknown,
        }
    }
}

/// The state from which the findings are drawn.
#[derive(Debug)]
pub struct Snapshot {
    pub obs_connected: bool,
    pub obs_version: Option<String>,
    pub current_scene: Option<String>,
    pub sources: Vec<SceneSource>,
    pub audio: Vec<AudioInput>,
    pub free_disk_mb: Reading,
    pub streaming: bool,
    pub recording: bool,
    /// Whether the broadcasting service has a stream key.
    pub stream_service_configured: bool,
    /// The donation overlay, if DonationAlerts was ever set up.
    pub donation_overlay: Option<OverlayState>,
    pub twitch_connected: bool,
    /// The source that is the camera. None when no source has that role: not every broadcast has a
    /// camera.
    pub camera: Option<String>,
}

impl Default for Snapshot {
    fn default() -> (r: Snapshot)
        ensures
            !r.obs_connected,
            r.obs_version is None,
            r.current_scene is None,
            r.sources@.len() == 0,
            r.audio@.len() == 0,
            r.free_disk_mb.bits == 0,
            !r.streaming,
            !r.recording,
            !r.stream_service_configured,
            r.donation_overlay is None,
            !r.twitch_connected,
            r.camera is None,
    {
        Snapshot {
            obs_connected: false,
            obs_version: None,
            current_scene: None,
            sources: Vec::new(),
            audio: Vec::new(),
            free_disk_mb: Reading::zero(),
            streaming: false,
            recording: false,
            stream_service_configured: false,
            donation_overlay: None,
            twitch_connected: false,
            camera: None,
        }
    }
}

// ---------------------------------------------------------------------------------------------
// Kinds of inputs
// ---------------------------------------------------------------------------------------------
/// The kinds of inputs that give sound and no picture. Any other kind counts as a picture: to
/// cry "black screen" where there is none would make the check worthless.
pub open spec fn is_audio_only(kind: Seq<char>) -> bool {
    ||| kind == "wasapi_input_capture"@
    ||| kind == "wasapi_output_capture"@
    ||| kind == "wasapi_process_output_capture"@
    ||| kind == "coreaudio_input_capture"@
    ||| kind == "coreaudio_output_capture"@
    ||| kind == "pulse_input_capture"@
    ||| kind == "pulse_output_capture"@
    ||| kind == "alsa_input_capture"@
    ||| kind == "jack_output_capture"@
    ||| kind == "sndio_output_capture"@
    ||| kind == "audio_line"@
}

fn audio_only(kind: &str) -> (r: bool)
    ensures
        r == is_audio_only(kind@),
{
    text::same(kind, "wasapi_input_capture") || text::same(kind, "wasapi_output_capture")
        || text::same(kind, "wasapi_process_output_capture") || text::same(
        kind,
        "coreaudio_input_capture",
    ) || text::same(kind, "coreaudio_output_capture") || text::same(kind, "pulse_input_capture")
        || text::same(kind, "pulse_output_capture") || text::same(kind, "alsa_input_capture")
        || text::same(kind, "jack_output_capture") || text::same(kind, "sndio_output_capture")
        || text::same(kind, "audio_line")
}

/// The kinds of inputs that carry all sound of the system, the screen reader included. The capture
/// of a single application is not among them: it takes the chosen program only.
pub open spec fn is_system_audio(kind: Seq<char>) -> bool {
    ||| kind == "wasapi_output_capture"@
    ||| kind == "coreaudio_output_capture"@
    ||| kind == "pulse_output_capture"@
}

fn system_audio(kind: &str) -> (r: bool)
    ensures
        r == is_system_audio(kind@),
{
    text::same(kind, "wasapi_output_capture") || text::same(kind, "coreaudio_output_capture")
        || text::same(kind, "pulse_output_capture")
}

impl AudioInput {
    /// Whether the input has a role.
    pub open spec fn has_role(self, role: Seq<char>) -> bool {
        text::opt_view(self.role) == Some(role)
    }

    /// Whether the input carries all sound of the system.
    pub open spec fn is_system(self) -> bool {
        self.has_role("desktop"@) || (self.kind is Some && is_system_audio(self.kind->0@)
            && self.in_program_output)
    }

    fn plays_role(&self, role: &str) -> (r: bool)
        ensures
            r == self.has_role(role@),
    {
        match &self.role {
            Some(own) => text::same(own.as_str(), role),
            None => false,
        }
    }

    /// Whether the input carries all sound of the system.
    pub fn captures_system_audio(&self) -> (r: bool)
        ensures
            r == self.is_system(),
    {
        if self.plays_role("desktop") {
            return true;
        }
        match &self.kind {
            Some(kind) => system_audio(kind.as_str()) && self.in_program_output,
            None => false,
        }
    }
}

impl SceneSource {
    /// Whether a source that holds no others gives a picture. A source of unknown kind counts as
    /// one.
    pub open spec fn is_picture(self) -> bool {
        self.kind is None || !is_audio_only(self.kind->0@)
    }

    /// The sources with a picture in the tree of this one.
    pub open spec fn visuals(self, parent_enabled: bool) -> Seq<VisualV>
        decreases self,
    {
        let enabled = parent_enabled && self.enabled;
        if self.is_scene_or_group {
            visuals_of(self.children@, enabled)
        } else if self.is_picture() {
            seq![VisualV { name: self.name@, enabled, active: self.active }]
        } else {
            Seq::empty()
        }
    }

    /// Whether a source that holds no others gives a picture.
    pub fn produces_video_leaf(&self) -> (r: bool)
        ensures
            r == self.is_picture(),
    {
        match &self.kind {
            Some(kind) => !audio_only(kind.as_str()),
            None => true,
        }
    }

    /// Adds the sources with a picture in the tree of this one.
    pub fn collect_visual_sources<'a>(
        &'a self,
        parent_enabled: bool,
        out: &mut Vec<VisualSource<'a>>,
    )
        ensures
            visual_views(final(out)@) == visual_views(old(out)@) + self.visuals(parent_enabled),
        decreases self,
    {
        let enabled = parent_enabled && self.enabled;
        if self.is_scene_or_group {
            let ghost start = visual_views(out@);
            let mut i: usize = 0;
            assert(start =~= start + visuals_of(self.children@.take(0), enabled));
            while i < self.children.len()
                invariant
                    i <= self.children.len(),
                    visual_views(out@) == start + visuals_of(self.children@.take(i as int), enabled),
                decreases self.children.len() - i,
            {
                proof {
                    assert(decreases_to!(self => self.children));
                    assert(decreases_to!(self.children => self.children@[i as int]));
                    assert(self.children@.take(i + 1).drop_last() =~= self.children@.take(i as int));
                }
                let ghost before = visuals_of(self.children@.take(i as int), enabled);
                self.children[i].collect_visual_sources(enabled, out);
                assert((start + before) + self.children@[i as int].visuals(enabled) =~= start + (
                before + self.children@[i as int].visuals(enabled)));
                i = i + 1;
            }
            assert(self.children@.take(i as int) =~= self.children@);
            return ;
        }
        if self.produces_video_leaf() {
            let ghost before = out@;
            out.push(VisualSource { name: self.name.as_str(), enabled, active: self.active });
            assert(visual_views(out@) =~= visual_views(before) + self.visuals(parent_enabled));
        } else {
            assert(visual_views(out@) + Seq::<VisualV>::empty() =~= visual_views(out@));
        }
    }
}

/// The sources with a picture in the trees of a list of sources.
pub open spec fn visuals_of(sources: Seq<SceneSource>, parent_enabled: bool) -> Seq<VisualV>
    decreases sources,
{
    if sources.len() == 0 {
        Seq::empty()
    } else {
        visuals_of(sources.drop_last(), parent_enabled) + sources.last().visuals(parent_enabled)
    }
}

fn all_visuals<'a>(sources: &'a Vec<SceneSource>) -> (r: Vec<VisualSource<'a>>)
    ensures
        visual_views(r@) == visuals_of(sources@, true),
{
    let mut out: Vec<VisualSource<'a>> = Vec::new();
    let mut i: usize = 0;
    while i < sources.len()
        invariant
            i <= sources.len(),
            visual_views(out@) =~= visuals_of(sources@.take(i as int), true),
        decreases sources.len() - i,
    {
        assert(sources@.take(i + 1).drop_last() =~= sources@.take(i as int));
        sources[i].collect_visual_sources(true, &mut out);
        i = i + 1;
    }
    assert(sources@.take(i as int) =~= sources@);
    out
}

// ---------------------------------------------------------------------------------------------
// The content of the scene
// ---------------------------------------------------------------------------------------------
/// Those of the sources with a picture that are enabled.
pub open spec fn shown(visuals: Seq<VisualV>) -> Seq<VisualV> {
    visuals.filter(|v: VisualV| v.enabled)
}

/// Those of the sources with a given verdict on their activity.
pub open spec fn with_verdict(visuals: Seq<VisualV>, verdict: Verdict) -> Seq<VisualV> {
    visuals.filter(|v: VisualV| v.active == verdict)
}

/// The names of the sources.
pub open spec fn visual_names(visuals: Seq<VisualV>) -> Seq<Seq<char>> {
    visuals.map_values(|v: VisualV| v.name)
}

/// What the check says about the enabled sources that are not active.
pub open spec fn inactive_part(inactive: Seq<VisualV>, unknown: nat) -> Seq<char> {
    let names = "не активны: "@ + text::joined(visual_names(inactive), ", "@);
    let count = "не проверено: "@ + text::decimal(unknown);
    if inactive.len() == 0 {
        count
    } else if unknown == 0 {
        names
    } else {
        names + "; "@ + count
    }
}

/// What is to be said about the content of the current scene.
///
/// Only sources with a picture count. A scene with nothing but a microphone is not empty, and yet
/// the audience would see a black screen.
pub open spec fn scene_finding(sources: Seq<SceneSource>) -> CheckV {
    let title = "Содержимое сцены"@;
    let visuals = visuals_of(sources, true);
    let on = shown(visuals);
    let active = with_verdict(on, Verdict::Good);
    let inactive = with_verdict(on, Verdict::Broken);
    let unknown = with_verdict(on, Verdict::Unknown);
    if sources.len() == 0 {
        critical_check(
            title,
            "В текущей сцене нет источников — зрители увидят чёрный экран"@,
            "Добавьте источник: захват игры, экрана или камеру."@,
        )
    } else if visuals.len() == 0 {
        critical_check(
            title,
            "В сцене только звуковые источники ("@ + text::decimal(sources.len())
                + ") — зрители увидят чёрный экран"@,
            "Добавьте захват игры, экрана или камеру."@,
        )
    } else if on.len() == 0 {
        critical_check(
            title,
            "Все источники с картинкой скрыты ("@ + text::decimal(visuals.len())
                + ") — в эфир пойдёт чёрный экран"@,
            "Включите нужный источник в разделе «Источники»."@,
        )
    } else if active.len() == 0 && inactive.len() > 0 {
        critical_check(
            title,
            "Источники включены, но OBS говорит, что они сейчас не активны: "@ + text::joined(
                visual_names(inactive),
                ", "@,
            ),
            "Проверьте окно игры, камеру или захват экрана. Если нужно, выберите другой source."@,
        )
    } else if active.len() == 0 {
        warn_check(
            title,
            "Источники включены, но OBS не дал проверить active/showing состояние"@,
            "Повторите проверку. Если есть сомнения — проверьте превью эфира."@,
        )
    } else if inactive.len() > 0 || unknown.len() > 0 {
        warn_check(
            title,
            "Есть активная картинка: "@ + text::decimal(active.len()) + " из "@ + text::decimal(
                on.len(),
            ) + "; "@ + inactive_part(inactive, unknown.len()),
            "Проверьте источники, которые OBS не считает active/showing."@,
        )
    } else {
        ok_check(
            title,
            "Активных источников с картинкой: "@ + text::decimal(active.len()) + " из "@
                + text::decimal(visuals.len()),
        )
    }
}

/// Counts of the enabled sources with a picture, by their activity.
struct Activity {
    shown: usize,
    active: usize,
    inactive: Vec<String>,
    unknown: usize,
}

fn count_activity(visuals: &Vec<VisualSource>) -> (r: Activity)
    ensures
        r.shown == shown(visual_views(visuals@)).len(),
        r.active == with_verdict(shown(visual_views(visuals@)), Verdict::Good).len(),
        text::views(r.inactive@) == visual_names(
            with_verdict(shown(visual_views(visuals@)), Verdict::Broken),
        ),
        r.unknown == with_verdict(shown(visual_views(visuals@)), Verdict::Unknown).len(),
        r.active + r.inactive.len() + r.unknown == r.shown <= visuals.len(),
{
    let mut n_shown: usize = 0;
    let mut n_active: usize = 0;
    let mut n_unknown: usize = 0;
    let mut inactive: Vec<String> = Vec::new();
    let ghost all = visual_views(visuals@);
    let ghost enabled = |v: VisualV| v.enabled;
    let mut i: usize = 0;
    proof {
        reveal(Seq::filter);
        assert(all.take(0) =~= Seq::<VisualV>::empty());
        assert(text::views(inactive@) =~= visual_names(
            with_verdict(shown(all.take(0)), Verdict::Broken),
        ));
    }
    while i < visuals.len()
        invariant
            i <= visuals.len(),
            all == visual_views(visuals@),
            enabled == (|v: VisualV| v.enabled),
            n_shown == shown(all.take(i as int)).len(),
            n_active == with_verdict(shown(all.take(i as int)), Verdict::Good).len(),
            text::views(inactive@) == visual_names(
                with_verdict(shown(all.take(i as int)), Verdict::Broken),
            ),
            n_unknown == with_verdict(shown(all.take(i as int)), Verdict::Unknown).len(),
            n_active + inactive.len() + n_unknown == n_shown <= i,
        decreases visuals.len() - i,
    {
        let v = &visuals[i];
        proof {
            let on = shown(all.take(i as int));
            assert(all.take(i + 1) =~= all.take(i as int).push(v@));
            all.take(i as int).lemma_filter_push(v@, enabled);
            if v.enabled {
                on.lemma_filter_push(v@, |w: VisualV| w.active == Verdict::Good);
                on.lemma_filter_push(v@, |w: VisualV| w.active == Verdict::Broken);
                on.lemma_filter_push(v@, |w: VisualV| w.active == Verdict::Unknown);
            }
        }
        if v.enabled {
            n_shown = n_shown + 1;
            match v.active {
                Verdict::Good => {
                    n_active = n_active + 1;
                },
                Verdict::Broken => {
                    let ghost names = inactive@;
                    let ghost broken = with_verdict(shown(all.take(i as int)), Verdict::Broken);
                    inactive.push(v.name.to_owned());
                    assert(text::views(inactive@) =~= text::views(names).push(v.name@));
                    assert(visual_names(broken.push(v@)) =~= visual_names(broken).push(v.name@));
                },
                Verdict::Unknown => {
                    n_unknown = n_unknown + 1;
                },
            }
        }
        i = i + 1;
    }
    assert(all.take(i as int) =~= all);
    Activity { shown: n_shown, active: n_active, inactive, unknown: n_unknown }
}

/// What is to be said about the content of the current scene.
pub fn scene_content_check(sources: &Vec<SceneSource>) -> (r: Check)
    ensures
        r@ == scene_finding(sources@),
{
    let title = "Содержимое сцены";
    if sources.is_empty() {
        return Check::critical(
            title,
            "В текущей сцене нет источников — зрители увидят чёрный экран".to_owned(),
            "Добавьте источник: захват игры, экрана или камеру.",
        );
    }
    let visuals = all_visuals(sources);
    if visuals.is_empty() {
        let count = text::number(sources.len() as u128);
        return Check::critical(
            title,
            text::join3(
                "В сцене только звуковые источники (",
                count.as_str(),
                ") — зрители увидят чёрный экран",
            ),
            "Добавьте захват игры, экрана или камеру.",
        );
    }
    let found = count_activity(&visuals);
    if found.shown == 0 {
        let count = text::number(visuals.len() as u128);
        return Check::critical(
            title,
            text::join3(
                "Все источники с картинкой скрыты (",
                count.as_str(),
                ") — в эфир пойдёт чёрный экран",
            ),
            "Включите нужный источник в разделе «Источники».",
        );
    }
    proof {
        let broken = with_verdict(shown(visual_views(visuals@)), Verdict::Broken);
        assert(text::views(found.inactive@).len() == visual_names(broken).len());
    }
    let names = text::join(&found.inactive, ", ");
    if found.active == 0 && found.inactive.len() > 0 {
        return Check::critical(
            title,
            text::join2(
                "Источники включены, но OBS говорит, что они сейчас не активны: ",
                names.as_str(),
            ),
            "Проверьте окно игры, камеру или захват экрана. Если нужно, выберите другой source.",
        );
    }
    if found.active == 0 {
        return Check::warn(
            title,
            "Источники включены, но OBS не дал проверить active/showing состояние".to_owned(),
            "Повторите проверку. Если есть сомнения — проверьте превью эфира.",
        );
    }
    let active = text::number(found.active as u128);
    if found.inactive.len() > 0 || found.unknown > 0 {
        let names_part = text::join2("не активны: ", names.as_str());
        let unknown = text::number(found.unknown as u128);
        let count_part = text::join2("не проверено: ", unknown.as_str());
        let part = if found.inactive.len() == 0 {
            count_part
        } else if found.unknown == 0 {
            names_part
        } else {
            text::join3(names_part.as_str(), "; ", count_part.as_str())
        };
        let on = text::number(found.shown as u128);
        let head = text::join5("Есть активная картинка: ", active.as_str(), " из ", on.as_str(), "; ");
        return Check::warn(
            title,
            text::join2(head.as_str(), part.as_str()),
            "Проверьте источники, которые OBS не считает active/showing.",
        );
    }
    let all = text::number(visuals.len() as u128);
    Check::ok(
        title,
        text::join4("Активных источников с картинкой: ", active.as_str(), " из ", all.as_str()),
    )
}

// ---------------------------------------------------------------------------------------------
// The camera
// ---------------------------------------------------------------------------------------------
/// The first source with a name.
pub open spec fn first_named(visuals: Seq<VisualV>, name: Seq<char>) -> Option<VisualV>
    decreases visuals.len(),
{
    if visuals.len() == 0 {
        None
    } else {
        match first_named(visuals.drop_last(), name) {
            Some(v) => Some(v),
            None => if visuals.last().name == name {
                Some(visuals.last())
            } else {
                None
            },
        }
    }
}

/// What is to be said about the camera: the operator cannot look at themselves.
pub open spec fn camera_finding(camera: Seq<char>, sources: Seq<SceneSource>) -> CheckV {
    match first_named(visuals_of(sources, true), camera) {
        Some(v) => if v.enabled {
            ok_check("Камера"@, camera + " видна"@)
        } else {
            warn_check(
                "Камера"@,
                camera + " есть в сцене, но скрыта"@,
                "Включите её в разделе «Источники», если она должна быть в кадре."@,
            )
        },
        None => warn_check(
            "Камера"@,
            camera + " отсутствует в текущей сцене"@,
            "Либо добавьте камеру в сцену, либо снимите ей роль в разделе «Роли источников»."@,
        ),
    }
}

/// What is to be said about the camera. It is looked for in nested scenes and groups too.
pub fn camera_check(camera: &str, sources: &Vec<SceneSource>) -> (r: Check)
    ensures
        r@ == camera_finding(camera@, sources@),
{
    let visuals = all_visuals(sources);
    let ghost all = visual_views(visuals@);
    let mut i: usize = 0;
    let mut found: Option<bool> = None;
    while i < visuals.len()
        invariant
            i <= visuals.len(),
            all == visual_views(visuals@),
            match first_named(all.take(i as int), camera@) {
                Some(v) => found == Some(v.enabled),
                None => found is None,
            },
        decreases visuals.len() - i,
    {
        proof {
            assert(all.take(i + 1).drop_last() =~= all.take(i as int));
            assert(all.take(i + 1).last() == visuals@[i as int]@);
        }
        if found.is_none() && text::same(visuals[i].name, camera) {
            found = Some(visuals[i].enabled);
        }
        i = i + 1;
    }
    assert(all.take(i as int) =~= all);
    match found {
        Some(true) => Check::ok("Камера", text::join2(camera, " видна")),
        Some(false) => Check::warn(
            "Камера",
            text::join2(camera, " есть в сцене, но скрыта"),
            "Включите её в разделе «Источники», если она должна быть в кадре.",
        ),
        None => Check::warn(
            "Камера",
            text::join2(camera, " отсутствует в текущей сцене"),
            "Либо добавьте камеру в сцену, либо снимите ей роль в разделе «Роли источников».",
        ),
    }
}

// ---------------------------------------------------------------------------------------------
// Sound
// ---------------------------------------------------------------------------------------------
/// Below this level, in decibels, there is no sound.
pub const SILENT_DB: i32 = -50;

/// The first input with a role.
pub open spec fn first_with_role(audio: Seq<AudioInput>, role: Seq<char>) -> Option<AudioInput>
    decreases audio.len(),
{
    if audio.len() == 0 {
        None
    } else {
        match first_with_role(audio.drop_last(), role) {
            Some(a) => Some(a),
            None => if audio.last().has_role(role) {
                Some(audio.last())
            } else {
                None
            },
        }
    }
}

/// What is to be said about a microphone being switched on.
pub open spec fn microphone_switch(mic: AudioInput) -> CheckV {
    if mic.muted {
        critical_check(
            "Микрофон"@,
            mic.name@ + " заглушен — вас не будет слышно"@,
            "Нажмите «Включить звук» у микрофона или клавишу M."@,
        )
    } else {
        ok_check("Микрофон"@, mic.name@ + " включён"@)
    }
}

/// What is to be said about the signal of a microphone. One that is switched on and one that
/// sounds are different things: OBS shows a loose cable as an input in order.
pub open spec fn microphone_signal(mic: AudioInput) -> CheckV {
    let title = "Сигнал микрофона"@;
    match mic.level_db {
        Some(db) => if db.gt(SILENT_DB as int) {
            ok_check(title, "Есть, "@ + number::no_places(db) + " dB"@)
        } else if mic.muted {
            ok_check(title, "Не проверяется: микрофон заглушен"@)
        } else {
            warn_check(
                title,
                "Тишина в микрофоне"@,
                "Скажите что-нибудь и проверьте снова. Если тихо — проверьте кабель и выбранное устройство."@,
            )
        },
        None => warn_check(
            title,
            "Уровень ещё не измерен"@,
            "Подождите пару секунд и повторите проверку."@,
        ),
    }
}

/// What is to be said about the microphone.
pub open spec fn microphone_findings(audio: Seq<AudioInput>) -> Seq<CheckV> {
    match first_with_role(audio, "mic"@) {
        Some(mic) => seq![microphone_switch(mic), microphone_signal(mic)],
        None => seq![
            critical_check(
                "Микрофон"@,
                "Не указано, какой источник считать микрофоном"@,
                "Назначьте его в разделе «Роли источников» либо у актёра в OBS: Настройки → Аудио → «Микрофон/дополнительное аудио». Без этого не работает и горячая клавиша заглушения."@,
            ),
        ],
    }
}

/// What is to be said about the microphone: whether it is switched on, and whether it sounds.
pub fn microphone_checks(audio: &Vec<AudioInput>) -> (r: Vec<Check>)
    ensures
        check_views(r@) == microphone_findings(audio@),
{
    let mut i: usize = 0;
    while i < audio.len()
        invariant
            i <= audio.len(),
            first_with_role(audio@.take(i as int), "mic"@) is None,
        decreases audio.len() - i,
    {
        proof {
            assert(audio@.take(i + 1).drop_last() =~= audio@.take(i as int));
        }
        if audio[i].plays_role("mic") {
            proof {
                lemma_first_with_role(audio@, "mic"@, i as int);
            }
            let mic = &audio[i];
            let mut checks: Vec<Check> = Vec::new();
            checks.push(microphone_switch_check(mic));
            checks.push(microphone_signal_check(mic));
            assert(check_views(checks@) =~= microphone_findings(audio@));
            return checks;
        }
        i = i + 1;
    }
    assert(audio@.take(i as int) =~= audio@);
    let mut checks: Vec<Check> = Vec::new();
    checks.push(
        Check::critical(
            "Микрофон",
            "Не указано, какой источник считать микрофоном".to_owned(),
            "Назначьте его в разделе «Роли источников» либо у актёра в OBS: Настройки → Аудио → «Микрофон/дополнительное аудио». Без этого не работает и горячая клавиша заглушения.",
        ),
    );
    assert(check_views(checks@) =~= microphone_findings(audio@));
    checks
}

/// The first input with a role is the first one, whatever follows.
proof fn lemma_first_with_role(audio: Seq<AudioInput>, role: Seq<char>, i: int)
    requires
        0 <= i < audio.len(),
        first_with_role(audio.take(i), role) is None,
        audio[i].has_role(role),
    ensures
        first_with_role(audio, role) == Some(audio[i]),
    decreases audio.len(),
{
    if i == audio.len() - 1 {
        assert(audio.take(i) =~= audio.drop_last());
    } else {
        assert(audio.drop_last().take(i) =~= audio.take(i));
        lemma_first_with_role(audio.drop_last(), role, i);
    }
}

fn microphone_switch_check(mic: &AudioInput) -> (r: Check)
    ensures
        r@ == microphone_switch(*mic),
{
    if mic.muted {
        Check::critical(
            "Микрофон",
            text::join2(mic.name.as_str(), " заглушен — вас не будет слышно"),
            "Нажмите «Включить звук» у микрофона или клавишу M.",
        )
    } else {
        Check::ok("Микрофон", text::join2(mic.name.as_str(), " включён"))
    }
}

fn microphone_signal_check(mic: &AudioInput) -> (r: Check)
    ensures
        r@ == microphone_signal(*mic),
{
    let title = "Сигнал микрофона";
    match mic.level_db {
        Some(db) => if db.above(SILENT_DB) {
            let level = db.with_no_places();
            Check::ok(title, text::join3("Есть, ", level.as_str(), " dB"))
        } else if mic.muted {
            Check::ok(title, "Не проверяется: микрофон заглушен".to_owned())
        } else {
            Check::warn(
                title,
                "Тишина в микрофоне".to_owned(),
                "Скажите что-нибудь и проверьте снова. Если тихо — проверьте кабель и выбранное устройство.",
            )
        },
        None => Check::warn(
            title,
            "Уровень ещё не измерен".to_owned(),
            "Подождите пару секунд и повторите проверку.",
        ),
    }
}

/// The inputs that carry all sound of the system.
pub open spec fn system_inputs(audio: Seq<AudioInput>) -> Seq<AudioInput> {
    audio.filter(|a: AudioInput| a.is_system())
}

/// Those of the inputs that are not muted.
pub open spec fn live_inputs(audio: Seq<AudioInput>) -> Seq<AudioInput> {
    audio.filter(|a: AudioInput| !a.muted)
}

/// The names of the inputs.
pub open spec fn input_names(audio: Seq<AudioInput>) -> Seq<Seq<char>> {
    audio.map_values(|a: AudioInput| a.name@)
}

/// What is to be said about the sound of the desktop.
///
/// This is the main check for a blind operator: the sound of the desktop carries the speech of the
/// screen reader into the broadcast, and OBS does not warn of it.
pub open spec fn desktop_finding(audio: Seq<AudioInput>) -> CheckV {
    let title = "Звук рабочего стола"@;
    let desktop = system_inputs(audio);
    let live = live_inputs(desktop);
    if desktop.len() == 0 {
        ok_check(title, "Источник не настроен — звук системы в эфир не идёт"@)
    } else if live.len() == 0 {
        ok_check(title, "Заглушен — речь экранного диктора в эфир не попадёт"@)
    } else {
        warn_check(
            title,
            "Включён ("@ + text::joined(input_names(live), ", "@)
                + "). В эфир пойдёт всё, что звучит на компьютере, включая речь экранного диктора"@,
            "Если диктор не должен звучать в эфире: заглушите этот источник, а звук игры заведите отдельно через «Захват звука приложения»."@,
        )
    }
}

/// What is to be said about the sound of the desktop.
pub fn desktop_audio_check(audio: &Vec<AudioInput>) -> (r: Check)
    ensures
        r@ == desktop_finding(audio@),
{
    let title = "Звук рабочего стола";
    let mut any: bool = false;
    let mut names: Vec<String> = Vec::new();
    let ghost system = |a: AudioInput| a.is_system();
    let ghost live = |a: AudioInput| !a.muted;
    let mut i: usize = 0;
    proof {
        reveal(Seq::filter);
        assert(audio@.take(0) =~= Seq::<AudioInput>::empty());
        assert(text::views(names@) =~= input_names(live_inputs(system_inputs(audio@.take(0)))));
    }
    while i < audio.len()
        invariant
            i <= audio.len(),
            system == (|a: AudioInput| a.is_system()),
            live == (|a: AudioInput| !a.muted),
            any == (system_inputs(audio@.take(i as int)).len() > 0),
            text::views(names@) == input_names(
                live_inputs(system_inputs(audio@.take(i as int))),
            ),
        decreases audio.len() - i,
    {
        proof {
            assert(audio@.take(i + 1) =~= audio@.take(i as int).push(audio@[i as int]));
            audio@.take(i as int).lemma_filter_push(audio@[i as int], system);
            if audio@[i as int].is_system() {
                system_inputs(audio@.take(i as int)).lemma_filter_push(audio@[i as int], live);
            }
        }
        if audio[i].captures_system_audio() {
            any = true;
            if !audio[i].muted {
                let ghost before = names@;
                let ghost kept = live_inputs(system_inputs(audio@.take(i as int)));
                names.push(audio[i].name.clone());
                assert(text::views(names@) =~= text::views(before).push(audio@[i as int].name@));
                assert(input_names(kept.push(audio@[i as int])) =~= input_names(kept).push(
                    audio@[i as int].name@,
                ));
            }
        }
        i = i + 1;
    }
    proof {
        assert(audio@.take(i as int) =~= audio@);
        assert(text::views(names@).len() == input_names(
            live_inputs(system_inputs(audio@)),
        ).len());
    }
    if !any {
        return Check::ok(title, "Источник не настроен — звук системы в эфир не идёт".to_owned());
    }
    if names.is_empty() {
        return Check::ok(title, "Заглушен — речь экранного диктора в эфир не попадёт".to_owned());
    }
    let list = text::join(&names, ", ");
    Check::warn(
        title,
        text::join3(
            "Включён (",
            list.as_str(),
            "). В эфир пойдёт всё, что звучит на компьютере, включая речь экранного диктора",
        ),
        "Если диктор не должен звучать в эфире: заглушите этот источник, а звук игры заведите отдельно через «Захват звука приложения».",
    )
}

// ---------------------------------------------------------------------------------------------
// Donations, disk, service
// ---------------------------------------------------------------------------------------------
/// The parts of the overlay that could not be looked at.
pub open spec fn unknown_parts(overlay: OverlayState) -> Seq<Seq<char>> {
    (if overlay.present_in_scenes == Verdict::Unknown {
        seq!["наличие в сценах"@]
    } else {
        Seq::empty()
    }) + (if overlay.audible == Verdict::Unknown {
        seq!["звук"@]
    } else {
        Seq::empty()
    }) + (if overlay.on_top == Verdict::Unknown {
        seq!["порядок слоёв"@]
    } else {
        Seq::empty()
    })
}

/// What is to be said about the donation overlay. What is broken comes first: there is something
/// definite to say about it. What could not be looked at is not passed off as being in order.
pub open spec fn donation_finding(overlay: OverlayState) -> CheckV {
    let title = "DonationAlerts"@;
    let fix = "Нажмите «Проверить и восстановить в OBS»."@;
    if overlay.present_in_scenes == Verdict::Broken {
        warn_check(title, "Оверлей отсутствует в сценах — донаты не покажутся"@, fix)
    } else if overlay.audible == Verdict::Broken {
        warn_check(title, "Оверлей заглушен — донаты не будет слышно"@, fix)
    } else if overlay.on_top == Verdict::Broken {
        warn_check(title, "Оверлей не верхним слоем — его перекроет игра"@, fix)
    } else if unknown_parts(overlay).len() > 0 {
        warn_check(
            title,
            "Не удалось проверить: "@ + text::joined(unknown_parts(overlay), ", "@),
            "OBS не ответил на часть запросов. Повторите проверку."@,
        )
    } else {
        ok_check(title, "Оверлей на месте, звук идёт в эфир"@)
    }
}

/// What is to be said about the donation overlay.
pub fn donation_check(overlay: &OverlayState) -> (r: Check)
    ensures
        r@ == donation_finding(*overlay),
{
    let title = "DonationAlerts";
    let fix = "Нажмите «Проверить и восстановить в OBS».";
    if overlay.present_in_scenes == Verdict::Broken {
        return Check::warn(
            title,
            "Оверлей отсутствует в сценах — донаты не покажутся".to_owned(),
            fix,
        );
    }
    if overlay.audible == Verdict::Broken {
        return Check::warn(title, "Оверлей заглушен — донаты не будет слышно".to_owned(), fix);
    }
    if overlay.on_top == Verdict::Broken {
        return Check::warn(title, "Оверлей не верхним слоем — его перекроет игра".to_owned(), fix);
    }
    let mut unknown: Vec<String> = Vec::new();
    if overlay.present_in_scenes == Verdict::Unknown {
        unknown.push("наличие в сценах".to_owned());
    }
    if overlay.audible == Verdict::Unknown {
        unknown.push("звук".to_owned());
    }
    if overlay.on_top == Verdict::Unknown {
        unknown.push("порядок слоёв".to_owned());
    }
    assert(text::views(unknown@) =~= unknown_parts(*overlay));
    if unknown.len() > 0 {
        let list = text::join(&unknown, ", ");
        return Check::warn(
            title,
            text::join2("Не удалось проверить: ", list.as_str()),
            "OBS не ответил на часть запросов. Повторите проверку.",
        );
    }
    Check::ok(title, "Оверлей на месте, звук идёт в эфир".to_owned())
}

/// Below this much free space, in megabytes, a recording may break off in the middle.
pub const LOW_DISK_MB: i32 = 5000;

/// The bits of 1024: so many megabytes make a gigabyte.
pub const GIGABYTE_BITS: u64 = 0x4090_0000_0000_0000;

/// Megabytes in gigabytes.
pub open spec fn gigabytes(mb: Reading) -> Reading {
    number::quotient(mb, Reading { bits: GIGABYTE_BITS })
}

/// Megabytes in gigabytes.
pub fn in_gigabytes(mb: &Reading) -> (r: Reading)
    ensures
        r == gigabytes(*mb),
{
    mb.over(&Reading { bits: GIGABYTE_BITS })
}

/// What is to be said about the free disk space. OBS says zero when it does not know; what is not
/// known is no green light.
pub open spec fn disk_finding(free_mb: Reading, recording: bool) -> CheckV {
    let title = "Свободно на диске"@;
    let left = "Осталось "@ + number::one_place(gigabytes(free_mb)) + " ГБ"@;
    if !free_mb.gt(0) {
        warn_check(title, "OBS не сообщил объём"@, "Повторите проверку."@)
    } else if free_mb.lt(LOW_DISK_MB as int) && recording {
        critical_check(
            title,
            left + " — идёт запись, она может оборваться"@,
            "Освободите место или остановите запись."@,
        )
    } else if free_mb.lt(LOW_DISK_MB as int) {
        warn_check(title, left, "Для долгой записи этого мало."@)
    } else {
        ok_check(title, number::no_places(gigabytes(free_mb)) + " ГБ"@)
    }
}

/// What is to be said about the free disk space.
pub fn disk_check(free_mb: Reading, recording: bool) -> (r: Check)
    ensures
        r@ == disk_finding(free_mb, recording),
{
    let title = "Свободно на диске";
    if !free_mb.above(0) {
        return Check::warn(title, "OBS не сообщил объём".to_owned(), "Повторите проверку.");
    }
    if free_mb.below(LOW_DISK_MB) {
        let gb = in_gigabytes(&free_mb).with_one_place();
        let left = text::join3("Осталось ", gb.as_str(), " ГБ");
        return if recording {
            Check::critical(
                title,
                text::join2(left.as_str(), " — идёт запись, она может оборваться"),
                "Освободите место или остановите запись.",
            )
        } else {
            Check::warn(title, left, "Для долгой записи этого мало.")
        };
    }
    let gb = in_gigabytes(&free_mb).with_no_places();
    Check::ok(title, text::join2(gb.as_str(), " ГБ"))
}

/// What is to be said about the connection to OBS while there is one.
pub open spec fn connection_finding(version: Option<String>) -> CheckV {
    match version {
        Some(v) => ok_check("OBS"@, "Подключён, версия "@ + v@),
        None => ok_check("OBS"@, "Подключён"@),
    }
}

/// What is to be said about there being a current scene.
pub open spec fn current_scene_finding(scene: Option<String>) -> CheckV {
    match scene {
        Some(s) => ok_check("Текущая сцена"@, s@),
        None => critical_check(
            "Текущая сцена"@,
            "OBS не сообщил текущую сцену"@,
            "Создайте хотя бы одну сцену в OBS."@,
        ),
    }
}

/// What is to be said about the broadcasting service.
pub open spec fn service_finding(configured: bool) -> CheckV {
    if configured {
        ok_check("Сервис вещания"@, "Сервер и ключ потока заданы"@)
    } else {
        critical_check(
            "Сервис вещания"@,
            "В OBS не задан ключ потока"@,
            "У актёра: Настройки OBS → Вещание → выбрать сервис и вставить ключ."@,
        )
    }
}

/// What is to be said about Twitch.
pub open spec fn twitch_finding(connected: bool) -> CheckV {
    if connected {
        ok_check("Twitch"@, "Подключён"@)
    } else {
        warn_check(
            "Twitch"@,
            "Не подключён"@,
            "Без него нельзя менять название трансляции и категорию из панели."@,
        )
    }
}

/// What is to be said when there is no connection to OBS.
pub open spec fn no_connection() -> CheckV {
    critical_check(
        "OBS"@,
        "Нет связи с OBS"@,
        "Нажмите «Запустить OBS» или попросите актёра открыть OBS."@,
    )
}

/// All that is to be said about a snapshot, in the order in which it is read aloud. Without a
/// connection nothing else is guessed at.
pub open spec fn findings(s: Snapshot) -> Seq<CheckV> {
    if !s.obs_connected {
        seq![no_connection()]
    } else {
        scene_part(s) + camera_part(s) + microphone_findings(s.audio@) + seq![
            desktop_finding(s.audio@),
        ] + overlay_part(s) + service_part(s)
    }
}

fn connection_check(snapshot: &Snapshot) -> (r: Check)
    ensures
        r@ == connection_finding(snapshot.obs_version),
{
    match &snapshot.obs_version {
        Some(v) => Check::ok("OBS", text::join2("Подключён, версия ", v.as_str())),
        None => Check::ok("OBS", "Подключён".to_owned()),
    }
}

fn current_scene_check(snapshot: &Snapshot) -> (r: Check)
    ensures
        r@ == current_scene_finding(snapshot.current_scene),
{
    match &snapshot.current_scene {
        Some(scene) => Check::ok("Текущая сцена", scene.clone()),
        None => Check::critical(
            "Текущая сцена",
            "OBS не сообщил текущую сцену".to_owned(),
            "Создайте хотя бы одну сцену в OBS.",
        ),
    }
}

fn service_check(configured: bool) -> (r: Check)
    ensures
        r@ == service_finding(configured),
{
    if configured {
        Check::ok("Сервис вещания", "Сервер и ключ потока заданы".to_owned())
    } else {
        Check::critical(
            "Сервис вещания",
            "В OBS не задан ключ потока".to_owned(),
            "У актёра: Настройки OBS → Вещание → выбрать сервис и вставить ключ.",
        )
    }
}

fn twitch_check(connected: bool) -> (r: Check)
    ensures
        r@ == twitch_finding(connected),
{
    if connected {
        Check::ok("Twitch", "Подключён".to_owned())
    } else {
        Check::warn(
            "Twitch",
            "Не подключён".to_owned(),
            "Без него нельзя менять название трансляции и категорию из панели.",
        )
    }
}

fn add_check(checks: &mut Vec<Check>, check: Check)
    ensures
        check_views(final(checks)@) == check_views(old(checks)@) + seq![check@],
{
    let ghost before = checks@;
    checks.push(check);
    assert(check_views(checks@) =~= check_views(before) + seq![check@]);
}

fn add_checks(checks: &mut Vec<Check>, more: Vec<Check>)
    ensures
        check_views(final(checks)@) == check_views(old(checks)@) + check_views(more@),
{
    let ghost before = checks@;
    let mut more = more;
    let ghost added = more@;
    checks.append(&mut more);
    assert(check_views(checks@) =~= check_views(before) + check_views(added));
}

/// The findings about the scene as such.
pub open spec fn scene_part(s: Snapshot) -> Seq<CheckV> {
    seq![connection_finding(s.obs_version)] + seq![current_scene_finding(s.current_scene)] + seq![
        scene_finding(s.sources@),
    ]
}

/// The finding about the camera, if there is one.
pub open spec fn camera_part(s: Snapshot) -> Seq<CheckV> {
    match s.camera {
        Some(camera) => seq![camera_finding(camera@, s.sources@)],
        None => Seq::empty(),
    }
}

/// The finding about the donation overlay, if there is one.
pub open spec fn overlay_part(s: Snapshot) -> Seq<CheckV> {
    match s.donation_overlay {
        Some(overlay) => seq![donation_finding(overlay)],
        None => Seq::empty(),
    }
}

/// The findings about everything around the scene.
pub open spec fn service_part(s: Snapshot) -> Seq<CheckV> {
    seq![service_finding(s.stream_service_configured)] + seq![
        disk_finding(s.free_disk_mb, s.recording),
    ] + seq![twitch_finding(s.twitch_connected)]
}

fn scene_checks(snapshot: &Snapshot) -> (r: Vec<Check>)
    ensures
        check_views(r@) == scene_part(*snapshot) + camera_part(*snapshot),
{
    let mut checks: Vec<Check> = Vec::new();
    assert(check_views(checks@) =~= Seq::empty());
    add_check(&mut checks, connection_check(snapshot));
    add_check(&mut checks, current_scene_check(snapshot));
    add_check(&mut checks, scene_content_check(&snapshot.sources));
    assert(check_views(checks@) =~= scene_part(*snapshot));
    if let Some(camera) = &snapshot.camera {
        add_check(&mut checks, camera_check(camera.as_str(), &snapshot.sources));
    }
    assert(check_views(checks@) =~= scene_part(*snapshot) + camera_part(*snapshot));
    checks
}

fn service_checks(snapshot: &Snapshot) -> (r: Vec<Check>)
    ensures
        check_views(r@) == overlay_part(*snapshot) + service_part(*snapshot),
{
    let mut checks: Vec<Check> = Vec::new();
    assert(check_views(checks@) =~= Seq::empty());
    if let Some(overlay) = &snapshot.donation_overlay {
        add_check(&mut checks, donation_check(overlay));
    }
    assert(check_views(checks@) =~= overlay_part(*snapshot));
    add_check(&mut checks, service_check(snapshot.stream_service_configured));
    add_check(&mut checks, disk_check(snapshot.free_disk_mb, snapshot.recording));
    add_check(&mut checks, twitch_check(snapshot.twitch_connected));
    assert(check_views(checks@) =~= overlay_part(*snapshot) + service_part(*snapshot));
    checks
}

/// All that is to be said about a snapshot.
pub fn evaluate(snapshot: &Snapshot) -> (r: Vec<Check>)
    ensures
        check_views(r@) == findings(*snapshot),
{
    if !snapshot.obs_connected {
        let mut checks: Vec<Check> = Vec::new();
        checks.push(
            Check::critical(
                "OBS",
                "Нет связи с OBS".to_owned(),
                "Нажмите «Запустить OBS» или попросите актёра открыть OBS.",
            ),
        );
        assert(check_views(checks@) =~= findings(*snapshot));
        return checks;
    }
    let mut checks = scene_checks(snapshot);
    add_checks(&mut checks, microphone_checks(&snapshot.audio));
    add_check(&mut checks, desktop_audio_check(&snapshot.audio));
    add_checks(&mut checks, service_checks(snapshot));
    assert(check_views(checks@) =~= findings(*snapshot));
    checks
}

/// How many findings have a severity.
pub open spec fn count_of(checks: Seq<CheckV>, severity: Severity) -> nat {
    checks.filter(|c: CheckV| c.severity == severity).len()
}

/// The summary to read aloud, from the number of critical findings and of warnings.
pub open spec fn summary_text(critical: nat, warnings: nat) -> Seq<char> {
    if critical == 0 && warnings == 0 {
        "Всё готово к эфиру"@
    } else if critical == 0 {
        "Можно начинать, но есть предупреждений: "@ + text::decimal(warnings)
    } else if warnings == 0 {
        "Начинать нельзя, критических проблем: "@ + text::decimal(critical)
    } else {
        "Начинать нельзя, критических проблем: "@ + text::decimal(critical)
            + ", предупреждений: "@ + text::decimal(warnings)
    }
}

/// The summary of the findings.
pub fn summary(checks: &Vec<Check>) -> (r: String)
    ensures
        r@ == summary_text(
            count_of(check_views(checks@), Severity::Critical),
            count_of(check_views(checks@), Severity::Warning),
        ),
{
    let mut critical: usize = 0;
    let mut warnings: usize = 0;
    let ghost all = check_views(checks@);
    let mut i: usize = 0;
    proof {
        reveal(Seq::filter);
        assert(all.take(0) =~= Seq::<CheckV>::empty());
    }
    while i < checks.len()
        invariant
            i <= checks.len(),
            all == check_views(checks@),
            critical == count_of(all.take(i as int), Severity::Critical),
            warnings == count_of(all.take(i as int), Severity::Warning),
            critical + warnings <= i,
        decreases checks.len() - i,
    {
        proof {
            assert(all.take(i + 1) =~= all.take(i as int).push(checks@[i as int]@));
            all.take(i as int).lemma_filter_push(
                checks@[i as int]@,
                |c: CheckV| c.severity == Severity::Critical,
            );
            all.take(i as int).lemma_filter_push(
                checks@[i as int]@,
                |c: CheckV| c.severity == Severity::Warning,
            );
        }
        match checks[i].severity {
            Severity::Critical => {
                critical = critical + 1;
            },
            Severity::Warning => {
                warnings = warnings + 1;
            },
            Severity::Good => {},
        }
        i = i + 1;
    }
    assert(all.take(i as int) =~= all);
    let c = text::number(critical as u128);
    let w = text::number(warnings as u128);
    if critical == 0 && warnings == 0 {
        "Всё готово к эфиру".to_owned()
    } else if critical == 0 {
        text::join2("Можно начинать, но есть предупреждений: ", w.as_str())
    } else if warnings == 0 {
        text::join2("Начинать нельзя, критических проблем: ", c.as_str())
    } else {
        text::join4(
            "Начинать нельзя, критических проблем: ",
            c.as_str(),
            ", предупреждений: ",
            w.as_str(),
        )
    }
}

// ---------------------------------------------------------------------------------------------
// Laws
// ---------------------------------------------------------------------------------------------
/// Combining verdicts does not depend on their order or grouping, and combining a verdict with
/// itself changes nothing.
pub proof fn law_verdicts_combine(a: Verdict, b: Verdict, c: Verdict)
    ensures
        a.worse(b) == b.worse(a),
        a.worse(b).worse(c) == a.worse(b.worse(c)),
        a.worse(a) == a,
{
}

/// A combination is in order only if both parts are: nothing unknown or broken is ever upgraded.
pub proof fn law_verdicts_never_upgrade(a: Verdict, b: Verdict)
    ensures
        a.worse(b) == Verdict::Good <==> a == Verdict::Good && b == Verdict::Good,
        a.worse(b) == Verdict::Broken <==> a == Verdict::Broken || b == Verdict::Broken,
{
}

/// Without a connection there is one finding, it is critical, and nothing else is guessed at.
pub proof fn law_without_obs_nothing_is_guessed(s: Snapshot)
    requires
        !s.obs_connected,
    ensures
        findings(s).len() == 1,
        findings(s)[0].severity == Severity::Critical,
{
}

/// The overlay is reported as being in order only if all three questions were answered well.
pub proof fn law_overlay_green_only_if_all_known(overlay: OverlayState)
    ensures
        donation_finding(overlay).severity == Severity::Good <==> overlay.present_in_scenes
            == Verdict::Good && overlay.on_top == Verdict::Good && overlay.audible
            == Verdict::Good,
{
}

/// A scene is reported as being in order only if some source with a picture is shown and every
/// source with a picture that is shown was found to be active.
pub proof fn law_scene_green_only_if_all_active(sources: Seq<SceneSource>, i: int)
    requires
        scene_finding(sources).severity == Severity::Good,
        0 <= i < visuals_of(sources, true).len(),
        visuals_of(sources, true)[i].enabled,
    ensures
        visuals_of(sources, true)[i].active == Verdict::Good,
        with_verdict(shown(visuals_of(sources, true)), Verdict::Good).len() > 0,
{
    let visuals = visuals_of(sources, true);
    let v = visuals[i];
    let on = shown(visuals);
    visuals.lemma_filter_contains(|w: VisualV| w.enabled, i);
    assert(on.contains(v));
    let k = choose|k: int| 0 <= k < on.len() && on[k] == v;
    if v.active == Verdict::Broken {
        on.lemma_filter_contains(|w: VisualV| w.active == Verdict::Broken, k);
    }
    if v.active == Verdict::Unknown {
        on.lemma_filter_contains(|w: VisualV| w.active == Verdict::Unknown, k);
    }
}

/// An input that carries the sound of the system into the broadcast is never passed over: unless
/// every such input is muted, there is a warning.
pub proof fn law_screen_reader_is_never_passed_over(audio: Seq<AudioInput>, i: int)
    requires
        0 <= i < audio.len(),
        audio[i].is_system(),
        !audio[i].muted,
    ensures
        desktop_finding(audio).severity == Severity::Warning,
{
    audio.lemma_filter_contains(|a: AudioInput| a.is_system(), i);
    let desktop = system_inputs(audio);
    assert(desktop.contains(audio[i]));
    let k = choose|k: int| 0 <= k < desktop.len() && desktop[k] == audio[i];
    desktop.lemma_filter_contains(|a: AudioInput| !a.muted, k);
}

/// The microphone is reported as being in order only if there is one and it is not muted.
pub proof fn law_muted_microphone_blocks(audio: Seq<AudioInput>)
    ensures
        microphone_findings(audio)[0].severity == Severity::Good <==> (first_with_role(
            audio,
            "mic"@,
        ) is Some && !first_with_role(audio, "mic"@)->0.muted),
        microphone_findings(audio)[0].severity != Severity::Good
            ==> microphone_findings(audio)[0].severity == Severity::Critical,
{
}

/// Low disk space is critical exactly while recording, and only space that OBS told of and that
/// suffices is reported as being in order.
pub proof fn law_low_disk_is_critical_while_recording(free_mb: Reading, recording: bool)
    ensures
        disk_finding(free_mb, recording).severity == Severity::Critical <==> recording
            && free_mb.gt(0) && free_mb.lt(LOW_DISK_MB as int),
        disk_finding(free_mb, recording).severity == Severity::Good <==> free_mb.gt(0)
            && !free_mb.lt(LOW_DISK_MB as int),
{
}

/// What is unknown is never a green light: where all findings about a snapshot are good, OBS is
/// connected, the scene on air is known and shows nothing but active pictures, there is a microphone
/// that is not muted and whose sound was measured and heard, no sound of the system goes out, the
/// overlay was confirmed in all three respects, the stream key is set, the disk space is known and
/// suffices, and Twitch is connected.
pub proof fn law_green_light_means_all_is_known(s: Snapshot)
    requires
        forall|i: int| 0 <= i < findings(s).len() ==> (#[trigger] findings(s)[i]).severity
            == Severity::Good,
    ensures
        s.obs_connected,
        s.current_scene is Some,
        with_verdict(shown(visuals_of(s.sources@, true)), Verdict::Good).len() > 0,
        forall|i: int|
            0 <= i < visuals_of(s.sources@, true).len() && (#[trigger] visuals_of(
                s.sources@,
                true,
            )[i]).enabled ==> visuals_of(s.sources@, true)[i].active == Verdict::Good,
        first_with_role(s.audio@, "mic"@) matches Some(mic) && !mic.muted && (
        mic.level_db matches Some(db) && db.gt(SILENT_DB as int)),
        forall|i: int|
            0 <= i < s.audio@.len() && (#[trigger] s.audio@[i]).is_system() ==> s.audio@[i].muted,
        s.donation_overlay matches Some(o) ==> o.present_in_scenes == Verdict::Good && o.on_top
            == Verdict::Good && o.audible == Verdict::Good,
        s.stream_service_configured,
        s.free_disk_mb.gt(0) && !s.free_disk_mb.lt(LOW_DISK_MB as int),
        s.twitch_connected,
{
    let all = findings(s);
    if !s.obs_connected {
        assert(all[0].severity == Severity::Critical);
    }
    let mics = microphone_findings(s.audio@);
    let a = scene_part(s).len() as int;
    let b = a + camera_part(s).len();
    let c = b + mics.len();
    let d = c + 1;
    let e = d + overlay_part(s).len();
    assert(all[1] == current_scene_finding(s.current_scene));
    assert(all[2] == scene_finding(s.sources@));
    assert(all[b] == mics[0]);
    law_muted_microphone_blocks(s.audio@);
    assert(mics.len() == 2);
    assert(all[b + 1] == mics[1]);
    assert(all[c] == desktop_finding(s.audio@));
    if s.donation_overlay is Some {
        assert(all[d] == donation_finding(s.donation_overlay->0));
        law_overlay_green_only_if_all_known(s.donation_overlay->0);
    }
    assert(all[e] == service_finding(s.stream_service_configured));
    assert(all[e + 1] == disk_finding(s.free_disk_mb, s.recording));
    assert(all[e + 2] == twitch_finding(s.twitch_connected));
    assert forall|i: int|
        0 <= i < visuals_of(s.sources@, true).len() && (#[trigger] visuals_of(
            s.sources@,
            true,
        )[i]).enabled implies visuals_of(s.sources@, true)[i].active == Verdict::Good by {
        law_scene_green_only_if_all_active(s.sources@, i);
    }
    assert forall|i: int|
        0 <= i < s.audio@.len() && (#[trigger] s.audio@[i]).is_system() implies s.audio@[i].muted by {
        if !s.audio@[i].muted {
            law_screen_reader_is_never_passed_over(s.audio@, i);
        }
    }
}

/// The summary says that all is ready exactly when there is nothing to complain about, and that the
/// broadcast must not start exactly when something is critical.
pub proof fn law_summary_goes_by_the_worst(checks: Seq<CheckV>)
    ensures
        summary_text(count_of(checks, Severity::Critical), count_of(checks, Severity::Warning))
            == "Всё готово к эфиру"@ <==> (forall|i: int|
            0 <= i < checks.len() ==> (#[trigger] checks[i]).severity == Severity::Good),
        "Начинать нельзя"@.is_prefix_of(
            summary_text(count_of(checks, Severity::Critical), count_of(checks, Severity::Warning)),
        ) <==> (exists|i: int|
            0 <= i < checks.len() && (#[trigger] checks[i]).severity == Severity::Critical),
{
    lemma_no_complaint(checks);
    let critical = |c: CheckV| c.severity == Severity::Critical;
    let n = count_of(checks, Severity::Critical);
    let w = count_of(checks, Severity::Warning);
    let s = summary_text(n, w);
    reveal_strlit("Всё готово к эфиру");
    reveal_strlit("Можно начинать, но есть предупреждений: ");
    reveal_strlit("Начинать нельзя, критических проблем: ");
    reveal_strlit("Начинать нельзя");
    let forbids = "Начинать нельзя"@;
    if n > 0 {
        assert(s.take(forbids.len() as int) =~= forbids);
        let found = checks.filter(critical);
        checks.lemma_filter_contains_rev(critical, found[0]);
        let i = choose|i: int| 0 <= i < checks.len() && checks[i] == found[0];
        assert(checks[i].severity == Severity::Critical);
    } else {
        assert(s[0] != forbids[0]);
        if forbids.is_prefix_of(s) {
            assert(s.subrange(0, forbids.len() as int)[0] == forbids[0]);
        }
        assert forall|i: int| 0 <= i < checks.len() implies (#[trigger] checks[i]).severity
            != Severity::Critical by {
            if checks[i].severity == Severity::Critical {
                checks.lemma_filter_contains(critical, i);
            }
        }
    }
}

proof fn lemma_no_complaint(checks: Seq<CheckV>)
    ensures
        count_of(checks, Severity::Critical) == 0 && count_of(checks, Severity::Warning) == 0 <==> (
        forall|i: int| 0 <= i < checks.len() ==> (#[trigger] checks[i]).severity == Severity::Good),
{
    let critical = |c: CheckV| c.severity == Severity::Critical;
    let warning = |c: CheckV| c.severity == Severity::Warning;
    if count_of(checks, Severity::Critical) == 0 && count_of(checks, Severity::Warning) == 0 {
        assert forall|i: int| 0 <= i < checks.len() implies (#[trigger] checks[i]).severity
            == Severity::Good by {
            if checks[i].severity == Severity::Critical {
                checks.lemma_filter_contains(critical, i);
            }
            if checks[i].severity == Severity::Warning {
                checks.lemma_filter_contains(warning, i);
            }
        }
    }
    if forall|i: int| 0 <= i < checks.len() ==> (#[trigger] checks[i]).severity == Severity::Good {
        checks.lemma_all_neg_filter_empty(critical);
        checks.lemma_all_neg_filter_empty(warning);
    }
}

/// A source with a picture counts as shown only if it and everything around it is enabled: in the tree
/// of a source that is not enabled, and under one that is not, nothing is shown.
pub proof fn law_what_is_hidden_hides_its_content(s: SceneSource, parent_enabled: bool, k: int)
    requires
        0 <= k < s.visuals(parent_enabled).len(),
        s.visuals(parent_enabled)[k].enabled,
    ensures
        parent_enabled,
        s.enabled,
    decreases s,
{
    if s.is_scene_or_group {
        assert(decreases_to!(s => s.children));
        lemma_hidden_list(s.children@, parent_enabled && s.enabled, k);
    }
}

proof fn lemma_hidden_list(sources: Seq<SceneSource>, parent_enabled: bool, k: int)
    requires
        0 <= k < visuals_of(sources, parent_enabled).len(),
        visuals_of(sources, parent_enabled)[k].enabled,
    ensures
        parent_enabled,
    decreases sources,
{
    let before = visuals_of(sources.drop_last(), parent_enabled);
    if k < before.len() {
        lemma_hidden_list(sources.drop_last(), parent_enabled, k);
    } else {
        law_what_is_hidden_hides_its_content(sources.last(), parent_enabled, k - before.len());
    }
}

/// Where all sources of a scene are hidden, nothing in it is shown, however deep it is nested.
pub proof fn law_a_scene_of_hidden_sources_shows_nothing(sources: Seq<SceneSource>, k: int)
    requires
        forall|i: int| 0 <= i < sources.len() ==> !(#[trigger] sources[i]).enabled,
        0 <= k < visuals_of(sources, true).len(),
    ensures
        !visuals_of(sources, true)[k].enabled,
    decreases sources.len(),
{
    let before = visuals_of(sources.drop_last(), true);
    if k < before.len() {
        assert forall|i: int| 0 <= i < sources.drop_last().len() implies !(
        #[trigger] sources.drop_last()[i]).enabled by {
            assert(!sources[i].enabled);
        }
        law_a_scene_of_hidden_sources_shows_nothing(sources.drop_last(), k);
    } else if visuals_of(sources, true)[k].enabled {
        law_what_is_hidden_hides_its_content(sources.last(), true, k - before.len());
        assert(!sources[sources.len() - 1].enabled);
    }
}

/// A source with a picture is found at the end of every way through nested scenes and groups, and
/// counts as shown exactly if everything on the way is enabled.
pub proof fn law_every_picture_is_found(
    sources: Seq<SceneSource>,
    parent_enabled: bool,
    way: Seq<SceneSource>,
)
    requires
        way.len() > 0,
        sources.contains(way[0]),
        forall|i: int|
            0 <= i < way.len() - 1 ==> (#[trigger] way[i]).is_scene_or_group
                && way[i].children@.contains(way[i + 1]),
        !way.last().is_scene_or_group,
        way.last().kind is None || !is_audio_only(way.last().kind->0@),
    ensures
        visuals_of(sources, parent_enabled).contains(
            VisualV {
                name: way.last().name@,
                enabled: parent_enabled && forall|i: int|
                    0 <= i < way.len() ==> (#[trigger] way[i]).enabled,
                active: way.last().active,
            },
        ),
    decreases way.len(),
{
    let on = parent_enabled && forall|i: int|
        0 <= i < way.len() ==> (#[trigger] way[i]).enabled;
    let wanted = VisualV { name: way.last().name@, enabled: on, active: way.last().active };
    let first = way[0];
    if way.len() == 1 {
        assert(way[0] == way.last());
        assert(on == (parent_enabled && way[0].enabled));
        assert(first.visuals(parent_enabled)[0] == wanted);
    } else {
        let rest = way.drop_first();
        let z = 0int;
        assert(way[z].children@.contains(way[z + 1]));
        assert(rest[0] == way[1]);
        assert forall|i: int| 0 <= i < rest.len() - 1 implies (
        #[trigger] rest[i]).is_scene_or_group && rest[i].children@.contains(rest[i + 1]) by {
            assert(way[i + 1].is_scene_or_group);
            assert(way[i + 1].children@.contains(way[i + 1 + 1]));
        }
        assert(rest.last() == way.last());
        law_every_picture_is_found(first.children@, parent_enabled && first.enabled, rest);
        let inner = parent_enabled && first.enabled && forall|i: int|
            0 <= i < rest.len() ==> (#[trigger] rest[i]).enabled;
        assert(inner == on) by {
            if inner {
                assert forall|i: int| 0 <= i < way.len() implies (#[trigger] way[i]).enabled by {
                    if i > 0 {
                        assert(rest[i - 1].enabled);
                    }
                }
            }
            if on {
                assert forall|i: int| 0 <= i < rest.len() implies (#[trigger] rest[i]).enabled by {
                    assert(way[i + 1].enabled);
                }
            }
        }
        assert(first.visuals(parent_enabled).contains(wanted));
    }
    let at = choose|at: int| 0 <= at < sources.len() && sources[at] == first;
    lemma_visuals_of_one(sources, parent_enabled, at, wanted);
}

proof fn lemma_visuals_of_one(
    sources: Seq<SceneSource>,
    parent_enabled: bool,
    at: int,
    wanted: VisualV,
)
    requires
        0 <= at < sources.len(),
        sources[at].visuals(parent_enabled).contains(wanted),
    ensures
        visuals_of(sources, parent_enabled).contains(wanted),
    decreases sources.len(),
{
    let before = visuals_of(sources.drop_last(), parent_enabled);
    let own = sources.last().visuals(parent_enabled);
    if at == sources.len() - 1 {
        let k = choose|k: int| 0 <= k < own.len() && own[k] == wanted;
        assert((before + own)[before.len() + k] == wanted);
    } else {
        lemma_visuals_of_one(sources.drop_last(), parent_enabled, at, wanted);
        let k = choose|k: int| 0 <= k < before.len() && before[k] == wanted;
        assert((before + own)[k] == wanted);
    }
}

/// A source of sound alone is never taken for a picture, and any other kind is.
pub proof fn law_sound_is_no_picture(s: SceneSource, parent_enabled: bool)
    requires
        !s.is_scene_or_group,
    ensures
        s.kind is Some && set![
            "wasapi_input_capture"@,
            "wasapi_output_capture"@,
            "wasapi_process_output_capture"@,
            "coreaudio_input_capture"@,
            "coreaudio_output_capture"@,
            "pulse_input_capture"@,
            "pulse_output_capture"@,
            "alsa_input_capture"@,
            "jack_output_capture"@,
            "sndio_output_capture"@,
            "audio_line"@,
        ].contains(s.kind->0@) <==> s.visuals(parent_enabled).len() == 0,
{
}

/// What carries all sound of the system is a desktop slot of OBS, or the capture of an output device
/// that takes part in the program output. The capture of one application is not: the screen reader is
/// not in it.
pub proof fn law_system_sound_is_recognised(a: AudioInput)
    ensures
        text::opt_view(a.role) == Some("desktop"@) ==> a.is_system(),
        (text::opt_view(a.kind) == Some("wasapi_output_capture"@) || text::opt_view(a.kind) == Some(
            "coreaudio_output_capture"@,
        ) || text::opt_view(a.kind) == Some("pulse_output_capture"@)) && a.in_program_output
            ==> a.is_system(),
        text::opt_view(a.role) != Some("desktop"@) && !a.in_program_output ==> !a.is_system(),
        text::opt_view(a.role) != Some("desktop"@) && text::opt_view(a.kind) == Some(
            "wasapi_process_output_capture"@,
        ) ==> !a.is_system(),
        text::opt_view(a.role) != Some("desktop"@) && a.kind is None ==> !a.is_system(),
{
    reveal_strlit("wasapi_process_output_capture");
    reveal_strlit("wasapi_output_capture");
    reveal_strlit("coreaudio_output_capture");
    reveal_strlit("pulse_output_capture");
    assert("wasapi_process_output_capture"@.len() == 29);
    assert("wasapi_output_capture"@.len() == 21);
    assert("coreaudio_output_capture"@.len() == 24);
    assert("pulse_output_capture"@.len() == 20);
}

/// The scene is in order exactly if at least one picture is shown and all that are shown are active.
/// It forbids to start where there is no picture at all, where none is shown, and where OBS calls
/// none of them active but some not active.
pub proof fn law_the_scene_is_judged_by_its_pictures(sources: Seq<SceneSource>, i: int)
    requires
        0 <= i < visuals_of(sources, true).len(),
    ensures
        visuals_of(sources, true)[i].enabled && visuals_of(sources, true)[i].active == Verdict::Good
            ==> scene_finding(sources).severity != Severity::Critical,
        visuals_of(sources, true)[i].enabled && visuals_of(sources, true)[i].active == Verdict::Good
            && (forall|j: int|
            0 <= j < visuals_of(sources, true).len() && (#[trigger] visuals_of(
                sources,
                true,
            )[j]).enabled ==> visuals_of(sources, true)[j].active == Verdict::Good)
            ==> scene_finding(sources).severity == Severity::Good,
        visuals_of(sources, true)[i].enabled && visuals_of(sources, true)[i].active
            != Verdict::Good ==> scene_finding(sources).severity != Severity::Good,
        visuals_of(sources, true)[i].enabled && visuals_of(sources, true)[i].active
            == Verdict::Broken && (forall|j: int|
            0 <= j < visuals_of(sources, true).len() && (#[trigger] visuals_of(
                sources,
                true,
            )[j]).enabled ==> visuals_of(sources, true)[j].active != Verdict::Good)
            ==> scene_finding(sources).severity == Severity::Critical,
        (forall|j: int|
            0 <= j < visuals_of(sources, true).len() ==> !(#[trigger] visuals_of(
                sources,
                true,
            )[j]).enabled) ==> scene_finding(sources).severity == Severity::Critical,
{
    let visuals = visuals_of(sources, true);
    let on = shown(visuals);
    let v = visuals[i];
    let enabled = |w: VisualV| w.enabled;
    assert(sources.len() > 0);
    if v.enabled {
        visuals.lemma_filter_contains(enabled, i);
        let k = choose|k: int| 0 <= k < on.len() && on[k] == v;
        on.lemma_filter_contains(|w: VisualV| w.active == v.active, k);
        assert(with_verdict(on, v.active).contains(v));
        assert(with_verdict(on, v.active).len() > 0);
    }
    lemma_verdicts_of_shown(visuals, Verdict::Good);
    lemma_verdicts_of_shown(visuals, Verdict::Broken);
    lemma_verdicts_of_shown(visuals, Verdict::Unknown);
    if forall|j: int| 0 <= j < visuals.len() ==> !(#[trigger] visuals[j]).enabled {
        if on.len() > 0 {
            visuals.lemma_filter_contains_rev(enabled, on[0]);
            let j = choose|j: int| 0 <= j < visuals.len() && visuals[j] == on[0];
            assert(!visuals[j].enabled);
        }
    }
}

/// A verdict that some shown picture has comes from a picture in the scene that is shown.
proof fn lemma_verdicts_of_shown(visuals: Seq<VisualV>, verdict: Verdict)
    ensures
        with_verdict(shown(visuals), verdict).len() > 0 ==> exists|j: int|
            0 <= j < visuals.len() && (#[trigger] visuals[j]).enabled && visuals[j].active
                == verdict,
{
    let on = shown(visuals);
    let some = with_verdict(on, verdict);
    if some.len() > 0 {
        on.lemma_filter_contains_rev(|w: VisualV| w.active == verdict, some[0]);
        let k = choose|k: int| 0 <= k < on.len() && on[k] == some[0];
        visuals.lemma_filter_contains_rev(|w: VisualV| w.enabled, on[k]);
        let j = choose|j: int| 0 <= j < visuals.len() && visuals[j] == on[k];
        assert(visuals[j].enabled && visuals[j].active == verdict);
    }
}

/// A scene without a picture is a black screen: nothing may start.
pub proof fn law_no_picture_is_critical(sources: Seq<SceneSource>)
    requires
        visuals_of(sources, true).len() == 0,
    ensures
        scene_finding(sources).severity == Severity::Critical,
{
}

/// The camera is the first picture with its name. It is in order exactly if it is shown; hidden or
/// missing, there is a warning that says so.
pub proof fn law_the_camera_is_looked_for(camera: Seq<char>, sources: Seq<SceneSource>, i: int)
    ensures
        0 <= i < visuals_of(sources, true).len() && visuals_of(sources, true)[i].name == camera && (
        forall|j: int|
            0 <= j < i ==> (#[trigger] visuals_of(sources, true)[j]).name != camera) ==> {
            &&& visuals_of(sources, true)[i].enabled ==> camera_finding(camera, sources).severity
                == Severity::Good
            &&& !visuals_of(sources, true)[i].enabled ==> camera_finding(camera, sources).severity
                == Severity::Warning && text::holds_text(
                camera_finding(camera, sources).detail,
                "скрыта"@,
            )
        },
        (forall|j: int|
            0 <= j < visuals_of(sources, true).len() ==> (#[trigger] visuals_of(
                sources,
                true,
            )[j]).name != camera) ==> camera_finding(camera, sources).severity == Severity::Warning
            && text::holds_text(camera_finding(camera, sources).detail, "отсутствует"@),
        camera.is_prefix_of(camera_finding(camera, sources).detail),
{
    let visuals = visuals_of(sources, true);
    lemma_first_named(visuals, camera, i);
    let hidden = " есть в сцене, но скрыта"@;
    let missing = " отсутствует в текущей сцене"@;
    reveal_strlit(" есть в сцене, но скрыта");
    reveal_strlit("скрыта");
    text::lemma_holds_at(" есть в сцене, но скрыта"@, "скрыта"@, 18);
    reveal_strlit(" отсутствует в текущей сцене");
    reveal_strlit("отсутствует");
    text::lemma_holds_at(" отсутствует в текущей сцене"@, "отсутствует"@, 1);
    let none = Seq::<char>::empty();
    text::lemma_holds_inside(camera, hidden, none, "скрыта"@);
    text::lemma_holds_inside(camera, missing, none, "отсутствует"@);
    assert(camera + hidden + none =~= camera + hidden);
    assert(camera + missing + none =~= camera + missing);
    assert((camera + hidden).subrange(0, camera.len() as int) =~= camera);
    assert((camera + missing).subrange(0, camera.len() as int) =~= camera);
    assert((camera + " видна"@).subrange(0, camera.len() as int) =~= camera);
}

proof fn lemma_first_named(visuals: Seq<VisualV>, name: Seq<char>, i: int)
    ensures
        0 <= i < visuals.len() && visuals[i].name == name && (forall|j: int|
            0 <= j < i ==> (#[trigger] visuals[j]).name != name) ==> first_named(visuals, name)
            == Some(visuals[i]),
        (forall|j: int| 0 <= j < visuals.len() ==> (#[trigger] visuals[j]).name != name)
            ==> first_named(visuals, name) is None,
    decreases visuals.len(),
{
    if visuals.len() > 0 {
        let front = visuals.drop_last();
        lemma_first_named(front, name, i);
        lemma_first_named(front, name, front.len() as int);
        if forall|j: int| 0 <= j < visuals.len() ==> (#[trigger] visuals[j]).name != name {
            assert forall|j: int| 0 <= j < front.len() implies (#[trigger] front[j]).name
                != name by {
                assert(visuals[j].name != name);
            }
            assert(visuals[visuals.len() - 1].name != name);
        }
        if 0 <= i < visuals.len() && visuals[i].name == name && (forall|j: int|
            0 <= j < i ==> (#[trigger] visuals[j]).name != name) {
            if i < front.len() {
                assert forall|j: int| 0 <= j < i implies (#[trigger] front[j]).name != name by {
                    assert(visuals[j].name != name);
                }
                assert(front[i] == visuals[i]);
            } else {
                assert forall|j: int| 0 <= j < front.len() implies (#[trigger] front[j]).name
                    != name by {
                    assert(visuals[j].name != name);
                }
            }
        }
    }
}

/// The microphone is the first input with that role. Muted, it forbids to start; the finding names
/// it. Its signal is in order if more than fifty decibels below full were measured; a level that was
/// not measured, or silence in a microphone that is switched on, is warned of.
pub proof fn law_the_microphone_is_judged(audio: Seq<AudioInput>, i: int)
    requires
        0 <= i < audio.len(),
        text::opt_view(audio[i].role) == Some("mic"@),
        forall|j: int| 0 <= j < i ==> text::opt_view((#[trigger] audio[j]).role) != Some("mic"@),
    ensures
        microphone_findings(audio).len() == 2,
        microphone_findings(audio)[0].severity == (if audio[i].muted {
            Severity::Critical
        } else {
            Severity::Good
        }),
        audio[i].name@.is_prefix_of(microphone_findings(audio)[0].detail),
        audio[i].level_db is None ==> microphone_findings(audio)[1].severity == Severity::Warning,
        audio[i].level_db matches Some(db) ==> {
            &&& !db.nan() && db.counted() > -50 * number::one() ==> microphone_findings(
                audio,
            )[1].severity == Severity::Good && text::holds_text(
                microphone_findings(audio)[1].detail,
                number::no_places(db),
            )
            &&& !db.nan() && db.counted() <= -50 * number::one() && !audio[i].muted
                ==> microphone_findings(audio)[1].severity == Severity::Warning
        },
{
    assert(first_with_role(audio.take(i), "mic"@) is None) by {
        lemma_no_role(audio.take(i), "mic"@);
    }
    lemma_first_with_role(audio, "mic"@, i);
    let name = audio[i].name@;
    assert((name + " заглушен — вас не будет слышно"@).subrange(0, name.len() as int) =~= name);
    assert((name + " включён"@).subrange(0, name.len() as int) =~= name);
    if audio[i].level_db is Some {
        let digits = number::no_places(audio[i].level_db->0);
        let head = "Есть, "@;
        text::lemma_part_is_held(head, digits, " dB"@);
    }
}

proof fn lemma_no_role(audio: Seq<AudioInput>, role: Seq<char>)
    requires
        forall|j: int| 0 <= j < audio.len() ==> text::opt_view((#[trigger] audio[j]).role) != Some(role),
    ensures
        first_with_role(audio, role) is None,
    decreases audio.len(),
{
    if audio.len() > 0 {
        assert forall|j: int| 0 <= j < audio.drop_last().len() implies text::opt_view(
            (#[trigger] audio.drop_last()[j]).role,
        ) != Some(role) by {
            assert(text::opt_view(audio[j].role) != Some(role));
        }
        lemma_no_role(audio.drop_last(), role);
        assert(text::opt_view(audio[audio.len() - 1].role) != Some(role));
    }
}

/// Without a microphone nothing may start.
pub proof fn law_no_microphone_is_critical(audio: Seq<AudioInput>)
    requires
        forall|j: int|
            0 <= j < audio.len() ==> text::opt_view((#[trigger] audio[j]).role) != Some("mic"@),
    ensures
        microphone_findings(audio).len() == 1,
        microphone_findings(audio)[0].severity == Severity::Critical,
{
    lemma_no_role(audio, "mic"@);
}

/// The sound of the desktop is in order where every input that carries it is muted, and the warning
/// names every one that is not.
pub proof fn law_the_desktop_warning_names_the_source(audio: Seq<AudioInput>, i: int)
    ensures
        (forall|j: int|
            0 <= j < audio.len() && (#[trigger] audio[j]).is_system() ==> audio[j].muted)
            ==> desktop_finding(audio).severity == Severity::Good,
        0 <= i < audio.len() && audio[i].is_system() && !audio[i].muted ==> text::holds_text(
            desktop_finding(audio).detail,
            audio[i].name@,
        ),
{
    let desktop = system_inputs(audio);
    let live = live_inputs(desktop);
    if forall|j: int| 0 <= j < audio.len() && (#[trigger] audio[j]).is_system() ==> audio[j].muted {
        if live.len() > 0 {
            desktop.lemma_filter_contains_rev(|a: AudioInput| !a.muted, live[0]);
            let k = choose|k: int| 0 <= k < desktop.len() && desktop[k] == live[0];
            audio.lemma_filter_contains_rev(|a: AudioInput| a.is_system(), desktop[k]);
            let j = choose|j: int| 0 <= j < audio.len() && audio[j] == desktop[k];
            assert(audio[j].is_system());
        }
    }
    if 0 <= i < audio.len() && audio[i].is_system() && !audio[i].muted {
        audio.lemma_filter_contains(|a: AudioInput| a.is_system(), i);
        let k = choose|k: int| 0 <= k < desktop.len() && desktop[k] == audio[i];
        desktop.lemma_filter_contains(|a: AudioInput| !a.muted, k);
        let m = choose|m: int| 0 <= m < live.len() && live[m] == audio[i];
        let names = input_names(live);
        assert(names[m] == audio[i].name@);
        text::lemma_joined_holds(names, ", "@, m);
        let list = text::joined(names, ", "@);
        let head = "Включён ("@;
        let tail = "). В эфир пойдёт всё, что звучит на компьютере, включая речь экранного диктора"@;
        text::lemma_holds_inside(head, list, tail, audio[i].name@);
    }
}

/// What is broken in the overlay is named before what is unknown, and what could not be looked at is
/// named part by part.
pub proof fn law_the_overlay_finding_names_the_trouble(o: OverlayState)
    ensures
        o.present_in_scenes == Verdict::Broken ==> text::holds_text(
            donation_finding(o).detail,
            "отсутствует в сценах"@,
        ),
        o.present_in_scenes != Verdict::Broken && o.audible == Verdict::Broken ==> text::holds_text(
            donation_finding(o).detail,
            "заглушен"@,
        ),
        o.present_in_scenes != Verdict::Broken && o.audible != Verdict::Broken && o.on_top
            == Verdict::Broken ==> text::holds_text(donation_finding(o).detail, "не верхним слоем"@),
        o.present_in_scenes != Verdict::Broken && o.audible != Verdict::Broken && o.on_top
            != Verdict::Broken ==> {
            &&& o.present_in_scenes == Verdict::Unknown ==> text::holds_text(
                donation_finding(o).detail,
                "наличие в сценах"@,
            )
            &&& o.audible == Verdict::Unknown ==> text::holds_text(
                donation_finding(o).detail,
                "звук"@,
            )
            &&& o.on_top == Verdict::Unknown ==> text::holds_text(
                donation_finding(o).detail,
                "порядок слоёв"@,
            )
        },
        donation_finding(o).severity != Severity::Critical,
{
    reveal_strlit("Оверлей отсутствует в сценах — донаты не покажутся");
    reveal_strlit("отсутствует в сценах");
    text::lemma_holds_at("Оверлей отсутствует в сценах — донаты не покажутся"@, "отсутствует в сценах"@, 8);
    reveal_strlit("Оверлей заглушен — донаты не будет слышно");
    reveal_strlit("заглушен");
    text::lemma_holds_at("Оверлей заглушен — донаты не будет слышно"@, "заглушен"@, 8);
    reveal_strlit("Оверлей не верхним слоем — его перекроет игра");
    reveal_strlit("не верхним слоем");
    text::lemma_holds_at("Оверлей не верхним слоем — его перекроет игра"@, "не верхним слоем"@, 8);
    let parts = unknown_parts(o);
    let head = "Не удалось проверить: "@;
    let list = text::joined(parts, ", "@);
    let none = Seq::<char>::empty();
    assert(head + list + none =~= head + list);
    if o.present_in_scenes == Verdict::Unknown {
        assert(parts[0] == "наличие в сценах"@);
        text::lemma_joined_holds(parts, ", "@, 0);
        text::lemma_holds_inside(head, list, none, "наличие в сценах"@);
    }
    if o.audible == Verdict::Unknown {
        let k = if o.present_in_scenes == Verdict::Unknown {
            1int
        } else {
            0int
        };
        assert(parts[k] == "звук"@);
        text::lemma_joined_holds(parts, ", "@, k);
        text::lemma_holds_inside(head, list, none, "звук"@);
    }
    if o.on_top == Verdict::Unknown {
        let k = parts.len() - 1;
        assert(parts[k] == "порядок слоёв"@);
        text::lemma_joined_holds(parts, ", "@, k);
        text::lemma_holds_inside(head, list, none, "порядок слоёв"@);
    }
}

/// Free space below five thousand megabytes is too little, and it is told in gigabytes of 1024
/// megabytes, to one place.
pub proof fn law_the_disk_finding_tells_the_space(free_mb: Reading, recording: bool)
    requires
        !free_mb.nan(),
    ensures
        (Reading { bits: GIGABYTE_BITS }).counted() == 1024 * number::one(),
        0 < free_mb.counted() < 5000 * number::one() ==> disk_finding(free_mb, recording).severity
            == (if recording {
            Severity::Critical
        } else {
            Severity::Warning
        }) && text::holds_text(
            disk_finding(free_mb, recording).detail,
            number::one_place(number::quotient(free_mb, Reading { bits: GIGABYTE_BITS })),
        ),
        free_mb.counted() >= 5000 * number::one() ==> disk_finding(free_mb, recording).severity
            == Severity::Good && text::holds_text(
            disk_finding(free_mb, recording).detail,
            number::no_places(number::quotient(free_mb, Reading { bits: GIGABYTE_BITS })),
        ),
        free_mb.counted() <= 0 ==> disk_finding(free_mb, recording).severity == Severity::Warning,
{
    let unit = Reading { bits: GIGABYTE_BITS };
    vstd::arithmetic::power2::lemma2_to64();
    vstd::arithmetic::power2::lemma2_to64_rest();
    vstd::arithmetic::power2::lemma_pow2_adds(52, 1032);
    vstd::arithmetic::power2::lemma_pow2_adds(10, 1074);
    assert(number::float_mantissa(GIGABYTE_BITS) == 0x10_0000_0000_0000);
    assert(number::float_exponent(GIGABYTE_BITS) == 1032);
    vstd::arithmetic::power2::lemma_pow2_pos(1074);
    let o = number::one() as int;
    assert(0 * o == 0);
    let gb = number::one_place(gigabytes(free_mb));
    let head = "Осталось "@;
    let tail = " ГБ"@;
    let rest = " — идёт запись, она может оборваться"@;
    let none = Seq::<char>::empty();
    text::lemma_part_is_held(head, gb, tail);
    text::lemma_part_is_held(head, gb, tail + rest);
    assert(head + gb + (tail + rest) =~= head + gb + tail + rest);
    let plain = number::no_places(gigabytes(free_mb));
    text::lemma_part_is_held(none, plain, tail);
    assert(none + plain + tail =~= plain + tail);
}

/// Every matter has its finding, in the order in which they are read aloud: the connection with the
/// version, the scene on air by its name, its content, the camera if there is one, the microphone,
/// the sound of the desktop, the overlay if there is one, the service, the disk and Twitch.
pub proof fn law_every_matter_is_reported(s: Snapshot)
    requires
        s.obs_connected,
    ensures
        findings(s).len() >= 8,
        findings(s)[0].title == "OBS"@ && findings(s)[0].severity == Severity::Good,
        s.obs_version matches Some(v) ==> text::holds_text(findings(s)[0].detail, v@),
        findings(s)[1].title == "Текущая сцена"@,
        s.current_scene matches Some(name) ==> findings(s)[1].severity == Severity::Good && findings(
            s,
        )[1].detail == name@,
        s.current_scene is None ==> findings(s)[1].severity == Severity::Critical,
        findings(s)[2] == scene_finding(s.sources@),
        s.camera matches Some(camera) ==> findings(s)[3] == camera_finding(camera@, s.sources@)
            && findings(s)[3].title == "Камера"@,
        s.camera is None ==> findings(s)[3].title == "Микрофон"@,
        findings(s).contains(desktop_finding(s.audio@)),
        s.donation_overlay matches Some(o) ==> findings(s).contains(donation_finding(o)),
        findings(s)[findings(s).len() - 3].title == "Сервис вещания"@,
        findings(s)[findings(s).len() - 3].severity == (if s.stream_service_configured {
            Severity::Good
        } else {
            Severity::Critical
        }),
        findings(s)[findings(s).len() - 2] == disk_finding(s.free_disk_mb, s.recording),
        findings(s)[findings(s).len() - 1].title == "Twitch"@,
        findings(s)[findings(s).len() - 1].severity == (if s.twitch_connected {
            Severity::Good
        } else {
            Severity::Warning
        }),
{
    let all = findings(s);
    let mics = microphone_findings(s.audio@);
    let a = scene_part(s).len() as int;
    let b = a + camera_part(s).len();
    let c = b + mics.len();
    assert(mics.len() >= 1);
    assert(all[c] == desktop_finding(s.audio@));
    assert(all[b] == mics[0]);
    if s.donation_overlay is Some {
        assert(all[c + 1] == donation_finding(s.donation_overlay->0));
    }
    if s.obs_version is Some {
        let v = s.obs_version->0@;
        let head = "Подключён, версия "@;
        text::lemma_part_is_held(head, v, Seq::empty());
        assert(head + v + Seq::<char>::empty() =~= head + v);
    }
}

/// Advice comes with every finding that is not in order, and with no other.
pub proof fn law_advice_comes_with_trouble(s: Snapshot, i: int)
    requires
        0 <= i < findings(s).len(),
    ensures
        findings(s)[i].fix is None <==> findings(s)[i].severity == Severity::Good,
{
    if s.obs_connected {
        let mics = microphone_findings(s.audio@);
        let a = scene_part(s);
        let b = camera_part(s);
        lemma_first_findings_are_advised(s);
        lemma_microphone_is_advised(s.audio@);
        lemma_last_findings_are_advised(s);
        lemma_joined_are_advised(a, b);
        lemma_joined_are_advised(a + b, mics);
        lemma_joined_are_advised(a + b + mics, seq![desktop_finding(s.audio@)]);
        lemma_joined_are_advised(a + b + mics + seq![desktop_finding(s.audio@)], overlay_part(s));
        lemma_joined_are_advised(
            a + b + mics + seq![desktop_finding(s.audio@)] + overlay_part(s),
            service_part(s),
        );
    }
}

/// Whether advice comes with those findings that are not in order, and with no other.
spec fn all_advised(list: Seq<CheckV>) -> bool {
    forall|i: int|
        0 <= i < list.len() ==> ((#[trigger] list[i]).fix is None <==> list[i].severity
            == Severity::Good)
}

proof fn lemma_joined_are_advised(a: Seq<CheckV>, b: Seq<CheckV>)
    requires
        all_advised(a),
        all_advised(b),
    ensures
        all_advised(a + b),
{
    assert forall|i: int| 0 <= i < (a + b).len() implies ((#[trigger] (a + b)[i]).fix is None <==> (a
        + b)[i].severity == Severity::Good) by {
        if i < a.len() {
            assert((a + b)[i] == a[i]);
        } else {
            assert((a + b)[i] == b[i - a.len()]);
        }
    }
}

proof fn lemma_first_findings_are_advised(s: Snapshot)
    ensures
        all_advised(scene_part(s)),
        all_advised(camera_part(s)),
        all_advised(seq![desktop_finding(s.audio@)]),
{
}

proof fn lemma_microphone_is_advised(audio: Seq<AudioInput>)
    ensures
        all_advised(microphone_findings(audio)),
{
}

proof fn lemma_last_findings_are_advised(s: Snapshot)
    ensures
        all_advised(overlay_part(s)),
        all_advised(service_part(s)),
{
}

/// The summary tells how many findings are critical and how many are warnings.
pub proof fn law_the_summary_counts(critical: nat, warnings: nat)
    ensures
        critical > 0 ==> text::holds_text(summary_text(critical, warnings), text::decimal(critical)),
        warnings > 0 ==> text::holds_text(summary_text(critical, warnings), text::decimal(warnings)),
        critical == 0 && warnings > 0 ==> text::holds_text(
            summary_text(critical, warnings),
            "Можно начинать"@,
        ),
{
    let c = text::decimal(critical);
    let w = text::decimal(warnings);
    let can = "Можно начинать, но есть предупреждений: "@;
    let cannot = "Начинать нельзя, критических проблем: "@;
    let and = ", предупреждений: "@;
    let s = summary_text(critical, warnings);
    let none = Seq::<char>::empty();
    if critical > 0 {
        if warnings > 0 {
            text::lemma_part_is_held(cannot, c, and + w);
            text::lemma_part_is_held(cannot + c + and, w, none);
            assert(cannot + c + (and + w) =~= s);
            assert(cannot + c + and + w + none =~= s);
        } else {
            text::lemma_part_is_held(cannot, c, none);
            assert(cannot + c + none =~= s);
        }
    } else if warnings > 0 {
        text::lemma_part_is_held(can, w, none);
        assert(can + w + none =~= s);
        reveal_strlit("Можно начинать, но есть предупреждений: ");
        reveal_strlit("Можно начинать");
        assert(s.subrange(0, 14) =~= "Можно начинать"@);
        text::lemma_holds_at(s, "Можно начинать"@, 0);
    }
}


/// No picture is made up: a nested scene or group is none itself and shows what its content shows,
/// hidden if it is hidden; a source without content is at most one picture, under its own name; and
/// the pictures of a scene are those of its sources, in order.
pub proof fn law_no_picture_is_made_up(
    sources: Seq<SceneSource>,
    s: SceneSource,
    parent_enabled: bool,
    k: int,
)
    ensures
        s.is_scene_or_group ==> s.visuals(parent_enabled) == visuals_of(
            s.children@,
            parent_enabled && s.enabled,
        ),
        !s.is_scene_or_group ==> s.visuals(parent_enabled).len() <= 1,
        !s.is_scene_or_group && 0 <= k < s.visuals(parent_enabled).len() ==> {
            &&& s.visuals(parent_enabled)[k].name == s.name@
            &&& s.visuals(parent_enabled)[k].active == s.active
            &&& s.visuals(parent_enabled)[k].enabled == (parent_enabled && s.enabled)
        },
        visuals_of(sources.push(s), parent_enabled) == visuals_of(sources, parent_enabled) + s.visuals(
            parent_enabled,
        ),
        visuals_of(Seq::empty(), parent_enabled).len() == 0,
{
    assert(sources.push(s).drop_last() =~= sources);
}

} // verus!
