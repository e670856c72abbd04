//! Other programs on the computer: OBS, Tailscale, and starting at logon.
use vstd::prelude::*;
use crate::address;
use crate::record;
use crate::record::Record;
use crate::text;

verus! {

// ---------------------------------------------------------------------------------------------
// Finding programs
// ---------------------------------------------------------------------------------------------
/// Where OBS is installed unless the user chose another place.
pub open spec fn usual_obs_paths() -> Seq<Seq<char>> {
    seq![
        "C:\\Program Files\\obs-studio\\bin\\64bit\\obs64.exe"@,
        "C:\\Program Files (x86)\\obs-studio\\bin\\64bit\\obs64.exe"@,
    ]
}

/// Where OBS is installed unless the user chose another place.
pub fn default_obs_paths() -> (r: Vec<String>)
    ensures
        text::views(r@) == usual_obs_paths(),
{
    let mut out: Vec<String> = Vec::new();
    out.push("C:\\Program Files\\obs-studio\\bin\\64bit\\obs64.exe".to_owned());
    out.push("C:\\Program Files (x86)\\obs-studio\\bin\\64bit\\obs64.exe".to_owned());
    assert(text::views(out@) =~= usual_obs_paths());
    out
}

/// What was found on the disk while looking for OBS.
pub struct ObsFound {
    /// Whether the configured file is there.
    pub configured: bool,
    /// Whether each of the usual files is there.
    pub usual: Vec<bool>,
    /// `obs64.exe` among the programs that can be called by name.
    pub obs64: Option<String>,
    /// `obs` among the programs that can be called by name.
    pub obs: Option<String>,
}

/// The first of some paths that is there.
pub open spec fn first_there(paths: Seq<Seq<char>>, there: Seq<bool>) -> Option<Seq<char>>
    decreases paths.len(),
{
    if paths.len() == 0 {
        None
    } else {
        match first_there(paths.drop_last(), there) {
            Some(p) => Some(p),
            None => if paths.len() <= there.len() && there[paths.len() - 1] {
                Some(paths.last())
            } else {
                None
            },
        }
    }
}

/// Where OBS is: the configured place, else a usual one, else what can be called by name.
pub open spec fn obs_place(configured: Seq<char>, found: ObsFound) -> Option<Seq<char>> {
    if configured.len() > 0 && found.configured {
        Some(configured)
    } else {
        match first_there(usual_obs_paths(), found.usual@) {
            Some(p) => Some(p),
            None => match text::opt_view(found.obs64) {
                Some(p) => Some(p),
                None => text::opt_view(found.obs),
            },
        }
    }
}

/// Where OBS is.
pub fn find_obs(configured: &str, found: &ObsFound) -> (r: Option<String>)
    ensures
        text::opt_view(r) == obs_place(configured@, *found),
{
    if !configured.is_empty() && found.configured {
        return Some(configured.to_owned());
    }
    let paths = default_obs_paths();
    let ghost all = text::views(paths@);
    let mut i: usize = 0;
    while i < paths.len()
        invariant
            i <= paths@.len(),
            all == text::views(paths@),
            all == usual_obs_paths(),
            configured@.len() == 0 || !found.configured,
            first_there(all.take(i as int), found.usual@) is None,
        decreases paths.len() - i,
    {
        proof {
            assert(all.take(i + 1).drop_last() =~= all.take(i as int));
            assert(all.take(i + 1).last() == paths@[i as int]@);
        }
        if i < found.usual.len() && found.usual[i] {
            proof {
                lemma_first_stays(all, found.usual@, i + 1);
            }
            return Some(paths[i].as_str().to_owned());
        }
        i = i + 1;
    }
    assert(all.take(i as int) =~= all);
    match &found.obs64 {
        Some(p) => Some(p.as_str().to_owned()),
        None => text::copy_opt(&found.obs),
    }
}

proof fn lemma_first_stays(paths: Seq<Seq<char>>, there: Seq<bool>, i: int)
    requires
        0 <= i <= paths.len(),
        first_there(paths.take(i), there) is Some,
    ensures
        first_there(paths, there) == first_there(paths.take(i), there),
    decreases paths.len(),
{
    if i == paths.len() {
        assert(paths.take(i) =~= paths);
    } else {
        assert(paths.drop_last().take(i) =~= paths.take(i));
        lemma_first_stays(paths.drop_last(), there, i);
    }
}

/// Where Tailscale is installed unless the user chose another place.
pub const TAILSCALE_PATH: &'static str = "C:\\Program Files\\Tailscale\\tailscale.exe";

/// Where Tailscale is: what can be called by name, else the usual place.
pub fn tailscale_exe(by_name: Option<String>, usual_exists: bool) -> (r: Option<String>)
    ensures
        text::opt_view(r) == (match text::opt_view(by_name) {
            Some(p) => Some(p),
            None => if usual_exists {
                Some(TAILSCALE_PATH@)
            } else {
                None
            },
        }),
{
    match by_name {
        Some(p) => Some(p),
        None => if usual_exists {
            Some(TAILSCALE_PATH.to_owned())
        } else {
            None
        },
    }
}

// ---------------------------------------------------------------------------------------------
// What is running
// ---------------------------------------------------------------------------------------------
/// Whether a list of tasks names a program, in any case of letters. Without a list it does not.
pub open spec fn lists_program(tasks: Option<Seq<char>>, name: Seq<char>) -> bool {
    match tasks {
        Some(output) => text::holds_text(text::lowered(output), text::lowered(name)),
        None => false,
    }
}

/// Whether a program is running, by the list of tasks.
pub fn process_running(tasks: Option<&str>, name: &str) -> (r: bool)
    ensures
        r == lists_program(text::opt_str(tasks), name@),
{
    match tasks {
        Some(output) => {
            let low = text::to_lower(output);
            let wanted = text::to_lower(name);
            text::contains(low.as_str(), wanted.as_str())
        },
        None => false,
    }
}

/// Whether OBS is running, by the lists of tasks of both its names.
pub fn obs_is_running(tasks64: Option<&str>, tasks: Option<&str>) -> (r: bool)
    ensures
        r == (lists_program(text::opt_str(tasks64), "obs64.exe"@) || lists_program(
            text::opt_str(tasks),
            "obs.exe"@,
        )),
{
    process_running(tasks64, "obs64.exe") || process_running(tasks, "obs.exe")
}

/// The address in what Tailscale printed: the first line, if it is one.
pub open spec fn printed_address(output: Seq<char>) -> Option<Seq<char>> {
    if text::lines_of(output).len() > 0 && address::is_address(
        text::trimmed(text::lines_of(output)[0]),
    ) {
        Some(text::trimmed(text::lines_of(output)[0]))
    } else {
        None
    }
}

/// The address of this computer in the network of Tailscale, from what it printed.
pub fn tailscale_ip(output: &str) -> (r: Option<String>)
    ensures
        text::opt_view(r) == printed_address(output@),
{
    let lines = text::lines(output);
    assert(text::views(lines@).len() == lines@.len());
    if lines.len() == 0 {
        return None;
    }
    assert(text::views(lines@)[0] == lines@[0]@);
    let first = text::trim(lines[0].as_str());
    if address::read_address(first.as_str()) {
        Some(first)
    } else {
        None
    }
}

/// Whether the state that Tailscale reports is "running". The record is read, not searched as text:
/// how it is laid out is not promised.
pub open spec fn is_running(status: Option<record::RecordV>) -> bool {
    match status {
        Some(record::RecordV::Named(fields)) => record::optional_text(
            record::asked(fields, "BackendState"@),
        ) == Ok::<Option<Seq<char>>, ()>(Some("Running"@)),
        Some(record::RecordV::Listed(items)) => items.len() == 1 && record::optional_text(
            record::asked_at(items, 0),
        ) == Ok::<Option<Seq<char>>, ()>(Some("Running"@)),
        None => false,
    }
}

/// Whether the state that was read is "running".
pub fn backend_running(status: &Option<Record>) -> (r: bool)
    ensures
        r == is_running(record::record_view(*status)),
{
    let state = match status {
        Some(Record::Named(fields)) => record::read_optional_text(
            &record::ask(fields, "BackendState"),
        ),
        Some(Record::Listed(items)) => if items.len() == 1 {
            record::read_optional_text(&record::ask_at(items, 0))
        } else {
            Err(())
        },
        None => Err(()),
    };
    match state {
        Ok(Some(state)) => text::same(state.as_str(), "Running"),
        _ => false,
    }
}

/// Whether Tailscale says that it is running.
pub fn parse_backend_running(output: &str) -> (r: bool)
    ensures
        r == is_running(record::record_in(output@)),
{
    backend_running(&record::read_record(output))
}

// ---------------------------------------------------------------------------------------------
// Runs of OBS that broke off
// ---------------------------------------------------------------------------------------------
/// Whether a file is the mark of a run of OBS: OBS makes one when it starts and takes it away when
/// it ends.
pub open spec fn is_run_mark(name: Seq<char>) -> bool {
    "run_"@.is_prefix_of(name)
}

/// The marks among the names of files. Each is left from a run that broke off.
pub fn run_marks(names: &Vec<String>) -> (r: Vec<String>)
    ensures
        text::views(r@) == text::views(names@).filter(|n: Seq<char>| is_run_mark(n)),
{
    let ghost all = text::views(names@);
    let ghost mark = |n: Seq<char>| is_run_mark(n);
    let mut out: Vec<String> = Vec::new();
    proof {
        reveal(Seq::filter);
        assert(text::views(out@) =~= all.take(0).filter(mark));
    }
    let mut i: usize = 0;
    while i < names.len()
        invariant
            i <= names@.len(),
            all == text::views(names@),
            mark == (|n: Seq<char>| is_run_mark(n)),
            text::views(out@) == all.take(i as int).filter(mark),
        decreases names.len() - i,
    {
        proof {
            assert(all.take(i + 1) =~= all.take(i as int).push(names@[i as int]@));
            all.take(i as int).lemma_filter_push(names@[i as int]@, mark);
        }
        let ghost before = text::views(out@);
        if text::starts_with(names[i].as_str(), "run_") {
            out.push(names[i].as_str().to_owned());
            assert(text::views(out@) =~= before.push(names@[i as int]@));
        }
        i = i + 1;
    }
    assert(all.take(i as int) =~= all);
    out
}

/// Whether a run of OBS broke off, as far as this run of the agent has seen. It is told to the owner:
/// to hide it would hide a plugin that brings OBS down.
#[derive(Debug)]
pub struct CrashRecord {
    pub crashed: bool,
}

/// Whether a run of OBS broke off.
pub fn obs_crashed_last_run(record: &CrashRecord) -> (r: bool)
    ensures
        r == record.crashed,
{
    record.crashed
}

/// Takes note of which marks could be removed. A mark that is left makes OBS ask a question at the
/// next start, which nobody is there to answer. What was noted once stays noted.
pub fn clear_obs_crash_sentinel(record: &mut CrashRecord, removed: &Vec<bool>) -> (r: bool)
    ensures
        r == removed@.contains(true),
        final(record).crashed == (old(record).crashed || r),
{
    let mut any = false;
    let mut i: usize = 0;
    while i < removed.len()
        invariant
            i <= removed@.len(),
            any == removed@.take(i as int).contains(true),
        decreases removed.len() - i,
    {
        proof {
            assert(removed@.take(i + 1) =~= removed@.take(i as int).push(removed@[i as int]));
            if removed@[i as int] {
                assert(removed@.take(i + 1)[i as int] == true);
            } else if any {
                let k = choose|k: int| 0 <= k < i && removed@.take(i as int)[k] == true;
                assert(removed@.take(i + 1)[k] == true);
            }
        }
        if removed[i] {
            any = true;
        }
        i = i + 1;
    }
    assert(removed@.take(i as int) =~= removed@);
    if any {
        record.crashed = true;
    }
    any
}

/// What to do when OBS is wanted.
pub enum StartObs {
    /// Nothing: it is running.
    Running,
    /// Start the program at this place, in the tray.
    Launch(String),
    /// It is nowhere to be found.
    Missing(String),
}

/// What to say where OBS is nowhere to be found.
pub open spec fn obs_missing() -> Seq<char> {
    "OBS Studio не найден. Установите OBS с https://obsproject.com/ или запустите AccessibleOBS.exe в режиме актёра."@
}

/// Decides what to do when OBS is wanted.
pub fn start_obs_if_needed(running: bool, configured: &str, found: &ObsFound) -> (r: StartObs)
    ensures
        match r {
            StartObs::Running => running,
            StartObs::Launch(path) => !running && obs_place(configured@, *found) == Some(path@),
            StartObs::Missing(e) => !running && obs_place(configured@, *found) is None && e@
                == obs_missing(),
        },
{
    if running {
        return StartObs::Running;
    }
    match find_obs(configured, found) {
        Some(path) => StartObs::Launch(path),
        None => StartObs::Missing(
            "OBS Studio не найден. Установите OBS с https://obsproject.com/ или запустите AccessibleOBS.exe в режиме актёра.".to_owned(),
        ),
    }
}

// ---------------------------------------------------------------------------------------------
// Shortcuts
// ---------------------------------------------------------------------------------------------
/// A text for single quotes of PowerShell: each apostrophe is doubled.
pub open spec fn quoted(s: Seq<char>) -> Seq<char> {
    text::replaced(s, '\'', "''"@)
}

/// A text for single quotes of PowerShell: each apostrophe is doubled.
pub fn ps_quote(s: &str) -> (r: String)
    ensures
        r@ == quoted(s@),
{
    text::replace_char(s, '\'', "''")
}

/// What PowerShell reads between single quotes: a doubled apostrophe is one apostrophe, and a single
/// one would end the text.
pub open spec fn read_quoted(s: Seq<char>) -> Option<Seq<char>>
    decreases s.len(),
{
    if s.len() == 0 {
        Some(Seq::empty())
    } else if s.last() != '\'' {
        match read_quoted(s.drop_last()) {
            Some(front) => Some(front.push(s.last())),
            None => None,
        }
    } else if s.len() >= 2 && s[s.len() - 2] == '\'' {
        match read_quoted(s.drop_last().drop_last()) {
            Some(front) => Some(front.push('\'')),
            None => None,
        }
    } else {
        None
    }
}

/// The script that makes a shortcut.
pub open spec fn shortcut_words(
    shortcut: Seq<char>,
    target: Seq<char>,
    arguments: Option<Seq<char>>,
    directory: Seq<char>,
    description: Seq<char>,
) -> Seq<char> {
    "$s = (New-Object -ComObject WScript.Shell).CreateShortcut('"@ + quoted(shortcut)
        + "'); $s.TargetPath = '"@ + quoted(target) + (match arguments {
        Some(a) => "'; $s.Arguments = '"@ + quoted(a),
        None => ""@,
    }) + "'; $s.WorkingDirectory = '"@ + quoted(directory) + "'; $s.Description = '"@ + quoted(
        description,
    ) + "'; $s.Save()"@
}

/// The script that makes a shortcut.
pub fn shortcut_script(
    shortcut: &str,
    target: &str,
    arguments: Option<&str>,
    directory: &str,
    description: &str,
) -> (r: String)
    ensures
        r@ == shortcut_words(
            shortcut@,
            target@,
            text::opt_str(arguments),
            directory@,
            description@,
        ),
{
    let shortcut = ps_quote(shortcut);
    let target = ps_quote(target);
    let directory = ps_quote(directory);
    let description = ps_quote(description);
    let arguments = match arguments {
        Some(a) => {
            let a = ps_quote(a);
            text::join2("'; $s.Arguments = '", a.as_str())
        },
        None => "".to_owned(),
    };
    let head = text::join5(
        "$s = (New-Object -ComObject WScript.Shell).CreateShortcut('",
        shortcut.as_str(),
        "'); $s.TargetPath = '",
        target.as_str(),
        arguments.as_str(),
    );
    let tail = text::join5(
        head.as_str(),
        "'; $s.WorkingDirectory = '",
        directory.as_str(),
        "'; $s.Description = '",
        description.as_str(),
    );
    text::join2(tail.as_str(), "'; $s.Save()")
}

/// Whether the agent starts at logon. A shortcut of the program's former name counts: it does start
/// the agent, and to say otherwise would be untrue.
pub fn autostart_registered(shortcut_exists: bool, legacy_exists: bool) -> (r: bool)
    ensures
        r == (shortcut_exists || legacy_exists),
{
    shortcut_exists || legacy_exists
}

/// Makes the agent start at logon: the script that makes the shortcut, or why there is none.
pub fn register_autostart(shortcut: Option<&str>, target: &str, target_exists: bool, root: &str) -> (r:
    Result<String, String>)
    ensures
        match (shortcut, r) {
            (None, Err(e)) => e@ == "не удалось определить папку автозагрузки"@,
            (Some(_), Err(e)) => !target_exists && e@ == target@ + " не найден"@,
            (Some(path), Ok(script)) => target_exists && script@ == shortcut_words(
                path@,
                target@,
                None,
                root@,
                "Accessible OBS host agent"@,
            ),
            (None, Ok(_)) => false,
        },
{
    match shortcut {
        None => Err("не удалось определить папку автозагрузки".to_owned()),
        Some(path) => if !target_exists {
            Err(text::join2(target, " не найден"))
        } else {
            Ok(shortcut_script(path, target, None, root, "Accessible OBS host agent"))
        },
    }
}

/// Whether the shortcut was made. Only then are those of the former name taken away: else a failure
/// would leave no shortcut at all.
pub fn autostart_made(shortcut_exists: bool, stderr: &str) -> (r: Result<(), String>)
    ensures
        match r {
            Ok(_) => shortcut_exists,
            Err(e) => !shortcut_exists && e@ == "ярлык автозагрузки не создан: "@
                + text::trimmed(stderr@),
        },
{
    if shortcut_exists {
        Ok(())
    } else {
        let said = text::trim(stderr);
        Err(text::join2("ярлык автозагрузки не создан: ", said.as_str()))
    }
}

// ---------------------------------------------------------------------------------------------
// Laws
// ---------------------------------------------------------------------------------------------
/// Whatever text is quoted, PowerShell reads that very text: none can end the quotes.
pub proof fn law_quoting_is_undone(s: Seq<char>)
    ensures
        read_quoted(quoted(s)) == Some(s),
    decreases s.len(),
{
    reveal_strlit("''");
    assert("''"@.len() == 2);
    if s.len() == 0 {
        assert(quoted(s) =~= Seq::empty());
        assert(s =~= Seq::empty());
    } else {
        let front = s.drop_last();
        law_quoting_is_undone(front);
        let q = quoted(s);
        let qf = quoted(front);
        if s.last() == '\'' {
            assert(q =~= qf + "''"@);
            assert(q.last() == '\'');
            assert(q[q.len() - 2] == '\'');
            assert(q.drop_last().drop_last() =~= qf);
        } else {
            assert(q =~= qf.push(s.last()));
            assert(q.drop_last() =~= qf);
        }
        assert(front.push(s.last()) =~= s);
    }
}

/// A program that nothing is known of is not taken for running.
pub proof fn law_silence_is_not_running(name: Seq<char>)
    ensures
        !lists_program(None, name),
        !is_running(None),
        !is_running(Some(record::RecordV::Named(Seq::empty()))),
{
}


/// OBS is looked for in order: where the configuration says, in the two usual places, then by both of
/// its names.
pub proof fn law_obs_is_looked_for_in_order(configured: Seq<char>, found: ObsFound)
    requires
        found.usual@.len() == 2,
    ensures
        configured.len() > 0 && found.configured ==> obs_place(configured, found) == Some(configured),
        !(configured.len() > 0 && found.configured) ==> {
            &&& found.usual@[0] ==> obs_place(configured, found) == Some(
                "C:\\Program Files\\obs-studio\\bin\\64bit\\obs64.exe"@,
            )
            &&& !found.usual@[0] && found.usual@[1] ==> obs_place(configured, found) == Some(
                "C:\\Program Files (x86)\\obs-studio\\bin\\64bit\\obs64.exe"@,
            )
            &&& !found.usual@[0] && !found.usual@[1] && found.obs64 is Some ==> obs_place(
                configured,
                found,
            ) == text::opt_view(found.obs64)
            &&& !found.usual@[0] && !found.usual@[1] && found.obs64 is None ==> obs_place(
                configured,
                found,
            ) == text::opt_view(found.obs)
        },
{
    reveal_with_fuel(first_there, 3);
    let paths = usual_obs_paths();
    assert(paths.drop_last().len() == 1);
    assert(paths.drop_last().drop_last().len() == 0);
    assert(paths.drop_last().last() == paths[0]);
}

/// The case of letters plays no part in whether a program is listed: it is, wherever its name stands.
pub proof fn law_a_listed_program_is_running(before: Seq<char>, name: Seq<char>, after: Seq<char>)
    ensures
        lists_program(Some(before + name + after), name),
        lists_program(Some(text::lowered(before + name + after)), name),
{
    let whole = before + name + after;
    let low = text::lowered(whole);
    assert(low =~= text::lowered(before) + text::lowered(name) + text::lowered(after));
    text::lemma_part_is_held(text::lowered(before), text::lowered(name), text::lowered(after));
    assert(text::lowered(low) =~= low);
}

/// The address of Tailscale is the first line of what it printed, if that is an address, without the
/// white space around it.
pub proof fn law_the_first_line_is_the_address(output: Seq<char>, line: Seq<char>)
    ensures
        text::lines_of(output).len() > 0 && text::lines_of(output)[0] == line && address::is_address(
            text::trimmed(line),
        ) ==> printed_address(output) == Some(text::trimmed(line)),
        printed_address(output) matches Some(a) ==> address::is_address(a),
        text::lines_of(output).len() == 0 ==> printed_address(output) is None,
{
}

/// Tailscale runs exactly if the state that it reports is `Running`.
pub proof fn law_only_the_word_running_means_running(fields: Seq<record::FieldV>, state: Seq<char>)
    requires
        record::optional_text(record::asked(fields, "BackendState"@)) == Ok::<
            Option<Seq<char>>,
            (),
        >(Some(state)),
    ensures
        is_running(Some(record::RecordV::Named(fields))) <==> state == "Running"@,
{
}

/// A mark of a run is a file whose name begins with `run_`.
pub proof fn law_marks_begin_with_run(rest: Seq<char>, name: Seq<char>)
    ensures
        is_run_mark("run_"@ + rest),
        is_run_mark(name) ==> name.len() >= 4 && name.take(4) == "run_"@,
{
    reveal_strlit("run_");
    assert(("run_"@ + rest).take(4) =~= "run_"@);
}

/// The script makes a shortcut at the place, to the program, with the arguments, the directory and the
/// description that were given, each quoted, and saves it.
pub proof fn law_the_shortcut_is_made_as_asked(
    shortcut: Seq<char>,
    target: Seq<char>,
    arguments: Seq<char>,
    directory: Seq<char>,
    description: Seq<char>,
    some: bool,
)
    ensures
        ({
            let given = if some {
                Some(arguments)
            } else {
                None
            };
            let script = shortcut_words(shortcut, target, given, directory, description);
            &&& text::holds_text(script, "CreateShortcut('"@ + quoted(shortcut) + "')"@)
            &&& text::holds_text(script, "$s.TargetPath = '"@ + quoted(target))
            &&& some ==> text::holds_text(script, "$s.Arguments = '"@ + quoted(arguments))
            &&& text::holds_text(script, "$s.WorkingDirectory = '"@ + quoted(directory))
            &&& text::holds_text(script, "$s.Description = '"@ + quoted(description))
            &&& text::holds_text(script, "$s.Save()"@)
        }),
{
    let given = if some {
        Some(arguments)
    } else {
        None
    };
    let script = shortcut_words(shortcut, target, given, directory, description);
    let none = Seq::<char>::empty();
    reveal_strlit("$s = (New-Object -ComObject WScript.Shell).CreateShortcut('");
    reveal_strlit("$s = (New-Object -ComObject WScript.Shell).");
    reveal_strlit("CreateShortcut('");
    reveal_strlit("'); $s.TargetPath = '");
    reveal_strlit("')");
    reveal_strlit("; ");
    reveal_strlit("$s.TargetPath = '");
    reveal_strlit("'; $s.Arguments = '");
    reveal_strlit("'; ");
    reveal_strlit("$s.Arguments = '");
    reveal_strlit("'; $s.WorkingDirectory = '");
    reveal_strlit("$s.WorkingDirectory = '");
    reveal_strlit("'; $s.Description = '");
    reveal_strlit("$s.Description = '");
    reveal_strlit("'; $s.Save()");
    reveal_strlit("$s.Save()");
    reveal_strlit("");
    let begin = "$s = (New-Object -ComObject WScript.Shell)."@;
    assert("$s = (New-Object -ComObject WScript.Shell).CreateShortcut('"@ =~= begin
        + "CreateShortcut('"@);
    assert("'); $s.TargetPath = '"@ =~= "')"@ + "; "@ + "$s.TargetPath = '"@);
    assert("'; $s.Arguments = '"@ =~= "'; "@ + "$s.Arguments = '"@);
    assert("'; $s.WorkingDirectory = '"@ =~= "'; "@ + "$s.WorkingDirectory = '"@);
    assert("'; $s.Description = '"@ =~= "'; "@ + "$s.Description = '"@);
    assert("'; $s.Save()"@ =~= "'; "@ + "$s.Save()"@);
    let a = "CreateShortcut('"@ + quoted(shortcut) + "')"@;
    let b = "$s.TargetPath = '"@ + quoted(target);
    let c = "$s.Arguments = '"@ + quoted(arguments);
    let d = "$s.WorkingDirectory = '"@ + quoted(directory);
    let e = "$s.Description = '"@ + quoted(description);
    let f = "$s.Save()"@;
    let semi = "; "@;
    let close = "'; "@;
    let mid = if some {
        close + c
    } else {
        none
    };
    let rest = close + d + close + e + close + f;
    assert(script =~= begin + a + semi + b + mid + rest);
    text::lemma_part_is_held(begin, a, semi + b + mid + rest);
    assert(script =~= begin + a + (semi + b + mid + rest));
    text::lemma_part_is_held(begin + a + semi, b, mid + rest);
    assert(script =~= (begin + a + semi) + b + (mid + rest));
    let front = begin + a + semi + b + mid;
    if some {
        text::lemma_part_is_held(begin + a + semi + b + close, c, rest);
        assert(script =~= (begin + a + semi + b + close) + c + rest);
    }
    text::lemma_part_is_held(front + close, d, close + e + close + f);
    assert(script =~= (front + close) + d + (close + e + close + f));
    text::lemma_part_is_held(front + close + d + close, e, close + f);
    assert(script =~= (front + close + d + close) + e + (close + f));
    text::lemma_part_is_held(front + close + d + close + e + close, f, none);
    assert(script =~= (front + close + d + close + e + close) + f + none);
}

} // verus!
