//! The tail of a log.
use vstd::prelude::*;
use crate::text;

verus! {

/// How many daily files are kept: enough to look into the day before yesterday.
pub const LOG_FILES_KEPT: usize = 7;

/// How many bytes are read from the end of a log.
pub const LOG_TAIL_BYTES: u64 = 262_144;

/// A file in the directory of logs.
#[derive(Debug)]
pub struct LogFile {
    pub name: String,
    /// When it was written last, if that is known.
    pub modified: Option<u64>,
}

/// Whether a file is a log of that name. The date is added to the name, so that it is only the
/// beginning.
pub open spec fn is_log(file: LogFile, name: Seq<char>) -> bool {
    name.is_prefix_of(file.name@) && file.modified is Some
}

/// Whether the newest log is the file at a place: none is newer, and none before it is as new.
pub open spec fn is_newest(files: Seq<LogFile>, name: Seq<char>, at: int) -> bool {
    &&& 0 <= at < files.len()
    &&& is_log(files[at], name)
    &&& forall|j: int|
        0 <= j < files.len() && is_log(#[trigger] files[j], name) ==> files[j].modified->0
            <= files[at].modified->0
    &&& forall|j: int|
        0 <= j < at && is_log(#[trigger] files[j], name) ==> files[j].modified->0
            < files[at].modified->0
}

/// The newest log of that name.
pub fn newest_log_file(files: &Vec<LogFile>, name: &str) -> (r: Option<usize>)
    ensures
        match r {
            Some(at) => is_newest(files@, name@, at as int),
            None => forall|j: int|
                0 <= j < files@.len() ==> !is_log(#[trigger] files@[j], name@),
        },
{
    let mut best: Option<(u64, usize)> = None;
    let mut i: usize = 0;
    while i < files.len()
        invariant
            i <= files@.len(),
            match best {
                Some((t, at)) => {
                    &&& at < i
                    &&& is_log(files@[at as int], name@)
                    &&& files@[at as int].modified == Some(t)
                    &&& forall|j: int|
                        0 <= j < i && is_log(#[trigger] files@[j], name@)
                            ==> files@[j].modified->0 <= t
                    &&& forall|j: int|
                        0 <= j < at && is_log(#[trigger] files@[j], name@)
                            ==> files@[j].modified->0 < t
                },
                None => forall|j: int| 0 <= j < i ==> !is_log(#[trigger] files@[j], name@),
            },
        decreases files.len() - i,
    {
        if text::starts_with(files[i].name.as_str(), name) {
            if let Some(t) = files[i].modified {
                let newer = match best {
                    Some((b, _)) => t > b,
                    None => true,
                };
                if newer {
                    best = Some((t, i));
                }
            }
        }
        i = i + 1;
    }
    match best {
        Some((_, at)) => Some(at),
        None => None,
    }
}

/// Where to begin reading a log of a size: so many bytes before its end.
pub fn tail_start(size: u64) -> (r: u64)
    ensures
        r == if size > LOG_TAIL_BYTES {
            (size - LOG_TAIL_BYTES) as u64
        } else {
            0
        },
{
    if size > LOG_TAIL_BYTES {
        size - LOG_TAIL_BYTES
    } else {
        0
    }
}

/// The last lines of a text, at most so many. Where the text begins in the middle of a log, its
/// first line may be torn and is left out.
pub open spec fn last_lines(s: Seq<char>, torn: bool, max_lines: nat) -> Seq<Seq<char>> {
    let all = text::lines_of(s);
    let whole = if torn && all.len() > 0 {
        all.skip(1)
    } else {
        all
    };
    if whole.len() > max_lines {
        whole.skip(whole.len() - max_lines)
    } else {
        whole
    }
}

/// The last lines of what was read from the end of a log.
pub fn log_tail(read: &str, torn: bool, max_lines: usize) -> (r: String)
    ensures
        r@ == text::joined(last_lines(read@, torn, max_lines as nat), "\n"@),
{
    let lines = text::lines(read);
    let ghost all = text::views(lines@);
    let first: usize = if torn && lines.len() > 0 {
        1
    } else {
        0
    };
    let count: usize = lines.len() - first;
    let start: usize = if count > max_lines {
        first + (count - max_lines)
    } else {
        first
    };
    let mut kept: Vec<String> = Vec::new();
    let mut i: usize = start;
    while i < lines.len()
        invariant
            start <= i <= lines@.len(),
            all == text::views(lines@),
            kept@.len() == i - start,
            forall|k: int| 0 <= k < kept@.len() ==> (#[trigger] kept@[k])@ == all[start + k],
        decreases lines.len() - i,
    {
        kept.push(lines[i].as_str().to_owned());
        i = i + 1;
    }
    assert(text::views(kept@) =~= last_lines(read@, torn, max_lines as nat));
    text::join(&kept, "\n")
}

/// What to say where there is no log to read.
#[derive(Debug, Clone, Copy, PartialEq, Eq, Structural)]
pub enum NoLog {
    /// None was written yet.
    Missing,
    /// It could not be read.
    Unreadable,
}

/// What to say where there is no log to read.
pub fn no_log(why: NoLog) -> (r: &'static str)
    ensures
        r@ == (match why {
            NoLog::Missing => "лог ещё не создан"@,
            NoLog::Unreadable => "лог не удалось прочитать"@,
        }),
{
    match why {
        NoLog::Missing => "лог ещё не создан",
        NoLog::Unreadable => "лог не удалось прочитать",
    }
}

/// What to say of a log that could not be opened.
pub fn log_unavailable(path: &str) -> (r: String)
    ensures
        r@ == "лог недоступен: "@ + path@,
{
    text::join2("лог недоступен: ", path)
}

// ---------------------------------------------------------------------------------------------
// Laws
// ---------------------------------------------------------------------------------------------
/// The tail is the end of the log: its last line is the log's last line, and it has no more lines
/// than asked for.
pub proof fn law_tail_is_the_end(s: Seq<char>, torn: bool, max_lines: nat)
    ensures
        last_lines(s, torn, max_lines).len() <= max_lines,
        last_lines(s, torn, max_lines).len() > 0 ==> last_lines(s, torn, max_lines).last()
            == text::lines_of(s).last(),
        !torn && text::lines_of(s).len() <= max_lines ==> last_lines(s, torn, max_lines)
            == text::lines_of(s),
{
}


/// A log is known by the beginning of its name, and only if the moment of its writing is known.
pub proof fn law_a_log_is_known_by_its_name(file: LogFile, name: Seq<char>, rest: Seq<char>)
    ensures
        file.name@ == name + rest && file.modified is Some ==> is_log(file, name),
        file.modified is None ==> !is_log(file, name),
        is_log(file, name) ==> file.name@.take(name.len() as int) == name,
{
    assert((name + rest).take(name.len() as int) =~= name);
}

/// The tail is a part of the log without gaps: its lines are the last ones in their order, and as many
/// as asked for where there are so many whole ones.
pub proof fn law_no_line_is_missing_in_the_tail(s: Seq<char>, torn: bool, max_lines: nat, i: int)
    ensures
        ({
            let all = text::lines_of(s);
            let tail = last_lines(s, torn, max_lines);
            &&& 0 <= i < tail.len() ==> tail[i] == all[all.len() - tail.len() + i]
            &&& !torn && all.len() >= max_lines ==> tail.len() == max_lines
            &&& torn && all.len() > max_lines ==> tail.len() == max_lines
            &&& torn && 0 < all.len() <= max_lines ==> tail.len() == all.len() - 1
        }),
{
}

/// The newest log is the only one of its kind: no two places have it.
pub proof fn law_the_newest_log_is_one(files: Seq<LogFile>, name: Seq<char>, a: int, b: int)
    requires
        is_newest(files, name, a),
        is_newest(files, name, b),
    ensures
        a == b,
{
}


/// A week of files is kept, and a quarter of a megabyte is read from the end of one.
pub proof fn law_logs_have_their_limits()
    ensures
        LOG_FILES_KEPT == 7,
        LOG_TAIL_BYTES == 256 * 1024,
{
}

} // verus!
