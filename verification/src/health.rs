//! Watching over the health of the broadcast.
//!
//! The owner of the panel neither sees the actor's screen nor hears their sound. What is plain to
//! the audience, a stuttering picture or a recording that broke off, is invisible to them. This
//! module turns the counters of OBS into alerts.
use vstd::prelude::*;
use crate::number;
use crate::number::Reading;
use crate::preflight;
use crate::text;

verus! {

/// How often the counters are read, in seconds.
pub const SAMPLE_INTERVAL_SECS: u64 = 10;

/// Lost frames raise the alert from this share of a window on, in percent.
pub const FRAMES_WARN_PERCENT: i32 = 1;

/// Lost frames clear the alert up to this share: the bits of 0.2 percent. It is kept apart from the
/// other one so that the alert does not flap around a single limit.
pub const FRAMES_CLEAR_PERCENT_BITS: u64 = 0x3FC9_9999_9999_999A;

/// Free space below this many megabytes raises the alert.
pub const DISK_WARN_MB: i32 = 2048;

/// Free space above this many megabytes clears it.
pub const DISK_CLEAR_MB: i32 = 4096;

/// One reading of the counters of OBS.
#[derive(Debug, Clone, Copy)]
pub struct Sample {
    /// Frames put out since the broadcast began.
    pub total_frames: Reading,
    /// Frames lost of them.
    pub skipped_frames: Reading,
    /// Free disk space, in megabytes.
    pub free_disk_mb: Reading,
    /// Whether the broadcast is running.
    pub streaming: bool,
}

impl Default for Sample {
    fn default() -> (r: Sample)
        ensures
            r.total_frames.bits == 0,
            r.skipped_frames.bits == 0,
            r.free_disk_mb.bits == 0,
            !r.streaming,
    {
        Sample {
            total_frames: Reading::zero(),
            skipped_frames: Reading::zero(),
            free_disk_mb: Reading::zero(),
            streaming: false,
        }
    }
}

/// Something worth saying.
#[derive(Debug, Clone, Copy, PartialEq, Eq, Structural)]
pub enum Alert {
    /// Frames are being lost right now.
    FramesDropping { percent: Reading },
    /// The losses stopped.
    FramesRecovered,
    /// There is little free space.
    DiskLow { free_mb: Reading },
    /// There is enough space again.
    DiskRecovered,
}

impl Alert {
    /// What an alert says.
    pub open spec fn words(self) -> Seq<char> {
        match self {
            Alert::FramesDropping { percent } => "Эфир теряет кадры: "@ + number::one_place(
                percent,
            ) + " % за последние "@ + text::decimal(SAMPLE_INTERVAL_SECS as nat)
                + " секунд. Обычно это нехватка интернета или процессора у актёра."@,
            Alert::FramesRecovered => "Потеря кадров прекратилась"@,
            Alert::DiskLow { free_mb } => "На диске у актёра осталось "@ + number::one_place(
                preflight::gigabytes(free_mb),
            ) + " ГБ. Запись может оборваться."@,
            Alert::DiskRecovered => "Места на диске снова достаточно"@,
        }
    }

    /// What the alert says, to be shown and read aloud.
    pub fn message(&self) -> (r: String)
        ensures
            r@ == self.words(),
    {
        match self {
            Alert::FramesDropping { percent } => {
                let share = percent.with_one_place();
                let seconds = text::number(SAMPLE_INTERVAL_SECS as u128);
                text::join5(
                    "Эфир теряет кадры: ",
                    share.as_str(),
                    " % за последние ",
                    seconds.as_str(),
                    " секунд. Обычно это нехватка интернета или процессора у актёра.",
                )
            },
            Alert::FramesRecovered => "Потеря кадров прекратилась".to_owned(),
            Alert::DiskLow { free_mb } => {
                let gb = preflight::in_gigabytes(free_mb).with_one_place();
                text::join3(
                    "На диске у актёра осталось ",
                    gb.as_str(),
                    " ГБ. Запись может оборваться.",
                )
            },
            Alert::DiskRecovered => "Места на диске снова достаточно".to_owned(),
        }
    }

    /// Whether the alert may interrupt what the screen reader is saying.
    pub open spec fn urgent(self) -> bool {
        self is FramesDropping || self is DiskLow
    }

    /// Whether the alert may interrupt what the screen reader is saying.
    pub fn is_urgent(&self) -> (r: bool)
        ensures
            r == self.urgent(),
    {
        match self {
            Alert::FramesDropping { .. } => true,
            Alert::DiskLow { .. } => true,
            _ => false,
        }
    }
}

/// What the watch keeps between two readings.
#[derive(Debug)]
pub struct HealthWatch {
    pub previous: Option<Sample>,
    /// Whether lost frames were reported and not yet cleared.
    pub frames_alerted: bool,
    /// Whether little space was reported and not yet cleared.
    pub disk_alerted: bool,
}

/// What there is to say about the disk, and whether it stays reported. A reading of zero is none.
pub open spec fn disk_step(alerted: bool, free_mb: Reading) -> (bool, Seq<Alert>) {
    if free_mb.gt(0) && !alerted && free_mb.lt(DISK_WARN_MB as int) {
        (true, seq![Alert::DiskLow { free_mb }])
    } else if free_mb.gt(0) && alerted && free_mb.gt(DISK_CLEAR_MB as int) {
        (false, seq![Alert::DiskRecovered])
    } else {
        (alerted, Seq::empty())
    }
}

/// The share of frames lost between two readings, in percent, if the counters say so: they start
/// again from zero when the broadcast does.
pub open spec fn window(previous: Option<Sample>, sample: Sample) -> Option<Reading> {
    match previous {
        Some(p) => {
            let frames = number::difference(sample.total_frames, p.total_frames);
            let skipped = number::difference(sample.skipped_frames, p.skipped_frames);
            if p.streaming && (frames.gt(0) || frames.nan()) && !skipped.lt(0) {
                Some(number::multiple(number::quotient(skipped, frames), 100))
            } else {
                None
            }
        },
        None => None,
    }
}

/// Whether a share of lost frames raises the alert.
pub open spec fn is_bad(percent: Reading) -> bool {
    !percent.nan() && !percent.lt(FRAMES_WARN_PERCENT as int)
}

/// Whether a share of lost frames clears the alert.
pub open spec fn is_clear(percent: Reading) -> bool {
    !percent.nan() && !percent.exceeds(Reading { bits: FRAMES_CLEAR_PERCENT_BITS })
}

/// What there is to say about lost frames, and whether they stay reported.
///
/// It is the increase since the last reading that counts, not the share since the broadcast began:
/// a bad minute at the start would keep the alert on for hours, and a fresh burst of losses would
/// drown in the large sum.
pub open spec fn frames_step(alerted: bool, previous: Option<Sample>, sample: Sample) -> (
    bool,
    Seq<Alert>,
) {
    if !sample.streaming {
        (false, Seq::empty())
    } else {
        match window(previous, sample) {
            Some(percent) => if !alerted && is_bad(percent) {
                (true, seq![Alert::FramesDropping { percent }])
            } else if alerted && is_clear(percent) {
                (false, seq![Alert::FramesRecovered])
            } else {
                (alerted, Seq::empty())
            },
            None => (alerted, Seq::empty()),
        }
    }
}

impl HealthWatch {
    /// A watch that has seen nothing yet.
    pub fn new() -> (r: HealthWatch)
        ensures
            r.previous is None,
            !r.frames_alerted,
            !r.disk_alerted,
    {
        HealthWatch { previous: None, frames_alerted: false, disk_alerted: false }
    }

    /// Takes the next reading and gives back what is worth saying.
    pub fn observe(&mut self, sample: Sample) -> (r: Vec<Alert>)
        ensures
            final(self).previous == Some(sample),
            final(self).disk_alerted == disk_step(old(self).disk_alerted, sample.free_disk_mb).0,
            final(self).frames_alerted == frames_step(
                old(self).frames_alerted,
                old(self).previous,
                sample,
            ).0,
            r@ == disk_step(old(self).disk_alerted, sample.free_disk_mb).1 + frames_step(
                old(self).frames_alerted,
                old(self).previous,
                sample,
            ).1,
    {
        let mut alerts: Vec<Alert> = Vec::new();
        let previous = self.previous;
        self.previous = Some(sample);
        let ghost disk = disk_step(self.disk_alerted, sample.free_disk_mb);
        let ghost frames = frames_step(self.frames_alerted, previous, sample);
        if sample.free_disk_mb.above(0) {
            if !self.disk_alerted && sample.free_disk_mb.below(DISK_WARN_MB) {
                self.disk_alerted = true;
                alerts.push(Alert::DiskLow { free_mb: sample.free_disk_mb });
            } else if self.disk_alerted && sample.free_disk_mb.above(DISK_CLEAR_MB) {
                self.disk_alerted = false;
                alerts.push(Alert::DiskRecovered);
            }
        }
        assert(alerts@ =~= disk.1);
        if !sample.streaming {
            self.frames_alerted = false;
            assert(alerts@ =~= disk.1 + frames.1);
            return alerts;
        }
        if let Some(p) = previous {
            if p.streaming {
                let put_out = sample.total_frames.minus(&p.total_frames);
                let lost = sample.skipped_frames.minus(&p.skipped_frames);
                if (put_out.above(0) || put_out.is_nan()) && !lost.below(0) {
                    let percent = lost.over(&put_out).times(100);
                    let limit = Reading { bits: FRAMES_CLEAR_PERCENT_BITS };
                    if !self.frames_alerted && !percent.is_nan() && !percent.below(
                        FRAMES_WARN_PERCENT,
                    ) {
                        self.frames_alerted = true;
                        alerts.push(Alert::FramesDropping { percent });
                    } else if self.frames_alerted && !percent.is_nan() && !percent.is_above(
                        &limit,
                    ) {
                        self.frames_alerted = false;
                        alerts.push(Alert::FramesRecovered);
                    }
                }
            }
        }
        assert(alerts@ =~= disk.1 + frames.1);
        alerts
    }
}

// ---------------------------------------------------------------------------------------------
// Laws
// ---------------------------------------------------------------------------------------------
/// While lost frames stay reported they are not reported again, and an all-clear comes only after
/// a report; the same holds of the disk.
pub proof fn law_alerts_alternate(
    alerted: bool,
    previous: Option<Sample>,
    sample: Sample,
    low: bool,
)
    ensures
        forall|i: int|
            0 <= i < frames_step(alerted, previous, sample).1.len() ==> {
                &&& (#[trigger] frames_step(alerted, previous, sample).1[i]) is FramesDropping
                    ==> !alerted && frames_step(alerted, previous, sample).0
                &&& frames_step(alerted, previous, sample).1[i] is FramesRecovered ==> alerted
                    && !frames_step(alerted, previous, sample).0
            },
        forall|i: int|
            0 <= i < disk_step(low, sample.free_disk_mb).1.len() ==> {
                &&& (#[trigger] disk_step(low, sample.free_disk_mb).1[i]) is DiskLow ==> !low
                    && disk_step(low, sample.free_disk_mb).0
                &&& disk_step(low, sample.free_disk_mb).1[i] is DiskRecovered ==> low
                    && !disk_step(low, sample.free_disk_mb).0
            },
{
}

/// Between the two limits nothing changes: neither alert flaps.
pub proof fn law_no_flapping_between_limits(
    alerted: bool,
    previous: Option<Sample>,
    sample: Sample,
    low: bool,
)
    requires
        sample.streaming,
        window(previous, sample) is Some ==> {
            &&& !is_bad(window(previous, sample)->0)
            &&& !is_clear(window(previous, sample)->0)
        },
        !sample.free_disk_mb.lt(DISK_WARN_MB as int),
        !sample.free_disk_mb.gt(DISK_CLEAR_MB as int),
    ensures
        frames_step(alerted, previous, sample) == (alerted, Seq::<Alert>::empty()),
        disk_step(low, sample.free_disk_mb) == (low, Seq::<Alert>::empty()),
{
}

/// Nothing is said of frames on the first reading of a broadcast, whatever the counters hold.
pub proof fn law_first_sample_is_quiet(alerted: bool, previous: Option<Sample>, sample: Sample)
    requires
        previous is None || !previous->0.streaming,
    ensures
        frames_step(alerted, previous, sample).1.len() == 0,
{
}

/// When the broadcast stops, lost frames are no longer reported.
pub proof fn law_stopping_clears_frames(alerted: bool, previous: Option<Sample>, sample: Sample)
    requires
        !sample.streaming,
    ensures
        !frames_step(alerted, previous, sample).0,
{
}


/// The disk alert comes on below two gigabytes and goes off above four; a reading of zero says
/// nothing. The alert tells the space that was read.
pub proof fn law_the_disk_has_two_limits(free_mb: Reading)
    ensures
        free_mb.gt(0) && free_mb.lt(2048) ==> disk_step(false, free_mb) == (
            true,
            seq![(Alert::DiskLow { free_mb })],
        ),
        free_mb.gt(4096) && free_mb.gt(0) ==> disk_step(true, free_mb) == (
            false,
            seq![Alert::DiskRecovered],
        ),
        !free_mb.lt(2048) || !free_mb.gt(0) ==> disk_step(false, free_mb) == (
            false,
            Seq::<Alert>::empty(),
        ),
        !free_mb.gt(4096) ==> disk_step(true, free_mb) == (true, Seq::<Alert>::empty()),
{
}

/// The alert about frames comes on from one percent of the window on, and goes off at a fifth of a
/// percent; it tells the share that was lost.
pub proof fn law_lost_frames_have_two_limits(previous: Option<Sample>, sample: Sample, percent: Reading)
    requires
        sample.streaming,
        window(previous, sample) == Some(percent),
        !percent.nan(),
    ensures
        percent.counted() >= number::one() <==> frames_step(false, previous, sample) == (
            true,
            seq![(Alert::FramesDropping { percent })],
        ),
        percent.counted() < number::one() ==> frames_step(false, previous, sample) == (
            false,
            Seq::<Alert>::empty(),
        ),
        percent.counted() <= (Reading { bits: 0x3FC9_9999_9999_999A }).counted() ==> frames_step(
            true,
            previous,
            sample,
        ) == (false, seq![Alert::FramesRecovered]),
        percent.counted() > (Reading { bits: 0x3FC9_9999_9999_999A }).counted() ==> frames_step(
            true,
            previous,
            sample,
        ) == (true, Seq::<Alert>::empty()),
{
    assert(1 * number::one() == number::one());
    assert(seq![(Alert::FramesDropping { percent })].len() == 1);
}

/// The share is that of the frames since the last reading: what was lost or put out before plays no
/// part. Without new frames, after a counter went back, and where no broadcast ran before, there is
/// no share.
pub proof fn law_only_new_losses_count(p: Sample, sample: Sample)
    ensures
        window(None, sample) is None,
        !p.streaming ==> window(Some(p), sample) is None,
        p.streaming ==> ({
            let frames = number::difference(sample.total_frames, p.total_frames);
            let lost = number::difference(sample.skipped_frames, p.skipped_frames);
            &&& frames.gt(0) && !lost.lt(0) ==> window(Some(p), sample) == Some(
                number::multiple(number::quotient(lost, frames), 100),
            )
            &&& lost.lt(0) ==> window(Some(p), sample) is None
            &&& !frames.gt(0) && !frames.nan() ==> window(Some(p), sample) is None
        }),
{
}

/// What is lost raises the alert and what is won back does not interrupt; each alert says its figure.
pub proof fn law_alerts_say_their_figures(a: Reading)
    ensures
        (Alert::FramesDropping { percent: a }).urgent() && (Alert::DiskLow { free_mb: a }).urgent(),
        !Alert::FramesRecovered.urgent() && !Alert::DiskRecovered.urgent(),
        text::holds_text((Alert::FramesDropping { percent: a }).words(), number::one_place(a)),
        text::holds_text((Alert::FramesDropping { percent: a }).words(), text::decimal(10)),
        text::holds_text(
            (Alert::DiskLow { free_mb: a }).words(),
            number::one_place(preflight::gigabytes(a)),
        ),
        Alert::FramesRecovered.words() == "Потеря кадров прекратилась"@,
        Alert::DiskRecovered.words() == "Места на диске снова достаточно"@,
{
    let head = "Эфир теряет кадры: "@;
    let share = number::one_place(a);
    let mid = " % за последние "@;
    let secs = text::decimal(10);
    let tail = " секунд. Обычно это нехватка интернета или процессора у актёра."@;
    text::lemma_part_is_held(head, share, mid + secs + tail);
    assert(head + share + (mid + secs + tail) =~= head + share + mid + secs + tail);
    text::lemma_part_is_held(head + share + mid, secs, tail);
    text::lemma_part_is_held(
        "На диске у актёра осталось "@,
        number::one_place(preflight::gigabytes(a)),
        " ГБ. Запись может оборваться."@,
    );
}

} // verus!
