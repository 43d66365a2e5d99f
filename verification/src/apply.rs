//! Applying a palette to a list of targets, one after the other.
//!
//! The library reads and writes no file. It says what is to be done next, and
//! the program around it does that and reports back: `begin` gives the first
//! step, `after_read` and `after_write` the step that follows a read or a write.
//! The targets are taken in their order, and the first failure ends the run and
//! names its target. What was written before stays written.

use vstd::prelude::*;
use crate::errors::IoError;
use crate::palette::{is_palette, Palette, PaletteView};
use crate::status_bar::{polybar_render, polybar_text};
use crate::target::AxtcTarget;
use crate::patch::has_marker;
use crate::terminal::{alacritty_patch, alacritty_text, lemma_alacritty_twice, marker};
use crate::text::stripped_lines;

verus! {

/// What the program around the library does next.
#[derive(Debug, PartialEq, Eq)]
pub enum Step {
    /// Read the file of the target at this index, and report with `after_read`.
    Read(usize),
    /// Write this content to the file of the target at this index, in place of
    /// what the file held, and report with `after_write`.
    Write(usize, String),
    /// Stop: all targets are written, or the run failed with this error.
    Done(Result<(), IoError>),
}

/// What a step stands for.
pub enum Plan {
    Read(usize),
    Write(usize, Seq<char>),
    Done(Result<(), IoError>),
}

impl View for Step {
    type V = Plan;

    open spec fn view(&self) -> Plan {
        match self {
            Step::Read(index) => Plan::Read(*index),
            Step::Write(index, content) => Plan::Write(*index, content@),
            Step::Done(result) => Plan::Done(*result),
        }
    }
}

/// The content that the writer of `target` gives its file, where the file held
/// `existing` (`None`: it could not be read), or the error with which the
/// writer fails. `index` is the target's place in the list.
pub open spec fn output(
    p: PaletteView,
    target: AxtcTarget,
    existing: Option<Seq<char>>,
    index: usize,
) -> Result<Seq<char>, IoError> {
    match target {
        AxtcTarget::Alacritty(_) => match existing {
            Some(text) => Ok(alacritty_text(p, text)),
            None => Err(IoError::Read(index)),
        },
        AxtcTarget::Polybar(_) => Ok(polybar_text(p)),
        AxtcTarget::Herbstluftwm(_) => Err(IoError::Unsupported(index)),
        AxtcTarget::Neovim(_) => Err(IoError::Unsupported(index)),
    }
}

/// The step for a writer's verdict on the target at `index`.
pub open spec fn write_or_stop(index: usize, verdict: Result<Seq<char>, IoError>) -> Plan {
    match verdict {
        Ok(content) => Plan::Write(index, content),
        Err(e) => Plan::Done(Err(e)),
    }
}

/// The step with which the target at `index` is taken up: the end behind the
/// last target, a read where the writer starts from the file, else the write.
pub open spec fn enter(p: PaletteView, targets: Seq<AxtcTarget>, index: int) -> Plan {
    if index < 0 || index >= targets.len() || index > usize::MAX {
        Plan::Done(Ok(()))
    } else if targets[index].reads_first() {
        Plan::Read(index as usize)
    } else {
        write_or_stop(index as usize, output(p, targets[index], None, index as usize))
    }
}

/// The step that follows the read for the target at `index`.
pub open spec fn read_done(
    p: PaletteView,
    targets: Seq<AxtcTarget>,
    index: usize,
    existing: Option<Seq<char>>,
) -> Plan {
    if index >= targets.len() {
        Plan::Done(Ok(()))
    } else {
        write_or_stop(index, output(p, targets[index as int], existing, index))
    }
}

/// The step that follows the write for the target at `index`.
pub open spec fn write_done(
    p: PaletteView,
    targets: Seq<AxtcTarget>,
    index: usize,
    written: bool,
) -> Plan {
    if index >= targets.len() {
        Plan::Done(Ok(()))
    } else if written {
        enter(p, targets, index + 1)
    } else {
        Plan::Done(Err(IoError::Write(index)))
    }
}

/// Runs the writer of `target`: the new content of its file, or the writer's
/// error. `existing` is what the file held, `None` where it could not be read.
pub fn render(palette: &Palette, target: &AxtcTarget, existing: Option<&str>, index: usize) -> (r:
    Result<String, IoError>)
    ensures
        match r {
            Ok(content) => output(palette@, *target, view_of(existing), index) == Ok::<
                Seq<char>,
                IoError,
            >(content@),
            Err(e) => output(palette@, *target, view_of(existing), index) == Err::<
                Seq<char>,
                IoError,
            >(e),
        },
{
    match target {
        AxtcTarget::Alacritty(_) => match existing {
            Some(text) => Ok(alacritty_patch(palette, text).text),
            None => Err(IoError::Read(index)),
        },
        AxtcTarget::Polybar(_) => Ok(polybar_render(palette)),
        AxtcTarget::Herbstluftwm(_) => Err(IoError::Unsupported(index)),
        AxtcTarget::Neovim(_) => Err(IoError::Unsupported(index)),
    }
}

/// The characters of a text that may be missing.
pub open spec fn view_of(existing: Option<&str>) -> Option<Seq<char>> {
    match existing {
        Some(text) => Some(text@),
        None => None,
    }
}

/// The step for a writer's verdict.
fn step_for(index: usize, verdict: Result<String, IoError>) -> (step: Step)
    ensures
        step@ == write_or_stop(
            index,
            match verdict {
                Ok(content) => Ok(content@),
                Err(e) => Err(e),
            },
        ),
{
    match verdict {
        Ok(content) => Step::Write(index, content),
        Err(e) => Step::Done(Err(e)),
    }
}

/// Takes up the target at `index`.
fn take_up(palette: &Palette, targets: &Vec<AxtcTarget>, index: usize) -> (step: Step)
    ensures
        step@ == enter(palette@, targets@, index as int),
{
    if index >= targets.len() {
        Step::Done(Ok(()))
    } else if targets[index].needs_existing() {
        Step::Read(index)
    } else {
        step_for(index, render(palette, &targets[index], None, index))
    }
}

/// The first step of a run over `targets`.
pub fn begin(palette: &Palette, targets: &Vec<AxtcTarget>) -> (step: Step)
    ensures
        step@ == enter(palette@, targets@, 0),
{
    take_up(palette, targets, 0)
}

/// The step that follows the read for the target at `index`: the write of the
/// new content, or the end of the run where the file could not be read.
pub fn after_read(
    palette: &Palette,
    targets: &Vec<AxtcTarget>,
    index: usize,
    existing: Option<&str>,
) -> (step: Step)
    ensures
        step@ == read_done(palette@, targets@, index, view_of(existing)),
{
    if index >= targets.len() {
        Step::Done(Ok(()))
    } else {
        step_for(index, render(palette, &targets[index], existing, index))
    }
}

/// The step that follows the write for the target at `index`: the next target
/// is taken up, or the run ends where the file could not be written.
pub fn after_write(palette: &Palette, targets: &Vec<AxtcTarget>, index: usize, written: bool) -> (step:
    Step)
    ensures
        step@ == write_done(palette@, targets@, index, written),
{
    if index >= targets.len() {
        Step::Done(Ok(()))
    } else if written {
        take_up(palette, targets, index + 1)
    } else {
        Step::Done(Err(IoError::Write(index)))
    }
}

/// What a run meets outside the library: for each target, what its file holds
/// (`None`: it cannot be read) and whether a write to it succeeds.
pub struct Disk {
    pub existing: Seq<Option<Seq<char>>>,
    pub writable: Seq<bool>,
}

/// What a run does: the writes that succeeded, in order, each with the index of
/// its target and the content, and the result.
pub struct Run {
    pub written: Seq<(usize, Seq<char>)>,
    pub result: Result<(), IoError>,
}

/// Applying the palette to the targets from `index` on, one after the other:
/// each target's writer is run and its file written, and the first failure ends
/// the run.
pub open spec fn apply_from(p: PaletteView, targets: Seq<AxtcTarget>, disk: Disk, index: int) -> Run
    decreases targets.len() - index,
{
    if index < 0 || index >= targets.len() || index > usize::MAX {
        Run { written: Seq::empty(), result: Ok(()) }
    } else {
        let existing = if targets[index].reads_first() {
            disk.existing[index]
        } else {
            None
        };
        match output(p, targets[index], existing, index as usize) {
            Err(e) => Run { written: Seq::empty(), result: Err(e) },
            Ok(content) => if disk.writable[index] {
                let rest = apply_from(p, targets, disk, index + 1);
                Run {
                    written: seq![(index as usize, content)] + rest.written,
                    result: rest.result,
                }
            } else {
                Run { written: Seq::empty(), result: Err(IoError::Write(index as usize)) }
            },
        }
    }
}

/// Applying the palette to all the targets.
pub open spec fn apply(p: PaletteView, targets: Seq<AxtcTarget>, disk: Disk) -> Run {
    apply_from(p, targets, disk, 0)
}

/// How far a step is from the end of a run over `count` targets.
pub open spec fn weight(plan: Plan, count: nat) -> nat {
    match plan {
        Plan::Done(_) => 0,
        Plan::Read(index) => if index < count {
            (2 * (count - index) + 1) as nat
        } else {
            1
        },
        Plan::Write(index, _) => if index < count {
            (2 * (count - index)) as nat
        } else {
            1
        },
    }
}

/// What comes of following the steps from `plan` on, where each read and each
/// write fares as `disk` says.
pub open spec fn drive(p: PaletteView, targets: Seq<AxtcTarget>, disk: Disk, plan: Plan) -> Run
    decreases weight(plan, targets.len()),
{
    match plan {
        Plan::Done(result) => Run { written: Seq::empty(), result },
        Plan::Read(index) => drive(
            p,
            targets,
            disk,
            read_done(p, targets, index, disk.existing[index as int]),
        ),
        Plan::Write(index, content) => if disk.writable[index as int] {
            let rest = drive(p, targets, disk, write_done(p, targets, index, true));
            Run { written: seq![(index, content)] + rest.written, result: rest.result }
        } else {
            drive(p, targets, disk, write_done(p, targets, index, false))
        },
    }
}

/// Following the steps applies the palette to the targets in order: from
/// whichever target a run is taken up, the steps write what applying from that
/// target writes, and end as it ends.
pub proof fn lemma_steps_apply_in_order(
    p: PaletteView,
    targets: Seq<AxtcTarget>,
    disk: Disk,
    index: int,
)
    requires
        0 <= index <= targets.len(),
    ensures
        drive(p, targets, disk, enter(p, targets, index)) == apply_from(p, targets, disk, index),
    decreases targets.len() - index,
{
    if index < targets.len() && index <= usize::MAX {
        lemma_steps_apply_in_order(p, targets, disk, index + 1);
        let at = index as usize;
        let existing = if targets[index].reads_first() {
            disk.existing[index]
        } else {
            None
        };
        let write = write_or_stop(at, output(p, targets[index], existing, at));
        if write is Write && !disk.writable[index] {
            assert(drive(p, targets, disk, write) == drive(
                p,
                targets,
                disk,
                Plan::Done(Err(IoError::Write(at))),
            ));
        }
    }
}

/// A run from the first step on does what applying the palette to all the
/// targets does.
pub proof fn lemma_run_applies(p: PaletteView, targets: Seq<AxtcTarget>, disk: Disk)
    ensures
        drive(p, targets, disk, enter(p, targets, 0)) == apply(p, targets, disk),
{
    lemma_steps_apply_in_order(p, targets, disk, 0);
}

/// Applying writes the targets in their order and stops at the first failure.
/// The writes are those of the targets from `index` on, one each and in order,
/// each with the content that the target's writer gives; the run succeeds
/// exactly where every target was written; and an error names the first target
/// that was not.
pub proof fn lemma_apply_stops_at_first_failure(
    p: PaletteView,
    targets: Seq<AxtcTarget>,
    disk: Disk,
    index: int,
)
    requires
        0 <= index <= targets.len() <= usize::MAX,
    ensures
        ({
            let run = apply_from(p, targets, disk, index);
            &&& index + run.written.len() <= targets.len()
            &&& forall|k: int|
                0 <= k < run.written.len() ==> {
                    let target = targets[index + k];
                    let existing = if target.reads_first() {
                        disk.existing[index + k]
                    } else {
                        None
                    };
                    &&& (#[trigger] run.written[k]).0 == index + k
                    &&& output(p, target, existing, (index + k) as usize) == Ok::<
                        Seq<char>,
                        IoError,
                    >(run.written[k].1)
                    &&& disk.writable[index + k]
                }
            &&& run.result is Ok <==> index + run.written.len() == targets.len()
            &&& run.result matches Err(e) ==> e.at() == index + run.written.len()
        }),
    decreases targets.len() - index,
{
    if index < targets.len() {
        lemma_apply_stops_at_first_failure(p, targets, disk, index + 1);
    }
}

/// The status bar's file depends on the palette alone: whatever the file held,
/// and whether or not it could be read, it is given the same content. Writing
/// the same palette a second time therefore leaves the file as the first time.
pub proof fn lemma_polybar_ignores_existing(
    p: PaletteView,
    path: String,
    first: Option<Seq<char>>,
    second: Option<Seq<char>>,
    index: usize,
)
    ensures
        output(p, AxtcTarget::Polybar(path), first, index) == Ok::<Seq<char>, IoError>(
            polybar_text(p),
        ),
        output(p, AxtcTarget::Polybar(path), first, index) == output(
            p,
            AxtcTarget::Polybar(path),
            second,
            index,
        ),
{
}

/// A terminal file without a line `colors:` stays as it was: the content that
/// its writer gives it is the text that it held, character for character,
/// whatever the palette.
pub proof fn lemma_output_without_marker(
    p: PaletteView,
    path: String,
    text: Seq<char>,
    index: usize,
)
    requires
        !has_marker(stripped_lines(text), marker()),
    ensures
        output(p, AxtcTarget::Alacritty(path), Some(text), index) == Ok::<Seq<char>, IoError>(
            text,
        ),
{
}

/// A writer that ran twice on its own file writes the second time what it wrote
/// the first time: for every target with a writer, the output for a file that
/// holds the first output is that output again.
pub proof fn lemma_output_twice(
    p: PaletteView,
    target: AxtcTarget,
    existing: Option<Seq<char>>,
    index: usize,
)
    requires
        is_palette(p),
    ensures
        output(p, target, existing, index) matches Ok(content) ==> output(
            p,
            target,
            Some(content),
            index,
        ) == Ok::<Seq<char>, IoError>(content),
{
    if let Some(text) = existing {
        lemma_alacritty_twice(p, text);
    }
}

} // verus!
