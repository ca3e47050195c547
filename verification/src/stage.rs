//! The stage: the presentation mode of the scene and the warp of each
//! terminal's surface, as commands set them.
//!
//! The mode is the scene's. A warp is the arrival terminal's own: a command
//! shapes the surface of the terminal that its bytes came through, and no
//! other. A reset is scene-wide.

use vstd::prelude::*;
use crate::ai::AiCommand;
use crate::identity::{IngressSource, TerminalId, TerminalIdentity};
use crate::number::{law_clamp_lands_in_range, Single, ONE_BITS};
use crate::osc::RattyAiCommand;
use crate::query::{reply_view, token_view, Code, LogState, Reject, Reply, ReplyLog, ReplyView};
use crate::scene::{parse_mode, TerminalPresentationMode};

verus! {

/// A terminal on the stage.
#[derive(Clone, Copy, Debug)]
pub struct StageSeat {
    /// Who sits there.
    pub identity: TerminalIdentity,
    /// The warp of its surface, from zero to one.
    pub warp: Single,
    /// Whether it must be painted again.
    pub redraw: bool,
}

/// What a command asks of the stage, beyond the seats.
#[derive(Clone, Copy, Debug, PartialEq, Eq, Structural)]
pub enum StageAction {
    /// Change the presentation mode; [`settle_mode_change`] says what follows.
    ChangeMode(TerminalPresentationMode),
    /// Stop a camera move.
    StopTween,
    /// Back to the flat mode, with the default view and nothing moving.
    ResetStage,
}

/// What the stage organ holds.
pub struct StageWorld {
    /// The terminals.
    pub seats: Seq<StageSeat>,
    /// What is left to do, in order.
    pub actions: Seq<StageAction>,
}

/// The index of a terminal's seat.
pub open spec fn stage_seat(seats: Seq<StageSeat>, id: TerminalId) -> Option<int>
    decreases seats.len(),
{
    if seats.len() == 0 {
        None
    } else {
        match stage_seat(seats.drop_last(), id) {
            Some(i) => Some(i),
            None => if seats.last().identity.terminal_id() == id {
                Some(seats.len() - 1)
            } else {
                None
            },
        }
    }
}

proof fn lemma_stage_seat(seats: Seq<StageSeat>, id: TerminalId)
    ensures
        match stage_seat(seats, id) {
            Some(i) => 0 <= i < seats.len() && seats[i].identity.terminal_id() == id && forall|j: int|
                0 <= j < i ==> (#[trigger] seats[j]).identity.terminal_id() != id,
            None => forall|j: int|
                0 <= j < seats.len() ==> (#[trigger] seats[j]).identity.terminal_id() != id,
        },
    decreases seats.len(),
{
    if seats.len() > 0 {
        lemma_stage_seat(seats.drop_last(), id);
        assert forall|j: int| 0 <= j < seats.len() - 1 implies #[trigger] seats[j]
            == seats.drop_last()[j] by {}
    }
}

/// A warp within its range.
pub open spec fn warped(intensity: Single) -> Single {
    intensity.clamped(Single { bits: 0 }, Single { bits: ONE_BITS })
}

/// The sentence for a mode that does not exist.
pub open spec fn unknown_mode(mode: Seq<char>) -> Seq<char> {
    "unknown mode '"@ + mode + "' (2d, 3d, mobius)"@
}

/// The seats, each to be painted again.
pub open spec fn repainted(seats: Seq<StageSeat>) -> Seq<StageSeat> {
    seats.map_values(|seat: StageSeat| StageSeat { redraw: true, ..seat })
}

/// The seats, each flat and to be painted again.
pub open spec fn flattened(seats: Seq<StageSeat>) -> Seq<StageSeat> {
    seats.map_values(
        |seat: StageSeat| StageSeat { warp: Single { bits: 0 }, redraw: true, ..seat },
    )
}

impl StageWorld {
    /// What a command does to the stage, and what is answered. A warp from a
    /// terminal that is gone does nothing at all.
    pub open spec fn step(self, source: IngressSource, command: RattyAiCommand) -> (
        StageWorld,
        Option<ReplyView>,
    ) {
        match command {
            RattyAiCommand::SetMode { mode } => match TerminalPresentationMode::named(mode@) {
                Some(target) => (
                    StageWorld {
                        actions: self.actions.push(StageAction::ChangeMode(target)),
                        ..self
                    },
                    Some(ReplyView::Commit),
                ),
                None => (
                    self,
                    Some(ReplyView::Refused("mode"@, Code::BadMode, unknown_mode(mode@))),
                ),
            },
            RattyAiCommand::SetWarp { intensity } => match stage_seat(
                self.seats,
                source.terminal_id(),
            ) {
                Some(i) => (
                    StageWorld {
                        seats: self.seats.update(
                            i,
                            StageSeat { warp: warped(intensity), redraw: true, ..self.seats[i] },
                        ),
                        actions: self.actions.push(StageAction::StopTween),
                    },
                    Some(ReplyView::Commit),
                ),
                None => (self, None),
            },
            RattyAiCommand::Reset => (
                StageWorld {
                    seats: flattened(self.seats),
                    actions: self.actions.push(StageAction::ResetStage),
                },
                Some(ReplyView::Commit),
            ),
            _ => (self, None),
        }
    }
}

/// The stage and the answers after a run of commands.
pub open spec fn stage_run(world: StageWorld, log: LogState, commands: Seq<AiCommand>) -> (
    StageWorld,
    LogState,
)
    decreases commands.len(),
{
    if commands.len() == 0 {
        (world, log)
    } else {
        let (world, log) = stage_run(world, log, commands.drop_last());
        let last = commands.last();
        let (world, reply) = world.step(last.source, last.command);
        (world, log.answered(last.source, token_view(last.ack_token), reply))
    }
}

fn find_stage_seat(seats: &Vec<StageSeat>, id: TerminalId) -> (found: Option<usize>)
    ensures
        match found {
            Some(i) => stage_seat(seats@, id) == Some(i as int) && i < seats@.len(),
            None => stage_seat(seats@, id) is None,
        },
{
    proof {
        lemma_stage_seat(seats@, id);
    }
    let mut i: usize = 0;
    while i < seats.len()
        invariant
            i <= seats@.len(),
            forall|j: int| 0 <= j < i ==> (#[trigger] seats@[j]).identity.terminal_id() != id,
            match stage_seat(seats@, id) {
                Some(k) => 0 <= k < seats@.len() && seats@[k].identity.terminal_id() == id
                    && forall|j: int|
                    0 <= j < k ==> (#[trigger] seats@[j]).identity.terminal_id() != id,
                None => forall|j: int|
                    0 <= j < seats@.len() ==> (#[trigger] seats@[j]).identity.terminal_id() != id,
            },
        decreases seats.len() - i,
    {
        if seats[i].identity.id() == id {
            return Some(i);
        }
        i += 1;
    }
    None
}

fn repaint_all(seats: &mut Vec<StageSeat>)
    ensures
        final(seats)@ == repainted(old(seats)@),
{
    let mut i: usize = 0;
    while i < seats.len()
        invariant
            i <= seats@.len(),
            seats@.len() == old(seats)@.len(),
            forall|j: int| 0 <= j < i ==> #[trigger] seats@[j] == repainted(old(seats)@)[j],
            forall|j: int| i <= j < seats@.len() ==> #[trigger] seats@[j] == old(seats)@[j],
        decreases seats.len() - i,
    {
        let seat: StageSeat = seats[i];
        seats.set(i, StageSeat { redraw: true, ..seat });
        i += 1;
    }
    assert(seats@ =~= repainted(old(seats)@));
}

/// The seats, and what is left to do, after a request for a mode.
pub open spec fn mode_settled(seats: Seq<StageSeat>, changed: bool) -> (
    Seq<StageSeat>,
    Option<StageAction>,
) {
    if changed {
        (repainted(seats), Some(StageAction::StopTween))
    } else {
        (seats, None)
    }
}

/// What follows a request for a mode, given whether it changed anything: a
/// camera move stops and every terminal is painted again. Asking for the mode
/// that is already active changes nothing.
pub fn settle_mode_change(changed: bool, seats: &mut Vec<StageSeat>) -> (action: Option<
    StageAction,
>)
    ensures
        (final(seats)@, action) == mode_settled(old(seats)@, changed),
        action == (if changed {
            Some(StageAction::StopTween)
        } else {
            None
        }),
        final(seats)@ == (if changed {
            repainted(old(seats)@)
        } else {
            old(seats)@
        }),
{
    if changed {
        repaint_all(seats);
        Some(StageAction::StopTween)
    } else {
        None
    }
}

fn flatten_all(seats: &mut Vec<StageSeat>)
    ensures
        final(seats)@ == flattened(old(seats)@),
{
    let mut i: usize = 0;
    while i < seats.len()
        invariant
            i <= seats@.len(),
            seats@.len() == old(seats)@.len(),
            forall|j: int| 0 <= j < i ==> #[trigger] seats@[j] == flattened(old(seats)@)[j],
            forall|j: int| i <= j < seats@.len() ==> #[trigger] seats@[j] == old(seats)@[j],
        decreases seats.len() - i,
    {
        let seat: StageSeat = seats[i];
        seats.set(i, StageSeat { warp: Single { bits: 0 }, redraw: true, ..seat });
        i += 1;
    }
    assert(seats@ =~= flattened(old(seats)@));
}

fn apply_stage_command(
    source: IngressSource,
    command: &RattyAiCommand,
    seats: &mut Vec<StageSeat>,
    actions: &mut Vec<StageAction>,
) -> (reply: Option<Reply>)
    ensures
        (StageWorld { seats: final(seats)@, actions: final(actions)@ }, reply_view(reply)) == (
        StageWorld { seats: old(seats)@, actions: old(actions)@ }).step(source, *command),
{
    match command {
        RattyAiCommand::SetMode { mode } => match parse_mode(mode) {
            Some(target) => {
                actions.push(StageAction::ChangeMode(target));
                Some(Reply::Commit)
            },
            None => {
                let mut message = "unknown mode '".to_owned();
                message.append(mode);
                message.append("' (2d, 3d, mobius)");
                Some(
                    Reply::Refused {
                        action: "mode",
                        reject: Reject { code: Code::BadMode, message },
                    },
                )
            },
        },
        RattyAiCommand::SetWarp { intensity } => match find_stage_seat(seats, source.terminal()) {
            Some(i) => {
                actions.push(StageAction::StopTween);
                let seat: StageSeat = seats[i];
                let warp = intensity.clamp_to(Single { bits: 0 }, Single { bits: ONE_BITS });
                seats.set(i, StageSeat { warp, redraw: true, ..seat });
                Some(Reply::Commit)
            },
            None => None,
        },
        RattyAiCommand::Reset => {
            actions.push(StageAction::ResetStage);
            flatten_all(seats);
            Some(Reply::Commit)
        },
        _ => None,
    }
}

/// Applies a frame's stage commands, and says what is left to do, in order.
pub fn apply_ai_commands(
    commands: &Vec<AiCommand>,
    seats: &mut Vec<StageSeat>,
    log: &mut ReplyLog,
) -> (actions: Vec<StageAction>)
    ensures
        (StageWorld { seats: final(seats)@, actions: actions@ }, final(log)@) == stage_run(
            StageWorld { seats: old(seats)@, actions: Seq::empty() },
            old(log)@,
            commands@,
        ),
{
    let mut actions: Vec<StageAction> = Vec::new();
    let ghost start = StageWorld { seats: seats@, actions: Seq::empty() };
    let mut i: usize = 0;
    assert(commands@.take(0) =~= Seq::empty());
    assert(actions@ =~= Seq::empty());
    while i < commands.len()
        invariant
            i <= commands@.len(),
            (StageWorld { seats: seats@, actions: actions@ }, log@) == stage_run(
                start,
                old(log)@,
                commands@.take(i as int),
            ),
        decreases commands.len() - i,
    {
        let entry = &commands[i];
        proof {
            let next = commands@.take(i + 1);
            assert(next.drop_last() =~= commands@.take(i as int));
            assert(next.last() == commands@[i as int]);
        }
        let reply = apply_stage_command(entry.source, &entry.command, seats, &mut actions);
        log.answer(entry.source, &entry.ack_token, reply);
        i += 1;
    }
    assert(commands@.take(i as int) =~= commands@);
    actions
}

/// Arrival is the address: a warp changes no seat but that of the terminal it
/// came through, and from a terminal that is gone it changes nothing.
pub proof fn law_a_warp_shapes_only_its_own_surface(
    world: StageWorld,
    source: IngressSource,
    intensity: Single,
    seat: int,
)
    requires
        0 <= seat < world.seats.len(),
        world.seats[seat].identity.terminal_id() != source.terminal_id(),
    ensures
        world.step(source, RattyAiCommand::SetWarp { intensity }).0.seats[seat]
            == world.seats[seat],
        (forall|j: int|
            0 <= j < world.seats.len() ==> (#[trigger] world.seats[j]).identity.terminal_id()
                != source.terminal_id()) ==> world.step(
            source,
            RattyAiCommand::SetWarp { intensity },
        ) == (world, None::<ReplyView>),
{
    lemma_stage_seat(world.seats, source.terminal_id());
}

/// A warp that took effect lies between zero and one, unless it is no number.
pub proof fn law_a_warp_stays_in_range(intensity: Single)
    ensures
        !intensity.nan() ==> !warped(intensity).below(Single { bits: 0 }) && !(Single {
            bits: ONE_BITS,
        }).below(warped(intensity)),
{
    if !intensity.nan() {
        law_clamp_lands_in_range(intensity, Single { bits: 0 }, Single { bits: ONE_BITS });
    }
}

/// What a mode command asks for: the flat mode, the plane and the strip by
/// their names. A name that is none is refused, and nothing changes.
pub proof fn law_modes_are_asked_for_by_name(
    world: StageWorld,
    source: IngressSource,
    mode: String,
)
    ensures
        ({
            let (after, reply) = world.step(source, RattyAiCommand::SetMode { mode });
            let flat = mode@ == "2d"@ || mode@ == "flat"@ || mode@ == "flat2d"@;
            let plane = mode@ == "3d"@ || mode@ == "plane"@ || mode@ == "plane3d"@;
            let strip = mode@ == "mobius"@ || mode@ == "mobius3d"@;
            &&& after.seats == world.seats
            &&& flat ==> after.actions == world.actions.push(
                StageAction::ChangeMode(TerminalPresentationMode::Flat2d),
            )
            &&& plane ==> after.actions == world.actions.push(
                StageAction::ChangeMode(TerminalPresentationMode::Plane3d),
            )
            &&& strip ==> after.actions == world.actions.push(
                StageAction::ChangeMode(TerminalPresentationMode::Mobius3d),
            )
            &&& flat || plane || strip ==> reply == Some(ReplyView::Commit)
            &&& !(flat || plane || strip) ==> after == world && (
            reply matches Some(ReplyView::Refused(action, code, _)) && action == "mode"@ && code
                == Code::BadMode)
        }),
{
    reveal_strlit("2d");
    reveal_strlit("flat");
    reveal_strlit("flat2d");
    reveal_strlit("3d");
    reveal_strlit("plane");
    reveal_strlit("plane3d");
    reveal_strlit("mobius");
    reveal_strlit("mobius3d");
    assert("2d"@[0] == '2' && "3d"@[0] == '3');
    assert("flat2d"@[0] == 'f' && "mobius"@[0] == 'm');
}

/// What a warp does to the surface that it came through: it takes the intensity
/// as it is between zero and one, zero below and one above; the surface is
/// painted again and a camera move stops.
pub proof fn law_a_warp_is_the_intensity_that_was_asked_for(
    world: StageWorld,
    source: IngressSource,
    intensity: Single,
    at: int,
)
    requires
        0 <= at < world.seats.len(),
        world.seats[at].identity.terminal_id() == source.terminal_id(),
        forall|j: int|
            0 <= j < at ==> (#[trigger] world.seats[j]).identity.terminal_id()
                != source.terminal_id(),
    ensures
        ({
            let (after, reply) = world.step(source, RattyAiCommand::SetWarp { intensity });
            &&& reply == Some(ReplyView::Commit)
            &&& after.seats[at].redraw
            &&& after.seats[at].identity == world.seats[at].identity
            &&& intensity.bits <= 0x3f80_0000 ==> after.seats[at].warp == intensity
            &&& 0x3f80_0000 < intensity.bits <= 0x7f80_0000 ==> after.seats[at].warp.bits
                == 0x3f80_0000
            &&& 0x8000_0000 < intensity.bits <= 0xff80_0000 ==> after.seats[at].warp.bits == 0
            &&& after.actions == world.actions.push(StageAction::StopTween)
            &&& forall|j: int|
                0 <= j < world.seats.len() && j != at ==> #[trigger] after.seats[j]
                    == world.seats[j]
        }),
{
    lemma_stage_seat(world.seats, source.terminal_id());
}

/// A reset flattens every surface and paints it again; no other command touches
/// the stage.
pub proof fn law_a_reset_flattens_the_stage(
    world: StageWorld,
    source: IngressSource,
    command: RattyAiCommand,
    at: int,
)
    requires
        0 <= at < world.seats.len(),
    ensures
        command is Reset ==> {
            let (after, reply) = world.step(source, command);
            &&& reply == Some(ReplyView::Commit)
            &&& after.seats.len() == world.seats.len()
            &&& after.seats[at].warp.bits == 0
            &&& after.seats[at].redraw
            &&& after.seats[at].identity == world.seats[at].identity
            &&& after.actions == world.actions.push(StageAction::ResetStage)
        },
        !(command is Reset || command is SetMode || command is SetWarp) ==> world.step(
            source,
            command,
        ) == (world, None::<ReplyView>),
{
}

/// Commands take effect one by one, in their order, and each is answered before
/// the next.
pub proof fn law_stage_commands_run_in_order(
    world: StageWorld,
    log: LogState,
    commands: Seq<AiCommand>,
    last: AiCommand,
)
    ensures
        stage_run(world, log, Seq::empty()) == (world, log),
        ({
            let (before, said) = stage_run(world, log, commands);
            let (after, reply) = before.step(last.source, last.command);
            stage_run(world, log, commands.push(last)) == (
                after,
                said.answered(last.source, token_view(last.ack_token), reply),
            )
        }),
{
    assert(commands.push(last).drop_last() =~= commands);
}

/// A mode that changed stops a camera move and has every surface painted again,
/// as it is; one that did not changes nothing.
pub proof fn law_mode_changes_are_painted(seats: Seq<StageSeat>, at: int)
    requires
        0 <= at < seats.len(),
    ensures
        mode_settled(seats, false) == (seats, None::<StageAction>),
        mode_settled(seats, true).1 == Some(StageAction::StopTween),
        mode_settled(seats, true).0.len() == seats.len(),
        mode_settled(seats, true).0[at].redraw,
        mode_settled(seats, true).0[at].warp == seats[at].warp,
        mode_settled(seats, true).0[at].identity == seats[at].identity,
{
}

} // verus!
