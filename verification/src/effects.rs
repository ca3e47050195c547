//! Effects: what a terminal shows of an agent's feelings.
//!
//! A flash and a pulse fade away; a tint, a confidence and a mood stay. All of
//! them are plain state here. Blending them into a color is the painter's
//! business.

use vstd::prelude::*;
use crate::ai::AiCommand;
use crate::number::{law_clamp_lands_in_range, Single, ONE_BITS};
use crate::osc::RattyAiCommand;
use crate::query::{reply_view, token_view, LogState, Reply, ReplyLog, ReplyView};
use crate::text::{chars_of, same_text};

verus! {

/// The bits of the shortest time that an effect lasts, in seconds: one
/// twentieth.
pub const MIN_EFFECT_BITS: u32 = 0x3d4c_cccd;

/// The bits of the largest opacity that counts as none.
pub const NO_OPACITY_BITS: u32 = 0x3400_0000;

/// A declared mood.
#[derive(Clone, Copy, Debug, PartialEq, Eq, Structural)]
pub enum Mood {
    /// Warm and bright, quick breath.
    Excited,
    /// Cool and dim, slow breath.
    Cautious,
    /// Unstable, shifting hue.
    Confused,
    /// Near-neutral, minimal.
    Focused,
    /// Bright gold.
    Celebratory,
}

impl Mood {
    /// The wire tag of a mood.
    pub open spec fn name(self) -> &'static str {
        match self {
            Mood::Excited => "excited",
            Mood::Cautious => "cautious",
            Mood::Confused => "confused",
            Mood::Focused => "focused",
            Mood::Celebratory => "celebratory",
        }
    }

    /// The mood of a wire tag.
    pub open spec fn named(tag: Seq<char>) -> Option<Mood> {
        if tag == "excited"@ {
            Some(Mood::Excited)
        } else if tag == "cautious"@ {
            Some(Mood::Cautious)
        } else if tag == "confused"@ {
            Some(Mood::Confused)
        } else if tag == "focused"@ {
            Some(Mood::Focused)
        } else if tag == "celebratory"@ {
            Some(Mood::Celebratory)
        } else {
            None
        }
    }

    /// The mood of a wire tag.
    pub fn parse(mood: &str) -> (parsed: Option<Mood>)
        ensures
            parsed == Mood::named(mood@),
    {
        if same_text(mood, "excited") {
            Some(Mood::Excited)
        } else if same_text(mood, "cautious") {
            Some(Mood::Cautious)
        } else if same_text(mood, "confused") {
            Some(Mood::Confused)
        } else if same_text(mood, "focused") {
            Some(Mood::Focused)
        } else if same_text(mood, "celebratory") {
            Some(Mood::Celebratory)
        } else {
            None
        }
    }

    /// The wire tag of a mood.
    pub fn tag(self) -> (tag: &'static str)
        ensures
            tag == self.name(),
    {
        match self {
            Mood::Excited => "excited",
            Mood::Cautious => "cautious",
            Mood::Confused => "confused",
            Mood::Focused => "focused",
            Mood::Celebratory => "celebratory",
        }
    }
}

/// Every mood is what its wire tag means.
pub proof fn law_mood_tags_round_trip(mood: Mood)
    ensures
        Mood::named(mood.name()@) == Some(mood),
{
    reveal_strlit("excited");
    reveal_strlit("cautious");
    reveal_strlit("confused");
    reveal_strlit("focused");
    reveal_strlit("celebratory");
    assert("excited"@[0] == 'e' && "cautious"@[1] == 'a' && "confused"@[1] == 'o');
    assert("focused"@[0] == 'f' && "cautious"@[0] == 'c' && "confused"@[0] == 'c');
    assert("celebratory"@.len() == 11 && "excited"@.len() == 7 && "focused"@.len() == 7);
    assert("cautious"@.len() == 8 && "confused"@.len() == 8);
}

/// A color.
#[derive(Clone, Copy, Debug, PartialEq, Eq, Structural)]
pub struct Rgb {
    /// Red.
    pub red: u8,
    /// Green.
    pub green: u8,
    /// Blue.
    pub blue: u8,
}

/// A flash that fades.
#[derive(Clone, Copy, Debug, PartialEq, Eq, Structural)]
pub struct Flash {
    /// The color.
    pub color: Rgb,
    /// The seconds that are left.
    pub remaining: Single,
    /// The seconds that it lasts.
    pub total: Single,
}

/// A pulse that fades.
#[derive(Clone, Copy, Debug, PartialEq, Eq, Structural)]
pub struct Pulse {
    /// The intensity, from zero to one.
    pub intensity: Single,
    /// The seconds that are left.
    pub remaining: Single,
    /// The seconds that it lasts.
    pub total: Single,
}

/// A tint that stays.
#[derive(Clone, Copy, Debug, PartialEq, Eq, Structural)]
pub struct Tint {
    /// The color.
    pub color: Rgb,
    /// The opacity, above zero and up to one.
    pub opacity: Single,
}

/// The effects of a terminal.
#[derive(Clone, Copy, Debug, PartialEq, Eq, Structural)]
pub struct AiEffects {
    /// Seconds since the terminal came up.
    pub clock: Single,
    /// The flash.
    pub flash: Option<Flash>,
    /// The pulse.
    pub pulse: Option<Pulse>,
    /// The tint.
    pub tint: Option<Tint>,
    /// Whether the agent thinks.
    pub thinking: bool,
    /// The confidence, from zero to one.
    pub confidence: Option<Single>,
    /// The mood.
    pub mood: Option<Mood>,
}

/// What anyone can see of the effects.
#[derive(Clone, Copy, Debug)]
pub struct AiEffectsPublic {
    /// Whether the thinking indicator is on.
    pub thinking: bool,
    /// The confidence level.
    pub confidence: Option<Single>,
    /// The mood's wire tag.
    pub mood: Option<&'static str>,
    /// Whether a flash is fading.
    pub flash: bool,
    /// Whether a pulse is fading.
    pub pulse: bool,
    /// Whether there is a tint.
    pub tint: bool,
}

/// The value of a hexadecimal digit.
pub open spec fn hex_value(c: char) -> Option<u8> {
    if '0' <= c <= '9' {
        Some((c as u8 - '0' as u8) as u8)
    } else if 'a' <= c <= 'f' {
        Some((c as u8 - 'a' as u8 + 10) as u8)
    } else if 'A' <= c <= 'F' {
        Some((c as u8 - 'A' as u8 + 10) as u8)
    } else {
        None
    }
}

/// The value of a channel: two hexadecimal digits.
pub open spec fn channel(high: char, low: char) -> Option<u8> {
    match (hex_value(high), hex_value(low)) {
        (Some(a), Some(b)) => Some((16 * a + b) as u8),
        _ => None,
    }
}

/// The color white.
pub open spec fn white() -> Rgb {
    Rgb { red: 255, green: 255, blue: 255 }
}

/// The color of three channels, with or without a number sign in front; white
/// where it reads otherwise.
pub open spec fn color_of(value: Seq<char>) -> Rgb {
    let digits = if value.len() > 0 && value[0] == '#' {
        value.drop_first()
    } else {
        value
    };
    if digits.len() != 6 {
        white()
    } else {
        match (
            channel(digits[0], digits[1]),
            channel(digits[2], digits[3]),
            channel(digits[4], digits[5]),
        ) {
            (Some(red), Some(green), Some(blue)) => Rgb { red, green, blue },
            _ => white(),
        }
    }
}

fn digit_of(c: char) -> (value: Option<u8>)
    ensures
        value == hex_value(c),
        value matches Some(v) ==> v < 16,
{
    if '0' <= c && c <= '9' {
        Some(c as u8 - '0' as u8)
    } else if 'a' <= c && c <= 'f' {
        Some(c as u8 - 'a' as u8 + 10)
    } else if 'A' <= c && c <= 'F' {
        Some(c as u8 - 'A' as u8 + 10)
    } else {
        None
    }
}

fn channel_of(high: char, low: char) -> (value: Option<u8>)
    ensures
        value == channel(high, low),
{
    match (digit_of(high), digit_of(low)) {
        (Some(a), Some(b)) => Some(16 * a + b),
        _ => None,
    }
}

/// The color that a value reads as; white where it reads as none.
pub fn parse_color(value: &str) -> (color: Rgb)
    ensures
        color == color_of(value@),
{
    let chars = chars_of(value);
    let from: usize = if chars.len() > 0 && chars[0] == '#' {
        1
    } else {
        0
    };
    let fallback = Rgb { red: 255, green: 255, blue: 255 };
    if chars.len() - from != 6 {
        return fallback;
    }
    match (
        channel_of(chars[from], chars[from + 1]),
        channel_of(chars[from + 2], chars[from + 3]),
        channel_of(chars[from + 4], chars[from + 5]),
    ) {
        (Some(red), Some(green), Some(blue)) => Rgb { red, green, blue },
        _ => fallback,
    }
}

/// A level between zero and one.
pub open spec fn level_of(level: Single) -> Single {
    level.clamped(Single { bits: 0 }, Single { bits: ONE_BITS })
}

/// How long an effect lasts: at least the shortest time.
pub open spec fn lasting(duration: Single) -> Single {
    duration.at_least(Single { bits: MIN_EFFECT_BITS })
}

/// Whether time is up: nothing or less is left.
pub open spec fn spent(remaining: Single) -> bool {
    !remaining.nan() && remaining.rank() <= 0
}

impl AiEffects {
    /// No effects, at a time.
    pub open spec fn idle(clock: Single) -> AiEffects {
        AiEffects {
            clock,
            flash: None,
            pulse: None,
            tint: None,
            thinking: false,
            confidence: None,
            mood: None,
        }
    }

    /// A flash begins.
    pub open spec fn flashed(self, color: Rgb, duration: Single) -> AiEffects {
        let total = lasting(duration);
        AiEffects { flash: Some(Flash { color, remaining: total, total }), ..self }
    }

    /// A pulse begins.
    pub open spec fn pulsed(self, intensity: Single, duration: Single) -> AiEffects {
        let total = lasting(duration);
        AiEffects {
            pulse: Some(Pulse { intensity: level_of(intensity), remaining: total, total }),
            ..self
        }
    }

    /// A tint is set, or taken away where it would not be seen.
    pub open spec fn tinted(self, color: Rgb, opacity: Single) -> AiEffects {
        let opacity = level_of(opacity);
        AiEffects {
            tint: if !opacity.nan() && !(Single { bits: NO_OPACITY_BITS }).below(opacity) {
                None
            } else {
                Some(Tint { color, opacity })
            },
            ..self
        }
    }

    /// The effects once time has passed: what is spent goes. The times are
    /// what was left less the time that passed.
    pub open spec fn advanced(self, clock: Single, flash_left: Single, pulse_left: Single) -> AiEffects {
        AiEffects {
            clock,
            flash: match self.flash {
                Some(flash) => if spent(flash_left) {
                    None
                } else {
                    Some(Flash { remaining: flash_left, ..flash })
                },
                None => None,
            },
            pulse: match self.pulse {
                Some(pulse) => if spent(pulse_left) {
                    None
                } else {
                    Some(Pulse { remaining: pulse_left, ..pulse })
                },
                None => None,
            },
            ..self
        }
    }

    /// What a command does to the effects, and what is answered; a reset is
    /// answered elsewhere. None where it is no effect command.
    pub open spec fn step(self, command: RattyAiCommand) -> Option<(AiEffects, Option<ReplyView>)> {
        match command {
            RattyAiCommand::Flash { color, duration } => Some(
                (self.flashed(color_of(color@), duration), Some(ReplyView::Commit)),
            ),
            RattyAiCommand::Pulse { intensity, duration } => Some(
                (self.pulsed(intensity, duration), Some(ReplyView::Commit)),
            ),
            RattyAiCommand::Tint { color, opacity } => Some(
                (self.tinted(color_of(color@), opacity), Some(ReplyView::Commit)),
            ),
            RattyAiCommand::Think { state } => Some(
                (
                    AiEffects {
                        thinking: if state@ == "start"@ {
                            true
                        } else if state@ == "end"@ {
                            false
                        } else {
                            !self.thinking
                        },
                        ..self
                    },
                    Some(ReplyView::Commit),
                ),
            ),
            RattyAiCommand::Confidence { level } => Some(
                (
                    AiEffects { confidence: Some(level_of(level)), ..self },
                    Some(ReplyView::Commit),
                ),
            ),
            RattyAiCommand::Mood { mood } => Some(
                (AiEffects { mood: Mood::named(mood@), ..self }, Some(ReplyView::Commit)),
            ),
            RattyAiCommand::Reset => Some((AiEffects::idle(self.clock), None)),
            _ => None,
        }
    }

    /// Whether something moves, so that every frame must be painted.
    pub open spec fn moves(self) -> bool {
        self.thinking || self.flash is Some || self.pulse is Some || self.mood == Some(
            Mood::Confused,
        )
    }

    /// What anyone can see.
    pub open spec fn public(self) -> AiEffectsPublic {
        AiEffectsPublic {
            thinking: self.thinking,
            confidence: self.confidence,
            mood: match self.mood {
                Some(mood) => Some(mood.name()),
                None => None,
            },
            flash: self.flash is Some,
            pulse: self.pulse is Some,
            tint: self.tint is Some,
        }
    }

    /// No effects.
    pub fn new() -> (effects: AiEffects)
        ensures
            effects == AiEffects::idle(Single { bits: 0 }),
    {
        AiEffects {
            clock: Single { bits: 0 },
            flash: None,
            pulse: None,
            tint: None,
            thinking: false,
            confidence: None,
            mood: None,
        }
    }

    /// What anyone can see.
    pub fn public_state(&self) -> (public: AiEffectsPublic)
        ensures
            public == self.public(),
            public == (AiEffectsPublic {
                thinking: self.thinking,
                confidence: self.confidence,
                mood: match self.mood {
                    Some(mood) => Some(mood.name()),
                    None => None,
                },
                flash: self.flash is Some,
                pulse: self.pulse is Some,
                tint: self.tint is Some,
            }),
    {
        AiEffectsPublic {
            thinking: self.thinking,
            confidence: self.confidence,
            mood: match self.mood {
                Some(mood) => Some(mood.tag()),
                None => None,
            },
            flash: self.flash.is_some(),
            pulse: self.pulse.is_some(),
            tint: self.tint.is_some(),
        }
    }

    /// Begins a flash.
    pub fn set_flash(&mut self, color: Rgb, duration: Single)
        ensures
            *final(self) == old(self).flashed(color, duration),
    {
        let total = duration.raise_to(Single { bits: MIN_EFFECT_BITS });
        self.flash = Some(Flash { color, remaining: total, total });
    }

    /// Begins a pulse.
    pub fn set_pulse(&mut self, intensity: Single, duration: Single)
        ensures
            *final(self) == old(self).pulsed(intensity, duration),
    {
        let total = duration.raise_to(Single { bits: MIN_EFFECT_BITS });
        let intensity = intensity.clamp_to(Single { bits: 0 }, Single { bits: ONE_BITS });
        self.pulse = Some(Pulse { intensity, remaining: total, total });
    }

    /// Sets a tint, or takes it away.
    pub fn set_tint(&mut self, color: Rgb, opacity: Single)
        ensures
            *final(self) == old(self).tinted(color, opacity),
    {
        let opacity = opacity.clamp_to(Single { bits: 0 }, Single { bits: ONE_BITS });
        if !opacity.is_nan() && !(Single { bits: NO_OPACITY_BITS }).is_below(opacity) {
            self.tint = None;
        } else {
            self.tint = Some(Tint { color, opacity });
        }
    }

    /// Clears every effect; the clock goes on.
    pub fn clear(&mut self)
        ensures
            *final(self) == AiEffects::idle(old(self).clock),
    {
        let clock = self.clock;
        *self = AiEffects::new();
        self.clock = clock;
    }

    /// Lets time pass: takes the new clock and what is left of flash and pulse,
    /// and drops what is spent.
    pub fn advance(&mut self, clock: Single, flash_left: Single, pulse_left: Single)
        ensures
            *final(self) == old(self).advanced(clock, flash_left, pulse_left),
    {
        self.clock = clock;
        let zero = Single { bits: 0 };
        if let Some(flash) = self.flash {
            if !flash_left.is_nan() && !zero.is_below(flash_left) {
                self.flash = None;
            } else {
                self.flash = Some(Flash { remaining: flash_left, ..flash });
            }
        }
        if let Some(pulse) = self.pulse {
            if !pulse_left.is_nan() && !zero.is_below(pulse_left) {
                self.pulse = None;
            } else {
                self.pulse = Some(Pulse { remaining: pulse_left, ..pulse });
            }
        }
    }

    /// Whether something moves, so that every frame must be painted.
    pub fn animating(&self) -> (moves: bool)
        ensures
            moves == self.moves(),
    {
        let confused: bool = match self.mood {
            Some(mood) => mood == Mood::Confused,
            None => false,
        };
        self.thinking || self.flash.is_some() || self.pulse.is_some() || confused
    }
}

/// The effects and the answers after a run of commands, and whether any was an
/// effect command.
pub open spec fn effect_run(effects: AiEffects, log: LogState, commands: Seq<AiCommand>) -> (
    AiEffects,
    LogState,
    bool,
)
    decreases commands.len(),
{
    if commands.len() == 0 {
        (effects, log, false)
    } else {
        let (effects, log, changed) = effect_run(effects, log, commands.drop_last());
        let last = commands.last();
        match effects.step(last.command) {
            Some((effects, reply)) => (
                effects,
                log.answered(last.source, token_view(last.ack_token), reply),
                true,
            ),
            None => (effects, log, changed),
        }
    }
}

fn apply_effect_command(effects: &mut AiEffects, command: &RattyAiCommand) -> (outcome: Option<
    Option<Reply>,
>)
    ensures
        match outcome {
            Some(reply) => old(effects).step(*command) == Some(
                (*final(effects), reply_view(reply)),
            ),
            None => old(effects).step(*command) is None && *final(effects) == *old(effects),
        },
{
    match command {
        RattyAiCommand::Flash { color, duration } => {
            effects.set_flash(parse_color(color), *duration);
        },
        RattyAiCommand::Pulse { intensity, duration } => {
            effects.set_pulse(*intensity, *duration);
        },
        RattyAiCommand::Tint { color, opacity } => {
            effects.set_tint(parse_color(color), *opacity);
        },
        RattyAiCommand::Think { state } => {
            effects.thinking = if same_text(state, "start") {
                true
            } else if same_text(state, "end") {
                false
            } else {
                !effects.thinking
            };
        },
        RattyAiCommand::Confidence { level } => {
            effects.confidence = Some(
                level.clamp_to(Single { bits: 0 }, Single { bits: ONE_BITS }),
            );
        },
        RattyAiCommand::Mood { mood } => {
            effects.mood = Mood::parse(mood);
        },
        RattyAiCommand::Reset => {
            effects.clear();
            return Some(None);
        },
        _ => {
            return None;
        },
    }
    Some(Some(Reply::Commit))
}

/// Applies a frame's effect commands, and says whether the terminal must be
/// painted again.
pub fn apply_ai_effect_commands(
    commands: &Vec<AiCommand>,
    effects: &mut AiEffects,
    log: &mut ReplyLog,
) -> (changed: bool)
    ensures
        (*final(effects), final(log)@, changed) == effect_run(*old(effects), old(log)@, commands@),
{
    let mut changed: bool = false;
    let mut i: usize = 0;
    assert(commands@.take(0) =~= Seq::empty());
    while i < commands.len()
        invariant
            i <= commands@.len(),
            (*effects, log@, changed) == effect_run(
                *old(effects),
                old(log)@,
                commands@.take(i as int),
            ),
        decreases commands.len() - i,
    {
        let entry = &commands[i];
        proof {
            let next = commands@.take(i + 1);
            assert(next.drop_last() =~= commands@.take(i as int));
            assert(next.last() == commands@[i as int]);
        }
        if let Some(reply) = apply_effect_command(effects, &entry.command) {
            log.answer(entry.source, &entry.ack_token, reply);
            changed = true;
        }
        i += 1;
    }
    assert(commands@.take(i as int) =~= commands@);
    changed
}

/// An effect command is never refused.
pub proof fn law_effects_always_commit(effects: AiEffects, command: RattyAiCommand)
    ensures
        effects.step(command) matches Some((_, reply)) ==> reply == if command is Reset {
            None
        } else {
            Some(ReplyView::Commit)
        },
{
}

/// Whether the levels of the effects are in range, as far as they are numbers.
pub open spec fn levels_in_range(effects: AiEffects) -> bool {
    let one = Single { bits: ONE_BITS };
    &&& effects.pulse matches Some(pulse) ==> pulse.intensity.nan() || (0
        <= pulse.intensity.rank() <= one.rank())
    &&& effects.tint matches Some(tint) ==> tint.opacity.nan() || (0 < tint.opacity.rank()
        <= one.rank())
    &&& effects.confidence matches Some(level) ==> level.nan() || (0 <= level.rank()
        <= one.rank())
}

/// Levels stay between zero and one, and a tint that is there can be seen.
pub proof fn law_levels_stay_in_range(effects: AiEffects, command: RattyAiCommand)
    requires
        levels_in_range(effects),
    ensures
        effects.step(command) matches Some((after, _)) ==> levels_in_range(after),
{
    let zero = Single { bits: 0 };
    let one = Single { bits: ONE_BITS };
    match command {
        RattyAiCommand::Pulse { intensity, .. } => {
            if !intensity.nan() {
                law_clamp_lands_in_range(intensity, zero, one);
            }
        },
        RattyAiCommand::Tint { opacity, .. } => {
            if !opacity.nan() {
                law_clamp_lands_in_range(opacity, zero, one);
            }
        },
        RattyAiCommand::Confidence { level } => {
            if !level.nan() {
                law_clamp_lands_in_range(level, zero, one);
            }
        },
        _ => {},
    }
}

/// What a flash, a pulse and a tint become. A flash and a pulse last as long as
/// was asked for, and a twentieth of a second at least, all of which is left; a
/// pulse's intensity and a tint's opacity are what was asked for between zero
/// and one, zero below and one above; a tint that cannot be seen is taken away.
/// Nothing else changes.
pub proof fn law_effects_are_as_asked(
    effects: AiEffects,
    color: String,
    level: Single,
    duration: Single,
)
    requires
        duration.bits <= 0x7f80_0000,
    ensures
        ({
            let flashed = (effects.step(RattyAiCommand::Flash { color, duration })->0).0;
            let pulsed = (effects.step(
                RattyAiCommand::Pulse { intensity: level, duration },
            )->0).0;
            let tinted = (effects.step(RattyAiCommand::Tint { color, opacity: level })->0).0;
            let lasts = if duration.bits >= 0x3d4c_cccd {
                duration.bits
            } else {
                0x3d4c_cccd
            };
            &&& flashed == (AiEffects { flash: flashed.flash, ..effects })
            &&& flashed.flash is Some
            &&& flashed.flash->0.color == color_of(color@)
            &&& flashed.flash->0.total.bits == lasts
            &&& flashed.flash->0.remaining.bits == lasts
            &&& pulsed == (AiEffects { pulse: pulsed.pulse, ..effects })
            &&& pulsed.pulse is Some
            &&& pulsed.pulse->0.total.bits == lasts
            &&& pulsed.pulse->0.remaining.bits == lasts
            &&& level.bits <= 0x3f80_0000 ==> pulsed.pulse->0.intensity == level
            &&& 0x3f80_0000 < level.bits <= 0x7f80_0000 ==> pulsed.pulse->0.intensity.bits
                == 0x3f80_0000
            &&& 0x8000_0000 < level.bits <= 0xff80_0000 ==> pulsed.pulse->0.intensity.bits == 0
            &&& tinted == (AiEffects { tint: tinted.tint, ..effects })
            &&& level.bits <= 0x3400_0000 || 0x8000_0000 <= level.bits <= 0xff80_0000
                ==> tinted.tint is None
            &&& 0x3400_0000 < level.bits <= 0x3f80_0000 ==> tinted.tint == Some(
                Tint { color: color_of(color@), opacity: level },
            )
            &&& 0x3f80_0000 < level.bits <= 0x7f80_0000 ==> tinted.tint == Some(
                Tint { color: color_of(color@), opacity: Single { bits: 0x3f80_0000 } },
            )
        }),
{
}

/// What thinking becomes: it starts, ends, or turns around. Nothing else
/// changes.
pub proof fn law_thinking_is_as_said(effects: AiEffects, state: String)
    ensures
        ({
            let after = (effects.step(RattyAiCommand::Think { state })->0).0;
            &&& after == (AiEffects { thinking: after.thinking, ..effects })
            &&& state@ == "start"@ ==> after.thinking
            &&& state@ == "end"@ ==> !after.thinking
            &&& state@ != "start"@ && state@ != "end"@ ==> after.thinking == !effects.thinking
        }),
{
    reveal_strlit("start");
    reveal_strlit("end");
    assert("start"@.len() == 5 && "end"@.len() == 3);
}

/// What the confidence becomes: the level as it is between zero and one, zero
/// below and one above. Nothing else changes.
pub proof fn law_confidence_is_as_said(effects: AiEffects, level: Single)
    ensures
        ({
            let after = (effects.step(RattyAiCommand::Confidence { level })->0).0;
            &&& after == (AiEffects { confidence: after.confidence, ..effects })
            &&& level.bits <= 0x3f80_0000 ==> after.confidence == Some(level)
            &&& 0x3f80_0000 < level.bits <= 0x7f80_0000 ==> after.confidence == Some(
                Single { bits: 0x3f80_0000 },
            )
            &&& 0x8000_0000 < level.bits <= 0xff80_0000 ==> after.confidence == Some(
                Single { bits: 0 },
            )
        }),
{
}

proof fn lemma_moods_told_apart()
    ensures
        "excited"@ != "focused"@,
        "cautious"@ != "confused"@,
        "excited"@.len() == 7 && "focused"@.len() == 7,
        "cautious"@.len() == 8 && "confused"@.len() == 8 && "celebratory"@.len() == 11,
{
    reveal_strlit("excited");
    reveal_strlit("cautious");
    reveal_strlit("confused");
    reveal_strlit("focused");
    reveal_strlit("celebratory");
    assert("excited"@[0] == 'e' && "focused"@[0] == 'f');
    assert("cautious"@[1] == 'a' && "confused"@[1] == 'o');
}

/// What the mood becomes: the one of its tag, and none where there is no such
/// mood. Nothing else changes.
pub proof fn law_moods_are_as_said(effects: AiEffects, mood: String)
    ensures
        ({
            let after = (effects.step(RattyAiCommand::Mood { mood })->0).0;
            &&& after == (AiEffects { mood: after.mood, ..effects })
            &&& mood@ == "excited"@ ==> after.mood == Some(Mood::Excited)
            &&& mood@ == "cautious"@ ==> after.mood == Some(Mood::Cautious)
            &&& mood@ == "confused"@ ==> after.mood == Some(Mood::Confused)
            &&& mood@ == "focused"@ ==> after.mood == Some(Mood::Focused)
            &&& mood@ == "celebratory"@ ==> after.mood == Some(Mood::Celebratory)
            &&& mood@ != "excited"@ && mood@ != "cautious"@ && mood@ != "confused"@ && mood@
                != "focused"@ && mood@ != "celebratory"@ ==> after.mood is None
        }),
{
    lemma_moods_told_apart();
}

/// The hexadecimal digits of a number below sixteen, small and large.
pub open spec fn hex_pair(n: int) -> (char, char) {
    if n == 10 {
        ('a', 'A')
    } else if n == 11 {
        ('b', 'B')
    } else if n == 12 {
        ('c', 'C')
    } else if n == 13 {
        ('d', 'D')
    } else if n == 14 {
        ('e', 'E')
    } else if n == 15 {
        ('f', 'F')
    } else {
        (('0' as u32 + n) as char, ('0' as u32 + n) as char)
    }
}

/// Whether a character is a digit of a value.
pub open spec fn is_hex_of(c: char, n: int) -> bool {
    0 <= n < 16 && (c == hex_pair(n).0 || c == hex_pair(n).1)
}

/// A color is three channels of two hexadecimal digits, the higher first: red,
/// green and blue, with or without a number sign in front.
pub proof fn law_colors_are_three_channels(
    digits: Seq<char>,
    high: Seq<int>,
    low: Seq<int>,
)
    requires
        digits.len() == 6,
        high.len() == 3,
        low.len() == 3,
        is_hex_of(digits[0], high[0]) && is_hex_of(digits[1], low[0]),
        is_hex_of(digits[2], high[1]) && is_hex_of(digits[3], low[1]),
        is_hex_of(digits[4], high[2]) && is_hex_of(digits[5], low[2]),
    ensures
        color_of(digits).red == high[0] * 16 + low[0],
        color_of(digits).green == high[1] * 16 + low[1],
        color_of(digits).blue == high[2] * 16 + low[2],
        color_of(seq!['#'] + digits) == color_of(digits),
{
    assert((seq!['#'] + digits).drop_first() =~= digits);
}

/// What does not read as a color is white.
pub proof fn law_no_color_is_white(value: Seq<char>)
    requires
        value.len() < 6 || value.len() > 7 || (value.len() == 7 && value[0] != '#') || (value.len()
            == 6 && value[0] == '#'),
    ensures
        color_of(value).red == 255,
        color_of(value).green == 255,
        color_of(value).blue == 255,
{
}

/// Once time has passed, what is spent is gone, and what is not has less left;
/// nothing else changes but the clock.
pub proof fn law_effects_fade(
    effects: AiEffects,
    clock: Single,
    flash_left: Single,
    pulse_left: Single,
)
    requires
        !flash_left.nan(),
        !pulse_left.nan(),
    ensures
        ({
            let after = effects.advanced(clock, flash_left, pulse_left);
            let flash_lasts = 0 < flash_left.bits < 0x8000_0000;
            let pulse_lasts = 0 < pulse_left.bits < 0x8000_0000;
            &&& after.clock == clock
            &&& after.flash is Some <==> effects.flash is Some && flash_lasts
            &&& after.flash is Some ==> after.flash->0.remaining == flash_left
                && after.flash->0.color == effects.flash->0.color && after.flash->0.total
                == effects.flash->0.total
            &&& after.pulse is Some <==> effects.pulse is Some && pulse_lasts
            &&& after.pulse is Some ==> after.pulse->0.remaining == pulse_left
                && after.pulse->0.intensity == effects.pulse->0.intensity && after.pulse->0.total
                == effects.pulse->0.total
            &&& after.tint == effects.tint && after.thinking == effects.thinking
                && after.confidence == effects.confidence && after.mood == effects.mood
        }),
{
}

/// A reset takes every effect away and keeps the clock; a command that is no
/// effect changes nothing; and only what moves needs every frame painted.
pub proof fn law_resets_and_frames(effects: AiEffects, command: RattyAiCommand)
    ensures
        command is Reset ==> {
            let after = (effects.step(command)->0).0;
            &&& after.clock == effects.clock && after.flash is None && after.pulse is None
                && after.tint is None
            &&& !after.thinking && after.confidence is None && after.mood is None
        },
        effects.step(command) is None <==> !(command is Reset || command is Flash
            || command is Pulse || command is Tint || command is Think || command is Confidence
            || command is Mood),
        effects.moves() <==> effects.thinking || effects.flash is Some || effects.pulse is Some || (
        effects.mood is Some && effects.mood->0 is Confused),
{
}

/// Commands take effect one by one, in their order, and any effect command has
/// the surface painted again.
pub proof fn law_effect_commands_run_in_order(
    effects: AiEffects,
    log: LogState,
    commands: Seq<AiCommand>,
    last: AiCommand,
)
    ensures
        effect_run(effects, log, Seq::empty()) == (effects, log, false),
        ({
            let (before, said, changed) = effect_run(effects, log, commands);
            let all = effect_run(effects, log, commands.push(last));
            match before.step(last.command) {
                Some((after, reply)) => all == (
                    after,
                    said.answered(last.source, token_view(last.ack_token), reply),
                    true,
                ),
                None => all == (before, said, changed),
            }
        }),
{
    assert(commands.push(last).drop_last() =~= commands);
}

/// What anyone can see of the effects: whether the agent thinks, how sure it is
/// and in which mood, and whether there is a flash, a pulse and a tint, each by
/// itself.
pub proof fn law_what_anyone_can_see(effects: AiEffects)
    ensures
        effects.public().thinking == effects.thinking,
        effects.public().confidence == effects.confidence,
        effects.public().flash <==> effects.flash is Some,
        effects.public().pulse <==> effects.pulse is Some,
        effects.public().tint <==> effects.tint is Some,
        effects.public().mood is Some <==> effects.mood is Some,
        effects.mood matches Some(mood) ==> effects.public().mood->0@ == mood.name()@,
{
}

/// The moods and their tags.
pub proof fn law_moods_have_their_tags(mood: Mood)
    ensures
        mood is Excited ==> mood.name()@ == "excited"@,
        mood is Cautious ==> mood.name()@ == "cautious"@,
        mood is Confused ==> mood.name()@ == "confused"@,
        mood is Focused ==> mood.name()@ == "focused"@,
        mood is Celebratory ==> mood.name()@ == "celebratory"@,
{
}

} // verus!
