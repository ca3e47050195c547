//! Effects.

use ratty::ai::{AiCommand, CommandOrigin};
use ratty::effects::{apply_ai_effect_commands, parse_color, AiEffects, Mood, Rgb};
use ratty::identity::IngressSource;
use ratty::number::Single;
use ratty::osc::RattyAiCommand;
use ratty::query::ReplyLog;

fn num(x: f32) -> Single {
    Single { bits: x.to_bits() }
}

const GREEN: Rgb = Rgb { red: 0, green: 255, blue: 0 };
const RED: Rgb = Rgb { red: 255, green: 0, blue: 0 };

fn send(effects: &mut AiEffects, command: RattyAiCommand) -> (bool, ReplyLog) {
    let mut log = ReplyLog::new();
    let commands = vec![AiCommand {
        source: IngressSource::test_boot(),
        ack_token: Some("t".to_string()),
        origin: CommandOrigin::Wire,
        command,
    }];
    let changed = apply_ai_effect_commands(&commands, effects, &mut log);
    (changed, log)
}

#[test]
fn idle_effects_rest() {
    let effects = AiEffects::new();
    assert!(!effects.animating());
    let public = effects.public_state();
    assert!(!public.thinking && !public.flash && !public.pulse && !public.tint);
    assert!(public.mood.is_none() && public.confidence.is_none());
}

#[test]
fn a_flash_goes_when_its_time_is_up() {
    let mut effects = AiEffects::new();
    effects.set_flash(RED, num(1.0));
    assert!(effects.animating());
    assert_eq!(effects.flash.expect("flashing").remaining, num(1.0));
    effects.advance(num(0.5), num(0.5), num(0.0));
    assert_eq!(effects.flash.expect("flashing").remaining, num(0.5));
    effects.advance(num(1.1), num(-0.1), num(0.0));
    assert!(effects.flash.is_none());
    assert_eq!(effects.clock, num(1.1));
    effects.set_pulse(num(3.0), num(0.0));
    let pulse = effects.pulse.expect("pulsing");
    assert_eq!(pulse.intensity, num(1.0), "clamped");
    assert_eq!(pulse.total, num(0.05), "raised to the shortest time");
    effects.advance(num(1.2), num(0.0), num(0.0));
    assert!(effects.pulse.is_none(), "nothing left is no time left");
}

#[test]
fn tint_opacity_zero_clears() {
    let mut effects = AiEffects::new();
    effects.set_tint(GREEN, num(0.3));
    assert!(effects.tint.is_some());
    effects.set_tint(GREEN, num(0.0));
    assert!(effects.tint.is_none());
    effects.set_tint(GREEN, num(f32::EPSILON));
    assert!(effects.tint.is_none(), "the smallest step above one counts as none");
    effects.set_tint(GREEN, num(7.0));
    assert_eq!(effects.tint.expect("tinted").opacity, num(1.0));
}

#[test]
fn reset_clears_all_but_the_clock() {
    let mut effects = AiEffects::new();
    effects.advance(num(3.0), num(0.0), num(0.0));
    effects.set_tint(RED, num(0.5));
    effects.thinking = true;
    effects.mood = Some(Mood::Confused);
    assert!(effects.animating());
    effects.clear();
    assert!(effects.tint.is_none() && effects.mood.is_none() && !effects.thinking);
    assert!(!effects.animating());
    assert_eq!(effects.clock, num(3.0));
}

#[test]
fn mood_parse_round_trips_known_tags() {
    assert_eq!(Mood::parse("excited"), Some(Mood::Excited));
    assert_eq!(Mood::parse("celebratory"), Some(Mood::Celebratory));
    assert_eq!(Mood::parse("stoic"), None);
    for mood in [Mood::Excited, Mood::Cautious, Mood::Confused, Mood::Focused, Mood::Celebratory] {
        assert_eq!(Mood::parse(mood.tag()), Some(mood));
    }
}

#[test]
fn parse_color_reads_hex_and_defaults_white() {
    let channels = |value: &str| {
        let color = parse_color(value);
        [
            f32::from(color.red) / 255.0,
            f32::from(color.green) / 255.0,
            f32::from(color.blue) / 255.0,
        ]
    };
    assert_eq!(channels("#ff0000"), [1.0, 0.0, 0.0]);
    assert_eq!(channels("00ff00"), [0.0, 1.0, 0.0]);
    assert_eq!(channels("nonsense"), [1.0, 1.0, 1.0]);
    assert_eq!(parse_color("#1a2B3c"), Rgb { red: 0x1a, green: 0x2b, blue: 0x3c });
    assert_eq!(parse_color("+f00+1"), Rgb { red: 255, green: 255, blue: 255 });
    assert_eq!(parse_color("#-10000"), Rgb { red: 255, green: 255, blue: 255 });
    assert_eq!(parse_color("é0é0"), Rgb { red: 255, green: 255, blue: 255 });
    assert_eq!(parse_color(""), Rgb { red: 255, green: 255, blue: 255 });
}

#[test]
fn effect_commands_commit_and_reset_is_silent() {
    let mut effects = AiEffects::new();
    let (changed, log) = send(
        &mut effects,
        RattyAiCommand::Flash { color: "#00ff00".to_string(), duration: num(2.0) },
    );
    assert!(changed && log.acks[0].ok);
    assert_eq!(effects.flash.expect("flashing").color, GREEN);
    send(&mut effects, RattyAiCommand::Pulse { intensity: num(0.5), duration: num(1.0) });
    send(&mut effects, RattyAiCommand::Tint { color: "ff0000".to_string(), opacity: num(0.2) });
    send(&mut effects, RattyAiCommand::Confidence { level: num(-4.0) });
    send(&mut effects, RattyAiCommand::Mood { mood: "focused".to_string() });
    for (state, thinking) in [("start", true), ("start", true), ("toggle", false), ("", true), ("end", false)] {
        let (_, log) = send(&mut effects, RattyAiCommand::Think { state: state.to_string() });
        assert_eq!(effects.thinking, thinking);
        assert!(log.acks[0].ok);
    }
    let public = effects.public_state();
    assert_eq!(public.mood, Some("focused"));
    assert_eq!(public.confidence, Some(num(0.0)));
    assert!(public.flash && public.pulse && public.tint);

    let (changed, log) = send(&mut effects, RattyAiCommand::MacroStop);
    assert!(!changed && log.acks.is_empty());
    let (changed, log) = send(&mut effects, RattyAiCommand::Reset);
    assert!(changed && log.acks.is_empty());
    assert!(effects.flash.is_none() && effects.confidence.is_none());
}
