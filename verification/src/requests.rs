//! What the terminal hears of what the command line asks.

use vstd::prelude::*;
use vstd::utf8::encode_utf8;
use crate::cli::{
    emission, fields_of, flag_text, joined, last_value, law_fields_read_back, separable,
    sequence_text, some_decimal, some_flag_text, wide16, wide32, with_field, with_some, Commands, FieldsView,
};
use crate::number::Single;
use crate::osc_parser::{
    command_of, field, law_sequences_read_back, pairs_of, sequence_command, sequence_data,
    CommandView, NumberView,
    avatar_gesture_command, avatar_set_command, avatar_speak_command, bookmark_command,
    cd_command, chart_command, close_pane_command, confidence_command, flash_command,
    focus_pane_command, git_branch_command, git_diff_command, git_merge_command,
    git_stash_command, history_command, jump_command, kill_command, ls_command,
    macro_export_command, macro_play_command, macro_record_command, macro_run_command,
    mood_command, net_command, note_command, ps_command, pulse_command, react_command,
    remove_object_command, resize_pane_command, screenshot_command, set_mode_command,
    set_warp_command, sound_command, spawn_object_command, split_pane_command, think_command,
    timeline_command, tint_command, tree_command, update_cursor_command, update_object_command,
    user_cursor_command, user_join_command, user_leave_command,
};
use crate::query::token_view;
use crate::screen::{command_heard, law_data_is_heard_as_written, rejoined, request_number};
use crate::text::{decimal, first_index, halves_at, lemma_decimal_value, pieces, unsigned_value};

verus! {

/// A number as it is written, over a fallback.
pub open spec fn said(text: Option<Seq<char>>, fallback: u32) -> NumberView {
    NumberView { text, fallback: Single { bits: fallback } }
}

/// What the terminal hears of a request: the same request, but for four. The
/// state and the list of objects are not for it to answer. A warp is written
/// without a name, so that the terminal hears the fallback; the color of a tint
/// is the payload as a whole.
pub open spec fn heard(command: Commands) -> Option<CommandView> {
    match command {
        Commands::ObjectAdd { path, x, y, scale, spin, brightness, remesh } => Some(
            CommandView::SpawnObject {
                path: path@,
                x,
                y,
                scale: said(Some(scale@), 0x3f80_0000),
                spin: said(Some(spin@), 0),
                brightness: said(Some(brightness@), 0x3f80_0000),
                remesh,
            },
        ),
        Commands::ObjectRemove { id } => Some(
            CommandView::RemoveObject {
                id,
            },
        ),
        Commands::ObjectClear => Some(CommandView::ClearObjects),
        Commands::ObjectList => None,
        Commands::ObjectUpdate { id, x, y, scale, spin, brightness } => Some(
            CommandView::UpdateObject {
                id,
                x,
                y,
                scale: token_view(scale),
                spin: token_view(spin),
                brightness: token_view(brightness),
            },
        ),
        Commands::Mode { mode } => Some(
            CommandView::SetMode {
                mode: mode@,
            },
        ),
        Commands::Warp { .. } => Some(
            CommandView::SetWarp {
                intensity: said(None, 0),
            },
        ),
        Commands::Flash { color, duration } => Some(
            CommandView::Flash {
                color: color@,
                duration: said(Some(duration@), 0x3f00_0000),
            },
        ),
        Commands::Pulse { intensity, duration } => Some(
            CommandView::Pulse {
                intensity: said(Some(intensity@), 0x3f4c_cccd),
                duration: said(Some(duration@), 0x3f80_0000),
            },
        ),
        Commands::Cursor { model, spin, bob_speed, bob_amp, brightness, visible } => Some(
            CommandView::UpdateCursor {
                model: token_view(model),
                spin: token_view(spin),
                bob_speed: token_view(bob_speed),
                bob_amp: token_view(bob_amp),
                brightness: token_view(brightness),
                visible,
            },
        ),
        Commands::Reset => Some(CommandView::Reset),
        Commands::State => None,
        Commands::Screenshot { path } => Some(
            CommandView::Screenshot {
                path: path@,
            },
        ),
        Commands::Chart { kind, x, y, scale, data } => Some(
            CommandView::Chart {
                kind: kind@,
                x,
                y,
                scale: said(Some(scale@), 0x3f80_0000),
                data: data@,
            },
        ),
        Commands::Timeline { x, y, scale, input } => Some(
            CommandView::Timeline {
                x,
                y,
                scale: said(Some(scale@), 0x3f80_0000),
                input: input@,
            },
        ),
        Commands::Tint { opacity, .. } => Some(
            CommandView::Tint {
                color: joined(fields_of(command)),
                opacity: said(Some(opacity@), 0x3dcc_cccd),
            },
        ),
        Commands::Ps { visualize, highlight, color } => Some(
            CommandView::Ps {
                visualize,
                highlight,
                color: token_view(color),
            },
        ),
        Commands::Kill { pid, effect } => Some(
            CommandView::Kill {
                pid,
                effect: effect@,
            },
        ),
        Commands::Cd { path, visualize } => Some(
            CommandView::Cd {
                path: path@,
                visualize,
            },
        ),
        Commands::Ls { path, visualize } => Some(
            CommandView::Ls {
                path: path@,
                visualize,
            },
        ),
        Commands::Tree { depth, visualize } => Some(
            CommandView::Tree {
                depth,
                visualize,
            },
        ),
        Commands::GitBranch { visualize } => Some(
            CommandView::GitBranch {
                visualize,
            },
        ),
        Commands::GitDiff { visualize } => Some(
            CommandView::GitDiff {
                visualize,
            },
        ),
        Commands::GitMerge { visualize } => Some(
            CommandView::GitMerge {
                visualize,
            },
        ),
        Commands::GitStash { visualize } => Some(
            CommandView::GitStash {
                visualize,
            },
        ),
        Commands::Net { visualize, host } => Some(
            CommandView::Net {
                visualize,
                host: token_view(host),
            },
        ),
        Commands::Think { state } => Some(
            CommandView::Think {
                state: state.word()@,
            },
        ),
        Commands::Confidence { level } => Some(
            CommandView::Confidence {
                level: said(Some(level@), 0x3f00_0000),
            },
        ),
        Commands::Mood { mood } => Some(
            CommandView::Mood {
                mood: mood.name()@,
            },
        ),
        Commands::Split { direction, ratio } => Some(
            CommandView::SplitPane {
                direction: direction@,
                ratio: said(Some(ratio@), 0x3f00_0000),
            },
        ),
        Commands::Focus { pane } => Some(
            CommandView::FocusPane {
                pane,
            },
        ),
        Commands::Resize { pane, width, height } => Some(
            CommandView::ResizePane {
                pane,
                width,
                height,
            },
        ),
        Commands::Close { pane } => Some(
            CommandView::ClosePane {
                pane,
            },
        ),
        Commands::History { last, visualize } => Some(
            CommandView::History {
                last,
                visualize,
            },
        ),
        Commands::Bookmark { name } => Some(
            CommandView::Bookmark {
                name: name@,
            },
        ),
        Commands::Jump { name } => Some(
            CommandView::Jump {
                name: name@,
            },
        ),
        Commands::UserJoin { name, color } => Some(
            CommandView::UserJoin {
                name: name@,
                color: color@,
            },
        ),
        Commands::UserLeave { name } => Some(
            CommandView::UserLeave {
                name: name@,
            },
        ),
        Commands::UserCursor { name, x, y } => Some(
            CommandView::UserCursor {
                name: name@,
                x,
                y,
            },
        ),
        Commands::Note { text, x, y, expires } => Some(
            CommandView::Note {
                text: text@,
                x,
                y,
                expires: expires@,
            },
        ),
        Commands::Sound { kind, loop_sound } => Some(
            CommandView::Sound {
                kind: kind.word()@,
                loop_sound,
            },
        ),
        Commands::AvatarSet { model, position } => Some(
            CommandView::AvatarSet {
                model: model@,
                position: position@,
            },
        ),
        Commands::AvatarGesture { gesture } => Some(
            CommandView::AvatarGesture {
                gesture: gesture.word()@,
            },
        ),
        Commands::AvatarSpeak { text } => Some(
            CommandView::AvatarSpeak {
                text: text@,
            },
        ),
        Commands::AvatarHide => Some(CommandView::AvatarHide),
        Commands::MacroRecord { name } => Some(
            CommandView::MacroRecord {
                name: name@,
            },
        ),
        Commands::MacroStop => Some(CommandView::MacroStop),
        Commands::MacroPlay { name } => Some(
            CommandView::MacroPlay {
                name: name@,
            },
        ),
        Commands::MacroExport { name, to } => Some(
            CommandView::MacroExport {
                name: name@,
                to: to@,
            },
        ),
        Commands::MacroRun { path } => Some(
            CommandView::MacroRun {
                path: path@,
            },
        ),
        Commands::React { effect, cpu_high, memory_high, battery_low } => Some(
            CommandView::React {
                effect: effect@,
                cpu_high: token_view(cpu_high),
                memory_high: token_view(memory_high),
                battery_low: token_view(battery_low),
            },
        ),
    }
}

/// Whether a request's fields can be told apart: no text that goes into a field
/// has an ampersand, and a warp is no field.
pub open spec fn tellable(command: Commands) -> bool {
    separable(fields_of(command)) && (command matches Commands::Warp { intensity }
        ==> !intensity@.contains('='))
}

/// Whether a request's data is read as [`heard`] says.
pub open spec fn data_reads_back(command: Commands) -> bool {
    let (action, payload) = emission(command);
    sequence_command(sequence_data(action, payload)) == heard(command)
}

proof fn lemma_no_semicolon(action: Seq<char>)
    requires
        action.len() <= 14,
        0 < action.len() ==> action[0] != ';',
        1 < action.len() ==> action[1] != ';',
        2 < action.len() ==> action[2] != ';',
        3 < action.len() ==> action[3] != ';',
        4 < action.len() ==> action[4] != ';',
        5 < action.len() ==> action[5] != ';',
        6 < action.len() ==> action[6] != ';',
        7 < action.len() ==> action[7] != ';',
        8 < action.len() ==> action[8] != ';',
        9 < action.len() ==> action[9] != ';',
        10 < action.len() ==> action[10] != ';',
        11 < action.len() ==> action[11] != ';',
        12 < action.len() ==> action[12] != ';',
        13 < action.len() ==> action[13] != ';',
    ensures
        !action.contains(';'),
{
    if action.contains(';') {
        let i = choose|i: int| 0 <= i < action.len() && action[i] == ';';
        assert(i == 0 || i == 1 || i == 2 || i == 3 || i == 4 || i == 5 || i == 6 || i == 7 || i
            == 8 || i == 9 || i == 10 || i == 11 || i == 12 || i == 13);
    }
}

proof fn lemma_pushed(fields: FieldsView, key: Seq<char>, value: Seq<char>)
    ensures
        forall|name: Seq<char>|
            #![trigger last_value(with_field(fields, key, value), name)]
            last_value(with_field(fields, key, value), name) == if key == name {
                Some(value)
            } else {
                last_value(fields, name)
            },
{
    let more = with_field(fields, key, value);
    assert(more.drop_last() =~= fields);
}

proof fn lemma_pushed_some(fields: FieldsView, key: Seq<char>, value: Option<Seq<char>>)
    ensures
        forall|name: Seq<char>|
            #![trigger last_value(with_some(fields, key, value), name)]
            last_value(with_some(fields, key, value), name) == if key == name && value is Some {
                value
            } else {
                last_value(fields, name)
            },
{
    if let Some(text) = value {
        lemma_pushed(fields, key, text);
        assert(with_some(fields, key, value) == with_field(fields, key, text));
    }
}

proof fn lemma_number_reads(n: nat, max: nat)
    requires
        n <= max,
    ensures
        unsigned_value(decimal(n), max) == Some(n),
{
    lemma_decimal_value(n);
    let digits = decimal(n);
    assert('0' <= digits[0]);
}

proof fn lemma_flag_reads(flag: bool)
    ensures
        (flag_text(flag) == "true"@) == flag,
{
    reveal_strlit("true");
    reveal_strlit("false");
    assert("true"@.len() == 4 && "false"@.len() == 5);
}

proof fn lemma_no_name(s: Seq<char>, from: int)
    requires
        0 <= from <= s.len(),
        !s.contains('='),
    ensures
        forall|i: int|
            0 <= i < pieces(s, '&', from).len() ==> halves_at(
                #[trigger] pieces(s, '&', from)[i],
                '=',
            ) is None,
    decreases s.len() - from,
{
    let end = first_index(s, '&', from);
    let all = pieces(s, '&', from);
    if from < 0 || end < from || end >= s.len() {
        lemma_plain_piece(s, from, s.len() as int);
    } else {
        lemma_plain_piece(s, from, end);
        lemma_no_name(s, end + 1);
        let rest = pieces(s, '&', end + 1);
        assert forall|i: int| 0 <= i < all.len() implies halves_at(#[trigger] all[i], '=') is None by {
            if i > 0 {
                assert(all[i] == rest[i - 1]);
            }
        }
    }
}

proof fn lemma_plain_piece(s: Seq<char>, from: int, to: int)
    requires
        0 <= from <= to <= s.len(),
        !s.contains('='),
    ensures
        halves_at(s.subrange(from, to), '=') is None,
{
    let piece = s.subrange(from, to);
    lemma_mark_is_found(piece, 0);
    let at = first_index(piece, '=', 0);
    if at < piece.len() {
        assert(s[from + at] == '=');
        assert(s.contains('='));
    }
}

proof fn lemma_mark_is_found(s: Seq<char>, from: int)
    requires
        0 <= from <= s.len(),
    ensures
        from <= first_index(s, '=', from) <= s.len(),
        first_index(s, '=', from) < s.len() ==> s[first_index(s, '=', from)] == '=',
    decreases s.len() - from,
{
    if from < s.len() && s[from] != '=' {
        lemma_mark_is_found(s, from + 1);
    }
}

proof fn lemma_unnamed(pairs: Seq<Seq<char>>, key: Seq<char>)
    requires
        forall|i: int| 0 <= i < pairs.len() ==> halves_at(#[trigger] pairs[i], '=') is None,
    ensures
        field(pairs, key) is None,
    decreases pairs.len(),
{
    if pairs.len() > 0 {
        assert(pairs.last() == pairs[pairs.len() - 1]);
        assert forall|i: int| 0 <= i < pairs.len() - 1 implies halves_at(
            #[trigger] pairs.drop_last()[i],
            '=',
        ) is None by {
            assert(pairs.drop_last()[i] == pairs[i]);
        }
        lemma_unnamed(pairs.drop_last(), key);
    }
}

/// What tells the words of the wire apart: length, first and last letter, and
/// the one two thirds of the way.
pub open spec fn print_of(word: Seq<char>) -> (int, char, char, char) {
    (word.len() as int, word[0], word[word.len() - 1], word[2 * word.len() as int / 3])
}

proof fn lemma_words()
    ensures
        print_of("avatar.gesture"@) == (14int, 'a', 'e', 's'),
        print_of("avatar.hide"@) == (11int, 'a', 'e', 'h'),
        print_of("avatar.set"@) == (10int, 'a', 't', '.'),
        print_of("avatar.speak"@) == (12int, 'a', 'k', 'p'),
        print_of("battery_low"@) == (11int, 'b', 'w', '_'),
        print_of("bob_amp"@) == (7int, 'b', 'p', 'a'),
        print_of("bob_speed"@) == (9int, 'b', 'd', 'e'),
        print_of("bookmark"@) == (8int, 'b', 'k', 'a'),
        print_of("brightness"@) == (10int, 'b', 's', 'n'),
        print_of("cd"@) == (2int, 'c', 'd', 'd'),
        print_of("chart"@) == (5int, 'c', 't', 'r'),
        print_of("color"@) == (5int, 'c', 'r', 'o'),
        print_of("confidence"@) == (10int, 'c', 'e', 'e'),
        print_of("cpu_high"@) == (8int, 'c', 'h', 'i'),
        print_of("cursor"@) == (6int, 'c', 'r', 'o'),
        print_of("data"@) == (4int, 'd', 'a', 't'),
        print_of("depth"@) == (5int, 'd', 'h', 't'),
        print_of("direction"@) == (9int, 'd', 'n', 'i'),
        print_of("duration"@) == (8int, 'd', 'n', 'i'),
        print_of("effect"@) == (6int, 'e', 't', 'c'),
        print_of("expires"@) == (7int, 'e', 's', 'r'),
        print_of("flash"@) == (5int, 'f', 'h', 's'),
        print_of("gesture"@) == (7int, 'g', 'e', 'u'),
        print_of("git.branch"@) == (10int, 'g', 'h', 'a'),
        print_of("git.diff"@) == (8int, 'g', 'f', 'i'),
        print_of("git.merge"@) == (9int, 'g', 'e', 'r'),
        print_of("git.stash"@) == (9int, 'g', 'h', 'a'),
        print_of("height"@) == (6int, 'h', 't', 'h'),
        print_of("highlight"@) == (9int, 'h', 't', 'g'),
        print_of("history"@) == (7int, 'h', 'y', 'o'),
        print_of("host"@) == (4int, 'h', 't', 's'),
        print_of("id"@) == (2int, 'i', 'd', 'd'),
        print_of("input"@) == (5int, 'i', 't', 'u'),
        print_of("intensity"@) == (9int, 'i', 'y', 'i'),
        print_of("jump"@) == (4int, 'j', 'p', 'm'),
        print_of("kill"@) == (4int, 'k', 'l', 'l'),
        print_of("kind"@) == (4int, 'k', 'd', 'n'),
        print_of("last"@) == (4int, 'l', 't', 's'),
        print_of("level"@) == (5int, 'l', 'l', 'e'),
        print_of("loop"@) == (4int, 'l', 'p', 'o'),
        print_of("ls"@) == (2int, 'l', 's', 's'),
        print_of("macro.export"@) == (12int, 'm', 't', 'p'),
        print_of("macro.play"@) == (10int, 'm', 'y', 'p'),
        print_of("macro.record"@) == (12int, 'm', 'd', 'c'),
        print_of("macro.run"@) == (9int, 'm', 'n', 'r'),
        print_of("macro.stop"@) == (10int, 'm', 'p', 's'),
        print_of("memory_high"@) == (11int, 'm', 'h', 'h'),
        print_of("mode"@) == (4int, 'm', 'e', 'd'),
        print_of("model"@) == (5int, 'm', 'l', 'e'),
        print_of("mood"@) == (4int, 'm', 'd', 'o'),
        print_of("name"@) == (4int, 'n', 'e', 'm'),
        print_of("net"@) == (3int, 'n', 't', 't'),
        print_of("note"@) == (4int, 'n', 'e', 't'),
        print_of("object.add"@) == (10int, 'o', 'd', '.'),
        print_of("object.clear"@) == (12int, 'o', 'r', 'l'),
        print_of("object.list"@) == (11int, 'o', 't', 'l'),
        print_of("object.remove"@) == (13int, 'o', 'e', 'e'),
        print_of("object.update"@) == (13int, 'o', 'e', 'p'),
        print_of("opacity"@) == (7int, 'o', 'y', 'i'),
        print_of("pane"@) == (4int, 'p', 'e', 'n'),
        print_of("pane.close"@) == (10int, 'p', 'e', 'l'),
        print_of("pane.focus"@) == (10int, 'p', 's', 'o'),
        print_of("pane.resize"@) == (11int, 'p', 'e', 's'),
        print_of("pane.split"@) == (10int, 'p', 't', 'p'),
        print_of("path"@) == (4int, 'p', 'h', 't'),
        print_of("pid"@) == (3int, 'p', 'd', 'd'),
        print_of("position"@) == (8int, 'p', 'n', 'i'),
        print_of("ps"@) == (2int, 'p', 's', 's'),
        print_of("pulse"@) == (5int, 'p', 'e', 's'),
        print_of("ratio"@) == (5int, 'r', 'o', 'i'),
        print_of("react"@) == (5int, 'r', 't', 'c'),
        print_of("remesh"@) == (6int, 'r', 'h', 's'),
        print_of("reset"@) == (5int, 'r', 't', 'e'),
        print_of("scale"@) == (5int, 's', 'e', 'l'),
        print_of("screenshot"@) == (10int, 's', 't', 's'),
        print_of("sound"@) == (5int, 's', 'd', 'n'),
        print_of("spin"@) == (4int, 's', 'n', 'i'),
        print_of("state"@) == (5int, 's', 'e', 't'),
        print_of("text"@) == (4int, 't', 't', 'x'),
        print_of("think"@) == (5int, 't', 'k', 'n'),
        print_of("timeline"@) == (8int, 't', 'e', 'i'),
        print_of("tint"@) == (4int, 't', 't', 'n'),
        print_of("to"@) == (2int, 't', 'o', 'o'),
        print_of("tree"@) == (4int, 't', 'e', 'e'),
        print_of("user.cursor"@) == (11int, 'u', 'r', 'r'),
        print_of("user.join"@) == (9int, 'u', 'n', 'o'),
        print_of("user.leave"@) == (10int, 'u', 'e', 'e'),
        print_of("visible"@) == (7int, 'v', 'e', 'b'),
        print_of("visualize"@) == (9int, 'v', 'e', 'i'),
        print_of("warp"@) == (4int, 'w', 'p', 'r'),
        print_of("width"@) == (5int, 'w', 'h', 't'),
        print_of("x"@) == (1int, 'x', 'x', 'x'),
        print_of("y"@) == (1int, 'y', 'y', 'y'),
{
    reveal_strlit("avatar.gesture");
    reveal_strlit("avatar.hide");
    reveal_strlit("avatar.set");
    reveal_strlit("avatar.speak");
    reveal_strlit("battery_low");
    reveal_strlit("bob_amp");
    reveal_strlit("bob_speed");
    reveal_strlit("bookmark");
    reveal_strlit("brightness");
    reveal_strlit("cd");
    reveal_strlit("chart");
    reveal_strlit("color");
    reveal_strlit("confidence");
    reveal_strlit("cpu_high");
    reveal_strlit("cursor");
    reveal_strlit("data");
    reveal_strlit("depth");
    reveal_strlit("direction");
    reveal_strlit("duration");
    reveal_strlit("effect");
    reveal_strlit("expires");
    reveal_strlit("flash");
    reveal_strlit("gesture");
    reveal_strlit("git.branch");
    reveal_strlit("git.diff");
    reveal_strlit("git.merge");
    reveal_strlit("git.stash");
    reveal_strlit("height");
    reveal_strlit("highlight");
    reveal_strlit("history");
    reveal_strlit("host");
    reveal_strlit("id");
    reveal_strlit("input");
    reveal_strlit("intensity");
    reveal_strlit("jump");
    reveal_strlit("kill");
    reveal_strlit("kind");
    reveal_strlit("last");
    reveal_strlit("level");
    reveal_strlit("loop");
    reveal_strlit("ls");
    reveal_strlit("macro.export");
    reveal_strlit("macro.play");
    reveal_strlit("macro.record");
    reveal_strlit("macro.run");
    reveal_strlit("macro.stop");
    reveal_strlit("memory_high");
    reveal_strlit("mode");
    reveal_strlit("model");
    reveal_strlit("mood");
    reveal_strlit("name");
    reveal_strlit("net");
    reveal_strlit("note");
    reveal_strlit("object.add");
    reveal_strlit("object.clear");
    reveal_strlit("object.list");
    reveal_strlit("object.remove");
    reveal_strlit("object.update");
    reveal_strlit("opacity");
    reveal_strlit("pane");
    reveal_strlit("pane.close");
    reveal_strlit("pane.focus");
    reveal_strlit("pane.resize");
    reveal_strlit("pane.split");
    reveal_strlit("path");
    reveal_strlit("pid");
    reveal_strlit("position");
    reveal_strlit("ps");
    reveal_strlit("pulse");
    reveal_strlit("ratio");
    reveal_strlit("react");
    reveal_strlit("remesh");
    reveal_strlit("reset");
    reveal_strlit("scale");
    reveal_strlit("screenshot");
    reveal_strlit("sound");
    reveal_strlit("spin");
    reveal_strlit("state");
    reveal_strlit("text");
    reveal_strlit("think");
    reveal_strlit("timeline");
    reveal_strlit("tint");
    reveal_strlit("to");
    reveal_strlit("tree");
    reveal_strlit("user.cursor");
    reveal_strlit("user.join");
    reveal_strlit("user.leave");
    reveal_strlit("visible");
    reveal_strlit("visualize");
    reveal_strlit("warp");
    reveal_strlit("width");
    reveal_strlit("x");
    reveal_strlit("y");
}

proof fn lemma_actions()
    ensures
        !"avatar.gesture"@.contains(';'),
        !"avatar.hide"@.contains(';'),
        !"avatar.set"@.contains(';'),
        !"avatar.speak"@.contains(';'),
        !"bookmark"@.contains(';'),
        !"cd"@.contains(';'),
        !"chart"@.contains(';'),
        !"confidence"@.contains(';'),
        !"cursor"@.contains(';'),
        !"flash"@.contains(';'),
        !"git.branch"@.contains(';'),
        !"git.diff"@.contains(';'),
        !"git.merge"@.contains(';'),
        !"git.stash"@.contains(';'),
        !"history"@.contains(';'),
        !"jump"@.contains(';'),
        !"kill"@.contains(';'),
        !"ls"@.contains(';'),
        !"macro.export"@.contains(';'),
        !"macro.play"@.contains(';'),
        !"macro.record"@.contains(';'),
        !"macro.run"@.contains(';'),
        !"macro.stop"@.contains(';'),
        !"mode"@.contains(';'),
        !"mood"@.contains(';'),
        !"net"@.contains(';'),
        !"note"@.contains(';'),
        !"object.add"@.contains(';'),
        !"object.clear"@.contains(';'),
        !"object.list"@.contains(';'),
        !"object.remove"@.contains(';'),
        !"object.update"@.contains(';'),
        !"pane.close"@.contains(';'),
        !"pane.focus"@.contains(';'),
        !"pane.resize"@.contains(';'),
        !"pane.split"@.contains(';'),
        !"ps"@.contains(';'),
        !"pulse"@.contains(';'),
        !"react"@.contains(';'),
        !"reset"@.contains(';'),
        !"screenshot"@.contains(';'),
        !"sound"@.contains(';'),
        !"state"@.contains(';'),
        !"think"@.contains(';'),
        !"timeline"@.contains(';'),
        !"tint"@.contains(';'),
        !"tree"@.contains(';'),
        !"user.cursor"@.contains(';'),
        !"user.join"@.contains(';'),
        !"user.leave"@.contains(';'),
        !"warp"@.contains(';'),
{
    reveal_strlit("avatar.gesture");
    lemma_no_semicolon("avatar.gesture"@);
    reveal_strlit("avatar.hide");
    lemma_no_semicolon("avatar.hide"@);
    reveal_strlit("avatar.set");
    lemma_no_semicolon("avatar.set"@);
    reveal_strlit("avatar.speak");
    lemma_no_semicolon("avatar.speak"@);
    reveal_strlit("bookmark");
    lemma_no_semicolon("bookmark"@);
    reveal_strlit("cd");
    lemma_no_semicolon("cd"@);
    reveal_strlit("chart");
    lemma_no_semicolon("chart"@);
    reveal_strlit("confidence");
    lemma_no_semicolon("confidence"@);
    reveal_strlit("cursor");
    lemma_no_semicolon("cursor"@);
    reveal_strlit("flash");
    lemma_no_semicolon("flash"@);
    reveal_strlit("git.branch");
    lemma_no_semicolon("git.branch"@);
    reveal_strlit("git.diff");
    lemma_no_semicolon("git.diff"@);
    reveal_strlit("git.merge");
    lemma_no_semicolon("git.merge"@);
    reveal_strlit("git.stash");
    lemma_no_semicolon("git.stash"@);
    reveal_strlit("history");
    lemma_no_semicolon("history"@);
    reveal_strlit("jump");
    lemma_no_semicolon("jump"@);
    reveal_strlit("kill");
    lemma_no_semicolon("kill"@);
    reveal_strlit("ls");
    lemma_no_semicolon("ls"@);
    reveal_strlit("macro.export");
    lemma_no_semicolon("macro.export"@);
    reveal_strlit("macro.play");
    lemma_no_semicolon("macro.play"@);
    reveal_strlit("macro.record");
    lemma_no_semicolon("macro.record"@);
    reveal_strlit("macro.run");
    lemma_no_semicolon("macro.run"@);
    reveal_strlit("macro.stop");
    lemma_no_semicolon("macro.stop"@);
    reveal_strlit("mode");
    lemma_no_semicolon("mode"@);
    reveal_strlit("mood");
    lemma_no_semicolon("mood"@);
    reveal_strlit("net");
    lemma_no_semicolon("net"@);
    reveal_strlit("note");
    lemma_no_semicolon("note"@);
    reveal_strlit("object.add");
    lemma_no_semicolon("object.add"@);
    reveal_strlit("object.clear");
    lemma_no_semicolon("object.clear"@);
    reveal_strlit("object.list");
    lemma_no_semicolon("object.list"@);
    reveal_strlit("object.remove");
    lemma_no_semicolon("object.remove"@);
    reveal_strlit("object.update");
    lemma_no_semicolon("object.update"@);
    reveal_strlit("pane.close");
    lemma_no_semicolon("pane.close"@);
    reveal_strlit("pane.focus");
    lemma_no_semicolon("pane.focus"@);
    reveal_strlit("pane.resize");
    lemma_no_semicolon("pane.resize"@);
    reveal_strlit("pane.split");
    lemma_no_semicolon("pane.split"@);
    reveal_strlit("ps");
    lemma_no_semicolon("ps"@);
    reveal_strlit("pulse");
    lemma_no_semicolon("pulse"@);
    reveal_strlit("react");
    lemma_no_semicolon("react"@);
    reveal_strlit("reset");
    lemma_no_semicolon("reset"@);
    reveal_strlit("screenshot");
    lemma_no_semicolon("screenshot"@);
    reveal_strlit("sound");
    lemma_no_semicolon("sound"@);
    reveal_strlit("state");
    lemma_no_semicolon("state"@);
    reveal_strlit("think");
    lemma_no_semicolon("think"@);
    reveal_strlit("timeline");
    lemma_no_semicolon("timeline"@);
    reveal_strlit("tint");
    lemma_no_semicolon("tint"@);
    reveal_strlit("tree");
    lemma_no_semicolon("tree"@);
    reveal_strlit("user.cursor");
    lemma_no_semicolon("user.cursor"@);
    reveal_strlit("user.join");
    lemma_no_semicolon("user.join"@);
    reveal_strlit("user.leave");
    lemma_no_semicolon("user.leave"@);
    reveal_strlit("warp");
    lemma_no_semicolon("warp"@);
}

proof fn lemma_hears_object_add(command: Commands)
    requires
        command is ObjectAdd,
        tellable(command),
    ensures
        data_reads_back(command),
{
    lemma_words();
    lemma_actions();
    let action = "object.add"@;
    let payload = emission(command).1;
    law_sequences_read_back(action, payload);
    assert(command_of(action, payload) == spawn_object_command(pairs_of(payload)));
    match command {
        Commands::ObjectAdd { path, x, y, scale, spin, brightness, remesh } => {
            let f0: FieldsView = Seq::empty();
            let f1 = with_field(f0, "path"@, path@);
            lemma_pushed(f0, "path"@, path@);
            let f2 = with_field(f1, "x"@, decimal(x as nat));
            lemma_pushed(f1, "x"@, decimal(x as nat));
            let f3 = with_field(f2, "y"@, decimal(y as nat));
            lemma_pushed(f2, "y"@, decimal(y as nat));
            let f4 = with_field(f3, "scale"@, scale@);
            lemma_pushed(f3, "scale"@, scale@);
            let f5 = with_field(f4, "spin"@, spin@);
            lemma_pushed(f4, "spin"@, spin@);
            let f6 = with_field(f5, "brightness"@, brightness@);
            lemma_pushed(f5, "brightness"@, brightness@);
            let f7 = with_field(f6, "remesh"@, flag_text(remesh));
            lemma_pushed(f6, "remesh"@, flag_text(remesh));
            assert(f7 == fields_of(command));
            law_fields_read_back(f7, "path"@);
            law_fields_read_back(f7, "x"@);
            law_fields_read_back(f7, "y"@);
            law_fields_read_back(f7, "scale"@);
            law_fields_read_back(f7, "spin"@);
            law_fields_read_back(f7, "brightness"@);
            law_fields_read_back(f7, "remesh"@);
            lemma_number_reads(x as nat, u16::MAX as nat);
            lemma_number_reads(y as nat, u16::MAX as nat);
            lemma_flag_reads(remesh);
        },
        _ => {},
    }
}

proof fn lemma_hears_object_remove(command: Commands)
    requires
        command is ObjectRemove,
        tellable(command),
    ensures
        data_reads_back(command),
{
    lemma_words();
    lemma_actions();
    let action = "object.remove"@;
    let payload = emission(command).1;
    law_sequences_read_back(action, payload);
    assert(command_of(action, payload) == remove_object_command(pairs_of(payload)));
    match command {
        Commands::ObjectRemove { id } => {
            let f0: FieldsView = Seq::empty();
            let f1 = with_field(f0, "id"@, decimal(id as nat));
            lemma_pushed(f0, "id"@, decimal(id as nat));
            assert(f1 == fields_of(command));
            law_fields_read_back(f1, "id"@);
            lemma_number_reads(id as nat, u32::MAX as nat);
        },
        _ => {},
    }
}

proof fn lemma_hears_object_clear(command: Commands)
    requires
        command is ObjectClear,
        tellable(command),
    ensures
        data_reads_back(command),
{
    lemma_words();
    lemma_actions();
    let action = "object.clear"@;
    let payload = emission(command).1;
    law_sequences_read_back(action, payload);
    assert(command_of(action, payload) == Some(CommandView::ClearObjects));
}

proof fn lemma_hears_object_list(command: Commands)
    requires
        command is ObjectList,
        tellable(command),
    ensures
        data_reads_back(command),
{
    lemma_words();
    lemma_actions();
    let action = "object.list"@;
    let payload = emission(command).1;
    law_sequences_read_back(action, payload);
    assert(command_of(action, payload) is None);
}

proof fn lemma_hears_object_update(command: Commands)
    requires
        command is ObjectUpdate,
        tellable(command),
    ensures
        data_reads_back(command),
{
    lemma_words();
    lemma_actions();
    let action = "object.update"@;
    let payload = emission(command).1;
    law_sequences_read_back(action, payload);
    assert(command_of(action, payload) == update_object_command(pairs_of(payload)));
    match command {
        Commands::ObjectUpdate { id, x, y, scale, spin, brightness } => {
            let f0: FieldsView = Seq::empty();
            let f1 = with_field(f0, "id"@, decimal(id as nat));
            lemma_pushed(f0, "id"@, decimal(id as nat));
            let f2 = with_some(f1, "x"@, some_decimal(wide16(x)));
            lemma_pushed_some(f1, "x"@, some_decimal(wide16(x)));
            let f3 = with_some(f2, "y"@, some_decimal(wide16(y)));
            lemma_pushed_some(f2, "y"@, some_decimal(wide16(y)));
            let f4 = with_some(f3, "scale"@, token_view(scale));
            lemma_pushed_some(f3, "scale"@, token_view(scale));
            let f5 = with_some(f4, "spin"@, token_view(spin));
            lemma_pushed_some(f4, "spin"@, token_view(spin));
            let f6 = with_some(f5, "brightness"@, token_view(brightness));
            lemma_pushed_some(f5, "brightness"@, token_view(brightness));
            assert(f6 == fields_of(command));
            law_fields_read_back(f6, "id"@);
            law_fields_read_back(f6, "x"@);
            law_fields_read_back(f6, "y"@);
            law_fields_read_back(f6, "scale"@);
            law_fields_read_back(f6, "spin"@);
            law_fields_read_back(f6, "brightness"@);
            lemma_number_reads(id as nat, u32::MAX as nat);
            if let Some(n) = x {
                lemma_number_reads(n as nat, u16::MAX as nat);
            }
            if let Some(n) = y {
                lemma_number_reads(n as nat, u16::MAX as nat);
            }
        },
        _ => {},
    }
}

proof fn lemma_hears_mode(command: Commands)
    requires
        command is Mode,
        tellable(command),
    ensures
        data_reads_back(command),
{
    lemma_words();
    lemma_actions();
    let action = "mode"@;
    let payload = emission(command).1;
    law_sequences_read_back(action, payload);
    assert(command_of(action, payload) == set_mode_command(payload));
}

proof fn lemma_hears_warp(command: Commands)
    requires
        command is Warp,
        tellable(command),
    ensures
        data_reads_back(command),
{
    lemma_words();
    lemma_actions();
    let action = "warp"@;
    let payload = emission(command).1;
    law_sequences_read_back(action, payload);
    assert(command_of(action, payload) == set_warp_command(pairs_of(payload)));
    lemma_no_name(payload, 0);
    lemma_unnamed(pairs_of(payload), "intensity"@);
}

proof fn lemma_hears_flash(command: Commands)
    requires
        command is Flash,
        tellable(command),
    ensures
        data_reads_back(command),
{
    lemma_words();
    lemma_actions();
    let action = "flash"@;
    let payload = emission(command).1;
    law_sequences_read_back(action, payload);
    assert(command_of(action, payload) == flash_command(pairs_of(payload)));
    match command {
        Commands::Flash { color, duration } => {
            let f0: FieldsView = Seq::empty();
            let f1 = with_field(f0, "color"@, color@);
            lemma_pushed(f0, "color"@, color@);
            let f2 = with_field(f1, "duration"@, duration@);
            lemma_pushed(f1, "duration"@, duration@);
            assert(f2 == fields_of(command));
            law_fields_read_back(f2, "color"@);
            law_fields_read_back(f2, "duration"@);
        },
        _ => {},
    }
}

proof fn lemma_hears_pulse(command: Commands)
    requires
        command is Pulse,
        tellable(command),
    ensures
        data_reads_back(command),
{
    lemma_words();
    lemma_actions();
    let action = "pulse"@;
    let payload = emission(command).1;
    law_sequences_read_back(action, payload);
    assert(command_of(action, payload) == pulse_command(pairs_of(payload)));
    match command {
        Commands::Pulse { intensity, duration } => {
            let f0: FieldsView = Seq::empty();
            let f1 = with_field(f0, "intensity"@, intensity@);
            lemma_pushed(f0, "intensity"@, intensity@);
            let f2 = with_field(f1, "duration"@, duration@);
            lemma_pushed(f1, "duration"@, duration@);
            assert(f2 == fields_of(command));
            law_fields_read_back(f2, "intensity"@);
            law_fields_read_back(f2, "duration"@);
        },
        _ => {},
    }
}

proof fn lemma_hears_cursor(command: Commands)
    requires
        command is Cursor,
        tellable(command),
    ensures
        data_reads_back(command),
{
    lemma_words();
    lemma_actions();
    let action = "cursor"@;
    let payload = emission(command).1;
    law_sequences_read_back(action, payload);
    assert(command_of(action, payload) == update_cursor_command(pairs_of(payload)));
    match command {
        Commands::Cursor { model, spin, bob_speed, bob_amp, brightness, visible } => {
            let f0: FieldsView = Seq::empty();
            let f1 = with_some(f0, "model"@, token_view(model));
            lemma_pushed_some(f0, "model"@, token_view(model));
            let f2 = with_some(f1, "spin"@, token_view(spin));
            lemma_pushed_some(f1, "spin"@, token_view(spin));
            let f3 = with_some(f2, "bob_speed"@, token_view(bob_speed));
            lemma_pushed_some(f2, "bob_speed"@, token_view(bob_speed));
            let f4 = with_some(f3, "bob_amp"@, token_view(bob_amp));
            lemma_pushed_some(f3, "bob_amp"@, token_view(bob_amp));
            let f5 = with_some(f4, "brightness"@, token_view(brightness));
            lemma_pushed_some(f4, "brightness"@, token_view(brightness));
            let f6 = with_some(f5, "visible"@, some_flag_text(visible));
            lemma_pushed_some(f5, "visible"@, some_flag_text(visible));
            assert(f6 == fields_of(command));
            law_fields_read_back(f6, "model"@);
            law_fields_read_back(f6, "spin"@);
            law_fields_read_back(f6, "bob_speed"@);
            law_fields_read_back(f6, "bob_amp"@);
            law_fields_read_back(f6, "brightness"@);
            law_fields_read_back(f6, "visible"@);
            if let Some(flag) = visible {
                lemma_flag_reads(flag);
            }
        },
        _ => {},
    }
}

proof fn lemma_hears_reset(command: Commands)
    requires
        command is Reset,
        tellable(command),
    ensures
        data_reads_back(command),
{
    lemma_words();
    lemma_actions();
    let action = "reset"@;
    let payload = emission(command).1;
    law_sequences_read_back(action, payload);
    assert(command_of(action, payload) == Some(CommandView::Reset));
}

proof fn lemma_hears_state(command: Commands)
    requires
        command is State,
        tellable(command),
    ensures
        data_reads_back(command),
{
    lemma_words();
    lemma_actions();
    let action = "state"@;
    let payload = emission(command).1;
    law_sequences_read_back(action, payload);
    assert(command_of(action, payload) is None);
}

proof fn lemma_hears_screenshot(command: Commands)
    requires
        command is Screenshot,
        tellable(command),
    ensures
        data_reads_back(command),
{
    lemma_words();
    lemma_actions();
    let action = "screenshot"@;
    let payload = emission(command).1;
    law_sequences_read_back(action, payload);
    assert(command_of(action, payload) == screenshot_command(pairs_of(payload)));
    match command {
        Commands::Screenshot { path } => {
            let f0: FieldsView = Seq::empty();
            let f1 = with_field(f0, "path"@, path@);
            lemma_pushed(f0, "path"@, path@);
            assert(f1 == fields_of(command));
            law_fields_read_back(f1, "path"@);
        },
        _ => {},
    }
}

proof fn lemma_hears_chart(command: Commands)
    requires
        command is Chart,
        tellable(command),
    ensures
        data_reads_back(command),
{
    lemma_words();
    lemma_actions();
    let action = "chart"@;
    let payload = emission(command).1;
    law_sequences_read_back(action, payload);
    assert(command_of(action, payload) == chart_command(pairs_of(payload)));
    match command {
        Commands::Chart { kind, x, y, scale, data } => {
            let f0: FieldsView = Seq::empty();
            let f1 = with_field(f0, "kind"@, kind@);
            lemma_pushed(f0, "kind"@, kind@);
            let f2 = with_field(f1, "x"@, decimal(x as nat));
            lemma_pushed(f1, "x"@, decimal(x as nat));
            let f3 = with_field(f2, "y"@, decimal(y as nat));
            lemma_pushed(f2, "y"@, decimal(y as nat));
            let f4 = with_field(f3, "scale"@, scale@);
            lemma_pushed(f3, "scale"@, scale@);
            let f5 = with_field(f4, "data"@, data@);
            lemma_pushed(f4, "data"@, data@);
            assert(f5 == fields_of(command));
            law_fields_read_back(f5, "kind"@);
            law_fields_read_back(f5, "x"@);
            law_fields_read_back(f5, "y"@);
            law_fields_read_back(f5, "scale"@);
            law_fields_read_back(f5, "data"@);
            lemma_number_reads(x as nat, u16::MAX as nat);
            lemma_number_reads(y as nat, u16::MAX as nat);
        },
        _ => {},
    }
}

proof fn lemma_hears_timeline(command: Commands)
    requires
        command is Timeline,
        tellable(command),
    ensures
        data_reads_back(command),
{
    lemma_words();
    lemma_actions();
    let action = "timeline"@;
    let payload = emission(command).1;
    law_sequences_read_back(action, payload);
    assert(command_of(action, payload) == timeline_command(pairs_of(payload)));
    match command {
        Commands::Timeline { x, y, scale, input } => {
            let f0: FieldsView = Seq::empty();
            let f1 = with_field(f0, "x"@, decimal(x as nat));
            lemma_pushed(f0, "x"@, decimal(x as nat));
            let f2 = with_field(f1, "y"@, decimal(y as nat));
            lemma_pushed(f1, "y"@, decimal(y as nat));
            let f3 = with_field(f2, "scale"@, scale@);
            lemma_pushed(f2, "scale"@, scale@);
            let f4 = with_field(f3, "input"@, input@);
            lemma_pushed(f3, "input"@, input@);
            assert(f4 == fields_of(command));
            law_fields_read_back(f4, "x"@);
            law_fields_read_back(f4, "y"@);
            law_fields_read_back(f4, "scale"@);
            law_fields_read_back(f4, "input"@);
            lemma_number_reads(x as nat, u16::MAX as nat);
            lemma_number_reads(y as nat, u16::MAX as nat);
        },
        _ => {},
    }
}

proof fn lemma_hears_tint(command: Commands)
    requires
        command is Tint,
        tellable(command),
    ensures
        data_reads_back(command),
{
    lemma_words();
    lemma_actions();
    let action = "tint"@;
    let payload = emission(command).1;
    law_sequences_read_back(action, payload);
    assert(command_of(action, payload) == tint_command(payload, pairs_of(payload)));
    match command {
        Commands::Tint { color, opacity } => {
            let f0: FieldsView = Seq::empty();
            let f1 = with_field(f0, "color"@, color@);
            lemma_pushed(f0, "color"@, color@);
            let f2 = with_field(f1, "opacity"@, opacity@);
            lemma_pushed(f1, "opacity"@, opacity@);
            assert(f2 == fields_of(command));
            law_fields_read_back(f2, "opacity"@);
        },
        _ => {},
    }
}

proof fn lemma_hears_ps(command: Commands)
    requires
        command is Ps,
        tellable(command),
    ensures
        data_reads_back(command),
{
    lemma_words();
    lemma_actions();
    let action = "ps"@;
    let payload = emission(command).1;
    law_sequences_read_back(action, payload);
    assert(command_of(action, payload) == ps_command(pairs_of(payload)));
    match command {
        Commands::Ps { visualize, highlight, color } => {
            let f0: FieldsView = Seq::empty();
            let f1 = with_field(f0, "visualize"@, flag_text(visualize));
            lemma_pushed(f0, "visualize"@, flag_text(visualize));
            let f2 = with_some(f1, "highlight"@, some_decimal(wide32(highlight)));
            lemma_pushed_some(f1, "highlight"@, some_decimal(wide32(highlight)));
            let f3 = with_some(f2, "color"@, token_view(color));
            lemma_pushed_some(f2, "color"@, token_view(color));
            assert(f3 == fields_of(command));
            law_fields_read_back(f3, "visualize"@);
            law_fields_read_back(f3, "highlight"@);
            law_fields_read_back(f3, "color"@);
            lemma_flag_reads(visualize);
            if let Some(n) = highlight {
                lemma_number_reads(n as nat, u32::MAX as nat);
            }
        },
        _ => {},
    }
}

proof fn lemma_hears_kill(command: Commands)
    requires
        command is Kill,
        tellable(command),
    ensures
        data_reads_back(command),
{
    lemma_words();
    lemma_actions();
    let action = "kill"@;
    let payload = emission(command).1;
    law_sequences_read_back(action, payload);
    assert(command_of(action, payload) == kill_command(pairs_of(payload)));
    match command {
        Commands::Kill { pid, effect } => {
            let f0: FieldsView = Seq::empty();
            let f1 = with_field(f0, "pid"@, decimal(pid as nat));
            lemma_pushed(f0, "pid"@, decimal(pid as nat));
            let f2 = with_field(f1, "effect"@, effect@);
            lemma_pushed(f1, "effect"@, effect@);
            assert(f2 == fields_of(command));
            law_fields_read_back(f2, "pid"@);
            law_fields_read_back(f2, "effect"@);
            lemma_number_reads(pid as nat, u32::MAX as nat);
        },
        _ => {},
    }
}

proof fn lemma_hears_cd(command: Commands)
    requires
        command is Cd,
        tellable(command),
    ensures
        data_reads_back(command),
{
    lemma_words();
    lemma_actions();
    let action = "cd"@;
    let payload = emission(command).1;
    law_sequences_read_back(action, payload);
    assert(command_of(action, payload) == cd_command(pairs_of(payload)));
    match command {
        Commands::Cd { path, visualize } => {
            let f0: FieldsView = Seq::empty();
            let f1 = with_field(f0, "path"@, path@);
            lemma_pushed(f0, "path"@, path@);
            let f2 = with_field(f1, "visualize"@, flag_text(visualize));
            lemma_pushed(f1, "visualize"@, flag_text(visualize));
            assert(f2 == fields_of(command));
            law_fields_read_back(f2, "path"@);
            law_fields_read_back(f2, "visualize"@);
            lemma_flag_reads(visualize);
        },
        _ => {},
    }
}

proof fn lemma_hears_ls(command: Commands)
    requires
        command is Ls,
        tellable(command),
    ensures
        data_reads_back(command),
{
    lemma_words();
    lemma_actions();
    let action = "ls"@;
    let payload = emission(command).1;
    law_sequences_read_back(action, payload);
    assert(command_of(action, payload) == ls_command(pairs_of(payload)));
    match command {
        Commands::Ls { path, visualize } => {
            let f0: FieldsView = Seq::empty();
            let f1 = with_field(f0, "path"@, path@);
            lemma_pushed(f0, "path"@, path@);
            let f2 = with_field(f1, "visualize"@, flag_text(visualize));
            lemma_pushed(f1, "visualize"@, flag_text(visualize));
            assert(f2 == fields_of(command));
            law_fields_read_back(f2, "path"@);
            law_fields_read_back(f2, "visualize"@);
            lemma_flag_reads(visualize);
        },
        _ => {},
    }
}

proof fn lemma_hears_tree(command: Commands)
    requires
        command is Tree,
        tellable(command),
    ensures
        data_reads_back(command),
{
    lemma_words();
    lemma_actions();
    let action = "tree"@;
    let payload = emission(command).1;
    law_sequences_read_back(action, payload);
    assert(command_of(action, payload) == tree_command(pairs_of(payload)));
    match command {
        Commands::Tree { depth, visualize } => {
            let f0: FieldsView = Seq::empty();
            let f1 = with_field(f0, "depth"@, decimal(depth as nat));
            lemma_pushed(f0, "depth"@, decimal(depth as nat));
            let f2 = with_field(f1, "visualize"@, flag_text(visualize));
            lemma_pushed(f1, "visualize"@, flag_text(visualize));
            assert(f2 == fields_of(command));
            law_fields_read_back(f2, "depth"@);
            law_fields_read_back(f2, "visualize"@);
            lemma_number_reads(depth as nat, u8::MAX as nat);
            lemma_flag_reads(visualize);
        },
        _ => {},
    }
}

proof fn lemma_hears_git_branch(command: Commands)
    requires
        command is GitBranch,
        tellable(command),
    ensures
        data_reads_back(command),
{
    lemma_words();
    lemma_actions();
    let action = "git.branch"@;
    let payload = emission(command).1;
    law_sequences_read_back(action, payload);
    assert(command_of(action, payload) == git_branch_command(pairs_of(payload)));
    match command {
        Commands::GitBranch { visualize } => {
            let f0: FieldsView = Seq::empty();
            let f1 = with_field(f0, "visualize"@, flag_text(visualize));
            lemma_pushed(f0, "visualize"@, flag_text(visualize));
            assert(f1 == fields_of(command));
            law_fields_read_back(f1, "visualize"@);
            lemma_flag_reads(visualize);
        },
        _ => {},
    }
}

proof fn lemma_hears_git_diff(command: Commands)
    requires
        command is GitDiff,
        tellable(command),
    ensures
        data_reads_back(command),
{
    lemma_words();
    lemma_actions();
    let action = "git.diff"@;
    let payload = emission(command).1;
    law_sequences_read_back(action, payload);
    assert(command_of(action, payload) == git_diff_command(pairs_of(payload)));
    match command {
        Commands::GitDiff { visualize } => {
            let f0: FieldsView = Seq::empty();
            let f1 = with_field(f0, "visualize"@, flag_text(visualize));
            lemma_pushed(f0, "visualize"@, flag_text(visualize));
            assert(f1 == fields_of(command));
            law_fields_read_back(f1, "visualize"@);
            lemma_flag_reads(visualize);
        },
        _ => {},
    }
}

proof fn lemma_hears_git_merge(command: Commands)
    requires
        command is GitMerge,
        tellable(command),
    ensures
        data_reads_back(command),
{
    lemma_words();
    lemma_actions();
    let action = "git.merge"@;
    let payload = emission(command).1;
    law_sequences_read_back(action, payload);
    assert(command_of(action, payload) == git_merge_command(pairs_of(payload)));
    match command {
        Commands::GitMerge { visualize } => {
            let f0: FieldsView = Seq::empty();
            let f1 = with_field(f0, "visualize"@, flag_text(visualize));
            lemma_pushed(f0, "visualize"@, flag_text(visualize));
            assert(f1 == fields_of(command));
            law_fields_read_back(f1, "visualize"@);
            lemma_flag_reads(visualize);
        },
        _ => {},
    }
}

proof fn lemma_hears_git_stash(command: Commands)
    requires
        command is GitStash,
        tellable(command),
    ensures
        data_reads_back(command),
{
    lemma_words();
    lemma_actions();
    let action = "git.stash"@;
    let payload = emission(command).1;
    law_sequences_read_back(action, payload);
    assert(command_of(action, payload) == git_stash_command(pairs_of(payload)));
    match command {
        Commands::GitStash { visualize } => {
            let f0: FieldsView = Seq::empty();
            let f1 = with_field(f0, "visualize"@, flag_text(visualize));
            lemma_pushed(f0, "visualize"@, flag_text(visualize));
            assert(f1 == fields_of(command));
            law_fields_read_back(f1, "visualize"@);
            lemma_flag_reads(visualize);
        },
        _ => {},
    }
}

proof fn lemma_hears_net(command: Commands)
    requires
        command is Net,
        tellable(command),
    ensures
        data_reads_back(command),
{
    lemma_words();
    lemma_actions();
    let action = "net"@;
    let payload = emission(command).1;
    law_sequences_read_back(action, payload);
    assert(command_of(action, payload) == net_command(pairs_of(payload)));
    match command {
        Commands::Net { visualize, host } => {
            let f0: FieldsView = Seq::empty();
            let f1 = with_field(f0, "visualize"@, flag_text(visualize));
            lemma_pushed(f0, "visualize"@, flag_text(visualize));
            let f2 = with_some(f1, "host"@, token_view(host));
            lemma_pushed_some(f1, "host"@, token_view(host));
            assert(f2 == fields_of(command));
            law_fields_read_back(f2, "visualize"@);
            law_fields_read_back(f2, "host"@);
            lemma_flag_reads(visualize);
        },
        _ => {},
    }
}

proof fn lemma_hears_think(command: Commands)
    requires
        command is Think,
        tellable(command),
    ensures
        data_reads_back(command),
{
    lemma_words();
    lemma_actions();
    let action = "think"@;
    let payload = emission(command).1;
    law_sequences_read_back(action, payload);
    assert(command_of(action, payload) == think_command(pairs_of(payload)));
    match command {
        Commands::Think { state } => {
            let f0: FieldsView = Seq::empty();
            let f1 = with_field(f0, "state"@, state.word()@);
            lemma_pushed(f0, "state"@, state.word()@);
            assert(f1 == fields_of(command));
            law_fields_read_back(f1, "state"@);
        },
        _ => {},
    }
}

proof fn lemma_hears_confidence(command: Commands)
    requires
        command is Confidence,
        tellable(command),
    ensures
        data_reads_back(command),
{
    lemma_words();
    lemma_actions();
    let action = "confidence"@;
    let payload = emission(command).1;
    law_sequences_read_back(action, payload);
    assert(command_of(action, payload) == confidence_command(pairs_of(payload)));
    match command {
        Commands::Confidence { level } => {
            let f0: FieldsView = Seq::empty();
            let f1 = with_field(f0, "level"@, level@);
            lemma_pushed(f0, "level"@, level@);
            assert(f1 == fields_of(command));
            law_fields_read_back(f1, "level"@);
        },
        _ => {},
    }
}

proof fn lemma_hears_mood(command: Commands)
    requires
        command is Mood,
        tellable(command),
    ensures
        data_reads_back(command),
{
    lemma_words();
    lemma_actions();
    let action = "mood"@;
    let payload = emission(command).1;
    law_sequences_read_back(action, payload);
    assert(command_of(action, payload) == mood_command(pairs_of(payload)));
    match command {
        Commands::Mood { mood } => {
            let f0: FieldsView = Seq::empty();
            let f1 = with_field(f0, "mood"@, mood.name()@);
            lemma_pushed(f0, "mood"@, mood.name()@);
            assert(f1 == fields_of(command));
            law_fields_read_back(f1, "mood"@);
        },
        _ => {},
    }
}

proof fn lemma_hears_split(command: Commands)
    requires
        command is Split,
        tellable(command),
    ensures
        data_reads_back(command),
{
    lemma_words();
    lemma_actions();
    let action = "pane.split"@;
    let payload = emission(command).1;
    law_sequences_read_back(action, payload);
    assert(command_of(action, payload) == split_pane_command(pairs_of(payload)));
    match command {
        Commands::Split { direction, ratio } => {
            let f0: FieldsView = Seq::empty();
            let f1 = with_field(f0, "direction"@, direction@);
            lemma_pushed(f0, "direction"@, direction@);
            let f2 = with_field(f1, "ratio"@, ratio@);
            lemma_pushed(f1, "ratio"@, ratio@);
            assert(f2 == fields_of(command));
            law_fields_read_back(f2, "direction"@);
            law_fields_read_back(f2, "ratio"@);
        },
        _ => {},
    }
}

proof fn lemma_hears_focus(command: Commands)
    requires
        command is Focus,
        tellable(command),
    ensures
        data_reads_back(command),
{
    lemma_words();
    lemma_actions();
    let action = "pane.focus"@;
    let payload = emission(command).1;
    law_sequences_read_back(action, payload);
    assert(command_of(action, payload) == focus_pane_command(pairs_of(payload)));
    match command {
        Commands::Focus { pane } => {
            let f0: FieldsView = Seq::empty();
            let f1 = with_field(f0, "pane"@, decimal(pane as nat));
            lemma_pushed(f0, "pane"@, decimal(pane as nat));
            assert(f1 == fields_of(command));
            law_fields_read_back(f1, "pane"@);
            lemma_number_reads(pane as nat, u8::MAX as nat);
        },
        _ => {},
    }
}

proof fn lemma_hears_resize(command: Commands)
    requires
        command is Resize,
        tellable(command),
    ensures
        data_reads_back(command),
{
    lemma_words();
    lemma_actions();
    let action = "pane.resize"@;
    let payload = emission(command).1;
    law_sequences_read_back(action, payload);
    assert(command_of(action, payload) == resize_pane_command(pairs_of(payload)));
    match command {
        Commands::Resize { pane, width, height } => {
            let f0: FieldsView = Seq::empty();
            let f1 = with_field(f0, "pane"@, decimal(pane as nat));
            lemma_pushed(f0, "pane"@, decimal(pane as nat));
            let f2 = with_some(f1, "width"@, some_decimal(wide16(width)));
            lemma_pushed_some(f1, "width"@, some_decimal(wide16(width)));
            let f3 = with_some(f2, "height"@, some_decimal(wide16(height)));
            lemma_pushed_some(f2, "height"@, some_decimal(wide16(height)));
            assert(f3 == fields_of(command));
            law_fields_read_back(f3, "pane"@);
            law_fields_read_back(f3, "width"@);
            law_fields_read_back(f3, "height"@);
            lemma_number_reads(pane as nat, u8::MAX as nat);
            if let Some(n) = width {
                lemma_number_reads(n as nat, u16::MAX as nat);
            }
            if let Some(n) = height {
                lemma_number_reads(n as nat, u16::MAX as nat);
            }
        },
        _ => {},
    }
}

proof fn lemma_hears_close(command: Commands)
    requires
        command is Close,
        tellable(command),
    ensures
        data_reads_back(command),
{
    lemma_words();
    lemma_actions();
    let action = "pane.close"@;
    let payload = emission(command).1;
    law_sequences_read_back(action, payload);
    assert(command_of(action, payload) == close_pane_command(pairs_of(payload)));
    match command {
        Commands::Close { pane } => {
            let f0: FieldsView = Seq::empty();
            let f1 = with_field(f0, "pane"@, decimal(pane as nat));
            lemma_pushed(f0, "pane"@, decimal(pane as nat));
            assert(f1 == fields_of(command));
            law_fields_read_back(f1, "pane"@);
            lemma_number_reads(pane as nat, u8::MAX as nat);
        },
        _ => {},
    }
}

proof fn lemma_hears_history(command: Commands)
    requires
        command is History,
        tellable(command),
    ensures
        data_reads_back(command),
{
    lemma_words();
    lemma_actions();
    let action = "history"@;
    let payload = emission(command).1;
    law_sequences_read_back(action, payload);
    assert(command_of(action, payload) == history_command(pairs_of(payload)));
    match command {
        Commands::History { last, visualize } => {
            let f0: FieldsView = Seq::empty();
            let f1 = with_field(f0, "last"@, decimal(last as nat));
            lemma_pushed(f0, "last"@, decimal(last as nat));
            let f2 = with_field(f1, "visualize"@, flag_text(visualize));
            lemma_pushed(f1, "visualize"@, flag_text(visualize));
            assert(f2 == fields_of(command));
            law_fields_read_back(f2, "last"@);
            law_fields_read_back(f2, "visualize"@);
            lemma_number_reads(last as nat, usize::MAX as nat);
            lemma_flag_reads(visualize);
        },
        _ => {},
    }
}

proof fn lemma_hears_bookmark(command: Commands)
    requires
        command is Bookmark,
        tellable(command),
    ensures
        data_reads_back(command),
{
    lemma_words();
    lemma_actions();
    let action = "bookmark"@;
    let payload = emission(command).1;
    law_sequences_read_back(action, payload);
    assert(command_of(action, payload) == bookmark_command(pairs_of(payload)));
    match command {
        Commands::Bookmark { name } => {
            let f0: FieldsView = Seq::empty();
            let f1 = with_field(f0, "name"@, name@);
            lemma_pushed(f0, "name"@, name@);
            assert(f1 == fields_of(command));
            law_fields_read_back(f1, "name"@);
        },
        _ => {},
    }
}

proof fn lemma_hears_jump(command: Commands)
    requires
        command is Jump,
        tellable(command),
    ensures
        data_reads_back(command),
{
    lemma_words();
    lemma_actions();
    let action = "jump"@;
    let payload = emission(command).1;
    law_sequences_read_back(action, payload);
    assert(command_of(action, payload) == jump_command(pairs_of(payload)));
    match command {
        Commands::Jump { name } => {
            let f0: FieldsView = Seq::empty();
            let f1 = with_field(f0, "name"@, name@);
            lemma_pushed(f0, "name"@, name@);
            assert(f1 == fields_of(command));
            law_fields_read_back(f1, "name"@);
        },
        _ => {},
    }
}

proof fn lemma_hears_user_join(command: Commands)
    requires
        command is UserJoin,
        tellable(command),
    ensures
        data_reads_back(command),
{
    lemma_words();
    lemma_actions();
    let action = "user.join"@;
    let payload = emission(command).1;
    law_sequences_read_back(action, payload);
    assert(command_of(action, payload) == user_join_command(pairs_of(payload)));
    match command {
        Commands::UserJoin { name, color } => {
            let f0: FieldsView = Seq::empty();
            let f1 = with_field(f0, "name"@, name@);
            lemma_pushed(f0, "name"@, name@);
            let f2 = with_field(f1, "color"@, color@);
            lemma_pushed(f1, "color"@, color@);
            assert(f2 == fields_of(command));
            law_fields_read_back(f2, "name"@);
            law_fields_read_back(f2, "color"@);
        },
        _ => {},
    }
}

proof fn lemma_hears_user_leave(command: Commands)
    requires
        command is UserLeave,
        tellable(command),
    ensures
        data_reads_back(command),
{
    lemma_words();
    lemma_actions();
    let action = "user.leave"@;
    let payload = emission(command).1;
    law_sequences_read_back(action, payload);
    assert(command_of(action, payload) == user_leave_command(pairs_of(payload)));
    match command {
        Commands::UserLeave { name } => {
            let f0: FieldsView = Seq::empty();
            let f1 = with_field(f0, "name"@, name@);
            lemma_pushed(f0, "name"@, name@);
            assert(f1 == fields_of(command));
            law_fields_read_back(f1, "name"@);
        },
        _ => {},
    }
}

proof fn lemma_hears_user_cursor(command: Commands)
    requires
        command is UserCursor,
        tellable(command),
    ensures
        data_reads_back(command),
{
    lemma_words();
    lemma_actions();
    let action = "user.cursor"@;
    let payload = emission(command).1;
    law_sequences_read_back(action, payload);
    assert(command_of(action, payload) == user_cursor_command(pairs_of(payload)));
    match command {
        Commands::UserCursor { name, x, y } => {
            let f0: FieldsView = Seq::empty();
            let f1 = with_field(f0, "name"@, name@);
            lemma_pushed(f0, "name"@, name@);
            let f2 = with_field(f1, "x"@, decimal(x as nat));
            lemma_pushed(f1, "x"@, decimal(x as nat));
            let f3 = with_field(f2, "y"@, decimal(y as nat));
            lemma_pushed(f2, "y"@, decimal(y as nat));
            assert(f3 == fields_of(command));
            law_fields_read_back(f3, "name"@);
            law_fields_read_back(f3, "x"@);
            law_fields_read_back(f3, "y"@);
            lemma_number_reads(x as nat, u16::MAX as nat);
            lemma_number_reads(y as nat, u16::MAX as nat);
        },
        _ => {},
    }
}

proof fn lemma_hears_note(command: Commands)
    requires
        command is Note,
        tellable(command),
    ensures
        data_reads_back(command),
{
    lemma_words();
    lemma_actions();
    let action = "note"@;
    let payload = emission(command).1;
    law_sequences_read_back(action, payload);
    assert(command_of(action, payload) == note_command(pairs_of(payload)));
    match command {
        Commands::Note { text, x, y, expires } => {
            let f0: FieldsView = Seq::empty();
            let f1 = with_field(f0, "text"@, text@);
            lemma_pushed(f0, "text"@, text@);
            let f2 = with_field(f1, "x"@, decimal(x as nat));
            lemma_pushed(f1, "x"@, decimal(x as nat));
            let f3 = with_field(f2, "y"@, decimal(y as nat));
            lemma_pushed(f2, "y"@, decimal(y as nat));
            let f4 = with_field(f3, "expires"@, expires@);
            lemma_pushed(f3, "expires"@, expires@);
            assert(f4 == fields_of(command));
            law_fields_read_back(f4, "text"@);
            law_fields_read_back(f4, "x"@);
            law_fields_read_back(f4, "y"@);
            law_fields_read_back(f4, "expires"@);
            lemma_number_reads(x as nat, u16::MAX as nat);
            lemma_number_reads(y as nat, u16::MAX as nat);
        },
        _ => {},
    }
}

proof fn lemma_hears_sound(command: Commands)
    requires
        command is Sound,
        tellable(command),
    ensures
        data_reads_back(command),
{
    lemma_words();
    lemma_actions();
    let action = "sound"@;
    let payload = emission(command).1;
    law_sequences_read_back(action, payload);
    assert(command_of(action, payload) == sound_command(pairs_of(payload)));
    match command {
        Commands::Sound { kind, loop_sound } => {
            let f0: FieldsView = Seq::empty();
            let f1 = with_field(f0, "kind"@, kind.word()@);
            lemma_pushed(f0, "kind"@, kind.word()@);
            let f2 = with_field(f1, "loop"@, flag_text(loop_sound));
            lemma_pushed(f1, "loop"@, flag_text(loop_sound));
            assert(f2 == fields_of(command));
            law_fields_read_back(f2, "kind"@);
            law_fields_read_back(f2, "loop"@);
            lemma_flag_reads(loop_sound);
        },
        _ => {},
    }
}

proof fn lemma_hears_avatar_set(command: Commands)
    requires
        command is AvatarSet,
        tellable(command),
    ensures
        data_reads_back(command),
{
    lemma_words();
    lemma_actions();
    let action = "avatar.set"@;
    let payload = emission(command).1;
    law_sequences_read_back(action, payload);
    assert(command_of(action, payload) == avatar_set_command(pairs_of(payload)));
    match command {
        Commands::AvatarSet { model, position } => {
            let f0: FieldsView = Seq::empty();
            let f1 = with_field(f0, "model"@, model@);
            lemma_pushed(f0, "model"@, model@);
            let f2 = with_field(f1, "position"@, position@);
            lemma_pushed(f1, "position"@, position@);
            assert(f2 == fields_of(command));
            law_fields_read_back(f2, "model"@);
            law_fields_read_back(f2, "position"@);
        },
        _ => {},
    }
}

proof fn lemma_hears_avatar_gesture(command: Commands)
    requires
        command is AvatarGesture,
        tellable(command),
    ensures
        data_reads_back(command),
{
    lemma_words();
    lemma_actions();
    let action = "avatar.gesture"@;
    let payload = emission(command).1;
    law_sequences_read_back(action, payload);
    assert(command_of(action, payload) == avatar_gesture_command(pairs_of(payload)));
    match command {
        Commands::AvatarGesture { gesture } => {
            let f0: FieldsView = Seq::empty();
            let f1 = with_field(f0, "gesture"@, gesture.word()@);
            lemma_pushed(f0, "gesture"@, gesture.word()@);
            assert(f1 == fields_of(command));
            law_fields_read_back(f1, "gesture"@);
        },
        _ => {},
    }
}

proof fn lemma_hears_avatar_speak(command: Commands)
    requires
        command is AvatarSpeak,
        tellable(command),
    ensures
        data_reads_back(command),
{
    lemma_words();
    lemma_actions();
    let action = "avatar.speak"@;
    let payload = emission(command).1;
    law_sequences_read_back(action, payload);
    assert(command_of(action, payload) == avatar_speak_command(pairs_of(payload)));
    match command {
        Commands::AvatarSpeak { text } => {
            let f0: FieldsView = Seq::empty();
            let f1 = with_field(f0, "text"@, text@);
            lemma_pushed(f0, "text"@, text@);
            assert(f1 == fields_of(command));
            law_fields_read_back(f1, "text"@);
        },
        _ => {},
    }
}

proof fn lemma_hears_avatar_hide(command: Commands)
    requires
        command is AvatarHide,
        tellable(command),
    ensures
        data_reads_back(command),
{
    lemma_words();
    lemma_actions();
    let action = "avatar.hide"@;
    let payload = emission(command).1;
    law_sequences_read_back(action, payload);
    assert(command_of(action, payload) == Some(CommandView::AvatarHide));
}

proof fn lemma_hears_macro_record(command: Commands)
    requires
        command is MacroRecord,
        tellable(command),
    ensures
        data_reads_back(command),
{
    lemma_words();
    lemma_actions();
    let action = "macro.record"@;
    let payload = emission(command).1;
    law_sequences_read_back(action, payload);
    assert(command_of(action, payload) == macro_record_command(pairs_of(payload)));
    match command {
        Commands::MacroRecord { name } => {
            let f0: FieldsView = Seq::empty();
            let f1 = with_field(f0, "name"@, name@);
            lemma_pushed(f0, "name"@, name@);
            assert(f1 == fields_of(command));
            law_fields_read_back(f1, "name"@);
        },
        _ => {},
    }
}

proof fn lemma_hears_macro_stop(command: Commands)
    requires
        command is MacroStop,
        tellable(command),
    ensures
        data_reads_back(command),
{
    lemma_words();
    lemma_actions();
    let action = "macro.stop"@;
    let payload = emission(command).1;
    law_sequences_read_back(action, payload);
    assert(command_of(action, payload) == Some(CommandView::MacroStop));
}

proof fn lemma_hears_macro_play(command: Commands)
    requires
        command is MacroPlay,
        tellable(command),
    ensures
        data_reads_back(command),
{
    lemma_words();
    lemma_actions();
    let action = "macro.play"@;
    let payload = emission(command).1;
    law_sequences_read_back(action, payload);
    assert(command_of(action, payload) == macro_play_command(pairs_of(payload)));
    match command {
        Commands::MacroPlay { name } => {
            let f0: FieldsView = Seq::empty();
            let f1 = with_field(f0, "name"@, name@);
            lemma_pushed(f0, "name"@, name@);
            assert(f1 == fields_of(command));
            law_fields_read_back(f1, "name"@);
        },
        _ => {},
    }
}

proof fn lemma_hears_macro_export(command: Commands)
    requires
        command is MacroExport,
        tellable(command),
    ensures
        data_reads_back(command),
{
    lemma_words();
    lemma_actions();
    let action = "macro.export"@;
    let payload = emission(command).1;
    law_sequences_read_back(action, payload);
    assert(command_of(action, payload) == macro_export_command(pairs_of(payload)));
    match command {
        Commands::MacroExport { name, to } => {
            let f0: FieldsView = Seq::empty();
            let f1 = with_field(f0, "name"@, name@);
            lemma_pushed(f0, "name"@, name@);
            let f2 = with_field(f1, "to"@, to@);
            lemma_pushed(f1, "to"@, to@);
            assert(f2 == fields_of(command));
            law_fields_read_back(f2, "name"@);
            law_fields_read_back(f2, "to"@);
        },
        _ => {},
    }
}

proof fn lemma_hears_macro_run(command: Commands)
    requires
        command is MacroRun,
        tellable(command),
    ensures
        data_reads_back(command),
{
    lemma_words();
    lemma_actions();
    let action = "macro.run"@;
    let payload = emission(command).1;
    law_sequences_read_back(action, payload);
    assert(command_of(action, payload) == macro_run_command(pairs_of(payload)));
    match command {
        Commands::MacroRun { path } => {
            let f0: FieldsView = Seq::empty();
            let f1 = with_field(f0, "path"@, path@);
            lemma_pushed(f0, "path"@, path@);
            assert(f1 == fields_of(command));
            law_fields_read_back(f1, "path"@);
        },
        _ => {},
    }
}

proof fn lemma_hears_react(command: Commands)
    requires
        command is React,
        tellable(command),
    ensures
        data_reads_back(command),
{
    lemma_words();
    lemma_actions();
    let action = "react"@;
    let payload = emission(command).1;
    law_sequences_read_back(action, payload);
    assert(command_of(action, payload) == react_command(pairs_of(payload)));
    match command {
        Commands::React { effect, cpu_high, memory_high, battery_low } => {
            let f0: FieldsView = Seq::empty();
            let f1 = with_field(f0, "effect"@, effect@);
            lemma_pushed(f0, "effect"@, effect@);
            let f2 = with_some(f1, "cpu_high"@, token_view(cpu_high));
            lemma_pushed_some(f1, "cpu_high"@, token_view(cpu_high));
            let f3 = with_some(f2, "memory_high"@, token_view(memory_high));
            lemma_pushed_some(f2, "memory_high"@, token_view(memory_high));
            let f4 = with_some(f3, "battery_low"@, token_view(battery_low));
            lemma_pushed_some(f3, "battery_low"@, token_view(battery_low));
            assert(f4 == fields_of(command));
            law_fields_read_back(f4, "effect"@);
            law_fields_read_back(f4, "cpu_high"@);
            law_fields_read_back(f4, "memory_high"@);
            law_fields_read_back(f4, "battery_low"@);
        },
        _ => {},
    }
}

/// A request's data says what the command line asks: read back, it is the
/// request, as long as its fields can be told apart. Four requests are not
/// heard as they are meant: of a warp the intensity is lost, of a tint the
/// color is the whole list of fields, and the list of objects and the state are
/// no requests to the terminal at all. This is about the data alone: the
/// sequence that is printed puts an empty parameter before the number, see
/// [`law_an_empty_first_parameter_is_not_heard`].
pub proof fn law_request_data_reads_back(command: Commands)
    requires
        tellable(command),
    ensures
        data_reads_back(command),
{
    match command {
        Commands::ObjectAdd { .. } => lemma_hears_object_add(command),
        Commands::ObjectRemove { .. } => lemma_hears_object_remove(command),
        Commands::ObjectClear => lemma_hears_object_clear(command),
        Commands::ObjectList => lemma_hears_object_list(command),
        Commands::ObjectUpdate { .. } => lemma_hears_object_update(command),
        Commands::Mode { .. } => lemma_hears_mode(command),
        Commands::Warp { .. } => lemma_hears_warp(command),
        Commands::Flash { .. } => lemma_hears_flash(command),
        Commands::Pulse { .. } => lemma_hears_pulse(command),
        Commands::Cursor { .. } => lemma_hears_cursor(command),
        Commands::Reset => lemma_hears_reset(command),
        Commands::State => lemma_hears_state(command),
        Commands::Screenshot { .. } => lemma_hears_screenshot(command),
        Commands::Chart { .. } => lemma_hears_chart(command),
        Commands::Timeline { .. } => lemma_hears_timeline(command),
        Commands::Tint { .. } => lemma_hears_tint(command),
        Commands::Ps { .. } => lemma_hears_ps(command),
        Commands::Kill { .. } => lemma_hears_kill(command),
        Commands::Cd { .. } => lemma_hears_cd(command),
        Commands::Ls { .. } => lemma_hears_ls(command),
        Commands::Tree { .. } => lemma_hears_tree(command),
        Commands::GitBranch { .. } => lemma_hears_git_branch(command),
        Commands::GitDiff { .. } => lemma_hears_git_diff(command),
        Commands::GitMerge { .. } => lemma_hears_git_merge(command),
        Commands::GitStash { .. } => lemma_hears_git_stash(command),
        Commands::Net { .. } => lemma_hears_net(command),
        Commands::Think { .. } => lemma_hears_think(command),
        Commands::Confidence { .. } => lemma_hears_confidence(command),
        Commands::Mood { .. } => lemma_hears_mood(command),
        Commands::Split { .. } => lemma_hears_split(command),
        Commands::Focus { .. } => lemma_hears_focus(command),
        Commands::Resize { .. } => lemma_hears_resize(command),
        Commands::Close { .. } => lemma_hears_close(command),
        Commands::History { .. } => lemma_hears_history(command),
        Commands::Bookmark { .. } => lemma_hears_bookmark(command),
        Commands::Jump { .. } => lemma_hears_jump(command),
        Commands::UserJoin { .. } => lemma_hears_user_join(command),
        Commands::UserLeave { .. } => lemma_hears_user_leave(command),
        Commands::UserCursor { .. } => lemma_hears_user_cursor(command),
        Commands::Note { .. } => lemma_hears_note(command),
        Commands::Sound { .. } => lemma_hears_sound(command),
        Commands::AvatarSet { .. } => lemma_hears_avatar_set(command),
        Commands::AvatarGesture { .. } => lemma_hears_avatar_gesture(command),
        Commands::AvatarSpeak { .. } => lemma_hears_avatar_speak(command),
        Commands::AvatarHide => lemma_hears_avatar_hide(command),
        Commands::MacroRecord { .. } => lemma_hears_macro_record(command),
        Commands::MacroStop => lemma_hears_macro_stop(command),
        Commands::MacroPlay { .. } => lemma_hears_macro_play(command),
        Commands::MacroExport { .. } => lemma_hears_macro_export(command),
        Commands::MacroRun { .. } => lemma_hears_macro_run(command),
        Commands::React { .. } => lemma_hears_react(command),
    }
}

/// Behind the number, with whatever cuts at its semicolons, a request's data is
/// heard as the request.
pub proof fn law_requests_are_heard_behind_the_number(params: Seq<Seq<u8>>, command: Commands)
    requires
        tellable(command),
        params.len() > 0,
        params[0] == request_number(),
        ({
            let (action, payload) = emission(command);
            rejoined(params.drop_first()) == encode_utf8(sequence_data(action, payload))
        }),
    ensures
        command_heard(params) == heard(command),
{
    let (action, payload) = emission(command);
    law_request_data_reads_back(command);
    law_data_is_heard_as_written(params, sequence_data(action, payload));
}

/// A command whose first parameter is empty, as the one is that
/// [`law_sequences_frame_their_data`] speaks of, is no request to the terminal.
pub proof fn law_an_empty_first_parameter_is_not_heard(params: Seq<Seq<u8>>)
    requires
        params.len() > 0,
        params[0].len() == 0,
    ensures
        command_heard(params) is None,
{
}

/// What is printed is the data of a request, framed: the number stands behind
/// an empty parameter, and a bell ends it.
pub proof fn law_sequences_frame_their_data(action: Seq<char>, payload: Seq<char>)
    ensures
        sequence_text(action, payload) == "\u{1b}];777;"@ + sequence_data(action, payload)
            + "\u{7}"@,
{
    reveal_strlit("\u{1b}]");
    reveal_strlit(";");
    reveal_strlit("777;ratty");
    reveal_strlit(":");
    reveal_strlit("\u{1b}];777;");
    reveal_strlit("ratty:");
    assert("\u{1b}]"@ + ";"@ + "777;ratty"@ + ":"@ =~= "\u{1b}];777;"@ + "ratty:"@);
    assert(sequence_text(action, payload) =~= "\u{1b}];777;"@ + sequence_data(action, payload)
        + "\u{7}"@);
}

/// Whether a text is a field's value, or the fallback where there is no such
/// field.
pub open spec fn text_is(
    pairs: Seq<Seq<char>>,
    key: Seq<char>,
    fallback: Seq<char>,
    value: Seq<char>,
) -> bool {
    match field(pairs, key) {
        Some(text) => value == text,
        None => value == fallback,
    }
}

/// Whether a number is a field's text, over a fallback of these bits.
pub open spec fn number_is(
    pairs: Seq<Seq<char>>,
    key: Seq<char>,
    fallback: u32,
    value: NumberView,
) -> bool {
    value.text == field(pairs, key) && value.fallback.bits == fallback
}

/// Whether a whole number is what a field reads as, or the fallback where it
/// does not read as one that is small enough.
pub open spec fn whole_is(
    pairs: Seq<Seq<char>>,
    key: Seq<char>,
    max: nat,
    fallback: int,
    value: int,
) -> bool {
    match field(pairs, key) {
        Some(text) => match unsigned_value(text, max) {
            Some(n) => value == n,
            None => value == fallback,
        },
        None => value == fallback,
    }
}

/// Whether a field reads as a whole number that is small enough.
pub open spec fn reads_whole(pairs: Seq<Seq<char>>, key: Seq<char>, max: nat) -> bool {
    match field(pairs, key) {
        Some(text) => unsigned_value(text, max) is Some,
        None => false,
    }
}

/// The fields of a payload: the last that has a name counts, what is no field
/// is skipped, and where no field has the name there is none.
pub proof fn law_the_last_field_counts(
    pairs: Seq<Seq<char>>,
    name: Seq<char>,
    value: Seq<char>,
    key: Seq<char>,
    blank: Seq<char>,
)
    requires
        !name.contains('='),
        !blank.contains('='),
    ensures
        field(Seq::empty(), key) is None,
        name == key ==> field(pairs.push(name + seq!['='] + value), key) == Some(value),
        name != key ==> field(pairs.push(name + seq!['='] + value), key) == field(pairs, key),
        field(pairs.push(blank), key) == field(pairs, key),
{
    let pair = name + seq!['='] + value;
    assert(pairs.push(pair).drop_last() =~= pairs);
    assert(pairs.push(blank).drop_last() =~= pairs);
    crate::text::law_joined_texts_split_again(name, value, '=');
    crate::text::law_texts_split_at_the_first_mark(blank, '=');
}

/// What the data of a sequence is: `ratty:`, the action, and behind the first
/// semicolon, if there is one, the escaped payload. Without the prefix it is no
/// request.
pub proof fn law_what_a_sequence_asks(data: Seq<char>, action: Seq<char>, rest: Seq<char>)
    requires
        !action.contains(';'),
    ensures
        sequence_command(seq!['r', 'a', 't', 't', 'y', ':'] + action) == command_of(
            action,
            Seq::empty(),
        ),
        sequence_command(seq!['r', 'a', 't', 't', 'y', ':'] + action + seq![';'] + rest) == (
        match crate::url::url_decoded(rest) {
            Some(payload) => command_of(action, payload),
            None => None,
        }),
        !(seq!['r', 'a', 't', 't', 'y', ':'].is_prefix_of(data)) ==> sequence_command(data) is None,
{
    reveal_strlit("ratty:");
    let prefix = seq!['r', 'a', 't', 't', 'y', ':'];
    assert("ratty:"@ =~= prefix);
    let bare = prefix + action;
    assert(bare.take(6) =~= prefix);
    assert(bare.skip(6) =~= action);
    crate::text::law_texts_split_at_the_first_mark(action, ';');
    assert(vstd::utf8::encode_utf8(Seq::<char>::empty()) =~= Seq::empty());
    crate::url::law_payloads_read_back(Seq::empty());
    assert(crate::url::url_encoded(Seq::<char>::empty()) =~= Seq::empty()) by {
        assert(crate::url::escaped(Seq::<u8>::empty()) =~= Seq::empty());
    }
    let full = prefix + action + seq![';'] + rest;
    let behind = full.skip(6);
    assert(full.take(6) =~= prefix);
    assert(behind =~= action + seq![';'] + rest);
    crate::text::law_joined_texts_split_again(action, rest, ';');
    if !prefix.is_prefix_of(data) && 6 <= data.len() && data.take(6) == prefix {
        assert(data.subrange(0, 6) =~= prefix);
    }
}

/// What `mode` is read as, field by field.
pub proof fn law_mode_is_read(payload: Seq<char>)
    ensures
        ({
            let pairs = pieces(payload, '&', 0);
            match command_of("mode"@, payload) {
                Some(CommandView::SetMode { mode }) => {
                    &&& mode == payload
                },
                Some(_) => false,
                None => false,
            }
        }),
{
    lemma_words();
}

/// What `warp` is read as, field by field.
pub proof fn law_warp_is_read(payload: Seq<char>)
    ensures
        ({
            let pairs = pieces(payload, '&', 0);
            match command_of("warp"@, payload) {
                Some(CommandView::SetWarp { intensity }) => {
                    &&& number_is(pairs, "intensity"@, 0, intensity)
                },
                Some(_) => false,
                None => false,
            }
        }),
{
    lemma_words();
}

/// What `object.add` is read as, field by field.
pub proof fn law_object_add_is_read(payload: Seq<char>)
    ensures
        ({
            let pairs = pieces(payload, '&', 0);
            match command_of("object.add"@, payload) {
                Some(CommandView::SpawnObject { path, x, y, scale, spin, brightness, remesh }) => {
                    &&& field(pairs, "path"@) == Some(path)
                    &&& whole_is(pairs, "x"@, 65535, 0, x as int)
                    &&& whole_is(pairs, "y"@, 65535, 0, y as int)
                    &&& number_is(pairs, "scale"@, 0x3f80_0000, scale)
                    &&& number_is(pairs, "spin"@, 0, spin)
                    &&& number_is(pairs, "brightness"@, 0x3f80_0000, brightness)
                    &&& (remesh <==> field(pairs, "remesh"@) == Some("true"@))
                },
                Some(_) => false,
                None => !(field(pairs, "path"@) is Some),
            }
        }),
{
    lemma_words();
}

/// What `object.remove` is read as, field by field.
pub proof fn law_object_remove_is_read(payload: Seq<char>)
    ensures
        ({
            let pairs = pieces(payload, '&', 0);
            match command_of("object.remove"@, payload) {
                Some(CommandView::RemoveObject { id }) => {
                    &&& whole_is(pairs, "id"@, 4294967295, -1, id as int)
                },
                Some(_) => false,
                None => !(reads_whole(pairs, "id"@, 4294967295)),
            }
        }),
{
    lemma_words();
}

/// What `object.clear` is read as.
pub proof fn law_object_clear_is_read(payload: Seq<char>)
    ensures
        command_of("object.clear"@, payload) == Some(CommandView::ClearObjects),
{
    lemma_words();
}

/// What `object.update` is read as, field by field.
pub proof fn law_object_update_is_read(payload: Seq<char>)
    ensures
        ({
            let pairs = pieces(payload, '&', 0);
            match command_of("object.update"@, payload) {
                Some(CommandView::UpdateObject { id, x, y, scale, spin, brightness }) => {
                    &&& whole_is(pairs, "id"@, 4294967295, -1, id as int)
                    &&& (x is Some <==> reads_whole(pairs, "x"@, 65535)) && (x is Some ==> whole_is(pairs, "x"@, 65535, -1, x->0 as int))
                    &&& (y is Some <==> reads_whole(pairs, "y"@, 65535)) && (y is Some ==> whole_is(pairs, "y"@, 65535, -1, y->0 as int))
                    &&& scale == field(pairs, "scale"@)
                    &&& spin == field(pairs, "spin"@)
                    &&& brightness == field(pairs, "brightness"@)
                },
                Some(_) => false,
                None => !(reads_whole(pairs, "id"@, 4294967295)),
            }
        }),
{
    lemma_words();
}

/// What `flash` is read as, field by field.
pub proof fn law_flash_is_read(payload: Seq<char>)
    ensures
        ({
            let pairs = pieces(payload, '&', 0);
            match command_of("flash"@, payload) {
                Some(CommandView::Flash { color, duration }) => {
                    &&& text_is(pairs, "color"@, "#ffffff"@, color)
                    &&& number_is(pairs, "duration"@, 0x3f00_0000, duration)
                },
                Some(_) => false,
                None => false,
            }
        }),
{
    lemma_words();
}

/// What `pulse` is read as, field by field.
pub proof fn law_pulse_is_read(payload: Seq<char>)
    ensures
        ({
            let pairs = pieces(payload, '&', 0);
            match command_of("pulse"@, payload) {
                Some(CommandView::Pulse { intensity, duration }) => {
                    &&& number_is(pairs, "intensity"@, 0x3f4c_cccd, intensity)
                    &&& number_is(pairs, "duration"@, 0x3f80_0000, duration)
                },
                Some(_) => false,
                None => false,
            }
        }),
{
    lemma_words();
}

/// What `cursor` is read as, field by field.
pub proof fn law_cursor_is_read(payload: Seq<char>)
    ensures
        ({
            let pairs = pieces(payload, '&', 0);
            match command_of("cursor"@, payload) {
                Some(CommandView::UpdateCursor { model, spin, bob_speed, bob_amp, brightness, visible }) => {
                    &&& model == field(pairs, "model"@)
                    &&& spin == field(pairs, "spin"@)
                    &&& bob_speed == field(pairs, "bob_speed"@)
                    &&& bob_amp == field(pairs, "bob_amp"@)
                    &&& brightness == field(pairs, "brightness"@)
                    &&& (visible is Some <==> field(pairs, "visible"@) is Some) && (visible is Some ==> (visible->0 <==> field(pairs, "visible"@) == Some("true"@)))
                },
                Some(_) => false,
                None => false,
            }
        }),
{
    lemma_words();
}

/// What `reset` is read as.
pub proof fn law_reset_is_read(payload: Seq<char>)
    ensures
        command_of("reset"@, payload) == Some(CommandView::Reset),
{
    lemma_words();
}

/// What `screenshot` is read as, field by field.
pub proof fn law_screenshot_is_read(payload: Seq<char>)
    ensures
        ({
            let pairs = pieces(payload, '&', 0);
            match command_of("screenshot"@, payload) {
                Some(CommandView::Screenshot { path }) => {
                    &&& text_is(pairs, "path"@, "ratty-screenshot.png"@, path)
                },
                Some(_) => false,
                None => false,
            }
        }),
{
    lemma_words();
}

/// What `chart` is read as, field by field.
pub proof fn law_chart_is_read(payload: Seq<char>)
    ensures
        ({
            let pairs = pieces(payload, '&', 0);
            match command_of("chart"@, payload) {
                Some(CommandView::Chart { kind, x, y, scale, data }) => {
                    &&& text_is(pairs, "kind"@, "bar"@, kind)
                    &&& whole_is(pairs, "x"@, 65535, 0, x as int)
                    &&& whole_is(pairs, "y"@, 65535, 0, y as int)
                    &&& number_is(pairs, "scale"@, 0x3f80_0000, scale)
                    &&& text_is(pairs, "data"@, "[]"@, data)
                },
                Some(_) => false,
                None => false,
            }
        }),
{
    lemma_words();
}

/// What `timeline` is read as, field by field.
pub proof fn law_timeline_is_read(payload: Seq<char>)
    ensures
        ({
            let pairs = pieces(payload, '&', 0);
            match command_of("timeline"@, payload) {
                Some(CommandView::Timeline { x, y, scale, input }) => {
                    &&& whole_is(pairs, "x"@, 65535, 0, x as int)
                    &&& whole_is(pairs, "y"@, 65535, 0, y as int)
                    &&& number_is(pairs, "scale"@, 0x3f80_0000, scale)
                    &&& text_is(pairs, "input"@, ""@, input)
                },
                Some(_) => false,
                None => false,
            }
        }),
{
    lemma_words();
}

/// What `tint` is read as, field by field.
pub proof fn law_tint_is_read(payload: Seq<char>)
    ensures
        ({
            let pairs = pieces(payload, '&', 0);
            match command_of("tint"@, payload) {
                Some(CommandView::Tint { color, opacity }) => {
                    &&& color == payload
                    &&& number_is(pairs, "opacity"@, 0x3dcc_cccd, opacity)
                },
                Some(_) => false,
                None => false,
            }
        }),
{
    lemma_words();
}

/// What `ps` is read as, field by field.
pub proof fn law_ps_is_read(payload: Seq<char>)
    ensures
        ({
            let pairs = pieces(payload, '&', 0);
            match command_of("ps"@, payload) {
                Some(CommandView::Ps { visualize, highlight, color }) => {
                    &&& (visualize <==> field(pairs, "visualize"@) == Some("true"@))
                    &&& (highlight is Some <==> reads_whole(pairs, "highlight"@, 4294967295)) && (highlight is Some ==> whole_is(pairs, "highlight"@, 4294967295, -1, highlight->0 as int))
                    &&& color == field(pairs, "color"@)
                },
                Some(_) => false,
                None => false,
            }
        }),
{
    lemma_words();
}

/// What `kill` is read as, field by field.
pub proof fn law_kill_is_read(payload: Seq<char>)
    ensures
        ({
            let pairs = pieces(payload, '&', 0);
            match command_of("kill"@, payload) {
                Some(CommandView::Kill { pid, effect }) => {
                    &&& whole_is(pairs, "pid"@, 4294967295, -1, pid as int)
                    &&& text_is(pairs, "effect"@, "explode"@, effect)
                },
                Some(_) => false,
                None => !(reads_whole(pairs, "pid"@, 4294967295)),
            }
        }),
{
    lemma_words();
}

/// What `cd` is read as, field by field.
pub proof fn law_cd_is_read(payload: Seq<char>)
    ensures
        ({
            let pairs = pieces(payload, '&', 0);
            match command_of("cd"@, payload) {
                Some(CommandView::Cd { path, visualize }) => {
                    &&& field(pairs, "path"@) == Some(path)
                    &&& (visualize <==> field(pairs, "visualize"@) == Some("true"@))
                },
                Some(_) => false,
                None => !(field(pairs, "path"@) is Some),
            }
        }),
{
    lemma_words();
}

/// What `ls` is read as, field by field.
pub proof fn law_ls_is_read(payload: Seq<char>)
    ensures
        ({
            let pairs = pieces(payload, '&', 0);
            match command_of("ls"@, payload) {
                Some(CommandView::Ls { path, visualize }) => {
                    &&& text_is(pairs, "path"@, "."@, path)
                    &&& (visualize <==> field(pairs, "visualize"@) == Some("true"@))
                },
                Some(_) => false,
                None => false,
            }
        }),
{
    lemma_words();
}

/// What `tree` is read as, field by field.
pub proof fn law_tree_is_read(payload: Seq<char>)
    ensures
        ({
            let pairs = pieces(payload, '&', 0);
            match command_of("tree"@, payload) {
                Some(CommandView::Tree { depth, visualize }) => {
                    &&& whole_is(pairs, "depth"@, 255, 3, depth as int)
                    &&& (visualize <==> field(pairs, "visualize"@) == Some("true"@))
                },
                Some(_) => false,
                None => false,
            }
        }),
{
    lemma_words();
}

/// What `git.branch` is read as, field by field.
pub proof fn law_git_branch_is_read(payload: Seq<char>)
    ensures
        ({
            let pairs = pieces(payload, '&', 0);
            match command_of("git.branch"@, payload) {
                Some(CommandView::GitBranch { visualize }) => {
                    &&& (visualize <==> field(pairs, "visualize"@) == Some("true"@))
                },
                Some(_) => false,
                None => false,
            }
        }),
{
    lemma_words();
}

/// What `git.diff` is read as, field by field.
pub proof fn law_git_diff_is_read(payload: Seq<char>)
    ensures
        ({
            let pairs = pieces(payload, '&', 0);
            match command_of("git.diff"@, payload) {
                Some(CommandView::GitDiff { visualize }) => {
                    &&& (visualize <==> field(pairs, "visualize"@) == Some("true"@))
                },
                Some(_) => false,
                None => false,
            }
        }),
{
    lemma_words();
}

/// What `git.merge` is read as, field by field.
pub proof fn law_git_merge_is_read(payload: Seq<char>)
    ensures
        ({
            let pairs = pieces(payload, '&', 0);
            match command_of("git.merge"@, payload) {
                Some(CommandView::GitMerge { visualize }) => {
                    &&& (visualize <==> field(pairs, "visualize"@) == Some("true"@))
                },
                Some(_) => false,
                None => false,
            }
        }),
{
    lemma_words();
}

/// What `git.stash` is read as, field by field.
pub proof fn law_git_stash_is_read(payload: Seq<char>)
    ensures
        ({
            let pairs = pieces(payload, '&', 0);
            match command_of("git.stash"@, payload) {
                Some(CommandView::GitStash { visualize }) => {
                    &&& (visualize <==> field(pairs, "visualize"@) == Some("true"@))
                },
                Some(_) => false,
                None => false,
            }
        }),
{
    lemma_words();
}

/// What `net` is read as, field by field.
pub proof fn law_net_is_read(payload: Seq<char>)
    ensures
        ({
            let pairs = pieces(payload, '&', 0);
            match command_of("net"@, payload) {
                Some(CommandView::Net { visualize, host }) => {
                    &&& (visualize <==> field(pairs, "visualize"@) == Some("true"@))
                    &&& host == field(pairs, "host"@)
                },
                Some(_) => false,
                None => false,
            }
        }),
{
    lemma_words();
}

/// What `think` is read as, field by field.
pub proof fn law_think_is_read(payload: Seq<char>)
    ensures
        ({
            let pairs = pieces(payload, '&', 0);
            match command_of("think"@, payload) {
                Some(CommandView::Think { state }) => {
                    &&& text_is(pairs, "state"@, "toggle"@, state)
                },
                Some(_) => false,
                None => false,
            }
        }),
{
    lemma_words();
}

/// What `confidence` is read as, field by field.
pub proof fn law_confidence_is_read(payload: Seq<char>)
    ensures
        ({
            let pairs = pieces(payload, '&', 0);
            match command_of("confidence"@, payload) {
                Some(CommandView::Confidence { level }) => {
                    &&& number_is(pairs, "level"@, 0x3f00_0000, level)
                },
                Some(_) => false,
                None => false,
            }
        }),
{
    lemma_words();
}

/// What `mood` is read as, field by field.
pub proof fn law_mood_is_read(payload: Seq<char>)
    ensures
        ({
            let pairs = pieces(payload, '&', 0);
            match command_of("mood"@, payload) {
                Some(CommandView::Mood { mood }) => {
                    &&& text_is(pairs, "mood"@, "focused"@, mood)
                },
                Some(_) => false,
                None => false,
            }
        }),
{
    lemma_words();
}

/// What `pane.split` is read as, field by field.
pub proof fn law_pane_split_is_read(payload: Seq<char>)
    ensures
        ({
            let pairs = pieces(payload, '&', 0);
            match command_of("pane.split"@, payload) {
                Some(CommandView::SplitPane { direction, ratio }) => {
                    &&& text_is(pairs, "direction"@, "vertical"@, direction)
                    &&& number_is(pairs, "ratio"@, 0x3f00_0000, ratio)
                },
                Some(_) => false,
                None => false,
            }
        }),
{
    lemma_words();
}

/// What `pane.focus` is read as, field by field.
pub proof fn law_pane_focus_is_read(payload: Seq<char>)
    ensures
        ({
            let pairs = pieces(payload, '&', 0);
            match command_of("pane.focus"@, payload) {
                Some(CommandView::FocusPane { pane }) => {
                    &&& whole_is(pairs, "pane"@, 255, -1, pane as int)
                },
                Some(_) => false,
                None => !(reads_whole(pairs, "pane"@, 255)),
            }
        }),
{
    lemma_words();
}

/// What `pane.resize` is read as, field by field.
pub proof fn law_pane_resize_is_read(payload: Seq<char>)
    ensures
        ({
            let pairs = pieces(payload, '&', 0);
            match command_of("pane.resize"@, payload) {
                Some(CommandView::ResizePane { pane, width, height }) => {
                    &&& whole_is(pairs, "pane"@, 255, -1, pane as int)
                    &&& (width is Some <==> reads_whole(pairs, "width"@, 65535)) && (width is Some ==> whole_is(pairs, "width"@, 65535, -1, width->0 as int))
                    &&& (height is Some <==> reads_whole(pairs, "height"@, 65535)) && (height is Some ==> whole_is(pairs, "height"@, 65535, -1, height->0 as int))
                },
                Some(_) => false,
                None => !(reads_whole(pairs, "pane"@, 255)),
            }
        }),
{
    lemma_words();
}

/// What `pane.close` is read as, field by field.
pub proof fn law_pane_close_is_read(payload: Seq<char>)
    ensures
        ({
            let pairs = pieces(payload, '&', 0);
            match command_of("pane.close"@, payload) {
                Some(CommandView::ClosePane { pane }) => {
                    &&& whole_is(pairs, "pane"@, 255, -1, pane as int)
                },
                Some(_) => false,
                None => !(reads_whole(pairs, "pane"@, 255)),
            }
        }),
{
    lemma_words();
}

/// What `history` is read as, field by field.
pub proof fn law_history_is_read(payload: Seq<char>)
    ensures
        ({
            let pairs = pieces(payload, '&', 0);
            match command_of("history"@, payload) {
                Some(CommandView::History { last, visualize }) => {
                    &&& whole_is(pairs, "last"@, usize::MAX as nat, 50, last as int)
                    &&& (visualize <==> field(pairs, "visualize"@) == Some("true"@))
                },
                Some(_) => false,
                None => false,
            }
        }),
{
    lemma_words();
}

/// What `bookmark` is read as, field by field.
pub proof fn law_bookmark_is_read(payload: Seq<char>)
    ensures
        ({
            let pairs = pieces(payload, '&', 0);
            match command_of("bookmark"@, payload) {
                Some(CommandView::Bookmark { name }) => {
                    &&& field(pairs, "name"@) == Some(name)
                },
                Some(_) => false,
                None => !(field(pairs, "name"@) is Some),
            }
        }),
{
    lemma_words();
}

/// What `jump` is read as, field by field.
pub proof fn law_jump_is_read(payload: Seq<char>)
    ensures
        ({
            let pairs = pieces(payload, '&', 0);
            match command_of("jump"@, payload) {
                Some(CommandView::Jump { name }) => {
                    &&& field(pairs, "name"@) == Some(name)
                },
                Some(_) => false,
                None => !(field(pairs, "name"@) is Some),
            }
        }),
{
    lemma_words();
}

/// What `user.join` is read as, field by field.
pub proof fn law_user_join_is_read(payload: Seq<char>)
    ensures
        ({
            let pairs = pieces(payload, '&', 0);
            match command_of("user.join"@, payload) {
                Some(CommandView::UserJoin { name, color }) => {
                    &&& field(pairs, "name"@) == Some(name)
                    &&& text_is(pairs, "color"@, "#00ff00"@, color)
                },
                Some(_) => false,
                None => !(field(pairs, "name"@) is Some),
            }
        }),
{
    lemma_words();
}

/// What `user.leave` is read as, field by field.
pub proof fn law_user_leave_is_read(payload: Seq<char>)
    ensures
        ({
            let pairs = pieces(payload, '&', 0);
            match command_of("user.leave"@, payload) {
                Some(CommandView::UserLeave { name }) => {
                    &&& field(pairs, "name"@) == Some(name)
                },
                Some(_) => false,
                None => !(field(pairs, "name"@) is Some),
            }
        }),
{
    lemma_words();
}

/// What `user.cursor` is read as, field by field.
pub proof fn law_user_cursor_is_read(payload: Seq<char>)
    ensures
        ({
            let pairs = pieces(payload, '&', 0);
            match command_of("user.cursor"@, payload) {
                Some(CommandView::UserCursor { name, x, y }) => {
                    &&& field(pairs, "name"@) == Some(name)
                    &&& whole_is(pairs, "x"@, 65535, 0, x as int)
                    &&& whole_is(pairs, "y"@, 65535, 0, y as int)
                },
                Some(_) => false,
                None => !(field(pairs, "name"@) is Some),
            }
        }),
{
    lemma_words();
}

/// What `note` is read as, field by field.
pub proof fn law_note_is_read(payload: Seq<char>)
    ensures
        ({
            let pairs = pieces(payload, '&', 0);
            match command_of("note"@, payload) {
                Some(CommandView::Note { text, x, y, expires }) => {
                    &&& field(pairs, "text"@) == Some(text)
                    &&& whole_is(pairs, "x"@, 65535, 0, x as int)
                    &&& whole_is(pairs, "y"@, 65535, 0, y as int)
                    &&& text_is(pairs, "expires"@, "1h"@, expires)
                },
                Some(_) => false,
                None => !(field(pairs, "text"@) is Some),
            }
        }),
{
    lemma_words();
}

/// What `sound` is read as, field by field.
pub proof fn law_sound_is_read(payload: Seq<char>)
    ensures
        ({
            let pairs = pieces(payload, '&', 0);
            match command_of("sound"@, payload) {
                Some(CommandView::Sound { kind, loop_sound }) => {
                    &&& text_is(pairs, "kind"@, "click"@, kind)
                    &&& (loop_sound <==> field(pairs, "loop"@) == Some("true"@))
                },
                Some(_) => false,
                None => false,
            }
        }),
{
    lemma_words();
}

/// What `avatar.set` is read as, field by field.
pub proof fn law_avatar_set_is_read(payload: Seq<char>)
    ensures
        ({
            let pairs = pieces(payload, '&', 0);
            match command_of("avatar.set"@, payload) {
                Some(CommandView::AvatarSet { model, position }) => {
                    &&& text_is(pairs, "model"@, "ai-helper.glb"@, model)
                    &&& text_is(pairs, "position"@, "top-right"@, position)
                },
                Some(_) => false,
                None => false,
            }
        }),
{
    lemma_words();
}

/// What `avatar.gesture` is read as, field by field.
pub proof fn law_avatar_gesture_is_read(payload: Seq<char>)
    ensures
        ({
            let pairs = pieces(payload, '&', 0);
            match command_of("avatar.gesture"@, payload) {
                Some(CommandView::AvatarGesture { gesture }) => {
                    &&& text_is(pairs, "gesture"@, "wave"@, gesture)
                },
                Some(_) => false,
                None => false,
            }
        }),
{
    lemma_words();
}

/// What `avatar.speak` is read as, field by field.
pub proof fn law_avatar_speak_is_read(payload: Seq<char>)
    ensures
        ({
            let pairs = pieces(payload, '&', 0);
            match command_of("avatar.speak"@, payload) {
                Some(CommandView::AvatarSpeak { text }) => {
                    &&& field(pairs, "text"@) == Some(text)
                },
                Some(_) => false,
                None => !(field(pairs, "text"@) is Some),
            }
        }),
{
    lemma_words();
}

/// What `avatar.hide` is read as.
pub proof fn law_avatar_hide_is_read(payload: Seq<char>)
    ensures
        command_of("avatar.hide"@, payload) == Some(CommandView::AvatarHide),
{
    lemma_words();
}

/// What `macro.record` is read as, field by field.
pub proof fn law_macro_record_is_read(payload: Seq<char>)
    ensures
        ({
            let pairs = pieces(payload, '&', 0);
            match command_of("macro.record"@, payload) {
                Some(CommandView::MacroRecord { name }) => {
                    &&& field(pairs, "name"@) == Some(name)
                },
                Some(_) => false,
                None => !(field(pairs, "name"@) is Some),
            }
        }),
{
    lemma_words();
}

/// What `macro.stop` is read as.
pub proof fn law_macro_stop_is_read(payload: Seq<char>)
    ensures
        command_of("macro.stop"@, payload) == Some(CommandView::MacroStop),
{
    lemma_words();
}

/// What `macro.play` is read as, field by field.
pub proof fn law_macro_play_is_read(payload: Seq<char>)
    ensures
        ({
            let pairs = pieces(payload, '&', 0);
            match command_of("macro.play"@, payload) {
                Some(CommandView::MacroPlay { name }) => {
                    &&& field(pairs, "name"@) == Some(name)
                },
                Some(_) => false,
                None => !(field(pairs, "name"@) is Some),
            }
        }),
{
    lemma_words();
}

/// What `macro.export` is read as, field by field.
pub proof fn law_macro_export_is_read(payload: Seq<char>)
    ensures
        ({
            let pairs = pieces(payload, '&', 0);
            match command_of("macro.export"@, payload) {
                Some(CommandView::MacroExport { name, to }) => {
                    &&& field(pairs, "name"@) == Some(name)
                    &&& text_is(pairs, "to"@, "macro.ratty"@, to)
                },
                Some(_) => false,
                None => !(field(pairs, "name"@) is Some),
            }
        }),
{
    lemma_words();
}

/// What `macro.run` is read as, field by field.
pub proof fn law_macro_run_is_read(payload: Seq<char>)
    ensures
        ({
            let pairs = pieces(payload, '&', 0);
            match command_of("macro.run"@, payload) {
                Some(CommandView::MacroRun { path }) => {
                    &&& field(pairs, "path"@) == Some(path)
                },
                Some(_) => false,
                None => !(field(pairs, "path"@) is Some),
            }
        }),
{
    lemma_words();
}

/// What `react` is read as, field by field.
pub proof fn law_react_is_read(payload: Seq<char>)
    ensures
        ({
            let pairs = pieces(payload, '&', 0);
            match command_of("react"@, payload) {
                Some(CommandView::React { effect, cpu_high, memory_high, battery_low }) => {
                    &&& field(pairs, "effect"@) == Some(effect)
                    &&& cpu_high == field(pairs, "cpu_high"@)
                    &&& memory_high == field(pairs, "memory_high"@)
                    &&& battery_low == field(pairs, "battery_low"@)
                },
                Some(_) => false,
                None => !(field(pairs, "effect"@) is Some),
            }
        }),
{
    lemma_words();
}

} // verus!
