//! The terminal screen: a parser that turns a program's output into cells.
//!
//! What the parser makes of bytes is the parser's own business. This module
//! names it, so that the rest of the library can say exactly which bytes reach
//! a screen and in which order, and which of its modes a decision reads. The
//! commands that the parser does not act on itself are kept, and the requests
//! among them are read here.

use vstd::prelude::*;
use vstd::slice::slice_to_vec;
use vstd::utf8::{decode_utf8, encode_utf8, valid_utf8};
use crate::osc_parser::{parse_osc_777, sequence_command, CommandView, RattyAiCommand};
use crate::text::utf8_text;

verus! {

/// The fewest rows that the parser draws on: a line wraps onto another one.
pub const MIN_SCREEN_ROWS: u16 = 2;

/// The fewest columns that the parser draws on: the widest character takes
/// three.
pub const MIN_SCREEN_COLS: u16 = 3;

/// The most columns that the parser draws on: from behind the last one, a tab
/// must still be counted in sixteen bits.
pub const MAX_SCREEN_COLS: u16 = 65_527;

/// A screen of `vt100`.
#[verifier::external_type_specification]
#[verifier::external_body]
pub struct ExScreen(vt100::Screen);

/// Keeps the operating-system commands that the parser does not act on itself,
/// each as its parameters.
#[derive(Debug)]
pub struct OscTap {
    /// The commands, in order.
    pub heard: Vec<Vec<Vec<u8>>>,
}

/// The bytes of a command's parameters.
pub open spec fn params_view(params: Vec<Vec<u8>>) -> Seq<Seq<u8>> {
    params@.map_values(|param: Vec<u8>| param@)
}

/// The bytes of commands' parameters.
pub open spec fn heard_view(heard: Vec<Vec<Vec<u8>>>) -> Seq<Seq<Seq<u8>>> {
    heard@.map_values(|params: Vec<Vec<u8>>| params_view(params))
}

impl OscTap {
    /// Keeps one more command.
    pub fn keep(&mut self, params: &[&[u8]])
        ensures
            heard_view(final(self).heard) == heard_view(old(self).heard).push(
                params@.map_values(|param: &[u8]| param@),
            ),
    {
        let ghost whole = params@.map_values(|param: &[u8]| param@);
        let mut kept: Vec<Vec<u8>> = Vec::new();
        let mut i: usize = 0;
        assert(params_view(kept) =~= whole.take(0));
        while i < params.len()
            invariant
                i <= params@.len(),
                whole == params@.map_values(|param: &[u8]| param@),
                params_view(kept) == whole.take(i as int),
            decreases params.len() - i,
        {
            let ghost before = params_view(kept);
            let param: Vec<u8> = slice_to_vec(params[i]);
            kept.push(param);
            proof {
                assert(whole[i as int] == param@);
                assert(params_view(kept) =~= before.push(param@));
                assert(whole.take(i + 1) =~= whole.take(i as int).push(param@));
            }
            i += 1;
        }
        assert(whole.take(i as int) =~= whole);
        self.heard.push(kept);
        assert(heard_view(self.heard) =~= heard_view(old(self).heard).push(whole));
    }
}

impl vt100::Callbacks for OscTap {
    fn unhandled_osc(&mut self, _screen: &mut vt100::Screen, params: &[&[u8]]) {
        self.keep(params);
    }
}

/// A terminal's screen, with the parser that draws on it.
#[verifier::external_body]
pub struct TerminalScreen {
    parser: vt100::Parser<OscTap>,
}

/// What a program asked to be told about the pointer.
#[derive(Clone, Copy, Debug, PartialEq, Eq, Structural)]
pub enum MouseMode {
    /// Nothing.
    Silent,
    /// Presses.
    Press,
    /// Presses and releases.
    PressRelease,
    /// Presses, releases and drags.
    ButtonMotion,
    /// Every motion.
    AnyMotion,
}

/// How pointer reports are encoded.
#[derive(Clone, Copy, Debug, PartialEq, Eq, Structural)]
pub enum MouseEncoding {
    /// Single bytes.
    Plain,
    /// UTF-8 characters.
    Utf8,
    /// Decimal numbers.
    Sgr,
}

/// A screen's rows and columns.
pub uninterp spec fn screen_size(screen: TerminalScreen) -> (u16, u16);

/// A screen's cursor: row and column.
pub uninterp spec fn screen_cursor(screen: TerminalScreen) -> (u16, u16);

/// A screen's text.
pub uninterp spec fn screen_text(screen: TerminalScreen) -> Seq<char>;

/// Whether cursor keys are in application mode.
pub uninterp spec fn screen_application_cursor(screen: TerminalScreen) -> bool;

/// Whether pastes are bracketed.
pub uninterp spec fn screen_bracketed_paste(screen: TerminalScreen) -> bool;

/// What the program asked to be told about the pointer.
pub uninterp spec fn screen_mouse_mode(screen: TerminalScreen) -> MouseMode;

/// How pointer reports are encoded.
pub uninterp spec fn screen_mouse_encoding(screen: TerminalScreen) -> MouseEncoding;

/// How far back the view is scrolled.
pub uninterp spec fn screen_scrollback(screen: TerminalScreen) -> nat;

/// How far back the view can be scrolled.
pub uninterp spec fn screen_history(screen: TerminalScreen) -> nat;

/// How many rows the history may hold.
pub uninterp spec fn screen_limit(screen: TerminalScreen) -> nat;

/// The operating-system commands that were heard and not taken yet, each as its
/// parameters.
pub uninterp spec fn screen_heard(screen: TerminalScreen) -> Seq<Seq<Seq<u8>>>;

/// A screen that has processed more bytes.
pub uninterp spec fn screen_after(screen: TerminalScreen, bytes: Seq<u8>) -> TerminalScreen;

/// Whether the parser can draw on a size: on any smaller or wider one some
/// bytes would be too much for it.
pub open spec fn drawable(size: (u16, u16)) -> bool {
    size.0 >= MIN_SCREEN_ROWS && MIN_SCREEN_COLS <= size.1 <= MAX_SCREEN_COLS
}

/// A screen that has been handed bytes; none of them is no change.
pub open spec fn shown(screen: TerminalScreen, bytes: Seq<u8>) -> TerminalScreen {
    if bytes.len() == 0 {
        screen
    } else {
        screen_after(screen, bytes)
    }
}

/// `vt100::Parser::new_with_callbacks`: a blank screen of the given size, with
/// nothing to scroll back to yet, room for as much as is asked for, and nothing
/// heard.
#[verifier::external_body]
fn open_parser(rows: u16, cols: u16, scrollback: usize) -> (screen: TerminalScreen)
    requires
        drawable((rows, cols)),
    ensures
        screen_size(screen) == (rows, cols),
        screen_cursor(screen) == (0u16, 0u16),
        screen_scrollback(screen) == 0,
        screen_history(screen) == 0,
        screen_limit(screen) == scrollback,
        screen_text(screen) == Seq::<char>::empty(),
        screen_heard(screen) == Seq::<Seq<Seq<u8>>>::empty(),
        !screen_application_cursor(screen),
        !screen_bracketed_paste(screen),
        screen_mouse_mode(screen) == MouseMode::Silent,
        screen_mouse_encoding(screen) == MouseEncoding::Plain,
{
    let tap = OscTap { heard: Vec::new() };
    TerminalScreen { parser: vt100::Parser::new_with_callbacks(rows, cols, scrollback, tap) }
}

/// `vt100::Parser::process`: the screen after the bytes, which depends on the
/// screen before them and on the bytes alone. Processing never resizes; the
/// history stays within its limit, and the view within the history. What was
/// heard stays, and more may follow it. What is drawn, and which bytes make a
/// command, is not stated beyond that.
#[verifier::external_body]
fn process(screen: &mut TerminalScreen, bytes: &[u8])
    requires
        drawable(screen_size(*old(screen))),
    ensures
        *final(screen) == screen_after(*old(screen), bytes@),
        screen_size(*final(screen)) == screen_size(*old(screen)),
        screen_limit(*final(screen)) == screen_limit(*old(screen)),
        screen_history(*final(screen)) <= screen_limit(*old(screen)),
        screen_scrollback(*final(screen)) <= screen_history(*final(screen)),
        screen_heard(*old(screen)).is_prefix_of(screen_heard(*final(screen))),
{
    screen.parser.process(bytes);
}

/// `vt100::Screen::size`: the rows and columns.
#[verifier::external_body]
fn size(screen: &TerminalScreen) -> (size: (u16, u16))
    ensures
        size == screen_size(*screen),
{
    screen.parser.screen().size()
}

/// `vt100::Screen::cursor_position`: the cursor's row and column.
#[verifier::external_body]
fn cursor_position(screen: &TerminalScreen) -> (cursor: (u16, u16))
    ensures
        cursor == screen_cursor(*screen),
{
    screen.parser.screen().cursor_position()
}

/// `vt100::Screen::contents`: the visible text.
#[verifier::external_body]
fn contents(screen: &TerminalScreen) -> (text: String)
    ensures
        text@ == screen_text(*screen),
{
    screen.parser.screen().contents()
}

/// `vt100::Screen::application_cursor`: the mode of the cursor keys.
#[verifier::external_body]
fn application_cursor(screen: &TerminalScreen) -> (on: bool)
    ensures
        on == screen_application_cursor(*screen),
{
    screen.parser.screen().application_cursor()
}

/// `vt100::Screen::bracketed_paste`: whether pastes are bracketed.
#[verifier::external_body]
fn bracketed_paste(screen: &TerminalScreen) -> (on: bool)
    ensures
        on == screen_bracketed_paste(*screen),
{
    screen.parser.screen().bracketed_paste()
}

/// `vt100::Screen::mouse_protocol_mode`: what the program asked to be told.
#[verifier::external_body]
fn mouse_mode(screen: &TerminalScreen) -> (mode: MouseMode)
    ensures
        mode == screen_mouse_mode(*screen),
{
    match screen.parser.screen().mouse_protocol_mode() {
        vt100::MouseProtocolMode::None => MouseMode::Silent,
        vt100::MouseProtocolMode::Press => MouseMode::Press,
        vt100::MouseProtocolMode::PressRelease => MouseMode::PressRelease,
        vt100::MouseProtocolMode::ButtonMotion => MouseMode::ButtonMotion,
        vt100::MouseProtocolMode::AnyMotion => MouseMode::AnyMotion,
    }
}

/// `vt100::Screen::mouse_protocol_encoding`: how reports are encoded.
#[verifier::external_body]
fn mouse_encoding(screen: &TerminalScreen) -> (encoding: MouseEncoding)
    ensures
        encoding == screen_mouse_encoding(*screen),
{
    match screen.parser.screen().mouse_protocol_encoding() {
        vt100::MouseProtocolEncoding::Default => MouseEncoding::Plain,
        vt100::MouseProtocolEncoding::Utf8 => MouseEncoding::Utf8,
        vt100::MouseProtocolEncoding::Sgr => MouseEncoding::Sgr,
    }
}

/// `vt100::Screen::scrollback`: how far back the view is scrolled.
#[verifier::external_body]
fn scrollback(screen: &TerminalScreen) -> (rows: usize)
    ensures
        rows == screen_scrollback(*screen),
{
    screen.parser.screen().scrollback()
}

/// `vt100::Screen::set_scrollback`: scrolls the view, no further back than the
/// history goes. Cursor, size, history, modes and what was heard stay. The text that shows
/// moves with the view; which text that is, is not stated.
#[verifier::external_body]
fn set_scrollback(screen: &mut TerminalScreen, rows: usize)
    ensures
        screen_scrollback(*final(screen)) == (if rows < screen_history(*old(screen)) {
            rows as nat
        } else {
            screen_history(*old(screen))
        }),
        screen_history(*final(screen)) == screen_history(*old(screen)),
        screen_limit(*final(screen)) == screen_limit(*old(screen)),
        screen_size(*final(screen)) == screen_size(*old(screen)),
        screen_cursor(*final(screen)) == screen_cursor(*old(screen)),
        screen_application_cursor(*final(screen)) == screen_application_cursor(*old(screen)),
        screen_bracketed_paste(*final(screen)) == screen_bracketed_paste(*old(screen)),
        screen_mouse_mode(*final(screen)) == screen_mouse_mode(*old(screen)),
        screen_mouse_encoding(*final(screen)) == screen_mouse_encoding(*old(screen)),
        screen_heard(*final(screen)) == screen_heard(*old(screen)),
{
    screen.parser.screen_mut().set_scrollback(rows);
}

/// `vt100::Parser::callbacks_mut`: takes what the tap holds, and leaves the tap
/// empty and everything else as it is.
#[verifier::external_body]
fn take_tapped(screen: &mut TerminalScreen) -> (heard: Vec<Vec<Vec<u8>>>)
    ensures
        heard_view(heard) == screen_heard(*old(screen)),
        screen_heard(*final(screen)) == Seq::<Seq<Seq<u8>>>::empty(),
        screen_size(*final(screen)) == screen_size(*old(screen)),
        screen_cursor(*final(screen)) == screen_cursor(*old(screen)),
        screen_text(*final(screen)) == screen_text(*old(screen)),
        screen_scrollback(*final(screen)) == screen_scrollback(*old(screen)),
        screen_history(*final(screen)) == screen_history(*old(screen)),
        screen_limit(*final(screen)) == screen_limit(*old(screen)),
        screen_application_cursor(*final(screen)) == screen_application_cursor(*old(screen)),
        screen_bracketed_paste(*final(screen)) == screen_bracketed_paste(*old(screen)),
        screen_mouse_mode(*final(screen)) == screen_mouse_mode(*old(screen)),
        screen_mouse_encoding(*final(screen)) == screen_mouse_encoding(*old(screen)),
{
    std::mem::take(&mut screen.parser.callbacks_mut().heard)
}

/// The number of the operating-system command that carries requests, as it is
/// written.
pub open spec fn request_number() -> Seq<u8> {
    seq![0x37u8, 0x37, 0x37]
}

/// Parameters with a semicolon between each two.
pub open spec fn rejoined(params: Seq<Seq<u8>>) -> Seq<u8>
    decreases params.len(),
{
    if params.len() == 0 {
        Seq::empty()
    } else if params.len() == 1 {
        params[0]
    } else {
        rejoined(params.drop_last()) + seq![0x3bu8] + params.last()
    }
}

/// The request that a heard command is, if any: its first parameter is the
/// number, and the rest, as it was written, is a request's data.
pub open spec fn command_heard(params: Seq<Seq<u8>>) -> Option<CommandView> {
    if params.len() > 0 && params[0] == request_number() && valid_utf8(
        rejoined(params.drop_first()),
    ) {
        sequence_command(decode_utf8(rejoined(params.drop_first())))
    } else {
        None
    }
}

/// The requests among heard commands, in order.
pub open spec fn commands_heard(heard: Seq<Seq<Seq<u8>>>) -> Seq<CommandView>
    decreases heard.len(),
{
    if heard.len() == 0 {
        Seq::empty()
    } else {
        match command_heard(heard.last()) {
            Some(command) => commands_heard(heard.drop_last()).push(command),
            None => commands_heard(heard.drop_last()),
        }
    }
}

/// The contents of requests.
pub open spec fn command_views(commands: Seq<RattyAiCommand>) -> Seq<CommandView> {
    commands.map_values(|command: RattyAiCommand| command@)
}

/// However the parser cut a request's data at its semicolons, it is heard as
/// what was written.
pub proof fn law_data_is_heard_as_written(params: Seq<Seq<u8>>, data: Seq<char>)
    requires
        params.len() > 0,
        params[0] == request_number(),
        rejoined(params.drop_first()) == encode_utf8(data),
    ensures
        command_heard(params) == sequence_command(data),
{
    vstd::utf8::encode_utf8_valid_utf8(data);
    vstd::utf8::encode_utf8_decode_utf8(data);
}

/// What was heard first is read first, and more to hear changes none of it.
pub proof fn law_requests_keep_their_order(heard: Seq<Seq<Seq<u8>>>, more: Seq<Seq<Seq<u8>>>)
    ensures
        commands_heard(heard + more) == commands_heard(heard) + commands_heard(more),
    decreases more.len(),
{
    if more.len() == 0 {
        assert(heard + more =~= heard);
        assert(commands_heard(heard) + commands_heard(more) =~= commands_heard(heard));
    } else {
        assert((heard + more).drop_last() =~= heard + more.drop_last());
        assert((heard + more).last() == more.last());
        law_requests_keep_their_order(heard, more.drop_last());
        assert(commands_heard(heard + more) =~= commands_heard(heard) + commands_heard(more));
    }
}

fn is_request(param: &Vec<u8>) -> (is: bool)
    ensures
        is == (param@ == request_number()),
{
    let is: bool = param.len() == 3 && param[0] == 0x37 && param[1] == 0x37 && param[2] == 0x37;
    assert(is ==> param@ =~= request_number());
    is
}

fn data_of(params: &Vec<Vec<u8>>) -> (data: Vec<u8>)
    requires
        params@.len() > 0,
    ensures
        data@ == rejoined(params_view(*params).drop_first()),
{
    let ghost rest = params_view(*params).drop_first();
    let mut data: Vec<u8> = Vec::new();
    let mut i: usize = 1;
    assert(rest.take(0) =~= Seq::empty());
    assert(data@ =~= rejoined(rest.take(0)));
    while i < params.len()
        invariant
            1 <= i <= params@.len(),
            rest == params_view(*params).drop_first(),
            rest.len() == params@.len() - 1,
            data@ == rejoined(rest.take(i - 1)),
        decreases params.len() - i,
    {
        if i > 1 {
            data.push(0x3b);
        }
        let ghost before = data@;
        let mut more: Vec<u8> = slice_to_vec(params[i].as_slice());
        data.append(&mut more);
        proof {
            let next = rest.take(i as int);
            assert(next.drop_last() =~= rest.take(i - 1));
            assert(next.last() == params@[i as int]@);
            assert(data@ =~= before + params@[i as int]@);
            assert(data@ =~= rejoined(next));
        }
        i += 1;
    }
    assert(rest.take(i - 1) =~= rest);
    data
}

/// The request that a heard command is, if any.
pub fn read_command(params: &Vec<Vec<u8>>) -> (command: Option<RattyAiCommand>)
    ensures
        match command {
            Some(command) => command_heard(params_view(*params)) == Some(command@),
            None => command_heard(params_view(*params)) is None,
        },
{
    if params.len() == 0 || !is_request(&params[0]) {
        return None;
    }
    let data = data_of(params);
    match utf8_text(data) {
        Some(text) => {
            proof {
                vstd::utf8::encode_utf8_valid_utf8(text@);
                vstd::utf8::encode_utf8_decode_utf8(text@);
            }
            parse_osc_777(&text)
        },
        None => None,
    }
}

/// The requests among heard commands, in order.
pub fn read_commands(heard: &Vec<Vec<Vec<u8>>>) -> (commands: Vec<RattyAiCommand>)
    ensures
        command_views(commands@) == commands_heard(heard_view(*heard)),
{
    let ghost whole = heard_view(*heard);
    let mut commands: Vec<RattyAiCommand> = Vec::new();
    let mut i: usize = 0;
    assert(whole.take(0) =~= Seq::empty());
    assert(command_views(commands@) =~= commands_heard(whole.take(0)));
    while i < heard.len()
        invariant
            i <= heard@.len(),
            whole == heard_view(*heard),
            command_views(commands@) == commands_heard(whole.take(i as int)),
        decreases heard.len() - i,
    {
        let ghost before = commands@;
        proof {
            let next = whole.take(i + 1);
            assert(next.drop_last() =~= whole.take(i as int));
            assert(next.last() == params_view(heard@[i as int]));
        }
        if let Some(command) = read_command(&heard[i]) {
            commands.push(command);
            assert(command_views(commands@) =~= command_views(before).push(command@));
        }
        i += 1;
    }
    assert(whole.take(i as int) =~= whole);
    commands
}

impl TerminalScreen {
    /// The screen has room to draw in, the history is within its limit, and
    /// the view within the history.
    pub open spec fn wf(&self) -> bool {
        &&& drawable(screen_size(*self))
        &&& screen_scrollback(*self) <= screen_history(*self) <= screen_limit(*self)
    }

    /// A blank screen; none where there is no room to draw in.
    pub fn new(rows: u16, cols: u16, scrollback: usize) -> (screen: Option<TerminalScreen>)
        ensures
            screen is Some <==> drawable((rows, cols)),
            screen matches Some(screen) ==> {
                &&& screen.wf()
                &&& screen_size(screen) == (rows, cols)
                &&& screen_cursor(screen) == (0u16, 0u16)
                &&& screen_text(screen) == Seq::<char>::empty()
                &&& screen_heard(screen) == Seq::<Seq<Seq<u8>>>::empty()
                &&& screen_history(screen) == 0
                &&& screen_limit(screen) == scrollback
                &&& !screen_application_cursor(screen)
                &&& !screen_bracketed_paste(screen)
                &&& screen_mouse_mode(screen) == MouseMode::Silent
                &&& screen_mouse_encoding(screen) == MouseEncoding::Plain
            },
    {
        if rows >= MIN_SCREEN_ROWS && MIN_SCREEN_COLS <= cols && cols <= MAX_SCREEN_COLS {
            Some(open_parser(rows, cols, scrollback))
        } else {
            None
        }
    }

    /// Hands bytes to the parser.
    pub fn show(&mut self, bytes: &[u8])
        requires
            old(self).wf(),
        ensures
            final(self).wf(),
            *final(self) == shown(*old(self), bytes@),
            screen_size(*final(self)) == screen_size(*old(self)),
            screen_limit(*final(self)) == screen_limit(*old(self)),
            screen_heard(*old(self)).is_prefix_of(screen_heard(*final(self))),
    {
        if bytes.len() > 0 {
            process(self, bytes);
        }
    }

    /// The rows and columns.
    pub fn size(&self) -> (grid: (u16, u16))
        ensures
            grid == screen_size(*self),
    {
        size(self)
    }

    /// The cursor's row and column.
    pub fn cursor_position(&self) -> (cursor: (u16, u16))
        ensures
            cursor == screen_cursor(*self),
    {
        cursor_position(self)
    }

    /// The visible text.
    pub fn contents(&self) -> (text: String)
        ensures
            text@ == screen_text(*self),
    {
        contents(self)
    }

    /// Whether cursor keys are in application mode.
    pub fn application_cursor(&self) -> (on: bool)
        ensures
            on == screen_application_cursor(*self),
    {
        application_cursor(self)
    }

    /// Whether pastes are bracketed.
    pub fn bracketed_paste(&self) -> (on: bool)
        ensures
            on == screen_bracketed_paste(*self),
    {
        bracketed_paste(self)
    }

    /// What the program asked to be told about the pointer.
    pub fn mouse_mode(&self) -> (mode: MouseMode)
        ensures
            mode == screen_mouse_mode(*self),
    {
        mouse_mode(self)
    }

    /// How pointer reports are encoded.
    pub fn mouse_encoding(&self) -> (encoding: MouseEncoding)
        ensures
            encoding == screen_mouse_encoding(*self),
    {
        mouse_encoding(self)
    }

    /// How far back the view is scrolled.
    pub fn scrollback(&self) -> (rows: usize)
        ensures
            rows == screen_scrollback(*self),
    {
        scrollback(self)
    }

    /// Scrolls the view, no further back than the history goes.
    pub fn set_scrollback(&mut self, rows: usize)
        requires
            old(self).wf(),
        ensures
            final(self).wf(),
            screen_scrollback(*final(self)) == (if rows < screen_history(*old(self)) {
                rows as nat
            } else {
                screen_history(*old(self))
            }),
            screen_history(*final(self)) == screen_history(*old(self)),
            screen_limit(*final(self)) == screen_limit(*old(self)),
            screen_size(*final(self)) == screen_size(*old(self)),
            screen_cursor(*final(self)) == screen_cursor(*old(self)),
            screen_application_cursor(*final(self)) == screen_application_cursor(*old(self)),
            screen_bracketed_paste(*final(self)) == screen_bracketed_paste(*old(self)),
            screen_mouse_mode(*final(self)) == screen_mouse_mode(*old(self)),
            screen_mouse_encoding(*final(self)) == screen_mouse_encoding(*old(self)),
            screen_heard(*final(self)) == screen_heard(*old(self)),
    {
        set_scrollback(self, rows);
    }

    /// Takes the commands that were heard. What is none is dropped.
    pub fn take_commands(&mut self) -> (commands: Vec<RattyAiCommand>)
        requires
            old(self).wf(),
        ensures
            final(self).wf(),
            command_views(commands@) == commands_heard(screen_heard(*old(self))),
            screen_heard(*final(self)) == Seq::<Seq<Seq<u8>>>::empty(),
            screen_size(*final(self)) == screen_size(*old(self)),
            screen_cursor(*final(self)) == screen_cursor(*old(self)),
            screen_text(*final(self)) == screen_text(*old(self)),
            screen_scrollback(*final(self)) == screen_scrollback(*old(self)),
            screen_history(*final(self)) == screen_history(*old(self)),
            screen_limit(*final(self)) == screen_limit(*old(self)),
            screen_application_cursor(*final(self)) == screen_application_cursor(*old(self)),
            screen_bracketed_paste(*final(self)) == screen_bracketed_paste(*old(self)),
            screen_mouse_mode(*final(self)) == screen_mouse_mode(*old(self)),
            screen_mouse_encoding(*final(self)) == screen_mouse_encoding(*old(self)),
    {
        let heard = take_tapped(self);
        read_commands(&heard)
    }
}

/// A heard command is a request exactly if its first parameter is `777` and the
/// others, with semicolons between them, are the data of one.
pub proof fn law_requests_come_under_their_number(params: Seq<Seq<u8>>)
    ensures
        params.len() == 0 || params[0] != seq![0x37u8, 0x37, 0x37] ==> command_heard(params) is None,
        params.len() > 0 && params[0] == seq![0x37u8, 0x37, 0x37] && !valid_utf8(
            rejoined(params.drop_first()),
        ) ==> command_heard(params) is None,
        params.len() > 0 && params[0] == seq![0x37u8, 0x37, 0x37] && valid_utf8(
            rejoined(params.drop_first()),
        ) ==> command_heard(params) == sequence_command(
            decode_utf8(rejoined(params.drop_first())),
        ),
{
}

/// Parameters are put together with a semicolon between each two.
pub proof fn law_parameters_are_put_together(params: Seq<Seq<u8>>, last: Seq<u8>)
    ensures
        rejoined(Seq::empty()).len() == 0,
        rejoined(seq![last]) == last,
        params.len() > 0 ==> rejoined(params.push(last)) == rejoined(params) + seq![0x3bu8] + last,
{
    assert(params.push(last).drop_last() =~= params);
}

/// A size can be drawn on with two rows or more, and with three columns to
/// 65527.
pub proof fn law_sizes_that_can_be_drawn_on(rows: u16, cols: u16)
    ensures
        drawable((rows, cols)) <==> rows >= 2 && 3 <= cols <= 65527,
{
}

} // verus!
