//! What the browser paints, as plain values: the spans of the status bar,
//! the choice of the hint line, and the rows of the video mask. The caller
//! lays them out and hands them to the terminal.

use crate::app::{App, AppModel};
use crate::text::{byte_len, clamp_cursor, safe_cursor, span, substring};
use crate::types::{AppMode, AutoScroll, RenderMode};
use crate::video::{FrameBuffer, FrameModel};
use crate::utils::{decode_url, percent_decoded};
use unicode_width::UnicodeWidthChar;
use vstd::prelude::*;
use vstd::string::*;
use vstd::utf8::*;

verus! {

/// The colours that the browser paints with.
#[derive(PartialEq, Eq, Structural, Clone, Copy, Debug)]
pub enum Color {
    Black,
    DarkGray,
    Gray,
    White,
    Red,
    Green,
    LightGreen,
    Yellow,
    Blue,
    Magenta,
    Cyan,
}

/// How a span is painted.
#[derive(PartialEq, Eq, Structural, Clone, Copy, Debug)]
pub struct Style {
    pub fg: Option<Color>,
    pub bg: Option<Color>,
    pub bold: bool,
    pub dim: bool,
    pub blink: bool,
}

/// A run of text in one style.
#[derive(Clone, Debug)]
pub struct Span {
    pub text: String,
    pub style: Style,
}

/// The mathematical value of a `Span`.
pub struct SpanModel {
    pub text: Seq<char>,
    pub style: Style,
}

impl DeepView for Span {
    type V = SpanModel;

    open spec fn deep_view(&self) -> SpanModel {
        SpanModel { text: self.text@, style: self.style }
    }
}

/// The style that changes nothing.
pub open spec fn plain() -> Style {
    Style { fg: None, bg: None, bold: false, dim: false, blink: false }
}

/// The plain style with a foreground colour.
pub open spec fn colored(fg: Color) -> Style {
    Style { fg: Some(fg), ..plain() }
}

/// The number of cells of the progress bar.
pub const PROGRESS_WIDTH: usize = 13;

/// The texts that the status bar shows in the language of the user. `goto`
/// is the prompt of hint mode with the hint buffer put in.
pub struct Labels {
    pub hint: String,
    pub normal: String,
    pub insert: String,
    pub pause: String,
    pub video: String,
    pub goto: String,
    pub autoplay_on: String,
    pub autoplay_off: String,
    pub mode_toggle: String,
}

/// What the badge at the left end of the status bar tells.
#[derive(PartialEq, Eq, Structural, Clone, Copy, Debug)]
pub enum Badge {
    Hint,
    Normal,
    Insert,
    Pause,
    Video,
}

/// The line of key hints to show.
#[derive(PartialEq, Eq, Structural, Clone, Copy, Debug)]
pub enum HintLine {
    Insert,
    Video,
    LinkTyping,
    Demo,
    Normal,
}

/// The badge of a state: the mode, but in normal mode the hint mode, and in
/// video mode the pause.
pub open spec fn badge_of(app: AppModel) -> Badge {
    match app.mode {
        AppMode::Normal => if app.hint_mode_active {
            Badge::Hint
        } else {
            Badge::Normal
        },
        AppMode::Insert => Badge::Insert,
        AppMode::Video => if app.engine.is_paused {
            Badge::Pause
        } else {
            Badge::Video
        },
    }
}

/// The background of a badge.
pub open spec fn badge_color(badge: Badge) -> Color {
    match badge {
        Badge::Hint => Color::Magenta,
        Badge::Normal => Color::Blue,
        Badge::Insert => Color::Yellow,
        Badge::Pause => Color::Gray,
        Badge::Video => Color::Red,
    }
}

/// The badge of the state.
pub fn badge(app: &App) -> (shown: Badge)
    ensures
        shown == badge_of(app@),
{
    match app.mode {
        AppMode::Normal => if app.hint_mode_active {
            Badge::Hint
        } else {
            Badge::Normal
        },
        AppMode::Insert => Badge::Insert,
        AppMode::Video => if app.engine.is_paused {
            Badge::Pause
        } else {
            Badge::Video
        },
    }
}

/// The hint line of a state.
pub open spec fn hint_line_of(app: AppModel) -> HintLine {
    match app.mode {
        AppMode::Insert => HintLine::Insert,
        AppMode::Video => HintLine::Video,
        AppMode::Normal => if app.hint_mode_active {
            HintLine::LinkTyping
        } else if app.demo.len() > 0 {
            HintLine::Demo
        } else {
            HintLine::Normal
        },
    }
}

/// The hint line to show, and whether the hint for the autoplay key goes
/// beside it: in video mode with a demo script.
pub fn render_hints(app: &App) -> (shown: (HintLine, bool))
    ensures
        shown.0 == hint_line_of(app@),
        shown.1 == (app@.mode == AppMode::Video && app@.demo.len() > 0),
{
    let line = match app.mode {
        AppMode::Insert => HintLine::Insert,
        AppMode::Video => HintLine::Video,
        AppMode::Normal => if app.hint_mode_active {
            HintLine::LinkTyping
        } else if app.demo.len() > 0 {
            HintLine::Demo
        } else {
            HintLine::Normal
        },
    };
    (line, app.mode == AppMode::Video && app.demo.len() > 0)
}

/// The character of a decimal digit.
pub open spec fn digit(d: nat) -> char {
    ('0' as u8 + d) as char
}

/// A number in decimal digits.
pub open spec fn decimal_of(n: nat) -> Seq<char>
    decreases n,
{
    if n < 10 {
        seq![digit(n)]
    } else {
        decimal_of(n / 10).push(digit(n % 10))
    }
}

/// A number in decimal digits, with a 0 in front of a single digit.
pub open spec fn two_digits_of(n: nat) -> Seq<char> {
    if n < 10 {
        seq!['0', digit(n)]
    } else {
        decimal_of(n)
    }
}

/// A number in decimal digits.
pub fn decimal(n: u64) -> (text: String)
    ensures
        text@ == decimal_of(n as nat),
    decreases n,
{
    if n < 10 {
        let mut text = String::new();
        text.push((48u8 + n as u8) as char);
        assert(text@ =~= decimal_of(n as nat));
        text
    } else {
        let mut text = decimal(n / 10);
        text.push((48u8 + (n % 10) as u8) as char);
        text
    }
}

/// A number in decimal digits, with a 0 in front of a single digit.
pub fn two_digits(n: u64) -> (text: String)
    ensures
        text@ == two_digits_of(n as nat),
{
    if n < 10 {
        let mut text = String::new();
        text.push('0');
        text.push((48u8 + n as u8) as char);
        assert(text@ =~= two_digits_of(n as nat));
        text
    } else {
        decimal(n)
    }
}

/// The whole seconds of a time in milliseconds; a time before 0 counts as 0.
pub open spec fn whole_seconds(time: i64) -> nat {
    if time < 0 {
        0
    } else {
        (time / 1000) as nat
    }
}

/// A time as minutes and seconds, each of two digits at least.
pub open spec fn minutes_seconds(time: i64) -> Seq<char> {
    two_digits_of(whole_seconds(time) / 60) + seq![':'] + two_digits_of(whole_seconds(time) % 60)
}

/// The clock of the status bar: the position and the duration, in brackets,
/// and a space.
pub open spec fn clock_of(current: i64, total: i64) -> Seq<char> {
    seq!['['] + minutes_seconds(current) + seq!['/'] + minutes_seconds(total) + seq![']', ' ']
}

/// Appends a time as minutes and seconds.
fn push_minutes_seconds(text: &mut String, time: i64)
    ensures
        final(text)@ == old(text)@ + minutes_seconds(time),
{
    let seconds: u64 = if time < 0 {
        0
    } else {
        (time / 1000) as u64
    };
    let minutes = two_digits(seconds / 60);
    let rest = two_digits(seconds % 60);
    text.append(minutes.as_str());
    text.push(':');
    text.append(rest.as_str());
    assert(text@ =~= old(text)@ + minutes_seconds(time));
}

/// The clock of the status bar.
pub fn clock_text(current: i64, total: i64) -> (text: String)
    ensures
        text@ == clock_of(current, total),
{
    let mut text = String::new();
    text.push('[');
    push_minutes_seconds(&mut text, current);
    text.push('/');
    push_minutes_seconds(&mut text, total);
    text.push(']');
    text.push(' ');
    assert(text@ =~= clock_of(current, total));
    text
}

/// The filled cells of the progress bar: the share of the duration that
/// has been played, in cells, rounded to the nearest cell (a half goes up)
/// and held within the bar. Nothing is filled while the duration is not
/// known.
pub open spec fn progress_of(current: i64, total: i64) -> nat {
    if total <= 0 || current <= 0 {
        0
    } else {
        let cells = (2 * PROGRESS_WIDTH * current + total) / (2 * total);
        if cells > PROGRESS_WIDTH {
            PROGRESS_WIDTH as nat
        } else {
            cells as nat
        }
    }
}

/// The filled cells of the progress bar.
pub fn progress_cells(current: i64, total: i64) -> (filled: usize)
    ensures
        filled == progress_of(current, total),
        filled <= PROGRESS_WIDTH,
{
    if total <= 0 || current <= 0 {
        return 0;
    }
    assert(2 * PROGRESS_WIDTH * current == 26 * current);
    let doubled: u128 = 26 * (current as u128) + total as u128;
    let cells: u128 = doubled / (2 * (total as u128));
    if cells > PROGRESS_WIDTH as u128 {
        PROGRESS_WIDTH
    } else {
        cells as usize
    }
}

/// The progress bar: `filled` cells of bar and the rest of blanks, in
/// brackets.
pub open spec fn bar_of(filled: nat) -> Seq<char> {
    seq!['['] + Seq::new(filled, |i: int| '━') + Seq::new(
        (PROGRESS_WIDTH - filled) as nat,
        |i: int| ' ',
    ) + seq![']']
}

/// The progress bar with `filled` cells filled.
pub fn progress_bar(filled: usize) -> (bar: String)
    requires
        filled <= PROGRESS_WIDTH,
    ensures
        bar@ == bar_of(filled as nat),
{
    let mut bar = String::new();
    bar.push('[');
    let mut at: usize = 0;
    while at < filled
        invariant
            at <= filled,
            bar@ == seq!['['] + Seq::new(at as nat, |i: int| '━'),
        decreases filled - at,
    {
        bar.push('━');
        at += 1;
        assert(bar@ =~= seq!['['] + Seq::new(at as nat, |i: int| '━'));
    }
    let ghost full = bar@;
    let mut at: usize = filled;
    while at < PROGRESS_WIDTH
        invariant
            filled <= at <= PROGRESS_WIDTH,
            bar@ == full + Seq::new((at - filled) as nat, |i: int| ' '),
        decreases PROGRESS_WIDTH - at,
    {
        bar.push(' ');
        at += 1;
        assert(bar@ =~= full + Seq::new((at - filled) as nat, |i: int| ' '));
    }
    bar.push(']');
    assert(bar@ =~= bar_of(filled as nat));
    bar
}

/// The scroll speed as the status bar tells it: a space, an `x`, and the
/// speed with two decimals; `quarters` counts quarters of the base speed.
pub open spec fn speed_of(quarters: u8) -> Seq<char> {
    seq![' ', 'x'] + decimal_of((quarters / 4) as nat) + seq!['.'] + two_digits_of(
        ((quarters % 4) * 25) as nat,
    )
}

/// The scroll speed as the status bar tells it.
pub fn speed_text(quarters: u8) -> (text: String)
    ensures
        text@ == speed_of(quarters),
{
    let whole = decimal((quarters / 4) as u64);
    let part = two_digits(((quarters % 4) * 25) as u64);
    let mut text = String::new();
    text.push(' ');
    text.push('x');
    text.append(whole.as_str());
    text.push('.');
    text.append(part.as_str());
    assert(text@ =~= speed_of(quarters));
    text
}

/// The mark of the automatic scroll.
pub open spec fn scroll_mark_of(auto_scroll: AutoScroll) -> Seq<char> {
    match auto_scroll {
        AutoScroll::Off => ""@,
        AutoScroll::Linear => " [AUTO]"@,
        AutoScroll::RandomWalk => " [RAND]"@,
        AutoScroll::Demo => " [DEMO]"@,
    }
}

/// The mark of the render mode.
pub open spec fn render_mark_of(render_mode: RenderMode) -> Seq<char> {
    match render_mode {
        RenderMode::Cast => "[CST]"@,
        RenderMode::Fit => "[FIT]"@,
    }
}

/// The plain style.
pub fn plain_style() -> (style: Style)
    ensures
        style == plain(),
{
    Style { fg: None, bg: None, bold: false, dim: false, blink: false }
}

/// The plain style with a foreground colour.
pub fn fg_style(fg: Color) -> (style: Style)
    ensures
        style == colored(fg),
{
    Style { fg: Some(fg), bg: None, bold: false, dim: false, blink: false }
}

/// The mathematical value of `Labels`.
pub struct LabelsModel {
    pub hint: Seq<char>,
    pub normal: Seq<char>,
    pub insert: Seq<char>,
    pub pause: Seq<char>,
    pub video: Seq<char>,
    pub goto: Seq<char>,
    pub autoplay_on: Seq<char>,
    pub autoplay_off: Seq<char>,
    pub mode_toggle: Seq<char>,
}

impl View for Labels {
    type V = LabelsModel;

    open spec fn view(&self) -> LabelsModel {
        LabelsModel {
            hint: self.hint@,
            normal: self.normal@,
            insert: self.insert@,
            pause: self.pause@,
            video: self.video@,
            goto: self.goto@,
            autoplay_on: self.autoplay_on@,
            autoplay_off: self.autoplay_off@,
            mode_toggle: self.mode_toggle@,
        }
    }
}

/// The two halves of the status bar.
pub struct StatusBar {
    pub left: Vec<Span>,
    pub right: Vec<Span>,
}

/// The text of a badge.
pub open spec fn badge_label(badge: Badge, labels: LabelsModel) -> Seq<char> {
    match badge {
        Badge::Hint => labels.hint,
        Badge::Normal => labels.normal,
        Badge::Insert => labels.insert,
        Badge::Pause => labels.pause,
        Badge::Video => labels.video,
    }
}

/// The badge and the blank behind it: the label between two blanks, black
/// and bold on the colour of the badge.
pub open spec fn badge_spans(app: AppModel, labels: LabelsModel) -> Seq<SpanModel> {
    let shown = badge_of(app);
    seq![
        SpanModel {
            text: seq![' '] + badge_label(shown, labels) + seq![' '],
            style: Style {
                fg: Some(Color::Black),
                bg: Some(badge_color(shown)),
                bold: true,
                dim: false,
                blink: false,
            },
        },
        SpanModel { text: seq![' '], style: plain() },
    ]
}

/// The input line. In hint mode it is the prompt for a hint. In insert mode
/// it is the address as it is shown, with a block for the cursor at the
/// place where the address can be split safely. Else it is the address as it
/// is shown.
pub open spec fn input_spans(app: AppModel, labels: LabelsModel) -> Seq<SpanModel> {
    let shown = percent_decoded(app.url_input);
    if app.hint_mode_active {
        seq![SpanModel { text: labels.goto, style: Style { bold: true, ..colored(Color::Yellow) } }]
    } else if app.mode == AppMode::Insert {
        let cursor = safe_cursor(shown, app.cursor_pos as int);
        seq![
            SpanModel { text: span(shown, 0, cursor), style: plain() },
            SpanModel { text: seq!['█'], style: colored(Color::White) },
            SpanModel { text: span(shown, cursor, byte_len(shown)), style: plain() },
        ]
    } else {
        seq![SpanModel { text: shown, style: plain() }]
    }
}

/// The mark of a page that loads: a blank and a blinking hourglass.
pub open spec fn loading_spans(app: AppModel) -> Seq<SpanModel> {
    if app.is_loading {
        seq![
            SpanModel { text: seq![' '], style: plain() },
            SpanModel { text: seq!['⏳'], style: Style { blink: true, ..colored(Color::Cyan) } },
        ]
    } else {
        Seq::empty()
    }
}

/// The mark of the automatic scroll, and its speed while it is on.
pub open spec fn scroll_spans(app: AppModel) -> Seq<SpanModel> {
    let mark = SpanModel { text: scroll_mark_of(app.auto_scroll), style: colored(Color::Green) };
    if app.auto_scroll != AutoScroll::Off {
        seq![
            mark,
            SpanModel { text: speed_of(app.scroll_speed), style: colored(Color::LightGreen) },
        ]
    } else {
        seq![mark]
    }
}

/// The left half of the status bar.
pub open spec fn status_left(app: AppModel, labels: LabelsModel) -> Seq<SpanModel> {
    badge_spans(app, labels) + input_spans(app, labels) + loading_spans(app) + scroll_spans(app)
}

/// The progress bar and the clock, in video mode.
pub open spec fn playback_spans(app: AppModel, now: u64) -> Seq<SpanModel> {
    if app.mode == AppMode::Video {
        let current = app.engine.position(now);
        let total = app.engine.duration;
        seq![
            SpanModel { text: bar_of(progress_of(current, total)), style: colored(Color::Green) },
            SpanModel { text: clock_of(current, total), style: colored(Color::Cyan) },
        ]
    } else {
        Seq::empty()
    }
}

/// The state of the autoplay, in video mode with a demo script: the label
/// in brackets, bold, green for on and red for off.
pub open spec fn autoplay_spans(app: AppModel, labels: LabelsModel, autoplay: bool) -> Seq<
    SpanModel,
> {
    if app.mode == AppMode::Video && app.demo.len() > 0 {
        if autoplay {
            seq![
                SpanModel {
                    text: seq!['['] + labels.autoplay_on + seq![']', ' '],
                    style: Style { bold: true, ..colored(Color::Green) },
                },
            ]
        } else {
            seq![
                SpanModel {
                    text: seq!['['] + labels.autoplay_off + seq![']', ' '],
                    style: Style { bold: true, ..colored(Color::Red) },
                },
            ]
        }
    } else {
        Seq::empty()
    }
}

/// The hint for the mode key and the mark of the render mode, which is
/// bold magenta in video mode and gray else.
pub open spec fn render_spans(app: AppModel, labels: LabelsModel) -> Seq<SpanModel> {
    seq![
        SpanModel { text: labels.mode_toggle, style: colored(Color::Yellow) },
        SpanModel {
            text: render_mark_of(app.render_mode),
            style: if app.mode == AppMode::Video {
                Style { bold: true, ..colored(Color::Magenta) }
            } else {
                colored(Color::Gray)
            },
        },
    ]
}

/// The right half of the status bar.
pub open spec fn status_right(app: AppModel, labels: LabelsModel, now: u64, autoplay: bool) -> Seq<
    SpanModel,
> {
    playback_spans(app, now) + autoplay_spans(app, labels, autoplay) + render_spans(app, labels)
}

/// Puts one more span at the end.
fn push_span(spans: &mut Vec<Span>, text: String, style: Style)
    ensures
        final(spans).deep_view() == old(spans).deep_view().push(SpanModel { text: text@, style }),
{
    spans.push(Span { text, style });
    assert(spans.deep_view() =~= old(spans).deep_view().push(SpanModel { text: text@, style }));
}

/// Puts one more span at the end.
fn push_str_span(spans: &mut Vec<Span>, text: &str, style: Style)
    ensures
        final(spans).deep_view() == old(spans).deep_view().push(SpanModel { text: text@, style }),
{
    push_span(spans, String::from_str(text), style);
}

/// `text` between `before` and `after`.
fn wrapped(before: &str, text: &str, after: &str) -> (whole: String)
    ensures
        whole@ == before@ + text@ + after@,
{
    let mut whole = String::from_str(before);
    whole.append(text);
    whole.append(after);
    whole
}

/// Puts the badge and the blank behind it at the end.
fn push_badge(spans: &mut Vec<Span>, app: &App, labels: &Labels)
    ensures
        final(spans).deep_view() == old(spans).deep_view() + badge_spans(app@, labels@),
{
    let shown = badge(app);
    let (label, bg) = match shown {
        Badge::Hint => (&labels.hint, Color::Magenta),
        Badge::Normal => (&labels.normal, Color::Blue),
        Badge::Insert => (&labels.insert, Color::Yellow),
        Badge::Pause => (&labels.pause, Color::Gray),
        Badge::Video => (&labels.video, Color::Red),
    };
    proof {
        reveal_strlit(" ");
        assert(" "@ =~= seq![' ']);
    }
    let text = wrapped(" ", label.as_str(), " ");
    push_span(
        spans,
        text,
        Style { fg: Some(Color::Black), bg: Some(bg), bold: true, dim: false, blink: false },
    );
    push_str_span(spans, " ", plain_style());
    assert(spans.deep_view() =~= old(spans).deep_view() + badge_spans(app@, labels@));
}

/// Puts the input line at the end.
fn push_input(spans: &mut Vec<Span>, app: &App, labels: &Labels)
    ensures
        final(spans).deep_view() == old(spans).deep_view() + input_spans(app@, labels@),
{
    broadcast use encode_utf8_valid_utf8;

    if app.hint_mode_active {
        push_span(
            spans,
            labels.goto.clone(),
            Style { fg: Some(Color::Yellow), bg: None, bold: true, dim: false, blink: false },
        );
    } else if app.mode == AppMode::Insert {
        let shown = decode_url(app.url_input.as_str());
        let cursor = clamp_cursor(shown.as_str(), app.cursor_pos);
        let len = shown.as_str().as_bytes().len();
        proof {
            is_char_boundary_start_end_of_seq(encode_utf8(shown@));
            reveal_strlit("█");
            assert("█"@ =~= seq!['█']);
        }
        let head = substring(shown.as_str(), 0, cursor);
        let tail = substring(shown.as_str(), cursor, len);
        push_str_span(spans, head, plain_style());
        push_str_span(spans, "█", fg_style(Color::White));
        push_str_span(spans, tail, plain_style());
    } else {
        push_span(spans, decode_url(app.url_input.as_str()), plain_style());
    }
    assert(spans.deep_view() =~= old(spans).deep_view() + input_spans(app@, labels@));
}

/// Puts the mark of a page that loads at the end.
fn push_loading(spans: &mut Vec<Span>, app: &App)
    ensures
        final(spans).deep_view() == old(spans).deep_view() + loading_spans(app@),
{
    if app.is_loading {
        proof {
            reveal_strlit(" ");
            reveal_strlit("⏳");
            assert(" "@ =~= seq![' ']);
            assert("⏳"@ =~= seq!['⏳']);
        }
        push_str_span(spans, " ", plain_style());
        push_str_span(
            spans,
            "⏳",
            Style { fg: Some(Color::Cyan), bg: None, bold: false, dim: false, blink: true },
        );
    }
    assert(spans.deep_view() =~= old(spans).deep_view() + loading_spans(app@));
}

/// Puts the mark of the automatic scroll and its speed at the end.
fn push_scroll(spans: &mut Vec<Span>, app: &App)
    ensures
        final(spans).deep_view() == old(spans).deep_view() + scroll_spans(app@),
{
    let mark = match app.auto_scroll {
        AutoScroll::Off => "",
        AutoScroll::Linear => " [AUTO]",
        AutoScroll::RandomWalk => " [RAND]",
        AutoScroll::Demo => " [DEMO]",
    };
    push_str_span(spans, mark, fg_style(Color::Green));
    if app.auto_scroll != AutoScroll::Off {
        push_span(spans, speed_text(app.scroll_speed), fg_style(Color::LightGreen));
    }
    assert(spans.deep_view() =~= old(spans).deep_view() + scroll_spans(app@));
}

/// Puts the progress bar and the clock at the end.
fn push_playback(spans: &mut Vec<Span>, app: &App, now: u64)
    ensures
        final(spans).deep_view() == old(spans).deep_view() + playback_spans(app@, now),
{
    if app.mode == AppMode::Video {
        let current = app.engine.position(now);
        let total = app.engine.duration;
        let bar = progress_bar(progress_cells(current, total));
        push_span(spans, bar, fg_style(Color::Green));
        push_span(spans, clock_text(current, total), fg_style(Color::Cyan));
    }
    assert(spans.deep_view() =~= old(spans).deep_view() + playback_spans(app@, now));
}

/// Puts the state of the autoplay at the end.
fn push_autoplay(spans: &mut Vec<Span>, app: &App, labels: &Labels, autoplay: bool)
    ensures
        final(spans).deep_view() == old(spans).deep_view() + autoplay_spans(
            app@,
            labels@,
            autoplay,
        ),
{
    if app.mode == AppMode::Video && app.demo.len() > 0 {
        proof {
            reveal_strlit("[");
            reveal_strlit("] ");
            assert("["@ =~= seq!['[']);
            assert("] "@ =~= seq![']', ' ']);
        }
        if autoplay {
            let text = wrapped("[", labels.autoplay_on.as_str(), "] ");
            push_span(
                spans,
                text,
                Style { fg: Some(Color::Green), bg: None, bold: true, dim: false, blink: false },
            );
        } else {
            let text = wrapped("[", labels.autoplay_off.as_str(), "] ");
            push_span(
                spans,
                text,
                Style { fg: Some(Color::Red), bg: None, bold: true, dim: false, blink: false },
            );
        }
    }
    assert(spans.deep_view() =~= old(spans).deep_view() + autoplay_spans(
        app@,
        labels@,
        autoplay,
    ));
}

/// Puts the hint for the mode key and the mark of the render mode at the
/// end.
fn push_render(spans: &mut Vec<Span>, app: &App, labels: &Labels)
    ensures
        final(spans).deep_view() == old(spans).deep_view() + render_spans(app@, labels@),
{
    let mark = match app.render_mode {
        RenderMode::Cast => "[CST]",
        RenderMode::Fit => "[FIT]",
    };
    let style = if app.mode == AppMode::Video {
        Style { fg: Some(Color::Magenta), bg: None, bold: true, dim: false, blink: false }
    } else {
        fg_style(Color::Gray)
    };
    push_span(spans, labels.mode_toggle.clone(), fg_style(Color::Yellow));
    push_str_span(spans, mark, style);
    assert(spans.deep_view() =~= old(spans).deep_view() + render_spans(app@, labels@));
}

/// The status bar of a state at the clock reading `now`: at the left the
/// badge, the input line, the mark of loading and the automatic scroll; at
/// the right the playback, the autoplay and the render mode.
pub fn render_status_bar(app: &App, labels: &Labels, now: u64, autoplay: bool) -> (bar: StatusBar)
    ensures
        bar.left.deep_view() == status_left(app@, labels@),
        bar.right.deep_view() == status_right(app@, labels@, now, autoplay),
{
    let mut left: Vec<Span> = Vec::new();
    assert(left.deep_view() =~= Seq::<SpanModel>::empty());
    push_badge(&mut left, app, labels);
    push_input(&mut left, app, labels);
    push_loading(&mut left, app);
    push_scroll(&mut left, app);
    assert(left.deep_view() =~= status_left(app@, labels@));
    let mut right: Vec<Span> = Vec::new();
    assert(right.deep_view() =~= Seq::<SpanModel>::empty());
    push_playback(&mut right, app, now);
    push_autoplay(&mut right, app, labels, autoplay);
    push_render(&mut right, app, labels);
    assert(right.deep_view() =~= status_right(app@, labels@, now, autoplay));
    StatusBar { left, right }
}

/// The width of a character on the terminal, in columns; `None` for a
/// control character.
pub uninterp spec fn display_width(c: char) -> Option<usize>;

/// `UnicodeWidthChar::width`: the displayed width of the character.
#[verifier::external_body]
fn width_of(c: char) -> (width: Option<usize>)
    ensures
        width == display_width(c),
{
    UnicodeWidthChar::width(c)
}

/// The columns that a character takes in the mask: its displayed width, and
/// one column where it has none to tell.
pub open spec fn columns_of(c: char) -> usize {
    match display_width(c) {
        Some(width) => width,
        None => 1,
    }
}

/// The columns that a character of the given displayed width takes in the
/// mask: one where it has no width to tell.
pub fn columns_for(width: Option<usize>) -> (columns: usize)
    ensures
        columns == match width {
            Some(width) => width,
            None => 1,
        },
{
    match width {
        Some(width) => width,
        None => 1,
    }
}

/// The columns that a character takes in the mask.
pub fn columns(c: char) -> (width: usize)
    ensures
        width == columns_of(c),
{
    columns_for(width_of(c))
}

/// A glyph of the page with the columns that it takes in the mask.
#[derive(PartialEq, Eq, Structural, Clone, Copy, Debug)]
pub struct Glyph {
    pub symbol: char,
    pub columns: usize,
}

/// A character as a glyph.
pub open spec fn glyph_of(c: char) -> Glyph {
    Glyph { symbol: c, columns: columns_of(c) }
}

/// The characters of a page as glyphs.
pub fn measure(chars: &Vec<char>) -> (glyphs: Vec<Glyph>)
    ensures
        glyphs@ == chars@.map_values(|c: char| glyph_of(c)),
{
    let mut glyphs: Vec<Glyph> = Vec::new();
    let mut at: usize = 0;
    while at < chars.len()
        invariant
            at <= chars@.len(),
            glyphs@.len() == at,
            forall|i: int| 0 <= i < at ==> glyphs@[i] == glyph_of(chars@[i]),
        decreases chars@.len() - at,
    {
        let symbol = chars[at];
        let width = columns(symbol);
        let glyph = Glyph { symbol, columns: width };
        let ghost before = glyphs@;
        glyphs.push(glyph);
        proof {
            vstd::seq::axiom_seq_push_len(before, glyph);
            vstd::seq::axiom_seq_push_index_same(before, glyph, at as int);
            assert forall|i: int| 0 <= i < at implies glyphs@[i] == glyph_of(chars@[i]) by {
                vstd::seq::axiom_seq_push_index_different(before, glyph, i);
            }
        }
        at += 1;
    }
    assert(glyphs@ =~= chars@.map_values(|c: char| glyph_of(c)));
    glyphs
}

/// How a cell of the video is painted, by the brightness of its pixel:
/// black on black up to 30, dim dark gray on black up to 100, white on black
/// up to 200, and bold black on white above.
pub open spec fn shade_of(brightness: u8) -> Style {
    if brightness <= 30 {
        Style { fg: Some(Color::Black), bg: Some(Color::Black), ..plain() }
    } else if brightness <= 100 {
        Style { fg: Some(Color::DarkGray), bg: Some(Color::Black), dim: true, ..plain() }
    } else if brightness <= 200 {
        Style { fg: Some(Color::White), bg: Some(Color::Black), ..plain() }
    } else {
        Style { fg: Some(Color::Black), bg: Some(Color::White), bold: true, ..plain() }
    }
}

/// How a cell of the video is painted.
pub fn shade(brightness: u8) -> (style: Style)
    ensures
        style == shade_of(brightness),
{
    if brightness <= 30 {
        Style {
            fg: Some(Color::Black),
            bg: Some(Color::Black),
            bold: false,
            dim: false,
            blink: false,
        }
    } else if brightness <= 100 {
        Style {
            fg: Some(Color::DarkGray),
            bg: Some(Color::Black),
            bold: false,
            dim: true,
            blink: false,
        }
    } else if brightness <= 200 {
        Style {
            fg: Some(Color::White),
            bg: Some(Color::Black),
            bold: false,
            dim: false,
            blink: false,
        }
    } else {
        Style {
            fg: Some(Color::Black),
            bg: Some(Color::White),
            bold: true,
            dim: false,
            blink: false,
        }
    }
}

/// The brightness from which on the fit mode paints a glyph.
pub const FIT_THRESHOLD: u8 = 50;

/// Where the video lies in the window.
#[derive(PartialEq, Eq, Structural, Clone, Copy, Debug)]
pub struct Placement {
    pub off_x: usize,
    pub off_y: usize,
    pub draw_w: usize,
    pub draw_h: usize,
}

/// The placement of a video of `draw_w` by `draw_h` cells in the middle of
/// a window of `term_w` by `term_h` cells.
pub open spec fn centered_of(term_w: usize, term_h: usize, draw_w: usize, draw_h: usize) -> Placement {
    Placement {
        off_x: if term_w >= draw_w {
            ((term_w - draw_w) / 2) as usize
        } else {
            0
        },
        off_y: if term_h >= draw_h {
            ((term_h - draw_h) / 2) as usize
        } else {
            0
        },
        draw_w,
        draw_h,
    }
}

/// The placement of a video in the middle of a window.
pub fn centered(term_w: usize, term_h: usize, draw_w: usize, draw_h: usize) -> (place: Placement)
    ensures
        place == centered_of(term_w, term_h, draw_w, draw_h),
{
    Placement {
        off_x: term_w.saturating_sub(draw_w) / 2,
        off_y: term_h.saturating_sub(draw_h) / 2,
        draw_w,
        draw_h,
    }
}

impl Placement {
    /// Whether the cell in column `x` of row `y` shows video.
    pub open spec fn covers(self, x: usize, y: usize) -> bool {
        &&& self.off_x <= x < self.off_x + self.draw_w
        &&& self.off_y <= y < self.off_y + self.draw_h
    }

    /// Whether the cell in column `x` of row `y` shows video.
    pub fn contains(&self, x: usize, y: usize) -> (inside: bool)
        ensures
            inside == self.covers(x, y),
    {
        x >= self.off_x && x - self.off_x < self.draw_w && y >= self.off_y && y - self.off_y
            < self.draw_h
    }

    /// The index of the pixel that the cell in column `x` of row `y` shows,
    /// in a frame of `src_w` by `src_h` pixels held in `len` bytes: the
    /// cell's place in the video scaled to the frame, held within the frame
    /// and within the bytes.
    pub open spec fn pixel_of(self, x: usize, y: usize, src_w: usize, src_h: usize, len: usize) -> int {
        let src_x = ((x - self.off_x) * src_w) / (self.draw_w as int);
        let src_y = ((y - self.off_y) * src_h) / (self.draw_h as int);
        let sx = if src_x < src_w - 1 {
            src_x
        } else {
            src_w - 1
        };
        let sy = if src_y < src_h - 1 {
            src_y
        } else {
            src_h - 1
        };
        if sy * src_w + sx < len - 1 {
            sy * src_w + sx
        } else {
            len - 1
        }
    }

    /// The index of the pixel that the cell in column `x` of row `y` shows.
    pub fn pixel_index(&self, x: usize, y: usize, src_w: usize, src_h: usize, len: usize) -> (index:
        usize)
        requires
            self.covers(x, y),
            src_w > 0,
            src_h > 0,
            len > 0,
        ensures
            index == self.pixel_of(x, y, src_w, src_h, len),
            index < len,
    {
        let across: u128 = (x - self.off_x) as u128;
        let down: u128 = (y - self.off_y) as u128;
        assert(across * src_w <= 0xffff_ffff_ffff_ffff * 0xffff_ffff_ffff_ffff) by (nonlinear_arith)
            requires
                0 <= across <= 0xffff_ffff_ffff_ffff,
                0 <= src_w <= 0xffff_ffff_ffff_ffff,
        ;
        assert(down * src_h <= 0xffff_ffff_ffff_ffff * 0xffff_ffff_ffff_ffff) by (nonlinear_arith)
            requires
                0 <= down <= 0xffff_ffff_ffff_ffff,
                0 <= src_h <= 0xffff_ffff_ffff_ffff,
        ;
        let src_x: u128 = (across * src_w as u128) / (self.draw_w as u128);
        let src_y: u128 = (down * src_h as u128) / (self.draw_h as u128);
        let sx: u128 = if src_x < (src_w - 1) as u128 {
            src_x
        } else {
            (src_w - 1) as u128
        };
        let sy: u128 = if src_y < (src_h - 1) as u128 {
            src_y
        } else {
            (src_h - 1) as u128
        };
        assert(sy * src_w <= 0xffff_ffff_ffff_ffff * 0xffff_ffff_ffff_ffff) by (nonlinear_arith)
            requires
                0 <= sy <= 0xffff_ffff_ffff_ffff,
                0 <= src_w <= 0xffff_ffff_ffff_ffff,
        ;
        let at: u128 = sy * src_w as u128 + sx;
        if at < (len - 1) as u128 {
            at as usize
        } else {
            len - 1
        }
    }
}

/// A text of `width` blanks.
pub fn blanks(width: usize) -> (text: String)
    ensures
        text@ == Seq::new(width as nat, |i: int| ' '),
{
    let mut text = String::new();
    let mut at: usize = 0;
    assert(text@ =~= Seq::new(0, |i: int| ' '));
    while at < width
        invariant
            at <= width,
            text@ == Seq::new(at as nat, |i: int| ' '),
        decreases width - at,
    {
        text.push(' ');
        at += 1;
        assert(text@ =~= Seq::new(at as nat, |i: int| ' '));
    }
    text
}

/// The cell of the page beside the video: the glyph in dark gray.
pub open spec fn page_cell_of(glyph: Glyph) -> SpanModel {
    SpanModel { text: seq![glyph.symbol], style: colored(Color::DarkGray) }
}

/// Whether a cell of the video shows its glyph. In cast mode every cell
/// does that is not black on black; in fit mode those brighter than
/// `FIT_THRESHOLD`.
pub open spec fn shows_glyph(render_mode: RenderMode, brightness: u8) -> bool {
    match render_mode {
        RenderMode::Cast => brightness > 30,
        RenderMode::Fit => brightness > FIT_THRESHOLD,
    }
}

/// Whether a cell of the video uses up its glyph, so that the next cell
/// gets the next one: in cast mode always, in fit mode where it shows it.
pub open spec fn takes_glyph(render_mode: RenderMode, brightness: u8) -> bool {
    match render_mode {
        RenderMode::Cast => true,
        RenderMode::Fit => brightness > FIT_THRESHOLD,
    }
}

/// A cell of the video: the glyph in the shade of its pixel, or blanks of
/// the glyph's width.
pub open spec fn video_cell_of(render_mode: RenderMode, brightness: u8, glyph: Glyph) -> SpanModel {
    if shows_glyph(render_mode, brightness) {
        SpanModel { text: seq![glyph.symbol], style: shade_of(brightness) }
    } else {
        SpanModel { text: Seq::new(glyph.columns as nat, |i: int| ' '), style: plain() }
    }
}

/// The cell of the page beside the video.
pub fn page_cell(glyph: Glyph) -> (cell: Span)
    ensures
        cell.deep_view() == page_cell_of(glyph),
{
    let mut text = String::new();
    text.push(glyph.symbol);
    assert(text@ =~= seq![glyph.symbol]);
    Span { text, style: fg_style(Color::DarkGray) }
}

/// A cell of the video, and whether it uses up its glyph.
pub fn video_cell(render_mode: RenderMode, brightness: u8, glyph: Glyph) -> (cell: (Span, bool))
    ensures
        cell.0.deep_view() == video_cell_of(render_mode, brightness, glyph),
        cell.1 == takes_glyph(render_mode, brightness),
{
    let shows = match render_mode {
        RenderMode::Cast => brightness > 30,
        RenderMode::Fit => brightness > FIT_THRESHOLD,
    };
    let takes = match render_mode {
        RenderMode::Cast => true,
        RenderMode::Fit => brightness > FIT_THRESHOLD,
    };
    if shows {
        let mut text = String::new();
        text.push(glyph.symbol);
        assert(text@ =~= seq![glyph.symbol]);
        (Span { text, style: shade(brightness) }, takes)
    } else {
        (Span { text: blanks(glyph.columns), style: plain_style() }, takes)
    }
}

/// The index of the glyph that the mask begins with: the page's dense text
/// runs through the mask row by row, and each line scrolled shifts it by a
/// row.
pub open spec fn first_glyph_of(scroll_y: u16, term_w: usize, glyphs: usize) -> int {
    if glyphs == 0 {
        0
    } else {
        (scroll_y * term_w) % (glyphs as int)
    }
}

/// The index of the glyph that the mask begins with.
pub fn first_glyph(scroll_y: u16, term_w: usize, glyphs: usize) -> (index: usize)
    ensures
        index == first_glyph_of(scroll_y, term_w, glyphs),
        glyphs > 0 ==> index < glyphs,
{
    if glyphs == 0 {
        return 0;
    }
    assert(scroll_y * term_w <= 0xffff * 0xffff_ffff_ffff_ffff) by (nonlinear_arith)
        requires
            0 <= scroll_y <= 0xffff,
            0 <= term_w <= 0xffff_ffff_ffff_ffff,
    ;
    let shifted: u128 = scroll_y as u128 * term_w as u128;
    (shifted % glyphs as u128) as usize
}

/// The index of the glyph after the one at `index`, around the end of the
/// text.
pub fn next_glyph(index: usize, glyphs: usize) -> (next: usize)
    requires
        index < glyphs,
    ensures
        next == (index + 1) % (glyphs as int),
        next < glyphs,
{
    if index + 1 == glyphs {
        proof {
            vstd::arithmetic::div_mod::lemma_mod_self_0(glyphs as int);
        }
        0
    } else {
        proof {
            vstd::arithmetic::div_mod::lemma_small_mod((index + 1) as nat, glyphs as nat);
        }
        index + 1
    }
}

/// What a video mask is painted from: the frame, the window, the place of
/// the video in it, the glyphs of the page, and the render mode.
pub struct MaskModel {
    pub frame: FrameModel,
    pub term_w: usize,
    pub term_h: usize,
    pub place: Placement,
    pub glyphs: Seq<Glyph>,
    pub mode: RenderMode,
}

/// The state of the painting of a row: the column reached, the index of
/// the next glyph, and the spans painted so far.
pub struct Pen {
    pub x: int,
    pub glyph: int,
    pub spans: Seq<SpanModel>,
}

impl MaskModel {
    /// What the painting relies on: a frame that is not empty, with a
    /// geometry wherever the video has a place, and glyphs to paint with
    /// wherever there is a window.
    pub open spec fn wf(self) -> bool {
        &&& self.frame.bytes.len() > 0
        &&& self.place.draw_w > 0 && self.place.draw_h > 0 ==> self.frame.width > 0
            && self.frame.height > 0
        &&& self.term_w > 0 && self.term_h > 0 ==> self.glyphs.len() > 0
    }

    /// The pen at the start of a row that begins with the glyph `glyph`.
    pub open spec fn start(glyph: int) -> Pen {
        Pen { x: 0, glyph, spans: Seq::empty() }
    }

    /// The index of the glyph after the one at `glyph`, around the end of
    /// the glyphs.
    pub open spec fn after(self, glyph: int) -> int {
        (glyph + 1) % (self.glyphs.len() as int)
    }

    /// The pen after one cell of the row `y`. Beside the video the cell
    /// shows the glyph, and the next cell gets the next glyph. On the video
    /// the cell shows the glyph or blanks, by the pixel behind it and the
    /// render mode, which also decides whether the glyph is used up. A cell
    /// that does not fit into the row is not painted. The pen moves on by
    /// the columns of the glyph.
    pub open spec fn step(self, y: usize, pen: Pen) -> Pen {
        let glyph = self.glyphs[pen.glyph];
        let width = glyph.columns;
        let fits = pen.x + width <= self.term_w;
        if !self.place.covers(pen.x as usize, y) {
            Pen {
                x: pen.x + width,
                glyph: self.after(pen.glyph),
                spans: if fits {
                    pen.spans.push(page_cell_of(glyph))
                } else {
                    pen.spans
                },
            }
        } else {
            let brightness = self.frame.bytes[self.place.pixel_of(
                pen.x as usize,
                y,
                self.frame.width,
                self.frame.height,
                self.frame.bytes.len() as usize,
            )];
            if fits {
                Pen {
                    x: pen.x + width,
                    glyph: if takes_glyph(self.mode, brightness) {
                        self.after(pen.glyph)
                    } else {
                        pen.glyph
                    },
                    spans: pen.spans.push(video_cell_of(self.mode, brightness, glyph)),
                }
            } else {
                Pen { x: pen.x + width, ..pen }
            }
        }
    }

    /// The pen after up to `cells` cells of the row `y`, and no more than
    /// the row has room for.
    pub open spec fn run(self, y: usize, pen: Pen, cells: nat) -> Pen
        decreases cells,
    {
        if cells == 0 || pen.x >= self.term_w {
            pen
        } else {
            self.run(y, self.step(y, pen), (cells - 1) as nat)
        }
    }

    /// Whether the row `y` comes to its end from `pen` on: after some
    /// number of cells the pen has left the row. A row does not when it keeps
    /// painting glyphs that take no column.
    pub open spec fn row_ends(self, y: usize, pen: Pen) -> bool {
        exists|cells: nat| (#[trigger] self.run(y, pen, cells)).x >= self.term_w
    }

    /// The pen at the end of the row `y`, for a row that ends.
    pub open spec fn row(self, y: usize, pen: Pen) -> Pen {
        self.run(y, pen, choose|cells: nat| (#[trigger] self.run(y, pen, cells)).x >= self.term_w)
    }

    /// Whether the rows from `y` on all come to their end, the first of
    /// them beginning with the glyph `glyph` and each of the others with
    /// the glyph that the row before left off at.
    pub open spec fn ends_from(self, y: usize, glyph: int) -> bool
        decreases self.term_h - y,
    {
        if y >= self.term_h {
            true
        } else {
            &&& self.row_ends(y, Self::start(glyph))
            &&& self.ends_from((y + 1) as usize, self.row(y, Self::start(glyph)).glyph)
        }
    }

    /// The rows from `y` on.
    pub open spec fn rows_from(self, y: usize, glyph: int) -> Seq<Seq<SpanModel>>
        decreases self.term_h - y,
    {
        if y >= self.term_h {
            Seq::empty()
        } else {
            seq![self.row(y, Self::start(glyph)).spans] + self.rows_from(
                (y + 1) as usize,
                self.row(y, Self::start(glyph)).glyph,
            )
        }
    }

    /// The glyph that the mask begins with, for a page scrolled by
    /// `scroll_y` lines.
    pub open spec fn first(self, scroll_y: u16) -> int {
        first_glyph_of(scroll_y, self.term_w, self.glyphs.len() as usize)
    }
}

/// What a mask is painted from.
pub open spec fn mask_of(
    frame: FrameModel,
    term_w: usize,
    term_h: usize,
    place: Placement,
    glyphs: Seq<Glyph>,
    mode: RenderMode,
) -> MaskModel {
    MaskModel { frame, term_w, term_h, place, glyphs, mode }
}

/// The spans of a row, as values.
pub open spec fn row_view(row: Vec<Span>) -> Seq<SpanModel> {
    row.deep_view()
}

/// The rows of a mask, as values.
pub open spec fn rows_view(rows: Seq<Vec<Span>>) -> Seq<Seq<SpanModel>> {
    Seq::new(rows.len(), |i: int| row_view(rows[i]))
}

/// Paints the row `y` of a mask, beginning with the glyph `glyph`, and
/// says which glyph the next row begins with.
fn render_row(
    frame: &FrameBuffer,
    term_w: usize,
    term_h: usize,
    place: &Placement,
    glyphs: &Vec<Glyph>,
    mode: RenderMode,
    y: usize,
    glyph: usize,
) -> (row: (Vec<Span>, usize))
    requires
        mask_of(frame@, term_w, term_h, *place, glyphs@, mode).wf(),
        term_w > 0 ==> glyph < glyphs@.len(),
        mask_of(frame@, term_w, term_h, *place, glyphs@, mode).row_ends(
            y,
            MaskModel::start(glyph as int),
        ),
    ensures
        row.0.deep_view() == mask_of(frame@, term_w, term_h, *place, glyphs@, mode).row(
            y,
            MaskModel::start(glyph as int),
        ).spans,
        row.1 == mask_of(frame@, term_w, term_h, *place, glyphs@, mode).row(
            y,
            MaskModel::start(glyph as int),
        ).glyph,
        term_w > 0 ==> row.1 < glyphs@.len(),
{
    let ghost mask = mask_of(frame@, term_w, term_h, *place, glyphs@, mode);
    let ghost start = MaskModel::start(glyph as int);
    let ghost cells = choose|cells: nat| (#[trigger] mask.run(y, start, cells)).x >= term_w;
    let ghost mut left = cells;
    let ghost mut pen = start;
    let mut spans: Vec<Span> = Vec::new();
    let mut x: usize = 0;
    let mut at: usize = glyph;
    assert(spans.deep_view() =~= start.spans);
    if term_w == 0 {
        return (spans, at);
    }
    while x < term_w
        invariant
            mask == mask_of(frame@, term_w, term_h, *place, glyphs@, mode),
            mask.wf(),
            term_w > 0,
            pen.x >= 0,
            x == if pen.x > usize::MAX {
                usize::MAX as int
            } else {
                pen.x
            },
            at == pen.glyph,
            at < glyphs@.len(),
            spans.deep_view() == pen.spans,
            mask.run(y, pen, left) == mask.run(y, start, cells),
            mask.run(y, pen, left).x >= term_w,
        decreases left,
    {
        let glyph_here = glyphs[at];
        let width = glyph_here.columns;
        let fits = width <= term_w - x;
        let ghost before = pen;
        if !place.contains(x, y) {
            if fits {
                let cell = page_cell(glyph_here);
                spans.push(cell);
            }
            at = next_glyph(at, glyphs.len());
        } else {
            let index = place.pixel_index(
                x,
                y,
                frame.width,
                frame.height,
                frame.bytes.len(),
            );
            let brightness = frame.bytes[index];
            if fits {
                let (cell, takes) = video_cell(mode, brightness, glyph_here);
                spans.push(cell);
                if takes {
                    at = next_glyph(at, glyphs.len());
                }
            }
        }
        x = x.saturating_add(width);
        proof {
            pen = mask.step(y, before);
            left = (left - 1) as nat;
            assert(spans.deep_view() =~= pen.spans);
        }
    }
    (spans, at)
}

/// The mask of a video over a page: row by row, the window in spans. The
/// glyphs of the page run through the rows without a break; where the video
/// lies, its pixels decide how a glyph is painted, and whether it is.
pub fn render_video_mask(
    frame: &FrameBuffer,
    term_w: usize,
    term_h: usize,
    place: &Placement,
    glyphs: &Vec<Glyph>,
    scroll_y: u16,
    mode: RenderMode,
) -> (rows: Vec<Vec<Span>>)
    requires
        mask_of(frame@, term_w, term_h, *place, glyphs@, mode).wf(),
        mask_of(frame@, term_w, term_h, *place, glyphs@, mode).ends_from(
            0,
            mask_of(frame@, term_w, term_h, *place, glyphs@, mode).first(scroll_y),
        ),
    ensures
        rows_view(rows@) == mask_of(frame@, term_w, term_h, *place, glyphs@, mode).rows_from(
            0,
            mask_of(frame@, term_w, term_h, *place, glyphs@, mode).first(scroll_y),
        ),
        rows@.len() == term_h,
{
    let ghost mask = mask_of(frame@, term_w, term_h, *place, glyphs@, mode);
    let ghost first = mask.first(scroll_y);
    let mut rows: Vec<Vec<Span>> = Vec::new();
    let mut at: usize = first_glyph(scroll_y, term_w, glyphs.len());
    let mut y: usize = 0;
    assert(rows_view(rows@) + mask.rows_from(0, first) =~= mask.rows_from(0, first));
    while y < term_h
        invariant
            y <= term_h,
            mask == mask_of(frame@, term_w, term_h, *place, glyphs@, mode),
            mask.wf(),
            term_w > 0 && term_h > 0 ==> at < glyphs@.len(),
            rows@.len() == y,
            mask.ends_from(y, at as int),
            rows_view(rows@) + mask.rows_from(y, at as int) == mask.rows_from(0, first),
        decreases term_h - y,
    {
        let ghost done = rows_view(rows@);
        let (row, next) = render_row(frame, term_w, term_h, place, glyphs, mode, y, at);
        rows.push(row);
        proof {
            assert(rows_view(rows@) =~= done.push(row_view(row)));
            assert(rows_view(rows@) + mask.rows_from((y + 1) as usize, next as int) =~= done
                + mask.rows_from(y, at as int));
        }
        at = next;
        y += 1;
    }
    assert(rows_view(rows@) + mask.rows_from(y, at as int) =~= rows_view(rows@));
    rows
}

/// A mask whose glyphs all take a column comes to its end: every cell moves
/// the pen on.
pub proof fn lemma_wide_glyphs_end_rows(mask: MaskModel, y: usize, pen: Pen)
    requires
        forall|i: int| 0 <= i < mask.glyphs.len() ==> (#[trigger] mask.glyphs[i]).columns >= 1,
        mask.glyphs.len() > 0,
        0 <= pen.glyph < mask.glyphs.len(),
        0 <= pen.x,
    ensures
        mask.row_ends(y, pen),
        0 <= mask.row(y, pen).glyph < mask.glyphs.len(),
{
    lemma_wide_run_ends(mask, y, pen, mask.term_w as nat);
    let cells = choose|cells: nat| (#[trigger] mask.run(y, pen, cells)).x >= mask.term_w;
    lemma_run_keeps_glyph(mask, y, pen, cells);
}

/// With glyphs that all take a column, a row is done after as many cells
/// as it has columns left.
proof fn lemma_wide_run_ends(mask: MaskModel, y: usize, pen: Pen, cells: nat)
    requires
        forall|i: int| 0 <= i < mask.glyphs.len() ==> (#[trigger] mask.glyphs[i]).columns >= 1,
        mask.glyphs.len() > 0,
        0 <= pen.glyph < mask.glyphs.len(),
        0 <= pen.x,
        pen.x + cells >= mask.term_w,
    ensures
        mask.run(y, pen, cells).x >= mask.term_w,
    decreases cells,
{
    if cells == 0 || pen.x >= mask.term_w {
    } else {
        let next = mask.step(y, pen);
        lemma_step_keeps_glyph(mask, y, pen);
        lemma_wide_run_ends(mask, y, next, (cells - 1) as nat);
    }
}

/// A cell leaves the pen at a glyph of the page.
proof fn lemma_step_keeps_glyph(mask: MaskModel, y: usize, pen: Pen)
    requires
        mask.glyphs.len() > 0,
        0 <= pen.glyph < mask.glyphs.len(),
    ensures
        0 <= mask.step(y, pen).glyph < mask.glyphs.len(),
        mask.step(y, pen).x == pen.x + mask.glyphs[pen.glyph].columns,
{
    vstd::arithmetic::div_mod::lemma_mod_bound(pen.glyph + 1, mask.glyphs.len() as int);
}

/// A run of cells leaves the pen at a glyph of the page.
proof fn lemma_run_keeps_glyph(mask: MaskModel, y: usize, pen: Pen, cells: nat)
    requires
        mask.glyphs.len() > 0,
        0 <= pen.glyph < mask.glyphs.len(),
    ensures
        0 <= mask.run(y, pen, cells).glyph < mask.glyphs.len(),
    decreases cells,
{
    if cells == 0 || pen.x >= mask.term_w {
    } else {
        lemma_step_keeps_glyph(mask, y, pen);
        lemma_run_keeps_glyph(mask, y, mask.step(y, pen), (cells - 1) as nat);
    }
}

/// A mask whose glyphs all take a column can be painted, whatever the
/// frame shows and wherever the painting begins.
pub proof fn lemma_wide_glyphs_end(mask: MaskModel, y: usize, glyph: int)
    requires
        forall|i: int| 0 <= i < mask.glyphs.len() ==> (#[trigger] mask.glyphs[i]).columns >= 1,
        mask.glyphs.len() > 0,
        0 <= glyph < mask.glyphs.len(),
    ensures
        mask.ends_from(y, glyph),
    decreases mask.term_h - y,
{
    if y < mask.term_h {
        lemma_wide_glyphs_end_rows(mask, y, MaskModel::start(glyph));
        lemma_wide_glyphs_end(mask, (y + 1) as usize, mask.row(y, MaskModel::start(glyph)).glyph);
    }
}

} // verus!
