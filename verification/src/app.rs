//! The browser's state and what events and keys do to it.
//!
//! The state machine does no work outside itself. What has to happen
//! outside (a request for a page, the end and the start of processes) is put
//! down in `effects`, in the order in which it is to happen, for the caller to
//! take and carry out.

use crate::links::{LinkMap, TextMap};
use crate::text::{
    byte_len, clamp_cursor, cut_off, delete_next_grapheme, delete_prev_grapheme, delete_word,
    grapheme_offsets, insert_grapheme, lemma_text_without_nothing, line_count, lines_of,
    move_left_grapheme, move_right_grapheme, move_word_backward, move_word_forward, next_boundary,
    next_word_start, prev_boundary, remove_range, text_until, text_with, text_without, word_start,
};
use crate::types::{
    AppMode, AutoScroll, BgEvent, EventModel, Key, Modifiers, Page,
    PageModel, RenderMode, ScriptEntry, ScriptModel,
};
use crate::video::{seek_target, AudioStep, EngineModel, StartPlan, Teardown, VideoEngine};
use crate::web::{on_site, site_named, site_of, stays_on_site, url_host};
use rand::prelude::IndexedRandom;
use vstd::prelude::*;
use vstd::string::*;
use vstd::utf8::*;

verus! {

/// The scroll speed at the start, in quarters of the base speed.
pub const NORMAL_SPEED: u8 = 4;

/// The lowest scroll speed, in quarters of the base speed.
pub const SLOWEST: u8 = 2;

/// The highest scroll speed, in quarters of the base speed.
pub const FASTEST: u8 = 12;

/// The lines that a page key scrolls by.
pub const PAGE_STEP: u16 = 10;

/// The time that the right arrow key seeks by, in milliseconds.
pub const SEEK_FORTH: i64 = 5000;

/// The time that the left arrow key seeks by, in milliseconds.
pub const SEEK_BACK: i64 = -5000;

/// The lines before the end of a page at which a random walk moves on.
pub const WALK_MARGIN: usize = 2;

/// Work that the state machine leaves to its caller.
#[derive(Clone, Debug)]
pub enum Effect {
    /// Request `target`, read against the address `base`, and post what
    /// comes of it.
    Fetch { base: String, target: String, is_prefetch: bool, is_history: bool },
    /// Carry out the plan of a started session.
    Start(StartPlan),
    /// End what a stopped session had alive.
    Stop(Teardown),
    /// Take the step for the audio process.
    Audio(AudioStep),
}

/// The mathematical value of an `Effect`.
pub enum EffectModel {
    Fetch { base: Seq<char>, target: Seq<char>, is_prefetch: bool, is_history: bool },
    Start(StartPlan),
    Stop(Teardown),
    Audio(AudioStep),
}

impl DeepView for Effect {
    type V = EffectModel;

    open spec fn deep_view(&self) -> EffectModel {
        match *self {
            Effect::Fetch { base, target, is_prefetch, is_history } => EffectModel::Fetch {
                base: base@,
                target: target@,
                is_prefetch,
                is_history,
            },
            Effect::Start(plan) => EffectModel::Start(plan),
            Effect::Stop(teardown) => EffectModel::Stop(teardown),
            Effect::Audio(step) => EffectModel::Audio(step),
        }
    }
}

/// A page that was fetched ahead of its use.
#[derive(Clone, Debug)]
pub struct Prefetched {
    pub url: String,
    pub page: Page,
}

/// The mathematical value of a `Prefetched`.
pub struct PrefetchedModel {
    pub url: Seq<char>,
    pub page: PageModel,
}

impl View for Prefetched {
    type V = PrefetchedModel;

    open spec fn view(&self) -> PrefetchedModel {
        PrefetchedModel { url: self.url@, page: self.page@ }
    }
}

/// The state of the browser. `scroll_speed` counts quarters of the base
/// speed; `cursor_pos` is a byte offset into `url_input`.
#[derive(Debug)]
pub struct App {
    pub mode: AppMode,
    pub previous_mode: AppMode,
    pub render_mode: RenderMode,
    pub is_loading: bool,
    pub prefetch_data: Option<Prefetched>,
    pub current_url: String,
    pub url_input: String,
    pub cursor_pos: usize,
    pub page_text: String,
    pub dense_text: Vec<char>,
    pub link_map: LinkMap,
    pub hint_buffer: String,
    pub hint_mode_active: bool,
    pub valid_links: Vec<String>,
    pub history: Vec<String>,
    pub history_index: usize,
    pub scroll_y: u16,
    pub auto_scroll: AutoScroll,
    pub scroll_speed: u8,
    pub engine: VideoEngine,
    pub demo: Vec<ScriptEntry>,
    pub demo_index: usize,
    pub last_prefetch_index: Option<usize>,
    pub demo_cache: TextMap<Page>,
    pub effects: Vec<Effect>,
}

/// The mathematical value of an `App`.
pub struct AppModel {
    pub mode: AppMode,
    pub previous_mode: AppMode,
    pub render_mode: RenderMode,
    pub is_loading: bool,
    pub prefetch_data: Option<PrefetchedModel>,
    pub current_url: Seq<char>,
    pub url_input: Seq<char>,
    pub cursor_pos: usize,
    pub page_text: Seq<char>,
    pub dense_text: Seq<char>,
    pub link_map: Map<Seq<char>, Seq<char>>,
    pub hint_buffer: Seq<char>,
    pub hint_mode_active: bool,
    pub valid_links: Seq<Seq<char>>,
    pub history: Seq<Seq<char>>,
    pub history_index: usize,
    pub scroll_y: u16,
    pub auto_scroll: AutoScroll,
    pub scroll_speed: u8,
    pub engine: EngineModel,
    pub demo: Seq<ScriptModel>,
    pub demo_index: usize,
    pub last_prefetch_index: Option<usize>,
    pub demo_cache: Map<Seq<char>, PageModel>,
    pub effects: Seq<EffectModel>,
}

impl View for App {
    type V = AppModel;

    open spec fn view(&self) -> AppModel {
        AppModel {
            mode: self.mode,
            previous_mode: self.previous_mode,
            render_mode: self.render_mode,
            is_loading: self.is_loading,
            prefetch_data: match self.prefetch_data {
                Some(ready) => Some(ready@),
                None => None,
            },
            current_url: self.current_url@,
            url_input: self.url_input@,
            cursor_pos: self.cursor_pos,
            page_text: self.page_text@,
            dense_text: self.dense_text@,
            link_map: self.link_map@,
            hint_buffer: self.hint_buffer@,
            hint_mode_active: self.hint_mode_active,
            valid_links: self.valid_links.deep_view(),
            history: self.history.deep_view(),
            history_index: self.history_index,
            scroll_y: self.scroll_y,
            auto_scroll: self.auto_scroll,
            scroll_speed: self.scroll_speed,
            engine: self.engine@,
            demo: self.demo.deep_view(),
            demo_index: self.demo_index,
            last_prefetch_index: self.last_prefetch_index,
            demo_cache: self.demo_cache@,
            effects: self.effects.deep_view(),
        }
    }
}

/// The site of an address: its host, where it is an absolute address with
/// one.
pub open spec fn site(address: Seq<char>) -> Option<Seq<char>> {
    site_named(url_host(address))
}

/// The requests for the pages of a demo script, each a prefetch read
/// against `base`.
pub open spec fn demo_requests(base: Seq<char>, demo: Seq<ScriptModel>) -> Seq<EffectModel> {
    Seq::new(
        demo.len(),
        |i: int|
            EffectModel::Fetch {
                base,
                target: demo[i].url,
                is_prefetch: true,
                is_history: false,
            },
    )
}

impl AppModel {
    /// What the operations keep: the cursor stands on a character boundary
    /// of the input line, the history index points into the history, the
    /// scroll speed is within its limits, the demo index does not pass the
    /// end of the script, and the engine is as its operations keep it.
    pub open spec fn wf(self) -> bool {
        &&& self.engine.wf()
        &&& is_char_boundary(encode_utf8(self.url_input), self.cursor_pos as int)
        &&& self.history.len() == 0 ==> self.history_index == 0
        &&& self.history.len() > 0 ==> self.history_index < self.history.len()
        &&& SLOWEST <= self.scroll_speed <= FASTEST
        &&& self.demo_index <= self.demo.len()
    }

    /// The state with one more effect put down.
    pub open spec fn with_effect(self, effect: EffectModel) -> AppModel {
        AppModel { effects: self.effects.push(effect), ..self }
    }

    /// The state after a request for `url` was put down. A request that is
    /// no prefetch shows on the input line and as loading.
    pub open spec fn fetching(self, url: Seq<char>, is_prefetch: bool, is_history: bool) -> AppModel {
        let asked = self.with_effect(
            EffectModel::Fetch { base: self.current_url, target: url, is_prefetch, is_history },
        );
        if is_prefetch {
            asked
        } else {
            AppModel {
                is_loading: true,
                url_input: url,
                cursor_pos: byte_len(url) as usize,
                ..asked
            }
        }
    }

    /// A browser that has just been opened on `start_url`: the page is asked
    /// for, and after it every page of the demo script.
    pub open spec fn initial(
        start_url: Seq<char>,
        demo: Seq<ScriptModel>,
        duration: i64,
        now: u64,
    ) -> AppModel {
        AppModel {
            mode: AppMode::Normal,
            previous_mode: AppMode::Normal,
            render_mode: RenderMode::Cast,
            is_loading: true,
            prefetch_data: None,
            current_url: start_url,
            url_input: start_url,
            cursor_pos: byte_len(start_url) as usize,
            page_text: Seq::empty(),
            dense_text: Seq::empty(),
            link_map: Map::empty(),
            hint_buffer: Seq::empty(),
            hint_mode_active: false,
            valid_links: Seq::empty(),
            history: Seq::empty(),
            history_index: 0,
            scroll_y: 0,
            auto_scroll: AutoScroll::Off,
            scroll_speed: NORMAL_SPEED,
            engine: EngineModel::initial(duration, now),
            demo,
            demo_index: 0,
            last_prefetch_index: None,
            demo_cache: Map::empty(),
            effects: seq![
                EffectModel::Fetch {
                    base: start_url,
                    target: start_url,
                    is_prefetch: false,
                    is_history: false,
                },
            ] + demo_requests(start_url, demo),
        }
    }

    /// The state after the video was stopped: back in normal mode, the
    /// engine stopped and its teardown put down, the demo at its start.
    pub open spec fn video_stopped(self) -> AppModel {
        AppModel {
            mode: AppMode::Normal,
            engine: self.engine.stopped(),
            demo_index: 0,
            last_prefetch_index: None,
            auto_scroll: AutoScroll::Off,
            effects: self.effects.push(EffectModel::Stop(self.engine.teardown())),
            ..self
        }
    }

    /// The state with the page at `url` on show, scrolled to its top.
    pub open spec fn showing(self, url: Seq<char>, page: PageModel) -> AppModel {
        AppModel {
            current_url: url,
            url_input: url,
            cursor_pos: byte_len(url) as usize,
            page_text: page.text,
            dense_text: page.dense_text,
            link_map: page.link_map,
            valid_links: page.links,
            scroll_y: 0,
            ..self
        }
    }

    /// The history after a visit to `url` that counts: what lay ahead of the
    /// current entry is dropped, and `url` is put at the end.
    pub open spec fn visited(self, url: Seq<char>) -> Seq<Seq<char>> {
        if self.history_index + 1 < self.history.len() {
            self.history.take(self.history_index + 1).push(url)
        } else {
            self.history.push(url)
        }
    }

    /// The state after a page that was asked for has come. The page is on
    /// show. Unless it was reached through the history, or is the page that
    /// the history ends with, the visit goes down in the history. What was
    /// prefetched is dropped.
    pub open spec fn page_loaded(self, url: Seq<char>, page: PageModel, is_history_nav: bool) -> AppModel {
        let shown = AppModel { is_loading: false, prefetch_data: None, ..self.showing(url, page) };
        if !is_history_nav && (self.history.len() == 0 || self.history.last() != url) {
            AppModel {
                history: self.visited(url),
                history_index: (self.visited(url).len() - 1) as usize,
                ..shown
            }
        } else {
            shown
        }
    }

    /// Whether `url` is the address of a page of the demo script.
    pub open spec fn in_demo(self, url: Seq<char>) -> bool {
        exists|i: int| 0 <= i < self.demo.len() && (#[trigger] self.demo[i]).url == url
    }

    /// The state after a prefetched page has come: a page of the demo
    /// script goes into the demo cache, any other is kept for the next move.
    pub open spec fn prefetch_ready(self, url: Seq<char>, page: PageModel) -> AppModel {
        if self.in_demo(url) {
            AppModel { demo_cache: self.demo_cache.insert(url, page), ..self }
        } else {
            AppModel { prefetch_data: Some(PrefetchedModel { url, page }), ..self }
        }
    }

    /// Whether the end of the session `session_id` is the end of what
    /// plays: the browser shows video, and the session is the current one.
    pub open spec fn ends_playback(self, session_id: usize) -> bool {
        self.mode == AppMode::Video && session_id == self.engine.session_id
    }

    /// The state after the stream of the session `session_id` has ended. The
    /// end of a session that is not the current one changes nothing.
    pub open spec fn video_ended(self, session_id: usize) -> AppModel {
        if self.ends_playback(session_id) {
            self.video_stopped()
        } else {
            self
        }
    }

    /// The state after a request has failed: the message is on show.
    pub open spec fn failed(self, message: Seq<char>) -> AppModel {
        AppModel { is_loading: false, page_text: message, ..self }
    }

    /// The state after an event, but for the request that a random walk
    /// adds.
    pub open spec fn after_event(self, event: EventModel) -> AppModel {
        match event {
            EventModel::PageLoaded { url, page, is_history_nav } => self.page_loaded(
                url,
                page,
                is_history_nav,
            ),
            EventModel::PrefetchReady { url, page } => self.prefetch_ready(url, page),
            EventModel::VideoEnded(session_id) => self.video_ended(session_id),
            EventModel::Error(message) => self.failed(message),
        }
    }

    /// Whether an event makes a random walk ask for its next page: a page
    /// that has come does.
    pub open spec fn event_walks(self, event: EventModel) -> bool {
        event is PageLoaded && self.auto_scroll == AutoScroll::RandomWalk
    }

    /// Whether a link stays on the site of the current page. Where the
    /// current address has no site, every link does.
    pub open spec fn on_site(self, link: Seq<char>) -> bool {
        match site(self.current_url) {
            Some(host) => stays_on_site(link, host),
            None => true,
        }
    }

    /// Whether a random walk may go to `link`: it is a link of the page,
    /// and it stays on the site if any link of the page does.
    pub open spec fn may_walk_to(self, link: Seq<char>) -> bool {
        &&& self.valid_links.contains(link)
        &&& (exists|other: Seq<char>| #[trigger]
            self.valid_links.contains(other) && self.on_site(other)) ==> self.on_site(link)
    }

    /// The state after a prefetched page was put on show, if there was one:
    /// the visit goes down at the end of the history.
    pub open spec fn prefetch_applied(self) -> AppModel {
        match self.prefetch_data {
            Some(ready) => {
                let shown = self.showing(ready.url, ready.page);
                AppModel {
                    prefetch_data: None,
                    history: self.history.push(ready.url),
                    history_index: self.history.len() as usize,
                    ..shown
                }
            },
            None => self,
        }
    }

    /// The state with another text on the input line and the cursor at
    /// `cursor`.
    pub open spec fn edited(self, text: Seq<char>, cursor: int) -> AppModel {
        AppModel { url_input: text, cursor_pos: cursor as usize, ..self }
    }

    /// The cluster before the cursor is gone.
    pub open spec fn backspaced(self) -> AppModel {
        let prev = prev_boundary(grapheme_offsets(self.url_input), self.cursor_pos as int);
        self.edited(text_without(self.url_input, prev, self.cursor_pos as int), prev)
    }

    /// What lay between the start of the word before the cursor and the
    /// cursor is gone.
    pub open spec fn word_deleted(self) -> AppModel {
        let start = word_start(self.url_input, self.cursor_pos as int);
        self.edited(text_without(self.url_input, start, self.cursor_pos as int), start)
    }

    /// The cluster at the cursor is gone.
    pub open spec fn deleted(self) -> AppModel {
        if self.cursor_pos < byte_len(self.url_input) {
            let next = next_boundary(
                grapheme_offsets(self.url_input),
                self.cursor_pos as int,
                byte_len(self.url_input),
            );
            self.edited(
                text_without(self.url_input, self.cursor_pos as int, next),
                self.cursor_pos as int,
            )
        } else {
            self
        }
    }

    /// The state after a key in insert mode.
    pub open spec fn insert_key(self, key: Key, modifiers: Modifiers) -> AppModel {
        let text = self.url_input;
        let cursor = self.cursor_pos as int;
        let offsets = grapheme_offsets(text);
        match key {
            Key::Enter => (AppModel { mode: self.previous_mode, ..self }).fetching(
                text,
                false,
                false,
            ),
            Key::Esc => AppModel { mode: self.previous_mode, ..self },
            Key::Backspace => if modifiers.alt {
                self.word_deleted()
            } else {
                self.backspaced()
            },
            Key::Delete => self.deleted(),
            Key::Home => self.edited(text, 0),
            Key::End => self.edited(text, byte_len(text)),
            Key::Left => if modifiers.control {
                self.edited(text, word_start(text, cursor))
            } else {
                self.edited(text, prev_boundary(offsets, cursor))
            },
            Key::Right => if modifiers.control {
                self.edited(text, next_word_start(text, cursor))
            } else {
                self.edited(text, next_boundary(offsets, cursor, byte_len(text)))
            },
            Key::Char(c) => if c == 'h' && modifiers.control && !modifiers.shift {
                if modifiers.alt {
                    self.word_deleted()
                } else {
                    self.backspaced()
                }
            } else if c == 'w' && modifiers.control {
                self.word_deleted()
            } else if c == 'u' && modifiers.control {
                self.edited(text_without(text, 0, cursor), 0)
            } else if c == 'k' && modifiers.control {
                self.edited(text_until(text, cursor), cursor)
            } else if c == 'a' && modifiers.control {
                self.edited(text, 0)
            } else if c == 'e' && modifiers.control {
                self.edited(text, byte_len(text))
            } else if modifiers.none() || modifiers.only_shift() {
                self.edited(text_with(text, cursor, c), cursor + encode_scalar(c as u32).len())
            } else {
                self
            },
            _ => self,
        }
    }

    /// The state with hint mode left and the hint buffer empty.
    pub open spec fn hints_off(self) -> AppModel {
        AppModel { hint_mode_active: false, hint_buffer: Seq::empty(), ..self }
    }

    /// The state after a key in hint mode. A character goes into the hint
    /// buffer; a buffer that names a link leads there, and one of two bytes
    /// or more that names none is dropped, each with the end of hint mode.
    pub open spec fn hint_key(self, key: Key) -> AppModel {
        match key {
            Key::Esc => self.hints_off(),
            Key::Backspace => if self.hint_buffer.len() > 0 {
                AppModel { hint_buffer: self.hint_buffer.drop_last(), ..self }
            } else {
                self
            },
            Key::Char(c) => {
                let typed = self.hint_buffer.push(c);
                if self.link_map.contains_key(typed) {
                    self.hints_off().fetching(self.link_map[typed], false, false)
                } else if byte_len(typed) >= 2 {
                    self.hints_off()
                } else {
                    AppModel { hint_buffer: typed, ..self }
                }
            },
            _ => self,
        }
    }

    /// The state with the page scrolled up by `by` lines.
    pub open spec fn scrolled_up(self, by: u16) -> AppModel {
        AppModel {
            scroll_y: if self.scroll_y >= by {
                (self.scroll_y - by) as u16
            } else {
                0
            },
            ..self
        }
    }

    /// The state after a session was started at the seek time `seek`.
    pub open spec fn playing(self, term_w: u16, term_h: u16, seek: i64, now: u64) -> AppModel {
        AppModel {
            engine: self.engine.started(term_w as usize, term_h as usize, seek, now),
            effects: self.effects.push(
                EffectModel::Start(self.engine.start_plan(term_w as usize, term_h as usize, seek)),
            ),
            ..self
        }
    }

    /// The state after the key that plays and stops the video. A browser
    /// that shows a running video stops it. An engine that does not run is
    /// started from the beginning, and the browser shows video; with a demo
    /// script its first page is shown, and the script goes on from its
    /// second entry.
    pub open spec fn play_key(self, term_w: u16, term_h: u16, now: u64) -> AppModel {
        if self.mode == AppMode::Video && self.engine.running {
            self.video_stopped()
        } else if !self.engine.running {
            let started = AppModel { mode: AppMode::Video, ..self.playing(term_w, term_h, 0, now) };
            if self.demo.len() > 0 {
                AppModel {
                    auto_scroll: AutoScroll::Demo,
                    demo_index: 1,
                    ..started.demo_page_applied(0)
                }
            } else {
                started
            }
        } else {
            self
        }
    }

    /// The state after a seek by `delta` while video shows: a new session at
    /// the target, and the demo script set to it.
    pub open spec fn sought(self, delta: i64, term_w: u16, term_h: u16, now: u64) -> AppModel {
        self.playing(
            term_w,
            term_h,
            seek_target(self.engine.position(now), delta, self.engine.duration),
            now,
        ).demo_reset()
    }

    /// The state after the key that cycles the automatic scroll, which does
    /// nothing while there is a demo script.
    pub open spec fn scroll_cycled(self) -> AppModel {
        if self.demo.len() == 0 {
            AppModel {
                auto_scroll: match self.auto_scroll {
                    AutoScroll::Off => AutoScroll::Linear,
                    AutoScroll::Linear => AutoScroll::RandomWalk,
                    AutoScroll::RandomWalk => AutoScroll::Off,
                    AutoScroll::Demo => AutoScroll::Off,
                },
                ..self
            }
        } else {
            self
        }
    }

    /// The state after a step back in the history.
    pub open spec fn history_back(self) -> AppModel {
        if self.history_index > 0 {
            (AppModel { history_index: (self.history_index - 1) as usize, ..self }).fetching(
                self.history[self.history_index - 1],
                false,
                true,
            )
        } else {
            self
        }
    }

    /// The state after a step forth in the history.
    pub open spec fn history_forth(self) -> AppModel {
        if self.history_index + 1 < self.history.len() {
            (AppModel { history_index: (self.history_index + 1) as usize, ..self }).fetching(
                self.history[self.history_index + 1],
                false,
                true,
            )
        } else {
            self
        }
    }

    /// The state after a key outside insert mode and hint mode, but for the
    /// keys that may make a random walk move on.
    pub open spec fn normal_key(self, key: Key, term_h: u16, term_w: u16, now: u64) -> AppModel {
        match key {
            Key::Char(c) => if c == 'q' {
                if self.mode == AppMode::Video {
                    self.video_stopped()
                } else {
                    self
                }
            } else if c == 'i' {
                AppModel { previous_mode: self.mode, mode: AppMode::Insert, ..self }
            } else if c == 'p' {
                self.play_key(term_w, term_h, now)
            } else if c == ' ' && self.mode == AppMode::Video {
                AppModel {
                    engine: self.engine.toggled(now),
                    effects: self.effects.push(EffectModel::Audio(self.engine.toggle_step())),
                    ..self
                }
            } else if c == 'm' {
                AppModel {
                    render_mode: match self.render_mode {
                        RenderMode::Cast => RenderMode::Fit,
                        RenderMode::Fit => RenderMode::Cast,
                    },
                    ..self
                }
            } else if c == 'f' {
                AppModel { hint_mode_active: true, ..self }
            } else if c == 's' {
                self.scroll_cycled()
            } else if c == 'k' {
                self.scrolled_up(1)
            } else if c == 'h' {
                self.history_back()
            } else if c == 'l' {
                self.history_forth()
            } else {
                self
            },
            Key::Left => if self.mode == AppMode::Video {
                self.sought(SEEK_BACK, term_w, term_h, now)
            } else {
                self
            },
            Key::Right => if self.mode == AppMode::Video {
                self.sought(SEEK_FORTH, term_w, term_h, now)
            } else {
                self
            },
            Key::Up => if self.auto_scroll != AutoScroll::Off {
                AppModel {
                    scroll_speed: if self.scroll_speed < FASTEST {
                        (self.scroll_speed + 1) as u8
                    } else {
                        FASTEST
                    },
                    ..self
                }
            } else {
                self.scrolled_up(1)
            },
            Key::Down => if self.auto_scroll != AutoScroll::Off {
                AppModel {
                    scroll_speed: if self.scroll_speed > SLOWEST {
                        (self.scroll_speed - 1) as u8
                    } else {
                        SLOWEST
                    },
                    ..self
                }
            } else {
                self.scrolled(1)
            },
            Key::PageUp => self.scrolled_up(PAGE_STEP),
            _ => self,
        }
    }

    /// Whether a key ends the browser: the quit key does, outside insert
    /// mode and hint mode, unless video shows.
    pub open spec fn quits(self, key: Key) -> bool {
        &&& self.mode != AppMode::Insert
        &&& !self.hint_mode_active
        &&& key == Key::Char('q')
        &&& self.mode != AppMode::Video
    }

    /// The state after the page was scrolled down by `by` lines.
    pub open spec fn scrolled(self, by: u16) -> AppModel {
        AppModel {
            scroll_y: if self.scroll_y + by > u16::MAX {
                u16::MAX
            } else {
                (self.scroll_y + by) as u16
            },
            ..self
        }
    }

    /// Whether a random walk moves on: the walk is on, and the window of
    /// `term_h` lines has come within `WALK_MARGIN` lines of the end of the
    /// page.
    pub open spec fn walk_due(self, term_h: u16) -> bool {
        &&& self.auto_scroll == AutoScroll::RandomWalk
        &&& self.scroll_y + term_h + WALK_MARGIN >= lines_of(self.page_text)
    }

    /// The state with the page of the demo entry `index` on show, where the
    /// entry exists and its page is in the demo cache.
    pub open spec fn demo_page_applied(self, index: int) -> AppModel {
        if 0 <= index < self.demo.len() && self.demo_cache.contains_key(self.demo[index].url) {
            self.showing(self.demo[index].url, self.demo_cache[self.demo[index].url])
        } else {
            self
        }
    }

    /// Whether the next entry of the demo script is due at the clock reading
    /// `now`: video plays, and its position has reached the entry's time.
    pub open spec fn demo_due(self, now: u64) -> bool {
        &&& self.mode == AppMode::Video
        &&& self.demo_index < self.demo.len()
        &&& self.engine.position(now) >= self.demo[self.demo_index as int].timestamp
    }

    /// The state after the demo script was looked at, at the clock reading
    /// `now`: an entry that is due is shown, and the script moves on.
    pub open spec fn demo_checked(self, now: u64) -> AppModel {
        if self.demo_due(now) {
            AppModel {
                demo_index: (self.demo_index + 1) as usize,
                ..self.demo_page_applied(self.demo_index as int)
            }
        } else {
            self
        }
    }

    /// The state after the demo script was set to the engine's seek time:
    /// the next entry is the first one later than that time.
    pub open spec fn demo_reset(self) -> AppModel {
        if self.demo.len() == 0 {
            self
        } else {
            AppModel {
                demo_index: first_after(self.demo, self.engine.seek_time) as usize,
                last_prefetch_index: None,
                ..self
            }
        }
    }
}

/// The index of the first entry of a script that is later than `time`, and
/// the length of the script where none is.
pub open spec fn first_after(demo: Seq<ScriptModel>, time: i64) -> nat
    decreases demo.len(),
{
    if demo.len() == 0 {
        0
    } else if demo[0].timestamp > time {
        0
    } else {
        1 + first_after(demo.drop_first(), time)
    }
}

/// `post` follows from `pre` by a scroll of `by` lines in a window of
/// `term_h` lines. A random walk that has come to the end of its page moves
/// on: to the page that was prefetched, if one was, and to a new prefetch.
pub open spec fn scroll_moved(pre: AppModel, by: u16, term_h: u16, post: AppModel) -> bool {
    let moved = pre.scrolled(by);
    if moved.walk_due(term_h) {
        walked(moved.prefetch_applied(), post)
    } else {
        post == moved
    }
}

/// `post` follows from `pre` and a key, read in a window of `term_h` lines
/// and `term_w` columns at the clock reading `now`. In insert mode the key
/// edits the input line; in hint mode it spells a hint; else it is a command.
/// The commands that scroll down by key, and the one that moves on, may make
/// a random walk ask for its next page.
pub open spec fn key_handled(
    pre: AppModel,
    key: Key,
    modifiers: Modifiers,
    term_h: u16,
    term_w: u16,
    now: u64,
    post: AppModel,
) -> bool {
    if pre.mode == AppMode::Insert {
        post == pre.insert_key(key, modifiers)
    } else if pre.hint_mode_active {
        post == pre.hint_key(key)
    } else if key == Key::Char('j') {
        scroll_moved(pre, 1, term_h, post)
    } else if key == Key::PageDown {
        scroll_moved(pre, PAGE_STEP, term_h, post)
    } else if key == Key::Char('r') {
        walked(pre.prefetch_applied(), post)
    } else {
        post == pre.normal_key(key, term_h, term_w, now)
    }
}

/// `post` follows from `pre` and a run of events, taken in order.
pub open spec fn events_handled(pre: AppModel, events: Seq<EventModel>, post: AppModel) -> bool
    decreases events.len(),
{
    if events.len() == 0 {
        post == pre
    } else {
        exists|mid: AppModel|
            #![trigger event_handled(mid, events.last(), post)]
            events_handled(pre, events.drop_last(), mid) && event_handled(
                mid,
                events.last(),
                post,
            )
    }
}

/// A run of events is handled when all but its last are, and then the last.
pub proof fn lemma_one_more_event(
    pre: AppModel,
    events: Seq<EventModel>,
    mid: AppModel,
    post: AppModel,
)
    requires
        events.len() > 0,
        events_handled(pre, events.drop_last(), mid),
        event_handled(mid, events.last(), post),
    ensures
        events_handled(pre, events, post),
{
}

/// A random walk has asked for its next page: `post` is `pre` with a
/// prefetch of one of the links that the walk may go to, and `pre` itself
/// where the page has no links.
pub open spec fn walked(pre: AppModel, post: AppModel) -> bool {
    if pre.valid_links.len() == 0 {
        post == pre
    } else {
        exists|link: Seq<char>| #[trigger]
            pre.may_walk_to(link) && post == pre.fetching(link, true, false)
    }
}

/// `post` follows from `pre` and an event.
pub open spec fn event_handled(pre: AppModel, event: EventModel, post: AppModel) -> bool {
    if pre.event_walks(event) {
        walked(pre.after_event(event), post)
    } else {
        post == pre.after_event(event)
    }
}

/// `String::pop` takes the last character off, if there is one.
pub assume_specification[ String::pop ](text: &mut String) -> (last: Option<char>)
    ensures
        old(text)@.len() == 0 ==> last is None && final(text)@ == old(text)@,
        old(text)@.len() > 0 ==> last == Some(old(text)@.last()),
        old(text)@.len() > 0 ==> final(text)@ == old(text)@.drop_last(),
;

/// `String::clear` leaves the string empty.
pub assume_specification[ String::clear ](text: &mut String)
    ensures
        final(text)@ == Seq::<char>::empty(),
;

/// `IndexedRandom::choose` with the generator of the thread: one of the
/// items, and nothing of an empty list.
#[verifier::external_body]
fn pick_one(items: &Vec<String>) -> (chosen: Option<&String>)
    ensures
        match chosen {
            Some(item) => items@.contains(*item),
            None => items@.len() == 0,
        },
{
    items.choose(&mut rand::rng())
}

impl App {
    /// Opens the browser on `start_url`, with a demo script and the duration
    /// of the video, 0 where it is not known, at the clock reading `now`.
    pub fn new(start_url: String, demo: Vec<ScriptEntry>, duration: Option<i64>, now: u64) -> (app:
        App)
        ensures
            app@ == AppModel::initial(
                start_url@,
                demo.deep_view(),
                match duration {
                    Some(d) => d,
                    None => 0,
                },
                now,
            ),
            app@.wf(),
    {
        broadcast use encode_utf8_valid_utf8;

        let cursor_pos = start_url.as_str().as_bytes().len();
        let mut app = App {
            mode: AppMode::Normal,
            previous_mode: AppMode::Normal,
            render_mode: RenderMode::Cast,
            is_loading: false,
            prefetch_data: None,
            current_url: start_url.clone(),
            url_input: start_url.clone(),
            cursor_pos,
            page_text: String::new(),
            dense_text: Vec::new(),
            link_map: TextMap::new(),
            hint_buffer: String::new(),
            hint_mode_active: false,
            valid_links: Vec::new(),
            history: Vec::new(),
            history_index: 0,
            scroll_y: 0,
            auto_scroll: AutoScroll::Off,
            scroll_speed: NORMAL_SPEED,
            engine: VideoEngine::new(duration, now),
            demo,
            demo_index: 0,
            last_prefetch_index: None,
            demo_cache: TextMap::new(),
            effects: Vec::new(),
        };
        proof {
            is_char_boundary_start_end_of_seq(encode_utf8(start_url@));
            assert(app@.valid_links =~= Seq::<Seq<char>>::empty());
            assert(app@.history =~= Seq::<Seq<char>>::empty());
            assert(app@.effects =~= Seq::<EffectModel>::empty());
        }
        app.trigger_fetch(start_url, false, false);
        let ghost asked = app@;
        let ghost script = app@.demo;
        let mut at: usize = 0;
        while at < app.demo.len()
            invariant
                at <= app.demo@.len(),
                app@.demo == script,
                app@ == (AppModel {
                    effects: asked.effects + demo_requests(asked.current_url, script).take(
                        at as int,
                    ),
                    ..asked
                }),
            decreases app.demo@.len() - at,
        {
            let ghost before = app@;
            let url = app.demo[at].url.clone();
            app.trigger_fetch(url, true, false);
            proof {
                let requests = demo_requests(asked.current_url, script);
                assert(script[at as int] == app.demo@[at as int].deep_view());
                assert(requests.take(at + 1) =~= requests.take(at as int).push(requests[at as int]));
                assert(app@.effects =~= asked.effects + requests.take(at + 1));
            }
            at += 1;
        }
        proof {
            let requests = demo_requests(asked.current_url, script);
            assert(requests.take(at as int) =~= requests);
            assert(app@.effects =~= AppModel::initial(
                start_url@,
                script,
                app@.engine.duration,
                now,
            ).effects);
        }
        app
    }

    /// Hands out the effects put down so far, oldest first, and leaves none.
    pub fn take_effects(&mut self) -> (effects: Vec<Effect>)
        ensures
            effects.deep_view() == old(self)@.effects,
            final(self)@ == (AppModel { effects: Seq::empty(), ..old(self)@ }),
    {
        let mut effects: Vec<Effect> = Vec::new();
        std::mem::swap(&mut effects, &mut self.effects);
        assert(self@.effects =~= Seq::<EffectModel>::empty());
        effects
    }

    /// Puts down one effect.
    fn push_effect(&mut self, effect: Effect)
        ensures
            final(self)@ == old(self)@.with_effect(effect.deep_view()),
    {
        self.effects.push(effect);
        assert(self@.effects =~= old(self)@.effects.push(effect.deep_view()));
    }

    /// Asks for the page at `url`, read against the current address.
    pub fn trigger_fetch(&mut self, url: String, is_prefetch: bool, is_history: bool)
        ensures
            final(self)@ == old(self)@.fetching(url@, is_prefetch, is_history),
            old(self)@.wf() ==> final(self)@.wf(),
    {
        broadcast use encode_utf8_valid_utf8;

        if !is_prefetch {
            self.is_loading = true;
            self.url_input = url.clone();
            self.cursor_pos = self.url_input.as_str().as_bytes().len();
            proof {
                is_char_boundary_start_end_of_seq(encode_utf8(url@));
            }
        }
        let base = self.current_url.clone();
        self.push_effect(Effect::Fetch { base, target: url, is_prefetch, is_history });
    }

    /// Stops the video and goes back to normal mode.
    pub fn stop_video(&mut self)
        ensures
            final(self)@ == old(self)@.video_stopped(),
            old(self)@.wf() ==> final(self)@.wf(),
    {
        self.mode = AppMode::Normal;
        let teardown = self.engine.stop();
        self.push_effect(Effect::Stop(teardown));
        self.demo_index = 0;
        self.last_prefetch_index = None;
        self.auto_scroll = AutoScroll::Off;
    }

    /// Asks for one of the links that a random walk may go to, as a
    /// prefetch: a link that stays on the site where there is one, any link
    /// of the page where there is none.
    pub fn trigger_random_prefetch(&mut self)
        ensures
            walked(old(self)@, final(self)@),
            old(self)@.wf() ==> final(self)@.wf(),
    {
        let ghost pre = self@;
        let host = site_of(self.current_url.as_str());
        let mut filtered: Vec<String> = Vec::new();
        let mut at: usize = 0;
        while at < self.valid_links.len()
            invariant
                at <= self.valid_links@.len(),
                *self == *old(self),
                pre == self@,
                match host {
                    Some(name) => site(pre.current_url) == Some(name@),
                    None => site(pre.current_url) is None,
                },
                forall|i: int|
                    0 <= i < filtered@.len() ==> pre.valid_links.contains((#[trigger] filtered@[i])@)
                        && pre.on_site(filtered@[i]@),
                filtered@.len() == 0 ==> forall|i: int|
                    0 <= i < at ==> !pre.on_site(#[trigger] pre.valid_links[i]),
            decreases self.valid_links@.len() - at,
        {
            let link = &self.valid_links[at];
            let stays = match &host {
                Some(name) => on_site(link.as_str(), name),
                None => true,
            };
            proof {
                assert(pre.valid_links[at as int] == link@);
            }
            if stays {
                filtered.push(link.clone());
            }
            at += 1;
        }
        let chosen = match pick_one(&filtered) {
            Some(link) => {
                proof {
                    let at = choose|i: int| 0 <= i < filtered@.len() && filtered@[i] == *link;
                    assert(pre.valid_links.contains(filtered@[at]@));
                    assert(pre.may_walk_to(link@));
                }
                Some(link.clone())
            },
            None => match pick_one(&self.valid_links) {
                Some(link) => {
                    proof {
                        let at = choose|i: int|
                            0 <= i < self.valid_links@.len() && self.valid_links@[i] == *link;
                        assert(pre.valid_links[at] == link@);
                        assert forall|other: Seq<char>| #[trigger]
                            pre.valid_links.contains(other) implies !pre.on_site(other) by {
                            let j = choose|j: int|
                                0 <= j < pre.valid_links.len() && pre.valid_links[j] == other;
                            assert(!pre.on_site(pre.valid_links[j]));
                        }
                        assert(pre.may_walk_to(link@));
                    }
                    Some(link.clone())
                },
                None => None,
            },
        };
        match chosen {
            Some(link) => {
                self.trigger_fetch(link, true, false);
            },
            None => {
                assert(pre.valid_links.len() == 0);
            },
        }
    }

    /// Puts the page at `url` on show, scrolled to its top.
    fn show(&mut self, url: String, page: Page)
        ensures
            final(self)@ == old(self)@.showing(url@, page@),
            is_char_boundary(encode_utf8(final(self)@.url_input), final(self)@.cursor_pos as int),
    {
        broadcast use encode_utf8_valid_utf8;

        proof {
            is_char_boundary_start_end_of_seq(encode_utf8(url@));
        }
        self.cursor_pos = url.as_str().as_bytes().len();
        self.current_url = url.clone();
        self.url_input = url;
        self.page_text = page.text;
        self.dense_text = page.dense_text;
        self.link_map = page.link_map;
        self.valid_links = page.links;
        self.scroll_y = 0;
    }

    /// Puts the page that was prefetched on show, if there is one, lets a
    /// random walk ask for the page after it, and says whether there was one.
    fn apply_prefetch(&mut self) -> (applied: bool)
        requires
            old(self)@.wf(),
        ensures
            applied == old(self)@.prefetch_data is Some,
            applied ==> walked(old(self)@.prefetch_applied(), final(self)@),
            !applied ==> final(self)@ == old(self)@,
            final(self)@.wf(),
    {
        let ready = self.prefetch_data.take();
        match ready {
            Some(ready) => {
                let ghost url = ready.url@;
                let ghost before = self.history.deep_view();
                let visit = ready.url.clone();
                self.show(ready.url, ready.page);
                self.history.push(visit);
                self.history_index = self.history.len() - 1;
                proof {
                    assert(self.history.deep_view() =~= before.push(url));
                    assert(self@ == old(self)@.prefetch_applied());
                }
                self.trigger_random_prefetch();
                true
            },
            None => {
                false
            },
        }
    }

    /// Lets a random walk that has come to the end of its page move on.
    fn check_random_walk_trigger(&mut self, term_h: u16)
        requires
            old(self)@.wf(),
        ensures
            if old(self)@.walk_due(term_h) {
                walked(old(self)@.prefetch_applied(), final(self)@)
            } else {
                final(self)@ == old(self)@
            },
            final(self)@.wf(),
    {
        if self.auto_scroll == AutoScroll::RandomWalk {
            let lines = line_count(self.page_text.as_str());
            let reach: usize = self.scroll_y as usize + term_h as usize;
            let due = if lines >= WALK_MARGIN {
                reach >= lines - WALK_MARGIN
            } else {
                true
            };
            if due {
                if !self.apply_prefetch() {
                    self.trigger_random_prefetch();
                }
            }
        }
    }

    /// Scrolls down by one line.
    pub fn scroll_down(&mut self, term_h: u16)
        requires
            old(self)@.wf(),
        ensures
            scroll_moved(old(self)@, 1, term_h, final(self)@),
            final(self)@.wf(),
    {
        self.scroll_y = self.scroll_y.saturating_add(1);
        self.check_random_walk_trigger(term_h);
    }

    /// Scrolls down by one page step.
    fn scroll_down_pg(&mut self, term_h: u16)
        requires
            old(self)@.wf(),
        ensures
            scroll_moved(old(self)@, PAGE_STEP, term_h, final(self)@),
            final(self)@.wf(),
    {
        self.scroll_y = self.scroll_y.saturating_add(PAGE_STEP);
        self.check_random_walk_trigger(term_h);
    }

    /// Puts the page of the demo entry `index` on show, where the entry
    /// exists and its page is in the demo cache.
    fn apply_demo_page(&mut self, index: usize)
        requires
            old(self)@.wf(),
        ensures
            final(self)@ == old(self)@.demo_page_applied(index as int),
            final(self)@.wf(),
    {
        if index >= self.demo.len() {
            return ;
        }
        proof {
            assert(self@.demo[index as int] == self.demo@[index as int].deep_view());
        }
        let url = self.demo[index].url.clone();
        let cached = match self.demo_cache.get(&url) {
            Some(page) => Some(page.duplicate()),
            None => None,
        };
        match cached {
            Some(page) => {
                self.show(url, page);
            },
            None => {},
        }
    }

    /// Looks at the demo script at the clock reading `now`: an entry that is
    /// due is shown, and the script moves on.
    pub fn check_demo_transitions(&mut self, now: u64)
        requires
            old(self)@.wf(),
        ensures
            final(self)@ == old(self)@.demo_checked(now),
            final(self)@.wf(),
    {
        if self.demo.len() == 0 || self.mode != AppMode::Video {
            return ;
        }
        let current_time = self.engine.position(now);
        if self.demo_index < self.demo.len() {
            proof {
                assert(self@.demo[self.demo_index as int]
                    == self.demo@[self.demo_index as int].deep_view());
            }
            let entry_timestamp = self.demo[self.demo_index].timestamp;
            if current_time >= entry_timestamp {
                self.apply_demo_page(self.demo_index);
                self.demo_index += 1;
            }
        }
    }

    /// Sets the demo script to the engine's seek time.
    fn reset_demo_index(&mut self)
        requires
            old(self)@.wf(),
        ensures
            final(self)@ == old(self)@.demo_reset(),
            final(self)@.wf(),
    {
        if self.demo.len() == 0 {
            return ;
        }
        let current_time = self.engine.seek_time;
        let ghost script = self@.demo;
        let mut at: usize = 0;
        proof {
            assert(script.skip(0) =~= script);
        }
        while at < self.demo.len() && self.demo[at].timestamp <= current_time
            invariant
                at <= self.demo@.len(),
                *self == *old(self),
                script == self@.demo,
                current_time == self.engine.seek_time,
                first_after(script, current_time) == at + first_after(
                    script.skip(at as int),
                    current_time,
                ),
            decreases self.demo@.len() - at,
        {
            proof {
                let rest = script.skip(at as int);
                assert(rest[0] == self.demo@[at as int].deep_view());
                assert(rest.drop_first() =~= script.skip(at + 1));
            }
            at += 1;
        }
        proof {
            let rest = script.skip(at as int);
            if at < script.len() {
                assert(rest[0] == self.demo@[at as int].deep_view());
            }
        }
        self.demo_index = at;
        self.last_prefetch_index = None;
    }

    /// Takes one event.
    fn handle_event(&mut self, event: BgEvent)
        requires
            old(self)@.wf(),
        ensures
            event_handled(old(self)@, event@, final(self)@),
            final(self)@.wf(),
    {
        match event {
            BgEvent::PageLoaded { url, text, links, dense_text, link_map, is_history_nav } => {
                let ghost pre = self@;
                let ghost address = url@;
                self.is_loading = false;
                let listed = if is_history_nav {
                    false
                } else if self.history.len() == 0 {
                    true
                } else {
                    self.history[self.history.len() - 1] != url
                };
                let visit = url.clone();
                self.show(url, Page { text, dense_text, link_map, links });
                if listed {
                    let ghost before = self.history.deep_view();
                    if self.history_index + 1 < self.history.len() {
                        self.history.truncate(self.history_index + 1);
                    }
                    self.history.push(visit);
                    self.history_index = self.history.len() - 1;
                    proof {
                        assert(self.history.deep_view() =~= pre.visited(address));
                    }
                }
                self.prefetch_data = None;
                proof {
                    assert(pre.history.len() > 0 ==> pre.history.last()
                        == old(self).history@.last()@);
                    assert(self@ == pre.after_event(event@));
                }
                if self.auto_scroll == AutoScroll::RandomWalk {
                    self.trigger_random_prefetch();
                }
            },
            BgEvent::PrefetchReady { url, text, links, dense_text, link_map } => {
                let page = Page { text, dense_text, link_map, links };
                if self.is_demo_url(&url) {
                    self.demo_cache.insert(url, page);
                } else {
                    self.prefetch_data = Some(Prefetched { url, page });
                }
            },
            BgEvent::VideoEnded(session_id) => {
                if self.mode == AppMode::Video && session_id == self.engine.session_id {
                    self.stop_video();
                }
            },
            BgEvent::Error(message) => {
                self.is_loading = false;
                self.page_text = message;
            },
        }
    }

    /// Whether `url` is the address of a page of the demo script.
    fn is_demo_url(&self, url: &String) -> (found: bool)
        ensures
            found == self@.in_demo(url@),
    {
        let mut at: usize = 0;
        while at < self.demo.len()
            invariant
                at <= self.demo@.len(),
                forall|i: int| 0 <= i < at ==> (#[trigger] self@.demo[i]).url != url@,
            decreases self.demo@.len() - at,
        {
            proof {
                assert(self@.demo[at as int] == self.demo@[at as int].deep_view());
            }
            if self.demo[at].url == *url {
                return true;
            }
            at += 1;
        }
        false
    }

    /// Takes the events that have come, oldest first. The end of a video
    /// session takes the browser out of video mode only where the session is
    /// the current one; the end of any other session is passed over.
    pub fn handle_events(&mut self, events: Vec<BgEvent>)
        requires
            old(self)@.wf(),
        ensures
            events_handled(old(self)@, events.deep_view(), final(self)@),
            final(self)@.wf(),
    {
        let ghost all = events.deep_view();
        proof {
            assert(all.take(0) =~= Seq::<EventModel>::empty());
        }
        for event in iter: events
            invariant
                iter.seq() == events@,
                all == events.deep_view(),
                self@.wf(),
                events_handled(old(self)@, all.take(iter.index()), self@),
        {
            let ghost mid = self@;
            let ghost done = iter.index();
            self.handle_event(event);
            proof {
                let next = all.take(done + 1);
                assert(next.drop_last() =~= all.take(done));
                assert(next.last() == event@);
                lemma_one_more_event(old(self)@, next, mid, self@);
            }
        }
        proof {
            assert(all.take(all.len() as int) =~= all);
        }
    }

    /// Takes a key in insert mode.
    fn handle_insert(&mut self, key: Key, modifiers: Modifiers)
        requires
            old(self)@.wf(),
        ensures
            final(self)@ == old(self)@.insert_key(key, modifiers),
            final(self)@.wf(),
    {
        broadcast use encode_utf8_valid_utf8;

        let ghost pre = self@;
        let ghost text = pre.url_input;
        proof {
            is_char_boundary_start_end_of_seq(encode_utf8(text));
        }
        match key {
            Key::Enter => {
                self.mode = self.previous_mode;
                let url = self.url_input.clone();
                self.trigger_fetch(url, false, false);
            },
            Key::Esc => {
                self.mode = self.previous_mode;
            },
            Key::Backspace => {
                if modifiers.alt {
                    delete_word(&mut self.url_input, &mut self.cursor_pos);
                } else {
                    delete_prev_grapheme(&mut self.url_input, &mut self.cursor_pos);
                }
            },
            Key::Delete => {
                delete_next_grapheme(&mut self.url_input, &mut self.cursor_pos);
            },
            Key::Home => {
                self.cursor_pos = 0;
            },
            Key::End => {
                self.cursor_pos = self.url_input.as_str().as_bytes().len();
            },
            Key::Left => {
                if modifiers.control {
                    move_word_backward(self.url_input.as_str(), &mut self.cursor_pos);
                } else {
                    move_left_grapheme(self.url_input.as_str(), &mut self.cursor_pos);
                }
            },
            Key::Right => {
                if modifiers.control {
                    move_word_forward(self.url_input.as_str(), &mut self.cursor_pos);
                } else {
                    move_right_grapheme(self.url_input.as_str(), &mut self.cursor_pos);
                }
            },
            Key::Char(c) => {
                if c == 'h' && modifiers.control && !modifiers.shift {
                    if modifiers.alt {
                        delete_word(&mut self.url_input, &mut self.cursor_pos);
                    } else {
                        delete_prev_grapheme(&mut self.url_input, &mut self.cursor_pos);
                    }
                } else if c == 'w' && modifiers.control {
                    delete_word(&mut self.url_input, &mut self.cursor_pos);
                } else if c == 'u' && modifiers.control {
                    if self.cursor_pos > 0 {
                        remove_range(&mut self.url_input, 0, self.cursor_pos);
                    } else {
                        proof {
                            lemma_text_without_nothing(text, 0);
                        }
                    }
                    self.cursor_pos = 0;
                } else if c == 'k' && modifiers.control {
                    let cursor = clamp_cursor(self.url_input.as_str(), self.cursor_pos);
                    cut_off(&mut self.url_input, cursor);
                    self.cursor_pos = cursor;
                } else if c == 'a' && modifiers.control {
                    self.cursor_pos = 0;
                } else if c == 'e' && modifiers.control {
                    self.cursor_pos = self.url_input.as_str().as_bytes().len();
                } else if modifiers.is_empty() || modifiers.is_shift() {
                    insert_grapheme(&mut self.url_input, &mut self.cursor_pos, c);
                }
            },
            _ => {},
        }
    }

    /// Takes a key in hint mode.
    fn handle_hint(&mut self, key: Key)
        requires
            old(self)@.wf(),
        ensures
            final(self)@ == old(self)@.hint_key(key),
            final(self)@.wf(),
    {
        match key {
            Key::Esc => {
                self.hint_mode_active = false;
                self.hint_buffer.clear();
            },
            Key::Backspace => {
                self.hint_buffer.pop();
            },
            Key::Char(c) => {
                self.hint_buffer.push(c);
                let target = match self.link_map.get(&self.hint_buffer) {
                    Some(url) => Some(url.clone()),
                    None => None,
                };
                match target {
                    Some(url) => {
                        self.hint_mode_active = false;
                        self.hint_buffer.clear();
                        self.trigger_fetch(url, false, false);
                    },
                    None => {
                        if self.hint_buffer.as_str().as_bytes().len() >= 2 {
                            self.hint_buffer.clear();
                            self.hint_mode_active = false;
                        }
                    },
                }
            },
            _ => {},
        }
    }

    /// Starts a session at `seek` and puts its plan down.
    fn play(&mut self, term_w: u16, term_h: u16, seek: i64, now: u64)
        requires
            old(self)@.wf(),
            old(self)@.engine.session_id < usize::MAX,
        ensures
            final(self)@ == old(self)@.playing(term_w, term_h, seek, now),
            final(self)@.wf(),
    {
        assert(term_w as usize * term_h as usize <= usize::MAX) by (nonlinear_arith)
            requires
                term_w <= 0xffff,
                term_h <= 0xffff,
                usize::MAX >= 0xffff_ffff,
        ;
        let plan = self.engine.start(term_w as usize, term_h as usize, seek, now);
        self.push_effect(Effect::Start(plan));
    }

    /// Takes the key that plays and stops the video.
    fn play_or_stop(&mut self, term_w: u16, term_h: u16, now: u64)
        requires
            old(self)@.wf(),
            old(self)@.engine.session_id < usize::MAX,
        ensures
            final(self)@ == old(self)@.play_key(term_w, term_h, now),
            final(self)@.wf(),
    {
        let is_running = self.engine.running;
        if self.mode == AppMode::Video && is_running {
            self.stop_video();
        } else if !is_running {
            self.play(term_w, term_h, 0, now);
            self.mode = AppMode::Video;
            if self.demo.len() > 0 {
                self.auto_scroll = AutoScroll::Demo;
                self.demo_index = 0;
                self.apply_demo_page(0);
                self.demo_index = 1;
            }
        }
    }

    /// Pauses the video, or resumes it, and puts the step for the audio
    /// process down.
    fn toggle_pause(&mut self, now: u64)
        requires
            old(self)@.wf(),
        ensures
            final(self)@ == (AppModel {
                engine: old(self)@.engine.toggled(now),
                effects: old(self)@.effects.push(
                    EffectModel::Audio(old(self)@.engine.toggle_step()),
                ),
                ..old(self)@
            }),
            final(self)@.wf(),
    {
        let step = self.engine.toggle_pause(now);
        self.push_effect(Effect::Audio(step));
    }

    /// Takes the key that cycles the automatic scroll.
    fn cycle_scroll(&mut self)
        requires
            old(self)@.wf(),
        ensures
            final(self)@ == old(self)@.scroll_cycled(),
            final(self)@.wf(),
    {
        if self.demo.len() == 0 {
            self.auto_scroll = match self.auto_scroll {
                AutoScroll::Off => AutoScroll::Linear,
                AutoScroll::Linear => AutoScroll::RandomWalk,
                AutoScroll::RandomWalk => AutoScroll::Off,
                AutoScroll::Demo => AutoScroll::Off,
            };
        }
    }

    /// Goes one step back in the history.
    fn go_back(&mut self)
        requires
            old(self)@.wf(),
        ensures
            final(self)@ == old(self)@.history_back(),
            final(self)@.wf(),
    {
        if self.history_index > 0 {
            assert(self@.history.len() == self.history@.len());
            self.history_index -= 1;
            let url = self.history[self.history_index].clone();
            self.trigger_fetch(url, false, true);
        }
    }

    /// Goes one step forth in the history.
    fn go_forth(&mut self)
        requires
            old(self)@.wf(),
        ensures
            final(self)@ == old(self)@.history_forth(),
            final(self)@.wf(),
    {
        let entries = self.history.len();
        assert(self@.history.len() == entries);
        if self.history_index + 1 < entries {
            self.history_index += 1;
            let url = self.history[self.history_index].clone();
            self.trigger_fetch(url, false, true);
        }
    }

    /// Scrolls up by `by` lines.
    fn scroll_up(&mut self, by: u16)
        requires
            old(self)@.wf(),
        ensures
            final(self)@ == old(self)@.scrolled_up(by),
            final(self)@.wf(),
    {
        self.scroll_y = self.scroll_y.saturating_sub(by);
    }

    /// Takes a character outside insert mode and hint mode that is none of
    /// the keys that may make a random walk move on.
    fn handle_letter(&mut self, c: char, term_h: u16, term_w: u16, now: u64)
        requires
            old(self)@.wf(),
            old(self)@.engine.session_id < usize::MAX,
            c != 'j',
            c != 'r',
        ensures
            final(self)@ == old(self)@.normal_key(Key::Char(c), term_h, term_w, now),
            final(self)@.wf(),
    {
        if c == 'q' {
            if self.mode == AppMode::Video {
                self.stop_video();
            }
        } else if c == 'i' {
            self.previous_mode = self.mode;
            self.mode = AppMode::Insert;
        } else if c == 'p' {
            self.play_or_stop(term_w, term_h, now);
        } else if c == ' ' && self.mode == AppMode::Video {
            self.toggle_pause(now);
        } else if c == 'm' {
            self.render_mode = match self.render_mode {
                RenderMode::Cast => RenderMode::Fit,
                RenderMode::Fit => RenderMode::Cast,
            };
        } else if c == 'f' {
            self.hint_mode_active = true;
        } else if c == 's' {
            self.cycle_scroll();
        } else if c == 'k' {
            self.scroll_up(1);
        } else if c == 'h' {
            self.go_back();
        } else if c == 'l' {
            self.go_forth();
        }
    }

    /// Changes the scroll speed by one step, within its limits.
    fn change_speed(&mut self, faster: bool)
        requires
            old(self)@.wf(),
        ensures
            final(self)@ == (AppModel {
                scroll_speed: if faster {
                    if old(self)@.scroll_speed < FASTEST {
                        (old(self)@.scroll_speed + 1) as u8
                    } else {
                        FASTEST
                    }
                } else {
                    if old(self)@.scroll_speed > SLOWEST {
                        (old(self)@.scroll_speed - 1) as u8
                    } else {
                        SLOWEST
                    }
                },
                ..old(self)@
            }),
            final(self)@.wf(),
    {
        if faster {
            if self.scroll_speed < FASTEST {
                self.scroll_speed += 1;
            } else {
                self.scroll_speed = FASTEST;
            }
        } else {
            if self.scroll_speed > SLOWEST {
                self.scroll_speed -= 1;
            } else {
                self.scroll_speed = SLOWEST;
            }
        }
    }

    /// Takes a key outside insert mode and hint mode that is none of the
    /// keys that may make a random walk move on.
    fn handle_command(&mut self, key: Key, term_h: u16, term_w: u16, now: u64)
        requires
            old(self)@.wf(),
            old(self)@.engine.session_id < usize::MAX,
            key != Key::Char('j'),
            key != Key::Char('r'),
            key != Key::PageDown,
        ensures
            final(self)@ == old(self)@.normal_key(key, term_h, term_w, now),
            final(self)@.wf(),
    {
        match key {
            Key::Char(c) => {
                self.handle_letter(c, term_h, term_w, now);
            },
            Key::Left => {
                if self.mode == AppMode::Video {
                    self.seek_video(SEEK_BACK, term_w, term_h, now);
                }
            },
            Key::Right => {
                if self.mode == AppMode::Video {
                    self.seek_video(SEEK_FORTH, term_w, term_h, now);
                }
            },
            Key::Up => {
                if self.auto_scroll != AutoScroll::Off {
                    self.change_speed(true);
                } else {
                    self.scroll_up(1);
                }
            },
            Key::Down => {
                if self.auto_scroll != AutoScroll::Off {
                    self.change_speed(false);
                } else {
                    self.scroll_down(term_h);
                }
            },
            Key::PageUp => {
                self.scroll_up(PAGE_STEP);
            },
            _ => {},
        }
    }

    /// Seeks by `delta` and sets the demo script to the target.
    fn seek_video(&mut self, delta: i64, term_w: u16, term_h: u16, now: u64)
        requires
            old(self)@.wf(),
            old(self)@.engine.session_id < usize::MAX,
        ensures
            final(self)@ == old(self)@.sought(delta, term_w, term_h, now),
            final(self)@.wf(),
    {
        assert(term_w as usize * term_h as usize <= usize::MAX) by (nonlinear_arith)
            requires
                term_w <= 0xffff,
                term_h <= 0xffff,
                usize::MAX >= 0xffff_ffff,
        ;
        let plan = self.engine.seek(delta, term_w as usize, term_h as usize, now);
        self.push_effect(Effect::Start(plan));
        self.reset_demo_index();
    }

    /// Takes a key, read in a window of `term_h` lines and `term_w` columns
    /// at the clock reading `now`, and says whether the browser is to end.
    pub fn on_key(&mut self, key: Key, modifiers: Modifiers, term_h: u16, term_w: u16, now: u64) -> (quit:
        bool)
        requires
            old(self)@.wf(),
            old(self)@.engine.session_id < usize::MAX,
        ensures
            key_handled(old(self)@, key, modifiers, term_h, term_w, now, final(self)@),
            quit == old(self)@.quits(key),
            final(self)@.wf(),
    {
        if self.mode == AppMode::Insert {
            self.handle_insert(key, modifiers);
            return false;
        }
        if self.hint_mode_active {
            self.handle_hint(key);
            return false;
        }
        match key {
            Key::Char(c) => {
                if c == 'q' && self.mode != AppMode::Video {
                    return true;
                }
                if c == 'j' {
                    self.scroll_down(term_h);
                } else if c == 'r' {
                    if !self.apply_prefetch() {
                        self.trigger_random_prefetch();
                    }
                } else {
                    self.handle_command(key, term_h, term_w, now);
                }
            },
            Key::PageDown => {
                self.scroll_down_pg(term_h);
            },
            _ => {
                self.handle_command(key, term_h, term_w, now);
            },
        }
        false
    }
}

/// The end of a session that is not the current one changes nothing: the
/// browser stays in its mode, the engine as it is, and no effect is put
/// down.
pub proof fn lemma_stale_end_changes_nothing(app: AppModel, session_id: usize, after: AppModel)
    requires
        session_id != app.engine.session_id,
        event_handled(app, EventModel::VideoEnded(session_id), after),
    ensures
        after == app,
        after.mode == app.mode,
{
}

/// The end of the current session takes a browser that shows video out of
/// video mode, and the end of any session leaves a browser in another mode
/// in that mode.
pub proof fn lemma_end_of_playback(app: AppModel, session_id: usize, after: AppModel)
    requires
        event_handled(app, EventModel::VideoEnded(session_id), after),
    ensures
        app.ends_playback(session_id) ==> after.mode == AppMode::Normal && after.engine.idle(),
        !app.ends_playback(session_id) ==> after == app,
{
}

/// Events never change the session id: no event starts a session.
pub proof fn lemma_events_start_no_session(app: AppModel, event: EventModel, after: AppModel)
    requires
        event_handled(app, event, after),
    ensures
        after.engine.session_id == app.engine.session_id,
        !after.engine.running || app.engine.running,
{
}

/// In insert mode and in hint mode a key is typed: it does not reach the
/// engine, and it does not end the browser.
pub proof fn lemma_typing_leaves_the_video_alone(
    app: AppModel,
    key: Key,
    modifiers: Modifiers,
    term_h: u16,
    term_w: u16,
    now: u64,
    after: AppModel,
)
    requires
        app.mode == AppMode::Insert || app.hint_mode_active,
        key_handled(app, key, modifiers, term_h, term_w, now, after),
    ensures
        after.engine == app.engine,
        !app.quits(key),
{
}

/// Session ids never fall under the keys: a key leaves the id as it is or
/// raises it by one, and it raises it only where it starts a session.
pub proof fn lemma_keys_raise_session_ids(
    app: AppModel,
    key: Key,
    modifiers: Modifiers,
    term_h: u16,
    term_w: u16,
    now: u64,
    after: AppModel,
)
    requires
        app.engine.session_id < usize::MAX,
        key_handled(app, key, modifiers, term_h, term_w, now, after),
    ensures
        after.engine.session_id == app.engine.session_id || after.engine.session_id
            == app.engine.session_id + 1,
        after.engine.session_id == app.engine.session_id + 1 ==> after.engine.running
            && after.mode == AppMode::Video,
{
}

} // verus!
