use bad_browser::app::{App, Effect, Prefetched, FASTEST, NORMAL_SPEED, SLOWEST};
use bad_browser::links::{LinkMap, TextMap};
use bad_browser::types::{AppMode, AutoScroll, BgEvent, Key, Modifiers, RenderMode, ScriptEntry};
use bad_browser::video::{AudioStep, ProcessHandle, Signal, StartPlan, Teardown};

const START: &str = "https://example.com/start";

fn plain() -> Modifiers {
    Modifiers { shift: false, control: false, alt: false, other: false }
}

fn control() -> Modifiers {
    Modifiers { shift: false, control: true, alt: false, other: false }
}

fn alt() -> Modifiers {
    Modifiers { shift: false, control: false, alt: true, other: false }
}

fn shift() -> Modifiers {
    Modifiers { shift: true, control: false, alt: false, other: false }
}

fn browser() -> App {
    let mut app = App::new(START.to_string(), Vec::new(), Some(120_000), 0);
    app.take_effects();
    app
}

fn press(app: &mut App, key: Key) -> bool {
    app.on_key(key, plain(), 24, 80, 0)
}

fn letter(app: &mut App, c: char) -> bool {
    press(app, Key::Char(c))
}

fn links(pairs: &[(&str, &str)]) -> LinkMap {
    let mut map: LinkMap = TextMap::new();
    for (key, href) in pairs {
        map.insert(key.to_string(), href.to_string());
    }
    map
}

fn loaded(url: &str, text: &str, hrefs: &[&str], is_history_nav: bool) -> BgEvent {
    let keys = ["aa", "ab", "ac", "ad"];
    let pairs: Vec<(&str, &str)> = keys.iter().cloned().zip(hrefs.iter().cloned()).collect();
    BgEvent::PageLoaded {
        url: url.to_string(),
        text: text.to_string(),
        links: hrefs.iter().map(|h| h.to_string()).collect(),
        dense_text: text.chars().filter(|c| !c.is_control()).collect(),
        link_map: links(&pairs),
        is_history_nav,
    }
}

fn prefetched(url: &str, text: &str, hrefs: &[&str]) -> BgEvent {
    BgEvent::PrefetchReady {
        url: url.to_string(),
        text: text.to_string(),
        links: hrefs.iter().map(|h| h.to_string()).collect(),
        dense_text: text.chars().collect(),
        link_map: links(&[]),
    }
}

fn fetches(effects: &[Effect]) -> Vec<(String, String, bool, bool)> {
    effects
        .iter()
        .map(|effect| match effect {
            Effect::Fetch { base, target, is_prefetch, is_history } => {
                (base.clone(), target.clone(), *is_prefetch, *is_history)
            }
            other => panic!("{:?}", other),
        })
        .collect()
}

fn fetch(base: &str, target: &str, is_prefetch: bool, is_history: bool) -> (String, String, bool, bool) {
    (base.to_string(), target.to_string(), is_prefetch, is_history)
}

#[test]
fn a_new_browser_asks_for_its_start_page_and_the_demo_pages() {
    let demo = vec![
        ScriptEntry { timestamp: 1_000, url: "https://example.com/one".to_string() },
        ScriptEntry { timestamp: 2_000, url: "two".to_string() },
    ];
    let mut app = App::new(START.to_string(), demo, None, 5);
    assert_eq!(app.mode, AppMode::Normal);
    assert_eq!(app.previous_mode, AppMode::Normal);
    assert_eq!(app.render_mode, RenderMode::Cast);
    assert!(app.is_loading);
    assert_eq!(app.current_url, START);
    assert_eq!(app.url_input, START);
    assert_eq!(app.cursor_pos, START.len());
    assert_eq!(app.auto_scroll, AutoScroll::Off);
    assert_eq!(app.scroll_speed, NORMAL_SPEED);
    assert_eq!(app.engine.duration, 0);
    assert_eq!(app.engine.start_instant, 5);
    assert!(app.history.is_empty());
    let effects = app.take_effects();
    assert_eq!(
        fetches(&effects),
        vec![
            fetch(START, START, false, false),
            fetch(START, "https://example.com/one", true, false),
            fetch(START, "two", true, false),
        ]
    );
    assert!(app.effects.is_empty());
    assert!(app.take_effects().is_empty());
}

#[test]
fn a_fetch_that_is_no_prefetch_shows_on_the_input_line() {
    let mut app = browser();
    app.is_loading = false;
    app.trigger_fetch("한국".to_string(), false, true);
    assert!(app.is_loading);
    assert_eq!(app.url_input, "한국");
    assert_eq!(app.cursor_pos, 6);
    assert_eq!(fetches(&app.take_effects()), vec![fetch(START, "한국", false, true)]);

    app.is_loading = false;
    app.trigger_fetch("quiet".to_string(), true, false);
    assert!(!app.is_loading);
    assert_eq!(app.url_input, "한국");
    assert_eq!(fetches(&app.take_effects()), vec![fetch(START, "quiet", true, false)]);
}

#[test]
fn a_loaded_page_is_shown_and_goes_into_the_history() {
    let mut app = browser();
    app.scroll_y = 7;
    app.handle_events(vec![loaded("https://example.com/a", "text\nof a", &["/x", "/y"], false)]);
    assert!(!app.is_loading);
    assert_eq!(app.current_url, "https://example.com/a");
    assert_eq!(app.url_input, "https://example.com/a");
    assert_eq!(app.cursor_pos, "https://example.com/a".len());
    assert_eq!(app.page_text, "text\nof a");
    assert_eq!(app.dense_text, "textof a".chars().collect::<Vec<char>>());
    assert_eq!(app.valid_links, vec!["/x".to_string(), "/y".to_string()]);
    assert_eq!(app.link_map.get(&"ab".to_string()), Some(&"/y".to_string()));
    assert_eq!(app.scroll_y, 0);
    assert_eq!(app.history, vec!["https://example.com/a".to_string()]);
    assert_eq!(app.history_index, 0);
    assert!(app.effects.is_empty());

    // The same page again is not listed twice.
    app.handle_events(vec![loaded("https://example.com/a", "again", &[], false)]);
    assert_eq!(app.history.len(), 1);
    assert_eq!(app.page_text, "again");

    app.handle_events(vec![
        loaded("https://example.com/b", "b", &[], false),
        loaded("https://example.com/c", "c", &[], false),
    ]);
    assert_eq!(app.history.len(), 3);
    assert_eq!(app.history_index, 2);
    assert_eq!(app.current_url, "https://example.com/c");
}

#[test]
fn a_visit_from_the_middle_of_the_history_drops_what_lay_ahead() {
    let mut app = browser();
    app.handle_events(vec![
        loaded("a", "", &[], false),
        loaded("b", "", &[], false),
        loaded("c", "", &[], false),
    ]);
    assert!(!letter(&mut app, 'h'));
    assert!(!letter(&mut app, 'h'));
    assert_eq!(app.history_index, 0);
    assert_eq!(
        fetches(&app.take_effects()),
        vec![fetch("c", "b", false, true), fetch("c", "a", false, true)]
    );
    // The page comes as a history visit: the history stays.
    app.handle_events(vec![loaded("a", "", &[], true)]);
    assert_eq!(app.history, vec!["a".to_string(), "b".to_string(), "c".to_string()]);
    assert_eq!(app.history_index, 0);
    // A new visit from there drops b and c.
    app.handle_events(vec![loaded("d", "", &[], false)]);
    assert_eq!(app.history, vec!["a".to_string(), "d".to_string()]);
    assert_eq!(app.history_index, 1);
}

#[test]
fn history_keys_stop_at_both_ends() {
    let mut app = browser();
    letter(&mut app, 'h');
    letter(&mut app, 'l');
    assert!(app.effects.is_empty());
    app.handle_events(vec![loaded("a", "", &[], false), loaded("b", "", &[], false)]);
    letter(&mut app, 'l');
    assert!(app.effects.is_empty());
    letter(&mut app, 'h');
    letter(&mut app, 'h');
    letter(&mut app, 'l');
    assert_eq!(app.history_index, 1);
    assert_eq!(
        fetches(&app.take_effects()),
        vec![fetch("b", "a", false, true), fetch("b", "b", false, true)]
    );
}

#[test]
fn an_error_is_shown_in_place_of_the_page() {
    let mut app = browser();
    app.is_loading = true;
    app.handle_events(vec![BgEvent::Error("HTTP 404 Not Found".to_string())]);
    assert!(!app.is_loading);
    assert_eq!(app.page_text, "HTTP 404 Not Found");
    assert_eq!(app.current_url, START);
}

#[test]
fn a_prefetched_page_waits_for_the_next_move() {
    let mut app = browser();
    app.handle_events(vec![loaded("a", "", &[], false)]);
    app.handle_events(vec![prefetched("https://example.com/p", "p text", &[])]);
    match &app.prefetch_data {
        Some(Prefetched { url, page }) => {
            assert_eq!(url, "https://example.com/p");
            assert_eq!(page.text, "p text");
        }
        None => panic!("nothing was kept"),
    }
    assert_eq!(app.current_url, "a");
    // The move-on key shows it; the page has no links, so no new prefetch.
    assert!(!letter(&mut app, 'r'));
    assert_eq!(app.current_url, "https://example.com/p");
    assert_eq!(app.url_input, "https://example.com/p");
    assert_eq!(app.page_text, "p text");
    assert!(app.prefetch_data.is_none());
    assert_eq!(app.history, vec!["a".to_string(), "https://example.com/p".to_string()]);
    assert_eq!(app.history_index, 1);
    assert!(app.effects.is_empty());
    // A page that comes the ordinary way drops what was prefetched.
    app.handle_events(vec![prefetched("q", "", &[]), loaded("b", "", &[], false)]);
    assert!(app.prefetch_data.is_none());
}

#[test]
fn a_prefetched_demo_page_goes_into_the_demo_cache() {
    let demo = vec![ScriptEntry { timestamp: 0, url: "demo".to_string() }];
    let mut app = App::new(START.to_string(), demo, None, 0);
    app.handle_events(vec![prefetched("demo", "demo text", &[]), prefetched("other", "", &[])]);
    assert_eq!(app.demo_cache.get(&"demo".to_string()).map(|p| p.text.clone()), Some("demo text".to_string()));
    assert!(app.demo_cache.get(&"other".to_string()).is_none());
    assert_eq!(app.prefetch_data.as_ref().map(|p| p.url.clone()), Some("other".to_string()));
}

#[test]
fn the_end_of_a_stale_session_changes_nothing() {
    let mut app = browser();
    letter(&mut app, 'p');
    app.engine.audio_spawned(Some(ProcessHandle { pid: 3 }));
    app.engine.decoder_spawned(Some(ProcessHandle { pid: 4 }));
    press(&mut app, Key::Right);
    app.take_effects();
    assert_eq!(app.engine.session_id, 2);
    assert_eq!(app.mode, AppMode::Video);

    // The decode thread of session 1 reports its end late.
    app.handle_events(vec![BgEvent::VideoEnded(1), BgEvent::VideoEnded(0), BgEvent::VideoEnded(3)]);
    assert_eq!(app.mode, AppMode::Video);
    assert_eq!(app.engine.session_id, 2);
    assert!(app.engine.running);
    assert!(app.effects.is_empty());
}

#[test]
fn the_end_of_the_current_session_stops_the_video() {
    let mut app = browser();
    letter(&mut app, 'p');
    app.engine.audio_spawned(Some(ProcessHandle { pid: 3 }));
    app.engine.decoder_spawned(Some(ProcessHandle { pid: 4 }));
    app.take_effects();
    app.handle_events(vec![BgEvent::VideoEnded(1)]);
    assert_eq!(app.mode, AppMode::Normal);
    assert!(!app.engine.running);
    assert_eq!(app.engine.audio_process, None);
    assert_eq!(app.engine.seek_time, 0);
    assert_eq!(app.auto_scroll, AutoScroll::Off);
    match app.take_effects().as_slice() {
        [Effect::Stop(teardown)] => assert_eq!(
            *teardown,
            Teardown {
                cancel: true,
                audio: Some(ProcessHandle { pid: 3 }),
                decoder: Some(ProcessHandle { pid: 4 }),
            }
        ),
        other => panic!("{:?}", other),
    }
    // The same event once more finds no video to stop.
    app.handle_events(vec![BgEvent::VideoEnded(1)]);
    assert!(app.effects.is_empty());
}

#[test]
fn the_end_of_the_current_session_outside_video_mode_is_passed_over() {
    let mut app = browser();
    letter(&mut app, 'p');
    letter(&mut app, 'i');
    app.take_effects();
    assert_eq!(app.mode, AppMode::Insert);
    app.handle_events(vec![BgEvent::VideoEnded(1)]);
    assert_eq!(app.mode, AppMode::Insert);
    assert!(app.engine.running);
    assert!(app.effects.is_empty());
}

#[test]
fn the_play_key_starts_and_stops_the_video() {
    let mut app = browser();
    assert!(!app.on_key(Key::Char('p'), plain(), 24, 80, 500));
    assert_eq!(app.mode, AppMode::Video);
    assert_eq!(app.engine.session_id, 1);
    assert_eq!(app.engine.buffer.bytes.len(), 80 * 24);
    assert_eq!(app.engine.start_instant, 500);
    match app.take_effects().as_slice() {
        [Effect::Start(plan)] => assert_eq!(
            *plan,
            StartPlan {
                teardown: Teardown { cancel: false, audio: None, decoder: None },
                session_id: 1,
                width: 80,
                height: 24,
                seek: 0,
            }
        ),
        other => panic!("{:?}", other),
    }
    assert!(!letter(&mut app, 'p'));
    assert_eq!(app.mode, AppMode::Normal);
    assert!(!app.engine.running);
    assert!(matches!(app.take_effects().as_slice(), [Effect::Stop(_)]));
}

#[test]
fn the_quit_key_stops_a_video_and_ends_the_browser_otherwise() {
    let mut app = browser();
    letter(&mut app, 'p');
    app.take_effects();
    assert!(!letter(&mut app, 'q'));
    assert_eq!(app.mode, AppMode::Normal);
    assert!(matches!(app.take_effects().as_slice(), [Effect::Stop(_)]));
    assert!(letter(&mut app, 'q'));
    assert!(app.effects.is_empty());
    // In insert mode the letter is typed.
    letter(&mut app, 'i');
    assert!(!letter(&mut app, 'q'));
    assert!(app.url_input.ends_with('q'));
}

#[test]
fn the_space_key_toggles_the_pause_in_video_mode_only() {
    let mut app = browser();
    letter(&mut app, ' ');
    assert!(!app.engine.is_paused);
    assert!(app.effects.is_empty());

    app.on_key(Key::Char('p'), plain(), 24, 80, 1_000);
    app.engine.audio_spawned(Some(ProcessHandle { pid: 9 }));
    app.take_effects();
    app.on_key(Key::Char(' '), plain(), 24, 80, 3_000);
    assert!(app.engine.is_paused);
    assert_eq!(app.engine.seek_time, 2_000);
    assert_eq!(app.engine.session_id, 1);
    match app.take_effects().as_slice() {
        [Effect::Audio(step)] => {
            assert_eq!(*step, AudioStep::Signal(ProcessHandle { pid: 9 }, Signal::Stop))
        }
        other => panic!("{:?}", other),
    }
    app.on_key(Key::Char(' '), plain(), 24, 80, 9_000);
    assert!(!app.engine.is_paused);
    assert_eq!(app.engine.session_id, 1);
    match app.take_effects().as_slice() {
        [Effect::Audio(step)] => {
            assert_eq!(*step, AudioStep::Signal(ProcessHandle { pid: 9 }, Signal::Continue))
        }
        other => panic!("{:?}", other),
    }
}

#[test]
fn the_arrow_keys_seek_in_video_mode() {
    let mut app = browser();
    press(&mut app, Key::Left);
    press(&mut app, Key::Right);
    assert!(app.effects.is_empty());
    assert_eq!(app.engine.session_id, 0);

    app.on_key(Key::Char('p'), plain(), 24, 80, 0);
    app.take_effects();
    app.on_key(Key::Right, plain(), 24, 80, 2_000);
    assert_eq!(app.engine.seek_time, 7_000);
    assert_eq!(app.engine.session_id, 2);
    app.on_key(Key::Left, plain(), 30, 100, 3_000);
    assert_eq!(app.engine.seek_time, 3_000);
    assert_eq!(app.engine.session_id, 3);
    assert_eq!(app.engine.buffer.bytes.len(), 100 * 30);
    app.on_key(Key::Left, plain(), 30, 100, 3_000);
    assert_eq!(app.engine.seek_time, 0);
    let effects = app.take_effects();
    assert_eq!(effects.len(), 3);
    match &effects[1] {
        Effect::Start(plan) => {
            assert_eq!(plan.seek, 3_000);
            assert_eq!((plan.width, plan.height), (100, 30));
            assert!(plan.teardown.cancel);
        }
        other => panic!("{:?}", other),
    }
}

#[test]
fn mode_keys_switch_modes() {
    let mut app = browser();
    letter(&mut app, 'm');
    assert_eq!(app.render_mode, RenderMode::Fit);
    letter(&mut app, 'm');
    assert_eq!(app.render_mode, RenderMode::Cast);
    letter(&mut app, 'i');
    assert_eq!(app.mode, AppMode::Insert);
    assert_eq!(app.previous_mode, AppMode::Normal);
    press(&mut app, Key::Esc);
    assert_eq!(app.mode, AppMode::Normal);
    letter(&mut app, 'p');
    letter(&mut app, 'i');
    assert_eq!(app.previous_mode, AppMode::Video);
    press(&mut app, Key::Esc);
    assert_eq!(app.mode, AppMode::Video);
}

#[test]
fn the_scroll_key_cycles_the_automatic_scroll() {
    let mut app = browser();
    letter(&mut app, 's');
    assert_eq!(app.auto_scroll, AutoScroll::Linear);
    letter(&mut app, 's');
    assert_eq!(app.auto_scroll, AutoScroll::RandomWalk);
    letter(&mut app, 's');
    assert_eq!(app.auto_scroll, AutoScroll::Off);
    app.auto_scroll = AutoScroll::Demo;
    letter(&mut app, 's');
    assert_eq!(app.auto_scroll, AutoScroll::Off);

    let demo = vec![ScriptEntry { timestamp: 0, url: "demo".to_string() }];
    let mut app = App::new(START.to_string(), demo, None, 0);
    letter(&mut app, 's');
    assert_eq!(app.auto_scroll, AutoScroll::Off);
}

#[test]
fn up_and_down_scroll_or_change_the_speed() {
    let mut app = browser();
    press(&mut app, Key::Down);
    press(&mut app, Key::Down);
    letter(&mut app, 'j');
    assert_eq!(app.scroll_y, 3);
    press(&mut app, Key::Up);
    letter(&mut app, 'k');
    assert_eq!(app.scroll_y, 1);
    letter(&mut app, 'k');
    letter(&mut app, 'k');
    assert_eq!(app.scroll_y, 0);
    press(&mut app, Key::PageDown);
    assert_eq!(app.scroll_y, 10);
    press(&mut app, Key::PageDown);
    press(&mut app, Key::PageUp);
    assert_eq!(app.scroll_y, 10);
    press(&mut app, Key::PageUp);
    press(&mut app, Key::PageUp);
    assert_eq!(app.scroll_y, 0);
    app.scroll_y = u16::MAX - 3;
    press(&mut app, Key::PageDown);
    assert_eq!(app.scroll_y, u16::MAX);
    app.scroll_down(24);
    assert_eq!(app.scroll_y, u16::MAX);

    app.scroll_y = 5;
    app.auto_scroll = AutoScroll::Linear;
    assert_eq!((SLOWEST, NORMAL_SPEED, FASTEST), (2, 4, 12));
    press(&mut app, Key::Up);
    assert_eq!(app.scroll_speed, 5);
    for _ in 0..20 {
        press(&mut app, Key::Up);
    }
    assert_eq!(app.scroll_speed, 12);
    press(&mut app, Key::Down);
    assert_eq!(app.scroll_speed, 11);
    for _ in 0..20 {
        press(&mut app, Key::Down);
    }
    assert_eq!(app.scroll_speed, 2);
    assert_eq!(app.scroll_y, 5);
}

#[test]
fn hints_lead_to_links() {
    let mut app = browser();
    app.handle_events(vec![loaded("https://example.com/a", "", &["/x", "/y"], false)]);
    letter(&mut app, 'f');
    assert!(app.hint_mode_active);
    assert!(!letter(&mut app, 'q'));
    assert_eq!(app.hint_buffer, "q");
    press(&mut app, Key::Backspace);
    assert_eq!(app.hint_buffer, "");
    press(&mut app, Key::Backspace);
    letter(&mut app, 'a');
    assert!(app.hint_mode_active);
    letter(&mut app, 'b');
    assert!(!app.hint_mode_active);
    assert_eq!(app.hint_buffer, "");
    assert!(app.is_loading);
    assert_eq!(app.url_input, "/y");
    assert_eq!(
        fetches(&app.take_effects()),
        vec![fetch("https://example.com/a", "/y", false, false)]
    );
}

#[test]
fn a_hint_that_names_no_link_is_dropped() {
    let mut app = browser();
    app.handle_events(vec![loaded("a", "", &["/x"], false)]);
    letter(&mut app, 'f');
    letter(&mut app, 'z');
    letter(&mut app, 'z');
    assert!(!app.hint_mode_active);
    assert_eq!(app.hint_buffer, "");
    assert!(app.effects.is_empty());
    // One character of two bytes is enough to drop the hint.
    letter(&mut app, 'f');
    letter(&mut app, 'é');
    assert!(!app.hint_mode_active);
    letter(&mut app, 'f');
    letter(&mut app, 'a');
    press(&mut app, Key::Esc);
    assert!(!app.hint_mode_active);
    assert_eq!(app.hint_buffer, "");
    letter(&mut app, 'f');
    press(&mut app, Key::Left);
    assert!(app.hint_mode_active);
}

#[test]
fn the_input_line_is_edited_by_cluster() {
    let mut app = browser();
    letter(&mut app, 'i');
    app.on_key(Key::Char('u'), control(), 24, 80, 0);
    assert_eq!(app.url_input, "");
    assert_eq!(app.cursor_pos, 0);
    for c in "한 wörld".chars() {
        letter(&mut app, c);
    }
    app.on_key(Key::Char('X'), shift(), 24, 80, 0);
    assert_eq!(app.url_input, "한 wörldX");
    assert_eq!(app.cursor_pos, "한 wörldX".len());
    // Held with control or alt, a letter is not typed.
    app.on_key(Key::Char('x'), control(), 24, 80, 0);
    app.on_key(Key::Char('x'), alt(), 24, 80, 0);
    assert_eq!(app.url_input, "한 wörldX");

    press(&mut app, Key::Backspace);
    assert_eq!(app.url_input, "한 wörld");
    app.on_key(Key::Char('h'), control(), 24, 80, 0);
    assert_eq!(app.url_input, "한 wörl");
    press(&mut app, Key::Home);
    assert_eq!(app.cursor_pos, 0);
    press(&mut app, Key::Backspace);
    assert_eq!(app.url_input, "한 wörl");
    press(&mut app, Key::Delete);
    assert_eq!(app.url_input, " wörl");
    press(&mut app, Key::Right);
    press(&mut app, Key::Right);
    press(&mut app, Key::Right);
    assert_eq!(app.cursor_pos, 4);
    press(&mut app, Key::Left);
    assert_eq!(app.cursor_pos, 2);
    press(&mut app, Key::End);
    assert_eq!(app.cursor_pos, 6);
    press(&mut app, Key::Delete);
    assert_eq!(app.url_input, " wörl");
    app.on_key(Key::Char('a'), control(), 24, 80, 0);
    assert_eq!(app.cursor_pos, 0);
    app.on_key(Key::Char('e'), control(), 24, 80, 0);
    assert_eq!(app.cursor_pos, 6);
}

#[test]
fn the_input_line_is_edited_by_word() {
    let mut app = browser();
    letter(&mut app, 'i');
    app.on_key(Key::Char('u'), control(), 24, 80, 0);
    for c in "alpha  beta   gamma".chars() {
        letter(&mut app, c);
    }
    app.on_key(Key::Left, control(), 24, 80, 0);
    assert_eq!(app.cursor_pos, "alpha  beta   ".len());
    app.on_key(Key::Char('w'), control(), 24, 80, 0);
    assert_eq!(app.url_input, "alpha  gamma");
    assert_eq!(app.cursor_pos, "alpha  ".len());
    app.on_key(Key::Backspace, alt(), 24, 80, 0);
    assert_eq!(app.url_input, "gamma");
    assert_eq!(app.cursor_pos, 0);
    app.on_key(Key::Right, control(), 24, 80, 0);
    assert_eq!(app.cursor_pos, 5);
    for c in " delta".chars() {
        letter(&mut app, c);
    }
    app.on_key(
        Key::Char('h'),
        Modifiers { shift: false, control: true, alt: true, other: false },
        24,
        80,
        0,
    );
    assert_eq!(app.url_input, "gamma ");
    // Control, shift and h together do nothing.
    app.on_key(
        Key::Char('h'),
        Modifiers { shift: true, control: true, alt: false, other: false },
        24,
        80,
        0,
    );
    assert_eq!(app.url_input, "gamma ");
    press(&mut app, Key::Home);
    press(&mut app, Key::Right);
    press(&mut app, Key::Right);
    app.on_key(Key::Char('k'), control(), 24, 80, 0);
    assert_eq!(app.url_input, "ga");
    assert_eq!(app.cursor_pos, 2);
    app.on_key(Key::Char('u'), control(), 24, 80, 0);
    assert_eq!(app.url_input, "");
    assert_eq!(app.cursor_pos, 0);
}

#[test]
fn enter_asks_for_what_was_typed() {
    let mut app = browser();
    letter(&mut app, 'p');
    letter(&mut app, 'i');
    app.take_effects();
    app.on_key(Key::Char('u'), control(), 24, 80, 0);
    for c in "next".chars() {
        letter(&mut app, c);
    }
    assert!(!press(&mut app, Key::Enter));
    assert_eq!(app.mode, AppMode::Video);
    assert!(app.is_loading);
    assert_eq!(app.url_input, "next");
    assert_eq!(app.cursor_pos, 4);
    assert_eq!(fetches(&app.take_effects()), vec![fetch(START, "next", false, false)]);
}

#[test]
fn a_random_walk_prefers_links_that_stay_on_the_site() {
    for _ in 0..20 {
        let mut app = browser();
        app.auto_scroll = AutoScroll::RandomWalk;
        app.handle_events(vec![loaded(
            "https://example.com/a",
            "",
            &["https://other.net/1", "/on-site", "https://elsewhere.org/2", "https://example.com/b"],
            false,
        )]);
        let asked = fetches(&app.take_effects());
        assert_eq!(asked.len(), 1);
        let (base, target, is_prefetch, is_history) = asked[0].clone();
        assert_eq!(base, "https://example.com/a");
        assert!(target == "/on-site" || target == "https://example.com/b", "{}", target);
        assert!(is_prefetch);
        assert!(!is_history);
        assert!(!app.is_loading);
    }
}

#[test]
fn a_random_walk_leaves_the_site_where_no_link_stays() {
    let mut app = browser();
    app.handle_events(vec![loaded("https://example.com/a", "", &["https://other.net/1"], false)]);
    app.trigger_random_prefetch();
    assert_eq!(
        fetches(&app.take_effects()),
        vec![fetch("https://example.com/a", "https://other.net/1", true, false)]
    );
    // Without a site every link is as good as another.
    app.handle_events(vec![loaded("no address", "", &["https://other.net/2"], false)]);
    app.trigger_random_prefetch();
    assert_eq!(
        fetches(&app.take_effects()),
        vec![fetch("no address", "https://other.net/2", true, false)]
    );
    // Without links there is nowhere to go.
    app.handle_events(vec![loaded("https://example.com/a", "", &[], false)]);
    app.trigger_random_prefetch();
    assert!(app.effects.is_empty());
}

#[test]
fn a_random_walk_moves_on_at_the_end_of_the_page() {
    let mut app = browser();
    let text = "1\n2\n3\n4\n5\n6\n7\n8\n9\n10\n";
    app.handle_events(vec![loaded("https://example.com/a", text, &["/x"], false)]);
    app.auto_scroll = AutoScroll::RandomWalk;
    // Ten lines in a window of four: the end is near from line 4 on.
    app.scroll_down(4);
    app.scroll_down(4);
    app.scroll_down(4);
    assert_eq!(app.scroll_y, 3);
    assert!(app.effects.is_empty());
    app.scroll_down(4);
    assert_eq!(app.scroll_y, 4);
    assert_eq!(
        fetches(&app.take_effects()),
        vec![fetch("https://example.com/a", "/x", true, false)]
    );
    // With a page prefetched, the walk moves there and asks for the next.
    app.handle_events(vec![prefetched("https://example.com/x", "short", &["/y"])]);
    app.scroll_down(4);
    assert_eq!(app.current_url, "https://example.com/x");
    assert_eq!(app.scroll_y, 0);
    assert_eq!(app.history.len(), 2);
    assert_eq!(
        fetches(&app.take_effects()),
        vec![fetch("https://example.com/x", "/y", true, false)]
    );
    // Linear scrolling never moves on.
    app.auto_scroll = AutoScroll::Linear;
    app.scroll_down(4);
    assert!(app.effects.is_empty());
}

#[test]
fn the_demo_script_follows_the_video() {
    let demo = vec![
        ScriptEntry { timestamp: 0, url: "one".to_string() },
        ScriptEntry { timestamp: 4_000, url: "two".to_string() },
        ScriptEntry { timestamp: 9_000, url: "three".to_string() },
    ];
    let mut app = App::new(START.to_string(), demo, Some(60_000), 0);
    app.handle_events(vec![prefetched("one", "first", &[]), prefetched("two", "second", &[])]);
    app.take_effects();
    // Outside video mode the script rests.
    app.check_demo_transitions(50_000);
    assert_eq!(app.demo_index, 0);

    app.on_key(Key::Char('p'), plain(), 24, 80, 1_000);
    assert_eq!(app.auto_scroll, AutoScroll::Demo);
    assert_eq!(app.demo_index, 1);
    assert_eq!(app.current_url, "one");
    assert_eq!(app.page_text, "first");

    app.check_demo_transitions(4_999);
    assert_eq!(app.demo_index, 1);
    app.check_demo_transitions(5_000);
    assert_eq!(app.demo_index, 2);
    assert_eq!(app.current_url, "two");
    assert_eq!(app.page_text, "second");
    // The third page is not in the cache: the script moves on all the same.
    app.check_demo_transitions(10_000);
    assert_eq!(app.demo_index, 3);
    assert_eq!(app.current_url, "two");
    app.check_demo_transitions(99_000);
    assert_eq!(app.demo_index, 3);

    // A seek sets the script to the first entry after the target.
    app.on_key(Key::Left, plain(), 24, 80, 10_000);
    assert_eq!(app.engine.seek_time, 4_000);
    assert_eq!(app.demo_index, 2);
    app.on_key(Key::Left, plain(), 24, 80, 10_000);
    assert_eq!(app.engine.seek_time, 0);
    assert_eq!(app.demo_index, 1);
    app.on_key(Key::Char('q'), plain(), 24, 80, 10_000);
    assert_eq!(app.demo_index, 0);
    assert_eq!(app.auto_scroll, AutoScroll::Off);
    assert_eq!(app.last_prefetch_index, None);
}

#[test]
fn stop_video_without_a_video_asks_for_an_empty_teardown() {
    let mut app = browser();
    app.stop_video();
    assert_eq!(app.mode, AppMode::Normal);
    assert_eq!(app.engine.session_id, 0);
    match app.take_effects().as_slice() {
        [Effect::Stop(teardown)] => {
            assert_eq!(*teardown, Teardown { cancel: false, audio: None, decoder: None })
        }
        other => panic!("{:?}", other),
    }
}
