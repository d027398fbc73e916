//! The modes of the browser, the keys it reads, the pages it shows and the
//! events that its background threads post.

use crate::links::{copy_links, LinkMap};
use vstd::prelude::*;

verus! {

/// One entry of a demo script: at `timestamp`, in milliseconds of playback,
/// the page at `url` is shown.
#[derive(Clone, Debug)]
pub struct ScriptEntry {
    pub timestamp: i64,
    pub url: String,
}

/// The mathematical value of a `ScriptEntry`.
pub struct ScriptModel {
    pub timestamp: i64,
    pub url: Seq<char>,
}

impl DeepView for ScriptEntry {
    type V = ScriptModel;

    open spec fn deep_view(&self) -> ScriptModel {
        ScriptModel { timestamp: self.timestamp, url: self.url@ }
    }
}

/// Input mode of the browser.
#[derive(PartialEq, Eq, Structural, Clone, Copy, Debug)]
pub enum AppMode {
    Normal,
    Insert,
    Video,
}

/// Automatic scrolling policy.
#[derive(PartialEq, Eq, Structural, Clone, Copy, Debug)]
pub enum AutoScroll {
    Off,
    Linear,
    RandomWalk,
    Demo,
}

/// How video cells are painted with page glyphs.
#[derive(PartialEq, Eq, Structural, Clone, Copy, Debug)]
pub enum RenderMode {
    Cast,
    Fit,
}

/// A key of the keyboard, as far as the browser tells keys apart.
#[derive(PartialEq, Eq, Structural, Clone, Copy, Debug)]
pub enum Key {
    Esc,
    Backspace,
    Enter,
    Delete,
    Home,
    End,
    Left,
    Right,
    Up,
    Down,
    PageUp,
    PageDown,
    Char(char),
    Other,
}

/// The modifier keys held with a key; `other` stands for any modifier but
/// shift, control and alt.
#[derive(PartialEq, Eq, Structural, Clone, Copy, Debug)]
pub struct Modifiers {
    pub shift: bool,
    pub control: bool,
    pub alt: bool,
    pub other: bool,
}

impl Modifiers {
    /// No modifier is held.
    pub open spec fn none(self) -> bool {
        !self.shift && !self.control && !self.alt && !self.other
    }

    /// Shift is held, and nothing else.
    pub open spec fn only_shift(self) -> bool {
        self.shift && !self.control && !self.alt && !self.other
    }

    /// Whether no modifier is held.
    pub fn is_empty(&self) -> (empty: bool)
        ensures
            empty == self.none(),
    {
        !self.shift && !self.control && !self.alt && !self.other
    }

    /// Whether shift is held, and nothing else.
    pub fn is_shift(&self) -> (only: bool)
        ensures
            only == self.only_shift(),
    {
        self.shift && !self.control && !self.alt && !self.other
    }
}

/// What a page turns into: its rendered text, the text without control
/// characters, the links by hint key, and the link targets in page order.
#[derive(Clone, Debug)]
pub struct Page {
    pub text: String,
    pub dense_text: Vec<char>,
    pub link_map: LinkMap,
    pub links: Vec<String>,
}

/// The mathematical value of a `Page`.
pub struct PageModel {
    pub text: Seq<char>,
    pub dense_text: Seq<char>,
    pub link_map: Map<Seq<char>, Seq<char>>,
    pub links: Seq<Seq<char>>,
}

impl View for Page {
    type V = PageModel;

    open spec fn view(&self) -> PageModel {
        PageModel {
            text: self.text@,
            dense_text: self.dense_text@,
            link_map: self.link_map@,
            links: self.links.deep_view(),
        }
    }
}

/// A copy of a list of texts.
pub fn copy_texts(texts: &Vec<String>) -> (copy: Vec<String>)
    ensures
        copy.deep_view() == texts.deep_view(),
{
    let mut copy: Vec<String> = Vec::new();
    let mut at: usize = 0;
    while at < texts.len()
        invariant
            at <= texts@.len(),
            copy@.len() == at,
            forall|i: int| 0 <= i < at ==> (#[trigger] copy@[i])@ == texts@[i]@,
        decreases texts@.len() - at,
    {
        copy.push(texts[at].clone());
        at += 1;
    }
    assert(copy.deep_view() =~= texts.deep_view());
    copy
}

/// A copy of a list of characters.
pub fn copy_chars(chars: &Vec<char>) -> (copy: Vec<char>)
    ensures
        copy@ == chars@,
{
    let mut copy: Vec<char> = Vec::new();
    let mut at: usize = 0;
    while at < chars.len()
        invariant
            at <= chars@.len(),
            copy@.len() == at,
            forall|i: int| 0 <= i < at ==> copy@[i] == chars@[i],
        decreases chars@.len() - at,
    {
        copy.push(chars[at]);
        at += 1;
    }
    assert(copy@ =~= chars@);
    copy
}

impl Page {
    /// A copy of the page.
    pub fn duplicate(&self) -> (copy: Page)
        ensures
            copy@ == self@,
    {
        Page {
            text: self.text.clone(),
            dense_text: copy_chars(&self.dense_text),
            link_map: copy_links(&self.link_map),
            links: copy_texts(&self.links),
        }
    }
}

/// What a background thread tells the consumer loop. `VideoEnded` carries
/// the id of the session whose stream ended; `Error` carries the text to
/// show.
#[derive(Clone, Debug)]
pub enum BgEvent {
    PageLoaded {
        url: String,
        text: String,
        links: Vec<String>,
        dense_text: Vec<char>,
        link_map: LinkMap,
        is_history_nav: bool,
    },
    PrefetchReady {
        url: String,
        text: String,
        links: Vec<String>,
        dense_text: Vec<char>,
        link_map: LinkMap,
    },
    VideoEnded(usize),
    Error(String),
}

/// The mathematical value of a `BgEvent`.
pub enum EventModel {
    PageLoaded { url: Seq<char>, page: PageModel, is_history_nav: bool },
    PrefetchReady { url: Seq<char>, page: PageModel },
    VideoEnded(usize),
    Error(Seq<char>),
}

impl View for BgEvent {
    type V = EventModel;

    open spec fn view(&self) -> EventModel {
        match *self {
            BgEvent::PageLoaded { url, text, links, dense_text, link_map, is_history_nav } => {
                EventModel::PageLoaded {
                    url: url@,
                    page: (Page { text, dense_text, link_map, links })@,
                    is_history_nav,
                }
            },
            BgEvent::PrefetchReady { url, text, links, dense_text, link_map } => {
                EventModel::PrefetchReady {
                    url: url@,
                    page: (Page { text, dense_text, link_map, links })@,
                }
            },
            BgEvent::VideoEnded(session_id) => EventModel::VideoEnded(session_id),
            BgEvent::Error(message) => EventModel::Error(message@),
        }
    }
}

impl DeepView for BgEvent {
    type V = EventModel;

    open spec fn deep_view(&self) -> EventModel {
        self@
    }
}

} // verus!
