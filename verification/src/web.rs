//! From the HTML of a page to what the browser shows: the text, the links
//! with their hint keys, and the event that carries them to the consumer.

use crate::links::{
    hint_key, hint_key_of, lemma_hint_keys_differ, lemma_map_of_last_match, LinkMap, TextMap,
    HINT_KEYS,
};
use crate::text::{byte_len, span, substring};
use crate::types::{BgEvent, Page};
use crate::utils::{decode_url, percent_decoded};
use regex::Regex;
use reqwest::Url;
use vstd::prelude::*;
use vstd::string::*;
use vstd::utf8::*;

verus! {

/// The number of columns that page text is wrapped to.
pub const RENDER_WIDTH: usize = 120;

/// One anchor element found in a page: the byte range of the whole element,
/// the target as written, and what stands between the tags.
#[derive(Clone, Debug)]
pub struct Anchor {
    pub start: usize,
    pub end: usize,
    pub href: String,
    pub label: String,
}

/// The mathematical value of an `Anchor`.
pub struct AnchorModel {
    pub start: usize,
    pub end: usize,
    pub href: Seq<char>,
    pub label: Seq<char>,
}

impl DeepView for Anchor {
    type V = AnchorModel;

    open spec fn deep_view(&self) -> AnchorModel {
        AnchorModel { start: self.start, end: self.end, href: self.href@, label: self.label@ }
    }
}

/// What came of a request for a page.
#[derive(Clone, Debug)]
pub enum FetchReply {
    /// The server answered with success; the body.
    Body(String),
    /// The server answered otherwise; the status as text.
    Status(String),
    /// No answer came; the error as text.
    Failed(String),
}

/// The pattern of an anchor element: an opening `a` tag with a quoted
/// `href`, a label, and the closing tag, letter case ignored. The first group
/// is the target, the second the label.
pub const LINK_PATTERN: &'static str = r#"(?i)<a[^>]+href=["']([^"']+)["'][^>]*>(.*?)</a>"#;

/// The group of a pattern that holds the target of an anchor.
pub const TARGET_GROUP: usize = 1;

/// The group of a pattern that holds the label of an anchor.
pub const LABEL_GROUP: usize = 2;

/// One match of a pattern: the byte range of the match, and the text of each
/// group, the whole match being group 0; `None` for a group that took no
/// part in the match.
#[derive(Clone, Debug)]
pub struct Capture {
    pub start: usize,
    pub end: usize,
    pub groups: Vec<Option<String>>,
}

/// The mathematical value of a `Capture`.
pub struct CaptureModel {
    pub start: usize,
    pub end: usize,
    pub groups: Seq<Option<Seq<char>>>,
}

impl DeepView for Capture {
    type V = CaptureModel;

    open spec fn deep_view(&self) -> CaptureModel {
        CaptureModel { start: self.start, end: self.end, groups: self.groups.deep_view() }
    }
}

/// The successive matches of a pattern in a text, none overlapping another,
/// in the order of the text; `None` where the pattern is no regular
/// expression.
pub uninterp spec fn captures_of(pattern: Seq<char>, haystack: Seq<char>) -> Option<
    Seq<CaptureModel>,
>;

/// The matches lie in the text one after another, each between two
/// character boundaries.
pub open spec fn matches_in_order(found: Seq<CaptureModel>, bytes: Seq<u8>) -> bool {
    &&& forall|i: int|
        0 <= i < found.len() ==> {
            &&& (#[trigger] found[i]).start <= found[i].end <= bytes.len()
            &&& is_char_boundary(bytes, found[i].start as int)
            &&& is_char_boundary(bytes, found[i].end as int)
        }
    &&& forall|i: int, j: int|
        0 <= i < j < found.len() ==> (#[trigger] found[i]).end <= (#[trigger] found[j]).start
}

/// The text of a group of a match, and no text for a group that the match
/// does not have or that took no part in it.
pub open spec fn group_of(found: CaptureModel, group: int) -> Seq<char> {
    if 0 <= group < found.groups.len() {
        match found.groups[group] {
            Some(text) => text,
            None => Seq::empty(),
        }
    } else {
        Seq::empty()
    }
}

/// The anchor that a match of the pattern for anchors stands for.
pub open spec fn anchor_of(found: CaptureModel) -> AnchorModel {
    AnchorModel {
        start: found.start,
        end: found.end,
        href: group_of(found, TARGET_GROUP as int),
        label: group_of(found, LABEL_GROUP as int),
    }
}

/// The anchor elements of a page, in page order.
pub open spec fn anchors_in(html: Seq<char>) -> Seq<AnchorModel> {
    match captures_of(LINK_PATTERN@, html) {
        Some(found) => Seq::new(found.len(), |i: int| anchor_of(found[i])),
        None => Seq::empty(),
    }
}

/// The host that stands for the site of an address, given what the address
/// was read as: its host, where it is an absolute address with one.
pub open spec fn site_named(host: Option<Option<Seq<char>>>) -> Option<Seq<char>> {
    match host {
        Some(Some(name)) => Some(name),
        _ => None,
    }
}

/// Whether a link stays on the site `host`, given what the link was read
/// as: a link that is no absolute address does; one that is has to name the
/// same host.
pub open spec fn stays_given(named: Option<Option<Seq<char>>>, host: Seq<char>) -> bool {
    match named {
        Some(name) => name == Some(host),
        None => true,
    }
}

/// The plain text that a page renders to at a width in columns; `None` where
/// the page cannot be rendered at that width.
pub uninterp spec fn rendered_text(html: Seq<char>, width: usize) -> Option<Seq<char>>;

/// Whether `c` is a control character (general category `Cc`).
pub uninterp spec fn is_control(c: char) -> bool;

/// The address that `reference` names when it is read against the address
/// `base`; `None` where `base` is no absolute address, or `reference` cannot
/// be read against it.
pub uninterp spec fn url_joined(base: Seq<char>, reference: Seq<char>) -> Option<Seq<char>>;

/// The host of the address `text`: `None` where `text` is no absolute
/// address, `Some(None)` where the address has no host.
pub uninterp spec fn url_host(text: Seq<char>) -> Option<Option<Seq<char>>>;

/// The anchors lie in the page one after another, each between two
/// character boundaries.
pub open spec fn in_page_order(anchors: Seq<AnchorModel>, bytes: Seq<u8>) -> bool {
    &&& forall|i: int|
        0 <= i < anchors.len() ==> {
            &&& (#[trigger] anchors[i]).start <= anchors[i].end <= bytes.len()
            &&& is_char_boundary(bytes, anchors[i].start as int)
            &&& is_char_boundary(bytes, anchors[i].end as int)
        }
    &&& forall|i: int, j: int|
        0 <= i < j < anchors.len() ==> (#[trigger] anchors[i]).end <= (#[trigger] anchors[j]).start
}

/// `Regex::new` of `pattern`, then `Regex::captures_iter` over `haystack`,
/// keeping of every match its byte range and the text of its groups. The
/// matches come in the order of the text, do not overlap, and their offsets
/// are character boundaries.
#[verifier::external_body]
fn captures(pattern: &str, haystack: &str) -> (found: Option<Vec<Capture>>)
    ensures
        match found {
            Some(all) => captures_of(pattern@, haystack@) == Some(all.deep_view())
                && matches_in_order(all.deep_view(), haystack.spec_bytes()),
            None => captures_of(pattern@, haystack@) is None,
        },
{
    Regex::new(pattern).ok().map(
        |compiled|
            compiled.captures_iter(haystack).map(
                |found| Capture {
                    start: found.get(0).unwrap().start(),
                    end: found.get(0).unwrap().end(),
                    groups: found.iter().map(|g| g.map(|m| m.as_str().to_string())).collect(),
                },
            ).collect(),
    )
}

/// The text of a group of a match.
fn group_text(found: &Capture, group: usize) -> (text: String)
    ensures
        text@ == group_of(found.deep_view(), group as int),
{
    if group < found.groups.len() {
        proof {
            assert(found.deep_view().groups[group as int]
                == found.groups@[group as int].deep_view());
        }
        match &found.groups[group] {
            Some(text) => text.clone(),
            None => String::new(),
        }
    } else {
        String::new()
    }
}

/// The anchors that the matches of the pattern for anchors stand for.
pub open spec fn anchors_of_matches(found: Seq<CaptureModel>) -> Seq<AnchorModel> {
    Seq::new(found.len(), |i: int| anchor_of(found[i]))
}

/// The anchors that the matches of the pattern for anchors stand for; they
/// lie in the page as the matches do.
pub fn anchors_of(found: &Vec<Capture>) -> (anchors: Vec<Anchor>)
    ensures
        anchors.deep_view() == anchors_of_matches(found.deep_view()),
        forall|bytes: Seq<u8>| #[trigger]
            matches_in_order(found.deep_view(), bytes) ==> in_page_order(
                anchors.deep_view(),
                bytes,
            ),
{
    let ghost models = found.deep_view();
    let mut anchors: Vec<Anchor> = Vec::new();
    let mut at: usize = 0;
    while at < found.len()
        invariant
            at <= found@.len(),
            models == found.deep_view(),
            models.len() == found@.len(),
            anchors@.len() == at,
            forall|i: int|
                0 <= i < at ==> (#[trigger] anchors@[i]).deep_view() == anchor_of(models[i]),
        decreases found@.len() - at,
    {
        let one = &found[at];
        proof {
            assert(models[at as int] == found@[at as int].deep_view());
        }
        anchors.push(
            Anchor {
                start: one.start,
                end: one.end,
                href: group_text(one, TARGET_GROUP),
                label: group_text(one, LABEL_GROUP),
            },
        );
        at += 1;
    }
    proof {
        let made = anchors.deep_view();
        assert(made =~= anchors_of_matches(models));
        assert forall|bytes: Seq<u8>| #[trigger]
            matches_in_order(models, bytes) implies in_page_order(made, bytes) by {
            assert forall|i: int| 0 <= i < made.len() implies {
                &&& (#[trigger] made[i]).start <= made[i].end <= bytes.len()
                &&& is_char_boundary(bytes, made[i].start as int)
                &&& is_char_boundary(bytes, made[i].end as int)
            } by {
                assert(made[i] == anchor_of(models[i]));
            }
            assert forall|i: int, j: int| 0 <= i < j < made.len() implies (#[trigger] made[i]).end
                <= (#[trigger] made[j]).start by {
                assert(made[i] == anchor_of(models[i]));
                assert(made[j] == anchor_of(models[j]));
            }
        }
    }
    anchors
}

/// Finds the anchor elements of a page, in page order. A pattern that is
/// no regular expression finds none.
pub fn find_anchors(html: &str) -> (found: Vec<Anchor>)
    ensures
        found.deep_view() == anchors_in(html@),
        in_page_order(found.deep_view(), html.spec_bytes()),
{
    match captures(LINK_PATTERN, html) {
        Some(all) => anchors_of(&all),
        None => {
            let none: Vec<Anchor> = Vec::new();
            assert(none.deep_view() =~= anchors_in(html@));
            none
        },
    }
}

/// `html2text::Error`: why a page could not be rendered.
#[verifier::external_type_specification]
#[verifier::external_body]
pub struct ExRenderError(html2text::Error);

/// `html2text::from_read` on the bytes of `html`: the page as plain text,
/// wrapped to `width` columns, or the error that stopped the rendering.
#[verifier::external_body]
fn render_html(html: &str, width: usize) -> (text: Result<String, html2text::Error>)
    ensures
        match text {
            Ok(plain) => rendered_text(html@, width) == Some(plain@),
            Err(_) => rendered_text(html@, width) is None,
        },
{
    html2text::from_read(html.as_bytes(), width)
}

/// `char::is_control` tells whether the character is a control character.
pub assume_specification[ char::is_control ](c: char) -> (b: bool)
    ensures
        b == is_control(c),
;

/// `Url::parse` of `base`, then `Url::join` with `reference`: the address
/// that results, written out.
#[verifier::external_body]
fn join_url(base: &str, reference: &str) -> (joined: Option<String>)
    ensures
        match joined {
            Some(address) => url_joined(base@, reference@) == Some(address@),
            None => url_joined(base@, reference@) is None,
        },
{
    Url::parse(base).ok().and_then(|parsed| parsed.join(reference).ok()).map(String::from)
}

/// `Url::parse` of `text`, then `Url::host_str`: the host of the address.
#[verifier::external_body]
fn host_of(text: &str) -> (host: Option<Option<String>>)
    ensures
        match host {
            Some(Some(name)) => url_host(text@) == Some(Some(name@)),
            Some(None) => url_host(text@) == Some(None::<Seq<char>>),
            None => url_host(text@) is None,
        },
{
    Url::parse(text).ok().map(|parsed| parsed.host_str().map(String::from))
}

/// An anchor element as it is put in place of the one found: the same
/// target and label, and behind the label the target as it is shown and the
/// hint key, each in brackets.
pub open spec fn annotated(href: Seq<char>, label: Seq<char>, index: nat) -> Seq<char> {
    "<a href=\""@ + href + "\">"@ + label + " ["@ + percent_decoded(href) + "]["@ + hint_key_of(index)
        + "]</a>"@
}

/// The page from the byte offset `from` on, with each of `anchors` replaced
/// by its annotated form; `index` is the number of the first of them.
pub open spec fn injected(html: Seq<char>, anchors: Seq<AnchorModel>, from: int, index: nat) -> Seq<
    char,
>
    decreases anchors.len(),
{
    if anchors.len() == 0 {
        span(html, from, byte_len(html))
    } else {
        span(html, from, anchors[0].start as int) + annotated(
            anchors[0].href,
            anchors[0].label,
            index,
        ) + injected(html, anchors.drop_first(), anchors[0].end as int, index + 1)
    }
}

/// The links of a page are its anchors: the targets in page order, and each
/// bound to the hint key of its index.
pub open spec fn links_of(anchors: Seq<AnchorModel>, links: Seq<String>, map: LinkMap) -> bool {
    &&& links.len() == anchors.len()
    &&& map.entries@.len() == anchors.len()
    &&& forall|i: int| 0 <= i < anchors.len() ==> (#[trigger] links[i])@ == anchors[i].href
    &&& forall|i: int|
        0 <= i < anchors.len() ==> {
            &&& (#[trigger] map.entries@[i]).key@ == hint_key_of(i as nat)
            &&& map.entries@[i].value@ == anchors[i].href
        }
}

/// The annotated form of an anchor.
pub fn annotate(href: &String, label: &String, index: usize) -> (element: String)
    ensures
        element@ == annotated(href@, label@, index as nat),
{
    let shown = decode_url(href.as_str());
    let key = hint_key(index);
    let mut element = String::from_str("<a href=\"");
    element.append(href.as_str());
    element.append("\">");
    element.append(label.as_str());
    element.append(" [");
    element.append(shown.as_str());
    element.append("][");
    element.append(key.as_str());
    element.append("]</a>");
    element
}

/// What `injected` says of a page with a first anchor.
proof fn lemma_injected_step(html: Seq<char>, anchors: Seq<AnchorModel>, from: int, at: int)
    requires
        0 <= at < anchors.len(),
    ensures
        injected(html, anchors.skip(at), from, at as nat) == span(
            html,
            from,
            anchors[at].start as int,
        ) + annotated(anchors[at].href, anchors[at].label, at as nat) + injected(
            html,
            anchors.skip(at + 1),
            anchors[at].end as int,
            (at + 1) as nat,
        ),
{
    let rest = anchors.skip(at);
    assert(rest[0] == anchors[at]);
    assert(rest.drop_first() =~= anchors.skip(at + 1));
}

/// Where an anchor lies, and that the next one does not start before its
/// end.
proof fn lemma_anchor_place(anchors: Seq<AnchorModel>, bytes: Seq<u8>, at: int)
    requires
        in_page_order(anchors, bytes),
        0 <= at < anchors.len(),
    ensures
        anchors[at].start <= anchors[at].end <= bytes.len(),
        is_char_boundary(bytes, anchors[at].start as int),
        is_char_boundary(bytes, anchors[at].end as int),
        at + 1 < anchors.len() ==> anchors[at].end <= anchors[at + 1].start,
{
}

/// One more anchor, its target and its key keep the links in step with the
/// anchors.
proof fn lemma_links_extend(
    anchors: Seq<AnchorModel>,
    at: int,
    links_before: Seq<String>,
    map_before: LinkMap,
    links: Seq<String>,
    map: LinkMap,
)
    requires
        0 <= at < anchors.len(),
        links_of(anchors.take(at), links_before, map_before),
        links.len() == at + 1,
        links.drop_last() == links_before,
        links.last()@ == anchors[at].href,
        map.entries@.len() == at + 1,
        map.entries@.drop_last() == map_before.entries@,
        map.entries@.last().key@ == hint_key_of(at as nat),
        map.entries@.last().value@ == anchors[at].href,
    ensures
        links_of(anchors.take(at + 1), links, map),
{
    let taken = anchors.take(at + 1);
    assert forall|i: int| 0 <= i < taken.len() implies (#[trigger] links[i])@
        == taken[i].href by {
        if i < at {
            assert(anchors.take(at)[i] == taken[i]);
            assert(links[i] == links.drop_last()[i]);
        }
    }
    assert forall|i: int| 0 <= i < taken.len() implies {
        &&& (#[trigger] map.entries@[i]).key@ == hint_key_of(i as nat)
        &&& map.entries@[i].value@ == taken[i].href
    } by {
        if i < at {
            assert(anchors.take(at)[i] == taken[i]);
            assert(map.entries@[i] == map.entries@.drop_last()[i]);
        }
    }
}

/// Puts the annotated form of each anchor in its place in the page, and
/// collects the links.
pub fn inject_hints(html: &str, anchors: &Vec<Anchor>) -> (out: (String, LinkMap, Vec<String>))
    requires
        in_page_order(anchors.deep_view(), html.spec_bytes()),
    ensures
        out.0@ == injected(html@, anchors.deep_view(), 0, 0),
        links_of(anchors.deep_view(), out.2@, out.1),
{
    broadcast use encode_utf8_valid_utf8;

    let ghost models = anchors.deep_view();
    let ghost bytes = html.spec_bytes();
    let ghost whole = injected(html@, models, 0, 0);
    let len = html.as_bytes().len();
    let mut page = String::new();
    let mut map: LinkMap = TextMap::new();
    let mut links: Vec<String> = Vec::new();
    let mut last: usize = 0;
    let mut at: usize = 0;
    proof {
        is_char_boundary_start_end_of_seq(bytes);
        assert(models.skip(0) =~= models);
        assert(page@ + whole =~= whole);
        if 0 < models.len() {
            lemma_anchor_place(models, bytes, 0);
        }
    }
    while at < anchors.len()
        invariant
            at <= anchors@.len(),
            models == anchors.deep_view(),
            models.len() == anchors@.len(),
            bytes == html.spec_bytes(),
            len == bytes.len(),
            valid_utf8(bytes),
            in_page_order(models, bytes),
            last <= len,
            is_char_boundary(bytes, last as int),
            at < models.len() ==> last <= models[at as int].start,
            page@ + injected(html@, models.skip(at as int), last as int, at as nat) == whole,
            links_of(models.take(at as int), links@, map),
        decreases anchors@.len() - at,
    {
        let anchor = &anchors[at];
        let ghost model = models[at as int];
        proof {
            assert(model == anchors@[at as int].deep_view());
            lemma_anchor_place(models, bytes, at as int);
            lemma_injected_step(html@, models, last as int, at as int);
        }
        let ghost before = page@;
        let ghost rest = injected(html@, models.skip(at + 1), model.end as int, (at + 1) as nat);
        let gap = substring(html, last, anchor.start);
        page.append(gap);
        let element = annotate(&anchor.href, &anchor.label, at);
        page.append(element.as_str());
        proof {
            lemma_regroup(before, gap@, element@, rest);
        }
        let ghost map_before = map;
        let ghost links_before = links@;
        map.insert(hint_key(at), anchor.href.clone());
        links.push(anchor.href.clone());
        proof {
            assert(links@.drop_last() =~= links_before);
            assert(map.entries@.drop_last() =~= map_before.entries@);
            lemma_links_extend(models, at as int, links_before, map_before, links@, map);
        }
        last = anchor.end;
        at += 1;
    }
    proof {
        assert(models.skip(at as int) =~= Seq::<AnchorModel>::empty());
        assert(models.take(at as int) =~= models);
        is_char_boundary_start_end_of_seq(bytes);
    }
    let tail = substring(html, last, len);
    page.append(tail);
    (page, map, links)
}

/// Four texts in a row are the same text however they are grouped.
proof fn lemma_regroup(a: Seq<char>, b: Seq<char>, c: Seq<char>, d: Seq<char>)
    ensures
        (a + b + c) + d == a + (b + c + d),
{
    assert((a + b + c) + d =~= a + (b + c + d));
}

/// The characters of `text` that are no control characters, in order.
pub fn dense_chars(text: &str) -> (dense: Vec<char>)
    ensures
        dense@ == text@.filter(|c: char| !is_control(c)),
{
    let ghost keep = |c: char| !is_control(c);
    let mut dense: Vec<char> = Vec::new();
    proof {
        reveal(Seq::filter);
        assert(text@.take(0) =~= Seq::<char>::empty());
    }
    for c in iter: text.chars()
        invariant
            iter.seq() == text@,
            keep == (|c: char| !is_control(c)),
            dense@ == text@.take(iter.index()).filter(keep),
    {
        proof {
            reveal(Seq::filter);
            let next = text@.take(iter.index() + 1);
            assert(next.drop_last() =~= text@.take(iter.index()));
            assert(next.last() == c);
        }
        if !c.is_control() {
            dense.push(c);
        }
    }
    proof {
        assert(text@.take(text@.len() as int) =~= text@);
    }
    dense
}

/// What the browser shows of a page: the anchors of the page get their hint
/// keys, the page is rendered to plain text of `RENDER_WIDTH` columns (no
/// text where that fails), and the control characters are dropped for the
/// dense text.
pub open spec fn page_of(html: Seq<char>, page: Page) -> bool {
    let anchors = anchors_in(html);
    let shown = match rendered_text(injected(html, anchors, 0, 0), RENDER_WIDTH) {
        Some(plain) => plain,
        None => Seq::<char>::empty(),
    };
    &&& page.text@ == shown
    &&& page.dense_text@ == shown.filter(|c: char| !is_control(c))
    &&& links_of(anchors, page.links@, page.link_map)
}

/// Turns the HTML of a page into what the browser shows of it.
pub fn parse_html(html: &str) -> (page: Page)
    ensures
        page_of(html@, page),
{
    let anchors = find_anchors(html);
    let (marked, link_map, links) = inject_hints(html, &anchors);
    let text = match render_html(marked.as_str(), RENDER_WIDTH) {
        Ok(plain) => plain,
        Err(_) => String::new(),
    };
    let dense_text = dense_chars(text.as_str());
    Page { text, dense_text, link_map, links }
}

/// The address that was joined, and `target` itself where none was.
pub fn joined_or_target(joined: Option<String>, target: String) -> (address: String)
    ensures
        address@ == match joined {
            Some(address) => address@,
            None => target@,
        },
{
    match joined {
        Some(address) => address,
        None => target,
    }
}

/// The address that a request goes to: `target` read against the address
/// `base`, and `target` itself where that cannot be done.
pub fn resolve_target(base: &str, target: String) -> (address: String)
    ensures
        address@ == match url_joined(base@, target@) {
            Some(joined) => joined,
            None => target@,
        },
{
    let joined = join_url(base, target.as_str());
    joined_or_target(joined, target)
}

/// The host that stands for the site of an address, given what the address
/// was read as.
pub fn host_name(host: Option<Option<String>>) -> (site: Option<String>)
    ensures
        match site {
            Some(name) => host == Some(Some(name)),
            None => host is None || host == Some(None::<String>),
        },
{
    match host {
        Some(host) => host,
        None => None,
    }
}

/// The host that the links of a page are held against: that of `address`,
/// where it is an absolute address with a host.
pub fn site_of(address: &str) -> (host: Option<String>)
    ensures
        match host {
            Some(name) => site_named(url_host(address@)) == Some(name@),
            None => site_named(url_host(address@)) is None,
        },
{
    host_name(host_of(address))
}

/// Whether a link stays on the site `host`: a link that is no absolute
/// address does; one that is has to name the same host.
pub open spec fn stays_on_site(link: Seq<char>, host: Seq<char>) -> bool {
    stays_given(url_host(link), host)
}

/// Whether a link stays on the site `host`, given what the link was read
/// as.
pub fn host_stays(named: &Option<Option<String>>, host: &String) -> (stays: bool)
    ensures
        stays == match *named {
            Some(Some(name)) => name@ == host@,
            Some(None) => false,
            None => true,
        },
{
    match named {
        Some(Some(name)) => *name == *host,
        Some(None) => false,
        None => true,
    }
}

/// Whether `link` stays on the site `host`.
pub fn on_site(link: &str, host: &String) -> (stays: bool)
    ensures
        stays == stays_on_site(link@, host@),
{
    let named = host_of(link);
    host_stays(&named, host)
}

/// The event that tells of a page.
pub open spec fn is_page_event(
    event: BgEvent,
    url: Seq<char>,
    html: Seq<char>,
    is_prefetch: bool,
    is_history: bool,
) -> bool {
    match event {
        BgEvent::PageLoaded { url: at, text, links, dense_text, link_map, is_history_nav } => {
            &&& !is_prefetch
            &&& at@ == url
            &&& is_history_nav == is_history
            &&& page_of(html, Page { text, dense_text, link_map, links })
        },
        BgEvent::PrefetchReady { url: at, text, links, dense_text, link_map } => {
            &&& is_prefetch
            &&& at@ == url
            &&& page_of(html, Page { text, dense_text, link_map, links })
        },
        _ => false,
    }
}

/// What a request posts once its outcome is known. A page that came is
/// announced, as loaded or as prefetched. A failure is announced as an error
/// unless the request was a prefetch, which fails in silence: after a status
/// that is no success the text is `HTTP` and the status, after a failure to
/// get an answer the text of the failure.
pub fn fetch_event(url: String, reply: FetchReply, is_prefetch: bool, is_history: bool) -> (event:
    Option<BgEvent>)
    ensures
        match reply {
            FetchReply::Body(html) => event is Some && is_page_event(
                event->0,
                url@,
                html@,
                is_prefetch,
                is_history,
            ),
            FetchReply::Status(status) => if is_prefetch {
                event is None
            } else {
                event matches Some(BgEvent::Error(text)) && text@ == "HTTP "@ + status@
            },
            FetchReply::Failed(failure) => event == if is_prefetch {
                None
            } else {
                Some(BgEvent::Error(failure))
            },
        },
{
    match reply {
        FetchReply::Body(html) => {
            let page = parse_html(html.as_str());
            if is_prefetch {
                Some(
                    BgEvent::PrefetchReady {
                        url,
                        text: page.text,
                        links: page.links,
                        dense_text: page.dense_text,
                        link_map: page.link_map,
                    },
                )
            } else {
                Some(
                    BgEvent::PageLoaded {
                        url,
                        text: page.text,
                        links: page.links,
                        dense_text: page.dense_text,
                        link_map: page.link_map,
                        is_history_nav: is_history,
                    },
                )
            }
        },
        FetchReply::Status(status) => {
            if is_prefetch {
                None
            } else {
                let mut text = String::from_str("HTTP ");
                text.append(status.as_str());
                Some(BgEvent::Error(text))
            }
        },
        FetchReply::Failed(failure) => {
            if is_prefetch {
                None
            } else {
                Some(BgEvent::Error(failure))
            }
        },
    }
}

/// On a page with no more links than there are hint keys, the hint key of
/// every link leads to that link.
pub proof fn lemma_hint_leads_to_link(
    anchors: Seq<AnchorModel>,
    links: Seq<String>,
    map: LinkMap,
    index: int,
)
    requires
        links_of(anchors, links, map),
        anchors.len() <= HINT_KEYS,
        0 <= index < anchors.len(),
    ensures
        map@.contains_key(hint_key_of(index as nat)),
        map@[hint_key_of(index as nat)] == anchors[index].href,
        links[index]@ == anchors[index].href,
{
    let key = hint_key_of(index as nat);
    assert forall|i: int| index < i < map.entries@.len() implies map.entries@[i].key@ != key by {
        lemma_hint_keys_differ(i as nat, index as nat);
    }
    lemma_map_of_last_match(map.entries@, index, key);
}

} // verus!
