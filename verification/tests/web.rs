use bad_browser::links::hint_key;
use bad_browser::types::BgEvent;
use bad_browser::utils::decode_url;
use bad_browser::web::{
    anchors_of, annotate, dense_chars, fetch_event, find_anchors, host_name, host_stays,
    inject_hints, joined_or_target, on_site, parse_html, resolve_target, site_of, Anchor, Capture,
    FetchReply, LINK_PATTERN, RENDER_WIDTH,
};

#[test]
fn decode_url_reads_percent_escapes() {
    assert_eq!(decode_url("a%20b"), "a b");
    assert_eq!(decode_url("/wiki/%ED%95%9C%EA%B5%AD"), "/wiki/한국");
    assert_eq!(decode_url("plain"), "plain");
    assert_eq!(decode_url("100%"), "100%");
    assert_eq!(decode_url("%zz"), "%zz");
    assert_eq!(decode_url(""), "");
}

#[test]
fn decode_url_replaces_what_is_not_utf8() {
    assert_eq!(decode_url("%FF"), "\u{FFFD}");
    assert_eq!(decode_url("a%C3"), "a\u{FFFD}");
}

#[test]
fn an_anchor_is_annotated_with_target_and_hint() {
    let href = "/a%20b".to_string();
    let label = "A <b>page</b>".to_string();
    assert_eq!(
        annotate(&href, &label, 27),
        "<a href=\"/a%20b\">A <b>page</b> [/a b][bb]</a>"
    );
    assert_eq!(annotate(&"x".to_string(), &"".to_string(), 0), "<a href=\"x\"> [x][aa]</a>");
}

#[test]
fn hints_are_injected_in_page_order() {
    let html = "한 <a href=\"/x\">X</a> und <A HREF='/y'>Y</A>!";
    let first = html.find("<a").unwrap();
    let second = html.find("<A").unwrap();
    let anchors = vec![
        Anchor {
            start: first,
            end: first + "<a href=\"/x\">X</a>".len(),
            href: "/x".to_string(),
            label: "X".to_string(),
        },
        Anchor {
            start: second,
            end: second + "<A HREF='/y'>Y</A>".len(),
            href: "/y".to_string(),
            label: "Y".to_string(),
        },
    ];
    let (page, map, links) = inject_hints(html, &anchors);
    assert_eq!(
        page,
        "한 <a href=\"/x\">X [/x][aa]</a> und <a href=\"/y\">Y [/y][ab]</a>!"
    );
    assert_eq!(links, vec!["/x".to_string(), "/y".to_string()]);
    assert_eq!(map.get(&"aa".to_string()), Some(&"/x".to_string()));
    assert_eq!(map.get(&"ab".to_string()), Some(&"/y".to_string()));
    assert_eq!(map.entries.len(), 2);
}

#[test]
fn a_page_without_anchors_is_left_as_it_is() {
    let (page, map, links) = inject_hints("<p>no links</p>", &Vec::new());
    assert_eq!(page, "<p>no links</p>");
    assert!(links.is_empty());
    assert!(map.entries.is_empty());
}

#[test]
fn parse_html_finds_the_links_of_a_page() {
    let html = "<html><body><p>Hello <a href=\"/wiki/A%20B\">first</a> and \
                <A class=\"x\" HREF='https://example.org/two'>second</A>.</p>\
                <a name=\"top\">no target</a></body></html>";
    let page = parse_html(html);
    assert_eq!(
        page.links,
        vec!["/wiki/A%20B".to_string(), "https://example.org/two".to_string()]
    );
    assert_eq!(page.link_map.get(&hint_key(0)), Some(&"/wiki/A%20B".to_string()));
    assert_eq!(
        page.link_map.get(&"ab".to_string()),
        Some(&"https://example.org/two".to_string())
    );
    assert_eq!(page.link_map.get(&"ac".to_string()), None);
    assert!(page.text.contains("Hello"));
    assert!(page.text.contains("first [/wiki/A B][aa]"));
    assert!(page.text.contains("second [https://example.org/two][ab]"));
    assert!(!page.text.contains("<a"));
    assert!(!page.text.contains("<p>"));
}

#[test]
fn parse_html_wraps_the_text_and_drops_control_characters() {
    assert_eq!(RENDER_WIDTH, 120);
    let words = vec!["word"; 100].join(" ");
    let html = format!("<p>{}</p><p>next</p>", words);
    let page = parse_html(&html);
    assert!(page.text.lines().count() > 2);
    assert!(page.text.lines().all(|line| line.chars().count() <= 120));
    assert!(page.text.contains('\n'));
    assert!(page.dense_text.iter().all(|c| !c.is_control()));
    let kept: Vec<char> = page.text.chars().filter(|c| !c.is_control()).collect();
    assert_eq!(page.dense_text, kept);
    assert!(!page.dense_text.is_empty());
}

#[test]
fn parse_html_of_nothing_is_an_empty_page() {
    let page = parse_html("");
    assert_eq!(page.text, "");
    assert!(page.dense_text.is_empty());
    assert!(page.links.is_empty());
    assert!(page.link_map.entries.is_empty());
}

#[test]
fn dense_chars_keeps_what_is_no_control_character() {
    assert_eq!(dense_chars("a\nb\tc\r\n"), vec!['a', 'b', 'c']);
    assert_eq!(dense_chars("한 글\u{7f}\u{85}!"), vec!['한', ' ', '글', '!']);
    assert_eq!(dense_chars(""), Vec::<char>::new());
}

#[test]
fn a_target_is_read_against_the_base() {
    assert_eq!(
        resolve_target("https://example.com/a/b", "c".to_string()),
        "https://example.com/a/c"
    );
    assert_eq!(
        resolve_target("https://example.com/a/b", "/root?x=1".to_string()),
        "https://example.com/root?x=1"
    );
    assert_eq!(
        resolve_target("https://example.com/a/b", "http://other.net".to_string()),
        "http://other.net/"
    );
}

#[test]
fn a_target_stays_as_it_is_where_it_cannot_be_joined() {
    assert_eq!(resolve_target("not an address", "c".to_string()), "c");
    assert_eq!(resolve_target("", "https://example.com/x y".to_string()), "https://example.com/x y");
    assert_eq!(resolve_target("https://example.com/", "http://[".to_string()), "http://[");
}

#[test]
fn the_site_of_an_address_is_its_host() {
    assert_eq!(site_of("https://Example.com:8080/a"), Some("example.com".to_string()));
    assert_eq!(site_of("mailto:someone@example.com"), None);
    assert_eq!(site_of("/relative"), None);
    assert_eq!(site_of(""), None);
}

#[test]
fn relative_links_stay_on_the_site() {
    let host = "example.com".to_string();
    assert!(on_site("/relative", &host));
    assert!(on_site("page.html", &host));
    assert!(on_site("https://example.com/x", &host));
    assert!(!on_site("https://other.net/x", &host));
    assert!(!on_site("mailto:someone@example.com", &host));
}

#[test]
fn a_page_that_came_is_announced_as_loaded() {
    let reply = FetchReply::Body("<a href=\"/n\">next</a>".to_string());
    match fetch_event("https://example.com/".to_string(), reply, false, true) {
        Some(BgEvent::PageLoaded { url, text, links, dense_text, link_map, is_history_nav }) => {
            assert_eq!(url, "https://example.com/");
            assert!(is_history_nav);
            assert_eq!(links, vec!["/n".to_string()]);
            assert_eq!(link_map.get(&"aa".to_string()), Some(&"/n".to_string()));
            assert!(text.contains("next [/n][aa]"));
            assert!(!dense_text.is_empty());
        }
        other => panic!("{:?}", other),
    }
}

#[test]
fn a_prefetched_page_is_announced_as_ready() {
    let reply = FetchReply::Body("<p>text</p>".to_string());
    match fetch_event("u".to_string(), reply, true, false) {
        Some(BgEvent::PrefetchReady { url, text, links, .. }) => {
            assert_eq!(url, "u");
            assert!(text.contains("text"));
            assert!(links.is_empty());
        }
        other => panic!("{:?}", other),
    }
}

#[test]
fn failures_are_announced_unless_the_request_was_a_prefetch() {
    let status = FetchReply::Status("404 Not Found".to_string());
    match fetch_event("u".to_string(), status.clone(), false, false) {
        Some(BgEvent::Error(text)) => assert_eq!(text, "HTTP 404 Not Found"),
        other => panic!("{:?}", other),
    }
    assert!(fetch_event("u".to_string(), status, true, false).is_none());

    let failed = FetchReply::Failed("connection refused".to_string());
    match fetch_event("u".to_string(), failed.clone(), false, false) {
        Some(BgEvent::Error(text)) => assert_eq!(text, "connection refused"),
        other => panic!("{:?}", other),
    }
    assert!(fetch_event("u".to_string(), failed, true, true).is_none());
}

#[test]
fn anchors_are_read_off_the_matches() {
    let found = vec![
        Capture {
            start: 3,
            end: 20,
            groups: vec![
                Some("<a href=\"/x\">X</a>".to_string()),
                Some("/x".to_string()),
                Some("X".to_string()),
            ],
        },
        Capture { start: 20, end: 21, groups: vec![Some("?".to_string()), None] },
        Capture { start: 30, end: 40, groups: Vec::new() },
    ];
    let anchors = anchors_of(&found);
    assert_eq!(anchors.len(), 3);
    assert_eq!((anchors[0].start, anchors[0].end), (3, 20));
    assert_eq!(anchors[0].href, "/x");
    assert_eq!(anchors[0].label, "X");
    // A group that is missing or took no part stands for no text.
    assert_eq!((anchors[1].start, anchors[1].end), (20, 21));
    assert_eq!(anchors[1].href, "");
    assert_eq!(anchors[1].label, "");
    assert_eq!(anchors[2].href, "");
    assert!(anchors_of(&Vec::new()).is_empty());
}

#[test]
fn anchors_are_found_whatever_the_letter_case() {
    let html = "가 <A Class=\"big\" HREF='/up'>Up<br></A> <a href=\"two\">2</a> <a name=\"n\">n</a>";
    let anchors = find_anchors(html);
    assert_eq!(anchors.len(), 2);
    assert_eq!(&html[anchors[0].start..anchors[0].end], "<A Class=\"big\" HREF='/up'>Up<br></A>");
    assert_eq!(anchors[0].href, "/up");
    assert_eq!(anchors[0].label, "Up<br>");
    assert_eq!(&html[anchors[1].start..anchors[1].end], "<a href=\"two\">2</a>");
    assert_eq!(anchors[1].href, "two");
    assert_eq!(anchors[1].label, "2");
    assert!(find_anchors("no anchors here").is_empty());
    assert!(LINK_PATTERN.starts_with("(?i)<a"));
}

#[test]
fn the_target_stands_in_where_nothing_was_joined() {
    assert_eq!(joined_or_target(Some("https://a/b".to_string()), "b".to_string()), "https://a/b");
    assert_eq!(joined_or_target(None, "b".to_string()), "b");
}

#[test]
fn a_site_is_a_host_that_was_named() {
    assert_eq!(host_name(Some(Some("example.com".to_string()))), Some("example.com".to_string()));
    assert_eq!(host_name(Some(None)), None);
    assert_eq!(host_name(None), None);
    let host = "example.com".to_string();
    assert!(host_stays(&Some(Some("example.com".to_string())), &host));
    assert!(!host_stays(&Some(Some("other.net".to_string())), &host));
    assert!(!host_stays(&Some(None), &host));
    assert!(host_stays(&None, &host));
}
