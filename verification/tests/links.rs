use repost_detector::cache::RecencyCache;
use repost_detector::links::{
    check_and_record, extract_urls, get_links_posted_recently, Entity, EntityKind, MessageContent,
};

fn url(offset: usize, length: usize) -> Entity {
    Entity { kind: EntityKind::Url, offset, length }
}

fn other(offset: usize, length: usize) -> Entity {
    Entity { kind: EntityKind::Other, offset, length }
}

fn text(text: &str, entities: Vec<Entity>) -> MessageContent {
    MessageContent::Text { text: text.to_string(), entities }
}

fn text_with_link_at_start(link: &str) -> MessageContent {
    text(link, vec![url(0, link.chars().count())])
}

fn contents(cache: &RecencyCache<String>) -> Vec<String> {
    (0..cache.len()).map(|i| cache.get(i).clone()).collect()
}

#[test]
fn a_repeated_link_is_found_and_a_new_one_is_not() {
    let mut recents = RecencyCache::new(50);
    let first = text("http://example.com/x", vec![url(0, 20)]);
    assert!(!get_links_posted_recently(&first, &mut recents));
    assert_eq!(contents(&recents), vec!["http://example.com/x"]);
    let second = text("look: http://example.com/x", vec![url(6, 20)]);
    assert!(get_links_posted_recently(&second, &mut recents));
    assert_eq!(contents(&recents), vec!["http://example.com/x"]);
    let third = text("http://example.com/y", vec![url(0, 20)]);
    assert!(!get_links_posted_recently(&third, &mut recents));
    assert_eq!(
        contents(&recents),
        vec!["http://example.com/y", "http://example.com/x"]
    );
}

#[test]
fn links_are_cut_out_by_characters() {
    let urls = extract_urls(
        "see http://a.example and http://b.example now",
        &vec![url(4, 16), other(0, 3), url(25, 16)],
    );
    assert_eq!(urls, vec!["http://a.example", "http://b.example"]);
}

#[test]
fn offsets_count_characters_not_bytes() {
    let urls = extract_urls("fõøbα® http://ü.example", &vec![url(7, 16), url(2, 3)]);
    assert_eq!(urls, vec!["http://ü.example", "øbα"]);
}

#[test]
fn entities_beyond_the_text_are_cut_down() {
    let urls = extract_urls(
        "foobar",
        &vec![url(0, 10), url(6, 10), url(3, 0), url(100, 5), url(2, usize::MAX), url(usize::MAX, usize::MAX)],
    );
    assert_eq!(urls, vec!["foobar", "", "", "", "obar", ""]);
}

#[test]
fn only_url_entities_are_links() {
    let urls = extract_urls("@someone #tag", &vec![other(0, 8), other(9, 4)]);
    assert!(urls.is_empty());
    let mut recents = RecencyCache::new(50);
    let message = text("@someone #tag", vec![other(0, 8), other(9, 4)]);
    assert!(!get_links_posted_recently(&message, &mut recents));
    assert!(!get_links_posted_recently(&message, &mut recents));
    assert_eq!(recents.len(), 0);
}

#[test]
fn a_message_without_text_holds_no_link() {
    let mut recents = RecencyCache::new(50);
    recents.push_front("http://example.com/x".to_string());
    assert!(!get_links_posted_recently(&MessageContent::Other, &mut recents));
    assert_eq!(contents(&recents), vec!["http://example.com/x"]);
}

#[test]
fn the_first_repeated_link_ends_the_search() {
    let mut recents = RecencyCache::new(50);
    recents.push_front("b".to_string());
    let urls = vec!["a".to_string(), "b".to_string(), "c".to_string()];
    assert!(check_and_record(&urls, &mut recents));
    assert_eq!(contents(&recents), vec!["a", "b"]);
}

#[test]
fn a_link_twice_in_one_message_is_a_repeat() {
    let mut recents = RecencyCache::new(50);
    let message = text("x.example y.example x.example", vec![url(0, 9), url(10, 9), url(20, 9)]);
    assert!(get_links_posted_recently(&message, &mut recents));
    assert_eq!(contents(&recents), vec!["y.example", "x.example"]);
}

#[test]
fn links_are_compared_as_written() {
    let mut recents = RecencyCache::new(50);
    let urls = vec![
        "http://example.com/x".to_string(),
        "http://example.com/x/".to_string(),
        "HTTP://EXAMPLE.COM/X".to_string(),
        "http://example.com/x ".to_string(),
    ];
    assert!(!check_and_record(&urls, &mut recents));
    assert_eq!(recents.len(), 4);
}

#[test]
fn new_links_are_all_recorded_newest_first() {
    let mut recents = RecencyCache::new(3);
    recents.push_front("old".to_string());
    let urls = vec!["a".to_string(), "b".to_string(), "c".to_string()];
    assert!(!check_and_record(&urls, &mut recents));
    assert_eq!(contents(&recents), vec!["c", "b", "a"]);
    assert!(!check_and_record(&vec![], &mut recents));
    assert_eq!(contents(&recents), vec!["c", "b", "a"]);
}

#[test]
fn a_link_pushed_out_within_the_message_is_new_again() {
    let mut recents = RecencyCache::new(2);
    let urls = vec!["a".to_string(), "b".to_string(), "c".to_string(), "a".to_string()];
    assert!(!check_and_record(&urls, &mut recents));
    assert_eq!(contents(&recents), vec!["a", "c"]);
}

#[test]
fn code_units_are_characters_in_plain_text() {
    let text = "see http://a.example and fõøbα® too";
    for offset in 0..40 {
        for length in 0..40 {
            let entity = Entity::from_utf16(EntityKind::Url, text, offset, length);
            let count = text.chars().count();
            let start = offset.min(count);
            let end = (offset + length).min(count);
            assert_eq!((entity.offset, entity.length), (start, end - start));
            assert_eq!(entity.kind, EntityKind::Url);
        }
    }
}

#[test]
fn a_link_behind_an_emoji_is_cut_out_whole() {
    // The emoji takes two code units and is one character.
    let text = "😀 http://a.example";
    let entity = Entity::from_utf16(EntityKind::Url, text, 3, 16);
    assert_eq!((entity.offset, entity.length), (2, 16));
    assert_eq!(extract_urls(text, &vec![entity]), vec!["http://a.example"]);

    let uncounted = Entity { kind: EntityKind::Url, offset: 3, length: 16 };
    assert_eq!(extract_urls(text, &vec![uncounted]), vec!["ttp://a.example"]);
}

#[test]
fn emoji_inside_and_between_links_are_counted_once() {
    let text = "🎉🎉 http://a.example/😀x and 👍 http://b.example";
    let units: Vec<u16> = text.encode_utf16().collect();
    assert_eq!(units.len(), 49);
    let first = Entity::from_utf16(EntityKind::Url, text, 5, 20);
    let second = Entity::from_utf16(EntityKind::Url, text, 33, 16);
    assert_eq!((first.offset, first.length), (3, 19));
    assert_eq!((second.offset, second.length), (29, 16));
    assert_eq!(
        extract_urls(text, &vec![first, second]),
        vec!["http://a.example/😀x", "http://b.example"]
    );

    let mut recents = RecencyCache::new(50);
    let message = MessageContent::Text {
        text: text.to_string(),
        entities: vec![first, second],
    };
    assert!(!get_links_posted_recently(&message, &mut recents));
    let again = text_with_link_at_start("http://b.example");
    assert!(get_links_posted_recently(&again, &mut recents));
}

#[test]
fn ends_inside_a_character_move_behind_it() {
    let text = "a😀b";
    let inside_start = Entity::from_utf16(EntityKind::Other, text, 2, 2);
    assert_eq!((inside_start.offset, inside_start.length), (2, 1));
    let inside_end = Entity::from_utf16(EntityKind::Other, text, 0, 2);
    assert_eq!((inside_end.offset, inside_end.length), (0, 2));
    let within = Entity::from_utf16(EntityKind::Other, text, 2, 0);
    assert_eq!((within.offset, within.length), (2, 0));
    let beyond = Entity::from_utf16(EntityKind::Other, text, 10, 5);
    assert_eq!((beyond.offset, beyond.length), (3, 0));
    let all = Entity::from_utf16(EntityKind::Other, text, 0, usize::MAX);
    assert_eq!((all.offset, all.length), (0, 3));
    let far = Entity::from_utf16(EntityKind::Other, text, usize::MAX, usize::MAX);
    assert_eq!((far.offset, far.length), (3, 0));
    let empty = Entity::from_utf16(EntityKind::Other, "", 0, 4);
    assert_eq!((empty.offset, empty.length), (0, 0));
}
