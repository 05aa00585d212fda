use mfp::feed::{
    choose_next_episode, keywords_from_text, remove_played, track_index, Enclosure, Episode,
    FeedChannel, FeedEnclosure, FeedError, FeedItem, Mfp,
};

const SAMPLE: &str = r#"<?xml version="1.0" encoding="UTF-8"?>
<rss version="2.0" xmlns:itunes="http://www.itunes.com/dtds/podcast-1.0.dtd">
<channel>
<title>music for programming</title>
<link>https://musicforprogramming.net</link>
<description>A series of mixes intended for listening while programming</description>
<item>
<title>Episode 70: Things</title>
<link>https://musicforprogramming.net/seventy</link>
<pubDate>Mon, 01 Jan 2024 00:00:00 +0000</pubDate>
<enclosure url="https://example.net/70.mp3" length="123456" type="audio/mpeg"/>
<itunes:duration>01:02:03</itunes:duration>
<itunes:keywords>ambient, electronic ,focus</itunes:keywords>
</item>
<item>
<title>Episode 69</title>
<enclosure url="https://example.net/69.mp3" length="unknown" type="audio/mpeg"/>
</item>
<item>
</item>
</channel>
</rss>"#;

fn episode(title: &str) -> Episode {
    Episode::new(
        title.to_string(),
        String::new(),
        String::new(),
        None,
        String::new(),
        Vec::new(),
    )
}

fn titles(items: &[Episode]) -> Vec<&str> {
    items.iter().map(|e| e.title.as_str()).collect()
}

#[test]
fn new_reads_channel_and_items_in_order() {
    let feed = Mfp::new(SAMPLE).expect("sample parses");
    assert_eq!(feed.title, "music for programming");
    assert_eq!(feed.link, "https://musicforprogramming.net");
    assert_eq!(feed.description, "A series of mixes intended for listening while programming");
    assert_eq!(feed.items.len(), 3);
    assert_eq!(titles(&feed.items), vec!["Episode 70: Things", "Episode 69", ""]);
}

#[test]
fn new_fills_episode_fields() {
    let feed = Mfp::new(SAMPLE).unwrap();
    let first = &feed.items[0];
    assert_eq!(first.link, "https://musicforprogramming.net/seventy");
    assert_eq!(first.pub_date, "Mon, 01 Jan 2024 00:00:00 +0000");
    assert_eq!(first.duration, "01:02:03");
    assert_eq!(first.keywords, vec!["ambient", "electronic", "focus"]);
    let enc = first.enclosure.as_ref().unwrap();
    assert_eq!(enc.url, "https://example.net/70.mp3");
    assert_eq!(enc.length, 123456);
    assert_eq!(enc.mime_type, "audio/mpeg");
}

#[test]
fn new_defaults_missing_fields() {
    let feed = Mfp::new(SAMPLE).unwrap();
    let second = &feed.items[1];
    assert_eq!(second.link, "");
    assert_eq!(second.duration, "");
    assert_eq!(second.keywords, vec![""]);
    assert_eq!(second.enclosure.as_ref().unwrap().length, 0);
    assert!(feed.items[2].enclosure.is_none());
}

#[test]
fn new_rejects_non_rss() {
    assert!(matches!(Mfp::new("<html></html>"), Err(FeedError::Rss(_))));
    assert!(matches!(Mfp::new(""), Err(FeedError::Rss(_))));
}

#[test]
fn from_channel_maps_each_item() {
    let channel = FeedChannel {
        title: "t".to_string(),
        link: "l".to_string(),
        description: "d".to_string(),
        items: vec![FeedItem {
            title: Some("x".to_string()),
            link: None,
            pub_date: None,
            enclosure: Some(FeedEnclosure {
                url: "u".to_string(),
                length: "+12".to_string(),
                mime_type: "m".to_string(),
            }),
            keywords: Some(" a ,b".to_string()),
            duration: Some("00:00:10".to_string()),
        }],
    };
    let feed = Mfp::from_channel(&channel);
    assert_eq!(feed.title, "t");
    assert_eq!(feed.items.len(), 1);
    assert_eq!(feed.items[0].title, "x");
    assert_eq!(feed.items[0].keywords, vec!["a", "b"]);
    assert_eq!(feed.items[0].enclosure.as_ref().unwrap().length, 12);
}

#[test]
fn enclosure_length_that_overflows_is_zero() {
    let e = Enclosure::from_feed(&FeedEnclosure {
        url: String::new(),
        length: "99999999999999999999".to_string(),
        mime_type: String::new(),
    });
    assert_eq!(e.length, 0);
}

#[test]
fn keywords_split_on_commas_and_trim() {
    assert_eq!(keywords_from_text("a, b,,c "), vec!["a", "b", "", "c"]);
    assert_eq!(keywords_from_text(""), vec![""]);
}

#[test]
fn remove_played_drops_every_episode_of_that_title() {
    let mut items = vec![episode("a"), episode("b"), episode("a"), episode("c")];
    remove_played(&mut items, &"a".to_string());
    assert_eq!(titles(&items), vec!["b", "c"]);
    remove_played(&mut items, &"zzz".to_string());
    assert_eq!(titles(&items), vec!["b", "c"]);
}

#[test]
fn random_playback_plays_each_title_once() {
    let mut items = vec![episode("a"), episode("b"), episode("c"), episode("b")];
    let mut played = Vec::new();
    while let Some(i) = choose_next_episode(&items) {
        assert!(i < items.len());
        let title = items[i].title.clone();
        played.push(title.clone());
        remove_played(&mut items, &title);
    }
    played.sort();
    assert_eq!(played, vec!["a", "b", "c"]);
}

#[test]
fn choose_from_empty_is_none() {
    assert_eq!(choose_next_episode(&Vec::new()), None);
}

#[test]
fn track_numbers_count_from_the_oldest() {
    assert_eq!(track_index(1, 68), Some(67));
    assert_eq!(track_index(68, 68), Some(0));
    assert_eq!(track_index(0, 68), None);
    assert_eq!(track_index(69, 68), None);
    assert_eq!(track_index(1, 0), None);
}
