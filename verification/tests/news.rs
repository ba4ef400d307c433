use runeroster_core::news::{decode_entities, latest_news, parse_items};

const SAMPLE_FEED: &str = r#"<?xml version="1.0"?>
<rss version="2.0"><channel>
<title>Old School RuneScape Recent News</title>
<item>
<title>The Blood Moon Rises - Out Today!</title>
<dc:creator/>
<enclosure type="image/jpeg" length="0" url="https://cdn.runescape.com/thumb.jpg"/>
<description> The Blood Moon rises today, bringing the finale of the Myreque saga. </description>
<category>Game Updates</category>
<link>https://secure.runescape.com/m=news/the-blood-moon-rises---out-today?oldschool=1</link>
<pubDate>Tue, 30 Jun 2026 00:00:00 GMT</pubDate>
<guid isPermaLink="true">https://secure.runescape.com/m=news/the-blood-moon-rises---out-today?oldschool=1</guid>
</item>
<item>
<title>Wyrmscraig &amp; Friends - Unique Rewards</title>
<dc:creator/>
<enclosure type="image/png" length="0" url="https://cdn.runescape.com/thumb2.png"/>
<description> Today, we're here to talk about the rewards. </description>
<category>Community</category>
<link>https://secure.runescape.com/m=news/wyrmscraig?oldschool=1</link>
<pubDate>Fri, 26 Jun 2026 00:00:00 GMT</pubDate>
<guid isPermaLink="true">https://secure.runescape.com/m=news/wyrmscraig?oldschool=1</guid>
</item>
</channel></rss>"#;

#[test]
fn parses_items_in_order() {
    let items = parse_items(SAMPLE_FEED);
    assert_eq!(items.len(), 2);
    assert_eq!(items[0].title, "The Blood Moon Rises - Out Today!");
    assert_eq!(items[0].category, "Game Updates");
    assert_eq!(
        items[0].link,
        "https://secure.runescape.com/m=news/the-blood-moon-rises---out-today?oldschool=1"
    );
    assert_eq!(items[0].pub_date, "Tue, 30 Jun 2026 00:00:00 GMT");
    assert_eq!(
        items[0].image_url.as_deref(),
        Some("https://cdn.runescape.com/thumb.jpg")
    );
    assert_eq!(items[1].title, "Wyrmscraig & Friends - Unique Rewards");
    assert_eq!(
        items[1].image_url.as_deref(),
        Some("https://cdn.runescape.com/thumb2.png")
    );
}

#[test]
fn decodes_common_entities() {
    assert_eq!(decode_entities("Fish &amp; Chips"), "Fish & Chips");
    assert_eq!(decode_entities("It&#039;s here"), "It's here");
}

#[test]
fn limit_truncates_results() {
    let items = parse_items(SAMPLE_FEED);
    assert_eq!(items.into_iter().take(1).count(), 1);
}

#[test]
fn latest_news_keeps_the_newest_items() {
    let one = latest_news(SAMPLE_FEED, 1);
    assert_eq!(one.len(), 1);
    assert_eq!(one[0].title, "The Blood Moon Rises - Out Today!");
    let all = latest_news(SAMPLE_FEED, 10);
    assert_eq!(all, parse_items(SAMPLE_FEED));
    assert!(latest_news(SAMPLE_FEED, 0).is_empty());
}

#[test]
fn description_is_trimmed() {
    let items = parse_items(SAMPLE_FEED);
    assert_eq!(
        items[0].description,
        "The Blood Moon rises today, bringing the finale of the Myreque saga."
    );
    assert_eq!(items[1].description, "Today, we're here to talk about the rewards.");
}

#[test]
fn item_without_link_is_skipped() {
    let feed = "<rss><item><title>A</title><pubDate>D</pubDate><description>x</description></item>\
                <item><title>B</title><link>L</link><pubDate>D</pubDate><description>y</description></item></rss>";
    let items = parse_items(feed);
    assert_eq!(items.len(), 1);
    assert_eq!(items[0].title, "B");
    assert_eq!(items[0].category, "");
    assert_eq!(items[0].image_url, None);
}

#[test]
fn tags_after_item_end_are_not_read() {
    let feed = "<item><title>T</title><pubDate>D</pubDate><description>x</description></item>\
                <link>outside</link>";
    assert!(parse_items(feed).is_empty());
}

#[test]
fn feed_without_items_has_none() {
    assert!(parse_items("<rss><channel><title>x</title></channel></rss>").is_empty());
}

#[test]
fn decodes_every_feed_entity_once() {
    assert_eq!(
        decode_entities("&lt;b&gt; &quot;q&quot; &apos;a&apos;"),
        "<b> \"q\" 'a'"
    );
    // Decoding runs once, `&amp;` first: `&amp;lt;` becomes `&lt;`, then `<`.
    assert_eq!(decode_entities("&amp;lt;"), "<");
    assert_eq!(decode_entities("&unknown; & plain"), "&unknown; & plain");
}

#[test]
fn text_without_ampersand_is_unchanged() {
    assert_eq!(decode_entities("no entities here <>\""), "no entities here <>\"");
}

#[test]
fn enclosure_url_is_entity_decoded() {
    let feed = "<item><title>T</title><link>L</link><pubDate>D</pubDate><description>x</description>\
                <enclosure url=\"https://cdn.test/a.png?x=1&amp;y=2\"/></item>";
    let items = parse_items(feed);
    assert_eq!(items[0].image_url.as_deref(), Some("https://cdn.test/a.png?x=1&y=2"));
}
