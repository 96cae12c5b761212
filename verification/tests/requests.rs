use hackernews_tim::model::VoteDirection;
use hackernews_tim::requests::{
    algolia_item_url, expand_tabs, item_html_url, listing_url, next_page_link, official_item_url, page_id_range,
    parse_u32, search_url, story_by_id_url, story_ids_endpoint, threads_title, threads_url, user_comments_url,
    vote_url, vouch_url,
};
use hackernews_tim::story_view::compute_max_id_len;

#[test]
fn vote_and_vouch_urls_carry_the_how_parameter() {
    assert_eq!(
        vote_url(42, "tok", Some(VoteDirection::Up)),
        "https://news.ycombinator.com/vote?id=42&how=up&auth=tok"
    );
    assert_eq!(
        vote_url(42, "tok", Some(VoteDirection::Down)),
        "https://news.ycombinator.com/vote?id=42&how=down&auth=tok"
    );
    assert_eq!(vote_url(7, "a", None), "https://news.ycombinator.com/vote?id=7&how=un&auth=a");
    assert_eq!(vouch_url(9, "x", false), "https://news.ycombinator.com/vouch?id=9&how=up&auth=x");
    assert_eq!(vouch_url(9, "x", true), "https://news.ycombinator.com/vouch?id=9&how=un&auth=x");
}

#[test]
fn page_urls_add_showdead_only_when_asked() {
    assert_eq!(listing_url("news", 2, false), "https://news.ycombinator.com/news?p=2");
    assert_eq!(listing_url("ask", 1, true), "https://news.ycombinator.com/ask?p=1&showdead=yes");
    assert_eq!(item_html_url(123, false), "https://news.ycombinator.com/item?id=123");
    assert_eq!(item_html_url(123, true), "https://news.ycombinator.com/item?id=123&showdead=yes");
    assert_eq!(threads_url("pg", true), "https://news.ycombinator.com/threads?id=pg&showdead=yes");
    assert_eq!(threads_title("pg"), "Threads — pg");
}

#[test]
fn api_urls() {
    assert_eq!(algolia_item_url(5), "https://hn.algolia.com/api/v1/items/5");
    assert_eq!(official_item_url(5), "https://hacker-news.firebaseio.com/v0/item/5.json");
    assert_eq!(story_by_id_url(77), "https://hn.algolia.com/api/v1/search?tags=story,story_77");
    assert_eq!(
        search_url(true, 15, 2),
        "https://hn.algolia.com/api/v1/search_by_date?tags=story&restrictSearchableAttributes=title,url&typoTolerance=false&hitsPerPage=15&page=2"
    );
    assert_eq!(
        user_comments_url("dang", 20, 0),
        "https://hn.algolia.com/api/v1/search_by_date?tags=comment,author_dang&hitsPerPage=20&page=0"
    );
}

#[test]
fn story_ids_endpoint_covers_the_official_lists() {
    assert_eq!(story_ids_endpoint("front_page"), Ok("/topstories.json"));
    assert_eq!(story_ids_endpoint("ask_hn"), Ok("/askstories.json"));
    assert_eq!(story_ids_endpoint("show_hn"), Ok("/showstories.json"));
    assert_eq!(story_ids_endpoint("story"), Err("unsupported story tag story".to_string()));
}

#[test]
fn page_id_range_clips_the_last_page() {
    assert_eq!(page_id_range(45, 0, 20), Some((0, 20)));
    assert_eq!(page_id_range(45, 2, 20), Some((40, 45)));
    assert_eq!(page_id_range(45, 3, 20), None);
    assert_eq!(page_id_range(0, 0, 20), None);
}

#[test]
fn parse_u32_reads_decimal_digits_only() {
    assert_eq!(parse_u32("12345"), Some(12345));
    assert_eq!(parse_u32("4294967295"), Some(u32::MAX));
    assert_eq!(parse_u32("4294967296"), None);
    assert_eq!(parse_u32(""), None);
    assert_eq!(parse_u32("12a"), None);
}

#[test]
fn next_page_link_follows_the_morelink() {
    let body = "<tr><td><a href='item?id=1&amp;p=2' class='morelink' rel='next'>More</a></td></tr>";
    assert_eq!(next_page_link(body), Some("https://news.ycombinator.com/item?id=1&p=2".to_string()));
    assert_eq!(next_page_link("<a href='x'>plain</a>"), None);
}

#[test]
fn tabs_become_four_spaces() {
    assert_eq!(expand_tabs("a\tb\t\tc"), "a    b        c");
    assert_eq!(expand_tabs("no tabs"), "no tabs");
}

#[test]
fn max_id_len_counts_the_digits_of_the_last_number() {
    assert_eq!(compute_max_id_len(20, 0), 2);
    assert_eq!(compute_max_id_len(8, 0), 1);
    assert_eq!(compute_max_id_len(9, 0), 1);
    assert_eq!(compute_max_id_len(10, 0), 2);
    assert_eq!(compute_max_id_len(0, 0), 1);
    assert_eq!(compute_max_id_len(20, 80), 3);
}

use hackernews_tim::model::Story;
use hackernews_tim::requests::reorder_stories_based_on_ids;

fn bare_story(id: u32, points: u32) -> Story {
    Story {
        id,
        url: String::new(),
        author: String::new(),
        points,
        num_comments: 0,
        time: 0,
        title: format!("s{id}"),
        content: String::new(),
        dead: false,
        flagged: false,
    }
}

#[test]
fn stories_follow_the_order_of_the_listing_ids() {
    let by_points = vec![bare_story(3, 90), bare_story(1, 50), bare_story(2, 10)];
    let ordered = reorder_stories_based_on_ids(by_points, &[1, 2, 3]);
    assert_eq!(ordered.iter().map(|s| s.id).collect::<Vec<_>>(), vec![1, 2, 3]);
    let dup = reorder_stories_based_on_ids(vec![bare_story(5, 1), bare_story(4, 2), bare_story(5, 3)], &[5, 4, 5]);
    assert_eq!(dup.iter().map(|s| (s.id, s.points)).collect::<Vec<_>>(), vec![(5, 1), (5, 3), (4, 2)]);
}
