use hackernews_tim::config::{
    clamp_page_size, clamp_search_page_size, MAX_PAGE_SIZE, MAX_SEARCH_PAGE_SIZE, MIN_PAGE_SIZE,
    MIN_SEARCH_PAGE_SIZE,
};
use hackernews_tim::hn_forms::{
    classify_login_response, classify_missing_reply_form, hn_listing_pages_for_tui_page,
    listing_path_for_view, parse_reply_form, StartupLoginStatus,
};
use hackernews_tim::hn_page::{parse_comments_from_content, parse_threads_score_map_into};
use hackernews_tim::model::{VoteData, VoteDirection, VouchData};
use hackernews_tim::profile::{
    parse_karma_from_profile, parse_showdead_from_profile, parse_topcolor_from_profile,
};
use hackernews_tim::query::StorySortMode;
use hackernews_tim::vote_page::{parse_vote_data_from_content, parse_vouch_data_from_content};
use std::collections::HashMap;

fn vote_of<'a>(data: &'a [(String, VoteData)], id: &str) -> Option<&'a VoteData> {
    data.iter().find(|(k, _)| k == id).map(|(_, v)| v)
}

fn vouch_of<'a>(data: &'a [(String, VouchData)], id: &str) -> Option<&'a VouchData> {
    data.iter().find(|(k, _)| k == id).map(|(_, v)| v)
}

#[test]
fn listing_path_maps_hn_backed_views() {
    assert_eq!(listing_path_for_view("front_page", StorySortMode::NoSort), Some("news"));
    assert_eq!(listing_path_for_view("ask_hn", StorySortMode::NoSort), Some("ask"));
    assert_eq!(listing_path_for_view("show_hn", StorySortMode::NoSort), Some("show"));
    assert_eq!(listing_path_for_view("story", StorySortMode::Date), Some("newest"));
}

#[test]
fn listing_path_returns_none_for_algolia_only_views() {
    assert_eq!(listing_path_for_view("story", StorySortMode::Points), None);
    assert_eq!(listing_path_for_view("story", StorySortMode::NoSort), None);
    assert_eq!(listing_path_for_view("job", StorySortMode::Date), None);
    assert_eq!(listing_path_for_view("custom_whatever", StorySortMode::NoSort), None);
    assert_eq!(listing_path_for_view("", StorySortMode::NoSort), None);
}

#[test]
fn listing_path_maps_hn_backed_tags() {
    assert_eq!(listing_path_for_view("front_page", StorySortMode::NoSort), Some("news"));
    assert_eq!(listing_path_for_view("ask_hn", StorySortMode::NoSort), Some("ask"));
    assert_eq!(listing_path_for_view("show_hn", StorySortMode::NoSort), Some("show"));
}

#[test]
fn listing_path_returns_none_for_algolia_only_tags() {
    assert_eq!(listing_path_for_view("story", StorySortMode::NoSort), None);
    assert_eq!(listing_path_for_view("job", StorySortMode::NoSort), None);
    assert_eq!(listing_path_for_view("custom_whatever", StorySortMode::NoSort), None);
    assert_eq!(listing_path_for_view("", StorySortMode::NoSort), None);
}

#[test]
fn hn_listing_pages_cover_tui_window_default_size() {
    assert_eq!(hn_listing_pages_for_tui_page(0, 20), (1, 1));
    assert_eq!(hn_listing_pages_for_tui_page(1, 20), (1, 2));
    assert_eq!(hn_listing_pages_for_tui_page(2, 20), (2, 2));
    assert_eq!(hn_listing_pages_for_tui_page(3, 20), (3, 3));
    assert_eq!(hn_listing_pages_for_tui_page(4, 20), (3, 4));
    assert_eq!(hn_listing_pages_for_tui_page(5, 20), (4, 4));
    assert_eq!(hn_listing_pages_for_tui_page(6, 20), (5, 5));
}

#[test]
fn hn_listing_pages_handle_small_page_size() {
    assert_eq!(hn_listing_pages_for_tui_page(0, 10), (1, 1));
    assert_eq!(hn_listing_pages_for_tui_page(1, 10), (1, 1));
    assert_eq!(hn_listing_pages_for_tui_page(2, 10), (1, 1));
    assert_eq!(hn_listing_pages_for_tui_page(3, 10), (2, 2));
}

#[test]
fn hn_listing_pages_handle_page_size_equal_to_hn_page() {
    assert_eq!(hn_listing_pages_for_tui_page(0, 30), (1, 1));
    assert_eq!(hn_listing_pages_for_tui_page(1, 30), (2, 2));
    assert_eq!(hn_listing_pages_for_tui_page(2, 30), (3, 3));
}

#[test]
fn hn_listing_pages_handle_large_page_size() {
    assert_eq!(hn_listing_pages_for_tui_page(0, 50), (1, 2));
    assert_eq!(hn_listing_pages_for_tui_page(1, 50), (2, 4));
    assert_eq!(hn_listing_pages_for_tui_page(0, 100), (1, 4));
    assert_eq!(hn_listing_pages_for_tui_page(1, 100), (4, 7));
}

#[test]
fn hn_listing_pages_handle_zero_page_size_gracefully() {
    assert_eq!(hn_listing_pages_for_tui_page(0, 0), (1, 1));
}

#[test]
fn classify_login_accepts_logged_in_page_with_logout_link() {
    let body = r#"<html><body><span><a href="logout?auth=abc&amp;goto=news">logout</a></span></body></html>"#;
    assert!(classify_login_response(body).is_ok());
}

#[test]
fn mod_classify_login_accepts_logged_in_page_with_logout_link() {
    let body = r#"<html><body><span><a href="logout?auth=abc&amp;goto=news">logout</a></span></body></html>"#;
    assert!(classify_login_response(body).is_ok());
}

#[test]
fn classify_login_rejects_bad_login_body() {
    let body = r#"<html lang="en"><body>Bad login.<br><br><b>Login</b><br><br><form action="login" method="post"></form></body></html>"#;
    let err = classify_login_response(body).unwrap_err();
    assert!(err.contains("Bad login"), "got: {err}");
}

#[test]
fn mod_classify_login_rejects_bad_login_body() {
    let body = r#"<html lang="en"><body>Bad login.<br><br><b>Login</b><br><br><form action="login" method="post"></form></body></html>"#;
    let err = classify_login_response(body).unwrap_err();
    assert!(err.contains("Bad login"), "got: {err}");
}

#[test]
fn classify_login_rejects_captcha_challenge() {
    let body = r#"<html lang="en"><body>Validation required. If this doesn't work, you can email hn@ycombinator.com<br><div class="g-recaptcha"></div></body></html>"#;
    let err = classify_login_response(body).unwrap_err();
    assert!(err.contains("captcha"), "got: {err}");
}

#[test]
fn mod_classify_login_rejects_captcha_challenge() {
    let body = r#"<html lang="en"><body>Validation required. If this doesn't work, you can email hn@ycombinator.com<br><div class="g-recaptcha"></div></body></html>"#;
    let err = classify_login_response(body).unwrap_err();
    assert!(err.contains("captcha"), "got: {err}");
}

#[test]
fn classify_login_rejects_empty_body() {
    assert!(classify_login_response("").is_err());
}

#[test]
fn mod_classify_login_rejects_empty_body() {
    assert!(classify_login_response("").is_err());
}

#[test]
fn classify_login_rejects_unexpected_body() {
    let body = "<html><body>welcome</body></html>";
    assert!(classify_login_response(body).is_err());
}

#[test]
fn mod_classify_login_rejects_unexpected_body() {
    let body = "<html><body>welcome</body></html>";
    assert!(classify_login_response(body).is_err());
}

#[test]
fn parses_unvoted_item_with_downvote_privilege() {
    let html = r#"<a id='up_1' href='vote?id=1&amp;how=up&amp;auth=aaa111'>x</a><a id='down_1' href='vote?id=1&amp;how=down&amp;auth=aaa111'>x</a>"#;
    let data = parse_vote_data_from_content(html);
    let v = vote_of(&data, "1").expect("expected vote data for id=1");
    assert_eq!(v.vote, None);
    assert!(v.can_downvote);
    assert_eq!(v.auth, "aaa111");
}

#[test]
fn mod_parses_unvoted_item_with_downvote_privilege() {
    let html = r#"<a id='up_1' href='vote?id=1&amp;how=up&amp;auth=aaa111'>x</a><a id='down_1' href='vote?id=1&amp;how=down&amp;auth=aaa111'>x</a>"#;
    let data = parse_vote_data_from_content(html);
    let v = vote_of(&data, "1").expect("expected vote data for id=1");
    assert_eq!(v.vote, None);
    assert!(v.can_downvote);
    assert_eq!(v.auth, "aaa111");
}

#[test]
fn parses_unvoted_item_without_downvote_privilege() {
    let html = "<a id='up_2' href='vote?id=2&amp;how=up&amp;auth=bbb222'>x</a>";
    let data = parse_vote_data_from_content(html);
    let v = vote_of(&data, "2").expect("expected vote data for id=2");
    assert_eq!(v.vote, None);
    assert!(!v.can_downvote);
}

#[test]
fn mod_parses_unvoted_item_without_downvote_privilege() {
    let html = "<a id='up_2' href='vote?id=2&amp;how=up&amp;auth=bbb222'>x</a>";
    let data = parse_vote_data_from_content(html);
    let v = vote_of(&data, "2").expect("expected vote data for id=2");
    assert_eq!(v.vote, None);
    assert!(!v.can_downvote);
}

#[test]
fn parses_upvoted_item_with_downvote_privilege() {
    let html = r#"<a id='up_3' class='clicky nosee' href='vote?id=3&amp;how=up&amp;auth=ccc333'>x</a><a id='down_3' class='clicky nosee' href='vote?id=3&amp;how=down&amp;auth=ccc333'>x</a><a id='un_3' class='clicky' href='vote?id=3&amp;how=un&amp;auth=ccc333'>unvote</a>"#;
    let data = parse_vote_data_from_content(html);
    let v = vote_of(&data, "3").expect("expected vote data for id=3");
    assert_eq!(v.vote, Some(VoteDirection::Up));
    assert!(v.can_downvote);
    assert_eq!(v.auth, "ccc333");
}

#[test]
fn mod_parses_upvoted_item_with_downvote_privilege() {
    let html = r#"<a id='down_3' href='vote?id=3&amp;how=down&amp;auth=ccc333'>x</a><a id='un_3' href='vote?id=3&amp;how=un&amp;auth=ccc333'>unvote</a>"#;
    let data = parse_vote_data_from_content(html);
    let v = vote_of(&data, "3").expect("expected vote data for id=3");
    assert_eq!(v.vote, Some(VoteDirection::Up));
    assert!(v.can_downvote);
}

#[test]
fn parses_downvoted_item() {
    let html = r#"<a id='up_4' class='clicky nosee' href='vote?id=4&amp;how=up&amp;auth=ddd444'>x</a><a id='down_4' class='clicky nosee' href='vote?id=4&amp;how=down&amp;auth=ddd444'>x</a><a id='un_4' class='clicky' href='vote?id=4&amp;how=un&amp;auth=ddd444'>undown</a>"#;
    let data = parse_vote_data_from_content(html);
    let v = vote_of(&data, "4").expect("expected vote data for id=4");
    assert_eq!(v.vote, Some(VoteDirection::Down));
    assert!(v.can_downvote);
}

#[test]
fn parses_upvoted_item_without_downvote_privilege() {
    let html = r#"<a id='up_5' class='clicky nosee' href='vote?id=5&amp;how=up&amp;auth=eee555'>x</a><a id='un_5' class='clicky' href='vote?id=5&amp;how=un&amp;auth=eee555'>unvote</a>"#;
    let data = parse_vote_data_from_content(html);
    let v = vote_of(&data, "5").expect("expected vote data for id=5");
    assert_eq!(v.vote, Some(VoteDirection::Up));
    assert!(!v.can_downvote);
}

#[test]
fn mod_parses_upvoted_item_without_downvote_privilege() {
    let html = "<a id='un_5' href='vote?id=5&amp;how=un&amp;auth=eee555'>unvote</a>";
    let data = parse_vote_data_from_content(html);
    let v = vote_of(&data, "5").expect("expected vote data for id=5");
    assert_eq!(v.vote, Some(VoteDirection::Up));
    assert!(!v.can_downvote);
}

#[test]
fn parses_vote_past_unvote_window() {
    let html = r#"<a id='up_6' class='clicky nosee' href='vote?id=6&amp;how=up&amp;auth=fff666'>x</a><a id='down_6' class='clicky nosee' href='vote?id=6&amp;how=down&amp;auth=fff666'>x</a>"#;
    let data = parse_vote_data_from_content(html);
    let v = vote_of(&data, "6").expect("expected vote data for id=6");
    assert_eq!(v.vote, Some(VoteDirection::Up));
    assert!(v.can_downvote);
}

#[test]
fn parses_own_comment_has_no_vote_entry() {
    let html = r#"<tr class='athing comtr' id='7'><td><span>my own comment, no vote links</span></td></tr>"#;
    let data = parse_vote_data_from_content(html);
    assert!(vote_of(&data, "7").is_none());
}

#[test]
fn neighbouring_nosee_does_not_leak_across_tags() {
    let html = r#"<a class='clicky nosee' href='something'>decoy</a><a id='up_8' class='clicky' href='vote?id=8&amp;how=up&amp;auth=888888'>x</a><a id='down_8' class='clicky' href='vote?id=8&amp;how=down&amp;auth=888888'>x</a>"#;
    let data = parse_vote_data_from_content(html);
    let v = vote_of(&data, "8").expect("expected vote data for id=8");
    assert_eq!(v.vote, None);
    assert!(v.can_downvote);
}

#[test]
fn ignores_items_without_any_vote_link() {
    let html = "<tr><td>just a comment row with no vote links</td></tr>";
    assert!(parse_vote_data_from_content(html).is_empty());
}

#[test]
fn mod_ignores_items_without_any_vote_link() {
    let html = "<tr><td>just a comment row with no vote links</td></tr>";
    assert!(parse_vote_data_from_content(html).is_empty());
}

#[test]
fn parses_vouch_link_as_unvouched() {
    let html = r#"<a class='clicky' id='vouch_100' href='vouch?id=100&amp;how=up&amp;auth=abcdef&amp;goto=item%3Fid%3D100'>vouch</a>"#;
    let data = parse_vouch_data_from_content(html);
    let vd = vouch_of(&data, "100").expect("expected vouch data for id=100");
    assert_eq!(vd.auth, "abcdef");
    assert!(!vd.vouched);
}

#[test]
fn parses_unvouch_link_as_already_vouched() {
    let html = r#"<a class='clicky' id='vouch_101' href='vouch?id=101&amp;how=un&amp;auth=abcdef&amp;goto=item%3Fid%3D101'>unvouch</a>"#;
    let data = parse_vouch_data_from_content(html);
    let vd = vouch_of(&data, "101").expect("expected vouch data for id=101");
    assert!(vd.vouched);
}

#[test]
fn ignores_pages_without_vouch_links() {
    let html = r#"<a id='up_5' class='clicky' href='vote?id=5&amp;how=up&amp;auth=555555'>▲</a><a id='down_5' class='clicky' href='vote?id=5&amp;how=down&amp;auth=555555'>▽</a>"#;
    assert!(parse_vouch_data_from_content(html).is_empty());
}

#[test]
fn skips_vouch_anchors_missing_auth_token() {
    let html = "<a id='vouch_102' href='vouch?id=102&amp;how=up'>vouch</a>";
    let data = parse_vouch_data_from_content(html);
    assert!(vouch_of(&data, "102").is_none());
}

#[test]
fn extracts_topcolor_from_real_hn_profile_shape() {
    let html = r#"<tr><td valign="top">topcolor:</td><td><input type="text" name="topc" value="33cc33" size="20"></td></tr>"#;
    assert_eq!(parse_topcolor_from_profile(html).as_deref(), Some("33cc33"));
}

#[test]
fn mod_extracts_topcolor_from_real_hn_profile_shape() {
    let html = r#"<tr><td valign="top">topcolor:</td><td><input type="text" name="topc" value="33cc33" size="20"></td></tr>"#;
    assert_eq!(parse_topcolor_from_profile(html).as_deref(), Some("33cc33"));
}

#[test]
fn extracts_topcolor_without_quotes() {
    let html = "<td>topcolor:</td><td><input type=text name=topc size=20 value=336699></td>";
    assert_eq!(parse_topcolor_from_profile(html).as_deref(), Some("336699"));
}

#[test]
fn mod_extracts_topcolor_without_quotes() {
    let html = "<td>topcolor:</td><td><input type=text name=topc size=20 value=336699></td>";
    assert_eq!(parse_topcolor_from_profile(html).as_deref(), Some("336699"));
}

#[test]
fn normalises_uppercase_to_lowercase() {
    let html = r#"<td>topcolor:</td><td><input name="topc" value="FF6600"></td>"#;
    assert_eq!(parse_topcolor_from_profile(html).as_deref(), Some("ff6600"));
}

#[test]
fn mod_normalises_uppercase_to_lowercase() {
    let html = r#"<td>topcolor:</td><td><input name="topc" value="FF6600"></td>"#;
    assert_eq!(parse_topcolor_from_profile(html).as_deref(), Some("ff6600"));
}

#[test]
fn returns_none_when_profile_has_no_topcolor_field() {
    let html = r#"<tr><td>user:</td><td>pg</td></tr><tr><td>karma:</td><td>12345</td></tr>"#;
    assert_eq!(parse_topcolor_from_profile(html), None);
}

#[test]
fn mod_returns_none_when_profile_has_no_topcolor_field() {
    let html = r#"<tr><td>user:</td><td>pg</td></tr><tr><td>karma:</td><td>12345</td></tr>"#;
    assert_eq!(parse_topcolor_from_profile(html), None);
}

#[test]
fn returns_none_when_value_is_malformed() {
    let html = r#"<td>topcolor:</td><td><input name="topc" value="not-a-color"></td>"#;
    assert_eq!(parse_topcolor_from_profile(html), None);
}

#[test]
fn mod_returns_none_when_value_is_malformed() {
    let html = r#"<td>topcolor:</td><td><input name="topc" value="not-a-color"></td>"#;
    assert_eq!(parse_topcolor_from_profile(html), None);
}

#[test]
fn parses_karma_from_profile_row() {
    let html = r#"<tr><td>user:</td><td>pg</td></tr><tr><td>karma:</td><td> 12345 </td></tr>"#;
    assert_eq!(parse_karma_from_profile(html), Some(12345));
}

#[test]
fn mod_parses_karma_from_profile_row() {
    let html = r#"<tr><td>user:</td><td>pg</td></tr><tr><td>karma:</td><td> 12345 </td></tr>"#;
    assert_eq!(parse_karma_from_profile(html), Some(12345));
}

#[test]
fn parses_karma_with_attribute_on_td() {
    let html = r#"<tr><td valign="top">karma:</td><td>67</td></tr>"#;
    assert_eq!(parse_karma_from_profile(html), Some(67));
}

#[test]
fn mod_parses_karma_with_attribute_on_td() {
    let html = r#"<tr><td valign="top">karma:</td><td>67</td></tr>"#;
    assert_eq!(parse_karma_from_profile(html), Some(67));
}

#[test]
fn returns_none_when_karma_missing() {
    let html = r#"<tr><td>user:</td><td>pg</td></tr>"#;
    assert_eq!(parse_karma_from_profile(html), None);
}

#[test]
fn mod_returns_none_when_karma_missing() {
    let html = r#"<tr><td>user:</td><td>pg</td></tr>"#;
    assert_eq!(parse_karma_from_profile(html), None);
}

#[test]
fn returns_none_when_karma_not_a_number() {
    let html = r#"<tr><td>karma:</td><td>abc</td></tr>"#;
    assert_eq!(parse_karma_from_profile(html), None);
}

#[test]
fn mod_returns_none_when_karma_not_a_number() {
    let html = r#"<tr><td>karma:</td><td>abc</td></tr>"#;
    assert_eq!(parse_karma_from_profile(html), None);
}

#[test]
fn parses_showdead_yes_when_selected() {
    let html = r#"<tr><td>showdead:</td><td>    <select name="showd">
      <option>no</option>
      <option selected="selected">yes</option>
    </select>
  </td></tr>"#;
    assert!(parse_showdead_from_profile(html));
}

#[test]
fn parses_showdead_no_when_selected() {
    let html = r#"<tr><td>showdead:</td><td><select name="showd">
      <option selected="selected">no</option>
      <option>yes</option>
    </select></td></tr>"#;
    assert!(!parse_showdead_from_profile(html));
}

#[test]
fn parses_showdead_with_bare_selected_attribute() {
    let html = r#"<select name=showd>
      <option>no</option>
      <option selected>yes</option>
    </select>"#;
    assert!(parse_showdead_from_profile(html));
}

#[test]
fn showdead_defaults_false_when_select_missing() {
    let html = r#"<tr><td>user:</td><td>pg</td></tr>"#;
    assert!(!parse_showdead_from_profile(html));
}

#[test]
fn showdead_defaults_false_when_no_option_selected() {
    let html = r#"<select name="showd"><option>no</option><option>yes</option></select>"#;
    assert!(!parse_showdead_from_profile(html));
}

fn comment_row_with_status(id: u32, author: &str, status: &str) -> String {
    format!(
        r#"<tr class="athing comtr" id="{id}"><td><table><tr><td class="ind" indent="0"></td><td class="default"><div><span class="comhead"><a href="user?id={author}" class="hnuser">{author}</a> <span class="age" title="2025-01-01T00:00:00 1735689600">on Jan 1, 2025</span> <span id="unv_{id}"></span>{status}<span class="navs"></span></span></div><div class="commtext c00">body</div></td></tr></table></td></tr>"#,
        id = id,
        author = author,
        status = status,
    )
}

#[test]
fn parses_dead_and_flagged_comment_row_and_sets_both_flags() {
    let html = comment_row_with_status(99, "deaduser", " [flagged]  [dead] ");
    let comments = parse_comments_from_content(&html);
    assert_eq!(comments.len(), 1);
    assert_eq!(comments[0].id, 99);
    assert_eq!(comments[0].author, "deaduser");
    assert!(comments[0].dead);
    assert!(comments[0].flagged);
}

#[test]
fn parses_flagged_only_comment_row() {
    let html = comment_row_with_status(101, "flaggeduser", " [flagged] ");
    let comments = parse_comments_from_content(&html);
    assert_eq!(comments.len(), 1);
    assert!(comments[0].flagged);
    assert!(!comments[0].dead);
}

#[test]
fn parses_dead_only_comment_row() {
    let html = comment_row_with_status(102, "deaduser", " [dead] ");
    let comments = parse_comments_from_content(&html);
    assert_eq!(comments.len(), 1);
    assert!(comments[0].dead);
    assert!(!comments[0].flagged);
}

#[test]
fn parses_live_comment_row_leaves_status_flags_unset() {
    let html = comment_row_with_status(100, "liveuser", " ");
    let comments = parse_comments_from_content(&html);
    assert_eq!(comments.len(), 1);
    assert!(!comments[0].dead);
    assert!(!comments[0].flagged);
}

#[test]
fn classifies_bad_login_error_from_classify_response() {
    let err = classify_login_response(r#"<html lang="en"><body>Bad login.<br></body></html>"#).unwrap_err();
    assert!(matches!(StartupLoginStatus::from_login_error(&err), StartupLoginStatus::BadLogin));
}

#[test]
fn mod_classifies_bad_login_error_from_classify_response() {
    let err = classify_login_response(r#"<html lang="en"><body>Bad login.<br></body></html>"#).unwrap_err();
    assert!(matches!(StartupLoginStatus::from_login_error(&err), StartupLoginStatus::BadLogin));
}

#[test]
fn classifies_captcha_error_from_classify_response() {
    let err = classify_login_response(
        r#"<html lang="en"><body>Validation required.<div class="g-recaptcha"></div></body></html>"#,
    )
    .unwrap_err();
    assert!(matches!(StartupLoginStatus::from_login_error(&err), StartupLoginStatus::Captcha));
}

#[test]
fn mod_classifies_captcha_error_from_classify_response() {
    let err = classify_login_response(
        r#"<html lang="en"><body>Validation required.<div class="g-recaptcha"></div></body></html>"#,
    )
    .unwrap_err();
    assert!(matches!(StartupLoginStatus::from_login_error(&err), StartupLoginStatus::Captcha));
}

#[test]
fn classifies_unknown_error_as_other() {
    match StartupLoginStatus::from_login_error("connection reset") {
        StartupLoginStatus::Other(msg) => assert!(msg.contains("connection reset")),
        other => panic!("expected Other(..), got {other:?}"),
    }
}

#[test]
fn mod_classifies_unknown_error_as_other() {
    match StartupLoginStatus::from_login_error("connection reset") {
        StartupLoginStatus::Other(msg) => assert!(msg.contains("connection reset")),
        other => panic!("expected Other(..), got {other:?}"),
    }
}

#[test]
fn parse_reply_form_returns_none_without_hmac() {
    assert!(parse_reply_form("<html><body>no form here</body></html>").is_none());
}

#[test]
fn mod_parse_reply_form_returns_none_without_hmac() {
    assert!(parse_reply_form("<html><body>no form here</body></html>").is_none());
}

#[test]
fn classify_missing_reply_form_distinguishes_empty_body() {
    let cause = classify_missing_reply_form("");
    assert!(cause.contains("empty response"), "expected empty-body cause, got {cause:?}");
    let ws_cause = classify_missing_reply_form("   \n\t");
    assert_eq!(cause, ws_cause);
}

#[test]
fn classify_missing_reply_form_detects_login_redirect() {
    let body = r#"<html><body><form><input name="acct"></form></body></html>"#;
    let cause = classify_missing_reply_form(body);
    assert!(cause.contains("login page"), "expected login cause, got {cause:?}");
    let body_sq = r#"<html><body><form><input name='acct'></form></body></html>"#;
    assert_eq!(cause, classify_missing_reply_form(body_sq));
}

#[test]
fn classify_missing_reply_form_falls_back_to_locked_or_drift() {
    let cause = classify_missing_reply_form("<html><body>hello</body></html>");
    assert!(
        cause.contains("locked") && cause.contains("comment box"),
        "expected locked/markup-drift cause, got {cause:?}"
    );
}

#[test]
fn parse_comments_skips_rows_without_required_fields() {
    let html = r#"<tr class="athing comtr" id="1"><td class="ind" indent="0"></td><span class="age" title="2025-01-01T00:00:00 1735689600"></span></tr>"#;
    assert!(parse_comments_from_content(html).is_empty());
}

#[test]
fn mod_parse_comments_skips_rows_without_required_fields() {
    let html = r#"<tr class="athing comtr" id="1"><td class="ind" indent="0"></td><span class="age" title="2025-01-01T00:00:00 1735689600"></span></tr>"#;
    assert!(parse_comments_from_content(html).is_empty());
}

#[test]
fn parse_comments_returns_empty_when_page_has_no_comments() {
    assert!(parse_comments_from_content("<html><body></body></html>").is_empty());
}

#[test]
fn mod_parse_comments_returns_empty_when_page_has_no_comments() {
    assert!(parse_comments_from_content("<html><body></body></html>").is_empty());
}

#[test]
fn parse_comments_handles_plural_points() {
    let html = r#"<tr class="athing comtr" id="9001"><td class="ind" indent="0"></td><span class="score" id="score_9001">42 points</span> by <a href="user?id=alice" class="hnuser">alice</a> <span class="age" title="2025-01-01T00:00:00 1735689600"></span><div class="commtext c00">hi</div></tr>"#;
    let comments = parse_comments_from_content(html);
    assert_eq!(comments.len(), 1);
    assert_eq!(comments[0].points, Some(42));
}

#[test]
fn parse_comments_leaves_points_none_when_score_missing() {
    let html = r#"<tr class="athing comtr" id="1"><td class="ind" indent="0"></td><a href="user?id=alice" class="hnuser">alice</a><span class="age" title="2025-01-01T00:00:00 1735689600"></span><div class="commtext c00">hi</div></tr>"#;
    let comments = parse_comments_from_content(html);
    assert_eq!(comments.len(), 1);
    assert_eq!(comments[0].points, None);
}

#[test]
fn parse_threads_score_map_extracts_singular_and_plural() {
    let html = r#"<span class="score" id="score_111">1 point</span><span class="score" id="score_222">42 points</span><span class="score" id="score_333">1000 points</span>"#;
    let mut map = HashMap::new();
    parse_threads_score_map_into(html, &mut map);
    assert_eq!(map.get(&111), Some(&1));
    assert_eq!(map.get(&222), Some(&42));
    assert_eq!(map.get(&333), Some(&1000));
    assert_eq!(map.len(), 3);
}

#[test]
fn parse_threads_score_map_ignores_unrelated_score_spans() {
    let html = r#"<span class="score">7</span><span class="score" id="score_42">17 points</span>"#;
    let mut map = HashMap::new();
    parse_threads_score_map_into(html, &mut map);
    assert_eq!(map.len(), 1);
    assert_eq!(map.get(&42), Some(&17));
}

#[test]
fn parse_threads_score_map_overwrites_existing_entries() {
    let mut map = HashMap::new();
    map.insert(7u32, 1u32);
    parse_threads_score_map_into(r#"<span class="score" id="score_7">9 points</span>"#, &mut map);
    assert_eq!(map.get(&7), Some(&9));
}

#[test]
fn clamp_page_size_keeps_values_within_bounds() {
    assert_eq!(clamp_page_size(0), MIN_PAGE_SIZE);
    assert_eq!(clamp_page_size(1), MIN_PAGE_SIZE);
    assert_eq!(clamp_page_size(4), MIN_PAGE_SIZE);
    assert_eq!(clamp_page_size(5), 5);
    assert_eq!(clamp_page_size(20), 20);
    assert_eq!(clamp_page_size(100), 100);
    assert_eq!(clamp_page_size(101), MAX_PAGE_SIZE);
    assert_eq!(clamp_page_size(10_000), MAX_PAGE_SIZE);
}

#[test]
fn clamp_search_page_size_keeps_values_within_bounds() {
    assert_eq!(clamp_search_page_size(0), MIN_SEARCH_PAGE_SIZE);
    assert_eq!(clamp_search_page_size(4), MIN_SEARCH_PAGE_SIZE);
    assert_eq!(clamp_search_page_size(5), 5);
    assert_eq!(clamp_search_page_size(15), 15);
    assert_eq!(clamp_search_page_size(30), 30);
    assert_eq!(clamp_search_page_size(31), MAX_SEARCH_PAGE_SIZE);
    assert_eq!(clamp_search_page_size(1_000), MAX_SEARCH_PAGE_SIZE);
}

#[test]
fn non_ascii_digits_in_the_first_indent_cell_skip_the_row() {
    let row = comment_row_with_status(103, "someone", " ");
    let html = row.replacen(
        r#"<td class="ind" indent="0"></td>"#,
        "<td class=\"ind\" indent=\"\u{0663}\"></td><td class=\"ind\" indent=\"1\"></td>",
        1,
    );
    assert!(parse_comments_from_content(&html).is_empty());
}

#[test]
fn non_ascii_digits_in_the_age_title_give_time_zero() {
    let row = comment_row_with_status(104, "someone", " ");
    let html = row.replacen(
        "1735689600\">",
        "\u{0661}\u{0662}\"><span class=\"age\" title=\"x 77\">",
        1,
    );
    let comments = parse_comments_from_content(&html);
    assert_eq!(comments.len(), 1);
    assert_eq!(comments[0].time, 0);
}

#[test]
fn karma_with_non_ascii_digits_is_no_number() {
    assert_eq!(parse_karma_from_profile("<td>karma:</td><td>\u{0661}\u{0662}</td>"), None);
}

#[test]
fn karma_label_matches_the_kelvin_sign_case_insensitively() {
    assert_eq!(parse_karma_from_profile("<td>\u{212a}ARMA:</td><td> 42 </td>"), Some(42));
}

#[test]
fn word_boundary_follows_unicode_word_characters() {
    let html = r#"<td>topcolor:</td><td><input type="text" éname="x" évalue="ff6600"></td>"#;
    assert_eq!(parse_topcolor_from_profile(html), None);
}
