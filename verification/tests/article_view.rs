use hackernews_tim::article_view::{construct_article_view, ArticleAction, ArticleScreen};
use hackernews_tim::dialogs::{construct_find_dialog, FindDialog, FindDialogAction};
use hackernews_tim::keymap::KeyMap;
use hackernews_tim::keys::{KeyCode, KeyEvent, Keys};
use hackernews_tim::model::Article;
use hackernews_tim::theme::{BaseColor, Color, ComponentStyle};

fn fixture_article() -> Article {
    Article {
        title: "Sample article".to_string(),
        url: "https://example.com/post/42".to_string(),
        content: r#"<html><body>
            <p>First paragraph with a <a href="https://one.example">first link</a>.</p>
            <p>Second paragraph mentions <a href="https://two.example">two</a>.</p>
            <p>Third paragraph references <a href="https://three.example">three</a>.</p>
        </body></html>"#
            .to_string(),
        author: Some("alice".to_string()),
        date_published: Some("2024-01-02".to_string()),
    }
}

fn plain_article() -> Article {
    Article {
        title: "Plain article".to_string(),
        url: "https://example.com/plain".to_string(),
        content: "<html><body><p>alpha bravo charlie alpha delta alpha echo</p></body></html>".to_string(),
        author: None,
        date_published: None,
    }
}

/// The article screen, laid out 80 columns wide.
fn screen(article: Article) -> (ArticleScreen, ComponentStyle, KeyMap) {
    let cs = ComponentStyle::default();
    let km = KeyMap::default();
    let help = Keys::new(vec![KeyEvent::Char('?')]);
    let mut s = construct_article_view(article, None, &help, &cs, Color::Light(BaseColor::White));
    assert!(s.view.relayout(80, &cs));
    (s, cs, km)
}

fn press(s: &mut ArticleScreen, km: &KeyMap, e: KeyEvent) -> Vec<ArticleAction> {
    s.view.handle_key(&e, &km.article_view_keymap, &km.global_keymap).actions
}

/// Types into the find dialog, letting the view take each request.
fn type_in_dialog(s: &mut ArticleScreen, d: &mut FindDialog, cs: &ComponentStyle, km: &KeyMap, e: KeyEvent) -> Vec<FindDialogAction> {
    let (actions, _) = d.input.handle_key(&e, &km.global_keymap.close_dialog, &km.edit_keymap, &mut s.view.find_state);
    s.view.process_find_signal(cs.matched_highlight);
    actions
}

#[test]
fn empty_article_does_not_panic() {
    let article = Article {
        title: "Empty".to_string(),
        url: "https://example.com/empty".to_string(),
        content: String::new(),
        author: None,
        date_published: None,
    };
    let (s, _, _) = screen(article);
    assert!(s.title_bar.description.is_some(), "expected the article chrome to render even with empty content");
    assert!(s.view.links.is_empty());
}

#[test]
fn parses_links_in_document_order() {
    let (s, _, _) = screen(fixture_article());
    assert_eq!(
        s.view.links,
        vec![
            "https://one.example".to_string(),
            "https://two.example".to_string(),
            "https://three.example".to_string(),
        ],
        "expected links in document order from the first parse pass"
    );
}

#[test]
fn l_opens_link_dialog_with_parsed_links() {
    let (mut s, _, km) = screen(fixture_article());
    let actions = press(&mut s, &km, KeyEvent::Char('l'));
    assert!(matches!(actions.as_slice(), [ArticleAction::OpenLinkDialog]), "got {actions:?}");
    assert!(s.view.links.iter().any(|l| l == "https://one.example"));
    assert!(s.view.links.iter().any(|l| l == "https://three.example"));
}

#[test]
fn slash_opens_find_dialog() {
    let (mut s, _, km) = screen(fixture_article());
    let actions = press(&mut s, &km, KeyEvent::Char('/'));
    assert!(matches!(actions.as_slice(), [ArticleAction::OpenFindDialog]), "got {actions:?}");
    assert_eq!(construct_find_dialog().title, "Find");
}

#[test]
fn typing_query_populates_match_ids() {
    let (mut s, cs, km) = screen(plain_article());
    press(&mut s, &km, KeyEvent::Char('/'));
    let mut d = construct_find_dialog();
    for c in "alpha".chars() {
        type_in_dialog(&mut s, &mut d, &cs, &km, KeyEvent::Char(c));
    }
    assert_eq!(s.view.find_state.match_ids.len(), 3, "expected three matches for 'alpha' in the plain fixture");
}

#[test]
fn esc_in_find_dialog_clears_highlights() {
    let (mut s, cs, km) = screen(plain_article());
    press(&mut s, &km, KeyEvent::Char('/'));
    let mut d = construct_find_dialog();
    for c in "alpha".chars() {
        type_in_dialog(&mut s, &mut d, &cs, &km, KeyEvent::Char(c));
    }
    let enter = type_in_dialog(&mut s, &mut d, &cs, &km, KeyEvent::Key(KeyCode::Enter));
    assert_eq!(enter, vec![FindDialogAction::Close]);
    assert_eq!(s.view.find_state.match_ids.len(), 3);

    press(&mut s, &km, KeyEvent::Char('/'));
    let mut d = construct_find_dialog();
    let esc = type_in_dialog(&mut s, &mut d, &cs, &km, KeyEvent::Key(KeyCode::Esc));
    assert_eq!(esc, vec![FindDialogAction::Close]);
    assert_eq!(s.view.find_state.match_ids.len(), 0, "Esc on the find dialog should clear the match_ids set");
}

#[test]
fn numbered_link_opens_in_browser() {
    let (mut s, _, km) = screen(fixture_article());
    press(&mut s, &km, KeyEvent::Char('2'));
    let actions = press(&mut s, &km, KeyEvent::Char('o'));
    assert!(matches!(actions.as_slice(), [ArticleAction::OpenLinkInBrowser(2)]), "got {actions:?}");
    assert_eq!(s.view.raw_command, "");
}
