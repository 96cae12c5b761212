//! The key maps of the application's views and their default bindings.

use vstd::prelude::*;
use crate::keys::{KeyCode, KeyEvent, Keys};

verus! {

/// Key bindings of text input.
#[derive(Debug, Clone)]
pub struct EditKeyMap {
    pub move_cursor_left: Keys,
    pub move_cursor_right: Keys,
    pub move_cursor_to_begin: Keys,
    pub move_cursor_to_end: Keys,
    pub backward_delete_char: Keys,
}

impl Default for EditKeyMap {
    fn default() -> (res: EditKeyMap)
        ensures
            res.move_cursor_left.events@ == seq![KeyEvent::Key(KeyCode::Left), KeyEvent::CtrlChar('b')],
            res.move_cursor_right.events@ == seq![KeyEvent::Key(KeyCode::Right), KeyEvent::CtrlChar('f')],
            res.move_cursor_to_begin.events@ == seq![KeyEvent::Key(KeyCode::Home), KeyEvent::CtrlChar('a')],
            res.move_cursor_to_end.events@ == seq![KeyEvent::Key(KeyCode::End), KeyEvent::CtrlChar('e')],
            res.backward_delete_char.events@ == seq![KeyEvent::Key(KeyCode::Backspace)],
    {
        EditKeyMap {
            move_cursor_left: Keys::new(vec![KeyEvent::Key(KeyCode::Left), KeyEvent::CtrlChar('b')]),
            move_cursor_right: Keys::new(vec![KeyEvent::Key(KeyCode::Right), KeyEvent::CtrlChar('f')]),
            move_cursor_to_begin: Keys::new(vec![KeyEvent::Key(KeyCode::Home), KeyEvent::CtrlChar('a')]),
            move_cursor_to_end: Keys::new(vec![KeyEvent::Key(KeyCode::End), KeyEvent::CtrlChar('e')]),
            backward_delete_char: Keys::new(vec![KeyEvent::Key(KeyCode::Backspace)]),
        }
    }
}

/// Key bindings of scrolling.
#[derive(Debug, Clone)]
pub struct ScrollKeyMap {
    pub up: Keys,
    pub down: Keys,
    pub page_up: Keys,
    pub page_down: Keys,
    pub top: Keys,
    pub bottom: Keys,
}

impl Default for ScrollKeyMap {
    fn default() -> (res: ScrollKeyMap)
        ensures
            res.up.events@ == seq![KeyEvent::Char('k'), KeyEvent::Key(KeyCode::Up)],
            res.down.events@ == seq![KeyEvent::Char('j'), KeyEvent::Key(KeyCode::Down)],
            res.page_up.events@ == seq![KeyEvent::Char('u'), KeyEvent::Key(KeyCode::PageUp), KeyEvent::CtrlChar('u')],
            res.page_down.events@ == seq![KeyEvent::Char('d'), KeyEvent::Key(KeyCode::PageDown), KeyEvent::CtrlChar('d')],
            res.top.events@ == seq![KeyEvent::Char('g'), KeyEvent::Key(KeyCode::Home)],
            res.bottom.events@ == seq![KeyEvent::Char('G'), KeyEvent::Key(KeyCode::End)],
    {
        ScrollKeyMap {
            up: Keys::new(vec![KeyEvent::Char('k'), KeyEvent::Key(KeyCode::Up)]),
            down: Keys::new(vec![KeyEvent::Char('j'), KeyEvent::Key(KeyCode::Down)]),
            page_up: Keys::new(vec![KeyEvent::Char('u'), KeyEvent::Key(KeyCode::PageUp), KeyEvent::CtrlChar('u')]),
            page_down: Keys::new(vec![KeyEvent::Char('d'), KeyEvent::Key(KeyCode::PageDown), KeyEvent::CtrlChar('d')]),
            top: Keys::new(vec![KeyEvent::Char('g'), KeyEvent::Key(KeyCode::Home)]),
            bottom: Keys::new(vec![KeyEvent::Char('G'), KeyEvent::Key(KeyCode::End)]),
        }
    }
}

/// Key bindings available in every view.
#[derive(Debug, Clone)]
pub struct GlobalKeyMap {
    pub open_help_dialog: Keys,
    pub open_login_dialog: Keys,
    pub open_my_threads_in_browser: Keys,
    pub quit: Keys,
    pub close_dialog: Keys,
    pub goto_previous_view: Keys,
    pub goto_front_page_view: Keys,
    pub goto_search_view: Keys,
    pub goto_all_stories_view: Keys,
    pub goto_ask_hn_view: Keys,
    pub goto_show_hn_view: Keys,
    pub goto_jobs_view: Keys,
    pub goto_my_threads_view: Keys,
}

impl Default for GlobalKeyMap {
    fn default() -> (res: GlobalKeyMap)
        ensures
            res.open_help_dialog.events@ == seq![KeyEvent::Char('?')],
            res.open_login_dialog.events@ == seq![KeyEvent::Char('L')],
            res.open_my_threads_in_browser.events@ == seq![KeyEvent::Char('T')],
            res.quit.events@ == seq![KeyEvent::Char('q'), KeyEvent::CtrlChar('c')],
            res.close_dialog.events@ == seq![KeyEvent::Key(KeyCode::Esc)],
            res.goto_previous_view.events@ == seq![KeyEvent::Key(KeyCode::Backspace), KeyEvent::CtrlChar('p')],
            res.goto_front_page_view.events@ == seq![KeyEvent::Key(KeyCode::F1)],
            res.goto_search_view.events@ == seq![KeyEvent::CtrlChar('s')],
            res.goto_all_stories_view.events@ == seq![KeyEvent::Key(KeyCode::F2)],
            res.goto_ask_hn_view.events@ == seq![KeyEvent::Key(KeyCode::F3)],
            res.goto_show_hn_view.events@ == seq![KeyEvent::Key(KeyCode::F4)],
            res.goto_jobs_view.events@ == seq![KeyEvent::Key(KeyCode::F5)],
            res.goto_my_threads_view.events@ == seq![KeyEvent::Key(KeyCode::F6)],
    {
        GlobalKeyMap {
            open_help_dialog: Keys::new(vec![KeyEvent::Char('?')]),
            open_login_dialog: Keys::new(vec![KeyEvent::Char('L')]),
            open_my_threads_in_browser: Keys::new(vec![KeyEvent::Char('T')]),
            quit: Keys::new(vec![KeyEvent::Char('q'), KeyEvent::CtrlChar('c')]),
            close_dialog: Keys::new(vec![KeyEvent::Key(KeyCode::Esc)]),
            goto_previous_view: Keys::new(vec![KeyEvent::Key(KeyCode::Backspace), KeyEvent::CtrlChar('p')]),
            goto_front_page_view: Keys::new(vec![KeyEvent::Key(KeyCode::F1)]),
            goto_search_view: Keys::new(vec![KeyEvent::CtrlChar('s')]),
            goto_all_stories_view: Keys::new(vec![KeyEvent::Key(KeyCode::F2)]),
            goto_ask_hn_view: Keys::new(vec![KeyEvent::Key(KeyCode::F3)]),
            goto_show_hn_view: Keys::new(vec![KeyEvent::Key(KeyCode::F4)]),
            goto_jobs_view: Keys::new(vec![KeyEvent::Key(KeyCode::F5)]),
            goto_my_threads_view: Keys::new(vec![KeyEvent::Key(KeyCode::F6)]),
        }
    }
}

/// Key bindings of the story view.
#[derive(Debug, Clone)]
pub struct StoryViewKeyMap {
    pub next_story_tag: Keys,
    pub prev_story_tag: Keys,
    pub next_story: Keys,
    pub prev_story: Keys,
    pub goto_story: Keys,
    pub next_page: Keys,
    pub prev_page: Keys,
    pub cycle_sort_mode: Keys,
    pub open_article_in_browser: Keys,
    pub open_article_in_article_view: Keys,
    pub open_story_in_browser: Keys,
    pub goto_story_comment_view: Keys,
    pub upvote: Keys,
    pub downvote: Keys,
    pub vouch: Keys,
    pub reply: Keys,
    pub find_in_view: Keys,
    pub find_next_match: Keys,
    pub find_prev_match: Keys,
}

impl Default for StoryViewKeyMap {
    fn default() -> (res: StoryViewKeyMap)
        ensures
            res.next_story_tag.events@ == seq![KeyEvent::Char('l'), KeyEvent::Key(KeyCode::Right)],
            res.prev_story_tag.events@ == seq![KeyEvent::Char('h'), KeyEvent::Key(KeyCode::Left)],
            res.next_story.events@ == seq![KeyEvent::Char('j'), KeyEvent::Key(KeyCode::Down)],
            res.prev_story.events@ == seq![KeyEvent::Char('k'), KeyEvent::Key(KeyCode::Up)],
            res.goto_story.events@ == seq![KeyEvent::Char('g')],
            res.next_page.events@ == seq![KeyEvent::Char('n')],
            res.prev_page.events@ == seq![KeyEvent::Char('p')],
            res.cycle_sort_mode.events@ == seq![KeyEvent::Char('d')],
            res.open_article_in_browser.events@ == seq![KeyEvent::Char('o')],
            res.open_article_in_article_view.events@ == seq![KeyEvent::Char('O')],
            res.open_story_in_browser.events@ == seq![KeyEvent::Char('s')],
            res.goto_story_comment_view.events@ == seq![KeyEvent::Key(KeyCode::Enter)],
            res.upvote.events@ == seq![KeyEvent::Char('v')],
            res.downvote.events@ == seq![KeyEvent::Char('V')],
            res.vouch.events@ == seq![KeyEvent::Char('!')],
            res.reply.events@ == seq![KeyEvent::Char('r')],
            res.find_in_view.events@ == seq![KeyEvent::Char('/'), KeyEvent::CtrlChar('f')],
            res.find_next_match.events@ == seq![KeyEvent::Char('n')],
            res.find_prev_match.events@ == seq![KeyEvent::Char('N')],
    {
        StoryViewKeyMap {
            next_story_tag: Keys::new(vec![KeyEvent::Char('l'), KeyEvent::Key(KeyCode::Right)]),
            prev_story_tag: Keys::new(vec![KeyEvent::Char('h'), KeyEvent::Key(KeyCode::Left)]),
            next_story: Keys::new(vec![KeyEvent::Char('j'), KeyEvent::Key(KeyCode::Down)]),
            prev_story: Keys::new(vec![KeyEvent::Char('k'), KeyEvent::Key(KeyCode::Up)]),
            goto_story: Keys::new(vec![KeyEvent::Char('g')]),
            next_page: Keys::new(vec![KeyEvent::Char('n')]),
            prev_page: Keys::new(vec![KeyEvent::Char('p')]),
            cycle_sort_mode: Keys::new(vec![KeyEvent::Char('d')]),
            open_article_in_browser: Keys::new(vec![KeyEvent::Char('o')]),
            open_article_in_article_view: Keys::new(vec![KeyEvent::Char('O')]),
            open_story_in_browser: Keys::new(vec![KeyEvent::Char('s')]),
            goto_story_comment_view: Keys::new(vec![KeyEvent::Key(KeyCode::Enter)]),
            upvote: Keys::new(vec![KeyEvent::Char('v')]),
            downvote: Keys::new(vec![KeyEvent::Char('V')]),
            vouch: Keys::new(vec![KeyEvent::Char('!')]),
            reply: Keys::new(vec![KeyEvent::Char('r')]),
            find_in_view: Keys::new(vec![KeyEvent::Char('/'), KeyEvent::CtrlChar('f')]),
            find_next_match: Keys::new(vec![KeyEvent::Char('n')]),
            find_prev_match: Keys::new(vec![KeyEvent::Char('N')]),
        }
    }
}

/// Key bindings of the search view.
#[derive(Debug, Clone)]
pub struct SearchViewKeyMap {
    pub to_navigation_mode: Keys,
    pub to_search_mode: Keys,
}

impl Default for SearchViewKeyMap {
    fn default() -> (res: SearchViewKeyMap)
        ensures
            res.to_navigation_mode.events@ == seq![KeyEvent::Key(KeyCode::Esc)],
            res.to_search_mode.events@ == seq![KeyEvent::Char('i')],
    {
        SearchViewKeyMap {
            to_navigation_mode: Keys::new(vec![KeyEvent::Key(KeyCode::Esc)]),
            to_search_mode: Keys::new(vec![KeyEvent::Char('i')]),
        }
    }
}

/// Key bindings of the comment view.
#[derive(Debug, Clone)]
pub struct CommentViewKeyMap {
    pub next_comment: Keys,
    pub prev_comment: Keys,
    pub next_top_level_comment: Keys,
    pub prev_top_level_comment: Keys,
    pub next_leq_level_comment: Keys,
    pub prev_leq_level_comment: Keys,
    pub parent_comment: Keys,
    pub open_story_in_browser: Keys,
    pub open_comment_in_browser: Keys,
    pub open_article_in_browser: Keys,
    pub open_article_in_article_view: Keys,
    pub open_link_in_browser: Keys,
    pub open_link_in_article_view: Keys,
    pub upvote: Keys,
    pub downvote: Keys,
    pub vouch: Keys,
    pub reply: Keys,
    pub edit: Keys,
    pub toggle_collapse_comment: Keys,
    pub find_in_view: Keys,
    pub find_next_match: Keys,
    pub find_prev_match: Keys,
}

impl Default for CommentViewKeyMap {
    fn default() -> (res: CommentViewKeyMap)
        ensures
            res.next_comment.events@ == seq![KeyEvent::Char('j'), KeyEvent::Key(KeyCode::Down)],
            res.prev_comment.events@ == seq![KeyEvent::Char('k'), KeyEvent::Key(KeyCode::Up)],
            res.next_top_level_comment.events@ == seq![KeyEvent::Char('n')],
            res.prev_top_level_comment.events@ == seq![KeyEvent::Char('p')],
            res.next_leq_level_comment.events@ == seq![KeyEvent::Char('l'), KeyEvent::Key(KeyCode::Right)],
            res.prev_leq_level_comment.events@ == seq![KeyEvent::Char('h'), KeyEvent::Key(KeyCode::Left)],
            res.parent_comment.events@ == seq![KeyEvent::Char('u')],
            res.open_story_in_browser.events@ == seq![KeyEvent::Char('s')],
            res.open_comment_in_browser.events@ == seq![KeyEvent::Char('c')],
            res.open_article_in_browser.events@ == seq![KeyEvent::Char('a')],
            res.open_article_in_article_view.events@ == seq![KeyEvent::Char('A')],
            res.open_link_in_browser.events@ == seq![KeyEvent::Char('o')],
            res.open_link_in_article_view.events@ == seq![KeyEvent::Char('O')],
            res.upvote.events@ == seq![KeyEvent::Char('v')],
            res.downvote.events@ == seq![KeyEvent::Char('V')],
            res.vouch.events@ == seq![KeyEvent::Char('!')],
            res.reply.events@ == seq![KeyEvent::Char('r')],
            res.edit.events@ == seq![KeyEvent::Char('e')],
            res.toggle_collapse_comment.events@ == seq![KeyEvent::Key(KeyCode::Tab)],
            res.find_in_view.events@ == seq![KeyEvent::Char('/'), KeyEvent::CtrlChar('f')],
            res.find_next_match.events@ == seq![KeyEvent::Char('n')],
            res.find_prev_match.events@ == seq![KeyEvent::Char('N')],
    {
        CommentViewKeyMap {
            next_comment: Keys::new(vec![KeyEvent::Char('j'), KeyEvent::Key(KeyCode::Down)]),
            prev_comment: Keys::new(vec![KeyEvent::Char('k'), KeyEvent::Key(KeyCode::Up)]),
            next_top_level_comment: Keys::new(vec![KeyEvent::Char('n')]),
            prev_top_level_comment: Keys::new(vec![KeyEvent::Char('p')]),
            next_leq_level_comment: Keys::new(vec![KeyEvent::Char('l'), KeyEvent::Key(KeyCode::Right)]),
            prev_leq_level_comment: Keys::new(vec![KeyEvent::Char('h'), KeyEvent::Key(KeyCode::Left)]),
            parent_comment: Keys::new(vec![KeyEvent::Char('u')]),
            open_story_in_browser: Keys::new(vec![KeyEvent::Char('s')]),
            open_comment_in_browser: Keys::new(vec![KeyEvent::Char('c')]),
            open_article_in_browser: Keys::new(vec![KeyEvent::Char('a')]),
            open_article_in_article_view: Keys::new(vec![KeyEvent::Char('A')]),
            open_link_in_browser: Keys::new(vec![KeyEvent::Char('o')]),
            open_link_in_article_view: Keys::new(vec![KeyEvent::Char('O')]),
            upvote: Keys::new(vec![KeyEvent::Char('v')]),
            downvote: Keys::new(vec![KeyEvent::Char('V')]),
            vouch: Keys::new(vec![KeyEvent::Char('!')]),
            reply: Keys::new(vec![KeyEvent::Char('r')]),
            edit: Keys::new(vec![KeyEvent::Char('e')]),
            toggle_collapse_comment: Keys::new(vec![KeyEvent::Key(KeyCode::Tab)]),
            find_in_view: Keys::new(vec![KeyEvent::Char('/'), KeyEvent::CtrlChar('f')]),
            find_next_match: Keys::new(vec![KeyEvent::Char('n')]),
            find_prev_match: Keys::new(vec![KeyEvent::Char('N')]),
        }
    }
}

/// Key bindings of the article view.
#[derive(Debug, Clone)]
pub struct ArticleViewKeyMap {
    pub open_link_dialog: Keys,
    pub open_article_in_browser: Keys,
    pub open_link_in_browser: Keys,
    pub open_link_in_article_view: Keys,
    pub find_in_view: Keys,
    pub find_next_match: Keys,
    pub find_prev_match: Keys,
}

impl Default for ArticleViewKeyMap {
    fn default() -> (res: ArticleViewKeyMap)
        ensures
            res.open_link_dialog.events@ == seq![KeyEvent::Char('l')],
            res.open_article_in_browser.events@ == seq![KeyEvent::Char('a')],
            res.open_link_in_browser.events@ == seq![KeyEvent::Char('o')],
            res.open_link_in_article_view.events@ == seq![KeyEvent::Char('O')],
            res.find_in_view.events@ == seq![KeyEvent::Char('/'), KeyEvent::CtrlChar('f')],
            res.find_next_match.events@ == seq![KeyEvent::Char('n')],
            res.find_prev_match.events@ == seq![KeyEvent::Char('N')],
    {
        ArticleViewKeyMap {
            open_link_dialog: Keys::new(vec![KeyEvent::Char('l')]),
            open_article_in_browser: Keys::new(vec![KeyEvent::Char('a')]),
            open_link_in_browser: Keys::new(vec![KeyEvent::Char('o')]),
            open_link_in_article_view: Keys::new(vec![KeyEvent::Char('O')]),
            find_in_view: Keys::new(vec![KeyEvent::Char('/'), KeyEvent::CtrlChar('f')]),
            find_next_match: Keys::new(vec![KeyEvent::Char('n')]),
            find_prev_match: Keys::new(vec![KeyEvent::Char('N')]),
        }
    }
}

/// Key bindings of the link dialog.
#[derive(Debug, Clone)]
pub struct LinkDialogKeyMap {
    pub next: Keys,
    pub prev: Keys,
    pub open_link_in_browser: Keys,
    pub open_link_in_article_view: Keys,
}

impl Default for LinkDialogKeyMap {
    fn default() -> (res: LinkDialogKeyMap)
        ensures
            res.next.events@ == seq![KeyEvent::Char('j'), KeyEvent::Key(KeyCode::Down)],
            res.prev.events@ == seq![KeyEvent::Char('k'), KeyEvent::Key(KeyCode::Up)],
            res.open_link_in_browser.events@ == seq![KeyEvent::Char('o'), KeyEvent::Key(KeyCode::Enter)],
            res.open_link_in_article_view.events@ == seq![KeyEvent::Char('O')],
    {
        LinkDialogKeyMap {
            next: Keys::new(vec![KeyEvent::Char('j'), KeyEvent::Key(KeyCode::Down)]),
            prev: Keys::new(vec![KeyEvent::Char('k'), KeyEvent::Key(KeyCode::Up)]),
            open_link_in_browser: Keys::new(vec![KeyEvent::Char('o'), KeyEvent::Key(KeyCode::Enter)]),
            open_link_in_article_view: Keys::new(vec![KeyEvent::Char('O')]),
        }
    }
}

/// A key bound to a story list of its own: a tag, an order and filters.
#[derive(Debug, Clone)]
pub struct CustomKeyMap {
    pub key: Keys,
    pub tag: String,
    pub by_date: bool,
    pub numeric_filters: crate::query::StoryNumericFilters,
}

/// All key maps of the application.
#[derive(Debug, Clone)]
pub struct KeyMap {
    pub edit_keymap: EditKeyMap,
    pub scroll_keymap: ScrollKeyMap,
    pub global_keymap: GlobalKeyMap,
    pub story_view_keymap: StoryViewKeyMap,
    pub search_view_keymap: SearchViewKeyMap,
    pub comment_view_keymap: CommentViewKeyMap,
    pub article_view_keymap: ArticleViewKeyMap,
    pub link_dialog_keymap: LinkDialogKeyMap,
    pub custom_keymaps: Vec<CustomKeyMap>,
}

impl Default for KeyMap {
    fn default() -> (res: KeyMap)
        ensures
            res.edit_keymap.move_cursor_left.events@ == seq![KeyEvent::Key(KeyCode::Left), KeyEvent::CtrlChar('b')],
            res.edit_keymap.move_cursor_right.events@ == seq![KeyEvent::Key(KeyCode::Right), KeyEvent::CtrlChar('f')],
            res.edit_keymap.move_cursor_to_begin.events@ == seq![KeyEvent::Key(KeyCode::Home), KeyEvent::CtrlChar('a')],
            res.edit_keymap.move_cursor_to_end.events@ == seq![KeyEvent::Key(KeyCode::End), KeyEvent::CtrlChar('e')],
            res.edit_keymap.backward_delete_char.events@ == seq![KeyEvent::Key(KeyCode::Backspace)],
            res.scroll_keymap.up.events@ == seq![KeyEvent::Char('k'), KeyEvent::Key(KeyCode::Up)],
            res.scroll_keymap.down.events@ == seq![KeyEvent::Char('j'), KeyEvent::Key(KeyCode::Down)],
            res.scroll_keymap.page_up.events@ == seq![KeyEvent::Char('u'), KeyEvent::Key(KeyCode::PageUp), KeyEvent::CtrlChar('u')],
            res.scroll_keymap.page_down.events@ == seq![KeyEvent::Char('d'), KeyEvent::Key(KeyCode::PageDown), KeyEvent::CtrlChar('d')],
            res.scroll_keymap.top.events@ == seq![KeyEvent::Char('g'), KeyEvent::Key(KeyCode::Home)],
            res.scroll_keymap.bottom.events@ == seq![KeyEvent::Char('G'), KeyEvent::Key(KeyCode::End)],
            res.global_keymap.open_help_dialog.events@ == seq![KeyEvent::Char('?')],
            res.global_keymap.open_login_dialog.events@ == seq![KeyEvent::Char('L')],
            res.global_keymap.open_my_threads_in_browser.events@ == seq![KeyEvent::Char('T')],
            res.global_keymap.quit.events@ == seq![KeyEvent::Char('q'), KeyEvent::CtrlChar('c')],
            res.global_keymap.close_dialog.events@ == seq![KeyEvent::Key(KeyCode::Esc)],
            res.global_keymap.goto_previous_view.events@ == seq![KeyEvent::Key(KeyCode::Backspace), KeyEvent::CtrlChar('p')],
            res.global_keymap.goto_front_page_view.events@ == seq![KeyEvent::Key(KeyCode::F1)],
            res.global_keymap.goto_search_view.events@ == seq![KeyEvent::CtrlChar('s')],
            res.global_keymap.goto_all_stories_view.events@ == seq![KeyEvent::Key(KeyCode::F2)],
            res.global_keymap.goto_ask_hn_view.events@ == seq![KeyEvent::Key(KeyCode::F3)],
            res.global_keymap.goto_show_hn_view.events@ == seq![KeyEvent::Key(KeyCode::F4)],
            res.global_keymap.goto_jobs_view.events@ == seq![KeyEvent::Key(KeyCode::F5)],
            res.global_keymap.goto_my_threads_view.events@ == seq![KeyEvent::Key(KeyCode::F6)],
            res.story_view_keymap.next_story_tag.events@ == seq![KeyEvent::Char('l'), KeyEvent::Key(KeyCode::Right)],
            res.story_view_keymap.prev_story_tag.events@ == seq![KeyEvent::Char('h'), KeyEvent::Key(KeyCode::Left)],
            res.story_view_keymap.next_story.events@ == seq![KeyEvent::Char('j'), KeyEvent::Key(KeyCode::Down)],
            res.story_view_keymap.prev_story.events@ == seq![KeyEvent::Char('k'), KeyEvent::Key(KeyCode::Up)],
            res.story_view_keymap.goto_story.events@ == seq![KeyEvent::Char('g')],
            res.story_view_keymap.next_page.events@ == seq![KeyEvent::Char('n')],
            res.story_view_keymap.prev_page.events@ == seq![KeyEvent::Char('p')],
            res.story_view_keymap.cycle_sort_mode.events@ == seq![KeyEvent::Char('d')],
            res.story_view_keymap.open_article_in_browser.events@ == seq![KeyEvent::Char('o')],
            res.story_view_keymap.open_article_in_article_view.events@ == seq![KeyEvent::Char('O')],
            res.story_view_keymap.open_story_in_browser.events@ == seq![KeyEvent::Char('s')],
            res.story_view_keymap.goto_story_comment_view.events@ == seq![KeyEvent::Key(KeyCode::Enter)],
            res.story_view_keymap.upvote.events@ == seq![KeyEvent::Char('v')],
            res.story_view_keymap.downvote.events@ == seq![KeyEvent::Char('V')],
            res.story_view_keymap.vouch.events@ == seq![KeyEvent::Char('!')],
            res.story_view_keymap.reply.events@ == seq![KeyEvent::Char('r')],
            res.story_view_keymap.find_in_view.events@ == seq![KeyEvent::Char('/'), KeyEvent::CtrlChar('f')],
            res.story_view_keymap.find_next_match.events@ == seq![KeyEvent::Char('n')],
            res.story_view_keymap.find_prev_match.events@ == seq![KeyEvent::Char('N')],
            res.search_view_keymap.to_navigation_mode.events@ == seq![KeyEvent::Key(KeyCode::Esc)],
            res.search_view_keymap.to_search_mode.events@ == seq![KeyEvent::Char('i')],
            res.comment_view_keymap.next_comment.events@ == seq![KeyEvent::Char('j'), KeyEvent::Key(KeyCode::Down)],
            res.comment_view_keymap.prev_comment.events@ == seq![KeyEvent::Char('k'), KeyEvent::Key(KeyCode::Up)],
            res.comment_view_keymap.next_top_level_comment.events@ == seq![KeyEvent::Char('n')],
            res.comment_view_keymap.prev_top_level_comment.events@ == seq![KeyEvent::Char('p')],
            res.comment_view_keymap.next_leq_level_comment.events@ == seq![KeyEvent::Char('l'), KeyEvent::Key(KeyCode::Right)],
            res.comment_view_keymap.prev_leq_level_comment.events@ == seq![KeyEvent::Char('h'), KeyEvent::Key(KeyCode::Left)],
            res.comment_view_keymap.parent_comment.events@ == seq![KeyEvent::Char('u')],
            res.comment_view_keymap.open_story_in_browser.events@ == seq![KeyEvent::Char('s')],
            res.comment_view_keymap.open_comment_in_browser.events@ == seq![KeyEvent::Char('c')],
            res.comment_view_keymap.open_article_in_browser.events@ == seq![KeyEvent::Char('a')],
            res.comment_view_keymap.open_article_in_article_view.events@ == seq![KeyEvent::Char('A')],
            res.comment_view_keymap.open_link_in_browser.events@ == seq![KeyEvent::Char('o')],
            res.comment_view_keymap.open_link_in_article_view.events@ == seq![KeyEvent::Char('O')],
            res.comment_view_keymap.upvote.events@ == seq![KeyEvent::Char('v')],
            res.comment_view_keymap.downvote.events@ == seq![KeyEvent::Char('V')],
            res.comment_view_keymap.vouch.events@ == seq![KeyEvent::Char('!')],
            res.comment_view_keymap.reply.events@ == seq![KeyEvent::Char('r')],
            res.comment_view_keymap.edit.events@ == seq![KeyEvent::Char('e')],
            res.comment_view_keymap.toggle_collapse_comment.events@ == seq![KeyEvent::Key(KeyCode::Tab)],
            res.comment_view_keymap.find_in_view.events@ == seq![KeyEvent::Char('/'), KeyEvent::CtrlChar('f')],
            res.comment_view_keymap.find_next_match.events@ == seq![KeyEvent::Char('n')],
            res.comment_view_keymap.find_prev_match.events@ == seq![KeyEvent::Char('N')],
            res.article_view_keymap.open_link_dialog.events@ == seq![KeyEvent::Char('l')],
            res.article_view_keymap.open_article_in_browser.events@ == seq![KeyEvent::Char('a')],
            res.article_view_keymap.open_link_in_browser.events@ == seq![KeyEvent::Char('o')],
            res.article_view_keymap.open_link_in_article_view.events@ == seq![KeyEvent::Char('O')],
            res.article_view_keymap.find_in_view.events@ == seq![KeyEvent::Char('/'), KeyEvent::CtrlChar('f')],
            res.article_view_keymap.find_next_match.events@ == seq![KeyEvent::Char('n')],
            res.article_view_keymap.find_prev_match.events@ == seq![KeyEvent::Char('N')],
            res.link_dialog_keymap.next.events@ == seq![KeyEvent::Char('j'), KeyEvent::Key(KeyCode::Down)],
            res.link_dialog_keymap.prev.events@ == seq![KeyEvent::Char('k'), KeyEvent::Key(KeyCode::Up)],
            res.link_dialog_keymap.open_link_in_browser.events@ == seq![KeyEvent::Char('o'), KeyEvent::Key(KeyCode::Enter)],
            res.link_dialog_keymap.open_link_in_article_view.events@ == seq![KeyEvent::Char('O')],
            res.custom_keymaps@.len() == 0,
    {
        KeyMap {
            edit_keymap: EditKeyMap::default(),
            scroll_keymap: ScrollKeyMap::default(),
            global_keymap: GlobalKeyMap::default(),
            story_view_keymap: StoryViewKeyMap::default(),
            search_view_keymap: SearchViewKeyMap::default(),
            comment_view_keymap: CommentViewKeyMap::default(),
            article_view_keymap: ArticleViewKeyMap::default(),
            link_dialog_keymap: LinkDialogKeyMap::default(),
            custom_keymaps: Vec::new(),
        }
    }
}

} // verus!
