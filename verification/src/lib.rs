//! Core logic of a Hacker News terminal client: story queries, comment
//! trees, text rendering, key bindings and page scraping, with contracts
//! proved by Verus.

pub mod text;
pub mod model;
pub mod responses;
pub mod utils;
pub mod theme;
pub mod styled;
pub mod find;
pub mod comment_view;
pub mod query;
pub mod links;
pub mod config;
pub mod markup;
pub mod html;
pub mod items;
pub mod scan;
pub mod hn_page;
pub mod vote_page;
pub mod hn_forms;
pub mod profile;
pub mod requests;
pub mod keys;
pub mod keymap;
pub mod reply;
pub mod article;
pub mod article_view;
pub mod comment_keys;
pub mod story_view;
pub mod dialogs;
pub mod bars;
