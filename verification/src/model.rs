//! Stories, comments and the per-item vote and vouch state.

use vstd::prelude::*;
use crate::styled::{StyledText, source_of};
use crate::theme::{ComponentStyle, Style};

verus! {

/// A story as shown in a story list.
#[derive(Debug, Clone)]
pub struct Story {
    pub id: u32,
    pub url: String,
    pub author: String,
    pub points: u32,
    pub num_comments: usize,
    pub time: u64,
    pub title: String,
    pub content: String,
    /// HN flagged the story as dead.
    pub dead: bool,
    /// HN shows a `[flagged]` badge on the byline.
    pub flagged: bool,
}

/// A comment, flattened out of its thread: `level` is its depth and
/// `n_children` the number of its descendants.
#[derive(Debug, Clone)]
pub struct Comment {
    pub id: u32,
    pub level: usize,
    pub n_children: usize,
    pub author: String,
    pub time: u64,
    pub content: String,
    pub dead: bool,
    pub flagged: bool,
    /// Score in points; only known for the viewer's own comments.
    pub points: Option<u32>,
    /// Id of the parent story, set by the threads view.
    pub parent_story_id: Option<u32>,
}

/// The mathematical value of a comment.
pub struct CommentV {
    pub id: u32,
    pub level: nat,
    pub n_children: nat,
    pub author: Seq<char>,
    pub time: u64,
    pub content: Seq<char>,
    pub dead: bool,
    pub flagged: bool,
    pub points: Option<u32>,
    pub parent_story_id: Option<u32>,
}

impl View for Comment {
    type V = CommentV;

    open spec fn view(&self) -> CommentV {
        CommentV {
            id: self.id,
            level: self.level as nat,
            n_children: self.n_children as nat,
            author: self.author@,
            time: self.time,
            content: self.content@,
            dead: self.dead,
            flagged: self.flagged,
            points: self.points,
            parent_story_id: self.parent_story_id,
        }
    }
}

/// The values of a list of comments.
pub open spec fn comments_view(v: Seq<Comment>) -> Seq<CommentV> {
    v.map_values(|c: Comment| c@)
}

/// Direction of a vote.
#[derive(Debug, Clone, Copy, PartialEq, Eq, Structural)]
pub enum VoteDirection {
    Up,
    Down,
}

impl VoteDirection {
    /// The `how` query parameter value expected by HN's `/vote` endpoint.
    pub fn as_how_param(self) -> (res: &'static str)
        ensures
            res@ == (match self {
                VoteDirection::Up => "up"@,
                VoteDirection::Down => "down"@,
            }),
    {
        match self {
            VoteDirection::Up => "up",
            VoteDirection::Down => "down",
        }
    }
}

/// The viewer's vote state on one item.
#[derive(Debug, Clone)]
pub struct VoteData {
    pub auth: String,
    /// The viewer's current vote, or `None`.
    pub vote: Option<VoteDirection>,
    /// HN rendered a downvote arrow for this item.
    pub can_downvote: bool,
}

/// The viewer's vouch state on one dead item.
#[derive(Debug, Clone)]
pub struct VouchData {
    pub auth: String,
    /// HN rendered `[unvouch]`: the viewer has already vouched.
    pub vouched: bool,
}

/// How an item of a comment list is displayed.
#[derive(Debug, Clone, Copy, PartialEq, Eq, Structural)]
pub enum DisplayState {
    Hidden,
    Minimized,
    Normal,
}

/// An article extracted from a web page in reader mode.
#[derive(Debug, Clone)]
pub struct Article {
    pub title: String,
    pub url: String,
    pub content: String,
    pub author: Option<String>,
    pub date_published: Option<String>,
}


/// An item of a comment list: a story or a comment, with its rendered
/// text and the text shown when it is collapsed.
#[derive(Debug, Clone)]
pub struct HnItem {
    pub id: u32,
    pub level: usize,
    pub display_state: DisplayState,
    pub links: Vec<String>,
    pub author: Option<String>,
    pub text: StyledText,
    pub minimized_text: StyledText,
    /// Id of the parent story, set by the threads view.
    pub parent_story_id: Option<u32>,
}

/// The vote arrows shown in front of an item: none without vote data;
/// otherwise an up arrow (styled when upvoted), a down arrow when the
/// viewer may downvote or has downvoted (styled when downvoted), and a
/// space.
pub open spec fn vote_prefix(vote: Option<VoteData>, cs: ComponentStyle) -> Seq<(Seq<char>, Style)> {
    match vote {
        None => seq![(Seq::<char>::empty(), Style::plain_spec())],
        Some(v) => {
            let up = if v.vote == Some(VoteDirection::Up) {
                seq![("▲"@, cs.upvote)]
            } else {
                seq![("▲"@, Style::plain_spec())]
            };
            let down = if v.can_downvote || v.vote == Some(VoteDirection::Down) {
                if v.vote == Some(VoteDirection::Down) {
                    seq![("▼"@, cs.downvote)]
                } else {
                    seq![("▼"@, Style::plain_spec())]
                }
            } else {
                Seq::empty()
            };
            up + down + seq![(" "@, Style::plain_spec())]
        },
    }
}

/// The text an item displays in its state, behind the vote arrows.
pub open spec fn item_text(item: HnItem, vote: Option<VoteData>, cs: ComponentStyle) -> Seq<(Seq<char>, Style)> {
    vote_prefix(vote, cs) + (if item.display_state == DisplayState::Minimized {
        item.minimized_text@
    } else {
        item.text@
    })
}

impl HnItem {
    /// A placeholder root item showing `text` verbatim.
    pub fn synthetic_root(text: StyledText) -> (res: HnItem)
        ensures
            res.id == 0,
            res.level == 0,
            res.display_state == DisplayState::Normal,
            res.links@.len() == 0,
            res.author is None,
            res.text@ == text@,
            res.minimized_text@ == text@,
            res.parent_story_id is None,
    {
        let minimized = crate::find::copy_text(&text);
        HnItem {
            id: 0,
            level: 0,
            display_state: DisplayState::Normal,
            links: Vec::new(),
            author: None,
            text,
            minimized_text: minimized,
            parent_story_id: None,
        }
    }

    /// The item's rendered body without styles.
    pub fn plain_text(&self) -> (res: String)
        ensures
            res@ == source_of(self.text@),
    {
        self.text.source()
    }

    /// The text to display for the item in its current state, behind the
    /// vote arrows. A hidden item has no text to display.
    pub fn text(&self, vote: Option<&VoteData>, cs: &ComponentStyle) -> (res: StyledText)
        requires
            self.display_state != DisplayState::Hidden,
        ensures
            res@ == item_text(
                *self,
                match vote {
                    Some(v) => Some(*v),
                    None => None,
                },
                *cs,
            ),
    {
        let body = if self.display_state == DisplayState::Minimized {
            crate::find::copy_text(&self.minimized_text)
        } else {
            crate::find::copy_text(&self.text)
        };
        let mut res = match vote {
            None => {
                let t = StyledText::plain("");
                proof {
                    reveal_strlit("");
                    assert(""@ =~= Seq::<char>::empty());
                }
                assert(t@ =~= vote_prefix(None, *cs));
                t
            },
            Some(v) => {
                let mut s = StyledText::new();
                let is_up = match v.vote {
                    Some(VoteDirection::Up) => true,
                    _ => false,
                };
                let is_down = match v.vote {
                    Some(VoteDirection::Down) => true,
                    _ => false,
                };
                if is_up {
                    s.append_styled("▲", cs.upvote);
                } else {
                    s.append_plain("▲");
                }
                if v.can_downvote || is_down {
                    if is_down {
                        s.append_styled("▼", cs.downvote);
                    } else {
                        s.append_plain("▼");
                    }
                }
                s.append_plain(" ");
                assert(s@ =~= vote_prefix(Some(*v), *cs));
                s
            },
        };
        proof {
            reveal_strlit("▲");
            reveal_strlit("▼");
            reveal_strlit(" ");
            reveal_strlit("");
        }
        let ghost pre = res@;
        res.append(body);
        assert(pre == vote_prefix(
                match vote {
                    Some(v) => Some(*v),
                    None => None,
                },
                *cs,
            ));
        res
    }
}

} // verus!
