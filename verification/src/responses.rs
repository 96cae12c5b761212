//! Responses of the Hacker News APIs and their conversion into stories
//! and flattened comment threads.

use vstd::prelude::*;
use crate::model::{Comment, CommentV, Story, comments_view};
use crate::utils::{decode_html, encode_text, escape_text, html_entities_decoded};

verus! {

/// The Hacker News web host.
pub const HN_HOST_URL: &'static str = "https://news.ycombinator.com";

/// A highlighted search match.
#[derive(Debug, Clone)]
pub struct MatchResult {
    pub value: String,
}

/// Highlighting of a search hit.
#[derive(Debug, Clone)]
pub struct HighlightResultResponse {
    pub title: Option<MatchResult>,
}

/// A story returned by the HN Algolia APIs.
#[derive(Debug, Clone)]
pub struct StoryResponse {
    pub id: u32,
    pub author: Option<String>,
    pub url: Option<String>,
    pub text: Option<String>,
    pub points: u32,
    pub num_comments: usize,
    pub time: u64,
    pub highlight_result: Option<HighlightResultResponse>,
    pub dead: bool,
    pub flagged: bool,
}

/// An item returned by the official HN APIs.
#[derive(Debug, Clone)]
pub struct ItemResponse {
    pub by: Option<String>,
    pub text: Option<String>,
    pub title: Option<String>,
    pub url: Option<String>,
    pub typ: String,
    pub descendants: Option<usize>,
    pub score: Option<u32>,
    pub time: u64,
    pub kids: Vec<u32>,
    pub dead: bool,
    pub flagged: bool,
}

/// A comment thread returned by the HN Algolia APIs.
#[derive(Debug)]
pub struct CommentResponse {
    pub id: u32,
    pub children: Vec<CommentResponse>,
    pub text: Option<String>,
    pub author: Option<String>,
    pub time: u64,
    pub dead: bool,
    pub flagged: bool,
}

/// A page of stories returned by the HN Algolia APIs.
#[derive(Debug, Clone)]
pub struct StoriesResponse {
    pub hits: Vec<StoryResponse>,
}

/// One comment of a user, with its parent story.
#[derive(Debug, Clone)]
pub struct UserCommentResponse {
    pub id: u32,
    pub author: Option<String>,
    pub comment_text: Option<String>,
    pub time: u64,
    pub story_id: Option<u32>,
    pub story_title: Option<String>,
    pub dead: bool,
    pub flagged: bool,
}

/// A page of a user's comments.
#[derive(Debug, Clone)]
pub struct UserCommentsResponse {
    pub hits: Vec<UserCommentResponse>,
}

/// The characters of an optional string, empty when absent.
pub open spec fn opt_chars(s: Option<String>) -> Seq<char> {
    match s {
        Some(x) => x@,
        None => Seq::empty(),
    }
}

fn opt_string(s: &Option<String>) -> (res: String)
    ensures
        res@ == opt_chars(*s),
{
    match s {
        Some(x) => x.clone(),
        None => String::new(),
    }
}

/// A child comment is kept when it has both an author and a text.
pub open spec fn kept(c: CommentResponse) -> bool {
    c.author is Some && c.text is Some
}

/// The value of the comment at the root of `c`, with `n` descendants.
pub open spec fn root_comment_v(c: CommentResponse, n: nat) -> CommentV {
    CommentV {
        id: c.id,
        level: 0,
        n_children: n,
        author: opt_chars(c.author),
        time: c.time,
        content: html_entities_decoded(opt_chars(c.text)),
        dead: c.dead,
        flagged: c.flagged,
        points: None,
        parent_story_id: None,
    }
}

/// Every comment one level deeper.
pub open spec fn bump(s: Seq<CommentV>) -> Seq<CommentV> {
    s.map_values(|x: CommentV| CommentV { level: x.level + 1, ..x })
}

/// The flattened kept descendants under a list of children, in order.
pub open spec fn flat_children(cs: Seq<CommentResponse>) -> Seq<CommentV>
    decreases cs,
{
    if cs.len() == 0 {
        Seq::empty()
    } else {
        flat_children(cs.drop_last()) + (if kept(cs.last()) {
            bump(flat_comment(cs.last()))
        } else {
            Seq::empty()
        })
    }
}

/// A thread flattened in depth-first order: its root comment, then the
/// kept replies one level deeper.
pub open spec fn flat_comment(c: CommentResponse) -> Seq<CommentV>
    decreases c,
{
    let kids = flat_children(c.children@);
    seq![root_comment_v(c, kids.len())] + kids
}


/// The descendants of the comment at `i` are exactly the run of
/// comments right after it that sit deeper than it.
pub open spec fn subtree_ok(s: Seq<CommentV>, i: int) -> bool {
    let n = s[i].n_children as int;
    &&& i + n < s.len()
    &&& forall|j: int| i < j <= i + n ==> #[trigger] s[j].level > s[i].level
    &&& i + n + 1 < s.len() ==> s[i + n + 1].level <= s[i].level
}

/// A depth-first listing of comment trees whose roots sit at level `b`:
/// nothing is shallower than `b`, the first comment is at level `b`, each
/// comment is at most one level deeper than the one before it, and every
/// `n_children` counts the run of deeper comments that follows.
pub open spec fn nested_from(s: Seq<CommentV>, b: nat) -> bool {
    &&& forall|i: int| 0 <= i < s.len() ==> #[trigger] s[i].level >= b
    &&& s.len() > 0 ==> s[0].level == b
    &&& forall|i: int, j: int|
        #![trigger s[i], s[j]]
        0 <= i && j == i + 1 && j < s.len() ==> s[j].level <= s[i].level + 1
    &&& forall|i: int| 0 <= i < s.len() ==> #[trigger] subtree_ok(s, i)
}

proof fn lemma_bump_nested(s: Seq<CommentV>, b: nat)
    requires
        nested_from(s, b),
    ensures
        nested_from(bump(s), b + 1),
        bump(s).len() == s.len(),
{
    let t = bump(s);
    assert forall|i: int| 0 <= i < t.len() implies #[trigger] subtree_ok(t, i) by {
        assert(subtree_ok(s, i));
        let n = s[i].n_children as int;
        assert forall|j: int| i < j <= i + n implies #[trigger] t[j].level > t[i].level by {
            assert(s[j].level > s[i].level);
        }
        if i + n + 1 < t.len() {
            assert(t[i + n + 1].level == s[i + n + 1].level + 1);
        }
    }
    assert forall|i: int, j: int| 0 <= i && j == i + 1 && j < t.len() implies #[trigger] t[j].level
        <= #[trigger] t[i].level + 1 by {
        assert(s[j].level <= s[i].level + 1);
    }
    assert forall|i: int| 0 <= i < t.len() implies #[trigger] t[i].level >= b + 1 by {
        assert(s[i].level >= b);
    }
}

proof fn lemma_concat_nested(a: Seq<CommentV>, c: Seq<CommentV>, b: nat)
    requires
        nested_from(a, b),
        nested_from(c, b),
    ensures
        nested_from(a + c, b),
{
    let s = a + c;
    let la = a.len() as int;
    assert forall|i: int| 0 <= i < s.len() implies #[trigger] s[i].level >= b by {
        if i < la {
            assert(a[i].level >= b);
        } else {
            assert(c[i - la].level >= b);
        }
    }
    assert forall|i: int, j: int| 0 <= i && j == i + 1 && j < s.len() implies #[trigger] s[j].level
        <= #[trigger] s[i].level + 1 by {
        if j < la {
            assert(a[j].level <= a[i].level + 1);
        } else if i >= la {
            assert(c[j - la].level <= c[i - la].level + 1);
        } else {
            assert(a[i].level >= b);
        }
    }
    assert forall|i: int| 0 <= i < s.len() implies #[trigger] subtree_ok(s, i) by {
        if i < la {
            assert(subtree_ok(a, i));
            let n = a[i].n_children as int;
            assert forall|j: int| i < j <= i + n implies #[trigger] s[j].level > s[i].level by {
                assert(a[j].level > a[i].level);
            }
            if i + n + 1 < s.len() {
                if i + n + 1 < la {
                } else {
                    assert(s[i + n + 1] == c[0]);
                    assert(a[i].level >= b);
                }
            }
        } else {
            assert(subtree_ok(c, i - la));
            let n = c[i - la].n_children as int;
            assert forall|j: int| i < j <= i + n implies #[trigger] s[j].level > s[i].level by {
                assert(c[j - la].level > c[i - la].level);
            }
            if i + n + 1 < s.len() {
                assert(s[i + n + 1] == c[i - la + n + 1]);
            }
        }
    }
}

proof fn lemma_root_nested(r: CommentV, k: Seq<CommentV>)
    requires
        nested_from(k, 1),
        r.level == 0,
        r.n_children == k.len(),
    ensures
        nested_from(seq![r] + k, 0),
{
    let s = seq![r] + k;
    assert forall|i: int, j: int| 0 <= i && j == i + 1 && j < s.len() implies #[trigger] s[j].level
        <= #[trigger] s[i].level + 1 by {
        if i == 0 {
            assert(s[j] == k[0]);
        } else {
            assert(k[j - 1].level <= k[i - 1].level + 1);
        }
    }
    assert forall|i: int| 0 <= i < s.len() implies #[trigger] subtree_ok(s, i) by {
        if i == 0 {
            assert forall|j: int| 0 < j <= k.len() implies #[trigger] s[j].level > s[0].level by {
                assert(k[j - 1].level >= 1);
            }
        } else {
            assert(subtree_ok(k, i - 1));
            let n = k[i - 1].n_children as int;
            assert forall|j: int| i < j <= i + n implies #[trigger] s[j].level > s[i].level by {
                assert(k[j - 1].level > k[i - 1].level);
            }
            if i + n + 1 < s.len() {
                assert(s[i + n + 1] == k[i - 1 + n + 1]);
            }
        }
    }
}

proof fn lemma_flat_children_nested(cs: Seq<CommentResponse>)
    ensures
        nested_from(flat_children(cs), 1),
    decreases cs,
{
    if cs.len() > 0 {
        lemma_flat_children_nested(cs.drop_last());
        let last = cs.last();
        if kept(last) {
            lemma_flat_comment_nested(last);
            lemma_bump_nested(flat_comment(last), 0);
            lemma_concat_nested(flat_children(cs.drop_last()), bump(flat_comment(last)), 1);
        } else {
            assert(flat_children(cs.drop_last()) + Seq::<CommentV>::empty() =~= flat_children(
                cs.drop_last(),
            ));
        }
    }
}

proof fn lemma_flat_comment_nested(c: CommentResponse)
    ensures
        nested_from(flat_comment(c), 0),
    decreases c,
{
    lemma_flat_children_nested(c.children@);
    lemma_root_nested(root_comment_v(c, flat_children(c.children@).len()), flat_children(c.children@));
}

/// Thread flattening nests correctly: the comments of a flattened thread
/// form one depth-first tree rooted at level 0, the root counts every
/// other comment as a descendant, and each comment's `n_children` is the
/// run of deeper comments after it (the same count the page scraper
/// derives from indentation).
pub proof fn flat_comment_is_nested(c: CommentResponse)
    ensures
        nested_from(flat_comment(c), 0),
        flat_comment(c).len() >= 1,
        flat_comment(c)[0].n_children == flat_comment(c).len() - 1,
{
    lemma_flat_comment_nested(c);
}

/// In a nested listing no comment is deeper than its position allows.
pub proof fn nested_level_bound(s: Seq<CommentV>, b: nat, i: int)
    requires
        nested_from(s, b),
        0 <= i < s.len(),
    ensures
        s[i].level <= b + i,
    decreases i,
{
    if i > 0 {
        nested_level_bound(s, b, i - 1);
        assert(s[i].level <= s[i - 1].level + 1);
    }
}


/// A copy of a comment one level deeper.
fn deeper(x: &Comment) -> (res: Comment)
    requires
        x.level < usize::MAX,
    ensures
        res@ == (CommentV { level: x@.level + 1, ..x@ }),
{
    Comment {
        id: x.id,
        level: x.level + 1,
        n_children: x.n_children,
        author: x.author.clone(),
        time: x.time,
        content: x.content.clone(),
        dead: x.dead,
        flagged: x.flagged,
        points: x.points,
        parent_story_id: x.parent_story_id,
    }
}

/// Flattens a comment thread in depth-first order (`Vec<Comment>: From<CommentResponse>`).
/// Replies without an author or a text are dropped with their subtree;
/// each reply sits one level below its parent and every comment counts
/// its kept descendants.
pub fn comments_from_response(c: &CommentResponse) -> (res: Vec<Comment>)
    ensures
        comments_view(res@) == flat_comment(*c),
    decreases c,
{
    let mut kids: Vec<Comment> = Vec::new();
    let mut i: usize = 0;
    while i < c.children.len()
        invariant
            i <= c.children.len(),
            comments_view(kids@) == flat_children(c.children@.take(i as int)),
        decreases c.children.len() - i,
    {
        let child = &c.children[i];
        assert(c.children@.take(i + 1).drop_last() =~= c.children@.take(i as int));
        assert(c.children@.take(i + 1).last() == *child);
        if child.author.is_some() && child.text.is_some() {
            assert(decreases_to!(*c => c.children@[i as int]));
            let sub = comments_from_response(child);
            proof {
                flat_comment_is_nested(*child);
            }
            let ghost before = comments_view(kids@);
            let mut j: usize = 0;
            while j < sub.len()
                invariant
                    j <= sub.len(),
                    comments_view(sub@) == flat_comment(*child),
                    nested_from(comments_view(sub@), 0),
                    comments_view(kids@) == before + bump(comments_view(sub@)).take(j as int),
                decreases sub.len() - j,
            {
                proof {
                    nested_level_bound(comments_view(sub@), 0, j as int);
                    assert(comments_view(sub@)[j as int] == sub@[j as int]@);
                }
                let d = deeper(&sub[j]);
                let ghost kv0 = kids@;
                kids.push(d);
                assert(comments_view(kids@) =~= comments_view(kv0).push(d@));
                assert(bump(comments_view(sub@))[j as int] == d@);
                assert(bump(comments_view(sub@)).take(j + 1) =~= bump(comments_view(sub@)).take(
                    j as int,
                ).push(d@));
                assert(comments_view(kids@) =~= before + bump(comments_view(sub@)).take(
                    j + 1,
                ));
                j += 1;
            }
            assert(bump(comments_view(sub@)).take(sub.len() as int) =~= bump(comments_view(sub@)));
        } else {
            assert(comments_view(kids@) =~= flat_children(c.children@.take(i as int))
                + Seq::<CommentV>::empty());
        }
        i += 1;
    }
    assert(c.children@.take(c.children.len() as int) =~= c.children@);
    let text = opt_string(&c.text);
    let root = Comment {
        id: c.id,
        level: 0,
        n_children: kids.len(),
        author: opt_string(&c.author),
        time: c.time,
        content: decode_html(text.as_str()),
        dead: c.dead,
        flagged: c.flagged,
        points: None,
        parent_story_id: None,
    };
    let mut res: Vec<Comment> = Vec::new();
    res.push(root);
    let ghost kv = comments_view(kids@);
    res.append(&mut kids);
    assert(comments_view(res@) =~= seq![root@] + kv);
    res
}


/// The highlighted title of a search hit, empty when absent.
pub open spec fn hit_title(s: StoryResponse) -> Seq<char> {
    match s.highlight_result {
        Some(h) => match h.title {
            Some(m) => m.value@,
            None => Seq::empty(),
        },
        None => Seq::empty(),
    }
}

/// `story` is the story made of the search hit `s`.
pub open spec fn story_of_hit(story: Story, s: StoryResponse) -> bool {
    &&& story.id == s.id
    &&& story.url@ == opt_chars(s.url)
    &&& story.author@ == opt_chars(s.author)
    &&& story.points == s.points
    &&& story.num_comments == s.num_comments
    &&& story.time == s.time
    &&& story.title@ == html_entities_decoded(hit_title(s))
    &&& story.content@ == html_entities_decoded(opt_chars(s.text))
    &&& story.dead == s.dead
    &&& story.flagged == s.flagged
}

/// Converts a highlighted search hit into a story (`Story: From<StoryResponse>`):
/// the title and text are HTML-decoded, absent strings become empty.
pub fn story_from_response(s: &StoryResponse) -> (res: Story)
    requires
        s.highlight_result is Some,
    ensures
        story_of_hit(res, *s),
{
    let title = match &s.highlight_result {
        Some(h) => match &h.title {
            Some(m) => m.value.clone(),
            None => String::new(),
        },
        None => String::new(),
    };
    let text = opt_string(&s.text);
    Story {
        url: opt_string(&s.url),
        author: opt_string(&s.author),
        id: s.id,
        points: s.points,
        num_comments: s.num_comments,
        time: s.time,
        title: decode_html(title.as_str()),
        content: decode_html(text.as_str()),
        dead: s.dead,
        flagged: s.flagged,
    }
}

/// The hits that carry a highlight result, in order.
pub open spec fn highlighted_hits(hits: Seq<StoryResponse>) -> Seq<StoryResponse> {
    hits.filter(|h: StoryResponse| h.highlight_result is Some)
}

/// Converts a page of search hits into stories (`Vec<Story>: From<StoriesResponse>`),
/// keeping only the hits that carry a highlight result, in order.
pub fn stories_from_response(r: &StoriesResponse) -> (res: Vec<Story>)
    ensures
        res.len() == highlighted_hits(r.hits@).len(),
        forall|i: int|
            0 <= i < res.len() ==> story_of_hit(#[trigger] res@[i], highlighted_hits(r.hits@)[i]),
{
    let mut res: Vec<Story> = Vec::new();
    let mut i: usize = 0;
    while i < r.hits.len()
        invariant
            i <= r.hits.len(),
            res.len() == highlighted_hits(r.hits@.take(i as int)).len(),
            forall|k: int|
                0 <= k < res.len() ==> story_of_hit(
                    #[trigger] res@[k],
                    highlighted_hits(r.hits@.take(i as int))[k],
                ),
        decreases r.hits.len() - i,
    {
        let ghost prev = r.hits@.take(i as int);
        assert(r.hits@.take(i + 1) =~= prev.push(r.hits@[i as int]));
        reveal_with_fuel(Seq::filter, 1);
        assert(prev.push(r.hits@[i as int]).drop_last() =~= prev);
        assert(highlighted_hits(prev.push(r.hits@[i as int])) == (if r.hits@[i as int].highlight_result is Some {
            highlighted_hits(prev).push(r.hits@[i as int])
        } else {
            highlighted_hits(prev)
        }));
        if r.hits[i].highlight_result.is_some() {
            let st = story_from_response(&r.hits[i]);
            res.push(st);
        }
        i += 1;
    }
    assert(r.hits@.take(r.hits.len() as int) =~= r.hits@);
    res
}

impl UserCommentResponse {
    /// The comment's id.
    pub fn id(&self) -> (res: u32)
        ensures
            res == self.id,
    {
        self.id
    }

    /// HTML snippet linking back to the parent thread; empty when the
    /// parent story is unknown.
    pub fn story_header_html(&self) -> (res: String)
        ensures
            res@ == story_header_spec(*self),
    {
        match self.story_id {
            None => String::new(),
            Some(sid) => {
                let title = match &self.story_title {
                    Some(t) => encode_text(t.as_str()),
                    None => String::from_str("parent thread"),
                };
                let mut out = String::from_str("<p><i>re: <a href=\"");
                out.append(HN_HOST_URL);
                out.append("/item?id=");
                let id_text = crate::text::decimal_string(sid as u64);
                out.append(id_text.as_str());
                out.append("\">");
                out.append(title.as_str());
                out.append("</a></i></p>");
                out
            },
        }
    }

    /// The comment alone, as a level-0 comment without replies, with the
    /// parent-thread header in front of its text. `None` when the author
    /// or the text is missing.
    pub fn into_root_comment(self) -> (res: Option<Comment>)
        ensures
            root_comment_spec(self, res),
    {
        root_comment_of(&self)
    }
}

fn root_comment_of(c: &UserCommentResponse) -> (res: Option<Comment>)
    ensures
        root_comment_spec(*c, res),
{
    let header = c.story_header_html();
    let author = match &c.author {
        Some(a) => a.clone(),
        None => return None,
    };
    let text = match &c.comment_text {
        Some(t) => t,
        None => return None,
    };
    let content = header.concat(text.as_str());
    Some(Comment {
        id: c.id,
        level: 0,
        n_children: 0,
        time: c.time,
        author,
        content: decode_html(content.as_str()),
        dead: c.dead,
        flagged: c.flagged,
        points: None,
        parent_story_id: None,
    })
}

/// The hits of a user's comment listing that have an author and a text.
pub open spec fn complete_user_hits(hits: Seq<UserCommentResponse>) -> Seq<UserCommentResponse> {
    hits.filter(|h: UserCommentResponse| h.author is Some && h.comment_text is Some)
}

/// Converts a user's comment listing into root comments
/// (`Vec<Comment>: From<UserCommentsResponse>`), dropping the hits that
/// miss an author or a text.
pub fn comments_from_user_comments(r: &UserCommentsResponse) -> (res: Vec<Comment>)
    ensures
        res.len() == complete_user_hits(r.hits@).len(),
        forall|i: int|
            0 <= i < res.len() ==> root_comment_spec(
                #[trigger] complete_user_hits(r.hits@)[i],
                Some(res@[i]),
            ),
{
    let mut res: Vec<Comment> = Vec::new();
    let mut i: usize = 0;
    while i < r.hits.len()
        invariant
            i <= r.hits.len(),
            res.len() == complete_user_hits(r.hits@.take(i as int)).len(),
            forall|k: int|
                0 <= k < res.len() ==> root_comment_spec(
                    #[trigger] complete_user_hits(r.hits@.take(i as int))[k],
                    Some(res@[k]),
                ),
        decreases r.hits.len() - i,
    {
        let ghost prev = r.hits@.take(i as int);
        assert(r.hits@.take(i + 1) =~= prev.push(r.hits@[i as int]));
        reveal_with_fuel(Seq::filter, 1);
        assert(prev.push(r.hits@[i as int]).drop_last() =~= prev);
        match root_comment_of(&r.hits[i]) {
            Some(c) => {
                res.push(c);
            },
            None => {},
        }
        i += 1;
    }
    assert(r.hits@.take(r.hits.len() as int) =~= r.hits@);
    res
}

/// The parent-thread header of a user's comment.
pub open spec fn story_header_spec(c: UserCommentResponse) -> Seq<char> {
    match c.story_id {
        None => Seq::empty(),
        Some(sid) => "<p><i>re: <a href=\""@ + HN_HOST_URL@ + "/item?id="@
            + crate::text::decimal(sid as nat) + "\">"@ + (match c.story_title {
            Some(t) => escape_text(t@),
            None => "parent thread"@,
        }) + "</a></i></p>"@,
    }
}

/// `res` is the root comment made of the user's comment `c`.
pub open spec fn root_comment_spec(c: UserCommentResponse, res: Option<Comment>) -> bool {
    if c.author is Some && c.comment_text is Some {
        &&& res is Some
        &&& res->0@ == (CommentV {
            id: c.id,
            level: 0,
            n_children: 0,
            author: c.author->0@,
            time: c.time,
            content: html_entities_decoded(story_header_spec(c) + c.comment_text->0@),
            dead: c.dead,
            flagged: c.flagged,
            points: None,
            parent_story_id: None,
        })
    } else {
        res is None
    }
}

} // verus!
