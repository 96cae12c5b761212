//! The texts exchanged with the user's editor when replying to an item or
//! editing a comment: the scaffold written to the scratch file, and the
//! body read back from it (everything above the scissors line, trimmed).

use vstd::prelude::*;
use crate::theme::{trim, trim_end};

verus! {

/// What the comment view asks the main loop to do with the editor.
#[derive(Debug, Clone)]
pub enum PendingAction {
    /// Reply to an item, quoting its text; come back to `return_to_id`.
    ReplyTo { parent_id: u32, parent_content: String, return_to_id: u32 },
    /// Edit one of the viewer's comments; come back to `return_to_id`.
    EditComment { comment_id: u32, return_to_id: u32 },
}

/// The line that ends the body of the scratch file.
pub const SCISSORS: &'static str = "# ------ >8 ------";

/// The pieces of `s` between line feeds; there is always at least one.
pub open spec fn split_lf(s: Seq<char>) -> Seq<Seq<char>>
    decreases s.len(),
{
    if s.len() == 0 {
        seq![Seq::empty()]
    } else {
        let p = split_lf(s.drop_last());
        if s.last() == '\n' {
            p.push(Seq::empty())
        } else {
            p.update(p.len() - 1, p.last().push(s.last()))
        }
    }
}

/// A line without the carriage return that ended it.
pub open spec fn strip_cr(l: Seq<char>) -> Seq<char> {
    if l.len() > 0 && l.last() == '\r' {
        l.drop_last()
    } else {
        l
    }
}

/// The lines of `s` as `str::lines` gives them: split at line feeds, a
/// carriage return before a line feed dropped, no line after a final line
/// feed, no line at all for an empty text.
pub open spec fn text_lines(s: Seq<char>) -> Seq<Seq<char>> {
    let p = split_lf(s);
    let n: int = if s.len() == 0 {
        0
    } else if s.last() == '\n' {
        p.len() - 1
    } else {
        p.len() as int
    };
    Seq::new(
        n as nat,
        |i: int|
            if i < p.len() - 1 {
                strip_cr(p[i])
            } else {
                p[i]
            },
    )
}

/// The quoted lines of the parent in a reply scaffold: each as `# > line`,
/// or `# > (empty)` when the parent has no line.
pub open spec fn quoted(ls: Seq<Seq<char>>) -> Seq<char>
    decreases ls.len(),
{
    if ls.len() == 0 {
        Seq::empty()
    } else {
        quoted(ls.drop_last()) + "# > "@ + ls.last() + "\n"@
    }
}

/// The scratch file for a reply: an empty body line, the scissors, the
/// instructions and the quoted parent.
pub open spec fn reply_scaffold_spec(parent: Seq<char>) -> Seq<char> {
    let ls = text_lines(parent);
    "\n"@ + "# ------ >8 ------"@ + "\n"@ + "# Write your reply above the scissors line.\n"@
        + "# Save and exit to submit; leave it blank to abort.\n"@ + "#\n"@ + "# Replying to:\n"@ + "#\n"@ + (if ls.len()
        == 0 {
        "# > (empty)\n"@
    } else {
        quoted(ls)
    })
}

/// The scratch file for an edit: the current text, a line feed, the
/// scissors and the instructions.
pub open spec fn edit_scaffold_spec(current: Seq<char>) -> Seq<char> {
    current + "\n"@ + "# ------ >8 ------"@ + "\n"@ + "# Edit your comment above the scissors line.\n"@
        + "# Save unchanged to cancel; clear the body to cancel.\n"@
}

/// The lines before the first one that is the scissors line (ignoring
/// trailing white space).
pub open spec fn before_scissors(ls: Seq<Seq<char>>, k: int) -> Seq<Seq<char>>
    decreases ls.len() - k,
{
    if k < 0 || k >= ls.len() || trim_end(ls[k]) == "# ------ >8 ------"@ {
        Seq::empty()
    } else {
        seq![ls[k]] + before_scissors(ls, k + 1)
    }
}

/// Lines joined with line feeds.
pub open spec fn join_lines(ls: Seq<Seq<char>>) -> Seq<char>
    decreases ls.len(),
{
    if ls.len() == 0 {
        Seq::empty()
    } else if ls.len() == 1 {
        ls[0]
    } else {
        join_lines(ls.drop_last()) + "\n"@ + ls.last()
    }
}

/// The body of an edited scratch file: the lines above the scissors line,
/// joined, trimmed.
pub open spec fn stripped_body(s: Seq<char>) -> Seq<char> {
    trim(join_lines(before_scissors(text_lines(s), 0)))
}

/// The characters of each piece.
pub open spec fn pieces_view(v: Seq<Vec<char>>) -> Seq<Seq<char>> {
    v.map_values(|x: Vec<char>| x@)
}

fn split_lf_exec(s: &Vec<char>) -> (res: Vec<Vec<char>>)
    ensures
        pieces_view(res@) == split_lf(s@),
{
    let mut done: Vec<Vec<char>> = Vec::new();
    let mut cur: Vec<char> = Vec::new();
    let mut k: usize = 0;
    assert(s@.take(0) =~= Seq::<char>::empty());
    assert(pieces_view(done@).push(cur@) =~= split_lf(s@.take(0)));
    while k < s.len()
        invariant
            k <= s@.len(),
            pieces_view(done@).push(cur@) == split_lf(s@.take(k as int)),
        decreases s.len() - k,
    {
        assert(s@.take(k + 1).drop_last() =~= s@.take(k as int));
        let ghost before = pieces_view(done@).push(cur@);
        if s[k] == '\n' {
            let piece = cur;
            done.push(piece);
            cur = Vec::new();
            assert(pieces_view(done@).push(cur@) =~= before.push(Seq::empty()));
        } else {
            cur.push(s[k]);
            assert(pieces_view(done@).push(cur@) =~= before.update(before.len() - 1, before.last().push(s@[k as int])));
        }
        k += 1;
    }
    assert(s@.take(s@.len() as int) =~= s@);
    done.push(cur);
    assert(pieces_view(done@) =~= split_lf(s@));
    done
}

proof fn lemma_split_nonempty(s: Seq<char>)
    ensures
        split_lf(s).len() >= 1,
    decreases s.len(),
{
    if s.len() > 0 {
        lemma_split_nonempty(s.drop_last());
    }
}

fn strip_cr_exec(l: &Vec<char>) -> (res: Vec<char>)
    ensures
        res@ == strip_cr(l@),
{
    let n = l.len();
    let keep = if n > 0 && l[n - 1] == '\r' {
        n - 1
    } else {
        n
    };
    let mut v: Vec<char> = Vec::new();
    let mut k: usize = 0;
    while k < keep
        invariant
            k <= keep <= l@.len(),
            v@ == l@.take(k as int),
        decreases keep - k,
    {
        v.push(l[k]);
        k += 1;
        assert(v@ =~= l@.take(k as int));
    }
    assert(v@ =~= strip_cr(l@));
    v
}

/// The lines of a text, as `str::lines` gives them.
pub fn lines_of(s: &Vec<char>) -> (res: Vec<Vec<char>>)
    ensures
        pieces_view(res@) == text_lines(s@),
{
    let p = split_lf_exec(s);
    proof {
        lemma_split_nonempty(s@);
    }
    let n: usize = if s.len() == 0 {
        0
    } else if s[s.len() - 1] == '\n' {
        p.len() - 1
    } else {
        p.len()
    };
    let mut out: Vec<Vec<char>> = Vec::new();
    let mut i: usize = 0;
    while i < n
        invariant
            i <= n,
            n <= p@.len(),
            pieces_view(p@) == split_lf(s@),
            n as int == (if s@.len() == 0 {
                0
            } else if s@.last() == '\n' {
                p@.len() - 1
            } else {
                p@.len() as int
            }),
            pieces_view(out@) == text_lines(s@).take(i as int),
        decreases n - i,
    {
        let line = if i + 1 < p.len() {
            strip_cr_exec(&p[i])
        } else {
            strip_cr_keep(&p[i])
        };
        assert(p@[i as int]@ == pieces_view(p@)[i as int]);
        assert(line@ == text_lines(s@)[i as int]);
        let ghost o0 = pieces_view(out@);
        let ghost lv = line@;
        out.push(line);
        assert(pieces_view(out@) =~= o0.push(lv));
        assert(text_lines(s@).take(i + 1) =~= text_lines(s@).take(i as int).push(lv));
        i += 1;
    }
    assert(text_lines(s@).take(n as int) =~= text_lines(s@));
    out
}

fn strip_cr_keep(l: &Vec<char>) -> (res: Vec<char>)
    ensures
        res@ == l@,
{
    let mut v: Vec<char> = Vec::new();
    let mut k: usize = 0;
    while k < l.len()
        invariant
            k <= l@.len(),
            v@ == l@.take(k as int),
        decreases l.len() - k,
    {
        v.push(l[k]);
        k += 1;
        assert(v@ =~= l@.take(k as int));
    }
    assert(l@.take(l@.len() as int) =~= l@);
    v
}

/// The scratch file written for a reply to `parent`.
pub fn reply_scaffold(parent: &str) -> (res: String)
    ensures
        res@ == reply_scaffold_spec(parent@),
{
    let pc = crate::text::chars_of(parent);
    let ls = lines_of(&pc);
    let mut s = String::from_str("\n");
    s.append(SCISSORS);
    s.append("\n");
    s.append("# Write your reply above the scissors line.\n");
    s.append("# Save and exit to submit; leave it blank to abort.\n");
    s.append("#\n");
    s.append("# Replying to:\n");
    s.append("#\n");
    let ghost head = s@;
    if ls.len() == 0 {
        s.append("# > (empty)\n");
    } else {
        let mut k: usize = 0;
        while k < ls.len()
            invariant
                k <= ls@.len(),
                s@ == head + quoted(pieces_view(ls@).take(k as int)),
            decreases ls.len() - k,
        {
            assert(pieces_view(ls@).take(k + 1).drop_last() =~= pieces_view(ls@).take(k as int));
            s.append("# > ");
            let line = crate::text::string_of(ls[k].as_slice());
            s.append(line.as_str());
            s.append("\n");
            k += 1;
            assert(s@ =~= head + quoted(pieces_view(ls@).take(k as int)));
        }
        assert(pieces_view(ls@).take(ls@.len() as int) =~= pieces_view(ls@));
    }
    proof {
        reveal_strlit("# ------ >8 ------");
    }
    s
}

/// The scratch file written for an edit of a comment whose text is
/// `current`.
pub fn edit_scaffold(current: &str) -> (res: String)
    ensures
        res@ == edit_scaffold_spec(current@),
{
    let mut s = String::from_str(current);
    s.append("\n");
    s.append(SCISSORS);
    s.append("\n");
    s.append("# Edit your comment above the scissors line.\n");
    s.append("# Save unchanged to cancel; clear the body to cancel.\n");
    proof {
        reveal_strlit("# ------ >8 ------");
    }
    s
}

/// The body of an edited scratch file: the lines above the scissors line,
/// joined with line feeds and trimmed.
pub fn read_and_strip(text: &str) -> (res: String)
    ensures
        res@ == stripped_body(text@),
{
    let tc = crate::text::chars_of(text);
    let ls = lines_of(&tc);
    let sc = crate::text::chars_of(SCISSORS);
    let ghost lv = pieces_view(ls@);
    let mut kept: Vec<Vec<char>> = Vec::new();
    let mut k: usize = 0;
    let mut stop = false;
    assert(pieces_view(kept@) + before_scissors(lv, 0) =~= before_scissors(lv, 0));
    while k < ls.len() && !stop
        invariant
            k <= ls@.len(),
            lv == pieces_view(ls@),
            sc@ == "# ------ >8 ------"@,
            stop ==> pieces_view(kept@) == before_scissors(lv, 0),
            !stop ==> pieces_view(kept@) + before_scissors(lv, k as int) == before_scissors(lv, 0),
        decreases ls.len() - k + (if stop {
            0int
        } else {
            1int
        }),
    {
        let t = crate::theme::trim_end_chars(&ls[k]);
        if crate::vote_page::chars_eq(&t, &sc) {
            assert(before_scissors(lv, k as int) =~= Seq::<Seq<char>>::empty());
            assert(pieces_view(kept@) =~= before_scissors(lv, 0));
            stop = true;
        } else {
            let ghost k0 = pieces_view(kept@);
            let line = strip_cr_keep(&ls[k]);
            kept.push(line);
            assert(pieces_view(kept@) + before_scissors(lv, k + 1) =~= k0 + before_scissors(lv, k as int));
            k += 1;
        }
    }
    if !stop {
        assert(before_scissors(lv, k as int) =~= Seq::<Seq<char>>::empty());
        assert(pieces_view(kept@) =~= before_scissors(lv, 0));
    }
    let ghost kv = pieces_view(kept@);
    let mut joined: Vec<char> = Vec::new();
    let mut i: usize = 0;
    while i < kept.len()
        invariant
            i <= kept@.len(),
            kv == pieces_view(kept@),
            joined@ == join_lines(kv.take(i as int)),
        decreases kept.len() - i,
    {
        assert(kv.take(i + 1).drop_last() =~= kv.take(i as int));
        let ghost j0 = joined@;
        if i > 0 {
            joined.push('\n');
        }
        let mut c: usize = 0;
        let ghost j1 = joined@;
        while c < kept[i].len()
            invariant
                c <= kv[i as int].len(),
                i < kept@.len(),
                kv == pieces_view(kept@),
                joined@ == j1 + kv[i as int].take(c as int),
            decreases kept[i as int]@.len() - c,
        {
            joined.push(kept[i][c]);
            c += 1;
            assert(joined@ =~= j1 + kv[i as int].take(c as int));
        }
        assert(kv[i as int].take(kv[i as int].len() as int) =~= kv[i as int]);
        proof {
            if i == 0 {
                assert(joined@ =~= join_lines(kv.take(1)));
            } else {
                assert(joined@ =~= j0 + "\n"@ + kv[i as int]) by {
                    reveal_strlit("\n");
                }
            }
        }
        i += 1;
    }
    assert(kv.take(kv.len() as int) =~= kv);
    let trimmed = crate::theme::trim_chars(&joined);
    crate::text::string_of(trimmed.as_slice())
}

/// The reply or edit the user wrote: the stripped body, or nothing when it
/// is empty (the user aborted).
pub fn body_or_abort(text: &str) -> (res: Option<String>)
    ensures
        match res {
            Some(b) => b@ == stripped_body(text@) && b@.len() > 0,
            None => stripped_body(text@).len() == 0,
        },
{
    let b = read_and_strip(text);
    if b.as_str().is_empty() {
        None
    } else {
        Some(b)
    }
}

proof fn lemma_split_concat(a: Seq<char>, b: Seq<char>)
    requires
        a.len() > 0,
        a.last() == '\n',
    ensures
        split_lf(a + b) == split_lf(a).drop_last() + split_lf(b),
    decreases b.len(),
{
    lemma_split_nonempty(a);
    if b.len() == 0 {
        assert(a + b =~= a);
        assert(a.drop_last() + seq!['\n'] =~= a);
        assert(split_lf(a) == split_lf(a.drop_last()).push(Seq::empty()));
        assert(split_lf(a).drop_last() + seq![Seq::<char>::empty()] =~= split_lf(a));
    } else {
        lemma_split_concat(a, b.drop_last());
        lemma_split_nonempty(b.drop_last());
        assert((a + b).drop_last() =~= a + b.drop_last());
        let x = split_lf(a).drop_last();
        let y = split_lf(b.drop_last());
        if b.last() == '\n' {
            assert((x + y).push(Seq::empty()) =~= x + y.push(Seq::empty()));
        } else {
            assert((x + y).update((x + y).len() - 1, (x + y).last().push(b.last())) =~= x + y.update(
                y.len() - 1,
                y.last().push(b.last()),
            ));
        }
    }
}

proof fn lemma_split_no_lf(s: Seq<char>)
    requires
        forall|i: int| 0 <= i < s.len() ==> s[i] != '\n',
    ensures
        split_lf(s) == seq![s],
    decreases s.len(),
{
    if s.len() > 0 {
        lemma_split_no_lf(s.drop_last());
        assert(s.last() != '\n');
        assert(s.drop_last().push(s.last()) =~= s);
        assert(seq![s.drop_last()].update(0, s.drop_last().push(s.last())) =~= seq![s]);
    } else {
        assert(s =~= Seq::<char>::empty());
    }
}

/// Whatever the parent's text, a reply scaffold left as written holds no
/// reply: its body is empty.
pub proof fn reply_scaffold_strips_to_nothing(parent: Seq<char>)
    ensures
        stripped_body(reply_scaffold_spec(parent)) == Seq::<char>::empty(),
{
    reveal_strlit("\n");
    reveal_strlit("# ------ >8 ------");
    let sc = "# ------ >8 ------"@;
    let head = "\n"@ + sc + "\n"@;
    let rest = reply_scaffold_spec(parent).skip(head.len() as int);
    assert(reply_scaffold_spec(parent) =~= head + rest);
    lemma_split_no_lf(sc);
    lemma_split_concat("\n"@, sc + "\n"@);
    assert(split_lf("\n"@) == seq![Seq::<char>::empty(), Seq::<char>::empty()]) by {
        let nl = "\n"@;
        assert(nl.len() == 1 && nl[0] == '\n');
        assert(nl.drop_last() =~= Seq::<char>::empty());
        assert(split_lf(Seq::<char>::empty()) == seq![Seq::<char>::empty()]);
        assert(split_lf(nl) == split_lf(nl.drop_last()).push(Seq::empty()));
        assert(seq![Seq::<char>::empty()].push(Seq::empty()) =~= seq![Seq::<char>::empty(), Seq::<char>::empty()]);
    }
    assert(split_lf(sc + "\n"@) == seq![sc, Seq::<char>::empty()]) by {
        assert((sc + "\n"@).drop_last() =~= sc);
    }
    assert("\n"@ + (sc + "\n"@) =~= head);
    assert(split_lf(head) =~= seq![Seq::<char>::empty(), sc, Seq::<char>::empty()]);
    lemma_split_concat(head, rest);
    lemma_split_nonempty(rest);
    let whole = reply_scaffold_spec(parent);
    let p = split_lf(whole);
    assert(p.len() >= 3);
    assert(p[0] == Seq::<char>::empty());
    assert(p[1] == sc);
    let ls = text_lines(whole);
    assert(whole.last() == '\n') by {
        reveal_strlit("# > (empty)\n");
        lemma_quoted_ends(text_lines(parent));
    }
    assert(ls.len() >= 2);
    assert(ls[0] == Seq::<char>::empty());
    assert(ls[1] == sc);
    assert(trailing_ws_sc()) by {
        assert(sc.last() == '-');
    }
    assert(trim_end(sc) =~= sc);
    assert(trim_end(Seq::<char>::empty()) =~= Seq::<char>::empty());
    assert(before_scissors(ls, 1) == Seq::<Seq<char>>::empty());
    assert(before_scissors(ls, 0) =~= seq![Seq::<char>::empty()]);
    assert(join_lines(seq![Seq::<char>::empty()]) == Seq::<char>::empty());
    assert(trim(Seq::<char>::empty()) =~= Seq::<char>::empty());
}

/// An edit text that the scratch file gives back as it was: it holds no
/// carriage return, and none of its lines is the scissors line.
pub open spec fn plain_edit_text(c: Seq<char>) -> bool {
    &&& forall|i: int| 0 <= i < c.len() ==> c[i] != '\r'
    &&& forall|i: int| 0 <= i < split_lf(c).len() ==> trim_end(#[trigger] split_lf(c)[i]) != "# ------ >8 ------"@
}

proof fn lemma_split_no_cr(c: Seq<char>)
    requires
        forall|i: int| 0 <= i < c.len() ==> c[i] != '\r',
    ensures
        forall|i: int, j: int|
            0 <= i < split_lf(c).len() && 0 <= j < split_lf(c)[i].len() ==> #[trigger] split_lf(c)[i][j] != '\r',
    decreases c.len(),
{
    if c.len() > 0 {
        let d = c.drop_last();
        lemma_split_no_cr(d);
        lemma_split_nonempty(d);
        let q = split_lf(d);
        assert(c.last() == c[c.len() - 1]);
        if c.last() != '\n' {
            let q2 = q.update(q.len() - 1, q.last().push(c.last()));
            assert(split_lf(c) == q2);
            assert forall|i: int, j: int| 0 <= i < q2.len() && 0 <= j < q2[i].len() implies #[trigger] q2[i][j] != '\r' by {
                if i == q.len() - 1 {
                    if j < q.last().len() {
                        assert(q2[i][j] == q[i][j]);
                    }
                }
            }
        }
    }
}

proof fn lemma_join_split(c: Seq<char>)
    ensures
        join_lines(split_lf(c)) == c,
    decreases c.len(),
{
    reveal_strlit("\n");
    if c.len() == 0 {
        assert(split_lf(c) == seq![Seq::<char>::empty()]);
        assert(c =~= Seq::<char>::empty());
    } else {
        let d = c.drop_last();
        lemma_join_split(d);
        lemma_split_nonempty(d);
        let q = split_lf(d);
        if c.last() == '\n' {
            let q2 = q.push(Seq::<char>::empty());
            assert(q2.drop_last() =~= q);
            assert(join_lines(q2) == join_lines(q) + "\n"@ + Seq::<char>::empty());
            assert(c =~= d + "\n"@ + Seq::<char>::empty());
        } else {
            let q2 = q.update(q.len() - 1, q.last().push(c.last()));
            if q.len() == 1 {
                assert(join_lines(q) == q[0]);
                assert(join_lines(q2) == q2[0]);
                assert(c =~= d.push(c.last()));
            } else {
                assert(q2.drop_last() =~= q.drop_last());
                assert(join_lines(q) == join_lines(q.drop_last()) + "\n"@ + q.last());
                assert(join_lines(q2) == join_lines(q2.drop_last()) + "\n"@ + q2.last());
                assert(c =~= d.push(c.last()));
                assert(d == join_lines(q.drop_last()) + "\n"@ + q.last());
                assert(d.push(c.last()) =~= join_lines(q.drop_last()) + "\n"@ + q.last().push(c.last()));
            }
        }
    }
}

proof fn lemma_before_scissors_prefix(ls: Seq<Seq<char>>, p: Seq<Seq<char>>, k: int)
    requires
        0 <= k <= p.len(),
        p.len() < ls.len(),
        forall|i: int| 0 <= i < p.len() ==> ls[i] == p[i],
        forall|i: int| 0 <= i < p.len() ==> trim_end(#[trigger] p[i]) != "# ------ >8 ------"@,
        trim_end(ls[p.len() as int]) == "# ------ >8 ------"@,
    ensures
        before_scissors(ls, k) == p.skip(k),
    decreases p.len() - k,
{
    if k == p.len() {
        assert(p.skip(k) =~= Seq::<Seq<char>>::empty());
    } else {
        lemma_before_scissors_prefix(ls, p, k + 1);
        assert(trim_end(ls[k]) == trim_end(p[k]));
        assert(seq![p[k]] + p.skip(k + 1) =~= p.skip(k));
    }
}

/// Saving the scratch file of an edit unchanged gives back the comment's
/// text, trimmed, for any text without carriage returns or a scissors line
/// of its own; this is how an unchanged edit is told apart.
pub proof fn edit_scaffold_reads_back(c: Seq<char>)
    requires
        plain_edit_text(c),
    ensures
        stripped_body(edit_scaffold_spec(c)) == trim(c),
{
    reveal_strlit("\n");
    reveal_strlit("# ------ >8 ------");
    reveal_strlit("# Edit your comment above the scissors line.\n");
    reveal_strlit("# Save unchanged to cancel; clear the body to cancel.\n");
    let sc = "# ------ >8 ------"@;
    let tail = "# Edit your comment above the scissors line.\n"@ + "# Save unchanged to cancel; clear the body to cancel.\n"@;
    let a = c + "\n"@;
    let rest = sc + "\n"@ + tail;
    let s = edit_scaffold_spec(c);
    assert(s =~= a + rest);
    assert(a.drop_last() =~= c);
    lemma_split_nonempty(c);
    assert(split_lf(a) == split_lf(c).push(Seq::<char>::empty()));
    assert(split_lf(a).drop_last() =~= split_lf(c));
    lemma_split_concat(a, rest);
    let b = sc + "\n"@;
    assert(rest =~= b + tail);
    assert(b.drop_last() =~= sc);
    lemma_split_no_lf(sc);
    assert(split_lf(b) == split_lf(sc).push(Seq::<char>::empty()));
    assert(split_lf(b).drop_last() =~= seq![sc]);
    lemma_split_concat(b, tail);
    lemma_split_nonempty(tail);
    let pc = split_lf(c);
    let x = split_lf(tail);
    assert(split_lf(s) =~= pc + seq![sc] + x);
    let ls = text_lines(s);
    let m = pc.len() as int;
    assert(s.len() > 0 && s.last() == '\n');
    assert(ls.len() == split_lf(s).len() - 1);
    lemma_split_no_cr(c);
    assert forall|i: int| 0 <= i < m implies ls[i] == pc[i] by {
        assert(split_lf(s)[i] == pc[i]);
        if pc[i].len() > 0 {
            assert(pc[i][pc[i].len() - 1] != '\r');
        }
    }
    assert(split_lf(s)[m] == sc);
    assert(ls[m] == sc);
    assert(crate::theme::trailing_ws(sc) == 0) by {
        assert(sc.last() == '-');
        assert(!crate::theme::is_white_space(sc.last()));
    }
    assert(trim_end(sc) =~= sc);
    lemma_before_scissors_prefix(ls, pc, 0);
    assert(pc.skip(0) =~= pc);
    lemma_join_split(c);
}

spec fn trailing_ws_sc() -> bool {
    crate::theme::trailing_ws("# ------ >8 ------"@) == 0
}

proof fn lemma_quoted_ends(ls: Seq<Seq<char>>)
    ensures
        ls.len() > 0 ==> quoted(ls).len() > 0 && quoted(ls).last() == '\n',
{
    reveal_strlit("\n");
}

} // verus!
