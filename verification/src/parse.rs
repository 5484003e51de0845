//! Pipeline parser: groups shell words into ordered pipeline stages at `|`
//! boundaries and extracts an optional trailing redirection from the final
//! stage.

use vstd::prelude::*;

verus! {

/// One pipeline stage: a command name and its arguments, in order.
#[derive(Debug, Clone)]
pub struct Stage {
    pub command: String,
    pub arguments: Vec<String>,
}

/// Where a redirection sends a stream, and whether the file is truncated
/// or appended to.
#[derive(Debug, Clone, Copy, PartialEq, Eq, Structural)]
pub enum RedirMode {
    OverwriteStdout,
    AppendStdout,
    OverwriteStderr,
    AppendStderr,
}

/// A request to bind the final stage's stdout or stderr to a file.
#[derive(Debug, Clone)]
pub struct Redirection {
    pub mode: RedirMode,
    pub target: String,
}

/// A full parsed input line: the ordered stages, and at most one trailing
/// redirection, which belongs to the last stage only.
#[derive(Debug, Clone)]
pub struct Pipeline {
    pub stages: Vec<Stage>,
    pub redirection: Option<Redirection>,
}

/// The word that separates pipeline stages.
pub open spec fn pipe_word() -> Seq<char> {
    "|"@
}

/// Whether `p` is a prefix of `w`.
pub open spec fn spec_prefix(w: Seq<char>, p: Seq<char>) -> bool {
    w.len() >= p.len() && w.subrange(0, p.len() as int) == p
}

/// How a word opens a redirection, if it does: the mode its operator
/// prefix denotes, and whatever follows the operator inside the same word
/// (empty when the word is the bare operator, so that the target is the
/// next word).  Longer operators are matched first, so `1>>` is append,
/// not overwrite-then-`>`.
pub open spec fn spec_redir_split(w: Seq<char>) -> Option<(RedirMode, Seq<char>)> {
    if spec_prefix(w, "1>>"@) {
        Some((RedirMode::AppendStdout, w.skip(3)))
    } else if spec_prefix(w, "2>>"@) {
        Some((RedirMode::AppendStderr, w.skip(3)))
    } else if spec_prefix(w, "1>"@) {
        Some((RedirMode::OverwriteStdout, w.skip(2)))
    } else if spec_prefix(w, "2>"@) {
        Some((RedirMode::OverwriteStderr, w.skip(2)))
    } else if spec_prefix(w, ">>"@) {
        Some((RedirMode::AppendStdout, w.skip(2)))
    } else if spec_prefix(w, ">"@) {
        Some((RedirMode::OverwriteStdout, w.skip(1)))
    } else {
        None
    }
}

/// Whether the word begins with the given literal.
fn starts_with_lit(w: &String, lit: &str) -> (r: bool)
    ensures
        r == spec_prefix(w@, lit@),
{
    let wl = w.as_str().unicode_len();
    let ll = lit.unicode_len();
    if wl < ll {
        return false;
    }
    let mut i: usize = 0;
    while i < ll
        invariant
            0 <= i <= ll,
            ll == lit@.len(),
            wl == w@.len(),
            ll <= wl,
            forall|k: int| 0 <= k < i ==> w@[k] == lit@[k],
        decreases ll - i,
    {
        let cw = w.as_str().get_char(i);
        let cl = lit.get_char(i);
        if cw != cl {
            proof {
                assert(w@.subrange(0, ll as int)[i as int] != lit@[i as int]);
            }
            return false;
        }
        i = i + 1;
    }
    proof {
        assert(w@.subrange(0, ll as int) =~= lit@);
    }
    true
}

fn word_tail(w: &String, from: usize) -> (r: String)
    requires
        from <= w@.len(),
    ensures
        r@ == w@.skip(from as int),
{
    let wl = w.as_str().unicode_len();
    let tail = w.as_str().substring_char(from, wl);
    proof {
        assert(tail@ =~= w@.skip(from as int));
    }
    tail.to_owned()
}

/// How a word opens a redirection, if it does.
pub fn redir_split(w: &String) -> (r: Option<(RedirMode, String)>)
    ensures
        match r {
            Some((mode, rest)) => spec_redir_split(w@) == Some((mode, rest@)),
            None => spec_redir_split(w@) is None,
        },
{
    proof {
        reveal_strlit("1>>");
        reveal_strlit("2>>");
        reveal_strlit("1>");
        reveal_strlit("2>");
        reveal_strlit(">>");
        reveal_strlit(">");
    }
    if starts_with_lit(w, "1>>") {
        Some((RedirMode::AppendStdout, word_tail(w, 3)))
    } else if starts_with_lit(w, "2>>") {
        Some((RedirMode::AppendStderr, word_tail(w, 3)))
    } else if starts_with_lit(w, "1>") {
        Some((RedirMode::OverwriteStdout, word_tail(w, 2)))
    } else if starts_with_lit(w, "2>") {
        Some((RedirMode::OverwriteStderr, word_tail(w, 2)))
    } else if starts_with_lit(w, ">>") {
        Some((RedirMode::AppendStdout, word_tail(w, 2)))
    } else if starts_with_lit(w, ">") {
        Some((RedirMode::OverwriteStdout, word_tail(w, 1)))
    } else {
        None
    }
}

/// Closes the group under construction: an empty group is dropped, a
/// non-empty one is appended.
pub open spec fn close_group(gs: Seq<Seq<Seq<char>>>, cur: Seq<Seq<char>>) -> Seq<Seq<Seq<char>>> {
    if cur.len() == 0 {
        gs
    } else {
        gs.push(cur)
    }
}

/// Scans `ws` word by word: a `|` closes the group under construction,
/// any other word joins it.  Returns the groups closed so far and the
/// group still open.
pub open spec fn split_acc(ws: Seq<Seq<char>>) -> (Seq<Seq<Seq<char>>>, Seq<Seq<char>>)
    decreases ws.len(),
{
    if ws.len() == 0 {
        (Seq::empty(), Seq::empty())
    } else {
        let (gs, cur) = split_acc(ws.drop_last());
        if ws.last() == pipe_word() {
            (close_group(gs, cur), Seq::empty())
        } else {
            (gs, cur.push(ws.last()))
        }
    }
}

/// The non-empty `|`-delimited groups of a word sequence, in order.
pub open spec fn groups_of(ws: Seq<Seq<char>>) -> Seq<Seq<Seq<char>>> {
    close_group(split_acc(ws).0, split_acc(ws).1)
}

proof fn lemma_close_group_nonempty(gs: Seq<Seq<Seq<char>>>, cur: Seq<Seq<char>>)
    requires
        forall|i: int| 0 <= i < gs.len() ==> #[trigger] gs[i].len() >= 1,
    ensures
        forall|i: int|
            0 <= i < close_group(gs, cur).len() ==> #[trigger] close_group(gs, cur)[i].len() >= 1,
{
    if cur.len() > 0 {
        assert forall|i: int|
            0 <= i < close_group(gs, cur).len() implies #[trigger] close_group(gs, cur)[i].len()
            >= 1 by {
            if i < gs.len() {
                assert(close_group(gs, cur)[i] == gs[i]);
            } else {
                assert(close_group(gs, cur)[i] == cur);
            }
        }
    }
}

/// Every group a scan produces holds at least one word.
pub proof fn lemma_groups_nonempty(ws: Seq<Seq<char>>)
    ensures
        forall|i: int| 0 <= i < groups_of(ws).len() ==> #[trigger] groups_of(ws)[i].len() >= 1,
{
    lemma_split_acc_groups_nonempty(ws);
    lemma_close_group_nonempty(split_acc(ws).0, split_acc(ws).1);
}

proof fn lemma_split_acc_groups_nonempty(ws: Seq<Seq<char>>)
    ensures
        forall|i: int| 0 <= i < split_acc(ws).0.len() ==> #[trigger] split_acc(ws).0[i].len() >= 1,
    decreases ws.len(),
{
    if ws.len() > 0 {
        lemma_split_acc_groups_nonempty(ws.drop_last());
        let gs = split_acc(ws.drop_last()).0;
        let cur = split_acc(ws.drop_last()).1;
        if ws.last() == pipe_word() {
            lemma_close_group_nonempty(gs, cur);
            assert(split_acc(ws).0 == close_group(gs, cur));
        } else {
            assert(split_acc(ws).0 == gs);
        }
    }
}

/// The index of the first redirection operator in `g` at or after `j`, or
/// `g.len()` if there is none.
pub open spec fn first_redir(g: Seq<Seq<char>>, j: int) -> int
    decreases g.len() - j,
{
    if j < 0 || j >= g.len() {
        g.len() as int
    } else if spec_redir_split(g[j]) is Some {
        j
    } else {
        first_redir(g, j + 1)
    }
}

proof fn lemma_first_redir_bounds(g: Seq<Seq<char>>, j: int)
    requires
        0 <= j <= g.len(),
    ensures
        j <= first_redir(g, j) <= g.len(),
    decreases g.len() - j,
{
    if j < g.len() && spec_redir_split(g[j]) is None {
        lemma_first_redir_bounds(g, j + 1);
    }
}

/// The arguments of the stage a group describes: the words after the
/// command, up to the first redirection operator.
pub open spec fn stage_args(g: Seq<Seq<char>>) -> Seq<Seq<char>> {
    g.subrange(1, first_redir(g, 1))
}

/// The redirection a group carries: its first operator word's mode, with
/// the target written into the same word, or else the word that follows;
/// an operator with no target at all yields no redirection.
pub open spec fn group_redir(g: Seq<Seq<char>>) -> Option<(RedirMode, Seq<char>)> {
    let j = first_redir(g, 1);
    if j < g.len() {
        let (mode, rest) = spec_redir_split(g[j]).unwrap();
        if rest.len() > 0 {
            Some((mode, rest))
        } else if j + 1 < g.len() {
            Some((mode, g[j + 1]))
        } else {
            None
        }
    } else {
        None
    }
}

/// What `parse` promises: the stages are exactly the non-empty groups, in
/// order, each with its command word and its pre-redirection arguments;
/// the pipeline's redirection is the last group's, if that group carries
/// one — redirections of earlier groups end argument collection but are
/// discarded.
pub open spec fn parse_result_ok(ws: Seq<Seq<char>>, r: Option<Pipeline>) -> bool {
    let gs = groups_of(ws);
    match r {
        None => gs.len() == 0,
        Some(p) => {
            &&& gs.len() >= 1
            &&& p.stages@.len() == gs.len()
            &&& forall|i: int|
                0 <= i < gs.len() ==> (#[trigger] p.stages@[i]).command@ == gs[i][0]
            &&& forall|i: int|
                0 <= i < gs.len() ==> (#[trigger] p.stages@[i]).arguments.deep_view() == stage_args(
                    gs[i],
                )
            &&& match p.redirection {
                None => group_redir(gs.last()) is None,
                Some(rd) => group_redir(gs.last()) == Some((rd.mode, rd.target@)),
            }
        },
    }
}

proof fn lemma_deep_push(v: Seq<String>, v2: Seq<String>, x: String)
    requires
        v2 == v.push(x),
    ensures
        Seq::new(v2.len(), |i: int| v2[i].deep_view()) == Seq::new(
            v.len(),
            |i: int| v[i].deep_view(),
        ).push(x@),
{
    assert(Seq::new(v2.len(), |i: int| v2[i].deep_view()) =~= Seq::new(
        v.len(),
        |i: int| v[i].deep_view(),
    ).push(x@));
}

/// Groups the words into non-empty `|`-delimited groups, then reads each
/// group as one stage; only the last group's redirection is kept.  Returns
/// `None` when the words hold no stage at all (an empty line, or only `|`
/// words).
pub fn parse(words: &Vec<String>) -> (r: Option<Pipeline>)
    ensures
        parse_result_ok(words.deep_view(), r),
{
    let ghost wsv: Seq<Seq<char>> = words.deep_view();
    let mut groups: Vec<Vec<String>> = Vec::new();
    let mut cur: Vec<String> = Vec::new();
    let mut i: usize = 0;
    while i < words.len()
        invariant
            0 <= i <= words.len(),
            wsv == words.deep_view(),
            groups.deep_view() == split_acc(wsv.take(i as int)).0,
            cur.deep_view() == split_acc(wsv.take(i as int)).1,
        decreases words.len() - i,
    {
        proof {
            assert(wsv.take(i as int + 1).drop_last() =~= wsv.take(i as int));
            assert(wsv.take(i as int + 1).last() == wsv[i as int]);
            assert(words@[i as int]@ == wsv[i as int]);
        }
        let w = &words[i];
        if crate::word_eq(w, "|") {
            if cur.len() > 0 {
                let ghost old_groups = groups.deep_view();
                let ghost old_cur = cur.deep_view();
                groups.push(cur);
                cur = Vec::new();
                proof {
                    assert(groups.deep_view() =~= old_groups.push(old_cur));
                    assert(cur.deep_view() =~= Seq::<Seq<char>>::empty());
                }
            } else {
                proof {
                    assert(cur.deep_view() =~= Seq::<Seq<char>>::empty());
                }
            }
        } else {
            let ghost old_cur = cur.deep_view();
            cur.push(w.clone());
            proof {
                assert(cur.deep_view() =~= old_cur.push(wsv[i as int]));
            }
        }
        i = i + 1;
    }
    proof {
        assert(wsv.take(words.len() as int) =~= wsv);
    }
    if cur.len() > 0 {
        let ghost old_groups = groups.deep_view();
        let ghost old_cur = cur.deep_view();
        groups.push(cur);
        proof {
            assert(groups.deep_view() =~= old_groups.push(old_cur));
        }
    }
    let ghost gsv: Seq<Seq<Seq<char>>> = groups.deep_view();
    proof {
        assert(gsv == groups_of(wsv));
        lemma_groups_nonempty(wsv);
    }
    if groups.len() == 0 {
        return None;
    }
    let mut stages: Vec<Stage> = Vec::new();
    let mut last_redir: Option<Redirection> = None;
    let mut gi: usize = 0;
    while gi < groups.len()
        invariant
            0 <= gi <= groups.len(),
            groups.deep_view() == gsv,
            gsv == groups_of(wsv),
            forall|i: int| 0 <= i < gsv.len() ==> #[trigger] gsv[i].len() >= 1,
            stages@.len() == gi,
            forall|i: int| 0 <= i < gi ==> (#[trigger] stages@[i]).command@ == gsv[i][0],
            forall|i: int|
                0 <= i < gi ==> (#[trigger] stages@[i]).arguments.deep_view() == stage_args(gsv[i]),
            gi == 0 ==> last_redir is None,
            gi > 0 ==> match last_redir {
                None => group_redir(gsv[gi - 1]) is None,
                Some(rd) => group_redir(gsv[gi - 1]) == Some((rd.mode, rd.target@)),
            },
        decreases groups.len() - gi,
    {
        let g = &groups[gi];
        let ghost gv: Seq<Seq<char>> = g.deep_view();
        proof {
            assert(gv == gsv[gi as int]);
            assert(g@.len() == gv.len());
            assert(gv.len() >= 1);
        }
        let command = g[0].clone();
        let mut args: Vec<String> = Vec::new();
        let mut redir: Option<Redirection> = None;
        let mut j: usize = 1;
        let mut scanning = true;
        proof {
            lemma_first_redir_bounds(gv, 1);
        }
        while scanning && j < g.len()
            invariant
                1 <= j <= g@.len(),
                gv == g.deep_view(),
                g@.len() == gv.len(),
                1 <= first_redir(gv, 1) <= gv.len(),
                scanning ==> {
                    &&& first_redir(gv, 1) == first_redir(gv, j as int)
                    &&& args.deep_view() == gv.subrange(1, j as int)
                    &&& redir is None
                },
                !scanning ==> {
                    &&& args.deep_view() == stage_args(gv)
                    &&& match redir {
                        None => group_redir(gv) is None,
                        Some(rd) => group_redir(gv) == Some((rd.mode, rd.target@)),
                    }
                },
            decreases g@.len() - j + (if scanning { 1int } else { 0int }),
        {
            proof {
                assert(g@[j as int]@ == gv[j as int]);
            }
            let w = &g[j];
            match redir_split(w) {
                Some((mode, rest)) => {
                    proof {
                        assert(first_redir(gv, j as int) == j as int);
                        assert(first_redir(gv, 1) == j as int);
                        assert(args.deep_view() =~= stage_args(gv));
                    }
                    if !rest.as_str().is_empty() {
                        redir = Some(Redirection { mode, target: rest });
                    } else if j + 1 < g.len() {
                        proof {
                            assert(g@[j as int + 1]@ == gv[j as int + 1]);
                        }
                        redir = Some(Redirection { mode, target: g[j + 1].clone() });
                    }
                    scanning = false;
                },
                None => {
                    proof {
                        assert(first_redir(gv, j as int) == first_redir(gv, j as int + 1));
                    }
                    let ghost old_args = args.deep_view();
                    args.push(w.clone());
                    proof {
                        assert(args.deep_view() =~= old_args.push(gv[j as int]));
                        assert(args.deep_view() =~= gv.subrange(1, j as int + 1));
                    }
                    j = j + 1;
                },
            }
        }
        proof {
            if scanning {
                assert(j == gv.len());
                assert(first_redir(gv, j as int) == gv.len() as int);
                assert(args.deep_view() =~= stage_args(gv));
                assert(group_redir(gv) is None);
            }
        }
        stages.push(Stage { command, arguments: args });
        last_redir = redir;
        gi = gi + 1;
    }
    Some(Pipeline { stages, redirection: last_redir })
}

/// What splitting an input line into words yields: the words of the line
/// with quoting resolved, or nothing when the line is malformed
/// (an unterminated quote).
pub uninterp spec fn split_words(line: Seq<char>) -> Option<Seq<Seq<char>>>;

/// Relies on shlex::split: turns one raw line into its shell words,
/// honoring quoting and escapes, and returns `None` on erroneous input.
/// The result is a function of the line alone.
#[verifier::external_body]
fn split_line(line: &str) -> (r: Option<Vec<String>>)
    ensures
        match r {
            Some(ws) => split_words(line@) == Some(ws.deep_view()),
            None => split_words(line@) is None,
        },
{
    shlex::split(line)
}

/// Splits one raw input line into words, then parses the words into a
/// pipeline.  Returns `None` when the line is malformed or holds no stage.
pub fn parse_line(line: &str) -> (r: Option<Pipeline>)
    ensures
        match split_words(line@) {
            Some(ws) => parse_result_ok(ws, r),
            None => r is None,
        },
{
    match split_line(line) {
        Some(ws) => parse(&ws),
        None => None,
    }
}

proof fn lemma_split_acc_no_pipes(ws: Seq<Seq<char>>)
    requires
        forall|i: int| 0 <= i < ws.len() ==> #[trigger] ws[i] != pipe_word(),
    ensures
        split_acc(ws).0 == Seq::<Seq<Seq<char>>>::empty(),
        split_acc(ws).1 == ws,
    decreases ws.len(),
{
    if ws.len() == 0 {
        assert(split_acc(ws).1 =~= ws);
    } else {
        lemma_split_acc_no_pipes(ws.drop_last());
        assert(split_acc(ws).1 =~= ws);
    }
}

proof fn lemma_first_redir_none(ws: Seq<Seq<char>>, j: int)
    requires
        0 <= j <= ws.len(),
        forall|i: int| 0 <= i < ws.len() ==> #[trigger] spec_redir_split(ws[i]) is None,
    ensures
        first_redir(ws, j) == ws.len() as int,
    decreases ws.len() - j,
{
    if j < ws.len() {
        lemma_first_redir_none(ws, j + 1);
    }
}

/// A line whose words hold no `|` and no redirection operator parses to a
/// pipeline of exactly one stage — the first word commands, the rest are
/// its arguments — and no redirection.
pub proof fn lemma_plain_words_single_stage(ws: Seq<Seq<char>>, r: Option<Pipeline>)
    requires
        ws.len() >= 1,
        forall|i: int| 0 <= i < ws.len() ==> #[trigger] ws[i] != pipe_word(),
        forall|i: int| 0 <= i < ws.len() ==> #[trigger] spec_redir_split(ws[i]) is None,
        parse_result_ok(ws, r),
    ensures
        r is Some,
        r.unwrap().stages@.len() == 1,
        r.unwrap().stages@[0].command@ == ws[0],
        r.unwrap().stages@[0].arguments.deep_view() == ws.skip(1),
        r.unwrap().redirection is None,
{
    lemma_split_acc_no_pipes(ws);
    assert(groups_of(ws) =~= seq![ws]);
    lemma_first_redir_none(ws, 1);
    assert(stage_args(ws) =~= ws.skip(1));
    assert(group_redir(ws) is None);
}

} // verus!
