//! The assistant command parser: scan one free-text reply line by line for
//! tagged directive lines (`[ADD]`, `[DONE]`, `[DROP]`, `[EDIT]`) and yield
//! the structured mutation requests, in source order. Prose lines and
//! malformed directives are dropped silently.

use vstd::prelude::*;

use crate::input::{parse_priority_chars, priority_of};
use crate::text::{
    chars_to_string, dec_str, join_sp, join_sp_chars, parse_usize_chars, parse_usize_spec,
    push_str_chars, push_string_chars, split_lines, split_lines_chars, split_ws, split_ws_chars,
    starts_with, starts_with_chars, str_to_chars, sub_chars, trim_chars, trimmed, usize_dec_chars,
    views_of,
};

verus! {

/// A task to be created, as an `[ADD]` directive describes it.
#[derive(Debug, PartialEq, Clone)]
pub struct ParsedTask {
    pub title: String,
    pub urgency: u8,
    pub importance: u8,
}

/// A reference to an existing task: a 1-based position in the displayed view,
/// or a case-insensitive title fragment.
#[derive(Debug, PartialEq, Clone)]
pub enum TaskIdentifier {
    Index(usize),
    Title(String),
}

/// One structured mutation request extracted from assistant text.
#[derive(Debug, PartialEq, Clone)]
pub enum AICommand {
    Add(ParsedTask),
    Done(TaskIdentifier),
    Drop(TaskIdentifier),
    Edit {
        target: TaskIdentifier,
        new_title: Option<String>,
        new_urgency: Option<u8>,
        new_importance: Option<u8>,
    },
}

/// The mathematical image of a parsed task.
pub struct ParsedTaskModel {
    pub title: Seq<char>,
    pub urgency: u8,
    pub importance: u8,
}

/// The mathematical image of a task identifier.
pub enum TaskIdentModel {
    Index(usize),
    Title(Seq<char>),
}

/// The mathematical image of a directive.
pub enum AICommandModel {
    Add(ParsedTaskModel),
    Done(TaskIdentModel),
    Drop(TaskIdentModel),
    Edit {
        target: TaskIdentModel,
        new_title: Option<Seq<char>>,
        new_urgency: Option<u8>,
        new_importance: Option<u8>,
    },
}

impl View for ParsedTask {
    type V = ParsedTaskModel;

    open spec fn view(&self) -> ParsedTaskModel {
        ParsedTaskModel { title: self.title@, urgency: self.urgency, importance: self.importance }
    }
}

impl View for TaskIdentifier {
    type V = TaskIdentModel;

    open spec fn view(&self) -> TaskIdentModel {
        match self {
            TaskIdentifier::Index(n) => TaskIdentModel::Index(*n),
            TaskIdentifier::Title(t) => TaskIdentModel::Title(t@),
        }
    }
}

impl View for AICommand {
    type V = AICommandModel;

    open spec fn view(&self) -> AICommandModel {
        match self {
            AICommand::Add(pt) => AICommandModel::Add(pt@),
            AICommand::Done(id) => AICommandModel::Done(id@),
            AICommand::Drop(id) => AICommandModel::Drop(id@),
            AICommand::Edit { target, new_title, new_urgency, new_importance } => {
                AICommandModel::Edit {
                    target: target@,
                    new_title: match new_title {
                        Some(t) => Some(t@),
                        None => None,
                    },
                    new_urgency: *new_urgency,
                    new_importance: *new_importance,
                }
            },
        }
    }
}

/// The views of a directive vector, in order.
pub open spec fn cmd_views(s: Seq<AICommand>) -> Seq<AICommandModel> {
    Seq::new(s.len(), |i: int| s[i]@)
}

/// The views of a string vector, in order.
pub open spec fn string_views(s: Seq<String>) -> Seq<Seq<char>> {
    Seq::new(s.len(), |i: int| s[i]@)
}

/// The views of a parsed-task vector, in order.
pub open spec fn task_views(s: Seq<ParsedTask>) -> Seq<ParsedTaskModel> {
    Seq::new(s.len(), |i: int| s[i]@)
}

pub proof fn lemma_string_views_push(s: Seq<String>, x: String)
    ensures
        string_views(s.push(x)) == string_views(s).push(x@),
{
    assert(string_views(s.push(x)) =~= string_views(s).push(x@));
}

pub proof fn lemma_task_views_push(s: Seq<ParsedTask>, x: ParsedTask)
    ensures
        task_views(s.push(x)) == task_views(s).push(x@),
{
    assert(task_views(s.push(x)) =~= task_views(s).push(x@));
}

/// The priority named by the last priority token among the words, if any.
pub open spec fn last_priority(ws: Seq<Seq<char>>) -> Option<(u8, u8)>
    decreases ws.len(),
{
    if ws.len() == 0 {
        None
    } else if priority_of(ws.last()) is Some {
        priority_of(ws.last())
    } else {
        last_priority(ws.drop_last())
    }
}

/// The words of a directive body that are not priority tokens: they become
/// the title.
pub open spec fn title_words(ws: Seq<Seq<char>>) -> Seq<Seq<char>>
    decreases ws.len(),
{
    if ws.len() == 0 {
        seq![]
    } else {
        title_words(ws.drop_last()) + if priority_of(ws.last()) is Some {
            seq![]
        } else {
            seq![ws.last()]
        }
    }
}

/// What an `[ADD]` body yields: priority tokens set the axes (the last match
/// wins, both default to one), the remaining words joined become the title;
/// an empty title discards the directive.
pub open spec fn parse_add_spec(s: Seq<char>) -> Option<ParsedTaskModel> {
    let ws = split_ws(s);
    let title = join_sp(title_words(ws));
    if s.len() == 0 || title.len() == 0 {
        None
    } else {
        let p = match last_priority(ws) {
            Some(p) => p,
            None => (1u8, 1u8),
        };
        Some(ParsedTaskModel { title, urgency: p.0, importance: p.1 })
    }
}

/// What a `[DONE]`/`[DROP]` body yields: `#<number>` or a bare number is a
/// 1-based position; anything else non-empty is a title fragment.
pub open spec fn parse_ident_spec(s: Seq<char>) -> Option<TaskIdentModel> {
    let t = trimmed(s);
    if t.len() == 0 {
        None
    } else if t[0] == '#' && parse_usize_spec(trimmed(t.drop_first())) is Some {
        Some(TaskIdentModel::Index(parse_usize_spec(trimmed(t.drop_first()))->Some_0))
    } else if parse_usize_spec(t) is Some {
        Some(TaskIdentModel::Index(parse_usize_spec(t)->Some_0))
    } else {
        Some(TaskIdentModel::Title(t))
    }
}

/// Index of the first `->` occurrence, or the length when absent.
pub open spec fn find_arrow(s: Seq<char>) -> int
    decreases s.len(),
{
    if s.len() < 2 {
        s.len() as int
    } else if s[0] == '-' && s[1] == '>' {
        0
    } else {
        1 + find_arrow(s.drop_first())
    }
}

pub proof fn lemma_find_arrow(s: Seq<char>)
    ensures
        0 <= find_arrow(s) <= s.len(),
        find_arrow(s) < s.len() ==> find_arrow(s) + 1 < s.len() && s[find_arrow(s)] == '-' && s[
            find_arrow(s) + 1
        ] == '>',
        forall|j: int|
            0 <= j < find_arrow(s) && j + 1 < s.len() ==> !(#[trigger] s[j] == '-' && s[j + 1]
                == '>'),
    decreases s.len(),
{
    if s.len() >= 2 && !(s[0] == '-' && s[1] == '>') {
        lemma_find_arrow(s.drop_first());
        assert(forall|j: int| 1 <= j < s.len() ==> s[j] == s.drop_first()[j - 1]);
    }
}

pub proof fn lemma_find_arrow_is(s: Seq<char>, k: int)
    requires
        0 <= k <= s.len(),
        forall|j: int|
            0 <= j < k && j + 1 < s.len() ==> !(#[trigger] s[j] == '-' && s[j + 1] == '>'),
        k < s.len() ==> k + 1 < s.len() && s[k] == '-' && s[k + 1] == '>',
        k == s.len() || k + 1 < s.len(),
    ensures
        find_arrow(s) == k,
{
    lemma_find_arrow(s);
    let f = find_arrow(s);
    if f < k {
        assert(s[f] == '-' && s[f + 1] == '>');
        assert(false);
    }
    if k < f {
        assert(!(s[k] == '-' && s[k + 1] == '>'));
        assert(false);
    }
}

/// What an `[EDIT]` body yields. With an arrow, the left side names the
/// target and the right side is read like an `[ADD]` body, an absent title
/// meaning "keep the title". Without an arrow, the words name the target by
/// title and only the priority tokens carry a change.
pub open spec fn parse_edit_spec(s: Seq<char>) -> Option<AICommandModel> {
    if s.len() == 0 {
        None
    } else {
        let f = find_arrow(s);
        if f < s.len() {
            let left = s.subrange(0, f);
            let right = s.subrange(f + 2, s.len() as int);
            match parse_ident_spec(left) {
                None => None,
                Some(target) => {
                    let ws = split_ws(right);
                    let tw = title_words(ws);
                    Some(
                        AICommandModel::Edit {
                            target,
                            new_title: if tw.len() == 0 {
                                None
                            } else {
                                Some(join_sp(tw))
                            },
                            new_urgency: match last_priority(ws) {
                                Some(p) => Some(p.0),
                                None => None,
                            },
                            new_importance: match last_priority(ws) {
                                Some(p) => Some(p.1),
                                None => None,
                            },
                        },
                    )
                },
            }
        } else {
            let ws = split_ws(s);
            let title = join_sp(title_words(ws));
            if title.len() == 0 {
                None
            } else {
                Some(
                    AICommandModel::Edit {
                        target: TaskIdentModel::Title(title),
                        new_title: None,
                        new_urgency: match last_priority(ws) {
                            Some(p) => Some(p.0),
                            None => None,
                        },
                        new_importance: match last_priority(ws) {
                            Some(p) => Some(p.1),
                            None => None,
                        },
                    },
                )
            }
        }
    }
}

/// What one line of a reply yields: a directive when its trimmed content
/// starts with a known tag and the body parses, nothing otherwise.
pub open spec fn cmd_of_line(line: Seq<char>) -> Option<AICommandModel> {
    let t = trimmed(line);
    if starts_with(t, "[ADD]"@) {
        match parse_add_spec(trimmed(t.subrange(5, t.len() as int))) {
            Some(pt) => Some(AICommandModel::Add(pt)),
            None => None,
        }
    } else if starts_with(t, "[DONE]"@) {
        match parse_ident_spec(trimmed(t.subrange(6, t.len() as int))) {
            Some(id) => Some(AICommandModel::Done(id)),
            None => None,
        }
    } else if starts_with(t, "[DROP]"@) {
        match parse_ident_spec(trimmed(t.subrange(6, t.len() as int))) {
            Some(id) => Some(AICommandModel::Drop(id)),
            None => None,
        }
    } else if starts_with(t, "[EDIT]"@) {
        parse_edit_spec(trimmed(t.subrange(6, t.len() as int)))
    } else {
        None
    }
}

/// An option flattened into a sequence of zero or one directives.
pub open spec fn opt_cmd_seq(o: Option<AICommandModel>) -> Seq<AICommandModel> {
    match o {
        Some(c) => seq![c],
        None => seq![],
    }
}

/// The directives of a sequence of lines, in source order.
pub open spec fn cmds_of_lines(ls: Seq<Seq<char>>) -> Seq<AICommandModel>
    decreases ls.len(),
{
    if ls.len() == 0 {
        seq![]
    } else {
        cmds_of_lines(ls.drop_last()) + opt_cmd_seq(cmd_of_line(ls.last()))
    }
}

/// What a whole reply yields: its lines scanned in order.
pub open spec fn parse_commands_spec(s: Seq<char>) -> Seq<AICommandModel> {
    cmds_of_lines(split_lines(s))
}

/// The view of an optional parsed task.
pub open spec fn opt_task_view(o: Option<ParsedTask>) -> Option<ParsedTaskModel> {
    match o {
        Some(pt) => Some(pt@),
        None => None,
    }
}

/// The view of an optional identifier.
pub open spec fn opt_ident_view(o: Option<TaskIdentifier>) -> Option<TaskIdentModel> {
    match o {
        Some(id) => Some(id@),
        None => None,
    }
}

/// The view of an optional directive.
pub open spec fn opt_cmd_view(o: Option<AICommand>) -> Option<AICommandModel> {
    match o {
        Some(c) => Some(c@),
        None => None,
    }
}

/// What one confirmed batch did: the titles touched by each directive kind,
/// and the targets that resolved to nothing.
#[derive(Debug)]
pub struct CommandResults {
    pub tasks_added: Vec<ParsedTask>,
    pub tasks_completed: Vec<String>,
    pub tasks_dropped: Vec<String>,
    pub tasks_edited: Vec<String>,
    pub errors: Vec<String>,
}

/// The mathematical image of a results object.
#[verifier::ext_equal]
pub struct CommandResultsModel {
    pub added: Seq<ParsedTaskModel>,
    pub completed: Seq<Seq<char>>,
    pub dropped: Seq<Seq<char>>,
    pub edited: Seq<Seq<char>>,
    pub errors: Seq<Seq<char>>,
}

impl View for CommandResults {
    type V = CommandResultsModel;

    open spec fn view(&self) -> CommandResultsModel {
        CommandResultsModel {
            added: task_views(self.tasks_added@),
            completed: string_views(self.tasks_completed@),
            dropped: string_views(self.tasks_dropped@),
            edited: string_views(self.tasks_edited@),
            errors: string_views(self.errors@),
        }
    }
}

/// An empty results object.
pub open spec fn results_empty(m: CommandResultsModel) -> bool {
    m.added.len() == 0 && m.completed.len() == 0 && m.dropped.len() == 0 && m.edited.len() == 0
        && m.errors.len() == 0
}

impl Default for CommandResults {
    /// All five lists empty.
    fn default() -> (r: CommandResults)
        ensures
            results_empty(r@),
    {
        CommandResults {
            tasks_added: Vec::new(),
            tasks_completed: Vec::new(),
            tasks_dropped: Vec::new(),
            tasks_edited: Vec::new(),
            errors: Vec::new(),
        }
    }
}

/// One plain bullet line of the confirmation text.
pub open spec fn bullet_line(t: Seq<char>) -> Seq<char> {
    "  • "@ + t + "\n"@
}

/// The bullet lines for a list of titles, in order.
pub open spec fn bullet_lines(ts: Seq<Seq<char>>) -> Seq<char>
    decreases ts.len(),
{
    if ts.len() == 0 {
        seq![]
    } else {
        bullet_lines(ts.drop_last()) + bullet_line(ts.last())
    }
}

/// The ` (u2i3)` priority suffix of an added-task line.
pub open spec fn priority_suffix(u: u8, i: u8) -> Seq<char> {
    " (u"@ + dec_str(u as int) + "i"@ + dec_str(i as int) + ")"@
}

/// One added-task bullet line.
pub open spec fn added_line(pt: ParsedTaskModel) -> Seq<char> {
    "  • "@ + pt.title + priority_suffix(pt.urgency, pt.importance) + "\n"@
}

/// The added-task bullet lines, in order.
pub open spec fn added_lines(ts: Seq<ParsedTaskModel>) -> Seq<char>
    decreases ts.len(),
{
    if ts.len() == 0 {
        seq![]
    } else {
        added_lines(ts.drop_last()) + added_line(ts.last())
    }
}

/// The whole confirmation text: a header, then one section for each
/// non-empty list, in a fixed order. Deterministic in the results alone.
pub open spec fn format_confirmation_spec(m: CommandResultsModel) -> Seq<char> {
    "\n━━━ Command Results ━━━\n"@ + (if m.completed.len() > 0 {
        "✓ Completed:\n"@ + bullet_lines(m.completed)
    } else {
        seq![]
    }) + (if m.dropped.len() > 0 {
        "✓ Dropped:\n"@ + bullet_lines(m.dropped)
    } else {
        seq![]
    }) + (if m.added.len() > 0 {
        "✓ Added:\n"@ + added_lines(m.added)
    } else {
        seq![]
    }) + (if m.edited.len() > 0 {
        "✓ Edited:\n"@ + bullet_lines(m.edited)
    } else {
        seq![]
    }) + (if m.errors.len() > 0 {
        "⚠ Errors:\n"@ + bullet_lines(m.errors)
    } else {
        seq![]
    })
}

fn push_bullets(out: &mut Vec<char>, ts: &Vec<String>)
    ensures
        final(out)@ == old(out)@ + bullet_lines(string_views(ts@)),
{
    let n = ts.len();
    let mut i: usize = 0;
    proof {
        let vs = string_views(ts@);
        assert(bullet_lines(vs.subrange(0, 0)) =~= Seq::<char>::empty());
        assert(out@ =~= old(out)@ + bullet_lines(vs.subrange(0, 0)));
    }
    while i < n
        invariant
            i <= n == ts@.len(),
            out@ == old(out)@ + bullet_lines(string_views(ts@).subrange(0, i as int)),
        decreases n - i,
    {
        push_str_chars(out, "  • ");
        push_string_chars(out, &ts[i]);
        push_str_chars(out, "\n");
        proof {
            let vs = string_views(ts@);
            let pre1 = vs.subrange(0, i + 1);
            assert(pre1.drop_last() =~= vs.subrange(0, i as int));
            assert(pre1.last() == ts@[i as int]@);
            assert(out@ =~= old(out)@ + bullet_lines(pre1));
        }
        i = i + 1;
    }
    proof {
        assert(string_views(ts@).subrange(0, n as int) =~= string_views(ts@));
    }
}

/// Append the ` (u2i3)` suffix for one priority pair.
pub(crate) fn push_priority_suffix(out: &mut Vec<char>, u: u8, i: u8)
    ensures
        final(out)@ == old(out)@ + priority_suffix(u, i),
{
    push_str_chars(out, " (u");
    let ud = usize_dec_chars(u as usize);
    out.extend_from_slice(ud.as_slice());
    push_str_chars(out, "i");
    let id = usize_dec_chars(i as usize);
    out.extend_from_slice(id.as_slice());
    push_str_chars(out, ")");
    proof {
        assert(out@ =~= old(out)@ + priority_suffix(u, i));
    }
}

fn push_added(out: &mut Vec<char>, ts: &Vec<ParsedTask>)
    ensures
        final(out)@ == old(out)@ + added_lines(task_views(ts@)),
{
    let n = ts.len();
    let mut i: usize = 0;
    proof {
        let vs = task_views(ts@);
        assert(added_lines(vs.subrange(0, 0)) =~= Seq::<char>::empty());
        assert(out@ =~= old(out)@ + added_lines(vs.subrange(0, 0)));
    }
    while i < n
        invariant
            i <= n == ts@.len(),
            out@ == old(out)@ + added_lines(task_views(ts@).subrange(0, i as int)),
        decreases n - i,
    {
        push_str_chars(out, "  • ");
        push_string_chars(out, &ts[i].title);
        push_priority_suffix(out, ts[i].urgency, ts[i].importance);
        push_str_chars(out, "\n");
        proof {
            let vs = task_views(ts@);
            let pre1 = vs.subrange(0, i + 1);
            assert(pre1.drop_last() =~= vs.subrange(0, i as int));
            assert(pre1.last() == ts@[i as int]@);
            assert(out@ =~= old(out)@ + added_lines(pre1));
        }
        i = i + 1;
    }
    proof {
        assert(task_views(ts@).subrange(0, n as int) =~= task_views(ts@));
    }
}

impl CommandResults {
    /// Render the structured summary shown after a batch ran: a fixed
    /// header, then each non-empty section. Pure in the results object.
    #[verifier::rlimit(60)]
    pub fn format_confirmation(&self) -> (r: String)
        ensures
            r@ == format_confirmation_spec(self@),
    {
        let mut out: Vec<char> = Vec::new();
        push_str_chars(&mut out, "\n━━━ Command Results ━━━\n");
        if self.tasks_completed.len() > 0 {
            push_str_chars(&mut out, "✓ Completed:\n");
            push_bullets(&mut out, &self.tasks_completed);
        }
        if self.tasks_dropped.len() > 0 {
            push_str_chars(&mut out, "✓ Dropped:\n");
            push_bullets(&mut out, &self.tasks_dropped);
        }
        if self.tasks_added.len() > 0 {
            push_str_chars(&mut out, "✓ Added:\n");
            push_added(&mut out, &self.tasks_added);
        }
        if self.tasks_edited.len() > 0 {
            push_str_chars(&mut out, "✓ Edited:\n");
            push_bullets(&mut out, &self.tasks_edited);
        }
        if self.errors.len() > 0 {
            push_str_chars(&mut out, "⚠ Errors:\n");
            push_bullets(&mut out, &self.errors);
        }
        proof {
            assert(out@ =~= format_confirmation_spec(self@));
        }
        chars_to_string(&out)
    }
}

/// Scan the words of a directive body once: the last priority token wins,
/// the words that are no priority token are kept, in order.
pub(crate) fn scan_words(words: &Vec<Vec<char>>) -> (r: (Option<(u8, u8)>, Vec<Vec<char>>))
    ensures
        r.0 == last_priority(views_of(words@)),
        views_of(r.1@) == title_words(views_of(words@)),
{
    let n = words.len();
    let mut prio: Option<(u8, u8)> = None;
    let mut title: Vec<Vec<char>> = Vec::new();
    let mut i: usize = 0;
    proof {
        let vs = views_of(words@);
        assert(vs.subrange(0, 0) =~= Seq::<Seq<char>>::empty());
        assert(views_of(title@) =~= Seq::<Seq<char>>::empty());
        assert(title_words(vs.subrange(0, 0)) =~= Seq::<Seq<char>>::empty());
    }
    while i < n
        invariant
            i <= n == words@.len(),
            prio == last_priority(views_of(words@).subrange(0, i as int)),
            views_of(title@) == title_words(views_of(words@).subrange(0, i as int)),
        decreases n - i,
    {
        let w = &words[i];
        let p = parse_priority_chars(w);
        proof {
            let vs = views_of(words@);
            let pre = vs.subrange(0, i as int);
            let pre1 = vs.subrange(0, i + 1);
            assert(pre1.drop_last() =~= pre);
            assert(pre1.last() == words@[i as int]@);
        }
        if p.is_some() {
            prio = p;
            proof {
                let vs = views_of(words@);
                let pre1 = vs.subrange(0, i + 1);
                assert(title_words(pre1) =~= title_words(pre1.drop_last()));
            }
        } else {
            let copy = sub_chars(w, 0, w.len());
            proof {
                assert(copy@ =~= words@[i as int]@);
                crate::text::lemma_views_push(title@, copy);
                let vs = views_of(words@);
                let pre1 = vs.subrange(0, i + 1);
                assert(title_words(pre1) =~= title_words(pre1.drop_last()).push(pre1.last()));
            }
            title.push(copy);
        }
        i = i + 1;
    }
    proof {
        assert(views_of(words@).subrange(0, n as int) =~= views_of(words@));
    }
    (prio, title)
}

/// Read an `[ADD]` directive body.
pub fn parse_add_command(input: &Vec<char>) -> (r: Option<ParsedTask>)
    ensures
        opt_task_view(r) == parse_add_spec(input@),
{
    if input.len() == 0 {
        return None;
    }
    let words = split_ws_chars(input);
    let (prio, title_parts) = scan_words(&words);
    let title = join_sp_chars(&title_parts);
    if title.len() == 0 {
        return None;
    }
    let (u, i) = match prio {
        Some(p) => p,
        None => (1u8, 1u8),
    };
    Some(ParsedTask { title: chars_to_string(&title), urgency: u, importance: i })
}

/// Read a `[DONE]`/`[DROP]` directive body as a target identifier.
pub fn parse_task_identifier(input: &Vec<char>) -> (r: Option<TaskIdentifier>)
    ensures
        opt_ident_view(r) == parse_ident_spec(input@),
{
    let t = trim_chars(input);
    if t.len() == 0 {
        return None;
    }
    if t[0] == '#' {
        let rest = sub_chars(&t, 1, t.len());
        proof {
            assert(rest@ =~= t@.drop_first());
        }
        let rest_t = trim_chars(&rest);
        if let Some(n) = parse_usize_chars(&rest_t) {
            return Some(TaskIdentifier::Index(n));
        }
    }
    if let Some(n) = parse_usize_chars(&t) {
        return Some(TaskIdentifier::Index(n));
    }
    Some(TaskIdentifier::Title(chars_to_string(&t)))
}

/// Read an `[EDIT]` directive body.
pub fn parse_edit_command(input: &Vec<char>) -> (r: Option<AICommand>)
    ensures
        opt_cmd_view(r) == parse_edit_spec(input@),
{
    let n = input.len();
    if n == 0 {
        return None;
    }
    // find the first `->`
    let mut f: usize = 0;
    while f < n - 1 && !(input[f] == '-' && input[f + 1] == '>')
        invariant
            n >= 1,
            f <= n - 1,
            n == input@.len(),
            forall|j: int|
                0 <= j < f && j + 1 < n ==> !(#[trigger] input@[j] == '-' && input@[j + 1] == '>'),
        decreases n - f,
    {
        f = f + 1;
    }
    if f < n - 1 {
        proof {
            lemma_find_arrow_is(input@, f as int);
        }
        let left = sub_chars(input, 0, f);
        let right = sub_chars(input, f + 2, n);
        match parse_task_identifier(&left) {
            None => None,
            Some(target) => {
                let words = split_ws_chars(&right);
                let (prio, title_parts) = scan_words(&words);
                let new_title = if title_parts.len() == 0 {
                    None
                } else {
                    let title = join_sp_chars(&title_parts);
                    Some(chars_to_string(&title))
                };
                let (nu, ni) = match prio {
                    Some(p) => (Some(p.0), Some(p.1)),
                    None => (None, None),
                };
                Some(
                    AICommand::Edit {
                        target,
                        new_title,
                        new_urgency: nu,
                        new_importance: ni,
                    },
                )
            },
        }
    } else {
        // no arrow anywhere
        proof {
            lemma_find_arrow_is(input@, n as int);
        }
        let words = split_ws_chars(input);
        let (prio, title_parts) = scan_words(&words);
        let title = join_sp_chars(&title_parts);
        if title.len() == 0 {
            return None;
        }
        let (nu, ni) = match prio {
            Some(p) => (Some(p.0), Some(p.1)),
            None => (None, None),
        };
        Some(
            AICommand::Edit {
                target: TaskIdentifier::Title(chars_to_string(&title)),
                new_title: None,
                new_urgency: nu,
                new_importance: ni,
            },
        )
    }
}

/// Read one line of a reply.
fn parse_line(line: &Vec<char>) -> (r: Option<AICommand>)
    ensures
        opt_cmd_view(r) == cmd_of_line(line@),
{
    let t = trim_chars(line);
    proof {
        reveal_strlit("[ADD]");
        reveal_strlit("[DONE]");
        reveal_strlit("[DROP]");
        reveal_strlit("[EDIT]");
    }
    let tag_add = str_to_chars("[ADD]");
    let tag_done = str_to_chars("[DONE]");
    let tag_drop = str_to_chars("[DROP]");
    let tag_edit = str_to_chars("[EDIT]");
    if starts_with_chars(&t, &tag_add) {
        let rest = sub_chars(&t, 5, t.len());
        let body = trim_chars(&rest);
        match parse_add_command(&body) {
            Some(pt) => Some(AICommand::Add(pt)),
            None => None,
        }
    } else if starts_with_chars(&t, &tag_done) {
        let rest = sub_chars(&t, 6, t.len());
        let body = trim_chars(&rest);
        match parse_task_identifier(&body) {
            Some(id) => Some(AICommand::Done(id)),
            None => None,
        }
    } else if starts_with_chars(&t, &tag_drop) {
        let rest = sub_chars(&t, 6, t.len());
        let body = trim_chars(&rest);
        match parse_task_identifier(&body) {
            Some(id) => Some(AICommand::Drop(id)),
            None => None,
        }
    } else if starts_with_chars(&t, &tag_edit) {
        let rest = sub_chars(&t, 6, t.len());
        let body = trim_chars(&rest);
        parse_edit_command(&body)
    } else {
        None
    }
}

/// Extract every directive from one assistant reply, in source order.
pub fn parse_commands(response: &str) -> (r: Vec<AICommand>)
    ensures
        cmd_views(r@) == parse_commands_spec(response@),
{
    let chars = str_to_chars(response);
    let lines = split_lines_chars(&chars);
    let n = lines.len();
    let mut r: Vec<AICommand> = Vec::new();
    let mut i: usize = 0;
    proof {
        let ls = views_of(lines@);
        assert(ls.subrange(0, 0) =~= Seq::<Seq<char>>::empty());
        assert(cmd_views(r@) =~= Seq::<AICommandModel>::empty());
        assert(cmds_of_lines(ls.subrange(0, 0)) =~= Seq::<AICommandModel>::empty());
    }
    while i < n
        invariant
            i <= n == lines@.len(),
            cmd_views(r@) == cmds_of_lines(views_of(lines@).subrange(0, i as int)),
        decreases n - i,
    {
        let cmd = parse_line(&lines[i]);
        proof {
            let ls = views_of(lines@);
            let pre = ls.subrange(0, i as int);
            let pre1 = ls.subrange(0, i + 1);
            assert(pre1.drop_last() =~= pre);
            assert(pre1.last() == lines@[i as int]@);
        }
        match cmd {
            Some(c) => {
                proof {
                    let ls = views_of(lines@);
                    let pre1 = ls.subrange(0, i + 1);
                    assert(cmd_views(r@.push(c)) =~= cmd_views(r@).push(c@));
                    assert(cmds_of_lines(pre1) =~= cmds_of_lines(pre1.drop_last()).push(c@));
                }
                r.push(c);
            },
            None => {
                proof {
                    let ls = views_of(lines@);
                    let pre1 = ls.subrange(0, i + 1);
                    assert(cmds_of_lines(pre1) =~= cmds_of_lines(pre1.drop_last()));
                }
            },
        }
        i = i + 1;
    }
    proof {
        assert(views_of(lines@).subrange(0, n as int) =~= views_of(lines@));
        assert(views_of(lines@) == split_lines(response@));
    }
    r
}

/// The tasks of the `Add` directives among a directive sequence, in order.
pub open spec fn adds_of(cmds: Seq<AICommandModel>) -> Seq<ParsedTaskModel>
    decreases cmds.len(),
{
    if cmds.len() == 0 {
        seq![]
    } else {
        adds_of(cmds.drop_last()) + match cmds.last() {
            AICommandModel::Add(pt) => seq![pt],
            _ => seq![],
        }
    }
}

/// Extract only the `[ADD]` directives of a reply, in order.
pub fn parse_add_commands(response: &str) -> (r: Vec<ParsedTask>)
    ensures
        task_views(r@) == adds_of(parse_commands_spec(response@)),
{
    let cmds = parse_commands(response);
    let n = cmds.len();
    let mut r: Vec<ParsedTask> = Vec::new();
    let mut i: usize = 0;
    proof {
        let cs = cmd_views(cmds@);
        assert(cs.subrange(0, 0) =~= Seq::<AICommandModel>::empty());
        assert(task_views(r@) =~= Seq::<ParsedTaskModel>::empty());
        assert(adds_of(cs.subrange(0, 0)) =~= Seq::<ParsedTaskModel>::empty());
    }
    while i < n
        invariant
            i <= n == cmds@.len(),
            task_views(r@) == adds_of(cmd_views(cmds@).subrange(0, i as int)),
        decreases n - i,
    {
        proof {
            let cs = cmd_views(cmds@);
            let pre1 = cs.subrange(0, i + 1);
            assert(pre1.drop_last() =~= cs.subrange(0, i as int));
            assert(pre1.last() == cmds@[i as int]@);
        }
        match &cmds[i] {
            AICommand::Add(pt) => {
                let copy = ParsedTask {
                    title: pt.title.clone(),
                    urgency: pt.urgency,
                    importance: pt.importance,
                };
                proof {
                    let cs = cmd_views(cmds@);
                    let pre1 = cs.subrange(0, i + 1);
                    assert(task_views(r@.push(copy)) =~= task_views(r@).push(copy@));
                    assert(adds_of(pre1) =~= adds_of(pre1.drop_last()).push(copy@));
                }
                r.push(copy);
            },
            _ => {
                proof {
                    let cs = cmd_views(cmds@);
                    let pre1 = cs.subrange(0, i + 1);
                    assert(adds_of(pre1) =~= adds_of(pre1.drop_last()));
                }
            },
        }
        i = i + 1;
    }
    proof {
        assert(cmd_views(cmds@).subrange(0, n as int) =~= cmd_views(cmds@));
    }
    r
}

/// One line of the plain added-task summary.
pub open spec fn legacy_line(pt: ParsedTaskModel) -> Seq<char> {
    "• "@ + pt.title + priority_suffix(pt.urgency, pt.importance) + "\n"@
}

/// The lines of the plain added-task summary, in order.
pub open spec fn legacy_lines(ts: Seq<ParsedTaskModel>) -> Seq<char>
    decreases ts.len(),
{
    if ts.len() == 0 {
        seq![]
    } else {
        legacy_lines(ts.drop_last()) + legacy_line(ts.last())
    }
}

/// The plain added-task summary: empty for no tasks, else a header and one
/// line per task.
pub open spec fn format_task_confirmation_spec(ts: Seq<ParsedTaskModel>) -> Seq<char> {
    if ts.len() == 0 {
        seq![]
    } else {
        "\n━━━ ✓ Tasks Added ━━━\n"@ + legacy_lines(ts)
    }
}

/// Render the plain summary for a list of added tasks.
pub fn format_task_confirmation(tasks: &Vec<ParsedTask>) -> (r: String)
    ensures
        r@ == format_task_confirmation_spec(task_views(tasks@)),
{
    let n = tasks.len();
    if n == 0 {
        let out: Vec<char> = Vec::new();
        proof {
            assert(out@ =~= format_task_confirmation_spec(task_views(tasks@)));
        }
        return chars_to_string(&out);
    }
    let mut out: Vec<char> = Vec::new();
    push_str_chars(&mut out, "\n━━━ ✓ Tasks Added ━━━\n");
    let ghost header = out@;
    let mut i: usize = 0;
    proof {
        let vs = task_views(tasks@);
        assert(legacy_lines(vs.subrange(0, 0)) =~= Seq::<char>::empty());
        assert(out@ =~= header + legacy_lines(vs.subrange(0, 0)));
    }
    while i < n
        invariant
            i <= n == tasks@.len(),
            out@ == header + legacy_lines(task_views(tasks@).subrange(0, i as int)),
        decreases n - i,
    {
        push_str_chars(&mut out, "• ");
        push_string_chars(&mut out, &tasks[i].title);
        push_priority_suffix(&mut out, tasks[i].urgency, tasks[i].importance);
        push_str_chars(&mut out, "\n");
        proof {
            let vs = task_views(tasks@);
            let pre1 = vs.subrange(0, i + 1);
            assert(pre1.drop_last() =~= vs.subrange(0, i as int));
            assert(pre1.last() == tasks@[i as int]@);
            assert(out@ =~= header + legacy_lines(pre1));
        }
        i = i + 1;
    }
    proof {
        assert(task_views(tasks@).subrange(0, n as int) =~= task_views(tasks@));
        assert(out@ =~= format_task_confirmation_spec(task_views(tasks@)));
    }
    chars_to_string(&out)
}

} // verus!

