//! The assistant-facing types: conversation turns, the one-shot outcome of a
//! request, the curated quote bank and the system prompt built around it.
//! Sending the request over the network is a caller's concern.

use vstd::prelude::*;

use crate::text::{chars_to_string, push_str_chars, push_string_chars, str_to_chars};

verus! {

/// One conversation turn.
#[derive(Debug, Clone)]
pub struct ChatMessage {
    pub role: String,
    pub content: String,
}

/// The single outcome of one assistant request: the reply text, or a
/// human-readable error.
pub enum AIResponse {
    Success(String),
    Error(String),
}

/// The system prompt around a quote-bank text and a context blob: fixed
/// template text with the two inserted at fixed places.
pub open spec fn prompt_of(bank: Seq<char>, context: Seq<char>) -> Seq<char> {
    PROMPT_HEAD@ + bank + PROMPT_MID@ + context + PROMPT_TAIL@
}

pub const PROMPT_HEAD: &'static str = "You are Xiaolong's executive assistant specializing in the Eisenhower Matrix methodology. You combine the precision of a professional secretary with strategic thinking.\n\n## CORE RESPONSIBILITIES\n\n### Task Decomposition (GTD-Inspired)\nWhen the user describes a goal or project:\n1. Identify the **next physical action** \u{2014} what's the very first concrete step that takes < 30 min?\n2. Break larger tasks into 15-45 minute actionable chunks\n3. Surface hidden dependencies: \"Before X, you need Y\"\n4. Question scope: \"Is this actually one task or three?\"\n5. Suggest time-boxing: \"This looks like a 2-hour deep work block\"\n\n### Priority Assessment\nApply these criteria rigorously:\n\n**Urgency (1-3):**\n- 3: Due within 24h OR blocks others OR external deadline today\n- 2: Due this week OR has scheduling constraint  \n- 1: No time pressure, flexible timing\n\n**Importance (1-3):**\n- 3: Directly advances key goals (research, thesis, career), high-stakes, or irreversible\n- 2: Contributes meaningfully but not critical path\n- 1: Nice-to-have, low impact if skipped\n\n### Challenge Low-Value Work\n- For Q3 (Delegate): \"Can this be delegated, automated, batched, or declined?\"\n- For Q4 (Drop): \"Why is this on your list? Should it be dropped entirely?\"\n- Spot \"urgency theater\" \u{2014} tasks that feel urgent but aren't truly important\n\n## OUTPUT FORMAT\nWhen suggesting tasks, use exactly:\n[ADD] Task name u<1-3>i<1-3>\n\nExamples:\n[ADD] Draft email to Prof. Imai re: meeting agenda u2i3\n[ADD] Review evalITR test failures u3i2\n[ADD] Organize Obsidian research notes u1i2\n[ADD] Buy groceries u2i1\n\n## QUOTE COMMAND\nWhen user says \"quote\" (case-insensitive), respond with ONE quote from the verified bank below, when using quote not from the bank, make sure it is a verified quote.\n- Select randomly from the bank; don't repeat recent selections\n- For variety, select quotes from authors across domains and eras: scientists, philosophers, artists, business people, etc.\n- Output format: \"[quote text]\" \u{2014} [author], [essay title]\n- Rotate languages when using non-PG quotes: include Seneca, and others\n- NEVER invent or paraphrase quotes; use exact wording from the bank\n\n### VERIFIED PAUL GRAHAM QUOTE BANK:\n";

pub const PROMPT_MID: &'static str = "\n\n### ALTERNATE VERIFIED QUOTES (for variety):\n- \"\u{4e8b}\u{4e0a}\u{78e8}\u{7ec3}\" \u{2014} \u{738b}\u{9633}\u{660e} (Practice and refine yourself through action)\n- \"\u{5929}\u{4e0b}\u{53e4}\u{4eca}\u{4e4b}\u{5eb8}\u{4eba}\u{ff0c}\u{7686}\u{4ee5}\u{4e00}\u{60f0}\u{5b57}\u{81f4}\u{8d25}\" \u{2014} \u{66fe}\u{56fd}\u{85e9} (Mediocrity stems from laziness)\n- \"It is not that we have a short time to live, but that we waste a lot of it.\" \u{2014} Seneca\n- \"\u{4e88}\u{5b9a}\u{306f}\u{6c7a}\u{610f}\u{306e}\u{534a}\u{5206}\u{3067}\u{3042}\u{308b}\" \u{2014} \u{677e}\u{4e0b}\u{5e78}\u{4e4b}\u{52a9} (A plan is half the commitment)\n- \"The best time to plant a tree was 20 years ago. The second best time is now.\"\n\n## CURRENT TASKS IN SYSTEM:\n";

pub const PROMPT_TAIL: &'static str = "\n\n## STYLE GUIDELINES\n- Be direct and concise; no filler phrases like \"Great question!\"\n- One clear recommendation per response when possible\n- Ask ONE clarifying question if the task is too vague to decompose\n- Match the user's language (English/Chinese) when appropriate\n- For complex planning, use structured output with clear next actions";

/// The sources the curated quotes come from.
pub const SRC_GREAT_WORK: &'static str = "How to Do Great Work";
pub const SRC_IDENTITY: &'static str = "Keep Your Identity Small";
pub const SRC_DONT_SCALE: &'static str = "Do Things That Don't Scale";
pub const SRC_MAKER_SCHEDULE: &'static str = "Maker's Schedule, Manager's Schedule";
pub const SRC_START_STARTUP: &'static str = "How to Start a Startup";
pub const SRC_BUS_TICKET: &'static str = "The Bus Ticket Theory of Genius";

/// The curated, verified quotes: exact wording from the essays.
pub const QUOTE_01: &'static str = "The way to figure out what to work on is by working. If you're not sure what to work on, guess. But pick something and get going.";
pub const QUOTE_02: &'static str = "Develop a habit of working on your own projects. Don't let 'work' mean something other people tell you to do.";
pub const QUOTE_03: &'static str = "The three most powerful motives are curiosity, delight, and the desire to do something impressive. Sometimes they converge, and that combination is the most powerful of all.";
pub const QUOTE_04: &'static str = "Writing a page a day doesn't sound like much, but if you do it every day you'll write a book a year. That's the key: consistency.";
pub const QUOTE_05: &'static str = "People who do great things don't get a lot done every day. They get something done, rather than nothing.";
pub const QUOTE_06: &'static str = "Work doesn't just happen when you're trying to. There's a kind of undirected thinking you do when walking or taking a shower or lying in bed that can be very powerful.";
pub const QUOTE_07: &'static str = "It's usually a mistake to lie to yourself if you want to do great work, but this is one of the rare cases where it isn't. When I'm reluctant to start work in the morning, I often trick myself by saying 'I'll just read over what I've got so far.'";
pub const QUOTE_08: &'static str = "Try to finish what you start, though, even if it turns out to be more work than you expected. Finishing things is not just an exercise in tidiness or self-discipline.";
pub const QUOTE_09: &'static str = "The reason we're surprised is that we underestimate the cumulative effect of work.";
pub const QUOTE_10: &'static str = "Curiosity is the best guide. Your curiosity never lies, and it knows more than you do about what's worth paying attention to.";
pub const QUOTE_11: &'static str = "If you made it this far, you must be interested in doing great work. And if so you're already further along than you might realize.";
pub const QUOTE_12: &'static str = "Don't worry about being presumptuous. You don't have to tell anyone. And if it's too hard and you fail, so what? Lots of people have worse problems than that.";
pub const QUOTE_13: &'static str = "The discoveries are out there, waiting to be made. Why not by you?";
pub const QUOTE_14: &'static str = "The more labels you have for yourself, the dumber they make you.";
pub const QUOTE_15: &'static str = "If people can't think clearly about anything that has become part of their identity, then all other things being equal, the best plan is to let as few things into your identity as possible.";
pub const QUOTE_16: &'static str = "Actually startups take off because the founders make them take off.";
pub const QUOTE_17: &'static str = "The question to ask about an early stage startup is not 'is this company taking over the world?' but 'how big could this company get if the founders did the right things?'";
pub const QUOTE_18: &'static str = "I have never once seen a startup lured down a blind alley by trying too hard to make their initial users happy.";
pub const QUOTE_19: &'static str = "It's not enough just to do something extraordinary initially. You have to make an extraordinary effort initially.";
pub const QUOTE_20: &'static str = "When you're operating on the maker's schedule, meetings are a disaster. A single meeting can blow a whole afternoon, by breaking it into two pieces each too small to do anything hard in.";
pub const QUOTE_21: &'static str = "For someone on the maker's schedule, having a meeting is like throwing an exception. It doesn't merely cause you to switch from one task to another; it changes the mode in which you work.";
pub const QUOTE_22: &'static str = "Don't your spirits rise at the thought of having an entire day free to work, with no appointments at all?";
pub const QUOTE_23: &'static str = "What matters is not ideas, but the people who have them. Good people can fix bad ideas, but good ideas can't save bad people.";
pub const QUOTE_24: &'static str = "The smarter they are, the less pressure they feel to act smart. So as a rule you can recognize genuinely smart people by their ability to say things like 'I don't know,' 'Maybe you're right,' and 'I don't understand x well enough.'";
pub const QUOTE_25: &'static str = "It's worth trying very, very hard to make technology easy to use. Hackers are so used to computers that they have no idea how horrifying software seems to normal people.";
pub const QUOTE_26: &'static str = "In technology, the low end always eats the high end. It's easier to make an inexpensive product more powerful than to make a powerful product cheaper.";
pub const QUOTE_27: &'static str = "If I had to put the recipe for genius into one sentence, that might be it: to have a disinterested obsession with something that matters.";
pub const QUOTE_28: &'static str = "An obsessive interest will even bring you luck, to the extent anything can. Chance, as Pasteur said, favors the prepared mind, and if there's one thing an obsessed mind is, it's prepared.";
pub const QUOTE_29: &'static str = "Perhaps the reason people have fewer new ideas as they get older is not simply that they're losing their edge. It may also be because once you become established, you can no longer mess about with irresponsible side projects.";
pub const QUOTE_30: &'static str = "The solution to that is obvious: remain irresponsible.";

/// The curated quote bank as character sequences, in order: each quote with
/// the essay it comes from.
pub open spec fn quote_entries() -> Seq<(Seq<char>, Seq<char>)> {
    seq![
        (QUOTE_01@, SRC_GREAT_WORK@),
        (QUOTE_02@, SRC_GREAT_WORK@),
        (QUOTE_03@, SRC_GREAT_WORK@),
        (QUOTE_04@, SRC_GREAT_WORK@),
        (QUOTE_05@, SRC_GREAT_WORK@),
        (QUOTE_06@, SRC_GREAT_WORK@),
        (QUOTE_07@, SRC_GREAT_WORK@),
        (QUOTE_08@, SRC_GREAT_WORK@),
        (QUOTE_09@, SRC_GREAT_WORK@),
        (QUOTE_10@, SRC_GREAT_WORK@),
        (QUOTE_11@, SRC_GREAT_WORK@),
        (QUOTE_12@, SRC_GREAT_WORK@),
        (QUOTE_13@, SRC_GREAT_WORK@),
        (QUOTE_14@, SRC_IDENTITY@),
        (QUOTE_15@, SRC_IDENTITY@),
        (QUOTE_16@, SRC_DONT_SCALE@),
        (QUOTE_17@, SRC_DONT_SCALE@),
        (QUOTE_18@, SRC_DONT_SCALE@),
        (QUOTE_19@, SRC_DONT_SCALE@),
        (QUOTE_20@, SRC_MAKER_SCHEDULE@),
        (QUOTE_21@, SRC_MAKER_SCHEDULE@),
        (QUOTE_22@, SRC_MAKER_SCHEDULE@),
        (QUOTE_23@, SRC_START_STARTUP@),
        (QUOTE_24@, SRC_START_STARTUP@),
        (QUOTE_25@, SRC_START_STARTUP@),
        (QUOTE_26@, SRC_START_STARTUP@),
        (QUOTE_27@, SRC_BUS_TICKET@),
        (QUOTE_28@, SRC_BUS_TICKET@),
        (QUOTE_29@, SRC_BUS_TICKET@),
        (QUOTE_30@, SRC_BUS_TICKET@),
    ]
}

/// The views of a quote vector's entries, in order.
pub open spec fn pair_views(s: Seq<(&str, &str)>) -> Seq<(Seq<char>, Seq<char>)> {
    Seq::new(s.len(), |i: int| (s[i].0@, s[i].1@))
}

/// The curated, verified quotes from Paul Graham's essays: exactly the
/// entries of `quote_entries`, in order.
pub fn quote_bank() -> (r: Vec<(&'static str, &'static str)>)
    ensures
        pair_views(r@) == quote_entries(),
        r@.len() == 30,
{
    let mut v: Vec<(&'static str, &'static str)> = Vec::new();
    v.push((QUOTE_01, SRC_GREAT_WORK));
    v.push((QUOTE_02, SRC_GREAT_WORK));
    v.push((QUOTE_03, SRC_GREAT_WORK));
    v.push((QUOTE_04, SRC_GREAT_WORK));
    v.push((QUOTE_05, SRC_GREAT_WORK));
    v.push((QUOTE_06, SRC_GREAT_WORK));
    v.push((QUOTE_07, SRC_GREAT_WORK));
    v.push((QUOTE_08, SRC_GREAT_WORK));
    v.push((QUOTE_09, SRC_GREAT_WORK));
    v.push((QUOTE_10, SRC_GREAT_WORK));
    v.push((QUOTE_11, SRC_GREAT_WORK));
    v.push((QUOTE_12, SRC_GREAT_WORK));
    v.push((QUOTE_13, SRC_GREAT_WORK));
    v.push((QUOTE_14, SRC_IDENTITY));
    v.push((QUOTE_15, SRC_IDENTITY));
    v.push((QUOTE_16, SRC_DONT_SCALE));
    v.push((QUOTE_17, SRC_DONT_SCALE));
    v.push((QUOTE_18, SRC_DONT_SCALE));
    v.push((QUOTE_19, SRC_DONT_SCALE));
    v.push((QUOTE_20, SRC_MAKER_SCHEDULE));
    v.push((QUOTE_21, SRC_MAKER_SCHEDULE));
    v.push((QUOTE_22, SRC_MAKER_SCHEDULE));
    v.push((QUOTE_23, SRC_START_STARTUP));
    v.push((QUOTE_24, SRC_START_STARTUP));
    v.push((QUOTE_25, SRC_START_STARTUP));
    v.push((QUOTE_26, SRC_START_STARTUP));
    v.push((QUOTE_27, SRC_BUS_TICKET));
    v.push((QUOTE_28, SRC_BUS_TICKET));
    v.push((QUOTE_29, SRC_BUS_TICKET));
    v.push((QUOTE_30, SRC_BUS_TICKET));
    proof {
        assert(pair_views(v@) =~= quote_entries());
    }
    v
}

/// One rendered line of the quote bank.
pub open spec fn bank_line(q: Seq<char>, s: Seq<char>) -> Seq<char> {
    "- \""@ + q + "\" \u{2014} Paul Graham, "@ + s
}

/// The first `k` quote lines, joined with newlines.
pub open spec fn bank_text(entries: Seq<(Seq<char>, Seq<char>)>, k: int) -> Seq<char>
    decreases k,
{
    if k <= 0 {
        Seq::empty()
    } else if k == 1 {
        bank_line(entries[0].0, entries[0].1)
    } else {
        bank_text(entries, k - 1) + "\n"@ + bank_line(entries[k - 1].0, entries[k - 1].1)
    }
}

/// Build the system prompt: the fixed template with the rendered quote bank
/// and the serialized task context inserted at their places.
pub fn build_system_prompt(context: &str) -> (r: String)
    ensures
        r@ == prompt_of(bank_text(quote_entries(), quote_entries().len() as int), context@),
{
    let quotes = quote_bank();
    let mut bank: Vec<char> = Vec::new();
    let n = quotes.len();
    let mut i: usize = 0;
    proof {
        assert(bank@ =~= bank_text(quote_entries(), 0));
    }
    while i < n
        invariant
            i <= n == quotes@.len(),
            pair_views(quotes@) == quote_entries(),
            bank@ == bank_text(quote_entries(), i as int),
        decreases n - i,
    {
        if i > 0 {
            push_str_chars(&mut bank, "\n");
        }
        push_str_chars(&mut bank, "- \"");
        push_str_chars(&mut bank, quotes[i].0);
        push_str_chars(&mut bank, "\" \u{2014} Paul Graham, ");
        push_str_chars(&mut bank, quotes[i].1);
        proof {
            assert(quotes@[i as int].0@ == quote_entries()[i as int].0);
            assert(quotes@[i as int].1@ == quote_entries()[i as int].1);
            assert(bank@ =~= bank_text(quote_entries(), i + 1));
        }
        i = i + 1;
    }
    let mut out: Vec<char> = Vec::new();
    push_str_chars(&mut out, PROMPT_HEAD);
    out.extend_from_slice(bank.as_slice());
    push_str_chars(&mut out, PROMPT_MID);
    push_str_chars(&mut out, context);
    push_str_chars(&mut out, PROMPT_TAIL);
    proof {
        assert(out@ =~= prompt_of(bank@, context@));
    }
    chars_to_string(&out)
}

} // verus!
