//! Conversation logic shared by the terminal and the web chat: assembling
//! streamed tool calls, removing tagged blocks (`<think>`, `<tool_call>`) from
//! model output, and the accumulator that turns stream events into the saved
//! assistant message.

use vstd::prelude::*;
use vstd::utf8::{encode_utf8, is_char_boundary};
use crate::text::{opt_chars, append_decimal, decimal, str_eq, chars_of, find_first, find_from, find_vec, lemma_find_from, occurs_at, string_of, string_of_range, trim, trim_bounds};

verus! {

/// Tags whose blocks are removed: the opening tag starts with `<` and holds no
/// other `<`, the closing tag starts with `<`, and the two differ in their
/// second character. Then a closing tag found after an opening tag can only start
/// once the opening tag has ended.
pub open spec fn tag_pair_ok(open: Seq<char>, close: Seq<char>) -> bool {
    &&& open.len() >= 2
    &&& close.len() >= 2
    &&& close[0] == '<'
    &&& open[1] != close[1]
    &&& forall|i: int| 0 < i < open.len() ==> open[i] != '<'
}

/// The reasoning tags.
pub open spec fn think_open() -> Seq<char> {
    seq!['<', 't', 'h', 'i', 'n', 'k', '>']
}

/// The closing reasoning tag.
pub open spec fn think_close() -> Seq<char> {
    seq!['<', '/', 't', 'h', 'i', 'n', 'k', '>']
}

/// The tool-call tags some models write into their text.
pub open spec fn tool_call_open() -> Seq<char> {
    seq!['<', 't', 'o', 'o', 'l', '_', 'c', 'a', 'l', 'l', '>']
}

/// The closing tool-call tag.
pub open spec fn tool_call_close() -> Seq<char> {
    seq!['<', '/', 't', 'o', 'o', 'l', '_', 'c', 'a', 'l', 'l', '>']
}

/// A closing tag at or after an opening tag starts after the opening tag ends.
pub proof fn lemma_close_after_open(s: Seq<char>, open: Seq<char>, close: Seq<char>, a: int, b: int)
    requires
        tag_pair_ok(open, close),
        occurs_at(s, open, a),
        occurs_at(s, close, b),
        a <= b,
    ensures
        b >= a + open.len(),
{
    if b < a + open.len() {
        assert(s.subrange(b, b + close.len())[0] == s[b]);
        assert(s.subrange(a, a + open.len())[b - a] == s[b]);
        if b == a {
            assert(s.subrange(b, b + close.len())[1] == s[b + 1]);
            assert(s.subrange(a, a + open.len())[1] == s[a + 1]);
        }
    }
}

/// `s` with tagged blocks removed, and the non-blank texts that were inside them,
/// in order. Each round pairs the first opening tag with the first closing tag in
/// the whole text; the scan stops when either is missing or the closing tag comes
/// first.
pub open spec fn take_blocks(s: Seq<char>, open: Seq<char>, close: Seq<char>) -> (Seq<char>, Seq<Seq<char>>)
    decreases s.len(),
{
    if close.len() == 0 {
        (s, Seq::empty())
    } else {
        match find_first(s, open) {
            None => (s, Seq::empty()),
            Some(a) => match find_first(s, close) {
                None => (s, Seq::empty()),
                Some(b) => if b > a {
                    proof {
                        lemma_find_from(s, open, 0);
                        lemma_find_from(s, close, 0);
                    }
                    let inner = s.subrange(a + open.len(), b);
                    let rest = take_blocks(s.take(a) + s.skip(b + close.len()), open, close);
                    (rest.0, if trim(inner).len() > 0 { seq![inner] + rest.1 } else { rest.1 })
                } else {
                    (s, Seq::empty())
                },
            },
        }
    }
}

/// The non-blank texts of the complete blocks found from position `pos` on, and
/// the position after the last complete block (`pos` when there is none). Each
/// opening tag is paired with the first closing tag after it.
pub open spec fn scan_closed(s: Seq<char>, open: Seq<char>, close: Seq<char>, pos: int) -> (Seq<Seq<char>>, int)
    decreases s.len() + 1 - pos,
{
    if pos < 0 || close.len() == 0 {
        (Seq::empty(), pos)
    } else {
        match find_from(s, open, pos) {
            None => (Seq::empty(), pos),
            Some(a) => match find_from(s, close, a) {
                None => (Seq::empty(), pos),
                Some(b) => {
                    proof {
                        lemma_find_from(s, open, pos);
                        lemma_find_from(s, close, a);
                    }
                    let inner = s.subrange(a + open.len(), b);
                    let rest = scan_closed(s, open, close, b + close.len());
                    (if trim(inner).len() > 0 { seq![inner] + rest.0 } else { rest.0 }, rest.1)
                },
            },
        }
    }
}

/// The characters `v[..from] ++ v[to..]`.
fn cut_out(v: &Vec<char>, from: usize, to: usize) -> (r: Vec<char>)
    requires
        from <= to <= v@.len(),
    ensures
        r@ == v@.take(from as int) + v@.skip(to as int),
{
    let mut r: Vec<char> = Vec::new();
    let mut i: usize = 0;
    while i < from
        invariant
            i <= from <= to <= v@.len(),
            r@ == v@.take(i as int),
        decreases from - i,
    {
        r.push(v[i]);
        assert(v@.take(i + 1) =~= v@.take(i as int).push(v@[i as int]));
        i = i + 1;
    }
    let mut j: usize = to;
    while j < v.len()
        invariant
            from <= to <= j <= v@.len(),
            r@ == v@.take(from as int) + v@.subrange(to as int, j as int),
        decreases v@.len() - j,
    {
        r.push(v[j]);
        assert(v@.subrange(to as int, j + 1) =~= v@.subrange(to as int, j as int).push(v@[j as int]));
        j = j + 1;
    }
    assert(v@.subrange(to as int, v@.len() as int) =~= v@.skip(to as int));
    r
}

/// Whether `v[from..to]` holds a non-whitespace character.
fn is_non_blank(v: &Vec<char>, from: usize, to: usize) -> (r: bool)
    requires
        from <= to <= v@.len(),
    ensures
        r == (trim(v@.subrange(from as int, to as int)).len() > 0),
{
    let piece = vec_slice(v, from, to);
    let (a, b) = trim_bounds(&piece);
    a < b
}

/// The characters `v[from..to]`.
fn vec_slice(v: &Vec<char>, from: usize, to: usize) -> (r: Vec<char>)
    requires
        from <= to <= v@.len(),
    ensures
        r@ == v@.subrange(from as int, to as int),
{
    let mut r: Vec<char> = Vec::new();
    let mut i = from;
    while i < to
        invariant
            from <= i <= to <= v@.len(),
            r@ == v@.subrange(from as int, i as int),
        decreases to - i,
    {
        r.push(v[i]);
        assert(v@.subrange(from as int, i + 1) =~= v@.subrange(from as int, i as int).push(v@[i as int]));
        i = i + 1;
    }
    r
}

/// The views of a vector of strings.
pub open spec fn string_views(v: Seq<String>) -> Seq<Seq<char>> {
    v.map_values(|s: String| s@)
}

/// Removes every tagged block from `content` (see `take_blocks`) and returns
/// what is left together with the non-blank texts that were inside the blocks.
pub fn take_tag_blocks(content: &str, open: &str, close: &str) -> (r: (String, Vec<String>))
    requires
        tag_pair_ok(open@, close@),
    ensures
        r.0@ == take_blocks(content@, open@, close@).0,
        string_views(r.1@) == take_blocks(content@, open@, close@).1,
{
    let o = chars_of(open);
    let c = chars_of(close);
    let olen = o.len();
    let clen = c.len();
    let mut cur = chars_of(content);
    let mut found: Vec<String> = Vec::new();
    let ghost target = take_blocks(content@, open@, close@);
    loop
        invariant
            o@ == open@,
            c@ == close@,
            olen == o@.len(),
            clen == c@.len(),
            tag_pair_ok(open@, close@),
            take_blocks(cur@, open@, close@).0 == target.0,
            string_views(found@) + take_blocks(cur@, open@, close@).1 == target.1,
        ensures
            cur@ == target.0,
            string_views(found@) == target.1,
        decreases cur@.len(),
    {
        let ghost before = cur@;
        let ghost found_before = string_views(found@);
        match find_vec(&cur, &o, 0) {
            None => {
                assert(found_before + Seq::<Seq<char>>::empty() =~= found_before);
                break;
            },
            Some(a) => match find_vec(&cur, &c, 0) {
                None => {
                    assert(found_before + Seq::<Seq<char>>::empty() =~= found_before);
                    break;
                },
                Some(b) => {
                    if b <= a {
                        assert(found_before + Seq::<Seq<char>>::empty() =~= found_before);
                        break;
                    }
                    proof {
                        lemma_find_from(before, open@, 0);
                        lemma_find_from(before, close@, 0);
                        lemma_close_after_open(before, open@, close@, a as int, b as int);
                        assert(occurs_at(before, close@, b as int));
                    }
                    let n = cur.len();
                    assert(b + clen <= n);
                    let end = b + clen;
                    let ghost inner = before.subrange(a + olen, b as int);
                    let ghost rest = take_blocks(before.take(a as int) + before.skip(b + clen), open@, close@);
                    if is_non_blank(&cur, a + olen, b) {
                        let s = string_of_range(&cur, a + olen, b);
                        found.push(s);
                        assert(string_views(found@) =~= found_before.push(inner));
                        assert(found_before + (seq![inner] + rest.1) =~= found_before.push(inner) + rest.1);
                    }
                    cur = cut_out(&cur, a, end);
                },
            },
        }
    }
    (string_of(&cur), found)
}

/// The non-blank texts of the complete blocks of `s` from position `pos` on, and
/// the position after the last one (see `scan_closed`).
pub fn scan_closed_blocks(s: &Vec<char>, open: &Vec<char>, close: &Vec<char>, pos: usize) -> (r: (Vec<String>, usize))
    requires
        tag_pair_ok(open@, close@),
    ensures
        string_views(r.0@) == scan_closed(s@, open@, close@, pos as int).0,
        r.1 == scan_closed(s@, open@, close@, pos as int).1,
{
    let mut found: Vec<String> = Vec::new();
    let mut p = pos;
    let ghost target = scan_closed(s@, open@, close@, pos as int);
    let olen = open.len();
    let clen = close.len();
    loop
        invariant
            tag_pair_ok(open@, close@),
            olen == open@.len(),
            clen == close@.len(),
            string_views(found@) + scan_closed(s@, open@, close@, p as int).0 == target.0,
            scan_closed(s@, open@, close@, p as int).1 == target.1,
        ensures
            string_views(found@) == target.0,
            p == target.1,
        decreases s@.len() + 1 - p,
    {
        let ghost found_before = string_views(found@);
        match find_vec(s, open, p) {
            None => {
                assert(found_before + Seq::<Seq<char>>::empty() =~= found_before);
                break;
            },
            Some(a) => match find_vec(s, close, a) {
                None => {
                    assert(found_before + Seq::<Seq<char>>::empty() =~= found_before);
                    break;
                },
                Some(b) => {
                    proof {
                        lemma_find_from(s@, open@, p as int);
                        lemma_find_from(s@, close@, a as int);
                        lemma_close_after_open(s@, open@, close@, a as int, b as int);
                        assert(occurs_at(s@, close@, b as int));
                    }
                    let n = s.len();
                    assert(b + clen <= n);
                    let ghost inner = s@.subrange(a + olen, b as int);
                    let ghost rest = scan_closed(s@, open@, close@, b + clen);
                    if is_non_blank(s, a + olen, b) {
                        let t = string_of_range(s, a + olen, b);
                        found.push(t);
                        assert(string_views(found@) =~= found_before.push(inner));
                        assert(found_before + (seq![inner] + rest.0) =~= found_before.push(inner) + rest.0);
                    }
                    p = b + clen;
                },
            },
        }
    }
    (found, p)
}

/// One tool call as it is assembled from streamed fragments.
#[derive(Debug, Clone)]
pub struct ToolCallDraft {
    pub id: String,
    pub name: String,
    pub arguments: String,
}

/// A draft as `(id, name, arguments)`.
pub open spec fn draft_view(d: ToolCallDraft) -> (Seq<char>, Seq<char>, Seq<char>) {
    (d.id@, d.name@, d.arguments@)
}

/// The drafts as `(id, name, arguments)` triples.
pub open spec fn draft_views(v: Seq<ToolCallDraft>) -> Seq<(Seq<char>, Seq<char>, Seq<char>)> {
    v.map_values(|d: ToolCallDraft| draft_view(d))
}

/// The drafts after a fragment for call `index`: the list grows with empty drafts
/// until it has that entry; a given id or name replaces the entry's, and given
/// argument text is appended to its arguments.
pub open spec fn merged_drafts(
    old: Seq<(Seq<char>, Seq<char>, Seq<char>)>,
    index: nat,
    id: Option<Seq<char>>,
    name: Option<Seq<char>>,
    arguments: Option<Seq<char>>,
) -> Seq<(Seq<char>, Seq<char>, Seq<char>)> {
    let grown = if index < old.len() {
        old
    } else {
        old + Seq::new((index + 1 - old.len()) as nat, |i: int| (Seq::<char>::empty(), Seq::<char>::empty(), Seq::<char>::empty()))
    };
    let d = grown[index as int];
    grown.update(index as int, (
        match id { Some(x) => x, None => d.0 },
        match name { Some(x) => x, None => d.1 },
        match arguments { Some(x) => d.2 + x, None => d.2 },
    ))
}

/// Folds one streamed tool-call fragment into the drafts.
pub fn merge_tool_call_delta(
    drafts: &mut Vec<ToolCallDraft>,
    index: usize,
    id: Option<String>,
    name: Option<String>,
    arguments: Option<String>,
)
    requires
        index < usize::MAX,
    ensures
        draft_views(final(drafts)@) == merged_drafts(draft_views(old(drafts)@), index as nat, opt_chars(id), opt_chars(name), opt_chars(arguments)),
{
    let ghost old_views = draft_views(drafts@);
    let ghost grown = if (index as nat) < old_views.len() {
        old_views
    } else {
        old_views + Seq::new((index + 1 - old_views.len()) as nat, |i: int| (Seq::<char>::empty(), Seq::<char>::empty(), Seq::<char>::empty()))
    };
    while drafts.len() <= index
        invariant
            index < usize::MAX,
            old_views == draft_views(old(drafts)@),
            grown == (if (index as nat) < old_views.len() {
                old_views
            } else {
                old_views + Seq::new((index + 1 - old_views.len()) as nat, |i: int| (Seq::<char>::empty(), Seq::<char>::empty(), Seq::<char>::empty()))
            }),
            drafts@.len() <= index + 1 || drafts@.len() == old_views.len(),
            drafts@.len() >= old_views.len(),
            forall|k: int| 0 <= k < drafts@.len() ==> #[trigger] draft_view(drafts@[k]) == grown[k],
        decreases index + 1 - drafts@.len(),
    {
        drafts.push(ToolCallDraft { id: String::new(), name: String::new(), arguments: String::new() });
    }
    assert(draft_views(drafts@) =~= grown);
    let cur = &drafts[index];
    let new_id = match id {
        Some(x) => x,
        None => cur.id.clone(),
    };
    let new_name = match name {
        Some(x) => x,
        None => cur.name.clone(),
    };
    let mut new_args = cur.arguments.clone();
    match arguments {
        Some(x) => new_args.append(x.as_str()),
        None => {},
    }
    drafts.set(index, ToolCallDraft { id: new_id, name: new_name, arguments: new_args });
    assert(draft_views(drafts@) =~= merged_drafts(old_views, index as nat, opt_chars(id), opt_chars(name), opt_chars(arguments)));
}

/// A step of the assistant's work, saved with its message: a block of reasoning,
/// or a tool that ran.
#[derive(Debug, Clone)]
pub struct ThinkingStep {
    /// `"reasoning"` or `"tool"`.
    pub step_type: String,
    pub step_order: i32,
    pub content: Option<String>,
    pub tool_name: Option<String>,
    /// The tool's arguments as JSON text.
    pub tool_arguments: Option<String>,
    pub tool_result: Option<String>,
    pub tool_error: Option<String>,
    /// The answer text the model had written before the tool ran.
    pub content_before_tool: Option<String>,
}

/// The model of a step.
pub struct StepView {
    pub kind: Seq<char>,
    pub order: int,
    pub content: Option<Seq<char>>,
    pub tool_name: Option<Seq<char>>,
    pub tool_arguments: Option<Seq<char>>,
    pub tool_result: Option<Seq<char>>,
    pub tool_error: Option<Seq<char>>,
    pub content_before_tool: Option<Seq<char>>,
}

/// The model of a step.
pub open spec fn step_view(st: ThinkingStep) -> StepView {
    StepView {
        kind: st.step_type@,
        order: st.step_order as int,
        content: opt_chars(st.content),
        tool_name: opt_chars(st.tool_name),
        tool_arguments: opt_chars(st.tool_arguments),
        tool_result: opt_chars(st.tool_result),
        tool_error: opt_chars(st.tool_error),
        content_before_tool: opt_chars(st.content_before_tool),
    }
}

/// The models of a list of steps.
pub open spec fn step_views(v: Seq<ThinkingStep>) -> Seq<StepView> {
    v.map_values(|st: ThinkingStep| step_view(st))
}

/// A reasoning step.
pub open spec fn reasoning_view(order: int, text: Seq<char>) -> StepView {
    StepView {
        kind: "reasoning"@,
        order,
        content: Some(text),
        tool_name: None,
        tool_arguments: None,
        tool_result: None,
        tool_error: None,
        content_before_tool: None,
    }
}

/// Reasoning steps for the given texts, numbered from `first`.
pub open spec fn reasoning_views(texts: Seq<Seq<char>>, first: int) -> Seq<StepView> {
    Seq::new(texts.len(), |i: int| reasoning_view(first + i, texts[i]))
}

/// A reasoning step with the given order and text.
pub fn reasoning_step(order: i32, text: String) -> (st: ThinkingStep)
    ensures
        step_view(st) == reasoning_view(order as int, text@),
{
    ThinkingStep {
        step_type: String::from_str("reasoning"),
        step_order: order,
        content: Some(text),
        tool_name: None,
        tool_arguments: None,
        tool_result: None,
        tool_error: None,
        content_before_tool: None,
    }
}

/// Appends reasoning steps for `texts`, numbered on from `*order`.
fn push_reasoning_steps(steps: &mut Vec<ThinkingStep>, order: &mut i32, texts: Vec<String>)
    requires
        *old(order) + texts@.len() <= i32::MAX,
    ensures
        step_views(final(steps)@) == step_views(old(steps)@) + reasoning_views(string_views(texts@), *old(order) as int),
        *final(order) == *old(order) + texts@.len(),
{
    let ghost start = *order as int;
    let ghost before = step_views(steps@);
    let ghost tv = string_views(texts@);
    let mut texts = texts;
    let mut done: usize = 0;
    let n = texts.len();
    while texts.len() > 0
        invariant
            start + n <= i32::MAX,
            done + texts@.len() == n,
            tv.len() == n,
            string_views(texts@) == tv.skip(done as int),
            *order == start + done,
            step_views(steps@) == before + reasoning_views(tv.take(done as int), start),
        decreases texts@.len(),
    {
        let ghost ot = texts@;
        let ghost os = steps@;
        let t = texts.remove(0);
        assert(string_views(ot)[0] == ot[0]@);
        assert(tv.skip(done as int)[0] == tv[done as int]);
        assert(t@ == tv[done as int]);
        assert(texts@ =~= ot.skip(1));
        let st = reasoning_step(*order, t);
        steps.push(st);
        assert forall|k: int| 0 <= k < texts@.len() implies string_views(texts@)[k] == tv.skip(done + 1)[k] by {
            assert(texts@[k] == ot[k + 1]);
            assert(string_views(ot)[k + 1] == ot[k + 1]@);
            assert(tv.skip(done as int)[k + 1] == tv.skip(done + 1)[k]);
        }
        assert(string_views(texts@) =~= tv.skip(done + 1));
        assert(step_views(steps@) =~= step_views(os).push(step_view(st)));
        assert(reasoning_views(tv.take(done + 1), start) =~= reasoning_views(tv.take(done as int), start).push(reasoning_view(start + done, tv[done as int])));
        assert(step_views(steps@) =~= before + reasoning_views(tv.take(done + 1), start));
        *order = *order + 1;
        done = done + 1;
    }
    assert(tv.take(n as int) =~= tv);
}

/// What a streaming reply has accumulated so far.
pub struct StreamAccumulator {
    /// The answer text received, tags included.
    pub content: String,
    /// Reasoning text the provider sent apart from the answer.
    pub reasoning: String,
    pub input_tokens: i64,
    pub output_tokens: i64,
    pub reasoning_tokens: i64,
    pub cache_tokens: i64,
    /// Whether the provider reported token usage.
    pub received_usage: bool,
    /// Reasoning blocks and tool runs, in the order they completed.
    pub steps: Vec<ThinkingStep>,
    pub step_order: i32,
    /// Where the scan for complete reasoning blocks resumes.
    pub last_closed: usize,
}

/// A source shown with an answer.
#[derive(Debug, Clone)]
pub struct Source {
    pub title: String,
    pub content: String,
}

/// An event sent to the web client while a reply streams in.
#[allow(inconsistent_fields)]
pub enum StreamEvent {
    Session { session_id: String },
    Sources { sources: Vec<Source> },
    Content { text: String },
    Reasoning { text: String },
    ToolCall { name: String, arguments: String },
    ToolResult { name: String, result: String },
    Usage { input_tokens: i64, output_tokens: i64, reasoning_tokens: i64, cache_tokens: i64 },
    /// `tool_args` is JSON text.
    ToolApprovalRequest { approval_id: String, tool_name: String, tool_args: String, tool_description: String },
    ToolApprovalResponse { approval_id: String, approved: bool },
    /// `arguments` is JSON text.
    ToolInvocationCompleted { name: String, arguments: String, result: Option<String>, error: Option<String> },
    Error { message: String },
    Done,
}

/// A tool step.
pub open spec fn tool_view(
    order: int,
    name: Seq<char>,
    arguments: Seq<char>,
    result: Option<Seq<char>>,
    error: Option<Seq<char>>,
    content: Seq<char>,
) -> StepView {
    StepView {
        kind: "tool"@,
        order,
        content: None,
        tool_name: Some(name),
        tool_arguments: Some(arguments),
        tool_result: result,
        tool_error: error,
        content_before_tool: if trim(content).len() == 0 { None } else { Some(trim(content)) },
    }
}

/// Whether `apply` can take the event without an integer overflowing.
pub open spec fn accepts(acc: StreamAccumulator, event: StreamEvent) -> bool {
    match event {
        StreamEvent::Content { text } => acc.step_order + scan_closed(acc.content@ + text@, think_open(), think_close(), acc.last_closed as int).0.len() <= i32::MAX,
        StreamEvent::Usage { input_tokens, output_tokens, reasoning_tokens, cache_tokens } => {
            &&& i64::MIN <= acc.input_tokens + input_tokens <= i64::MAX
            &&& i64::MIN <= acc.output_tokens + output_tokens <= i64::MAX
            &&& i64::MIN <= acc.reasoning_tokens + reasoning_tokens <= i64::MAX
            &&& i64::MIN <= acc.cache_tokens + cache_tokens <= i64::MAX
        },
        StreamEvent::ToolInvocationCompleted { .. } => acc.step_order < i32::MAX,
        _ => true,
    }
}

/// What `apply` does: the accumulator `new` is `old` after `event`.
pub open spec fn applied(old: StreamAccumulator, event: StreamEvent, new: StreamAccumulator) -> bool {
    match event {
        StreamEvent::Content { text } => {
            let c = old.content@ + text@;
            let scan = scan_closed(c, think_open(), think_close(), old.last_closed as int);
            &&& new.content@ == c
            &&& new.reasoning@ == old.reasoning@
            &&& step_views(new.steps@) == step_views(old.steps@) + reasoning_views(scan.0, old.step_order as int)
            &&& new.step_order == old.step_order + scan.0.len()
            &&& new.last_closed == scan.1
            &&& new.input_tokens == old.input_tokens
            &&& new.output_tokens == old.output_tokens
            &&& new.reasoning_tokens == old.reasoning_tokens
            &&& new.cache_tokens == old.cache_tokens
            &&& new.received_usage == old.received_usage
        },
        StreamEvent::Reasoning { text } => {
            &&& new.reasoning@ == old.reasoning@ + text@
            &&& new.content@ == old.content@
            &&& new.steps@ == old.steps@
            &&& new.step_order == old.step_order
            &&& new.last_closed == old.last_closed
            &&& new.input_tokens == old.input_tokens
            &&& new.output_tokens == old.output_tokens
            &&& new.reasoning_tokens == old.reasoning_tokens
            &&& new.cache_tokens == old.cache_tokens
            &&& new.received_usage == old.received_usage
        },
        StreamEvent::Usage { input_tokens, output_tokens, reasoning_tokens, cache_tokens } => {
            &&& new.input_tokens == old.input_tokens + input_tokens
            &&& new.output_tokens == old.output_tokens + output_tokens
            &&& new.reasoning_tokens == old.reasoning_tokens + reasoning_tokens
            &&& new.cache_tokens == old.cache_tokens + cache_tokens
            &&& new.received_usage
            &&& new.content@ == old.content@
            &&& new.reasoning@ == old.reasoning@
            &&& new.steps@ == old.steps@
            &&& new.step_order == old.step_order
            &&& new.last_closed == old.last_closed
        },
        StreamEvent::ToolInvocationCompleted { name, arguments, result, error } => {
            &&& step_views(new.steps@) == step_views(old.steps@).push(tool_view(
                old.step_order as int, name@, arguments@, opt_chars(result), opt_chars(error), old.content@))
            &&& new.step_order == old.step_order + 1
            &&& new.content@ == old.content@
            &&& new.reasoning@ == old.reasoning@
            &&& new.last_closed == old.last_closed
            &&& new.input_tokens == old.input_tokens
            &&& new.output_tokens == old.output_tokens
            &&& new.reasoning_tokens == old.reasoning_tokens
            &&& new.cache_tokens == old.cache_tokens
            &&& new.received_usage == old.received_usage
        },
        _ => new == old,
    }
}

impl StreamAccumulator {
    /// Nothing received yet.
    pub fn new() -> (r: Self)
        ensures
            r.content@ == Seq::<char>::empty(),
            r.reasoning@ == Seq::<char>::empty(),
            r.input_tokens == 0 && r.output_tokens == 0 && r.reasoning_tokens == 0 && r.cache_tokens == 0,
            !r.received_usage,
            r.steps@.len() == 0,
            r.step_order == 0,
            r.last_closed == 0,
    {
        StreamAccumulator {
            content: String::new(),
            reasoning: String::new(),
            input_tokens: 0,
            output_tokens: 0,
            reasoning_tokens: 0,
            cache_tokens: 0,
            received_usage: false,
            steps: Vec::new(),
            step_order: 0,
            last_closed: 0,
        }
    }

    /// Takes one stream event into account. Answer text is appended, and each
    /// reasoning block it completes becomes a step; reasoning text is appended;
    /// usage is added up; a finished tool becomes a step that records the answer
    /// text (trimmed) written before it. Other events change nothing.
    pub fn apply(&mut self, event: &StreamEvent)
        requires
            accepts(*old(self), *event),
        ensures
            applied(*old(self), *event, *final(self)),
    {
        match event {
            StreamEvent::Content { text } => {
                self.content.append(text.as_str());
                let cs = chars_of(self.content.as_str());
                let open = think_open_chars();
                let close = think_close_chars();
                let (found, p) = scan_closed_blocks(&cs, &open, &close, self.last_closed);
                push_reasoning_steps(&mut self.steps, &mut self.step_order, found);
                self.last_closed = p;
            },
            StreamEvent::Reasoning { text } => {
                self.reasoning.append(text.as_str());
            },
            StreamEvent::Usage { input_tokens, output_tokens, reasoning_tokens, cache_tokens } => {
                self.input_tokens = self.input_tokens + *input_tokens;
                self.output_tokens = self.output_tokens + *output_tokens;
                self.reasoning_tokens = self.reasoning_tokens + *reasoning_tokens;
                self.cache_tokens = self.cache_tokens + *cache_tokens;
                self.received_usage = true;
            },
            StreamEvent::ToolInvocationCompleted { name, arguments, result, error } => {
                let snapshot = trimmed(self.content.as_str());
                let before = if snapshot.as_str().is_empty() { None } else { Some(snapshot) };
                let step = ThinkingStep {
                    step_type: String::from_str("tool"),
                    step_order: self.step_order,
                    content: None,
                    tool_name: Some(name.clone()),
                    tool_arguments: Some(arguments.clone()),
                    tool_result: crate::text::clone_opt(result),
                    tool_error: crate::text::clone_opt(error),
                    content_before_tool: before,
                };
                self.steps.push(step);
                self.step_order = self.step_order + 1;
                assert(step_views(self.steps@) =~= step_views(old(self).steps@).push(tool_view(
                    old(self).step_order as int, name@, arguments@, opt_chars(*result), opt_chars(*error), old(self).content@)));
            },
            _ => {},
        }
    }
}

/// A copy of an optional string.
/// `s` trimmed of surrounding whitespace.
pub fn trimmed(s: &str) -> (r: String)
    ensures
        r@ == trim(s@),
{
    let v = chars_of(s);
    let (a, b) = trim_bounds(&v);
    string_of_range(&v, a, b)
}

/// The opening reasoning tag as characters.
fn think_open_chars() -> (r: Vec<char>)
    ensures
        r@ == think_open(),
        tag_pair_ok(r@, think_close()),
{
    let r = vec!['<', 't', 'h', 'i', 'n', 'k', '>'];
    assert(r@ =~= think_open());
    r
}

/// The closing reasoning tag as characters.
fn think_close_chars() -> (r: Vec<char>)
    ensures
        r@ == think_close(),
{
    let r = vec!['<', '/', 't', 'h', 'i', 'n', 'k', '>'];
    assert(r@ =~= think_close());
    r
}

/// The opening reasoning tag.
fn think_open_str() -> (r: &'static str)
    ensures
        r@ == think_open(),
{
    proof {
        reveal_strlit("<think>");
    }
    "<think>"
}

/// The closing reasoning tag.
fn think_close_str() -> (r: &'static str)
    ensures
        r@ == think_close(),
{
    proof {
        reveal_strlit("</think>");
    }
    "</think>"
}

/// The opening tool-call tag.
fn tool_call_open_str() -> (r: &'static str)
    ensures
        r@ == tool_call_open(),
{
    proof {
        reveal_strlit("<tool_call>");
    }
    "<tool_call>"
}

/// The closing tool-call tag.
fn tool_call_close_str() -> (r: &'static str)
    ensures
        r@ == tool_call_close(),
{
    proof {
        reveal_strlit("</tool_call>");
    }
    "</tool_call>"
}

/// The answer text that is saved: reasoning blocks and tool-call blocks removed,
/// then trimmed.
pub open spec fn final_text(content: Seq<char>) -> Seq<char> {
    trim(take_blocks(take_blocks(content, think_open(), think_close()).0, tool_call_open(), tool_call_close()).0)
}

/// The assistant message made from a finished stream.
pub struct AssistantReply {
    pub content: String,
    /// `None` when there were no steps.
    pub steps: Option<Vec<ThinkingStep>>,
    /// Whether the message is worth saving: it has text or steps.
    pub save: bool,
}

impl StreamAccumulator {
    /// The assistant message for what was received.
    pub fn finish(self) -> (r: AssistantReply)
        ensures
            r.content@ == final_text(self.content@),
            self.steps@.len() == 0 ==> r.steps is None,
            self.steps@.len() > 0 ==> (r.steps matches Some(v) && v@ == self.steps@),
            r.save == (final_text(self.content@).len() > 0 || self.steps@.len() > 0),
    {
        proof {
            assert(tag_pair_ok(think_open(), think_close()));
            assert(tag_pair_ok(tool_call_open(), tool_call_close()));
        }
        let (no_think, _) = take_tag_blocks(self.content.as_str(), think_open_str(), think_close_str());
        let (no_tools, _) = take_tag_blocks(no_think.as_str(), tool_call_open_str(), tool_call_close_str());
        let content = trimmed(no_tools.as_str());
        let has_steps = self.steps.len() > 0;
        let steps = if has_steps { Some(self.steps) } else { None };
        let save = !content.as_str().is_empty() || has_steps;
        AssistantReply { content, steps, save }
    }

    /// Whether token usage must be estimated because the provider sent none.
    pub fn needs_usage_estimate(&self) -> (r: bool)
        ensures
            r == !self.received_usage,
    {
        !self.received_usage
    }
}

/// Whether token usage is recorded on the session: some input or output was counted.
pub fn should_record_usage(input_tokens: i64, output_tokens: i64) -> (r: bool)
    ensures
        r == (input_tokens > 0 || output_tokens > 0),
{
    input_tokens > 0 || output_tokens > 0
}

/// What the terminal keeps of a reply while it streams: the answer text with
/// complete reasoning blocks taken out, and those blocks as steps.
pub struct LiveTranscript {
    pub content: String,
    pub steps: Vec<ThinkingStep>,
    pub step_order: i32,
}

impl LiveTranscript {
    /// Nothing received yet.
    pub fn new() -> (r: Self)
        ensures
            r.content@ == Seq::<char>::empty(),
            r.steps@.len() == 0,
            r.step_order == 0,
    {
        LiveTranscript { content: String::new(), steps: Vec::new(), step_order: 0 }
    }

    /// Appends answer text; every complete reasoning block is removed from the
    /// text and its non-blank content becomes a step.
    pub fn absorb(&mut self, text: &str)
        requires
            old(self).step_order + take_blocks(old(self).content@ + text@, think_open(), think_close()).1.len() <= i32::MAX,
        ensures
            final(self).content@ == take_blocks(old(self).content@ + text@, think_open(), think_close()).0,
            step_views(final(self).steps@) == step_views(old(self).steps@) + reasoning_views(
                take_blocks(old(self).content@ + text@, think_open(), think_close()).1, old(self).step_order as int),
            final(self).step_order == old(self).step_order + take_blocks(old(self).content@ + text@, think_open(), think_close()).1.len(),
    {
        self.content.append(text);
        proof {
            assert(tag_pair_ok(think_open(), think_close()));
        }
        let (rest, found) = take_tag_blocks(self.content.as_str(), think_open_str(), think_close_str());
        self.content = rest;
        push_reasoning_steps(&mut self.steps, &mut self.step_order, found);
    }
}

/// A human-readable description of a tool, shown when asking for approval.
pub fn get_tool_description(tool_name: &str) -> (r: String)
    ensures
        r@ == tool_description(tool_name@),
{
    if str_eq(tool_name, "read_file") {
        String::from_str("Read the contents of a file from the filesystem")
    } else if str_eq(tool_name, "write_file") {
        String::from_str("Write content to a file on the filesystem")
    } else if str_eq(tool_name, "grep") {
        String::from_str("Search for a pattern in files using regex")
    } else if str_eq(tool_name, "bash") {
        String::from_str("Execute a bash command (safe, read-only commands only)")
    } else if str_eq(tool_name, "demo_tool") {
        String::from_str("A demo tool for testing the approval workflow (safe, read-only)")
    } else {
        let mut r = String::from_str("Execute tool: ");
        r.append(tool_name);
        r
    }
}

/// The description of each known tool; others are "Execute tool: NAME".
pub open spec fn tool_description(name: Seq<char>) -> Seq<char> {
    if name == "read_file"@ {
        "Read the contents of a file from the filesystem"@
    } else if name == "write_file"@ {
        "Write content to a file on the filesystem"@
    } else if name == "grep"@ {
        "Search for a pattern in files using regex"@
    } else if name == "bash"@ {
        "Execute a bash command (safe, read-only commands only)"@
    } else if name == "demo_tool"@ {
        "A demo tool for testing the approval workflow (safe, read-only)"@
    } else {
        "Execute tool: "@ + name
    }
}

/// What the permission settings say about a tool call.
pub enum ToolPermission {
    Allowed,
    Denied { reason: String },
    NeedsApproval,
}

/// What happens to a tool call.
pub enum ToolOutcome {
    /// The tool runs.
    Run,
    /// The tool is denied by configuration; the reason goes back to the model.
    Skipped { reason: String },
    /// The user rejected the call (or did not answer in time).
    Rejected { message: String },
}

/// The message sent back to the model when the user rejects a tool call.
pub open spec fn rejection_message(name: Seq<char>) -> Seq<char> {
    "Tool '"@ + name + "' was not executed because you rejected it."@
}

/// Decides a tool call from its permission and, for one that needs approval, the
/// user's answer (`None` when no answer came in time or the channel closed).
pub fn resolve_tool_call(name: &str, permission: ToolPermission, answer: Option<bool>) -> (r: ToolOutcome)
    ensures
        match permission {
            ToolPermission::Allowed => r is Run,
            ToolPermission::Denied { reason } => r matches ToolOutcome::Skipped { reason: got } && got@ == reason@,
            ToolPermission::NeedsApproval => if answer == Some(true) {
                r is Run
            } else {
                r matches ToolOutcome::Rejected { message } && message@ == rejection_message(name@)
            },
        },
{
    match permission {
        ToolPermission::Allowed => ToolOutcome::Run,
        ToolPermission::Denied { reason } => ToolOutcome::Skipped { reason },
        ToolPermission::NeedsApproval => {
            let approved = match answer {
                Some(d) => d,
                None => false,
            };
            if approved {
                ToolOutcome::Run
            } else {
                let mut m = String::from_str("Tool '");
                m.append(name);
                m.append("' was not executed because you rejected it.");
                ToolOutcome::Rejected { message: m }
            }
        },
    }
}

/// Whether a stored step is kept when a session is loaded: a reasoning step needs
/// text that is not blank, a tool step needs a tool name, other steps stay.
pub open spec fn step_kept(st: StepView) -> bool {
    if st.kind == "reasoning"@ {
        st.content matches Some(c) && trim(c).len() > 0
    } else if st.kind == "tool"@ {
        st.tool_name is Some
    } else {
        true
    }
}

/// The kept steps of a list, in order.
pub open spec fn kept_steps(v: Seq<StepView>) -> Seq<StepView> {
    v.filter(|st: StepView| step_kept(st))
}

fn step_is_kept(st: &ThinkingStep) -> (r: bool)
    ensures
        r == step_kept(step_view(*st)),
{
    if str_eq(st.step_type.as_str(), "reasoning") {
        match &st.content {
            Some(c) => {
                let v = chars_of(c.as_str());
                let (a, b) = trim_bounds(&v);
                a < b
            },
            None => false,
        }
    } else if str_eq(st.step_type.as_str(), "tool") {
        st.tool_name.is_some()
    } else {
        true
    }
}

/// The thinking steps of a message read back from storage: the kept ones in
/// order, or none at all when no step is kept.
pub fn loaded_thinking_steps(steps: Vec<ThinkingStep>) -> (r: Option<Vec<ThinkingStep>>)
    ensures
        match r {
            Some(v) => v@.len() > 0 && step_views(v@) == kept_steps(step_views(steps@)),
            None => kept_steps(step_views(steps@)).len() == 0,
        },
{
    let ghost all = step_views(steps@);
    let ghost pred = |st: StepView| step_kept(st);
    let ghost n = steps@.len();
    let mut rest = steps;
    let mut out: Vec<ThinkingStep> = Vec::new();
    let ghost mut done: int = 0;
    while rest.len() > 0
        invariant
            all.len() == n,
            0 <= done <= n,
            done + rest@.len() == n,
            step_views(rest@) == all.skip(done),
            pred == (|st: StepView| step_kept(st)),
            step_views(out@) == all.take(done).filter(pred),
        decreases rest@.len(),
    {
        let ghost old_rest = rest@;
        let ghost old_out = out@;
        let st = rest.remove(0);
        assert(step_views(old_rest)[0] == step_view(st));
        assert(all.skip(done)[0] == all[done]);
        assert(step_view(st) == all[done]);
        assert(rest@ =~= old_rest.skip(1));
        assert forall|k: int| 0 <= k < rest@.len() implies step_views(rest@)[k] == all.skip(done + 1)[k] by {
            assert(step_views(old_rest)[k + 1] == step_view(old_rest[k + 1]));
            assert(all.skip(done)[k + 1] == all.skip(done + 1)[k]);
        }
        assert(step_views(rest@) =~= all.skip(done + 1));
        proof {
            reveal(Seq::filter);
        }
        assert(all.take(done + 1).drop_last() =~= all.take(done));
        assert(all.take(done + 1).last() == all[done]);
        if step_is_kept(&st) {
            out.push(st);
            assert(all.take(done + 1).filter(pred) =~= all.take(done).filter(pred).push(all[done]));
            assert(step_views(out@) =~= step_views(old_out).push(all[done]));
        } else {
            assert(all.take(done + 1).filter(pred) =~= all.take(done).filter(pred));
        }
        proof {
            done = done + 1;
        }
    }
    assert(all.take(done) =~= all);
    if out.len() == 0 {
        None
    } else {
        Some(out)
    }
}

/// A message of a request to the model.
pub enum RequestMessage {
    System { content: String },
    User { content: String },
    /// The model's turn; after tool calls it holds the calls and no text.
    Assistant { content: Option<String>, tool_calls: Vec<ToolCallDraft> },
    /// What a tool call gave back, for the call with this id.
    Tool { content: String, tool_call_id: String },
}

/// The model of a request message.
pub struct RequestMessageView {
    pub role: Seq<char>,
    pub content: Option<Seq<char>>,
    pub tool_call_id: Option<Seq<char>>,
    pub tool_calls: Seq<(Seq<char>, Seq<char>, Seq<char>)>,
}

/// The model of a request message.
pub open spec fn request_view(m: RequestMessage) -> RequestMessageView {
    match m {
        RequestMessage::System { content } => RequestMessageView {
            role: "system"@, content: Some(content@), tool_call_id: None, tool_calls: Seq::empty(),
        },
        RequestMessage::User { content } => RequestMessageView {
            role: "user"@, content: Some(content@), tool_call_id: None, tool_calls: Seq::empty(),
        },
        RequestMessage::Assistant { content, tool_calls } => RequestMessageView {
            role: "assistant"@, content: opt_chars(content), tool_call_id: None, tool_calls: draft_views(tool_calls@),
        },
        RequestMessage::Tool { content, tool_call_id } => RequestMessageView {
            role: "tool"@, content: Some(content@), tool_call_id: Some(tool_call_id@), tool_calls: Seq::empty(),
        },
    }
}

/// The models of a list of request messages.
pub open spec fn request_views(v: Seq<RequestMessage>) -> Seq<RequestMessageView> {
    v.map_values(|m: RequestMessage| request_view(m))
}

/// The messages added after a round that ended in tool calls: the assistant's
/// turn holding the calls (and no text), then one tool message per call, in
/// order, with what the call gave back.
pub open spec fn tool_round_views(
    calls: Seq<(Seq<char>, Seq<char>, Seq<char>)>,
    replies: Seq<Seq<char>>,
) -> Seq<RequestMessageView> {
    seq![RequestMessageView { role: "assistant"@, content: None, tool_call_id: None, tool_calls: calls }]
        + Seq::new(calls.len(), |i: int| RequestMessageView {
            role: "tool"@,
            content: Some(replies[i]),
            tool_call_id: Some(calls[i].0),
            tool_calls: Seq::empty(),
        })
}

/// Adds a finished tool round to the request for the next round (see
/// `tool_round_views`); `replies[i]` is what call `i` gave back.
pub fn add_tool_round(messages: &mut Vec<RequestMessage>, calls: Vec<ToolCallDraft>, replies: Vec<String>)
    requires
        calls@.len() == replies@.len(),
    ensures
        request_views(final(messages)@) == request_views(old(messages)@) + tool_round_views(
            draft_views(calls@),
            string_views(replies@),
        ),
{
    let ghost cv = draft_views(calls@);
    let ghost rv = string_views(replies@);
    let ghost before = request_views(messages@);
    let n = calls.len();
    let mut ids: Vec<String> = Vec::new();
    let mut k: usize = 0;
    while k < n
        invariant
            n == calls@.len(),
            k <= n,
            cv == draft_views(calls@),
            ids@.len() == k,
            forall|j: int| 0 <= j < k ==> (#[trigger] ids@[j])@ == cv[j].0,
        decreases n - k,
    {
        ids.push(calls[k].id.clone());
        k = k + 1;
    }
    messages.push(RequestMessage::Assistant { content: None, tool_calls: calls });
    let mut replies = replies;
    let mut i: usize = 0;
    while i < n
        invariant
            n == cv.len(),
            n == rv.len(),
            i <= n,
            ids@.len() == n,
            forall|j: int| 0 <= j < n ==> (#[trigger] ids@[j])@ == cv[j].0,
            replies@.len() == n - i,
            string_views(replies@) == rv.skip(i as int),
            request_views(messages@) == before + tool_round_views(cv, rv).take(i + 1),
        decreases n - i,
    {
        let ghost old_replies = replies@;
        let ghost old_msgs = request_views(messages@);
        let reply = replies.remove(0);
        assert(string_views(old_replies)[0] == reply@);
        assert(rv.skip(i as int)[0] == rv[i as int]);
        assert forall|j: int| 0 <= j < replies@.len() implies string_views(replies@)[j] == rv.skip(i + 1)[j] by {
            assert(replies@[j] == old_replies[j + 1]);
            assert(string_views(old_replies)[j + 1] == old_replies[j + 1]@);
            assert(rv.skip(i as int)[j + 1] == rv.skip(i + 1)[j]);
        }
        assert(string_views(replies@) =~= rv.skip(i + 1));
        let id = ids[i].clone();
        messages.push(RequestMessage::Tool { content: reply, tool_call_id: id });
        assert(tool_round_views(cv, rv).take(i + 2) =~= tool_round_views(cv, rv).take(i + 1).push(
            tool_round_views(cv, rv)[i + 1],
        ));
        assert(request_views(messages@) =~= old_msgs.push(tool_round_views(cv, rv)[i + 1]));
        i = i + 1;
    }
    assert(tool_round_views(cv, rv).take(n + 1) =~= tool_round_views(cv, rv));
}

/// A message of the conversation so far.
#[derive(Debug, Clone)]
pub struct HistoryEntry {
    pub role: String,
    pub content: String,
}

/// The entries sent to the model as history: the user and assistant messages,
/// in order, leaving out the last message when `drop_last` holds.
pub open spec fn history_views(msgs: Seq<HistoryEntry>, drop_last: bool) -> Seq<(Seq<char>, Seq<char>)> {
    let kept = if drop_last && msgs.len() > 0 { msgs.drop_last() } else { msgs };
    kept.filter(|m: HistoryEntry| m.role@ == "user"@ || m.role@ == "assistant"@).map_values(
        |m: HistoryEntry| (m.role@, m.content@),
    )
}

/// The history sent with a request (see `history_views`).
pub fn history_for_request(msgs: &Vec<HistoryEntry>, drop_last: bool) -> (r: Vec<HistoryEntry>)
    ensures
        r@.map_values(|m: HistoryEntry| (m.role@, m.content@)) == history_views(msgs@, drop_last),
{
    let n = if drop_last && msgs.len() > 0 { msgs.len() - 1 } else { msgs.len() };
    let ghost kept = if drop_last && msgs@.len() > 0 { msgs@.drop_last() } else { msgs@ };
    let ghost pred = |m: HistoryEntry| m.role@ == "user"@ || m.role@ == "assistant"@;
    let mut r: Vec<HistoryEntry> = Vec::new();
    let mut i: usize = 0;
    while i < n
        invariant
            n == kept.len(),
            n <= msgs@.len(),
            kept == msgs@.take(n as int),
            pred == (|m: HistoryEntry| m.role@ == "user"@ || m.role@ == "assistant"@),
            i <= n,
            r@.map_values(|m: HistoryEntry| (m.role@, m.content@)) == kept.take(i as int).filter(pred).map_values(
                |m: HistoryEntry| (m.role@, m.content@),
            ),
        decreases n - i,
    {
        let m = &msgs[i];
        let ghost before = r@;
        proof {
            reveal(Seq::filter);
        }
        assert(kept.take(i + 1).drop_last() =~= kept.take(i as int));
        assert(kept.take(i + 1).last() == msgs@[i as int]);
        if str_eq(m.role.as_str(), "user") || str_eq(m.role.as_str(), "assistant") {
            r.push(HistoryEntry { role: m.role.clone(), content: m.content.clone() });
            assert(kept.take(i + 1).filter(pred) =~= kept.take(i as int).filter(pred).push(msgs@[i as int]));
            assert(r@.map_values(|m: HistoryEntry| (m.role@, m.content@)) =~= before.map_values(|m: HistoryEntry| (m.role@, m.content@)).push((msgs@[i as int].role@, msgs@[i as int].content@)));
        } else {
            assert(kept.take(i + 1).filter(pred) =~= kept.take(i as int).filter(pred));
        }
        i = i + 1;
    }
    assert(kept.take(n as int) =~= kept);
    r
}

/// A file attached to a chat message.
#[derive(Debug, Clone)]
pub struct FileAttachment {
    pub filename: String,
    pub content: String,
}

/// The text of the attached files, each one introduced by its name.
pub open spec fn file_blocks(files: Seq<FileAttachment>) -> Seq<char>
    decreases files.len(),
{
    if files.len() == 0 {
        Seq::empty()
    } else {
        file_blocks(files.drop_last()) + "Here is the content of '"@ + files.last().filename@ + "':\n\n```\n"@
            + files.last().content@ + "\n```\n\n"@
    }
}

/// The user message of a web chat turn: the environment context, the attached
/// files, and the question.
pub open spec fn chat_user_message(env_context: Seq<char>, files: Seq<FileAttachment>, question: Seq<char>) -> Seq<char> {
    env_context + "\n\n"@ + file_blocks(files) + "User query: "@ + question
}

/// Builds the user message of a web chat turn.
pub fn build_chat_user_message(env_context: &str, files: &Vec<FileAttachment>, question: &str) -> (r: String)
    ensures
        r@ == chat_user_message(env_context@, files@, question@),
{
    let mut m = String::from_str(env_context);
    m.append("\n\n");
    let mut i: usize = 0;
    while i < files.len()
        invariant
            i <= files@.len(),
            m@ == env_context@ + "\n\n"@ + file_blocks(files@.take(i as int)),
        decreases files@.len() - i,
    {
        let f = &files[i];
        m.append("Here is the content of '");
        m.append(f.filename.as_str());
        m.append("':\n\n```\n");
        m.append(f.content.as_str());
        m.append("\n```\n\n");
        assert(files@.take(i + 1).drop_last() =~= files@.take(i as int));
        i = i + 1;
    }
    assert(files@.take(files@.len() as int) =~= files@);
    m.append("User query: ");
    m.append(question);
    m
}

/// The per-file size limit for chat attachments, in bytes.
pub const MAX_FILE_SIZE: usize = 10485760;

/// The size of a text in bytes (its UTF-8 encoding).
pub open spec fn byte_len(s: Seq<char>) -> nat {
    encode_utf8(s).len()
}

/// The error for an attachment over the size limit.
pub open spec fn file_size_error(name: Seq<char>, size: nat) -> Seq<char> {
    "File '"@ + name + "' exceeds size limit of 10MB ("@ + decimal(size) + " bytes > "@ + decimal(MAX_FILE_SIZE as nat)
        + " bytes)"@
}

/// The first attachment over the size limit, if any.
pub fn first_oversized(files: &Vec<FileAttachment>) -> (r: Option<usize>)
    ensures
        match r {
            Some(i) => i < files@.len() && byte_len(files@[i as int].content@) > MAX_FILE_SIZE && forall|j: int|
                0 <= j < i ==> byte_len(#[trigger] files@[j].content@) <= MAX_FILE_SIZE,
            None => forall|j: int| 0 <= j < files@.len() ==> byte_len(#[trigger] files@[j].content@) <= MAX_FILE_SIZE,
        },
{
    let mut i: usize = 0;
    while i < files.len()
        invariant
            i <= files@.len(),
            forall|j: int| 0 <= j < i ==> byte_len(#[trigger] files@[j].content@) <= MAX_FILE_SIZE,
        decreases files@.len() - i,
    {
        if files[i].content.as_str().as_bytes().len() > MAX_FILE_SIZE {
            return Some(i);
        }
        i = i + 1;
    }
    None
}

/// Checks the attachments of a chat request: the first file over 10 MB is
/// refused with a message that names it and gives both sizes in bytes.
pub fn validate_attachments(files: &Vec<FileAttachment>) -> (r: Result<(), String>)
    ensures
        match r {
            Ok(_) => forall|j: int| 0 <= j < files@.len() ==> byte_len(#[trigger] files@[j].content@) <= MAX_FILE_SIZE,
            Err(msg) => exists|i: int| 0 <= i < files@.len() && byte_len(files@[i].content@) > MAX_FILE_SIZE
                && (forall|j: int| 0 <= j < i ==> byte_len(#[trigger] files@[j].content@) <= MAX_FILE_SIZE)
                && msg@ == file_size_error(files@[i].filename@, byte_len(files@[i].content@)),
        },
{
    match first_oversized(files) {
        None => Ok(()),
        Some(i) => {
            let f = &files[i];
            let size = f.content.as_str().as_bytes().len();
            let mut m = String::from_str("File '");
            m.append(f.filename.as_str());
            m.append("' exceeds size limit of 10MB (");
            append_decimal(&mut m, size as u64);
            m.append(" bytes > ");
            append_decimal(&mut m, MAX_FILE_SIZE as u64);
            m.append(" bytes)");
            assert(m@ == file_size_error(files@[i as int].filename@, byte_len(files@[i as int].content@)));
            Err(m)
        },
    }
}

/// `text` unchanged when it is at most `max` bytes long; otherwise its first
/// `keep` bytes followed by "...".
pub open spec fn shortened(text: Seq<char>, max: nat, keep: nat, r: Seq<char>) -> bool {
    if byte_len(text) <= max {
        r == text
    } else {
        &&& r.len() >= 3
        &&& r.skip(r.len() - 3) == "..."@
        &&& encode_utf8(r.take(r.len() - 3)) == encode_utf8(text).take(keep as int)
    }
}

/// Shortens a text for display (see `shortened`). The text is cut at a byte
/// offset, which must fall between characters.
pub fn shorten(text: &str, max: usize, keep: usize) -> (r: String)
    requires
        keep <= max,
        byte_len(text@) > max ==> is_char_boundary(encode_utf8(text@), keep as int),
    ensures
        shortened(text@, max as nat, keep as nat, r@),
{
    if text.as_bytes().len() > max {
        let (head, _) = text.split_at(keep);
        let mut r = String::from_str(head);
        r.append("...");
        proof {
            reveal_strlit("...");
            assert(r@.skip(r@.len() - 3) =~= "..."@);
            assert(r@.take(r@.len() - 3) =~= head@);
            assert(encode_utf8(text@).take(keep as int) =~= encode_utf8(text@).subrange(0, keep as int));
        }
        r
    } else {
        String::from_str(text)
    }
}

/// A session title made from the first question: questions over 100 bytes keep
/// their first 97 bytes and get "...".
pub fn session_title(question: &str) -> (r: String)
    requires
        byte_len(question@) > 100 ==> is_char_boundary(encode_utf8(question@), 97),
    ensures
        shortened(question@, 100, 97, r@),
{
    shorten(question, 100, 97)
}

/// The preview of a session in the list: the first user message, cut to its
/// first 100 bytes and "..." when longer.
pub fn session_preview(content: &str) -> (r: String)
    requires
        byte_len(content@) > 100 ==> is_char_boundary(encode_utf8(content@), 100),
    ensures
        shortened(content@, 100, 100, r@),
{
    shorten(content, 100, 100)
}

/// Removing tagged blocks is idempotent: a second pass changes nothing and finds
/// nothing.
pub proof fn law_take_blocks_idempotent(s: Seq<char>, open: Seq<char>, close: Seq<char>)
    ensures
        take_blocks(take_blocks(s, open, close).0, open, close).0 == take_blocks(s, open, close).0,
        take_blocks(take_blocks(s, open, close).0, open, close).1.len() == 0,
    decreases s.len(),
{
    if close.len() > 0 {
        match find_first(s, open) {
            None => {},
            Some(a) => match find_first(s, close) {
                None => {},
                Some(b) => if b > a {
                    lemma_find_from(s, open, 0);
                    lemma_find_from(s, close, 0);
                    law_take_blocks_idempotent(s.take(a) + s.skip(b + close.len()), open, close);
                } else {
                },
            },
        }
    }
}

/// The steps are numbered 0, 1, 2, ... in the order they were recorded, and the
/// counter holds the next number.
pub open spec fn steps_numbered(acc: StreamAccumulator) -> bool {
    &&& acc.step_order == acc.steps@.len()
    &&& forall|i: int| 0 <= i < acc.steps@.len() ==> (#[trigger] acc.steps@[i]).step_order == i
}

/// Every event keeps the steps numbered in order: a fresh accumulator is
/// numbered, and applying an event to a numbered one leaves it numbered.
pub proof fn law_steps_stay_numbered(old: StreamAccumulator, event: StreamEvent, new: StreamAccumulator)
    requires
        steps_numbered(old),
        applied(old, event, new),
    ensures
        steps_numbered(new),
{
    match event {
        StreamEvent::Content { text } => {
            let c = old.content@ + text@;
            let scan = scan_closed(c, think_open(), think_close(), old.last_closed as int);
            let added = reasoning_views(scan.0, old.step_order as int);
            assert(step_views(new.steps@).len() == new.steps@.len());
            assert forall|i: int| 0 <= i < new.steps@.len() implies (#[trigger] new.steps@[i]).step_order == i by {
                assert(step_views(new.steps@)[i] == step_view(new.steps@[i]));
                if i < old.steps@.len() {
                    assert(step_views(old.steps@)[i] == step_view(old.steps@[i]));
                } else {
                    assert(added[i - old.steps@.len()].order == old.step_order + (i - old.steps@.len()));
                }
            }
        },
        StreamEvent::ToolInvocationCompleted { .. } => {
            assert(step_views(new.steps@).len() == new.steps@.len());
            assert forall|i: int| 0 <= i < new.steps@.len() implies (#[trigger] new.steps@[i]).step_order == i by {
                assert(step_views(new.steps@)[i] == step_view(new.steps@[i]));
                if i < old.steps@.len() {
                    assert(step_views(old.steps@)[i] == step_view(old.steps@[i]));
                }
            }
        },
        _ => {},
    }
}

/// A fresh accumulator's steps are numbered.
pub proof fn law_new_accumulator_numbered(acc: StreamAccumulator)
    requires
        acc.steps@.len() == 0,
        acc.step_order == 0,
    ensures
        steps_numbered(acc),
{
}

} // verus!
