//! Calls of the command line that runs the language model, and what it reports while it works.

use vstd::prelude::*;
use crate::json::{field, field_text, json_parse, json_view, json_views, read_json, Json};
use crate::prompts::{coding_prompt, talk_prompt, Persona, CODING_RULES, TALK_RULES};
use crate::text::{
    join, joined, opt_text, same, str_texts, texts, trim, trimmed, words, words_of,
};

verus! {

// ---------------------------------------------------------------- calls

/// A call of the command line: its arguments, the folder to run it in, and what to write to
/// its standard input.
pub struct ClaudeCall {
    pub args: Vec<String>,
    pub dir: String,
    pub prompt: String,
}

/// The value of a `ClaudeCall`.
#[verifier::ext_equal]
pub struct ClaudeCallView {
    pub args: Seq<Seq<char>>,
    pub dir: Seq<char>,
    pub prompt: Seq<char>,
}

impl View for ClaudeCall {
    type V = ClaudeCallView;

    open spec fn view(&self) -> ClaudeCallView {
        ClaudeCallView { args: texts(self.args@), dir: self.dir@, prompt: self.prompt@ }
    }
}

/// `args`, and the switch that goes on with the last conversation.
pub open spec fn continued(args: Seq<Seq<char>>, go_on: bool) -> Seq<Seq<char>> {
    if go_on {
        args.push("--continue"@)
    } else {
        args
    }
}

/// The call for one command of coding mode: all tools, no questions for permission.
pub open spec fn coding_call(
    said: Seq<char>,
    dir: Seq<char>,
    go_on: bool,
    intro: Seq<char>,
) -> ClaudeCallView {
    ClaudeCallView {
        args: continued(
            seq![
                "-p"@,
                "--dangerously-skip-permissions"@,
                "--output-format"@,
                "stream-json"@,
                "--verbose"@,
            ],
            go_on,
        ),
        dir,
        prompt: intro + CODING_RULES@ + said,
    }
}

/// The call for one turn of chat mode: web search only.
pub open spec fn chat_call(
    said: Seq<char>,
    dir: Seq<char>,
    go_on: bool,
    intro: Seq<char>,
) -> ClaudeCallView {
    ClaudeCallView {
        args: continued(
            seq![
                "-p"@,
                "--allowedTools"@,
                "WebSearch,WebFetch"@,
                "--output-format"@,
                "stream-json"@,
                "--verbose"@,
            ],
            go_on,
        ),
        dir,
        prompt: intro + TALK_RULES@ + said,
    }
}

fn owned(list: &[&str], go_on: bool) -> (r: Vec<String>)
    ensures
        texts(r@) == continued(str_texts(list@), go_on),
{
    let mut r: Vec<String> = Vec::new();
    let ghost all = str_texts(list@);
    let mut i: usize = 0;
    while i < list.len()
        invariant
            0 <= i <= list@.len(),
            all == str_texts(list@),
            texts(r@) == all.take(i as int),
        decreases list@.len() - i,
    {
        let ghost done = r@;
        r.push(list[i].to_owned());
        i += 1;
        assert(texts(r@) =~= texts(done).push(list@[i - 1]@));
        assert(all.take(i as int) =~= all.take(i - 1).push(all[i - 1]));
    }
    assert(all.take(i as int) =~= all);
    if go_on {
        let ghost done = r@;
        r.push("--continue".to_owned());
        assert(texts(r@) =~= texts(done).push("--continue"@));
    }
    r
}

/// The call for one command of the coding session in `code_dir`.
pub fn run_claude_coding(
    transcript: &str,
    code_dir: &str,
    continue_session: bool,
    persona: &Persona,
) -> (c: ClaudeCall)
    ensures
        c@ == coding_call(transcript@, code_dir@, continue_session, persona.coding_intro@),
{
    let list: [&str; 5] = [
        "-p",
        "--dangerously-skip-permissions",
        "--output-format",
        "stream-json",
        "--verbose",
    ];
    assert(str_texts(list@) =~= seq![
        "-p"@,
        "--dangerously-skip-permissions"@,
        "--output-format"@,
        "stream-json"@,
        "--verbose"@,
    ]);
    ClaudeCall {
        args: owned(&list, continue_session),
        dir: code_dir.to_owned(),
        prompt: coding_prompt(transcript, persona),
    }
}

/// The call for one turn of the conversation in `chat_dir`.
pub fn run_claude_chat(
    transcript: &str,
    chat_dir: &str,
    continue_session: bool,
    persona: &Persona,
) -> (c: ClaudeCall)
    ensures
        c@ == chat_call(transcript@, chat_dir@, continue_session, persona.skills_intro@),
{
    let list: [&str; 6] = [
        "-p",
        "--allowedTools",
        "WebSearch,WebFetch",
        "--output-format",
        "stream-json",
        "--verbose",
    ];
    assert(str_texts(list@) =~= seq![
        "-p"@,
        "--allowedTools"@,
        "WebSearch,WebFetch"@,
        "--output-format"@,
        "stream-json"@,
        "--verbose"@,
    ]);
    ClaudeCall {
        args: owned(&list, continue_session),
        dir: chat_dir.to_owned(),
        prompt: talk_prompt(transcript, persona),
    }
}

/// Chat mode never hands out the right to act without permission: only coding mode does.
pub proof fn only_coding_skips_permissions(
    said: Seq<char>,
    dir: Seq<char>,
    go_on: bool,
    intro: Seq<char>,
)
    ensures
        !chat_call(said, dir, go_on, intro).args.contains("--dangerously-skip-permissions"@),
        coding_call(said, dir, go_on, intro).args.contains("--dangerously-skip-permissions"@),
{
    reveal_strlit("-p");
    reveal_strlit("--allowedTools");
    reveal_strlit("WebSearch,WebFetch");
    reveal_strlit("--output-format");
    reveal_strlit("stream-json");
    reveal_strlit("--verbose");
    reveal_strlit("--continue");
    reveal_strlit("--dangerously-skip-permissions");
    assert(coding_call(said, dir, go_on, intro).args[1] == "--dangerously-skip-permissions"@);
}

// ---------------------------------------------------------------- what it reports

/// The field of a tool call that tells most about it.
pub open spec fn detail_key(tool: Seq<char>) -> Option<Seq<char>> {
    if tool == "Bash"@ {
        Some("command"@)
    } else if tool == "Edit"@ || tool == "Write"@ || tool == "Read"@ || tool == "NotebookEdit"@
        || tool == "MultiEdit"@ {
        Some("file_path"@)
    } else if tool == "Glob"@ || tool == "Grep"@ {
        Some("pattern"@)
    } else {
        None
    }
}

/// The length to which the detail of a tool call is cut.
pub const DETAIL_LEN: usize = 140;

/// The first `n` characters of `s`.
pub open spec fn first_chars(s: Seq<char>, n: int) -> Seq<char> {
    if s.len() > n {
        s.take(n)
    } else {
        s
    }
}

/// One line about a tool call: the tool, and its detail on one line, cut to 140 characters.
pub open spec fn tool_line(name: Seq<char>, input: Json) -> Seq<char> {
    let detail = match detail_key(name) {
        Some(key) => input.field(key).text_or_empty(),
        None => Seq::empty(),
    };
    let short = first_chars(joined(words(detail), " "@), DETAIL_LEN as int);
    if short.len() == 0 {
        name
    } else {
        name + ": "@ + short
    }
}

/// The line about a tool call is never longer than the name of the tool and 142 characters.
pub proof fn tool_line_is_short(name: Seq<char>, input: Json)
    ensures
        tool_line(name, input).len() <= name.len() + 2 + DETAIL_LEN,
{
    reveal_strlit(": ");
}

/// One line about a tool call.
pub fn tool_summary(name: &str, input: &serde_json::Value) -> (r: String)
    ensures
        r@ == tool_line(name@, json_view(*input)),
{
    let detail: String = if same(name, "Bash") {
        field_text(input, "command")
    } else if same(name, "Edit") || same(name, "Write") || same(name, "Read") || same(
        name,
        "NotebookEdit",
    ) || same(name, "MultiEdit") {
        field_text(input, "file_path")
    } else if same(name, "Glob") || same(name, "Grep") {
        field_text(input, "pattern")
    } else {
        String::new()
    };
    let line: String = join(&words_of(detail.as_str()), " ");
    let short: String = if line.as_str().unicode_len() > DETAIL_LEN {
        assert(line@.take(DETAIL_LEN as int) == line@.subrange(0, DETAIL_LEN as int));
        line.as_str().substring_char(0, DETAIL_LEN).to_owned()
    } else {
        line
    };
    if short.as_str().is_empty() {
        return name.to_owned();
    }
    let mut r: String = name.to_owned();
    r.append(": ");
    r.append(short.as_str());
    r
}

/// The line to log for one block of a message: its text, or its tool call.
pub open spec fn block_line(b: Json) -> Option<Seq<char>> {
    if b.field("type"@) == Json::Text("text"@) {
        let t = trim(b.field("text"@).text_or_empty());
        if t.len() == 0 {
            None
        } else {
            Some("    · "@ + t)
        }
    } else if b.field("type"@) == Json::Text("tool_use"@) {
        let name = match b.field("name"@).text() {
            Some(n) => n,
            None => "?"@,
        };
        Some("    ⚙ "@ + tool_line(name, b.field("input"@)))
    } else {
        None
    }
}

/// The lines to log for a list of blocks, in order.
pub open spec fn block_lines(s: Seq<Json>) -> Seq<Seq<char>>
    decreases s.len(),
{
    if s.len() == 0 {
        Seq::empty()
    } else {
        let before = block_lines(s.drop_last());
        match block_line(s.last()) {
            Some(l) => before.push(l),
            None => before,
        }
    }
}

/// What an event does: the final text after it, and the lines to log.
pub open spec fn event_effect(j: Json, result: Seq<char>) -> (Seq<char>, Seq<Seq<char>>) {
    if j.field("type"@) == Json::Text("assistant"@) {
        match j.field("message"@).field("content"@) {
            Json::List(s) => (result, block_lines(s)),
            _ => (result, Seq::empty()),
        }
    } else if j.field("type"@) == Json::Text("result"@) {
        match j.field("result"@).text() {
            Some(r) => (r, Seq::empty()),
            None => (result, Seq::empty()),
        }
    } else {
        (result, Seq::empty())
    }
}

/// What a line of output does. A line that is empty or is not JSON does nothing.
pub open spec fn line_effect(line: Seq<char>, result: Seq<char>) -> (Seq<char>, Seq<Seq<char>>) {
    if trim(line).len() == 0 {
        (result, Seq::empty())
    } else {
        match json_parse(trim(line)) {
            Some(j) => event_effect(j, result),
            None => (result, Seq::empty()),
        }
    }
}

fn read_block(b: &serde_json::Value) -> (r: Option<String>)
    ensures
        opt_text(r) == block_line(json_view(*b)),
{
    let kind: &str = match field(b, "type").as_str() {
        Some(k) => k,
        None => {
            return None;
        },
    };
    if same(kind, "text") {
        let t: String = trimmed(field_text(b, "text").as_str());
        if t.as_str().is_empty() {
            return None;
        }
        let mut l: String = "    · ".to_owned();
        l.append(t.as_str());
        Some(l)
    } else if same(kind, "tool_use") {
        let name: &str = match field(b, "name").as_str() {
            Some(n) => n,
            None => "?",
        };
        let mut l: String = "    ⚙ ".to_owned();
        l.append(tool_summary(name, field(b, "input")).as_str());
        Some(l)
    } else {
        None
    }
}

fn read_blocks(v: &Vec<serde_json::Value>) -> (r: Vec<String>)
    ensures
        texts(r@) == block_lines(json_views(v@)),
{
    let mut r: Vec<String> = Vec::new();
    let ghost all = json_views(v@);
    let mut i: usize = 0;
    assert(texts(r@) =~= block_lines(all.take(0)));
    while i < v.len()
        invariant
            0 <= i <= v@.len(),
            all == json_views(v@),
            texts(r@) == block_lines(all.take(i as int)),
        decreases v@.len() - i,
    {
        let ghost done = r@;
        assert(all.take(i + 1).drop_last() =~= all.take(i as int));
        assert(all.take(i + 1).last() == json_view(v@[i as int]));
        if let Some(l) = read_block(&v[i]) {
            let ghost lv = l@;
            r.push(l);
            assert(texts(r@) =~= texts(done).push(lv));
        }
        i += 1;
    }
    assert(all.take(i as int) =~= all);
    r
}

/// Takes an event of the command line: keeps the final text, gives the lines to log.
pub fn take_event(v: &serde_json::Value, result: &mut String) -> (lines: Vec<String>)
    ensures
        (final(result)@, texts(lines@)) == event_effect(json_view(*v), old(result)@),
{
    let none: Vec<String> = Vec::new();
    assert(texts(none@) =~= Seq::empty());
    let kind: &str = match field(v, "type").as_str() {
        Some(k) => k,
        None => {
            return none;
        },
    };
    if same(kind, "assistant") {
        match field(field(v, "message"), "content").as_array() {
            Some(blocks) => read_blocks(blocks),
            None => none,
        }
    } else if same(kind, "result") {
        if let Some(r) = field(v, "result").as_str() {
            *result = r.to_owned();
        }
        none
    } else {
        none
    }
}

/// Takes a line of output of the command line: keeps the final text, gives the lines to log.
pub fn take_line(line: &str, result: &mut String) -> (lines: Vec<String>)
    ensures
        (final(result)@, texts(lines@)) == line_effect(line@, old(result)@),
{
    let none: Vec<String> = Vec::new();
    assert(texts(none@) =~= Seq::empty());
    let line: String = trimmed(line);
    if line.as_str().is_empty() {
        return none;
    }
    match read_json(line.as_str()) {
        Some(v) => take_event(&v, result),
        None => none,
    }
}

/// The arguments of a single question with web search and no session.
pub fn ask_args() -> (r: Vec<String>)
    ensures
        texts(r@) == seq!["-p"@, "--tools"@, "WebSearch"@, "--allowedTools"@, "WebSearch"@],
{
    let list: [&str; 5] = ["-p", "--tools", "WebSearch", "--allowedTools", "WebSearch"];
    assert(str_texts(list@) =~= seq![
        "-p"@,
        "--tools"@,
        "WebSearch"@,
        "--allowedTools"@,
        "WebSearch"@,
    ]);
    owned(&list, false)
}

// ---------------------------------------------------------------- laws

/// `t` ends with `w`.
pub open spec fn ends_with_text(t: Seq<char>, w: Seq<char>) -> bool {
    w.len() <= t.len() && t.skip(t.len() - w.len()) == w
}

/// `t` begins with `w`.
pub open spec fn begins_with_text(t: Seq<char>, w: Seq<char>) -> bool {
    w.len() <= t.len() && t.take(w.len() as int) == w
}

/// Both kinds of calls run in the folder that they are given, begin their prompt with the persona
/// and end it with what was said, word for word, report as a stream of JSON, and go on with the
/// last conversation exactly where they are told to.
pub proof fn calls_hand_on_what_is_said(
    said: Seq<char>,
    dir: Seq<char>,
    go_on: bool,
    intro: Seq<char>,
)
    ensures
        handed_on(chat_call(said, dir, go_on, intro), said, dir, go_on, intro),
        handed_on(coding_call(said, dir, go_on, intro), said, dir, go_on, intro),
        chat_call(said, dir, go_on, intro).args[1] == "--allowedTools"@,
        chat_call(said, dir, go_on, intro).args[2] == "WebSearch,WebFetch"@,
{
    continue_is_no_other_switch();
    let chat = chat_call(said, dir, go_on, intro);
    let code = coding_call(said, dir, go_on, intro);
    assert(chat.prompt.skip(chat.prompt.len() - said.len()) =~= said);
    assert(code.prompt.skip(code.prompt.len() - said.len()) =~= said);
    assert(chat.prompt.take(intro.len() as int) =~= intro);
    assert(code.prompt.take(intro.len() as int) =~= intro);
    assert(chat.args[3] == "--output-format"@ && chat.args[4] == "stream-json"@);
    assert(code.args[2] == "--output-format"@ && code.args[3] == "stream-json"@);
    assert(chat.args[0] == "-p"@ && code.args[0] == "-p"@);
    if go_on {
        assert(chat.args[6] == "--continue"@);
        assert(code.args[5] == "--continue"@);
    } else {
        assert forall|i: int| 0 <= i < chat.args.len() implies chat.args[i] != "--continue"@ by {
        }
        assert forall|i: int| 0 <= i < code.args.len() implies code.args[i] != "--continue"@ by {
        }
    }
}

/// The call `c` hands on what was said.
pub open spec fn handed_on(
    c: ClaudeCallView,
    said: Seq<char>,
    dir: Seq<char>,
    go_on: bool,
    intro: Seq<char>,
) -> bool {
    &&& c.dir == dir
    &&& begins_with_text(c.prompt, intro)
    &&& ends_with_text(c.prompt, said)
    &&& c.args.contains("--continue"@) == go_on
    &&& c.args.contains("-p"@)
    &&& exists|i: int|
        0 <= i < c.args.len() - 1 && #[trigger] c.args[i] == "--output-format"@ && c.args[i + 1]
            == "stream-json"@
}

proof fn continue_is_no_other_switch()
    ensures
        "--continue"@ != "-p"@,
        "--continue"@ != "--allowedTools"@,
        "--continue"@ != "WebSearch,WebFetch"@,
        "--continue"@ != "--output-format"@,
        "--continue"@ != "stream-json"@,
        "--continue"@ != "--verbose"@,
        "--continue"@ != "--dangerously-skip-permissions"@,
{
    reveal_strlit("--continue");
    reveal_strlit("-p");
    reveal_strlit("--allowedTools");
    reveal_strlit("WebSearch,WebFetch");
    reveal_strlit("--output-format");
    reveal_strlit("stream-json");
    reveal_strlit("--verbose");
    reveal_strlit("--dangerously-skip-permissions");
    assert("--continue"@.len() == 10);
    assert("--verbose"@.len() == 9);
    assert("stream-json"@.len() == 11);
}

/// The final report of a session is kept, whatever was kept before; nothing else changes it.
pub proof fn final_report_is_kept(j: Json, t: Seq<char>, result: Seq<char>)
    ensures
        j.field("type"@) == Json::Text("result"@) && j.field("result"@) == Json::Text(t)
            ==> event_effect(j, result).0 == t,
        j.field("type"@) != Json::Text("result"@) ==> event_effect(j, result).0 == result,
        !(j.field("result"@) is Text) ==> event_effect(j, result).0 == result,
{
    reveal_strlit("assistant");
    reveal_strlit("result");
    assert("assistant"@.len() != "result"@.len());
}

/// A line is read without the white space around it; a line that is not JSON does nothing.
pub proof fn lines_are_read_one_by_one(line: Seq<char>, result: Seq<char>, j: Json)
    ensures
        trim(line).len() > 0 && json_parse(trim(line)) == Some(j) ==> line_effect(line, result)
            == event_effect(j, result),
        trim(line).len() == 0 || json_parse(trim(line)) is None ==> line_effect(line, result) == (
            result,
            Seq::<Seq<char>>::empty(),
        ),
{
}

/// The blocks of a message are logged in order: a text as it is, a tool call with the name of the
/// tool first, and any other block not at all.
pub proof fn blocks_are_logged_in_order(a: Seq<Json>, b: Seq<Json>, x: Json)
    ensures
        block_lines(a + b) == block_lines(a) + block_lines(b),
        x.field("type"@) == Json::Text("text"@) && x.field("text"@) is Text && trim(
            x.field("text"@)->Text_0,
        ).len() > 0 ==> block_lines(seq![x]) == seq![
            "    · "@ + trim(x.field("text"@)->Text_0),
        ],
        x.field("type"@) == Json::Text("tool_use"@) && x.field("name"@) is Text ==> block_lines(
            seq![x],
        ) == seq!["    ⚙ "@ + tool_line(x.field("name"@)->Text_0, x.field("input"@))],
        x.field("type"@) != Json::Text("text"@) && x.field("type"@) != Json::Text("tool_use"@)
            ==> block_lines(seq![x]) == Seq::<Seq<char>>::empty(),
    decreases b.len(),
{
    reveal_strlit("text");
    reveal_strlit("tool_use");
    assert("text"@.len() != "tool_use"@.len());
    assert(seq![x].drop_last() =~= Seq::empty());
    assert(block_lines(seq![x].drop_last()) =~= Seq::empty());
    match block_line(x) {
        Some(l) => {
            assert(block_lines(seq![x]) =~= seq![l]);
        },
        None => {
            assert(block_lines(seq![x]) =~= Seq::empty());
        },
    }
    if b.len() == 0 {
        assert(a + b =~= a);
        assert(block_lines(a) + block_lines(b) =~= block_lines(a));
    } else {
        blocks_are_logged_in_order(a, b.drop_last(), x);
        assert((a + b).drop_last() =~= a + b.drop_last());
        assert(block_lines(a + b) =~= block_lines(a) + block_lines(b));
    }
}

/// A tool call is told by the name of the tool and, for these tools, by the command, the file or
/// the pattern, on one line; whole where it is short enough, and else its first 140 characters.
pub proof fn tool_calls_are_told(name: Seq<char>, input: Json, t: Seq<char>)
    ensures
        ({
            let line = joined(words(t), " "@);
            let told = if line.len() == 0 {
                name
            } else if line.len() <= 140 {
                name + ": "@ + line
            } else {
                name + ": "@ + line.take(140)
            };
            &&& name == "Bash"@ && input.field("command"@) == Json::Text(t) ==> tool_line(
                name,
                input,
            ) == told
            &&& (name == "Edit"@ || name == "Write"@ || name == "Read"@ || name == "NotebookEdit"@
                || name == "MultiEdit"@) && input.field("file_path"@) == Json::Text(t)
                ==> tool_line(name, input) == told
            &&& (name == "Glob"@ || name == "Grep"@) && input.field("pattern"@) == Json::Text(t)
                ==> tool_line(name, input) == told
            &&& detail_key(name) is None ==> tool_line(name, input) == name
        }),
{
    reveal_strlit("Bash");
    reveal_strlit("Edit");
    reveal_strlit("Write");
    reveal_strlit("Read");
    reveal_strlit("NotebookEdit");
    reveal_strlit("MultiEdit");
    reveal_strlit("Glob");
    reveal_strlit("Grep");
    assert("Bash"@[0] == 'B' && "Edit"@[0] == 'E' && "Write"@[0] == 'W' && "Read"@[0] == 'R'
        && "NotebookEdit"@[0] == 'N' && "MultiEdit"@[0] == 'M' && "Glob"@[0] == 'G' && "Grep"@[0]
        == 'G');
    no_words_in_nothing();
    if detail_key(name) is None {
        assert(joined(words(Seq::empty()), " "@).len() == 0);
    }
}

proof fn no_words_in_nothing()
    ensures
        joined(words(Seq::empty()), " "@) == Seq::<char>::empty(),
{
    let e = Seq::<char>::empty();
    let p = crate::text::pieces(e, crate::text::Sep::White);
    assert(p =~= seq![e]);
    assert(p.drop_last() =~= Seq::empty());
    assert(crate::text::filled(p.drop_last()) =~= Seq::empty());
    assert(words(e) =~= Seq::empty());
}

} // verus!
