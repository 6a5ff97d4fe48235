//! Chat requests to the xAI and local Ollama services, the two-step
//! plan-then-execute exchange, and the interactive session's exit command.
use vstd::prelude::*;

use crate::json::{chat_reply_of, chat_reply_text, Json};
use crate::text::{
    chars_of, eq_ignore_ascii_case, eq_ignore_ascii_case_spec, is_white_space, last_line,
    last_line_of, push_str, trim, trim_end_of, trim_start_of, trimmed,
};

verus! {

#[verifier::external_type_specification]
#[verifier::external_body]
pub struct ExJsonError(serde_json::Error);

/// The lower-case hexadecimal digit for `d < 16`.
pub open spec fn hex_digit(d: nat) -> char {
    seq!['0', '1', '2', '3', '4', '5', '6', '7', '8', '9', 'a', 'b', 'c', 'd', 'e', 'f'][d as int]
}

/// How `serde_json` writes the character `c` inside a string literal: a
/// quote and a backslash behind a backslash, backspace, tab, line feed, form
/// feed and carriage return as `\b \t \n \f \r`, the other control
/// characters below 0x20 as `\u00` and two lower-case hex digits, and every
/// other character as it is.
pub open spec fn json_escape(c: char) -> Seq<char> {
    let u = c as u32;
    if c == '"' {
        seq!['\\', '"']
    } else if c == '\\' {
        seq!['\\', '\\']
    } else if u == 0x08 {
        seq!['\\', 'b']
    } else if u == 0x09 {
        seq!['\\', 't']
    } else if u == 0x0A {
        seq!['\\', 'n']
    } else if u == 0x0C {
        seq!['\\', 'f']
    } else if u == 0x0D {
        seq!['\\', 'r']
    } else if u < 0x20 {
        seq!['\\', 'u', '0', '0', hex_digit((u / 16) as nat), hex_digit((u % 16) as nat)]
    } else {
        seq![c]
    }
}

/// The characters of `s`, each escaped as in a JSON string literal.
pub open spec fn json_escaped(s: Seq<char>) -> Seq<char>
    decreases s.len(),
{
    if s.len() == 0 {
        Seq::<char>::empty()
    } else {
        json_escaped(s.drop_last()) + json_escape(s.last())
    }
}

/// The JSON string literal that `serde_json` writes for the text `s`: the
/// escaped characters between double quotes.
pub open spec fn json_string_literal(s: Seq<char>) -> Seq<char> {
    seq!['"'] + json_escaped(s) + seq!['"']
}

/// `serde_json::to_string` on a string slice.
/// Trusted: the result is the JSON string literal for `s` as `json_escape`
/// states `serde_json`'s escaping (its `ESCAPE` table and `CharEscape`
/// writer), and it is always `Ok` (a string slice serialises by writing into
/// a growable buffer, which cannot fail).
#[verifier::external_body]
fn json_quote(s: &str) -> (r: Result<String, serde_json::Error>)
    ensures
        r is Ok,
        r matches Ok(q) ==> q@ == json_string_literal(s@),
{
    serde_json::to_string(s)
}

fn quoted(s: &str) -> (q: String)
    ensures
        q@ == json_string_literal(s@),
{
    match json_quote(s) {
        Ok(q) => q,
        Err(_) => String::new(),
    }
}

/// A request for one chat completion.
pub struct ChatRequest {
    pub prompt: String,
    pub model: String,
    /// Whether the local Ollama service answers it instead of xAI.
    pub local: bool,
}

/// The address of the local Ollama chat service.
pub open spec fn ollama_chat_url() -> Seq<char> {
    "http://localhost:11434/api/chat"@
}

/// The address of the xAI chat-completions service.
pub open spec fn xai_chat_url() -> Seq<char> {
    "https://api.x.ai/v1/chat/completions"@
}

/// The address of the xAI image-generations service.
pub open spec fn xai_images_url() -> Seq<char> {
    "https://api.x.ai/v1/images/generations"@
}

/// The body sent to Ollama: the prompt as the one user message, for the
/// `llama3.2` model (members in the order `serde_json` writes them).
pub open spec fn ollama_body_of(prompt: Seq<char>) -> Seq<char> {
    "{\"messages\":[{\"content\":"@ + json_string_literal(prompt) + ",\"role\":\"user\"}],\"model\":\"llama3.2\"}"@
}

/// The body sent to xAI: the prompt as the one user message, the model, and
/// the sampling temperature 0.7.
pub open spec fn xai_body_of(prompt: Seq<char>, model: Seq<char>) -> Seq<char> {
    "{\"messages\":[{\"content\":"@ + json_string_literal(prompt) + ",\"role\":\"user\"}],\"model\":"@
        + json_string_literal(model) + ",\"temperature\":0.7}"@
}

/// The body of an image-generation request: the prompt, the image model, and
/// a base64 answer.
pub open spec fn image_body_of(prompt: Seq<char>) -> Seq<char> {
    "{\"model\":\"grok-imagine-image\",\"prompt\":"@ + json_string_literal(prompt)
        + ",\"response_format\":\"b64_json\"}"@
}

/// The value of the `Authorization` header for an API key.
pub open spec fn bearer_of(key: Seq<char>) -> Seq<char> {
    "Bearer "@ + key
}

/// The `Authorization` header value that carries `key`.
pub fn bearer(key: &str) -> (r: String)
    ensures
        r@ == bearer_of(key@),
{
    let mut r = String::from_str("Bearer ");
    push_str(&mut r, key);
    r
}

impl ChatRequest {
    /// The service address this request goes to.
    pub fn endpoint(&self) -> (r: String)
        ensures
            r@ == (if self.local {
                ollama_chat_url()
            } else {
                xai_chat_url()
            }),
    {
        if self.local {
            String::from_str("http://localhost:11434/api/chat")
        } else {
            String::from_str("https://api.x.ai/v1/chat/completions")
        }
    }

    /// Whether the request needs the xAI API key.
    pub fn needs_api_key(&self) -> (r: bool)
        ensures
            r == !self.local,
    {
        !self.local
    }

    /// The JSON body of the request, written as `serde_json` writes such an
    /// object: compact, members in sorted order (its map keeps keys sorted
    /// unless its `preserve_order` feature is on, which this crate does not
    /// turn on), strings quoted by `serde_json` itself.
    pub fn body(&self) -> (r: String)
        ensures
            r@ == (if self.local {
                ollama_body_of(self.prompt@)
            } else {
                xai_body_of(self.prompt@, self.model@)
            }),
    {
        if self.local {
            let mut b = String::from_str("{\"messages\":[{\"content\":");
            let q = quoted(self.prompt.as_str());
            push_str(&mut b, q.as_str());
            push_str(&mut b, ",\"role\":\"user\"}],\"model\":\"llama3.2\"}");
            b
        } else {
            let mut b = String::from_str("{\"messages\":[{\"content\":");
            let q = quoted(self.prompt.as_str());
            push_str(&mut b, q.as_str());
            push_str(&mut b, ",\"role\":\"user\"}],\"model\":");
            let m = quoted(self.model.as_str());
            push_str(&mut b, m.as_str());
            push_str(&mut b, ",\"temperature\":0.7}");
            b
        }
    }
}

/// The service address an image-generation request goes to.
pub fn image_endpoint() -> (r: String)
    ensures
        r@ == xai_images_url(),
{
    String::from_str("https://api.x.ai/v1/images/generations")
}

/// The JSON body of an image-generation request for `prompt`.
pub fn image_request_body(prompt: &str) -> (r: String)
    ensures
        r@ == image_body_of(prompt@),
{
    let mut b = String::from_str("{\"model\":\"grok-imagine-image\",\"prompt\":");
    let q = quoted(prompt);
    push_str(&mut b, q.as_str());
    push_str(&mut b, ",\"response_format\":\"b64_json\"}");
    b
}

/// What a chat service sent back: the raw text of an Ollama answer, or the
/// parsed JSON document of an xAI answer.
pub enum ChatResponse {
    Plain(String),
    Document(Json),
}

/// The reply text in a response: the last line of an Ollama answer (or the
/// empty text), the first choice's message content of an xAI answer (or the empty text).
pub open spec fn reply_of(resp: ChatResponse) -> Seq<char> {
    match resp {
        ChatResponse::Plain(t) => last_line_of(t@),
        ChatResponse::Document(j) => chat_reply_of(j),
    }
}

/// The reply text that a chat response carries.
pub fn reply_text(resp: &ChatResponse) -> (r: String)
    ensures
        r@ == reply_of(*resp),
{
    match resp {
        ChatResponse::Plain(t) => last_line(t.as_str()),
        ChatResponse::Document(j) => chat_reply_text(j),
    }
}

// ---------------------------------------------------------------------------
// Plan, then execute
// ---------------------------------------------------------------------------

/// The model that writes the plan: xAI's `grok-4`, or the local model.
pub open spec fn planner_model(use_local: bool) -> Seq<char> {
    if use_local {
        "local"@
    } else {
        "grok-4"@
    }
}

/// The model that carries the plan out.
pub open spec fn executor_model(use_local: bool) -> Seq<char> {
    if use_local {
        "local"@
    } else {
        "grok-4-1-fast-reasoning"@
    }
}

/// The prompt that asks for a plan of `task`.
pub open spec fn planner_prompt(task: Seq<char>) -> Seq<char> {
    "High-level PLAN only: "@ + task
}

/// The prompt that asks to carry `task` out along `plan`.
pub open spec fn executor_prompt(plan: Seq<char>, task: Seq<char>) -> Seq<char> {
    "EXECUTE precisely using this plan:\n"@ + plan + "\n\nUser task: "@ + task
}

/// Where a plan-then-execute exchange stands.
pub enum AgentPhase {
    /// The plan was asked for.
    Planning,
    /// The plan came back and its execution was asked for.
    Executing,
    /// The answer came back.
    Finished,
}

/// A plan-then-execute exchange: the planner writes a plan for the task, then
/// the executor carries it out; both are xAI models, or both the local one.
pub struct MultiAgent {
    pub task: String,
    pub use_local: bool,
    pub phase: AgentPhase,
}

/// What the exchange needs next: another chat completion, or nothing more
/// because the answer is there.
pub enum AgentStep {
    Ask(ChatRequest),
    Answer(String),
}

impl MultiAgent {
    /// Opens an exchange for `task` and gives the request for the plan.
    pub fn start(task: &str, use_local: bool) -> (r: (MultiAgent, ChatRequest))
        ensures
            r.0.task@ == task@,
            r.0.use_local == use_local,
            r.0.phase is Planning,
            r.1.prompt@ == planner_prompt(task@),
            r.1.model@ == planner_model(use_local),
            r.1.local == use_local,
    {
        let mut prompt = String::from_str("High-level PLAN only: ");
        push_str(&mut prompt, task);
        let model = if use_local {
            String::from_str("local")
        } else {
            String::from_str("grok-4")
        };
        let req = ChatRequest { prompt, model, local: use_local };
        (MultiAgent { task: String::from_str(task), use_local, phase: AgentPhase::Planning }, req)
    }

    /// Whether the answer is there.
    pub fn is_finished(&self) -> (r: bool)
        ensures
            r == (self.phase is Finished),
    {
        match self.phase {
            AgentPhase::Finished => true,
            _ => false,
        }
    }

    /// Takes the reply to the last request: the plan gives the request for its
    /// execution; the execution's reply is the answer, unchanged.
    pub fn on_reply(&mut self, reply: String) -> (step: AgentStep)
        requires
            !(old(self).phase is Finished),
        ensures
            final(self).task@ == old(self).task@,
            final(self).use_local == old(self).use_local,
            old(self).phase is Planning ==> {
                &&& final(self).phase is Executing
                &&& step matches AgentStep::Ask(req) && {
                    &&& req.prompt@ == executor_prompt(reply@, old(self).task@)
                    &&& req.model@ == executor_model(old(self).use_local)
                    &&& req.local == old(self).use_local
                }
            },
            old(self).phase is Executing ==> {
                &&& final(self).phase is Finished
                &&& step matches AgentStep::Answer(a) && a@ == reply@
            },
    {
        match self.phase {
            AgentPhase::Planning => {
                let mut prompt = String::from_str("EXECUTE precisely using this plan:\n");
                push_str(&mut prompt, reply.as_str());
                push_str(&mut prompt, "\n\nUser task: ");
                push_str(&mut prompt, self.task.as_str());
                let model = if self.use_local {
                    String::from_str("local")
                } else {
                    String::from_str("grok-4-1-fast-reasoning")
                };
                self.phase = AgentPhase::Executing;
                AgentStep::Ask(ChatRequest { prompt, model, local: self.use_local })
            },
            _ => {
                self.phase = AgentPhase::Finished;
                AgentStep::Answer(reply)
            },
        }
    }
}

// ---------------------------------------------------------------------------
// Interactive session
// ---------------------------------------------------------------------------

/// The command that ends an interactive session.
pub open spec fn exit_word() -> Seq<char> {
    seq!['/', 'e', 'x', 'i', 't']
}

/// Whether `input` ends the session: once trimmed, it is `/exit` in any ASCII case.
pub open spec fn is_exit_spec(input: Seq<char>) -> bool {
    eq_ignore_ascii_case_spec(trimmed(input), exit_word())
}

/// Whether a line typed (or spoken) in the interactive session ends it.
pub fn is_exit_command(input: &str) -> (r: bool)
    ensures
        r == is_exit_spec(input@),
{
    let t = trim(input);
    let tc = chars_of(t.as_str());
    let word = ['/', 'e', 'x', 'i', 't'];
    assert(word@ =~= exit_word());
    eq_ignore_ascii_case(tc.as_slice(), &word)
}

/// Every character of `w` is white space.
pub open spec fn all_white(w: Seq<char>) -> bool {
    forall|i: int| 0 <= i < w.len() ==> is_white_space(#[trigger] w[i])
}

proof fn lemma_trim_start_white_prefix(w: Seq<char>, t: Seq<char>)
    requires
        all_white(w),
    ensures
        trim_start_of(w + t) == trim_start_of(t),
    decreases w.len(),
{
    if w.len() > 0 {
        assert((w + t)[0] == w[0]);
        assert((w + t).drop_first() =~= w.drop_first() + t);
        lemma_trim_start_white_prefix(w.drop_first(), t);
    } else {
        assert(w + t =~= t);
    }
}

proof fn lemma_trim_end_white_suffix(t: Seq<char>, w: Seq<char>)
    requires
        all_white(w),
    ensures
        trim_end_of(t + w) == trim_end_of(t),
    decreases w.len(),
{
    if w.len() > 0 {
        assert((t + w).last() == w.last());
        assert((t + w).drop_last() =~= t + w.drop_last());
        lemma_trim_end_white_suffix(t, w.drop_last());
    } else {
        assert(t + w =~= t);
    }
}

proof fn lemma_trim_start_keeps_tail(s: Seq<char>, x: Seq<char>)
    requires
        !all_white(s),
    ensures
        trim_start_of(s + x) == trim_start_of(s) + x,
    decreases s.len(),
{
    assert(s.len() > 0);
    assert((s + x)[0] == s[0]);
    if is_white_space(s[0]) {
        assert((s + x).drop_first() =~= s.drop_first() + x);
        assert(!all_white(s.drop_first())) by {
            let i = choose|i: int| 0 <= i < s.len() && !is_white_space(#[trigger] s[i]);
            assert(i > 0);
            assert(s.drop_first()[i - 1] == s[i]);
        }
        lemma_trim_start_keeps_tail(s.drop_first(), x);
    }
}

proof fn lemma_trim_start_all_white(s: Seq<char>)
    requires
        all_white(s),
    ensures
        trim_start_of(s) == Seq::<char>::empty(),
    decreases s.len(),
{
    if s.len() > 0 {
        assert(all_white(s.drop_first())) by {
            assert forall|i: int| 0 <= i < s.drop_first().len() implies is_white_space(
                #[trigger] s.drop_first()[i],
            ) by {
                assert(s.drop_first()[i] == s[i + 1]);
            }
        }
        lemma_trim_start_all_white(s.drop_first());
    } else {
        assert(s =~= Seq::<char>::empty());
    }
}

/// White space around a command does not change what it is: surrounded by
/// white space on either side, a line trims to what the line alone trims to,
/// so it ends the session exactly when the line alone does.
pub proof fn law_exit_ignores_surrounding_space(before: Seq<char>, s: Seq<char>, after: Seq<char>)
    requires
        all_white(before),
        all_white(after),
    ensures
        trimmed(before + s + after) == trimmed(s),
        is_exit_spec(before + s + after) == is_exit_spec(s),
{
    assert(before + s + after =~= before + (s + after));
    lemma_trim_start_white_prefix(before, s + after);
    if all_white(s) {
        assert(all_white(s + after)) by {
            assert forall|i: int| 0 <= i < (s + after).len() implies is_white_space(
                #[trigger] (s + after)[i],
            ) by {
                if i < s.len() {
                    assert((s + after)[i] == s[i]);
                } else {
                    assert((s + after)[i] == after[i - s.len()]);
                }
            }
        }
        lemma_trim_start_all_white(s + after);
        lemma_trim_start_all_white(s);
    } else {
        lemma_trim_start_keeps_tail(s, after);
        lemma_trim_end_white_suffix(trim_start_of(s), after);
    }
}

/// The executor is sent the planner's reply whole: its prompt is a fixed
/// opening of 35 characters, then the plan exactly as it came back (every
/// line of it), then a fixed 13 characters and the task; so the plan and the
/// task can be read back out of the prompt, and two different plans for one
/// task give two different prompts.
pub proof fn law_executor_prompt_carries_plan_whole(plan: Seq<char>, task: Seq<char>)
    ensures
        executor_prompt(plan, task).len() == 35 + plan.len() + 13 + task.len(),
        executor_prompt(plan, task).subrange(35, 35 + plan.len() as int) == plan,
        executor_prompt(plan, task).subrange(
            48 + plan.len() as int,
            executor_prompt(plan, task).len() as int,
        ) == task,
        forall|other: Seq<char>|
            #[trigger] executor_prompt(other, task) == executor_prompt(plan, task) ==> other == plan,
{
    reveal_strlit("EXECUTE precisely using this plan:\n");
    reveal_strlit("\n\nUser task: ");
    let head = "EXECUTE precisely using this plan:\n"@;
    let mid = "\n\nUser task: "@;
    assert(head.len() == 35);
    assert(mid.len() == 13);
    let p = executor_prompt(plan, task);
    assert(p.subrange(35, 35 + plan.len() as int) =~= plan);
    assert(p.subrange(48 + plan.len() as int, p.len() as int) =~= task);
    assert forall|other: Seq<char>|
        #[trigger] executor_prompt(other, task) == executor_prompt(plan, task) implies other
        == plan by {
        let q = executor_prompt(other, task);
        assert(q.len() == 35 + other.len() + 13 + task.len());
        assert(q.subrange(35, 35 + other.len() as int) =~= other);
    }
}

proof fn lemma_escaped_append(a: Seq<char>, b: Seq<char>)
    ensures
        json_escaped(a + b) == json_escaped(a) + json_escaped(b),
    decreases b.len(),
{
    if b.len() == 0 {
        assert(a + b =~= a);
        assert(json_escaped(a) + json_escaped(b) =~= json_escaped(a));
    } else {
        lemma_escaped_append(a, b.drop_last());
        assert((a + b).drop_last() =~= a + b.drop_last());
        assert((a + b).last() == b.last());
        assert(json_escaped(a + b) =~= json_escaped(a) + json_escaped(b));
    }
}

proof fn lemma_escaped_front(s: Seq<char>)
    requires
        s.len() > 0,
    ensures
        json_escaped(s) == json_escape(s[0]) + json_escaped(s.drop_first()),
{
    let first = seq![s[0]];
    assert(s =~= first + s.drop_first());
    lemma_escaped_append(first, s.drop_first());
    assert(first.drop_last() =~= Seq::<char>::empty());
    assert(first.last() == s[0]);
    assert(json_escaped(first.drop_last()) =~= Seq::<char>::empty());
    assert(json_escaped(first) == json_escaped(first.drop_last()) + json_escape(first.last()));
    assert(json_escaped(first) =~= json_escape(s[0]));
}

proof fn lemma_hex_digits()
    ensures
        forall|d1: nat, d2: nat|
            d1 < 16 && d2 < 16 && #[trigger] hex_digit(d1) == #[trigger] hex_digit(d2) ==> d1 == d2,
{
    let h = seq!['0', '1', '2', '3', '4', '5', '6', '7', '8', '9', 'a', 'b', 'c', 'd', 'e', 'f'];
    assert(forall|i: int, j: int| 0 <= i < j < 16 ==> h[i] != h[j]) by {
        assert(h =~= seq!['0', '1', '2', '3', '4', '5', '6', '7', '8', '9', 'a', 'b', 'c', 'd', 'e', 'f']);
        assert(h[0] == '0' && h[1] == '1' && h[2] == '2' && h[3] == '3' && h[4] == '4' && h[5] == '5'
            && h[6] == '6' && h[7] == '7' && h[8] == '8' && h[9] == '9' && h[10] == 'a' && h[11]
            == 'b' && h[12] == 'c' && h[13] == 'd' && h[14] == 'e' && h[15] == 'f');
    }
    assert forall|d1: nat, d2: nat|
        d1 < 16 && d2 < 16 && #[trigger] hex_digit(d1) == #[trigger] hex_digit(d2) implies d1
        == d2 by {
        if d1 < d2 {
            assert(h[d1 as int] != h[d2 as int]);
        } else if d2 < d1 {
            assert(h[d2 as int] != h[d1 as int]);
        }
    }
}

/// The escapes of two characters that open the same text are the same
/// escape of the same character: no escape is a proper beginning of another.
proof fn lemma_escape_prefix_free(c1: char, c2: char, r1: Seq<char>, r2: Seq<char>)
    requires
        json_escape(c1) + r1 == json_escape(c2) + r2,
    ensures
        c1 == c2,
{
    let t = json_escape(c1) + r1;
    let e1 = json_escape(c1);
    let e2 = json_escape(c2);
    assert(t[0] == e1[0]);
    assert(t == e2 + r2);
    assert(t[0] == e2[0]);
    if e1.len() >= 2 && e2.len() >= 2 {
        assert(t[1] == e1[1] && t[1] == e2[1]);
    }
    if e1.len() == 6 && e2.len() == 6 {
        assert(t[4] == e1[4] && t[4] == e2[4]);
        assert(t[5] == e1[5] && t[5] == e2[5]);
        let u1 = c1 as u32;
        let u2 = c2 as u32;
        lemma_hex_digits();
        assert(hex_digit((u1 / 16) as nat) == hex_digit((u2 / 16) as nat));
        assert(hex_digit((u1 % 16) as nat) == hex_digit((u2 % 16) as nat));
        assert(u1 / 16 == u2 / 16);
        assert(u1 % 16 == u2 % 16);
        assert(u1 == u2);
    }
}

/// Escaping loses nothing: two texts with the same escaped form are the same text.
proof fn lemma_escaped_injective(s1: Seq<char>, s2: Seq<char>)
    requires
        json_escaped(s1) == json_escaped(s2),
    ensures
        s1 == s2,
    decreases s1.len(),
{
    if s1.len() == 0 {
        if s2.len() > 0 {
            lemma_escaped_front(s2);
        }
        assert(s1 =~= s2);
    } else if s2.len() == 0 {
        lemma_escaped_front(s1);
    } else {
        lemma_escaped_front(s1);
        lemma_escaped_front(s2);
        let r1 = json_escaped(s1.drop_first());
        let r2 = json_escaped(s2.drop_first());
        lemma_escape_prefix_free(s1[0], s2[0], r1, r2);
        let e = json_escape(s1[0]);
        assert((e + r1).subrange(e.len() as int, (e + r1).len() as int) =~= r1);
        assert((e + r2).subrange(e.len() as int, (e + r2).len() as int) =~= r2);
        lemma_escaped_injective(s1.drop_first(), s2.drop_first());
        assert(s1 =~= seq![s1[0]] + s1.drop_first());
        assert(s2 =~= seq![s2[0]] + s2.drop_first());
    }
}

/// Two texts with the same JSON string literal are the same text.
pub proof fn law_string_literal_is_faithful(s1: Seq<char>, s2: Seq<char>)
    ensures
        json_string_literal(s1) == json_string_literal(s2) ==> s1 == s2,
{
    if json_string_literal(s1) == json_string_literal(s2) {
        let l1 = json_string_literal(s1);
        let l2 = json_string_literal(s2);
        assert(l1.subrange(1, l1.len() - 1) =~= json_escaped(s1));
        assert(l2.subrange(1, l2.len() - 1) =~= json_escaped(s2));
        lemma_escaped_injective(s1, s2);
    }
}

/// A request to xAI names its own model: the body holds, right after the
/// member name `"model":`, the model's JSON string literal, followed only by
/// the temperature member; so the model can be read back out of the body,
/// and two requests that differ only in their model have different bodies.
pub proof fn law_xai_body_names_its_model(prompt: Seq<char>, model: Seq<char>)
    ensures
        ({
            let b = xai_body_of(prompt, model);
            let at = (49 + json_string_literal(prompt).len()) as int;
            &&& b.len() == at + json_string_literal(model).len() + 19
            &&& b.subrange(at - 8, at) == "\"model\":"@
            &&& b.subrange(at, at + json_string_literal(model).len()) == json_string_literal(model)
            &&& b.subrange(at + json_string_literal(model).len(), b.len() as int)
                == ",\"temperature\":0.7}"@
        }),
        forall|other: Seq<char>|
            #[trigger] xai_body_of(prompt, other) == xai_body_of(prompt, model) ==> other == model,
{
    reveal_strlit("{\"messages\":[{\"content\":");
    reveal_strlit(",\"role\":\"user\"}],\"model\":");
    reveal_strlit(",\"temperature\":0.7}");
    reveal_strlit("\"model\":");
    let head = "{\"messages\":[{\"content\":"@;
    let mid = ",\"role\":\"user\"}],\"model\":"@;
    let tail = ",\"temperature\":0.7}"@;
    assert(head.len() == 24);
    assert(mid.len() == 25);
    assert(tail.len() == 19);
    let q = json_string_literal(prompt);
    let m = json_string_literal(model);
    let b = xai_body_of(prompt, model);
    let at = (49 + q.len()) as int;
    assert(b =~= head + q + mid + m + tail);
    assert(b.subrange(at - 8, at) =~= "\"model\":"@);
    assert(b.subrange(at, at + m.len()) =~= m);
    assert(b.subrange(at + m.len(), b.len() as int) =~= tail);
    assert forall|other: Seq<char>|
        #[trigger] xai_body_of(prompt, other) == xai_body_of(prompt, model) implies other
        == model by {
        let mo = json_string_literal(other);
        let bo = xai_body_of(prompt, other);
        assert(bo =~= head + q + mid + mo + tail);
        assert(bo.subrange(at, at + mo.len()) =~= mo);
        law_string_literal_is_faithful(other, model);
    }
}

} // verus!
