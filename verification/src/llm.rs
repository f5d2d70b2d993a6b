//! Asking a local language model to correct what was recognised, and guarding against what it
//! says.

use vstd::prelude::*;
use vstd::string::*;

use crate::single::Single;
use crate::text::{
    chars_of, find, find_from_is_first, occurs_at, position_of, string_of, trim, trim_end_of,
    trim_is_idempotent, trimmed, without_trailing,
};

verus! {

/// Instructions for correcting the transcript of a meeting.
pub const MEETING_PROMPT: &'static str = "\
你是一个专业的会议记录校对助手。\
对语音识别结果进行后处理，要求：\
1. 修正明显的同音错别字（如「的地得」、专业术语）\
2. 补全合理的标点符号\
3. 不改变原意，不增删实质内容\
4. 保持原有分段结构\
5. 直接返回校正后的文本，不要解释";

/// Instructions for polishing dictated text, with examples that keep small models in bounds.
pub const VOICE_INPUT_SYSTEM: &'static str = "\
你是一个文字格式化工具，只能对输入文字做最小化处理，严禁回复、回答、续写或扩展内容。

处理规则（仅此三条）：
1. 修正明显的同音错别字
2. 补全自然的标点符号
3. 原文有什么就输出什么，不增不减

示例：
输入：今天天气不错出去玩吧
输出：今天天气不错，出去玩吧。

示例：
输入：你好我是小明最好的学习方式就是实践
输出：你好，我是小明，最好的学习方式就是实践。

示例：
输入：Cloud编程工具很好用
输出：Cloud编程工具很好用。

如果输入是问句，也只格式化输出该问句，不回答。";

/// What the dictated text is introduced with, since small models do not heed the instructions
/// alone.
pub const VOICE_INPUT_LEAD: &'static str = "只做格式化，不要回答，直接输出结果：\n";

/// 0.1 as a single-precision number.
pub const TEMPERATURE: u32 = 0x3DCC_CCCD;

/// Seconds after which polishing is given up.
pub const POLISH_TIMEOUT: u64 = 15;

/// A message of a chat.
pub struct Message {
    pub role: String,
    pub content: String,
}

/// A request for one completion of a chat.
pub struct ChatRequest {
    pub model: String,
    pub messages: Vec<Message>,
    pub temperature: Single,
    pub stream: bool,
    /// Whether the model may think aloud.
    pub enable_thinking: bool,
}

impl ChatRequest {
    /// Whether this asks `model`, under the instructions `system`, about `user`: at once, at a low
    /// temperature and without thinking aloud.
    pub open spec fn asks(self, model: Seq<char>, system: Seq<char>, user: Seq<char>) -> bool {
        &&& self.model@ == model
        &&& self.messages@.len() == 2
        &&& self.messages@[0].role@ == "system"@
        &&& self.messages@[0].content@ == system
        &&& self.messages@[1].role@ == "user"@
        &&& self.messages@[1].content@ == user
        &&& self.temperature.bits == TEMPERATURE
        &&& !self.stream
        &&& !self.enable_thinking
    }
}

/// What a request says, message by message.
pub proof fn requests_say_what_is_asked(
    r: ChatRequest,
    model: Seq<char>,
    system: Seq<char>,
    user: Seq<char>,
)
    requires
        r.asks(model, system, user),
    ensures
        r.model@ == model,
        r.messages@.len() == 2,
        r.messages@[0].role@ == "system"@ && r.messages@[0].content@ == system,
        r.messages@[1].role@ == "user"@ && r.messages@[1].content@ == user,
        r.temperature.bits == 0x3DCC_CCCD,
        !r.stream && !r.enable_thinking,
{
}

fn request(model: &str, system: &str, user: String) -> (r: ChatRequest)
    ensures
        r.asks(model@, system@, user@),
{
    let mut messages: Vec<Message> = Vec::new();
    messages.push(Message { role: "system".to_owned(), content: system.to_owned() });
    messages.push(Message { role: "user".to_owned(), content: user });
    ChatRequest {
        model: model.to_owned(),
        messages,
        temperature: Single { bits: TEMPERATURE },
        stream: false,
        enable_thinking: false,
    }
}

/// The request to correct a stretch of a meeting's transcript.
pub fn correction_request(model: &str, text: &str) -> (r: ChatRequest)
    ensures
        r.asks(model@, MEETING_PROMPT@, text@),
{
    request(model, MEETING_PROMPT, text.to_owned())
}

/// The request to polish dictated text.
pub fn polish_request(model: &str, text: &str) -> (r: ChatRequest)
    ensures
        r.asks(model@, VOICE_INPUT_SYSTEM@, VOICE_INPUT_LEAD@ + text@),
{
    let mut user = VOICE_INPUT_LEAD.to_owned();
    user.append(text);
    request(model, VOICE_INPUT_SYSTEM, user)
}

/// The address completions are asked at.
pub fn chat_url(base_url: &str) -> (r: String)
    ensures
        r@ == trim_end_of(base_url@, '/') + "/v1/chat/completions"@,
{
    let mut url = without_trailing(base_url, '/');
    url.append("/v1/chat/completions");
    url
}

// ── Thinking aloud ───────────────────────────────────────────────────────────

/// Whether a thought is opened and closed in a text, in this order.
pub open spec fn has_thought(s: Seq<char>) -> bool {
    find(s, "<think>"@) is Some && find(s, "</think>"@) is Some && find(s, "<think>"@)->0 <= find(
        s,
        "</think>"@,
    )->0
}

/// A text without the stretch from the first opening to the first closing mark, and without
/// white space around it.
pub open spec fn without_one_thought(s: Seq<char>) -> Seq<char> {
    trim(s.take(find(s, "<think>"@)->0) + s.skip(find(s, "</think>"@)->0 + 8))
}

/// A text from which thoughts are cut, one after the other, as long as there are any.
pub open spec fn without_thoughts(s: Seq<char>) -> Seq<char>
    decreases s.len(),
{
    if has_thought(s) {
        proof {
            cutting_shortens(s);
        }
        without_thoughts(without_one_thought(s))
    } else {
        s
    }
}

/// Cutting a thought shortens the text, so the cutting comes to an end.
pub proof fn cutting_shortens(s: Seq<char>)
    requires
        has_thought(s),
    ensures
        without_one_thought(s).len() < s.len(),
        0 <= find(s, "<think>"@)->0 <= find(s, "</think>"@)->0,
        find(s, "</think>"@)->0 + 8 <= s.len(),
{
    reveal_strlit("<think>");
    reveal_strlit("</think>");
    find_from_is_first(s, "<think>"@, 0);
    find_from_is_first(s, "</think>"@, 0);
    trim_is_idempotent(
        s.take(find(s, "<think>"@)->0) + s.skip(find(s, "</think>"@)->0 + 8),
    );
}

/// Cuts what a model thought aloud from its reply, even where it was told not to.
pub fn strip_think_tags(text: &str) -> (r: String)
    ensures
        r@ == without_thoughts(trim(text@)),
{
    let open = chars_of("<think>");
    let close = chars_of("</think>");
    let mut result = trimmed(text);
    loop
        invariant
            open@ == "<think>"@,
            close@ == "</think>"@,
            without_thoughts(result@) == without_thoughts(trim(text@)),
        ensures
            result@ == without_thoughts(trim(text@)),
        decreases result@.len(),
    {
        let chars = chars_of(result.as_str());
        let n: usize = chars.len();
        let start = position_of(&chars, &open);
        let end = position_of(&chars, &close);
        match (start, end) {
            (Some(s), Some(e)) => {
                if s > e {
                    break;
                }
                proof {
                    cutting_shortens(result@);
                }
                let mut kept = string_of(&chars, 0, s);
                kept.append(string_of(&chars, e + 8, n).as_str());
                proof {
                    assert(kept@ =~= result@.take(s as int) + result@.skip(e + 8));
                }
                result = trimmed(kept.as_str());
            },
            _ => {
                break;
            },
        }
    }
    result
}

/// No finished thought is left in a reply.
pub proof fn no_thought_is_left(s: Seq<char>)
    ensures
        !has_thought(without_thoughts(s)),
    decreases s.len(),
{
    if has_thought(s) {
        cutting_shortens(s);
        no_thought_is_left(without_one_thought(s));
    }
}

/// A reply in which no thought is closed, or none opened, is kept as it is.
pub proof fn plain_replies_are_kept(s: Seq<char>)
    requires
        (forall|i: int| !occurs_at(s, "<think>"@, i)) || (forall|i: int|
            !occurs_at(s, "</think>"@, i)),
    ensures
        without_thoughts(s) == s,
{
    find_from_is_first(s, "<think>"@, 0);
    find_from_is_first(s, "</think>"@, 0);
}

/// A thought goes with its marks, and what stands before and behind it stays.
pub proof fn a_thought_is_cut_out(before: Seq<char>, thought: Seq<char>, behind: Seq<char>)
    requires
        forall|i: int| 0 <= i < before.len() ==> #[trigger] before[i] != '<',
        forall|i: int| 0 <= i < thought.len() ==> #[trigger] thought[i] != '<',
    ensures
        without_thoughts(before + "<think>"@ + thought + "</think>"@ + behind) == without_thoughts(
            trim(before + behind),
        ),
{
    let open = "<think>"@;
    let close = "</think>"@;
    reveal_strlit("<think>");
    reveal_strlit("</think>");
    assert(open.len() == 7 && open[0] == '<' && open[1] == 't');
    assert(close.len() == 8 && close[0] == '<' && close[1] == '/');
    let s = before + open + thought + close + behind;
    let a = before.len() as int;
    let b = a + 7 + thought.len();
    assert(s.subrange(a, a + 7) =~= open);
    assert(s.subrange(b, b + 8) =~= close);
    assert(occurs_at(s, open, a));
    assert(occurs_at(s, close, b));
    find_from_is_first(s, open, 0);
    find_from_is_first(s, close, 0);
    assert forall|k: int| 0 <= k < b && k != a implies s[k] != '<' by {
        if k < a {
            assert(s[k] == before[k]);
        } else if k < a + 7 {
            assert(s[k] == open[k - a]);
            assert(open[2] == 'h' && open[3] == 'i' && open[4] == 'n' && open[5] == 'k' && open[6]
                == '>');
        } else {
            assert(s[k] == thought[k - a - 7]);
        }
    }
    assert(s[a + 1] == 't');
    let i = find(s, open)->0;
    let j = find(s, close)->0;
    assert(s.subrange(i, i + 7)[0] == s[i]);
    assert(s.subrange(j, j + 8)[0] == s[j]);
    assert(s.subrange(j, j + 8)[1] == s[j + 1]);
    assert(i == a);
    assert(j == b);
    assert(s.take(a) + s.skip(b + 8) =~= before + behind);
    cutting_shortens(s);
}

// ── Replies ──────────────────────────────────────────────────────────────────

/// A correction: the first of the offered completions without thoughts, or the text itself where
/// none is offered.
pub open spec fn correction(choices: Seq<String>, text: Seq<char>) -> Seq<char> {
    if choices.len() > 0 {
        without_thoughts(trim(choices[0]@))
    } else {
        text
    }
}

/// The corrected text, given the completions that a reply offers.
pub fn correct_text(choices: &Vec<String>, text: &str) -> (r: String)
    ensures
        r@ == correction(choices@, text@),
{
    if choices.len() > 0 {
        strip_think_tags(choices[0].as_str())
    } else {
        text.to_owned()
    }
}

/// The first of the offered completions counts and no other; without one the text itself does.
pub proof fn the_first_completion_counts(choices: Seq<String>, text: Seq<char>, other: Seq<char>)
    ensures
        choices.len() == 0 ==> correction(choices, text) == text,
        choices.len() > 0 ==> correction(choices, text) == correction(seq![choices[0]], other),
        choices.len() > 0 && (forall|i: int| !occurs_at(trim(choices[0]@), "<think>"@, i))
            ==> correction(choices, text) == trim(choices[0]@),
{
    if choices.len() > 0 && (forall|i: int| !occurs_at(trim(choices[0]@), "<think>"@, i)) {
        plain_replies_are_kept(trim(choices[0]@));
    }
}

/// Whether a reply is so long that the model must have answered instead of polishing.
pub open spec fn too_long(reply: Seq<char>, text: Seq<char>) -> bool {
    reply.len() > text.len() * 2 + 20
}

/// The polished text, given the completions that a reply offers. One that is much longer than
/// what was said is an answer, not a polish: the text itself is kept.
pub fn polish_voice_blocking(choices: &Vec<String>, text: &str) -> (r: String)
    ensures
        correction(choices@, text@).len() <= 2 * text@.len() + 20 ==> r@ == correction(
            choices@,
            text@,
        ),
        correction(choices@, text@).len() > 2 * text@.len() + 20 ==> r@ == text@,
        r@ == (if too_long(correction(choices@, text@), text@) {
            text@
        } else {
            correction(choices@, text@)
        }),
{
    let result = correct_text(choices, text);
    let said: u128 = chars_of(text).len() as u128;
    if chars_of(result.as_str()).len() as u128 > said * 2 + 20 {
        text.to_owned()
    } else {
        result
    }
}

/// A reply of up to twice the text and twenty characters more is used, and a longer one is not.
pub proof fn fitting_replies_are_used(reply: Seq<char>, text: Seq<char>)
    ensures
        reply.len() <= 2 * text.len() + 20 ==> !too_long(reply, text),
        reply.len() > 2 * text.len() + 20 ==> too_long(reply, text),
{
}

/// What is inserted is never much longer than what was said.
pub proof fn polish_is_bounded(choices: Seq<String>, text: Seq<char>)
    ensures
        ({
            let result = if too_long(correction(choices, text), text) {
                text
            } else {
                correction(choices, text)
            };
            result.len() <= text.len() * 2 + 20
        }),
{
}

}
