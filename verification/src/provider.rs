use vstd::prelude::*;

use crate::models::{AppSettings, PromptSettings};
use crate::text::{
    blank, chars_of, is_blank, owned, push_chars, push_text, same_text, starts_with, string_of,
    trim, trim_range, trimmed, vec_starts_with,
};

verus! {

// ---------------------------------------------------------------------------
// Which provider optimises the text
// ---------------------------------------------------------------------------

/// An OpenAI-compatible chat completions service that optimises the text.
#[derive(Debug)]
pub struct TextProvider {
    pub name: String,
    pub api_key: String,
    pub base_url: String,
    pub model: String,
    pub title: Option<String>,
    pub referer: Option<String>,
    pub use_system_proxy: bool,
}

pub open spec fn opt_view(o: Option<String>) -> Option<Seq<char>> {
    match o {
        Some(s) => Some(s@),
        None => None,
    }
}

/// A provider as plain values: name, key, base URL, model, title, referer, proxy use.
pub open spec fn provider_view(p: TextProvider) -> (
    Seq<char>,
    Seq<char>,
    Seq<char>,
    Seq<char>,
    Option<Seq<char>>,
    Option<Seq<char>>,
    bool,
) {
    (p.name@, p.api_key@, p.base_url@, p.model@, opt_view(p.title), opt_view(p.referer), p.use_system_proxy)
}

/// The provider that `optimize_provider` selects: DeepSeek, a custom OpenAI-compatible
/// service, or OpenRouter for any other value.
pub open spec fn selected_provider(s: AppSettings) -> (
    Seq<char>,
    Seq<char>,
    Seq<char>,
    Seq<char>,
    Option<Seq<char>>,
    Option<Seq<char>>,
    bool,
) {
    if s.optimize_provider@ == "deepseek"@ {
        ("DeepSeek"@, s.deepseek_api_key@, s.deepseek_base_url@, s.deepseek_model@, None, None, true)
    } else if s.optimize_provider@ == "custom_openai"@ {
        (
            if is_blank(s.custom_openai_provider_name@) {
                "Custom OpenAI-compatible"@
            } else {
                s.custom_openai_provider_name@
            },
            s.custom_openai_api_key@,
            s.custom_openai_base_url@,
            s.custom_openai_model@,
            None,
            None,
            true,
        )
    } else {
        (
            "OpenRouter"@,
            s.openrouter_api_key@,
            s.openrouter_base_url@,
            s.openrouter_model@,
            Some(s.openrouter_title@),
            Some(s.openrouter_http_referer@),
            s.use_system_proxy_for_openrouter,
        )
    }
}

/// The provider to call, or why it cannot be called: its key, base URL and model must not be
/// blank.
pub open spec fn provider_outcome(s: AppSettings) -> Result<
    (Seq<char>, Seq<char>, Seq<char>, Seq<char>, Option<Seq<char>>, Option<Seq<char>>, bool),
    Seq<char>,
> {
    let p = selected_provider(s);
    if is_blank(p.1) {
        Err(p.0 + " API Key 为空"@)
    } else if is_blank(p.2) {
        Err(p.0 + " Base URL 为空"@)
    } else if is_blank(p.3) {
        Err(p.0 + " 模型为空"@)
    } else {
        Ok(p)
    }
}

fn error_with(name: &String, what: &str) -> (e: String)
    ensures
        e@ == name@ + what@,
{
    let mut e = name.clone();
    push_text(&mut e, what);
    e
}

/// The provider that the settings select, checked for a key, a base URL and a model.
pub fn active_text_provider(settings: &AppSettings) -> (r: Result<TextProvider, String>)
    ensures
        match r {
            Ok(p) => provider_outcome(*settings) == Ok::<
                (Seq<char>, Seq<char>, Seq<char>, Seq<char>, Option<Seq<char>>, Option<Seq<char>>, bool),
                Seq<char>,
            >(provider_view(p)),
            Err(e) => provider_outcome(*settings) == Err::<
                (Seq<char>, Seq<char>, Seq<char>, Seq<char>, Option<Seq<char>>, Option<Seq<char>>, bool),
                Seq<char>,
            >(e@),
        },
{
    let provider = if same_text(settings.optimize_provider.as_str(), "deepseek") {
        TextProvider {
            name: owned("DeepSeek"),
            api_key: settings.deepseek_api_key.clone(),
            base_url: settings.deepseek_base_url.clone(),
            model: settings.deepseek_model.clone(),
            title: None,
            referer: None,
            use_system_proxy: true,
        }
    } else if same_text(settings.optimize_provider.as_str(), "custom_openai") {
        TextProvider {
            name: if blank(settings.custom_openai_provider_name.as_str()) {
                owned("Custom OpenAI-compatible")
            } else {
                settings.custom_openai_provider_name.clone()
            },
            api_key: settings.custom_openai_api_key.clone(),
            base_url: settings.custom_openai_base_url.clone(),
            model: settings.custom_openai_model.clone(),
            title: None,
            referer: None,
            use_system_proxy: true,
        }
    } else {
        TextProvider {
            name: owned("OpenRouter"),
            api_key: settings.openrouter_api_key.clone(),
            base_url: settings.openrouter_base_url.clone(),
            model: settings.openrouter_model.clone(),
            title: Some(settings.openrouter_title.clone()),
            referer: Some(settings.openrouter_http_referer.clone()),
            use_system_proxy: settings.use_system_proxy_for_openrouter,
        }
    };
    assert(provider_view(provider) == selected_provider(*settings));
    if blank(provider.api_key.as_str()) {
        return Err(error_with(&provider.name, " API Key 为空"));
    }
    if blank(provider.base_url.as_str()) {
        return Err(error_with(&provider.name, " Base URL 为空"));
    }
    if blank(provider.model.as_str()) {
        return Err(error_with(&provider.name, " 模型为空"));
    }
    Ok(provider)
}

/// The label of the selected provider for the log.
pub open spec fn provider_label(s: AppSettings) -> Seq<char> {
    if s.optimize_provider@ == "deepseek"@ {
        "DeepSeek"@
    } else if s.optimize_provider@ == "custom_openai"@ {
        s.custom_openai_provider_name@
    } else {
        "OpenRouter"@
    }
}

/// The model of the selected provider.
pub open spec fn provider_model(s: AppSettings) -> Seq<char> {
    if s.optimize_provider@ == "deepseek"@ {
        s.deepseek_model@
    } else if s.optimize_provider@ == "custom_openai"@ {
        s.custom_openai_model@
    } else {
        s.openrouter_model@
    }
}

/// The label of the selected provider for the log.
pub fn active_text_provider_label(settings: &AppSettings) -> (r: String)
    ensures
        r@ == provider_label(*settings),
{
    if same_text(settings.optimize_provider.as_str(), "deepseek") {
        owned("DeepSeek")
    } else if same_text(settings.optimize_provider.as_str(), "custom_openai") {
        settings.custom_openai_provider_name.clone()
    } else {
        owned("OpenRouter")
    }
}

/// The model of the selected provider.
pub fn active_text_model_name(settings: &AppSettings) -> (r: String)
    ensures
        r@ == provider_model(*settings),
{
    if same_text(settings.optimize_provider.as_str(), "deepseek") {
        settings.deepseek_model.clone()
    } else if same_text(settings.optimize_provider.as_str(), "custom_openai") {
        settings.custom_openai_model.clone()
    } else {
        settings.openrouter_model.clone()
    }
}

/// The provider to call asks for the model that the settings name for the selected
/// provider (the one `active_text_model_name` reports), and its key, base URL and model are
/// the three settings of one and the same provider, never mixed across providers. Its name is
/// the label the log shows, unless a custom provider has a blank name.
pub proof fn law_provider_uses_its_own_settings(s: AppSettings)
    ensures
        provider_outcome(s) matches Ok(p) ==> {
            &&& p.3 == provider_model(s)
            &&& !is_blank(provider_label(s)) ==> p.0 == provider_label(s)
            &&& (p.1, p.2, p.3) == (s.deepseek_api_key@, s.deepseek_base_url@, s.deepseek_model@) || (
            p.1,
            p.2,
            p.3,
        ) == (s.custom_openai_api_key@, s.custom_openai_base_url@, s.custom_openai_model@) || (
            p.1,
            p.2,
            p.3,
        ) == (s.openrouter_api_key@, s.openrouter_base_url@, s.openrouter_model@)
        },
{
    reveal_strlit("DeepSeek");
    reveal_strlit("OpenRouter");
}

// ---------------------------------------------------------------------------
// The system prompt
// ---------------------------------------------------------------------------

/// The extra instruction for a cleanup mode: light and deep have one, any other mode none.
pub open spec fn cleanup_text(mode: Seq<char>) -> Seq<char> {
    if mode == "light"@ {
        LIGHT_CLEANUP@
    } else if mode == "deep"@ {
        DEEP_CLEANUP@
    } else {
        Seq::empty()
    }
}

/// The instruction for light cleanup.
pub const LIGHT_CLEANUP: &'static str = "【轻度整理】\n保留原表达逻辑，只清理明显口语噪音、紧邻重复、明确自我修正和明显 ASR 错误。允许按自然语义轻度换行，但不总结、不扩写、不重排结构。";

/// The instruction for deep cleanup.
pub const DEEP_CLEANUP: &'static str = "【深度整理】\n提取中心意思，删除口癖和重复表达，重组语序和结构；遇到明确列举、步骤、条件或任务时优先使用编号列表。不得新增事实、回答问题或给建议。";

/// The extra instruction for a cleanup mode.
pub fn cleanup_mode_prompt(mode: &str) -> (r: &'static str)
    ensures
        r@ == cleanup_text(mode@),
{
    if same_text(mode, "light") {
        LIGHT_CLEANUP
    } else if same_text(mode, "deep") {
        DEEP_CLEANUP
    } else {
        proof {
            reveal_strlit("");
        }
        ""
    }
}

/// The first system message, the fixed rules: the trimmed rules, then the cleanup
/// instruction under its heading when the mode has one.
pub open spec fn system_prompt_text(p: PromptSettings) -> Seq<char> {
    let cleanup = cleanup_text(p.cleanup_mode@);
    trim(p.system_prompt@) + (if cleanup.len() > 0 {
        "\n\n# 整理强度\n"@ + cleanup
    } else {
        Seq::empty()
    })
}

/// The second system message: the user dictionary and the writing preferences, each trimmed
/// under its heading, separated by a blank line.
pub open spec fn preference_prompt_text(p: PromptSettings) -> Seq<char> {
    "# 用户词典\n"@ + trim(p.replacements@) + "\n\n# 个性化偏好\n"@ + trim(p.writing_preferences@)
}

fn push_trimmed(s: &mut String, t: &str)
    ensures
        final(s)@ == old(s)@ + trim(t@),
{
    let v = chars_of(t);
    let (a, b) = trim_range(&v);
    push_chars(s, &v, a, b);
}

/// Builds the first system message of an optimisation request: the fixed rules.
pub fn build_system_prompt(prompts: &PromptSettings) -> (r: String)
    ensures
        r@ == system_prompt_text(*prompts),
{
    let cleanup = cleanup_mode_prompt(prompts.cleanup_mode.as_str());
    let mut r = String::new();
    push_trimmed(&mut r, prompts.system_prompt.as_str());
    if !blank_free_empty(cleanup) {
        push_text(&mut r, "\n\n# 整理强度\n");
        push_text(&mut r, cleanup);
    }
    assert(r@ =~= system_prompt_text(*prompts));
    r
}

/// Builds the second system message of an optimisation request: dictionary and preferences.
pub fn build_preference_prompt(prompts: &PromptSettings) -> (r: String)
    ensures
        r@ == preference_prompt_text(*prompts),
{
    let mut r = owned("# 用户词典\n");
    push_trimmed(&mut r, prompts.replacements.as_str());
    push_text(&mut r, "\n\n# 个性化偏好\n");
    push_trimmed(&mut r, prompts.writing_preferences.as_str());
    r
}

/// A chat message as role and content.
pub open spec fn message_view(m: (String, String)) -> (Seq<char>, Seq<char>) {
    (m.0@, m.1@)
}

/// The messages of an optimisation request, in order: the fixed rules as a system message,
/// the dictionary and preferences as a second system message, and the recognised text as
/// the user message.
pub fn chat_messages(prompts: &PromptSettings, raw_asr_text: &str) -> (r: Vec<(String, String)>)
    ensures
        r@.map_values(|m: (String, String)| message_view(m)) == seq![
            ("system"@, system_prompt_text(*prompts)),
            ("system"@, preference_prompt_text(*prompts)),
            ("user"@, "ASR 原文：\n"@ + raw_asr_text@),
        ],
{
    let mut r: Vec<(String, String)> = Vec::new();
    r.push((owned("system"), build_system_prompt(prompts)));
    r.push((owned("system"), build_preference_prompt(prompts)));
    r.push((owned("user"), asr_user_message(raw_asr_text)));
    assert(r@.map_values(|m: (String, String)| message_view(m)) =~= seq![
        ("system"@, system_prompt_text(*prompts)),
        ("system"@, preference_prompt_text(*prompts)),
        ("user"@, "ASR 原文：\n"@ + raw_asr_text@),
    ]);
    r
}

fn blank_free_empty(t: &str) -> (r: bool)
    ensures
        r == (t@.len() == 0),
{
    chars_of(t).len() == 0
}

// ---------------------------------------------------------------------------
// The request
// ---------------------------------------------------------------------------

/// `s` without trailing `/` characters (`trim_end_matches('/')`).
pub open spec fn without_trailing_slashes(s: Seq<char>) -> Seq<char>
    decreases s.len(),
{
    if s.len() > 0 && s.last() == '/' {
        without_trailing_slashes(s.drop_last())
    } else {
        s
    }
}

/// The chat completions URL under a base URL.
pub fn chat_completions_url(base_url: &str) -> (r: String)
    ensures
        r@ == without_trailing_slashes(base_url@) + "/chat/completions"@,
{
    let v = chars_of(base_url);
    let mut end = v.len();
    assert(v@.subrange(0, v@.len() as int) =~= v@);
    while end > 0 && v[end - 1] == '/'
        invariant
            end <= v.len(),
            without_trailing_slashes(v@) == without_trailing_slashes(v@.subrange(0, end as int)),
        decreases end,
    {
        assert(v@.subrange(0, end as int).drop_last() =~= v@.subrange(0, end - 1));
        end = end - 1;
    }
    assert(v@.subrange(0, v@.len() as int) =~= v@);
    let mut r = string_of(&v, 0, end);
    push_text(&mut r, "/chat/completions");
    r
}

/// Optional headers of a chat request: the title when set, the provider's referer when set,
/// else the fallback referer when set ("set" meaning not blank).
pub open spec fn optional_headers(
    title: Option<Seq<char>>,
    referer: Option<Seq<char>>,
    fallback: Seq<char>,
) -> Seq<(Seq<char>, Seq<char>)> {
    (match title {
        Some(t) => if is_blank(t) {
            Seq::empty()
        } else {
            seq![("X-OpenRouter-Title"@, t)]
        },
        None => Seq::empty(),
    }) + match referer {
        Some(r) if !is_blank(r) => seq![("HTTP-Referer"@, r)],
        _ => if is_blank(fallback) {
            Seq::empty()
        } else {
            seq![("HTTP-Referer"@, fallback)]
        },
    }
}

/// The optional headers of a chat request to `provider`. The one-shot request falls back to
/// the OpenRouter referer of the settings; pass a blank fallback for none.
pub fn request_headers(provider: &TextProvider, fallback_referer: &str) -> (r: Vec<(String, String)>)
    ensures
        r@.map_values(|h: (String, String)| (h.0@, h.1@)) == optional_headers(
            opt_view(provider.title),
            opt_view(provider.referer),
            fallback_referer@,
        ),
{
    let mut r: Vec<(String, String)> = Vec::new();
    match &provider.title {
        Some(t) => if !blank(t.as_str()) {
            r.push((owned("X-OpenRouter-Title"), t.clone()));
        },
        None => {},
    }
    let ghost first = r@.map_values(|h: (String, String)| (h.0@, h.1@));
    let mut referer_done = false;
    match &provider.referer {
        Some(x) => if !blank(x.as_str()) {
            r.push((owned("HTTP-Referer"), x.clone()));
            referer_done = true;
        },
        None => {},
    }
    if !referer_done && !blank(fallback_referer) {
        r.push((owned("HTTP-Referer"), owned(fallback_referer)));
    }
    assert(r@.map_values(|h: (String, String)| (h.0@, h.1@)) =~= optional_headers(
        opt_view(provider.title),
        opt_view(provider.referer),
        fallback_referer@,
    ));
    r
}

// ---------------------------------------------------------------------------
// The response
// ---------------------------------------------------------------------------

/// The optimised text of a one-shot response: the first choice's content trimmed; an error
/// when there is no choice or its content is blank.
pub open spec fn choice_outcome(contents: Seq<Seq<char>>, name: Seq<char>) -> Result<Seq<char>, Seq<char>> {
    if contents.len() > 0 && trim(contents[0]).len() > 0 {
        Ok(trim(contents[0]))
    } else {
        Err(name + " 没有返回可用文本"@)
    }
}

/// The optimised text of a one-shot response from the contents of its choices.
pub fn first_choice_text(contents: &Vec<String>, name: &String) -> (r: Result<String, String>)
    ensures
        match r {
            Ok(t) => choice_outcome(contents@.map_values(|c: String| c@), name@) == Ok::<
                Seq<char>,
                Seq<char>,
            >(t@),
            Err(e) => choice_outcome(contents@.map_values(|c: String| c@), name@) == Err::<
                Seq<char>,
                Seq<char>,
            >(e@),
        },
{
    if contents.len() > 0 {
        let t = trimmed(contents[0].as_str());
        if chars_of(t.as_str()).len() > 0 {
            return Ok(t);
        }
    }
    Err(error_with(name, " 没有返回可用文本"))
}

/// The optimised text of a streamed response that ended without `[DONE]`: the collected text
/// trimmed; an error when it is blank.
pub open spec fn stream_end_outcome(output: Seq<char>, name: Seq<char>) -> Result<Seq<char>, Seq<char>> {
    if trim(output).len() > 0 {
        Ok(trim(output))
    } else {
        Err(name + " 没有返回可用文本"@)
    }
}

/// The optimised text once a stream ends without `[DONE]`.
pub fn stream_end_text(output: &str, name: &String) -> (r: Result<String, String>)
    ensures
        match r {
            Ok(t) => stream_end_outcome(output@, name@) == Ok::<Seq<char>, Seq<char>>(t@),
            Err(e) => stream_end_outcome(output@, name@) == Err::<Seq<char>, Seq<char>>(e@),
        },
{
    let t = trimmed(output);
    if chars_of(t.as_str()).len() > 0 {
        Ok(t)
    } else {
        Err(error_with(name, " 没有返回可用文本"))
    }
}

/// Position of the first line feed.
pub open spec fn first_newline(s: Seq<char>) -> Option<int> {
    if exists|i: int| 0 <= i < s.len() && s[i] == '\n' {
        Some(
            choose|i: int|
                0 <= i < s.len() && s[i] == '\n' && forall|j: int| 0 <= j < i ==> #[trigger] s[j] != '\n',
        )
    } else {
        None
    }
}

/// Takes the first complete line out of the pending stream text: the text before the first
/// line feed, trimmed; what follows the line feed stays pending.
pub fn take_line(pending: &mut String) -> (r: Option<String>)
    ensures
        match first_newline(old(pending)@) {
            Some(i) => r is Some && r->Some_0@ == trim(old(pending)@.subrange(0, i))
                && final(pending)@ == old(pending)@.subrange(i + 1, old(pending)@.len() as int),
            None => r is None && final(pending)@ == old(pending)@,
        },
{
    let v = chars_of(pending.as_str());
    let mut i: usize = 0;
    while i < v.len() && v[i] != '\n'
        invariant
            i <= v.len(),
            v@ == pending@,
            forall|j: int| 0 <= j < i ==> #[trigger] v@[j] != '\n',
        decreases v.len() - i,
    {
        i = i + 1;
    }
    if i == v.len() {
        return None;
    }
    proof {
        let k = choose|k: int|
            0 <= k < v@.len() && v@[k] == '\n' && forall|j: int| 0 <= j < k ==> #[trigger] v@[j] != '\n';
        assert(0 <= k < v@.len() && v@[k] == '\n' && forall|j: int| 0 <= j < k ==> #[trigger] v@[j] != '\n');
        if k < i {
            assert(v@[k] != '\n');
        }
        if k > i {
            assert(v@[i as int] != '\n');
        }
    }
    let head = slice_trim(&v, 0, i);
    let rest = string_of(&v, i + 1, v.len());
    *pending = rest;
    Some(head)
}

fn slice_trim(v: &Vec<char>, from: usize, to: usize) -> (r: String)
    requires
        from <= to <= v.len(),
    ensures
        r@ == trim(v@.subrange(from as int, to as int)),
{
    let s = string_of(v, from, to);
    trimmed(s.as_str())
}

/// A line of a streamed response.
pub enum StreamLine {
    /// Not a data line.
    Skip,
    /// The end marker `[DONE]`.
    Done,
    /// A data line's JSON text.
    Data(String),
}

/// `s` without every leading `data:`.
pub open spec fn without_data_prefixes(s: Seq<char>) -> Seq<char>
    decreases s.len(),
{
    if s.len() >= 5 && starts_with(s, "data:"@) {
        without_data_prefixes(s.subrange(5, s.len() as int))
    } else {
        s
    }
}

/// What a trimmed line of a streamed response is: not `data:`, the `[DONE]` marker, or the
/// trimmed text after the `data:` prefixes.
pub open spec fn stream_line_kind(line: Seq<char>) -> Option<Option<Seq<char>>> {
    if !starts_with(line, "data:"@) {
        None
    } else if trim(without_data_prefixes(line)) == "[DONE]"@ {
        Some(None)
    } else {
        Some(Some(trim(without_data_prefixes(line))))
    }
}

pub open spec fn line_view(l: StreamLine) -> Option<Option<Seq<char>>> {
    match l {
        StreamLine::Skip => None,
        StreamLine::Done => Some(None),
        StreamLine::Data(d) => Some(Some(d@)),
    }
}

/// Classifies a trimmed line of a streamed response.
pub fn read_stream_line(line: &str) -> (r: StreamLine)
    ensures
        line_view(r) == stream_line_kind(line@),
{
    let v = chars_of(line);
    let prefix = chars_of("data:");
    proof {
        reveal_strlit("data:");
    }
    if !vec_starts_with(&v, &prefix) {
        return StreamLine::Skip;
    }
    let mut start: usize = 0;
    let mut more = true;
    assert(v@.subrange(0, v@.len() as int) =~= v@);
    while more
        invariant
            start <= v.len(),
            without_data_prefixes(v@) == without_data_prefixes(v@.subrange(start as int, v@.len() as int)),
            !more ==> without_data_prefixes(v@) == v@.subrange(start as int, v@.len() as int),
            prefix@ == "data:"@,
            prefix@.len() == 5,
        decreases v.len() - start + if more {
            1int
        } else {
            0int
        },
    {
        let rest = slice_from(&v, start);
        if rest.len() >= 5 && vec_starts_with(&rest, &prefix) {
            start = start + 5;
            assert(rest@.subrange(5, rest@.len() as int) =~= v@.subrange(start as int, v@.len() as int));
        } else {
            more = false;
        }
    }
    let data = slice_trim(&v, start, v.len());
    assert(v@.subrange(0, v@.len() as int) =~= v@);
    if same_text(data.as_str(), "[DONE]") {
        StreamLine::Done
    } else {
        StreamLine::Data(data)
    }
}

fn slice_from(v: &Vec<char>, from: usize) -> (r: Vec<char>)
    requires
        from <= v.len(),
    ensures
        r@ == v@.subrange(from as int, v@.len() as int),
{
    crate::text::slice_vec(v, from, v.len())
}


/// The user message of an optimisation request: the recognised text under its heading.
pub fn asr_user_message(raw_asr_text: &str) -> (m: String)
    ensures
        m@ == "ASR 原文：\n"@ + raw_asr_text@,
{
    let mut m = owned("ASR 原文：\n");
    push_text(&mut m, raw_asr_text);
    m
}

/// The message of a connection test that went through.
pub fn connection_ok_message(name: &String) -> (m: String)
    ensures
        m@ == name@ + " 连接可用"@,
{
    error_with(name, " 连接可用")
}

/// The message of a request that the provider refused: "<name> <what>：<status> <body>".
pub fn http_failure_message(name: &String, what: &str, status: &str, body: &str) -> (m: String)
    ensures
        m@ == name@ + " "@ + what@ + "："@ + status@ + " "@ + body@,
{
    let mut m = name.clone();
    push_text(&mut m, " ");
    push_text(&mut m, what);
    push_text(&mut m, "：");
    push_text(&mut m, status);
    push_text(&mut m, " ");
    push_text(&mut m, body);
    m
}

} // verus!
