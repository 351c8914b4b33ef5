//! The base URLs that a new profile can be given by number.
use crate::config::ProviderType;
use crate::text::{
    decimal, decimal_text, law_decimal_reads_back, law_digit_is_a_numeral, law_empty_is_no_numeral,
    numeral, parse_usize, texts,
};
use vstd::prelude::*;

verus! {

/// The label and the base URL of each preset for a provider type, in the order of their numbers.
pub open spec fn preset_list(provider_type: ProviderType) -> Seq<(Seq<char>, Seq<char>)> {
    match provider_type {
        ProviderType::DirectAnthropic => seq![
            ("Anthropic"@, "https://api.anthropic.com"@),
            ("MiniMax"@, "https://api.minimax.io/anthropic"@),
            ("OpenRouter"@, "https://openrouter.ai/api"@),
        ],
        ProviderType::OpenAICompatible => seq![
            ("Grok/xAI"@, "https://api.x.ai/v1"@),
            ("OpenAI"@, "https://api.openai.com/v1"@),
            ("DeepSeek"@, "https://api.deepseek.com"@),
            ("Kimi"@, "https://api.moonshot.cn/v1"@),
            ("GLM"@, "https://open.bigmodel.cn/api/paas/v4"@),
            ("Ollama"@, "http://localhost:11434/v1"@),
        ],
        ProviderType::OpenAIResponses => seq![
            ("ChatGPT/Codex"@, "https://chatgpt.com/backend-api/codex"@),
        ],
    }
}

/// The text of a list of pairs.
pub open spec fn pair_list(pairs: Seq<(&'static str, &'static str)>) -> Seq<(
    Seq<char>,
    Seq<char>,
)> {
    Seq::new(pairs.len(), |i: int| (pairs[i].0@, pairs[i].1@))
}

/// The presets for a provider type: a label and a base URL each.
pub fn presets(provider_type: ProviderType) -> (result: Vec<(&'static str, &'static str)>)
    ensures
        pair_list(result@) == preset_list(provider_type),
        result@.len() > 0,
{
    let result: Vec<(&'static str, &'static str)> = match provider_type {
        ProviderType::DirectAnthropic => vec![
            ("Anthropic", "https://api.anthropic.com"),
            ("MiniMax", "https://api.minimax.io/anthropic"),
            ("OpenRouter", "https://openrouter.ai/api"),
        ],
        ProviderType::OpenAICompatible => vec![
            ("Grok/xAI", "https://api.x.ai/v1"),
            ("OpenAI", "https://api.openai.com/v1"),
            ("DeepSeek", "https://api.deepseek.com"),
            ("Kimi", "https://api.moonshot.cn/v1"),
            ("GLM", "https://open.bigmodel.cn/api/paas/v4"),
            ("Ollama", "http://localhost:11434/v1"),
        ],
        ProviderType::OpenAIResponses => vec![
            ("ChatGPT/Codex", "https://chatgpt.com/backend-api/codex"),
        ],
    };
    assert(pair_list(result@) =~= preset_list(provider_type));
    result
}

/// The menu line of the preset with the index `at`; its number is one more.
pub open spec fn preset_line(provider_type: ProviderType, at: int) -> Seq<char> {
    "  "@ + decimal((at + 1) as nat) + ") "@ + preset_list(provider_type)[at].0 + " ("@
        + preset_list(provider_type)[at].1 + ")"@
}

/// The menu of the presets, which a blank line goes before.
pub open spec fn preset_menu(provider_type: ProviderType) -> Seq<Seq<char>> {
    seq!["\nBase URL presets:"@] + Seq::new(
        preset_list(provider_type).len(),
        |at: int| preset_line(provider_type, at),
    ) + seq!["  or enter a custom URL"@]
}

/// Adds the menu of the presets to the lines to show.
pub fn push_preset_menu(lines: &mut Vec<String>, provider_type: ProviderType)
    ensures
        texts(final(lines)@) == texts(old(lines)@) + preset_menu(provider_type),
{
    let list: Vec<(&'static str, &'static str)> = presets(provider_type);
    let ghost before = texts(lines@);
    let ghost all = Seq::new(
        preset_list(provider_type).len(),
        |at: int| preset_line(provider_type, at),
    );
    lines.push("\nBase URL presets:".to_owned());
    assert(texts(lines@) =~= before + seq!["\nBase URL presets:"@] + all.take(0));
    let mut at: usize = 0;
    while at < list.len()
        invariant
            at <= list.len(),
            list.len() == preset_list(provider_type).len(),
            list.len() <= 6,
            pair_list(list@) == preset_list(provider_type),
            all == Seq::new(
                preset_list(provider_type).len(),
                |at: int| preset_line(provider_type, at),
            ),
            texts(lines@) == before + seq!["\nBase URL presets:"@] + all.take(at as int),
        decreases list.len() - at,
    {
        let mut line: String = "  ".to_owned();
        line.append(decimal_text((at + 1) as u128).as_str());
        line.append(") ");
        line.append(list[at].0);
        line.append(" (");
        line.append(list[at].1);
        line.append(")");
        assert(pair_list(list@)[at as int] == preset_list(provider_type)[at as int]);
        assert(line@ == all[at as int]);
        let ghost shown = texts(lines@);
        lines.push(line);
        assert(texts(lines@) =~= shown.push(all[at as int]));
        assert(all.take(at + 1) =~= all.take(at as int).push(all[at as int]));
        at = at + 1;
    }
    assert(all.take(at as int) =~= all);
    let ghost shown = texts(lines@);
    lines.push("  or enter a custom URL".to_owned());
    assert(texts(lines@) =~= shown.push("  or enter a custom URL"@));
    assert(texts(lines@) =~= before + preset_menu(provider_type));
}

/// The base URL that an answer stands for: a preset where it is the number of one, the first
/// preset where it is empty, else the answer itself.
pub open spec fn chosen_url(provider_type: ProviderType, answer: Seq<char>) -> Seq<char> {
    let list = preset_list(provider_type);
    match numeral(answer) {
        Some(number) if 1 <= number <= list.len() => list[number - 1].1,
        _ => if answer.len() == 0 {
            list[0].1
        } else {
            answer
        },
    }
}

/// Reads the answer to the question for a base URL.
pub fn choose_url(provider_type: ProviderType, answer: String) -> (result: String)
    ensures
        result@ == chosen_url(provider_type, answer@),
{
    let list: Vec<(&'static str, &'static str)> = presets(provider_type);
    assert(pair_list(list@)[0] == preset_list(provider_type)[0]);
    match parse_usize(answer.as_str()) {
        Some(number) => {
            if 1 <= number && number <= list.len() {
                assert(pair_list(list@)[number - 1] == preset_list(provider_type)[number - 1]);
                list[number - 1].1.to_owned()
            } else {
                answer
            }
        },
        None => {
            if answer.as_str().is_empty() {
                list[0].1.to_owned()
            } else {
                answer
            }
        },
    }
}

/// The number that the menu shows for a preset picks that preset.
pub proof fn law_shown_number_picks_preset(provider_type: ProviderType, at: int)
    requires
        0 <= at < preset_list(provider_type).len(),
    ensures
        chosen_url(provider_type, decimal((at + 1) as nat)) == preset_list(provider_type)[at].1,
{
    law_decimal_reads_back((at + 1) as nat);
}

/// An address that is not empty and no number is taken as it is.
pub proof fn law_custom_url_is_kept(provider_type: ProviderType, url: Seq<char>)
    requires
        url.len() > 0,
        numeral(url) is None,
    ensures
        chosen_url(provider_type, url) == url,
{
}

/// The presets of each provider type are these, under these numbers, and an empty answer stands for
/// the first of them.
pub proof fn law_preset_addresses()
    ensures
        ({
            let anthropic = ProviderType::DirectAnthropic;
            &&& preset_list(anthropic).len() == 3
            &&& chosen_url(anthropic, seq!['1']) == "https://api.anthropic.com"@
            &&& chosen_url(anthropic, seq!['2']) == "https://api.minimax.io/anthropic"@
            &&& chosen_url(anthropic, seq!['3']) == "https://openrouter.ai/api"@
            &&& chosen_url(anthropic, Seq::empty()) == "https://api.anthropic.com"@
        }),
        ({
            let compatible = ProviderType::OpenAICompatible;
            &&& preset_list(compatible).len() == 6
            &&& chosen_url(compatible, seq!['1']) == "https://api.x.ai/v1"@
            &&& chosen_url(compatible, seq!['2']) == "https://api.openai.com/v1"@
            &&& chosen_url(compatible, seq!['3']) == "https://api.deepseek.com"@
            &&& chosen_url(compatible, seq!['4']) == "https://api.moonshot.cn/v1"@
            &&& chosen_url(compatible, seq!['5']) == "https://open.bigmodel.cn/api/paas/v4"@
            &&& chosen_url(compatible, seq!['6']) == "http://localhost:11434/v1"@
            &&& chosen_url(compatible, Seq::empty()) == "https://api.x.ai/v1"@
        }),
        ({
            let responses = ProviderType::OpenAIResponses;
            &&& preset_list(responses).len() == 1
            &&& chosen_url(responses, seq!['1']) == "https://chatgpt.com/backend-api/codex"@
            &&& chosen_url(responses, Seq::empty()) == "https://chatgpt.com/backend-api/codex"@
        }),
{
    law_digit_is_a_numeral('1');
    law_digit_is_a_numeral('2');
    law_digit_is_a_numeral('3');
    law_digit_is_a_numeral('4');
    law_digit_is_a_numeral('5');
    law_digit_is_a_numeral('6');
    law_empty_is_no_numeral();
}

/// Two answers that spell the same number stand for the same preset, where there is one of that
/// number. A number that no preset has is taken as it is.
pub proof fn law_number_picks_preset(provider_type: ProviderType, answer: Seq<char>, number: nat)
    requires
        numeral(answer) == Some(number),
    ensures
        1 <= number <= preset_list(provider_type).len() ==> chosen_url(provider_type, answer)
            == preset_list(provider_type)[number - 1].1,
        !(1 <= number <= preset_list(provider_type).len()) ==> chosen_url(provider_type, answer)
            == answer,
{
}

/// The menu shows each preset in a line of its own: its number, its label and its address.
pub proof fn law_menu_shows_each_preset(provider_type: ProviderType, at: int)
    requires
        0 <= at < preset_list(provider_type).len(),
    ensures
        ({
            let menu = preset_menu(provider_type);
            let preset = preset_list(provider_type)[at];
            &&& menu.len() == preset_list(provider_type).len() + 2
            &&& menu[0] == "\nBase URL presets:"@
            &&& menu.last() == "  or enter a custom URL"@
            &&& menu[at + 1] == "  "@ + decimal((at + 1) as nat) + ") "@ + preset.0 + " ("@
                + preset.1 + ")"@
        }),
{
}

/// The labels under which the menu shows the presets.
pub proof fn law_preset_labels(at: int)
    ensures
        0 <= at < 3 ==> preset_list(ProviderType::DirectAnthropic)[at].0 == seq![
            "Anthropic"@,
            "MiniMax"@,
            "OpenRouter"@,
        ][at],
        0 <= at < 6 ==> preset_list(ProviderType::OpenAICompatible)[at].0 == seq![
            "Grok/xAI"@,
            "OpenAI"@,
            "DeepSeek"@,
            "Kimi"@,
            "GLM"@,
            "Ollama"@,
        ][at],
        preset_list(ProviderType::OpenAIResponses)[0].0 == "ChatGPT/Codex"@,
{
}

} // verus!
