//! The models that a ChatGPT subscription gives access to.

use crate::responses::ReasoningEffort;
use crate::text;
use vstd::prelude::*;

verus! {

/// A model that the subscription's backend serves. It serves only some of those that the
/// ordinary service has.
#[derive(Clone, Copy, Debug, PartialEq, Eq, Structural)]
pub enum ChatGptModel {
    Gpt5,
    Gpt5Codex,
    Gpt5CodexMini,
    Gpt51,
    Gpt51Codex,
    Gpt51CodexMax,
    Gpt51CodexMini,
    Gpt52,
    Gpt52Codex,
    Gpt53Codex,
    Gpt53CodexSpark,
    Gpt54,
    Gpt54Mini,
}

impl ChatGptModel {
    /// Every model, the newest first.
    pub open spec fn in_order() -> Seq<ChatGptModel> {
        seq![
            ChatGptModel::Gpt54,
            ChatGptModel::Gpt54Mini,
            ChatGptModel::Gpt53Codex,
            ChatGptModel::Gpt53CodexSpark,
            ChatGptModel::Gpt52Codex,
            ChatGptModel::Gpt52,
            ChatGptModel::Gpt51CodexMax,
            ChatGptModel::Gpt51Codex,
            ChatGptModel::Gpt51CodexMini,
            ChatGptModel::Gpt51,
            ChatGptModel::Gpt5Codex,
            ChatGptModel::Gpt5CodexMini,
            ChatGptModel::Gpt5,
        ]
    }

    /// Every model, the newest first.
    pub fn all() -> (models: Vec<Self>)
        ensures
            models@ == ChatGptModel::in_order(),
    {
        let models = vec![
            ChatGptModel::Gpt54,
            ChatGptModel::Gpt54Mini,
            ChatGptModel::Gpt53Codex,
            ChatGptModel::Gpt53CodexSpark,
            ChatGptModel::Gpt52Codex,
            ChatGptModel::Gpt52,
            ChatGptModel::Gpt51CodexMax,
            ChatGptModel::Gpt51Codex,
            ChatGptModel::Gpt51CodexMini,
            ChatGptModel::Gpt51,
            ChatGptModel::Gpt5Codex,
            ChatGptModel::Gpt5CodexMini,
            ChatGptModel::Gpt5,
        ];
        assert(models@ =~= ChatGptModel::in_order());
        models
    }

    /// The name under which the backend knows the model.
    pub open spec fn id_text(self) -> Seq<char> {
        match self {
            ChatGptModel::Gpt5 => "gpt-5"@,
            ChatGptModel::Gpt5Codex => "gpt-5-codex"@,
            ChatGptModel::Gpt5CodexMini => "gpt-5-codex-mini"@,
            ChatGptModel::Gpt51 => "gpt-5.1"@,
            ChatGptModel::Gpt51Codex => "gpt-5.1-codex"@,
            ChatGptModel::Gpt51CodexMax => "gpt-5.1-codex-max"@,
            ChatGptModel::Gpt51CodexMini => "gpt-5.1-codex-mini"@,
            ChatGptModel::Gpt52 => "gpt-5.2"@,
            ChatGptModel::Gpt52Codex => "gpt-5.2-codex"@,
            ChatGptModel::Gpt53Codex => "gpt-5.3-codex"@,
            ChatGptModel::Gpt53CodexSpark => "gpt-5.3-codex-spark"@,
            ChatGptModel::Gpt54 => "gpt-5.4"@,
            ChatGptModel::Gpt54Mini => "gpt-5.4-mini"@,
        }
    }

    /// The name under which the backend knows the model.
    pub fn id(&self) -> (id: &'static str)
        ensures
            id@ == self.id_text(),
    {
        match self {
            ChatGptModel::Gpt5 => "gpt-5",
            ChatGptModel::Gpt5Codex => "gpt-5-codex",
            ChatGptModel::Gpt5CodexMini => "gpt-5-codex-mini",
            ChatGptModel::Gpt51 => "gpt-5.1",
            ChatGptModel::Gpt51Codex => "gpt-5.1-codex",
            ChatGptModel::Gpt51CodexMax => "gpt-5.1-codex-max",
            ChatGptModel::Gpt51CodexMini => "gpt-5.1-codex-mini",
            ChatGptModel::Gpt52 => "gpt-5.2",
            ChatGptModel::Gpt52Codex => "gpt-5.2-codex",
            ChatGptModel::Gpt53Codex => "gpt-5.3-codex",
            ChatGptModel::Gpt53CodexSpark => "gpt-5.3-codex-spark",
            ChatGptModel::Gpt54 => "gpt-5.4",
            ChatGptModel::Gpt54Mini => "gpt-5.4-mini",
        }
    }

    /// The name that the user sees.
    pub open spec fn display_text(self) -> Seq<char> {
        match self {
            ChatGptModel::Gpt5 => "GPT-5"@,
            ChatGptModel::Gpt5Codex => "GPT-5 Codex"@,
            ChatGptModel::Gpt5CodexMini => "GPT-5 Codex Mini"@,
            ChatGptModel::Gpt51 => "GPT-5.1"@,
            ChatGptModel::Gpt51Codex => "GPT-5.1 Codex"@,
            ChatGptModel::Gpt51CodexMax => "GPT-5.1 Codex Max"@,
            ChatGptModel::Gpt51CodexMini => "GPT-5.1 Codex Mini"@,
            ChatGptModel::Gpt52 => "GPT-5.2"@,
            ChatGptModel::Gpt52Codex => "GPT-5.2 Codex"@,
            ChatGptModel::Gpt53Codex => "GPT-5.3 Codex"@,
            ChatGptModel::Gpt53CodexSpark => "GPT-5.3 Codex Spark"@,
            ChatGptModel::Gpt54 => "GPT-5.4"@,
            ChatGptModel::Gpt54Mini => "GPT-5.4 Mini"@,
        }
    }

    /// The name that the user sees.
    pub fn display_name(&self) -> (name: &'static str)
        ensures
            name@ == self.display_text(),
    {
        match self {
            ChatGptModel::Gpt5 => "GPT-5",
            ChatGptModel::Gpt5Codex => "GPT-5 Codex",
            ChatGptModel::Gpt5CodexMini => "GPT-5 Codex Mini",
            ChatGptModel::Gpt51 => "GPT-5.1",
            ChatGptModel::Gpt51Codex => "GPT-5.1 Codex",
            ChatGptModel::Gpt51CodexMax => "GPT-5.1 Codex Max",
            ChatGptModel::Gpt51CodexMini => "GPT-5.1 Codex Mini",
            ChatGptModel::Gpt52 => "GPT-5.2",
            ChatGptModel::Gpt52Codex => "GPT-5.2 Codex",
            ChatGptModel::Gpt53Codex => "GPT-5.3 Codex",
            ChatGptModel::Gpt53CodexSpark => "GPT-5.3 Codex Spark",
            ChatGptModel::Gpt54 => "GPT-5.4",
            ChatGptModel::Gpt54Mini => "GPT-5.4 Mini",
        }
    }

    /// How many tokens a conversation may have.
    pub fn max_token_count(&self) -> (count: u64)
        ensures
            count == (match *self {
                ChatGptModel::Gpt53CodexSpark => 128_000u64,
                ChatGptModel::Gpt54 => 1_050_000u64,
                ChatGptModel::Gpt54Mini => 1_050_000u64,
                _ => 400_000u64,
            }),
    {
        match self {
            ChatGptModel::Gpt53CodexSpark => 128_000,
            ChatGptModel::Gpt54 | ChatGptModel::Gpt54Mini => 1_050_000,
            _ => 400_000,
        }
    }

    /// How many tokens an answer may have.
    pub fn max_output_tokens(&self) -> (count: Option<u64>)
        ensures
            count == (match *self {
                ChatGptModel::Gpt53CodexSpark => Some(8_192u64),
                _ => Some(128_000u64),
            }),
    {
        match self {
            ChatGptModel::Gpt53CodexSpark => Some(8_192),
            _ => Some(128_000),
        }
    }

    /// Whether the model can look at images.
    pub fn supports_images(&self) -> (supports: bool)
        ensures
            supports == !(*self is Gpt53CodexSpark),
    {
        match self {
            ChatGptModel::Gpt53CodexSpark => false,
            _ => true,
        }
    }

    /// How hard the model is asked to think, where it is asked at all.
    pub open spec fn effort(self) -> Option<ReasoningEffort> {
        match self {
            ChatGptModel::Gpt54 => None,
            ChatGptModel::Gpt54Mini => None,
            _ => Some(ReasoningEffort::Medium),
        }
    }

    /// How hard the model is asked to think, where it is asked at all.
    pub fn reasoning_effort(&self) -> (effort: Option<ReasoningEffort>)
        ensures
            effort == self.effort(),
    {
        match self {
            ChatGptModel::Gpt54 | ChatGptModel::Gpt54Mini => None,
            _ => Some(ReasoningEffort::Medium),
        }
    }

    /// Whether the model shows what it thinks.
    pub fn supports_thinking(&self) -> (supports: bool)
        ensures
            supports == !(*self is Gpt54 || *self is Gpt54Mini),
    {
        self.reasoning_effort().is_some()
    }

    /// The name under which the use of the model is counted.
    pub fn telemetry_id(&self) -> (id: String)
        ensures
            id@ == "openai-subscribed/"@ + self.id_text(),
    {
        text::joined("openai-subscribed/", self.id())
    }
}

/// The model that is used where none was chosen.
pub fn default_model() -> (model: ChatGptModel)
    ensures
        model is Gpt54,
{
    ChatGptModel::Gpt54
}

/// The model that is used where speed matters most.
pub fn default_fast_model() -> (model: ChatGptModel)
    ensures
        model is Gpt54Mini,
{
    ChatGptModel::Gpt54Mini
}

/// No model is missing from the list of all models, and none is in it twice.
pub proof fn all_models_are_listed_once(model: ChatGptModel)
    ensures
        ChatGptModel::in_order().contains(model),
        ChatGptModel::in_order().no_duplicates(),
        ChatGptModel::in_order().len() == 13,
{
    let all = ChatGptModel::in_order();
    assert(all[0] is Gpt54);
    assert(all[1] is Gpt54Mini);
    assert(all[2] is Gpt53Codex);
    assert(all[3] is Gpt53CodexSpark);
    assert(all[4] is Gpt52Codex);
    assert(all[5] is Gpt52);
    assert(all[6] is Gpt51CodexMax);
    assert(all[7] is Gpt51Codex);
    assert(all[8] is Gpt51CodexMini);
    assert(all[9] is Gpt51);
    assert(all[10] is Gpt5Codex);
    assert(all[11] is Gpt5CodexMini);
    assert(all[12] is Gpt5);
}

/// Two models never go by the same name at the backend.
pub proof fn ids_are_distinct(first: ChatGptModel, second: ChatGptModel)
    requires
        first != second,
    ensures
        first.id_text() != second.id_text(),
{
    reveal_strlit("gpt-5");
    reveal_strlit("gpt-5-codex");
    reveal_strlit("gpt-5-codex-mini");
    reveal_strlit("gpt-5.1");
    reveal_strlit("gpt-5.1-codex");
    reveal_strlit("gpt-5.1-codex-max");
    reveal_strlit("gpt-5.1-codex-mini");
    reveal_strlit("gpt-5.2");
    reveal_strlit("gpt-5.2-codex");
    reveal_strlit("gpt-5.3-codex");
    reveal_strlit("gpt-5.3-codex-spark");
    reveal_strlit("gpt-5.4");
    reveal_strlit("gpt-5.4-mini");
    let a = first.id_text();
    let b = second.id_text();
    if a == b {
        assert(a.len() == b.len());
        assert(a[4] == b[4]);
        if a.len() > 6 {
            assert(a[6] == b[6]);
            if a.len() > 14 {
                assert(a[14] == b[14]);
                assert(a[15] == b[15]);
            }
        }
    }
}

/// The newest models are not told how hard to think, and all others are told the same.
pub proof fn newest_models_choose_their_effort(model: ChatGptModel)
    ensures
        model.effort() is None <==> model is Gpt54 || model is Gpt54Mini,
        model.effort() matches Some(effort) ==> effort is Medium,
{
}

/// Whether one character is the small letter of the other, or a hyphen where that is a space, or
/// both are the same.
pub open spec fn is_lowered(small: char, shown: char) -> bool {
    ||| small == shown
    ||| 'A' <= shown <= 'Z' && small as int == shown as int + 32
    ||| shown == ' ' && small == '-'
}

/// The name that the user sees is the one under which the backend knows the model, in other
/// letters and with spaces.
pub proof fn shown_name_is_the_known_one(model: ChatGptModel)
    ensures
        model.display_text().len() == model.id_text().len(),
        forall|i: int|
            0 <= i < model.id_text().len() ==> is_lowered(
                #[trigger] model.id_text()[i],
                model.display_text()[i],
            ),
{
    match model {
        ChatGptModel::Gpt5 => {
            reveal_strlit("gpt-5");
            reveal_strlit("GPT-5");
        },
        ChatGptModel::Gpt5Codex => {
            reveal_strlit("gpt-5-codex");
            reveal_strlit("GPT-5 Codex");
        },
        ChatGptModel::Gpt5CodexMini => {
            reveal_strlit("gpt-5-codex-mini");
            reveal_strlit("GPT-5 Codex Mini");
        },
        ChatGptModel::Gpt51 => {
            reveal_strlit("gpt-5.1");
            reveal_strlit("GPT-5.1");
        },
        ChatGptModel::Gpt51Codex => {
            reveal_strlit("gpt-5.1-codex");
            reveal_strlit("GPT-5.1 Codex");
        },
        ChatGptModel::Gpt51CodexMax => {
            reveal_strlit("gpt-5.1-codex-max");
            reveal_strlit("GPT-5.1 Codex Max");
        },
        ChatGptModel::Gpt51CodexMini => {
            reveal_strlit("gpt-5.1-codex-mini");
            reveal_strlit("GPT-5.1 Codex Mini");
        },
        ChatGptModel::Gpt52 => {
            reveal_strlit("gpt-5.2");
            reveal_strlit("GPT-5.2");
        },
        ChatGptModel::Gpt52Codex => {
            reveal_strlit("gpt-5.2-codex");
            reveal_strlit("GPT-5.2 Codex");
        },
        ChatGptModel::Gpt53Codex => {
            reveal_strlit("gpt-5.3-codex");
            reveal_strlit("GPT-5.3 Codex");
        },
        ChatGptModel::Gpt53CodexSpark => {
            reveal_strlit("gpt-5.3-codex-spark");
            reveal_strlit("GPT-5.3 Codex Spark");
        },
        ChatGptModel::Gpt54 => {
            reveal_strlit("gpt-5.4");
            reveal_strlit("GPT-5.4");
        },
        ChatGptModel::Gpt54Mini => {
            reveal_strlit("gpt-5.4-mini");
            reveal_strlit("GPT-5.4 Mini");
        },
    }
}

} // verus!
