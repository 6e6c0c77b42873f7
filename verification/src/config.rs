//! Model selection and the client configuration.

use vstd::prelude::*;
use crate::text::str_eq;

verus! {

/// The chat models the endpoint recognises.
#[derive(Clone, Copy, PartialEq, Eq, Structural, Debug)]
pub enum ChatModel {
    Gpt35Turbo,
    Gpt4o,
    Gpt4omini,
}

/// The identifier a model carries on the wire.
pub open spec fn model_name(m: ChatModel) -> Seq<char> {
    match m {
        ChatModel::Gpt35Turbo => "gpt-3.5-turbo"@,
        ChatModel::Gpt4o => "gpt-4o"@,
        ChatModel::Gpt4omini => "gpt-4o-mini"@,
    }
}

/// The model a wire identifier names, if any.
pub open spec fn model_of_name(name: Seq<char>) -> Option<ChatModel> {
    if name == "gpt-3.5-turbo"@ {
        Some(ChatModel::Gpt35Turbo)
    } else if name == "gpt-4o"@ {
        Some(ChatModel::Gpt4o)
    } else if name == "gpt-4o-mini"@ {
        Some(ChatModel::Gpt4omini)
    } else {
        None
    }
}

impl ChatModel {
    /// The identifier sent on the wire for this model.
    pub fn as_str(&self) -> (s: &'static str)
        ensures
            s@ == model_name(*self),
    {
        match self {
            ChatModel::Gpt35Turbo => "gpt-3.5-turbo",
            ChatModel::Gpt4o => "gpt-4o",
            ChatModel::Gpt4omini => "gpt-4o-mini",
        }
    }

    /// The model a wire identifier names, if any: the inverse of
    /// `as_str`.
    pub fn from_name(name: &str) -> (r: Option<ChatModel>)
        ensures
            r == model_of_name(name@),
    {
        if str_eq(name, "gpt-3.5-turbo") {
            Some(ChatModel::Gpt35Turbo)
        } else if str_eq(name, "gpt-4o") {
            Some(ChatModel::Gpt4o)
        } else if str_eq(name, "gpt-4o-mini") {
            Some(ChatModel::Gpt4omini)
        } else {
            None
        }
    }

    /// The models on offer, each with a short description, in the
    /// order they are shown.
    pub fn list_available_models() -> (r: Vec<(&'static str, &'static str)>)
        ensures
            r@.len() == 3,
            r@[0].0@ == model_name(ChatModel::Gpt35Turbo),
            r@[0].1@ == "GPT-3.5 Turbo - Fastest and most cost-effective"@,
            r@[1].0@ == model_name(ChatModel::Gpt4o),
            r@[1].1@ == "GPT-4o - More capable but slower"@,
            r@[2].0@ == model_name(ChatModel::Gpt4omini),
            r@[2].1@ == "GPT-4 Turbo - Latest model with improved capabilities"@,
    {
        let mut v: Vec<(&'static str, &'static str)> = Vec::new();
        v.push(("gpt-3.5-turbo", "GPT-3.5 Turbo - Fastest and most cost-effective"));
        v.push(("gpt-4o", "GPT-4o - More capable but slower"));
        v.push(("gpt-4o-mini", "GPT-4 Turbo - Latest model with improved capabilities"));
        v
    }
}

impl Default for ChatModel {
    /// The model a fresh configuration selects.
    fn default() -> (r: Self)
        ensures
            r == ChatModel::Gpt35Turbo,
    {
        ChatModel::Gpt35Turbo
    }
}

/// Naming a model always round-trips through its wire identifier.
pub proof fn lemma_model_name_round_trip(m: ChatModel)
    ensures
        model_of_name(model_name(m)) == Some(m),
{
    reveal_strlit("gpt-3.5-turbo");
    reveal_strlit("gpt-4o");
    reveal_strlit("gpt-4o-mini");
    assert("gpt-3.5-turbo"@.len() == 13);
    assert("gpt-4o"@.len() == 6);
    assert("gpt-4o-mini"@.len() == 11);
}

/// The client configuration: an optional bearer credential and the
/// selected model.  Loading it from and saving it to disk is the
/// embedding application's concern.
#[derive(Debug)]
pub struct ApiConfig {
    pub api_key: Option<String>,
    pub model: ChatModel,
}

impl ApiConfig {
    /// A configuration from its two parts.
    pub fn new(api_key: Option<String>, model: ChatModel) -> (c: ApiConfig)
        ensures
            c.api_key == api_key,
            c.model == model,
    {
        ApiConfig { api_key, model }
    }

    /// Whether a credential is present.
    pub fn has_api_key(&self) -> (b: bool)
        ensures
            b == (self.api_key is Some),
    {
        self.api_key.is_some()
    }
}

} // verus!
