//! The models of the account in use, and the default of new threads.

use crate::account_pool;
use crate::account_pool::AccountSelection;
use crate::lists;
use crate::server::ManagedAccountAction;
use crate::server::ManagedAccountParams;
use crate::text;
use vstd::prelude::*;

verus! {

/// A model that can be picked.
#[derive(Debug, PartialEq, Eq)]
pub struct ModelPreset {
    pub model: String,
    pub is_default: bool,
}

/// A `ModelPreset` as a mathematical value.
pub struct PresetModel {
    pub model: Seq<char>,
    pub is_default: bool,
}

impl View for ModelPreset {
    type V = PresetModel;

    open spec fn view(&self) -> PresetModel {
        PresetModel { model: self.model@, is_default: self.is_default }
    }
}

/// The connection to a server, as far as models go.
#[derive(Debug, PartialEq, Eq)]
pub struct AppServerSession {
    pub managed_accounts_active: bool,
    pub account_selection: Option<AccountSelection>,
    pub account_thread_id: Option<String>,
    pub default_model: Option<String>,
    pub available_models: Vec<ModelPreset>,
}

/// How the models are asked for.
#[derive(Debug, PartialEq, Eq)]
pub enum ModelsRequest {
    /// Of the managed account that a selection or thread stands for.
    Managed(ManagedAccountParams),
    /// Of the legacy login, hidden ones included.
    Listed,
}

/// The default among models: the first that is marked, else the first.
pub open spec fn default_of(models: Seq<PresetModel>) -> Option<Seq<char>> {
    match lists::first(Seq::new(models.len(), |i: int| models[i].is_default)) {
        Some(i) => Some(models[i].model),
        None => if models.len() > 0 {
            Some(models[0].model)
        } else {
            None
        },
    }
}

/// The default among models.
fn find_default(models: &Vec<ModelPreset>) -> (model: Option<String>)
    ensures
        text::opt_view(model) == default_of(text::views(models@)),
{
    let ghost presets = text::views(models@);
    let ghost flags = Seq::new(presets.len(), |i: int| presets[i].is_default);
    let mut i: usize = 0;
    while i < models.len()
        invariant
            i <= models.len(),
            presets == text::views(models@),
            flags == Seq::new(presets.len(), |i: int| presets[i].is_default),
            forall|j: int| 0 <= j < i ==> !#[trigger] flags[j],
        decreases models.len() - i,
    {
        assert(presets[i as int] == models@[i as int]@);
        if models[i].is_default {
            proof {
                lists::lemma_first_is(flags, i as int);
            }
            return Some(models[i].model.clone());
        }
        i = i + 1;
    }
    proof {
        lists::lemma_first_none(flags);
    }
    if models.len() > 0 {
        assert(presets[0] == models@[0]@);
        Some(models[0].model.clone())
    } else {
        None
    }
}

impl AppServerSession {
    /// Takes the models that can be picked. New threads start with the default among them; without
    /// models the default stays.
    pub fn set_available_models(&mut self, models: Vec<ModelPreset>)
        ensures
            text::views(final(self).available_models@) == text::views(models@),
            text::opt_view(final(self).default_model) == (match default_of(text::views(models@)) {
                Some(model) => Some(model),
                None => text::opt_view(old(self).default_model),
            }),
            final(self).managed_accounts_active == old(self).managed_accounts_active,
            final(self).account_selection == old(self).account_selection,
            final(self).account_thread_id == old(self).account_thread_id,
    {
        if let Some(model) = find_default(&models) {
            self.default_model = Some(model);
        }
        self.available_models = models;
    }

    /// How the models of the account in use are asked for.
    pub fn request_models(&self) -> (request: ModelsRequest)
        ensures
            match request {
                ModelsRequest::Managed(params) => {
                    &&& self.managed_accounts_active
                    &&& params.action == ManagedAccountAction::Models
                    &&& text::opt_view(params.account_selection) == text::opt_view(
                        self.account_selection,
                    )
                    &&& text::opt_view(params.thread_id) == text::opt_view(self.account_thread_id)
                    &&& params.alias is None
                    &&& params.device_auth is None
                    &&& params.model is None
                    &&& params.cursor is None
                    &&& params.limit is None
                },
                ModelsRequest::Listed => !self.managed_accounts_active,
            },
    {
        if self.managed_accounts_active {
            ModelsRequest::Managed(
                ManagedAccountParams {
                    action: ManagedAccountAction::Models,
                    account_selection: account_pool::clone_selection(&self.account_selection),
                    thread_id: text::clone_opt(&self.account_thread_id),
                    alias: None,
                    device_auth: None,
                    model: None,
                    cursor: None,
                    limit: None,
                },
            )
        } else {
            ModelsRequest::Listed
        }
    }
}

/// The models of a managed account, if its server gave them.
pub fn managed_models(models: Option<Vec<String>>) -> (listed: Result<Vec<String>, &'static str>)
    ensures
        match models {
            Some(models) => listed == Ok::<Vec<String>, &'static str>(models),
            None => listed is Err && listed->Err_0@
                == "Named account model catalog is unavailable"@,
        },
{
    match models {
        Some(models) => Ok(models),
        None => Err("Named account model catalog is unavailable"),
    }
}

/// The default model is the first that is marked as such; where none is, it is the first; without
/// models there is none.
pub proof fn law_default_model(models: Seq<PresetModel>, i: int)
    ensures
        models.len() == 0 <==> default_of(models) is None,
        0 <= i < models.len() && models[i].is_default && (forall|j: int|
            0 <= j < i ==> !(#[trigger] models[j]).is_default) ==> default_of(models) == Some(
            models[i].model,
        ),
        models.len() > 0 && (forall|j: int|
            0 <= j < models.len() ==> !(#[trigger] models[j]).is_default) ==> default_of(models)
            == Some(models[0].model),
{
    let flags = Seq::new(models.len(), |j: int| models[j].is_default);
    lists::lemma_first(flags);
    if 0 <= i < models.len() && models[i].is_default && (forall|j: int|
        0 <= j < i ==> !(#[trigger] models[j]).is_default) {
        lists::lemma_first_is(flags, i);
    }
    if forall|j: int| 0 <= j < models.len() ==> !(#[trigger] models[j]).is_default {
        lists::lemma_first_none(flags);
    }
}

/// A `ModelPreset` is seen with every field as it is.
pub proof fn law_model_preset_is_seen_whole(value: ModelPreset)
    ensures
        value@.model == value.model@,
        value@.is_default == value.is_default,
{
}

} // verus!
