//! The configuration: one model configuration per vendor and a default
//! vendor. Reading and writing the TOML file is left to the program.
use crate::llm::PromptModel;
use vstd::prelude::*;

verus! {

/// The model configuration of one vendor.
#[derive(Debug)]
pub struct ModelConfig {
    pub api_key: Option<String>,
    pub model: String,
    pub base_url: String,
}

/// The settings that apply to every vendor.
#[derive(Debug, Clone, Copy)]
pub struct DefaultConfig {
    pub default_service: PromptModel,
    pub timeout: u64,
}

/// The whole configuration, without the sampling parameters (which hold
/// floating-point numbers and stay with the program).
#[derive(Debug)]
pub struct GlobalConfig {
    pub default: DefaultConfig,
    pub openai: Option<ModelConfig>,
    pub deepseek: Option<ModelConfig>,
    pub ollama: Option<ModelConfig>,
    pub minimax: Option<ModelConfig>,
}

/// The endpoint stored for a vendor when it is configured. For OpenAI it
/// is empty: the client library's own default endpoint applies.
pub open spec fn default_base_url_of(v: PromptModel) -> Seq<char> {
    match v {
        PromptModel::OpenAI => ""@,
        PromptModel::DeepSeek => "https://api.deepseek.com"@,
        PromptModel::Ollama => "http://localhost:11434"@,
        PromptModel::MiniMax => "https://api.minimaxi.com/anthropic"@,
    }
}

/// The endpoint stored for a vendor when it is configured (empty for
/// OpenAI).
pub fn default_base_url(vendor: PromptModel) -> (r: &'static str)
    ensures
        r@ == default_base_url_of(vendor),
{
    match vendor {
        PromptModel::OpenAI => "",
        PromptModel::DeepSeek => "https://api.deepseek.com",
        PromptModel::Ollama => "http://localhost:11434",
        PromptModel::MiniMax => "https://api.minimaxi.com/anthropic",
    }
}

impl GlobalConfig {
    /// The configuration stored for vendor `v`.
    pub open spec fn slot(self, v: PromptModel) -> Option<ModelConfig> {
        match v {
            PromptModel::OpenAI => self.openai,
            PromptModel::DeepSeek => self.deepseek,
            PromptModel::Ollama => self.ollama,
            PromptModel::MiniMax => self.minimax,
        }
    }

    /// The configuration with the slot of `v` set to `cfg`.
    pub open spec fn with_slot(self, v: PromptModel, cfg: ModelConfig) -> GlobalConfig {
        match v {
            PromptModel::OpenAI => GlobalConfig { openai: Some(cfg), ..self },
            PromptModel::DeepSeek => GlobalConfig { deepseek: Some(cfg), ..self },
            PromptModel::Ollama => GlobalConfig { ollama: Some(cfg), ..self },
            PromptModel::MiniMax => GlobalConfig { minimax: Some(cfg), ..self },
        }
    }

    /// The vendor a request goes to: the one asked for, else the default.
    pub open spec fn chosen_vendor(self, vendor: Option<PromptModel>) -> PromptModel {
        match vendor {
            Some(v) => v,
            None => self.default.default_service,
        }
    }

    /// The configuration and vendor selected for a request.
    pub open spec fn selected(self, vendor: Option<PromptModel>) -> Option<(ModelConfig, PromptModel)> {
        let v = self.chosen_vendor(vendor);
        match self.slot(v) {
            Some(c) => Some((c, v)),
            None => None,
        }
    }

    /// A configuration with DeepSeek as default vendor, a timeout of 30
    /// seconds and no vendor configured.
    pub fn new() -> (r: Self)
        ensures
            r.default.default_service == PromptModel::DeepSeek,
            r.default.timeout == 30,
            r.openai is None,
            r.deepseek is None,
            r.ollama is None,
            r.minimax is None,
    {
        GlobalConfig {
            default: DefaultConfig { default_service: PromptModel::DeepSeek, timeout: 30 },
            openai: None,
            deepseek: None,
            ollama: None,
            minimax: None,
        }
    }

    /// The configuration of the vendor asked for (or of the default
    /// vendor), together with that vendor; `None` when it is not configured.
    pub fn model(&self, vendor: Option<PromptModel>) -> (r: Option<(&ModelConfig, PromptModel)>)
        ensures
            match r {
                Some((c, v)) => self.selected(vendor) == Some((*c, v)),
                None => self.selected(vendor) is None,
            },
    {
        let v = match vendor {
            Some(v) => v,
            None => self.default.default_service,
        };
        match v {
            PromptModel::OpenAI => match &self.openai {
                Some(c) => Some((c, PromptModel::OpenAI)),
                None => None,
            },
            PromptModel::DeepSeek => match &self.deepseek {
                Some(c) => Some((c, PromptModel::DeepSeek)),
                None => None,
            },
            PromptModel::Ollama => match &self.ollama {
                Some(c) => Some((c, PromptModel::Ollama)),
                None => None,
            },
            PromptModel::MiniMax => match &self.minimax {
                Some(c) => Some((c, PromptModel::MiniMax)),
                None => None,
            },
        }
    }

    /// Stores `cfg` as the configuration of `vendor`.
    pub fn set_model_config(&mut self, vendor: PromptModel, cfg: ModelConfig)
        ensures
            *final(self) == old(self).with_slot(vendor, cfg),
    {
        match vendor {
            PromptModel::OpenAI => {
                self.openai = Some(cfg);
            },
            PromptModel::DeepSeek => {
                self.deepseek = Some(cfg);
            },
            PromptModel::Ollama => {
                self.ollama = Some(cfg);
            },
            PromptModel::MiniMax => {
                self.minimax = Some(cfg);
            },
        }
    }
}

impl Default for GlobalConfig {
    fn default() -> (r: Self)
        ensures
            r.default.default_service == PromptModel::DeepSeek,
            r.default.timeout == 30,
            r.openai is None,
            r.deepseek is None,
            r.ollama is None,
            r.minimax is None,
    {
        GlobalConfig::new()
    }
}

/// The configuration that `gitbuddy config` writes for a vendor: no key
/// when the key given is empty, and the vendor's default endpoint.
pub open spec fn vendor_config_is(c: ModelConfig, vendor: PromptModel, api_key: Seq<char>, model: Seq<char>) -> bool {
    &&& (if api_key.len() == 0 {
        c.api_key is None
    } else {
        c.api_key matches Some(k) && k@ == api_key
    })
    &&& c.model@ == model
    &&& c.base_url@ == default_base_url_of(vendor)
}

/// Builds the configuration that `gitbuddy config` stores for a vendor.
pub fn vendor_model_config(vendor: PromptModel, api_key: &str, model: &str) -> (r: ModelConfig)
    ensures
        vendor_config_is(r, vendor, api_key@, model@),
{
    let key = if api_key.is_empty() {
        None
    } else {
        Some(api_key.to_string())
    };
    ModelConfig { api_key: key, model: model.to_string(), base_url: default_base_url(vendor).to_string() }
}

/// Records the key and model given for a vendor in the configuration.
pub fn configure_vendor(config: &mut GlobalConfig, vendor: PromptModel, api_key: &str, model: &str)
    ensures
        exists|c: ModelConfig|
            vendor_config_is(c, vendor, api_key@, model@) && *final(config) == old(config).with_slot(
                vendor,
                c,
            ),
{
    let c = vendor_model_config(vendor, api_key, model);
    config.set_model_config(vendor, c);
}

/// A vendor's configuration, once set, is what a request to that vendor
/// uses.
pub proof fn law_set_then_selected(cfg: GlobalConfig, v: PromptModel, c: ModelConfig)
    ensures
        cfg.with_slot(v, c).selected(Some(v)) == Some((c, v)),
{
}

/// Setting one vendor's configuration leaves what the other vendors select
/// unchanged.
pub proof fn law_set_leaves_others(cfg: GlobalConfig, v: PromptModel, w: PromptModel, c: ModelConfig)
    requires
        v != w,
    ensures
        cfg.with_slot(v, c).selected(Some(w)) == cfg.selected(Some(w)),
{
}

/// A request that names no vendor goes to the default vendor.
pub proof fn law_default_vendor_selected(cfg: GlobalConfig)
    ensures
        cfg.selected(None) == cfg.selected(Some(cfg.default.default_service)),
{
}

} // verus!
