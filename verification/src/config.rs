//! Provider configuration: which chat-completion provider is selected and
//! what it needs. Reading and writing the settings file, and the
//! environment, happen outside the library; this module holds the rules
//! that combine those sources and judge whether a provider is usable.

use vstd::prelude::*;
use crate::params::opt_str_view;
use crate::strutil::{contains_sub, spec_contains, str_eq};

verus! {

/// Provider settings for the query agent.
#[derive(Debug, Clone)]
pub struct LlmConfig {
    pub provider: String,
    pub groq_api_key: Option<String>,
    pub groq_model: String,
    pub openai_api_key: Option<String>,
    pub openai_model: String,
    pub ollama_base_url: String,
    pub ollama_model: String,
}

/// The mathematical value of an `LlmConfig`.
#[verifier::ext_equal]
pub struct ConfigModel {
    pub provider: Seq<char>,
    pub groq_api_key: Option<Seq<char>>,
    pub groq_model: Seq<char>,
    pub openai_api_key: Option<Seq<char>>,
    pub openai_model: Seq<char>,
    pub ollama_base_url: Seq<char>,
    pub ollama_model: Seq<char>,
}

impl View for LlmConfig {
    type V = ConfigModel;

    open spec fn view(&self) -> ConfigModel {
        ConfigModel {
            provider: self.provider@,
            groq_api_key: opt_str_view(self.groq_api_key),
            groq_model: self.groq_model@,
            openai_api_key: opt_str_view(self.openai_api_key),
            openai_model: self.openai_model@,
            ollama_base_url: self.ollama_base_url@,
            ollama_model: self.ollama_model@,
        }
    }
}

impl Default for LlmConfig {
    /// Every field empty.
    fn default() -> (r: Self)
        ensures
            r@ == (ConfigModel {
                provider: Seq::empty(),
                groq_api_key: None,
                groq_model: Seq::empty(),
                openai_api_key: None,
                openai_model: Seq::empty(),
                ollama_base_url: Seq::empty(),
                ollama_model: Seq::empty(),
            }),
    {
        let r = LlmConfig {
            provider: String::new(),
            groq_api_key: None,
            groq_model: String::new(),
            openai_api_key: None,
            openai_model: String::new(),
            ollama_base_url: String::new(),
            ollama_model: String::new(),
        };
        proof {
            assert(r@ =~= (ConfigModel {
                provider: Seq::empty(),
                groq_api_key: None,
                groq_model: Seq::empty(),
                openai_api_key: None,
                openai_model: Seq::empty(),
                ollama_base_url: Seq::empty(),
                ollama_model: Seq::empty(),
            }));
        }
        r
    }
}

/// Which key wins: a non-empty key from the settings file, else one from
/// the environment.
pub open spec fn pick_key(file: Option<Seq<char>>, env: Option<Seq<char>>) -> Option<Seq<char>> {
    match file {
        Some(k) => if k.len() > 0 {
            Some(k)
        } else {
            env
        },
        None => env,
    }
}

/// A string setting with its default.
pub open spec fn pick_or(file: Option<Seq<char>>, dflt: Seq<char>) -> Seq<char> {
    match file {
        Some(v) => v,
        None => dflt,
    }
}

fn take_key(file: Option<String>, env: Option<String>) -> (r: Option<String>)
    ensures
        opt_str_view(r) == pick_key(opt_str_view(file), opt_str_view(env)),
{
    match file {
        Some(k) => if k.as_str().unicode_len() > 0 {
            Some(k)
        } else {
            env
        },
        None => env,
    }
}

fn take_or(file: Option<String>, dflt: &str) -> (r: String)
    ensures
        r@ == pick_or(opt_str_view(file), dflt@),
{
    match file {
        Some(v) => v,
        None => dflt.to_owned(),
    }
}

impl LlmConfig {
    /// Combines what the settings file and the environment supplied into
    /// one configuration: the provider defaults to groq, an empty file key
    /// counts as absent, the environment key is used only when the file
    /// gave none, and the local-model base address has a fixed default.
    pub fn from_sources(
        file_provider: Option<String>,
        file_groq_key: Option<String>,
        file_groq_model: Option<String>,
        file_openai_key: Option<String>,
        file_openai_model: Option<String>,
        file_ollama_url: Option<String>,
        file_ollama_model: Option<String>,
        env_groq_key: Option<String>,
        env_openai_key: Option<String>,
    ) -> (r: Self)
        ensures
            r@ == (ConfigModel {
                provider: pick_or(opt_str_view(file_provider), "groq"@),
                groq_api_key: pick_key(opt_str_view(file_groq_key), opt_str_view(env_groq_key)),
                groq_model: pick_or(opt_str_view(file_groq_model), Seq::empty()),
                openai_api_key: pick_key(
                    opt_str_view(file_openai_key),
                    opt_str_view(env_openai_key),
                ),
                openai_model: pick_or(opt_str_view(file_openai_model), Seq::empty()),
                ollama_base_url: pick_or(opt_str_view(file_ollama_url), "http://localhost:11434"@),
                ollama_model: pick_or(opt_str_view(file_ollama_model), Seq::empty()),
            }),
    {
        let r = LlmConfig {
            provider: take_or(file_provider, "groq"),
            groq_api_key: take_key(file_groq_key, env_groq_key),
            groq_model: take_or(file_groq_model, ""),
            openai_api_key: take_key(file_openai_key, env_openai_key),
            openai_model: take_or(file_openai_model, ""),
            ollama_base_url: take_or(file_ollama_url, "http://localhost:11434"),
            ollama_model: take_or(file_ollama_model, ""),
        };
        proof {
            reveal_strlit("");
            assert(""@ =~= Seq::<char>::empty());
            assert(r@ =~= (ConfigModel {
                provider: pick_or(opt_str_view(file_provider), "groq"@),
                groq_api_key: pick_key(opt_str_view(file_groq_key), opt_str_view(env_groq_key)),
                groq_model: pick_or(opt_str_view(file_groq_model), Seq::empty()),
                openai_api_key: pick_key(
                    opt_str_view(file_openai_key),
                    opt_str_view(env_openai_key),
                ),
                openai_model: pick_or(opt_str_view(file_openai_model), Seq::empty()),
                ollama_base_url: pick_or(opt_str_view(file_ollama_url), "http://localhost:11434"@),
                ollama_model: pick_or(opt_str_view(file_ollama_model), Seq::empty()),
            }));
        }
        r
    }
}

/// Whether the selected provider has what it needs: a key for the hosted
/// providers, nothing for the local one, and nothing usable otherwise.
pub open spec fn spec_is_configured(c: ConfigModel) -> bool {
    if c.provider == "groq"@ {
        c.groq_api_key is Some
    } else if c.provider == "openai"@ {
        c.openai_api_key is Some
    } else if c.provider == "ollama"@ {
        true
    } else {
        false
    }
}

/// The effect of a settings-dialog update, or nothing for an unknown
/// provider. A key is stored only when it is non-empty and is not a masked
/// display form (one holding "...").
pub open spec fn spec_apply_update(
    c: ConfigModel,
    provider: Seq<char>,
    model: Seq<char>,
    key: Seq<char>,
) -> Option<ConfigModel> {
    if provider == "groq"@ {
        Some(ConfigModel {
            provider: provider,
            groq_api_key: if key.len() > 0 && !spec_contains(key, "..."@) {
                Some(key)
            } else {
                c.groq_api_key
            },
            groq_model: model,
            ..c
        })
    } else if provider == "openai"@ {
        Some(ConfigModel {
            provider: provider,
            openai_api_key: if key.len() > 0 && !spec_contains(key, "..."@) {
                Some(key)
            } else {
                c.openai_api_key
            },
            openai_model: model,
            ..c
        })
    } else if provider == "ollama"@ {
        Some(ConfigModel { provider: provider, ollama_model: model, ..c })
    } else {
        None
    }
}

impl LlmConfig {
    /// True when the selected provider is ready to use.
    pub fn is_configured(&self) -> (r: bool)
        ensures
            r == spec_is_configured(self@),
    {
        if str_eq(self.provider.as_str(), "groq") {
            self.groq_api_key.is_some()
        } else if str_eq(self.provider.as_str(), "openai") {
            self.openai_api_key.is_some()
        } else if str_eq(self.provider.as_str(), "ollama") {
            true
        } else {
            false
        }
    }

    /// Applies a settings-dialog update. An unknown provider is refused
    /// and changes nothing.
    pub fn apply_update(&mut self, provider: &str, model: &str, api_key: &str) -> (r: Result<
        (),
        String,
    >)
        ensures
            match spec_apply_update(old(self)@, provider@, model@, api_key@) {
                Some(m) => r is Ok && final(self)@ == m,
                None => final(self)@ == old(self)@ && (r matches Err(e) && e@
                    == "Unknown provider: "@ + provider@),
            },
    {
        let keep_key = api_key.unicode_len() == 0 || contains_sub(api_key, "...");
        if str_eq(provider, "groq") {
            self.provider = provider.to_owned();
            if !keep_key {
                self.groq_api_key = Some(api_key.to_owned());
            }
            self.groq_model = model.to_owned();
            proof {
                assert(self@ =~= spec_apply_update(old(self)@, provider@, model@, api_key@)->Some_0);
            }
            Ok(())
        } else if str_eq(provider, "openai") {
            self.provider = provider.to_owned();
            if !keep_key {
                self.openai_api_key = Some(api_key.to_owned());
            }
            self.openai_model = model.to_owned();
            proof {
                assert(self@ =~= spec_apply_update(old(self)@, provider@, model@, api_key@)->Some_0);
            }
            Ok(())
        } else if str_eq(provider, "ollama") {
            self.provider = provider.to_owned();
            self.ollama_model = model.to_owned();
            proof {
                assert(self@ =~= spec_apply_update(old(self)@, provider@, model@, api_key@)->Some_0);
            }
            Ok(())
        } else {
            Err(String::from_str("Unknown provider: ").concat(provider))
        }
    }
}

/// How a stored key is shown: long keys keep their first and last four
/// characters around an ellipsis, short keys are starred out, absent keys
/// show as nothing.
pub open spec fn spec_mask_key(k: Option<Seq<char>>) -> Seq<char> {
    match k {
        Some(s) => if s.len() > 8 {
            s.subrange(0, 4) + "..."@ + s.subrange(s.len() - 4, s.len() as int)
        } else {
            "****"@
        },
        None => Seq::empty(),
    }
}

/// Renders a stored key for display without revealing it.
pub fn mask_key(key: &Option<String>) -> (r: String)
    ensures
        r@ == spec_mask_key(opt_str_view(*key)),
{
    match key {
        Some(k) => {
            let n = k.as_str().unicode_len();
            if n > 8 {
                let head = k.as_str().substring_char(0, 4);
                let tail = k.as_str().substring_char(n - 4, n);
                String::from_str(head).concat("...").concat(tail)
            } else {
                String::from_str("****")
            }
        },
        None => String::new(),
    }
}

} // verus!
