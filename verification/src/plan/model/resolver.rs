//! Resolution of a model identifier to the properties of the model.
use vstd::prelude::*;

use crate::plan::model;
use crate::plan::model::ModelSpec;

verus! {

broadcast use vstd::string::group_string_axioms;

/// The fields of a config.json, as far as they are present.
///
/// Different model families use different key names for the same concept.
#[derive(Clone, Copy, Debug, PartialEq, Eq, Structural)]
pub struct HfConfig {
    pub num_parameters: Option<u64>,
    pub num_hidden_layers: Option<u32>,
    pub n_layer: Option<u32>,
    pub n_layers: Option<u32>,
    pub hidden_size: Option<u32>,
    pub n_embd: Option<u32>,
    pub d_model: Option<u32>,
    pub num_attention_heads: Option<u32>,
    pub n_head: Option<u32>,
    /// Only present on models with grouped-query attention.
    pub num_key_value_heads: Option<u32>,
}

/// The first number that is there, or `default`.
pub open spec fn first_present(a: Option<u32>, b: Option<u32>, c: Option<u32>, default: u32) -> u32 {
    match (a, b, c) {
        (Some(x), _, _) => x,
        (None, Some(x), _) => x,
        (None, None, Some(x)) => x,
        (None, None, None) => default,
    }
}

/// The parameters of a transformer with `l` layers of width `h`, to a good
/// approximation.
pub open spec fn transformer_params(l: nat, h: nat) -> nat {
    12 * l * h * h
}

impl HfConfig {
    /// The layer count.
    pub open spec fn layers(self) -> u32 {
        first_present(self.num_hidden_layers, self.n_layer, self.n_layers, 32)
    }

    /// The width of the hidden state.
    pub open spec fn width(self) -> u32 {
        first_present(self.hidden_size, self.n_embd, self.d_model, 4096)
    }

    /// The number of attention heads.
    pub open spec fn heads(self) -> u32 {
        first_present(self.num_attention_heads, self.n_head, None, 32)
    }

    /// The number of key-value heads: that of attention heads unless given.
    pub open spec fn kv_heads(self) -> u32 {
        first_present(self.num_key_value_heads, None, None, self.heads())
    }

    /// The parameter count: as given, or derived from the architecture.
    pub open spec fn params(self) -> nat {
        match self.num_parameters {
            Some(n) => n as nat,
            None => transformer_params(self.layers() as nat, self.width() as nat),
        }
    }

    /// The layer count.
    pub fn num_layers(&self) -> (r: u32)
        ensures
            r == self.layers(),
    {
        first_of(self.num_hidden_layers, self.n_layer, self.n_layers, 32)
    }

    /// The width of the hidden state.
    pub fn hidden_size(&self) -> (r: u32)
        ensures
            r == self.width(),
    {
        first_of(self.hidden_size, self.n_embd, self.d_model, 4096)
    }

    /// The number of attention heads.
    pub fn num_heads(&self) -> (r: u32)
        ensures
            r == self.heads(),
    {
        first_of(self.num_attention_heads, self.n_head, None, 32)
    }

    /// The number of key-value heads.
    pub fn num_kv_heads(&self) -> (r: u32)
        ensures
            r == self.kv_heads(),
    {
        first_of(self.num_key_value_heads, None, None, self.num_heads())
    }

    /// The parameter count: as given, or ≈ 12 × L × H² where it is absent.
    pub fn param_count(&self) -> (r: u128)
        ensures
            r == self.params(),
    {
        if let Some(n) = self.num_parameters {
            return n as u128;
        }
        let l: u128 = self.num_layers() as u128;
        let h: u128 = self.hidden_size() as u128;
        proof {
            let top: int = 0xffff_ffff;
            assert(12 * l * h <= 12 * top * top) by (nonlinear_arith)
                requires
                    0 <= l <= top,
                    0 <= h <= top,
            ;
            let a: int = 12 * l * h;
            assert(a * h <= 12 * top * top * top) by (nonlinear_arith)
                requires
                    0 <= a <= 12 * top * top,
                    0 <= h <= top,
            ;
        }
        12 * l * h * h
    }

    /// The properties of the model with this configuration; a parameter count that
    /// the user gives wins over that of the configuration.
    pub fn into_spec(self, model_id: &str, param_override: Option<u128>) -> (r: ModelSpec)
        ensures
            r@ == config_view(self, model_id@, param_override),
    {
        let params: u128 = match param_override {
            Some(p) => p,
            None => self.param_count(),
        };
        ModelSpec {
            model_id: model_id.to_owned(),
            params,
            num_layers: self.num_layers(),
            hidden_size: self.hidden_size(),
            num_heads: self.num_heads(),
            num_kv_heads: self.num_kv_heads(),
        }
    }
}

/// The first number that is there, or `default`.
fn first_of(a: Option<u32>, b: Option<u32>, c: Option<u32>, default: u32) -> (r: u32)
    ensures
        r == first_present(a, b, c, default),
{
    match a {
        Some(x) => x,
        None => match b {
            Some(x) => x,
            None => match c {
                Some(x) => x,
                None => default,
            },
        },
    }
}

/// What a configuration says of a model.
pub open spec fn config_view(
    config: HfConfig,
    model_id: Seq<char>,
    param_override: Option<u128>,
) -> model::ModelView {
    model::ModelView {
        model_id,
        params: match param_override {
            Some(p) => p,
            None => config.params() as u128,
        },
        num_layers: config.layers(),
        hidden_size: config.width(),
        num_heads: config.heads(),
        num_kv_heads: config.kv_heads(),
    }
}

/// The layers, width and heads of a well-known model of about `params` parameters.
pub open spec fn family(params: nat) -> (u32, u32, u32) {
    let billions = params / 1_000_000_000;
    if billions <= 3 {
        (18, 2048, 16)
    } else if billions <= 8 {
        (32, 4096, 32)
    } else if billions <= 13 {
        (40, 5120, 40)
    } else if billions <= 35 {
        (60, 8192, 64)
    } else {
        (80, 8192, 64)
    }
}

/// What a parameter count alone says of a model.
pub open spec fn inferred_view(model_id: Seq<char>, params: u128) -> model::ModelView {
    let (num_layers, hidden_size, num_heads) = family(params as nat);
    model::ModelView {
        model_id,
        params,
        num_layers,
        hidden_size,
        num_heads,
        num_kv_heads: num_heads,
    }
}

/// A spec from the parameter count alone, with architecture values of well-known
/// model family sizes.
pub fn infer_spec_from_params(model_id: &str, params: u128) -> (r: ModelSpec)
    ensures
        r@ == inferred_view(model_id@, params),
{
    let billions: u128 = params / 1_000_000_000;
    let (num_layers, hidden_size, num_heads): (u32, u32, u32) = if billions <= 3 {
        (18, 2048, 16)
    } else if billions <= 8 {
        (32, 4096, 32)
    } else if billions <= 13 {
        (40, 5120, 40)
    } else if billions <= 35 {
        (60, 8192, 64)
    } else {
        (80, 8192, 64)
    };
    ModelSpec {
        model_id: model_id.to_owned(),
        params,
        num_layers,
        hidden_size,
        num_heads,
        num_kv_heads: num_heads,
    }
}

/// A larger model is never taken to be shallower, narrower or of fewer heads.
pub proof fn law_families_grow(a: nat, b: nat)
    requires
        a <= b,
    ensures
        family(a).0 <= family(b).0,
        family(a).1 <= family(b).1,
        family(a).2 <= family(b).2,
{
}

/// The address of a model's configuration.
pub open spec fn config_url(model_id: Seq<char>) -> Seq<char> {
    "https://huggingface.co/"@ + model_id + "/resolve/main/config.json"@
}

/// The address of a model's configuration on the Hugging Face Hub.
pub fn hub_url(model_id: &str) -> (r: String)
    ensures
        r@ == config_url(model_id@),
{
    let mut r = "https://huggingface.co/".to_owned();
    r.append(model_id);
    r.append("/resolve/main/config.json");
    r
}

/// Where the configuration of a model may lie in the file system: in the directory
/// that the identifier names, or in the file that it names.
#[derive(Clone, Copy, Debug, PartialEq, Eq, Structural)]
pub enum LocalConfig {
    /// In `config.json` in the directory.
    InDirectory,
    /// In the file itself.
    File,
    /// Nowhere.
    Absent,
}

/// Where a configuration stands before the Hub is asked.
pub open spec fn place_of_config(found: bool, is_dir: bool, config_in_dir: bool) -> LocalConfig {
    if !found || (is_dir && !config_in_dir) {
        LocalConfig::Absent
    } else if is_dir {
        LocalConfig::InDirectory
    } else {
        LocalConfig::File
    }
}

/// Where to look for a configuration before the Hub is asked.
pub fn local_config(found: bool, is_dir: bool, config_in_dir: bool) -> (r: LocalConfig)
    ensures
        r == place_of_config(found, is_dir, config_in_dir),
{
    if !found || (is_dir && !config_in_dir) {
        LocalConfig::Absent
    } else if is_dir {
        LocalConfig::InDirectory
    } else {
        LocalConfig::File
    }
}

/// What came of asking the Hub.
#[derive(Debug)]
pub enum HubReply {
    /// The configuration.
    Config(HfConfig),
    /// A status that is no success, such as "404 Not Found".
    Refused(String),
    /// No answer, and why.
    Unreachable(String),
}

/// What the user is told where the Hub does not know a model.
pub open spec fn refused_message(model_id: Seq<char>, status: Seq<char>) -> Seq<char> {
    "Model '"@ + model_id + "' not found on Hugging Face Hub (HTTP "@ + status
        + "). Pass `--params-b <BILLIONS>` to specify the parameter count directly."@
}

/// What the user is told where the Hub cannot be reached.
pub open spec fn unreachable_message(model_id: Seq<char>, why: Seq<char>) -> Seq<char> {
    "Could not reach Hugging Face Hub for '"@ + model_id + "': "@ + why
        + ". Pass `--params-b <BILLIONS>` to specify the parameter count directly."@
}

/// What a reply of the Hub resolves a model to.
pub open spec fn is_resolution(
    model_id: Seq<char>,
    reply: HubReply,
    param_override: Option<u128>,
    r: Result<ModelSpec, String>,
) -> bool {
    match (reply, param_override) {
        (HubReply::Config(config), _) => (r matches Ok(m) && m@ == config_view(
            config,
            model_id,
            param_override,
        )),
        (_, Some(p)) => (r matches Ok(m) && m@ == inferred_view(model_id, p)),
        (HubReply::Refused(status), None) => (r matches Err(e) && e@ == refused_message(
            model_id,
            status@,
        )),
        (HubReply::Unreachable(why), None) => (r matches Err(e) && e@ == unreachable_message(
            model_id,
            why@,
        )),
    }
}

/// Resolves a model by what the Hub replied. Without a configuration the parameter
/// count that the user gave must do; without that either, the message tells them to
/// pass it.
pub fn resolve(model_id: &str, reply: HubReply, param_override: Option<u128>) -> (r: Result<
    ModelSpec,
    String,
>)
    ensures
        is_resolution(model_id@, reply, param_override, r),
{
    match reply {
        HubReply::Config(config) => Ok(config.into_spec(model_id, param_override)),
        HubReply::Refused(status) => {
            if let Some(p) = param_override {
                return Ok(infer_spec_from_params(model_id, p));
            }
            let mut e = "Model '".to_owned();
            e.append(model_id);
            e.append("' not found on Hugging Face Hub (HTTP ");
            e.append(status.as_str());
            e.append(
                "). Pass `--params-b <BILLIONS>` to specify the parameter count directly.",
            );
            Err(e)
        },
        HubReply::Unreachable(why) => {
            if let Some(p) = param_override {
                return Ok(infer_spec_from_params(model_id, p));
            }
            let mut e = "Could not reach Hugging Face Hub for '".to_owned();
            e.append(model_id);
            e.append("': ");
            e.append(why.as_str());
            e.append(
                ". Pass `--params-b <BILLIONS>` to specify the parameter count directly.",
            );
            Err(e)
        },
    }
}

/// A configuration that is there decides. Each property is the first of its names that
/// is given; without any there are 32 layers, a width of 4096 and 32 heads, and as many
/// key-value heads as attention heads.
pub proof fn law_configurations_are_read(c: HfConfig)
    ensures
        c.num_hidden_layers matches Some(n) ==> c.layers() == n,
        c.num_hidden_layers is None ==> (c.n_layer matches Some(n) ==> c.layers() == n),
        c.num_hidden_layers is None && c.n_layer is None ==> (match c.n_layers {
            Some(n) => c.layers() == n,
            None => c.layers() == 32,
        }),
        c.hidden_size matches Some(n) ==> c.width() == n,
        c.hidden_size is None ==> (c.n_embd matches Some(n) ==> c.width() == n),
        c.hidden_size is None && c.n_embd is None ==> (match c.d_model {
            Some(n) => c.width() == n,
            None => c.width() == 4096,
        }),
        c.num_attention_heads matches Some(n) ==> c.heads() == n,
        c.num_attention_heads is None ==> (match c.n_head {
            Some(n) => c.heads() == n,
            None => c.heads() == 32,
        }),
        c.num_key_value_heads matches Some(n) ==> c.kv_heads() == n,
        c.num_key_value_heads is None ==> c.kv_heads() == c.heads(),
        c.num_parameters matches Some(n) ==> c.params() == n,
        c.num_parameters is None ==> c.params() == 12 * c.layers() * (c.width() * c.width()),
{
    let l = c.layers() as nat;
    let h = c.width() as nat;
    assert(12 * l * h * h == 12 * l * (h * h)) by (nonlinear_arith);
}

/// Doubling the layers doubles the derived parameters, and doubling the width makes them
/// four times as many.
pub proof fn law_parameters_scale(l: nat, h: nat)
    ensures
        transformer_params(2 * l, h) == 2 * transformer_params(l, h),
        transformer_params(l, 2 * h) == 4 * transformer_params(l, h),
        transformer_params(1, 1) == 12,
{
    assert(12 * (2 * l) * h * h == 2 * (12 * l * h * h)) by (nonlinear_arith);
    assert(12 * l * (2 * h) * (2 * h) == 4 * (12 * l * h * h)) by (nonlinear_arith);
}

/// A model of up to 3 whole billions of parameters is taken to have 18 layers of 2048,
/// up to 8 32 of 4096, up to 13 40 of 5120, up to 35 60 of 8192, and above that 80.
pub proof fn law_families_by_size(params: nat)
    ensures
        params < 4_000_000_000 ==> family(params) == (18u32, 2048u32, 16u32),
        4_000_000_000 <= params < 9_000_000_000 ==> family(params) == (32u32, 4096u32, 32u32),
        9_000_000_000 <= params < 14_000_000_000 ==> family(params) == (40u32, 5120u32, 40u32),
        14_000_000_000 <= params < 36_000_000_000 ==> family(params) == (60u32, 8192u32, 64u32),
        36_000_000_000 <= params ==> family(params) == (80u32, 8192u32, 64u32),
{
}

/// A parameter count that the user gives is used whatever the configuration says, and is
/// enough without one; without either there is an error that names the remedy.
pub proof fn law_given_parameters_win(
    model_id: Seq<char>,
    reply: HubReply,
    given: Option<u128>,
    r: Result<ModelSpec, String>,
)
    requires
        is_resolution(model_id, reply, given, r),
    ensures
        r is Err <==> !(reply is Config) && given is None,
        given matches Some(p) ==> (r matches Ok(m) && m.params == p),
        r matches Ok(m) ==> m.model_id@ == model_id,
        reply matches HubReply::Config(c) ==> (r matches Ok(m) && m.num_layers == c.layers()
            && m.hidden_size == c.width() && m.num_heads == c.heads() && m.num_kv_heads
            == c.kv_heads() && (given is None ==> m.params == c.params() as u128)),
        !(reply is Config) ==> (r matches Ok(m) ==> (m.num_layers, m.hidden_size, m.num_heads)
            == family(m.params as nat) && m.num_kv_heads == m.num_heads),
        r matches Err(e) ==> "Pass `--params-b <BILLIONS>` to specify the parameter count directly."@.is_suffix_of(
            e@,
        ),
{
    if r is Err {
        let e = (r->Err_0)@;
        let tail = "Pass `--params-b <BILLIONS>` to specify the parameter count directly."@;
        reveal_strlit("Pass `--params-b <BILLIONS>` to specify the parameter count directly.");
        reveal_strlit("). Pass `--params-b <BILLIONS>` to specify the parameter count directly.");
        reveal_strlit(". Pass `--params-b <BILLIONS>` to specify the parameter count directly.");
        assert(tail =~= e.subrange(e.len() - tail.len(), e.len() as int));
    }
}

/// The address of a configuration holds the identifier between the hub and the file.
pub proof fn law_addresses_hold_the_model(model_id: Seq<char>)
    ensures
        ("https://huggingface.co/"@ + model_id).is_prefix_of(config_url(model_id)),
        "/config.json"@.is_suffix_of(config_url(model_id)),
{
    let u = config_url(model_id);
    let head = "https://huggingface.co/"@ + model_id;
    assert(head =~= u.take(head.len() as int));
    reveal_strlit("/config.json");
    reveal_strlit("/resolve/main/config.json");
    let tail = "/config.json"@;
    assert(tail =~= u.subrange(u.len() - tail.len(), u.len() as int));
}

/// A file is a configuration itself, and a directory has one where it holds one; what is
/// not found, or holds none, is asked of the Hub.
pub proof fn law_local_models(found: bool, is_dir: bool, config_in_dir: bool)
    ensures
        place_of_config(found, is_dir, config_in_dir) is File <==> found && !is_dir,
        place_of_config(found, is_dir, config_in_dir) is InDirectory <==> found && is_dir
            && config_in_dir,
        place_of_config(found, is_dir, config_in_dir) is Absent <==> !found || (is_dir
            && !config_in_dir),
{
}

/// A spec that is inferred keeps the name and the number of parameters, and gives each head
/// its own keys and values; one by a configuration takes what that says, and a given number
/// of parameters before its own.
pub proof fn law_specs_hold_what_is_known(
    model_id: Seq<char>,
    params: u128,
    config: HfConfig,
    given: Option<u128>,
)
    ensures
        inferred_view(model_id, params).model_id == model_id,
        inferred_view(model_id, params).params == params,
        inferred_view(model_id, params).num_kv_heads == inferred_view(model_id, params).num_heads,
        params < 4_000_000_000 ==> inferred_view(model_id, params).num_layers == 18
            && inferred_view(model_id, params).hidden_size == 2048,
        params >= 36_000_000_000 ==> inferred_view(model_id, params).num_layers == 80
            && inferred_view(model_id, params).hidden_size == 8192,
        config_view(config, model_id, given).model_id == model_id,
        given matches Some(p) ==> config_view(config, model_id, given).params == p,
        given is None ==> config_view(config, model_id, given).params == config.params() as u128,
        config_view(config, model_id, given).num_layers == config.layers(),
        config_view(config, model_id, given).hidden_size == config.width(),
        config_view(config, model_id, given).num_heads == config.heads(),
        config_view(config, model_id, given).num_kv_heads == config.kv_heads(),
{
}

} // verus!
