//! Configuration of language-model providers and model aliases.
//!
//! Provider instances are keyed by instance id; several instances may share
//! a provider type, and at most one of each type is marked as that type's
//! default. Model aliases give models user-facing names, one of them being
//! the default model.

use vstd::prelude::*;
use crate::keyed::KeyedList;
use crate::text::{
    same, hex, hex_spec, before_colon, after_colon, prefix_before_colon, suffix_after_colon, decimal,
    decimal_spec, lemma_decimal_injective,
};
use vstd::set_lib::{set_int_range, lemma_int_range, lemma_map_size, lemma_len_subset};
use crate::rpc::{RpcError, INVALID_PARAMS};

verus! {

/// A copy of an optional string.
pub fn clone_opt(o: &Option<String>) -> (r: Option<String>)
    ensures
        r == *o,
{
    match o {
        Some(s) => Some(s.clone()),
        None => None,
    }
}

/// The view of an optional string.
pub open spec fn opt_view(o: Option<String>) -> Option<Seq<char>> {
    match o {
        Some(s) => Some(s@),
        None => None,
    }
}

/// One configured provider instance.
#[derive(Debug)]
pub struct ProviderInstance {
    /// Unique instance id (for example `openai-work`).
    pub id: String,
    /// Provider type (for example `openai`, `ollama`).
    pub provider_type: String,
    /// Display name chosen by the user.
    pub name: String,
    pub enabled: bool,
    pub api_key: Option<String>,
    pub base_url: Option<String>,
    /// Whether this is the default instance of its type.
    pub is_type_default: bool,
}

/// Milliseconds since the Unix epoch, as the system clock reads now.
/// Relies on `std::time::SystemTime::now` and `duration_since(UNIX_EPOCH)`;
/// a clock before the epoch reads as zero. Nothing is promised of the value.
#[verifier::external_body]
fn unix_millis() -> (r: u64) {
    std::time::SystemTime::now().duration_since(std::time::UNIX_EPOCH).unwrap_or_default().as_millis() as u64
}

/// The 24-bit clock-derived suffix of generated instance ids.
pub fn id_suffix(millis: u64) -> (r: String)
    ensures
        r@ == hex_spec((millis % 16777216) as nat),
{
    hex(millis % 16777216)
}

/// A short suffix for generated ids: the low 24 bits of the clock, in
/// hexadecimal.
pub fn uuid_simple() -> (r: String)
    ensures
        exists|m: nat| m < 16777216 && r@ == hex_spec(m),
{
    let r = id_suffix(unix_millis());
    r
}

/// Default of a missing `enabled` field.
pub fn default_true() -> (r: bool)
    ensures
        r,
{
    true
}

/// Version of the current configuration shape.
pub fn default_version() -> (r: u32)
    ensures
        r == 2,
{
    2
}

impl ProviderInstance {
    /// An enabled instance with a generated id: the type, a dash and a
    /// clock-derived suffix.
    pub fn new(provider_type: &str, name: &str) -> (r: ProviderInstance)
        ensures
            exists|m: nat| m < 16777216 && r.id@ == provider_type@ + "-"@ + hex_spec(m),
            r.provider_type@ == provider_type@,
            r.name@ == name@,
            r.enabled,
            r.api_key.is_none(),
            r.base_url.is_none(),
            !r.is_type_default,
    {
        let mut id = provider_type.to_owned();
        id.append("-");
        let suffix = uuid_simple();
        id.append(suffix.as_str());
        ProviderInstance {
            id,
            provider_type: provider_type.to_owned(),
            name: name.to_owned(),
            enabled: true,
            api_key: None,
            base_url: None,
            is_type_default: false,
        }
    }

    /// An enabled instance with the given id.
    pub fn with_id(id: &str, provider_type: &str, name: &str) -> (r: ProviderInstance)
        ensures
            r.id@ == id@,
            r.provider_type@ == provider_type@,
            r.name@ == name@,
            r.enabled,
            r.api_key.is_none(),
            r.base_url.is_none(),
            !r.is_type_default,
    {
        ProviderInstance {
            id: id.to_owned(),
            provider_type: provider_type.to_owned(),
            name: name.to_owned(),
            enabled: true,
            api_key: None,
            base_url: None,
            is_type_default: false,
        }
    }

    /// A copy of this instance.
    pub fn duplicate(&self) -> (r: ProviderInstance)
        ensures
            r == *self,
    {
        ProviderInstance {
            id: self.id.clone(),
            provider_type: self.provider_type.clone(),
            name: self.name.clone(),
            enabled: self.enabled,
            api_key: clone_opt(&self.api_key),
            base_url: clone_opt(&self.base_url),
            is_type_default: self.is_type_default,
        }
    }
}

/// A model under a user-facing name.
#[derive(Debug)]
pub struct ModelAlias {
    /// User-facing name (for example `my-llama`).
    pub name: String,
    /// The model it stands for (for example `ollama:llama3.2:latest`).
    pub model_id: String,
    pub is_default: bool,
}

impl ModelAlias {
    /// A copy of this alias.
    pub fn duplicate(&self) -> (r: ModelAlias)
        ensures
            r == *self,
    {
        ModelAlias { name: self.name.clone(), model_id: self.model_id.clone(), is_default: self.is_default }
    }
}

/// Settings of one provider type in the first configuration shape.
#[derive(Debug)]
pub struct LegacyProviderSettings {
    pub enabled: bool,
    pub api_key: Option<String>,
    pub base_url: Option<String>,
}

/// The first configuration shape: one flat entry per provider type.
#[derive(Debug)]
pub struct LegacyLlmConfig {
    pub default_model: Option<String>,
    pub providers: Vec<(String, LegacyProviderSettings)>,
}

/// The instances of type `t` among `entries`, in order.
pub open spec fn of_type(entries: Seq<(String, ProviderInstance)>, t: Seq<char>) -> Seq<ProviderInstance>
    decreases entries.len(),
{
    if entries.len() == 0 {
        Seq::empty()
    } else {
        let rest = of_type(entries.drop_last(), t);
        if entries.last().1.provider_type@ == t {
            rest.push(entries.last().1)
        } else {
            rest
        }
    }
}

/// The first instance marked as its type's default, in order.
pub open spec fn first_marked(s: Seq<ProviderInstance>) -> Option<ProviderInstance>
    decreases s.len(),
{
    if s.len() == 0 {
        None
    } else if s[0].is_type_default {
        Some(s[0])
    } else {
        first_marked(s.drop_first())
    }
}

/// The default instance of a type: the only one when there is exactly one,
/// else the first marked as default.
pub open spec fn type_default_spec(s: Seq<ProviderInstance>) -> Option<ProviderInstance> {
    if s.len() == 1 {
        Some(s[0])
    } else {
        first_marked(s)
    }
}

/// The first alias named `name`.
pub open spec fn first_named(models: Seq<ModelAlias>, name: Seq<char>) -> Option<ModelAlias>
    decreases models.len(),
{
    if models.len() == 0 {
        None
    } else if models[0].name@ == name {
        Some(models[0])
    } else {
        first_named(models.drop_first(), name)
    }
}

/// The first alias marked as default.
pub open spec fn first_default(models: Seq<ModelAlias>) -> Option<ModelAlias>
    decreases models.len(),
{
    if models.len() == 0 {
        None
    } else if models[0].is_default {
        Some(models[0])
    } else {
        first_default(models.drop_first())
    }
}

/// Whether some alias is named `name`.
pub open spec fn has_name(models: Seq<ModelAlias>, name: Seq<char>) -> bool {
    exists|i: int| 0 <= i < models.len() && models[i].name@ == name
}

proof fn lemma_first_named(models: Seq<ModelAlias>, name: Seq<char>)
    ensures
        first_named(models, name).is_some() == has_name(models, name),
        first_named(models, name) matches Some(m) ==> m.name@ == name,
    decreases models.len(),
{
    if models.len() > 0 {
        lemma_first_named(models.drop_first(), name);
        if has_name(models, name) && models[0].name@ != name {
            let i = choose|i: int| 0 <= i < models.len() && models[i].name@ == name;
            assert(models.drop_first()[i - 1].name@ == name);
        }
        if has_name(models.drop_first(), name) {
            let i = choose|i: int| 0 <= i < models.len() - 1 && models.drop_first()[i].name@ == name;
            assert(models[i + 1].name@ == name);
        }
    }
}

/// The instance with its type-default mark set when `mark` holds.
pub open spec fn marked(p: ProviderInstance, mark: bool) -> ProviderInstance {
    ProviderInstance { is_type_default: p.is_type_default || mark, ..p }
}

/// The instance with its type-default mark set to `mark`.
pub open spec fn with_mark(p: ProviderInstance, mark: bool) -> ProviderInstance {
    ProviderInstance { is_type_default: mark, ..p }
}

/// Whether an alias is named otherwise than `name`.
pub open spec fn not_named(name: Seq<char>) -> spec_fn(ModelAlias) -> bool {
    |m: ModelAlias| m.name@ != name
}

/// The alias with its default mark set to `mark`.
pub open spec fn alias_with_default(m: ModelAlias, mark: bool) -> ModelAlias {
    ModelAlias { is_default: mark, ..m }
}

/// The configuration of providers and models.
#[derive(Debug)]
pub struct LlmConfig {
    /// Shape version; 2 is current.
    pub version: u32,
    /// The default model id, kept beside the aliases for older readers.
    pub default_model: Option<String>,
    /// Id of the global default provider instance.
    pub default_provider: Option<String>,
    /// Provider instances by instance id.
    pub providers: KeyedList<ProviderInstance>,
    /// Model aliases, in order of addition.
    pub models: Vec<ModelAlias>,
}

impl Default for LlmConfig {
    fn default() -> (r: LlmConfig)
        ensures
            r.wf(),
            r.version == 2,
            r.default_model.is_none(),
            r.default_provider.is_none(),
            r.providers.entries@.len() == 0,
            r.models@.len() == 0,
    {
        LlmConfig {
            version: default_version(),
            default_model: None,
            default_provider: None,
            providers: KeyedList::new(),
            models: Vec::new(),
        }
    }
}

impl LlmConfig {
    pub open spec fn wf(&self) -> bool {
        self.providers.wf()
    }

    /// The instances of one type, in order.
    pub open spec fn instances_of(&self, t: Seq<char>) -> Seq<ProviderInstance> {
        of_type(self.providers.entries@, t)
    }

    /// What a provider reference resolves to: the instance with that id, or
    /// else the default instance of the type so named.
    pub open spec fn resolve_spec(&self, p: Seq<char>) -> Option<ProviderInstance> {
        if self.providers@.contains_key(p) {
            Some(self.providers@[p])
        } else {
            type_default_spec(self.instances_of(p))
        }
    }

    /// A copy of this configuration.
    pub fn duplicate(&self) -> (r: LlmConfig)
        requires
            self.wf(),
        ensures
            r.wf(),
            r.version == self.version,
            r.default_model == self.default_model,
            r.default_provider == self.default_provider,
            r.providers.entries@ == self.providers.entries@,
            r.providers@ == self.providers@,
            r.models@ == self.models@,
    {
        let mut entries: Vec<(String, ProviderInstance)> = Vec::new();
        let mut i: usize = 0;
        while i < self.providers.entries.len()
            invariant
                i <= self.providers.entries@.len(),
                entries@ == self.providers.entries@.subrange(0, i as int),
            decreases self.providers.entries@.len() - i,
        {
            let e = &self.providers.entries[i];
            entries.push((e.0.clone(), e.1.duplicate()));
            assert(entries@ =~= self.providers.entries@.subrange(0, i as int + 1));
            i = i + 1;
        }
        let mut models: Vec<ModelAlias> = Vec::new();
        let mut j: usize = 0;
        while j < self.models.len()
            invariant
                j <= self.models@.len(),
                models@ == self.models@.subrange(0, j as int),
            decreases self.models@.len() - j,
        {
            models.push(self.models[j].duplicate());
            assert(models@ =~= self.models@.subrange(0, j as int + 1));
            j = j + 1;
        }
        assert(entries@ =~= self.providers.entries@);
        assert(models@ =~= self.models@);
        let providers = KeyedList { entries };
        proof {
            providers.lemma_same_entries(&self.providers);
        }
        LlmConfig {
            version: self.version,
            default_model: clone_opt(&self.default_model),
            default_provider: clone_opt(&self.default_provider),
            providers,
            models,
        }
    }

    /// Whether the instance `instance_id` exists and is enabled.
    pub fn is_provider_enabled(&self, instance_id: &str) -> (r: bool)
        requires
            self.wf(),
        ensures
            r == (self.providers@.contains_key(instance_id@) && self.providers@[instance_id@].enabled),
    {
        match self.providers.get(instance_id) {
            Some(p) => p.enabled,
            None => false,
        }
    }

    /// The instance with id `instance_id`.
    pub fn get_instance(&self, instance_id: &str) -> (r: Option<&ProviderInstance>)
        requires
            self.wf(),
        ensures
            match r {
                Some(p) => self.providers@.contains_key(instance_id@) && *p == self.providers@[instance_id@],
                None => !self.providers@.contains_key(instance_id@),
            },
    {
        self.providers.get(instance_id)
    }

    /// The instance with id `instance_id`, for changing in place. The key it
    /// is filed under does not change.
    pub fn get_instance_mut(&mut self, instance_id: &str) -> (r: Option<&mut ProviderInstance>)
        requires
            old(self).wf(),
        ensures
            r.is_some() == old(self).providers@.contains_key(instance_id@),
            r.is_none() ==> *final(self) == *old(self),
            r matches Some(p) ==> ({
                let i = old(self).providers.pos(instance_id@);
                &&& *p == old(self).providers@[instance_id@]
                &&& final(self).providers.entries@ == old(self).providers.entries@.update(
                    i,
                    (old(self).providers.entries@[i].0, *final(p)),
                )
            }),
            final(self).models == old(self).models,
            final(self).default_provider == old(self).default_provider,
            final(self).default_model == old(self).default_model,
            final(self).version == old(self).version,
    {
        match self.providers.find(instance_id) {
            Some(i) => {
                let e = &mut self.providers.entries[i];
                Some(&mut e.1)
            },
            None => None,
        }
    }

    /// The instances of type `provider_type`, in order.
    pub fn get_instances_by_type(&self, provider_type: &str) -> (r: Vec<&ProviderInstance>)
        ensures
            r@.len() == self.instances_of(provider_type@).len(),
            forall|i: int| 0 <= i < r@.len() ==> *(#[trigger] r@[i]) == self.instances_of(provider_type@)[i],
    {
        let t = provider_type.to_owned();
        let mut out: Vec<&ProviderInstance> = Vec::new();
        let mut i: usize = 0;
        while i < self.providers.entries.len()
            invariant
                t@ == provider_type@,
                i <= self.providers.entries@.len(),
                out@.len() == of_type(self.providers.entries@.subrange(0, i as int), t@).len(),
                forall|j: int| 0 <= j < out@.len() ==> *(#[trigger] out@[j]) == of_type(
                    self.providers.entries@.subrange(0, i as int),
                    t@,
                )[j],
            decreases self.providers.entries@.len() - i,
        {
            let e = &self.providers.entries[i];
            proof {
                let pre = self.providers.entries@.subrange(0, i as int + 1);
                assert(pre.drop_last() =~= self.providers.entries@.subrange(0, i as int));
                assert(pre.last() == self.providers.entries@[i as int]);
            }
            if e.1.provider_type == t {
                out.push(&e.1);
            }
            i = i + 1;
        }
        assert(self.providers.entries@.subrange(0, i as int) =~= self.providers.entries@);
        out
    }

    /// The default instance of type `provider_type`: the only one when there
    /// is exactly one, else the first marked as the type default.
    pub fn get_type_default(&self, provider_type: &str) -> (r: Option<&ProviderInstance>)
        ensures
            match r {
                Some(p) => type_default_spec(self.instances_of(provider_type@)) == Some(*p),
                None => type_default_spec(self.instances_of(provider_type@)).is_none(),
            },
    {
        let instances = self.get_instances_by_type(provider_type);
        let ghost s = self.instances_of(provider_type@);
        let n = instances.len();
        if n == 1 {
            return Some(instances[0]);
        }
        let mut i: usize = 0;
        assert(s.subrange(0, n as int) =~= s);
        while i < n
            invariant
                n == instances@.len(),
                s == self.instances_of(provider_type@),
                n == s.len(),
                n != 1,
                i <= n,
                forall|j: int| 0 <= j < n ==> *(#[trigger] instances@[j]) == s[j],
                first_marked(s) == first_marked(s.subrange(i as int, n as int)),
            decreases n - i,
        {
            let p = instances[i];
            let ghost rest = s.subrange(i as int, n as int);
            assert(rest[0] == s[i as int]);
            assert(*p == s[i as int]);
            if p.is_type_default {
                assert(first_marked(rest) == Some(rest[0]));
                return Some(p);
            }
            assert(rest.drop_first() =~= s.subrange(i as int + 1, n as int));
            i = i + 1;
        }
        None
    }

    /// Resolves an instance id, or else a provider type, to an instance.
    pub fn resolve_provider(&self, provider: &str) -> (r: Option<&ProviderInstance>)
        requires
            self.wf(),
        ensures
            match r {
                Some(p) => self.resolve_spec(provider@) == Some(*p),
                None => self.resolve_spec(provider@).is_none(),
            },
    {
        match self.get_instance(provider) {
            Some(p) => Some(p),
            None => self.get_type_default(provider),
        }
    }

    /// The global default instance, when it is set and exists.
    pub fn get_global_default(&self) -> (r: Option<&ProviderInstance>)
        requires
            self.wf(),
        ensures
            match r {
                Some(p) => self.default_provider matches Some(id) && self.providers@.contains_key(id@)
                    && *p == self.providers@[id@],
                None => match self.default_provider {
                    Some(id) => !self.providers@.contains_key(id@),
                    None => true,
                },
            },
    {
        match &self.default_provider {
            Some(id) => self.get_instance(id.as_str()),
            None => None,
        }
    }

    /// Adds (or replaces) an instance under its id and returns the id. The
    /// first instance of a type becomes that type's default, and the first
    /// instance overall becomes the global default.
    pub fn add_instance(&mut self, instance: ProviderInstance) -> (r: String)
        requires
            old(self).wf(),
        ensures
            final(self).wf(),
            r == instance.id,
            final(self).providers@ == old(self).providers@.insert(
                instance.id@,
                marked(instance, old(self).instances_of(instance.provider_type@).len() == 0),
            ),
            final(self).default_provider == (match old(self).default_provider {
                Some(d) => Some(d),
                None => Some(r),
            }),
            final(self).default_model == old(self).default_model,
            final(self).models == old(self).models,
            final(self).version == old(self).version,
    {
        let mut instance = instance;
        let id = instance.id.clone();
        let first_of_type = self.get_instances_by_type(instance.provider_type.as_str()).len() == 0;
        if first_of_type {
            instance.is_type_default = true;
        }
        if self.default_provider.is_none() {
            self.default_provider = Some(id.clone());
        }
        self.providers.insert(id.clone(), instance);
        id
    }

    /// Points the global default at `instance_id` when that instance exists.
    pub fn set_global_default(&mut self, instance_id: &str) -> (r: bool)
        requires
            old(self).wf(),
        ensures
            r == old(self).providers@.contains_key(instance_id@),
            r ==> (final(self).default_provider matches Some(d) && d@ == instance_id@),
            !r ==> final(self).default_provider == old(self).default_provider,
            final(self).providers == old(self).providers,
            final(self).models == old(self).models,
            final(self).default_model == old(self).default_model,
            final(self).version == old(self).version,
    {
        if self.providers.contains(instance_id) {
            self.default_provider = Some(instance_id.to_owned());
            true
        } else {
            false
        }
    }

    /// Makes `instance_id` the only default of its type.
    pub fn set_type_default(&mut self, instance_id: &str) -> (r: bool)
        requires
            old(self).wf(),
        ensures
            final(self).wf(),
            r == old(self).providers@.contains_key(instance_id@),
            !r ==> *final(self) == *old(self),
            r ==> {
                let t = old(self).providers@[instance_id@].provider_type@;
                &&& final(self).providers.entries@.len() == old(self).providers.entries@.len()
                &&& forall|i: int| 0 <= i < old(self).providers.entries@.len() ==> {
                    let (k, p) = #[trigger] old(self).providers.entries@[i];
                    final(self).providers.entries@[i] == (k, if p.provider_type@ == t {
                        with_mark(p, k@ == instance_id@)
                    } else {
                        p
                    })
                }
            },
            final(self).default_provider == old(self).default_provider,
            final(self).models == old(self).models,
            final(self).default_model == old(self).default_model,
            final(self).version == old(self).version,
    {
        let t = match self.providers.get(instance_id) {
            Some(p) => p.provider_type.clone(),
            None => return false,
        };
        let ghost tv = t@;
        let key = instance_id.to_owned();
        let mut entries: Vec<(String, ProviderInstance)> = Vec::new();
        let mut i: usize = 0;
        while i < self.providers.entries.len()
            invariant
                self.providers == old(self).providers,
                t@ == tv,
                key@ == instance_id@,
                i <= self.providers.entries@.len(),
                entries@.len() == i,
                forall|j: int| 0 <= j < i ==> {
                    let (k, p) = #[trigger] self.providers.entries@[j];
                    entries@[j] == (k, if p.provider_type@ == tv {
                        with_mark(p, k@ == instance_id@)
                    } else {
                        p
                    })
                },
            decreases self.providers.entries@.len() - i,
        {
            let e = &self.providers.entries[i];
            let mut p = e.1.duplicate();
            if p.provider_type == t {
                p.is_type_default = e.0 == key;
            }
            entries.push((e.0.clone(), p));
            i = i + 1;
        }
        proof {
            assert forall|a: int, b: int|
                0 <= a < entries@.len() && 0 <= b < entries@.len() && a != b
                implies entries@[a].0@ != entries@[b].0@ by {
                assert(entries@[a].0 == old(self).providers.entries@[a].0);
                assert(entries@[b].0 == old(self).providers.entries@[b].0);
            }
        }
        self.providers.entries = entries;
        true
    }

    /// Takes out instance `instance_id`. When it was the global default, the
    /// first remaining instance (if any) becomes the global default; when it
    /// was its type's default, the first remaining instance of that type (if
    /// any) becomes the type default.
    pub fn remove_instance(&mut self, instance_id: &str) -> (r: Option<ProviderInstance>)
        requires
            old(self).wf(),
        ensures
            final(self).wf(),
            r.is_some() == old(self).providers@.contains_key(instance_id@),
            r.is_none() ==> *final(self) == *old(self),
            r matches Some(gone) ==> {
                let mid = old(self).providers.entries@.remove(old(self).providers.pos(instance_id@));
                let t = gone.provider_type@;
                &&& gone == old(self).providers@[instance_id@]
                &&& final(self).providers@.dom() == old(self).providers@.dom().remove(instance_id@)
                &&& final(self).default_provider == (if opt_view(old(self).default_provider) == Some(
                    instance_id@,
                ) {
                    if mid.len() > 0 {
                        Some(mid[0].0)
                    } else {
                        None
                    }
                } else {
                    old(self).default_provider
                })
                &&& final(self).providers.entries@.len() == mid.len()
                &&& forall|i: int| 0 <= i < mid.len() ==> #[trigger] final(self).providers.entries@[i] == (
                if gone.is_type_default && mid[i].1.provider_type@ == t && (forall|j: int|
                    0 <= j < i ==> mid[j].1.provider_type@ != t) {
                    (mid[i].0, with_mark(mid[i].1, true))
                } else {
                    mid[i]
                })
            },
            final(self).models == old(self).models,
            final(self).default_model == old(self).default_model,
            final(self).version == old(self).version,
    {
        let gone = match self.providers.remove(instance_id) {
            Some(p) => p,
            None => return None,
        };
        let ghost mid = self.providers.entries@;
        let ghost mid_list = self.providers;
        let was_default = match &self.default_provider {
            Some(d) => same(d.as_str(), instance_id),
            None => false,
        };
        if was_default {
            if self.providers.entries.len() > 0 {
                self.default_provider = Some(self.providers.entries[0].0.clone());
            } else {
                self.default_provider = None;
            }
        }
        if gone.is_type_default {
            let n = self.providers.entries.len();
            let mut found: Option<usize> = None;
            let mut i: usize = 0;
            while i < n
                invariant_except_break
                    found.is_none(),
                invariant
                    n == self.providers.entries@.len(),
                    self.providers.entries@ == mid,
                    i <= n,
                    forall|j: int| 0 <= j < i ==> mid[j].1.provider_type@ != gone.provider_type@,
                ensures
                    self.providers.entries@ == mid,
                    found matches Some(f) ==> f < n && mid[f as int].1.provider_type@ == gone.provider_type@
                        && forall|j: int| 0 <= j < f ==> mid[j].1.provider_type@ != gone.provider_type@,
                    found.is_none() ==> forall|j: int| 0 <= j < n ==> mid[j].1.provider_type@ != gone.provider_type@,
                decreases n - i,
            {
                if self.providers.entries[i].1.provider_type == gone.provider_type {
                    found = Some(i);
                    break;
                }
                i = i + 1;
            }
            if let Some(i) = found {
                assert(mid[i as int].1.provider_type@ == gone.provider_type@);
                let key = self.providers.entries[i].0.clone();
                let mut p = self.providers.entries[i].1.duplicate();
                p.is_type_default = true;
                self.providers.entries.set(i, (key, p));
                proof {
                    assert forall|q: int| 0 <= q < mid.len() implies #[trigger] self.providers.entries@[q] == (
                    if mid[q].1.provider_type@ == gone.provider_type@ && (forall|j: int|
                        0 <= j < q ==> mid[j].1.provider_type@ != gone.provider_type@) {
                        (mid[q].0, with_mark(mid[q].1, true))
                    } else {
                        mid[q]
                    }) by {
                        if q > i {
                            assert(mid[i as int].1.provider_type@ == gone.provider_type@);
                        }
                    }
                }
            }
        }
        proof {
            let e = self.providers.entries@;
            assert(e.len() == mid.len());
            assert forall|q: int| 0 <= q < e.len() implies #[trigger] e[q].0 == mid[q].0 by {}
            assert forall|a: int, b: int| 0 <= a < e.len() && 0 <= b < e.len() && a != b implies e[a].0@
                != e[b].0@ by {
                assert(e[a].0 == mid[a].0 && e[b].0 == mid[b].0);
            }
            assert forall|q: Seq<char>| #[trigger] self.providers.has(q) == mid_list.has(q) by {
                if self.providers.has(q) {
                    let j = self.providers.pos(q);
                    assert(mid[j].0@ == q);
                }
                if mid_list.has(q) {
                    let j = mid_list.pos(q);
                    assert(e[j].0@ == q);
                }
            }
            assert(self.providers@.dom() =~= mid_list@.dom());
            assert(mid_list@ == old(self).providers@.remove(instance_id@));
            assert(self.providers@.dom() =~= old(self).providers@.dom().remove(instance_id@));
        }
        Some(gone)
    }

    /// All model aliases, in order.
    pub fn get_models(&self) -> (r: &[ModelAlias])
        ensures
            r@ == self.models@,
    {
        self.models.as_slice()
    }

    /// The first alias named `name`.
    pub fn get_model(&self, name: &str) -> (r: Option<&ModelAlias>)
        ensures
            match r {
                Some(m) => first_named(self.models@, name@) == Some(*m),
                None => first_named(self.models@, name@).is_none(),
            },
    {
        let key = name.to_owned();
        let n = self.models.len();
        let mut i: usize = 0;
        assert(self.models@.subrange(0, n as int) =~= self.models@);
        while i < n
            invariant
                n == self.models@.len(),
                key@ == name@,
                i <= n,
                first_named(self.models@, name@) == first_named(self.models@.subrange(i as int, n as int), name@),
            decreases n - i,
        {
            let ghost rest = self.models@.subrange(i as int, n as int);
            assert(rest[0] == self.models@[i as int]);
            if self.models[i].name == key {
                return Some(&self.models[i]);
            }
            assert(rest.drop_first() =~= self.models@.subrange(i as int + 1, n as int));
            i = i + 1;
        }
        None
    }

    /// The alias marked as default, or else the first alias.
    pub fn get_default_model(&self) -> (r: Option<&ModelAlias>)
        ensures
            match r {
                Some(m) => Some(*m) == (match first_default(self.models@) {
                    Some(d) => Some(d),
                    None => if self.models@.len() > 0 {
                        Some(self.models@[0])
                    } else {
                        None
                    },
                }),
                None => self.models@.len() == 0,
            },
    {
        let n = self.models.len();
        let mut i: usize = 0;
        assert(self.models@.subrange(0, n as int) =~= self.models@);
        while i < n
            invariant
                n == self.models@.len(),
                i <= n,
                first_default(self.models@) == first_default(self.models@.subrange(i as int, n as int)),
            decreases n - i,
        {
            let ghost rest = self.models@.subrange(i as int, n as int);
            assert(rest[0] == self.models@[i as int]);
            if self.models[i].is_default {
                return Some(&self.models[i]);
            }
            assert(rest.drop_first() =~= self.models@.subrange(i as int + 1, n as int));
            i = i + 1;
        }
        if n > 0 {
            Some(&self.models[0])
        } else {
            None
        }
    }

    /// Removes every alias named `name` and tells whether any was removed.
    /// When the default went with them, the first remaining alias becomes the
    /// default.
    pub fn remove_model(&mut self, name: &str) -> (r: bool)
        ensures
            ({
                let kept = old(self).models@.filter(not_named(name@));
                &&& r == (kept.len() < old(self).models@.len())
                &&& if r && kept.len() > 0 && first_default(kept).is_none() {
                    final(self).models@ == kept.update(0, alias_with_default(kept[0], true))
                } else {
                    final(self).models@ == kept
                }
            }),
            final(self).providers == old(self).providers,
            final(self).default_provider == old(self).default_provider,
            final(self).default_model == old(self).default_model,
            final(self).version == old(self).version,
    {
        let key = name.to_owned();
        let n = self.models.len();
        let mut kept: Vec<ModelAlias> = Vec::new();
        let mut i: usize = 0;
        while i < n
            invariant
                n == self.models@.len(),
                self.models == old(self).models,
                key@ == name@,
                i <= n,
                kept@ == self.models@.subrange(0, i as int).filter(not_named(name@)),
            decreases n - i,
        {
            let ghost before = kept@;
            if self.models[i].name != key {
                kept.push(self.models[i].duplicate());
            }
            proof {
                let pre = self.models@.subrange(0, i as int + 1);
                assert(pre.drop_last() =~= self.models@.subrange(0, i as int));
                assert(pre.last() == self.models@[i as int]);
                reveal(Seq::filter);
                assert(pre.filter(not_named(name@)) == (if not_named(name@)(pre.last()) {
                    pre.drop_last().filter(not_named(name@)).push(pre.last())
                } else {
                    pre.drop_last().filter(not_named(name@))
                }));
            }
            i = i + 1;
        }
        assert(self.models@.subrange(0, n as int) =~= self.models@);
        let removed = kept.len() < n;
        if removed && kept.len() > 0 {
            let mut any_default = false;
            let mut j: usize = 0;
            let m = kept.len();
            assert(kept@.subrange(0, m as int) =~= kept@);
            while j < m
                invariant_except_break
                    !any_default,
                invariant
                    m == kept@.len(),
                    j <= m,
                    first_default(kept@) == first_default(kept@.subrange(j as int, m as int)),
                ensures
                    any_default == first_default(kept@).is_some(),
                decreases m - j,
            {
                let ghost rest = kept@.subrange(j as int, m as int);
                assert(rest[0] == kept@[j as int]);
                if kept[j].is_default {
                    any_default = true;
                    break;
                }
                assert(rest.drop_first() =~= kept@.subrange(j as int + 1, m as int));
                j = j + 1;
            }
            if !any_default {
                let mut first = kept[0].duplicate();
                first.is_default = true;
                kept.set(0, first);
            }
        }
        self.models = kept;
        removed
    }

    /// Makes `name` the default alias when some alias has that name; every
    /// alias is then marked default exactly when it has that name.
    pub fn set_default_model_by_name(&mut self, name: &str) -> (r: bool)
        ensures
            r == has_name(old(self).models@, name@),
            !r ==> final(self).models == old(self).models,
            r ==> final(self).models@.len() == old(self).models@.len() && forall|i: int|
                0 <= i < old(self).models@.len() ==> #[trigger] final(self).models@[i] == alias_with_default(
                    old(self).models@[i],
                    old(self).models@[i].name@ == name@,
                ),
            final(self).providers == old(self).providers,
            final(self).default_provider == old(self).default_provider,
            final(self).default_model == old(self).default_model,
            final(self).version == old(self).version,
    {
        proof {
            lemma_first_named(self.models@, name@);
        }
        if self.get_model(name).is_none() {
            return false;
        }
        let key = name.to_owned();
        let n = self.models.len();
        let mut out: Vec<ModelAlias> = Vec::new();
        let mut i: usize = 0;
        while i < n
            invariant
                n == self.models@.len(),
                self.models == old(self).models,
                key@ == name@,
                i <= n,
                out@.len() == i,
                forall|j: int| 0 <= j < i ==> #[trigger] out@[j] == alias_with_default(
                    self.models@[j],
                    self.models@[j].name@ == name@,
                ),
            decreases n - i,
        {
            let mut m = self.models[i].duplicate();
            m.is_default = m.name == key;
            out.push(m);
            i = i + 1;
        }
        self.models = out;
        true
    }

    /// The model a reference stands for: the model of the alias so named, or
    /// else the reference itself taken as a model id.
    pub fn resolve_model(&self, model_ref: &str) -> (r: Option<String>)
        ensures
            r matches Some(id) && id@ == (match first_named(self.models@, model_ref@) {
                Some(m) => m.model_id@,
                None => model_ref@,
            }),
    {
        match self.get_model(model_ref) {
            Some(m) => Some(m.model_id.clone()),
            None => Some(model_ref.to_owned()),
        }
    }

    /// After a current-shape file is read: when no default model is recorded
    /// but an alias is marked default, that alias's model becomes the default
    /// model.
    pub fn sync_default_model(&mut self)
        ensures
            final(self).default_model == (match old(self).default_model {
                Some(d) => Some(d),
                None => match first_default(old(self).models@) {
                    Some(m) => Some(m.model_id),
                    None => None,
                },
            }),
            final(self).models == old(self).models,
            final(self).providers == old(self).providers,
            final(self).default_provider == old(self).default_provider,
            final(self).version == old(self).version,
    {
        if self.default_model.is_none() {
            let id = match self.get_default_model() {
                Some(m) => if m.is_default {
                    Some(m.model_id.clone())
                } else {
                    None
                },
                None => None,
            };
            proof {
                lemma_first_default_marked(self.models@);
            }
            self.default_model = id;
        }
    }
}

proof fn lemma_first_default_marked(models: Seq<ModelAlias>)
    ensures
        first_default(models) matches Some(m) ==> m.is_default,
        first_default(models).is_none() ==> forall|i: int| 0 <= i < models.len() ==> !(#[trigger] models[i]).is_default,
    decreases models.len(),
{
    if models.len() > 0 {
        lemma_first_default_marked(models.drop_first());
        if first_default(models).is_none() {
            assert forall|i: int| 0 <= i < models.len() implies !(#[trigger] models[i]).is_default by {
                if i > 0 {
                    assert(models[i] == models.drop_first()[i - 1]);
                }
            }
        }
    }
}

/// The upper-case form of a character, which may be several characters.
pub uninterp spec fn upper_of(c: char) -> Seq<char>;

/// Relies on `char::to_uppercase`, collected into a string: the upper-case
/// mapping of one character. It depends on the character alone.
#[verifier::external_body]
fn char_upper(c: char) -> (r: String)
    ensures
        r@ == upper_of(c),
{
    c.to_uppercase().collect()
}

/// Display name of a provider type, given the upper-case form `first_upper`
/// of its first character: a fixed name for the known types, and otherwise
/// the type with its first character replaced by `first_upper`.
pub open spec fn display_name_with(t: Seq<char>, first_upper: Seq<char>) -> Seq<char> {
    if t == "ollama"@ {
        "Ollama"@
    } else if t == "llamafile"@ {
        "Llamafile"@
    } else if t == "openai"@ {
        "OpenAI"@
    } else if t == "anthropic"@ {
        "Anthropic"@
    } else if t == "mistral"@ {
        "Mistral"@
    } else if t == "groq"@ {
        "Groq"@
    } else if t == "lmstudio"@ {
        "LM Studio"@
    } else if t.len() == 0 {
        t
    } else {
        first_upper + t.drop_first()
    }
}

/// Display name of a provider type.
pub open spec fn display_name_spec(t: Seq<char>) -> Seq<char> {
    display_name_with(t, if t.len() > 0 { upper_of(t[0]) } else { Seq::empty() })
}

/// Display name of a provider type, given the upper-case form of its first
/// character.
pub fn display_name_from(provider_type: &str, first_upper: &str) -> (r: String)
    ensures
        r@ == display_name_with(provider_type@, first_upper@),
{
    if same(provider_type, "ollama") {
        String::from_str("Ollama")
    } else if same(provider_type, "llamafile") {
        String::from_str("Llamafile")
    } else if same(provider_type, "openai") {
        String::from_str("OpenAI")
    } else if same(provider_type, "anthropic") {
        String::from_str("Anthropic")
    } else if same(provider_type, "mistral") {
        String::from_str("Mistral")
    } else if same(provider_type, "groq") {
        String::from_str("Groq")
    } else if same(provider_type, "lmstudio") {
        String::from_str("LM Studio")
    } else {
        let n = provider_type.unicode_len();
        if n == 0 {
            provider_type.to_owned()
        } else {
            let mut r = first_upper.to_owned();
            r.append(provider_type.substring_char(1, n));
            assert(provider_type@.subrange(1, n as int) =~= provider_type@.drop_first());
            r
        }
    }
}

/// Display name of a provider type: a fixed name for the known types, and
/// otherwise the type with its first character in upper case.
pub fn get_provider_display_name(provider_type: &str) -> (r: String)
    ensures
        r@ == display_name_spec(provider_type@),
{
    let n = provider_type.unicode_len();
    if n == 0 {
        display_name_from(provider_type, "")
    } else {
        let u = char_upper(provider_type.get_char(0));
        display_name_from(provider_type, u.as_str())
    }
}

/// The settings a first-shape list gives type `t`: those of its last entry
/// for `t`, as a map keeps the last value written.
pub open spec fn legacy_settings(ps: Seq<(String, LegacyProviderSettings)>, t: Seq<char>) -> Option<
    LegacyProviderSettings,
>
    decreases ps.len(),
{
    if ps.len() == 0 {
        None
    } else if ps.last().0@ == t {
        Some(ps.last().1)
    } else {
        legacy_settings(ps.drop_last(), t)
    }
}

/// Whether `p` is the instance migration makes of type `t` with settings `s`:
/// its id and type are `t`, it carries the settings, and it is its type's
/// default.
pub open spec fn migrated_instance(p: ProviderInstance, t: Seq<char>, s: LegacyProviderSettings) -> bool {
    &&& p.id@ == t
    &&& p.provider_type@ == t
    &&& p.name@ == display_name_spec(t)
    &&& p.enabled == s.enabled
    &&& p.api_key == s.api_key
    &&& p.base_url == s.base_url
    &&& p.is_type_default
}

/// Whether `providers` holds exactly the instances migration makes of `ps`.
pub open spec fn migrated_providers(
    providers: Map<Seq<char>, ProviderInstance>,
    ps: Seq<(String, LegacyProviderSettings)>,
) -> bool {
    forall|t: Seq<char>|
        #![trigger providers.contains_key(t)]
        #![trigger legacy_settings(ps, t)]
        (providers.contains_key(t) <==> legacy_settings(ps, t).is_some()) && (providers.contains_key(t)
            ==> migrated_instance(providers[t], t, legacy_settings(ps, t)->Some_0))
}

impl LegacyProviderSettings {
    /// A copy of these settings.
    pub fn duplicate(&self) -> (r: LegacyProviderSettings)
        ensures
            r == *self,
    {
        LegacyProviderSettings {
            enabled: self.enabled,
            api_key: clone_opt(&self.api_key),
            base_url: clone_opt(&self.base_url),
        }
    }
}

impl LlmConfig {
    /// Migrates a first-shape configuration: each legacy type becomes one
    /// instance whose id is the type, marked as its type's default; the
    /// default model is kept, and the global default provider is the default
    /// model's provider prefix when that type was configured.
    pub fn migrate_from_legacy(legacy: LegacyLlmConfig) -> (r: LlmConfig)
        ensures
            r.wf(),
            r.version == 2,
            r.default_model == legacy.default_model,
            r.models@.len() == 0,
            migrated_providers(r.providers@, legacy.providers@),
            opt_view(r.default_provider) == (match legacy.default_model {
                Some(m) => if legacy_settings(legacy.providers@, before_colon(m@)).is_some() {
                    Some(before_colon(m@))
                } else {
                    None
                },
                None => None,
            }),
    {
        let ps = &legacy.providers;
        let mut providers: KeyedList<ProviderInstance> = KeyedList::new();
        let n = ps.len();
        let mut i: usize = 0;
        while i < n
            invariant
                n == ps@.len(),
                i <= n,
                providers.wf(),
                migrated_providers(providers@, ps@.subrange(0, i as int)),
            decreases n - i,
        {
            let t = &ps[i].0;
            let st = ps[i].1.duplicate();
            let inst = ProviderInstance {
                id: t.clone(),
                provider_type: t.clone(),
                name: get_provider_display_name(t.as_str()),
                enabled: st.enabled,
                api_key: st.api_key,
                base_url: st.base_url,
                is_type_default: true,
            };
            let ghost before = providers@;
            providers.insert(t.clone(), inst);
            proof {
                let pre = ps@.subrange(0, i as int + 1);
                assert(pre.drop_last() =~= ps@.subrange(0, i as int));
                assert(pre.last() == ps@[i as int]);
                assert forall|q: Seq<char>|
                    #![trigger providers@.contains_key(q)]
                    #![trigger legacy_settings(pre, q)]
                    (providers@.contains_key(q) <==> legacy_settings(pre, q).is_some()) && (
                    providers@.contains_key(q) ==> migrated_instance(
                        providers@[q],
                        q,
                        legacy_settings(pre, q)->Some_0,
                    )) by {
                    if q != t@ {
                        assert(legacy_settings(pre, q) == legacy_settings(ps@.subrange(0, i as int), q));
                        assert(before.contains_key(q) == providers@.contains_key(q));
                    }
                }
            }
            i = i + 1;
        }
        assert(ps@.subrange(0, n as int) =~= ps@);
        let default_provider = match &legacy.default_model {
            Some(m) => {
                let prefix = prefix_before_colon(m.as_str());
                if providers.contains(prefix.as_str()) {
                    Some(prefix)
                } else {
                    None
                }
            },
            None => None,
        };
        LlmConfig {
            version: 2,
            default_model: legacy.default_model,
            default_provider,
            providers,
            models: Vec::new(),
        }
    }
}

/// The `k`-th name tried for a new alias with base name `base`: the base
/// itself, then `base-2`, `base-3` and so on.
pub open spec fn candidate(base: Seq<char>, k: nat) -> Seq<char> {
    if k <= 1 {
        base
    } else {
        base + "-"@ + decimal_spec(k)
    }
}

/// The base name of a new alias: the given name, or else the second
/// `:`-separated part of the model id, or else the whole model id.
pub open spec fn alias_base(model_id: Seq<char>, name: Option<Seq<char>>) -> Seq<char> {
    match name {
        Some(n) => n,
        None => match after_colon(model_id) {
            Some(rest) => before_colon(rest),
            None => model_id,
        },
    }
}

/// Whether `r` is the first candidate, in order, that no alias of `models`
/// has taken.
pub open spec fn first_free(models: Seq<ModelAlias>, base: Seq<char>, r: Seq<char>) -> bool {
    exists|k: nat|
        k >= 1 && r == candidate(base, k) && !has_name(models, candidate(base, k)) && forall|j: nat|
            1 <= j < k ==> has_name(models, #[trigger] candidate(base, j))
}

proof fn lemma_candidate_injective(base: Seq<char>, a: nat, b: nat)
    requires
        a >= 1,
        b >= 1,
        candidate(base, a) == candidate(base, b),
    ensures
        a == b,
{
    reveal_strlit("-");
    if a >= 2 && b >= 2 {
        let ca = candidate(base, a);
        let cb = candidate(base, b);
        let off = base.len() + 1;
        assert(ca.subrange(off as int, ca.len() as int) =~= decimal_spec(a));
        assert(cb.subrange(off as int, cb.len() as int) =~= decimal_spec(b));
        lemma_decimal_injective(a, b);
    } else if a >= 2 {
        assert(candidate(base, a).len() > base.len());
    } else if b >= 2 {
        assert(candidate(base, b).len() > base.len());
    }
}

/// At most as many candidates can be taken as there are aliases.
proof fn lemma_taken_bound(models: Seq<ModelAlias>, base: Seq<char>, k: nat)
    requires
        forall|j: nat| 1 <= j <= k ==> has_name(models, #[trigger] candidate(base, j)),
    ensures
        k <= models.len(),
{
    let x = set_int_range(1, (k + 1) as int);
    let f = |j: int|
        choose|i: int| 0 <= i < models.len() && models[i].name@ == candidate(base, j as nat);
    lemma_int_range(1, (k + 1) as int);
    lemma_int_range(0, models.len() as int);
    assert forall|j: int| x.contains(j) implies 0 <= #[trigger] f(j) < models.len() && models[f(j)].name@
        == candidate(base, j as nat) by {
        assert(has_name(models, candidate(base, j as nat)));
    }
    assert forall|a: int, b: int| x.contains(a) && x.contains(b) && #[trigger] f(a) == #[trigger] f(b)
        implies a == b by {
        lemma_candidate_injective(base, a as nat, b as nat);
    }
    let y = x.map(f);
    lemma_map_size(x, y, f);
    assert(y.subset_of(set_int_range(0, models.len() as int)));
    lemma_len_subset(y, set_int_range(0, models.len() as int));
}

fn has_alias(models: &Vec<ModelAlias>, name: &String) -> (r: bool)
    ensures
        r == has_name(models@, name@),
{
    let mut i: usize = 0;
    while i < models.len()
        invariant
            i <= models@.len(),
            forall|j: int| 0 <= j < i ==> models@[j].name@ != name@,
        decreases models@.len() - i,
    {
        if models[i].name == *name {
            return true;
        }
        i = i + 1;
    }
    false
}

impl LlmConfig {
    /// Adds an alias for `model_id` and returns its name: the first of the
    /// base name, `base-2`, `base-3`, ... that no alias has. The first alias
    /// becomes the default.
    pub fn add_model(&mut self, model_id: &str, name: Option<&str>) -> (r: String)
        requires
            old(self).models@.len() < u64::MAX,
        ensures
            first_free(old(self).models@, alias_base(model_id@, opt_str_view(name)), r@),
            final(self).models@.len() == old(self).models@.len() + 1,
            final(self).models@.drop_last() == old(self).models@,
            final(self).models@.last().name == r,
            final(self).models@.last().model_id@ == model_id@,
            final(self).models@.last().is_default == (old(self).models@.len() == 0),
            final(self).providers == old(self).providers,
            final(self).default_provider == old(self).default_provider,
            final(self).default_model == old(self).default_model,
            final(self).version == old(self).version,
    {
        let base = match name {
            Some(n) => n.to_owned(),
            None => match suffix_after_colon(model_id) {
                Some(rest) => prefix_before_colon(rest.as_str()),
                None => model_id.to_owned(),
            },
        };
        let ghost b = base@;
        let mut chosen = base.clone();
        let mut suffix: u64 = 1;
        while has_alias(&self.models, &chosen)
            invariant
                b == base@,
                1 <= suffix <= self.models@.len() + 1,
                self.models@.len() < u64::MAX,
                chosen@ == candidate(b, suffix as nat),
                forall|j: nat| 1 <= j < suffix ==> has_name(self.models@, #[trigger] candidate(b, j)),
            decreases self.models@.len() + 1 - suffix,
        {
            proof {
                assert forall|j: nat| 1 <= j <= suffix implies has_name(self.models@, #[trigger] candidate(b, j)) by {
                    if j == suffix {
                    }
                }
                lemma_taken_bound(self.models@, b, suffix as nat);
            }
            suffix = suffix + 1;
            let mut next = base.clone();
            next.append("-");
            let d = decimal(suffix);
            next.append(d.as_str());
            chosen = next;
        }
        let is_default = self.models.len() == 0;
        let ghost before = self.models@;
        self.models.push(ModelAlias { name: chosen.clone(), model_id: model_id.to_owned(), is_default });
        assert(self.models@.drop_last() =~= before);
        chosen
    }
}

/// The view of an optional string slice.
pub open spec fn opt_str_view(o: Option<&str>) -> Option<Seq<char>> {
    match o {
        Some(s) => Some(s@),
        None => None,
    }
}

/// A request to change or create a provider instance.
#[derive(Debug)]
pub struct ProviderUpdate {
    /// The instance to change, by id.
    pub id: Option<String>,
    /// The provider type, when no id is given.
    pub provider_type: Option<String>,
    pub name: Option<String>,
    pub api_key: Option<String>,
    pub base_url: Option<String>,
    /// Whether the request carried a `base_url` field at all (it may be
    /// null, which clears the URL).
    pub base_url_present: bool,
    pub enabled: bool,
}

/// An instance after an update: given fields replace the old ones, and the
/// enabled flag is always taken from the update.
pub open spec fn updated(p: ProviderInstance, u: ProviderUpdate) -> ProviderInstance {
    ProviderInstance {
        name: if u.name.is_some() {
            u.name->Some_0
        } else {
            p.name
        },
        api_key: if u.api_key.is_some() {
            u.api_key
        } else {
            p.api_key
        },
        base_url: if u.base_url.is_some() || u.base_url_present {
            u.base_url
        } else {
            p.base_url
        },
        enabled: u.enabled,
        ..p
    }
}

pub open spec fn instance_not_found_msg(id: Seq<char>) -> Seq<char> {
    "Provider instance '"@ + id + "' not found"@
}

pub open spec fn missing_provider_msg() -> Seq<char> {
    "Missing 'provider' or 'id' parameter"@
}

/// The error for an instance id that is not configured.
pub fn instance_not_found(id: &str) -> (r: RpcError)
    ensures
        r.code == INVALID_PARAMS,
        r.message@ == instance_not_found_msg(id@),
{
    let mut m = String::from_str("Provider instance '");
    m.append(id);
    m.append("' not found");
    RpcError::new(INVALID_PARAMS, m)
}

fn apply_update(p: &ProviderInstance, u: &ProviderUpdate) -> (r: ProviderInstance)
    ensures
        r == updated(*p, *u),
{
    let mut q = p.duplicate();
    if u.name.is_some() {
        q.name = match &u.name {
            Some(n) => n.clone(),
            None => q.name,
        };
    }
    if u.api_key.is_some() {
        q.api_key = clone_opt(&u.api_key);
    }
    if u.base_url.is_some() || u.base_url_present {
        q.base_url = clone_opt(&u.base_url);
    }
    q.enabled = u.enabled;
    q
}

impl LlmConfig {
    fn update_at(&mut self, i: usize, u: &ProviderUpdate)
        requires
            old(self).wf(),
            i < old(self).providers.entries@.len(),
        ensures
            final(self).wf(),
            final(self).providers.entries@ == old(self).providers.entries@.update(
                i as int,
                (old(self).providers.entries@[i as int].0, updated(old(self).providers.entries@[i as int].1, *u)),
            ),
            final(self).default_provider == old(self).default_provider,
            final(self).default_model == old(self).default_model,
            final(self).models == old(self).models,
            final(self).version == old(self).version,
    {
        let key = self.providers.entries[i].0.clone();
        let p = apply_update(&self.providers.entries[i].1, u);
        let ghost before = self.providers.entries@;
        self.providers.entries.set(i, (key, p));
        proof {
            assert forall|a: int, b: int|
                0 <= a < before.len() && 0 <= b < before.len() && a != b
                implies self.providers.entries@[a].0@ != self.providers.entries@[b].0@ by {
                assert(self.providers.entries@[a].0 == before[a].0);
                assert(self.providers.entries@[b].0 == before[b].0);
            }
        }
    }

    /// The position of the only instance of type `t`, when there is exactly
    /// one.
    fn single_of_type(&self, t: &str) -> (r: Option<usize>)
        ensures
            match r {
                Some(i) => i < self.providers.entries@.len() && self.instances_of(t@).len() == 1
                    && self.providers.entries@[i as int].1 == self.instances_of(t@)[0],
                None => self.instances_of(t@).len() != 1,
            },
    {
        if self.get_instances_by_type(t).len() != 1 {
            return None;
        }
        let key = t.to_owned();
        let n = self.providers.entries.len();
        let mut i: usize = 0;
        while i < n
            invariant
                n == self.providers.entries@.len(),
                key@ == t@,
                i <= n,
                self.instances_of(t@).len() == 1,
                of_type(self.providers.entries@.subrange(0, i as int), t@).len() == 0,
            decreases n - i,
        {
            proof {
                let pre = self.providers.entries@.subrange(0, i as int + 1);
                assert(pre.drop_last() =~= self.providers.entries@.subrange(0, i as int));
            }
            if self.providers.entries[i].1.provider_type == key {
                proof {
                    lemma_of_type_prefix(self.providers.entries@, t@, i as int + 1);
                }
                return Some(i);
            }
            i = i + 1;
        }
        assert(self.providers.entries@.subrange(0, n as int) =~= self.providers.entries@);
        None
    }

    /// Changes or creates a provider instance. With an id, that instance is
    /// updated (an unknown id is an error). With only a type, the type's only
    /// instance is updated when it has exactly one; otherwise a new instance
    /// of that type is added, named as asked or after its type.
    pub fn configure_provider(&mut self, u: ProviderUpdate) -> (r: Result<String, RpcError>)
        requires
            old(self).wf(),
        ensures
            final(self).wf(),
            final(self).default_model == old(self).default_model,
            final(self).models == old(self).models,
            final(self).version == old(self).version,
            match u.id {
                Some(id) => if old(self).providers@.contains_key(id@) {
                    let i = old(self).providers.pos(id@);
                    &&& r matches Ok(rid) && rid@ == id@
                    &&& final(self).providers.entries@ == old(self).providers.entries@.update(
                        i,
                        (old(self).providers.entries@[i].0, updated(old(self).providers.entries@[i].1, u)),
                    )
                    &&& final(self).default_provider == old(self).default_provider
                } else {
                    &&& r matches Err(e) && e.code == INVALID_PARAMS && e.message@ == instance_not_found_msg(id@)
                    &&& *final(self) == *old(self)
                },
                None => match u.provider_type {
                    None => {
                        &&& r matches Err(e) && e.code == INVALID_PARAMS && e.message@ == missing_provider_msg()
                        &&& *final(self) == *old(self)
                    },
                    Some(t) => if old(self).instances_of(t@).len() == 1 {
                        exists|i: int|
                            0 <= i < old(self).providers.entries@.len() && old(self).providers.entries@[i].1
                                == old(self).instances_of(t@)[0] && (r matches Ok(rid) && rid
                                == old(self).instances_of(t@)[0].id) && final(self).providers.entries@
                                == old(self).providers.entries@.update(
                                i,
                                (old(self).providers.entries@[i].0, updated(old(self).providers.entries@[i].1, u)),
                            ) && final(self).default_provider == old(self).default_provider
                    } else {
                        exists|p: ProviderInstance|
                            r == Ok::<String, RpcError>(p.id) && p.provider_type@ == t@ && p.name@ == (match u.name {
                                Some(n) => n@,
                                None => display_name_spec(t@),
                            }) && p.api_key == u.api_key && p.base_url == u.base_url && p.enabled == u.enabled
                                && !p.is_type_default && (exists|m: nat|
                                m < 16777216 && p.id@ == t@ + "-"@ + hex_spec(m)) && final(self).providers@
                                == old(self).providers@.insert(
                                p.id@,
                                marked(p, old(self).instances_of(t@).len() == 0),
                            ) && final(self).default_provider == (match old(self).default_provider {
                                Some(d) => Some(d),
                                None => Some(p.id),
                            })
                    },
                },
            },
    {
        match &u.id {
            Some(id) => match self.providers.find(id.as_str()) {
                Some(i) => {
                    self.update_at(i, &u);
                    Ok(id.clone())
                },
                None => Err(instance_not_found(id.as_str())),
            },
            None => match &u.provider_type {
                None => Err(RpcError::new(INVALID_PARAMS, String::from_str("Missing 'provider' or 'id' parameter"))),
                Some(t) => match self.single_of_type(t.as_str()) {
                    Some(i) => {
                        let rid = self.providers.entries[i].1.id.clone();
                        self.update_at(i, &u);
                        Ok(rid)
                    },
                    None => {
                        let display = match &u.name {
                            Some(n) => n.clone(),
                            None => get_provider_display_name(t.as_str()),
                        };
                        let mut inst = ProviderInstance::new(t.as_str(), display.as_str());
                        inst.api_key = u.api_key;
                        inst.base_url = u.base_url;
                        inst.enabled = u.enabled;
                        let ghost p = inst;
                        let rid = self.add_instance(inst);
                        assert(rid == p.id);
                        Ok(rid)
                    },
                },
            },
        }
    }
}

/// Instances of a type found in a prefix are found in the whole list, in the
/// same places.
proof fn lemma_of_type_prefix(e: Seq<(String, ProviderInstance)>, t: Seq<char>, k: int)
    requires
        0 <= k <= e.len(),
    ensures
        of_type(e.subrange(0, k), t).len() <= of_type(e, t).len(),
        forall|j: int| 0 <= j < of_type(e.subrange(0, k), t).len() ==> of_type(e.subrange(0, k), t)[j]
            == of_type(e, t)[j],
    decreases e.len() - k,
{
    if k < e.len() {
        lemma_of_type_prefix(e, t, k + 1);
        let pre = e.subrange(0, k + 1);
        assert(pre.drop_last() =~= e.subrange(0, k));
    } else {
        assert(e.subrange(0, k) =~= e);
    }
}

} // verus!
