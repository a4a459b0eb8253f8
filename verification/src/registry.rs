//! The provider registry: an immutable, populated-at-startup mapping from
//! provider and model identifiers to provider descriptors.  It resolves a
//! user-supplied or default model string to a concrete backend and supports
//! the listing collaborator.

use vstd::prelude::*;

verus! {

/// Closed tag naming one supported backend vendor.
#[derive(Clone, Copy, PartialEq, Eq, Structural, Debug, Hash)]
pub enum ProviderId {
    OpenAi,
    Anthropic,
    Google,
}

/// What the configuration loader hands over for one backend: whether the
/// user enabled it, the credential it authenticates with, and the models it
/// serves.  The core treats this as an opaque validated value; it never
/// parses configuration files itself.
pub struct ProviderConfig {
    pub id: ProviderId,
    pub display_name: String,
    pub enabled: bool,
    pub credential: Option<String>,
    pub models: Vec<String>,
}

/// Static metadata for one backend: identifier, human name and the ordered
/// set of model identifiers it serves.  Created once during registry
/// population and immutable thereafter.
pub struct ProviderDescriptor {
    pub id: ProviderId,
    pub display_name: String,
    pub models: Vec<String>,
}

/// The registry itself: descriptors in registration order.  Built once per
/// process by `populate`; never mutated after population.
pub struct Registry {
    providers: Vec<ProviderDescriptor>,
}

impl View for Registry {
    type V = Seq<ProviderDescriptor>;

    closed spec fn view(&self) -> Seq<ProviderDescriptor> {
        self.providers@
    }
}

/// The only way provider construction can fail: a provider was enabled
/// without the credential it needs, or the same identifier was registered
/// twice.  After population the registry is infallible to read.
#[derive(PartialEq, Eq, Structural, Debug)]
pub enum RegistryError {
    MissingCredentials { provider: ProviderId },
    DuplicateProvider { provider: ProviderId },
}

/// One successful resolution: the provider that serves the model, and the
/// model identifier itself.
#[derive(Debug)]
pub struct Resolution {
    pub provider: ProviderId,
    pub model: String,
}

/// Resolution failure: no provider serves the requested model (or nothing
/// was requested at all).  Carries the requested string and, for error
/// context, every model the registry knows.
#[derive(Debug)]
pub struct UnknownModelError {
    pub requested: Option<String>,
    pub known: Vec<String>,
}

/// The request that resolution actually pursues: the explicitly requested
/// model if one was given, otherwise the configured default, otherwise
/// nothing.
pub open spec fn effective_request(requested: Option<&String>, default: Option<&String>) -> Option<
    Seq<char>,
> {
    match requested {
        Some(s) => Some(s@),
        None => match default {
            Some(d) => Some(d@),
            None => None,
        },
    }
}

/// A successful resolution of the effective request `eff`: some provider
/// serves it, the first registered such provider is the one returned, and
/// the returned model identifier is the request itself.
pub open spec fn resolution_ok(
    provs: Seq<ProviderDescriptor>,
    eff: Option<Seq<char>>,
    res: Resolution,
) -> bool {
    &&& eff is Some
    &&& first_provider_with(provs, eff->0) is Some
    &&& res.provider == provs[first_provider_with(provs, eff->0)->0].id
    &&& res.model@ == eff->0
}

/// A failed resolution: the effective request, if any, is served by no
/// provider; the error names the request and lists every known model.
pub open spec fn resolution_err(
    provs: Seq<ProviderDescriptor>,
    eff: Option<Seq<char>>,
    e: UnknownModelError,
) -> bool {
    &&& (eff is Some ==> first_provider_with(provs, eff->0) is None)
    &&& (match e.requested {
        Some(s) => eff is Some && s@ == eff->0,
        None => eff is None,
    })
    &&& e.known@.map_values(|s: String| s@) == all_models(provs)
}

/// The descriptor serves the model `m`.
pub open spec fn has_model(d: ProviderDescriptor, m: Seq<char>) -> bool {
    exists|i: int| 0 <= i < d.models@.len() && d.models@[i]@ == m
}

/// Index of the first registered provider serving `m`, if any: the
/// documented first-registered-wins disambiguation order.
pub open spec fn first_provider_with(provs: Seq<ProviderDescriptor>, m: Seq<char>) -> Option<int>
    decreases provs.len(),
{
    if provs.len() == 0 {
        None
    } else if has_model(provs[0], m) {
        Some(0)
    } else {
        match first_provider_with(provs.drop_first(), m) {
            Some(i) => Some(i + 1),
            None => None,
        }
    }
}

/// Every model of every provider, in registration order.
pub open spec fn all_models(provs: Seq<ProviderDescriptor>) -> Seq<Seq<char>>
    decreases provs.len(),
{
    if provs.len() == 0 {
        Seq::empty()
    } else {
        provs[0].models@.map_values(|s: String| s@) + all_models(provs.drop_first())
    }
}

/// The descriptor that population builds from one enabled config entry.
pub open spec fn descriptor_of(c: ProviderConfig) -> ProviderDescriptor {
    ProviderDescriptor { id: c.id, display_name: c.display_name, models: c.models }
}

/// Some already-registered descriptor carries the identifier `id`.
pub open spec fn contains_id(provs: Seq<ProviderDescriptor>, id: ProviderId) -> bool {
    exists|i: int| 0 <= i < provs.len() && provs[i].id == id
}

/// What population yields: configuration entries are taken in order; a
/// disabled entry is skipped; an enabled entry without a credential stops
/// population with `MissingCredentials`; an enabled entry whose identifier
/// was already registered stops it with `DuplicateProvider`; otherwise its
/// descriptor is appended.
pub open spec fn spec_populate(cfgs: Seq<ProviderConfig>, acc: Seq<ProviderDescriptor>) -> Result<
    Seq<ProviderDescriptor>,
    RegistryError,
>
    decreases cfgs.len(),
{
    if cfgs.len() == 0 {
        Ok(acc)
    } else if !cfgs[0].enabled {
        spec_populate(cfgs.drop_first(), acc)
    } else if cfgs[0].credential is None {
        Err(RegistryError::MissingCredentials { provider: cfgs[0].id })
    } else if contains_id(acc, cfgs[0].id) {
        Err(RegistryError::DuplicateProvider { provider: cfgs[0].id })
    } else {
        spec_populate(cfgs.drop_first(), acc.push(descriptor_of(cfgs[0])))
    }
}

/// Build the registry from the configuration's provider entries.  This is
/// the only point at which provider construction can fail.
///
/// Relied-on behaviour is pinned by `spec_populate`: enabled entries become
/// descriptors in registration order; an enabled entry missing credentials
/// or repeating an identifier aborts with the corresponding error.
pub fn populate(cfgs: Vec<ProviderConfig>) -> (r: Result<Registry, RegistryError>)
    ensures
        match r {
            Ok(reg) => spec_populate(cfgs@, Seq::empty()) == Ok::<_, RegistryError>(reg@),
            Err(e) => spec_populate(cfgs@, Seq::empty()) == Err::<Seq<ProviderDescriptor>, _>(e),
        },
{
    let mut remaining = cfgs;
    let mut built: Vec<ProviderDescriptor> = Vec::new();
    loop
        invariant
            spec_populate(cfgs@, Seq::empty()) == spec_populate(remaining@, built@),
        decreases remaining@.len(),
    {
        if remaining.len() == 0 {
            return Ok(Registry { providers: built });
        }
        let ghost rem0 = remaining@;
        let ghost built0 = built@;
        let c = remaining.remove(0);
        let ghost c0 = c;
        proof {
            assert(remaining@ =~= rem0.drop_first());
            assert(rem0[0] == c0);
        }
        if c.enabled {
            if c.credential.is_none() {
                proof {
                    assert(spec_populate(rem0, built0) == Err::<
                        Seq<ProviderDescriptor>,
                        RegistryError,
                    >(RegistryError::MissingCredentials { provider: c0.id }));
                }
                return Err(RegistryError::MissingCredentials { provider: c.id });
            }
            let mut duplicate = false;
            let mut i: usize = 0;
            while i < built.len()
                invariant
                    0 <= i <= built@.len(),
                    duplicate <==> exists|j: int| 0 <= j < i && built@[j].id == c.id,
                decreases built@.len() - i,
            {
                if built[i].id == c.id {
                    duplicate = true;
                }
                i = i + 1;
            }
            if duplicate {
                proof {
                    assert(contains_id(built0, c0.id));
                    assert(spec_populate(rem0, built0) == Err::<
                        Seq<ProviderDescriptor>,
                        RegistryError,
                    >(RegistryError::DuplicateProvider { provider: c0.id }));
                }
                return Err(RegistryError::DuplicateProvider { provider: c.id });
            }
            built.push(
                ProviderDescriptor { id: c.id, display_name: c.display_name, models: c.models },
            );
            proof {
                assert(!contains_id(built0, c0.id));
                assert(built@ =~= built0.push(descriptor_of(c0)));
                assert(spec_populate(rem0, built0) == spec_populate(
                    rem0.drop_first(),
                    built0.push(descriptor_of(c0)),
                ));
            }
        } else {
            proof {
                assert(spec_populate(rem0, built0) == spec_populate(rem0.drop_first(), built0));
            }
        }
    }
}

/// Does a provider identifier pass the optional listing filter?
pub open spec fn passes_filter(id: ProviderId, filter: Option<ProviderId>) -> bool {
    match filter {
        None => true,
        Some(f) => id == f,
    }
}

/// The listing rows one descriptor contributes: its models in order, each
/// paired with its identifier.
pub open spec fn provider_listing(d: ProviderDescriptor) -> Seq<(ProviderId, Seq<char>)> {
    d.models@.map_values(|s: String| (d.id, s@))
}

/// The full listing in registration order, restricted by the filter.
pub open spec fn listing_of(provs: Seq<ProviderDescriptor>, filter: Option<ProviderId>) -> Seq<
    (ProviderId, Seq<char>),
>
    decreases provs.len(),
{
    if provs.len() == 0 {
        Seq::empty()
    } else if passes_filter(provs[0].id, filter) {
        provider_listing(provs[0]) + listing_of(provs.drop_first(), filter)
    } else {
        listing_of(provs.drop_first(), filter)
    }
}

/// One row of the model listing handed to the output collaborator.
pub struct ModelListing {
    pub provider: ProviderId,
    pub model: String,
}

impl Registry {
    /// The descriptors in registration order, for the listing collaborator.
    pub fn descriptors(&self) -> (v: &Vec<ProviderDescriptor>)
        ensures
            v@ == self@,
    {
        &self.providers
    }

    /// All models offered by providers from position `p` on, flattened in
    /// registration order.
    fn models_from(&self, p: usize) -> (out: Vec<String>)
        requires
            p <= self@.len(),
        ensures
            out@.map_values(|s: String| s@) == all_models(self@.skip(p as int)),
        decreases self@.len() - p,
    {
        if p == self.providers.len() {
            let out: Vec<String> = Vec::new();
            proof {
                assert(out@.map_values(|s: String| s@) =~= all_models(self@.skip(p as int)));
            }
            out
        } else {
            let d = &self.providers[p];
            let mut out: Vec<String> = Vec::new();
            let mut j: usize = 0;
            while j < d.models.len()
                invariant
                    j <= d.models@.len(),
                    out@ =~= d.models@.take(j as int),
                decreases d.models@.len() - j,
            {
                out.push(d.models[j].clone());
                proof {
                    assert(out@ =~= d.models@.take(j as int + 1));
                }
                j = j + 1;
            }
            let mut rest = self.models_from(p + 1);
            proof {
                assert(out@ =~= d.models@);
            }
            out.append(&mut rest);
            proof {
                assert(self@.skip(p as int).drop_first() =~= self@.skip(p as int + 1));
                assert(self@.skip(p as int)[0] == self@[p as int]);
                assert(out@.map_values(|s: String| s@) =~= all_models(self@.skip(p as int)));
            }
            out
        }
    }

    /// Every model the registry knows, in registration order; the context a
    /// resolution failure reports.
    pub fn known_models(&self) -> (out: Vec<String>)
        ensures
            out@.map_values(|s: String| s@) == all_models(self@),
    {
        let out = self.models_from(0);
        proof {
            assert(self@.skip(0) =~= self@);
        }
        out
    }

    /// Index of the first provider at or after `p` that serves `m`.
    fn find_from(&self, p: usize, m: &String) -> (r: Option<usize>)
        requires
            p <= self@.len(),
        ensures
            match r {
                Some(i) => p <= i < self@.len() && first_provider_with(
                    self@.skip(p as int),
                    m@,
                ) == Some(i - p),
                None => first_provider_with(self@.skip(p as int), m@) is None,
            },
        decreases self@.len() - p,
    {
        if p == self.providers.len() {
            None
        } else {
            let d = &self.providers[p];
            let mut found = false;
            let mut j: usize = 0;
            while j < d.models.len()
                invariant
                    j <= d.models@.len(),
                    found <==> exists|k: int| 0 <= k < j && d.models@[k]@ == m@,
                decreases d.models@.len() - j,
            {
                if d.models[j] == *m {
                    found = true;
                }
                j = j + 1;
            }
            proof {
                assert(found <==> has_model(self@[p as int], m@));
                assert(self@.skip(p as int)[0] == self@[p as int]);
                assert(self@.skip(p as int).drop_first() =~= self@.skip(p as int + 1));
            }
            if found {
                Some(p)
            } else {
                self.find_from(p + 1, m)
            }
        }
    }

    /// Resolve a model request to a backend.  An explicitly requested model
    /// takes precedence over the configured default; whichever applies must
    /// be served by some provider, searched in registration order with the
    /// first registered provider winning; otherwise resolution fails with
    /// `UnknownModelError` carrying the requested string and every known
    /// model.  No provider is ever silently guessed.
    pub fn resolve(&self, requested: Option<&String>, default: Option<&String>) -> (r: Result<
        Resolution,
        UnknownModelError,
    >)
        ensures
            match r {
                Ok(res) => resolution_ok(self@, effective_request(requested, default), res),
                Err(e) => resolution_err(self@, effective_request(requested, default), e),
            },
    {
        let m: &String = match requested {
            Some(s) => s,
            None => match default {
                Some(d) => d,
                None => {
                    return Err(
                        UnknownModelError { requested: None, known: self.known_models() },
                    );
                },
            },
        };
        proof {
            assert(self@.skip(0) =~= self@);
        }
        match self.find_from(0, m) {
            Some(i) => Ok(Resolution { provider: self.providers[i].id, model: m.clone() }),
            None => Err(UnknownModelError { requested: Some(m.clone()), known: self.known_models() }),
        }
    }

    /// Listing rows from position `p` on, restricted by the filter.
    fn listing_from(&self, p: usize, filter: Option<ProviderId>) -> (out: Vec<ModelListing>)
        requires
            p <= self@.len(),
        ensures
            out@.map_values(|l: ModelListing| (l.provider, l.model@)) == listing_of(
                self@.skip(p as int),
                filter,
            ),
        decreases self@.len() - p,
    {
        if p == self.providers.len() {
            let out: Vec<ModelListing> = Vec::new();
            proof {
                assert(out@.map_values(|l: ModelListing| (l.provider, l.model@)) =~= listing_of(
                    self@.skip(p as int),
                    filter,
                ));
            }
            out
        } else {
            let d = &self.providers[p];
            let wanted = match filter {
                None => true,
                Some(f) => f == d.id,
            };
            let mut out: Vec<ModelListing> = Vec::new();
            if wanted {
                let mut j: usize = 0;
                while j < d.models.len()
                    invariant
                        j <= d.models@.len(),
                        out@.len() == j,
                        forall|k: int|
                            0 <= k < j ==> (#[trigger] out@[k]).provider == d.id && out@[k].model
                                == d.models@[k],
                    decreases d.models@.len() - j,
                {
                    let m_j = d.models[j].clone();
                    let ghost prev = out@;
                    out.push(ModelListing { provider: d.id, model: m_j });
                    j = j + 1;
                    proof {
                        assert forall|k: int| 0 <= k < j implies out@[k].provider == d.id
                            && out@[k].model == d.models@[k] by {
                            if k < j - 1 {
                                assert(out@[k] == prev[k]);
                                assert(prev[k].provider == d.id && prev[k].model
                                    == d.models@[k]);
                            } else {
                                assert(out@[k].model == m_j);
                            }
                        }
                    }
                }
                proof {
                    assert(out@.map_values(|l: ModelListing| (l.provider, l.model@))
                        =~= provider_listing(self@[p as int]));
                }
            } else {
                proof {
                    assert(out@.map_values(|l: ModelListing| (l.provider, l.model@))
                        =~= Seq::<(ProviderId, Seq<char>)>::empty());
                }
            }
            let ghost head = out@.map_values(|l: ModelListing| (l.provider, l.model@));
            let mut rest = self.listing_from(p + 1, filter);
            let ghost tail = rest@.map_values(|l: ModelListing| (l.provider, l.model@));
            out.append(&mut rest);
            proof {
                assert(self@.skip(p as int)[0] == self@[p as int]);
                assert(self@.skip(p as int).drop_first() =~= self@.skip(p as int + 1));
                assert(passes_filter(self@[p as int].id, filter) == wanted);
                assert(out@.map_values(|l: ModelListing| (l.provider, l.model@)) =~= head + tail);
                assert(head + tail =~= listing_of(self@.skip(p as int), filter));
            }
            out
        }
    }

    /// Enumerate `(provider, model)` rows for the listing collaborator:
    /// pure, deterministic, in registration order, optionally restricted to
    /// one provider.
    pub fn list(&self, filter: Option<ProviderId>) -> (out: Vec<ModelListing>)
        ensures
            out@.map_values(|l: ModelListing| (l.provider, l.model@)) == listing_of(self@, filter),
    {
        let out = self.listing_from(0, filter);
        proof {
            assert(self@.skip(0) =~= self@);
        }
        out
    }
}

/// Every enabled configuration entry carries a credential.
pub open spec fn enabled_have_credentials(cfgs: Seq<ProviderConfig>) -> bool {
    forall|i: int| 0 <= i < cfgs.len() && cfgs[i].enabled ==> cfgs[i].credential is Some
}

/// No provider identifier is enabled twice.
pub open spec fn enabled_ids_distinct(cfgs: Seq<ProviderConfig>) -> bool {
    forall|i: int, j: int|
        0 <= i < j < cfgs.len() && cfgs[i].enabled && cfgs[j].enabled ==> cfgs[i].id != cfgs[j].id
}

/// No enabled entry repeats an identifier already registered in `acc`.
pub open spec fn enabled_ids_fresh(cfgs: Seq<ProviderConfig>, acc: Seq<ProviderDescriptor>) -> bool {
    forall|i: int| 0 <= i < cfgs.len() && cfgs[i].enabled ==> !contains_id(acc, cfgs[i].id)
}

proof fn lemma_populate_ok_iff_general(cfgs: Seq<ProviderConfig>, acc: Seq<ProviderDescriptor>)
    ensures
        spec_populate(cfgs, acc) is Ok <==> (enabled_have_credentials(cfgs)
            && enabled_ids_distinct(cfgs) && enabled_ids_fresh(cfgs, acc)),
    decreases cfgs.len(),
{
    if cfgs.len() == 0 {
    } else {
        let rest = cfgs.drop_first();
        let c = cfgs[0];
        assert(forall|i: int| 0 <= i < rest.len() ==> rest[i] == cfgs[i + 1]);
        if !c.enabled {
            lemma_populate_ok_iff_general(rest, acc);
            assert(enabled_have_credentials(cfgs) <==> enabled_have_credentials(rest)) by {
                if enabled_have_credentials(rest) {
                    assert forall|i: int|
                        0 <= i < cfgs.len() && cfgs[i].enabled implies cfgs[i].credential
                        is Some by {
                        assert(i >= 1);
                        assert(rest[i - 1] == cfgs[i]);
                    }
                }
            }
            assert(enabled_ids_distinct(cfgs) <==> enabled_ids_distinct(rest)) by {
                if enabled_ids_distinct(rest) {
                    assert forall|i: int, j: int|
                        0 <= i < j < cfgs.len() && cfgs[i].enabled && cfgs[j].enabled implies cfgs[i].id
                        != cfgs[j].id by {
                        assert(i >= 1);
                        assert(rest[i - 1] == cfgs[i] && rest[j - 1] == cfgs[j]);
                    }
                }
            }
            assert(enabled_ids_fresh(cfgs, acc) <==> enabled_ids_fresh(rest, acc)) by {
                if enabled_ids_fresh(rest, acc) {
                    assert forall|i: int|
                        0 <= i < cfgs.len() && cfgs[i].enabled implies !contains_id(
                        acc,
                        cfgs[i].id,
                    ) by {
                        assert(i >= 1);
                        assert(rest[i - 1] == cfgs[i]);
                    }
                }
            }
        } else if c.credential is None {
            assert(!enabled_have_credentials(cfgs));
        } else if contains_id(acc, c.id) {
            assert(!enabled_ids_fresh(cfgs, acc));
        } else {
            let pushed = acc.push(descriptor_of(c));
            lemma_populate_ok_iff_general(rest, pushed);
            assert(forall|x: ProviderId|
                contains_id(pushed, x) <==> contains_id(acc, x) || x == c.id) by {
                assert(forall|i: int| 0 <= i < acc.len() ==> pushed[i] == acc[i]);
                assert(pushed[acc.len() as int].id == c.id);
            }
            assert((enabled_have_credentials(rest) && enabled_ids_distinct(rest)
                && enabled_ids_fresh(rest, pushed)) <==> (enabled_have_credentials(cfgs)
                && enabled_ids_distinct(cfgs) && enabled_ids_fresh(cfgs, acc))) by {
                if enabled_have_credentials(rest) && enabled_ids_distinct(rest)
                    && enabled_ids_fresh(rest, pushed) {
                    assert forall|i: int|
                        0 <= i < cfgs.len() && cfgs[i].enabled implies cfgs[i].credential
                        is Some by {
                        if i >= 1 {
                            assert(rest[i - 1] == cfgs[i]);
                        }
                    }
                    assert forall|i: int, j: int|
                        0 <= i < j < cfgs.len() && cfgs[i].enabled && cfgs[j].enabled implies cfgs[i].id
                        != cfgs[j].id by {
                        if i == 0 {
                            assert(rest[j - 1] == cfgs[j]);
                            assert(!contains_id(pushed, cfgs[j].id));
                        } else {
                            assert(rest[i - 1] == cfgs[i] && rest[j - 1] == cfgs[j]);
                        }
                    }
                    assert forall|i: int|
                        0 <= i < cfgs.len() && cfgs[i].enabled implies !contains_id(
                        acc,
                        cfgs[i].id,
                    ) by {
                        if i > 0 {
                            assert(rest[i - 1] == cfgs[i]);
                            assert(!contains_id(pushed, cfgs[i].id));
                        }
                    }
                }
                if enabled_have_credentials(cfgs) && enabled_ids_distinct(cfgs)
                    && enabled_ids_fresh(cfgs, acc) {
                    assert forall|i: int|
                        0 <= i < rest.len() && rest[i].enabled implies rest[i].credential
                        is Some by {
                        assert(rest[i] == cfgs[i + 1]);
                    }
                    assert forall|i: int, j: int|
                        0 <= i < j < rest.len() && rest[i].enabled && rest[j].enabled implies rest[i].id
                        != rest[j].id by {
                        assert(rest[i] == cfgs[i + 1] && rest[j] == cfgs[j + 1]);
                    }
                    assert forall|i: int|
                        0 <= i < rest.len() && rest[i].enabled implies !contains_id(
                        pushed,
                        rest[i].id,
                    ) by {
                        assert(rest[i] == cfgs[i + 1]);
                        assert(!contains_id(acc, cfgs[i + 1].id));
                        assert(cfgs[i + 1].id != c.id);
                    }
                }
            }
        }
    }
}

/// Law: population succeeds exactly when every enabled provider has a
/// credential and no provider identifier is enabled twice; on any other
/// configuration it fails with the corresponding error.
pub proof fn lemma_populate_ok_iff(cfgs: Seq<ProviderConfig>)
    ensures
        spec_populate(cfgs, Seq::empty()) is Ok <==> (enabled_have_credentials(cfgs)
            && enabled_ids_distinct(cfgs)),
{
    lemma_populate_ok_iff_general(cfgs, Seq::empty());
}

/// Law: a populated registry maps every provider identifier to exactly one
/// descriptor — population never registers two descriptors with the same
/// identifier.
pub proof fn lemma_populate_unique_ids(
    cfgs: Seq<ProviderConfig>,
    acc: Seq<ProviderDescriptor>,
    out: Seq<ProviderDescriptor>,
)
    requires
        spec_populate(cfgs, acc) == Ok::<Seq<ProviderDescriptor>, RegistryError>(out),
        forall|i: int, j: int| 0 <= i < j < acc.len() ==> acc[i].id != acc[j].id,
    ensures
        forall|i: int, j: int| 0 <= i < j < out.len() ==> out[i].id != out[j].id,
    decreases cfgs.len(),
{
    if cfgs.len() == 0 {
    } else if !cfgs[0].enabled {
        lemma_populate_unique_ids(cfgs.drop_first(), acc, out);
    } else {
        let pushed = acc.push(descriptor_of(cfgs[0]));
        assert(!contains_id(acc, cfgs[0].id));
        assert forall|i: int, j: int| 0 <= i < j < pushed.len() implies pushed[i].id
            != pushed[j].id by {
            if j == pushed.len() - 1 {
                assert(pushed[i] == acc[i]);
                assert(!(acc[i].id == cfgs[0].id));
            }
        }
        lemma_populate_unique_ids(cfgs.drop_first(), pushed, out);
    }
}

/// Law: a model identifier served by exactly one provider of a populated
/// registry resolves to exactly that provider — first-registered-wins
/// degenerates to the unique owner when there is no ambiguity.
pub proof fn lemma_resolve_unique(provs: Seq<ProviderDescriptor>, m: Seq<char>, i: int)
    requires
        0 <= i < provs.len(),
        has_model(provs[i], m),
        forall|j: int| 0 <= j < provs.len() && j != i ==> !has_model(provs[j], m),
    ensures
        first_provider_with(provs, m) == Some(i),
    decreases provs.len(),
{
    if i == 0 {
    } else {
        assert(!has_model(provs[0], m));
        assert(provs.drop_first()[i - 1] == provs[i]);
        assert(forall|j: int|
            0 <= j < provs.drop_first().len() && j != i - 1 ==> provs.drop_first()[j] == provs[j
                + 1] && !has_model(provs.drop_first()[j], m));
        lemma_resolve_unique(provs.drop_first(), m, i - 1);
    }
}

/// Law: a model identifier served by no provider of the registry does not
/// resolve — `resolve` then fails with `UnknownModelError`.
pub proof fn lemma_resolve_absent(provs: Seq<ProviderDescriptor>, m: Seq<char>)
    requires
        forall|j: int| 0 <= j < provs.len() ==> !has_model(provs[j], m),
    ensures
        first_provider_with(provs, m) is None,
    decreases provs.len(),
{
    if provs.len() > 0 {
        assert(forall|j: int|
            0 <= j < provs.drop_first().len() ==> provs.drop_first()[j] == provs[j + 1]
                && !has_model(provs.drop_first()[j], m));
        lemma_resolve_absent(provs.drop_first(), m);
    }
}

} // verus!
