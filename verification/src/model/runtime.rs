//! Which clients and models are built at startup, and in which order.
use super::client::{build_client, client_plan, ClientPlan, ProviderConfig, ProviderError};
use super::registry::{is_provider_name, provider_row, row_of, Profile, PROVIDER_PROFILES};
use super::settings::EnvironmentSource;
use super::spec::{spec_error_text, spec_text, ModelId, ModelSpec, ModelSpecError, ProviderId};
use crate::text::{quoted, quoted_text, same_text};
use crate::text_map::{
    ascending, has_key_at, law_sorted_pairs_are_the_entries, lemma_finite_map_is_sorted, pairs_map,
    sorted_pairs, TextMap,
};
use vstd::prelude::*;
use vstd::string::*;

verus! {

/// Provider settings under the names of the providers.
pub struct ProviderConfigs {
    blocks: TextMap<ProviderConfig>,
}

impl View for ProviderConfigs {
    type V = Map<Seq<char>, ProviderConfig<Seq<char>>>;

    closed spec fn view(&self) -> Map<Seq<char>, ProviderConfig<Seq<char>>> {
        self.blocks@
    }
}

impl ProviderConfigs {
    /// No settings.
    pub fn new() -> (configs: ProviderConfigs)
        ensures
            configs@ == Map::<Seq<char>, ProviderConfig<Seq<char>>>::empty(),
    {
        ProviderConfigs { blocks: TextMap::new() }
    }

    /// Puts the settings of a provider in.
    pub fn insert(&mut self, provider: String, config: ProviderConfig)
        ensures
            final(self)@ == old(self)@.insert(provider@, config@),
    {
        self.blocks.insert(provider, config);
    }

    /// The settings of a provider.
    pub fn get(&self, provider: &str) -> (config: Option<&ProviderConfig>)
        ensures
            config is Some <==> self@.contains_key(provider@),
            config matches Some(c) ==> c@ == self@[provider@],
    {
        self.blocks.get(provider)
    }
}

/// The kind of settings that a provider takes, or what is said if there is no such provider.
pub open spec fn profile_of(name: Seq<char>) -> Result<Profile, Seq<char>> {
    match row_of(name) {
        Some(row) => Ok(PROVIDER_PROFILES@[row]),
        None => Err(spec_error_text(ModelSpecError::UnknownProvider { provider: name })),
    }
}

/// The kind of settings that the provider takes.
pub fn provider_profile(name: &str) -> (profile: Result<Profile, String>)
    ensures
        match profile {
            Ok(profile) => profile_of(name@) == Ok::<_, Seq<char>>(profile),
            Err(message) => profile_of(name@) == Err::<Profile, _>(message@),
        },
{
    match provider_row(name) {
        Some(row) => Ok(PROVIDER_PROFILES[row]),
        None => {
            let error: ModelSpecError = ModelSpecError::UnknownProvider {
                provider: name.to_owned(),
            };
            Err(error.message())
        },
    }
}

/// What is said of a block of settings that does not fit its provider.
pub open spec fn block_error_text(name: Seq<char>, source: Seq<char>) -> Seq<char> {
    "invalid provider block "@ + quoted_text(name) + ": "@ + source
}

/// What is said of a block of settings that does not fit its provider.
pub fn provider_block_error(name: &str, source: &str) -> (message: String)
    ensures
        message@ == block_error_text(name@, source@),
{
    let mut message: String = String::from_str("invalid provider block ");
    message.append(quoted(name).as_str());
    message.append(": ");
    message.append(source);
    message
}

/// Reads the settings of a provider. `decode` reads them as settings of the profile that the
/// provider has.
pub fn parse_provider_config<F: FnOnce(Profile) -> Result<ProviderConfig, String>>(
    name: &str,
    decode: F,
) -> (config: Result<ProviderConfig, String>)
    requires
        forall|profile: Profile| call_requires(decode, (profile,)),
    ensures
        match profile_of(name@) {
            Err(message) => config is Err && (config->Err_0)@ == message,
            Ok(profile) => match config {
                Ok(config) => call_ensures(decode, (profile,), Ok(config)),
                Err(message) => exists|source: String| #[trigger]
                    call_ensures(decode, (profile,), Err(source)) && message@ == block_error_text(
                        name@,
                        source@,
                    ),
            },
        },
{
    match provider_profile(name) {
        Err(message) => Err(message),
        Ok(profile) => match decode(profile) {
            Ok(config) => Ok(config),
            Err(source) => Err(provider_block_error(name, source.as_str())),
        },
    }
}

/// One thing to build.
pub enum BuildStep<P = ProviderId, C = ClientPlan, S = ModelSpec> {
    /// The client of a provider.
    Client { provider: P, plan: C },
    /// A model, from the client of its provider.
    Model { spec: S },
}

/// What a [`BuildStep`] holds.
pub type StepView = BuildStep<Seq<char>, ClientPlan<Seq<char>>, (Seq<char>, Seq<char>)>;

impl View for BuildStep<ProviderId, ClientPlan, ModelSpec> {
    type V = StepView;

    open spec fn view(&self) -> StepView {
        match self {
            BuildStep::Client { provider, plan } => BuildStep::Client {
                provider: provider@,
                plan: plan@,
            },
            BuildStep::Model { spec } => BuildStep::Model { spec: spec@ },
        }
    }
}

/// What a list of steps holds.
pub open spec fn step_views(steps: Seq<BuildStep>) -> Seq<StepView> {
    Seq::new(steps.len(), |i: int| steps[i]@)
}

/// What is to be built, in order, and the error that ends the startup after that, if there is one.
pub struct RuntimePlan {
    pub steps: Vec<BuildStep>,
    pub failure: Option<ProviderError>,
}

/// Steps, and the error that ends them.
pub struct PlanView {
    pub steps: Seq<StepView>,
    pub failure: Option<ProviderError<Seq<char>>>,
}

impl View for RuntimePlan {
    type V = PlanView;

    open spec fn view(&self) -> PlanView {
        PlanView {
            steps: step_views(self.steps@),
            failure: match self.failure {
                Some(error) => Some(error@),
                None => None,
            },
        }
    }
}

/// Among the steps is one that builds the client of the provider.
pub open spec fn has_client(steps: Seq<StepView>, provider: Seq<char>) -> bool {
    exists|i: int|
        0 <= i < steps.len() && (#[trigger] steps[i] matches BuildStep::Client { provider: p, .. }
            && p == provider)
}

/// Among the steps is one that builds the model.
pub open spec fn has_model(steps: Seq<StepView>, spec: (Seq<char>, Seq<char>)) -> bool {
    exists|i: int|
        0 <= i < steps.len() && (#[trigger] steps[i] matches BuildStep::Model { spec: s } && s
            == spec)
}

impl PlanView {
    /// With the client of a provider built next.
    pub open spec fn with_client<E: EnvironmentSource>(
        self,
        provider: Seq<char>,
        config: Option<ProviderConfig<Seq<char>>>,
        environment: &E,
    ) -> PlanView {
        match client_plan(provider, config, environment) {
            Ok(plan) => PlanView {
                steps: self.steps.push(BuildStep::Client { provider, plan }),
                failure: None,
            },
            Err(error) => PlanView { steps: self.steps, failure: Some(error) },
        }
    }

    /// With the client of a configured provider built next.
    pub open spec fn with_config<E: EnvironmentSource>(
        self,
        name: Seq<char>,
        config: ProviderConfig<Seq<char>>,
        environment: &E,
    ) -> PlanView {
        if self.failure is Some {
            self
        } else if !is_provider_name(name) {
            PlanView {
                steps: self.steps,
                failure: Some(
                    ProviderError {
                        message: spec_error_text(
                            ModelSpecError::UnknownProvider { provider: name },
                        ),
                        source: None,
                    },
                ),
            }
        } else {
            self.with_client(name, Some(config), environment)
        }
    }

    /// With a model built next, after the client of its provider where that is not built yet. What
    /// is built already is not built again.
    pub open spec fn with_spec<E: EnvironmentSource>(
        self,
        spec: (Seq<char>, Seq<char>),
        configs: Map<Seq<char>, ProviderConfig<Seq<char>>>,
        environment: &E,
    ) -> PlanView {
        if self.failure is Some {
            self
        } else {
            let ready = if has_client(self.steps, spec.0) {
                self
            } else {
                self.with_client(spec.0, configs.get(spec.0), environment)
            };
            if ready.failure is Some || has_model(ready.steps, spec) {
                ready
            } else {
                PlanView { steps: ready.steps.push(BuildStep::Model { spec }), failure: None }
            }
        }
    }
}

/// The plan once these providers are configured, in order.
pub open spec fn after_configs<E: EnvironmentSource>(
    pairs: Seq<(Seq<char>, ProviderConfig<Seq<char>>)>,
    environment: &E,
) -> PlanView
    decreases pairs.len(),
{
    if pairs.len() == 0 {
        PlanView { steps: seq![], failure: None }
    } else {
        after_configs(pairs.drop_last(), environment).with_config(
            pairs.last().0,
            pairs.last().1,
            environment,
        )
    }
}

/// The plan once these models are asked for, in order.
pub open spec fn after_specs<E: EnvironmentSource>(
    start: PlanView,
    specs: Seq<(Seq<char>, Seq<char>)>,
    configs: Map<Seq<char>, ProviderConfig<Seq<char>>>,
    environment: &E,
) -> PlanView
    decreases specs.len(),
{
    if specs.len() == 0 {
        start
    } else {
        after_specs(start, specs.drop_last(), configs, environment).with_spec(
            specs.last(),
            configs,
            environment,
        )
    }
}

/// The whole plan: every configured provider in the order of their names, then every model that is
/// asked for, with its provider.
pub open spec fn runtime_plan<E: EnvironmentSource>(
    configs: Map<Seq<char>, ProviderConfig<Seq<char>>>,
    specs: Seq<(Seq<char>, Seq<char>)>,
    environment: &E,
) -> PlanView {
    after_specs(
        after_configs(sorted_pairs(configs), environment),
        specs,
        configs,
        environment,
    )
}

/// What a list of model selections holds.
pub open spec fn spec_views(specs: Seq<ModelSpec>) -> Seq<(Seq<char>, Seq<char>)> {
    Seq::new(specs.len(), |i: int| specs[i]@)
}

impl RuntimePlan {
    fn has_client(&self, provider: &str) -> (found: bool)
        ensures
            found == has_client(self@.steps, provider@),
    {
        let mut i: usize = 0;
        while i < self.steps.len()
            invariant
                i <= self.steps.len(),
                forall|j: int|
                    0 <= j < i ==> !(#[trigger] self@.steps[j] matches BuildStep::Client {
                        provider: p,
                        ..
                    } && p == provider@),
            decreases self.steps.len() - i,
        {
            assert(self@.steps[i as int] == self.steps[i as int]@);
            if let BuildStep::Client { provider: built, .. } = &self.steps[i] {
                if same_text(built.as_str(), provider) {
                    return true;
                }
            }
            i = i + 1;
        }
        false
    }

    fn has_model(&self, spec: &ModelSpec) -> (found: bool)
        ensures
            found == has_model(self@.steps, spec@),
    {
        let mut i: usize = 0;
        while i < self.steps.len()
            invariant
                i <= self.steps.len(),
                forall|j: int|
                    0 <= j < i ==> !(#[trigger] self@.steps[j] matches BuildStep::Model {
                        spec: s,
                    } && s == spec@),
            decreases self.steps.len() - i,
        {
            assert(self@.steps[i as int] == self.steps[i as int]@);
            if let BuildStep::Model { spec: built } = &self.steps[i] {
                if built.same(spec) {
                    return true;
                }
            }
            i = i + 1;
        }
        false
    }

    fn add_client<E: EnvironmentSource>(
        &mut self,
        provider: ProviderId,
        config: Option<&ProviderConfig>,
        environment: &E,
    )
        requires
            old(self).failure is None,
        ensures
            final(self)@ == old(self)@.with_client(
                provider@,
                super::client::config_view(config),
                environment,
            ),
    {
        let ghost before = self@;
        match build_client(&provider, config, environment) {
            Ok(plan) => {
                let ghost step = BuildStep::Client { provider: provider@, plan: plan@ };
                self.steps.push(BuildStep::Client { provider, plan });
                assert(self@.steps =~= before.steps.push(step));
            },
            Err(error) => {
                self.failure = Some(error);
            },
        }
    }

    fn add_config<E: EnvironmentSource>(
        &mut self,
        name: &str,
        config: &ProviderConfig,
        environment: &E,
    )
        ensures
            final(self)@ == old(self)@.with_config(name@, config@, environment),
    {
        if self.failure.is_some() {
            return;
        }
        match ProviderId::parse(name) {
            Ok(provider) => self.add_client(provider, Some(config), environment),
            Err(error) => {
                self.failure = Some(ProviderError::message(error.message()));
            },
        }
    }

    fn add_spec<E: EnvironmentSource>(
        &mut self,
        spec: &ModelSpec,
        configs: &ProviderConfigs,
        environment: &E,
    )
        ensures
            final(self)@ == old(self)@.with_spec(spec@, configs@, environment),
    {
        if self.failure.is_some() {
            return;
        }
        if !self.has_client(spec.provider().as_str()) {
            let config: Option<&ProviderConfig> = configs.get(spec.provider().as_str());
            self.add_client(spec.provider().clone(), config, environment);
        }
        if self.failure.is_none() && !self.has_model(spec) {
            let ghost before = self@.steps;
            self.steps.push(BuildStep::Model { spec: spec.clone() });
            assert(self@.steps =~= before.push(BuildStep::Model { spec: spec@ }));
        }
    }

    /// Plans every configured provider, then every model in `specs` with its provider.
    pub fn build<E: EnvironmentSource>(
        configs: &ProviderConfigs,
        specs: &Vec<ModelSpec>,
        environment: &E,
    ) -> (plan: RuntimePlan)
        ensures
            plan@ == runtime_plan(configs@, spec_views(specs@), environment),
            in_order(plan@.steps),
    {
        let mut plan: RuntimePlan = RuntimePlan { steps: Vec::new(), failure: None };
        let ghost pairs = sorted_pairs(configs@);
        assert(plan@.steps =~= seq![]);
        assert(pairs.take(0) =~= seq![]);
        let mut i: usize = 0;
        while i < configs.blocks.len()
            invariant
                i <= pairs.len(),
                pairs == sorted_pairs(configs.blocks@),
                plan@ == after_configs(pairs.take(i as int), environment),
            decreases pairs.len() - i,
        {
            let (name, config) = configs.blocks.at(i);
            plan.add_config(name, config, environment);
            proof {
                let next = pairs.take(i + 1);
                assert(next.drop_last() =~= pairs.take(i as int));
                assert(next.last() == (name@, config@));
            }
            i = i + 1;
        }
        assert(pairs.take(pairs.len() as int) =~= pairs);
        proof {
            law_startup_builds_each_thing_once(configs@, spec_views(specs@), environment);
        }
        let ghost start = plan@;
        let ghost all = spec_views(specs@);
        assert(all.take(0) =~= seq![]);
        let mut j: usize = 0;
        while j < specs.len()
            invariant
                j <= specs.len(),
                all == spec_views(specs@),
                plan@ == after_specs(start, all.take(j as int), configs@, environment),
            decreases specs.len() - j,
        {
            plan.add_spec(&specs[j], configs, environment);
            proof {
                let next = all.take(j + 1);
                assert(next.drop_last() =~= all.take(j as int));
                assert(next.last() == specs[j as int]@);
            }
            j = j + 1;
        }
        assert(all.take(all.len() as int) =~= all);
        plan
    }
}

/// What was built for a step: `C` is a client, `M` a model.
pub enum Built<C, M> {
    Client(C),
    Model(M),
}

/// Building the client that is planned may come out like this.
pub open spec fn makes_client<C, F: Fn(&ClientPlan) -> Result<C, String>>(
    new_client: F,
    plan: ClientPlan<Seq<char>>,
    outcome: Result<C, String>,
) -> bool {
    exists|p: ClientPlan| p@ == plan && #[trigger] call_ensures(new_client, (&p,), outcome)
}

/// The client may give this model.
pub open spec fn makes_model<C, M, G: Fn(&C, &ModelId) -> M>(
    new_model: G,
    client: C,
    model: Seq<char>,
    made: M,
) -> bool {
    exists|id: ModelId| id@ == model && #[trigger] call_ensures(new_model, (&client, &id), made)
}

/// At step `j` the client of the provider was built.
pub open spec fn built_client<C, M>(
    steps: Seq<StepView>,
    built: Seq<Built<C, M>>,
    j: int,
    provider: Seq<char>,
    client: C,
) -> bool {
    &&& 0 <= j < steps.len()
    &&& j < built.len()
    &&& steps[j] matches BuildStep::Client { provider: p, .. } && p == provider
    &&& built[j] == Built::<C, M>::Client(client)
}

/// The model comes from the client of its provider, which is among what was built.
pub open spec fn model_from_client<C, M, G: Fn(&C, &ModelId) -> M>(
    steps: Seq<StepView>,
    built: Seq<Built<C, M>>,
    spec: (Seq<char>, Seq<char>),
    model: M,
    new_model: G,
) -> bool {
    exists|j: int, client: C| #[trigger]
        built_client(steps, built, j, spec.0, client) && makes_model(
            new_model,
            client,
            spec.1,
            model,
        )
}

/// What was built at step `i` is what the step asks for: a client as planned, or a model from the
/// client of its provider, which was built before it.
pub open spec fn built_at<
    C,
    M,
    F: Fn(&ClientPlan) -> Result<C, String>,
    G: Fn(&C, &ModelId) -> M,
>(steps: Seq<StepView>, built: Seq<Built<C, M>>, i: int, new_client: F, new_model: G) -> bool {
    match steps[i] {
        BuildStep::Client { plan, .. } => built[i] matches Built::Client(client) && makes_client(
            new_client,
            plan,
            Ok(client),
        ),
        BuildStep::Model { spec } => built[i] matches Built::Model(model) && model_from_client(
            steps,
            built.take(i),
            spec,
            model,
            new_model,
        ),
    }
}

/// The first steps were taken, and this is what was built.
pub open spec fn all_built<
    C,
    M,
    F: Fn(&ClientPlan) -> Result<C, String>,
    G: Fn(&C, &ModelId) -> M,
>(steps: Seq<StepView>, built: Seq<Built<C, M>>, new_client: F, new_model: G) -> bool {
    &&& built.len() <= steps.len()
    &&& forall|i: int|
        0 <= i < built.len() ==> #[trigger] built_at(steps, built, i, new_client, new_model)
}

/// The models that were built, in order.
pub open spec fn built_models<C, M>(steps: Seq<StepView>, built: Seq<Built<C, M>>) -> Seq<
    ((Seq<char>, Seq<char>), M),
>
    decreases built.len(),
{
    if built.len() == 0 {
        Seq::empty()
    } else {
        let before = built_models(steps, built.drop_last());
        match (steps[built.len() - 1], built.last()) {
            (BuildStep::Model { spec }, Built::Model(model)) => before.push((spec, model)),
            _ => before,
        }
    }
}

/// How many clients were built.
pub open spec fn client_total<C, M>(built: Seq<Built<C, M>>) -> nat
    decreases built.len(),
{
    if built.len() == 0 {
        0
    } else {
        client_total(built.drop_last()) + if built.last() is Client {
            1nat
        } else {
            0nat
        }
    }
}

/// The step is to build a client, and that failed with this error.
pub open spec fn client_fails<C, F: Fn(&ClientPlan) -> Result<C, String>>(
    step: StepView,
    new_client: F,
    error: ProviderError<Seq<char>>,
) -> bool {
    step matches BuildStep::Client { provider, plan } && exists|source: String| #[trigger]
        makes_client(new_client, plan, Err::<C, String>(source)) && error == (ProviderError {
            message: "failed to build provider "@ + provider,
            source: Some(source@),
        })
}

/// How a startup ends: with everything built, or with the error of the first client that could not
/// be built, or, once all that could be planned is built, with the error that ended the plan.
pub open spec fn is_startup<
    C,
    M,
    F: Fn(&ClientPlan) -> Result<C, String>,
    G: Fn(&C, &ModelId) -> M,
>(
    plan: PlanView,
    new_client: F,
    new_model: G,
    built: Seq<Built<C, M>>,
    outcome: Result<ModelRuntime<M>, ProviderError>,
) -> bool {
    &&& all_built(plan.steps, built, new_client, new_model)
    &&& match outcome {
        Ok(runtime) => {
            &&& built.len() == plan.steps.len()
            &&& plan.failure is None
            &&& runtime.models() == built_models(plan.steps, built)
            &&& runtime.clients() == client_total(built)
        },
        Err(error) => if built.len() == plan.steps.len() {
            plan.failure == Some(error@)
        } else {
            client_fails::<C, F>(plan.steps[built.len() as int], new_client, error@)
        },
    }
}

/// The models that were built at startup.
pub struct ModelRuntime<M> {
    models: Vec<(ModelSpec, M)>,
    client_count: usize,
}

/// What a list of models holds.
spec fn model_entries<M>(models: Seq<(ModelSpec, M)>) -> Seq<((Seq<char>, Seq<char>), M)> {
    Seq::new(models.len(), |i: int| (models[i].0@, models[i].1))
}

/// The client of the provider was built at some step.
spec fn was_built<C, M>(
    steps: Seq<StepView>,
    built: Seq<Built<C, M>>,
    provider: Seq<char>,
    client: C,
) -> bool {
    exists|j: int| built_client(steps, built, j, provider, client)
}

/// Among the clients is one of the provider.
spec fn has_entry<C>(clients: Seq<(String, C)>, provider: Seq<char>) -> bool {
    exists|k: int| 0 <= k < clients.len() && (#[trigger] clients[k]).0@ == provider
}

/// What a startup has built so far.
struct Startup<C, M> {
    clients: Vec<(String, C)>,
    models: Vec<(ModelSpec, M)>,
    client_count: usize,
    built: Ghost<Seq<Built<C, M>>>,
}

impl<C, M> Startup<C, M> {
    /// The first steps were taken as they ask for.
    spec fn follows<F: Fn(&ClientPlan) -> Result<C, String>, G: Fn(&C, &ModelId) -> M>(
        self,
        steps: Seq<StepView>,
        new_client: F,
        new_model: G,
    ) -> bool {
        &&& all_built(steps, self.built@, new_client, new_model)
        &&& forall|k: int|
            0 <= k < self.clients@.len() ==> #[trigger] was_built(
                steps,
                self.built@,
                self.clients@[k].0@,
                self.clients@[k].1,
            )
        &&& forall|j: int|
            0 <= j < self.built@.len() ==> (#[trigger] steps[j] matches BuildStep::Client {
                provider,
                ..
            } ==> has_entry(self.clients@, provider))
        &&& model_entries(self.models@) == built_models(steps, self.built@)
        &&& self.client_count == client_total(self.built@)
        &&& self.client_count <= self.built@.len()
    }

    /// The next step built a client.
    fn add_client<F: Fn(&ClientPlan) -> Result<C, String>, G: Fn(&C, &ModelId) -> M>(
        &mut self,
        provider: &str,
        client: C,
        Ghost(steps): Ghost<Seq<StepView>>,
        Ghost(new_client): Ghost<F>,
        Ghost(new_model): Ghost<G>,
    )
        requires
            old(self).follows(steps, new_client, new_model),
            old(self).built@.len() < steps.len(),
            old(self).built@.len() < usize::MAX,
            steps[old(self).built@.len() as int] matches BuildStep::Client { provider: p, plan }
                && p == provider@ && makes_client(new_client, plan, Ok(client)),
        ensures
            final(self).follows(steps, new_client, new_model),
            final(self).built@ == old(self).built@.push(Built::Client(client)),
    {
        let ghost before = self.built@;
        let ghost clients_before = self.clients@;
        let ghost after = before.push(Built::Client(client));
        proof {
            assert(built_at(steps, after, before.len() as int, new_client, new_model));
            lemma_step_built(
                steps,
                before,
                Built::Client(client),
                clients_before,
                new_client,
                new_model,
            );
            assert(built_client(steps, after, before.len() as int, provider@, client));
        }
        self.clients.push((provider.to_owned(), client));
        self.client_count = self.client_count + 1;
        self.built = Ghost(after);
        proof {
            assert(was_built(steps, after, provider@, client));
            assert(self.clients@[clients_before.len() as int].0@ == provider@);
            assert forall|j: int| 0 <= j < after.len() implies (
            #[trigger] steps[j] matches BuildStep::Client { provider, .. } ==> has_entry(
                self.clients@,
                provider,
            )) by {
                if let BuildStep::Client { provider: p, .. } = steps[j] {
                    if j < before.len() {
                        assert(has_entry(clients_before, p));
                        let k = choose|k: int|
                            0 <= k < clients_before.len() && (#[trigger] clients_before[k]).0@ == p;
                        assert(self.clients@[k] == clients_before[k]);
                    }
                }
            }
        }
    }

    /// The next step built a model from `client`.
    fn add_model<F: Fn(&ClientPlan) -> Result<C, String>, G: Fn(&C, &ModelId) -> M>(
        &mut self,
        spec: &ModelSpec,
        model: M,
        Ghost(client): Ghost<C>,
        Ghost(steps): Ghost<Seq<StepView>>,
        Ghost(new_client): Ghost<F>,
        Ghost(new_model): Ghost<G>,
    )
        requires
            old(self).follows(steps, new_client, new_model),
            old(self).built@.len() < steps.len(),
            steps[old(self).built@.len() as int] == (StepView::Model { spec: spec@ }),
            was_built(steps, old(self).built@, spec@.0, client),
            makes_model(new_model, client, spec@.1, model),
        ensures
            final(self).follows(steps, new_client, new_model),
            final(self).built@ == old(self).built@.push(Built::Model(model)),
    {
        let ghost before = self.built@;
        let ghost models_before = self.models@;
        let ghost after = before.push(Built::Model(model));
        proof {
            let j = choose|j: int| built_client(steps, before, j, spec@.0, client);
            assert(built_client(steps, before, j, spec@.0, client));
            assert(model_from_client(steps, before, spec@, model, new_model));
            assert(after.take(before.len() as int) =~= before);
            assert(built_at(steps, after, before.len() as int, new_client, new_model));
            lemma_step_built(
                steps,
                before,
                Built::Model(model),
                self.clients@,
                new_client,
                new_model,
            );
        }
        self.models.push((spec.clone(), model));
        self.built = Ghost(after);
        proof {
            assert(model_entries(self.models@) =~= model_entries(models_before).push(
                (spec@, model),
            ));
        }
    }
}

/// The client of this provider.
fn find_client<'a, C>(clients: &'a Vec<(String, C)>, provider: &str) -> (client: Option<&'a C>)
    ensures
        match client {
            Some(client) => exists|k: int|
                0 <= k < clients.len() && (#[trigger] clients[k]).0@ == provider@ && clients[k].1
                    == *client,
            None => forall|k: int|
                0 <= k < clients.len() ==> (#[trigger] clients[k]).0@ != provider@,
        },
{
    let mut k: usize = 0;
    while k < clients.len()
        invariant
            k <= clients.len(),
            forall|l: int| 0 <= l < k ==> (#[trigger] clients[l]).0@ != provider@,
        decreases clients.len() - k,
    {
        let entry = &clients[k];
        assert(clients[k as int].1 == entry.1);
        if same_text(entry.0.as_str(), provider) {
            return Some(&entry.1);
        }
        k = k + 1;
    }
    None
}

/// Before a model stands the client of its provider.
proof fn lemma_client_stands_before(steps: Seq<StepView>, i: int, provider: Seq<char>)
    requires
        in_order(steps),
        0 <= i < steps.len(),
        steps[i] matches BuildStep::Model { spec } && spec.0 == provider,
    ensures
        exists|j: int|
            0 <= j < i && (#[trigger] steps[j] matches BuildStep::Client { provider: p, .. } && p
                == provider),
{
    let first = steps.take(i);
    assert(has_client(first, provider));
    let j = choose|j: int|
        0 <= j < first.len() && (#[trigger] first[j] matches BuildStep::Client {
            provider: p,
            ..
        } && p == provider);
    assert(steps[j] == first[j]);
}

/// Taking one more step as it asks for.
proof fn lemma_step_built<
    C,
    M,
    F: Fn(&ClientPlan) -> Result<C, String>,
    G: Fn(&C, &ModelId) -> M,
>(
    steps: Seq<StepView>,
    before: Seq<Built<C, M>>,
    thing: Built<C, M>,
    clients: Seq<(String, C)>,
    new_client: F,
    new_model: G,
)
    requires
        all_built(steps, before, new_client, new_model),
        before.len() < steps.len(),
        built_at(steps, before.push(thing), before.len() as int, new_client, new_model),
        forall|k: int|
            0 <= k < clients.len() ==> #[trigger] was_built(
                steps,
                before,
                clients[k].0@,
                clients[k].1,
            ),
    ensures
        all_built(steps, before.push(thing), new_client, new_model),
        forall|k: int|
            0 <= k < clients.len() ==> #[trigger] was_built(
                steps,
                before.push(thing),
                clients[k].0@,
                clients[k].1,
            ),
        before.push(thing).drop_last() == before,
{
    let after = before.push(thing);
    assert(after.drop_last() =~= before);
    assert forall|i: int| 0 <= i < after.len() implies #[trigger] built_at(
        steps,
        after,
        i,
        new_client,
        new_model,
    ) by {
        if i < before.len() {
            assert(built_at(steps, before, i, new_client, new_model));
            assert(after.take(i) =~= before.take(i));
        }
    }
    assert forall|k: int| 0 <= k < clients.len() implies #[trigger] was_built(
        steps,
        after,
        clients[k].0@,
        clients[k].1,
    ) by {
        assert(was_built(steps, before, clients[k].0@, clients[k].1));
        let j = choose|j: int| built_client(steps, before, j, clients[k].0@, clients[k].1);
        assert(built_client(steps, after, j, clients[k].0@, clients[k].1));
    }
}

impl<M> ModelRuntime<M> {
    /// The models, in the order in which they were built.
    pub closed spec fn models(&self) -> Seq<((Seq<char>, Seq<char>), M)> {
        model_entries(self.models@)
    }

    /// How many clients were built.
    pub closed spec fn clients(&self) -> nat {
        self.client_count as nat
    }

    /// Builds every configured provider, then every model in `specs` with its provider. `new_client`
    /// builds a client and `new_model` a model of a client. Fails with the first error in the
    /// settings of a provider or from building its client.
    pub fn build<C, E, F, G>(
        configs: &ProviderConfigs,
        specs: &Vec<ModelSpec>,
        environment: &E,
        new_client: F,
        new_model: G,
    ) -> (outcome: Result<ModelRuntime<M>, ProviderError>) where
        E: EnvironmentSource,
        F: Fn(&ClientPlan) -> Result<C, String>,
        G: Fn(&C, &ModelId) -> M,

        requires
            forall|plan: ClientPlan| call_requires(new_client, (&plan,)),
            forall|client: C, model: ModelId| call_requires(new_model, (&client, &model)),
        ensures
            exists|built: Seq<Built<C, M>>| #[trigger]
                is_startup(
                    runtime_plan(configs@, spec_views(specs@), environment),
                    new_client,
                    new_model,
                    built,
                    outcome,
                ),
    {
        let plan: RuntimePlan = RuntimePlan::build(configs, specs, environment);
        let ghost view = plan@;
        let mut startup: Startup<C, M> = Startup {
            clients: Vec::new(),
            models: Vec::new(),
            client_count: 0,
            built: Ghost(Seq::empty()),
        };
        assert(model_entries(startup.models@) =~= built_models(view.steps, startup.built@));
        let mut i: usize = 0;
        while i < plan.steps.len()
            invariant
                i <= plan.steps.len(),
                view == plan@,
                view == runtime_plan(configs@, spec_views(specs@), environment),
                in_order(view.steps),
                forall|plan: ClientPlan| call_requires(new_client, (&plan,)),
                forall|client: C, model: ModelId| call_requires(new_model, (&client, &model)),
                startup.built@.len() == i,
                startup.follows(view.steps, new_client, new_model),
            decreases plan.steps.len() - i,
        {
            assert(view.steps[i as int] == plan.steps[i as int]@);
            match &plan.steps[i] {
                BuildStep::Client { provider, plan: client_plan } => {
                    let outcome: Result<C, String> = new_client(client_plan);
                    assert(makes_client(new_client, client_plan@, outcome));
                    match outcome {
                        Err(source) => {
                            let error: ProviderError = ProviderError::client(
                                provider.as_str(),
                                source,
                            );
                            assert(is_startup(
                                view,
                                new_client,
                                new_model,
                                startup.built@,
                                Err::<ModelRuntime<M>, ProviderError>(error),
                            ));
                            return Err(error);
                        },
                        Ok(client) => startup.add_client::<F, G>(
                            provider.as_str(),
                            client,
                            Ghost(view.steps),
                            Ghost(new_client),
                            Ghost(new_model),
                        ),
                    }
                },
                BuildStep::Model { spec } => {
                    proof {
                        lemma_client_stands_before(view.steps, i as int, spec@.0);
                    }
                    let client: &C = match find_client(&startup.clients, spec.provider().as_str()) {
                        Some(client) => client,
                        None => {
                            let mut message: String = String::from_str("provider ");
                            message.append(spec.provider().as_str());
                            message.append(" was not constructed");
                            return Err(ProviderError::message(message));
                        },
                    };
                    let model: M = new_model(client, spec.model());
                    assert(makes_model(new_model, *client, spec@.1, model));
                    let ghost from = *client;
                    startup.add_model::<F, G>(
                        spec,
                        model,
                        Ghost(from),
                        Ghost(view.steps),
                        Ghost(new_client),
                        Ghost(new_model),
                    );
                },
            }
            i = i + 1;
        }
        let outcome: Result<ModelRuntime<M>, ProviderError> = match plan.failure {
            Some(error) => Err(error),
            None => Ok(
                ModelRuntime { models: startup.models, client_count: startup.client_count },
            ),
        };
        assert(is_startup(view, new_client, new_model, startup.built@, outcome));
        outcome
    }

    /// The model that was built for `spec`. Fails if `spec` was not asked for at startup.
    pub fn model(&self, spec: &ModelSpec) -> (model: Result<&M, ProviderError>)
        ensures
            match model {
                Ok(model) => exists|i: int|
                    0 <= i < self.models().len() && (#[trigger] self.models()[i]) == (spec@, *model)
                        && forall|j: int|
                        0 <= j < i ==> (#[trigger] self.models()[j]).0 != spec@,
                Err(error) => (forall|i: int|
                    0 <= i < self.models().len() ==> (#[trigger] self.models()[i]).0 != spec@)
                    && error@ == (ProviderError {
                    message: "model "@ + spec_text(spec@) + " was not constructed at startup"@,
                    source: None,
                }),
            },
    {
        let mut i: usize = 0;
        while i < self.models.len()
            invariant
                i <= self.models.len(),
                forall|j: int| 0 <= j < i ==> (#[trigger] self.models()[j]).0 != spec@,
            decreases self.models.len() - i,
        {
            let entry = &self.models[i];
            assert(self.models()[i as int] == (entry.0@, entry.1));
            if entry.0.same(spec) {
                return Ok(&entry.1);
            }
            i = i + 1;
        }
        let mut message: String = String::from_str("model ");
        message.append(spec.text().as_str());
        message.append(" was not constructed at startup");
        Err(ProviderError::message(message))
    }

    /// How many clients were built.
    pub fn client_count(&self) -> (count: usize)
        ensures
            count == self.clients(),
    {
        self.client_count
    }
}

/// No client and no model is built twice, and every model is built from a client that was built
/// before it.
pub open spec fn in_order(steps: Seq<StepView>) -> bool {
    &&& forall|i: int, j: int|
        0 <= i < j < steps.len() ==> match (#[trigger] steps[i], #[trigger] steps[j]) {
            (
                BuildStep::Client { provider: a, .. },
                BuildStep::Client { provider: b, .. },
            ) => a != b,
            (BuildStep::Model { spec: a }, BuildStep::Model { spec: b }) => a != b,
            _ => true,
        }
    &&& forall|i: int|
        0 <= i < steps.len() ==> (#[trigger] steps[i] matches BuildStep::Model { spec }
            ==> has_client(steps.take(i), spec.0))
}

proof fn lemma_client_pushed(steps: Seq<StepView>, provider: Seq<char>, plan: ClientPlan<Seq<char>>)
    requires
        in_order(steps),
        !has_client(steps, provider),
    ensures
        in_order(steps.push(BuildStep::Client { provider, plan })),
        forall|p: Seq<char>| #[trigger]
            has_client(steps.push(BuildStep::Client { provider, plan }), p) <==> has_client(
                steps,
                p,
            ) || p == provider,
        forall|s: (Seq<char>, Seq<char>)| #[trigger]
            has_model(steps.push(BuildStep::Client { provider, plan }), s) <==> has_model(steps, s),
{
    let step: StepView = BuildStep::Client { provider, plan };
    let pushed = steps.push(step);
    assert forall|i: int| 0 <= i < pushed.len() implies (
    #[trigger] pushed[i] matches BuildStep::Model { spec } ==> has_client(
        pushed.take(i),
        spec.0,
    )) by {
        if i < steps.len() {
            assert(pushed.take(i) =~= steps.take(i));
            assert(pushed[i] == steps[i]);
        }
    }
    assert forall|p: Seq<char>| #[trigger] has_client(pushed, p) <==> has_client(steps, p) || p
        == provider by {
        if has_client(steps, p) {
            let i = choose|i: int|
                0 <= i < steps.len() && (#[trigger] steps[i] matches BuildStep::Client {
                    provider: q,
                    ..
                } && q == p);
            assert(pushed[i] == steps[i]);
        }
        if p == provider {
            assert(pushed[steps.len() as int] == step);
        }
    }
    assert forall|s: (Seq<char>, Seq<char>)| #[trigger] has_model(pushed, s) <==> has_model(
        steps,
        s,
    ) by {
        if has_model(steps, s) {
            let i = choose|i: int|
                0 <= i < steps.len() && (#[trigger] steps[i] matches BuildStep::Model { spec: t }
                    && t == s);
            assert(pushed[i] == steps[i]);
        }
    }
}

proof fn lemma_model_pushed(steps: Seq<StepView>, spec: (Seq<char>, Seq<char>))
    requires
        in_order(steps),
        has_client(steps, spec.0),
        !has_model(steps, spec),
    ensures
        in_order(steps.push(BuildStep::Model { spec })),
        forall|s: (Seq<char>, Seq<char>)| #[trigger]
            has_model(steps.push(BuildStep::Model { spec }), s) <==> has_model(steps, s) || s
                == spec,
        forall|p: Seq<char>| #[trigger]
            has_client(steps.push(BuildStep::Model { spec }), p) <==> has_client(steps, p),
{
    let step: StepView = BuildStep::Model { spec };
    let pushed = steps.push(step);
    assert forall|i: int| 0 <= i < pushed.len() implies (
    #[trigger] pushed[i] matches BuildStep::Model { spec } ==> has_client(
        pushed.take(i),
        spec.0,
    )) by {
        assert(pushed.take(i) =~= steps.take(i));
        if i < steps.len() {
            assert(pushed[i] == steps[i]);
        } else {
            assert(steps.take(i) =~= steps);
        }
    }
    assert forall|s: (Seq<char>, Seq<char>)| #[trigger] has_model(pushed, s) <==> has_model(
        steps,
        s,
    ) || s == spec by {
        if has_model(steps, s) {
            let i = choose|i: int|
                0 <= i < steps.len() && (#[trigger] steps[i] matches BuildStep::Model { spec: t }
                    && t == s);
            assert(pushed[i] == steps[i]);
        }
        if s == spec {
            assert(pushed[steps.len() as int] == step);
        }
    }
    assert forall|p: Seq<char>| #[trigger] has_client(pushed, p) <==> has_client(steps, p) by {
        if has_client(steps, p) {
            let i = choose|i: int|
                0 <= i < steps.len() && (#[trigger] steps[i] matches BuildStep::Client {
                    provider: q,
                    ..
                } && q == p);
            assert(pushed[i] == steps[i]);
        }
    }
}

proof fn lemma_configs_in_order<E: EnvironmentSource>(
    pairs: Seq<(Seq<char>, ProviderConfig<Seq<char>>)>,
    environment: &E,
)
    requires
        ascending(pairs),
    ensures
        in_order(after_configs(pairs, environment).steps),
        forall|p: Seq<char>| #[trigger]
            has_client(after_configs(pairs, environment).steps, p) ==> exists|k: int|
                has_key_at(pairs, p, k),
        after_configs(pairs, environment).failure is None ==> forall|k: int|
            0 <= k < pairs.len() ==> has_client(
                after_configs(pairs, environment).steps,
                (#[trigger] pairs[k]).0,
            ),
        forall|s: (Seq<char>, Seq<char>)|
            !#[trigger] has_model(after_configs(pairs, environment).steps, s),
    decreases pairs.len(),
{
    if pairs.len() > 0 {
        let before = pairs.drop_last();
        let last = pairs.last();
        assert forall|i: int, j: int| 0 <= i < j < before.len() implies crate::text::text_before(
            #[trigger] before[i].0,
            #[trigger] before[j].0,
        ) by {
            assert(crate::text::text_before(pairs[i].0, pairs[j].0));
        }
        lemma_configs_in_order(before, environment);
        let plan = after_configs(before, environment);
        if has_client(plan.steps, last.0) {
            let k = choose|k: int| has_key_at(before, last.0, k);
            assert(crate::text::text_before(pairs[k].0, pairs[pairs.len() - 1].0));
            crate::text::lemma_text_before_total_order(last.0, last.0, last.0);
        }
        match client_plan(last.0, Some(last.1), environment) {
            Ok(client) => lemma_client_pushed(plan.steps, last.0, client),
            Err(_) => {},
        }
        let after = after_configs(pairs, environment);
        assert forall|p: Seq<char>| #[trigger] has_client(after.steps, p) implies exists|k: int|
            has_key_at(pairs, p, k) by {
            if has_client(plan.steps, p) {
                let k = choose|k: int| has_key_at(before, p, k);
                assert(has_key_at(pairs, p, k));
            } else {
                assert(has_key_at(pairs, p, pairs.len() - 1));
            }
        }
        if after.failure is None {
            assert forall|k: int| 0 <= k < pairs.len() implies has_client(
                after.steps,
                (#[trigger] pairs[k]).0,
            ) by {
                if k < before.len() {
                    assert(has_client(plan.steps, before[k].0));
                }
            }
        }
    }
}

/// The model at `k` is one of this provider.
pub open spec fn names_provider(
    specs: Seq<(Seq<char>, Seq<char>)>,
    provider: Seq<char>,
    k: int,
) -> bool {
    0 <= k < specs.len() && specs[k].0 == provider
}

proof fn lemma_specs_in_order<E: EnvironmentSource>(
    start: PlanView,
    specs: Seq<(Seq<char>, Seq<char>)>,
    configs: Map<Seq<char>, ProviderConfig<Seq<char>>>,
    environment: &E,
)
    requires
        in_order(start.steps),
    ensures
        in_order(after_specs(start, specs, configs, environment).steps),
        after_specs(start, specs, configs, environment).failure is None ==> forall|k: int|
            0 <= k < specs.len() ==> has_model(
                after_specs(start, specs, configs, environment).steps,
                #[trigger] specs[k],
            ),
        after_specs(start, specs, configs, environment).failure is None ==> start.failure is None,
        forall|p: Seq<char>| #[trigger]
            has_client(start.steps, p) ==> has_client(
                after_specs(start, specs, configs, environment).steps,
                p,
            ),
        forall|p: Seq<char>| #[trigger]
            has_client(after_specs(start, specs, configs, environment).steps, p) ==> has_client(
                start.steps,
                p,
            ) || exists|k: int| names_provider(specs, p, k),
        forall|s: (Seq<char>, Seq<char>)| #[trigger]
            has_model(after_specs(start, specs, configs, environment).steps, s) ==> has_model(
                start.steps,
                s,
            ) || specs.contains(s),
    decreases specs.len(),
{
    if specs.len() > 0 {
        let before = specs.drop_last();
        let spec = specs.last();
        lemma_specs_in_order(start, before, configs, environment);
        let plan = after_specs(start, before, configs, environment);
        let after = after_specs(start, specs, configs, environment);
        if plan.failure is None {
            let ready = if has_client(plan.steps, spec.0) {
                plan
            } else {
                plan.with_client(spec.0, configs.get(spec.0), environment)
            };
            if !has_client(plan.steps, spec.0) {
                match client_plan(spec.0, configs.get(spec.0), environment) {
                    Ok(client) => lemma_client_pushed(plan.steps, spec.0, client),
                    Err(_) => {},
                }
            }
            if ready.failure is None && !has_model(ready.steps, spec) {
                lemma_model_pushed(ready.steps, spec);
            }
            if after.failure is None {
                assert forall|k: int| 0 <= k < specs.len() implies has_model(
                    after.steps,
                    #[trigger] specs[k],
                ) by {
                    if k < before.len() {
                        assert(has_model(plan.steps, before[k]));
                    }
                }
            }
        }
        assert(specs[specs.len() - 1] == spec);
        assert forall|p: Seq<char>| #[trigger] has_client(after.steps, p) implies has_client(
            start.steps,
            p,
        ) || exists|k: int| names_provider(specs, p, k) by {
            if has_client(plan.steps, p) {
                if !has_client(start.steps, p) {
                    let k = choose|k: int| names_provider(before, p, k);
                    assert(names_provider(specs, p, k));
                }
            } else {
                assert(names_provider(specs, p, specs.len() - 1));
            }
        }
        assert forall|s: (Seq<char>, Seq<char>)| #[trigger] has_model(
            after.steps,
            s,
        ) implies has_model(start.steps, s) || specs.contains(s) by {
            if has_model(plan.steps, s) {
                if !has_model(start.steps, s) {
                    let k = choose|k: int| 0 <= k < before.len() && before[k] == s;
                    assert(specs[k] == s);
                }
            } else {
                assert(s == spec);
            }
        }
    }
}

/// Stages that share a provider share one client, no model is built twice, and each model is built
/// from a client that was built before it. Where nothing fails, every provider that is configured and
/// every model that was asked for is built. In any case nothing else is: each client is that of a
/// provider that is configured or has a model that was asked for, and each model was asked for.
pub proof fn law_startup_builds_each_thing_once<E: EnvironmentSource>(
    configs: Map<Seq<char>, ProviderConfig<Seq<char>>>,
    specs: Seq<(Seq<char>, Seq<char>)>,
    environment: &E,
)
    requires
        configs.dom().finite(),
    ensures
        in_order(runtime_plan(configs, specs, environment).steps),
        runtime_plan(configs, specs, environment).failure is None ==> forall|k: int|
            0 <= k < specs.len() ==> has_model(
                runtime_plan(configs, specs, environment).steps,
                #[trigger] specs[k],
            ),
        runtime_plan(configs, specs, environment).failure is None ==> forall|p: Seq<char>|
            #[trigger] configs.contains_key(p) ==> has_client(
                runtime_plan(configs, specs, environment).steps,
                p,
            ),
        forall|p: Seq<char>| #[trigger]
            has_client(runtime_plan(configs, specs, environment).steps, p)
                ==> configs.contains_key(p) || exists|k: int| names_provider(specs, p, k),
        forall|s: (Seq<char>, Seq<char>)| #[trigger]
            has_model(runtime_plan(configs, specs, environment).steps, s) ==> specs.contains(s),
{
    let pairs = sorted_pairs(configs);
    let start = after_configs(pairs, environment);
    let plan = runtime_plan(configs, specs, environment);
    lemma_finite_map_is_sorted(configs);
    lemma_configs_in_order(pairs, environment);
    lemma_specs_in_order(start, specs, configs, environment);
    if plan.failure is None {
        assert forall|p: Seq<char>| #[trigger] configs.contains_key(p) implies has_client(
            plan.steps,
            p,
        ) by {
            assert(pairs_map(pairs).contains_key(p));
            let k = choose|k: int| has_key_at(pairs, p, k);
            assert(has_client(start.steps, pairs[k].0));
        }
    }
    assert forall|p: Seq<char>| #[trigger] has_client(plan.steps, p) implies configs.contains_key(p)
        || exists|k: int| names_provider(specs, p, k) by {
        if has_client(start.steps, p) {
            let k = choose|k: int| has_key_at(pairs, p, k);
            assert(has_key_at(pairs, p, k));
            assert(pairs_map(pairs).contains_key(p));
        }
    }
}

proof fn lemma_configs_are_planned_from_settings<E: EnvironmentSource>(
    pairs: Seq<(Seq<char>, ProviderConfig<Seq<char>>)>,
    configs: Map<Seq<char>, ProviderConfig<Seq<char>>>,
    environment: &E,
    i: int,
)
    requires
        forall|k: int|
            0 <= k < pairs.len() ==> configs.contains_key((#[trigger] pairs[k]).0)
                && configs[pairs[k].0] == pairs[k].1,
        0 <= i < after_configs(pairs, environment).steps.len(),
    ensures
        after_configs(pairs, environment).steps[i] matches BuildStep::Client { provider, plan }
            ==> client_plan(provider, configs.get(provider), environment) == Ok::<
            _,
            ProviderError<Seq<char>>,
        >(plan),
    decreases pairs.len(),
{
    if pairs.len() > 0 {
        let before = pairs.drop_last();
        assert forall|k: int| 0 <= k < before.len() implies configs.contains_key(
            (#[trigger] before[k]).0,
        ) && configs[before[k].0] == before[k].1 by {
            assert(before[k] == pairs[k]);
        }
        let earlier = after_configs(before, environment).steps;
        assert(configs.contains_key(pairs[pairs.len() - 1].0));
        if i < earlier.len() {
            lemma_configs_are_planned_from_settings(before, configs, environment, i);
            assert(after_configs(pairs, environment).steps[i] == earlier[i]);
        }
    }
}

proof fn lemma_specs_are_planned_from_settings<E: EnvironmentSource>(
    start: PlanView,
    specs: Seq<(Seq<char>, Seq<char>)>,
    configs: Map<Seq<char>, ProviderConfig<Seq<char>>>,
    environment: &E,
    i: int,
)
    requires
        forall|k: int|
            0 <= k < start.steps.len() ==> (#[trigger] start.steps[k] matches BuildStep::Client {
                provider,
                plan,
            } ==> client_plan(provider, configs.get(provider), environment) == Ok::<
                _,
                ProviderError<Seq<char>>,
            >(plan)),
        0 <= i < after_specs(start, specs, configs, environment).steps.len(),
    ensures
        after_specs(start, specs, configs, environment).steps[i] matches BuildStep::Client {
            provider,
            plan,
        } ==> client_plan(provider, configs.get(provider), environment) == Ok::<
            _,
            ProviderError<Seq<char>>,
        >(plan),
    decreases specs.len(),
{
    if specs.len() > 0 {
        let before = specs.drop_last();
        let earlier = after_specs(start, before, configs, environment).steps;
        if i < earlier.len() {
            lemma_specs_are_planned_from_settings(start, before, configs, environment, i);
            assert(after_specs(start, specs, configs, environment).steps[i] == earlier[i]);
        }
    }
}

/// Every client that is built is planned from the settings of its own provider, or from none where it
/// has none, whether it is built because it is configured or because one of its models was asked for.
pub proof fn law_clients_are_planned_from_their_settings<E: EnvironmentSource>(
    configs: Map<Seq<char>, ProviderConfig<Seq<char>>>,
    specs: Seq<(Seq<char>, Seq<char>)>,
    environment: &E,
    i: int,
)
    requires
        configs.dom().finite(),
        0 <= i < runtime_plan(configs, specs, environment).steps.len(),
    ensures
        runtime_plan(configs, specs, environment).steps[i] matches BuildStep::Client {
            provider,
            plan,
        } ==> client_plan(
            provider,
            if configs.contains_key(provider) {
                Some(configs[provider])
            } else {
                None
            },
            environment,
        ) == Ok::<_, ProviderError<Seq<char>>>(plan),
{
    let pairs = sorted_pairs(configs);
    let start = after_configs(pairs, environment);
    let at = law_sorted_pairs_are_the_entries(configs, Seq::empty());
    assert forall|k: int| 0 <= k < start.steps.len() implies (
    #[trigger] start.steps[k] matches BuildStep::Client { provider, plan } ==> client_plan(
        provider,
        configs.get(provider),
        environment,
    ) == Ok::<_, ProviderError<Seq<char>>>(plan)) by {
        lemma_configs_are_planned_from_settings(pairs, configs, environment, k);
    }
    lemma_specs_are_planned_from_settings(start, specs, configs, environment, i);
}

proof fn lemma_configs_succeed<E: EnvironmentSource>(
    pairs: Seq<(Seq<char>, ProviderConfig<Seq<char>>)>,
    environment: &E,
)
    requires
        forall|k: int|
            0 <= k < pairs.len() ==> is_provider_name((#[trigger] pairs[k]).0) && client_plan(
                pairs[k].0,
                Some(pairs[k].1),
                environment,
            ) is Ok,
    ensures
        after_configs(pairs, environment).failure is None,
    decreases pairs.len(),
{
    if pairs.len() > 0 {
        let before = pairs.drop_last();
        assert forall|k: int| 0 <= k < before.len() implies is_provider_name(
            (#[trigger] before[k]).0,
        ) && client_plan(before[k].0, Some(before[k].1), environment) is Ok by {
            assert(before[k] == pairs[k]);
        }
        lemma_configs_succeed(before, environment);
        assert(pairs.last() == pairs[pairs.len() - 1]);
    }
}

proof fn lemma_configs_fail<E: EnvironmentSource>(
    pairs: Seq<(Seq<char>, ProviderConfig<Seq<char>>)>,
    environment: &E,
    at: int,
)
    requires
        0 <= at < pairs.len(),
        !is_provider_name(pairs[at].0) || client_plan(pairs[at].0, Some(pairs[at].1), environment)
            is Err,
    ensures
        after_configs(pairs, environment).failure is Some,
    decreases pairs.len(),
{
    if at < pairs.len() - 1 {
        assert(pairs.drop_last()[at] == pairs[at]);
        lemma_configs_fail(pairs.drop_last(), environment, at);
    }
}

proof fn lemma_specs_succeed<E: EnvironmentSource>(
    start: PlanView,
    specs: Seq<(Seq<char>, Seq<char>)>,
    configs: Map<Seq<char>, ProviderConfig<Seq<char>>>,
    environment: &E,
)
    requires
        start.failure is None,
        forall|k: int|
            0 <= k < specs.len() ==> client_plan(
                (#[trigger] specs[k]).0,
                configs.get(specs[k].0),
                environment,
            ) is Ok,
    ensures
        after_specs(start, specs, configs, environment).failure is None,
    decreases specs.len(),
{
    if specs.len() > 0 {
        let before = specs.drop_last();
        assert forall|k: int| 0 <= k < before.len() implies client_plan(
            (#[trigger] before[k]).0,
            configs.get(before[k].0),
            environment,
        ) is Ok by {
            assert(before[k] == specs[k]);
        }
        lemma_specs_succeed(start, before, configs, environment);
        assert(specs.last() == specs[specs.len() - 1]);
    }
}

/// Where every name in the settings is that of a provider, and the client of every provider that is
/// configured or has a model that was asked for can be planned, nothing fails.
pub proof fn law_sound_settings_do_not_fail<E: EnvironmentSource>(
    configs: Map<Seq<char>, ProviderConfig<Seq<char>>>,
    specs: Seq<(Seq<char>, Seq<char>)>,
    environment: &E,
)
    requires
        configs.dom().finite(),
        forall|p: Seq<char>| #[trigger]
            configs.contains_key(p) ==> is_provider_name(p) && client_plan(
                p,
                Some(configs[p]),
                environment,
            ) is Ok,
        forall|k: int|
            0 <= k < specs.len() ==> client_plan(
                (#[trigger] specs[k]).0,
                configs.get(specs[k].0),
                environment,
            ) is Ok,
    ensures
        runtime_plan(configs, specs, environment).failure is None,
{
    let pairs = sorted_pairs(configs);
    let at = law_sorted_pairs_are_the_entries(configs, Seq::empty());
    assert forall|k: int| 0 <= k < pairs.len() implies is_provider_name((#[trigger] pairs[k]).0)
        && client_plan(pairs[k].0, Some(pairs[k].1), environment) is Ok by {
        assert(configs.contains_key(pairs[k].0));
    }
    lemma_configs_succeed(pairs, environment);
    lemma_specs_succeed(after_configs(pairs, environment), specs, configs, environment);
}

/// A provider in the settings that is not known, or whose client cannot be planned, ends the startup
/// with an error, even where no model of it was asked for.
pub proof fn law_unsound_settings_fail<E: EnvironmentSource>(
    configs: Map<Seq<char>, ProviderConfig<Seq<char>>>,
    specs: Seq<(Seq<char>, Seq<char>)>,
    environment: &E,
    provider: Seq<char>,
)
    requires
        configs.dom().finite(),
        configs.contains_key(provider),
        !is_provider_name(provider) || client_plan(provider, Some(configs[provider]), environment)
            is Err,
    ensures
        runtime_plan(configs, specs, environment).failure is Some,
{
    let pairs = sorted_pairs(configs);
    let at = law_sorted_pairs_are_the_entries(configs, provider);
    lemma_finite_map_is_sorted(configs);
    lemma_configs_fail(pairs, environment, at);
    lemma_configs_in_order(pairs, environment);
    lemma_specs_in_order(after_configs(pairs, environment), specs, configs, environment);
}

/// The models of a runtime are those of the steps that were taken, each under its own selection: a
/// step that builds a model adds that model, and no other step adds one.
pub proof fn law_runtime_holds_every_model<C, M>(
    steps: Seq<StepView>,
    built: Seq<Built<C, M>>,
    at: int,
) -> (found: int)
    requires
        0 <= at < built.len() <= steps.len(),
        steps[at] is Model,
        built[at] is Model,
    ensures
        0 <= found < built_models(steps, built).len(),
        steps[at] matches BuildStep::Model { spec } && (built[at] matches Built::Model(model)
            && built_models(steps, built)[found] == (spec, model)),
    decreases built.len(),
{
    let before = built.drop_last();
    if at < before.len() {
        assert(before[at] == built[at]);
        law_runtime_holds_every_model(steps, before, at)
    } else {
        built_models(steps, before).len() as int
    }
}

/// A startup that succeeds holds a model for every selection that was asked for.
pub proof fn law_successful_startup_has_every_model<
    C,
    M,
    E: EnvironmentSource,
    F: Fn(&ClientPlan) -> Result<C, String>,
    G: Fn(&C, &ModelId) -> M,
>(
    configs: Map<Seq<char>, ProviderConfig<Seq<char>>>,
    specs: Seq<(Seq<char>, Seq<char>)>,
    environment: &E,
    new_client: F,
    new_model: G,
    built: Seq<Built<C, M>>,
    runtime: ModelRuntime<M>,
    k: int,
) -> (found: int)
    requires
        configs.dom().finite(),
        0 <= k < specs.len(),
        is_startup(
            runtime_plan(configs, specs, environment),
            new_client,
            new_model,
            built,
            Ok::<ModelRuntime<M>, ProviderError>(runtime),
        ),
    ensures
        0 <= found < runtime.models().len(),
        runtime.models()[found].0 == specs[k],
{
    let plan = runtime_plan(configs, specs, environment);
    law_startup_builds_each_thing_once(configs, specs, environment);
    assert(has_model(plan.steps, specs[k]));
    let i = choose|i: int|
        0 <= i < plan.steps.len() && (#[trigger] plan.steps[i] matches BuildStep::Model { spec }
            && spec == specs[k]);
    assert(built_at(plan.steps, built, i, new_client, new_model));
    law_runtime_holds_every_model(plan.steps, built, i)
}

/// As many clients count as built as there are clients among what was built, whatever else was.
pub proof fn law_clients_are_counted_one_by_one<C, M>(
    first: Seq<Built<C, M>>,
    second: Seq<Built<C, M>>,
    one: Built<C, M>,
)
    ensures
        client_total(first + second) == client_total(first) + client_total(second),
        client_total(seq![one]) == if one is Client {
            1int
        } else {
            0
        },
    decreases second.len(),
{
    if second.len() == 0 {
        assert(first + second =~= first);
    } else {
        law_clients_are_counted_one_by_one(first, second.drop_last(), one);
        assert((first + second).drop_last() =~= first + second.drop_last());
        assert((first + second).last() == second.last());
    }
    assert(seq![one].drop_last() =~= Seq::empty());
    assert(client_total(seq![one].drop_last()) == 0);
}

/// The kind of settings that a provider takes is known exactly for the providers that are known, and
/// it is the only kind from which a client of that provider can be planned.
pub proof fn law_profile_is_the_kind_that_is_planned<E: EnvironmentSource>(
    name: Seq<char>,
    config: ProviderConfig<Seq<char>>,
    environment: &E,
)
    ensures
        profile_of(name) is Ok <==> is_provider_name(name),
        client_plan(name, Some(config), environment) is Ok ==> (profile_of(name) matches Ok(profile)
            && match profile {
            Profile::Keyed => config is Keyed,
            Profile::Ollama => config is Ollama,
            Profile::Llamafile => config is Llamafile,
            Profile::Azure => config is Azure,
            Profile::ChatGpt => config is ChatGpt,
            Profile::Copilot => config is Copilot,
        }),
{
    super::registry::lemma_row_of(name);
    super::client::law_planned_client_is_of_the_right_kind(name, Some(config), environment);
}

} // verus!
