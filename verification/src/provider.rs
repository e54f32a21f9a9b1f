//! The primitive LLM client providers and the dispatch over them.

use std::sync::Arc;

use vstd::prelude::*;

use crate::json::JsonValue;

verus! {

/// Which message roles may carry metadata.
#[derive(Debug)]
pub enum AllowedRoleMetadata {
    All,
    NoRoles,
    Only(Vec<String>),
}

/// Which finish reasons of a response are accepted.
#[derive(Debug)]
pub enum FinishReasonFilter {
    All,
    AllowList(Vec<String>),
    DenyList(Vec<String>),
}

/// What a prompt renderer knows of a client.
#[derive(Debug)]
pub struct RenderContextClient {
    pub name: String,
    pub provider: String,
    pub default_role: String,
    pub allowed_roles: Vec<String>,
}

/// The resolved settings of a client, as its provider methods report them.
#[derive(Debug)]
pub struct ClientSettings {
    pub context: RenderContextClient,
    pub retry_policy: Option<String>,
    pub allowed_metadata: AllowedRoleMetadata,
    pub supports_streaming: bool,
    pub finish_reason_filter: FinishReasonFilter,
    pub request_options: Vec<(String, JsonValue)>,
}

/// A client of the OpenAI API (and of the APIs compatible with it).
#[derive(Debug)]
pub struct OpenAIClient {
    pub settings: ClientSettings,
}

/// A client of the Anthropic API.
#[derive(Debug)]
pub struct AnthropicClient {
    pub settings: ClientSettings,
}

/// A client of the Google AI API.
#[derive(Debug)]
pub struct GoogleAIClient {
    pub settings: ClientSettings,
}

/// A client of the Vertex AI API.
#[derive(Debug)]
pub struct VertexClient {
    pub settings: ClientSettings,
}

/// A client of AWS Bedrock.
#[derive(Debug)]
pub struct AwsClient {
    pub settings: ClientSettings,
}

/// A primitive client, named by its type.
#[derive(Debug)]
pub enum LLMPrimitive2 {
    OpenAIClient(OpenAIClient),
    AnthropicClient(AnthropicClient),
    GoogleAIClient(GoogleAIClient),
    VertexClient(VertexClient),
    AwsClient(AwsClient),
}

/// A primitive client, named by its provider.
#[derive(Debug)]
pub enum LLMPrimitiveProvider {
    OpenAI(OpenAIClient),
    Anthropic(AnthropicClient),
    Google(GoogleAIClient),
    Vertex(VertexClient),
    Aws(AwsClient),
}

impl LLMPrimitive2 {
    /// The settings of the client inside.
    pub open spec fn spec_settings(self) -> ClientSettings {
        match self {
            LLMPrimitive2::OpenAIClient(c) => c.settings,
            LLMPrimitive2::AnthropicClient(c) => c.settings,
            LLMPrimitive2::GoogleAIClient(c) => c.settings,
            LLMPrimitive2::VertexClient(c) => c.settings,
            LLMPrimitive2::AwsClient(c) => c.settings,
        }
    }

    /// The name of the retry policy of the client inside, if it has one.
    pub fn retry_policy_name(&self) -> (r: Option<&str>)
        ensures
            r is Some <==> self.spec_settings().retry_policy is Some,
            r matches Some(s) ==> s@ == self.spec_settings().retry_policy->0@,
    {
        let policy = match self {
            LLMPrimitive2::OpenAIClient(c) => &c.settings.retry_policy,
            LLMPrimitive2::AnthropicClient(c) => &c.settings.retry_policy,
            LLMPrimitive2::GoogleAIClient(c) => &c.settings.retry_policy,
            LLMPrimitive2::VertexClient(c) => &c.settings.retry_policy,
            LLMPrimitive2::AwsClient(c) => &c.settings.retry_policy,
        };
        match policy {
            Some(p) => Some(p.as_str()),
            None => None,
        }
    }
}

impl LLMPrimitiveProvider {
    /// The settings of the client inside.
    pub open spec fn spec_settings(self) -> ClientSettings {
        match self {
            LLMPrimitiveProvider::OpenAI(c) => c.settings,
            LLMPrimitiveProvider::Anthropic(c) => c.settings,
            LLMPrimitiveProvider::Google(c) => c.settings,
            LLMPrimitiveProvider::Vertex(c) => c.settings,
            LLMPrimitiveProvider::Aws(c) => c.settings,
        }
    }

    /// The display name of the provider.
    pub open spec fn spec_display_name(self) -> Seq<char> {
        match self {
            LLMPrimitiveProvider::OpenAI(_) => "OpenAI"@,
            LLMPrimitiveProvider::Anthropic(_) => "Anthropic"@,
            LLMPrimitiveProvider::Google(_) => "Google"@,
            LLMPrimitiveProvider::Aws(_) => "AWS"@,
            LLMPrimitiveProvider::Vertex(_) => "Vertex"@,
        }
    }

    fn settings(&self) -> (r: &ClientSettings)
        ensures
            *r == self.spec_settings(),
    {
        match self {
            LLMPrimitiveProvider::OpenAI(client) => &client.settings,
            LLMPrimitiveProvider::Anthropic(client) => &client.settings,
            LLMPrimitiveProvider::Google(client) => &client.settings,
            LLMPrimitiveProvider::Aws(client) => &client.settings,
            LLMPrimitiveProvider::Vertex(client) => &client.settings,
        }
    }

    /// The name of the client's retry policy, if it has one.
    pub fn retry_policy_name(&self) -> (r: Option<&str>)
        ensures
            r is Some <==> self.spec_settings().retry_policy is Some,
            r matches Some(s) ==> s@ == self.spec_settings().retry_policy->0@,
    {
        match &self.settings().retry_policy {
            Some(p) => Some(p.as_str()),
            None => None,
        }
    }

    /// The roles that may carry metadata.
    pub fn allowed_metadata(&self) -> (r: &AllowedRoleMetadata)
        ensures
            *r == self.spec_settings().allowed_metadata,
    {
        &self.settings().allowed_metadata
    }

    /// Whether the client can stream its responses.
    pub fn supports_streaming(&self) -> (r: bool)
        ensures
            r == self.spec_settings().supports_streaming,
    {
        self.settings().supports_streaming
    }

    /// The filter on finish reasons.
    pub fn finish_reason_filter(&self) -> (r: &FinishReasonFilter)
        ensures
            *r == self.spec_settings().finish_reason_filter,
    {
        &self.settings().finish_reason_filter
    }

    /// The role of a message that names none.
    pub fn default_role(&self) -> (r: String)
        ensures
            r@ == self.spec_settings().context.default_role@,
    {
        self.settings().context.default_role.clone()
    }

    /// The roles that messages to this client may have.
    pub fn allowed_roles(&self) -> (r: Vec<String>)
        ensures
            r@.len() == self.spec_settings().context.allowed_roles@.len(),
            forall|i: int|
                0 <= i < r@.len() ==> #[trigger] r@[i]@
                    == self.spec_settings().context.allowed_roles@[i]@,
    {
        let roles = &self.settings().context.allowed_roles;
        let r = roles.clone();
        assert forall|i: int| 0 <= i < r@.len() implies #[trigger] r@[i]@ == roles@[i]@ by {
            assert(cloned::<String>(roles[i], r[i]));
        }
        r
    }

    /// The client's name.
    pub fn name(&self) -> (r: &str)
        ensures
            r@ == self.spec_settings().context.name@,
    {
        self.settings().context.name.as_str()
    }

    /// The options the client adds to each request.
    pub fn request_options(&self) -> (r: &Vec<(String, JsonValue)>)
        ensures
            *r == self.spec_settings().request_options,
    {
        &self.settings().request_options
    }

    /// The display name of the provider: `OpenAI`, `Anthropic`, `Google`, `AWS` or `Vertex`.
    pub fn display_name(&self) -> (r: &'static str)
        ensures
            r@ == self.spec_display_name(),
    {
        match self {
            LLMPrimitiveProvider::OpenAI(_) => "OpenAI",
            LLMPrimitiveProvider::Anthropic(_) => "Anthropic",
            LLMPrimitiveProvider::Google(_) => "Google",
            LLMPrimitiveProvider::Aws(_) => "AWS",
            LLMPrimitiveProvider::Vertex(_) => "Vertex",
        }
    }
}

impl vstd::std_specs::convert::FromSpecImpl<OpenAIClient> for LLMPrimitiveProvider {
    open spec fn obeys_from_spec() -> bool {
        true
    }

    open spec fn from_spec(client: OpenAIClient) -> Self {
        LLMPrimitiveProvider::OpenAI(client)
    }
}

impl From<OpenAIClient> for LLMPrimitiveProvider {
    fn from(client: OpenAIClient) -> (r: Self) {
        LLMPrimitiveProvider::OpenAI(client)
    }
}

impl vstd::std_specs::convert::FromSpecImpl<AnthropicClient> for LLMPrimitiveProvider {
    open spec fn obeys_from_spec() -> bool {
        true
    }

    open spec fn from_spec(client: AnthropicClient) -> Self {
        LLMPrimitiveProvider::Anthropic(client)
    }
}

impl From<AnthropicClient> for LLMPrimitiveProvider {
    fn from(client: AnthropicClient) -> (r: Self) {
        LLMPrimitiveProvider::Anthropic(client)
    }
}

impl vstd::std_specs::convert::FromSpecImpl<GoogleAIClient> for LLMPrimitiveProvider {
    open spec fn obeys_from_spec() -> bool {
        true
    }

    open spec fn from_spec(client: GoogleAIClient) -> Self {
        LLMPrimitiveProvider::Google(client)
    }
}

impl From<GoogleAIClient> for LLMPrimitiveProvider {
    fn from(client: GoogleAIClient) -> (r: Self) {
        LLMPrimitiveProvider::Google(client)
    }
}

impl vstd::std_specs::convert::FromSpecImpl<VertexClient> for LLMPrimitiveProvider {
    open spec fn obeys_from_spec() -> bool {
        true
    }

    open spec fn from_spec(client: VertexClient) -> Self {
        LLMPrimitiveProvider::Vertex(client)
    }
}

impl From<VertexClient> for LLMPrimitiveProvider {
    fn from(client: VertexClient) -> (r: Self) {
        LLMPrimitiveProvider::Vertex(client)
    }
}

impl vstd::std_specs::convert::FromSpecImpl<AwsClient> for LLMPrimitiveProvider {
    open spec fn obeys_from_spec() -> bool {
        true
    }

    open spec fn from_spec(client: AwsClient) -> Self {
        LLMPrimitiveProvider::Aws(client)
    }
}

impl From<AwsClient> for LLMPrimitiveProvider {
    fn from(client: AwsClient) -> (r: Self) {
        LLMPrimitiveProvider::Aws(client)
    }
}

impl vstd::std_specs::convert::FromSpecImpl<OpenAIClient> for LLMPrimitive2 {
    open spec fn obeys_from_spec() -> bool {
        true
    }

    open spec fn from_spec(client: OpenAIClient) -> Self {
        LLMPrimitive2::OpenAIClient(client)
    }
}

impl From<OpenAIClient> for LLMPrimitive2 {
    fn from(client: OpenAIClient) -> (r: Self) {
        LLMPrimitive2::OpenAIClient(client)
    }
}

impl vstd::std_specs::convert::FromSpecImpl<AnthropicClient> for LLMPrimitive2 {
    open spec fn obeys_from_spec() -> bool {
        true
    }

    open spec fn from_spec(client: AnthropicClient) -> Self {
        LLMPrimitive2::AnthropicClient(client)
    }
}

impl From<AnthropicClient> for LLMPrimitive2 {
    fn from(client: AnthropicClient) -> (r: Self) {
        LLMPrimitive2::AnthropicClient(client)
    }
}

impl vstd::std_specs::convert::FromSpecImpl<GoogleAIClient> for LLMPrimitive2 {
    open spec fn obeys_from_spec() -> bool {
        true
    }

    open spec fn from_spec(client: GoogleAIClient) -> Self {
        LLMPrimitive2::GoogleAIClient(client)
    }
}

impl From<GoogleAIClient> for LLMPrimitive2 {
    fn from(client: GoogleAIClient) -> (r: Self) {
        LLMPrimitive2::GoogleAIClient(client)
    }
}

impl vstd::std_specs::convert::FromSpecImpl<VertexClient> for LLMPrimitive2 {
    open spec fn obeys_from_spec() -> bool {
        true
    }

    open spec fn from_spec(client: VertexClient) -> Self {
        LLMPrimitive2::VertexClient(client)
    }
}

impl From<VertexClient> for LLMPrimitive2 {
    fn from(client: VertexClient) -> (r: Self) {
        LLMPrimitive2::VertexClient(client)
    }
}

impl vstd::std_specs::convert::FromSpecImpl<AwsClient> for LLMPrimitive2 {
    open spec fn obeys_from_spec() -> bool {
        true
    }

    open spec fn from_spec(client: AwsClient) -> Self {
        LLMPrimitive2::AwsClient(client)
    }
}

impl From<AwsClient> for LLMPrimitive2 {
    fn from(client: AwsClient) -> (r: Self) {
        LLMPrimitive2::AwsClient(client)
    }
}

/// The variant of `OpenAIClientProviderVariant` an OpenAI provider is configured as.
#[derive(Debug, PartialEq, Eq, Structural, Clone, Copy)]
pub enum OpenAIClientProviderVariant {
    Base,
    Ollama,
    Azure,
    Generic,
}

/// A client that combines other clients.
#[derive(Debug, PartialEq, Eq, Structural, Clone, Copy)]
pub enum StrategyClientProvider {
    Fallback,
    RoundRobin,
}

/// The provider a client is configured with.
#[derive(Debug, PartialEq, Eq, Structural, Clone, Copy)]
pub enum ClientProvider {
    OpenAI(OpenAIClientProviderVariant),
    Anthropic,
    AwsBedrock,
    GoogleAi,
    Vertex,
    Strategy(StrategyClientProvider),
}

/// The constructor that builds the primitive client of a provider.
#[derive(Debug, PartialEq, Eq, Structural, Clone, Copy)]
pub enum ClientConstructor {
    OpenAI,
    OpenAIOllama,
    OpenAIAzure,
    OpenAIGeneric,
    Anthropic,
    AwsBedrock,
    GoogleAi,
    Vertex,
}

/// The constructor for each provider that has a primitive client; strategy providers
/// (fallback, round-robin) have none.
pub open spec fn spec_constructor_for(provider: ClientProvider) -> Option<ClientConstructor> {
    match provider {
        ClientProvider::OpenAI(v) => Some(
            match v {
                OpenAIClientProviderVariant::Base => ClientConstructor::OpenAI,
                OpenAIClientProviderVariant::Ollama => ClientConstructor::OpenAIOllama,
                OpenAIClientProviderVariant::Azure => ClientConstructor::OpenAIAzure,
                OpenAIClientProviderVariant::Generic => ClientConstructor::OpenAIGeneric,
            },
        ),
        ClientProvider::Anthropic => Some(ClientConstructor::Anthropic),
        ClientProvider::AwsBedrock => Some(ClientConstructor::AwsBedrock),
        ClientProvider::GoogleAi => Some(ClientConstructor::GoogleAi),
        ClientProvider::Vertex => Some(ClientConstructor::Vertex),
        ClientProvider::Strategy(_) => None,
    }
}

/// Chooses how to build the primitive client of a provider. Strategy providers
/// (fallback, round-robin) have no primitive client.
pub fn constructor_for(provider: &ClientProvider) -> (r: ClientConstructor)
    requires
        !(provider is Strategy),
    ensures
        spec_constructor_for(*provider) == Some(r),
{
    match provider {
        ClientProvider::OpenAI(variant) => match variant {
            OpenAIClientProviderVariant::Base => ClientConstructor::OpenAI,
            OpenAIClientProviderVariant::Ollama => ClientConstructor::OpenAIOllama,
            OpenAIClientProviderVariant::Azure => ClientConstructor::OpenAIAzure,
            OpenAIClientProviderVariant::Generic => ClientConstructor::OpenAIGeneric,
        },
        ClientProvider::Anthropic => ClientConstructor::Anthropic,
        ClientProvider::AwsBedrock => ClientConstructor::AwsBedrock,
        ClientProvider::GoogleAi => ClientConstructor::GoogleAi,
        ClientProvider::Vertex => ClientConstructor::Vertex,
        ClientProvider::Strategy(_) => {
            proof {
                assert(false);
            }
            ClientConstructor::Vertex
        },
    }
}

/// The constructors of the primitive clients, as the runtime provides them (from a client
/// property, or from a client declared in the program). `openai` is told which of the
/// OpenAI-compatible constructors to use.
pub trait PrimitiveClientBuilder {
    type Error;

    fn openai(&self, constructor: ClientConstructor) -> Result<OpenAIClient, Self::Error>;

    fn anthropic(&self) -> Result<AnthropicClient, Self::Error>;

    fn aws(&self) -> Result<AwsClient, Self::Error>;

    fn google(&self) -> Result<GoogleAIClient, Self::Error>;

    fn vertex(&self) -> Result<VertexClient, Self::Error>;
}

/// The primitive provider `p` wraps the kind of client that `provider` names.
pub open spec fn provider_matches(p: LLMPrimitiveProvider, provider: ClientProvider) -> bool {
    match provider {
        ClientProvider::OpenAI(_) => p is OpenAI,
        ClientProvider::Anthropic => p is Anthropic,
        ClientProvider::AwsBedrock => p is Aws,
        ClientProvider::GoogleAi => p is Google,
        ClientProvider::Vertex => p is Vertex,
        ClientProvider::Strategy(_) => false,
    }
}

/// `r` is a result that the builder's constructor for `provider` may return, with the
/// client it built wrapped as a primitive provider and its error passed on.
pub open spec fn built_by<B: PrimitiveClientBuilder>(
    builder: &B,
    provider: ClientProvider,
    r: Result<LLMPrimitiveProvider, B::Error>,
) -> bool {
    match spec_constructor_for(provider) {
        Some(ClientConstructor::Anthropic) => exists|x: Result<AnthropicClient, B::Error>|
            call_ensures(B::anthropic, (builder,), x) && r == match x {
                Ok(c) => Ok(LLMPrimitiveProvider::Anthropic(c)),
                Err(e) => Err(e),
            },
        Some(ClientConstructor::AwsBedrock) => exists|x: Result<AwsClient, B::Error>|
            call_ensures(B::aws, (builder,), x) && r == match x {
                Ok(c) => Ok(LLMPrimitiveProvider::Aws(c)),
                Err(e) => Err(e),
            },
        Some(ClientConstructor::GoogleAi) => exists|x: Result<GoogleAIClient, B::Error>|
            call_ensures(B::google, (builder,), x) && r == match x {
                Ok(c) => Ok(LLMPrimitiveProvider::Google(c)),
                Err(e) => Err(e),
            },
        Some(ClientConstructor::Vertex) => exists|x: Result<VertexClient, B::Error>|
            call_ensures(B::vertex, (builder,), x) && r == match x {
                Ok(c) => Ok(LLMPrimitiveProvider::Vertex(c)),
                Err(e) => Err(e),
            },
        Some(openai) => exists|x: Result<OpenAIClient, B::Error>|
            call_ensures(B::openai, (builder, openai), x) && r == match x {
                Ok(c) => Ok(LLMPrimitiveProvider::OpenAI(c)),
                Err(e) => Err(e),
            },
        None => false,
    }
}

impl LLMPrimitiveProvider {
    /// Builds the primitive provider of a configured client with the constructor that its
    /// provider calls for (`openai` is handed `spec_constructor_for(provider)`): the
    /// constructor's client, wrapped, or its error, passed on. Strategy providers have no
    /// primitive client.
    pub fn try_from_provider<B: PrimitiveClientBuilder>(provider: &ClientProvider, builder: &B) -> (r:
        Result<LLMPrimitiveProvider, B::Error>)
        requires
            !(provider is Strategy),
        ensures
            r matches Ok(p) ==> provider_matches(p, *provider),
            built_by(builder, *provider, r),
    {
        match constructor_for(provider) {
            ClientConstructor::Anthropic => match builder.anthropic() {
                Ok(c) => Ok(LLMPrimitiveProvider::from(c)),
                Err(e) => Err(e),
            },
            ClientConstructor::AwsBedrock => match builder.aws() {
                Ok(c) => Ok(LLMPrimitiveProvider::from(c)),
                Err(e) => Err(e),
            },
            ClientConstructor::GoogleAi => match builder.google() {
                Ok(c) => Ok(LLMPrimitiveProvider::from(c)),
                Err(e) => Err(e),
            },
            ClientConstructor::Vertex => match builder.vertex() {
                Ok(c) => Ok(LLMPrimitiveProvider::from(c)),
                Err(e) => Err(e),
            },
            openai => match builder.openai(openai) {
                Ok(c) => Ok(LLMPrimitiveProvider::from(c)),
                Err(e) => Err(e),
            },
        }
    }
}

/// Distinct providers with a primitive client are built by distinct constructors.
pub proof fn law_constructor_for_injective(p: ClientProvider, q: ClientProvider)
    requires
        spec_constructor_for(p) is Some,
        spec_constructor_for(p) == spec_constructor_for(q),
    ensures
        p == q,
{
}

/// Whatever client a provider wraps, the provider reports that client's settings.
pub proof fn law_from_client_settings(c: OpenAIClient, a: AnthropicClient, g: GoogleAIClient, v: VertexClient, w: AwsClient)
    ensures
        <LLMPrimitiveProvider as vstd::std_specs::convert::FromSpec<OpenAIClient>>::from_spec(c).spec_settings() == c.settings,
        <LLMPrimitiveProvider as vstd::std_specs::convert::FromSpec<AnthropicClient>>::from_spec(a).spec_settings() == a.settings,
        <LLMPrimitiveProvider as vstd::std_specs::convert::FromSpec<GoogleAIClient>>::from_spec(g).spec_settings() == g.settings,
        <LLMPrimitiveProvider as vstd::std_specs::convert::FromSpec<VertexClient>>::from_spec(v).spec_settings() == v.settings,
        <LLMPrimitiveProvider as vstd::std_specs::convert::FromSpec<AwsClient>>::from_spec(w).spec_settings() == w.settings,
{
}

/// One step of an execution plan.
#[derive(Debug)]
pub enum ExecutionScope {
    /// Calling a client directly, by name.
    Direct(String),
}

/// A client to call, with the scope it is called in.
pub struct OrchestratorNode {
    pub scope: Vec<ExecutionScope>,
    pub provider: Arc<LLMPrimitiveProvider>,
}

/// Types that can plan the calls of a request.
pub trait IterOrchestrator {
    /// The calls to make, in order.
    fn iter_orchestrator(&self) -> Vec<OrchestratorNode>;
}

/// Calls `Arc::clone` (std). Trusted: the new handle points to the same provider
/// (spec equality of two `Arc`s is equality of the values they point to).
#[verifier::external_body]
fn share_provider(p: &Arc<LLMPrimitiveProvider>) -> (r: Arc<LLMPrimitiveProvider>)
    ensures
        r == *p,
{
    p.clone()
}

impl IterOrchestrator for Arc<LLMPrimitiveProvider> {
    /// A primitive client is called once, directly, under its own name.
    fn iter_orchestrator(&self) -> (r: Vec<OrchestratorNode>)
        ensures
            r@.len() == 1,
            r@[0].provider == *self,
            r@[0].scope@.len() == 1,
            r@[0].scope@[0] matches ExecutionScope::Direct(n) && n@ == (**self).spec_settings().context.name@,
    {
        let name = String::from_str(self.name());
        let mut scope: Vec<ExecutionScope> = Vec::new();
        scope.push(ExecutionScope::Direct(name));
        let mut r: Vec<OrchestratorNode> = Vec::new();
        r.push(OrchestratorNode { scope, provider: share_provider(self) });
        r
    }
}

} // verus!
