use std::sync::Arc;

use baml_engine::json::JsonValue;
use baml_engine::provider::{
    constructor_for, AllowedRoleMetadata, AnthropicClient, AwsClient, ClientConstructor,
    ClientProvider, ClientSettings, ExecutionScope, FinishReasonFilter, GoogleAIClient,
    IterOrchestrator, LLMPrimitive2, LLMPrimitiveProvider, OpenAIClient,
    OpenAIClientProviderVariant, PrimitiveClientBuilder, RenderContextClient, VertexClient,
};

fn settings(name: &str, retry: Option<&str>) -> ClientSettings {
    ClientSettings {
        context: RenderContextClient {
            name: name.to_string(),
            provider: "openai".to_string(),
            default_role: "user".to_string(),
            allowed_roles: vec!["system".to_string(), "user".to_string()],
        },
        retry_policy: retry.map(|r| r.to_string()),
        allowed_metadata: AllowedRoleMetadata::Only(vec!["user".to_string()]),
        supports_streaming: true,
        finish_reason_filter: FinishReasonFilter::DenyList(vec!["length".to_string()]),
        request_options: vec![("temperature".to_string(), JsonValue::Number("0.5".to_string()))],
    }
}

#[test]
fn provider_reports_client_settings() {
    let p: LLMPrimitiveProvider = OpenAIClient { settings: settings("GPT4", Some("Retry3")) }.into();
    assert_eq!(p.name(), "GPT4");
    assert_eq!(p.retry_policy_name(), Some("Retry3"));
    assert!(p.supports_streaming());
    assert_eq!(p.default_role(), "user");
    assert_eq!(p.allowed_roles(), vec!["system".to_string(), "user".to_string()]);
    assert!(matches!(p.allowed_metadata(), AllowedRoleMetadata::Only(v) if v == &vec!["user".to_string()]));
    assert!(matches!(p.finish_reason_filter(), FinishReasonFilter::DenyList(_)));
    assert_eq!(
        p.request_options(),
        &vec![("temperature".to_string(), JsonValue::Number("0.5".to_string()))]
    );
}

#[test]
fn provider_without_retry_policy() {
    let p: LLMPrimitiveProvider = AwsClient { settings: settings("Bedrock", None) }.into();
    assert_eq!(p.retry_policy_name(), None);
}

#[test]
fn provider_display_names() {
    let names: Vec<&str> = vec![
        LLMPrimitiveProvider::from(OpenAIClient { settings: settings("a", None) }).display_name(),
        LLMPrimitiveProvider::from(AnthropicClient { settings: settings("b", None) })
            .display_name(),
        LLMPrimitiveProvider::from(GoogleAIClient { settings: settings("c", None) })
            .display_name(),
        LLMPrimitiveProvider::from(VertexClient { settings: settings("d", None) }).display_name(),
        LLMPrimitiveProvider::from(AwsClient { settings: settings("e", None) }).display_name(),
    ];
    assert_eq!(names, vec!["OpenAI", "Anthropic", "Google", "Vertex", "AWS"]);
}

#[test]
fn primitive2_retry_policy() {
    let c: LLMPrimitive2 = GoogleAIClient { settings: settings("g", Some("Exp")) }.into();
    assert_eq!(c.retry_policy_name(), Some("Exp"));
    let c: LLMPrimitive2 = VertexClient { settings: settings("v", None) }.into();
    assert_eq!(c.retry_policy_name(), None);
}

#[test]
fn constructors_by_provider() {
    assert_eq!(
        constructor_for(&ClientProvider::OpenAI(OpenAIClientProviderVariant::Base)),
        ClientConstructor::OpenAI
    );
    assert_eq!(
        constructor_for(&ClientProvider::OpenAI(OpenAIClientProviderVariant::Ollama)),
        ClientConstructor::OpenAIOllama
    );
    assert_eq!(
        constructor_for(&ClientProvider::OpenAI(OpenAIClientProviderVariant::Azure)),
        ClientConstructor::OpenAIAzure
    );
    assert_eq!(
        constructor_for(&ClientProvider::OpenAI(OpenAIClientProviderVariant::Generic)),
        ClientConstructor::OpenAIGeneric
    );
    assert_eq!(constructor_for(&ClientProvider::Anthropic), ClientConstructor::Anthropic);
    assert_eq!(constructor_for(&ClientProvider::AwsBedrock), ClientConstructor::AwsBedrock);
    assert_eq!(constructor_for(&ClientProvider::GoogleAi), ClientConstructor::GoogleAi);
    assert_eq!(constructor_for(&ClientProvider::Vertex), ClientConstructor::Vertex);
}

#[test]
fn orchestrator_calls_the_client_directly() {
    let p = Arc::new(LLMPrimitiveProvider::from(AnthropicClient {
        settings: settings("Sonnet", None),
    }));
    let nodes = p.iter_orchestrator();
    assert_eq!(nodes.len(), 1);
    assert_eq!(nodes[0].scope.len(), 1);
    match &nodes[0].scope[0] {
        ExecutionScope::Direct(name) => assert_eq!(name, "Sonnet"),
    }
    assert!(Arc::ptr_eq(&nodes[0].provider, &p));
}

struct Builder {
    fail: bool,
}

impl PrimitiveClientBuilder for Builder {
    type Error = String;

    fn openai(&self, constructor: ClientConstructor) -> Result<OpenAIClient, String> {
        if self.fail {
            return Err("bad options".to_string());
        }
        let name = match constructor {
            ClientConstructor::OpenAIOllama => "ollama",
            ClientConstructor::OpenAIAzure => "azure",
            ClientConstructor::OpenAIGeneric => "generic",
            _ => "openai",
        };
        Ok(OpenAIClient { settings: settings(name, None) })
    }

    fn anthropic(&self) -> Result<AnthropicClient, String> {
        Ok(AnthropicClient { settings: settings("anthropic", None) })
    }

    fn aws(&self) -> Result<AwsClient, String> {
        Ok(AwsClient { settings: settings("aws", None) })
    }

    fn google(&self) -> Result<GoogleAIClient, String> {
        Ok(GoogleAIClient { settings: settings("google", None) })
    }

    fn vertex(&self) -> Result<VertexClient, String> {
        Ok(VertexClient { settings: settings("vertex", None) })
    }
}

#[test]
fn provider_built_by_its_constructor() {
    let ok = Builder { fail: false };
    let p = LLMPrimitiveProvider::try_from_provider(
        &ClientProvider::OpenAI(OpenAIClientProviderVariant::Azure),
        &ok,
    )
    .unwrap();
    assert_eq!(p.name(), "azure");
    assert_eq!(p.display_name(), "OpenAI");
    let p = LLMPrimitiveProvider::try_from_provider(&ClientProvider::AwsBedrock, &ok).unwrap();
    assert_eq!(p.display_name(), "AWS");
    let p = LLMPrimitiveProvider::try_from_provider(&ClientProvider::GoogleAi, &ok).unwrap();
    assert_eq!(p.name(), "google");
}

#[test]
fn constructor_error_is_passed_on() {
    let failing = Builder { fail: true };
    let r = LLMPrimitiveProvider::try_from_provider(
        &ClientProvider::OpenAI(OpenAIClientProviderVariant::Base),
        &failing,
    );
    assert_eq!(r.err(), Some("bad options".to_string()));
    let r = LLMPrimitiveProvider::try_from_provider(&ClientProvider::Anthropic, &failing);
    assert!(r.is_ok());
}
