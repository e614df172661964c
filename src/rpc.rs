//! The JSON-RPC surface: the error envelope and the table of methods.

use vstd::prelude::*;
use crate::text::same;

verus! {

/// Error envelope shared by both transports.
#[derive(Debug)]
pub struct RpcError {
    pub code: i64,
    pub message: String,
}

/// Code for an unknown method.
pub const METHOD_NOT_FOUND: i64 = -32601;

/// Code for parameters that do not have the expected shape.
pub const INVALID_PARAMS: i64 = -32602;

/// Code for an internal failure.
pub const INTERNAL_ERROR: i64 = -32603;

/// Code for a failure of the domain (registry, guest, tool queue).
pub const SERVER_ERROR: i64 = -32000;

/// Code for a failure reported by a language-model provider.
pub const PROVIDER_ERROR: i64 = -32001;

/// Code for text that is not JSON.
pub const PARSE_ERROR: i64 = -32700;

impl RpcError {
    pub fn new(code: i64, message: String) -> (r: RpcError)
        ensures
            r.code == code,
            r.message == message,
    {
        RpcError { code, message }
    }

    /// The error for a method that no handler serves.
    pub fn method_not_found(method: &str) -> (r: RpcError)
        ensures
            r.code == METHOD_NOT_FOUND,
            r.message@ == "Unknown method: "@ + method@,
    {
        let mut m = String::from_str("Unknown method: ");
        m.append(method);
        RpcError::new(METHOD_NOT_FOUND, m)
    }

    /// The error for parameters of the wrong shape.
    pub fn invalid_params(message: String) -> (r: RpcError)
        ensures
            r.code == INVALID_PARAMS,
            r.message == message,
    {
        RpcError::new(INVALID_PARAMS, message)
    }

    /// The error for an internal failure.
    pub fn internal(message: String) -> (r: RpcError)
        ensures
            r.code == INTERNAL_ERROR,
            r.message == message,
    {
        RpcError::new(INTERNAL_ERROR, message)
    }

    /// A copy of this error.
    pub fn duplicate(&self) -> (r: RpcError)
        ensures
            r.code == self.code,
            r.message == self.message,
    {
        RpcError { code: self.code, message: self.message.clone() }
    }
}

/// The one method whose answer is a stream of events rather than a single
/// response.
pub open spec fn is_streaming_spec(method: Seq<char>) -> bool {
    method == "llm.chat_stream"@
}

/// Whether `method` is answered as a stream.
pub fn is_streaming_method(method: &str) -> (r: bool)
    ensures
        r == is_streaming_spec(method@),
{
    same(method, "llm.chat_stream")
}

/// The answer of `system.health`.
pub open spec fn health_spec() -> Seq<char> {
    "{\"status\":\"ok\"}"@
}

/// The answer of `system.health`, as JSON text. It reads no state, so every
/// call gives the same answer.
pub fn system_health() -> (r: String)
    ensures
        r@ == health_spec(),
{
    String::from_str("{\"status\":\"ok\"}")
}

/// The methods that have a handler.
#[derive(Clone, Copy, PartialEq, Eq, Structural, Debug)]
pub enum Method {
    FsList,
    FsRead,
    FsWrite,
    JsCall,
    JsListServers,
    JsStartServer,
    JsStopServer,
    LlmAddConfiguredModel,
    LlmAddProvider,
    LlmChat,
    LlmCheckProvider,
    LlmConfigureProvider,
    LlmGetConfig,
    LlmGetConfiguredModelsMetadata,
    LlmHealth,
    LlmListConfiguredModels,
    LlmListModels,
    LlmListProviderTypes,
    LlmListProviders,
    LlmRemoveConfiguredModel,
    LlmRemoveProvider,
    LlmSetConfiguredModelDefault,
    LlmSetDefaultModel,
    LlmSetDefaultProvider,
    LlmSetTypeDefault,
    McpCallTool,
    McpListTools,
    McpPollPendingCalls,
    McpRegisterTools,
    McpSubmitCallResult,
    McpUnregisterTools,
    OauthGetCredentialsStatus,
    OauthGetTokens,
    OauthListProviders,
    OauthRemoveCredentials,
    OauthRevoke,
    OauthSetCredentials,
    OauthStartFlow,
    OauthStatus,
    SystemHealth,
}

/// The wire name of a method.
pub open spec fn method_name(m: Method) -> Seq<char> {
    match m {
        Method::FsList => "fs.list"@,
        Method::FsRead => "fs.read"@,
        Method::FsWrite => "fs.write"@,
        Method::JsCall => "js.call"@,
        Method::JsListServers => "js.list_servers"@,
        Method::JsStartServer => "js.start_server"@,
        Method::JsStopServer => "js.stop_server"@,
        Method::LlmAddConfiguredModel => "llm.add_configured_model"@,
        Method::LlmAddProvider => "llm.add_provider"@,
        Method::LlmChat => "llm.chat"@,
        Method::LlmCheckProvider => "llm.check_provider"@,
        Method::LlmConfigureProvider => "llm.configure_provider"@,
        Method::LlmGetConfig => "llm.get_config"@,
        Method::LlmGetConfiguredModelsMetadata => "llm.get_configured_models_metadata"@,
        Method::LlmHealth => "llm.health"@,
        Method::LlmListConfiguredModels => "llm.list_configured_models"@,
        Method::LlmListModels => "llm.list_models"@,
        Method::LlmListProviderTypes => "llm.list_provider_types"@,
        Method::LlmListProviders => "llm.list_providers"@,
        Method::LlmRemoveConfiguredModel => "llm.remove_configured_model"@,
        Method::LlmRemoveProvider => "llm.remove_provider"@,
        Method::LlmSetConfiguredModelDefault => "llm.set_configured_model_default"@,
        Method::LlmSetDefaultModel => "llm.set_default_model"@,
        Method::LlmSetDefaultProvider => "llm.set_default_provider"@,
        Method::LlmSetTypeDefault => "llm.set_type_default"@,
        Method::McpCallTool => "mcp.call_tool"@,
        Method::McpListTools => "mcp.list_tools"@,
        Method::McpPollPendingCalls => "mcp.poll_pending_calls"@,
        Method::McpRegisterTools => "mcp.register_tools"@,
        Method::McpSubmitCallResult => "mcp.submit_call_result"@,
        Method::McpUnregisterTools => "mcp.unregister_tools"@,
        Method::OauthGetCredentialsStatus => "oauth.get_credentials_status"@,
        Method::OauthGetTokens => "oauth.get_tokens"@,
        Method::OauthListProviders => "oauth.list_providers"@,
        Method::OauthRemoveCredentials => "oauth.remove_credentials"@,
        Method::OauthRevoke => "oauth.revoke"@,
        Method::OauthSetCredentials => "oauth.set_credentials"@,
        Method::OauthStartFlow => "oauth.start_flow"@,
        Method::OauthStatus => "oauth.status"@,
        Method::SystemHealth => "system.health"@,
    }
}

/// Every method, ordered by wire name.
pub open spec fn all_methods() -> Seq<Method> {
    seq![
        Method::FsList,
        Method::FsRead,
        Method::FsWrite,
        Method::JsCall,
        Method::JsListServers,
        Method::JsStartServer,
        Method::JsStopServer,
        Method::LlmAddConfiguredModel,
        Method::LlmAddProvider,
        Method::LlmChat,
        Method::LlmCheckProvider,
        Method::LlmConfigureProvider,
        Method::LlmGetConfig,
        Method::LlmGetConfiguredModelsMetadata,
        Method::LlmHealth,
        Method::LlmListConfiguredModels,
        Method::LlmListModels,
        Method::LlmListProviderTypes,
        Method::LlmListProviders,
        Method::LlmRemoveConfiguredModel,
        Method::LlmRemoveProvider,
        Method::LlmSetConfiguredModelDefault,
        Method::LlmSetDefaultModel,
        Method::LlmSetDefaultProvider,
        Method::LlmSetTypeDefault,
        Method::McpCallTool,
        Method::McpListTools,
        Method::McpPollPendingCalls,
        Method::McpRegisterTools,
        Method::McpSubmitCallResult,
        Method::McpUnregisterTools,
        Method::OauthGetCredentialsStatus,
        Method::OauthGetTokens,
        Method::OauthListProviders,
        Method::OauthRemoveCredentials,
        Method::OauthRevoke,
        Method::OauthSetCredentials,
        Method::OauthStartFlow,
        Method::OauthStatus,
        Method::SystemHealth,
    ]
}

/// The wire names of every method, in byte order.
pub open spec fn method_names() -> Seq<Seq<char>> {
    all_methods().map_values(|m: Method| method_name(m))
}

impl Method {
    /// The wire name of this method.
    pub fn name(&self) -> (r: &'static str)
        ensures
            r@ == method_name(*self),
    {
        match self {
            Method::FsList => "fs.list",
            Method::FsRead => "fs.read",
            Method::FsWrite => "fs.write",
            Method::JsCall => "js.call",
            Method::JsListServers => "js.list_servers",
            Method::JsStartServer => "js.start_server",
            Method::JsStopServer => "js.stop_server",
            Method::LlmAddConfiguredModel => "llm.add_configured_model",
            Method::LlmAddProvider => "llm.add_provider",
            Method::LlmChat => "llm.chat",
            Method::LlmCheckProvider => "llm.check_provider",
            Method::LlmConfigureProvider => "llm.configure_provider",
            Method::LlmGetConfig => "llm.get_config",
            Method::LlmGetConfiguredModelsMetadata => "llm.get_configured_models_metadata",
            Method::LlmHealth => "llm.health",
            Method::LlmListConfiguredModels => "llm.list_configured_models",
            Method::LlmListModels => "llm.list_models",
            Method::LlmListProviderTypes => "llm.list_provider_types",
            Method::LlmListProviders => "llm.list_providers",
            Method::LlmRemoveConfiguredModel => "llm.remove_configured_model",
            Method::LlmRemoveProvider => "llm.remove_provider",
            Method::LlmSetConfiguredModelDefault => "llm.set_configured_model_default",
            Method::LlmSetDefaultModel => "llm.set_default_model",
            Method::LlmSetDefaultProvider => "llm.set_default_provider",
            Method::LlmSetTypeDefault => "llm.set_type_default",
            Method::McpCallTool => "mcp.call_tool",
            Method::McpListTools => "mcp.list_tools",
            Method::McpPollPendingCalls => "mcp.poll_pending_calls",
            Method::McpRegisterTools => "mcp.register_tools",
            Method::McpSubmitCallResult => "mcp.submit_call_result",
            Method::McpUnregisterTools => "mcp.unregister_tools",
            Method::OauthGetCredentialsStatus => "oauth.get_credentials_status",
            Method::OauthGetTokens => "oauth.get_tokens",
            Method::OauthListProviders => "oauth.list_providers",
            Method::OauthRemoveCredentials => "oauth.remove_credentials",
            Method::OauthRevoke => "oauth.revoke",
            Method::OauthSetCredentials => "oauth.set_credentials",
            Method::OauthStartFlow => "oauth.start_flow",
            Method::OauthStatus => "oauth.status",
            Method::SystemHealth => "system.health",
        }
    }
}

/// Every method, ordered by wire name.
pub fn methods() -> (r: Vec<Method>)
    ensures
        r@ == all_methods(),
{
    let r = vec![
        Method::FsList,
        Method::FsRead,
        Method::FsWrite,
        Method::JsCall,
        Method::JsListServers,
        Method::JsStartServer,
        Method::JsStopServer,
        Method::LlmAddConfiguredModel,
        Method::LlmAddProvider,
        Method::LlmChat,
        Method::LlmCheckProvider,
        Method::LlmConfigureProvider,
        Method::LlmGetConfig,
        Method::LlmGetConfiguredModelsMetadata,
        Method::LlmHealth,
        Method::LlmListConfiguredModels,
        Method::LlmListModels,
        Method::LlmListProviderTypes,
        Method::LlmListProviders,
        Method::LlmRemoveConfiguredModel,
        Method::LlmRemoveProvider,
        Method::LlmSetConfiguredModelDefault,
        Method::LlmSetDefaultModel,
        Method::LlmSetDefaultProvider,
        Method::LlmSetTypeDefault,
        Method::McpCallTool,
        Method::McpListTools,
        Method::McpPollPendingCalls,
        Method::McpRegisterTools,
        Method::McpSubmitCallResult,
        Method::McpUnregisterTools,
        Method::OauthGetCredentialsStatus,
        Method::OauthGetTokens,
        Method::OauthListProviders,
        Method::OauthRemoveCredentials,
        Method::OauthRevoke,
        Method::OauthSetCredentials,
        Method::OauthStartFlow,
        Method::OauthStatus,
        Method::SystemHealth,
    ];
    assert(r@ =~= all_methods());
    r
}

/// Finds the handler for a wire name.
pub fn lookup_method(method: &str) -> (r: Option<Method>)
    ensures
        match r {
            Some(m) => method_name(m) == method@ && all_methods().contains(m),
            None => !method_names().contains(method@),
        },
{
    let all = methods();
    let mut i: usize = 0;
    while i < all.len()
        invariant
            all@ == all_methods(),
            i <= all@.len(),
            forall|j: int| 0 <= j < i ==> method_name(#[trigger] all@[j]) != method@,
        decreases all@.len() - i,
    {
        let m = all[i];
        if same(m.name(), method) {
            assert(all@[i as int] == m);
            return Some(m);
        }
        i = i + 1;
    }
    proof {
        if method_names().contains(method@) {
            let j = choose|j: int| 0 <= j < method_names().len() && method_names()[j] == method@;
            assert(method_name(all@[j]) == method@);
        }
    }
    None
}

/// The wire names of every method, in byte order.
pub fn list_methods() -> (r: Vec<&'static str>)
    ensures
        r@.len() == method_names().len(),
        forall|i: int| 0 <= i < r@.len() ==> (#[trigger] r@[i])@ == method_names()[i],
{
    let all = methods();
    let mut out: Vec<&'static str> = Vec::new();
    let mut i: usize = 0;
    while i < all.len()
        invariant
            all@ == all_methods(),
            i <= all@.len(),
            out@.len() == i,
            forall|j: int| 0 <= j < i ==> (#[trigger] out@[j])@ == method_names()[j],
        decreases all@.len() - i,
    {
        out.push(all[i].name());
        i = i + 1;
    }
    out
}

} // verus!
