//! Runtime configuration and the decisions the runtime makes around a handler.

use crate::request::LambdaRequest;
use std::sync::Arc;
use vstd::prelude::*;

verus! {

/// What is left of `path` once the configured `base` prefix is stripped.
///
/// A path that does not start with `base` is kept as it is; a path that
/// equals `base` becomes `/`.
pub open spec fn spec_strip_base_path(path: Seq<char>, base: Seq<char>) -> Seq<char> {
    if base.is_prefix_of(path) {
        let rest = path.skip(base.len() as int);
        if rest.len() == 0 {
            seq!['/']
        } else {
            rest
        }
    } else {
        path
    }
}

/// Strip a configured base path prefix (e.g. an API Gateway stage like
/// `/prod`) from a request path. When stripping empties the path it is
/// normalized back to `/`. Paths that do not start with `base_path` are
/// returned unchanged.
pub fn strip_base_path(path: &str, base_path: &str) -> (res: String)
    ensures
        res@ == spec_strip_base_path(path@, base_path@),
{
    let path_len = path.unicode_len();
    let base_len = base_path.unicode_len();
    if base_len > path_len {
        return String::from_str(path);
    }
    let mut i: usize = 0;
    while i < base_len
        invariant
            0 <= i <= base_len,
            base_len <= path_len,
            path_len == path@.len(),
            base_len == base_path@.len(),
            forall|j: int| 0 <= j < i ==> path@[j] == base_path@[j],
        decreases base_len - i,
    {
        if path.get_char(i) != base_path.get_char(i) {
            assert(path@.subrange(0, base_len as int)[i as int] != base_path@[i as int]);
            return String::from_str(path);
        }
        i += 1;
    }
    assert(base_path@ =~= path@.subrange(0, base_len as int));
    if base_len == path_len {
        let root = String::from_str("/");
        proof {
            reveal_strlit("/");
        }
        assert(root@ =~= seq!['/']);
        root
    } else {
        let rest = path.substring_char(base_len, path_len);
        assert(rest@ =~= path@.skip(base_len as int));
        String::from_str(rest)
    }
}

/// The path a request is handled under: stripped of the configured base
/// path, if there is one.
pub open spec fn spec_routed_path(config: LambdaConfig, path: Seq<char>) -> Seq<char> {
    match config.base_path {
        Some(base) => spec_strip_base_path(path, base@),
        None => path,
    }
}

/// Without a base path the request keeps its path; with one, the path is
/// stripped of it.
pub proof fn law_routed_path(config: LambdaConfig, path: Seq<char>)
    ensures
        config.base_path is None ==> spec_routed_path(config, path) == path,
        config.base_path matches Some(base) ==> spec_routed_path(config, path) == spec_strip_base_path(
            path,
            base@,
        ),
{
}

/// Prepare a converted request for the handler: strip the configured base
/// path from its path. Nothing else of the request changes.
pub fn prepare_request(config: &LambdaConfig, request: LambdaRequest) -> (res: LambdaRequest)
    ensures
        res.path@ == spec_routed_path(*config, request.path@),
        res.method == request.method,
        res.query_string == request.query_string,
        res.headers == request.headers,
        res.body == request.body,
        res.path_parameters == request.path_parameters,
        res.stage_variables == request.stage_variables,
        res.request_context == request.request_context,
{
    let mut routed = request;
    if let Some(base) = &config.base_path {
        let stripped = strip_base_path(routed.path.as_str(), base.as_str());
        routed.path = stripped;
    }
    routed
}

/// Stripping a base path from a path that starts with it gives what follows
/// it, or `/` when nothing follows.
pub proof fn law_strip_prefixed_path(base: Seq<char>, rest: Seq<char>)
    ensures
        spec_strip_base_path(base + rest, base) == if rest.len() == 0 {
            seq!['/']
        } else {
            rest
        },
{
    assert((base + rest).subrange(0, base.len() as int) =~= base);
    assert((base + rest).skip(base.len() as int) =~= rest);
}

/// A path that does not start with the base path comes back unchanged.
pub proof fn law_strip_keeps_unprefixed_path(path: Seq<char>, base: Seq<char>)
    requires
        !(base.len() <= path.len() && forall|i: int| 0 <= i < base.len() ==> path[i] == base[i]),
    ensures
        spec_strip_base_path(path, base) == path,
{
    if base.is_prefix_of(path) {
        assert forall|i: int| 0 <= i < base.len() implies path[i] == base[i] by {
            assert(path.subrange(0, base.len() as int)[i] == path[i]);
        }
    }
}

/// Stripping a base path never empties a path that is not empty.
pub proof fn law_strip_keeps_path_nonempty(path: Seq<char>, base: Seq<char>)
    requires
        path.len() > 0,
    ensures
        spec_strip_base_path(path, base).len() > 0,
{
}

/// Lambda runtime configuration.
#[derive(Debug, Clone)]
pub struct LambdaConfig {
    /// Enable request logging.
    pub log_requests: bool,
    /// Enable response logging.
    pub log_responses: bool,
    /// Custom base path to strip (e.g., "/prod", "/dev").
    pub base_path: Option<String>,
}

impl LambdaConfig {
    /// The configuration a runtime starts with: requests are logged,
    /// responses are not, and no base path is stripped.
    pub open spec fn spec_default() -> LambdaConfig {
        LambdaConfig { log_requests: true, log_responses: false, base_path: None }
    }

    /// Enable or disable request logging.
    pub fn log_requests(self, enabled: bool) -> (res: Self)
        ensures
            res == (LambdaConfig { log_requests: enabled, ..self }),
    {
        LambdaConfig { log_requests: enabled, ..self }
    }

    /// Enable or disable response logging.
    pub fn log_responses(self, enabled: bool) -> (res: Self)
        ensures
            res == (LambdaConfig { log_responses: enabled, ..self }),
    {
        LambdaConfig { log_responses: enabled, ..self }
    }

    /// Set a base path to strip from requests.
    pub fn base_path(self, path: &str) -> (res: Self)
        ensures
            res.log_requests == self.log_requests,
            res.log_responses == self.log_responses,
            res.base_path matches Some(p) && p@ == path@,
    {
        LambdaConfig { base_path: Some(String::from_str(path)), ..self }
    }
}

impl Default for LambdaConfig {
    fn default() -> (res: Self)
        ensures
            res == LambdaConfig::spec_default(),
    {
        LambdaConfig { log_requests: true, log_responses: false, base_path: None }
    }
}

/// Lambda runtime driver: the handler it runs and the configuration it runs
/// it with.
pub struct LambdaRuntime<App> {
    app: Arc<App>,
    config: LambdaConfig,
}

impl<App> LambdaRuntime<App> where App: Send + Sync + 'static {
    /// The handler this runtime drives.
    pub closed spec fn spec_app(&self) -> App {
        *self.app
    }

    /// The configuration this runtime uses.
    pub closed spec fn spec_config(&self) -> LambdaConfig {
        self.config
    }

    /// Create a new Lambda runtime with the default configuration.
    pub fn new(app: App) -> (res: Self)
        ensures
            res.spec_app() == app,
            res.spec_config() == LambdaConfig::spec_default(),
    {
        LambdaRuntime { app: Arc::new(app), config: LambdaConfig::default() }
    }

    /// Set the runtime configuration.
    pub fn with_config(self, config: LambdaConfig) -> (res: Self)
        ensures
            res.spec_app() == self.spec_app(),
            res.spec_config() == config,
    {
        LambdaRuntime { app: self.app, config }
    }

    /// The configuration this runtime uses.
    pub fn config(&self) -> (res: &LambdaConfig)
        ensures
            *res == self.spec_config(),
    {
        &self.config
    }

    /// Split the runtime into the shared handler and its configuration.
    pub fn into_parts(self) -> (res: (Arc<App>, LambdaConfig))
        ensures
            *res.0 == self.spec_app(),
            res.1 == self.spec_config(),
    {
        (self.app, self.config)
    }
}

} // verus!
