use vstd::prelude::*;

use crate::headers::DEFAULT_HEADER_PREFIX;

verus! {

/// A newtype wrapper that holds a custom header prefix for authentik headers.
///
/// The middleware puts one into each request's extensions so that the
/// extractor reads the headers under that prefix.
#[derive(Debug, Clone)]
pub struct HeaderPrefix(pub String);

/// Configuration for the authentik authentication layer.
#[derive(Debug, Clone)]
pub struct AuthentikConfig {
    /// Prefix for authentik proxy headers, defaults to `"x-authentik"`.
    ///
    /// With the default prefix the extractor reads headers like
    /// `x-authentik-username`, `x-authentik-email`, etc.
    pub header_prefix: String,
    /// Whether authentication is required (`true` by default). The flag is
    /// carried with the configuration; the extractors here do not read it,
    /// and a request missing the auth headers is refused either way.
    pub require_auth: bool,
}

impl Default for AuthentikConfig {
    fn default() -> (config: Self)
        ensures
            config.header_prefix@ == DEFAULT_HEADER_PREFIX@,
            config.require_auth,
    {
        AuthentikConfig { header_prefix: DEFAULT_HEADER_PREFIX.to_owned(), require_auth: true }
    }
}

impl AuthentikConfig {
    /// Creates a new `AuthentikConfig` with the given header prefix; the
    /// request must carry the authentication headers.
    pub fn with_prefix(header_prefix: &str) -> (config: Self)
        ensures
            config.header_prefix@ == header_prefix@,
            config.require_auth,
    {
        AuthentikConfig { header_prefix: header_prefix.to_owned(), require_auth: true }
    }

    /// The request extension that tells the extractor which prefix to read.
    pub fn prefix_marker(&self) -> (marker: HeaderPrefix)
        ensures
            marker.0@ == self.header_prefix@,
    {
        HeaderPrefix(self.header_prefix.clone())
    }

    /// A copy of the configuration.
    pub fn copy(&self) -> (copy: Self)
        ensures
            copy.header_prefix@ == self.header_prefix@,
            copy.require_auth == self.require_auth,
    {
        AuthentikConfig { header_prefix: self.header_prefix.clone(), require_auth: self.require_auth }
    }
}

/// A layer that injects the authentik header prefix into request extensions.
///
/// This layer must be added to the router when a custom header prefix other
/// than the default `x-authentik` is used.
pub struct AuthentikLayer {
    config: AuthentikConfig,
}

impl AuthentikLayer {
    /// The configuration the layer applies.
    pub closed spec fn configuration(&self) -> AuthentikConfig {
        self.config
    }

    /// Creates a new layer with the default configuration (prefix
    /// `x-authentik`, authentication required).
    pub fn new() -> (layer: Self)
        ensures
            layer.configuration().header_prefix@ == DEFAULT_HEADER_PREFIX@,
            layer.configuration().require_auth,
    {
        AuthentikLayer { config: AuthentikConfig::default() }
    }

    /// Creates a new layer with a custom configuration.
    pub fn with_config(config: AuthentikConfig) -> (layer: Self)
        ensures
            layer.configuration() == config,
    {
        AuthentikLayer { config }
    }

    /// The configuration the layer applies.
    pub fn config(&self) -> (config: &AuthentikConfig)
        ensures
            *config == self.configuration(),
    {
        &self.config
    }

    /// Wraps a service in the middleware, with a copy of this layer's
    /// configuration.
    pub fn layer<S>(&self, inner: S) -> (middleware: AuthentikMiddleware<S>)
        ensures
            middleware.inner_service() == inner,
            middleware.configuration().header_prefix@ == self.configuration().header_prefix@,
            middleware.configuration().require_auth == self.configuration().require_auth,
    {
        AuthentikMiddleware { inner, config: self.config.copy() }
    }
}

impl Default for AuthentikLayer {
    fn default() -> (layer: Self)
        ensures
            layer.configuration().header_prefix@ == DEFAULT_HEADER_PREFIX@,
            layer.configuration().require_auth,
    {
        Self::new()
    }
}

/// Middleware service that injects the configured header prefix into each
/// request. Normally built by [`AuthentikLayer::layer`].
pub struct AuthentikMiddleware<S> {
    inner: S,
    config: AuthentikConfig,
}

impl<S> AuthentikMiddleware<S> {
    /// The wrapped service.
    pub closed spec fn inner_service(&self) -> S {
        self.inner
    }

    /// The configuration the middleware applies.
    pub closed spec fn configuration(&self) -> AuthentikConfig {
        self.config
    }

    /// The configuration the middleware applies.
    pub fn config(&self) -> (config: &AuthentikConfig)
        ensures
            *config == self.configuration(),
    {
        &self.config
    }

    /// Splits the middleware into the wrapped service and its configuration.
    pub fn into_parts(self) -> (parts: (S, AuthentikConfig))
        ensures
            parts.0 == self.inner_service(),
            parts.1 == self.configuration(),
    {
        (self.inner, self.config)
    }
}

} // verus!
