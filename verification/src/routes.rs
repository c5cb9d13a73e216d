//! Where the endpoints of the service are to be found.
use vstd::prelude::*;

verus! {

/// How a request is made.
#[derive(Debug, Clone, Copy, PartialEq, Eq, Structural)]
pub enum Method {
    Get,
    Post,
    Delete,
}

/// What the service can be asked.
#[derive(Debug, Clone, Copy, PartialEq, Eq, Structural)]
pub enum Endpoint {
    /// To list the keys that begin with a prefix.
    LoadCacheEntries,
    /// What is stored under a key.
    FindCacheByKey,
    /// To store a value under a key.
    SaveCache,
    /// To drop what is stored under a key.
    DeleteCache,
    /// To drop what is stored under all keys that hold a text.
    InvalidateByText,
    /// Whether it is up.
    HealthCheck,
}

impl Endpoint {
    /// How the endpoint is asked.
    pub open spec fn method_spec(self) -> Method {
        match self {
            Endpoint::LoadCacheEntries => Method::Get,
            Endpoint::FindCacheByKey => Method::Get,
            Endpoint::SaveCache => Method::Post,
            Endpoint::DeleteCache => Method::Delete,
            Endpoint::InvalidateByText => Method::Delete,
            Endpoint::HealthCheck => Method::Get,
        }
    }

    /// Where the endpoint is asked, parameters in braces.
    pub open spec fn path_spec(self) -> Seq<char> {
        match self {
            Endpoint::LoadCacheEntries => "/cache"@,
            Endpoint::FindCacheByKey => "/cache/{key}"@,
            Endpoint::SaveCache => "/cache/{key}"@,
            Endpoint::DeleteCache => "/cache/{key}"@,
            Endpoint::InvalidateByText => "/cache/patterns/{text}"@,
            Endpoint::HealthCheck => "/health-check"@,
        }
    }

    /// How the endpoint is asked.
    pub fn method(self) -> (method: Method)
        ensures
            method == self.method_spec(),
    {
        match self {
            Endpoint::LoadCacheEntries => Method::Get,
            Endpoint::FindCacheByKey => Method::Get,
            Endpoint::SaveCache => Method::Post,
            Endpoint::DeleteCache => Method::Delete,
            Endpoint::InvalidateByText => Method::Delete,
            Endpoint::HealthCheck => Method::Get,
        }
    }

    /// Where the endpoint is asked, parameters in braces.
    pub fn path(self) -> (path: &'static str)
        ensures
            path@ == self.path_spec(),
    {
        match self {
            Endpoint::LoadCacheEntries => "/cache",
            Endpoint::FindCacheByKey => "/cache/{key}",
            Endpoint::SaveCache => "/cache/{key}",
            Endpoint::DeleteCache => "/cache/{key}",
            Endpoint::InvalidateByText => "/cache/patterns/{text}",
            Endpoint::HealthCheck => "/health-check",
        }
    }
}

/// All endpoints, each once.
pub fn endpoints() -> (endpoints: Vec<Endpoint>)
    ensures
        endpoints@.no_duplicates(),
        forall|endpoint: Endpoint| #[trigger] endpoints@.contains(endpoint),
{
    let endpoints = vec![
        Endpoint::LoadCacheEntries,
        Endpoint::FindCacheByKey,
        Endpoint::SaveCache,
        Endpoint::DeleteCache,
        Endpoint::InvalidateByText,
        Endpoint::HealthCheck,
    ];
    assert forall|endpoint: Endpoint| #[trigger] endpoints@.contains(endpoint) by {
        assert(endpoints@[0] == Endpoint::LoadCacheEntries);
        assert(endpoints@[1] == Endpoint::FindCacheByKey);
        assert(endpoints@[2] == Endpoint::SaveCache);
        assert(endpoints@[3] == Endpoint::DeleteCache);
        assert(endpoints@[4] == Endpoint::InvalidateByText);
        assert(endpoints@[5] == Endpoint::HealthCheck);
    }
    endpoints
}

/// No two endpoints are asked in the same way at the same place.
pub proof fn endpoints_do_not_clash(one: Endpoint, other: Endpoint)
    requires
        one.method_spec() == other.method_spec(),
        one.path_spec() == other.path_spec(),
    ensures
        one == other,
{
    reveal_strlit("/cache");
    reveal_strlit("/cache/{key}");
    reveal_strlit("/cache/patterns/{text}");
    reveal_strlit("/health-check");
    assert("/cache"@.len() == 6);
    assert("/cache/{key}"@.len() == 12);
    assert("/cache/patterns/{text}"@.len() == 22);
    assert("/health-check"@.len() == 13);
}

} // verus!
