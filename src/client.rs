//! The upstream GraphQL API as the engine sees it: request texts, response
//! shapes, and how a response becomes a value or an error.

use vstd::prelude::*;
use crate::config::DEFAULT_API_URL;

verus! {

/// GraphQL request body.
#[derive(Debug, Clone)]
pub struct GraphQLRequest {
    pub query: String,
}

/// GraphQL response: data, errors, or both absent.
#[derive(Debug)]
pub struct GraphQLResponse<T> {
    pub data: Option<T>,
    pub errors: Option<Vec<GraphQLError>>,
}

/// One error reported by the API.
#[derive(Debug, Clone)]
pub struct GraphQLError {
    pub message: String,
}

/// Response data of the project query.
#[derive(Debug)]
pub struct ProjectData {
    pub project: Project,
}

/// A project and its current services.
#[derive(Debug)]
pub struct Project {
    pub name: String,
    pub services: ServiceEdges,
}

/// The list of services of a project.
#[derive(Debug)]
pub struct ServiceEdges {
    pub edges: Vec<ServiceEdge>,
}

/// One service of a project.
#[derive(Debug)]
pub struct ServiceEdge {
    pub node: ServiceNode,
}

/// A service: id, display name and icon reference (a URL, a data URL or an
/// emoji), if any.
#[derive(Debug)]
pub struct ServiceNode {
    pub id: String,
    pub name: String,
    pub icon: Option<String>,
}

/// Response data of the usage query.
#[derive(Debug)]
pub struct UsageData {
    pub usage: Vec<UsageItem>,
}

/// One usage measurement of one service.
#[derive(Debug, Clone)]
pub struct UsageItem {
    pub measurement: String,
    /// Quantity, in thousandths of a unit.
    pub value: u64,
    pub tags: UsageTags,
}

/// The service a usage measurement belongs to.
#[derive(Debug, Clone)]
pub struct UsageTags {
    pub service_id: String,
}

/// Response data of the estimate query.
#[derive(Debug)]
pub struct EstimatedData {
    pub estimated_usage: Vec<EstimatedItem>,
}

/// The estimated quantity of one measurement kind for the whole month.
#[derive(Debug, Clone)]
pub struct EstimatedItem {
    pub measurement: String,
    /// Quantity, in thousandths of a unit.
    pub estimated_value: u64,
}

/// Upstream API errors. Each of them aborts a collection cycle.
#[derive(Debug, Clone)]
pub enum ApiError {
    /// The request failed in transport (connection, timeout, status).
    RequestError(String),
    /// The API reported an error.
    GraphQLError(String),
    /// The response does not have the expected shape.
    ParseError(String),
    /// The response is well formed but holds no data.
    NoData,
}

/// The human-readable text of an API error.
pub open spec fn api_error_text(e: ApiError) -> Seq<char> {
    match e {
        ApiError::RequestError(m) => "Request error: "@ + m@,
        ApiError::GraphQLError(m) => "GraphQL error: "@ + m@,
        ApiError::ParseError(m) => "Parse error: "@ + m@,
        ApiError::NoData => "No data in response"@,
    }
}

impl ApiError {
    /// The human-readable text of the error.
    pub fn message(&self) -> (r: String)
        ensures
            r@ == api_error_text(*self),
    {
        match self {
            ApiError::RequestError(m) => String::from_str("Request error: ").concat(m.as_str()),
            ApiError::GraphQLError(m) => String::from_str("GraphQL error: ").concat(m.as_str()),
            ApiError::ParseError(m) => String::from_str("Parse error: ").concat(m.as_str()),
            ApiError::NoData => String::from_str("No data in response"),
        }
    }
}

impl<T> GraphQLResponse<T> {
    /// The data of a response: the first reported error wins over data, and
    /// a response with neither is `NoData`.
    pub fn into_result(self) -> (r: Result<T, ApiError>)
        ensures
            (self.errors matches Some(es) && es@.len() > 0) ==> (r matches Err(
                ApiError::GraphQLError(m),
            ) && m@ == self.errors.unwrap()@[0].message@),
            !(self.errors matches Some(es) && es@.len() > 0) ==> match self.data {
                Some(d) => r == Ok::<T, ApiError>(d),
                None => r == Err::<T, ApiError>(ApiError::NoData),
            },
    {
        if let Some(errors) = &self.errors {
            if errors.len() > 0 {
                let m = errors[0].message.clone();
                return Err(ApiError::GraphQLError(m));
            }
        }
        match self.data {
            Some(d) => Ok(d),
            None => Err(ApiError::NoData),
        }
    }
}

/// The project query for `project_id`.
pub open spec fn project_query_text(project_id: Seq<char>) -> Seq<char> {
    "{ project(id: \""@ + project_id + "\") { name services { edges { node { id name icon } } } } }"@
}

/// The usage query for `project_id`, grouped by service.
pub open spec fn usage_query_text(project_id: Seq<char>) -> Seq<char> {
    "{ usage(projectId: \""@ + project_id
        + "\", measurements: [CPU_USAGE, MEMORY_USAGE_GB, DISK_USAGE_GB, NETWORK_TX_GB], groupBy: [SERVICE_ID]) { measurement value tags { serviceId } } }"@
}

/// The month-estimate query for `project_id`.
pub open spec fn estimate_query_text(project_id: Seq<char>) -> Seq<char> {
    "{ estimatedUsage(projectId: \""@ + project_id
        + "\", measurements: [CPU_USAGE, MEMORY_USAGE_GB, DISK_USAGE_GB, NETWORK_TX_GB]) { measurement estimatedValue } }"@
}

/// Builds the project query.
pub fn project_query(project_id: &str) -> (r: String)
    ensures
        r@ == project_query_text(project_id@),
{
    String::from_str("{ project(id: \"").concat(project_id).concat(
        "\") { name services { edges { node { id name icon } } } } }",
    )
}

/// Builds the usage query.
pub fn usage_query(project_id: &str) -> (r: String)
    ensures
        r@ == usage_query_text(project_id@),
{
    String::from_str("{ usage(projectId: \"").concat(project_id).concat(
        "\", measurements: [CPU_USAGE, MEMORY_USAGE_GB, DISK_USAGE_GB, NETWORK_TX_GB], groupBy: [SERVICE_ID]) { measurement value tags { serviceId } } }",
    )
}

/// Builds the month-estimate query.
pub fn estimate_query(project_id: &str) -> (r: String)
    ensures
        r@ == estimate_query_text(project_id@),
{
    String::from_str("{ estimatedUsage(projectId: \"").concat(project_id).concat(
        "\", measurements: [CPU_USAGE, MEMORY_USAGE_GB, DISK_USAGE_GB, NETWORK_TX_GB]) { measurement estimatedValue } }",
    )
}

/// Client settings of the upstream API: the token and the endpoint.
#[derive(Debug, Clone)]
pub struct Client {
    pub token: String,
    pub api_url: String,
}

impl Client {
    /// A client for `token`, at `api_url` or else the default endpoint.
    pub fn new(token: &str, api_url: Option<&str>) -> (r: Client)
        ensures
            r.token@ == token@,
            r.api_url@ == match api_url {
                Some(u) => u@,
                None => DEFAULT_API_URL@,
            },
    {
        let url = match api_url {
            Some(u) => u,
            None => DEFAULT_API_URL,
        };
        Client { token: token.to_owned(), api_url: url.to_owned() }
    }

    /// The value of the `Authorization` header.
    pub fn authorization(&self) -> (r: String)
        ensures
            r@ == "Bearer "@ + self.token@,
    {
        String::from_str("Bearer ").concat(self.token.as_str())
    }

    /// The request body of a query.
    pub fn request(&self, query: &str) -> (r: GraphQLRequest)
        ensures
            r.query@ == query@,
    {
        GraphQLRequest { query: query.to_owned() }
    }
}

/// Client settings of the upstream API at its default endpoint.
#[derive(Debug, Clone)]
pub struct RailwayClient {
    pub token: String,
}

impl RailwayClient {
    /// A client for `token` at the default endpoint.
    pub fn new(token: &str) -> (r: RailwayClient)
        ensures
            r.token@ == token@,
    {
        RailwayClient { token: token.to_owned() }
    }

    /// The endpoint, always the default one.
    pub fn api_url(&self) -> (r: &'static str)
        ensures
            r@ == DEFAULT_API_URL@,
    {
        DEFAULT_API_URL
    }

    /// The value of the `Authorization` header.
    pub fn authorization(&self) -> (r: String)
        ensures
            r@ == "Bearer "@ + self.token@,
    {
        String::from_str("Bearer ").concat(self.token.as_str())
    }
}

} // verus!
