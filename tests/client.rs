use railway_exporter::client::{
    estimate_query, project_query, usage_query, ApiError, Client, GraphQLError, GraphQLResponse,
    RailwayClient,
};

#[test]
fn test_api_error_display_parse_error() {
    let err = ApiError::ParseError("invalid JSON".to_string());
    assert_eq!(format!("{}", err.message()), "Parse error: invalid JSON");
}

#[test]
fn test_api_error_display_request_error() {
    let err = ApiError::RequestError("connection refused".to_string());
    assert_eq!(format!("{}", err.message()), "Request error: connection refused");
}

#[test]
fn test_api_error_display_graphql_error() {
    let err = ApiError::GraphQLError("unauthorized".to_string());
    assert_eq!(format!("{}", err.message()), "GraphQL error: unauthorized");
}

#[test]
fn test_api_error_display_no_data() {
    let err = ApiError::NoData;
    assert_eq!(format!("{}", err.message()), "No data in response");
}

#[test]
fn test_api_error_display() {
    let err = ApiError::RequestError("timeout".to_string());
    assert_eq!(format!("{}", err.message()), "Request error: timeout");

    let err = ApiError::GraphQLError("invalid query".to_string());
    assert_eq!(format!("{}", err.message()), "GraphQL error: invalid query");

    let err = ApiError::NoData;
    assert_eq!(format!("{}", err.message()), "No data in response");
}

#[test]
fn test_railway_client_new() {
    let client = RailwayClient::new("test-token");
    assert_eq!(client.token, "test-token");
    assert_eq!(client.api_url(), "https://backboard.railway.app/graphql/v2");
    assert_eq!(client.authorization(), "Bearer test-token");
}

#[test]
fn client_new_uses_given_or_default_url() {
    let c = Client::new("tok", None);
    assert_eq!(c.token, "tok");
    assert_eq!(c.api_url, "https://backboard.railway.app/graphql/v2");
    let c = Client::new("tok", Some("http://localhost:1/graphql"));
    assert_eq!(c.api_url, "http://localhost:1/graphql");
    assert_eq!(c.authorization(), "Bearer tok");
    assert_eq!(c.request("{ test }").query, "{ test }");
}

#[test]
fn response_errors_win_over_data() {
    let r: GraphQLResponse<u32> = GraphQLResponse {
        data: Some(1),
        errors: Some(vec![GraphQLError { message: "Project not found".to_string() }]),
    };
    match r.into_result() {
        Err(ApiError::GraphQLError(m)) => assert_eq!(m, "Project not found"),
        other => panic!("unexpected {:?}", other),
    }
}

#[test]
fn response_data_and_no_data() {
    let r: GraphQLResponse<u32> = GraphQLResponse { data: Some(7), errors: Some(vec![]) };
    assert_eq!(r.into_result().unwrap(), 7);
    let r: GraphQLResponse<u32> = GraphQLResponse { data: None, errors: None };
    assert!(matches!(r.into_result(), Err(ApiError::NoData)));
}

#[test]
fn query_texts() {
    assert_eq!(
        project_query("project-123"),
        r#"{ project(id: "project-123") { name services { edges { node { id name icon } } } } }"#
    );
    assert!(usage_query("p").starts_with(r#"{ usage(projectId: "p", measurements: [CPU_USAGE"#));
    assert!(estimate_query("p").starts_with(r#"{ estimatedUsage(projectId: "p""#));
}
