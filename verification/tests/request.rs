use armature_lambda::{
    AuthorizerField, ClaimValue, EventContext, EventRequest, GatewayContext, LambdaBody, LambdaRequest,
    RequestAuthorizer, RequestContext, StringHashMap,
};

fn s(text: &str) -> String {
    text.to_string()
}

fn pairs(items: &[(&str, &str)]) -> Vec<(String, String)> {
    items.iter().map(|(k, v)| (s(k), s(v))).collect()
}

fn v2_context() -> GatewayContext {
    GatewayContext {
        request_id: Some(s("req-v2-1")),
        stage: Some(s("$default")),
        domain_name: Some(s("api.example.com")),
        http_method: s("POST"),
        source_ip: Some(s("203.0.113.7")),
        user_agent: Some(s("test-agent/1.0")),
        authorizer: Some(RequestAuthorizer {
            jwt_claims: Some(pairs(&[("sub", "user-123"), ("email", "user@example.com")])),
            fields: Vec::new(),
        }),
    }
}

fn v1_context() -> GatewayContext {
    GatewayContext {
        request_id: Some(s("req-v1-1")),
        stage: Some(s("prod")),
        domain_name: Some(s("api.example.com")),
        http_method: s("POST"),
        source_ip: Some(s("198.51.100.9")),
        user_agent: Some(s("rest-agent/2.0")),
        authorizer: Some(RequestAuthorizer {
            jwt_claims: None,
            fields: vec![(
                s("claims"),
                AuthorizerField::Object(vec![
                    (s("sub"), ClaimValue::Text(s("cognito-user-9"))),
                    (s("cognito:username"), ClaimValue::Text(s("alice"))),
                ]),
            )],
        }),
    }
}

fn make_v2_request() -> EventRequest {
    EventRequest {
        method: http::Method::POST,
        path: s("/users/42"),
        query: Some(s("page=2")),
        headers: vec![
            (s("content-type"), b"application/json".to_vec()),
            (s("x-custom"), b"hello".to_vec()),
        ],
        path_parameters: pairs(&[("id", "42")]),
        stage_variables: pairs(&[("env", "staging")]),
        context: Some(EventContext::ApiGatewayV2(v2_context())),
        body: LambdaBody::Text(s("{\"name\":\"a\"}")),
    }
}

fn make_v1_request() -> EventRequest {
    EventRequest {
        method: http::Method::POST,
        path: s("/users/42"),
        query: None,
        headers: vec![(s("content-type"), b"application/json".to_vec())],
        path_parameters: pairs(&[("id", "42")]),
        stage_variables: pairs(&[("region", "us-east-1")]),
        context: Some(EventContext::ApiGatewayV1(v1_context())),
        body: LambdaBody::Text(s("body-1")),
    }
}

fn bare_request(headers: Vec<(String, Vec<u8>)>, body: LambdaBody) -> EventRequest {
    EventRequest {
        method: http::Method::GET,
        path: s("/x"),
        query: None,
        headers,
        path_parameters: Vec::new(),
        stage_variables: Vec::new(),
        context: None,
        body,
    }
}

#[test]
fn v2_claims_are_populated_from_jwt() {
    let req = LambdaRequest::from_lambda_request(make_v2_request());

    assert_eq!(req.claim("sub"), Some("user-123"));
    assert_eq!(req.claim("email"), Some("user@example.com"));
    assert_eq!(req.claims().len(), 2);
}

#[test]
fn v1_claims_are_populated_from_authorizer_map() {
    let req = LambdaRequest::from_lambda_request(make_v1_request());

    assert_eq!(req.claim("sub"), Some("cognito-user-9"));
    assert_eq!(req.claim("cognito:username"), Some("alice"));
    assert_eq!(req.claims().len(), 2);
}

#[test]
fn v2_path_parameters_and_stage_variables_are_extracted() {
    let req = LambdaRequest::from_lambda_request(make_v2_request());

    assert_eq!(req.path_parameter("id"), Some("42"));
    assert_eq!(req.stage_variable("env"), Some("staging"));
}

#[test]
fn v1_path_parameters_and_stage_variables_are_extracted() {
    let req = LambdaRequest::from_lambda_request(make_v1_request());

    assert_eq!(req.path_parameter("id"), Some("42"));
    assert_eq!(req.stage_variable("region"), Some("us-east-1"));
}

#[test]
fn context_and_headers_and_body_are_mapped() {
    let req = LambdaRequest::from_lambda_request(make_v2_request());

    assert_eq!(req.method, http::Method::POST);
    assert_eq!(req.path, "/users/42");
    assert_eq!(req.query_string.as_deref(), Some("page=2"));
    assert_eq!(req.header("content-type"), Some("application/json"));
    assert_eq!(req.header("x-custom"), Some("hello"));
    assert!(req.is_json());
    assert_eq!(&req.body[..], b"{\"name\":\"a\"}");

    assert_eq!(req.request_context.request_id.as_deref(), Some("req-v2-1"));
    assert_eq!(req.request_context.stage.as_deref(), Some("$default"));
    assert_eq!(req.source_ip(), Some("203.0.113.7"));
    assert_eq!(
        req.request_context.user_agent.as_deref(),
        Some("test-agent/1.0")
    );
}

#[test]
fn repeated_request_headers_are_all_preserved() {
    let req = LambdaRequest::from_lambda_request(bare_request(
        vec![(s("cookie"), b"a=1".to_vec()), (s("cookie"), b"b=2".to_vec())],
        LambdaBody::Empty,
    ));

    assert_eq!(req.header("cookie"), Some("a=1"));
    assert_eq!(req.header_values("Cookie"), ["a=1", "b=2"]);
}

#[test]
fn missing_context_yields_empty_defaults() {
    let req = LambdaRequest::from_lambda_request(bare_request(Vec::new(), LambdaBody::Empty));

    assert!(req.claims().is_empty());
    assert!(req.path_parameters.is_empty());
    assert!(req.stage_variables.is_empty());
    assert_eq!(req.body.len(), 0);
    assert_eq!(req.source_ip(), None);
    assert_eq!(req.request_context.http_method, None);
}

#[test]
fn alb_and_other_contexts_yield_empty_defaults() {
    for context in [EventContext::Alb, EventContext::Other] {
        let mut event = bare_request(Vec::new(), LambdaBody::Empty);
        event.context = Some(context);
        let req = LambdaRequest::from_lambda_request(event);
        assert!(req.claims().is_empty());
        assert_eq!(req.request_context.request_id, None);
        assert_eq!(req.request_context.http_method, None);
    }
}

#[test]
fn context_http_method_is_copied() {
    let req = LambdaRequest::from_lambda_request(make_v1_request());
    assert_eq!(req.request_context.http_method.as_deref(), Some("POST"));
    assert_eq!(req.request_context.stage.as_deref(), Some("prod"));
    assert_eq!(req.request_context.domain_name.as_deref(), Some("api.example.com"));
    assert_eq!(req.source_ip(), Some("198.51.100.9"));
}

#[test]
fn header_values_that_are_not_utf8_are_dropped() {
    let req = LambdaRequest::from_lambda_request(bare_request(
        vec![
            (s("x-a"), b"ok\tvalue".to_vec()),
            (s("x-b"), vec![0xc3, 0xa9]),
            (s("x-c"), vec![0xff]),
            (s("x-d"), b"caf\xc3".to_vec()),
            (s("x-a"), b"second".to_vec()),
        ],
        LambdaBody::Empty,
    ));
    assert_eq!(
        req.headers,
        vec![(s("x-a"), s("ok\tvalue")), (s("x-b"), s("é")), (s("x-a"), s("second"))]
    );
    assert_eq!(req.header("x-b"), Some("é"));
    assert_eq!(req.header("x-c"), None);
    assert_eq!(req.header("x-d"), None);
}

#[test]
fn binary_and_text_bodies_become_bytes() {
    let req = LambdaRequest::from_lambda_request(bare_request(
        Vec::new(),
        LambdaBody::Binary(vec![0, 255, 7]),
    ));
    assert_eq!(req.body, vec![0, 255, 7]);
    let req = LambdaRequest::from_lambda_request(bare_request(
        Vec::new(),
        LambdaBody::Text(s("é")),
    ));
    assert_eq!(req.body, vec![0xc3, 0xa9]);
}

#[test]
fn first_value_of_a_repeated_path_parameter_wins() {
    let mut event = bare_request(Vec::new(), LambdaBody::Empty);
    event.path_parameters = pairs(&[("id", "1"), ("name", "n"), ("id", "2")]);
    event.stage_variables = pairs(&[("env", "a"), ("env", "b")]);
    let req = LambdaRequest::from_lambda_request(event);
    assert_eq!(req.path_parameter("id"), Some("1"));
    assert_eq!(req.path_parameter("name"), Some("n"));
    assert_eq!(req.path_parameters.len(), 2);
    assert_eq!(req.stage_variable("env"), Some("a"));
    assert_eq!(req.stage_variable("missing"), None);
}

fn claims_of(authorizer: RequestAuthorizer) -> LambdaRequest {
    let mut context = v2_context();
    context.authorizer = Some(authorizer);
    let mut event = bare_request(Vec::new(), LambdaBody::Empty);
    event.context = Some(EventContext::ApiGatewayV2(context));
    LambdaRequest::from_lambda_request(event)
}

#[test]
fn claims_object_drops_null_and_writes_other_values_as_json() {
    let req = claims_of(RequestAuthorizer {
        jwt_claims: None,
        fields: vec![
            (s("principalId"), AuthorizerField::Other),
            (
                s("claims"),
                AuthorizerField::Object(vec![
                    (s("sub"), ClaimValue::Text(s("u"))),
                    (s("gone"), ClaimValue::Null),
                    (s("n"), ClaimValue::Other(s("42"))),
                    (s("list"), ClaimValue::Other(s("[1,2]"))),
                ]),
            ),
        ],
    });
    assert_eq!(req.claim("sub"), Some("u"));
    assert_eq!(req.claim("gone"), None);
    assert_eq!(req.claim("n"), Some("42"));
    assert_eq!(req.claim("list"), Some("[1,2]"));
    assert_eq!(req.claims().len(), 3);
}

#[test]
fn empty_jwt_claims_fall_back_to_claims_object() {
    let req = claims_of(RequestAuthorizer {
        jwt_claims: Some(Vec::new()),
        fields: vec![(
            s("claims"),
            AuthorizerField::Object(vec![(s("sub"), ClaimValue::Text(s("from-object")))]),
        )],
    });
    assert_eq!(req.claim("sub"), Some("from-object"));
}

#[test]
fn jwt_claims_take_precedence_over_claims_object() {
    let req = claims_of(RequestAuthorizer {
        jwt_claims: Some(pairs(&[("sub", "from-jwt")])),
        fields: vec![(
            s("claims"),
            AuthorizerField::Object(vec![(s("sub"), ClaimValue::Text(s("from-object")))]),
        )],
    });
    assert_eq!(req.claim("sub"), Some("from-jwt"));
    assert_eq!(req.claims().len(), 1);
}

#[test]
fn no_claims_without_jwt_or_object() {
    let req = claims_of(RequestAuthorizer { jwt_claims: None, fields: Vec::new() });
    assert!(req.claims().is_empty());
}

#[test]
fn claims_field_that_is_not_an_object_gives_no_claims() {
    let req = claims_of(RequestAuthorizer {
        jwt_claims: None,
        fields: vec![
            (s("claims"), AuthorizerField::Other),
            (s("other"), AuthorizerField::Object(vec![(s("sub"), ClaimValue::Text(s("x")))])),
        ],
    });
    assert!(req.claims().is_empty());
}

#[test]
fn is_json_looks_for_application_json_in_the_content_type() {
    let json = LambdaRequest::from_lambda_request(bare_request(
        vec![(s("Content-Type"), b"application/json; charset=utf-8".to_vec())],
        LambdaBody::Empty,
    ));
    assert!(json.is_json());
    assert_eq!(json.content_type(), Some("application/json; charset=utf-8"));
    let plain = LambdaRequest::from_lambda_request(bare_request(
        vec![(s("content-type"), b"text/plain".to_vec())],
        LambdaBody::Empty,
    ));
    assert!(!plain.is_json());
    let none = LambdaRequest::from_lambda_request(bare_request(Vec::new(), LambdaBody::Empty));
    assert!(!none.is_json());
    assert_eq!(none.content_type(), None);
}

#[test]
fn hand_built_request_reads_its_maps() {
    let mut params = StringHashMap::new();
    params.insert(s("id"), s("9"));
    let mut claims = StringHashMap::new();
    claims.insert(s("sub"), s("user-1"));
    let req = LambdaRequest {
        method: http::Method::PUT,
        path: s("/a"),
        query_string: None,
        headers: Vec::new(),
        body: Vec::new(),
        path_parameters: params,
        stage_variables: StringHashMap::new(),
        request_context: RequestContext {
            authorizer_claims: claims,
            ..Default::default()
        },
    };
    assert_eq!(req.path_parameter("id"), Some("9"));
    assert_eq!(req.claim("sub"), Some("user-1"));
    assert_eq!(req.stage_variable("id"), None);
}
