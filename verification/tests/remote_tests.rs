use lancedb::error::Error;
use lancedb::remote::{HttpMethod, HttpRequest, HttpResponse, HttpSend, RestfulLanceDbClient};

/// A deterministic sender: answers every request from a caller-supplied
/// status and body, echoing the request URL when asked to.
struct MockSender {
    status: u16,
    body: String,
    echo_url: bool,
}

impl HttpSend for MockSender {
    fn send(&self, request: HttpRequest) -> Result<HttpResponse, Error> {
        let body = if self.echo_url {
            request.url.clone()
        } else {
            self.body.clone()
        };
        Ok(HttpResponse {
            status: self.status,
            body,
        })
    }
}

fn ok_sender() -> MockSender {
    MockSender {
        status: 200,
        body: "ok".to_string(),
        echo_url: false,
    }
}

fn client(
    db_url: &str,
    api_key: &str,
    region: &str,
    host_override: Option<String>,
    sender: MockSender,
) -> Result<RestfulLanceDbClient<MockSender>, Error> {
    RestfulLanceDbClient::try_new(db_url, api_key, region, host_override, sender)
}

#[test]
fn resolves_host_from_database_url_and_region() {
    let c = client("db://mydb", "sk-1", "us-east-1", None, ok_sender()).unwrap();
    assert_eq!(c.host(), "https://mydb.us-east-1.api.lancedb.com");
}

#[test]
fn host_override_replaces_derived_host() {
    let c = client(
        "db://mydb",
        "sk-1",
        "us-east-1",
        Some("http://localhost:8080".to_string()),
        ok_sender(),
    )
    .unwrap();
    assert_eq!(c.host(), "http://localhost:8080");
}

#[test]
fn local_region_carries_synthesized_host_header() {
    let c = client("db://mydb", "sk-1", "local", None, ok_sender()).unwrap();
    let request = c.get("/v1/table/");
    assert!(request
        .headers
        .iter()
        .any(|(name, value)| name == "Host" && value == "mydb.local.api.lancedb.com"));
}

#[test]
fn every_request_carries_the_api_key() {
    let c = client("db://mydb", "sk-1", "us-east-1", None, ok_sender()).unwrap();
    let request = c.post("/v1/table/");
    assert!(request
        .headers
        .iter()
        .any(|(name, value)| name == "x-api-key" && value == "sk-1"));
    assert!(!request.headers.iter().any(|(name, _)| name == "Host"));
    assert!(!request
        .headers
        .iter()
        .any(|(name, _)| name == "x-lancedb-database"));
}

#[test]
fn host_override_carries_database_name_header() {
    let c = client(
        "db://mydb",
        "sk-1",
        "us-east-1",
        Some("http://localhost:8080".to_string()),
        ok_sender(),
    )
    .unwrap();
    let request = c.get("/v1/table/");
    assert!(request
        .headers
        .iter()
        .any(|(name, value)| name == "x-lancedb-database" && value == "mydb"));
}

#[test]
fn requests_are_built_against_the_host() {
    let c = client("db://mydb", "sk-1", "us-east-1", None, ok_sender()).unwrap();
    let get = c.get("/v1/table/t1/");
    assert!(matches!(get.method, HttpMethod::Get));
    assert_eq!(get.url, "https://mydb.us-east-1.api.lancedb.com/v1/table/t1/");
    assert!(get.body.is_none());
    let post = c.post("/v1/table/t1/create/");
    assert!(matches!(post.method, HttpMethod::Post));
    assert_eq!(
        post.url,
        "https://mydb.us-east-1.api.lancedb.com/v1/table/t1/create/"
    );
}

#[test]
fn send_delegates_to_the_pluggable_sender() {
    let sender = MockSender {
        status: 200,
        body: String::new(),
        echo_url: true,
    };
    let c = client("db://mydb", "sk-1", "us-east-1", None, sender).unwrap();
    let response = c.send(c.get("/echo")).unwrap();
    assert_eq!(response.body, "https://mydb.us-east-1.api.lancedb.com/echo");
}

#[test]
fn url_without_host_is_rejected() {
    let err = match client("db://", "sk-1", "us-east-1", None, ok_sender()) {
        Err(e) => e,
        Ok(_) => panic!("expected an error"),
    };
    assert!(matches!(err, Error::InvalidInput { .. }));
    assert_eq!(err.message(), "Invalid database URL (missing host) 'db://'");
}

#[test]
fn non_ascii_api_key_is_rejected() {
    let err = match client("db://mydb", "clé", "us-east-1", None, ok_sender()) {
        Err(e) => e,
        Ok(_) => panic!("expected an error"),
    };
    match err {
        Error::InvalidInput { message } => {
            assert_eq!(message, "non-ascii api key provided");
        }
        _ => panic!("expected invalid input"),
    }
}

#[test]
fn non_ascii_database_name_is_rejected() {
    let err = lancedb::remote::default_headers("sk-1", "local", "bäse", false).unwrap_err();
    match err {
        Error::InvalidInput { message } => {
            assert_eq!(message, "non-ascii database name 'bäse' provided");
        }
        _ => panic!("expected invalid input"),
    }
}

#[test]
fn default_headers_for_override_carry_name_and_key() {
    let headers = lancedb::remote::default_headers("sk-1", "us-east-1", "mydb", true).unwrap();
    assert_eq!(
        headers,
        vec![
            ("x-api-key".to_string(), "sk-1".to_string()),
            ("x-lancedb-database".to_string(), "mydb".to_string()),
        ]
    );
}

#[test]
fn check_response_classifies_status_codes() {
    let c = client("db://mydb", "sk-1", "us-east-1", None, ok_sender()).unwrap();
    let not_found = HttpResponse {
        status: 404,
        body: "no such table".to_string(),
    };
    match c.check_response(not_found).unwrap_err() {
        Error::InvalidInput { message } => assert_eq!(message, "no such table"),
        _ => panic!("expected invalid input"),
    }
    let broken = HttpResponse {
        status: 500,
        body: "internal error".to_string(),
    };
    match c.check_response(broken).unwrap_err() {
        Error::Runtime { message } => assert_eq!(message, "internal error"),
        _ => panic!("expected a runtime error"),
    }
    let fine = HttpResponse {
        status: 200,
        body: "payload".to_string(),
    };
    let passed = c.check_response(fine).unwrap();
    assert_eq!(passed.status, 200);
    assert_eq!(passed.body, "payload");
}
