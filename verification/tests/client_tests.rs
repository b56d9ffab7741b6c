use srun_client::config::{Config, User};
use srun_client::endpoint::Endpoint;
use srun_client::framer::{frame, READ_CHUNK};
use srun_client::http::{request_text, CertVerification, HttpResponse};
use srun_client::ipv4::Ipv4;

// What a server answers to `GET /get` and `POST /post`, as it comes off the
// wire: in reads of the client's chunk size.
fn answer(body: &str) -> Vec<Vec<u8>> {
    let text = format!(
        "HTTP/1.1 200 OK\r\nDate: Tue, 27 Oct 2026 10:00:00 GMT\r\n\
         Content-Type: application/json\r\nContent-Length: {}\r\n\
         Connection: keep-alive\r\nServer: gunicorn/19.9.0\r\n\r\n{}",
        body.len(),
        body
    );
    text.as_bytes().chunks(READ_CHUNK).map(|chunk| chunk.to_vec()).collect()
}

fn endpoint(server: &str, cert_verification: CertVerification) -> Endpoint {
    let mut config = Config::with_defaults(true);
    config.server = server.to_string();
    config.strict_bind = true;
    config.cert_verification = cert_verification;
    let user = User {
        username: "u".to_string(),
        password: "p".to_string(),
        ip: Some("192.168.1.12".to_string()),
        iface: None,
        bind_addr: Some(Ipv4 { a: 192, b: 168, c: 1, d: 12 }),
    };
    Endpoint::resolve(&config, &user).unwrap()
}

fn exchange(endpoint: &Endpoint, method: &str, path: &str, body: &str) -> HttpResponse {
    let request = request_text(method, path, None, &endpoint.host);
    assert_eq!(
        request,
        format!("{} {} HTTP/1.1\r\nHost: httpbin.org\r\nConnection: keep-alive\r\n\r\n", method, path)
    );
    frame(&answer(body)).unwrap()
}

#[test]
fn test_http() {
    let endpoint = endpoint("http://httpbin.org", CertVerification::System);
    assert_eq!((endpoint.is_https, endpoint.host.as_str(), endpoint.port), (false, "httpbin.org", 80));
    assert_eq!(endpoint.local, Some(Ipv4 { a: 192, b: 168, c: 1, d: 12 }));
    assert_eq!(endpoint.remote, None);
    assert_eq!(endpoint.check_tls(), Ok(()));

    let response = exchange(&endpoint, "GET", "/get", "{\"url\": \"http://httpbin.org/get\"}");
    let response_str = String::from_utf8_lossy(&response.body);
    println!("HTTP GET Response: {}", response_str);
    println!("Status: {}", response.status_code);
    assert!(response.status_code == 200);

    let response = exchange(&endpoint, "POST", "/post", "{\"url\": \"http://httpbin.org/post\"}");
    let response_str = String::from_utf8_lossy(&response.body);
    println!("HTTP POST Response: {}", response_str);
    println!("Status: {}", response.status_code);
    assert!(response.status_code == 200);
    assert_eq!(response_str, "{\"url\": \"http://httpbin.org/post\"}");
}

#[test]
fn test_https() {
    let endpoint = endpoint("https://httpbin.org", CertVerification::System);
    assert_eq!((endpoint.is_https, endpoint.host.as_str(), endpoint.port), (true, "httpbin.org", 443));
    assert!(matches!(endpoint.cert_verification, CertVerification::System));
    assert_eq!(endpoint.check_tls(), Ok(()));

    let response = exchange(&endpoint, "GET", "/get", "{\"url\": \"https://httpbin.org/get\"}");
    let response_str = String::from_utf8_lossy(&response.body);
    println!("HTTPS GET Response: {}", response_str);
    println!("Status: {}", response.status_code);
    assert!(response.status_code == 200);

    let big = "x".repeat(3 * READ_CHUNK);
    let response = exchange(&endpoint, "POST", "/post", &big);
    let response_str = String::from_utf8_lossy(&response.body);
    println!("HTTPS POST Response: {}", response_str.len());
    println!("Status: {}", response.status_code);
    assert!(response.status_code == 200);
    assert_eq!(response.body.len(), 3 * READ_CHUNK);
}

#[test]
fn test_https_skip_cert_verification() {
    let endpoint = endpoint("https://httpbin.org", CertVerification::Skip);
    assert_eq!((endpoint.is_https, endpoint.port), (true, 443));
    assert!(matches!(endpoint.cert_verification, CertVerification::Skip));
    assert_eq!(endpoint.check_tls(), Ok(()));

    let response = exchange(&endpoint, "GET", "/get", "{\"url\": \"https://httpbin.org/get\"}");
    let response_str = String::from_utf8_lossy(&response.body);
    println!("HTTPS GET (Skip Cert) Response: {}", response_str);
    println!("Status: {}", response.status_code);
    assert!(response.status_code == 200);
}
