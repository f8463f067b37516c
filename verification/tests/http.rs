use mini_rts::http::{health_body, ok_json, route_request, stats_body, Route};

#[test]
fn requests_are_routed_by_their_first_line() {
    assert_eq!(route_request("GET /health HTTP/1.1\r\nHost: x\r\n"), Route::Health);
    assert_eq!(route_request("GET /api/stats HTTP/1.1\r\n"), Route::Stats);
    assert_eq!(route_request("GET /stats HTTP/1.1\r\n"), Route::Stats);
    assert_eq!(route_request("GET / HTTP/1.1\r\nUpgrade: websocket\r\n"), Route::GameSocket);
    assert_eq!(route_request("GET /heal"), Route::GameSocket);
    assert_eq!(route_request(""), Route::GameSocket);
    assert_eq!(route_request("POST /health"), Route::GameSocket);
}

#[test]
fn statistics_document() {
    assert_eq!(
        stats_body(1, 2, 0, 17),
        "{\"queue_1v1\":1,\"active_1v1_matches\":2,\"max_1v1_matches\":10,\"active_solo_matches\":0,\"max_solo_matches\":10,\"total_online\":17,\"status\":\"online\"}"
    );
    let big = stats_body(u32::MAX, 10, 305, 4_000_000_000);
    assert!(big.contains("\"queue_1v1\":4294967295,"));
    assert!(big.contains("\"active_solo_matches\":305,"));
    assert!(big.contains("\"total_online\":4000000000,"));
}

#[test]
fn health_response_is_the_fixed_document() {
    let body = health_body();
    assert_eq!(body, "{\"status\":\"ok\"}");
    assert_eq!(
        ok_json(&body),
        "HTTP/1.1 200 OK\r\nContent-Type: application/json\r\nAccess-Control-Allow-Origin: *\r\nConnection: close\r\nContent-Length: 15\r\n\r\n{\"status\":\"ok\"}"
    );
}

#[test]
fn content_length_counts_the_body() {
    let body = stats_body(0, 0, 0, 0);
    let resp = ok_json(&body);
    assert!(resp.ends_with(&body));
    assert!(resp.contains(&format!("Content-Length: {}\r\n\r\n", body.len())));
}
