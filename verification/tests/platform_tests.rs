use magicrune::is_wasm;

#[test]
fn no_forbidden_apis_in_wasm() {
    // The library builds for WebAssembly hosts only without the standard
    // adapters; on every other host there is nothing to check at run time.
    assert!(!is_wasm("x86_64"));
    assert!(!is_wasm("aarch64"));
    assert!(is_wasm("wasm32"));
    assert!(!is_wasm("wasm64"));
    assert!(!is_wasm(""));
}

#[test]
fn test_compile_error_mechanism() {
    // A build for a WebAssembly host with the standard adapters is refused
    // at compile time, so this path is only ever taken on other hosts.
    if is_wasm("x86_64") {
        unreachable!("Should not compile on wasm32 with std feature");
    }
}

#[test]
fn test_forbidden_api_detection() {
    let forbidden_apis = [
        "std::fs",
        "std::net",
        "std::thread",
        "std::process",
        "SystemTime::now()",
    ];

    assert_eq!(forbidden_apis.len(), 5);

    assert!(forbidden_apis.contains(&"std::fs"));
    assert!(forbidden_apis.contains(&"std::net"));
    assert!(forbidden_apis.contains(&"std::thread"));
    assert!(forbidden_apis.contains(&"std::process"));
    assert!(forbidden_apis.contains(&"SystemTime::now()"));
}

#[test]
fn test_nats_exactly_once() {
    println!("NATS Exactly-Once test would run here");
}
