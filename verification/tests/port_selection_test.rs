// Port selection, driven by a binder that stands for the operating system:
// it grants every port that is not listed as occupied, and hands out
// `EPHEMERAL` when asked for any port.
use websink::error::SinkError;
use websink::port::find_available_port;

const EPHEMERAL: u16 = 49152;

fn bind_unless(occupied: &[u16], port: u16) -> Option<u16> {
    if port == 0 {
        Some(EPHEMERAL)
    } else if occupied.contains(&port) {
        None
    } else {
        Some(port)
    }
}

#[test]
fn test_auto_select_any_port() {
    // Test auto-selecting any available port (port 0)
    let result = find_available_port(0, |p| bind_unless(&[], p));
    assert!(result.is_ok(), "Should be able to auto-select any available port");
    let port = result.unwrap();
    assert!(port > 0, "Auto-selected port should be greater than 0");
    println!("Auto-selected port: {}", port);
}

#[test]
fn test_specific_available_port() {
    // Test using a specific available port
    let test_port = 9123;
    let result = find_available_port(test_port, |p| bind_unless(&[], p));
    assert!(result.is_ok(), "Should be able to use an available port");
    let port = result.unwrap();
    assert_eq!(port, test_port, "Should get the requested port when it's available");
}

#[test]
fn test_port_in_use_fallback() {
    // Test fallback when the requested port is in use
    let test_port = 9124;

    let result = find_available_port(test_port, |p| bind_unless(&[test_port], p));
    assert!(result.is_ok(), "Should find an alternative port when requested port is in use");
    let port = result.unwrap();
    assert_ne!(port, test_port, "Should not get the requested port when it's in use");
    assert!(port > test_port, "Should get a higher port number as alternative");
    assert!(port <= test_port + 100, "Alternative port should be within the search range");
    println!("Requested port {} was in use, got alternative port {}", test_port, port);
}

#[test]
fn test_no_available_ports_in_range() {
    let result = find_available_port(65530, |p| bind_unless(&[], p));
    match result {
        Ok(port) => println!("Got port {} near upper limit", port),
        Err(e) => println!("Expected error near upper limit: {:?}", e),
    }
    let every: Vec<u16> = (65530..=65535).collect();
    let result = find_available_port(65530, |p| bind_unless(&every, p));
    assert_eq!(result, Err(SinkError::NoPortAvailable));
}

#[test]
fn search_takes_the_lowest_free_candidate() {
    let occupied: Vec<u16> = (9124..9130).collect();
    assert_eq!(find_available_port(9124, |p| bind_unless(&occupied, p)), Ok(9130));
}

#[test]
fn search_reaches_the_hundredth_port_and_no_further() {
    let occupied: Vec<u16> = (9124..9224).collect();
    assert_eq!(find_available_port(9124, |p| bind_unless(&occupied, p)), Ok(9224));
    let occupied: Vec<u16> = (9124..9225).collect();
    assert_eq!(
        find_available_port(9124, |p| bind_unless(&occupied, p)),
        Err(SinkError::NoPortAvailable)
    );
}

#[test]
fn search_stops_at_the_highest_port() {
    let occupied: Vec<u16> = (65530..65535).collect();
    assert_eq!(find_available_port(65530, |p| bind_unless(&occupied, p)), Ok(65535));
    assert_eq!(find_available_port(65535, |p| bind_unless(&[], p)), Ok(65535));
    assert_eq!(
        find_available_port(65535, |p| bind_unless(&[65535], p)),
        Err(SinkError::NoPortAvailable)
    );
}

#[test]
fn port_zero_is_asked_once() {
    assert_eq!(find_available_port(0, |p| if p == 0 { None } else { Some(p) }), Err(SinkError::NoPortAvailable));
    assert_eq!(find_available_port(0, |_| Some(51000)), Ok(51000));
}

#[test]
fn search_returns_what_the_binder_reports() {
    let asked = std::cell::RefCell::new(Vec::new());
    let result = find_available_port(7000, |p| {
        asked.borrow_mut().push(p);
        if p < 7003 {
            None
        } else {
            Some(p)
        }
    });
    assert_eq!(result, Ok(7003));
    assert_eq!(*asked.borrow(), vec![7000, 7001, 7002, 7003]);
}
