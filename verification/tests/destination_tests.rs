use tunneler::ConnectionManager;
use tunneler::Destination;
use tunneler::Pool;

#[test]
fn new_dest_ip() {
    let dest = Destination::new("localhost".to_owned(), 123);
    assert_eq!("localhost", dest.get_ip());
}

#[test]
fn new_dest_port() {
    let dest = Destination::new("localhost".to_owned(), 123);
    assert_eq!(123, dest.get_port());
}

#[test]
fn new_dest_formatted() {
    let dest = Destination::new("localhost".to_owned(), 123);
    assert_eq!("localhost:123", dest.get_full_address());
}

#[test]
fn new_dest_zero_port() {
    let dest = Destination::new("10.0.0.1".to_owned(), 0);
    assert_eq!("10.0.0.1:0", dest.get_full_address());
}

#[test]
fn new_dest_max_port() {
    let dest = Destination::new("h".to_owned(), u32::MAX);
    assert_eq!("h:4294967295", dest.get_full_address());
}

#[test]
fn connection_manager_url() {
    let manager = ConnectionManager::new("localhost", 8080);
    assert_eq!("localhost:8080", manager.get_url());
}

#[test]
fn client_pool_addr() {
    let pool = Pool::new("127.0.0.1:9000".to_owned());
    assert_eq!("127.0.0.1:9000", pool.get_addr());
}
