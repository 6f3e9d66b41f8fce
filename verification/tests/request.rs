use tunnel::request::{HeaderList, Method, ReqBuilder};

#[test]
fn create_header_list() {
    HeaderList::new();
}

#[test]
fn use_header_list() {
    let mut hdrs = HeaderList::new();

    hdrs.put(("User-Agent", "Versailles"));

    let item = hdrs.get(0).expect("empty header list");

    assert!("User-Agent" == item.0);
    assert!("Versailles" == item.1);

    drop(hdrs);
}

#[test]
fn try_overflow_header_list() {
    let mut hdrs = HeaderList::new();

    for _ in 0..48 {
        hdrs.put(("dummy", "dummy"));
    }
}

#[test]
fn req_builder() {
    let mut hdrs = HeaderList::new();
    hdrs.put(("User-Agent", "Versailles"));

    let mut req = ReqBuilder::new(Method::GET);

    req.set_route("/droit/humain")
        .set_content("pas de dieu, pas de maitre".as_bytes())
        .add_headers(hdrs.header_slice());

    println!("{:?}", &req);

    let bytes = req.construct();

    let str_req = std::str::from_utf8(&bytes);
    assert!(str_req.is_ok());

    println!("{}", str_req.unwrap());
}

#[test]
fn request_on_the_wire() {
    let defaults = [("Host", "www.rust-lang.org"), ("User-Agent", "tunnel-test/0.0.1")];
    let mut req = ReqBuilder::new(Method::POST);
    req.default_headers(Some(&defaults))
        .set_route("/droit/humain")
        .add_headers(&[("Test-header", "Test-value")])
        .add_headers(&[("Second", "2")])
        .set_content(b"pas de dieu");
    assert_eq!(
        req.construct(),
        b"POST /droit/humain HTTP/1.1\r\nHost: www.rust-lang.org\r\nUser-Agent: tunnel-test/0.0.1\r\nTest-header: Test-value\r\nSecond: 2\r\n\r\npas de dieu".to_vec()
    );
}

#[test]
fn bare_request() {
    assert_eq!(ReqBuilder::new(Method::GET).construct(), b"GET / HTTP/1.1\r\n\r\n".to_vec());
}

#[test]
fn method_bytes() {
    assert_eq!(Method::GET.bytes(), b"GET ");
    assert_eq!(Method::PUT.bytes(), b"PUT ");
    assert_eq!(Method::POST.bytes(), b"POST ");
    assert_eq!(Method::HEAD.bytes(), b"HEAD ");
    assert_eq!(Method::PATCH.bytes(), b"PATCH ");
    assert_eq!(Method::OPTIONS.bytes(), b"OPTIONS ");
    assert_eq!(Method::CONNECT.bytes(), b"CONNECT ");
}

#[test]
fn header_list_keeps_order_and_grows() {
    let mut hdrs = HeaderList::new();
    assert_eq!(hdrs.len(), 0);
    assert_eq!(hdrs.get(0), None);
    assert!(hdrs.header_slice().is_empty());
    for _ in 0..48 {
        hdrs.put(("dummy", "dummy"));
    }
    hdrs.put(("last", "one"));
    assert_eq!(hdrs.len(), 49);
    assert_eq!(hdrs.get(48), Some(("last", "one")));
    assert_eq!(hdrs.get(49), None);
    assert_eq!(hdrs.header_slice().len(), 49);
    assert_eq!(hdrs.header_slice()[0], ("dummy", "dummy"));
}

#[test]
fn header_list_cursor() {
    let mut hdrs = HeaderList::new();
    hdrs.put(("a", "1"));
    hdrs.put(("b", "2"));
    let mut it = hdrs.iter();
    assert_eq!(it.next(), Some(("a", "1")));
    assert_eq!(it.next(), Some(("b", "2")));
    assert_eq!(it.next(), None);
    assert_eq!(it.next(), None);
}
