use workshop::codegen::hello_macro_impl_source;
use workshop::coords;
use workshop::http::{build_response, route_request, starts_with_str};
use workshop::restaurant::{
    call_greet, eat_at_restaurant, greet, new_drink, seat_at_table, Drinks,
};
use workshop::slices::{largest, largest2, largest3};
use workshop::text::{contains_substr, lines_vec, u64_to_string};

#[test]
fn greetings_all_say_hiya() {
    assert_eq!(greet(), "hiya!");
    assert_eq!(seat_at_table(), "hiya!");
    assert_eq!(eat_at_restaurant(), "hiya!");
    assert_eq!(call_greet(), "hiya!");
}

#[test]
fn the_default_drink_is_water() {
    assert_eq!(new_drink(), Drinks::WATER);
}

#[test]
fn coordinate_pairs() {
    let p = coords::Point { x: 5, y: 10 };
    assert_eq!(*p.x(), 5);
    assert_eq!(p.sum(), 15);
    let q = coords::Point::<i32>::change_type(coords::Point { x: "a", y: "b" });
    assert_eq!(q.x, "a");
    assert_eq!(q.y, "b");
}

#[test]
fn largest_of_integers() {
    let numbers = vec![34, 50, 25, 100, 65];
    assert_eq!(largest(&numbers), 100);
    assert_eq!(largest2(&numbers), 100);
    assert_eq!(*largest3(&numbers), 100);
}

#[test]
fn largest_of_one() {
    let numbers = vec![7];
    assert_eq!(largest(&numbers), 7);
    assert_eq!(largest2(&numbers), 7);
    assert_eq!(*largest3(&numbers), 7);
}

#[test]
fn routing_picks_the_page() {
    let (status, file) = route_request("GET / HTTP/1.1\r\nHost: localhost\r\n\r\n");
    assert_eq!(status, "HTTP/1.1 200 OK");
    assert_eq!(file, "src/success.html");

    let (status, file) = route_request("GET /missing HTTP/1.1\r\n");
    assert_eq!(status, "HTTP/1.1 404 NOT FOUND");
    assert_eq!(file, "src/error.html");
}

#[test]
fn responses_carry_the_byte_length() {
    let response = build_response("HTTP/1.1 200 OK", "<p>hello</p>");
    assert_eq!(response, "HTTP/1.1 200 OK\r\nContent-Length: 12\r\n\r\n<p>hello</p>");
}

#[test]
fn prefixes_are_checked_by_character() {
    assert!(starts_with_str("GET / HTTP/1.1\r\nrest", "GET / HTTP/1.1\r\n"));
    assert!(!starts_with_str("POST / HTTP/1.1\r\n", "GET / HTTP/1.1\r\n"));
    assert!(starts_with_str("anything", ""));
    assert!(!starts_with_str("", "x"));
}

#[test]
fn decimal_writing() {
    assert_eq!(u64_to_string(0), "0");
    assert_eq!(u64_to_string(9), "9");
    assert_eq!(u64_to_string(10), "10");
    assert_eq!(u64_to_string(409), "409");
    assert_eq!(u64_to_string(u64::MAX), "18446744073709551615");
}

#[test]
fn substring_search() {
    assert!(contains_substr("productive", "duct"));
    assert!(!contains_substr("productive", "ducts"));
    assert!(contains_substr("anything", ""));
    assert!(!contains_substr("", "a"));
}

#[test]
fn line_splitting() {
    assert_eq!(lines_vec("a\nb\nc"), vec!["a", "b", "c"]);
    assert_eq!(lines_vec("a\r\nb\r\n"), vec!["a", "b"]);
    assert!(lines_vec("").is_empty());
    assert_eq!(lines_vec("\n"), vec![""]);
    assert_eq!(lines_vec("tail\r"), vec!["tail\r"]);
}

#[test]
fn generated_impl_source() {
    assert_eq!(
        hello_macro_impl_source("Pancakes"),
        "impl HelloMacro for Pancakes { fn hello_macro() { println!(\"Hello, Macro! My name is {}!\", stringify!(Pancakes)); } }"
    );
}
