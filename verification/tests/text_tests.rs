use datamodel::text::{
    camel_case, integer_to_text, joined, natural_to_text, owned, parse_i32, slice, str_eq,
    str_precedes,
};

#[test]
fn texts_are_equal_if_their_bytes_are() {
    assert!(str_eq("", ""));
    assert!(str_eq("Blog", "Blog"));
    assert!(!str_eq("Blog", "Blo"));
    assert!(!str_eq("Blog", "Blot"));
    assert!(str_eq("grüß", "grüß"));
    assert!(!str_eq("grüß", "gruß"));
    assert_eq!(owned("π"), "π");
    assert_eq!(joined("a", "", "bc"), "abc");
}

#[test]
fn slices_lie_between_characters() {
    assert_eq!(slice("model User", 6, 10), "User");
    assert_eq!(slice("model User", 0, 0), "");
    assert_eq!(slice("model User", 10, 10), "");
    assert_eq!(slice("model User", 6, 11), "");
    assert_eq!(slice("model User", 7, 6), "");
    assert_eq!(slice("aπb", 1, 3), "π");
    assert_eq!(slice("aπb", 1, 2), "");
    assert_eq!(slice("aπb", 2, 4), "");
    assert_eq!(slice("aπb", 3, 4), "b");
}

#[test]
fn numbers_are_read_if_an_i32_holds_them() {
    assert_eq!(parse_i32("0"), Some(0));
    assert_eq!(parse_i32("-0"), Some(0));
    assert_eq!(parse_i32("007"), Some(7));
    assert_eq!(parse_i32("2147483647"), Some(2147483647));
    assert_eq!(parse_i32("2147483648"), None);
    assert_eq!(parse_i32("-2147483648"), Some(-2147483648));
    assert_eq!(parse_i32("-2147483649"), None);
    assert_eq!(parse_i32("99999999999999999999999"), None);
    assert_eq!(parse_i32(""), None);
    assert_eq!(parse_i32("-"), None);
    assert_eq!(parse_i32("1.5"), None);
    assert_eq!(parse_i32("+1"), None);
    assert_eq!(parse_i32("12a"), None);
}

#[test]
fn numbers_are_written_in_decimal() {
    assert_eq!(natural_to_text(0), "0");
    assert_eq!(natural_to_text(4294967295), "4294967295");
    assert_eq!(integer_to_text(-2147483648), "-2147483648");
    assert_eq!(integer_to_text(2147483647), "2147483647");
    assert_eq!(integer_to_text(-10), "-10");
    for number in vec![0, 1, -1, 9, 10, 99, 100, 12345, -98765, i32::MAX, i32::MIN] {
        assert_eq!(parse_i32(&integer_to_text(number)), Some(number));
    }
}

#[test]
fn texts_are_ordered_by_their_bytes() {
    assert!(str_precedes("", ""));
    assert!(str_precedes("", "a"));
    assert!(!str_precedes("a", ""));
    assert!(str_precedes("Blog", "Post"));
    assert!(!str_precedes("Post", "Blog"));
    assert!(str_precedes("Blog", "Blog"));
    assert!(str_precedes("Blog", "Blogs"));
    assert!(!str_precedes("Blogs", "Blog"));
    assert!(str_precedes("Z", "a"));
    assert!(str_precedes("z", "ä"));
}

#[test]
fn the_first_letter_is_made_lower_case() {
    assert_eq!(camel_case("Blog"), "blog");
    assert_eq!(camel_case("BlogPost"), "blogPost");
    assert_eq!(camel_case("A"), "a");
    assert_eq!(camel_case("Z9"), "z9");
    assert_eq!(camel_case("blog"), "blog");
    assert_eq!(camel_case(""), "");
    assert_eq!(camel_case("Ärger"), "Ärger");
    assert_eq!(camel_case("_x"), "_x");
}

#[test]
fn names_are_brought_in_order_and_equal_names_keep_theirs() {
    let names: Vec<String> = vec!["pear", "apple", "fig", "apple", "Zebra", "", "fig"]
        .into_iter()
        .map(String::from)
        .collect();
    assert_eq!(datamodel::order::order_of(&names), vec![5, 4, 1, 3, 2, 6, 0]);
    assert_eq!(datamodel::order::order_of(&Vec::new()), Vec::<usize>::new());
    assert_eq!(datamodel::order::order_of(&vec!["a".to_string()]), vec![0]);
}
