use container_urls::text::{center, dashes, ljust, spaces, width};

#[test]
fn centered() {
    let s = "ABC".to_owned();
    let r = center(&s, 2);
    assert_eq!("ABC", r.as_str());
    let r = center(&s, 5);
    assert_eq!(" ABC ", r.as_str());
    let r = center(&s, 4);
    assert_eq!(" ABC", r.as_str());
}

#[test]
fn center_keeps_text_that_fills_the_column() {
    let s = "Protocol".to_owned();
    assert_eq!(center(&s, 8), "Protocol");
    assert_eq!(center(&s, 0), "Protocol");
    assert_eq!(center(&s, 7), "Protocol");
}

#[test]
fn center_puts_the_odd_space_on_the_left() {
    assert_eq!(center(&"Ip".to_owned(), 5), "  Ip ");
    assert_eq!(center(&"Ip".to_owned(), 10), "    Ip    ");
    assert_eq!(center(&"".to_owned(), 3), "   ");
    assert_eq!(center(&"x".to_owned(), 2), " x");
}

#[test]
fn center_fills_the_column_exactly() {
    for w in 0..12usize {
        let r = center(&"abc".to_owned(), w);
        assert_eq!(r.len(), if w < 3 { 3 } else { w });
        assert_eq!(r.trim(), "abc");
        let left = r.len() - r.trim_start().len();
        let right = r.len() - r.trim_end().len();
        assert!(left == right || left == right + 1);
    }
}

#[test]
fn ljust_pads_on_the_right() {
    assert_eq!(ljust(&"ab".to_owned(), 5), "ab   ");
    assert_eq!(ljust(&"".to_owned(), 4), "    ");
    assert_eq!(ljust(&"ab".to_owned(), 3), "ab ");
}

#[test]
fn ljust_keeps_text_that_fills_the_column() {
    assert_eq!(ljust(&"abcdef".to_owned(), 6), "abcdef");
    assert_eq!(ljust(&"abcdef".to_owned(), 2), "abcdef");
    assert_eq!(ljust(&"abcdef".to_owned(), 0), "abcdef");
}

#[test]
fn width_counts_bytes() {
    assert_eq!(width(""), 0);
    assert_eq!(width("tcp"), 3);
    assert_eq!(width("\u{e9}"), 2);
    assert_eq!(width("caf\u{e9}"), 5);
}

#[test]
fn padding_measures_in_bytes() {
    assert_eq!(ljust(&"caf\u{e9}".to_owned(), 7), "caf\u{e9}  ");
    assert_eq!(center(&"caf\u{e9}".to_owned(), 8), "  caf\u{e9} ");
    assert_eq!(ljust(&"caf\u{e9}".to_owned(), 5), "caf\u{e9}");
}

#[test]
fn spaces_and_dashes() {
    assert_eq!(spaces(0), "");
    assert_eq!(spaces(3), "   ");
    assert_eq!(dashes(0), "");
    assert_eq!(dashes(5), "-----");
}
