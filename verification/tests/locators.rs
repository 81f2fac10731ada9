use pubsub_bench::locators::{gather_locators, parse_locators, split_locators, InvalidLocator};

fn strings(list: &[&str]) -> Vec<String> {
    list.iter().map(|s| s.to_string()).collect()
}

#[test]
fn split_at_commas() {
    assert_eq!(
        split_locators("tcp/127.0.0.1:7447,udp/10.0.0.1:7448"),
        strings(&["tcp/127.0.0.1:7447", "udp/10.0.0.1:7448"])
    );
    assert_eq!(split_locators("tcp/127.0.0.1:7447"), strings(&["tcp/127.0.0.1:7447"]));
}

#[test]
fn split_leaves_empty_pieces_out() {
    assert_eq!(split_locators(""), strings(&[]));
    assert_eq!(split_locators(","), strings(&[]));
    assert_eq!(split_locators(",,,"), strings(&[]));
    assert_eq!(split_locators(",a,,b,"), strings(&["a", "b"]));
    assert_eq!(split_locators("a,"), strings(&["a"]));
    assert_eq!(split_locators(",a"), strings(&["a"]));
}

#[test]
fn split_agrees_with_std() {
    for text in ["", "a", "a,b", ",a,,b,", "tcp/[::1]:7447,,udp/h\u{f6}st:1", " , ,", "é,ü,,ß"] {
        let expected: Vec<String> =
            text.split(",").filter(|s| *s != "").map(|s| s.to_string()).collect();
        assert_eq!(split_locators(text), expected);
    }
}

#[test]
fn locators_are_read_by_zenoh() {
    assert_eq!(
        parse_locators("tcp/127.0.0.1:7447,,udp/10.0.0.1:7448"),
        Ok(strings(&["tcp/127.0.0.1:7447", "udp/10.0.0.1:7448"]))
    );
    assert_eq!(parse_locators(""), Ok(strings(&[])));
}

#[test]
fn locators_come_in_canonical_form() {
    assert_eq!(
        parse_locators("tcp/127.0.0.1:7447?b=1;a=2"),
        Ok(strings(&["tcp/127.0.0.1:7447?a=2;b=1"]))
    );
    assert_eq!(
        parse_locators("tcp/127.0.0.1:7447#iface=eth0"),
        Ok(strings(&["tcp/127.0.0.1:7447"]))
    );
}

#[test]
fn rejected_piece_is_named() {
    assert_eq!(parse_locators("tcp"), Err(InvalidLocator { index: 0 }));
    assert_eq!(parse_locators("tcp/127.0.0.1:7447,udp/,/x"), Err(InvalidLocator { index: 1 }));
    assert_eq!(parse_locators(",tcp/127.0.0.1:7447,,nothing"), Err(InvalidLocator { index: 1 }));
}

#[test]
fn gather_gives_all_or_the_first_missing() {
    assert_eq!(gather_locators(&vec![]), Ok(strings(&[])));
    assert_eq!(
        gather_locators(&vec![Some("a/b".to_string()), Some("c/d".to_string())]),
        Ok(strings(&["a/b", "c/d"]))
    );
    assert_eq!(
        gather_locators(&vec![Some("a/b".to_string()), None, Some("c/d".to_string()), None]),
        Err(InvalidLocator { index: 1 })
    );
    assert_eq!(gather_locators(&vec![None]), Err(InvalidLocator { index: 0 }));
}
