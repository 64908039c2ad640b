use swu::enclosure::{get_sg, EnclosureError, DEVICE_PREFIX, ENCLOSURE_MARKER, LIST_COMMAND};

#[test]
fn enclosure_constants_have_the_documented_values() {
    assert_eq!(LIST_COMMAND, "lsscsi -g");
    assert_eq!(ENCLOSURE_MARKER, "enclosu");
    assert_eq!(DEVICE_PREFIX, "/dev/sg");
}

#[test]
fn enclosure_line_resolves_to_its_last_token() {
    assert_eq!(get_sg("[8:0:0:0]   enclosu  ...  /dev/sg3"), Ok(String::from("/dev/sg3")));
}

#[test]
fn enclosure_is_found_in_a_full_listing() {
    let listing = "[0:0:0:0]    disk    ATA      ST1000NM0033     SN04  /dev/sda   /dev/sg0 \n\
                   [0:0:1:0]    disk    ATA      ST1000NM0033     SN04  /dev/sdb   /dev/sg1 \n\
                   [8:0:0:0]    enclosu LSI      SAS3x40          0601  -          /dev/sg12\n\
                   [8:0:1:0]    enclosu LSI      SAS3x40          0601  -          /dev/sg13\n";
    assert_eq!(get_sg(listing), Ok(String::from("/dev/sg12")));
}

#[test]
fn trailing_whitespace_and_carriage_return_do_not_count() {
    assert_eq!(get_sg("x enclosu y /dev/sg7 \t\r\nrest"), Ok(String::from("/dev/sg7")));
    assert_eq!(get_sg("x enclosu y /dev/sg7\r"), Ok(String::from("/dev/sg7")));
}

#[test]
fn no_matching_line_is_no_enclosure() {
    assert_eq!(get_sg(""), Err(EnclosureError::NoEnclosureFound));
    assert_eq!(get_sg("\n\n"), Err(EnclosureError::NoEnclosureFound));
    assert_eq!(
        get_sg("[0:0:0:0]    disk    ATA      ST1000NM0033     SN04  /dev/sda   /dev/sg0\n"),
        Err(EnclosureError::NoEnclosureFound)
    );
    assert_eq!(get_sg("enclos\nu /dev/sg1\nENCLOSU /dev/sg2"), Err(EnclosureError::NoEnclosureFound));
}

#[test]
fn last_token_without_the_prefix_is_malformed() {
    assert_eq!(
        get_sg("[8:0:0:0]    enclosu LSI  SAS3x40  0601  -\n"),
        Err(EnclosureError::MalformedEnclosureLine {
            line: String::from("[8:0:0:0]    enclosu LSI  SAS3x40  0601  -"),
        })
    );
    assert_eq!(
        get_sg("a\r\nenclosu /dev/sg1 /dev/sda\r\nb"),
        Err(EnclosureError::MalformedEnclosureLine { line: String::from("enclosu /dev/sg1 /dev/sda") })
    );
    assert_eq!(
        get_sg("enclosu"),
        Err(EnclosureError::MalformedEnclosureLine { line: String::from("enclosu") })
    );
    assert_eq!(
        get_sg("enclosu x/dev/sg1"),
        Err(EnclosureError::MalformedEnclosureLine { line: String::from("enclosu x/dev/sg1") })
    );
}

#[test]
fn only_the_first_matching_line_counts() {
    assert_eq!(
        get_sg("enclosu one /dev/sg4\nenclosu two /dev/sg5\n"),
        Ok(String::from("/dev/sg4"))
    );
    assert_eq!(
        get_sg("disk /dev/sg0\nenclosu broken\nenclosu fine /dev/sg5\n"),
        Err(EnclosureError::MalformedEnclosureLine { line: String::from("enclosu broken") })
    );
}

#[test]
fn the_marker_may_stand_anywhere_in_the_line() {
    assert_eq!(get_sg("/dev/sg9enclosure"), Ok(String::from("/dev/sg9enclosure")));
    assert_eq!(get_sg("  xenclosux   /dev/sg"), Ok(String::from("/dev/sg")));
}
