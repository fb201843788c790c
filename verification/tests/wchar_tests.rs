use trayicon::{wchar, wchar_array};

/// Ensure that too long strings gets truncated and is null terminated
#[test]
fn test_wchar_too_long() {
    let mut dst: [u16; 5] = [99, 99, 99, 99, 99];
    wchar_array("HELLO WORLD", dst.as_mut());
    assert_eq!(dst, [72, 69, 76, 76, 0]);
}

/// Ensure that too short strings is null terminated
#[test]
fn test_wchar_too_short() {
    let mut dst: [u16; 5] = [99, 99, 99, 99, 99];
    wchar_array("HI!", dst.as_mut());
    assert_eq!(dst, [72, 73, 33, 0, 99]);
}

/// Ensure that empty string is null terminated
#[test]
fn test_wchar_empty() {
    let mut dst: [u16; 5] = [99, 99, 99, 99, 99];
    wchar_array("", dst.as_mut());
    assert_eq!(dst, [0, 99, 99, 99, 99]);
}

#[test]
fn wchar_appends_a_terminator() {
    assert_eq!(wchar("Foo"), vec![70, 111, 111, 0]);
    assert_eq!(wchar(""), vec![0]);
}

#[test]
fn wchar_encodes_surrogate_pairs() {
    // U+1F44D is encoded as the surrogate pair D83D DC4D
    assert_eq!(wchar("\u{1F44D}"), vec![0xD83D, 0xDC4D, 0]);
}
