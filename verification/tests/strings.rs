//! Engine string behavior: static and shared content, reference counts,
//! concatenation and trimming.

use jsvm::string::{JsStr, JsString, StaticJsString, StaticJsStrings};

fn ascii_to_utf16(ascii: &[u8]) -> Vec<u16> {
    let mut array = Vec::new();
    let mut i = 0;
    while i < ascii.len() {
        array.push(ascii[i] as u16);
        i += 1;
    }
    array
}

#[test]
fn empty() {
    let s = StaticJsStrings::empty_string();
    assert_eq!(s.as_str().to_units(), Vec::<u16>::new());
}

#[test]
fn refcount() {
    let x = JsString::from_str("Hello world");
    assert_eq!(x.refcount(), Some(1));

    {
        let y = x.clone();
        assert_eq!(x.refcount(), Some(2));
        assert_eq!(y.refcount(), Some(2));

        {
            let z = y.clone();
            assert_eq!(x.refcount(), Some(3));
            assert_eq!(y.refcount(), Some(3));
            assert_eq!(z.refcount(), Some(3));
        }

        assert_eq!(x.refcount(), Some(2));
        assert_eq!(y.refcount(), Some(2));
    }

    assert_eq!(x.refcount(), Some(1));
}

#[test]
fn static_refcount() {
    let x = StaticJsStrings::empty_string();
    assert_eq!(x.refcount(), None);

    {
        let y = x.clone();
        assert_eq!(x.refcount(), None);
        assert_eq!(y.refcount(), None);
    };

    assert_eq!(x.refcount(), None);
}

#[test]
fn ptr_eq() {
    let x = JsString::from_str("Hello");
    let y = x.clone();

    assert!(!x.is_static());

    assert!(x.ptr_eq(&y));

    let z = JsString::from_str("Hello");
    assert!(!x.ptr_eq(&z));
    assert!(!y.ptr_eq(&z));
}

#[test]
fn static_ptr_eq() {
    let x = StaticJsStrings::empty_string();
    let y = x.clone();

    assert!(x.is_static());

    assert!(x.ptr_eq(&y));

    let z = StaticJsStrings::empty_string();
    assert!(x.ptr_eq(&z));
    assert!(y.ptr_eq(&z));
}

#[test]
fn as_str() {
    let hello = ascii_to_utf16(b"Hello");
    let x = JsString::from_units(&hello);

    assert_eq!(x.as_str().to_units(), hello);
}

#[test]
fn concat() {
    let y = ascii_to_utf16(b", ");
    let w = ascii_to_utf16(b"!");

    let x = JsString::from_str("hello");
    let z = JsString::from_str("world");

    let xy = JsString::concat(x.as_str(), JsString::from_units(&y).as_str());
    assert_eq!(xy.as_str().to_units(), ascii_to_utf16(b"hello, "));
    assert_eq!(xy.refcount(), Some(1));

    let xyz = JsString::concat(xy.as_str(), z.as_str());
    assert_eq!(xyz.as_str().to_units(), ascii_to_utf16(b"hello, world"));
    assert_eq!(xyz.refcount(), Some(1));

    let xyzw = JsString::concat(xyz.as_str(), JsString::from_units(&w).as_str());
    assert_eq!(xyzw.as_str().to_units(), ascii_to_utf16(b"hello, world!"));
    assert_eq!(xyzw.refcount(), Some(1));
}

#[test]
fn trim_start_non_ascii_to_ascii() {
    let s = "\u{2029}abc";
    let x = JsString::from_str(s);

    let y = JsString::from_js_str(x.trim_start());

    assert!(y.eq_str(s.trim_start()));
}

#[test]
fn from_static_js_string() {
    let static_hello_world = StaticJsString::new(JsStr::latin1("hello world".as_bytes()));
    let static_emojis = StaticJsString::new(JsStr::utf16(&[
        0xD83C, 0xDFB9, 0xD83C, 0xDFB6, 0xD83C, 0xDFB5,
    ])); // musical keyboard, notes and note
    let latin1 = JsString::from_static_js_string(&static_hello_world);
    let utf16 = JsString::from_static_js_string(&static_emojis);

    // content compare
    assert!(latin1.eq_str("hello world"));
    assert!(utf16.eq_str("\u{1F3B9}\u{1F3B6}\u{1F3B5}"));

    // refcount check
    let clone = latin1.clone();

    assert_eq!(clone, latin1);

    let clone = utf16.clone();

    assert_eq!(clone, utf16);

    assert!(latin1.refcount().is_none());
    assert!(utf16.refcount().is_none());

    // `is_latin1` check
    assert!(latin1.as_str().is_latin1());
    assert!(!utf16.as_str().is_latin1());
}

#[test]
fn compare_static_and_dynamic_js_string() {
    let static_hello_world = StaticJsString::new(JsStr::latin1("hello world".as_bytes()));
    let static_emojis = StaticJsString::new(JsStr::utf16(&[
        0xD83C, 0xDFB9, 0xD83C, 0xDFB6, 0xD83C, 0xDFB5,
    ]));
    let static_latin1 = JsString::from_static_js_string(&static_hello_world);
    let static_utf16 = JsString::from_static_js_string(&static_emojis);

    let dynamic_latin1 = JsString::from_js_str(JsStr::latin1("hello world".as_bytes()));
    let dynamic_utf16 = JsString::from_units(&[0xD83C, 0xDFB9, 0xD83C, 0xDFB6, 0xD83C, 0xDFB5]);

    // content compare
    assert_eq!(static_latin1, dynamic_latin1);
    assert_eq!(static_utf16, dynamic_utf16);

    // length check
    assert_eq!(static_latin1.len(), dynamic_latin1.len());
    assert_eq!(static_utf16.len(), dynamic_utf16.len());

    // `is_static` check
    assert!(static_latin1.is_static());
    assert!(static_utf16.is_static());
    assert!(!dynamic_latin1.is_static());
    assert!(!dynamic_utf16.is_static());
}
