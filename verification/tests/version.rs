use vkscaffold::encoding::{make_api_version, to_c_str, to_version};
use vkscaffold::errors::Error;

#[test]
fn test_str_to_version() {
    let result = make_api_version(0, 1, 0, 0);
    assert_eq!(to_version("1.0.0").unwrap(), result);

    let result = make_api_version(0, 1, 2, 3);
    assert_eq!(to_version("1.2.3").unwrap(), result);
}

#[test]
fn test_version_packing_formula() {
    // The reference packing formula, written out.
    assert_eq!(to_version("1.2.3").unwrap(), (1u32 << 22) | (2u32 << 12) | 3u32);
    assert_eq!(to_version("1.2.3").unwrap(), 4202499);
    assert_eq!(to_version("0.0.0").unwrap(), 0);
    assert_eq!(make_api_version(1, 0, 0, 0), 1u32 << 29);
}

#[test]
fn test_version_extra_components_ignored() {
    assert_eq!(to_version("1.2.3.4").unwrap(), to_version("1.2.3").unwrap());
}

#[test]
fn test_version_parse_errors() {
    assert_eq!(to_version("1.0").unwrap_err(), Error::VersionParse);
    assert_eq!(to_version("a.b.c").unwrap_err(), Error::VersionParse);
    assert_eq!(to_version("").unwrap_err(), Error::VersionParse);
    assert_eq!(to_version("1..3").unwrap_err(), Error::VersionParse);
    assert_eq!(to_version("1.2.").unwrap_err(), Error::VersionParse);
    // A component past u32 range is rejected rather than wrapped.
    assert_eq!(to_version("4294967296.0.0").unwrap_err(), Error::VersionParse);
    // The largest representable component is accepted.
    assert_eq!(
        to_version("4294967295.0.0").unwrap(),
        make_api_version(0, u32::MAX, 0, 0)
    );
}

#[test]
fn test_to_c_str() {
    assert_eq!(to_c_str("abc").unwrap(), vec![97u8, 98, 99, 0]);
    assert_eq!(to_c_str("").unwrap(), vec![0u8]);
    assert_eq!(to_c_str("a\0b").unwrap_err(), Error::StringEncoding);
}
