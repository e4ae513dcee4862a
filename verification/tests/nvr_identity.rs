use koji_build::errors::KojiError;
use koji_build::nvr::{parse_nvr, NVR};
use koji_build::strutil::value_token;

#[test]
fn nvr_from_full_task_path() {
    let r = parse_nvr("tasks/5819/112975819/bcc-0.29.1-1.fc40.src.rpm").expect("valid filename");
    assert_eq!(
        r,
        NVR {
            name: String::from("bcc"),
            version: String::from("0.29.1"),
            release: String::from("1.fc40"),
        }
    );
}

#[test]
fn nvr_roundtrip_concrete() {
    let r = parse_nvr("pkgname-1.0-2.fc40.src.rpm").expect("valid filename");
    assert_eq!(r.name, "pkgname");
    assert_eq!(r.version, "1.0");
    assert_eq!(r.release, "2.fc40");
}

#[test]
fn nvr_name_keeps_inner_dashes() {
    let r = parse_nvr("mingw-qt6-qt5compat-6.6-1.fc40.src.rpm").expect("valid filename");
    assert_eq!(r.name, "mingw-qt6-qt5compat");
    assert_eq!(r.version, "6.6");
    assert_eq!(r.release, "1.fc40");
}

#[test]
fn nvr_plain_rpm_suffix() {
    let r = parse_nvr("tool-2.3-4.rpm").expect("valid filename");
    assert_eq!(r.name, "tool");
    assert_eq!(r.version, "2.3");
    assert_eq!(r.release, "4");
}

#[test]
fn nvr_malformed_single_dash() {
    assert_eq!(
        parse_nvr("a-b.src.rpm"),
        Err(KojiError::MalformedIdentity(String::from("a-b.src.rpm")))
    );
}

#[test]
fn nvr_malformed_no_dash() {
    assert_eq!(
        parse_nvr("foo.rpm"),
        Err(KojiError::MalformedIdentity(String::from("foo.rpm")))
    );
}

#[test]
fn nvr_malformed_empty_name() {
    assert_eq!(
        parse_nvr("-1.0-2.src.rpm"),
        Err(KojiError::MalformedIdentity(String::from("-1.0-2.src.rpm")))
    );
}

#[test]
fn nvr_error_carries_filename_not_path() {
    assert_eq!(
        parse_nvr("some/dir/odd.src.rpm"),
        Err(KojiError::MalformedIdentity(String::from("odd.src.rpm")))
    );
}

#[test]
fn parameter_value_token() {
    assert_eq!(value_token(": x86_64\n"), "x86_64");
    assert_eq!(value_token(": tasks/5819/112975819/bcc-0.29.1-1.fc40.src.rpm\n"), "tasks/5819/112975819/bcc-0.29.1-1.fc40.src.rpm");
    assert_eq!(value_token(":  \n"), "");
}
