use littlefs2::backend::{major, minor};
use littlefs2::{BACKEND_VERSION, DISK_VERSION};

#[test]
fn version() {
    assert_eq!((major(BACKEND_VERSION), minor(BACKEND_VERSION)), (2, 9));
    assert_eq!((major(DISK_VERSION), minor(DISK_VERSION)), (2, 0));
}

#[test]
fn version_reports_the_format_and_the_backend() {
    let v = littlefs2::version();
    assert_eq!(v.format, (2, 0));
    assert_eq!(v.backend, (2, 9));
}
