use zport::ssh::cm_available;
use zport::state::{sock_path, state_path, zport_dir};

#[test]
fn multiplexing_everywhere_but_windows() {
    assert!(cm_available(false));
    assert!(!cm_available(true));
}

#[test]
fn state_file_below_zport_dir() {
    let home = home::home_dir().unwrap_or_default();
    let dir = home.join(".zport");
    assert_eq!(zport_dir(), dir.clone().into_os_string().into_encoded_bytes());
    assert_eq!(state_path(), dir.join("state.json").into_os_string().into_encoded_bytes());
    assert_eq!(sock_path("myhost"), dir.join("mux-myhost").into_os_string().into_encoded_bytes());
}
