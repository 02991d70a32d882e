use zed_core::channel::{generate_identifier, generate_identifier_with_prefix, retrieve_app_identifier, ReleaseChannel};
use zed_core::instance::{check_single_instance, InstanceLock, ObjectNamespace};

#[test]
fn app_identifier_per_channel() {
    assert_eq!(retrieve_app_identifier(ReleaseChannel::Dev), "Zed-Editor-Dev");
    assert_eq!(retrieve_app_identifier(ReleaseChannel::Nightly), "Zed-Editor-Nightly");
    assert_eq!(retrieve_app_identifier(ReleaseChannel::Preview), "Zed-Editor-Preview");
    assert_eq!(retrieve_app_identifier(ReleaseChannel::Stable), "Zed-Editor-Stable");
}

#[test]
fn mutex_and_pipe_identifiers() {
    let mutex = generate_identifier(ReleaseChannel::Dev, "Instance-Mutex");
    assert_eq!(mutex.as_str(), "Zed-Editor-Dev-Instance-Mutex");
    let pipe = generate_identifier_with_prefix("\\\\.\\pipe\\", ReleaseChannel::Stable, "Named-Pipe");
    assert_eq!(pipe.as_str(), "\\\\.\\pipe\\Zed-Editor-Stable-Named-Pipe");
}

#[test]
fn second_launch_is_not_owner() {
    let mut namespace = ObjectNamespace::new();
    let (_first_lock, first_is_owner) = check_single_instance(&mut namespace, ReleaseChannel::Stable);
    let (_second_lock, second_is_owner) = check_single_instance(&mut namespace, ReleaseChannel::Stable);
    assert!(first_is_owner);
    assert!(!second_is_owner);
}

#[test]
fn many_launches_one_owner() {
    let mut namespace = ObjectNamespace::new();
    let mut owners = 0;
    for _ in 0..10 {
        let (_lock, is_owner) = check_single_instance(&mut namespace, ReleaseChannel::Preview);
        if is_owner {
            owners += 1;
        }
    }
    assert_eq!(owners, 1);
}

#[test]
fn distinct_channels_do_not_contend() {
    let mut namespace = ObjectNamespace::new();
    let (_dev_lock, dev_is_owner) = check_single_instance(&mut namespace, ReleaseChannel::Dev);
    let (_stable_lock, stable_is_owner) = check_single_instance(&mut namespace, ReleaseChannel::Stable);
    assert!(dev_is_owner);
    assert!(stable_is_owner);
}

#[test]
fn lock_reports_its_identifier() {
    let mut namespace = ObjectNamespace::new();
    let lock = InstanceLock::acquire(&mut namespace, ReleaseChannel::Nightly);
    assert!(lock.is_owner());
    assert_eq!(lock.identifier().as_str(), "Zed-Editor-Nightly-Instance-Mutex");
    assert!(namespace.contains_object(lock.identifier()));
}
