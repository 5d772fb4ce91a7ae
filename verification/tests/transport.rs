use vk_kernel::transport::{
    bind_move, classify, endpoint_of, ensure_expected_server, ensure_string_sid, ensure_user_sid,
    no_descriptor, owner_is_expected, pipe_dacl, private_mode, squatted, user_endpoint, user_pipe,
    AcceptError, AccountKind, Arming, BindMove, VKD_SERVICE_SID,
};

const SERVICE: &str = "S-1-5-80-2321736676-1855261038-2536180385-746309522-2788627728";
const USER: &str = "S-1-5-21-1111111111-2222222222-3333333333-1001";

fn sids(list: &[&str]) -> Vec<String> {
    list.iter().map(|s| s.to_string()).collect()
}

#[test]
fn a_client_speaks_only_to_its_own_daemon_or_the_service() {
    let mine = "S-1-5-21-1111111111-2222222222-3333333333-1001";
    assert!(owner_is_expected(mine, mine));
    assert!(owner_is_expected(VKD_SERVICE_SID, mine));
    // The case of a SID carries no meaning; the comparison must not give it one.
    assert!(owner_is_expected(&VKD_SERVICE_SID.to_lowercase(), mine));
    for stranger in [
        "S-1-5-21-1111111111-2222222222-3333333333-1002",
        "S-1-5-18",
        "S-1-5-32-544",
        "S-1-5-80-0-0-0-0-0",
        "",
    ] {
        assert!(
            !owner_is_expected(stranger, mine),
            "{stranger} must not pass for {mine}"
        );
    }
}

#[test]
fn only_a_dead_listening_socket_is_fatal() {
    let emfile = std::io::Error::from_raw_os_error(24);
    let econnaborted = std::io::Error::from_raw_os_error(103);
    let ebadf = std::io::Error::from_raw_os_error(9);
    let of = |e: &std::io::Error| classify(e.raw_os_error(), &e.to_string());
    assert!(matches!(of(&emfile), AcceptError::Connection(_)));
    assert!(matches!(of(&econnaborted), AcceptError::Connection(_)));
    assert!(matches!(of(&ebadf), AcceptError::Listener(_)));
    assert!(matches!(classify(Some(22), "gone"), AcceptError::Listener(s) if s == "gone"));
    assert!(matches!(classify(None, "odd"), AcceptError::Connection(s) if s == "odd"));
}

#[test]
fn the_endpoint_of_an_account_is_derived_from_its_name_alone() {
    assert_eq!(user_pipe("eric").0, r"\\.\pipe\vk-eric");
    assert_eq!(user_pipe("Ada L").0, r"\\.\pipe\vk-Ada L");
    assert_eq!(user_endpoint("eric").0, "/tmp/vk-eric/vk.sock");
    assert_eq!(user_endpoint("Ada L").0, "/tmp/vk-Ada L/vk.sock");
    assert_eq!(endpoint_of(None, "eric").0, user_endpoint("eric").0);
    assert_eq!(
        endpoint_of(Some("/run/user/1000".to_string()), "eric").0,
        "/run/user/1000/vk.sock"
    );
}

#[test]
fn two_sids_become_the_task_6_dacl() {
    assert_eq!(
        pipe_dacl(&sids(&[SERVICE, USER])).unwrap(),
        format!("D:(A;;GA;;;{SERVICE})(A;;GA;;;{USER})")
    );
}

#[test]
fn one_sid_is_a_pipe_only_that_account_may_open() {
    assert_eq!(
        pipe_dacl(&sids(&[USER])).unwrap(),
        format!("D:(A;;GA;;;{USER})")
    );
}

#[test]
fn a_dacl_naming_nobody_is_refused() {
    let err = pipe_dacl(&sids(&[])).unwrap_err();
    assert!(err.contains("admit nobody"), "{err}");
}

#[test]
fn anything_that_is_not_a_string_sid_is_refused() {
    for bad in [
        "BA",
        "S-1-",
        "S-1-5--21",
        "Administrators",
        "S-1-5-21-1-2-3-1001)(A;;GA;;;WD",
        "",
    ] {
        let err = pipe_dacl(&sids(&[bad])).unwrap_err();
        assert!(
            err.contains("not a string SID"),
            "{bad:?} must be refused as a SID, got {err}"
        );
    }
    assert!(ensure_string_sid(USER).is_ok());
    assert!(ensure_string_sid("S-1-1-0").is_ok());
    // The first that is none is the one that is named.
    let err = pipe_dacl(&sids(&[USER, "BA", "WD"])).unwrap_err();
    assert_eq!(err, "`BA` is not a string SID");
}

#[test]
fn only_a_real_user_account_may_be_admitted() {
    ensure_user_sid(USER, "eric", AccountKind::User).expect("a user account");
    for (sid, what, kind) in [
        ("S-1-1-0", "Everyone", AccountKind::Other(5)),
        ("S-1-5-11", "Authenticated Users", AccountKind::Other(5)),
        ("S-1-5-32-544", "Administrators", AccountKind::Other(4)),
        ("S-1-5-18", "SYSTEM", AccountKind::Other(5)),
        (USER, "nobody", AccountKind::Unknown),
    ] {
        let err = ensure_user_sid(sid, what, kind).unwrap_err();
        assert!(err.contains(sid), "{what} ({sid}) must be refused: {err}");
    }
    assert!(ensure_user_sid("BA", "Administrators", AccountKind::User).is_err());
    let err = ensure_user_sid(USER, "", AccountKind::User).unwrap_err();
    assert!(err.contains("no name"), "{err}");
    let err = ensure_user_sid(USER, "gone", AccountKind::Deleted).unwrap_err();
    assert!(err.contains("a deleted account"), "{err}");
}

#[test]
fn a_server_of_another_account_is_named_and_refused() {
    assert!(ensure_expected_server("p", None, USER, None).is_ok());
    assert!(ensure_expected_server("p", Some(USER.to_string()), USER, None).is_ok());
    let err =
        ensure_expected_server("p", Some("S-1-5-18".to_string()), USER, Some(77)).unwrap_err();
    assert!(err.contains("S-1-5-18"), "{err}");
    assert!(err.contains(", process 77"), "{err}");
    let err = ensure_expected_server("p", Some("S-1-5-18".to_string()), USER, None).unwrap_err();
    assert!(!err.contains("process 77"), "{err}");
}

#[test]
fn a_name_that_is_taken_says_by_whom() {
    let s = squatted("pipe", 12, Some("S-1-5-18".to_string()));
    assert!(s.starts_with("pipe is already served by process 12 (account: S-1-5-18);"), "{s}");
    let s = squatted("pipe", 12, None);
    assert!(s.contains("(account: could not be read)"), "{s}");
}

#[test]
fn only_a_socket_that_nobody_serves_is_replaced() {
    assert!(matches!(bind_move("/s", None, false), BindMove::Bind));
    assert!(matches!(bind_move("/s", Some(true), false), BindMove::Replace));
    assert!(
        matches!(bind_move("/s", Some(true), true), BindMove::Refuse(w) if w == "endpoint /s already in use")
    );
    assert!(
        matches!(bind_move("/s", Some(false), false), BindMove::Refuse(w) if w == "/s exists and is not a socket")
    );
}

#[test]
fn a_directory_that_others_can_reach_is_not_listened_in() {
    assert!(private_mode("/d", 0o700).is_ok());
    assert!(private_mode("/d", 0o755).is_err());
    let err = private_mode("/d", 0o710).unwrap_err();
    assert_eq!(err, "/d is accessible by others; refusing to listen there");
}

#[test]
fn a_descriptor_has_no_place_on_a_socket() {
    assert!(no_descriptor(&None).is_ok());
    assert!(no_descriptor(&Some("D:".to_string())).is_err());
}

#[test]
fn the_second_failure_in_a_row_ends_the_listener() {
    let mut a = Arming { failures: 0 };
    a.armed(false);
    assert!(matches!(a.refused("e"), AcceptError::Connection(_)));
    a.armed(false);
    assert!(matches!(a.refused("e"), AcceptError::Listener(_)));
    a.armed(true);
    a.armed(false);
    assert!(matches!(a.refused("e"), AcceptError::Connection(_)));
}
