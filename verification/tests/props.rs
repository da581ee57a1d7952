use illumos_rs::{devprop, devprop_args, svccfg, svcprop, svcprop_args, Error};

#[test]
fn devprop_returns_the_single_trimmed_line() {
    let key = "mac-address".to_string();
    assert_eq!(devprop(&key, &"hello\n".to_string()).unwrap(), "hello");
    assert_eq!(devprop(&key, &"  00:11:22  \n".to_string()).unwrap(), "00:11:22");
    assert_eq!(devprop(&key, &"bare".to_string()).unwrap(), "bare");
}

#[test]
fn devprop_rejects_two_lines() {
    let key = "mac-address".to_string();
    let err = devprop(&key, &"one\ntwo\n".to_string()).unwrap_err();
    match &err {
        Error::UnexpectedLines { tool, subject, lines } => {
            assert_eq!(tool, "devprop");
            assert_eq!(subject, "mac-address");
            assert_eq!(lines, &vec!["one".to_string(), "two".to_string()]);
        }
        other => panic!("unexpected error: {}", other.render()),
    }
    let text = err.render();
    assert_eq!(text, "unexpected output for devprop mac-address: [\"one\", \"two\"]");
    assert!(text.contains("one") && text.contains("two"));
}

#[test]
fn devprop_rejects_empty_output() {
    let key = "mac-address".to_string();
    let err = devprop(&key, &"".to_string()).unwrap_err();
    assert_eq!(err.render(), "unexpected output for devprop mac-address: []");
}

#[test]
fn devprop_argument_vector() {
    assert_eq!(
        devprop_args(&"banner-name".to_string()),
        vec!["/sbin/devprop".to_string(), "banner-name".to_string()]
    );
}

#[test]
fn svcprop_returns_the_single_trimmed_line() {
    let fmri = "svc:/system/identity:node".to_string();
    assert_eq!(svcprop(&fmri, &"myhost\n".to_string()).unwrap(), "myhost");
}

#[test]
fn svcprop_rejects_multiple_lines() {
    let fmri = "svc:/system/identity:node".to_string();
    let err = svcprop(&fmri, &"a\nb\n".to_string()).unwrap_err();
    assert_eq!(
        err.render(),
        "unexpected output for svcprop svc:/system/identity:node: [\"a\", \"b\"]"
    );
}

#[test]
fn svcprop_argument_vector() {
    assert_eq!(
        svcprop_args(&"svc:/a:b".to_string(), &"config/nodename".to_string()),
        vec![
            "/usr/bin/svcprop".to_string(),
            "-p".to_string(),
            "config/nodename".to_string(),
            "svc:/a:b".to_string(),
        ]
    );
}

#[test]
fn svccfg_joins_directives_for_stdin() {
    let dirs = vec!["select system/identity:node".to_string(), "refresh".to_string()];
    let spec = svccfg(&dirs, None);
    assert_eq!(spec.program, "/usr/sbin/svccfg");
    assert!(spec.args.is_empty());
    assert!(spec.env.is_none());
    assert_eq!(spec.stdin.unwrap(), "select system/identity:node\nrefresh\n");
}

#[test]
fn svccfg_with_no_directives_feeds_nothing() {
    let spec = svccfg(&Vec::new(), None);
    assert_eq!(spec.stdin.unwrap(), "");
}

#[test]
fn svccfg_alternate_root_derives_five_overrides() {
    let dirs = vec!["import /x.xml".to_string()];
    let root = "/a".to_string();
    let spec = svccfg(&dirs, Some(&root));
    let env = spec.env.unwrap();
    assert_eq!(
        env,
        vec![
            ("SVCCFG_CHECKHASH".to_string(), "1".to_string()),
            ("PKG_INSTALL_ROOT".to_string(), "/a".to_string()),
            (
                "SVCCFG_DTD".to_string(),
                "/a/usr/share/lib/xml/dtd/service_bundle.dtd.1".to_string()
            ),
            ("SVCCFG_REPOSITORY".to_string(), "/a/etc/svc/repository.db".to_string()),
            ("SVCCFG_CONFIGD_PATH".to_string(), "/a/lib/svc/bin/svc.configd".to_string()),
        ]
    );
    assert_eq!(spec.stdin.unwrap(), "import /x.xml\n");
}

#[test]
fn devprop_ignores_blank_lines_around_the_value() {
    let key = "mac-address".to_string();
    assert_eq!(devprop(&key, &"hello\n\n".to_string()).unwrap(), "hello");
    assert_eq!(devprop(&key, &"\n  value  \n\n".to_string()).unwrap(), "value");
}

#[test]
fn devprop_rejects_a_single_blank_line() {
    let key = "mac-address".to_string();
    let err = devprop(&key, &"  \n".to_string()).unwrap_err();
    assert_eq!(err.render(), "unexpected output for devprop mac-address: [\"  \"]");
}

#[test]
fn svcprop_rejects_two_nonempty_lines_among_blanks() {
    let fmri = "svc:/a:b".to_string();
    let err = svcprop(&fmri, &"a\n\nb\n".to_string()).unwrap_err();
    assert_eq!(err.render(), "unexpected output for svcprop svc:/a:b: [\"a\", \"\", \"b\"]");
}
