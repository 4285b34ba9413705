use otrsp::builder::{
    otrsp_capabilities, startup_link, startup_name, startup_write_error, NameReply,
};
use otrsp::link::LinkEvent;
use otrsp::{Error, OtrspBuilder};

#[test]
fn builder_defaults_to_name_query() {
    let b = OtrspBuilder::new("/dev/mock");
    assert_eq!(b.port_path, "/dev/mock");
    assert!(b.query_name);
    assert_eq!(b.startup_query().unwrap(), b"?NAME\r");
    let b = b.query_name(false);
    assert!(b.startup_query().is_none());
    let info = b.device_info("Unknown".to_string());
    assert_eq!(info.name, "Unknown");
    assert_eq!(info.port.as_deref(), Some("/dev/mock"));
}

#[test]
fn startup_name_falls_back_to_unknown() {
    assert_eq!(startup_name(NameReply::Line("NAMESO2RDUINO\r".to_string())), "SO2RDUINO");
    assert_eq!(startup_name(NameReply::NotAsked), "Unknown");
    assert_eq!(startup_name(NameReply::Failed), "Unknown");
    assert_eq!(startup_name(NameReply::TimedOut), "Unknown");
}

#[test]
fn capabilities_and_startup_error() {
    let caps = otrsp_capabilities();
    assert!(caps.stereo);
    assert!(caps.reverse_stereo);
    assert_eq!(caps.aux_ports, 2);
    match startup_write_error("broken pipe") {
        Error::Transport(m) => assert_eq!(m, "failed to send ?NAME: broken pipe"),
        other => panic!("expected Transport, got {other:?}"),
    }
}

#[test]
fn startup_timeout_arms_the_first_drain() {
    let mut link = startup_link(&NameReply::TimedOut);
    assert!(link.step(LinkEvent::QueryStarted).drain_first);
    let mut link = startup_link(&NameReply::Line("NAMEX\r".to_string()));
    assert!(!link.step(LinkEvent::QueryStarted).drain_first);
    let mut link = startup_link(&NameReply::NotAsked);
    assert!(!link.step(LinkEvent::QueryStarted).drain_first);
}
