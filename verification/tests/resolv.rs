use proxmox_znc::resolv::{detect_nameservers, resolv_conf_content};

#[test]
fn nameservers_from_resolv_conf() {
    let conf = "# generated\nnameserver 192.168.1.1\nnameserver 127.0.0.53\nnameserver ::1\nnameserver 192.168.1.1\nsearch lan\nnameserver   9.9.9.9 extra\nnameserver\nnameserver 2001:db8::1\n";
    assert_eq!(detect_nameservers(Some(conf)), "192.168.1.1 9.9.9.9 2001:db8::1");
}

#[test]
fn nameservers_fall_back() {
    assert_eq!(detect_nameservers(None), "1.1.1.1 8.8.8.8");
    assert_eq!(detect_nameservers(Some("nameserver 127.0.0.1\n")), "1.1.1.1 8.8.8.8");
    assert_eq!(detect_nameservers(Some("nameserver\t8.8.4.4\n")), "1.1.1.1 8.8.8.8");
}

#[test]
fn resolv_content_lists_each_nameserver() {
    assert_eq!(
        resolv_conf_content("1.1.1.1 8.8.8.8"),
        "nameserver 1.1.1.1\nnameserver 8.8.8.8\n"
    );
    assert_eq!(resolv_conf_content(""), "");
}

#[test]
fn resolv_round_trip() {
    for conf in [None, Some("nameserver 10.0.0.1\nnameserver 10.0.0.2\n"), Some("junk\n")] {
        let ns = detect_nameservers(conf);
        let content = resolv_conf_content(ns.as_str());
        assert_eq!(detect_nameservers(Some(content.as_str())), ns);
    }
}
