use rnmap_core::service::{
    describe_service, guess_from_banner, guess_from_captures, probe_for_port, silent_wait_ms,
    split_product_version, BannerCaptures, BannerMatchers,
};

fn guess(port: u16, banner: &str) -> (String, Option<String>, Option<String>) {
    let m = BannerMatchers::new().unwrap();
    guess_from_banner(&m, port, banner)
}

fn s(x: &str) -> Option<String> {
    Some(x.to_string())
}

#[test]
fn ssh_banner() {
    let g = guess(22, "SSH-2.0-OpenSSH_9.9p1 Ubuntu-3ubuntu3.2\r\n");
    assert_eq!(g.0, "ssh");
    assert_eq!(g.1.as_deref(), Some("OpenSSH"));
    assert_eq!(g.2.as_deref(), Some("9.9p1"));
}

#[test]
fn http_banner() {
    let resp = "HTTP/1.1 200 OK\r\nServer: nginx/1.25.3\r\nContent-Length: 0\r\n\r\n";
    let g = guess(80, resp);
    assert_eq!(g.0, "http");
    assert_eq!(g.1.as_deref(), Some("nginx"));
    assert_eq!(g.2.as_deref(), Some("1.25.3"));
}

#[test]
fn ftp_banner() {
    let g = guess(21, "220 vsftpd 3.0.5 ready.\r\n");
    assert_eq!(g.0, "ftp");
}

#[test]
fn unknown_port_no_banner() {
    let g = guess(31337, "");
    assert_eq!(g.0, "unknown");
}

#[test]
fn fallback_by_port() {
    assert_eq!(guess(443, "").0, "https");
    assert_eq!(guess(3389, "").0, "rdp");
    assert_eq!(guess(5432, "").0, "postgresql");
}

#[test]
fn ftp_banner_product_and_version() {
    assert_eq!(guess(21, "220 vsftpd 3.0.5 ready.\r\n"), ("ftp".to_string(), s("vsftpd"), s("3.0.5")));
}

#[test]
fn greeting_220_reads_as_smtp_on_smtp_ports() {
    for port in [25u16, 587, 465] {
        assert_eq!(
            guess(port, "220 mail.example.com ESMTP Postfix\r\n"),
            ("smtp".to_string(), s("mail.example.com"), s("ESMTP"))
        );
    }
    // elsewhere a 220 greeting is FTP
    assert_eq!(
        guess(2525, "220 mail.example.com ESMTP Postfix\r\n"),
        ("ftp".to_string(), s("mail.example.com"), s("ESMTP"))
    );
}

#[test]
fn classification_from_given_captures() {
    let none = || BannerCaptures {
        ssh: None,
        http_server: None,
        ftp: None,
        smtp: None,
        mysql: None,
        redis: None,
        postgres: None,
        vnc: None,
        imap: None,
        pop3: None,
    };
    let mut c = none();
    c.ssh = Some(vec![Some("SSH-2.0-Foo_1.2".to_string()), Some("2.0".to_string()), Some("Foo_1.2 x".to_string())]);
    assert_eq!(guess_from_captures(22, "SSH-2.0-Foo_1.2", &c), ("ssh".to_string(), s("Foo"), s("1.2")));
    let mut c = none();
    c.vnc = Some(vec![Some("RFB 003.007".to_string()), Some("003".to_string()), Some("007".to_string())]);
    assert_eq!(guess_from_captures(5900, "RFB 003.007", &c), ("vnc".to_string(), s("RFB"), s("003.007")));
    let mut c = none();
    c.smtp = Some(vec![Some("220 a b".to_string()), Some(" a b ".to_string())]);
    c.ftp = Some(vec![Some("220 a b".to_string()), Some("x".to_string())]);
    assert_eq!(guess_from_captures(587, "220 a b", &c), ("smtp".to_string(), s("a"), s("b")));
    assert_eq!(guess_from_captures(21, "220 a b", &c), ("ftp".to_string(), s("x"), None));
    let mut c = none();
    c.mysql = Some(vec![Some("m".to_string()), Some("5.7.1-log".to_string())]);
    assert_eq!(guess_from_captures(1, "m", &c), ("mysql".to_string(), s("MySQL"), s("5.7.1")));
    assert_eq!(guess_from_captures(27017, "", &none()).0, "mongodb");
    let m = BannerMatchers::new().unwrap();
    let caps = m.captures("redis_version:6.0.9");
    assert_eq!(caps.redis, Some(vec![Some("redis_version:6.0.9".to_string()), Some("6.0.9".to_string())]));
    assert!(caps.ssh.is_none());
}

#[test]
fn http_variants() {
    assert_eq!(guess(8080, "HTTP/1.0 200 OK\r\n\r\n"), ("http".to_string(), None, None));
    assert_eq!(
        guess(8080, "HTTP/1.1 200 OK\r\nserver: Caddy\r\n\r\n"),
        ("http".to_string(), s("Caddy"), None)
    );
    assert_eq!(
        guess(1234, "junk\nServer: Apache/2.4.58 (Ubuntu)\n"),
        ("http".to_string(), s("Apache"), s("2.4.58"))
    );
}

#[test]
fn database_banners() {
    assert_eq!(
        guess(3307, "J\u{0}\u{0}\u{0}\u{b}8.0.36-0ubuntu0.22.04.1\u{0}rest"),
        ("mysql".to_string(), s("MySQL"), s("8.0.36"))
    );
    assert_eq!(guess(3306, ""), ("mysql".to_string(), s("MySQL"), None));
    assert_eq!(
        guess(6380, "$100\r\n# Server\r\nredis_version:7.2.4\r\n"),
        ("redis".to_string(), s("Redis"), s("7.2.4"))
    );
    assert_eq!(guess(6379, ""), ("redis".to_string(), s("Redis"), None));
    assert_eq!(
        guess(9999, "FATAL:  unsupported frontend protocol"),
        ("postgresql".to_string(), s("PostgreSQL"), None)
    );
}

#[test]
fn mail_and_vnc_banners() {
    assert_eq!(guess(5901, "RFB 003.008\n"), ("vnc".to_string(), s("RFB"), s("003.008")));
    assert_eq!(guess(1143, "* OK [CAPABILITY IMAP4rev1] ready\r\n").0, "imap");
    assert_eq!(guess(1110, "+OK Dovecot ready.\r\n").0, "pop3");
    assert_eq!(guess(993, "").0, "imap");
    assert_eq!(guess(995, "").0, "pop3");
    assert_eq!(guess(53, "").0, "dns");
    assert_eq!(guess(27017, "").0, "mongodb");
}

#[test]
fn split_product_version_cases() {
    assert_eq!(split_product_version("OpenSSH_9.9p1 Ubuntu"), (s("OpenSSH"), s("9.9p1")));
    assert_eq!(split_product_version("nginx/1.25.3 (Ubuntu)"), (s("nginx"), s("1.25.3")));
    assert_eq!(split_product_version("  Microsoft-IIS  10.0 x "), (s("Microsoft-IIS"), s("10.0")));
    assert_eq!(split_product_version("lighttpd"), (s("lighttpd"), None));
    assert_eq!(split_product_version("a_"), (s("a"), s("")));
    assert_eq!(split_product_version(" \t "), (None, None));
}

#[test]
fn describe_service_from_bytes() {
    let m = BannerMatchers::new().unwrap();
    let info = describe_service(&m, 22, b"SSH-2.0-OpenSSH_8.4\r\n\0\0");
    assert_eq!(info.name, "ssh");
    assert_eq!(info.product, s("OpenSSH"));
    assert_eq!(info.version, s("8.4"));
    assert_eq!(info.banner, s("SSH-2.0-OpenSSH_8.4\r\n"));

    // invalid UTF-8 becomes U+FFFD
    let info = describe_service(&m, 31337, &[0xff, b'a']);
    assert_eq!(info.name, "unknown");
    assert_eq!(info.banner, s("\u{FFFD}a"));

    // banners are cut to 256 characters
    let long = vec![b'x'; 300];
    let info = describe_service(&m, 31337, &long);
    assert_eq!(info.banner.unwrap().chars().count(), 256);

    // nothing read: no banner, name from the port
    let info = describe_service(&m, 443, b"");
    assert_eq!(info.name, "https");
    assert_eq!(info.banner, None);
    let info = describe_service(&m, 443, b"\0\0");
    assert_eq!(info.banner, None);
}

#[test]
fn probes_by_port() {
    assert_eq!(
        probe_for_port(80),
        Some("GET / HTTP/1.0\r\nHost: rnmap\r\nUser-Agent: rnmap/0.1\r\n\r\n")
    );
    assert_eq!(probe_for_port(8081), probe_for_port(80));
    assert_eq!(probe_for_port(25), Some("EHLO rnmap.local\r\n"));
    assert_eq!(probe_for_port(587), Some("EHLO rnmap.local\r\n"));
    assert_eq!(probe_for_port(110), Some("QUIT\r\n"));
    assert_eq!(probe_for_port(143), Some("a001 CAPABILITY\r\n"));
    assert_eq!(probe_for_port(21), Some("\r\n"));
    assert_eq!(probe_for_port(22), None);
    let hello = probe_for_port(443).unwrap().as_bytes();
    assert_eq!(hello.len(), 50);
    assert_eq!(&hello[..11], &[0x16, 0x03, 0x01, 0x00, 0x2d, 0x01, 0x00, 0x00, 0x29, 0x03, 0x03]);
    assert_eq!(&hello[43..], &[0x00, 0x00, 0x02, 0x00, 0x2f, 0x01, 0x00]);
    assert_eq!(silent_wait_ms(), 150);
}
