use limpio::config::{
    check_ip, check_port, get_config, merge_config, split_path, validate_config, AppConfig,
    CliOverrides, Config, ConfigError, HostConfig,
};

fn host(ip: &str, port: &str, root: &str, index: &str) -> HostConfig {
    HostConfig {
        ip: ip.to_string(),
        port: port.to_string(),
        root: root.to_string(),
        index: index.to_string(),
    }
}

fn config(ip: &str, port: &str, root: &str, index: &str) -> Config {
    Config { host: host(ip, port, root, index), cli: AppConfig { verbose: false } }
}

// --- the address -----------------------------------------------------------

#[test]
fn check_ip_accepts_dotted_quads() {
    for ip in [
        "127.0.0.1",
        "0.0.0.0",
        "255.255.255.255",
        "192.168.1.10",
        "10.0.0.1",
        "1.2.3.4",
        "8.8.8.8",
        "100.20.3.0",
        "249.250.199.200",
    ] {
        assert!(check_ip(ip), "{:?}", ip);
    }
}

#[test]
fn check_ip_accepts_every_quad_of_numbers_up_to_255() {
    let samples = [0usize, 1, 9, 10, 11, 99, 100, 101, 127, 199, 200, 249, 250, 254, 255];
    for a in samples {
        for b in samples {
            for c in [0usize, 7, 42, 255] {
                for d in [0usize, 1, 128, 255] {
                    let ip = format!("{}.{}.{}.{}", a, b, c, d);
                    assert!(check_ip(&ip), "{:?}", ip);
                }
            }
        }
    }
}

#[test]
fn check_ip_refuses_more_than_four_octets() {
    for ip in ["1.2.3.4.5", "1.2.3.4.5.6", "127.0.0.1.", "1.2.3.4.", "0.0.0.0.0"] {
        assert!(!check_ip(ip), "{:?}", ip);
    }
}

#[test]
fn check_ip_refuses_fewer_than_four_octets() {
    for ip in ["", "1", "1.2", "1.2.3", "127", "127.0.0", "...", "1..2.3", ".1.2.3", "1.2.3."] {
        assert!(!check_ip(ip), "{:?}", ip);
    }
}

#[test]
fn check_ip_refuses_octets_that_are_not_numbers() {
    for ip in [
        "a.b.c.d",
        "1.2.3.x",
        "localhost",
        "1.2.3.4a",
        "a1.2.3.4",
        "1.2.3.-4",
        "1.2.3.+4",
        "1.2.3.4 ",
        " 1.2.3.4",
        "1.2 .3.4",
        "1,2,3,4",
        "1.2.3.4\n",
        "0x7f.0.0.1",
        "::1",
        "１.2.3.4",
        "1.2.3.٤",
    ] {
        assert!(!check_ip(ip), "{:?}", ip);
    }
}

#[test]
fn check_ip_refuses_octets_out_of_range() {
    for ip in [
        "256.0.0.1",
        "1.256.0.1",
        "1.2.256.1",
        "1.2.3.256",
        "999.1.1.1",
        "1.1.1.1000",
        "300.300.300.300",
        "1.2.3.99999999999999999999",
    ] {
        assert!(!check_ip(ip), "{:?}", ip);
    }
}

#[test]
fn check_ip_refuses_a_zero_in_front_of_an_octet() {
    for ip in ["01.2.3.4", "1.02.3.4", "1.2.003.4", "1.2.3.00", "127.0.0.01", "0127.0.0.1"] {
        assert!(!check_ip(ip), "{:?}", ip);
    }
    assert!(check_ip("0.10.100.0"));
}

#[test]
fn check_ip_agrees_with_a_reading_by_fields() {
    // Every string over a small alphabet, up to seven characters, against a
    // plain statement of the rule on the fields between the dots.
    fn field_is_octet(field: &str) -> bool {
        !field.is_empty()
            && field.len() <= 3
            && field.bytes().all(|b| b.is_ascii_digit())
            && (field.len() == 1 || !field.starts_with('0'))
            && field.parse::<u32>().unwrap() <= 255
    }
    fn expected(text: &str) -> bool {
        let fields: Vec<&str> = text.split('.').collect();
        fields.len() == 4 && fields.iter().all(|f| field_is_octet(f))
    }
    let alphabet = ['0', '1', '2', '5', '6', '.', 'a'];
    let mut texts: Vec<String> = vec![String::new()];
    let mut start = 0;
    for _ in 0..7 {
        let end = texts.len();
        for i in start..end {
            for c in alphabet {
                let mut next = texts[i].clone();
                next.push(c);
                texts.push(next);
            }
        }
        start = end;
    }
    for text in &texts {
        assert_eq!(check_ip(text), expected(text), "{:?}", text);
    }
    for text in ["255.255.255.255", "256.255.255.255", "25.25.25.255", "2.5.5.256", "1.2.3.4.5"] {
        assert_eq!(check_ip(text), expected(text), "{:?}", text);
    }
}

// --- the port --------------------------------------------------------------

#[test]
fn check_port_accepts_every_number_from_1_to_65535() {
    let mut n: u32 = 1;
    while n <= 65535 {
        assert!(check_port(&format!("{}", n)), "{}", n);
        n += 1;
    }
}

#[test]
fn check_port_refuses_zero() {
    assert!(!check_port("0"));
    assert!(!check_port("00"));
    assert!(!check_port("+0"));
}

#[test]
fn check_port_refuses_numbers_above_65535() {
    for port in ["65536", "65537", "70000", "100000", "4294967296", "99999999999999999999999"] {
        assert!(!check_port(port), "{:?}", port);
    }
}

#[test]
fn check_port_refuses_what_is_not_a_number() {
    for port in [
        "", "-1", "-80", "abc", "80a", "a80", "8 0", " 80", "80 ", "80\n", "8.0", "0x50", "+", "-",
        "++80", "+-80", "80+", "８０", "1_000", "http",
    ] {
        assert!(!check_port(port), "{:?}", port);
    }
}

#[test]
fn check_port_takes_a_plus_sign_and_zeros_in_front() {
    assert!(check_port("+80"));
    assert!(check_port("0080"));
    assert!(check_port("+0080"));
    assert!(check_port("000000000000000000000000065535"));
    assert!(!check_port("000000000000000000000000065536"));
}

#[test]
fn check_port_agrees_with_the_standard_parser() {
    fn expected(text: &str) -> bool {
        match text.parse::<u16>() {
            Ok(port) => port > 0,
            Err(_) => false,
        }
    }
    let mut n: u32 = 0;
    while n <= 70000 {
        let text = format!("{}", n);
        assert_eq!(check_port(&text), expected(&text), "{:?}", text);
        n += 1;
    }
    for text in [
        "", "+", "-", "+1", "-1", "+0", "-0", "+65535", "+65536", "007", "0", "00000", " 1", "1 ",
        "1a", "a1", "1.5", "1e2", "0x1F", "١٢", "65535", "65536", "065535", "99999",
    ] {
        assert_eq!(check_port(text), expected(text), "{:?}", text);
    }
}

// --- validation ------------------------------------------------------------

#[test]
fn validate_config_passes_when_all_three_checks_pass() {
    let c = config("127.0.0.1", "8080", "docs", "index.html");
    assert_eq!(validate_config(&c, true), Ok(()));
}

#[test]
fn validate_config_reports_the_missing_index_with_its_path() {
    let c = config("127.0.0.1", "8080", "docs", "index.html");
    assert_eq!(
        validate_config(&c, false),
        Err(ConfigError::IndexNotFound { path: "docs/index.html".to_string() })
    );
}

#[test]
fn validate_config_joins_root_and_index_with_one_slash() {
    let c = config("10.0.0.1", "80", "/srv/www/", "home.htm");
    assert_eq!(
        validate_config(&c, false),
        Err(ConfigError::IndexNotFound { path: "/srv/www//home.htm".to_string() })
    );
    let d = config("10.0.0.1", "80", "", "");
    assert_eq!(
        validate_config(&d, false),
        Err(ConfigError::IndexNotFound { path: "/".to_string() })
    );
}

#[test]
fn validate_config_reports_a_bad_address() {
    for ip in ["", "localhost", "1.2.3", "1.2.3.4.5", "256.1.1.1", "1.2.3.x"] {
        let c = config(ip, "8080", "docs", "index.html");
        assert_eq!(validate_config(&c, true), Err(ConfigError::InvalidIp), "{:?}", ip);
    }
}

#[test]
fn validate_config_reports_a_bad_port() {
    for port in ["0", "65536", "-1", "http", ""] {
        let c = config("127.0.0.1", port, "docs", "index.html");
        assert_eq!(validate_config(&c, true), Err(ConfigError::InvalidPort), "{:?}", port);
    }
}

#[test]
fn validate_config_reports_the_first_failure_only() {
    let all_bad = config("nowhere", "0", "docs", "index.html");
    assert_eq!(validate_config(&all_bad, false), Err(ConfigError::InvalidIp));
    let port_and_index = config("127.0.0.1", "0", "docs", "index.html");
    assert_eq!(validate_config(&port_and_index, false), Err(ConfigError::InvalidPort));
    let ip_and_index = config("nowhere", "80", "docs", "index.html");
    assert_eq!(validate_config(&ip_and_index, false), Err(ConfigError::InvalidIp));
}

#[test]
fn config_error_messages() {
    assert_eq!(ConfigError::InvalidIp.message(), "Check `ip` value.");
    assert_eq!(ConfigError::InvalidPort.message(), "Check `port` value.");
    assert_eq!(
        ConfigError::IndexNotFound { path: "docs/index.html".to_string() }.message(),
        "Check `root` and `index` values. Path docs/index.html not found"
    );
    assert_eq!(
        ConfigError::IndexNotFound { path: String::new() }.message(),
        "Check `root` and `index` values. Path  not found"
    );
}

// --- paths and addresses ---------------------------------------------------

#[test]
fn index_path_and_path_of() {
    let h = host("127.0.0.1", "8080", "docs", "index.html");
    assert_eq!(h.index_path(), "docs/index.html");
    assert_eq!(h.path_of("404.html"), "docs/404.html");
    assert_eq!(h.path_of(""), "docs/");
    assert_eq!(h.path_of("../secret"), "docs/../secret");
    assert_eq!(h.path_of("ü/é.png"), "docs/ü/é.png");
    let bare = host("127.0.0.1", "8080", "", "index.html");
    assert_eq!(bare.index_path(), "/index.html");
}

#[test]
fn socket_address_joins_address_and_port() {
    assert_eq!(host("127.0.0.1", "8080", "docs", "index.html").socket_address(), "127.0.0.1:8080");
    assert_eq!(host("0.0.0.0", "80", "", "").socket_address(), "0.0.0.0:80");
    assert_eq!(host("", "", "", "").socket_address(), ":");
}

// --- the stored configuration ----------------------------------------------

#[test]
fn get_config_returns_what_was_loaded() {
    let c = Config {
        host: host("192.168.0.2", "3000", "public", "start.html"),
        cli: AppConfig { verbose: true },
    };
    let slot = Some(c.clone());
    assert_eq!(get_config(&slot), c);
    assert_eq!(get_config(&slot), get_config(&slot));
    assert_eq!(slot, Some(c));
}

#[test]
fn clone_copies_every_field() {
    let h = host("1.2.3.4", "5", "r", "i");
    assert_eq!(h.clone(), h);
    let a = AppConfig { verbose: true };
    assert_eq!(a.clone(), a);
    let c = Config { host: h, cli: a };
    let d = c.clone();
    assert_eq!(d.host.ip, "1.2.3.4");
    assert_eq!(d.host.port, "5");
    assert_eq!(d.host.root, "r");
    assert_eq!(d.host.index, "i");
    assert!(d.cli.verbose);
}

// --- overrides -------------------------------------------------------------

#[test]
fn split_path_parts_at_the_last_slash() {
    let parts = |path: &str| -> (String, String) { split_path(path) };
    assert_eq!(parts("docs/index.html"), ("docs".to_string(), "index.html".to_string()));
    assert_eq!(parts("a/b/c.html"), ("a/b".to_string(), "c.html".to_string()));
    assert_eq!(parts("index.html"), (String::new(), "index.html".to_string()));
    assert_eq!(parts("/index.html"), (String::new(), "index.html".to_string()));
    assert_eq!(parts("docs/"), ("docs".to_string(), String::new()));
    assert_eq!(parts("a//b"), ("a/".to_string(), "b".to_string()));
    assert_eq!(parts(""), (String::new(), String::new()));
    assert_eq!(parts("/"), (String::new(), String::new()));
    assert_eq!(parts("é/ü/ö.txt"), ("é/ü".to_string(), "ö.txt".to_string()));
}

#[test]
fn split_path_agrees_with_split_and_join() {
    for path in ["docs/index.html", "a/b/c", "x", "", "/", "//", "a/", "/a", "a//b/", "é/ü"] {
        let pieces: Vec<&str> = path.split("/").collect();
        let file = pieces.last().unwrap().to_string();
        let directory = pieces[..pieces.len() - 1].join("/");
        assert_eq!(split_path(path), (directory, file), "{:?}", path);
    }
}

#[test]
fn merge_config_without_overrides_keeps_the_file() {
    let merged = merge_config(
        host("127.0.0.1", "8080", "docs", "index.html"),
        CliOverrides { verbose: false, ip: None, port: None, serve: None },
    );
    assert_eq!(merged, config("127.0.0.1", "8080", "docs", "index.html"));
}

#[test]
fn merge_config_puts_each_override_in_place() {
    let merged = merge_config(
        host("127.0.0.1", "8080", "docs", "index.html"),
        CliOverrides {
            verbose: true,
            ip: Some("0.0.0.0".to_string()),
            port: Some("80".to_string()),
            serve: Some("site/pages/home.html".to_string()),
        },
    );
    assert_eq!(
        merged,
        Config {
            host: host("0.0.0.0", "80", "site/pages", "home.html"),
            cli: AppConfig { verbose: true },
        }
    );
}

#[test]
fn merge_config_takes_each_override_alone() {
    let base = || host("127.0.0.1", "8080", "docs", "index.html");
    let none = || CliOverrides { verbose: false, ip: None, port: None, serve: None };
    let ip = merge_config(base(), CliOverrides { ip: Some("10.1.1.1".to_string()), ..none() });
    assert_eq!(ip.host, host("10.1.1.1", "8080", "docs", "index.html"));
    let port = merge_config(base(), CliOverrides { port: Some("9".to_string()), ..none() });
    assert_eq!(port.host, host("127.0.0.1", "9", "docs", "index.html"));
    let serve =
        merge_config(base(), CliOverrides { serve: Some("page.html".to_string()), ..none() });
    assert_eq!(serve.host, host("127.0.0.1", "8080", "", "page.html"));
    let verbose = merge_config(base(), CliOverrides { verbose: true, ..none() });
    assert_eq!(verbose.host, base());
    assert!(verbose.cli.verbose);
}

#[test]
fn merge_config_does_not_check_what_it_merges() {
    let merged = merge_config(
        host("127.0.0.1", "8080", "docs", "index.html"),
        CliOverrides {
            verbose: false,
            ip: Some("nowhere".to_string()),
            port: Some("0".to_string()),
            serve: None,
        },
    );
    assert_eq!(merged.host.ip, "nowhere");
    assert_eq!(validate_config(&merged, true), Err(ConfigError::InvalidIp));
}
