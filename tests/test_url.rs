use type_more::url::{Proto, Url};
use type_more::TypeMoreError;

fn parse_message(e: &TypeMoreError) -> String {
    match e {
        TypeMoreError::ParseError(m) => m.clone(),
        TypeMoreError::UnhandledError(m) => panic!("unexpected unhandled error: {}", m),
    }
}

#[test]
fn test_proto_display() {
    assert_eq!(Proto::Http.to_string(), "http");
    assert_eq!(Proto::Https.to_string(), "https");
    assert_eq!(Proto::Ftp.to_string(), "ftp");
    assert_eq!(Proto::Sftp.to_string(), "sftp");
    assert_eq!(Proto::Ftps.to_string(), "ftps");
    assert_eq!(Proto::Ssh.to_string(), "ssh");
    assert_eq!(Proto::Telnet.to_string(), "telnet");
    assert_eq!(Proto::File.to_string(), "file");
    assert_eq!(Proto::Ws.to_string(), "ws");
    assert_eq!(Proto::Wss.to_string(), "wss");
    assert_eq!(Proto::Gopher.to_string(), "gopher");
    assert_eq!(Proto::Ldap.to_string(), "ldap");
    assert_eq!(Proto::Rtsp.to_string(), "rtsp");
    assert_eq!(Proto::Smb.to_string(), "smb");
    assert_eq!(Proto::Nfs.to_string(), "nfs");
    assert_eq!(Proto::Imap.to_string(), "imap");
    assert_eq!(Proto::Pop3.to_string(), "pop3");
    assert_eq!(Proto::Nntp.to_string(), "nntp");
}

#[test]
fn test_proto_from_str() {
    assert_eq!(Proto::from_str("http").unwrap(), Proto::Http);
    assert_eq!(Proto::from_str("https").unwrap(), Proto::Https);
    assert_eq!(Proto::from_str("ftp").unwrap(), Proto::Ftp);
    assert_eq!(Proto::from_str("sftp").unwrap(), Proto::Sftp);
    assert_eq!(Proto::from_str("ftps").unwrap(), Proto::Ftps);
    assert_eq!(Proto::from_str("ssh").unwrap(), Proto::Ssh);
    assert_eq!(Proto::from_str("telnet").unwrap(), Proto::Telnet);
    assert_eq!(Proto::from_str("file").unwrap(), Proto::File);
    assert_eq!(Proto::from_str("ws").unwrap(), Proto::Ws);
    assert_eq!(Proto::from_str("wss").unwrap(), Proto::Wss);
    assert_eq!(Proto::from_str("gopher").unwrap(), Proto::Gopher);
    assert_eq!(Proto::from_str("ldap").unwrap(), Proto::Ldap);
    assert_eq!(Proto::from_str("rtsp").unwrap(), Proto::Rtsp);
    assert_eq!(Proto::from_str("smb").unwrap(), Proto::Smb);
    assert_eq!(Proto::from_str("nfs").unwrap(), Proto::Nfs);
    assert_eq!(Proto::from_str("imap").unwrap(), Proto::Imap);
    assert_eq!(Proto::from_str("pop3").unwrap(), Proto::Pop3);
    assert_eq!(Proto::from_str("nntp").unwrap(), Proto::Nntp);
    assert!(Proto::from_str("invalid").is_err());
}

#[test]
fn test_url_new() {
    let url = Url::new(Proto::Http, "example.com").unwrap();
    assert_eq!(url.to_string(), "http://example.com");

    let url = Url::new(Proto::Https, "example.com/path").unwrap();
    assert_eq!(url.to_string(), "https://example.com/path");

    let invalid_url = Url::new(Proto::Http, "invalid_domain");
    assert!(invalid_url.is_err());
}

#[test]
fn test_url_from_str() {
    let url = Url::from_str("http://example.com").unwrap();
    assert_eq!(url.to_string(), "http://example.com");

    let url = Url::from_str("https://example.com/path").unwrap();
    assert_eq!(url.to_string(), "https://example.com/path");

    let invalid_url = Url::from_str("invalid_url");
    assert!(invalid_url.is_err());
}

#[test]
fn test_url_serde() {
    let url = Url::from_str("ftp://example.com").unwrap();
    let serialized = serde_json::to_string(&url.to_string()).unwrap();
    assert_eq!(serialized, "\"ftp://example.com\"");

    let text: String = serde_json::from_str(&serialized).unwrap();
    let deserialized = Url::from_str(&text).unwrap();
    assert_eq!(deserialized.to_string(), "ftp://example.com");
    println!("{deserialized:?}")
}

#[test]
fn proto_names_are_case_sensitive() {
    for s in ["HTTP", "Http", "", "http ", "htt", "httpss"] {
        let err = Proto::from_str(s).unwrap_err();
        assert_eq!(parse_message(&err), "invalid protocol");
    }
}

#[test]
fn url_parts_are_kept() {
    let url = Url::from_str("https://example.com/path").unwrap();
    assert_eq!(url.protocol(), Proto::Https);
    assert_eq!(url.domain(), "example.com/path");
    let same = Url::new(Proto::Https, "example.com/path").unwrap();
    assert!(url == same);
    assert!(url.clone() == same);
    assert!(url != Url::new(Proto::Http, "example.com/path").unwrap());
}

#[test]
fn url_failures_name_the_part_that_failed() {
    assert_eq!(parse_message(&Url::from_str("invalid_url").unwrap_err()), "invalid url");
    assert_eq!(parse_message(&Url::from_str("").unwrap_err()), "invalid url");
    assert_eq!(
        parse_message(&Url::from_str("http://a.com://b.com").unwrap_err()),
        "invalid url"
    );
    assert_eq!(
        parse_message(&Url::from_str("http://example.com/x://y").unwrap_err()),
        "invalid url"
    );
    assert_eq!(
        parse_message(&Url::from_str("HTTP://example.com").unwrap_err()),
        "invalid protocol"
    );
    assert_eq!(
        parse_message(&Url::from_str("http://invalid_domain").unwrap_err()),
        "invalid domain"
    );
    assert_eq!(
        parse_message(&Url::new(Proto::Http, "example").unwrap_err()),
        "invalid domain"
    );
}

#[test]
fn every_protocol_name_reads_back() {
    let all = [
        Proto::Http, Proto::Https, Proto::Ftp, Proto::Sftp, Proto::Ftps, Proto::Ssh,
        Proto::Telnet, Proto::File, Proto::Ws, Proto::Wss, Proto::Gopher, Proto::Ldap,
        Proto::Rtsp, Proto::Smb, Proto::Nfs, Proto::Imap, Proto::Pop3, Proto::Nntp,
    ];
    for p in all {
        assert_eq!(Proto::from_str(&p.to_string()).unwrap(), p);
        let url = Url::new(p, "sub.example.org/a/b").unwrap();
        let back = Url::from_str(&url.to_string()).unwrap();
        assert!(back == url);
    }
}

#[test]
fn domain_label_limits() {
    let ok63 = format!("{}.com", "a".repeat(63));
    let bad64 = format!("{}.com", "a".repeat(64));
    assert!(Url::new(Proto::Http, &ok63).is_ok());
    assert!(Url::new(Proto::Http, &bad64).is_err());
    assert!(Url::new(Proto::Http, "a-b.example.com").is_ok());
    assert!(Url::new(Proto::Http, "-ab.com").is_err());
    assert!(Url::new(Proto::Http, "ab-.com").is_err());
    assert!(Url::new(Proto::Http, "a..com").is_err());
    assert!(Url::new(Proto::Http, "example.c").is_err());
    assert!(Url::new(Proto::Http, "example.c0m").is_err());
    assert!(Url::new(Proto::Http, "example.com/").is_ok());
    assert!(Url::new(Proto::Http, "example.com//a~b!$&'()*+,;=:@%-._").is_ok());
    assert!(Url::new(Proto::Http, "example.com/a b").is_err());
    assert!(Url::new(Proto::Http, "example.com?q=1").is_err());
}

#[test]
fn domain_holding_separator_is_accepted_but_does_not_read_back() {
    let url = Url::new(Proto::Http, "example.com/a://b").unwrap();
    assert_eq!(url.to_string(), "http://example.com/a://b");
    assert!(Url::from_str(&url.to_string()).is_err());
}
