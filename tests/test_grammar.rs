use regex::Regex;
use type_more::url::Proto;
use type_more::{Email, Url};

const EMAIL_PATTERN: &str = r"^[a-zA-Z0-9._%+-]+@[a-zA-Z0-9.-]+\.[a-zA-Z]{2,}$";
const DOMAIN_PATTERN: &str = r"^(?:[a-zA-Z0-9](?:[a-zA-Z0-9-]{0,61}[a-zA-Z0-9])?\.)+[a-zA-Z]{2,}(?:/[a-zA-Z0-9._~!$&'()*+,;=:@%-]*)*$";

fn samples() -> Vec<String> {
    let pieces = [
        "a", "Z", "9", ".", "-", "_", "%", "+", "@", "/", ":", "é", "co", "com", " ", "ab-c",
        "x.y", "..", "@@", "//", "~", "(", "'", "a1",
    ];
    let mut out = vec![String::new()];
    for p in pieces {
        out.push(p.to_string());
    }
    for a in pieces {
        for b in pieces {
            for c in ["", "@", ".", "/", ".co", "@b.co", "a.", "-"] {
                out.push(format!("{a}{c}{b}"));
                out.push(format!("{a}{b}{c}"));
                out.push(format!("{c}{a}.{b}"));
            }
        }
    }
    out.push(format!("{}.com", "a".repeat(63)));
    out.push(format!("{}.com", "a".repeat(64)));
    out.push(format!("x.{}-{}.org/p", "b".repeat(30), "c".repeat(31)));
    out.push(format!("x.{}-{}.org/p", "b".repeat(31), "c".repeat(31)));
    out
}

#[test]
fn email_check_agrees_with_pattern() {
    let re = Regex::new(EMAIL_PATTERN).unwrap();
    for s in samples() {
        assert_eq!(Email::from_str(&s).is_ok(), re.is_match(&s), "input {:?}", s);
    }
}

#[test]
fn domain_check_agrees_with_pattern() {
    let re = Regex::new(DOMAIN_PATTERN).unwrap();
    for s in samples() {
        assert_eq!(Url::new(Proto::Ftp, &s).is_ok(), re.is_match(&s), "input {:?}", s);
    }
}
