//! URLs made of a protocol and a validated domain.
use vstd::prelude::*;

use crate::error::{is_parse_error, TypeMoreError};
use crate::text::{alnum, chars_of, is_alnum, is_letter, letter, same_text};

verus! {

/// A character allowed inside a host label.
pub open spec fn is_label_char(c: char) -> bool {
    is_alnum(c) || c == '-'
}

/// A host label: 1 to 63 letters, digits and hyphens, starting and ending
/// with a letter or digit.
pub open spec fn is_label(l: Seq<char>) -> bool {
    &&& 1 <= l.len() <= 63
    &&& is_alnum(l[0]) && is_alnum(l[l.len() - 1])
    &&& forall|i: int| 0 <= i < l.len() ==> is_label_char(#[trigger] l[i])
}

/// One or more labels, each followed by a dot.
pub open spec fn is_dotted_labels(p: Seq<char>) -> bool
    decreases p.len(),
{
    exists|k: int|
        0 < k < p.len() && #[trigger] p[k] == '.' && is_label(p.subrange(0, k)) && (k + 1
            == p.len() || is_dotted_labels(p.subrange(k + 1, p.len() as int)))
}

/// A top-level label: two or more ASCII letters.
pub open spec fn is_top_label(t: Seq<char>) -> bool {
    t.len() >= 2 && forall|i: int| 0 <= i < t.len() ==> is_letter(#[trigger] t[i])
}

/// A character allowed in the path after the host.
pub open spec fn is_path_char(c: char) -> bool {
    is_alnum(c) || c == '.' || c == '_' || c == '~' || c == '!' || c == '$' || c == '&' || c
        == '\'' || c == '(' || c == ')' || c == '*' || c == '+' || c == ',' || c == ';' || c
        == '=' || c == ':' || c == '@' || c == '%' || c == '-'
}

/// Empty, or a slash followed by slashes and path characters.
pub open spec fn is_path(p: Seq<char>) -> bool {
    &&& p.len() > 0 ==> p[0] == '/'
    &&& forall|i: int| 0 <= i < p.len() ==> #[trigger] p[i] == '/' || is_path_char(p[i])
}

/// `s` is a host name (dotted labels and a top-level label) followed by a
/// path; the top-level label spans `h` to `t`.
pub open spec fn domain_split(s: Seq<char>, h: int, t: int) -> bool {
    &&& 0 < h < t <= s.len()
    &&& is_dotted_labels(s.subrange(0, h))
    &&& is_top_label(s.subrange(h, t))
    &&& is_path(s.subrange(t, s.len() as int))
}

/// `s` is a domain: a host name, optionally followed by a path.
pub open spec fn is_domain(s: Seq<char>) -> bool {
    exists|h: int, t: int| domain_split(s, h, t)
}

/// Dotted labels end with a dot and hold no slash.
proof fn lemma_dotted_labels_shape(p: Seq<char>)
    requires
        is_dotted_labels(p),
    ensures
        p.len() > 0,
        p[p.len() - 1] == '.',
        forall|i: int| 0 <= i < p.len() ==> #[trigger] p[i] != '/',
    decreases p.len(),
{
    let k = choose|k: int|
        0 < k < p.len() && #[trigger] p[k] == '.' && is_label(p.subrange(0, k)) && (k + 1
            == p.len() || is_dotted_labels(p.subrange(k + 1, p.len() as int)));
    let l = p.subrange(0, k);
    assert forall|i: int| 0 <= i < k implies #[trigger] p[i] != '/' by {
        assert(is_label_char(l[i]));
    }
    if k + 1 < p.len() {
        let q = p.subrange(k + 1, p.len() as int);
        lemma_dotted_labels_shape(q);
        assert(p[p.len() - 1] == q[q.len() - 1]);
        assert forall|i: int| k < i < p.len() implies #[trigger] p[i] != '/' by {
            assert(p[i] == q[i - k - 1]);
        }
    }
}

fn label_char(c: char) -> (r: bool)
    ensures
        r == is_label_char(c),
{
    alnum(c) || c == '-'
}

fn path_char(c: char) -> (r: bool)
    ensures
        r == is_path_char(c),
{
    alnum(c) || c == '.' || c == '_' || c == '~' || c == '!' || c == '$' || c == '&' || c == '\''
        || c == '(' || c == ')' || c == '*' || c == '+' || c == ',' || c == ';' || c == '=' || c
        == ':' || c == '@' || c == '%' || c == '-'
}

/// Whether `v[lo..hi]` is one or more labels, each followed by a dot.
fn dotted_labels(v: &Vec<char>, lo: usize, hi: usize) -> (r: bool)
    requires
        lo <= hi <= v.len(),
    ensures
        r == is_dotted_labels(v@.subrange(lo as int, hi as int)),
    decreases hi - lo,
{
    let ghost p = v@.subrange(lo as int, hi as int);
    let mut k: usize = lo;
    while k < hi && label_char(v[k])
        invariant
            lo <= k <= hi <= v.len(),
            forall|i: int| lo <= i < k ==> is_label_char(#[trigger] v@[i]),
        decreases hi - k,
    {
        k = k + 1;
    }
    let ghost l = v@.subrange(lo as int, k as int);
    let shape = k < hi && v[k] == '.' && k > lo && k - lo <= 63 && alnum(v[lo]) && alnum(v[k - 1]);
    proof {
        if is_dotted_labels(p) {
            let k2 = choose|k2: int|
                0 < k2 < p.len() && #[trigger] p[k2] == '.' && is_label(p.subrange(0, k2)) && (k2
                    + 1 == p.len() || is_dotted_labels(p.subrange(k2 + 1, p.len() as int)));
            let l2 = p.subrange(0, k2);
            if k - lo < k2 {
                assert(is_label_char(l2[k - lo]));
                assert(l2[k - lo] == v@[k as int]);
            } else if k - lo > k2 {
                assert(is_label_char(v@[lo + k2]));
            }
            assert(l2 =~= l);
        }
        if shape {
            assert forall|i: int| 0 <= i < l.len() implies is_label_char(#[trigger] l[i]) by {
                assert(l[i] == v@[lo + i]);
            }
            assert(is_label(l));
            assert(p.subrange(0, k - lo) =~= l);
            assert(p[k - lo] == '.');
        }
    }
    if !shape {
        false
    } else if k + 1 == hi {
        true
    } else {
        let r = dotted_labels(v, k + 1, hi);
        proof {
            assert(p.subrange(k - lo + 1, p.len() as int) =~= v@.subrange(k + 1, hi as int));
        }
        r
    }
}

/// Whether the characters `v` form a domain.
pub fn domain_chars(v: &Vec<char>) -> (r: bool)
    ensures
        r == is_domain(v@),
{
    let n = v.len();
    let ghost s = v@;
    // the host ends at the first slash
    let mut t: usize = 0;
    while t < n && v[t] != '/'
        invariant
            t <= n == s.len(),
            s == v@,
            forall|i: int| 0 <= i < t ==> #[trigger] s[i] != '/',
        decreases n - t,
    {
        t = t + 1;
    }
    let mut j: usize = t;
    while j < n && (v[j] == '/' || path_char(v[j]))
        invariant
            t <= j <= n == s.len(),
            s == v@,
            forall|i: int| t <= i < j ==> #[trigger] s[i] == '/' || is_path_char(s[i]),
        decreases n - j,
    {
        j = j + 1;
    }
    // the top-level label is the run of letters before the host's end
    let mut h: usize = t;
    while h > 0 && letter(v[h - 1])
        invariant
            h <= t <= n == s.len(),
            s == v@,
            forall|i: int| h <= i < t ==> is_letter(#[trigger] s[i]),
        decreases h,
    {
        h = h - 1;
    }
    let ok = j == n && h > 0 && t - h >= 2 && dotted_labels(v, 0, h);
    proof {
        if ok {
            let path = s.subrange(t as int, n as int);
            assert forall|i: int| 0 <= i < path.len() implies #[trigger] path[i] == '/'
                || is_path_char(path[i]) by {
                assert(path[i] == s[t + i]);
            }
            if t < n {
                assert(path[0] == s[t as int]);
            }
            let top = s.subrange(h as int, t as int);
            assert forall|i: int| 0 <= i < top.len() implies is_letter(#[trigger] top[i]) by {
                assert(top[i] == s[h + i]);
            }
            assert(domain_split(s, h as int, t as int));
        }
        if is_domain(s) {
            let (h2, t2) = choose|h2: int, t2: int| domain_split(s, h2, t2);
            let labels = s.subrange(0, h2);
            let top = s.subrange(h2, t2);
            let path = s.subrange(t2, n as int);
            lemma_dotted_labels_shape(labels);
            if t < t2 {
                if (t as int) < h2 {
                    assert(labels[t as int] != '/');
                } else {
                    assert(is_letter(top[t - h2]));
                }
            } else if t > t2 {
                assert(path[0] == s[t2]);
            }
            assert(t == t2);
            if j < n {
                assert(path[j - t] == s[j as int]);
            }
            if (h as int) < h2 {
                assert(s[h2 - 1] == labels[h2 - 1]);
            } else if h > h2 {
                assert(is_letter(top[h - 1 - h2]));
            }
            assert(h == h2);
        }
    }
    ok
}

/// The protocols a URL may name.
#[derive(Debug, Clone, Copy, PartialEq, Eq, Structural)]
pub enum Proto {
    Http,
    Https,
    Ftp,
    Sftp,
    Ftps,
    Ssh,
    Telnet,
    File,
    Ws,
    Wss,
    Gopher,
    Ldap,
    Rtsp,
    Smb,
    Nfs,
    Imap,
    Pop3,
    Nntp,
}

/// The lowercase name of a protocol.
pub open spec fn proto_name(p: Proto) -> Seq<char> {
    match p {
        Proto::Http => "http"@,
        Proto::Https => "https"@,
        Proto::Ftp => "ftp"@,
        Proto::Sftp => "sftp"@,
        Proto::Ftps => "ftps"@,
        Proto::Ssh => "ssh"@,
        Proto::Telnet => "telnet"@,
        Proto::File => "file"@,
        Proto::Ws => "ws"@,
        Proto::Wss => "wss"@,
        Proto::Gopher => "gopher"@,
        Proto::Ldap => "ldap"@,
        Proto::Rtsp => "rtsp"@,
        Proto::Smb => "smb"@,
        Proto::Nfs => "nfs"@,
        Proto::Imap => "imap"@,
        Proto::Pop3 => "pop3"@,
        Proto::Nntp => "nntp"@,
    }
}

/// The protocol whose name is `s`, if there is one.
pub open spec fn proto_of(s: Seq<char>) -> Option<Proto> {
    if s == "http"@ {
        Some(Proto::Http)
    } else if s == "https"@ {
        Some(Proto::Https)
    } else if s == "ftp"@ {
        Some(Proto::Ftp)
    } else if s == "sftp"@ {
        Some(Proto::Sftp)
    } else if s == "ftps"@ {
        Some(Proto::Ftps)
    } else if s == "ssh"@ {
        Some(Proto::Ssh)
    } else if s == "telnet"@ {
        Some(Proto::Telnet)
    } else if s == "file"@ {
        Some(Proto::File)
    } else if s == "ws"@ {
        Some(Proto::Ws)
    } else if s == "wss"@ {
        Some(Proto::Wss)
    } else if s == "gopher"@ {
        Some(Proto::Gopher)
    } else if s == "ldap"@ {
        Some(Proto::Ldap)
    } else if s == "rtsp"@ {
        Some(Proto::Rtsp)
    } else if s == "smb"@ {
        Some(Proto::Smb)
    } else if s == "nfs"@ {
        Some(Proto::Nfs)
    } else if s == "imap"@ {
        Some(Proto::Imap)
    } else if s == "pop3"@ {
        Some(Proto::Pop3)
    } else if s == "nntp"@ {
        Some(Proto::Nntp)
    } else {
        None
    }
}

impl Proto {
    /// The lowercase name of this protocol.
    pub fn to_string(&self) -> (r: String)
        ensures
            r@ == proto_name(*self),
    {
        let name: &str = match self {
            Proto::Http => "http",
            Proto::Https => "https",
            Proto::Ftp => "ftp",
            Proto::Sftp => "sftp",
            Proto::Ftps => "ftps",
            Proto::Ssh => "ssh",
            Proto::Telnet => "telnet",
            Proto::File => "file",
            Proto::Ws => "ws",
            Proto::Wss => "wss",
            Proto::Gopher => "gopher",
            Proto::Ldap => "ldap",
            Proto::Rtsp => "rtsp",
            Proto::Smb => "smb",
            Proto::Nfs => "nfs",
            Proto::Imap => "imap",
            Proto::Pop3 => "pop3",
            Proto::Nntp => "nntp",
        };
        name.to_owned()
    }

    /// The protocol named by `s`; the names are matched exactly, case included.
    pub fn from_str(s: &str) -> (r: Result<Proto, TypeMoreError>)
        ensures
            match proto_of(s@) {
                Some(p) => r == Ok::<Proto, TypeMoreError>(p),
                None => r is Err && is_parse_error(r->Err_0, "invalid protocol"@),
            },
    {
        if same_text(s, "http") {
            Ok(Proto::Http)
        } else if same_text(s, "https") {
            Ok(Proto::Https)
        } else if same_text(s, "ftp") {
            Ok(Proto::Ftp)
        } else if same_text(s, "sftp") {
            Ok(Proto::Sftp)
        } else if same_text(s, "ftps") {
            Ok(Proto::Ftps)
        } else if same_text(s, "ssh") {
            Ok(Proto::Ssh)
        } else if same_text(s, "telnet") {
            Ok(Proto::Telnet)
        } else if same_text(s, "file") {
            Ok(Proto::File)
        } else if same_text(s, "ws") {
            Ok(Proto::Ws)
        } else if same_text(s, "wss") {
            Ok(Proto::Wss)
        } else if same_text(s, "gopher") {
            Ok(Proto::Gopher)
        } else if same_text(s, "ldap") {
            Ok(Proto::Ldap)
        } else if same_text(s, "rtsp") {
            Ok(Proto::Rtsp)
        } else if same_text(s, "smb") {
            Ok(Proto::Smb)
        } else if same_text(s, "nfs") {
            Ok(Proto::Nfs)
        } else if same_text(s, "imap") {
            Ok(Proto::Imap)
        } else if same_text(s, "pop3") {
            Ok(Proto::Pop3)
        } else if same_text(s, "nntp") {
            Ok(Proto::Nntp)
        } else {
            Err(TypeMoreError::parse_error("invalid protocol"))
        }
    }
}

/// Reading the name of a protocol gives back that protocol.
pub proof fn lemma_proto_round_trip(p: Proto)
    ensures
        proto_of(proto_name(p)) == Some(p),
{
    reveal_strlit("http");
    reveal_strlit("https");
    reveal_strlit("ftp");
    reveal_strlit("sftp");
    reveal_strlit("ftps");
    reveal_strlit("ssh");
    reveal_strlit("telnet");
    reveal_strlit("file");
    reveal_strlit("ws");
    reveal_strlit("wss");
    reveal_strlit("gopher");
    reveal_strlit("ldap");
    reveal_strlit("rtsp");
    reveal_strlit("smb");
    reveal_strlit("nfs");
    reveal_strlit("imap");
    reveal_strlit("pop3");
    reveal_strlit("nntp");
    let s = proto_name(p);
    assert(s == "http"@ ==> p == Proto::Http) by {
        if s == "http"@ {
            assert(s.len() == 4 && s[0] == 'h' && s[3] == 'p' && s[1] == 't');
        }
    }
    assert(s == "https"@ ==> p == Proto::Https) by {
        if s == "https"@ {
            assert(s.len() == 5 && s[0] == 'h' && s[4] == 's' && s[1] == 't');
        }
    }
    assert(s == "ftp"@ ==> p == Proto::Ftp) by {
        if s == "ftp"@ {
            assert(s.len() == 3 && s[0] == 'f' && s[2] == 'p' && s[1] == 't');
        }
    }
    assert(s == "sftp"@ ==> p == Proto::Sftp) by {
        if s == "sftp"@ {
            assert(s.len() == 4 && s[0] == 's' && s[3] == 'p' && s[1] == 'f');
        }
    }
    assert(s == "ftps"@ ==> p == Proto::Ftps) by {
        if s == "ftps"@ {
            assert(s.len() == 4 && s[0] == 'f' && s[3] == 's' && s[1] == 't');
        }
    }
    assert(s == "ssh"@ ==> p == Proto::Ssh) by {
        if s == "ssh"@ {
            assert(s.len() == 3 && s[0] == 's' && s[2] == 'h' && s[1] == 's');
        }
    }
    assert(s == "telnet"@ ==> p == Proto::Telnet) by {
        if s == "telnet"@ {
            assert(s.len() == 6 && s[0] == 't' && s[5] == 't' && s[1] == 'e');
        }
    }
    assert(s == "file"@ ==> p == Proto::File) by {
        if s == "file"@ {
            assert(s.len() == 4 && s[0] == 'f' && s[3] == 'e' && s[1] == 'i');
        }
    }
    assert(s == "ws"@ ==> p == Proto::Ws) by {
        if s == "ws"@ {
            assert(s.len() == 2 && s[0] == 'w' && s[1] == 's' && s[1] == 's');
        }
    }
    assert(s == "wss"@ ==> p == Proto::Wss) by {
        if s == "wss"@ {
            assert(s.len() == 3 && s[0] == 'w' && s[2] == 's' && s[1] == 's');
        }
    }
    assert(s == "gopher"@ ==> p == Proto::Gopher) by {
        if s == "gopher"@ {
            assert(s.len() == 6 && s[0] == 'g' && s[5] == 'r' && s[1] == 'o');
        }
    }
    assert(s == "ldap"@ ==> p == Proto::Ldap) by {
        if s == "ldap"@ {
            assert(s.len() == 4 && s[0] == 'l' && s[3] == 'p' && s[1] == 'd');
        }
    }
    assert(s == "rtsp"@ ==> p == Proto::Rtsp) by {
        if s == "rtsp"@ {
            assert(s.len() == 4 && s[0] == 'r' && s[3] == 'p' && s[1] == 't');
        }
    }
    assert(s == "smb"@ ==> p == Proto::Smb) by {
        if s == "smb"@ {
            assert(s.len() == 3 && s[0] == 's' && s[2] == 'b' && s[1] == 'm');
        }
    }
    assert(s == "nfs"@ ==> p == Proto::Nfs) by {
        if s == "nfs"@ {
            assert(s.len() == 3 && s[0] == 'n' && s[2] == 's' && s[1] == 'f');
        }
    }
    assert(s == "imap"@ ==> p == Proto::Imap) by {
        if s == "imap"@ {
            assert(s.len() == 4 && s[0] == 'i' && s[3] == 'p' && s[1] == 'm');
        }
    }
    assert(s == "pop3"@ ==> p == Proto::Pop3) by {
        if s == "pop3"@ {
            assert(s.len() == 4 && s[0] == 'p' && s[3] == '3' && s[1] == 'o');
        }
    }
    assert(s == "nntp"@ ==> p == Proto::Nntp) by {
        if s == "nntp"@ {
            assert(s.len() == 4 && s[0] == 'n' && s[3] == 'p' && s[1] == 'n');
        }
    }
}

/// A text that names a protocol is that protocol's name.
pub proof fn lemma_proto_text_round_trip(s: Seq<char>)
    requires
        proto_of(s) is Some,
    ensures
        proto_name(proto_of(s)->Some_0) == s,
{
}

/// The letters and digits of every protocol name.
proof fn lemma_proto_name_alnum(p: Proto)
    ensures
        forall|i: int| 0 <= i < proto_name(p).len() ==> is_alnum(#[trigger] proto_name(p)[i]),
{
    reveal_strlit("http");
    reveal_strlit("https");
    reveal_strlit("ftp");
    reveal_strlit("sftp");
    reveal_strlit("ftps");
    reveal_strlit("ssh");
    reveal_strlit("telnet");
    reveal_strlit("file");
    reveal_strlit("ws");
    reveal_strlit("wss");
    reveal_strlit("gopher");
    reveal_strlit("ldap");
    reveal_strlit("rtsp");
    reveal_strlit("smb");
    reveal_strlit("nfs");
    reveal_strlit("imap");
    reveal_strlit("pop3");
    reveal_strlit("nntp");
}

/// `"://"` starts at index `i` of `s`.
pub open spec fn is_separator_at(s: Seq<char>, i: int) -> bool {
    0 <= i && i + 3 <= s.len() && s[i] == ':' && s[i + 1] == '/' && s[i + 2] == '/'
}

/// `"://"` occurs in `s` at index `i` and nowhere else.
pub open spec fn is_only_separator(s: Seq<char>, i: int) -> bool {
    is_separator_at(s, i) && forall|j: int| #[trigger] is_separator_at(s, j) ==> j == i
}

/// The canonical text of a URL: `protocol://domain`.
pub open spec fn url_text(p: Proto, d: Seq<char>) -> Seq<char> {
    proto_name(p) + "://"@ + d
}

/// What reading `s` as `protocol://domain` gives: the protocol and the domain,
/// or the message of the failure.
pub open spec fn url_of(s: Seq<char>) -> Result<(Proto, Seq<char>), Seq<char>> {
    if exists|i: int| is_only_separator(s, i) {
        let i = choose|i: int| is_only_separator(s, i);
        match proto_of(s.subrange(0, i)) {
            None => Err("invalid protocol"@),
            Some(p) => {
                let d = s.subrange(i + 3, s.len() as int);
                if is_domain(d) {
                    Ok((p, d))
                } else {
                    Err("invalid domain"@)
                }
            },
        }
    } else {
        Err("invalid url"@)
    }
}

/// A URL: a protocol and a domain, optionally with a path.
#[derive(Debug)]
pub struct Url {
    protocol: Proto,
    domain: String,
}

impl View for Url {
    type V = (Proto, Seq<char>);

    closed spec fn view(&self) -> (Proto, Seq<char>) {
        (self.protocol, self.domain@)
    }
}

impl Clone for Url {
    fn clone(&self) -> (r: Url)
        ensures
            r@ == self@,
    {
        proof {
            use_type_invariant(self);
        }
        Url { protocol: self.protocol, domain: self.domain.clone() }
    }
}

impl PartialEq for Url {
    fn eq(&self, other: &Url) -> (r: bool) {
        self.protocol == other.protocol && self.domain == other.domain
    }
}

impl vstd::std_specs::cmp::PartialEqSpecImpl for Url {
    open spec fn obeys_eq_spec() -> bool {
        true
    }

    open spec fn eq_spec(&self, other: &Url) -> bool {
        self@ == other@
    }
}

impl Url {
    #[verifier::type_invariant]
    spec fn well_formed(&self) -> bool {
        is_domain(self.domain@)
    }

    /// The URL with the given protocol and domain, if the domain is valid.
    pub fn new(protocol: Proto, domain: &str) -> (r: Result<Url, TypeMoreError>)
        ensures
            is_domain(domain@) ==> r is Ok && r->Ok_0@ == (protocol, domain@),
            !is_domain(domain@) ==> r is Err && is_parse_error(r->Err_0, "invalid domain"@),
    {
        let v = chars_of(domain);
        if domain_chars(&v) {
            Ok(Url { protocol, domain: domain.to_owned() })
        } else {
            Err(TypeMoreError::parse_error("invalid domain"))
        }
    }

    /// The URL written `protocol://domain` in `s`.
    pub fn from_str(s: &str) -> (r: Result<Url, TypeMoreError>)
        ensures
            match url_of(s@) {
                Ok(u) => r is Ok && r->Ok_0@ == u,
                Err(msg) => r is Err && is_parse_error(r->Err_0, msg),
            },
            (forall|i: int| !is_separator_at(s@, i)) ==> r is Err,
            (exists|i: int, j: int| i != j && is_separator_at(s@, i) && is_separator_at(s@, j))
                ==> r is Err,
    {
        let v = chars_of(s);
        let n = v.len();
        let mut found = false;
        let mut at: usize = 0;
        let mut k: usize = 0;
        while k < n && n - k >= 3
            invariant
                v@ == s@,
                n == v.len(),
                k <= n,
                !found ==> forall|j: int| 0 <= j < k ==> !is_separator_at(s@, j),
                found ==> at < k && is_separator_at(s@, at as int),
                found ==> forall|j: int| 0 <= j < k && is_separator_at(s@, j) ==> j == at,
            decreases n - k,
        {
            if v[k] == ':' && v[k + 1] == '/' && v[k + 2] == '/' {
                if found {
                    proof {
                        assert(is_separator_at(s@, k as int));
                        assert(!(exists|i: int| is_only_separator(s@, i)));
                    }
                    return Err(TypeMoreError::parse_error("invalid url"));
                }
                found = true;
                at = k;
            }
            k = k + 1;
        }
        if !found {
            return Err(TypeMoreError::parse_error("invalid url"));
        }
        proof {
            assert(is_only_separator(s@, at as int));
        }
        let head = s.substring_char(0, at);
        let tail = s.substring_char(at + 3, n);
        match Proto::from_str(head) {
            Err(e) => Err(e),
            Ok(p) => Url::new(p, tail),
        }
    }

    /// The canonical text `protocol://domain`.
    pub fn to_string(&self) -> (r: String)
        ensures
            r@ == url_text(self@.0, self@.1),
    {
        proof {
            use_type_invariant(self);
        }
        self.protocol.to_string().concat("://").concat(self.domain.as_str())
    }

    /// The protocol of this URL.
    pub fn protocol(&self) -> (r: Proto)
        ensures
            r == self@.0,
    {
        self.protocol
    }

    /// The domain of this URL, with its path.
    pub fn domain(&self) -> (r: &str)
        ensures
            r@ == self@.1,
            is_domain(r@),
    {
        proof {
            use_type_invariant(self);
        }
        self.domain.as_str()
    }
}

/// Reading the canonical text of a URL gives back its protocol and domain,
/// provided the domain holds no `"://"` of its own.
pub proof fn lemma_url_round_trip(p: Proto, d: Seq<char>)
    requires
        is_domain(d),
        forall|j: int| !is_separator_at(d, j),
    ensures
        url_of(url_text(p, d)) == Ok::<(Proto, Seq<char>), Seq<char>>((p, d)),
{
    let name = proto_name(p);
    let s = url_text(p, d);
    let l = name.len() as int;
    reveal_strlit("://");
    lemma_proto_name_alnum(p);
    lemma_proto_round_trip(p);
    assert(is_separator_at(s, l));
    assert forall|j: int| #[trigger] is_separator_at(s, j) implies j == l by {
        if j < l {
            assert(is_alnum(name[j]));
        } else if l < j < l + 3 {
        } else if j >= l + 3 {
            assert(is_separator_at(d, j - l - 3));
        }
    }
    assert(is_only_separator(s, l));
    assert(s.subrange(0, l) =~= name);
    assert(s.subrange(l + 3, s.len() as int) =~= d);
}

/// A text that reads as a URL is that URL's canonical text: the protocol
/// and the domain, path included, are kept verbatim.
pub proof fn lemma_url_text_of_parsed(s: Seq<char>)
    requires
        url_of(s) is Ok,
    ensures
        url_text(url_of(s)->Ok_0.0, url_of(s)->Ok_0.1) == s,
{
    let i = choose|i: int| is_only_separator(s, i);
    lemma_proto_text_round_trip(s.subrange(0, i));
    reveal_strlit("://");
    assert(url_text(url_of(s)->Ok_0.0, url_of(s)->Ok_0.1) =~= s);
}

} // verus!
