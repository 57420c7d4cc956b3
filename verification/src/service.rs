//! Lightweight service / version detection.
//!
//! For each open TCP port the caller:
//!   1. Connects.
//!   2. Reads up to 1KB for a passive banner (with timeout).
//!   3. If nothing came, sends the probe `probe_for_port` names (an HTTP
//!      request, an SMTP/POP3/IMAP/FTP greeting, a short TLS hello for 443)
//!      and reads again.
//!   4. Hands the banner to `describe_service`, which matches it against a
//!      small built-in regex table to extract `name`, `product`, `version`.
//!
//! This does not reproduce nmap-service-probes (12k entries). It identifies
//! the most common services people care about: SSH, HTTP, HTTPS, FTP, SMTP,
//! POP3, IMAP, MySQL, PostgreSQL, Redis, MongoDB, RDP, VNC.
use crate::result::ServiceInfo;
use crate::text::{
    chars_of, contains_chars, contains_seq, find_first, find_ws, find_ws_chars, first_word,
    first_word_chars, push_all, slice_of, split_once,
    split_once_chars, starts_with, starts_with_chars, string_of, trim, trimmed,
};
use vstd::prelude::*;

verus! {

#[verifier::external_type_specification]
#[verifier::external_body]
pub struct ExRegex(regex::Regex);

/// A compiled regular expression together with its source text.
pub struct BannerPattern {
    re: regex::Regex,
    source: String,
}

impl View for BannerPattern {
    type V = Seq<char>;

    /// The pattern's source text.
    closed spec fn view(&self) -> Seq<char> {
        self.source@
    }
}

/// The groups of the leftmost match of `pattern` in `text` (group 0 is the
/// whole match; a group that did not take part is `None`), or `None` when
/// the pattern does not match. This is what `regex::Regex::captures` returns.
pub uninterp spec fn regex_captures_of(pattern: Seq<char>, text: Seq<char>) -> Option<
    Seq<Option<Seq<char>>>,
>;

pub open spec fn opt_text(o: Option<String>) -> Option<Seq<char>> {
    match o {
        Some(s) => Some(s@),
        None => None,
    }
}

pub open spec fn groups_text(v: Vec<Option<String>>) -> Seq<Option<Seq<char>>> {
    v@.map_values(|o: Option<String>| opt_text(o))
}

/// Whether `regex::Regex::new` accepts `pattern` (with its default size
/// limits).
pub uninterp spec fn regex_compiles_of(pattern: Seq<char>) -> bool;

/// `regex::Regex::new`: `None` exactly when the pattern does not compile.
#[verifier::external_body]
fn compile_pattern(pattern: &str) -> (r: Option<BannerPattern>)
    ensures
        r is Some <==> regex_compiles_of(pattern@),
        r matches Some(p) ==> p@ == pattern@,
{
    match regex::Regex::new(pattern) {
        Ok(re) => Some(BannerPattern { re, source: pattern.to_string() }),
        Err(_) => None,
    }
}

/// `regex::Regex::captures`, each group by its text.
#[verifier::external_body]
fn pattern_captures(p: &BannerPattern, text: &str) -> (r: Option<Vec<Option<String>>>)
    ensures
        match r {
            Some(v) => regex_captures_of(p@, text@) == Some(groups_text(v)),
            None => regex_captures_of(p@, text@) is None,
        },
{
    p.re.captures(text).map(|c| c.iter().map(|m| m.map(|m| m.as_str().to_string())).collect())
}

pub open spec fn ssh_re() -> Seq<char> {
    r"^SSH-(\d+\.\d+)-([^\s\r\n]+)"@
}

pub open spec fn http_server_re() -> Seq<char> {
    r"(?im)^Server:\s*([^\r\n]+)"@
}

pub open spec fn ftp_re() -> Seq<char> {
    r"^220[ \-](.+)"@
}

pub open spec fn smtp_re() -> Seq<char> {
    r"^220[ \-]([^\r\n]+)"@
}

pub open spec fn mysql_re() -> Seq<char> {
    r"^.\x00\x00\x00.([0-9][^\x00]+)"@
}

pub open spec fn redis_re() -> Seq<char> {
    r"redis_version:([0-9.]+)"@
}

pub open spec fn postgres_re() -> Seq<char> {
    r"^FATAL"@
}

pub open spec fn vnc_re() -> Seq<char> {
    r"^RFB (\d{3})\.(\d{3})"@
}

pub open spec fn imap_re() -> Seq<char> {
    r"^\* OK[^\r\n]*"@
}

pub open spec fn pop3_re() -> Seq<char> {
    r"^\+OK[^\r\n]*"@
}

/// Every built-in banner pattern compiles.
pub open spec fn all_patterns_compile() -> bool {
    &&& regex_compiles_of(ssh_re())
    &&& regex_compiles_of(http_server_re())
    &&& regex_compiles_of(ftp_re())
    &&& regex_compiles_of(smtp_re())
    &&& regex_compiles_of(mysql_re())
    &&& regex_compiles_of(redis_re())
    &&& regex_compiles_of(postgres_re())
    &&& regex_compiles_of(vnc_re())
    &&& regex_compiles_of(imap_re())
    &&& regex_compiles_of(pop3_re())
}

/// The compiled banner patterns, built once and reused.
pub struct BannerMatchers {
    ssh: BannerPattern,
    http_server: BannerPattern,
    ftp: BannerPattern,
    smtp: BannerPattern,
    mysql: BannerPattern,
    redis: BannerPattern,
    postgres: BannerPattern,
    vnc: BannerPattern,
    imap: BannerPattern,
    pop3: BannerPattern,
}

impl BannerMatchers {
    /// Each pattern holds its built-in source.
    pub closed spec fn wf(&self) -> bool {
        &&& self.ssh@ == ssh_re()
        &&& self.http_server@ == http_server_re()
        &&& self.ftp@ == ftp_re()
        &&& self.smtp@ == smtp_re()
        &&& self.mysql@ == mysql_re()
        &&& self.redis@ == redis_re()
        &&& self.postgres@ == postgres_re()
        &&& self.vnc@ == vnc_re()
        &&& self.imap@ == imap_re()
        &&& self.pop3@ == pop3_re()
    }

    /// Compiles the built-in patterns; `None` exactly when one of them fails
    /// to compile.
    pub fn new() -> (r: Option<BannerMatchers>)
        ensures
            r is Some <==> all_patterns_compile(),
            r matches Some(m) ==> m.wf(),
    {
        let ssh = compile_pattern(r"^SSH-(\d+\.\d+)-([^\s\r\n]+)")?;
        let http_server = compile_pattern(r"(?im)^Server:\s*([^\r\n]+)")?;
        let ftp = compile_pattern(r"^220[ \-](.+)")?;
        let smtp = compile_pattern(r"^220[ \-]([^\r\n]+)")?;
        let mysql = compile_pattern(r"^.\x00\x00\x00.([0-9][^\x00]+)")?;
        let redis = compile_pattern(r"redis_version:([0-9.]+)")?;
        let postgres = compile_pattern(r"^FATAL")?;  // pg refuses without proto
        let vnc = compile_pattern(r"^RFB (\d{3})\.(\d{3})")?;
        let imap = compile_pattern(r"^\* OK[^\r\n]*")?;
        let pop3 = compile_pattern(r"^\+OK[^\r\n]*")?;
        Some(
            BannerMatchers {
                ssh,
                http_server,
                ftp,
                smtp,
                mysql,
                redis,
                postgres,
                vnc,
                imap,
                pop3,
            },
        )
    }
}

/// Group `i` of a capture result.
pub open spec fn group(caps: Option<Seq<Option<Seq<char>>>>, i: int) -> Option<Seq<char>> {
    match caps {
        Some(g) => if 0 <= i < g.len() {
            g[i]
        } else {
            None
        },
        None => None,
    }
}

pub open spec fn opt_trim(o: Option<Seq<char>>) -> Option<Seq<char>> {
    match o {
        Some(s) => Some(trim(s)),
        None => None,
    }
}

pub open spec fn or_empty(o: Option<Seq<char>>) -> Seq<char> {
    match o {
        Some(s) => s,
        None => Seq::empty(),
    }
}

/// Product and version guessed from text like `OpenSSH_9.9p1`,
/// `nginx/1.25.3` or `vsftpd 3.0.5`: split on the first underscore, else on
/// the first slash, else on the first white space; the version is the first
/// word after the split.
pub open spec fn split_pv(s0: Seq<char>) -> (Option<Seq<char>>, Option<Seq<char>>) {
    let s = trim(s0);
    if s.len() == 0 {
        (None, None)
    } else {
        match split_once(s, '_') {
            Some((p, v)) => (Some(p), Some(first_word(v))),
            None => match split_once(s, '/') {
                Some((p, v)) => (Some(p), Some(first_word(v))),
                None => match find_ws(s) {
                    Some(i) => (Some(s.take(i as int)), Some(first_word(trim(s.skip(i as int))))),
                    None => (Some(s), None),
                },
            },
        }
    }
}

pub open spec fn split_pv_opt(o: Option<Seq<char>>) -> (Option<Seq<char>>, Option<Seq<char>>) {
    match o {
        Some(s) => split_pv(s),
        None => (None, None),
    }
}

/// The text before the first `-` (`split('-').next()`).
pub open spec fn before_dash(s: Seq<char>) -> Seq<char> {
    match find_first(s, '-') {
        Some(i) => s.take(i as int),
        None => s,
    }
}

/// (name, product, version) of a service, by its text.
pub type GuessText = (Seq<char>, Option<Seq<char>>, Option<Seq<char>>);

/// The result of `captures` for one pattern, by its text.
pub type Caps = Option<Seq<Option<Seq<char>>>>;

/// The capture results of every built-in pattern on one banner.
pub struct CapsText {
    pub ssh: Caps,
    pub http_server: Caps,
    pub ftp: Caps,
    pub smtp: Caps,
    pub mysql: Caps,
    pub redis: Caps,
    pub postgres: Caps,
    pub vnc: Caps,
    pub imap: Caps,
    pub pop3: Caps,
}

/// What each built-in pattern captures in `b`.
pub open spec fn caps_of(b: Seq<char>) -> CapsText {
    CapsText {
        ssh: regex_captures_of(ssh_re(), b),
        http_server: regex_captures_of(http_server_re(), b),
        ftp: regex_captures_of(ftp_re(), b),
        smtp: regex_captures_of(smtp_re(), b),
        mysql: regex_captures_of(mysql_re(), b),
        redis: regex_captures_of(redis_re(), b),
        postgres: regex_captures_of(postgres_re(), b),
        vnc: regex_captures_of(vnc_re(), b),
        imap: regex_captures_of(imap_re(), b),
        pop3: regex_captures_of(pop3_re(), b),
    }
}

/// Whether `port` is a mail-submission port (25, 587 or 465).
pub open spec fn is_smtp_port(port: u16) -> bool {
    port == 25 || port == 587 || port == 465
}

/// The service a banner (and the port it came from) identifies, given what
/// each pattern captured in it. The patterns are tried in a fixed order; on
/// the SMTP ports an SMTP greeting is tried before the FTP one, since both
/// start with `220`; a port number alone decides where no pattern matched.
pub open spec fn guess_with(port: u16, b: Seq<char>, c: CapsText) -> GuessText {
    if c.ssh is Some {
        let pv = split_pv(or_empty(group(c.ssh, 2)));
        ("ssh"@, pv.0, pv.1)
    } else if starts_with(b, "HTTP/"@) || contains_seq(b, "\r\nServer:"@) || contains_seq(
        b,
        "\nServer:"@,
    ) {
        let pv = split_pv_opt(opt_trim(group(c.http_server, 1)));
        ("http"@, pv.0, pv.1)
    } else if c.smtp is Some && is_smtp_port(port) {
        let pv = split_pv_opt(opt_trim(group(c.smtp, 1)));
        ("smtp"@, pv.0, pv.1)
    } else if c.ftp is Some {
        let pv = split_pv_opt(opt_trim(group(c.ftp, 1)));
        ("ftp"@, pv.0, pv.1)
    } else if c.mysql is Some || port == 3306 {
        let v = match group(c.mysql, 1) {
            Some(s) => Some(before_dash(s)),
            None => None,
        };
        ("mysql"@, Some("MySQL"@), v)
    } else if c.redis is Some || port == 6379 {
        ("redis"@, Some("Redis"@), group(c.redis, 1))
    } else if c.postgres is Some || port == 5432 {
        ("postgresql"@, Some("PostgreSQL"@), None)
    } else if c.vnc is Some {
        ("vnc"@, Some("RFB"@), Some(or_empty(group(c.vnc, 1)) + seq!['.'] + or_empty(group(c.vnc, 2))))
    } else if c.imap is Some || port == 143 || port == 993 {
        ("imap"@, None, None)
    } else if c.pop3 is Some || port == 110 || port == 995 {
        ("pop3"@, None, None)
    } else if port == 443 {
        ("https"@, None, None)
    } else if port == 53 {
        ("dns"@, None, None)
    } else if port == 3389 {
        ("rdp"@, None, None)
    } else if port == 27017 {
        ("mongodb"@, None, None)
    } else {
        ("unknown"@, None, None)
    }
}

/// The service a banner read from `port` identifies.
pub open spec fn guess_spec(port: u16, b: Seq<char>) -> GuessText {
    guess_with(port, b, caps_of(b))
}

pub open spec fn opt_chars(o: Option<Vec<char>>) -> Option<Seq<char>> {
    match o {
        Some(v) => Some(v@),
        None => None,
    }
}

fn to_opt_string(o: Option<Vec<char>>) -> (r: Option<String>)
    ensures
        opt_text(r) == opt_chars(o),
{
    match o {
        Some(v) => Some(string_of(&v)),
        None => None,
    }
}

fn split_pv_chars(s0: &Vec<char>) -> (r: (Option<Vec<char>>, Option<Vec<char>>))
    ensures
        opt_chars(r.0) == split_pv(s0@).0,
        opt_chars(r.1) == split_pv(s0@).1,
{
    let s = trimmed(s0);
    if s.len() == 0 {
        return (None, None);
    }
    if let Some((p, v)) = split_once_chars(&s, '_') {
        return (Some(p), Some(first_word_chars(&v)));
    }
    if let Some((p, v)) = split_once_chars(&s, '/') {
        return (Some(p), Some(first_word_chars(&v)));
    }
    match find_ws_chars(&s) {
        Some(i) => {
            let p = slice_of(&s, 0, i);
            let rest = slice_of(&s, i, s.len());
            assert(p@ =~= s@.take(i as int));
            assert(rest@ =~= s@.skip(i as int));
            let rest_t = trimmed(&rest);
            (Some(p), Some(first_word_chars(&rest_t)))
        },
        None => (Some(s), None),
    }
}

/// Splits `OpenSSH_9.9p1 Ubuntu-3ubuntu3.2` style text into product and version.
pub fn split_product_version(s: &str) -> (r: (Option<String>, Option<String>))
    ensures
        opt_text(r.0) == split_pv(s@).0,
        opt_text(r.1) == split_pv(s@).1,
{
    let v = chars_of(s);
    let (p, ver) = split_pv_chars(&v);
    (to_opt_string(p), to_opt_string(ver))
}

/// Group `i` of a capture result, by its characters.
fn group_chars(caps: &Option<Vec<Option<String>>>, i: usize) -> (r: Option<Vec<char>>)
    ensures
        opt_chars(r) == group(
            match caps {
                Some(v) => Some(groups_text(*v)),
                None => None,
            },
            i as int,
        ),
{
    match caps {
        Some(v) => {
            if i < v.len() {
                match &v[i] {
                    Some(s) => Some(chars_of(s.as_str())),
                    None => None,
                }
            } else {
                None
            }
        },
        None => None,
    }
}

fn captured(p: &BannerPattern, text: &str) -> (r: Option<Vec<Option<String>>>)
    ensures
        regex_captures_of(p@, text@) == match r {
            Some(v) => Some(groups_text(v)),
            None => None,
        },
{
    pattern_captures(p, text)
}

fn opt_trimmed(o: Option<Vec<char>>) -> (r: Option<Vec<char>>)
    ensures
        opt_chars(r) == opt_trim(opt_chars(o)),
{
    match o {
        Some(v) => Some(trimmed(&v)),
        None => None,
    }
}

fn split_pv_opt_chars(o: Option<Vec<char>>) -> (r: (Option<String>, Option<String>))
    ensures
        opt_text(r.0) == split_pv_opt(opt_chars(o)).0,
        opt_text(r.1) == split_pv_opt(opt_chars(o)).1,
{
    match o {
        Some(v) => {
            let (p, ver) = split_pv_chars(&v);
            (to_opt_string(p), to_opt_string(ver))
        },
        None => (None, None),
    }
}

fn name(s: &str) -> (r: String)
    ensures
        r@ == s@,
{
    string_of(&chars_of(s))
}

/// (name, product, version)
pub type Guess = (String, Option<String>, Option<String>);

pub open spec fn guess_text(g: Guess) -> GuessText {
    (g.0@, opt_text(g.1), opt_text(g.2))
}

/// The capture results of every built-in pattern on one banner, each as
/// `regex::Regex::captures` gives it (groups by their text).
pub struct BannerCaptures {
    pub ssh: Option<Vec<Option<String>>>,
    pub http_server: Option<Vec<Option<String>>>,
    pub ftp: Option<Vec<Option<String>>>,
    pub smtp: Option<Vec<Option<String>>>,
    pub mysql: Option<Vec<Option<String>>>,
    pub redis: Option<Vec<Option<String>>>,
    pub postgres: Option<Vec<Option<String>>>,
    pub vnc: Option<Vec<Option<String>>>,
    pub imap: Option<Vec<Option<String>>>,
    pub pop3: Option<Vec<Option<String>>>,
}

pub open spec fn caps_text(c: Option<Vec<Option<String>>>) -> Caps {
    match c {
        Some(v) => Some(groups_text(v)),
        None => None,
    }
}

impl View for BannerCaptures {
    type V = CapsText;

    open spec fn view(&self) -> CapsText {
        CapsText {
            ssh: caps_text(self.ssh),
            http_server: caps_text(self.http_server),
            ftp: caps_text(self.ftp),
            smtp: caps_text(self.smtp),
            mysql: caps_text(self.mysql),
            redis: caps_text(self.redis),
            postgres: caps_text(self.postgres),
            vnc: caps_text(self.vnc),
            imap: caps_text(self.imap),
            pop3: caps_text(self.pop3),
        }
    }
}

impl BannerMatchers {
    /// What every built-in pattern captures in `banner`.
    pub fn captures(&self, banner: &str) -> (c: BannerCaptures)
        requires
            self.wf(),
        ensures
            c@ == caps_of(banner@),
    {
        BannerCaptures {
            ssh: captured(&self.ssh, banner),
            http_server: captured(&self.http_server, banner),
            ftp: captured(&self.ftp, banner),
            smtp: captured(&self.smtp, banner),
            mysql: captured(&self.mysql, banner),
            redis: captured(&self.redis, banner),
            postgres: captured(&self.postgres, banner),
            vnc: captured(&self.vnc, banner),
            imap: captured(&self.imap, banner),
            pop3: captured(&self.pop3, banner),
        }
    }
}

/// Names the service behind a banner read from `port`, given what each
/// built-in pattern captured in it.
pub fn guess_from_captures(port: u16, banner: &str, caps: &BannerCaptures) -> (g: Guess)
    ensures
        guess_text(g) == guess_with(port, banner@, caps@),
{
    let b = chars_of(banner);
    if caps.ssh.is_some() {
        let pv = match group_chars(&caps.ssh, 2) {
            Some(v) => v,
            None => Vec::new(),
        };
        let (p, v) = split_pv_chars(&pv);
        return (name("ssh"), to_opt_string(p), to_opt_string(v));
    }
    if starts_with_chars(&b, &chars_of("HTTP/")) || contains_chars(&b, &chars_of("\r\nServer:"))
        || contains_chars(&b, &chars_of("\nServer:")) {
        let server = opt_trimmed(group_chars(&caps.http_server, 1));
        let (p, v) = split_pv_opt_chars(server);
        return (name("http"), p, v);
    }
    // SMTP and FTP greetings both start with 220; on the SMTP ports the
    // SMTP reading wins.
    if caps.smtp.is_some() && (port == 25 || port == 587 || port == 465) {
        let detail = opt_trimmed(group_chars(&caps.smtp, 1));
        let (p, v) = split_pv_opt_chars(detail);
        return (name("smtp"), p, v);
    }
    if caps.ftp.is_some() {
        let detail = opt_trimmed(group_chars(&caps.ftp, 1));
        let (p, v) = split_pv_opt_chars(detail);
        return (name("ftp"), p, v);
    }
    if caps.mysql.is_some() || port == 3306 {
        let v = match group_chars(&caps.mysql, 1) {
            Some(s) => match crate::text::find_char(&s, '-') {
                Some(i) => {
                    let head = slice_of(&s, 0, i);
                    assert(head@ =~= s@.take(i as int));
                    Some(string_of(&head))
                },
                None => Some(string_of(&s)),
            },
            None => None,
        };
        return (name("mysql"), Some(name("MySQL")), v);
    }
    if caps.redis.is_some() || port == 6379 {
        let v = to_opt_string(group_chars(&caps.redis, 1));
        return (name("redis"), Some(name("Redis")), v);
    }
    if caps.postgres.is_some() || port == 5432 {
        return (name("postgresql"), Some(name("PostgreSQL")), None);
    }
    if caps.vnc.is_some() {
        let mut v = match group_chars(&caps.vnc, 1) {
            Some(s) => s,
            None => Vec::new(),
        };
        v.push('.');
        let minor = match group_chars(&caps.vnc, 2) {
            Some(s) => s,
            None => Vec::new(),
        };
        push_all(&mut v, &minor);
        return (name("vnc"), Some(name("RFB")), Some(string_of(&v)));
    }
    if caps.imap.is_some() || port == 143 || port == 993 {
        return (name("imap"), None, None);
    }
    if caps.pop3.is_some() || port == 110 || port == 995 {
        return (name("pop3"), None, None);
    }
    let n = if port == 443 {
        name("https")
    } else if port == 53 {
        name("dns")
    } else if port == 3389 {
        name("rdp")
    } else if port == 27017 {
        name("mongodb")
    } else {
        name("unknown")
    };
    (n, None, None)
}

/// Names the service behind a banner read from `port`.
pub fn guess_from_banner(m: &BannerMatchers, port: u16, banner: &str) -> (g: Guess)
    requires
        m.wf(),
    ensures
        guess_text(g) == guess_spec(port, banner@),
{
    let caps = m.captures(banner);
    guess_from_captures(port, banner, &caps)
}

/// `String::from_utf8_lossy`: the text of `bytes`, with each invalid UTF-8
/// sequence replaced by U+FFFD.
pub uninterp spec fn utf8_lossy_of(bytes: Seq<u8>) -> Seq<char>;

/// `String::from_utf8_lossy`, owned.
#[verifier::external_body]
fn utf8_lossy(bytes: &[u8]) -> (s: String)
    ensures
        s@ == utf8_lossy_of(bytes@),
{
    String::from_utf8_lossy(bytes).into_owned()
}

/// `s` without trailing NUL characters.
pub open spec fn trim_end_nul(s: Seq<char>) -> Seq<char>
    decreases s.len(),
{
    if s.len() > 0 && s.last() == '\0' {
        trim_end_nul(s.drop_last())
    } else {
        s
    }
}

fn trim_end_nul_chars(s: &Vec<char>) -> (t: Vec<char>)
    ensures
        t@ == trim_end_nul(s@),
{
    let mut j: usize = s.len();
    assert(s@.take(j as int) =~= s@);
    while j > 0 && s[j - 1] == '\0'
        invariant
            j <= s.len(),
            trim_end_nul(s@) == trim_end_nul(s@.take(j as int)),
        decreases j,
    {
        assert(s@.take(j as int).drop_last() =~= s@.take(j - 1));
        j = j - 1;
    }
    let t = slice_of(s, 0, j);
    assert(t@ =~= s@.take(j as int));
    t
}

/// The banner kept in a report: at most its first 256 characters, and
/// nothing when it is empty.
pub open spec fn kept_banner(t: Seq<char>) -> Option<Seq<char>> {
    if t.len() == 0 {
        None
    } else if t.len() <= 256 {
        Some(t)
    } else {
        Some(t.take(256))
    }
}

/// The banner text a byte string stands for: lossy UTF-8, trailing NULs
/// removed.
pub open spec fn banner_text(bytes: Seq<u8>) -> Seq<char> {
    trim_end_nul(utf8_lossy_of(bytes))
}

/// The service information a banner read from `port` yields.
pub fn describe_service(m: &BannerMatchers, port: u16, banner: &[u8]) -> (info: ServiceInfo)
    requires
        m.wf(),
    ensures
        info.name@ == guess_spec(port, banner_text(banner@)).0,
        opt_text(info.product) == guess_spec(port, banner_text(banner@)).1,
        opt_text(info.version) == guess_spec(port, banner_text(banner@)).2,
        opt_text(info.banner) == kept_banner(banner_text(banner@)),
{
    let text = utf8_lossy(banner);
    let all = chars_of(text.as_str());
    let t = trim_end_nul_chars(&all);
    let ts = string_of(&t);
    let svc = guess_from_banner(m, port, ts.as_str());
    let kept = if t.len() == 0 {
        None
    } else if t.len() <= 256 {
        Some(ts)
    } else {
        let head = slice_of(&t, 0, 256);
        assert(head@ =~= t@.take(256));
        Some(string_of(&head))
    };
    ServiceInfo { name: svc.0, product: svc.1, version: svc.2, banner: kept }
}

/// Ports whose services wait for the client to speak HTTP first.
pub open spec fn is_http_port(port: u16) -> bool {
    port == 80 || port == 8080 || port == 8000 || port == 8888 || port == 81 || port == 591
        || port == 8008 || port == 8081
}

/// A minimal TLS 1.2 ClientHello (record and handshake headers, zero
/// random, no session id, one cipher suite `TLS_RSA_WITH_AES_128_CBC_SHA`, null
/// compression, no extensions): enough for a TLS server to answer.
pub open spec fn tls_hello() -> Seq<char> {
    "\x16\x03\x01\x00\x2d\x01\x00\x00\x29\x03\x03\x00\x00\x00\x00\x00\x00\x00\x00\x00\x00\x00\x00\x00\x00\x00\x00\x00\x00\x00\x00\x00\x00\x00\x00\x00\x00\x00\x00\x00\x00\x00\x00\x00\x00\x02\x00\x2f\x01\x00"@
}

/// The probe text for a port, if its service waits for the client.
pub open spec fn probe_text(port: u16) -> Option<Seq<char>> {
    if is_http_port(port) {
        Some("GET / HTTP/1.0\r\nHost: rnmap\r\nUser-Agent: rnmap/0.1\r\n\r\n"@)
    } else if port == 25 || port == 587 {
        Some("EHLO rnmap.local\r\n"@)
    } else if port == 110 {
        Some("QUIT\r\n"@)
    } else if port == 143 {
        Some("a001 CAPABILITY\r\n"@)
    } else if port == 21 {
        Some("\r\n"@)
    } else if port == 443 {
        Some(tls_hello())
    } else {
        None
    }
}

/// Every web port (80, 8080, 8000, 8888, 81, 591, 8008, 8081) is probed
/// with the HTTP GET request, since web servers wait for the client.
pub proof fn law_web_ports_get_http_request(port: u16)
    ensures
        port == 80 || port == 8080 || port == 8000 || port == 8888 || port == 81 || port == 591
            || port == 8008 || port == 8081 ==> probe_text(port) == Some(
            "GET / HTTP/1.0\r\nHost: rnmap\r\nUser-Agent: rnmap/0.1\r\n\r\n"@,
        ),
{
}

/// The probe sent when a port stays silent: a protocol greeting for
/// well-known client-first services, or `None` to wait briefly and read again.
pub fn probe_for_port(port: u16) -> (p: Option<&'static str>)
    ensures
        match p {
            Some(s) => probe_text(port) == Some(s@),
            None => probe_text(port) is None,
        },
        port == 80 || port == 8080 || port == 8000 || port == 8888 || port == 81 || port == 591
            || port == 8008 || port == 8081 ==> (p matches Some(s) && s@
            == "GET / HTTP/1.0\r\nHost: rnmap\r\nUser-Agent: rnmap/0.1\r\n\r\n"@),
{
    proof {
        law_web_ports_get_http_request(port);
    }
    if port == 80 || port == 8080 || port == 8000 || port == 8888 || port == 81 || port == 591
        || port == 8008 || port == 8081 {
        Some("GET / HTTP/1.0\r\nHost: rnmap\r\nUser-Agent: rnmap/0.1\r\n\r\n")
    } else if port == 25 || port == 587 {
        Some("EHLO rnmap.local\r\n")
    } else if port == 110 {
        Some("QUIT\r\n")
    } else if port == 143 {
        Some("a001 CAPABILITY\r\n")
    } else if port == 21 {
        Some("\r\n")
    } else if port == 443 {
        Some("\x16\x03\x01\x00\x2d\x01\x00\x00\x29\x03\x03\x00\x00\x00\x00\x00\x00\x00\x00\x00\x00\x00\x00\x00\x00\x00\x00\x00\x00\x00\x00\x00\x00\x00\x00\x00\x00\x00\x00\x00\x00\x00\x00\x00\x00\x02\x00\x2f\x01\x00")
    } else {
        None
    }
}

/// Milliseconds to wait before the second read of a server-first service.
pub fn silent_wait_ms() -> (ms: u64)
    ensures
        ms == 150,
{
    150
}

} // verus!
