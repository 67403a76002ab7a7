//! Network endpoints: splitting `host[:port]`, finding the endpoints a
//! command names, and matching them against allow entries.

use crate::ip::{in_subnet, ip_in_cidr, ip_value, parse_ip, IpLiteral};
use crate::text::{
    all_digits, find, find_char, find_char_from, find_from, from_chars, is_suffix, is_ws,
    char_is_ws, ends_with, only_digits, parse_number, parse_unsigned, push_all, rfind_char,
    rfind_char_to, same_chars, slice_chars, texts, to_chars, trim, trimmed,
};
use vstd::prelude::*;

verus! {

/// The characters of an optional string.
pub open spec fn opt_text(s: Option<&str>) -> Option<Seq<char>> {
    match s {
        Some(t) => Some(t@),
        None => None,
    }
}

/// The characters of an optional owned string.
pub open spec fn opt_string(s: Option<String>) -> Option<Seq<char>> {
    match s {
        Some(t) => Some(t@),
        None => None,
    }
}

/// Host and port of `host[:port]`, white space at the ends left off. A
/// text that opens with `[` and holds a `]` has its host between the two,
/// and a port where `:` follows the `]`. Any other text is split at its
/// last `:` where digits and nothing else follow it, and is all host
/// otherwise.
pub open spec fn hostport_split(s: Seq<char>) -> (Seq<char>, Option<Seq<char>>) {
    let st = trim(s);
    if st.len() > 0 && st[0] == '[' && find_char_from(st, ']', 1) is Some {
        let pos = find_char_from(st, ']', 1)->0;
        let host = st.subrange(1, pos);
        let after = st.skip(pos + 1);
        if after.len() > 0 && after[0] == ':' {
            (host, Some(after.skip(1)))
        } else {
            (host, None)
        }
    } else {
        match rfind_char_to(st, ':', st.len() as int) {
            Some(k) => {
                let tail = st.skip(k + 1);
                if tail.len() > 0 && all_digits(tail) {
                    (st.take(k), Some(tail))
                } else {
                    (st, None)
                }
            },
            None => (st, None),
        }
    }
}

/// Splits `host[:port]` into host and port.
pub fn split_hostport(s: &[char]) -> (r: (Vec<char>, Option<Vec<char>>))
    ensures
        r.0@ == hostport_split(s@).0,
        match r.1 {
            Some(p) => hostport_split(s@).1 == Some(p@),
            None => hostport_split(s@).1 is None,
        },
{
    let st = trimmed(s);
    let n: usize = st.len();
    if n > 0 && st[0] == '[' {
        match find_char(st.as_slice(), ']', 1) {
            Some(pos) => {
                let host = slice_chars(st.as_slice(), 1, pos);
                let after = slice_chars(st.as_slice(), pos + 1, n);
                assert(after@ =~= st@.skip(pos + 1));
                if after.len() > 0 && after[0] == ':' {
                    let port = slice_chars(after.as_slice(), 1, after.len());
                    assert(port@ =~= after@.skip(1));
                    return (host, Some(port));
                }
                return (host, None);
            },
            None => {},
        }
    }
    match rfind_char(st.as_slice(), ':') {
        Some(k) => {
            let tail = slice_chars(st.as_slice(), k + 1, n);
            assert(tail@ =~= st@.skip(k + 1));
            if tail.len() > 0 && only_digits(tail.as_slice()) {
                let head = slice_chars(st.as_slice(), 0, k);
                assert(head@ =~= st@.take(k as int));
                return (head, Some(tail));
            }
            (st, None)
        },
        None => (st, None),
    }
}

/// Splits `host[:port]` into host and port.
pub fn hostport_parts(s: &str) -> (r: (String, Option<String>))
    ensures
        r.0@ == hostport_split(s@).0,
        opt_string(r.1) == hostport_split(s@).1,
{
    let chars = to_chars(s);
    let (h, p) = split_hostport(chars.as_slice());
    let host = from_chars(h.as_slice());
    match p {
        Some(pv) => (host, Some(from_chars(pv.as_slice()))),
        None => (host, None),
    }
}

/// What a port specification admits: every port (`*`), or the ports of a
/// range; a single port is the range from itself to itself. A text that
/// is none of these, and no text, stand for no specification.
pub open spec fn port_spec(p: Option<Seq<char>>) -> (bool, Option<(u16, u16)>) {
    match p {
        None => (false, None),
        Some(ps) => if ps == seq!['*'] {
            (true, None)
        } else {
            match port_range(ps) {
                Some(r) => (false, Some(r)),
                None => match parse_unsigned(ps, 65535) {
                    Some(x) => (false, Some((x as u16, x as u16))),
                    None => (false, None),
                },
            }
        },
    }
}

/// The range `lo-hi` that a text writes.
pub open spec fn port_range(ps: Seq<char>) -> Option<(u16, u16)> {
    match find_char_from(ps, '-', 0) {
        Some(k) => match (parse_unsigned(ps.take(k), 65535), parse_unsigned(ps.skip(k + 1), 65535)) {
            (Some(x), Some(y)) => Some((x as u16, y as u16)),
            _ => None,
        },
        None => None,
    }
}

/// Reads a port specification from its characters.
pub fn read_port_spec(ps: &[char]) -> (r: (bool, Option<(u16, u16)>))
    ensures
        r == port_spec(Some(ps@)),
{
    if ps.len() == 1 && ps[0] == '*' {
        assert(ps@ =~= seq!['*']);
        return (true, None);
    }
    assert(ps@ != seq!['*']) by {
        if ps@ == seq!['*'] {
            assert(seq!['*'].len() == 1);
            assert(seq!['*'][0] == '*');
        }
    }
    match find_char(ps, '-', 0) {
        Some(k) => {
            let a = slice_chars(ps, 0, k);
            let b = slice_chars(ps, k + 1, ps.len());
            assert(a@ =~= ps@.take(k as int));
            assert(b@ =~= ps@.skip(k + 1));
            let x = parse_number(a.as_slice(), 65535);
            let y = parse_number(b.as_slice(), 65535);
            match (x, y) {
                (Some(lo), Some(hi)) => {
                    return (false, Some((lo as u16, hi as u16)));
                },
                _ => {},
            }
        },
        None => {},
    }
    match parse_number(ps, 65535) {
        Some(x) => (false, Some((x as u16, x as u16))),
        None => (false, None),
    }
}

/// Reads a port specification.
pub fn parse_port_spec(p: Option<&str>) -> (r: (bool, Option<(u16, u16)>))
    ensures
        r == port_spec(opt_text(p)),
{
    match p {
        None => (false, None),
        Some(ps) => {
            let chars = to_chars(ps);
            read_port_spec(chars.as_slice())
        },
    }
}

/// The subnet that `network/prefix` names: a literal address, and a
/// number of leading bits up to 255.
pub open spec fn cidr_value(s: Seq<char>) -> Option<(IpLiteral, u8)> {
    match find_char_from(s, '/', 0) {
        Some(k) => match (ip_value(s.take(k)), parse_unsigned(s.skip(k + 1), 255)) {
            (Some(ip), Some(p)) => Some((ip, p as u8)),
            _ => None,
        },
        None => None,
    }
}

/// Reads `network/prefix` from its characters.
pub fn read_cidr(s: &[char]) -> (r: Option<(IpLiteral, u8)>)
    ensures
        r == cidr_value(s@),
{
    let total: usize = s.len();
    match find_char(s, '/', 0) {
        Some(k) => {
            let a = slice_chars(s, 0, k);
            let b = slice_chars(s, k + 1, s.len());
            assert(a@ =~= s@.take(k as int));
            assert(b@ =~= s@.skip(k + 1));
            match (parse_ip(a.as_slice()), parse_number(b.as_slice(), 255)) {
                (Some(ip), Some(p)) => Some((ip, p as u8)),
                _ => None,
            }
        },
        None => None,
    }
}

/// Reads `network/prefix`.
pub fn parse_cidr(host: &str) -> (r: Option<(IpLiteral, u8)>)
    ensures
        r == cidr_value(host@),
{
    let chars = to_chars(host);
    read_cidr(chars.as_slice())
}

/// Whether a port passes a specification: every port passes `*` and the
/// absence of one; a range asks for a number within it.
pub open spec fn port_admitted(
    any: bool,
    range: Option<(u16, u16)>,
    port: Option<Seq<char>>,
) -> bool {
    any || match range {
        None => true,
        Some((lo, hi)) => match port {
            Some(p) => match parse_unsigned(p, 65535) {
                Some(v) => lo <= v && v <= hi,
                None => false,
            },
            None => false,
        },
    }
}

/// `host` begins with `*.`.
pub open spec fn is_wildcard(host: Seq<char>) -> bool {
    host.len() >= 2 && host[0] == '*' && host[1] == '.'
}

/// `host` stands between square brackets.
pub open spec fn is_bracketed(host: Seq<char>) -> bool {
    host.len() >= 2 && host[0] == '[' && host[host.len() - 1] == ']'
}

/// The text is a port specification: `*`, a number up to 65535, or two
/// such numbers with `-` between.
pub open spec fn is_port_spec(ps: Seq<char>) -> bool {
    port_spec(Some(ps)).0 || port_spec(Some(ps)).1 is Some
}

/// Host and port specification of an allow entry, white space at the
/// ends left off. An entry that opens with `[` and holds a `]` is split
/// as an endpoint is. Any other entry is split at its last `:` where a
/// port specification follows it, and is all host otherwise.
pub open spec fn allow_split(s: Seq<char>) -> (Seq<char>, Option<Seq<char>>) {
    let st = trim(s);
    if st.len() > 0 && st[0] == '[' && find_char_from(st, ']', 1) is Some {
        hostport_split(s)
    } else {
        match rfind_char_to(st, ':', st.len() as int) {
            Some(k) => {
                let tail = st.skip(k + 1);
                if is_port_spec(tail) {
                    (st.take(k), Some(tail))
                } else {
                    (st, None)
                }
            },
            None => (st, None),
        }
    }
}

/// Splits an allow entry into host and port specification.
pub fn split_allow(s: &[char]) -> (r: (Vec<char>, Option<Vec<char>>))
    ensures
        r.0@ == allow_split(s@).0,
        match r.1 {
            Some(p) => allow_split(s@).1 == Some(p@),
            None => allow_split(s@).1 is None,
        },
{
    let st = trimmed(s);
    let n: usize = st.len();
    if n > 0 && st[0] == '[' && find_char(st.as_slice(), ']', 1).is_some() {
        return split_hostport(s);
    }
    match rfind_char(st.as_slice(), ':') {
        Some(k) => {
            let tail = slice_chars(st.as_slice(), k + 1, n);
            assert(tail@ =~= st@.skip(k + 1));
            let spec = read_port_spec(tail.as_slice());
            if spec.0 || spec.1.is_some() {
                let head = slice_chars(st.as_slice(), 0, k);
                assert(head@ =~= st@.take(k as int));
                return (head, Some(tail));
            }
            (st, None)
        },
        None => (st, None),
    }
}

/// Whether an allow entry admits `host` with `port`.
///
/// An entry that names a subnet admits the literal addresses in it,
/// whatever the port. Any other entry is split into host and port
/// specification: `*.suffix` admits the hosts that end in `.suffix`, a
/// plain host admits itself, both subject to the port; a host in brackets
/// admits what stands between them.
pub open spec fn endpoint_allowed(host: Seq<char>, port: Option<Seq<char>>, allow: Seq<char>) -> bool {
    match cidr_value(allow) {
        Some((net, prefix)) => match ip_value(host) {
            Some(ip) => in_subnet(ip, net, prefix),
            None => false,
        },
        None => {
            let a_host = allow_split(allow).0;
            let spec = port_spec(allow_split(allow).1);
            if is_wildcard(a_host) && is_suffix(a_host.skip(1), host) {
                port_admitted(spec.0, spec.1, port)
            } else if a_host == host {
                port_admitted(spec.0, spec.1, port)
            } else {
                is_bracketed(a_host) && a_host.subrange(1, a_host.len() - 1) == host
            }
        },
    }
}

/// An entry of a plain host with a range of ports admits that host with
/// the ports of the range, and with no other port and no other host.
pub proof fn lemma_host_with_range(
    host: Seq<char>,
    port: Option<Seq<char>>,
    allow: Seq<char>,
    lo: u16,
    hi: u16,
)
    requires
        cidr_value(allow) is None,
        !is_wildcard(allow_split(allow).0),
        !is_bracketed(allow_split(allow).0),
        port_spec(allow_split(allow).1) == (false, Some((lo, hi))),
    ensures
        endpoint_allowed(host, port, allow) <==> host == allow_split(allow).0 && port is Some
            && parse_unsigned(port->0, 65535) is Some && lo <= parse_unsigned(port->0, 65535)->0
            <= hi,
{
}

/// An entry with `*` for its port admits its host with every port and
/// with none.
pub proof fn lemma_host_with_any_port(host: Seq<char>, port: Option<Seq<char>>, allow: Seq<char>)
    requires
        cidr_value(allow) is None,
        port_spec(allow_split(allow).1).0,
        host == allow_split(allow).0,
    ensures
        endpoint_allowed(host, port, allow),
{
}

fn port_passes(any: bool, range: Option<(u16, u16)>, port: &Option<Vec<char>>) -> (b: bool)
    ensures
        b == port_admitted(
            any,
            range,
            match *port {
                Some(p) => Some(p@),
                None => None,
            },
        ),
{
    if any {
        return true;
    }
    match range {
        None => true,
        Some((lo, hi)) => match port {
            Some(p) => match parse_number(p.as_slice(), 65535) {
                Some(v) => lo as u64 <= v && v <= hi as u64,
                None => false,
            },
            None => false,
        },
    }
}

/// Whether the allow entry admits `host` with `port`.
pub fn entry_admits(host: &[char], port: &Option<Vec<char>>, allow: &[char]) -> (b: bool)
    ensures
        b == endpoint_allowed(
            host@,
            match *port {
                Some(p) => Some(p@),
                None => None,
            },
            allow@,
        ),
{
    match read_cidr(allow) {
        Some((net, prefix)) => {
            return match parse_ip(host) {
                Some(ip) => ip_in_cidr(ip, (net, prefix)),
                None => false,
            };
        },
        None => {},
    }
    let (a_host, a_port) = split_allow(allow);
    let (any, range) = match &a_port {
        Some(ps) => read_port_spec(ps.as_slice()),
        None => (false, None),
    };
    let n: usize = a_host.len();
    if n >= 2 && a_host[0] == '*' && a_host[1] == '.' {
        let suffix = slice_chars(a_host.as_slice(), 1, n);
        assert(suffix@ =~= a_host@.skip(1));
        if ends_with(host, suffix.as_slice()) {
            return port_passes(any, range, port);
        }
    }
    if same_chars(a_host.as_slice(), host) {
        return port_passes(any, range, port);
    }
    if n >= 2 && a_host[0] == '[' && a_host[n - 1] == ']' {
        let inner = slice_chars(a_host.as_slice(), 1, n - 1);
        return same_chars(inner.as_slice(), host);
    }
    false
}

/// Whether the allow entry admits `host` with `port`.
pub fn allowed_match(host: &str, port: Option<&str>, allow: &str) -> (b: bool)
    ensures
        b == endpoint_allowed(host@, opt_text(port), allow@),
{
    let h = to_chars(host);
    let a = to_chars(allow);
    let p: Option<Vec<char>> = match port {
        Some(ps) => Some(to_chars(ps)),
        None => None,
    };
    entry_admits(h.as_slice(), &p, a.as_slice())
}

/// Some entry of `allows` admits the endpoint `host[:port]`.
pub open spec fn endpoint_in_list(hostport: Seq<char>, allows: Seq<Seq<char>>) -> bool {
    exists|i: int|
        0 <= i < allows.len() && endpoint_allowed(
            hostport_split(hostport).0,
            hostport_split(hostport).1,
            #[trigger] allows[i],
        )
}

/// Whether some entry of `allows` admits the endpoint `host[:port]`.
pub fn endpoint_permitted(hostport: &str, allows: &Vec<String>) -> (b: bool)
    ensures
        b == endpoint_in_list(hostport@, texts(allows@)),
{
    let hp = to_chars(hostport);
    let (host, port) = split_hostport(hp.as_slice());
    let mut i: usize = 0;
    while i < allows.len()
        invariant
            i <= allows@.len(),
            host@ == hostport_split(hostport@).0,
            match port {
                Some(p) => hostport_split(hostport@).1 == Some(p@),
                None => hostport_split(hostport@).1 is None,
            },
            forall|j: int|
                0 <= j < i ==> !endpoint_allowed(
                    hostport_split(hostport@).0,
                    hostport_split(hostport@).1,
                    #[trigger] texts(allows@)[j],
                ),
        decreases allows@.len() - i,
    {
        let a = to_chars(allows[i].as_str());
        assert(texts(allows@)[i as int] == a@);
        if entry_admits(host.as_slice(), &port, a.as_slice()) {
            return true;
        }
        i += 1;
    }
    false
}

/// The end of the endpoint that begins at `i`: the first `/` or white
/// space from there on, or the end of the text.
pub open spec fn endpoint_end(s: Seq<char>, i: int) -> int
    decreases s.len() - i,
{
    if i < 0 || i >= s.len() {
        s.len() as int
    } else if s[i] == '/' || is_ws(s[i]) {
        i
    } else {
        endpoint_end(s, i + 1)
    }
}

/// An endpoint as a command names it, with the scheme's port where it
/// names none.
pub open spec fn with_default_port(hostport: Seq<char>, default_port: Seq<char>) -> Seq<char> {
    if hostport_split(hostport).1 is None {
        hostport_split(hostport).0 + seq![':'] + default_port
    } else {
        hostport
    }
}

/// The next place from `i` on at which a command names an endpoint: the
/// nearer of the next `http://` and the next `https://`, with the length
/// of the scheme found there and its port, 80 or 443.
pub open spec fn next_scheme(cmd: Seq<char>, i: int) -> Option<(int, int, Seq<char>)> {
    let plain = find_from(cmd, "http://"@, i);
    let secure = find_from(cmd, "https://"@, i);
    if plain is Some && (secure is None || plain->0 <= secure->0) {
        Some((plain->0, "http://"@.len() as int, "80"@))
    } else if secure is Some {
        Some((secure->0, "https://"@.len() as int, "443"@))
    } else {
        None
    }
}

/// The endpoints that a command names from index `i` on, in the order in
/// which they stand in it. Each reaches from behind its scheme to the
/// next `/` or white space and gets the scheme's port where it names
/// none; a scheme with nothing behind it names no endpoint. The search
/// for the next scheme goes on from the end of each endpoint.
pub open spec fn endpoints_from(cmd: Seq<char>, i: int) -> Seq<Seq<char>>
    decreases cmd.len() - i,
{
    match next_scheme(cmd, i) {
        None => Seq::empty(),
        Some((pos, width, port)) => {
            let start = pos + width;
            let end = endpoint_end(cmd, start);
            if i < 0 || end <= i || end > cmd.len() {
                Seq::empty()
            } else if end == start {
                endpoints_from(cmd, end)
            } else {
                seq![with_default_port(cmd.subrange(start, end), port)] + endpoints_from(cmd, end)
            }
        },
    }
}

/// The endpoints that a command names, in the order in which they stand
/// in it.
pub open spec fn http_endpoints(cmd: Seq<char>) -> Seq<Seq<char>> {
    endpoints_from(cmd, 0)
}

fn find_endpoint_end(s: &[char], from: usize) -> (r: usize)
    requires
        from <= s@.len(),
    ensures
        r == endpoint_end(s@, from as int),
        from <= r <= s@.len(),
{
    let mut i: usize = from;
    while i < s.len() && !(s[i] == '/' || char_is_ws(s[i]))
        invariant
            from <= i <= s@.len(),
            endpoint_end(s@, from as int) == endpoint_end(s@, i as int),
        decreases s@.len() - i,
    {
        i += 1;
    }
    i
}

/// The endpoints that a command names, in the order in which they stand
/// in it.
pub fn extract_http_hosts(cmd: &str) -> (out: Vec<String>)
    ensures
        texts(out@) == http_endpoints(cmd@),
{
    let chars = to_chars(cmd);
    let cmd_chars = chars.as_slice();
    let mut out: Vec<String> = Vec::new();
    let http = to_chars("http://");
    let https = to_chars("https://");
    let p80 = to_chars("80");
    let p443 = to_chars("443");
    proof {
        reveal_strlit("http://");
        reveal_strlit("https://");
    }
    let total: usize = cmd_chars.len();
    let mut i: usize = 0;
    assert(texts(out@) + endpoints_from(cmd@, 0) =~= endpoints_from(cmd@, 0));
    loop
        invariant
            i <= cmd_chars@.len() == total,
            cmd_chars@ == cmd@,
            http@ == "http://"@,
            https@ == "https://"@,
            http@.len() == 7,
            https@.len() == 8,
            p80@ == "80"@,
            p443@ == "443"@,
            texts(out@) + endpoints_from(cmd@, i as int) == endpoints_from(cmd@, 0),
        decreases cmd_chars@.len() - i,
    {
        let plain = find(cmd_chars, http.as_slice(), i);
        let secure = find(cmd_chars, https.as_slice(), i);
        proof {
            crate::text::lemma_find_from(cmd@, "http://"@, i as int);
            crate::text::lemma_find_from(cmd@, "https://"@, i as int);
        }
        let (pos, width, secure_scheme): (usize, usize, bool) = match (plain, secure) {
            (Some(p), Some(s)) => if p <= s {
                (p, 7, false)
            } else {
                (s, 8, true)
            },
            (Some(p), None) => (p, 7, false),
            (None, Some(s)) => (s, 8, true),
            (None, None) => {
                assert(texts(out@) + Seq::<Seq<char>>::empty() =~= texts(out@));
                return out;
            },
        };
        let ghost port: Seq<char> = if secure_scheme {
            "443"@
        } else {
            "80"@
        };
        assert(next_scheme(cmd@, i as int) == Some((pos as int, width as int, port)));
        let start: usize = pos + width;
        let end: usize = find_endpoint_end(cmd_chars, start);
        if end > start {
            let hostport = slice_chars(cmd_chars, start, end);
            let (h, p) = split_hostport(hostport.as_slice());
            let ghost before = texts(out@);
            let mut hp: Vec<char> = Vec::new();
            match p {
                None => {
                    push_all(&mut hp, h.as_slice());
                    hp.push(':');
                    if secure_scheme {
                        push_all(&mut hp, p443.as_slice());
                    } else {
                        push_all(&mut hp, p80.as_slice());
                    }
                    assert(hp@ =~= with_default_port(hostport@, port));
                },
                Some(_) => {
                    push_all(&mut hp, hostport.as_slice());
                    assert(hp@ =~= with_default_port(hostport@, port));
                },
            }
            out.push(from_chars(hp.as_slice()));
            assert(texts(out@) =~= before.push(hp@));
            assert(texts(out@) + endpoints_from(cmd@, end as int) =~= before + endpoints_from(
                cmd@,
                i as int,
            ));
        }
        i = end;
    }
}

} // verus!
