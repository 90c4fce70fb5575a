//! The settings registry, and the reading of a DNS server setting.
use vstd::prelude::*;
use crate::model::{opt_chars, ProxySettings, SettingsView};
use crate::text::{before, find_char, trim, trim_str};

verus! {

/// A DNS server setting after trimming: `None` when it is empty.
pub open spec fn normalized_dns(o: Option<Seq<char>>) -> Option<Seq<char>> {
    match o {
        Some(s) => if trim(s).len() == 0 {
            None
        } else {
            Some(trim(s))
        },
        None => None,
    }
}

/// The listener settings.
pub struct ProxySettingsService {
    settings: ProxySettings,
}

impl View for ProxySettingsService {
    type V = SettingsView;

    closed spec fn view(&self) -> SettingsView {
        self.settings@
    }
}

impl ProxySettingsService {
    /// A registry holding `settings`, as loaded from storage.
    pub fn new(settings: ProxySettings) -> (s: ProxySettingsService)
        ensures
            s@ == settings@,
    {
        ProxySettingsService { settings }
    }

    pub fn get(&self) -> (r: ProxySettings)
        ensures
            r@ == self@,
    {
        self.settings.copy()
    }

    /// Sets the DNS server used for pass-through hosts; blank text clears it.
    pub fn set_dns_server(&mut self, dns_server: Option<String>) -> (r: ProxySettings)
        ensures
            final(self)@ == (SettingsView {
                dns_server: normalized_dns(opt_chars(dns_server)),
                ..old(self)@
            }),
            r@ == final(self)@,
    {
        self.settings.dns_server = match dns_server {
            Some(s) => {
                let t = trim_str(s.as_str());
                if t.is_empty() {
                    None
                } else {
                    Some(String::from_str(t))
                }
            },
            None => None,
        };
        self.settings.copy()
    }

    /// Sets the forward port, raised to 1 when 0 is given.
    pub fn set_proxy_port(&mut self, port: u16) -> (r: ProxySettings)
        ensures
            final(self)@ == (SettingsView {
                proxy_port: if port == 0 {
                    1u16
                } else {
                    port
                },
                ..old(self)@
            }),
            r@ == final(self)@,
    {
        let p = if port < 1 {
            1
        } else {
            port
        };
        self.settings.proxy_port = p;
        self.settings.copy()
    }

    /// Sets the reverse ports; `None` or 0 turns a listener off.
    pub fn set_reverse_ports(&mut self, reverse_http_port: Option<u16>, reverse_https_port: Option<
        u16,
    >) -> (r: ProxySettings)
        ensures
            final(self)@ == (SettingsView {
                reverse_http_port: crate::supervisor::enabled_port(reverse_http_port),
                reverse_https_port: crate::supervisor::enabled_port(reverse_https_port),
                ..old(self)@
            }),
            r@ == final(self)@,
    {
        self.settings.reverse_http_port = match reverse_http_port {
            Some(p) => if p > 0 {
                Some(p)
            } else {
                None
            },
            None => None,
        };
        self.settings.reverse_https_port = match reverse_https_port {
            Some(p) => if p > 0 {
                Some(p)
            } else {
                None
            },
            None => None,
        };
        self.settings.copy()
    }

    /// Binds the listeners on every interface, or on loopback only.
    pub fn set_bind_all(&mut self, bind_all: bool) -> (r: ProxySettings)
        ensures
            final(self)@ == (SettingsView { bind_all, ..old(self)@ }),
            r@ == final(self)@,
    {
        self.settings.bind_all = bind_all;
        self.settings.copy()
    }

    /// Turns routing to local routes on or off.
    pub fn set_local_routing_enabled(&mut self, enabled: bool) -> (r: ProxySettings)
        ensures
            final(self)@ == (SettingsView { local_routing_enabled: enabled, ..old(self)@ }),
            r@ == final(self)@,
    {
        self.settings.local_routing_enabled = enabled;
        self.settings.copy()
    }

    /// Replaces all settings (an import).
    pub fn replace_all(&mut self, settings: ProxySettings) -> (r: ProxySettings)
        ensures
            final(self)@ == settings@,
            r@ == settings@,
    {
        self.settings = settings;
        self.settings.copy()
    }
}

pub open spec fn is_digit(c: char) -> bool {
    '0' <= c && c <= '9'
}

/// The value of a string of decimal digits.
pub open spec fn digits_value(s: Seq<char>) -> nat
    decreases s.len(),
{
    if s.len() == 0 {
        0
    } else {
        digits_value(s.drop_last()) * 10 + (s.last() as nat - '0' as nat) as nat
    }
}

/// The digits of a `u16` as `str::parse` reads them: an optional `+`, then
/// one or more decimal digits whose value fits.
pub open spec fn u16_digits(s: Seq<char>) -> Seq<char> {
    if s.len() > 0 && s[0] == '+' {
        s.drop_first()
    } else {
        s
    }
}

pub open spec fn parses_u16(s: Seq<char>) -> Option<u16> {
    let d = u16_digits(s);
    if d.len() > 0 && (forall|i: int| 0 <= i < d.len() ==> is_digit(#[trigger] d[i]))
        && digits_value(d) <= 65535 {
        Some(digits_value(d) as u16)
    } else {
        None
    }
}

/// Reads a port number as `u16::from_str` does.
pub fn parse_u16(s: &str) -> (r: Option<u16>)
    ensures
        r == parses_u16(s@),
{
    let n = s.unicode_len();
    let mut start: usize = 0;
    if n > 0 && s.get_char(0) == '+' {
        start = 1;
    }
    let ghost d = u16_digits(s@);
    proof {
        assert(d =~= s@.subrange(start as int, n as int));
    }
    if start >= n {
        return None;
    }
    let mut v: u32 = 0;
    let mut i: usize = start;
    while i < n
        invariant
            n == s@.len(),
            start <= i <= n,
            d == s@.subrange(start as int, n as int),
            d == u16_digits(s@),
            forall|j: int| start <= j < i ==> is_digit(#[trigger] s@[j]),
            v as nat == digits_value(s@.subrange(start as int, i as int)),
            v <= 65535,
        decreases n - i,
    {
        let c = s.get_char(i);
        if !('0' <= c && c <= '9') {
            proof {
                assert(d[(i - start) as int] == s@[i as int]);
                assert(!is_digit(d[(i - start) as int]));
            }
            return None;
        }
        proof {
            assert(s@.subrange(start as int, i + 1).drop_last() =~= s@.subrange(
                start as int,
                i as int,
            ));
        }
        let dv = (c as u32) - ('0' as u32);
        let nv = v * 10 + dv;
        if nv > 65535 {
            proof {
                let pre = s@.subrange(start as int, i + 1);
                assert(pre.last() == c);
                assert(digits_value(pre) == nv as nat);
                lemma_digits_grow(d, (i + 1 - start) as int);
                assert(d.subrange(0, (i + 1 - start) as int) =~= pre);
            }
            return None;
        }
        v = nv;
        i = i + 1;
    }
    proof {
        assert forall|k: int| 0 <= k < d.len() implies is_digit(#[trigger] d[k]) by {
            assert(d[k] == s@[k + start]);
        }
    }
    Some(v as u16)
}

/// The value of a digit string is at least that of any prefix.
proof fn lemma_digits_grow(s: Seq<char>, k: int)
    requires
        0 <= k <= s.len(),
    ensures
        (forall|i: int| 0 <= i < s.len() ==> is_digit(#[trigger] s[i])) ==> digits_value(
            s.subrange(0, k),
        ) <= digits_value(s),
    decreases s.len() - k,
{
    if k < s.len() {
        lemma_digits_grow(s.drop_last(), k);
        if forall|i: int| 0 <= i < s.len() ==> is_digit(#[trigger] s[i]) {
            assert forall|i: int| 0 <= i < s.drop_last().len() implies is_digit(
                #[trigger] s.drop_last()[i],
            ) by {
                assert(s.drop_last()[i] == s[i]);
            }
            assert(s.drop_last().subrange(0, k) =~= s.subrange(0, k));
        }
    } else {
        assert(s.subrange(0, k) =~= s);
    }
}

/// A DNS server setting read as `ip` or `ip:port` (port 53 when absent);
/// `None` when it is blank or the port is not a number. The address text is
/// returned trimmed, for the caller to parse.
pub open spec fn dns_server_parts(s: Seq<char>) -> Option<(Seq<char>, u16)> {
    let t = trim(s);
    if t.len() == 0 {
        None
    } else if before(t, ':').len() < t.len() {
        let ip = trim(before(t, ':'));
        let port_text = trim(t.subrange(before(t, ':').len() + 1int, t.len() as int));
        match parses_u16(port_text) {
            Some(p) => Some((ip, p)),
            None => None,
        }
    } else {
        Some((t, 53u16))
    }
}

/// Splits a DNS server setting into address text and port.
pub fn parse_dns_server(s: &str) -> (r: Option<(String, u16)>)
    ensures
        match r {
            Some((ip, port)) => dns_server_parts(s@) == Some((ip@, port)),
            None => dns_server_parts(s@) is None,
        },
{
    let t = trim_str(s);
    if t.is_empty() {
        return None;
    }
    let n = t.unicode_len();
    let k = find_char(t, ':');
    if k < n {
        let ip = trim_str(t.substring_char(0, k));
        let port_text = trim_str(t.substring_char(k + 1, n));
        match parse_u16(port_text) {
            Some(p) => Some((String::from_str(ip), p)),
            None => None,
        }
    } else {
        Some((String::from_str(t), 53))
    }
}

} // verus!
