//! The logging registry: per-domain links, and the host map that the data
//! plane reads, rebuilt in full from the links and the domains.
use vstd::prelude::*;
use crate::model::{Domain, DomainApiLoggingLink, DomainView, LinkView};
use crate::text::{after_prefix, before, before_char, drop_chars, has_prefix, starts_with_str, trim, trim_str};

verus! {

/// What `str::to_lowercase` returns for a string: a function of its characters alone.
pub uninterp spec fn lower_of(s: Seq<char>) -> Seq<char>;

/// Relies on `str::to_lowercase`: the result depends on the characters alone.
#[verifier::external_body]
pub(crate) fn lowercase(s: &str) -> (r: String)
    ensures
        r@ == lower_of(s@),
{
    s.to_lowercase()
}

/// The host part of a URL, before lowercasing: scheme, path and port removed.
pub open spec fn url_host_raw(url: Seq<char>) -> Seq<char> {
    let u = trim(url);
    let rest = if has_prefix(u, "https://"@) {
        after_prefix(u, "https://"@)
    } else if has_prefix(u, "http://"@) {
        after_prefix(u, "http://"@)
    } else {
        u
    };
    before(before(rest, '/'), ':')
}

/// The lowercased host of a URL; `None` for a blank URL or an empty host.
pub open spec fn url_host(url: Seq<char>) -> Option<Seq<char>> {
    if trim(url).len() == 0 || url_host_raw(url).len() == 0 {
        None
    } else {
        Some(lower_of(url_host_raw(url)))
    }
}

/// `"https://Example.com:8080/path"` gives `"example.com"`.
pub fn url_to_host(url: &str) -> (r: Option<String>)
    ensures
        match r {
            Some(h) => url_host(url@) == Some(h@),
            None => url_host(url@) is None,
        },
{
    let u = trim_str(url);
    if u.is_empty() {
        return None;
    }
    let https = "https://";
    let http = "http://";
    let rest = if starts_with_str(u, https) {
        drop_chars(u, https.unicode_len())
    } else if starts_with_str(u, http) {
        drop_chars(u, http.unicode_len())
    } else {
        u
    };
    let host = before_char(before_char(rest, '/'), ':');
    if host.is_empty() {
        None
    } else {
        Some(lowercase(host))
    }
}

/// A host and its switches `(logging_enabled, body_enabled)`.
pub type EntryView = (Seq<char>, (bool, bool));

/// The switches of `host`: those of the last entry for it.
pub open spec fn lookup(m: Seq<EntryView>, host: Seq<char>) -> Option<(bool, bool)>
    decreases m.len(),
{
    if m.len() == 0 {
        None
    } else if m.last().0 == host {
        Some(m.last().1)
    } else {
        lookup(m.drop_last(), host)
    }
}

/// The last domain with id `id`.
pub open spec fn last_domain(ds: Seq<DomainView>, id: u32) -> Option<DomainView>
    decreases ds.len(),
{
    if ds.len() == 0 {
        None
    } else if ds.last().id == id {
        Some(ds.last())
    } else {
        last_domain(ds.drop_last(), id)
    }
}

pub open spec fn host_entry(url: Seq<char>, cfg: (bool, bool)) -> Seq<EntryView> {
    match url_host(url) {
        Some(h) => seq![(h, cfg)],
        None => Seq::empty(),
    }
}

/// The entries a link contributes: the host of its domain's URL, then the
/// host of its schema URL, both with the link's switches.
pub open spec fn link_entries(l: LinkView, ds: Seq<DomainView>) -> Seq<EntryView> {
    match last_domain(ds, l.domain_id) {
        None => Seq::empty(),
        Some(d) => {
            let cfg = (l.logging_enabled, l.body_enabled);
            host_entry(d.url, cfg) + match l.schema_url {
                Some(u) => host_entry(u, cfg),
                None => Seq::empty(),
            }
        },
    }
}

/// The entries of the host map, link by link.
pub open spec fn map_entries(links: Seq<LinkView>, ds: Seq<DomainView>) -> Seq<EntryView>
    decreases links.len(),
{
    if links.len() == 0 {
        Seq::empty()
    } else {
        map_entries(links.drop_last(), ds) + link_entries(links.last(), ds)
    }
}

pub open spec fn entry_views(v: Seq<(String, bool, bool)>) -> Seq<EntryView> {
    v.map_values(|e: (String, bool, bool)| (e.0@, (e.1, e.2)))
}

pub open spec fn link_views(v: Seq<DomainApiLoggingLink>) -> Seq<LinkView> {
    v.map_values(|l: DomainApiLoggingLink| l@)
}

pub open spec fn domain_views(v: Seq<Domain>) -> Seq<DomainView> {
    v.map_values(|d: Domain| d@)
}

/// Host (lowercase, no port) to `(logging_enabled, body_enabled)`.
pub struct LoggingMap {
    entries: Vec<(String, bool, bool)>,
}

impl View for LoggingMap {
    type V = Seq<EntryView>;

    closed spec fn view(&self) -> Seq<EntryView> {
        entry_views(self.entries@)
    }
}

impl LoggingMap {
    /// The map with no host.
    pub fn empty() -> (m: LoggingMap)
        ensures
            m@ == Seq::<EntryView>::empty(),
    {
        let m = LoggingMap { entries: Vec::new() };
        assert(m@ =~= Seq::<EntryView>::empty());
        m
    }

    /// Sets the switches of `host` (which the caller gives in lowercase).
    pub fn insert(&mut self, host: String, cfg: (bool, bool))
        ensures
            final(self)@ == old(self)@.push((host@, cfg)),
    {
        self.entries.push((host, cfg.0, cfg.1));
        assert(entry_views(self.entries@) =~= entry_views(old(self).entries@).push((host@, cfg)));
    }

    /// The switches of a host, matched after lowercasing it.
    pub fn get_for_host(&self, host: &str) -> (r: Option<(bool, bool)>)
        ensures
            r == lookup(self@, lower_of(host@)),
    {
        let key = lowercase(host);
        let ghost m = self@;
        let mut i: usize = self.entries.len();
        assert(m.subrange(0, i as int) =~= m);
        while i > 0
            invariant
                i <= self.entries@.len(),
                m == entry_views(self.entries@),
                key@ == lower_of(host@),
                lookup(m, key@) == lookup(m.subrange(0, i as int), key@),
            decreases i,
        {
            proof {
                assert(m.subrange(0, i as int).drop_last() =~= m.subrange(0, i - 1));
            }
            let e = &self.entries[i - 1];
            if e.0 == key {
                assert(m[i - 1] == (e.0@, (e.1, e.2)));
                assert(m.subrange(0, i as int).last() == m[i - 1]);
                assert(e.0@ == key@);
                assert(lookup(m.subrange(0, i as int), key@) == Some((e.1, e.2)));
                return Some((e.1, e.2));
            }
            i = i - 1;
        }
        None
    }

    /// A copy of the map.
    pub fn copy(&self) -> (r: LoggingMap)
        ensures
            r@ == self@,
    {
        let mut out = LoggingMap::empty();
        let mut i: usize = 0;
        while i < self.entries.len()
            invariant
                i <= self.entries@.len(),
                out@ == self@.subrange(0, i as int),
            decreases self.entries@.len() - i,
        {
            let e = &self.entries[i];
            out.insert(e.0.clone(), (e.1, e.2));
            assert(out@ =~= self@.subrange(0, i + 1));
            i = i + 1;
        }
        assert(self@.subrange(0, self@.len() as int) =~= self@);
        out
    }
}

/// The index of the last domain with id `id`.
fn find_last_domain(ds: &[Domain], id: u32) -> (r: Option<usize>)
    ensures
        match r {
            Some(j) => j < ds@.len() && last_domain(domain_views(ds@), id) == Some(ds@[j as int]@),
            None => last_domain(domain_views(ds@), id) is None,
        },
{
    let ghost v = domain_views(ds@);
    let mut i: usize = ds.len();
    assert(v.subrange(0, i as int) =~= v);
    while i > 0
        invariant
            i <= ds@.len(),
            v == domain_views(ds@),
            last_domain(v, id) == last_domain(v.subrange(0, i as int), id),
        decreases i,
    {
        proof {
            assert(v.subrange(0, i as int).drop_last() =~= v.subrange(0, i - 1));
        }
        if ds[i - 1].id == id {
            return Some(i - 1);
        }
        i = i - 1;
    }
    None
}

fn push_host(m: &mut LoggingMap, url: &str, cfg: (bool, bool))
    ensures
        final(m)@ == old(m)@ + host_entry(url@, cfg),
{
    match url_to_host(url) {
        Some(h) => {
            m.insert(h, cfg);
            assert(final(m)@ =~= old(m)@ + host_entry(url@, cfg));
        },
        None => {
            assert(old(m)@ + host_entry(url@, cfg) =~= old(m)@);
        },
    }
}

/// The host map of `links` over `domains`.
pub fn build_map(links: &[DomainApiLoggingLink], domains: &[Domain]) -> (m: LoggingMap)
    ensures
        m@ == map_entries(link_views(links@), domain_views(domains@)),
{
    let ghost lv = link_views(links@);
    let ghost dv = domain_views(domains@);
    let mut m = LoggingMap::empty();
    let mut i: usize = 0;
    while i < links.len()
        invariant
            i <= links@.len(),
            lv == link_views(links@),
            dv == domain_views(domains@),
            m@ == map_entries(lv.subrange(0, i as int), dv),
        decreases links@.len() - i,
    {
        proof {
            assert(lv.subrange(0, i + 1).drop_last() =~= lv.subrange(0, i as int));
        }
        let l = &links[i];
        let ghost before_m = m@;
        if let Some(j) = find_last_domain(domains, l.domain_id) {
            let cfg = (l.logging_enabled, l.body_enabled);
            push_host(&mut m, domains[j].url.as_str(), cfg);
            match &l.schema_url {
                Some(u) => {
                    push_host(&mut m, u.as_str(), cfg);
                },
                None => {},
            }
            assert(m@ =~= before_m + link_entries(lv[i as int], dv));
        } else {
            assert(m@ =~= before_m + link_entries(lv[i as int], dv));
        }
        i = i + 1;
    }
    assert(lv.subrange(0, lv.len() as int) =~= lv);
    m
}

/// Copies of the links, in order.
fn copy_links(v: &[DomainApiLoggingLink]) -> (r: Vec<DomainApiLoggingLink>)
    ensures
        link_views(r@) == link_views(v@),
{
    let mut out: Vec<DomainApiLoggingLink> = Vec::new();
    let mut i: usize = 0;
    while i < v.len()
        invariant
            i <= v@.len(),
            link_views(out@) == link_views(v@.subrange(0, i as int)),
        decreases v@.len() - i,
    {
        out.push(v[i].copy());
        proof {
            assert(link_views(v@.subrange(0, i + 1)) =~= link_views(v@.subrange(0, i as int)).push(
                v@[i as int]@,
            ));
            assert(link_views(out@) =~= link_views(v@.subrange(0, i + 1)));
        }
        i = i + 1;
    }
    assert(v@.subrange(0, v@.len() as int) =~= v@);
    out
}

pub open spec fn is_first_link(ls: Seq<LinkView>, domain_id: u32, i: int) -> bool {
    &&& 0 <= i < ls.len()
    &&& ls[i].domain_id == domain_id
    &&& forall|j: int| 0 <= j < i ==> (#[trigger] ls[j]).domain_id != domain_id
}

pub open spec fn has_link(ls: Seq<LinkView>, domain_id: u32) -> bool {
    exists|i: int| 0 <= i < ls.len() && (#[trigger] ls[i]).domain_id == domain_id
}

/// The links after setting the switches of `domain_id`: its first link is
/// changed, or a new link is appended.
pub open spec fn links_after_set(ls: Seq<LinkView>, l: LinkView) -> Seq<LinkView> {
    if has_link(ls, l.domain_id) {
        let i = choose|i: int| is_first_link(ls, l.domain_id, i);
        ls.update(i, l)
    } else {
        ls.push(l)
    }
}

pub open spec fn keeps_other(l: LinkView, domain_id: u32) -> bool {
    l.domain_id != domain_id
}

fn position_of_link(v: &[DomainApiLoggingLink], domain_id: u32) -> (r: Option<usize>)
    ensures
        match r {
            Some(i) => is_first_link(link_views(v@), domain_id, i as int),
            None => !has_link(link_views(v@), domain_id),
        },
{
    let mut i: usize = 0;
    while i < v.len()
        invariant
            i <= v@.len(),
            forall|j: int| 0 <= j < i ==> (#[trigger] link_views(v@)[j]).domain_id != domain_id,
        decreases v@.len() - i,
    {
        if v[i].domain_id == domain_id {
            return Some(i);
        }
        i = i + 1;
    }
    None
}

/// The logging links and the host map derived from them.
pub struct ApiLoggingSettingsService {
    links: Vec<DomainApiLoggingLink>,
    settings_map: LoggingMap,
}

/// The service as a mathematical value: the links and the host map.
pub struct LoggingServiceView {
    pub links: Seq<LinkView>,
    pub map: Seq<EntryView>,
}

impl View for ApiLoggingSettingsService {
    type V = LoggingServiceView;

    closed spec fn view(&self) -> LoggingServiceView {
        LoggingServiceView { links: link_views(self.links@), map: self.settings_map@ }
    }
}

impl ApiLoggingSettingsService {
    /// A registry holding `links`, as loaded from storage; the host map is
    /// empty until the first refresh.
    pub fn new(links: Vec<DomainApiLoggingLink>) -> (s: ApiLoggingSettingsService)
        ensures
            s@.links == link_views(links@),
            s@.map == Seq::<EntryView>::empty(),
    {
        ApiLoggingSettingsService { links, settings_map: LoggingMap::empty() }
    }

    /// A snapshot of the host map, for the data plane.
    pub fn settings_map_arc(&self) -> (r: LoggingMap)
        ensures
            r@ == self@.map,
    {
        self.settings_map.copy()
    }

    /// Rebuilds the host map in full from the links and `domains`.
    pub fn refresh_map(&mut self, domains: &[Domain])
        ensures
            final(self)@.links == old(self)@.links,
            final(self)@.map == map_entries(old(self)@.links, domain_views(domains@)),
    {
        let m = build_map(self.links.as_slice(), domains);
        self.settings_map = m;
    }

    /// The switches of a host, matched after lowercasing it.
    pub fn get_for_host(&self, host: &str) -> (r: Option<(bool, bool)>)
        ensures
            r == lookup(self@.map, lower_of(host@)),
    {
        self.settings_map.get_for_host(host)
    }

    pub fn get_links(&self) -> (r: Vec<DomainApiLoggingLink>)
        ensures
            link_views(r@) == self@.links,
    {
        copy_links(self.links.as_slice())
    }

    /// Sets the switches and schema URL of a domain, then rebuilds the map.
    pub fn set_link(
        &mut self,
        domain_id: u32,
        logging_enabled: bool,
        body_enabled: bool,
        schema_url: Option<String>,
        domains: &[Domain],
    ) -> (r: Vec<DomainApiLoggingLink>)
        ensures
            final(self)@.links == links_after_set(
                old(self)@.links,
                LinkView {
                    domain_id,
                    logging_enabled,
                    body_enabled,
                    schema_url: crate::model::opt_chars(schema_url),
                },
            ),
            final(self)@.map == map_entries(final(self)@.links, domain_views(domains@)),
            link_views(r@) == final(self)@.links,
    {
        let ghost lv = LinkView {
            domain_id,
            logging_enabled,
            body_enabled,
            schema_url: crate::model::opt_chars(schema_url),
        };
        let link = DomainApiLoggingLink { domain_id, logging_enabled, body_enabled, schema_url };
        let ghost old_links = link_views(self.links@);
        let found = position_of_link(self.links.as_slice(), domain_id);
        match found {
            Some(pos) => {
                proof {
                    assert(is_first_link(old_links, domain_id, pos as int));
                    let c = choose|c: int| is_first_link(old_links, domain_id, c);
                    assert(c == pos as int) by {
                        if c < pos {
                            assert(old_links[c].domain_id != domain_id);
                        } else if c > pos {
                            assert(old_links[pos as int].domain_id != domain_id);
                        }
                    }
                }
                self.links.set(pos, link);
                assert(link_views(self.links@) =~= old_links.update(pos as int, lv));
            },
            None => {
                assert(!has_link(old_links, domain_id));
                self.links.push(link);
                assert(link_views(self.links@) =~= old_links.push(lv));
            },
        }
        self.refresh_map(domains);
        copy_links(self.links.as_slice())
    }

    /// Removes every link of a domain, then rebuilds the map.
    pub fn remove_link(&mut self, domain_id: u32, domains: &[Domain])
        ensures
            final(self)@.links == old(self)@.links.filter(|l: LinkView| keeps_other(l, domain_id)),
            final(self)@.map == map_entries(final(self)@.links, domain_views(domains@)),
    {
        let ghost all = link_views(self.links@);
        let mut kept: Vec<DomainApiLoggingLink> = Vec::new();
        let mut i: usize = 0;
        while i < self.links.len()
            invariant
                i <= self.links@.len(),
                all == link_views(self.links@),
                link_views(kept@) == all.subrange(0, i as int).filter(
                    |l: LinkView| keeps_other(l, domain_id),
                ),
            decreases self.links@.len() - i,
        {
            proof {
                assert(all.subrange(0, i + 1).drop_last() =~= all.subrange(0, i as int));
                reveal(Seq::filter);
            }
            if self.links[i].domain_id != domain_id {
                kept.push(self.links[i].copy());
                assert(link_views(kept@) =~= all.subrange(0, i + 1).filter(
                    |l: LinkView| keeps_other(l, domain_id),
                ));
            }
            i = i + 1;
        }
        assert(all.subrange(0, all.len() as int) =~= all);
        self.links = kept;
        self.refresh_map(domains);
    }
}

} // verus!
