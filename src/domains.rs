//! The domain registry: monitored URLs, each registered once.
use vstd::prelude::*;
use crate::model::{Domain, DomainView};

verus! {

pub open spec fn domain_views(v: Seq<Domain>) -> Seq<DomainView> {
    v.map_values(|d: Domain| d@)
}

pub open spec fn url_views(v: Seq<String>) -> Seq<Seq<char>> {
    v.map_values(|s: String| s@)
}

/// The largest domain id, 0 when there is none.
pub open spec fn max_domain_id(s: Seq<DomainView>) -> u32
    decreases s.len(),
{
    if s.len() == 0 {
        0
    } else {
        let m = max_domain_id(s.drop_last());
        if s.last().id > m {
            s.last().id
        } else {
            m
        }
    }
}

pub open spec fn url_taken(s: Seq<DomainView>, url: Seq<char>) -> bool {
    exists|i: int| 0 <= i < s.len() && (#[trigger] s[i]).url == url
}

/// The domains after registering `urls` in order: a URL already present is
/// skipped, and each new one gets the next id.
pub open spec fn with_urls(s: Seq<DomainView>, urls: Seq<Seq<char>>) -> Seq<DomainView>
    decreases urls.len(),
{
    if urls.len() == 0 {
        s
    } else {
        let l = with_urls(s, urls.drop_last());
        if url_taken(l, urls.last()) {
            l
        } else {
            l.push(DomainView { id: (max_domain_id(l) + 1) as u32, url: urls.last(), group_id: None })
        }
    }
}

pub open spec fn has_id(d: DomainView, id: u32) -> bool {
    d.id == id
}

pub open spec fn other_id(d: DomainView, id: u32) -> bool {
    d.id != id
}

/// `i` is the first domain with id `id`.
pub open spec fn is_first_domain(s: Seq<DomainView>, id: u32, i: int) -> bool {
    0 <= i < s.len() && s[i].id == id && forall|j: int| 0 <= j < i ==> (#[trigger] s[j]).id != id
}

/// Another domain than `id` already has `url`.
pub open spec fn url_used_elsewhere(s: Seq<DomainView>, id: u32, url: Seq<char>) -> bool {
    exists|i: int| 0 <= i < s.len() && (#[trigger] s[i]).id != id && s[i].url == url
}

/// The domains after giving the first domain with id `id` the URL `url`.
pub open spec fn with_url_of(s: Seq<DomainView>, id: u32, url: Seq<char>) -> Seq<DomainView> {
    if exists|i: int| is_first_domain(s, id, i) {
        let i = choose|i: int| is_first_domain(s, id, i);
        s.update(i, DomainView { url, ..s[i] })
    } else {
        s
    }
}

/// Copies of the domains from index `from` on.
fn copy_domains_from(v: &[Domain], from: usize) -> (r: Vec<Domain>)
    requires
        from <= v@.len(),
    ensures
        domain_views(r@) == domain_views(v@).subrange(from as int, v@.len() as int),
{
    let mut out: Vec<Domain> = Vec::new();
    let mut i: usize = from;
    while i < v.len()
        invariant
            from <= i <= v@.len(),
            domain_views(out@) == domain_views(v@).subrange(from as int, i as int),
        decreases v@.len() - i,
    {
        let ghost prev = out@;
        out.push(v[i].copy());
        assert(domain_views(out@) =~= domain_views(prev).push(v@[i as int]@));
        assert(domain_views(v@).subrange(from as int, i + 1) =~= domain_views(v@).subrange(
            from as int,
            i as int,
        ).push(v@[i as int]@));
        i = i + 1;
    }
    out
}

fn select_by_id(v: &[Domain], id: u32, keep_equal: bool) -> (r: Vec<Domain>)
    ensures
        keep_equal ==> domain_views(r@) == domain_views(v@).filter(|d: DomainView| has_id(d, id)),
        !keep_equal ==> domain_views(r@) == domain_views(v@).filter(|d: DomainView| other_id(d, id)),
{
    let ghost all = domain_views(v@);
    let mut out: Vec<Domain> = Vec::new();
    let mut i: usize = 0;
    while i < v.len()
        invariant
            i <= v@.len(),
            all == domain_views(v@),
            keep_equal ==> domain_views(out@) == all.subrange(0, i as int).filter(
                |d: DomainView| has_id(d, id),
            ),
            !keep_equal ==> domain_views(out@) == all.subrange(0, i as int).filter(
                |d: DomainView| other_id(d, id),
            ),
        decreases v@.len() - i,
    {
        proof {
            assert(all.subrange(0, i + 1).drop_last() =~= all.subrange(0, i as int));
            reveal(Seq::filter);
        }
        if (v[i].id == id) == keep_equal {
            out.push(v[i].copy());
            assert(domain_views(out@) =~= domain_views(out@).subrange(0, out@.len() - 1).push(
                v@[i as int]@,
            ));
        }
        i = i + 1;
    }
    assert(all.subrange(0, all.len() as int) =~= all);
    out
}

/// The monitored domains.
pub struct DomainService {
    domains: Vec<Domain>,
}

impl View for DomainService {
    type V = Seq<DomainView>;

    closed spec fn view(&self) -> Seq<DomainView> {
        domain_views(self.domains@)
    }
}

proof fn lemma_max_push(s: Seq<DomainView>, x: DomainView)
    ensures
        max_domain_id(s.push(x)) == if x.id > max_domain_id(s) {
            x.id
        } else {
            max_domain_id(s)
        },
{
    assert(s.push(x).drop_last() =~= s);
}

proof fn lemma_with_urls_prefix(s: Seq<DomainView>, urls: Seq<Seq<char>>, k: int)
    requires
        0 <= k < urls.len(),
    ensures
        with_urls(s, urls.subrange(0, k + 1)) == ({
            let l = with_urls(s, urls.subrange(0, k));
            if url_taken(l, urls[k]) {
                l
            } else {
                l.push(DomainView { id: (max_domain_id(l) + 1) as u32, url: urls[k], group_id: None })
            }
        }),
{
    assert(urls.subrange(0, k + 1).drop_last() =~= urls.subrange(0, k));
}

impl DomainService {
    /// A registry holding `domains`, as loaded from storage.
    pub fn new(domains: Vec<Domain>) -> (s: DomainService)
        ensures
            s@ == domain_views(domains@),
    {
        DomainService { domains }
    }

    /// Registers the URLs not yet present (the first of repeated URLs only);
    /// returns the domains added.
    pub fn add_domains(&mut self, urls: Vec<String>) -> (r: Vec<Domain>)
        requires
            max_domain_id(old(self)@) + urls@.len() < u32::MAX,
        ensures
            final(self)@ == with_urls(old(self)@, url_views(urls@)),
            domain_views(r@) == final(self)@.subrange(old(self)@.len() as int, final(self)@.len() as int),
    {
        let ghost start = domain_views(self.domains@);
        let ghost uv = url_views(urls@);
        let old_len = self.domains.len();
        let mut m: u32 = 0;
        let mut k: usize = 0;
        while k < self.domains.len()
            invariant
                k <= self.domains@.len(),
                start == domain_views(self.domains@),
                m == max_domain_id(start.subrange(0, k as int)),
            decreases self.domains@.len() - k,
        {
            proof {
                assert(start.subrange(0, k + 1).drop_last() =~= start.subrange(0, k as int));
            }
            if self.domains[k].id > m {
                m = self.domains[k].id;
            }
            k = k + 1;
        }
        assert(start.subrange(0, start.len() as int) =~= start);
        let mut i: usize = 0;
        while i < urls.len()
            invariant
                i <= urls@.len(),
                uv == url_views(urls@),
                old_len == start.len(),
                domain_views(self.domains@) == with_urls(start, uv.subrange(0, i as int)),
                m == max_domain_id(domain_views(self.domains@)),
                m <= max_domain_id(start) + i,
                max_domain_id(start) + urls@.len() < u32::MAX,
                self.domains@.len() >= old_len,
            decreases urls@.len() - i,
        {
            proof {
                lemma_with_urls_prefix(start, uv, i as int);
            }
            let ghost cur = domain_views(self.domains@);
            let mut taken = false;
            let mut j: usize = 0;
            while j < self.domains.len()
                invariant
                    j <= self.domains@.len(),
                    cur == domain_views(self.domains@),
                    i < urls@.len(),
                    !taken ==> forall|q: int| 0 <= q < j ==> (#[trigger] cur[q]).url != urls@[i as int]@,
                    taken ==> url_taken(cur, urls@[i as int]@),
                decreases self.domains@.len() - j,
            {
                if self.domains[j].url == urls[i] {
                    taken = true;
                    assert(cur[j as int].url == urls@[i as int]@);
                }
                j = j + 1;
            }
            assert(uv[i as int] == urls@[i as int]@);
            if !taken {
                let d = Domain { id: m + 1, url: urls[i].clone(), group_id: None };
                proof {
                    lemma_max_push(cur, d@);
                }
                self.domains.push(d);
                assert(domain_views(self.domains@) =~= cur.push(d@));
                m = m + 1;
            }
            i = i + 1;
        }
        assert(uv.subrange(0, uv.len() as int) =~= uv);
        copy_domains_from(self.domains.as_slice(), old_len)
    }

    pub fn get_all(&self) -> (r: Vec<Domain>)
        ensures
            domain_views(r@) == self@,
    {
        let r = copy_domains_from(self.domains.as_slice(), 0);
        assert(domain_views(self.domains@).subrange(0, self.domains@.len() as int) =~= self@);
        r
    }

    /// The first domain with id `id`.
    pub fn get_domain_by_id(&self, id: u32) -> (r: Option<Domain>)
        ensures
            match r {
                Some(d) => exists|i: int| is_first_domain(self@, id, i) && d@ == self@[i],
                None => forall|i: int| 0 <= i < self@.len() ==> (#[trigger] self@[i]).id != id,
            },
    {
        let mut i: usize = 0;
        while i < self.domains.len()
            invariant
                i <= self.domains@.len(),
                forall|j: int| 0 <= j < i ==> (#[trigger] domain_views(self.domains@)[j]).id != id,
            decreases self.domains@.len() - i,
        {
            if self.domains[i].id == id {
                let d = self.domains[i].copy();
                assert(is_first_domain(self@, id, i as int));
                return Some(d);
            }
            i = i + 1;
        }
        None
    }

    /// Removes every domain with id `id`; returns the rest.
    pub fn delete_domain(&mut self, id: u32) -> (r: Vec<Domain>)
        ensures
            final(self)@ == old(self)@.filter(|d: DomainView| other_id(d, id)),
            domain_views(r@) == final(self)@,
    {
        self.domains = select_by_id(self.domains.as_slice(), id, false);
        let r = copy_domains_from(self.domains.as_slice(), 0);
        assert(domain_views(self.domains@).subrange(0, self.domains@.len() as int) =~= domain_views(
            self.domains@,
        ));
        r
    }

    /// Gives the first domain with id `id` the URL `url`, unless another
    /// domain has it (then nothing changes and the result is empty). Returns
    /// the domains with id `id`.
    pub fn update_domain(&mut self, id: u32, url: Option<String>) -> (r: Vec<Domain>)
        ensures
            match url {
                Some(u) => if url_used_elsewhere(old(self)@, id, u@) {
                    final(self)@ == old(self)@ && r@.len() == 0
                } else {
                    final(self)@ == with_url_of(old(self)@, id, u@) && domain_views(r@)
                        == final(self)@.filter(|d: DomainView| has_id(d, id))
                },
                None => final(self)@ == old(self)@ && domain_views(r@) == final(self)@.filter(
                    |d: DomainView| has_id(d, id),
                ),
            },
    {
        if let Some(new_url) = url {
            let ghost all = domain_views(self.domains@);
            let mut i: usize = 0;
            while i < self.domains.len()
                invariant
                    i <= self.domains@.len(),
                    all == domain_views(self.domains@),
                    all == old(self)@,
                    self.domains@ == old(self).domains@,
                    url is Some && url.unwrap()@ == new_url@,
                    forall|j: int|
                        0 <= j < i ==> !((#[trigger] all[j]).id != id && all[j].url == new_url@),
                decreases self.domains@.len() - i,
            {
                if self.domains[i].id != id && self.domains[i].url == new_url {
                    assert(all[i as int].id != id && all[i as int].url == new_url@);
                    assert(url_used_elsewhere(all, id, new_url@));
                    return Vec::new();
                }
                i = i + 1;
            }
            assert(!url_used_elsewhere(all, id, new_url@));
            let mut k: usize = 0;
            while k < self.domains.len()
                invariant
                    k <= self.domains@.len(),
                    all == domain_views(self.domains@),
                    all == old(self)@,
                    self.domains@ == old(self).domains@,
                    url is Some && url.unwrap()@ == new_url@,
                    !url_used_elsewhere(all, id, new_url@),
                    forall|j: int| 0 <= j < k ==> (#[trigger] all[j]).id != id,
                decreases self.domains@.len() - k,
            {
                if self.domains[k].id == id {
                    let d = Domain { id, url: new_url, group_id: self.domains[k].group_id };
                    proof {
                        assert(is_first_domain(all, id, k as int));
                        let c = choose|c: int| is_first_domain(all, id, c);
                        if c < k {
                            assert(all[c].id != id);
                        } else if c > k {
                            assert(all[k as int].id != id);
                        }
                        assert(c == k as int);
                        assert(d@ == DomainView { url: d@.url, ..all[k as int] });
                    }
                    self.domains.set(k, d);
                    assert(domain_views(self.domains@) =~= with_url_of(all, id, d@.url));
                    return select_by_id(self.domains.as_slice(), id, true);
                }
                k = k + 1;
            }
            proof {
                if exists|c: int| is_first_domain(all, id, c) {
                    let c = choose|c: int| is_first_domain(all, id, c);
                    assert(all[c].id != id);
                }
            }
        }
        select_by_id(self.domains.as_slice(), id, true)
    }

    /// Replaces every domain (an import); returns them.
    pub fn import_from_json(&mut self, domains: Vec<Domain>) -> (r: Vec<Domain>)
        ensures
            final(self)@ == domain_views(domains@),
            domain_views(r@) == final(self)@,
    {
        self.domains = domains;
        let r = copy_domains_from(self.domains.as_slice(), 0);
        assert(domain_views(self.domains@).subrange(0, self.domains@.len() as int) =~= domain_views(
            self.domains@,
        ));
        r
    }
}

} // verus!
