//! API schemas imported for a domain, and which of them is the domain's latest.
use vstd::prelude::*;
use crate::text::str_eq;

verus! {

/// An imported API description.
#[derive(Clone, Debug)]
pub struct ApiSchema {
    pub id: String,
    pub domain_id: u32,
    pub version: String,
    pub spec: String,
    pub source: String,
    pub fetched_at: i64,
}

/// Which schema is the latest of a domain.
#[derive(Clone, Debug)]
pub struct DomainApiSchemaLink {
    pub domain_id: u32,
    pub schema_id: String,
}

pub struct SchemaView {
    pub id: Seq<char>,
    pub domain_id: u32,
    pub version: Seq<char>,
    pub spec: Seq<char>,
    pub source: Seq<char>,
    pub fetched_at: i64,
}

pub struct SchemaLinkView {
    pub domain_id: u32,
    pub schema_id: Seq<char>,
}

impl View for ApiSchema {
    type V = SchemaView;

    open spec fn view(&self) -> SchemaView {
        SchemaView {
            id: self.id@,
            domain_id: self.domain_id,
            version: self.version@,
            spec: self.spec@,
            source: self.source@,
            fetched_at: self.fetched_at,
        }
    }
}

impl View for DomainApiSchemaLink {
    type V = SchemaLinkView;

    open spec fn view(&self) -> SchemaLinkView {
        SchemaLinkView { domain_id: self.domain_id, schema_id: self.schema_id@ }
    }
}

impl ApiSchema {
    /// A field-by-field copy.
    pub fn copy(&self) -> (r: ApiSchema)
        ensures
            r@ == self@,
    {
        ApiSchema {
            id: self.id.clone(),
            domain_id: self.domain_id,
            version: self.version.clone(),
            spec: self.spec.clone(),
            source: self.source.clone(),
            fetched_at: self.fetched_at,
        }
    }
}

pub open spec fn schema_views(v: Seq<ApiSchema>) -> Seq<SchemaView> {
    v.map_values(|s: ApiSchema| s@)
}

pub open spec fn schema_link_views(v: Seq<DomainApiSchemaLink>) -> Seq<SchemaLinkView> {
    v.map_values(|l: DomainApiSchemaLink| l@)
}

pub open spec fn of_domain(s: SchemaView, domain_id: u32) -> bool {
    s.domain_id == domain_id
}

/// `i` is the first schema with id `id`.
pub open spec fn is_first_schema(s: Seq<SchemaView>, id: Seq<char>, i: int) -> bool {
    0 <= i < s.len() && s[i].id == id && forall|j: int| 0 <= j < i ==> (#[trigger] s[j]).id != id
}

pub open spec fn has_schema(s: Seq<SchemaView>, id: Seq<char>) -> bool {
    exists|i: int| 0 <= i < s.len() && (#[trigger] s[i]).id == id
}

/// `i` is the first link of domain `d`.
pub open spec fn is_first_domain_link(ls: Seq<SchemaLinkView>, d: u32, i: int) -> bool {
    0 <= i < ls.len() && ls[i].domain_id == d && forall|j: int|
        0 <= j < i ==> (#[trigger] ls[j]).domain_id != d
}

pub open spec fn has_domain_link(ls: Seq<SchemaLinkView>, d: u32) -> bool {
    exists|i: int| 0 <= i < ls.len() && (#[trigger] ls[i]).domain_id == d
}

/// The links after `schema` became its domain's latest.
pub open spec fn links_after_add(ls: Seq<SchemaLinkView>, schema: SchemaView) -> Seq<SchemaLinkView> {
    if has_domain_link(ls, schema.domain_id) {
        let i = choose|i: int| is_first_domain_link(ls, schema.domain_id, i);
        ls.update(i, SchemaLinkView { domain_id: schema.domain_id, schema_id: schema.id })
    } else {
        ls.push(SchemaLinkView { domain_id: schema.domain_id, schema_id: schema.id })
    }
}

/// The registry as a mathematical value.
pub struct SchemaRegistryView {
    pub schemas: Seq<SchemaView>,
    pub links: Seq<SchemaLinkView>,
}

/// The imported schemas and each domain's latest.
pub struct ApiSchemaService {
    schemas: Vec<ApiSchema>,
    links: Vec<DomainApiSchemaLink>,
}

impl View for ApiSchemaService {
    type V = SchemaRegistryView;

    closed spec fn view(&self) -> SchemaRegistryView {
        SchemaRegistryView {
            schemas: schema_views(self.schemas@),
            links: schema_link_views(self.links@),
        }
    }
}

fn first_domain_link(ls: &[DomainApiSchemaLink], d: u32) -> (r: Option<usize>)
    ensures
        match r {
            Some(i) => is_first_domain_link(schema_link_views(ls@), d, i as int),
            None => !has_domain_link(schema_link_views(ls@), d),
        },
{
    let mut i: usize = 0;
    while i < ls.len()
        invariant
            i <= ls@.len(),
            forall|j: int| 0 <= j < i ==> (#[trigger] schema_link_views(ls@)[j]).domain_id != d,
        decreases ls@.len() - i,
    {
        if ls[i].domain_id == d {
            return Some(i);
        }
        i = i + 1;
    }
    None
}

fn first_schema(s: &[ApiSchema], id: &str) -> (r: Option<usize>)
    ensures
        match r {
            Some(i) => is_first_schema(schema_views(s@), id@, i as int),
            None => !has_schema(schema_views(s@), id@),
        },
{
    let mut i: usize = 0;
    while i < s.len()
        invariant
            i <= s@.len(),
            forall|j: int| 0 <= j < i ==> (#[trigger] schema_views(s@)[j]).id != id@,
        decreases s@.len() - i,
    {
        if str_eq(s[i].id.as_str(), id) {
            return Some(i);
        }
        i = i + 1;
    }
    None
}

impl ApiSchemaService {
    /// A registry holding the schemas and links loaded from storage.
    pub fn new(schemas: Vec<ApiSchema>, links: Vec<DomainApiSchemaLink>) -> (s: ApiSchemaService)
        ensures
            s@.schemas == schema_views(schemas@),
            s@.links == schema_link_views(links@),
    {
        ApiSchemaService { schemas, links }
    }

    /// Adds a schema and makes it its domain's latest.
    pub fn add_schema(&mut self, schema: ApiSchema)
        ensures
            final(self)@.schemas == old(self)@.schemas.push(schema@),
            final(self)@.links == links_after_add(old(self)@.links, schema@),
            one_link_per_domain(old(self)@.links) ==> one_link_per_domain(final(self)@.links),
    {
        proof {
            if one_link_per_domain(old(self)@.links) {
                lemma_add_keeps_one_link(old(self)@.links, schema@);
            }
        }
        let ghost sv = schema@;
        let ghost old_links = schema_link_views(self.links@);
        let link = DomainApiSchemaLink { domain_id: schema.domain_id, schema_id: schema.id.clone() };
        match first_domain_link(self.links.as_slice(), schema.domain_id) {
            Some(pos) => {
                proof {
                    let c = choose|c: int| is_first_domain_link(old_links, sv.domain_id, c);
                    if c < pos {
                        assert(old_links[c].domain_id != sv.domain_id);
                    } else if c > pos {
                        assert(old_links[pos as int].domain_id != sv.domain_id);
                    }
                    assert(c == pos as int);
                }
                self.links.set(pos, link);
                assert(schema_link_views(self.links@) =~= links_after_add(old_links, sv));
            },
            None => {
                self.links.push(link);
                assert(schema_link_views(self.links@) =~= links_after_add(old_links, sv));
            },
        }
        self.schemas.push(schema);
        assert(schema_views(self.schemas@) =~= schema_views(old(self).schemas@).push(sv));
    }

    /// The schemas of a domain, in order of import.
    pub fn get_schemas_for_domain(&self, domain_id: u32) -> (r: Vec<ApiSchema>)
        ensures
            schema_views(r@) == self@.schemas.filter(|s: SchemaView| of_domain(s, domain_id)),
    {
        let ghost all = schema_views(self.schemas@);
        let mut out: Vec<ApiSchema> = Vec::new();
        let mut i: usize = 0;
        while i < self.schemas.len()
            invariant
                i <= self.schemas@.len(),
                all == schema_views(self.schemas@),
                schema_views(out@) == all.subrange(0, i as int).filter(
                    |s: SchemaView| of_domain(s, domain_id),
                ),
            decreases self.schemas@.len() - i,
        {
            proof {
                assert(all.subrange(0, i + 1).drop_last() =~= all.subrange(0, i as int));
                reveal(Seq::filter);
            }
            if self.schemas[i].domain_id == domain_id {
                out.push(self.schemas[i].copy());
                assert(schema_views(out@) =~= all.subrange(0, i + 1).filter(
                    |s: SchemaView| of_domain(s, domain_id),
                ));
            }
            i = i + 1;
        }
        assert(all.subrange(0, all.len() as int) =~= all);
        out
    }

    /// The first schema with id `id`.
    pub fn get_schema_by_id(&self, id: &str) -> (r: Option<ApiSchema>)
        ensures
            match r {
                Some(s) => exists|i: int| is_first_schema(self@.schemas, id@, i) && s@ == self@.schemas[i],
                None => !has_schema(self@.schemas, id@),
            },
    {
        match first_schema(self.schemas.as_slice(), id) {
            Some(i) => {
                let r = self.schemas[i].copy();
                assert(schema_views(self.schemas@)[i as int] == self.schemas@[i as int]@);
                assert(is_first_schema(self@.schemas, id@, i as int));
                Some(r)
            },
            None => None,
        }
    }

    /// The schema that the domain's first link names, if both exist.
    pub fn get_latest_schema_for_domain(&self, domain_id: u32) -> (r: Option<ApiSchema>)
        ensures
            !has_domain_link(self@.links, domain_id) ==> r is None,
            has_domain_link(self@.links, domain_id) ==> exists|k: int|
                is_first_domain_link(self@.links, domain_id, k) && match r {
                    Some(s) => exists|i: int|
                        is_first_schema(self@.schemas, self@.links[k].schema_id, i) && s@
                            == self@.schemas[i],
                    None => !has_schema(self@.schemas, self@.links[k].schema_id),
                },
    {
        match first_domain_link(self.links.as_slice(), domain_id) {
            Some(k) => self.get_schema_by_id(self.links[k].schema_id.as_str()),
            None => None,
        }
    }

    /// Removes the first schema with id `id`. When it was its domain's
    /// latest, the link moves to the domain's last remaining schema, or goes.
    pub fn remove_schema(&mut self, id: &str)
        ensures
            !has_schema(old(self)@.schemas, id@) ==> final(self)@ == old(self)@,
            has_schema(old(self)@.schemas, id@) ==> exists|i: int|
                is_first_schema(old(self)@.schemas, id@, i) && final(self)@.schemas == old(
                    self,
                )@.schemas.remove(i) && final(self)@.links == links_after_remove(
                    old(self)@.links,
                    final(self)@.schemas,
                    old(self)@.schemas[i],
                ),
            one_link_per_domain(old(self)@.links) ==> one_link_per_domain(final(self)@.links),
    {
        if let Some(pos) = first_schema(self.schemas.as_slice(), id) {
            proof {
                if one_link_per_domain(old(self)@.links) {
                    lemma_remove_keeps_one_link(
                        old(self)@.links,
                        old(self)@.schemas.remove(pos as int),
                        old(self)@.schemas[pos as int],
                    );
                }
            }
            let ghost removed_v = schema_views(self.schemas@)[pos as int];
            let removed = self.schemas.remove(pos);
            assert(schema_views(self.schemas@) =~= schema_views(old(self).schemas@).remove(pos as int));
            let ghost ls = schema_link_views(self.links@);
            let ghost after = schema_views(self.schemas@);
            if let Some(k) = link_to(self.links.as_slice(), removed.domain_id, removed.id.as_str()) {
                proof {
                    let c = choose|c: int| is_first_link_to(ls, removed_v.domain_id, removed_v.id, c);
                    if c < k {
                        assert(!(ls[c].domain_id == removed_v.domain_id && ls[c].schema_id == removed_v.id));
                    } else if c > k {
                        assert(!(ls[k as int].domain_id == removed_v.domain_id && ls[k as int].schema_id
                            == removed_v.id));
                    }
                    assert(c == k as int);
                }
                self.links.remove(k);
                assert(schema_link_views(self.links@) =~= ls.remove(k as int));
                if let Some(j) = last_of_domain(self.schemas.as_slice(), removed.domain_id) {
                    proof {
                        let c = choose|c: int| is_last_of_domain(after, removed_v.domain_id, c);
                        if c < j {
                            assert(after[j as int].domain_id != removed_v.domain_id);
                        } else if c > j {
                            assert(after[c].domain_id != removed_v.domain_id);
                        }
                        assert(c == j as int);
                    }
                    let link = DomainApiSchemaLink {
                        domain_id: removed.domain_id,
                        schema_id: self.schemas[j].id.clone(),
                    };
                    self.links.push(link);
                    assert(schema_link_views(self.links@) =~= links_after_remove(ls, after, removed_v));
                } else {
                    assert(schema_link_views(self.links@) =~= links_after_remove(ls, after, removed_v));
                }
            } else {
                assert(ls =~= links_after_remove(ls, after, removed_v));
            }
        }
    }
}

/// `k` is the first link of domain `d` to schema `id`.
pub open spec fn is_first_link_to(ls: Seq<SchemaLinkView>, d: u32, id: Seq<char>, k: int) -> bool {
    0 <= k < ls.len() && ls[k].domain_id == d && ls[k].schema_id == id && forall|j: int|
        0 <= j < k ==> !((#[trigger] ls[j]).domain_id == d && ls[j].schema_id == id)
}

/// `i` is the last schema of domain `d`.
pub open spec fn is_last_of_domain(s: Seq<SchemaView>, d: u32, i: int) -> bool {
    0 <= i < s.len() && s[i].domain_id == d && forall|j: int|
        i < j < s.len() ==> (#[trigger] s[j]).domain_id != d
}

/// The links after removing schema `removed`: its link, if it was its
/// domain's latest, is replaced by one to the domain's last remaining schema.
pub open spec fn links_after_remove(
    ls: Seq<SchemaLinkView>,
    remaining: Seq<SchemaView>,
    removed: SchemaView,
) -> Seq<SchemaLinkView> {
    if exists|k: int| is_first_link_to(ls, removed.domain_id, removed.id, k) {
        let k = choose|k: int| is_first_link_to(ls, removed.domain_id, removed.id, k);
        let rest = ls.remove(k);
        if exists|i: int| is_last_of_domain(remaining, removed.domain_id, i) {
            let i = choose|i: int| is_last_of_domain(remaining, removed.domain_id, i);
            rest.push(SchemaLinkView { domain_id: removed.domain_id, schema_id: remaining[i].id })
        } else {
            rest
        }
    } else {
        ls
    }
}

fn link_to(ls: &[DomainApiSchemaLink], d: u32, id: &str) -> (r: Option<usize>)
    ensures
        match r {
            Some(k) => is_first_link_to(schema_link_views(ls@), d, id@, k as int),
            None => !exists|k: int| is_first_link_to(schema_link_views(ls@), d, id@, k),
        },
{
    let ghost v = schema_link_views(ls@);
    let mut i: usize = 0;
    while i < ls.len()
        invariant
            i <= ls@.len(),
            v == schema_link_views(ls@),
            forall|j: int| 0 <= j < i ==> !((#[trigger] v[j]).domain_id == d && v[j].schema_id == id@),
        decreases ls@.len() - i,
    {
        if ls[i].domain_id == d && str_eq(ls[i].schema_id.as_str(), id) {
            return Some(i);
        }
        i = i + 1;
    }
    proof {
        assert forall|k: int| !is_first_link_to(v, d, id@, k) by {
            if 0 <= k < v.len() {
                assert(!(v[k].domain_id == d && v[k].schema_id == id@));
            }
        }
    }
    None
}

fn last_of_domain(s: &[ApiSchema], d: u32) -> (r: Option<usize>)
    ensures
        match r {
            Some(i) => is_last_of_domain(schema_views(s@), d, i as int),
            None => !exists|i: int| is_last_of_domain(schema_views(s@), d, i),
        },
{
    let ghost v = schema_views(s@);
    let mut i: usize = s.len();
    while i > 0
        invariant
            i <= s@.len(),
            v == schema_views(s@),
            forall|j: int| i <= j < v.len() ==> (#[trigger] v[j]).domain_id != d,
        decreases i,
    {
        if s[i - 1].domain_id == d {
            return Some(i - 1);
        }
        i = i - 1;
    }
    proof {
        assert forall|k: int| !is_last_of_domain(v, d, k) by {
            if 0 <= k < v.len() {
                assert(v[k].domain_id != d);
            }
        }
    }
    None
}

/// Each domain has at most one link: one latest schema.
pub open spec fn one_link_per_domain(ls: Seq<SchemaLinkView>) -> bool {
    forall|a: int, b: int|
        0 <= a < b < ls.len() ==> (#[trigger] ls[a]).domain_id != (#[trigger] ls[b]).domain_id
}

/// Adding a schema keeps one latest schema per domain.
pub proof fn lemma_add_keeps_one_link(ls: Seq<SchemaLinkView>, schema: SchemaView)
    requires
        one_link_per_domain(ls),
    ensures
        one_link_per_domain(links_after_add(ls, schema)),
{
    let n = links_after_add(ls, schema);
    if has_domain_link(ls, schema.domain_id) {
        let w = choose|w: int| 0 <= w < ls.len() && (#[trigger] ls[w]).domain_id == schema.domain_id;
        assert forall|j: int| 0 <= j < w implies (#[trigger] ls[j]).domain_id != schema.domain_id by {
            assert(ls[j].domain_id != ls[w].domain_id);
        }
        assert(is_first_domain_link(ls, schema.domain_id, w));
        let i = choose|i: int| is_first_domain_link(ls, schema.domain_id, i);
        assert forall|a: int, b: int| 0 <= a < b < n.len() implies (#[trigger] n[a]).domain_id
            != (#[trigger] n[b]).domain_id by {
            assert(n[a].domain_id == ls[a].domain_id);
            assert(n[b].domain_id == ls[b].domain_id);
        }
    } else {
        assert forall|a: int, b: int| 0 <= a < b < n.len() implies (#[trigger] n[a]).domain_id
            != (#[trigger] n[b]).domain_id by {
            if b == ls.len() {
                assert(n[a] == ls[a]);
                assert(ls[a].domain_id != schema.domain_id);
            } else {
                assert(n[a] == ls[a] && n[b] == ls[b]);
            }
        }
    }
}

/// Removing a schema keeps one latest schema per domain: when the removed
/// schema was its domain's latest, its link goes, and at most one new link
/// for that domain comes.
pub proof fn lemma_remove_keeps_one_link(
    ls: Seq<SchemaLinkView>,
    remaining: Seq<SchemaView>,
    removed: SchemaView,
)
    requires
        one_link_per_domain(ls),
    ensures
        one_link_per_domain(links_after_remove(ls, remaining, removed)),
{
    if exists|k: int| is_first_link_to(ls, removed.domain_id, removed.id, k) {
        let k = choose|k: int| is_first_link_to(ls, removed.domain_id, removed.id, k);
        let rest = ls.remove(k);
        assert forall|a: int, b: int| 0 <= a < b < rest.len() implies (#[trigger] rest[a]).domain_id
            != (#[trigger] rest[b]).domain_id by {
            let a0 = if a < k { a } else { a + 1 };
            let b0 = if b < k { b } else { b + 1 };
            assert(rest[a] == ls[a0] && rest[b] == ls[b0]);
        }
        assert forall|a: int| 0 <= a < rest.len() implies (#[trigger] rest[a]).domain_id
            != removed.domain_id by {
            let a0 = if a < k { a } else { a + 1 };
            assert(rest[a] == ls[a0]);
            if a0 < k {
                assert(ls[a0].domain_id != ls[k].domain_id);
            } else {
                assert(ls[k].domain_id != ls[a0].domain_id);
            }
        }
        if exists|i: int| is_last_of_domain(remaining, removed.domain_id, i) {
            let i = choose|i: int| is_last_of_domain(remaining, removed.domain_id, i);
            let n = rest.push(SchemaLinkView { domain_id: removed.domain_id, schema_id: remaining[i].id });
            assert forall|a: int, b: int| 0 <= a < b < n.len() implies (#[trigger] n[a]).domain_id
                != (#[trigger] n[b]).domain_id by {
                assert(n[a] == rest[a]);
                if b < rest.len() {
                    assert(n[b] == rest[b]);
                }
            }
        }
    }
}

} // verus!
