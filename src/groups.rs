//! Domain groups, and the links between domains and groups.
use vstd::prelude::*;
use crate::model::{DomainGroup, DomainGroupLink};

verus! {

/// A group as a mathematical value.
pub struct GroupView {
    pub id: u32,
    pub name: Seq<char>,
}

impl View for DomainGroup {
    type V = GroupView;

    open spec fn view(&self) -> GroupView {
        GroupView { id: self.id, name: self.name@ }
    }
}

impl DomainGroup {
    /// A field-by-field copy.
    pub fn copy(&self) -> (r: DomainGroup)
        ensures
            r@ == self@,
    {
        DomainGroup { id: self.id, name: self.name.clone() }
    }
}

pub open spec fn group_views(v: Seq<DomainGroup>) -> Seq<GroupView> {
    v.map_values(|g: DomainGroup| g@)
}

/// The largest group id, 0 when there is none.
pub open spec fn max_group_id(s: Seq<GroupView>) -> u32
    decreases s.len(),
{
    if s.len() == 0 {
        0
    } else {
        let m = max_group_id(s.drop_last());
        if s.last().id > m {
            s.last().id
        } else {
            m
        }
    }
}

proof fn lemma_max_group_id(s: Seq<GroupView>)
    ensures
        forall|i: int| 0 <= i < s.len() ==> (#[trigger] s[i]).id <= max_group_id(s),
    decreases s.len(),
{
    if s.len() > 0 {
        lemma_max_group_id(s.drop_last());
        assert forall|i: int| 0 <= i < s.len() implies (#[trigger] s[i]).id <= max_group_id(s) by {
            if i < s.len() - 1 {
                assert(s[i] == s.drop_last()[i]);
            }
        }
    }
}

pub open spec fn other_group(g: GroupView, id: u32) -> bool {
    g.id != id
}

/// The groups after renaming the first group with id `id`.
pub open spec fn renamed(s: Seq<GroupView>, id: u32, name: Seq<char>) -> Seq<GroupView> {
    if exists|i: int| is_first_group(s, id, i) {
        s.update(choose|i: int| is_first_group(s, id, i), GroupView { id, name })
    } else {
        s
    }
}

/// `i` is the first group with id `id`.
pub open spec fn is_first_group(s: Seq<GroupView>, id: u32, i: int) -> bool {
    0 <= i < s.len() && s[i].id == id && forall|j: int| 0 <= j < i ==> (#[trigger] s[j]).id != id
}

/// Copies of the groups, in order.
fn copy_groups(v: &[DomainGroup]) -> (r: Vec<DomainGroup>)
    ensures
        group_views(r@) == group_views(v@),
{
    let mut out: Vec<DomainGroup> = Vec::new();
    let mut i: usize = 0;
    while i < v.len()
        invariant
            i <= v@.len(),
            group_views(out@) == group_views(v@.subrange(0, i as int)),
        decreases v@.len() - i,
    {
        out.push(v[i].copy());
        proof {
            assert(group_views(v@.subrange(0, i + 1)) =~= group_views(v@.subrange(0, i as int)).push(
                v@[i as int]@,
            ));
            assert(group_views(out@) =~= group_views(v@.subrange(0, i + 1)));
        }
        i = i + 1;
    }
    assert(v@.subrange(0, v@.len() as int) =~= v@);
    out
}

/// The groups of domains.
pub struct DomainGroupService {
    groups: Vec<DomainGroup>,
}

impl View for DomainGroupService {
    type V = Seq<GroupView>;

    closed spec fn view(&self) -> Seq<GroupView> {
        group_views(self.groups@)
    }
}

impl DomainGroupService {
    /// A registry holding `groups`, as loaded from storage.
    pub fn new(groups: Vec<DomainGroup>) -> (s: DomainGroupService)
        ensures
            s@ == group_views(groups@),
    {
        DomainGroupService { groups }
    }

    /// Adds a group whose id is one more than the largest so far; returns all groups.
    pub fn add_group(&mut self, name: String) -> (r: Vec<DomainGroup>)
        requires
            max_group_id(old(self)@) < u32::MAX,
        ensures
            final(self)@ == old(self)@.push(
                GroupView { id: (max_group_id(old(self)@) + 1) as u32, name: name@ },
            ),
            forall|i: int| 0 <= i < old(self)@.len() ==> (#[trigger] old(self)@[i]).id < max_group_id(
                old(self)@,
            ) + 1,
            group_views(r@) == final(self)@,
    {
        let ghost before = group_views(self.groups@);
        let mut m: u32 = 0;
        let mut i: usize = 0;
        while i < self.groups.len()
            invariant
                i <= self.groups@.len(),
                before == group_views(self.groups@),
                m == max_group_id(before.subrange(0, i as int)),
            decreases self.groups@.len() - i,
        {
            proof {
                assert(before.subrange(0, i + 1).drop_last() =~= before.subrange(0, i as int));
            }
            if self.groups[i].id > m {
                m = self.groups[i].id;
            }
            i = i + 1;
        }
        proof {
            assert(before.subrange(0, before.len() as int) =~= before);
            lemma_max_group_id(before);
        }
        let ghost nv = GroupView { id: (m + 1) as u32, name: name@ };
        self.groups.push(DomainGroup { id: m + 1, name });
        assert(group_views(self.groups@) =~= before.push(nv));
        copy_groups(self.groups.as_slice())
    }

    pub fn get_all(&self) -> (r: Vec<DomainGroup>)
        ensures
            group_views(r@) == self@,
    {
        copy_groups(self.groups.as_slice())
    }

    /// Removes every group with id `id`; returns the rest.
    pub fn delete_group(&mut self, id: u32) -> (r: Vec<DomainGroup>)
        ensures
            final(self)@ == old(self)@.filter(|g: GroupView| other_group(g, id)),
            group_views(r@) == final(self)@,
    {
        let ghost all = group_views(self.groups@);
        let mut kept: Vec<DomainGroup> = Vec::new();
        let mut i: usize = 0;
        while i < self.groups.len()
            invariant
                i <= self.groups@.len(),
                all == group_views(self.groups@),
                group_views(kept@) == all.subrange(0, i as int).filter(
                    |g: GroupView| other_group(g, id),
                ),
            decreases self.groups@.len() - i,
        {
            proof {
                assert(all.subrange(0, i + 1).drop_last() =~= all.subrange(0, i as int));
                reveal(Seq::filter);
            }
            if self.groups[i].id != id {
                kept.push(self.groups[i].copy());
                assert(group_views(kept@) =~= all.subrange(0, i + 1).filter(
                    |g: GroupView| other_group(g, id),
                ));
            }
            i = i + 1;
        }
        assert(all.subrange(0, all.len() as int) =~= all);
        self.groups = kept;
        copy_groups(self.groups.as_slice())
    }

    /// Renames the first group with id `id`; returns all groups.
    pub fn update_group(&mut self, id: u32, name: String) -> (r: Vec<DomainGroup>)
        ensures
            final(self)@ == renamed(old(self)@, id, name@),
            group_views(r@) == final(self)@,
    {
        let ghost all = group_views(self.groups@);
        let mut i: usize = 0;
        while i < self.groups.len()
            invariant
                i <= self.groups@.len(),
                all == group_views(self.groups@),
                all == old(self)@,
                self.groups@ == old(self).groups@,
                forall|j: int| 0 <= j < i ==> (#[trigger] all[j]).id != id,
            decreases self.groups@.len() - i,
        {
            if self.groups[i].id == id {
                let ghost nv = GroupView { id, name: name@ };
                proof {
                    assert(is_first_group(all, id, i as int));
                    let c = choose|c: int| is_first_group(all, id, c);
                    if c < i {
                        assert(all[c].id != id);
                    } else if c > i {
                        assert(all[i as int].id != id);
                    }
                    assert(c == i as int);
                }
                self.groups.set(i, DomainGroup { id, name });
                assert(group_views(self.groups@) =~= all.update(i as int, nv));
                return copy_groups(self.groups.as_slice());
            }
            i = i + 1;
        }
        proof {
            if exists|c: int| is_first_group(all, id, c) {
                let c = choose|c: int| is_first_group(all, id, c);
                assert(all[c].id != id);
            }
        }
        copy_groups(self.groups.as_slice())
    }

    /// Replaces every group (an import); returns them.
    pub fn replace_all(&mut self, groups: Vec<DomainGroup>) -> (r: Vec<DomainGroup>)
        ensures
            final(self)@ == group_views(groups@),
            group_views(r@) == final(self)@,
    {
        self.groups = groups;
        copy_groups(self.groups.as_slice())
    }
}

/// Which side of a link a key names.
pub open spec fn key_of(l: DomainGroupLink, by_group: bool) -> u32 {
    if by_group {
        l.group_id
    } else {
        l.domain_id
    }
}

pub open spec fn in_key(l: DomainGroupLink, key: u32, by_group: bool) -> bool {
    key_of(l, by_group) == key
}

pub open spec fn out_key(l: DomainGroupLink, key: u32, by_group: bool) -> bool {
    key_of(l, by_group) != key
}

pub open spec fn link_domain(l: DomainGroupLink) -> u32 {
    l.domain_id
}

pub open spec fn link_group(l: DomainGroupLink) -> u32 {
    l.group_id
}

/// The links whose key (group or domain) is, or is not, `key`.
fn select_links(v: &Vec<DomainGroupLink>, key: u32, by_group: bool, keep_equal: bool) -> (r: Vec<
    DomainGroupLink,
>)
    ensures
        keep_equal ==> r@ == v@.filter(|l: DomainGroupLink| in_key(l, key, by_group)),
        !keep_equal ==> r@ == v@.filter(|l: DomainGroupLink| out_key(l, key, by_group)),
{
    let mut out: Vec<DomainGroupLink> = Vec::new();
    let mut i: usize = 0;
    while i < v.len()
        invariant
            i <= v@.len(),
            keep_equal ==> out@ == v@.subrange(0, i as int).filter(
                |l: DomainGroupLink| in_key(l, key, by_group),
            ),
            !keep_equal ==> out@ == v@.subrange(0, i as int).filter(
                |l: DomainGroupLink| out_key(l, key, by_group),
            ),
        decreases v@.len() - i,
    {
        proof {
            assert(v@.subrange(0, i + 1).drop_last() =~= v@.subrange(0, i as int));
            reveal(Seq::filter);
        }
        let l = v[i];
        let k = if by_group {
            l.group_id
        } else {
            l.domain_id
        };
        if (k == key) == keep_equal {
            out.push(l);
        }
        i = i + 1;
    }
    assert(v@.subrange(0, v@.len() as int) =~= v@);
    out
}

/// The links between domains and groups.
pub struct DomainGroupLinkService {
    links: Vec<DomainGroupLink>,
}

impl View for DomainGroupLinkService {
    type V = Seq<DomainGroupLink>;

    closed spec fn view(&self) -> Seq<DomainGroupLink> {
        self.links@
    }
}

pub open spec fn links_to_group(ids: Seq<u32>, group_id: u32) -> Seq<DomainGroupLink> {
    ids.map_values(|d: u32| DomainGroupLink { domain_id: d, group_id })
}

pub open spec fn links_to_domain(ids: Seq<u32>, domain_id: u32) -> Seq<DomainGroupLink> {
    ids.map_values(|g: u32| DomainGroupLink { domain_id, group_id: g })
}

impl DomainGroupLinkService {
    /// A registry holding `links`, as loaded from storage.
    pub fn new(links: Vec<DomainGroupLink>) -> (s: DomainGroupLinkService)
        ensures
            s@ == links@,
    {
        DomainGroupLinkService { links }
    }

    /// The domains of a group, in link order.
    pub fn get_domain_ids_for_group(&self, group_id: u32) -> (r: Vec<u32>)
        ensures
            r@ == self@.filter(|l: DomainGroupLink| in_key(l, group_id, true)).map_values(
                |l: DomainGroupLink| link_domain(l),
            ),
    {
        let sel = select_links(&self.links, group_id, true, true);
        let mut out: Vec<u32> = Vec::new();
        let mut i: usize = 0;
        while i < sel.len()
            invariant
                i <= sel@.len(),
                out@ == sel@.subrange(0, i as int).map_values(|l: DomainGroupLink| link_domain(l)),
            decreases sel@.len() - i,
        {
            out.push(sel[i].domain_id);
            assert(out@ =~= sel@.subrange(0, i + 1).map_values(|l: DomainGroupLink| link_domain(l)));
            i = i + 1;
        }
        assert(sel@.subrange(0, sel@.len() as int) =~= sel@);
        out
    }

    /// The groups of a domain, in link order.
    pub fn get_group_ids_for_domain(&self, domain_id: u32) -> (r: Vec<u32>)
        ensures
            r@ == self@.filter(|l: DomainGroupLink| in_key(l, domain_id, false)).map_values(
                |l: DomainGroupLink| link_group(l),
            ),
    {
        let sel = select_links(&self.links, domain_id, false, true);
        let mut out: Vec<u32> = Vec::new();
        let mut i: usize = 0;
        while i < sel.len()
            invariant
                i <= sel@.len(),
                out@ == sel@.subrange(0, i as int).map_values(|l: DomainGroupLink| link_group(l)),
            decreases sel@.len() - i,
        {
            out.push(sel[i].group_id);
            assert(out@ =~= sel@.subrange(0, i + 1).map_values(|l: DomainGroupLink| link_group(l)));
            i = i + 1;
        }
        assert(sel@.subrange(0, sel@.len() as int) =~= sel@);
        out
    }

    pub fn get_all_links(&self) -> (r: Vec<DomainGroupLink>)
        ensures
            r@ == self@,
    {
        let mut out: Vec<DomainGroupLink> = Vec::new();
        let mut i: usize = 0;
        while i < self.links.len()
            invariant
                i <= self.links@.len(),
                out@ == self.links@.subrange(0, i as int),
            decreases self.links@.len() - i,
        {
            out.push(self.links[i]);
            assert(out@ =~= self.links@.subrange(0, i + 1));
            i = i + 1;
        }
        assert(self.links@.subrange(0, self.links@.len() as int) =~= self.links@);
        out
    }

    /// Makes `domain_ids`, in order, the domains of a group.
    pub fn set_domains_for_group(&mut self, group_id: u32, domain_ids: Vec<u32>)
        ensures
            final(self)@ == old(self)@.filter(|l: DomainGroupLink| out_key(l, group_id, true))
                + links_to_group(domain_ids@, group_id),
    {
        let mut list = select_links(&self.links, group_id, true, false);
        let ghost kept = list@;
        let mut i: usize = 0;
        while i < domain_ids.len()
            invariant
                i <= domain_ids@.len(),
                list@ == kept + links_to_group(domain_ids@.subrange(0, i as int), group_id),
            decreases domain_ids@.len() - i,
        {
            list.push(DomainGroupLink { domain_id: domain_ids[i], group_id });
            assert(links_to_group(domain_ids@.subrange(0, i + 1), group_id) =~= links_to_group(
                domain_ids@.subrange(0, i as int),
                group_id,
            ).push(DomainGroupLink { domain_id: domain_ids@[i as int], group_id }));
            assert(list@ =~= kept + links_to_group(domain_ids@.subrange(0, i + 1), group_id));
            i = i + 1;
        }
        assert(domain_ids@.subrange(0, domain_ids@.len() as int) =~= domain_ids@);
        self.links = list;
    }

    /// Makes `group_ids`, in order, the groups of a domain.
    pub fn set_groups_for_domain(&mut self, domain_id: u32, group_ids: Vec<u32>)
        ensures
            final(self)@ == old(self)@.filter(|l: DomainGroupLink| out_key(l, domain_id, false))
                + links_to_domain(group_ids@, domain_id),
    {
        let mut list = select_links(&self.links, domain_id, false, false);
        let ghost kept = list@;
        let mut i: usize = 0;
        while i < group_ids.len()
            invariant
                i <= group_ids@.len(),
                list@ == kept + links_to_domain(group_ids@.subrange(0, i as int), domain_id),
            decreases group_ids@.len() - i,
        {
            list.push(DomainGroupLink { domain_id, group_id: group_ids[i] });
            assert(links_to_domain(group_ids@.subrange(0, i + 1), domain_id) =~= links_to_domain(
                group_ids@.subrange(0, i as int),
                domain_id,
            ).push(DomainGroupLink { domain_id, group_id: group_ids@[i as int] }));
            assert(list@ =~= kept + links_to_domain(group_ids@.subrange(0, i + 1), domain_id));
            i = i + 1;
        }
        assert(group_ids@.subrange(0, group_ids@.len() as int) =~= group_ids@);
        self.links = list;
    }

    pub fn remove_links_for_domain(&mut self, domain_id: u32)
        ensures
            final(self)@ == old(self)@.filter(|l: DomainGroupLink| out_key(l, domain_id, false)),
    {
        self.links = select_links(&self.links, domain_id, false, false);
    }

    pub fn remove_links_for_group(&mut self, group_id: u32)
        ensures
            final(self)@ == old(self)@.filter(|l: DomainGroupLink| out_key(l, group_id, true)),
    {
        self.links = select_links(&self.links, group_id, true, false);
    }

    /// Links a domain to a group unless that link already exists.
    pub fn add_domain_to_group(&mut self, domain_id: u32, group_id: u32)
        ensures
            old(self)@.contains(DomainGroupLink { domain_id, group_id }) ==> final(self)@ == old(
                self,
            )@,
            !old(self)@.contains(DomainGroupLink { domain_id, group_id }) ==> final(self)@ == old(
                self,
            )@.push(DomainGroupLink { domain_id, group_id }),
    {
        let link = DomainGroupLink { domain_id, group_id };
        let mut i: usize = 0;
        while i < self.links.len()
            invariant
                i <= self.links@.len(),
                self.links@ == old(self).links@,
                link == (DomainGroupLink { domain_id, group_id }),
                forall|j: int| 0 <= j < i ==> self.links@[j] != link,
            decreases self.links@.len() - i,
        {
            if self.links[i] == link {
                assert(old(self)@[i as int] == link);
                assert(old(self)@.contains(link));
                return;
            }
            i = i + 1;
        }
        self.links.push(link);
    }

    /// Replaces every link (an import).
    pub fn replace_all(&mut self, links: Vec<DomainGroupLink>)
        ensures
            final(self)@ == links@,
    {
        self.links = links;
    }
}

} // verus!
