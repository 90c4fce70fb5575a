//! Saved API test cases, per domain.
use vstd::prelude::*;
use crate::model::{copy_opt, opt_chars};
use crate::text::str_eq;

verus! {

/// A saved request and the status it should get.
#[derive(Clone, Debug)]
pub struct ApiTestCase {
    pub id: String,
    pub domain_id: u32,
    pub name: String,
    pub method: String,
    pub url: String,
    pub headers: Vec<(String, String)>,
    pub body: Option<String>,
    pub expected_status: Option<u16>,
}

pub struct TestCaseView {
    pub id: Seq<char>,
    pub domain_id: u32,
    pub name: Seq<char>,
    pub method: Seq<char>,
    pub url: Seq<char>,
    pub headers: Seq<(Seq<char>, Seq<char>)>,
    pub body: Option<Seq<char>>,
    pub expected_status: Option<u16>,
}

pub open spec fn header_views(h: Seq<(String, String)>) -> Seq<(Seq<char>, Seq<char>)> {
    h.map_values(|p: (String, String)| (p.0@, p.1@))
}

impl View for ApiTestCase {
    type V = TestCaseView;

    open spec fn view(&self) -> TestCaseView {
        TestCaseView {
            id: self.id@,
            domain_id: self.domain_id,
            name: self.name@,
            method: self.method@,
            url: self.url@,
            headers: header_views(self.headers@),
            body: opt_chars(self.body),
            expected_status: self.expected_status,
        }
    }
}

fn copy_headers(h: &Vec<(String, String)>) -> (r: Vec<(String, String)>)
    ensures
        header_views(r@) == header_views(h@),
{
    let mut out: Vec<(String, String)> = Vec::new();
    let mut i: usize = 0;
    while i < h.len()
        invariant
            i <= h@.len(),
            header_views(out@) == header_views(h@).subrange(0, i as int),
        decreases h@.len() - i,
    {
        let ghost prev = out@;
        out.push((h[i].0.clone(), h[i].1.clone()));
        assert(header_views(out@) =~= header_views(prev).push((h@[i as int].0@, h@[i as int].1@)));
        assert(header_views(out@) =~= header_views(h@).subrange(0, i + 1));
        i = i + 1;
    }
    assert(header_views(h@).subrange(0, h@.len() as int) =~= header_views(h@));
    out
}

impl ApiTestCase {
    /// A field-by-field copy.
    pub fn copy(&self) -> (r: ApiTestCase)
        ensures
            r@ == self@,
    {
        ApiTestCase {
            id: self.id.clone(),
            domain_id: self.domain_id,
            name: self.name.clone(),
            method: self.method.clone(),
            url: self.url.clone(),
            headers: copy_headers(&self.headers),
            body: copy_opt(&self.body),
            expected_status: self.expected_status,
        }
    }
}

pub open spec fn case_views(v: Seq<ApiTestCase>) -> Seq<TestCaseView> {
    v.map_values(|t: ApiTestCase| t@)
}

pub open spec fn for_domain(t: TestCaseView, domain_id: u32) -> bool {
    t.domain_id == domain_id
}

/// `i` is the first test case with id `id`.
pub open spec fn is_first_case(s: Seq<TestCaseView>, id: Seq<char>, i: int) -> bool {
    0 <= i < s.len() && s[i].id == id && forall|j: int| 0 <= j < i ==> (#[trigger] s[j]).id != id
}

pub open spec fn has_case(s: Seq<TestCaseView>, id: Seq<char>) -> bool {
    exists|i: int| 0 <= i < s.len() && (#[trigger] s[i]).id == id
}

/// The saved test cases, in order of creation.
pub struct ApiTestCaseService {
    test_cases: Vec<ApiTestCase>,
}

impl View for ApiTestCaseService {
    type V = Seq<TestCaseView>;

    closed spec fn view(&self) -> Seq<TestCaseView> {
        case_views(self.test_cases@)
    }
}

impl ApiTestCaseService {
    /// A registry holding the test cases loaded from storage.
    pub fn new(test_cases: Vec<ApiTestCase>) -> (s: ApiTestCaseService)
        ensures
            s@ == case_views(test_cases@),
    {
        ApiTestCaseService { test_cases }
    }

    /// The test cases whose domain is `domain_id`, or all of them when `domain_id` is `None`.
    fn select(&self, domain_id: Option<u32>) -> (r: Vec<ApiTestCase>)
        ensures
            match domain_id {
                Some(d) => case_views(r@) == self@.filter(|t: TestCaseView| for_domain(t, d)),
                None => case_views(r@) == self@,
            },
    {
        let ghost all = case_views(self.test_cases@);
        let mut out: Vec<ApiTestCase> = Vec::new();
        let mut i: usize = 0;
        while i < self.test_cases.len()
            invariant
                i <= self.test_cases@.len(),
                all == case_views(self.test_cases@),
                match domain_id {
                    Some(d) => case_views(out@) == all.subrange(0, i as int).filter(
                        |t: TestCaseView| for_domain(t, d),
                    ),
                    None => case_views(out@) == all.subrange(0, i as int),
                },
            decreases self.test_cases@.len() - i,
        {
            proof {
                assert(all.subrange(0, i + 1).drop_last() =~= all.subrange(0, i as int));
                reveal(Seq::filter);
            }
            let keep = match domain_id {
                Some(d) => self.test_cases[i].domain_id == d,
                None => true,
            };
            if keep {
                let ghost prev = out@;
                out.push(self.test_cases[i].copy());
                assert(case_views(out@) =~= case_views(prev).push(all[i as int]));
            }
            match domain_id {
                Some(d) => {
                    assert(case_views(out@) =~= all.subrange(0, i + 1).filter(
                        |t: TestCaseView| for_domain(t, d),
                    ));
                },
                None => {
                    assert(case_views(out@) =~= all.subrange(0, i + 1));
                },
            }
            i = i + 1;
        }
        assert(all.subrange(0, all.len() as int) =~= all);
        out
    }

    pub fn get_all(&self) -> (r: Vec<ApiTestCase>)
        ensures
            case_views(r@) == self@,
    {
        self.select(None)
    }

    /// The test cases of a domain, in order.
    pub fn get_for_domain(&self, domain_id: u32) -> (r: Vec<ApiTestCase>)
        ensures
            case_views(r@) == self@.filter(|t: TestCaseView| for_domain(t, domain_id)),
    {
        self.select(Some(domain_id))
    }

    /// Appends a test case.
    pub fn add_test_case(&mut self, test_case: ApiTestCase)
        ensures
            final(self)@ == old(self)@.push(test_case@),
    {
        self.test_cases.push(test_case);
        assert(case_views(self.test_cases@) =~= case_views(old(self).test_cases@).push(test_case@));
    }

    /// Removes the first test case with id `id`; nothing when there is none.
    pub fn remove_test_case(&mut self, id: &str)
        ensures
            has_case(old(self)@, id@) ==> exists|i: int|
                is_first_case(old(self)@, id@, i) && final(self)@ == old(self)@.remove(i),
            !has_case(old(self)@, id@) ==> final(self)@ == old(self)@,
    {
        let ghost all = case_views(self.test_cases@);
        let mut i: usize = 0;
        while i < self.test_cases.len()
            invariant
                i <= self.test_cases@.len(),
                all == case_views(self.test_cases@),
                self.test_cases@ == old(self).test_cases@,
                forall|j: int| 0 <= j < i ==> (#[trigger] all[j]).id != id@,
            decreases self.test_cases@.len() - i,
        {
            if str_eq(self.test_cases[i].id.as_str(), id) {
                self.test_cases.remove(i);
                assert(case_views(self.test_cases@) =~= all.remove(i as int));
                assert(is_first_case(all, id@, i as int));
                return;
            }
            i = i + 1;
        }
    }
}

} // verus!
