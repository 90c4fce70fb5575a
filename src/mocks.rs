//! The mock registry: canned responses, matched on host, path and method.
use vstd::prelude::*;
use crate::model::{ApiMock, MockView};
use crate::text::{eq_ic, eq_ignore_case, str_eq};

verus! {

/// The mock answers a request for `host`, `path` (with its query) and `method`:
/// it is enabled, and host and method agree up to ASCII case, the path exactly.
pub open spec fn mock_matches(m: MockView, host: Seq<char>, path: Seq<char>, method: Seq<char>) -> bool {
    m.enabled && eq_ic(m.host, host) && m.path == path && eq_ic(m.method, method)
}

pub open spec fn any_mock_matches(
    ms: Seq<MockView>,
    host: Seq<char>,
    path: Seq<char>,
    method: Seq<char>,
) -> bool {
    exists|i: int| 0 <= i < ms.len() && mock_matches(#[trigger] ms[i], host, path, method)
}

/// `i` is the first mock that answers the request.
pub open spec fn is_first_mock(
    ms: Seq<MockView>,
    host: Seq<char>,
    path: Seq<char>,
    method: Seq<char>,
    i: int,
) -> bool {
    &&& 0 <= i < ms.len()
    &&& mock_matches(ms[i], host, path, method)
    &&& forall|j: int| 0 <= j < i ==> !mock_matches(#[trigger] ms[j], host, path, method)
}

/// Index of the first mock whose id is `id`.
pub open spec fn is_first_id(ms: Seq<MockView>, id: Seq<char>, i: int) -> bool {
    &&& 0 <= i < ms.len()
    &&& ms[i].id == id
    &&& forall|j: int| 0 <= j < i ==> (#[trigger] ms[j]).id != id
}

pub open spec fn has_id(ms: Seq<MockView>, id: Seq<char>) -> bool {
    exists|i: int| 0 <= i < ms.len() && (#[trigger] ms[i]).id == id
}

pub open spec fn views_of(v: Seq<ApiMock>) -> Seq<MockView> {
    v.map_values(|m: ApiMock| m@)
}

/// The mocks, in the order in which they were added.
pub struct ApiMockService {
    mocks: Vec<ApiMock>,
}

impl View for ApiMockService {
    type V = Seq<MockView>;

    closed spec fn view(&self) -> Seq<MockView> {
        views_of(self.mocks@)
    }
}

/// Copies of the mocks, in order.
fn copy_all(v: &Vec<ApiMock>) -> (r: Vec<ApiMock>)
    ensures
        views_of(r@) == views_of(v@),
{
    let mut out: Vec<ApiMock> = Vec::new();
    let mut i: usize = 0;
    while i < v.len()
        invariant
            i <= v@.len(),
            views_of(out@) == views_of(v@.subrange(0, i as int)),
        decreases v@.len() - i,
    {
        out.push(v[i].copy());
        proof {
            assert(views_of(v@.subrange(0, i + 1)) =~= views_of(v@.subrange(0, i as int)).push(
                v@[i as int]@,
            ));
            assert(views_of(out@) =~= views_of(v@.subrange(0, i + 1)));
        }
        i = i + 1;
    }
    assert(v@.subrange(0, v@.len() as int) =~= v@);
    out
}

fn position_of_id(v: &Vec<ApiMock>, id: &str) -> (r: Option<usize>)
    ensures
        match r {
            Some(i) => is_first_id(views_of(v@), id@, i as int),
            None => !has_id(views_of(v@), id@),
        },
{
    let mut i: usize = 0;
    while i < v.len()
        invariant
            i <= v@.len(),
            forall|j: int| 0 <= j < i ==> (#[trigger] views_of(v@)[j]).id != id@,
        decreases v@.len() - i,
    {
        if str_eq(v[i].id.as_str(), id) {
            return Some(i);
        }
        i = i + 1;
    }
    None
}

impl ApiMockService {
    /// A registry holding `mocks`, as loaded from storage.
    pub fn new(mocks: Vec<ApiMock>) -> (s: ApiMockService)
        ensures
            s@ == views_of(mocks@),
    {
        ApiMockService { mocks }
    }

    pub fn get_all(&self) -> (r: Vec<ApiMock>)
        ensures
            views_of(r@) == self@,
    {
        copy_all(&self.mocks)
    }

    /// Appends a mock.
    pub fn add_mock(&mut self, mock: ApiMock)
        ensures
            final(self)@ == old(self)@.push(mock@),
    {
        self.mocks.push(mock);
        assert(views_of(self.mocks@) =~= views_of(old(self).mocks@).push(mock@));
    }

    /// Replaces the first mock with the same id; does nothing when there is none.
    pub fn update_mock(&mut self, mock: ApiMock)
        ensures
            has_id(old(self)@, mock@.id) ==> exists|i: int|
                is_first_id(old(self)@, mock@.id, i) && final(self)@ == old(self)@.update(
                    i,
                    mock@,
                ),
            !has_id(old(self)@, mock@.id) ==> final(self)@ == old(self)@,
    {
        if let Some(pos) = position_of_id(&self.mocks, mock.id.as_str()) {
            self.mocks.set(pos, mock);
            assert(views_of(self.mocks@) =~= views_of(old(self).mocks@).update(pos as int, mock@));
        }
    }

    /// Removes the first mock whose id is `id`; does nothing when there is none.
    pub fn remove_mock(&mut self, id: &str)
        ensures
            has_id(old(self)@, id@) ==> exists|i: int|
                is_first_id(old(self)@, id@, i) && final(self)@ == old(self)@.remove(i),
            !has_id(old(self)@, id@) ==> final(self)@ == old(self)@,
    {
        if let Some(pos) = position_of_id(&self.mocks, id) {
            self.mocks.remove(pos);
            assert(views_of(self.mocks@) =~= views_of(old(self).mocks@).remove(pos as int));
        }
    }

    /// The first enabled mock that answers a request for `host`, `path` and `method`.
    pub fn match_mock(&self, host: &str, path: &str, method: &str) -> (r: Option<ApiMock>)
        ensures
            match r {
                Some(m) => exists|i: int|
                    is_first_mock(self@, host@, path@, method@, i) && m@ == self@[i],
                None => !any_mock_matches(self@, host@, path@, method@),
            },
    {
        let mut i: usize = 0;
        while i < self.mocks.len()
            invariant
                i <= self.mocks@.len(),
                forall|j: int|
                    0 <= j < i ==> !mock_matches(
                        #[trigger] views_of(self.mocks@)[j],
                        host@,
                        path@,
                        method@,
                    ),
            decreases self.mocks@.len() - i,
        {
            let m = &self.mocks[i];
            if m.enabled && eq_ignore_case(m.host.as_str(), host) && str_eq(m.path.as_str(), path)
                && eq_ignore_case(m.method.as_str(), method) {
                let r = m.copy();
                proof {
                    assert(views_of(self.mocks@)[i as int] == self.mocks@[i as int]@);
                    assert(is_first_mock(self@, host@, path@, method@, i as int));
                }
                return Some(r);
            }
            i = i + 1;
        }
        None
    }
}

} // verus!
