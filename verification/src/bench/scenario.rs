//! What is measured: scenarios and the numbers that they share.

use vstd::prelude::*;

use crate::string_map::StringMap;
use crate::text::position_of;

verus! {

/// What a scenario is told while it runs.
#[derive(Debug)]
pub struct BenchContext {
    /// How many request numbers were given out; after the last one they begin
    /// anew.
    pub request_count: u64,
    pub target_qps: u32,
    pub concurrency: u32,
    /// What the command line says to the scenario.
    pub args: StringMap<String>,
}

impl BenchContext {
    /// No request number was given out.
    pub fn new(target_qps: u32, concurrency: u32, args: StringMap<String>) -> (r: Self)
        ensures
            r == (BenchContext { request_count: 0, target_qps, concurrency, args }),
    {
        BenchContext { request_count: 0, target_qps, concurrency, args }
    }

    /// The next request number.
    pub fn next_request_id(&mut self) -> (r: u64)
        ensures
            final(self).request_count == following(old(self).request_count),
            r == old(self).request_count,
            *final(self) == (BenchContext {
                request_count: if old(self).request_count == u64::MAX {
                    0
                } else {
                    (old(self).request_count + 1) as u64
                },
                ..*old(self)
            }),
    {
        let id: u64 = self.request_count;
        self.request_count = self.request_count.wrapping_add(1);
        id
    }
}

/// The names of the scenarios; the scenarios are elsewhere, under their positions.
#[derive(Debug)]
pub struct ScenarioRegistry {
    pub names: Vec<String>,
}

impl ScenarioRegistry {
    /// No scenario.
    pub fn new() -> (r: Self)
        ensures
            r.names@.len() == 0,
    {
        ScenarioRegistry { names: Vec::new() }
    }

    /// Adds a scenario.
    pub fn register(&mut self, name: String)
        ensures
            final(self).names@ == old(self).names@.push(name),
    {
        self.names.push(name);
    }

    /// The position of the first scenario of that name.
    pub fn get(&self, name: &str) -> (r: Option<usize>)
        ensures
            is_place_of(self.names@, name@, r),
            match r {
                Some(i) => i < self.names@.len() && self.names@[i as int]@ == name@ && forall|
                    j: int,
                |
                    0 <= j < i ==> (#[trigger] self.names@[j])@ != name@,
                None => forall|j: int| 0 <= j < self.names@.len() ==> (#[trigger] self.names@[j])@
                    != name@,
            },
    {
        position_of(&self.names, name)
    }

    /// The names, in the order in which they came.
    pub fn list(&self) -> (r: &Vec<String>)
        ensures
            *r == self.names,
    {
        &self.names
    }
}

impl Default for ScenarioRegistry {
    fn default() -> (r: Self)
        ensures
            r.names@.len() == 0,
    {
        Self::new()
    }
}

/// Whether this is where a name is found: at the first place that has it.
pub open spec fn is_place_of(names: Seq<String>, name: Seq<char>, r: Option<usize>) -> bool {
    match r {
        Some(i) => i < names.len() && names[i as int]@ == name && forall|j: int|
            0 <= j < i ==> (#[trigger] names[j])@ != name,
        None => forall|j: int| 0 <= j < names.len() ==> (#[trigger] names[j])@ != name,
    }
}

/// The count of requests after one more.
pub open spec fn following(count: u64) -> u64 {
    if count == u64::MAX {
        0
    } else {
        (count + 1) as u64
    }
}

/// Every name that is there is found, at one place only, and a later scenario of the same
/// name does not take that place.
pub proof fn lemma_first_of_a_name(
    names: Seq<String>,
    more: Seq<String>,
    k: int,
    r: Option<usize>,
    s: Option<usize>,
)
    requires
        0 <= k < names.len(),
        is_place_of(names, names[k]@, r),
        is_place_of(names + more, names[k]@, s),
    ensures
        r is Some && r->0 <= k && names[r->0 as int]@ == names[k]@,
        s == r,
{
    let all = names + more;
    assert(all[k] == names[k]);
    let i = r->0 as int;
    assert(all[i] == names[i]);
    let j = s->0 as int;
    if j < i {
        assert(names[j] == all[j]);
    }
}

/// Each request counts one, and the count begins anew after the largest.
pub proof fn lemma_each_request_counts_one(count: u64)
    ensures
        count < u64::MAX ==> following(count) == count + 1,
        following(u64::MAX) == 0,
{
}

} // verus!
