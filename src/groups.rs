//! The table of chat groups by name. Groups are made on first use and
//! never removed, and a name never stands for two groups.

use vstd::prelude::*;

verus! {

/// A registry as names and the groups they stand for, in order of creation.
pub ghost struct GroupsView<G> {
    pub names: Seq<Seq<char>>,
    pub groups: Seq<G>,
}

/// No name appears twice.
pub open spec fn unique_names(names: Seq<Seq<char>>) -> bool {
    forall|i: int, j: int| 0 <= i < j < names.len() ==> names[i] != names[j]
}

pub open spec fn groups_wf<G>(v: GroupsView<G>) -> bool {
    &&& v.names.len() == v.groups.len()
    &&& unique_names(v.names)
}

/// The registry after a group named `name` is asked for, with `fresh` as
/// the group to register if there is none of that name yet.
pub open spec fn get_or_create_spec<G>(v: GroupsView<G>, name: Seq<char>, fresh: G) -> GroupsView<G> {
    if v.names.contains(name) {
        v
    } else {
        GroupsView { names: v.names.push(name), groups: v.groups.push(fresh) }
    }
}

/// The registry after each of `calls` (a name and a fresh group) in turn.
pub open spec fn run<G>(v: GroupsView<G>, calls: Seq<(Seq<char>, G)>) -> GroupsView<G>
    decreases calls.len(),
{
    if calls.len() == 0 {
        v
    } else {
        get_or_create_spec(run(v, calls.drop_last()), calls.last().0, calls.last().1)
    }
}

/// `a` is the start of `b`: what `a` registered, `b` holds at the same places.
pub open spec fn extends<G>(b: GroupsView<G>, a: GroupsView<G>) -> bool {
    &&& a.names.len() <= b.names.len()
    &&& a.groups.len() <= b.groups.len()
    &&& b.names.take(a.names.len() as int) == a.names
    &&& b.groups.take(a.groups.len() as int) == a.groups
}

proof fn lemma_step_extends<G>(v: GroupsView<G>, name: Seq<char>, fresh: G)
    requires
        groups_wf(v),
    ensures
        groups_wf(get_or_create_spec(v, name, fresh)),
        extends(get_or_create_spec(v, name, fresh), v),
        get_or_create_spec(v, name, fresh).names.contains(name),
{
    let w = get_or_create_spec(v, name, fresh);
    if !v.names.contains(name) {
        assert(w.names.take(v.names.len() as int) =~= v.names);
        assert(w.groups.take(v.groups.len() as int) =~= v.groups);
        assert(w.names[v.names.len() as int] == name);
    } else {
        assert(w.names.take(v.names.len() as int) =~= v.names);
        assert(w.groups.take(v.groups.len() as int) =~= v.groups);
    }
}

proof fn lemma_run_extends<G>(v: GroupsView<G>, calls: Seq<(Seq<char>, G)>, k: int)
    requires
        groups_wf(v),
        0 <= k <= calls.len(),
    ensures
        groups_wf(run(v, calls)),
        groups_wf(run(v, calls.take(k))),
        extends(run(v, calls), run(v, calls.take(k))),
    decreases calls.len(),
{
    if calls.len() == 0 {
        assert(calls.take(k) =~= calls);
        lemma_extends_refl(v);
    } else if k == calls.len() {
        assert(calls.take(k) =~= calls);
        lemma_run_extends(v, calls.drop_last(), 0);
        lemma_step_extends(run(v, calls.drop_last()), calls.last().0, calls.last().1);
        lemma_extends_refl(run(v, calls));
    } else {
        assert(calls.drop_last().take(k) =~= calls.take(k));
        lemma_run_extends(v, calls.drop_last(), k);
        let mid = run(v, calls.drop_last());
        lemma_step_extends(mid, calls.last().0, calls.last().1);
        let a = run(v, calls.take(k));
        let b = run(v, calls);
        assert(b.names.take(a.names.len() as int) =~= b.names.take(mid.names.len() as int).take(
            a.names.len() as int,
        ));
        assert(b.groups.take(a.groups.len() as int) =~= b.groups.take(
            mid.groups.len() as int,
        ).take(a.groups.len() as int));
    }
}

proof fn lemma_extends_refl<G>(v: GroupsView<G>)
    ensures
        extends(v, v),
{
    assert(v.names.take(v.names.len() as int) =~= v.names);
    assert(v.groups.take(v.groups.len() as int) =~= v.groups);
}

/// However calls for groups interleave, every call for the same name gets
/// the same group: after call `a` for `name` has placed it at `i`, call `b`
/// for that name finds it at `i` again, with the group first registered
/// there, and nowhere else.
pub proof fn lemma_one_group_per_name<G>(
    v: GroupsView<G>,
    calls: Seq<(Seq<char>, G)>,
    a: int,
    b: int,
    i: int,
)
    requires
        groups_wf(v),
        0 <= a < b < calls.len(),
        calls[a].0 == calls[b].0,
        0 <= i < run(v, calls.take(a + 1)).names.len(),
        run(v, calls.take(a + 1)).names[i] == calls[a].0,
    ensures
        run(v, calls.take(b + 1)).names[i] == calls[b].0,
        run(v, calls.take(b + 1)).groups[i] == run(v, calls.take(a + 1)).groups[i],
        forall|j: int|
            0 <= j < run(v, calls.take(b + 1)).names.len() && #[trigger] run(
                v,
                calls.take(b + 1),
            ).names[j] == calls[b].0 ==> j == i,
{
    let cs = calls.take(b + 1);
    assert(cs.take(a + 1) =~= calls.take(a + 1));
    lemma_run_extends(v, cs, a + 1);
    let x = run(v, calls.take(a + 1));
    let y = run(v, cs);
    assert(y.names.take(x.names.len() as int)[i] == x.names[i]);
    assert(y.groups.take(x.groups.len() as int)[i] == x.groups[i]);
}

/// The table of groups, each reached through a handle of type `G`.
pub struct Groups<G> {
    names: Vec<String>,
    groups: Vec<G>,
}

impl<G> View for Groups<G> {
    type V = GroupsView<G>;

    closed spec fn view(&self) -> GroupsView<G> {
        GroupsView { names: self.names@.map_values(|s: String| s@), groups: self.groups@ }
    }
}

impl<G> Groups<G> {
    pub open spec fn wf(&self) -> bool {
        groups_wf(self@)
    }

    /// A registry with no groups.
    pub fn new() -> (r: Groups<G>)
        ensures
            r.wf(),
            r@.names == Seq::<Seq<char>>::empty(),
            r@.groups == Seq::<G>::empty(),
    {
        let r = Groups { names: Vec::new(), groups: Vec::new() };
        proof {
            assert(r@.names =~= Seq::<Seq<char>>::empty());
        }
        r
    }

    /// The place of the group named `name`, if there is one.
    pub fn find(&self, name: &String) -> (r: Option<usize>)
        requires
            self.wf(),
        ensures
            r is None <==> !self@.names.contains(name@),
            r matches Some(i) ==> i < self@.names.len() && self@.names[i as int] == name@,
    {
        let n = self.names.len();
        let mut i: usize = 0;
        while i < n
            invariant
                0 <= i <= n,
                n == self.names@.len(),
                forall|j: int| 0 <= j < i ==> self@.names[j] != name@,
            decreases n - i,
        {
            if self.names[i] == *name {
                proof {
                    assert(self@.names[i as int] == name@);
                }
                return Some(i);
            }
            i = i + 1;
        }
        proof {
            if self@.names.contains(name@) {
                let j = choose|j: int| 0 <= j < self@.names.len() && self@.names[j] == name@;
                assert(self@.names[j] != name@);
            }
        }
        None
    }

    /// Returns the place of the group named `name`, registering `fresh`
    /// under that name first if there is none; `fresh` is discarded
    /// otherwise.
    pub fn get_or_create(&mut self, name: &String, fresh: G) -> (r: usize)
        requires
            old(self).wf(),
        ensures
            final(self).wf(),
            final(self)@ == get_or_create_spec(old(self)@, name@, fresh),
            r < final(self)@.names.len(),
            final(self)@.names[r as int] == name@,
    {
        proof {
            lemma_step_extends(self@, name@, fresh);
        }
        match self.find(name) {
            Some(i) => i,
            None => {
                let ghost before = self@;
                let i = self.names.len();
                self.names.push(name.clone());
                self.groups.push(fresh);
                proof {
                    assert(self@.names =~= before.names.push(name@));
                }
                i
            }
        }
    }

    /// The group at place `i`.
    pub fn get(&self, i: usize) -> (r: &G)
        requires
            self.wf(),
            i < self@.groups.len(),
        ensures
            *r == self@.groups[i as int],
    {
        &self.groups[i]
    }

    /// The number of groups.
    pub fn len(&self) -> (r: usize)
        requires
            self.wf(),
        ensures
            r == self@.groups.len(),
    {
        self.groups.len()
    }
}

} // verus!
