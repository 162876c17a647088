//! A read-only view of a descriptor together with the chain of its ancestors:
//! what a descriptor leaves out, the nearest ancestor supplies.
use vstd::prelude::*;

use crate::maven::pom::{Dependency, Parent, Pom};
use crate::project::{artifact_path, Artifact};
use crate::text::same_text;

verus! {

/// The version that the first entry for `(group, name)` in a
/// dependency-management list gives, if the list has such an entry.
pub open spec fn managed_in(list: Seq<Dependency>, group: Seq<char>, name: Seq<char>) -> Option<Seq<char>>
    decreases list.len(),
{
    if list.len() == 0 {
        None
    } else if list[0].group_id.value@ == group && list[0].artifact_id.value@ == name {
        match list[0].version {
            Some(v) => Some(v.value@),
            None => None,
        }
    } else {
        managed_in(list.drop_first(), group, name)
    }
}

/// The dependency-management entries of a descriptor.
pub open spec fn managed_list(pom: Pom) -> Seq<Dependency> {
    match pom.dependency_management {
        Some(m) => m.value.value@,
        None => Seq::empty(),
    }
}

/// The version for `(group, name)` that the nearest ancestor managing it gives.
pub open spec fn managed_by(ancestors: Seq<Pom>, group: Seq<char>, name: Seq<char>) -> Option<Seq<char>>
    decreases ancestors.len(),
{
    if ancestors.len() == 0 {
        None
    } else {
        match managed_in(managed_list(ancestors[0]), group, name) {
            Some(v) => Some(v),
            None => managed_by(ancestors.drop_first(), group, name),
        }
    }
}

/// The version a dependency resolves to: its own, else the managed one.
pub open spec fn effective_version(dep: Dependency, ancestors: Seq<Pom>) -> Option<Seq<char>> {
    match dep.version {
        Some(v) => Some(v.value@),
        None => managed_by(ancestors, dep.group_id.value@, dep.artifact_id.value@),
    }
}

/// The version of the first descriptor of `chain` that declares one.
pub open spec fn inherited_version(chain: Seq<Pom>) -> Option<Seq<char>>
    decreases chain.len(),
{
    if chain.len() == 0 {
        None
    } else {
        match chain[0].version {
            Some(v) => Some(v.value@),
            None => inherited_version(chain.drop_first()),
        }
    }
}

/// The index of the first dependency, from `i` on, that has no version of its
/// own and none that an ancestor manages.
pub open spec fn first_unmanaged(deps: Seq<Dependency>, ancestors: Seq<Pom>, i: int) -> Option<int>
    decreases deps.len() - i,
{
    if i < 0 || i >= deps.len() {
        None
    } else if effective_version(deps[i], ancestors) is None {
        Some(i)
    } else {
        first_unmanaged(deps, ancestors, i + 1)
    }
}

/// The declared dependencies of a descriptor.
pub open spec fn declared_dependencies(pom: Pom) -> Seq<Dependency> {
    match pom.dependencies {
        Some(d) => d.value@,
        None => Seq::empty(),
    }
}

/// Why a view could not give a value.
#[derive(Debug)]
pub enum ViewError {
    /// Neither the descriptor nor any ancestor declares a version.
    MissingVersion,
    /// A dependency has no version, and no ancestor manages one for it.
    MissingManagedVersion { group: String, name: String },
}

/// A descriptor and, where it names a parent, the view of that parent.
pub struct PomView {
    pom: Pom,
    parent: Option<Box<PomView>>,
}

/// The coordinates of a descriptor's parent.
pub struct ParentView<'a> {
    parent: &'a Parent,
}

impl PomView {
    /// The descriptor itself.
    pub closed spec fn spec_pom(&self) -> Pom {
        self.pom
    }

    /// The descriptors of the parent, the grandparent and so on, nearest first.
    pub closed spec fn ancestors(&self) -> Seq<Pom>
        decreases self,
    {
        match self.parent {
            Some(p) => seq![p.pom] + p.ancestors(),
            None => Seq::empty(),
        }
    }

    /// The view of `pom` over the view of its parent, if it has one.
    pub closed spec fn spec_new(pom: Pom, parent: Option<PomView>) -> PomView {
        PomView {
            pom,
            parent: match parent {
                Some(p) => Some(Box::new(p)),
                None => None,
            },
        }
    }

    /// What a view built by `spec_new` holds.
    pub proof fn lemma_spec_new(pom: Pom, parent: Option<PomView>)
        ensures
            PomView::spec_new(pom, parent).spec_pom() == pom,
            PomView::spec_new(pom, parent).ancestors() == match parent {
                Some(p) => seq![p.spec_pom()] + p.ancestors(),
                None => Seq::<Pom>::empty(),
            },
    {
    }

    /// The view of `pom` whose ancestors are `parent` and its own.
    pub fn new(pom: Pom, parent: Option<PomView>) -> (r: PomView)
        ensures
            r == PomView::spec_new(pom, parent),
            r.spec_pom() == pom,
            r.ancestors() == match parent {
                Some(p) => seq![p.spec_pom()] + p.ancestors(),
                None => Seq::<Pom>::empty(),
            },
    {
        match parent {
            Some(p) => PomView { pom, parent: Some(Box::new(p)) },
            None => PomView { pom, parent: None },
        }
    }

    pub fn model_version(&self) -> (r: String)
        ensures
            r@ == self.spec_pom().model_version.value@,
    {
        self.pom.model_version.value.clone()
    }

    pub fn parent(&self) -> (r: Option<ParentView<'_>>)
        ensures
            r is Some <==> self.spec_pom().parent is Some,
            r matches Some(v) ==> *v.spec_parent() == self.spec_pom().parent->Some_0,
    {
        match &self.pom.parent {
            Some(p) => Some(ParentView { parent: p }),
            None => None,
        }
    }

    pub fn group_id(&self) -> (r: Option<String>)
        ensures
            r is Some <==> self.spec_pom().group_id is Some,
            r matches Some(g) ==> g@ == self.spec_pom().group_id->Some_0.value@,
    {
        match &self.pom.group_id {
            Some(g) => Some(g.value.clone()),
            None => None,
        }
    }

    pub fn artifact_id(&self) -> (r: &String)
        ensures
            *r == self.spec_pom().artifact_id.value,
    {
        &self.pom.artifact_id.value
    }

    /// The descriptor's own version, else that of the nearest ancestor that
    /// declares one.
    pub fn version(&self) -> (r: Result<String, ViewError>)
        ensures
            r is Ok <==> inherited_version(seq![self.spec_pom()] + self.ancestors()) is Some,
            r matches Ok(v) ==> v@ == inherited_version(seq![self.spec_pom()] + self.ancestors())->Some_0,
            r matches Err(e) ==> e is MissingVersion,
    {
        let mut cur: &PomView = self;
        while cur.pom.version.is_none()
            invariant
                inherited_version(seq![self.spec_pom()] + self.ancestors()) == inherited_version(
                    seq![cur.spec_pom()] + cur.ancestors(),
                ),
            decreases cur.ancestors().len(),
        {
            let ghost chain = seq![cur.spec_pom()] + cur.ancestors();
            assert(chain.drop_first() =~= cur.ancestors());
            match &cur.parent {
                None => {
                    assert(inherited_version(cur.ancestors()) is None);
                    return Err(ViewError::MissingVersion);
                },
                Some(p) => {
                    assert(cur.ancestors() == seq![p.spec_pom()] + p.ancestors());
                    cur = p;
                },
            }
        }
        match &cur.pom.version {
            Some(v) => Ok(v.value.clone()),
            None => Err(ViewError::MissingVersion),
        }
    }

    pub fn name(&self) -> (r: Option<String>)
        ensures
            r is Some <==> self.spec_pom().name is Some,
            r matches Some(n) ==> n@ == self.spec_pom().name->Some_0.value@,
    {
        match &self.pom.name {
            Some(n) => Some(n.value.clone()),
            None => None,
        }
    }

    pub fn packaging(&self) -> (r: Option<String>)
        ensures
            r is Some <==> self.spec_pom().packaging is Some,
            r matches Some(p) ==> p@ == self.spec_pom().packaging->Some_0.value@,
    {
        match &self.pom.packaging {
            Some(p) => Some(p.value.clone()),
            None => None,
        }
    }

    pub fn url(&self) -> (r: Option<String>)
        ensures
            r is Some <==> self.spec_pom().url is Some,
            r matches Some(u) ==> u@ == self.spec_pom().url->Some_0.value@,
    {
        match &self.pom.url {
            Some(u) => Some(u.value.clone()),
            None => None,
        }
    }

    pub fn description(&self) -> (r: Option<String>)
        ensures
            r is Some <==> self.spec_pom().description is Some,
            r matches Some(d) ==> d@ == self.spec_pom().description->Some_0.value@,
    {
        match &self.pom.description {
            Some(d) => Some(d.value.clone()),
            None => None,
        }
    }

    /// The versions this descriptor manages for its descendants.
    pub fn dependency_management(&self) -> (r: &[Dependency])
        ensures
            r@ == managed_list(self.spec_pom()),
    {
        match &self.pom.dependency_management {
            Some(m) => m.value.value.as_slice(),
            None => &[],
        }
    }
}

impl PomView {
    /// The version that the nearest ancestor managing the coordinates of
    /// `dep` gives.
    pub fn managed_version(&self, dep: &Dependency) -> (r: Option<String>)
        ensures
            r is Some <==> managed_by(self.ancestors(), dep.group_id.value@, dep.artifact_id.value@) is Some,
            r matches Some(v) ==> v@ == managed_by(self.ancestors(), dep.group_id.value@, dep.artifact_id.value@)->Some_0,
    {
        let ghost g = dep.group_id.value@;
        let ghost n = dep.artifact_id.value@;
        let mut cur: &PomView = self;
        loop
            invariant
                managed_by(self.ancestors(), g, n) == managed_by(cur.ancestors(), g, n),
                g == dep.group_id.value@,
                n == dep.artifact_id.value@,
            decreases cur.ancestors().len(),
        {
            match &cur.parent {
                None => {
                    return None;
                },
                Some(p) => {
                    let ghost a = cur.ancestors();
                    assert(a == seq![p.spec_pom()] + p.ancestors());
                    assert(a.drop_first() =~= p.ancestors());
                    match search_version(dep, p.dependency_management()) {
                        Some(v) => {
                            return Some(v);
                        },
                        None => {},
                    }
                    cur = p;
                },
            }
        }
    }

    /// The declared dependencies as artifacts, each with its own version or
    /// else the one its nearest managing ancestor gives.
    pub fn dependencies(&self) -> (r: Result<Vec<Artifact>, ViewError>)
        ensures
            r is Ok <==> forall|i: int|
                0 <= i < declared_dependencies(self.spec_pom()).len() ==> effective_version(
                    #[trigger] declared_dependencies(self.spec_pom())[i],
                    self.ancestors(),
                ) is Some,
            r matches Ok(v) ==> {
                let deps = declared_dependencies(self.spec_pom());
                &&& v@.len() == deps.len()
                &&& forall|i: int| 0 <= i < deps.len() ==> {
                    &&& (#[trigger] v@[i]).wf()
                    &&& v@[i].group@ == deps[i].group_id.value@
                    &&& v@[i].name@ == deps[i].artifact_id.value@
                    &&& v@[i].version@ == effective_version(deps[i], self.ancestors())->Some_0
                }
            },
            r is Err <==> first_unmanaged(declared_dependencies(self.spec_pom()), self.ancestors(), 0) is Some,
            // The error names the first such dependency in declaration order.
            r matches Err(e) ==> {
                let i = first_unmanaged(declared_dependencies(self.spec_pom()), self.ancestors(), 0)->Some_0;
                &&& 0 <= i < declared_dependencies(self.spec_pom()).len()
                &&& e matches ViewError::MissingManagedVersion { group, name }
                &&& group@ == declared_dependencies(self.spec_pom())[i].group_id.value@
                &&& name@ == declared_dependencies(self.spec_pom())[i].artifact_id.value@
            },
    {
        let ghost deps = declared_dependencies(self.spec_pom());
        let empty: Vec<Dependency> = Vec::new();
        let declared: &Vec<Dependency> = match &self.pom.dependencies {
            Some(d) => &d.value,
            None => &empty,
        };
        assert(declared@ == deps);
        let mut out: Vec<Artifact> = Vec::new();
        let mut i: usize = 0;
        assert(first_unmanaged(deps, self.ancestors(), 0) == first_unmanaged(deps, self.ancestors(), 0));
        while i < declared.len()
            invariant
                declared@ == deps,
                deps == declared_dependencies(self.spec_pom()),
                i <= deps.len(),
                out@.len() == i,
                forall|j: int| 0 <= j < i ==> effective_version(#[trigger] deps[j], self.ancestors()) is Some,
                first_unmanaged(deps, self.ancestors(), 0) == first_unmanaged(deps, self.ancestors(), i as int),
                forall|j: int| 0 <= j < i ==> {
                    &&& (#[trigger] out@[j]).wf()
                    &&& out@[j].group@ == deps[j].group_id.value@
                    &&& out@[j].name@ == deps[j].artifact_id.value@
                    &&& out@[j].version@ == effective_version(deps[j], self.ancestors())->Some_0
                },
            decreases deps.len() - i,
        {
            let dep = &declared[i];
            let version = match &dep.version {
                Some(v) => Some(v.value.clone()),
                None => self.managed_version(dep),
            };
            match version {
                Some(v) => {
                    out.push(Artifact::new(dep.group_id.value.as_str(), dep.artifact_id.value.as_str(), v.as_str()));
                },
                None => {
                    assert(effective_version(deps[i as int], self.ancestors()) is None);
                    return Err(ViewError::MissingManagedVersion {
                        group: dep.group_id.value.clone(),
                        name: dep.artifact_id.value.clone(),
                    });
                },
            }
            i = i + 1;
        }
        Ok(out)
    }
}

impl<'a> ParentView<'a> {
    pub closed spec fn spec_parent(&self) -> &'a Parent {
        self.parent
    }

    pub fn group_id(&self) -> (r: &'a String)
        ensures
            *r == self.spec_parent().group_id.value,
    {
        &self.parent.group_id.value
    }

    pub fn artifact_id(&self) -> (r: &'a String)
        ensures
            *r == self.spec_parent().artifact_id.value,
    {
        &self.parent.artifact_id.value
    }

    pub fn version(&self) -> (r: &'a String)
        ensures
            *r == self.spec_parent().version.value,
    {
        &self.parent.version.value
    }
}

/// The version that the first entry of `depman` for the coordinates of `dep`
/// gives, if there is such an entry.
pub fn search_version(dep: &Dependency, depman: &[Dependency]) -> (r: Option<String>)
    ensures
        r is Some <==> managed_in(depman@, dep.group_id.value@, dep.artifact_id.value@) is Some,
        r matches Some(v) ==> v@ == managed_in(depman@, dep.group_id.value@, dep.artifact_id.value@)->Some_0,
{
    let ghost g = dep.group_id.value@;
    let ghost n = dep.artifact_id.value@;
    let mut i: usize = 0;
    assert(depman@.subrange(0, depman@.len() as int) =~= depman@);
    while i < depman.len()
        invariant
            i <= depman@.len(),
            managed_in(depman@, g, n) == managed_in(depman@.subrange(i as int, depman@.len() as int), g, n),
            g == dep.group_id.value@,
            n == dep.artifact_id.value@,
        decreases depman@.len() - i,
    {
        let ghost rest = depman@.subrange(i as int, depman@.len() as int);
        assert(rest.drop_first() =~= depman@.subrange(i + 1, depman@.len() as int));
        let m = &depman[i];
        if same_text(m.group_id.value.as_str(), dep.group_id.value.as_str()) && same_text(
            m.artifact_id.value.as_str(),
            dep.artifact_id.value.as_str(),
        ) {
            return match &m.version {
                Some(v) => Some(v.value.clone()),
                None => None,
            };
        }
        i = i + 1;
    }
    None
}

/// A dependency without a version takes the version that its parent manages
/// for its coordinates.
pub proof fn lemma_parent_manages_version(dep: Dependency, parent: Pom, rest: Seq<Pom>, version: Seq<char>)
    requires
        dep.version is None,
        managed_in(managed_list(parent), dep.group_id.value@, dep.artifact_id.value@) == Some(version),
    ensures
        effective_version(dep, seq![parent] + rest) == Some(version),
{
    assert((seq![parent] + rest)[0] == parent);
}

/// A dependency without a version that no ancestor manages has no version.
pub proof fn lemma_unmanaged_version_missing(dep: Dependency, ancestors: Seq<Pom>)
    requires
        dep.version is None,
        forall|i: int|
            0 <= i < ancestors.len() ==> managed_in(
                managed_list(#[trigger] ancestors[i]),
                dep.group_id.value@,
                dep.artifact_id.value@,
            ) is None,
    ensures
        effective_version(dep, ancestors) is None,
    decreases ancestors.len(),
{
    if ancestors.len() > 0 {
        let rest = ancestors.drop_first();
        assert forall|i: int| 0 <= i < rest.len() implies managed_in(
            managed_list(#[trigger] rest[i]),
            dep.group_id.value@,
            dep.artifact_id.value@,
        ) is None by {
            assert(rest[i] == ancestors[i + 1]);
        }
        lemma_unmanaged_version_missing(dep, rest);
        assert(managed_in(managed_list(ancestors[0]), dep.group_id.value@, dep.artifact_id.value@) is None);
    }
}

} // verus!
