//! Walkers that convert what stands under given paths of a compound.

use crate::chain::{follows, leads, lemma_leads_extend, lemma_leads_nowhere, lemma_leads_push};
use crate::dynamic_type::AbstractDynamicDataType;
use crate::map_type::AbstractMapDataType;
use crate::nbt::JCompound;
use crate::object_type::AbstractValueDataType;
use crate::traverse::{
    convert_dynamic_in_map, convert_dynamic_list_in_map, convert_map_in_map,
    convert_map_list_in_map, convert_object_in_map, convert_object_list_in_map, dynamic_in_map,
    dynamic_list_in_map, map_in_map, map_list_in_map, object_in_map, object_list_in_map,
};
use crate::version::DataVersion;
use crate::walker::MapDataWalker;
use vstd::prelude::*;

verus! {

/// A walker that converts each element of the list under each of its paths, path by path.
pub struct DataWalkerObjectListPaths<T> where T: AbstractValueDataType {
    typ: T,
    paths: Vec<String>,
}

impl<T> DataWalkerObjectListPaths<T> where T: AbstractValueDataType {
    /// The data type that converts what is under the paths.
    pub closed spec fn typ(&self) -> T {
        self.typ
    }

    /// The paths, in the order in which they are walked.
    pub closed spec fn paths(&self) -> Seq<String> {
        self.paths@
    }

    /// What walking one path may make of a document.
    pub open spec fn step(
        &self,
        path: String,
        before: JCompound,
        from: DataVersion,
        to: DataVersion,
        after: JCompound,
    ) -> bool {
        object_list_in_map(&self.typ(), before, path@, from, to, after)
    }

    /// The walks of the paths as a relation between documents.
    pub open spec fn relation(&self, from: DataVersion, to: DataVersion) -> spec_fn(
        String,
        JCompound,
        JCompound,
    ) -> bool {
        |path: String, before: JCompound, after: JCompound| self.step(path, before, from, to, after)
    }

    /// A walker of the one path `path`.
    pub fn for_path(typ: T, path: &str) -> (r: Self)
        ensures
            r.typ() == typ,
            r.paths().len() == 1,
            r.paths()[0]@ == path@,
    {
        let mut paths: Vec<String> = Vec::new();
        paths.push(path.to_owned());
        Self::new_multi(typ, paths)
    }

    /// As `for_path`, with the path that `path` converts into.
    pub fn new<P: Into<String>>(typ: T, path: P) -> (r: Self)
        ensures
            r.typ() == typ,
            r.paths().len() == 1,
            call_ensures(P::into, (path,), r.paths()[0]),
    {
        let mut paths: Vec<String> = Vec::new();
        paths.push(path.into());
        Self::new_multi(typ, paths)
    }

    /// A walker of the paths `paths`, in their order.
    pub fn new_multi(typ: T, paths: Vec<String>) -> (r: Self)
        ensures
            r.typ() == typ,
            r.paths() == paths@,
    {
        Self { typ, paths }
    }
}

impl<T> MapDataWalker for DataWalkerObjectListPaths<T> where T: AbstractValueDataType {
    open spec fn walks(
        &self,
        before: JCompound,
        from: DataVersion,
        to: DataVersion,
        after: JCompound,
    ) -> bool {
        leads(self.relation(from, to), self.paths(), before, after)
    }

    fn walk(&self, data: &mut JCompound, from_version: DataVersion, to_version: DataVersion) {
        let ghost rel = self.relation(from_version, to_version);
        let ghost paths = self.paths();
        proof {
            lemma_leads_nowhere::<String, JCompound>(rel, *data);
            assert(paths.take(0) =~= Seq::<String>::empty());
        }
        let mut i: usize = 0;
        while i < self.paths.len()
            invariant
                i <= self.paths.len(),
                paths == self.paths(),
                rel == self.relation(from_version, to_version),
                leads(rel, paths.take(i as int), *old(data), *data),
            decreases self.paths.len() - i,
        {
            let ghost middle = *data;
            convert_object_list_in_map(&self.typ, data, self.paths[i].as_str(), from_version, to_version);
            proof {
                assert(rel(paths[i as int], middle, *data));
                lemma_leads_extend(rel, paths, i as int, *old(data), middle, *data);
            }
            i += 1;
        }
        assert(paths.take(i as int) =~= paths);
    }
}

/// A walker that converts each compound of the list under each of its paths, path by path.
pub struct DataWalkerMapListPaths<T> where T: AbstractMapDataType {
    typ: T,
    paths: Vec<String>,
}

impl<T> DataWalkerMapListPaths<T> where T: AbstractMapDataType {
    /// The data type that converts what is under the paths.
    pub closed spec fn typ(&self) -> T {
        self.typ
    }

    /// The paths, in the order in which they are walked.
    pub closed spec fn paths(&self) -> Seq<String> {
        self.paths@
    }

    /// What walking one path may make of a document.
    pub open spec fn step(
        &self,
        path: String,
        before: JCompound,
        from: DataVersion,
        to: DataVersion,
        after: JCompound,
    ) -> bool {
        map_list_in_map(&self.typ(), before, path@, from, to, after)
    }

    /// The walks of the paths as a relation between documents.
    pub open spec fn relation(&self, from: DataVersion, to: DataVersion) -> spec_fn(
        String,
        JCompound,
        JCompound,
    ) -> bool {
        |path: String, before: JCompound, after: JCompound| self.step(path, before, from, to, after)
    }

    /// A walker of the one path `path`.
    pub fn for_path(typ: T, path: &str) -> (r: Self)
        ensures
            r.typ() == typ,
            r.paths().len() == 1,
            r.paths()[0]@ == path@,
    {
        let mut paths: Vec<String> = Vec::new();
        paths.push(path.to_owned());
        Self::new_multi(typ, paths)
    }

    /// As `for_path`, with the path that `path` converts into.
    pub fn new<P: Into<String>>(typ: T, path: P) -> (r: Self)
        ensures
            r.typ() == typ,
            r.paths().len() == 1,
            call_ensures(P::into, (path,), r.paths()[0]),
    {
        let mut paths: Vec<String> = Vec::new();
        paths.push(path.into());
        Self::new_multi(typ, paths)
    }

    /// A walker of the paths `paths`, in their order.
    pub fn new_multi(typ: T, paths: Vec<String>) -> (r: Self)
        ensures
            r.typ() == typ,
            r.paths() == paths@,
    {
        Self { typ, paths }
    }
}

impl<T> MapDataWalker for DataWalkerMapListPaths<T> where T: AbstractMapDataType {
    open spec fn walks(
        &self,
        before: JCompound,
        from: DataVersion,
        to: DataVersion,
        after: JCompound,
    ) -> bool {
        leads(self.relation(from, to), self.paths(), before, after)
    }

    fn walk(&self, data: &mut JCompound, from_version: DataVersion, to_version: DataVersion) {
        let ghost rel = self.relation(from_version, to_version);
        let ghost paths = self.paths();
        proof {
            lemma_leads_nowhere::<String, JCompound>(rel, *data);
            assert(paths.take(0) =~= Seq::<String>::empty());
        }
        let mut i: usize = 0;
        while i < self.paths.len()
            invariant
                i <= self.paths.len(),
                paths == self.paths(),
                rel == self.relation(from_version, to_version),
                leads(rel, paths.take(i as int), *old(data), *data),
            decreases self.paths.len() - i,
        {
            let ghost middle = *data;
            convert_map_list_in_map(&self.typ, data, self.paths[i].as_str(), from_version, to_version);
            proof {
                assert(rel(paths[i as int], middle, *data));
                lemma_leads_extend(rel, paths, i as int, *old(data), middle, *data);
            }
            i += 1;
        }
        assert(paths.take(i as int) =~= paths);
    }
}

/// A walker that converts each element of the list, as a value of any shape, under each of its paths, path by path.
pub struct DataWalkerDynamicListPaths<T> where T: AbstractDynamicDataType {
    typ: T,
    paths: Vec<String>,
}

impl<T> DataWalkerDynamicListPaths<T> where T: AbstractDynamicDataType {
    /// The data type that converts what is under the paths.
    pub closed spec fn typ(&self) -> T {
        self.typ
    }

    /// The paths, in the order in which they are walked.
    pub closed spec fn paths(&self) -> Seq<String> {
        self.paths@
    }

    /// What walking one path may make of a document.
    pub open spec fn step(
        &self,
        path: String,
        before: JCompound,
        from: DataVersion,
        to: DataVersion,
        after: JCompound,
    ) -> bool {
        exists|uniform: bool| #[trigger]
            dynamic_list_in_map(&self.typ(), before, path@, from, to, after, uniform)
    }

    /// The walks of the paths as a relation between documents.
    pub open spec fn relation(&self, from: DataVersion, to: DataVersion) -> spec_fn(
        String,
        JCompound,
        JCompound,
    ) -> bool {
        |path: String, before: JCompound, after: JCompound| self.step(path, before, from, to, after)
    }

    /// A walker of the one path `path`.
    pub fn for_path(typ: T, path: &str) -> (r: Self)
        ensures
            r.typ() == typ,
            r.paths().len() == 1,
            r.paths()[0]@ == path@,
    {
        let mut paths: Vec<String> = Vec::new();
        paths.push(path.to_owned());
        Self::new_multi(typ, paths)
    }

    /// As `for_path`, with the path that `path` converts into.
    pub fn new<P: Into<String>>(typ: T, path: P) -> (r: Self)
        ensures
            r.typ() == typ,
            r.paths().len() == 1,
            call_ensures(P::into, (path,), r.paths()[0]),
    {
        let mut paths: Vec<String> = Vec::new();
        paths.push(path.into());
        Self::new_multi(typ, paths)
    }

    /// A walker of the paths `paths`, in their order.
    pub fn new_multi(typ: T, paths: Vec<String>) -> (r: Self)
        ensures
            r.typ() == typ,
            r.paths() == paths@,
    {
        Self { typ, paths }
    }
}

impl<T> DataWalkerDynamicListPaths<T> where T: AbstractDynamicDataType {
    /// What walking one path may make of a document, together with what is told
    /// of it: whether the list under the path is still a list of one type.
    pub open spec fn told_step(
        &self,
        step: (String, bool),
        before: JCompound,
        from: DataVersion,
        to: DataVersion,
        after: JCompound,
    ) -> bool {
        dynamic_list_in_map(&self.typ(), before, step.0@, from, to, after, step.1)
    }

    /// The walks of the paths, each with what is told of it, as a relation
    /// between documents.
    pub open spec fn told_relation(&self, from: DataVersion, to: DataVersion) -> spec_fn(
        (String, bool),
        JCompound,
        JCompound,
    ) -> bool {
        |step: (String, bool), before: JCompound, after: JCompound|
            self.told_step(step, before, from, to, after)
    }

    /// The paths, each with what was told of it.
    pub open spec fn told(&self, uniform: Seq<bool>) -> Seq<(String, bool)> {
        Seq::new(self.paths().len(), |i: int| (self.paths()[i], uniform[i]))
    }

    /// Walks the paths as `walk` does, and tells of each path, in order, whether
    /// the list under it is still a list of one type: `false` stands for a list
    /// that is now a mixed list, which is the occasion for a warning.
    pub fn walk_telling(
        &self,
        data: &mut JCompound,
        from_version: DataVersion,
        to_version: DataVersion,
    ) -> (uniform: Vec<bool>)
        ensures
            uniform@.len() == self.paths().len(),
            leads(
                self.told_relation(from_version, to_version),
                self.told(uniform@),
                *old(data),
                *final(data),
            ),
    {
        let ghost rel = self.told_relation(from_version, to_version);
        let ghost mut done: Seq<(String, bool)> = Seq::empty();
        proof {
            lemma_leads_nowhere::<(String, bool), JCompound>(rel, *data);
        }
        let mut uniform: Vec<bool> = Vec::new();
        let mut i: usize = 0;
        while i < self.paths.len()
            invariant
                i <= self.paths.len(),
                uniform@.len() == i,
                done.len() == i,
                forall|k: int| 0 <= k < i ==> #[trigger] done[k] == (self.paths()[k], uniform@[k]),
                rel == self.told_relation(from_version, to_version),
                leads(rel, done, *old(data), *data),
            decreases self.paths.len() - i,
        {
            let ghost middle = *data;
            let ghost so_far = done;
            let stayed = convert_dynamic_list_in_map(
                &self.typ,
                data,
                self.paths[i].as_str(),
                from_version,
                to_version,
            );
            uniform.push(stayed);
            proof {
                let step = (self.paths()[i as int], stayed);
                assert(rel(step, middle, *data));
                lemma_leads_push(rel, so_far, step, *old(data), middle, *data);
                done = so_far.push(step);
            }
            i += 1;
        }
        assert(done =~= self.told(uniform@));
        uniform
    }
}

impl<T> MapDataWalker for DataWalkerDynamicListPaths<T> where T: AbstractDynamicDataType {
    open spec fn walks(
        &self,
        before: JCompound,
        from: DataVersion,
        to: DataVersion,
        after: JCompound,
    ) -> bool {
        leads(self.relation(from, to), self.paths(), before, after)
    }

    fn walk(&self, data: &mut JCompound, from_version: DataVersion, to_version: DataVersion) {
        let uniform = self.walk_telling(data, from_version, to_version);
        proof {
            let told = self.told_relation(from_version, to_version);
            let rel = self.relation(from_version, to_version);
            let steps = self.told(uniform@);
            let paths = self.paths();
            let trace = choose|trace: Seq<JCompound>| #[trigger]
                follows(told, steps, trace) && trace[0] == *old(data) && trace.last() == *data;
            assert forall|k: int| 0 <= k < paths.len() implies rel(
                paths[k],
                #[trigger] trace[k],
                trace[k + 1],
            ) by {
                assert(told(steps[k], trace[k], trace[k + 1]));
                assert(dynamic_list_in_map(
                    &self.typ(),
                    trace[k],
                    paths[k]@,
                    from_version,
                    to_version,
                    trace[k + 1],
                    uniform@[k],
                ));
            }
            assert(follows(rel, paths, trace));
        }
    }
}

/// A walker that converts the value under each of its paths, path by path.
pub struct DataWalkerObjectTypePaths<T> where T: AbstractValueDataType {
    typ: T,
    paths: Vec<String>,
}

impl<T> DataWalkerObjectTypePaths<T> where T: AbstractValueDataType {
    /// The data type that converts what is under the paths.
    pub closed spec fn typ(&self) -> T {
        self.typ
    }

    /// The paths, in the order in which they are walked.
    pub closed spec fn paths(&self) -> Seq<String> {
        self.paths@
    }

    /// What walking one path may make of a document.
    pub open spec fn step(
        &self,
        path: String,
        before: JCompound,
        from: DataVersion,
        to: DataVersion,
        after: JCompound,
    ) -> bool {
        object_in_map(&self.typ(), before, path@, from, to, after)
    }

    /// The walks of the paths as a relation between documents.
    pub open spec fn relation(&self, from: DataVersion, to: DataVersion) -> spec_fn(
        String,
        JCompound,
        JCompound,
    ) -> bool {
        |path: String, before: JCompound, after: JCompound| self.step(path, before, from, to, after)
    }

    /// A walker of the one path `path`.
    pub fn for_path(typ: T, path: &str) -> (r: Self)
        ensures
            r.typ() == typ,
            r.paths().len() == 1,
            r.paths()[0]@ == path@,
    {
        let mut paths: Vec<String> = Vec::new();
        paths.push(path.to_owned());
        Self::new_multi(typ, paths)
    }

    /// As `for_path`, with the path that `path` converts into.
    pub fn new<P: Into<String>>(typ: T, path: P) -> (r: Self)
        ensures
            r.typ() == typ,
            r.paths().len() == 1,
            call_ensures(P::into, (path,), r.paths()[0]),
    {
        let mut paths: Vec<String> = Vec::new();
        paths.push(path.into());
        Self::new_multi(typ, paths)
    }

    /// A walker of the paths `paths`, in their order.
    pub fn new_multi(typ: T, paths: Vec<String>) -> (r: Self)
        ensures
            r.typ() == typ,
            r.paths() == paths@,
    {
        Self { typ, paths }
    }
}

impl<T> MapDataWalker for DataWalkerObjectTypePaths<T> where T: AbstractValueDataType {
    open spec fn walks(
        &self,
        before: JCompound,
        from: DataVersion,
        to: DataVersion,
        after: JCompound,
    ) -> bool {
        leads(self.relation(from, to), self.paths(), before, after)
    }

    fn walk(&self, data: &mut JCompound, from_version: DataVersion, to_version: DataVersion) {
        let ghost rel = self.relation(from_version, to_version);
        let ghost paths = self.paths();
        proof {
            lemma_leads_nowhere::<String, JCompound>(rel, *data);
            assert(paths.take(0) =~= Seq::<String>::empty());
        }
        let mut i: usize = 0;
        while i < self.paths.len()
            invariant
                i <= self.paths.len(),
                paths == self.paths(),
                rel == self.relation(from_version, to_version),
                leads(rel, paths.take(i as int), *old(data), *data),
            decreases self.paths.len() - i,
        {
            let ghost middle = *data;
            convert_object_in_map(&self.typ, data, self.paths[i].as_str(), from_version, to_version);
            proof {
                assert(rel(paths[i as int], middle, *data));
                lemma_leads_extend(rel, paths, i as int, *old(data), middle, *data);
            }
            i += 1;
        }
        assert(paths.take(i as int) =~= paths);
    }
}

/// A walker that converts the compound under each of its paths, path by path.
pub struct DataWalkerMapTypePaths<T> where T: AbstractMapDataType {
    typ: T,
    paths: Vec<String>,
}

impl<T> DataWalkerMapTypePaths<T> where T: AbstractMapDataType {
    /// The data type that converts what is under the paths.
    pub closed spec fn typ(&self) -> T {
        self.typ
    }

    /// The paths, in the order in which they are walked.
    pub closed spec fn paths(&self) -> Seq<String> {
        self.paths@
    }

    /// What walking one path may make of a document.
    pub open spec fn step(
        &self,
        path: String,
        before: JCompound,
        from: DataVersion,
        to: DataVersion,
        after: JCompound,
    ) -> bool {
        map_in_map(&self.typ(), before, path@, from, to, after)
    }

    /// The walks of the paths as a relation between documents.
    pub open spec fn relation(&self, from: DataVersion, to: DataVersion) -> spec_fn(
        String,
        JCompound,
        JCompound,
    ) -> bool {
        |path: String, before: JCompound, after: JCompound| self.step(path, before, from, to, after)
    }

    /// A walker of the one path `path`.
    pub fn for_path(typ: T, path: &str) -> (r: Self)
        ensures
            r.typ() == typ,
            r.paths().len() == 1,
            r.paths()[0]@ == path@,
    {
        let mut paths: Vec<String> = Vec::new();
        paths.push(path.to_owned());
        Self::new_multi(typ, paths)
    }

    /// As `for_path`, with the path that `path` converts into.
    pub fn new<P: Into<String>>(typ: T, path: P) -> (r: Self)
        ensures
            r.typ() == typ,
            r.paths().len() == 1,
            call_ensures(P::into, (path,), r.paths()[0]),
    {
        let mut paths: Vec<String> = Vec::new();
        paths.push(path.into());
        Self::new_multi(typ, paths)
    }

    /// A walker of the paths `paths`, in their order.
    pub fn new_multi(typ: T, paths: Vec<String>) -> (r: Self)
        ensures
            r.typ() == typ,
            r.paths() == paths@,
    {
        Self { typ, paths }
    }
}

impl<T> MapDataWalker for DataWalkerMapTypePaths<T> where T: AbstractMapDataType {
    open spec fn walks(
        &self,
        before: JCompound,
        from: DataVersion,
        to: DataVersion,
        after: JCompound,
    ) -> bool {
        leads(self.relation(from, to), self.paths(), before, after)
    }

    fn walk(&self, data: &mut JCompound, from_version: DataVersion, to_version: DataVersion) {
        let ghost rel = self.relation(from_version, to_version);
        let ghost paths = self.paths();
        proof {
            lemma_leads_nowhere::<String, JCompound>(rel, *data);
            assert(paths.take(0) =~= Seq::<String>::empty());
        }
        let mut i: usize = 0;
        while i < self.paths.len()
            invariant
                i <= self.paths.len(),
                paths == self.paths(),
                rel == self.relation(from_version, to_version),
                leads(rel, paths.take(i as int), *old(data), *data),
            decreases self.paths.len() - i,
        {
            let ghost middle = *data;
            convert_map_in_map(&self.typ, data, self.paths[i].as_str(), from_version, to_version);
            proof {
                assert(rel(paths[i as int], middle, *data));
                lemma_leads_extend(rel, paths, i as int, *old(data), middle, *data);
            }
            i += 1;
        }
        assert(paths.take(i as int) =~= paths);
    }
}

/// A walker that converts the value, whatever its shape, under each of its paths, path by path.
pub struct DataWalkerDynamicTypePaths<T> where T: AbstractDynamicDataType {
    typ: T,
    paths: Vec<String>,
}

impl<T> DataWalkerDynamicTypePaths<T> where T: AbstractDynamicDataType {
    /// The data type that converts what is under the paths.
    pub closed spec fn typ(&self) -> T {
        self.typ
    }

    /// The paths, in the order in which they are walked.
    pub closed spec fn paths(&self) -> Seq<String> {
        self.paths@
    }

    /// What walking one path may make of a document.
    pub open spec fn step(
        &self,
        path: String,
        before: JCompound,
        from: DataVersion,
        to: DataVersion,
        after: JCompound,
    ) -> bool {
        dynamic_in_map(&self.typ(), before, path@, from, to, after)
    }

    /// The walks of the paths as a relation between documents.
    pub open spec fn relation(&self, from: DataVersion, to: DataVersion) -> spec_fn(
        String,
        JCompound,
        JCompound,
    ) -> bool {
        |path: String, before: JCompound, after: JCompound| self.step(path, before, from, to, after)
    }

    /// A walker of the one path `path`.
    pub fn for_path(typ: T, path: &str) -> (r: Self)
        ensures
            r.typ() == typ,
            r.paths().len() == 1,
            r.paths()[0]@ == path@,
    {
        let mut paths: Vec<String> = Vec::new();
        paths.push(path.to_owned());
        Self::new_multi(typ, paths)
    }

    /// As `for_path`, with the path that `path` converts into.
    pub fn new<P: Into<String>>(typ: T, path: P) -> (r: Self)
        ensures
            r.typ() == typ,
            r.paths().len() == 1,
            call_ensures(P::into, (path,), r.paths()[0]),
    {
        let mut paths: Vec<String> = Vec::new();
        paths.push(path.into());
        Self::new_multi(typ, paths)
    }

    /// A walker of the paths `paths`, in their order.
    pub fn new_multi(typ: T, paths: Vec<String>) -> (r: Self)
        ensures
            r.typ() == typ,
            r.paths() == paths@,
    {
        Self { typ, paths }
    }
}

impl<T> MapDataWalker for DataWalkerDynamicTypePaths<T> where T: AbstractDynamicDataType {
    open spec fn walks(
        &self,
        before: JCompound,
        from: DataVersion,
        to: DataVersion,
        after: JCompound,
    ) -> bool {
        leads(self.relation(from, to), self.paths(), before, after)
    }

    fn walk(&self, data: &mut JCompound, from_version: DataVersion, to_version: DataVersion) {
        let ghost rel = self.relation(from_version, to_version);
        let ghost paths = self.paths();
        proof {
            lemma_leads_nowhere::<String, JCompound>(rel, *data);
            assert(paths.take(0) =~= Seq::<String>::empty());
        }
        let mut i: usize = 0;
        while i < self.paths.len()
            invariant
                i <= self.paths.len(),
                paths == self.paths(),
                rel == self.relation(from_version, to_version),
                leads(rel, paths.take(i as int), *old(data), *data),
            decreases self.paths.len() - i,
        {
            let ghost middle = *data;
            convert_dynamic_in_map(&self.typ, data, self.paths[i].as_str(), from_version, to_version);
            proof {
                assert(rel(paths[i as int], middle, *data));
                lemma_leads_extend(rel, paths, i as int, *old(data), middle, *data);
            }
            i += 1;
        }
        assert(paths.take(i as int) =~= paths);
    }
}

} // verus!
