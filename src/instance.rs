//! Named instances: isolated installations, each in its own folder under an
//! instances folder.
use vstd::prelude::*;
use crate::manifest::{is_safe_entry, is_safe_manifest_entry};
use crate::text::{join, joined};

verus! {

/// The file whose presence marks a folder as an instance.
pub open spec fn invoker_name() -> Seq<char> {
    "sml_invoker.json"@
}

/// The folders an instance owns, by name.
pub open spec fn instance_subdirs() -> Seq<Seq<char>> {
    seq!["mods"@, "libraries"@, "bin"@, "assets"@, "versions"@]
}

/// An instance: its name, and its folder, made from the name.
#[derive(Debug, Clone)]
pub struct Instance {
    pub name: String,
    pub path: String,
}

impl Instance {
    pub fn new(name: String, path: String) -> (r: Instance)
        ensures
            r.name@ == name@,
            r.path@ == path@,
    {
        Instance { name, path }
    }

    /// The file that marks this instance's folder.
    pub fn invoker_path(&self) -> (r: String)
        ensures
            r@ == joined(self.path@, invoker_name()),
    {
        join(self.path.as_str(), "sml_invoker.json")
    }

    /// The folders this instance owns: mods, libraries, bin, assets and
    /// versions, inside its folder.
    pub fn subdirectories(&self) -> (r: Vec<String>)
        ensures
            r.deep_view() == instance_subdirs().map_values(|d: Seq<char>| joined(self.path@, d)),
    {
        let p = self.path.as_str();
        let r = vec![
            join(p, "mods"),
            join(p, "libraries"),
            join(p, "bin"),
            join(p, "assets"),
            join(p, "versions"),
        ];
        assert(r.deep_view() =~= instance_subdirs().map_values(|d: Seq<char>| joined(self.path@, d)));
        r
    }
}

/// The instances folder.
#[derive(Debug, Clone)]
pub struct InstanceManager {
    path: String,
}

impl View for InstanceManager {
    type V = Seq<char>;

    closed spec fn view(&self) -> Seq<char> {
        self.path@
    }
}

/// The marker files of the candidate folders `entries` whose marker exists
/// (the flag beside each), in order.
pub open spec fn listed(entries: Seq<(Seq<char>, bool)>) -> Seq<Seq<char>>
    decreases entries.len(),
{
    if entries.len() == 0 {
        seq![]
    } else {
        let pre = listed(entries.drop_last());
        if entries.last().1 {
            pre.push(joined(entries.last().0, invoker_name()))
        } else {
            pre
        }
    }
}

impl InstanceManager {
    pub fn new(pb: String) -> (r: InstanceManager)
        ensures
            r@ == pb@,
    {
        InstanceManager { path: pb }
    }

    pub fn get_path(&self) -> (r: String)
        ensures
            r@ == self@,
    {
        self.path.clone()
    }

    /// The instance named `name`, in the folder of that name inside the
    /// instances folder; `None` where the name is not a plain folder name
    /// (empty, `.`, `..`, or with a separator or drive mark). Making the
    /// folder, or reusing one that is already there, is the caller's part.
    pub fn create_instance(&mut self, name: String) -> (r: Option<Instance>)
        ensures
            final(self)@ == old(self)@,
            is_safe_entry(name@) ==> (r matches Some(i) && i.name@ == name@
                && i.path@ == joined(old(self)@, name@)),
            !is_safe_entry(name@) ==> r is None,
    {
        if !is_safe_manifest_entry(name.as_str()) {
            return None;
        }
        let path = join(self.path.as_str(), name.as_str());
        Some(Instance::new(name, path))
    }

    /// Where the marker file of the folder `entry_path` would be.
    pub fn invoker_file(entry_path: &str) -> (r: String)
        ensures
            r@ == joined(entry_path@, invoker_name()),
    {
        join(entry_path, "sml_invoker.json")
    }

    /// The marker files of the instances among the folders `entries` of the
    /// instances folder: each entry's path, and whether its marker file
    /// exists. Folders without one are not instances yet, and are skipped.
    pub fn get_list(&mut self, entries: &Vec<(String, bool)>) -> (r: Vec<String>)
        ensures
            final(self)@ == old(self)@,
            r.deep_view() == listed(entries.deep_view()),
    {
        let ghost v = entries.deep_view();
        let mut out: Vec<String> = Vec::new();
        let mut i: usize = 0;
        assert(v.take(0) =~= seq![]);
        assert(out.deep_view() =~= seq![]);
        while i < entries.len()
            invariant
                v == entries.deep_view(),
                i <= entries.len(),
                out.deep_view() == listed(v.take(i as int)),
            decreases entries.len() - i,
        {
            assert(v.take(i + 1).drop_last() =~= v.take(i as int));
            assert(v.take(i + 1).last() == (entries[i as int].0@, entries[i as int].1));
            if entries[i].1 {
                let f = InstanceManager::invoker_file(entries[i].0.as_str());
                let ghost before = out.deep_view();
                out.push(f);
                assert(out.deep_view() =~= before.push(f@));
            }
            i = i + 1;
        }
        assert(v.take(entries.len() as int) =~= v);
        out
    }
}

} // verus!
