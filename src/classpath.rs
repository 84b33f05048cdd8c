//! The classpath: each library a descriptor names, as a jar under the
//! libraries folder, without repeats and in the order first named.
use vstd::prelude::*;
use crate::descriptor::VersionDescriptor;
use crate::json::opt_view;
use crate::text::{joined, push_char, push_str, same_text};

verus! {

/// The `:`-separated parts of `s`, the first of them continuing `cur`.
pub open spec fn parts_from(s: Seq<char>, cur: Seq<char>) -> Seq<Seq<char>>
    decreases s.len(),
{
    if s.len() == 0 {
        seq![cur]
    } else if s[0] == ':' {
        seq![cur] + parts_from(s.drop_first(), seq![])
    } else {
        parts_from(s.drop_first(), cur.push(s[0]))
    }
}

/// The `:`-separated parts of a library name.
pub open spec fn name_parts(s: Seq<char>) -> Seq<Seq<char>> {
    parts_from(s, seq![])
}

/// A group name with each `.` turned into a `/`.
pub open spec fn group_path(g: Seq<char>) -> Seq<char> {
    g.map_values(|c: char| if c == '.' { '/' } else { c })
}

/// Where the library named `group:artifact:version` lies under `root`:
/// `{root}/{group path}/{artifact}/{version}/{artifact}-{version}.jar`.
/// A name of another shape does not resolve.
pub open spec fn library_path(root: Seq<char>, name: Seq<char>) -> Option<Seq<char>> {
    let p = name_parts(name);
    if p.len() == 3 && p[0].len() > 0 && p[1].len() > 0 && p[2].len() > 0 {
        Some(joined(joined(joined(joined(root, group_path(p[0])), p[1]), p[2]),
            p[1] + "-"@ + p[2] + ".jar"@))
    } else {
        None
    }
}

/// The jars of the library names `ids`, each once, in the order first named.
pub open spec fn merged(root: Seq<char>, ids: Seq<Seq<char>>) -> Seq<Seq<char>>
    decreases ids.len(),
{
    if ids.len() == 0 {
        seq![]
    } else {
        let pre = merged(root, ids.drop_last());
        match library_path(root, ids.last()) {
            Some(p) => if pre.contains(p) { pre } else { pre.push(p) },
            None => pre,
        }
    }
}

/// The library names among `ids` that do not resolve, in order.
pub open spec fn unresolved(root: Seq<char>, ids: Seq<Seq<char>>) -> Seq<Seq<char>>
    decreases ids.len(),
{
    if ids.len() == 0 {
        seq![]
    } else {
        let pre = unresolved(root, ids.drop_last());
        match library_path(root, ids.last()) {
            Some(_) => pre,
            None => pre.push(ids.last()),
        }
    }
}

/// The library names of descriptors `ds`, in order.
pub open spec fn all_libraries(ds: Seq<VersionDescriptor>) -> Seq<Seq<char>>
    decreases ds.len(),
{
    if ds.len() == 0 {
        seq![]
    } else {
        all_libraries(ds.drop_last()) + ds.last().libraries.deep_view()
    }
}

/// Splits a library name at its `:`s.
pub fn split_name(s: &str) -> (r: Vec<String>)
    ensures
        r.deep_view() == name_parts(s@),
{
    let n = s.unicode_len();
    let mut out: Vec<String> = Vec::new();
    let mut cur = String::new();
    let mut i: usize = 0;
    assert(s@.skip(0) =~= s@);
    assert(out.deep_view() + name_parts(s@) =~= name_parts(s@));
    while i < n
        invariant
            n == s@.len(),
            i <= n,
            name_parts(s@) == out.deep_view() + parts_from(s@.skip(i as int), cur@),
        decreases n - i,
    {
        let c = s.get_char(i);
        let ghost rest = s@.skip(i as int);
        assert(rest[0] == c);
        assert(rest.drop_first() =~= s@.skip(i + 1));
        if c == ':' {
            let ghost before = out.deep_view();
            out.push(cur);
            assert(out.deep_view() =~= before + seq![cur@]);
            cur = String::new();
            assert(name_parts(s@) =~= out.deep_view() + parts_from(s@.skip(i + 1), cur@));
        } else {
            push_char(&mut cur, c);
        }
        i = i + 1;
    }
    let ghost before = out.deep_view();
    assert(s@.skip(n as int).len() == 0);
    out.push(cur);
    assert(out.deep_view() =~= before + seq![cur@]);
    out
}

/// Appends `g` to `out` with each `.` turned into a `/`.
fn push_group_path(out: &mut String, g: &str)
    ensures
        final(out)@ == old(out)@ + group_path(g@),
{
    let n = g.unicode_len();
    let mut i: usize = 0;
    let ghost start = out@;
    while i < n
        invariant
            n == g@.len(),
            i <= n,
            out@ == start + group_path(g@.take(i as int)),
        decreases n - i,
    {
        let c = g.get_char(i);
        let d = if c == '.' { '/' } else { c };
        push_char(out, d);
        assert(group_path(g@.take(i + 1)) =~= group_path(g@.take(i as int)).push(d));
        i = i + 1;
    }
    assert(g@.take(n as int) =~= g@);
}

/// The jar of the library `name` under `root`, if the name has the shape
/// `group:artifact:version`.
pub fn resolve_library(root: &str, name: &str) -> (r: Option<String>)
    ensures
        opt_view(r) == library_path(root@, name@),
{
    let parts = split_name(name);
    if parts.len() != 3 {
        return None;
    }
    assert(parts.deep_view()[0] == parts[0]@);
    assert(parts.deep_view()[1] == parts[1]@);
    assert(parts.deep_view()[2] == parts[2]@);
    let g = parts[0].as_str();
    let a = parts[1].as_str();
    let v = parts[2].as_str();
    if g.unicode_len() == 0 || a.unicode_len() == 0 || v.unicode_len() == 0 {
        return None;
    }
    let mut p = String::new();
    push_str(&mut p, root);
    push_str(&mut p, "/");
    push_group_path(&mut p, g);
    push_str(&mut p, "/");
    push_str(&mut p, a);
    push_str(&mut p, "/");
    push_str(&mut p, v);
    push_str(&mut p, "/");
    push_str(&mut p, a);
    push_str(&mut p, "-");
    push_str(&mut p, v);
    push_str(&mut p, ".jar");
    assert(p@ =~= library_path(root@, name@)->0);
    Some(p)
}

fn contains_text(v: &Vec<String>, s: &str) -> (r: bool)
    ensures
        r == v.deep_view().contains(s@),
{
    let mut i: usize = 0;
    while i < v.len()
        invariant
            i <= v.len(),
            forall|k: int| 0 <= k < i ==> v.deep_view()[k] != s@,
        decreases v.len() - i,
    {
        assert(v.deep_view()[i as int] == v[i as int]@);
        if same_text(v[i].as_str(), s) {
            return true;
        }
        i = i + 1;
    }
    false
}

/// The classpath of some descriptors, and the library names that did not
/// resolve to a jar (reported, not fatal: the caller decides).
#[derive(Debug, Clone)]
pub struct Classpath {
    pub entries: Vec<String>,
    pub unresolved: Vec<String>,
}

/// Resolves the libraries of `descriptors` under `libraries_root`: each jar
/// once, in the order first named across the descriptors in turn.
pub fn merge(libraries_root: &str, descriptors: &Vec<VersionDescriptor>) -> (r: Classpath)
    ensures
        r.entries.deep_view() == merged(libraries_root@, all_libraries(descriptors@)),
        r.unresolved.deep_view() == unresolved(libraries_root@, all_libraries(descriptors@)),
{
    let mut entries: Vec<String> = Vec::new();
    let mut missing: Vec<String> = Vec::new();
    let ghost root = libraries_root@;
    let ghost ds = descriptors@;
    let mut d: usize = 0;
    assert(ds.take(0) =~= seq![]);
    assert(entries.deep_view() =~= seq![]);
    assert(missing.deep_view() =~= seq![]);
    while d < descriptors.len()
        invariant
            ds == descriptors@,
            root == libraries_root@,
            d <= descriptors.len(),
            entries.deep_view() == merged(root, all_libraries(ds.take(d as int))),
            missing.deep_view() == unresolved(root, all_libraries(ds.take(d as int))),
        decreases descriptors.len() - d,
    {
        let libs = &descriptors[d].libraries;
        let ghost done = all_libraries(ds.take(d as int));
        assert(ds.take(d + 1).drop_last() =~= ds.take(d as int));
        assert(all_libraries(ds.take(d + 1)) == done + libs.deep_view());
        let mut i: usize = 0;
        assert(libs.deep_view().take(0) =~= seq![]);
        assert(done + libs.deep_view().take(0) =~= done);
        while i < libs.len()
            invariant
                root == libraries_root@,
                i <= libs.len(),
                entries.deep_view() == merged(root, done + libs.deep_view().take(i as int)),
                missing.deep_view() == unresolved(root, done + libs.deep_view().take(i as int)),
            decreases libs.len() - i,
        {
            let ghost ids = done + libs.deep_view().take(i + 1);
            assert(ids.drop_last() =~= done + libs.deep_view().take(i as int));
            assert(ids.last() == libs[i as int]@);
            let ghost before_e = entries.deep_view();
            let ghost before_m = missing.deep_view();
            match resolve_library(libraries_root, libs[i].as_str()) {
                Some(p) => {
                    if !contains_text(&entries, p.as_str()) {
                        entries.push(p);
                        assert(entries.deep_view() =~= before_e.push(library_path(root, ids.last())->0));
                    }
                },
                None => {
                    missing.push(libs[i].clone());
                    assert(missing.deep_view() =~= before_m.push(ids.last()));
                },
            }
            i = i + 1;
        }
        assert(libs.deep_view().take(libs.len() as int) =~= libs.deep_view());
        d = d + 1;
    }
    assert(ds.take(descriptors.len() as int) =~= ds);
    Classpath { entries, unresolved: missing }
}

/// A merged classpath never names a jar twice, and names exactly the jars
/// that some library name resolves to: two descriptors that both name the
/// same library give one entry for it.
pub proof fn lemma_merged_unique(root: Seq<char>, ids: Seq<Seq<char>>)
    ensures
        merged(root, ids).no_duplicates(),
        forall|p: Seq<char>| #[trigger] merged(root, ids).contains(p)
            <==> exists|i: int| 0 <= i < ids.len() && library_path(root, #[trigger] ids[i]) == Some(p),
    decreases ids.len(),
{
    if ids.len() > 0 {
        let pre_ids = ids.drop_last();
        lemma_merged_unique(root, pre_ids);
        let pre = merged(root, pre_ids);
        assert forall|p: Seq<char>| #[trigger] merged(root, ids).contains(p)
            <==> exists|i: int| 0 <= i < ids.len() && library_path(root, #[trigger] ids[i]) == Some(p) by {
            if merged(root, ids).contains(p) {
                if pre.contains(p) {
                    let i = choose|i: int| 0 <= i < pre_ids.len() && library_path(root, #[trigger] pre_ids[i]) == Some(p);
                    assert(ids[i] == pre_ids[i]);
                } else {
                    let k = choose|k: int| 0 <= k < merged(root, ids).len() && merged(root, ids)[k] == p;
                    assert(library_path(root, ids[ids.len() - 1]) == Some(p));
                }
            }
            if exists|i: int| 0 <= i < ids.len() && library_path(root, #[trigger] ids[i]) == Some(p) {
                let i = choose|i: int| 0 <= i < ids.len() && library_path(root, #[trigger] ids[i]) == Some(p);
                if i < ids.len() - 1 {
                    assert(pre_ids[i] == ids[i]);
                    assert(pre.contains(p));
                    let k = choose|k: int| 0 <= k < pre.len() && pre[k] == p;
                    assert(merged(root, ids)[k] == p);
                } else if !pre.contains(p) {
                    assert(merged(root, ids) == pre.push(p));
                    assert(merged(root, ids)[pre.len() as int] == p);
                }
            }
        }
    }
}

/// Merging keeps first-seen order across descriptors: the classpath of the
/// first names comes first, unchanged, in the classpath of all of them.
pub proof fn lemma_merged_prefix(root: Seq<char>, first: Seq<Seq<char>>, later: Seq<Seq<char>>)
    ensures
        merged(root, first).len() <= merged(root, first + later).len(),
        merged(root, first + later).subrange(0, merged(root, first).len() as int) == merged(root, first),
    decreases later.len(),
{
    if later.len() == 0 {
        assert(first + later =~= first);
        assert(merged(root, first).subrange(0, merged(root, first).len() as int) =~= merged(root, first));
    } else {
        let shorter = later.drop_last();
        lemma_merged_prefix(root, first, shorter);
        assert((first + later).drop_last() =~= first + shorter);
        let m = merged(root, first + shorter);
        let n = merged(root, first).len() as int;
        assert(merged(root, first + later).subrange(0, n) =~= m.subrange(0, n));
    }
}

} // verus!
