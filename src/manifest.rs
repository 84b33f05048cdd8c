//! The manifest a modpack server sends: one file name per line.
use vstd::prelude::*;
use crate::text::{push_char, same_text};

verus! {

/// What the server sends in place of a manifest when it has no such pack.
pub open spec fn pack_absent_sentinel() -> Seq<char> {
    "PACK NOT FOUND"@
}

/// `cur` as a list of one entry, or no entry when it is empty.
pub open spec fn nonempty(cur: Seq<char>) -> Seq<Seq<char>> {
    if cur.len() == 0 { seq![] } else { seq![cur] }
}

/// The non-empty lines of `s`, the first of them continuing `cur`.
pub open spec fn lines_from(s: Seq<char>, cur: Seq<char>) -> Seq<Seq<char>>
    decreases s.len(),
{
    if s.len() == 0 {
        nonempty(cur)
    } else if s[0] == '\n' {
        nonempty(cur) + lines_from(s.drop_first(), seq![])
    } else {
        lines_from(s.drop_first(), cur.push(s[0]))
    }
}

/// The entries of a manifest body: its non-empty lines, in order.
pub open spec fn manifest_entries(body: Seq<char>) -> Seq<Seq<char>> {
    lines_from(body, seq![])
}

/// A separator or drive mark, which a plain file name never holds.
pub open spec fn is_path_char(c: char) -> bool {
    c == '/' || c == '\\' || c == ':'
}

/// A manifest entry names a plain file inside the mod folder: it is not
/// empty, is not `.` or `..`, and holds no separator or drive mark, so that
/// joined to the folder it can neither climb out of it nor be absolute.
pub open spec fn is_safe_entry(e: Seq<char>) -> bool {
    &&& e.len() > 0
    &&& e != "."@
    &&& e != ".."@
    &&& forall|i: int| 0 <= i < e.len() ==> !is_path_char(#[trigger] e[i])
}

/// The first entry of `es` that is not safe, if any.
pub open spec fn first_unsafe(es: Seq<Seq<char>>) -> Option<int> {
    if exists|i: int| 0 <= i < es.len() && !is_safe_entry(#[trigger] es[i]) {
        Some(choose|i: int| 0 <= i < es.len() && !is_safe_entry(#[trigger] es[i])
            && forall|j: int| 0 <= j < i ==> is_safe_entry(#[trigger] es[j]))
    } else {
        None
    }
}

/// Whether a metadata body is the server's "no such pack" answer.
pub fn is_pack_absent(body: &str) -> (r: bool)
    ensures
        r == (body@ == pack_absent_sentinel()),
{
    same_text(body, "PACK NOT FOUND")
}

/// Splits a metadata body into its entries: the non-empty lines, in order.
pub fn parse_manifest(body: &str) -> (r: Vec<String>)
    ensures
        r.deep_view() == manifest_entries(body@),
{
    let n = body.unicode_len();
    let mut out: Vec<String> = Vec::new();
    let mut cur = String::new();
    let mut i: usize = 0;
    assert(body@.skip(0) =~= body@);
    assert(cur@ =~= seq![]);
    assert(out.deep_view() =~= seq![]);
    assert(out.deep_view() + manifest_entries(body@) =~= manifest_entries(body@));
    while i < n
        invariant
            n == body@.len(),
            i <= n,
            manifest_entries(body@) == out.deep_view() + lines_from(body@.skip(i as int), cur@),
        decreases n - i,
    {
        let c = body.get_char(i);
        let ghost rest = body@.skip(i as int);
        assert(rest[0] == c);
        assert(rest.drop_first() =~= body@.skip(i + 1));
        if c == '\n' {
            let ghost before = out.deep_view();
            if cur.unicode_len() > 0 {
                out.push(cur);
                assert(out.deep_view() =~= before + nonempty(cur@));
            } else {
                assert(out.deep_view() =~= before + nonempty(cur@));
            }
            cur = String::new();
            assert(manifest_entries(body@) =~= out.deep_view() + lines_from(body@.skip(i + 1), cur@));
        } else {
            push_char(&mut cur, c);
        }
        i = i + 1;
    }
    assert(body@.skip(n as int).len() == 0);
    let ghost before = out.deep_view();
    if cur.unicode_len() > 0 {
        out.push(cur);
        assert(out.deep_view() =~= before + nonempty(cur@));
    } else {
        assert(out.deep_view() =~= before + nonempty(cur@));
    }
    out
}

/// Whether a manifest entry is a plain file name (see `is_safe_entry`).
pub fn is_safe_manifest_entry(e: &str) -> (r: bool)
    ensures
        r == is_safe_entry(e@),
{
    let n = e.unicode_len();
    if n == 0 || same_text(e, ".") || same_text(e, "..") {
        return false;
    }
    let mut i: usize = 0;
    while i < n
        invariant
            n == e@.len(),
            i <= n,
            forall|k: int| 0 <= k < i ==> !is_path_char(#[trigger] e@[k]),
        decreases n - i,
    {
        let c = e.get_char(i);
        if c == '/' || c == '\\' || c == ':' {
            return false;
        }
        i = i + 1;
    }
    true
}

/// The index of the first entry that is not safe, if any.
pub fn find_unsafe_entry(es: &Vec<String>) -> (r: Option<usize>)
    ensures
        r matches Some(i) ==> i < es.len() && Some(i as int) == first_unsafe(es.deep_view()),
        r is None ==> first_unsafe(es.deep_view()) is None,
{
    let ghost v = es.deep_view();
    let mut i: usize = 0;
    while i < es.len()
        invariant
            v == es.deep_view(),
            i <= es.len(),
            forall|j: int| 0 <= j < i ==> is_safe_entry(#[trigger] v[j]),
        decreases es.len() - i,
    {
        assert(v[i as int] == es[i as int]@);
        if !is_safe_manifest_entry(es[i].as_str()) {
            proof {
                let k = choose|k: int| 0 <= k < v.len() && !is_safe_entry(#[trigger] v[k])
                    && forall|j: int| 0 <= j < k ==> is_safe_entry(#[trigger] v[j]);
                assert(0 <= i < v.len() && !is_safe_entry(v[i as int])
                    && forall|j: int| 0 <= j < i ==> is_safe_entry(#[trigger] v[j]));
                if k < i {
                } else if k > i {
                    assert(is_safe_entry(v[i as int]));
                }
            }
            return Some(i);
        }
        i = i + 1;
    }
    None
}

} // verus!
