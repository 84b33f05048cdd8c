//! The launch command: JVM arguments, classpath, main class and game
//! arguments, assembled from a version descriptor. Nothing here runs it.
use vstd::prelude::*;
use crate::descriptor::VersionDescriptor;
use crate::launch::LaunchSettings;
use crate::text::{joined, push_char, push_str, push_text};

verus! {

/// `s` with each occurrence of `pat`, read left to right without overlaps,
/// replaced by `rep`.
pub open spec fn substitute(s: Seq<char>, pat: Seq<char>, rep: Seq<char>) -> Seq<char>
    decreases s.len(),
{
    if s.len() == 0 {
        seq![]
    } else if 0 < pat.len() <= s.len() && s.take(pat.len() as int) == pat {
        rep + substitute(s.skip(pat.len() as int), pat, rep)
    } else {
        seq![s[0]] + substitute(s.drop_first(), pat, rep)
    }
}

/// Whether `pat` occurs in `s` at index `i`.
fn occurs_at(s: &str, n: usize, i: usize, pat: &str) -> (r: bool)
    requires
        n == s@.len(),
        i <= n,
    ensures
        r == (i + pat@.len() <= n && s@.subrange(i as int, i + pat@.len()) == pat@),
{
    let m = pat.unicode_len();
    if m > n - i {
        return false;
    }
    let mut k: usize = 0;
    while k < m
        invariant
            m == pat@.len(),
            n == s@.len(),
            i + m <= n,
            k <= m,
            s@.subrange(i as int, i + k) == pat@.take(k as int),
        decreases m - k,
    {
        if s.get_char(i + k) != pat.get_char(k) {
            assert(s@.subrange(i as int, i + m)[k as int] != pat@[k as int]);
            return false;
        }
        assert(s@.subrange(i as int, i + k + 1) =~= s@.subrange(i as int, i + k).push(s@[i + k]));
        assert(pat@.take(k + 1) =~= pat@.take(k as int).push(pat@[k as int]));
        k = k + 1;
    }
    assert(pat@.take(m as int) =~= pat@);
    true
}

/// `s` with each occurrence of `pat` replaced by `rep`.
pub fn replace_all(s: &str, pat: &str, rep: &str) -> (r: String)
    ensures
        r@ == substitute(s@, pat@, rep@),
{
    let n = s.unicode_len();
    let m = pat.unicode_len();
    let mut out = String::new();
    let mut i: usize = 0;
    assert(s@.skip(0) =~= s@);
    assert(out@ + substitute(s@, pat@, rep@) =~= substitute(s@, pat@, rep@));
    while i < n
        invariant
            n == s@.len(),
            m == pat@.len(),
            i <= n,
            substitute(s@, pat@, rep@) == out@ + substitute(s@.skip(i as int), pat@, rep@),
        decreases n - i,
    {
        let ghost rest = s@.skip(i as int);
        if m > 0 && occurs_at(s, n, i, pat) {
            assert(rest.take(m as int) =~= s@.subrange(i as int, i + m));
            assert(rest.skip(m as int) =~= s@.skip(i + m));
            let ghost before = out@;
            push_str(&mut out, rep);
            assert(before + substitute(rest, pat@, rep@) =~= out@ + substitute(s@.skip(i + m), pat@, rep@));
            i = i + m;
        } else {
            proof {
                if 0 < pat@.len() <= rest.len() && rest.take(pat@.len() as int) == pat@ {
                    assert(rest.take(m as int) =~= s@.subrange(i as int, i + m));
                }
            }
            let c = s.get_char(i);
            assert(rest[0] == c);
            assert(rest.drop_first() =~= s@.skip(i + 1));
            let ghost before = out@;
            push_char(&mut out, c);
            assert(before + substitute(rest, pat@, rep@) =~= out@ + substitute(s@.skip(i + 1), pat@, rep@));
            i = i + 1;
        }
    }
    assert(s@.skip(n as int) =~= seq![]);
    assert(out@ + seq![] =~= out@);
    out
}

/// The texts of `xs` with `sep` between each two.
pub open spec fn joined_with(xs: Seq<Seq<char>>, sep: Seq<char>) -> Seq<char>
    decreases xs.len(),
{
    if xs.len() == 0 {
        seq![]
    } else if xs.len() == 1 {
        xs[0]
    } else {
        joined_with(xs.drop_last(), sep) + sep + xs.last()
    }
}

/// Joins the texts of `xs` with `sep` between each two.
pub fn join_with(xs: &Vec<String>, sep: &str) -> (r: String)
    ensures
        r@ == joined_with(xs.deep_view(), sep@),
{
    let ghost v = xs.deep_view();
    let mut out = String::new();
    let mut i: usize = 0;
    assert(v.take(0) =~= seq![]);
    while i < xs.len()
        invariant
            v == xs.deep_view(),
            i <= xs.len(),
            out@ == joined_with(v.take(i as int), sep@),
        decreases xs.len() - i,
    {
        assert(v.take(i + 1).drop_last() =~= v.take(i as int));
        assert(v.take(i + 1).last() == xs[i as int]@);
        if i > 0 {
            push_str(&mut out, sep);
        } else {
            assert(v.take(1) =~= seq![v[0]]);
        }
        push_str(&mut out, xs[i].as_str());
        i = i + 1;
    }
    assert(v.take(xs.len() as int) =~= v);
    out
}

/// The folders a launch uses, and the platform's classpath separator.
#[derive(Debug, Clone)]
pub struct LaunchDirs {
    /// The game's data folder.
    pub game_dir: String,
    /// The folder of the native libraries.
    pub natives_dir: String,
    /// The folder the libraries lie under.
    pub libraries_dir: String,
    /// `;` on Windows, `:` elsewhere.
    pub separator: String,
}

/// A command, ready to run: `java {jvm_args} {main_class} {game_args}`.
#[derive(Debug, Clone)]
pub struct LaunchCommand {
    pub jvm_args: Vec<String>,
    pub classpath: String,
    pub main_class: String,
    pub game_args: Vec<String>,
}

/// A JVM argument with the launch's placeholders filled in: the classpath,
/// the natives folder, the libraries folder and the classpath separator.
pub open spec fn jvm_arg_of(arg: Seq<char>, classpath: Seq<char>, natives: Seq<char>, libraries: Seq<char>, sep: Seq<char>) -> Seq<char> {
    substitute(
        substitute(
            substitute(
                substitute(arg, "${classpath}"@, classpath),
                "${natives_directory}"@, natives),
            "${library_directory}"@, libraries),
        "${classpath_separator}"@, sep)
}

/// The `--userType` of a launch: `legacy` without an account, else `msa`.
pub open spec fn user_type(is_cracked: bool) -> Seq<char> {
    if is_cracked { "legacy"@ } else { "msa"@ }
}

/// The flags that follow the descriptor's game arguments.
pub open spec fn fixed_flags(game_dir: Seq<char>, asset_index: Seq<char>, is_cracked: bool) -> Seq<Seq<char>> {
    seq![
        "--assetsDir"@, joined(game_dir, "assets"@),
        "--assetIndex"@, asset_index,
        "--gameDir"@, game_dir,
        "--versionType"@, "release"@,
        "--userType"@, user_type(is_cracked),
    ]
}

/// Builds the command that launches the version `descriptor` describes,
/// with the jars of `classpath`, in the folders `dirs`.
pub fn build(descriptor: &VersionDescriptor, classpath: &Vec<String>, settings: &LaunchSettings, dirs: &LaunchDirs) -> (r: LaunchCommand)
    ensures
        r.classpath@ == joined_with(classpath.deep_view(), dirs.separator@),
        r.main_class@ == descriptor.main_class@,
        r.jvm_args.deep_view().len() == descriptor.jvm_args.len(),
        forall|i: int| 0 <= i < descriptor.jvm_args.len() ==> #[trigger] r.jvm_args.deep_view()[i]
            == jvm_arg_of(descriptor.jvm_args[i]@, r.classpath@, dirs.natives_dir@,
                dirs.libraries_dir@, dirs.separator@),
        r.game_args.deep_view() == descriptor.game_args.deep_view()
            + fixed_flags(dirs.game_dir@, descriptor.asset_index@, settings.is_cracked),
{
    let cp = join_with(classpath, dirs.separator.as_str());
    let mut jvm: Vec<String> = Vec::new();
    let mut i: usize = 0;
    while i < descriptor.jvm_args.len()
        invariant
            i <= descriptor.jvm_args.len(),
            jvm.deep_view().len() == i,
            forall|k: int| 0 <= k < i ==> #[trigger] jvm.deep_view()[k]
                == jvm_arg_of(descriptor.jvm_args[k]@, cp@, dirs.natives_dir@,
                    dirs.libraries_dir@, dirs.separator@),
        decreases descriptor.jvm_args.len() - i,
    {
        let a = replace_all(descriptor.jvm_args[i].as_str(), "${classpath}", cp.as_str());
        let b = replace_all(a.as_str(), "${natives_directory}", dirs.natives_dir.as_str());
        let c = replace_all(b.as_str(), "${library_directory}", dirs.libraries_dir.as_str());
        let d = replace_all(c.as_str(), "${classpath_separator}", dirs.separator.as_str());
        let ghost before = jvm.deep_view();
        jvm.push(d);
        assert(jvm.deep_view() =~= before.push(d@));
        i = i + 1;
    }
    let mut game: Vec<String> = Vec::new();
    let mut j: usize = 0;
    while j < descriptor.game_args.len()
        invariant
            j <= descriptor.game_args.len(),
            game.deep_view() == descriptor.game_args.deep_view().take(j as int),
        decreases descriptor.game_args.len() - j,
    {
        push_text(&mut game, descriptor.game_args[j].as_str());
        assert(game.deep_view() =~= descriptor.game_args.deep_view().take(j + 1));
        j = j + 1;
    }
    let ghost args = game.deep_view();
    assert(args =~= descriptor.game_args.deep_view());
    let assets = crate::text::join(dirs.game_dir.as_str(), "assets");
    push_text(&mut game, "--assetsDir");
    push_text(&mut game, assets.as_str());
    push_text(&mut game, "--assetIndex");
    push_text(&mut game, descriptor.asset_index.as_str());
    push_text(&mut game, "--gameDir");
    push_text(&mut game, dirs.game_dir.as_str());
    push_text(&mut game, "--versionType");
    push_text(&mut game, "release");
    push_text(&mut game, "--userType");
    push_text(&mut game, if settings.is_cracked { "legacy" } else { "msa" });
    assert(game.deep_view() =~= args + fixed_flags(dirs.game_dir@, descriptor.asset_index@, settings.is_cracked));
    LaunchCommand { jvm_args: jvm, classpath: cp, main_class: descriptor.main_class.clone(), game_args: game }
}

impl LaunchCommand {
    /// The arguments to hand the Java runtime, in order: the JVM arguments,
    /// the main class, then the game arguments.
    pub fn arguments(&self) -> (r: Vec<String>)
        ensures
            r.deep_view() == self.jvm_args.deep_view() + seq![self.main_class@] + self.game_args.deep_view(),
    {
        let mut r: Vec<String> = Vec::new();
        let mut i: usize = 0;
        while i < self.jvm_args.len()
            invariant
                i <= self.jvm_args.len(),
                r.deep_view() == self.jvm_args.deep_view().take(i as int),
            decreases self.jvm_args.len() - i,
        {
            push_text(&mut r, self.jvm_args[i].as_str());
            assert(r.deep_view() =~= self.jvm_args.deep_view().take(i + 1));
            i = i + 1;
        }
        assert(self.jvm_args.deep_view().take(i as int) =~= self.jvm_args.deep_view());
        push_text(&mut r, self.main_class.as_str());
        let ghost head = r.deep_view();
        let mut j: usize = 0;
        while j < self.game_args.len()
            invariant
                j <= self.game_args.len(),
                r.deep_view() == head + self.game_args.deep_view().take(j as int),
            decreases self.game_args.len() - j,
        {
            push_text(&mut r, self.game_args[j].as_str());
            assert(r.deep_view() =~= head + self.game_args.deep_view().take(j + 1));
            j = j + 1;
        }
        assert(self.game_args.deep_view().take(j as int) =~= self.game_args.deep_view());
        r
    }
}

} // verus!
