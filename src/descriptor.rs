//! Version descriptors: the JSON files that give a game or loader version's
//! JVM arguments, game arguments, main class, asset index and libraries.
use vstd::prelude::*;
use crate::launch::LaunchAbortReason;
use crate::text::{push_text, same_text};
use crate::json::{
    array_of, as_array, as_object, as_text, find_member, member, object_of, opt_view, text_of,
};

verus! {

/// Why a version descriptor could not be read.
#[derive(Debug, Clone, PartialEq, Eq)]
pub enum ParseFailure {
    /// There is no such file.
    NotFound,
    /// The file is not a JSON object.
    MalformedJson,
    /// A required field is absent or not of its kind; its dotted path.
    MissingRequiredField(String),
}

/// `ParseFailure` with its text as a character sequence.
pub enum ParseFailureModel {
    NotFound,
    MalformedJson,
    MissingRequiredField(Seq<char>),
}

impl View for ParseFailure {
    type V = ParseFailureModel;

    open spec fn view(&self) -> ParseFailureModel {
        match self {
            ParseFailure::NotFound => ParseFailureModel::NotFound,
            ParseFailure::MalformedJson => ParseFailureModel::MalformedJson,
            ParseFailure::MissingRequiredField(f) => ParseFailureModel::MissingRequiredField(f@),
        }
    }
}

/// A version descriptor.
#[derive(Debug, Clone)]
pub struct VersionDescriptor {
    /// The string items of `arguments.jvm`, in order.
    pub jvm_args: Vec<String>,
    /// The string items of `arguments.game`, in order.
    pub game_args: Vec<String>,
    /// `mainClass`.
    pub main_class: String,
    /// `assetIndex.id`.
    pub asset_index: String,
    /// The `name` of each item of `libraries` that has one, in order.
    pub libraries: Vec<String>,
}

/// `VersionDescriptor` as character sequences.
pub struct DescriptorModel {
    pub jvm_args: Seq<Seq<char>>,
    pub game_args: Seq<Seq<char>>,
    pub main_class: Seq<char>,
    pub asset_index: Seq<char>,
    pub libraries: Seq<Seq<char>>,
}

impl View for VersionDescriptor {
    type V = DescriptorModel;

    open spec fn view(&self) -> DescriptorModel {
        DescriptorModel {
            jvm_args: self.jvm_args.deep_view(),
            game_args: self.game_args.deep_view(),
            main_class: self.main_class@,
            asset_index: self.asset_index@,
            libraries: self.libraries.deep_view(),
        }
    }
}

/// The strings among the JSON texts `items`, in order. Other items (such as
/// arguments that apply only under rules) are left out.
pub open spec fn string_items(items: Seq<Seq<char>>) -> Seq<Seq<char>>
    decreases items.len(),
{
    if items.len() == 0 {
        seq![]
    } else {
        let pre = string_items(items.drop_last());
        match as_text(items.last()) {
            Some(s) => pre.push(s),
            None => pre,
        }
    }
}

/// The `name` of a library item, when it is an object with a string `name`.
pub open spec fn library_name(item: Seq<char>) -> Option<Seq<char>> {
    match as_object(item) {
        Some(ms) => match member(ms, "name"@) {
            Some(t) => as_text(t),
            None => None,
        },
        None => None,
    }
}

/// The names of the library items that have one, in order.
pub open spec fn library_names(items: Seq<Seq<char>>) -> Seq<Seq<char>>
    decreases items.len(),
{
    if items.len() == 0 {
        seq![]
    } else {
        let pre = library_names(items.drop_last());
        match library_name(items.last()) {
            Some(s) => pre.push(s),
            None => pre,
        }
    }
}

/// The member `key` of `ms`, read as an object.
pub open spec fn member_object(ms: Seq<(Seq<char>, Seq<char>)>, key: Seq<char>) -> Option<Seq<(Seq<char>, Seq<char>)>> {
    match member(ms, key) {
        Some(t) => as_object(t),
        None => None,
    }
}

/// The member `key` of `ms`, read as an array.
pub open spec fn member_array(ms: Seq<(Seq<char>, Seq<char>)>, key: Seq<char>) -> Option<Seq<Seq<char>>> {
    match member(ms, key) {
        Some(t) => as_array(t),
        None => None,
    }
}

/// The member `key` of `ms`, read as a string.
pub open spec fn member_text(ms: Seq<(Seq<char>, Seq<char>)>, key: Seq<char>) -> Option<Seq<char>> {
    match member(ms, key) {
        Some(t) => as_text(t),
        None => None,
    }
}

/// The array `arguments.{key}` of a descriptor's top-level members.
pub open spec fn argument_list(top: Seq<(Seq<char>, Seq<char>)>, key: Seq<char>) -> Option<Seq<Seq<char>>> {
    match member_object(top, "arguments"@) {
        Some(args) => member_array(args, key),
        None => None,
    }
}

/// `assetIndex.id` of a descriptor's top-level members.
pub open spec fn asset_index_id(top: Seq<(Seq<char>, Seq<char>)>) -> Option<Seq<char>> {
    match member_object(top, "assetIndex"@) {
        Some(a) => member_text(a, "id"@),
        None => None,
    }
}

/// The descriptor a text holds. It must be a JSON object with the arrays
/// `arguments.jvm` and `arguments.game`, the string `mainClass` and the
/// string `assetIndex.id`; the first of these that is absent, or not of its
/// kind, is the one reported. `libraries` is optional.
pub open spec fn descriptor_of(text: Seq<char>) -> Result<DescriptorModel, ParseFailureModel> {
    match as_object(text) {
        None => Err(ParseFailureModel::MalformedJson),
        Some(top) => {
            let jvm = argument_list(top, "jvm"@);
            let game = argument_list(top, "game"@);
            let main = member_text(top, "mainClass"@);
            let asset = asset_index_id(top);
            if jvm is None {
                Err(ParseFailureModel::MissingRequiredField("arguments.jvm"@))
            } else if game is None {
                Err(ParseFailureModel::MissingRequiredField("arguments.game"@))
            } else if main is None {
                Err(ParseFailureModel::MissingRequiredField("mainClass"@))
            } else if asset is None {
                Err(ParseFailureModel::MissingRequiredField("assetIndex.id"@))
            } else {
                Ok(DescriptorModel {
                    jvm_args: string_items(jvm->0),
                    game_args: string_items(game->0),
                    main_class: main->0,
                    asset_index: asset->0,
                    libraries: match member_array(top, "libraries"@) {
                        Some(items) => library_names(items),
                        None => seq![],
                    },
                })
            }
        },
    }
}

fn member_object_of(ms: &Vec<(String, String)>, key: &str) -> (r: Option<Vec<(String, String)>>)
    ensures
        r is Some <==> member_object(ms.deep_view(), key@) is Some,
        r matches Some(o) ==> member_object(ms.deep_view(), key@) == Some(o.deep_view()),
{
    match find_member(ms, key) {
        Some(t) => object_of(t.as_str()),
        None => None,
    }
}

fn member_array_of(ms: &Vec<(String, String)>, key: &str) -> (r: Option<Vec<String>>)
    ensures
        r is Some <==> member_array(ms.deep_view(), key@) is Some,
        r matches Some(a) ==> member_array(ms.deep_view(), key@) == Some(a.deep_view()),
{
    match find_member(ms, key) {
        Some(t) => array_of(t.as_str()),
        None => None,
    }
}

fn member_text_of(ms: &Vec<(String, String)>, key: &str) -> (r: Option<String>)
    ensures
        opt_view(r) == member_text(ms.deep_view(), key@),
{
    match find_member(ms, key) {
        Some(t) => text_of(t.as_str()),
        None => None,
    }
}

/// The strings among the JSON texts `items`, in order.
pub fn collect_strings(items: &Vec<String>) -> (r: Vec<String>)
    ensures
        r.deep_view() == string_items(items.deep_view()),
{
    let ghost v = items.deep_view();
    let mut out: Vec<String> = Vec::new();
    let mut i: usize = 0;
    assert(v.take(0) =~= seq![]);
    assert(out.deep_view() =~= seq![]);
    while i < items.len()
        invariant
            v == items.deep_view(),
            i <= items.len(),
            out.deep_view() == string_items(v.take(i as int)),
        decreases items.len() - i,
    {
        assert(v.take(i + 1).drop_last() =~= v.take(i as int));
        assert(v.take(i + 1).last() == items[i as int]@);
        let ghost before = out.deep_view();
        match text_of(items[i].as_str()) {
            Some(s) => {
                out.push(s);
                assert(out.deep_view() =~= before.push(as_text(v[i as int])->0));
            },
            None => {},
        }
        i = i + 1;
    }
    assert(v.take(items.len() as int) =~= v);
    out
}

/// The library names among the JSON texts `items`, in order.
pub fn collect_library_names(items: &Vec<String>) -> (r: Vec<String>)
    ensures
        r.deep_view() == library_names(items.deep_view()),
{
    let ghost v = items.deep_view();
    let mut out: Vec<String> = Vec::new();
    let mut i: usize = 0;
    assert(v.take(0) =~= seq![]);
    assert(out.deep_view() =~= seq![]);
    while i < items.len()
        invariant
            v == items.deep_view(),
            i <= items.len(),
            out.deep_view() == library_names(v.take(i as int)),
        decreases items.len() - i,
    {
        assert(v.take(i + 1).drop_last() =~= v.take(i as int));
        assert(v.take(i + 1).last() == items[i as int]@);
        let ghost before = out.deep_view();
        let name = match object_of(items[i].as_str()) {
            Some(ms) => member_text_of(&ms, "name"),
            None => None,
        };
        assert(opt_view(name) == library_name(v[i as int]));
        match name {
            Some(s) => {
                out.push(s);
                assert(out.deep_view() =~= before.push(library_name(v[i as int])->0));
            },
            None => {},
        }
        i = i + 1;
    }
    assert(v.take(items.len() as int) =~= v);
    out
}

fn argument_list_of(top: &Vec<(String, String)>, key: &str) -> (r: Option<Vec<String>>)
    ensures
        r is Some <==> argument_list(top.deep_view(), key@) is Some,
        r matches Some(a) ==> argument_list(top.deep_view(), key@) == Some(a.deep_view()),
{
    match member_object_of(top, "arguments") {
        Some(args) => member_array_of(&args, key),
        None => None,
    }
}

fn asset_index_of(top: &Vec<(String, String)>) -> (r: Option<String>)
    ensures
        opt_view(r) == asset_index_id(top.deep_view()),
{
    match member_object_of(top, "assetIndex") {
        Some(a) => member_text_of(&a, "id"),
        None => None,
    }
}

fn missing(field: &str) -> (r: ParseFailure)
    ensures
        r@ == ParseFailureModel::MissingRequiredField(field@),
{
    ParseFailure::MissingRequiredField(String::from_str(field))
}

impl VersionDescriptor {
    /// Reads a version descriptor from the text of its file.
    pub fn parse(text: &str) -> (r: Result<VersionDescriptor, ParseFailure>)
        ensures
            match r {
                Ok(d) => descriptor_of(text@) == Ok::<DescriptorModel, ParseFailureModel>(d@),
                Err(f) => descriptor_of(text@) == Err::<DescriptorModel, ParseFailureModel>(f@),
            },
    {
        let top = match object_of(text) {
            Some(top) => top,
            None => return Err(ParseFailure::MalformedJson),
        };
        let jvm = match argument_list_of(&top, "jvm") {
            Some(a) => a,
            None => return Err(missing("arguments.jvm")),
        };
        let game = match argument_list_of(&top, "game") {
            Some(a) => a,
            None => return Err(missing("arguments.game")),
        };
        let main_class = match member_text_of(&top, "mainClass") {
            Some(m) => m,
            None => return Err(missing("mainClass")),
        };
        let asset_index = match asset_index_of(&top) {
            Some(a) => a,
            None => return Err(missing("assetIndex.id")),
        };
        let libraries = match member_array_of(&top, "libraries") {
            Some(items) => collect_library_names(&items),
            None => Vec::new(),
        };
        proof {
            if member_array(top.deep_view(), "libraries"@) is None {
                assert(libraries.deep_view() =~= seq![]);
            }
        }
        Ok(VersionDescriptor {
            jvm_args: collect_strings(&jvm),
            game_args: collect_strings(&game),
            main_class,
            asset_index,
            libraries,
        })
    }

    /// Reads a version descriptor from its file's contents, `None` where the
    /// file does not exist.
    pub fn read(contents: Option<String>) -> (r: Result<VersionDescriptor, ParseFailure>)
        ensures
            contents is None ==> r == Err::<VersionDescriptor, ParseFailure>(ParseFailure::NotFound),
            contents matches Some(t) ==> match r {
                Ok(d) => descriptor_of(t@) == Ok::<DescriptorModel, ParseFailureModel>(d@),
                Err(f) => descriptor_of(t@) == Err::<DescriptorModel, ParseFailureModel>(f@),
            },
    {
        match contents {
            None => Err(ParseFailure::NotFound),
            Some(t) => VersionDescriptor::parse(t.as_str()),
        }
    }
}

/// The abort reason a failed read is reported under: a missing arguments
/// block means the loader's descriptor has no arguments; any other failure
/// means the loader is missing or malformed.
pub open spec fn parse_abort_reason(f: ParseFailureModel) -> LaunchAbortReason {
    match f {
        ParseFailureModel::NotFound => LaunchAbortReason::FMLMissing,
        ParseFailureModel::MalformedJson => LaunchAbortReason::FMLMalformed,
        ParseFailureModel::MissingRequiredField(n) => if n == "arguments.jvm"@ || n == "arguments.game"@ {
            LaunchAbortReason::NoArgumentsFound
        } else {
            LaunchAbortReason::FMLMalformed
        },
    }
}

impl ParseFailure {
    pub fn abort_reason(&self) -> (r: LaunchAbortReason)
        ensures
            r == parse_abort_reason(self@),
    {
        match self {
            ParseFailure::NotFound => LaunchAbortReason::FMLMissing,
            ParseFailure::MalformedJson => LaunchAbortReason::FMLMalformed,
            ParseFailure::MissingRequiredField(n) => {
                if same_text(n.as_str(), "arguments.jvm") || same_text(n.as_str(), "arguments.game") {
                    LaunchAbortReason::NoArgumentsFound
                } else {
                    LaunchAbortReason::FMLMalformed
                }
            },
        }
    }
}

fn concat(a: &Vec<String>, b: &Vec<String>) -> (r: Vec<String>)
    ensures
        r.deep_view() == a.deep_view() + b.deep_view(),
{
    let mut r: Vec<String> = Vec::new();
    let mut i: usize = 0;
    assert(r.deep_view() =~= a.deep_view().take(0));
    while i < a.len()
        invariant
            i <= a.len(),
            r.deep_view() == a.deep_view().take(i as int),
        decreases a.len() - i,
    {
        push_text(&mut r, a[i].as_str());
        assert(r.deep_view() =~= a.deep_view().take(i + 1));
        i = i + 1;
    }
    assert(a.deep_view().take(i as int) =~= a.deep_view());
    let mut j: usize = 0;
    while j < b.len()
        invariant
            j <= b.len(),
            r.deep_view() == a.deep_view() + b.deep_view().take(j as int),
        decreases b.len() - j,
    {
        push_text(&mut r, b[j].as_str());
        assert(r.deep_view() =~= a.deep_view() + b.deep_view().take(j + 1));
        j = j + 1;
    }
    assert(b.deep_view().take(j as int) =~= b.deep_view());
    r
}

impl VersionDescriptor {
    /// A loader's descriptor laid over the base game's: the base game's
    /// arguments come first, then the loader's; the loader's main class
    /// starts the game; the asset index is the base game's; the libraries
    /// are the base game's, then the loader's.
    pub fn layered(base: &VersionDescriptor, loader: &VersionDescriptor) -> (r: VersionDescriptor)
        ensures
            r@ == (DescriptorModel {
                jvm_args: base@.jvm_args + loader@.jvm_args,
                game_args: base@.game_args + loader@.game_args,
                main_class: loader@.main_class,
                asset_index: base@.asset_index,
                libraries: base@.libraries + loader@.libraries,
            }),
    {
        VersionDescriptor {
            jvm_args: concat(&base.jvm_args, &loader.jvm_args),
            game_args: concat(&base.game_args, &loader.game_args),
            main_class: String::from_str(loader.main_class.as_str()),
            asset_index: String::from_str(base.asset_index.as_str()),
            libraries: concat(&base.libraries, &loader.libraries),
        }
    }
}

} // verus!
