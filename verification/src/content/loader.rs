//! Data sources and file-name helpers for loading content.
//!
//! A [`DataSource`] hides where the `data/` tree lives (a directory on disk,
//! or memory in tests); paths are relative to `data/` and use `/`. Decoding
//! of the YAML records is left to a [`ContentDecoder`].

use vstd::prelude::*;

use crate::content::models::{Chapter, Character, Clue, Judgment, Scene};
use crate::error::AppError;
use crate::strmap::StrMap;
use crate::text::{insert_sorted, join, join3, strs, owned, seq_ends_with, seq_starts_with, str_eq, strictly_sorted, strip_prefix, strip_suffix};
use crate::world::World;

verus! {

/// Where content data comes from.
pub trait DataSource {
    /// Whether the source describes its files by [`DataSource::files`]. One
    /// that does not (files on disk, which can change under it) is held to
    /// nothing by the contracts below.
    open spec fn modeled(&self) -> bool {
        false
    }

    /// The files of a modeled source: relative path to text.
    open spec fn files(&self) -> Map<Seq<char>, Seq<char>> {
        Map::empty()
    }

    /// Names of the direct children of a directory, sorted; empty when the
    /// directory does not exist.
    fn list_dir(&self, rel_dir: &str) -> (r: Result<Vec<String>, AppError>)
        ensures
            self.modeled() ==> r is Ok && listing(self.files(), rel_dir@, strs(r->Ok_0@)),
    ;

    /// Text of a file.
    fn read(&self, rel_path: &str) -> (r: Result<String, AppError>)
        ensures
            self.modeled() ==> (r is Ok <==> self.files().contains_key(rel_path@)),
            self.modeled() && r is Ok ==> r->Ok_0@ == self.files()[rel_path@],
    ;

    /// Whether a file or directory exists.
    fn path_exists(&self, rel_path: &str) -> (r: bool)
        ensures
            self.modeled() ==> (r <==> path_in(self.files(), rel_path@)),
    ;
}

/// `names` lists the directory `dir` of `files`: the first path components
/// under it, each once, sorted.
pub open spec fn listing(files: Map<Seq<char>, Seq<char>>, dir: Seq<char>, names: Seq<Seq<char>>) -> bool {
    &&& strictly_sorted(names)
    &&& forall|name: Seq<char>| #[trigger] names.contains(name) <==> is_child(files, dir, name)
}

/// `name` is a direct child (file or directory) of `dir` in `files`.
pub open spec fn is_child(files: Map<Seq<char>, Seq<char>>, dir: Seq<char>, name: Seq<char>) -> bool {
    exists|p: Seq<char>| files.contains_key(p) && child_of(p, dir) == Some(name)
}

/// `path` is a file of `files` or a directory holding one.
pub open spec fn path_in(files: Map<Seq<char>, Seq<char>>, path: Seq<char>) -> bool {
    files.contains_key(path) || exists|p: Seq<char>| files.contains_key(p) && seq_starts_with(p, path + "/"@)
}

/// Decoding of the YAML data records.
///
/// The `may_*` relations say what a decoder may answer for a text, as a
/// function's `call_ensures` does: a refusal comes only where `may_refuse_*`
/// holds, and a record only where `may_give_*` holds. Unless an
/// implementation says otherwise, any text may be refused and may give any
/// record, so these clauses hold of every decoder.
pub trait ContentDecoder {
    open spec fn may_refuse_scene(&self, text: Seq<char>) -> bool {
        true
    }

    open spec fn may_give_scene(&self, text: Seq<char>, s: Scene) -> bool {
        true
    }

    open spec fn may_refuse_character(&self, text: Seq<char>) -> bool {
        true
    }

    open spec fn may_give_character(&self, text: Seq<char>, c: Character) -> bool {
        true
    }

    open spec fn may_refuse_chapter(&self, text: Seq<char>) -> bool {
        true
    }

    open spec fn may_give_chapter(&self, text: Seq<char>, c: Chapter) -> bool {
        true
    }

    fn scene(&self, text: &str) -> (r: Result<Scene, AppError>)
        ensures
            r is Err ==> self.may_refuse_scene(text@),
            r is Ok ==> self.may_give_scene(text@, r->Ok_0),
    ;

    fn character(&self, text: &str) -> (r: Result<Character, AppError>)
        ensures
            r is Err ==> self.may_refuse_character(text@),
            r is Ok ==> self.may_give_character(text@, r->Ok_0),
    ;

    fn chapter(&self, text: &str) -> (r: Result<Chapter, AppError>)
        ensures
            r is Err ==> self.may_refuse_chapter(text@),
            r is Ok ==> self.may_give_chapter(text@, r->Ok_0),
    ;

    fn judgments(&self, text: &str) -> Result<Vec<Judgment>, AppError>;

    fn clues(&self, text: &str) -> Result<Vec<Clue>, AppError>;
}

/// The part of `s` before its first `/` (all of `s` without one).
pub open spec fn upto_slash(s: Seq<char>) -> Seq<char>
    decreases s.len(),
{
    if s.len() == 0 {
        s
    } else if s[0] == '/' {
        Seq::empty()
    } else {
        seq![s[0]] + upto_slash(s.drop_first())
    }
}

fn first_component(s: &str) -> (r: &str)
    ensures
        r@ == upto_slash(s@),
{
    let n = s.unicode_len();
    let mut i: usize = 0;
    assert(s@.skip(0) =~= s@);
    assert(s@.take(0) + upto_slash(s@.skip(0)) =~= upto_slash(s@));
    while i < n && s.get_char(i) != '/'
        invariant
            n == s@.len(),
            i <= n,
            s@.take(i as int) + upto_slash(s@.skip(i as int)) == upto_slash(s@),
        decreases n - i,
    {
        assert(s@.skip(i as int).drop_first() =~= s@.skip(i + 1));
        assert(s@.take(i + 1) =~= s@.take(i as int) + seq![s@[i as int]]);
        assert(s@.take(i as int) + (seq![s@[i as int]] + upto_slash(s@.skip(i + 1))) =~= s@.take(
            i + 1,
        ) + upto_slash(s@.skip(i + 1)));
        i += 1;
    }
    assert(s@.take(i as int) + upto_slash(s@.skip(i as int)) =~= s@.take(i as int));
    s.substring_char(0, i)
}

/// Key prefix of the children of `dir`.
pub open spec fn dir_prefix(dir: Seq<char>) -> Seq<char> {
    if dir.len() == 0 || dir == "/"@ {
        Seq::empty()
    } else {
        dir + "/"@
    }
}

/// Child name that a stored path contributes to a listing of `dir`.
pub open spec fn child_of(path: Seq<char>, dir: Seq<char>) -> Option<Seq<char>> {
    if seq_starts_with(path, dir_prefix(dir)) {
        Some(upto_slash(path.skip(dir_prefix(dir).len() as int)))
    } else {
        None
    }
}

/// In-memory data source (for tests): relative path to text.
#[derive(Debug)]
pub struct InMemorySource {
    pub files: StrMap<String>,
}

impl InMemorySource {
    pub fn new() -> (s: InMemorySource)
        ensures
            s.files@ == Map::<Seq<char>, String>::empty(),
    {
        InMemorySource { files: StrMap::new() }
    }

    /// Add or replace a file.
    pub fn insert(self, rel: &str, text: &str) -> (s: InMemorySource)
        ensures
            s.files@.dom() == self.files@.dom().insert(rel@),
            s.files@[rel@]@ == text@,
            s.files@.remove(rel@) == self.files@.remove(rel@),
    {
        let mut me = self;
        let t = owned(text);
        me.files.insert(owned(rel), t);
        proof {
            assert(me.files@.remove(rel@) =~= self.files@.remove(rel@));
        }
        me
    }

    /// Children of `rel_dir`: sorted, without duplicates, exactly the first
    /// path components under it.
    pub fn list_dir(&self, rel_dir: &str) -> (r: Result<Vec<String>, AppError>)
        ensures
            r matches Ok(v) ==> strictly_sorted(strs(v@)) && forall|name: Seq<char>|
                #[trigger] strs(v@).to_set().contains(name) <==> exists|i: int|
                    0 <= i < self.files.spec_len() && child_of(self.files.key_at(i), rel_dir@)
                        == Some(name),
            r is Ok,
    {
        let prefix = if rel_dir.unicode_len() == 0 || str_eq(rel_dir, "/") {
            String::new()
        } else {
            let mut p = owned(rel_dir);
            p.append("/");
            p
        };
        proof {
            assert(prefix@ == dir_prefix(rel_dir@));
        }
        let mut names: Vec<String> = Vec::new();
        let mut i: usize = 0;
        assert(strs(names@) =~= Seq::<Seq<char>>::empty());
        while i < self.files.len()
            invariant
                prefix@ == dir_prefix(rel_dir@),
                i <= self.files.spec_len(),
                strictly_sorted(strs(names@)),
                forall|name: Seq<char>|
                    #[trigger] strs(names@).to_set().contains(name) <==> exists|
                        k: int,
                    |
                        0 <= k < i && child_of(self.files.key_at(k), rel_dir@) == Some(name),
            decreases self.files.spec_len() - i,
        {
            let (path, _) = self.files.entry(i);
            let ghost before = strs(names@).to_set();
            match strip_prefix(path.as_str(), prefix.as_str()) {
                Some(rest) => {
                    let name = first_component(rest);
                    assert(rest@ =~= path@.skip(prefix@.len() as int));
                    insert_sorted(&mut names, owned(name));
                    proof {
                        assert forall|nm: Seq<char>|
                            #[trigger] strs(names@).to_set().contains(nm)
                                <==> exists|k: int|
                                0 <= k < i + 1 && child_of(self.files.key_at(k), rel_dir@) == Some(
                                    nm,
                                ) by {
                            if nm == name@ {
                                assert(child_of(self.files.key_at(i as int), rel_dir@) == Some(nm));
                            }
                            if exists|k: int|
                                0 <= k < i + 1 && child_of(self.files.key_at(k), rel_dir@) == Some(
                                    nm,
                                ) {
                                let k = choose|k: int|
                                    0 <= k < i + 1 && child_of(self.files.key_at(k), rel_dir@)
                                        == Some(nm);
                                if k < i {
                                    assert(before.contains(nm));
                                }
                            }
                        }
                    }
                },
                None => {
                    proof {
                        assert forall|nm: Seq<char>|
                            #[trigger] strs(names@).to_set().contains(nm)
                                <==> exists|k: int|
                                0 <= k < i + 1 && child_of(self.files.key_at(k), rel_dir@) == Some(
                                    nm,
                                ) by {
                            if exists|k: int|
                                0 <= k < i + 1 && child_of(self.files.key_at(k), rel_dir@) == Some(
                                    nm,
                                ) {
                                let k = choose|k: int|
                                    0 <= k < i + 1 && child_of(self.files.key_at(k), rel_dir@)
                                        == Some(nm);
                                if k < i {
                                    assert(before.contains(nm));
                                }
                            }
                        }
                    }
                },
            }
            i += 1;
        }
        Ok(names)
    }

    /// Text of a stored file; an error when absent.
    pub fn read(&self, rel_path: &str) -> (r: Result<String, AppError>)
        ensures
            r is Ok <==> self.files@.contains_key(rel_path@),
            r matches Ok(t) ==> t@ == self.files@[rel_path@]@,
    {
        match self.files.get(rel_path) {
            Some(t) => Ok(t.clone()),
            None => Err(AppError::Content(join("内存数据源缺少文件: ", rel_path))),
        }
    }

    /// A stored file, or a directory holding one.
    pub fn path_exists(&self, rel_path: &str) -> (r: bool)
        ensures
            r == (self.files@.contains_key(rel_path@) || exists|i: int|
                0 <= i < self.files.spec_len() && seq_starts_with(
                    self.files.key_at(i),
                    rel_path@ + "/"@,
                )),
    {
        if self.files.contains_key(rel_path) {
            return true;
        }
        let dir = join(rel_path, "/");
        let mut i: usize = 0;
        while i < self.files.len()
            invariant
                dir@ == rel_path@ + "/"@,
                i <= self.files.spec_len(),
                forall|k: int| 0 <= k < i ==> !seq_starts_with(self.files.key_at(k), dir@),
            decreases self.files.spec_len() - i,
        {
            let (path, _) = self.files.entry(i);
            if crate::text::starts_with(path.as_str(), dir.as_str()) {
                return true;
            }
            i += 1;
        }
        false
    }
}

impl DataSource for InMemorySource {
    open spec fn modeled(&self) -> bool {
        true
    }

    open spec fn files(&self) -> Map<Seq<char>, Seq<char>> {
        self.files@.map_values(|t: String| t@)
    }

    fn list_dir(&self, rel_dir: &str) -> (r: Result<Vec<String>, AppError>) {
        let r = InMemorySource::list_dir(self, rel_dir);
        proof {
            self.files.lemma_entries();
            let names = strs(r->Ok_0@);
            assert forall|name: Seq<char>| #[trigger] names.contains(name) <==> exists|p: Seq<char>|
                self.files().contains_key(p) && child_of(p, rel_dir@) == Some(name) by {
                assert(names.contains(name) <==> names.to_set().contains(name));
                if names.contains(name) {
                    let i = choose|i: int| 0 <= i < self.files.spec_len() && child_of(self.files.key_at(i), rel_dir@)
                        == Some(name);
                    assert(self.files().contains_key(self.files.key_at(i)));
                }
                if exists|p: Seq<char>| self.files().contains_key(p) && child_of(p, rel_dir@) == Some(name) {
                    let p = choose|p: Seq<char>| self.files().contains_key(p) && child_of(p, rel_dir@) == Some(name);
                    assert(self.files@.contains_key(p));
                    let i = choose|i: int| 0 <= i < self.files.spec_len() && self.files.key_at(i) == p
                        && self.files.val_at(i) == self.files@[p];
                    assert(names.to_set().contains(name));
                }
            }
        }
        r
    }

    fn read(&self, rel_path: &str) -> (r: Result<String, AppError>) {
        InMemorySource::read(self, rel_path)
    }

    fn path_exists(&self, rel_path: &str) -> (r: bool) {
        let r = InMemorySource::path_exists(self, rel_path);
        proof {
            self.files.lemma_entries();
            if r && !self.files@.contains_key(rel_path@) {
                let i = choose|i: int| 0 <= i < self.files.spec_len() && seq_starts_with(
                    self.files.key_at(i),
                    rel_path@ + "/"@,
                );
                assert(self.files().contains_key(self.files.key_at(i)));
            }
            if !r && path_in(self.files(), rel_path@) && !self.files@.contains_key(rel_path@) {
                let p = choose|p: Seq<char>| self.files().contains_key(p) && seq_starts_with(p, rel_path@ + "/"@);
                assert(self.files@.contains_key(p));
                let i = choose|i: int| 0 <= i < self.files.spec_len() && self.files.key_at(i) == p
                    && self.files.val_at(i) == self.files@[p];
                assert(false);
            }
        }
        r
    }
}

/// `name` without its `.yaml` extension, if it has one.
pub fn strip_yaml_ext(name: &str) -> (r: Option<&str>)
    ensures
        r is Some <==> seq_ends_with(name@, ".yaml"@),
        r matches Some(t) ==> t@ == name@.subrange(0, name@.len() - ".yaml"@.len()),
{
    strip_suffix(name, ".yaml")
}

/// `name` without its `.md` extension, if it has one.
pub fn strip_md_ext(name: &str) -> (r: Option<&str>)
    ensures
        r is Some <==> seq_ends_with(name@, ".md"@),
        r matches Some(t) ==> t@ == name@.subrange(0, name@.len() - ".md"@.len()),
{
    strip_suffix(name, ".md")
}

/// Scene and world of a chapter's scene override file
/// (`{scene}.surface.md` or `{scene}.shadow.md`).
pub open spec fn spec_scene_override(name: Seq<char>) -> Option<(Seq<char>, World)> {
    if seq_ends_with(name, ".surface.md"@) {
        Some((name.subrange(0, name.len() - ".surface.md"@.len()), World::Surface))
    } else if seq_ends_with(name, ".shadow.md"@) {
        Some((name.subrange(0, name.len() - ".shadow.md"@.len()), World::Shadow))
    } else {
        None
    }
}

pub fn parse_scene_override_name(name: &str) -> (r: Option<(String, World)>)
    ensures
        r is Some <==> spec_scene_override(name@) is Some,
        r matches Some((s, w)) ==> spec_scene_override(name@) == Some((s@, w)),
{
    if let Some(s) = strip_suffix(name, ".surface.md") {
        Some((owned(s), World::Surface))
    } else if let Some(s) = strip_suffix(name, ".shadow.md") {
        Some((owned(s), World::Shadow))
    } else {
        None
    }
}

} // verus!
