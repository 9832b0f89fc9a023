//! Content data model: scenes, characters, chapters, judgments, clues and the
//! flat condition expressions that gate topics, branches and narrative.
//!
//! These are the raw records of the data files; references between them are
//! resolved by [`crate::content::engine::ContentEngine`] and validated by
//! [`crate::content::checker`]. Ids are plain strings here.

use vstd::prelude::*;

use crate::error::AppError;
use crate::text::{contains_char, owned, str_eq};
use crate::world::World;

verus! {

/// Id of the narrative record kept when the player first tries to leave
/// town; reserved, content may not declare it.
pub const LEAVE_ATTEMPT_TRIGGER: &'static str = "leave_attempt";

/// Flat condition expression. Lists hold bare ids only: nesting is rejected
/// when the data is decoded.
#[derive(Debug, Clone, PartialEq, Eq)]
pub enum Condition {
    /// The fact (a clue, judgment or narrative id) is present.
    Fact(String),
    /// Every id is present (true when the list is empty).
    AllOf(Vec<String>),
    /// Some id is present (false when the list is empty).
    AnyOf(Vec<String>),
    /// The id is absent.
    Not(String),
}

impl Condition {
    /// Build a condition from the keyed form of the data file: exactly one of
    /// `all_of`, `any_of` and `not` must be given.
    pub fn from_keys(all_of: Option<Vec<String>>, any_of: Option<Vec<String>>, not: Option<String>) -> (r: Result<Condition, AppError>)
        ensures
            r matches Ok(c) ==> (match (all_of, any_of, not) {
                (Some(v), None, None) => c == Condition::AllOf(v),
                (None, Some(v), None) => c == Condition::AnyOf(v),
                (None, None, Some(s)) => c == Condition::Not(s),
                _ => false,
            }),
            r is Ok <==> (all_of is Some) as int + (any_of is Some) as int + (not is Some) as int == 1,
    {
        match (all_of, any_of, not) {
            (Some(v), None, None) => Ok(Condition::AllOf(v)),
            (None, Some(v), None) => Ok(Condition::AnyOf(v)),
            (None, None, Some(s)) => Ok(Condition::Not(s)),
            _ => Err(AppError::Yaml(owned("条件表达式须为裸 id、all_of、any_of 或 not 之一，不得混用或嵌套"))),
        }
    }
}

/// A dialogue topic.
#[derive(Debug, Clone, PartialEq, Eq)]
pub struct Topic {
    /// Topic id, unique within one chapter and character.
    pub id: String,
    /// Display name.
    pub label: String,
    /// `true`: askable from the start; `false`: unlocked by `unlock_after`,
    /// or never askable without it.
    pub available: bool,
    /// Unlock condition (meaningful when `available` is false).
    pub unlock_after: Option<Condition>,
}

/// A character's entry in a chapter.
#[derive(Debug, Clone, PartialEq, Eq)]
pub struct ChapterCharacter {
    /// Global character id.
    pub id: String,
    /// Scenes where the character appears this chapter; `None` means every scene.
    pub appears_in: Option<Vec<String>>,
    /// Topics the character can be asked about this chapter.
    pub topics: Vec<Topic>,
}

/// Paths of a scene's two descriptions.
#[derive(Debug, Clone, PartialEq, Eq)]
pub struct SceneDescription {
    pub surface: String,
    pub shadow: String,
}

/// The "you cannot leave town" text of an edge scene.
#[derive(Debug, Clone, PartialEq, Eq)]
pub struct ExitAttempt {
    pub text: String,
}

/// A global scene.
#[derive(Debug, Clone, PartialEq, Eq)]
pub struct Scene {
    pub id: String,
    pub name: String,
    /// Two-way connections (the reverse edge is added on load).
    pub connections: Vec<String>,
    /// One-way connections.
    pub one_way_connections: Vec<String>,
    pub description: SceneDescription,
    /// Present on edge scenes: moving out of town shows this text instead.
    pub exit_attempt: Option<ExitAttempt>,
}

/// A global character.
#[derive(Debug, Clone, PartialEq, Eq)]
pub struct Character {
    pub id: String,
    pub name: String,
}

/// A chapter branch: when `when` holds, go to `target`.
#[derive(Debug, Clone, PartialEq, Eq)]
pub struct Branch {
    pub when: Condition,
    pub target: String,
}

/// Where a chapter leads.
#[derive(Debug, Clone, PartialEq, Eq)]
pub struct NextConfig {
    /// Target when no branch matches.
    pub default: String,
    /// Branches, tried in order; the first that matches wins.
    pub branches: Vec<Branch>,
}

/// A narrative trigger (inner voice, memory fragment): shown once, when its
/// condition first holds.
#[derive(Debug, Clone, PartialEq, Eq)]
pub struct NarrativeItem {
    pub id: String,
    pub label: String,
    /// Condition; `None` fires on chapter entry.
    pub when: Option<Condition>,
    /// Markdown path relative to the chapter directory.
    pub text: String,
}

/// Chapter metadata.
#[derive(Debug, Clone, PartialEq, Eq)]
pub struct Chapter {
    pub id: String,
    pub title: String,
    /// Authoring order; no runtime effect.
    pub order: i64,
    /// Final chapter: has no `next`.
    pub ending: bool,
    pub intro: Option<String>,
    pub outro: Option<String>,
    pub scenes: Vec<String>,
    pub starting_scene: String,
    pub characters: Vec<ChapterCharacter>,
    /// Judgments needed before moving on; `None` means all of the chapter's.
    pub required_judgments: Option<Vec<String>>,
    pub next: Option<NextConfig>,
    pub narrative: Vec<NarrativeItem>,
}

/// A judgment point.
#[derive(Debug, Clone, PartialEq, Eq)]
pub struct Judgment {
    /// Globally unique id, also a fact once judged.
    pub id: String,
    /// Judged character id.
    pub target: String,
    /// Result text path relative to the chapter directory.
    pub result: String,
}

/// A clue.
#[derive(Debug, Clone, PartialEq, Eq)]
pub struct Clue {
    /// Globally unique id.
    pub id: String,
    /// Source dialogue, `{character}.{topic}`.
    pub source: String,
    /// World in which the dialogue yields the clue.
    pub world: World,
}

/// Records found by a string key (an id, or a judgment's target).
pub trait Keyed {
    spec fn key(&self) -> Seq<char>;

    fn key_str(&self) -> (r: &str)
        ensures
            r@ == self.key(),
    ;
}

impl Keyed for Scene {
    open spec fn key(&self) -> Seq<char> {
        self.id@
    }

    fn key_str(&self) -> (r: &str) {
        self.id.as_str()
    }
}

impl Keyed for Character {
    open spec fn key(&self) -> Seq<char> {
        self.id@
    }

    fn key_str(&self) -> (r: &str) {
        self.id.as_str()
    }
}

impl Keyed for Chapter {
    open spec fn key(&self) -> Seq<char> {
        self.id@
    }

    fn key_str(&self) -> (r: &str) {
        self.id.as_str()
    }
}

impl Keyed for ChapterCharacter {
    open spec fn key(&self) -> Seq<char> {
        self.id@
    }

    fn key_str(&self) -> (r: &str) {
        self.id.as_str()
    }
}

impl Keyed for Topic {
    open spec fn key(&self) -> Seq<char> {
        self.id@
    }

    fn key_str(&self) -> (r: &str) {
        self.id.as_str()
    }
}

impl Keyed for NarrativeItem {
    open spec fn key(&self) -> Seq<char> {
        self.id@
    }

    fn key_str(&self) -> (r: &str) {
        self.id.as_str()
    }
}

impl Keyed for Judgment {
    open spec fn key(&self) -> Seq<char> {
        self.id@
    }

    fn key_str(&self) -> (r: &str) {
        self.id.as_str()
    }
}

/// Index of the first record at or after `i` whose key is `k`.
pub open spec fn first_key<T: Keyed>(s: Seq<T>, k: Seq<char>, i: int) -> Option<int>
    decreases s.len() - i,
{
    if i < 0 || i >= s.len() {
        None
    } else if s[i].key() == k {
        Some(i)
    } else {
        first_key(s, k, i + 1)
    }
}

/// The first record whose key is `k`.
pub open spec fn lookup_key<T: Keyed>(s: Seq<T>, k: Seq<char>) -> Option<T> {
    match first_key(s, k, 0) {
        Some(i) => Some(s[i]),
        None => None,
    }
}

pub proof fn lemma_first_key_bounds<T: Keyed>(s: Seq<T>, k: Seq<char>, i: int)
    requires
        i >= 0,
    ensures
        first_key(s, k, i) matches Some(j) ==> i <= j < s.len() && s[j].key() == k,
        first_key(s, k, i) is None ==> forall|m: int| i <= m < s.len() ==> s[m].key() != k,
    decreases s.len() - i,
{
    if i < s.len() && s[i].key() != k {
        lemma_first_key_bounds(s, k, i + 1);
    }
}

/// Position of the first record whose key is `k`.
pub fn find_key<T: Keyed>(v: &Vec<T>, k: &str) -> (r: Option<usize>)
    ensures
        match r {
            Some(j) => first_key(v@, k@, 0) == Some(j as int),
            None => first_key(v@, k@, 0) is None,
        },
{
    let mut i: usize = 0;
    while i < v.len()
        invariant
            i <= v@.len(),
            first_key(v@, k@, i as int) == first_key(v@, k@, 0),
        decreases v@.len() - i,
    {
        if str_eq(v[i].key_str(), k) {
            return Some(i);
        }
        i += 1;
    }
    None
}

/// The first record whose key is `k`.
pub fn get_key<'a, T: Keyed>(v: &'a Vec<T>, k: &str) -> (r: Option<&'a T>)
    ensures
        match r {
            Some(x) => lookup_key(v@, k@) == Some(*x),
            None => lookup_key(v@, k@) is None,
        },
{
    match find_key(v, k) {
        Some(j) => {
            proof {
                lemma_first_key_bounds(v@, k@, 0);
            }
            Some(&v[j])
        },
        None => None,
    }
}

/// The first record of a slice whose key is `k`.
pub fn get_key_in<'a, T: Keyed>(v: &'a [T], k: &str) -> (r: Option<&'a T>)
    ensures
        match r {
            Some(x) => lookup_key(v@, k@) == Some(*x),
            None => lookup_key(v@, k@) is None,
        },
{
    let mut i: usize = 0;
    while i < v.len()
        invariant
            i <= v@.len(),
            first_key(v@, k@, i as int) == first_key(v@, k@, 0),
        decreases v@.len() - i,
    {
        if str_eq(v[i].key_str(), k) {
            proof {
                lemma_first_key_bounds(v@, k@, 0);
            }
            return Some(&v[i]);
        }
        i += 1;
    }
    None
}

/// `s` is `{a}.{b}` with exactly one dot and both sides non-empty; the sides.
pub open spec fn spec_dialogue_source(s: Seq<char>) -> Option<(Seq<char>, Seq<char>)> {
    if exists|p: int|
        0 < p < s.len() - 1 && s[p] == '.' && forall|q: int|
            0 <= q < s.len() && q != p ==> s[q] != '.' {
        let p = choose|p: int|
            0 < p < s.len() - 1 && s[p] == '.' && forall|q: int|
                0 <= q < s.len() && q != p ==> s[q] != '.';
        Some((s.take(p), s.skip(p + 1)))
    } else {
        None
    }
}

/// Split a `{character}.{topic}` source into its two parts; `None` when the
/// dot is missing, repeated, or a part is empty.
pub fn parse_dialogue_source(source: &str) -> (r: Option<(&str, &str)>)
    ensures
        r is Some <==> spec_dialogue_source(source@) is Some,
        r matches Some((a, b)) ==> spec_dialogue_source(source@) == Some((a@, b@)),
{
    let n = source.unicode_len();
    let mut i: usize = 0;
    while i < n && source.get_char(i) != '.'
        invariant
            n == source@.len(),
            i <= n,
            forall|q: int| 0 <= q < i ==> source@[q] != '.',
        decreases n - i,
    {
        i += 1;
    }
    if i == n || i == 0 || i + 1 == n {
        proof {
            if spec_dialogue_source(source@) is Some {
                let p = choose|p: int|
                    0 < p < source@.len() - 1 && source@[p] == '.' && forall|q: int|
                        0 <= q < source@.len() && q != p ==> source@[q] != '.';
                assert(p == i || p < i);
            }
        }
        return None;
    }
    let rest = source.substring_char(i + 1, n);
    if contains_char(rest, '.') {
        proof {
            let j = choose|j: int| 0 <= j < rest@.len() && rest@[j] == '.';
            assert(source@[i + 1 + j] == '.');
            if spec_dialogue_source(source@) is Some {
                let p = choose|p: int|
                    0 < p < source@.len() - 1 && source@[p] == '.' && forall|q: int|
                        0 <= q < source@.len() && q != p ==> source@[q] != '.';
                assert(source@[i as int] == '.');
            }
        }
        return None;
    }
    let head = source.substring_char(0, i);
    proof {
        assert forall|q: int| 0 <= q < source@.len() && q != i implies source@[q] != '.' by {
            if q > i {
                assert(rest@[q - i - 1] == source@[q]);
            }
        }
        let p = choose|p: int|
            0 < p < source@.len() - 1 && source@[p] == '.' && forall|q: int|
                0 <= q < source@.len() && q != p ==> source@[q] != '.';
        assert(p == i);
        assert(head@ =~= source@.take(i as int));
        assert(rest@ =~= source@.skip(i + 1));
    }
    Some((head, rest))
}

} // verus!
