//! The save model.
//!
//! Stored facts are authoritative: collected clues, viewed dialogues and
//! made judgments are kept per chapter; a checkpoint only records the
//! lengths of those three lists at its creation, and a rollback truncates
//! them back. `discovered` is append-only exploration memory that no
//! rollback touches. The save is a plain string model, independent of the
//! content.

use vstd::prelude::*;

use crate::strmap::StrMap;
use crate::text::{dec, digit_char, join, join3, lemma_push_contains, owned, str_eq, strs, usize_str};
use crate::world::World;

verus! {

/// Current save format version.
pub const CURRENT_VERSION: u32 = 1;

/// A dialogue the player has seen.
#[derive(Debug, Clone, PartialEq, Eq)]
pub struct ViewedDialogue {
    pub character: String,
    pub topic: String,
    pub world: World,
    /// Snapshot path relative to the save root.
    pub snapshot: String,
}

/// A judgment the player has made.
#[derive(Debug, Clone, PartialEq, Eq)]
pub struct JudgmentMade {
    pub judgment: String,
    /// Snapshot path of the result text.
    pub result_snapshot: String,
}

/// A narrative item the player has been shown.
#[derive(Debug, Clone, PartialEq, Eq)]
pub struct NarrativeSeen {
    pub id: String,
    pub snapshot: String,
}

/// When a checkpoint was taken.
#[derive(Debug, Clone, Copy, PartialEq, Eq, Structural)]
pub enum CheckpointKind {
    /// On entering a chapter.
    ChapterStart,
    /// Just before a judgment.
    BeforeJudgment,
}

/// Lengths of a chapter's three authoritative lists at checkpoint time.
#[derive(Debug, Clone, Copy, PartialEq, Eq, Structural)]
pub struct CkptState {
    pub clues_len: usize,
    pub views_len: usize,
    pub judgments_len: usize,
}

impl Default for CkptState {
    fn default() -> (s: CkptState)
        ensures
            s.clues_len == 0 && s.views_len == 0 && s.judgments_len == 0,
    {
        CkptState { clues_len: 0, views_len: 0, judgments_len: 0 }
    }
}

/// A rollback target.
#[derive(Debug, Clone, PartialEq, Eq)]
pub struct Checkpoint {
    pub id: String,
    pub chapter: String,
    pub scene: String,
    pub world: World,
    pub kind: CheckpointKind,
    pub timestamp: String,
    pub state: CkptState,
}

/// Append-only exploration memory.
#[derive(Debug, Clone)]
pub struct Discovered {
    /// Chapters reached, in first-reached order, without duplicates.
    pub chapters: Vec<String>,
    /// Endings reached, without duplicates.
    pub endings: Vec<String>,
    /// Chapter to `{character}.{topic}` entries asked, without duplicates.
    pub topics: StrMap<Vec<String>>,
    /// Narrative items ever triggered, without duplicates.
    pub triggers: Vec<String>,
}

/// The whole save.
#[derive(Debug, Clone)]
pub struct Save {
    pub version: u32,
    pub timestamp: String,
    pub current_chapter: String,
    pub current_scene: String,
    pub current_world: World,
    /// Collected clue ids per chapter.
    pub collected_clues: StrMap<Vec<String>>,
    /// Viewed dialogues per chapter.
    pub viewed_dialogues: StrMap<Vec<ViewedDialogue>>,
    /// Made judgments per chapter.
    pub judgments_made: StrMap<Vec<JudgmentMade>>,
    /// Chapter to intro snapshot path.
    pub viewed_intros: StrMap<String>,
    /// Chapter to outro snapshot path.
    pub viewed_outros: StrMap<String>,
    /// Narrative items shown per chapter.
    pub viewed_narrative: StrMap<Vec<NarrativeSeen>>,
    /// Chapters passed through in the current run.
    pub chapter_path: Vec<String>,
    /// Checkpoints, in creation order.
    pub checkpoints: Vec<Checkpoint>,
    pub discovered: Discovered,
}

/// `v` with `x` appended unless already present.
pub open spec fn push_dedup_spec(v: Seq<Seq<char>>, x: Seq<char>) -> Seq<Seq<char>> {
    if v.contains(x) {
        v
    } else {
        v.push(x)
    }
}

/// Appending without duplicates keeps a list free of duplicates and leaves
/// the item in it exactly once.
pub proof fn lemma_push_dedup_distinct(v: Seq<Seq<char>>, x: Seq<char>)
    requires
        v.no_duplicates(),
    ensures
        push_dedup_spec(v, x).no_duplicates(),
        push_dedup_spec(v, x).contains(x),
{
    if !v.contains(x) {
        let w = v.push(x);
        assert(w[v.len() as int] == x);
        assert forall|i: int, j: int| 0 <= i < j < w.len() implies w[i] != w[j] by {
            if j == v.len() {
                assert(v[i] == w[i]);
            }
        }
    }
}

/// Append `item` unless already present.
pub fn push_dedup(vec: &mut Vec<String>, item: &str)
    ensures
        strs(final(vec)@) == push_dedup_spec(strs(old(vec)@), item@),
{
    let ghost v0 = strs(vec@);
    let mut i: usize = 0;
    while i < vec.len()
        invariant
            v0 == strs(vec@),
            i <= vec@.len(),
            forall|k: int| 0 <= k < i ==> vec@[k]@ != item@,
        decreases vec@.len() - i,
    {
        if str_eq(vec[i].as_str(), item) {
            assert(v0[i as int] == item@);
            return;
        }
        i += 1;
    }
    assert(!v0.contains(item@));
    vec.push(owned(item));
    assert(strs(vec@) =~= v0.push(item@));
}

impl Default for Discovered {
    fn default() -> (d: Discovered)
        ensures
            d.chapters@.len() == 0,
            d.endings@.len() == 0,
            d.topics@ == Map::<Seq<char>, Vec<String>>::empty(),
            d.triggers@.len() == 0,
    {
        Discovered { chapters: Vec::new(), endings: Vec::new(), topics: StrMap::new(), triggers: Vec::new() }
    }
}

/// Whether `id` occurs in the list.
pub fn contains_str(v: &Vec<String>, id: &str) -> (r: bool)
    ensures
        r == strs(v@).contains(id@),
{
    let mut i: usize = 0;
    while i < v.len()
        invariant
            i <= v@.len(),
            forall|k: int| 0 <= k < i ==> v@[k]@ != id@,
        decreases v@.len() - i,
    {
        if str_eq(v[i].as_str(), id) {
            assert(strs(v@)[i as int] == id@);
            return true;
        }
        i += 1;
    }
    false
}

impl Discovered {
    /// Record a chapter (kept in first-reached order).
    pub fn add_chapter(&mut self, chapter: &str)
        ensures
            strs(final(self).chapters@) == push_dedup_spec(strs(old(self).chapters@), chapter@),
            final(self).endings == old(self).endings,
            final(self).topics@ == old(self).topics@,
            final(self).triggers == old(self).triggers,
    {
        push_dedup(&mut self.chapters, chapter);
    }

    /// Record an ending.
    pub fn add_ending(&mut self, ending: &str)
        ensures
            strs(final(self).endings@) == push_dedup_spec(strs(old(self).endings@), ending@),
            *final(self) == (Discovered { endings: final(self).endings, ..*old(self) }),
            final(self).chapters == old(self).chapters,
            final(self).topics@ == old(self).topics@,
            final(self).triggers == old(self).triggers,
    {
        push_dedup(&mut self.endings, ending);
    }

    /// Record `{character}.{topic}` as asked in a chapter.
    pub fn add_topic(&mut self, chapter: &str, character: &str, topic: &str)
        ensures
            final(self).topics@.contains_key(chapter@),
            strs(final(self).topics@[chapter@]@) == push_dedup_spec(
                if old(self).topics@.contains_key(chapter@) { strs(old(self).topics@[chapter@]@) } else { Seq::empty() },
                character@ + "."@ + topic@,
            ),
            final(self).topics@.remove(chapter@) == old(self).topics@.remove(chapter@),
            final(self).chapters == old(self).chapters,
            final(self).endings == old(self).endings,
            final(self).triggers == old(self).triggers,
    {
        let mut entry = join(character, ".");
        entry.append(topic);
        let ghost t0 = self.topics@;
        let list = self.topics.get_or_insert_mut(chapter, Vec::new());
        proof {
            if !t0.contains_key(chapter@) {
                assert(strs(list@) =~= Seq::<Seq<char>>::empty());
            }
        }
        push_dedup(list, entry.as_str());
        proof {
            assert(self.topics@.remove(chapter@) =~= t0.remove(chapter@));
        }
    }

    /// Record a triggered narrative item.
    pub fn add_trigger(&mut self, id: &str)
        ensures
            strs(final(self).triggers@) == push_dedup_spec(strs(old(self).triggers@), id@),
            final(self).chapters == old(self).chapters,
            final(self).endings == old(self).endings,
            final(self).topics@ == old(self).topics@,
    {
        push_dedup(&mut self.triggers, id);
    }

    /// Whether a narrative item was ever triggered.
    pub fn triggered(&self, id: &str) -> (r: bool)
        ensures
            r == strs(self.triggers@).contains(id@),
    {
        contains_str(&self.triggers, id)
    }
}

impl Default for Save {
    /// An empty save of the current version.
    fn default() -> (s: Save)
        ensures
            s.version == CURRENT_VERSION,
            s.timestamp@.len() == 0,
            s.current_chapter@.len() == 0,
            s.current_scene@.len() == 0,
            s.current_world == World::Surface,
            s.collected_clues@ == Map::<Seq<char>, Vec<String>>::empty(),
            s.viewed_dialogues@ == Map::<Seq<char>, Vec<ViewedDialogue>>::empty(),
            s.judgments_made@ == Map::<Seq<char>, Vec<JudgmentMade>>::empty(),
            s.viewed_intros@ == Map::<Seq<char>, String>::empty(),
            s.viewed_outros@ == Map::<Seq<char>, String>::empty(),
            s.viewed_narrative@ == Map::<Seq<char>, Vec<NarrativeSeen>>::empty(),
            s.chapter_path@.len() == 0,
            s.checkpoints@.len() == 0,
            s.discovered.chapters@.len() == 0,
            s.discovered.endings@.len() == 0,
            s.discovered.topics@ == Map::<Seq<char>, Vec<String>>::empty(),
            s.discovered.triggers@.len() == 0,
    {
        Save {
            version: CURRENT_VERSION,
            timestamp: String::new(),
            current_chapter: String::new(),
            current_scene: String::new(),
            current_world: World::Surface,
            collected_clues: StrMap::new(),
            viewed_dialogues: StrMap::new(),
            judgments_made: StrMap::new(),
            viewed_intros: StrMap::new(),
            viewed_outros: StrMap::new(),
            viewed_narrative: StrMap::new(),
            chapter_path: Vec::new(),
            checkpoints: Vec::new(),
            discovered: Discovered::default(),
        }
    }
}

/// Length of a chapter's list in a per-chapter map (0 when absent).
pub open spec fn list_len<T>(m: Map<Seq<char>, Vec<T>>, chapter: Seq<char>) -> nat {
    if m.contains_key(chapter) {
        m[chapter]@.len()
    } else {
        0
    }
}

impl Save {
    /// A fresh save for a new game: at the first chapter and its starting
    /// scene, on the surface, with the first chapter discovered and on the
    /// path; no checkpoint yet.
    pub fn new_game(first_chapter: &str, starting_scene: &str, timestamp: String) -> (s: Save)
        ensures
            s.version == CURRENT_VERSION,
            s.timestamp == timestamp,
            s.current_chapter@ == first_chapter@,
            s.current_scene@ == starting_scene@,
            s.current_world == World::Surface,
            strs(s.chapter_path@) == seq![first_chapter@],
            strs(s.discovered.chapters@) == seq![first_chapter@],
            s.discovered.endings@.len() == 0,
            s.discovered.topics@ == Map::<Seq<char>, Vec<String>>::empty(),
            s.discovered.triggers@.len() == 0,
            s.collected_clues@ == Map::<Seq<char>, Vec<String>>::empty(),
            s.viewed_dialogues@ == Map::<Seq<char>, Vec<ViewedDialogue>>::empty(),
            s.judgments_made@ == Map::<Seq<char>, Vec<JudgmentMade>>::empty(),
            s.viewed_intros@ == Map::<Seq<char>, String>::empty(),
            s.viewed_outros@ == Map::<Seq<char>, String>::empty(),
            s.viewed_narrative@ == Map::<Seq<char>, Vec<NarrativeSeen>>::empty(),
            s.checkpoints@.len() == 0,
    {
        let mut discovered = Discovered::default();
        discovered.add_chapter(first_chapter);
        assert(strs(discovered.chapters@) =~= seq![first_chapter@]);
        let mut path: Vec<String> = Vec::new();
        path.push(owned(first_chapter));
        assert(strs(path@) =~= seq![first_chapter@]);
        let mut s = Save::default();
        s.timestamp = timestamp;
        s.current_chapter = owned(first_chapter);
        s.current_scene = owned(starting_scene);
        s.current_world = World::Surface;
        s.chapter_path = path;
        s.discovered = discovered;
        s
    }

    /// The chapter's collected clues, created empty if missing.
    pub fn clues_mut(&mut self, chapter: &str) -> (r: &mut Vec<String>)
        ensures
            r@ == if old(self).collected_clues@.contains_key(chapter@) {
                old(self).collected_clues@[chapter@]@
            } else {
                Seq::empty()
            },
            final(self).collected_clues@ == old(self).collected_clues@.insert(chapter@, *final(r)),
            *final(self) == (Save { collected_clues: final(self).collected_clues, ..*old(self) }),
    {
        self.collected_clues.get_or_insert_mut(chapter, Vec::new())
    }

    /// The chapter's viewed dialogues, created empty if missing.
    pub fn views_mut(&mut self, chapter: &str) -> (r: &mut Vec<ViewedDialogue>)
        ensures
            r@ == if old(self).viewed_dialogues@.contains_key(chapter@) {
                old(self).viewed_dialogues@[chapter@]@
            } else {
                Seq::empty()
            },
            final(self).viewed_dialogues@ == old(self).viewed_dialogues@.insert(chapter@, *final(r)),
            *final(self) == (Save { viewed_dialogues: final(self).viewed_dialogues, ..*old(self) }),
    {
        self.viewed_dialogues.get_or_insert_mut(chapter, Vec::new())
    }

    /// The chapter's made judgments, created empty if missing.
    pub fn judgments_mut(&mut self, chapter: &str) -> (r: &mut Vec<JudgmentMade>)
        ensures
            r@ == if old(self).judgments_made@.contains_key(chapter@) {
                old(self).judgments_made@[chapter@]@
            } else {
                Seq::empty()
            },
            final(self).judgments_made@ == old(self).judgments_made@.insert(chapter@, *final(r)),
            *final(self) == (Save { judgments_made: final(self).judgments_made, ..*old(self) }),
    {
        self.judgments_made.get_or_insert_mut(chapter, Vec::new())
    }

    /// Whether the chapter's collected clues hold `clue`.
    pub open spec fn spec_has_clue(&self, chapter: Seq<char>, clue: Seq<char>) -> bool {
        self.collected_clues@.contains_key(chapter) && strs(self.collected_clues@[chapter]@).contains(clue)
    }

    pub fn has_clue(&self, chapter: &str, clue: &str) -> (r: bool)
        ensures
            r == self.spec_has_clue(chapter@, clue@),
    {
        match self.collected_clues.get(chapter) {
            Some(v) => contains_str(v, clue),
            None => false,
        }
    }

    /// Whether the chapter's made judgments hold `judgment`.
    pub open spec fn spec_judged(&self, chapter: Seq<char>, judgment: Seq<char>) -> bool {
        self.judgments_made@.contains_key(chapter) && exists|i: int|
            0 <= i < self.judgments_made@[chapter]@.len() && #[trigger] self.judgments_made@[chapter]@[i].judgment@ == judgment
    }

    pub fn judged(&self, chapter: &str, judgment: &str) -> (r: bool)
        ensures
            r == self.spec_judged(chapter@, judgment@),
    {
        match self.judgments_made.get(chapter) {
            Some(v) => {
                let mut i: usize = 0;
                while i < v.len()
                    invariant
                        self.judgments_made@.contains_key(chapter@),
                        *v == self.judgments_made@[chapter@],
                        i <= v@.len(),
                        forall|k: int| 0 <= k < i ==> v@[k].judgment@ != judgment@,
                    decreases v@.len() - i,
                {
                    if str_eq(v[i].judgment.as_str(), judgment) {
                        assert(self.judgments_made@[chapter@]@[i as int].judgment@ == judgment@);
                        return true;
                    }
                    i += 1;
                }
                false
            },
            None => false,
        }
    }
}

impl Checkpoint {
    /// Current lengths of a chapter's three authoritative lists.
    pub fn state_of(save: &Save, chapter: &str) -> (st: CkptState)
        ensures
            st.clues_len == list_len(save.collected_clues@, chapter@),
            st.views_len == list_len(save.viewed_dialogues@, chapter@),
            st.judgments_len == list_len(save.judgments_made@, chapter@),
    {
        let clues_len = match save.collected_clues.get(chapter) {
            Some(v) => v.len(),
            None => 0,
        };
        let views_len = match save.viewed_dialogues.get(chapter) {
            Some(v) => v.len(),
            None => 0,
        };
        let judgments_len = match save.judgments_made.get(chapter) {
            Some(v) => v.len(),
            None => 0,
        };
        CkptState { clues_len, views_len, judgments_len }
    }
}

/// Checkpoint id base for entering a chapter.
pub open spec fn spec_chapter_start_base(chapter: Seq<char>) -> Seq<char> {
    "ckpt_"@ + chapter + "_start"@
}

/// Checkpoint id base for a judgment.
pub open spec fn spec_before_judgment_base(judgment: Seq<char>) -> Seq<char> {
    "ckpt_before_"@ + judgment
}

pub fn chapter_start_id_base(chapter: &str) -> (r: String)
    ensures
        r@ == spec_chapter_start_base(chapter@),
{
    let mut r = join("ckpt_", chapter);
    r.append("_start");
    r
}

pub fn before_judgment_id_base(judgment_id: &str) -> (r: String)
    ensures
        r@ == spec_before_judgment_base(judgment_id@),
{
    join("ckpt_before_", judgment_id)
}

/// The `n`-th candidate id for `base`: `base`, then `base_2`, `base_3`, ...
pub open spec fn candidate(base: Seq<char>, n: nat) -> Seq<char> {
    if n <= 1 {
        base
    } else {
        base + "_"@ + dec(n)
    }
}

/// Ids of a list of checkpoints.
pub open spec fn ckpt_ids(cs: Seq<Checkpoint>) -> Seq<Seq<char>> {
    cs.map_values(|c: Checkpoint| c.id@)
}

proof fn lemma_dec_len(n: nat)
    ensures
        dec(n).len() >= 1,
        n >= 10 ==> dec(n).len() >= 2,
    decreases n,
{
    if n >= 10 {
        lemma_dec_len(n / 10);
    }
}

proof fn lemma_digit_injective(a: nat, b: nat)
    requires
        a < 10,
        b < 10,
        digit_char(a) == digit_char(b),
    ensures
        a == b,
{
    assert((digit_char(a) as int) == a + 48);
    assert((digit_char(b) as int) == b + 48);
}

proof fn lemma_dec_injective(a: nat, b: nat)
    requires
        dec(a) == dec(b),
    ensures
        a == b,
    decreases a,
{
    lemma_dec_len(a);
    lemma_dec_len(b);
    if a < 10 && b < 10 {
        assert(dec(a)[0] == digit_char(a));
        assert(dec(b)[0] == digit_char(b));
        lemma_digit_injective(a, b);
    } else if a >= 10 && b >= 10 {
        assert(dec(a).last() == digit_char(a % 10));
        assert(dec(b).last() == digit_char(b % 10));
        lemma_digit_injective(a % 10, b % 10);
        assert(dec(a).drop_last() =~= dec(a / 10));
        assert(dec(b).drop_last() =~= dec(b / 10));
        lemma_dec_injective(a / 10, b / 10);
    } else if a < 10 {
        lemma_dec_len(b / 10);
        assert(dec(a).len() == 1);
    } else {
        lemma_dec_len(a / 10);
        assert(dec(b).len() == 1);
    }
}

proof fn lemma_candidate_injective(base: Seq<char>, a: nat, b: nat)
    requires
        a >= 1,
        b >= 1,
        candidate(base, a) == candidate(base, b),
    ensures
        a == b,
{
    reveal_strlit("_");
    if a >= 2 && b >= 2 {
        let p: int = base.len() as int + 1;
        assert(candidate(base, a).skip(p) =~= dec(a));
        assert(candidate(base, b).skip(p) =~= dec(b));
        lemma_dec_injective(a, b);
    } else if a >= 2 {
        assert(candidate(base, a).len() > base.len());
    } else if b >= 2 {
        assert(candidate(base, b).len() > base.len());
    }
}

/// Among the first `ids.len() + 1` candidates, one is not in `ids`.
proof fn lemma_some_candidate_free(base: Seq<char>, ids: Seq<Seq<char>>)
    requires
        forall|m: nat| 1 <= m <= ids.len() ==> ids.contains(#[trigger] candidate(base, m)),
    ensures
        !ids.contains(candidate(base, (ids.len() + 1) as nat)),
{
    let k = ids.len();
    let cs = Seq::new(k + 1, |i: int| candidate(base, (i + 1) as nat));
    if ids.contains(candidate(base, (k + 1) as nat)) {
        assert forall|i: int, j: int| 0 <= i < cs.len() && 0 <= j < cs.len() && i != j implies cs[i] != cs[j] by {
            if cs[i] == cs[j] {
                lemma_candidate_injective(base, (i + 1) as nat, (j + 1) as nat);
            }
        }
        assert(cs.no_duplicates());
        cs.unique_seq_to_set();
        ids.lemma_cardinality_of_set();
        assert forall|x: Seq<char>| cs.to_set().contains(x) implies ids.to_set().contains(x) by {
            let i = choose|i: int| 0 <= i < cs.len() && cs[i] == x;
            assert(ids.contains(candidate(base, (i + 1) as nat)));
        }
        vstd::seq_lib::seq_to_set_is_finite(ids);
        vstd::set_lib::lemma_len_subset(cs.to_set(), ids.to_set());
    }
}

/// `r` is the first candidate for `base` that `ids` does not hold.
pub open spec fn first_free_id(base: Seq<char>, ids: Seq<Seq<char>>, r: Seq<char>) -> bool {
    exists|n: nat|
        n >= 1 && r == candidate(base, n) && !ids.contains(r) && forall|m: nat|
            1 <= m < n ==> ids.contains(#[trigger] candidate(base, m))
}

/// First candidate id for `base` that no existing checkpoint uses: `base`,
/// else `base_2`, `base_3`, ...
pub fn unique_checkpoint_id(base: &str, existing: &[Checkpoint]) -> (r: String)
    requires
        existing@.len() < usize::MAX,
    ensures
        first_free_id(base@, ckpt_ids(existing@), r@),
{
    let ghost ids = ckpt_ids(existing@);
    let k = existing.len();
    let mut n: usize = 1;
    let mut id = owned(base);
    loop
        invariant
            ids == ckpt_ids(existing@),
            k == existing@.len(),
            k < usize::MAX,
            1 <= n <= k + 1,
            id@ == candidate(base@, n as nat),
            forall|m: nat| 1 <= m < n ==> ids.contains(#[trigger] candidate(base@, m)),
        decreases k + 1 - n,
    {
        let mut taken = false;
        let mut i: usize = 0;
        while i < existing.len()
            invariant
                ids == ckpt_ids(existing@),
                i <= existing@.len(),
                taken == ids.take(i as int).contains(id@),
            decreases existing@.len() - i,
        {
            proof {
                assert(ids.take(i + 1) =~= ids.take(i as int).push(ids[i as int]));
                lemma_push_contains(ids.take(i as int), ids[i as int]);
            }
            if str_eq(existing[i].id.as_str(), id.as_str()) {
                taken = true;
            }
            i += 1;
        }
        assert(ids.take(existing@.len() as int) =~= ids);
        if !taken {
            return id;
        }
        proof {
            if n == k + 1 {
                lemma_some_candidate_free(base@, ids);
            }
        }
        n += 1;
        let suffix = usize_str(n);
        id = join3(base, "_", suffix.as_str());
        proof {
            reveal_strlit("_");
            assert(id@ == candidate(base@, n as nat));
        }
    }
}

/// Animation preference.
#[derive(Debug, Clone, Copy, PartialEq, Eq, Structural)]
pub enum Motion {
    Full,
    Reduced,
    Off,
}

impl Default for Motion {
    fn default() -> (m: Motion)
        ensures
            m == Motion::Full,
    {
        Motion::Full
    }
}

/// Settings file.
#[derive(Debug, Clone, Copy, PartialEq, Eq, Structural)]
pub struct Settings {
    pub version: u32,
    pub motion: Motion,
}

impl Default for Settings {
    fn default() -> (s: Settings)
        ensures
            s.version == 1,
            s.motion == Motion::Full,
    {
        Settings { version: 1, motion: Motion::Full }
    }
}

impl Motion {
    pub open spec fn spec_menu_id(self) -> Seq<char> {
        match self {
            Motion::Full => "motion_full"@,
            Motion::Reduced => "motion_reduced"@,
            Motion::Off => "motion_off"@,
        }
    }

    pub open spec fn spec_from_menu_id(id: Seq<char>) -> Option<Motion> {
        if id == "motion_full"@ {
            Some(Motion::Full)
        } else if id == "motion_reduced"@ {
            Some(Motion::Reduced)
        } else if id == "motion_off"@ {
            Some(Motion::Off)
        } else {
            None
        }
    }

    /// Settings menu option id.
    pub fn menu_id(self) -> (s: &'static str)
        ensures
            s@ == self.spec_menu_id(),
    {
        match self {
            Motion::Full => "motion_full",
            Motion::Reduced => "motion_reduced",
            Motion::Off => "motion_off",
        }
    }

    /// The motion a settings menu option id stands for.
    pub fn from_menu_id(id: &str) -> (m: Option<Motion>)
        ensures
            m == Motion::spec_from_menu_id(id@),
    {
        if str_eq(id, "motion_full") {
            Some(Motion::Full)
        } else if str_eq(id, "motion_reduced") {
            Some(Motion::Reduced)
        } else if str_eq(id, "motion_off") {
            Some(Motion::Off)
        } else {
            None
        }
    }

    /// Chinese label (data language).
    pub fn zh_label(self) -> (s: &'static str)
        ensures
            s@ == match self {
                Motion::Full => "动画：完整"@,
                Motion::Reduced => "动画：减少"@,
                Motion::Off => "动画：关闭"@,
            },
    {
        match self {
            Motion::Full => "动画：完整",
            Motion::Reduced => "动画：减少",
            Motion::Off => "动画：关闭",
        }
    }

    /// English label (interface language).
    pub fn en_label(self) -> (s: &'static str)
        ensures
            s@ == match self {
                Motion::Full => "Motion: Full"@,
                Motion::Reduced => "Motion: Reduced"@,
                Motion::Off => "Motion: Off"@,
            },
    {
        match self {
            Motion::Full => "Motion: Full",
            Motion::Reduced => "Motion: Reduced",
            Motion::Off => "Motion: Off",
        }
    }
}

/// A motion's menu id names that motion again.
pub proof fn lemma_motion_menu_id_roundtrip(m: Motion)
    ensures
        Motion::spec_from_menu_id(m.spec_menu_id()) == Some(m),
{
    reveal_strlit("motion_full");
    reveal_strlit("motion_reduced");
    reveal_strlit("motion_off");
    assert("motion_full"@.len() == 11);
    assert("motion_reduced"@.len() == 14);
    assert("motion_off"@.len() == 10);
}

/// Two maps of lists with the same keys and, under each, the same items.
pub open spec fn same_lists<T>(a: Map<Seq<char>, Vec<T>>, b: Map<Seq<char>, Vec<T>>) -> bool {
    &&& a.dom() == b.dom()
    &&& forall|k: Seq<char>| #[trigger] a.contains_key(k) ==> a[k]@ == b[k]@
}

/// Two saves hold the same data: every field equal, lists compared by
/// their items.
pub open spec fn same_save(a: Save, b: Save) -> bool {
    &&& a.version == b.version
    &&& a.timestamp == b.timestamp
    &&& a.current_chapter == b.current_chapter
    &&& a.current_scene == b.current_scene
    &&& a.current_world == b.current_world
    &&& same_lists(a.collected_clues@, b.collected_clues@)
    &&& same_lists(a.viewed_dialogues@, b.viewed_dialogues@)
    &&& same_lists(a.judgments_made@, b.judgments_made@)
    &&& a.viewed_intros@ == b.viewed_intros@
    &&& a.viewed_outros@ == b.viewed_outros@
    &&& same_lists(a.viewed_narrative@, b.viewed_narrative@)
    &&& a.chapter_path@ == b.chapter_path@
    &&& a.checkpoints@ == b.checkpoints@
    &&& a.discovered.chapters@ == b.discovered.chapters@
    &&& a.discovered.endings@ == b.discovered.endings@
    &&& same_lists(a.discovered.topics@, b.discovered.topics@)
    &&& a.discovered.triggers@ == b.discovered.triggers@
}

/// `same_save` is symmetric and transitive.
pub proof fn lemma_same_save_equivalence(a: Save, b: Save, c: Save)
    ensures
        same_save(a, a),
        same_save(a, b) ==> same_save(b, a),
        same_save(a, b) && same_save(b, c) ==> same_save(a, c),
{
}

fn copy_text(s: &String) -> (r: String)
    ensures
        r == *s,
{
    s.clone()
}

fn copy_texts(v: &Vec<String>) -> (r: Vec<String>)
    ensures
        r@ == v@,
{
    let mut r: Vec<String> = Vec::new();
    let mut i: usize = 0;
    while i < v.len()
        invariant
            i <= v@.len(),
            r@ == v@.take(i as int),
        decreases v@.len() - i,
    {
        r.push(v[i].clone());
        assert(v@.take(i + 1) =~= v@.take(i as int).push(v@[i as int]));
        i += 1;
    }
    assert(v@.take(v@.len() as int) =~= v@);
    r
}

fn copy_views(v: &Vec<ViewedDialogue>) -> (r: Vec<ViewedDialogue>)
    ensures
        r@ == v@,
{
    let mut r: Vec<ViewedDialogue> = Vec::new();
    let mut i: usize = 0;
    while i < v.len()
        invariant
            i <= v@.len(),
            r@ == v@.take(i as int),
        decreases v@.len() - i,
    {
        let x = &v[i];
        r.push(ViewedDialogue {
            character: x.character.clone(),
            topic: x.topic.clone(),
            world: x.world,
            snapshot: x.snapshot.clone(),
        });
        assert(v@.take(i + 1) =~= v@.take(i as int).push(v@[i as int]));
        i += 1;
    }
    assert(v@.take(v@.len() as int) =~= v@);
    r
}

fn copy_made(v: &Vec<JudgmentMade>) -> (r: Vec<JudgmentMade>)
    ensures
        r@ == v@,
{
    let mut r: Vec<JudgmentMade> = Vec::new();
    let mut i: usize = 0;
    while i < v.len()
        invariant
            i <= v@.len(),
            r@ == v@.take(i as int),
        decreases v@.len() - i,
    {
        let x = &v[i];
        r.push(JudgmentMade { judgment: x.judgment.clone(), result_snapshot: x.result_snapshot.clone() });
        assert(v@.take(i + 1) =~= v@.take(i as int).push(v@[i as int]));
        i += 1;
    }
    assert(v@.take(v@.len() as int) =~= v@);
    r
}

fn copy_seen(v: &Vec<NarrativeSeen>) -> (r: Vec<NarrativeSeen>)
    ensures
        r@ == v@,
{
    let mut r: Vec<NarrativeSeen> = Vec::new();
    let mut i: usize = 0;
    while i < v.len()
        invariant
            i <= v@.len(),
            r@ == v@.take(i as int),
        decreases v@.len() - i,
    {
        let x = &v[i];
        r.push(NarrativeSeen { id: x.id.clone(), snapshot: x.snapshot.clone() });
        assert(v@.take(i + 1) =~= v@.take(i as int).push(v@[i as int]));
        i += 1;
    }
    assert(v@.take(v@.len() as int) =~= v@);
    r
}

fn copy_checkpoints(v: &Vec<Checkpoint>) -> (r: Vec<Checkpoint>)
    ensures
        r@ == v@,
{
    let mut r: Vec<Checkpoint> = Vec::new();
    let mut i: usize = 0;
    while i < v.len()
        invariant
            i <= v@.len(),
            r@ == v@.take(i as int),
        decreases v@.len() - i,
    {
        let x = &v[i];
        r.push(Checkpoint {
            id: x.id.clone(),
            chapter: x.chapter.clone(),
            scene: x.scene.clone(),
            world: x.world,
            kind: x.kind,
            timestamp: x.timestamp.clone(),
            state: x.state,
        });
        assert(v@.take(i + 1) =~= v@.take(i as int).push(v@[i as int]));
        i += 1;
    }
    assert(v@.take(v@.len() as int) =~= v@);
    r
}

/// A copy of a save holding the same data.
pub fn copy_save(s: &Save) -> (r: Save)
    ensures
        same_save(r, *s),
{
    let collected_clues = s.collected_clues.copy_with(copy_texts);
    let viewed_dialogues = s.viewed_dialogues.copy_with(copy_views);
    let judgments_made = s.judgments_made.copy_with(copy_made);
    let viewed_intros = s.viewed_intros.copy_with(copy_text);
    let viewed_outros = s.viewed_outros.copy_with(copy_text);
    let viewed_narrative = s.viewed_narrative.copy_with(copy_seen);
    let topics = s.discovered.topics.copy_with(copy_texts);
    assert(viewed_intros@ =~= s.viewed_intros@);
    assert(viewed_outros@ =~= s.viewed_outros@);
    Save {
        version: s.version,
        timestamp: s.timestamp.clone(),
        current_chapter: s.current_chapter.clone(),
        current_scene: s.current_scene.clone(),
        current_world: s.current_world,
        collected_clues,
        viewed_dialogues,
        judgments_made,
        viewed_intros,
        viewed_outros,
        viewed_narrative,
        chapter_path: copy_texts(&s.chapter_path),
        checkpoints: copy_checkpoints(&s.checkpoints),
        discovered: Discovered {
            chapters: copy_texts(&s.discovered.chapters),
            endings: copy_texts(&s.discovered.endings),
            topics,
            triggers: copy_texts(&s.discovered.triggers),
        },
    }
}

} // verus!
