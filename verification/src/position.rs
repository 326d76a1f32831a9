//! Translation of a bill's counterparty (the "对方账户" column) into the
//! place and the room it stands for.
//!
//! The keywords are kept in the order they were loaded. A counterparty
//! equal to a keyword (after trimming) takes that keyword's entry; failing
//! that, the first keyword it contains decides.
use vstd::prelude::*;
use vstd::string::*;

use crate::text::{contains, contains_str, occurs_at, str_eq, trim, trim_string};

verus! {

/// A place and a room.
#[derive(Debug, Clone)]
pub struct PositionEntry {
    pub position: String,
    pub room: String,
}

/// The first keyword from position `i` on that equals `t`.
pub open spec fn exact_from(kws: Seq<(String, PositionEntry)>, t: Seq<char>, i: int) -> Option<int>
    decreases kws.len() - i,
{
    if i < 0 || i >= kws.len() {
        None
    } else if kws[i].0@ == t {
        Some(i)
    } else {
        exact_from(kws, t, i + 1)
    }
}

/// The first keyword from position `i` on that occurs in `t`.
pub open spec fn fuzzy_from(kws: Seq<(String, PositionEntry)>, t: Seq<char>, i: int) -> Option<int>
    decreases kws.len() - i,
{
    if i < 0 || i >= kws.len() {
        None
    } else if contains(t, kws[i].0@) {
        Some(i)
    } else {
        fuzzy_from(kws, t, i + 1)
    }
}

pub open spec fn entry_pair(e: PositionEntry) -> (Seq<char>, Seq<char>) {
    (e.position@, e.room@)
}

/// What a counterparty translates to: the entry of the keyword equal to the
/// trimmed counterparty, else that of the first keyword it contains.
pub open spec fn translate_spec(kws: Seq<(String, PositionEntry)>, target: Seq<char>) -> Option<
    (Seq<char>, Seq<char>),
> {
    let t = trim(target);
    match exact_from(kws, t, 0) {
        Some(i) => Some(entry_pair(kws[i].1)),
        None => match fuzzy_from(kws, t, 0) {
            Some(i) => Some(entry_pair(kws[i].1)),
            None => None,
        },
    }
}

pub open spec fn pair_view(p: (String, String)) -> (Seq<char>, Seq<char>) {
    (p.0@, p.1@)
}

/// No keyword occurs twice.
pub open spec fn keys_distinct(kws: Seq<(String, PositionEntry)>) -> bool {
    forall|i: int, j: int|
        0 <= i < kws.len() && 0 <= j < kws.len() && i != j ==> #[trigger] kws[i].0@ != #[trigger] kws[j].0@
}

/// Translates counterparties by keyword.
#[derive(Debug, Clone)]
pub struct PositionTranslator {
    pub field: String,
    pub keywords: Vec<(String, PositionEntry)>,
}

impl Default for PositionTranslator {
    fn default() -> (r: Self)
        ensures
            r.field@ == "target"@,
            r.keywords@.len() == 0,
    {
        PositionTranslator { field: String::from_str("target"), keywords: Vec::new() }
    }
}

fn entry_strings(e: &PositionEntry) -> (r: (String, String))
    ensures
        pair_view(r) == entry_pair(*e),
{
    (e.position.clone(), e.room.clone())
}

impl PositionTranslator {
    /// The place and room of a counterparty, or `None` when no keyword
    /// applies.
    pub fn translate(&self, target_user: &str) -> (r: Option<(String, String)>)
        ensures
            match r {
                Some(p) => translate_spec(self.keywords@, target_user@) == Some(pair_view(p)),
                None => translate_spec(self.keywords@, target_user@) is None,
            },
            r is None <==> forall|k: int|
                0 <= k < self.keywords@.len() ==> !contains(
                    trim(target_user@),
                    #[trigger] self.keywords@[k].0@,
                ),
            forall|i: int|
                0 <= i < self.keywords@.len() && #[trigger] self.keywords@[i].0@ == trim(target_user@)
                    && (forall|k: int| 0 <= k < i ==> self.keywords@[k].0@ != trim(target_user@))
                    ==> (r matches Some(p) && pair_view(p) == entry_pair(self.keywords@[i].1)),
            keys_distinct(self.keywords@) ==> forall|i: int|
                0 <= i < self.keywords@.len() && #[trigger] self.keywords@[i].0@ == trim(target_user@)
                    ==> (r matches Some(p) && pair_view(p) == entry_pair(self.keywords@[i].1)),
    {
        let r = self.lookup(target_user);
        proof {
            lemma_translate_none(self.keywords@, target_user@);
            assert forall|i: int|
                0 <= i < self.keywords@.len() && #[trigger] self.keywords@[i].0@ == trim(target_user@)
                    && (forall|k: int| 0 <= k < i ==> self.keywords@[k].0@ != trim(target_user@)) implies translate_spec(
                self.keywords@,
                target_user@,
            ) == Some(entry_pair(self.keywords@[i].1)) by {
                lemma_translate_first_exact(self.keywords@, target_user@, i);
            }
            assert forall|i: int|
                keys_distinct(self.keywords@) && 0 <= i < self.keywords@.len()
                    && #[trigger] self.keywords@[i].0@ == trim(target_user@) implies translate_spec(
                self.keywords@,
                target_user@,
            ) == Some(entry_pair(self.keywords@[i].1)) by {
                lemma_translate_exact(self.keywords@, target_user@, i);
            }
        }
        r
    }

    fn lookup(&self, target_user: &str) -> (r: Option<(String, String)>)
        ensures
            match r {
                Some(p) => translate_spec(self.keywords@, target_user@) == Some(pair_view(p)),
                None => translate_spec(self.keywords@, target_user@) is None,
            },
    {
        let trimmed = trim_string(target_user);
        let t = trimmed.as_str();
        let ghost tv = trim(target_user@);
        let mut i: usize = 0;
        while i < self.keywords.len()
            invariant
                t@ == tv,
                tv == trim(target_user@),
                i <= self.keywords.len(),
                exact_from(self.keywords@, tv, 0) == exact_from(self.keywords@, tv, i as int),
            decreases self.keywords.len() - i,
        {
            if str_eq(self.keywords[i].0.as_str(), t) {
                assert(exact_from(self.keywords@, tv, i as int) == Some(i as int));
                return Some(entry_strings(&self.keywords[i].1));
            }
            i = i + 1;
        }
        let mut j: usize = 0;
        while j < self.keywords.len()
            invariant
                t@ == tv,
                tv == trim(target_user@),
                j <= self.keywords.len(),
                exact_from(self.keywords@, tv, 0) is None,
                fuzzy_from(self.keywords@, tv, 0) == fuzzy_from(self.keywords@, tv, j as int),
            decreases self.keywords.len() - j,
        {
            if contains_str(t, self.keywords[j].0.as_str()) {
                assert(fuzzy_from(self.keywords@, tv, j as int) == Some(j as int));
                return Some(entry_strings(&self.keywords[j].1));
            }
            j = j + 1;
        }
        None
    }

    /// Sets the entry of a keyword: an existing keyword keeps its place in
    /// the order and takes the new entry, a new one is appended.
    pub fn insert(&mut self, keyword: String, entry: PositionEntry)
        ensures
            final(self).field == old(self).field,
            match exact_from(old(self).keywords@, keyword@, 0) {
                Some(i) => final(self).keywords@ == old(self).keywords@.update(i, (keyword, entry)),
                None => final(self).keywords@ == old(self).keywords@.push((keyword, entry)),
            },
            keys_distinct(old(self).keywords@) ==> keys_distinct(final(self).keywords@),
    {
        let ghost kws = self.keywords@;
        let mut i: usize = 0;
        while i < self.keywords.len()
            invariant
                i <= self.keywords.len(),
                self.keywords@ == kws,
                kws == old(self).keywords@,
                self.field == old(self).field,
                exact_from(kws, keyword@, 0) == exact_from(kws, keyword@, i as int),
            decreases self.keywords.len() - i,
        {
            if str_eq(self.keywords[i].0.as_str(), keyword.as_str()) {
                assert(exact_from(kws, keyword@, i as int) == Some(i as int));
                self.keywords.set(i, (keyword, entry));
                proof {
                    let nk = self.keywords@;
                    assert forall|a: int, b: int|
                        keys_distinct(kws) && 0 <= a < nk.len() && 0 <= b < nk.len() && a != b implies #[trigger] nk[a].0@
                        != #[trigger] nk[b].0@ by {
                        assert(kws[a].0@ != kws[b].0@);
                    }
                }
                return;
            }
            i = i + 1;
        }
        proof {
            lemma_exact_none(kws, keyword@, 0);
        }
        self.keywords.push((keyword, entry));
        proof {
            let nk = self.keywords@;
            assert forall|a: int, b: int|
                keys_distinct(kws) && 0 <= a < nk.len() && 0 <= b < nk.len() && a != b implies #[trigger] nk[a].0@
                != #[trigger] nk[b].0@ by {
                if a < kws.len() && b < kws.len() {
                    assert(kws[a].0@ != kws[b].0@);
                } else if a < kws.len() {
                    assert(kws[a].0@ != keyword@);
                } else {
                    assert(kws[b].0@ != keyword@);
                }
            }
        }
    }

    /// The translation, or the counterparty itself as both place and room.
    pub fn translate_or_raw(&self, target_user: &str) -> (r: (String, String))
        ensures
            pair_view(r) == match translate_spec(self.keywords@, target_user@) {
                Some(p) => p,
                None => (target_user@, target_user@),
            },
    {
        match self.translate(target_user) {
            Some(p) => p,
            None => (String::from_str(target_user), String::from_str(target_user)),
        }
    }
}

proof fn lemma_exact_reaches(kws: Seq<(String, PositionEntry)>, t: Seq<char>, j: int, i: int)
    requires
        0 <= j <= i < kws.len(),
        kws[i].0@ == t,
        forall|k: int| j <= k < i ==> #[trigger] kws[k].0@ != t,
    ensures
        exact_from(kws, t, j) == Some(i),
    decreases i - j,
{
    if j < i {
        lemma_exact_reaches(kws, t, j + 1, i);
    }
}

proof fn lemma_exact_none(kws: Seq<(String, PositionEntry)>, t: Seq<char>, i: int)
    requires
        0 <= i,
        exact_from(kws, t, i) is None,
    ensures
        forall|k: int| i <= k < kws.len() ==> #[trigger] kws[k].0@ != t,
    decreases kws.len() - i,
{
    if i < kws.len() {
        lemma_exact_none(kws, t, i + 1);
    }
}

proof fn lemma_fuzzy_none(kws: Seq<(String, PositionEntry)>, t: Seq<char>, i: int)
    requires
        0 <= i,
    ensures
        fuzzy_from(kws, t, i) is None <==> forall|k: int|
            i <= k < kws.len() ==> !contains(t, #[trigger] kws[k].0@),
    decreases kws.len() - i,
{
    if i < kws.len() {
        lemma_fuzzy_none(kws, t, i + 1);
    }
}

proof fn lemma_exact_some(kws: Seq<(String, PositionEntry)>, t: Seq<char>, i: int)
    requires
        0 <= i,
        exact_from(kws, t, i) is Some,
    ensures
        i <= exact_from(kws, t, i)->0 < kws.len(),
        kws[exact_from(kws, t, i)->0].0@ == t,
    decreases kws.len() - i,
{
    if i < kws.len() && kws[i].0@ != t {
        lemma_exact_some(kws, t, i + 1);
    }
}

/// A counterparty has no translation exactly when no keyword occurs in it
/// (after trimming).
pub proof fn lemma_translate_none(kws: Seq<(String, PositionEntry)>, target: Seq<char>)
    ensures
        translate_spec(kws, target) is None <==> forall|k: int|
            0 <= k < kws.len() ==> !contains(trim(target), #[trigger] kws[k].0@),
{
    let t = trim(target);
    lemma_fuzzy_none(kws, t, 0);
    if exact_from(kws, t, 0) is Some {
        lemma_exact_some(kws, t, 0);
        let i = exact_from(kws, t, 0)->0;
        assert(t.subrange(0, t.len() as int) =~= t);
        assert(occurs_at(t, kws[i].0@, 0));
        assert(contains(t, kws[i].0@));
    }
}

/// A counterparty equal (after trimming) to a keyword translates to the
/// entry of the first such keyword, whatever other keywords it contains.
pub proof fn lemma_translate_first_exact(kws: Seq<(String, PositionEntry)>, target: Seq<char>, i: int)
    requires
        0 <= i < kws.len(),
        kws[i].0@ == trim(target),
        forall|k: int| 0 <= k < i ==> #[trigger] kws[k].0@ != trim(target),
    ensures
        translate_spec(kws, target) == Some(entry_pair(kws[i].1)),
{
    lemma_exact_reaches(kws, trim(target), 0, i);
}

/// With distinct keywords, a counterparty equal (after trimming) to a
/// keyword translates to that keyword's entry, whatever other keywords it
/// contains.
pub proof fn lemma_translate_exact(kws: Seq<(String, PositionEntry)>, target: Seq<char>, i: int)
    requires
        keys_distinct(kws),
        0 <= i < kws.len(),
        kws[i].0@ == trim(target),
    ensures
        translate_spec(kws, target) == Some(entry_pair(kws[i].1)),
{
    let t = trim(target);
    assert forall|k: int| 0 <= k < i implies #[trigger] kws[k].0@ != t by {
        assert(kws[k].0@ != kws[i].0@);
    }
    lemma_exact_reaches(kws, t, 0, i);
}

} // verus!
