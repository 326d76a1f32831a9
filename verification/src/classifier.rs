//! Bill classification by keywords, and the translation of a bill's
//! counterparty into a place and a room.
//!
//! The rules are kept in the order they were loaded; the first rule whose
//! keyword occurs in the bill decides.
use vstd::prelude::*;
use vstd::string::*;

use crate::bill_item::string_views;
use crate::text::{contains, contains_str, str_eq};

verus! {

// ---------------------------------------------------------------------------
// Categories
// ---------------------------------------------------------------------------
/// The categories a bill can fall into.
#[derive(Debug, Clone, Copy, PartialEq, Eq, Structural)]
pub enum BillCategory {
    Deposit,
    Electricity,
    Bath,
    HotWater,
    Cake,
    Canteen,
    Library,
    Hospital,
    Shop,
    Laundry,
    Network,
    Transport,
    Other,
}

impl BillCategory {
    pub open spec fn display_name_spec(self) -> Seq<char> {
        match self {
            BillCategory::Deposit => "充值"@,
            BillCategory::Electricity => "电费"@,
            BillCategory::Bath => "洗澡"@,
            BillCategory::HotWater => "热水"@,
            BillCategory::Cake => "点心"@,
            BillCategory::Canteen => "食堂"@,
            BillCategory::Library => "图书馆"@,
            BillCategory::Hospital => "校医院"@,
            BillCategory::Shop => "超市"@,
            BillCategory::Laundry => "洗衣"@,
            BillCategory::Network => "网络"@,
            BillCategory::Transport => "交通"@,
            BillCategory::Other => "其他"@,
        }
    }

    pub open spec fn emoji_spec(self) -> Seq<char> {
        match self {
            BillCategory::Deposit => "💰"@,
            BillCategory::Electricity => "⚡"@,
            BillCategory::Bath => "🚿"@,
            BillCategory::HotWater => "♨️"@,
            BillCategory::Cake => "🍰"@,
            BillCategory::Canteen => "🍚"@,
            BillCategory::Library => "📚"@,
            BillCategory::Hospital => "🏥"@,
            BillCategory::Shop => "🛒"@,
            BillCategory::Laundry => "👕"@,
            BillCategory::Network => "🌐"@,
            BillCategory::Transport => "🚌"@,
            BillCategory::Other => "💳"@,
        }
    }

    /// The Chinese name of the category.
    pub fn display_name(&self) -> (r: &'static str)
        ensures
            r@ == self.display_name_spec(),
    {
        match self {
            BillCategory::Deposit => "充值",
            BillCategory::Electricity => "电费",
            BillCategory::Bath => "洗澡",
            BillCategory::HotWater => "热水",
            BillCategory::Cake => "点心",
            BillCategory::Canteen => "食堂",
            BillCategory::Library => "图书馆",
            BillCategory::Hospital => "校医院",
            BillCategory::Shop => "超市",
            BillCategory::Laundry => "洗衣",
            BillCategory::Network => "网络",
            BillCategory::Transport => "交通",
            BillCategory::Other => "其他",
        }
    }

    /// The emoji shown beside the category.
    pub fn emoji(&self) -> (r: &'static str)
        ensures
            r@ == self.emoji_spec(),
    {
        match self {
            BillCategory::Deposit => "💰",
            BillCategory::Electricity => "⚡",
            BillCategory::Bath => "🚿",
            BillCategory::HotWater => "♨️",
            BillCategory::Cake => "🍰",
            BillCategory::Canteen => "🍚",
            BillCategory::Library => "📚",
            BillCategory::Hospital => "🏥",
            BillCategory::Shop => "🛒",
            BillCategory::Laundry => "👕",
            BillCategory::Network => "🌐",
            BillCategory::Transport => "🚌",
            BillCategory::Other => "💳",
        }
    }
}

/// The category named by a rule key (`snake_case`); an unknown key names
/// `Other`.
pub open spec fn category_of_key(s: Seq<char>) -> BillCategory {
    if s == "deposit"@ {
        BillCategory::Deposit
    } else if s == "electricity"@ {
        BillCategory::Electricity
    } else if s == "bath"@ {
        BillCategory::Bath
    } else if s == "hot_water"@ {
        BillCategory::HotWater
    } else if s == "cake"@ {
        BillCategory::Cake
    } else if s == "canteen"@ {
        BillCategory::Canteen
    } else if s == "library"@ {
        BillCategory::Library
    } else if s == "hospital"@ {
        BillCategory::Hospital
    } else if s == "shop"@ {
        BillCategory::Shop
    } else if s == "laundry"@ {
        BillCategory::Laundry
    } else if s == "network"@ {
        BillCategory::Network
    } else if s == "transport"@ {
        BillCategory::Transport
    } else {
        BillCategory::Other
    }
}

// ---------------------------------------------------------------------------
// Rules
// ---------------------------------------------------------------------------
/// Keywords looked for in a bill's name and in its counterparty.
#[derive(Debug, Clone)]
pub struct CategoryRule {
    pub name: Vec<String>,
    pub target: Vec<String>,
}

/// Some keyword of `keys` occurs in `text`.
pub open spec fn any_occurs(keys: Seq<Seq<char>>, text: Seq<char>) -> bool {
    exists|k: int| 0 <= k < keys.len() && contains(text, #[trigger] keys[k])
}

impl CategoryRule {
    /// The rule applies: a name keyword occurs in `name`, or a target
    /// keyword occurs in `target`.
    pub open spec fn matches(&self, name: Seq<char>, target: Seq<char>) -> bool {
        any_occurs(string_views(self.name@), name) || any_occurs(string_views(self.target@), target)
    }
}

fn any_keyword_occurs(keys: &Vec<String>, text: &str) -> (r: bool)
    ensures
        r == any_occurs(string_views(keys@), text@),
{
    let mut i: usize = 0;
    while i < keys.len()
        invariant
            i <= keys.len(),
            forall|k: int| 0 <= k < i ==> !contains(text@, #[trigger] string_views(keys@)[k]),
        decreases keys.len() - i,
    {
        if contains_str(text, keys[i].as_str()) {
            assert(contains(text@, string_views(keys@)[i as int]));
            return true;
        }
        i = i + 1;
    }
    false
}

/// The category decided by the rules from position `i` on.
pub open spec fn classify_from(
    cats: Seq<(String, CategoryRule)>,
    name: Seq<char>,
    target: Seq<char>,
    i: int,
) -> BillCategory
    decreases cats.len() - i,
{
    if i < 0 || i >= cats.len() {
        BillCategory::Other
    } else if cats[i].1.matches(name, target) {
        category_of_key(cats[i].0@)
    } else {
        classify_from(cats, name, target, i + 1)
    }
}

/// The first rule from position `i` on whose key is `key`.
pub open spec fn key_from(cats: Seq<(String, CategoryRule)>, key: Seq<char>, i: int) -> Option<int>
    decreases cats.len() - i,
{
    if i < 0 || i >= cats.len() {
        None
    } else if cats[i].0@ == key {
        Some(i)
    } else {
        key_from(cats, key, i + 1)
    }
}

/// No rule key occurs twice.
pub open spec fn rule_keys_distinct(cats: Seq<(String, CategoryRule)>) -> bool {
    forall|i: int, j: int|
        0 <= i < cats.len() && 0 <= j < cats.len() && i != j ==> #[trigger] cats[i].0@ != #[trigger] cats[j].0@
}

proof fn lemma_key_none(cats: Seq<(String, CategoryRule)>, key: Seq<char>, i: int)
    requires
        0 <= i,
        key_from(cats, key, i) is None,
    ensures
        forall|k: int| i <= k < cats.len() ==> #[trigger] cats[k].0@ != key,
    decreases cats.len() - i,
{
    if i < cats.len() {
        lemma_key_none(cats, key, i + 1);
    }
}

/// Classifies bills by the first rule that applies.
#[derive(Debug, Clone)]
pub struct BillClassifier {
    pub categories: Vec<(String, CategoryRule)>,
}

impl Default for BillClassifier {
    fn default() -> (r: Self)
        ensures
            r.categories@.len() == 0,
    {
        BillClassifier { categories: Vec::new() }
    }
}

impl BillClassifier {
    /// The category of a bill: that named by the key of the first rule that
    /// applies to it, or `Other` when none does.
    pub fn classify(&self, name: &str, target: &str) -> (r: BillCategory)
        ensures
            r == classify_from(self.categories@, name@, target@, 0),
    {
        let mut i: usize = 0;
        while i < self.categories.len()
            invariant
                i <= self.categories.len(),
                classify_from(self.categories@, name@, target@, 0) == classify_from(
                    self.categories@,
                    name@,
                    target@,
                    i as int,
                ),
            decreases self.categories.len() - i,
        {
            let rule = &self.categories[i].1;
            if any_keyword_occurs(&rule.name, name) || any_keyword_occurs(&rule.target, target) {
                return Self::parse_category(self.categories[i].0.as_str());
            }
            i = i + 1;
        }
        BillCategory::Other
    }

    /// Sets the rule of a key: an existing key keeps its place in the order
    /// and takes the new rule, a new one is appended.
    pub fn insert(&mut self, key: String, rule: CategoryRule)
        ensures
            match key_from(old(self).categories@, key@, 0) {
                Some(i) => final(self).categories@ == old(self).categories@.update(i, (key, rule)),
                None => final(self).categories@ == old(self).categories@.push((key, rule)),
            },
            rule_keys_distinct(old(self).categories@) ==> rule_keys_distinct(final(self).categories@),
    {
        let ghost cats = self.categories@;
        let mut i: usize = 0;
        while i < self.categories.len()
            invariant
                i <= self.categories.len(),
                self.categories@ == cats,
                cats == old(self).categories@,
                key_from(cats, key@, 0) == key_from(cats, key@, i as int),
            decreases self.categories.len() - i,
        {
            if str_eq(self.categories[i].0.as_str(), key.as_str()) {
                assert(key_from(cats, key@, i as int) == Some(i as int));
                self.categories.set(i, (key, rule));
                proof {
                    let nc = self.categories@;
                    assert forall|a: int, b: int|
                        rule_keys_distinct(cats) && 0 <= a < nc.len() && 0 <= b < nc.len() && a != b implies #[trigger] nc[a].0@
                        != #[trigger] nc[b].0@ by {
                        assert(cats[a].0@ != cats[b].0@);
                    }
                }
                return;
            }
            i = i + 1;
        }
        proof {
            lemma_key_none(cats, key@, 0);
        }
        self.categories.push((key, rule));
        proof {
            let nc = self.categories@;
            assert forall|a: int, b: int|
                rule_keys_distinct(cats) && 0 <= a < nc.len() && 0 <= b < nc.len() && a != b implies #[trigger] nc[a].0@
                != #[trigger] nc[b].0@ by {
                if a < cats.len() && b < cats.len() {
                    assert(cats[a].0@ != cats[b].0@);
                } else if a < cats.len() {
                    assert(cats[a].0@ != key@);
                } else {
                    assert(cats[b].0@ != key@);
                }
            }
        }
    }

    /// The category named by a rule key.
    pub fn parse_category(s: &str) -> (r: BillCategory)
        ensures
            r == category_of_key(s@),
    {
        if str_eq(s, "deposit") {
            BillCategory::Deposit
        } else if str_eq(s, "electricity") {
            BillCategory::Electricity
        } else if str_eq(s, "bath") {
            BillCategory::Bath
        } else if str_eq(s, "hot_water") {
            BillCategory::HotWater
        } else if str_eq(s, "cake") {
            BillCategory::Cake
        } else if str_eq(s, "canteen") {
            BillCategory::Canteen
        } else if str_eq(s, "library") {
            BillCategory::Library
        } else if str_eq(s, "hospital") {
            BillCategory::Hospital
        } else if str_eq(s, "shop") {
            BillCategory::Shop
        } else if str_eq(s, "laundry") {
            BillCategory::Laundry
        } else if str_eq(s, "network") {
            BillCategory::Network
        } else if str_eq(s, "transport") {
            BillCategory::Transport
        } else {
            BillCategory::Other
        }
    }
}

/// A bill that no rule applies to is `Other`; a bill classified otherwise
/// has a rule that applies to it, under a key naming that category, and no
/// earlier rule applies.
pub proof fn lemma_classify_first_rule(
    cats: Seq<(String, CategoryRule)>,
    name: Seq<char>,
    target: Seq<char>,
)
    ensures
        (forall|k: int| 0 <= k < cats.len() ==> !(#[trigger] cats[k].1.matches(name, target)))
            ==> classify_from(cats, name, target, 0) == BillCategory::Other,
        classify_from(cats, name, target, 0) != BillCategory::Other ==> exists|k: int|
            0 <= k < cats.len() && (#[trigger] cats[k].1.matches(name, target)) && category_of_key(
                cats[k].0@,
            ) == classify_from(cats, name, target, 0) && forall|j: int|
                0 <= j < k ==> !(#[trigger] cats[j].1.matches(name, target)),
{
    lemma_classify_from(cats, name, target, 0);
}

proof fn lemma_classify_from(
    cats: Seq<(String, CategoryRule)>,
    name: Seq<char>,
    target: Seq<char>,
    i: int,
)
    requires
        0 <= i <= cats.len(),
    ensures
        (forall|k: int| i <= k < cats.len() ==> !(#[trigger] cats[k].1.matches(name, target)))
            ==> classify_from(cats, name, target, i) == BillCategory::Other,
        classify_from(cats, name, target, i) != BillCategory::Other ==> exists|k: int|
            i <= k < cats.len() && (#[trigger] cats[k].1.matches(name, target)) && category_of_key(
                cats[k].0@,
            ) == classify_from(cats, name, target, i) && forall|j: int|
                i <= j < k ==> !(#[trigger] cats[j].1.matches(name, target)),
    decreases cats.len() - i,
{
    if i < cats.len() {
        lemma_classify_from(cats, name, target, i + 1);
        if !cats[i].1.matches(name, target) && classify_from(cats, name, target, i)
            != BillCategory::Other {
            let k = choose|k: int|
                i + 1 <= k < cats.len() && (#[trigger] cats[k].1.matches(name, target))
                    && category_of_key(cats[k].0@) == classify_from(cats, name, target, i + 1)
                    && forall|j: int| i + 1 <= j < k ==> !(#[trigger] cats[j].1.matches(name, target));
            assert(forall|j: int| i <= j < k ==> !(#[trigger] cats[j].1.matches(name, target)));
        }
    }
}

} // verus!
