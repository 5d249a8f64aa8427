//! The icon resolver: from a window's class and title to the glyph that
//! stands for it in a workspace name.

use vstd::prelude::*;
use vstd::string::StringExecFns;

use crate::text::{contains_text, occurs_in};

verus! {

/// One entry of the mapping table.
///
/// The entry is keyed by `class`. With a `title` it applies only to windows
/// whose title holds that text. An entry with the empty class is a title-only
/// entry: it is the one consulted for windows that report no class.
pub struct MatchRule {
    pub class: String,
    pub title: Option<String>,
    pub glyph: String,
}

/// The mathematical value of a [`MatchRule`].
pub struct MatchRuleView {
    pub class: Seq<char>,
    pub title: Option<Seq<char>>,
    pub glyph: Seq<char>,
}

impl MatchRuleView {
    /// The entry applies to a window with this class and title.
    pub open spec fn matches(self, class: Seq<char>, title: Seq<char>) -> bool {
        &&& self.class == class
        &&& self.title matches Some(part) ==> occurs_in(title, part)
    }
}

impl View for MatchRule {
    type V = MatchRuleView;

    open spec fn view(&self) -> MatchRuleView {
        MatchRuleView {
            class: self.class@,
            title: match self.title {
                Some(part) => Some(part@),
                None => None,
            },
            glyph: self.glyph@,
        }
    }
}

impl DeepView for MatchRule {
    type V = MatchRuleView;

    open spec fn deep_view(&self) -> MatchRuleView {
        self@
    }
}

/// The mapping table: entries in order of precedence, and the glyph for
/// windows that no entry applies to.
pub struct IconMapping {
    pub rules: Vec<MatchRule>,
    pub unknown: String,
}

/// The mathematical value of an [`IconMapping`].
pub struct IconMappingView {
    pub rules: Seq<MatchRuleView>,
    pub unknown: Seq<char>,
}

impl View for IconMapping {
    type V = IconMappingView;

    open spec fn view(&self) -> IconMappingView {
        IconMappingView { rules: self.rules.deep_view(), unknown: self.unknown@ }
    }
}

/// Left-to-right override, U+202D. Opens an isolated glyph.
pub open spec fn isolate_open() -> char {
    '\u{202D}'
}

/// Pop directional formatting, U+202C. Closes an isolated glyph.
pub open spec fn isolate_close() -> char {
    '\u{202C}'
}

/// `glyph` between the two directional marks, so that right-to-left text in
/// it cannot reorder the digits of the workspace index beside it.
pub open spec fn isolated(glyph: Seq<char>) -> Seq<char> {
    seq![isolate_open()] + glyph + seq![isolate_close()]
}

/// Index of the first entry that applies, if any does.
pub open spec fn first_match(rules: Seq<MatchRuleView>, class: Seq<char>, title: Seq<char>)
    -> Option<int>
    decreases rules.len(),
{
    if rules.len() == 0 {
        None
    } else {
        match first_match(rules.drop_last(), class, title) {
            Some(i) => Some(i),
            None => if rules.last().matches(class, title) {
                Some(rules.len() - 1)
            } else {
                None
            },
        }
    }
}

/// The glyph that the table holds for a class and title: that of the first
/// entry that applies, or the unknown glyph.
pub open spec fn lookup(mapping: IconMappingView, class: Seq<char>, title: Seq<char>) -> Seq<
    char,
> {
    match first_match(mapping.rules, class, title) {
        Some(i) => mapping.rules[i].glyph,
        None => mapping.unknown,
    }
}

/// The glyph of a window. A window without a class gets its glyph isolated
/// between the directional marks.
pub open spec fn resolve(mapping: IconMappingView, class: Seq<char>, title: Seq<char>) -> Seq<
    char,
> {
    if class.len() == 0 {
        isolated(lookup(mapping, class, title))
    } else {
        lookup(mapping, class, title)
    }
}

/// What `first_match` picks: the entry at the index it gives applies and none
/// before it does; it gives no index exactly when no entry applies.
pub proof fn lemma_first_match(rules: Seq<MatchRuleView>, class: Seq<char>, title: Seq<char>)
    ensures
        match first_match(rules, class, title) {
            Some(i) => {
                &&& 0 <= i < rules.len()
                &&& rules[i].matches(class, title)
                &&& forall|j: int| 0 <= j < i ==> !(#[trigger] rules[j]).matches(class, title)
            },
            None => forall|j: int|
                0 <= j < rules.len() ==> !(#[trigger] rules[j]).matches(class, title),
        },
    decreases rules.len(),
{
    if rules.len() > 0 {
        let init = rules.drop_last();
        lemma_first_match(init, class, title);
        assert(forall|j: int| 0 <= j < init.len() ==> init[j] == rules[j]);
    }
}

/// Resolving a window without a class always gives a glyph that is not empty
/// and stands between the two directional marks.
pub proof fn lemma_unclassed_glyph_is_isolated(
    mapping: IconMappingView,
    class: Seq<char>,
    title: Seq<char>,
)
    requires
        class.len() == 0,
    ensures
        ({
            let glyph = resolve(mapping, class, title);
            &&& glyph.len() >= 2
            &&& glyph.first() == isolate_open()
            &&& glyph.last() == isolate_close()
            &&& glyph == isolated(lookup(mapping, class, title))
        }),
{
}

/// A window with a class gets the glyph of the table as it is, without marks.
pub proof fn lemma_classed_glyph_is_plain(
    mapping: IconMappingView,
    class: Seq<char>,
    title: Seq<char>,
)
    requires
        class.len() > 0,
    ensures
        resolve(mapping, class, title) == lookup(mapping, class, title),
{
}

/// A table whose glyphs, the unknown glyph among them, are all not empty
/// resolves every window to a glyph that is not empty.
pub proof fn lemma_resolve_shows_something(
    mapping: IconMappingView,
    class: Seq<char>,
    title: Seq<char>,
)
    requires
        mapping.unknown.len() > 0,
        forall|i: int| 0 <= i < mapping.rules.len() ==> (#[trigger] mapping.rules[i]).glyph.len() > 0,
    ensures
        resolve(mapping, class, title).len() > 0,
{
    lemma_first_match(mapping.rules, class, title);
}

impl MatchRule {
    /// An entry keyed by `class` alone.
    pub fn for_class(class: &str, glyph: &str) -> (rule: MatchRule)
        ensures
            rule@ == (MatchRuleView { class: class@, title: None, glyph: glyph@ }),
    {
        MatchRule { class: String::from_str(class), title: None, glyph: String::from_str(glyph) }
    }

    /// An entry keyed by `class` that applies only where the title holds `title`.
    pub fn for_class_and_title(class: &str, title: &str, glyph: &str) -> (rule: MatchRule)
        ensures
            rule@ == (MatchRuleView { class: class@, title: Some(title@), glyph: glyph@ }),
    {
        MatchRule {
            class: String::from_str(class),
            title: Some(String::from_str(title)),
            glyph: String::from_str(glyph),
        }
    }

    /// A title-only entry, for windows that report no class.
    pub fn for_title(title: &str, glyph: &str) -> (rule: MatchRule)
        ensures
            rule@ == (MatchRuleView { class: Seq::empty(), title: Some(title@), glyph: glyph@ }),
    {
        MatchRule {
            class: String::new(),
            title: Some(String::from_str(title)),
            glyph: String::from_str(glyph),
        }
    }

    /// Whether the entry applies to a window with this class and title.
    pub fn matches(&self, class: &String, title: &str) -> (hit: bool)
        ensures
            hit == self@.matches(class@, title@),
    {
        if self.class != *class {
            return false;
        }
        match &self.title {
            Some(part) => contains_text(title, part.as_str()),
            None => true,
        }
    }
}

impl IconMapping {
    /// A table without entries: every window resolves to `unknown`.
    pub fn new(unknown: &str) -> (mapping: IconMapping)
        ensures
            mapping@ == (IconMappingView { rules: Seq::empty(), unknown: unknown@ }),
    {
        let mapping = IconMapping { rules: Vec::new(), unknown: String::from_str(unknown) };
        assert(mapping.rules.deep_view() == Seq::<MatchRuleView>::empty());
        mapping
    }

    /// Adds `rule` behind the entries that are there: they keep precedence.
    pub fn push(&mut self, rule: MatchRule)
        ensures
            final(self)@ == (IconMappingView {
                rules: old(self)@.rules.push(rule@),
                unknown: old(self)@.unknown,
            }),
    {
        self.rules.push(rule);
        assert(self.rules.deep_view() == old(self).rules.deep_view().push(rule@));
    }

    /// The glyph for a window with this class and title. Never fails: where
    /// no entry applies the glyph is the unknown glyph.
    pub fn resolve(&self, class: &str, title: &str) -> (glyph: String)
        ensures
            glyph@ == resolve(self@, class@, title@),
    {
        let wanted = class.to_owned();
        let mut found: Option<usize> = None;
        let mut i: usize = 0;
        while found.is_none() && i < self.rules.len()
            invariant
                i <= self.rules.len(),
                wanted@ == class@,
                forall|j: int|
                    0 <= j < i && found is None ==> !(#[trigger] self@.rules[j]).matches(
                        class@,
                        title@,
                    ),
                found matches Some(k) ==> {
                    &&& k < self.rules.len()
                    &&& self@.rules[k as int].matches(class@, title@)
                    &&& forall|j: int|
                        0 <= j < k ==> !(#[trigger] self@.rules[j]).matches(class@, title@)
                },
            decreases self.rules.len() - i + if found is None { 1int } else { 0int },
        {
            if self.rules[i].matches(&wanted, title) {
                found = Some(i);
            } else {
                i += 1;
            }
        }
        proof {
            lemma_first_match(self@.rules, class@, title@);
        }
        let inner = match found {
            Some(k) => self.rules[k].glyph.clone(),
            None => self.unknown.clone(),
        };
        assert(inner@ == lookup(self@, class@, title@));
        if class.is_empty() {
            let mut glyph = String::from_str("\u{202D}");
            glyph.append(inner.as_str());
            glyph.append("\u{202C}");
            proof {
                reveal_strlit("\u{202D}");
                reveal_strlit("\u{202C}");
            }
            glyph
        } else {
            inner
        }
    }
}

} // verus!
