//! The label composer: from the windows of a workspace to its name.
//!
//! A label is the workspace index alone where there is nothing to show, and
//! otherwise the index, a colon, the glyphs separated by single spaces, and
//! one closing space.

use vstd::prelude::*;
use vstd::string::StringExecFns;

use crate::icons::{resolve, IconMapping, IconMappingView};
use crate::text::{decimal, decimal_string, join, join_strings};
use crate::window::{Window, WindowView};

verus! {

/// The predicate that keeps the windows that are shown.
pub open spec fn is_mapped() -> spec_fn(WindowView) -> bool {
    |w: WindowView| w.mapped
}

/// The glyphs of the shown windows, in the order of the windows.
pub open spec fn window_glyphs(mapping: IconMappingView, windows: Seq<WindowView>) -> Seq<
    Seq<char>,
> {
    windows.filter(is_mapped()).map_values(|w: WindowView| resolve(mapping, w.class, w.title))
}

/// `glyphs` with every run of equal neighbours reduced to its first member.
/// Equal glyphs that are not neighbours all stay.
pub open spec fn collapse(glyphs: Seq<Seq<char>>) -> Seq<Seq<char>>
    decreases glyphs.len(),
{
    if glyphs.len() <= 1 {
        glyphs
    } else if glyphs.last() == glyphs[glyphs.len() - 2] {
        collapse(glyphs.drop_last())
    } else {
        collapse(glyphs.drop_last()).push(glyphs.last())
    }
}

/// The glyphs that a label shows: collapsed where deduplication is asked for,
/// as they are where it is not.
pub open spec fn shown(glyphs: Seq<Seq<char>>, deduplicate: bool) -> Seq<Seq<char>> {
    if deduplicate {
        collapse(glyphs)
    } else {
        glyphs
    }
}

/// No glyph is followed at once by an equal one.
pub open spec fn no_equal_neighbours(glyphs: Seq<Seq<char>>) -> bool {
    forall|i: int, j: int|
        0 <= i && j == i + 1 && j < glyphs.len() ==> #[trigger] glyphs[i] != #[trigger] glyphs[j]
}

/// There is nothing to show: no glyph at all, or none that is not empty.
pub open spec fn blank(glyphs: Seq<Seq<char>>) -> bool {
    forall|i: int| 0 <= i < glyphs.len() ==> (#[trigger] glyphs[i]).len() == 0
}

/// What opens a label that shows glyphs: the index, a colon and a space.
pub open spec fn label_head(workspace_id: int) -> Seq<char> {
    decimal(workspace_id) + seq![':', ' ']
}

/// The label of a workspace for the glyphs it shows.
pub open spec fn label(workspace_id: int, glyphs: Seq<Seq<char>>) -> Seq<char> {
    if blank(glyphs) {
        decimal(workspace_id)
    } else {
        label_head(workspace_id) + join(glyphs, seq![' ']) + seq![' ']
    }
}

/// The label of a workspace for the windows on it.
pub open spec fn composed(
    mapping: IconMappingView,
    workspace_id: int,
    windows: Seq<WindowView>,
    deduplicate: bool,
) -> Seq<char> {
    label(workspace_id, shown(window_glyphs(mapping, windows), deduplicate))
}

/// A collapsed sequence ends as the sequence it came from, and is empty only
/// if that one is.
pub proof fn lemma_collapse_last(glyphs: Seq<Seq<char>>)
    requires
        glyphs.len() > 0,
    ensures
        collapse(glyphs).len() > 0,
        collapse(glyphs).last() == glyphs.last(),
        collapse(glyphs).first() == glyphs.first(),
    decreases glyphs.len(),
{
    if glyphs.len() > 1 {
        lemma_collapse_last(glyphs.drop_last());
    }
}

/// With deduplication no two neighbours among the shown glyphs are equal.
pub proof fn lemma_collapse_has_no_repeats(glyphs: Seq<Seq<char>>)
    ensures
        no_equal_neighbours(collapse(glyphs)),
    decreases glyphs.len(),
{
    if glyphs.len() > 1 {
        let init = glyphs.drop_last();
        lemma_collapse_has_no_repeats(init);
        lemma_collapse_last(init);
    }
}

/// Collapsing drops nothing but repetitions: a sequence without equal
/// neighbours is left as it is.
pub proof fn lemma_collapse_keeps_distinct_neighbours(glyphs: Seq<Seq<char>>)
    requires
        no_equal_neighbours(glyphs),
    ensures
        collapse(glyphs) == glyphs,
    decreases glyphs.len(),
{
    if glyphs.len() > 1 {
        let init = glyphs.drop_last();
        assert forall|i: int, j: int| 0 <= i && j == i + 1 && j < init.len() implies #[trigger]
            init[i] != #[trigger] init[j] by {
            assert(init[i] == glyphs[i]);
            assert(init[j] == glyphs[j]);
        }
        lemma_collapse_keeps_distinct_neighbours(init);
        assert(glyphs[glyphs.len() - 2] != glyphs[glyphs.len() - 1]);
        assert(init.push(glyphs.last()) == glyphs);
    }
}

/// Collapsing a second time changes nothing.
pub proof fn lemma_collapse_idempotent(glyphs: Seq<Seq<char>>)
    ensures
        collapse(collapse(glyphs)) == collapse(glyphs),
{
    lemma_collapse_has_no_repeats(glyphs);
    lemma_collapse_keeps_distinct_neighbours(collapse(glyphs));
}

/// Collapsing keeps the glyphs in order: every kept glyph comes from a
/// position of the input, and later kept glyphs from later positions.
pub proof fn lemma_collapse_is_subsequence(glyphs: Seq<Seq<char>>) -> (at: Seq<int>)
    ensures
        at.len() == collapse(glyphs).len(),
        forall|k: int|
            0 <= k < at.len() ==> 0 <= #[trigger] at[k] < glyphs.len() && collapse(glyphs)[k]
                == glyphs[at[k]],
        forall|k: int, l: int| 0 <= k < l < at.len() ==> at[k] < at[l],
    decreases glyphs.len(),
{
    if glyphs.len() == 0 {
        Seq::empty()
    } else if glyphs.len() == 1 {
        seq![0int]
    } else {
        let init = lemma_collapse_is_subsequence(glyphs.drop_last());
        if glyphs.last() == glyphs[glyphs.len() - 2] {
            init
        } else {
            init.push(glyphs.len() - 1)
        }
    }
}

/// Without deduplication the shown glyphs are the resolved glyphs of the
/// shown windows, one for one and in their order, repetitions included.
pub proof fn lemma_plain_glyphs_mirror_windows(
    mapping: IconMappingView,
    windows: Seq<WindowView>,
)
    ensures
        ({
            let kept = windows.filter(is_mapped());
            let glyphs = shown(window_glyphs(mapping, windows), false);
            &&& glyphs.len() == kept.len()
            &&& forall|i: int|
                0 <= i < kept.len() ==> glyphs[i] == resolve(
                    mapping,
                    (#[trigger] kept[i]).class,
                    kept[i].title,
                )
        }),
{
}

/// With deduplication the shown glyphs of any windows hold no two equal
/// neighbours.
pub proof fn lemma_deduplicated_glyphs_have_no_repeats(
    mapping: IconMappingView,
    windows: Seq<WindowView>,
)
    ensures
        no_equal_neighbours(shown(window_glyphs(mapping, windows), true)),
{
    lemma_collapse_has_no_repeats(window_glyphs(mapping, windows));
}

/// A workspace without windows is labelled by its index alone.
pub proof fn lemma_empty_workspace_label(
    mapping: IconMappingView,
    workspace_id: int,
    deduplicate: bool,
)
    ensures
        composed(mapping, workspace_id, Seq::empty(), deduplicate) == decimal(workspace_id),
{
    reveal(Seq::filter);
    let none = Seq::<WindowView>::empty();
    assert(none.filter(is_mapped()) == none);
    assert(window_glyphs(mapping, none) == Seq::<Seq<char>>::empty());
}

/// Collapsing loses no glyph altogether: each glyph of the input is still
/// among the collapsed ones.
pub proof fn lemma_collapse_keeps_every_glyph(glyphs: Seq<Seq<char>>, i: int)
    requires
        0 <= i < glyphs.len(),
    ensures
        collapse(glyphs).contains(glyphs[i]),
    decreases glyphs.len(),
{
    if glyphs.len() == 1 {
        assert(collapse(glyphs)[0] == glyphs[i]);
    } else {
        let init = glyphs.drop_last();
        lemma_collapse_last(glyphs);
        if i == glyphs.len() - 1 {
            assert(collapse(glyphs)[collapse(glyphs).len() - 1] == glyphs[i]);
        } else {
            lemma_collapse_keeps_every_glyph(init, i);
            let k = choose|k: int| 0 <= k < collapse(init).len() && collapse(init)[k] == init[i];
            assert(collapse(glyphs)[k] == glyphs[i]);
        }
    }
}

/// A label that shows glyphs opens with the index, a colon and a space, and
/// closes with exactly one space behind the joined glyphs.
pub proof fn lemma_label_shape(workspace_id: int, glyphs: Seq<Seq<char>>)
    requires
        !blank(glyphs),
    ensures
        label_head(workspace_id).is_prefix_of(label(workspace_id, glyphs)),
        label(workspace_id, glyphs).last() == ' ',
        label(workspace_id, glyphs).drop_last() == label_head(workspace_id) + join(
            glyphs,
            seq![' '],
        ),
{
    let head = label_head(workspace_id);
    let body = join(glyphs, seq![' ']);
    let whole = label(workspace_id, glyphs);
    assert(whole == head + (body + seq![' ']));
    assert(whole.drop_last() == head + body);
}

/// The label of a workspace that holds a shown window with a glyph that is
/// not empty: it opens with the index, a colon and a space, and closes with
/// exactly one space behind the joined glyphs.
pub proof fn lemma_occupied_workspace_label(
    mapping: IconMappingView,
    workspace_id: int,
    windows: Seq<WindowView>,
    deduplicate: bool,
    i: int,
)
    requires
        0 <= i < windows.len(),
        windows[i].mapped,
        resolve(mapping, windows[i].class, windows[i].title).len() > 0,
    ensures
        ({
            let glyphs = shown(window_glyphs(mapping, windows), deduplicate);
            let whole = composed(mapping, workspace_id, windows, deduplicate);
            &&& label_head(workspace_id).is_prefix_of(whole)
            &&& whole.last() == ' '
            &&& whole.drop_last() == label_head(workspace_id) + join(glyphs, seq![' '])
        }),
{
    let kept = windows.filter(is_mapped());
    let plain = window_glyphs(mapping, windows);
    let glyph = resolve(mapping, windows[i].class, windows[i].title);
    assert(is_mapped()(windows[i]));
    windows.lemma_filter_contains(is_mapped(), i);
    let k = choose|k: int| 0 <= k < kept.len() && kept[k] == windows[i];
    assert(plain[k] == glyph);
    if deduplicate {
        lemma_collapse_keeps_every_glyph(plain, k);
        let c = choose|c: int| 0 <= c < collapse(plain).len() && collapse(plain)[c] == plain[k];
        assert(collapse(plain)[c].len() > 0);
    }
    lemma_label_shape(workspace_id, shown(plain, deduplicate));
}

/// Keeping the shown windows a second time keeps them all.
pub proof fn lemma_mapped_filter_is_idempotent(windows: Seq<WindowView>)
    ensures
        windows.filter(is_mapped()).filter(is_mapped()) == windows.filter(is_mapped()),
    decreases windows.len(),
{
    reveal(Seq::filter);
    if windows.len() > 0 {
        let init = windows.drop_last();
        lemma_mapped_filter_is_idempotent(init);
        if is_mapped()(windows.last()) {
            init.filter(is_mapped()).lemma_filter_push(windows.last(), is_mapped());
        }
    }
}

/// Windows that are not shown are passed over: a group composes as the same
/// group without them does.
pub proof fn lemma_unmapped_windows_are_passed_over(
    mapping: IconMappingView,
    workspace_id: int,
    windows: Seq<WindowView>,
    deduplicate: bool,
)
    ensures
        composed(mapping, workspace_id, windows, deduplicate) == composed(
            mapping,
            workspace_id,
            windows.filter(is_mapped()),
            deduplicate,
        ),
{
    lemma_mapped_filter_is_idempotent(windows);
}

/// The glyphs of the shown windows among `windows`, in their order.
pub fn glyphs_of(mapping: &IconMapping, windows: &Vec<Window>) -> (glyphs: Vec<String>)
    ensures
        glyphs.deep_view() == window_glyphs(mapping@, windows.deep_view()),
{
    let mut glyphs: Vec<String> = Vec::new();
    let mut i: usize = 0;
    proof {
        reveal(Seq::filter);
        assert(windows.deep_view().take(0).filter(is_mapped()).len() == 0);
        assert(glyphs.deep_view() == window_glyphs(mapping@, windows.deep_view().take(0)));
    }
    while i < windows.len()
        invariant
            i <= windows.len(),
            glyphs.deep_view() == window_glyphs(mapping@, windows.deep_view().take(i as int)),
        decreases windows.len() - i,
    {
        let ghost before = windows.deep_view().take(i as int);
        let ghost after = windows.deep_view().take(i + 1);
        let ghost old_glyphs = glyphs.deep_view();
        proof {
            assert(after == before.push(windows[i as int]@));
            before.lemma_filter_push(windows[i as int]@, is_mapped());
        }
        if windows[i].mapped {
            let glyph = mapping.resolve(windows[i].class.as_str(), windows[i].title.as_str());
            glyphs.push(glyph);
            assert(glyphs.deep_view() == old_glyphs.push(glyph@));
            assert(glyphs.deep_view() == window_glyphs(mapping@, after));
        } else {
            assert(glyphs.deep_view() == window_glyphs(mapping@, after));
        }
        i += 1;
    }
    assert(windows.deep_view().take(windows.len() as int) == windows.deep_view());
    glyphs
}

/// Reduces every run of equal neighbours to its first member.
pub fn collapse_glyphs(glyphs: &Vec<String>) -> (kept: Vec<String>)
    ensures
        kept.deep_view() == collapse(glyphs.deep_view()),
{
    let mut kept: Vec<String> = Vec::new();
    let mut i: usize = 0;
    assert(kept.deep_view() == collapse(glyphs.deep_view().take(0)));
    while i < glyphs.len()
        invariant
            i <= glyphs.len(),
            kept.deep_view() == collapse(glyphs.deep_view().take(i as int)),
        decreases glyphs.len() - i,
    {
        let ghost before = glyphs.deep_view().take(i as int);
        let ghost after = glyphs.deep_view().take(i + 1);
        let ghost old_kept = kept.deep_view();
        proof {
            assert(after.drop_last() == before);
            assert(after.last() == glyphs[i as int]@);
            if i > 0 {
                assert(after[after.len() - 2] == glyphs[i - 1]@);
            }
        }
        if i == 0 || glyphs[i] != glyphs[i - 1] {
            kept.push(glyphs[i].clone());
            assert(kept.deep_view() == old_kept.push(glyphs[i as int]@));
        }
        i += 1;
    }
    assert(glyphs.deep_view().take(glyphs.len() as int) == glyphs.deep_view());
    kept
}

/// Whether there is nothing to show among `glyphs`.
pub fn is_blank(glyphs: &Vec<String>) -> (nothing: bool)
    ensures
        nothing == blank(glyphs.deep_view()),
{
    let mut i: usize = 0;
    while i < glyphs.len()
        invariant
            i <= glyphs.len(),
            forall|j: int| 0 <= j < i ==> (#[trigger] glyphs.deep_view()[j]).len() == 0,
        decreases glyphs.len() - i,
    {
        if !glyphs[i].as_str().is_empty() {
            assert(glyphs.deep_view()[i as int].len() != 0);
            return false;
        }
        i += 1;
    }
    true
}

/// The label of workspace `workspace_id` for the glyphs it shows.
pub fn compose_label(workspace_id: i32, glyphs: &Vec<String>) -> (name: String)
    ensures
        name@ == label(workspace_id as int, glyphs.deep_view()),
{
    let mut name = decimal_string(workspace_id);
    if !is_blank(glyphs) {
        let body = join_strings(glyphs, " ");
        name.append(": ");
        name.append(body.as_str());
        name.append(" ");
        proof {
            reveal_strlit(": ");
            reveal_strlit(" ");
            assert(": "@ == seq![':', ' ']);
            assert(" "@ == seq![' ']);
        }
    }
    name
}

/// The label of workspace `workspace_id` for the windows on it.
///
/// Windows that are not shown are passed over. Each shown window is resolved
/// to its glyph; with `deduplicate`, runs of equal neighbouring glyphs are
/// collapsed. Without windows the label is the index alone.
pub fn compose(
    mapping: &IconMapping,
    workspace_id: i32,
    windows: &Vec<Window>,
    deduplicate: bool,
) -> (name: String)
    ensures
        name@ == composed(mapping@, workspace_id as int, windows.deep_view(), deduplicate),
        windows.len() == 0 ==> name@ == decimal(workspace_id as int),
{
    let glyphs = glyphs_of(mapping, windows);
    proof {
        if windows.len() == 0 {
            assert(windows.deep_view() == Seq::<WindowView>::empty());
            lemma_empty_workspace_label(mapping@, workspace_id as int, deduplicate);
        }
    }
    if deduplicate {
        let kept = collapse_glyphs(&glyphs);
        compose_label(workspace_id, &kept)
    } else {
        compose_label(workspace_id, &glyphs)
    }
}

} // verus!
