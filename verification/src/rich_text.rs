//! The rich-text tree and its flattening into a run of colored tiles.
//!
//! A tree is literal text, a color-modifier wrapper around one child, or an
//! ordered sequence of children. Flattening resolves the tree into one flat
//! sequence of tile records: each character becomes one tile whose colors are
//! given by the innermost enclosing modifier of each kind, or the default
//! palette where none encloses it.

use vstd::prelude::*;
use crate::color::Color;
use crate::tile::{ScreenTile, SpriteIndex, default_bg, default_fg, default_background,
    default_foreground};

verus! {

/// A color override carried by a modifier node: it replaces either the
/// foreground or the background for everything beneath it.
#[derive(Clone, Copy, PartialEq, Eq, Structural, Debug)]
pub enum RichTextModifier {
    FgColor(Color),
    BgColor(Color),
}

/// A rich-text tree: literal text, one child under a color modifier, or a
/// sequence of children rendered in order.
#[derive(Debug)]
pub enum RichText {
    Text(String),
    Modifier(RichTextModifier, Box<RichText>),
    Sequence(Vec<RichText>),
}

/// The tile that renders `c` with foreground `fg` and background `bg`; the
/// glyph index is the character's code point.
pub open spec fn tile_of(c: char, fg: Color, bg: Color) -> ScreenTile {
    ScreenTile { sprite: c as SpriteIndex, fg_color: fg, bg_color: bg }
}

/// The flattening of `rt` under active foreground `fg` and background `bg`.
/// Entering a modifier replaces the one active color it carries for the
/// subtree beneath it, so the innermost modifier of each kind wins and no
/// modifier leaks past its subtree.
pub open spec fn flat_tiles(rt: RichText, fg: Color, bg: Color) -> Seq<ScreenTile>
    decreases rt,
{
    match rt {
        RichText::Text(s) => Seq::new(s@.len(), |i: int| tile_of(s@[i], fg, bg)),
        RichText::Modifier(m, child) => match m {
            RichTextModifier::FgColor(c) => flat_tiles(*child, c, bg),
            RichTextModifier::BgColor(c) => flat_tiles(*child, fg, c),
        },
        RichText::Sequence(children) => flat_children(children@, fg, bg),
    }
}

/// The concatenation of the flattenings of `children`, in order.
pub open spec fn flat_children(children: Seq<RichText>, fg: Color, bg: Color) -> Seq<ScreenTile>
    decreases children,
{
    if children.len() == 0 {
        Seq::empty()
    } else {
        flat_children(children.subrange(0, children.len() - 1), fg, bg) + flat_tiles(
            children[children.len() - 1],
            fg,
            bg,
        )
    }
}

/// The number of characters across all text leaves of `rt`.
pub open spec fn char_count(rt: RichText) -> nat
    decreases rt,
{
    match rt {
        RichText::Text(s) => s@.len(),
        RichText::Modifier(m, child) => char_count(*child),
        RichText::Sequence(children) => char_count_children(children@),
    }
}

/// The number of characters across all text leaves of `children` together.
pub open spec fn char_count_children(children: Seq<RichText>) -> nat
    decreases children,
{
    if children.len() == 0 {
        0
    } else {
        char_count_children(children.subrange(0, children.len() - 1)) + char_count(
            children[children.len() - 1],
        )
    }
}

/// Flattening a tree yields exactly one tile per character: the length of the
/// flattening equals the total character count of the text leaves, whatever
/// colors are active.
pub proof fn lemma_flatten_length(rt: RichText, fg: Color, bg: Color)
    ensures
        flat_tiles(rt, fg, bg).len() == char_count(rt),
    decreases rt,
{
    match rt {
        RichText::Text(s) => {},
        RichText::Modifier(m, child) => match m {
            RichTextModifier::FgColor(c) => lemma_flatten_length(*child, c, bg),
            RichTextModifier::BgColor(c) => lemma_flatten_length(*child, fg, c),
        },
        RichText::Sequence(children) => lemma_flatten_length_children(children@, fg, bg),
    }
}

/// The sequence form of [`lemma_flatten_length`].
pub proof fn lemma_flatten_length_children(children: Seq<RichText>, fg: Color, bg: Color)
    ensures
        flat_children(children, fg, bg).len() == char_count_children(children),
    decreases children,
{
    if children.len() > 0 {
        lemma_flatten_length_children(children.subrange(0, children.len() - 1), fg, bg);
        lemma_flatten_length(children[children.len() - 1], fg, bg);
    }
}

/// What `combine` and `append` leave behind: `r` is a sequence whose children
/// are `lhs`'s children followed by `rhs` when `lhs` was already a sequence,
/// and exactly `[lhs, rhs]` otherwise. Left-associative chaining therefore
/// grows one flat sequence instead of nesting sequences.
pub open spec fn combined(lhs: RichText, rhs: RichText, r: RichText) -> bool {
    &&& r is Sequence
    &&& r->Sequence_0@ == if lhs is Sequence {
        lhs->Sequence_0@.push(rhs)
    } else {
        seq![lhs, rhs]
    }
}

/// Combining twice stays flat: for a non-sequence `a`, combining `a` with `b`
/// and the result with `c` yields the single three-element sequence
/// `[a, b, c]`, not a sequence nested inside a sequence.
pub proof fn lemma_combine_flattens(a: RichText, b: RichText, c: RichText, ab: RichText,
    abc: RichText)
    requires
        !(a is Sequence),
        combined(a, b, ab),
        combined(ab, c, abc),
    ensures
        abc is Sequence,
        abc->Sequence_0@ =~= seq![a, b, c],
{
}

/// A modifier is scoped to its subtree and does not leak past it: in a
/// sequence built from a foreground-wrapped node followed by a plain node,
/// the wrapped node's tiles take the wrapping color while everything after
/// it flattens under the ambient colors, whatever they are.
pub proof fn lemma_modifier_scoping(s1: RichText, s2: RichText, c1: Color, fg: Color, bg: Color,
    wrapped: RichText, seq_node: RichText)
    requires
        wrapped is Modifier,
        wrapped->Modifier_0 == RichTextModifier::FgColor(c1),
        *wrapped->Modifier_1 == s1,
        combined(wrapped, s2, seq_node),
    ensures
        flat_tiles(seq_node, fg, bg) =~= flat_tiles(s1, c1, bg) + flat_tiles(s2, fg, bg),
{
    let cs = seq_node->Sequence_0@;
    assert(!(wrapped is Sequence));
    assert(cs == seq![wrapped, s2]);
    assert(cs.len() == 2);
    assert(cs[0] == wrapped);
    assert(cs[1] == s2);
    let first = cs.subrange(0, 1);
    assert(first.len() == 1);
    assert(first[0] == wrapped);
    let sub0 = first.subrange(0, 0);
    assert(sub0.len() == 0);
    assert(flat_children(sub0, fg, bg) =~= Seq::<ScreenTile>::empty());
    assert(flat_children(first, fg, bg) =~= flat_tiles(wrapped, fg, bg));
    assert(flat_tiles(wrapped, fg, bg) == flat_tiles(s1, c1, bg));
    assert(flat_children(cs, fg, bg) =~= flat_children(first, fg, bg) + flat_tiles(s2, fg, bg));
    assert(flat_tiles(seq_node, fg, bg) == flat_children(cs, fg, bg));
}

impl RichText {
    /// A leaf holding the literal `text`.
    pub fn from_literal(text: String) -> (r: RichText)
        ensures
            r == RichText::Text(text),
    {
        RichText::Text(text)
    }

    /// Wraps `self` so that everything beneath renders with foreground
    /// `color`.
    pub fn fg_color(self, color: Color) -> (r: RichText)
        ensures
            r is Modifier,
            r->Modifier_0 == RichTextModifier::FgColor(color),
            *r->Modifier_1 == self,
    {
        RichText::Modifier(RichTextModifier::FgColor(color), Box::new(self))
    }

    /// Wraps `self` so that everything beneath renders with background
    /// `color`.
    pub fn bg_color(self, color: Color) -> (r: RichText)
        ensures
            r is Modifier,
            r->Modifier_0 == RichTextModifier::BgColor(color),
            *r->Modifier_1 == self,
    {
        RichText::Modifier(RichTextModifier::BgColor(color), Box::new(self))
    }

    /// Appends `rhs` after `self`: an existing sequence grows by one element,
    /// anything else becomes the two-element sequence `[self, rhs]`.
    pub fn combine(self, rhs: RichText) -> (r: RichText)
        ensures
            combined(self, rhs, r),
    {
        match self {
            RichText::Sequence(mut children) => {
                children.push(rhs);
                RichText::Sequence(children)
            },
            lhs => {
                let mut children: Vec<RichText> = Vec::new();
                children.push(lhs);
                children.push(rhs);
                proof {
                    assert(children@ =~= seq![lhs, rhs]);
                }
                RichText::Sequence(children)
            },
        }
    }

    /// The in-place form of [`RichText::combine`].
    pub fn append(&mut self, rhs: RichText)
        ensures
            combined(*old(self), rhs, *final(self)),
    {
        let mut taken = RichText::Sequence(Vec::new());
        core::mem::swap(self, &mut taken);
        *self = taken.combine(rhs);
    }

    /// Flattens the tree into its run of tile records under the default
    /// palette: one tile per character, colored by the innermost enclosing
    /// modifiers.
    pub fn tiles(&self) -> (out: Vec<ScreenTile>)
        ensures
            out@ == flat_tiles(*self, default_fg(), default_bg()),
    {
        let mut out: Vec<ScreenTile> = Vec::new();
        let fg = default_foreground();
        let bg = default_background();
        push_tiles(self, fg, bg, &mut out);
        out
    }
}

/// Pushes the flattening of `rt` under the active colors onto `out`.
#[verifier::loop_isolation(false)]
fn push_tiles(rt: &RichText, fg: Color, bg: Color, out: &mut Vec<ScreenTile>)
    ensures
        final(out)@ == old(out)@ + flat_tiles(*rt, fg, bg),
    decreases *rt,
{
    match rt {
        RichText::Text(s) => {
            let n = s.as_str().unicode_len();
            for i in 0..n
                invariant
                    n == s@.len(),
                    out@ == old(out)@ + Seq::new(i as nat, |j: int| tile_of(s@[j], fg, bg)),
                decreases n - i,
            {
                let ch = s.as_str().get_char(i);
                out.push(ScreenTile { sprite: ch as SpriteIndex, fg_color: fg, bg_color: bg });
                proof {
                    assert(out@ =~= old(out)@ + Seq::new(
                        (i + 1) as nat,
                        |j: int| tile_of(s@[j], fg, bg),
                    ));
                }
            }
            proof {
                assert(out@ =~= old(out)@ + flat_tiles(*rt, fg, bg));
            }
        },
        RichText::Modifier(m, child) => match m {
            RichTextModifier::FgColor(c) => push_tiles(child, *c, bg, out),
            RichTextModifier::BgColor(c) => push_tiles(child, fg, *c, out),
        },
        RichText::Sequence(children) => {
            let n = children.len();
            for i in 0..n
                invariant
                    n == children@.len(),
                    out@ == old(out)@ + flat_children(
                        children@.subrange(0, i as int),
                        fg,
                        bg,
                    ),
                decreases n - i,
            {
                proof {
                    assert(decreases_to!(*rt => rt->Sequence_0));
                    assert(decreases_to!(rt->Sequence_0 => rt->Sequence_0@));
                    assert(decreases_to!(rt->Sequence_0@ => rt->Sequence_0@[i as int]));
                    assert(decreases_to!(*rt => rt->Sequence_0@[i as int]));
                    assert(children@[i as int] == rt->Sequence_0@[i as int]);
                }
                push_tiles(&children[i], fg, bg, out);
                proof {
                    let pre = children@.subrange(0, i as int);
                    let post = children@.subrange(0, i + 1);
                    assert(post.subrange(0, post.len() - 1) =~= pre);
                    assert(post[post.len() - 1] == children@[i as int]);
                }
            }
            proof {
                assert(children@.subrange(0, n as int) =~= children@);
            }
        },
    }
}

} // verus!
