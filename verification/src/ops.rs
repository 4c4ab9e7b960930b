//! Operations on whole fonts.

use vstd::prelude::*;
use crate::font::{Font, FontModel, Glyph, GlyphModel, Layer, LayerModel};
use crate::seqs::first_match;
use crate::vecs::{index_model, map_model};

verus! {

/// The index of the last element of `s` that meets `p`.
pub open spec fn last_match<T>(s: Seq<T>, p: spec_fn(T) -> bool) -> Option<int> {
    match first_match(s.reverse(), p) {
        Some(i) => Some(s.len() - 1 - i),
        None => None,
    }
}

/// The glyph has a layer with the given identifier.
pub open spec fn has_layer(glyph: GlyphModel, layer_id: Seq<char>) -> bool {
    glyph.layer_index(layer_id) is Some
}

/// The layer that takes the place of the layer `layer_id` of the glyph
/// `name`: the last layer with that identifier in the last glyph of `other`
/// that has that name and such a layer.
pub open spec fn replacement(other: FontModel, name: Seq<char>, layer_id: Seq<char>) -> Option<
    LayerModel,
> {
    match last_match(
        other.glyphs,
        |g: GlyphModel| g.glyphname == name && has_layer(g, layer_id),
    ) {
        Some(g) => match last_match(
            other.glyphs[g].layers,
            |l: LayerModel| l.layer_id == layer_id,
        ) {
            Some(l) => Some(other.glyphs[g].layers[l]),
            None => None,
        },
        None => None,
    }
}

/// The layer after the merge: its replacement, where it has the given
/// identifier and there is a replacement, and else the layer as it was.
pub open spec fn merged_layer(
    layer: LayerModel,
    layer_id: Seq<char>,
    with: Option<LayerModel>,
) -> LayerModel {
    if layer.layer_id == layer_id && with is Some {
        with->0
    } else {
        layer
    }
}

/// The glyph after the merge.
pub open spec fn merged_glyph(glyph: GlyphModel, other: FontModel, layer_id: Seq<char>)
    -> GlyphModel {
    GlyphModel {
        layers: glyph.layers.map_values(
            |l: LayerModel| merged_layer(l, layer_id, replacement(other, glyph.glyphname, layer_id)),
        ),
        ..glyph
    }
}

/// The font after the merge: in every glyph, every layer with the given
/// identifier is replaced by the layer with that identifier of the glyph of
/// the same name in `other`.
pub open spec fn merged(font: FontModel, other: FontModel, layer_id: Seq<char>) -> FontModel {
    FontModel {
        glyphs: font.glyphs.map_values(|g: GlyphModel| merged_glyph(g, other, layer_id)),
        ..font
    }
}

/// The index of the last element of `v` for which `f` says yes.
fn find_last<A: DeepView, F: Fn(&A) -> bool>(
    v: &Vec<A>,
    f: F,
    Ghost(p): Ghost<spec_fn(A::V) -> bool>,
) -> (r: Option<usize>)
    requires
        forall|x: A| call_requires(f, (&x,)),
        forall|x: A, b: bool| call_ensures(f, (&x,), b) ==> b == p(x.deep_view()),
    ensures
        index_model(r) == last_match(v.deep_view(), p),
        r matches Some(i) ==> i < v@.len(),
{
    let ghost m = v.deep_view();
    let ghost back = m.reverse();
    let mut i: usize = v.len();
    while i > 0
        invariant
            i <= v.len(),
            m == v.deep_view(),
            back == m.reverse(),
            forall|x: A| call_requires(f, (&x,)),
            forall|x: A, b: bool| call_ensures(f, (&x,), b) ==> b == p(x.deep_view()),
            forall|j: int| 0 <= j < v.len() - i ==> !p(#[trigger] back[j]),
        decreases i,
    {
        i -= 1;
        assert(back[v.len() - 1 - i] == m[i as int]);
        if f(&v[i]) {
            proof {
                crate::seqs::lemma_first_match_at(back, p, v.len() - 1 - i);
            }
            return Some(i);
        }
    }
    proof {
        crate::seqs::lemma_first_match_none(back, p);
    }
    None
}

/// The layer that takes the place of the layer `layer_id` of the glyph
/// `name`.
fn find_replacement<'a>(other: &'a Font, name: &str, layer_id: &str) -> (r: Option<&'a Layer>)
    ensures
        r.deep_view() == replacement(other.deep_view(), name@, layer_id@),
{
    let fits = |g: &Glyph| -> (b: bool)
        ensures
            b == (g.deep_view().glyphname == name@ && has_layer(g.deep_view(), layer_id@)),
        { g.glyphname.as_str().eq(name) && g.layer_index(layer_id).is_some() };
    let found = find_last(
        &other.glyphs,
        fits,
        Ghost(|g: GlyphModel| g.glyphname == name@ && has_layer(g, layer_id@)),
    );
    match found {
        None => None,
        Some(g) => {
            let identified = |l: &Layer| -> (b: bool)
                ensures
                    b == (l.deep_view().layer_id == layer_id@),
                { l.layer_id.as_str().eq(layer_id) };
            match find_last(
                &other.glyphs[g].layers,
                identified,
                Ghost(|l: LayerModel| l.layer_id == layer_id@),
            ) {
                Some(l) => Some(&other.glyphs[g].layers[l]),
                None => None,
            }
        },
    }
}

/// The glyph after the merge.
fn merge_glyph(glyph: &Glyph, other: &Font, layer_id: &str) -> (r: Glyph)
    ensures
        r.deep_view() == merged_glyph(glyph.deep_view(), other.deep_view(), layer_id@),
{
    let with = find_replacement(other, glyph.glyphname.as_str(), layer_id);
    let choose_layer = |l: &Layer| -> (r: Layer)
        ensures
            r.deep_view() == merged_layer(l.deep_view(), layer_id@, with.deep_view()),
        {
            if l.layer_id.as_str().eq(layer_id) {
                match with {
                    Some(w) => w.clone(),
                    None => l.clone(),
                }
            } else {
                l.clone()
            }
        };
    let layers = map_model(
        &glyph.layers,
        choose_layer,
        Ghost(
            |l: LayerModel|
                merged_layer(
                    l,
                    layer_id@,
                    replacement(other.deep_view(), glyph.deep_view().glyphname, layer_id@),
                ),
        ),
    );
    let copy = glyph.clone();
    Glyph {
        unicode: copy.unicode,
        layers,
        glyphname: copy.glyphname,
        left_kerning_group: copy.left_kerning_group,
        right_kerning_group: copy.right_kerning_group,
        other_stuff: copy.other_stuff,
    }
}

/// Replaces, in every glyph of `font`, every layer with the identifier
/// `layer_id` by the layer with that identifier of the glyph of the same
/// name in `other`. A layer for which `other` has no such layer stays as it
/// is.
pub fn merge(font: &mut Font, other: &Font, layer_id: &str)
    ensures
        final(font).deep_view() == merged(old(font).deep_view(), other.deep_view(), layer_id@),
{
    let step = |g: &Glyph| -> (r: Glyph)
        ensures
            r.deep_view() == merged_glyph(g.deep_view(), other.deep_view(), layer_id@),
        { merge_glyph(g, other, layer_id) };
    let glyphs = map_model(
        &font.glyphs,
        step,
        Ghost(|g: GlyphModel| merged_glyph(g, other.deep_view(), layer_id@)),
    );
    font.glyphs = glyphs;
}

} // verus!
