//! What a font object says of the family as a whole.

use vstd::prelude::*;
use crate::context::{find_ufo, ufo_index, ContextModel, DesignspaceContext};
use crate::decimal::DecimalModel;
use crate::designspace::{Source, SourceModel};
use crate::error::{ConversionError, ConversionErrorModel, ErrorKind};
use crate::order::{sort_names, sorted};
use crate::plist::{dict_get, lookup, Plist, PlistModel};
use crate::seqs::{collect, distinct, first_match, lemma_first_match};
use crate::ufo::{FontInfo, FontInfoModel, UfoGlyph, UfoGlyphModel};
use crate::vecs::{
    contains_name, distinct_names, filter_map_model, find_first, map_model, try_map_model,
};

verus! {

/// What the font objects say of the family as a whole.
#[derive(Debug, PartialEq, Eq)]
pub struct FontProperties {
    pub disables_automatic_alignment: bool,
    pub family_name: String,
    pub glyph_order: Vec<String>,
    pub units_per_em: i64,
    pub version_major: i64,
    pub version_minor: i64,
}

/// What a [`FontProperties`] stands for.
pub struct FontPropertiesModel {
    pub disables_automatic_alignment: bool,
    pub family_name: Seq<char>,
    pub glyph_order: Seq<Seq<char>>,
    pub units_per_em: i64,
    pub version_major: i64,
    pub version_minor: i64,
}

impl DeepView for FontProperties {
    type V = FontPropertiesModel;

    open spec fn deep_view(&self) -> FontPropertiesModel {
        FontPropertiesModel {
            disables_automatic_alignment: self.disables_automatic_alignment,
            family_name: self.family_name@,
            glyph_order: self.glyph_order.deep_view(),
            units_per_em: self.units_per_em,
            version_major: self.version_major,
            version_minor: self.version_minor,
        }
    }
}

/// The failure of a glyph order that is not a list of strings.
pub open spec fn bad_glyph_order() -> ConversionErrorModel {
    ConversionErrorModel::new(ErrorKind::BadGlyphOrder, Seq::empty())
}

/// The name that an item of a glyph order gives.
pub open spec fn listed_name(item: PlistModel) -> Result<Seq<char>, ConversionErrorModel> {
    match item {
        PlistModel::String(s) => Ok(s),
        _ => Err(bad_glyph_order()),
    }
}

/// The glyph order that a font object lists under `public.glyphOrder`: none
/// where it lists none. What is there must be a list of strings.
pub open spec fn listed_names(lib: Seq<(Seq<char>, PlistModel)>) -> Result<
    Seq<Seq<char>>,
    ConversionErrorModel,
> {
    match lookup(lib, "public.glyphOrder"@) {
        None => Ok(Seq::empty()),
        Some(PlistModel::Array(items)) => collect(
            items.map_values(|item: PlistModel| listed_name(item)),
        ),
        Some(_) => Err(bad_glyph_order()),
    }
}

/// `name` where the list does not hold it.
pub open spec fn unless_listed(listed: Seq<Seq<char>>, name: Seq<char>) -> Option<Seq<char>> {
    if listed.contains(name) {
        None
    } else {
        Some(name)
    }
}

/// The order of the glyphs: the names that are listed, each once and in the
/// order of the list, and then the names of the glyphs that the list leaves
/// out, in the order of names.
pub open spec fn glyph_order_of(listed: Seq<Seq<char>>, names: Seq<Seq<char>>) -> Seq<Seq<char>> {
    distinct(listed) + sorted(
        distinct(names).filter_map(|name: Seq<char>| unless_listed(listed, name)),
    )
}

/// A name is among what the list leaves out exactly where it is a name of
/// a glyph that the list does not hold.
proof fn lemma_left_out(names: Seq<Seq<char>>, listed: Seq<Seq<char>>, n: Seq<char>)
    ensures
        names.filter_map(|name: Seq<char>| unless_listed(listed, name)).contains(n) <==> (
        names.contains(n) && !listed.contains(n)),
    decreases names.len(),
{
    let g = |name: Seq<char>| unless_listed(listed, name);
    if names.len() == 0 {
        assert(names.filter_map(g) =~= Seq::<Seq<char>>::empty());
    } else {
        let init = names.drop_last();
        let last = names.last();
        lemma_left_out(init, listed, n);
        assert(names =~= init.push(last));
        vstd::seq_lib::lemma_seq_contains_after_push(init, last, n);
        if listed.contains(last) {
            assert(names.filter_map(g) == init.filter_map(g));
        } else {
            assert(names.filter_map(g) =~= init.filter_map(g).push(last));
            vstd::seq_lib::lemma_seq_contains_after_push(init.filter_map(g), last, n);
        }
    }
}

/// The order of the glyphs leaves no glyph out: it holds every name that is
/// listed and every name of a glyph, and no other. It starts with the names
/// that are listed, and what follows them is in the order of names.
pub proof fn lemma_glyph_order_covers(listed: Seq<Seq<char>>, names: Seq<Seq<char>>)
    ensures
        forall|n: Seq<char>| #[trigger]
            glyph_order_of(listed, names).contains(n) <==> (listed.contains(n) || names.contains(
                n,
            )),
        glyph_order_of(listed, names).take(distinct(listed).len() as int) == distinct(listed),
        crate::order::ordered(glyph_order_of(listed, names).skip(distinct(listed).len() as int)),
{
    let head = distinct(listed);
    let rest = distinct(names).filter_map(|name: Seq<char>| unless_listed(listed, name));
    let tail = sorted(rest);
    let order = glyph_order_of(listed, names);
    crate::seqs::lemma_distinct(listed);
    crate::seqs::lemma_distinct(names);
    crate::order::lemma_sorted(rest);
    assert(order.take(head.len() as int) =~= head);
    assert(order.skip(head.len() as int) =~= tail);
    assert forall|n: Seq<char>| #[trigger]
        order.contains(n) <==> (listed.contains(n) || names.contains(n)) by {
        vstd::seq_lib::lemma_seq_concat_contains_all_elements(head, tail, n);
        lemma_left_out(distinct(names), listed, n);
        assert(head.contains(n) <==> listed.contains(n));
        assert(distinct(names).contains(n) <==> names.contains(n));
        assert(tail.contains(n) <==> rest.contains(n));
    }
}

/// Whether automatic alignment is switched off: it is, unless the font
/// object says under its key, with a truth value, that it is not.
pub open spec fn alignment_disabled(lib: Seq<(Seq<char>, PlistModel)>) -> bool {
    match lookup(lib, "com.schriftgestaltung.customParameter.GSFont.disablesAutomaticAlignment"@) {
        Some(PlistModel::Boolean(b)) => b,
        _ => true,
    }
}

/// `v` rounded, or `default` where there is none.
pub open spec fn rounded_or(v: Option<DecimalModel>, default: i64) -> i64 {
    match v {
        Some(v) => v.rounded() as i64,
        None => default,
    }
}

/// `v`, or `default` where there is none.
pub open spec fn value_or(v: Option<i64>, default: i64) -> i64 {
    match v {
        Some(v) => v,
        None => default,
    }
}

/// The source is a master, and the metadata of its font object meets `has`.
pub open spec fn master_that(
    context: ContextModel,
    source: SourceModel,
    has: spec_fn(FontInfoModel) -> bool,
) -> bool {
    source.layer is None && match ufo_index(context.ufos, source.filename) {
        Some(k) => has(context.ufos[k].1.font_info),
        None => false,
    }
}

/// The index of the first master source, in the order of the sources, whose
/// font object has metadata that meets `has`.
pub open spec fn first_master_that(context: ContextModel, has: spec_fn(FontInfoModel) -> bool)
    -> Option<int> {
    first_match(context.designspace.sources, |s: SourceModel| master_that(context, s, has))
}

/// The metadata of the first master source, in the order of the sources,
/// whose font object has metadata that meets `has`.
pub open spec fn first_info_that(context: ContextModel, has: spec_fn(FontInfoModel) -> bool)
    -> Option<FontInfoModel> {
    match first_master_that(context, has) {
        Some(i) => Some(context.source_ufo(i).font_info),
        None => None,
    }
}

/// The metadata has a family name.
pub open spec fn names_family(info: FontInfoModel) -> bool {
    info.family_name is Some
}

/// The metadata has a number of units per em.
pub open spec fn gives_units(info: FontInfoModel) -> bool {
    info.units_per_em is Some
}

/// The metadata has a major version.
pub open spec fn gives_major(info: FontInfoModel) -> bool {
    info.version_major is Some
}

/// The metadata has a minor version.
pub open spec fn gives_minor(info: FontInfoModel) -> bool {
    info.version_minor is Some
}

/// The name of the family: the one in the font object of the first master
/// source that has one, and `New Font` where none has.
pub open spec fn family_name_of(context: ContextModel) -> Seq<char> {
    match first_info_that(context, |info: FontInfoModel| names_family(info)) {
        Some(info) => info.family_name->0,
        None => "New Font"@,
    }
}

/// The units per em: those in the font object of the first master source
/// that has them, rounded, and 1000 where none has.
pub open spec fn units_per_em_of(context: ContextModel) -> i64 {
    match first_info_that(context, |info: FontInfoModel| gives_units(info)) {
        Some(info) => rounded_or(info.units_per_em, 1000),
        None => 1000,
    }
}

/// The major version: the one in the font object of the first master source
/// that has one, and 1 where none has.
pub open spec fn version_major_of(context: ContextModel) -> i64 {
    match first_info_that(context, |info: FontInfoModel| gives_major(info)) {
        Some(info) => value_or(info.version_major, 1),
        None => 1,
    }
}

/// The minor version: the one in the font object of the first master source
/// that has one, and 0 where none has.
pub open spec fn version_minor_of(context: ContextModel) -> i64 {
    match first_info_that(context, |info: FontInfoModel| gives_minor(info)) {
        Some(info) => value_or(info.version_minor, 0),
        None => 0,
    }
}

/// What the font objects say of the family as a whole. Its name, its units
/// per em and the two parts of its version come each from the first master
/// source, in the order of the sources, whose font object has it. Whether
/// automatic alignment is switched off and the order of the glyphs come
/// from the font object of the default source: there must be a default
/// source, its font object must have a default layer, and its glyph order
/// must be a list of strings.
pub open spec fn font_properties(context: ContextModel) -> Result<
    FontPropertiesModel,
    ConversionErrorModel,
> {
    match context.default_source() {
        Err(e) => Err(e),
        Ok(i) => {
            let ufo = context.source_ufo(i);
            if ufo.layers.len() == 0 {
                Err(
                    ConversionErrorModel::new(
                        ErrorKind::MissingLayer,
                        context.designspace.sources[i].filename,
                    ),
                )
            } else {
                match listed_names(ufo.lib) {
                    Err(e) => Err(e),
                    Ok(listed) => Ok(
                        FontPropertiesModel {
                            disables_automatic_alignment: alignment_disabled(ufo.lib),
                            family_name: family_name_of(context),
                            glyph_order: glyph_order_of(listed, ufo.layers[0].glyph_names()),
                            units_per_em: units_per_em_of(context),
                            version_major: version_major_of(context),
                            version_minor: version_minor_of(context),
                        },
                    ),
                }
            }
        },
    }
}

/// The first font object wins: where the master source at `i` has metadata
/// that meets `has`, and no master source before it has, that metadata is
/// what is taken, whatever the sources after it say.
pub proof fn lemma_first_master_wins(
    context: ContextModel,
    has: spec_fn(FontInfoModel) -> bool,
    i: int,
)
    requires
        0 <= i < context.designspace.sources.len(),
        master_that(context, context.designspace.sources[i], has),
        forall|j: int| 0 <= j < i ==> !master_that(context, #[trigger] context.designspace.sources[j], has),
    ensures
        first_info_that(context, has) == Some(context.source_ufo(i).font_info),
        has(context.source_ufo(i).font_info),
{
    crate::seqs::lemma_first_match_at(
        context.designspace.sources,
        |s: SourceModel| master_that(context, s, has),
        i,
    );
}

/// Where no master source has metadata that meets `has`, none is taken.
pub proof fn lemma_no_master_supplies(context: ContextModel, has: spec_fn(FontInfoModel) -> bool)
    requires
        forall|j: int|
            0 <= j < context.designspace.sources.len() ==> !master_that(
                context,
                #[trigger] context.designspace.sources[j],
                has,
            ),
    ensures
        first_info_that(context, has) is None,
{
    crate::seqs::lemma_first_match_none(
        context.designspace.sources,
        |s: SourceModel| master_that(context, s, has),
    );
}

/// The metadata of the first master source whose font object has metadata
/// of which `has` says yes.
fn first_info<'a, F: Fn(&FontInfo) -> bool>(
    context: &'a DesignspaceContext,
    has: F,
    p: Ghost<spec_fn(FontInfoModel) -> bool>,
) -> (r: Option<&'a FontInfo>)
    requires
        forall|x: FontInfo| call_requires(has, (&x,)),
        forall|x: FontInfo, b: bool| call_ensures(has, (&x,), b) ==> b == (p@)(x.deep_view()),
    ensures
        r.deep_view() == first_info_that(context.deep_view(), p@),
        r matches Some(info) ==> (p@)(info.deep_view()),
{
    let supplies = |s: &Source| -> (b: bool)
        ensures
            b == master_that(context.deep_view(), s.deep_view(), p@),
        {
            if s.layer.is_some() {
                false
            } else {
                match find_ufo(context.ufos(), s.filename.as_str()) {
                    Some(k) => has(&context.ufos()[k].1.font_info),
                    None => false,
                }
            }
        };
    let found = find_first(
        &context.designspace().sources,
        supplies,
        Ghost(|s: SourceModel| master_that(context.deep_view(), s, p@)),
    );
    proof {
        lemma_first_match(
            context.deep_view().designspace.sources,
            |s: SourceModel| master_that(context.deep_view(), s, p@),
        );
    }
    match found {
        Some(i) => Some(&context.source_ufo(i).font_info),
        None => None,
    }
}

/// The glyph order that a font object lists.
fn read_listed_names(lib: &Vec<(String, Plist)>) -> (r: Result<Vec<String>, ConversionError>)
    ensures
        match r {
            Ok(names) => listed_names(crate::plist::entries_model(lib@)) == Ok::<
                Seq<Seq<char>>,
                ConversionErrorModel,
            >(names.deep_view()),
            Err(e) => listed_names(crate::plist::entries_model(lib@)) == Err::<
                Seq<Seq<char>>,
                ConversionErrorModel,
            >(e.deep_view()),
        },
{
    proof {
        reveal_strlit("");
        assert(""@ =~= Seq::<char>::empty());
    }
    match dict_get(lib, "public.glyphOrder") {
        None => {
            let names: Vec<String> = Vec::new();
            assert(names.deep_view() =~= Seq::<Seq<char>>::empty());
            Ok(names)
        },
        Some(value) => match value.as_array() {
            None => Err(ConversionError::new(ErrorKind::BadGlyphOrder, "")),
            Some(items) => {
                let read = |item: &Plist| -> (r: Result<String, ConversionError>)
                    ensures
                        match r {
                            Ok(s) => listed_name(item.deep_view()) == Ok::<
                                Seq<char>,
                                ConversionErrorModel,
                            >(s@),
                            Err(e) => listed_name(item.deep_view()) == Err::<
                                Seq<char>,
                                ConversionErrorModel,
                            >(e.deep_view()),
                        },
                    {
                        match item.as_str() {
                            Some(s) => Ok(s.clone()),
                            None => Err(ConversionError::new(ErrorKind::BadGlyphOrder, "")),
                        }
                    };
                try_map_model(items, read, Ghost(|item: PlistModel| listed_name(item)))
            },
        },
    }
}

/// The order of the glyphs, from the names that are listed and the names of
/// the glyphs.
pub fn glyph_order(listed: &Vec<String>, names: &Vec<String>) -> (r: Vec<String>)
    ensures
        r.deep_view() == glyph_order_of(listed.deep_view(), names.deep_view()),
{
    let mut order = distinct_names(listed);
    let all = distinct_names(names);
    let keep = |name: &String| -> (r: Option<String>)
        ensures
            r.deep_view() == unless_listed(listed.deep_view(), name@),
        {
            if contains_name(listed, name.as_str()) {
                None
            } else {
                Some(name.clone())
            }
        };
    let left = filter_map_model(
        &all,
        keep,
        Ghost(|name: Seq<char>| unless_listed(listed.deep_view(), name)),
    );
    let mut rest = sort_names(left);
    let ghost head = order.deep_view();
    let ghost tail = rest.deep_view();
    order.append(&mut rest);
    assert(order.deep_view() =~= head + tail);
    order
}

impl FontProperties {
    /// What the font objects say of the family as a whole: its name, its
    /// units per em and its version each from the first master source whose
    /// font object has it, the rest from the font object of the default
    /// source. Fails where there is no default source, where its font object
    /// has no layer, and where its glyph order is not a list of strings.
    pub fn from_context(context: &DesignspaceContext) -> (r: Result<
        FontProperties,
        ConversionError,
    >)
        ensures
            match r {
                Ok(p) => font_properties(context.deep_view()) == Ok::<
                    FontPropertiesModel,
                    ConversionErrorModel,
                >(p.deep_view()),
                Err(e) => font_properties(context.deep_view()) == Err::<
                    FontPropertiesModel,
                    ConversionErrorModel,
                >(e.deep_view()),
            },
    {
        let i = match context.default_source() {
            Ok(i) => i,
            Err(e) => {
                return Err(e);
            },
        };
        let ufo = context.source_ufo(i);
        if ufo.layers.len() == 0 {
            return Err(
                ConversionError::new(
                    ErrorKind::MissingLayer,
                    context.designspace().sources[i].filename.as_str(),
                ),
            );
        }
        let listed = match read_listed_names(&ufo.lib) {
            Ok(listed) => listed,
            Err(e) => {
                return Err(e);
            },
        };
        let name_of = |g: &UfoGlyph| -> (r: String)
            ensures
                r@ == g.deep_view().name,
            { g.name.clone() };
        let names = map_model(&ufo.layers[0].glyphs, name_of, Ghost(|g: UfoGlyphModel| g.name));
        let disables_automatic_alignment = match dict_get(
            &ufo.lib,
            "com.schriftgestaltung.customParameter.GSFont.disablesAutomaticAlignment",
        ) {
            Some(value) => match value.as_boolean() {
                Some(b) => b,
                None => true,
            },
            None => true,
        };
        let has_family = |info: &FontInfo| -> (b: bool)
            ensures
                b == names_family(info.deep_view()),
            { info.family_name.is_some() };
        let family_name = match first_info(
            context,
            has_family,
            Ghost(|info: FontInfoModel| names_family(info)),
        ) {
            Some(FontInfo { family_name: Some(name), .. }) => name.clone(),
            _ => "New Font".to_owned(),
        };
        let has_units = |info: &FontInfo| -> (b: bool)
            ensures
                b == gives_units(info.deep_view()),
            { info.units_per_em.is_some() };
        let units_per_em = match first_info(
            context,
            has_units,
            Ghost(|info: FontInfoModel| gives_units(info)),
        ) {
            Some(FontInfo { units_per_em: Some(v), .. }) => v.round(),
            _ => 1000,
        };
        let has_major = |info: &FontInfo| -> (b: bool)
            ensures
                b == gives_major(info.deep_view()),
            { info.version_major.is_some() };
        let version_major = match first_info(
            context,
            has_major,
            Ghost(|info: FontInfoModel| gives_major(info)),
        ) {
            Some(FontInfo { version_major: Some(v), .. }) => *v,
            _ => 1,
        };
        let has_minor = |info: &FontInfo| -> (b: bool)
            ensures
                b == gives_minor(info.deep_view()),
            { info.version_minor.is_some() };
        let version_minor = match first_info(
            context,
            has_minor,
            Ghost(|info: FontInfoModel| gives_minor(info)),
        ) {
            Some(FontInfo { version_minor: Some(v), .. }) => *v,
            _ => 0,
        };
        Ok(
            FontProperties {
                disables_automatic_alignment,
                family_name,
                glyph_order: glyph_order(&listed, &names),
                units_per_em,
                version_major,
                version_minor,
            },
        )
    }
}

} // verus!
