//! What a conversion from a designspace knows before it starts: the
//! designspace, the font objects of its sources, and an identifier for each
//! source.

use vstd::prelude::*;
use crate::decimal::{Decimal, DecimalModel};
use crate::designspace::{
    locations_alike, same_location, Axis, AxisMapping, AxisMappingModel, AxisModel, Designspace,
    DesignspaceModel, Dimension, DimensionModel, Source, SourceModel,
};
use crate::error::{ConversionError, ConversionErrorModel, ErrorKind};
use crate::ident::{fresh_identifiers, is_identifier};
use crate::plist::{Plist, PlistModel};
use crate::seqs::{
    collect, first_match, lemma_first_match, lemma_first_match_at, lemma_first_match_none,
};
use crate::ufo::{Ufo, UfoLayer, UfoLayerModel, UfoModel};
use crate::vecs::{find_first, index_model, map_model, try_map_model};

verus! {

/// The identity of the layer that a source becomes.
#[derive(Debug, PartialEq, Eq)]
pub enum LayerId {
    /// The layer of a master, with the master's identifier.
    Master(String),
    /// A layer that belongs to a master: the master's identifier, the
    /// layer's own, and the layer's name in its font object.
    AssociatedWithMaster(String, String, String),
}

/// What a [`LayerId`] stands for.
pub enum LayerIdModel {
    Master(Seq<char>),
    AssociatedWithMaster(Seq<char>, Seq<char>, Seq<char>),
}

impl DeepView for LayerId {
    type V = LayerIdModel;

    open spec fn deep_view(&self) -> LayerIdModel {
        match self {
            LayerId::Master(id) => LayerIdModel::Master(id@),
            LayerId::AssociatedWithMaster(parent, id, name) => LayerIdModel::AssociatedWithMaster(
                parent@,
                id@,
                name@,
            ),
        }
    }
}

impl Clone for LayerId {
    fn clone(&self) -> (r: LayerId)
        ensures
            r.deep_view() == self.deep_view(),
    {
        match self {
            LayerId::Master(id) => LayerId::Master(id.clone()),
            LayerId::AssociatedWithMaster(parent, id, name) => LayerId::AssociatedWithMaster(
                parent.clone(),
                id.clone(),
                name.clone(),
            ),
        }
    }
}

/// The user coordinate of the first row of the axis's table that stands at
/// exactly the design coordinate `value`; `value` itself where the axis has
/// no table. Nothing lies between the rows.
pub open spec fn mapped_backwards(axis: AxisModel, value: DecimalModel) -> Option<DecimalModel> {
    match axis.map {
        None => Some(value),
        Some(rows) => match first_match(rows, |r: AxisMappingModel| r.output.same_number(value)) {
            Some(i) => Some(rows[i].input),
            None => None,
        },
    }
}

/// The design coordinate of the first row of the axis's table that stands at
/// exactly the user coordinate `value`; `value` itself where the axis has no
/// table. Nothing lies between the rows.
pub open spec fn mapped_forwards(axis: AxisModel, value: DecimalModel) -> Option<DecimalModel> {
    match axis.map {
        None => Some(value),
        Some(rows) => match first_match(rows, |r: AxisMappingModel| r.input.same_number(value)) {
            Some(i) => Some(rows[i].output),
            None => None,
        },
    }
}

/// The failure of a coordinate that no row of the axis's table stands at.
pub open spec fn mapping_not_found(axis: AxisModel) -> ConversionErrorModel {
    ConversionErrorModel::new(ErrorKind::MappingNotFound, axis.name)
}

/// The user coordinate that stands at the design coordinate `value` on
/// `axis`. Fails where the axis has a table and no row of it stands at
/// exactly `value`.
pub fn map_axis_value_backwards(axis: &Axis, value: &Decimal) -> (r: Result<
    Decimal,
    ConversionError,
>)
    ensures
        match r {
            Ok(v) => mapped_backwards(axis.deep_view(), value@) == Some(v@),
            Err(e) => mapped_backwards(axis.deep_view(), value@) is None && e.deep_view()
                == mapping_not_found(axis.deep_view()),
        },
{
    match &axis.map {
        None => Ok(value.copy()),
        Some(rows) => {
            let at_value = |row: &AxisMapping| -> (b: bool)
                ensures
                    b == row.deep_view().output.same_number(value@),
                { row.output.eq_value(value) };
            let found = find_first(
                rows,
                at_value,
                Ghost(|r: AxisMappingModel| r.output.same_number(value@)),
            );
            match found {
                Some(i) => Ok(rows[i].input.copy()),
                None => Err(ConversionError::new(ErrorKind::MappingNotFound, axis.name.as_str())),
            }
        },
    }
}

/// The design coordinate that stands at the user coordinate `value` on
/// `axis`. Fails where the axis has a table and no row of it stands at
/// exactly `value`.
pub fn map_axis_value_forwards(axis: &Axis, value: &Decimal) -> (r: Result<Decimal, ConversionError>)
    ensures
        match r {
            Ok(v) => mapped_forwards(axis.deep_view(), value@) == Some(v@),
            Err(e) => mapped_forwards(axis.deep_view(), value@) is None && e.deep_view()
                == mapping_not_found(axis.deep_view()),
        },
{
    match &axis.map {
        None => Ok(value.copy()),
        Some(rows) => {
            let at_input = |row: &AxisMapping| -> (b: bool)
                ensures
                    b == row.deep_view().input.same_number(value@),
                { row.input.eq_value(value) };
            let found = find_first(
                rows,
                at_input,
                Ghost(|r: AxisMappingModel| r.input.same_number(value@)),
            );
            match found {
                Some(i) => Ok(rows[i].output.copy()),
                None => Err(ConversionError::new(ErrorKind::MappingNotFound, axis.name.as_str())),
            }
        },
    }
}

/// The rounded design coordinate of the position at `i`, where the location
/// has one there.
pub open spec fn rounded_at(location: Seq<DimensionModel>, i: int) -> Option<i64> {
    if 0 <= i < location.len() {
        Some(location[i].design_value().rounded() as i64)
    } else {
        None
    }
}

/// The design coordinate of the position at `i`, where the location has one
/// there.
pub open spec fn value_at(location: Seq<DimensionModel>, i: int) -> Option<DecimalModel> {
    if 0 <= i < location.len() {
        Some(location[i].design_value())
    } else {
        None
    }
}

/// The first of the two, or zero where there is none.
pub open spec fn or_zero(v: Option<i64>) -> i64 {
    match v {
        Some(v) => v,
        None => 0,
    }
}

/// The six slots of a master's place: the rounded design coordinates of a
/// location by position, whatever the axes are called. The first slot is
/// zero where the location is empty.
pub open spec fn design_location_of(location: Seq<DimensionModel>) -> (
    i64,
    Option<i64>,
    Option<i64>,
    Option<i64>,
    Option<i64>,
    Option<i64>,
) {
    (
        or_zero(rounded_at(location, 0)),
        rounded_at(location, 1),
        rounded_at(location, 2),
        rounded_at(location, 3),
        rounded_at(location, 4),
        rounded_at(location, 5),
    )
}

/// The six slots of an instance's place: the design coordinates of a
/// location by position. The first slot is zero where the location is empty.
pub open spec fn design_location_float_of(location: Seq<DimensionModel>) -> (
    DecimalModel,
    Option<DecimalModel>,
    Option<DecimalModel>,
    Option<DecimalModel>,
    Option<DecimalModel>,
    Option<DecimalModel>,
) {
    (
        match value_at(location, 0) {
            Some(v) => v,
            None => DecimalModel::of_int(0),
        },
        value_at(location, 1),
        value_at(location, 2),
        value_at(location, 3),
        value_at(location, 4),
        value_at(location, 5),
    )
}

fn location_at(location: &Vec<Dimension>, i: usize) -> (r: Option<i64>)
    ensures
        r == rounded_at(location.deep_view(), i as int),
{
    if i < location.len() {
        Some(location[i].design_value().round())
    } else {
        None
    }
}

fn location_float_at(location: &Vec<Dimension>, i: usize) -> (r: Option<Decimal>)
    ensures
        r.deep_view() == value_at(location.deep_view(), i as int),
{
    if i < location.len() {
        Some(location[i].design_value())
    } else {
        None
    }
}

/// The six slots of a master's place.
pub fn design_location(location: &Vec<Dimension>) -> (r: (
    i64,
    Option<i64>,
    Option<i64>,
    Option<i64>,
    Option<i64>,
    Option<i64>,
))
    ensures
        r == design_location_of(location.deep_view()),
{
    let first = match location_at(location, 0) {
        Some(v) => v,
        None => 0,
    };
    (
        first,
        location_at(location, 1),
        location_at(location, 2),
        location_at(location, 3),
        location_at(location, 4),
        location_at(location, 5),
    )
}

/// The six slots of an instance's place.
pub fn design_location_float(location: &Vec<Dimension>) -> (r: (
    Decimal,
    Option<Decimal>,
    Option<Decimal>,
    Option<Decimal>,
    Option<Decimal>,
    Option<Decimal>,
))
    ensures
        r.deep_view() == design_location_float_of(location.deep_view()),
{
    let first = match location_float_at(location, 0) {
        Some(v) => v,
        None => Decimal::from_i64(0),
    };
    (
        first,
        location_float_at(location, 1),
        location_float_at(location, 2),
        location_float_at(location, 3),
        location_float_at(location, 4),
        location_float_at(location, 5),
    )
}

/// The index of the first name in `names` that an earlier one equals.
pub open spec fn first_repeated(names: Seq<Seq<char>>) -> Option<int> {
    first_match(
        Seq::new(names.len(), |j: int| j),
        |j: int| 0 <= j < names.len() && names.take(j).contains(names[j]),
    )
}

/// A name is repeated exactly where the names are not all different.
pub proof fn lemma_first_repeated(names: Seq<Seq<char>>)
    ensures
        first_repeated(names) is None <==> names.no_duplicates(),
        first_repeated(names) matches Some(j) ==> 0 <= j < names.len(),
{
    let idx = Seq::new(names.len(), |j: int| j);
    let p = |j: int| 0 <= j < names.len() && names.take(j).contains(names[j]);
    lemma_first_match(idx, p);
    if first_repeated(names) is None {
        assert forall|i: int, j: int| 0 <= i < names.len() && 0 <= j < names.len() && i != j implies names[i]
            != names[j] by {
            let (a, b) = if i < j { (i, j) } else { (j, i) };
            assert(!p(idx[b]));
            if names[a] == names[b] {
                assert(names.take(b)[a] == names[b]);
            }
        }
    } else {
        let j = first_repeated(names)->0;
        assert(p(idx[j]));
        let i = choose|i: int| 0 <= i < names.take(j).len() && names.take(j)[i] == names[j];
        assert(names[i] == names[j] && i != j);
    }
}

/// What a [`DesignspaceContext`] stands for.
pub struct ContextModel {
    pub designspace: DesignspaceModel,
    pub ufos: Seq<(Seq<char>, UfoModel)>,
    pub ids: Seq<Seq<char>>,
}

/// The names of the sources.
pub open spec fn source_names(sources: Seq<SourceModel>) -> Seq<Seq<char>> {
    sources.map_values(|s: SourceModel| s.name)
}

/// The index of the font object with the given file name.
pub open spec fn ufo_index(ufos: Seq<(Seq<char>, UfoModel)>, filename: Seq<char>) -> Option<int> {
    first_match(ufos, |u: (Seq<char>, UfoModel)| u.0 == filename)
}

/// Why the designspace and the font objects cannot be converted, if they
/// cannot: two sources have one name; or there are more than six axes; or a
/// source's font object is not among those handed in.
pub open spec fn context_fault(designspace: DesignspaceModel, ufos: Seq<(Seq<char>, UfoModel)>)
    -> Option<ConversionErrorModel> {
    let names = source_names(designspace.sources);
    match first_repeated(names) {
        Some(j) => Some(ConversionErrorModel::new(ErrorKind::DuplicateSourceName, names[j])),
        None => if designspace.axes.len() > 6 {
            Some(ConversionErrorModel::new(ErrorKind::TooManyAxes, Seq::empty()))
        } else {
            match first_match(
                designspace.sources,
                |s: SourceModel| ufo_index(ufos, s.filename) is None,
            ) {
                Some(i) => Some(
                    ConversionErrorModel::new(
                        ErrorKind::MissingFontObject,
                        designspace.sources[i].filename,
                    ),
                ),
                None => None,
            }
        },
    }
}

/// A designspace with two sources of one name cannot be converted, whatever
/// else it holds.
pub proof fn lemma_duplicate_source_names(
    designspace: DesignspaceModel,
    ufos: Seq<(Seq<char>, UfoModel)>,
)
    requires
        !source_names(designspace.sources).no_duplicates(),
    ensures
        context_fault(designspace, ufos) is Some,
        context_fault(designspace, ufos)->0.kind == ErrorKind::DuplicateSourceName,
        context_fault(designspace, ufos)->0.kind.spec_class()
            == crate::error::ErrorClass::Configuration,
{
    lemma_first_repeated(source_names(designspace.sources));
}

/// Why the identifiers cannot be those of `count` sources, if they cannot:
/// they are not as many as the sources; or one of them occurs twice.
pub open spec fn identifiers_fault(count: nat, ids: Seq<Seq<char>>) -> Option<
    ConversionErrorModel,
> {
    if ids.len() != count {
        Some(ConversionErrorModel::new(ErrorKind::IdentifierCount, Seq::empty()))
    } else {
        match first_repeated(ids) {
            Some(j) => Some(ConversionErrorModel::new(ErrorKind::RepeatedIdentifier, ids[j])),
            None => None,
        }
    }
}

/// Identifiers of which two are the same are refused, however many they
/// are.
pub proof fn lemma_repeated_identifiers(count: nat, ids: Seq<Seq<char>>)
    requires
        !ids.no_duplicates(),
    ensures
        identifiers_fault(count, ids) is Some,
        identifiers_fault(count, ids)->0.kind.spec_class()
            == crate::error::ErrorClass::Configuration,
{
    lemma_first_repeated(ids);
}

impl ContextModel {
    /// The context is one that a conversion can start from: nothing is wrong
    /// with the designspace and the font objects, and every source has an
    /// identifier that no other source has.
    pub open spec fn wf(self) -> bool {
        &&& context_fault(self.designspace, self.ufos) is None
        &&& self.ids.len() == self.designspace.sources.len()
        &&& self.ids.no_duplicates()
    }

    /// The font object that the source at `i` is drawn in.
    pub open spec fn source_ufo(self, i: int) -> UfoModel {
        self.ufos[ufo_index(self.ufos, self.designspace.sources[i].filename)->0].1
    }

    /// The index of the master source that is drawn in the font object with
    /// the given file name.
    pub open spec fn master_in(self, filename: Seq<char>) -> Option<int> {
        first_match(
            self.designspace.sources,
            |s: SourceModel| s.filename == filename && s.layer is None,
        )
    }

    /// The identity of the layer that the source at `i` becomes. A source
    /// without a layer is a master. A source with one belongs to the master
    /// that is drawn in the same font object, and there must be one.
    pub open spec fn layer_id(self, i: int) -> Result<LayerIdModel, ConversionErrorModel> {
        let source = self.designspace.sources[i];
        match source.layer {
            None => Ok(LayerIdModel::Master(self.ids[i])),
            Some(layer) => match self.master_in(source.filename) {
                Some(parent) => Ok(
                    LayerIdModel::AssociatedWithMaster(self.ids[parent], self.ids[i], layer),
                ),
                None => Err(
                    ConversionErrorModel::new(ErrorKind::MissingParentMaster, source.name),
                ),
            },
        }
    }

    /// The index of the axis with the given name.
    pub open spec fn axis_index(self, name: Seq<char>) -> Option<int> {
        first_match(self.designspace.axes, |a: AxisModel| a.name == name)
    }

    /// One entry of a master's `Axis Location`: the axis's name, and the
    /// rounded user coordinate at which the master stands on it.
    pub open spec fn axis_location_entry(self, dimension: DimensionModel) -> Result<
        PlistModel,
        ConversionErrorModel,
    > {
        match self.axis_index(dimension.name) {
            None => Err(ConversionErrorModel::new(ErrorKind::MissingAxis, dimension.name)),
            Some(a) => {
                let axis = self.designspace.axes[a];
                match mapped_backwards(axis, dimension.design_value()) {
                    None => Err(mapping_not_found(axis)),
                    Some(v) => Ok(
                        PlistModel::Dictionary(
                            seq![
                                ("Axis"@, PlistModel::String(axis.name)),
                                ("Location"@, PlistModel::Integer(v.rounded() as i64)),
                            ],
                        ),
                    ),
                }
            },
        }
    }

    /// A master's `Axis Location`: an entry for each position of the
    /// location, in order.
    pub open spec fn axis_location(self, location: Seq<DimensionModel>) -> Result<
        PlistModel,
        ConversionErrorModel,
    > {
        match collect(location.map_values(|d: DimensionModel| self.axis_location_entry(d))) {
            Ok(entries) => Ok(PlistModel::Array(entries)),
            Err(e) => Err(e),
        }
    }

    /// The font's `Axes`: the name and tag of each axis, in order.
    pub open spec fn global_axes(self) -> PlistModel {
        PlistModel::Array(
            self.designspace.axes.map_values(
                |a: AxisModel|
                    PlistModel::Dictionary(
                        seq![
                            ("Name"@, PlistModel::String(a.name)),
                            ("Tag"@, PlistModel::String(a.tag)),
                        ],
                    ),
            ),
        )
    }

    /// The position of an axis's default, as a design coordinate.
    pub open spec fn default_dimension(axis: AxisModel) -> Result<
        DimensionModel,
        ConversionErrorModel,
    > {
        match mapped_forwards(axis, axis.default) {
            Some(v) => Ok(
                DimensionModel { name: axis.name, uservalue: None, xvalue: Some(v), yvalue: None },
            ),
            None => Err(mapping_not_found(axis)),
        }
    }

    /// The default layer of the font object of the default source.
    pub open spec fn default_layer(self) -> Result<UfoLayerModel, ConversionErrorModel> {
        match self.default_source() {
            Err(e) => Err(e),
            Ok(i) => if self.source_ufo(i).layers.len() == 0 {
                Err(
                    ConversionErrorModel::new(
                        ErrorKind::MissingLayer,
                        self.designspace.sources[i].filename,
                    ),
                )
            } else {
                Ok(self.source_ufo(i).layers[0])
            },
        }
    }

    /// The index of the default source: the first source that stands at the
    /// default of every axis.
    pub open spec fn default_source(self) -> Result<int, ConversionErrorModel> {
        match collect(
            self.designspace.axes.map_values(|a: AxisModel| ContextModel::default_dimension(a)),
        ) {
            Err(e) => Err(e),
            Ok(location) => match first_match(
                self.designspace.sources,
                |s: SourceModel| same_location(s.location, location),
            ) {
                Some(i) => Ok(i),
                None => Err(
                    ConversionErrorModel::new(ErrorKind::MissingDefaultSource, Seq::empty()),
                ),
            },
        }
    }
}

/// The designspace, the font objects of its sources by file name, and an
/// identifier for each source.
#[derive(Debug)]
pub struct DesignspaceContext {
    designspace: Designspace,
    ufos: Vec<(String, Ufo)>,
    ids: Vec<String>,
}

impl DeepView for DesignspaceContext {
    type V = ContextModel;

    closed spec fn deep_view(&self) -> ContextModel {
        ContextModel {
            designspace: self.designspace.deep_view(),
            ufos: self.ufos.deep_view(),
            ids: self.ids.deep_view(),
        }
    }
}

/// The index of the first name that an earlier name equals.
#[verifier::loop_isolation(false)]
fn find_repeated(names: &Vec<String>) -> (r: Option<usize>)
    ensures
        index_model(r) == first_repeated(names.deep_view()),
        r matches Some(j) ==> j < names@.len(),
{
    let ghost all = names.deep_view();
    let ghost idx = Seq::new(all.len(), |j: int| j);
    let ghost p = |j: int| 0 <= j < all.len() && all.take(j).contains(all[j]);
    let mut j: usize = 0;
    while j < names.len()
        invariant
            j <= names.len(),
            all == names.deep_view(),
            idx == Seq::new(all.len(), |j: int| j),
            p == |j: int| 0 <= j < all.len() && all.take(j).contains(all[j]),
            forall|k: int| 0 <= k < j ==> !p(#[trigger] idx[k]),
        decreases names.len() - j,
    {
        let mut i: usize = 0;
        while i < j
            invariant
                i <= j < names.len(),
                all == names.deep_view(),
                forall|k: int| 0 <= k < i ==> all[k] != all[j as int],
            decreases j - i,
        {
            if names[i] == names[j] {
                proof {
                    assert(all[i as int] == all[j as int]);
                    assert(all.take(j as int)[i as int] == all[j as int]);
                    assert(p(idx[j as int]));
                    lemma_first_match_at(idx, p, j as int);
                }
                return Some(j);
            }
            i += 1;
        }
        proof {
            if all.take(j as int).contains(all[j as int]) {
                let k = choose|k: int|
                    0 <= k < all.take(j as int).len() && all.take(j as int)[k] == all[j as int];
                assert(all[k] == all[j as int]);
            }
            assert(!p(idx[j as int]));
        }
        j += 1;
    }
    proof {
        lemma_first_match_none(idx, p);
    }
    None
}

/// The index of the first source whose name an earlier source has.
fn find_repeated_name(sources: &Vec<Source>) -> (r: Option<usize>)
    ensures
        index_model(r) == first_repeated(source_names(sources.deep_view())),
        r matches Some(j) ==> j < sources@.len(),
{
    let name_of = |s: &Source| -> (r: String)
        ensures
            r@ == s.deep_view().name,
        { s.name.clone() };
    let names = map_model(sources, name_of, Ghost(|s: SourceModel| s.name));
    assert(names@.len() == names.deep_view().len());
    find_repeated(&names)
}

/// The index of the font object with the given file name.
pub fn find_ufo(ufos: &Vec<(String, Ufo)>, filename: &str) -> (r: Option<usize>)
    ensures
        index_model(r) == ufo_index(ufos.deep_view(), filename@),
        r matches Some(i) ==> i < ufos@.len(),
{
    let of_file = |u: &(String, Ufo)| -> (b: bool)
        ensures
            b == (u.0@ == filename@),
        { u.0.as_str().eq(filename) };
    find_first(
        ufos,
        of_file,
        Ghost(|u: (Seq<char>, UfoModel)| u.0 == filename@),
    )
}

impl DesignspaceContext {
    /// Every context is one that a conversion can start from.
    #[verifier::type_invariant]
    pub open spec fn inv(self) -> bool {
        self.deep_view().wf()
    }

    /// The context of the given designspace and font objects, each with the
    /// name of its file, where `ids` holds an identifier for each source, in
    /// the order of the sources. Fails where two sources have one name,
    /// where there are more than six axes, where the font object of a source
    /// is missing, where the identifiers are not as many as the sources, and
    /// where two of them are the same.
    pub fn with_ids(designspace: Designspace, ufos: Vec<(String, Ufo)>, ids: Vec<String>) -> (r:
        Result<DesignspaceContext, ConversionError>)
        ensures
            match r {
                Ok(c) => {
                    &&& c.deep_view() == (ContextModel {
                        designspace: designspace.deep_view(),
                        ufos: ufos.deep_view(),
                        ids: ids.deep_view(),
                    })
                    &&& c.deep_view().wf()
                    &&& ids.deep_view().no_duplicates()
                },
                Err(e) => match context_fault(designspace.deep_view(), ufos.deep_view()) {
                    Some(fault) => e.deep_view() == fault,
                    None => identifiers_fault(
                        designspace.deep_view().sources.len(),
                        ids.deep_view(),
                    ) == Some(e.deep_view()),
                },
            },
    {
        proof {
            reveal_strlit("");
            assert(""@ =~= Seq::<char>::empty());
        }
        match find_repeated_name(&designspace.sources) {
            Some(j) => {
                return Err(
                    ConversionError::new(
                        ErrorKind::DuplicateSourceName,
                        designspace.sources[j].name.as_str(),
                    ),
                );
            },
            None => {},
        }
        if designspace.axes.len() > 6 {
            return Err(ConversionError::new(ErrorKind::TooManyAxes, ""));
        }
        let unsupplied = |s: &Source| -> (b: bool)
            ensures
                b == (ufo_index(ufos.deep_view(), s.deep_view().filename) is None),
            { find_ufo(&ufos, s.filename.as_str()).is_none() };
        let missing = find_first(
            &designspace.sources,
            unsupplied,
            Ghost(|s: SourceModel| ufo_index(ufos.deep_view(), s.filename) is None),
        );
        match missing {
            Some(i) => {
                return Err(
                    ConversionError::new(
                        ErrorKind::MissingFontObject,
                        designspace.sources[i].filename.as_str(),
                    ),
                );
            },
            None => {},
        }
        if ids.len() != designspace.sources.len() {
            return Err(ConversionError::new(ErrorKind::IdentifierCount, ""));
        }
        proof {
            lemma_first_repeated(ids.deep_view());
        }
        match find_repeated(&ids) {
            Some(j) => {
                return Err(ConversionError::new(ErrorKind::RepeatedIdentifier, ids[j].as_str()));
            },
            None => {},
        }
        Ok(DesignspaceContext { designspace, ufos, ids })
    }

    /// The context of the given designspace and font objects, each with the
    /// name of its file, with a fresh identifier for each source: no two
    /// sources get the same. Fails where two sources have one name, where
    /// there are more than six axes, and where the font object of a source is
    /// missing; and, with nothing wrong with these, only where there are
    /// two sources or more and the same identifier was drawn twice.
    pub fn new(designspace: Designspace, ufos: Vec<(String, Ufo)>) -> (r: Result<
        DesignspaceContext,
        ConversionError,
    >)
        ensures
            match r {
                Ok(c) => {
                    &&& context_fault(designspace.deep_view(), ufos.deep_view()) is None
                    &&& c.deep_view().designspace == designspace.deep_view()
                    &&& c.deep_view().ufos == ufos.deep_view()
                    &&& c.deep_view().wf()
                    &&& c.deep_view().ids.no_duplicates()
                    &&& forall|i: int|
                        0 <= i < c.deep_view().ids.len() ==> is_identifier(
                            #[trigger] c.deep_view().ids[i],
                        )
                },
                Err(e) => match context_fault(designspace.deep_view(), ufos.deep_view()) {
                    Some(fault) => e.deep_view() == fault,
                    None => e.deep_view().kind == ErrorKind::RepeatedIdentifier
                        && designspace.deep_view().sources.len() >= 2,
                },
            },
    {
        let ids = fresh_identifiers(designspace.sources.len());
        proof {
            lemma_first_repeated(ids.deep_view());
        }
        DesignspaceContext::with_ids(designspace, ufos, ids)
    }

    /// The designspace.
    pub fn designspace(&self) -> (r: &Designspace)
        ensures
            r.deep_view() == self.deep_view().designspace,
    {
        &self.designspace
    }

    /// The identifiers of the sources, in the order of the sources.
    pub fn ids(&self) -> (r: &Vec<String>)
        ensures
            r.deep_view() == self.deep_view().ids,
    {
        &self.ids
    }

    /// The identifier of the source at `i`.
    pub fn source_id(&self, i: usize) -> (r: &String)
        requires
            i < self.deep_view().designspace.sources.len(),
        ensures
            r@ == self.deep_view().ids[i as int],
    {
        proof {
            use_type_invariant(self);
        }
        &self.ids[i]
    }

    /// The font objects, each with the name of its file.
    pub fn ufos(&self) -> (r: &Vec<(String, Ufo)>)
        ensures
            r.deep_view() == self.deep_view().ufos,
    {
        &self.ufos
    }

    /// The font object that the source at `i` is drawn in.
    pub fn source_ufo(&self, i: usize) -> (r: &Ufo)
        requires
            i < self.deep_view().designspace.sources.len(),
        ensures
            r.deep_view() == self.deep_view().source_ufo(i as int),
    {
        proof {
            use_type_invariant(self);
            let m = self.deep_view();
            lemma_first_match(
                m.designspace.sources,
                |s: SourceModel| ufo_index(m.ufos, s.filename) is None,
            );
            
        }
        let found = find_ufo(&self.ufos, self.designspace.sources[i].filename.as_str());
        match found {
            Some(k) => &self.ufos[k].1,
            None => {
                proof {
                    let m = self.deep_view();
                    assert(ufo_index(m.ufos, m.designspace.sources[i as int].filename) is None);
                    assert(false);
                }
                &self.ufos[0].1
            },
        }
    }

    /// The identity of the layer that the source at `i` becomes.
    pub fn id_for_source_name(&self, i: usize) -> (r: Result<LayerId, ConversionError>)
        requires
            i < self.deep_view().designspace.sources.len(),
        ensures
            match r {
                Ok(id) => self.deep_view().layer_id(i as int) == Ok::<
                    LayerIdModel,
                    ConversionErrorModel,
                >(id.deep_view()),
                Err(e) => self.deep_view().layer_id(i as int) == Err::<
                    LayerIdModel,
                    ConversionErrorModel,
                >(e.deep_view()),
            },
    {
        proof {
            use_type_invariant(self);
        }
        let source = &self.designspace.sources[i];
        match &source.layer {
            None => Ok(LayerId::Master(self.ids[i].clone())),
            Some(layer) => {
                let is_parent = |s: &Source| -> (b: bool)
                    ensures
                        b == (s.deep_view().filename == source.filename@
                            && s.deep_view().layer is None),
                    { s.filename == source.filename && s.layer.is_none() };
                let parent = find_first(
                    &self.designspace.sources,
                    is_parent,
                    Ghost(|s: SourceModel| s.filename == source.filename@ && s.layer is None),
                );
                match parent {
                    Some(p) => Ok(
                        LayerId::AssociatedWithMaster(
                            self.ids[p].clone(),
                            self.ids[i].clone(),
                            layer.clone(),
                        ),
                    ),
                    None => Err(
                        ConversionError::new(ErrorKind::MissingParentMaster, source.name.as_str()),
                    ),
                }
            },
        }
    }

    /// The index of the axis with the given name.
    pub fn axis_by_name(&self, name: &str) -> (r: Option<usize>)
        ensures
            index_model(r) == self.deep_view().axis_index(name@),
            r matches Some(i) ==> i < self.deep_view().designspace.axes.len(),
    {
        let named = |a: &Axis| -> (b: bool)
            ensures
                b == (a.deep_view().name == name@),
            { a.name.as_str().eq(name) };
        find_first(
            &self.designspace.axes,
            named,
            Ghost(|a: AxisModel| a.name == name@),
        )
    }

    fn axis_location_entry(&self, dimension: &Dimension) -> (r: Result<Plist, ConversionError>)
        ensures
            match r {
                Ok(p) => self.deep_view().axis_location_entry(dimension.deep_view()) == Ok::<
                    PlistModel,
                    ConversionErrorModel,
                >(p.deep_view()),
                Err(e) => self.deep_view().axis_location_entry(dimension.deep_view()) == Err::<
                    PlistModel,
                    ConversionErrorModel,
                >(e.deep_view()),
            },
    {
        match self.axis_by_name(dimension.name.as_str()) {
            None => Err(ConversionError::new(ErrorKind::MissingAxis, dimension.name.as_str())),
            Some(a) => {
                let axis = &self.designspace.axes[a];
                let value = dimension.design_value();
                match map_axis_value_backwards(axis, &value) {
                    Err(e) => Err(e),
                    Ok(v) => Ok(
                        Plist::pair(
                            "Axis",
                            Plist::String(axis.name.clone()),
                            "Location",
                            Plist::Integer(v.round()),
                        ),
                    ),
                }
            },
        }
    }

    /// A master's `Axis Location` for the location `location`. Fails where a
    /// position names an axis that is not there, or stands at a coordinate
    /// that no row of the axis's table stands at.
    pub fn axis_location(&self, location: &Vec<Dimension>) -> (r: Result<Plist, ConversionError>)
        ensures
            match r {
                Ok(p) => self.deep_view().axis_location(location.deep_view()) == Ok::<
                    PlistModel,
                    ConversionErrorModel,
                >(p.deep_view()),
                Err(e) => self.deep_view().axis_location(location.deep_view()) == Err::<
                    PlistModel,
                    ConversionErrorModel,
                >(e.deep_view()),
            },
    {
        let entry = |d: &Dimension| -> (r: Result<Plist, ConversionError>)
            ensures
                match r {
                    Ok(p) => self.deep_view().axis_location_entry(d.deep_view()) == Ok::<
                        PlistModel,
                        ConversionErrorModel,
                    >(p.deep_view()),
                    Err(e) => self.deep_view().axis_location_entry(d.deep_view()) == Err::<
                        PlistModel,
                        ConversionErrorModel,
                    >(e.deep_view()),
                },
            { self.axis_location_entry(d) };
        let entries = try_map_model(
            location,
            entry,
            Ghost(|d: DimensionModel| self.deep_view().axis_location_entry(d)),
        );
        match entries {
            Ok(entries) => Ok(Plist::array(entries)),
            Err(e) => Err(e),
        }
    }

    /// The font's `Axes`.
    pub fn global_axes(&self) -> (r: Plist)
        ensures
            r.deep_view() == self.deep_view().global_axes(),
    {
        let name_and_tag = |a: &Axis| -> (r: Plist)
            ensures
                r.deep_view() == PlistModel::Dictionary(
                    seq![
                        ("Name"@, PlistModel::String(a.deep_view().name)),
                        ("Tag"@, PlistModel::String(a.deep_view().tag)),
                    ],
                ),
            {
                Plist::pair(
                    "Name",
                    Plist::String(a.name.clone()),
                    "Tag",
                    Plist::String(a.tag.clone()),
                )
            };
        let items = map_model(
            &self.designspace.axes,
            name_and_tag,
            Ghost(
                |a: AxisModel|
                    PlistModel::Dictionary(
                        seq![
                            ("Name"@, PlistModel::String(a.name)),
                            ("Tag"@, PlistModel::String(a.tag)),
                        ],
                    ),
            ),
        );
        Plist::array(items)
    }

    /// The index of the default source. Fails where the default of an axis
    /// is at no row of its table, and where no source stands at the default
    /// location.
    pub fn default_source(&self) -> (r: Result<usize, ConversionError>)
        ensures
            match r {
                Ok(i) => self.deep_view().default_source() == Ok::<int, ConversionErrorModel>(
                    i as int,
                ) && i < self.deep_view().designspace.sources.len(),
                Err(e) => self.deep_view().default_source() == Err::<int, ConversionErrorModel>(
                    e.deep_view(),
                ),
            },
    {
        proof {
            reveal_strlit("");
            assert(""@ =~= Seq::<char>::empty());
        }
        let at_default = |a: &Axis| -> (r: Result<Dimension, ConversionError>)
            ensures
                match r {
                    Ok(d) => ContextModel::default_dimension(a.deep_view()) == Ok::<
                        DimensionModel,
                        ConversionErrorModel,
                    >(d.deep_view()),
                    Err(e) => ContextModel::default_dimension(a.deep_view()) == Err::<
                        DimensionModel,
                        ConversionErrorModel,
                    >(e.deep_view()),
                },
            {
                match map_axis_value_forwards(a, &a.default) {
                    Ok(v) => Ok(
                        Dimension {
                            name: a.name.clone(),
                            uservalue: None,
                            xvalue: Some(v),
                            yvalue: None,
                        },
                    ),
                    Err(e) => Err(e),
                }
            };
        let location = try_map_model(
            &self.designspace.axes,
            at_default,
            Ghost(|a: AxisModel| ContextModel::default_dimension(a)),
        );
        match location {
            Err(e) => Err(e),
            Ok(location) => {
                let at_location = |s: &Source| -> (b: bool)
                    ensures
                        b == same_location(s.deep_view().location, location.deep_view()),
                    { locations_alike(&s.location, &location) };
                let found = find_first(
                    &self.designspace.sources,
                    at_location,
                    Ghost(|s: SourceModel| same_location(s.location, location.deep_view())),
                );
                match found {
                    Some(i) => Ok(i),
                    None => Err(ConversionError::new(ErrorKind::MissingDefaultSource, "")),
                }
            },
        }
    }

    /// The default layer of the font object of the default source. Fails
    /// where there is no default source, and where its font object has no
    /// layer.
    pub fn default_layer(&self) -> (r: Result<&UfoLayer, ConversionError>)
        ensures
            match r {
                Ok(layer) => self.deep_view().default_layer() == Ok::<
                    UfoLayerModel,
                    ConversionErrorModel,
                >(layer.deep_view()),
                Err(e) => self.deep_view().default_layer() == Err::<
                    UfoLayerModel,
                    ConversionErrorModel,
                >(e.deep_view()),
            },
    {
        let i = match self.default_source() {
            Ok(i) => i,
            Err(e) => {
                return Err(e);
            },
        };
        match self.source_ufo(i).default_layer() {
            Some(layer) => Ok(layer),
            None => Err(
                ConversionError::new(
                    ErrorKind::MissingLayer,
                    self.designspace.sources[i].filename.as_str(),
                ),
            ),
        }
    }
}

} // verus!
