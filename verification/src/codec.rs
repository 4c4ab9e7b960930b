//! How points, transforms, nodes and code points are written as strings.
//!
//! A point is `{x, y}`, a transform `{a, b, c, d, tx, ty}`, a node `x y KIND`
//! and the code points of a glyph are digits of base sixteen with commas
//! between them.

use vstd::prelude::*;
use crate::codepoints::{codepoints_new, codepoints_seq, codepoints_to_vec};
use crate::decimal::{Decimal, DecimalModel};
use crate::grammar::{hex_value, integer_text};
use crate::plist::{Plist, PlistModel};
use crate::seqs::distinct;
use crate::write::write_integer;
use crate::font::{Node, NodeModel};
use crate::geometry::{Affine, AffineModel, Point, PointModel};
use crate::grammar::{is_hex, is_space, trim_spaces};
use crate::node_type::NodeType;
use crate::text::{chars_of, push_str, string_of};

verus! {

/// The fields of `s`: what stands between the separators `sep`.
pub open spec fn fields(s: Seq<char>, sep: char) -> Seq<Seq<char>>
    decreases s.len(),
{
    if s.len() == 0 {
        seq![Seq::empty()]
    } else {
        let before = fields(s.drop_last(), sep);
        if s.last() == sep {
            before.push(Seq::empty())
        } else {
            before.update(before.len() - 1, before.last().push(s.last()))
        }
    }
}

/// The characters of each of the vectors.
pub open spec fn texts_of(v: Seq<Vec<char>>) -> Seq<Seq<char>> {
    Seq::new(v.len(), |i: int| v[i]@)
}

/// The fields of `s`.
pub fn split_fields(s: &Vec<char>, sep: char) -> (r: Vec<Vec<char>>)
    ensures
        texts_of(r@) == fields(s@, sep),
{
    let mut done: Vec<Vec<char>> = Vec::new();
    let mut current: Vec<char> = Vec::new();
    let mut i: usize = 0;
    assert(s@.take(0) =~= Seq::<char>::empty());
    assert(texts_of(done@).push(current@) =~= fields(s@.take(0), sep));
    while i < s.len()
        invariant
            i <= s.len(),
            texts_of(done@).push(current@) == fields(s@.take(i as int), sep),
        decreases s.len() - i,
    {
        let ghost before = fields(s@.take(i as int), sep);
        assert(s@.take(i + 1).drop_last() =~= s@.take(i as int));
        assert(s@.take(i + 1).last() == s@[i as int]);
        let ghost d = texts_of(done@);
        if s[i] == sep {
            let ghost c = current@;
            done.push(current);
            current = Vec::new();
            assert(texts_of(done@) =~= d.push(c));
            assert(texts_of(done@).push(current@) =~= before.push(Seq::empty()));
        } else {
            let ghost c = current@;
            current.push(s[i]);
            assert(texts_of(done@).push(current@) =~= before.update(
                before.len() - 1,
                before.last().push(s@[i as int]),
            ));
        }
        i += 1;
    }
    assert(s@.take(s@.len() as int) =~= s@);
    let ghost d = texts_of(done@);
    let ghost c = current@;
    done.push(current);
    assert(texts_of(done@) =~= d.push(c));
    done
}

/// The values of `s`, where every one of them is there.
pub open spec fn all_of<T>(s: Seq<Option<T>>) -> Option<Seq<T>> {
    if forall|i: int| 0 <= i < s.len() ==> (#[trigger] s[i]) is Some {
        Some(s.map_values(|o: Option<T>| o->0))
    } else {
        None
    }
}

/// The number that a field writes, spaces before it left out.
pub open spec fn number_of_field(field: Seq<char>) -> Option<DecimalModel> {
    DecimalModel::parse(trim_spaces(field))
}

/// The numbers that the fields of `inner` write, with commas between the
/// fields.
pub open spec fn field_numbers(inner: Seq<char>) -> Seq<Option<DecimalModel>> {
    fields(inner, ',').map_values(|f: Seq<char>| number_of_field(f))
}

/// The numbers that `s` lists between braces, with commas between them.
pub open spec fn braced_numbers(s: Seq<char>) -> Option<Seq<DecimalModel>> {
    if s.len() >= 2 && s[0] == '{' && s.last() == '}' {
        all_of(field_numbers(s.subrange(1, s.len() - 1)))
    } else {
        None
    }
}

/// The point that `s` writes: two numbers between braces.
pub open spec fn point_of_text(s: Seq<char>) -> Option<PointModel> {
    match braced_numbers(s) {
        Some(n) => if n.len() == 2 {
            Some(PointModel { x: n[0], y: n[1] })
        } else {
            None
        },
        None => None,
    }
}

/// The transform that `s` writes: six numbers between braces.
pub open spec fn affine_of_text(s: Seq<char>) -> Option<AffineModel> {
    match braced_numbers(s) {
        Some(n) => if n.len() == 6 {
            Some(
                AffineModel {
                    x_scale: n[0],
                    xy_scale: n[1],
                    yx_scale: n[2],
                    y_scale: n[3],
                    x_offset: n[4],
                    y_offset: n[5],
                },
            )
        } else {
            None
        },
        None => None,
    }
}

/// The texts of the numbers with a comma and a space between them.
pub open spec fn listed_numbers(numbers: Seq<DecimalModel>) -> Seq<char>
    decreases numbers.len(),
{
    if numbers.len() == 0 {
        Seq::empty()
    } else if numbers.len() == 1 {
        numbers[0].display()
    } else {
        listed_numbers(numbers.drop_last()) + seq![',', ' '] + numbers.last().display()
    }
}

/// The numbers between braces, as `{123, 456}`.
pub open spec fn braced_text(numbers: Seq<DecimalModel>) -> Seq<char> {
    seq!['{'] + listed_numbers(numbers) + seq!['}']
}

/// The two numbers of a point.
pub open spec fn point_numbers(p: PointModel) -> Seq<DecimalModel> {
    seq![p.x, p.y]
}

/// The six numbers of a transform.
pub open spec fn affine_numbers(t: AffineModel) -> Seq<DecimalModel> {
    seq![t.x_scale, t.xy_scale, t.yx_scale, t.y_scale, t.x_offset, t.y_offset]
}

/// How a point is written.
pub open spec fn point_text(p: PointModel) -> Seq<char> {
    braced_text(point_numbers(p))
}

/// How a transform is written.
pub open spec fn affine_text(t: AffineModel) -> Seq<char> {
    braced_text(affine_numbers(t))
}

/// The index of the first `c` in `s`, or the length of `s` where there is
/// none.
pub open spec fn index_of_char(s: Seq<char>, c: char) -> nat
    decreases s.len(),
{
    if s.len() > 0 && s[0] != c {
        1 + index_of_char(s.skip(1), c)
    } else {
        0
    }
}

/// The kind of node that `s` names.
pub open spec fn node_type_of_text(s: Seq<char>) -> Option<NodeType> {
    if s == "LINE"@ {
        Some(NodeType::Line)
    } else if s == "LINE SMOOTH"@ {
        Some(NodeType::LineSmooth)
    } else if s == "OFFCURVE"@ {
        Some(NodeType::OffCurve)
    } else if s == "CURVE"@ {
        Some(NodeType::Curve)
    } else if s == "CURVE SMOOTH"@ {
        Some(NodeType::CurveSmooth)
    } else if s == "QCURVE"@ {
        Some(NodeType::QCurve)
    } else if s == "QCURVE SMOOTH"@ {
        Some(NodeType::QCurveSmooth)
    } else {
        None
    }
}

/// The node that `s` writes: two numbers and the name of a kind, with a
/// space after each number.
pub open spec fn node_of_text(s: Seq<char>) -> Option<NodeModel> {
    match node_parts(s) {
        None => None,
        Some((x_text, y_text, kind_text)) => match (
            DecimalModel::parse(x_text),
            DecimalModel::parse(y_text),
            node_type_of_text(kind_text),
        ) {
            (Some(x), Some(y), Some(node_type)) => Some(
                NodeModel { pt: PointModel { x, y }, node_type },
            ),
            _ => None,
        },
    }
}

/// How a node is written.
pub open spec fn node_text(n: NodeModel) -> Seq<char> {
    n.pt.x.display() + " "@ + n.pt.y.display() + " "@ + n.node_type.spec_glyphs_str()
}

/// The index of the first `c` at or after `from`, or the length of `s`.
fn find_char(s: &Vec<char>, from: usize, c: char) -> (r: usize)
    requires
        from <= s.len(),
    ensures
        from <= r <= s.len(),
        r - from == index_of_char(s@.skip(from as int), c),
{
    let mut k: usize = from;
    while k < s.len() && s[k] != c
        invariant
            from <= k <= s.len(),
            index_of_char(s@.skip(from as int), c) == (k - from) + index_of_char(
                s@.skip(k as int),
                c,
            ),
        decreases s.len() - k,
    {
        assert(s@.skip(k as int).skip(1) =~= s@.skip(k + 1));
        k += 1;
    }
    k
}

/// The characters of `s` from `i` up to `j`.
fn part(s: &Vec<char>, i: usize, j: usize) -> (r: Vec<char>)
    requires
        i <= j <= s.len(),
    ensures
        r@ == s@.subrange(i as int, j as int),
{
    let mut r: Vec<char> = Vec::new();
    let mut k: usize = i;
    while k < j
        invariant
            i <= k <= j <= s.len(),
            r@ == s@.subrange(i as int, k as int),
        decreases j - k,
    {
        r.push(s[k]);
        assert(r@ =~= s@.subrange(i as int, k + 1));
        k += 1;
    }
    r
}

/// The number that the characters `t` write.
fn read_number(t: &Vec<char>) -> (r: Option<Decimal>)
    ensures
        r.deep_view() == DecimalModel::parse(t@),
{
    let text = string_of(t);
    Decimal::parse(text.as_str())
}

/// The number that a field writes, spaces before it left out.
fn read_field(field: &Vec<char>) -> (r: Option<Decimal>)
    ensures
        r.deep_view() == number_of_field(field@),
{
    let mut k: usize = 0;
    assert(field@.skip(0) =~= field@);
    while k < field.len() && (field[k] == ' ' || field[k] == '\t' || field[k] == '\r' || field[k]
        == '\n')
        invariant
            k <= field.len(),
            trim_spaces(field@.skip(k as int)) == trim_spaces(field@),
        decreases field.len() - k,
    {
        assert(field@.skip(k as int).skip(1) =~= field@.skip(k + 1));
        k += 1;
    }
    let trimmed = part(field, k, field.len());
    assert(trimmed@ =~= field@.skip(k as int));
    read_number(&trimmed)
}

/// The numbers that `s` lists between braces.
#[verifier::loop_isolation(false)]
fn read_braced(s: &Vec<char>) -> (r: Option<Vec<Decimal>>)
    ensures
        r.deep_view() == braced_numbers(s@),
{
    if !(s.len() >= 2 && s[0] == '{' && s[s.len() - 1] == '}') {
        return None;
    }
    let inner = part(s, 1, s.len() - 1);
    let parts = split_fields(&inner, ',');
    let ghost wanted = field_numbers(inner@);
    let mut numbers: Vec<Decimal> = Vec::new();
    let mut i: usize = 0;
    while i < parts.len()
        invariant
            i <= parts.len(),
            texts_of(parts@) == fields(inner@, ','),
            wanted == field_numbers(inner@),
            numbers@.len() == i,
            forall|j: int| 0 <= j < i ==> (#[trigger] wanted[j]) == Some(numbers.deep_view()[j]),
        decreases parts.len() - i,
    {
        assert(texts_of(parts@)[i as int] == parts@[i as int]@);
        match read_field(&parts[i]) {
            Some(n) => {
                numbers.push(n);
            },
            None => {
                assert(wanted[i as int] is None);
                return None;
            },
        }
        i += 1;
    }
    assert(numbers.deep_view() =~= wanted.map_values(|o: Option<DecimalModel>| o->0));
    Some(numbers)
}

/// The point that `text` writes.
pub fn read_point(text: &str) -> (r: Option<Point>)
    ensures
        r.deep_view() == point_of_text(text@),
{
    let s = chars_of(text);
    match read_braced(&s) {
        Some(n) => {
            if n.len() == 2 {
                Some(Point { x: n[0].copy(), y: n[1].copy() })
            } else {
                None
            }
        },
        None => None,
    }
}

/// The transform that `text` writes.
pub fn read_affine(text: &str) -> (r: Option<Affine>)
    ensures
        r.deep_view() == affine_of_text(text@),
{
    let s = chars_of(text);
    match read_braced(&s) {
        Some(n) => {
            if n.len() == 6 {
                Some(
                    Affine {
                        x_scale: n[0].copy(),
                        xy_scale: n[1].copy(),
                        yx_scale: n[2].copy(),
                        y_scale: n[3].copy(),
                        x_offset: n[4].copy(),
                        y_offset: n[5].copy(),
                    },
                )
            } else {
                None
            }
        },
        None => None,
    }
}

/// Appends the numbers between braces.
pub fn write_braced(numbers: &Vec<Decimal>, out: &mut Vec<char>)
    ensures
        final(out)@ == old(out)@ + braced_text(numbers.deep_view()),
{
    let ghost values = numbers.deep_view();
    out.push('{');
    let mut i: usize = 0;
    assert(values.take(0) =~= Seq::<DecimalModel>::empty());
    assert(out@ =~= old(out)@ + seq!['{'] + listed_numbers(values.take(0)));
    while i < numbers.len()
        invariant
            i <= numbers.len(),
            values == numbers.deep_view(),
            out@ == old(out)@ + seq!['{'] + listed_numbers(values.take(i as int)),
        decreases numbers.len() - i,
    {
        let ghost before = listed_numbers(values.take(i as int));
        assert(values.take(i + 1).drop_last() =~= values.take(i as int));
        assert(values.take(i + 1).last() == values[i as int]);
        if i > 0 {
            out.push(',');
            out.push(' ');
        }
        numbers[i].write_display(out);
        proof {
            if i > 0 {
                assert(out@ =~= old(out)@ + seq!['{'] + (before + seq![',', ' ']
                    + values[i as int].display()));
            } else {
                assert(before =~= Seq::<char>::empty());
                assert(values.take(1)[0] == values[0]);
                assert(out@ =~= old(out)@ + seq!['{'] + values[0].display());
            }
        }
        i += 1;
    }
    assert(values.take(values.len() as int) =~= values);
    out.push('}');
    assert(out@ =~= old(out)@ + (seq!['{'] + listed_numbers(values) + seq!['}']));
}

/// How the point `p` is written.
pub fn write_point(p: &Point) -> (r: String)
    ensures
        r@ == point_text(p.deep_view()),
{
    let mut numbers: Vec<Decimal> = Vec::new();
    numbers.push(p.x.copy());
    numbers.push(p.y.copy());
    assert(numbers.deep_view() =~= point_numbers(p.deep_view()));
    let mut out: Vec<char> = Vec::new();
    write_braced(&numbers, &mut out);
    assert(out@ =~= point_text(p.deep_view()));
    string_of(&out)
}

/// How the transform `t` is written.
pub fn write_affine(t: &Affine) -> (r: String)
    ensures
        r@ == affine_text(t.deep_view()),
{
    let mut numbers: Vec<Decimal> = Vec::new();
    numbers.push(t.x_scale.copy());
    numbers.push(t.xy_scale.copy());
    numbers.push(t.yx_scale.copy());
    numbers.push(t.y_scale.copy());
    numbers.push(t.x_offset.copy());
    numbers.push(t.y_offset.copy());
    assert(numbers.deep_view() =~= affine_numbers(t.deep_view()));
    let mut out: Vec<char> = Vec::new();
    write_braced(&numbers, &mut out);
    assert(out@ =~= affine_text(t.deep_view()));
    string_of(&out)
}

/// What reading the name of a kind of node gives: the kind that `s` names,
/// or a message that ends with `s` where it names none.
pub open spec fn node_type_or_message(s: Seq<char>) -> Result<NodeType, Seq<char>> {
    match node_type_of_text(s) {
        Some(node_type) => Ok(node_type),
        None => Err("unknown node type "@ + s),
    }
}

impl core::str::FromStr for NodeType {
    type Err = String;

    /// The kind of node that `s` names. Fails, with a message that ends with
    /// `s`, where `s` names none.
    fn from_str(s: &str) -> (r: Result<NodeType, String>)
        ensures
            match r {
                Ok(node_type) => node_type_or_message(s@) == Ok::<NodeType, Seq<char>>(node_type),
                Err(message) => node_type_or_message(s@) == Err::<NodeType, Seq<char>>(message@),
            },
    {
        match NodeType::parse(s) {
            Some(node_type) => Ok(node_type),
            None => Err("unknown node type ".to_owned().concat(s)),
        }
    }
}

impl NodeType {
    /// The kind of node that `name` names.
    pub fn parse(name: &str) -> (r: Option<NodeType>)
        ensures
            r == node_type_of_text(name@),
    {
        if name.eq("LINE") {
            Some(NodeType::Line)
        } else if name.eq("LINE SMOOTH") {
            Some(NodeType::LineSmooth)
        } else if name.eq("OFFCURVE") {
            Some(NodeType::OffCurve)
        } else if name.eq("CURVE") {
            Some(NodeType::Curve)
        } else if name.eq("CURVE SMOOTH") {
            Some(NodeType::CurveSmooth)
        } else if name.eq("QCURVE") {
            Some(NodeType::QCurve)
        } else if name.eq("QCURVE SMOOTH") {
            Some(NodeType::QCurveSmooth)
        } else {
            None
        }
    }
}

/// The three parts of the text of a node: what stands before the first
/// space, between the first and the second, and after the second.
pub open spec fn node_parts(s: Seq<char>) -> Option<(Seq<char>, Seq<char>, Seq<char>)> {
    let i = index_of_char(s, ' ') as int;
    let after_x = s.skip(i + 1);
    let j = index_of_char(after_x, ' ') as int;
    if i >= s.len() || j >= after_x.len() {
        None
    } else {
        Some((s.take(i), after_x.take(j), after_x.skip(j + 1)))
    }
}

/// The three parts of the text of a node.
fn split_node(s: &Vec<char>) -> (r: Option<(Vec<char>, Vec<char>, Vec<char>)>)
    ensures
        match r {
            Some((x, y, kind)) => node_parts(s@) == Some((x@, y@, kind@)),
            None => node_parts(s@) is None,
        },
{
    assert(s@.skip(0) =~= s@);
    let i = find_char(s, 0, ' ');
    if i >= s.len() {
        return None;
    }
    let j = find_char(s, i + 1, ' ');
    let ghost after_x = s@.skip(i + 1);
    if j >= s.len() {
        return None;
    }
    let x_text = part(s, 0, i);
    let y_text = part(s, i + 1, j);
    let kind_text = part(s, j + 1, s.len());
    assert(x_text@ =~= s@.take(i as int));
    assert(y_text@ =~= after_x.take(j - i - 1));
    assert(kind_text@ =~= after_x.skip(j - i));
    Some((x_text, y_text, kind_text))
}

/// The node that `text` writes.
pub fn read_node(text: &str) -> (r: Option<Node>)
    ensures
        r.deep_view() == node_of_text(text@),
{
    let s = chars_of(text);
    let (x_text, y_text, kind_text) = match split_node(&s) {
        Some(parts) => parts,
        None => {
            return None;
        },
    };
    let x = match read_number(&x_text) {
        Some(x) => x,
        None => {
            return None;
        },
    };
    let y = match read_number(&y_text) {
        Some(y) => y,
        None => {
            return None;
        },
    };
    let kind = string_of(&kind_text);
    match NodeType::parse(kind.as_str()) {
        Some(node_type) => Some(Node { pt: Point { x, y }, node_type }),
        None => None,
    }
}

/// How the node `n` is written.
pub fn write_node(n: &Node) -> (r: String)
    ensures
        r@ == node_text(n.deep_view()),
{
    let mut out: Vec<char> = Vec::new();
    n.pt.x.write_display(&mut out);
    push_str(&mut out, " ");
    n.pt.y.write_display(&mut out);
    push_str(&mut out, " ");
    push_str(&mut out, n.node_type.glyphs_str());
    assert(out@ =~= node_text(n.deep_view()));
    string_of(&out)
}

/// The number that the digits `t` of base sixteen write.
pub open spec fn hex_digits_value(t: Seq<char>) -> nat
    decreases t.len(),
{
    if t.len() == 0 {
        0
    } else {
        hex_digits_value(t.drop_last()) * 16 + hex_value(t.last()) as nat
    }
}

/// Every character of `t` is a digit of base sixteen.
pub open spec fn all_hex(t: Seq<char>) -> bool {
    forall|i: int| 0 <= i < t.len() ==> is_hex(#[trigger] t[i])
}

/// `n` is the number of a character.
pub open spec fn is_scalar(n: nat) -> bool {
    n <= 0x10FFFF && !(0xD800 <= n && n <= 0xDFFF)
}

/// The code point that `t` writes: digits of base sixteen that give the
/// number of a character.
pub open spec fn codepoint_of_text(t: Seq<char>) -> Option<char> {
    if t.len() >= 1 && all_hex(t) && is_scalar(hex_digits_value(t)) {
        Some((hex_digits_value(t) as int) as char)
    } else {
        None
    }
}

/// `t` holds nothing but spaces.
pub open spec fn is_blank(t: Seq<char>) -> bool {
    forall|i: int| 0 <= i < t.len() ==> is_space(#[trigger] t[i])
}

/// The code point that a field of a list writes, where the field is not
/// blank.
pub open spec fn listed_codepoint(field: Seq<char>) -> Option<Option<char>> {
    if is_blank(field) {
        None
    } else {
        Some(codepoint_of_text(field))
    }
}

/// The code points that `s` lists with commas between them, blank fields
/// left out.
pub open spec fn listed_codepoints(s: Seq<char>) -> Option<Seq<char>> {
    all_of(fields(s, ',').filter_map(|f: Seq<char>| listed_codepoint(f)))
}

/// The code points that a node of a value tree holds: those that a string
/// lists, each kept where it first occurs; or the one that the decimal
/// digits of a whole number write when they are read in base sixteen.
pub open spec fn codepoints_of_plist(p: PlistModel) -> Option<Seq<char>> {
    match p {
        PlistModel::String(s) => match listed_codepoints(s) {
            Some(cs) => Some(distinct(cs)),
            None => None,
        },
        PlistModel::Integer(n) => match codepoint_of_text(integer_text(n)) {
            Some(c) => Some(seq![c]),
            None => None,
        },
        _ => None,
    }
}

/// The capital digit of base sixteen that writes `n`.
pub open spec fn upper_hex_digit(n: int) -> char {
    if n < 10 {
        (n + 48) as char
    } else {
        (n + 55) as char
    }
}

/// The capital digits of base sixteen of `n`, most significant first.
pub open spec fn upper_hex(n: nat) -> Seq<char>
    decreases n,
{
    if n < 16 {
        seq![upper_hex_digit(n as int)]
    } else {
        upper_hex(n / 16).push(upper_hex_digit((n % 16) as int))
    }
}

/// `t` with zeros before it until it has four characters.
pub open spec fn padded(t: Seq<char>) -> Seq<char>
    decreases 4 - t.len(),
{
    if t.len() >= 4 {
        t
    } else {
        padded(seq!['0'] + t)
    }
}

/// How a code point is written: its number in four capital digits of base
/// sixteen or more.
pub open spec fn codepoint_text(c: char) -> Seq<char> {
    padded(upper_hex((c as int) as nat))
}

/// How code points are written: one after the other with commas between
/// them.
pub open spec fn codepoints_text(cs: Seq<char>) -> Seq<char>
    decreases cs.len(),
{
    if cs.len() == 0 {
        Seq::empty()
    } else if cs.len() == 1 {
        codepoint_text(cs[0])
    } else {
        codepoints_text(cs.drop_last()) + seq![','] + codepoint_text(cs.last())
    }
}

fn is_space_char(c: char) -> (r: bool)
    ensures
        r == is_space(c),
{
    c == ' ' || c == '\t' || c == '\r' || c == '\n'
}

/// Whether `t` holds nothing but spaces.
fn blank(t: &Vec<char>) -> (r: bool)
    ensures
        r == is_blank(t@),
{
    let mut k: usize = 0;
    while k < t.len()
        invariant
            k <= t.len(),
            forall|i: int| 0 <= i < k ==> is_space(#[trigger] t@[i]),
        decreases t.len() - k,
    {
        if !is_space_char(t[k]) {
            return false;
        }
        k += 1;
    }
    true
}

/// The number written with a prefix of digits of base sixteen is no larger.
proof fn lemma_hex_prefix(t: Seq<char>, i: int)
    requires
        0 <= i <= t.len(),
        all_hex(t),
    ensures
        hex_digits_value(t.take(i)) <= hex_digits_value(t),
    decreases t.len() - i,
{
    if i == t.len() {
        assert(t.take(i) =~= t);
    } else {
        lemma_hex_prefix(t, i + 1);
        assert(t.take(i + 1).drop_last() =~= t.take(i));
        assert(is_hex(t[i]));
    }
}

/// The code point that the characters `t` write.
fn read_codepoint(t: &Vec<char>) -> (r: Option<char>)
    ensures
        r == codepoint_of_text(t@),
{
    if t.len() == 0 {
        return None;
    }
    let mut acc: u32 = 0;
    let mut k: usize = 0;
    assert(t@.take(0) =~= Seq::<char>::empty());
    while k < t.len()
        invariant
            k <= t.len(),
            forall|i: int| 0 <= i < k ==> is_hex(#[trigger] t@[i]),
            acc as nat == hex_digits_value(t@.take(k as int)),
            acc <= 0x10FFFF,
        decreases t.len() - k,
    {
        let c = t[k];
        let digit: u32 = if '0' <= c && c <= '9' {
            (c as u32) - 48
        } else if 'a' <= c && c <= 'f' {
            (c as u32) - 87
        } else if 'A' <= c && c <= 'F' {
            (c as u32) - 55
        } else {
            assert(!is_hex(t@[k as int]));
            return None;
        };
        assert(t@.take(k + 1).drop_last() =~= t@.take(k as int));
        assert(t@.take(k + 1).last() == c);
        if acc > (0x10FFFF - digit) / 16 {
            proof {
                if all_hex(t@) {
                    lemma_hex_prefix(t@, k + 1);
                }
            }
            return None;
        }
        acc = acc * 16 + digit;
        k += 1;
    }
    assert(t@.take(t@.len() as int) =~= t@);
    match char::from_u32(acc) {
        Some(c) => {
            assert(c as int == acc as int);
            assert(is_scalar(acc as nat));
            assert(c == ((c as int) as char));
            Some(c)
        },
        None => None,
    }
}

/// The code points that the characters `s` list.
fn read_codepoint_list(s: &Vec<char>) -> (r: Option<Vec<char>>)
    ensures
        match r {
            Some(cs) => listed_codepoints(s@) == Some(cs@),
            None => listed_codepoints(s@) is None,
        },
{
    let parts = split_fields(s, ',');
    let ghost all = fields(s@, ',');
    let ghost g = |f: Seq<char>| listed_codepoint(f);
    let ghost mut wanted: Seq<Option<char>> = Seq::empty();
    let mut found: Vec<char> = Vec::new();
    let mut i: usize = 0;
    assert(all.take(0) =~= Seq::<Seq<char>>::empty());
    while i < parts.len()
        invariant
            i <= parts.len(),
            texts_of(parts@) == all,
            all == fields(s@, ','),
            g == |f: Seq<char>| listed_codepoint(f),
            wanted == all.take(i as int).filter_map(g),
            wanted.len() == found@.len(),
            forall|j: int| 0 <= j < wanted.len() ==> (#[trigger] wanted[j]) == Some(found@[j]),
        decreases parts.len() - i,
    {
        assert(texts_of(parts@)[i as int] == parts@[i as int]@);
        proof {
            all.lemma_filter_map_take_succ(g, i as int);
        }
        if !blank(&parts[i]) {
            match read_codepoint(&parts[i]) {
                Some(c) => {
                    found.push(c);
                    proof {
                        wanted = wanted + seq![Some(c)];
                    }
                },
                None => {
                    proof {
                        let next = all.take(i + 1).filter_map(g);
                        assert(next[wanted.len() as int] is None);
                        lemma_filter_map_prefix(all, g, i + 1, wanted.len() as int);
                    }
                    return None;
                },
            }
        } else {
            proof {
                wanted = wanted + Seq::empty();
            }
        }
        i += 1;
    }
    assert(all.take(all.len() as int) =~= all);
    assert(found@ =~= wanted.map_values(|o: Option<char>| o->0));
    Some(found)
}

/// What was gathered from the first elements stays where it is when the
/// rest is gathered too.
proof fn lemma_filter_map_prefix<A, B>(s: Seq<A>, g: spec_fn(A) -> Option<B>, k: int, j: int)
    requires
        0 <= k <= s.len(),
        0 <= j < s.take(k).filter_map(g).len(),
    ensures
        j < s.filter_map(g).len(),
        s.filter_map(g)[j] == s.take(k).filter_map(g)[j],
    decreases s.len() - k,
{
    if k == s.len() {
        assert(s.take(k) =~= s);
    } else {
        s.lemma_filter_map_take_succ(g, k);
        lemma_filter_map_prefix(s, g, k + 1, j);
    }
}

/// The code points that the node `p` of a value tree holds.
pub fn read_codepoints(p: &Plist) -> (r: Option<norad::Codepoints>)
    ensures
        match r {
            Some(c) => codepoints_of_plist(p.deep_view()) == Some(codepoints_seq(c)),
            None => codepoints_of_plist(p.deep_view()) is None,
        },
{
    match p {
        Plist::String(s) => {
            let chars = chars_of(s.as_str());
            match read_codepoint_list(&chars) {
                Some(cs) => Some(codepoints_new(&cs)),
                None => None,
            }
        },
        Plist::Integer(n) => {
            let mut text: Vec<char> = Vec::new();
            write_integer(*n, &mut text);
            assert(text@ =~= integer_text(*n));
            match read_codepoint(&text) {
                Some(c) => {
                    let mut one: Vec<char> = Vec::new();
                    one.push(c);
                    assert(one@ =~= seq![c]);
                    assert(distinct(one@) =~= seq![c]) by {
                        assert(one@.drop_last() =~= Seq::<char>::empty());
                        assert(distinct(Seq::<char>::empty()) =~= Seq::<char>::empty());
                    }
                    Some(codepoints_new(&one))
                },
                None => None,
            }
        },
        _ => None,
    }
}

fn upper_hex_letter(n: u32) -> (r: char)
    requires
        n < 16,
    ensures
        r == upper_hex_digit(n as int),
{
    if n < 10 {
        ((n as u8) + 48) as char
    } else {
        ((n as u8) + 55) as char
    }
}

/// The capital digits of base sixteen of `n`.
fn upper_hex_digits(n: u32) -> (r: Vec<char>)
    ensures
        r@ == upper_hex(n as nat),
    decreases n,
{
    if n < 16 {
        let mut r: Vec<char> = Vec::new();
        r.push(upper_hex_letter(n));
        assert(r@ =~= seq![upper_hex_digit(n as int)]);
        r
    } else {
        let mut r = upper_hex_digits(n / 16);
        r.push(upper_hex_letter(n % 16));
        r
    }
}

/// Appends the text of the code point `c`.
fn write_codepoint(c: char, out: &mut Vec<char>)
    ensures
        final(out)@ == old(out)@ + codepoint_text(c),
{
    let n = c as u32;
    assert(n as int == c as int);
    let mut text = upper_hex_digits(n);
    while text.len() < 4
        invariant
            padded(text@) == codepoint_text(c),
        decreases 4 - text.len(),
    {
        let ghost before = text@;
        text.insert(0, '0');
        assert(text@ =~= seq!['0'] + before);
    }
    crate::text::push_all(out, &text);
}

/// Appends the text of the code points `cs`.
pub fn write_codepoints(cs: &Vec<char>, out: &mut Vec<char>)
    ensures
        final(out)@ == old(out)@ + codepoints_text(cs@),
{
    let mut i: usize = 0;
    assert(cs@.take(0) =~= Seq::<char>::empty());
    assert(out@ =~= old(out)@ + codepoints_text(cs@.take(0)));
    while i < cs.len()
        invariant
            i <= cs.len(),
            out@ == old(out)@ + codepoints_text(cs@.take(i as int)),
        decreases cs.len() - i,
    {
        let ghost before = out@;
        let ghost done = codepoints_text(cs@.take(i as int));
        assert(cs@.take(i + 1).drop_last() =~= cs@.take(i as int));
        assert(cs@.take(i + 1).last() == cs@[i as int]);
        if i > 0 {
            out.push(',');
        }
        write_codepoint(cs[i], out);
        proof {
            if i > 0 {
                assert(out@ =~= old(out)@ + (done + seq![','] + codepoint_text(cs@[i as int])));
            } else {
                assert(done =~= Seq::<char>::empty());
                assert(cs@.take(1)[0] == cs@[0]);
                assert(out@ =~= old(out)@ + codepoint_text(cs@[0]));
            }
        }
        i += 1;
    }
    assert(cs@.take(cs@.len() as int) =~= cs@);
}

/// The node of a value tree that holds the code points `c`: a string that
/// lists them.
pub fn codepoints_to_plist(c: &norad::Codepoints) -> (r: Plist)
    ensures
        r.deep_view() == PlistModel::String(codepoints_text(codepoints_seq(*c))),
{
    let cs = codepoints_to_vec(c);
    let mut out: Vec<char> = Vec::new();
    write_codepoints(&cs, &mut out);
    assert(out@ =~= codepoints_text(cs@));
    Plist::String(string_of(&out))
}

/// `t` holds no `c`.
pub open spec fn free_of(t: Seq<char>, c: char) -> bool {
    forall|i: int| 0 <= i < t.len() ==> #[trigger] t[i] != c
}

/// A text without separators is one field.
pub proof fn lemma_fields_plain(t: Seq<char>, sep: char)
    requires
        free_of(t, sep),
    ensures
        fields(t, sep) == seq![t],
    decreases t.len(),
{
    if t.len() == 0 {
        assert(t =~= Seq::<char>::empty());
    } else {
        let init = t.drop_last();
        assert(free_of(init, sep)) by {
            assert forall|i: int| 0 <= i < init.len() implies #[trigger] init[i] != sep by {
                assert(init[i] == t[i]);
            }
        }
        lemma_fields_plain(init, sep);
        assert(t.last() == t[t.len() - 1]);
        assert(init.push(t.last()) =~= t);
        assert(fields(t, sep) =~= seq![t]);
    }
}

/// A text without separators after a separator is one more field.
pub proof fn lemma_fields_append(s: Seq<char>, t: Seq<char>, sep: char)
    requires
        free_of(t, sep),
    ensures
        fields(s.push(sep) + t, sep) == fields(s, sep).push(t),
    decreases t.len(),
{
    let whole = s.push(sep) + t;
    if t.len() == 0 {
        assert(t =~= Seq::<char>::empty());
        assert(whole =~= s.push(sep));
        assert(whole.drop_last() =~= s);
    } else {
        let init = t.drop_last();
        assert(free_of(init, sep)) by {
            assert forall|i: int| 0 <= i < init.len() implies #[trigger] init[i] != sep by {
                assert(init[i] == t[i]);
            }
        }
        lemma_fields_append(s, init, sep);
        assert(whole.drop_last() =~= s.push(sep) + init);
        assert(whole.last() == t[t.len() - 1]);
        assert(init.push(t.last()) =~= t);
        assert(fields(whole, sep) =~= fields(s, sep).push(t));
    }
}

/// The shortest text of a number is not empty and holds neither a comma nor
/// a space.
pub proof fn lemma_display_plain(d: DecimalModel)
    requires
        d.wf(),
    ensures
        d.display().len() > 0,
        free_of(d.display(), ','),
        free_of(d.display(), ' '),
        !is_space(d.display()[0]),
{
    let a = d.display();
    let sign = if d.negative { seq!['-'] } else { Seq::<char>::empty() };
    if d.infinite {
        assert(a =~= sign + seq!['i', 'n', 'f']);
        assert forall|i: int| 0 <= i < a.len() implies a[i] != ',' && a[i] != ' ' && !is_space(
            a[i],
        ) by {
            let j = i - sign.len();
            if j >= 0 {
                assert(a[i] == seq!['i', 'n', 'f'][j]);
            }
        }
    } else {
        let w = crate::decimal::digit_chars(d.whole);
        let f = crate::decimal::digit_chars(d.fraction);
        if d.fraction.len() == 0 {
            assert(a =~= sign + w);
        } else {
            assert(a =~= sign + w + seq!['.'] + f);
        }
        assert forall|i: int| 0 <= i < a.len() implies a[i] != ',' && a[i] != ' ' && !is_space(
            a[i],
        ) by {
            let j = i - sign.len();
            if j >= 0 {
                if j < w.len() {
                    assert(a[i] == w[j]);
                    assert(d.whole[j] < 10);
                } else if j > w.len() {
                    assert(a[i] == f[j - w.len() - 1]);
                    assert(d.fraction[j - w.len() - 1] < 10);
                }
            }
        }
    }
}

/// A number that was written as a field, after a space or not, is read as
/// that number.
proof fn lemma_number_field(d: DecimalModel)
    requires
        d.wf(),
    ensures
        number_of_field(d.display()) == Some(d),
        number_of_field(seq![' '] + d.display()) == Some(d),
{
    lemma_display_plain(d);
    crate::decimal::lemma_display_parses(d);
    let spaced = seq![' '] + d.display();
    assert(spaced.skip(1) =~= d.display());
    assert(trim_spaces(d.display()) == d.display());
    assert(trim_spaces(spaced) == trim_spaces(spaced.skip(1)));
}

/// The text of a number after a comma and a space holds no comma.
proof fn lemma_spaced_plain(d: DecimalModel)
    requires
        d.wf(),
    ensures
        free_of(seq![' '] + d.display(), ','),
{
    lemma_display_plain(d);
    let spaced = seq![' '] + d.display();
    assert forall|i: int| 0 <= i < spaced.len() implies #[trigger] spaced[i] != ',' by {
        if i > 0 {
            assert(spaced[i] == d.display()[i - 1]);
        }
    }
}

/// Numbers that were listed are read as those numbers.
pub proof fn lemma_listed_numbers(numbers: Seq<DecimalModel>)
    requires
        numbers.len() >= 1,
        forall|i: int| 0 <= i < numbers.len() ==> (#[trigger] numbers[i]).wf(),
    ensures
        all_of(field_numbers(listed_numbers(numbers))) == Some(numbers),
        field_numbers(listed_numbers(numbers)).len() == numbers.len(),
        forall|i: int|
            0 <= i < numbers.len() ==> (#[trigger] field_numbers(listed_numbers(numbers))[i])
                == Some(numbers[i]),
    decreases numbers.len(),
{
    let text = listed_numbers(numbers);
    let last = numbers.last();
    lemma_number_field(last);
    if numbers.len() == 1 {
        lemma_display_plain(last);
        lemma_fields_plain(last.display(), ',');
    } else {
        let init = numbers.drop_last();
        lemma_listed_numbers(init);
        lemma_spaced_plain(last);
        assert(text =~= listed_numbers(init).push(',') + (seq![' '] + last.display()));
        lemma_fields_append(listed_numbers(init), seq![' '] + last.display(), ',');
        assert forall|i: int| 0 <= i < numbers.len() implies (#[trigger] field_numbers(text)[i])
            == Some(numbers[i]) by {
            if i < init.len() {
                assert(field_numbers(text)[i] == field_numbers(listed_numbers(init))[i]);
                assert(init[i] == numbers[i]);
            }
        }
    }
    assert(field_numbers(text).map_values(|o: Option<DecimalModel>| o->0) =~= numbers);
}

/// Numbers that were written between braces are read as those numbers.
pub proof fn lemma_braced_round_trip(numbers: Seq<DecimalModel>)
    requires
        numbers.len() >= 1,
        forall|i: int| 0 <= i < numbers.len() ==> (#[trigger] numbers[i]).wf(),
    ensures
        braced_numbers(braced_text(numbers)) == Some(numbers),
{
    let inner = listed_numbers(numbers);
    let s = braced_text(numbers);
    assert(s.subrange(1, s.len() - 1) =~= inner);
    lemma_listed_numbers(numbers);
}

/// A point that was written is read as that point.
pub proof fn lemma_point_round_trip(p: PointModel)
    requires
        p.x.wf(),
        p.y.wf(),
    ensures
        point_of_text(point_text(p)) == Some(p),
{
    lemma_braced_round_trip(point_numbers(p));
}

/// A transform that was written is read as that transform.
pub proof fn lemma_affine_round_trip(t: AffineModel)
    requires
        t.x_scale.wf(),
        t.xy_scale.wf(),
        t.yx_scale.wf(),
        t.y_scale.wf(),
        t.x_offset.wf(),
        t.y_offset.wf(),
    ensures
        affine_of_text(affine_text(t)) == Some(t),
{
    lemma_braced_round_trip(affine_numbers(t));
}

/// Where `s` holds no `c` before the place `k` and `c` at `k`, or ends at
/// `k`, the first `c` is at `k`.
proof fn lemma_index_of_char(s: Seq<char>, c: char, k: int)
    requires
        0 <= k <= s.len(),
        forall|i: int| 0 <= i < k ==> #[trigger] s[i] != c,
        k == s.len() || s[k] == c,
    ensures
        index_of_char(s, c) == k,
    decreases k,
{
    if k > 0 {
        let t = s.skip(1);
        assert forall|i: int| 0 <= i < k - 1 implies #[trigger] t[i] != c by {
            assert(t[i] == s[i + 1]);
        }
        lemma_index_of_char(t, c, k - 1);
    }
}

/// The name of a kind of node names that kind.
pub proof fn lemma_node_type_round_trip(t: NodeType)
    ensures
        node_type_of_text(t.spec_glyphs_str()) == Some(t),
{
    reveal_strlit("LINE");
    reveal_strlit("LINE SMOOTH");
    reveal_strlit("OFFCURVE");
    reveal_strlit("CURVE");
    reveal_strlit("CURVE SMOOTH");
    reveal_strlit("QCURVE");
    reveal_strlit("QCURVE SMOOTH");
    let name = t.spec_glyphs_str();
    assert("LINE"@.len() == 4);
    assert("LINE SMOOTH"@.len() == 11);
    assert("OFFCURVE"@.len() == 8);
    assert("CURVE"@.len() == 5);
    assert("CURVE SMOOTH"@.len() == 12);
    assert("QCURVE"@.len() == 6);
    assert("QCURVE SMOOTH"@.len() == 13);
}

/// A node that was written is read as that node.
pub proof fn lemma_node_round_trip(n: NodeModel)
    requires
        n.pt.x.wf(),
        n.pt.y.wf(),
    ensures
        node_of_text(node_text(n)) == Some(n),
{
    reveal_strlit(" ");
    let x = n.pt.x.display();
    let y = n.pt.y.display();
    let kind = n.node_type.spec_glyphs_str();
    let s = node_text(n);
    let after_x = y + seq![' '] + kind;
    assert(s =~= x + seq![' '] + after_x);
    lemma_display_plain(n.pt.x);
    lemma_display_plain(n.pt.y);
    assert forall|i: int| 0 <= i < x.len() implies #[trigger] s[i] != ' ' by {
        assert(s[i] == x[i]);
    }
    assert(s[x.len() as int] == ' ');
    lemma_index_of_char(s, ' ', x.len() as int);
    assert(s.skip(x.len() as int + 1) =~= after_x);
    assert forall|i: int| 0 <= i < y.len() implies #[trigger] after_x[i] != ' ' by {
        assert(after_x[i] == y[i]);
    }
    assert(after_x[y.len() as int] == ' ');
    lemma_index_of_char(after_x, ' ', y.len() as int);
    assert(s.take(x.len() as int) =~= x);
    assert(after_x.take(y.len() as int) =~= y);
    assert(after_x.skip(y.len() as int + 1) =~= kind);
    crate::decimal::lemma_display_parses(n.pt.x);
    crate::decimal::lemma_display_parses(n.pt.y);
    lemma_node_type_round_trip(n.node_type);
}

/// The capital digits of base sixteen of a number are digits of base
/// sixteen that write that number.
proof fn lemma_upper_hex(n: nat)
    ensures
        upper_hex(n).len() >= 1,
        all_hex(upper_hex(n)),
        hex_digits_value(upper_hex(n)) == n,
    decreases n,
{
    if n < 16 {
        let t = upper_hex(n);
        assert(t.drop_last() =~= Seq::<char>::empty());
        assert(hex_digits_value(t.drop_last()) == 0);
    } else {
        lemma_upper_hex(n / 16);
        let init = upper_hex(n / 16);
        let t = init.push(upper_hex_digit((n % 16) as int));
        assert(t.drop_last() =~= init);
        assert forall|i: int| 0 <= i < t.len() implies is_hex(#[trigger] t[i]) by {
            if i < init.len() {
                assert(t[i] == init[i]);
            }
        }
    }
}

/// A zero before digits of base sixteen does not change the number that
/// they write.
proof fn lemma_hex_leading_zero(t: Seq<char>)
    ensures
        hex_digits_value(seq!['0'] + t) == hex_digits_value(t),
    decreases t.len(),
{
    let z = seq!['0'] + t;
    if t.len() == 0 {
        assert(z.drop_last() =~= Seq::<char>::empty());
        assert(hex_digits_value(z.drop_last()) == 0);
    } else {
        lemma_hex_leading_zero(t.drop_last());
        assert(z.drop_last() =~= seq!['0'] + t.drop_last());
        assert(z.last() == t.last());
    }
}

/// Zeros before digits of base sixteen leave digits of base sixteen that
/// write the same number.
proof fn lemma_padded(t: Seq<char>)
    requires
        all_hex(t),
        t.len() >= 1,
    ensures
        padded(t).len() >= 1,
        all_hex(padded(t)),
        hex_digits_value(padded(t)) == hex_digits_value(t),
    decreases 4 - t.len(),
{
    if t.len() < 4 {
        let z = seq!['0'] + t;
        assert forall|i: int| 0 <= i < z.len() implies is_hex(#[trigger] z[i]) by {
            if i > 0 {
                assert(z[i] == t[i - 1]);
            }
        }
        lemma_hex_leading_zero(t);
        lemma_padded(z);
    }
}

/// The number of `c` is the number of a character.
pub open spec fn is_scalar_char(c: char) -> bool {
    is_scalar((c as int) as nat)
}

/// A code point that was written is read as that code point, and its text
/// is a field of its own.
proof fn lemma_codepoint_text(c: char)
    requires
        is_scalar_char(c),
    ensures
        listed_codepoint(codepoint_text(c)) == Some(Some(c)),
        free_of(codepoint_text(c), ','),
{
    let n = (c as int) as nat;
    let t = codepoint_text(c);
    lemma_upper_hex(n);
    lemma_padded(upper_hex(n));
    assert(is_hex(t[0]));
    assert(!is_blank(t)) by {
        if is_blank(t) {
            assert(is_space(t[0]));
        }
    }
    assert forall|i: int| 0 <= i < t.len() implies #[trigger] t[i] != ',' by {
        assert(is_hex(t[i]));
    }
    assert(c == ((c as int) as char));
}

/// The texts of the code points.
pub open spec fn codepoint_texts(cs: Seq<char>) -> Seq<Seq<char>> {
    cs.map_values(|c: char| codepoint_text(c))
}

/// The fields of the text of code points are the texts of the code points.
proof fn lemma_codepoint_fields(cs: Seq<char>)
    requires
        cs.len() >= 1,
        forall|i: int| 0 <= i < cs.len() ==> is_scalar_char(#[trigger] cs[i]),
    ensures
        fields(codepoints_text(cs), ',') == codepoint_texts(cs),
    decreases cs.len(),
{
    let last = cs.last();
    lemma_codepoint_text(last);
    if cs.len() == 1 {
        lemma_fields_plain(codepoint_text(last), ',');
        assert(codepoint_texts(cs) =~= seq![codepoint_text(last)]);
    } else {
        let init = cs.drop_last();
        lemma_codepoint_fields(init);
        assert(codepoints_text(cs) =~= codepoints_text(init).push(',') + codepoint_text(last));
        lemma_fields_append(codepoints_text(init), codepoint_text(last), ',');
        assert(codepoint_texts(cs) =~= codepoint_texts(init).push(codepoint_text(last)));
    }
}

/// Reading the texts of code points gives the code points.
proof fn lemma_codepoints_listed(cs: Seq<char>)
    requires
        forall|i: int| 0 <= i < cs.len() ==> is_scalar_char(#[trigger] cs[i]),
    ensures
        codepoint_texts(cs).filter_map(|f: Seq<char>| listed_codepoint(f)) == cs.map_values(
            |c: char| Some(c),
        ),
    decreases cs.len(),
{
    let g = |f: Seq<char>| listed_codepoint(f);
    let texts = codepoint_texts(cs);
    if cs.len() == 0 {
        assert(texts.filter_map(g) =~= cs.map_values(|c: char| Some(c)));
    } else {
        let init = cs.drop_last();
        lemma_codepoints_listed(init);
        lemma_codepoint_text(cs.last());
        assert(texts.drop_last() =~= codepoint_texts(init));
        assert(texts.last() == codepoint_text(cs.last()));
        assert(texts.filter_map(g) =~= cs.map_values(|c: char| Some(c)));
    }
}

/// Code points that were written are read as those code points.
pub proof fn lemma_codepoints_round_trip(cs: Seq<char>)
    requires
        cs.no_duplicates(),
        forall|i: int| 0 <= i < cs.len() ==> is_scalar_char(#[trigger] cs[i]),
    ensures
        codepoints_of_plist(PlistModel::String(codepoints_text(cs))) == Some(cs),
{
    let g = |f: Seq<char>| listed_codepoint(f);
    let text = codepoints_text(cs);
    let found = fields(text, ',').filter_map(g);
    if cs.len() == 0 {
        let only = fields(text, ',');
        assert(only =~= seq![Seq::<char>::empty()]);
        assert(only.last() =~= Seq::<char>::empty());
        assert(is_blank(only.last()));
        assert(g(only.last()) is None);
        assert(only.drop_last() =~= Seq::<Seq<char>>::empty());
        assert(only.drop_last().filter_map(g) =~= Seq::<Option<char>>::empty());
        assert(found =~= Seq::<Option<char>>::empty());
        assert(found.map_values(|o: Option<char>| o->0) =~= cs);
    } else {
        lemma_codepoint_fields(cs);
        lemma_codepoints_listed(cs);
        assert(found.map_values(|o: Option<char>| o->0) =~= cs);
    }
    crate::seqs::lemma_distinct_of_no_duplicates(cs);
}

/// The numbers that are read between braces are in their shortest form.
pub proof fn lemma_braced_wf(s: Seq<char>)
    ensures
        braced_numbers(s) matches Some(n) ==> forall|i: int|
            0 <= i < n.len() ==> (#[trigger] n[i]).wf(),
{
    if braced_numbers(s) is Some {
        let n = braced_numbers(s)->0;
        let inner = s.subrange(1, s.len() - 1);
        let texts = fields(inner, ',');
        let numbers = field_numbers(inner);
        assert forall|i: int| 0 <= i < n.len() implies (#[trigger] n[i]).wf() by {
            assert(numbers[i] is Some);
            assert(numbers[i] == number_of_field(texts[i]));
            crate::decimal::lemma_parse_wf(trim_spaces(texts[i]));
        }
    }
}

/// A point that is read has its numbers in their shortest form.
pub proof fn lemma_point_wf(s: Seq<char>)
    ensures
        point_of_text(s) matches Some(p) ==> p.x.wf() && p.y.wf(),
{
    lemma_braced_wf(s);
}

/// A transform that is read has its numbers in their shortest form.
pub proof fn lemma_affine_wf(s: Seq<char>)
    ensures
        affine_of_text(s) matches Some(t) ==> t.x_scale.wf() && t.xy_scale.wf() && t.yx_scale.wf()
            && t.y_scale.wf() && t.x_offset.wf() && t.y_offset.wf(),
{
    lemma_braced_wf(s);
}

/// A node that is read has its numbers in their shortest form.
pub proof fn lemma_node_wf(s: Seq<char>)
    ensures
        node_of_text(s) matches Some(n) ==> n.pt.x.wf() && n.pt.y.wf(),
{
    match node_parts(s) {
        Some((x_text, y_text, _)) => {
            crate::decimal::lemma_parse_wf(x_text);
            crate::decimal::lemma_parse_wf(y_text);
        },
        None => {},
    }
}

/// The code points that are read are all different, and each is the number
/// of a character.
pub proof fn lemma_codepoints_read(p: PlistModel)
    ensures
        codepoints_of_plist(p) matches Some(c) ==> c.no_duplicates() && forall|i: int|
            0 <= i < c.len() ==> is_scalar_char(#[trigger] c[i]),
{
    match p {
        PlistModel::String(s) => {
            if listed_codepoints(s) is Some {
                let c = distinct(listed_codepoints(s)->0);
                crate::seqs::lemma_distinct(listed_codepoints(s)->0);
                assert(c.no_duplicates());
                assert forall|i: int| 0 <= i < c.len() implies is_scalar_char(#[trigger] c[i]) by {
                    lemma_char_is_scalar(c[i]);
                }
            }
        },
        PlistModel::Integer(n) => {
            if codepoint_of_text(integer_text(n)) is Some {
                lemma_char_is_scalar(codepoint_of_text(integer_text(n))->0);
            }
        },
        _ => {},
    }
}

/// Every character has the number of a character.
pub proof fn lemma_char_is_scalar(c: char)
    ensures
        is_scalar_char(c),
{
}

} // verus!
