//! Lightroom XMP sidecars: which attributes carry which develop settings,
//! and how a document's attributes fold into one set of settings.

use vstd::prelude::*;
use crate::paths::{opt_string_view, path_with_extension, path_with_extension_of};
use crate::text::{
    ascii_lower_seq, eq_ignore_ascii_case, str_equals, strip_leading_plus, trim_leading_plus,
};

verus! {

/// The numeric develop settings read from a sidecar.
#[derive(Clone, Copy, PartialEq, Eq, Structural, Debug)]
pub enum XmpField {
    Exposure,
    Temperature,
    Tint,
    Contrast,
    Highlights,
    Shadows,
    Whites,
    Blacks,
    Vibrance,
    Saturation,
    CropTop,
    CropLeft,
    CropBottom,
    CropRight,
    CropAngle,
}

/// The setting that an attribute (by its local name) sets, if any.
pub open spec fn field_for_attribute(name: Seq<char>) -> Option<XmpField> {
    if name == "Exposure2012"@ {
        Some(XmpField::Exposure)
    } else if name == "Temperature"@ {
        Some(XmpField::Temperature)
    } else if name == "Tint"@ {
        Some(XmpField::Tint)
    } else if name == "Contrast2012"@ {
        Some(XmpField::Contrast)
    } else if name == "Highlights2012"@ {
        Some(XmpField::Highlights)
    } else if name == "Shadows2012"@ {
        Some(XmpField::Shadows)
    } else if name == "Whites2012"@ {
        Some(XmpField::Whites)
    } else if name == "Blacks2012"@ {
        Some(XmpField::Blacks)
    } else if name == "Vibrance"@ {
        Some(XmpField::Vibrance)
    } else if name == "Saturation"@ {
        Some(XmpField::Saturation)
    } else if name == "CropTop"@ {
        Some(XmpField::CropTop)
    } else if name == "CropLeft"@ {
        Some(XmpField::CropLeft)
    } else if name == "CropBottom"@ {
        Some(XmpField::CropBottom)
    } else if name == "CropRight"@ {
        Some(XmpField::CropRight)
    } else if name == "CropAngle"@ {
        Some(XmpField::CropAngle)
    } else {
        None
    }
}

/// The attribute that carries each setting.
pub open spec fn attribute_name(f: XmpField) -> Seq<char> {
    match f {
        XmpField::Exposure => "Exposure2012"@,
        XmpField::Temperature => "Temperature"@,
        XmpField::Tint => "Tint"@,
        XmpField::Contrast => "Contrast2012"@,
        XmpField::Highlights => "Highlights2012"@,
        XmpField::Shadows => "Shadows2012"@,
        XmpField::Whites => "Whites2012"@,
        XmpField::Blacks => "Blacks2012"@,
        XmpField::Vibrance => "Vibrance"@,
        XmpField::Saturation => "Saturation"@,
        XmpField::CropTop => "CropTop"@,
        XmpField::CropLeft => "CropLeft"@,
        XmpField::CropBottom => "CropBottom"@,
        XmpField::CropRight => "CropRight"@,
        XmpField::CropAngle => "CropAngle"@,
    }
}

/// The attribute that switches cropping on or off.
pub open spec fn has_crop_attribute() -> Seq<char> {
    "HasCrop"@
}

/// What a sidecar says: the text of each numeric setting that it gives
/// (leading `'+'` signs removed), and whether cropping is on.
pub struct XmpModel {
    pub values: Map<XmpField, Seq<char>>,
    pub has_crop: bool,
}

/// The settings before any attribute has been read.
pub open spec fn empty_model() -> XmpModel {
    XmpModel { values: Map::empty(), has_crop: false }
}

/// The effect of reading one attribute.
pub open spec fn apply_attribute(m: XmpModel, name: Seq<char>, value: Seq<char>) -> XmpModel {
    match field_for_attribute(name) {
        Some(f) => XmpModel { values: m.values.insert(f, strip_leading_plus(value)), has_crop: m.has_crop },
        None => if name == has_crop_attribute() {
            XmpModel { values: m.values, has_crop: ascii_lower_seq(value) == ascii_lower_seq("true"@) }
        } else {
            m
        },
    }
}

/// The effect of reading a list of attributes, in order.
pub open spec fn apply_attributes(m: XmpModel, attrs: Seq<(Seq<char>, Seq<char>)>) -> XmpModel
    decreases attrs.len(),
{
    if attrs.len() == 0 {
        m
    } else {
        let prev = apply_attributes(m, attrs.drop_last());
        apply_attribute(prev, attrs.last().0, attrs.last().1)
    }
}

/// The effect of reading a document's nodes, in document order: the
/// attributes of element nodes are read, other nodes are skipped.
pub open spec fn apply_nodes(m: XmpModel, nodes: Seq<(bool, Seq<(Seq<char>, Seq<char>)>)>) -> XmpModel
    decreases nodes.len(),
{
    if nodes.len() == 0 {
        m
    } else {
        let prev = apply_nodes(m, nodes.drop_last());
        if nodes.last().0 {
            apply_attributes(prev, nodes.last().1)
        } else {
            prev
        }
    }
}

/// The settings that a document's nodes give.
pub open spec fn settings_of(nodes: Seq<(bool, Seq<(Seq<char>, Seq<char>)>)>) -> XmpModel {
    apply_nodes(empty_model(), nodes)
}

/// The setting that an attribute sets (see `field_for_attribute`).
pub fn field_for(name: &str) -> (r: Option<XmpField>)
    ensures
        r == field_for_attribute(name@),
{
    if str_equals(name, "Exposure2012") {
        Some(XmpField::Exposure)
    } else if str_equals(name, "Temperature") {
        Some(XmpField::Temperature)
    } else if str_equals(name, "Tint") {
        Some(XmpField::Tint)
    } else if str_equals(name, "Contrast2012") {
        Some(XmpField::Contrast)
    } else if str_equals(name, "Highlights2012") {
        Some(XmpField::Highlights)
    } else if str_equals(name, "Shadows2012") {
        Some(XmpField::Shadows)
    } else if str_equals(name, "Whites2012") {
        Some(XmpField::Whites)
    } else if str_equals(name, "Blacks2012") {
        Some(XmpField::Blacks)
    } else if str_equals(name, "Vibrance") {
        Some(XmpField::Vibrance)
    } else if str_equals(name, "Saturation") {
        Some(XmpField::Saturation)
    } else if str_equals(name, "CropTop") {
        Some(XmpField::CropTop)
    } else if str_equals(name, "CropLeft") {
        Some(XmpField::CropLeft)
    } else if str_equals(name, "CropBottom") {
        Some(XmpField::CropBottom)
    } else if str_equals(name, "CropRight") {
        Some(XmpField::CropRight)
    } else if str_equals(name, "CropAngle") {
        Some(XmpField::CropAngle)
    } else {
        None
    }
}


/// The settings read from a sidecar. Each numeric setting holds the text of
/// the attribute that gave it, with its leading `'+'` signs removed; turning
/// that text into a number is left to the caller.
pub struct XmpSettings {
    exposure: Option<String>,
    temperature: Option<String>,
    tint: Option<String>,
    contrast: Option<String>,
    highlights: Option<String>,
    shadows: Option<String>,
    whites: Option<String>,
    blacks: Option<String>,
    vibrance: Option<String>,
    saturation: Option<String>,
    crop_top: Option<String>,
    crop_left: Option<String>,
    crop_bottom: Option<String>,
    crop_right: Option<String>,
    crop_angle: Option<String>,
    has_crop: bool,
}

impl XmpSettings {
    /// The slot of one setting.
    pub closed spec fn slot(self, f: XmpField) -> Option<String> {
        match f {
            XmpField::Exposure => self.exposure,
            XmpField::Temperature => self.temperature,
            XmpField::Tint => self.tint,
            XmpField::Contrast => self.contrast,
            XmpField::Highlights => self.highlights,
            XmpField::Shadows => self.shadows,
            XmpField::Whites => self.whites,
            XmpField::Blacks => self.blacks,
            XmpField::Vibrance => self.vibrance,
            XmpField::Saturation => self.saturation,
            XmpField::CropTop => self.crop_top,
            XmpField::CropLeft => self.crop_left,
            XmpField::CropBottom => self.crop_bottom,
            XmpField::CropRight => self.crop_right,
            XmpField::CropAngle => self.crop_angle,
        }
    }

    /// Settings with nothing given and cropping off.
    pub fn new() -> (r: XmpSettings)
        ensures
            r@ == empty_model(),
    {
        let r = XmpSettings {
            exposure: None,
            temperature: None,
            tint: None,
            contrast: None,
            highlights: None,
            shadows: None,
            whites: None,
            blacks: None,
            vibrance: None,
            saturation: None,
            crop_top: None,
            crop_left: None,
            crop_bottom: None,
            crop_right: None,
            crop_angle: None,
            has_crop: false,
        };
        assert(r@.values =~= Map::<XmpField, Seq<char>>::empty());
        r
    }

    /// The text of one setting, if the sidecar gave it.
    pub fn get(&self, f: XmpField) -> (r: Option<&String>)
        ensures
            match r {
                Some(s) => self@.values.contains_key(f) && self@.values[f] == s@,
                None => !self@.values.contains_key(f),
            },
    {
        match f {
            XmpField::Exposure => self.exposure.as_ref(),
            XmpField::Temperature => self.temperature.as_ref(),
            XmpField::Tint => self.tint.as_ref(),
            XmpField::Contrast => self.contrast.as_ref(),
            XmpField::Highlights => self.highlights.as_ref(),
            XmpField::Shadows => self.shadows.as_ref(),
            XmpField::Whites => self.whites.as_ref(),
            XmpField::Blacks => self.blacks.as_ref(),
            XmpField::Vibrance => self.vibrance.as_ref(),
            XmpField::Saturation => self.saturation.as_ref(),
            XmpField::CropTop => self.crop_top.as_ref(),
            XmpField::CropLeft => self.crop_left.as_ref(),
            XmpField::CropBottom => self.crop_bottom.as_ref(),
            XmpField::CropRight => self.crop_right.as_ref(),
            XmpField::CropAngle => self.crop_angle.as_ref(),
        }
    }

    /// Whether cropping is on.
    pub fn has_crop(&self) -> (r: bool)
        ensures
            r == self@.has_crop,
    {
        self.has_crop
    }

    /// Whether the white balance is to be set: only when the sidecar gives
    /// both the temperature and the tint.
    pub fn has_white_balance(&self) -> (r: bool)
        ensures
            r == (self@.values.contains_key(XmpField::Temperature) && self@.values.contains_key(
                XmpField::Tint,
            )),
    {
        self.temperature.is_some() && self.tint.is_some()
    }

    /// Sets the text of one setting.
    pub fn set(&mut self, f: XmpField, value: String)
        ensures
            final(self)@ == (XmpModel { values: old(self)@.values.insert(f, value@), has_crop: old(self)@.has_crop }),
    {
        let ghost v = value@;
        match f {
            XmpField::Exposure => self.exposure = Some(value),
            XmpField::Temperature => self.temperature = Some(value),
            XmpField::Tint => self.tint = Some(value),
            XmpField::Contrast => self.contrast = Some(value),
            XmpField::Highlights => self.highlights = Some(value),
            XmpField::Shadows => self.shadows = Some(value),
            XmpField::Whites => self.whites = Some(value),
            XmpField::Blacks => self.blacks = Some(value),
            XmpField::Vibrance => self.vibrance = Some(value),
            XmpField::Saturation => self.saturation = Some(value),
            XmpField::CropTop => self.crop_top = Some(value),
            XmpField::CropLeft => self.crop_left = Some(value),
            XmpField::CropBottom => self.crop_bottom = Some(value),
            XmpField::CropRight => self.crop_right = Some(value),
            XmpField::CropAngle => self.crop_angle = Some(value),
        }
        assert(self@.values =~= old(self)@.values.insert(f, v));
    }

    /// Reads one attribute (see `apply_attribute`).
    pub fn read_attribute(&mut self, name: &str, value: &str)
        ensures
            final(self)@ == apply_attribute(old(self)@, name@, value@),
    {
        match field_for(name) {
            Some(f) => {
                let text = trim_leading_plus(value);
                self.set(f, text);
            },
            None => {
                if str_equals(name, "HasCrop") {
                    self.has_crop = eq_ignore_ascii_case(value, "true");
                    assert(self@.values =~= old(self)@.values);
                }
            },
        }
    }
}

impl View for XmpSettings {
    type V = XmpModel;

    closed spec fn view(&self) -> XmpModel {
        XmpModel {
            values: Map::new(
                |f: XmpField| self.slot(f) is Some,
                |f: XmpField| opt_string_view(self.slot(f)).unwrap(),
            ),
            has_crop: self.has_crop,
        }
    }
}


/// One attribute of a parsed XML node: its local name and its value.
pub struct XmlAttribute {
    pub name: String,
    pub value: String,
}

impl View for XmlAttribute {
    type V = (Seq<char>, Seq<char>);

    open spec fn view(&self) -> (Seq<char>, Seq<char>) {
        (self.name@, self.value@)
    }
}

/// One node of a parsed XML document: whether it is an element, and its
/// attributes in document order.
pub struct XmlNode {
    pub is_element: bool,
    pub attributes: Vec<XmlAttribute>,
}

/// The attributes of a node as plain values.
pub open spec fn attributes_view(attrs: Seq<XmlAttribute>) -> Seq<(Seq<char>, Seq<char>)> {
    attrs.map_values(|a: XmlAttribute| a@)
}

impl View for XmlNode {
    type V = (bool, Seq<(Seq<char>, Seq<char>)>);

    open spec fn view(&self) -> (bool, Seq<(Seq<char>, Seq<char>)>) {
        (self.is_element, attributes_view(self.attributes@))
    }
}

/// The nodes of a document as plain values.
pub open spec fn nodes_view(nodes: Seq<XmlNode>) -> Seq<(bool, Seq<(Seq<char>, Seq<char>)>)> {
    nodes.map_values(|n: XmlNode| n@)
}

/// The nodes that `roxmltree` finds in an XML text (the document's root node
/// and all its descendants, in document order), or `None` where it refuses
/// the text.
pub uninterp spec fn xml_descendants(xml: Seq<char>) -> Option<Seq<(bool, Seq<(Seq<char>, Seq<char>)>)>>;

/// Why a sidecar could not be read.
#[derive(Clone, Copy, PartialEq, Eq, Structural, Debug)]
pub enum XmpError {
    /// The text is not well-formed XML.
    MalformedXml,
}

#[verifier::external_type_specification]
#[verifier::external_body]
pub struct ExRoxmlError(roxmltree::Error);

/// Parses `xml` with `roxmltree::Document::parse` and lists
/// `Document::descendants`, each node with `Node::is_element` and its
/// `Node::attributes` (by `Attribute::name`, the local name, and
/// `Attribute::value`). Claimed: the result is `xml_descendants(xml)`, a
/// function of the text alone.
#[verifier::external_body]
fn xml_nodes(xml: &str) -> (r: Result<Vec<XmlNode>, roxmltree::Error>)
    ensures
        match r {
            Ok(nodes) => xml_descendants(xml@) == Some(nodes_view(nodes@)),
            Err(_) => xml_descendants(xml@) is None,
        },
{
    let doc = roxmltree::Document::parse(xml)?;
    Ok(doc.descendants().map(|n| XmlNode {
        is_element: n.is_element(),
        attributes: n.attributes().map(|a| XmlAttribute {
            name: a.name().to_string(),
            value: a.value().to_string(),
        }).collect(),
    }).collect())
}

/// Folds the attributes of a document's element nodes, in order, into one
/// set of settings: the last attribute for a setting decides it.
pub fn settings_from_nodes(nodes: &Vec<XmlNode>) -> (r: XmpSettings)
    ensures
        r@ == settings_of(nodes_view(nodes@)),
{
    let mut settings = XmpSettings::new();
    let n = nodes.len();
    let mut i: usize = 0;
    while i < n
        invariant
            n == nodes@.len(),
            i <= n,
            settings@ == apply_nodes(empty_model(), nodes_view(nodes@.take(i as int))),
        decreases n - i,
    {
        let node = &nodes[i];
        assert(nodes_view(nodes@.take(i + 1)).drop_last() =~= nodes_view(nodes@.take(i as int)));
        assert(nodes_view(nodes@.take(i + 1)).last() == node@);
        if node.is_element {
            let ghost start = settings@;
            let m = node.attributes.len();
            let mut j: usize = 0;
            while j < m
                invariant
                    m == node.attributes@.len(),
                    j <= m,
                    settings@ == apply_attributes(start, attributes_view(node.attributes@.take(j as int))),
                decreases m - j,
            {
                let a = &node.attributes[j];
                assert(attributes_view(node.attributes@.take(j + 1)).drop_last()
                    =~= attributes_view(node.attributes@.take(j as int)));
                settings.read_attribute(a.name.as_str(), a.value.as_str());
                j = j + 1;
            }
            assert(node.attributes@.take(m as int) =~= node.attributes@);
        }
        i = i + 1;
    }
    assert(nodes@.take(n as int) =~= nodes@);
    settings
}

/// Reads the develop settings of a Lightroom XMP sidecar from its text.
/// Fails exactly when the text is not well-formed XML.
pub fn parse(xml: &str) -> (r: Result<XmpSettings, XmpError>)
    ensures
        match xml_descendants(xml@) {
            Some(nodes) => r is Ok && r->Ok_0@ == settings_of(nodes),
            None => r == Err::<XmpSettings, XmpError>(XmpError::MalformedXml),
        },
{
    match xml_nodes(xml) {
        Ok(nodes) => Ok(settings_from_nodes(&nodes)),
        Err(_) => Err(XmpError::MalformedXml),
    }
}


/// The attributes of a document's element nodes, in document order.
pub open spec fn element_attributes(nodes: Seq<(bool, Seq<(Seq<char>, Seq<char>)>)>) -> Seq<(Seq<char>, Seq<char>)>
    decreases nodes.len(),
{
    if nodes.len() == 0 {
        Seq::empty()
    } else {
        element_attributes(nodes.drop_last()) + if nodes.last().0 {
            nodes.last().1
        } else {
            Seq::empty()
        }
    }
}

/// Whether any attribute in `attrs` has the name `name`.
pub open spec fn names_attribute(attrs: Seq<(Seq<char>, Seq<char>)>, name: Seq<char>) -> bool {
    exists|i: int| 0 <= i < attrs.len() && #[trigger] attrs[i].0 == name
}

proof fn lemma_field_name(name: Seq<char>, f: XmpField)
    requires
        field_for_attribute(name) == Some(f),
    ensures
        name == attribute_name(f),
{
}

proof fn lemma_field_of_name(f: XmpField)
    ensures
        field_for_attribute(attribute_name(f)) == Some(f),
{
    reveal_strlit("Exposure2012");
    reveal_strlit("Temperature");
    reveal_strlit("Tint");
    reveal_strlit("Contrast2012");
    reveal_strlit("Highlights2012");
    reveal_strlit("Shadows2012");
    reveal_strlit("Whites2012");
    reveal_strlit("Blacks2012");
    reveal_strlit("Vibrance");
    reveal_strlit("Saturation");
    reveal_strlit("CropTop");
    reveal_strlit("CropLeft");
    reveal_strlit("CropBottom");
    reveal_strlit("CropRight");
    reveal_strlit("CropAngle");
    assert("Exposure2012"@.len() == 12 && "Exposure2012"@[0] == 'E');
    assert("Temperature"@.len() == 11 && "Temperature"@[0] == 'T');
    assert("Tint"@.len() == 4 && "Tint"@[0] == 'T');
    assert("Contrast2012"@.len() == 12 && "Contrast2012"@[0] == 'C');
    assert("Highlights2012"@.len() == 14 && "Highlights2012"@[0] == 'H');
    assert("Shadows2012"@.len() == 11 && "Shadows2012"@[0] == 'S');
    assert("Whites2012"@.len() == 10 && "Whites2012"@[0] == 'W');
    assert("Blacks2012"@.len() == 10 && "Blacks2012"@[0] == 'B');
    assert("Vibrance"@.len() == 8 && "Vibrance"@[0] == 'V');
    assert("Saturation"@.len() == 10 && "Saturation"@[0] == 'S');
    assert("CropTop"@.len() == 7 && "CropTop"@[0] == 'C');
    assert("CropLeft"@.len() == 8 && "CropLeft"@[0] == 'C');
    assert("CropBottom"@.len() == 10 && "CropBottom"@[0] == 'C');
    assert("CropRight"@.len() == 9 && "CropRight"@[0] == 'C' && "CropRight"@[4] == 'R');
    assert("CropAngle"@.len() == 9 && "CropAngle"@[0] == 'C' && "CropAngle"@[4] == 'A');
}

/// Reading an attribute for one setting leaves every other setting as it was.
proof fn lemma_other_attribute_keeps(m: XmpModel, name: Seq<char>, value: Seq<char>, f: XmpField)
    requires
        name != attribute_name(f),
    ensures
        apply_attribute(m, name, value).values.contains_key(f) == m.values.contains_key(f),
        m.values.contains_key(f) ==> apply_attribute(m, name, value).values[f] == m.values[f],
{
    if let Some(g) = field_for_attribute(name) {
        lemma_field_name(name, g);
    }
}

/// Reading two lists of attributes one after the other is reading their concatenation.
pub proof fn lemma_apply_attributes_concat(
    m: XmpModel,
    a: Seq<(Seq<char>, Seq<char>)>,
    b: Seq<(Seq<char>, Seq<char>)>,
)
    ensures
        apply_attributes(m, a + b) == apply_attributes(apply_attributes(m, a), b),
    decreases b.len(),
{
    if b.len() == 0 {
        assert(a + b =~= a);
    } else {
        assert((a + b).drop_last() =~= a + b.drop_last());
        lemma_apply_attributes_concat(m, a, b.drop_last());
    }
}

/// Reading a document is reading the attributes of its element nodes, in
/// order; nothing else in the document matters.
pub proof fn lemma_nodes_are_element_attributes(m: XmpModel, nodes: Seq<(bool, Seq<(Seq<char>, Seq<char>)>)>)
    ensures
        apply_nodes(m, nodes) == apply_attributes(m, element_attributes(nodes)),
    decreases nodes.len(),
{
    if nodes.len() > 0 {
        lemma_nodes_are_element_attributes(m, nodes.drop_last());
        let last: Seq<(Seq<char>, Seq<char>)> = if nodes.last().0 { nodes.last().1 } else { Seq::empty() };
        lemma_apply_attributes_concat(m, element_attributes(nodes.drop_last()), last);
    }
}

/// A node that is not an element can be added anywhere in a document
/// without changing the settings it gives.
pub proof fn lemma_non_element_ignored(
    m: XmpModel,
    before: Seq<(bool, Seq<(Seq<char>, Seq<char>)>)>,
    attrs: Seq<(Seq<char>, Seq<char>)>,
    after: Seq<(bool, Seq<(Seq<char>, Seq<char>)>)>,
)
    ensures
        apply_nodes(m, before + seq![(false, attrs)] + after) == apply_nodes(m, before + after),
    decreases after.len(),
{
    let with = before + seq![(false, attrs)] + after;
    if after.len() == 0 {
        assert(with.drop_last() =~= before);
        assert(before + after =~= before);
    } else {
        assert(with.drop_last() =~= before + seq![(false, attrs)] + after.drop_last());
        assert((before + after).drop_last() =~= before + after.drop_last());
        lemma_non_element_ignored(m, before, attrs, after.drop_last());
    }
}

/// Of two attributes for the same setting, the later one decides it.
pub proof fn lemma_later_attribute_wins(m: XmpModel, name: Seq<char>, first: Seq<char>, second: Seq<char>)
    ensures
        apply_attribute(apply_attribute(m, name, first), name, second) == apply_attribute(m, name, second),
{
    if let Some(f) = field_for_attribute(name) {
        assert(m.values.insert(f, strip_leading_plus(first)).insert(f, strip_leading_plus(second))
            =~= m.values.insert(f, strip_leading_plus(second)));
    }
}

/// Attributes with different names can be read in either order.
pub proof fn lemma_distinct_attributes_commute(
    m: XmpModel,
    name1: Seq<char>,
    value1: Seq<char>,
    name2: Seq<char>,
    value2: Seq<char>,
)
    requires
        name1 != name2,
    ensures
        apply_attribute(apply_attribute(m, name1, value1), name2, value2) == apply_attribute(
            apply_attribute(m, name2, value2),
            name1,
            value1,
        ),
{
    match (field_for_attribute(name1), field_for_attribute(name2)) {
        (Some(f1), Some(f2)) => {
            lemma_field_name(name1, f1);
            lemma_field_name(name2, f2);
            assert(m.values.insert(f1, strip_leading_plus(value1)).insert(f2, strip_leading_plus(value2))
                =~= m.values.insert(f2, strip_leading_plus(value2)).insert(f1, strip_leading_plus(value1)));
        },
        _ => {},
    }
}

/// A setting holds the text of the last attribute that carries it.
pub proof fn lemma_last_attribute_decides(
    m: XmpModel,
    before: Seq<(Seq<char>, Seq<char>)>,
    f: XmpField,
    value: Seq<char>,
    after: Seq<(Seq<char>, Seq<char>)>,
)
    requires
        !names_attribute(after, attribute_name(f)),
    ensures
        apply_attributes(m, before + seq![(attribute_name(f), value)] + after).values.contains_key(f),
        apply_attributes(m, before + seq![(attribute_name(f), value)] + after).values[f]
            == strip_leading_plus(value),
    decreases after.len(),
{
    let all = before + seq![(attribute_name(f), value)] + after;
    if after.len() == 0 {
        assert(all.drop_last() =~= before);
        lemma_field_of_name(f);
    } else {
        assert(all.drop_last() =~= before + seq![(attribute_name(f), value)] + after.drop_last());
        assert(after.last() == after[after.len() - 1]);
        assert(!names_attribute(after.drop_last(), attribute_name(f))) by {
            if names_attribute(after.drop_last(), attribute_name(f)) {
                let i = choose|i: int| 0 <= i < after.drop_last().len() && #[trigger] after.drop_last()[i].0 == attribute_name(f);
                assert(after[i].0 == attribute_name(f));
            }
        }
        lemma_last_attribute_decides(m, before, f, value, after.drop_last());
        lemma_other_attribute_keeps(apply_attributes(m, all.drop_last()), after.last().0, after.last().1, f);
    }
}

/// A setting that no attribute carries keeps the value it had.
pub proof fn lemma_unnamed_setting_kept(m: XmpModel, attrs: Seq<(Seq<char>, Seq<char>)>, f: XmpField)
    requires
        !names_attribute(attrs, attribute_name(f)),
    ensures
        apply_attributes(m, attrs).values.contains_key(f) == m.values.contains_key(f),
        m.values.contains_key(f) ==> apply_attributes(m, attrs).values[f] == m.values[f],
    decreases attrs.len(),
{
    if attrs.len() > 0 {
        assert(attrs.last() == attrs[attrs.len() - 1]);
        assert(!names_attribute(attrs.drop_last(), attribute_name(f))) by {
            if names_attribute(attrs.drop_last(), attribute_name(f)) {
                let i = choose|i: int| 0 <= i < attrs.drop_last().len() && #[trigger] attrs.drop_last()[i].0 == attribute_name(f);
                assert(attrs[i].0 == attribute_name(f));
            }
        }
        lemma_unnamed_setting_kept(m, attrs.drop_last(), f);
        lemma_other_attribute_keeps(apply_attributes(m, attrs.drop_last()), attrs.last().0, attrs.last().1, f);
    }
}

/// In a sidecar, a setting holds the text of the last element attribute that
/// carries it (leading `'+'` signs removed), and is absent where no element
/// attribute carries it.
pub proof fn lemma_sidecar_setting(nodes: Seq<(bool, Seq<(Seq<char>, Seq<char>)>)>, f: XmpField)
    ensures
        !names_attribute(element_attributes(nodes), attribute_name(f)) ==> !settings_of(nodes).values.contains_key(f),
        forall|before: Seq<(Seq<char>, Seq<char>)>, value: Seq<char>, after: Seq<(Seq<char>, Seq<char>)>|
            #![trigger before + seq![(attribute_name(f), value)] + after]
            element_attributes(nodes) == before + seq![(attribute_name(f), value)] + after
                && !names_attribute(after, attribute_name(f))
                ==> settings_of(nodes).values.contains_key(f)
                    && settings_of(nodes).values[f] == strip_leading_plus(value),
{
    lemma_nodes_are_element_attributes(empty_model(), nodes);
    if !names_attribute(element_attributes(nodes), attribute_name(f)) {
        lemma_unnamed_setting_kept(empty_model(), element_attributes(nodes), f);
    }
    assert forall|before: Seq<(Seq<char>, Seq<char>)>, value: Seq<char>, after: Seq<(Seq<char>, Seq<char>)>|
        #![trigger before + seq![(attribute_name(f), value)] + after]
        element_attributes(nodes) == before + seq![(attribute_name(f), value)] + after
            && !names_attribute(after, attribute_name(f))
        implies settings_of(nodes).values.contains_key(f)
            && settings_of(nodes).values[f] == strip_leading_plus(value) by {
        lemma_last_attribute_decides(empty_model(), before, f, value, after);
    }
}


/// The first sidecar looked for: the photo's whole path with `.xmp` appended
/// (`photo.ARW.xmp`).
pub open spec fn appended_sidecar(raw_path: Seq<char>) -> Seq<char> {
    raw_path + ".xmp"@
}

/// The second sidecar looked for: the photo's path with its extension
/// replaced by `xmp` (`photo.xmp`).
pub open spec fn replaced_sidecar(raw_path: Seq<char>) -> Seq<char> {
    path_with_extension_of(raw_path, "xmp"@)
}

/// Whether `file_exists`, asked about `path`, may have answered `answer`.
pub open spec fn answered<F: Fn(&str) -> bool>(file_exists: F, path: Seq<char>, answer: bool) -> bool {
    exists|s: &str| s@ == path && #[trigger] file_exists.ensures((s,), answer)
}

/// Finds the XMP sidecar of a photo: `photo.ARW.xmp` if it exists, else
/// `photo.xmp` if that exists, else none. `file_exists` tells whether a file is
/// there; it is asked about the second name only when the first is missing.
pub fn find_sidecar<F: Fn(&str) -> bool>(raw_path: &str, file_exists: F) -> (r: Option<String>)
    requires
        forall|s: &str| #[trigger] file_exists.requires((s,)),
    ensures
        match r {
            Some(p) => {
                ||| p@ == appended_sidecar(raw_path@) && answered(file_exists, appended_sidecar(raw_path@), true)
                ||| p@ == replaced_sidecar(raw_path@) && answered(file_exists, appended_sidecar(raw_path@), false)
                    && answered(file_exists, replaced_sidecar(raw_path@), true)
            },
            None => answered(file_exists, appended_sidecar(raw_path@), false) && answered(
                file_exists,
                replaced_sidecar(raw_path@),
                false,
            ),
        },
{
    let mut appended = String::from_str(raw_path);
    appended.append(".xmp");
    let found = file_exists(appended.as_str());
    if found {
        return Some(appended);
    }
    proof {
        reveal_strlit("xmp");
        assert(!"xmp"@.contains('/'));
    }
    let replaced = path_with_extension(raw_path, "xmp");
    let found2 = file_exists(replaced.as_str());
    if found2 {
        return Some(replaced);
    }
    None
}

} // verus!
