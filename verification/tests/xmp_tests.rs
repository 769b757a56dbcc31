use avify::xmp::{
    field_for, find_sidecar, parse, settings_from_nodes, XmlAttribute, XmlNode, XmpError, XmpField,
};

const SIDECAR: &str = r#"<x:xmpmeta xmlns:x="adobe:ns:meta/">
 <rdf:RDF xmlns:rdf="http://www.w3.org/1999/02/22-rdf-syntax-ns#">
  <!-- develop settings -->
  <rdf:Description rdf:about=""
    xmlns:crs="http://ns.adobe.com/camera-raw-settings/1.0/"
    crs:Exposure2012="+0.50"
    crs:Temperature="5200"
    crs:Tint="+7"
    crs:Contrast2012="-12"
    crs:Highlights2012="-40"
    crs:Shadows2012="+35"
    crs:Whites2012="+5"
    crs:Blacks2012="-3"
    crs:Vibrance="+20"
    crs:Saturation="-5"
    crs:CropTop="0.1"
    crs:CropLeft="0.05"
    crs:CropBottom="0.9"
    crs:CropRight="0.95"
    crs:CropAngle="-1.5"
    crs:HasCrop="True"
    crs:Unknown="1"/>
 </rdf:RDF>
</x:xmpmeta>"#;

fn get(s: &avify::xmp::XmpSettings, f: XmpField) -> Option<String> {
    s.get(f).cloned()
}

#[test]
fn reads_all_settings() {
    let s = parse(SIDECAR).unwrap();
    assert_eq!(get(&s, XmpField::Exposure).as_deref(), Some("0.50"));
    assert_eq!(get(&s, XmpField::Temperature).as_deref(), Some("5200"));
    assert_eq!(get(&s, XmpField::Tint).as_deref(), Some("7"));
    assert_eq!(get(&s, XmpField::Contrast).as_deref(), Some("-12"));
    assert_eq!(get(&s, XmpField::Highlights).as_deref(), Some("-40"));
    assert_eq!(get(&s, XmpField::Shadows).as_deref(), Some("35"));
    assert_eq!(get(&s, XmpField::Whites).as_deref(), Some("5"));
    assert_eq!(get(&s, XmpField::Blacks).as_deref(), Some("-3"));
    assert_eq!(get(&s, XmpField::Vibrance).as_deref(), Some("20"));
    assert_eq!(get(&s, XmpField::Saturation).as_deref(), Some("-5"));
    assert_eq!(get(&s, XmpField::CropTop).as_deref(), Some("0.1"));
    assert_eq!(get(&s, XmpField::CropLeft).as_deref(), Some("0.05"));
    assert_eq!(get(&s, XmpField::CropBottom).as_deref(), Some("0.9"));
    assert_eq!(get(&s, XmpField::CropRight).as_deref(), Some("0.95"));
    assert_eq!(get(&s, XmpField::CropAngle).as_deref(), Some("-1.5"));
    assert!(s.has_crop());
    assert!(s.has_white_balance());
}

#[test]
fn absent_settings_stay_absent() {
    let s = parse(r#"<e xmlns:crs="u" crs:Exposure2012="1"/>"#).unwrap();
    assert_eq!(get(&s, XmpField::Exposure).as_deref(), Some("1"));
    assert_eq!(get(&s, XmpField::Temperature), None);
    assert!(!s.has_white_balance());
    assert!(!s.has_crop());
}

#[test]
fn white_balance_needs_both() {
    let s = parse(r#"<e Temperature="5000"/>"#).unwrap();
    assert!(!s.has_white_balance());
    let s = parse(r#"<e Tint="3"/>"#).unwrap();
    assert!(!s.has_white_balance());
}

#[test]
fn later_attribute_wins() {
    let s = parse(r#"<a Exposure2012="1"><b Exposure2012="+2"/><c HasCrop="true"/><d HasCrop="no"/></a>"#)
        .unwrap();
    assert_eq!(get(&s, XmpField::Exposure).as_deref(), Some("2"));
    assert!(!s.has_crop());
}

#[test]
fn has_crop_ignores_case() {
    assert!(parse(r#"<e HasCrop="TRUE"/>"#).unwrap().has_crop());
    assert!(!parse(r#"<e HasCrop="1"/>"#).unwrap().has_crop());
}

#[test]
fn malformed_xml_is_refused() {
    assert!(matches!(parse("<a><b></a>"), Err(XmpError::MalformedXml)));
    assert!(matches!(parse("not xml"), Err(XmpError::MalformedXml)));
    assert!(matches!(parse(r#"<e crs:Tint="1"/>"#), Err(XmpError::MalformedXml)));
}

fn attr(n: &str, v: &str) -> XmlAttribute {
    XmlAttribute { name: n.to_string(), value: v.to_string() }
}

#[test]
fn non_element_nodes_ignored() {
    let nodes = vec![
        XmlNode { is_element: true, attributes: vec![attr("Tint", "1")] },
        XmlNode { is_element: false, attributes: vec![attr("Tint", "9"), attr("HasCrop", "true")] },
        XmlNode { is_element: true, attributes: vec![attr("Vibrance", "+4")] },
    ];
    let s = settings_from_nodes(&nodes);
    assert_eq!(get(&s, XmpField::Tint).as_deref(), Some("1"));
    assert_eq!(get(&s, XmpField::Vibrance).as_deref(), Some("4"));
    assert!(!s.has_crop());
}

#[test]
fn distinct_attributes_commute() {
    let a = vec![XmlNode { is_element: true, attributes: vec![attr("Tint", "1"), attr("HasCrop", "true")] }];
    let b = vec![XmlNode { is_element: true, attributes: vec![attr("HasCrop", "true"), attr("Tint", "1")] }];
    let (a, b) = (settings_from_nodes(&a), settings_from_nodes(&b));
    assert_eq!(get(&a, XmpField::Tint), get(&b, XmpField::Tint));
    assert_eq!(a.has_crop(), b.has_crop());
}

#[test]
fn attribute_names() {
    assert_eq!(field_for("Exposure2012"), Some(XmpField::Exposure));
    assert_eq!(field_for("CropAngle"), Some(XmpField::CropAngle));
    assert_eq!(field_for("exposure2012"), None);
    assert_eq!(field_for("HasCrop"), None);
}

#[test]
fn sidecar_with_full_name_first() {
    let found = find_sidecar("shots/a.ARW", |p: &str| p == "shots/a.ARW.xmp" || p == "shots/a.xmp");
    assert_eq!(found.as_deref(), Some("shots/a.ARW.xmp"));
}

#[test]
fn sidecar_with_replaced_extension() {
    let found = find_sidecar("shots/a.ARW", |p: &str| p == "shots/a.xmp");
    assert_eq!(found.as_deref(), Some("shots/a.xmp"));
}

#[test]
fn no_sidecar() {
    let mut asked: Vec<String> = Vec::new();
    let cell = std::cell::RefCell::new(&mut asked);
    let found = find_sidecar("a.dng", |p: &str| {
        cell.borrow_mut().push(p.to_string());
        false
    });
    assert_eq!(found, None);
    assert_eq!(asked, vec!["a.dng.xmp".to_string(), "a.xmp".to_string()]);
}
