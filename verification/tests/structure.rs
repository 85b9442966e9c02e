use mailsearch::error::SearchError;
use mailsearch::structure::{
    attachment_params_of, extract, BodyContentCommon, BodyStructure, ContentDisposition, Param,
};

fn param(name: &str, value: &str) -> Param {
    Param { name: name.to_string(), value: value.to_string() }
}

fn common(ty: &str, subtype: &str, disposition: Option<ContentDisposition>) -> BodyContentCommon {
    BodyContentCommon { ty: ty.to_string(), subtype: subtype.to_string(), disposition }
}

fn disposition(ty: &str, params: Option<Vec<Param>>) -> Option<ContentDisposition> {
    Some(ContentDisposition { ty: ty.to_string(), params })
}

fn attachment(file: &str, size: Option<&str>) -> BodyStructure {
    let mut params = vec![param("filename", file)];
    if let Some(s) = size {
        params.push(param("size", s));
    }
    BodyStructure::Basic {
        common: common("application", "octet-stream", disposition("attachment", Some(params))),
    }
}

fn text_part() -> BodyStructure {
    BodyStructure::Text { common: common("text", "plain", None) }
}

fn multipart(bodies: Vec<BodyStructure>) -> BodyStructure {
    BodyStructure::Multipart { common: common("multipart", "mixed", None), bodies }
}

#[test]
fn a_tree_that_is_not_multipart_has_no_attachments() {
    assert!(extract(&text_part()).unwrap().is_empty());
    assert!(extract(&attachment("report.pdf", Some("1024"))).unwrap().is_empty());
    let message = BodyStructure::Message { common: common("message", "rfc822", None) };
    assert!(extract(&message).unwrap().is_empty());
}

#[test]
fn a_multipart_tree_with_one_attachment_child_yields_it() {
    let tree = multipart(vec![text_part(), attachment("report.pdf", Some("1024"))]);
    let list = extract(&tree).unwrap();
    assert_eq!(list.len(), 1);
    assert_eq!(list[0].name, "report.pdf");
    assert_eq!(list[0].size, Some(1024));
}

#[test]
fn attachments_come_in_the_order_of_the_parts() {
    let tree = multipart(vec![
        attachment("b.txt", Some("2")),
        text_part(),
        attachment("a.txt", Some("1")),
        attachment("c.txt", None),
    ]);
    let list = extract(&tree).unwrap();
    let names: Vec<&str> = list.iter().map(|a| a.name.as_str()).collect();
    assert_eq!(names, vec!["b.txt", "a.txt", "c.txt"]);
    let sizes: Vec<Option<u32>> = list.iter().map(|a| a.size).collect();
    assert_eq!(sizes, vec![Some(2), Some(1), None]);
}

#[test]
fn a_size_that_is_no_number_fails_the_extraction() {
    let tree = multipart(vec![attachment("a.txt", Some("1")), attachment("b.txt", Some("big"))]);
    assert_eq!(extract(&tree).unwrap_err(), SearchError::InvalidAttachmentMetadata);
    let tree = multipart(vec![attachment("b.txt", Some("4294967296")), attachment("a.txt", Some("1"))]);
    assert_eq!(extract(&tree).unwrap_err(), SearchError::InvalidAttachmentMetadata);
    let tree = multipart(vec![attachment("b.txt", Some(""))]);
    assert_eq!(extract(&tree).unwrap_err(), SearchError::InvalidAttachmentMetadata);
}

#[test]
fn only_basic_parts_with_attachment_disposition_and_parameters_count() {
    let inline = BodyStructure::Basic {
        common: common("image", "png", disposition("inline", Some(vec![param("filename", "i.png")]))),
    };
    let upper = BodyStructure::Basic {
        common: common("image", "png", disposition("ATTACHMENT", Some(vec![param("filename", "u.png")]))),
    };
    let no_params = BodyStructure::Basic { common: common("image", "png", disposition("attachment", None)) };
    let empty_params =
        BodyStructure::Basic { common: common("image", "png", disposition("attachment", Some(vec![]))) };
    let no_disposition = BodyStructure::Basic { common: common("image", "png", None) };
    let text = BodyStructure::Text {
        common: common("text", "plain", disposition("attachment", Some(vec![param("filename", "t.txt")]))),
    };
    let message = BodyStructure::Message {
        common: common("message", "rfc822", disposition("attachment", Some(vec![param("filename", "m.eml")]))),
    };
    for part in [&inline, &upper, &no_params, &empty_params, &no_disposition, &text, &message] {
        assert!(attachment_params_of(part).is_none());
    }
    let tree = multipart(vec![inline, upper, no_params, empty_params, no_disposition, text, message]);
    assert!(extract(&tree).unwrap().is_empty());
}

#[test]
fn attachment_params_of_hands_out_the_parameters() {
    let part = attachment("a.txt", Some("5"));
    let params = attachment_params_of(&part).unwrap();
    assert_eq!(params.len(), 2);
    assert_eq!(params[0].value, "a.txt");
    assert_eq!(params[1].value, "5");
}

#[test]
fn nested_multiparts_are_not_entered() {
    let inner = multipart(vec![attachment("deep.txt", Some("1"))]);
    let tree = multipart(vec![inner, attachment("top.txt", Some("2"))]);
    let list = extract(&tree).unwrap();
    assert_eq!(list.len(), 1);
    assert_eq!(list[0].name, "top.txt");
}

#[test]
fn a_bad_size_in_a_nested_multipart_is_not_seen() {
    let inner = multipart(vec![attachment("deep.txt", Some("x"))]);
    let tree = multipart(vec![inner]);
    assert!(extract(&tree).unwrap().is_empty());
}

#[test]
fn encoded_file_names_are_resolved() {
    let tree = multipart(vec![
        attachment("=?utf-8?B?w6kucGRm?=", Some("7")),
        attachment("=?iso-8859-1?Q?r=E9sum=E9.doc?=", None),
    ]);
    let list = extract(&tree).unwrap();
    assert_eq!(list[0].name, "é.pdf");
    assert_eq!(list[0].size, Some(7));
    assert_eq!(list[1].name, "résumé.doc");
}

#[test]
fn the_size_may_carry_a_plus_sign() {
    let tree = multipart(vec![attachment("a.txt", Some("+12"))]);
    assert_eq!(extract(&tree).unwrap()[0].size, Some(12));
}

#[test]
fn an_empty_multipart_has_no_attachments() {
    assert!(extract(&multipart(vec![])).unwrap().is_empty());
}
