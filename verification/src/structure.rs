//! The part tree that a server reports for a message, and the attachments
//! that it declares.

use crate::client::{decoded_file_name, Attachment, AttachmentView, attachment_views};
use crate::error::SearchError;
use crate::text::{decimal_u32, parse_u32, same_text};
use vstd::prelude::*;

verus! {

/// One parameter of a content type or of a disposition.
#[derive(Debug)]
pub struct Param {
    pub name: String,
    pub value: String,
}

/// How a part asks to be presented, with the parameters that it gave, if it
/// gave a list of them.
#[derive(Debug)]
pub struct ContentDisposition {
    pub ty: String,
    pub params: Option<Vec<Param>>,
}

/// What every kind of part states.
#[derive(Debug)]
pub struct BodyContentCommon {
    pub ty: String,
    pub subtype: String,
    pub disposition: Option<ContentDisposition>,
}

/// A node of the part tree. A multipart node holds its parts; the other
/// three kinds are leaves.
#[derive(Debug)]
pub enum BodyStructure {
    Basic { common: BodyContentCommon },
    Text { common: BodyContentCommon },
    Message { common: BodyContentCommon },
    Multipart { common: BodyContentCommon, bodies: Vec<BodyStructure> },
}

/// The parameters by which `part` declares an attachment: the part is of
/// the basic kind, its disposition is `attachment`, and that came with at
/// least one parameter. `None` for any other part.
pub open spec fn attachment_params(part: BodyStructure) -> Option<Seq<Param>> {
    match part {
        BodyStructure::Basic { common } => match common.disposition {
            Some(d) => match d.params {
                Some(ps) => if d.ty@ == "attachment"@ && ps@.len() > 0 {
                    Some(ps@)
                } else {
                    None
                },
                None => None,
            },
            None => None,
        },
        _ => None,
    }
}

/// The attachment that the parameters `params` describe: the first gives
/// the file name, the second, if there is one, the size. It is an error for
/// the second not to write an unsigned number.
pub open spec fn described_attachment(params: Seq<Param>) -> Result<AttachmentView, SearchError> {
    let name = decoded_file_name(params[0].value@);
    if params.len() < 2 {
        Ok(AttachmentView { name, size: None })
    } else {
        match decimal_u32(params[1].value@) {
            Some(n) => Ok(AttachmentView { name, size: Some(n) }),
            None => Err(SearchError::InvalidAttachmentMetadata),
        }
    }
}

/// The attachments that `parts` declare, in the order of the parts; the
/// error, if one of them gives an error.
pub open spec fn declared_attachments(parts: Seq<BodyStructure>) -> Result<
    Seq<AttachmentView>,
    SearchError,
>
    decreases parts.len(),
{
    if parts.len() == 0 {
        Ok(Seq::empty())
    } else {
        match declared_attachments(parts.drop_last()) {
            Err(e) => Err(e),
            Ok(before) => match attachment_params(parts.last()) {
                None => Ok(before),
                Some(params) => match described_attachment(params) {
                    Ok(a) => Ok(before.push(a)),
                    Err(e) => Err(e),
                },
            },
        }
    }
}

/// The attachments of a message with the part tree `tree`: those that the
/// parts directly under a multipart top declare; none for any other top.
pub open spec fn extracted(tree: BodyStructure) -> Result<Seq<AttachmentView>, SearchError> {
    match tree {
        BodyStructure::Multipart { bodies, .. } => declared_attachments(bodies@),
        _ => Ok(Seq::empty()),
    }
}

/// The parameters by which `part` declares an attachment, if it does.
pub fn attachment_params_of(part: &BodyStructure) -> (r: Option<&Vec<Param>>)
    ensures
        r is Some <==> attachment_params(*part) is Some,
        r matches Some(ps) ==> ps@ == attachment_params(*part)->0,
{
    match part {
        BodyStructure::Basic { common } => match &common.disposition {
            Some(d) => match &d.params {
                Some(ps) => if same_text(d.ty.as_str(), "attachment") && ps.len() > 0 {
                    Some(ps)
                } else {
                    None
                },
                None => None,
            },
            None => None,
        },
        _ => None,
    }
}

/// Lists the attachments that a message with the part tree `tree` declares.
pub fn extract(tree: &BodyStructure) -> (r: Result<Vec<Attachment>, SearchError>)
    ensures
        r is Ok <==> extracted(*tree) is Ok,
        r matches Ok(list) ==> attachment_views(list@) == extracted(*tree)->Ok_0,
        r matches Err(e) ==> e == SearchError::InvalidAttachmentMetadata && extracted(*tree)
            == Err::<Seq<AttachmentView>, SearchError>(e),
        !(tree is Multipart) ==> r is Ok && r->Ok_0@.len() == 0,
{
    let mut list: Vec<Attachment> = Vec::new();
    match tree {
        BodyStructure::Multipart { bodies, .. } => {
            let mut at: usize = 0;
            assert(attachment_views(list@) =~= Seq::empty());
            while at < bodies.len()
                invariant
                    at <= bodies.len(),
                    extracted(*tree) == declared_attachments(bodies@),
                    declared_attachments(bodies@.take(at as int)) == Ok::<
                        Seq<AttachmentView>,
                        SearchError,
                    >(attachment_views(list@)),
                decreases bodies.len() - at,
            {
                assert(bodies@.take(at + 1).drop_last() =~= bodies@.take(at as int));
                let ghost before = attachment_views(list@);
                match attachment_params_of(&bodies[at]) {
                    None => {},
                    Some(params) => {
                        let size = if params.len() < 2 {
                            None
                        } else {
                            match parse_u32(params[1].value.as_str()) {
                                Some(n) => Some(n),
                                None => {
                                    proof {
                                        assert(described_attachment(params@) is Err);
                                        assert(declared_attachments(bodies@.take(at + 1)) is Err);
                                        lemma_error_stays(bodies@, at + 1);
                                    }
                                    return Err(SearchError::InvalidAttachmentMetadata);
                                },
                            }
                        };
                        let a = Attachment::new(params[0].value.clone(), size);
                        list.push(a);
                        assert(attachment_views(list@) =~= before.push(a@));
                    },
                }
                at += 1;
            }
            assert(bodies@.take(at as int) =~= bodies@);
            Ok(list)
        },
        _ => Ok(list),
    }
}

/// Once the parts up to `n` give an error, all the parts give it.
pub proof fn lemma_error_stays(parts: Seq<BodyStructure>, n: int)
    requires
        0 <= n <= parts.len(),
        declared_attachments(parts.take(n)) is Err,
    ensures
        declared_attachments(parts) == declared_attachments(parts.take(n)),
    decreases parts.len(),
{
    if n == parts.len() {
        assert(parts.take(n) =~= parts);
    } else {
        assert(parts.drop_last().take(n) =~= parts.take(n));
        lemma_error_stays(parts.drop_last(), n);
    }
}

} // verus!
