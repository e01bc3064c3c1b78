//! The XML elements that a mask document is made of, and what is known of them.

use vstd::prelude::*;
use vstd::utf8::{encode_utf8, valid_utf8};
use xml_builder::{XMLBuilder, XMLElement, XMLError, XMLVersion};

verus! {

/// What an XML element holds: its name, its attributes in the order in which
/// they were added, whether it asks for its attributes to be written sorted
/// or unsorted (`None` where it leaves that to the document), its text if it
/// has one, and its children in order.
pub struct ElementModel {
    pub name: Seq<char>,
    pub attributes: Seq<(Seq<char>, Seq<char>)>,
    pub sort_attributes: Option<bool>,
    pub text: Option<Seq<char>>,
    pub children: Seq<ElementModel>,
}

impl ElementModel {
    /// An element with a name and nothing else, which leaves the order of
    /// its attributes to the document.
    pub open spec fn empty(name: Seq<char>) -> ElementModel {
        ElementModel {
            name,
            attributes: Seq::empty(),
            sort_attributes: None,
            text: None,
            children: Seq::empty(),
        }
    }

    /// This element with one more attribute at the end.
    pub open spec fn with_attribute(self, name: Seq<char>, value: Seq<char>) -> ElementModel {
        ElementModel { attributes: self.attributes.push((name, value)), ..self }
    }

    /// This element with one more child at the end.
    pub open spec fn with_child(self, child: ElementModel) -> ElementModel {
        ElementModel { children: self.children.push(child), ..self }
    }

    /// This element with `text` as its content.
    pub open spec fn with_text(self, text: Seq<char>) -> ElementModel {
        ElementModel { text: Some(text), ..self }
    }
}

#[verifier::external_type_specification]
#[verifier::external_body]
pub struct ExXMLElement(XMLElement);

#[verifier::external_type_specification]
#[verifier::external_body]
pub struct ExXMLError(XMLError);

/// What an element of `xml_builder` holds, its children included. The
/// attribute values are those handed to `add_attribute`, before the crate
/// escapes them.
pub uninterp spec fn element_model(e: XMLElement) -> ElementModel;

/// The bytes that `xml_builder` writes into an empty byte vector for a
/// document of XML version 1.1 with the given encoding label and root
/// element, with the crate's default settings otherwise.
pub uninterp spec fn document_bytes(encoding: Seq<char>, root: ElementModel) -> Seq<u8>;

/// The declaration that begins a document of XML version 1.1 with the given
/// encoding label.
pub open spec fn declaration_text(encoding: Seq<char>) -> Seq<char> {
    "<?xml version=\"1.1\" encoding=\""@ + encoding + "\"?>"@
}

/// The bytes of the declaration, as they are written.
pub open spec fn declaration_bytes(encoding: Seq<char>) -> Seq<u8> {
    encode_utf8(declaration_text(encoding))
}

/// `XMLElement::new`: the new element has the given name, no attribute, no
/// content and no wish on the order of its attributes.
#[verifier::external_body]
pub(crate) fn new_element(name: &str) -> (e: XMLElement)
    ensures
        element_model(e) == ElementModel::empty(name@),
{
    XMLElement::new(name)
}

/// `XMLElement::add_attribute`: the pair is added behind the attributes that
/// are there; all else stays.
#[verifier::external_body]
pub(crate) fn add_attribute(e: &mut XMLElement, name: &str, value: &str)
    ensures
        element_model(*final(e)) == element_model(*old(e)).with_attribute(name@, value@),
{
    e.add_attribute(name, value)
}

/// `XMLElement::add_child`: the child is added behind the children that are
/// there, unless the element holds text; then the call fails and the element
/// stays as it was.
#[verifier::external_body]
pub(crate) fn add_child(e: &mut XMLElement, child: XMLElement) -> (r: Result<(), XMLError>)
    ensures
        r is Ok <==> element_model(*old(e)).text is None,
        r is Ok ==> element_model(*final(e)) == element_model(*old(e)).with_child(
            element_model(child),
        ),
        r is Err ==> element_model(*final(e)) == element_model(*old(e)),
{
    e.add_child(child)
}

/// `XMLElement::add_text`: the text becomes the content of an element that has
/// neither text nor children; on any other element the call fails and the
/// element stays as it was.
#[verifier::external_body]
pub(crate) fn add_text(e: &mut XMLElement, text: String) -> (r: Result<(), XMLError>)
    ensures
        r is Ok <==> element_model(*old(e)).text is None && element_model(*old(e)).children.len()
            == 0,
        r is Ok ==> element_model(*final(e)) == element_model(*old(e)).with_text(text@),
        r is Err ==> element_model(*final(e)) == element_model(*old(e)),
{
    e.add_text(text)
}

/// `XMLBuilder::build`, `XML::set_root_element` and `XML::generate`: a
/// document of version 1.1 with the given encoding label and root, written to
/// an empty byte vector. Writing fails only where the writer does, and a
/// vector takes every write. The bytes depend on the label and the root
/// alone. The declaration is written first, as text, and all that follows is
/// written as text too. Nothing else is claimed of what the bytes are.
#[verifier::external_body]
pub(crate) fn generate_document(encoding: &str, root: XMLElement) -> (r: Result<
    Vec<u8>,
    XMLError,
>)
    ensures
        r is Ok,
        r matches Ok(bytes) ==> bytes@ == document_bytes(encoding@, element_model(root)),
        r matches Ok(bytes) ==> declaration_bytes(encoding@).is_prefix_of(bytes@),
        r matches Ok(bytes) ==> valid_utf8(bytes@.skip(declaration_bytes(encoding@).len() as int)),
{
    let mut xml = XMLBuilder::new().version(XMLVersion::XML1_1).encoding(encoding.into()).build();
    xml.set_root_element(root);
    let mut out = Vec::<u8>::new();
    xml.generate(&mut out)?;
    Ok(out)
}

} // verus!
