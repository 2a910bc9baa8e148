//! An XML document written into memory by xml_writer.
use vstd::prelude::*;

verus! {

/// The line break and indentation in front of a start tag at this depth.
#[verifier::opaque]
pub open spec fn indent(depth: nat) -> Seq<char> {
    if depth == 0 {
        Seq::empty()
    } else {
        seq!['\n'] + Seq::new(2 * depth, |i: int| ' ')
    }
}

/// The `>` that ends a start tag, where one is still open.
pub open spec fn tag_end(open: bool) -> Seq<char> {
    if open {
        ">"@
    } else {
        Seq::empty()
    }
}

/// A document being written by xml_writer into a `Vec<u8>`, with indentation on.
#[verifier::external_body]
pub struct XmlOut {
    w: xml_writer::XmlWriter<'static, Vec<u8>>,
}

/// The text that `x` has written.
pub uninterp spec fn xml_text(x: XmlOut) -> Seq<char>;

/// The names of the elements that `x` has begun and not ended, outermost first.
pub uninterp spec fn xml_open_elems(x: XmlOut) -> Seq<Seq<char>>;

/// Whether the start tag of the innermost element still waits for its `>`.
pub uninterp spec fn xml_tag_open(x: XmlOut) -> bool;

/// Relies on XmlWriter::new over an empty `Vec<u8>`: nothing written, nothing open.
#[verifier::external_body]
pub fn xml_new() -> (r: XmlOut)
    ensures
        xml_text(r) == Seq::<char>::empty(),
        xml_open_elems(r) == Seq::<Seq<char>>::empty(),
        !xml_tag_open(r),
{
    XmlOut { w: xml_writer::XmlWriter::new(Vec::new()) }
}

/// Relies on XmlWriter::dtd: writes the XML declaration. A write into a `Vec<u8>`
/// appends and does not fail.
#[verifier::external_body]
pub fn xml_dtd(x: &mut XmlOut, encoding: &str)
    ensures
        xml_text(*final(x)) == xml_text(*old(x)) + "<?xml version=\"1.0\" encoding=\""@
            + encoding@ + "\" ?>\n"@,
        xml_open_elems(*final(x)) == xml_open_elems(*old(x)),
        xml_tag_open(*final(x)) == xml_tag_open(*old(x)),
{
    let _ = x.w.dtd(encoding);
}

/// Relies on XmlWriter::begin_elem: ends an open start tag, indents by the depth,
/// and starts the tag of `name`.
#[verifier::external_body]
pub fn xml_begin(x: &mut XmlOut, name: &'static str)
    ensures
        xml_text(*final(x)) == xml_text(*old(x)) + tag_end(xml_tag_open(*old(x))) + indent(
            xml_open_elems(*old(x)).len(),
        ) + "<"@ + name@,
        xml_open_elems(*final(x)) == xml_open_elems(*old(x)).push(name@),
        xml_tag_open(*final(x)),
{
    let _ = x.w.begin_elem(name);
}

/// Relies on XmlWriter::attr: writes an attribute into the open start tag, unescaped.
/// It panics where no start tag is open.
#[verifier::external_body]
pub fn xml_attr(x: &mut XmlOut, name: &str, value: &str)
    requires
        xml_tag_open(*old(x)),
    ensures
        xml_text(*final(x)) == xml_text(*old(x)) + " "@ + name@ + "=\""@ + value@ + "\""@,
        xml_open_elems(*final(x)) == xml_open_elems(*old(x)),
        xml_tag_open(*final(x)),
{
    let _ = x.w.attr(name, value);
}

/// Relies on XmlWriter::end_elem: ends an open start tag and writes the end tag of the
/// innermost element. It panics where no element is open.
#[verifier::external_body]
pub fn xml_end(x: &mut XmlOut)
    requires
        xml_open_elems(*old(x)).len() > 0,
    ensures
        xml_text(*final(x)) == xml_text(*old(x)) + tag_end(xml_tag_open(*old(x))) + "</"@
            + xml_open_elems(*old(x)).last() + ">"@,
        xml_open_elems(*final(x)) == xml_open_elems(*old(x)).drop_last(),
        !xml_tag_open(*final(x)),
{
    let _ = x.w.end_elem();
}

/// Relies on XmlWriter::into_inner: the bytes written, the UTF-8 encoding of the text.
#[verifier::external_body]
pub fn xml_into_bytes(x: XmlOut) -> (r: Vec<u8>)
    ensures
        r@ == vstd::utf8::encode_utf8(xml_text(x)),
{
    x.w.into_inner()
}

} // verus!
