use document::{Cursor, Document, Element, Outcome, ParseError, Parser, PrefixedName, QName, Range, XmlParseExt};

fn full_parse(xml: &str) -> Result<Document, ParseError> {
    Parser::new().parse(xml)
}

fn quick_parse(xml: &str) -> Document {
    full_parse(xml).ok().expect("Failed to parse the XML string")
}

fn top(doc: &Document) -> &Element {
    doc.children()[0].element().unwrap()
}

fn local(name: &str) -> QName {
    QName { namespace_uri: None, local_part: name.as_bytes().to_vec() }
}

fn qualified(uri: &str, name: &str) -> QName {
    QName { namespace_uri: Some(uri.as_bytes().to_vec()), local_part: name.as_bytes().to_vec() }
}

fn err_at(offset: usize) -> Result<Document, ParseError> {
    Err(ParseError::Failure { offset })
}

#[test]
fn a_document_with_a_prolog() {
    let doc = quick_parse("<?xml version='1.0' ?><hello />");
    let top = top(&doc);

    assert_eq!(top.name(), &local("hello"));
}

#[test]
fn a_document_with_a_prolog_with_double_quotes() {
    let doc = quick_parse("<?xml version=\"1.0\" ?><hello />");
    let top = top(&doc);

    assert_eq!(top.name(), &local("hello"));
}

#[test]
fn a_document_with_a_single_element() {
    let doc = quick_parse("<hello />");
    let top = top(&doc);

    assert_eq!(top.name(), &local("hello"));
}

#[test]
fn an_element_with_a_namespace() {
    let doc = quick_parse("<ns:hello xmlns:ns='namespace'/>");
    let top = top(&doc);

    assert_eq!(top.preferred_prefix(), &Some(b"ns".to_vec()));
    assert_eq!(top.name(), &qualified("namespace", "hello"));
}

#[test]
fn an_element_with_an_attribute() {
    let doc = quick_parse("<hello scope='world'/>");
    let top = top(&doc);

    assert_eq!(top.attribute_value(b"scope").unwrap().as_slice(), b"world");
}

#[test]
fn an_element_with_an_attribute_using_double_quotes() {
    let doc = quick_parse("<hello scope=\"world\"/>");
    let top = top(&doc);

    assert_eq!(top.attribute_value(b"scope").unwrap().as_slice(), b"world");
}

#[test]
fn an_element_with_multiple_attributes() {
    let doc = quick_parse("<hello scope='world' happy='true'/>");
    let top = top(&doc);

    assert_eq!(top.attribute_value(b"scope").unwrap().as_slice(), b"world");
    assert_eq!(top.attribute_value(b"happy").unwrap().as_slice(), b"true");
}

#[test]
fn an_attribute_with_a_namespace() {
    let doc = quick_parse("<hello ns:a='b' xmlns:ns='namespace'/>");
    let top = top(&doc);

    let attr = top.attribute(Some(b"namespace"), b"a").unwrap();

    assert_eq!(attr.preferred_prefix(), &Some(b"ns".to_vec()));
    assert_eq!(attr.value().as_slice(), b"b");
}

#[test]
fn an_attribute_with_references() {
    let doc = quick_parse("<log msg='I &lt;3 math' />");
    let top = top(&doc);

    assert_eq!(top.attribute_value(b"msg").unwrap().as_slice(), b"I <3 math");
}

#[test]
fn an_element_that_is_not_self_closing() {
    let doc = quick_parse("<hello></hello>");
    let top = top(&doc);

    assert_eq!(top.name(), &local("hello"));
}

#[test]
fn nested_elements() {
    let doc = quick_parse("<hello><world/></hello>");
    let hello = top(&doc);
    let world = hello.children()[0].element().unwrap();

    assert_eq!(world.name(), &local("world"));
}

#[test]
fn multiply_nested_elements() {
    let doc = quick_parse("<hello><awesome><world/></awesome></hello>");
    let hello = top(&doc);
    let awesome = hello.children()[0].element().unwrap();
    let world = awesome.children()[0].element().unwrap();

    assert_eq!(world.name(), &local("world"));
}

#[test]
fn nested_elements_with_namespaces() {
    let doc = quick_parse("<ns1:hello xmlns:ns1='outer'><ns2:world xmlns:ns2='inner'/></ns1:hello>");
    let hello = top(&doc);
    let world = hello.children()[0].element().unwrap();

    assert_eq!(world.name(), &qualified("inner", "world"));
}

#[test]
fn nested_elements_with_inherited_namespaces() {
    let doc = quick_parse("<ns1:hello xmlns:ns1='outer'><ns1:world/></ns1:hello>");
    let hello = top(&doc);
    let world = hello.children()[0].element().unwrap();

    assert_eq!(world.preferred_prefix(), &Some(b"ns1".to_vec()));
    assert_eq!(world.name(), &qualified("outer", "world"));
}

#[test]
fn nested_elements_with_attributes() {
    let doc = quick_parse("<hello><world name='Earth'/></hello>");
    let hello = top(&doc);
    let world = hello.children()[0].element().unwrap();

    assert_eq!(world.attribute_value(b"name").unwrap().as_slice(), b"Earth");
}

#[test]
fn nested_elements_with_attributes_with_inherited_namespaces() {
    let doc = quick_parse("<hello xmlns:ns1='outer'><world ns1:name='Earth'/></hello>");
    let hello = top(&doc);
    let world = hello.children()[0].element().unwrap();

    let attr = world.attribute(Some(b"outer"), b"name").unwrap();

    assert_eq!(attr.preferred_prefix(), &Some(b"ns1".to_vec()));
    assert_eq!(attr.value().as_slice(), b"Earth");
}

#[test]
fn element_with_text() {
    let doc = quick_parse("<hello>world</hello>");
    let hello = top(&doc);
    let text = hello.children()[0].text().unwrap();

    assert_eq!(text.as_slice(), b"world");
}

#[test]
fn element_with_cdata() {
    let doc = quick_parse("<words><![CDATA[I have & and < !]]></words>");
    let words = top(&doc);
    let text = words.children()[0].text().unwrap();

    assert_eq!(text.as_slice(), b"I have & and < !");
}

#[test]
fn element_with_comment() {
    let doc = quick_parse("<hello><!-- A comment --></hello>");
    let words = top(&doc);
    let comment = words.children()[0].comment().unwrap();

    assert_eq!(comment.as_slice(), b" A comment ");
}

#[test]
fn comment_before_top_element() {
    let doc = quick_parse("<!-- A comment --><hello />");
    let comment = doc.children()[0].comment().unwrap();

    assert_eq!(comment.as_slice(), b" A comment ");
}

#[test]
fn multiple_comments_before_top_element() {
    let xml = r"
<!--Comment 1-->
<!--Comment 2-->
<hello />";
    let doc = quick_parse(xml);
    let comment1 = doc.children()[0].comment().unwrap();
    let comment2 = doc.children()[1].comment().unwrap();

    assert_eq!(comment1.as_slice(), b"Comment 1");
    assert_eq!(comment2.as_slice(), b"Comment 2");
}

#[test]
fn multiple_comments_after_top_element() {
    let xml = r"
<hello />
<!--Comment 1-->
<!--Comment 2-->";
    let doc = quick_parse(xml);
    let comment1 = doc.children()[1].comment().unwrap();
    let comment2 = doc.children()[2].comment().unwrap();

    assert_eq!(comment1.as_slice(), b"Comment 1");
    assert_eq!(comment2.as_slice(), b"Comment 2");
}

#[test]
fn element_with_processing_instruction() {
    let doc = quick_parse("<hello><?device?></hello>");
    let hello = top(&doc);
    let pi = hello.children()[0].processing_instruction().unwrap();

    assert_eq!(pi.0.as_slice(), b"device");
    assert_eq!(pi.1, &None);
}

#[test]
fn top_level_processing_instructions() {
    let xml = r"
<?output printer?>
<hello />
<?validated?>";

    let doc = quick_parse(xml);
    let pi1 = doc.children()[0].processing_instruction().unwrap();
    let pi2 = doc.children()[2].processing_instruction().unwrap();

    assert_eq!(pi1.0.as_slice(), b"output");
    assert_eq!(pi1.1.as_ref().unwrap().as_slice(), b"printer");

    assert_eq!(pi2.0.as_slice(), b"validated");
    assert_eq!(pi2.1, &None);
}

#[test]
fn element_with_decimal_char_reference() {
    let doc = quick_parse("<math>2 &#62; 1</math>");
    let math = top(&doc);
    let text1 = math.children()[0].text().unwrap();
    let text2 = math.children()[1].text().unwrap();
    let text3 = math.children()[2].text().unwrap();

    assert_eq!(text1.as_slice(), b"2 ");
    assert_eq!(text2.as_slice(), b">");
    assert_eq!(text3.as_slice(), b" 1");
}

#[test]
fn element_with_hexidecimal_char_reference() {
    let doc = quick_parse("<math>1 &#x3c; 2</math>");
    let math = top(&doc);
    let text1 = math.children()[0].text().unwrap();
    let text2 = math.children()[1].text().unwrap();
    let text3 = math.children()[2].text().unwrap();

    assert_eq!(text1.as_slice(), b"1 ");
    assert_eq!(text2.as_slice(), b"<");
    assert_eq!(text3.as_slice(), b" 2");
}

#[test]
fn element_with_entity_reference() {
    let doc = quick_parse("<math>I &lt;3 math</math>");
    let math = top(&doc);
    let text1 = math.children()[0].text().unwrap();
    let text2 = math.children()[1].text().unwrap();
    let text3 = math.children()[2].text().unwrap();

    assert_eq!(text1.as_slice(), b"I ");
    assert_eq!(text2.as_slice(), b"<");
    assert_eq!(text3.as_slice(), b"3 math");
}

#[test]
fn element_with_mixed_children() {
    let doc = quick_parse("<hello>to <!--fixme--><a><![CDATA[the]]></a><?world?></hello>");
    let hello = top(&doc);

    let text = hello.children()[0].text().unwrap();
    let comment = hello.children()[1].comment().unwrap();
    let element = hello.children()[2].element().unwrap();
    let pi = hello.children()[3].processing_instruction().unwrap();

    assert_eq!(text.as_slice(), b"to ");
    assert_eq!(comment.as_slice(), b"fixme");
    assert_eq!(element.name(), &local("a"));
    assert_eq!(pi.0.as_slice(), b"world");
}

#[test]
fn failure_no_open_brace() {
    let r = full_parse("hi />");

    assert_eq!(r, err_at(0));
}

#[test]
fn failure_unclosed_tag() {
    let r = full_parse("<hi");

    assert_eq!(r, err_at(3));
}

#[test]
fn failure_unexpected_space() {
    let r = full_parse("<hi / >");

    assert_eq!(r, err_at(4));
}

#[test]
fn failure_attribute_without_open_quote() {
    let r = full_parse("<hi oops=value' />");
    assert_eq!(r, err_at(9));
}

#[test]
fn failure_attribute_without_close_quote() {
    let r = full_parse("<hi oops='value />");

    assert_eq!(r, err_at(18));
}

#[test]
fn failure_unclosed_attribute_and_tag() {
    let r = full_parse("<hi oops='value");

    assert_eq!(r, err_at(15));
}

#[test]
fn failure_nested_unclosed_tag() {
    let r = full_parse("<hi><oops</hi>");

    assert_eq!(r, err_at(9));
}

#[test]
fn failure_nested_unexpected_space() {
    let r = full_parse("<hi><oops / ></hi>");

    assert_eq!(r, err_at(10));
}

#[test]
fn failure_malformed_entity_reference() {
    let r = full_parse("<hi>Entity: &;</hi>");

    assert_eq!(r, err_at(13));
}

#[test]
fn failure_nested_malformed_entity_reference() {
    let r = full_parse("<hi><bye>Entity: &;</bye></hi>");

    assert_eq!(r, err_at(18));
}

#[test]
fn failure_nested_attribute_without_open_quote() {
    let r = full_parse("<hi><bye oops=value' /></hi>");
    assert_eq!(r, err_at(14));
}

#[test]
fn failure_nested_attribute_without_close_quote() {
    let r = full_parse("<hi><bye oops='value /></hi>");

    assert_eq!(r, err_at(23));
}

#[test]
fn failure_nested_unclosed_attribute_and_tag() {
    let r = full_parse("<hi><bye oops='value</hi>");

    assert_eq!(r, err_at(20));
}

#[test]
fn minimal_document_has_root_and_no_children() {
    let doc = quick_parse("<a/>");
    let root = top(&doc);

    assert_eq!(root.name(), &local("a"));
    assert_eq!(root.children().len(), 0);
}

#[test]
fn quote_styles_give_identical_attribute_values() {
    let single = quick_parse("<hello scope='world'/>");
    let double = quick_parse("<hello scope=\"world\"/>");

    assert_eq!(
        top(&single).attribute_value(b"scope").unwrap(),
        top(&double).attribute_value(b"scope").unwrap()
    );
}

#[test]
fn parsing_twice_gives_structurally_equal_documents() {
    let xml = "<?xml version='1.0' ?><ns:a xmlns:ns='u' x='1'>text<!--c--><b/>&#62;</ns:a>";
    let first = quick_parse(xml);
    let second = quick_parse(xml);

    assert_eq!(first, second);
}

#[test]
fn shadowed_namespace_prefix_uses_the_inner_binding() {
    let doc = quick_parse("<ns1:hello xmlns:ns1='outer'><ns1:world xmlns:ns1='inner'/></ns1:hello>");
    let hello = top(&doc);
    let world = hello.children()[0].element().unwrap();

    assert_eq!(world.name(), &qualified("inner", "world"));
}

#[test]
fn unknown_entity_is_a_fatal_encoding_error() {
    let r = full_parse("<hi>&bogus;</hi>");

    assert_eq!(r, Err(ParseError::UnknownEntity));
}

#[test]
fn out_of_range_character_reference_is_fatal() {
    let r = full_parse("<hi>&#x110000;</hi>");

    assert_eq!(r, Err(ParseError::InvalidCharacterReference));
}

#[test]
fn surrogate_character_reference_is_fatal() {
    let r = full_parse("<hi>&#xD800;</hi>");

    assert_eq!(r, Err(ParseError::InvalidCharacterReference));
}

#[test]
fn enormous_character_reference_is_fatal() {
    let r = full_parse("<hi>&#99999999999999999999;</hi>");

    assert_eq!(r, Err(ParseError::InvalidCharacterReference));
}

#[test]
fn multi_byte_character_reference_decodes_to_encoded_bytes() {
    let doc = quick_parse("<hi>&#xE9;</hi>");
    let hi = top(&doc);
    let text = hi.children()[0].text().unwrap();

    assert_eq!(text.as_slice(), "\u{e9}".as_bytes());
}

#[test]
fn mismatched_end_tag_is_a_fatal_error() {
    let r = full_parse("<a></b>");

    assert_eq!(r, Err(ParseError::MismatchedElementEndTag));
}

#[test]
fn reserved_processing_instruction_target_is_fatal() {
    let r = full_parse("<a><?xMl?></a>");

    assert_eq!(r, Err(ParseError::ReservedProcessingInstructionTarget));
}

#[test]
fn undeclared_namespace_prefix_is_fatal() {
    let r = full_parse("<x:a/>");

    assert_eq!(r, Err(ParseError::UnknownNamespacePrefix));
}

#[test]
fn undeclared_attribute_prefix_is_fatal() {
    let r = full_parse("<a x:b='1'/>");

    assert_eq!(r, Err(ParseError::UnknownNamespacePrefix));
}

#[test]
fn empty_input_fails_at_the_start() {
    let r = full_parse("");

    assert_eq!(r, err_at(0));
}

#[test]
fn attribute_values_may_mix_references_and_literals() {
    let doc = quick_parse("<a m='&quot;x&amp;y&gt;&#48;&apos;'/>");
    let a = top(&doc);

    assert_eq!(a.attribute_value(b"m").unwrap().as_slice(), b"\"x&y>0'");
}

#[test]
fn most_interesting_failure_offset_is_reported() {
    // Inside `<hi>`, the reference alternatives fail at different offsets:
    // the entity name at 5, the decimal digits at 6, the `&#x` opening at 4.
    // The reported failure is the furthest of them.
    let r = full_parse("<hi>&#zz;</hi>");

    assert_eq!(r, err_at(6));
}

#[test]
fn prefixed_names_split_on_the_colon() {
    let c = Cursor { offset: 0 };
    match c.consume_prefixed_name(b"ns:hello rest") {
        Outcome::Success { value, next } => {
            assert_eq!(
                value,
                PrefixedName {
                    prefix: Some(Range { start: 0, end: 2 }),
                    local_part: Range { start: 3, end: 8 },
                }
            );
            assert_eq!(next.offset, 8);
        }
        _ => panic!("expected a prefixed name"),
    }
}

#[test]
fn a_colon_without_a_following_name_stays_unconsumed() {
    let c = Cursor { offset: 0 };
    match c.consume_prefixed_name(b"hello: rest") {
        Outcome::Success { value, next } => {
            assert_eq!(
                value,
                PrefixedName { prefix: None, local_part: Range { start: 0, end: 5 } }
            );
            assert_eq!(next.offset, 5);
        }
        _ => panic!("expected a bare name"),
    }
}
