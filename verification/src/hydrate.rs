//! The hydrator: the event consumer that grows the document tree.
//!
//! It stages each element's name and attributes until the whole attribute
//! list is known — an element may declare the very prefix its own name uses —
//! then resolves prefixes against the element's own declarations first and
//! the stack of enclosing elements innermost-first, and appends finished
//! nodes to their parent, or to the document when no element is open.

use vstd::prelude::*;

use crate::cursor::{bytes_of, Range};
use crate::decode::{
    bytes_equal, decode_reference, range_bytes, spec_decode_reference,
};
use crate::dom::{
    element_model, node_model, nodes_model, opt_bytes_model, Attribute, AttributeModel, Document,
    DocumentModel, Element, ElementModel, Namespace, NamespaceModel, Node, NodeModel, QName,
    QNameModel,
};
use crate::error::ParseError;
use crate::events::{AttributeValue, Event, Reference};
use crate::tokens::PrefixedName;

verus! {

broadcast use {vstd::std_specs::vec::group_vec_axioms, vstd::seq::group_seq_axioms,
    crate::seqext::lemma_seq_concat_empty, crate::seqext::lemma_seq_push_is_concat,
    crate::seqext::lemma_seq_concat_assoc};

/// An attribute seen in events but not yet resolved: its written name and
/// its value fragments in order.
pub struct DeferredAttribute {
    pub name: PrefixedName,
    pub values: Vec<AttributeValue>,
}

pub struct DeferredAttributeModel {
    pub name: PrefixedName,
    pub values: Seq<AttributeValue>,
}

impl View for DeferredAttribute {
    type V = DeferredAttributeModel;

    open spec fn view(&self) -> DeferredAttributeModel {
        DeferredAttributeModel { name: self.name, values: self.values@ }
    }
}

/// An element under construction: the name it was written with (for the
/// closing-tag check) and the node grown so far.
pub struct Frame {
    pub staged: PrefixedName,
    pub element: Element,
}

pub struct FrameModel {
    pub staged: PrefixedName,
    pub element: ElementModel,
}

impl View for Frame {
    type V = FrameModel;

    open spec fn view(&self) -> FrameModel {
        FrameModel { staged: self.staged, element: element_model(self.element) }
    }
}

pub open spec fn frames_model(s: Seq<Frame>) -> Seq<FrameModel> {
    Seq::new(s.len(), |i: int| s[i]@)
}

pub open spec fn deferred_model(s: Seq<DeferredAttribute>) -> Seq<DeferredAttributeModel> {
    Seq::new(s.len(), |i: int| s[i]@)
}

/// The hydrator's state: the stack of open elements, the staged name of the
/// element whose attributes are being read, the deferred attributes, and
/// the finished top-level nodes.
pub struct SaxHydrator {
    pub stack: Vec<Frame>,
    pub element: Option<PrefixedName>,
    pub attributes: Vec<DeferredAttribute>,
    pub roots: Vec<Node>,
}

pub struct HydratorModel {
    pub stack: Seq<FrameModel>,
    pub element: Option<PrefixedName>,
    pub attributes: Seq<DeferredAttributeModel>,
    pub roots: Seq<NodeModel>,
}

impl View for SaxHydrator {
    type V = HydratorModel;

    open spec fn view(&self) -> HydratorModel {
        HydratorModel {
            stack: frames_model(self.stack@),
            element: self.element,
            attributes: deferred_model(self.attributes@),
            roots: nodes_model(self.roots@),
        }
    }
}

/// The empty state a parse starts from.
pub open spec fn initial_state() -> HydratorModel {
    HydratorModel {
        stack: Seq::empty(),
        element: None,
        attributes: Seq::empty(),
        roots: Seq::empty(),
    }
}

/// The bytes of a name's prefix, when it has one.
pub open spec fn spec_prefix_bytes(input: Seq<u8>, pn: PrefixedName) -> Option<Seq<u8>> {
    match pn.prefix {
        Some(r) => Some(bytes_of(input, r)),
        None => None,
    }
}

/// The bytes of a name's local part.
pub open spec fn spec_local_bytes(input: Seq<u8>, pn: PrefixedName) -> Seq<u8> {
    bytes_of(input, pn.local_part)
}

/// Two written names are the same: same prefix bytes (or both none) and
/// same local bytes.
pub open spec fn names_match(input: Seq<u8>, a: PrefixedName, b: PrefixedName) -> bool {
    spec_prefix_bytes(input, a) == spec_prefix_bytes(input, b) && spec_local_bytes(input, a)
        == spec_local_bytes(input, b)
}

pub open spec fn xmlns_name() -> Seq<u8> {
    seq![('x' as u8), ('m' as u8), ('l' as u8), ('n' as u8), ('s' as u8)]
}

/// The attribute declares a namespace: its prefix is exactly `xmlns`.
pub open spec fn is_xmlns(input: Seq<u8>, pn: PrefixedName) -> bool {
    spec_prefix_bytes(input, pn) == Some(xmlns_name())
}

/// The URI bound to `p` among one element's declarations; when the element
/// declared the prefix twice, the later declaration wins.
pub open spec fn lookup_ns(nss: Seq<NamespaceModel>, p: Seq<u8>) -> Option<Seq<u8>>
    decreases nss.len(),
{
    if nss.len() == 0 {
        None
    } else if nss.last().prefix == p {
        Some(nss.last().uri)
    } else {
        lookup_ns(nss.drop_last(), p)
    }
}

/// The URI bound to `p` by the nearest enclosing element: the stack is
/// searched innermost-first.
pub open spec fn lookup_stack(stack: Seq<FrameModel>, p: Seq<u8>) -> Option<Seq<u8>>
    decreases stack.len(),
{
    if stack.len() == 0 {
        None
    } else {
        match lookup_ns(stack.last().element.namespaces, p) {
            Some(u) => Some(u),
            None => lookup_stack(stack.drop_last(), p),
        }
    }
}

/// Prefix resolution: the element's own fresh declarations are consulted
/// first, then the enclosing elements, innermost binding first.
pub open spec fn resolve_prefix(local: Seq<NamespaceModel>, stack: Seq<FrameModel>, p: Seq<u8>)
    -> Option<Seq<u8>> {
    match lookup_ns(local, p) {
        Some(u) => Some(u),
        None => lookup_stack(stack, p),
    }
}

/// Namespace inheritance: an element that does not itself declare a prefix
/// resolves it exactly as the enclosing elements do, and an enclosing
/// element that does not declare it passes the question outward unchanged.
pub proof fn lemma_namespace_inheritance(
    local: Seq<NamespaceModel>,
    stack: Seq<FrameModel>,
    f: FrameModel,
    p: Seq<u8>,
)
    requires
        lookup_ns(local, p) is None,
    ensures
        resolve_prefix(local, stack, p) == lookup_stack(stack, p),
        lookup_ns(f.element.namespaces, p) is None ==> lookup_stack(stack.push(f), p)
            == lookup_stack(stack, p),
{
    assert(stack.push(f).drop_last() =~= stack);
    assert(stack.push(f).last() == f);
}

/// Namespace shadowing: a declaration on the element itself wins over every
/// enclosing binding, and an inner element's declaration wins over an outer
/// element's binding of the same prefix.
pub proof fn lemma_namespace_shadowing(
    local: Seq<NamespaceModel>,
    stack: Seq<FrameModel>,
    f: FrameModel,
    p: Seq<u8>,
    u: Seq<u8>,
)
    ensures
        lookup_ns(local, p) == Some(u) ==> resolve_prefix(local, stack, p) == Some(u),
        lookup_ns(f.element.namespaces, p) == Some(u) ==> lookup_stack(stack.push(f), p) == Some(
            u,
        ),
{
    assert(stack.push(f).drop_last() =~= stack);
    assert(stack.push(f).last() == f);
}

/// What one value fragment contributes: literal bytes, or the decoded
/// reference.
pub open spec fn spec_fragment_bytes(input: Seq<u8>, v: AttributeValue) -> Result<
    Seq<u8>,
    ParseError,
> {
    match v {
        AttributeValue::LiteralAttributeValue(r) => Ok(bytes_of(input, r)),
        AttributeValue::ReferenceAttributeValue(rf) => spec_decode_reference(input, rf),
    }
}

/// An attribute's value: its fragments decoded and concatenated in order;
/// the first fragment that cannot be decoded decides the error.
pub open spec fn spec_value_bytes(input: Seq<u8>, values: Seq<AttributeValue>) -> Result<
    Seq<u8>,
    ParseError,
>
    decreases values.len(),
{
    if values.len() == 0 {
        Ok(Seq::empty())
    } else {
        match spec_value_bytes(input, values.drop_last()) {
            Ok(prefix) => match spec_fragment_bytes(input, values.last()) {
                Ok(f) => Ok(prefix + f),
                Err(e) => Err(e),
            },
            Err(e) => Err(e),
        }
    }
}

/// The namespace declarations among the deferred attributes, in order.
pub open spec fn xmlns_attrs(input: Seq<u8>, attrs: Seq<DeferredAttributeModel>) -> Seq<
    DeferredAttributeModel,
>
    decreases attrs.len(),
{
    if attrs.len() == 0 {
        Seq::empty()
    } else {
        let rest = xmlns_attrs(input, attrs.drop_last());
        if is_xmlns(input, attrs.last().name) {
            rest.push(attrs.last())
        } else {
            rest
        }
    }
}

/// The ordinary attributes among the deferred attributes, in order.
pub open spec fn ordinary_attrs(input: Seq<u8>, attrs: Seq<DeferredAttributeModel>) -> Seq<
    DeferredAttributeModel,
>
    decreases attrs.len(),
{
    if attrs.len() == 0 {
        Seq::empty()
    } else {
        let rest = ordinary_attrs(input, attrs.drop_last());
        if is_xmlns(input, attrs.last().name) {
            rest
        } else {
            rest.push(attrs.last())
        }
    }
}

/// The prefix bindings the declarations make, in order: the declared prefix
/// is the attribute's local part, the URI its decoded value.
pub open spec fn spec_mappings(input: Seq<u8>, nss: Seq<DeferredAttributeModel>) -> Result<
    Seq<NamespaceModel>,
    ParseError,
>
    decreases nss.len(),
{
    if nss.len() == 0 {
        Ok(Seq::empty())
    } else {
        match spec_mappings(input, nss.drop_last()) {
            Ok(ms) => match spec_value_bytes(input, nss.last().values) {
                Ok(uri) => Ok(
                    ms.push(
                        NamespaceModel { prefix: spec_local_bytes(input, nss.last().name), uri },
                    ),
                ),
                Err(e) => Err(e),
            },
            Err(e) => Err(e),
        }
    }
}

/// The ordinary attributes resolved against the fresh declarations and the
/// enclosing elements: each value decoded, each prefix resolved; an
/// unresolved prefix is fatal.
pub open spec fn spec_resolved_attributes(
    input: Seq<u8>,
    ords: Seq<DeferredAttributeModel>,
    local: Seq<NamespaceModel>,
    stack: Seq<FrameModel>,
) -> Result<Seq<AttributeModel>, ParseError>
    decreases ords.len(),
{
    if ords.len() == 0 {
        Ok(Seq::empty())
    } else {
        match spec_resolved_attributes(input, ords.drop_last(), local, stack) {
            Ok(ams) => {
                let a = ords.last();
                match spec_value_bytes(input, a.values) {
                    Ok(val) => match a.name.prefix {
                        Some(pr) => match resolve_prefix(local, stack, bytes_of(input, pr)) {
                            Some(uri) => Ok(
                                ams.push(
                                    AttributeModel {
                                        name: QNameModel {
                                            namespace_uri: Some(uri),
                                            local_part: spec_local_bytes(input, a.name),
                                        },
                                        value: val,
                                        preferred_prefix: Some(bytes_of(input, pr)),
                                    },
                                ),
                            ),
                            None => Err(ParseError::UnknownNamespacePrefix),
                        },
                        None => Ok(
                            ams.push(
                                AttributeModel {
                                    name: QNameModel {
                                        namespace_uri: None,
                                        local_part: spec_local_bytes(input, a.name),
                                    },
                                    value: val,
                                    preferred_prefix: None,
                                },
                            ),
                        ),
                    },
                    Err(e) => Err(e),
                }
            },
            Err(e) => Err(e),
        }
    }
}

/// A finished node joins the tree: the innermost open element's children,
/// or the document's top level when no element is open.
pub open spec fn spec_append_either(st: HydratorModel, node: NodeModel) -> HydratorModel {
    if st.stack.len() == 0 {
        HydratorModel {
            stack: st.stack,
            element: st.element,
            attributes: st.attributes,
            roots: st.roots.push(node),
        }
    } else {
        let f = st.stack.last();
        let f2 = FrameModel {
            staged: f.staged,
            element: ElementModel {
                name: f.element.name,
                preferred_prefix: f.element.preferred_prefix,
                attributes: f.element.attributes,
                namespaces: f.element.namespaces,
                children: f.element.children.push(node),
            },
        };
        HydratorModel {
            stack: st.stack.drop_last().push(f2),
            element: st.element,
            attributes: st.attributes,
            roots: st.roots,
        }
    }
}

/// Text joins the innermost open element; outside any element it is
/// dropped, which no event stream of the grammar ever asks for.
pub open spec fn spec_append_text(st: HydratorModel, text: Seq<u8>) -> HydratorModel {
    if st.stack.len() == 0 {
        st
    } else {
        spec_append_either(st, NodeModel::Text(text))
    }
}

/// The staged element becomes a node: its declarations are decoded, its own
/// name and its attributes' names resolved, and it is pushed as the
/// innermost open element.  With no element staged the event is ignored.
pub open spec fn spec_attributes_end(input: Seq<u8>, st: HydratorModel) -> Result<
    HydratorModel,
    ParseError,
> {
    match st.element {
        None => Ok(st),
        Some(pname) => {
            let nss = xmlns_attrs(input, st.attributes);
            let ords = ordinary_attrs(input, st.attributes);
            match spec_mappings(input, nss) {
                Ok(ms) => {
                    let resolved = match pname.prefix {
                        Some(pr) => match resolve_prefix(ms, st.stack, bytes_of(input, pr)) {
                            Some(uri) => Ok(
                                (
                                    QNameModel {
                                        namespace_uri: Some(uri),
                                        local_part: spec_local_bytes(input, pname),
                                    },
                                    Some(bytes_of(input, pr)),
                                ),
                            ),
                            None => Err(ParseError::UnknownNamespacePrefix),
                        },
                        None => Ok(
                            (
                                QNameModel {
                                    namespace_uri: None,
                                    local_part: spec_local_bytes(input, pname),
                                },
                                None::<Seq<u8>>,
                            ),
                        ),
                    };
                    match resolved {
                        Ok((qn, pp)) => match spec_resolved_attributes(input, ords, ms, st.stack) {
                            Ok(ams) => Ok(
                                HydratorModel {
                                    stack: st.stack.push(
                                        FrameModel {
                                            staged: pname,
                                            element: ElementModel {
                                                name: qn,
                                                preferred_prefix: pp,
                                                attributes: ams,
                                                namespaces: ms,
                                                children: Seq::empty(),
                                            },
                                        },
                                    ),
                                    element: None,
                                    attributes: Seq::empty(),
                                    roots: st.roots,
                                },
                            ),
                            Err(e) => Err(e),
                        },
                        Err(e) => Err(e),
                    }
                },
                Err(e) => Err(e),
            }
        },
    }
}

/// A closing tag must name the innermost open element; then that element is
/// finished and joins its parent, or the document's top level.  With no
/// element open the event is ignored.
pub open spec fn spec_element_end(input: Seq<u8>, st: HydratorModel, name: PrefixedName) -> Result<
    HydratorModel,
    ParseError,
> {
    if st.stack.len() == 0 {
        Ok(st)
    } else {
        let f = st.stack.last();
        if names_match(input, f.staged, name) {
            let popped = HydratorModel {
                stack: st.stack.drop_last(),
                element: st.element,
                attributes: st.attributes,
                roots: st.roots,
            };
            Ok(spec_append_either(popped, NodeModel::Element(f.element)))
        } else {
            Err(ParseError::MismatchedElementEndTag)
        }
    }
}

/// A lower-case ASCII letter for an upper-case one; other bytes unchanged.
pub open spec fn ascii_lower(b: u8) -> u8 {
    if ('A' as u8) <= b <= ('Z' as u8) {
        (b + 32) as u8
    } else {
        b
    }
}

/// The target is the reserved name `xml`, compared without regard to ASCII
/// case.
pub open spec fn is_reserved_target(t: Seq<u8>) -> bool {
    t.len() == 3 && ascii_lower(t[0]) == ('x' as u8) && ascii_lower(t[1]) == ('m' as u8)
        && ascii_lower(t[2]) == ('l' as u8)
}

/// One event applied to the state.
pub open spec fn spec_apply_event(input: Seq<u8>, st: HydratorModel, ev: Event) -> Result<
    HydratorModel,
    ParseError,
> {
    match ev {
        Event::ElementStart { name } => Ok(
            HydratorModel {
                stack: st.stack,
                element: Some(name),
                attributes: st.attributes,
                roots: st.roots,
            },
        ),
        Event::AttributesStart => Ok(st),
        Event::AttributeStart { name } => Ok(
            HydratorModel {
                stack: st.stack,
                element: st.element,
                attributes: st.attributes.push(
                    DeferredAttributeModel { name, values: Seq::empty() },
                ),
                roots: st.roots,
            },
        ),
        Event::AttributeValuePart { value } => {
            if st.attributes.len() == 0 {
                Ok(st)
            } else {
                let a = st.attributes.last();
                Ok(
                    HydratorModel {
                        stack: st.stack,
                        element: st.element,
                        attributes: st.attributes.drop_last().push(
                            DeferredAttributeModel {
                                name: a.name,
                                values: a.values.push(value),
                            },
                        ),
                        roots: st.roots,
                    },
                )
            }
        },
        Event::AttributeEnd { .. } => Ok(st),
        Event::AttributesEnd => spec_attributes_end(input, st),
        Event::ElementEnd { name } => spec_element_end(input, st, name),
        Event::Text { text } => Ok(spec_append_text(st, bytes_of(input, text))),
        Event::Comment { text } => Ok(
            spec_append_either(st, NodeModel::Comment(bytes_of(input, text))),
        ),
        Event::ProcessingInstruction { target, value } => {
            if is_reserved_target(bytes_of(input, target)) {
                Err(ParseError::ReservedProcessingInstructionTarget)
            } else {
                let v = match value {
                    Some(r) => Some(bytes_of(input, r)),
                    None => None::<Seq<u8>>,
                };
                Ok(
                    spec_append_either(
                        st,
                        NodeModel::ProcessingInstruction {
                            target: bytes_of(input, target),
                            value: v,
                        },
                    ),
                )
            }
        },
        Event::ContentReference { reference } => match spec_decode_reference(input, reference) {
            Ok(text) => Ok(spec_append_text(st, text)),
            Err(e) => Err(e),
        },
    }
}

/// The whole event stream folded over the state, first error wins.
pub open spec fn spec_run(input: Seq<u8>, st: HydratorModel, evs: Seq<Event>) -> Result<
    HydratorModel,
    ParseError,
>
    decreases evs.len(),
{
    if evs.len() == 0 {
        Ok(st)
    } else {
        match spec_apply_event(input, st, evs[0]) {
            Ok(st2) => spec_run(input, st2, evs.skip(1)),
            Err(e) => Err(e),
        }
    }
}

/// What hydrating an event stream yields: the finished top-level nodes, or
/// the first fatal error.  Elements still open at the end of the stream are
/// discarded; a stream the grammar accepted leaves none.
pub open spec fn spec_hydrate(input: Seq<u8>, evs: Seq<Event>) -> Result<
    DocumentModel,
    ParseError,
> {
    match spec_run(input, initial_state(), evs) {
        Ok(st) => Ok(DocumentModel { children: st.roots }),
        Err(e) => Err(e),
    }
}

proof fn lemma_frames_model_push(s: Seq<Frame>, f: Frame)
    ensures
        frames_model(s.push(f)) == frames_model(s).push(f@),
{
    assert(frames_model(s.push(f)) =~= frames_model(s).push(f@));
}

proof fn lemma_nodes_model_push(s: Seq<Node>, n: Node)
    ensures
        nodes_model(s.push(n)) == nodes_model(s).push(node_model(n)),
{
    assert(nodes_model(s.push(n)) =~= nodes_model(s).push(node_model(n)));
}

proof fn lemma_deferred_model_push(s: Seq<DeferredAttribute>, a: DeferredAttribute)
    ensures
        deferred_model(s.push(a)) == deferred_model(s).push(a@),
{
    assert(deferred_model(s.push(a)) =~= deferred_model(s).push(a@));
}

proof fn lemma_frames_model_drop(s: Seq<Frame>)
    requires
        s.len() > 0,
    ensures
        frames_model(s.drop_last()) == frames_model(s).drop_last(),
        frames_model(s).last() == s.last()@,
        frames_model(s).len() == s.len(),
{
    assert(frames_model(s.drop_last()) =~= frames_model(s).drop_last());
}

proof fn lemma_deferred_model_drop(s: Seq<DeferredAttribute>)
    requires
        s.len() > 0,
    ensures
        deferred_model(s.drop_last()) == deferred_model(s).drop_last(),
        deferred_model(s).last() == s.last()@,
        deferred_model(s).len() == s.len(),
{
    assert(deferred_model(s.drop_last()) =~= deferred_model(s).drop_last());
}

proof fn lemma_value_bytes_err(input: Seq<u8>, values: Seq<AttributeValue>, n: int)
    requires
        0 <= n <= values.len(),
        spec_value_bytes(input, values.take(n)) is Err,
    ensures
        spec_value_bytes(input, values) == spec_value_bytes(input, values.take(n)),
    decreases values.len() - n,
{
    if n < values.len() {
        assert(values.take(n + 1).drop_last() =~= values.take(n));
        lemma_value_bytes_err(input, values, n + 1);
    } else {
        assert(values.take(n) =~= values);
    }
}

proof fn lemma_mappings_err(input: Seq<u8>, nss: Seq<DeferredAttributeModel>, n: int)
    requires
        0 <= n <= nss.len(),
        spec_mappings(input, nss.take(n)) is Err,
    ensures
        spec_mappings(input, nss) == spec_mappings(input, nss.take(n)),
    decreases nss.len() - n,
{
    if n < nss.len() {
        assert(nss.take(n + 1).drop_last() =~= nss.take(n));
        lemma_mappings_err(input, nss, n + 1);
    } else {
        assert(nss.take(n) =~= nss);
    }
}

proof fn lemma_resolved_attrs_err(
    input: Seq<u8>,
    ords: Seq<DeferredAttributeModel>,
    local: Seq<NamespaceModel>,
    stack: Seq<FrameModel>,
    n: int,
)
    requires
        0 <= n <= ords.len(),
        spec_resolved_attributes(input, ords.take(n), local, stack) is Err,
    ensures
        spec_resolved_attributes(input, ords, local, stack) == spec_resolved_attributes(
            input,
            ords.take(n),
            local,
            stack,
        ),
    decreases ords.len() - n,
{
    if n < ords.len() {
        assert(ords.take(n + 1).drop_last() =~= ords.take(n));
        lemma_resolved_attrs_err(input, ords, local, stack, n + 1);
    } else {
        assert(ords.take(n) =~= ords);
    }
}

/// Copy a byte vector.
fn clone_bytes(v: &Vec<u8>) -> (r: Vec<u8>)
    ensures
        r@ == v@,
{
    let mut out: Vec<u8> = Vec::new();
    let mut i: usize = 0;
    while i < v.len()
        invariant
            0 <= i <= v@.len(),
            out@ == v@.take(i as int),
        decreases v@.len() - i,
    {
        out.push(v[i]);
        proof {
            assert(v@.take(i + 1) =~= v@.take(i as int).push(v@[i as int]));
        }
        i += 1;
    }
    proof {
        assert(v@.take(v@.len() as int) =~= v@);
    }
    out
}

/// Append the bytes of `src` to `dst`.
fn push_all(dst: &mut Vec<u8>, src: &Vec<u8>)
    ensures
        final(dst)@ == old(dst)@ + src@,
{
    let mut i: usize = 0;
    while i < src.len()
        invariant
            0 <= i <= src@.len(),
            dst@ == old(dst)@ + src@.take(i as int),
        decreases src@.len() - i,
    {
        dst.push(src[i]);
        proof {
            assert(old(dst)@ + src@.take(i + 1) =~= (old(dst)@ + src@.take(i as int)).push(
                src@[i as int],
            ));
        }
        i += 1;
    }
    proof {
        assert(src@.take(src@.len() as int) =~= src@);
    }
}

/// The written prefix of a name, copied out of the input.
fn prefix_bytes_exec(input: &[u8], pn: &PrefixedName) -> (r: Option<Vec<u8>>)
    ensures
        opt_bytes_model(r) == spec_prefix_bytes(input@, *pn),
{
    match pn.prefix {
        Some(rng) => Some(range_bytes(input, rng)),
        None => None,
    }
}

/// The attribute declares a namespace: its prefix is exactly `xmlns`.
fn is_xmlns_exec(input: &[u8], pn: &PrefixedName) -> (r: bool)
    ensures
        r == is_xmlns(input@, *pn),
{
    match pn.prefix {
        Some(rng) => {
            let p = range_bytes(input, rng);
            let xm = [('x' as u8), ('m' as u8), ('l' as u8), ('n' as u8), ('s' as u8)];
            proof {
                assert(xm@ =~= xmlns_name());
            }
            bytes_equal(&p, xm.as_slice())
        },
        None => false,
    }
}

/// Two written names are the same, byte for byte.
fn names_match_exec(input: &[u8], a: &PrefixedName, b: &PrefixedName) -> (r: bool)
    ensures
        r == names_match(input@, *a, *b),
{
    let pa = prefix_bytes_exec(input, a);
    let pb = prefix_bytes_exec(input, b);
    let prefix_ok = match (&pa, &pb) {
        (Some(x), Some(y)) => bytes_equal(x, y.as_slice()),
        (None, None) => true,
        _ => false,
    };
    if !prefix_ok {
        return false;
    }
    let la = range_bytes(input, a.local_part);
    let lb = range_bytes(input, b.local_part);
    bytes_equal(&la, lb.as_slice())
}

/// Search one element's declarations, later declarations first.
fn lookup_ns_exec(nss: &Vec<Namespace>, p: &Vec<u8>) -> (r: Option<Vec<u8>>)
    ensures
        opt_bytes_model(r) == lookup_ns(
            Seq::new(nss@.len(), |i: int| nss@[i]@),
            p@,
        ),
{
    let ghost m = Seq::new(nss@.len(), |i: int| nss@[i]@);
    let mut i: usize = nss.len();
    proof {
        assert(m.take(i as int) =~= m);
    }
    while i > 0
        invariant
            0 <= i <= nss@.len(),
            m == Seq::new(nss@.len(), |j: int| nss@[j]@),
            lookup_ns(m, p@) == lookup_ns(m.take(i as int), p@),
        decreases i,
    {
        i = i - 1;
        proof {
            assert(m.take(i + 1).last() == m[i as int]);
            assert(m.take(i + 1).drop_last() =~= m.take(i as int));
        }
        if bytes_equal(&nss[i].prefix, p.as_slice()) {
            return Some(clone_bytes(&nss[i].uri));
        }
    }
    proof {
        assert(m.take(0) =~= Seq::<NamespaceModel>::empty());
    }
    None
}

/// Search a stack of open elements, innermost first.
fn lookup_stack_exec(stack: &Vec<Frame>, p: &Vec<u8>) -> (r: Option<Vec<u8>>)
    ensures
        opt_bytes_model(r) == lookup_stack(frames_model(stack@), p@),
{
    let ghost m = frames_model(stack@);
    let mut i: usize = stack.len();
    proof {
        assert(m.take(i as int) =~= m);
    }
    while i > 0
        invariant
            0 <= i <= stack@.len(),
            m == frames_model(stack@),
            lookup_stack(m, p@) == lookup_stack(m.take(i as int), p@),
        decreases i,
    {
        i = i - 1;
        proof {
            assert(m.take(i + 1).last() == m[i as int]);
            assert(m.take(i + 1).drop_last() =~= m.take(i as int));
            assert(m[i as int].element.namespaces =~= Seq::new(
                stack@[i as int].element.namespaces@.len(),
                |j: int| stack@[i as int].element.namespaces@[j]@,
            ));
        }
        match lookup_ns_exec(&stack[i].element.namespaces, p) {
            Some(u) => {
                return Some(u);
            },
            None => {},
        }
    }
    proof {
        assert(m.take(0) =~= Seq::<FrameModel>::empty());
    }
    None
}

/// Resolve a prefix: the fresh declarations first, then the stack.
fn resolve_prefix_exec(local: &Vec<Namespace>, stack: &Vec<Frame>, p: &Vec<u8>) -> (r: Option<
    Vec<u8>,
>)
    ensures
        opt_bytes_model(r) == resolve_prefix(
            Seq::new(local@.len(), |i: int| local@[i]@),
            frames_model(stack@),
            p@,
        ),
{
    match lookup_ns_exec(local, p) {
        Some(u) => Some(u),
        None => lookup_stack_exec(stack, p),
    }
}

/// Decode and concatenate an attribute's value fragments.
fn build_value(input: &[u8], values: &Vec<AttributeValue>) -> (r: Result<Vec<u8>, ParseError>)
    ensures
        match (r, spec_value_bytes(input@, values@)) {
            (Ok(v), Ok(s)) => v@ == s,
            (Err(e1), Err(e2)) => e1 == e2,
            _ => false,
        },
{
    let mut out: Vec<u8> = Vec::new();
    let mut i: usize = 0;
    proof {
        assert(values@.take(0) =~= Seq::<AttributeValue>::empty());
    }
    while i < values.len()
        invariant
            0 <= i <= values@.len(),
            spec_value_bytes(input@, values@.take(i as int)) == Ok::<Seq<u8>, ParseError>(out@),
        decreases values@.len() - i,
    {
        proof {
            assert(values@.take(i + 1).drop_last() =~= values@.take(i as int));
            assert(values@.take(i + 1).last() == values@[i as int]);
        }
        match values[i] {
            AttributeValue::LiteralAttributeValue(rng) => {
                let piece = range_bytes(input, rng);
                push_all(&mut out, &piece);
            },
            AttributeValue::ReferenceAttributeValue(rf) => {
                match decode_reference(input, rf) {
                    Ok(piece) => {
                        push_all(&mut out, &piece);
                    },
                    Err(e) => {
                        proof {
                            lemma_value_bytes_err(input@, values@, i + 1);
                        }
                        return Err(e);
                    },
                }
            },
        }
        i += 1;
    }
    proof {
        assert(values@.take(values@.len() as int) =~= values@);
    }
    Ok(out)
}

/// Copy a deferred attribute.
fn clone_deferred(a: &DeferredAttribute) -> (r: DeferredAttribute)
    ensures
        r@ == a@,
{
    let mut values: Vec<AttributeValue> = Vec::new();
    let mut i: usize = 0;
    while i < a.values.len()
        invariant
            0 <= i <= a.values@.len(),
            values@ == a.values@.take(i as int),
        decreases a.values@.len() - i,
    {
        values.push(a.values[i]);
        proof {
            assert(a.values@.take(i + 1) =~= a.values@.take(i as int).push(a.values@[i as int]));
        }
        i += 1;
    }
    proof {
        assert(a.values@.take(a.values@.len() as int) =~= a.values@);
    }
    DeferredAttribute { name: a.name, values }
}



/// The element models of a vector of namespace bindings.
pub open spec fn ns_vec_model(s: Seq<Namespace>) -> Seq<NamespaceModel> {
    Seq::new(s.len(), |i: int| s[i]@)
}

impl SaxHydrator {
    /// A hydrator with nothing open and nothing collected.
    pub fn new() -> (r: SaxHydrator)
        ensures
            r@ == initial_state(),
    {
        let r = SaxHydrator {
            stack: Vec::new(),
            element: None,
            attributes: Vec::new(),
            roots: Vec::new(),
        };
        proof {
            assert(frames_model(r.stack@) =~= Seq::<FrameModel>::empty());
            assert(deferred_model(r.attributes@) =~= Seq::<DeferredAttributeModel>::empty());
            assert(nodes_model(r.roots@) =~= Seq::<NodeModel>::empty());
        }
        r
    }

    /// The URI the enclosing elements bind a prefix to, innermost first.
    fn namespace_uri_for_prefix(&self, prefix: &Vec<u8>) -> (r: Option<Vec<u8>>)
        ensures
            opt_bytes_model(r) == lookup_stack(self@.stack, prefix@),
    {
        lookup_stack_exec(&self.stack, prefix)
    }

    /// A finished node joins the innermost open element, or the document.
    fn append_to_either(&mut self, node: Node)
        ensures
            final(self)@ == spec_append_either(old(self)@, node_model(node)),
    {
        let ghost nm = node_model(node);
        match self.stack.pop() {
            Some(f) => {
                let mut f = f;
                proof {
                    lemma_frames_model_drop(old(self).stack@);
                }
                let ghost old_f = f;
                f.element.children.push(node);
                proof {
                    lemma_nodes_model_push(old_f.element.children@, node);
                    assert(f@ == (FrameModel {
                        staged: old_f@.staged,
                        element: ElementModel {
                            name: old_f@.element.name,
                            preferred_prefix: old_f@.element.preferred_prefix,
                            attributes: old_f@.element.attributes,
                            namespaces: old_f@.element.namespaces,
                            children: old_f@.element.children.push(nm),
                        },
                    }));
                }
                self.stack.push(f);
                proof {
                    lemma_frames_model_push(old(self).stack@.drop_last(), f);
                }
            },
            None => {
                self.roots.push(node);
                proof {
                    lemma_nodes_model_push(old(self).roots@, node);
                }
            },
        }
    }

    /// Text joins the innermost open element; dropped when none is open.
    fn append_text(&mut self, text: Vec<u8>)
        ensures
            final(self)@ == spec_append_text(old(self)@, text@),
    {
        if self.stack.len() > 0 {
            self.append_to_either(Node::Text(text));
        }
    }

    /// An element's written name arrives; it is staged until its attributes
    /// are known.
    pub fn element_start(&mut self, name: PrefixedName)
        ensures
            final(self)@ == (HydratorModel {
                stack: old(self)@.stack,
                element: Some(name),
                attributes: old(self)@.attributes,
                roots: old(self)@.roots,
            }),
    {
        self.element = Some(name);
    }

    /// A closing tag arrives: it must name the innermost open element.
    pub fn element_end(&mut self, input: &[u8], name: PrefixedName) -> (r: Result<(), ParseError>)
        ensures
            match (r, spec_element_end(input@, old(self)@, name)) {
                (Ok(u), Ok(st)) => final(self)@ == st,
                (Err(e1), Err(e2)) => e1 == e2,
                _ => false,
            },
    {
        if self.stack.len() == 0 {
            return Ok(());
        }
        let staged = self.stack[self.stack.len() - 1].staged;
        proof {
            lemma_frames_model_drop(self.stack@);
        }
        if names_match_exec(input, &staged, &name) {
            match self.stack.pop() {
                Some(f) => {
                    proof {
                        lemma_frames_model_drop(old(self).stack@);
                    }
                    self.append_to_either(Node::Element(f.element));
                    Ok(())
                },
                None => Ok(()),
            }
        } else {
            Err(ParseError::MismatchedElementEndTag)
        }
    }

    /// A comment joins the tree where it stands.
    pub fn comment(&mut self, input: &[u8], text: Range)
        ensures
            final(self)@ == spec_append_either(
                old(self)@,
                NodeModel::Comment(bytes_of(input@, text)),
            ),
    {
        let t = range_bytes(input, text);
        self.append_to_either(Node::Comment(t));
    }

    /// A processing instruction joins the tree; the target `xml` is
    /// reserved and fatal.
    pub fn processing_instruction(&mut self, input: &[u8], target: Range, value: Option<Range>)
        -> (r: Result<(), ParseError>)
        ensures
            match (r, spec_apply_event(
                input@,
                old(self)@,
                Event::ProcessingInstruction { target, value },
            )) {
                (Ok(u), Ok(st)) => final(self)@ == st,
                (Err(e1), Err(e2)) => e1 == e2,
                _ => false,
            },
    {
        let t = range_bytes(input, target);
        let reserved = t.len() == 3 && {
            let a = if ('A' as u8) <= t[0] && t[0] <= ('Z' as u8) {
                t[0] + 32
            } else {
                t[0]
            };
            let b = if ('A' as u8) <= t[1] && t[1] <= ('Z' as u8) {
                t[1] + 32
            } else {
                t[1]
            };
            let c = if ('A' as u8) <= t[2] && t[2] <= ('Z' as u8) {
                t[2] + 32
            } else {
                t[2]
            };
            a == ('x' as u8) && b == ('m' as u8) && c == ('l' as u8)
        };
        if reserved {
            return Err(ParseError::ReservedProcessingInstructionTarget);
        }
        let v = match value {
            Some(rng) => Some(range_bytes(input, rng)),
            None => None,
        };
        self.append_to_either(Node::ProcessingInstruction { target: t, value: v });
        Ok(())
    }

    /// Character data joins the innermost open element.
    pub fn text(&mut self, input: &[u8], text: Range)
        ensures
            final(self)@ == spec_append_text(old(self)@, bytes_of(input@, text)),
    {
        let t = range_bytes(input, text);
        self.append_text(t);
    }

    /// A reference in content decodes to text, or is fatal.
    pub fn reference(&mut self, input: &[u8], reference: Reference) -> (r: Result<(), ParseError>)
        ensures
            match (r, spec_apply_event(
                input@,
                old(self)@,
                Event::ContentReference { reference },
            )) {
                (Ok(u), Ok(st)) => final(self)@ == st,
                (Err(e1), Err(e2)) => e1 == e2,
                _ => false,
            },
    {
        match decode_reference(input, reference) {
            Ok(t) => {
                self.append_text(t);
                Ok(())
            },
            Err(e) => Err(e),
        }
    }

    /// The attribute list opens; nothing to do.
    pub fn attributes_start(&mut self)
        ensures
            final(self)@ == old(self)@,
    {
    }

    /// An attribute's written name arrives; its fragments follow.
    pub fn attribute_start(&mut self, name: PrefixedName)
        ensures
            final(self)@ == (HydratorModel {
                stack: old(self)@.stack,
                element: old(self)@.element,
                attributes: old(self)@.attributes.push(
                    DeferredAttributeModel { name, values: Seq::empty() },
                ),
                roots: old(self)@.roots,
            }),
    {
        let a = DeferredAttribute { name, values: Vec::new() };
        proof {
            lemma_deferred_model_push(self.attributes@, a);
            assert(a@.values =~= Seq::<AttributeValue>::empty());
        }
        self.attributes.push(a);
    }

    /// One fragment of the attribute being read; ignored when none is.
    pub fn attribute_value(&mut self, value: AttributeValue)
        ensures
            final(self)@ == (if old(self)@.attributes.len() == 0 {
                old(self)@
            } else {
                HydratorModel {
                    stack: old(self)@.stack,
                    element: old(self)@.element,
                    attributes: old(self)@.attributes.drop_last().push(
                        DeferredAttributeModel {
                            name: old(self)@.attributes.last().name,
                            values: old(self)@.attributes.last().values.push(value),
                        },
                    ),
                    roots: old(self)@.roots,
                }
            }),
    {
        match self.attributes.pop() {
            Some(a) => {
                let mut a = a;
                proof {
                    lemma_deferred_model_drop(old(self).attributes@);
                }
                a.values.push(value);
                self.attributes.push(a);
                proof {
                    lemma_deferred_model_push(old(self).attributes@.drop_last(), a);
                }
            },
            None => {},
        }
    }

    /// The attribute list closes; nothing to do.
    pub fn attribute_end(&mut self, _name: PrefixedName)
        ensures
            final(self)@ == old(self)@,
    {
    }

    /// The attribute list is complete: decode the declarations, resolve the
    /// element's own name and its attributes' names, and open the element.
    #[verifier::spinoff_prover]
    #[verifier::rlimit(60)]
    #[verifier::loop_isolation(false)]
    pub fn attributes_end(&mut self, input: &[u8]) -> (r: Result<(), ParseError>)
        ensures
            match (r, spec_attributes_end(input@, old(self)@)) {
                (Ok(u), Ok(st)) => final(self)@ == st,
                (Err(e1), Err(e2)) => e1 == e2,
                _ => false,
            },
    {
        let pname = match self.element {
            Some(n) => n,
            None => {
                return Ok(());
            },
        };
        self.element = None;
        let mut attrs: Vec<DeferredAttribute> = Vec::new();
        core::mem::swap(&mut attrs, &mut self.attributes);
        let ghost am = deferred_model(attrs@);
        proof {
            assert(deferred_model(self.attributes@) =~= Seq::<DeferredAttributeModel>::empty());
        }

        let mut nss: Vec<DeferredAttribute> = Vec::new();
        let mut ords: Vec<DeferredAttribute> = Vec::new();
        let mut i: usize = 0;
        proof {
            assert(am.take(0) =~= Seq::<DeferredAttributeModel>::empty());
            assert(deferred_model(nss@) =~= Seq::<DeferredAttributeModel>::empty());
            assert(deferred_model(ords@) =~= Seq::<DeferredAttributeModel>::empty());
        }
        while i < attrs.len()
            invariant
                0 <= i <= attrs@.len(),
                am == deferred_model(attrs@),
                deferred_model(nss@) == xmlns_attrs(input@, am.take(i as int)),
                deferred_model(ords@) == ordinary_attrs(input@, am.take(i as int)),
            decreases attrs@.len() - i,
        {
            proof {
                assert(am.take(i + 1).drop_last() =~= am.take(i as int));
                assert(am.take(i + 1).last() == am[i as int]);
            }
            let a = clone_deferred(&attrs[i]);
            if is_xmlns_exec(input, &a.name) {
                proof {
                    lemma_deferred_model_push(nss@, a);
                }
                nss.push(a);
            } else {
                proof {
                    lemma_deferred_model_push(ords@, a);
                }
                ords.push(a);
            }
            i += 1;
        }
        proof {
            assert(am.take(am.len() as int) =~= am);
        }
        let ghost nss_m = deferred_model(nss@);
        let ghost ords_m = deferred_model(ords@);

        let mut mappings: Vec<Namespace> = Vec::new();
        let mut j: usize = 0;
        proof {
            assert(nss_m.take(0) =~= Seq::<DeferredAttributeModel>::empty());
            assert(ns_vec_model(mappings@) =~= Seq::<NamespaceModel>::empty());
        }
        while j < nss.len()
            invariant
                0 <= j <= nss@.len(),
                nss_m == deferred_model(nss@),
                spec_mappings(input@, nss_m.take(j as int)) == Ok::<Seq<NamespaceModel>, ParseError>(
                    ns_vec_model(mappings@),
                ),
            decreases nss@.len() - j,
        {
            proof {
                assert(nss_m.take(j + 1).drop_last() =~= nss_m.take(j as int));
                assert(nss_m.take(j + 1).last() == nss_m[j as int]);
            }
            match build_value(input, &nss[j].values) {
                Ok(uri) => {
                    let prefix = range_bytes(input, nss[j].name.local_part);
                    let n = Namespace { prefix, uri };
                    proof {
                        assert(ns_vec_model(mappings@.push(n)) =~= ns_vec_model(mappings@).push(
                            n@,
                        ));
                    }
                    mappings.push(n);
                },
                Err(e) => {
                    proof {
                        lemma_mappings_err(input@, nss_m, j + 1);
                    }
                    return Err(e);
                },
            }
            j += 1;
        }
        proof {
            assert(nss_m.take(nss_m.len() as int) =~= nss_m);
        }
        let ghost ms = ns_vec_model(mappings@);

        let local_part = range_bytes(input, pname.local_part);
        let resolved: (QName, Option<Vec<u8>>) = match pname.prefix {
            Some(pr) => {
                let p = range_bytes(input, pr);
                match resolve_prefix_exec(&mappings, &self.stack, &p) {
                    Some(uri) => (
                        QName { namespace_uri: Some(uri), local_part },
                        Some(p),
                    ),
                    None => {
                        return Err(ParseError::UnknownNamespacePrefix);
                    },
                }
            },
            None => (QName { namespace_uri: None, local_part }, None),
        };
        let (qname, preferred) = resolved;

        let mut resolved_attrs: Vec<Attribute> = Vec::new();
        let mut k: usize = 0;
        proof {
            assert(ords_m.take(0) =~= Seq::<DeferredAttributeModel>::empty());
            assert(Seq::new(resolved_attrs@.len(), |t: int| resolved_attrs@[t]@) =~= Seq::<
                AttributeModel,
            >::empty());
        }
        while k < ords.len()
            invariant
                0 <= k <= ords@.len(),
                ords_m == deferred_model(ords@),
                ms == ns_vec_model(mappings@),
                spec_resolved_attributes(input@, ords_m.take(k as int), ms, frames_model(
                    self.stack@,
                )) == Ok::<Seq<AttributeModel>, ParseError>(
                    Seq::new(resolved_attrs@.len(), |t: int| resolved_attrs@[t]@),
                ),
            decreases ords@.len() - k,
        {
            proof {
                assert(ords_m.take(k + 1).drop_last() =~= ords_m.take(k as int));
                assert(ords_m.take(k + 1).last() == ords_m[k as int]);
            }
            match build_value(input, &ords[k].values) {
                Ok(val) => {
                    let a_local = range_bytes(input, ords[k].name.local_part);
                    let attr: Attribute = match ords[k].name.prefix {
                        Some(pr) => {
                            let p = range_bytes(input, pr);
                            match resolve_prefix_exec(&mappings, &self.stack, &p) {
                                Some(uri) => Attribute {
                                    name: QName {
                                        namespace_uri: Some(uri),
                                        local_part: a_local,
                                    },
                                    value: val,
                                    preferred_prefix: Some(p),
                                },
                                None => {
                                    proof {
                                        lemma_resolved_attrs_err(
                                            input@,
                                            ords_m,
                                            ms,
                                            frames_model(self.stack@),
                                            k + 1,
                                        );
                                    }
                                    return Err(ParseError::UnknownNamespacePrefix);
                                },
                            }
                        },
                        None => Attribute {
                            name: QName { namespace_uri: None, local_part: a_local },
                            value: val,
                            preferred_prefix: None,
                        },
                    };
                    proof {
                        assert(Seq::new(
                            resolved_attrs@.push(attr).len(),
                            |t: int| resolved_attrs@.push(attr)[t]@,
                        ) =~= Seq::new(resolved_attrs@.len(), |t: int| resolved_attrs@[t]@).push(
                            attr@,
                        ));
                    }
                    resolved_attrs.push(attr);
                },
                Err(e) => {
                    proof {
                        lemma_resolved_attrs_err(
                            input@,
                            ords_m,
                            ms,
                            frames_model(self.stack@),
                            k + 1,
                        );
                    }
                    return Err(e);
                },
            }
            k += 1;
        }
        proof {
            assert(ords_m.take(ords_m.len() as int) =~= ords_m);
        }

        let element = Element {
            name: qname,
            preferred_prefix: preferred,
            attributes: resolved_attrs,
            namespaces: mappings,
            children: Vec::new(),
        };
        let frame = Frame { staged: pname, element };
        proof {
            lemma_frames_model_push(self.stack@, frame);
            assert(element_model(frame.element).children =~= Seq::<NodeModel>::empty());
            assert(element_model(frame.element).attributes =~= Seq::new(
                frame.element.attributes@.len(),
                |t: int| frame.element.attributes@[t]@,
            ));
            assert(element_model(frame.element).namespaces =~= ns_vec_model(
                frame.element.namespaces@,
            ));
        }
        self.stack.push(frame);
        Ok(())
    }

    /// Apply one recorded event.
    pub fn apply_event(&mut self, input: &[u8], ev: Event) -> (r: Result<(), ParseError>)
        ensures
            match (r, spec_apply_event(input@, old(self)@, ev)) {
                (Ok(u), Ok(st)) => final(self)@ == st,
                (Err(e1), Err(e2)) => e1 == e2,
                _ => false,
            },
    {
        match ev {
            Event::ElementStart { name } => {
                self.element_start(name);
                Ok(())
            },
            Event::ElementEnd { name } => self.element_end(input, name),
            Event::Comment { text } => {
                self.comment(input, text);
                Ok(())
            },
            Event::ProcessingInstruction { target, value } => self.processing_instruction(
                input,
                target,
                value,
            ),
            Event::Text { text } => {
                self.text(input, text);
                Ok(())
            },
            Event::ContentReference { reference } => self.reference(input, reference),
            Event::AttributesStart => {
                self.attributes_start();
                Ok(())
            },
            Event::AttributesEnd => self.attributes_end(input),
            Event::AttributeStart { name } => {
                self.attribute_start(name);
                Ok(())
            },
            Event::AttributeValuePart { value } => {
                self.attribute_value(value);
                Ok(())
            },
            Event::AttributeEnd { name } => {
                self.attribute_end(name);
                Ok(())
            },
        }
    }
}

/// Fold the recorded events into a document: the hydration pass.
pub fn hydrate(input: &[u8], events: &Vec<Event>) -> (r: Result<Document, ParseError>)
    ensures
        match (r, spec_hydrate(input@, events@)) {
            (Ok(d), Ok(m)) => d@ == m,
            (Err(e1), Err(e2)) => e1 == e2,
            _ => false,
        },
{
    let mut h = SaxHydrator::new();
    let mut i: usize = 0;
    proof {
        assert(events@.skip(0) =~= events@);
    }
    while i < events.len()
        invariant
            0 <= i <= events@.len(),
            spec_run(input@, initial_state(), events@) == spec_run(input@, h@, events@.skip(
                i as int,
            )),
        decreases events@.len() - i,
    {
        proof {
            assert(events@.skip(i as int)[0] == events@[i as int]);
            assert(events@.skip(i as int).skip(1) =~= events@.skip(i + 1));
        }
        match h.apply_event(input, events[i]) {
            Ok(u) => {},
            Err(e) => {
                return Err(e);
            },
        }
        i += 1;
    }
    proof {
        assert(events@.skip(events@.len() as int) =~= Seq::<Event>::empty());
    }
    Ok(Document { children: h.roots })
}

} // verus!
