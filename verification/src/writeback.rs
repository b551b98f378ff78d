//! The attribute writeback traversal run after each program: for every
//! (type, object, attribute) combination whose tag is present, one batched
//! RPC call hands the host the object reference, the attribute name and the
//! address of the field, letting the host read and persist the current
//! value. The table is generator-produced metadata with explicit lengths;
//! every present tag is sent every run, with no caching or deduplication.

use vstd::prelude::*;
use crate::api::send_rpc;
use crate::channel::Endpoint;
use crate::kernel_proto::{msg_views, rpc_arg_views, MessageView, RpcArg, RpcArgView};

verus! {

/// One attribute of a type: the byte offset of its field inside an object,
/// the RPC tag describing its shape (absent attributes are skipped), and
/// its name.
pub struct Attr {
    pub offset: usize,
    pub tag: Option<Vec<u8>>,
    pub name: String,
}

/// Mathematical value of an [`Attr`].
pub struct AttrView {
    pub offset: usize,
    pub tag: Option<Seq<u8>>,
    pub name: Seq<char>,
}

impl View for Attr {
    type V = AttrView;

    open spec fn view(&self) -> AttrView {
        AttrView {
            offset: self.offset,
            tag: match self.tag {
                Some(t) => Some(t@),
                None => None,
            },
            name: self.name@,
        }
    }
}

/// One type of the table: its attributes, and the live objects of that
/// type, each named by its base address.
pub struct TypeDesc {
    pub attributes: Vec<Attr>,
    pub objects: Vec<usize>,
}

/// Mathematical value of a [`TypeDesc`].
pub struct TypeDescView {
    pub attributes: Seq<AttrView>,
    pub objects: Seq<usize>,
}

impl View for TypeDesc {
    type V = TypeDescView;

    open spec fn view(&self) -> TypeDescView {
        TypeDescView {
            attributes: self.attributes@.map_values(|a: Attr| a@),
            objects: self.objects@,
        }
    }
}

/// Views of a table, type by type.
pub open spec fn table_views(table: Seq<TypeDesc>) -> Seq<TypeDescView> {
    table.map_values(|t: TypeDesc| t@)
}

/// The messages one attribute of one object contributes: one batched RPC
/// call if its tag is present, nothing otherwise.
pub open spec fn wb_attr(object: usize, a: AttrView) -> Seq<MessageView> {
    match a.tag {
        Some(tag) => seq![
            MessageView::RpcSend {
                service: 0,
                batch: true,
                tag,
                data: seq![
                    RpcArgView::Word(object),
                    RpcArgView::Text(a.name),
                    RpcArgView::Word((object + a.offset) as usize),
                ],
            },
        ],
        None => seq![],
    }
}

/// The messages one object contributes: its attributes in table order.
pub open spec fn wb_attrs(object: usize, attrs: Seq<AttrView>) -> Seq<MessageView>
    decreases attrs.len(),
{
    if attrs.len() == 0 {
        seq![]
    } else {
        wb_attrs(object, attrs.drop_last()) + wb_attr(object, attrs.last())
    }
}

/// The messages one type contributes: its objects in table order.
pub open spec fn wb_objects(objects: Seq<usize>, attrs: Seq<AttrView>) -> Seq<MessageView>
    decreases objects.len(),
{
    if objects.len() == 0 {
        seq![]
    } else {
        wb_objects(objects.drop_last(), attrs) + wb_attrs(objects.last(), attrs)
    }
}

/// The messages the whole table contributes, in traversal order.
pub open spec fn wb_table(types: Seq<TypeDescView>) -> Seq<MessageView>
    decreases types.len(),
{
    if types.len() == 0 {
        seq![]
    } else {
        wb_table(types.drop_last()) + wb_objects(types.last().objects, types.last().attributes)
    }
}

/// Every field address of the table fits the address space.
pub open spec fn wb_ok(types: Seq<TypeDescView>) -> bool {
    forall|ti: int, oi: int, ai: int|
        0 <= ti < types.len() && 0 <= oi < types[ti].objects.len() && 0 <= ai
            < types[ti].attributes.len() ==> types[ti].objects[oi]
            + types[ti].attributes[ai].offset <= usize::MAX
}

proof fn lemma_wb_table_take(types: Seq<TypeDescView>, i: int)
    requires
        0 <= i < types.len(),
    ensures
        wb_table(types.take(i + 1)) == wb_table(types.take(i)) + wb_objects(
            types[i].objects,
            types[i].attributes,
        ),
{
    let t1 = types.take(i + 1);
    assert(t1.drop_last() =~= types.take(i));
    assert(t1.last() == types[i]);
}

proof fn lemma_wb_objects_take(objects: Seq<usize>, attrs: Seq<AttrView>, i: int)
    requires
        0 <= i < objects.len(),
    ensures
        wb_objects(objects.take(i + 1), attrs) == wb_objects(objects.take(i), attrs) + wb_attrs(
            objects[i],
            attrs,
        ),
{
    let t1 = objects.take(i + 1);
    assert(t1.drop_last() =~= objects.take(i));
    assert(t1.last() == objects[i]);
}

proof fn lemma_wb_attrs_take(object: usize, attrs: Seq<AttrView>, i: int)
    requires
        0 <= i < attrs.len(),
    ensures
        wb_attrs(object, attrs.take(i + 1)) == wb_attrs(object, attrs.take(i)) + wb_attr(
            object,
            attrs[i],
        ),
{
    let t1 = attrs.take(i + 1);
    assert(t1.drop_last() =~= attrs.take(i));
    assert(t1.last() == attrs[i]);
}

/// An exact copy of a byte string, so an owned tag can go into each message.
fn copy_bytes(v: &Vec<u8>) -> (r: Vec<u8>)
    ensures
        r@ == v@,
{
    let mut r: Vec<u8> = Vec::new();
    let mut i: usize = 0;
    while i < v.len()
        invariant
            i <= v@.len(),
            r@ == v@.subrange(0, i as int),
        decreases v@.len() - i,
    {
        r.push(v[i]);
        proof {
            assert(v@.subrange(0, i as int).push(v@[i as int]) =~= v@.subrange(0, i as int + 1));
        }
        i = i + 1;
    }
    proof {
        assert(v@.subrange(0, v@.len() as int) =~= v@);
    }
    r
}

/// Walks the whole table and issues one batched RPC call for every present
/// tag: service id zero, with the object reference, the attribute name and
/// the field address as arguments. Linear in the product of the table
/// sizes.
#[verifier::loop_isolation(false)]
pub fn attribute_writeback(ep: &mut Endpoint, table: &Vec<TypeDesc>)
    requires
        wb_ok(table_views(table@)),
    ensures
        final(ep).inbox == old(ep).inbox,
        msg_views(final(ep).sent@) == msg_views(old(ep).sent@) + wb_table(table_views(table@)),
{
    let ghost tv = table_views(table@);
    let ghost sent0 = msg_views(old(ep).sent@);
    let mut ti: usize = 0;
    proof {
        assert(wb_table(tv.take(0)) =~= Seq::<MessageView>::empty());
        assert(sent0 + wb_table(tv.take(0)) =~= sent0);
    }
    while ti < table.len()
        invariant
            ti <= table@.len(),
            ep.inbox == old(ep).inbox,
            msg_views(ep.sent@) == sent0 + wb_table(tv.take(ti as int)),
        decreases table@.len() - ti,
    {
        let ty = &table[ti];
        let ghost tyv = tv[ti as int];
        let ghost mid_ty = msg_views(ep.sent@);
        let mut oi: usize = 0;
        proof {
            assert(wb_objects(tyv.objects.take(0), tyv.attributes) =~= Seq::<
                MessageView,
            >::empty());
            assert(mid_ty + wb_objects(tyv.objects.take(0), tyv.attributes) =~= mid_ty);
        }
        while oi < ty.objects.len()
            invariant
                oi <= tyv.objects.len(),
                ep.inbox == old(ep).inbox,
                msg_views(ep.sent@) == mid_ty + wb_objects(tyv.objects.take(oi as int),
                    tyv.attributes,
                ),
            decreases tyv.objects.len() - oi,
        {
            let object = ty.objects[oi];
            let ghost mid_obj = msg_views(ep.sent@);
            let mut ai: usize = 0;
            proof {
                assert(wb_attrs(object, tyv.attributes.take(0)) =~= Seq::<MessageView>::empty());
                assert(mid_obj + wb_attrs(object, tyv.attributes.take(0)) =~= mid_obj);
            }
            while ai < ty.attributes.len()
                invariant
                    ai <= tyv.attributes.len(),
                    ep.inbox == old(ep).inbox,
                    msg_views(ep.sent@) == mid_obj + wb_attrs(object, tyv.attributes.take(
                        ai as int,
                    )),
                decreases tyv.attributes.len() - ai,
            {
                let attr = &ty.attributes[ai];
                let ghost av = tyv.attributes[ai as int];
                let ghost before = msg_views(ep.sent@);
                match &attr.tag {
                    Some(tag) => {
                        proof {
                            assert(tyv.objects[oi as int] + av.offset <= usize::MAX);
                        }
                        let field = object + attr.offset;
                        let name = attr.name.clone();
                        let data = vec![
                            RpcArg::Word(object),
                            RpcArg::Text(name),
                            RpcArg::Word(field),
                        ];
                        let ghost dv = data@;
                        let tag_copy = copy_bytes(tag);
                        send_rpc(ep, 0, tag_copy, data);
                        proof {
                            assert(rpc_arg_views(dv) =~= seq![
                                RpcArgView::Word(object),
                                RpcArgView::Text(av.name),
                                RpcArgView::Word((object + av.offset) as usize),
                            ]);
                            assert(before.push(
                                MessageView::RpcSend {
                                    service: 0,
                                    batch: true,
                                    tag: av.tag->Some_0,
                                    data: rpc_arg_views(dv),
                                },
                            ) =~= before + wb_attr(object, av));
                        }
                    },
                    None => {
                        proof {
                            assert(wb_attr(object, av) =~= Seq::<MessageView>::empty());
                            assert(before + wb_attr(object, av) =~= before);
                        }
                    },
                }
                proof {
                    lemma_wb_attrs_take(object, tyv.attributes, ai as int);
                }
                ai = ai + 1;
            }
            proof {
                assert(tyv.attributes.take(tyv.attributes.len() as int) =~= tyv.attributes);
                lemma_wb_objects_take(tyv.objects, tyv.attributes, oi as int);
            }
            oi = oi + 1;
        }
        proof {
            assert(tyv.objects.take(tyv.objects.len() as int) =~= tyv.objects);
            lemma_wb_table_take(tv, ti as int);
        }
        ti = ti + 1;
    }
    proof {
        assert(tv.take(tv.len() as int) =~= tv);
    }
}

} // verus!
