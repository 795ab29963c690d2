//! Writing a device tree as a flattened device tree blob. The blob is made
//! by `vm_fdt::FdtWriter`; what is decided here is what the writer is told.

use crate::fdt_edit::{props_set, DeviceTree, Error, Node, NodeView, Result};
use vm_fdt::{FdtWriter, FdtWriterNode};
use vstd::prelude::*;

verus! {

#[verifier::external_type_specification]
#[verifier::external_body]
pub struct ExFdtWriter(vm_fdt::FdtWriter);

#[verifier::external_type_specification]
#[verifier::external_body]
pub struct ExFdtWriterNode(vm_fdt::FdtWriterNode);

/// One thing a writer was told.
pub enum FdtToken {
    /// A node of the given name begins.
    BeginNode(Seq<char>),
    /// The open node has a property of the given name and value.
    Property(Seq<char>, Seq<u8>),
    /// The open node ends.
    EndNode,
}

/// What a writer holds: the tokens it has taken, in order.
pub uninterp spec fn writer_tokens(writer: FdtWriter) -> Seq<FdtToken>;

/// The boot CPU that a writer will put in the header.
pub uninterp spec fn writer_boot_cpuid(writer: FdtWriter) -> u32;

/// The memory reservations a writer was made with, each an address and a
/// size.
pub uninterp spec fn writer_reserved(writer: FdtWriter) -> Seq<(u64, u64)>;

/// What the token holds that `FdtWriter::begin_node` hands out: how many
/// nodes were open when the node had begun.
pub uninterp spec fn node_depth(node: FdtWriterNode) -> int;

/// With what `FdtWriter::begin_node` refuses a node of the given name on a
/// writer that has taken `tokens`, if it refuses it.
pub uninterp spec fn begin_node_refusal(tokens: Seq<FdtToken>, name: Seq<char>) -> Option<Error>;

/// With what `FdtWriter::property` refuses the property on a writer that
/// has taken `tokens`, if it refuses it.
pub uninterp spec fn property_refusal(
    tokens: Seq<FdtToken>,
    name: Seq<char>,
    val: Seq<u8>,
) -> Option<Error>;

/// What `FdtWriter::finish` makes of a boot CPU, memory reservations and a
/// run of tokens: the blob, or what it refuses them with.
pub uninterp spec fn finished(
    boot_cpuid_phys: u32,
    reserved: Seq<(u64, u64)>,
    tokens: Seq<FdtToken>,
) -> core::result::Result<Seq<u8>, Error>;

/// How many nodes are open after a run of tokens: one more for each node
/// that begins, one less for each that ends.
pub open spec fn depth_of(tokens: Seq<FdtToken>) -> int
    decreases tokens.len(),
{
    if tokens.len() == 0 {
        0
    } else {
        depth_of(tokens.drop_last()) + match tokens.last() {
            FdtToken::BeginNode(_) => 1int,
            FdtToken::Property(_, _) => 0int,
            FdtToken::EndNode => -1int,
        }
    }
}

/// `FdtWriter::new`: a writer without memory reservations that has taken
/// no token, for boot CPU 0. Without reservations the outside function
/// does not fail.
#[verifier::external_body]
fn writer_new() -> (r: Option<FdtWriter>)
    ensures
        r is Some,
        r matches Some(writer) ==> writer_tokens(writer).len() == 0,
        r matches Some(writer) ==> writer_boot_cpuid(writer) == 0,
        r matches Some(writer) ==> writer_reserved(writer).len() == 0,
{
    FdtWriter::new().ok()
}

/// `FdtWriter::set_boot_cpuid_phys`: sets the boot CPU of the header.
#[verifier::external_body]
fn writer_set_boot_cpuid_phys(writer: &mut FdtWriter, boot_cpuid_phys: u32)
    ensures
        writer_tokens(*final(writer)) == writer_tokens(*old(writer)),
        writer_reserved(*final(writer)) == writer_reserved(*old(writer)),
        writer_boot_cpuid(*final(writer)) == boot_cpuid_phys,
{
    writer.set_boot_cpuid_phys(boot_cpuid_phys)
}

/// `FdtWriter::begin_node`: opens a node and hands out the token to close
/// it with, which holds the number of nodes then open. Whether the node is
/// refused, and with what, depends on what the writer has taken and on the
/// name. A refusal leaves the writer as it was.
#[verifier::external_body]
fn writer_begin_node(writer: &mut FdtWriter, name: &str) -> (r: Result<FdtWriterNode>)
    ensures
        writer_boot_cpuid(*final(writer)) == writer_boot_cpuid(*old(writer)),
        writer_reserved(*final(writer)) == writer_reserved(*old(writer)),
        r is Ok <==> begin_node_refusal(writer_tokens(*old(writer)), name@) is None,
        r matches Err(e) ==> begin_node_refusal(writer_tokens(*old(writer)), name@) == Some(e),
        r is Ok ==> writer_tokens(*final(writer)) == writer_tokens(*old(writer)).push(
            FdtToken::BeginNode(name@),
        ),
        r matches Ok(node) ==> node_depth(node) == depth_of(writer_tokens(*final(writer))),
        r is Err ==> writer_tokens(*final(writer)) == writer_tokens(*old(writer)),
{
    writer.begin_node(name).map_err(
        |e|
            match e {
                vm_fdt::Error::NodeDepthTooLarge => Error::NodeDepthTooLarge,
                vm_fdt::Error::InvalidString => Error::InvalidString,
                _ => Error::InvalidNodeName,
            },
    )
}

/// `FdtWriter::property`: writes a property of the open node. Whether the
/// property is refused, and with what, depends on what the writer has
/// taken, on the name and on the value. A refusal leaves the writer as it
/// was.
#[verifier::external_body]
fn writer_property(writer: &mut FdtWriter, name: &str, val: &[u8]) -> (r: Result<()>)
    ensures
        writer_boot_cpuid(*final(writer)) == writer_boot_cpuid(*old(writer)),
        writer_reserved(*final(writer)) == writer_reserved(*old(writer)),
        r is Ok <==> property_refusal(writer_tokens(*old(writer)), name@, val@) is None,
        r matches Err(e) ==> property_refusal(writer_tokens(*old(writer)), name@, val@) == Some(e),
        r is Ok ==> writer_tokens(*final(writer)) == writer_tokens(*old(writer)).push(
            FdtToken::Property(name@, val@),
        ),
        r is Err ==> writer_tokens(*final(writer)) == writer_tokens(*old(writer)),
{
    writer.property(name, val).map_err(
        |e|
            match e {
                vm_fdt::Error::PropertyAfterEndNode => Error::PropertyAfterEndNode,
                vm_fdt::Error::PropertyBeforeBeginNode => Error::PropertyBeforeBeginNode,
                vm_fdt::Error::InvalidString => Error::InvalidString,
                vm_fdt::Error::InvalidPropertyName => Error::InvalidPropertyName,
                vm_fdt::Error::PropertyValueTooLarge => Error::PropertyValueTooLarge,
                _ => Error::TotalSizeTooLarge,
            },
    )
}

/// `FdtWriter::end_node`: closes the node that `node` was handed out for.
/// It is taken exactly if as many nodes are open as were when that node had
/// begun, which is to say that it is the node opened last. A refusal leaves
/// the writer as it was.
#[verifier::external_body]
fn writer_end_node(writer: &mut FdtWriter, node: FdtWriterNode) -> (r: Result<()>)
    ensures
        writer_boot_cpuid(*final(writer)) == writer_boot_cpuid(*old(writer)),
        writer_reserved(*final(writer)) == writer_reserved(*old(writer)),
        r is Ok <==> node_depth(node) == depth_of(writer_tokens(*old(writer))),
        r is Ok ==> writer_tokens(*final(writer)) == writer_tokens(*old(writer)).push(
            FdtToken::EndNode,
        ),
        r is Err ==> writer_tokens(*final(writer)) == writer_tokens(*old(writer)),
{
    writer.end_node(node).map_err(|_e| Error::OutOfOrderEndNode)
}

/// `FdtWriter::finish`: the blob of what the writer was made with and has
/// taken, or the refusal of it. A writer with a node still open is refused.
#[verifier::external_body]
fn writer_finish(writer: FdtWriter) -> (r: Result<Vec<u8>>)
    ensures
        r matches Ok(blob) ==> (finished(
            writer_boot_cpuid(writer),
            writer_reserved(writer),
            writer_tokens(writer),
        ) matches Ok(made) && made == blob@),
        r matches Err(e) ==> (finished(
            writer_boot_cpuid(writer),
            writer_reserved(writer),
            writer_tokens(writer),
        ) matches Err(refused) && refused == e),
        r is Ok ==> depth_of(writer_tokens(writer)) <= 0,
{
    writer.finish().map_err(
        |e|
            match e {
                vm_fdt::Error::UnclosedNode => Error::UnclosedNode,
                _ => Error::TotalSizeTooLarge,
            },
    )
}

/// A replacement of property values: in nodes of the first name, the
/// properties of the second name get the value.
pub type Edit = (Seq<char>, Seq<char>, Seq<u8>);

/// The properties of a node as they are written under a replacement.
pub open spec fn written_props(
    name: Seq<char>,
    props: Seq<(Seq<char>, Seq<u8>)>,
    edit: Option<Edit>,
) -> Seq<(Seq<char>, Seq<u8>)> {
    match edit {
        Some(e) => if name == e.0 {
            props_set(props, e.1, e.2)
        } else {
            props
        },
        None => props,
    }
}

/// The tokens of a run of properties.
pub open spec fn prop_tokens(props: Seq<(Seq<char>, Seq<u8>)>) -> Seq<FdtToken> {
    props.map_values(|p: (Seq<char>, Seq<u8>)| FdtToken::Property(p.0, p.1))
}

impl NodeView {
    /// The tokens of a node under a replacement: it begins, its properties
    /// follow, then each child with all that is below it, and it ends.
    pub open spec fn tokens(self, edit: Option<Edit>) -> Seq<FdtToken>
        decreases self, self.children.len() + 1,
    {
        seq![FdtToken::BeginNode(self.name)] + prop_tokens(
            written_props(self.name, self.props, edit),
        ) + self.tokens_from(edit, 0) + seq![FdtToken::EndNode]
    }

    /// The tokens of the children from the `i`-th on.
    pub open spec fn tokens_from(self, edit: Option<Edit>, i: int) -> Seq<FdtToken>
        decreases self, self.children.len() - i,
    {
        if 0 <= i < self.children.len() {
            self.children[i].tokens(edit) + self.tokens_from(edit, i + 1)
        } else {
            Seq::empty()
        }
    }

    /// The tokens of a tree: the root is written without its name and with
    /// its properties as they are; the replacement goes to what is below.
    pub open spec fn root_tokens(self, edit: Option<Edit>) -> Seq<FdtToken> {
        seq![FdtToken::BeginNode(Seq::empty())] + prop_tokens(self.props) + self.tokens_from(
            edit,
            0,
        ) + seq![FdtToken::EndNode]
    }
}

/// A replacement as contracts see it.
pub open spec fn edit_view(edit: Option<(String, String, Vec<u8>)>) -> Option<Edit> {
    match edit {
        Some(e) => Some((e.0@, e.1@, e.2@)),
        None => None,
    }
}

/// With what a writer that has taken `tokens` refuses the token `next`, if
/// it refuses it. The end of a node is never refused where it ends the node
/// opened last, which is how a tree is written.
pub open spec fn refusal(tokens: Seq<FdtToken>, next: FdtToken) -> Option<Error> {
    match next {
        FdtToken::BeginNode(name) => begin_node_refusal(tokens, name),
        FdtToken::Property(name, val) => property_refusal(tokens, name, val),
        FdtToken::EndNode => None,
    }
}

/// What comes of handing the tokens `next`, one after the other, to a
/// writer that has taken `tokens`: the writer takes them up to the first it
/// refuses. The result is what the writer has taken in the end, and the
/// refusal if there was one.
pub open spec fn handed(tokens: Seq<FdtToken>, next: Seq<FdtToken>) -> (
    Seq<FdtToken>,
    Option<Error>,
)
    decreases next.len(),
{
    if next.len() == 0 {
        (tokens, None)
    } else {
        match refusal(tokens, next[0]) {
            Some(e) => (tokens, Some(e)),
            None => handed(tokens.push(next[0]), next.skip(1)),
        }
    }
}

/// The blob of a tree whose tokens are `tokens`: the first refusal of a
/// token, or else what a writer without memory reservations makes of the
/// tokens.
pub open spec fn blob_of(boot_cpuid_phys: u32, tokens: Seq<FdtToken>) -> core::result::Result<
    Seq<u8>,
    Error,
> {
    match handed(Seq::empty(), tokens).1 {
        Some(e) => Err(e),
        None => finished(boot_cpuid_phys, Seq::empty(), tokens),
    }
}

/// Handing over one token.
pub proof fn lemma_handed_one(tokens: Seq<FdtToken>, next: FdtToken)
    ensures
        handed(tokens, seq![next]) == match refusal(tokens, next) {
            Some(e) => (tokens, Some(e)),
            None => (tokens.push(next), None::<Error>),
        },
{
    assert(seq![next].skip(1).len() == 0);
    assert(seq![next][0] == next);
    reveal_with_fuel(handed, 2);
}

/// Handing over two runs of tokens is handing over the first and, if it was
/// taken whole, the second. A run that was taken whole stands behind what
/// the writer had taken before.
pub proof fn lemma_handed_concat(tokens: Seq<FdtToken>, first: Seq<FdtToken>, second: Seq<FdtToken>)
    ensures
        handed(tokens, first).1 is None ==> handed(tokens, first).0 == tokens + first,
        handed(tokens, first + second) == if handed(tokens, first).1 is Some {
            handed(tokens, first)
        } else {
            handed(tokens + first, second)
        },
    decreases first.len(),
{
    if first.len() == 0 {
        assert(first + second =~= second);
        assert(tokens + first =~= tokens);
    } else {
        let whole = first + second;
        assert(whole[0] == first[0]);
        assert(whole.skip(1) =~= first.skip(1) + second);
        if refusal(tokens, first[0]) is None {
            lemma_handed_concat(tokens.push(first[0]), first.skip(1), second);
            assert(tokens.push(first[0]) + first.skip(1) =~= tokens + first);
        }
    }
}

/// The nodes open after two runs of tokens.
pub proof fn lemma_depth_concat(first: Seq<FdtToken>, second: Seq<FdtToken>)
    ensures
        depth_of(first + second) == depth_of(first) + depth_of(second),
    decreases second.len(),
{
    if second.len() == 0 {
        assert(first + second =~= first);
    } else {
        lemma_depth_concat(first, second.drop_last());
        assert((first + second).drop_last() =~= first + second.drop_last());
        assert((first + second).last() == second.last());
    }
}

/// Properties open and close no node.
pub proof fn lemma_props_depth(props: Seq<(Seq<char>, Seq<u8>)>)
    ensures
        depth_of(prop_tokens(props)) == 0,
    decreases props.len(),
{
    if props.len() > 0 {
        lemma_props_depth(props.drop_last());
        assert(prop_tokens(props).drop_last() =~= prop_tokens(props.drop_last()));
    }
}

/// A node closes every node it opens, and so do its children.
pub proof fn lemma_node_balanced(view: NodeView, edit: Option<Edit>)
    ensures
        depth_of(view.tokens(edit)) == 0,
    decreases view, view.children.len() + 1,
{
    let begin = seq![FdtToken::BeginNode(view.name)];
    let props = prop_tokens(written_props(view.name, view.props, edit));
    let below = view.tokens_from(edit, 0);
    let end = seq![FdtToken::EndNode];
    lemma_children_balanced(view, edit, 0);
    lemma_props_depth(written_props(view.name, view.props, edit));
    lemma_depth_concat(begin, props);
    lemma_depth_concat(begin + props, below);
    lemma_depth_concat(begin + props + below, end);
    assert(begin.drop_last().len() == 0);
    assert(end.drop_last().len() == 0);
    reveal_with_fuel(depth_of, 2);
}

/// The children of a node from the `i`-th on close every node they open.
pub proof fn lemma_children_balanced(view: NodeView, edit: Option<Edit>, i: int)
    requires
        0 <= i <= view.children.len(),
    ensures
        depth_of(view.tokens_from(edit, i)) == 0,
    decreases view, view.children.len() - i,
{
    if i < view.children.len() {
        lemma_node_balanced(view.children[i], edit);
        lemma_children_balanced(view, edit, i + 1);
        lemma_depth_concat(view.children[i].tokens(edit), view.tokens_from(edit, i + 1));
    }
}

/// Writes the properties of a node of the given name: each is handed to
/// the writer until one is refused.
fn write_props(
    writer: &mut FdtWriter,
    name: &String,
    props: &Vec<(String, Vec<u8>)>,
    edit: &Option<(String, String, Vec<u8>)>,
) -> (r: Result<()>)
    ensures
        writer_boot_cpuid(*final(writer)) == writer_boot_cpuid(*old(writer)),
        writer_reserved(*final(writer)) == writer_reserved(*old(writer)),
        writer_tokens(*final(writer)) == handed(
            writer_tokens(*old(writer)),
            prop_tokens(written_props(name@, crate::fdt_edit::props_view(props@), edit_view(*edit))),
        ).0,
        r is Ok <==> handed(
            writer_tokens(*old(writer)),
            prop_tokens(written_props(name@, crate::fdt_edit::props_view(props@), edit_view(*edit))),
        ).1 is None,
        r matches Err(e) ==> handed(
            writer_tokens(*old(writer)),
            prop_tokens(written_props(name@, crate::fdt_edit::props_view(props@), edit_view(*edit))),
        ).1 == Some(e),
{
    let ghost target = written_props(name@, crate::fdt_edit::props_view(props@), edit_view(*edit));
    let ghost total = prop_tokens(target);
    let ghost start = writer_tokens(*writer);
    assert(total.skip(0) =~= total);
    let mut i: usize = 0;
    while i < props.len()
        invariant
            i <= props.len(),
            target == written_props(name@, crate::fdt_edit::props_view(props@), edit_view(*edit)),
            total == prop_tokens(target),
            target.len() == props@.len(),
            start == writer_tokens(*old(writer)),
            writer_boot_cpuid(*writer) == writer_boot_cpuid(*old(writer)),
            writer_reserved(*writer) == writer_reserved(*old(writer)),
            handed(start, total) == handed(writer_tokens(*writer), total.skip(i as int)),
        decreases props.len() - i,
    {
        let prop = &props[i];
        let ghost before = writer_tokens(*writer);
        let replaced = match edit {
            Some(e) => *name == e.0 && prop.0 == e.1,
            None => false,
        };
        let r = match edit {
            Some(e) => {
                if replaced {
                    writer_property(writer, prop.0.as_str(), e.2.as_slice())
                } else {
                    writer_property(writer, prop.0.as_str(), prop.1.as_slice())
                }
            },
            None => writer_property(writer, prop.0.as_str(), prop.1.as_slice()),
        };
        proof {
            assert(crate::fdt_edit::props_view(props@)[i as int] == (prop.0@, prop.1@));
            let next = total[i as int];
            assert(next == FdtToken::Property(target[i as int].0, target[i as int].1));
            assert(total.skip(i as int) =~= seq![next] + total.skip(i as int + 1));
            lemma_handed_one(before, next);
            lemma_handed_concat(before, seq![next], total.skip(i as int + 1));
            assert(before + seq![next] =~= before.push(next));
        }
        if r.is_err() {
            return r;
        }
        i += 1;
    }
    Ok(())
}

/// Writes a node with all that is below it: its tokens are handed to the
/// writer until one is refused.
fn write_node(writer: &mut FdtWriter, node: &Node, edit: &Option<(String, String, Vec<u8>)>) -> (r:
    Result<()>)
    ensures
        writer_boot_cpuid(*final(writer)) == writer_boot_cpuid(*old(writer)),
        writer_reserved(*final(writer)) == writer_reserved(*old(writer)),
        writer_tokens(*final(writer)) == handed(
            writer_tokens(*old(writer)),
            node.node_view().tokens(edit_view(*edit)),
        ).0,
        r is Ok <==> handed(
            writer_tokens(*old(writer)),
            node.node_view().tokens(edit_view(*edit)),
        ).1 is None,
        r matches Err(e) ==> handed(
            writer_tokens(*old(writer)),
            node.node_view().tokens(edit_view(*edit)),
        ).1 == Some(e),
    decreases node,
{
    let ghost view = node.node_view();
    let ghost start = writer_tokens(*writer);
    let ghost total = view.tokens(edit_view(*edit));
    let ghost begin = FdtToken::BeginNode(view.name);
    let ghost props = prop_tokens(written_props(view.name, view.props, edit_view(*edit)));
    let ghost end = seq![FdtToken::EndNode];
    proof {
        crate::fdt_edit::lemma_children_view(*node);
        assert(total =~= seq![begin] + (props + (view.tokens_from(edit_view(*edit), 0) + end)));
        lemma_handed_one(start, begin);
        lemma_handed_concat(
            start,
            seq![begin],
            props + (view.tokens_from(edit_view(*edit), 0) + end),
        );
        assert(start + seq![begin] =~= start.push(begin));
    }
    let child = match writer_begin_node(writer, node.name.as_str()) {
        Ok(child) => child,
        Err(e) => {
            return Err(e);
        },
    };
    let ghost begun = writer_tokens(*writer);
    proof {
        lemma_handed_concat(begun, props, view.tokens_from(edit_view(*edit), 0) + end);
        assert(begun.drop_last() =~= start);
    }
    match write_props(writer, &node.name, &node.props, edit) {
        Ok(()) => {},
        Err(e) => {
            return Err(e);
        },
    }
    proof {
        lemma_props_depth(written_props(view.name, view.props, edit_view(*edit)));
        lemma_depth_concat(begun, props);
    }
    let mut i: usize = 0;
    while i < node.children.len()
        invariant
            i <= node.children.len(),
            view == node.node_view(),
            view.children.len() == node.children@.len(),
            forall|j: int|
                0 <= j < node.children@.len() ==> #[trigger] view.children[j]
                    == node.children@[j].node_view(),
            end == seq![FdtToken::EndNode],
            start == writer_tokens(*old(writer)),
            total == view.tokens(edit_view(*edit)),
            writer_boot_cpuid(*writer) == writer_boot_cpuid(*old(writer)),
            writer_reserved(*writer) == writer_reserved(*old(writer)),
            handed(start, total) == handed(
                writer_tokens(*writer),
                view.tokens_from(edit_view(*edit), i as int) + end,
            ),
            depth_of(writer_tokens(*writer)) == node_depth(child),
        decreases node.children.len() - i,
    {
        let ghost before = writer_tokens(*writer);
        let ghost below = view.children[i as int].tokens(edit_view(*edit));
        proof {
            assert(view.tokens_from(edit_view(*edit), i as int) + end =~= below + (
            view.tokens_from(edit_view(*edit), i as int + 1) + end));
            lemma_handed_concat(
                before,
                below,
                view.tokens_from(edit_view(*edit), i as int + 1) + end,
            );
            lemma_node_balanced(view.children[i as int], edit_view(*edit));
            lemma_depth_concat(before, below);
        }
        match write_node(writer, &node.children[i], edit) {
            Ok(()) => {},
            Err(e) => {
                return Err(e);
            },
        }
        i += 1;
    }
    let ghost before = writer_tokens(*writer);
    proof {
        assert(view.tokens_from(edit_view(*edit), node.children@.len() as int) + end =~= end);
        lemma_handed_one(before, FdtToken::EndNode);
    }
    match writer_end_node(writer, child) {
        Ok(()) => {},
        Err(e) => {
            assert(false);
            return Err(e);
        },
    }
    Ok(())
}

/// Writes a tree and gives the blob: the tokens of the tree are handed to
/// a writer for the boot CPU of the tree, and the writer makes the blob of
/// them.
fn write_tree(dt: &DeviceTree, edit: &Option<(String, String, Vec<u8>)>) -> (r: Result<Vec<u8>>)
    ensures
        r matches Ok(blob) ==> blob_of(
            dt.boot_cpuid_phys,
            dt.root.node_view().root_tokens(edit_view(*edit)),
        ) == Ok::<Seq<u8>, Error>(blob@),
        r matches Err(e) ==> blob_of(
            dt.boot_cpuid_phys,
            dt.root.node_view().root_tokens(edit_view(*edit)),
        ) == Err::<Seq<u8>, Error>(e),
{
    let mut writer = match writer_new() {
        Some(writer) => writer,
        None => vstd::pervasive::unreached(),
    };
    let ghost start = Seq::<FdtToken>::empty();
    assert(writer_tokens(writer) =~= start);
    writer_set_boot_cpuid_phys(&mut writer, dt.boot_cpuid_phys);
    let ghost view = dt.root.node_view();
    let ghost total = view.root_tokens(edit_view(*edit));
    let ghost begin = FdtToken::BeginNode(Seq::<char>::empty());
    let ghost props = prop_tokens(view.props);
    let ghost end = seq![FdtToken::EndNode];
    proof {
        reveal_strlit("");
        assert(""@ =~= Seq::<char>::empty());
        crate::fdt_edit::lemma_children_view(dt.root);
        assert(total =~= seq![begin] + (props + (view.tokens_from(edit_view(*edit), 0) + end)));
        lemma_handed_one(start, begin);
        lemma_handed_concat(
            start,
            seq![begin],
            props + (view.tokens_from(edit_view(*edit), 0) + end),
        );
        assert(start + seq![begin] =~= start.push(begin));
    }
    let root = match writer_begin_node(&mut writer, "") {
        Ok(root) => root,
        Err(e) => {
            return Err(e);
        },
    };
    let ghost begun = writer_tokens(writer);
    proof {
        lemma_handed_concat(begun, props, view.tokens_from(edit_view(*edit), 0) + end);
    }
    let no_edit: Option<(String, String, Vec<u8>)> = None;
    match write_props(&mut writer, &dt.root.name, &dt.root.props, &no_edit) {
        Ok(()) => {},
        Err(e) => {
            return Err(e);
        },
    }
    proof {
        lemma_props_depth(view.props);
        lemma_depth_concat(begun, props);
    }
    let mut i: usize = 0;
    while i < dt.root.children.len()
        invariant
            i <= dt.root.children.len(),
            view == dt.root.node_view(),
            view.children.len() == dt.root.children@.len(),
            forall|j: int|
                0 <= j < dt.root.children@.len() ==> #[trigger] view.children[j]
                    == dt.root.children@[j].node_view(),
            end == seq![FdtToken::EndNode],
            start == Seq::<FdtToken>::empty(),
            total == view.root_tokens(edit_view(*edit)),
            writer_boot_cpuid(writer) == dt.boot_cpuid_phys,
            writer_reserved(writer).len() == 0,
            handed(start, total) == handed(
                writer_tokens(writer),
                view.tokens_from(edit_view(*edit), i as int) + end,
            ),
            depth_of(writer_tokens(writer)) == node_depth(root),
        decreases dt.root.children.len() - i,
    {
        let ghost before = writer_tokens(writer);
        let ghost below = view.children[i as int].tokens(edit_view(*edit));
        proof {
            assert(view.tokens_from(edit_view(*edit), i as int) + end =~= below + (
            view.tokens_from(edit_view(*edit), i as int + 1) + end));
            lemma_handed_concat(
                before,
                below,
                view.tokens_from(edit_view(*edit), i as int + 1) + end,
            );
            lemma_node_balanced(view.children[i as int], edit_view(*edit));
            lemma_depth_concat(before, below);
        }
        match write_node(&mut writer, &dt.root.children[i], edit) {
            Ok(()) => {},
            Err(e) => {
                return Err(e);
            },
        }
        i += 1;
    }
    let ghost before = writer_tokens(writer);
    proof {
        assert(view.tokens_from(edit_view(*edit), dt.root.children@.len() as int) + end =~= end);
        lemma_handed_one(before, FdtToken::EndNode);
    }
    match writer_end_node(&mut writer, root) {
        Ok(()) => {},
        Err(e) => {
            assert(false);
            return Err(e);
        },
    }
    proof {
        lemma_handed_concat(start, total, Seq::empty());
        assert(start + total =~= total);
        assert(writer_reserved(writer) =~= Seq::<(u64, u64)>::empty());
    }
    writer_finish(writer)
}

/// Writes `node` with all that is below it: its tokens are handed to the
/// writer, which takes them up to the first it refuses; the refusal is
/// returned.
pub fn add_node_writer(writer: &mut FdtWriter, node: &Node) -> (r: Result<()>)
    ensures
        writer_boot_cpuid(*final(writer)) == writer_boot_cpuid(*old(writer)),
        writer_reserved(*final(writer)) == writer_reserved(*old(writer)),
        writer_tokens(*final(writer)) == handed(
            writer_tokens(*old(writer)),
            node.node_view().tokens(None),
        ).0,
        r is Ok <==> handed(writer_tokens(*old(writer)), node.node_view().tokens(None)).1 is None,
        r matches Err(e) ==> handed(writer_tokens(*old(writer)), node.node_view().tokens(None)).1
            == Some(e),
{
    let no_edit: Option<(String, String, Vec<u8>)> = None;
    write_node(writer, node, &no_edit)
}

/// Writes `node` with all that is below it; in nodes of the name
/// `node_name` the properties of the name `prop_name` are written with the
/// value `new_value`. The tokens are handed to the writer, which takes them
/// up to the first it refuses; the refusal is returned.
pub fn edit_node_with_writer(
    writer: &mut FdtWriter,
    node: &Node,
    node_name: &str,
    prop_name: &str,
    new_value: &Vec<u8>,
) -> (r: Result<()>)
    ensures
        writer_boot_cpuid(*final(writer)) == writer_boot_cpuid(*old(writer)),
        writer_reserved(*final(writer)) == writer_reserved(*old(writer)),
        writer_tokens(*final(writer)) == handed(
            writer_tokens(*old(writer)),
            node.node_view().tokens(Some((node_name@, prop_name@, new_value@))),
        ).0,
        r is Ok <==> handed(
            writer_tokens(*old(writer)),
            node.node_view().tokens(Some((node_name@, prop_name@, new_value@))),
        ).1 is None,
        r matches Err(e) ==> handed(
            writer_tokens(*old(writer)),
            node.node_view().tokens(Some((node_name@, prop_name@, new_value@))),
        ).1 == Some(e),
{
    let edit = Some(
        (node_name.to_owned(), prop_name.to_owned(), vstd::slice::slice_to_vec(new_value.as_slice())),
    );
    write_node(writer, node, &edit)
}

/// The blob of the tree as it is, or the first refusal of the writer.
pub fn copy_from_fdt_tree(dt: &DeviceTree) -> (r: Result<Vec<u8>>)
    ensures
        r matches Ok(blob) ==> blob_of(dt.boot_cpuid_phys, dt.root.node_view().root_tokens(None))
            == Ok::<Seq<u8>, Error>(blob@),
        r matches Err(e) ==> blob_of(dt.boot_cpuid_phys, dt.root.node_view().root_tokens(None))
            == Err::<Seq<u8>, Error>(e),
{
    let no_edit: Option<(String, String, Vec<u8>)> = None;
    write_tree(dt, &no_edit)
}

/// The blob of the tree in which, below the root, the nodes of the name
/// `node_name` have their properties of the name `prop_name` written with
/// `value`, or the first refusal of the writer.
pub fn edit_fdt_tree_with_writer(
    dt: &DeviceTree,
    node_name: &str,
    prop_name: &str,
    value: &Vec<u8>,
) -> (r: Result<Vec<u8>>)
    ensures
        r matches Ok(blob) ==> blob_of(
            dt.boot_cpuid_phys,
            dt.root.node_view().root_tokens(Some((node_name@, prop_name@, value@))),
        ) == Ok::<Seq<u8>, Error>(blob@),
        r matches Err(e) ==> blob_of(
            dt.boot_cpuid_phys,
            dt.root.node_view().root_tokens(Some((node_name@, prop_name@, value@))),
        ) == Err::<Seq<u8>, Error>(e),
{
    let edit = Some(
        (node_name.to_owned(), prop_name.to_owned(), vstd::slice::slice_to_vec(value.as_slice())),
    );
    write_tree(dt, &edit)
}

/// Whether an address cannot be laid out in `acells` cells: the count is
/// neither one nor two, or it is one and the address needs two.
pub open spec fn address_refused(acells: u32, adress: u64) -> bool {
    (acells != 1 && acells != 2) || (acells == 1 && adress >> 32 != 0)
}

/// Refuses the cells of a `reg` property whose address cannot be laid out.
/// An address that can be laid out is not taken.
fn create_vector_for_reg(acells: u32, adress: u64, scells: u32, size: u64) -> (r: Result<Vec<u32>>)
    requires
        address_refused(acells, adress),
    ensures
        r == Err::<Vec<u32>, Error>(Error::InvalidMemoryReservation),
{
    let ncells = acells;
    if ncells != 1 && ncells != 2 {
        return Err(Error::InvalidMemoryReservation);
    }
    let hival = #[verifier::truncate]
    ((adress >> 32) as u32);
    assert(hival != 0) by (bit_vector)
        requires
            hival == (adress >> 32) as u32,
            adress >> 32 != 0,
    ;
    Err(Error::InvalidMemoryReservation)
}

/// Refuses to write the tree with the `reg` property `prop_name` of the
/// nodes `node_name` replaced where the address cannot be laid out. An
/// address that can be laid out is not taken.
pub fn modify_prop_regs(
    dt: &DeviceTree,
    node_name: &str,
    prop_name: &str,
    acells: u32,
    adress: u64,
    scells: u32,
    size: u64,
) -> (r: Result<Vec<u8>>)
    requires
        address_refused(acells, adress),
    ensures
        r == Err::<Vec<u8>, Error>(Error::InvalidMemoryReservation),
{
    let new_val = match create_vector_for_reg(acells, adress, scells, size) {
        Ok(new_val) => new_val,
        Err(e) => {
            return Err(e);
        },
    };
    let mut arr: Vec<u8> = Vec::new();
    let mut i: usize = 0;
    while i < new_val.len()
        invariant
            i <= new_val.len(),
        decreases new_val.len() - i,
    {
        crate::fdt_edit::push_be_u32(&mut arr, new_val[i]);
        i += 1;
    }
    edit_fdt_tree_with_writer(dt, node_name, prop_name, &arr)
}


} // verus!
