//! Building the nodes of a device tree: a node is a name and an ordered list
//! of properties, each a key and the bytes of its value.

use vstd::prelude::*;
use vstd::slice::slice_to_vec;
use vstd::utf8::encode_utf8;

pub mod writer;

verus! {

/// Errors of device-tree editing.
#[derive(Clone, Copy, Debug, PartialEq, Eq, Structural)]
pub enum Error {
    /// A string holds a NUL byte and cannot be written as a C string.
    InvalidString,
    /// An address or a size does not fit the cells that were allotted to it.
    InvalidMemoryReservation,
    /// Properties may not be added before beginning a node.
    PropertyBeforeBeginNode,
    /// Properties may not be added after a node has been ended.
    PropertyAfterEndNode,
    /// Property value size must fit in 32 bits.
    PropertyValueTooLarge,
    /// Total size must fit in 32 bits.
    TotalSizeTooLarge,
    /// Attempted to end a node that was not the most recent.
    OutOfOrderEndNode,
    /// Attempted to finish without ending all nodes.
    UnclosedNode,
    /// Invalid node name.
    InvalidNodeName,
    /// Invalid property name.
    InvalidPropertyName,
    /// Node depth exceeds what a blob may hold.
    NodeDepthTooLarge,
}

pub type Result<T> = core::result::Result<T, Error>;

/// The four bytes of `val`, most significant first.
pub open spec fn be_bytes_u32(val: u32) -> Seq<u8> {
    seq![(val >> 24) as u8, (val >> 16) as u8, (val >> 8) as u8, val as u8]
}

/// The eight bytes of `val`, most significant first.
pub open spec fn be_bytes_u64(val: u64) -> Seq<u8> {
    seq![
        (val >> 56) as u8,
        (val >> 48) as u8,
        (val >> 40) as u8,
        (val >> 32) as u8,
        (val >> 24) as u8,
        (val >> 16) as u8,
        (val >> 8) as u8,
        val as u8,
    ]
}

/// The cells of a property, each written most significant byte first, one
/// after the other.
pub open spec fn be_cells_u32(cells: Seq<u32>) -> Seq<u8>
    decreases cells.len(),
{
    if cells.len() == 0 {
        Seq::empty()
    } else {
        be_cells_u32(cells.drop_last()) + be_bytes_u32(cells.last())
    }
}

/// As `be_cells_u32`, for cells of 64 bits.
pub open spec fn be_cells_u64(cells: Seq<u64>) -> Seq<u8>
    decreases cells.len(),
{
    if cells.len() == 0 {
        Seq::empty()
    } else {
        be_cells_u64(cells.drop_last()) + be_bytes_u64(cells.last())
    }
}

/// Whether the bytes can be written as a C string: none of them is NUL.
pub open spec fn nul_free(bytes: Seq<u8>) -> bool {
    forall|i: int| 0 <= i < bytes.len() ==> bytes[i] != 0
}

/// The bytes followed by the terminating NUL.
pub open spec fn c_string(bytes: Seq<u8>) -> Seq<u8> {
    bytes.push(0u8)
}

/// Whether every string of the list can be written as a C string.
pub open spec fn all_nul_free(values: Seq<String>) -> bool {
    forall|i: int| 0 <= i < values.len() ==> nul_free(encode_utf8(#[trigger] values[i]@))
}

/// The value of a string-list property: every string with its terminating
/// NUL, one after the other.
pub open spec fn c_string_list(values: Seq<String>) -> Seq<u8>
    decreases values.len(),
{
    if values.len() == 0 {
        Seq::empty()
    } else {
        c_string_list(values.drop_last()) + c_string(encode_utf8(values.last()@))
    }
}

/// A node under construction.
pub struct NodeBuilder {
    pub name: String,
    /// A list of node properties, `(key, value)`.
    pub props: Vec<(String, Vec<u8>)>,
}

/// One property as contracts see it: its key and the bytes of its value.
pub open spec fn prop_view(prop: (String, Vec<u8>)) -> (Seq<char>, Seq<u8>) {
    (prop.0@, prop.1@)
}

/// Looks for a NUL byte.
fn has_nul(bytes: &[u8]) -> (found: bool)
    ensures
        found == !nul_free(bytes@),
{
    let mut i: usize = 0;
    while i < bytes.len()
        invariant
            i <= bytes.len(),
            forall|j: int| 0 <= j < i ==> bytes@[j] != 0,
        decreases bytes.len() - i,
    {
        if bytes[i] == 0 {
            return true;
        }
        i += 1;
    }
    false
}

pub(crate) fn push_be_u32(out: &mut Vec<u8>, val: u32)
    ensures
        final(out)@ == old(out)@ + be_bytes_u32(val),
{
    out.push((val >> 24) as u8);
    out.push((val >> 16) as u8);
    out.push((val >> 8) as u8);
    out.push(val as u8);
}

fn push_be_u64(out: &mut Vec<u8>, val: u64)
    ensures
        final(out)@ == old(out)@ + be_bytes_u64(val),
{
    out.push((val >> 56) as u8);
    out.push((val >> 48) as u8);
    out.push((val >> 40) as u8);
    out.push((val >> 32) as u8);
    out.push((val >> 24) as u8);
    out.push((val >> 16) as u8);
    out.push((val >> 8) as u8);
    out.push(val as u8);
}

impl NodeBuilder {
    /// The properties written so far, in order.
    pub open spec fn props_view(&self) -> Seq<(Seq<char>, Seq<u8>)> {
        self.props@.map_values(|p: (String, Vec<u8>)| prop_view(p))
    }

    /// What holds after one more property was written: the name stays and
    /// the property stands last.
    pub open spec fn appended(&self, before: &NodeBuilder, key: Seq<char>, value: Seq<u8>) -> bool {
        &&& self.name == before.name
        &&& self.props_view() == before.props_view().push((key, value))
    }

    /// A node of the given name without properties.
    pub fn new(node_name: &str) -> (node: NodeBuilder)
        ensures
            node.name@ == node_name@,
            node.props_view() == Seq::<(Seq<char>, Seq<u8>)>::empty(),
    {
        NodeBuilder { name: node_name.to_owned(), props: Vec::new() }
    }

    /// Writes a property with the given bytes as its value.
    pub fn add_property(&mut self, prop_name: &str, value: &[u8]) -> (r: Result<()>)
        ensures
            r is Ok,
            final(self).appended(old(self), prop_name@, value@),
    {
        self.props.push((prop_name.to_owned(), slice_to_vec(value)));
        assert(self.props_view() =~= old(self).props_view().push((prop_name@, value@)));
        Ok(())
    }

    /// Write an empty property.
    pub fn property_null(&mut self, name: &str) -> (r: Result<()>)
        ensures
            r is Ok,
            final(self).appended(old(self), name@, Seq::<u8>::empty()),
    {
        let empty: Vec<u8> = Vec::new();
        self.add_property(name, empty.as_slice())
    }

    /// Write a string property: the string's bytes and a terminating NUL.
    /// A string that holds a NUL is refused and nothing is written.
    pub fn property_string(&mut self, name: &str, val: &str) -> (r: Result<()>)
        ensures
            r is Ok <==> nul_free(encode_utf8(val@)),
            r is Ok ==> final(self).appended(old(self), name@, c_string(encode_utf8(val@))),
            r is Err ==> r == Err::<(), Error>(Error::InvalidString) && *final(self) == *old(self),
    {
        let bytes = val.as_bytes();
        if has_nul(bytes) {
            return Err(Error::InvalidString);
        }
        let mut cstr_value = slice_to_vec(bytes);
        cstr_value.push(0u8);
        self.add_property(name, cstr_value.as_slice())
    }

    /// Write a stringlist property: every string with its terminating NUL.
    /// If one of the strings holds a NUL nothing is written.
    pub fn property_string_list(&mut self, name: &str, values: Vec<String>) -> (r: Result<()>)
        ensures
            r is Ok <==> all_nul_free(values@),
            r is Ok ==> final(self).appended(old(self), name@, c_string_list(values@)),
            r is Err ==> r == Err::<(), Error>(Error::InvalidString) && *final(self) == *old(self),
    {
        let mut bytes: Vec<u8> = Vec::new();
        let mut i: usize = 0;
        while i < values.len()
            invariant
                i <= values.len(),
                all_nul_free(values@.take(i as int)),
                bytes@ == c_string_list(values@.take(i as int)),
            decreases values.len() - i,
        {
            let s = values[i].as_str().as_bytes();
            if has_nul(s) {
                return Err(Error::InvalidString);
            }
            let mut k: usize = 0;
            while k < s.len()
                invariant
                    k <= s.len(),
                    bytes@ == c_string_list(values@.take(i as int)) + s@.take(k as int),
                decreases s.len() - k,
            {
                bytes.push(s[k]);
                assert(s@.take(k as int + 1) =~= s@.take(k as int).push(s@[k as int]));
                k += 1;
            }
            bytes.push(0u8);
            proof {
                let next = values@.take(i as int + 1);
                assert(next.drop_last() =~= values@.take(i as int));
                assert(next.last() == values@[i as int]);
                assert(s@.take(s.len() as int) =~= s@);
                assert forall|j: int| 0 <= j < next.len() implies nul_free(
                    encode_utf8(#[trigger] next[j]@),
                ) by {
                    if j < i {
                        assert(next[j] == values@.take(i as int)[j]);
                    }
                }
            }
            i += 1;
        }
        assert(values@.take(values.len() as int) =~= values@);
        self.add_property(name, bytes.as_slice())
    }

    /// Write a 32-bit unsigned integer property.
    pub fn property_u32(&mut self, name: &str, val: u32) -> (r: Result<()>)
        ensures
            r is Ok,
            final(self).appended(old(self), name@, be_bytes_u32(val)),
    {
        let mut bytes: Vec<u8> = Vec::new();
        push_be_u32(&mut bytes, val);
        self.add_property(name, bytes.as_slice())
    }

    /// Write a 64-bit unsigned integer property.
    pub fn property_u64(&mut self, name: &str, val: u64) -> (r: Result<()>)
        ensures
            r is Ok,
            final(self).appended(old(self), name@, be_bytes_u64(val)),
    {
        let mut bytes: Vec<u8> = Vec::new();
        push_be_u64(&mut bytes, val);
        self.add_property(name, bytes.as_slice())
    }

    /// Write a property containing an array of 32-bit unsigned integers.
    pub fn property_array_u32(&mut self, name: &str, cells: &[u32]) -> (r: Result<()>)
        ensures
            r is Ok,
            final(self).appended(old(self), name@, be_cells_u32(cells@)),
    {
        let arr = cells_to_bytes(cells);
        self.add_property(name, arr.as_slice())
    }

    /// Write a property containing an array of 64-bit unsigned integers.
    pub fn property_array_u64(&mut self, name: &str, cells: &[u64]) -> (r: Result<()>)
        ensures
            r is Ok,
            final(self).appended(old(self), name@, be_cells_u64(cells@)),
    {
        let mut arr: Vec<u8> = Vec::new();
        let mut i: usize = 0;
        while i < cells.len()
            invariant
                i <= cells.len(),
                arr@ == be_cells_u64(cells@.take(i as int)),
            decreases cells.len() - i,
        {
            push_be_u64(&mut arr, cells[i]);
            proof {
                let next = cells@.take(i as int + 1);
                assert(next.drop_last() =~= cells@.take(i as int));
            }
            i += 1;
        }
        assert(cells@.take(cells.len() as int) =~= cells@);
        self.add_property(name, arr.as_slice())
    }
}

/// A cell array is four bytes per cell long.
pub proof fn lemma_be_cells_u32_len(cells: Seq<u32>)
    ensures
        be_cells_u32(cells).len() == 4 * cells.len(),
    decreases cells.len(),
{
    if cells.len() > 0 {
        lemma_be_cells_u32_len(cells.drop_last());
    }
}

/// A cell array of 64-bit cells is eight bytes per cell long.
pub proof fn lemma_be_cells_u64_len(cells: Seq<u64>)
    ensures
        be_cells_u64(cells).len() == 8 * cells.len(),
    decreases cells.len(),
{
    if cells.len() > 0 {
        lemma_be_cells_u64_len(cells.drop_last());
    }
}

/// A single node of a device tree.
pub struct Node {
    /// The name of the node, as it appears in the node path.
    pub name: String,
    /// A list of node properties, `(key, value)`.
    pub props: Vec<(String, Vec<u8>)>,
    /// Child nodes of this node.
    pub children: Vec<Node>,
}

/// A device tree.
pub struct DeviceTree {
    /// Version, as indicated by the version header.
    pub version: u32,
    /// The number of the CPU the system boots from.
    pub boot_cpuid_phys: u32,
    /// A list of tuples of `(offset, length)`, indicating reserved memory
    /// regions.
    pub reserved: Vec<(u64, u64)>,
    /// The root node.
    pub root: Node,
}

/// A node as contracts see it.
pub struct NodeView {
    pub name: Seq<char>,
    pub props: Seq<(Seq<char>, Seq<u8>)>,
    pub children: Seq<NodeView>,
}

/// The properties of a node as contracts see them.
pub open spec fn props_view(props: Seq<(String, Vec<u8>)>) -> Seq<(Seq<char>, Seq<u8>)> {
    props.map_values(|p: (String, Vec<u8>)| prop_view(p))
}

impl Node {
    /// The node with all that is below it.
    pub open spec fn view_from(self, i: int) -> Seq<NodeView>
        decreases self, self.children@.len() - i, 0int,
    {
        if 0 <= i < self.children@.len() {
            seq![self.children@[i].node_view()] + self.view_from(i + 1)
        } else {
            Seq::empty()
        }
    }

    /// The node as contracts see it.
    pub open spec fn node_view(self) -> NodeView
        decreases self, self.children@.len() + 1, 0int,
    {
        NodeView { name: self.name@, props: props_view(self.props@), children: self.view_from(0) }
    }
}


impl NodeView {
    /// The first node of the given name, the node itself before its
    /// children and every child with all that is below it before the next.
    pub open spec fn find(self, name: Seq<char>) -> Option<NodeView>
        decreases self, self.children.len() + 1,
    {
        if self.name == name {
            Some(self)
        } else {
            self.find_from(name, 0)
        }
    }

    /// As `find`, among the children from the `i`-th on.
    pub open spec fn find_from(self, name: Seq<char>, i: int) -> Option<NodeView>
        decreases self, self.children.len() - i,
    {
        if 0 <= i < self.children.len() {
            match self.children[i].find(name) {
                Some(found) => Some(found),
                None => self.find_from(name, i + 1),
            }
        } else {
            None
        }
    }

    /// Whether one of the children has the given name.
    pub open spec fn has_child_named(self, name: Seq<char>) -> bool {
        exists|i: int| 0 <= i < self.children.len() && (#[trigger] self.children[i]).name == name
    }

    /// The first node with a child of the given name, looked for as `find`
    /// looks; a node of that name has no such node at or below it.
    pub open spec fn find_parent(self, name: Seq<char>) -> Option<NodeView>
        decreases self, self.children.len() + 1,
    {
        if self.name == name {
            None
        } else if self.has_child_named(name) {
            Some(self)
        } else {
            self.find_parent_from(name, 0)
        }
    }

    /// As `find_parent`, among the children from the `i`-th on.
    pub open spec fn find_parent_from(self, name: Seq<char>, i: int) -> Option<NodeView>
        decreases self, self.children.len() - i,
    {
        if 0 <= i < self.children.len() {
            match self.children[i].find_parent(name) {
                Some(found) => Some(found),
                None => self.find_parent_from(name, i + 1),
            }
        } else {
            None
        }
    }
}

/// The children of a node's view are the views of its children.
pub proof fn lemma_children_view(node: Node)
    ensures
        node.node_view().children.len() == node.children@.len(),
        forall|i: int|
            0 <= i < node.children@.len() ==> #[trigger] node.node_view().children[i]
                == node.children@[i].node_view(),
{
    lemma_view_from(node, 0);
}

/// The views of the children from the `i`-th on.
pub proof fn lemma_view_from(node: Node, i: int)
    requires
        0 <= i <= node.children@.len(),
    ensures
        node.view_from(i).len() == node.children@.len() - i,
        forall|j: int|
            0 <= j < node.children@.len() - i ==> #[trigger] node.view_from(i)[j]
                == node.children@[i + j].node_view(),
    decreases node.children@.len() - i,
{
    if i < node.children@.len() {
        lemma_view_from(node, i + 1);
    }
}

impl View for NodeBuilder {
    type V = NodeView;

    /// A node under construction as contracts see it: its name and its
    /// properties; it has no children.
    open spec fn view(&self) -> NodeView {
        NodeView { name: self.name@, props: self.props_view(), children: Seq::empty() }
    }
}

impl NodeBuilder {
    /// The node that was built: its name and properties, without children.
    pub fn build(&self) -> (node: Node)
        ensures
            node.node_view() == self@,
    {
        let mut props: Vec<(String, Vec<u8>)> = Vec::new();
        let mut i: usize = 0;
        while i < self.props.len()
            invariant
                i <= self.props.len(),
                props_view(props@) == self.props_view().take(i as int),
            decreases self.props.len() - i,
        {
            let prop = &self.props[i];
            let ghost before = props@;
            props.push((prop.0.clone(), slice_to_vec(prop.1.as_slice())));
            assert(props_view(props@) =~= props_view(before).push(prop_view(*prop)));
            assert(self.props_view().take(i as int + 1) =~= self.props_view().take(i as int).push(
                prop_view(*prop),
            ));
            i += 1;
        }
        assert(self.props_view().take(self.props.len() as int) =~= self.props_view());
        let node = Node { name: self.name.clone(), props, children: Vec::new() };
        proof {
            lemma_children_view(node);
            assert(node.node_view().children =~= Seq::empty());
        }
        node
    }
}

/// Puts `child` below `root`, after the children it has.
pub fn add_child(root: &mut Node, child: Node)
    ensures
        final(root).node_view() == (NodeView {
            children: old(root).node_view().children.push(child.node_view()),
            ..old(root).node_view()
        }),
{
    root.children.push(child);
    proof {
        lemma_children_view(*root);
        lemma_children_view(*old(root));
        assert(root.node_view().children =~= old(root).node_view().children.push(
            child.node_view(),
        ));
    }
}

/// The first node of the given name at or below `root`.
fn find_node_util<'a>(root: &'a Node, name: &String) -> (found: Option<&'a Node>)
    ensures
        match found {
            Some(node) => root.node_view().find(name@) == Some(node.node_view()),
            None => root.node_view().find(name@) is None,
        },
    decreases root,
{
    if root.name == *name {
        return Some(root);
    }
    proof {
        lemma_children_view(*root);
    }
    let mut i: usize = 0;
    while i < root.children.len()
        invariant
            i <= root.children.len(),
            root.name@ != name@,
            root.node_view().children.len() == root.children@.len(),
            forall|j: int|
                0 <= j < root.children@.len() ==> #[trigger] root.node_view().children[j]
                    == root.children@[j].node_view(),
            root.node_view().find(name@) == root.node_view().find_from(name@, i as int),
        decreases root.children.len() - i,
    {
        match find_node_util(&root.children[i], name) {
            Some(node) => {
                return Some(node);
            },
            None => {},
        }
        i += 1;
    }
    None
}

/// The first node of the given name in the tree, the root before its
/// children and every child with all that is below it before the next.
pub fn find_node<'a>(dt: &'a DeviceTree, name: &str) -> (found: Option<&'a Node>)
    ensures
        match found {
            Some(node) => dt.root.node_view().find(name@) == Some(node.node_view()),
            None => dt.root.node_view().find(name@) is None,
        },
{
    let name = name.to_owned();
    find_node_util(&dt.root, &name)
}

/// Whether one of the children of `root` has the given name.
fn has_child_named(root: &Node, name: &String) -> (found: bool)
    ensures
        found == root.node_view().has_child_named(name@),
{
    proof {
        lemma_children_view(*root);
    }
    let mut i: usize = 0;
    while i < root.children.len()
        invariant
            i <= root.children.len(),
            root.node_view().children.len() == root.children@.len(),
            forall|j: int|
                0 <= j < root.children@.len() ==> #[trigger] root.node_view().children[j]
                    == root.children@[j].node_view(),
            forall|j: int| 0 <= j < i ==> (#[trigger] root.node_view().children[j]).name != name@,
        decreases root.children.len() - i,
    {
        if root.children[i].name == *name {
            assert(root.node_view().children[i as int].name == name@);
            return true;
        }
        i += 1;
    }
    false
}

/// The first node at or below `root` that has a child of the given name.
fn find_parent_node<'a>(root: &'a Node, name: &String) -> (found: Option<&'a Node>)
    ensures
        match found {
            Some(node) => root.node_view().find_parent(name@) == Some(node.node_view()),
            None => root.node_view().find_parent(name@) is None,
        },
    decreases root,
{
    if root.name == *name {
        return None;
    }
    if has_child_named(root, name) {
        return Some(root);
    }
    proof {
        lemma_children_view(*root);
    }
    let mut i: usize = 0;
    while i < root.children.len()
        invariant
            i <= root.children.len(),
            root.name@ != name@,
            !root.node_view().has_child_named(name@),
            root.node_view().children.len() == root.children@.len(),
            forall|j: int|
                0 <= j < root.children@.len() ==> #[trigger] root.node_view().children[j]
                    == root.children@[j].node_view(),
            root.node_view().find_parent(name@) == root.node_view().find_parent_from(
                name@,
                i as int,
            ),
        decreases root.children.len() - i,
    {
        match find_parent_node(&root.children[i], name) {
            Some(node) => {
                return Some(node);
            },
            None => {},
        }
        i += 1;
    }
    None
}

/// The first node of the tree that has a child of the given name. The root
/// itself has no parent.
pub fn find_parent<'a>(dt: &'a DeviceTree, name: &str) -> (found: Option<&'a Node>)
    ensures
        match found {
            Some(node) => dt.root.node_view().find_parent(name@) == Some(node.node_view()),
            None => dt.root.node_view().find_parent(name@) is None,
        },
{
    let name = name.to_owned();
    find_parent_node(&dt.root, &name)
}


/// The properties with the value of every property of the given key
/// replaced.
pub open spec fn props_set(props: Seq<(Seq<char>, Seq<u8>)>, key: Seq<char>, value: Seq<u8>) -> Seq<
    (Seq<char>, Seq<u8>),
> {
    props.map_values(
        |p: (Seq<char>, Seq<u8>)|
            if p.0 == key {
                (p.0, value)
            } else {
                p
            },
    )
}

impl NodeView {
    /// The tree in which the first node of the name `node_name`, found as
    /// `find` finds it, has the value of its properties of the key
    /// `prop_name` replaced. A tree without such a node stays as it is.
    pub open spec fn edited(
        self,
        node_name: Seq<char>,
        prop_name: Seq<char>,
        value: Seq<u8>,
    ) -> NodeView
        decreases self, self.children.len() + 1,
    {
        if self.name == node_name {
            NodeView { props: props_set(self.props, prop_name, value), ..self }
        } else {
            NodeView { children: self.edited_from(node_name, prop_name, value, 0), ..self }
        }
    }

    /// As `edited`, for the children from the `i`-th on.
    pub open spec fn edited_from(
        self,
        node_name: Seq<char>,
        prop_name: Seq<char>,
        value: Seq<u8>,
        i: int,
    ) -> Seq<NodeView>
        decreases self, self.children.len() - i,
    {
        if 0 <= i < self.children.len() {
            if self.children[i].find(node_name) is Some {
                seq![self.children[i].edited(node_name, prop_name, value)]
                    + self.children.subrange(i + 1, self.children.len() as int)
            } else {
                seq![self.children[i]] + self.edited_from(node_name, prop_name, value, i + 1)
            }
        } else {
            Seq::empty()
        }
    }
}

/// Where no child from the `k`-th on holds the node, none is edited.
pub proof fn lemma_edited_from_absent(
    view: NodeView,
    node_name: Seq<char>,
    prop_name: Seq<char>,
    value: Seq<u8>,
    k: int,
)
    requires
        0 <= k <= view.children.len(),
        forall|j: int| k <= j < view.children.len() ==> (#[trigger] view.children[j]).find(node_name) is None,
    ensures
        view.find_from(node_name, k) is None,
        view.edited_from(node_name, prop_name, value, k) == view.children.subrange(
            k,
            view.children.len() as int,
        ),
    decreases view.children.len() - k,
{
    if k < view.children.len() {
        lemma_edited_from_absent(view, node_name, prop_name, value, k + 1);
        assert(view.children[k].find(node_name) is None);
        assert(view.edited_from(node_name, prop_name, value, k) =~= view.children.subrange(
            k,
            view.children.len() as int,
        ));
    } else {
        assert(view.edited_from(node_name, prop_name, value, k) =~= view.children.subrange(
            k,
            view.children.len() as int,
        ));
    }
}

/// Where the `i`-th child is the first from the `k`-th on to hold the node,
/// it alone is edited.
pub proof fn lemma_edited_from_found(
    view: NodeView,
    node_name: Seq<char>,
    prop_name: Seq<char>,
    value: Seq<u8>,
    k: int,
    i: int,
)
    requires
        0 <= k <= i < view.children.len(),
        forall|j: int| k <= j < i ==> (#[trigger] view.children[j]).find(node_name) is None,
        view.children[i].find(node_name) is Some,
    ensures
        view.find_from(node_name, k) == view.children[i].find(node_name),
        view.edited_from(node_name, prop_name, value, k) == view.children.subrange(k, i).push(
            view.children[i].edited(node_name, prop_name, value),
        ) + view.children.subrange(i + 1, view.children.len() as int),
    decreases i - k,
{
    if k < i {
        lemma_edited_from_found(view, node_name, prop_name, value, k + 1, i);
        assert(view.children[k].find(node_name) is None);
    }
    assert(view.edited_from(node_name, prop_name, value, k) =~= view.children.subrange(k, i).push(
        view.children[i].edited(node_name, prop_name, value),
    ) + view.children.subrange(i + 1, view.children.len() as int));
}

/// The bytes of the cells, each most significant byte first.
fn cells_to_bytes(cells: &[u32]) -> (arr: Vec<u8>)
    ensures
        arr@ == be_cells_u32(cells@),
{
    let mut arr: Vec<u8> = Vec::new();
    let mut i: usize = 0;
    while i < cells.len()
        invariant
            i <= cells.len(),
            arr@ == be_cells_u32(cells@.take(i as int)),
        decreases cells.len() - i,
    {
        push_be_u32(&mut arr, cells[i]);
        proof {
            let next = cells@.take(i as int + 1);
            assert(next.drop_last() =~= cells@.take(i as int));
        }
        i += 1;
    }
    assert(cells@.take(cells.len() as int) =~= cells@);
    arr
}

/// Replaces the value of every property of the key `prop_name`.
fn set_props(props: &mut Vec<(String, Vec<u8>)>, prop_name: &String, value: &Vec<u8>)
    ensures
        props_view(final(props)@) == props_set(props_view(old(props)@), prop_name@, value@),
{
    let mut i: usize = 0;
    while i < props.len()
        invariant
            i <= props.len(),
            props@.len() == old(props)@.len(),
            forall|j: int|
                0 <= j < i ==> prop_view(#[trigger] props@[j]) == props_set(
                    props_view(old(props)@),
                    prop_name@,
                    value@,
                )[j],
            forall|j: int| i <= j < props@.len() ==> #[trigger] props@[j] == old(props)@[j],
        decreases props.len() - i,
    {
        if props[i].0 == *prop_name {
            let key = props[i].0.clone();
            props.set(i, (key, slice_to_vec(value.as_slice())));
        }
        i += 1;
    }
    assert(props_view(props@) =~= props_set(props_view(old(props)@), prop_name@, value@));
}

/// Replaces the value of every property of the key `prop_name` of `node`
/// by the cells of `new_value`, each most significant byte first.
pub fn edit_node_int(node: &mut Node, prop_name: &str, new_value: &Vec<u32>) -> (r: Result<()>)
    ensures
        r is Ok,
        final(node).node_view() == (NodeView {
            props: props_set(
                old(node).node_view().props,
                prop_name@,
                be_cells_u32(new_value@),
            ),
            ..old(node).node_view()
        }),
{
    let arr = cells_to_bytes(new_value.as_slice());
    let prop_name = prop_name.to_owned();
    set_props(&mut node.props, &prop_name, &arr);
    proof {
        lemma_children_view(*node);
        lemma_children_view(*old(node));
        assert(node.node_view().children =~= old(node).node_view().children);
    }
    Ok(())
}

/// Edits the first node of the name `node_name` at or below `root` and
/// says whether there was one.
fn edit_node(root: &mut Node, node_name: &String, prop_name: &String, value: &Vec<u8>) -> (found:
    bool)
    ensures
        found == (old(root).node_view().find(node_name@) is Some),
        final(root).node_view() == old(root).node_view().edited(
            node_name@,
            prop_name@,
            value@,
        ),
    decreases *old(root),
{
    let ghost before = root.node_view();
    proof {
        lemma_children_view(*root);
    }
    if root.name == *node_name {
        set_props(&mut root.props, prop_name, value);
        proof {
            lemma_children_view(*root);
            assert(root.node_view().children =~= before.children);
        }
        return true;
    }
    let mut i: usize = 0;
    while i < root.children.len()
        invariant
            i <= root.children.len(),
            before == old(root).node_view(),
            before.name != node_name@,
            root.name == old(root).name,
            root.props == old(root).props,
            root.children@.len() == old(root).children@.len(),
            before.children.len() == root.children@.len(),
            forall|j: int|
                0 <= j < root.children@.len() ==> (#[trigger] root.children@[j]).node_view()
                    == before.children[j],
            forall|j: int| i <= j < root.children@.len() ==> #[trigger] root.children@[j] == old(root).children@[j],
            forall|j: int| 0 <= j < i ==> (#[trigger] before.children[j]).find(node_name@) is None,
        decreases root.children.len() - i,
    {
        let ghost child = root.children@[i as int];
        let found = edit_node(&mut root.children[i], node_name, prop_name, value);
        if found {
            proof {
                lemma_edited_from_found(before, node_name@, prop_name@, value@, 0, i as int);
                lemma_children_view(*root);
                assert(root.node_view().children =~= before.edited_from(
                    node_name@,
                    prop_name@,
                    value@,
                    0,
                ));
            }
            return true;
        }
        proof {
            lemma_edited_absent(before.children[i as int], node_name@, prop_name@, value@);
        }
        i += 1;
    }
    proof {
        lemma_edited_from_absent(before, node_name@, prop_name@, value@, 0);
        lemma_children_view(*root);
        assert(root.node_view().children =~= before.children);
        assert(before.children.subrange(0, before.children.len() as int) =~= before.children);
    }
    false
}

/// A tree that does not hold the node stays as it is.
pub proof fn lemma_edited_absent(
    view: NodeView,
    node_name: Seq<char>,
    prop_name: Seq<char>,
    value: Seq<u8>,
)
    requires
        view.find(node_name) is None,
    ensures
        view.edited(node_name, prop_name, value) == view,
    decreases view,
{
    lemma_find_from_none(view, node_name, 0);
    lemma_edited_from_absent(view, node_name, prop_name, value, 0);
    assert(view.children.subrange(0, view.children.len() as int) =~= view.children);
}

/// Where nothing is found from the `k`-th child on, nothing is found in
/// any of those children.
pub proof fn lemma_find_from_none(view: NodeView, node_name: Seq<char>, k: int)
    requires
        0 <= k <= view.children.len(),
        view.find_from(node_name, k) is None,
    ensures
        forall|j: int| k <= j < view.children.len() ==> (#[trigger] view.children[j]).find(node_name) is None,
    decreases view.children.len() - k,
{
    if k < view.children.len() {
        lemma_find_from_none(view, node_name, k + 1);
    }
}

/// Replaces, in the first node of the name `node_name`, the value of every
/// property of the key `prop_name` by the cells of `value`, each most
/// significant byte first. A tree without such a node stays as it is.
pub fn edit_fdt_tree(dt: &mut DeviceTree, node_name: &str, prop_name: &str, value: &Vec<u32>) -> (r:
    Result<()>)
    ensures
        r is Ok,
        final(dt).root.node_view() == old(dt).root.node_view().edited(
            node_name@,
            prop_name@,
            be_cells_u32(value@),
        ),
        final(dt).version == old(dt).version,
        final(dt).boot_cpuid_phys == old(dt).boot_cpuid_phys,
        final(dt).reserved == old(dt).reserved,
{
    let arr = cells_to_bytes(value.as_slice());
    let node_name = node_name.to_owned();
    let prop_name = prop_name.to_owned();
    edit_node(&mut dt.root, &node_name, &prop_name, &arr);
    Ok(())
}


impl NodeView {
    /// The node that is reached from this one by stepping, for each index
    /// of the path in turn, to the child of that index.
    pub open spec fn at(self, path: Seq<usize>) -> Option<NodeView>
        decreases path.len(),
    {
        if path.len() == 0 {
            Some(self)
        } else if path[0] < self.children.len() {
            self.children[path[0] as int].at(path.skip(1))
        } else {
            None
        }
    }
}

/// The path that begins with the step to the child `i` and goes on as
/// `rest`.
fn path_through(i: usize, rest: Vec<usize>) -> (path: Vec<usize>)
    ensures
        path@ == seq![i] + rest@,
{
    let mut path: Vec<usize> = Vec::new();
    path.push(i);
    let mut k: usize = 0;
    while k < rest.len()
        invariant
            k <= rest.len(),
            path@ == seq![i] + rest@.take(k as int),
        decreases rest.len() - k,
    {
        path.push(rest[k]);
        assert(rest@.take(k as int + 1) =~= rest@.take(k as int).push(rest@[k as int]));
        k += 1;
    }
    assert(rest@.take(rest.len() as int) =~= rest@);
    path
}

/// The path to the first node of the given name at or below `root`.
fn find_node_path_util(root: &Node, name: &String) -> (path: Option<Vec<usize>>)
    ensures
        match path {
            Some(p) => root.node_view().find(name@) is Some && root.node_view().at(p@)
                == root.node_view().find(name@),
            None => root.node_view().find(name@) is None,
        },
    decreases root,
{
    if root.name == *name {
        return Some(Vec::new());
    }
    proof {
        lemma_children_view(*root);
    }
    let mut i: usize = 0;
    while i < root.children.len()
        invariant
            i <= root.children.len(),
            root.name@ != name@,
            root.node_view().children.len() == root.children@.len(),
            forall|j: int|
                0 <= j < root.children@.len() ==> #[trigger] root.node_view().children[j]
                    == root.children@[j].node_view(),
            root.node_view().find(name@) == root.node_view().find_from(name@, i as int),
        decreases root.children.len() - i,
    {
        match find_node_path_util(&root.children[i], name) {
            Some(rest) => {
                let path = path_through(i, rest);
                assert(path@.skip(1) =~= rest@);
                assert(path@[0] == i);
                return Some(path);
            },
            None => {},
        }
        i += 1;
    }
    None
}

/// The path from the root to the first node of the given name, as
/// `find_node` finds it: the index of a child for every step down.
pub fn find_node_path(dt: &DeviceTree, name: &str) -> (path: Option<Vec<usize>>)
    ensures
        match path {
            Some(p) => dt.root.node_view().find(name@) is Some && dt.root.node_view().at(p@)
                == dt.root.node_view().find(name@),
            None => dt.root.node_view().find(name@) is None,
        },
{
    let name = name.to_owned();
    find_node_path_util(&dt.root, &name)
}

/// The path to the first node at or below `root` that has a child of the
/// given name.
fn find_parent_path_util(root: &Node, name: &String) -> (path: Option<Vec<usize>>)
    ensures
        match path {
            Some(p) => root.node_view().find_parent(name@) is Some && root.node_view().at(p@)
                == root.node_view().find_parent(name@),
            None => root.node_view().find_parent(name@) is None,
        },
    decreases root,
{
    if root.name == *name {
        return None;
    }
    if has_child_named(root, name) {
        return Some(Vec::new());
    }
    proof {
        lemma_children_view(*root);
    }
    let mut i: usize = 0;
    while i < root.children.len()
        invariant
            i <= root.children.len(),
            root.name@ != name@,
            !root.node_view().has_child_named(name@),
            root.node_view().children.len() == root.children@.len(),
            forall|j: int|
                0 <= j < root.children@.len() ==> #[trigger] root.node_view().children[j]
                    == root.children@[j].node_view(),
            root.node_view().find_parent(name@) == root.node_view().find_parent_from(
                name@,
                i as int,
            ),
        decreases root.children.len() - i,
    {
        match find_parent_path_util(&root.children[i], name) {
            Some(rest) => {
                let path = path_through(i, rest);
                assert(path@.skip(1) =~= rest@);
                assert(path@[0] == i);
                return Some(path);
            },
            None => {},
        }
        i += 1;
    }
    None
}

/// The path from the root to the first node that has a child of the given
/// name, as `find_parent` finds it.
pub fn find_parent_path(dt: &DeviceTree, name: &str) -> (path: Option<Vec<usize>>)
    ensures
        match path {
            Some(p) => dt.root.node_view().find_parent(name@) is Some && dt.root.node_view().at(
                p@,
            ) == dt.root.node_view().find_parent(name@),
            None => dt.root.node_view().find_parent(name@) is None,
        },
{
    let name = name.to_owned();
    find_parent_path_util(&dt.root, &name)
}

} // verus!
