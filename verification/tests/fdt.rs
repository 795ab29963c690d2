use virtio_mmio::fdt_edit::writer::{
    add_node_writer, copy_from_fdt_tree, edit_fdt_tree_with_writer, edit_node_with_writer,
    modify_prop_regs,
};
use virtio_mmio::fdt_edit::{
    add_child, edit_fdt_tree, edit_node_int, find_node, find_node_path, find_parent,
    find_parent_path, DeviceTree, Error, Node, NodeBuilder,
};
use vm_fdt::FdtWriter;

fn node(name: &str, props: Vec<(&str, Vec<u8>)>, children: Vec<Node>) -> Node {
    Node {
        name: name.to_string(),
        props: props.into_iter().map(|(k, v)| (k.to_string(), v)).collect(),
        children,
    }
}

fn tree() -> DeviceTree {
    let cpu0 = node("cpu@0", vec![("reg", vec![0, 0, 0, 0])], vec![]);
    let cpu1 = node("cpu@1", vec![("reg", vec![0, 0, 0, 1])], vec![]);
    let cpus = node("cpus", vec![("reg", vec![9])], vec![cpu0, cpu1]);
    let inner = node("memory", vec![("reg", vec![7, 7]), ("status", vec![1])], vec![]);
    let soc = node("soc", vec![], vec![inner]);
    let memory = node(
        "memory",
        vec![("device_type", b"memory\0".to_vec()), ("reg", vec![1, 2, 3, 4]), ("reg", vec![5])],
        vec![],
    );
    DeviceTree {
        version: 17,
        boot_cpuid_phys: 3,
        reserved: vec![],
        root: node("root", vec![("reg", vec![8, 8])], vec![cpus, soc, memory]),
    }
}

#[test]
fn builder_writes_properties_in_order() {
    let mut b = NodeBuilder::new("chosen");
    assert_eq!(b.property_null("empty"), Ok(()));
    assert_eq!(b.property_string("bootargs", "console=tty0"), Ok(()));
    assert_eq!(b.property_u32("cells", 0x0102_0304), Ok(()));
    assert_eq!(b.property_u64("wide", 0x0102_0304_0506_0708), Ok(()));
    assert_eq!(b.property_array_u32("reg", &[1, 0x8000_0000]), Ok(()));
    assert_eq!(b.property_array_u64("ranges", &[0x1_0000_0000, 2]), Ok(()));
    assert_eq!(b.property_string_list("compatible", vec!["a,b".to_string(), "c".to_string()]), Ok(()));
    assert_eq!(b.add_property("raw", &[9, 8]), Ok(()));
    assert_eq!(b.name, "chosen");
    let expected: Vec<(String, Vec<u8>)> = vec![
        ("empty".to_string(), vec![]),
        ("bootargs".to_string(), b"console=tty0\0".to_vec()),
        ("cells".to_string(), vec![1, 2, 3, 4]),
        ("wide".to_string(), vec![1, 2, 3, 4, 5, 6, 7, 8]),
        ("reg".to_string(), vec![0, 0, 0, 1, 0x80, 0, 0, 0]),
        ("ranges".to_string(), vec![0, 0, 0, 1, 0, 0, 0, 0, 0, 0, 0, 0, 0, 0, 0, 2]),
        ("compatible".to_string(), b"a,b\0c\0".to_vec()),
        ("raw".to_string(), vec![9, 8]),
    ];
    assert_eq!(b.props, expected);
    let built = b.build();
    assert_eq!(built.name, "chosen");
    assert_eq!(built.props, expected);
    assert!(built.children.is_empty());
}

#[test]
fn builder_refuses_strings_with_nul() {
    let mut b = NodeBuilder::new("n");
    assert_eq!(b.property_string("a", "x\0y"), Err(Error::InvalidString));
    assert_eq!(
        b.property_string_list("b", vec!["ok".to_string(), "\0".to_string()]),
        Err(Error::InvalidString)
    );
    assert!(b.props.is_empty());
    assert_eq!(b.property_string("a", ""), Ok(()));
    assert_eq!(b.property_string_list("b", vec![]), Ok(()));
    assert_eq!(b.property_array_u32("c", &[]), Ok(()));
    assert_eq!(
        b.props,
        vec![("a".to_string(), vec![0]), ("b".to_string(), vec![]), ("c".to_string(), vec![])]
    );
}

#[test]
fn find_node_takes_the_first_in_document_order() {
    let dt = tree();
    assert_eq!(find_node(&dt, "root").unwrap().props[0].1, vec![8, 8]);
    assert_eq!(find_node(&dt, "cpu@1").unwrap().props[0].1, vec![0, 0, 0, 1]);
    // the memory node below soc comes before the one below the root
    assert_eq!(find_node(&dt, "memory").unwrap().props[0].1, vec![7, 7]);
    assert!(find_node(&dt, "missing").is_none());
    assert!(find_node(&dt, "").is_none());
}

#[test]
fn find_parent_takes_the_first_node_with_such_a_child() {
    let dt = tree();
    assert!(find_parent(&dt, "root").is_none());
    assert_eq!(find_parent(&dt, "cpus").unwrap().name, "root");
    assert_eq!(find_parent(&dt, "cpu@1").unwrap().name, "cpus");
    // a direct child of the root is found before one further down
    assert_eq!(find_parent(&dt, "memory").unwrap().name, "root");
    assert!(find_parent(&dt, "missing").is_none());
}

#[test]
fn add_child_puts_the_child_last() {
    let mut dt = tree();
    add_child(&mut dt.root, node("chosen", vec![], vec![]));
    assert_eq!(dt.root.children.len(), 4);
    assert_eq!(dt.root.children[3].name, "chosen");
    assert_eq!(find_parent(&dt, "chosen").unwrap().name, "root");
}

#[test]
fn edit_fdt_tree_edits_the_first_node_only() {
    let mut dt = tree();
    assert_eq!(edit_fdt_tree(&mut dt, "memory", "reg", &vec![0x0102_0304, 5]), Ok(()));
    let inner = &dt.root.children[1].children[0];
    assert_eq!(inner.props[0].1, vec![1, 2, 3, 4, 0, 0, 0, 5]);
    assert_eq!(inner.props[1].1, vec![1]);
    let outer = &dt.root.children[2];
    assert_eq!(outer.props[1].1, vec![1, 2, 3, 4]);
    assert_eq!(outer.props[2].1, vec![5]);
    assert_eq!(dt.boot_cpuid_phys, 3);

    assert_eq!(edit_fdt_tree(&mut dt, "missing", "reg", &vec![1]), Ok(()));
    assert_eq!(edit_fdt_tree(&mut dt, "root", "reg", &vec![]), Ok(()));
    assert_eq!(dt.root.props[0].1, Vec::<u8>::new());
    assert_eq!(dt.root.children[0].props[0].1, vec![9]);
}

#[test]
fn edit_node_int_replaces_every_property_of_the_name() {
    let mut n = node("n", vec![("reg", vec![1]), ("x", vec![2]), ("reg", vec![3])], vec![]);
    assert_eq!(edit_node_int(&mut n, "reg", &vec![0xaabb_ccdd]), Ok(()));
    assert_eq!(n.props[0].1, vec![0xaa, 0xbb, 0xcc, 0xdd]);
    assert_eq!(n.props[1].1, vec![2]);
    assert_eq!(n.props[2].1, vec![0xaa, 0xbb, 0xcc, 0xdd]);
}

fn reference(edit: Option<(&str, &str, &[u8])>) -> Vec<u8> {
    fn put(w: &mut FdtWriter, n: &Node, edit: Option<(&str, &str, &[u8])>) {
        let token = w.begin_node(&n.name).unwrap();
        for (k, v) in &n.props {
            match edit {
                Some((node, prop, value)) if n.name == node && k == prop => {
                    w.property(k, value).unwrap()
                }
                _ => w.property(k, v).unwrap(),
            }
        }
        for c in &n.children {
            put(w, c, edit);
        }
        w.end_node(token).unwrap();
    }
    let dt = tree();
    let mut w = FdtWriter::new().unwrap();
    w.set_boot_cpuid_phys(3);
    let root = w.begin_node("").unwrap();
    for (k, v) in &dt.root.props {
        w.property(k, v).unwrap();
    }
    for c in &dt.root.children {
        put(&mut w, c, edit);
    }
    w.end_node(root).unwrap();
    w.finish().unwrap()
}

#[test]
fn copy_from_fdt_tree_writes_the_tree() {
    let blob = copy_from_fdt_tree(&tree()).unwrap();
    assert_eq!(&blob[0..4], &[0xd0, 0x0d, 0xfe, 0xed]);
    assert_eq!(&blob[28..32], &[0, 0, 0, 3]);
    assert_eq!(blob, reference(None));
}

#[test]
fn edit_fdt_tree_with_writer_replaces_in_every_node_of_the_name() {
    let blob = edit_fdt_tree_with_writer(&tree(), "memory", "reg", &vec![0xee, 0xff]).unwrap();
    assert_eq!(blob, reference(Some(("memory", "reg", &[0xee, 0xff]))));
    assert_ne!(blob, reference(None));
    // the root is written as it is
    let blob = edit_fdt_tree_with_writer(&tree(), "root", "reg", &vec![0xee]).unwrap();
    assert_eq!(blob, reference(None));
}

#[test]
fn node_writers_write_below_an_open_node() {
    let dt = tree();
    let mut plain = FdtWriter::new().unwrap();
    let root = plain.begin_node("").unwrap();
    assert_eq!(add_node_writer(&mut plain, &dt.root.children[0]), Ok(()));
    plain.end_node(root).unwrap();

    let mut edited = FdtWriter::new().unwrap();
    let root = edited.begin_node("").unwrap();
    assert_eq!(
        edit_node_with_writer(&mut edited, &dt.root.children[0], "cpu@1", "reg", &vec![1, 1, 1, 1]),
        Ok(())
    );
    edited.end_node(root).unwrap();
    let plain = plain.finish().unwrap();
    let edited = edited.finish().unwrap();
    assert_eq!(plain.len(), edited.len());
    assert_ne!(plain, edited);
}

#[test]
fn writer_errors_are_handed_on() {
    let mut dt = tree();
    dt.root.children[0].props[0].0 = "bad name".to_string();
    assert_eq!(copy_from_fdt_tree(&dt), Err(Error::InvalidPropertyName));
    let mut dt = tree();
    dt.root.children[0].name = "9cpus".to_string();
    assert_eq!(copy_from_fdt_tree(&dt), Err(Error::InvalidNodeName));
    let mut dt = tree();
    dt.root.children[0].name = "a\0b".to_string();
    assert_eq!(copy_from_fdt_tree(&dt), Err(Error::InvalidString));
    let mut w = FdtWriter::new().unwrap();
    assert_eq!(
        edit_node_with_writer(&mut w, &tree().root.children[2], "x", "y", &vec![]),
        Ok(())
    );
    assert_eq!(
        add_node_writer(&mut w, &node("n", vec![], vec![])),
        Ok(())
    );
    let mut deep = node("leaf", vec![], vec![]);
    for _ in 0..70 {
        deep = node("n", vec![], vec![deep]);
    }
    let mut w = FdtWriter::new().unwrap();
    assert_eq!(add_node_writer(&mut w, &deep), Err(Error::NodeDepthTooLarge));
}

#[test]
fn reg_layouts_that_cannot_hold_the_address_are_refused() {
    let dt = tree();
    for acells in [0u32, 3, 4, 0xffff_ffff] {
        assert_eq!(
            modify_prop_regs(&dt, "memory", "reg", acells, 0x1000, 1, 0x1000),
            Err(Error::InvalidMemoryReservation)
        );
    }
    assert_eq!(
        modify_prop_regs(&dt, "memory", "reg", 1, 0x1_0000_0000, 1, 0x1000),
        Err(Error::InvalidMemoryReservation)
    );
}

#[test]
fn a_refused_node_leaves_what_was_taken_before() {
    // the second property is refused: the node has begun and its first
    // property is written, so the writer cannot finish
    let bad = node("n", vec![("ok", vec![1]), ("not ok", vec![2])], vec![]);
    let mut w = FdtWriter::new().unwrap();
    assert_eq!(add_node_writer(&mut w, &bad), Err(Error::InvalidPropertyName));
    assert_eq!(w.finish().unwrap_err(), vm_fdt::Error::UnclosedNode);

    // the node itself is refused: nothing is taken
    let refused = node("9", vec![("ok", vec![1])], vec![]);
    let mut w = FdtWriter::new().unwrap();
    assert_eq!(add_node_writer(&mut w, &refused), Err(Error::InvalidNodeName));
    let mut plain = FdtWriter::new().unwrap();
    let root = plain.begin_node("").unwrap();
    plain.end_node(root).unwrap();
    let root = w.begin_node("").unwrap();
    w.end_node(root).unwrap();
    assert_eq!(w.finish().unwrap(), plain.finish().unwrap());

    // a child is refused after its elder sibling was written whole
    let tree = node(
        "p",
        vec![],
        vec![node("a", vec![("x", vec![1])], vec![]), node("b@1@2", vec![], vec![])],
    );
    let mut w = FdtWriter::new().unwrap();
    assert_eq!(
        edit_node_with_writer(&mut w, &tree, "a", "x", &vec![9]),
        Err(Error::InvalidNodeName)
    );
    assert_eq!(w.finish().unwrap_err(), vm_fdt::Error::UnclosedNode);
}

#[test]
fn a_node_without_properties_and_children_is_taken() {
    let mut w = FdtWriter::new().unwrap();
    let root = w.begin_node("").unwrap();
    assert_eq!(add_node_writer(&mut w, &node("leaf", vec![], vec![])), Ok(()));
    assert_eq!(
        edit_node_with_writer(&mut w, &node("leaf@0", vec![], vec![]), "leaf@0", "reg", &vec![]),
        Ok(())
    );
    w.end_node(root).unwrap();
    let blob = w.finish().unwrap();

    let mut expected = FdtWriter::new().unwrap();
    let root = expected.begin_node("").unwrap();
    let a = expected.begin_node("leaf").unwrap();
    expected.end_node(a).unwrap();
    let b = expected.begin_node("leaf@0").unwrap();
    expected.end_node(b).unwrap();
    expected.end_node(root).unwrap();
    assert_eq!(blob, expected.finish().unwrap());
}

#[test]
fn paths_lead_to_what_the_searches_find() {
    let dt = tree();
    assert_eq!(find_node_path(&dt, "root"), Some(vec![]));
    assert_eq!(find_node_path(&dt, "cpus"), Some(vec![0]));
    assert_eq!(find_node_path(&dt, "cpu@1"), Some(vec![0, 1]));
    // the memory node below soc comes before the one below the root
    assert_eq!(find_node_path(&dt, "memory"), Some(vec![1, 0]));
    assert_eq!(find_node_path(&dt, "missing"), None);

    assert_eq!(find_parent_path(&dt, "root"), None);
    assert_eq!(find_parent_path(&dt, "cpus"), Some(vec![]));
    assert_eq!(find_parent_path(&dt, "cpu@0"), Some(vec![0]));
    assert_eq!(find_parent_path(&dt, "memory"), Some(vec![]));
    assert_eq!(find_parent_path(&dt, "missing"), None);

    let mut deep = node("a", vec![], vec![node("b", vec![], vec![node("c", vec![], vec![])])]);
    deep = node("r", vec![], vec![node("x", vec![], vec![]), deep]);
    let dt = DeviceTree { version: 17, boot_cpuid_phys: 0, reserved: vec![], root: deep };
    assert_eq!(find_node_path(&dt, "c"), Some(vec![1, 0, 0]));
    assert_eq!(find_parent_path(&dt, "c"), Some(vec![1, 0]));
    let path = find_node_path(&dt, "c").unwrap();
    let mut at = &dt.root;
    for i in path {
        at = &at.children[i];
    }
    assert_eq!(at.name, find_node(&dt, "c").unwrap().name);
}
