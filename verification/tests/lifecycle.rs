use rust_notes::lifecycle::{box_foo, parse_context, use_list, List, Manager};

#[test]
fn lifecycle_test() {
    let v = Some("aabbccdd");
    if let Err(x) = parse_context(&v) {
        println!("{}", x)
    }
    let vvv = vec![1u32, 2, 3, 4];
    {
        let bx = box_foo(&vvv);
        println!("1:{:?}", &bx.s);
    }
    println!("2:{:?}", &vvv);
}

#[test]
fn interface_borrowed_for_the_list_lifetime_still_writes_through() {
    let mut list = List { manager: Manager { text: "hello" } };
    let i = list.get_interface();
    assert_eq!(i.manager.text, "hello");
    i.manager.text = "changed";
    i.noop();
    let other = List { manager: Manager { text: "other" } };
    assert_eq!(use_list(&other), "other");
}
