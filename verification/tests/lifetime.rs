use rust_notes::lifetime::problem_lifetime_toolong_1::{use_list, List, Manager};
use rust_notes::lifetime::problem_lifetime_toolong_2::{bar, baz, Writer};
use rust_notes::lifetime::{box_foo, parse_context, Parser};

#[test]
fn lifetime_test() {
    let v = Some("aabbccdd");
    if let Err(x) = parse_context(&v) {
        println!("{}", x)
    }
    let vvv = vec![1u32, 2, 3, 4];
    {
        let bx = box_foo(&vvv);
        println!("1:{:?}", &bx.s);
    }
    println!("2:{:?}", &vvv);
}

#[test]
fn test_lifecycle() {
    let v = Some("aabbccdd");
    if let Err(x) = parse_context(&v) {
        println!("{}", x)
    }
    let vvv = vec![1u32, 2, 3, 4];
    {
        let bx = box_foo(&vvv);
        println!("1:{:?}", &bx.s);
    }
    println!("2:{:?}", &vvv);
}

#[test]
fn lifetime_test_lifetime_too_long() {
    let mut list = List { manager: Manager { text: "hello" } };
    list.get_interface().noop();
    println!("Interface should be dropped here and the borrow released");
    println!("{}", use_list(&list));
}

#[test]
fn parse_context_returns_the_string_or_a_fallback() {
    assert_eq!(parse_context(&Some("aabbccdd")), Err("aabbccdd"));
    assert_eq!(parse_context(&None), Err("xxxxx"));
    let o = Some("p");
    assert_eq!(Parser { context: &o }.parse(), &Some("p"));
}

#[test]
fn box_foo_borrows_its_argument() {
    let vvv = vec![1u32, 2, 3, 4];
    let bx = box_foo(&vvv);
    assert_eq!(bx.s, &vec![1u32, 2, 3, 4]);
    let s: &str = "unsized";
    let by = box_foo(s);
    assert_eq!(by.s, "unsized");
}

#[test]
fn interface_writes_reach_the_list() {
    let mut list = List { manager: Manager { text: "hello" } };
    {
        let i = list.get_interface();
        i.manager.text = "bye";
        i.noop();
    }
    assert_eq!(use_list(&list), "bye");
}

#[test]
fn writer_indents_each_line() {
    let mut s = String::from(">");
    let mut w = Writer { target: &mut s, indent: 2 };
    w.write("x");
    {
        let mut deeper = w.indent();
        deeper.write("y");
    }
    w.write("");
    assert_eq!(s, ">  x\n   y\n  \n");
}

#[test]
fn bar_writes_hello_deeper_then_world() {
    let mut s = String::new();
    let mut w = Writer { target: &mut s, indent: 1 };
    bar(&mut w);
    assert_eq!(w.indent, 1);
    baz(&mut w);
    assert_eq!(s, "  hello\n world\n hello\n");
}

#[test]
fn noop_leaves_the_list_as_it_was() {
    let mut list = List { manager: Manager { text: "hello" } };
    list.get_interface().noop();
    assert_eq!(use_list(&list), "hello");
}

#[test]
fn bar_from_indent_zero() {
    let mut s = String::new();
    let mut w = Writer { target: &mut s, indent: 0 };
    bar(&mut w);
    assert_eq!(w.indent, 0);
    assert_eq!(s, " hello\nworld\n");
}
